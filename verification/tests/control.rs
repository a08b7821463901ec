use xdcc_agent::control::{Incoming, Reaction, ERR_NOSUCHNICK, RPL_WELCOME, THROTTLED};
use xdcc_agent::download::{DownloadRequest, DownloadStatus};
use xdcc_agent::server::{Channel, ServerConnection};

fn connection() -> ServerConnection {
    let channels = vec![
        Channel { name: "#one".to_string(), search: true },
        Channel { name: "#two".to_string(), search: false },
    ];
    let mut connection = ServerConnection::new(channels, 30);
    for (id, file_name, nick) in [(0, "first.mkv", "Alice"), (1, "second.mkv", "Bob")] {
        connection.request_download(
            id,
            DownloadRequest {
                server: "net".to_string(),
                file_name: file_name.to_string(),
                nick: nick.to_string(),
                command: format!("xdcc send #{}", id),
            },
        );
    }
    connection
}

fn privmsg(sender: Option<&str>, text: &str) -> Incoming {
    Incoming::Privmsg {
        sender: sender.map(|nick| nick.to_string()),
        target: "me".to_string(),
        text: text.to_string(),
    }
}

fn statuses(connection: &ServerConnection) -> Vec<DownloadStatus> {
    let mut all = connection.downloads();
    all.sort_by_key(|item| item.id);
    all.into_iter().map(|item| item.status).collect()
}

#[test]
fn offer_for_the_second_of_two_downloads() {
    let mut connection = connection();
    let message = privmsg(Some("Bob"), "\u{1}DCC SEND second.mkv 1226420238 0 3498348389 22\u{1}");
    match connection.handle("net", message) {
        Reaction::StartTransfer { id, offer, nick } => {
            assert_eq!(id, 1);
            assert_eq!(nick, "Bob");
            assert_eq!(offer.file_name, "second.mkv");
            assert!(offer.is_passive());
            assert_eq!(offer.file_size, Some(3498348389));
        }
        other => panic!("{:?}", other),
    }
    let statuses = statuses(&connection);
    assert!(matches!(statuses[0], DownloadStatus::Requested));
    assert!(matches!(statuses[1], DownloadStatus::Connecting));
}

#[test]
fn repeated_and_unknown_offers() {
    let mut connection = connection();
    let text = "\u{1}DCC SEND first.mkv 1 2\u{1}";
    assert!(matches!(
        connection.handle("net", privmsg(Some("Alice"), text)),
        Reaction::StartTransfer { id: 0, .. }
    ));
    assert!(matches!(
        connection.handle("net", privmsg(Some("Alice"), text)),
        Reaction::OfferIgnored { id: 0 }
    ));
    match connection.handle("net", privmsg(Some("Eve"), "\u{1}DCC SEND other.mkv 1 2\u{1}")) {
        Reaction::OfferUnmatched { offer } => assert_eq!(offer.file_name, "other.mkv"),
        other => panic!("{:?}", other),
    }
    let statuses = statuses(&connection);
    assert!(matches!(statuses[0], DownloadStatus::Connecting));
    assert!(matches!(statuses[1], DownloadStatus::Requested));
}

#[test]
fn messages_that_offer_nothing() {
    let mut connection = connection();
    assert!(matches!(connection.handle("net", privmsg(Some("Bob"), "hello")), Reaction::Nothing));
    let from_server = privmsg(None, "\u{1}DCC SEND second.mkv 1 2\u{1}");
    assert!(matches!(connection.handle("net", from_server), Reaction::Nothing));
    assert!(matches!(connection.handle("net", Incoming::Other), Reaction::Nothing));
    let statuses = statuses(&connection);
    assert!(matches!(statuses[0], DownloadStatus::Requested));
    assert!(matches!(statuses[1], DownloadStatus::Requested));
}

#[test]
fn welcome_joins_the_channels() {
    let mut connection = connection();
    let message = Incoming::Response { code: RPL_WELCOME, args: vec!["hi".to_string()] };
    match connection.handle("net", message) {
        Reaction::JoinChannels { names } => assert_eq!(names, vec!["#one", "#two"]),
        other => panic!("{:?}", other),
    }
    assert_eq!(RPL_WELCOME, 1);
}

#[test]
fn notice_with_a_listing() {
    let mut connection = connection();
    let text = "\u{3}04file.mkv\u{3} | /msg Bot xdcc send #12".to_string();
    match connection.handle("net", Incoming::Notice { text }) {
        Reaction::SearchHit { result } => {
            assert_eq!(result.server, "net");
            assert_eq!(result.file_name, "file.mkv");
            assert_eq!(result.nick, "Bot");
            assert_eq!(result.command, "xdcc send #12");
        }
        other => panic!("{:?}", other),
    }
    let text = "nothing to see".to_string();
    assert!(matches!(connection.handle("net", Incoming::Notice { text }), Reaction::Nothing));
}

#[test]
fn unknown_nick_marks_the_sender() {
    let mut connection = connection();
    let args = vec!["me".to_string(), "ALICE".to_string(), "No such nick".to_string()];
    let message = Incoming::Response { code: ERR_NOSUCHNICK, args };
    assert!(matches!(connection.handle("net", message), Reaction::SenderMarked));
    let after = statuses(&connection);
    assert!(matches!(after[0], DownloadStatus::SenderAbsent));
    assert!(matches!(after[1], DownloadStatus::Requested));
    assert_eq!(ERR_NOSUCHNICK, 401);

    let message = Incoming::Response { code: ERR_NOSUCHNICK, args: vec!["Bob".to_string()] };
    assert!(matches!(connection.handle("net", message), Reaction::Nothing));
    let message = Incoming::Response { code: 402, args: vec!["me".to_string(), "Bob".to_string()] };
    assert!(matches!(connection.handle("net", message), Reaction::Nothing));
    assert!(matches!(statuses(&connection)[1], DownloadStatus::Requested));
}

#[test]
fn throttle_asks_for_a_retry() {
    let mut connection = connection();
    let message = Incoming::Raw { command: "531".to_string() };
    assert!(matches!(connection.handle("net", message), Reaction::RetryAt { until: 100 }));
    let after = statuses(&connection);
    assert!(matches!(after[0], DownloadStatus::Delayed(100)));
    assert!(matches!(after[1], DownloadStatus::Delayed(100)));
    assert_eq!(THROTTLED, "531");

    let mut connection = self::connection();
    let message = Incoming::Raw { command: "530".to_string() };
    assert!(matches!(connection.handle("net", message), Reaction::Nothing));
    assert!(matches!(statuses(&connection)[0], DownloadStatus::Requested));
}
