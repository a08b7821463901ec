use xdcc_agent::dcc::DccSend;
use xdcc_agent::download::{
    DownloadIds, DownloadItem, DownloadProgress, DownloadRequest, DownloadStatus, Transition,
};
use xdcc_agent::server::{Aborted, Channel, OfferMatch, ServerConnection, RETRY_DELAY_SECS};
use xdcc_agent::transfer::Outcome;

fn request(file_name: &str, nick: &str, command: &str) -> DownloadRequest {
    DownloadRequest {
        server: "irc.example.org".to_string(),
        file_name: file_name.to_string(),
        nick: nick.to_string(),
        command: command.to_string(),
    }
}

fn offer(file_name: &str) -> DccSend {
    let text = format!("\u{1}DCC SEND {} 1226420238 0 100\u{1}", file_name);
    DccSend::from_str(&text).unwrap()
}

fn status(connection: &ServerConnection, id: usize) -> DownloadStatus {
    let all = connection.downloads();
    let found: Vec<&DownloadItem> = all.iter().filter(|item| item.id == id).collect();
    assert_eq!(found.len(), 1);
    found[0].status.clone()
}

fn two_requested() -> ServerConnection {
    let mut connection = ServerConnection::new(vec![], 1000);
    connection.request_download(0, request("first.mkv", "Alice", "xdcc send #1"));
    connection.request_download(1, request("second.mkv", "Bob", "xdcc send #2"));
    connection
}

#[test]
fn ids_rise_and_run_out() {
    let mut ids = DownloadIds::new();
    assert_eq!(ids.allocate(), Some(0));
    assert_eq!(ids.allocate(), Some(1));
    assert_eq!(ids.allocate(), Some(2));
    let mut last = DownloadIds { next: usize::MAX - 1 };
    assert_eq!(last.allocate(), Some(usize::MAX - 1));
    assert_eq!(last.allocate(), None);
    assert_eq!(last.allocate(), None);
    assert_eq!(last.next, usize::MAX);
}

#[test]
fn request_is_taken_up_and_gives_its_message() {
    let mut connection = ServerConnection::new(vec![], 5);
    assert!(connection.downloads().is_empty());
    let message = connection.request_download(7, request("a.mkv", "Bot", "xdcc send #3"));
    assert_eq!(message.target, "Bot");
    assert_eq!(message.text, "xdcc send #3");
    let all = connection.downloads();
    assert_eq!(all.len(), 1);
    assert_eq!(all[0].id, 7);
    assert_eq!(all[0].server, "irc.example.org");
    assert_eq!(all[0].file_name, "a.mkv");
    assert_eq!(all[0].nick, "Bot");
    assert_eq!(all[0].request_command, "xdcc send #3");
    assert!(matches!(all[0].status, DownloadStatus::Requested));
}

#[test]
fn offer_starts_the_download_of_its_file_only() {
    let mut connection = two_requested();
    let result = connection.accept_offer(&offer("second.mkv"));
    assert_eq!(result, OfferMatch::Start(1));
    assert!(matches!(status(&connection, 0), DownloadStatus::Requested));
    assert!(matches!(status(&connection, 1), DownloadStatus::Connecting));
}

#[test]
fn second_offer_is_ignored() {
    let mut connection = two_requested();
    assert_eq!(connection.accept_offer(&offer("first.mkv")), OfferMatch::Start(0));
    assert_eq!(connection.accept_offer(&offer("first.mkv")), OfferMatch::Busy(0));
    assert!(matches!(status(&connection, 0), DownloadStatus::Connecting));
    assert!(matches!(status(&connection, 1), DownloadStatus::Requested));
}

#[test]
fn offer_during_the_transfer_is_ignored() {
    let mut connection = two_requested();
    connection.accept_offer(&offer("first.mkv"));
    connection.progress(&0, 10, Some(100));
    assert_eq!(connection.accept_offer(&offer("first.mkv")), OfferMatch::Busy(0));
    assert!(matches!(status(&connection, 0), DownloadStatus::Progress(_)));
    connection.finish(&0, Outcome::Failed("lost".to_string()));
    assert_eq!(connection.accept_offer(&offer("first.mkv")), OfferMatch::Start(0));
    assert!(matches!(status(&connection, 0), DownloadStatus::Connecting));
}

#[test]
fn offer_for_an_unknown_file() {
    let mut connection = two_requested();
    assert_eq!(connection.accept_offer(&offer("third.mkv")), OfferMatch::Unknown);
    assert_eq!(connection.accept_offer(&offer("First.mkv")), OfferMatch::Unknown);
    assert!(matches!(status(&connection, 0), DownloadStatus::Requested));
    assert!(matches!(status(&connection, 1), DownloadStatus::Requested));
    let mut empty = ServerConnection::new(vec![], 0);
    assert_eq!(empty.accept_offer(&offer("first.mkv")), OfferMatch::Unknown);
}

#[test]
fn offer_goes_to_the_smallest_number() {
    let mut connection = ServerConnection::new(vec![], 0);
    connection.request_download(9, request("same.mkv", "A", "c9"));
    connection.request_download(4, request("same.mkv", "B", "c4"));
    connection.request_download(6, request("same.mkv", "C", "c6"));
    assert_eq!(connection.accept_offer(&offer("same.mkv")), OfferMatch::Start(4));
    assert_eq!(connection.accept_offer(&offer("same.mkv")), OfferMatch::Busy(4));
    assert!(matches!(status(&connection, 9), DownloadStatus::Requested));
    assert!(matches!(status(&connection, 6), DownloadStatus::Requested));
}

#[test]
fn throttle_delays_the_requested() {
    let mut connection = two_requested();
    connection.accept_offer(&offer("second.mkv"));
    let until = connection.mark_downloads_delayed();
    assert_eq!(until, 1070);
    assert_eq!(RETRY_DELAY_SECS, 70);
    assert!(matches!(status(&connection, 0), DownloadStatus::Delayed(1070)));
    assert!(matches!(status(&connection, 1), DownloadStatus::Connecting));
}

#[test]
fn retry_sends_each_command_again() {
    let mut connection = two_requested();
    connection.mark_downloads_delayed();
    let mut messages: Vec<(String, String)> = connection
        .retry_commands()
        .into_iter()
        .map(|message| (message.target, message.text))
        .collect();
    messages.sort();
    assert_eq!(
        messages,
        vec![
            ("Alice".to_string(), "xdcc send #1".to_string()),
            ("Bob".to_string(), "xdcc send #2".to_string()),
        ]
    );
    assert!(ServerConnection::new(vec![], 0).retry_commands().is_empty());
}

#[test]
fn delayed_download_takes_an_offer() {
    let mut connection = two_requested();
    connection.mark_downloads_delayed();
    assert_eq!(connection.accept_offer(&offer("first.mkv")), OfferMatch::Start(0));
    assert!(matches!(status(&connection, 0), DownloadStatus::Connecting));
    assert!(matches!(status(&connection, 1), DownloadStatus::Delayed(1070)));
}

#[test]
fn missing_nick_marks_its_downloads() {
    let mut connection = ServerConnection::new(vec![], 0);
    connection.request_download(0, request("a.mkv", "Foo{bar}", "c0"));
    connection.request_download(1, request("b.mkv", "foo[bar]", "c1"));
    connection.request_download(2, request("c.mkv", "foo(bar)", "c2"));
    connection.request_download(3, request("d.mkv", "FOO[BAR]", "c3"));
    connection.accept_offer(&offer("d.mkv"));
    connection.handle_sender_gone("foo[bar]");
    assert!(matches!(status(&connection, 0), DownloadStatus::SenderAbsent));
    assert!(matches!(status(&connection, 1), DownloadStatus::SenderAbsent));
    assert!(matches!(status(&connection, 2), DownloadStatus::Requested));
    assert!(matches!(status(&connection, 3), DownloadStatus::SenderAbsent));
    let all = connection.downloads();
    assert_eq!(all.len(), 4);
    for item in all {
        assert_eq!(item.request_command, format!("c{}", item.id));
    }
}

#[test]
fn progress_and_failure_show_in_the_state() {
    let mut connection = two_requested();
    connection.accept_offer(&offer("first.mkv"));
    connection.progress(&0, 16384, Some(100));
    match status(&connection, 0) {
        DownloadStatus::Progress(progress) => {
            assert_eq!(progress, DownloadProgress { transferred: 16384, file_size: Some(100) })
        }
        other => panic!("{:?}", other),
    }
    connection.finish(&0, Outcome::Failed("IP mismatch on connected client".to_string()));
    match status(&connection, 0) {
        DownloadStatus::Failed(reason) => assert_eq!(reason, "IP mismatch on connected client"),
        other => panic!("{:?}", other),
    }
    assert!(matches!(status(&connection, 1), DownloadStatus::Requested));
    connection.progress(&5, 1, None);
    connection.finish(&5, Outcome::Failed("x".to_string()));
    assert_eq!(connection.downloads().len(), 2);
}

#[test]
fn completed_download_leaves() {
    let mut connection = two_requested();
    connection.accept_offer(&offer("first.mkv"));
    connection.finish(&0, Outcome::Completed);
    let all = connection.downloads();
    assert_eq!(all.len(), 1);
    assert_eq!(all[0].id, 1);
    connection.completed(&1);
    assert!(connection.downloads().is_empty());
    connection.completed(&1);
    assert!(connection.downloads().is_empty());
}

#[test]
fn abort_removes_and_cancels() {
    let mut connection = two_requested();
    connection.request_download(2, request("third.mkv", "Carol", "c"));
    connection.accept_offer(&offer("first.mkv"));
    connection.accept_offer(&offer("second.mkv"));
    connection.progress(&1, 10, None);
    assert_eq!(connection.abort_download(&0), Aborted::Cancelled);
    assert_eq!(connection.abort_download(&1), Aborted::Cancelled);
    assert_eq!(connection.abort_download(&2), Aborted::Removed);
    assert!(connection.downloads().is_empty());
    assert_eq!(connection.abort_download(&0), Aborted::NotFound);
    assert_eq!(connection.abort_download(&77), Aborted::NotFound);
}

#[test]
fn aborted_download_never_fails() {
    let mut connection = two_requested();
    connection.accept_offer(&offer("first.mkv"));
    assert_eq!(connection.abort_download(&0), Aborted::Cancelled);
    connection.progress(&0, 10, None);
    connection.finish(&0, Outcome::Aborted);
    connection.finish(&0, Outcome::Failed("cancelled".to_string()));
    let all = connection.downloads();
    assert_eq!(all.len(), 1);
    assert_eq!(all[0].id, 1);
    assert!(matches!(all[0].status, DownloadStatus::Requested));
}

#[test]
fn aborted_outcome_changes_nothing() {
    let mut connection = two_requested();
    connection.accept_offer(&offer("first.mkv"));
    connection.finish(&0, Outcome::Aborted);
    assert!(matches!(status(&connection, 0), DownloadStatus::Connecting));
}

#[test]
fn transitions_one_by_one() {
    let item = DownloadItem::new(3, request("a.mkv", "Nick", "cmd"));
    let item = item.apply(&Transition::SenderGone { nick: "other".to_string() });
    assert!(matches!(item.status, DownloadStatus::Requested));
    let item = item.apply(&Transition::Delay { until: 9 });
    assert!(matches!(item.status, DownloadStatus::Delayed(9)));
    let item = item.apply(&Transition::Delay { until: 10 });
    assert!(matches!(item.status, DownloadStatus::Delayed(9)));
    assert!(!item.is_transferring());
    let item = item.apply(&Transition::Connect);
    assert!(matches!(item.status, DownloadStatus::Connecting));
    assert!(item.is_transferring());
    let item =
        item.apply(&Transition::Progress(DownloadProgress { transferred: 1, file_size: None }));
    assert!(item.is_transferring());
    let item = item.apply(&Transition::Fail { reason: "r".to_string() });
    assert!(!item.is_transferring());
    assert!(matches!(&item.status, DownloadStatus::Failed(reason) if reason == "r"));
    let item = item.apply(&Transition::SenderGone { nick: "NICK".to_string() });
    assert!(matches!(item.status, DownloadStatus::SenderAbsent));
    assert_eq!(item.id, 3);
    assert_eq!(item.file_name, "a.mkv");
    assert_eq!(item.nick, "Nick");
    assert_eq!(item.request_command, "cmd");
}

#[test]
fn copies_are_equal() {
    let item = DownloadItem::new(3, request("a.mkv", "Nick", "cmd"));
    let item = item.apply(&Transition::Fail { reason: "gone".to_string() });
    let copy = item.duplicate();
    assert_eq!(copy.id, 3);
    assert_eq!(copy.server, "irc.example.org");
    assert_eq!(copy.file_name, "a.mkv");
    assert_eq!(copy.nick, "Nick");
    assert_eq!(copy.request_command, "cmd");
    assert!(matches!(&copy.status, DownloadStatus::Failed(reason) if reason == "gone"));
    assert!(matches!(DownloadStatus::Delayed(4).duplicate(), DownloadStatus::Delayed(4)));
    assert!(matches!(DownloadStatus::Requested.duplicate(), DownloadStatus::Requested));
    assert!(matches!(DownloadStatus::Connecting.duplicate(), DownloadStatus::Connecting));
    assert!(matches!(DownloadStatus::SenderAbsent.duplicate(), DownloadStatus::SenderAbsent));
    let progress = DownloadProgress { transferred: 5, file_size: Some(9) };
    assert!(matches!(
        DownloadStatus::Progress(progress).duplicate(),
        DownloadStatus::Progress(copy) if copy == progress
    ));
}

#[test]
fn channels_to_join_and_to_search() {
    let channels = vec![
        Channel { name: "#one".to_string(), search: true },
        Channel { name: "#two".to_string(), search: false },
        Channel { name: "#three".to_string(), search: true },
    ];
    let connection = ServerConnection::new(channels, 0);
    assert_eq!(connection.join_channels(), vec!["#one", "#two", "#three"]);
    let messages = connection.search("some file");
    assert_eq!(messages.len(), 2);
    assert_eq!(messages[0].target, "#one");
    assert_eq!(messages[0].text, "!s some file");
    assert_eq!(messages[1].target, "#three");
    assert_eq!(messages[1].text, "!s some file");
    let none = ServerConnection::new(vec![], 0);
    assert!(none.join_channels().is_empty());
    assert!(none.search("x").is_empty());
}
