use xdcc_agent::dcc::{DccSend, DownloadProgress, Ipv4, PeerAddress};
use xdcc_agent::transfer::{
    Action, Event, Outcome, Phase, Transfer, CHUNK_SIZE, CONNECT_TIMEOUT_SECS,
};

fn passive() -> DccSend {
    DccSend::from_str("\u{1}DCC SEND report.mkv 1226420238 0 3498348389 22\u{1}").unwrap()
}

fn active() -> DccSend {
    DccSend::from_str("\u{1}DCC SEND report.mkv 1226420238 5000 10\u{1}").unwrap()
}

fn failed(action: &Action) -> Option<&str> {
    match action {
        Action::Stop { outcome: Outcome::Failed(reason) } => Some(reason.as_str()),
        _ => None,
    }
}

fn streaming(offer: &DccSend) -> Transfer {
    let (mut transfer, _) = offer.download(Ipv4::new(1), 0);
    if offer.is_passive() {
        transfer.step(Event::Bound { port: 1 });
        transfer.step(Event::OfferSent);
        transfer.step(Event::Accepted { peer: offer.address.ip() });
    } else {
        transfer.step(Event::Connected);
    }
    transfer.step(Event::FileCreated);
    let action = transfer.step(Event::AckSent);
    assert!(matches!(action, Action::Read { limit: CHUNK_SIZE }));
    transfer
}

#[test]
fn passive_offer_listens_and_replies_once() {
    let offer = passive();
    let (mut transfer, first) = offer.download(Ipv4::from_octets([10, 0, 0, 7]), 4000);
    assert!(matches!(first, Action::Bind { port: 4000 }));
    assert!(matches!(transfer.phase, Phase::Binding));
    assert_eq!(transfer.transferred, 0);

    let action = transfer.step(Event::Bound { port: 40000 });
    match action {
        Action::SendOffer { message } => {
            assert_eq!(message, "\u{1}DCC SEND report.mkv 167772167 40000 3498348389 22\u{1}")
        }
        other => panic!("{:?}", other),
    }
    let action = transfer.step(Event::OfferSent);
    assert!(matches!(action, Action::Accept { timeout_secs: 30 }));
    assert_eq!(CONNECT_TIMEOUT_SECS, 30);

    let action = transfer.step(Event::Accepted { peer: Ipv4::from_octets([73, 25, 176, 14]) });
    match action {
        Action::CreateFile { file_name } => assert_eq!(file_name, "report.mkv"),
        other => panic!("{:?}", other),
    }
    let action = transfer.step(Event::FileCreated);
    assert!(matches!(action, Action::SendAck { ack: [0, 0, 0, 0, 0, 0, 0, 0] }));
    let action = transfer.step(Event::AckSent);
    assert!(matches!(action, Action::Read { limit: 16384 }));
}

#[test]
fn passive_offer_rejects_another_peer() {
    let offer = passive();
    let (mut transfer, _) = offer.download(Ipv4::new(1), 0);
    transfer.step(Event::Bound { port: 40000 });
    transfer.step(Event::OfferSent);
    let action = transfer.step(Event::Accepted { peer: Ipv4::from_octets([73, 25, 176, 15]) });
    assert_eq!(failed(&action), Some("IP mismatch on connected client"));
    assert!(matches!(transfer.phase, Phase::Stopped(Outcome::Failed(_))));
    let action = transfer.step(Event::FileCreated);
    assert_eq!(failed(&action), Some("IP mismatch on connected client"));
    let action = transfer.step(Event::Data { len: 5 });
    assert_eq!(failed(&action), Some("IP mismatch on connected client"));
    assert_eq!(transfer.transferred, 0);
}

#[test]
fn active_offer_connects() {
    let offer = active();
    let (mut transfer, first) = offer.download(Ipv4::new(1), 4000);
    match first {
        Action::Connect { address, timeout_secs } => {
            assert_eq!(address, PeerAddress::new(Ipv4::new(1226420238), 5000));
            assert_eq!(timeout_secs, 30);
        }
        other => panic!("{:?}", other),
    }
    assert!(matches!(transfer.phase, Phase::Connecting));
    let action = transfer.step(Event::Connected);
    assert!(matches!(action, Action::CreateFile { .. }));
}

#[test]
fn waiting_runs_out() {
    let (mut transfer, _) = active().download(Ipv4::new(1), 0);
    let action = transfer.step(Event::TimedOut);
    assert_eq!(failed(&action), Some("deadline has elapsed"));

    let (mut transfer, _) = passive().download(Ipv4::new(1), 0);
    transfer.step(Event::Bound { port: 9 });
    transfer.step(Event::OfferSent);
    let action = transfer.step(Event::TimedOut);
    assert_eq!(failed(&action), Some("deadline has elapsed"));
}

#[test]
fn progress_counts_what_is_stored() {
    let mut transfer = streaming(&active());
    let mut total = 0;
    for len in [16384usize, 1, 700, 16384] {
        let action = transfer.step(Event::Data { len });
        total += len;
        match action {
            Action::Store { len: stored, progress } => {
                assert_eq!(stored, len);
                assert_eq!(progress, DownloadProgress { transferred_bytes: total });
            }
            other => panic!("{:?}", other),
        }
        assert!(matches!(transfer.phase, Phase::Storing));
        let action = transfer.step(Event::Stored);
        assert!(matches!(action, Action::Read { limit: 16384 }));
        let action = transfer.step(Event::NotReady);
        assert!(matches!(action, Action::Read { limit: 16384 }));
        assert_eq!(transfer.transferred, total);
    }
    assert_eq!(total, 33469);
    let action = transfer.step(Event::Data { len: 0 });
    assert!(matches!(action, Action::Flush));
    let action = transfer.step(Event::Flushed);
    assert!(matches!(action, Action::Stop { outcome: Outcome::Completed }));
    assert_eq!(transfer.transferred, 33469);
    let action = transfer.step(Event::Data { len: 9 });
    assert!(matches!(action, Action::Stop { outcome: Outcome::Completed }));
    assert_eq!(transfer.transferred, 33469);
}

#[test]
fn empty_file_completes() {
    let mut transfer = streaming(&passive());
    assert!(matches!(transfer.step(Event::Data { len: 0 }), Action::Flush));
    let action = transfer.step(Event::Flushed);
    assert!(matches!(action, Action::Stop { outcome: Outcome::Completed }));
    assert_eq!(transfer.transferred, 0);
}

#[test]
fn count_does_not_wrap() {
    let mut transfer = streaming(&active());
    transfer.step(Event::Data { len: usize::MAX });
    transfer.step(Event::Stored);
    let action = transfer.step(Event::Data { len: 1 });
    assert_eq!(failed(&action), Some("transferred bytes exceed the countable range"));
    assert_eq!(transfer.transferred, usize::MAX);
}

#[test]
fn failure_is_reported_with_its_reason() {
    let mut transfer = streaming(&active());
    transfer.step(Event::Data { len: 10 });
    let action = transfer.step(Event::Failed { reason: "disk full".to_string() });
    assert_eq!(failed(&action), Some("disk full"));
    let action = transfer.step(Event::Stored);
    assert_eq!(failed(&action), Some("disk full"));
}

#[test]
fn cancelling_is_no_failure() {
    let mut transfer = streaming(&passive());
    transfer.step(Event::Data { len: 10 });
    let action = transfer.step(Event::Cancelled);
    assert!(matches!(action, Action::Stop { outcome: Outcome::Aborted }));
    assert!(matches!(transfer.phase, Phase::Stopped(Outcome::Aborted)));
    let action = transfer.step(Event::Failed { reason: "late".to_string() });
    assert!(matches!(action, Action::Stop { outcome: Outcome::Aborted }));

    let (mut transfer, _) = passive().download(Ipv4::new(1), 0);
    let action = transfer.step(Event::Cancelled);
    assert!(matches!(action, Action::Stop { outcome: Outcome::Aborted }));
}

#[test]
fn event_out_of_turn_fails() {
    let (mut transfer, _) = passive().download(Ipv4::new(1), 0);
    let action = transfer.step(Event::Connected);
    assert_eq!(failed(&action), Some("event does not fit the state of the transfer"));

    let (mut transfer, _) = passive().download(Ipv4::new(1), 0);
    transfer.step(Event::Bound { port: 1 });
    let action = transfer.step(Event::Accepted { peer: Ipv4::new(1226420238) });
    assert_eq!(failed(&action), Some("event does not fit the state of the transfer"));

    let (mut transfer, _) = active().download(Ipv4::new(1), 0);
    let action = transfer.step(Event::Bound { port: 1 });
    assert_eq!(failed(&action), Some("event does not fit the state of the transfer"));

    let mut transfer = streaming(&active());
    let action = transfer.step(Event::Stored);
    assert_eq!(failed(&action), Some("event does not fit the state of the transfer"));
}
