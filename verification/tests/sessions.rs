use clipchamp::client::{
    check_welcome, next_backoff, reconnect_pause, server_message_action, server_target, ClientAction, ServerTarget, INITIAL_BACKOFF_SECS,
    MAX_BACKOFF_SECS,
};
use clipchamp::discovery::{service_names, SERVICE_TYPE};
use clipchamp::history::cli::{CliError, CliStep, HistoryAction, HistorySession, LIST_COUNT};
use clipchamp::protocol::{
    content_hash, hello, local_update, ClientId, ClipboardContent, ContentType, HandshakeError, HistoryEntry, Message,
    PROTOCOL_VERSION,
};
use clipchamp::server::{bind_port, check_hello, client_message_action, recipients, ServerAction};

fn id(n: u128) -> ClientId {
    ClientId { value: n }
}

fn update(data: &[u8], origin: u128) -> Message {
    Message::ClipboardUpdate {
        content_type: ContentType::Text,
        data: data.to_vec(),
        hash: content_hash(data),
        origin_client: id(origin),
    }
}

fn entry(index: usize, hash_byte: u8) -> HistoryEntry {
    HistoryEntry {
        index,
        content_type: ContentType::Text,
        hash: [hash_byte; 32],
        origin_client: id(1),
        preview: "p".to_string(),
        size_bytes: 1,
        timestamp_secs: 0,
    }
}

#[test]
fn server_accepts_hello_of_its_version_only() {
    assert_eq!(check_hello(&hello(id(5))), Ok(id(5)));
    assert_eq!(
        check_hello(&Message::Hello { client_id: id(5), protocol_version: PROTOCOL_VERSION + 1 }),
        Err(HandshakeError::VersionMismatch { client_id: id(5), protocol_version: 2 })
    );
    assert_eq!(check_hello(&Message::Ping), Err(HandshakeError::UnexpectedMessage));
}

#[test]
fn client_accepts_welcome_only() {
    assert_eq!(check_welcome(&Message::Welcome { client_id: id(9) }), Ok(id(9)));
    assert_eq!(check_welcome(&hello(id(9))), Err(HandshakeError::UnexpectedMessage));
}

#[test]
fn server_relays_updates_within_limit() {
    match client_message_action(update(b"abc", 7), id(3), 3) {
        ServerAction::Relay { update, sender } => {
            assert_eq!(sender, id(3));
            assert_eq!(update.origin_client, id(7));
            assert_eq!(update.data, b"abc");
            assert_eq!(update.content().data, b"abc");
            match update.to_message() {
                Message::ClipboardUpdate { data, hash, .. } => {
                    assert_eq!(data, b"abc");
                    assert_eq!(hash, content_hash(b"abc"));
                }
                _ => panic!("not an update"),
            }
        }
        _ => panic!("update not relayed"),
    }
    assert!(matches!(client_message_action(update(b"abcd", 7), id(3), 3), ServerAction::DropOversized));
}

#[test]
fn server_answers_history_requests() {
    assert!(matches!(client_message_action(Message::Pong, id(1), 10), ServerAction::Ignore));
    assert!(matches!(
        client_message_action(Message::HistoryRequest { count: 4 }, id(1), 10),
        ServerAction::SendHistory { count: 4 }
    ));
    assert!(matches!(
        client_message_action(Message::HistoryFetch { hash: [2; 32] }, id(1), 10),
        ServerAction::FetchHistory { hash } if hash == [2; 32]
    ));
    assert!(matches!(client_message_action(Message::HistoryClear, id(1), 10), ServerAction::ClearHistory));
    assert!(matches!(client_message_action(Message::Ping, id(1), 10), ServerAction::Unexpected));
}

#[test]
fn broadcast_skips_the_sender() {
    let ids = vec![id(1), id(2), id(3)];
    assert_eq!(recipients(&ids, Some(id(2))), vec![id(1), id(3)]);
    assert_eq!(recipients(&ids, None), ids);
    assert_eq!(recipients(&ids, Some(id(4))), ids);
    assert!(recipients(&vec![], Some(id(1))).is_empty());
}

#[test]
fn bind_port_reads_after_last_colon() {
    assert_eq!(bind_port("0.0.0.0:9090"), 9090);
    assert_eq!(bind_port("127.0.0.1:4000"), 4000);
    assert_eq!(bind_port("[::1]:8080"), 8080);
    assert_eq!(bind_port("host:+81"), 81);
    assert_eq!(bind_port("host:65535"), 65535);
    assert_eq!(bind_port("host:65536"), 9090);
    assert_eq!(bind_port("host:-1"), 9090);
    assert_eq!(bind_port("host:"), 9090);
    assert_eq!(bind_port("host:+"), 9090);
    assert_eq!(bind_port("host:80a"), 9090);
    assert_eq!(bind_port("1234"), 1234);
    assert_eq!(bind_port("host:99999999999999999999"), 9090);
}

#[test]
fn local_update_hashes_and_limits() {
    let c = ClipboardContent { content_type: ContentType::Url, data: b"https://a".to_vec() };
    match local_update(c.clone(), 9, id(4)) {
        Some(Message::ClipboardUpdate { content_type, data, hash, origin_client }) => {
            assert_eq!(content_type, ContentType::Url);
            assert_eq!(data, b"https://a");
            assert_eq!(hash, content_hash(b"https://a"));
            assert_eq!(origin_client, id(4));
        }
        _ => panic!("no update"),
    }
    assert!(local_update(c, 8, id(4)).is_none());
}

#[test]
fn client_ignores_its_own_updates() {
    assert!(matches!(server_message_action(update(b"x", 1), id(1)), ClientAction::IgnoreOwnUpdate));
    match server_message_action(update(b"x", 2), id(1)) {
        ClientAction::WriteClipboard(c) => assert_eq!(c.data, b"x"),
        _ => panic!("remote update not written"),
    }
    assert!(matches!(server_message_action(Message::Ping, id(1)), ClientAction::SendPong));
    assert!(matches!(server_message_action(Message::HistoryClearAck, id(1)), ClientAction::HistoryCleared));
    assert!(matches!(server_message_action(Message::Pong, id(1)), ClientAction::Unexpected));
    match server_message_action(Message::HistoryResponse { entries: vec![entry(1, 0)] }, id(1)) {
        ClientAction::ShowHistory(e) => assert_eq!(e.len(), 1),
        _ => panic!("history not shown"),
    }
    match server_message_action(Message::HistoryContent { content_type: ContentType::Image, data: vec![1] }, id(1)) {
        ClientAction::WriteHistoryContent(c) => assert_eq!(c.content_type, ContentType::Image),
        _ => panic!("history content not written"),
    }
}

#[test]
fn backoff_doubles_up_to_thirty_seconds() {
    let mut b = INITIAL_BACKOFF_SECS;
    let mut seen = vec![b];
    for _ in 0..6 {
        b = next_backoff(b);
        seen.push(b);
    }
    assert_eq!(seen, vec![1, 2, 4, 8, 16, 30, 30]);
    assert_eq!(MAX_BACKOFF_SECS, 30);
}

#[test]
fn auto_means_discovery() {
    assert!(matches!(server_target("auto"), ServerTarget::Discover));
    match server_target("10.0.0.2:9090") {
        ServerTarget::Direct(a) => assert_eq!(a, "10.0.0.2:9090"),
        ServerTarget::Discover => panic!("address taken for auto"),
    }
    assert!(matches!(server_target("AUTO"), ServerTarget::Direct(_)));
}

#[test]
fn mdns_names() {
    assert_eq!(SERVICE_TYPE, "_clipchamp._tcp.local.");
    let (instance, host) = service_names("desk");
    assert_eq!(instance, "clipchamp-desk");
    assert_eq!(host, "desk.local.");
}

#[test]
fn history_command_lists() {
    let mut s = HistorySession::new(None);
    match s.on_message(Message::Welcome { client_id: id(1) }) {
        CliStep::Send(Message::HistoryRequest { count }) => assert_eq!(count, LIST_COUNT),
        _ => panic!("no request"),
    }
    assert_eq!(LIST_COUNT, 20);
    match s.on_message(Message::HistoryResponse { entries: vec![entry(1, 1), entry(2, 2)] }) {
        CliStep::ShowEntries(e) => assert_eq!(e.len(), 2),
        _ => panic!("no listing"),
    }
    assert!(s.is_done());
    assert!(matches!(s.on_message(Message::Ping), CliStep::Fail(CliError::Finished)));
}

#[test]
fn history_command_gets_entry() {
    let mut s = HistorySession::new(Some(HistoryAction::Get { index: 2 }));
    assert!(matches!(
        s.on_message(Message::Welcome { client_id: id(1) }),
        CliStep::Send(Message::HistoryRequest { count: 2 })
    ));
    match s.on_message(Message::HistoryResponse { entries: vec![entry(1, 1), entry(2, 2), entry(2, 3)] }) {
        CliStep::Send(Message::HistoryFetch { hash }) => assert_eq!(hash, [2; 32]),
        _ => panic!("no fetch"),
    }
    match s.on_message(Message::HistoryContent { content_type: ContentType::Text, data: b"hi".to_vec() }) {
        CliStep::CopyEntry { index, content } => {
            assert_eq!(index, 2);
            assert_eq!(content.data, b"hi");
        }
        _ => panic!("no copy"),
    }
    assert!(s.is_done());
}

#[test]
fn history_command_reports_missing_entry() {
    let mut s = HistorySession::new(Some(HistoryAction::Get { index: 5 }));
    s.on_message(Message::Welcome { client_id: id(1) });
    assert!(matches!(
        s.on_message(Message::HistoryResponse { entries: vec![entry(1, 1)] }),
        CliStep::Fail(CliError::EntryNotFound { index: 5 })
    ));
}

#[test]
fn history_command_clears() {
    let mut s = HistorySession::new(Some(HistoryAction::Clear));
    assert!(matches!(s.on_message(Message::Welcome { client_id: id(1) }), CliStep::Send(Message::HistoryClear)));
    assert!(matches!(s.on_message(Message::HistoryClearAck), CliStep::Cleared));
}

#[test]
fn history_command_fails_on_wrong_answers() {
    let mut s = HistorySession::new(None);
    assert!(matches!(s.on_message(Message::Pong), CliStep::Fail(CliError::ExpectedWelcome)));
    let mut s = HistorySession::new(Some(HistoryAction::Clear));
    s.on_message(Message::Welcome { client_id: id(1) });
    assert!(matches!(s.on_message(Message::Ping), CliStep::Fail(CliError::UnexpectedResponse)));
}

#[test]
fn reconnect_pauses_reset_after_connecting() {
    let mut b = INITIAL_BACKOFF_SECS;
    let mut sleeps = vec![];
    for connected in [false, false, false, true, false] {
        let (sleep, next) = reconnect_pause(b, connected);
        sleeps.push(sleep);
        b = next;
    }
    assert_eq!(sleeps, vec![1, 2, 4, 1, 2]);
}
