use bytes::Bytes;
use capirs::connection::DEFAULT_SESSION_TTL;
use capirs::dispatch::{Dispatch, DropReason};
use capirs::gateway::Outbound;
use capirs::someip::{Message, MessageType, ReturnCode};
use capirs::{CapiError, Command, Connection, ServiceInstanceID};

fn siid(service: u16, instance: u16) -> ServiceInstanceID {
    ServiceInstanceID { service, instance, major_version: 4, minor_version: 0 }
}

fn answer(kind: MessageType, client: u16, session: u16) -> Message {
    Message {
        service: 0x10,
        instance: 0x20,
        client,
        session,
        method: 0x30,
        message_type: kind,
        protocol_version: 1,
        interface_version: 4,
        return_code: ReturnCode::EOk,
        is_reliable: false,
        is_initial: false,
    }
}

fn connection_with_proxy() -> (Connection<u32>, u64) {
    let mut connection: Connection<u32> = Connection::create("app");
    let proxy = connection.register_proxy(siid(0x10, 0x20), 77).unwrap().proxy_id;
    (connection, proxy)
}

#[test]
fn send_request_builds_the_request() {
    let (connection, proxy) = connection_with_proxy();
    let payload = Some(Bytes::from_static(b"\x01\x02"));
    let pending = connection
        .send_request(proxy, 0x10, 0x20, 0x30, false, true, payload.clone())
        .unwrap();
    assert_eq!(
        pending.message,
        Outbound::Request {
            service: 0x10,
            instance: 0x20,
            method: 0x30,
            major_version: 4,
            fire_and_forget: false,
            reliable: true,
            payload,
        }
    );
    assert_eq!(pending.reply_to, Some(77));
}

#[test]
fn send_request_errors() {
    let (connection, proxy) = connection_with_proxy();
    let unknown_pair = connection.send_request(proxy, 0x10, 0x21, 0x30, false, true, None);
    assert_eq!(unknown_pair.err(), Some(CapiError::ServiceInstanceUnknown));
    let unknown_proxy = connection.send_request(proxy + 1, 0x10, 0x20, 0x30, false, true, None);
    assert_eq!(unknown_proxy.err(), Some(CapiError::ProxyIdUnknown));
}

#[test]
fn fire_and_forget_leaves_no_session() {
    let (mut connection, proxy) = connection_with_proxy();
    let pending = connection.send_request(proxy, 0x10, 0x20, 0x30, true, false, None).unwrap();
    assert_eq!(pending.reply_to, None);
    assert_eq!(connection.complete_request(pending.reply_to, 5, 6), None);
    assert!(!connection.has_session(5, 6));
    assert!(connection.expire_sessions().is_empty());
}

#[test]
fn response_ends_the_session_once() {
    let (mut connection, proxy) = connection_with_proxy();
    let pending = connection.send_request(proxy, 0x10, 0x20, 0x30, false, false, None).unwrap();
    assert_eq!(connection.complete_request(pending.reply_to, 5, 6), Some((5, 6)));
    assert!(connection.has_session(5, 6));
    assert!(!connection.has_session(6, 5));

    let msg = answer(MessageType::Response, 5, 6);
    let payload = Some(Bytes::from_static(b"pong"));
    let delivery = connection.process_response_message(msg, payload.clone()).unwrap();
    assert_eq!(delivery.sender, 77);
    assert_eq!(delivery.command, Command::Response(msg, payload));
    assert!(!connection.has_session(5, 6));

    // a second answer finds nothing, and no timeout follows
    assert!(connection.process_response_message(msg, None).is_none());
    assert!(connection.process_error_message(msg, None).is_none());
    for _ in 0..(2 * DEFAULT_SESSION_TTL) {
        assert!(connection.expire_sessions().is_empty());
    }
}

#[test]
fn error_ends_the_session() {
    let (mut connection, proxy) = connection_with_proxy();
    let pending = connection.send_request(proxy, 0x10, 0x20, 0x30, false, false, None).unwrap();
    connection.complete_request(pending.reply_to, 5, 6);
    let msg = Message { return_code: ReturnCode::NotReady, ..answer(MessageType::Error, 5, 6) };
    let delivery = connection.process_error_message(msg, None).unwrap();
    assert_eq!(delivery.sender, 77);
    assert_eq!(delivery.command, Command::Error(msg, None));
    assert!(!connection.has_session(5, 6));
    assert!(connection.expire_sessions().is_empty());
}

#[test]
fn another_pair_never_matches() {
    let (mut connection, proxy) = connection_with_proxy();
    let pending = connection.send_request(proxy, 0x10, 0x20, 0x30, false, false, None).unwrap();
    connection.complete_request(pending.reply_to, 0x0102, 0x0304);
    for (client, session) in [(0x0102u16, 0x0305u16), (0x0103, 0x0304), (0x0304, 0x0102), (0, 0)] {
        assert!(connection
            .process_response_message(answer(MessageType::Response, client, session), None)
            .is_none());
        assert!(connection.has_session(0x0102, 0x0304));
    }
    assert!(connection
        .process_response_message(answer(MessageType::Response, 0x0102, 0x0304), None)
        .is_some());
}

#[test]
fn unanswered_request_times_out_exactly_once() {
    let (mut connection, proxy) = connection_with_proxy();
    let pending = connection.send_request(proxy, 0x10, 0x20, 0x30, false, false, None).unwrap();
    connection.complete_request(pending.reply_to, 5, 6);
    for _ in 1..DEFAULT_SESSION_TTL {
        assert!(connection.expire_sessions().is_empty());
        assert!(connection.has_session(5, 6));
    }
    let timeouts = connection.expire_sessions();
    assert_eq!(timeouts.len(), 1);
    assert_eq!(timeouts[0].sender, 77);
    assert_eq!(timeouts[0].command, Command::Timeout(5, 6));
    assert!(!connection.has_session(5, 6));
    for _ in 0..10 {
        assert!(connection.expire_sessions().is_empty());
    }
    // the late answer is dropped
    assert!(connection
        .process_response_message(answer(MessageType::Response, 5, 6), None)
        .is_none());
}

#[test]
fn default_time_to_live() {
    assert_eq!(DEFAULT_SESSION_TTL, 5);
}

#[test]
fn time_to_live_is_configurable() {
    let (mut connection, proxy) = connection_with_proxy();
    connection.set_session_ttl(2);
    let pending = connection.send_request(proxy, 0x10, 0x20, 0x30, false, false, None).unwrap();
    connection.complete_request(pending.reply_to, 1, 1);
    connection.set_session_ttl(0);
    connection.complete_request(Some(78), 1, 2);
    connection.set_session_ttl(1);
    connection.complete_request(Some(79), 1, 3);
    connection.set_session_ttl(3);
    connection.complete_request(Some(80), 1, 4);

    // first tick: the sessions with zero and one tick to live
    let mut first: Vec<(u32, Command)> =
        connection.expire_sessions().into_iter().map(|d| (d.sender, d.command)).collect();
    first.sort_by_key(|entry| entry.0);
    assert_eq!(first, vec![(78, Command::Timeout(1, 2)), (79, Command::Timeout(1, 3))]);
    // second tick: the one with two
    let second: Vec<(u32, Command)> =
        connection.expire_sessions().into_iter().map(|d| (d.sender, d.command)).collect();
    assert_eq!(second, vec![(77, Command::Timeout(1, 1))]);
    // third tick: the one with three
    let third: Vec<(u32, Command)> =
        connection.expire_sessions().into_iter().map(|d| (d.sender, d.command)).collect();
    assert_eq!(third, vec![(80, Command::Timeout(1, 4))]);
    assert!(connection.expire_sessions().is_empty());
}

#[test]
fn timeouts_leave_other_sessions_alone() {
    let (mut connection, _) = connection_with_proxy();
    connection.set_session_ttl(1);
    connection.complete_request(Some(1), 9, 1);
    connection.set_session_ttl(4);
    connection.complete_request(Some(2), 9, 2);
    let timeouts = connection.expire_sessions();
    assert_eq!(timeouts.len(), 1);
    assert_eq!(timeouts[0].command, Command::Timeout(9, 1));
    assert!(connection.has_session(9, 2));
    // the answer still finds the session that is left
    let msg = answer(MessageType::Response, 9, 2);
    match connection.process_incoming_message(msg, None) {
        Dispatch::Deliver(delivery) => {
            assert_eq!(delivery.sender, 2);
            assert_eq!(delivery.command, Command::Response(msg, None));
        }
        Dispatch::Dropped(reason) => panic!("dropped: {:?}", reason),
    }
    assert!(matches!(
        connection.process_incoming_message(msg, None),
        Dispatch::Dropped(DropReason::UnknownSession)
    ));
}

#[test]
fn session_outlives_its_proxy() {
    let (mut connection, proxy) = connection_with_proxy();
    let pending = connection.send_request(proxy, 0x10, 0x20, 0x30, false, false, None).unwrap();
    connection.complete_request(pending.reply_to, 5, 6);
    connection.unregister_proxy(proxy, 0x10, 0x20);
    let delivery = connection
        .process_response_message(answer(MessageType::Response, 5, 6), None)
        .unwrap();
    assert_eq!(delivery.sender, 77);
}
