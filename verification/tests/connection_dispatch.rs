use bytes::Bytes;
use capirs::dispatch::{make_message_from, Dispatch, DropReason, RawMessage};
use capirs::gateway::Outbound;
use capirs::payload::{make_payload_from, payload_fits, payload_len};
use capirs::someip::{Message, MessageType, ReturnCode, ANY_INSTANCE};
use capirs::{Command, Connection, ServiceInstanceID};

fn siid(service: u16, instance: u16) -> ServiceInstanceID {
    ServiceInstanceID { service, instance, major_version: 1, minor_version: 0 }
}

fn message(kind: MessageType, service: u16, instance: u16) -> Message {
    Message {
        service,
        instance,
        client: 0x0a0b,
        session: 0x0c0d,
        method: 0x0421,
        message_type: kind,
        protocol_version: 1,
        interface_version: 3,
        return_code: ReturnCode::EOk,
        is_reliable: true,
        is_initial: false,
    }
}

fn delivered<S>(dispatch: Dispatch<S>) -> (S, Command) {
    match dispatch {
        Dispatch::Deliver(delivery) => (delivery.sender, delivery.command),
        Dispatch::Dropped(reason) => panic!("dropped: {:?}", reason),
    }
}

#[test]
fn decodes_the_raw_header() {
    let raw = RawMessage {
        service: 0x1234,
        instance: 0x5678,
        client: 0x0102,
        session: 0x0304,
        method: 0x8001,
        message_type: 0x81,
        protocol_version: 1,
        interface_version: 2,
        return_code: 0x21,
        is_reliable: 1,
        is_initial: 0,
    };
    assert_eq!(
        make_message_from(&raw),
        Message {
            service: 0x1234,
            instance: 0x5678,
            client: 0x0102,
            session: 0x0304,
            method: 0x8001,
            message_type: MessageType::Error,
            protocol_version: 1,
            interface_version: 2,
            return_code: ReturnCode::ApplicationError(0x21),
            is_reliable: true,
            is_initial: false,
        }
    );
    let flags = make_message_from(&RawMessage { is_reliable: 0, is_initial: -1, message_type: 0x55, ..raw });
    assert!(!flags.is_reliable);
    assert!(flags.is_initial);
    assert_eq!(flags.message_type, MessageType::Unknown(0x55));
}

#[test]
fn payload_is_a_copy_of_the_data() {
    assert_eq!(make_payload_from(&[]), None);
    let mut data = vec![1u8, 2, 3];
    let payload = make_payload_from(&data);
    data[0] = 9;
    assert_eq!(payload, Some(Bytes::from_static(&[1, 2, 3])));
    assert_eq!(payload_len(&payload), 3);
    assert_eq!(payload_len(&None), 0);
    assert_eq!(payload_len(&make_payload_from(&[0u8; 1000])), 1000);
    assert!(payload_fits(&None));
    assert!(payload_fits(&payload));
}

#[test]
fn request_goes_to_the_exact_adapter() {
    let mut connection: Connection<u32> = Connection::create("app");
    connection.register_service(siid(0x10, 0x20), 1).unwrap();
    connection.register_service(siid(0x10, ANY_INSTANCE), 2).unwrap();
    connection.register_service(siid(0x11, 0x20), 3).unwrap();
    let msg = message(MessageType::Request, 0x10, 0x20);
    let payload = Some(Bytes::from_static(b"ping"));
    let (sender, command) = delivered(connection.process_incoming_message(msg, payload.clone()));
    assert_eq!(sender, 1);
    assert_eq!(command, Command::Request(msg, payload));
}

#[test]
fn request_falls_back_to_the_wildcard_adapter() {
    let mut connection: Connection<u32> = Connection::create("app");
    connection.register_service(siid(0x10, 0x20), 1).unwrap();
    connection.register_service(siid(0x10, ANY_INSTANCE), 2).unwrap();
    let msg = message(MessageType::RequestNoReturn, 0x10, 0x21);
    let payload = Some(Bytes::from_static(b"data"));
    let (sender, command) = delivered(connection.process_incoming_message(msg, payload.clone()));
    assert_eq!(sender, 2);
    // the payload survives the failed first lookup
    assert_eq!(command, Command::Request(msg, payload));
    // the wildcard is a wildcard for the instance, not for the service
    let other_service = message(MessageType::Request, 0x11, 0x21);
    assert!(matches!(
        connection.process_incoming_message(other_service, None),
        Dispatch::Dropped(DropReason::NoAdapter)
    ));
}

#[test]
fn request_without_adapter_is_dropped() {
    let mut connection: Connection<u32> = Connection::create("app");
    let msg = message(MessageType::Request, 0x10, 0x20);
    assert!(matches!(
        connection.process_incoming_message(msg, None),
        Dispatch::Dropped(DropReason::NoAdapter)
    ));
    assert!(connection.process_service_message(msg, None).is_none());
    connection.register_service(siid(0x10, 0x20), 1).unwrap();
    connection.unregister_service(siid(0x10, 0x20));
    assert!(matches!(
        connection.process_incoming_message(msg, None),
        Dispatch::Dropped(DropReason::NoAdapter)
    ));
}

#[test]
fn try_forward_hands_the_payload_back() {
    let mut connection: Connection<u32> = Connection::create("app");
    connection.register_service(siid(0x10, 0x20), 1).unwrap();
    let msg = message(MessageType::Request, 0x10, 0x20);
    let payload = Some(Bytes::from_static(b"abc"));
    let missed = connection.try_forward_service_message(&msg, payload.clone(), &(0x10, 0x21));
    assert_eq!(missed.err(), Some(payload.clone()));
    let hit = connection.try_forward_service_message(&msg, payload.clone(), &(0x10, 0x20)).unwrap();
    assert_eq!(hit.sender, 1);
    assert_eq!(hit.command, Command::Request(msg, payload));
}

#[test]
fn answers_go_to_their_sessions() {
    let mut connection: Connection<u32> = Connection::create("app");
    connection.complete_request(Some(50), 0x0a0b, 0x0c0d);
    let error = Message {
        return_code: ReturnCode::UnknownMethod,
        ..message(MessageType::Error, 0x10, 0x20)
    };
    let (sender, command) = delivered(connection.process_incoming_message(error, None));
    assert_eq!(sender, 50);
    assert_eq!(command, Command::Error(error, None));
    assert!(matches!(
        connection.process_incoming_message(error, None),
        Dispatch::Dropped(DropReason::UnknownSession)
    ));
}

#[test]
fn other_kinds_are_dropped() {
    let mut connection: Connection<u32> = Connection::create("app");
    connection.register_service(siid(0x10, 0x20), 1).unwrap();
    connection.complete_request(Some(50), 0x0a0b, 0x0c0d);
    assert!(matches!(
        connection.process_incoming_message(message(MessageType::Notification, 0x10, 0x20), None),
        Dispatch::Dropped(DropReason::Notification)
    ));
    for kind in [
        MessageType::RequestAck,
        MessageType::RequestNoReturnAck,
        MessageType::NotificationAck,
        MessageType::ResponseAck,
        MessageType::ErrorAck,
        MessageType::Unknown(0x33),
    ] {
        assert!(matches!(
            connection.process_incoming_message(message(kind, 0x10, 0x20), None),
            Dispatch::Dropped(DropReason::UnsupportedType)
        ));
    }
    // nothing of this touched the registries
    assert!(connection.has_service(0x10, 0x20));
    assert!(connection.has_session(0x0a0b, 0x0c0d));
}

#[test]
fn response_copies_the_request() {
    let connection: Connection<u32> = Connection::create("app");
    let request = message(MessageType::Request, 0x10, 0x20);
    let payload = Some(Bytes::from_static(b"ok"));
    assert_eq!(
        connection.send_response(&request, ReturnCode::EOk, payload.clone()),
        Ok(Outbound::Response {
            service: 0x10,
            instance: 0x20,
            client: 0x0a0b,
            session: 0x0c0d,
            method: 0x0421,
            major_version: 3,
            reliable: true,
            payload,
        })
    );
}

#[test]
fn failure_is_answered_with_an_error_message() {
    let connection: Connection<u32> = Connection::create("app");
    let request = Message { is_reliable: false, ..message(MessageType::Request, 0x10, 0x20) };
    for code in [ReturnCode::NotOk, ReturnCode::ApplicationError(0x42), ReturnCode::Reserved(0x99)] {
        assert_eq!(
            connection.send_response(&request, code, None),
            Ok(Outbound::Error {
                service: 0x10,
                instance: 0x20,
                client: 0x0a0b,
                session: 0x0c0d,
                method: 0x0421,
                major_version: 3,
                reliable: false,
                return_code: code.value(),
                payload: None,
            })
        );
    }
    assert_eq!(
        connection.send_reply(1, 2, 3, ReturnCode::Timeout, true, 4, 5, 6, None),
        Ok(Outbound::Error {
            service: 1,
            instance: 2,
            client: 4,
            session: 5,
            method: 3,
            major_version: 6,
            reliable: true,
            return_code: 0x06,
            payload: None,
        })
    );
}

#[test]
fn notification_passes_force_on() {
    let connection: Connection<u32> = Connection::create("app");
    let payload = Some(Bytes::from_static(b"\x2a"));
    assert_eq!(
        connection.send_notification(1, 2, 0x8001, payload.clone(), true),
        Outbound::Notification { service: 1, instance: 2, event: 0x8001, force: true, payload }
    );
    assert_eq!(
        connection.send_notification(1, 2, 0x8001, None, false),
        Outbound::Notification { service: 1, instance: 2, event: 0x8001, force: false, payload: None }
    );
}
