use bytes::Bytes;
use capirs::channel::{deliver, deliver_all, Undelivered};
use capirs::dispatch::Dispatch;
use capirs::someip::{Message, MessageType, ReturnCode};
use capirs::{Command, Connection, Delivery, ServiceInstanceID};
use tokio::sync::mpsc::{channel, Receiver, Sender};

fn delivered(delivery: Delivery<Sender<Command>>) -> bool {
    deliver(delivery).is_ok()
}

fn drain(receiver: &mut Receiver<Command>) -> Vec<Command> {
    let mut commands = Vec::new();
    while let Ok(command) = receiver.try_recv() {
        commands.push(command);
    }
    commands
}

fn request(service: u16, instance: u16) -> Message {
    Message {
        service,
        instance,
        client: 1,
        session: 2,
        method: 3,
        message_type: MessageType::Request,
        protocol_version: 1,
        interface_version: 1,
        return_code: ReturnCode::EOk,
        is_reliable: false,
        is_initial: false,
    }
}

#[test]
fn commands_arrive_in_the_registered_channels() {
    let mut connection: Connection<Sender<Command>> = Connection::create("tokio-app");
    let (provider_tx, mut provider_rx) = channel(8);
    let (consumer_tx, mut consumer_rx) = channel(8);
    let (other_tx, mut other_rx) = channel(8);
    let local = ServiceInstanceID { service: 1, instance: 1, major_version: 1, minor_version: 0 };
    let remote = ServiceInstanceID { service: 2, instance: 1, major_version: 1, minor_version: 0 };
    connection.register_service(local, provider_tx).unwrap();
    let registration = connection.register_proxy(remote, consumer_tx).unwrap();
    connection.register_proxy(remote, other_tx).unwrap();

    // the snapshot goes to the proxy that was registered
    assert!(delivered(connection.send_actual_availability(2, 1, false, registration.snapshot)));
    assert_eq!(drain(&mut consumer_rx), vec![Command::ServiceUnavailable(2, 1)]);
    assert!(drain(&mut other_rx).is_empty());

    // an availability change goes to both proxies
    for delivery in connection.on_availability_callback(2, 1, true) {
        assert!(delivered(delivery));
    }
    assert_eq!(drain(&mut consumer_rx), vec![Command::ServiceAvailable(2, 1)]);
    assert_eq!(drain(&mut other_rx), vec![Command::ServiceAvailable(2, 1)]);

    // a request goes to the provider
    let msg = request(1, 1);
    let payload = Some(Bytes::from_static(b"hello"));
    match connection.process_incoming_message(msg, payload.clone()) {
        Dispatch::Deliver(delivery) => assert!(delivered(delivery)),
        Dispatch::Dropped(reason) => panic!("dropped: {:?}", reason),
    }
    assert_eq!(drain(&mut provider_rx), vec![Command::Request(msg, payload)]);

    // the answer to a request of the first proxy goes to the first proxy
    let pending = connection
        .send_request(registration.proxy_id, 2, 1, 9, false, false, None)
        .unwrap();
    connection.complete_request(pending.reply_to, 7, 8);
    let response = Message { client: 7, session: 8, message_type: MessageType::Response, ..request(2, 1) };
    match connection.process_incoming_message(response, None) {
        Dispatch::Deliver(delivery) => assert!(delivered(delivery)),
        Dispatch::Dropped(reason) => panic!("dropped: {:?}", reason),
    }
    assert_eq!(drain(&mut consumer_rx), vec![Command::Response(response, None)]);
    assert!(drain(&mut other_rx).is_empty());
    assert!(drain(&mut provider_rx).is_empty());
}

#[test]
fn a_closed_channel_does_not_disturb_the_others() {
    let mut connection: Connection<Sender<Command>> = Connection::create("tokio-app");
    let (gone_tx, gone_rx) = channel(1);
    let (alive_tx, mut alive_rx) = channel(1);
    let remote = ServiceInstanceID { service: 2, instance: 1, major_version: 1, minor_version: 0 };
    connection.register_proxy(remote, gone_tx).unwrap();
    connection.register_proxy(remote, alive_tx).unwrap();
    drop(gone_rx);
    let failed = deliver_all(connection.on_availability_callback(2, 1, true));
    assert_eq!(failed, vec![Undelivered::Closed(Command::ServiceAvailable(2, 1))]);
    assert_eq!(drain(&mut alive_rx), vec![Command::ServiceAvailable(2, 1)]);
}

#[test]
fn timeout_arrives_in_the_waiting_channel() {
    let mut connection: Connection<Sender<Command>> = Connection::create("tokio-app");
    let (tx, mut rx) = channel(4);
    let remote = ServiceInstanceID { service: 2, instance: 1, major_version: 1, minor_version: 0 };
    let proxy = connection.register_proxy(remote, tx).unwrap().proxy_id;
    connection.set_session_ttl(2);
    let pending = connection.send_request(proxy, 2, 1, 9, false, true, None).unwrap();
    assert!(!connection.has_session(3, 4));
    connection.complete_request(pending.reply_to, 3, 4);
    assert!(connection.expire_sessions().is_empty());
    for delivery in connection.expire_sessions() {
        assert!(delivered(delivery));
    }
    assert_eq!(drain(&mut rx), vec![Command::Timeout(3, 4)]);
    assert!(connection.expire_sessions().is_empty());
}

#[test]
fn deliver_says_why_a_command_came_back() {
    let (tx, mut rx) = channel(1);
    assert_eq!(deliver(Delivery { sender: tx.clone(), command: Command::Timeout(1, 1) }), Ok(()));
    assert_eq!(
        deliver(Delivery { sender: tx.clone(), command: Command::Timeout(1, 2) }),
        Err(Undelivered::Full(Command::Timeout(1, 2)))
    );
    assert_eq!(drain(&mut rx), vec![Command::Timeout(1, 1)]);
    assert_eq!(deliver(Delivery { sender: tx.clone(), command: Command::Timeout(1, 3) }), Ok(()));
    drop(rx);
    assert_eq!(
        deliver(Delivery { sender: tx, command: Command::Timeout(1, 4) }),
        Err(Undelivered::Closed(Command::Timeout(1, 4)))
    );
}

#[test]
fn deliver_all_serves_every_channel() {
    let (open_tx, mut open_rx) = channel(8);
    let (small_tx, mut small_rx) = channel(1);
    let (closed_tx, closed_rx) = channel(8);
    drop(closed_rx);
    let deliveries = vec![
        Delivery { sender: closed_tx.clone(), command: Command::Timeout(0, 1) },
        Delivery { sender: open_tx.clone(), command: Command::Timeout(0, 2) },
        Delivery { sender: small_tx.clone(), command: Command::Timeout(0, 3) },
        Delivery { sender: small_tx.clone(), command: Command::Timeout(0, 4) },
        Delivery { sender: open_tx.clone(), command: Command::Timeout(0, 5) },
        Delivery { sender: closed_tx, command: Command::Timeout(0, 6) },
    ];
    let failed = deliver_all(deliveries);
    assert_eq!(
        failed,
        vec![
            Undelivered::Closed(Command::Timeout(0, 1)),
            Undelivered::Full(Command::Timeout(0, 4)),
            Undelivered::Closed(Command::Timeout(0, 6)),
        ]
    );
    assert_eq!(drain(&mut open_rx), vec![Command::Timeout(0, 2), Command::Timeout(0, 5)]);
    assert_eq!(drain(&mut small_rx), vec![Command::Timeout(0, 3)]);
    assert!(deliver_all(Vec::new()).is_empty());
}
