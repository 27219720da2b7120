use capirs::gateway::GatewayCall;
use capirs::proxies::bool_to_availability;
use capirs::{CapiError, Command, Connection, ServiceInstanceID};

fn siid(service: u16, instance: u16, major_version: u8) -> ServiceInstanceID {
    ServiceInstanceID { service, instance, major_version, minor_version: 3 }
}

#[test]
fn availability_commands() {
    assert_eq!(bool_to_availability(true, 1, 2), Command::ServiceAvailable(1, 2));
    assert_eq!(bool_to_availability(false, 1, 2), Command::ServiceUnavailable(1, 2));
}

#[test]
fn first_proxy_requests_the_service() {
    let mut connection: Connection<u32> = Connection::create("app");
    let registration = connection.register_proxy(siid(0x10, 0x20, 1), 7).unwrap();
    assert_eq!(registration.proxy_id, 1);
    assert_eq!(registration.snapshot, 7);
    assert_eq!(
        registration.calls,
        vec![
            GatewayCall::RequestService {
                service: 0x10,
                instance: 0x20,
                major_version: 1,
                minor_version: 3
            },
            GatewayCall::RegisterAvailabilityCallback { service: 0x10, instance: 0x20 },
            GatewayCall::RegisterMessageHandler { service: 0x10, instance: 0x20 },
        ]
    );
    assert!(connection.has_proxy(1, 0x10, 0x20));
    assert!(!connection.has_proxy(1, 0x10, 0x21));
    assert!(!connection.has_proxy(2, 0x10, 0x20));
}

#[test]
fn many_proxies_request_the_service_once() {
    let mut connection: Connection<u32> = Connection::create("app");
    let id = siid(0x10, 0x20, 1);
    let mut requests = 0;
    let mut callbacks = 0;
    let mut handlers = 0;
    for n in 0..50u32 {
        let registration = connection.register_proxy(id, n).unwrap();
        // every registration is owed its snapshot, on its own channel
        assert_eq!(registration.snapshot, n);
        let delivery = connection.send_actual_availability(0x10, 0x20, n % 2 == 0, registration.snapshot);
        assert_eq!(delivery.sender, n);
        assert_eq!(delivery.command, bool_to_availability(n % 2 == 0, 0x10, 0x20));
        for call in registration.calls {
            match call {
                GatewayCall::RequestService { .. } => requests += 1,
                GatewayCall::RegisterAvailabilityCallback { .. } => callbacks += 1,
                GatewayCall::RegisterMessageHandler { .. } => handlers += 1,
                other => panic!("unexpected request {:?}", other),
            }
        }
    }
    assert_eq!(requests, 1);
    assert_eq!(callbacks, 1);
    assert_eq!(handlers, 1);
}

#[test]
fn major_version_conflict_changes_nothing() {
    let mut connection: Connection<u32> = Connection::create("app");
    let first = connection.register_proxy(siid(0x10, 0x20, 1), 7).unwrap();
    assert_eq!(first.proxy_id, 1);
    let conflict = connection.register_proxy(siid(0x10, 0x20, 2), 8);
    assert_eq!(conflict.err(), Some(CapiError::MajorVersionConflict));
    // no proxy was inserted and no id was used up
    assert!(!connection.has_proxy(2, 0x10, 0x20));
    let deliveries = connection.on_availability_callback(0x10, 0x20, true);
    assert_eq!(deliveries.len(), 1);
    assert_eq!(deliveries[0].sender, 7);
    let next = connection.register_proxy(siid(0x10, 0x20, 1), 9).unwrap();
    assert_eq!(next.proxy_id, 2);
    assert_eq!(next.calls, vec![]);
    // the minor version is not part of the agreement
    let minor = ServiceInstanceID { minor_version: 99, ..siid(0x10, 0x20, 1) };
    assert!(connection.register_proxy(minor, 10).is_ok());
    // another instance of the service is free to choose
    assert!(connection.register_proxy(siid(0x10, 0x21, 2), 11).is_ok());
}

#[test]
fn proxy_ids_are_never_reused() {
    let mut connection: Connection<u32> = Connection::create("app");
    let mut seen: Vec<u64> = Vec::new();
    for round in 0..20u16 {
        let id = siid(round % 3, round % 2, 1);
        let a = connection.register_proxy(id, 1).unwrap().proxy_id;
        let b = connection.register_proxy(id, 2).unwrap().proxy_id;
        for issued in [a, b] {
            assert!(!seen.contains(&issued));
            seen.push(issued);
        }
        connection.unregister_proxy(a, id.service, id.instance);
        if round % 4 == 0 {
            connection.unregister_proxy(b, id.service, id.instance);
        }
    }
    let expected: Vec<u64> = (1..=40).collect();
    assert_eq!(seen, expected);
}

#[test]
fn unregister_proxy_releases_with_the_last_one() {
    let mut connection: Connection<u32> = Connection::create("app");
    let id = siid(1, 2, 1);
    let a = connection.register_proxy(id, 10).unwrap().proxy_id;
    let b = connection.register_proxy(id, 11).unwrap().proxy_id;
    assert_eq!(connection.unregister_proxy(a, 1, 2), vec![]);
    assert!(!connection.has_proxy(a, 1, 2));
    assert!(connection.has_proxy(b, 1, 2));
    // unknown proxies and pairs are no-ops
    assert_eq!(connection.unregister_proxy(a, 1, 2), vec![]);
    assert_eq!(connection.unregister_proxy(b, 1, 3), vec![]);
    assert_eq!(connection.unregister_proxy(99, 9, 9), vec![]);
    assert!(connection.has_proxy(b, 1, 2));
    assert_eq!(
        connection.unregister_proxy(b, 1, 2),
        vec![
            GatewayCall::ReleaseService { service: 1, instance: 2 },
            GatewayCall::UnregisterAvailabilityCallback { service: 1, instance: 2 },
            GatewayCall::UnregisterMessageHandler { service: 1, instance: 2 },
        ]
    );
    // the pair is free again, also for another major version
    let again = connection.register_proxy(siid(1, 2, 5), 12).unwrap();
    assert_eq!(again.proxy_id, 3);
    assert_eq!(again.calls.len(), 3);
}

#[test]
fn availability_reaches_every_proxy_of_the_pair() {
    let mut connection: Connection<u32> = Connection::create("app");
    for channel in [100u32, 101, 102] {
        connection.register_proxy(siid(1, 2, 1), channel).unwrap();
    }
    connection.register_proxy(siid(1, 3, 1), 200).unwrap();

    let deliveries = connection.on_availability_callback(1, 2, true);
    let mut channels: Vec<u32> = deliveries.iter().map(|d| d.sender).collect();
    channels.sort();
    assert_eq!(channels, vec![100, 101, 102]);
    for delivery in &deliveries {
        assert_eq!(delivery.command, Command::ServiceAvailable(1, 2));
    }

    let deliveries = connection.on_availability_callback(1, 3, false);
    assert_eq!(deliveries.len(), 1);
    assert_eq!(deliveries[0].sender, 200);
    assert_eq!(deliveries[0].command, Command::ServiceUnavailable(1, 3));

    assert!(connection.on_availability_callback(7, 7, true).is_empty());
}

#[test]
fn errors_do_not_use_up_ids() {
    let mut connection: Connection<u32> = Connection::create("app");
    assert_eq!(connection.register_proxy(siid(1, 1, 1), 1).unwrap().proxy_id, 1);
    for _ in 0..5 {
        assert!(connection.register_proxy(siid(1, 1, 2), 2).is_err());
    }
    assert_eq!(connection.register_proxy(siid(1, 1, 1), 3).unwrap().proxy_id, 2);
}

#[test]
fn out_of_proxy_ids() {
    let mut connection: Connection<u32> = Connection::create("app");
    connection.reserve_proxy_ids(u64::MAX - 2);
    assert_eq!(connection.register_proxy(siid(1, 1, 1), 1).unwrap().proxy_id, u64::MAX - 1);
    assert_eq!(connection.register_proxy(siid(1, 1, 1), 2).unwrap().proxy_id, u64::MAX);
    // the counter does not wrap around
    let exhausted = connection.register_proxy(siid(1, 1, 1), 3);
    assert_eq!(exhausted.err(), Some(CapiError::OutOfProxyIds));
    // exhaustion comes before the question of the version
    let conflict = connection.register_proxy(siid(1, 1, 2), 4);
    assert_eq!(conflict.err(), Some(CapiError::OutOfProxyIds));
    let unrelated = connection.register_proxy(siid(9, 9, 1), 5);
    assert_eq!(unrelated.err(), Some(CapiError::OutOfProxyIds));
    // nothing was registered by the failed calls
    assert_eq!(connection.handler_count(1, 1), 2);
    assert_eq!(connection.handler_count(9, 9), 0);
    connection.unregister_proxy(u64::MAX, 1, 1);
    let still = connection.register_proxy(siid(1, 1, 1), 6);
    assert_eq!(still.err(), Some(CapiError::OutOfProxyIds));
}

#[test]
fn reserving_ids_never_lowers_the_counter() {
    let mut connection: Connection<u32> = Connection::create("app");
    connection.reserve_proxy_ids(10);
    assert_eq!(connection.register_proxy(siid(1, 1, 1), 1).unwrap().proxy_id, 11);
    connection.reserve_proxy_ids(5);
    connection.reserve_proxy_ids(0);
    assert_eq!(connection.register_proxy(siid(1, 1, 1), 1).unwrap().proxy_id, 12);
    connection.reserve_proxy_ids(12);
    assert_eq!(connection.register_proxy(siid(1, 1, 1), 1).unwrap().proxy_id, 13);
}
