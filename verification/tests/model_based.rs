use capirs::gateway::GatewayCall;
use capirs::someip::{EventReliability, EventType};
use capirs::{Command, Connection, ServiceInstanceID};
use std::collections::{BTreeMap, BTreeSet};

/// A small generator of numbers that look random and are the same in every run.
struct Numbers(u64);

impl Numbers {
    fn next(&mut self, below: u64) -> u64 {
        self.0 = self.0.wrapping_mul(6364136223846793005).wrapping_add(1442695040888963407);
        (self.0 >> 33) % below
    }
}

/// The registries as plain collections, kept beside the connection.
struct Reference {
    services: BTreeMap<(u16, u16), u32>,
    events: BTreeSet<(u16, u16, u16)>,
    proxies: BTreeMap<(u16, u16), (u8, BTreeMap<u64, u32>)>,
    sessions: BTreeMap<(u16, u16), (u32, u32)>,
    counter: u64,
    installed: BTreeSet<(u16, u16)>,
}

impl Reference {
    fn registrants(&self, key: (u16, u16)) -> u128 {
        let service = if self.services.contains_key(&key) { 1 } else { 0 };
        let proxies = self.proxies.get(&key).map(|group| group.1.len()).unwrap_or(0) as u128;
        service + proxies
    }

    /// Follows the handler installations that the connection asks for.
    fn follow(&mut self, calls: &[GatewayCall]) {
        for call in calls {
            match *call {
                GatewayCall::RegisterMessageHandler { service, instance } => {
                    assert!(self.installed.insert((service, instance)), "handler installed twice");
                }
                GatewayCall::UnregisterMessageHandler { service, instance } => {
                    assert!(self.installed.remove(&(service, instance)), "handler removed twice");
                }
                _ => {}
            }
        }
    }
}

fn check(connection: &Connection<u32>, reference: &Reference) {
    for service in 0..3u16 {
        for instance in 0..3u16 {
            let key = (service, instance);
            assert_eq!(connection.has_service(service, instance), reference.services.contains_key(&key));
            assert_eq!(connection.handler_count(service, instance), reference.registrants(key));
            // the engine holds a handler for exactly the instances with registrants
            assert_eq!(reference.installed.contains(&key), reference.registrants(key) > 0);
            for event in 0..3u16 {
                assert_eq!(
                    connection.has_event(service, instance, event),
                    reference.events.contains(&(service, instance, event))
                );
            }
            for id in 1..=reference.counter {
                let expected = reference.proxies.get(&key).map(|g| g.1.contains_key(&id)).unwrap_or(false);
                assert_eq!(connection.has_proxy(id, service, instance), expected);
            }
            assert_eq!(connection.has_session(service, instance), reference.sessions.contains_key(&key));
        }
    }
}

#[test]
fn connection_follows_the_reference() {
    let mut numbers = Numbers(0x5eed);
    let mut connection: Connection<u32> = Connection::create("model");
    connection.set_session_ttl(3);
    let mut reference = Reference {
        services: BTreeMap::new(),
        events: BTreeSet::new(),
        proxies: BTreeMap::new(),
        sessions: BTreeMap::new(),
        counter: 0,
        installed: BTreeSet::new(),
    };
    for step in 0..3000u32 {
        let service = numbers.next(3) as u16;
        let instance = numbers.next(3) as u16;
        let key = (service, instance);
        let major = 1 + numbers.next(2) as u8;
        let siid = ServiceInstanceID { service, instance, major_version: major, minor_version: 0 };
        match numbers.next(9) {
            0 => {
                let result = connection.register_service(siid, step);
                assert_eq!(result.is_ok(), !reference.services.contains_key(&key));
                if let Ok(calls) = result {
                    reference.services.insert(key, step);
                    reference.follow(&calls);
                }
            }
            1 => {
                let calls = connection.unregister_service(siid);
                let stopped = calls.iter().filter(|c| matches!(c, GatewayCall::StopOfferEvent { .. })).count();
                let offered = reference.events.iter().filter(|e| (e.0, e.1) == key).count();
                assert_eq!(stopped, offered);
                reference.events.retain(|e| (e.0, e.1) != key);
                reference.services.remove(&key);
                reference.follow(&calls);
            }
            2 => {
                let event = numbers.next(3) as u16;
                let result = connection.register_event(
                    service,
                    instance,
                    event,
                    1,
                    EventType::Broadcast,
                    EventReliability::Both,
                );
                let expected =
                    reference.services.contains_key(&key) && !reference.events.contains(&(service, instance, event));
                assert_eq!(result.is_ok(), expected);
                if expected {
                    reference.events.insert((service, instance, event));
                }
            }
            3 => {
                let event = numbers.next(3) as u16;
                let call = connection.unregister_event(service, instance, event);
                assert_eq!(call.is_some(), reference.events.remove(&(service, instance, event)));
            }
            4 => {
                let result = connection.register_proxy(siid, step);
                let conflict = reference.proxies.get(&key).map(|g| g.0 != major).unwrap_or(false);
                assert_eq!(result.is_ok(), !conflict);
                if let Ok(registration) = result {
                    reference.counter += 1;
                    assert_eq!(registration.proxy_id, reference.counter);
                    let first = !reference.proxies.contains_key(&key);
                    let requested =
                        registration.calls.iter().any(|c| matches!(c, GatewayCall::RequestService { .. }));
                    assert_eq!(requested, first);
                    reference
                        .proxies
                        .entry(key)
                        .or_insert((major, BTreeMap::new()))
                        .1
                        .insert(registration.proxy_id, step);
                    reference.follow(&registration.calls);
                }
            }
            5 => {
                let id = 1 + numbers.next(reference.counter.max(1));
                let calls = connection.unregister_proxy(id, service, instance);
                let mut last = false;
                if let Some(group) = reference.proxies.get_mut(&key) {
                    if group.1.remove(&id).is_some() && group.1.is_empty() {
                        last = true;
                    }
                }
                if last {
                    reference.proxies.remove(&key);
                }
                let released = calls.iter().any(|c| matches!(c, GatewayCall::ReleaseService { .. }));
                assert_eq!(released, last);
                reference.follow(&calls);
            }
            6 => {
                // the session keys are taken from the same small range as the service keys
                if !connection.has_session(service, instance) {
                    connection.complete_request(Some(step), service, instance);
                    reference.sessions.insert(key, (step, 3));
                }
            }
            7 => {
                let expired = connection.expire_sessions();
                let mut got: Vec<(u32, Command)> = expired.into_iter().map(|d| (d.sender, d.command)).collect();
                got.sort_by_key(|entry| entry.0);
                let mut expected: Vec<(u32, Command)> = Vec::new();
                let mut left = BTreeMap::new();
                for (session, (channel, ttl)) in &reference.sessions {
                    if *ttl <= 1 {
                        expected.push((*channel, Command::Timeout(session.0, session.1)));
                    } else {
                        left.insert(*session, (*channel, ttl - 1));
                    }
                }
                expected.sort_by_key(|entry| entry.0);
                assert_eq!(got, expected);
                reference.sessions = left;
            }
            _ => {
                let deliveries = connection.on_availability_callback(service, instance, step % 2 == 0);
                let mut got: Vec<u32> = deliveries.iter().map(|d| d.sender).collect();
                got.sort();
                let mut expected: Vec<u32> =
                    reference.proxies.get(&key).map(|g| g.1.values().copied().collect()).unwrap_or_default();
                expected.sort();
                assert_eq!(got, expected);
            }
        }
        if step % 50 == 0 {
            check(&connection, &reference);
        }
    }
    check(&connection, &reference);
}
