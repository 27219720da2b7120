use capirs::gateway::GatewayCall;
use capirs::someip::{EventReliability, EventType};
use capirs::vsomeip::{AppRegistrationState, Application};
use capirs::{CapiError, EventDescriptor, Runtime, ServiceDescriptor, ServiceInstanceID};
use std::cell::RefCell;
use std::rc::Rc;

struct Radio;

impl ServiceDescriptor for Radio {
    fn service_id() -> u16 {
        0x1111
    }

    fn version() -> (u8, u32) {
        (2, 7)
    }

    fn event_descriptors(instance: u16) -> Vec<EventDescriptor> {
        vec![
            EventDescriptor { id: 0x8001, grp: 1, typ: EventType::Broadcast, rel: EventReliability::Unreliable },
            EventDescriptor { id: 0x8002, grp: instance, typ: EventType::Field, rel: EventReliability::Both },
        ]
    }
}

struct Broken;

impl ServiceDescriptor for Broken {
    fn service_id() -> u16 {
        0x2222
    }

    fn version() -> (u8, u32) {
        (1, 0)
    }

    fn event_descriptors(_instance: u16) -> Vec<EventDescriptor> {
        vec![
            EventDescriptor { id: 1, grp: 1, typ: EventType::Broadcast, rel: EventReliability::Reliable },
            EventDescriptor { id: 2, grp: 1, typ: EventType::Broadcast, rel: EventReliability::Reliable },
            EventDescriptor { id: 1, grp: 2, typ: EventType::Selective, rel: EventReliability::Service },
        ]
    }
}

#[test]
fn create_service_registers_service_and_events() {
    let mut runtime: Runtime<u32> = Runtime::create("radio-app");
    assert_eq!(runtime.connection().app_name(), "radio-app");
    let calls = runtime.create_service::<Radio>(0x0042, 5).unwrap();
    assert_eq!(
        calls,
        vec![
            GatewayCall::RegisterMessageHandler { service: 0x1111, instance: 0x0042 },
            GatewayCall::OfferService {
                service: 0x1111,
                instance: 0x0042,
                major_version: 2,
                minor_version: 7
            },
            GatewayCall::OfferEvent {
                service: 0x1111,
                instance: 0x0042,
                event: 0x8001,
                group: 1,
                typ: EventType::Broadcast,
                reliability: EventReliability::Unreliable,
            },
            GatewayCall::OfferEvent {
                service: 0x1111,
                instance: 0x0042,
                event: 0x8002,
                group: 0x0042,
                typ: EventType::Field,
                reliability: EventReliability::Both,
            },
        ]
    );
    assert!(runtime.connection().has_service(0x1111, 0x0042));
    assert!(runtime.connection().has_event(0x1111, 0x0042, 0x8001));
    assert!(runtime.connection().has_event(0x1111, 0x0042, 0x8002));
}

#[test]
fn create_service_rolls_back_on_a_duplicate_event() {
    let mut runtime: Runtime<u32> = Runtime::create("app");
    assert_eq!(runtime.create_service::<Broken>(1, 5), Err(CapiError::EventAlreadyRegistered));
    assert!(!runtime.connection().has_service(0x2222, 1));
    assert!(!runtime.connection().has_event(0x2222, 1, 1));
    assert!(!runtime.connection().has_event(0x2222, 1, 2));
    // the handler count is back where it was: a registration installs the handler
    let svc = ServiceInstanceID { service: 0x2222, instance: 1, major_version: 1, minor_version: 0 };
    let calls = runtime.connection_mut().register_service(svc, 6).unwrap();
    assert_eq!(calls[0], GatewayCall::RegisterMessageHandler { service: 0x2222, instance: 1 });
}

#[test]
fn create_service_with_no_events() {
    let mut runtime: Runtime<u32> = Runtime::create("app");
    let svc = ServiceInstanceID { service: 9, instance: 9, major_version: 1, minor_version: 0 };
    let calls = runtime.create_service_with_events(svc, &vec![], 1).unwrap();
    assert_eq!(calls.len(), 2);
    assert!(runtime.connection().has_service(9, 9));
}

#[test]
fn remove_service_takes_the_events_along() {
    let mut runtime: Runtime<u32> = Runtime::create("app");
    runtime.create_service::<Radio>(3, 5).unwrap();
    let calls = runtime.remove_service::<Radio>(3);
    assert_eq!(calls.len(), 4);
    assert_eq!(
        calls[3],
        GatewayCall::StopOfferService { service: 0x1111, instance: 3, major_version: 2, minor_version: 7 }
    );
    assert!(!runtime.connection().has_service(0x1111, 3));
    assert!(!runtime.connection().has_event(0x1111, 3, 0x8001));
    // removing what is not there only stops the offer
    assert_eq!(runtime.remove_service::<Radio>(3).len(), 1);
}

#[test]
fn application_calls_every_state_handler() {
    let log: Rc<RefCell<Vec<(u8, AppRegistrationState)>>> = Rc::new(RefCell::new(Vec::new()));
    let mut app: Application<Box<dyn Fn(AppRegistrationState)>> = Application::new("the-app");
    assert_eq!(app.name(), "the-app");
    assert_eq!(app.on_state_changed(true), AppRegistrationState::Registered);
    assert!(log.borrow().is_empty());
    for tag in [1u8, 2] {
        let log = log.clone();
        app.register_state_handler(Box::new(move |state| log.borrow_mut().push((tag, state))));
    }
    assert_eq!(app.on_state_changed(true), AppRegistrationState::Registered);
    assert_eq!(app.on_state_changed(false), AppRegistrationState::NotRegistered);
    assert_eq!(
        *log.borrow(),
        vec![
            (1, AppRegistrationState::Registered),
            (2, AppRegistrationState::Registered),
            (1, AppRegistrationState::NotRegistered),
            (2, AppRegistrationState::NotRegistered),
        ]
    );
}
