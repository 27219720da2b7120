//! The runtime: services created from their descriptions.
use vstd::prelude::*;
use crate::connection::{CapiError, Connection, ServiceInstanceID};
use crate::gateway::GatewayCall;
use crate::model::{ConnectionView, EventKey, EventOffer, ServiceKey};
use crate::types::{
    EventGroupID, EventID, EventReliability, EventType, InstanceID, MajorVersion, MinorVersion,
    ServiceID,
};

verus! {

/// Struct describing a SOME/IP event for its registration.
#[derive(Clone, Copy, PartialEq, Eq, Debug, Structural)]
pub struct EventDescriptor {
    pub id: EventID,
    pub grp: EventGroupID,
    pub typ: EventType,
    pub rel: EventReliability,
}

impl EventDescriptor {
    /// The offer of this event by the service instance `key`.
    pub open spec fn offer(self, key: ServiceKey) -> EventOffer {
        EventOffer {
            service: key.0,
            instance: key.1,
            event: self.id,
            group: self.grp,
            typ: self.typ,
            reliability: self.rel,
        }
    }

    /// The request to the engine that offers this event for the service
    /// instance `key`.
    pub open spec fn offer_call(self, key: ServiceKey) -> GatewayCall {
        GatewayCall::OfferEvent {
            service: key.0,
            instance: key.1,
            event: self.id,
            group: self.grp,
            typ: self.typ,
            reliability: self.rel,
        }
    }
}

/// True if no two of the described events share an id.
pub open spec fn distinct_events(events: Seq<EventDescriptor>) -> bool {
    forall|a: int, b: int|
        0 <= a < events.len() && 0 <= b < events.len() && a != b ==> events[a].id != events[b].id
}

/// Trait for describing a SOME/IP service.
pub trait ServiceDescriptor {
    /// Returns the SOME/IP service identifier for the service.
    fn service_id() -> ServiceID;

    /// Returns the interface version (major, minor) for the service instances of this service.
    fn version() -> (MajorVersion, MinorVersion);

    /// This method must return an array of event descriptors that the service will provide.
    /// This is used when a new service instance is being created to register the events with
    /// the SOME/IP runtime.
    fn event_descriptors(instance: InstanceID) -> Vec<EventDescriptor>;
}

/// True if `T` can describe the instance `instance` of its service as
/// `svc`, with the events `events`.
pub open spec fn describes<T: ServiceDescriptor>(
    instance: InstanceID,
    svc: ServiceInstanceID,
    events: Vec<EventDescriptor>,
) -> bool {
    &&& svc.instance == instance
    &&& call_ensures(T::service_id, (), svc.service)
    &&& call_ensures(T::version, (), (svc.major_version, svc.minor_version))
    &&& call_ensures(T::event_descriptors, (instance,), events)
}

/// True if `T` can describe the instance `instance` of its service as
/// `svc`, whatever events it names.
pub open spec fn names<T: ServiceDescriptor>(instance: InstanceID, svc: ServiceInstanceID) -> bool {
    &&& svc.instance == instance
    &&& call_ensures(T::service_id, (), svc.service)
    &&& call_ensures(T::version, (), (svc.major_version, svc.minor_version))
}

/// What [`Runtime::create_service_with_events`] does for the service `svc`
/// with the events `events`: it takes a runtime from `before` to `after`
/// and returns `result`.
pub open spec fn creates<S>(
    before: ConnectionView<S>,
    after: ConnectionView<S>,
    result: Result<Vec<GatewayCall>, CapiError>,
    svc: ServiceInstanceID,
    events: Seq<EventDescriptor>,
    sender: S,
) -> bool {
    &&& result is Ok <==> distinct_events(events)
    &&& match result {
        Ok(calls) => {
            &&& after == before.register_service(svc, sender).register_events(
                events.map_values(|e: EventDescriptor| e.offer(svc.key())),
            )
            &&& calls@ == before.register_service_calls(svc) + events.map_values(
                |e: EventDescriptor| e.offer_call(svc.key()),
            )
        },
        Err(error) => error == CapiError::EventAlreadyRegistered && after == before,
    }
}

/// The runtime allows users to create service stubs and service proxies.
/// Applications should only create one runtime object because the underlying
/// engine application has a heavy footprint.
pub struct Runtime<S> {
    pub(crate) connection: Connection<S>,
}

impl<S> Runtime<S> {
    /// What the connection of the runtime holds.
    pub open(crate) spec fn view(&self) -> ConnectionView<S> {
        self.connection@
    }

    /// The invariant of the runtime: that of its connection.
    pub open(crate) spec fn wf(&self) -> bool {
        self.connection.wf()
    }

    /// Create a new runtime object.
    /// - [app_name]: Name of the application (will appear in the engine's logs).
    pub fn create(app_name: &str) -> (runtime: Runtime<S>)
        ensures
            runtime.wf(),
            runtime@ == ConnectionView::<S>::initial(
                app_name@,
                crate::connection::DEFAULT_SESSION_TTL,
            ),
    {
        Runtime { connection: Connection::create(app_name) }
    }

    /// The connection of the runtime.
    pub fn connection(&self) -> (connection: &Connection<S>)
        ensures
            connection.wf() == self.wf(),
            connection@ == self@,
    {
        &self.connection
    }

    /// The connection of the runtime, for operations that change it.
    pub fn connection_mut(&mut self) -> (connection: &mut Connection<S>)
        ensures
            connection.wf() == old(self).wf(),
            connection@ == old(self)@,
            final(self).wf() == final(connection).wf(),
            final(self)@ == final(connection)@,
    {
        &mut self.connection
    }

    /// Registers a service instance together with its events.
    ///
    /// The instance must not have a provider yet. If no two of the events
    /// share an id, the provider and every event are registered, and the
    /// result holds the requests for the engine: those of the service
    /// registration, then one offer for each event, in the order of
    /// `events`. Else the call fails with `EventAlreadyRegistered`, nothing
    /// is registered and nothing has to be requested: a service is offered
    /// with all of its events or not at all.
    pub fn create_service_with_events(
        &mut self,
        svc: ServiceInstanceID,
        events: &Vec<EventDescriptor>,
        sender: S,
    ) -> (result: Result<Vec<GatewayCall>, CapiError>)
        requires
            old(self).wf(),
            !old(self)@.services.contains_key(svc.key()),
        ensures
            final(self).wf(),
            creates(old(self)@, final(self)@, result, svc, events@, sender),
    {
        let ghost before = old(self)@;
        let ghost key = svc.key();
        let ghost offers = events@.map_values(|e: EventDescriptor| e.offer(key));
        let ghost offer_calls = events@.map_values(|e: EventDescriptor| e.offer_call(key));
        let mut calls = match self.connection.register_service(svc, sender) {
            Ok(calls) => calls,
            Err(_) => unreached(),
        };
        let ghost registered = before.register_service(svc, sender);
        proof {
            before.lemma_register_service_wf(svc, sender);
            assert(registered.events == before.events);
        }
        let mut k: usize = 0;
        while k < events.len()
            invariant
                k <= events.len(),
                self.connection.wf(),
                before == old(self)@,
                before.wf(),
                !before.services.contains_key(key),
                key == svc.key(),
                registered == before.register_service(svc, sender),
                registered.wf(),
                offers == events@.map_values(|e: EventDescriptor| e.offer(key)),
                offer_calls == events@.map_values(|e: EventDescriptor| e.offer_call(key)),
                self.connection@ == registered.register_events(offers.subrange(0, k as int)),
                calls@ == before.register_service_calls(svc) + offer_calls.subrange(0, k as int),
                distinct_events(events@.subrange(0, k as int)),
            decreases events.len() - k,
        {
            let ed = events[k];
            proof {
                lemma_register_events(registered, key, offers.subrange(0, k as int));
                assert(offers.subrange(0, k + 1).drop_last() =~= offers.subrange(0, k as int));
                assert(offers.subrange(0, k + 1).last() == ed.offer(key));
            }
            match self.connection.register_event(
                svc.service,
                svc.instance,
                ed.id,
                ed.grp,
                ed.typ,
                ed.rel,
            ) {
                Ok(call) => {
                    calls.push(call);
                    proof {
                        assert(calls@ =~= before.register_service_calls(svc) + offer_calls.subrange(
                            0,
                            k + 1,
                        ));
                        assert forall|a: int, b: int|
                            0 <= a < k + 1 && 0 <= b < k + 1 && a != b implies events@[a].id
                            != events@[b].id by {
                            if a < k && b < k {
                                assert(events@.subrange(0, k as int)[a].id != events@.subrange(
                                    0,
                                    k as int,
                                )[b].id);
                            } else if a < k {
                                assert(offers.subrange(0, k as int)[a] == events@[a].offer(key));
                            } else {
                                assert(offers.subrange(0, k as int)[b] == events@[b].offer(key));
                            }
                        }
                    }
                },
                Err(error) => {
                    proof {
                        let at = choose|at: int|
                            0 <= at < k && (#[trigger] offers.subrange(0, k as int)[at]).key() == (
                            key.0,
                            key.1,
                            ed.id,
                        );
                        assert(events@[at].id == events@[k as int].id);
                        lemma_register_then_unregister_with_events(
                            before,
                            svc,
                            sender,
                            offers.subrange(0, k as int),
                        );
                    }
                    let _ = self.connection.unregister_service(svc);
                    return Err(error);
                },
            }
            k += 1;
        }
        proof {
            assert(offers.subrange(0, k as int) =~= offers);
            assert(offer_calls.subrange(0, k as int) =~= offer_calls);
            assert(events@.subrange(0, k as int) =~= events@);
        }
        Ok(calls)
    }

    /// Creates a new service for the given service descriptor and for the given [instance]. This
    /// will start to offer the service instance on SOME/IP SD and also register and offer all
    /// events defined by the [ServiceDescriptor].
    /// - [instance]: The instance ID for the service.
    ///
    /// The instance must not have a provider yet. The service is created
    /// from what the descriptor says of it, as
    /// [`Runtime::create_service_with_events`] does.
    pub fn create_service<T: ServiceDescriptor>(
        &mut self,
        instance: InstanceID,
        sender: S,
    ) -> (result: Result<Vec<GatewayCall>, CapiError>)
        requires
            old(self).wf(),
            forall|svc: ServiceInstanceID| #[trigger]
                names::<T>(instance, svc) ==> !old(self)@.services.contains_key(svc.key()),
        ensures
            final(self).wf(),
            exists|svc: ServiceInstanceID, events: Vec<EventDescriptor>|
                #[trigger] describes::<T>(instance, svc, events) && creates(
                    old(self)@,
                    final(self)@,
                    result,
                    svc,
                    events@,
                    sender,
                ),
    {
        let version = T::version();
        let svc = ServiceInstanceID {
            service: T::service_id(),
            instance,
            major_version: version.0,
            minor_version: version.1,
        };
        let events = T::event_descriptors(instance);
        proof {
            assert(names::<T>(instance, svc));
        }
        let result = self.create_service_with_events(svc, &events, sender);
        proof {
            assert(describes::<T>(instance, svc, events));
        }
        result
    }

    /// Removes a service instance from the system, so that it will no longer be offered.
    /// The instance is unregistered under the id and version that the
    /// descriptor gives, as [`Connection::unregister_service`] does.
    pub fn remove_service<T: ServiceDescriptor>(
        &mut self,
        instance: InstanceID,
    ) -> (calls: Vec<GatewayCall>)
        requires
            old(self).wf(),
        ensures
            final(self).wf(),
            exists|svc: ServiceInstanceID|
                {
                    &&& #[trigger] names::<T>(instance, svc)
                    &&& final(self)@ == old(self)@.unregister_service(svc)
                    &&& crate::services::lists_then(
                        calls@,
                        old(self)@.stop_event_calls(svc.key()),
                        old(self)@.unregister_service_calls(svc),
                    )
                },
    {
        let version = T::version();
        let svc = ServiceInstanceID {
            service: T::service_id(),
            instance,
            major_version: version.0,
            minor_version: version.1,
        };
        let calls = self.connection.unregister_service(svc);
        proof {
            assert(names::<T>(instance, svc));
        }
        calls
    }
}

/// Offering events of one service instance changes the offered events of
/// that instance and nothing else, and keeps the invariant while the
/// instance has a provider.
pub proof fn lemma_register_events<S>(
    base: ConnectionView<S>,
    key: ServiceKey,
    offers: Seq<EventOffer>,
)
    requires
        base.wf(),
        base.services.contains_key(key),
        forall|j: int|
            0 <= j < offers.len() ==> (#[trigger] offers[j]).service == key.0 && offers[j].instance
                == key.1,
    ensures
        base.register_events(offers).wf(),
        base.register_events(offers) == (ConnectionView {
            events: base.register_events(offers).events,
            ..base
        }),
        forall|ek: EventKey|
            (ek.0, ek.1) != key ==> (#[trigger] base.register_events(offers).events.contains_key(ek)
                <==> base.events.contains_key(ek)),
        forall|ek: EventKey|
            (ek.0, ek.1) != key && #[trigger] base.events.contains_key(ek) ==> base.register_events(
                offers,
            ).events[ek] == base.events[ek],
        forall|ek: EventKey| #[trigger]
            base.register_events(offers).events.contains_key(ek) <==> base.events.contains_key(ek)
                || exists|j: int| 0 <= j < offers.len() && (#[trigger] offers[j]).key() == ek,
    decreases offers.len(),
{
    if offers.len() > 0 {
        let earlier = offers.drop_last();
        lemma_register_events(base, key, earlier);
        let middle = base.register_events(earlier);
        middle.lemma_register_event_wf(offers.last());
        let last = offers.last();
        assert(offers[offers.len() - 1] == last);
        assert forall|ek: EventKey| #[trigger]
            base.register_events(offers).events.contains_key(ek) <==> base.events.contains_key(ek)
                || exists|j: int| 0 <= j < offers.len() && (#[trigger] offers[j]).key() == ek by {
            if middle.events.contains_key(ek) && !base.events.contains_key(ek) {
                let j = choose|j: int|
                    0 <= j < earlier.len() && (#[trigger] earlier[j]).key() == ek;
                assert(offers[j].key() == ek);
            }
            if exists|j: int| 0 <= j < offers.len() && (#[trigger] offers[j]).key() == ek {
                let j = choose|j: int| 0 <= j < offers.len() && (#[trigger] offers[j]).key() == ek;
                if j < earlier.len() {
                    assert(earlier[j].key() == ek);
                }
            }
        }
    }
}

/// A service that was registered, and had events offered, is unregistered
/// without a trace: the connection is as it was before the registration.
pub proof fn lemma_register_then_unregister_with_events<S>(
    before: ConnectionView<S>,
    svc: ServiceInstanceID,
    sender: S,
    offers: Seq<EventOffer>,
)
    requires
        before.wf(),
        !before.services.contains_key(svc.key()),
        forall|j: int|
            0 <= j < offers.len() ==> (#[trigger] offers[j]).service == svc.service
                && offers[j].instance == svc.instance,
    ensures
        before.register_service(svc, sender).register_events(offers).unregister_service(svc)
            == before,
{
    let key = svc.key();
    let registered = before.register_service(svc, sender);
    before.lemma_register_service_wf(svc, sender);
    lemma_register_events(registered, key, offers);
    let offered = registered.register_events(offers);
    let after = offered.unregister_service(svc);
    assert(after.events =~= before.events) by {
        assert forall|ek: EventKey| #[trigger]
            after.events.contains_key(ek) <==> before.events.contains_key(ek) by {
            if (ek.0, ek.1) == key {
                assert(offered.events_of(key).contains(ek) == offered.events.contains_key(ek));
            }
        }
    }
    assert(after.services =~= before.services);
    assert(after.handler_refs =~= before.handler_refs);
}

} // verus!
