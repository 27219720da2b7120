//! The mathematical model of a connection.
//!
//! [`ConnectionView`] is what a connection means: its registries as maps, its
//! counters as numbers. Every operation of the connection is first defined
//! here, as a function from one view to the next and to the requests that the
//! engine has to see. The executable connection is proved to follow these
//! definitions, and the laws of the library are proved about them.
use vstd::prelude::*;
use crate::types::{
    ClientID, EventGroupID, EventID, EventReliability, EventType, InstanceID, MajorVersion,
    ServiceID, SessionID, ANY_INSTANCE,
};
use crate::gateway::GatewayCall;
use crate::connection::{ProxyAdapter, ServiceAdapter, ServiceInstanceID};

verus! {

/// Identifies a locally offered service instance.
pub type ServiceKey = (ServiceID, InstanceID);

/// Identifies a requested remote service instance.
pub type ProxyServiceKey = (ServiceID, InstanceID);

/// Identifies one consumer of a remote service instance.
pub type ProxyID = u64;

/// Identifies an outstanding request: the client and the session that the
/// engine gave to the request message.
pub type SessionKey = (ClientID, SessionID);

/// Identifies an offered event.
pub type EventKey = (ServiceID, InstanceID, EventID);

/// An event that the connection offers.
#[derive(Clone, Copy, PartialEq, Eq, Debug, Structural)]
pub struct EventOffer {
    pub service: ServiceID,
    pub instance: InstanceID,
    pub event: EventID,
    pub group: EventGroupID,
    pub typ: EventType,
    pub reliability: EventReliability,
}

impl EventOffer {
    pub open spec fn key(self) -> EventKey {
        (self.service, self.instance, self.event)
    }
}

/// Where a connection stands between its creation and its end.
#[derive(Clone, Copy, PartialEq, Eq, Debug, Structural)]
pub enum Lifecycle {
    /// Created and not started yet.
    Created,
    /// Started; the engine has not reported the registration yet, or has
    /// reported that it was lost.
    Starting,
    /// Started and registered at the engine.
    Connected,
    /// Asked to stop; the engine's loop and the sweeper are being waited for.
    Stopping,
    /// Stopped for good.
    Stopped,
}

/// The consumers of one remote service instance, and the major version that
/// they agreed on.
pub struct ProxyGroupView<S> {
    pub major_version: MajorVersion,
    pub proxies: Map<ProxyID, ProxyAdapter<S>>,
}

/// An outstanding request: the channel that waits for the answer, and the
/// number of sweeper ticks that the answer may still take.
pub struct SessionView<S> {
    pub sender: S,
    pub ttl: u32,
}

/// What a connection holds, as mathematics.
pub struct ConnectionView<S> {
    pub application_name: Seq<char>,
    pub lifecycle: Lifecycle,
    pub connected: bool,
    pub services: Map<ServiceKey, ServiceAdapter<S>>,
    pub handler_refs: Map<ServiceKey, nat>,
    pub proxies: Map<ProxyServiceKey, ProxyGroupView<S>>,
    pub proxy_id_counter: ProxyID,
    pub events: Map<EventKey, EventOffer>,
    pub sessions: Map<SessionKey, SessionView<S>>,
    pub session_ttl: u32,
}

/// True if `listing` names each member of `members` once and nothing else.
pub open spec fn lists<T>(listing: Seq<T>, members: Set<T>) -> bool {
    listing.no_duplicates() && listing.to_set() == members
}

impl<S> ProxyGroupView<S> {
    /// The well-formedness of the group registered under `key`, in a
    /// connection that has issued the proxy ids from 1 to `counter`.
    pub open spec fn wf(self, key: ProxyServiceKey, counter: ProxyID) -> bool {
        &&& self.proxies.dom().finite()
        &&& self.proxies.len() > 0
        &&& forall|id: ProxyID| #[trigger]
            self.proxies.contains_key(id) ==> {
                &&& self.proxies[id].proxy_id == id
                &&& self.proxies[id].siid.key() == key
                &&& self.proxies[id].siid.major_version == self.major_version
                &&& 0 < id <= counter
            }
    }
}

impl<S> ConnectionView<S> {
    /// The view of a connection that was just created.
    pub open spec fn initial(application_name: Seq<char>, session_ttl: u32) -> Self {
        ConnectionView {
            application_name,
            lifecycle: Lifecycle::Created,
            connected: false,
            services: Map::empty(),
            handler_refs: Map::empty(),
            proxies: Map::empty(),
            proxy_id_counter: 0,
            events: Map::empty(),
            sessions: Map::empty(),
            session_ttl,
        }
    }

    /// How often the message handler for `key` has been asked for and not
    /// given back.
    pub open spec fn handler_count(self, key: ServiceKey) -> nat {
        if self.handler_refs.contains_key(key) {
            self.handler_refs[key]
        } else {
            0
        }
    }

    /// The number of proxies registered for `key`.
    pub open spec fn proxy_count(self, key: ProxyServiceKey) -> nat {
        if self.proxies.contains_key(key) {
            self.proxies[key].proxies.len()
        } else {
            0
        }
    }

    /// The number of registrations that need the messages for `key`: the
    /// service adapter, if there is one, and every proxy.
    pub open spec fn registrants(self, key: ServiceKey) -> nat {
        (if self.services.contains_key(key) {
            1nat
        } else {
            0nat
        }) + self.proxy_count(key)
    }

    /// The offered events of the service instance `key`.
    pub open spec fn events_of(self, key: ServiceKey) -> Set<EventKey> {
        Set::new(|ek: EventKey| self.events.contains_key(ek) && (ek.0, ek.1) == key)
    }

    /// What holds of every connection, whatever was done to it.
    ///
    /// Adapters, groups and events sit under their own keys. A group is never
    /// empty, and its proxies agree on the major version. The handler count of
    /// each service instance is the number of its registrants, so the engine
    /// holds a message handler for exactly the instances that have one.
    /// Events are only offered for registered services.
    pub open spec fn wf(self) -> bool {
        &&& forall|key: ServiceKey| #[trigger]
            self.services.contains_key(key) ==> self.services[key].siid.key() == key
        &&& forall|key: ProxyServiceKey| #[trigger]
            self.proxies.contains_key(key) ==> self.proxies[key].wf(key, self.proxy_id_counter)
        &&& forall|key: ServiceKey| #[trigger]
            self.handler_refs.contains_key(key) ==> self.handler_refs[key] > 0
        &&& forall|key: ServiceKey| #[trigger] self.handler_count(key) == self.registrants(key)
        &&& forall|ek: EventKey| #[trigger]
            self.events.contains_key(ek) ==> self.events[ek].key() == ek
                && self.services.contains_key((ek.0, ek.1))
    }

    // ----- message handler references -----

    /// One more registrant needs the messages for `key`.
    pub open spec fn acquire_handler(self, key: ServiceKey) -> Self {
        ConnectionView {
            handler_refs: self.handler_refs.insert(key, self.handler_count(key) + 1),
            ..self
        }
    }

    /// One registrant no longer needs the messages for `key`. Nothing changes
    /// where no handler is held.
    pub open spec fn release_handler(self, key: ServiceKey) -> Self {
        if self.handler_count(key) <= 1 {
            ConnectionView { handler_refs: self.handler_refs.remove(key), ..self }
        } else {
            ConnectionView {
                handler_refs: self.handler_refs.insert(
                    key,
                    (self.handler_count(key) - 1) as nat,
                ),
                ..self
            }
        }
    }

    /// The request that installs the message handler for `key`, where
    /// acquiring it now is the first acquisition.
    pub open spec fn acquire_handler_calls(self, key: ServiceKey) -> Seq<GatewayCall> {
        if self.handler_count(key) == 0 {
            seq![GatewayCall::RegisterMessageHandler { service: key.0, instance: key.1 }]
        } else {
            seq![]
        }
    }

    /// The request that removes the message handler for `key`, where
    /// releasing it now gives back the last reference.
    pub open spec fn release_handler_calls(self, key: ServiceKey) -> Seq<GatewayCall> {
        if self.handler_count(key) == 1 {
            seq![GatewayCall::UnregisterMessageHandler { service: key.0, instance: key.1 }]
        } else {
            seq![]
        }
    }

    // ----- service registry -----

    /// The connection after `sender` was registered as the provider of
    /// `siid`; meant for a `siid` whose key is free.
    pub open spec fn register_service(self, siid: ServiceInstanceID, sender: S) -> Self {
        ConnectionView {
            services: self.services.insert(siid.key(), ServiceAdapter { siid, sender }),
            ..self
        }.acquire_handler(siid.key())
    }

    /// The requests of a successful service registration.
    pub open spec fn register_service_calls(self, siid: ServiceInstanceID) -> Seq<GatewayCall> {
        self.acquire_handler_calls(siid.key()).push(
            GatewayCall::OfferService {
                service: siid.service,
                instance: siid.instance,
                major_version: siid.major_version,
                minor_version: siid.minor_version,
            },
        )
    }

    /// The connection after the provider of `siid` was unregistered. Its
    /// events go with it. Nothing changes where no provider is registered.
    pub open spec fn unregister_service(self, siid: ServiceInstanceID) -> Self {
        if self.services.contains_key(siid.key()) {
            ConnectionView {
                services: self.services.remove(siid.key()),
                events: self.events.remove_keys(self.events_of(siid.key())),
                ..self
            }.release_handler(siid.key())
        } else {
            self
        }
    }

    /// The requests that stop the events of the service instance `key`, as a
    /// set: the order in which they are made is left open.
    pub open spec fn stop_event_calls(self, key: ServiceKey) -> Set<GatewayCall> {
        Set::new(
            |call: GatewayCall|
                call matches GatewayCall::StopOfferEvent { service, instance, event }
                    && (service, instance) == key && self.events.contains_key(
                    (service, instance, event),
                ),
        )
    }

    /// The requests that end the unregistration of a service, after its
    /// events were stopped.
    pub open spec fn unregister_service_calls(self, siid: ServiceInstanceID) -> Seq<GatewayCall> {
        (if self.services.contains_key(siid.key()) {
            self.release_handler_calls(siid.key())
        } else {
            seq![]
        }).push(
            GatewayCall::StopOfferService {
                service: siid.service,
                instance: siid.instance,
                major_version: siid.major_version,
                minor_version: siid.minor_version,
            },
        )
    }

    /// The connection after `offer` was added to the offered events.
    pub open spec fn register_event(self, offer: EventOffer) -> Self {
        ConnectionView { events: self.events.insert(offer.key(), offer), ..self }
    }

    /// The connection after the event `ek` was taken from the offered
    /// events.
    pub open spec fn unregister_event(self, ek: EventKey) -> Self {
        ConnectionView { events: self.events.remove(ek), ..self }
    }

    /// The connection after the events `offers` were added to the offered
    /// events, one after the other.
    pub open spec fn register_events(self, offers: Seq<EventOffer>) -> Self
        decreases offers.len(),
    {
        if offers.len() == 0 {
            self
        } else {
            self.register_events(offers.drop_last()).register_event(offers.last())
        }
    }

    // ----- proxy registry -----

    /// True if a proxy for `siid` would be turned away because the proxies
    /// of its service instance agreed on another major version.
    pub open spec fn major_version_conflict(self, siid: ServiceInstanceID) -> bool {
        self.proxies.contains_key(siid.key()) && self.proxies[siid.key()].major_version
            != siid.major_version
    }

    /// True if a proxy for `siid` can be registered.
    pub open spec fn can_register_proxy(self, siid: ServiceInstanceID) -> bool {
        self.proxy_id_counter < u64::MAX && !self.major_version_conflict(siid)
    }

    /// The id that the next registered proxy gets.
    pub open spec fn next_proxy_id(self) -> ProxyID {
        (self.proxy_id_counter + 1) as ProxyID
    }

    /// The connection after the proxy ids up to `last` were set aside: none
    /// of them is issued from now on. Ids that were issued stay as they are.
    pub open spec fn reserve_proxy_ids(self, last: ProxyID) -> Self {
        ConnectionView {
            proxy_id_counter: if last > self.proxy_id_counter {
                last
            } else {
                self.proxy_id_counter
            },
            ..self
        }
    }

    /// The connection after a proxy for `siid` with the channel `sender` was
    /// registered; meant for a `siid` that [`Self::can_register_proxy`].
    pub open spec fn register_proxy(self, siid: ServiceInstanceID, sender: S) -> Self {
        let id = self.next_proxy_id();
        let adapter = ProxyAdapter { siid, sender, proxy_id: id };
        let group = if self.proxies.contains_key(siid.key()) {
            ProxyGroupView {
                major_version: siid.major_version,
                proxies: self.proxies[siid.key()].proxies.insert(id, adapter),
            }
        } else {
            ProxyGroupView {
                major_version: siid.major_version,
                proxies: Map::<ProxyID, ProxyAdapter<S>>::empty().insert(id, adapter),
            }
        };
        ConnectionView {
            proxies: self.proxies.insert(siid.key(), group),
            proxy_id_counter: id,
            ..self
        }.acquire_handler(siid.key())
    }

    /// The requests of a successful proxy registration: the first proxy of a
    /// service instance has the service requested and its availability
    /// reported.
    pub open spec fn register_proxy_calls(self, siid: ServiceInstanceID) -> Seq<GatewayCall> {
        (if self.proxies.contains_key(siid.key()) {
            seq![]
        } else {
            seq![
                GatewayCall::RequestService {
                    service: siid.service,
                    instance: siid.instance,
                    major_version: siid.major_version,
                    minor_version: siid.minor_version,
                },
                GatewayCall::RegisterAvailabilityCallback {
                    service: siid.service,
                    instance: siid.instance,
                },
            ]
        }) + self.acquire_handler_calls(siid.key())
    }

    /// True if the proxy `proxy_id` is registered for the service instance
    /// `key`.
    pub open spec fn has_proxy(self, proxy_id: ProxyID, key: ProxyServiceKey) -> bool {
        self.proxies.contains_key(key) && self.proxies[key].proxies.contains_key(proxy_id)
    }

    /// The connection after the proxy `proxy_id` of the service instance
    /// `key` was unregistered. The last proxy takes the group with it.
    /// Nothing changes where the proxy is not registered.
    pub open spec fn unregister_proxy(self, proxy_id: ProxyID, key: ProxyServiceKey) -> Self {
        if self.has_proxy(proxy_id, key) {
            let rest = self.proxies[key].proxies.remove(proxy_id);
            ConnectionView {
                proxies: if rest.len() == 0 {
                    self.proxies.remove(key)
                } else {
                    self.proxies.insert(
                        key,
                        ProxyGroupView {
                            major_version: self.proxies[key].major_version,
                            proxies: rest,
                        },
                    )
                },
                ..self
            }.release_handler(key)
        } else {
            self
        }
    }

    /// The requests of a proxy's unregistration: the last proxy of a service
    /// instance has the service released.
    pub open spec fn unregister_proxy_calls(
        self,
        proxy_id: ProxyID,
        key: ProxyServiceKey,
    ) -> Seq<GatewayCall> {
        if self.has_proxy(proxy_id, key) {
            (if self.proxies[key].proxies.len() == 1 {
                seq![
                    GatewayCall::ReleaseService { service: key.0, instance: key.1 },
                    GatewayCall::UnregisterAvailabilityCallback {
                        service: key.0,
                        instance: key.1,
                    },
                ]
            } else {
                seq![]
            }) + self.release_handler_calls(key)
        } else {
            seq![]
        }
    }

    // ----- routing -----

    /// The adapter that gets a request for the service instance `key`: the
    /// adapter of the instance itself or, where there is none, the adapter
    /// that the service registered for any instance.
    pub open spec fn route_service(self, key: ServiceKey) -> Option<ServiceKey> {
        if self.services.contains_key(key) {
            Some(key)
        } else if self.services.contains_key((key.0, ANY_INSTANCE)) {
            Some((key.0, ANY_INSTANCE))
        } else {
            None
        }
    }

    // ----- sessions -----

    /// The connection after the request `key` began to wait for its answer
    /// on `sender`.
    pub open spec fn track_session(self, key: SessionKey, sender: S) -> Self {
        ConnectionView {
            sessions: self.sessions.insert(key, SessionView { sender, ttl: self.session_ttl }),
            ..self
        }
    }

    /// The connection after the request `key` got its answer, or was given
    /// up.
    pub open spec fn close_session(self, key: SessionKey) -> Self {
        ConnectionView { sessions: self.sessions.remove(key), ..self }
    }

    /// The requests that run out of time at the next tick of the sweeper.
    pub open spec fn expiring(self) -> Set<SessionKey> {
        Set::new(|key: SessionKey| self.sessions.contains_key(key) && self.sessions[key].ttl <= 1)
    }

    /// The connection after one tick of the sweeper: every request has one
    /// tick less to wait, and those that ran out of time are gone.
    pub open spec fn tick(self) -> Self {
        ConnectionView {
            sessions: Map::new(
                |key: SessionKey| self.sessions.contains_key(key) && self.sessions[key].ttl > 1,
                |key: SessionKey|
                    SessionView {
                        sender: self.sessions[key].sender,
                        ttl: (self.sessions[key].ttl - 1) as u32,
                    },
            ),
            ..self
        }
    }

    /// The connection after `n` ticks of the sweeper.
    pub open spec fn ticks(self, n: nat) -> Self
        decreases n,
    {
        if n == 0 {
            self
        } else {
            self.tick().ticks((n - 1) as nat)
        }
    }

    // ----- lifecycle -----

    /// The connection after the engine reported that it is registered
    /// (`is_connected`) or no longer registered.
    pub open spec fn state_changed(self, is_connected: bool) -> Self {
        ConnectionView {
            connected: is_connected,
            lifecycle: match self.lifecycle {
                Lifecycle::Starting | Lifecycle::Connected => if is_connected {
                    Lifecycle::Connected
                } else {
                    Lifecycle::Starting
                },
                other => other,
            },
            ..self
        }
    }

    /// The connection after it was started; meant for one that was created
    /// and not started yet.
    pub open spec fn start(self) -> Self {
        ConnectionView {
            lifecycle: if self.connected {
                Lifecycle::Connected
            } else {
                Lifecycle::Starting
            },
            ..self
        }
    }

    /// True while the engine's loop and the sweeper run.
    pub open spec fn running(self) -> bool {
        self.lifecycle is Starting || self.lifecycle is Connected
    }

    /// The connection after it was asked to stop.
    pub open spec fn stop(self) -> Self {
        if self.running() {
            ConnectionView { lifecycle: Lifecycle::Stopping, ..self }
        } else {
            self
        }
    }

    /// The connection after the engine's loop and the sweeper have ended.
    pub open spec fn finish_stop(self) -> Self {
        if self.lifecycle is Stopping {
            ConnectionView { lifecycle: Lifecycle::Stopped, ..self }
        } else {
            self
        }
    }
}

impl<S> ConnectionView<S> {
    /// The invariant speaks of the services, the handler counts, the proxies
    /// and the events only: a connection that agrees with a well-formed one
    /// on these is well-formed.
    pub proof fn lemma_wf_of_registries(self, next: Self)
        requires
            self.wf(),
            next.services == self.services,
            next.handler_refs == self.handler_refs,
            next.proxies == self.proxies,
            next.proxy_id_counter == self.proxy_id_counter,
            next.events == self.events,
        ensures
            next.wf(),
    {
        assert forall|key: ServiceKey| #[trigger]
            next.handler_count(key) == next.registrants(key) by {
            assert(self.handler_count(key) == self.registrants(key));
        }
    }
}

impl<S> ConnectionView<S> {
    /// Registering a service whose key is free keeps the invariant.
    pub proof fn lemma_register_service_wf(self, siid: ServiceInstanceID, sender: S)
        requires
            self.wf(),
            !self.services.contains_key(siid.key()),
        ensures
            self.register_service(siid, sender).wf(),
    {
        let next = self.register_service(siid, sender);
        assert forall|key: ServiceKey| #[trigger]
            next.handler_count(key) == next.registrants(key) by {
            assert(self.handler_count(key) == self.registrants(key));
        }
    }

    /// Unregistering a service keeps the invariant.
    pub proof fn lemma_unregister_service_wf(self, siid: ServiceInstanceID)
        requires
            self.wf(),
        ensures
            self.unregister_service(siid).wf(),
    {
        let next = self.unregister_service(siid);
        assert forall|key: ServiceKey| #[trigger]
            next.handler_count(key) == next.registrants(key) by {
            assert(self.handler_count(key) == self.registrants(key));
        }
    }

    /// Offering an event of a registered service keeps the invariant.
    pub proof fn lemma_register_event_wf(self, offer: EventOffer)
        requires
            self.wf(),
            self.services.contains_key((offer.service, offer.instance)),
        ensures
            self.register_event(offer).wf(),
    {
        let next = self.register_event(offer);
        assert forall|key: ServiceKey| #[trigger]
            next.handler_count(key) == next.registrants(key) by {
            assert(self.handler_count(key) == self.registrants(key));
        }
    }

    /// Taking an event back keeps the invariant.
    pub proof fn lemma_unregister_event_wf(self, ek: EventKey)
        requires
            self.wf(),
        ensures
            self.unregister_event(ek).wf(),
    {
        let next = self.unregister_event(ek);
        assert forall|key: ServiceKey| #[trigger]
            next.handler_count(key) == next.registrants(key) by {
            assert(self.handler_count(key) == self.registrants(key));
        }
    }
}

impl<S> ConnectionView<S> {
    /// Registering a proxy that can be registered keeps the invariant.
    pub proof fn lemma_register_proxy_wf(self, siid: ServiceInstanceID, sender: S)
        requires
            self.wf(),
            self.can_register_proxy(siid),
        ensures
            self.register_proxy(siid, sender).wf(),
            !self.has_proxy(self.next_proxy_id(), siid.key()),
            self.register_proxy(siid, sender).proxy_count(siid.key()) == self.proxy_count(
                siid.key(),
            ) + 1,
    {
        let next = self.register_proxy(siid, sender);
        let key = siid.key();
        let id = self.next_proxy_id();
        if self.proxies.contains_key(key) {
            assert(self.proxies[key].wf(key, self.proxy_id_counter));
            assert(!self.proxies[key].proxies.contains_key(id));
        }
        assert(next.proxies[key].wf(key, next.proxy_id_counter));
        assert forall|other: ProxyServiceKey| #[trigger]
            next.proxies.contains_key(other) implies next.proxies[other].wf(
            other,
            next.proxy_id_counter,
        ) by {
            if other != key {
                assert(self.proxies[other].wf(other, self.proxy_id_counter));
            }
        }
        assert forall|other: ServiceKey| #[trigger]
            next.handler_count(other) == next.registrants(other) by {
            assert(self.handler_count(other) == self.registrants(other));
        }
    }

    /// Setting proxy ids aside keeps the invariant.
    pub proof fn lemma_reserve_proxy_ids_wf(self, last: ProxyID)
        requires
            self.wf(),
        ensures
            self.reserve_proxy_ids(last).wf(),
    {
        let next = self.reserve_proxy_ids(last);
        assert forall|key: ProxyServiceKey| #[trigger]
            next.proxies.contains_key(key) implies next.proxies[key].wf(
            key,
            next.proxy_id_counter,
        ) by {
            assert(self.proxies[key].wf(key, self.proxy_id_counter));
        }
        assert forall|key: ServiceKey| #[trigger]
            next.handler_count(key) == next.registrants(key) by {
            assert(self.handler_count(key) == self.registrants(key));
        }
    }

    /// Unregistering a proxy keeps the invariant.
    pub proof fn lemma_unregister_proxy_wf(self, proxy_id: ProxyID, key: ProxyServiceKey)
        requires
            self.wf(),
        ensures
            self.unregister_proxy(proxy_id, key).wf(),
    {
        let next = self.unregister_proxy(proxy_id, key);
        if self.has_proxy(proxy_id, key) {
            assert(self.proxies[key].wf(key, self.proxy_id_counter));
            assert forall|other: ProxyServiceKey| #[trigger]
                next.proxies.contains_key(other) implies next.proxies[other].wf(
                other,
                next.proxy_id_counter,
            ) by {
                if other != key {
                    assert(self.proxies[other].wf(other, self.proxy_id_counter));
                }
            }
            assert forall|other: ServiceKey| #[trigger]
                next.handler_count(other) == next.registrants(other) by {
                assert(self.handler_count(other) == self.registrants(other));
            }
        }
    }
}

} // verus!
