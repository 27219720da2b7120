//! The registry of offered services and of their events.
use vstd::prelude::*;
use std::collections::HashMap;
use vstd::std_specs::hash::spec_keys_iter;
use vstd::std_specs::hash::spec_hash_map_len;
use vstd::std_specs::iter::IteratorSpec;
use crate::connection::{
    make_pair_key, pair_key, CapiError, Connection, EventDetails, ServiceAdapter,
    ServiceInstanceID,
};
use crate::gateway::GatewayCall;
use crate::model::{lists, EventOffer, ServiceKey};
use crate::types::{EventGroupID, EventID, EventReliability, EventType, InstanceID, ServiceID};

verus! {

broadcast use vstd::std_specs::hash::group_hash_axioms;

/// True if `all` starts with a listing of `first`, in any order, and goes on
/// with exactly `then`.
pub open spec fn lists_then<T>(all: Seq<T>, first: Set<T>, then: Seq<T>) -> bool {
    &&& all.len() >= then.len()
    &&& lists(all.subrange(0, all.len() - then.len()), first)
    &&& all.subrange(all.len() - then.len(), all.len() as int) == then
}

/// The requests that stop the events `events` of a service instance.
pub open spec fn stops_of(service: ServiceID, instance: InstanceID, events: Set<EventID>) -> Set<
    GatewayCall,
> {
    Set::new(
        |call: GatewayCall|
            call matches GatewayCall::StopOfferEvent { service: s, instance: i, event } && s
                == service && i == instance && events.contains(event),
    )
}

/// One request for each of the events `events` of a service instance, to
/// stop offering it; in no particular order.
fn stop_events(
    service: ServiceID,
    instance: InstanceID,
    events: &HashMap<EventID, EventDetails>,
) -> (calls: Vec<GatewayCall>)
    ensures
        lists(calls@, stops_of(service, instance, events@.dom())),
{
    let mut calls: Vec<GatewayCall> = Vec::new();
    for event in iter: events.keys()
        invariant
            iter.seq() == spec_keys_iter(events).remaining(),
            calls@.len() == iter.index(),
            forall|j: int|
                0 <= j < calls@.len() ==> calls@[j] == (GatewayCall::StopOfferEvent {
                    service,
                    instance,
                    event: *iter.seq()[j],
                }),
    {
        calls.push(GatewayCall::StopOfferEvent { service, instance, event: *event });
    }
    proof {
        let ids = spec_keys_iter(events).remaining().unref();
        let stops = stops_of(service, instance, events@.dom());
        assert forall|j: int| 0 <= j < calls@.len() implies calls@[j] == (
        GatewayCall::StopOfferEvent { service, instance, event: ids[j] }) by {}
        assert forall|a: int, b: int|
            0 <= a < calls@.len() && 0 <= b < calls@.len() && a != b implies calls@[a]
            != calls@[b] by {
            assert(spec_keys_iter(events).remaining()[a] != spec_keys_iter(events).remaining()[b]);
            assert(ids[a] != ids[b]);
        }
        assert forall|call: GatewayCall| stops.contains(call) implies calls@.to_set().contains(
            call,
        ) by {
            let e = call->StopOfferEvent_event;
            assert(ids.to_set().contains(e));
            let j = choose|j: int| 0 <= j < ids.len() && ids[j] == e;
            assert(calls@[j] == call);
        }
        assert forall|call: GatewayCall| calls@.to_set().contains(call) implies stops.contains(
            call,
        ) by {
            let j = choose|j: int| 0 <= j < calls@.len() && calls@[j] == call;
            assert(ids.to_set().contains(ids[j]));
        }
        assert(calls@.to_set() =~= stops);
    }
    calls
}

impl<S> Connection<S> {
    /// True if a provider is registered for the service instance.
    pub fn has_service(&self, service: ServiceID, instance: InstanceID) -> (found: bool)
        ensures
            found == self@.services.contains_key((service, instance)),
    {
        let key = make_pair_key(service, instance);
        self.services.contains_key(&key)
    }

    /// Registers the provider of a service instance. From now on the
    /// requests for the instance go to `snd`.
    ///
    /// Fails, and changes nothing, if the instance has a provider already.
    /// Else the result holds the requests for the engine: to install the
    /// message handler, if this is the first registrant of the instance, and
    /// to offer the service.
    pub fn register_service(
        &mut self,
        siid: ServiceInstanceID,
        snd: S,
    ) -> (result: Result<Vec<GatewayCall>, ()>)
        requires
            old(self).wf(),
        ensures
            final(self).wf(),
            result is Ok <==> !old(self)@.services.contains_key(siid.key()),
            match result {
                Ok(calls) => {
                    &&& final(self)@ == old(self)@.register_service(siid, snd)
                    &&& calls@ == old(self)@.register_service_calls(siid)
                },
                Err(_) => final(self)@ == old(self)@,
            },
    {
        let key = make_pair_key(siid.service, siid.instance);
        if self.services.contains_key(&key) {
            return Err(());
        }
        proof {
            self.lemma_handler_count_bounded(siid.key());
        }
        self.services.insert(key, ServiceAdapter { siid, sender: snd });
        let ghost inserted = self@;
        let mut calls: Vec<GatewayCall> = Vec::new();
        if self.add_msg_handler(siid.service, siid.instance) {
            calls.push(
                GatewayCall::RegisterMessageHandler {
                    service: siid.service,
                    instance: siid.instance,
                },
            );
        }
        calls.push(
            GatewayCall::OfferService {
                service: siid.service,
                instance: siid.instance,
                major_version: siid.major_version,
                minor_version: siid.minor_version,
            },
        );
        proof {
            assert(inserted.services =~= old(self)@.services.insert(
                siid.key(),
                ServiceAdapter { siid, sender: snd },
            ));
            assert(final(self)@ == old(self)@.register_service(siid, snd));
            old(self)@.lemma_register_service_wf(siid, snd);
            assert(calls@ =~= old(self)@.register_service_calls(siid));
        }
        Ok(calls)
    }

    /// Unregisters the provider of a service instance.
    ///
    /// Every event that is still offered for the instance is stopped and
    /// forgotten, the adapter is removed and its reference to the message
    /// handler given back. The result holds the requests for the engine: one
    /// for each stopped event, in no particular order, then the request to
    /// remove the message handler, if nobody else needs it, then the request
    /// to stop offering the service. Where no provider is registered only the
    /// last request is made and nothing changes.
    pub fn unregister_service(&mut self, siid: ServiceInstanceID) -> (calls: Vec<GatewayCall>)
        requires
            old(self).wf(),
        ensures
            final(self).wf(),
            final(self)@ == old(self)@.unregister_service(siid),
            lists_then(
                calls@,
                old(self)@.stop_event_calls(siid.key()),
                old(self)@.unregister_service_calls(siid),
            ),
    {
        let key = make_pair_key(siid.service, siid.instance);
        let mut calls: Vec<GatewayCall> = Vec::new();
        let stop_offer = GatewayCall::StopOfferService {
            service: siid.service,
            instance: siid.instance,
            major_version: siid.major_version,
            minor_version: siid.minor_version,
        };
        if !self.services.contains_key(&key) {
            calls.push(stop_offer);
            proof {
                assert(old(self)@.stop_event_calls(siid.key()) =~= Set::<GatewayCall>::empty());
                assert(calls@.subrange(0, 0) =~= Seq::<GatewayCall>::empty());
                assert(Seq::<GatewayCall>::empty().to_set() =~= Set::<GatewayCall>::empty());
                assert(calls@.subrange(0, 1) =~= old(self)@.unregister_service_calls(siid));
            }
            return calls;
        }
        match self.offered_events.remove(&key) {
            Some(events) => {
                calls = stop_events(siid.service, siid.instance, &events);
                proof {
                    assert(stops_of(siid.service, siid.instance, events@.dom())
                        =~= old(self)@.stop_event_calls(siid.key()));
                }
            },
            None => {
                proof {
                    assert(old(self)@.stop_event_calls(siid.key()) =~= Set::<GatewayCall>::empty());
                    assert(calls@.to_set() =~= Set::<GatewayCall>::empty());
                }
            },
        }
        let ghost listed = calls@;
        assert(lists(listed, old(self)@.stop_event_calls(siid.key())));
        self.services.remove(&key);
        let ghost removed = self@;
        if self.release_msg_handler(siid.service, siid.instance) {
            calls.push(
                GatewayCall::UnregisterMessageHandler {
                    service: siid.service,
                    instance: siid.instance,
                },
            );
        }
        calls.push(stop_offer);
        proof {
            let before = old(self)@;
            assert(removed.services =~= before.services.remove(siid.key()));
            assert(removed.events =~= before.events.remove_keys(before.events_of(siid.key())));
            assert(removed.handler_refs == before.handler_refs);
            assert(final(self)@ == before.unregister_service(siid));
            before.lemma_unregister_service_wf(siid);
            let then = before.unregister_service_calls(siid);
            assert(calls@.subrange(0, calls@.len() - then.len()) =~= listed);
            assert(calls@.subrange(calls@.len() - then.len(), calls@.len() as int) =~= then);
        }
        calls
    }

    /// True if the event is offered.
    pub fn has_event(
        &self,
        service: ServiceID,
        instance: InstanceID,
        event: EventID,
    ) -> (found: bool)
        ensures
            found == self@.events.contains_key((service, instance, event)),
    {
        let key = make_pair_key(service, instance);
        match self.offered_events.get(&key) {
            Some(events) => events.contains_key(&event),
            None => false,
        }
    }

    /// Offers an event of a registered service instance.
    ///
    /// Fails with `ServiceInstanceUnknown` if the instance has no provider,
    /// and with `EventAlreadyRegistered` if the event is offered already;
    /// nothing changes then. Else the event is remembered and the result is
    /// the request to the engine to offer it.
    pub fn register_event(
        &mut self,
        service: ServiceID,
        instance: InstanceID,
        event: EventID,
        group: EventGroupID,
        typ: EventType,
        reliability: EventReliability,
    ) -> (result: Result<GatewayCall, CapiError>)
        requires
            old(self).wf(),
        ensures
            final(self).wf(),
            result is Ok <==> old(self)@.services.contains_key((service, instance))
                && !old(self)@.events.contains_key((service, instance, event)),
            match result {
                Ok(call) => {
                    &&& old(self)@.services.contains_key((service, instance))
                    &&& !old(self)@.events.contains_key((service, instance, event))
                    &&& final(self)@ == old(self)@.register_event(
                        EventOffer { service, instance, event, group, typ, reliability },
                    )
                    &&& call == (GatewayCall::OfferEvent {
                        service,
                        instance,
                        event,
                        group,
                        typ,
                        reliability,
                    })
                },
                Err(error) => {
                    &&& final(self)@ == old(self)@
                    &&& if !old(self)@.services.contains_key((service, instance)) {
                        error == CapiError::ServiceInstanceUnknown
                    } else {
                        &&& error == CapiError::EventAlreadyRegistered
                        &&& old(self)@.events.contains_key((service, instance, event))
                    }
                },
            },
    {
        let key = make_pair_key(service, instance);
        if !self.services.contains_key(&key) {
            return Err(CapiError::ServiceInstanceUnknown);
        }
        if self.has_event(service, instance, event) {
            return Err(CapiError::EventAlreadyRegistered);
        }
        let mut events: HashMap<EventID, EventDetails> = match self.offered_events.remove(&key) {
            Some(events) => events,
            None => HashMap::new(),
        };
        events.insert(event, EventDetails { group, typ, reliability });
        self.offered_events.insert(key, events);
        proof {
            let offer = EventOffer { service, instance, event, group, typ, reliability };
            assert(final(self)@.events =~= old(self)@.events.insert(offer.key(), offer));
            old(self)@.lemma_register_event_wf(offer);
        }
        Ok(GatewayCall::OfferEvent { service, instance, event, group, typ, reliability })
    }

    /// Takes an event back. The result is the request to the engine to stop
    /// offering it; there is none, and nothing changes, if the event is not
    /// offered.
    pub fn unregister_event(
        &mut self,
        service: ServiceID,
        instance: InstanceID,
        event: EventID,
    ) -> (call: Option<GatewayCall>)
        requires
            old(self).wf(),
        ensures
            final(self).wf(),
            final(self)@ == old(self)@.unregister_event((service, instance, event)),
            call == if old(self)@.events.contains_key((service, instance, event)) {
                Some(GatewayCall::StopOfferEvent { service, instance, event })
            } else {
                None
            },
    {
        let key = make_pair_key(service, instance);
        if !self.has_event(service, instance, event) {
            proof {
                assert(old(self)@.events =~= old(self)@.events.remove((service, instance, event)));
            }
            return None;
        }
        let mut events: HashMap<EventID, EventDetails> = match self.offered_events.remove(&key) {
            Some(events) => events,
            None => HashMap::new(),
        };
        events.remove(&event);
        self.offered_events.insert(key, events);
        proof {
            assert(final(self)@.events =~= old(self)@.events.remove((service, instance, event)));
            old(self)@.lemma_unregister_event_wf((service, instance, event));
        }
        Some(GatewayCall::StopOfferEvent { service, instance, event })
    }

    /// The handler count of a well-formed connection leaves room for one
    /// more reference.
    pub(crate) proof fn lemma_handler_count_bounded(&self, key: ServiceKey)
        requires
            self.wf(),
        ensures
            self@.handler_count(key) <= usize::MAX + 1,
    {
        assert(self@.handler_count(key) == self@.registrants(key));
        if self@.proxies.contains_key(key) {
            let group = self.req_services@[pair_key(key.0, key.1)];
            assert(spec_hash_map_len(&group.proxies) == group.proxies@.len());
        }
    }
}

} // verus!
