//! The registry of proxies: the consumers of remote service instances.
use vstd::prelude::*;
use std::collections::HashMap;
use vstd::std_specs::hash::spec_keys_iter;
use vstd::std_specs::iter::IteratorSpec;
use crate::connection::{
    make_pair_key, CapiError, Command, Connection, Delivery, ProxyAdapter, ProxyGroup,
    ServiceInstanceID,
};
use crate::gateway::GatewayCall;
use crate::model::{lists, ProxyID};
use crate::types::{InstanceID, ServiceID};

verus! {

broadcast use vstd::std_specs::hash::group_hash_axioms;

/// What a successful proxy registration hands back.
#[derive(Debug)]
pub struct ProxyRegistration<S> {
    /// The id of the new proxy.
    pub proxy_id: ProxyID,
    /// The requests for the engine, in order.
    pub calls: Vec<GatewayCall>,
    /// The channel of the new proxy, for the availability snapshot that it
    /// is owed.
    pub snapshot: S,
}

/// The command that tells a consumer whether a service instance can be
/// reached.
pub open spec fn availability(avail: bool, service: ServiceID, instance: InstanceID) -> Command {
    if avail {
        Command::ServiceAvailable(service, instance)
    } else {
        Command::ServiceUnavailable(service, instance)
    }
}

/// True if `deliveries` brings `command` to each of `proxies` once, each
/// time on a clone of the proxy's channel.
pub open spec fn announces<S: Clone>(
    deliveries: Seq<Delivery<S>>,
    proxies: Map<ProxyID, ProxyAdapter<S>>,
    command: Command,
) -> bool {
    exists|ids: Seq<ProxyID>|
        {
            &&& lists(ids, proxies.dom())
            &&& ids.len() == deliveries.len()
            &&& forall|j: int|
                0 <= j < ids.len() ==> {
                    &&& cloned(proxies[ids[j]].sender, (#[trigger] deliveries[j]).sender)
                    &&& deliveries[j].command == command
                }
        }
}

#[verifier::when_used_as_spec(availability)]
pub fn bool_to_availability(
    avail: bool,
    service: ServiceID,
    instance: InstanceID,
) -> (command: Command)
    ensures
        command == availability(avail, service, instance),
{
    if avail {
        Command::ServiceAvailable(service, instance)
    } else {
        Command::ServiceUnavailable(service, instance)
    }
}

impl<S> Connection<S> {
    /// The availability snapshot for one consumer: whether the engine reports
    /// the service instance as reachable (`available`), for the channel `sender`.
    pub fn send_actual_availability(
        &self,
        service: ServiceID,
        instance: InstanceID,
        available: bool,
        sender: S,
    ) -> (delivery: Delivery<S>)
        ensures
            delivery.sender == sender,
            delivery.command == availability(available, service, instance),
    {
        Delivery { sender, command: bool_to_availability(available, service, instance) }
    }

    /// Issues the next proxy id. Ids start at 1 and are never issued twice;
    /// when all are used up the call fails and nothing changes.
    pub(crate) fn create_proxy_id(&mut self) -> (result: Result<ProxyID, CapiError>)
        ensures
            match result {
                Ok(id) => {
                    &&& old(self)@.proxy_id_counter < u64::MAX
                    &&& id == old(self)@.next_proxy_id()
                    &&& final(self)@ == (crate::model::ConnectionView {
                        proxy_id_counter: id,
                        ..old(self)@
                    })
                },
                Err(error) => {
                    &&& old(self)@.proxy_id_counter == u64::MAX
                    &&& error == CapiError::OutOfProxyIds
                    &&& final(self)@ == old(self)@
                },
            },
            final(self).session_map == old(self).session_map,
    {
        match self.proxy_id_counter.checked_add(1) {
            Some(id) => {
                self.proxy_id_counter = id;
                Ok(id)
            },
            None => Err(CapiError::OutOfProxyIds),
        }
    }

    /// Sets the proxy ids up to `last` aside: the next proxy gets an id above
    /// `last`, and above every id that was issued before.
    pub fn reserve_proxy_ids(&mut self, last: ProxyID)
        requires
            old(self).wf(),
        ensures
            final(self).wf(),
            final(self)@ == old(self)@.reserve_proxy_ids(last),
    {
        if last > self.proxy_id_counter {
            self.proxy_id_counter = last;
        }
        proof {
            old(self)@.lemma_reserve_proxy_ids_wf(last);
        }
    }

    /// True if the proxy is registered for the service instance.
    pub fn has_proxy(
        &self,
        proxy_id: ProxyID,
        service: ServiceID,
        instance: InstanceID,
    ) -> (found: bool)
        ensures
            found == self@.has_proxy(proxy_id, (service, instance)),
    {
        let key = make_pair_key(service, instance);
        match self.req_services.get(&key) {
            Some(group) => group.proxies.contains_key(&proxy_id),
            None => false,
        }
    }

    /// Unregisters a proxy.
    ///
    /// The proxy is removed and its reference to the message handler given
    /// back. The last proxy of a service instance takes the instance's entry
    /// with it and has the service released at the engine. The result holds
    /// the requests for the engine, in order. Where the proxy is not
    /// registered for the instance nothing changes and nothing is requested.
    pub fn unregister_proxy(
        &mut self,
        proxy_id: ProxyID,
        service: ServiceID,
        instance: InstanceID,
    ) -> (calls: Vec<GatewayCall>)
        requires
            old(self).wf(),
        ensures
            final(self).wf(),
            final(self)@ == old(self)@.unregister_proxy(proxy_id, (service, instance)),
            calls@ == old(self)@.unregister_proxy_calls(proxy_id, (service, instance)),
    {
        let key = make_pair_key(service, instance);
        let mut calls: Vec<GatewayCall> = Vec::new();
        if !self.has_proxy(proxy_id, service, instance) {
            return calls;
        }
        let ghost before = old(self)@;
        proof {
            assert(before.proxies[(service, instance)].wf(
                (service, instance),
                before.proxy_id_counter,
            ));
        }
        let mut group = match self.req_services.remove(&key) {
            Some(group) => group,
            None => unreached(),
        };
        group.proxies.remove(&proxy_id);
        if group.proxies.len() == 0 {
            calls.push(GatewayCall::ReleaseService { service, instance });
            calls.push(GatewayCall::UnregisterAvailabilityCallback { service, instance });
        } else {
            self.req_services.insert(key, group);
        }
        let ghost removed = self@;
        if self.release_msg_handler(service, instance) {
            calls.push(GatewayCall::UnregisterMessageHandler { service, instance });
        }
        proof {
            let k = (service, instance);
            let rest = before.proxies[k].proxies.remove(proxy_id);
            assert(removed.proxies =~= before.unregister_proxy(proxy_id, k).proxies);
            assert(removed.handler_refs == before.handler_refs);
            assert(final(self)@ == before.unregister_proxy(proxy_id, k));
            before.lemma_unregister_proxy_wf(proxy_id, k);
            assert(calls@ =~= before.unregister_proxy_calls(proxy_id, k));
        }
        calls
    }
}

impl<S: Clone> Connection<S> {
    /// Registers a consumer of a remote service instance.
    ///
    /// Fails with `OutOfProxyIds` if every proxy id has been issued, and
    /// else with `MajorVersionConflict` if the instance has proxies that
    /// agreed on another major version; nothing changes then. Else the proxy
    /// gets the next id and one reference to the message handler. The result
    /// holds the id, the requests for the engine (the first proxy of the
    /// instance has the service requested and its availability reported; the
    /// first registrant of the instance has the message handler installed)
    /// and a clone of the proxy's channel, to which the caller owes the
    /// availability snapshot (see [`Connection::send_actual_availability`]).
    pub fn register_proxy(
        &mut self,
        siid: ServiceInstanceID,
        sender: S,
    ) -> (result: Result<ProxyRegistration<S>, CapiError>)
        requires
            old(self).wf(),
        ensures
            final(self).wf(),
            result is Ok <==> old(self)@.can_register_proxy(siid),
            match result {
                Ok(registration) => {
                    &&& old(self)@.can_register_proxy(siid)
                    &&& registration.proxy_id == old(self)@.next_proxy_id()
                    &&& registration.calls@ == old(self)@.register_proxy_calls(siid)
                    &&& cloned(sender, registration.snapshot)
                    &&& final(self)@ == old(self)@.register_proxy(siid, sender)
                },
                Err(error) => {
                    &&& final(self)@ == old(self)@
                    &&& if old(self)@.proxy_id_counter == u64::MAX {
                        error == CapiError::OutOfProxyIds
                    } else {
                        &&& error == CapiError::MajorVersionConflict
                        &&& old(self)@.major_version_conflict(siid)
                    }
                },
            },
    {
        let key = make_pair_key(siid.service, siid.instance);
        if self.proxy_id_counter == u64::MAX {
            return Err(CapiError::OutOfProxyIds);
        }
        match self.req_services.get(&key) {
            Some(group) => {
                if group.major_version != siid.major_version {
                    return Err(CapiError::MajorVersionConflict);
                }
            },
            None => {},
        }
        let ghost before = old(self)@;
        proof {
            self.lemma_handler_count_bounded(siid.key());
            before.lemma_register_proxy_wf(siid, sender);
        }
        let proxy_id = self.create_proxy_id()?;
        let snapshot = sender.clone();
        let proxy_adapter = ProxyAdapter { siid, sender, proxy_id };
        let mut calls: Vec<GatewayCall> = Vec::new();
        match self.req_services.remove(&key) {
            Some(group) => {
                let mut group = group;
                group.proxies.insert(proxy_id, proxy_adapter);
                self.req_services.insert(key, group);
            },
            None => {
                let mut proxies: HashMap<ProxyID, ProxyAdapter<S>> = HashMap::new();
                proxies.insert(proxy_id, proxy_adapter);
                self.req_services.insert(
                    key,
                    ProxyGroup { major_version: siid.major_version, proxies },
                );
                calls.push(
                    GatewayCall::RequestService {
                        service: siid.service,
                        instance: siid.instance,
                        major_version: siid.major_version,
                        minor_version: siid.minor_version,
                    },
                );
                calls.push(
                    GatewayCall::RegisterAvailabilityCallback {
                        service: siid.service,
                        instance: siid.instance,
                    },
                );
            },
        }
        let ghost inserted = self@;
        if self.add_msg_handler(siid.service, siid.instance) {
            calls.push(
                GatewayCall::RegisterMessageHandler {
                    service: siid.service,
                    instance: siid.instance,
                },
            );
        }
        proof {
            assert(inserted.proxies =~~= before.register_proxy(siid, sender).proxies);
            assert(inserted.handler_refs == before.handler_refs);
            assert(final(self)@ == before.register_proxy(siid, sender));
            assert(calls@ =~= before.register_proxy_calls(siid));
        }
        Ok(ProxyRegistration { proxy_id, calls, snapshot })
    }

    /// What the consumers of a service instance have to be told when the
    /// engine reports that the instance became reachable (`avail`) or
    /// unreachable: one command for each proxy of the instance, in no
    /// particular order, each on a clone of the proxy's channel. Nothing
    /// where the instance has no proxies.
    pub fn on_availability_callback(
        &self,
        service: ServiceID,
        instance: InstanceID,
        avail: bool,
    ) -> (deliveries: Vec<Delivery<S>>)
        ensures
            if self@.proxies.contains_key((service, instance)) {
                announces(
                    deliveries@,
                    self@.proxies[(service, instance)].proxies,
                    availability(avail, service, instance),
                )
            } else {
                deliveries@.len() == 0
            },
    {
        let key = make_pair_key(service, instance);
        let mut deliveries: Vec<Delivery<S>> = Vec::new();
        match self.req_services.get(&key) {
            Some(group) => {
                for id in iter: group.proxies.keys()
                    invariant
                        iter.seq() == spec_keys_iter(&group.proxies).remaining(),
                        deliveries@.len() == iter.index(),
                        forall|j: int|
                            0 <= j < deliveries@.len() ==> {
                                &&& cloned(
                                    group.proxies@[*iter.seq()[j]].sender,
                                    (#[trigger] deliveries@[j]).sender,
                                )
                                &&& deliveries@[j].command == availability(avail, service, instance)
                            },
                {
                    proof {
                        assert(iter.seq().unref().to_set().contains(*id));
                    }
                    let proxy = match group.proxies.get(id) {
                        Some(proxy) => proxy,
                        None => unreached(),
                    };
                    deliveries.push(
                        Delivery {
                            sender: proxy.sender.clone(),
                            command: bool_to_availability(avail, service, instance),
                        },
                    );
                }
                proof {
                    let all = spec_keys_iter(&group.proxies).remaining().unref();
                    assert(lists(all, group.proxies@.dom())) by {
                        let keys = spec_keys_iter(&group.proxies).remaining();
                        assert forall|a: int, b: int|
                            0 <= a < all.len() && 0 <= b < all.len() && a != b implies all[a]
                            != all[b] by {
                            assert(keys[a] != keys[b]);
                        }
                    }
                    assert(self@.proxies[(service, instance)].proxies == group.proxies@);
                }
            },
            None => {},
        }
        deliveries
    }
}

} // verus!
