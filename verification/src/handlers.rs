//! Reference counts of the engine's message handlers.
//!
//! The engine reports the messages for a service instance while a message
//! handler is installed for it. The service adapter and every proxy of the
//! instance hold one reference each; the first reference installs the
//! handler and the last one removes it.
use vstd::prelude::*;
use crate::connection::{make_pair_key, Connection};
use crate::types::{InstanceID, ServiceID};

verus! {

broadcast use vstd::std_specs::hash::group_hash_axioms;

impl<S> Connection<S> {
    /// How many registrants hold the message handler of a service instance:
    /// its provider, if it has one, and each of its proxies.
    pub fn handler_count(&self, service: ServiceID, instance: InstanceID) -> (count: u128)
        ensures
            count == self@.handler_count((service, instance)),
    {
        let k = make_pair_key(service, instance);
        match self.msg_handler_refs.get(&k) {
            Some(refs) => *refs,
            None => 0,
        }
    }

    /// Takes one more reference to the message handler of a service
    /// instance. The result says whether the handler has to be installed.
    pub(crate) fn add_msg_handler(
        &mut self,
        service: ServiceID,
        instance: InstanceID,
    ) -> (register_needed: bool)
        requires
            old(self)@.handler_count((service, instance)) < u128::MAX,
        ensures
            final(self)@ == old(self)@.acquire_handler((service, instance)),
            register_needed == (old(self)@.handler_count((service, instance)) == 0),
            final(self).session_map == old(self).session_map,
    {
        let k = make_pair_key(service, instance);
        let held: u128 = self.handler_count(service, instance);
        self.msg_handler_refs.insert(k, held + 1);
        proof {
            assert(final(self)@.handler_refs =~= old(self)@.acquire_handler(
                (service, instance),
            ).handler_refs);
        }
        held == 0
    }

    /// Gives back one reference to the message handler of a service
    /// instance. The result says whether the handler has to be removed.
    pub(crate) fn release_msg_handler(
        &mut self,
        service: ServiceID,
        instance: InstanceID,
    ) -> (unregister_needed: bool)
        ensures
            final(self)@ == old(self)@.release_handler((service, instance)),
            unregister_needed == (old(self)@.handler_count((service, instance)) == 1),
            final(self).session_map == old(self).session_map,
    {
        let k = make_pair_key(service, instance);
        let held: u128 = self.handler_count(service, instance);
        if held <= 1 {
            self.msg_handler_refs.remove(&k);
        } else {
            self.msg_handler_refs.insert(k, held - 1);
        }
        proof {
            assert(final(self)@.handler_refs =~= old(self)@.release_handler(
                (service, instance),
            ).handler_refs);
        }
        held == 1
    }
}

} // verus!
