//! Outstanding requests: sessions, their answers and their timeouts.
//!
//! A request that expects an answer is tracked under the client and session
//! that the engine gave to its message. The entry leaves the registry with
//! the first of three events: the response, the error, or the tick of the
//! sweeper at which its time runs out. Whichever comes first takes the
//! channel of the entry with it, so no session is ever answered twice.
use vstd::prelude::*;
use vstd::std_specs::hash::spec_keys_iter;
use vstd::std_specs::iter::IteratorSpec;
use crate::connection::{
    make_pair_key, pair_key, CapiError, Command, Connection, Delivery, Session,
};
use crate::gateway::Outbound;
use crate::model::{lists, ProxyID, SessionKey, SessionView};
use crate::types::{ClientID, InstanceID, Message, MethodID, ServiceID, SessionID};

verus! {

broadcast use vstd::std_specs::hash::group_hash_axioms;

/// A request that was accepted and waits to be sent.
#[derive(Debug)]
pub struct PendingRequest<S> {
    /// The request for the engine to build and send.
    pub message: Outbound,
    /// The channel that waits for the answer; none for a request that
    /// expects no answer.
    pub reply_to: Option<S>,
}

/// A session with one tick less to live.
pub(crate) open spec fn aged<S>(session: Session<S>) -> Session<S> {
    Session { ttl: (session.ttl - 1) as u32, ..session }
}

/// The session that a timeout command speaks of.
pub open spec fn timeout_key(command: Command) -> SessionKey {
    match command {
        Command::Timeout(client, session) => (client, session),
        _ => (0, 0),
    }
}

/// True if `timeouts` tells each session of `expired` once that its time
/// ran out, on the channel that `sessions` holds for it, and tells nothing
/// else.
pub open spec fn times_out<S>(
    timeouts: Seq<Delivery<S>>,
    sessions: Map<SessionKey, SessionView<S>>,
    expired: Set<SessionKey>,
) -> bool {
    &&& lists(timeouts.map_values(|d: Delivery<S>| timeout_key(d.command)), expired)
    &&& forall|j: int|
        0 <= j < timeouts.len() ==> {
            &&& (#[trigger] timeouts[j]).command is Timeout
            &&& timeouts[j].sender == sessions[timeout_key(timeouts[j].command)].sender
        }
}

impl<S> Connection<S> {
    /// Sets the number of sweeper ticks that a request tracked from now on
    /// waits for its answer.
    pub fn set_session_ttl(&mut self, ticks: u32)
        requires
            old(self).wf(),
        ensures
            final(self).wf(),
            final(self)@ == (crate::model::ConnectionView { session_ttl: ticks, ..old(self)@ }),
    {
        self.session_ttl = ticks;
        proof {
            old(self)@.lemma_wf_of_registries(final(self)@);
        }
    }

    /// True if a request waits for its answer under this client and session.
    pub fn has_session(&self, client: ClientID, session: SessionID) -> (found: bool)
        ensures
            found == self@.sessions.contains_key((client, session)),
    {
        let key = make_pair_key(client, session);
        self.session_map.contains_key(&key)
    }

    /// Tracks a request that was sent: `client` and `session` are what the
    /// engine gave to the request message.
    ///
    /// A request that expects an answer (`reply_to` holds its channel) is
    /// tracked from now on, with the connection's time-to-live, and its key
    /// is returned. A request that expects none leaves no trace. The engine
    /// never gives out a key that is in use, so a key that is tracked
    /// already must not be passed: that would be a defect of the caller.
    pub fn complete_request(
        &mut self,
        reply_to: Option<S>,
        client: ClientID,
        session: SessionID,
    ) -> (key: Option<SessionKey>)
        requires
            old(self).wf(),
            reply_to is Some ==> !old(self)@.sessions.contains_key((client, session)),
        ensures
            final(self).wf(),
            match reply_to {
                Some(sender) => {
                    &&& key == Some((client, session))
                    &&& final(self)@ == old(self)@.track_session((client, session), sender)
                },
                None => key is None && final(self)@ == old(self)@,
            },
    {
        match reply_to {
            Some(sender) => {
                let slot = make_pair_key(client, session);
                self.session_map.insert(
                    slot,
                    Session { client, session, sender, ttl: self.session_ttl },
                );
                proof {
                    assert(final(self)@.sessions =~= old(self)@.track_session(
                        (client, session),
                        sender,
                    ).sessions);
                    old(self)@.lemma_wf_of_registries(final(self)@);
                }
                Some((client, session))
            },
            None => None,
        }
    }

    /// The keys of the session registry, each once.
    fn session_slots(&self) -> (slots: Vec<u32>)
        ensures
            lists(slots@, self.session_map@.dom()),
    {
        let mut slots: Vec<u32> = Vec::new();
        for slot in iter: self.session_map.keys()
            invariant
                iter.seq() == spec_keys_iter(&self.session_map).remaining(),
                slots@.len() == iter.index(),
                forall|j: int| 0 <= j < slots@.len() ==> slots@[j] == *iter.seq()[j],
        {
            slots.push(*slot);
        }
        proof {
            let all = spec_keys_iter(&self.session_map).remaining();
            assert(slots@ =~= all.unref());
            assert forall|a: int, b: int|
                0 <= a < slots@.len() && 0 <= b < slots@.len() && a != b implies slots@[a]
                != slots@[b] by {
                assert(all[a] != all[b]);
            }
        }
        slots
    }

    /// One tick of the sweeper.
    ///
    /// Every tracked request has one tick less to wait. A request whose time
    /// runs out with this tick leaves the registry, and the result holds a
    /// timeout command for the channel that waited for its answer. The
    /// result lists the expired requests in no particular order. Requests
    /// that have time left are not touched otherwise.
    pub fn expire_sessions(&mut self) -> (timeouts: Vec<Delivery<S>>)
        requires
            old(self).wf(),
        ensures
            final(self).wf(),
            final(self)@ == old(self)@.tick(),
            times_out(timeouts@, old(self)@.sessions, old(self)@.expiring()),
    {
        let slots = self.session_slots();
        let ghost before = self.session_map@;
        let ghost mut gone: Seq<int> = Seq::empty();
        let mut timeouts: Vec<Delivery<S>> = Vec::new();
        let mut i: usize = 0;
        while i < slots.len()
            invariant
                i <= slots.len(),
                lists(slots@, before.dom()),
                before == old(self).session_map@,
                old(self).keyed(),
                self.application_name == old(self).application_name,
                self.lifecycle == old(self).lifecycle,
                self.connected == old(self).connected,
                self.services == old(self).services,
                self.msg_handler_refs == old(self).msg_handler_refs,
                self.req_services == old(self).req_services,
                self.proxy_id_counter == old(self).proxy_id_counter,
                self.offered_events == old(self).offered_events,
                self.session_ttl == old(self).session_ttl,
                forall|k: u32| #[trigger]
                    self.session_map@.contains_key(k) ==> before.contains_key(k),
                forall|j: int|
                    0 <= j < i ==> (self.session_map@.contains_key(#[trigger] slots@[j])
                        <==> before[slots@[j]].ttl > 1),
                forall|j: int|
                    0 <= j < i && before[#[trigger] slots@[j]].ttl > 1
                        ==> self.session_map@[slots@[j]] == aged(before[slots@[j]]),
                forall|j: int|
                    i <= j < slots.len() ==> self.session_map@.contains_key(#[trigger] slots@[j])
                        && self.session_map@[slots@[j]] == before[slots@[j]],
                timeouts@.len() == gone.len(),
                forall|j: int|
                    0 <= j < gone.len() ==> {
                        &&& 0 <= #[trigger] gone[j] < i
                        &&& before[slots@[gone[j]]].ttl <= 1
                        &&& timeouts@[j] == (Delivery {
                            sender: before[slots@[gone[j]]].sender,
                            command: Command::Timeout(
                                before[slots@[gone[j]]].client,
                                before[slots@[gone[j]]].session,
                            ),
                        })
                    },
                forall|a: int, b: int| 0 <= a < b < gone.len() ==> gone[a] < gone[b],
                forall|p: int|
                    0 <= p < i && before[#[trigger] slots@[p]].ttl <= 1 ==> exists|j: int|
                        0 <= j < gone.len() && gone[j] == p,
            decreases slots.len() - i,
        {
            let slot = slots[i];
            proof {
                assert(slots@.to_set().contains(slots@[i as int]));
                assert(before.contains_key(slot));
            }
            let entry = match self.session_map.remove(&slot) {
                Some(entry) => entry,
                None => unreached(),
            };
            if entry.ttl <= 1 {
                timeouts.push(
                    Delivery {
                        sender: entry.sender,
                        command: Command::Timeout(entry.client, entry.session),
                    },
                );
                proof {
                    let ghost earlier = gone;
                    gone = gone.push(i as int);
                    assert forall|p: int|
                        0 <= p < i + 1 && before[#[trigger] slots@[p]].ttl <= 1 implies exists|
                        j: int,
                    |
                        0 <= j < gone.len() && gone[j] == p by {
                        if p < i {
                            let j = choose|j: int| 0 <= j < earlier.len() && earlier[j] == p;
                            assert(gone[j] == p);
                        } else {
                            assert(gone[earlier.len() as int] == p);
                        }
                    }
                }
            } else {
                self.session_map.insert(
                    slot,
                    Session {
                        client: entry.client,
                        session: entry.session,
                        sender: entry.sender,
                        ttl: entry.ttl - 1,
                    },
                );
            }
            proof {
                assert forall|j: int| i + 1 <= j < slots.len()
                    implies self.session_map@.contains_key(#[trigger] slots@[j])
                    && self.session_map@[slots@[j]] == before[slots@[j]] by {
                    assert(slots@[j] != slots@[i as int]);
                }
                assert forall|j: int| 0 <= j < i + 1
                    implies (self.session_map@.contains_key(#[trigger] slots@[j])
                    <==> before[slots@[j]].ttl > 1) by {
                    if j < i {
                        assert(slots@[j] != slots@[i as int]);
                    }
                }
                assert forall|j: int|
                    0 <= j < i + 1 && before[#[trigger] slots@[j]].ttl > 1
                    implies self.session_map@[slots@[j]] == aged(before[slots@[j]]) by {
                    if j < i {
                        assert(slots@[j] != slots@[i as int]);
                    }
                }
            }
            i += 1;
        }
        proof {
            let start = old(self)@;
            let end = final(self)@;
            assert(end.sessions =~= start.tick().sessions) by {
                assert forall|key: SessionKey| #[trigger]
                    end.sessions.contains_key(key) <==> start.tick().sessions.contains_key(
                        key,
                    ) by {
                    let k = pair_key(key.0, key.1);
                    if before.contains_key(k) {
                        assert(slots@.to_set().contains(k));
                        let j = choose|j: int| 0 <= j < slots@.len() && slots@[j] == k;
                        assert(slots@[j] == k);
                    }
                }
                assert forall|key: SessionKey| #[trigger]
                    end.sessions.contains_key(key) implies end.sessions[key]
                    == start.tick().sessions[key] by {
                    let k = pair_key(key.0, key.1);
                    assert(slots@.to_set().contains(k));
                    let j = choose|j: int| 0 <= j < slots@.len() && slots@[j] == k;
                    assert(slots@[j] == k);
                }
            }
            assert(end == start.tick());
            start.lemma_wf_of_registries(end);
            let named = timeouts@.map_values(|d: Delivery<S>| timeout_key(d.command));
            assert forall|j: int| 0 <= j < named.len() implies {
                &&& before.contains_key(slots@[gone[j]])
                &&& pair_key((#[trigger] named[j]).0, named[j].1) == slots@[gone[j]]
            } by {
                assert(slots@.to_set().contains(slots@[gone[j]]));
            }
            assert(named.no_duplicates()) by {
                assert forall|a: int, b: int|
                    0 <= a < named.len() && 0 <= b < named.len() && a != b implies named[a]
                    != named[b] by {
                    if a < b {
                        assert(gone[a] < gone[b]);
                    } else {
                        assert(gone[b] < gone[a]);
                    }
                    assert(slots@[gone[a]] != slots@[gone[b]]);
                }
            }
            assert(named.to_set() =~= start.expiring()) by {
                assert forall|key: SessionKey| start.expiring().contains(key)
                    implies named.to_set().contains(key) by {
                    let k = pair_key(key.0, key.1);
                    assert(slots@.to_set().contains(k));
                    let p = choose|p: int| 0 <= p < slots@.len() && slots@[p] == k;
                    assert(before[slots@[p]].ttl <= 1);
                    let j = choose|j: int| 0 <= j < gone.len() && gone[j] == p;
                    assert(named[j] == key);
                }
                assert forall|key: SessionKey| named.to_set().contains(key)
                    implies start.expiring().contains(key) by {
                    let j = choose|j: int| 0 <= j < named.len() && named[j] == key;
                    assert(pair_key(named[j].0, named[j].1) == slots@[gone[j]]);
                }
            }
            assert forall|j: int| 0 <= j < timeouts@.len() implies {
                &&& (#[trigger] timeouts@[j]).command is Timeout
                &&& timeouts@[j].sender == start.sessions[timeout_key(timeouts@[j].command)].sender
            } by {
                assert(pair_key(named[j].0, named[j].1) == slots@[gone[j]]);
            }
        }
        timeouts
    }

    /// Takes the session of an answer out of the registry, if it is tracked.
    fn take_session(&mut self, client: ClientID, session: SessionID) -> (taken: Option<S>)
        requires
            old(self).wf(),
        ensures
            final(self).wf(),
            final(self)@ == old(self)@.close_session((client, session)),
            match taken {
                Some(sender) => {
                    &&& old(self)@.sessions.contains_key((client, session))
                    &&& sender == old(self)@.sessions[(client, session)].sender
                },
                None => !old(self)@.sessions.contains_key((client, session)),
            },
    {
        let key = make_pair_key(client, session);
        let taken = self.session_map.remove(&key);
        proof {
            assert(final(self)@.sessions =~= old(self)@.sessions.remove((client, session)));
            old(self)@.lemma_wf_of_registries(final(self)@);
        }
        match taken {
            Some(entry) => Some(entry.sender),
            None => None,
        }
    }

    /// Routes a response from the engine: if the request that it answers is
    /// still tracked, the session ends and the response goes to the channel
    /// that waited for it. A late or unknown response is dropped.
    pub fn process_response_message(
        &mut self,
        msg: Message,
        payload: Option<bytes::Bytes>,
    ) -> (delivery: Option<Delivery<S>>)
        requires
            old(self).wf(),
        ensures
            final(self).wf(),
            final(self)@ == old(self)@.close_session((msg.client, msg.session)),
            match delivery {
                Some(d) => {
                    &&& old(self)@.sessions.contains_key((msg.client, msg.session))
                    &&& d.sender == old(self)@.sessions[(msg.client, msg.session)].sender
                    &&& d.command == Command::Response(msg, payload)
                },
                None => !old(self)@.sessions.contains_key((msg.client, msg.session)),
            },
    {
        match self.take_session(msg.client, msg.session) {
            Some(sender) => Some(Delivery { sender, command: Command::Response(msg, payload) }),
            None => None,
        }
    }

    /// Routes an error message from the engine: if the request that it
    /// answers is still tracked, the session ends and the error goes to the
    /// channel that waited for the answer. A late or unknown error is
    /// dropped.
    pub fn process_error_message(
        &mut self,
        msg: Message,
        payload: Option<bytes::Bytes>,
    ) -> (delivery: Option<Delivery<S>>)
        requires
            old(self).wf(),
        ensures
            final(self).wf(),
            final(self)@ == old(self)@.close_session((msg.client, msg.session)),
            match delivery {
                Some(d) => {
                    &&& old(self)@.sessions.contains_key((msg.client, msg.session))
                    &&& d.sender == old(self)@.sessions[(msg.client, msg.session)].sender
                    &&& d.command == Command::Error(msg, payload)
                },
                None => !old(self)@.sessions.contains_key((msg.client, msg.session)),
            },
    {
        match self.take_session(msg.client, msg.session) {
            Some(sender) => Some(Delivery { sender, command: Command::Error(msg, payload) }),
            None => None,
        }
    }
}

impl<S: Clone> Connection<S> {
    /// Accepts a request of a proxy to a remote service instance.
    ///
    /// Fails with `ServiceInstanceUnknown` if the instance has no proxies,
    /// and with `ProxyIdUnknown` if it has, but `proxy_id` is none of them.
    /// Else the result holds the request for the engine, at the major
    /// version that the proxies of the instance agreed on, and, unless the
    /// request is fire-and-forget, a clone of the proxy's channel for
    /// [`Connection::complete_request`].
    pub fn send_request(
        &self,
        proxy_id: ProxyID,
        service: ServiceID,
        instance: InstanceID,
        method: MethodID,
        fire_and_forget: bool,
        reliable: bool,
        data: Option<bytes::Bytes>,
    ) -> (result: Result<PendingRequest<S>, CapiError>)
        ensures
            result is Ok <==> self@.has_proxy(proxy_id, (service, instance)),
            match result {
                Ok(pending) => {
                    &&& self@.has_proxy(proxy_id, (service, instance))
                    &&& pending.message == (Outbound::Request {
                        service,
                        instance,
                        method,
                        major_version: self@.proxies[(service, instance)].major_version,
                        fire_and_forget,
                        reliable,
                        payload: data,
                    })
                    &&& match pending.reply_to {
                        Some(sender) => !fire_and_forget && cloned(
                            self@.proxies[(service, instance)].proxies[proxy_id].sender,
                            sender,
                        ),
                        None => fire_and_forget,
                    }
                },
                Err(error) => if !self@.proxies.contains_key((service, instance)) {
                    error == CapiError::ServiceInstanceUnknown
                } else {
                    &&& error == CapiError::ProxyIdUnknown
                    &&& !self@.has_proxy(proxy_id, (service, instance))
                },
            },
    {
        let key = make_pair_key(service, instance);
        match self.req_services.get(&key) {
            Some(group) => {
                match group.proxies.get(&proxy_id) {
                    Some(proxy_adapter) => {
                        let reply_to = if fire_and_forget {
                            None
                        } else {
                            Some(proxy_adapter.sender.clone())
                        };
                        Ok(
                            PendingRequest {
                                message: Outbound::Request {
                                    service,
                                    instance,
                                    method,
                                    major_version: group.major_version,
                                    fire_and_forget,
                                    reliable,
                                    payload: data,
                                },
                                reply_to,
                            },
                        )
                    },
                    None => Err(CapiError::ProxyIdUnknown),
                }
            },
            None => Err(CapiError::ServiceInstanceUnknown),
        }
    }
}

} // verus!
