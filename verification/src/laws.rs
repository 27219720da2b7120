//! Laws of the connection, proved about its model.
//!
//! Every operation of [`crate::connection::Connection`] is proved to act on
//! the view of the connection as the model says. What is proved here of the
//! model therefore holds of every connection.
use vstd::prelude::*;
use crate::connection::{pair_key, ServiceInstanceID};
use crate::gateway::GatewayCall;
use crate::model::{ConnectionView, EventKey, EventOffer, ProxyID, ProxyServiceKey, SessionKey};

verus! {

/// One thing that can be done to a connection.
pub enum Operation<S> {
    RegisterService(ServiceInstanceID, S),
    UnregisterService(ServiceInstanceID),
    RegisterEvent(EventOffer),
    UnregisterEvent(EventKey),
    RegisterProxy(ServiceInstanceID, S),
    UnregisterProxy(ProxyID, ProxyServiceKey),
    ReserveProxyIds(ProxyID),
    TrackSession(SessionKey, S),
    CloseSession(SessionKey),
    Tick,
    SetSessionTtl(u32),
    StateChanged(bool),
    Start,
    Stop,
    FinishStop,
}

/// How often `call` stands in `calls`.
pub open spec fn count_of(calls: Seq<GatewayCall>, call: GatewayCall) -> nat
    decreases calls.len(),
{
    if calls.len() == 0 {
        0
    } else {
        count_of(calls.drop_last(), call) + if calls.last() == call {
            1nat
        } else {
            0nat
        }
    }
}

impl<S> ConnectionView<S> {
    /// The connection after `op`. An operation that the connection turns
    /// down leaves it as it is.
    pub open spec fn step(self, op: Operation<S>) -> Self {
        match op {
            Operation::RegisterService(siid, sender) => if self.services.contains_key(siid.key()) {
                self
            } else {
                self.register_service(siid, sender)
            },
            Operation::UnregisterService(siid) => self.unregister_service(siid),
            Operation::RegisterEvent(offer) => if self.services.contains_key(
                (offer.service, offer.instance),
            ) && !self.events.contains_key(offer.key()) {
                self.register_event(offer)
            } else {
                self
            },
            Operation::UnregisterEvent(ek) => self.unregister_event(ek),
            Operation::RegisterProxy(siid, sender) => if self.can_register_proxy(siid) {
                self.register_proxy(siid, sender)
            } else {
                self
            },
            Operation::UnregisterProxy(proxy_id, key) => self.unregister_proxy(proxy_id, key),
            Operation::ReserveProxyIds(last) => self.reserve_proxy_ids(last),
            Operation::TrackSession(key, sender) => if self.sessions.contains_key(key) {
                self
            } else {
                self.track_session(key, sender)
            },
            Operation::CloseSession(key) => self.close_session(key),
            Operation::Tick => self.tick(),
            Operation::SetSessionTtl(ticks) => ConnectionView { session_ttl: ticks, ..self },
            Operation::StateChanged(is_connected) => self.state_changed(is_connected),
            Operation::Start => if self.lifecycle is Created {
                self.start()
            } else {
                self
            },
            Operation::Stop => self.stop(),
            Operation::FinishStop => self.finish_stop(),
        }
    }

    /// The proxy id that `op` issues: the next id where `op` registers a
    /// proxy and is not turned down, else none.
    pub open spec fn issued(self, op: Operation<S>) -> Option<ProxyID> {
        match op {
            Operation::RegisterProxy(siid, _) => if self.can_register_proxy(siid) {
                Some(self.next_proxy_id())
            } else {
                None
            },
            _ => None,
        }
    }

    /// The connection after the operations `ops`, one after the other.
    pub open spec fn run(self, ops: Seq<Operation<S>>) -> Self
        decreases ops.len(),
    {
        if ops.len() == 0 {
            self
        } else {
            self.run(ops.drop_last()).step(ops.last())
        }
    }

    /// The connection after one proxy was registered for `siid` on each of
    /// `senders`, in order.
    pub open spec fn register_proxies(self, siid: ServiceInstanceID, senders: Seq<S>) -> Self
        decreases senders.len(),
    {
        if senders.len() == 0 {
            self
        } else {
            self.register_proxies(siid, senders.drop_last()).register_proxy(siid, senders.last())
        }
    }

    /// All requests to the engine that these registrations make.
    pub open spec fn register_proxies_calls(
        self,
        siid: ServiceInstanceID,
        senders: Seq<S>,
    ) -> Seq<GatewayCall>
        decreases senders.len(),
    {
        if senders.len() == 0 {
            seq![]
        } else {
            self.register_proxies_calls(siid, senders.drop_last()) + self.register_proxies(
                siid,
                senders.drop_last(),
            ).register_proxy_calls(siid)
        }
    }
}

/// Two pairs that share a registry key are the same pair: a lookup by client
/// and session never finds the session of another pair.
pub proof fn lemma_pair_key_injective(a: u16, b: u16, c: u16, d: u16)
    ensures
        pair_key(a, b) == pair_key(c, d) <==> (a, b) == (c, d),
{
}

/// A connection that was just created meets the invariant.
pub proof fn lemma_initial_wf<S>(application_name: Seq<char>, session_ttl: u32)
    ensures
        ConnectionView::<S>::initial(application_name, session_ttl).wf(),
{
}

/// Every operation keeps the invariant of the connection.
pub proof fn lemma_step_wf<S>(before: ConnectionView<S>, op: Operation<S>)
    requires
        before.wf(),
    ensures
        before.step(op).wf(),
{
    match op {
        Operation::RegisterService(siid, sender) => {
            if !before.services.contains_key(siid.key()) {
                before.lemma_register_service_wf(siid, sender);
            }
        },
        Operation::UnregisterService(siid) => {
            before.lemma_unregister_service_wf(siid);
        },
        Operation::RegisterEvent(offer) => {
            if before.services.contains_key((offer.service, offer.instance)) {
                before.lemma_register_event_wf(offer);
            }
        },
        Operation::UnregisterEvent(ek) => {
            before.lemma_unregister_event_wf(ek);
        },
        Operation::RegisterProxy(siid, sender) => {
            if before.can_register_proxy(siid) {
                before.lemma_register_proxy_wf(siid, sender);
            }
        },
        Operation::UnregisterProxy(proxy_id, key) => {
            before.lemma_unregister_proxy_wf(proxy_id, key);
        },
        Operation::ReserveProxyIds(last) => {
            before.lemma_reserve_proxy_ids_wf(last);
        },
        _ => {
            before.lemma_wf_of_registries(before.step(op));
        },
    }
}

/// A connection keeps its invariant whatever is done to it: in every state
/// that it can reach, the handler count of each service instance is the
/// number of its registrants, and events are offered for registered services
/// only.
pub proof fn lemma_run_wf<S>(before: ConnectionView<S>, ops: Seq<Operation<S>>)
    requires
        before.wf(),
    ensures
        before.run(ops).wf(),
    decreases ops.len(),
{
    if ops.len() > 0 {
        lemma_run_wf(before, ops.drop_last());
        lemma_step_wf(before.run(ops.drop_last()), ops.last());
    }
}

/// Registering a service and unregistering it again leaves the whole
/// connection as it was: the service registry, the handler counts and
/// everything else.
pub proof fn lemma_register_then_unregister_service<S>(
    before: ConnectionView<S>,
    siid: ServiceInstanceID,
    sender: S,
)
    requires
        before.wf(),
        !before.services.contains_key(siid.key()),
    ensures
        before.register_service(siid, sender).unregister_service(siid) == before,
        before.register_service(siid, sender).services.contains_key(siid.key()),
        before.register_service(siid, sender).handler_count(siid.key()) == before.handler_count(
            siid.key(),
        ) + 1,
{
    let key = siid.key();
    let between = before.register_service(siid, sender);
    let after = between.unregister_service(siid);
    assert(between.events_of(key) =~= Set::<EventKey>::empty());
    assert(after.events =~= before.events);
    assert(after.services =~= before.services);
    assert(after.handler_refs =~= before.handler_refs);
}

/// No proxy id is issued twice: of two registrations in the life of a
/// connection the later one gets the greater id, whatever was registered,
/// unregistered, sent or received in between.
pub proof fn lemma_proxy_ids_never_repeat<S>(
    start: ConnectionView<S>,
    ops: Seq<Operation<S>>,
    i: int,
    j: int,
)
    requires
        0 <= i < j < ops.len(),
        start.run(ops.subrange(0, i)).issued(ops[i]) is Some,
        start.run(ops.subrange(0, j)).issued(ops[j]) is Some,
    ensures
        start.run(ops.subrange(0, i)).issued(ops[i])->0 < start.run(ops.subrange(0, j)).issued(
            ops[j],
        )->0,
{
    let first = start.run(ops.subrange(0, i));
    assert(ops.subrange(0, i + 1).drop_last() =~= ops.subrange(0, i));
    assert(ops.subrange(0, i + 1).last() == ops[i]);
    assert(start.run(ops.subrange(0, i + 1)) == first.step(ops[i]));
    lemma_counter_never_falls(start, ops, i + 1, j);
}

/// The proxy id counter never falls.
pub proof fn lemma_counter_never_falls<S>(
    start: ConnectionView<S>,
    ops: Seq<Operation<S>>,
    i: int,
    j: int,
)
    requires
        0 <= i <= j <= ops.len(),
    ensures
        start.run(ops.subrange(0, i)).proxy_id_counter <= start.run(
            ops.subrange(0, j),
        ).proxy_id_counter,
    decreases j - i,
{
    if i < j {
        lemma_counter_never_falls(start, ops, i, j - 1);
        assert(ops.subrange(0, j).drop_last() =~= ops.subrange(0, j - 1));
        assert(ops.subrange(0, j).last() == ops[j - 1]);
    }
}

/// However many proxies are registered for a service instance that had
/// none, the service is requested once and its availability callback is
/// registered once; and every one of the registrations is accepted.
pub proof fn lemma_service_requested_once<S>(
    before: ConnectionView<S>,
    siid: ServiceInstanceID,
    senders: Seq<S>,
)
    requires
        before.wf(),
        !before.proxies.contains_key(siid.key()),
        senders.len() >= 1,
        before.proxy_id_counter + senders.len() <= u64::MAX,
    ensures
        count_of(
            before.register_proxies_calls(siid, senders),
            GatewayCall::RequestService {
                service: siid.service,
                instance: siid.instance,
                major_version: siid.major_version,
                minor_version: siid.minor_version,
            },
        ) == 1,
        count_of(
            before.register_proxies_calls(siid, senders),
            GatewayCall::RegisterAvailabilityCallback {
                service: siid.service,
                instance: siid.instance,
            },
        ) == 1,
        before.register_proxies(siid, senders).proxy_count(siid.key()) == senders.len(),
        forall|n: int|
            0 <= n < senders.len() ==> #[trigger] before.register_proxies(
                siid,
                senders.subrange(0, n),
            ).can_register_proxy(siid),
{
    lemma_register_proxies(before, siid, senders);
    assert(senders.subrange(0, senders.len() as int) =~= senders);
}

/// What holds after each prefix of a run of registrations for one service
/// instance.
proof fn lemma_register_proxies<S>(
    before: ConnectionView<S>,
    siid: ServiceInstanceID,
    senders: Seq<S>,
)
    requires
        before.wf(),
        !before.proxies.contains_key(siid.key()),
        before.proxy_id_counter + senders.len() <= u64::MAX,
    ensures
        before.register_proxies(siid, senders).wf(),
        before.register_proxies(siid, senders).proxy_id_counter == before.proxy_id_counter
            + senders.len(),
        before.register_proxies(siid, senders).proxy_count(siid.key()) == senders.len(),
        senders.len() >= 1 ==> {
            &&& before.register_proxies(siid, senders).proxies.contains_key(siid.key())
            &&& before.register_proxies(siid, senders).proxies[siid.key()].major_version
                == siid.major_version
        },
        senders.len() == 0 ==> before.register_proxies(siid, senders) == before,
        count_of(
            before.register_proxies_calls(siid, senders),
            GatewayCall::RequestService {
                service: siid.service,
                instance: siid.instance,
                major_version: siid.major_version,
                minor_version: siid.minor_version,
            },
        ) == if senders.len() >= 1 { 1nat } else { 0nat },
        count_of(
            before.register_proxies_calls(siid, senders),
            GatewayCall::RegisterAvailabilityCallback {
                service: siid.service,
                instance: siid.instance,
            },
        ) == if senders.len() >= 1 { 1nat } else { 0nat },
        forall|n: int|
            0 <= n < senders.len() ==> #[trigger] before.register_proxies(
                siid,
                senders.subrange(0, n),
            ).can_register_proxy(siid),
    decreases senders.len(),
{
    let request = GatewayCall::RequestService {
        service: siid.service,
        instance: siid.instance,
        major_version: siid.major_version,
        minor_version: siid.minor_version,
    };
    let callback = GatewayCall::RegisterAvailabilityCallback {
        service: siid.service,
        instance: siid.instance,
    };
    if senders.len() > 0 {
        let earlier = senders.drop_last();
        lemma_register_proxies(before, siid, earlier);
        let middle = before.register_proxies(siid, earlier);
        assert(middle.can_register_proxy(siid));
        middle.lemma_register_proxy_wf(siid, senders.last());
        let step_calls = middle.register_proxy_calls(siid);
        let earlier_calls = before.register_proxies_calls(siid, earlier);
        lemma_count_of_concat(earlier_calls, step_calls, request);
        lemma_count_of_concat(earlier_calls, step_calls, callback);
        lemma_count_of_registration(middle, siid, request);
        lemma_count_of_registration(middle, siid, callback);
        assert forall|n: int| 0 <= n < senders.len() implies #[trigger] before.register_proxies(
            siid,
            senders.subrange(0, n),
        ).can_register_proxy(siid) by {
            if n < earlier.len() {
                assert(senders.subrange(0, n) =~= earlier.subrange(0, n));
            } else {
                assert(senders.subrange(0, n) =~= earlier);
            }
        }
    }
}

/// How often the request for a service, or for its availability callback,
/// stands among the requests of one proxy registration: once for the first
/// proxy of the service instance, never for a later one.
proof fn lemma_count_of_registration<S>(
    before: ConnectionView<S>,
    siid: ServiceInstanceID,
    call: GatewayCall,
)
    requires
        call == (GatewayCall::RequestService {
            service: siid.service,
            instance: siid.instance,
            major_version: siid.major_version,
            minor_version: siid.minor_version,
        }) || call == (GatewayCall::RegisterAvailabilityCallback {
            service: siid.service,
            instance: siid.instance,
        }),
    ensures
        count_of(before.register_proxy_calls(siid), call) == if before.proxies.contains_key(
            siid.key(),
        ) {
            0nat
        } else {
            1nat
        },
{
    let calls = before.register_proxy_calls(siid);
    let handler = before.acquire_handler_calls(siid.key());
    let head: Seq<GatewayCall> = if before.proxies.contains_key(siid.key()) {
        seq![]
    } else {
        seq![
            GatewayCall::RequestService {
                service: siid.service,
                instance: siid.instance,
                major_version: siid.major_version,
                minor_version: siid.minor_version,
            },
            GatewayCall::RegisterAvailabilityCallback {
                service: siid.service,
                instance: siid.instance,
            },
        ]
    };
    assert(calls == head + handler);
    lemma_count_of_concat(head, handler, call);
    reveal_with_fuel(count_of, 3);
    if handler.len() > 0 {
        assert(handler.drop_last().len() == 0);
    }
    if head.len() > 0 {
        assert(head.drop_last().len() == 1);
        assert(head.drop_last().drop_last().len() == 0);
    }
}

/// Counting in a sequence of requests that was put together from two.
pub proof fn lemma_count_of_concat(a: Seq<GatewayCall>, b: Seq<GatewayCall>, call: GatewayCall)
    ensures
        count_of(a + b, call) == count_of(a, call) + count_of(b, call),
    decreases b.len(),
{
    if b.len() == 0 {
        assert(a + b =~= a);
    } else {
        lemma_count_of_concat(a, b.drop_last(), call);
        assert((a + b).drop_last() =~= a + b.drop_last());
        assert((a + b).last() == b.last());
    }
}

/// Tracking a request adds exactly its own session, with the channel that
/// waits for the answer and the connection's time-to-live.
pub proof fn lemma_request_adds_one_session<S>(
    before: ConnectionView<S>,
    key: SessionKey,
    sender: S,
)
    ensures
        before.track_session(key, sender).sessions.dom() =~= before.sessions.dom().insert(key),
        before.track_session(key, sender).sessions[key].sender == sender,
        before.track_session(key, sender).sessions[key].ttl == before.session_ttl,
        forall|other: SessionKey|
            other != key && before.sessions.contains_key(other) ==> before.track_session(
                key,
                sender,
            ).sessions[other] == before.sessions[other],
{
}

/// An answer finds the session of its own request and ends it, and leaves
/// every other session alone: the answer to another request neither finds
/// nor ends this one.
pub proof fn lemma_answer_ends_its_session<S>(
    before: ConnectionView<S>,
    key: SessionKey,
    sender: S,
    other: SessionKey,
)
    requires
        !before.sessions.contains_key(key),
        other != key,
    ensures
        before.track_session(key, sender).close_session(key) == before,
        before.track_session(key, sender).close_session(other).sessions.contains_key(key),
        before.track_session(key, sender).close_session(other).sessions[key].sender == sender,
        before.track_session(key, sender).sessions.contains_key(other)
            == before.sessions.contains_key(other),
{
    let after = before.track_session(key, sender).close_session(key);
    assert(after.sessions =~= before.sessions);
}

/// A session that is gone stays gone: the sweeper never lets a request time
/// out that was answered, or never tracked.
pub proof fn lemma_answered_never_times_out<S>(before: ConnectionView<S>, key: SessionKey, n: nat)
    requires
        !before.sessions.contains_key(key),
    ensures
        !before.ticks(n).sessions.contains_key(key),
        !before.ticks(n).expiring().contains(key),
    decreases n,
{
    if n > 0 {
        lemma_answered_never_times_out(before.tick(), key, (n - 1) as nat);
    }
}

/// The number of ticks after which a session with the time-to-live `ttl`
/// runs out of time: a session always lives to see the next tick.
pub open spec fn ticks_to_live(ttl: u32) -> nat {
    if ttl == 0 {
        1
    } else {
        ttl as nat
    }
}

/// A tracked request that gets no answer times out exactly once: the
/// sweeper leaves it alone for as many ticks as it has to live but one, lets
/// it time out at the next tick, and never sees it again.
pub proof fn lemma_unanswered_times_out_once<S>(before: ConnectionView<S>, key: SessionKey, n: nat)
    requires
        before.sessions.contains_key(key),
    ensures
        n + 1 < ticks_to_live(before.sessions[key].ttl) ==> {
            &&& before.ticks(n).sessions.contains_key(key)
            &&& !before.ticks(n).expiring().contains(key)
            &&& before.ticks(n).sessions[key].sender == before.sessions[key].sender
        },
        n + 1 == ticks_to_live(before.sessions[key].ttl) ==> {
            &&& before.ticks(n).expiring().contains(key)
            &&& before.ticks(n).sessions[key].sender == before.sessions[key].sender
        },
        n + 1 > ticks_to_live(before.sessions[key].ttl) ==> {
            &&& !before.ticks(n).sessions.contains_key(key)
            &&& !before.ticks(n).expiring().contains(key)
        },
    decreases n,
{
    if n > 0 {
        if before.sessions[key].ttl > 1 {
            lemma_unanswered_times_out_once(before.tick(), key, (n - 1) as nat);
        } else {
            lemma_answered_never_times_out(before.tick(), key, (n - 1) as nat);
        }
    }
}

/// An event is offered once: after it was registered, the event is among
/// the offered events, where a second registration finds it.
pub proof fn lemma_event_offered_once<S>(before: ConnectionView<S>, offer: EventOffer)
    ensures
        before.register_event(offer).events.contains_key(offer.key()),
        before.register_event(offer).step(Operation::RegisterEvent(offer)) == before.register_event(
            offer,
        ),
{
}

/// Unregistering a service leaves none of its events behind.
pub proof fn lemma_unregister_service_clears_events<S>(
    before: ConnectionView<S>,
    siid: ServiceInstanceID,
    ek: EventKey,
)
    requires
        before.wf(),
        (ek.0, ek.1) == siid.key(),
    ensures
        !before.unregister_service(siid).events.contains_key(ek),
        before.unregister_service(siid).events_of(siid.key()) =~= Set::<EventKey>::empty(),
{
}

/// A proxy that asks for another major version than the proxies of its
/// service instance agreed on is turned down, and nothing changes.
pub proof fn lemma_major_version_conflict<S>(
    before: ConnectionView<S>,
    siid: ServiceInstanceID,
    sender: S,
)
    requires
        before.major_version_conflict(siid),
    ensures
        before.step(Operation::RegisterProxy(siid, sender)) == before,
        before.issued(Operation::RegisterProxy(siid, sender)) is None,
{
}

} // verus!
