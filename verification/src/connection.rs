//! The connection: registries of services, events, proxies and sessions, the
//! routing of inbound messages, and the lifecycle.
//!
//! A [`Connection`] is a state machine. An operation takes what happened (a
//! registration, a message from the engine, a tick of the sweeper), changes
//! the registries and returns what has to be done about it: requests for the
//! engine as [`GatewayCall`]s and [`Outbound`] messages, commands for
//! consumers as [`Delivery`] values. The caller owns the engine and the
//! channels, performs what is returned, and serialises the operations.
//!
//! The type parameter `S` is the sending end of a consumer's channel. The
//! connection stores, clones and hands out such values and does nothing else
//! with them.
use vstd::prelude::*;
use std::collections::HashMap;
use crate::types::{
    ClientID, EventGroupID, EventID, EventReliability, EventType, InstanceID, MajorVersion,
    Message, MinorVersion, ServiceID, SessionID,
};
use crate::gateway::GatewayCall;
use crate::model::{
    ConnectionView, EventKey, EventOffer, Lifecycle, ProxyGroupView, ProxyID, ProxyServiceKey,
    ServiceKey, SessionKey, SessionView,
};

verus! {

broadcast use vstd::std_specs::hash::group_hash_axioms;

/// Number of sweeper ticks that a request waits for its answer, unless the
/// connection is told otherwise.
pub const DEFAULT_SESSION_TTL: u32 = 5;

/// Identifies one addressable service instance with its interface version.
#[derive(Clone, Copy, Hash, PartialEq, Eq, Debug, Structural)]
pub struct ServiceInstanceID {
    pub service: ServiceID,
    pub instance: InstanceID,
    pub major_version: MajorVersion,
    pub minor_version: MinorVersion,
}

impl ServiceInstanceID {
    /// The service and instance, by which registries find the instance.
    pub open spec fn key(self) -> ServiceKey {
        (self.service, self.instance)
    }
}

/// A locally offered service instance and the channel of its provider.
#[derive(Clone, Debug)]
pub struct ServiceAdapter<S> {
    pub siid: ServiceInstanceID,
    pub sender: S,
}

impl<S> ServiceAdapter<S> {
    /// The adapter of the service instance `siid` whose provider listens on
    /// `sender`.
    pub fn setup(siid: ServiceInstanceID, sender: S) -> (adapter: ServiceAdapter<S>)
        ensures
            adapter == (ServiceAdapter { siid, sender }),
    {
        ServiceAdapter { siid, sender }
    }
}

/// One consumer of a remote service instance and its channel.
#[derive(Clone, Debug)]
pub struct ProxyAdapter<S> {
    pub siid: ServiceInstanceID,
    pub sender: S,
    pub proxy_id: ProxyID,
}

/// What a consumer finds in its channel.
#[derive(Clone, Debug, PartialEq)]
pub enum Command {
    /// A method call for a provider, with the decoded header and the payload.
    Request(Message, Option<bytes::Bytes>),
    /// The answer to an outstanding request.
    Response(Message, Option<bytes::Bytes>),
    /// The failure of an outstanding request.
    Error(Message, Option<bytes::Bytes>),
    /// The remote service instance can be reached.
    ServiceAvailable(ServiceID, InstanceID),
    /// The remote service instance cannot be reached.
    ServiceUnavailable(ServiceID, InstanceID),
    /// No answer came in time for the request with this client and session.
    Timeout(ClientID, SessionID),
}

/// Why an operation of the connection was turned down.
#[derive(Copy, Clone, PartialEq, Eq, Debug, Structural)]
pub enum CapiError {
    /// Every proxy id has been issued.
    OutOfProxyIds,
    /// The proxies of the service instance agreed on another major version.
    MajorVersionConflict,
    /// The operation is not defined for this kind of message.
    InvalidMessageType,
    /// The operation is not available.
    NotImplemented,
    /// No such service instance is registered.
    ServiceInstanceUnknown,
    /// No such proxy is registered for the service instance.
    ProxyIdUnknown,
    /// The event is offered already.
    EventAlreadyRegistered,
}

/// A command and the channel that it has to be put into.
#[derive(Debug)]
pub struct Delivery<S> {
    pub sender: S,
    pub command: Command,
}

/// The consumers of one remote service instance.
pub(crate) struct ProxyGroup<S> {
    pub(crate) major_version: MajorVersion,
    pub(crate) proxies: HashMap<ProxyID, ProxyAdapter<S>>,
}

/// What is kept of an offered event beside its key.
#[derive(Clone, Copy)]
pub(crate) struct EventDetails {
    pub(crate) group: EventGroupID,
    pub(crate) typ: EventType,
    pub(crate) reliability: EventReliability,
}

/// An outstanding request.
pub(crate) struct Session<S> {
    pub(crate) client: ClientID,
    pub(crate) session: SessionID,
    pub(crate) sender: S,
    pub(crate) ttl: u32,
}

/// The key under which a registry keeps what belongs to the pair `(a, b)`.
pub open spec fn pair_key(a: u16, b: u16) -> u32 {
    (a as u32 * 0x1_0000 + b as u32) as u32
}

pub(crate) fn make_pair_key(a: u16, b: u16) -> (key: u32)
    ensures
        key == pair_key(a, b),
{
    (a as u32) * 0x1_0000 + (b as u32)
}

/// Session- and registry-management core of a connection to the engine.
pub struct Connection<S> {
    pub(crate) application_name: String,
    pub(crate) lifecycle: Lifecycle,
    pub(crate) connected: bool,
    pub(crate) services: HashMap<u32, ServiceAdapter<S>>,
    pub(crate) msg_handler_refs: HashMap<u32, u128>,
    pub(crate) req_services: HashMap<u32, ProxyGroup<S>>,
    pub(crate) proxy_id_counter: ProxyID,
    pub(crate) offered_events: HashMap<u32, HashMap<EventID, EventDetails>>,
    pub(crate) session_map: HashMap<u32, Session<S>>,
    pub(crate) session_ttl: u32,
}

impl<S> ProxyGroup<S> {
    pub(crate) open spec fn view(&self) -> ProxyGroupView<S> {
        ProxyGroupView { major_version: self.major_version, proxies: self.proxies@ }
    }
}

impl<S> Session<S> {
    pub(crate) open spec fn view(&self) -> SessionView<S> {
        SessionView { sender: self.sender, ttl: self.ttl }
    }
}

impl<S> Connection<S> {
    /// What the connection holds, as mathematics.
    pub open(crate) spec fn view(&self) -> ConnectionView<S> {
        ConnectionView {
            application_name: self.application_name@,
            lifecycle: self.lifecycle,
            connected: self.connected,
            services: Map::new(
                |key: ServiceKey| self.services@.contains_key(pair_key(key.0, key.1)),
                |key: ServiceKey| self.services@[pair_key(key.0, key.1)],
            ),
            handler_refs: Map::new(
                |key: ServiceKey| self.msg_handler_refs@.contains_key(pair_key(key.0, key.1)),
                |key: ServiceKey| self.msg_handler_refs@[pair_key(key.0, key.1)] as nat,
            ),
            proxies: Map::new(
                |key: ProxyServiceKey| self.req_services@.contains_key(pair_key(key.0, key.1)),
                |key: ProxyServiceKey| self.req_services@[pair_key(key.0, key.1)]@,
            ),
            proxy_id_counter: self.proxy_id_counter,
            events: Map::new(
                |ek: EventKey|
                    self.offered_events@.contains_key(pair_key(ek.0, ek.1))
                        && self.offered_events@[pair_key(ek.0, ek.1)]@.contains_key(ek.2),
                |ek: EventKey|
                    {
                        let details = self.offered_events@[pair_key(ek.0, ek.1)]@[ek.2];
                        EventOffer {
                            service: ek.0,
                            instance: ek.1,
                            event: ek.2,
                            group: details.group,
                            typ: details.typ,
                            reliability: details.reliability,
                        }
                    },
            ),
            sessions: Map::new(
                |key: SessionKey| self.session_map@.contains_key(pair_key(key.0, key.1)),
                |key: SessionKey| self.session_map@[pair_key(key.0, key.1)]@,
            ),
            session_ttl: self.session_ttl,
        }
    }

    /// Every session sits under the key of its client and session.
    pub open(crate) spec fn keyed(&self) -> bool {
        forall|k: u32| #[trigger]
            self.session_map@.contains_key(k) ==> k == pair_key(
                self.session_map@[k].client,
                self.session_map@[k].session,
            )
    }

    /// The invariant of the connection. Every operation keeps it, and a
    /// created connection has it.
    pub open(crate) spec fn wf(&self) -> bool {
        self.keyed() && self@.wf()
    }

    /// What the invariant of the connection says of its view.
    pub proof fn lemma_view_wf(&self)
        requires
            self.wf(),
        ensures
            self@.wf(),
    {
    }

    /// A connection for the application `app_name`, with nothing registered
    /// and sessions that wait [`DEFAULT_SESSION_TTL`] ticks.
    pub fn create(app_name: &str) -> (connection: Connection<S>)
        ensures
            connection.wf(),
            connection@ == ConnectionView::<S>::initial(app_name@, DEFAULT_SESSION_TTL),
    {
        let connection = Connection {
            application_name: app_name.to_owned(),
            lifecycle: Lifecycle::Created,
            connected: false,
            services: HashMap::new(),
            msg_handler_refs: HashMap::new(),
            req_services: HashMap::new(),
            proxy_id_counter: 0,
            offered_events: HashMap::new(),
            session_map: HashMap::new(),
            session_ttl: DEFAULT_SESSION_TTL,
        };
        proof {
            let v = connection@;
            let i = ConnectionView::<S>::initial(app_name@, DEFAULT_SESSION_TTL);
            assert(v.services =~= i.services);
            assert(v.handler_refs =~= i.handler_refs);
            assert(v.proxies =~= i.proxies);
            assert(v.events =~= i.events);
            assert(v.sessions =~= i.sessions);
        }
        connection
    }

    /// The name of the application, as given at creation.
    pub fn app_name(&self) -> (name: &str)
        ensures
            name@ == self@.application_name,
    {
        self.application_name.as_str()
    }
}

} // verus!
