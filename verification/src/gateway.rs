//! What a connection asks of the SOME/IP engine.
//!
//! The connection does not call the engine. Each of its operations returns the
//! requests that the caller has to pass on, in the order in which they are to
//! be made.
use vstd::prelude::*;
use crate::types::{
    EventGroupID, EventID, EventReliability, EventType, InstanceID, MajorVersion, MethodID,
    MinorVersion, ServiceID, ClientID, SessionID,
};

verus! {

/// One request to the engine that changes what it offers, requests or
/// reports.
#[derive(Clone, Copy, PartialEq, Eq, Debug, Structural)]
pub enum GatewayCall {
    /// Start to offer a service instance at the given version.
    OfferService {
        service: ServiceID,
        instance: InstanceID,
        major_version: MajorVersion,
        minor_version: MinorVersion,
    },
    /// Stop to offer a service instance.
    StopOfferService {
        service: ServiceID,
        instance: InstanceID,
        major_version: MajorVersion,
        minor_version: MinorVersion,
    },
    /// Start to offer an event of an offered service instance.
    OfferEvent {
        service: ServiceID,
        instance: InstanceID,
        event: EventID,
        group: EventGroupID,
        typ: EventType,
        reliability: EventReliability,
    },
    /// Stop to offer an event.
    StopOfferEvent { service: ServiceID, instance: InstanceID, event: EventID },
    /// Ask service discovery to find a remote service instance.
    RequestService {
        service: ServiceID,
        instance: InstanceID,
        major_version: MajorVersion,
        minor_version: MinorVersion,
    },
    /// Give up a requested remote service instance.
    ReleaseService { service: ServiceID, instance: InstanceID },
    /// Have the messages for a service instance reported to the connection.
    RegisterMessageHandler { service: ServiceID, instance: InstanceID },
    /// Stop the reports of messages for a service instance.
    UnregisterMessageHandler { service: ServiceID, instance: InstanceID },
    /// Have the availability changes of a service instance reported.
    RegisterAvailabilityCallback { service: ServiceID, instance: InstanceID },
    /// Stop the reports of availability changes of a service instance.
    UnregisterAvailabilityCallback { service: ServiceID, instance: InstanceID },
}

/// One message for the engine to build and send, with its payload.
#[derive(Clone, Debug, PartialEq)]
pub enum Outbound {
    /// A method call. The engine assigns the client and session of the
    /// message when it sends it.
    Request {
        service: ServiceID,
        instance: InstanceID,
        method: MethodID,
        major_version: MajorVersion,
        fire_and_forget: bool,
        reliable: bool,
        payload: Option<bytes::Bytes>,
    },
    /// The answer to a request that was carried out.
    Response {
        service: ServiceID,
        instance: InstanceID,
        client: ClientID,
        session: SessionID,
        method: MethodID,
        major_version: MajorVersion,
        reliable: bool,
        payload: Option<bytes::Bytes>,
    },
    /// The answer to a request that failed, with the return code's byte.
    Error {
        service: ServiceID,
        instance: InstanceID,
        client: ClientID,
        session: SessionID,
        method: MethodID,
        major_version: MajorVersion,
        reliable: bool,
        return_code: u8,
        payload: Option<bytes::Bytes>,
    },
    /// A notification to the subscribers of an event. With `force` the
    /// engine sends it even if the value did not change.
    Notification {
        service: ServiceID,
        instance: InstanceID,
        event: EventID,
        force: bool,
        payload: Option<bytes::Bytes>,
    },
}

} // verus!
