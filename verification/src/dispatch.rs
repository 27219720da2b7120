//! Message traffic: what goes out to the engine, and where the messages that
//! come in from it have to go.
use vstd::prelude::*;
use crate::connection::{make_pair_key, CapiError, Command, Connection, Delivery};
use crate::gateway::Outbound;
use crate::model::ServiceKey;
use crate::types::{
    ClientID, EventID, InstanceID, InterfaceVersion, MajorVersion, Message, MessageType,
    MethodID, ProtocolVersion, ReturnCode, ServiceID, SessionID, ANY_INSTANCE,
};

verus! {

broadcast use vstd::std_specs::hash::group_hash_axioms;

/// The header of a message as the engine reports it, field by field.
#[derive(Clone, Copy, PartialEq, Eq, Debug, Structural)]
pub struct RawMessage {
    pub service: ServiceID,
    pub instance: InstanceID,
    pub client: ClientID,
    pub session: SessionID,
    pub method: MethodID,
    pub message_type: u8,
    pub protocol_version: ProtocolVersion,
    pub interface_version: InterfaceVersion,
    pub return_code: u8,
    /// Not zero for a message that came over a reliable transport.
    pub is_reliable: i32,
    /// Not zero for the initial notification of a field.
    pub is_initial: i32,
}

/// Why an inbound message went to nobody.
#[derive(Clone, Copy, PartialEq, Eq, Debug, Structural)]
pub enum DropReason {
    /// A request for a service instance that has no adapter, neither of its
    /// own nor for any instance.
    NoAdapter,
    /// An answer to a request that is not tracked: late, or never sent.
    UnknownSession,
    /// A notification: those belong to the subscribers of events, which
    /// this connection does not keep.
    Notification,
    /// A message of a kind that the connection does not route.
    UnsupportedType,
}

/// What became of an inbound message.
#[derive(Debug)]
pub enum Dispatch<S> {
    /// It goes to a consumer.
    Deliver(Delivery<S>),
    /// It goes to nobody.
    Dropped(DropReason),
}

/// The decoded header of a message that the engine reports as `raw`.
pub open spec fn decoded(raw: RawMessage) -> Message {
    Message {
        service: raw.service,
        instance: raw.instance,
        client: raw.client,
        session: raw.session,
        method: raw.method,
        message_type: MessageType::spec_from_u8(raw.message_type),
        protocol_version: raw.protocol_version,
        interface_version: raw.interface_version,
        return_code: ReturnCode::spec_from_u8(raw.return_code),
        is_reliable: raw.is_reliable != 0,
        is_initial: raw.is_initial != 0,
    }
}

pub fn make_message_from(raw: &RawMessage) -> (message: Message)
    ensures
        message == decoded(*raw),
{
    Message {
        service: raw.service,
        instance: raw.instance,
        client: raw.client,
        session: raw.session,
        method: raw.method,
        message_type: MessageType::from_u8(raw.message_type),
        protocol_version: raw.protocol_version,
        interface_version: raw.interface_version,
        return_code: ReturnCode::from_u8(raw.return_code),
        is_reliable: 0 != raw.is_reliable,
        is_initial: 0 != raw.is_initial,
    }
}

/// The answer to a request, for the engine to build and send: a response
/// where `return_code` is `EOk`, else an error message that carries the byte
/// of the return code.
pub open spec fn reply(
    service: ServiceID,
    instance: InstanceID,
    method: MethodID,
    return_code: ReturnCode,
    reliable: bool,
    client: ClientID,
    session: SessionID,
    major_version: MajorVersion,
    payload: Option<bytes::Bytes>,
) -> Outbound {
    if return_code is EOk {
        Outbound::Response {
            service,
            instance,
            client,
            session,
            method,
            major_version,
            reliable,
            payload,
        }
    } else {
        Outbound::Error {
            service,
            instance,
            client,
            session,
            method,
            major_version,
            reliable,
            return_code: return_code.spec_value(),
            payload,
        }
    }
}

impl<S> Connection<S> {
    /// The answer that [`reply`] describes, ready for the engine.
    pub fn send_reply(
        &self,
        service: ServiceID,
        instance: InstanceID,
        method: MethodID,
        return_code: ReturnCode,
        reliable: bool,
        client_id: ClientID,
        session_id: SessionID,
        mjr_version: MajorVersion,
        data: Option<bytes::Bytes>,
    ) -> (result: Result<Outbound, CapiError>)
        ensures
            result == Ok::<Outbound, CapiError>(
                reply(
                    service,
                    instance,
                    method,
                    return_code,
                    reliable,
                    client_id,
                    session_id,
                    mjr_version,
                    data,
                ),
            ),
    {
        let message = match return_code {
            ReturnCode::EOk => Outbound::Response {
                service,
                instance,
                client: client_id,
                session: session_id,
                method,
                major_version: mjr_version,
                reliable,
                payload: data,
            },
            _ => Outbound::Error {
                service,
                instance,
                client: client_id,
                session: session_id,
                method,
                major_version: mjr_version,
                reliable,
                return_code: return_code.value(),
                payload: data,
            },
        };
        Ok(message)
    }

    /// The answer to `request` with the given return code and payload. It is
    /// addressed back to the requester: service, instance, method, client,
    /// session, interface version and reliability are those of the request.
    pub fn send_response(
        &self,
        request: &Message,
        return_code: ReturnCode,
        data: Option<bytes::Bytes>,
    ) -> (result: Result<Outbound, CapiError>)
        ensures
            result == Ok::<Outbound, CapiError>(
                reply(
                    request.service,
                    request.instance,
                    request.method,
                    return_code,
                    request.is_reliable,
                    request.client,
                    request.session,
                    request.interface_version,
                    data,
                ),
            ),
    {
        self.send_reply(
            request.service,
            request.instance,
            request.method,
            return_code,
            request.is_reliable,
            request.client,
            request.session,
            request.interface_version,
            data,
        )
    }

    /// The notification that tells the subscribers of an event its new value.
    /// With `force` the engine sends it even if the value of a field did not
    /// change; whether it is sent otherwise is the engine's decision.
    pub fn send_notification(
        &self,
        service: ServiceID,
        instance: InstanceID,
        event: EventID,
        payload: Option<bytes::Bytes>,
        force: bool,
    ) -> (message: Outbound)
        ensures
            message == (Outbound::Notification { service, instance, event, force, payload }),
    {
        Outbound::Notification { service, instance, event, force, payload }
    }
}

impl<S: Clone> Connection<S> {
    /// Hands a request to the adapter registered under `sk`, if there is
    /// one. Else the payload comes back, for another try.
    pub fn try_forward_service_message(
        &self,
        msg: &Message,
        payload: Option<bytes::Bytes>,
        sk: &ServiceKey,
    ) -> (result: Result<Delivery<S>, Option<bytes::Bytes>>)
        ensures
            match result {
                Ok(d) => {
                    &&& self@.services.contains_key(*sk)
                    &&& cloned(self@.services[*sk].sender, d.sender)
                    &&& d.command == Command::Request(*msg, payload)
                },
                Err(back) => !self@.services.contains_key(*sk) && back == payload,
            },
    {
        let key = make_pair_key(sk.0, sk.1);
        match self.services.get(&key) {
            Some(service) => Ok(
                Delivery {
                    sender: service.sender.clone(),
                    command: Command::Request(*msg, payload),
                },
            ),
            None => Err(payload),
        }
    }

    /// Routes a request from the engine to the provider of its service
    /// instance: to the adapter registered for the instance or, where there
    /// is none, to the adapter that the service registered for any instance.
    /// A request that matches neither is dropped.
    pub fn process_service_message(
        &self,
        msg: Message,
        payload: Option<bytes::Bytes>,
    ) -> (delivery: Option<Delivery<S>>)
        ensures
            match delivery {
                Some(d) => {
                    &&& self@.route_service((msg.service, msg.instance)) matches Some(key)
                    &&& cloned(self@.services[key].sender, d.sender)
                    &&& d.command == Command::Request(msg, payload)
                },
                None => self@.route_service((msg.service, msg.instance)) is None,
            },
    {
        match self.try_forward_service_message(&msg, payload, &(msg.service, msg.instance)) {
            Ok(d) => Some(d),
            Err(back) => {
                match self.try_forward_service_message(&msg, back, &(msg.service, ANY_INSTANCE)) {
                    Ok(d) => Some(d),
                    Err(_) => None,
                }
            },
        }
    }

    /// Routes a message from the engine by its kind.
    ///
    /// A request, with or without return, goes to the provider of its
    /// service instance (see [`Connection::process_service_message`]). A
    /// response or an error ends the session of the request that it answers
    /// and goes to the channel that waited for it. Notifications and
    /// messages of any other kind are dropped. The registries change only
    /// where a session ends.
    pub fn process_incoming_message(
        &mut self,
        msg: Message,
        payload: Option<bytes::Bytes>,
    ) -> (dispatch: Dispatch<S>)
        requires
            old(self).wf(),
        ensures
            final(self).wf(),
            match msg.message_type {
                MessageType::Request | MessageType::RequestNoReturn => {
                    &&& final(self)@ == old(self)@
                    &&& match old(self)@.route_service((msg.service, msg.instance)) {
                        Some(key) => {
                            &&& dispatch matches Dispatch::Deliver(d)
                            &&& cloned(old(self)@.services[key].sender, d.sender)
                            &&& d.command == Command::Request(msg, payload)
                        },
                        None => dispatch == Dispatch::<S>::Dropped(DropReason::NoAdapter),
                    }
                },
                MessageType::Response | MessageType::Error => {
                    &&& final(self)@ == old(self)@.close_session((msg.client, msg.session))
                    &&& if old(self)@.sessions.contains_key((msg.client, msg.session)) {
                        &&& dispatch matches Dispatch::Deliver(d)
                        &&& d.sender == old(self)@.sessions[(msg.client, msg.session)].sender
                        &&& d.command == if msg.message_type is Response {
                            Command::Response(msg, payload)
                        } else {
                            Command::Error(msg, payload)
                        }
                    } else {
                        dispatch == Dispatch::<S>::Dropped(DropReason::UnknownSession)
                    }
                },
                MessageType::Notification => {
                    &&& final(self)@ == old(self)@
                    &&& dispatch == Dispatch::<S>::Dropped(DropReason::Notification)
                },
                _ => {
                    &&& final(self)@ == old(self)@
                    &&& dispatch == Dispatch::<S>::Dropped(DropReason::UnsupportedType)
                },
            },
    {
        match msg.message_type {
            MessageType::Request | MessageType::RequestNoReturn => {
                match self.process_service_message(msg, payload) {
                    Some(d) => Dispatch::Deliver(d),
                    None => Dispatch::Dropped(DropReason::NoAdapter),
                }
            },
            MessageType::Response => {
                match self.process_response_message(msg, payload) {
                    Some(d) => Dispatch::Deliver(d),
                    None => Dispatch::Dropped(DropReason::UnknownSession),
                }
            },
            MessageType::Error => {
                match self.process_error_message(msg, payload) {
                    Some(d) => Dispatch::Deliver(d),
                    None => Dispatch::Dropped(DropReason::UnknownSession),
                }
            },
            MessageType::Notification => Dispatch::Dropped(DropReason::Notification),
            _ => Dispatch::Dropped(DropReason::UnsupportedType),
        }
    }
}

} // verus!
