//! SOME/IP identifiers, message kinds, return codes and the decoded header.
use vstd::prelude::*;

verus! {

pub type ServiceID = u16;

pub type InstanceID = u16;

pub type MajorVersion = u8;

pub type MinorVersion = u32;

pub type MethodID = u16;

pub type ClientID = u16;

pub type SessionID = u16;

pub type ProtocolVersion = u8;

pub type InterfaceVersion = u8;

pub type EventID = u16;

pub type EventGroupID = u16;

pub const DEFAULT_MAJOR: MajorVersion = 0x00;

pub const DEFAULT_MINOR: MinorVersion = 0x00000000;

pub const ANY_SERVICE: ServiceID = 0xffff;

pub const ANY_INSTANCE: InstanceID = 0xffff;

pub const ANY_MAJOR: MajorVersion = 0xff;

pub const ANY_MINOR: MinorVersion = 0xffffffff;

pub const ANY_METHOD: MethodID = 0xffff;

/// Kind of a SOME/IP message, as carried in the message type byte.
///
/// `Unknown` keeps a byte that names no kind. It is meant for such bytes only:
/// [`MessageType::from_u8`] never builds `Unknown` around a byte that has a
/// name.
#[derive(Copy, Clone, PartialEq, Eq, Debug, Structural)]
pub enum MessageType {
    Request,
    RequestNoReturn,
    Notification,
    RequestAck,
    RequestNoReturnAck,
    NotificationAck,
    Response,
    Error,
    ResponseAck,
    ErrorAck,
    Unknown(u8),
}

impl MessageType {
    /// The byte that stands for this kind on the wire.
    pub open spec fn spec_value(&self) -> u8 {
        match *self {
            MessageType::Request => 0x00,
            MessageType::RequestNoReturn => 0x01,
            MessageType::Notification => 0x02,
            MessageType::RequestAck => 0x40,
            MessageType::RequestNoReturnAck => 0x41,
            MessageType::NotificationAck => 0x42,
            MessageType::Response => 0x80,
            MessageType::Error => 0x81,
            MessageType::ResponseAck => 0xc0,
            MessageType::ErrorAck => 0xc1,
            MessageType::Unknown(v) => v,
        }
    }

    /// The kind that a wire byte stands for.
    pub open spec fn spec_from_u8(value: u8) -> MessageType {
        if value == 0x00 {
            MessageType::Request
        } else if value == 0x01 {
            MessageType::RequestNoReturn
        } else if value == 0x02 {
            MessageType::Notification
        } else if value == 0x40 {
            MessageType::RequestAck
        } else if value == 0x41 {
            MessageType::RequestNoReturnAck
        } else if value == 0x42 {
            MessageType::NotificationAck
        } else if value == 0x80 {
            MessageType::Response
        } else if value == 0x81 {
            MessageType::Error
        } else if value == 0xc0 {
            MessageType::ResponseAck
        } else if value == 0xc1 {
            MessageType::ErrorAck
        } else {
            MessageType::Unknown(value)
        }
    }

    /// True of every kind but an `Unknown` that wraps a byte with a name.
    pub open spec fn is_canonical(&self) -> bool {
        MessageType::spec_from_u8(self.spec_value()) == *self
    }

    #[verifier::when_used_as_spec(spec_value)]
    pub fn value(&self) -> (v: u8)
        ensures
            v == self.spec_value(),
    {
        match self {
            MessageType::Request => 0x00,
            MessageType::RequestNoReturn => 0x01,
            MessageType::Notification => 0x02,
            MessageType::RequestAck => 0x40,
            MessageType::RequestNoReturnAck => 0x41,
            MessageType::NotificationAck => 0x42,
            MessageType::Response => 0x80,
            MessageType::Error => 0x81,
            MessageType::ResponseAck => 0xc0,
            MessageType::ErrorAck => 0xc1,
            MessageType::Unknown(v) => *v,
        }
    }

    #[verifier::when_used_as_spec(spec_from_u8)]
    pub fn from_u8(value: u8) -> (kind: MessageType)
        ensures
            kind == MessageType::spec_from_u8(value),
            kind.spec_value() == value,
            kind.is_canonical(),
    {
        match value {
            0x00 => MessageType::Request,
            0x01 => MessageType::RequestNoReturn,
            0x02 => MessageType::Notification,
            0x40 => MessageType::RequestAck,
            0x41 => MessageType::RequestNoReturnAck,
            0x42 => MessageType::NotificationAck,
            0x80 => MessageType::Response,
            0x81 => MessageType::Error,
            0xc0 => MessageType::ResponseAck,
            0xc1 => MessageType::ErrorAck,
            _ => MessageType::Unknown(value),
        }
    }

    /// Decoding a byte and encoding the result gives the byte back, and every
    /// canonical kind is the decoding of its own byte.
    pub proof fn lemma_round_trip(value: u8, kind: MessageType)
        ensures
            MessageType::spec_from_u8(value).spec_value() == value,
            MessageType::spec_from_u8(value).is_canonical(),
            kind.is_canonical() ==> MessageType::spec_from_u8(kind.spec_value()) == kind,
            !(kind is Unknown) ==> kind.is_canonical(),
    {
    }
}

/// Return code of a SOME/IP response or error message.
///
/// Bytes from `0x20` up to `0x5f` are application errors; every other byte
/// without a name is reserved.
#[derive(Copy, Clone, PartialEq, Eq, Debug, Structural)]
pub enum ReturnCode {
    /// `E_OK`: the request was carried out.
    EOk,
    NotOk,
    UnknownService,
    UnknownMethod,
    NotReady,
    NotReachable,
    Timeout,
    WrongProtocolVersion,
    WrongInterfaceVersion,
    MalformedMessage,
    WrongMessageType,
    ApplicationError(u8),
    Reserved(u8),
}

impl ReturnCode {
    /// The byte that stands for this code on the wire.
    pub open spec fn spec_value(&self) -> u8 {
        match *self {
            ReturnCode::EOk => 0x00,
            ReturnCode::NotOk => 0x01,
            ReturnCode::UnknownService => 0x02,
            ReturnCode::UnknownMethod => 0x03,
            ReturnCode::NotReady => 0x04,
            ReturnCode::NotReachable => 0x05,
            ReturnCode::Timeout => 0x06,
            ReturnCode::WrongProtocolVersion => 0x07,
            ReturnCode::WrongInterfaceVersion => 0x08,
            ReturnCode::MalformedMessage => 0x09,
            ReturnCode::WrongMessageType => 0x0a,
            ReturnCode::ApplicationError(v) => v,
            ReturnCode::Reserved(v) => v,
        }
    }

    /// The code that a wire byte stands for.
    pub open spec fn spec_from_u8(value: u8) -> ReturnCode {
        if value == 0x00 {
            ReturnCode::EOk
        } else if value == 0x01 {
            ReturnCode::NotOk
        } else if value == 0x02 {
            ReturnCode::UnknownService
        } else if value == 0x03 {
            ReturnCode::UnknownMethod
        } else if value == 0x04 {
            ReturnCode::NotReady
        } else if value == 0x05 {
            ReturnCode::NotReachable
        } else if value == 0x06 {
            ReturnCode::Timeout
        } else if value == 0x07 {
            ReturnCode::WrongProtocolVersion
        } else if value == 0x08 {
            ReturnCode::WrongInterfaceVersion
        } else if value == 0x09 {
            ReturnCode::MalformedMessage
        } else if value == 0x0a {
            ReturnCode::WrongMessageType
        } else if 0x20 <= value < 0x60 {
            ReturnCode::ApplicationError(value)
        } else {
            ReturnCode::Reserved(value)
        }
    }

    /// True of every code that is the decoding of its own byte.
    pub open spec fn is_canonical(&self) -> bool {
        ReturnCode::spec_from_u8(self.spec_value()) == *self
    }

    #[verifier::when_used_as_spec(spec_value)]
    pub fn value(&self) -> (v: u8)
        ensures
            v == self.spec_value(),
    {
        match self {
            ReturnCode::EOk => 0x00,
            ReturnCode::NotOk => 0x01,
            ReturnCode::UnknownService => 0x02,
            ReturnCode::UnknownMethod => 0x03,
            ReturnCode::NotReady => 0x04,
            ReturnCode::NotReachable => 0x05,
            ReturnCode::Timeout => 0x06,
            ReturnCode::WrongProtocolVersion => 0x07,
            ReturnCode::WrongInterfaceVersion => 0x08,
            ReturnCode::MalformedMessage => 0x09,
            ReturnCode::WrongMessageType => 0x0a,
            ReturnCode::ApplicationError(v) => *v,
            ReturnCode::Reserved(v) => *v,
        }
    }

    #[verifier::when_used_as_spec(spec_from_u8)]
    pub fn from_u8(value: u8) -> (code: ReturnCode)
        ensures
            code == ReturnCode::spec_from_u8(value),
            code.spec_value() == value,
            code.is_canonical(),
    {
        match value {
            0x00 => ReturnCode::EOk,
            0x01 => ReturnCode::NotOk,
            0x02 => ReturnCode::UnknownService,
            0x03 => ReturnCode::UnknownMethod,
            0x04 => ReturnCode::NotReady,
            0x05 => ReturnCode::NotReachable,
            0x06 => ReturnCode::Timeout,
            0x07 => ReturnCode::WrongProtocolVersion,
            0x08 => ReturnCode::WrongInterfaceVersion,
            0x09 => ReturnCode::MalformedMessage,
            0x0a => ReturnCode::WrongMessageType,
            _ => {
                if value >= 0x20 && value < 0x60 {
                    ReturnCode::ApplicationError(value)
                } else {
                    ReturnCode::Reserved(value)
                }
            },
        }
    }

    /// Decoding a byte and encoding the result gives the byte back, and every
    /// canonical code is the decoding of its own byte.
    pub proof fn lemma_round_trip(value: u8, code: ReturnCode)
        ensures
            ReturnCode::spec_from_u8(value).spec_value() == value,
            ReturnCode::spec_from_u8(value).is_canonical(),
            code.is_canonical() ==> ReturnCode::spec_from_u8(code.spec_value()) == code,
            ReturnCode::spec_from_u8(value) is ApplicationError <==> 0x20 <= value < 0x60,
    {
    }
}

/// Decoded header of a SOME/IP message. A value is built once, from what the
/// engine reports about a message, and never changed afterwards.
#[derive(Clone, Copy, PartialEq, Eq, Debug, Structural)]
pub struct Message {
    pub service: ServiceID,
    pub instance: InstanceID,
    pub client: ClientID,
    pub session: SessionID,
    pub method: MethodID,
    pub message_type: MessageType,
    pub protocol_version: ProtocolVersion,
    pub interface_version: InterfaceVersion,
    pub return_code: ReturnCode,
    pub is_reliable: bool,
    pub is_initial: bool,
}

/// Type of SOME/IP event.
#[derive(Clone, Copy, PartialEq, Eq, Debug, Structural)]
pub enum EventType {
    /// Pure broadcast event.
    Broadcast,
    /// Selective event - event with consumer specific notification and data.
    Selective,
    /// Event represents a changed-event of a service field/attribute.
    Field,
}

/// Reliability of event notification transport.
#[derive(Clone, Copy, PartialEq, Eq, Debug, Structural)]
pub enum EventReliability {
    /// Reliable transport protocol.
    Reliable,
    /// Unreliable transport protocol.
    Unreliable,
    /// Consumers must offer reliable and unreliable transport endpoint.
    Both,
    /// Event uses same reliability as its owning service.
    Service,
}

} // verus!
