//! The SOME/IP vocabulary, under the name that applications know it by.
pub use crate::types::{
    ClientID, EventGroupID, EventID, EventReliability, EventType, InstanceID, InterfaceVersion,
    MajorVersion, Message, MessageType, MethodID, MinorVersion, ProtocolVersion, ReturnCode,
    ServiceID, SessionID, ANY_INSTANCE, ANY_MAJOR, ANY_METHOD, ANY_MINOR, ANY_SERVICE,
    DEFAULT_MAJOR, DEFAULT_MINOR,
};
