//! Session and registry core of a SOME/IP middleware adapter.
//!
//! The crate holds the decisions of a connection to a SOME/IP engine: which
//! services, events and proxies are registered, which requests are still
//! waiting for an answer, and where an inbound message has to go. It never
//! talks to the engine itself. Every operation changes the registries and
//! hands back what the caller has to do next: the calls to make at the engine
//! and the commands to put into consumer channels.
//!
//! - [`types`] (also known as [`someip`]): identifiers, message kinds, return
//!   codes, the decoded message header.
//! - [`model`]: what a connection means, as maps and numbers, and what each
//!   operation does to it.
//! - [`connection`] with [`services`], [`proxies`], [`sessions`],
//!   [`dispatch`] and [`lifecycle`]: the executable connection, proved to
//!   follow the model.
//! - [`laws`]: what holds of every connection, proved about the model.
//! - [`gateway`]: the requests that the connection makes of the engine.
//! - [`payload`] and [`channel`]: payloads of the `bytes` crate and channels
//!   of tokio.
//! - [`runtime`] and [`vsomeip`]: services created from descriptions, and
//!   the handlers of the application's registration state.
//! - [`fmt`]: parsers for the basic data types of the wire format.
pub mod types;
pub mod payload;
pub mod channel;
pub mod gateway;
pub mod model;
pub mod connection;
mod handlers;
pub mod services;
pub mod proxies;
pub mod sessions;
pub mod dispatch;
pub mod lifecycle;
pub mod laws;
pub mod fmt;
pub mod runtime;
pub mod service_adapter;
pub mod someip;
pub mod vsomeip;

pub use connection::{
    CapiError, Command, Connection, Delivery, ProxyAdapter, ServiceAdapter, ServiceInstanceID,
};
pub use model::{ProxyID, ProxyServiceKey, ServiceKey, SessionKey};
pub use runtime::{EventDescriptor, Runtime, ServiceDescriptor};
