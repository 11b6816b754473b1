//! A client core for the ADS/AMS protocol of Beckhoff TwinCAT controllers.
//!
//! The crate holds the protocol logic of a client: framing, the correlation of
//! responses and notifications with their sinks, handle caching and the
//! facade that turns operations into request/response exchanges. It performs
//! no I/O itself: sockets, threads and channels belong to the program around
//! it, which hands them in as plain functions.
//!
//! - `proto` holds the data of the protocol, `codec` its byte layout and the
//!   calls into the codec crates, `request_factory` the requests for the
//!   well-known services.
//! - `reader` is the receiving side: it reads frames, decodes them and routes
//!   them to the sinks registered in its two correlation tables.
//! - `client`, `connect` and `sumup` are the sending side: the state of the
//!   client and its operations, each stated as the exchanges that it performs.
//! - `handle_cache` maps variable names to handles; `error` holds the errors.
pub mod client;
pub mod codec;
pub mod connect;
pub mod error;
pub mod handle_cache;
pub mod proto;
pub mod reader;
pub mod request_factory;
pub mod sumup;
