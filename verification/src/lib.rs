//! A minimal HTTP/1.1 request parser, response serializer, route dispatcher
//! and per-connection state machine, with machine-checked contracts.

pub mod bytes;
pub mod connection;
pub mod decimal;
pub mod grammar;
pub mod headers;
pub mod parse;
pub mod replay;
pub mod request;
pub mod response;
pub mod round_trip;
pub mod route;
pub mod status;
pub mod store;
pub mod text;
