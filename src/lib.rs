//! A small HTTP/1.1 request handler over raw bytes: parsing, routing and
//! response serialization, with the connection loop's decisions made explicit.

pub mod bytes;
pub mod request;
pub mod response;
pub mod route;
pub mod server;
pub mod properties;
