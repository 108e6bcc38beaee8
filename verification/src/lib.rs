//! A tunnel that exposes local HTTP and TCP services through a public server.
//!
//! This crate holds the verified core of the tunnel: the wire messages, the
//! rules a subdomain must follow, the decisions the control server takes on a
//! tunnel request, the routing of public HTTP traffic by its `Host` header,
//! the plain HTTP replies the server writes, and the request console's
//! capture of proxied HTTP exchanges.

pub mod banner;
pub mod console;
pub mod control;
pub mod decimal;
pub mod host;
pub mod http_head;
pub mod protocol;
pub mod reply;
pub mod subdomain;
