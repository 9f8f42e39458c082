//! ConnectRPC services for a Cloudflare Worker: the verified core.
//!
//! Every module here holds the decisions and data handling of one part of
//! the worker (the RPC handlers, the request-id middleware, the plain HTTP
//! routes, the todo store); the transport around them lives in `app/`.

pub mod clock;
pub mod echo;
pub mod error;
pub mod greet;
pub mod heartbeat;
pub mod middleware;
pub mod routes;
pub mod text;
pub mod todo;
