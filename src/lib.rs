//! Request routing and response shaping for a small HTTP server: a route table of
//! (method, path pattern) entries with a most-specific-wins matcher, extractors for
//! path parameters, query strings and JSON bodies, a response encoder over a closed set
//! of shapes, the handlers of the route surface, and the shutdown coordinator.

pub mod path;
pub mod pattern;
pub mod route;
pub mod table;
pub mod text;
pub mod query;
pub mod codec;
pub mod response;
pub mod server;
pub mod handlers;
pub mod lifecycle;
