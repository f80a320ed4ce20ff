//! A simple request router: routes bind an HTTP method and a path pattern to a
//! handler value, and a router resolves an incoming (method, path) pair to the
//! handler responsible for it, extracting any named path parameters on the way.
//!
//! Resolution is a linear scan in registration order with first-match-wins
//! tie-breaking and a three-tier fallback: exact match, then method mismatch,
//! then not found.

pub mod method;
pub mod parameters;
pub mod path;
pub mod route;
pub mod router;
pub mod segments;

pub use method::Method;
pub use parameters::RouteParameters;
pub use path::Path;
pub use route::Route;
pub use router::Router;
pub use router::RouterBuilder;
