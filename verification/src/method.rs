//! HTTP method tokens.
//!
//! A route is selected only when the request's method equals the route's
//! method; a route whose pattern matches the request path under a different
//! method only triggers the method-not-supported fallback. Besides the nine
//! enumerated methods, `Extension` carries any other token by its text.

use crate::segments::str_eq;
use vstd::prelude::*;

verus! {

/// An HTTP method token.
#[derive(Clone, Debug)]
pub enum Method {
    Options,
    Get,
    Post,
    Put,
    Delete,
    Head,
    Trace,
    Connect,
    Patch,
    /// A non-enumerated method, named by its token text.
    Extension(String),
}

/// Whether two method tokens name the same method: equal variants, and for
/// extension tokens equal text.
pub open spec fn method_eq(a: Method, b: Method) -> bool {
    match (a, b) {
        (Method::Options, Method::Options) => true,
        (Method::Get, Method::Get) => true,
        (Method::Post, Method::Post) => true,
        (Method::Put, Method::Put) => true,
        (Method::Delete, Method::Delete) => true,
        (Method::Head, Method::Head) => true,
        (Method::Trace, Method::Trace) => true,
        (Method::Connect, Method::Connect) => true,
        (Method::Patch, Method::Patch) => true,
        (Method::Extension(x), Method::Extension(y)) => x@ == y@,
        _ => false,
    }
}

impl PartialEq for Method {
    fn eq(&self, other: &Self) -> (r: bool) {
        match (self, other) {
            (Method::Options, Method::Options) => true,
            (Method::Get, Method::Get) => true,
            (Method::Post, Method::Post) => true,
            (Method::Put, Method::Put) => true,
            (Method::Delete, Method::Delete) => true,
            (Method::Head, Method::Head) => true,
            (Method::Trace, Method::Trace) => true,
            (Method::Connect, Method::Connect) => true,
            (Method::Patch, Method::Patch) => true,
            (Method::Extension(x), Method::Extension(y)) => str_eq(x.as_str(), y.as_str()),
            _ => false,
        }
    }
}

impl vstd::std_specs::cmp::PartialEqSpecImpl for Method {
    open spec fn obeys_eq_spec() -> bool {
        true
    }

    open spec fn eq_spec(&self, other: &Method) -> bool {
        method_eq(*self, *other)
    }
}

} // verus!
