//! A route: the binding of an HTTP method and a path pattern to a handler.
//!
//! The handler is an opaque value to the router: it is stored at
//! registration and handed back by resolution, never invoked here, so routes
//! are generic in the handler type.

use crate::method::Method;
use crate::path::{is_pattern_for, Path};
use vstd::prelude::*;

verus! {

/// Binds an HTTP method and a path pattern to a handler.
///
/// Immutable after construction; a route lives in the route list of the
/// router that owns it.
#[derive(Debug)]
pub struct Route<H> {
    /// HTTP method to match.
    pub method: Method,
    /// Path pattern to match.
    pub path: Path,
    /// Request handler, returned verbatim when this route is selected.
    pub handler: H,
}

impl<H> Route<H> {
    /// Builds a route from any method token, a path template and a handler;
    /// the per-method constructors all go through here.
    pub fn from(method: Method, path: &str, handler: H) -> (r: Route<H>)
        ensures
            r.method == method,
            is_pattern_for(r.path, path@),
            r.handler == handler,
    {
        Route { method, path: Path::new(path), handler }
    }

    /// An OPTIONS route.
    pub fn options(path: &str, handler: H) -> (r: Route<H>)
        ensures
            r.method == Method::Options,
            is_pattern_for(r.path, path@),
            r.handler == handler,
    {
        Route::from(Method::Options, path, handler)
    }

    /// A GET route.
    pub fn get(path: &str, handler: H) -> (r: Route<H>)
        ensures
            r.method == Method::Get,
            is_pattern_for(r.path, path@),
            r.handler == handler,
    {
        Route::from(Method::Get, path, handler)
    }

    /// A POST route.
    pub fn post(path: &str, handler: H) -> (r: Route<H>)
        ensures
            r.method == Method::Post,
            is_pattern_for(r.path, path@),
            r.handler == handler,
    {
        Route::from(Method::Post, path, handler)
    }

    /// A PUT route.
    pub fn put(path: &str, handler: H) -> (r: Route<H>)
        ensures
            r.method == Method::Put,
            is_pattern_for(r.path, path@),
            r.handler == handler,
    {
        Route::from(Method::Put, path, handler)
    }

    /// A DELETE route.
    pub fn delete(path: &str, handler: H) -> (r: Route<H>)
        ensures
            r.method == Method::Delete,
            is_pattern_for(r.path, path@),
            r.handler == handler,
    {
        Route::from(Method::Delete, path, handler)
    }

    /// A HEAD route.
    pub fn head(path: &str, handler: H) -> (r: Route<H>)
        ensures
            r.method == Method::Head,
            is_pattern_for(r.path, path@),
            r.handler == handler,
    {
        Route::from(Method::Head, path, handler)
    }

    /// A TRACE route.
    pub fn trace(path: &str, handler: H) -> (r: Route<H>)
        ensures
            r.method == Method::Trace,
            is_pattern_for(r.path, path@),
            r.handler == handler,
    {
        Route::from(Method::Trace, path, handler)
    }

    /// A CONNECT route.
    pub fn connect(path: &str, handler: H) -> (r: Route<H>)
        ensures
            r.method == Method::Connect,
            is_pattern_for(r.path, path@),
            r.handler == handler,
    {
        Route::from(Method::Connect, path, handler)
    }

    /// A PATCH route.
    pub fn patch(path: &str, handler: H) -> (r: Route<H>)
        ensures
            r.method == Method::Patch,
            is_pattern_for(r.path, path@),
            r.handler == handler,
    {
        Route::from(Method::Patch, path, handler)
    }
}

} // verus!
