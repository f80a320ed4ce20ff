use hyper_router::{Method, Path, Route};

type Handler = fn(u64) -> u64;

fn some_handler(_: u64) -> u64 {
    0
}

fn expected_static_path() -> Path {
    Path::Static("/foo".to_string())
}

fn expected_parametric_path() -> Path {
    Path::Parametric(vec!["".to_string(), "foo".to_string(), ":id".to_string()])
}

#[test]
fn test_construct_static_get_route() {
    let r1: Route<Handler> = Route::options("/foo", some_handler);
    assert_eq!(r1.method, Method::Options);
    assert_eq!(r1.path, expected_static_path());
    assert!(r1.handler as Handler == some_handler as Handler);
    let r2: Route<Handler> = Route::from(Method::Options, "/foo", some_handler);
    assert_eq!(r2.method, Method::Options);
    assert_eq!(r2.path, expected_static_path());
    assert!(r2.handler as Handler == some_handler as Handler);
}

#[test]
fn test_construct_static_options_route() {
    let r1: Route<Handler> = Route::get("/foo", some_handler);
    assert_eq!(r1.method, Method::Get);
    assert_eq!(r1.path, expected_static_path());
    assert!(r1.handler as Handler == some_handler as Handler);
    let r2: Route<Handler> = Route::from(Method::Get, "/foo", some_handler);
    assert_eq!(r2.method, Method::Get);
    assert_eq!(r2.path, expected_static_path());
    assert!(r2.handler as Handler == some_handler as Handler);
}

#[test]
fn test_construct_static_post_route() {
    let r1: Route<Handler> = Route::post("/foo", some_handler);
    assert_eq!(r1.method, Method::Post);
    assert_eq!(r1.path, expected_static_path());
    assert!(r1.handler as Handler == some_handler as Handler);
    let r2: Route<Handler> = Route::from(Method::Post, "/foo", some_handler);
    assert_eq!(r2.method, Method::Post);
    assert_eq!(r2.path, expected_static_path());
    assert!(r2.handler as Handler == some_handler as Handler);
}

#[test]
fn test_construct_static_put_route() {
    let r1: Route<Handler> = Route::put("/foo", some_handler);
    assert_eq!(r1.method, Method::Put);
    assert_eq!(r1.path, expected_static_path());
    assert!(r1.handler as Handler == some_handler as Handler);
    let r2: Route<Handler> = Route::from(Method::Put, "/foo", some_handler);
    assert_eq!(r2.method, Method::Put);
    assert_eq!(r2.path, expected_static_path());
    assert!(r2.handler as Handler == some_handler as Handler);
}

#[test]
fn test_construct_static_delete_route() {
    let r1: Route<Handler> = Route::delete("/foo", some_handler);
    assert_eq!(r1.method, Method::Delete);
    assert_eq!(r1.path, expected_static_path());
    assert!(r1.handler as Handler == some_handler as Handler);
    let r2: Route<Handler> = Route::from(Method::Delete, "/foo", some_handler);
    assert_eq!(r2.method, Method::Delete);
    assert_eq!(r2.path, expected_static_path());
    assert!(r2.handler as Handler == some_handler as Handler);
}

#[test]
fn test_construct_static_head_route() {
    let r1: Route<Handler> = Route::head("/foo", some_handler);
    assert_eq!(r1.method, Method::Head);
    assert_eq!(r1.path, expected_static_path());
    assert!(r1.handler as Handler == some_handler as Handler);
    let r2: Route<Handler> = Route::from(Method::Head, "/foo", some_handler);
    assert_eq!(r2.method, Method::Head);
    assert_eq!(r2.path, expected_static_path());
    assert!(r2.handler as Handler == some_handler as Handler);
}

#[test]
fn test_construct_static_trace_route() {
    let r1: Route<Handler> = Route::trace("/foo", some_handler);
    assert_eq!(r1.method, Method::Trace);
    assert_eq!(r1.path, expected_static_path());
    assert!(r1.handler as Handler == some_handler as Handler);
    let r2: Route<Handler> = Route::from(Method::Trace, "/foo", some_handler);
    assert_eq!(r2.method, Method::Trace);
    assert_eq!(r2.path, expected_static_path());
    assert!(r2.handler as Handler == some_handler as Handler);
}

#[test]
fn test_construct_static_connect_route() {
    let r1: Route<Handler> = Route::connect("/foo", some_handler);
    assert_eq!(r1.method, Method::Connect);
    assert_eq!(r1.path, expected_static_path());
    assert!(r1.handler as Handler == some_handler as Handler);
    let r2: Route<Handler> = Route::from(Method::Connect, "/foo", some_handler);
    assert_eq!(r2.method, Method::Connect);
    assert_eq!(r2.path, expected_static_path());
    assert!(r2.handler as Handler == some_handler as Handler);
}

#[test]
fn test_construct_static_patch_route() {
    let r1: Route<Handler> = Route::patch("/foo", some_handler);
    assert_eq!(r1.method, Method::Patch);
    assert_eq!(r1.path, expected_static_path());
    assert!(r1.handler as Handler == some_handler as Handler);
    let r2: Route<Handler> = Route::from(Method::Patch, "/foo", some_handler);
    assert_eq!(r2.method, Method::Patch);
    assert_eq!(r2.path, expected_static_path());
    assert!(r2.handler as Handler == some_handler as Handler);
}

#[test]
fn test_construct_parametric_get_route() {
    let r1: Route<Handler> = Route::options("/foo/:id", some_handler);
    assert_eq!(r1.method, Method::Options);
    assert_eq!(r1.path, expected_parametric_path());
    assert!(r1.handler as Handler == some_handler as Handler);
    let r2: Route<Handler> = Route::from(Method::Options, "/foo/:id", some_handler);
    assert_eq!(r2.method, Method::Options);
    assert_eq!(r2.path, expected_parametric_path());
    assert!(r2.handler as Handler == some_handler as Handler);
}

#[test]
fn test_construct_parametric_options_route() {
    let r1: Route<Handler> = Route::get("/foo/:id", some_handler);
    assert_eq!(r1.method, Method::Get);
    assert_eq!(r1.path, expected_parametric_path());
    assert!(r1.handler as Handler == some_handler as Handler);
    let r2: Route<Handler> = Route::from(Method::Get, "/foo/:id", some_handler);
    assert_eq!(r2.method, Method::Get);
    assert_eq!(r2.path, expected_parametric_path());
    assert!(r2.handler as Handler == some_handler as Handler);
}

#[test]
fn test_construct_parametric_post_route() {
    let r1: Route<Handler> = Route::post("/foo/:id", some_handler);
    assert_eq!(r1.method, Method::Post);
    assert_eq!(r1.path, expected_parametric_path());
    assert!(r1.handler as Handler == some_handler as Handler);
    let r2: Route<Handler> = Route::from(Method::Post, "/foo/:id", some_handler);
    assert_eq!(r2.method, Method::Post);
    assert_eq!(r2.path, expected_parametric_path());
    assert!(r2.handler as Handler == some_handler as Handler);
}

#[test]
fn test_construct_parametric_put_route() {
    let r1: Route<Handler> = Route::put("/foo/:id", some_handler);
    assert_eq!(r1.method, Method::Put);
    assert_eq!(r1.path, expected_parametric_path());
    assert!(r1.handler as Handler == some_handler as Handler);
    let r2: Route<Handler> = Route::from(Method::Put, "/foo/:id", some_handler);
    assert_eq!(r2.method, Method::Put);
    assert_eq!(r2.path, expected_parametric_path());
    assert!(r2.handler as Handler == some_handler as Handler);
}

#[test]
fn test_construct_parametric_delete_route() {
    let r1: Route<Handler> = Route::delete("/foo/:id", some_handler);
    assert_eq!(r1.method, Method::Delete);
    assert_eq!(r1.path, expected_parametric_path());
    assert!(r1.handler as Handler == some_handler as Handler);
    let r2: Route<Handler> = Route::from(Method::Delete, "/foo/:id", some_handler);
    assert_eq!(r2.method, Method::Delete);
    assert_eq!(r2.path, expected_parametric_path());
    assert!(r2.handler as Handler == some_handler as Handler);
}

#[test]
fn test_construct_parametric_head_route() {
    let r1: Route<Handler> = Route::head("/foo/:id", some_handler);
    assert_eq!(r1.method, Method::Head);
    assert_eq!(r1.path, expected_parametric_path());
    assert!(r1.handler as Handler == some_handler as Handler);
    let r2: Route<Handler> = Route::from(Method::Head, "/foo/:id", some_handler);
    assert_eq!(r2.method, Method::Head);
    assert_eq!(r2.path, expected_parametric_path());
    assert!(r2.handler as Handler == some_handler as Handler);
}

#[test]
fn test_construct_parametric_trace_route() {
    let r1: Route<Handler> = Route::trace("/foo/:id", some_handler);
    assert_eq!(r1.method, Method::Trace);
    assert_eq!(r1.path, expected_parametric_path());
    assert!(r1.handler as Handler == some_handler as Handler);
    let r2: Route<Handler> = Route::from(Method::Trace, "/foo/:id", some_handler);
    assert_eq!(r2.method, Method::Trace);
    assert_eq!(r2.path, expected_parametric_path());
    assert!(r2.handler as Handler == some_handler as Handler);
}

#[test]
fn test_construct_parametric_connect_route() {
    let r1: Route<Handler> = Route::connect("/foo/:id", some_handler);
    assert_eq!(r1.method, Method::Connect);
    assert_eq!(r1.path, expected_parametric_path());
    assert!(r1.handler as Handler == some_handler as Handler);
    let r2: Route<Handler> = Route::from(Method::Connect, "/foo/:id", some_handler);
    assert_eq!(r2.method, Method::Connect);
    assert_eq!(r2.path, expected_parametric_path());
    assert!(r2.handler as Handler == some_handler as Handler);
}

#[test]
fn test_construct_parametric_patch_route() {
    let r1: Route<Handler> = Route::patch("/foo/:id", some_handler);
    assert_eq!(r1.method, Method::Patch);
    assert_eq!(r1.path, expected_parametric_path());
    assert!(r1.handler as Handler == some_handler as Handler);
    let r2: Route<Handler> = Route::from(Method::Patch, "/foo/:id", some_handler);
    assert_eq!(r2.method, Method::Patch);
    assert_eq!(r2.path, expected_parametric_path());
    assert!(r2.handler as Handler == some_handler as Handler);
}
