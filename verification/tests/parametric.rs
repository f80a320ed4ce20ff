use hyper_router::{Method, Route, RouterBuilder};

type Handler = fn(u64) -> u64;

fn default_not_found(_: u64) -> u64 {
    404
}
fn default_method_not_supported(_: u64) -> u64 {
    405
}
fn handle_get_hello(_: u64) -> u64 {
    1
}
fn handle_get_root(_: u64) -> u64 {
    2
}
fn handle_get_foo(_: u64) -> u64 {
    3
}
fn handle_post_hello(_: u64) -> u64 {
    4
}
fn handle_delete_hello(_: u64) -> u64 {
    5
}
fn handle_options_hello(_: u64) -> u64 {
    6
}
fn handle_put_hello(_: u64) -> u64 {
    7
}
fn handle_head_hello(_: u64) -> u64 {
    8
}
fn handle_trace_hello(_: u64) -> u64 {
    9
}
fn handle_patch_hello(_: u64) -> u64 {
    10
}
fn handle_not_found(_: u64) -> u64 {
    11
}
fn handle_get_bar(_: u64) -> u64 {
    12
}
fn handle_method_not_supported(_: u64) -> u64 {
    13
}

fn builder() -> RouterBuilder<Handler> {
    RouterBuilder::new(default_not_found, default_method_not_supported)
}

#[test]
fn test_get_route_with_parametric_path() {
    let router = builder()
        .add(Route::get("/hello/:id", handle_get_hello))
        .add(Route::get("/foo/:id", handle_get_foo))
        .add(Route::get("/foo", handle_get_foo))
        .add(Route::post("/hello", handle_post_hello))
        .build();

    let (handler, params) = router.find_handler(Method::Get, "/hello/123");
    assert!(*handler as Handler == handle_get_hello as Handler);
    assert_eq!(params.get("id").unwrap(), &"123".to_string());
}

#[test]
fn test_post_route_with_parametric_path() {
    let router = builder()
        .add(Route::post("/hello/:id", handle_post_hello))
        .add(Route::get("/", handle_get_root))
        .add(Route::get("/foo", handle_get_foo))
        .add(Route::get("/hello", handle_get_hello))
        .build();

    let (handler, params) =
        router.find_handler(Method::Post, "/hello/5ea67884-245e-43f8-80f7-91d00971a562");
    assert!(*handler as Handler == handle_post_hello as Handler);
    assert_eq!(
        params.get("id").unwrap(),
        &"5ea67884-245e-43f8-80f7-91d00971a562".to_string()
    );
}

#[test]
fn test_delete_route_with_parametric_path() {
    let router = builder()
        .add(Route::delete("/hello/:id", handle_delete_hello))
        .add(Route::post("/hello", handle_post_hello))
        .build();

    let (handler, params) = router.find_handler(Method::Delete, "/hello/my-hello");
    assert!(*handler as Handler == handle_delete_hello as Handler);
    assert_eq!(params.get("id").unwrap(), &"my-hello".to_string());
}

#[test]
fn test_options_route_with_parametric_path() {
    let router = builder()
        .add(Route::options("/hello/:id", handle_options_hello))
        .add(Route::post("/hello/:id", handle_post_hello))
        .build();

    let (handler, params) = router.find_handler(Method::Options, "/hello/7777");
    assert!(*handler as Handler == handle_options_hello as Handler);
    assert_eq!(params.get("id").unwrap(), &"7777".to_string());
}

#[test]
fn test_put_route_with_parametric_path() {
    let router = builder()
        .add(Route::put("/hello/:id", handle_put_hello))
        .add(Route::post("/hello/:id", handle_post_hello))
        .build();

    let (handler, params) = router.find_handler(Method::Put, "/hello/deadbeef");
    assert!(*handler as Handler == handle_put_hello as Handler);
    assert_eq!(params.get("id").unwrap(), &"deadbeef".to_string());
}

#[test]
fn test_head_route_with_parametric_path() {
    let router = builder()
        .add(Route::head("/hello/:id", handle_head_hello))
        .add(Route::post("/hello/:id", handle_post_hello))
        .build();

    let (handler, params) = router.find_handler(Method::Head, "/hello/goodbye");
    assert!(*handler as Handler == handle_head_hello as Handler);
    assert_eq!(params.get("id").unwrap(), &"goodbye".to_string());
}

#[test]
fn test_trace_route_with_parametric_path() {
    let router = builder()
        .add(Route::trace("/hello/:someparam", handle_trace_hello))
        .add(Route::post("/hello/:someparam", handle_post_hello))
        .build();

    let (handler, params) = router.find_handler(Method::Trace, "/hello/hi");
    assert!(*handler as Handler == handle_trace_hello as Handler);
    assert_eq!(params.get("someparam").unwrap(), &"hi".to_string());
}

#[test]
fn test_patch_route_with_parametric_path() {
    let router = builder()
        .add(Route::patch("/hello/:hello", handle_patch_hello))
        .add(Route::post("/hello/:hello", handle_post_hello))
        .build();

    let (handler, params) = router.find_handler(Method::Patch, "/hello/hello");
    assert!(*handler as Handler == handle_patch_hello as Handler);
    assert_eq!(params.get("hello").unwrap(), &"hello".to_string());
}

#[test]
fn test_method_not_supported_with_parametric_path() {
    let router = builder()
        .method_not_supported(handle_method_not_supported)
        .add(Route::post("/foo/:id", handle_get_foo))
        .add(Route::get("/foo/:id", handle_get_foo))
        .build();

    {
        let (handler, params) = router.find_handler(Method::Put, "/foo/999");
        assert!(*handler as Handler == handle_method_not_supported as Handler);
        assert_eq!(params.len(), 1);
        assert_eq!(params.get("id").unwrap(), &"999".to_string());
    }
    {
        // the router must check all routes before assuming the method is not
        // supported
        let (handler, params) = router.find_handler(Method::Get, "/foo/123");
        assert!(*handler as Handler == handle_get_foo as Handler);
        assert_eq!(params.len(), 1);
        assert_eq!(params.get("id").unwrap(), &"123".to_string());
    }
}

#[test]
fn parameters_test_route_not_found() {
    let router = builder()
        .not_found(handle_not_found)
        .add(Route::patch("/foo/:id", handle_get_foo))
        .add(Route::patch("/bar/:id", handle_get_bar))
        .build();

    let (handler, params) = router.find_handler(Method::Get, "/notfound/77");
    assert!(*handler as Handler == handle_not_found as Handler);
    assert_eq!(params.len(), 0);
}
