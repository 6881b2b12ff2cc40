use vintage::context::{Request, Response};
use vintage::record::pairs::Pairs;
use vintage::router::Routes;

type Handler = Box<dyn Fn(Request, Pairs) -> Response>;

fn make_request(method: &str, path: &str) -> Request {
    Request::new(
        method.into(),
        path.into(),
        String::new(),
        Pairs::new(),
        vec![],
    )
}

fn register(routes: Routes<Handler>, method: &str, paths: &[&str], handler: Handler) -> Routes<Handler> {
    match routes.register(method, paths, handler) {
        Some(routes) => routes,
        None => panic!("the paths should be taken"),
    }
}

#[test]
fn non_matching_method() {
    let router = register(
        Routes::new(),
        "GET",
        &["/path"],
        Box::new(move |_req, _params| Response::default()),
    );

    let request = make_request("POST", "/path");
    let response = router.respond(request);

    assert_eq!(response.ok(), None);
}

#[test]
fn non_matching_path() {
    let router = register(
        Routes::new(),
        "GET",
        &["/path"],
        Box::new(move |_req, _params| Response::default()),
    );

    let request = make_request("GET", "/rong");
    let response = router.respond(request);

    assert_eq!(response.ok(), None);
}

#[test]
fn router_implementing_trailing_slash() {
    let router = register(
        Routes::new(),
        "GET",
        &["/path/", "/path"],
        Box::new(move |_req, _params| Response::default().set_status(100)),
    );

    let request1 = make_request("GET", "/path");
    let request2 = make_request("GET", "/path/");

    let response1 = router.respond(request1).unwrap();
    let response2 = router.respond(request2).unwrap();

    assert_eq!(response1, Response::default().set_status(100));
    assert_eq!(response2, Response::default().set_status(100));
}

#[test]
fn router_wildcard_matching() {
    let router = register(
        Routes::new(),
        "GET",
        &["/path/{*rest}"],
        Box::new(move |_req, params| Response::default().set_body(params.get("rest").unwrap())),
    );

    let request = make_request("GET", "/path/a/b/c");
    let response = router.respond(request).unwrap();

    assert_eq!(response, Response::default().set_body("a/b/c"));
}

#[test]
fn router_segment_matching() {
    let router = register(
        Routes::new(),
        "GET",
        &["/path/{id}/rest"],
        Box::new(move |_req, params| Response::default().set_body(params.get("id").unwrap())),
    );

    let request = make_request("GET", "/path/2/rest");

    let response = router.respond(request).unwrap();

    assert_eq!(response, Response::default().set_body(&String::from("2")));
}

#[test]
fn an_unmatched_request_is_handed_back() {
    let router = register(
        Routes::new(),
        "GET",
        &["/path"],
        Box::new(move |_req, _params| Response::default()),
    );
    let request = make_request("GET", "/other");
    assert_eq!(router.respond(request.clone()), Err(request));
}

#[test]
fn several_methods_and_handlers() {
    let mut router: Routes<Handler> = Routes::new();
    router = register(
        router,
        "GET",
        &["/a", "/b/{x}"],
        Box::new(|_req, params| Response::text(params.get("x").unwrap_or("get"))),
    );
    router = register(
        router,
        "POST",
        &["/a"],
        Box::new(|req, _params| Response::text(req.method())),
    );
    router = register(
        router,
        "GET",
        &["/c/{x}/{y}"],
        Box::new(|_req, params| {
            assert_eq!(params.len(), 2);
            assert_eq!(params.name_at(0), "x");
            assert_eq!(params.name_at(1), "y");
            Response::text(&format!(
                "{}-{}",
                params.get("x").unwrap(),
                params.get("y").unwrap()
            ))
        }),
    );
    assert_eq!(
        router.respond(make_request("GET", "/a")).unwrap(),
        Response::text("get")
    );
    assert_eq!(
        router.respond(make_request("GET", "/b/7")).unwrap(),
        Response::text("7")
    );
    assert_eq!(
        router.respond(make_request("POST", "/a")).unwrap(),
        Response::text("POST")
    );
    assert_eq!(
        router.respond(make_request("GET", "/c/1/2")).unwrap(),
        Response::text("1-2")
    );
    assert!(router.respond(make_request("POST", "/b/7")).is_err());
    assert!(router.respond(make_request("PUT", "/a")).is_err());
    assert!(router.route("GET", "/a").is_some());
    assert!(router.route("GET", "/nowhere").is_none());
}

#[test]
fn paths_that_are_not_taken() {
    let handler = || -> Handler { Box::new(|_req, _params| Response::default()) };
    // the same path twice
    let router: Routes<Handler> = Routes::new();
    assert!(router.register("GET", &["/a", "/a"], handler()).is_none());
    // a path that clashes with one registered before
    let router = register(Routes::new(), "GET", &["/a/{x}"], handler());
    assert!(router.register("GET", &["/a/{y}"], handler()).is_none());
    // a path that is not well formed
    let router: Routes<Handler> = Routes::new();
    assert!(router.register("GET", &["/a/{x"], handler()).is_none());
    // the same path under another method is no clash
    let router = register(Routes::new(), "GET", &["/a"], handler());
    assert!(router.register("POST", &["/a"], handler()).is_some());
}

#[test]
fn a_path_with_too_many_parameters_is_not_taken() {
    let handler = || -> Handler { Box::new(|_req, params| Response::text(&params.len().to_string())) };
    let names: Vec<String> = (0..26).map(|i| format!("/{{p{i}}}")).collect();
    let path25 = names[..25].concat();
    let path26 = names.concat();
    let router = register(Routes::new(), "GET", &[path25.as_str()], handler());
    let request_path: String = (0..25).map(|i| format!("/{i}")).collect();
    assert_eq!(
        router.respond(make_request("GET", &request_path)).unwrap(),
        Response::text("25")
    );
    let router: Routes<Handler> = Routes::new();
    assert!(router.register("GET", &[path26.as_str()], handler()).is_none());
}
