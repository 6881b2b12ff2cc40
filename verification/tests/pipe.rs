use vintage::fcgi_context::FcgiContext;
use vintage::pipe::custom::custom;
use vintage::pipe::{optional, Chain, Pipe};
use vintage::record::pairs::Pairs;

// Two simple pipes for testing.
// One pipe only succeeds if the request method is "GET".
// The other pipe only succeeds if the request path is "/path".
//
// Both pipes leave a mark in the response headers so it is possible to tell which
// of them succeeded.

struct MethodPipe;
struct PathPipe;

impl Pipe for MethodPipe {
    fn run(&self, ctx: FcgiContext) -> Option<FcgiContext> {
        if ctx.method() == "GET" {
            Some(ctx.with_header("Method-Pipe-Executed", "yes"))
        } else {
            None
        }
    }
}

impl Pipe for PathPipe {
    fn run(&self, ctx: FcgiContext) -> Option<FcgiContext> {
        if ctx.path() == "/path" {
            Some(ctx.with_header("Path-Pipe-Executed", "yes"))
        } else {
            None
        }
    }
}

fn context(method: &str, path: &str) -> FcgiContext {
    FcgiContext::of_request(method, path, Pairs::new(), Pairs::new(), vec![])
}

#[test]
fn pipe_and() {
    let pipe = MethodPipe.and(PathPipe);

    // Both fail.
    let ctx = FcgiContext::new();
    let result = pipe.run(ctx);
    assert!(result.is_none());

    // First succeeds, second fails
    let ctx = context("GET", "");
    let result = pipe.run(ctx);
    assert!(result.is_none());

    // Both succeed
    let ctx = context("GET", "/path");
    let result = pipe.run(ctx).unwrap();
    assert!(matches!(result.response_header("Method-Pipe-Executed"), Some(_)));
    assert!(matches!(result.response_header("Path-Pipe-Executed"), Some(_)));
}

#[test]
fn pipe_or() {
    let pipe = MethodPipe.or(PathPipe);

    // Both fail
    let ctx = FcgiContext::new();
    let result = pipe.run(ctx);
    assert!(result.is_none());

    // First succeeds, second does not get run
    let ctx = context("GET", "");
    let result = pipe.run(ctx).unwrap();
    assert!(matches!(result.response_header("Method-Pipe-Executed"), Some(_)));
    assert!(matches!(result.response_header("Path-Pipe-Executed"), None));

    // First fails, second succeeds
    let ctx = context("", "/path");
    let result = pipe.run(ctx).unwrap();
    assert!(matches!(result.response_header("Method-Pipe-Executed"), None));
    assert!(matches!(result.response_header("Path-Pipe-Executed"), Some(_)));
}

#[test]
fn optional_pipe() {
    let pipe = optional(MethodPipe).and(PathPipe);

    // First fails, second still runs
    let ctx = context("", "/path");

    let result = pipe.run(ctx).unwrap();

    assert!(matches!(result.response_header("Method-Pipe-Executed"), None));
    assert!(matches!(result.response_header("Path-Pipe-Executed"), Some(_)));
}

#[test]
fn custom_pipe() {
    let pipe = custom(|ctx: FcgiContext| {
        if ctx.path() == "/teapot" {
            Some(ctx.with_status(418))
        } else {
            None
        }
    });
    assert!(pipe.run(context("GET", "/")).is_none());
    let result = pipe.run(context("GET", "/teapot")).unwrap();
    assert_eq!(result.response_header("Status"), Some("418"));

    let either = custom(|_ctx: FcgiContext| None).or(custom(|ctx: FcgiContext| Some(ctx.with_body("late"))));
    let result = either.run(context("GET", "/")).unwrap();
    let mut bytes = vec![];
    result.write_stdout_bytes(&mut bytes);
    assert_eq!(bytes, b"\nlate");
}
