//! Composing FastCGI requests
//!
//! You can view the handling of a FastCGI request as pipeline, or sequence of steps.
//! Each step may either modify and return the request context, or fail.
//! The `Pipe` trait encapsulates this behavior.
//!
//! You are not limited to the pipes defined in this module as it is easy to
//! implement your own.

pub mod custom;

use crate::fcgi_context::FcgiContext;
use vstd::prelude::*;

verus! {

/// A trait for processing FastCGI requests in a composable way.
///
/// The logic to be executed during a request goes into `run`, which returns `None`
/// where the pipe fails.
pub trait Pipe: Sized {
    /// Runs the pipe logic.
    /// Pipes indicate failure by returning `None`.
    fn run(&self, ctx: FcgiContext) -> (r: Option<FcgiContext>);
}

/// True when `pipe`, run on `ctx`, may return `out`.
pub open spec fn yields<P: Pipe>(pipe: &P, ctx: FcgiContext, out: Option<FcgiContext>) -> bool {
    call_ensures(P::run, (pipe, ctx), out)
}

/// Putting pipes together. Every pipe can be chained.
pub trait Chain: Pipe {
    /// Expresses a sequence of pipes
    ///
    /// Returns a new pipe that will run this pipe and the `other` pipe in sequence,
    /// providing the result of running this pipe as arguments to the `other` pipe.
    /// If this pipe fails, the `other` pipe does not run.
    fn and<P: Pipe>(self, other: P) -> (r: And<Self, P>)
        ensures
            r == (And { first: self, second: other }),
    ;

    /// Expresses an alternate pipe
    ///
    /// Returns a new pipe that will return the result of running this pipe.
    /// If this pipe fails, the other pipe is tried.
    fn or<P: Pipe>(self, other: P) -> (r: Or<Self, P>)
        ensures
            r == (Or { first: self, second: other }),
    ;
}

impl<T: Pipe> Chain for T {
    fn and<P: Pipe>(self, other: P) -> (r: And<T, P>) {
        And { first: self, second: other }
    }

    fn or<P: Pipe>(self, other: P) -> (r: Or<T, P>) {
        Or { first: self, second: other }
    }
}

/// Expresses an optional pipe.
///
/// Returns a new pipe that will try to run `inner` and return its result.
/// Should `inner` fail, the context comes back as it was
pub fn optional<P: Pipe>(inner: P) -> (r: Optional<P>)
    ensures
        r == (Optional { pipe: inner }),
{
    Optional { pipe: inner }
}

/// See [`Pipe::and`]
pub struct And<First, Second> {
    pub first: First,
    pub second: Second,
}

/// See [`Pipe::or`]
pub struct Or<First, Second> {
    pub first: First,
    pub second: Second,
}

/// See [`optional`]
pub struct Optional<P> {
    pub pipe: P,
}

impl<First, Second> Pipe for And<First, Second> where First: Pipe, Second: Pipe {
    /// The second pipe runs on what the first returned, if it returned anything.
    fn run(&self, ctx: FcgiContext) -> (r: Option<FcgiContext>)
        ensures
            exists|between: Option<FcgiContext>| #[trigger]
                yields(&self.first, ctx, between) && match between {
                    Some(passed) => yields(&self.second, passed, r),
                    None => r is None,
                },
    {
        let between = self.first.run(ctx);
        assert(yields(&self.first, ctx, between));
        match between {
            Some(passed) => self.second.run(passed),
            None => None,
        }
    }
}

impl<First, Second> Pipe for Or<First, Second> where First: Pipe, Second: Pipe {
    /// The first pipe runs on a copy of the context; where it fails, the second
    /// runs on the context itself.
    fn run(&self, ctx: FcgiContext) -> (r: Option<FcgiContext>)
        ensures
            exists|copy: FcgiContext, tried: Option<FcgiContext>|
                copy@ == ctx@ && #[trigger] yields(&self.first, copy, tried) && match tried {
                    Some(_) => r == tried,
                    None => yields(&self.second, ctx, r),
                },
    {
        let cloned = ctx.clone();
        let tried = self.first.run(cloned);
        assert(yields(&self.first, cloned, tried));
        match tried {
            Some(result) => Some(result),
            None => self.second.run(ctx),
        }
    }
}

impl<P> Pipe for Optional<P> where P: Pipe {
    /// The pipe runs on a copy of the context; where it fails, the context itself
    /// comes out.
    fn run(&self, ctx: FcgiContext) -> (r: Option<FcgiContext>)
        ensures
            exists|copy: FcgiContext, tried: Option<FcgiContext>|
                copy@ == ctx@ && #[trigger] yields(&self.pipe, copy, tried) && match tried {
                    Some(_) => r == tried,
                    None => r == Some(ctx),
                },
    {
        let cloned = ctx.clone();
        let tried = self.pipe.run(cloned);
        assert(yields(&self.pipe, cloned, tried));
        match tried {
            Some(result) => Some(result),
            None => Some(ctx),
        }
    }
}

} // verus!
