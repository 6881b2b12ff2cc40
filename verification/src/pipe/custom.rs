//! A pipe made from a callback.

use crate::fcgi_context::FcgiContext;
use crate::pipe::Pipe;
use vstd::prelude::*;

verus! {

/// Returns a new [`Pipe`] that executes the given callback when it runs.
///
/// This is a shortcut for defining a simple pipe without creating a new type and
/// implementing the trait. The callback has to take every context.
pub fn custom<F>(callback: F) -> (r: Custom<F>) where F: Fn(FcgiContext) -> Option<FcgiContext>
    requires
        forall|ctx: FcgiContext| call_requires(callback, (ctx,)),
    ensures
        r.spec_callback() == callback,
{
    Custom { callback }
}

/// See [`custom`]
pub struct Custom<F> where F: Fn(FcgiContext) -> Option<FcgiContext> {
    callback: F,
}

impl<F> Custom<F> where F: Fn(FcgiContext) -> Option<FcgiContext> {
    #[verifier::type_invariant]
    spec fn inv(&self) -> bool {
        forall|ctx: FcgiContext| call_requires(self.callback, (ctx,))
    }

    /// The callback that the pipe runs.
    pub closed spec fn spec_callback(&self) -> F {
        self.callback
    }
}

impl<F> Pipe for Custom<F> where F: Fn(FcgiContext) -> Option<FcgiContext> {
    /// The pipe returns what the callback returns.
    fn run(&self, ctx: FcgiContext) -> (r: Option<FcgiContext>)
        ensures
            call_ensures(self.spec_callback(), (ctx,), r),
    {
        proof {
            use_type_invariant(self);
        }
        (self.callback)(ctx)
    }
}

} // verus!
