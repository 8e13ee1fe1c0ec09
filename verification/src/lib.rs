//! Request rate-limiting middleware for an HTTP client's pipeline.
//!
//! The crate provides a single extension point: a [`RateLimiter`] capability
//! with one operation, acquiring a permit, and a pass-through [`Middleware`]
//! wrapper that acquires exactly one permit per request and then forwards the
//! request and its metadata unchanged to the next pipeline stage, returning
//! that stage's result unchanged.

use vstd::prelude::*;

verus! {

/// Request rate limiter.
///
/// Implementors decide the admission policy (always-ready, token bucket,
/// pacing, ...); the middleware only promises to acquire exactly one permit
/// per request before forwarding it. The ghost count [`Self::permits_acquired`]
/// records how many permits the limiter has granted so far, so that callers
/// can state how many acquisitions a piece of code performs.
pub trait RateLimiter {
    /// How many permits this limiter has granted so far.
    spec fn permits_acquired(&self) -> nat;

    /// Acquires a permit to issue the next request, blocking until the
    /// limiter's policy admits it.
    fn acquire_permit(&mut self)
        ensures
            final(self).permits_acquired() == old(self).permits_acquired() + 1,
    ;
}

/// Request rate-limiting middleware.
///
/// Holds one owned rate limiter for its whole lifetime and gates each request
/// on one acquired permit before handing the request to the next stage.
pub struct Middleware<R> {
    rate_limiter: R,
}

/// Creates a new [`Middleware`] rate-limiting all requests using the provided
/// [`RateLimiter`].
pub fn all<R>(rate_limiter: R) -> (m: Middleware<R>)
    ensures
        m.rate_limiter() == rate_limiter,
{
    Middleware { rate_limiter }
}

impl<R> Middleware<R> {
    /// The wrapped rate limiter.
    pub closed spec fn rate_limiter(&self) -> R {
        self.rate_limiter
    }

    /// Borrows the wrapped rate limiter, e.g. to inspect its state.
    pub fn limiter(&self) -> (r: &R)
        ensures
            *r == self.rate_limiter(),
    {
        &self.rate_limiter
    }
}

impl<R: RateLimiter> Middleware<R> {
    /// Runs one request through this pipeline stage: acquires exactly one
    /// permit from the wrapped limiter, then forwards the request and its
    /// metadata unchanged to the next stage and returns that stage's result
    /// unchanged, success and failure alike.
    ///
    /// The next stage is the remainder of the pipeline, taken as a
    /// continuation from the request and its metadata to a result. The
    /// postcondition pins the pass-through down: the returned result is one
    /// the next stage itself can produce on exactly the request and metadata
    /// that were handed in, and the wrapped limiter granted exactly one more
    /// permit than before.
    pub fn handle<Req, Ext, Resp, E, F: FnOnce(Req, Ext) -> Result<Resp, E>>(
        &mut self,
        req: Req,
        extensions: Ext,
        next: F,
    ) -> (r: Result<Resp, E>)
        requires
            call_requires(next, (req, extensions)),
        ensures
            final(self).rate_limiter().permits_acquired()
                == old(self).rate_limiter().permits_acquired() + 1,
            call_ensures(next, (req, extensions), r),
    {
        self.rate_limiter.acquire_permit();
        next(req, extensions)
    }

    /// Runs a batch of requests through this pipeline stage, one after the
    /// other. Call-count law: sending `n` requests through the wrapper
    /// acquires exactly `n` permits — one per request, as
    /// [`Middleware::handle`] promises for each. Each request and its
    /// metadata are forwarded unchanged, and the result at each position is
    /// one the next stage itself can produce on exactly the request and
    /// metadata at that position.
    pub fn handle_all<Req, Ext, Resp, E, F: Fn(Req, Ext) -> Result<Resp, E>>(
        &mut self,
        requests: Vec<(Req, Ext)>,
        next: F,
    ) -> (results: Vec<Result<Resp, E>>)
        requires
            forall|i: int| 0 <= i < requests@.len() ==> call_requires(next, requests@[i]),
        ensures
            final(self).rate_limiter().permits_acquired()
                == old(self).rate_limiter().permits_acquired() + requests@.len(),
            results@.len() == requests@.len(),
            forall|i: int|
                0 <= i < requests@.len()
                    ==> call_ensures(next, requests@[i], #[trigger] results@[i]),
    {
        let ghost all_requests = requests@;
        let mut pending = requests;
        let mut results: Vec<Result<Resp, E>> = Vec::new();
        while pending.len() > 0
            invariant
                results@.len() + pending@.len() == all_requests.len(),
                pending@ == all_requests.skip(results@.len() as int),
                forall|i: int| 0 <= i < all_requests.len()
                    ==> call_requires(next, all_requests[i]),
                forall|i: int| 0 <= i < results@.len()
                    ==> call_ensures(next, all_requests[i], #[trigger] results@[i]),
                self.rate_limiter().permits_acquired()
                    == old(self).rate_limiter().permits_acquired() + results@.len(),
            decreases pending@.len(),
        {
            let ghost done = results@.len() as int;
            let (req, extensions) = pending.remove(0);
            assert(all_requests.skip(done)[0] == all_requests[done]);
            self.rate_limiter.acquire_permit();
            let r = next(req, extensions);
            results.push(r);
            proof {
                assert(pending@ =~= all_requests.skip(done + 1));
            }
        }
        results
    }
}

/// Error pass-through law: if the next stage can only fail with a given error
/// on the forwarded request and metadata, then any result the middleware
/// returned for that request — which [`Middleware::handle`] guarantees is a
/// result of the next stage on the unchanged request and metadata — is
/// exactly that failure, unmodified.
pub proof fn lemma_error_pass_through<Req, Ext, Resp, E, F: FnOnce(Req, Ext) -> Result<Resp, E>>(
    next: F,
    req: Req,
    extensions: Ext,
    r: Result<Resp, E>,
    e: E,
)
    requires
        call_ensures(next, (req, extensions), r),
        forall|out: Result<Resp, E>|
            call_ensures(next, (req, extensions), out) ==> out == Result::<Resp, E>::Err(e),
    ensures
        r == Result::<Resp, E>::Err(e),
{
}

/// Success pass-through law: if the next stage can only succeed with a given
/// value on the forwarded request and metadata, then any result the
/// middleware returned for that request — which [`Middleware::handle`]
/// guarantees is a result of the next stage on the unchanged request and
/// metadata — is exactly that success value, unmodified.
pub proof fn lemma_success_pass_through<Req, Ext, Resp, E, F: FnOnce(Req, Ext) -> Result<Resp, E>>(
    next: F,
    req: Req,
    extensions: Ext,
    r: Result<Resp, E>,
    resp: Resp,
)
    requires
        call_ensures(next, (req, extensions), r),
        forall|out: Result<Resp, E>|
            call_ensures(next, (req, extensions), out) ==> out == Result::<Resp, E>::Ok(resp),
    ensures
        r == Result::<Resp, E>::Ok(resp),
{
}

/// A rate limiter that admits every request immediately.
///
/// The permit count is ghost bookkeeping only; at run time acquiring a permit
/// does nothing.
pub struct NoopRateLimiter {
    permits: Ghost<nat>,
}

impl NoopRateLimiter {
    /// Creates an always-ready limiter that has granted no permits yet.
    pub fn new() -> (r: NoopRateLimiter)
        ensures
            r.permits_acquired() == 0,
    {
        NoopRateLimiter { permits: Ghost(0nat) }
    }
}

impl RateLimiter for NoopRateLimiter {
    closed spec fn permits_acquired(&self) -> nat {
        self.permits@
    }

    fn acquire_permit(&mut self) {
        proof {
            self.permits@ = self.permits@ + 1;
        }
    }
}

/// A rate limiter that admits every request immediately and counts how many
/// permits it has granted, saturating at `u64::MAX`.
pub struct CountingRateLimiter {
    count: u64,
    permits: Ghost<nat>,
}

impl CountingRateLimiter {
    #[verifier::type_invariant]
    spec fn wf(&self) -> bool {
        if self.permits@ <= u64::MAX as nat {
            self.count as nat == self.permits@
        } else {
            self.count == u64::MAX
        }
    }

    /// Creates a counting limiter that has granted no permits yet.
    pub fn new() -> (r: CountingRateLimiter)
        ensures
            r.permits_acquired() == 0,
    {
        CountingRateLimiter { count: 0, permits: Ghost(0nat) }
    }

    /// The number of permits granted so far, saturating at `u64::MAX`.
    pub fn count(&self) -> (c: u64)
        ensures
            c as nat == (if self.permits_acquired() <= u64::MAX as nat {
                self.permits_acquired()
            } else {
                u64::MAX as nat
            }),
    {
        proof {
            use_type_invariant(self);
        }
        self.count
    }
}

impl RateLimiter for CountingRateLimiter {
    closed spec fn permits_acquired(&self) -> nat {
        self.permits@
    }

    fn acquire_permit(&mut self) {
        proof {
            use_type_invariant(&*self);
        }
        let new_count: u64 = if self.count < u64::MAX {
            self.count + 1
        } else {
            u64::MAX
        };
        let ghost new_permits: nat = self.permits@ + 1;
        *self = CountingRateLimiter { count: new_count, permits: Ghost(new_permits) };
    }
}

} // verus!
