//! Call-scoped capability tokens standing for the live query-evaluation
//! context.
//!
//! The evaluation context of a query pass is owned by the query engine and
//! has a lifetime tied to that pass.  Script-visible values must stay free of
//! lifetimes, so instead of a raw reference they carry a token issued by a
//! per-pass registry.  The registry issues a fresh token when an in-query
//! call starts and revokes it when the call returns; a stale token is
//! rejected by every later validity check.

use vstd::prelude::*;

verus! {

/// A capability token for the in-flight evaluation context.  It is only
/// meaningful to the registry that issued it, and only while that registry
/// keeps it live.
#[derive(PartialEq, Eq, Structural, Clone, Copy, Debug)]
pub struct ScriptEvalCtx {
    pub token: u64,
}

/// Issues and revokes context tokens for one evaluation pass.  At most one
/// token is live at a time, and a token number is never reused: once a token
/// has been revoked, no later operation can make it valid again.
pub struct EvalCtxRegistry {
    live: Option<u64>,
    next: u64,
}

impl EvalCtxRegistry {
    /// The token currently live, if any.
    pub closed spec fn live_token(&self) -> Option<u64> {
        self.live
    }

    /// The number the next issued token will carry.
    pub closed spec fn next_token(&self) -> u64 {
        self.next
    }

    /// Every live token was issued earlier, i.e. lies below `next`.
    pub closed spec fn wf(&self) -> bool {
        match self.live {
            Some(t) => t < self.next,
            None => true,
        }
    }

    pub open spec fn is_live(&self, t: u64) -> bool {
        self.live_token() == Some(t)
    }

    /// A fresh registry with no live token.
    pub fn new() -> (r: EvalCtxRegistry)
        ensures
            r.wf(),
            r.live_token() is None,
            r.next_token() == 0,
    {
        EvalCtxRegistry { live: None, next: 0 }
    }

    /// Issue a fresh token for the call that is about to start.  No other
    /// token may be in flight, and every token revoked earlier stays dead.
    pub fn issue(&mut self) -> (r: ScriptEvalCtx)
        requires
            old(self).wf(),
            old(self).live_token() is None,
            old(self).next_token() < u64::MAX,
        ensures
            final(self).wf(),
            r.token == old(self).next_token(),
            final(self).is_live(r.token),
            final(self).next_token() == old(self).next_token() + 1,
            forall|t: u64| t < old(self).next_token() ==> !final(self).is_live(t),
    {
        let t: u64 = self.next;
        self.next = self.next + 1;
        self.live = Some(t);
        ScriptEvalCtx { token: t }
    }

    /// Revoke the live token when the call returns.  Afterwards no token at
    /// all is valid, and `next` is unchanged, so the revoked number can never
    /// be issued again.
    pub fn revoke(&mut self)
        requires
            old(self).wf(),
        ensures
            final(self).wf(),
            final(self).live_token() is None,
            final(self).next_token() == old(self).next_token(),
            forall|t: u64| !final(self).is_live(t),
    {
        self.live = None;
    }

    /// Whether `ctx` may be dereferenced right now.  A token from an earlier,
    /// already finished call answers `false`.
    pub fn check(&self, ctx: &ScriptEvalCtx) -> (r: bool)
        ensures
            r == self.is_live(ctx.token),
    {
        match self.live {
            Some(t) => t == ctx.token,
            None => false,
        }
    }
}

} // verus!
