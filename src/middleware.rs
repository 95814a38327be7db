//! Ready-made hooks: an allowlist and a denylist of tools, the error type
//! hooks return, and the record an audit hook keeps.

use vstd::prelude::*;
use vstd::string::*;

use crate::hooks::ToolCallContext;
use crate::text::str_eq;

verus! {

/// Error returned by a hook.
#[derive(Debug, Clone, PartialEq, Eq)]
pub struct MiddlewareError {
    /// Error message.
    pub message: String,
    /// Whether the message is returned to the client.
    pub is_client_error: bool,
}

impl MiddlewareError {
    /// An error reported to the client.
    pub fn new(message: String) -> (r: Self)
        ensures
            r.message == message,
            r.is_client_error,
    {
        MiddlewareError { message, is_client_error: true }
    }

    /// An internal error, logged but not shown to the client.
    pub fn internal(message: String) -> (r: Self)
        ensures
            r.message == message,
            !r.is_client_error,
    {
        MiddlewareError { message, is_client_error: false }
    }
}

/// Hooks that do nothing.
#[derive(Debug, Clone, Copy, Default)]
pub struct NoOpHooks;

/// A hook that logs each tool call.
#[derive(Debug, Clone, Copy, Default)]
pub struct LoggingMiddleware;

/// One audited tool call.
#[derive(Debug, Clone, PartialEq, Eq)]
pub struct AuditEntry {
    /// Request id.
    pub request_id: String,
    /// Tool name.
    pub tool_name: String,
    /// When the call completed, in milliseconds since the Unix epoch.
    pub timestamp_ms: u64,
    /// How long it took, if it completed.
    pub duration_ms: Option<u64>,
    /// Whether it was blocked.
    pub blocked: bool,
    /// Whether its result was an error, if known.
    pub is_error: Option<bool>,
}

/// Some name of `names` has the view `name`.
pub open spec fn names_contain(names: Seq<String>, name: Seq<char>) -> bool {
    exists|i: int| 0 <= i < names.len() && (#[trigger] names[i])@ == name
}

pub fn contains_name(names: &Vec<String>, name: &str) -> (r: bool)
    ensures
        r == names_contain(names@, name@),
{
    let mut i: usize = 0;
    while i < names.len()
        invariant
            i <= names@.len(),
            forall|j: int| 0 <= j < i ==> (#[trigger] names@[j])@ != name@,
        decreases names@.len() - i,
    {
        if str_eq(names[i].as_str(), name) {
            return true;
        }
        i = i + 1;
    }
    false
}

/// Only lets through the tools it names.
#[derive(Debug, Clone)]
pub struct AllowlistMiddleware {
    allowed_tools: Vec<String>,
}

/// Blocks the tools it names.
#[derive(Debug, Clone)]
pub struct DenylistMiddleware {
    denied_tools: Vec<String>,
}

/// The reason given when a tool is not on the allowlist.
pub open spec fn not_allowed_reason(name: Seq<char>) -> Seq<char> {
    "Tool '"@ + name + "' is not in the allowlist"@
}

/// The reason given when a tool is on the denylist.
pub open spec fn denied_reason(name: Seq<char>) -> Seq<char> {
    "Tool '"@ + name + "' is blocked"@
}

impl AllowlistMiddleware {
    /// The allowed tool names.
    pub closed spec fn allowed_spec(&self) -> Seq<String> {
        self.allowed_tools@
    }

    /// An allowlist of `allowed`.
    pub fn new(allowed: Vec<String>) -> (r: Self)
        ensures
            r.allowed_spec() == allowed@,
    {
        AllowlistMiddleware { allowed_tools: allowed }
    }

    /// Whether the tool `name` is allowed.
    pub fn allows(&self, name: &str) -> (r: bool)
        ensures
            r == names_contain(self.allowed_spec(), name@),
    {
        contains_name(&self.allowed_tools, name)
    }

    /// Blocks the call unless its tool is allowed.
    pub fn before_tool_call<'a, A: Clone, M>(&self, ctx: &mut ToolCallContext<'a, A, M>)
        ensures
            names_contain(self.allowed_spec(), old(ctx).name_spec()@) ==> *final(ctx) == *old(ctx),
            !names_contain(self.allowed_spec(), old(ctx).name_spec()@) ==> final(ctx).blocked_spec()
                && final(ctx).block_reason_spec() is Some && final(ctx).block_reason_spec()->0@
                == not_allowed_reason(old(ctx).name_spec()@),
            final(ctx).name_spec() == old(ctx).name_spec(),
            final(ctx).current() == old(ctx).current(),
            final(ctx).modified() == old(ctx).modified(),
    {
        if !contains_name(&self.allowed_tools, ctx.name().as_str()) {
            let mut reason = String::from_str("Tool '");
            reason.append(ctx.name().as_str());
            reason.append("' is not in the allowlist");
            ctx.block(reason);
        }
    }
}

impl DenylistMiddleware {
    /// The denied tool names.
    pub closed spec fn denied_spec(&self) -> Seq<String> {
        self.denied_tools@
    }

    /// A denylist of `denied`.
    pub fn new(denied: Vec<String>) -> (r: Self)
        ensures
            r.denied_spec() == denied@,
    {
        DenylistMiddleware { denied_tools: denied }
    }

    /// Whether the tool `name` is allowed.
    pub fn allows(&self, name: &str) -> (r: bool)
        ensures
            r == !names_contain(self.denied_spec(), name@),
    {
        !contains_name(&self.denied_tools, name)
    }

    /// Blocks the call if its tool is denied.
    pub fn before_tool_call<'a, A: Clone, M>(&self, ctx: &mut ToolCallContext<'a, A, M>)
        ensures
            !names_contain(self.denied_spec(), old(ctx).name_spec()@) ==> *final(ctx) == *old(ctx),
            names_contain(self.denied_spec(), old(ctx).name_spec()@) ==> final(ctx).blocked_spec()
                && final(ctx).block_reason_spec() is Some && final(ctx).block_reason_spec()->0@
                == denied_reason(old(ctx).name_spec()@),
            final(ctx).name_spec() == old(ctx).name_spec(),
            final(ctx).current() == old(ctx).current(),
            final(ctx).modified() == old(ctx).modified(),
    {
        if contains_name(&self.denied_tools, ctx.name().as_str()) {
            let mut reason = String::from_str("Tool '");
            reason.append(ctx.name().as_str());
            reason.append("' is blocked");
            ctx.block(reason);
        }
    }
}

/// A call at time `t` is within `window` of `now` (a call stamped after
/// `now` counts as just made).
pub open spec fn within_window(now: u64, window: u64) -> spec_fn(u64) -> bool {
    |t: u64| (if now >= t { now - t } else { 0 }) < window
}

/// Lets through at most `max_calls` calls per sliding window.
#[derive(Debug, Clone)]
pub struct RateLimitMiddleware {
    max_calls: usize,
    window_ms: u64,
    calls: Vec<u64>,
}

impl RateLimitMiddleware {
    /// Maximum calls per window.
    pub closed spec fn max_calls_spec(&self) -> nat {
        self.max_calls as nat
    }

    /// Window length in milliseconds.
    pub closed spec fn window_spec(&self) -> u64 {
        self.window_ms
    }

    /// Times of the accepted calls still remembered.
    pub closed spec fn calls_spec(&self) -> Seq<u64> {
        self.calls@
    }

    /// A limiter of `max_calls` per `window_ms` milliseconds, with no call yet.
    pub fn new(max_calls: usize, window_ms: u64) -> (r: Self)
        ensures
            r.max_calls_spec() == max_calls,
            r.window_spec() == window_ms,
            r.calls_spec().len() == 0,
    {
        RateLimitMiddleware { max_calls, window_ms, calls: Vec::new() }
    }

    /// Forgets the calls outside the window ending at `now_ms`, then lets a
    /// call at `now_ms` through if fewer than the maximum remain, and
    /// remembers it.
    pub fn try_acquire(&mut self, now_ms: u64) -> (r: bool)
        ensures
            final(self).max_calls_spec() == old(self).max_calls_spec(),
            final(self).window_spec() == old(self).window_spec(),
            r == (old(self).calls_spec().filter(within_window(now_ms, old(self).window_spec())).len()
                < old(self).max_calls_spec()),
            final(self).calls_spec() == if r {
                old(self).calls_spec().filter(within_window(now_ms, old(self).window_spec())).push(
                    now_ms,
                )
            } else {
                old(self).calls_spec().filter(within_window(now_ms, old(self).window_spec()))
            },
    {
        let ghost pred = within_window(now_ms, self.window_ms);
        let ghost all = self.calls@;
        let mut kept: Vec<u64> = Vec::new();
        let mut i: usize = 0;
        while i < self.calls.len()
            invariant
                self.calls@ == all,
                pred == within_window(now_ms, self.window_ms),
                i <= all.len(),
                kept@ == all.subrange(0, i as int).filter(pred),
            decreases all.len() - i,
        {
            let t = self.calls[i];
            let age = if now_ms >= t { now_ms - t } else { 0 };
            proof {
                reveal(Seq::filter);
                assert(all.subrange(0, i + 1 as int).drop_last() =~= all.subrange(0, i as int));
                assert(all.subrange(0, i + 1 as int).last() == t);
            }
            if age < self.window_ms {
                kept.push(t);
            }
            i = i + 1;
        }
        assert(all.subrange(0, all.len() as int) =~= all);
        self.calls = kept;
        if self.calls.len() >= self.max_calls {
            return false;
        }
        self.calls.push(now_ms);
        true
    }
}

} // verus!
