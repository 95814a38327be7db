//! The hook pipeline around a tool call: the per-call context that hooks
//! read and change (with copy-on-write arguments), the order in which the
//! dispatcher runs the hooks and the engine, and the blocked result.

use vstd::prelude::*;
use vstd::string::*;

use crate::manifest::{first_some, lemma_first_some_found};

verus! {

/// Context handed to the hooks before a tool call. The arguments are
/// borrowed from the request and only copied when a hook asks to change them.
pub struct ToolCallContext<'a, A, M> {
    /// The tool being called.
    pub tool_name: String,
    arguments: Option<A>,
    original_arguments: &'a Option<A>,
    arguments_modified: bool,
    /// Data the hooks share, threaded through to the after hooks.
    pub metadata: M,
    /// Set to stop the call.
    pub blocked: bool,
    /// Why the call was stopped, returned to the client.
    pub block_reason: Option<String>,
}

/// `b` is a clone of `a`.
pub open spec fn option_cloned<A: Clone>(a: Option<A>, b: Option<A>) -> bool {
    match a {
        None => b is None,
        Some(x) => b is Some && cloned::<A>(x, b->0),
    }
}

impl<'a, A: Clone, M> ToolCallContext<'a, A, M> {
    /// The tool being called.
    pub closed spec fn name_spec(&self) -> String {
        self.tool_name
    }

    /// The shared metadata.
    pub closed spec fn metadata_spec(&self) -> M {
        self.metadata
    }

    /// Whether the call is stopped.
    pub closed spec fn blocked_spec(&self) -> bool {
        self.blocked
    }

    /// Why the call is stopped.
    pub closed spec fn block_reason_spec(&self) -> Option<String> {
        self.block_reason
    }

    /// Whether a hook took the arguments for change.
    pub closed spec fn modified(&self) -> bool {
        self.arguments_modified
    }

    /// The request's own arguments.
    pub closed spec fn original(&self) -> Option<A> {
        *self.original_arguments
    }

    /// The arguments the hooks see now: the request's own until a hook takes
    /// them for change, the changed copy afterwards.
    pub closed spec fn current(&self) -> Option<A> {
        if self.arguments_modified {
            self.arguments
        } else {
            *self.original_arguments
        }
    }

    /// A context for a call of `tool_name` that borrows `arguments`.
    pub fn from_params(tool_name: String, arguments: &'a Option<A>, metadata: M) -> (r: Self)
        ensures
            r.name_spec() == tool_name,
            !r.modified(),
            r.original() == *arguments,
            r.current() == *arguments,
            r.metadata_spec() == metadata,
            !r.blocked_spec(),
            r.block_reason_spec() is None,
    {
        ToolCallContext {
            tool_name,
            arguments: None,
            original_arguments: arguments,
            arguments_modified: false,
            metadata,
            blocked: false,
            block_reason: None,
        }
    }

    /// The current arguments, without copying them.
    pub fn arguments(&self) -> (r: Option<&A>)
        ensures
            match self.current() {
                Some(a) => r == Some(&a),
                None => r is None,
            },
    {
        if self.arguments_modified {
            self.arguments.as_ref()
        } else {
            self.original_arguments.as_ref()
        }
    }

    /// The arguments for change; the first such access copies them from the
    /// request.
    pub fn arguments_mut(&mut self) -> (r: &mut Option<A>)
        ensures
            old(self).modified() ==> *r == old(self).current(),
            !old(self).modified() ==> option_cloned(old(self).original(), *r),
            final(self).modified(),
            final(self).current() == *final(r),
            final(self).original() == old(self).original(),
            final(self).name_spec() == old(self).name_spec(),
            final(self).metadata_spec() == old(self).metadata_spec(),
            final(self).blocked_spec() == old(self).blocked_spec(),
            final(self).block_reason_spec() == old(self).block_reason_spec(),
    {
        if !self.arguments_modified {
            self.arguments = self.original_arguments.clone();
            self.arguments_modified = true;
        }
        &mut self.arguments
    }

    /// The tool being called.
    pub fn name(&self) -> (r: &String)
        ensures
            *r == self.name_spec(),
    {
        &self.tool_name
    }

    /// Whether a hook took the arguments for change.
    pub fn arguments_were_modified(&self) -> (r: bool)
        ensures
            r == self.modified(),
    {
        self.arguments_modified
    }

    /// The reason given to the client for a stopped call: the one a hook set,
    /// else `Blocked by hook`.
    pub fn block_reason_or_default(&self) -> (r: String)
        ensures
            r@ == match self.block_reason_spec() {
                Some(reason) => reason@,
                None => "Blocked by hook"@,
            },
    {
        match &self.block_reason {
            Some(reason) => reason.clone(),
            None => String::from_str("Blocked by hook"),
        }
    }

    /// Stops the call with `reason`.
    pub fn block(&mut self, reason: String)
        ensures
            final(self).blocked_spec(),
            final(self).block_reason_spec() == Some(reason),
            final(self).modified() == old(self).modified(),
            final(self).current() == old(self).current(),
            final(self).original() == old(self).original(),
            final(self).name_spec() == old(self).name_spec(),
            final(self).metadata_spec() == old(self).metadata_spec(),
    {
        self.blocked = true;
        self.block_reason = Some(reason);
    }

    /// The changed arguments, or `None` when no hook took them for change, in
    /// which case the request's own arguments go to the engine untouched.
    pub fn take_modified_arguments(self) -> (r: Option<Option<A>>)
        ensures
            self.modified() ==> r == Some(self.current()),
            !self.modified() ==> r is None,
    {
        if self.arguments_modified {
            Some(self.arguments)
        } else {
            None
        }
    }

    /// Hands the metadata on to the context of the after hooks.
    pub fn into_result_context<R>(self, result: R, duration_ms: u64) -> (r: ToolResultContext<R, M>)
        ensures
            r.tool_name == self.name_spec(),
            r.result == result,
            r.metadata == self.metadata_spec(),
            r.duration_ms == duration_ms,
    {
        ToolResultContext { tool_name: self.tool_name, result, metadata: self.metadata, duration_ms }
    }
}

/// Copy-on-write arguments: as long as no hook took the arguments for
/// change (only `arguments_mut` does), the arguments the hooks see are the
/// request's own, and `take_modified_arguments` hands the engine nothing
/// else, so the request's arguments go to it by reference.
pub proof fn lemma_unmodified_arguments_are_the_request<'a, A: Clone, M>(
    ctx: ToolCallContext<'a, A, M>,
)
    requires
        !ctx.modified(),
    ensures
        ctx.current() == ctx.original(),
{
}

/// Context handed to the hooks after a tool call.
pub struct ToolResultContext<R, M> {
    /// The tool that was called.
    pub tool_name: String,
    /// Its result, which the hooks may change.
    pub result: R,
    /// The metadata the before hooks left.
    pub metadata: M,
    /// How long the call took, in milliseconds.
    pub duration_ms: u64,
}

/// What the dispatcher answers to a blocked call.
#[derive(Debug, Clone, PartialEq, Eq)]
pub struct BlockedResult {
    /// The single text content.
    pub text: String,
    /// Always set: a blocked call is an error result.
    pub is_error: bool,
}

/// The answer to a call blocked for `reason`: the text
/// `Tool call blocked: <reason>`, flagged as an error.
pub fn blocked_result(reason: &str) -> (r: BlockedResult)
    ensures
        r.text@ == "Tool call blocked: "@ + reason@,
        r.is_error,
{
    let mut text = String::from_str("Tool call blocked: ");
    text.append(reason);
    BlockedResult { text, is_error: true }
}

// ----- order of hooks and engine -----

/// Where a tool call stands.
#[derive(Debug, Clone, Copy, PartialEq, Eq, Structural)]
pub enum CallStep {
    /// Run the before hook at this index.
    Before(usize),
    /// Run the tool.
    Engine,
    /// Run the after hook at this index.
    After(usize),
    /// A before hook blocked the call: answer with the blocked result.
    Blocked,
    /// A before hook failed: answer with its failure.
    Failed,
    /// Answer with the tool's result.
    Done,
}

/// What a before hook did.
#[derive(Debug, Clone, Copy, PartialEq, Eq, Structural)]
pub enum HookOutcome {
    /// It returned normally and did not block.
    Proceed,
    /// It blocked the call.
    Block,
    /// It returned a failure.
    Fail,
}

/// First step of a call through `n` hooks.
pub open spec fn first_step(n: nat) -> CallStep {
    if n > 0 {
        CallStep::Before(0)
    } else {
        CallStep::Engine
    }
}

/// Step after the before hook `i` of `n` answered `o`.
pub open spec fn step_after_before(n: nat, i: nat, o: HookOutcome) -> CallStep {
    match o {
        HookOutcome::Proceed => if i + 1 < n {
            CallStep::Before((i + 1) as usize)
        } else {
            CallStep::Engine
        },
        HookOutcome::Block => CallStep::Blocked,
        HookOutcome::Fail => CallStep::Failed,
    }
}

/// Step after the tool ran, with `n` hooks: the last hook unwinds first.
pub open spec fn step_after_engine(n: nat) -> CallStep {
    if n > 0 {
        CallStep::After((n - 1) as usize)
    } else {
        CallStep::Done
    }
}

/// Step after the after hook `i` ran, whatever it returned.
pub open spec fn step_after_after(i: nat) -> CallStep {
    if i > 0 {
        CallStep::After((i - 1) as usize)
    } else {
        CallStep::Done
    }
}

/// The order of one tool call through a stack of hooks.
pub struct CallPipeline {
    hooks: usize,
    step: CallStep,
}

impl CallPipeline {
    /// Number of hooks.
    pub closed spec fn hooks_spec(&self) -> nat {
        self.hooks as nat
    }

    /// Current step.
    pub closed spec fn step_spec(&self) -> CallStep {
        self.step
    }

    /// Well-formed: a hook index is below the number of hooks.
    pub closed spec fn wf(&self) -> bool {
        match self.step {
            CallStep::Before(i) => i < self.hooks,
            CallStep::After(i) => i < self.hooks,
            _ => true,
        }
    }

    /// A call through `hooks` hooks, about to run the first before hook (or
    /// the tool when there is none).
    pub fn new(hooks: usize) -> (r: Self)
        ensures
            r.wf(),
            r.hooks_spec() == hooks,
            r.step_spec() == first_step(hooks as nat),
    {
        CallPipeline { hooks, step: if hooks > 0 { CallStep::Before(0) } else { CallStep::Engine } }
    }

    /// What to do now.
    pub fn step(&self) -> (r: CallStep)
        ensures
            r == self.step_spec(),
    {
        self.step
    }

    /// The before hook that ran answered `outcome`.
    pub fn before_returned(&mut self, outcome: HookOutcome)
        requires
            old(self).wf(),
            old(self).step_spec() is Before,
        ensures
            final(self).wf(),
            final(self).hooks_spec() == old(self).hooks_spec(),
            final(self).step_spec() == step_after_before(
                old(self).hooks_spec(),
                old(self).step_spec()->Before_0 as nat,
                outcome,
            ),
    {
        if let CallStep::Before(i) = self.step {
            self.step = match outcome {
                HookOutcome::Proceed => if i + 1 < self.hooks {
                    CallStep::Before(i + 1)
                } else {
                    CallStep::Engine
                },
                HookOutcome::Block => CallStep::Blocked,
                HookOutcome::Fail => CallStep::Failed,
            };
        }
    }

    /// The tool ran.
    pub fn engine_returned(&mut self)
        requires
            old(self).wf(),
            old(self).step_spec() == CallStep::Engine,
        ensures
            final(self).wf(),
            final(self).hooks_spec() == old(self).hooks_spec(),
            final(self).step_spec() == step_after_engine(old(self).hooks_spec()),
    {
        self.step = if self.hooks > 0 { CallStep::After(self.hooks - 1) } else { CallStep::Done };
    }

    /// The after hook that ran returned; its failure, if any, is only logged.
    pub fn after_returned(&mut self)
        requires
            old(self).wf(),
            old(self).step_spec() is After,
        ensures
            final(self).wf(),
            final(self).hooks_spec() == old(self).hooks_spec(),
            final(self).step_spec() == step_after_after(old(self).step_spec()->After_0 as nat),
    {
        if let CallStep::After(i) = self.step {
            self.step = if i > 0 { CallStep::After(i - 1) } else { CallStep::Done };
        }
    }
}

/// A measure that each step of a call decreases.
pub open spec fn step_rank(n: nat, s: CallStep) -> nat {
    match s {
        CallStep::Before(i) => if i < n { (2 * n + 2 - i) as nat } else { 0 },
        CallStep::Engine => n + 1,
        CallStep::After(i) => if i < n { (i + 1) as nat } else { 0 },
        _ => 0,
    }
}

/// The steps a call through `n` hooks takes from `s` when the before hooks
/// answer `outcomes`, in order.
pub open spec fn trace_from(n: nat, outcomes: Seq<HookOutcome>, s: CallStep) -> Seq<CallStep>
    decreases step_rank(n, s),
{
    match s {
        CallStep::Before(i) => if i < n && i < outcomes.len() && n <= usize::MAX {
            seq![s] + trace_from(n, outcomes, step_after_before(n, i as nat, outcomes[i as int]))
        } else {
            seq![s]
        },
        CallStep::Engine => if n <= usize::MAX {
            seq![s] + trace_from(n, outcomes, step_after_engine(n))
        } else {
            seq![s]
        },
        CallStep::After(i) => if i < n {
            seq![s] + trace_from(n, outcomes, step_after_after(i as nat))
        } else {
            seq![s]
        },
        _ => seq![s],
    }
}

/// The index of the first before hook that does not proceed.
pub open spec fn first_stop(outcomes: Seq<HookOutcome>) -> Option<int> {
    first_some(
        0,
        outcomes.len() as int,
        |i: int| if outcomes[i] != HookOutcome::Proceed { Some(i) } else { None },
    )
}

/// Before hooks `lo .. hi`, in order.
pub open spec fn befores(lo: nat, hi: nat) -> Seq<CallStep> {
    Seq::new((hi - lo) as nat, |j: int| CallStep::Before((lo + j) as usize))
}

/// After hooks `i, i - 1, .., 0`.
pub open spec fn afters(i: nat) -> Seq<CallStep> {
    Seq::new(i + 1, |j: int| CallStep::After((i - j) as usize))
}

/// The answer of a stopping before hook.
pub open spec fn stop_step(o: HookOutcome) -> CallStep {
    if o == HookOutcome::Block {
        CallStep::Blocked
    } else {
        CallStep::Failed
    }
}

proof fn lemma_unwind(n: nat, outcomes: Seq<HookOutcome>, i: nat)
    requires
        i < n <= usize::MAX,
    ensures
        trace_from(n, outcomes, CallStep::After(i as usize)) == afters(i) + seq![CallStep::Done],
    decreases i,
{
    if i > 0 {
        lemma_unwind(n, outcomes, (i - 1) as nat);
        assert(afters(i) =~= seq![CallStep::After(i as usize)] + afters((i - 1) as nat));
        assert(trace_from(n, outcomes, CallStep::After(i as usize)) =~= afters(i) + seq![
            CallStep::Done,
        ]);
    } else {
        assert(trace_from(n, outcomes, CallStep::Done) == seq![CallStep::Done]);
        assert(trace_from(n, outcomes, CallStep::After(0)) =~= afters(0) + seq![CallStep::Done]);
    }
}

proof fn lemma_engine(n: nat, outcomes: Seq<HookOutcome>)
    requires
        n <= usize::MAX,
    ensures
        trace_from(n, outcomes, CallStep::Engine) == if n > 0 {
            seq![CallStep::Engine] + afters((n - 1) as nat) + seq![CallStep::Done]
        } else {
            seq![CallStep::Engine, CallStep::Done]
        },
{
    if n > 0 {
        lemma_unwind(n, outcomes, (n - 1) as nat);
        assert(trace_from(n, outcomes, CallStep::Engine) =~= seq![CallStep::Engine] + afters(
            (n - 1) as nat,
        ) + seq![CallStep::Done]);
    } else {
        assert(trace_from(n, outcomes, CallStep::Done) == seq![CallStep::Done]);
        assert(trace_from(n, outcomes, CallStep::Engine) =~= seq![CallStep::Engine, CallStep::Done]);
    }
}

/// The rest of a call from the before hook `i` (or the tool, when `i == n`).
pub open spec fn rest_of_call(n: nat, outcomes: Seq<HookOutcome>, i: nat) -> Seq<CallStep> {
    match first_some(
        i as int,
        n as int,
        |k: int| if outcomes[k] != HookOutcome::Proceed { Some(k) } else { None },
    ) {
        Some(k) => befores(i, (k + 1) as nat) + seq![stop_step(outcomes[k])],
        None => befores(i, n) + if n > 0 {
            seq![CallStep::Engine] + afters((n - 1) as nat) + seq![CallStep::Done]
        } else {
            seq![CallStep::Engine, CallStep::Done]
        },
    }
}

proof fn lemma_before_run(n: nat, outcomes: Seq<HookOutcome>, i: nat)
    requires
        i <= n <= usize::MAX,
        outcomes.len() == n,
    ensures
        trace_from(n, outcomes, if i < n { CallStep::Before(i as usize) } else { CallStep::Engine })
            == rest_of_call(n, outcomes, i),
    decreases n - i,
{
    let f = |k: int| if outcomes[k] != HookOutcome::Proceed { Some(k) } else { None };
    if i == n {
        lemma_engine(n, outcomes);
        assert(befores(n, n) =~= Seq::<CallStep>::empty());
        assert(rest_of_call(n, outcomes, i) =~= trace_from(n, outcomes, CallStep::Engine));
    } else {
        let s = CallStep::Before(i as usize);
        let o = outcomes[i as int];
        if o == HookOutcome::Proceed {
            lemma_before_run(n, outcomes, i + 1);
            assert(first_some(i as int, n as int, f) == first_some(i + 1 as int, n as int, f));
            let next = if i + 1 < n { CallStep::Before((i + 1) as usize) } else { CallStep::Engine };
            assert(step_after_before(n, i, o) == next);
            lemma_first_some_found(i + 1 as int, n as int, f);
            match first_some(i as int, n as int, f) {
                Some(k) => {
                    assert(i + 1 <= k);
                    assert(befores(i, (k + 1) as nat) =~= seq![s] + befores(i + 1, (k + 1) as nat));
                },
                None => {
                    assert(befores(i, n) =~= seq![s] + befores(i + 1, n));
                },
            }
            assert(trace_from(n, outcomes, s) =~= rest_of_call(n, outcomes, i));
        } else {
            assert(first_some(i as int, n as int, f) == Some(i as int));
            assert(befores(i, i + 1) =~= seq![s]);
            assert(trace_from(n, outcomes, stop_step(o)) == seq![stop_step(o)]);
            assert(trace_from(n, outcomes, s) =~= rest_of_call(n, outcomes, i));
        }
    }
}

/// Hook order: through a stack of `n` hooks whose before hooks answer
/// `outcomes`, the before hooks run first to last; the first one that blocks
/// or fails ends the call there, and neither later hooks nor the tool run;
/// otherwise the tool runs and the after hooks then run last to first.
pub proof fn lemma_hook_order(n: nat, outcomes: Seq<HookOutcome>)
    requires
        n <= usize::MAX,
        outcomes.len() == n,
    ensures
        trace_from(n, outcomes, first_step(n)) == match first_stop(outcomes) {
            Some(k) => befores(0, (k + 1) as nat) + seq![stop_step(outcomes[k])],
            None => befores(0, n) + seq![CallStep::Engine] + (if n > 0 {
                afters((n - 1) as nat)
            } else {
                Seq::empty()
            }) + seq![CallStep::Done],
        },
{
    lemma_before_run(n, outcomes, 0);
    if first_stop(outcomes) is None {
        if n > 0 {
            assert(befores(0, n) + (seq![CallStep::Engine] + afters((n - 1) as nat) + seq![
                CallStep::Done,
            ]) =~= befores(0, n) + seq![CallStep::Engine] + afters((n - 1) as nat) + seq![
                CallStep::Done,
            ]);
        } else {
            assert(befores(0, n) + seq![CallStep::Engine, CallStep::Done] =~= befores(0, n) + seq![
                CallStep::Engine,
            ] + Seq::<CallStep>::empty() + seq![CallStep::Done]);
        }
    }
}

} // verus!
