use std::collections::HashMap;

use wassette::hooks::{blocked_result, CallPipeline, CallStep, HookOutcome, ToolCallContext};
use wassette::middleware::{AllowlistMiddleware, DenylistMiddleware, MiddlewareError, NoOpHooks};

type Args = Vec<(String, i64)>;

fn args() -> Option<Args> {
    Some(vec![("arg1".to_string(), 42)])
}

/// Drives a call through `n` hooks whose before hooks answer `outcomes`,
/// returning the steps taken.
fn drive(n: usize, outcomes: &[HookOutcome]) -> Vec<CallStep> {
    let mut p = CallPipeline::new(n);
    let mut steps = Vec::new();
    loop {
        let s = p.step();
        steps.push(s);
        match s {
            CallStep::Before(i) => p.before_returned(outcomes[i]),
            CallStep::Engine => p.engine_returned(),
            CallStep::After(_) => p.after_returned(),
            CallStep::Blocked | CallStep::Failed | CallStep::Done => return steps,
        }
    }
}

#[test]
fn test_noop_hooks_default_behavior() {
    let _hooks = NoOpHooks;
    let no_args: Option<Args> = None;
    let ctx = ToolCallContext::from_params("test_tool".to_string(), &no_args, HashMap::<String, String>::new());
    assert!(!ctx.blocked);
    assert!(ctx.block_reason.is_none());
    assert_eq!(drive(0, &[]), vec![CallStep::Engine, CallStep::Done]);
}

#[test]
fn test_tool_call_context_block() {
    let no_args: Option<Args> = None;
    let mut ctx = ToolCallContext::from_params("test_tool".to_string(), &no_args, ());
    assert!(!ctx.blocked);
    assert!(ctx.block_reason.is_none());
    ctx.block("Access denied".to_string());
    assert!(ctx.blocked);
    assert_eq!(ctx.block_reason, Some("Access denied".to_string()));
}

#[test]
fn test_tool_call_context_from_params() {
    let a = Some(vec![("key".to_string(), 1)]);
    let ctx = ToolCallContext::from_params("my_tool".to_string(), &a, ());
    assert_eq!(ctx.tool_name, "my_tool");
    assert!(ctx.arguments().is_some());
    assert!(!ctx.blocked);
    assert!(!ctx.arguments_were_modified());
}

#[test]
fn test_tool_call_context_lazy_clone() {
    let a = args();
    let mut ctx = ToolCallContext::from_params("test_tool".to_string(), &a, ());
    assert!(!ctx.arguments_were_modified());
    let _ = ctx.arguments();
    assert!(!ctx.arguments_were_modified());
    let _ = ctx.arguments_mut();
    assert!(ctx.arguments_were_modified());
}

#[test]
fn test_tool_call_context_into_params_no_modification() {
    let a = args();
    let ctx = ToolCallContext::from_params("test_tool".to_string(), &a, ());
    assert!(!ctx.arguments_were_modified());
    assert!(std::ptr::eq(ctx.arguments().unwrap(), a.as_ref().unwrap()));
    assert_eq!(ctx.take_modified_arguments(), None);
}

#[test]
fn test_tool_call_context_into_params_with_modification() {
    let a = args();
    let mut ctx = ToolCallContext::from_params("test_tool".to_string(), &a, ());
    if let Some(v) = ctx.arguments_mut() {
        v.push(("arg2".to_string(), 7));
    }
    assert!(ctx.arguments_were_modified());
    assert_eq!(ctx.arguments().unwrap().len(), 2);
    let modified = ctx.take_modified_arguments().unwrap().unwrap();
    assert!(modified.iter().any(|(k, _)| k == "arg2"));
    assert_eq!(a.unwrap().len(), 1);
}

#[test]
fn test_middleware_stack_execution_order() {
    let steps = drive(3, &[HookOutcome::Proceed; 3]);
    assert_eq!(
        steps,
        vec![
            CallStep::Before(0),
            CallStep::Before(1),
            CallStep::Before(2),
            CallStep::Engine,
            CallStep::After(2),
            CallStep::After(1),
            CallStep::After(0),
            CallStep::Done,
        ]
    );
}

#[test]
fn test_middleware_stack_blocking_behavior() {
    let steps = drive(2, &[HookOutcome::Block, HookOutcome::Proceed]);
    assert_eq!(steps, vec![CallStep::Before(0), CallStep::Blocked]);
}

#[test]
fn test_error_handling_in_hooks() {
    let steps = drive(2, &[HookOutcome::Fail, HookOutcome::Proceed]);
    assert_eq!(steps, vec![CallStep::Before(0), CallStep::Failed]);
}

#[test]
fn test_metadata_passing_between_hooks() {
    let no_args: Option<Args> = None;
    let mut ctx = ToolCallContext::from_params("test".to_string(), &no_args, HashMap::new());
    ctx.metadata.insert("request_id".to_string(), "abc123".to_string());
    let result_ctx = ctx.into_result_context("result", 100);
    assert_eq!(result_ctx.metadata.get("request_id"), Some(&"abc123".to_string()));
    assert_eq!(result_ctx.tool_name, "test");
    assert_eq!(result_ctx.duration_ms, 100);
}

#[test]
fn test_blocked_result_helper() {
    let result = blocked_result("Access denied");
    assert!(result.is_error);
    assert!(result.text.contains("Access denied"));
    assert!(result.text.contains("blocked"));
}

#[test]
fn hook_block_scenario() {
    // A stack of a blocking hook and a recording hook: calling `foo` is
    // blocked by the first, the second never runs, nor does the tool.
    let block_foo = DenylistMiddleware::new(vec!["foo".to_string()]);
    let no_args: Option<Args> = None;
    let mut ctx = ToolCallContext::from_params("foo".to_string(), &no_args, ());
    let mut pipeline = CallPipeline::new(2);
    assert_eq!(pipeline.step(), CallStep::Before(0));
    block_foo.before_tool_call(&mut ctx);
    pipeline.before_returned(if ctx.blocked { HookOutcome::Block } else { HookOutcome::Proceed });
    assert_eq!(pipeline.step(), CallStep::Blocked);
    let result = blocked_result("nope");
    assert_eq!(result.text, "Tool call blocked: nope");
    assert!(result.is_error);
}

#[test]
fn allowlist_and_denylist() {
    let allow = AllowlistMiddleware::new(vec!["fetch".to_string()]);
    assert!(allow.allows("fetch"));
    assert!(!allow.allows("rm"));
    let no_args: Option<Args> = None;
    let mut ctx = ToolCallContext::from_params("rm".to_string(), &no_args, ());
    allow.before_tool_call(&mut ctx);
    assert!(ctx.blocked);
    assert_eq!(ctx.block_reason.as_deref(), Some("Tool 'rm' is not in the allowlist"));
    let mut ok = ToolCallContext::from_params("fetch".to_string(), &no_args, ());
    allow.before_tool_call(&mut ok);
    assert!(!ok.blocked);

    let deny = DenylistMiddleware::new(vec!["rm".to_string()]);
    assert!(!deny.allows("rm"));
    let mut ctx = ToolCallContext::from_params("rm".to_string(), &no_args, ());
    deny.before_tool_call(&mut ctx);
    assert_eq!(ctx.block_reason.as_deref(), Some("Tool 'rm' is blocked"));
}

#[test]
fn middleware_errors() {
    let e = MiddlewareError::new("bad".to_string());
    assert!(e.is_client_error);
    assert_eq!(e.message, "bad");
    let e = MiddlewareError::internal("oops".to_string());
    assert!(!e.is_client_error);
}

#[test]
fn rate_limit_slides_its_window() {
    let mut limiter = wassette::middleware::RateLimitMiddleware::new(2, 1000);
    assert!(limiter.try_acquire(0));
    assert!(limiter.try_acquire(10));
    assert!(!limiter.try_acquire(20));
    // At 1005 the call at 0 has left the window; the one at 10 has not.
    assert!(limiter.try_acquire(1005));
    assert!(!limiter.try_acquire(1006));
    // At 2100 both have left.
    assert!(limiter.try_acquire(2100));
}

#[test]
fn blocked_call_without_reason_uses_default() {
    let no_args: Option<Args> = None;
    let mut ctx = ToolCallContext::from_params("foo".to_string(), &no_args, ());
    assert_eq!(ctx.block_reason_or_default(), "Blocked by hook");
    ctx.block("nope".to_string());
    assert_eq!(ctx.block_reason_or_default(), "nope");
}
