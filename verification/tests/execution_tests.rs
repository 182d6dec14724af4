use rust_browser_mcp::actions::{
    delay_message, login_request, navigate_message, navigate_request, screenshot_message, screenshot_request,
    session_argument, step_action, step_password_selector_list, step_submit_selector_list,
    step_username_selector_list, wait_request, StepAction, WaitKind,
};
use rust_browser_mcp::error::WebDriverError;
use rust_browser_mcp::execution::{
    browser_failure, browser_session_id, combine_browser_runs, evaluate_condition, prepare_recipe,
    prepare_step_arguments, resolve_browsers, BrowserRun, ExecutionResult, RetryAction, RetryState, RunAction,
    StepOutcome, StepResult,
};
use rust_browser_mcp::recipe::{Recipe, RecipeStep};
use serde_json::Value;
type JsonMap = serde_json::Map<String, Value>;

fn step(action: &str, key: &str, value: &str) -> RecipeStep {
    let mut arguments = JsonMap::new();
    arguments.insert(key.to_string(), Value::String(value.to_string()));
    RecipeStep {
        name: None,
        description: None,
        action: action.to_string(),
        arguments,
        continue_on_error: None,
        retry_count: None,
        retry_delay_ms: None,
        condition: None,
        session_id: None,
        browser: None,
    }
}

fn recipe(steps: Vec<RecipeStep>) -> Recipe {
    Recipe {
        name: "t".to_string(),
        description: None,
        version: "1.0.0".to_string(),
        author: None,
        created_at: None,
        parameters: None,
        browsers: vec!["auto".to_string()],
        steps,
    }
}

fn outcome(success: bool, error: Option<&str>) -> StepOutcome {
    StepOutcome {
        success,
        attempts: 1,
        result: if success { Some("ok".to_string()) } else { None },
        error_message: error.map(|s| s.to_string()),
        execution_time_ms: 5,
    }
}

#[test]
fn conditions() {
    assert!(evaluate_condition(""));
    assert!(evaluate_condition("  TRUE "));
    assert!(!evaluate_condition("false"));
    assert!(!evaluate_condition("1 == 1"));
}

#[test]
fn browser_run_skips_other_browsers_and_succeeds() {
    let mut other = step("navigate", "url", "https://b.example");
    other.browser = Some("firefox".to_string());
    let r = recipe(vec![step("navigate", "url", "https://a.example"), other]);
    let mut run = BrowserRun::new("chrome".to_string(), 2);
    assert!(matches!(run.advance(&r), RunAction::Execute(0)));
    run.record(&r, outcome(true, None), false);
    assert!(matches!(run.advance(&r), RunAction::Finished));
    let result = run.finish(42);
    assert!(result.success);
    assert_eq!(result.total_steps, 2);
    assert_eq!(result.executed_steps, 1);
    assert_eq!(result.failed_steps, 0);
    assert_eq!(result.step_results.len(), 2);
    assert!(result.step_results[1].skipped);
    assert_eq!(result.step_results[1].skipped_reason, Some("Step for different browser: firefox".to_string()));
    let skipped = &result.step_results[1];
    assert!(skipped.success);
    assert_eq!(skipped.attempts, 0);
    assert_eq!(skipped.execution_time_ms, 0);
    assert!(skipped.result.is_none());
    assert!(skipped.error_message.is_none());
    assert_eq!(skipped.action, "navigate");
    assert_eq!(skipped.browser, Some("chrome".to_string()));
}

#[test]
fn browser_run_stops_on_failure() {
    let r = recipe(vec![step("navigate", "url", "u1"), step("navigate", "url", "u2")]);
    let mut run = BrowserRun::new("chrome".to_string(), 2);
    assert!(matches!(run.advance(&r), RunAction::Execute(0)));
    run.record(&r, outcome(false, Some("boom")), false);
    assert!(matches!(run.advance(&r), RunAction::Finished));
    let result = run.finish(7);
    assert!(!result.success);
    assert_eq!(result.executed_steps, 1);
    assert_eq!(result.failed_steps, 1);
    assert_eq!(result.step_results.len(), 1);
}

#[test]
fn browser_run_continues_on_error_when_asked() {
    let r = recipe(vec![step("navigate", "url", "u1"), step("navigate", "url", "u2")]);
    let mut run = BrowserRun::new("chrome".to_string(), 2);
    assert!(matches!(run.advance(&r), RunAction::Execute(0)));
    run.record(&r, outcome(false, Some("boom")), true);
    assert!(matches!(run.advance(&r), RunAction::Execute(1)));
    run.record(&r, outcome(true, None), true);
    assert!(matches!(run.advance(&r), RunAction::Finished));
    let result = run.finish(9);
    assert!(!result.success);
    assert_eq!(result.executed_steps, 2);
    assert_eq!(result.failed_steps, 1);
}

#[test]
fn retries_wait_then_give_up() {
    let mut s = step("navigate", "url", "u");
    s.retry_count = Some(2);
    s.retry_delay_ms = Some(50);
    let mut retry = RetryState::new(&s);
    assert!(matches!(retry.attempt_result(Err("e1".to_string())), RetryAction::Retry(50)));
    assert!(matches!(retry.attempt_result(Err("e2".to_string())), RetryAction::Retry(50)));
    match retry.attempt_result(Err("e3".to_string())) {
        RetryAction::Done(o) => {
            assert!(!o.success);
            assert_eq!(o.attempts, 3);
            assert_eq!(o.error_message, Some("e3".to_string()));
        }
        RetryAction::Retry(_) => panic!("no retry left"),
    }

    let mut once = RetryState::new(&step("navigate", "url", "u"));
    match once.attempt_result(Ok("fine".to_string())) {
        RetryAction::Done(o) => {
            assert!(o.success);
            assert_eq!(o.attempts, 1);
            assert_eq!(o.result, Some("fine".to_string()));
        }
        RetryAction::Retry(_) => panic!("a success is not retried"),
    }
}

#[test]
fn browsers_resolve() {
    let ok = resolve_browsers(&vec!["auto".to_string(), "firefox".to_string()]).unwrap();
    assert_eq!(ok, vec!["chrome".to_string(), "firefox".to_string()]);
    match resolve_browsers(&vec!["chrome".to_string(), "opera".to_string()]) {
        Err(WebDriverError::Execution(m)) => assert_eq!(m, "Unsupported browser: opera"),
        other => panic!("unexpected {other:?}"),
    }
    assert_eq!(browser_session_id("firefox"), "firefox_recipe_session");
    assert_eq!(
        browser_failure("edge", &WebDriverError::Execution("x".to_string())),
        "Browser edge failed: Execution error: x"
    );
}

fn step_result(i: usize, name: Option<&str>, success: bool, error: Option<&str>) -> StepResult {
    StepResult {
        step_index: i,
        step_name: name.map(|s| s.to_string()),
        action: "navigate".to_string(),
        success,
        execution_time_ms: 3,
        attempts: 1,
        result: None,
        error_message: error.map(|s| s.to_string()),
        skipped: false,
        skipped_reason: None,
        browser: Some("chrome".to_string()),
    }
}

fn execution(success: bool, steps: Vec<StepResult>, error: Option<&str>) -> ExecutionResult {
    let failed = steps.iter().filter(|s| !s.success).count();
    ExecutionResult {
        success,
        total_steps: 2,
        executed_steps: steps.len(),
        failed_steps: failed,
        step_results: steps,
        execution_time_ms: 120,
        error_message: error.map(|s| s.to_string()),
        browser_results: Vec::new(),
    }
}

#[test]
fn summary_strings() {
    let ok = execution(true, vec![step_result(0, Some("Open"), true, None)], None);
    assert_eq!(ok.to_summary_string(), "Recipe executed successfully! 1 steps completed in 120ms");
    let bad = execution(
        false,
        vec![step_result(0, Some("Open"), true, None), step_result(1, None, false, Some("boom"))],
        Some("Browser chrome failed: boom"),
    );
    assert_eq!(
        bad.to_summary_string(),
        "Recipe execution failed. 2/2 steps completed, 1 failures in 120ms. Error: Browser chrome failed: boom"
    );
    assert_eq!(
        bad.to_detailed_string(),
        "Recipe execution failed. 2/2 steps completed, 1 failures in 120ms. Error: Browser chrome failed: boom\n\nStep Results:\n  1 - Open (SUCCESS): 3ms\n  2 - Step 2 (FAILED): 3ms - Error: boom\n"
    );
    let unknown = execution(false, vec![], None);
    assert!(unknown.to_summary_string().ends_with("Error: Unknown error"));
}

#[test]
fn combining_browser_runs() {
    let chrome = execution(true, vec![step_result(0, None, true, None)], None);
    let runs = vec![
        ("chrome".to_string(), Ok(chrome)),
        ("firefox".to_string(), Err("Browser firefox failed: no driver".to_string())),
    ];
    let r = combine_browser_runs(1, runs, 99);
    assert!(!r.success);
    assert_eq!(r.total_steps, 1);
    assert_eq!(r.executed_steps, 1);
    assert_eq!(r.failed_steps, 0);
    assert_eq!(r.execution_time_ms, 99);
    assert_eq!(r.error_message, Some("Browser firefox failed: no driver".to_string()));
    assert_eq!(r.browser_results.len(), 2);
    assert_eq!(r.browser_results[1].browser, "firefox");
    assert!(!r.browser_results[1].success);
}

#[test]
fn preparing_recipes_and_arguments() {
    let mut r = recipe(vec![step("navigate", "url", "${site}/{{browser}}")]);
    r.browsers = vec!["auto".to_string(), "edge".to_string()];
    let (prepared, browsers) = prepare_recipe(&r, &Some(vec![("site".to_string(), "https://x".to_string())])).unwrap();
    assert_eq!(browsers, vec!["chrome".to_string(), "edge".to_string()]);
    assert_eq!(prepared.steps[0].arguments.get("url").unwrap().as_str().unwrap(), "https://x/{{browser}}");

    let args = prepare_step_arguments(&prepared.steps[0], &Some("edge_recipe_session".to_string())).unwrap();
    assert_eq!(args.get("url").unwrap().as_str().unwrap(), "https://x/edge");
    assert_eq!(args.get("session_id").unwrap().as_str().unwrap(), "edge_recipe_session");

    let plain = prepare_step_arguments(&prepared.steps[0], &None).unwrap();
    assert!(plain.get("session_id").is_none());
}

#[test]
fn preparing_refuses_invalid_recipes() {
    let r = recipe(vec![step("navigate", "href", "https://x")]);
    match prepare_recipe(&r, &None) {
        Err(WebDriverError::InvalidRecipe(m)) => {
            assert_eq!(m, "Recipe validation failed: Step 1 (navigate) missing required 'url' argument")
        }
        other => panic!("unexpected: {:?}", other.map(|(p, b)| (p.name, b))),
    }
    let mut bad = recipe(vec![step("navigate", "url", "https://x")]);
    bad.browsers = vec!["safari".to_string()];
    match prepare_recipe(&bad, &None) {
        Err(WebDriverError::InvalidRecipe(m)) => assert_eq!(m, "Recipe validation failed: Unsupported browser: safari"),
        other => panic!("unexpected: {:?}", other.map(|(p, b)| (p.name, b))),
    }
    let quoted = recipe(vec![step("navigate", "url", "${site}")]);
    match prepare_recipe(&quoted, &Some(vec![("site".to_string(), "\"".to_string())])) {
        Err(WebDriverError::InvalidRecipe(m)) => {
            assert!(m.starts_with("Parameter substitution failed: Failed to deserialize substituted arguments: "))
        }
        other => panic!("unexpected: {:?}", other.map(|(p, b)| (p.name, b))),
    }
}

#[test]
fn step_actions() {
    assert!(matches!(step_action("navigate"), Ok(StepAction::Navigate)));
    assert!(matches!(step_action("fill_and_submit_form"), Ok(StepAction::FillAndSubmitForm)));
    match step_action("teleport") {
        Err(WebDriverError::Execution(m)) => assert_eq!(m, "Unknown action: teleport"),
        other => panic!("unexpected {other:?}"),
    }
    assert_eq!(StepAction::Click.placeholder_result(), Some("Click executed (placeholder)".to_string()));
    assert_eq!(StepAction::GetCurrentUrl.placeholder_result(), Some("Get current URL executed (placeholder)".to_string()));
    assert_eq!(StepAction::Navigate.placeholder_result(), None);
    assert_eq!(StepAction::ResizeWindow.placeholder_result(), None);
}

#[test]
fn step_requests() {
    let mut m = JsonMap::new();
    m.insert("url".to_string(), Value::String("https://e.com".to_string()));
    let q = navigate_request(&m).unwrap();
    assert_eq!(q.url, "https://e.com");
    assert_eq!(q.session_id, "default");
    assert_eq!(navigate_message(&q.url), "Successfully navigated to https://e.com");
    match navigate_request(&JsonMap::new()) {
        Err(WebDriverError::Execution(e)) => assert_eq!(e, "Missing 'url' parameter for navigate"),
        other => panic!("unexpected {other:?}"),
    }

    let mut m = JsonMap::new();
    m.insert("session_id".to_string(), Value::String("s1".to_string()));
    m.insert("save_path".to_string(), Value::String("/tmp/a.png".to_string()));
    let s = screenshot_request(&m);
    assert_eq!(s.session_id, "s1");
    assert_eq!(session_argument(&m), "s1");
    assert_eq!(screenshot_message(&s.save_path, 1234), "Screenshot saved to: /tmp/a.png (1234 bytes)");
    assert_eq!(screenshot_message(&None, 0), "Screenshot captured (0 bytes)");

    let mut m = JsonMap::new();
    m.insert("condition".to_string(), Value::String("document.readyState === 'complete'".to_string()));
    let w = wait_request(&m).unwrap();
    assert_eq!(w.kind, WaitKind::PageLoad);
    assert_eq!(w.timeout_seconds, 10);
    let mut m = JsonMap::new();
    m.insert("condition".to_string(), Value::String("true".to_string()));
    m.insert("timeout_seconds".to_string(), Value::from(3u64));
    let w = wait_request(&m).unwrap();
    assert_eq!(w.kind, WaitKind::Delay);
    assert_eq!(w.timeout_seconds, 3);
    assert_eq!(delay_message(w.timeout_seconds), "Waited 3 seconds");
    match wait_request(&JsonMap::new()) {
        Err(WebDriverError::Execution(e)) => assert_eq!(e, "Missing 'condition' parameter"),
        other => panic!("unexpected {other:?}"),
    }

    let mut m = JsonMap::new();
    m.insert("username".to_string(), Value::String("u".to_string()));
    match login_request(&m) {
        Err(WebDriverError::Execution(e)) => assert_eq!(e, "Missing 'password' parameter"),
        other => panic!("unexpected {other:?}"),
    }
    assert_eq!(step_username_selector_list().len(), 7);
    assert_eq!(step_password_selector_list()[0], "input[type='password']");
    assert_eq!(step_submit_selector_list()[6], ".submit-btn");
}
