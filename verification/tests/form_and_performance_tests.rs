use rust_browser_mcp::forms::{form_arguments, FormAction, FormFill};
use rust_browser_mcp::performance::{perf_action, performance_plan, PerfAction};
use serde_json::{Number, Value};

type JsonMap = serde_json::Map<String, Value>;

fn text(s: &str) -> Value {
    Value::String(s.to_string())
}

fn form_call() -> Option<JsonMap> {
    let mut fields = JsonMap::new();
    fields.insert("#a".to_string(), text("1"));
    fields.insert("#b".to_string(), text("2"));
    fields.insert("#n".to_string(), Value::Number(Number::from(3u64)));
    let mut m = JsonMap::new();
    m.insert("fields".to_string(), Value::Object(fields));
    m.insert("submit_selector".to_string(), text("#go"));
    m.insert("session_id".to_string(), text("s1"));
    Some(m)
}

#[test]
fn form_arguments_are_read_and_checked() {
    assert_eq!(form_arguments(&None).unwrap_err(), "fields parameter required");
    let mut m = JsonMap::new();
    m.insert("fields".to_string(), text("not an object"));
    assert_eq!(form_arguments(&Some(m.clone())).unwrap_err(), "fields parameter required");
    m.insert("fields".to_string(), Value::Object(JsonMap::new()));
    assert_eq!(form_arguments(&Some(m)).unwrap_err(), "submit_selector parameter required");

    let a = form_arguments(&form_call()).unwrap();
    assert_eq!(a.fields, vec![("#a".to_string(), "1".to_string()), ("#b".to_string(), "2".to_string())]);
    assert_eq!(a.submit_selector, "#go");
    assert_eq!(a.session_id, Some("s1".to_string()));
}

#[test]
fn form_filling_succeeds_step_by_step() {
    let mut f = FormFill::new(form_arguments(&form_call()).unwrap(), "s1".to_string());
    let mut log = Vec::new();
    loop {
        match f.next_action() {
            FormAction::Respond(r) => {
                assert_eq!(r, Ok("Successfully filled 2 fields and submitted form (session: s1). Fields: #a, #b".to_string()));
                break;
            }
            FormAction::Find { selector } => {
                log.push(format!("find {selector}"));
                f.record_find(Ok(()));
            }
            FormAction::Clear { selector } => {
                log.push(format!("clear {selector}"));
                f.record_clear(Ok(()));
            }
            FormAction::Type { selector, value } => {
                log.push(format!("type {selector} {value}"));
                f.record_fill(Ok(()));
            }
            FormAction::Click { selector } => {
                log.push(format!("click {selector}"));
                f.record_click(Ok(()));
            }
        }
    }
    assert_eq!(
        log,
        vec!["find #a", "clear #a", "type #a 1", "find #b", "clear #b", "type #b 2", "find #go", "click #go"]
    );
}

#[test]
fn form_filling_failures_name_what_failed() {
    let args = || form_arguments(&form_call()).unwrap();
    let mut f = FormFill::new(args(), "s".to_string());
    f.record_find(Err("gone".to_string()));
    assert!(matches!(f.next_action(), FormAction::Respond(Err(m)) if m == "Failed to find field '#a': gone"));

    let mut f = FormFill::new(args(), "s".to_string());
    f.record_find(Ok(()));
    f.record_clear(Err("stale".to_string()));
    assert!(matches!(f.next_action(), FormAction::Respond(Err(m)) if m == "Failed to clear field '#a': stale"));

    let mut f = FormFill::new(args(), "s".to_string());
    f.record_find(Ok(()));
    f.record_clear(Ok(()));
    f.record_fill(Err("readonly".to_string()));
    assert!(matches!(f.next_action(), FormAction::Respond(Err(m)) if m == "Failed to fill field '#a': readonly"));

    let mut f = FormFill::new(args(), "s".to_string());
    for _ in 0..2 {
        f.record_find(Ok(()));
        f.record_clear(Ok(()));
        f.record_fill(Ok(()));
    }
    f.record_find(Err("no button".to_string()));
    assert!(matches!(f.next_action(), FormAction::Respond(Err(m)) if m == "Failed to find submit element '#go': no button"));

    let mut f = FormFill::new(args(), "s".to_string());
    for _ in 0..2 {
        f.record_find(Ok(()));
        f.record_clear(Ok(()));
        f.record_fill(Ok(()));
    }
    f.record_find(Ok(()));
    f.record_click(Err("covered".to_string()));
    assert!(matches!(f.next_action(), FormAction::Respond(Err(m)) if m == "Failed to submit form: covered"));
}

fn object(pairs: &[(&str, Value)]) -> JsonMap {
    let mut m = JsonMap::new();
    for (k, v) in pairs {
        m.insert(k.to_string(), v.clone());
    }
    m
}

#[test]
fn performance_plans_need_an_action_list() {
    assert_eq!(performance_plan(&None, 1).unwrap_err(), "test_actions array is required");
    let m = object(&[("test_actions", text("click"))]);
    assert_eq!(performance_plan(&Some(m), 1).unwrap_err(), "test_actions array is required");

    let actions = vec![Value::Object(object(&[("type", text("click"))])), text("x")];
    let m = object(&[
        ("test_actions", Value::Array(actions)),
        ("collect_screenshots", Value::Bool(true)),
        ("session_id", text("p")),
    ]);
    let plan = performance_plan(&Some(m), 3).unwrap();
    assert_eq!(plan.iterations, 3);
    assert!(plan.collect_screenshots);
    assert_eq!(plan.session_id, Some("p".to_string()));
    assert_eq!(plan.actions.len(), 2);
    assert!(plan.actions[0].is_some());
    assert!(plan.actions[1].is_none());
}

#[test]
fn performance_actions_are_decided() {
    assert_eq!(perf_action(&None, 0, None).unwrap_err(), "Each test action must be an object");
    assert_eq!(perf_action(&Some(object(&[("selector", text("#a"))])), 0, None).unwrap_err(), "Action type is required");

    let s = perf_action(&Some(object(&[("type", text("scroll")), ("selector", text("#a"))])), 2, None).unwrap();
    assert_eq!(
        s.mark_script,
        "window.__perfTestMarks.push({ action: \"scroll\", index: 2, timestamp: performance.now() - window.__perfTestStart });"
    );
    assert!(matches!(s.action, PerfAction::Scroll { script } if script == "document.querySelector('#a')?.scrollIntoView();"));

    let s = perf_action(&Some(object(&[("type", text("click")), ("selector", text("#b"))])), 0, None).unwrap();
    assert!(matches!(s.action, PerfAction::Click { selector } if selector == "#b"));
    let s = perf_action(&Some(object(&[("type", text("wait"))])), 0, Some(250)).unwrap();
    assert!(matches!(s.action, PerfAction::Wait { ms: 250 }));
    let s = perf_action(&Some(object(&[("type", text("navigate")), ("url", text("https://x"))])), 0, None).unwrap();
    assert!(matches!(s.action, PerfAction::Navigate { url } if url == "https://x"));
    let s = perf_action(&Some(object(&[("type", text("click"))])), 0, None).unwrap();
    assert!(matches!(s.action, PerfAction::Skip));
    let s = perf_action(&Some(object(&[("type", text("dance"))])), 0, Some(1)).unwrap();
    assert!(matches!(s.action, PerfAction::Skip));
}
