//! The decisions of the `run_performance_test` tool: which arguments it
//! needs, and what each test action does.
//!
//! The caller runs the browser: for each iteration it starts the timing,
//! then for each action runs its mark script and performs the action that
//! `perf_action` describes, and finally collects the metrics.

use vstd::prelude::*;
use crate::text;
use crate::json;
use crate::json::{JsonEntry, JsonObject};
use crate::actions::{call_text_arg, extract_session_id, text_arg, text_argument};
use crate::config::opt_view;

verus! {

/// What a performance test runs.
#[derive(Debug, Clone)]
pub struct PerfPlan {
    /// The test actions, in order: each an object, or `None` where the
    /// item is not one.
    pub actions: Vec<Option<JsonObject>>,
    /// How many times the actions are run.
    pub iterations: usize,
    /// Whether a screenshot is taken after each iteration.
    pub collect_screenshots: bool,
    pub session_id: Option<String>,
}

/// The boolean a tool call holds under a key, if it holds one.
pub open spec fn call_bool_arg(args: Option<JsonObject>, key: Seq<char>) -> Option<bool> {
    match args {
        Some(m) => {
            let e = json::json_entries(m);
            if e.dom().contains(key) && e[key] is Bool { Some(e[key]->Bool_0) } else { None }
        },
        None => None,
    }
}

/// The items of the array a tool call holds under a key, where it holds one.
pub open spec fn call_list_items(args: Option<JsonObject>, key: Seq<char>) -> Option<Seq<Option<Map<Seq<char>, JsonEntry>>>> {
    match args {
        Some(m) => {
            let e = json::json_entries(m);
            if e.dom().contains(key) && e[key] is List { Some(e[key]->List_1) } else { None }
        },
        None => None,
    }
}

/// Reads a performance test: `test_actions` must be an array; screenshots
/// are off unless `collect_screenshots` is true; `iterations` is the
/// number of runs the caller read from the call (a JSON number, one by
/// default).
pub fn performance_plan(args: &Option<JsonObject>, iterations: usize) -> (r: Result<PerfPlan, String>)
    ensures
        match call_list_items(*args, "test_actions"@) {
            None => r matches Err(m) && m@ == "test_actions array is required"@,
            Some(items) => r matches Ok(p) && json::objects_match(p.actions@, items)
                && p.iterations == iterations
                && p.collect_screenshots == (call_bool_arg(*args, "collect_screenshots"@) == Some(true))
                && opt_view(p.session_id) == call_text_arg(*args, "session_id"@),
        },
{
    let (actions, collect_screenshots) = match args {
        Some(m) => {
            let actions = match json::json_get_object_list(m, "test_actions") {
                Some(a) => a,
                None => {
                    return Err(text::owned("test_actions array is required"));
                },
            };
            let shots = match json::json_get_bool(m, "collect_screenshots") {
                Some(b) => b,
                None => false,
            };
            (actions, shots)
        },
        None => {
            return Err(text::owned("test_actions array is required"));
        },
    };
    Ok(PerfPlan { actions, iterations, collect_screenshots, session_id: extract_session_id(args) })
}

/// What a test action does in the browser.
#[derive(Debug, Clone)]
pub enum PerfAction {
    /// Click the element of the selector, if found.
    Click { selector: String },
    /// Run this script, which scrolls to an element.
    Scroll { script: String },
    /// Wait this many milliseconds.
    Wait { ms: u64 },
    /// Navigate to the URL.
    Navigate { url: String },
    /// Nothing: an unknown type, or a known one without its field.
    Skip,
}

/// One test action: the script that marks it, and what it does.
#[derive(Debug, Clone)]
pub struct PerfStep {
    pub mark_script: String,
    pub action: PerfAction,
}

/// The script that marks the action of a type at an index.
pub open spec fn mark_text(kind: Seq<char>, index: nat) -> Seq<char> {
    "window.__perfTestMarks.push({ action: \""@ + kind + "\", index: "@ + text::decimal(index)
        + ", timestamp: performance.now() - window.__perfTestStart });"@
}

/// The script that scrolls to the element of a selector.
pub open spec fn scroll_text(selector: Seq<char>) -> Seq<char> {
    "document.querySelector('"@ + selector + "')?.scrollIntoView();"@
}

/// What an action of a type does, given its fields.
pub open spec fn perf_action_ok(o: JsonObject, kind: Seq<char>, wait_ms: Option<u64>, a: PerfAction) -> bool {
    if kind == "click"@ {
        match text_arg(o, "selector"@) {
            Some(s) => a matches PerfAction::Click { selector } && selector@ == s,
            None => a is Skip,
        }
    } else if kind == "scroll"@ {
        match text_arg(o, "selector"@) {
            Some(s) => a matches PerfAction::Scroll { script } && script@ == scroll_text(s),
            None => a is Skip,
        }
    } else if kind == "wait"@ {
        match wait_ms {
            Some(ms) => a == PerfAction::Wait { ms },
            None => a is Skip,
        }
    } else if kind == "navigate"@ {
        match text_arg(o, "url"@) {
            Some(u) => a matches PerfAction::Navigate { url } && url@ == u,
            None => a is Skip,
        }
    } else {
        a is Skip
    }
}

/// Reads the test action at `index`.  `wait_ms` is the action's
/// `duration_ms`, a JSON number that the caller reads and truncates to
/// whole milliseconds (`None` where the action has none).  An item that is
/// not an object, and an object without a string `type`, are refused.
pub fn perf_action(action: &Option<JsonObject>, index: usize, wait_ms: Option<u64>) -> (r: Result<PerfStep, String>)
    ensures
        match action {
            None => r matches Err(m) && m@ == "Each test action must be an object"@,
            Some(o) => match text_arg(*o, "type"@) {
                None => r matches Err(m) && m@ == "Action type is required"@,
                Some(k) => r matches Ok(s) && s.mark_script@ == mark_text(k, index as nat)
                    && perf_action_ok(*o, k, wait_ms, s.action),
            },
        },
{
    let o = match action {
        Some(o) => o,
        None => {
            return Err(text::owned("Each test action must be an object"));
        },
    };
    let kind = match text_argument(o, "type") {
        Some(k) => k,
        None => {
            return Err(text::owned("Action type is required"));
        },
    };
    let n = text::decimal_string(index as u64);
    let a = text::concat3("window.__perfTestMarks.push({ action: \"", kind.as_str(), "\", index: ");
    let mark_script = text::concat3(a.as_str(), n.as_str(), ", timestamp: performance.now() - window.__perfTestStart });");
    let k = kind.as_str();
    let act = if text::str_equal(k, "click") {
        match text_argument(o, "selector") {
            Some(selector) => PerfAction::Click { selector },
            None => PerfAction::Skip,
        }
    } else if text::str_equal(k, "scroll") {
        match text_argument(o, "selector") {
            Some(s) => PerfAction::Scroll {
                script: text::concat3("document.querySelector('", s.as_str(), "')?.scrollIntoView();"),
            },
            None => PerfAction::Skip,
        }
    } else if text::str_equal(k, "wait") {
        match wait_ms {
            Some(ms) => PerfAction::Wait { ms },
            None => PerfAction::Skip,
        }
    } else if text::str_equal(k, "navigate") {
        match text_argument(o, "url") {
            Some(url) => PerfAction::Navigate { url },
            None => PerfAction::Skip,
        }
    } else {
        PerfAction::Skip
    };
    Ok(PerfStep { mark_script, action: act })
}

} // verus!
