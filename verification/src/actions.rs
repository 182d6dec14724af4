//! The browser actions a recipe step can name, and what each of them reads
//! from the step's arguments.
//!
//! The caller performs the action against the browser; this module decides
//! which action a step names, checks and reads its arguments, and words the
//! messages of the actions that report without touching the browser.

use vstd::prelude::*;
use crate::text::views;
use crate::text;
use crate::json;
use crate::json::JsonObject;
use crate::config::opt_view;
use crate::error::WebDriverError;

verus! {

/// The string an argument holds, if it holds a string.
pub open spec fn text_arg(m: JsonObject, key: Seq<char>) -> Option<Seq<char>> {
    let e = json::json_entries(m);
    if e.dom().contains(key) && e[key] is Text {
        Some(e[key]->Text_0)
    } else {
        None
    }
}

/// The unsigned number an argument holds, if it holds one.
pub open spec fn unsigned_arg(m: JsonObject, key: Seq<char>) -> Option<u64> {
    let e = json::json_entries(m);
    if e.dom().contains(key) && e[key] is Unsigned {
        Some(e[key]->Unsigned_0)
    } else {
        None
    }
}

/// The session an action runs in: the `session_id` argument, else
/// `default`.
pub open spec fn session_arg(m: JsonObject) -> Seq<char> {
    match text_arg(m, "session_id"@) {
        Some(s) => s,
        None => "default"@,
    }
}

/// Reads a string argument.
pub fn text_argument(m: &JsonObject, key: &str) -> (r: Option<String>)
    ensures
        opt_view(r) == text_arg(*m, key@),
{
    json::json_get_text(m, key)
}

/// Reads an unsigned argument.
pub fn unsigned_argument(m: &JsonObject, key: &str) -> (r: Option<u64>)
    ensures
        r == unsigned_arg(*m, key@),
{
    json::json_get_unsigned(m, key)
}

/// The session an action runs in.
pub fn session_argument(m: &JsonObject) -> (r: String)
    ensures
        r@ == session_arg(*m),
{
    match json::json_get_text(m, "session_id") {
        Some(s) => s,
        None => text::owned("default"),
    }
}

/// A string argument of a tool call.
pub open spec fn call_text_arg(args: Option<JsonObject>, key: Seq<char>) -> Option<Seq<char>> {
    match args {
        Some(m) => text_arg(m, key),
        None => None,
    }
}

/// Reads a string argument of a tool call.
pub fn call_text_argument(args: &Option<JsonObject>, key: &str) -> (r: Option<String>)
    ensures
        opt_view(r) == call_text_arg(*args, key@),
{
    match args {
        Some(m) => text_argument(m, key),
        None => None,
    }
}

/// The session a tool call names, if it names one.
pub fn extract_session_id(arguments: &Option<JsonObject>) -> (r: Option<String>)
    ensures
        opt_view(r) == call_text_arg(*arguments, "session_id"@),
{
    call_text_argument(arguments, "session_id")
}

/// The actions a recipe step can perform.
#[derive(Debug, Clone, Copy, PartialEq, Eq, Structural)]
pub enum StepAction {
    Navigate,
    Click,
    SendKeys,
    Screenshot,
    GetTitle,
    GetText,
    WaitForElement,
    WaitForCondition,
    LoginForm,
    Back,
    Forward,
    Refresh,
    ExecuteScript,
    ResizeWindow,
    GetCurrentUrl,
    FindElement,
    Hover,
    ScrollToElement,
    GetAttribute,
    GetProperty,
    FillAndSubmitForm,
}

/// The action a step's `action` text names.
pub open spec fn action_named(name: Seq<char>) -> Option<StepAction> {
    if name == "navigate"@ { Some(StepAction::Navigate) }
    else if name == "click"@ { Some(StepAction::Click) }
    else if name == "send_keys"@ { Some(StepAction::SendKeys) }
    else if name == "screenshot"@ { Some(StepAction::Screenshot) }
    else if name == "get_title"@ { Some(StepAction::GetTitle) }
    else if name == "get_text"@ { Some(StepAction::GetText) }
    else if name == "wait_for_element"@ { Some(StepAction::WaitForElement) }
    else if name == "wait_for_condition"@ { Some(StepAction::WaitForCondition) }
    else if name == "login_form"@ { Some(StepAction::LoginForm) }
    else if name == "back"@ { Some(StepAction::Back) }
    else if name == "forward"@ { Some(StepAction::Forward) }
    else if name == "refresh"@ { Some(StepAction::Refresh) }
    else if name == "execute_script"@ { Some(StepAction::ExecuteScript) }
    else if name == "resize_window"@ { Some(StepAction::ResizeWindow) }
    else if name == "get_current_url"@ { Some(StepAction::GetCurrentUrl) }
    else if name == "find_element"@ { Some(StepAction::FindElement) }
    else if name == "hover"@ { Some(StepAction::Hover) }
    else if name == "scroll_to_element"@ { Some(StepAction::ScrollToElement) }
    else if name == "get_attribute"@ { Some(StepAction::GetAttribute) }
    else if name == "get_property"@ { Some(StepAction::GetProperty) }
    else if name == "fill_and_submit_form"@ { Some(StepAction::FillAndSubmitForm) }
    else { None }
}

/// The action a step names; an unknown name is an execution error.
pub fn step_action(name: &str) -> (r: Result<StepAction, WebDriverError>)
    ensures
        match action_named(name@) {
            Some(a) => r == Ok::<StepAction, WebDriverError>(a),
            None => r matches Err(WebDriverError::Execution(m)) && m@ == "Unknown action: "@ + name@,
        },
{
    if text::str_equal(name, "navigate") { Ok(StepAction::Navigate) }
    else if text::str_equal(name, "click") { Ok(StepAction::Click) }
    else if text::str_equal(name, "send_keys") { Ok(StepAction::SendKeys) }
    else if text::str_equal(name, "screenshot") { Ok(StepAction::Screenshot) }
    else if text::str_equal(name, "get_title") { Ok(StepAction::GetTitle) }
    else if text::str_equal(name, "get_text") { Ok(StepAction::GetText) }
    else if text::str_equal(name, "wait_for_element") { Ok(StepAction::WaitForElement) }
    else if text::str_equal(name, "wait_for_condition") { Ok(StepAction::WaitForCondition) }
    else if text::str_equal(name, "login_form") { Ok(StepAction::LoginForm) }
    else if text::str_equal(name, "back") { Ok(StepAction::Back) }
    else if text::str_equal(name, "forward") { Ok(StepAction::Forward) }
    else if text::str_equal(name, "refresh") { Ok(StepAction::Refresh) }
    else if text::str_equal(name, "execute_script") { Ok(StepAction::ExecuteScript) }
    else if text::str_equal(name, "resize_window") { Ok(StepAction::ResizeWindow) }
    else if text::str_equal(name, "get_current_url") { Ok(StepAction::GetCurrentUrl) }
    else if text::str_equal(name, "find_element") { Ok(StepAction::FindElement) }
    else if text::str_equal(name, "hover") { Ok(StepAction::Hover) }
    else if text::str_equal(name, "scroll_to_element") { Ok(StepAction::ScrollToElement) }
    else if text::str_equal(name, "get_attribute") { Ok(StepAction::GetAttribute) }
    else if text::str_equal(name, "get_property") { Ok(StepAction::GetProperty) }
    else if text::str_equal(name, "fill_and_submit_form") { Ok(StepAction::FillAndSubmitForm) }
    else { Err(WebDriverError::Execution(text::concat2("Unknown action: ", name))) }
}

/// What an action reports without touching the browser, for the actions
/// a recipe step only acknowledges.
pub open spec fn placeholder_text(a: StepAction) -> Option<Seq<char>> {
    match a {
        StepAction::Click => Some("Click executed (placeholder)"@),
        StepAction::SendKeys => Some("Send keys executed (placeholder)"@),
        StepAction::GetTitle => Some("Get title executed (placeholder)"@),
        StepAction::GetText => Some("Get text executed (placeholder)"@),
        StepAction::WaitForElement => Some("Wait for element executed (placeholder)"@),
        StepAction::Back => Some("Back executed (placeholder)"@),
        StepAction::Forward => Some("Forward executed (placeholder)"@),
        StepAction::Refresh => Some("Refresh executed (placeholder)"@),
        StepAction::ExecuteScript => Some("Execute script executed (placeholder)"@),
        StepAction::GetCurrentUrl => Some("Get current URL executed (placeholder)"@),
        StepAction::FindElement => Some("Find element executed (placeholder)"@),
        StepAction::Hover => Some("Hover executed (placeholder)"@),
        StepAction::ScrollToElement => Some("Scroll to element executed (placeholder)"@),
        StepAction::GetAttribute => Some("Get attribute executed (placeholder)"@),
        StepAction::GetProperty => Some("Get property executed (placeholder)"@),
        StepAction::FillAndSubmitForm => Some("Fill and submit form executed (placeholder)"@),
        _ => None,
    }
}

impl StepAction {
    /// The acknowledgement of an action that a recipe step performs
    /// without the browser; `None` for the actions that use it.
    pub fn placeholder_result(&self) -> (r: Option<String>)
        ensures
            opt_view(r) == placeholder_text(*self),
    {
        match self {
            StepAction::Click => Some(text::owned("Click executed (placeholder)")),
            StepAction::SendKeys => Some(text::owned("Send keys executed (placeholder)")),
            StepAction::GetTitle => Some(text::owned("Get title executed (placeholder)")),
            StepAction::GetText => Some(text::owned("Get text executed (placeholder)")),
            StepAction::WaitForElement => Some(text::owned("Wait for element executed (placeholder)")),
            StepAction::Back => Some(text::owned("Back executed (placeholder)")),
            StepAction::Forward => Some(text::owned("Forward executed (placeholder)")),
            StepAction::Refresh => Some(text::owned("Refresh executed (placeholder)")),
            StepAction::ExecuteScript => Some(text::owned("Execute script executed (placeholder)")),
            StepAction::GetCurrentUrl => Some(text::owned("Get current URL executed (placeholder)")),
            StepAction::FindElement => Some(text::owned("Find element executed (placeholder)")),
            StepAction::Hover => Some(text::owned("Hover executed (placeholder)")),
            StepAction::ScrollToElement => Some(text::owned("Scroll to element executed (placeholder)")),
            StepAction::GetAttribute => Some(text::owned("Get attribute executed (placeholder)")),
            StepAction::GetProperty => Some(text::owned("Get property executed (placeholder)")),
            StepAction::FillAndSubmitForm => Some(text::owned("Fill and submit form executed (placeholder)")),
            _ => None,
        }
    }
}

/// A navigation a step asks for.
#[derive(Debug, Clone)]
pub struct NavigateRequest {
    pub url: String,
    pub session_id: String,
}

/// Reads a navigation: `url` is required.
pub fn navigate_request(args: &JsonObject) -> (r: Result<NavigateRequest, WebDriverError>)
    ensures
        match text_arg(*args, "url"@) {
            Some(u) => r matches Ok(q) && q.url@ == u && q.session_id@ == session_arg(*args),
            None => r matches Err(WebDriverError::Execution(m)) && m@ == "Missing 'url' parameter for navigate"@,
        },
{
    match text_argument(args, "url") {
        Some(url) => Ok(NavigateRequest { url, session_id: session_argument(args) }),
        None => Err(WebDriverError::Execution(text::owned("Missing 'url' parameter for navigate"))),
    }
}

/// The report of a navigation.
pub fn navigate_message(url: &str) -> (r: String)
    ensures
        r@ == "Successfully navigated to "@ + url@,
{
    text::concat2("Successfully navigated to ", url)
}

/// A screenshot a step asks for.
#[derive(Debug, Clone)]
pub struct ScreenshotRequest {
    pub save_path: Option<String>,
    pub session_id: String,
}

/// Reads a screenshot: `save_path` is optional.
pub fn screenshot_request(args: &JsonObject) -> (r: ScreenshotRequest)
    ensures
        opt_view(r.save_path) == text_arg(*args, "save_path"@),
        r.session_id@ == session_arg(*args),
{
    ScreenshotRequest { save_path: text_argument(args, "save_path"), session_id: session_argument(args) }
}

/// The report of a screenshot of `byte_count` bytes, saved to a file or
/// not.
pub open spec fn screenshot_text(save_path: Option<Seq<char>>, byte_count: nat) -> Seq<char> {
    match save_path {
        Some(p) => "Screenshot saved to: "@ + p + " ("@ + text::decimal(byte_count) + " bytes)"@,
        None => "Screenshot captured ("@ + text::decimal(byte_count) + " bytes)"@,
    }
}

/// Words the report of a screenshot.
pub fn screenshot_message(save_path: &Option<String>, byte_count: usize) -> (r: String)
    ensures
        r@ == screenshot_text(opt_view(*save_path), byte_count as nat),
{
    let n = text::decimal_string(byte_count as u64);
    match save_path {
        Some(p) => {
            let head = text::concat3("Screenshot saved to: ", p.as_str(), " (");
            text::concat3(head.as_str(), n.as_str(), " bytes)")
        },
        None => text::concat3("Screenshot captured (", n.as_str(), " bytes)"),
    }
}

/// How a wait is carried out.
#[derive(Debug, Clone, Copy, PartialEq, Eq, Structural)]
pub enum WaitKind {
    /// Poll `document.readyState` until it is `complete`.
    PageLoad,
    /// Sleep for the whole timeout.
    Delay,
    /// Evaluate the condition once as a script.
    Script,
}

/// The kind of wait a condition asks for.
pub open spec fn wait_kind(condition: Seq<char>) -> WaitKind {
    if condition == "document.readyState === 'complete'"@ {
        WaitKind::PageLoad
    } else if condition == "true"@ {
        WaitKind::Delay
    } else {
        WaitKind::Script
    }
}

/// A wait a step asks for.
#[derive(Debug, Clone)]
pub struct WaitRequest {
    pub condition: String,
    pub timeout_seconds: u64,
    pub session_id: String,
    pub kind: WaitKind,
}

/// Reads a wait: `condition` is required, `timeout_seconds` defaults to
/// ten.
pub fn wait_request(args: &JsonObject) -> (r: Result<WaitRequest, WebDriverError>)
    ensures
        match text_arg(*args, "condition"@) {
            Some(c) => r matches Ok(q) && q.condition@ == c
                && q.kind == wait_kind(c)
                && q.timeout_seconds == (match unsigned_arg(*args, "timeout_seconds"@) { Some(t) => t, None => 10u64 })
                && q.session_id@ == session_arg(*args),
            None => r matches Err(WebDriverError::Execution(m)) && m@ == "Missing 'condition' parameter"@,
        },
{
    match text_argument(args, "condition") {
        Some(condition) => {
            let timeout_seconds = match unsigned_argument(args, "timeout_seconds") {
                Some(t) => t,
                None => 10,
            };
            let kind = if text::str_equal(condition.as_str(), "document.readyState === 'complete'") {
                WaitKind::PageLoad
            } else if text::str_equal(condition.as_str(), "true") {
                WaitKind::Delay
            } else {
                WaitKind::Script
            };
            Ok(WaitRequest { condition, timeout_seconds, session_id: session_argument(args), kind })
        },
        None => Err(WebDriverError::Execution(text::owned("Missing 'condition' parameter"))),
    }
}

/// The report of a delay wait.
pub fn delay_message(seconds: u64) -> (r: String)
    ensures
        r@ == "Waited "@ + text::decimal(seconds as nat) + " seconds"@,
{
    let n = text::decimal_string(seconds);
    text::concat3("Waited ", n.as_str(), " seconds")
}

/// A login a step asks for.
#[derive(Debug, Clone)]
pub struct LoginRequest {
    pub username: String,
    pub password: String,
    pub session_id: String,
}

/// Reads a login: `username` and `password` are required, in that order.
pub fn login_request(args: &JsonObject) -> (r: Result<LoginRequest, WebDriverError>)
    ensures
        match (text_arg(*args, "username"@), text_arg(*args, "password"@)) {
            (Some(u), Some(p)) => r matches Ok(q) && q.username@ == u && q.password@ == p
                && q.session_id@ == session_arg(*args),
            (None, _) => r matches Err(WebDriverError::Execution(m)) && m@ == "Missing 'username' parameter"@,
            (Some(_), None) => r matches Err(WebDriverError::Execution(m)) && m@ == "Missing 'password' parameter"@,
        },
{
    let username = match text_argument(args, "username") {
        Some(u) => u,
        None => { return Err(WebDriverError::Execution(text::owned("Missing 'username' parameter"))); },
    };
    let password = match text_argument(args, "password") {
        Some(p) => p,
        None => { return Err(WebDriverError::Execution(text::owned("Missing 'password' parameter"))); },
    };
    Ok(LoginRequest { username, password, session_id: session_argument(args) })
}

/// The CSS selectors a recipe login tries for the user name field, in
/// order.
pub open spec fn step_username_selectors() -> Seq<Seq<char>> {
    seq!["input[type='email']"@, "input[name='email']"@, "input[name='username']"@,
        "input[name='user']"@, "#email"@, "#username"@, "#user"@]
}

/// The CSS selectors a recipe login tries for the password field, in
/// order.
pub open spec fn step_password_selectors() -> Seq<Seq<char>> {
    seq!["input[type='password']"@, "input[name='password']"@, "#password"@]
}

/// The CSS selectors a recipe login tries for the submit button, in
/// order; where none is found the form is sent with Enter.
pub open spec fn step_submit_selectors() -> Seq<Seq<char>> {
    seq!["button[type='submit']"@, "input[type='submit']"@, "button:contains('Sign in')"@,
        "button:contains('Login')"@, "button:contains('Log in')"@, ".btn-primary"@, ".submit-btn"@]
}


/// Turns a list of literals into owned strings.
fn owned_list(items: &[&str]) -> (r: Vec<String>)
    ensures
        r@.len() == items@.len(),
        forall|i: int| 0 <= i < items@.len() ==> #[trigger] r@[i]@ == items@[i]@,
{
    let mut r: Vec<String> = Vec::new();
    let mut i: usize = 0;
    while i < items.len()
        invariant
            i <= items@.len(),
            r@.len() == i,
            forall|j: int| 0 <= j < i ==> #[trigger] r@[j]@ == items@[j]@,
        decreases items@.len() - i,
    {
        r.push(text::owned(items[i]));
        i = i + 1;
    }
    r
}

/// The user name selectors of a recipe login.
pub fn step_username_selector_list() -> (r: Vec<String>)
    ensures
        views(r@) == step_username_selectors(),
{
    let items: [&str; 7] = ["input[type='email']", "input[name='email']", "input[name='username']",
        "input[name='user']", "#email", "#username", "#user"];
    let r = owned_list(&items);
    assert(views(r@) =~= step_username_selectors());
    r
}

/// The password selectors of a recipe login.
pub fn step_password_selector_list() -> (r: Vec<String>)
    ensures
        views(r@) == step_password_selectors(),
{
    let items: [&str; 3] = ["input[type='password']", "input[name='password']", "#password"];
    let r = owned_list(&items);
    assert(views(r@) =~= step_password_selectors());
    r
}

/// The submit selectors of a recipe login.
pub fn step_submit_selector_list() -> (r: Vec<String>)
    ensures
        views(r@) == step_submit_selectors(),
{
    let items: [&str; 7] = ["button[type='submit']", "input[type='submit']", "button:contains('Sign in')",
        "button:contains('Login')", "button:contains('Log in')", ".btn-primary", ".submit-btn"];
    let r = owned_list(&items);
    assert(views(r@) =~= step_submit_selectors());
    r
}

} // verus!
