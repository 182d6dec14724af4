//! The tools the server offers, by group, and which of them a server
//! declares and serves in each of its two modes.
//!
//! The stdio server leaves the lifecycle of the WebDriver processes to its
//! client, so it offers the driver lifecycle tools; the HTTP server manages
//! drivers itself and offers neither those nor the forced cleanup.

use vstd::prelude::*;
use crate::text::views;
use crate::text;

verus! {

/// How the server is run.
#[derive(Debug, Clone, Copy, PartialEq, Eq, Structural)]
pub enum ServerMode {
    /// The client controls the driver lifecycle.
    Stdio,
    /// The server manages the driver lifecycle.
    Http,
}


/// Browser automation tools.
pub struct AutomationTools;

/// Performance monitoring tools.
pub struct PerformanceTools;

/// Recipe tools.
pub struct RecipeTools;

/// Driver lifecycle tools.
pub struct DriverManagementTools;

/// The tool lists of the two modes.
pub struct ToolDefinitions;

/// The browser automation tools, in the order they are listed.
pub open spec fn automation_tool_names() -> Seq<Seq<char>> {
    seq!["navigate"@, "find_element"@, "click"@, "send_keys"@, "get_title"@, "get_text"@,
        "execute_script"@, "get_current_url"@, "back"@, "forward"@, "refresh"@, "get_page_load_status"@,
        "screenshot"@, "resize_window"@, "wait_for_element"@, "wait_for_condition"@, "get_element_info"@,
        "get_attribute"@, "get_page_source"@, "get_property"@, "find_elements"@, "scroll_to_element"@,
        "hover"@, "fill_and_submit_form"@, "login_form"@]
}

/// The performance tools, in order.
pub open spec fn performance_tool_names() -> Seq<Seq<char>> {
    seq!["get_console_logs"@, "get_performance_metrics"@, "monitor_memory_usage"@,
        "run_performance_test"@, "monitor_resource_usage"@]
}

/// The recipe tools, in order.
pub open spec fn recipe_tool_names() -> Seq<Seq<char>> {
    seq!["create_recipe"@, "list_recipes"@, "get_recipe"@, "execute_recipe"@, "delete_recipe"@,
        "create_recipe_template"@]
}

/// The driver lifecycle tools, in order.
pub open spec fn lifecycle_tool_names() -> Seq<Seq<char>> {
    seq!["get_healthy_endpoints"@, "refresh_driver_health"@, "list_managed_drivers"@, "start_driver"@,
        "stop_driver"@, "stop_all_drivers"@]
}

/// The tools both modes offer.
pub open spec fn shared_tool_names() -> Seq<Seq<char>> {
    automation_tool_names() + performance_tool_names() + recipe_tool_names()
}

/// The tools a mode declares.
pub open spec fn mode_tool_names(mode: ServerMode) -> Seq<Seq<char>> {
    match mode {
        ServerMode::Stdio => shared_tool_names() + lifecycle_tool_names(),
        ServerMode::Http => shared_tool_names(),
    }
}

/// Whether a tool call is served in a mode: exactly the tools the mode
/// declares.
pub open spec fn tool_served(name: Seq<char>, mode: ServerMode) -> bool {
    mode_tool_names(mode).contains(name)
}

/// Turns a list of literals into owned strings.
fn owned_list(items: &[&str]) -> (r: Vec<String>)
    ensures
        r@.len() == items@.len(),
        forall|i: int| 0 <= i < items@.len() ==> #[trigger] r@[i]@ == items@[i]@,
{
    let mut r: Vec<String> = Vec::new();
    let mut i: usize = 0;
    while i < items.len()
        invariant
            i <= items@.len(),
            r@.len() == i,
            forall|j: int| 0 <= j < i ==> #[trigger] r@[j]@ == items@[j]@,
        decreases items@.len() - i,
    {
        r.push(text::owned(items[i]));
        i = i + 1;
    }
    r
}

/// Appends the second list to the first.
fn append_all(a: &mut Vec<String>, b: Vec<String>)
    ensures
        views(final(a)@) == views(old(a)@) + views(b@),
{
    let ghost b0 = b@;
    let mut b = b;
    a.append(&mut b);
    assert(views(a@) =~= views(old(a)@) + views(b0));
}

impl AutomationTools {
    /// The names of the browser automation tools.
    pub fn tool_names() -> (r: Vec<String>)
        ensures
            views(r@) == automation_tool_names(),
    {
        let items: [&str; 25] = ["navigate", "find_element", "click", "send_keys", "get_title", "get_text",
            "execute_script", "get_current_url", "back", "forward", "refresh", "get_page_load_status",
            "screenshot", "resize_window", "wait_for_element", "wait_for_condition", "get_element_info",
            "get_attribute", "get_page_source", "get_property", "find_elements", "scroll_to_element",
            "hover", "fill_and_submit_form", "login_form"];
        let r = owned_list(&items);
        assert(views(r@) =~= automation_tool_names());
        r
    }
}

impl PerformanceTools {
    /// The names of the performance tools.
    pub fn tool_names() -> (r: Vec<String>)
        ensures
            views(r@) == performance_tool_names(),
    {
        let items: [&str; 5] = ["get_console_logs", "get_performance_metrics", "monitor_memory_usage",
            "run_performance_test", "monitor_resource_usage"];
        let r = owned_list(&items);
        assert(views(r@) =~= performance_tool_names());
        r
    }
}

impl RecipeTools {
    /// The names of the recipe tools.
    pub fn tool_names() -> (r: Vec<String>)
        ensures
            views(r@) == recipe_tool_names(),
    {
        let items: [&str; 6] = ["create_recipe", "list_recipes", "get_recipe", "execute_recipe",
            "delete_recipe", "create_recipe_template"];
        let r = owned_list(&items);
        assert(views(r@) =~= recipe_tool_names());
        r
    }
}

impl DriverManagementTools {
    /// The names of the driver lifecycle tools.
    pub fn tool_names() -> (r: Vec<String>)
        ensures
            views(r@) == lifecycle_tool_names(),
    {
        let items: [&str; 6] = ["get_healthy_endpoints", "refresh_driver_health", "list_managed_drivers",
            "start_driver", "stop_driver", "stop_all_drivers"];
        let r = owned_list(&items);
        assert(views(r@) =~= lifecycle_tool_names());
        r
    }
}

impl ToolDefinitions {
    /// The names of the tools a mode declares, in the order they are
    /// listed.
    pub fn names_for_mode(mode: ServerMode) -> (r: Vec<String>)
        ensures
            views(r@) == mode_tool_names(mode),
    {
        let mut r = AutomationTools::tool_names();
        append_all(&mut r, PerformanceTools::tool_names());
        append_all(&mut r, RecipeTools::tool_names());
        match mode {
            ServerMode::Stdio => {
                append_all(&mut r, DriverManagementTools::tool_names());
            },
            ServerMode::Http => {},
        }
        r
    }

    /// The names of the tools of the default (stdio) mode.
    pub fn list_all_names() -> (r: Vec<String>)
        ensures
            views(r@) == mode_tool_names(ServerMode::Stdio),
    {
        Self::names_for_mode(ServerMode::Stdio)
    }
}

/// Whether a list holds a string.
pub fn list_contains(v: &Vec<String>, s: &str) -> (r: bool)
    ensures
        r == views(v@).contains(s@),
{
    let mut i: usize = 0;
    while i < v.len()
        invariant
            i <= v@.len(),
            forall|j: int| 0 <= j < i ==> views(v@)[j] != s@,
        decreases v@.len() - i,
    {
        if text::str_equal(v[i].as_str(), s) {
            assert(views(v@)[i as int] == s@);
            return true;
        }
        i = i + 1;
    }
    proof {
        if views(v@).contains(s@) {
            let k = choose|k: int| 0 <= k < views(v@).len() && views(v@)[k] == s@;
            assert(views(v@)[k] != s@);
        }
    }
    false
}

/// Decides whether a tool call is served in a mode: exactly the tools the
/// mode declares (`names_for_mode`); any other call is answered as an
/// unknown method and runs no handler.
pub fn is_tool_served(name: &str, mode: ServerMode) -> (r: bool)
    ensures
        r == tool_served(name@, mode),
        r <==> mode_tool_names(mode).contains(name@),
{
    let declared = ToolDefinitions::names_for_mode(mode);
    list_contains(&declared, name)
}

/// A tool call is served in a mode exactly when the mode declares the
/// tool; the driver lifecycle tools are declared and served in stdio mode
/// only; and the stdio server declares exactly the tools of the HTTP
/// server and six more.
pub proof fn lemma_mode_separation(mode: ServerMode, name: Seq<char>)
    ensures
        tool_served(name, mode) <==> mode_tool_names(mode).contains(name),
        lifecycle_tool_names().contains(name) ==> (tool_served(name, mode) <==> mode == ServerMode::Stdio),
        lifecycle_tool_names().contains(name) ==> (mode_tool_names(mode).contains(name) <==> mode == ServerMode::Stdio),
        mode_tool_names(ServerMode::Stdio).len() == mode_tool_names(ServerMode::Http).len() + 6,
{
    if lifecycle_tool_names().contains(name) {
        let k = choose|k: int| 0 <= k < lifecycle_tool_names().len() && lifecycle_tool_names()[k] == name;
        assert(mode_tool_names(ServerMode::Stdio)[shared_tool_names().len() + k] == name);
        lemma_lifecycle_not_shared(name);
    }
}

/// Every browser automation, performance and recipe tool that the server
/// handles is served in both modes.
pub proof fn lemma_handled_tools_served(mode: ServerMode)
    ensures
        tool_served("navigate"@, mode),
        tool_served("get_current_url"@, mode),
        tool_served("back"@, mode),
        tool_served("forward"@, mode),
        tool_served("refresh"@, mode),
        tool_served("get_page_load_status"@, mode),
        tool_served("click"@, mode),
        tool_served("send_keys"@, mode),
        tool_served("wait_for_element"@, mode),
        tool_served("wait_for_condition"@, mode),
        tool_served("get_element_info"@, mode),
        tool_served("get_attribute"@, mode),
        tool_served("get_property"@, mode),
        tool_served("find_element"@, mode),
        tool_served("find_elements"@, mode),
        tool_served("scroll_to_element"@, mode),
        tool_served("hover"@, mode),
        tool_served("fill_and_submit_form"@, mode),
        tool_served("login_form"@, mode),
        tool_served("get_title"@, mode),
        tool_served("get_text"@, mode),
        tool_served("execute_script"@, mode),
        tool_served("screenshot"@, mode),
        tool_served("resize_window"@, mode),
        tool_served("get_page_source"@, mode),
        tool_served("get_console_logs"@, mode),
        tool_served("get_performance_metrics"@, mode),
        tool_served("monitor_memory_usage"@, mode),
        tool_served("run_performance_test"@, mode),
        tool_served("monitor_resource_usage"@, mode),
        tool_served("create_recipe"@, mode),
        tool_served("list_recipes"@, mode),
        tool_served("get_recipe"@, mode),
        tool_served("execute_recipe"@, mode),
        tool_served("delete_recipe"@, mode),
        tool_served("create_recipe_template"@, mode),
{
    assert(automation_tool_names().len() == 25);
    assert(shared_tool_names().len() == 36);
    assert(mode_tool_names(mode)[0] == "navigate"@);
    assert(mode_tool_names(mode)[7] == "get_current_url"@);
    assert(mode_tool_names(mode)[8] == "back"@);
    assert(mode_tool_names(mode)[9] == "forward"@);
    assert(mode_tool_names(mode)[10] == "refresh"@);
    assert(mode_tool_names(mode)[11] == "get_page_load_status"@);
    assert(mode_tool_names(mode)[2] == "click"@);
    assert(mode_tool_names(mode)[3] == "send_keys"@);
    assert(mode_tool_names(mode)[14] == "wait_for_element"@);
    assert(mode_tool_names(mode)[15] == "wait_for_condition"@);
    assert(mode_tool_names(mode)[16] == "get_element_info"@);
    assert(mode_tool_names(mode)[17] == "get_attribute"@);
    assert(mode_tool_names(mode)[19] == "get_property"@);
    assert(mode_tool_names(mode)[1] == "find_element"@);
    assert(mode_tool_names(mode)[20] == "find_elements"@);
    assert(mode_tool_names(mode)[21] == "scroll_to_element"@);
    assert(mode_tool_names(mode)[22] == "hover"@);
    assert(mode_tool_names(mode)[23] == "fill_and_submit_form"@);
    assert(mode_tool_names(mode)[24] == "login_form"@);
    assert(mode_tool_names(mode)[4] == "get_title"@);
    assert(mode_tool_names(mode)[5] == "get_text"@);
    assert(mode_tool_names(mode)[6] == "execute_script"@);
    assert(mode_tool_names(mode)[12] == "screenshot"@);
    assert(mode_tool_names(mode)[13] == "resize_window"@);
    assert(mode_tool_names(mode)[18] == "get_page_source"@);
    assert(mode_tool_names(mode)[25] == "get_console_logs"@);
    assert(mode_tool_names(mode)[26] == "get_performance_metrics"@);
    assert(mode_tool_names(mode)[27] == "monitor_memory_usage"@);
    assert(mode_tool_names(mode)[28] == "run_performance_test"@);
    assert(mode_tool_names(mode)[29] == "monitor_resource_usage"@);
    assert(mode_tool_names(mode)[30] == "create_recipe"@);
    assert(mode_tool_names(mode)[31] == "list_recipes"@);
    assert(mode_tool_names(mode)[32] == "get_recipe"@);
    assert(mode_tool_names(mode)[33] == "execute_recipe"@);
    assert(mode_tool_names(mode)[34] == "delete_recipe"@);
    assert(mode_tool_names(mode)[35] == "create_recipe_template"@);
}

/// No lifecycle tool is among the shared tools.
proof fn lemma_lifecycle_not_shared(name: Seq<char>)
    requires
        lifecycle_tool_names().contains(name),
    ensures
        !shared_tool_names().contains(name),
{
    reveal_strlit("get_healthy_endpoints");
    reveal_strlit("refresh_driver_health");
    reveal_strlit("list_managed_drivers");
    reveal_strlit("start_driver");
    reveal_strlit("stop_driver");
    reveal_strlit("stop_all_drivers");
    let k = choose|k: int| 0 <= k < lifecycle_tool_names().len() && lifecycle_tool_names()[k] == name;
    assert forall|j: int| 0 <= j < shared_tool_names().len() implies shared_tool_names()[j] != name by {
        lemma_shared_not_lifecycle(j, k);
    }
}

/// Shared tool `j` is not lifecycle tool `k`.
proof fn lemma_shared_not_lifecycle(j: int, k: int)
    requires
        0 <= j < shared_tool_names().len(),
        0 <= k < lifecycle_tool_names().len(),
    ensures
        shared_tool_names()[j] != lifecycle_tool_names()[k],
{
    reveal_strlit("get_healthy_endpoints");
    reveal_strlit("refresh_driver_health");
    reveal_strlit("list_managed_drivers");
    reveal_strlit("start_driver");
    reveal_strlit("stop_driver");
    reveal_strlit("stop_all_drivers");
    reveal_strlit("navigate");
    reveal_strlit("find_element");
    reveal_strlit("click");
    reveal_strlit("send_keys");
    reveal_strlit("get_title");
    reveal_strlit("get_text");
    reveal_strlit("execute_script");
    reveal_strlit("get_current_url");
    reveal_strlit("back");
    reveal_strlit("forward");
    reveal_strlit("refresh");
    reveal_strlit("get_page_load_status");
    reveal_strlit("screenshot");
    reveal_strlit("resize_window");
    reveal_strlit("wait_for_element");
    reveal_strlit("wait_for_condition");
    reveal_strlit("get_element_info");
    reveal_strlit("get_attribute");
    reveal_strlit("get_page_source");
    reveal_strlit("get_property");
    reveal_strlit("find_elements");
    reveal_strlit("scroll_to_element");
    reveal_strlit("hover");
    reveal_strlit("fill_and_submit_form");
    reveal_strlit("login_form");
    reveal_strlit("get_console_logs");
    reveal_strlit("get_performance_metrics");
    reveal_strlit("monitor_memory_usage");
    reveal_strlit("run_performance_test");
    reveal_strlit("monitor_resource_usage");
    reveal_strlit("create_recipe");
    reveal_strlit("list_recipes");
    reveal_strlit("get_recipe");
    reveal_strlit("execute_recipe");
    reveal_strlit("delete_recipe");
    reveal_strlit("create_recipe_template");
    let a = shared_tool_names()[j];
    let b = lifecycle_tool_names()[k];
    // Each lifecycle name differs from every shared name in its length or
    // in its first character.
    assert(a.len() != b.len() || a[0] != b[0]);
}

} // verus!
