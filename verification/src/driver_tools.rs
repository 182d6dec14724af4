//! The driver lifecycle tools: what they read from a call, what they
//! answer, and the shell commands that clear away stray driver and browser
//! processes.

use vstd::prelude::*;
use crate::text;
use crate::json;
use crate::json::{JsonEntry, JsonObject};
use crate::actions::{call_text_arg, call_text_argument};
use crate::driver::{DriverType, driver_named, browser_name_of};

verus! {

/// Reads the driver a call names: `driver_type` is required and must name
/// Chrome, Firefox or Edge in any letter case.
pub fn driver_type_argument(args: &Option<JsonObject>) -> (r: Result<DriverType, String>)
    ensures
        match call_text_arg(*args, "driver_type"@) {
            None => r matches Err(m) && m@ == "driver_type parameter required"@,
            Some(t) => match driver_named(text::lowercase(t)) {
                Some(d) => r == Ok::<DriverType, String>(d),
                None => r matches Err(m) && m@ == "Invalid driver_type. Use: chrome, firefox, or edge"@,
            },
        },
{
    match call_text_argument(args, "driver_type") {
        None => Err(text::owned("driver_type parameter required")),
        Some(t) => match DriverType::from_string(t.as_str()) {
            Some(d) => Ok(d),
            None => Err(text::owned("Invalid driver_type. Use: chrome, firefox, or edge")),
        },
    }
}

/// The lower-case name of a driver's browser.
pub open spec fn lower_browser_name(d: DriverType) -> Seq<char> {
    match d {
        DriverType::Chrome => "chrome"@,
        DriverType::Firefox => "firefox"@,
        DriverType::Edge => "edge"@,
    }
}

fn lower_browser_name_of(d: DriverType) -> (r: String)
    ensures
        r@ == lower_browser_name(d),
{
    match d {
        DriverType::Chrome => text::owned("chrome"),
        DriverType::Firefox => text::owned("firefox"),
        DriverType::Edge => text::owned("edge"),
    }
}

/// The healthy endpoints as a JSON object keyed by lower-case browser name.
pub open spec fn endpoints_entries(list: Seq<(DriverType, String)>) -> Map<Seq<char>, JsonEntry>
    decreases list.len(),
{
    if list.len() == 0 {
        Map::empty()
    } else {
        endpoints_entries(list.drop_last()).insert(lower_browser_name(list.last().0), JsonEntry::Text(list.last().1@))
    }
}

/// The text of the healthy endpoints report.
pub open spec fn healthy_endpoints_text(m: JsonObject) -> Seq<char> {
    "Healthy endpoints:\n"@ + json::json_pretty_text(m)
}

/// Words the healthy endpoints report: the endpoints as indented JSON.
pub fn healthy_endpoints_message(list: &Vec<(DriverType, String)>) -> (r: String)
    ensures
        exists|m: JsonObject| json::json_entries(m) == endpoints_entries(list@) && r@ == healthy_endpoints_text(m),
{
    let mut m = json::json_object_new();
    let mut i: usize = 0;
    while i < list.len()
        invariant
            i <= list@.len(),
            json::json_entries(m) == endpoints_entries(list@.take(i as int)),
        decreases list@.len() - i,
    {
        assert(list@.take(i + 1).drop_last() == list@.take(i as int));
        json::json_insert_text(&mut m, lower_browser_name_of(list[i].0), list[i].1.clone());
        i = i + 1;
    }
    assert(list@.take(list@.len() as int) == list@);
    let t = match json::json_to_string_pretty(&m) {
        Ok(t) => t,
        Err(_) => text::owned("{}"),
    };
    text::concat2("Healthy endpoints:\n", t.as_str())
}

/// The report of a health check.
pub fn health_check_message(healthy: usize) -> (r: String)
    ensures
        r@ == "Health check completed. "@ + text::decimal(healthy as nat) + " healthy endpoints found"@,
{
    let n = text::decimal_string(healthy as u64);
    text::concat3("Health check completed. ", n.as_str(), " healthy endpoints found")
}

/// One line of the list of managed processes.
pub open spec fn managed_line(p: (DriverType, u32, u16)) -> Seq<char> {
    "  "@ + browser_name_of(p.0) + " - PID: "@ + text::decimal(p.1 as nat) + ", Port: "@
        + text::decimal(p.2 as nat) + "\n"@
}

/// The lines of the list of managed processes.
pub open spec fn managed_lines(s: Seq<(DriverType, u32, u16)>) -> Seq<char>
    decreases s.len(),
{
    if s.len() == 0 { Seq::empty() } else { managed_lines(s.drop_last()) + managed_line(s.last()) }
}

/// The report of the managed processes.
pub open spec fn managed_text(s: Seq<(DriverType, u32, u16)>) -> Seq<char> {
    if s.len() == 0 {
        "No managed WebDriver processes running"@
    } else {
        "Managed WebDriver processes:\n"@ + managed_lines(s)
    }
}

/// Words the list of managed processes.
pub fn managed_drivers_message(list: &Vec<(DriverType, u32, u16)>) -> (r: String)
    ensures
        r@ == managed_text(list@),
{
    if list.len() == 0 {
        return text::owned("No managed WebDriver processes running");
    }
    let mut out = text::owned("Managed WebDriver processes:\n");
    let mut i: usize = 0;
    while i < list.len()
        invariant
            i <= list@.len(),
            out@ == "Managed WebDriver processes:\n"@ + managed_lines(list@.take(i as int)),
        decreases list@.len() - i,
    {
        let (d, pid, port) = list[i];
        let a = text::concat3("  ", d.browser_name(), " - PID: ");
        let p = text::decimal_string(pid as u64);
        let b = text::concat3(a.as_str(), p.as_str(), ", Port: ");
        let q = text::decimal_string(port as u64);
        let line = text::concat3(b.as_str(), q.as_str(), "\n");
        assert(line@ == managed_line(list@[i as int]));
        out.append(line.as_str());
        assert(list@.take(i + 1).drop_last() == list@.take(i as int));
        i = i + 1;
    }
    assert(list@.take(list@.len() as int) == list@);
    out
}

/// What a lifecycle tool reports.
#[derive(Debug, Clone)]
pub enum LifecycleReport {
    Started { driver: DriverType, endpoint: String },
    StartFailed { driver: DriverType, error: String },
    Stopped { driver: DriverType },
    StopFailed { driver: DriverType, error: String },
    AllStopped,
    StopAllFailed { error: String },
    CleanedUp,
    CleanupFailed { error: String },
    HealthCheckFailed { error: String },
}

/// The text of a lifecycle report.
pub open spec fn lifecycle_text(r: LifecycleReport) -> Seq<char> {
    match r {
        LifecycleReport::Started { driver, endpoint } =>
            "Successfully started "@ + browser_name_of(driver) + " WebDriver at "@ + endpoint@,
        LifecycleReport::StartFailed { driver, error } =>
            "Failed to start "@ + browser_name_of(driver) + " WebDriver: "@ + error@,
        LifecycleReport::Stopped { driver } => "Successfully stopped "@ + browser_name_of(driver) + " WebDriver"@,
        LifecycleReport::StopFailed { driver, error } =>
            "Failed to stop "@ + browser_name_of(driver) + " WebDriver: "@ + error@,
        LifecycleReport::AllStopped => "Successfully stopped all WebDriver processes"@,
        LifecycleReport::StopAllFailed { error } => "Failed to stop all drivers: "@ + error@,
        LifecycleReport::CleanedUp => "Successfully force cleaned up all orphaned browser and WebDriver processes"@,
        LifecycleReport::CleanupFailed { error } => "Failed to force cleanup orphaned processes: "@ + error@,
        LifecycleReport::HealthCheckFailed { error } => "Health check failed: "@ + error@,
    }
}

impl LifecycleReport {
    /// Words the report.
    pub fn message(&self) -> (r: String)
        ensures
            r@ == lifecycle_text(*self),
    {
        match self {
            LifecycleReport::Started { driver, endpoint } => {
                let a = text::concat3("Successfully started ", driver.browser_name(), " WebDriver at ");
                text::concat2(a.as_str(), endpoint.as_str())
            },
            LifecycleReport::StartFailed { driver, error } => {
                let a = text::concat3("Failed to start ", driver.browser_name(), " WebDriver: ");
                text::concat2(a.as_str(), error.as_str())
            },
            LifecycleReport::Stopped { driver } => text::concat3("Successfully stopped ", driver.browser_name(), " WebDriver"),
            LifecycleReport::StopFailed { driver, error } => {
                let a = text::concat3("Failed to stop ", driver.browser_name(), " WebDriver: ");
                text::concat2(a.as_str(), error.as_str())
            },
            LifecycleReport::AllStopped => text::owned("Successfully stopped all WebDriver processes"),
            LifecycleReport::StopAllFailed { error } => text::concat2("Failed to stop all drivers: ", error.as_str()),
            LifecycleReport::CleanedUp => text::owned("Successfully force cleaned up all orphaned browser and WebDriver processes"),
            LifecycleReport::CleanupFailed { error } => text::concat2("Failed to force cleanup orphaned processes: ", error.as_str()),
            LifecycleReport::HealthCheckFailed { error } => text::concat2("Health check failed: ", error.as_str()),
        }
    }
}

/// The shell commands of a cleanup, each with what it clears.
pub type CleanupCommands = Vec<(String, String)>;

/// The views of described commands.
pub open spec fn command_views(v: Seq<(String, String)>) -> Seq<(Seq<char>, Seq<char>)> {
    v.map_values(|p: (String, String)| (p.0@, p.1@))
}

/// The commands that stop stray driver processes; they run first, and
/// the browsers are cleared a second later.
pub open spec fn driver_cleanup_commands() -> Seq<(Seq<char>, Seq<char>)> {
    seq![
        ("chromedriver processes"@, "pkill -f chromedriver"@),
        ("geckodriver processes"@, "pkill -f geckodriver"@),
        ("msedgedriver processes"@, "pkill -f msedgedriver"@),
    ]
}

/// The commands that stop stray browser processes.
pub open spec fn browser_cleanup_commands() -> Seq<(Seq<char>, Seq<char>)> {
    seq![
        ("firefox headless processes"@, "pkill -f 'firefox.*headless'"@),
        ("chrome headless processes"@, "pkill -f 'chrome.*headless'"@),
        ("chromium headless processes"@, "pkill -f 'chromium.*headless'"@),
        ("firefox marionette processes"@, "pkill -f 'firefox.*marionette'"@),
        ("chrome webdriver processes"@, "pkill -f 'chrome.*webdriver'"@),
        ("chromium webdriver processes"@, "pkill -f 'chromium.*webdriver'"@),
        ("chrome crashpad handlers"@, "pkill -f chrome_crashpad_handler"@),
        ("chrome zygote processes"@, "pkill -f 'chrome.*zygote'"@),
        ("chrome utility processes"@, "pkill -f 'chrome.*utility'"@),
        ("chrome gpu processes"@, "pkill -f 'chrome.*gpu-process'"@),
        ("chrome renderer processes"@, "pkill -f 'chrome.*renderer'"@),
    ]
}

/// The last, forceful command: it kills any browser still running under
/// WebDriver control.
pub open spec fn aggressive_cleanup_command() -> Seq<char> {
    "ps aux | grep -E '(chrome|firefox|chromium)' | grep -E '(headless|webdriver|marionette)' | grep -v grep | awk '{print $2}' | xargs -r kill -9"@
}

/// The commands that remove browser profiles left in `/tmp`.
pub open spec fn temp_cleanup_commands() -> Seq<(Seq<char>, Seq<char>)> {
    seq![
        ("chromium temp directories"@, "find /tmp -name '.org.chromium.Chromium.*' -type d -exec rm -rf {} + 2>/dev/null || true"@),
        ("firefox temp directories"@, "find /tmp -name 'rust_mozprofile*' -type d -exec rm -rf {} + 2>/dev/null || true"@),
        ("webdriver temp files"@, "find /tmp -name 'webdriver-*' -exec rm -rf {} + 2>/dev/null || true"@),
    ]
}

fn described(items: &[(&str, &str)]) -> (r: CleanupCommands)
    ensures
        r@.len() == items@.len(),
        forall|i: int| 0 <= i < items@.len() ==> #[trigger] r@[i].0@ == items@[i].0@ && r@[i].1@ == items@[i].1@,
{
    let mut r: CleanupCommands = Vec::new();
    let mut i: usize = 0;
    while i < items.len()
        invariant
            i <= items@.len(),
            r@.len() == i,
            forall|j: int| 0 <= j < i ==> #[trigger] r@[j].0@ == items@[j].0@ && r@[j].1@ == items@[j].1@,
        decreases items@.len() - i,
    {
        let (d, c) = items[i];
        r.push((text::owned(d), text::owned(c)));
        i = i + 1;
    }
    r
}

/// The stray-driver commands.
pub fn driver_cleanup_command_list() -> (r: CleanupCommands)
    ensures
        command_views(r@) == driver_cleanup_commands(),
{
    let items: [(&str, &str); 3] = [
        ("chromedriver processes", "pkill -f chromedriver"),
        ("geckodriver processes", "pkill -f geckodriver"),
        ("msedgedriver processes", "pkill -f msedgedriver"),
    ];
    let r = described(&items);
    assert(command_views(r@) =~= driver_cleanup_commands());
    r
}

/// The stray-browser commands.
pub fn browser_cleanup_command_list() -> (r: CleanupCommands)
    ensures
        command_views(r@) == browser_cleanup_commands(),
{
    let items: [(&str, &str); 11] = [
        ("firefox headless processes", "pkill -f 'firefox.*headless'"),
        ("chrome headless processes", "pkill -f 'chrome.*headless'"),
        ("chromium headless processes", "pkill -f 'chromium.*headless'"),
        ("firefox marionette processes", "pkill -f 'firefox.*marionette'"),
        ("chrome webdriver processes", "pkill -f 'chrome.*webdriver'"),
        ("chromium webdriver processes", "pkill -f 'chromium.*webdriver'"),
        ("chrome crashpad handlers", "pkill -f chrome_crashpad_handler"),
        ("chrome zygote processes", "pkill -f 'chrome.*zygote'"),
        ("chrome utility processes", "pkill -f 'chrome.*utility'"),
        ("chrome gpu processes", "pkill -f 'chrome.*gpu-process'"),
        ("chrome renderer processes", "pkill -f 'chrome.*renderer'"),
    ];
    let r = described(&items);
    assert(command_views(r@) =~= browser_cleanup_commands());
    r
}

/// The forceful command.
pub fn aggressive_cleanup_command_text() -> (r: &'static str)
    ensures
        r@ == aggressive_cleanup_command(),
{
    "ps aux | grep -E '(chrome|firefox|chromium)' | grep -E '(headless|webdriver|marionette)' | grep -v grep | awk '{print $2}' | xargs -r kill -9"
}

/// The temporary-profile commands.
pub fn temp_cleanup_command_list() -> (r: CleanupCommands)
    ensures
        command_views(r@) == temp_cleanup_commands(),
{
    let items: [(&str, &str); 3] = [
        ("chromium temp directories", "find /tmp -name '.org.chromium.Chromium.*' -type d -exec rm -rf {} + 2>/dev/null || true"),
        ("firefox temp directories", "find /tmp -name 'rust_mozprofile*' -type d -exec rm -rf {} + 2>/dev/null || true"),
        ("webdriver temp files", "find /tmp -name 'webdriver-*' -exec rm -rf {} + 2>/dev/null || true"),
    ];
    let r = described(&items);
    assert(command_views(r@) =~= temp_cleanup_commands());
    r
}

/// The commands a driver manager runs to clear stray processes: the
/// driver patterns, then the browser patterns (the helper processes of
/// Chrome last), without descriptions.
pub open spec fn manager_cleanup_commands() -> Seq<Seq<char>> {
    seq!["pkill -f chromedriver"@, "pkill -f geckodriver"@, "pkill -f msedgedriver"@,
        "pkill -f 'firefox.*headless'"@, "pkill -f 'firefox.*marionette'"@, "pkill -f 'chrome.*headless'"@,
        "pkill -f 'chrome.*webdriver'"@, "pkill -f 'chromium.*headless'"@, "pkill -f 'chromium.*webdriver'"@,
        "pkill -f chrome_crashpad_handler"@, "pkill -f 'chrome.*zygote'"@, "pkill -f 'chrome.*utility'"@,
        "pkill -f 'chrome.*gpu-process'"@, "pkill -f 'chrome.*renderer'"@]
}

/// The driver manager's cleanup commands, in order.
pub fn manager_cleanup_command_list() -> (r: Vec<String>)
    ensures
        r@.map_values(|s: String| s@) == manager_cleanup_commands(),
{
    let items: [&str; 14] = ["pkill -f chromedriver", "pkill -f geckodriver", "pkill -f msedgedriver",
        "pkill -f 'firefox.*headless'", "pkill -f 'firefox.*marionette'", "pkill -f 'chrome.*headless'",
        "pkill -f 'chrome.*webdriver'", "pkill -f 'chromium.*headless'", "pkill -f 'chromium.*webdriver'",
        "pkill -f chrome_crashpad_handler", "pkill -f 'chrome.*zygote'", "pkill -f 'chrome.*utility'",
        "pkill -f 'chrome.*gpu-process'", "pkill -f 'chrome.*renderer'"];
    let mut r: Vec<String> = Vec::new();
    let mut i: usize = 0;
    while i < 14
        invariant
            i <= 14,
            r@.len() == i,
            forall|j: int| 0 <= j < i ==> #[trigger] r@[j]@ == items@[j]@,
        decreases 14 - i,
    {
        r.push(text::owned(items[i]));
        i = i + 1;
    }
    assert(r@.map_values(|s: String| s@) =~= manager_cleanup_commands());
    r
}

} // verus!
