//! Choosing the WebDriver a browser session talks to, and what it asks the
//! driver for.
//!
//! A session whose name starts with a browser's name (`firefox_...`,
//! `chrome_...`) prefers that browser.  With endpoint `auto`, a healthy
//! driver already running is used when there is one; otherwise a driver is
//! started, or the request fails.  Connecting and starting drivers is the
//! caller's work: `plan_endpoint` says which of these to do.

use vstd::prelude::*;
use crate::text::views;
use crate::text;
use crate::config::{Config, opt_view, setup_guidance_text};
use crate::driver::{DriverType, DriverManager, driver_named, default_port_of, localhost_endpoint};
use crate::error::WebDriverError;

verus! {

/// Checks the configuration a client manager is built on: one that does
/// not validate is refused with a generic error, `Configuration error: `
/// followed by the reason.
pub fn check_client_config(config: &Config) -> (r: Result<(), WebDriverError>)
    ensures
        match crate::config::config_validation(*config) {
            Ok(()) => r is Ok,
            Err(m) => r matches Err(WebDriverError::Generic(e)) && e@ == "Configuration error: "@ + m,
        },
{
    match config.validate() {
        Ok(()) => Ok(()),
        Err(m) => {
            proof { reveal_strlit("Configuration error: "); }
            Err(WebDriverError::Generic(text::concat2("Configuration error: ", m.as_str())))
        },
    }
}

/// The browser a lower-cased session name prefers.
pub open spec fn session_preference(lower: Seq<char>) -> Option<DriverType> {
    if "firefox"@.is_prefix_of(lower) || "gecko"@.is_prefix_of(lower) {
        Some(DriverType::Firefox)
    } else if "chrome"@.is_prefix_of(lower) || "chromium"@.is_prefix_of(lower) {
        Some(DriverType::Chrome)
    } else if "edge"@.is_prefix_of(lower) {
        Some(DriverType::Edge)
    } else {
        None
    }
}

/// A session name prefers the driver that one of the driver names
/// (`chrome`, `chromium`, `firefox`, `gecko`, `edge`) starting it names,
/// and no driver when none of them starts it.
pub proof fn lemma_session_preference_names(lower: Seq<char>)
    ensures
        forall|p: Seq<char>| #[trigger] driver_named(p) is Some && p.is_prefix_of(lower)
            ==> session_preference(lower) == driver_named(p),
        session_preference(lower) is Some ==> exists|p: Seq<char>| #[trigger] driver_named(p) is Some
            && p.is_prefix_of(lower) && session_preference(lower) == driver_named(p),
{
    reveal_strlit("chrome");
    reveal_strlit("chromium");
    reveal_strlit("firefox");
    reveal_strlit("gecko");
    reveal_strlit("edge");
    assert forall|p: Seq<char>| #[trigger] driver_named(p) is Some && p.is_prefix_of(lower)
        implies session_preference(lower) == driver_named(p) by {
        assert(lower[0] == p[0]);
        if "firefox"@.is_prefix_of(lower) { assert(lower[0] == "firefox"@[0]); }
        if "gecko"@.is_prefix_of(lower) { assert(lower[0] == "gecko"@[0]); }
        if "chrome"@.is_prefix_of(lower) { assert(lower[0] == "chrome"@[0]); }
        if "chromium"@.is_prefix_of(lower) { assert(lower[0] == "chromium"@[0]); }
        if "edge"@.is_prefix_of(lower) { assert(lower[0] == "edge"@[0]); }
    }
    if session_preference(lower) is Some {
        if "firefox"@.is_prefix_of(lower) {
            assert(driver_named("firefox"@) is Some);
        } else if "gecko"@.is_prefix_of(lower) {
            assert(driver_named("gecko"@) is Some);
        } else if "chrome"@.is_prefix_of(lower) {
            assert(driver_named("chrome"@) is Some);
        } else if "chromium"@.is_prefix_of(lower) {
            assert(driver_named("chromium"@) is Some);
        } else {
            assert(driver_named("edge"@) is Some);
        }
    }
}

/// The browser a session name prefers, by its lower-cased start.
pub fn browser_preference(session_id: &str) -> (r: Option<DriverType>)
    ensures
        r == session_preference(text::lowercase(session_id@)),
{
    let lower = text::to_lowercase(session_id);
    let l = lower.as_str();
    if text::starts_with(l, "firefox") || text::starts_with(l, "gecko") {
        Some(DriverType::Firefox)
    } else if text::starts_with(l, "chrome") || text::starts_with(l, "chromium") {
        Some(DriverType::Chrome)
    } else if text::starts_with(l, "edge") {
        Some(DriverType::Edge)
    } else {
        None
    }
}

/// The session a request runs in: the one it names, else `default`, in
/// either server mode (as every tool's `session_id` documentation says).
pub open spec fn session_name_of(session_id: Option<Seq<char>>) -> Seq<char> {
    match session_id {
        Some(s) => s,
        None => "default"@,
    }
}

/// Names the session a request runs in.
pub fn session_name(session_id: Option<String>) -> (r: String)
    ensures
        r@ == session_name_of(opt_view(session_id)),
{
    match session_id {
        Some(s) => s,
        None => text::owned("default"),
    }
}

/// How to reach a WebDriver for a session.
#[derive(Debug)]
pub enum EndpointPlan {
    /// Connect to this endpoint.
    Use(String),
    /// Start a driver of this type and connect to the endpoint it reports.
    StartDriver(DriverType),
    /// Start a driver for this endpoint.
    StartAt(String),
    /// Start the first driver found installed.
    StartAny,
    /// No driver can be had.
    Fail(WebDriverError),
}

/// The endpoint a preferred driver name is started on.
pub open spec fn preferred_endpoint(lower: Seq<char>) -> Option<Seq<char>> {
    if lower == "chrome"@ || lower == "chromium"@ {
        Some("http://localhost:9515"@)
    } else if lower == "firefox"@ || lower == "gecko"@ {
        Some("http://localhost:4444"@)
    } else if lower == "edge"@ {
        Some("http://localhost:9515"@)
    } else {
        None
    }
}

/// A preferred driver is started on the localhost endpoint of that
/// driver's default port, and a name that names no driver has no endpoint;
/// for Chrome and Firefox the driver chosen for that port is the preferred
/// one.
pub proof fn lemma_preferred_endpoint_port(lower: Seq<char>)
    ensures
        preferred_endpoint(lower) == match driver_named(lower) {
            Some(d) => Some(localhost_endpoint(default_port_of(d))),
            None => None,
        },
        forall|d: DriverType| driver_named(lower) == Some(d) && d != DriverType::Edge
            ==> crate::driver::driver_for_port(#[trigger] default_port_of(d)) == d,
{
    text::lemma_decimal_four(9515);
    text::lemma_decimal_four(4444);
    reveal_strlit("http://localhost:9515");
    reveal_strlit("http://localhost:4444");
    reveal_strlit("http://localhost:");
    assert(localhost_endpoint(9515) =~= "http://localhost:9515"@);
    assert(localhost_endpoint(4444) =~= "http://localhost:4444"@);
}

/// The message when endpoint `auto` finds no running driver and may not
/// start one.
pub open spec fn no_driver_text() -> Seq<char> {
    "No pre-started WebDriver services available and auto_start_driver is disabled. Enable auto_start_driver or manually start a WebDriver service."@
}

/// The first of Chrome, Firefox and Edge that has a healthy endpoint.
pub open spec fn first_healthy(healthy: Map<DriverType, Seq<char>>) -> DriverType {
    if healthy.dom().contains(DriverType::Chrome) {
        DriverType::Chrome
    } else if healthy.dom().contains(DriverType::Firefox) {
        DriverType::Firefox
    } else {
        DriverType::Edge
    }
}

/// The driver named by the configuration's preference, if it names one.
pub open spec fn configured_driver(preferred: Option<Seq<char>>) -> Option<DriverType> {
    match preferred {
        Some(p) => driver_named(text::lowercase(p)),
        None => None,
    }
}

/// Whether a plan says to connect to `e`.
pub open spec fn plan_uses(r: EndpointPlan, e: Seq<char>) -> bool {
    r matches EndpointPlan::Use(x) && x@ == e
}

/// Whether a plan fails with a generic error of message `m`.
pub open spec fn plan_fails(r: EndpointPlan, m: Seq<char>) -> bool {
    r matches EndpointPlan::Fail(WebDriverError::Generic(x)) && x@ == m
}

/// The plan for a session, given the configuration and the healthy
/// drivers.
///
/// A configured endpoint other than `auto` is used as it is.  With `auto`
/// and some healthy driver: the session's preferred browser, if healthy;
/// else, if the session prefers a browser and drivers may be started, a
/// driver of that browser is started; else the configured preference, if
/// healthy; else the first healthy of Chrome, Firefox, Edge.  With `auto`
/// and no healthy driver: when drivers may be started, the preferred
/// driver (an unknown name is an error) or any installed one; otherwise an
/// error.
pub open spec fn endpoint_plan_ok(
    cfg: Config,
    healthy: Map<DriverType, Seq<char>>,
    session: Seq<char>,
    r: EndpointPlan,
) -> bool {
    if cfg.webdriver_endpoint@ != "auto"@ {
        plan_uses(r, cfg.webdriver_endpoint@)
    } else if healthy.dom().len() > 0 {
        let pref = session_preference(text::lowercase(session));
        match pref {
            Some(d) if healthy.dom().contains(d) => plan_uses(r, healthy[d]),
            Some(d) if cfg.auto_start_driver => r == EndpointPlan::StartDriver(d),
            _ => match configured_driver(opt_view(cfg.preferred_driver)) {
                Some(c) if healthy.dom().contains(c) => plan_uses(r, healthy[c]),
                _ => plan_uses(r, healthy[first_healthy(healthy)]),
            },
        }
    } else if cfg.auto_start_driver {
        match cfg.preferred_driver {
            Some(p) => match preferred_endpoint(text::lowercase(p@)) {
                Some(e) => r matches EndpointPlan::StartAt(x) && x@ == e,
                None => plan_fails(r, "Unknown preferred driver: "@ + p@),
            },
            None => r == EndpointPlan::StartAny,
        }
    } else {
        plan_fails(r, no_driver_text())
    }
}

/// Decides how a session reaches a WebDriver.
pub fn plan_endpoint(cfg: &Config, drivers: &DriverManager, session_id: &str) -> (r: EndpointPlan)
    ensures
        endpoint_plan_ok(*cfg, drivers.healthy(), session_id@, r),
        forall|d: DriverType| cfg.webdriver_endpoint@ == "auto"@ && drivers.healthy().dom().len() == 0
            && cfg.auto_start_driver && cfg.preferred_driver is Some
            && driver_named(text::lowercase(cfg.preferred_driver->0@)) == Some(d)
            ==> (r matches EndpointPlan::StartAt(x) && x@ == localhost_endpoint(#[trigger] default_port_of(d))),
{
    proof {
        match &cfg.preferred_driver {
            Some(p) => { lemma_preferred_endpoint_port(text::lowercase(p@)); },
            None => {},
        }
    }
    if !text::str_equal(cfg.webdriver_endpoint.as_str(), "auto") {
        return EndpointPlan::Use(cfg.webdriver_endpoint.clone());
    }
    if drivers.healthy_count() > 0 {
        let pref = browser_preference(session_id);
        match pref {
            Some(d) => {
                match drivers.healthy_endpoint(d) {
                    Some(e) => { return EndpointPlan::Use(e); },
                    None => {
                        if cfg.auto_start_driver {
                            return EndpointPlan::StartDriver(d);
                        }
                    },
                }
            },
            None => {},
        }
        match &cfg.preferred_driver {
            Some(p) => {
                match DriverType::from_string(p.as_str()) {
                    Some(c) => {
                        match drivers.healthy_endpoint(c) {
                            Some(e) => { return EndpointPlan::Use(e); },
                            None => {},
                        }
                    },
                    None => {},
                }
            },
            None => {},
        }
        match drivers.healthy_endpoint(DriverType::Chrome) {
            Some(e) => { return EndpointPlan::Use(e); },
            None => {},
        }
        match drivers.healthy_endpoint(DriverType::Firefox) {
            Some(e) => { return EndpointPlan::Use(e); },
            None => {},
        }
        match drivers.healthy_endpoint(DriverType::Edge) {
            Some(e) => EndpointPlan::Use(e),
            None => {
                proof { lemma_some_healthy(drivers.healthy()); }
                EndpointPlan::Fail(WebDriverError::Generic(String::new()))
            },
        }
    } else if cfg.auto_start_driver {
        match &cfg.preferred_driver {
            Some(p) => {
                let lower = text::to_lowercase(p.as_str());
                let l = lower.as_str();
                if text::str_equal(l, "chrome") || text::str_equal(l, "chromium") {
                    EndpointPlan::StartAt(text::owned("http://localhost:9515"))
                } else if text::str_equal(l, "firefox") || text::str_equal(l, "gecko") {
                    EndpointPlan::StartAt(text::owned("http://localhost:4444"))
                } else if text::str_equal(l, "edge") {
                    EndpointPlan::StartAt(text::owned("http://localhost:9515"))
                } else {
                    EndpointPlan::Fail(WebDriverError::Generic(text::concat2("Unknown preferred driver: ", p.as_str())))
                }
            },
            None => EndpointPlan::StartAny,
        }
    } else {
        EndpointPlan::Fail(WebDriverError::Generic(text::owned(
            "No pre-started WebDriver services available and auto_start_driver is disabled. Enable auto_start_driver or manually start a WebDriver service.",
        )))
    }
}

/// A map over the three driver types that has some entry holds one of
/// them.
proof fn lemma_some_healthy(healthy: Map<DriverType, Seq<char>>)
    requires
        healthy.dom().len() > 0,
    ensures
        healthy.dom().contains(DriverType::Chrome) || healthy.dom().contains(DriverType::Firefox)
            || healthy.dom().contains(DriverType::Edge),
{
    if !(healthy.dom().contains(DriverType::Chrome) || healthy.dom().contains(DriverType::Firefox)
        || healthy.dom().contains(DriverType::Edge)) {
        assert(healthy.dom() =~= Set::<DriverType>::empty()) by {
            assert forall|d: DriverType| !healthy.dom().contains(d) by {
                match d {
                    DriverType::Chrome => {},
                    DriverType::Firefox => {},
                    DriverType::Edge => {},
                }
            }
        }
    }
}

/// The message when a driver of a session's preferred browser does not
/// start.
pub fn driver_start_failure(d: DriverType, error: &str) -> (r: String)
    ensures
        r@ == "Failed to start "@ + crate::driver::browser_name_of(d) + " driver: "@ + error@,
{
    let name = d.browser_name();
    let head = text::concat3("Failed to start ", name, " driver: ");
    text::concat2(head.as_str(), error)
}

/// The endpoint of the first installed driver, started on its default
/// port; an error with the setup instructions when none is installed.
pub fn any_driver_endpoint(available: &Vec<DriverType>) -> (r: Result<String, WebDriverError>)
    ensures
        available@.len() == 0 ==> (r matches Err(WebDriverError::Generic(m)) && m@ ==
            "No WebDriver executables found. Please install ChromeDriver, GeckoDriver, or EdgeDriver.\n\n"@ + setup_guidance_text()),
        available@.len() > 0 ==> (r matches Ok(e) && e@ == localhost_endpoint(default_port_of(available@[0]))),
{
    if available.len() == 0 {
        Err(WebDriverError::Generic(text::concat2(
            "No WebDriver executables found. Please install ChromeDriver, GeckoDriver, or EdgeDriver.\n\n",
            Config::setup_guidance(),
        )))
    } else {
        Ok(crate::driver::localhost_url(available[0].default_port()))
    }
}

/// Whether a session is to get a Firefox browser: by the session's
/// preference where it has one, else when the endpoint is on port 4444 or
/// the configured preference mentions Firefox or Gecko.
pub open spec fn targets_firefox_spec(session: Seq<char>, endpoint: Seq<char>, preferred: Option<Seq<char>>) -> bool {
    match session_preference(text::lowercase(session)) {
        Some(d) => d == DriverType::Firefox,
        None => text::occurs_in(endpoint, ":4444"@) || match preferred {
            Some(p) => text::occurs_in(text::lowercase(p), "firefox"@) || text::occurs_in(text::lowercase(p), "gecko"@),
            None => false,
        },
    }
}

/// Decides whether a session is to get a Firefox browser.
pub fn targets_firefox(session_id: &str, endpoint: &str, preferred: &Option<String>) -> (r: bool)
    ensures
        r == targets_firefox_spec(session_id@, endpoint@, opt_view(*preferred)),
{
    match browser_preference(session_id) {
        Some(d) => matches!(d, DriverType::Firefox),
        None => {
            if text::contains(endpoint, ":4444") {
                true
            } else {
                match preferred {
                    Some(p) => {
                        let lower = text::to_lowercase(p.as_str());
                        text::contains(lower.as_str(), "firefox") || text::contains(lower.as_str(), "gecko")
                    },
                    None => false,
                }
            }
        },
    }
}

/// The capabilities a session asks its driver for: the browser's name,
/// and under a browser-specific key the command-line arguments of the
/// browser, when there are any.
#[derive(Debug, Clone)]
pub struct Capabilities {
    pub browser_name: String,
    pub options_key: Option<String>,
    pub args: Vec<String>,
}


/// The arguments Chrome always gets.
pub open spec fn chrome_base_args() -> Seq<Seq<char>> {
    seq!["--no-sandbox"@, "--disable-dev-shm-usage"@, "--disable-gpu"@, "--remote-debugging-port=0"@]
}

/// The capabilities for Firefox or Chrome, headless or not.
pub open spec fn capabilities_ok(firefox: bool, headless: bool, c: Capabilities) -> bool {
    if firefox {
        &&& c.browser_name@ == "firefox"@
        &&& if headless {
            opt_view(c.options_key) == Some("moz:firefoxOptions"@) && views(c.args@) == seq!["--headless"@]
        } else {
            c.options_key is None && c.args@.len() == 0
        }
    } else {
        &&& c.browser_name@ == "chrome"@
        &&& opt_view(c.options_key) == Some("goog:chromeOptions"@)
        &&& views(c.args@) == if headless { chrome_base_args().push("--headless"@) } else { chrome_base_args() }
    }
}

/// Builds the capabilities for Firefox or Chrome.
pub fn capabilities_for(firefox: bool, headless: bool) -> (r: Capabilities)
    ensures
        capabilities_ok(firefox, headless, r),
{
    if firefox {
        if headless {
            let mut args: Vec<String> = Vec::new();
            args.push(text::owned("--headless"));
            let r = Capabilities {
                browser_name: text::owned("firefox"),
                options_key: Some(text::owned("moz:firefoxOptions")),
                args,
            };
            assert(views(r.args@) =~= seq!["--headless"@]);
            r
        } else {
            Capabilities { browser_name: text::owned("firefox"), options_key: None, args: Vec::new() }
        }
    } else {
        let mut args: Vec<String> = Vec::new();
        args.push(text::owned("--no-sandbox"));
        args.push(text::owned("--disable-dev-shm-usage"));
        args.push(text::owned("--disable-gpu"));
        args.push(text::owned("--remote-debugging-port=0"));
        assert(views(args@) =~= chrome_base_args());
        if headless {
            args.push(text::owned("--headless"));
            assert(views(args@) =~= chrome_base_args().push("--headless"@));
        }
        Capabilities { browser_name: text::owned("chrome"), options_key: Some(text::owned("goog:chromeOptions")), args }
    }
}

/// Whether a failed connection is a conflict with a session the driver
/// already runs: its lower-cased message says so.
pub open spec fn is_session_conflict_spec(message: Seq<char>) -> bool {
    text::occurs_in(text::lowercase(message), "session is already started"@)
        || text::occurs_in(text::lowercase(message), "session already exists"@)
}

/// Decides whether a failed connection is a session conflict, after which
/// stray drivers are stopped and the connection is tried once more.
pub fn is_session_conflict(message: &str) -> (r: bool)
    ensures
        r == is_session_conflict_spec(message@),
{
    let lower = text::to_lowercase(message);
    text::contains(lower.as_str(), "session is already started")
        || text::contains(lower.as_str(), "session already exists")
}

/// The message when a connection fails outside the stdio server.
pub fn connect_failure_message(endpoint: &str, error: &str) -> (r: String)
    ensures
        r@ == "Failed to connect to WebDriver at '"@ + endpoint@ + "': "@ + error@ + "\n\n"@ + setup_guidance_text(),
{
    let a = text::concat3("Failed to connect to WebDriver at '", endpoint, "': ");
    let b = text::concat3(a.as_str(), error, "\n\n");
    text::concat2(b.as_str(), Config::setup_guidance())
}

} // verus!
