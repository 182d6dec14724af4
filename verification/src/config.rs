//! Server configuration: its defaults, how environment values are read into
//! it, and the rules a usable configuration obeys.

use vstd::prelude::*;
use crate::text;

verus! {

/// Configuration of the WebDriver server.
#[derive(Clone)]
pub struct Config {
    pub webdriver_endpoint: String,
    pub default_session_timeout_ms: u64,
    pub auto_start_driver: bool,
    pub preferred_driver: Option<String>,
    pub headless: bool,
    /// Drivers to start together when the server starts.
    pub concurrent_drivers: Vec<String>,
    /// Time allowed for a driver to start, in milliseconds.
    pub driver_startup_timeout_ms: u64,
    /// Whether Chrome's performance memory APIs are enabled.
    pub enable_performance_memory: bool,
    /// Largest number of pooled sessions per driver.
    pub pool_max_connections_per_driver: usize,
    /// Idle time after which a pooled session is closed, in seconds.
    pub pool_idle_timeout_secs: u64,
    /// Time allowed to acquire a pooled session, in milliseconds.
    pub pool_acquire_timeout_ms: u64,
    /// Whether sessions are pooled.
    pub pool_enabled: bool,
}

/// The raw values of the configuration's environment variables; `None`
/// where a variable is unset (or not valid Unicode).
pub struct EnvValues {
    /// `WEBDRIVER_ENDPOINT`
    pub endpoint: Option<String>,
    /// `WEBDRIVER_TIMEOUT_MS`
    pub timeout_ms: Option<String>,
    /// `WEBDRIVER_AUTO_START`
    pub auto_start: Option<String>,
    /// `WEBDRIVER_PREFERRED_DRIVER`
    pub preferred_driver: Option<String>,
    /// `WEBDRIVER_HEADLESS`
    pub headless: Option<String>,
    /// `WEBDRIVER_CONCURRENT_DRIVERS`
    pub concurrent_drivers: Option<String>,
    /// `WEBDRIVER_STARTUP_TIMEOUT_MS`
    pub startup_timeout_ms: Option<String>,
    /// `WEBDRIVER_ENABLE_PERFORMANCE_MEMORY`
    pub enable_performance_memory: Option<String>,
}

impl EnvValues {
    /// No variable set.
    pub fn unset() -> (r: EnvValues)
        ensures
            r.endpoint is None && r.timeout_ms is None && r.auto_start is None
                && r.preferred_driver is None && r.headless is None && r.concurrent_drivers is None
                && r.startup_timeout_ms is None && r.enable_performance_memory is None,
    {
        EnvValues {
            endpoint: None,
            timeout_ms: None,
            auto_start: None,
            preferred_driver: None,
            headless: None,
            concurrent_drivers: None,
            startup_timeout_ms: None,
            enable_performance_memory: None,
        }
    }
}

/// A boolean variable: `true` in any letter case, or `1`, means true; any
/// other value false; an unset variable takes the default.
pub open spec fn flag_value(v: Option<Seq<char>>, default: bool) -> bool {
    match v {
        Some(s) => text::lowercase(s) == "true"@ || s == "1"@,
        None => default,
    }
}

/// A number variable: its value when it parses as a `u64`, else the default.
pub open spec fn number_value(v: Option<Seq<char>>, default: u64) -> u64 {
    match v {
        Some(s) => match text::parse_unsigned(s, u64::MAX as nat) {
            Some(n) => n as u64,
            None => default,
        },
        None => default,
    }
}

/// The driver list variable: its comma-separated items, each trimmed;
/// unset means Firefox and Chrome.
pub open spec fn driver_list_value(v: Option<Seq<char>>) -> Seq<Seq<char>> {
    match v {
        Some(s) => text::split_on(s, ',').map_values(|p: Seq<char>| text::trimmed(p)),
        None => seq!["firefox"@, "chrome"@],
    }
}

/// The session timeout, in milliseconds, of an unset variable.
pub open spec fn default_timeout_ms() -> u64 {
    2000
}

/// The driver start-up timeout, in milliseconds, of an unset variable.
pub open spec fn default_startup_timeout_ms() -> u64 {
    10000
}

/// The view of an optional string.
pub open spec fn opt_view(o: Option<String>) -> Option<Seq<char>> {
    match o {
        Some(s) => Some(s@),
        None => None,
    }
}

/// Reads a boolean variable.
pub fn parse_flag(v: &Option<String>, default: bool) -> (r: bool)
    ensures
        r == flag_value(opt_view(*v), default),
{
    match v {
        Some(s) => {
            let lower = text::to_lowercase(s.as_str());
            text::str_equal(lower.as_str(), "true") || text::str_equal(s.as_str(), "1")
        },
        None => default,
    }
}

/// Reads a number variable.
pub fn parse_number(v: &Option<String>, default: u64) -> (r: u64)
    ensures
        r == number_value(opt_view(*v), default),
{
    match v {
        Some(s) => match text::parse_u64(s.as_str()) {
            Some(n) => n,
            None => default,
        },
        None => default,
    }
}

/// Reads the driver list variable.
pub fn parse_driver_list(v: &Option<String>) -> (r: Vec<String>)
    ensures
        r@.map_values(|s: String| s@) == driver_list_value(opt_view(*v)),
{
    match v {
        Some(s) => {
            let pieces = text::split_char(s.as_str(), ',');
            let ghost ps = pieces@.map_values(|x: String| x@);
            let mut r: Vec<String> = Vec::new();
            let mut i: usize = 0;
            while i < pieces.len()
                invariant
                    i <= pieces.len(),
                    ps == pieces@.map_values(|x: String| x@),
                    r@.map_values(|x: String| x@) == ps.take(i as int).map_values(|p: Seq<char>| text::trimmed(p)),
                decreases pieces.len() - i,
            {
                let t = text::trim(pieces[i].as_str());
                let ghost before = r@.map_values(|x: String| x@);
                r.push(t);
                proof {
                    assert(r@.map_values(|x: String| x@) =~= before.push(t@));
                    assert(ps.take(i + 1).map_values(|p: Seq<char>| text::trimmed(p))
                        =~= ps.take(i as int).map_values(|p: Seq<char>| text::trimmed(p)).push(text::trimmed(ps[i as int])));
                }
                i = i + 1;
            }
            assert(ps.take(pieces.len() as int) == ps);
            r
        },
        None => {
            let mut r: Vec<String> = Vec::new();
            r.push(text::owned("firefox"));
            r.push(text::owned("chrome"));
            assert(r@.map_values(|x: String| x@) =~= seq!["firefox"@, "chrome"@]);
            r
        },
    }
}

/// Whether a lower-cased driver name may be started together with others.
pub open spec fn concurrent_driver_allowed(lower: Seq<char>) -> bool {
    lower == "firefox"@ || lower == "chrome"@ || lower == "edge"@
}

/// The index of the first driver name not allowed, if any.
pub open spec fn first_bad_driver(lowered: Seq<Seq<char>>) -> Option<int> {
    if exists|i: int| 0 <= i < lowered.len() && !concurrent_driver_allowed(#[trigger] lowered[i]) {
        Some(choose|i: int| 0 <= i < lowered.len() && !concurrent_driver_allowed(lowered[i])
            && forall|j: int| 0 <= j < i ==> concurrent_driver_allowed(#[trigger] lowered[j]))
    } else {
        None
    }
}

/// What validating a configuration gives.
pub open spec fn config_validation(c: Config) -> Result<(), Seq<char>> {
    validation_result(
        c.webdriver_endpoint@,
        c.default_session_timeout_ms,
        c.driver_startup_timeout_ms,
        c.concurrent_drivers@.map_values(|s: String| s@),
        c.concurrent_drivers@.map_values(|s: String| text::lowercase(s@)),
    )
}

/// The result of checking a configuration, given the lower-cased driver names.
pub open spec fn validation_result(
    endpoint: Seq<char>,
    timeout_ms: u64,
    startup_ms: u64,
    drivers: Seq<Seq<char>>,
    lowered: Seq<Seq<char>>,
) -> Result<(), Seq<char>> {
    if endpoint != "auto"@ && !"http://"@.is_prefix_of(endpoint) && !"https://"@.is_prefix_of(endpoint) {
        Err("Invalid WebDriver endpoint '"@ + endpoint + "'. Must be 'auto' or start with http:// or https://"@)
    } else if timeout_ms == 0 {
        Err("WebDriver timeout must be greater than 0"@)
    } else if startup_ms == 0 {
        Err("Driver startup timeout must be greater than 0"@)
    } else {
        match first_bad_driver(lowered) {
            Some(i) => Err("Invalid concurrent driver '"@ + drivers[i] + "'. Must be one of: firefox, chrome, edge"@),
            None => Ok(()),
        }
    }
}

/// The view of a `Result<(), String>`.
pub open spec fn unit_result_view(r: Result<(), String>) -> Result<(), Seq<char>> {
    match r {
        Ok(()) => Ok(()),
        Err(e) => Err(e@),
    }
}

proof fn lemma_first_bad_unique(lowered: Seq<Seq<char>>, k: int)
    requires
        0 <= k < lowered.len(),
        !concurrent_driver_allowed(lowered[k]),
        forall|j: int| 0 <= j < k ==> concurrent_driver_allowed(#[trigger] lowered[j]),
    ensures
        first_bad_driver(lowered) == Some(k),
{
    assert(!concurrent_driver_allowed(lowered[k]));
    let c = choose|i: int| 0 <= i < lowered.len() && !concurrent_driver_allowed(lowered[i])
        && forall|j: int| 0 <= j < i ==> concurrent_driver_allowed(#[trigger] lowered[j]);
    if c < k {
        assert(concurrent_driver_allowed(lowered[c]));
    } else if c > k {
        assert(concurrent_driver_allowed(lowered[k]));
    }
}

impl Config {
    /// The configuration that the given environment values describe.
    pub fn from_env_values(env: &EnvValues) -> (c: Config)
        ensures
            c.webdriver_endpoint@ == (match opt_view(env.endpoint) { Some(s) => s, None => "auto"@ }),
            c.default_session_timeout_ms == number_value(opt_view(env.timeout_ms), default_timeout_ms()),
            c.auto_start_driver == flag_value(opt_view(env.auto_start), true),
            opt_view(c.preferred_driver) == opt_view(env.preferred_driver),
            c.headless == flag_value(opt_view(env.headless), true),
            c.concurrent_drivers@.map_values(|s: String| s@) == driver_list_value(opt_view(env.concurrent_drivers)),
            c.driver_startup_timeout_ms == number_value(opt_view(env.startup_timeout_ms), default_startup_timeout_ms()),
            c.enable_performance_memory == flag_value(opt_view(env.enable_performance_memory), false),
            c.pool_max_connections_per_driver == 3,
            c.pool_idle_timeout_secs == 300,
            c.pool_acquire_timeout_ms == 30000,
            !c.pool_enabled,
    {
        let endpoint = match &env.endpoint {
            Some(s) => s.clone(),
            None => text::owned("auto"),
        };
        let preferred = match &env.preferred_driver {
            Some(s) => Some(s.clone()),
            None => None,
        };
        Config {
            webdriver_endpoint: endpoint,
            default_session_timeout_ms: parse_number(&env.timeout_ms, 2000),
            auto_start_driver: parse_flag(&env.auto_start, true),
            preferred_driver: preferred,
            headless: parse_flag(&env.headless, true),
            concurrent_drivers: parse_driver_list(&env.concurrent_drivers),
            driver_startup_timeout_ms: parse_number(&env.startup_timeout_ms, 10000),
            enable_performance_memory: parse_flag(&env.enable_performance_memory, false),
            pool_max_connections_per_driver: 3,
            pool_idle_timeout_secs: 300,
            pool_acquire_timeout_ms: 30000,
            pool_enabled: false,
        }
    }

    /// The lower-cased names of the concurrent drivers.
    pub fn lowered_driver_names(&self) -> (r: Vec<String>)
        ensures
            r.len() == self.concurrent_drivers.len(),
            r@.map_values(|s: String| s@) == self.concurrent_drivers@.map_values(|s: String| text::lowercase(s@)),
    {
        let mut r: Vec<String> = Vec::new();
        let mut i: usize = 0;
        while i < self.concurrent_drivers.len()
            invariant
                i <= self.concurrent_drivers.len(),
                r@.map_values(|s: String| s@) == self.concurrent_drivers@.take(i as int).map_values(|s: String| text::lowercase(s@)),
            decreases self.concurrent_drivers.len() - i,
        {
            let l = text::to_lowercase(self.concurrent_drivers[i].as_str());
            let ghost before = r@.map_values(|s: String| s@);
            r.push(l);
            proof {
                assert(r@.map_values(|s: String| s@) =~= before.push(l@));
                assert(self.concurrent_drivers@.take(i + 1).map_values(|s: String| text::lowercase(s@))
                    =~= self.concurrent_drivers@.take(i as int).map_values(|s: String| text::lowercase(s@)).push(text::lowercase(self.concurrent_drivers@[i as int]@)));
            }
            i = i + 1;
        }
        assert(self.concurrent_drivers@.take(self.concurrent_drivers.len() as int) == self.concurrent_drivers@);
        assert(r@.map_values(|s: String| s@).len() == r.len());
        r
    }

    /// Checks the configuration, given the lower-cased driver names.
    #[verifier::loop_isolation(false)]
    pub fn validate_with_lowered(&self, lowered: &Vec<String>) -> (r: Result<(), String>)
        requires
            lowered.len() == self.concurrent_drivers.len(),
        ensures
            unit_result_view(r) == validation_result(
                self.webdriver_endpoint@,
                self.default_session_timeout_ms,
                self.driver_startup_timeout_ms,
                self.concurrent_drivers@.map_values(|s: String| s@),
                lowered@.map_values(|s: String| s@),
            ),
    {
        let ep = self.webdriver_endpoint.as_str();
        if !text::str_equal(ep, "auto") && !text::starts_with(ep, "http://") && !text::starts_with(ep, "https://") {
            return Err(text::concat3("Invalid WebDriver endpoint '", ep, "'. Must be 'auto' or start with http:// or https://"));
        }
        if self.default_session_timeout_ms == 0 {
            return Err(text::owned("WebDriver timeout must be greater than 0"));
        }
        if self.driver_startup_timeout_ms == 0 {
            return Err(text::owned("Driver startup timeout must be greater than 0"));
        }
        let ghost lw = lowered@.map_values(|s: String| s@);
        let mut i: usize = 0;
        while i < lowered.len()
            invariant
                i <= lowered.len(),
                lowered.len() == self.concurrent_drivers.len(),
                lw == lowered@.map_values(|s: String| s@),
                forall|j: int| 0 <= j < i ==> concurrent_driver_allowed(#[trigger] lw[j]),
            decreases lowered.len() - i,
        {
            let l = lowered[i].as_str();
            if !(text::str_equal(l, "firefox") || text::str_equal(l, "chrome") || text::str_equal(l, "edge")) {
                proof {
                    lemma_first_bad_unique(lw, i as int);
                    assert(self.concurrent_drivers@.map_values(|s: String| s@)[i as int] == self.concurrent_drivers@[i as int]@);
                }
                return Err(text::concat3("Invalid concurrent driver '", self.concurrent_drivers[i].as_str(), "'. Must be one of: firefox, chrome, edge"));
            }
            i = i + 1;
        }
        assert(first_bad_driver(lw) is None);
        Ok(())
    }

    /// Checks that the endpoint is `auto` or an HTTP(S) URL, that both
    /// timeouts are positive and that every concurrent driver is Firefox,
    /// Chrome or Edge in any letter case.
    pub fn validate(&self) -> (r: Result<(), String>)
        ensures
            unit_result_view(r) == validation_result(
                self.webdriver_endpoint@,
                self.default_session_timeout_ms,
                self.driver_startup_timeout_ms,
                self.concurrent_drivers@.map_values(|s: String| s@),
                self.concurrent_drivers@.map_values(|s: String| text::lowercase(s@)),
            ),
    {
        let lowered = self.lowered_driver_names();
        self.validate_with_lowered(&lowered)
    }

    /// Setup instructions shown when no driver can be reached.
    pub fn setup_guidance() -> (r: &'static str)
        ensures
            r@ == setup_guidance_text(),
    {
        "\nWebDriver MCP Server Setup:\n\n🚀 AUTOMATIC SETUP (Recommended):\n   The server will automatically detect and start WebDriver services!\n   Just install one of the drivers below and run the server.\n\n1. Install a WebDriver (choose one):\n   \n   ChromeDriver:\n   - macOS: brew install chromedriver\n   - Ubuntu: sudo apt-get install chromium-chromedriver\n   - Windows: choco install chromedriver\n   - Manual: https://chromedriver.chromium.org/\n\n   GeckoDriver (Firefox):\n   - macOS: brew install geckodriver\n   - Ubuntu: sudo apt-get install firefox-geckodriver\n   - Windows: choco install geckodriver\n   - Manual: https://github.com/mozilla/geckodriver/releases\n\n   EdgeDriver:\n   - Download from: https://developer.microsoft.com/microsoft-edge/tools/webdriver/\n\n2. Environment Variables (all optional):\n   - WEBDRIVER_ENDPOINT: 'auto' (default) or specific URL\n   - WEBDRIVER_AUTO_START: true (default) or false\n   - WEBDRIVER_PREFERRED_DRIVER: chrome, firefox, or edge\n   - WEBDRIVER_TIMEOUT_MS: Connection timeout in ms (default: 2000)\n   - WEBDRIVER_HEADLESS: true (default) or false for GUI mode\n   - WEBDRIVER_CONCURRENT_DRIVERS: comma-separated list (default: firefox,chrome)\n   - WEBDRIVER_STARTUP_TIMEOUT_MS: Driver startup timeout (default: 10000)\n   - WEBDRIVER_ENABLE_PERFORMANCE_MEMORY: true or false (default: false) - enables Chrome memory APIs\n\n3. Manual Setup (if auto-start disabled):\n   - Chrome: chromedriver --port=9515\n   - Firefox: geckodriver --port=4444\n   - Set WEBDRIVER_ENDPOINT to the appropriate URL\n"
    }

    /// Whether the configuration describes the single-user stdio setting:
    /// endpoint `auto` with automatic driver start.
    pub fn is_stdio_mode(&self) -> (r: bool)
        ensures
            r == (self.webdriver_endpoint@ == "auto"@ && self.auto_start_driver),
    {
        text::str_equal(self.webdriver_endpoint.as_str(), "auto") && self.auto_start_driver
    }
}

/// The setup instructions.
pub open spec fn setup_guidance_text() -> Seq<char> {
    "\nWebDriver MCP Server Setup:\n\n🚀 AUTOMATIC SETUP (Recommended):\n   The server will automatically detect and start WebDriver services!\n   Just install one of the drivers below and run the server.\n\n1. Install a WebDriver (choose one):\n   \n   ChromeDriver:\n   - macOS: brew install chromedriver\n   - Ubuntu: sudo apt-get install chromium-chromedriver\n   - Windows: choco install chromedriver\n   - Manual: https://chromedriver.chromium.org/\n\n   GeckoDriver (Firefox):\n   - macOS: brew install geckodriver\n   - Ubuntu: sudo apt-get install firefox-geckodriver\n   - Windows: choco install geckodriver\n   - Manual: https://github.com/mozilla/geckodriver/releases\n\n   EdgeDriver:\n   - Download from: https://developer.microsoft.com/microsoft-edge/tools/webdriver/\n\n2. Environment Variables (all optional):\n   - WEBDRIVER_ENDPOINT: 'auto' (default) or specific URL\n   - WEBDRIVER_AUTO_START: true (default) or false\n   - WEBDRIVER_PREFERRED_DRIVER: chrome, firefox, or edge\n   - WEBDRIVER_TIMEOUT_MS: Connection timeout in ms (default: 2000)\n   - WEBDRIVER_HEADLESS: true (default) or false for GUI mode\n   - WEBDRIVER_CONCURRENT_DRIVERS: comma-separated list (default: firefox,chrome)\n   - WEBDRIVER_STARTUP_TIMEOUT_MS: Driver startup timeout (default: 10000)\n   - WEBDRIVER_ENABLE_PERFORMANCE_MEMORY: true or false (default: false) - enables Chrome memory APIs\n\n3. Manual Setup (if auto-start disabled):\n   - Chrome: chromedriver --port=9515\n   - Firefox: geckodriver --port=4444\n   - Set WEBDRIVER_ENDPOINT to the appropriate URL\n"@
}

/// The setup instructions agree with the defaults they describe: the
/// manual commands start Chrome's and Firefox's drivers on their default
/// ports, and the defaults stated for the timeout, the start-up timeout and
/// the concurrent driver list are those that an unset variable takes.
pub proof fn lemma_setup_guidance_defaults()
    ensures
        text::occurs_in(setup_guidance_text(),
            "chromedriver --port="@ + text::decimal(crate::driver::default_port_of(crate::driver::DriverType::Chrome) as nat)),
        text::occurs_in(setup_guidance_text(),
            "geckodriver --port="@ + text::decimal(crate::driver::default_port_of(crate::driver::DriverType::Firefox) as nat)),
        text::occurs_in(setup_guidance_text(),
            "WEBDRIVER_TIMEOUT_MS: Connection timeout in ms (default: "@
                + text::decimal(number_value(None, default_timeout_ms()) as nat) + ")"@),
        text::occurs_in(setup_guidance_text(),
            "WEBDRIVER_STARTUP_TIMEOUT_MS: Driver startup timeout (default: "@
                + text::decimal(number_value(None, default_startup_timeout_ms()) as nat) + ")"@),
        text::occurs_in(setup_guidance_text(),
            "WEBDRIVER_CONCURRENT_DRIVERS: comma-separated list (default: "@
                + driver_list_value(None)[0] + ","@ + driver_list_value(None)[1] + ")"@),
{
    reveal_strlit("\nWebDriver MCP Server Setup:\n\n🚀 AUTOMATIC SETUP (Recommended):\n   The server will automatically detect and start WebDriver services!\n   Just install one of the drivers below and run the server.\n\n1. Install a WebDriver (choose one):\n   \n   ChromeDriver:\n   - macOS: brew install chromedriver\n   - Ubuntu: sudo apt-get install chromium-chromedriver\n   - Windows: choco install chromedriver\n   - Manual: https://chromedriver.chromium.org/\n\n   GeckoDriver (Firefox):\n   - macOS: brew install geckodriver\n   - Ubuntu: sudo apt-get install firefox-geckodriver\n   - Windows: choco install geckodriver\n   - Manual: https://github.com/mozilla/geckodriver/releases\n\n   EdgeDriver:\n   - Download from: https://developer.microsoft.com/microsoft-edge/tools/webdriver/\n\n2. Environment Variables (all optional):\n   - WEBDRIVER_ENDPOINT: 'auto' (default) or specific URL\n   - WEBDRIVER_AUTO_START: true (default) or false\n   - WEBDRIVER_PREFERRED_DRIVER: chrome, firefox, or edge\n   - WEBDRIVER_TIMEOUT_MS: Connection timeout in ms (default: 2000)\n   - WEBDRIVER_HEADLESS: true (default) or false for GUI mode\n   - WEBDRIVER_CONCURRENT_DRIVERS: comma-separated list (default: firefox,chrome)\n   - WEBDRIVER_STARTUP_TIMEOUT_MS: Driver startup timeout (default: 10000)\n   - WEBDRIVER_ENABLE_PERFORMANCE_MEMORY: true or false (default: false) - enables Chrome memory APIs\n\n3. Manual Setup (if auto-start disabled):\n   - Chrome: chromedriver --port=9515\n   - Firefox: geckodriver --port=4444\n   - Set WEBDRIVER_ENDPOINT to the appropriate URL\n");
    let g = setup_guidance_text();
    text::lemma_decimal_four(9515);
    text::lemma_decimal_four(4444);
    text::lemma_decimal_four(2000);
    text::lemma_decimal_five(10000);
    reveal_strlit("chromedriver --port=");
    reveal_strlit("geckodriver --port=");
    reveal_strlit("WEBDRIVER_TIMEOUT_MS: Connection timeout in ms (default: ");
    reveal_strlit("WEBDRIVER_STARTUP_TIMEOUT_MS: Driver startup timeout (default: ");
    reveal_strlit("WEBDRIVER_CONCURRENT_DRIVERS: comma-separated list (default: ");
    reveal_strlit(")");
    reveal_strlit(",");
    reveal_strlit("firefox");
    reveal_strlit("chrome");
    let p1 = "chromedriver --port="@ + text::decimal(9515);
    assert(g.subrange(1409int, 1409 + p1.len() as int) =~= p1);
    assert(text::occurs_at(g, p1, 1409));
    let p2 = "geckodriver --port="@ + text::decimal(4444);
    assert(g.subrange(1448int, 1448 + p2.len() as int) =~= p2);
    assert(text::occurs_at(g, p2, 1448));
    let p3 = "WEBDRIVER_TIMEOUT_MS: Connection timeout in ms (default: "@ + text::decimal(2000) + ")"@;
    assert(g.subrange(969int, 969 + p3.len() as int) =~= p3);
    assert(text::occurs_at(g, p3, 969));
    let p4 = "WEBDRIVER_STARTUP_TIMEOUT_MS: Driver startup timeout (default: "@ + text::decimal(10000) + ")"@;
    assert(g.subrange(1181int, 1181 + p4.len() as int) =~= p4);
    assert(text::occurs_at(g, p4, 1181));
    let p5 = "WEBDRIVER_CONCURRENT_DRIVERS: comma-separated list (default: "@ + "firefox"@ + ","@ + "chrome"@ + ")"@;
    assert(g.subrange(1099int, 1099 + p5.len() as int) =~= p5);
    assert(text::occurs_at(g, p5, 1099));
}

} // verus!
