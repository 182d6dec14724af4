//! WebDriver kinds, their executables and ports, and the bookkeeping of the
//! driver processes that the server starts and the endpoints found healthy.
//!
//! Spawning processes, probing ports and killing processes happen outside;
//! this module decides what to run, parses what the system reports back, and
//! keeps the registry of managed processes and healthy endpoints.

use vstd::prelude::*;
use crate::text;

verus! {

/// A supported browser driver.
#[derive(Debug, Clone, Copy, PartialEq, Eq, Hash, Structural)]
pub enum DriverType {
    Chrome,
    Firefox,
    Edge,
}

/// The operating-system family, which decides executable names and the
/// usual installation directories.
#[derive(Debug, Clone, Copy, PartialEq, Eq, Structural)]
pub enum Platform {
    Linux,
    MacOs,
    Windows,
}

/// The driver named by an already lower-cased name.
pub open spec fn driver_named(s: Seq<char>) -> Option<DriverType> {
    if s == "chrome"@ || s == "chromium"@ {
        Some(DriverType::Chrome)
    } else if s == "firefox"@ || s == "gecko"@ {
        Some(DriverType::Firefox)
    } else if s == "edge"@ {
        Some(DriverType::Edge)
    } else {
        None
    }
}

/// Display name of the browser a driver controls.
pub open spec fn browser_name_of(d: DriverType) -> Seq<char> {
    match d {
        DriverType::Chrome => "Chrome"@,
        DriverType::Firefox => "Firefox"@,
        DriverType::Edge => "Edge"@,
    }
}

/// Port on which a driver listens by default.
pub open spec fn default_port_of(d: DriverType) -> u16 {
    match d {
        DriverType::Chrome => 9515,
        DriverType::Firefox => 4444,
        DriverType::Edge => 9515,
    }
}

/// File name of a driver's executable on a platform.
pub open spec fn executable_of(d: DriverType, p: Platform) -> Seq<char> {
    match (d, p) {
        (DriverType::Chrome, Platform::Windows) => "chromedriver.exe"@,
        (DriverType::Chrome, _) => "chromedriver"@,
        (DriverType::Firefox, Platform::Windows) => "geckodriver.exe"@,
        (DriverType::Firefox, _) => "geckodriver"@,
        (DriverType::Edge, Platform::Windows) => "msedgedriver.exe"@,
        (DriverType::Edge, _) => "msedgedriver"@,
    }
}

/// The endpoint URL of a driver listening on a local port.
pub open spec fn localhost_endpoint(port: u16) -> Seq<char> {
    "http://localhost:"@ + text::decimal(port as nat)
}

/// `http://localhost:<port>`.
pub fn localhost_url(port: u16) -> (r: String)
    ensures
        r@ == localhost_endpoint(port),
{
    let p = text::decimal_string(port as u64);
    text::concat2("http://localhost:", p.as_str())
}

impl DriverType {
    /// The driver for a lower-case name: `chrome`/`chromium`, `firefox`/`gecko`, `edge`.
    pub fn from_lowercase_name(s: &str) -> (r: Option<DriverType>)
        ensures
            r == driver_named(s@),
    {
        if text::str_equal(s, "chrome") || text::str_equal(s, "chromium") {
            Some(DriverType::Chrome)
        } else if text::str_equal(s, "firefox") || text::str_equal(s, "gecko") {
            Some(DriverType::Firefox)
        } else if text::str_equal(s, "edge") {
            Some(DriverType::Edge)
        } else {
            None
        }
    }

    /// The driver for a name, compared after Unicode lower-casing (for an
    /// ASCII name, ASCII lower-casing).
    pub fn from_string(s: &str) -> (r: Option<DriverType>)
        ensures
            r == driver_named(text::lowercase(s@)),
            text::all_ascii(s@) ==> r == driver_named(text::ascii_lower(s@)),
    {
        let lower = text::to_lowercase(s);
        Self::from_lowercase_name(lower.as_str())
    }

    /// The executable's file name on the given platform.
    pub fn executable_name_for(&self, platform: Platform) -> (r: &'static str)
        ensures
            r@ == executable_of(*self, platform),
    {
        match (self, platform) {
            (DriverType::Chrome, Platform::Windows) => "chromedriver.exe",
            (DriverType::Chrome, _) => "chromedriver",
            (DriverType::Firefox, Platform::Windows) => "geckodriver.exe",
            (DriverType::Firefox, _) => "geckodriver",
            (DriverType::Edge, Platform::Windows) => "msedgedriver.exe",
            (DriverType::Edge, _) => "msedgedriver",
        }
    }

    /// The executable's file name on Unix-like systems.
    pub fn executable_name(&self) -> (r: &'static str)
        ensures
            r@ == executable_of(*self, Platform::Linux),
    {
        self.executable_name_for(Platform::Linux)
    }

    /// The port the driver listens on by default.
    pub fn default_port(&self) -> (r: u16)
        ensures
            r == default_port_of(*self),
    {
        match self {
            DriverType::Chrome => 9515,
            DriverType::Firefox => 4444,
            DriverType::Edge => 9515,
        }
    }

    /// The browser's display name.
    pub fn browser_name(&self) -> (r: &'static str)
        ensures
            r@ == browser_name_of(*self),
    {
        match self {
            DriverType::Chrome => "Chrome",
            DriverType::Firefox => "Firefox",
            DriverType::Edge => "Edge",
        }
    }

    /// Installation instructions shown when a driver executable is missing.
    pub fn installation_guidance(&self) -> (r: &'static str)
        ensures
            r@ == installation_guidance_of(*self),
    {
        match self {
            DriverType::Chrome => "ChromeDriver Installation:\n1. Download from: https://chromedriver.chromium.org/\n2. Package managers:\n   - macOS: brew install chromedriver\n   - Ubuntu: sudo apt-get install chromium-chromedriver\n   - Windows: choco install chromedriver\n3. Place in PATH or set WEBDRIVER_ENDPOINT to custom location",
            DriverType::Firefox => "GeckoDriver Installation:\n1. Download from: https://github.com/mozilla/geckodriver/releases\n2. Package managers:\n   - macOS: brew install geckodriver\n   - Ubuntu: sudo apt-get install firefox-geckodriver\n   - Windows: choco install geckodriver\n3. Place in PATH or set WEBDRIVER_ENDPOINT=http://localhost:4444",
            DriverType::Edge => "EdgeDriver Installation:\n1. Download from: https://developer.microsoft.com/en-us/microsoft-edge/tools/webdriver/\n2. Install matching your Edge version\n3. Place in PATH or set WEBDRIVER_ENDPOINT to custom location",
        }
    }
}

/// Installation instructions per driver.
pub open spec fn installation_guidance_of(d: DriverType) -> Seq<char> {
    match d {
        DriverType::Chrome => "ChromeDriver Installation:\n1. Download from: https://chromedriver.chromium.org/\n2. Package managers:\n   - macOS: brew install chromedriver\n   - Ubuntu: sudo apt-get install chromium-chromedriver\n   - Windows: choco install chromedriver\n3. Place in PATH or set WEBDRIVER_ENDPOINT to custom location"@,
        DriverType::Firefox => "GeckoDriver Installation:\n1. Download from: https://github.com/mozilla/geckodriver/releases\n2. Package managers:\n   - macOS: brew install geckodriver\n   - Ubuntu: sudo apt-get install firefox-geckodriver\n   - Windows: choco install geckodriver\n3. Place in PATH or set WEBDRIVER_ENDPOINT=http://localhost:4444"@,
        DriverType::Edge => "EdgeDriver Installation:\n1. Download from: https://developer.microsoft.com/en-us/microsoft-edge/tools/webdriver/\n2. Install matching your Edge version\n3. Place in PATH or set WEBDRIVER_ENDPOINT to custom location"@,
    }
}

/// The driver assumed to listen on a port: Firefox on 4444, Chrome otherwise.
pub open spec fn driver_for_port(port: u16) -> DriverType {
    if port == 4444 {
        DriverType::Firefox
    } else {
        DriverType::Chrome
    }
}

/// Chooses the driver to start for an endpoint's port.
pub fn determine_driver_type(port: u16) -> (r: DriverType)
    ensures
        r == driver_for_port(port),
{
    if port == 4444 {
        DriverType::Firefox
    } else {
        DriverType::Chrome
    }
}

/// Command-line arguments that start a driver on a port.
pub open spec fn driver_args_of(d: DriverType, port: u16) -> Seq<Seq<char>> {
    match d {
        DriverType::Chrome => seq!["--port="@ + text::decimal(port as nat), "--whitelisted-ips=127.0.0.1"@, "--log-level=INFO"@],
        DriverType::Firefox => seq!["--port"@, text::decimal(port as nat), "--host"@, "127.0.0.1"@],
        DriverType::Edge => seq!["--port="@ + text::decimal(port as nat), "--whitelisted-ips=127.0.0.1"@],
    }
}

/// The arguments with which a driver process is spawned.
pub fn driver_command_args(d: DriverType, port: u16) -> (r: Vec<String>)
    ensures
        r@.map_values(|s: String| s@) == driver_args_of(d, port),
{
    let p = text::decimal_string(port as u64);
    let mut v: Vec<String> = Vec::new();
    match d {
        DriverType::Chrome => {
            v.push(text::concat2("--port=", p.as_str()));
            v.push(text::owned("--whitelisted-ips=127.0.0.1"));
            v.push(text::owned("--log-level=INFO"));
        },
        DriverType::Firefox => {
            v.push(text::owned("--port"));
            v.push(p);
            v.push(text::owned("--host"));
            v.push(text::owned("127.0.0.1"));
        },
        DriverType::Edge => {
            v.push(text::concat2("--port=", p.as_str()));
            v.push(text::owned("--whitelisted-ips=127.0.0.1"));
        },
    }
    assert(v@.map_values(|s: String| s@) =~= driver_args_of(d, port));
    v
}

/// Usual installation paths of a driver's executable on a platform, in the
/// order in which they are tried.
pub open spec fn common_paths_of(d: DriverType, p: Platform) -> Seq<Seq<char>> {
    let exe = executable_of(d, p);
    match p {
        Platform::MacOs => seq![
            "/usr/local/bin/"@ + exe,
            "/opt/homebrew/bin/"@ + exe,
            "/Applications/"@ + browser_name_of(d) + ".app/Contents/MacOS/"@ + exe,
        ],
        Platform::Windows => seq![
            "C:\\Program Files\\"@ + browser_name_of(d) + "\\"@ + exe,
            "C:\\Program Files (x86)\\"@ + browser_name_of(d) + "\\"@ + exe,
            "C:\\WebDrivers\\"@ + exe,
        ],
        Platform::Linux => seq!["/usr/bin/"@ + exe, "/usr/local/bin/"@ + exe, "/snap/bin/"@ + exe],
    }
}

/// The installation paths that are probed when a driver is not on `PATH`.
pub fn common_driver_paths(d: DriverType, p: Platform) -> (r: Vec<String>)
    ensures
        r@.map_values(|s: String| s@) == common_paths_of(d, p),
{
    let exe = d.executable_name_for(p);
    let name = d.browser_name();
    let mut v: Vec<String> = Vec::new();
    match p {
        Platform::MacOs => {
            v.push(text::concat2("/usr/local/bin/", exe));
            v.push(text::concat2("/opt/homebrew/bin/", exe));
            let a = text::concat3("/Applications/", name, ".app/Contents/MacOS/");
            v.push(text::concat2(a.as_str(), exe));
        },
        Platform::Windows => {
            let a = text::concat3("C:\\Program Files\\", name, "\\");
            v.push(text::concat2(a.as_str(), exe));
            let b = text::concat3("C:\\Program Files (x86)\\", name, "\\");
            v.push(text::concat2(b.as_str(), exe));
            v.push(text::concat2("C:\\WebDrivers\\", exe));
        },
        Platform::Linux => {
            v.push(text::concat2("/usr/bin/", exe));
            v.push(text::concat2("/usr/local/bin/", exe));
            v.push(text::concat2("/snap/bin/", exe));
        },
    }
    assert(v@.map_values(|s: String| s@) =~= common_paths_of(d, p));
    v
}

/// The first line of `s` (up to the first line feed, without it).
pub open spec fn first_line(s: Seq<char>) -> Seq<char> {
    text::split_on(s, '\n')[0]
}

/// The executable path printed by `which`/`where`: the first line of the
/// trimmed output, if there is one.
pub open spec fn path_from_lookup(out: Seq<char>) -> Option<Seq<char>> {
    let t = text::trimmed(out);
    if t.len() == 0 {
        None
    } else {
        let line = trimmed_line_end(first_line(t));
        if line.len() == 0 { None } else { Some(line) }
    }
}

/// A line as `str::lines` yields it: without a final carriage return.
pub open spec fn trimmed_line_end(l: Seq<char>) -> Seq<char> {
    if l.len() > 0 && l.last() == '\r' { l.drop_last() } else { l }
}

/// Drops one trailing carriage return.
pub fn strip_carriage_return(l: &str) -> (r: String)
    ensures
        r@ == trimmed_line_end(l@),
{
    let v = text::chars_of(l);
    if v.len() > 0 && v[v.len() - 1] == '\r' {
        let mut w: Vec<char> = Vec::new();
        let mut i: usize = 0;
        while i < v.len() - 1
            invariant
                v.len() > 0,
                i <= v.len() - 1,
                w@ == v@.take(i as int),
            decreases v.len() - 1 - i,
        {
            w.push(v[i]);
            assert(v@.take(i as int).push(v@[i as int]) == v@.take(i + 1));
            i = i + 1;
        }
        assert(w@ == v@.drop_last());
        text::string_of(&w)
    } else {
        text::owned(l)
    }
}

/// Reads the executable path from the output of a `which`/`where` lookup.
pub fn path_from_lookup_output(out: &str) -> (r: Option<String>)
    ensures
        match path_from_lookup(out@) {
            Some(p) => r matches Some(s) && s@ == p,
            None => r is None,
        },
{
    let t = text::trim(out);
    if t.as_str().unicode_len() == 0 {
        return None;
    }
    let lines = text::split_char(t.as_str(), '\n');
    proof {
        text::lemma_split_on_nonempty(t@, '\n');
        assert(lines@.map_values(|x: String| x@)[0] == lines@[0]@);
    }
    let line = strip_carriage_return(lines[0].as_str());
    if line.as_str().unicode_len() == 0 {
        None
    } else {
        Some(line)
    }
}

/// The port an endpoint URL names: the digits after its last `:` up to the
/// next `/`; without any `:`, 443 for URLs mentioning `https` and 80 otherwise.
pub open spec fn endpoint_port(endpoint: Seq<char>) -> Option<u16> {
    match last_colon_index(endpoint) {
        Some(i) => {
            let after = endpoint.subrange(i + 1, endpoint.len() as int);
            match text::parse_unsigned(text::split_on(after, '/')[0], u16::MAX as nat) {
                Some(v) => Some(v as u16),
                None => None,
            }
        },
        None => if text::occurs_in(endpoint, "https"@) { Some(443) } else { Some(80) },
    }
}

/// Index of the last `:`, searched from the end.
pub open spec fn last_colon_index(s: Seq<char>) -> Option<int>
    decreases s.len(),
{
    if s.len() == 0 {
        None
    } else if s.last() == ':' {
        Some(s.len() - 1)
    } else {
        last_colon_index(s.drop_last())
    }
}

proof fn lemma_last_colon_bounds(s: Seq<char>)
    ensures
        last_colon_index(s) matches Some(i) ==> 0 <= i < s.len(),
    decreases s.len(),
{
    if s.len() > 0 && s.last() != ':' {
        lemma_last_colon_bounds(s.drop_last());
    }
}

/// Position of the last `:` in a character vector.
fn find_last_colon(v: &Vec<char>) -> (r: Option<usize>)
    ensures
        match last_colon_index(v@) {
            Some(i) => r == Some(i as usize),
            None => r is None,
        },
{
    let mut i: usize = v.len();
    assert(v@.take(v.len() as int) == v@);
    while i > 0
        invariant
            i <= v.len(),
            last_colon_index(v@) == last_colon_index(v@.take(i as int)),
        decreases i,
    {
        proof {
            assert(v@.take(i as int).drop_last() == v@.take(i - 1));
            assert(v@.take(i as int).last() == v@[i - 1]);
        }
        if v[i - 1] == ':' {
            return Some(i - 1);
        }
        i = i - 1;
    }
    None
}

/// The port an endpoint refers to, or the error message for an unreadable port.
pub fn extract_port_from_endpoint(endpoint: &str) -> (r: Result<u16, String>)
    ensures
        match endpoint_port(endpoint@) {
            Some(p) => r == Ok::<u16, String>(p),
            None => r matches Err(m) && m@ == "Invalid port in endpoint: "@ + endpoint@,
        },
{
    let v = text::chars_of(endpoint);
    proof {
        assert(v@.take(v.len() as int) == v@);
    }
    match find_last_colon(&v) {
        Some(i) => {
            proof { lemma_last_colon_bounds(v@); }
            let mut after: Vec<char> = Vec::new();
            let mut k: usize = i + 1;
            while k < v.len()
                invariant
                    i < v.len(),
                    i + 1 <= k <= v.len(),
                    after@ == v@.subrange(i + 1, k as int),
                decreases v.len() - k,
            {
                after.push(v[k]);
                assert(v@.subrange(i + 1, k as int).push(v@[k as int]) == v@.subrange(i + 1, k + 1));
                k = k + 1;
            }
            let after_s = text::string_of(&after);
            let pieces = text::split_char(after_s.as_str(), '/');
            proof {
                text::lemma_split_on_nonempty(after_s@, '/');
                assert(pieces@.map_values(|x: String| x@)[0] == pieces@[0]@);
            }
            match text::parse_u16(pieces[0].as_str()) {
                Some(p) => Ok(p),
                None => Err(text::concat2("Invalid port in endpoint: ", endpoint)),
            }
        },
        None => {
            if text::contains(endpoint, "https") {
                Ok(443)
            } else {
                Ok(80)
            }
        },
    }
}


/// A driver process started and tracked by the server.
pub struct ManagedProcess {
    pub driver_type: DriverType,
    pub pid: u32,
    pub port: u16,
    /// Browser processes known to belong to this driver.
    pub browser_pids: Vec<u32>,
}

/// What is known of a managed process: driver, pid, port and browser pids.
pub type ProcessInfo = (DriverType, u32, u16, Seq<u32>);

impl ManagedProcess {
    /// What is known of the process.
    pub open spec fn info(&self) -> ProcessInfo {
        (self.driver_type, self.pid, self.port, self.browser_pids@)
    }

    /// A copy of this record.
    pub fn duplicate(&self) -> (r: ManagedProcess)
        ensures
            r.info() == self.info(),
    {
        let mut pids: Vec<u32> = Vec::new();
        let mut i: usize = 0;
        while i < self.browser_pids.len()
            invariant
                i <= self.browser_pids.len(),
                pids@ == self.browser_pids@.take(i as int),
            decreases self.browser_pids.len() - i,
        {
            pids.push(self.browser_pids[i]);
            assert(self.browser_pids@.take(i as int).push(self.browser_pids@[i as int])
                == self.browser_pids@.take(i + 1));
            i = i + 1;
        }
        assert(self.browser_pids@.take(self.browser_pids.len() as int) == self.browser_pids@);
        ManagedProcess { driver_type: self.driver_type, pid: self.pid, port: self.port, browser_pids: pids }
    }
}

/// The processes of `s` whose driver is not `d`, in order.
pub open spec fn without_driver(s: Seq<ProcessInfo>, d: DriverType) -> Seq<ProcessInfo>
    decreases s.len(),
{
    if s.len() == 0 {
        s
    } else {
        let r = without_driver(s.drop_last(), d);
        if s.last().0 == d { r } else { r.push(s.last()) }
    }
}

/// The pids of the processes of `s` whose driver is `d`, in order.
pub open spec fn pids_of_driver(s: Seq<ProcessInfo>, d: DriverType) -> Seq<u32>
    decreases s.len(),
{
    if s.len() == 0 {
        Seq::empty()
    } else {
        let r = pids_of_driver(s.drop_last(), d);
        if s.last().0 == d { r.push(s.last().1) } else { r }
    }
}

/// Whether some process in `s` runs driver `d`.
pub open spec fn runs_driver(s: Seq<ProcessInfo>, d: DriverType) -> bool {
    exists|i: int| 0 <= i < s.len() && (#[trigger] s[i]).0 == d
}

/// The ASCII upper-case form of a text.
pub open spec fn ascii_upper(s: Seq<char>) -> Seq<char> {
    s.map_values(|c: char| if 'a' <= c && c <= 'z' { ((c as u32) - 32) as char } else { c })
}

/// Driver names are found whatever their letter case: a browser's display
/// name, and its upper-case form, are ASCII and name that browser's driver
/// (see `DriverType::from_string`).
pub proof fn lemma_browser_names_any_case(d: DriverType)
    ensures
        text::all_ascii(browser_name_of(d)),
        driver_named(text::ascii_lower(browser_name_of(d))) == Some(d),
        text::all_ascii(ascii_upper(browser_name_of(d))),
        driver_named(text::ascii_lower(ascii_upper(browser_name_of(d)))) == Some(d),
{
    reveal_strlit("Chrome");
    reveal_strlit("Firefox");
    reveal_strlit("Edge");
    reveal_strlit("chrome");
    reveal_strlit("firefox");
    reveal_strlit("edge");
    reveal_strlit("chromium");
    reveal_strlit("gecko");
    let n = browser_name_of(d);
    let up = ascii_upper(n);
    match d {
        DriverType::Chrome => {
            assert(text::ascii_lower(n) =~= "chrome"@);
            assert(driver_named(text::ascii_lower(n)) == Some(DriverType::Chrome));
            assert(up =~= seq!['C', 'H', 'R', 'O', 'M', 'E']);
            assert(text::ascii_lower(up) =~= "chrome"@);
            assert(driver_named(text::ascii_lower(up)) == Some(DriverType::Chrome));
        },
        DriverType::Firefox => {
            assert(text::ascii_lower(n) =~= "firefox"@);
            assert(up =~= seq!['F', 'I', 'R', 'E', 'F', 'O', 'X']);
            assert(text::ascii_lower(up) =~= "firefox"@);
            assert(driver_named(text::ascii_lower(n)) == Some(d));
            assert(driver_named(text::ascii_lower(up)) == Some(d));
        },
        DriverType::Edge => {
            assert(text::ascii_lower(n) =~= "edge"@);
            assert(up =~= seq!['E', 'D', 'G', 'E']);
            assert(text::ascii_lower(up) =~= "edge"@);
            assert(driver_named(text::ascii_lower(n)) == Some(d));
            assert(driver_named(text::ascii_lower(up)) == Some(d));
        },
    }
}

/// Stopping a driver right after registering one of its processes stops
/// that process too and leaves the registry as stopping alone would.
pub proof fn lemma_register_then_stop(s: Seq<ProcessInfo>, d: DriverType, pid: u32, port: u16)
    ensures
        without_driver(s.push((d, pid, port, Seq::<u32>::empty())), d) == without_driver(s, d),
        pids_of_driver(s.push((d, pid, port, Seq::<u32>::empty())), d) == pids_of_driver(s, d).push(pid),
{
    let t = s.push((d, pid, port, Seq::<u32>::empty()));
    assert(t.drop_last() =~= s);
}

/// Stopping one driver leaves the processes of every other driver as
/// they were.
pub proof fn lemma_stop_keeps_others(s: Seq<ProcessInfo>, d: DriverType, e: DriverType)
    requires
        d != e,
    ensures
        pids_of_driver(without_driver(s, d), e) == pids_of_driver(s, e),
    decreases s.len(),
{
    if s.len() > 0 {
        let t = s.drop_last();
        lemma_stop_keeps_others(t, d, e);
        let r = without_driver(t, d);
        if s.last().0 != d {
            assert(r.push(s.last()).drop_last() =~= r);
        }
    }
}

proof fn lemma_without_driver_excludes(s: Seq<ProcessInfo>, d: DriverType)
    ensures
        !runs_driver(without_driver(s, d), d),
    decreases s.len(),
{
    if s.len() > 0 {
        let t = s.drop_last();
        lemma_without_driver_excludes(t, d);
        let r = without_driver(t, d);
        if runs_driver(without_driver(s, d), d) {
            let w = without_driver(s, d);
            let j = choose|j: int| 0 <= j < w.len() && (#[trigger] w[j]).0 == d;
            if s.last().0 != d {
                if j < r.len() {
                    assert(r[j].0 == d);
                }
            } else {
                assert(r[j].0 == d);
            }
        }
    }
}

/// The endpoints of the drivers that were last found healthy, at most one
/// per driver type.
pub struct HealthyEndpoints {
    chrome: Option<String>,
    firefox: Option<String>,
    edge: Option<String>,
}

impl HealthyEndpoints {
    /// The endpoint recorded for a driver.
    pub closed spec fn slot(&self, d: DriverType) -> Option<String> {
        match d {
            DriverType::Chrome => self.chrome,
            DriverType::Firefox => self.firefox,
            DriverType::Edge => self.edge,
        }
    }

    /// The endpoints as a map from driver to URL.
    pub closed spec fn map(&self) -> Map<DriverType, Seq<char>> {
        Map::new(|d: DriverType| self.slot(d) is Some, |d: DriverType| self.slot(d)->0@)
    }

    /// No endpoint.
    pub fn new() -> (r: HealthyEndpoints)
        ensures
            r.map() == Map::<DriverType, Seq<char>>::empty(),
    {
        let r = HealthyEndpoints { chrome: None, firefox: None, edge: None };
        assert(r.map() =~= Map::<DriverType, Seq<char>>::empty());
        r
    }

    /// Records the endpoint of a driver, replacing an earlier one.
    pub fn insert(&mut self, d: DriverType, endpoint: String)
        ensures
            final(self).map() == old(self).map().insert(d, endpoint@),
    {
        match d {
            DriverType::Chrome => self.chrome = Some(endpoint),
            DriverType::Firefox => self.firefox = Some(endpoint),
            DriverType::Edge => self.edge = Some(endpoint),
        }
        assert(self.map() =~= old(self).map().insert(d, endpoint@));
    }

    /// Forgets the endpoint of a driver.
    pub fn remove(&mut self, d: DriverType)
        ensures
            final(self).map() == old(self).map().remove(d),
    {
        match d {
            DriverType::Chrome => self.chrome = None,
            DriverType::Firefox => self.firefox = None,
            DriverType::Edge => self.edge = None,
        }
        assert(self.map() =~= old(self).map().remove(d));
    }

    /// Whether a driver has an endpoint.
    pub fn contains(&self, d: DriverType) -> (r: bool)
        ensures
            r == self.map().dom().contains(d),
    {
        self.slot_ref(d).is_some()
    }

    fn slot_ref(&self, d: DriverType) -> (r: &Option<String>)
        ensures
            *r == self.slot(d),
    {
        match d {
            DriverType::Chrome => &self.chrome,
            DriverType::Firefox => &self.firefox,
            DriverType::Edge => &self.edge,
        }
    }

    /// The endpoint of a driver, if it has one.
    pub fn get(&self, d: DriverType) -> (r: Option<String>)
        ensures
            match r {
                Some(e) => self.map().dom().contains(d) && self.map()[d] == e@,
                None => !self.map().dom().contains(d),
            },
    {
        match self.slot_ref(d) {
            Some(e) => Some(e.clone()),
            None => None,
        }
    }

    /// The number of drivers with an endpoint.
    pub fn len(&self) -> (r: usize)
        ensures
            r as nat == self.map().dom().len(),
            r <= 3,
    {
        let mut n: usize = 0;
        if self.chrome.is_some() { n = n + 1; }
        if self.firefox.is_some() { n = n + 1; }
        if self.edge.is_some() { n = n + 1; }
        proof { self.lemma_len(); }
        n
    }

    proof fn lemma_len(&self)
        ensures
            self.map().dom().len() == (if self.chrome is Some { 1nat } else { 0nat })
                + (if self.firefox is Some { 1nat } else { 0nat })
                + (if self.edge is Some { 1nat } else { 0nat }),
    {
        let all = set![DriverType::Chrome, DriverType::Firefox, DriverType::Edge];
        let c = if self.chrome is Some { set![DriverType::Chrome] } else { Set::<DriverType>::empty() };
        let f = if self.firefox is Some { set![DriverType::Firefox] } else { Set::<DriverType>::empty() };
        let e = if self.edge is Some { set![DriverType::Edge] } else { Set::<DriverType>::empty() };
        assert(self.map().dom() =~= c + f + e);
        assert(c.disjoint(f));
        assert((c + f).disjoint(e));
        vstd::set_lib::lemma_set_disjoint_lens(c, f);
        vstd::set_lib::lemma_set_disjoint_lens(c + f, e);
    }

    /// The endpoints in the order Chrome, Firefox, Edge.
    pub fn entries(&self) -> (r: Vec<(DriverType, String)>)
        ensures
            forall|i: int| 0 <= i < r.len() ==> self.map().dom().contains(#[trigger] r@[i].0) && self.map()[r@[i].0] == r@[i].1@,
            forall|d: DriverType| self.map().dom().contains(d) ==> exists|i: int| 0 <= i < r.len() && (#[trigger] r@[i]).0 == d,
            r.len() == self.map().dom().len(),
    {
        let mut v: Vec<(DriverType, String)> = Vec::new();
        if let Some(e) = &self.chrome { v.push((DriverType::Chrome, e.clone())); }
        if let Some(e) = &self.firefox { v.push((DriverType::Firefox, e.clone())); }
        if let Some(e) = &self.edge { v.push((DriverType::Edge, e.clone())); }
        proof {
            self.lemma_len();
            assert forall|d: DriverType| self.map().dom().contains(d) implies exists|i: int| 0 <= i < v.len() && (#[trigger] v@[i]).0 == d by {
                match d {
                    DriverType::Chrome => { assert(v@[0].0 == d); },
                    DriverType::Firefox => {
                        if self.chrome is Some { assert(v@[1].0 == d); } else { assert(v@[0].0 == d); }
                    },
                    DriverType::Edge => { assert(v@[v.len() - 1].0 == d); },
                }
            }
        }
        v
    }
}

/// The registry of driver processes the server started and of the
/// endpoints found healthy.
pub struct DriverManager {
    processes: Vec<ManagedProcess>,
    healthy: HealthyEndpoints,
}

impl DriverManager {
    /// The managed processes, in the order they were started.
    pub closed spec fn processes(&self) -> Seq<ProcessInfo> {
        self.processes@.map_values(|p: ManagedProcess| p.info())
    }

    /// The healthy endpoints.
    pub closed spec fn healthy(&self) -> Map<DriverType, Seq<char>> {
        self.healthy.map()
    }

    /// No process and no healthy endpoint.
    pub fn new() -> (r: DriverManager)
        ensures
            r.processes() == Seq::<ProcessInfo>::empty(),
            r.healthy() == Map::<DriverType, Seq<char>>::empty(),
    {
        let r = DriverManager { processes: Vec::new(), healthy: HealthyEndpoints::new() };
        assert(r.processes() =~= Seq::<ProcessInfo>::empty());
        r
    }

    /// Records a freshly spawned driver process.
    pub fn register_process(&mut self, driver_type: DriverType, pid: u32, port: u16)
        ensures
            final(self).processes() == old(self).processes().push((driver_type, pid, port, Seq::<u32>::empty())),
            final(self).healthy() == old(self).healthy(),
    {
        let p = ManagedProcess { driver_type, pid, port, browser_pids: Vec::new() };
        self.processes.push(p);
        assert(self.processes() =~= old(self).processes().push((driver_type, pid, port, Seq::<u32>::empty())));
    }

    /// Records a driver's endpoint as healthy.
    pub fn mark_healthy(&mut self, driver_type: DriverType, endpoint: String)
        ensures
            final(self).healthy() == old(self).healthy().insert(driver_type, endpoint@),
            final(self).processes() == old(self).processes(),
    {
        self.healthy.insert(driver_type, endpoint);
    }

    /// Replaces the healthy endpoints.
    pub fn set_healthy(&mut self, endpoints: HealthyEndpoints)
        ensures
            final(self).healthy() == endpoints.map(),
            final(self).processes() == old(self).processes(),
    {
        self.healthy = endpoints;
    }

    /// The healthy endpoints, in the order Chrome, Firefox, Edge.
    pub fn get_healthy_endpoints(&self) -> (r: Vec<(DriverType, String)>)
        ensures
            forall|i: int| 0 <= i < r.len() ==> self.healthy().dom().contains(#[trigger] r@[i].0) && self.healthy()[r@[i].0] == r@[i].1@,
            forall|d: DriverType| self.healthy().dom().contains(d) ==> exists|i: int| 0 <= i < r.len() && (#[trigger] r@[i]).0 == d,
            r.len() == self.healthy().dom().len(),
    {
        self.healthy.entries()
    }

    /// The healthy endpoint of a driver.
    pub fn healthy_endpoint(&self, driver_type: DriverType) -> (r: Option<String>)
        ensures
            match r {
                Some(e) => self.healthy().dom().contains(driver_type) && self.healthy()[driver_type] == e@,
                None => !self.healthy().dom().contains(driver_type),
            },
    {
        self.healthy.get(driver_type)
    }

    /// The number of healthy endpoints.
    pub fn healthy_count(&self) -> (r: usize)
        ensures
            r as nat == self.healthy().dom().len(),
    {
        self.healthy.len()
    }

    /// Whether a driver has a healthy endpoint.
    pub fn is_driver_healthy(&self, driver_type: &DriverType) -> (r: bool)
        ensures
            r == self.healthy().dom().contains(*driver_type),
    {
        self.healthy.contains(*driver_type)
    }

    /// Driver, pid and port of every managed process.
    pub fn get_managed_processes_status(&self) -> (r: Vec<(DriverType, u32, u16)>)
        ensures
            r.len() == self.processes().len(),
            forall|i: int| 0 <= i < r.len() ==> #[trigger] r@[i] == (self.processes()[i].0, self.processes()[i].1, self.processes()[i].2),
    {
        let mut r: Vec<(DriverType, u32, u16)> = Vec::new();
        let mut i: usize = 0;
        while i < self.processes.len()
            invariant
                i <= self.processes.len(),
                r.len() == i,
                forall|j: int| 0 <= j < i ==> #[trigger] r@[j] == (self.processes()[j].0, self.processes()[j].1, self.processes()[j].2),
            decreases self.processes.len() - i,
        {
            let p = &self.processes[i];
            r.push((p.driver_type, p.pid, p.port));
            i = i + 1;
        }
        r
    }

    /// Whether some managed process runs the driver.
    pub fn is_driver_managed(&self, driver_type: &DriverType) -> (r: bool)
        ensures
            r == runs_driver(self.processes(), *driver_type),
    {
        let mut i: usize = 0;
        while i < self.processes.len()
            invariant
                i <= self.processes.len(),
                forall|j: int| 0 <= j < i ==> (#[trigger] self.processes()[j]).0 != *driver_type,
            decreases self.processes.len() - i,
        {
            if self.processes[i].driver_type == *driver_type {
                assert(self.processes()[i as int].0 == *driver_type);
                return true;
            }
            i = i + 1;
        }
        false
    }

    /// Forgets the processes of one driver and its healthy endpoint; returns
    /// the pids of the forgotten processes, which the caller terminates.
    pub fn stop_driver_by_type(&mut self, driver_type: &DriverType) -> (r: Vec<u32>)
        ensures
            final(self).processes() == without_driver(old(self).processes(), *driver_type),
            final(self).healthy() == old(self).healthy().remove(*driver_type),
            r@ == pids_of_driver(old(self).processes(), *driver_type),
            !runs_driver(final(self).processes(), *driver_type),
            !final(self).healthy().dom().contains(*driver_type),
    {
        let d = *driver_type;
        let ghost old_procs = self.processes();
        let mut kept: Vec<ManagedProcess> = Vec::new();
        let mut stopped: Vec<u32> = Vec::new();
        let mut i: usize = 0;
        while i < self.processes.len()
            invariant
                i <= self.processes.len(),
                old_procs == self.processes(),
                kept@.map_values(|p: ManagedProcess| p.info()) == without_driver(old_procs.take(i as int), d),
                stopped@ == pids_of_driver(old_procs.take(i as int), d),
            decreases self.processes.len() - i,
        {
            let ghost pre = old_procs.take(i as int);
            proof {
                assert(old_procs.take(i + 1).drop_last() == pre);
                assert(old_procs.take(i + 1).last() == self.processes@[i as int].info());
            }
            let p = &self.processes[i];
            if p.driver_type == d {
                stopped.push(p.pid);
            } else {
                let c = p.duplicate();
                let ghost before = kept@.map_values(|p: ManagedProcess| p.info());
                kept.push(c);
                assert(kept@.map_values(|p: ManagedProcess| p.info()) =~= before.push(c.info()));
            }
            i = i + 1;
        }
        assert(old_procs.take(self.processes.len() as int) == old_procs);
        self.processes = kept;
        self.healthy.remove(d);
        proof { lemma_without_driver_excludes(old_procs, d); }
        stopped
    }

    /// Forgets every process and every healthy endpoint; returns the pids of
    /// the forgotten driver processes, which the caller terminates.
    pub fn stop_all_drivers(&mut self) -> (r: Vec<u32>)
        ensures
            final(self).processes() == Seq::<ProcessInfo>::empty(),
            final(self).healthy() == Map::<DriverType, Seq<char>>::empty(),
            r@ == old(self).processes().map_values(|p: ProcessInfo| p.1),
    {
        let mut pids: Vec<u32> = Vec::new();
        let mut i: usize = 0;
        while i < self.processes.len()
            invariant
                i <= self.processes.len(),
                pids@ == self.processes().take(i as int).map_values(|p: ProcessInfo| p.1),
            decreases self.processes.len() - i,
        {
            pids.push(self.processes[i].pid);
            assert(self.processes().take(i + 1).map_values(|p: ProcessInfo| p.1)
                =~= self.processes().take(i as int).map_values(|p: ProcessInfo| p.1).push(self.processes[i as int].pid));
            i = i + 1;
        }
        assert(self.processes().take(self.processes.len() as int) == self.processes());
        self.processes = Vec::new();
        self.healthy = HealthyEndpoints::new();
        assert(self.processes() =~= Seq::<ProcessInfo>::empty());
        pids
    }

    /// Forgets every process and healthy endpoint and returns, for each
    /// forgotten process, its driver, its pid and its browser pids, which the
    /// caller terminates.
    pub fn force_cleanup_all_processes(&mut self) -> (r: Vec<(DriverType, u32, Vec<u32>)>)
        ensures
            final(self).processes() == Seq::<ProcessInfo>::empty(),
            final(self).healthy() == Map::<DriverType, Seq<char>>::empty(),
            r.len() == old(self).processes().len(),
            forall|i: int| 0 <= i < r.len() ==> (#[trigger] r@[i]).0 == old(self).processes()[i].0
                && r@[i].1 == old(self).processes()[i].1 && r@[i].2@ == old(self).processes()[i].3,
    {
        let mut out: Vec<(DriverType, u32, Vec<u32>)> = Vec::new();
        let mut i: usize = 0;
        while i < self.processes.len()
            invariant
                i <= self.processes.len(),
                out.len() == i,
                forall|j: int| 0 <= j < i ==> (#[trigger] out@[j]).0 == self.processes()[j].0
                    && out@[j].1 == self.processes()[j].1 && out@[j].2@ == self.processes()[j].3,
            decreases self.processes.len() - i,
        {
            let c = self.processes[i].duplicate();
            out.push((c.driver_type, c.pid, c.browser_pids));
            i = i + 1;
        }
        self.processes = Vec::new();
        self.healthy = HealthyEndpoints::new();
        assert(self.processes() =~= Seq::<ProcessInfo>::empty());
        out
    }

    /// The (driver, port) pairs a health check probes: every managed process,
    /// then the standard ports of Chrome (9515), Firefox (4444) and Edge
    /// (9515) that no managed process of that driver already uses.
    pub fn health_probe_targets(&self) -> (r: Vec<(DriverType, u16)>)
        ensures
            r@ == probe_targets(self.processes()),
    {
        let mut r: Vec<(DriverType, u16)> = Vec::new();
        let mut i: usize = 0;
        while i < self.processes.len()
            invariant
                i <= self.processes.len(),
                r@ == managed_targets(self.processes().take(i as int)),
            decreases self.processes.len() - i,
        {
            let p = &self.processes[i];
            proof {
                assert(self.processes().take(i + 1).drop_last() == self.processes().take(i as int));
            }
            r.push((p.driver_type, p.port));
            i = i + 1;
        }
        assert(self.processes().take(self.processes.len() as int) == self.processes());
        let standard: [(DriverType, u16); 3] = [(DriverType::Chrome, 9515), (DriverType::Firefox, 4444), (DriverType::Edge, 9515)];
        let managed = r.len();
        let ghost m = r@;
        let mut k: usize = 0;
        while k < 3
            invariant
                k <= 3,
                managed == m.len(),
                m == managed_targets(self.processes()),
                standard@ == standard_targets(),
                r@ == m + extra_targets(m, standard_targets().take(k as int)),
            decreases 3 - k,
        {
            let (d, port) = standard[k];
            let mut seen = false;
            let mut j: usize = 0;
            while j < managed
                invariant
                    managed <= r.len(),
                    managed == m.len(),
                    r@.take(managed as int) == m,
                    j <= managed,
                    seen == (exists|x: int| 0 <= x < j && m[x] == (d, port)),
                decreases managed - j,
            {
                if r[j].0 == d && r[j].1 == port {
                    assert(m[j as int] == (d, port));
                    seen = true;
                }
                j = j + 1;
            }
            proof {
                assert(standard_targets().take(k + 1).drop_last() == standard_targets().take(k as int));
                assert(standard_targets().take(k + 1).last() == (d, port));
                assert(m.contains((d, port)) == (exists|x: int| 0 <= x < managed && m[x] == (d, port)));
            }
            if !seen {
                r.push((d, port));
            }
            k = k + 1;
        }
        assert(standard_targets().take(3) == standard_targets());
        r
    }
}

/// Driver and port of every managed process, in order.
pub open spec fn managed_targets(s: Seq<ProcessInfo>) -> Seq<(DriverType, u16)>
    decreases s.len(),
{
    if s.len() == 0 { Seq::empty() } else { managed_targets(s.drop_last()).push((s.last().0, s.last().2)) }
}

/// Chrome, Firefox and Edge at their standard ports.
pub open spec fn standard_targets() -> Seq<(DriverType, u16)> {
    seq![(DriverType::Chrome, 9515u16), (DriverType::Firefox, 4444u16), (DriverType::Edge, 9515u16)]
}

/// The standard targets that do not already occur among `m`, in order.
pub open spec fn extra_targets(m: Seq<(DriverType, u16)>, std: Seq<(DriverType, u16)>) -> Seq<(DriverType, u16)>
    decreases std.len(),
{
    if std.len() == 0 {
        Seq::empty()
    } else {
        let r = extra_targets(m, std.drop_last());
        if m.contains(std.last()) { r } else { r.push(std.last()) }
    }
}

/// Everything a health check probes.
pub open spec fn probe_targets(s: Seq<ProcessInfo>) -> Seq<(DriverType, u16)> {
    managed_targets(s) + extra_targets(managed_targets(s), standard_targets())
}

/// The healthy endpoints after probing `targets` with answers `alive`:
/// every target that answered, with later targets replacing earlier ones of
/// the same driver.
pub open spec fn healthy_after_probe(targets: Seq<(DriverType, u16)>, alive: Seq<bool>) -> Map<DriverType, Seq<char>>
    decreases targets.len(),
{
    if targets.len() == 0 {
        Map::empty()
    } else {
        let m = healthy_after_probe(targets.drop_last(), alive);
        if alive[targets.len() - 1] {
            m.insert(targets.last().0, localhost_endpoint(targets.last().1))
        } else {
            m
        }
    }
}

/// Whether target `i` is a target of driver `d` that answered.
pub open spec fn answered(targets: Seq<(DriverType, u16)>, alive: Seq<bool>, d: DriverType, i: int) -> bool {
    0 <= i < targets.len() && targets[i].0 == d && alive[i]
}

/// Whether target `i` is the last target of driver `d` that answered.
pub open spec fn last_answered(targets: Seq<(DriverType, u16)>, alive: Seq<bool>, d: DriverType, i: int) -> bool {
    answered(targets, alive, d, i) && forall|j: int| i < j < targets.len() ==> !answered(targets, alive, d, j)
}

proof fn lemma_health_step(targets: Seq<(DriverType, u16)>, alive: Seq<bool>, d: DriverType, i: int)
    requires
        targets.len() > 0,
        0 <= i < targets.len() - 1,
    ensures
        answered(targets, alive, d, i) == answered(targets.drop_last(), alive, d, i),
{
}

/// After a health probe, a driver is healthy exactly when one of its
/// probed targets answered, and its endpoint is that of the last of its
/// targets that answered (so a live port 9515 marks both Chrome and Edge).
/// `refresh_driver_health` sets the healthy endpoints to this map over the
/// targets `health_probe_targets` gives, keeping the processes.
pub proof fn lemma_health_refresh(targets: Seq<(DriverType, u16)>, alive: Seq<bool>, d: DriverType)
    requires
        alive.len() >= targets.len(),
    ensures
        healthy_after_probe(targets, alive).dom().contains(d)
            <==> exists|i: int| #[trigger] answered(targets, alive, d, i),
        healthy_after_probe(targets, alive).dom().contains(d) ==> exists|i: int| #[trigger] last_answered(targets, alive, d, i)
            && healthy_after_probe(targets, alive)[d] == localhost_endpoint(targets[i].1),
    decreases targets.len(),
{
    if targets.len() > 0 {
        let t = targets.drop_last();
        let n = targets.len() - 1;
        lemma_health_refresh(t, alive, d);
        let m = healthy_after_probe(t, alive);
        if answered(targets, alive, d, n) {
            assert(last_answered(targets, alive, d, n));
        } else {
            assert(healthy_after_probe(targets, alive).dom().contains(d) == m.dom().contains(d));
            if m.dom().contains(d) {
                let i = choose|i: int| #[trigger] last_answered(t, alive, d, i) && m[d] == localhost_endpoint(t[i].1);
                lemma_health_step(targets, alive, d, i);
                assert forall|j: int| i < j < targets.len() implies !answered(targets, alive, d, j) by {
                    if j < n {
                        lemma_health_step(targets, alive, d, j);
                    }
                }
                assert(last_answered(targets, alive, d, i));
                assert(answered(targets, alive, d, i));
            } else {
                assert forall|i: int| !answered(targets, alive, d, i) by {
                    if 0 <= i < n {
                        lemma_health_step(targets, alive, d, i);
                        assert(!answered(t, alive, d, i));
                    }
                }
            }
        }
    }
}

/// Builds the healthy endpoints from the answers of a health probe.
pub fn healthy_from_probe(targets: &Vec<(DriverType, u16)>, alive: &Vec<bool>) -> (r: HealthyEndpoints)
    requires
        alive.len() == targets.len(),
    ensures
        r.map() == healthy_after_probe(targets@, alive@),
{
    let mut h = HealthyEndpoints::new();
    let mut i: usize = 0;
    while i < targets.len()
        invariant
            i <= targets.len(),
            alive.len() == targets.len(),
            h.map() == healthy_after_probe(targets@.take(i as int), alive@),
        decreases targets.len() - i,
    {
        proof {
            assert(targets@.take(i + 1).drop_last() == targets@.take(i as int));
            assert(targets@.take(i + 1).last() == targets@[i as int]);
        }
        if alive[i] {
            let (d, port) = targets[i];
            h.insert(d, localhost_url(port));
        }
        i = i + 1;
    }
    assert(targets@.take(targets.len() as int) == targets@);
    h
}

impl DriverManager {
    /// Replaces the healthy endpoints by what a health probe of
    /// `health_probe_targets` answered.
    pub fn refresh_driver_health(&mut self, targets: &Vec<(DriverType, u16)>, alive: &Vec<bool>)
        requires
            alive.len() == targets.len(),
        ensures
            final(self).healthy() == healthy_after_probe(targets@, alive@),
            final(self).processes() == old(self).processes(),
    {
        let h = healthy_from_probe(targets, alive);
        self.healthy = h;
    }
}


/// Pids listed one per line, as `pgrep` prints them: every line whose
/// trimmed text is a `u32`, in order; other lines are skipped.
pub open spec fn pids_in_lines(lines: Seq<Seq<char>>) -> Seq<u32>
    decreases lines.len(),
{
    if lines.len() == 0 {
        Seq::empty()
    } else {
        let r = pids_in_lines(lines.drop_last());
        match text::parse_unsigned(text::trimmed(lines.last()), u32::MAX as nat) {
            Some(v) => r.push(v as u32),
            None => r,
        }
    }
}

/// Reads the pids that `pgrep` printed.
pub fn parse_pgrep_output(out: &str) -> (r: Vec<u32>)
    ensures
        r@ == pids_in_lines(text::split_on(out@, '\n')),
{
    let lines = text::split_char(out, '\n');
    let ghost ls = lines@.map_values(|x: String| x@);
    let mut r: Vec<u32> = Vec::new();
    let mut i: usize = 0;
    while i < lines.len()
        invariant
            i <= lines.len(),
            ls == lines@.map_values(|x: String| x@),
            r@ == pids_in_lines(ls.take(i as int)),
        decreases lines.len() - i,
    {
        proof {
            assert(ls.take(i + 1).drop_last() == ls.take(i as int));
            assert(ls.take(i + 1).last() == lines@[i as int]@);
        }
        let t = text::trim(lines[i].as_str());
        match text::parse_u32(t.as_str()) {
            Some(v) => r.push(v),
            None => {},
        }
        i = i + 1;
    }
    assert(ls.take(lines.len() as int) == ls);
    r
}

/// Number of leading occurrences of `c`.
pub open spec fn leading_run(s: Seq<char>, c: char) -> nat
    decreases s.len(),
{
    if s.len() == 0 || s[0] != c { 0 } else { 1 + leading_run(s.subrange(1, s.len() as int), c) }
}

/// Number of trailing occurrences of `c`.
pub open spec fn trailing_run(s: Seq<char>, c: char) -> nat
    decreases s.len(),
{
    if s.len() == 0 || s.last() != c { 0 } else { 1 + trailing_run(s.drop_last(), c) }
}

/// `s` with every leading and trailing `c` removed (`str::trim_matches`).
pub open spec fn trim_char(s: Seq<char>, c: char) -> Seq<char> {
    let rest = s.subrange(leading_run(s, c) as int, s.len() as int);
    rest.subrange(0, rest.len() - trailing_run(rest, c))
}

proof fn lemma_leading_run(s: Seq<char>, c: char, i: int)
    requires
        0 <= i <= s.len(),
        forall|j: int| 0 <= j < i ==> #[trigger] s[j] == c,
    ensures
        leading_run(s, c) == i + leading_run(s.subrange(i, s.len() as int), c),
    decreases i,
{
    if i > 0 {
        let t = s.subrange(1, s.len() as int);
        assert forall|j: int| 0 <= j < i - 1 implies #[trigger] t[j] == c by {
            assert(t[j] == s[j + 1]);
        }
        lemma_leading_run(t, c, i - 1);
        assert(t.subrange(i - 1, t.len() as int) == s.subrange(i, s.len() as int));
    } else {
        assert(s.subrange(0, s.len() as int) == s);
    }
}

proof fn lemma_trailing_run(s: Seq<char>, c: char, k: int)
    requires
        0 <= k <= s.len(),
        forall|j: int| s.len() - k <= j < s.len() ==> #[trigger] s[j] == c,
    ensures
        trailing_run(s, c) == k + trailing_run(s.subrange(0, s.len() - k), c),
    decreases k,
{
    if k > 0 {
        let t = s.drop_last();
        assert forall|j: int| t.len() - (k - 1) <= j < t.len() implies #[trigger] t[j] == c by {
            assert(t[j] == s[j]);
        }
        lemma_trailing_run(t, c, k - 1);
        assert(t.subrange(0, t.len() - (k - 1)) == s.subrange(0, s.len() - k));
    } else {
        assert(s.subrange(0, s.len() as int) == s);
    }
}

/// `str::trim_matches` with a single character.
pub fn trim_matches_char(s: &str, c: char) -> (r: String)
    ensures
        r@ == trim_char(s@, c),
{
    let v = text::chars_of(s);
    let mut a: usize = 0;
    while a < v.len() && v[a] == c
        invariant
            a <= v.len(),
            forall|j: int| 0 <= j < a ==> #[trigger] v@[j] == c,
        decreases v.len() - a,
    {
        a = a + 1;
    }
    proof {
        lemma_leading_run(v@, c, a as int);
        let t = v@.subrange(a as int, v@.len() as int);
        if t.len() > 0 {
            assert(t[0] == v@[a as int]);
        }
    }
    let mut b: usize = v.len();
    while b > a && v[b - 1] == c
        invariant
            a <= b <= v.len(),
            forall|j: int| b <= j < v.len() ==> #[trigger] v@[j] == c,
        decreases b,
    {
        b = b - 1;
    }
    let ghost rest = v@.subrange(a as int, v@.len() as int);
    proof {
        let k = v.len() - b;
        assert forall|j: int| rest.len() - k <= j < rest.len() implies #[trigger] rest[j] == c by {
            assert(rest[j] == v@[a + j]);
        }
        lemma_trailing_run(rest, c, k as int);
        let u = rest.subrange(0, rest.len() - k);
        if u.len() > 0 {
            assert(u.last() == v@[b - 1]);
        }
    }
    let mut r: Vec<char> = Vec::new();
    let mut i: usize = a;
    while i < b
        invariant
            a <= i <= b <= v.len(),
            r@ == v@.subrange(a as int, i as int),
        decreases b - i,
    {
        r.push(v[i]);
        assert(v@.subrange(a as int, i as int).push(v@[i as int]) == v@.subrange(a as int, i + 1));
        i = i + 1;
    }
    assert(r@ == rest.subrange(0, rest.len() - trailing_run(rest, c)));
    text::string_of(&r)
}

/// The pid in one line of `tasklist /FO CSV /NH` output: the second
/// comma-separated field without its quotes, when it is a `u32`.
pub open spec fn tasklist_line_pid(line: Seq<char>) -> Option<u32> {
    let l = trimmed_line_end(line);
    let fields = text::split_on(l, ',');
    if text::trimmed(l).len() == 0 || fields.len() < 2 {
        None
    } else {
        match text::parse_unsigned(trim_char(fields[1], '"'), u32::MAX as nat) {
            Some(v) => Some(v as u32),
            None => None,
        }
    }
}

/// The pids of every line of a `tasklist` listing, in order.
pub open spec fn tasklist_pids(lines: Seq<Seq<char>>) -> Seq<u32>
    decreases lines.len(),
{
    if lines.len() == 0 {
        Seq::empty()
    } else {
        let r = tasklist_pids(lines.drop_last());
        match tasklist_line_pid(lines.last()) {
            Some(v) => r.push(v),
            None => r,
        }
    }
}

/// The pid in one line of a `tasklist` listing.
pub fn parse_tasklist_line(line: &str) -> (r: Option<u32>)
    ensures
        r == tasklist_line_pid(line@),
{
    let l = strip_carriage_return(line);
    let t = text::trim(l.as_str());
    if t.as_str().unicode_len() == 0 {
        return None;
    }
    let fields = text::split_char(l.as_str(), ',');
    proof {
        assert(fields@.map_values(|x: String| x@).len() == fields.len());
    }
    if fields.len() < 2 {
        return None;
    }
    proof {
        assert(fields@.map_values(|x: String| x@)[1] == fields@[1]@);
    }
    let pid = trim_matches_char(fields[1].as_str(), '"');
    text::parse_u32(pid.as_str())
}

/// Reads the pids that `tasklist /FO CSV /NH` printed.
pub fn parse_tasklist_output(out: &str) -> (r: Vec<u32>)
    ensures
        r@ == tasklist_pids(text::split_on(out@, '\n')),
{
    let lines = text::split_char(out, '\n');
    let ghost ls = lines@.map_values(|x: String| x@);
    let mut r: Vec<u32> = Vec::new();
    let mut i: usize = 0;
    while i < lines.len()
        invariant
            i <= lines.len(),
            ls == lines@.map_values(|x: String| x@),
            r@ == tasklist_pids(ls.take(i as int)),
        decreases lines.len() - i,
    {
        proof {
            assert(ls.take(i + 1).drop_last() == ls.take(i as int));
            assert(ls.take(i + 1).last() == lines@[i as int]@);
        }
        match parse_tasklist_line(lines[i].as_str()) {
            Some(v) => r.push(v),
            None => {},
        }
        i = i + 1;
    }
    assert(ls.take(lines.len() as int) == ls);
    r
}

/// The drivers that a list of names asks for, one entry per name
/// (`None` for a name that is no driver).
pub fn concurrent_driver_plan(names: &Vec<String>) -> (r: Vec<Option<DriverType>>)
    ensures
        r.len() == names.len(),
        forall|i: int| 0 <= i < r.len() ==> #[trigger] r@[i] == driver_named(text::lowercase(names@[i]@)),
{
    let mut r: Vec<Option<DriverType>> = Vec::new();
    let mut i: usize = 0;
    while i < names.len()
        invariant
            i <= names.len(),
            r.len() == i,
            forall|j: int| 0 <= j < i ==> #[trigger] r@[j] == driver_named(text::lowercase(names@[j]@)),
        decreases names.len() - i,
    {
        r.push(DriverType::from_string(names[i].as_str()));
        i = i + 1;
    }
    r
}

} // verus!
