//! Recipe files and recipe templates: how recipe names become file names,
//! what is listed of a stored recipe, and the recipes each template builds.

use vstd::prelude::*;
use crate::text::views;
use crate::text;
use crate::json;
use crate::json::{JsonEntry, JsonObject};
use crate::recipe;
use crate::recipe::{ParameterDefinition, Recipe, RecipeStep};
use crate::error::WebDriverError;
use crate::actions;

verus! {

/// A recipe name made safe for a file name: every character that is not
/// alphanumeric, `-` or `_` becomes `_`.
pub open spec fn sanitized(name: Seq<char>) -> Seq<char> {
    name.map_values(|c: char| if text::alphanumeric(c) || c == '-' || c == '_' { c } else { '_' })
}

/// A character a sanitised name may hold: where it is ASCII, a letter, a
/// digit, `-` or `_`.
pub open spec fn safe_name_char(c: char) -> bool {
    text::is_ascii_char(c) ==> (text::ascii_letter_or_digit(c) || c == '-' || c == '_')
}

/// Replaces the characters of a recipe name that are not alphanumeric,
/// `-` or `_` by `_`.
pub fn sanitize_filename(name: &str) -> (r: String)
    ensures
        r@ == sanitized(name@),
        forall|i: int| 0 <= i < r@.len() ==> safe_name_char(#[trigger] r@[i]),
{
    let v = text::chars_of(name);
    let mut out: Vec<char> = Vec::new();
    let mut i: usize = 0;
    while i < v.len()
        invariant
            i <= v.len(),
            v@ == name@,
            out@ == sanitized(v@.take(i as int)),
            forall|j: int| 0 <= j < out@.len() ==> safe_name_char(#[trigger] out@[j]),
        decreases v.len() - i,
    {
        let c = v[i];
        let keep = text::is_alphanumeric(c) || c == '-' || c == '_';
        out.push(if keep { c } else { '_' });
        assert(sanitized(v@.take(i + 1)) =~= sanitized(v@.take(i as int)).push(if keep { c } else { '_' }));
        i = i + 1;
    }
    assert(v@.take(v.len() as int) == v@);
    text::string_of(&out)
}

/// The file name under which a recipe is stored: its sanitised name and `.json`.
pub fn recipe_file_name(name: &str) -> (r: String)
    ensures
        r@ == sanitized(name@) + ".json"@,
        forall|i: int| 0 <= i < name@.len() ==> safe_name_char(#[trigger] r@[i]),
{
    let s = sanitize_filename(name);
    text::concat2(s.as_str(), ".json")
}

/// What a recipe listing shows of a stored recipe.
#[derive(Debug, Clone)]
pub struct RecipeInfo {
    pub name: String,
    pub description: Option<String>,
    pub version: String,
    pub author: Option<String>,
    pub created_at: Option<String>,
    pub step_count: usize,
    pub file_path: String,
}

impl RecipeInfo {
    /// The listing entry of a recipe stored at `file_path`.
    pub fn from_recipe(r: &Recipe, file_path: String) -> (i: RecipeInfo)
        ensures
            i.name == r.name && i.description == r.description && i.version == r.version
                && i.author == r.author && i.created_at == r.created_at
                && i.step_count == r.steps.len() && i.file_path == file_path,
    {
        RecipeInfo {
            name: r.name.clone(),
            description: recipe::copy_opt(&r.description),
            version: r.version.clone(),
            author: recipe::copy_opt(&r.author),
            created_at: recipe::copy_opt(&r.created_at),
            step_count: r.steps.len(),
            file_path,
        }
    }
}

/// The built-in kinds of recipe.
#[derive(Debug, Clone)]
pub enum RecipeTemplate {
    LoginAndScreenshot { base_url: String, username: String, password: String, browsers: Option<Vec<String>> },
    MultiBrowserScreenshot { url: String, browsers: Vec<String> },
    ResponsiveTest { url: String, browsers: Vec<String>, resolutions: Vec<(u32, u32)> },
}

/// A step as templates build it: with a name and a description, stopping
/// or not on error, and without condition, session or browser of its own.
pub open spec fn template_step(
    s: RecipeStep,
    name: Seq<char>,
    desc: Seq<char>,
    action: Seq<char>,
    entries: Map<Seq<char>, JsonEntry>,
    continue_on_error: bool,
    retry_count: Option<u32>,
    retry_delay_ms: Option<u64>,
) -> bool {
    &&& s.name matches Some(n) && n@ == name
    &&& s.description matches Some(d) && d@ == desc
    &&& s.action@ == action
    &&& json::json_entries(s.arguments) == entries
    &&& s.continue_on_error == Some(continue_on_error)
    &&& s.retry_count == retry_count
    &&& s.retry_delay_ms == retry_delay_ms
    &&& s.condition is None
    &&& s.session_id is None
    &&& s.browser is None
}

fn make_step(
    name: &str,
    desc: &str,
    action: &str,
    arguments: JsonObject,
    continue_on_error: bool,
    retry_count: Option<u32>,
    retry_delay_ms: Option<u64>,
) -> (s: RecipeStep)
    ensures
        template_step(s, name@, desc@, action@, json::json_entries(arguments), continue_on_error, retry_count, retry_delay_ms),
{
    RecipeStep {
        name: Some(text::owned(name)),
        description: Some(text::owned(desc)),
        action: text::owned(action),
        arguments,
        continue_on_error: Some(continue_on_error),
        retry_count,
        retry_delay_ms,
        condition: None,
        session_id: None,
        browser: None,
    }
}

/// A single string argument.
pub open spec fn text_arg(k: Seq<char>, v: Seq<char>) -> Map<Seq<char>, JsonEntry> {
    Map::empty().insert(k, JsonEntry::Text(v))
}

/// The arguments of a wait for the page to finish loading.
pub open spec fn ready_wait_args(timeout: u64) -> Map<Seq<char>, JsonEntry> {
    Map::empty().insert("condition"@, JsonEntry::Text("document.readyState === 'complete'"@))
        .insert("timeout_seconds"@, JsonEntry::Unsigned(timeout))
}

/// The arguments of a login step.
pub open spec fn login_args() -> Map<Seq<char>, JsonEntry> {
    Map::empty().insert("username"@, JsonEntry::Text("${username}"@)).insert("password"@, JsonEntry::Text("${password}"@))
}

/// The arguments of a window resize.
pub open spec fn size_args(w: u32, h: u32) -> Map<Seq<char>, JsonEntry> {
    Map::empty().insert("width"@, JsonEntry::Unsigned(w as u64)).insert("height"@, JsonEntry::Unsigned(h as u64))
}

fn args_text(k: &str, v: &str) -> (m: JsonObject)
    ensures
        json::json_entries(m) == text_arg(k@, v@),
{
    let mut m = json::json_object_new();
    json::json_insert_text(&mut m, text::owned(k), text::owned(v));
    m
}

fn args_ready_wait(timeout: u64) -> (m: JsonObject)
    ensures
        json::json_entries(m) == ready_wait_args(timeout),
{
    let mut m = json::json_object_new();
    json::json_insert_text(&mut m, text::owned("condition"), text::owned("document.readyState === 'complete'"));
    json::json_insert_unsigned(&mut m, text::owned("timeout_seconds"), timeout);
    m
}

fn args_login() -> (m: JsonObject)
    ensures
        json::json_entries(m) == login_args(),
{
    let mut m = json::json_object_new();
    json::json_insert_text(&mut m, text::owned("username"), text::owned("${username}"));
    json::json_insert_text(&mut m, text::owned("password"), text::owned("${password}"));
    m
}

fn args_size(w: u32, h: u32) -> (m: JsonObject)
    ensures
        json::json_entries(m) == size_args(w, h),
{
    let mut m = json::json_object_new();
    json::json_insert_unsigned(&mut m, text::owned("width"), w as u64);
    json::json_insert_unsigned(&mut m, text::owned("height"), h as u64);
    m
}

/// A required parameter with a description and a default value.
pub open spec fn param_is(p: (String, ParameterDefinition), name: Seq<char>, desc: Seq<char>, default: Seq<char>) -> bool {
    &&& p.0@ == name
    &&& p.1.description matches Some(d) && d@ == desc
    &&& p.1.default_value matches Some(v) && v@ == default
    &&& p.1.required
}

fn make_param(name: &str, desc: &str, default: String) -> (p: (String, ParameterDefinition))
    ensures
        param_is(p, name@, desc@, default@),
{
    (text::owned(name), ParameterDefinition { description: Some(text::owned(desc)), default_value: Some(default), required: true })
}

/// The fields every template recipe shares.
pub open spec fn template_header(r: Recipe, name: Seq<char>, desc: Seq<char>, browsers: Seq<Seq<char>>, created_at: Seq<char>) -> bool {
    &&& r.name@ == name
    &&& r.description matches Some(d) && d@ == desc
    &&& r.version@ == "1.0.0"@
    &&& r.author is None
    &&& r.created_at matches Some(c) && c@ == created_at
    &&& r.browsers@.map_values(|s: String| s@) == browsers
}

/// The first two steps of the screenshot templates: open the URL and wait
/// for the page to load.
pub open spec fn open_url_steps(r: Recipe) -> bool {
    &&& template_step(r.steps@[0], "Navigate to URL"@, "Navigate to the target URL"@, "navigate"@,
            text_arg("url"@, "${url}"@), false, Some(2), Some(1000))
    &&& template_step(r.steps@[1], "Wait for page load"@, "Wait for the page to fully load"@, "wait_for_condition"@,
            ready_wait_args(10), false, None, None)
}

/// The recipe of the login-and-screenshot template.
pub open spec fn login_recipe(r: Recipe, base_url: Seq<char>, username: Seq<char>, password: Seq<char>,
    browsers: Seq<Seq<char>>, created_at: Seq<char>) -> bool {
    &&& template_header(r, "login_and_screenshot"@, "Login to a website and take a screenshot"@, browsers, created_at)
    &&& r.parameters matches Some(p) && p@.len() == 3
        && param_is(p@[0], "base_url"@, "Base URL of the website"@, base_url)
        && param_is(p@[1], "username"@, "Username for login"@, username)
        && param_is(p@[2], "password"@, "Password for login"@, password)
    &&& r.steps@.len() == 5
    &&& template_step(r.steps@[0], "Navigate to login page"@, "Navigate to the login page"@, "navigate"@,
            text_arg("url"@, "${base_url}"@), false, Some(3), Some(1000))
    &&& template_step(r.steps@[1], "Wait for page to load"@, "Wait for the page to finish loading"@, "wait_for_condition"@,
            ready_wait_args(10), false, None, None)
    &&& template_step(r.steps@[2], "Login with credentials"@, "Fill and submit the login form"@, "login_form"@,
            login_args(), false, Some(2), Some(2000))
    &&& template_step(r.steps@[3], "Wait after login"@, "Wait for login to complete"@, "wait_for_condition"@,
            ready_wait_args(5), true, None, None)
    &&& template_step(r.steps@[4], "Take screenshot"@, "Take a screenshot of the current page"@, "screenshot"@,
            text_arg("save_path"@, "{{browser}}_login_screenshot.png"@), false, None, None)
}

/// The recipe of the multi-browser screenshot template.
pub open spec fn multi_browser_recipe(r: Recipe, url: Seq<char>, browsers: Seq<Seq<char>>, created_at: Seq<char>) -> bool {
    &&& template_header(r, "multi_browser_screenshot"@, "Take screenshots across multiple browsers for comparison"@, browsers, created_at)
    &&& r.parameters matches Some(p) && p@.len() == 1 && param_is(p@[0], "url"@, "URL to take screenshots of"@, url)
    &&& r.steps@.len() == 3
    &&& open_url_steps(r)
    &&& template_step(r.steps@[2], "Take browser-specific screenshot"@, "Take a screenshot with browser name in filename"@,
            "screenshot"@, text_arg("save_path"@, "{{browser}}_screenshot.png"@), false, None, None)
}

/// `<width>x<height>`.
pub open spec fn resolution_name(w: u32, h: u32) -> Seq<char> {
    text::decimal(w as nat) + "x"@ + text::decimal(h as nat)
}

/// The two steps a resolution adds: resize, then a screenshot named after the size.
pub open spec fn resolution_steps(a: RecipeStep, b: RecipeStep, w: u32, h: u32) -> bool {
    let n = resolution_name(w, h);
    &&& template_step(a, "Set "@ + n + " resolution"@, "Set browser to "@ + n + " resolution"@, "resize_window"@,
            size_args(w, h), false, None, None)
    &&& template_step(b, n + " screenshot"@, "Take screenshot at "@ + n + " resolution"@, "screenshot"@,
            text_arg("save_path"@, "{{browser}}_"@ + text::decimal(w as nat) + "_"@ + text::decimal(h as nat) + ".png"@),
            false, None, None)
}

/// The recipe of the responsive-design template.
pub open spec fn responsive_recipe(r: Recipe, url: Seq<char>, browsers: Seq<Seq<char>>, resolutions: Seq<(u32, u32)>,
    created_at: Seq<char>) -> bool {
    &&& template_header(r, "responsive_test"@, "Test responsive design across different browsers and screen sizes"@, browsers, created_at)
    &&& r.parameters matches Some(p) && p@.len() == 1 && param_is(p@[0], "url"@, "URL to test for responsive design"@, url)
    &&& r.steps@.len() == 2 + 2 * resolutions.len()
    &&& open_url_steps(r)
    &&& forall|k: int| 0 <= k < resolutions.len() ==>
            resolution_steps(#[trigger] r.steps@[2 + 2 * k], r.steps@[3 + 2 * k], resolutions[k].0, resolutions[k].1)
}

/// Whether `a` resizes the window to `w` by `h` and `b` then takes the
/// screenshot of that size: `a` is `resize_window` named
/// `Set <w>x<h> resolution` with `width` argument `w` and `height`
/// argument `h`; `b` is `screenshot` with save path
/// `{{browser}}_<w>_<h>.png`.
pub open spec fn resizes_then_shoots(a: RecipeStep, b: RecipeStep, w: u32, h: u32) -> bool {
    let args = json::json_entries(a.arguments);
    let shot = json::json_entries(b.arguments);
    &&& a.action@ == "resize_window"@
    &&& a.name is Some && a.name->0@ == "Set "@ + text::decimal(w as nat) + "x"@ + text::decimal(h as nat) + " resolution"@
    &&& args.dom().contains("width"@) && args["width"@] == JsonEntry::Unsigned(w as u64)
    &&& args.dom().contains("height"@) && args["height"@] == JsonEntry::Unsigned(h as u64)
    &&& b.action@ == "screenshot"@
    &&& shot.dom().contains("save_path"@)
    &&& shot["save_path"@] == JsonEntry::Text("{{browser}}_"@ + text::decimal(w as nat) + "_"@ + text::decimal(h as nat) + ".png"@)
}

/// In the recipe of a responsive test, each resolution `(w, h)`, in order,
/// gives a step that resizes the window to width `w` and height `h` under
/// the name `Set <w>x<h> resolution`, followed by a screenshot saved under
/// that size.
pub proof fn lemma_responsive_resize_steps(t: RecipeTemplate, r: Recipe, c: Seq<char>)
    requires
        template_recipe(t, r, c),
    ensures
        match t {
            RecipeTemplate::ResponsiveTest { resolutions, .. } =>
                r.steps@.len() == 2 + 2 * resolutions@.len()
                && forall|k: int| 0 <= k < resolutions@.len() ==> resizes_then_shoots(#[trigger] r.steps@[2 + 2 * k],
                    r.steps@[3 + 2 * k], resolutions@[k].0, resolutions@[k].1),
            _ => true,
        },
{
    match t {
        RecipeTemplate::ResponsiveTest { resolutions, .. } => {
            reveal_strlit("width");
            reveal_strlit("height");
            assert("width"@.len() != "height"@.len());
            assert forall|k: int| 0 <= k < resolutions@.len() implies resizes_then_shoots(#[trigger] r.steps@[2 + 2 * k],
                r.steps@[3 + 2 * k], resolutions@[k].0, resolutions@[k].1) by {
                let w = resolutions@[k].0;
                let h = resolutions@[k].1;
                assert(resolution_steps(r.steps@[2 + 2 * k], r.steps@[3 + 2 * k], w, h));
                assert("Set "@ + resolution_name(w, h) + " resolution"@ =~= "Set "@ + text::decimal(w as nat) + "x"@
                    + text::decimal(h as nat) + " resolution"@);
                let m = size_args(w, h);
                assert(m.dom().contains("width"@) && m["width"@] == JsonEntry::Unsigned(w as u64));
                assert(m.dom().contains("height"@) && m["height"@] == JsonEntry::Unsigned(h as u64));
            }
        },
        _ => {},
    }
}

/// The recipe a template builds, given its creation time.
pub open spec fn template_recipe(t: RecipeTemplate, r: Recipe, created_at: Seq<char>) -> bool {
    match t {
        RecipeTemplate::LoginAndScreenshot { base_url, username, password, browsers } =>
            login_recipe(r, base_url@, username@, password@,
                match browsers { Some(b) => b@.map_values(|s: String| s@), None => seq!["auto"@] }, created_at),
        RecipeTemplate::MultiBrowserScreenshot { url, browsers } =>
            multi_browser_recipe(r, url@, browsers@.map_values(|s: String| s@), created_at),
        RecipeTemplate::ResponsiveTest { url, browsers, resolutions } =>
            responsive_recipe(r, url@, browsers@.map_values(|s: String| s@), resolutions@, created_at),
    }
}

fn open_url_step_pair(steps: &mut Vec<RecipeStep>)
    requires
        old(steps)@.len() == 0,
    ensures
        final(steps)@.len() == 2,
        template_step(final(steps)@[0], "Navigate to URL"@, "Navigate to the target URL"@, "navigate"@,
            text_arg("url"@, "${url}"@), false, Some(2), Some(1000)),
        template_step(final(steps)@[1], "Wait for page load"@, "Wait for the page to fully load"@, "wait_for_condition"@,
            ready_wait_args(10), false, None, None),
{
    steps.push(make_step("Navigate to URL", "Navigate to the target URL", "navigate", args_text("url", "${url}"),
        false, Some(2), Some(1000)));
    steps.push(make_step("Wait for page load", "Wait for the page to fully load", "wait_for_condition",
        args_ready_wait(10), false, None, None));
}

/// Builds the recipe of a template, stamped with `created_at`.
pub fn recipe_from_template(template: RecipeTemplate, created_at: String) -> (r: Recipe)
    requires
        template matches RecipeTemplate::ResponsiveTest { resolutions, .. } ==> resolutions.len() < usize::MAX / 4,
    ensures
        template_recipe(template, r, created_at@),
        recipe::parameters_distinct(r),
        match template {
            RecipeTemplate::ResponsiveTest { resolutions, .. } =>
                forall|k: int| 0 <= k < resolutions@.len() ==> resizes_then_shoots(#[trigger] r.steps@[2 + 2 * k],
                    r.steps@[3 + 2 * k], resolutions@[k].0, resolutions@[k].1),
            _ => true,
        },
{
    let ghost t = template;
    let ghost c = created_at@;
    let r = recipe_from_template_unchecked(template, created_at);
    proof {
        lemma_template_parameters_distinct(t, r, c);
        lemma_responsive_resize_steps(t, r, c);
    }
    r
}

proof fn lemma_template_parameters_distinct(t: RecipeTemplate, r: Recipe, c: Seq<char>)
    requires
        template_recipe(t, r, c),
    ensures
        recipe::parameters_distinct(r),
{
    reveal_strlit("base_url");
    reveal_strlit("username");
    reveal_strlit("password");
    match t {
        RecipeTemplate::LoginAndScreenshot { .. } => {
            let p = r.parameters->0;
            assert(p@[0].0@[0] != p@[1].0@[0]);
            assert(p@[0].0@[0] != p@[2].0@[0]);
            assert(p@[1].0@[0] != p@[2].0@[0]);
        },
        _ => {},
    }
}

fn recipe_from_template_unchecked(template: RecipeTemplate, created_at: String) -> (r: Recipe)
    requires
        template matches RecipeTemplate::ResponsiveTest { resolutions, .. } ==> resolutions.len() < usize::MAX / 4,
    ensures
        template_recipe(template, r, created_at@),
{
    match template {
        RecipeTemplate::LoginAndScreenshot { base_url, username, password, browsers } => {
            let bs = match browsers {
                Some(b) => b,
                None => recipe::default_browsers(),
            };
            let mut params: Vec<(String, ParameterDefinition)> = Vec::new();
            params.push(make_param("base_url", "Base URL of the website", base_url));
            params.push(make_param("username", "Username for login", username));
            params.push(make_param("password", "Password for login", password));
            let mut steps: Vec<RecipeStep> = Vec::new();
            steps.push(make_step("Navigate to login page", "Navigate to the login page", "navigate",
                args_text("url", "${base_url}"), false, Some(3), Some(1000)));
            steps.push(make_step("Wait for page to load", "Wait for the page to finish loading", "wait_for_condition",
                args_ready_wait(10), false, None, None));
            steps.push(make_step("Login with credentials", "Fill and submit the login form", "login_form",
                args_login(), false, Some(2), Some(2000)));
            steps.push(make_step("Wait after login", "Wait for login to complete", "wait_for_condition",
                args_ready_wait(5), true, None, None));
            steps.push(make_step("Take screenshot", "Take a screenshot of the current page", "screenshot",
                args_text("save_path", "{{browser}}_login_screenshot.png"), false, None, None));
            Recipe {
                name: text::owned("login_and_screenshot"),
                description: Some(text::owned("Login to a website and take a screenshot")),
                version: text::owned("1.0.0"),
                author: None,
                created_at: Some(created_at),
                parameters: Some(params),
                browsers: bs,
                steps,
            }
        },
        RecipeTemplate::MultiBrowserScreenshot { url, browsers } => {
            let mut params: Vec<(String, ParameterDefinition)> = Vec::new();
            params.push(make_param("url", "URL to take screenshots of", url));
            let mut steps: Vec<RecipeStep> = Vec::new();
            open_url_step_pair(&mut steps);
            steps.push(make_step("Take browser-specific screenshot", "Take a screenshot with browser name in filename",
                "screenshot", args_text("save_path", "{{browser}}_screenshot.png"), false, None, None));
            Recipe {
                name: text::owned("multi_browser_screenshot"),
                description: Some(text::owned("Take screenshots across multiple browsers for comparison")),
                version: text::owned("1.0.0"),
                author: None,
                created_at: Some(created_at),
                parameters: Some(params),
                browsers,
                steps,
            }
        },
        RecipeTemplate::ResponsiveTest { url, browsers, resolutions } => {
            let mut steps: Vec<RecipeStep> = Vec::new();
            open_url_step_pair(&mut steps);
            let mut k: usize = 0;
            while k < resolutions.len()
                invariant
                    k <= resolutions.len(),
                    resolutions.len() < usize::MAX / 4,
                    steps@.len() == 2 + 2 * k,
                    template_step(steps@[0], "Navigate to URL"@, "Navigate to the target URL"@, "navigate"@,
                        text_arg("url"@, "${url}"@), false, Some(2), Some(1000)),
                    template_step(steps@[1], "Wait for page load"@, "Wait for the page to fully load"@, "wait_for_condition"@,
                        ready_wait_args(10), false, None, None),
                    forall|j: int| 0 <= j < k ==>
                        resolution_steps(#[trigger] steps@[2 + 2 * j], steps@[3 + 2 * j], resolutions@[j].0, resolutions@[j].1),
                decreases resolutions.len() - k,
            {
                let (w, h) = resolutions[k];
                let ws = text::decimal_string(w as u64);
                let hs = text::decimal_string(h as u64);
                let res = text::concat3(ws.as_str(), "x", hs.as_str());
                let n1 = text::concat3("Set ", res.as_str(), " resolution");
                let d1 = text::concat3("Set browser to ", res.as_str(), " resolution");
                let n2 = text::concat2(res.as_str(), " screenshot");
                let d2 = text::concat3("Take screenshot at ", res.as_str(), " resolution");
                let p1 = text::concat3("{{browser}}_", ws.as_str(), "_");
                let p2 = text::concat3(p1.as_str(), hs.as_str(), ".png");
                let ghost before = steps@;
                steps.push(make_step(n1.as_str(), d1.as_str(), "resize_window", args_size(w, h), false, None, None));
                steps.push(make_step(n2.as_str(), d2.as_str(), "screenshot", args_text("save_path", p2.as_str()), false, None, None));
                proof {
                    assert forall|j: int| 0 <= j < k + 1 implies
                        resolution_steps(#[trigger] steps@[2 + 2 * j], steps@[3 + 2 * j], resolutions@[j].0, resolutions@[j].1) by {
                        if j < k {
                            assert(steps@[2 + 2 * j] == before[2 + 2 * j]);
                            assert(steps@[3 + 2 * j] == before[3 + 2 * j]);
                        } else {
                            assert(p2@ == "{{browser}}_"@ + text::decimal(w as nat) + "_"@ + text::decimal(h as nat) + ".png"@);
                        }
                    }
                }
                k = k + 1;
            }
            let mut params: Vec<(String, ParameterDefinition)> = Vec::new();
            params.push(make_param("url", "URL to test for responsive design", url));
            Recipe {
                name: text::owned("responsive_test"),
                description: Some(text::owned("Test responsive design across different browsers and screen sizes")),
                version: text::owned("1.0.0"),
                author: None,
                created_at: Some(created_at),
                parameters: Some(params),
                browsers,
                steps,
            }
        },
    }
}

/// The browsers a template's recipe names.
pub open spec fn template_browsers(t: RecipeTemplate) -> Seq<Seq<char>> {
    match t {
        RecipeTemplate::LoginAndScreenshot { browsers, .. } =>
            match browsers { Some(b) => b@.map_values(|s: String| s@), None => seq!["auto"@] },
        RecipeTemplate::MultiBrowserScreenshot { browsers, .. } => browsers@.map_values(|s: String| s@),
        RecipeTemplate::ResponsiveTest { browsers, .. } => browsers@.map_values(|s: String| s@),
    }
}

proof fn lemma_steps_ok(steps: Seq<RecipeStep>, i: int)
    requires
        0 <= i <= steps.len(),
        forall|j: int| i <= j < steps.len() ==> #[trigger] recipe::step_problem(j, steps[j]) is None,
    ensures
        recipe::steps_problem(steps, i) is None,
    decreases steps.len() - i,
{
    if i < steps.len() {
        lemma_steps_ok(steps, i + 1);
    }
}

/// A template step is in order.
proof fn lemma_template_step_ok(
    i: int,
    s: RecipeStep,
    name: Seq<char>,
    desc: Seq<char>,
    action: Seq<char>,
    entries: Map<Seq<char>, JsonEntry>,
    c: bool,
    rc: Option<u32>,
    rd: Option<u64>,
)
    requires
        template_step(s, name, desc, action, entries, c, rc, rd),
        (action == "navigate"@ && entries.dom().contains("url"@))
            || (action == "wait_for_condition"@ && entries.dom().contains("condition"@))
            || (action == "login_form"@ && entries.dom().contains("username"@) && entries.dom().contains("password"@))
            || action == "screenshot"@ || action == "resize_window"@,
    ensures
        recipe::step_problem(i, s) is None,
{
    reveal_strlit("navigate");
    reveal_strlit("wait_for_condition");
    reveal_strlit("login_form");
    reveal_strlit("screenshot");
    reveal_strlit("resize_window");
    reveal_strlit("click");
    reveal_strlit("wait_for_element");
    reveal_strlit("get_text");
    reveal_strlit("hover");
    reveal_strlit("scroll_to_element");
    reveal_strlit("send_keys");
    reveal_strlit("execute_script");
    reveal_strlit("get_attribute");
    reveal_strlit("get_property");
    reveal_strlit("fill_and_submit_form");
    assert("navigate"@ != "get_text"@) by { assert("navigate"@[0] != "get_text"@[0]); }
    assert("screenshot"@ != "login_form"@) by { assert("screenshot"@[0] != "login_form"@[0]); }
    assert("resize_window"@ != "get_attribute"@) by { assert("resize_window"@[0] != "get_attribute"@[0]); }
    assert("login_form"@ != "screenshot"@) by { assert("screenshot"@[0] != "login_form"@[0]); }
}

/// Template recipes have nothing wrong but, possibly, their browsers.
#[verifier::rlimit(40)]
#[verifier::spinoff_prover]
proof fn lemma_template_recipe_problem(t: RecipeTemplate, r: Recipe, c: Seq<char>)
    requires
        template_recipe(t, r, c),
    ensures
        recipe::recipe_problem(r) == recipe::browsers_problem(template_browsers(t), 0),
{
    reveal_strlit("login_and_screenshot");
    reveal_strlit("multi_browser_screenshot");
    reveal_strlit("responsive_test");
    let ready10 = ready_wait_args(10);
    assert(ready10.dom().contains("condition"@));
    assert(ready_wait_args(5).dom().contains("condition"@));
    assert(text_arg("url"@, "${url}"@).dom().contains("url"@));
    assert(text_arg("url"@, "${base_url}"@).dom().contains("url"@));
    assert(login_args().dom().contains("username"@));
    assert(login_args().dom().contains("password"@));
    assert forall|j: int| 0 <= j < r.steps@.len() implies #[trigger] recipe::step_problem(j, r.steps@[j]) is None by {
        match t {
            RecipeTemplate::LoginAndScreenshot { .. } => {
                if j == 0 {
                    lemma_template_step_ok(j, r.steps@[0], "Navigate to login page"@, "Navigate to the login page"@, "navigate"@,
                        text_arg("url"@, "${base_url}"@), false, Some(3), Some(1000));
                } else if j == 1 {
                    lemma_template_step_ok(j, r.steps@[1], "Wait for page to load"@, "Wait for the page to finish loading"@,
                        "wait_for_condition"@, ready_wait_args(10), false, None, None);
                } else if j == 2 {
                    lemma_template_step_ok(j, r.steps@[2], "Login with credentials"@, "Fill and submit the login form"@,
                        "login_form"@, login_args(), false, Some(2), Some(2000));
                } else if j == 3 {
                    lemma_template_step_ok(j, r.steps@[3], "Wait after login"@, "Wait for login to complete"@,
                        "wait_for_condition"@, ready_wait_args(5), true, None, None);
                } else {
                    lemma_template_step_ok(j, r.steps@[4], "Take screenshot"@, "Take a screenshot of the current page"@,
                        "screenshot"@, text_arg("save_path"@, "{{browser}}_login_screenshot.png"@), false, None, None);
                }
            },
            RecipeTemplate::MultiBrowserScreenshot { .. } => {
                if j == 0 {
                    lemma_template_step_ok(j, r.steps@[0], "Navigate to URL"@, "Navigate to the target URL"@, "navigate"@,
                        text_arg("url"@, "${url}"@), false, Some(2), Some(1000));
                } else if j == 1 {
                    lemma_template_step_ok(j, r.steps@[1], "Wait for page load"@, "Wait for the page to fully load"@,
                        "wait_for_condition"@, ready_wait_args(10), false, None, None);
                } else {
                    lemma_template_step_ok(j, r.steps@[2], "Take browser-specific screenshot"@,
                        "Take a screenshot with browser name in filename"@, "screenshot"@,
                        text_arg("save_path"@, "{{browser}}_screenshot.png"@), false, None, None);
                }
            },
            RecipeTemplate::ResponsiveTest { resolutions, .. } => {
                if j == 0 {
                    lemma_template_step_ok(j, r.steps@[0], "Navigate to URL"@, "Navigate to the target URL"@, "navigate"@,
                        text_arg("url"@, "${url}"@), false, Some(2), Some(1000));
                } else if j == 1 {
                    lemma_template_step_ok(j, r.steps@[1], "Wait for page load"@, "Wait for the page to fully load"@,
                        "wait_for_condition"@, ready_wait_args(10), false, None, None);
                } else {
                    let k = (j - 2) / 2;
                    let (w, h) = resolutions@[k];
                    let n = resolution_name(w, h);
                    assert(resolution_steps(r.steps@[2 + 2 * k], r.steps@[3 + 2 * k], w, h));
                    if j % 2 == 0 {
                        assert(j == 2 + 2 * k);
                        lemma_template_step_ok(j, r.steps@[j], "Set "@ + n + " resolution"@, "Set browser to "@ + n + " resolution"@,
                            "resize_window"@, size_args(w, h), false, None, None);
                    } else {
                        assert(j == 3 + 2 * k);
                        lemma_template_step_ok(j, r.steps@[j], n + " screenshot"@, "Take screenshot at "@ + n + " resolution"@,
                            "screenshot"@, text_arg("save_path"@, "{{browser}}_"@ + text::decimal(w as nat) + "_"@
                            + text::decimal(h as nat) + ".png"@), false, None, None);
                    }
                }
            },
        }
    }
    lemma_steps_ok(r.steps@, 0);
}

/// The current time as RFC 3339 text (`chrono::Utc::now().to_rfc3339()`);
/// it depends on the clock, so nothing is stated of it.
#[verifier::external_body]
fn now_rfc3339() -> String {
    chrono::Utc::now().to_rfc3339()
}

/// Builds the recipe of a template, stamped with the current time, and
/// checks it; a template recipe fails the check only through its browsers.
pub fn create_recipe_from_template(template: RecipeTemplate) -> (r: Result<Recipe, WebDriverError>)
    requires
        template matches RecipeTemplate::ResponsiveTest { resolutions, .. } ==> resolutions.len() < usize::MAX / 4,
    ensures
        match r {
            Ok(recipe) => (exists|c: Seq<char>| template_recipe(template, recipe, c)) && recipe::recipe_problem(recipe) is None
                && recipe::parameters_distinct(recipe),
            Err(e) => e matches WebDriverError::InvalidRecipe(m)
                && recipe::browsers_problem(template_browsers(template), 0) matches Some(p)
                && m@ == "Generated recipe validation failed: "@ + p,
        },
        r is Ok <==> recipe::browsers_problem(template_browsers(template), 0) is None,
        r is Ok <==> forall|j: int| 0 <= j < template_browsers(template).len()
            ==> recipe::recipe_browser_ok(#[trigger] template_browsers(template)[j]),
{
    proof { recipe::lemma_browsers_problem_none(template_browsers(template), 0); }
    let created = now_rfc3339();
    let recipe = recipe_from_template(template, created);
    proof { lemma_template_recipe_problem(template, recipe, created@); }
    match recipe.validate() {
        Ok(()) => Ok(recipe),
        Err(e) => {
            proof { reveal_strlit("Generated recipe validation failed: "); }
            Err(WebDriverError::InvalidRecipe(text::concat2("Generated recipe validation failed: ", e.as_str())))
        },
    }
}

/// The strings among the items of a JSON array, in order.
pub open spec fn text_items(items: Seq<Option<Seq<char>>>) -> Seq<Seq<char>>
    decreases items.len(),
{
    if items.len() == 0 {
        Seq::empty()
    } else {
        text_items(items.drop_last()) + match items.last() {
            Some(t) => seq![t],
            None => Seq::<Seq<char>>::empty(),
        }
    }
}

/// The browsers a template call names: the strings of its `browsers`
/// array, or `auto` alone where it names none.
pub open spec fn browsers_arg(args: Option<JsonObject>) -> Seq<Seq<char>> {
    let found = match args {
        Some(m) => {
            let e = json::json_entries(m);
            if e.dom().contains("browsers"@) && e["browsers"@] is List {
                text_items(e["browsers"@]->List_0)
            } else {
                Seq::empty()
            }
        },
        None => Seq::empty(),
    };
    if found.len() == 0 { seq!["auto"@] } else { found }
}

/// A string argument of a template call, with its default.
pub open spec fn text_or(args: Option<JsonObject>, key: Seq<char>, default: Seq<char>) -> Seq<char> {
    match actions::call_text_arg(args, key) {
        Some(t) => t,
        None => default,
    }
}

/// The screen sizes a responsive test checks when the call names none.
pub open spec fn default_resolutions() -> Seq<(u32, u32)> {
    seq![(1920u32, 1080u32), (768u32, 1024u32), (375u32, 667u32)]
}

/// Why a template call is refused: a missing `template` argument is an
/// invalid call; an unknown template fails the call.
#[derive(Debug)]
pub enum TemplateCallError {
    MissingTemplate,
    UnknownTemplate(String),
}

/// The template a call asks for.
///
/// `template` is required; `login_and_screenshot` reads `base_url`,
/// `username` and `password` (defaults `http://localhost:3000`, `user`,
/// `password`); the other two read `url` (default `https://example.com`);
/// all read the browsers; the responsive test takes the sizes read from
/// the call, or three common ones.
pub open spec fn template_call_ok(
    args: Option<JsonObject>,
    resolutions: Option<Seq<(u32, u32)>>,
    r: Result<RecipeTemplate, TemplateCallError>,
) -> bool {
    match actions::call_text_arg(args, "template"@) {
        None => r matches Err(TemplateCallError::MissingTemplate),
        Some(t) => if t == "login_and_screenshot"@ {
            r matches Ok(RecipeTemplate::LoginAndScreenshot { base_url, username, password, browsers })
                && base_url@ == text_or(args, "base_url"@, "http://localhost:3000"@)
                && username@ == text_or(args, "username"@, "user"@)
                && password@ == text_or(args, "password"@, "password"@)
                && (browsers matches Some(b) && views(b@) == browsers_arg(args))
        } else if t == "multi_browser_screenshot"@ {
            r matches Ok(RecipeTemplate::MultiBrowserScreenshot { url, browsers })
                && url@ == text_or(args, "url"@, "https://example.com"@)
                && views(browsers@) == browsers_arg(args)
        } else if t == "responsive_test"@ {
            r matches Ok(RecipeTemplate::ResponsiveTest { url, browsers, resolutions: sizes })
                && url@ == text_or(args, "url"@, "https://example.com"@)
                && views(browsers@) == browsers_arg(args)
                && sizes@ == match resolutions {
                    Some(v) => v,
                    None => default_resolutions(),
                }
        } else {
            r matches Err(TemplateCallError::UnknownTemplate(m)) && m@ == "Unknown template type: "@ + t
        },
    }
}


fn browsers_argument(args: &Option<JsonObject>) -> (r: Vec<String>)
    ensures
        views(r@) == browsers_arg(*args),
{
    let items = match args {
        Some(m) => json::json_get_list(m, "browsers"),
        None => None,
    };
    let mut found: Vec<String> = Vec::new();
    match items {
        Some(v) => {
            let ghost iv = json::item_views(v@);
            let mut i: usize = 0;
            while i < v.len()
                invariant
                    i <= v@.len(),
                    iv == json::item_views(v@),
                    views(found@) == text_items(iv.take(i as int)),
                decreases v@.len() - i,
            {
                assert(iv.take(i + 1).drop_last() == iv.take(i as int));
                match &v[i] {
                    Some(s) => {
                        found.push(s.clone());
                        assert(views(found@) =~= text_items(iv.take(i + 1)));
                    },
                    None => {
                        assert(text_items(iv.take(i + 1)) =~= text_items(iv.take(i as int)));
                    },
                }
                i = i + 1;
            }
            assert(iv.take(v@.len() as int) == iv);
        },
        None => {
            assert(views(found@) =~= Seq::<Seq<char>>::empty());
        },
    }
    if found.len() == 0 {
        let mut auto: Vec<String> = Vec::new();
        auto.push(text::owned("auto"));
        assert(views(auto@) =~= seq!["auto"@]);
        auto
    } else {
        found
    }
}

fn text_argument_or(args: &Option<JsonObject>, key: &str, default: &str) -> (r: String)
    ensures
        r@ == text_or(*args, key@, default@),
{
    match actions::call_text_argument(args, key) {
        Some(t) => t,
        None => text::owned(default),
    }
}

/// Reads the template a `create_recipe_template` call asks for; the
/// screen sizes of a responsive test are read by the caller.
pub fn template_from_arguments(args: &Option<JsonObject>, resolutions: Option<Vec<(u32, u32)>>) -> (r: Result<RecipeTemplate, TemplateCallError>)
    ensures
        template_call_ok(*args, match resolutions {
            Some(v) => Some(v@),
            None => None,
        }, r),
{
    let t = match actions::call_text_argument(args, "template") {
        Some(t) => t,
        None => { return Err(TemplateCallError::MissingTemplate); },
    };
    if text::str_equal(t.as_str(), "login_and_screenshot") {
        let base_url = text_argument_or(args, "base_url", "http://localhost:3000");
        let username = text_argument_or(args, "username", "user");
        let password = text_argument_or(args, "password", "password");
        let browsers = Some(browsers_argument(args));
        Ok(RecipeTemplate::LoginAndScreenshot { base_url, username, password, browsers })
    } else if text::str_equal(t.as_str(), "multi_browser_screenshot") {
        let url = text_argument_or(args, "url", "https://example.com");
        let browsers = browsers_argument(args);
        Ok(RecipeTemplate::MultiBrowserScreenshot { url, browsers })
    } else if text::str_equal(t.as_str(), "responsive_test") {
        let url = text_argument_or(args, "url", "https://example.com");
        let browsers = browsers_argument(args);
        let sizes = match resolutions {
            Some(v) => v,
            None => {
                let mut d: Vec<(u32, u32)> = Vec::new();
                d.push((1920, 1080));
                d.push((768, 1024));
                d.push((375, 667));
                assert(d@ =~= default_resolutions());
                d
            },
        };
        Ok(RecipeTemplate::ResponsiveTest { url, browsers, resolutions: sizes })
    } else {
        Err(TemplateCallError::UnknownTemplate(text::concat2("Unknown template type: ", t.as_str())))
    }
}

/// A path with one more component: a `/` is put between them unless the
/// base already ends with one.
pub open spec fn joined_path(base: Seq<char>, name: Seq<char>) -> Seq<char> {
    if base.len() > 0 && base.last() == '/' {
        base + name
    } else {
        base + "/"@ + name
    }
}

/// Appends a path component.
pub fn join_path(base: &str, name: &str) -> (r: String)
    ensures
        r@ == joined_path(base@, name@),
{
    proof {
        reveal_strlit("/");
        if base@.len() > 0 && base@.last() == '/' {
            assert(base@.subrange(base@.len() - 1, base@.len() as int) =~= "/"@);
        }
    }
    if text::ends_with(base, "/") {
        proof { assert(base@.subrange(base@.len() - 1, base@.len() as int)[0] == base@.last()); }
        text::concat2(base, name)
    } else {
        text::concat3(base, "/", name)
    }
}

/// Where recipes are stored, as files named after them.
#[derive(Debug, Clone)]
pub struct RecipeManager {
    recipes_dir: String,
}

/// Whether a name comes before another, or equals it, comparing
/// characters in order as `str` ordering does.
pub open spec fn name_le(a: Seq<char>, b: Seq<char>) -> bool
    decreases a.len(),
{
    if a.len() == 0 {
        true
    } else if b.len() == 0 {
        false
    } else if (a[0] as u32) < (b[0] as u32) {
        true
    } else if (a[0] as u32) > (b[0] as u32) {
        false
    } else {
        name_le(a.drop_first(), b.drop_first())
    }
}

/// The order of names is total.
pub proof fn lemma_name_le_total(a: Seq<char>, b: Seq<char>)
    ensures
        name_le(a, b) || name_le(b, a),
    decreases a.len(),
{
    if a.len() > 0 && b.len() > 0 && (a[0] as u32) == (b[0] as u32) {
        lemma_name_le_total(a.drop_first(), b.drop_first());
    }
}

/// The order of names is transitive.
pub proof fn lemma_name_le_transitive(a: Seq<char>, b: Seq<char>, c: Seq<char>)
    requires
        name_le(a, b),
        name_le(b, c),
    ensures
        name_le(a, c),
    decreases a.len(),
{
    if a.len() > 0 && b.len() > 0 && c.len() > 0 && (a[0] as u32) == (b[0] as u32) && (b[0] as u32) == (c[0] as u32) {
        lemma_name_le_transitive(a.drop_first(), b.drop_first(), c.drop_first());
    }
}

/// Whether listed recipes are in the order of their names.
pub open spec fn sorted_by_name(s: Seq<RecipeInfo>) -> bool {
    forall|i: int, j: int| 0 <= i < j < s.len() ==> name_le(#[trigger] s[i].name@, #[trigger] s[j].name@)
}

fn name_le_exec(a: &str, b: &str) -> (r: bool)
    ensures
        r == name_le(a@, b@),
{
    let va = text::chars_of(a);
    let vb = text::chars_of(b);
    let mut i: usize = 0;
    assert(va@.subrange(0, va@.len() as int) == va@);
    assert(vb@.subrange(0, vb@.len() as int) == vb@);
    while i < va.len()
        invariant
            i <= va@.len(),
            va@ == a@,
            vb@ == b@,
            i <= vb@.len(),
            name_le(a@, b@) == name_le(va@.subrange(i as int, va@.len() as int), vb@.subrange(i as int, vb@.len() as int)),
        decreases va@.len() - i,
    {
        let ghost sa = va@.subrange(i as int, va@.len() as int);
        let ghost sb = vb@.subrange(i as int, vb@.len() as int);
        if i == vb.len() {
            assert(sb.len() == 0);
            return false;
        }
        assert(sa[0] == va@[i as int] && sb[0] == vb@[i as int]);
        if (va[i] as u32) < (vb[i] as u32) {
            return true;
        }
        if (va[i] as u32) > (vb[i] as u32) {
            return false;
        }
        assert(sa.drop_first() == va@.subrange(i + 1, va@.len() as int));
        assert(sb.drop_first() == vb@.subrange(i + 1, vb@.len() as int));
        i = i + 1;
    }
    true
}

/// Putting a recipe before the first one whose name comes strictly after
/// its own keeps a list in order.
proof fn lemma_insert_sorted(before: Seq<RecipeInfo>, p: int, x: RecipeInfo)
    requires
        sorted_by_name(before),
        0 <= p <= before.len(),
        forall|k: int| 0 <= k < p ==> name_le(#[trigger] before[k].name@, x.name@),
        forall|k: int| p <= k < before.len() ==> !name_le(#[trigger] before[k].name@, x.name@),
    ensures
        sorted_by_name(before.insert(p, x)),
{
    let r = before.insert(p, x);
    assert forall|a: int, b: int| 0 <= a < b < r.len() implies name_le(#[trigger] r[a].name@, #[trigger] r[b].name@) by {
        if a < p && b == p {
            assert(r[a] == before[a]);
        } else if a == p {
            assert(r[b] == before[b - 1]);
            lemma_name_le_total(x.name@, before[b - 1].name@);
        } else {
            let a0 = if a < p { a } else { a - 1 };
            let b0 = if b < p { b } else { b - 1 };
            assert(r[a] == before[a0]);
            assert(r[b] == before[b0]);
        }
    }
}

/// Orders listed recipes by name; recipes of equal names keep their
/// order.
pub fn sort_by_name(v: Vec<RecipeInfo>) -> (r: Vec<RecipeInfo>)
    ensures
        sorted_by_name(r@),
        r@.to_multiset() == v@.to_multiset(),
{
    broadcast use vstd::seq_lib::to_multiset_insert, vstd::seq_lib::to_multiset_remove,
        vstd::seq_lib::to_multiset_contains, vstd::seq_lib::to_multiset_len;
    broadcast use vstd::multiset::group_multiset_axioms;
    let ghost orig = v@;
    let mut rest = v;
    let mut r: Vec<RecipeInfo> = Vec::new();
    assert(r@.to_multiset().len() == 0);
    assert(r@.to_multiset() =~= vstd::multiset::Multiset::<RecipeInfo>::empty());
    assert(r@.to_multiset().add(rest@.to_multiset()) =~= orig.to_multiset());
    while rest.len() > 0
        invariant
            sorted_by_name(r@),
            r@.to_multiset().add(rest@.to_multiset()) == orig.to_multiset(),
        decreases rest@.len(),
    {
        let ghost rest0 = rest@;
        let item = rest.remove(0);
        assert(rest0.contains(item)) by { assert(rest0[0] == item); }
        proof { vstd::seq_lib::to_multiset_contains(rest0, item); }
        assert(rest0.to_multiset().count(item) > 0);
        assert(rest@ == rest0.remove(0));
        // The first recipe whose name comes strictly after the new one.
        let mut p: usize = 0;
        while p < r.len() && name_le_exec(r[p].name.as_str(), item.name.as_str())
            invariant
                p <= r@.len(),
                sorted_by_name(r@),
                forall|k: int| 0 <= k < p ==> name_le(#[trigger] r@[k].name@, item.name@),
            decreases r@.len() - p,
        {
            p = p + 1;
        }
        proof {
            if p < r@.len() {
                assert(!name_le(r@[p as int].name@, item.name@));
                assert forall|k: int| p <= k < r@.len() implies !name_le(#[trigger] r@[k].name@, item.name@) by {
                    if k > p && name_le(r@[k].name@, item.name@) {
                        lemma_name_le_transitive(r@[p as int].name@, r@[k].name@, item.name@);
                    }
                }
            }
        }
        let ghost before = r@;
        let ghost x = item;
        r.insert(p, item);
        proof {
            lemma_insert_sorted(before, p as int, x);
            assert(r@ == before.insert(p as int, x));
            vstd::seq_lib::to_multiset_insert(before, p as int, x);
            assert(r@.to_multiset() == before.to_multiset().insert(x));
            vstd::seq_lib::to_multiset_remove(rest0, 0);
            assert(rest0[0] == x);
            assert(rest@.to_multiset() == rest0.to_multiset().remove(x));
            assert(r@.to_multiset().add(rest@.to_multiset()) =~= before.to_multiset().add(rest0.to_multiset()));
        }
    }
    assert(rest@.to_multiset().len() == 0);
    assert(rest@.to_multiset() =~= vstd::multiset::Multiset::<RecipeInfo>::empty());
    assert(r@.to_multiset().add(rest@.to_multiset()) =~= r@.to_multiset());
    r
}

impl RecipeManager {
    /// The directory recipes are stored in.
    pub closed spec fn dir(&self) -> Seq<char> {
        self.recipes_dir@
    }

    /// A manager of the given directory, else of `recipes` under the
    /// working directory (`.` where that cannot be read).
    pub fn new(recipes_dir: Option<String>, current_dir: Option<String>) -> (r: RecipeManager)
        ensures
            r.dir() == match recipes_dir {
                Some(d) => d@,
                None => joined_path(match current_dir {
                    Some(c) => c@,
                    None => "."@,
                }, "recipes"@),
            },
    {
        match recipes_dir {
            Some(d) => RecipeManager { recipes_dir: d },
            None => {
                let base = match current_dir {
                    Some(c) => c,
                    None => text::owned("."),
                };
                RecipeManager { recipes_dir: join_path(base.as_str(), "recipes") }
            },
        }
    }

    /// The directory recipes are stored in.
    pub fn recipes_dir(&self) -> (r: String)
        ensures
            r@ == self.dir(),
    {
        self.recipes_dir.clone()
    }

    /// The file a recipe of the given name is stored in.
    pub fn recipe_path(&self, name: &str) -> (r: String)
        ensures
            r@ == joined_path(self.dir(), sanitized(name@) + ".json"@),
    {
        let f = recipe_file_name(name);
        join_path(self.recipes_dir.as_str(), f.as_str())
    }
}

/// The error for a recipe that is not stored.
pub fn recipe_not_found(name: &str) -> (r: WebDriverError)
    ensures
        r matches WebDriverError::NotFound(m) && m@ == "Recipe '"@ + name@ + "' not found"@,
{
    WebDriverError::NotFound(text::concat3("Recipe '", name, "' not found"))
}

/// Checks a recipe read from a file: text that does not parse as a recipe
/// and a recipe that does not validate are refused.
pub fn checked_recipe(parsed: Result<Recipe, String>) -> (r: Result<Recipe, WebDriverError>)
    ensures
        match parsed {
            Err(e) => r matches Err(WebDriverError::Serialization(m)) && m@ == "Failed to parse recipe JSON: "@ + e@,
            Ok(rec) => match recipe::recipe_problem(rec) {
                Some(p) => r matches Err(WebDriverError::InvalidRecipe(m)) && m@ == "Recipe validation failed: "@ + p,
                None => r matches Ok(x) && x == rec,
            },
        },
{
    match parsed {
        Err(e) => Err(WebDriverError::Serialization(text::concat2("Failed to parse recipe JSON: ", e.as_str()))),
        Ok(rec) => match rec.validate() {
            Ok(()) => Ok(rec),
            Err(p) => Err(WebDriverError::InvalidRecipe(text::concat2("Recipe validation failed: ", p.as_str()))),
        },
    }
}

/// One line of a recipe listing.
pub open spec fn listing_line(i: RecipeInfo) -> Seq<char> {
    "  "@ + i.name@ + " (v"@ + i.version@ + ")"@ + match i.description {
        Some(d) => " - "@ + d@,
        None => Seq::empty(),
    } + " - "@ + text::decimal(i.step_count as nat) + " steps\n"@
}

/// The lines of a recipe listing.
pub open spec fn listing_lines(s: Seq<RecipeInfo>) -> Seq<char>
    decreases s.len(),
{
    if s.len() == 0 { Seq::empty() } else { listing_lines(s.drop_last()) + listing_line(s.last()) }
}

/// The text of a recipe listing.
pub open spec fn listing_text(s: Seq<RecipeInfo>) -> Seq<char> {
    if s.len() == 0 { "No recipes found"@ } else { "Available recipes:\n"@ + listing_lines(s) }
}

/// Words a recipe listing.
pub fn recipe_listing(infos: &Vec<RecipeInfo>) -> (r: String)
    ensures
        r@ == listing_text(infos@),
{
    if infos.len() == 0 {
        return text::owned("No recipes found");
    }
    let mut out = text::owned("Available recipes:\n");
    let mut i: usize = 0;
    while i < infos.len()
        invariant
            i <= infos@.len(),
            out@ == "Available recipes:\n"@ + listing_lines(infos@.take(i as int)),
        decreases infos@.len() - i,
    {
        let info = &infos[i];
        let n = text::decimal_string(info.step_count as u64);
        let head = text::concat3("  ", info.name.as_str(), " (v");
        let mut line = text::concat3(head.as_str(), info.version.as_str(), ")");
        match &info.description {
            Some(d) => { line.append(" - "); line.append(d.as_str()); },
            None => {},
        }
        line.append(" - ");
        line.append(n.as_str());
        line.append(" steps\n");
        assert(line@ == listing_line(infos@[i as int]));
        out.append(line.as_str());
        assert(infos@.take(i + 1).drop_last() == infos@.take(i as int));
        i = i + 1;
    }
    assert(infos@.take(infos@.len() as int) == infos@);
    out
}

/// Whether a file name has the extension `json`: the part after its last
/// dot, where that dot is not the name's first character.
pub open spec fn has_json_extension_spec(file_name: Seq<char>) -> bool {
    ".json"@.is_suffix_of(file_name) && file_name.len() > 5
}

/// Decides whether a directory entry is a recipe file.
pub fn has_json_extension(file_name: &str) -> (r: bool)
    ensures
        r == has_json_extension_spec(file_name@),
{
    proof { reveal_strlit(".json"); }
    text::ends_with(file_name, ".json") && text::chars_of(file_name).len() > 5
}

/// A recipe's file name never leaves the recipe directory: its stem has
/// as many characters as the name, each alphanumeric, `-` or `_` (so no
/// path separator and no dot), and the name ends in `.json`.
pub proof fn lemma_file_name_safe(name: Seq<char>)
    ensures
        sanitized(name).len() == name.len(),
        forall|i: int| 0 <= i < name.len() ==> {
            let c = #[trigger] sanitized(name)[i];
            text::alphanumeric(c) || c == '-' || c == '_'
        },
        has_json_extension_spec(sanitized(name) + ".json"@) <== name.len() > 0,
{
    reveal_strlit(".json");
    let f = sanitized(name) + ".json"@;
    assert(f.subrange(f.len() - 5, f.len() as int) =~= ".json"@);
}

/// A safe name character is no path separator, dot or drive colon, so a
/// stored recipe's file stays directly in the recipe directory.
pub proof fn lemma_safe_char_not_path(c: char)
    requires
        safe_name_char(c),
    ensures
        c != '/' && c != '\\' && c != '.' && c != ':',
{
}

/// Sanitising a name twice gives what sanitising it once gives: the
/// underscore a character is replaced with is itself kept.
pub proof fn lemma_sanitize_idempotent(name: Seq<char>)
    ensures
        sanitized(sanitized(name)) == sanitized(name),
{
    assert(sanitized(sanitized(name)) =~= sanitized(name));
}

} // verus!
