//! Automation recipes: their structure, the rules a runnable recipe obeys,
//! and the substitution of `${name}` parameters into step arguments.

use vstd::prelude::*;
use crate::text;
use crate::json;
use crate::json::JsonObject;

verus! {

/// A parameter a recipe declares.
#[derive(Debug, Clone)]
pub struct ParameterDefinition {
    pub description: Option<String>,
    pub default_value: Option<String>,
    pub required: bool,
}

/// One action of a recipe.
#[derive(Debug, Clone)]
pub struct RecipeStep {
    pub name: Option<String>,
    pub description: Option<String>,
    pub action: String,
    pub arguments: JsonObject,
    pub continue_on_error: Option<bool>,
    pub retry_count: Option<u32>,
    pub retry_delay_ms: Option<u64>,
    pub condition: Option<String>,
    pub session_id: Option<String>,
    pub browser: Option<String>,
}

/// A named sequence of browser actions.
#[derive(Debug, Clone)]
pub struct Recipe {
    pub name: String,
    pub description: Option<String>,
    pub version: String,
    pub author: Option<String>,
    pub created_at: Option<String>,
    /// Declared parameters, by name, each name once (`parameters_distinct`:
    /// templates build them so, and a recipe read from JSON has them from
    /// an object's keys).
    pub parameters: Option<Vec<(String, ParameterDefinition)>>,
    /// Browsers the recipe runs in (`auto`, `chrome`, `firefox`, `edge`).
    pub browsers: Vec<String>,
    pub steps: Vec<RecipeStep>,
}

/// Whether a recipe declares each parameter name at most once, as a map
/// of parameters by name does.
pub open spec fn parameters_distinct(r: Recipe) -> bool {
    match r.parameters {
        Some(p) => forall|i: int, j: int| 0 <= i < j < p@.len() ==> (#[trigger] p@[i]).0@ != (#[trigger] p@[j]).0@,
        None => true,
    }
}

/// The browsers of a recipe that names none: `auto`.
pub fn default_browsers() -> (r: Vec<String>)
    ensures
        r@.map_values(|s: String| s@) == seq!["auto"@],
{
    let mut v: Vec<String> = Vec::new();
    v.push(text::owned("auto"));
    assert(v@.map_values(|s: String| s@) =~= seq!["auto"@]);
    v
}

/// Whether a recipe may name this browser.
pub open spec fn recipe_browser_ok(b: Seq<char>) -> bool {
    b == "auto"@ || b == "chrome"@ || b == "firefox"@ || b == "edge"@
}

/// Whether a step may name this browser.
pub open spec fn step_browser_ok(b: Seq<char>) -> bool {
    b == "chrome"@ || b == "firefox"@ || b == "edge"@
}

/// Whether a step's arguments hold a key.
pub open spec fn has_arg(step: RecipeStep, key: Seq<char>) -> bool {
    json::json_entries(step.arguments).dom().contains(key)
}

/// The actions that need a `selector` argument and nothing else.
pub open spec fn selector_action(a: Seq<char>) -> bool {
    a == "click"@ || a == "wait_for_element"@ || a == "get_text"@ || a == "hover"@ || a == "scroll_to_element"@
}

/// `"Step <n> (<action>) missing required '<key>' argument"`.
pub open spec fn missing_arg_message(n: Seq<char>, action: Seq<char>, key: Seq<char>) -> Seq<char> {
    "Step "@ + n + " ("@ + action + ") missing required '"@ + key + "' argument"@
}

/// What is wrong with the step at index `i` (numbered `i + 1` in messages), if anything.
pub open spec fn step_problem(i: int, step: RecipeStep) -> Option<Seq<char>> {
    let n = text::decimal((i + 1) as nat);
    let a = step.action@;
    if a.len() == 0 {
        Some("Step "@ + n + " has empty action"@)
    } else if step.browser is Some && !step_browser_ok(step.browser->0@) {
        Some("Step "@ + n + " has unsupported browser: "@ + step.browser->0@)
    } else if a == "navigate"@ {
        if !has_arg(step, "url"@) { Some(missing_arg_message(n, a, "url"@)) } else { None }
    } else if selector_action(a) {
        if !has_arg(step, "selector"@) { Some(missing_arg_message(n, a, "selector"@)) } else { None }
    } else if a == "send_keys"@ {
        if !has_arg(step, "selector"@) {
            Some(missing_arg_message(n, a, "selector"@))
        } else if !has_arg(step, "text"@) {
            Some(missing_arg_message(n, a, "text"@))
        } else {
            None
        }
    } else if a == "execute_script"@ {
        if !has_arg(step, "script"@) { Some(missing_arg_message(n, a, "script"@)) } else { None }
    } else if a == "wait_for_condition"@ {
        if !has_arg(step, "condition"@) { Some(missing_arg_message(n, a, "condition"@)) } else { None }
    } else if a == "get_attribute"@ {
        if !has_arg(step, "attribute"@) { Some(missing_arg_message(n, a, "attribute"@)) } else { None }
    } else if a == "get_property"@ {
        if !has_arg(step, "property"@) { Some(missing_arg_message(n, a, "property"@)) } else { None }
    } else if a == "fill_and_submit_form"@ {
        if !has_arg(step, "fields"@) || !has_arg(step, "submit_selector"@) {
            Some("Step "@ + n + " (fill_and_submit_form) missing required arguments"@)
        } else {
            None
        }
    } else if a == "login_form"@ {
        if !has_arg(step, "username"@) || !has_arg(step, "password"@) {
            Some("Step "@ + n + " (login_form) missing required 'username' or 'password' argument"@)
        } else {
            None
        }
    } else {
        None
    }
}

/// The first problem among the steps from index `i` on.
pub open spec fn steps_problem(steps: Seq<RecipeStep>, i: int) -> Option<Seq<char>>
    decreases steps.len() - i,
{
    if i < 0 || i >= steps.len() {
        None
    } else {
        match step_problem(i, steps[i]) {
            Some(e) => Some(e),
            None => steps_problem(steps, i + 1),
        }
    }
}

/// The first browser, from index `i` on, that a recipe may not name.
pub open spec fn browsers_problem(bs: Seq<Seq<char>>, i: int) -> Option<Seq<char>>
    decreases bs.len() - i,
{
    if i < 0 || i >= bs.len() {
        None
    } else if !recipe_browser_ok(bs[i]) {
        Some("Unsupported browser: "@ + bs[i])
    } else {
        browsers_problem(bs, i + 1)
    }
}

/// A browser list, from index `i` on, has no problem exactly when every
/// browser in it may be named in a recipe.
pub proof fn lemma_browsers_problem_none(bs: Seq<Seq<char>>, i: int)
    requires
        0 <= i <= bs.len(),
    ensures
        browsers_problem(bs, i) is None <==> forall|j: int| i <= j < bs.len() ==> recipe_browser_ok(#[trigger] bs[j]),
    decreases bs.len() - i,
{
    if i < bs.len() {
        lemma_browsers_problem_none(bs, i + 1);
    }
}

/// What a step must have to pass the check: an action, a supported
/// browser if it names one, and the arguments its action reads: `url` to
/// navigate; `selector` to click, wait for, read the text of, hover over or
/// scroll to an element; `selector` and `text` to send keys; `script`,
/// `condition`, `attribute` or `property` for the actions that use one;
/// `fields` and `submit_selector` to fill a form; `username` and
/// `password` to log in.
pub open spec fn step_requirements_met(s: RecipeStep) -> bool {
    let a = s.action@;
    &&& a.len() > 0
    &&& (s.browser is Some ==> step_browser_ok(s.browser->0@))
    &&& (a == "navigate"@ ==> has_arg(s, "url"@))
    &&& (a == "click"@ || a == "wait_for_element"@ || a == "get_text"@ || a == "hover"@
        || a == "scroll_to_element"@ ==> has_arg(s, "selector"@))
    &&& (a == "send_keys"@ ==> has_arg(s, "selector"@) && has_arg(s, "text"@))
    &&& (a == "execute_script"@ ==> has_arg(s, "script"@))
    &&& (a == "wait_for_condition"@ ==> has_arg(s, "condition"@))
    &&& (a == "get_attribute"@ ==> has_arg(s, "attribute"@))
    &&& (a == "get_property"@ ==> has_arg(s, "property"@))
    &&& (a == "fill_and_submit_form"@ ==> has_arg(s, "fields"@) && has_arg(s, "submit_selector"@))
    &&& (a == "login_form"@ ==> has_arg(s, "username"@) && has_arg(s, "password"@))
}

/// A step has no problem exactly when it meets the requirements of its
/// action, whatever its position.
pub proof fn lemma_step_problem_requirements(i: int, s: RecipeStep)
    ensures
        step_problem(i, s) is None <==> step_requirements_met(s),
{
    reveal_strlit("navigate");
    reveal_strlit("click");
    reveal_strlit("wait_for_element");
    reveal_strlit("get_text");
    reveal_strlit("hover");
    reveal_strlit("scroll_to_element");
    reveal_strlit("send_keys");
    reveal_strlit("execute_script");
    reveal_strlit("wait_for_condition");
    reveal_strlit("get_attribute");
    reveal_strlit("get_property");
    reveal_strlit("fill_and_submit_form");
    reveal_strlit("login_form");
    assert("navigate"@ != "get_text"@) by { assert("navigate"@[0] != "get_text"@[0]); }
    assert("click"@ != "hover"@) by { assert("click"@[0] != "hover"@[0]); }
}

/// The steps from index `i` on have no problem exactly when each of them
/// meets the requirements of its action.
pub proof fn lemma_steps_problem_requirements(steps: Seq<RecipeStep>, i: int)
    requires
        0 <= i <= steps.len(),
    ensures
        steps_problem(steps, i) is None
            <==> forall|j: int| i <= j < steps.len() ==> step_requirements_met(#[trigger] steps[j]),
    decreases steps.len() - i,
{
    if i < steps.len() {
        lemma_step_problem_requirements(i, steps[i]);
        lemma_steps_problem_requirements(steps, i + 1);
    }
}

/// A recipe passes the check exactly when it has a name, at least one
/// step, only browsers a recipe may name, and every step meets the
/// requirements of its action; so a valid recipe never holds, say, a
/// `send_keys` step without the text to type.
pub proof fn lemma_recipe_problem_requirements(r: Recipe)
    ensures
        recipe_problem(r) is None <==> (r.name@.len() > 0 && r.steps@.len() > 0
            && (forall|j: int| 0 <= j < r.browsers@.len() ==> recipe_browser_ok(#[trigger] r.browsers@[j]@))
            && (forall|j: int| 0 <= j < r.steps@.len() ==> step_requirements_met(#[trigger] r.steps@[j]))),
{
    let bs = r.browsers@.map_values(|s: String| s@);
    lemma_browsers_problem_none(bs, 0);
    lemma_steps_problem_requirements(r.steps@, 0);
    assert((forall|j: int| 0 <= j < r.browsers@.len() ==> recipe_browser_ok(#[trigger] r.browsers@[j]@))
        <==> (forall|j: int| 0 <= j < bs.len() ==> recipe_browser_ok(#[trigger] bs[j]))) by {
        if forall|j: int| 0 <= j < bs.len() ==> recipe_browser_ok(#[trigger] bs[j]) {
            assert forall|j: int| 0 <= j < r.browsers@.len() implies recipe_browser_ok(#[trigger] r.browsers@[j]@) by {
                assert(bs[j] == r.browsers@[j]@);
            }
        }
    }
}

/// What is wrong with a recipe, if anything: an empty name, no steps, an
/// unsupported browser, or the first faulty step.
pub open spec fn recipe_problem(r: Recipe) -> Option<Seq<char>> {
    if r.name@.len() == 0 {
        Some("Recipe name cannot be empty"@)
    } else if r.steps@.len() == 0 {
        Some("Recipe must have at least one step"@)
    } else {
        match browsers_problem(r.browsers@.map_values(|s: String| s@), 0) {
            Some(e) => Some(e),
            None => steps_problem(r.steps@, 0),
        }
    }
}

/// Builds `"Step <n> (<action>) missing required '<key>' argument"`.
fn missing_arg(n: &str, action: &str, key: &str) -> (r: String)
    ensures
        r@ == missing_arg_message(n@, action@, key@),
{
    let a = text::concat3("Step ", n, " (");
    let b = text::concat3(a.as_str(), action, ") missing required '");
    text::concat3(b.as_str(), key, "' argument")
}

/// Checks one step; `index` is its position.
pub fn check_step(index: usize, step: &RecipeStep) -> (r: Option<String>)
    requires
        index < usize::MAX,
    ensures
        match step_problem(index as int, *step) {
            Some(e) => r matches Some(m) && m@ == e,
            None => r is None,
        },
        r is None <==> step_requirements_met(*step),
{
    proof { lemma_step_problem_requirements(index as int, *step); }
    let n = text::decimal_string((index + 1) as u64);
    let ns = n.as_str();
    let a = step.action.as_str();
    let args = &step.arguments;
    if a.unicode_len() == 0 {
        return Some(text::concat3("Step ", ns, " has empty action"));
    }
    match &step.browser {
        Some(b) => {
            let bs = b.as_str();
            if !(text::str_equal(bs, "chrome") || text::str_equal(bs, "firefox") || text::str_equal(bs, "edge")) {
                let m = text::concat3("Step ", ns, " has unsupported browser: ");
                return Some(text::concat2(m.as_str(), bs));
            }
        },
        None => {},
    }
    if text::str_equal(a, "navigate") {
        if !json::json_contains_key(args, "url") { return Some(missing_arg(ns, a, "url")); }
        None
    } else if text::str_equal(a, "click") || text::str_equal(a, "wait_for_element") || text::str_equal(a, "get_text")
        || text::str_equal(a, "hover") || text::str_equal(a, "scroll_to_element") {
        if !json::json_contains_key(args, "selector") { return Some(missing_arg(ns, a, "selector")); }
        None
    } else if text::str_equal(a, "send_keys") {
        if !json::json_contains_key(args, "selector") { return Some(missing_arg(ns, a, "selector")); }
        if !json::json_contains_key(args, "text") { return Some(missing_arg(ns, a, "text")); }
        None
    } else if text::str_equal(a, "execute_script") {
        if !json::json_contains_key(args, "script") { return Some(missing_arg(ns, a, "script")); }
        None
    } else if text::str_equal(a, "wait_for_condition") {
        if !json::json_contains_key(args, "condition") { return Some(missing_arg(ns, a, "condition")); }
        None
    } else if text::str_equal(a, "get_attribute") {
        if !json::json_contains_key(args, "attribute") { return Some(missing_arg(ns, a, "attribute")); }
        None
    } else if text::str_equal(a, "get_property") {
        if !json::json_contains_key(args, "property") { return Some(missing_arg(ns, a, "property")); }
        None
    } else if text::str_equal(a, "fill_and_submit_form") {
        if !json::json_contains_key(args, "fields") || !json::json_contains_key(args, "submit_selector") {
            return Some(text::concat3("Step ", ns, " (fill_and_submit_form) missing required arguments"));
        }
        None
    } else if text::str_equal(a, "login_form") {
        if !json::json_contains_key(args, "username") || !json::json_contains_key(args, "password") {
            return Some(text::concat3("Step ", ns, " (login_form) missing required 'username' or 'password' argument"));
        }
        None
    } else {
        None
    }
}

impl Recipe {
    /// Checks that the recipe has a name and at least one step, that it
    /// names only supported browsers, and that every step has an action, a
    /// supported browser if any, and the arguments its action needs.
    #[verifier::loop_isolation(false)]
    pub fn validate(&self) -> (r: Result<(), String>)
        ensures
            match recipe_problem(*self) {
                Some(e) => r matches Err(m) && m@ == e,
                None => r is Ok,
            },
            r is Ok ==> forall|j: int| 0 <= j < self.steps@.len() ==> step_requirements_met(#[trigger] self.steps@[j]),
    {
        proof { lemma_recipe_problem_requirements(*self); }
        if self.name.as_str().unicode_len() == 0 {
            return Err(text::owned("Recipe name cannot be empty"));
        }
        if self.steps.len() == 0 {
            return Err(text::owned("Recipe must have at least one step"));
        }
        let ghost bs = self.browsers@.map_values(|s: String| s@);
        let mut i: usize = 0;
        while i < self.browsers.len()
            invariant
                i <= self.browsers.len(),
                bs == self.browsers@.map_values(|s: String| s@),
                browsers_problem(bs, 0) == browsers_problem(bs, i as int),
            decreases self.browsers.len() - i,
        {
            let b = self.browsers[i].as_str();
            if !(text::str_equal(b, "auto") || text::str_equal(b, "chrome") || text::str_equal(b, "firefox")
                || text::str_equal(b, "edge")) {
                assert(bs[i as int] == b@);
                return Err(text::concat2("Unsupported browser: ", b));
            }
            i = i + 1;
        }
        let mut k: usize = 0;
        while k < self.steps.len()
            invariant
                k <= self.steps.len(),
                browsers_problem(bs, 0) is None,
                bs == self.browsers@.map_values(|s: String| s@),
                steps_problem(self.steps@, 0) == steps_problem(self.steps@, k as int),
            decreases self.steps.len() - k,
        {
            match check_step(k, &self.steps[k]) {
                Some(m) => { return Err(m); },
                None => {},
            }
            k = k + 1;
        }
        Ok(())
    }
}

/// Parameters substituted, one after the other in the given order: each
/// `${key}` is replaced by its value.
pub open spec fn substituted(t: Seq<char>, params: Seq<(Seq<char>, Seq<char>)>) -> Seq<char>
    decreases params.len(),
{
    if params.len() == 0 {
        t
    } else {
        text::replace_all(substituted(t, params.drop_last()), placeholder(params.last().0), params.last().1)
    }
}

/// The placeholder of a parameter: `${key}`.
pub open spec fn placeholder(key: Seq<char>) -> Seq<char> {
    "${"@ + key + "}"@
}

/// The views of a parameter list.
pub open spec fn params_view(p: Seq<(String, String)>) -> Seq<(Seq<char>, Seq<char>)> {
    p.map_values(|kv: (String, String)| (kv.0@, kv.1@))
}

/// Replaces every `${key}` in `t` by the value of each parameter, taking
/// the parameters in the order given.
pub fn substitute_variables(t: &str, parameters: &Vec<(String, String)>) -> (r: String)
    ensures
        r@ == substituted(t@, params_view(parameters@)),
{
    let mut result = text::owned(t);
    let ghost ps = params_view(parameters@);
    let mut i: usize = 0;
    while i < parameters.len()
        invariant
            i <= parameters.len(),
            ps == params_view(parameters@),
            result@ == substituted(t@, ps.take(i as int)),
        decreases parameters.len() - i,
    {
        let (key, value) = &parameters[i];
        let placeholder = text::concat3("${", key.as_str(), "}");
        proof {
            assert(ps.take(i + 1).drop_last() == ps.take(i as int));
            assert(ps.take(i + 1).last() == (key@, value@));
            reveal_strlit("${");
            reveal_strlit("}");
        }
        result = text::replace(result.as_str(), placeholder.as_str(), value.as_str());
        i = i + 1;
    }
    assert(ps.take(parameters.len() as int) == ps);
    result
}

/// An optional string's copy.
pub fn copy_opt(o: &Option<String>) -> (r: Option<String>)
    ensures
        r == *o,
{
    match o {
        Some(s) => Some(s.clone()),
        None => None,
    }
}

/// A string list's copy.
pub fn copy_strings(v: &Vec<String>) -> (r: Vec<String>)
    ensures
        r@ == v@,
{
    let mut r: Vec<String> = Vec::new();
    let mut i: usize = 0;
    while i < v.len()
        invariant
            i <= v.len(),
            r@ == v@.take(i as int),
        decreases v.len() - i,
    {
        r.push(v[i].clone());
        assert(v@.take(i as int).push(v@[i as int]) == v@.take(i + 1));
        i = i + 1;
    }
    assert(v@.take(v.len() as int) == v@);
    r
}

impl ParameterDefinition {
    /// A copy.
    pub fn duplicate(&self) -> (r: ParameterDefinition)
        ensures
            r == *self,
    {
        ParameterDefinition {
            description: copy_opt(&self.description),
            default_value: copy_opt(&self.default_value),
            required: self.required,
        }
    }
}

/// A parameter list's copy.
pub fn copy_parameters(p: &Option<Vec<(String, ParameterDefinition)>>) -> (r: Option<Vec<(String, ParameterDefinition)>>)
    ensures
        match (r, *p) {
            (Some(a), Some(b)) => a@ == b@,
            (None, None) => true,
            _ => false,
        },
{
    match p {
        None => None,
        Some(v) => {
            let mut r: Vec<(String, ParameterDefinition)> = Vec::new();
            let mut i: usize = 0;
            while i < v.len()
                invariant
                    i <= v.len(),
                    r@ == v@.take(i as int),
                decreases v.len() - i,
            {
                let (k, d) = &v[i];
                r.push((k.clone(), d.duplicate()));
                assert(v@.take(i as int).push(v@[i as int]) == v@.take(i + 1));
                i = i + 1;
            }
            assert(v@.take(v.len() as int) == v@);
            Some(r)
        },
    }
}

/// Two steps agree in every field, their arguments in entries and text.
pub open spec fn same_step(a: RecipeStep, b: RecipeStep) -> bool {
    &&& a.name == b.name
    &&& a.description == b.description
    &&& a.action == b.action
    &&& json::json_entries(a.arguments) == json::json_entries(b.arguments)
    &&& json::json_text(a.arguments) == json::json_text(b.arguments)
    &&& a.continue_on_error == b.continue_on_error
    &&& a.retry_count == b.retry_count
    &&& a.retry_delay_ms == b.retry_delay_ms
    &&& a.condition == b.condition
    &&& a.session_id == b.session_id
    &&& a.browser == b.browser
}

/// Two recipes agree in every field, their steps pairwise as `same_step`.
pub open spec fn same_recipe(a: Recipe, b: Recipe) -> bool {
    &&& same_header(a, b)
    &&& a.steps@.len() == b.steps@.len()
    &&& forall|i: int| 0 <= i < a.steps@.len() ==> same_step(#[trigger] a.steps@[i], b.steps@[i])
}

/// Two recipes agree in every field but their steps.
pub open spec fn same_header(a: Recipe, b: Recipe) -> bool {
    &&& a.name == b.name
    &&& a.description == b.description
    &&& a.version == b.version
    &&& a.author == b.author
    &&& a.created_at == b.created_at
    &&& match (a.parameters, b.parameters) {
        (Some(x), Some(y)) => x@ == y@,
        (None, None) => true,
        _ => false,
    }
    &&& a.browsers@ == b.browsers@
}

impl RecipeStep {
    /// A copy.
    pub fn duplicate(&self) -> (r: RecipeStep)
        ensures
            same_step(r, *self),
    {
        RecipeStep {
            name: copy_opt(&self.name),
            description: copy_opt(&self.description),
            action: self.action.clone(),
            arguments: self.arguments.clone(),
            continue_on_error: self.continue_on_error,
            retry_count: self.retry_count,
            retry_delay_ms: self.retry_delay_ms,
            condition: copy_opt(&self.condition),
            session_id: copy_opt(&self.session_id),
            browser: copy_opt(&self.browser),
        }
    }
}

/// The step after parameter substitution: its arguments are what parsing
/// the substituted text of the old arguments gives, its condition is
/// substituted, everything else is kept.
pub open spec fn substituted_step(old: RecipeStep, new: RecipeStep, params: Seq<(Seq<char>, Seq<char>)>) -> bool {
    &&& new.name == old.name
    &&& new.description == old.description
    &&& new.action == old.action
    &&& json::json_parse(substituted(json::json_text(old.arguments), params)) == Some(json::json_entries(new.arguments))
    &&& new.continue_on_error == old.continue_on_error
    &&& new.retry_count == old.retry_count
    &&& new.retry_delay_ms == old.retry_delay_ms
    &&& match (new.condition, old.condition) {
        (Some(n), Some(o)) => n@ == substituted(o@, params),
        (None, None) => true,
        _ => false,
    }
    &&& new.session_id == old.session_id
    &&& new.browser == old.browser
}

/// Whether the substituted argument text of a step parses as an object.
pub open spec fn step_substitution_parses(step: RecipeStep, params: Seq<(Seq<char>, Seq<char>)>) -> bool {
    json::json_parse(substituted(json::json_text(step.arguments), params)) is Some
}

/// The message for a step whose substituted arguments do not parse.
pub open spec fn substitution_error_prefix() -> Seq<char> {
    "Failed to deserialize substituted arguments: "@
}

impl Recipe {
    /// A copy.
    pub fn duplicate(&self) -> (r: Recipe)
        ensures
            same_recipe(r, *self),
    {
        let mut steps: Vec<RecipeStep> = Vec::new();
        let mut i: usize = 0;
        while i < self.steps.len()
            invariant
                i <= self.steps.len(),
                steps.len() == i,
                forall|j: int| 0 <= j < i ==> same_step(#[trigger] steps@[j], self.steps@[j]),
            decreases self.steps.len() - i,
        {
            steps.push(self.steps[i].duplicate());
            i = i + 1;
        }
        Recipe {
            name: self.name.clone(),
            description: copy_opt(&self.description),
            version: self.version.clone(),
            author: copy_opt(&self.author),
            created_at: copy_opt(&self.created_at),
            parameters: copy_parameters(&self.parameters),
            browsers: copy_strings(&self.browsers),
            steps,
        }
    }

    /// Substitutes the parameters, in the order given, into the serialised
    /// arguments and the condition of every step.  Fails with a message
    /// starting `Failed to deserialize substituted arguments: ` at the first
    /// step whose substituted arguments are no longer a JSON object.
    pub fn substitute_parameters(&self, parameters: &Vec<(String, String)>) -> (r: Result<Recipe, String>)
        ensures
            match r {
                Ok(n) => same_header(n, *self) && n.steps@.len() == self.steps@.len()
                    && (parameters_distinct(*self) ==> parameters_distinct(n))
                    && forall|i: int| 0 <= i < n.steps@.len()
                        ==> substituted_step(self.steps@[i], #[trigger] n.steps@[i], params_view(parameters@)),
                Err(m) => substitution_error_prefix().is_prefix_of(m@)
                    && exists|i: int| 0 <= i < self.steps@.len()
                        && !step_substitution_parses(#[trigger] self.steps@[i], params_view(parameters@)),
            },
            (forall|i: int| 0 <= i < self.steps@.len()
                ==> step_substitution_parses(#[trigger] self.steps@[i], params_view(parameters@))) ==> r is Ok,
    {
        let ghost ps = params_view(parameters@);
        let mut steps: Vec<RecipeStep> = Vec::new();
        let mut i: usize = 0;
        while i < self.steps.len()
            invariant
                i <= self.steps.len(),
                ps == params_view(parameters@),
                steps.len() == i,
                forall|j: int| 0 <= j < i ==> substituted_step(self.steps@[j], #[trigger] steps@[j], ps),
                forall|j: int| 0 <= j < i ==> step_substitution_parses(#[trigger] self.steps@[j], ps),
            decreases self.steps.len() - i,
        {
            let step = &self.steps[i];
            let args_text = json::json_to_string(&step.arguments);
            let args_text = match args_text {
                Ok(t) => t,
                Err(e) => {
                    return Err(text::concat2("Failed to serialize arguments: ", json::json_error_message(&e).as_str()));
                },
            };
            let sub = substitute_variables(args_text.as_str(), parameters);
            let parsed = json::json_from_str(sub.as_str());
            let arguments = match parsed {
                Ok(m) => m,
                Err(e) => {
                    proof {
                        reveal_strlit("Failed to deserialize substituted arguments: ");
                    }
                    let msg = text::concat2("Failed to deserialize substituted arguments: ", json::json_error_message(&e).as_str());
                    assert(!step_substitution_parses(self.steps@[i as int], ps));
                    return Err(msg);
                },
            };
            let condition = match &step.condition {
                Some(c) => Some(substitute_variables(c.as_str(), parameters)),
                None => None,
            };
            steps.push(RecipeStep {
                name: copy_opt(&step.name),
                description: copy_opt(&step.description),
                action: step.action.clone(),
                arguments,
                continue_on_error: step.continue_on_error,
                retry_count: step.retry_count,
                retry_delay_ms: step.retry_delay_ms,
                condition,
                session_id: copy_opt(&step.session_id),
                browser: copy_opt(&step.browser),
            });
            i = i + 1;
        }
        Ok(Recipe {
            name: self.name.clone(),
            description: copy_opt(&self.description),
            version: self.version.clone(),
            author: copy_opt(&self.author),
            created_at: copy_opt(&self.created_at),
            parameters: copy_parameters(&self.parameters),
            browsers: copy_strings(&self.browsers),
            steps,
        })
    }
}

/// Substituting no parameters leaves a text as it is.
pub proof fn lemma_no_parameters(t: Seq<char>)
    ensures
        substituted(t, Seq::empty()) == t,
{
}

proof fn lemma_replace_absent(s: Seq<char>, pat: Seq<char>, rep: Seq<char>)
    requires
        !text::occurs_in(s, pat),
    ensures
        text::replace_all(s, pat, rep) == s,
    decreases s.len(),
{
    if pat.len() == 0 || s.len() < pat.len() {
    } else {
        assert(!text::occurs_at(s, pat, 0));
        let t = s.subrange(1, s.len() as int);
        assert(!text::occurs_in(t, pat)) by {
            if text::occurs_in(t, pat) {
                let i = choose|i: int| text::occurs_at(t, pat, i);
                assert(s.subrange(i + 1, i + 1 + pat.len()) =~= t.subrange(i, i + pat.len()));
                assert(text::occurs_at(s, pat, i + 1));
            }
        }
        lemma_replace_absent(t, pat, rep);
        assert(seq![s[0]] + t =~= s);
    }
}

/// A text in which no parameter's placeholder `${key}` occurs is left as
/// it is by substitution.
pub proof fn lemma_absent_placeholders(t: Seq<char>, params: Seq<(Seq<char>, Seq<char>)>)
    requires
        forall|i: int| 0 <= i < params.len() ==> !text::occurs_in(t, #[trigger] placeholder(params[i].0)),
    ensures
        substituted(t, params) == t,
    decreases params.len(),
{
    if params.len() > 0 {
        let rest = params.drop_last();
        assert forall|i: int| 0 <= i < rest.len() implies !text::occurs_in(t, #[trigger] placeholder(rest[i].0)) by {
            assert(rest[i] == params[i]);
        }
        lemma_absent_placeholders(t, rest);
        assert(!text::occurs_in(t, placeholder(params[params.len() - 1].0)));
        lemma_replace_absent(t, placeholder(params.last().0), params.last().1);
    }
}

/// A placeholder standing alone becomes its parameter's value.
pub proof fn lemma_placeholder_replaced(key: Seq<char>, value: Seq<char>)
    ensures
        substituted(placeholder(key), seq![(key, value)]) == value,
{
    reveal_strlit("${");
    reveal_strlit("}");
    let pat = placeholder(key);
    let ps = seq![(key, value)];
    assert(pat.len() == key.len() + 3);
    assert(ps.last() == (key, value));
    assert(ps.drop_last() =~= Seq::<(Seq<char>, Seq<char>)>::empty());
    assert(substituted(pat, ps.drop_last()) == pat);
    assert(pat.subrange(0, pat.len() as int) =~= pat);
    assert(pat.subrange(pat.len() as int, pat.len() as int) =~= Seq::<char>::empty());
    assert(text::replace_all(Seq::<char>::empty(), pat, value) == Seq::<char>::empty());
    assert(value + Seq::<char>::empty() =~= value);
}

} // verus!
