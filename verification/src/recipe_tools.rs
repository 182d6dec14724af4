//! The recipe tools: what they read from a call and what they answer.

use vstd::prelude::*;
use crate::text;
use crate::json;
use crate::json::JsonObject;
use crate::actions::{call_text_arg, call_text_argument};
use crate::config::opt_view;
use crate::execution::{ExecutionResult, numberable, summary_text, step_lines};

verus! {

/// Reads a required string argument of a recipe tool; its absence is an
/// invalid call, answered with `<key> parameter required`.
pub fn required_argument(args: &Option<JsonObject>, key: &str) -> (r: Result<String, String>)
    ensures
        match call_text_arg(*args, key@) {
            Some(v) => r matches Ok(x) && x@ == v,
            None => r matches Err(m) && m@ == key@ + " parameter required"@,
        },
{
    match call_text_argument(args, key) {
        Some(v) => Ok(v),
        None => Err(text::concat2(key, " parameter required")),
    }
}

/// The entries of a JSON object argument, as the call passes them.
pub open spec fn object_arg(args: Option<JsonObject>, key: Seq<char>) -> Option<Map<Seq<char>, Option<Seq<char>>>> {
    match args {
        Some(m) => {
            let e = json::json_entries(m);
            if e.dom().contains(key) && e[key] is Object { Some(e[key]->Object_0) } else { None }
        },
        None => None,
    }
}

/// Whether pairs are exactly the string entries of an object, each once.
pub open spec fn string_entries_of(o: Map<Seq<char>, Option<Seq<char>>>, pairs: Seq<(String, String)>) -> bool {
    &&& forall|i: int| 0 <= i < pairs.len() ==> #[trigger] o.dom().contains(pairs[i].0@) && o[pairs[i].0@] == Some(pairs[i].1@)
    &&& forall|k: Seq<char>| #[trigger] o.dom().contains(k) && o[k] is Some ==> exists|i: int| 0 <= i < pairs.len() && pairs[i].0@ == k
    &&& forall|i: int, j: int| 0 <= i < j < pairs.len() ==> pairs[i].0@ != pairs[j].0@
}

/// A recipe execution a call asks for.
#[derive(Debug, Clone)]
pub struct ExecuteRecipeRequest {
    pub name: String,
    /// The string entries of the `parameters` object, if it is an object.
    pub parameters: Option<Vec<(String, String)>>,
    pub session_id: Option<String>,
    pub continue_on_error: bool,
}

/// Reads an `execute_recipe` call: `name` is required; `parameters` are
/// the string entries of an object; `continue_on_error` defaults to false.
pub fn execute_recipe_request(args: &Option<JsonObject>) -> (r: Result<ExecuteRecipeRequest, String>)
    ensures
        match call_text_arg(*args, "name"@) {
            None => r matches Err(m) && m@ == "name parameter required"@,
            Some(n) => r matches Ok(q) && q.name@ == n
                && opt_view(q.session_id) == call_text_arg(*args, "session_id"@)
                && q.continue_on_error == (match *args {
                    Some(m) => {
                        let e = json::json_entries(m);
                        e.dom().contains("continue_on_error"@) && e["continue_on_error"@] == json::JsonEntry::Bool(true)
                    },
                    None => false,
                })
                && match object_arg(*args, "parameters"@) {
                    Some(o) => q.parameters matches Some(p) && string_entries_of(o, p@),
                    None => q.parameters is None,
                },
        },
{
    let name = match call_text_argument(args, "name") {
        Some(n) => n,
        None => { return Err(text::owned("name parameter required")); },
    };
    let (continue_on_error, items) = match args {
        Some(m) => {
            let c = match json::json_get_bool(m, "continue_on_error") {
                Some(b) => b,
                None => false,
            };
            (c, json::json_get_object_items(m, "parameters"))
        },
        None => (false, None),
    };
    let parameters = match items {
        Some(v) => {
            let ghost o = object_arg(*args, "parameters"@)->0;
            let mut out: Vec<(String, String)> = Vec::new();
            let mut i: usize = 0;
            while i < v.len()
                invariant
                    i <= v@.len(),
                    object_arg(*args, "parameters"@) == Some(o),
                    forall|a: int| 0 <= a < v@.len() ==> #[trigger] o.dom().contains(v@[a].0@)
                        && o[v@[a].0@] == (match v@[a].1 { Some(s) => Some(s@), None => None::<Seq<char>> }),
                    forall|a: int, b: int| 0 <= a < b < v@.len() ==> v@[a].0@ != v@[b].0@,
                    forall|k: int| 0 <= k < out@.len() ==> #[trigger] o.dom().contains(out@[k].0@) && o[out@[k].0@] == Some(out@[k].1@),
                    forall|k: int, a: int| 0 <= k < out@.len() && i <= a < v@.len() ==> #[trigger] out@[k].0@ != #[trigger] v@[a].0@,
                    forall|a: int| 0 <= a < i && (#[trigger] v@[a]).1 is Some ==> exists|k: int| 0 <= k < out@.len() && out@[k].0@ == v@[a].0@,
                    forall|k: int, l: int| 0 <= k < l < out@.len() ==> out@[k].0@ != out@[l].0@,
                decreases v@.len() - i,
            {
                let ghost before = out@;
                match &v[i] {
                    (k, Some(s)) => {
                        out.push((k.clone(), s.clone()));
                        proof {
                            assert(out@[before.len() as int].0@ == v@[i as int].0@);
                            assert forall|a: int| 0 <= a < i + 1 && (#[trigger] v@[a]).1 is Some implies exists|k2: int| 0 <= k2 < out@.len() && out@[k2].0@ == v@[a].0@ by {
                                if a < i {
                                    let k2 = choose|k2: int| 0 <= k2 < before.len() && before[k2].0@ == v@[a].0@;
                                    assert(out@[k2] == before[k2]);
                                } else {
                                    assert(out@[before.len() as int].0@ == v@[a].0@);
                                }
                            }
                            assert forall|k2: int, a: int| 0 <= k2 < out@.len() && i + 1 <= a < v@.len() implies #[trigger] out@[k2].0@ != #[trigger] v@[a].0@ by {
                                if k2 < before.len() {
                                    assert(out@[k2] == before[k2]);
                                } else {
                                    assert(v@[i as int].0@ != v@[a].0@);
                                }
                            }
                            assert forall|k2: int, l: int| 0 <= k2 < l < out@.len() implies out@[k2].0@ != out@[l].0@ by {
                                if l == before.len() {
                                    assert(out@[k2] == before[k2]);
                                    assert(before[k2].0@ != v@[i as int].0@);
                                } else {
                                    assert(out@[k2] == before[k2]);
                                    assert(out@[l] == before[l]);
                                }
                            }
                        }
                    },
                    (_, None) => {},
                }
                i = i + 1;
            }
            proof {
                assert forall|k: Seq<char>| #[trigger] o.dom().contains(k) && o[k] is Some
                    implies exists|j: int| 0 <= j < out@.len() && out@[j].0@ == k by {
                    let a = choose|a: int| 0 <= a < v@.len() && v@[a].0@ == k;
                    assert(v@[a].1 is Some);
                }
            }
            Some(out)
        },
        None => None,
    };
    Ok(ExecuteRecipeRequest { name, parameters, session_id: call_text_argument(args, "session_id"), continue_on_error })
}

/// What a recipe tool reports.
#[derive(Debug, Clone)]
pub enum RecipeReport {
    Created { name: String, path: String },
    CreatedFromTemplate { name: String, path: String },
    SaveFailed(String),
    ValidationFailed(String),
    InvalidJson(String),
    LoadFailed { name: String, error: String },
    SerializeFailed(String),
    Deleted(String),
    DeleteFailed { name: String, error: String },
    ExecutionFailed(String),
    TemplateFailed(String),
    ListFailed(String),
}

/// The text of a recipe report.
pub open spec fn recipe_report_text(r: RecipeReport) -> Seq<char> {
    match r {
        RecipeReport::Created { name, path } => "Recipe '"@ + name@ + "' created successfully at "@ + path@,
        RecipeReport::CreatedFromTemplate { name, path } => "Recipe '"@ + name@ + "' created from template at "@ + path@,
        RecipeReport::SaveFailed(e) => "Failed to save recipe: "@ + e@,
        RecipeReport::ValidationFailed(e) => "Recipe validation failed: "@ + e@,
        RecipeReport::InvalidJson(e) => "Invalid recipe JSON: "@ + e@,
        RecipeReport::LoadFailed { name, error } => "Failed to load recipe '"@ + name@ + "': "@ + error@,
        RecipeReport::SerializeFailed(e) => "Failed to serialize recipe: "@ + e@,
        RecipeReport::Deleted(name) => "Recipe '"@ + name@ + "' deleted successfully"@,
        RecipeReport::DeleteFailed { name, error } => "Failed to delete recipe '"@ + name@ + "': "@ + error@,
        RecipeReport::ExecutionFailed(e) => "Recipe execution failed: "@ + e@,
        RecipeReport::TemplateFailed(e) => "Failed to create recipe from template: "@ + e@,
        RecipeReport::ListFailed(e) => "Failed to list recipes: "@ + e@,
    }
}

impl RecipeReport {
    /// Words the report.
    pub fn message(&self) -> (r: String)
        ensures
            r@ == recipe_report_text(*self),
    {
        match self {
            RecipeReport::Created { name, path } => {
                let a = text::concat3("Recipe '", name.as_str(), "' created successfully at ");
                text::concat2(a.as_str(), path.as_str())
            },
            RecipeReport::CreatedFromTemplate { name, path } => {
                let a = text::concat3("Recipe '", name.as_str(), "' created from template at ");
                text::concat2(a.as_str(), path.as_str())
            },
            RecipeReport::SaveFailed(e) => text::concat2("Failed to save recipe: ", e.as_str()),
            RecipeReport::ValidationFailed(e) => text::concat2("Recipe validation failed: ", e.as_str()),
            RecipeReport::InvalidJson(e) => text::concat2("Invalid recipe JSON: ", e.as_str()),
            RecipeReport::LoadFailed { name, error } => {
                let a = text::concat3("Failed to load recipe '", name.as_str(), "': ");
                text::concat2(a.as_str(), error.as_str())
            },
            RecipeReport::SerializeFailed(e) => text::concat2("Failed to serialize recipe: ", e.as_str()),
            RecipeReport::Deleted(name) => text::concat3("Recipe '", name.as_str(), "' deleted successfully"),
            RecipeReport::DeleteFailed { name, error } => {
                let a = text::concat3("Failed to delete recipe '", name.as_str(), "': ");
                text::concat2(a.as_str(), error.as_str())
            },
            RecipeReport::ExecutionFailed(e) => text::concat2("Recipe execution failed: ", e.as_str()),
            RecipeReport::TemplateFailed(e) => text::concat2("Failed to create recipe from template: ", e.as_str()),
            RecipeReport::ListFailed(e) => text::concat2("Failed to list recipes: ", e.as_str()),
        }
    }
}

/// What an `execute_recipe` call answers about a finished execution: a
/// success with the summary, or a failure with the summary and every step.
pub fn execution_report(result: &ExecutionResult) -> (r: (bool, String))
    requires
        numberable(result.step_results@),
    ensures
        r.0 == result.success,
        result.success ==> r.1@ == summary_text(*result),
        !result.success ==> r.1@ == summary_text(*result) + "\n\nStep Results:\n"@ + step_lines(result.step_results@),
{
    if result.success {
        (true, result.to_summary_string())
    } else {
        (false, result.to_detailed_string())
    }
}

} // verus!
