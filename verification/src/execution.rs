//! Running recipes: which browsers a recipe runs in, which steps run,
//! retries, how a run stops on failure, and how per-browser runs are
//! summed up.
//!
//! Browser actions themselves are performed by the caller; the decisions
//! between them are made here.  A run of one browser is a small state
//! machine: `advance` says which step to perform next (recording the steps
//! it skips), `record` takes the outcome of a performed step, and `finish`
//! produces the browser's result.

use vstd::prelude::*;
use crate::text;
use crate::json;
use crate::json::{JsonEntry, JsonObject};
use crate::recipe::{Recipe, RecipeStep};
use crate::error::WebDriverError;

verus! {

/// Settings of one recipe execution.
#[derive(Debug, Clone)]
pub struct ExecutionContext {
    pub session_id: Option<String>,
    pub variables: Vec<(String, String)>,
    pub continue_on_error: bool,
}

/// The outcome of one step in one browser.
#[derive(Debug, Clone)]
pub struct StepResult {
    pub step_index: usize,
    pub step_name: Option<String>,
    pub action: String,
    pub success: bool,
    pub execution_time_ms: u64,
    pub attempts: u32,
    pub result: Option<String>,
    pub error_message: Option<String>,
    pub skipped: bool,
    pub skipped_reason: Option<String>,
    pub browser: Option<String>,
}

/// The outcome of a recipe in one browser.
#[derive(Debug, Clone)]
pub struct BrowserExecutionResult {
    pub browser: String,
    pub success: bool,
    pub executed_steps: usize,
    pub failed_steps: usize,
    pub step_results: Vec<StepResult>,
    pub execution_time_ms: u64,
    pub error_message: Option<String>,
}

/// The outcome of a recipe.
#[derive(Debug, Clone)]
pub struct ExecutionResult {
    pub success: bool,
    pub total_steps: usize,
    pub executed_steps: usize,
    pub failed_steps: usize,
    pub step_results: Vec<StepResult>,
    pub execution_time_ms: u64,
    pub error_message: Option<String>,
    /// Per-browser outcomes, one per browser.
    pub browser_results: Vec<BrowserExecutionResult>,
}

/// The outcome of performing one step, retries included.
#[derive(Debug, Clone)]
pub struct StepOutcome {
    pub success: bool,
    pub attempts: u32,
    pub result: Option<String>,
    pub error_message: Option<String>,
    pub execution_time_ms: u64,
}

/// Whether a condition lets its step run: an empty condition does, and so
/// does `true` in any letter case around white space; anything else does not.
pub open spec fn condition_holds(c: Seq<char>) -> bool {
    c.len() == 0 || text::lowercase(text::trimmed(c)) == "true"@
}

/// Evaluates a step condition.
pub fn evaluate_condition(condition: &str) -> (r: bool)
    ensures
        r == condition_holds(condition@),
{
    if condition.unicode_len() == 0 {
        return true;
    }
    let t = text::trim(condition);
    let l = text::to_lowercase(t.as_str());
    text::str_equal(l.as_str(), "true")
}

/// The browser a step runs in: its own, else the run's.
pub open spec fn step_browser(step: RecipeStep, browser: Seq<char>) -> Seq<char> {
    match step.browser {
        Some(b) => b@,
        None => browser,
    }
}

/// Why a step is skipped in a browser, if it is.
pub open spec fn skip_reason(step: RecipeStep, browser: Seq<char>) -> Option<Seq<char>> {
    if step_browser(step, browser) != browser {
        Some("Step for different browser: "@ + step_browser(step, browser))
    } else if step.condition is Some && !condition_holds(step.condition->0@) {
        Some("Condition not met: "@ + step.condition->0@)
    } else {
        None
    }
}

/// A step runs in a browser exactly when it names no other browser and
/// has no condition, or a condition that is met: a step naming another
/// browser is skipped for it, an unconditional step for the run's own
/// browser is never skipped, and a step whose condition is `true` (any
/// letter case, white space around) is not skipped for failing it.
pub proof fn lemma_skip_rules(step: RecipeStep, browser: Seq<char>)
    ensures
        skip_reason(step, browser) is None <==> ((step.browser is None || step.browser->0@ == browser)
            && (step.condition is None || condition_holds(step.condition->0@))),
        step.browser is Some && step.browser->0@ != browser ==> skip_reason(step, browser) is Some,
        condition_holds(Seq::empty()),
        forall|c: Seq<char>| text::lowercase(text::trimmed(c)) == "true"@ ==> #[trigger] condition_holds(c),
{
}

/// Whether a failed step ends the run.
pub open spec fn stops_run(step: RecipeStep, continue_on_error: bool) -> bool {
    !(step.continue_on_error == Some(true)) && !continue_on_error
}

/// A failed step ends the run exactly when neither the step
/// (`continue_on_error: Some(true)`) nor the run's context lets the run go
/// on: a step that allows failures never stops the run, whatever the
/// context, and an unset or `false` step flag stops it only when the
/// context does not go on either.
pub proof fn lemma_failure_stops_run(step: RecipeStep, continue_on_error: bool)
    ensures
        step.continue_on_error == Some(true) ==> !stops_run(step, continue_on_error),
        continue_on_error ==> !stops_run(step, continue_on_error),
        (step.continue_on_error is None || step.continue_on_error == Some(false)) && !continue_on_error
            ==> stops_run(step, continue_on_error),
{
}

/// Number of results of steps that ran.
pub open spec fn count_executed(rs: Seq<StepResult>) -> nat
    decreases rs.len(),
{
    if rs.len() == 0 { 0 } else { count_executed(rs.drop_last()) + if rs.last().skipped { 0nat } else { 1nat } }
}

/// Number of results of steps that failed.
pub open spec fn count_failed(rs: Seq<StepResult>) -> nat
    decreases rs.len(),
{
    if rs.len() == 0 { 0 } else { count_failed(rs.drop_last()) + if rs.last().success { 0nat } else { 1nat } }
}

proof fn lemma_counts_bound(rs: Seq<StepResult>)
    requires
        forall|k: int| 0 <= k < rs.len() ==> (#[trigger] rs[k]).skipped ==> rs[k].success,
    ensures
        count_failed(rs) <= count_executed(rs),
        count_executed(rs) <= rs.len(),
    decreases rs.len(),
{
    if rs.len() > 0 {
        lemma_counts_bound(rs.drop_last());
        assert(rs.last() == rs[rs.len() - 1]);
    }
}

/// What the caller should do next in a browser run.
pub enum RunAction {
    /// Perform the step at this index.
    Execute(usize),
    /// The run is over.
    Finished,
}

/// The result recorded for a step that a run skips in `browser`: marked
/// skipped with the reason, successful, with no attempt, no time, no
/// result and no error, under the step's name and action.
pub open spec fn skipped_result(res: StepResult, step: RecipeStep, browser: Seq<char>) -> bool {
    &&& res.skipped
    &&& skip_reason(step, browser) is Some
    &&& crate::config::opt_view(res.skipped_reason) == skip_reason(step, browser)
    &&& res.success
    &&& res.attempts == 0
    &&& res.execution_time_ms == 0
    &&& res.result is None
    &&& res.error_message is None
    &&& crate::config::opt_view(res.step_name) == crate::config::opt_view(step.name)
    &&& res.action@ == step.action@
    &&& crate::config::opt_view(res.browser) == Some(browser)
}

/// The state of a recipe run in one browser.
pub struct BrowserRun {
    browser: String,
    total: usize,
    next_index: usize,
    step_results: Vec<StepResult>,
    executed_steps: usize,
    failed_steps: usize,
    execution_failed: bool,
    error_message: Option<String>,
    finished: bool,
}

impl BrowserRun {
    pub closed spec fn browser_name(&self) -> Seq<char> { self.browser@ }
    pub closed spec fn steps_total(&self) -> nat { self.total as nat }
    pub closed spec fn position(&self) -> nat { self.next_index as nat }
    pub closed spec fn results(&self) -> Seq<StepResult> { self.step_results@ }
    pub closed spec fn executed(&self) -> nat { self.executed_steps as nat }
    pub closed spec fn failed(&self) -> nat { self.failed_steps as nat }
    pub closed spec fn stopped(&self) -> bool { self.execution_failed }
    pub closed spec fn error(&self) -> Option<String> { self.error_message }
    pub closed spec fn is_finished(&self) -> bool { self.finished }

    /// The run's bookkeeping is consistent: one result per step passed, in
    /// step order; the counters count the results; a stopped run is
    /// finished and has a failure.
    pub open spec fn wf(&self) -> bool {
        &&& self.position() <= self.steps_total()
        &&& self.results().len() == self.position()
        &&& forall|k: int| 0 <= k < self.results().len() ==> (#[trigger] self.results()[k]).step_index == k
        &&& forall|k: int| 0 <= k < self.results().len() ==> (#[trigger] self.results()[k]).skipped ==> self.results()[k].success
        &&& forall|k: int| 0 <= k < self.results().len() ==> (#[trigger] self.results()[k]).browser == Some(self.browser_name_string())
        &&& self.executed() == count_executed(self.results())
        &&& self.failed() == count_failed(self.results())
        &&& self.stopped() ==> self.is_finished() && self.failed() > 0
        &&& !self.is_finished() ==> self.error() is None
    }

    pub closed spec fn browser_name_string(&self) -> String { self.browser }

    /// A run of a recipe with `total_steps` steps in `browser`, at its first step.
    pub fn new(browser: String, total_steps: usize) -> (r: BrowserRun)
        ensures
            r.wf(),
            r.browser_name() == browser@,
            r.browser_name_string() == browser,
            r.steps_total() == total_steps,
            r.position() == 0,
            r.results() == Seq::<StepResult>::empty(),
            !r.is_finished(),
            !r.stopped(),
    {
        let r = BrowserRun {
            browser,
            total: total_steps,
            next_index: 0,
            step_results: Vec::new(),
            executed_steps: 0,
            failed_steps: 0,
            execution_failed: false,
            error_message: None,
            finished: false,
        };
        assert(r.results() =~= Seq::<StepResult>::empty());
        r
    }

    /// Records the steps that are skipped from the current position on and
    /// returns the next step to perform, or that the run is over.
    #[verifier::loop_isolation(false)]
    pub fn advance(&mut self, recipe: &Recipe) -> (r: RunAction)
        requires
            old(self).wf(),
            old(self).steps_total() == recipe.steps@.len(),
        ensures
            final(self).wf(),
            final(self).steps_total() == old(self).steps_total(),
            final(self).browser_name() == old(self).browser_name(),
            final(self).browser_name_string() == old(self).browser_name_string(),
            final(self).executed() == old(self).executed(),
            final(self).failed() == old(self).failed(),
            final(self).stopped() == old(self).stopped(),
            old(self).results().is_prefix_of(final(self).results()),
            forall|k: int| old(self).position() <= k < final(self).position()
                ==> skipped_result(#[trigger] final(self).results()[k], recipe.steps@[k], old(self).browser_name()),
            match r {
                RunAction::Execute(i) => !old(self).is_finished() && !final(self).is_finished() && i == final(self).position()
                    && i < recipe.steps@.len() && skip_reason(recipe.steps@[i as int], old(self).browser_name()) is None,
                RunAction::Finished => final(self).is_finished()
                    && (!old(self).is_finished() ==> final(self).position() == recipe.steps@.len()),
            },
            old(self).is_finished() ==> final(self).results() == old(self).results() && r is Finished,
    {
        if self.finished {
            return RunAction::Finished;
        }
        let ghost start = self.step_results@;
        let ghost start_pos = self.next_index as int;
        while self.next_index < recipe.steps.len()
            invariant
                self.wf(),
                !self.finished,
                self.total == recipe.steps@.len(),
                self.browser == old(self).browser,
                self.executed_steps == old(self).executed_steps,
                self.failed_steps == old(self).failed_steps,
                self.execution_failed == old(self).execution_failed,
                start.is_prefix_of(self.step_results@),
                start_pos <= self.next_index,
                forall|k: int| start_pos <= k < self.next_index
                    ==> skipped_result(#[trigger] self.step_results@[k], recipe.steps@[k], self.browser@),
            decreases recipe.steps.len() - self.next_index,
        {
            let i = self.next_index;
            let step = &recipe.steps[i];
            let run_browser = self.browser.as_str();
            let sb: &str = match &step.browser {
                Some(b) => b.as_str(),
                None => run_browser,
            };
            let reason: Option<String> = if !text::str_equal(sb, run_browser) {
                Some(text::concat2("Step for different browser: ", sb))
            } else {
                match &step.condition {
                    Some(c) => {
                        if !evaluate_condition(c.as_str()) {
                            Some(text::concat2("Condition not met: ", c.as_str()))
                        } else {
                            None
                        }
                    },
                    None => None,
                }
            };
            match reason {
                Some(m) => {
                    let ghost before = self.step_results@;
                    let sr = StepResult {
                        step_index: i,
                        step_name: crate::recipe::copy_opt(&step.name),
                        action: step.action.clone(),
                        success: true,
                        execution_time_ms: 0,
                        attempts: 0,
                        result: None,
                        error_message: None,
                        skipped: true,
                        skipped_reason: Some(m),
                        browser: Some(self.browser.clone()),
                    };
                    self.step_results.push(sr);
                    proof {
                        assert(self.step_results@.drop_last() == before);
                        assert(start.is_prefix_of(self.step_results@)) by {
                            assert forall|k: int| 0 <= k < start.len() implies start[k] == self.step_results@[k] by {
                                assert(start[k] == before[k]);
                            }
                        }
                    }
                    self.next_index = i + 1;
                },
                None => {
                    return RunAction::Execute(i);
                },
            }
        }
        self.finished = true;
        RunAction::Finished
    }

    /// Records the outcome of the step at the current position.  A failed
    /// step ends the run unless the step or the context lets the run go on.
    pub fn record(&mut self, recipe: &Recipe, outcome: StepOutcome, continue_on_error: bool)
        requires
            old(self).wf(),
            old(self).steps_total() == recipe.steps@.len(),
            !old(self).is_finished(),
            old(self).position() < old(self).steps_total(),
        ensures
            final(self).wf(),
            final(self).steps_total() == old(self).steps_total(),
            final(self).browser_name() == old(self).browser_name(),
            final(self).browser_name_string() == old(self).browser_name_string(),
            final(self).position() == old(self).position() + 1,
            final(self).results() == old(self).results().push(final(self).results().last()),
            final(self).results().last().success == outcome.success,
            !final(self).results().last().skipped,
            final(self).results().last().attempts == outcome.attempts,
            final(self).results().last().execution_time_ms == outcome.execution_time_ms,
            final(self).results().last().result == (if outcome.success { outcome.result } else { None }),
            final(self).results().last().error_message == (if outcome.success { None } else { outcome.error_message }),
            final(self).executed() == old(self).executed() + 1,
            final(self).failed() == old(self).failed() + if outcome.success { 0nat } else { 1nat },
            final(self).is_finished() == (!outcome.success && stops_run(recipe.steps@[old(self).position() as int], continue_on_error)),
            recipe.steps@[old(self).position() as int].continue_on_error == Some(true) ==> !final(self).is_finished(),
            continue_on_error ==> !final(self).is_finished(),
            (!outcome.success && recipe.steps@[old(self).position() as int].continue_on_error != Some(true)
                && !continue_on_error) ==> final(self).is_finished(),
            final(self).stopped() == final(self).is_finished(),
            final(self).is_finished() ==> final(self).error() == outcome.error_message,
    {
        let i = self.next_index;
        let step = &recipe.steps[i];
        proof { lemma_counts_bound(self.step_results@); }
        let ghost before = self.step_results@;
        let sr = StepResult {
            step_index: i,
            step_name: crate::recipe::copy_opt(&step.name),
            action: step.action.clone(),
            success: outcome.success,
            execution_time_ms: outcome.execution_time_ms,
            attempts: outcome.attempts,
            result: if outcome.success { outcome.result } else { None },
            error_message: if outcome.success { None } else { outcome.error_message.clone() },
            skipped: false,
            skipped_reason: None,
            browser: Some(self.browser.clone()),
        };
        self.step_results.push(sr);
        assert(self.step_results@.drop_last() == before);
        self.executed_steps = self.executed_steps + 1;
        if !outcome.success {
            self.failed_steps = self.failed_steps + 1;
            let keep_going = match step.continue_on_error {
                Some(b) => b,
                None => false,
            };
            if !keep_going && !continue_on_error {
                self.execution_failed = true;
                self.error_message = outcome.error_message;
                self.finished = true;
            }
        }
        self.next_index = i + 1;
    }

    /// The browser's result once the run is over: successful exactly when
    /// no performed step failed.
    pub fn finish(self, execution_time_ms: u64) -> (r: ExecutionResult)
        requires
            self.wf(),
            self.is_finished(),
        ensures
            r.success == (self.failed() == 0),
            r.total_steps == self.steps_total(),
            r.executed_steps == self.executed(),
            r.failed_steps == self.failed(),
            r.step_results@ == self.results(),
            r.execution_time_ms == execution_time_ms,
            r.error_message == self.error(),
            r.browser_results@.len() == 0,
            r.failed_steps <= r.executed_steps <= r.step_results@.len(),
    {
        proof { lemma_counts_bound(self.step_results@); }
        ExecutionResult {
            success: !self.execution_failed && self.failed_steps == 0,
            total_steps: self.total,
            executed_steps: self.executed_steps,
            failed_steps: self.failed_steps,
            step_results: self.step_results,
            execution_time_ms,
            error_message: self.error_message,
            browser_results: Vec::new(),
        }
    }
}

/// What the caller should do after an attempt at a step.
pub enum RetryAction {
    /// Wait this many milliseconds and try again.
    Retry(u64),
    /// The step is done with this outcome (its time still to be filled in).
    Done(StepOutcome),
}

/// The retries of one step: it is tried once plus `retry_count` more times
/// (none by default), waiting `retry_delay_ms` (1000 by default) between
/// attempts, until an attempt succeeds.
pub struct RetryState {
    max_retries: u32,
    delay_ms: u64,
    attempt: u32,
    last_error: Option<String>,
}

impl RetryState {
    pub closed spec fn attempts_made(&self) -> nat { self.attempt as nat }
    pub closed spec fn max(&self) -> nat { self.max_retries as nat }
    pub closed spec fn delay(&self) -> u64 { self.delay_ms }

    /// Retries of a step, before its first attempt.
    pub fn new(step: &RecipeStep) -> (r: RetryState)
        requires
            step.retry_count matches Some(n) ==> n < u32::MAX,
        ensures
            r.attempts_made() == 0,
            r.max() == (match step.retry_count { Some(n) => n, None => 0u32 }),
            r.delay() == (match step.retry_delay_ms { Some(d) => d, None => 1000u64 }),
    {
        RetryState {
            max_retries: match step.retry_count { Some(n) => n, None => 0 },
            delay_ms: match step.retry_delay_ms { Some(d) => d, None => 1000 },
            attempt: 0,
            last_error: None,
        }
    }

    /// Takes the result of an attempt: a success ends the step; a failure
    /// asks for another attempt while retries remain, else ends it failed.
    pub fn attempt_result(&mut self, result: Result<String, String>) -> (r: RetryAction)
        requires
            old(self).attempts_made() <= old(self).max(),
            old(self).max() < u32::MAX,
        ensures
            final(self).max() == old(self).max(),
            final(self).delay() == old(self).delay(),
            final(self).attempts_made() == old(self).attempts_made() + 1,
            match result {
                Ok(v) => r matches RetryAction::Done(o) && o.success && o.attempts == old(self).attempts_made() + 1
                    && o.result == Some(v) && o.error_message is None,
                Err(e) => if old(self).attempts_made() < old(self).max() {
                    r == RetryAction::Retry(old(self).delay())
                } else {
                    r matches RetryAction::Done(o) && !o.success && o.attempts == old(self).max() + 1
                        && o.result is None && o.error_message == Some(e)
                },
            },
    {
        let a = self.attempt;
        self.attempt = a + 1;
        match result {
            Ok(v) => RetryAction::Done(StepOutcome {
                success: true,
                attempts: a + 1,
                result: Some(v),
                error_message: None,
                execution_time_ms: 0,
            }),
            Err(e) => {
                if a < self.max_retries {
                    self.last_error = Some(e);
                    RetryAction::Retry(self.delay_ms)
                } else {
                    RetryAction::Done(StepOutcome {
                        success: false,
                        attempts: self.max_retries + 1,
                        result: None,
                        error_message: Some(e),
                        execution_time_ms: 0,
                    })
                }
            },
        }
    }
}

/// The browsers a recipe's browser list resolves to: `auto` picks Chrome,
/// Firefox, Edge, in that order of preference, the first available.
pub open spec fn resolved_browsers(bs: Seq<Seq<char>>) -> Option<Seq<Seq<char>>>
    decreases bs.len(),
{
    if bs.len() == 0 {
        Some(Seq::empty())
    } else {
        match resolved_browsers(bs.drop_last()) {
            None => None,
            Some(r) => {
                let b = bs.last();
                if b == "auto"@ {
                    Some(r.push("chrome"@))
                } else if b == "chrome"@ || b == "firefox"@ || b == "edge"@ {
                    Some(r.push(b))
                } else {
                    None
                }
            },
        }
    }
}

/// The first browser name that cannot be resolved.
pub open spec fn first_unsupported(bs: Seq<Seq<char>>) -> Option<Seq<char>>
    decreases bs.len(),
{
    if bs.len() == 0 {
        None
    } else {
        match first_unsupported(bs.drop_last()) {
            Some(b) => Some(b),
            None => {
                let b = bs.last();
                if b == "auto"@ || b == "chrome"@ || b == "firefox"@ || b == "edge"@ { None } else { Some(b) }
            },
        }
    }
}

proof fn lemma_resolution(bs: Seq<Seq<char>>)
    ensures
        resolved_browsers(bs) is None <==> first_unsupported(bs) is Some,
    decreases bs.len(),
{
    if bs.len() > 0 {
        lemma_resolution(bs.drop_last());
    }
}

proof fn lemma_first_unsupported_prefix(bs: Seq<Seq<char>>, j: int)
    requires
        0 <= j <= bs.len(),
        first_unsupported(bs.take(j)) is Some,
    ensures
        first_unsupported(bs) == first_unsupported(bs.take(j)),
    decreases bs.len() - j,
{
    if j < bs.len() {
        assert(bs.drop_last().take(j) == bs.take(j));
        lemma_first_unsupported_prefix(bs.drop_last(), j);
    } else {
        assert(bs.take(j) == bs);
    }
}

/// Whether a browser is installed; every supported browser is taken to be.
pub fn is_browser_available(browser: &str) -> (r: bool)
    ensures
        r,
{
    true
}

/// Resolves the browsers a recipe names to the browsers it runs in.
pub fn resolve_browsers(browsers: &Vec<String>) -> (r: Result<Vec<String>, WebDriverError>)
    ensures
        match r {
            Ok(v) => resolved_browsers(browsers@.map_values(|s: String| s@)) == Some(v@.map_values(|s: String| s@)),
            Err(e) => e matches WebDriverError::Execution(m)
                && first_unsupported(browsers@.map_values(|s: String| s@)) matches Some(b)
                && m@ == "Unsupported browser: "@ + b,
        },
{
    let ghost bs = browsers@.map_values(|s: String| s@);
    let mut out: Vec<String> = Vec::new();
    let mut i: usize = 0;
    while i < browsers.len()
        invariant
            i <= browsers.len(),
            bs == browsers@.map_values(|s: String| s@),
            resolved_browsers(bs.take(i as int)) == Some(out@.map_values(|s: String| s@)),
            first_unsupported(bs.take(i as int)) is None,
        decreases browsers.len() - i,
    {
        proof {
            assert(bs.take(i + 1).drop_last() == bs.take(i as int));
            assert(bs.take(i + 1).last() == browsers@[i as int]@);
        }
        let b = browsers[i].as_str();
        let ghost before = out@.map_values(|s: String| s@);
        if text::str_equal(b, "auto") {
            let _ = is_browser_available("chrome");
            out.push(text::owned("chrome"));
        } else if text::str_equal(b, "chrome") || text::str_equal(b, "firefox") || text::str_equal(b, "edge") {
            let _ = is_browser_available(b);
            out.push(text::owned(b));
        } else {
            proof {
                lemma_first_unsupported_prefix(bs, i + 1);
            }
            return Err(WebDriverError::Execution(text::concat2("Unsupported browser: ", b)));
        }
        assert(out@.map_values(|s: String| s@) =~= before.push(out@.last()@));
        i = i + 1;
    }
    assert(bs.take(browsers.len() as int) == bs);
    Ok(out)
}

/// The session a recipe run uses in a browser: `<browser>_recipe_session`.
pub fn browser_session_id(browser: &str) -> (r: String)
    ensures
        r@ == browser@ + "_recipe_session"@,
{
    text::concat2(browser, "_recipe_session")
}


/// The outcome of one browser's run, or the message saying why it could not run.
pub type BrowserRunOutcome = (String, Result<ExecutionResult, String>);

/// `Browser <b> failed: <error>`.
pub fn browser_failure(browser: &str, e: &WebDriverError) -> (r: String)
    ensures
        r@ == "Browser "@ + browser@ + " failed: "@ + crate::error::error_message(*e),
{
    let m = e.message();
    let a = text::concat3("Browser ", browser, " failed: ");
    text::concat2(a.as_str(), m.as_str())
}

/// Whether every browser ran and succeeded.
pub open spec fn all_succeeded(runs: Seq<BrowserRunOutcome>) -> bool {
    forall|i: int| 0 <= i < runs.len() ==> ((#[trigger] runs[i]).1 matches Ok(r) && r.success)
}

/// Steps performed over all browsers.
pub open spec fn total_executed(runs: Seq<BrowserRunOutcome>) -> nat
    decreases runs.len(),
{
    if runs.len() == 0 {
        0
    } else {
        total_executed(runs.drop_last()) + match runs.last().1 { Ok(r) => r.executed_steps as nat, Err(_) => 0nat }
    }
}

/// Failed steps over all browsers.
pub open spec fn total_failed(runs: Seq<BrowserRunOutcome>) -> nat
    decreases runs.len(),
{
    if runs.len() == 0 {
        0
    } else {
        total_failed(runs.drop_last()) + match runs.last().1 { Ok(r) => r.failed_steps as nat, Err(_) => 0nat }
    }
}

/// The error a browser's outcome contributes: that of a failed run, or the
/// reason a browser could not run.
pub open spec fn run_error(run: BrowserRunOutcome) -> Option<String> {
    match run.1 {
        Ok(r) => if r.success { None } else { r.error_message },
        Err(m) => Some(m),
    }
}

/// The first error any browser contributes.
pub open spec fn first_error(runs: Seq<BrowserRunOutcome>) -> Option<String>
    decreases runs.len(),
{
    if runs.len() == 0 {
        None
    } else {
        match first_error(runs.drop_last()) {
            Some(e) => Some(e),
            None => run_error(runs.last()),
        }
    }
}

/// A step result marked with the browser it ran in.
pub open spec fn in_browser(s: StepResult, b: String) -> StepResult {
    StepResult { browser: Some(b), ..s }
}

/// The step results of all browsers, in browser order, marked with their browser.
pub open spec fn all_step_results(runs: Seq<BrowserRunOutcome>) -> Seq<StepResult>
    decreases runs.len(),
{
    if runs.len() == 0 {
        Seq::empty()
    } else {
        all_step_results(runs.drop_last()) + match runs.last().1 {
            Ok(r) => r.step_results@.map_values(|s: StepResult| in_browser(s, runs.last().0)),
            Err(_) => Seq::empty(),
        }
    }
}

/// What a per-browser summary says: browser, success, steps performed,
/// steps failed, step results, time and error.
pub type SummaryView = (Seq<char>, bool, usize, usize, Seq<StepResult>, u64, Option<Seq<char>>);

/// The view of a per-browser summary.
pub open spec fn summary_view(s: BrowserExecutionResult) -> SummaryView {
    (s.browser@, s.success, s.executed_steps, s.failed_steps, s.step_results@, s.execution_time_ms,
        crate::config::opt_view(s.error_message))
}

/// The per-browser summary of one browser's outcome; a browser that could
/// not run counts every step as failed.
pub open spec fn browser_summary(run: BrowserRunOutcome, total_steps: usize) -> SummaryView {
    match run.1 {
        Ok(r) => (run.0@, r.success, r.executed_steps, r.failed_steps, r.step_results@, r.execution_time_ms,
            crate::config::opt_view(r.error_message)),
        Err(m) => (run.0@, false, 0, total_steps, Seq::empty(), 0, Some(m@)),
    }
}

/// Where the summary of browser `b` stands.
pub open spec fn summary_index(s: Seq<SummaryView>, b: Seq<char>) -> Option<int> {
    if exists|i: int| 0 <= i < s.len() && (#[trigger] s[i]).0 == b {
        Some(choose|i: int| 0 <= i < s.len() && (#[trigger] s[i]).0 == b)
    } else {
        None
    }
}

/// Puts a summary in place of the summary of the same browser, or at the end.
pub open spec fn upsert_summary(s: Seq<SummaryView>, x: SummaryView) -> Seq<SummaryView> {
    match summary_index(s, x.0) {
        Some(i) => s.update(i, x),
        None => s.push(x),
    }
}

/// The per-browser summaries: one per browser, the latest outcome of a browser counting.
pub open spec fn browser_summaries(runs: Seq<BrowserRunOutcome>, total_steps: usize) -> Seq<SummaryView>
    decreases runs.len(),
{
    if runs.len() == 0 {
        Seq::empty()
    } else {
        upsert_summary(browser_summaries(runs.drop_last(), total_steps), browser_summary(runs.last(), total_steps))
    }
}

/// No browser has two summaries.
pub open spec fn distinct_browsers(s: Seq<SummaryView>) -> bool {
    forall|i: int, j: int| 0 <= i < s.len() && 0 <= j < s.len() && i != j ==> (#[trigger] s[i]).0 != (#[trigger] s[j]).0
}

/// The views of a list of summaries.
pub open spec fn summary_views(v: Seq<BrowserExecutionResult>) -> Seq<SummaryView> {
    v.map_values(|s: BrowserExecutionResult| summary_view(s))
}

fn step_in_browser(s: &StepResult, b: &String) -> (r: StepResult)
    ensures
        r == in_browser(*s, *b),
{
    StepResult {
        step_index: s.step_index,
        step_name: crate::recipe::copy_opt(&s.step_name),
        action: s.action.clone(),
        success: s.success,
        execution_time_ms: s.execution_time_ms,
        attempts: s.attempts,
        result: crate::recipe::copy_opt(&s.result),
        error_message: crate::recipe::copy_opt(&s.error_message),
        skipped: s.skipped,
        skipped_reason: crate::recipe::copy_opt(&s.skipped_reason),
        browser: Some(b.clone()),
    }
}

fn upsert(v: &mut Vec<BrowserExecutionResult>, x: BrowserExecutionResult)
    requires
        distinct_browsers(summary_views(old(v)@)),
    ensures
        summary_views(final(v)@) == upsert_summary(summary_views(old(v)@), summary_view(x)),
        distinct_browsers(summary_views(final(v)@)),
{
    let ghost sv = summary_views(v@);
    let mut j: usize = 0;
    while j < v.len()
        invariant
            j <= v.len(),
            v@ == old(v)@,
            sv == summary_views(v@),
            distinct_browsers(sv),
            forall|k: int| 0 <= k < j ==> (#[trigger] sv[k]).0 != x.browser@,
        decreases v.len() - j,
    {
        if text::str_equal(v[j].browser.as_str(), x.browser.as_str()) {
            proof {
                assert(sv[j as int].0 == x.browser@);
                let c = choose|i: int| 0 <= i < sv.len() && (#[trigger] sv[i]).0 == x.browser@;
                if c != j {
                    assert(sv[c].0 != sv[j as int].0);
                }
            }
            let _ = v.remove(j);
            v.insert(j, x);
            assert(summary_views(v@) =~= sv.update(j as int, summary_view(x)));
            return;
        }
        j = j + 1;
    }
    v.push(x);
    assert(summary_views(v@) =~= sv.push(summary_view(x)));
}

/// Adds up the runs of a recipe in its browsers.  The recipe succeeded when
/// every browser ran and succeeded; its error is the first error a browser
/// contributed.
pub fn combine_browser_runs(total_steps: usize, runs: Vec<BrowserRunOutcome>, execution_time_ms: u64) -> (r: ExecutionResult)
    requires
        total_executed(runs@) <= usize::MAX,
        total_failed(runs@) <= usize::MAX,
    ensures
        r.success == all_succeeded(runs@),
        r.total_steps == total_steps,
        r.executed_steps == total_executed(runs@),
        r.failed_steps == total_failed(runs@),
        r.step_results@ == all_step_results(runs@),
        r.execution_time_ms == execution_time_ms,
        r.error_message == first_error(runs@),
        summary_views(r.browser_results@) == browser_summaries(runs@, total_steps),
        distinct_browsers(summary_views(r.browser_results@)),
{
    let ghost rs = runs@;
    let mut runs = runs;
    let mut summaries: Vec<BrowserExecutionResult> = Vec::new();
    let mut steps: Vec<StepResult> = Vec::new();
    let mut executed: usize = 0;
    let mut failed: usize = 0;
    let mut success = true;
    let mut error: Option<String> = None;
    let mut i: usize = 0;
    let n = runs.len();
    proof {
        assert(rs.subrange(0, n as int) == rs);
    }
    while runs.len() > 0
        invariant
            i + runs.len() == n,
            n == rs.len(),
            runs@ == rs.subrange(i as int, n as int),
            total_executed(rs) <= usize::MAX,
            total_failed(rs) <= usize::MAX,
            executed == total_executed(rs.take(i as int)),
            failed == total_failed(rs.take(i as int)),
            success == all_succeeded(rs.take(i as int)),
            error == first_error(rs.take(i as int)),
            steps@ == all_step_results(rs.take(i as int)),
            summary_views(summaries@) == browser_summaries(rs.take(i as int), total_steps),
            distinct_browsers(summary_views(summaries@)),
        decreases runs.len(),
    {
        let ghost pre = rs.take(i as int);
        proof {
            assert(rs.take(i + 1).drop_last() == pre);
            assert(rs.take(i + 1).last() == rs[i as int]);
            assert(runs@[0] == rs[i as int]);
            lemma_totals_prefix(rs, i + 1);
        }
        let (b, outcome) = runs.remove(0);
        match outcome {
            Ok(res) => {
                executed = executed + res.executed_steps;
                failed = failed + res.failed_steps;
                if !res.success {
                    success = false;
                    if error.is_none() {
                        error = crate::recipe::copy_opt(&res.error_message);
                    }
                }
                let ghost before = steps@;
                let mut k: usize = 0;
                while k < res.step_results.len()
                    invariant
                        k <= res.step_results.len(),
                        steps@ == before + res.step_results@.take(k as int).map_values(|s: StepResult| in_browser(s, b)),
                    decreases res.step_results.len() - k,
                {
                    let sr = step_in_browser(&res.step_results[k], &b);
                    steps.push(sr);
                    assert(res.step_results@.take(k + 1).map_values(|s: StepResult| in_browser(s, b))
                        =~= res.step_results@.take(k as int).map_values(|s: StepResult| in_browser(s, b)).push(sr));
                    k = k + 1;
                }
                assert(res.step_results@.take(res.step_results.len() as int) == res.step_results@);
                let summary = BrowserExecutionResult {
                    browser: b,
                    success: res.success,
                    executed_steps: res.executed_steps,
                    failed_steps: res.failed_steps,
                    step_results: res.step_results,
                    execution_time_ms: res.execution_time_ms,
                    error_message: res.error_message,
                };
                upsert(&mut summaries, summary);
            },
            Err(m) => {
                success = false;
                if error.is_none() {
                    error = Some(m.clone());
                }
                let summary = BrowserExecutionResult {
                    browser: b,
                    success: false,
                    executed_steps: 0,
                    failed_steps: total_steps,
                    step_results: Vec::new(),
                    execution_time_ms: 0,
                    error_message: Some(m),
                };
                upsert(&mut summaries, summary);
            },
        }
        proof {
            assert(runs@ =~= rs.subrange(i + 1, n as int));
            assert forall|j: int| 0 <= j < i + 1 implies ((#[trigger] rs.take(i + 1)[j]).1 matches Ok(r) && r.success) == (
                if j < i { (pre[j].1 matches Ok(r) && r.success) } else { (rs[i as int].1 matches Ok(r) && r.success) }) by {
                if j < i { assert(rs.take(i + 1)[j] == pre[j]); }
            }
        }
        i = i + 1;
    }
    proof {
        assert(rs.take(n as int) == rs);
    }
    ExecutionResult {
        success,
        total_steps,
        executed_steps: executed,
        failed_steps: failed,
        step_results: steps,
        execution_time_ms,
        error_message: error,
        browser_results: summaries,
    }
}

proof fn lemma_totals_prefix(rs: Seq<BrowserRunOutcome>, k: int)
    requires
        0 <= k <= rs.len(),
    ensures
        total_executed(rs.take(k)) <= total_executed(rs),
        total_failed(rs.take(k)) <= total_failed(rs),
    decreases rs.len() - k,
{
    if k < rs.len() {
        lemma_totals_prefix(rs.drop_last(), k);
        assert(rs.drop_last().take(k) == rs.take(k));
    } else {
        assert(rs.take(k) == rs);
    }
}

/// `Recipe executed successfully! …` or `Recipe execution failed. …`.
pub open spec fn summary_text(r: ExecutionResult) -> Seq<char> {
    if r.success {
        "Recipe executed successfully! "@ + text::decimal(r.executed_steps as nat) + " steps completed in "@
            + text::decimal(r.execution_time_ms as nat) + "ms"@
    } else {
        "Recipe execution failed. "@ + text::decimal(r.executed_steps as nat) + "/"@ + text::decimal(r.total_steps as nat)
            + " steps completed, "@ + text::decimal(r.failed_steps as nat) + " failures in "@
            + text::decimal(r.execution_time_ms as nat) + "ms. Error: "@
            + match r.error_message { Some(e) => e@, None => "Unknown error"@ }
    }
}

/// The status word of a step result.
pub open spec fn status_word(s: StepResult) -> Seq<char> {
    if s.skipped { "SKIPPED"@ } else if s.success { "SUCCESS"@ } else { "FAILED"@ }
}

/// The line describing one step result.
pub open spec fn step_line(s: StepResult) -> Seq<char> {
    let n = text::decimal(s.step_index as nat + 1);
    "  "@ + n + " - "@ + match s.step_name { Some(x) => x@, None => "Step "@ + n } + " ("@ + status_word(s) + "): "@
        + text::decimal(s.execution_time_ms as nat) + "ms"@
        + match s.error_message { Some(e) => " - Error: "@ + e@, None => Seq::empty() }
        + match s.skipped_reason { Some(m) => " - "@ + m@, None => Seq::empty() }
        + "\n"@
}

/// The lines of all step results.
pub open spec fn step_lines(rs: Seq<StepResult>) -> Seq<char>
    decreases rs.len(),
{
    if rs.len() == 0 { Seq::empty() } else { step_lines(rs.drop_last()) + step_line(rs.last()) }
}

/// Whether every step index can be numbered from one.
pub open spec fn numberable(rs: Seq<StepResult>) -> bool {
    forall|i: int| 0 <= i < rs.len() ==> (#[trigger] rs[i]).step_index < usize::MAX
}

fn step_line_text(s: &StepResult) -> (r: String)
    requires
        s.step_index < usize::MAX,
    ensures
        r@ == step_line(*s),
{
    let n = text::decimal_string((s.step_index + 1) as u64);
    let name = match &s.step_name {
        Some(x) => x.clone(),
        None => text::concat2("Step ", n.as_str()),
    };
    let status = if s.skipped { "SKIPPED" } else if s.success { "SUCCESS" } else { "FAILED" };
    let a = text::concat3("  ", n.as_str(), " - ");
    let b = text::concat3(a.as_str(), name.as_str(), " (");
    let c = text::concat3(b.as_str(), status, "): ");
    let t = text::decimal_string(s.execution_time_ms);
    let mut line = text::concat3(c.as_str(), t.as_str(), "ms");
    match &s.error_message {
        Some(e) => {
            line.append(" - Error: ");
            line.append(e.as_str());
        },
        None => {},
    }
    match &s.skipped_reason {
        Some(m) => {
            line.append(" - ");
            line.append(m.as_str());
        },
        None => {},
    }
    line.append("\n");
    line
}

impl ExecutionResult {
    /// One line saying whether the recipe succeeded, with counts and time.
    pub fn to_summary_string(&self) -> (r: String)
        ensures
            r@ == summary_text(*self),
    {
        let ex = text::decimal_string(self.executed_steps as u64);
        let tm = text::decimal_string(self.execution_time_ms);
        if self.success {
            let a = text::concat3("Recipe executed successfully! ", ex.as_str(), " steps completed in ");
            text::concat3(a.as_str(), tm.as_str(), "ms")
        } else {
            let tot = text::decimal_string(self.total_steps as u64);
            let fl = text::decimal_string(self.failed_steps as u64);
            let a = text::concat3("Recipe execution failed. ", ex.as_str(), "/");
            let b = text::concat3(a.as_str(), tot.as_str(), " steps completed, ");
            let c = text::concat3(b.as_str(), fl.as_str(), " failures in ");
            let d = text::concat3(c.as_str(), tm.as_str(), "ms. Error: ");
            match &self.error_message {
                Some(e) => text::concat2(d.as_str(), e.as_str()),
                None => text::concat2(d.as_str(), "Unknown error"),
            }
        }
    }

    /// The summary followed by one line per step result.
    pub fn to_detailed_string(&self) -> (r: String)
        requires
            numberable(self.step_results@),
        ensures
            r@ == summary_text(*self) + "\n\nStep Results:\n"@ + step_lines(self.step_results@),
    {
        let mut result = self.to_summary_string();
        result.append("\n\nStep Results:\n");
        let ghost head = result@;
        let mut i: usize = 0;
        while i < self.step_results.len()
            invariant
                i <= self.step_results.len(),
                numberable(self.step_results@),
                result@ == head + step_lines(self.step_results@.take(i as int)),
            decreases self.step_results.len() - i,
        {
            let line = step_line_text(&self.step_results[i]);
            proof {
                assert(self.step_results@.take(i + 1).drop_last() == self.step_results@.take(i as int));
                assert(self.step_results@.take(i + 1).last() == self.step_results@[i as int]);
            }
            result.append(line.as_str());
            i = i + 1;
        }
        assert(self.step_results@.take(self.step_results.len() as int) == self.step_results@);
        result
    }
}

/// Whether `fin` is what preparing `recipe` with the given parameters
/// makes of it before checking: the substituted recipe, or the recipe
/// itself when no parameters are given.
pub open spec fn prepared_from(fin: Recipe, recipe: Recipe, parameters: Option<Vec<(String, String)>>) -> bool {
    match parameters {
        Some(p) => fin.steps@.len() == recipe.steps@.len() && crate::recipe::same_header(fin, recipe)
            && forall|i: int| 0 <= i < fin.steps@.len() ==> crate::recipe::substituted_step(recipe.steps@[i],
                #[trigger] fin.steps@[i], crate::recipe::params_view(p@)),
        None => crate::recipe::same_recipe(fin, recipe),
    }
}

/// Whether substituting the parameters fails: some step's substituted
/// arguments are no longer a JSON object.
pub open spec fn substitution_fails(recipe: Recipe, parameters: Option<Vec<(String, String)>>) -> bool {
    match parameters {
        Some(p) => exists|i: int| 0 <= i < recipe.steps@.len()
            && !crate::recipe::step_substitution_parses(#[trigger] recipe.steps@[i], crate::recipe::params_view(p@)),
        None => false,
    }
}

/// Whether two steps agree in what checking a step looks at.
pub open spec fn same_checked_step(a: RecipeStep, b: RecipeStep) -> bool {
    &&& a.action == b.action
    &&& a.browser == b.browser
    &&& json::json_entries(a.arguments) == json::json_entries(b.arguments)
}

proof fn lemma_steps_problem_agree(s1: Seq<RecipeStep>, s2: Seq<RecipeStep>, i: int)
    requires
        s1.len() == s2.len(),
        forall|j: int| 0 <= j < s1.len() ==> same_checked_step(#[trigger] s1[j], s2[j]),
    ensures
        crate::recipe::steps_problem(s1, i) == crate::recipe::steps_problem(s2, i),
    decreases s1.len() - i,
{
    if 0 <= i < s1.len() {
        assert(same_checked_step(s1[i], s2[i]));
        assert(crate::recipe::step_problem(i, s1[i]) == crate::recipe::step_problem(i, s2[i]));
        lemma_steps_problem_agree(s1, s2, i + 1);
    }
}

/// Whatever recipe preparation makes of a recipe before checking, the
/// check finds the same problem in it (or none): preparing is determined
/// by the recipe and the parameters.
pub proof fn lemma_prepared_problem_unique(
    fin1: Recipe,
    fin2: Recipe,
    recipe: Recipe,
    parameters: Option<Vec<(String, String)>>,
)
    requires
        prepared_from(fin1, recipe, parameters),
        prepared_from(fin2, recipe, parameters),
    ensures
        crate::recipe::recipe_problem(fin1) == crate::recipe::recipe_problem(fin2),
{
    assert forall|j: int| 0 <= j < fin1.steps@.len() implies same_checked_step(#[trigger] fin1.steps@[j], fin2.steps@[j]) by {
        match parameters {
            Some(p) => {
                assert(crate::recipe::substituted_step(recipe.steps@[j], fin1.steps@[j], crate::recipe::params_view(p@)));
                assert(crate::recipe::substituted_step(recipe.steps@[j], fin2.steps@[j], crate::recipe::params_view(p@)));
            },
            None => {
                assert(crate::recipe::same_step(fin1.steps@[j], recipe.steps@[j]));
                assert(crate::recipe::same_step(fin2.steps@[j], recipe.steps@[j]));
            },
        }
    }
    lemma_steps_problem_agree(fin1.steps@, fin2.steps@, 0);
    assert(fin1.browsers@.map_values(|s: String| s@) == fin2.browsers@.map_values(|s: String| s@));
}

proof fn lemma_checked_browsers_resolve(bs: Seq<Seq<char>>)
    requires
        crate::recipe::browsers_problem(bs, 0) is None,
    ensures
        first_unsupported(bs) is None,
{
    assert forall|k: int| 0 <= k < bs.len() implies crate::recipe::recipe_browser_ok(#[trigger] bs[k]) by {
        lemma_browsers_problem_from(bs, 0, k);
    }
    lemma_all_ok_supported(bs);
}

proof fn lemma_browsers_problem_from(bs: Seq<Seq<char>>, i: int, k: int)
    requires
        0 <= i <= k < bs.len(),
        crate::recipe::browsers_problem(bs, i) is None,
    ensures
        crate::recipe::recipe_browser_ok(bs[k]),
    decreases k - i,
{
    if i < k {
        lemma_browsers_problem_from(bs, i + 1, k);
    }
}

proof fn lemma_all_ok_supported(bs: Seq<Seq<char>>)
    requires
        forall|k: int| 0 <= k < bs.len() ==> crate::recipe::recipe_browser_ok(#[trigger] bs[k]),
    ensures
        first_unsupported(bs) is None,
    decreases bs.len(),
{
    if bs.len() > 0 {
        assert forall|k: int| 0 <= k < bs.drop_last().len() implies crate::recipe::recipe_browser_ok(#[trigger] bs.drop_last()[k]) by {
            assert(bs.drop_last()[k] == bs[k]);
        }
        lemma_all_ok_supported(bs.drop_last());
        assert(crate::recipe::recipe_browser_ok(bs[bs.len() - 1]));
    }
}

/// Prepares a recipe for execution: substitutes the parameters if any are
/// given, checks the result and resolves its browsers.  It fails exactly
/// when the substitution fails or the substituted recipe does not pass
/// the recipe check (see `lemma_prepared_problem_unique`).
pub fn prepare_recipe(recipe: &Recipe, parameters: &Option<Vec<(String, String)>>) -> (r: Result<(Recipe, Vec<String>), WebDriverError>)
    ensures
        match r {
            Ok((fin, browsers)) => !substitution_fails(*recipe, *parameters)
                && prepared_from(fin, *recipe, *parameters)
                && crate::recipe::recipe_problem(fin) is None
                && resolved_browsers(fin.browsers@.map_values(|s: String| s@)) == Some(browsers@.map_values(|s: String| s@)),
            Err(e) => e matches WebDriverError::InvalidRecipe(m) && if substitution_fails(*recipe, *parameters) {
                ("Parameter substitution failed: "@ + crate::recipe::substitution_error_prefix()).is_prefix_of(m@)
            } else {
                exists|fin: Recipe| #[trigger] prepared_from(fin, *recipe, *parameters)
                    && (crate::recipe::recipe_problem(fin) matches Some(p) && m@ == "Recipe validation failed: "@ + p)
            },
        },
{
    let fin = match parameters {
        Some(p) => match recipe.substitute_parameters(p) {
            Ok(x) => x,
            Err(e) => {
                proof {
                    reveal_strlit("Parameter substitution failed: ");
                }
                let m = text::concat2("Parameter substitution failed: ", e.as_str());
                assert(("Parameter substitution failed: "@ + crate::recipe::substitution_error_prefix()).is_prefix_of(m@)) by {
                    let a = "Parameter substitution failed: "@;
                    let b = crate::recipe::substitution_error_prefix();
                    assert forall|k: int| 0 <= k < a.len() + b.len() implies (a + b)[k] == m@[k] by {
                        if k >= a.len() {
                            assert(b[k - a.len()] == e@[k - a.len()]);
                        }
                    }
                }
                return Err(WebDriverError::InvalidRecipe(m));
            },
        },
        None => recipe.duplicate(),
    };
    assert(prepared_from(fin, *recipe, *parameters));
    assert(!substitution_fails(*recipe, *parameters));
    match fin.validate() {
        Ok(()) => {},
        Err(e) => {
            return Err(WebDriverError::InvalidRecipe(text::concat2("Recipe validation failed: ", e.as_str())));
        },
    }
    proof {
        lemma_checked_browsers_resolve(fin.browsers@.map_values(|s: String| s@));
        lemma_resolution(fin.browsers@.map_values(|s: String| s@));
    }
    match resolve_browsers(&fin.browsers) {
        Ok(b) => Ok((fin, b)),
        Err(e) => Err(e),
    }
}

/// The suffix of the sessions recipe runs use.
pub open spec fn recipe_session_suffix() -> Seq<char> {
    "_recipe_session"@
}

/// The arguments a step is performed with: its own, with the session it
/// runs in (its own, else the run's) under `session_id`; in a recipe
/// session `<browser>_recipe_session`, every `{{browser}}` in the
/// arguments' text becomes the browser.
pub open spec fn step_arguments_ok(step: RecipeStep, ctx_session: Option<Seq<char>>, r: Result<JsonObject, WebDriverError>) -> bool {
    let sid = match step.session_id { Some(s) => Some(s@), None => ctx_session };
    let base = match sid {
        Some(s) => json::json_entries(step.arguments).insert("session_id"@, JsonEntry::Text(s)),
        None => json::json_entries(step.arguments),
    };
    match ctx_session {
        Some(cs) if recipe_session_suffix().is_suffix_of(cs) => {
            let b = cs.subrange(0, cs.len() - recipe_session_suffix().len());
            exists|m1: JsonObject| json::json_entries(m1) == base && match r {
                Ok(m) => json::json_parse(text::replace_all(json::json_text(m1), "{{browser}}"@, b)) == Some(json::json_entries(m)),
                Err(e) => json::json_parse(text::replace_all(json::json_text(m1), "{{browser}}"@, b)) is None
                    && e is Execution,
            }
        },
        _ => r matches Ok(m) && json::json_entries(m) == base,
    }
}

/// Builds the arguments a step is performed with.
pub fn prepare_step_arguments(step: &RecipeStep, ctx_session: &Option<String>) -> (r: Result<JsonObject, WebDriverError>)
    ensures
        step_arguments_ok(*step, crate::config::opt_view(*ctx_session), r),
{
    let mut args = step.arguments.clone();
    let sid = match &step.session_id {
        Some(s) => Some(s.clone()),
        None => crate::recipe::copy_opt(ctx_session),
    };
    match sid {
        Some(s) => json::json_insert_text(&mut args, text::owned("session_id"), s),
        None => {},
    }
    match ctx_session {
        Some(cs) => {
            if text::ends_with(cs.as_str(), "_recipe_session") {
                proof { reveal_strlit("_recipe_session"); }
                let browser = text::drop_last_chars(cs.as_str(), 15);
                let t = json::json_to_string(&args);
                let t = match t {
                    Ok(t) => t,
                    Err(e) => {
                        return Err(WebDriverError::Execution(text::concat2("Failed to serialize arguments: ", json::json_error_message(&e).as_str())));
                    },
                };
                proof { reveal_strlit("{{browser}}"); }
                let replaced = text::replace(t.as_str(), "{{browser}}", browser.as_str());
                match json::json_from_str(replaced.as_str()) {
                    Ok(m) => Ok(m),
                    Err(e) => Err(WebDriverError::Execution(text::concat2("Failed to deserialize substituted arguments: ", json::json_error_message(&e).as_str()))),
                }
            } else {
                Ok(args)
            }
        },
        None => Ok(args),
    }
}

} // verus!
