//! Filling in a login form through the `login_form` tool.
//!
//! The form is filled field by field: the user name, then the password,
//! then the submit button is clicked.  For each of the three a selector
//! given by the caller is tried alone, and a failure there ends the
//! attempt with a message that names it; without one, a list of common
//! selectors is tried in order until one works.
//!
//! The browser work is done by the caller: `next_action` says what to do
//! next, and `record_fill` / `record_click` take what came of it.

use vstd::prelude::*;
use crate::text;
use crate::json::JsonObject;
use crate::actions;
use crate::actions::{call_text_arg, call_text_argument, extract_session_id};
use crate::text::views;
use crate::config::opt_view;

verus! {

/// The stage of a login attempt.
#[derive(Debug, Clone, Copy, PartialEq, Eq, Structural)]
pub enum LoginField {
    Username,
    Password,
    Submit,
}

/// What came of finding a field, clearing it and typing into it.
#[derive(Debug, Clone)]
pub enum FillOutcome {
    Filled,
    NotFound(String),
    ClearFailed(String),
    TypeFailed(String),
}

/// What came of finding the submit button and clicking it.
#[derive(Debug, Clone)]
pub enum ClickOutcome {
    Clicked,
    NotFound(String),
    ClickFailed(String),
}

/// What the caller is to do next.
#[derive(Debug)]
pub enum LoginAction {
    /// Find the element, clear it and type the value.
    Fill { selector: String, value: String },
    /// Find the element and click it.
    Click { selector: String },
    /// The attempt is over: a success message, or an error message.
    Respond(Result<String, String>),
}

/// The user name selectors tried when the caller gives none.
pub open spec fn default_username_selectors() -> Seq<Seq<char>> {
    seq!["input[type='email']"@, "input[type='text'][name*='user']"@, "input[type='text'][name*='email']"@,
        "input[name='username']"@, "input[name='email']"@, "input[id*='user']"@, "input[id*='email']"@,
        "#username"@, "#email"@, "[placeholder*='email' i]"@, "[placeholder*='username' i]"@]
}

/// The password selectors tried when the caller gives none.
pub open spec fn default_password_selectors() -> Seq<Seq<char>> {
    seq!["input[type='password']"@, "input[name='password']"@, "#password"@, "[placeholder*='password' i]"@]
}

/// The submit selectors tried when the caller gives none.
pub open spec fn default_submit_selectors() -> Seq<Seq<char>> {
    seq!["button[type='submit']"@, "input[type='submit']"@, "button:contains('Sign in')"@,
        "button:contains('Login')"@, "button:contains('Log in')"@, "[role='button']:contains('Sign in')"@,
        "[role='button']:contains('Login')"@, "button"@]
}

/// The default selectors of a stage.
pub open spec fn defaults_of(f: LoginField) -> Seq<Seq<char>> {
    match f {
        LoginField::Username => default_username_selectors(),
        LoginField::Password => default_password_selectors(),
        LoginField::Submit => default_submit_selectors(),
    }
}

/// The stage after a stage that succeeded.
pub open spec fn next_field(f: LoginField) -> LoginField {
    match f {
        LoginField::Username => LoginField::Password,
        _ => LoginField::Submit,
    }
}

/// How many selectors the stages after `f` can try at most.
pub open spec fn later_tries(f: LoginField) -> nat {
    match f {
        LoginField::Username => default_password_selectors().len() + default_submit_selectors().len(),
        LoginField::Password => default_submit_selectors().len(),
        LoginField::Submit => 0,
    }
}

/// The name a field goes by in messages.
pub open spec fn field_word(f: LoginField) -> Seq<char> {
    match f {
        LoginField::Username => "username"@,
        _ => "password"@,
    }
}

/// The message when a field given by the caller's selector fails.
pub open spec fn fill_failure_text(f: LoginField, selector: Seq<char>, o: FillOutcome) -> Seq<char> {
    match o {
        FillOutcome::NotFound(e) => "Failed to find "@ + field_word(f) + " field with custom selector '"@ + selector + "': "@ + e@,
        FillOutcome::ClearFailed(e) => "Failed to clear "@ + field_word(f) + " field '"@ + selector + "': "@ + e@,
        FillOutcome::TypeFailed(e) => "Failed to fill "@ + field_word(f) + " field '"@ + selector + "': "@ + e@,
        FillOutcome::Filled => Seq::empty(),
    }
}

/// The message when no default selector of a stage worked.
pub open spec fn exhausted_text(f: LoginField) -> Seq<char> {
    match f {
        LoginField::Username => "Could not find username/email field. Try providing a custom username_selector"@,
        LoginField::Password => "Could not find password field. Try providing a custom password_selector"@,
        LoginField::Submit => "Could not find submit button. Try providing a custom submit_selector"@,
    }
}

/// The message when the submit button given by the caller's selector
/// fails.
pub open spec fn click_failure_text(selector: Seq<char>, o: ClickOutcome) -> Seq<char> {
    match o {
        ClickOutcome::NotFound(e) => "Failed to find submit button with custom selector '"@ + selector + "': "@ + e@,
        ClickOutcome::ClickFailed(e) => "Login form filled but failed to click submit button. Error: "@ + e@,
        ClickOutcome::Clicked => Seq::empty(),
    }
}

/// The message of a submitted form.
pub open spec fn submitted_text(session: Seq<char>) -> Seq<char> {
    "Successfully filled login form and submitted (session: "@ + session + ")"@
}

/// The values a login attempt works with, as read from the tool's
/// arguments.
#[derive(Debug, Clone)]
pub struct LoginArguments {
    pub username: String,
    pub password: String,
    pub username_selector: Option<String>,
    pub password_selector: Option<String>,
    pub submit_selector: Option<String>,
    pub session_id: Option<String>,
}

/// Reads the arguments of a login: `username` and `password` are
/// required, in that order; the three selectors and the session are
/// optional.
pub fn login_arguments(args: &Option<JsonObject>) -> (r: Result<LoginArguments, String>)
    ensures
        match (call_text_arg(*args, "username"@), call_text_arg(*args, "password"@)) {
            (Some(u), Some(p)) => r matches Ok(a) && a.username@ == u && a.password@ == p
                && opt_view(a.username_selector) == call_text_arg(*args, "username_selector"@)
                && opt_view(a.password_selector) == call_text_arg(*args, "password_selector"@)
                && opt_view(a.submit_selector) == call_text_arg(*args, "submit_selector"@)
                && opt_view(a.session_id) == call_text_arg(*args, "session_id"@),
            (None, _) => r matches Err(m) && m@ == "username parameter required"@,
            (Some(_), None) => r matches Err(m) && m@ == "password parameter required"@,
        },
{
    let username = match call_text_argument(args, "username") {
        Some(u) => u,
        None => { return Err(text::owned("username parameter required")); },
    };
    let password = match call_text_argument(args, "password") {
        Some(p) => p,
        None => { return Err(text::owned("password parameter required")); },
    };
    Ok(LoginArguments {
        username,
        password,
        username_selector: call_text_argument(args, "username_selector"),
        password_selector: call_text_argument(args, "password_selector"),
        submit_selector: call_text_argument(args, "submit_selector"),
        session_id: extract_session_id(args),
    })
}

/// Turns a list of literals into owned strings.
fn owned_list(items: &[&str]) -> (r: Vec<String>)
    ensures
        r@.len() == items@.len(),
        forall|i: int| 0 <= i < items@.len() ==> #[trigger] r@[i]@ == items@[i]@,
{
    let mut r: Vec<String> = Vec::new();
    let mut i: usize = 0;
    while i < items.len()
        invariant
            i <= items@.len(),
            r@.len() == i,
            forall|j: int| 0 <= j < i ==> #[trigger] r@[j]@ == items@[j]@,
        decreases items@.len() - i,
    {
        r.push(text::owned(items[i]));
        i = i + 1;
    }
    r
}

/// The default user name selectors.
pub fn default_username_selector_list() -> (r: Vec<String>)
    ensures
        views(r@) == default_username_selectors(),
{
    let items: [&str; 11] = ["input[type='email']", "input[type='text'][name*='user']",
        "input[type='text'][name*='email']", "input[name='username']", "input[name='email']",
        "input[id*='user']", "input[id*='email']", "#username", "#email", "[placeholder*='email' i]",
        "[placeholder*='username' i]"];
    let r = owned_list(&items);
    assert(views(r@) =~= default_username_selectors());
    r
}

/// The default password selectors.
pub fn default_password_selector_list() -> (r: Vec<String>)
    ensures
        views(r@) == default_password_selectors(),
{
    let items: [&str; 4] = ["input[type='password']", "input[name='password']", "#password",
        "[placeholder*='password' i]"];
    let r = owned_list(&items);
    assert(views(r@) =~= default_password_selectors());
    r
}

/// The default submit selectors.
pub fn default_submit_selector_list() -> (r: Vec<String>)
    ensures
        views(r@) == default_submit_selectors(),
{
    let items: [&str; 8] = ["button[type='submit']", "input[type='submit']", "button:contains('Sign in')",
        "button:contains('Login')", "button:contains('Log in')", "[role='button']:contains('Sign in')",
        "[role='button']:contains('Login')", "button"];
    let r = owned_list(&items);
    assert(views(r@) =~= default_submit_selectors());
    r
}

/// A login attempt in progress.
pub struct LoginForm {
    args: LoginArguments,
    session: String,
    username_defaults: Vec<String>,
    password_defaults: Vec<String>,
    submit_defaults: Vec<String>,
    stage: LoginField,
    index: usize,
    outcome: Option<Result<String, String>>,
}

impl LoginForm {
    /// The user name typed in.
    pub closed spec fn username(&self) -> Seq<char> { self.args.username@ }
    /// The password typed in.
    pub closed spec fn password(&self) -> Seq<char> { self.args.password@ }
    /// The session the form is filled in.
    pub closed spec fn session(&self) -> Seq<char> { self.session@ }
    /// The stage the attempt is at.
    pub closed spec fn stage(&self) -> LoginField { self.stage }
    /// Which default selector of the stage is tried next.
    pub closed spec fn index(&self) -> nat { self.index as nat }
    /// How the attempt ended, once it has: a success or an error message.
    pub closed spec fn outcome(&self) -> Option<Result<Seq<char>, Seq<char>>> {
        match self.outcome {
            Some(o) => Some(result_view(o)),
            None => None,
        }
    }

    /// The selector the caller gave for a stage.
    pub closed spec fn custom(&self, f: LoginField) -> Option<Seq<char>> {
        match f {
            LoginField::Username => opt_view(self.args.username_selector),
            LoginField::Password => opt_view(self.args.password_selector),
            LoginField::Submit => opt_view(self.args.submit_selector),
        }
    }

    /// The selector tried at the current point.
    pub open spec fn selector(&self) -> Seq<char> {
        match self.custom(self.stage()) {
            Some(s) => s,
            None => defaults_of(self.stage())[self.index() as int],
        }
    }

    /// How many more selectors the attempt can try at most: the untried
    /// ones of the current stage and all of the later stages.
    pub open spec fn tries_left(&self) -> nat {
        ((defaults_of(self.stage()).len() - self.index()) as nat) + later_tries(self.stage())
    }

    /// The attempt's invariant: with a selector of the caller only it is
    /// tried; otherwise the index stays within the defaults.
    pub open spec fn wf(&self) -> bool {
        &&& self.lists_ok()
        &&& self.custom(self.stage()) is Some ==> self.index() == 0
        &&& self.custom(self.stage()) is None ==> self.index() < defaults_of(self.stage()).len()
    }

    /// The default selector lists are the ones above.
    pub closed spec fn lists_ok(&self) -> bool {
        &&& views(self.username_defaults@) == default_username_selectors()
        &&& views(self.password_defaults@) == default_password_selectors()
        &&& views(self.submit_defaults@) == default_submit_selectors()
    }

    /// Starts an attempt in a session, at the user name.
    pub fn new(args: LoginArguments, session: String) -> (r: LoginForm)
        ensures
            r.wf(),
            r.username() == args.username@,
            r.password() == args.password@,
            r.session() == session@,
            r.custom(LoginField::Username) == opt_view(args.username_selector),
            r.custom(LoginField::Password) == opt_view(args.password_selector),
            r.custom(LoginField::Submit) == opt_view(args.submit_selector),
            r.stage() == LoginField::Username,
            r.index() == 0,
            r.outcome() is None,
    {
        LoginForm {
            args,
            session,
            username_defaults: default_username_selector_list(),
            password_defaults: default_password_selector_list(),
            submit_defaults: default_submit_selector_list(),
            stage: LoginField::Username,
            index: 0,
            outcome: None,
        }
    }

    fn current_selector(&self) -> (r: String)
        requires
            self.wf(),
        ensures
            r@ == self.selector(),
    {
        match self.stage {
            LoginField::Username => match &self.args.username_selector {
                Some(s) => s.clone(),
                None => {
                    assert(views(self.username_defaults@)[self.index as int] == self.username_defaults@[self.index as int]@);
                    self.username_defaults[self.index].clone()
                },
            },
            LoginField::Password => match &self.args.password_selector {
                Some(s) => s.clone(),
                None => {
                    assert(views(self.password_defaults@)[self.index as int] == self.password_defaults@[self.index as int]@);
                    self.password_defaults[self.index].clone()
                },
            },
            LoginField::Submit => match &self.args.submit_selector {
                Some(s) => s.clone(),
                None => {
                    assert(views(self.submit_defaults@)[self.index as int] == self.submit_defaults@[self.index as int]@);
                    self.submit_defaults[self.index].clone()
                },
            },
        }
    }

    /// What to do next: the response once the attempt is over; else fill
    /// the current field, or click the submit button, through the
    /// current selector.
    pub fn next_action(&self) -> (r: LoginAction)
        requires
            self.wf(),
        ensures
            match self.outcome() {
                Some(o) => r matches LoginAction::Respond(x) && result_view(x) == o,
                None => match self.stage() {
                    LoginField::Username => r matches LoginAction::Fill { selector, value }
                        && selector@ == self.selector() && value@ == self.username(),
                    LoginField::Password => r matches LoginAction::Fill { selector, value }
                        && selector@ == self.selector() && value@ == self.password(),
                    LoginField::Submit => r matches LoginAction::Click { selector }
                        && selector@ == self.selector(),
                },
            },
    {
        match &self.outcome {
            Some(o) => LoginAction::Respond(clone_response(o)),
            None => {
                let selector = self.current_selector();
                match self.stage {
                    LoginField::Username => LoginAction::Fill { selector, value: self.args.username.clone() },
                    LoginField::Password => LoginAction::Fill { selector, value: self.args.password.clone() },
                    LoginField::Submit => LoginAction::Click { selector },
                }
            },
        }
    }

    /// Takes what came of filling the current field.  Filled: on to the
    /// next stage.  A failure with the caller's selector ends the
    /// attempt with a message naming it; with a default selector the next
    /// one is tried, and when none is left the attempt ends.
    pub fn record_fill(&mut self, outcome: FillOutcome)
        requires
            old(self).wf(),
            old(self).outcome() is None,
            old(self).stage() != LoginField::Submit,
        ensures
            final(self).wf(),
            final(self).outcome() is None ==> final(self).tries_left() < old(self).tries_left(),
            final(self).username() == old(self).username(),
            final(self).password() == old(self).password(),
            final(self).session() == old(self).session(),
            forall|f: LoginField| final(self).custom(f) == old(self).custom(f),
            match outcome {
                FillOutcome::Filled => final(self).stage() == next_field(old(self).stage())
                    && final(self).index() == 0 && final(self).outcome() is None,
                _ => match old(self).custom(old(self).stage()) {
                    Some(s) => final(self).stage() == old(self).stage()
                        && final(self).index() == old(self).index()
                        && final(self).outcome() == Some(Err::<Seq<char>, Seq<char>>(fill_failure_text(old(self).stage(), s, outcome))),
                    None => final(self).stage() == old(self).stage() && if old(self).index() + 1 < defaults_of(old(self).stage()).len() {
                        final(self).index() == old(self).index() + 1 && final(self).outcome() is None
                    } else {
                        final(self).index() == old(self).index()
                            && final(self).outcome() == Some(Err::<Seq<char>, Seq<char>>(exhausted_text(old(self).stage())))
                    },
                },
            },
    {
        match outcome {
            FillOutcome::Filled => {
                self.stage = if matches!(self.stage, LoginField::Username) { LoginField::Password } else { LoginField::Submit };
                self.index = 0;
            },
            _ => {
                let custom = match self.stage {
                    LoginField::Username => clone_opt(&self.args.username_selector),
                    _ => clone_opt(&self.args.password_selector),
                };
                let word = match self.stage {
                    LoginField::Username => "username",
                    _ => "password",
                };
                proof { reveal_strlit("username"); reveal_strlit("password"); }
                match custom {
                    Some(s) => {
                        let m = match &outcome {
                            FillOutcome::NotFound(e) => {
                                let a = text::concat3("Failed to find ", word, " field with custom selector '");
                                let b = text::concat3(a.as_str(), s.as_str(), "': ");
                                text::concat2(b.as_str(), e.as_str())
                            },
                            FillOutcome::ClearFailed(e) => {
                                let a = text::concat3("Failed to clear ", word, " field '");
                                let b = text::concat3(a.as_str(), s.as_str(), "': ");
                                text::concat2(b.as_str(), e.as_str())
                            },
                            FillOutcome::TypeFailed(e) => {
                                let a = text::concat3("Failed to fill ", word, " field '");
                                let b = text::concat3(a.as_str(), s.as_str(), "': ");
                                text::concat2(b.as_str(), e.as_str())
                            },
                            FillOutcome::Filled => String::new(),
                        };
                        self.outcome = Some(Err(m));
                    },
                    None => {
                        let len = match self.stage {
                            LoginField::Username => self.username_defaults.len(),
                            _ => self.password_defaults.len(),
                        };
                        if self.index + 1 < len {
                            self.index = self.index + 1;
                        } else {
                            let m = match self.stage {
                                LoginField::Username => text::owned("Could not find username/email field. Try providing a custom username_selector"),
                                _ => text::owned("Could not find password field. Try providing a custom password_selector"),
                            };
                            self.outcome = Some(Err(m));
                        }
                    },
                }
            },
        }
    }

    /// Takes what came of clicking the submit button.  Clicked: the form
    /// was submitted.  A failure with the caller's selector ends the
    /// attempt with a message naming it; with a default selector the next
    /// one is tried, and when none is left the attempt ends.
    pub fn record_click(&mut self, outcome: ClickOutcome)
        requires
            old(self).wf(),
            old(self).outcome() is None,
            old(self).stage() == LoginField::Submit,
        ensures
            final(self).wf(),
            final(self).outcome() is None ==> final(self).tries_left() < old(self).tries_left(),
            final(self).username() == old(self).username(),
            final(self).password() == old(self).password(),
            final(self).session() == old(self).session(),
            forall|f: LoginField| final(self).custom(f) == old(self).custom(f),
            final(self).stage() == LoginField::Submit,
            match outcome {
                ClickOutcome::Clicked => final(self).index() == old(self).index()
                    && final(self).outcome() == Some(Ok::<Seq<char>, Seq<char>>(submitted_text(old(self).session()))),
                _ => match old(self).custom(LoginField::Submit) {
                    Some(s) => final(self).index() == old(self).index()
                        && final(self).outcome() == Some(Err::<Seq<char>, Seq<char>>(click_failure_text(s, outcome))),
                    None => if old(self).index() + 1 < default_submit_selectors().len() {
                        final(self).index() == old(self).index() + 1 && final(self).outcome() is None
                    } else {
                        final(self).index() == old(self).index()
                            && final(self).outcome() == Some(Err::<Seq<char>, Seq<char>>(exhausted_text(LoginField::Submit)))
                    },
                },
            },
    {
        match outcome {
            ClickOutcome::Clicked => {
                let m = text::concat3("Successfully filled login form and submitted (session: ", self.session.as_str(), ")");
                self.outcome = Some(Ok(m));
            },
            _ => {
                match clone_opt(&self.args.submit_selector) {
                    Some(s) => {
                        let m = match &outcome {
                            ClickOutcome::NotFound(e) => {
                                let a = text::concat3("Failed to find submit button with custom selector '", s.as_str(), "': ");
                                text::concat2(a.as_str(), e.as_str())
                            },
                            ClickOutcome::ClickFailed(e) => text::concat2("Login form filled but failed to click submit button. Error: ", e.as_str()),
                            ClickOutcome::Clicked => String::new(),
                        };
                        self.outcome = Some(Err(m));
                    },
                    None => {
                        if self.index + 1 < self.submit_defaults.len() {
                            self.index = self.index + 1;
                        } else {
                            self.outcome = Some(Err(text::owned("Could not find submit button. Try providing a custom submit_selector")));
                        }
                    },
                }
            },
        }
    }
}

/// A login attempt ends: it starts with at most 23 tries left, and every
/// recorded outcome that does not end it uses one up (see `record_fill`
/// and `record_click`), so it ends after at most 23 recorded outcomes.
pub proof fn lemma_attempt_bounded(form: LoginForm)
    requires
        form.wf(),
    ensures
        form.tries_left() <= 23,
        form.stage() == LoginField::Username && form.index() == 0 ==> form.tries_left() == 23,
{
}

fn clone_opt(o: &Option<String>) -> (r: Option<String>)
    ensures
        opt_view(r) == opt_view(*o),
{
    match o {
        Some(s) => Some(s.clone()),
        None => None,
    }
}

/// The texts of a response.
pub open spec fn result_view(o: Result<String, String>) -> Result<Seq<char>, Seq<char>> {
    match o {
        Ok(s) => Ok(s@),
        Err(s) => Err(s@),
    }
}

fn clone_response(o: &Result<String, String>) -> (r: Result<String, String>)
    ensures
        result_view(r) == result_view(*o),
{
    match o {
        Ok(s) => Ok(s.clone()),
        Err(s) => Err(s.clone()),
    }
}

} // verus!
