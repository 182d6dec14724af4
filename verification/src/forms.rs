//! Filling in and submitting a form through the `fill_and_submit_form`
//! tool.
//!
//! Each field named by a CSS selector is found, cleared and typed into, in
//! order; then the submit element is found and clicked.  The first failure
//! ends the attempt with a message that names what failed.
//!
//! The browser work is done by the caller: `next_action` says what to do
//! next, and `record_find`, `record_clear`, `record_fill` and
//! `record_click` take what came of it.

use vstd::prelude::*;
use crate::text;
use crate::json;
use crate::json::{JsonEntry, JsonObject};
use crate::actions::{call_text_arg, call_text_argument, extract_session_id};
use crate::config::opt_view;

verus! {

/// The object a tool call holds under a key, its entries read as strings.
pub open spec fn call_object(args: Option<JsonObject>, key: Seq<char>) -> Option<Map<Seq<char>, Option<Seq<char>>>> {
    match args {
        Some(m) => {
            let e = json::json_entries(m);
            if e.dom().contains(key) && e[key] is Object {
                Some(e[key]->Object_0)
            } else {
                None
            }
        },
        None => None,
    }
}

/// Whether `f` lists the fields of `o` that hold text, each once, with
/// their text.
pub open spec fn text_fields_of(o: Map<Seq<char>, Option<Seq<char>>>, f: Seq<(String, String)>) -> bool {
    &&& forall|i: int| 0 <= i < f.len() ==> #[trigger] o.dom().contains(f[i].0@) && o[f[i].0@] == Some(f[i].1@)
    &&& forall|k: Seq<char>| #[trigger] o.dom().contains(k) && o[k] is Some
        ==> exists|i: int| 0 <= i < f.len() && f[i].0@ == k
    &&& forall|i: int, j: int| 0 <= i < j < f.len() ==> f[i].0@ != f[j].0@
}

/// What a form submission asks for.
#[derive(Debug, Clone)]
pub struct FormArguments {
    /// The fields to fill: selector and text, in the order the call's
    /// object is walked.
    pub fields: Vec<(String, String)>,
    pub submit_selector: String,
    pub session_id: Option<String>,
}

/// Reads the arguments of a form submission: `fields` (an object from
/// selector to text; fields that do not hold text are left out) and
/// `submit_selector` are required, in that order; the session is optional.
pub fn form_arguments(args: &Option<JsonObject>) -> (r: Result<FormArguments, String>)
    ensures
        match call_object(*args, "fields"@) {
            None => r matches Err(m) && m@ == "fields parameter required"@,
            Some(o) => match call_text_arg(*args, "submit_selector"@) {
                None => r matches Err(m) && m@ == "submit_selector parameter required"@,
                Some(s) => r matches Ok(a) && text_fields_of(o, a.fields@) && a.submit_selector@ == s
                    && opt_view(a.session_id) == call_text_arg(*args, "session_id"@),
            },
        },
{
    let items = match args {
        Some(m) => json::json_get_object_items(m, "fields"),
        None => None,
    };
    let items = match items {
        Some(v) => v,
        None => {
            return Err(text::owned("fields parameter required"));
        },
    };
    let submit_selector = match call_text_argument(args, "submit_selector") {
        Some(s) => s,
        None => {
            return Err(text::owned("submit_selector parameter required"));
        },
    };
    let ghost o = call_object(*args, "fields"@)->0;
    let mut fields: Vec<(String, String)> = Vec::new();
    let ghost mut idx: Seq<int> = Seq::empty();
    let mut i: usize = 0;
    while i < items.len()
        invariant
            i <= items@.len(),
            call_object(*args, "fields"@) == Some(o),
            forall|j: int| 0 <= j < items@.len() ==> #[trigger] o.dom().contains(items@[j].0@)
                && o[items@[j].0@] == (match items@[j].1 { Some(s) => Some(s@), None => None::<Seq<char>> }),
            forall|j: int, k: int| 0 <= j < k < items@.len() ==> items@[j].0@ != items@[k].0@,
            idx.len() == fields@.len(),
            forall|t: int| 0 <= t < idx.len() ==> 0 <= #[trigger] idx[t] < i && items@[idx[t]].0@ == fields@[t].0@,
            forall|t: int, u: int| 0 <= t < u < idx.len() ==> idx[t] < idx[u],
            forall|t: int| 0 <= t < fields@.len() ==> #[trigger] o.dom().contains(fields@[t].0@) && o[fields@[t].0@] == Some(fields@[t].1@),
            forall|j: int| 0 <= j < i && (#[trigger] items@[j]).1 is Some ==> exists|t: int| 0 <= t < fields@.len() && fields@[t].0@ == items@[j].0@,
        decreases items@.len() - i,
    {
        match &items[i].1 {
            Some(v) => {
                let ghost before = fields@;
                fields.push((items[i].0.clone(), v.clone()));
                proof {
                    idx = idx.push(i as int);
                    assert forall|j: int| 0 <= j < i && (#[trigger] items@[j]).1 is Some implies
                        exists|t: int| 0 <= t < fields@.len() && fields@[t].0@ == items@[j].0@ by {
                        let t = choose|t: int| 0 <= t < before.len() && before[t].0@ == items@[j].0@;
                        assert(fields@[t] == before[t]);
                    }
                    assert(fields@[fields@.len() - 1].0@ == items@[i as int].0@);
                }
            },
            None => {},
        }
        i = i + 1;
    }
    proof {
        assert forall|k: Seq<char>| #[trigger] o.dom().contains(k) && o[k] is Some
            implies exists|t: int| 0 <= t < fields@.len() && fields@[t].0@ == k by {
            let j = choose|j: int| 0 <= j < items@.len() && items@[j].0@ == k;
            assert(items@[j].1 is Some);
        }
        assert forall|t: int, u: int| 0 <= t < u < fields@.len() implies fields@[t].0@ != fields@[u].0@ by {
            assert(idx[t] < idx[u]);
        }
    }
    Ok(FormArguments { fields, submit_selector, session_id: extract_session_id(args) })
}

/// The step a form submission is at.
#[derive(Debug, Clone, Copy, PartialEq, Eq, Structural)]
pub enum FormPhase {
    /// Find the current field.
    Find,
    /// Clear the current field.
    Clear,
    /// Type the current field's text.
    Fill,
    /// Find the submit element.
    FindSubmit,
    /// Click the submit element.
    Click,
}

/// What the caller is to do next.
#[derive(Debug)]
pub enum FormAction {
    /// Find the element of this selector.
    Find { selector: String },
    /// Clear the element found last.
    Clear { selector: String },
    /// Type the text into the element found last.
    Type { selector: String, value: String },
    /// Click the element found last.
    Click { selector: String },
    /// The attempt is over: a success message, or an error message.
    Respond(Result<String, String>),
}

/// The selectors of a field list, joined with `, `.
pub open spec fn comma_joined(f: Seq<(String, String)>) -> Seq<char>
    decreases f.len(),
{
    if f.len() == 0 {
        Seq::empty()
    } else if f.len() == 1 {
        f[0].0@
    } else {
        comma_joined(f.drop_last()) + ", "@ + f.last().0@
    }
}

/// The success reply: how many fields were filled, the session and the
/// fields.
pub open spec fn submitted_text(f: Seq<(String, String)>, session: Seq<char>) -> Seq<char> {
    "Successfully filled "@ + text::decimal(f.len()) + " fields and submitted form (session: "@ + session
        + "). Fields: "@ + comma_joined(f)
}

/// The texts of a reply.
pub open spec fn reply_view(o: Result<String, String>) -> Result<Seq<char>, Seq<char>> {
    match o {
        Ok(s) => Ok(s@),
        Err(s) => Err(s@),
    }
}

/// A form submission in progress.
pub struct FormFill {
    fields: Vec<(String, String)>,
    submit: String,
    session: String,
    index: usize,
    phase: FormPhase,
    outcome: Option<Result<String, String>>,
}

impl FormFill {
    /// The fields to fill.
    pub closed spec fn fields(&self) -> Seq<(String, String)> { self.fields@ }
    /// The submit selector.
    pub closed spec fn submit(&self) -> Seq<char> { self.submit@ }
    /// The session the form is filled in.
    pub closed spec fn session(&self) -> Seq<char> { self.session@ }
    /// The field being worked on.
    pub closed spec fn index(&self) -> nat { self.index as nat }
    /// The step at that field.
    pub closed spec fn phase(&self) -> FormPhase { self.phase }
    /// How the attempt ended, once it has.
    pub closed spec fn outcome(&self) -> Option<Result<Seq<char>, Seq<char>>> {
        match self.outcome {
            Some(o) => Some(reply_view(o)),
            None => None,
        }
    }

    /// The selector of the current field.
    pub open spec fn field_selector(&self) -> Seq<char> {
        self.fields()[self.index() as int].0@
    }

    /// The steps of a field are taken while fields remain; the submit
    /// steps come after the last field.
    pub open spec fn wf(&self) -> bool {
        &&& self.index() <= self.fields().len()
        &&& (self.phase() == FormPhase::Find || self.phase() == FormPhase::Clear || self.phase() == FormPhase::Fill)
            ==> self.index() < self.fields().len()
        &&& (self.phase() == FormPhase::FindSubmit || self.phase() == FormPhase::Click)
            ==> self.index() == self.fields().len()
    }

    /// Starts a submission in a session, at the first field (or at the
    /// submit element when there is none).
    pub fn new(args: FormArguments, session: String) -> (r: FormFill)
        ensures
            r.wf(),
            r.fields() == args.fields@,
            r.submit() == args.submit_selector@,
            r.session() == session@,
            r.index() == 0,
            r.phase() == (if args.fields@.len() == 0 { FormPhase::FindSubmit } else { FormPhase::Find }),
            r.outcome() is None,
    {
        let phase = if args.fields.len() == 0 { FormPhase::FindSubmit } else { FormPhase::Find };
        FormFill { fields: args.fields, submit: args.submit_selector, session, index: 0, phase, outcome: None }
    }

    /// What to do next: the reply once the attempt is over; else the step
    /// of the current field, or of the submit element.
    pub fn next_action(&self) -> (r: FormAction)
        requires
            self.wf(),
        ensures
            match self.outcome() {
                Some(o) => r matches FormAction::Respond(x) && reply_view(x) == o,
                None => match self.phase() {
                    FormPhase::Find => r matches FormAction::Find { selector } && selector@ == self.field_selector(),
                    FormPhase::Clear => r matches FormAction::Clear { selector } && selector@ == self.field_selector(),
                    FormPhase::Fill => r matches FormAction::Type { selector, value } && selector@ == self.field_selector()
                        && value@ == self.fields()[self.index() as int].1@,
                    FormPhase::FindSubmit => r matches FormAction::Find { selector } && selector@ == self.submit(),
                    FormPhase::Click => r matches FormAction::Click { selector } && selector@ == self.submit(),
                },
            },
    {
        match &self.outcome {
            Some(Ok(m)) => FormAction::Respond(Ok(m.clone())),
            Some(Err(m)) => FormAction::Respond(Err(m.clone())),
            None => match self.phase {
                FormPhase::Find => FormAction::Find { selector: self.fields[self.index].0.clone() },
                FormPhase::Clear => FormAction::Clear { selector: self.fields[self.index].0.clone() },
                FormPhase::Fill => FormAction::Type {
                    selector: self.fields[self.index].0.clone(),
                    value: self.fields[self.index].1.clone(),
                },
                FormPhase::FindSubmit => FormAction::Find { selector: self.submit.clone() },
                FormPhase::Click => FormAction::Click { selector: self.submit.clone() },
            },
        }
    }

    /// Takes what came of finding the current field or the submit element.
    pub fn record_find(&mut self, found: Result<(), String>)
        requires
            old(self).wf(),
            old(self).outcome() is None,
            old(self).phase() == FormPhase::Find || old(self).phase() == FormPhase::FindSubmit,
        ensures
            final(self).wf(),
            final(self).fields() == old(self).fields(),
            final(self).submit() == old(self).submit(),
            final(self).session() == old(self).session(),
            final(self).index() == old(self).index(),
            match found {
                Ok(()) => final(self).outcome() is None && final(self).phase()
                    == (if old(self).phase() == FormPhase::Find { FormPhase::Clear } else { FormPhase::Click }),
                Err(e) => final(self).phase() == old(self).phase() && final(self).outcome() == Some(Err::<Seq<char>, Seq<char>>(
                    if old(self).phase() == FormPhase::Find {
                        "Failed to find field '"@ + old(self).field_selector() + "': "@ + e@
                    } else {
                        "Failed to find submit element '"@ + old(self).submit() + "': "@ + e@
                    })),
            },
    {
        match found {
            Ok(()) => {
                self.phase = if matches!(self.phase, FormPhase::Find) { FormPhase::Clear } else { FormPhase::Click };
            },
            Err(e) => {
                let m = if matches!(self.phase, FormPhase::Find) {
                    let a = text::concat3("Failed to find field '", self.fields[self.index].0.as_str(), "': ");
                    text::concat2(a.as_str(), e.as_str())
                } else {
                    let a = text::concat3("Failed to find submit element '", self.submit.as_str(), "': ");
                    text::concat2(a.as_str(), e.as_str())
                };
                self.outcome = Some(Err(m));
            },
        }
    }

    /// Takes what came of clearing the current field.
    pub fn record_clear(&mut self, cleared: Result<(), String>)
        requires
            old(self).wf(),
            old(self).outcome() is None,
            old(self).phase() == FormPhase::Clear,
        ensures
            final(self).wf(),
            final(self).fields() == old(self).fields(),
            final(self).submit() == old(self).submit(),
            final(self).session() == old(self).session(),
            final(self).index() == old(self).index(),
            match cleared {
                Ok(()) => final(self).outcome() is None && final(self).phase() == FormPhase::Fill,
                Err(e) => final(self).phase() == FormPhase::Clear && final(self).outcome()
                    == Some(Err::<Seq<char>, Seq<char>>("Failed to clear field '"@ + old(self).field_selector() + "': "@ + e@)),
            },
    {
        match cleared {
            Ok(()) => {
                self.phase = FormPhase::Fill;
            },
            Err(e) => {
                let a = text::concat3("Failed to clear field '", self.fields[self.index].0.as_str(), "': ");
                self.outcome = Some(Err(text::concat2(a.as_str(), e.as_str())));
            },
        }
    }

    /// Takes what came of typing into the current field: on success the
    /// next field, or the submit element after the last.
    pub fn record_fill(&mut self, typed: Result<(), String>)
        requires
            old(self).wf(),
            old(self).outcome() is None,
            old(self).phase() == FormPhase::Fill,
        ensures
            final(self).wf(),
            final(self).fields() == old(self).fields(),
            final(self).submit() == old(self).submit(),
            final(self).session() == old(self).session(),
            match typed {
                Ok(()) => final(self).outcome() is None && final(self).index() == old(self).index() + 1
                    && final(self).phase() == (if old(self).index() + 1 < old(self).fields().len() {
                        FormPhase::Find
                    } else {
                        FormPhase::FindSubmit
                    }),
                Err(e) => final(self).phase() == FormPhase::Fill && final(self).index() == old(self).index()
                    && final(self).outcome()
                    == Some(Err::<Seq<char>, Seq<char>>("Failed to fill field '"@ + old(self).field_selector() + "': "@ + e@)),
            },
    {
        match typed {
            Ok(()) => {
                let n = self.fields.len();
                assert(self.index < n);
                self.index = self.index + 1;
                self.phase = if self.index < self.fields.len() { FormPhase::Find } else { FormPhase::FindSubmit };
            },
            Err(e) => {
                let a = text::concat3("Failed to fill field '", self.fields[self.index].0.as_str(), "': ");
                self.outcome = Some(Err(text::concat2(a.as_str(), e.as_str())));
            },
        }
    }

    /// Takes what came of clicking the submit element; either way the
    /// attempt is over.
    pub fn record_click(&mut self, clicked: Result<(), String>)
        requires
            old(self).wf(),
            old(self).outcome() is None,
            old(self).phase() == FormPhase::Click,
        ensures
            final(self).wf(),
            final(self).fields() == old(self).fields(),
            final(self).submit() == old(self).submit(),
            final(self).session() == old(self).session(),
            final(self).index() == old(self).index(),
            final(self).phase() == FormPhase::Click,
            match clicked {
                Ok(()) => final(self).outcome()
                    == Some(Ok::<Seq<char>, Seq<char>>(submitted_text(old(self).fields(), old(self).session()))),
                Err(e) => final(self).outcome() == Some(Err::<Seq<char>, Seq<char>>("Failed to submit form: "@ + e@)),
            },
    {
        match clicked {
            Ok(()) => {
                let n = text::decimal_string(self.fields.len() as u64);
                let joined = join_selectors(&self.fields);
                let a = text::concat3("Successfully filled ", n.as_str(), " fields and submitted form (session: ");
                let b = text::concat3(a.as_str(), self.session.as_str(), "). Fields: ");
                self.outcome = Some(Ok(text::concat2(b.as_str(), joined.as_str())));
            },
            Err(e) => {
                self.outcome = Some(Err(text::concat2("Failed to submit form: ", e.as_str())));
            },
        }
    }
}

/// Joins the selectors of a field list with `, `.
fn join_selectors(f: &Vec<(String, String)>) -> (r: String)
    ensures
        r@ == comma_joined(f@),
{
    let mut r = String::new();
    let mut i: usize = 0;
    while i < f.len()
        invariant
            i <= f@.len(),
            r@ == comma_joined(f@.take(i as int)),
        decreases f@.len() - i,
    {
        let ghost before = f@.take(i as int);
        let ghost after = f@.take(i + 1);
        assert(after.drop_last() == before);
        if i > 0 {
            r.append(", ");
        }
        r.append(f[i].0.as_str());
        i = i + 1;
    }
    assert(f@.take(f@.len() as int) == f@);
    r
}

} // verus!
