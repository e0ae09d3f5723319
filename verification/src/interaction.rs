//! Progress events and the interface through which workflows talk to the user.

use vstd::prelude::*;
use crate::error::TossError;
use crate::lines::string_views;

verus! {

/// Something a workflow reports while it runs.
#[derive(Debug, Clone)]
pub enum WorkflowEvent {
    Warning { message: String },
    Building { project: String, scheme: String, device_udid: String },
    BuildSucceeded,
    Installing { app_path: String, device_name: String },
    Launching { bundle_id: String, device_name: String },
    Signing { ipa_name: String, device_name: String },
    ExtractedBundle { bundle_id: String, app_name: String },
    UsingIdentity { identity_name: String },
    SigningPlanStep {
        kind: String,
        original_bundle_id: String,
        final_bundle_id: String,
        profile_name: String,
    },
    TemporaryBundleId { original_bundle_id: String, temporary_bundle_id: String },
    AutoProvisioning { kind: String, bundle_id: String, device_udid: String },
    BundleIdRewritten { from: String, to: String },
    CleanedTemporaryProfiles { count: usize },
}

/// One exchange between a workflow and its front end.
pub enum Exchange {
    /// An event was shown, and the front end answered `answer`.
    Shown { event: WorkflowEvent, answer: Result<(), TossError> },
    /// The user was asked to pick one of `items` (their texts) under
    /// `prompt`, `default` preselected, and the front end answered `answer`.
    Asked { prompt: Seq<char>, items: Seq<Seq<char>>, default: usize, answer: Result<Option<usize>, TossError> },
}

/// The front end a workflow runs under (plain command line, interactive
/// prompts, or a terminal UI). Implemented by the users of the library.
pub trait WorkflowAdapter {
    /// The exchanges with the front end so far, oldest first: a model of the
    /// front end, of which verified code knows only what the contracts of
    /// `emit` and `select_index` say. The body is there for front ends
    /// written outside Verus, which keep no such record; verified code, being
    /// generic over the front end, never reads it.
    closed spec fn log(&self) -> Seq<Exchange> {
        Seq::empty()
    }

    /// Shows a progress event.
    fn emit(&mut self, event: WorkflowEvent) -> (r: Result<(), TossError>)
        ensures
            final(self).log() == old(self).log().push(shown(event, r)),
    ;

    /// Asks the user to pick one of `items`; `Ok(None)` when the front end
    /// cannot ask. An implementation answers with a position inside `items`.
    fn select_index(&mut self, prompt: &str, items: &[String], default: usize) -> (r: Result<
        Option<usize>,
        TossError,
    >)
        ensures
            r matches Ok(Some(i)) ==> i < items@.len(),
            final(self).log() == old(self).log().push(asked_with(prompt@, string_views(items@), default, r)),
    ;
}

/// An event shown, with the front end's answer.
pub open spec fn shown(event: WorkflowEvent, answer: Result<(), TossError>) -> Exchange {
    Exchange::Shown { event, answer }
}

/// A question asked, with the texts of the items offered and the front end's
/// answer.
pub open spec fn asked_with(prompt: Seq<char>, items: Seq<Seq<char>>, default: usize, answer: Result<Option<usize>, TossError>) -> Exchange {
    Exchange::Asked { prompt, items, default, answer }
}

/// A question asked with the first item preselected, as the workflows ask.
pub open spec fn asked(prompt: Seq<char>, items: Seq<Seq<char>>, answer: Result<Option<usize>, TossError>) -> Exchange {
    asked_with(prompt, items, 0, answer)
}

/// The front end's answer to the question at position `k` of a log.
pub open spec fn answer_at(log: Seq<Exchange>, k: int) -> Result<Option<usize>, TossError> {
    match log[k] {
        Exchange::Asked { answer, .. } => answer,
        Exchange::Shown { .. } => Ok(None),
    }
}

/// The front end's answer to the event shown at position `k` of a log.
pub open spec fn reply_at(log: Seq<Exchange>, k: int) -> Result<(), TossError> {
    match log[k] {
        Exchange::Shown { answer, .. } => answer,
        Exchange::Asked { .. } => Ok(()),
    }
}

/// From log `before` to log `after`, the user was asked to pick one of
/// `items` (their texts) under `prompt` and nothing else happened.
pub open spec fn asks(before: Seq<Exchange>, after: Seq<Exchange>, prompt: Seq<char>, items: Seq<Seq<char>>) -> bool {
    after == before.push(asked(prompt, items, answer_at(after, before.len() as int)))
}

/// The front end's answer to the last exchange of a log, a question asked.
pub open spec fn last_answer(after: Seq<Exchange>) -> Result<Option<usize>, TossError> {
    answer_at(after, after.len() - 1)
}

/// The front end's answer to the last exchange of a log, an event shown.
pub open spec fn last_reply(after: Seq<Exchange>) -> Result<(), TossError> {
    reply_at(after, after.len() - 1)
}

/// From log `before` to log `after`, the front end was shown a warning with
/// message `msg` and nothing else happened.
pub open spec fn warns(before: Seq<Exchange>, after: Seq<Exchange>, msg: Seq<char>) -> bool {
    &&& after.len() == before.len() + 1
    &&& after.drop_last() == before
    &&& after.last() matches Exchange::Shown { event: WorkflowEvent::Warning { message }, .. } && message@ == msg
}


/// What a chooser's answer amounts to: the picked position, or `error` when
/// the user could not be asked, or the front end's own failure.
pub open spec fn pick_spec(choice: Result<Option<usize>, TossError>, error: TossError) -> Result<usize, TossError> {
    match choice {
        Ok(Some(i)) => Ok(i),
        Ok(None) => Err(error),
        Err(e) => Err(e),
    }
}

/// Turns a chooser's answer into a position or an error.
pub fn pick(choice: Result<Option<usize>, TossError>, error: TossError) -> (r: Result<usize, TossError>)
    ensures
        r == pick_spec(choice, error),
{
    match choice {
        Ok(Some(i)) => Ok(i),
        Ok(None) => Err(error),
        Err(e) => Err(e),
    }
}

/// Asks the user to pick one of `items`, failing with `error` when the front
/// end cannot ask.
pub fn choose_index<A: WorkflowAdapter>(
    adapter: &mut A,
    prompt: &str,
    items: &[String],
    error: TossError,
) -> (r: Result<usize, TossError>)
    ensures
        asks(old(adapter).log(), final(adapter).log(), prompt@, string_views(items@)),
        answer_in_range(last_answer(final(adapter).log()), items@.len()),
        r == pick_spec(last_answer(final(adapter).log()), error),
        r matches Ok(i) ==> i < items@.len(),
{
    let choice = adapter.select_index(prompt, items, 0);
    pick(choice, error)
}

/// A chooser's answer is a position among `n` offered items, or no position.
pub open spec fn answer_in_range(c: Result<Option<usize>, TossError>, n: nat) -> bool {
    c matches Ok(Some(k)) ==> k < n
}

/// Picks one of `items`: with none, fails with `empty` when given (otherwise
/// the user is asked anyway); with one, takes it; with several, asks the
/// user and fails with `multiple` when the front end cannot ask.
pub fn select_one<A: WorkflowAdapter>(
    adapter: &mut A,
    prompt: &str,
    items: &[String],
    empty: Option<TossError>,
    multiple: TossError,
) -> (r: Result<usize, TossError>)
    ensures
        items@.len() == 0 && empty is Some ==> r == Err::<usize, TossError>(empty->0)
            && final(adapter).log() == old(adapter).log(),
        items@.len() == 1 ==> r == Ok::<usize, TossError>(0) && final(adapter).log() == old(adapter).log(),
        (items@.len() == 0 && empty is None) || items@.len() > 1 ==> {
            &&& asks(old(adapter).log(), final(adapter).log(), prompt@, string_views(items@))
            &&& answer_in_range(last_answer(final(adapter).log()), items@.len())
            &&& r == pick_spec(last_answer(final(adapter).log()), multiple)
        },
        r matches Ok(i) ==> i < items@.len(),
{
    if items.len() == 0 {
        if let Some(e) = empty {
            return Err(e);
        }
    }
    if items.len() == 1 {
        return Ok(0);
    }
    let choice = adapter.select_index(prompt, items, 0);
    assert(answer_in_range(choice, items@.len()));
    pick(choice, multiple)
}

} // verus!
