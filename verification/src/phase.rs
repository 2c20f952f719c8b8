//! Whether a live session showed text before it was final.

use vstd::prelude::*;
use vstd::string::*;

use crate::event;
use crate::event::RealtimeEvent;
use crate::text;

verus! {

/// How a live session went.
#[derive(Debug, Clone, Copy, PartialEq, Eq, Structural)]
pub enum PhaseResult {
    /// Live text came before the final one.
    Passed,
    /// Only a final text came.
    Blocked,
    /// The server reported a failure.
    Failed,
    /// No final text came.
    Incomplete,
}

/// What a live session has shown so far.
#[derive(Debug)]
pub struct PhaseGate {
    saw_live_delta: bool,
    saw_completion: bool,
    saw_failure: bool,
}

/// Whether an event brings live text.
pub open spec fn brings_live_text(event: event::EventView) -> bool {
    match event {
        event::EventView::LiveDelta(s) => text::trimmed(s).len() > 0,
        event::EventView::LiveHypothesis { transcript, .. } => text::trimmed(transcript).len() > 0,
        _ => false,
    }
}

/// Whether an event completes an item.
pub open spec fn completes(event: event::EventView) -> bool {
    event is Completed
}

/// Whether an event reports a failure.
pub open spec fn fails(event: event::EventView) -> bool {
    event is Failed || event is Error
}

/// Whether live text came before the first completion.
pub open spec fn live_before_completion(events: Seq<event::EventView>) -> bool {
    exists|i: int|
        0 <= i < events.len() && #[trigger] brings_live_text(events[i]) && forall|j: int|
            0 <= j < i ==> !completes(#[trigger] events[j])
}

/// Whether some event completes an item.
pub open spec fn some_completion(events: Seq<event::EventView>) -> bool {
    exists|i: int| 0 <= i < events.len() && completes(#[trigger] events[i])
}

/// Whether some event reports a failure.
pub open spec fn some_failure(events: Seq<event::EventView>) -> bool {
    exists|i: int| 0 <= i < events.len() && fails(#[trigger] events[i])
}

/// How a session went that brought these events.
pub open spec fn phase_of(events: Seq<event::EventView>) -> PhaseResult {
    if some_failure(events) {
        PhaseResult::Failed
    } else if some_completion(events) && live_before_completion(events) {
        PhaseResult::Passed
    } else if some_completion(events) {
        PhaseResult::Blocked
    } else {
        PhaseResult::Incomplete
    }
}

impl Default for PhaseGate {
    fn default() -> (r: Self)
        ensures
            r.saw(seq![]),
    {
        proof {
            assert(!some_failure(seq![]));
            assert(!some_completion(seq![]));
            assert(!live_before_completion(seq![]));
        }
        PhaseGate { saw_live_delta: false, saw_completion: false, saw_failure: false }
    }
}

impl PhaseGate {
    /// Whether this is what is known after these events.
    pub closed spec fn saw(&self, events: Seq<event::EventView>) -> bool {
        &&& self.saw_live_delta == live_before_completion(events)
        &&& self.saw_completion == some_completion(events)
        &&& self.saw_failure == some_failure(events)
    }

    /// Takes note of an event.
    pub fn observe(&mut self, event: &RealtimeEvent)
        ensures
            forall|events: Seq<event::EventView>| #[trigger]
                old(self).saw(events) ==> final(self).saw(events.push(event@)),
    {
        let ghost before = *self;
        match event {
            RealtimeEvent::LiveDelta(delta) => {
                if text::trim(delta.as_str()).unicode_len() > 0 && !self.saw_completion {
                    self.saw_live_delta = true;
                }
            },
            RealtimeEvent::LiveHypothesis(hypothesis) => {
                if text::trim(hypothesis.transcript.as_str()).unicode_len() > 0
                    && !self.saw_completion {
                    self.saw_live_delta = true;
                }
            },
            RealtimeEvent::Completed(_) => {
                self.saw_completion = true;
            },
            RealtimeEvent::Failed(_) | RealtimeEvent::Error(_) => {
                self.saw_failure = true;
            },
            RealtimeEvent::Other(_) => {},
        }
        proof {
            assert forall|events: Seq<event::EventView>| #[trigger]
                before.saw(events) implies self.saw(events.push(event@)) by {
                one_more_event(events, event@);
            }
        }
    }

    /// How the session went, by the events so far.
    pub fn result(&self) -> (r: PhaseResult)
        ensures
            forall|events: Seq<event::EventView>| #[trigger]
                self.saw(events) ==> r == phase_of(events),
    {
        if self.saw_failure {
            PhaseResult::Failed
        } else if self.saw_completion && self.saw_live_delta {
            PhaseResult::Passed
        } else if self.saw_completion {
            PhaseResult::Blocked
        } else {
            PhaseResult::Incomplete
        }
    }
}

/// What one more event changes.
proof fn one_more_event(events: Seq<event::EventView>, event: event::EventView)
    ensures
        some_failure(events.push(event)) == (some_failure(events) || fails(event)),
        some_completion(events.push(event)) == (some_completion(events) || completes(event)),
        live_before_completion(events.push(event)) == (live_before_completion(events) || (
        brings_live_text(event) && !some_completion(events))),
{
    let more = events.push(event);
    assert(more[events.len() as int] == event);
    if some_failure(events) {
        let i = choose|i: int| 0 <= i < events.len() && fails(#[trigger] events[i]);
        assert(fails(more[i]));
    }
    if some_failure(more) {
        let i = choose|i: int| 0 <= i < more.len() && fails(#[trigger] more[i]);
        assert(i < events.len() ==> fails(events[i]));
    }
    if some_completion(events) {
        let i = choose|i: int| 0 <= i < events.len() && completes(#[trigger] events[i]);
        assert(completes(more[i]));
    }
    if some_completion(more) {
        let i = choose|i: int| 0 <= i < more.len() && completes(#[trigger] more[i]);
        assert(i < events.len() ==> completes(events[i]));
    }
    if live_before_completion(events) {
        let i = choose|i: int|
            0 <= i < events.len() && #[trigger] brings_live_text(events[i]) && forall|j: int|
                0 <= j < i ==> !completes(#[trigger] events[j]);
        assert(brings_live_text(more[i]));
        assert forall|j: int| 0 <= j < i implies !completes(#[trigger] more[j]) by {
            assert(!completes(events[j]));
        }
    }
    if brings_live_text(event) && !some_completion(events) {
        let i = events.len() as int;
        assert(brings_live_text(more[i]));
        assert forall|j: int| 0 <= j < i implies !completes(#[trigger] more[j]) by {
            assert(more[j] == events[j]);
        }
    }
    if live_before_completion(more) {
        let i = choose|i: int|
            0 <= i < more.len() && #[trigger] brings_live_text(more[i]) && forall|j: int|
                0 <= j < i ==> !completes(#[trigger] more[j]);
        assert forall|j: int| 0 <= j < i implies !completes(#[trigger] events[j]) by {
            assert(more[j] == events[j]);
        }
        if i < events.len() {
            assert(brings_live_text(events[i]));
        }
    }
}

/// A session passes only if live text came before the first completion and nothing failed.
pub proof fn passing_needs_live_text_first(events: Seq<event::EventView>)
    ensures
        phase_of(events) == PhaseResult::Passed <==> !some_failure(events) && some_completion(
            events,
        ) && live_before_completion(events),
{
}

/// Once a failure was seen, no later event makes a session pass.
pub proof fn failure_is_final(events: Seq<event::EventView>, event: event::EventView)
    requires
        phase_of(events) == PhaseResult::Failed,
    ensures
        phase_of(events.push(event)) == PhaseResult::Failed,
{
    one_more_event(events, event);
}

/// A session failed exactly if some event reported a failure or an error.
pub proof fn failures_are_noticed(events: Seq<event::EventView>)
    ensures
        phase_of(events) == PhaseResult::Failed <==> exists|i: int|
            0 <= i < events.len() && (#[trigger] events[i] is Failed || events[i] is Error),
{
    if some_failure(events) {
        let i = choose|i: int| 0 <= i < events.len() && fails(#[trigger] events[i]);
        assert(events[i] is Failed || events[i] is Error);
    }
    if exists|i: int|
        0 <= i < events.len() && (#[trigger] events[i] is Failed || events[i] is Error) {
        let i = choose|i: int|
            0 <= i < events.len() && (#[trigger] events[i] is Failed || events[i] is Error);
        assert(fails(events[i]));
    }
}

/// Where nothing failed, a session is incomplete exactly if no item was completed.
pub proof fn sessions_without_a_final_text_are_incomplete(events: Seq<event::EventView>)
    requires
        forall|i: int| 0 <= i < events.len() ==> !(#[trigger] events[i] is Failed) && !(
        events[i] is Error),
    ensures
        phase_of(events) == PhaseResult::Incomplete <==> forall|i: int|
            0 <= i < events.len() ==> !(#[trigger] events[i] is Completed),
{
    failures_are_noticed(events);
    if some_completion(events) {
        let i = choose|i: int| 0 <= i < events.len() && completes(#[trigger] events[i]);
        assert(events[i] is Completed);
    }
    if exists|i: int| 0 <= i < events.len() && #[trigger] events[i] is Completed {
        let i = choose|i: int| 0 <= i < events.len() && #[trigger] events[i] is Completed;
        assert(completes(events[i]));
    }
}

/// Whether an event is live text that is not blank.
pub open spec fn shows_text(event: event::EventView) -> bool {
    match event {
        event::EventView::LiveDelta(delta) => exists|i: int|
            0 <= i < delta.len() && !text::white_space(#[trigger] delta[i]),
        event::EventView::LiveHypothesis { transcript, .. } => exists|i: int|
            0 <= i < transcript.len() && !text::white_space(#[trigger] transcript[i]),
        _ => false,
    }
}

/// Where nothing failed and an item was completed, a session has passed if live text that is not
/// blank came before the `k`th event, the first that completes an item; else it is blocked. Live text
/// that comes later does not count.
pub proof fn live_text_has_to_come_first(events: Seq<event::EventView>, k: int)
    requires
        forall|i: int| 0 <= i < events.len() ==> !(#[trigger] events[i] is Failed) && !(
        events[i] is Error),
        0 <= k < events.len(),
        events[k] is Completed,
        forall|j: int| 0 <= j < k ==> !(#[trigger] events[j] is Completed),
    ensures
        (exists|i: int| 0 <= i < k && #[trigger] shows_text(events[i])) ==> phase_of(events)
            == PhaseResult::Passed,
        !(exists|i: int| 0 <= i < k && #[trigger] shows_text(events[i])) ==> phase_of(events)
            == PhaseResult::Blocked,
{
    failures_are_noticed(events);
    assert(completes(events[k]));
    assert forall|e: event::EventView| #[trigger] shows_text(e) == brings_live_text(e) by {
        match e {
            event::EventView::LiveDelta(s) => {
                let _ = text::trimming_takes_white_space_from_the_ends(s);
            },
            event::EventView::LiveHypothesis { transcript, .. } => {
                let _ = text::trimming_takes_white_space_from_the_ends(transcript);
            },
            _ => {},
        }
    }
    if exists|i: int| 0 <= i < k && #[trigger] shows_text(events[i]) {
        let i = choose|i: int| 0 <= i < k && #[trigger] shows_text(events[i]);
        assert(brings_live_text(events[i]));
        assert forall|j: int| 0 <= j < i implies !completes(#[trigger] events[j]) by {
            assert(!(events[j] is Completed));
        }
    }
    if live_before_completion(events) {
        let i = choose|i: int|
            0 <= i < events.len() && #[trigger] brings_live_text(events[i]) && forall|j: int|
                0 <= j < i ==> !completes(#[trigger] events[j]);
        if i > k {
            assert(!completes(events[k]));
        }
        assert(i != k);
        assert(shows_text(events[i]));
    }
}

} // verus!
