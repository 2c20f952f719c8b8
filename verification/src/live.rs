//! A live session that is recorded event by event until the server has made up its mind.

use vstd::prelude::*;
use vstd::string::*;

use crate::event;
use crate::event::{classify_event, RealtimeEvent};
use crate::json;
use crate::json::Json;
use crate::phase;
use crate::phase::{PhaseGate, PhaseResult};
use crate::realtime::RealtimeError;
use crate::text;
use crate::trace;
use crate::trace::TraceWriter;

verus! {

/// How a live session went.
#[derive(Debug, Clone, PartialEq, Eq)]
pub struct RunOutcome {
    pub result: PhaseResult,
    /// Where its events are recorded.
    pub trace_path: String,
    /// How much sound was sent.
    pub total_audio_bytes: usize,
}

/// A live session under way.
#[derive(Debug)]
pub struct LiveRun {
    trace: TraceWriter,
    gate: PhaseGate,
}

/// What the recorded events are.
pub open spec fn recorded(events: Seq<json::JsonTree>) -> Seq<event::EventView> {
    Seq::new(events.len(), |i: int| event::classified(events[i]))
}

/// Whether an event ends the session.
pub open spec fn ends_run(event: event::EventView) -> bool {
    phase::completes(event) || phase::fails(event)
}

impl Default for LiveRun {
    fn default() -> (r: Self)
        ensures
            r.wf(),
            r@ == Seq::<json::JsonTree>::empty(),
    {
        let run = LiveRun { trace: TraceWriter::default(), gate: PhaseGate::default() };
        proof {
            assert(recorded(run@) =~= seq![]);
        }
        run
    }
}

impl LiveRun {
    /// The events so far.
    pub closed spec fn view(&self) -> Seq<json::JsonTree> {
        self.trace@
    }

    /// Whether just the recorded events were observed.
    pub closed spec fn wf(&self) -> bool {
        self.gate.saw(recorded(self.trace@))
    }

    /// Takes a message of the server, and says whether it ends the session. A message that is no
    /// JSON document is an error, and is not recorded.
    pub fn on_message(&mut self, message: &str) -> (r: Result<bool, RealtimeError>)
        requires
            old(self).wf(),
        ensures
            final(self).wf(),
            match r {
                Ok(ended) => {
                    let document = json::parsed_document(message@)->Ok_0;
                    &&& json::parsed_document(message@) is Ok
                    &&& final(self)@ == old(self)@.push(document)
                    &&& ended == ends_run(event::classified(document))
                },
                Err(error) => {
                    &&& final(self)@ == old(self)@
                    &&& error matches RealtimeError::InvalidEvent { message: m, cause } && m@
                        == message@ && json::parsed_document(message@) == Err::<
                        json::JsonTree,
                        Seq<char>,
                    >(cause@)
                },
            },
    {
        let value = match json::parse_value(message) {
            Ok(value) => value,
            Err(cause) => {
                return Err(RealtimeError::InvalidEvent { message: message.to_owned(), cause });
            },
        };
        let classified = classify_event(&json::json_of(&value));
        let ended = match &classified {
            RealtimeEvent::Completed(_) | RealtimeEvent::Failed(_) | RealtimeEvent::Error(_) => true,
            _ => false,
        };
        let ghost before = self@;
        self.gate.observe(&classified);
        self.trace.push(value);
        proof {
            assert(recorded(self@) =~= recorded(before).push(classified@));
        }
        Ok(ended)
    }

    /// The text of the record. Its lines are the events, in order.
    pub fn record(&self) -> (r: Result<String, String>)
        ensures
            match r {
                Ok(record) => trace::trace_lines(self@) == Ok::<Seq<char>, Seq<char>>(record@)
                    && text::lines(record@) == trace::event_texts(self@),
                Err(message) => trace::trace_lines(self@) == Err::<Seq<char>, Seq<char>>(message@),
            },
    {
        self.trace.to_jsonl()
    }

    /// How the session went.
    pub fn outcome(&self, trace_path: String, total_audio_bytes: usize) -> (r: RunOutcome)
        requires
            self.wf(),
        ensures
            r.result == phase::phase_of(recorded(self@)),
            r.trace_path == trace_path,
            r.total_audio_bytes == total_audio_bytes,
    {
        RunOutcome { result: self.gate.result(), trace_path, total_audio_bytes }
    }
}

/// A session that an event has ended is not incomplete.
pub proof fn ended_sessions_are_decided(events: Seq<event::EventView>)
    requires
        events.len() > 0,
        ends_run(events.last()),
    ensures
        phase::phase_of(events) != PhaseResult::Incomplete,
{
    let last = events.len() - 1;
    if phase::fails(events.last()) {
        assert(phase::fails(events[last]));
    } else {
        assert(phase::completes(events[last]));
    }
}

/// A session is ended by an event that completes an item or reports a failure or an error, and by no
/// other.
pub proof fn completions_and_failures_end_a_run(event: event::EventView)
    ensures
        ends_run(event) <==> event is Completed || event is Failed || event is Error,
{
}

/// Every recorded event counts as what it is, in its place.
pub proof fn recorded_events_count(events: Seq<json::JsonTree>, k: int)
    requires
        0 <= k < events.len(),
    ensures
        recorded(events).len() == events.len(),
        recorded(events)[k] == event::classified(events[k]),
{
}

} // verus!
