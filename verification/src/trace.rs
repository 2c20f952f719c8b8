//! A record of the events of a session, one JSON document a line.

use vstd::prelude::*;
use vstd::string::*;

use crate::json;
use crate::text;

verus! {

/// The events of a session, in order.
#[derive(Debug)]
pub struct TraceWriter {
    events: Vec<serde_json::Value>,
}

/// The lines of some events, each ended by a newline; or the first error.
pub open spec fn trace_lines(events: Seq<json::JsonTree>) -> Result<Seq<char>, Seq<char>>
    decreases events.len(),
{
    if events.len() == 0 {
        Ok(seq![])
    } else {
        match trace_lines(events.drop_last()) {
            Err(message) => Err(message),
            Ok(lines) => match json::compact_text(events.last()) {
                Err(message) => Err(message),
                Ok(line) => Ok((lines + line).push('\n')),
            },
        }
    }
}

/// The notations of some events, one after the other.
pub open spec fn event_texts(events: Seq<json::JsonTree>) -> Seq<Seq<char>> {
    Seq::new(
        events.len(),
        |i: int|
            match json::compact_text(events[i]) {
                Ok(line) => line,
                Err(_) => seq![],
            },
    )
}

/// An error among the first events is the error of all of them.
proof fn first_error_stays(events: Seq<json::JsonTree>, n: int)
    requires
        0 <= n <= events.len(),
        trace_lines(events.take(n)) is Err,
    ensures
        trace_lines(events) == trace_lines(events.take(n)),
    decreases events.len() - n,
{
    if n < events.len() {
        assert(events.take(n + 1).drop_last() =~= events.take(n));
        first_error_stays(events, n + 1);
    } else {
        assert(events.take(n) =~= events);
    }
}

impl Default for TraceWriter {
    fn default() -> (r: Self)
        ensures
            r@ == Seq::<json::JsonTree>::empty(),
    {
        let writer = TraceWriter { events: Vec::new() };
        proof {
            assert(writer@ =~= Seq::<json::JsonTree>::empty());
        }
        writer
    }
}

impl TraceWriter {
    /// The events so far.
    pub closed spec fn view(&self) -> Seq<json::JsonTree> {
        Seq::new(self.events@.len(), |i: int| json::value_tree(self.events@[i]))
    }

    /// Adds an event.
    pub fn push(&mut self, event: serde_json::Value)
        ensures
            final(self)@ == old(self)@.push(json::value_tree(event)),
    {
        self.events.push(event);
        proof {
            assert(self@ =~= old(self)@.push(json::value_tree(event)));
        }
    }

    /// The text of the record. Its lines are the events, in order.
    pub fn to_jsonl(&self) -> (r: Result<String, String>)
        ensures
            match r {
                Ok(record) => trace_lines(self@) == Ok::<Seq<char>, Seq<char>>(record@)
                    && text::lines(record@) == event_texts(self@),
                Err(message) => trace_lines(self@) == Err::<Seq<char>, Seq<char>>(message@),
            },
    {
        let mut output = String::new();
        let mut i: usize = 0;
        while i < self.events.len()
            invariant
                i <= self.events@.len() == self@.len(),
                trace_lines(self@.take(i as int)) == Ok::<Seq<char>, Seq<char>>(output@),
                text::lines(output@) =~= event_texts(self@.take(i as int)),
                output@.len() == 0 || output@.last() == '\n',
            decreases self.events@.len() - i,
        {
            proof {
                assert(self@.take(i + 1).drop_last() =~= self@.take(i as int));
                assert(self@.take(i + 1).last() == json::value_tree(self.events@[i as int]));
            }
            match json::write_value(&self.events[i]) {
                Ok(line) => {
                    proof {
                        text::one_more_line(output@, line@);
                    }
                    output.append(line.as_str());
                    output.push('\n');
                },
                Err(message) => {
                    proof {
                        first_error_stays(self@, i + 1);
                    }
                    return Err(message);
                },
            }
            i += 1;
        }
        proof {
            assert(self@.take(i as int) =~= self@);
        }
        Ok(output)
    }
}

/// One more event is one more line behind the others: its notation, ended by a newline. An event that
/// cannot be written is the error of the record, unless an earlier one is.
pub proof fn events_are_recorded_in_order(events: Seq<json::JsonTree>, event: json::JsonTree)
    ensures
        trace_lines(Seq::<json::JsonTree>::empty()) == Ok::<Seq<char>, Seq<char>>(seq![]),
        trace_lines(events) matches Ok(lines) ==> (json::compact_text(event) matches Ok(line)
            ==> trace_lines(events.push(event)) == Ok::<Seq<char>, Seq<char>>(
            lines + line + seq!['\n'],
        )),
        trace_lines(events) matches Ok(lines) ==> (json::compact_text(event) matches Err(message)
            ==> trace_lines(events.push(event)) == Err::<Seq<char>, Seq<char>>(message)),
        trace_lines(events) matches Err(message) ==> trace_lines(events.push(event)) == Err::<
            Seq<char>,
            Seq<char>,
        >(message),
{
    assert(events.push(event).drop_last() =~= events);
    if trace_lines(events) is Ok && json::compact_text(event) is Ok {
        let lines = trace_lines(events)->Ok_0;
        let line = json::compact_text(event)->Ok_0;
        assert((lines + line).push('\n') =~= lines + line + seq!['\n']);
    }
}

/// The lines of a record are the notations of its events, one for each.
pub proof fn each_event_has_its_line(events: Seq<json::JsonTree>, k: int)
    requires
        0 <= k < events.len(),
        json::compact_text(events[k]) is Ok,
    ensures
        event_texts(events).len() == events.len(),
        event_texts(events)[k] == json::compact_text(events[k])->Ok_0,
{
}

} // verus!
