//! The events that a realtime transcription server sends.

use vstd::prelude::*;
use vstd::string::*;

use crate::json;
use crate::json::Json;
use crate::text;

verus! {

/// A guess at what is being said.
#[derive(Debug, Clone, PartialEq, Eq)]
pub struct RealtimeHypothesis {
    pub transcript: String,
    pub confirmed_prefix: String,
    pub provisional: String,
}

/// An event of a realtime session.
#[derive(Debug, Clone, PartialEq, Eq)]
pub enum RealtimeEvent {
    /// More text of the current item.
    LiveDelta(String),
    /// A guess at the whole text of the current item.
    LiveHypothesis(RealtimeHypothesis),
    /// The text of an item is final.
    Completed(String),
    /// An item could not be transcribed.
    Failed(String),
    /// The session went wrong.
    Error(String),
    /// Any other event, by its type.
    Other(String),
}

/// The mathematical view of a [`RealtimeEvent`].
pub enum EventView {
    LiveDelta(Seq<char>),
    LiveHypothesis { transcript: Seq<char>, confirmed_prefix: Seq<char>, provisional: Seq<char> },
    Completed(Seq<char>),
    Failed(Seq<char>),
    Error(Seq<char>),
    Other(Seq<char>),
}

impl RealtimeEvent {
    /// The mathematical view.
    pub open spec fn view(&self) -> EventView {
        match self {
            RealtimeEvent::LiveDelta(s) => EventView::LiveDelta(s@),
            RealtimeEvent::LiveHypothesis(h) => EventView::LiveHypothesis {
                transcript: h.transcript@,
                confirmed_prefix: h.confirmed_prefix@,
                provisional: h.provisional@,
            },
            RealtimeEvent::Completed(s) => EventView::Completed(s@),
            RealtimeEvent::Failed(s) => EventView::Failed(s@),
            RealtimeEvent::Error(s) => EventView::Error(s@),
            RealtimeEvent::Other(s) => EventView::Other(s@),
        }
    }
}

/// The type that an event names.
pub open spec fn event_type(event: json::JsonTree) -> Seq<char> {
    match json::text_member(event, "type"@) {
        Some(s) => s,
        None => "<missing type>"@,
    }
}

/// The message of an event that reports an error.
pub open spec fn error_text(event: json::JsonTree) -> Seq<char> {
    let nested = match json::member(event, "error"@) {
        Some(error) => json::text_member(error, "message"@),
        None => None,
    };
    match nested {
        Some(s) => s,
        None => match json::text_member(event, "message"@) {
            Some(s) => s,
            None => "unknown realtime error"@,
        },
    }
}

/// What an event is.
pub open spec fn classified(event: json::JsonTree) -> EventView {
    let kind = event_type(event);
    let transcribes = text::occurs(kind, "input_audio_transcription"@);
    if kind == "conversation.item.input_audio_transcription.completed"@ {
        EventView::Completed(text::or_empty(json::text_member(event, "transcript"@)))
    } else if kind == "conversation.item.input_audio_transcription.failed"@ {
        EventView::Failed(error_text(event))
    } else if kind == "error"@ {
        EventView::Error(error_text(event))
    } else if transcribes && text::ends(kind, ".hypothesis"@) && json::text_member(
        event,
        "transcript"@,
    ) is Some {
        EventView::LiveHypothesis {
            transcript: text::or_empty(json::text_member(event, "transcript"@)),
            confirmed_prefix: text::or_empty(json::text_member(event, "confirmed_prefix"@)),
            provisional: text::or_empty(json::text_member(event, "provisional"@)),
        }
    } else if transcribes && text::ends(kind, ".delta"@) && json::text_member(
        event,
        "delta"@,
    ) is Some {
        EventView::LiveDelta(text::or_empty(json::text_member(event, "delta"@)))
    } else {
        EventView::Other(kind)
    }
}

/// The text of a member, or the empty text.
fn string_field(event: &Json, key: &str) -> (r: String)
    ensures
        r@ == text::or_empty(json::text_member(event@, key@)),
{
    text::owned_or_empty(event.get_str(key))
}

/// The message of an event that reports an error.
fn error_message(event: &Json) -> (r: String)
    ensures
        r@ == error_text(event@),
{
    let nested = match event.get("error") {
        Some(error) => error.get_str("message"),
        None => None,
    };
    match nested {
        Some(s) => s.to_owned(),
        None => match event.get_str("message") {
            Some(s) => s.to_owned(),
            None => "unknown realtime error".to_owned(),
        },
    }
}

/// What an event is.
pub fn classify_event(event: &Json) -> (r: RealtimeEvent)
    ensures
        r@ == classified(event@),
{
    let kind = match event.get_str("type") {
        Some(s) => s,
        None => "<missing type>",
    };
    if text::same_text(kind, "conversation.item.input_audio_transcription.completed") {
        return RealtimeEvent::Completed(string_field(event, "transcript"));
    }
    if text::same_text(kind, "conversation.item.input_audio_transcription.failed") {
        return RealtimeEvent::Failed(error_message(event));
    }
    if text::same_text(kind, "error") {
        return RealtimeEvent::Error(error_message(event));
    }
    if text::contains(kind, "input_audio_transcription") {
        if text::ends_with(kind, ".hypothesis") && event.get_str("transcript").is_some() {
            return RealtimeEvent::LiveHypothesis(
                RealtimeHypothesis {
                    transcript: string_field(event, "transcript"),
                    confirmed_prefix: string_field(event, "confirmed_prefix"),
                    provisional: string_field(event, "provisional"),
                },
            );
        }
        if text::ends_with(kind, ".delta") && event.get_str("delta").is_some() {
            return RealtimeEvent::LiveDelta(string_field(event, "delta"));
        }
    }
    RealtimeEvent::Other(kind.to_owned())
}

/// What the event in a message is, or why the message holds no event.
pub fn parse_event(message: &str) -> (r: Result<RealtimeEvent, String>)
    ensures
        match r {
            Ok(event) => json::parsed_document(message@) is Ok && event@ == classified(
                json::parsed_document(message@)->Ok_0,
            ),
            Err(error) => json::parsed_document(message@) == Err::<json::JsonTree, Seq<char>>(
                error@,
            ),
        },
{
    match Json::parse(message) {
        Ok(event) => Ok(classify_event(&event)),
        Err(error) => Err(error),
    }
}

/// An event that completes an item brings its transcript; a failed one, or an error, the message that
/// stands in its error, or else beside it.
pub proof fn events_are_known_by_their_type(event: json::JsonTree)
    ensures
        json::text_member(event, "type"@) == Some(
            "conversation.item.input_audio_transcription.completed"@,
        ) ==> classified(event) == EventView::Completed(
            match json::text_member(event, "transcript"@) {
                Some(transcript) => transcript,
                None => seq![],
            },
        ),
        json::text_member(event, "type"@) == Some(
            "conversation.item.input_audio_transcription.failed"@,
        ) ==> classified(event) == EventView::Failed(error_text(event)),
        json::text_member(event, "type"@) == Some("error"@) ==> classified(event)
            == EventView::Error(error_text(event)),
{
    reveal_strlit("conversation.item.input_audio_transcription.completed");
    reveal_strlit("conversation.item.input_audio_transcription.failed");
    reveal_strlit("error");
    assert("error"@.len() == 5);
    assert("conversation.item.input_audio_transcription.failed"@.len() == 50);
    assert("conversation.item.input_audio_transcription.completed"@.len() == 53);
}

/// Errors are told by the message in the error of the event, or else by that of the event itself.
pub proof fn errors_are_told_by_their_message(event: json::JsonTree)
    ensures
        json::member(event, "error"@) matches Some(error) ==> (json::text_member(
            error,
            "message"@,
        ) matches Some(message) ==> error_text(event) == message),
        json::member(event, "error"@) is None ==> (json::text_member(
            event,
            "message"@,
        ) matches Some(message) ==> error_text(event) == message),
        json::member(event, "error"@) is None && json::text_member(event, "message"@) is None
            ==> error_text(event) == "unknown realtime error"@,
{
}

/// Other events of a transcription are live text where they bring it, told by how their type ends: a
/// guess with its transcript, or more text. All else is of no account.
pub proof fn live_events_bring_their_text(event: json::JsonTree, kind: Seq<char>)
    requires
        json::text_member(event, "type"@) == Some(kind),
        kind != "conversation.item.input_audio_transcription.completed"@,
        kind != "conversation.item.input_audio_transcription.failed"@,
        kind != "error"@,
    ensures
        ({
            let transcribes = text::occurs(kind, "input_audio_transcription"@);
            let transcript = json::text_member(event, "transcript"@);
            let delta = json::text_member(event, "delta"@);
            let guesses = transcribes && text::ends(kind, ".hypothesis"@) && transcript is Some;
            let adds = transcribes && text::ends(kind, ".delta"@) && delta is Some;
            &&& guesses ==> (classified(event) matches EventView::LiveHypothesis {
                transcript: guess,
                ..
            } && guess == transcript->0)
            &&& adds && !guesses ==> classified(event) == EventView::LiveDelta(delta->0)
            &&& !guesses && !adds ==> classified(event) == EventView::Other(kind)
        }),
{
}

/// An event without a type is of no account.
pub proof fn events_without_a_type_do_not_count(event: json::JsonTree)
    requires
        json::text_member(event, "type"@) is None,
    ensures
        classified(event) is Other,
{
    reveal_strlit("<missing type>");
    reveal_strlit("input_audio_transcription");
    reveal_strlit("conversation.item.input_audio_transcription.completed");
    reveal_strlit("conversation.item.input_audio_transcription.failed");
    reveal_strlit("error");
    assert("<missing type>"@.len() == 14);
    assert("input_audio_transcription"@.len() == 25);
    assert("error"@.len() == 5);
    assert("conversation.item.input_audio_transcription.failed"@.len() == 50);
    assert("conversation.item.input_audio_transcription.completed"@.len() == 53);
}

} // verus!
