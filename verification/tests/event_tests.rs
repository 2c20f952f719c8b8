use speaches_companion::event::{classify_event, parse_event, RealtimeEvent, RealtimeHypothesis};
use speaches_companion::json::Json;
use speaches_companion::live::LiveRun;
use speaches_companion::phase::{PhaseGate, PhaseResult};

fn classified(text: &str) -> RealtimeEvent {
    classify_event(&Json::parse(text).unwrap())
}

#[test]
fn classifies_input_transcription_delta() {
    assert_eq!(
        classified(
            r#"{"type": "conversation.item.input_audio_transcription.delta", "delta": "hello"}"#
        ),
        RealtimeEvent::LiveDelta("hello".to_string())
    );
}

#[test]
fn classifies_completed_transcription() {
    assert_eq!(
        classified(
            r#"{
                "type": "conversation.item.input_audio_transcription.completed",
                "transcript": "hello world"
            }"#
        ),
        RealtimeEvent::Completed("hello world".to_string())
    );
}

#[test]
fn classifies_input_transcription_hypothesis() {
    assert_eq!(
        classified(
            r#"{
                "type": "conversation.item.input_audio_transcription.hypothesis",
                "transcript": "the front fell",
                "confirmed_prefix": "the front",
                "provisional": "fell"
            }"#
        ),
        RealtimeEvent::LiveHypothesis(RealtimeHypothesis {
            transcript: "the front fell".to_string(),
            confirmed_prefix: "the front".to_string(),
            provisional: "fell".to_string(),
        })
    );
}

#[test]
fn classifies_failed_transcription() {
    assert_eq!(
        classified(
            r#"{
                "type": "conversation.item.input_audio_transcription.failed",
                "error": {"message": "model missing"}
            }"#
        ),
        RealtimeEvent::Failed("model missing".to_string())
    );
}

#[test]
fn phase_passes_only_when_delta_precedes_completion() {
    let mut gate = PhaseGate::default();

    gate.observe(&RealtimeEvent::LiveDelta("hello".to_string()));
    gate.observe(&RealtimeEvent::Completed("hello world".to_string()));

    assert_eq!(gate.result(), PhaseResult::Passed);
}

#[test]
fn phase_passes_when_hypothesis_precedes_completion() {
    let mut gate = PhaseGate::default();

    gate.observe(&RealtimeEvent::LiveHypothesis(RealtimeHypothesis {
        transcript: "hello".to_string(),
        confirmed_prefix: String::new(),
        provisional: "hello".to_string(),
    }));
    gate.observe(&RealtimeEvent::Completed("hello world".to_string()));

    assert_eq!(gate.result(), PhaseResult::Passed);
}

#[test]
fn phase_blocks_on_completed_only_transcription() {
    let mut gate = PhaseGate::default();

    gate.observe(&RealtimeEvent::Completed("hello world".to_string()));

    assert_eq!(gate.result(), PhaseResult::Blocked);
}

#[test]
fn phase_fails_on_error_or_failed_event() {
    let mut gate = PhaseGate::default();

    gate.observe(&RealtimeEvent::Failed("model missing".to_string()));

    assert_eq!(gate.result(), PhaseResult::Failed);
}

#[test]
fn live_text_after_a_completion_does_not_count() {
    let mut gate = PhaseGate::default();
    assert_eq!(gate.result(), PhaseResult::Incomplete);

    gate.observe(&RealtimeEvent::LiveDelta("  ".to_string()));
    gate.observe(&RealtimeEvent::Completed("hello".to_string()));
    gate.observe(&RealtimeEvent::LiveDelta("hello".to_string()));
    assert_eq!(gate.result(), PhaseResult::Blocked);

    gate.observe(&RealtimeEvent::Error("gone".to_string()));
    gate.observe(&RealtimeEvent::Completed("hello".to_string()));
    assert_eq!(gate.result(), PhaseResult::Failed);
}

#[test]
fn errors_are_found_where_servers_put_them() {
    assert_eq!(
        classified(r#"{"type": "error", "message": "plain"}"#),
        RealtimeEvent::Error("plain".to_string())
    );
    assert_eq!(
        classified(r#"{"type": "error", "error": {"message": "nested"}, "message": "plain"}"#),
        RealtimeEvent::Error("nested".to_string())
    );
    assert_eq!(
        classified(r#"{"type": "error"}"#),
        RealtimeEvent::Error("unknown realtime error".to_string())
    );
}

#[test]
fn events_that_mean_nothing_keep_their_type() {
    assert_eq!(
        classified(r#"{"type": "session.created"}"#),
        RealtimeEvent::Other("session.created".to_string())
    );
    assert_eq!(
        classified("{}"),
        RealtimeEvent::Other("<missing type>".to_string())
    );
    assert_eq!(
        classified(r#"{"type": "x.input_audio_transcription.delta", "delta": 3}"#),
        RealtimeEvent::Other("x.input_audio_transcription.delta".to_string())
    );
}

#[test]
fn messages_must_be_json() {
    assert_eq!(
        parse_event(r#"{"type": "session.created"}"#),
        Ok(RealtimeEvent::Other("session.created".to_string()))
    );
    assert!(parse_event("{").is_err());
}

#[test]
fn live_runs_record_events_until_the_server_decides() {
    let mut run = LiveRun::default();
    assert_eq!(run.on_message(r#"{"type": "session.created"}"#), Ok(false));
    assert_eq!(
        run.on_message(
            r#"{"type":"conversation.item.input_audio_transcription.delta","delta":"hi"}"#
        ),
        Ok(false)
    );
    let error = run.on_message("nonsense").unwrap_err();
    assert!(error
        .message()
        .starts_with("invalid server event JSON: nonsense: "));
    assert_eq!(
        run.on_message(
            r#"{"type":"conversation.item.input_audio_transcription.completed","transcript":"hi"}"#
        ),
        Ok(true)
    );

    let record = run.record().unwrap();
    assert_eq!(record.lines().count(), 3);
    assert_eq!(record.lines().next(), Some(r#"{"type":"session.created"}"#));
    let outcome = run.outcome("/tmp/trace.jsonl".to_string(), 42);
    assert_eq!(outcome.result, PhaseResult::Passed);
    assert_eq!(outcome.trace_path, "/tmp/trace.jsonl");
    assert_eq!(outcome.total_audio_bytes, 42);
}

#[test]
fn live_runs_end_with_the_first_failure() {
    let mut run = LiveRun::default();
    assert_eq!(
        run.outcome(String::new(), 0).result,
        PhaseResult::Incomplete
    );
    assert_eq!(
        run.on_message(r#"{"type": "error", "message": "overloaded"}"#),
        Ok(true)
    );
    assert_eq!(run.outcome(String::new(), 0).result, PhaseResult::Failed);
}
