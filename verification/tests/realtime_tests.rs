use speaches_companion::audio::{CHUNK_BYTES, SAMPLE_RATE};
use speaches_companion::event::{RealtimeEvent, RealtimeHypothesis};
use speaches_companion::json::Json;
use speaches_companion::realtime::{
    audio_append_event, commit_event, completed_or_live_after_stop, is_leading_punctuation,
    is_realtime_commit_buffer_size_error, pending_contains_sustained_speech,
    realtime_audio_chunks_since, split_pieces, stop_wait, warmup_audio, warmup_step,
    websocket_text, RealtimeError, RealtimeReceiver, RealtimeSender, RealtimeSpeechGate,
    RealtimeTranscriptAccumulator, SenderEnd, StopWait, WebsocketMessage,
};

#[test]
fn realtime_transcript_accumulator_emits_full_running_text() {
    let mut transcript = RealtimeTranscriptAccumulator::default();

    assert_eq!(transcript.observe_delta("the "), Some("the".to_string()));
    assert_eq!(
        transcript.observe_delta("front"),
        Some("the front".to_string())
    );
    assert_eq!(
        transcript.observe_delta(" fell off"),
        Some("the front fell off".to_string())
    );
}

#[test]
fn realtime_transcript_accumulator_ignores_empty_delta() {
    let mut transcript = RealtimeTranscriptAccumulator::default();

    assert_eq!(transcript.observe_delta("   "), None);
    assert_eq!(transcript.current(), None);
}

#[test]
fn realtime_transcript_accumulator_replaces_live_hypothesis() {
    let mut transcript = RealtimeTranscriptAccumulator::default();

    assert_eq!(
        transcript.observe_hypothesis(&hypothesis("hello")),
        Some("hello".to_string())
    );
    assert_eq!(
        transcript.observe_hypothesis(&hypothesis("the front")),
        Some("the front".to_string())
    );
    assert_eq!(transcript.observe_hypothesis(&hypothesis("")), None);
}

#[test]
fn realtime_transcript_accumulator_combines_confirmed_and_hypothesis_text() {
    let mut transcript = RealtimeTranscriptAccumulator::default();

    assert_eq!(
        transcript.observe_hypothesis(&hypothesis("the front fell")),
        Some("the front fell".to_string())
    );
    assert_eq!(
        transcript.observe_delta("the front"),
        Some("the front".to_string())
    );
    assert_eq!(
        transcript.observe_hypothesis(&hypothesis("the front fell off")),
        Some("the front fell off".to_string())
    );
}

#[test]
fn realtime_transcript_accumulator_treats_completion_as_segment_boundary() {
    let mut transcript = RealtimeTranscriptAccumulator::default();

    assert_eq!(
        transcript.observe_delta("the front"),
        Some("the front".to_string())
    );
    assert_eq!(
        transcript.observe_completion("the front fell off"),
        Some("the front fell off".to_string())
    );
    assert_eq!(
        transcript.observe_delta("and sank"),
        Some("the front fell off and sank".to_string())
    );
}

#[test]
fn realtime_transcript_accumulator_joins_completed_segments() {
    let mut transcript = RealtimeTranscriptAccumulator::default();

    assert_eq!(
        transcript.observe_completion("Also ich sehe das."),
        Some("Also ich sehe das.".to_string())
    );
    assert_eq!(
        transcript.observe_completion("Das funktioniert."),
        Some("Also ich sehe das. Das funktioniert.".to_string())
    );
}

#[test]
fn realtime_transcript_accumulator_keeps_leading_punctuation_attached() {
    let mut transcript = RealtimeTranscriptAccumulator::default();

    assert_eq!(
        transcript.observe_completion("hello"),
        Some("hello".to_string())
    );
    assert_eq!(
        transcript.observe_delta(", world"),
        Some("hello, world".to_string())
    );
}

fn hypothesis(transcript: &str) -> RealtimeHypothesis {
    RealtimeHypothesis {
        transcript: transcript.to_string(),
        confirmed_prefix: String::new(),
        provisional: transcript.to_string(),
    }
}

#[test]
fn realtime_buffer_size_error_after_stop_can_return_existing_text() {
    let mut transcript = RealtimeTranscriptAccumulator::default();
    transcript.observe_completion("the front fell off");

    assert_eq!(
        completed_or_live_after_stop(
            &transcript,
            "Error committing input audio buffer: buffer too small. Expected at least 100ms of audio, but buffer only has 0.00ms of audio.",
            true,
        ),
        Some("the front fell off".to_string())
    );
    assert_eq!(
        completed_or_live_after_stop(
            &transcript,
            "Error committing input audio buffer: buffer too small.",
            false,
        ),
        None
    );
}

#[test]
fn realtime_audio_chunks_since_returns_only_new_audio() {
    let mut cursor = 0;
    let snapshot = vec![1u8; CHUNK_BYTES + 3];
    let mut speech_gate = RealtimeSpeechGate::new(SAMPLE_RATE).opened();

    let chunks = realtime_audio_chunks_since(&snapshot, &mut cursor, &mut speech_gate);

    assert_eq!(chunks.len(), 2);
    assert_eq!(chunks[0].len(), CHUNK_BYTES);
    assert_eq!(chunks[1].len(), 3);
    assert_eq!(cursor, snapshot.len());
    assert!(realtime_audio_chunks_since(&snapshot, &mut cursor, &mut speech_gate).is_empty());
}

#[test]
fn realtime_audio_chunks_since_suppresses_noise_until_speech() {
    let mut cursor = 0;
    let mut speech_gate = RealtimeSpeechGate::new(SAMPLE_RATE);
    let noise = vec![0u8; CHUNK_BYTES];
    let speech = vec![0x20u8; CHUNK_BYTES];
    let snapshot = [noise, speech.clone(), speech].concat();

    let chunks = realtime_audio_chunks_since(&snapshot, &mut cursor, &mut speech_gate);

    assert_eq!(chunks.len(), 3);
    assert_eq!(chunks[0].len(), CHUNK_BYTES);
    assert_eq!(chunks[1].len(), CHUNK_BYTES);
    assert_eq!(chunks[2].len(), CHUNK_BYTES);
}

#[test]
fn realtime_audio_chunks_since_ignores_single_loud_chunk() {
    let mut cursor = 0;
    let mut speech_gate = RealtimeSpeechGate::new(SAMPLE_RATE);
    let noise = vec![0u8; CHUNK_BYTES];
    let speech = vec![0x20u8; CHUNK_BYTES];
    let snapshot = [noise, speech].concat();

    let chunks = realtime_audio_chunks_since(&snapshot, &mut cursor, &mut speech_gate);

    assert!(chunks.is_empty());
}

#[test]
fn what_is_sent_is_the_end_of_the_sound() {
    let mut sound = vec![0u8; 3 * CHUNK_BYTES + 14];
    sound.extend((0..4 * CHUNK_BYTES + 6).map(|i| 0x20 + (i % 7) as u8));
    for cut in [1, CHUNK_BYTES, 2 * CHUNK_BYTES + 7, 5 * CHUNK_BYTES] {
        let mut speech_gate = RealtimeSpeechGate::new(SAMPLE_RATE);
        let mut sent = speech_gate.filter_new_audio(&sound[..cut]);
        sent.extend(speech_gate.filter_new_audio(&sound[cut..]));
        let sent = sent.concat();
        assert!(sent.len() > 4 * CHUNK_BYTES);
        assert!(sent.len() < sound.len());
        assert!(sound.ends_with(&sent));
    }
}

#[test]
fn realtime_warmup_sends_silence_and_commit() {
    let silence = warmup_audio(SAMPLE_RATE);
    assert_eq!(silence.len(), 24_000);
    assert!(silence.iter().all(|byte| *byte == 0));

    let append = Json::parse(&audio_append_event(&silence)).unwrap();
    assert_eq!(append.get_str("type"), Some("input_audio_buffer.append"));
    assert!(append.get_str("audio").unwrap().len() > 100);

    let commit = Json::parse(&commit_event()).unwrap();
    assert_eq!(commit.get_str("type"), Some("input_audio_buffer.commit"));

    assert_eq!(warmup_step(&RealtimeEvent::Other("x".to_string())), None);
    assert_eq!(
        warmup_step(&RealtimeEvent::Completed(String::new())),
        Some(Ok(()))
    );
}

#[test]
fn warmups_fail_with_the_server() {
    for event in [
        RealtimeEvent::Failed("no model".to_string()),
        RealtimeEvent::Error("no model".to_string()),
    ] {
        match warmup_step(&event) {
            Some(Err(error)) => {
                assert_eq!(error.message(), "realtime warmup failed: no model")
            }
            _ => panic!("the failure was passed over"),
        }
    }
    assert_eq!(
        RealtimeError::WarmupClosed.message(),
        "realtime warmup websocket closed before completion"
    );
}

#[test]
fn sound_is_sent_in_base64() {
    let audio_of = |bytes: &[u8]| {
        let event = Json::parse(&audio_append_event(bytes)).unwrap();
        event.get_str("audio").unwrap().to_string()
    };
    assert_eq!(audio_of(b""), "");
    assert_eq!(audio_of(b"f"), "Zg==");
    assert_eq!(audio_of(b"fo"), "Zm8=");
    assert_eq!(audio_of(b"foobar"), "Zm9vYmFy");
    assert_eq!(audio_of(&[0xfb, 0xff, 0xfe]), "+//+");
    assert_eq!(
        commit_event(),
        "{\"type\":\"input_audio_buffer.commit\"}"
    );
}

#[test]
fn pieces_have_the_same_bytes() {
    let bytes: Vec<u8> = (0..10).collect();
    let pieces = split_pieces(&bytes, 4);
    assert_eq!(pieces.len(), 3);
    assert_eq!(pieces[2], vec![8, 9]);
    assert_eq!(pieces.concat(), bytes);
    assert!(split_pieces(&[], 4).is_empty());
}

#[test]
fn senders_wait_for_speech_and_then_send_everything() {
    let speech = vec![0x20u8; 4 * CHUNK_BYTES];
    let mut sender = RealtimeSender::new(SAMPLE_RATE, true);
    assert!(sender.take_audio(&vec![0u8; CHUNK_BYTES]).is_empty());
    assert_eq!(sender.total_sent(), 0);
    assert_eq!(sender.end(), SenderEnd::Close);

    let mut recording = vec![0u8; CHUNK_BYTES];
    recording.extend_from_slice(&speech);
    let sent = sender.take_audio(&recording);
    assert_eq!(sent.concat(), recording);
    assert_eq!(sender.total_sent(), recording.len());
    assert_eq!(sender.end(), SenderEnd::Commit);

    recording.extend_from_slice(&[0, 0, 0]);
    assert_eq!(sender.take_audio(&recording), vec![vec![0, 0, 0]]);
    assert_eq!(sender.total_sent(), recording.len());

    let mut sender = RealtimeSender::new(SAMPLE_RATE, false);
    sender.take_audio(&speech);
    assert!(sender.total_sent() > 0);
    assert_eq!(sender.end(), SenderEnd::Close);
}

#[test]
fn stopping_waits_only_for_transcripts_that_come() {
    assert_eq!(stop_wait(0, true), StopWait::Drain);
    assert_eq!(stop_wait(10, false), StopWait::Drain);
    assert_eq!(stop_wait(10, true), StopWait::Completion);
}

#[test]
fn speech_must_last_to_count() {
    assert!(!pending_contains_sustained_speech(&[]));
    assert!(!pending_contains_sustained_speech(&vec![0x20u8; 7_679]));
    assert!(pending_contains_sustained_speech(&vec![0x20u8; 7_680]));
    let mut interrupted = vec![0x20u8; 960 * 7];
    interrupted.extend_from_slice(&[0u8; 960]);
    interrupted.extend_from_slice(&[0x20u8; 960 * 7]);
    assert!(!pending_contains_sustained_speech(&interrupted));
}

#[test]
fn messages_carry_text() {
    assert_eq!(
        websocket_text(WebsocketMessage::Text("a".to_string())),
        Ok(Some("a".to_string()))
    );
    assert_eq!(
        websocket_text(WebsocketMessage::Binary("é".as_bytes().to_vec())),
        Ok(Some("é".to_string()))
    );
    assert_eq!(websocket_text(WebsocketMessage::Control), Ok(None));
    let error = websocket_text(WebsocketMessage::Binary(vec![0xc3])).unwrap_err();
    assert_eq!(
        error.message(),
        "received non-UTF8 binary websocket message"
    );
}

fn delta(text: &str) -> String {
    format!(
        "{{\"type\":\"conversation.item.input_audio_transcription.delta\",\"delta\":\"{text}\"}}"
    )
}

fn completed(text: &str) -> String {
    format!(
        "{{\"type\":\"conversation.item.input_audio_transcription.completed\",\
         \"transcript\":\"{text}\"}}"
    )
}

#[test]
fn receivers_pass_on_what_was_understood() {
    let mut receiver = RealtimeReceiver::default();
    let step = receiver.on_message(&delta("hello"), false);
    assert_eq!(step.update, Some("hello".to_string()));
    assert!(step.end.is_none());

    let step = receiver.on_message(&completed("hello there"), false);
    assert_eq!(step.update, Some("hello there".to_string()));
    assert!(step.end.is_none());

    let step = receiver.on_message("{\"type\":\"session.created\"}", true);
    assert!(step.update.is_none());
    assert!(step.end.is_none());

    let step = receiver.on_message(&completed("friend"), true);
    assert_eq!(step.update, Some("hello there friend".to_string()));
    assert_eq!(step.end, Some(Ok("hello there friend".to_string())));
    assert_eq!(
        receiver.on_closed(),
        Ok("hello there friend".to_string())
    );
}

#[test]
fn receivers_end_with_failures() {
    let mut receiver = RealtimeReceiver::default();
    assert_eq!(
        receiver.on_closed().unwrap_err().message(),
        "realtime websocket closed before transcription completed"
    );
    let small = "{\"type\":\"error\",\"message\":\"buffer too small\"}";
    match receiver.on_message(small, true).end {
        Some(Err(error)) => assert_eq!(
            error.message(),
            "realtime transcription failed: buffer too small"
        ),
        _ => panic!("a failure without any text is a failure"),
    }
    receiver.on_message(&delta("hi"), false);
    assert_eq!(
        receiver.on_message(small, true).end,
        Some(Ok("hi".to_string()))
    );
    assert!(matches!(
        receiver.on_message(small, false).end,
        Some(Err(RealtimeError::Failed(_)))
    ));
    match receiver.on_message("[", false).end {
        Some(Err(error)) => {
            assert!(error.message().starts_with("invalid server event JSON: [: "))
        }
        _ => panic!("a message without JSON ends the session"),
    }
}

#[test]
fn only_small_buffers_are_forgiven() {
    assert!(is_realtime_commit_buffer_size_error("the buffer is empty."));
    assert!(!is_realtime_commit_buffer_size_error("out of memory"));
    assert!(is_leading_punctuation('!'));
    assert!(!is_leading_punctuation('('));
}
