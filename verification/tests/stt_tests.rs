use speaches_companion::config::DEFAULT_MODEL;
use speaches_companion::endpoint::transcription_url;
use speaches_companion::stt::{
    form_parts, parse_streaming_transcript, sse_data_events, transcription_result, FormPart,
    ResponseFormat, StreamedTranscript, SttError, TranscribeOptions, TranscriptStreamEvent,
};

fn field(name: &str, value: &str) -> FormPart {
    FormPart::Field {
        name: name.to_string(),
        value: value.to_string(),
    }
}

/// The event in a piece of data: an object with a type, and maybe a delta and a text.
fn read_event(data: &str) -> Result<TranscriptStreamEvent, String> {
    let document: serde_json::Value =
        serde_json::from_str(data).map_err(|error| error.to_string())?;
    let member = |name: &str| match &document[name] {
        serde_json::Value::Null => Ok(None),
        serde_json::Value::String(text) => Ok(Some(text.clone())),
        other => Err(format!("{name} is {other}")),
    };
    Ok(TranscriptStreamEvent {
        event_type: member("type")?.ok_or("missing field `type`")?,
        delta: member("delta")?,
        text: member("text")?,
    })
}

fn stream_event(event_type: &str, delta: Option<&str>, text: Option<&str>) -> TranscriptStreamEvent {
    TranscriptStreamEvent {
        event_type: event_type.to_string(),
        delta: delta.map(str::to_string),
        text: text.map(str::to_string),
    }
}

#[test]
fn response_format_round_trips_cli_values() {
    assert_eq!(ResponseFormat::Text.as_str(), "text");
    assert_eq!(
        "verbose_json".parse::<ResponseFormat>().unwrap(),
        ResponseFormat::VerboseJson
    );
    assert!("bogus".parse::<ResponseFormat>().is_err());
}

#[test]
fn transcribe_file_parses_streaming_sse_response() {
    let options = TranscribeOptions {
        model: DEFAULT_MODEL.to_string(),
        response_format: ResponseFormat::Text,
        language: None,
        prompt: None,
        hotwords: None,
        without_timestamps: true,
        stream: true,
    };
    let parts = form_parts(&options, "/tmp/audio.wav");
    assert!(parts.contains(&field("stream", "true")));
    assert!(parts.contains(&FormPart::File {
        name: "file".to_string(),
        file_name: "audio.wav".to_string(),
    }));

    let body = r#"data: {"delta":"hello ","type":"transcript.text.delta","logprobs":null}

data: {"delta":"window","type":"transcript.text.delta","logprobs":null}

data: {"text":"","type":"transcript.text.done","logprobs":null}

"#;
    assert_eq!(
        transcription_result(true, "200 OK", body.to_string(), true, read_event).unwrap(),
        "hello window"
    );
}

#[test]
fn streaming_sse_done_text_overrides_accumulated_delta_text() {
    let body = r#"data: {"delta":"helo","type":"transcript.text.delta"}

data: {"text":"hello","type":"transcript.text.done"}

"#;

    assert_eq!(parse_streaming_transcript(body, read_event).unwrap(), "hello");
}

#[test]
fn transcribe_file_posts_openai_compatible_multipart() {
    let options = TranscribeOptions {
        model: DEFAULT_MODEL.to_string(),
        response_format: ResponseFormat::Text,
        language: Some("de".to_string()),
        prompt: Some("terminal dictation".to_string()),
        hotwords: Some("Speaches".to_string()),
        without_timestamps: true,
        stream: false,
    };

    assert_eq!(
        transcription_url("http://127.0.0.1:8000").unwrap(),
        "http://127.0.0.1:8000/v1/audio/transcriptions"
    );
    let parts = form_parts(&options, "/tmp/audio.wav");
    for part in [
        field("model", DEFAULT_MODEL),
        field("response_format", "text"),
        field("without_timestamps", "true"),
        field("language", "de"),
        field("prompt", "terminal dictation"),
        field("hotwords", "Speaches"),
        FormPart::File {
            name: "file".to_string(),
            file_name: "audio.wav".to_string(),
        },
    ] {
        assert!(parts.contains(&part));
    }
    assert_eq!(
        transcription_result(
            true,
            "200 OK",
            "hello transcript".to_string(),
            false,
            read_event
        )
        .unwrap(),
        "hello transcript"
    );
}

#[test]
fn every_format_is_found_by_its_name() {
    for format in [
        ResponseFormat::Text,
        ResponseFormat::Json,
        ResponseFormat::VerboseJson,
        ResponseFormat::Srt,
        ResponseFormat::Vtt,
    ] {
        assert_eq!(ResponseFormat::from_name(format.as_str()), Ok(format));
    }
    let error = ResponseFormat::from_name("bogus").unwrap_err();
    assert_eq!(error.message(), "unsupported response format: bogus");
}

#[test]
fn refused_transcriptions_tell_the_status_and_the_body() {
    let error = transcription_result(
        false,
        "503 Service Unavailable",
        "busy".to_string(),
        false,
        read_event,
    )
    .unwrap_err();
    assert_eq!(
        error.message(),
        "transcription failed with HTTP 503 Service Unavailable: busy"
    );
}

#[test]
fn broken_stream_events_are_named() {
    let error = parse_streaming_transcript("data: {\n\n", read_event).unwrap_err();
    match &error {
        SttError::InvalidEvent { event, .. } => assert_eq!(event, "{"),
        _ => panic!("a broken event was taken for another error"),
    }
    assert!(error
        .message()
        .starts_with("invalid transcription SSE event: {: "));
}

#[test]
fn data_lines_of_one_event_belong_together() {
    assert_eq!(
        sse_data_events("event: x\ndata: a\ndata: b\n\n: note\ndata: c\n\ndata: d"),
        vec!["a\nb", "c", "d"]
    );
    assert!(sse_data_events("\n\n").is_empty());
}

#[test]
fn streamed_events_add_up() {
    let mut transcript = StreamedTranscript::default();
    transcript.take_event(stream_event("transcript.text.delta", Some("to"), None));
    transcript.take_event(stream_event("other", Some("x"), Some("y")));
    transcript.take_event(stream_event("transcript.text.delta", None, Some("y")));
    transcript.take_event(stream_event("transcript.text.delta", Some("gether"), None));
    transcript.take_event(stream_event("transcript.text.done", Some("x"), Some(" ")));
    assert_eq!(transcript.into_text(), "together");
}

#[test]
fn events_are_read_in_turn_up_to_the_first_that_is_none() {
    let read = std::cell::RefCell::new(Vec::new());
    let reader = |data: &str| {
        read.borrow_mut().push(data.to_string());
        if data == "c" {
            return Err("no event".to_string());
        }
        Ok(stream_event("transcript.text.delta", Some(data), None))
    };

    assert_eq!(
        parse_streaming_transcript("data: a\n\ndata: [DONE] \n\ndata: b", reader).unwrap(),
        "ab"
    );
    let error = parse_streaming_transcript("data: a\n\ndata: c\n\ndata: d", reader).unwrap_err();
    assert_eq!(
        error.message(),
        "invalid transcription SSE event: c: no event"
    );
    assert_eq!(*read.borrow(), ["a", "b", "a", "c"]);
}
