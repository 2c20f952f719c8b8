use serde_json::Value;
use speaches_companion::json::Json;
use speaches_companion::trace::TraceWriter;

fn value(text: &str) -> Value {
    serde_json::from_str(text).unwrap()
}

#[test]
fn trace_writer_preserves_jsonl_order() {
    let mut writer = TraceWriter::default();

    writer.push(value(r#"{"type": "session.created"}"#));
    writer.push(value(
        r#"{"type": "conversation.item.input_audio_transcription.delta", "delta": "hello"}"#,
    ));

    let contents = writer.to_jsonl().unwrap();
    let lines = contents.lines().collect::<Vec<_>>();
    assert_eq!(lines.len(), 2);
    assert_eq!(value(lines[0]), value(r#"{"type": "session.created"}"#));
    assert_eq!(
        value(lines[1]),
        value(r#"{"type": "conversation.item.input_audio_transcription.delta", "delta": "hello"}"#)
    );
}

#[test]
fn trace_lines_are_compact_and_ended() {
    let mut writer = TraceWriter::default();
    assert_eq!(writer.to_jsonl().unwrap(), "");
    writer.push(value("{ \"a\" : [ 1 , 2.50 ] }"));
    assert_eq!(writer.to_jsonl().unwrap(), "{\"a\":[1,2.5]}\n");
    writer.push(value("{\"b\": \"x\\ny\\r\"}"));
    let record = writer.to_jsonl().unwrap();
    assert_eq!(
        record.lines().collect::<Vec<_>>(),
        ["{\"a\":[1,2.5]}", "{\"b\":\"x\\ny\\r\"}"]
    );
}

#[test]
fn json_documents_are_read_by_member() {
    let document = Json::parse(
        r#"{"text": "hi", "flag": true, "id": 7, "half": 0.5, "list": [1], "none": null}"#,
    )
    .unwrap();
    assert_eq!(document.get_str("text"), Some("hi"));
    assert_eq!(document.get("flag").and_then(|v| v.as_bool()), Some(true));
    assert_eq!(document.get("id").and_then(|v| v.as_u64()), Some(7));
    assert_eq!(document.get("half").and_then(|v| v.as_u64()), None);
    assert_eq!(document.get("text").and_then(|v| v.as_bool()), None);
    assert!(matches!(document.get("list"), Some(Json::Array(_))));
    assert!(matches!(document.get("none"), Some(Json::Null)));
    assert!(document.get("missing").is_none());
    assert_eq!(document.get_str("id"), None);
    assert!(Json::parse("[1,").is_err());
}
