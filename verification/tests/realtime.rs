use realingo::config::{Region, Settings};
use realingo::realtime::{append_frame, finish_frame, on_incoming, Incoming, ReaderAction};
use realingo::realtime::{
    authorization, classify, classify_text, encode_audio_chunk, idle_timeout_secs, notice,
    read_frame, Frame,
};

#[test]
fn translation_text_is_cumulative_plus_a_tentative_stash() {
    let ev = classify_text(
        "{\"type\":\"response.text.text\",\"text\":\"早上好，各位。\",\"stash\":\"欢迎来到季度\"}",
    )
    .unwrap();
    assert_eq!(ev.kind, "target");
    assert_eq!(ev.text, "早上好，各位。");
    assert_eq!(ev.stash, "欢迎来到季度");
    assert!(!ev.done);
}

#[test]
fn empty_confirmed_text_still_reaches_the_ui() {
    // The first frames of a turn confirm nothing yet; clearing is the correct render.
    let ev = classify_text("{\"type\":\"response.text.text\",\"text\":\"\",\"stash\":\"早上好\"}").unwrap();
    assert_eq!(ev.text, "");
    assert_eq!(ev.stash, "早上好");
}

#[test]
fn done_carries_the_whole_sentence() {
    let ev = classify_text("{\"type\":\"response.text.done\",\"text\":\"早上好，各位。\"}").unwrap();
    assert!(ev.done);
    assert_eq!(ev.text, "早上好，各位。");
    assert_eq!(ev.stash, "");
}

#[test]
fn transcript_completed_reads_the_transcript_field_and_language() {
    let ev = classify_text(
        "{\"type\":\"conversation.item.input_audio_transcription.completed\",\"transcript\":\"Good morning, everyone.\",\"language\":\"en\"}",
    )
    .unwrap();
    assert_eq!(ev.kind, "source");
    assert_eq!(ev.text, "Good morning, everyone.");
    assert_eq!(ev.lang, "en");
    assert!(ev.done);
}

#[test]
fn unknown_events_are_ignored() {
    assert!(classify_text("{\"type\":\"response.output_item.added\"}").is_none());
    assert!(classify_text("{\"no_type\":1}").is_none());
}

#[test]
fn errors_prefer_the_nested_message() {
    let ev = classify_text("{\"type\":\"error\",\"error\":{\"message\":\"bad key\"},\"message\":\"outer\"}")
        .unwrap();
    assert_eq!(ev.kind, "error");
    assert_eq!(ev.text, "bad key");
    let ev = classify_text("{\"type\":\"error\",\"message\":\"outer\"}").unwrap();
    assert_eq!(ev.text, "outer");
    let ev = classify_text("{\"type\":\"error\"}").unwrap();
    assert_eq!(ev.text, "unknown error");
}

#[test]
fn speech_and_session_events_become_notices() {
    let ev = classify_text("{\"type\":\"input_audio_buffer.speech_started\"}").unwrap();
    assert_eq!((ev.kind, ev.text.as_str()), ("speech", "start"));
    let ev = classify_text("{\"type\":\"input_audio_buffer.speech_stopped\"}").unwrap();
    assert_eq!((ev.kind, ev.text.as_str()), ("speech", "stop"));
    let ev = classify_text("{\"type\":\"session.updated\"}").unwrap();
    assert_eq!((ev.kind, ev.text.as_str()), ("status", "connected"));
    let ev = classify_text("{\"type\":\"session.finished\"}").unwrap();
    assert_eq!((ev.kind, ev.text.as_str()), ("status", "closed"));
}

#[test]
fn source_text_carries_its_stash_and_language() {
    let ev = classify_text(
        "{\"type\":\"conversation.item.input_audio_transcription.text\",\"text\":\"Good\",\"stash\":\" morning\",\"language\":\"en\"}",
    )
    .unwrap();
    assert_eq!(ev.kind, "source");
    assert_eq!(ev.text, "Good");
    assert_eq!(ev.stash, " morning");
    assert_eq!(ev.lang, "en");
    assert!(!ev.done);
}

#[test]
fn members_that_are_not_strings_read_as_absent() {
    let f = read_frame("{\"type\":\"response.text.text\",\"text\":5}");
    assert_eq!(f.kind.as_deref(), Some("response.text.text"));
    assert_eq!(f.text, None);
    let f = read_frame("not json");
    assert_eq!(f.kind, None);
    let ev = classify(&Frame {
        kind: Some("response.audio_transcript.done".into()),
        text: Some("x".into()),
        stash: Some("ignored".into()),
        language: None,
        transcript: None,
        message: None,
        error_message: None,
    })
    .unwrap();
    assert_eq!((ev.kind, ev.text.as_str(), ev.stash.as_str(), ev.done), ("target", "x", "", true));
}

#[test]
fn audio_is_sent_as_base64_of_little_endian_samples() {
    // [1, -2] is the bytes 01 00 fe ff.
    assert_eq!(encode_audio_chunk(&[1, -2]), "AQD+/w==");
    assert_eq!(encode_audio_chunk(&[]), "");
}

fn settings(key: &str) -> Settings {
    Settings {
        api_key: key.into(),
        workspace_id: String::new(),
        region: Region::Beijing,
        source_lang: "auto".into(),
        target_lang: "en".into(),
    }
}

#[test]
fn the_key_is_sent_as_a_bearer_token() {
    assert_eq!(authorization(&settings("  sk-1 \n")).unwrap(), "Bearer sk-1");
    assert_eq!(authorization(&settings(" \t")).unwrap_err(), "API key is empty");
}

#[test]
fn the_reader_waits_less_once_stopping() {
    assert_eq!(idle_timeout_secs(true), 5);
    assert_eq!(idle_timeout_secs(false), 90);
}

#[test]
fn notices_carry_only_their_text() {
    let ev = notice("progress", "1.0/2.0".into());
    assert_eq!((ev.kind, ev.text.as_str(), ev.stash.as_str(), ev.lang.as_str(), ev.done), ("progress", "1.0/2.0", "", "", false));
}

#[test]
fn the_reader_hands_on_text_and_stops_on_close_silence_or_failure() {
    assert!(matches!(on_incoming(Incoming::Text("{}".into())), ReaderAction::Dispatch(t) if t == "{}"));
    assert!(matches!(on_incoming(Incoming::Other), ReaderAction::Ignore));
    assert!(matches!(on_incoming(Incoming::Close), ReaderAction::Finish));
    assert!(matches!(on_incoming(Incoming::Idle), ReaderAction::Finish));
    assert!(matches!(on_incoming(Incoming::Ended), ReaderAction::Finish));
    assert!(matches!(on_incoming(Incoming::Failed("reset".into())), ReaderAction::Fail(m) if m == "socket error: reset"));
}

#[test]
fn uplink_frames_are_fixed_json_around_base64() {
    let frame = append_frame(&[1, -2]);
    assert_eq!(frame, "{\"audio\":\"AQD+/w==\",\"type\":\"input_audio_buffer.append\"}");
    let v: serde_json::Value = serde_json::from_str(&frame).unwrap();
    assert_eq!(v["type"], "input_audio_buffer.append");
    assert_eq!(v["audio"], "AQD+/w==");
    assert_eq!(finish_frame(), "{\"type\":\"session.finish\"}");
}
