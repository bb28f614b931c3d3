use realingo::config::{en, Region, Settings, ASR_MODEL, MODEL};

fn s(region: Region, workspace_id: &str) -> Settings {
    Settings {
        api_key: "k".into(),
        workspace_id: workspace_id.into(),
        region,
        source_lang: "auto".into(),
        target_lang: "en".into(),
    }
}

#[test]
fn url_falls_back_to_public_domain_without_workspace() {
    assert!(s(Region::Beijing, "  ").ws_url().starts_with("wss://dashscope.aliyuncs.com/"));
    assert!(s(Region::Singapore, "")
        .ws_url()
        .starts_with("wss://dashscope-intl.aliyuncs.com/"));
}

#[test]
fn url_uses_dedicated_domain_with_workspace() {
    assert!(s(Region::Beijing, "llm-abc")
        .ws_url()
        .starts_with("wss://llm-abc.cn-beijing.maas.aliyuncs.com/"));
    assert!(s(Region::Singapore, "llm-abc")
        .ws_url()
        .starts_with("wss://llm-abc.ap-southeast-1.maas.aliyuncs.com/"));
}

#[test]
fn url_always_carries_the_model() {
    assert!(s(Region::Beijing, "").ws_url().ends_with(&format!("?model={MODEL}")));
}

#[test]
fn turn_detection_is_configured_not_empty() {
    let vad = s(Region::Beijing, "").session_update();
    assert_eq!(vad.turn_detection, "server_vad");
    assert!(vad.silence_duration_ms > 0);
}

#[test]
fn auto_source_omits_language_field() {
    let v = s(Region::Beijing, "").session_update();
    assert!(v.transcription_language.is_none());

    let mut fixed = s(Region::Beijing, "");
    fixed.source_lang = "zh".into();
    assert_eq!(fixed.session_update().transcription_language.as_deref(), Some("zh"));
}

#[test]
fn url_is_exact_for_each_region() {
    assert_eq!(
        s(Region::Beijing, "").ws_url(),
        "wss://dashscope.aliyuncs.com/api-ws/v1/realtime?model=qwen3.5-livetranslate-flash-realtime"
    );
    assert_eq!(
        s(Region::Singapore, " ws-1\t").ws_url(),
        "wss://ws-1.ap-southeast-1.maas.aliyuncs.com/api-ws/v1/realtime?model=qwen3.5-livetranslate-flash-realtime"
    );
}

#[test]
fn empty_source_language_also_means_detect() {
    let mut st = s(Region::Beijing, "");
    st.source_lang = String::new();
    assert!(st.session_update().transcription_language.is_none());
}

#[test]
fn session_update_carries_the_fixed_parameters() {
    let mut st = s(Region::Singapore, "");
    st.target_lang = "ja".into();
    let u = st.session_update();
    assert_eq!(u.modality, "text");
    assert_eq!(u.input_audio_format, "pcm");
    assert_eq!(u.translation_language, "ja");
    assert_eq!(u.transcription_model, ASR_MODEL);
    assert_eq!(u.vad_threshold_percent, 20);
    assert_eq!(u.silence_duration_ms, 800);
}

#[test]
fn defaults_detect_and_translate_to_english() {
    assert_eq!(realingo::config::auto(), "auto");
    assert_eq!(en(), "en");
    assert_eq!(Region::default(), Region::Beijing);
}

#[test]
fn the_session_frame_configures_turn_detection() {
    let v: serde_json::Value = serde_json::from_str(&s(Region::Beijing, "").session_update_text()).unwrap();
    let vad = &v["session"]["turn_detection"];
    assert_eq!(vad["type"], "server_vad");
    assert!(vad["silence_duration_ms"].as_u64().unwrap() > 0);
    assert_eq!(vad["threshold"].as_f64(), Some(0.2));
    assert_eq!(v["type"], "session.update");
    assert_eq!(v["session"]["modalities"][0], "text");
    assert_eq!(v["session"]["input_audio_format"], "pcm");
    assert_eq!(v["session"]["translation"]["language"], "en");
    assert_eq!(v["session"]["input_audio_transcription"]["model"], ASR_MODEL);
}

#[test]
fn the_session_frame_omits_an_auto_source_language() {
    let v: serde_json::Value = serde_json::from_str(&s(Region::Beijing, "").session_update_text()).unwrap();
    assert!(v["session"]["input_audio_transcription"].get("language").is_none());

    let mut fixed = s(Region::Beijing, "");
    fixed.source_lang = "zh".into();
    let v: serde_json::Value = serde_json::from_str(&fixed.session_update_text()).unwrap();
    assert_eq!(v["session"]["input_audio_transcription"]["language"], "zh");
}

#[test]
fn the_session_frame_escapes_what_the_user_typed() {
    let mut odd = s(Region::Beijing, "");
    odd.source_lang = "z\"h\\".into();
    odd.target_lang = "e\nn\u{1}\t".into();
    let text = odd.session_update_text();
    assert!(text.contains("\"language\":\"z\\\"h\\\\\","));
    assert!(text.contains("\"language\":\"e\\nn\\u0001\\t\"}"));
    let v: serde_json::Value = serde_json::from_str(&text).unwrap();
    assert_eq!(v["session"]["translation"]["language"], "e\nn\u{1}\t");
    assert_eq!(v["session"]["input_audio_transcription"]["language"], "z\"h\\");
}

#[test]
fn the_session_frame_text_is_exact() {
    assert_eq!(
        s(Region::Beijing, "").session_update_text(),
        "{\"session\":{\"input_audio_format\":\"pcm\",\"input_audio_transcription\":{\"model\":\"qwen3-asr-flash-realtime\"},\"modalities\":[\"text\"],\"translation\":{\"language\":\"en\"},\"turn_detection\":{\"silence_duration_ms\":800,\"threshold\":0.2,\"type\":\"server_vad\"}},\"type\":\"session.update\"}"
    );
}
