//! Connection settings: which endpoint to dial, and the session the app asks for.

use vstd::prelude::*;
use crate::json::{is_plain, json_string, lemma_plain_text_is_quoted_as_is, quoted};
use crate::text::{chars_of, has_prefix, same_text, trim, trimmed, string_of};

verus! {

/// The translation model.
pub const MODEL: &'static str = "qwen3.5-livetranslate-flash-realtime";

/// The model that transcribes the source speech.
pub const ASR_MODEL: &'static str = "qwen3-asr-flash-realtime";

/// Where the service runs.
#[derive(Debug, Clone, Copy, PartialEq, Eq, Structural)]
pub enum Region {
    Beijing,
    Singapore,
}

impl Default for Region {
    fn default() -> (r: Region)
        ensures
            r == Region::Beijing,
    {
        Region::Beijing
    }
}

/// What the user configured.
#[derive(Debug, Clone)]
pub struct Settings {
    pub api_key: String,
    /// Optional. Empty => the shared public endpoint; set => the workspace's dedicated domain.
    pub workspace_id: String,
    pub region: Region,
    /// "auto" means: omit `language` entirely and let the model detect it.
    pub source_lang: String,
    pub target_lang: String,
}

/// The source language of settings that name none: detect it.
pub fn auto() -> (r: String)
    ensures
        r@ == "auto"@,
{
    String::from_str("auto")
}

/// The target language of settings that name none: English.
pub fn en() -> (r: String)
    ensures
        r@ == "en"@,
{
    String::from_str("en")
}

/// The host to dial: the shared endpoint of the region where `workspace` is empty, the
/// workspace's dedicated domain in that region otherwise.
pub open spec fn host_of(region: Region, workspace: Seq<char>) -> Seq<char> {
    match region {
        Region::Beijing => if workspace.len() == 0 {
            "dashscope.aliyuncs.com"@
        } else {
            workspace + ".cn-beijing.maas.aliyuncs.com"@
        },
        Region::Singapore => if workspace.len() == 0 {
            "dashscope-intl.aliyuncs.com"@
        } else {
            workspace + ".ap-southeast-1.maas.aliyuncs.com"@
        },
    }
}

/// The WebSocket URL for a region and a workspace id as configured (surrounding
/// whitespace in the id does not count).
pub open spec fn endpoint(region: Region, workspace_id: Seq<char>) -> Seq<char> {
    "wss://"@ + host_of(region, trim(workspace_id)) + "/api-ws/v1/realtime?model="@ + MODEL@
}

/// Whether `s` ends with `p`.
pub open spec fn has_suffix(s: Seq<char>, p: Seq<char>) -> bool {
    p.len() <= s.len() && s.skip(s.len() - p.len()) == p
}

/// Every endpoint starts with the secure WebSocket scheme and names the model last.
pub proof fn lemma_endpoint_shape(region: Region, workspace_id: Seq<char>)
    ensures
        has_prefix(endpoint(region, workspace_id), "wss://"@),
        has_suffix(endpoint(region, workspace_id), "?model="@ + MODEL@),
{
    let e = endpoint(region, workspace_id);
    let head = "wss://"@ + host_of(region, trim(workspace_id)) + "/api-ws/v1/realtime"@;
    reveal_strlit("/api-ws/v1/realtime?model=");
    reveal_strlit("/api-ws/v1/realtime");
    reveal_strlit("?model=");
    assert("/api-ws/v1/realtime?model="@ =~= "/api-ws/v1/realtime"@ + "?model="@);
    assert(e =~= head + ("?model="@ + MODEL@));
    assert(e.skip(e.len() - ("?model="@ + MODEL@).len()) =~= "?model="@ + MODEL@);
    assert(e.take(("wss://"@).len() as int) =~= "wss://"@);
}

/// A workspace id that is empty or nothing but whitespace dials the region's shared
/// public endpoint.
pub proof fn lemma_blank_workspace_uses_shared_endpoint(region: Region, workspace_id: Seq<char>)
    requires
        trim(workspace_id).len() == 0,
    ensures
        endpoint(region, workspace_id) == "wss://"@ + (match region {
            Region::Beijing => "dashscope.aliyuncs.com"@,
            Region::Singapore => "dashscope-intl.aliyuncs.com"@,
        }) + "/api-ws/v1/realtime?model="@ + MODEL@,
{
}

/// A workspace id that holds more than whitespace dials the workspace's dedicated domain
/// in the region, named by the id without its surrounding whitespace; the URL always asks
/// for the translation model `qwen3.5-livetranslate-flash-realtime`.
pub proof fn lemma_workspace_uses_dedicated_domain(region: Region, workspace_id: Seq<char>)
    requires
        trim(workspace_id).len() > 0,
    ensures
        endpoint(region, workspace_id) == "wss://"@ + trim(workspace_id) + (match region {
            Region::Beijing => ".cn-beijing.maas.aliyuncs.com"@,
            Region::Singapore => ".ap-southeast-1.maas.aliyuncs.com"@,
        }) + "/api-ws/v1/realtime?model=qwen3.5-livetranslate-flash-realtime"@,
{
    reveal_strlit("/api-ws/v1/realtime?model=");
    reveal_strlit("qwen3.5-livetranslate-flash-realtime");
    reveal_strlit("/api-ws/v1/realtime?model=qwen3.5-livetranslate-flash-realtime");
    assert(MODEL@ == "qwen3.5-livetranslate-flash-realtime"@);
    assert("/api-ws/v1/realtime?model="@ + MODEL@
        =~= "/api-ws/v1/realtime?model=qwen3.5-livetranslate-flash-realtime"@);
    let w = trim(workspace_id);
    match region {
        Region::Beijing => {
            assert(endpoint(region, workspace_id) =~= "wss://"@ + w
                + ".cn-beijing.maas.aliyuncs.com"@
                + "/api-ws/v1/realtime?model=qwen3.5-livetranslate-flash-realtime"@);
        },
        Region::Singapore => {
            assert(endpoint(region, workspace_id) =~= "wss://"@ + w
                + ".ap-southeast-1.maas.aliyuncs.com"@
                + "/api-ws/v1/realtime?model=qwen3.5-livetranslate-flash-realtime"@);
        },
    }
}

/// The session that the app asks the service for: text only (subtitles are rendered,
/// nothing is spoken), 16 kHz PCM in, and server-side voice activity detection with its
/// parameters spelled out.
pub struct SessionUpdate {
    /// The output modality.
    pub modality: &'static str,
    /// The format of the audio sent.
    pub input_audio_format: &'static str,
    /// The language to translate into.
    pub translation_language: String,
    /// The model that transcribes the source.
    pub transcription_model: &'static str,
    /// The source language, or `None` to have the model detect it.
    pub transcription_language: Option<String>,
    /// The kind of turn detection.
    pub turn_detection: &'static str,
    /// The voice activity threshold, in hundredths.
    pub vad_threshold_percent: u32,
    /// How long a silence closes a turn.
    pub silence_duration_ms: u32,
}

/// The source language to name in a session: none where the settings say "auto" or
/// nothing, which is what asks the model to detect it.
pub open spec fn source_language(source_lang: Seq<char>) -> Option<Seq<char>> {
    if source_lang == "auto"@ || source_lang.len() == 0 {
        None
    } else {
        Some(source_lang)
    }
}

/// The `session.update` frame, as `serde_json` prints the session these settings ask for
/// (members in key order): the transcription names the source language only where one is
/// set, and the turn detection spells out its parameters (a threshold of 0.2, 800 ms of
/// silence).
pub open spec fn session_frame(source: Option<Seq<char>>, target: Seq<char>) -> Seq<char> {
    "{\"session\":{\"input_audio_format\":\"pcm\",\"input_audio_transcription\":{"@
        + match source {
        Some(l) => "\"language\":"@ + quoted(l) + ","@,
        None => Seq::<char>::empty(),
    } + "\"model\":"@ + quoted(ASR_MODEL@) + "},\"modalities\":[\"text\"],\"translation\":{\"language\":"@
        + quoted(target)
        + "},\"turn_detection\":{\"silence_duration_ms\":800,\"threshold\":0.2,\"type\":\"server_vad\"}},\"type\":\"session.update\"}"@
}

/// The layout of the session frame. Without a source language it is fixed text around
/// the quoted target language, and its transcription names the model
/// `qwen3-asr-flash-realtime`; with one, the only difference is the `language` member with
/// the quoted source language, in front of the same model member.
pub proof fn lemma_session_frame_layout(source: Option<Seq<char>>, target: Seq<char>)
    ensures
        session_frame(None, target) == "{\"session\":{\"input_audio_format\":\"pcm\",\"input_audio_transcription\":{"@ + "\"model\":\"qwen3-asr-flash-realtime\"},\"modalities\":[\"text\"],\"translation\":{\"language\":"@ + quoted(target) + "},\"turn_detection\":{\"silence_duration_ms\":800,\"threshold\":0.2,\"type\":\"server_vad\"}},\"type\":\"session.update\"}"@,
        source matches Some(l) ==> session_frame(source, target) == "{\"session\":{\"input_audio_format\":\"pcm\",\"input_audio_transcription\":{"@ + ("\"language\":"@
            + quoted(l) + ","@) + session_frame(None, target).skip(("{\"session\":{\"input_audio_format\":\"pcm\",\"input_audio_transcription\":{"@).len() as int),
{
    reveal_strlit("{\"session\":{\"input_audio_format\":\"pcm\",\"input_audio_transcription\":{");
    reveal_strlit("\"model\":\"qwen3-asr-flash-realtime\"},\"modalities\":[\"text\"],\"translation\":{\"language\":");
    reveal_strlit("},\"turn_detection\":{\"silence_duration_ms\":800,\"threshold\":0.2,\"type\":\"server_vad\"}},\"type\":\"session.update\"}");
    reveal_strlit("qwen3-asr-flash-realtime");
    reveal_strlit("\"model\":");
    reveal_strlit("},\"modalities\":[\"text\"],\"translation\":{\"language\":");
    let asr = "qwen3-asr-flash-realtime"@;
    assert(ASR_MODEL@ == asr);
    assert forall|i: int| 0 <= i < asr.len() implies is_plain(#[trigger] asr[i]) by {}
    lemma_plain_text_is_quoted_as_is(asr);
    let head = "{\"session\":{\"input_audio_format\":\"pcm\",\"input_audio_transcription\":{"@;
    let model = "\"model\":"@ + quoted(ASR_MODEL@) + "},\"modalities\":[\"text\"],\"translation\":{\"language\":"@;
    assert(model =~= "\"model\":\"qwen3-asr-flash-realtime\"},\"modalities\":[\"text\"],\"translation\":{\"language\":"@);
    let rest = model + quoted(target) + "},\"turn_detection\":{\"silence_duration_ms\":800,\"threshold\":0.2,\"type\":\"server_vad\"}},\"type\":\"session.update\"}"@;
    assert(session_frame(None, target) =~= head + rest);
    assert((head + rest).skip(head.len() as int) =~= rest);
    match source {
        Some(l) => {
            assert(session_frame(source, target) =~= head + ("\"language\":"@ + quoted(l) + ","@)
                + rest);
        },
        None => {},
    }
}

impl Settings {
    /// The WebSocket URL these settings dial.
    pub fn ws_url(&self) -> (r: String)
        ensures
            r@ == endpoint(self.region, self.workspace_id@),
    {
        let ws_chars = chars_of(self.workspace_id.as_str());
        let ws_trimmed = trimmed(&ws_chars);
        let ws = string_of(&ws_trimmed);
        let empty = ws_trimmed.len() == 0;
        let host = match (self.region, empty) {
            (Region::Beijing, true) => String::from_str("dashscope.aliyuncs.com"),
            (Region::Beijing, false) => ws.concat(".cn-beijing.maas.aliyuncs.com"),
            (Region::Singapore, true) => String::from_str("dashscope-intl.aliyuncs.com"),
            (Region::Singapore, false) => ws.concat(".ap-southeast-1.maas.aliyuncs.com"),
        };
        let mut url = String::from_str("wss://");
        url.append(host.as_str());
        url.append("/api-ws/v1/realtime?model=");
        url.append(MODEL);
        url
    }

    /// The text of the `session.update` frame these settings send.
    pub fn session_update_text(&self) -> (r: String)
        ensures
            r@ == session_frame(source_language(self.source_lang@), self.target_lang@),
    {
        let u = self.session_update();
        let mut frame = String::from_str(
            "{\"session\":{\"input_audio_format\":\"pcm\",\"input_audio_transcription\":{",
        );
        match &u.transcription_language {
            Some(l) => {
                frame.append("\"language\":");
                let q = json_string(l.as_str());
                frame.append(q.as_str());
                frame.append(",");
            },
            None => {},
        }
        frame.append("\"model\":");
        let m = json_string(ASR_MODEL);
        frame.append(m.as_str());
        frame.append("},\"modalities\":[\"text\"],\"translation\":{\"language\":");
        let t = json_string(self.target_lang.as_str());
        frame.append(t.as_str());
        frame.append(
            "},\"turn_detection\":{\"silence_duration_ms\":800,\"threshold\":0.2,\"type\":\"server_vad\"}},\"type\":\"session.update\"}",
        );
        frame
    }

    /// The `session.update` these settings send.
    pub fn session_update(&self) -> (r: SessionUpdate)
        ensures
            r.modality@ == "text"@,
            r.input_audio_format@ == "pcm"@,
            r.translation_language@ == self.target_lang@,
            r.transcription_model@ == ASR_MODEL@,
            match r.transcription_language {
                Some(l) => source_language(self.source_lang@) == Some(l@),
                None => source_language(self.source_lang@) is None,
            },
            r.turn_detection@ == "server_vad"@,
            r.vad_threshold_percent == 20,
            r.silence_duration_ms == 800,
    {
        let language = if same_text(self.source_lang.as_str(), "auto")
            || self.source_lang.as_str().is_empty() {
            None
        } else {
            Some(self.source_lang.clone())
        };
        SessionUpdate {
            modality: "text",
            input_audio_format: "pcm",
            translation_language: self.target_lang.clone(),
            transcription_model: ASR_MODEL,
            transcription_language: language,
            turn_detection: "server_vad",
            vad_threshold_percent: 20,
            silence_duration_ms: 800,
        }
    }
}

} // verus!
