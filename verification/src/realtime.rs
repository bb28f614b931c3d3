//! The realtime translation protocol: what the client sends up, and how a server frame
//! becomes one of the few events the user interface renders. The socket itself is the
//! caller's part.
//!
//! The wire protocol is *not* delta-based: `text` is the full confirmed text so far and
//! `stash` is the model's tentative continuation, both re-sent in every frame. A consumer
//! replaces what it shows; appending would duplicate.

use vstd::prelude::*;
use crate::config::Settings;
use crate::pcm::{le_bytes, pcm_to_le_bytes};
use crate::text::{chars_of, same_text, string_of, trim, trimmed};

verus! {

/// The event channel the user interface listens on.
pub const EVENT: &'static str = "rt://event";

/// Every server frame, verbatim: the diagnostics drawer reads this channel.
pub const RAW_EVENT: &'static str = "rt://raw";

/// One normalised server event.
pub struct Event {
    /// `source`, `target`, `speech`, `status`, `error` or `progress`.
    pub kind: &'static str,
    pub text: String,
    /// Unconfirmed tail: worth showing, but greyed out; it can still change.
    pub stash: String,
    /// Source language the model detected (transcript events only).
    pub lang: String,
    pub done: bool,
}

/// An event as (kind, text, stash, language, done).
pub type EventView = (Seq<char>, Seq<char>, Seq<char>, Seq<char>, bool);

impl View for Event {
    type V = EventView;

    open spec fn view(&self) -> EventView {
        (self.kind@, self.text@, self.stash@, self.lang@, self.done)
    }
}

/// A status, error or progress notice: an event that carries nothing but a text.
pub fn notice(kind: &'static str, text: String) -> (r: Event)
    ensures
        r@ == (kind@, text@, Seq::<char>::empty(), Seq::<char>::empty(), false),
{
    Event { kind, text, stash: String::new(), lang: String::new(), done: false }
}

/// The string member `key` of the JSON object that `text` holds; `None` where `text` is
/// not JSON, or not an object, or has no member `key`, or one that is not a string.
pub uninterp spec fn json_string_member(text: Seq<char>, key: Seq<char>) -> Option<Seq<char>>;

/// The string that the JSON pointer `pointer` (RFC 6901) reaches in the JSON value that
/// `text` holds; `None` where `text` is not JSON or the pointer reaches no string.
pub uninterp spec fn json_string_at(text: Seq<char>, pointer: Seq<char>) -> Option<Seq<char>>;

/// The characters an optional string holds.
pub open spec fn opt_view(o: Option<String>) -> Option<Seq<char>> {
    match o {
        Some(s) => Some(s@),
        None => None,
    }
}

/// Looks a string member up in a JSON text: `serde_json::from_str` parses the text into a
/// `serde_json::Value` and `Value::get` finds the member. Claimed: the result is a function
/// of the text and the key alone (named `json_string_member`); nothing more is claimed of
/// serde_json's parser.
#[verifier::external_body]
fn string_member(text: &str, key: &str) -> (r: Option<String>)
    ensures
        opt_view(r) == json_string_member(text@, key@),
{
    match serde_json::from_str::<serde_json::Value>(text) {
        Ok(v) => match v.get(key) {
            Some(serde_json::Value::String(s)) => Some(s.clone()),
            _ => None,
        },
        Err(_) => None,
    }
}

/// Follows a JSON pointer in a JSON text: `serde_json::from_str` parses the text and
/// `Value::pointer` follows the pointer. Claimed: the result is a function of the text
/// and the pointer alone (named `json_string_at`); nothing more.
#[verifier::external_body]
fn string_at(text: &str, pointer: &str) -> (r: Option<String>)
    ensures
        opt_view(r) == json_string_at(text@, pointer@),
{
    match serde_json::from_str::<serde_json::Value>(text) {
        Ok(v) => match v.pointer(pointer) {
            Some(serde_json::Value::String(s)) => Some(s.clone()),
            _ => None,
        },
        Err(_) => None,
    }
}

/// What classification reads of a server frame: each string member it may use, `None`
/// where the frame has no such string.
pub struct Frame {
    /// `type`
    pub kind: Option<String>,
    /// `text`
    pub text: Option<String>,
    /// `stash`
    pub stash: Option<String>,
    /// `language`
    pub language: Option<String>,
    /// `transcript`
    pub transcript: Option<String>,
    /// `message`
    pub message: Option<String>,
    /// `error.message`
    pub error_message: Option<String>,
}

/// A frame's members as (type, text, stash, language, transcript, message, error.message).
pub type FrameView = (
    Option<Seq<char>>,
    Option<Seq<char>>,
    Option<Seq<char>>,
    Option<Seq<char>>,
    Option<Seq<char>>,
    Option<Seq<char>>,
    Option<Seq<char>>,
);

impl View for Frame {
    type V = FrameView;

    open spec fn view(&self) -> FrameView {
        (
            opt_view(self.kind),
            opt_view(self.text),
            opt_view(self.stash),
            opt_view(self.language),
            opt_view(self.transcript),
            opt_view(self.message),
            opt_view(self.error_message),
        )
    }
}

/// What a JSON frame text holds for classification.
pub open spec fn frame_of(text: Seq<char>) -> FrameView {
    (
        json_string_member(text, "type"@),
        json_string_member(text, "text"@),
        json_string_member(text, "stash"@),
        json_string_member(text, "language"@),
        json_string_member(text, "transcript"@),
        json_string_member(text, "message"@),
        json_string_at(text, "/error/message"@),
    )
}

/// A member's text, or the empty text where the frame has none.
pub open spec fn or_empty(o: Option<Seq<char>>) -> Seq<char> {
    match o {
        Some(s) => s,
        None => Seq::empty(),
    }
}

/// The event a frame stands for, or `None` for a frame of no interest (one without a
/// `type`, or of a type not listed here).
pub open spec fn event_of(f: FrameView) -> Option<EventView> {
    let empty = Seq::<char>::empty();
    match f.0 {
        None => None,
        Some(t) => if t == "conversation.item.input_audio_transcription.text"@ {
            Some(("source"@, or_empty(f.1), or_empty(f.2), or_empty(f.3), false))
        } else if t == "conversation.item.input_audio_transcription.completed"@ {
            Some(("source"@, or_empty(f.4), empty, or_empty(f.3), true))
        } else if t == "response.text.text"@ || t == "response.audio_transcript.text"@ {
            Some(("target"@, or_empty(f.1), or_empty(f.2), empty, false))
        } else if t == "response.text.done"@ || t == "response.audio_transcript.done"@ {
            Some(("target"@, or_empty(f.1), empty, empty, true))
        } else if t == "input_audio_buffer.speech_started"@ {
            Some(("speech"@, "start"@, empty, empty, false))
        } else if t == "input_audio_buffer.speech_stopped"@ {
            Some(("speech"@, "stop"@, empty, empty, false))
        } else if t == "session.created"@ || t == "session.updated"@ {
            Some(("status"@, "connected"@, empty, empty, false))
        } else if t == "session.finished"@ {
            Some(("status"@, "closed"@, empty, empty, false))
        } else if t == "error"@ {
            Some(
                (
                    "error"@,
                    match f.6 {
                        Some(m) => m,
                        None => match f.5 {
                            Some(m) => m,
                            None => "unknown error"@,
                        },
                    },
                    empty,
                    empty,
                    false,
                ),
            )
        } else {
            None
        }
    }
}

/// An optional event as its view.
pub open spec fn opt_event_view(o: Option<Event>) -> Option<EventView> {
    match o {
        Some(e) => Some(e@),
        None => None,
    }
}

/// The text of an optional member, or the empty text.
fn text_or_empty(o: &Option<String>) -> (r: String)
    ensures
        r@ == or_empty(opt_view(*o)),
{
    match o {
        Some(s) => s.clone(),
        None => String::new(),
    }
}

/// Reads what classification needs from a JSON frame text.
pub fn read_frame(text: &str) -> (r: Frame)
    ensures
        r@ == frame_of(text@),
{
    Frame {
        kind: string_member(text, "type"),
        text: string_member(text, "text"),
        stash: string_member(text, "stash"),
        language: string_member(text, "language"),
        transcript: string_member(text, "transcript"),
        message: string_member(text, "message"),
        error_message: string_at(text, "/error/message"),
    }
}

/// The event a frame stands for, or `None` for a frame of no interest.
pub fn classify(f: &Frame) -> (r: Option<Event>)
    ensures
        opt_event_view(r) == event_of(f@),
{
    let t: &String = match &f.kind {
        None => {
            return None;
        },
        Some(t) => t,
    };
    let t = t.as_str();
    if same_text(t, "conversation.item.input_audio_transcription.text") {
        Some(
            Event {
                kind: "source",
                text: text_or_empty(&f.text),
                stash: text_or_empty(&f.stash),
                lang: text_or_empty(&f.language),
                done: false,
            },
        )
    } else if same_text(t, "conversation.item.input_audio_transcription.completed") {
        Some(
            Event {
                kind: "source",
                text: text_or_empty(&f.transcript),
                stash: String::new(),
                lang: text_or_empty(&f.language),
                done: true,
            },
        )
    } else if same_text(t, "response.text.text") || same_text(t, "response.audio_transcript.text") {
        Some(
            Event {
                kind: "target",
                text: text_or_empty(&f.text),
                stash: text_or_empty(&f.stash),
                lang: String::new(),
                done: false,
            },
        )
    } else if same_text(t, "response.text.done") || same_text(t, "response.audio_transcript.done") {
        Some(
            Event {
                kind: "target",
                text: text_or_empty(&f.text),
                stash: String::new(),
                lang: String::new(),
                done: true,
            },
        )
    } else if same_text(t, "input_audio_buffer.speech_started") {
        Some(notice("speech", String::from_str("start")))
    } else if same_text(t, "input_audio_buffer.speech_stopped") {
        Some(notice("speech", String::from_str("stop")))
    } else if same_text(t, "session.created") || same_text(t, "session.updated") {
        Some(notice("status", String::from_str("connected")))
    } else if same_text(t, "session.finished") {
        Some(notice("status", String::from_str("closed")))
    } else if same_text(t, "error") {
        let message = match &f.error_message {
            Some(m) => m.clone(),
            None => match &f.message {
                Some(m) => m.clone(),
                None => String::from_str("unknown error"),
            },
        };
        Some(notice("error", message))
    } else {
        None
    }
}

/// The event that a JSON frame text stands for, or `None` for a frame of no interest.
pub fn classify_text(text: &str) -> (r: Option<Event>)
    ensures
        opt_event_view(r) == event_of(frame_of(text@)),
{
    classify(&read_frame(text))
}

/// The character of a 6-bit value in the standard base64 alphabet (RFC 4648, table 1).
pub open spec fn base64_digit(v: int) -> char {
    if v < 26 {
        (v + 65) as char
    } else if v < 52 {
        (v - 26 + 97) as char
    } else if v < 62 {
        (v - 52 + 48) as char
    } else if v == 62 {
        '+'
    } else {
        '/'
    }
}

/// Standard base64 of `bytes` (RFC 4648, section 4, with padding): every group of three
/// bytes, read as a 24-bit number, becomes four digits of six bits each; a last group of
/// one or two bytes is filled with zero bits and its missing digits are written `=`.
pub open spec fn standard_base64(bytes: Seq<u8>) -> Seq<char>
    decreases bytes.len(),
{
    if bytes.len() == 0 {
        seq![]
    } else {
        let b1: int = if bytes.len() > 1 {
            bytes[1] as int
        } else {
            0
        };
        let b2: int = if bytes.len() > 2 {
            bytes[2] as int
        } else {
            0
        };
        let n: int = bytes[0] as int * 65536 + b1 * 256 + b2;
        let quad = seq![
            base64_digit(n / 262144),
            base64_digit((n / 4096) % 64),
            if bytes.len() > 1 {
                base64_digit((n / 64) % 64)
            } else {
                '='
            },
            if bytes.len() > 2 {
                base64_digit(n % 64)
            } else {
                '='
            },
        ];
        if bytes.len() <= 3 {
            quad
        } else {
            quad + standard_base64(bytes.skip(3))
        }
    }
}

/// Encodes bytes as standard base64 with `base64::Engine::encode` on `BASE64_STANDARD`.
/// Claimed: the result is the RFC 4648 encoding with padding, as `standard_base64` spells
/// it out. The call panics where the encoded length overflows `usize`, so the bytes are
/// bounded.
#[verifier::external_body]
fn base64_standard(bytes: &[u8]) -> (r: String)
    requires
        bytes@.len() <= usize::MAX / 2,
    ensures
        r@ == standard_base64(bytes@),
{
    base64::Engine::encode(&base64::prelude::BASE64_STANDARD, bytes)
}

/// The `audio` of an `input_audio_buffer.append` frame: the chunk's little-endian PCM
/// bytes, in standard base64.
pub fn encode_audio_chunk(chunk: &[i16]) -> (r: String)
    requires
        chunk@.len() <= usize::MAX / 4,
    ensures
        r@ == standard_base64(le_bytes(chunk@)),
{
    let bytes = pcm_to_le_bytes(chunk);
    base64_standard(bytes.as_slice())
}

/// A base64 digit is a letter, a digit, `+` or `/`: never a quotation mark or a
/// backslash.
proof fn lemma_digit_plain(v: int)
    requires
        0 <= v,
    ensures
        base64_digit(v) != '"',
        base64_digit(v) != '\\',
{
    if v < 26 {
        assert((v + 65) as char as int == v + 65);
    } else if v < 52 {
        assert((v - 26 + 97) as char as int == v - 26 + 97);
    } else if v < 62 {
        assert((v - 52 + 48) as char as int == v - 52 + 48);
    }
}

/// Base64 text needs no escaping inside a JSON string: it holds no quotation mark and no
/// backslash.
pub proof fn lemma_base64_needs_no_escape(bytes: Seq<u8>)
    ensures
        forall|i: int|
            0 <= i < standard_base64(bytes).len() ==> #[trigger] standard_base64(bytes)[i] != '"'
                && standard_base64(bytes)[i] != '\\',
    decreases bytes.len(),
{
    if bytes.len() > 0 {
        let b1: int = if bytes.len() > 1 {
            bytes[1] as int
        } else {
            0
        };
        let b2: int = if bytes.len() > 2 {
            bytes[2] as int
        } else {
            0
        };
        let n: int = bytes[0] as int * 65536 + b1 * 256 + b2;
        assert(n >= 0);
        assert(n / 262144 >= 0 && (n / 4096) % 64 >= 0 && (n / 64) % 64 >= 0 && n % 64 >= 0) by (nonlinear_arith)
            requires
                n >= 0,
        ;
        lemma_digit_plain(n / 262144);
        lemma_digit_plain((n / 4096) % 64);
        lemma_digit_plain((n / 64) % 64);
        lemma_digit_plain(n % 64);
        let quad = seq![
            base64_digit(n / 262144),
            base64_digit((n / 4096) % 64),
            if bytes.len() > 1 {
                base64_digit((n / 64) % 64)
            } else {
                '='
            },
            if bytes.len() > 2 {
                base64_digit(n % 64)
            } else {
                '='
            },
        ];
        assert forall|i: int| 0 <= i < 4 implies quad[i] != '"' && quad[i] != '\\' by {}
        if bytes.len() > 3 {
            let rest = bytes.skip(3);
            lemma_base64_needs_no_escape(rest);
            assert(standard_base64(bytes) == quad + standard_base64(rest));
            assert forall|i: int| 0 <= i < standard_base64(bytes).len() implies #[trigger] standard_base64(bytes)[i] != '"'
                && standard_base64(bytes)[i] != '\\' by {
                if i >= 4 {
                    assert(standard_base64(bytes)[i] == standard_base64(rest)[i - 4]);
                } else {
                    assert(standard_base64(bytes)[i] == quad[i]);
                }
            }
        } else {
            assert(standard_base64(bytes) == quad);
        }
    }
}

/// The text of the `input_audio_buffer.append` frame that carries `audio`.
pub open spec fn append_frame_text(audio: Seq<char>) -> Seq<char> {
    "{\"audio\":\""@ + audio + "\",\"type\":\"input_audio_buffer.append\"}"@
}

/// The `input_audio_buffer.append` frame for a chunk: a JSON object whose `audio` member
/// is the chunk's little-endian PCM in standard base64 (which needs no escaping, see
/// `lemma_base64_needs_no_escape`) and whose `type` names the event.
pub fn append_frame(chunk: &[i16]) -> (r: String)
    requires
        chunk@.len() <= usize::MAX / 4,
    ensures
        r@ == append_frame_text(standard_base64(le_bytes(chunk@))),
{
    let audio = encode_audio_chunk(chunk);
    let mut frame = String::from_str("{\"audio\":\"");
    frame.append(audio.as_str());
    frame.append("\",\"type\":\"input_audio_buffer.append\"}");
    frame
}

/// The frame that tells the server the audio is over.
pub fn finish_frame() -> (r: String)
    ensures
        r@ == "{\"type\":\"session.finish\"}"@,
{
    String::from_str("{\"type\":\"session.finish\"}")
}

/// The `Authorization` header value for these settings (the key without surrounding
/// whitespace, as a bearer token), or the error that an empty key is.
pub fn authorization(settings: &Settings) -> (r: Result<String, String>)
    ensures
        trim(settings.api_key@).len() == 0 ==> (r matches Err(e) && e@ == "API key is empty"@),
        trim(settings.api_key@).len() > 0 ==> (r matches Ok(h) && h@ == "Bearer "@ + trim(
            settings.api_key@,
        )),
{
    let key = trimmed(&chars_of(settings.api_key.as_str()));
    if key.len() == 0 {
        Err(String::from_str("API key is empty"))
    } else {
        let mut header = String::from_str("Bearer ");
        let k = string_of(&key);
        header.append(k.as_str());
        Ok(header)
    }
}

/// How long the reader waits for the next frame: while running a quiet room must not
/// end the session, but once the user stopped, only the tail of the translation is
/// still awaited.
pub fn idle_timeout_secs(stopping: bool) -> (r: u64)
    ensures
        stopping ==> r == 5,
        !stopping ==> r == 90,
{
    if stopping {
        5
    } else {
        90
    }
}

/// What the reader got from the socket.
pub enum Incoming {
    /// A text frame.
    Text(String),
    /// The server closed the connection.
    Close,
    /// A frame of another kind (binary, ping, pong).
    Other,
    /// The socket failed, with the failure's message.
    Failed(String),
    /// Nothing arrived within the idle timeout.
    Idle,
    /// The stream of frames ended.
    Ended,
}

/// What the reader does with what it got.
pub enum ReaderAction {
    /// Hand the frame's text on: to the raw channel and to classification.
    Dispatch(String),
    /// Wait for the next frame.
    Ignore,
    /// Stop reading: the session is over.
    Finish,
    /// Stop reading and report the error.
    Fail(String),
}

/// The reader's decision for one thing it got from the socket: text frames are handed
/// on, other frames ignored; a close, a silent socket or the end of the stream finish the
/// session; a socket failure ends it with an error.
pub fn on_incoming(m: Incoming) -> (r: ReaderAction)
    ensures
        match m {
            Incoming::Text(t) => r == ReaderAction::Dispatch(t),
            Incoming::Other => r is Ignore,
            Incoming::Close | Incoming::Idle | Incoming::Ended => r is Finish,
            Incoming::Failed(e) => r matches ReaderAction::Fail(msg) && msg@ == "socket error: "@ + e@,
        },
{
    match m {
        Incoming::Text(t) => ReaderAction::Dispatch(t),
        Incoming::Other => ReaderAction::Ignore,
        Incoming::Close => ReaderAction::Finish,
        Incoming::Idle => ReaderAction::Finish,
        Incoming::Ended => ReaderAction::Finish,
        Incoming::Failed(e) => {
            let mut msg = String::from_str("socket error: ");
            msg.append(e.as_str());
            ReaderAction::Fail(msg)
        },
    }
}

/// The frame types of the protocol are different texts: equal lengths differ at a
/// character.
proof fn lemma_frame_types_differ()
    ensures
        ("conversation.item.input_audio_transcription.text"@).len() == 48,
        ("conversation.item.input_audio_transcription.completed"@).len() == 53,
        ("response.text.text"@).len() == 18,
        ("response.audio_transcript.text"@).len() == 30,
        ("response.text.done"@).len() == 18,
        ("response.audio_transcript.done"@).len() == 30,
        ("input_audio_buffer.speech_started"@).len() == 33,
        ("input_audio_buffer.speech_stopped"@).len() == 33,
        ("session.created"@).len() == 15,
        ("session.updated"@).len() == 15,
        ("session.finished"@).len() == 16,
        ("error"@).len() == 5,
        "response.text.text"@ != "response.text.done"@,
        "response.audio_transcript.text"@ != "response.audio_transcript.done"@,
        "input_audio_buffer.speech_started"@ != "input_audio_buffer.speech_stopped"@,
        "session.created"@ != "session.updated"@,
{
    reveal_strlit("conversation.item.input_audio_transcription.text");
    reveal_strlit("conversation.item.input_audio_transcription.completed");
    reveal_strlit("response.text.text");
    reveal_strlit("response.audio_transcript.text");
    reveal_strlit("response.text.done");
    reveal_strlit("response.audio_transcript.done");
    reveal_strlit("input_audio_buffer.speech_started");
    reveal_strlit("input_audio_buffer.speech_stopped");
    reveal_strlit("session.created");
    reveal_strlit("session.updated");
    reveal_strlit("session.finished");
    reveal_strlit("error");
    assert(("response.text.text"@)[14] != ("response.text.done"@)[14]);
    assert(("response.audio_transcript.text"@)[26] != ("response.audio_transcript.done"@)[26]);
    assert(("input_audio_buffer.speech_started"@)[28] != ("input_audio_buffer.speech_stopped"@)[28]);
    assert(("session.created"@)[8] != ("session.updated"@)[8]);
}

/// `f` with its type replaced by `t`.
pub open spec fn with_type(f: FrameView, t: Seq<char>) -> FrameView {
    (Some(t), f.1, f.2, f.3, f.4, f.5, f.6)
}

/// The session's lifecycle frames become status notices: a created or updated session is
/// "connected", a finished one "closed", whatever else the frame carries.
pub proof fn lemma_session_frames_are_status_notices(f: FrameView)
    ensures
        event_of(with_type(f, "session.created"@)) == Some(
            ("status"@, "connected"@, Seq::<char>::empty(), Seq::<char>::empty(), false),
        ),
        event_of(with_type(f, "session.updated"@)) == Some(
            ("status"@, "connected"@, Seq::<char>::empty(), Seq::<char>::empty(), false),
        ),
        event_of(with_type(f, "session.finished"@)) == Some(
            ("status"@, "closed"@, Seq::<char>::empty(), Seq::<char>::empty(), false),
        ),
{
    lemma_frame_types_differ();
}

/// Speech frames become "speech" notices: "start" when speech starts, "stop" when it stops.
pub proof fn lemma_speech_frames(f: FrameView)
    ensures
        event_of(with_type(f, "input_audio_buffer.speech_started"@)) == Some(
            ("speech"@, "start"@, Seq::<char>::empty(), Seq::<char>::empty(), false),
        ),
        event_of(with_type(f, "input_audio_buffer.speech_stopped"@)) == Some(
            ("speech"@, "stop"@, Seq::<char>::empty(), Seq::<char>::empty(), false),
        ),
{
    lemma_frame_types_differ();
}

/// A translation in progress carries the confirmed text and the tentative stash, is not
/// done and names no language; a finished translation carries the whole text, no stash,
/// and is done. A missing member reads as empty.
pub proof fn lemma_translation_frames(f: FrameView)
    ensures
        event_of(with_type(f, "response.text.text"@)) == Some(
            ("target"@, or_empty(f.1), or_empty(f.2), Seq::<char>::empty(), false),
        ),
        event_of(with_type(f, "response.text.done"@)) == Some(
            ("target"@, or_empty(f.1), Seq::<char>::empty(), Seq::<char>::empty(), true),
        ),
{
    lemma_frame_types_differ();
}

/// The audio modality's transcript frames are the same content as the text modality's:
/// they become the same events.
pub proof fn lemma_audio_transcript_is_text(f: FrameView)
    ensures
        event_of(with_type(f, "response.audio_transcript.text"@)) == event_of(
            with_type(f, "response.text.text"@),
        ),
        event_of(with_type(f, "response.audio_transcript.done"@)) == event_of(
            with_type(f, "response.text.done"@),
        ),
{
    lemma_frame_types_differ();
}

/// A source transcript in progress carries its text, stash and detected language and is
/// not done; a completed one carries the `transcript` member (not `text`), no stash, the
/// language, and is done.
pub proof fn lemma_transcription_frames(f: FrameView)
    ensures
        event_of(with_type(f, "conversation.item.input_audio_transcription.text"@)) == Some(
            ("source"@, or_empty(f.1), or_empty(f.2), or_empty(f.3), false),
        ),
        event_of(with_type(f, "conversation.item.input_audio_transcription.completed"@))
            == Some(("source"@, or_empty(f.4), Seq::<char>::empty(), or_empty(f.3), true)),
{
    lemma_frame_types_differ();
}

/// An error frame becomes an "error" notice whose text is the nested `error.message`
/// where there is one, else the top-level `message`, else "unknown error".
pub proof fn lemma_error_frames(f: FrameView)
    ensures
        event_of(with_type(f, "error"@)) matches Some(e) && e.0 == "error"@ && e.2.len() == 0
            && e.3.len() == 0 && !e.4,
        f.6 matches Some(m) ==> (event_of(with_type(f, "error"@)) matches Some(e) && e.1 == m),
        (f.6 is None && f.5 is Some) ==> (event_of(with_type(f, "error"@)) matches Some(e)
            && Some(e.1) == f.5),
        f.6 is None && f.5 is None ==> (event_of(with_type(f, "error"@)) matches Some(e) && e.1
            == "unknown error"@),
{
    lemma_frame_types_differ();
}

/// A frame without a type, or of a type the protocol does not list, becomes no event.
pub proof fn lemma_other_frames_are_ignored(f: FrameView)
    ensures
        f.0 is None ==> event_of(f) is None,
        (f.0 matches Some(t) && t != "conversation.item.input_audio_transcription.text"@ && t
            != "conversation.item.input_audio_transcription.completed"@ && t
            != "response.text.text"@ && t != "response.audio_transcript.text"@ && t
            != "response.text.done"@ && t != "response.audio_transcript.done"@ && t
            != "input_audio_buffer.speech_started"@ && t != "input_audio_buffer.speech_stopped"@
            && t != "session.created"@ && t != "session.updated"@ && t != "session.finished"@ && t
            != "error"@) ==> event_of(f) is None,
{
}

} // verus!
