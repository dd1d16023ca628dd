//! Speech: recordings that come in, and replies that are read aloud.

use crate::channels::settings;
use crate::channels::settings::{ChannelSettings, SettingsView};
use crate::json;
use crate::json::{field, record, Json, Tree};
use crate::text as t;
use vstd::prelude::*;
use vstd::string::*;

verus! {

/// The largest recording that is fetched, in bytes.
pub const MAX_TELEGRAM_AUDIO_BYTES: u64 = 19_922_944;

/// What is done about a recording.
#[derive(Debug, PartialEq, Eq)]
pub enum VoiceStep<S> {
    Reply { text: S },
    /// Note the failure, and say so.
    Complain { action: S, audit: S, reply: S },
    /// Note it, say what was heard, and hand it to the agent.
    Heard { action: S, audit: S, echo: S, prompt: S },
}

impl View for VoiceStep<String> {
    type V = VoiceStep<Seq<char>>;

    open spec fn view(&self) -> VoiceStep<Seq<char>> {
        match self {
            VoiceStep::Reply { text } => VoiceStep::Reply { text: text@ },
            VoiceStep::Complain { action, audit, reply } => VoiceStep::Complain {
                action: action@,
                audit: audit@,
                reply: reply@,
            },
            VoiceStep::Heard { action, audit, echo, prompt } => VoiceStep::Heard {
                action: action@,
                audit: audit@,
                echo: echo@,
                prompt: prompt@,
            },
        }
    }
}

/// What is said where the recording could not be fetched.
pub fn voice_download_failed_text(error: &str) -> (r: String)
    ensures
        r@ == "I couldn't download that voice message: "@ + error@,
{
    "I couldn't download that voice message: ".to_owned().concat(error)
}

pub open spec fn voice_step(provider: Seq<char>, heard: Result<Seq<char>, Seq<char>>) -> VoiceStep<Seq<char>> {
    match heard {
        Ok(text) => {
            let words = t::trimmed(text);
            if words.len() == 0 {
                VoiceStep::Reply {
                    text: "I heard a voice message but couldn't make out any words. Try again, or send text."@,
                }
            } else {
                VoiceStep::Heard {
                    action: "channel.telegram.voice"@,
                    audit: "transcribed "@ + t::decimal(words.len()) + " chars via "@ + provider,
                    echo: "🎙️ \""@ + t::shortened(words, 400) + "\""@,
                    prompt: words,
                }
            }
        },
        Err(error) => VoiceStep::Complain {
            action: "channel.telegram.voice_error"@,
            audit: "STT failed via "@ + provider + ": "@ + error,
            reply: "I couldn't transcribe that voice message (provider: "@ + provider + "): "@ + error
                + "\n\nSet a transcription key in pipelock (e.g. `pipelock:elevenlabs/api-key`)."@,
        },
    }
}

pub open spec fn heard_view(r: Result<&str, &str>) -> Result<Seq<char>, Seq<char>> {
    match r {
        Ok(s) => Ok(s@),
        Err(e) => Err(e@),
    }
}

/// Decides about a recording, from what the provider heard in it.
pub fn handle_telegram_voice(provider: &str, heard: Result<&str, &str>) -> (r: VoiceStep<String>)
    ensures
        r@ == voice_step(provider@, heard_view(heard)),
{
    match heard {
        Ok(text) => {
            let words = t::trim(text);
            if words.as_str().is_empty() {
                VoiceStep::Reply {
                    text: "I heard a voice message but couldn't make out any words. Try again, or send text.".to_owned(),
                }
            } else {
                VoiceStep::Heard {
                    action: "channel.telegram.voice".to_owned(),
                    audit: "transcribed ".to_owned().concat(
                        t::usize_text(words.as_str().unicode_len()).as_str(),
                    ).concat(" chars via ").concat(provider),
                    echo: "🎙️ \"".to_owned().concat(t::shorten(words.as_str(), 400).as_str()).concat("\""),
                    prompt: words,
                }
            }
        },
        Err(error) => VoiceStep::Complain {
            action: "channel.telegram.voice_error".to_owned(),
            audit: "STT failed via ".to_owned().concat(provider).concat(": ").concat(error),
            reply: "I couldn't transcribe that voice message (provider: ".to_owned().concat(provider).concat(
                "): ",
            ).concat(error).concat(
                "\n\nSet a transcription key in pipelock (e.g. `pipelock:elevenlabs/api-key`).",
            ),
        },
    }
}

/// Which providers have a key.
#[derive(Clone, Copy, Debug, PartialEq, Eq, Structural)]
pub struct SpeechKeys {
    pub elevenlabs: bool,
    pub openai: bool,
    pub deepgram: bool,
}

impl SpeechKeys {
    pub open spec fn has(self, provider: Seq<char>) -> bool {
        if provider == "elevenlabs"@ {
            self.elevenlabs
        } else if provider == "openai"@ {
            self.openai
        } else if provider == "deepgram"@ {
            self.deepgram
        } else {
            false
        }
    }

    pub fn has_key(&self, provider: &str) -> (r: bool)
        ensures
            r == self.has(provider@),
    {
        if t::same(provider, "elevenlabs") {
            self.elevenlabs
        } else if t::same(provider, "openai") {
            self.openai
        } else if t::same(provider, "deepgram") {
            self.deepgram
        } else {
            false
        }
    }
}

pub open spec fn listener(keys: SpeechKeys, preferred: Option<Seq<char>>) -> Seq<char> {
    if preferred is Some && keys.has(t::lower(preferred->0)) {
        t::lower(preferred->0)
    } else if keys.elevenlabs {
        "elevenlabs"@
    } else if keys.openai {
        "openai"@
    } else if keys.deepgram {
        "deepgram"@
    } else {
        "elevenlabs"@
    }
}

/// Who transcribes: the provider that also speaks, where it has a key; else the
/// first one that has.
pub fn stt_provider(keys: &SpeechKeys, preferred: Option<&str>) -> (r: String)
    ensures
        r@ == listener(*keys, t::opt_str(preferred)),
{
    match preferred {
        Some(p) => {
            let name = t::to_lower(p);
            if keys.has_key(name.as_str()) {
                return name;
            }
        },
        None => {},
    }
    if keys.elevenlabs {
        "elevenlabs".to_owned()
    } else if keys.openai {
        "openai".to_owned()
    } else if keys.deepgram {
        "deepgram".to_owned()
    } else {
        "elevenlabs".to_owned()
    }
}

/// Whose service is called.
#[derive(Clone, Copy, Debug, PartialEq, Eq, Structural)]
pub enum Speaker {
    ElevenLabs,
    OpenAi,
    Deepgram,
}

/// Who reads aloud; OpenAI where the name is none of the others.
pub open spec fn speaker_of(provider: Seq<char>) -> Speaker {
    if t::lower(provider) == "elevenlabs"@ {
        Speaker::ElevenLabs
    } else if t::lower(provider) == "deepgram"@ {
        Speaker::Deepgram
    } else {
        Speaker::OpenAi
    }
}

/// Who transcribes; ElevenLabs where the name is none of the others.
pub open spec fn hearer_of(provider: Seq<char>) -> Speaker {
    if t::lower(provider) == "openai"@ {
        Speaker::OpenAi
    } else if t::lower(provider) == "deepgram"@ {
        Speaker::Deepgram
    } else {
        Speaker::ElevenLabs
    }
}

/// The text that is read aloud, and by whom: nothing where reading aloud is off,
/// or there is nothing to say.
pub open spec fn spoken(s: SettingsView, text: Seq<char>, sentinel: Seq<char>) -> Option<(Seq<char>, Seq<char>)> {
    let words = t::trimmed(text);
    if !s.tts_enabled || words.len() == 0 || words == sentinel {
        None
    } else {
        Some((settings::or_words(s.tts_provider, "openai"@), t::head(words, 4000)))
    }
}

pub fn maybe_send_tts(s: &ChannelSettings, text: &str, sentinel: &str) -> (r: Option<(String, String)>)
    ensures
        t::pair_view(r) == spoken(s@, text@, sentinel@),
{
    let words = t::trim(text);
    if !s.tts_enabled || words.as_str().is_empty() || t::same(words.as_str(), sentinel) {
        return None;
    }
    let provider = settings::or_text(&s.tts_provider, "openai");
    Some((provider, t::take_chars(words.as_str(), 4000)))
}

/// A request to a speech service: where its key is kept, the address, the header
/// that carries the key and what stands in front of it there, the kind of answer
/// that is asked for where one is, and the document.
pub struct SpeechRequest {
    pub key_source: &'static str,
    pub url: &'static str,
    pub key_header: &'static str,
    pub key_prefix: &'static str,
    pub accept: Option<&'static str>,
    pub body: Json,
}

pub open spec fn speech_body(speaker: Speaker, text: Seq<char>) -> Tree {
    match speaker {
        Speaker::ElevenLabs => Tree::Record(
            seq![("text"@, Tree::Text(text)), ("model_id"@, Tree::Text("eleven_multilingual_v2"@))],
        ),
        Speaker::Deepgram => Tree::Record(seq![("text"@, Tree::Text(text))]),
        Speaker::OpenAi => Tree::Record(
            seq![
                ("model"@, Tree::Text("tts-1"@)),
                ("input"@, Tree::Text(text)),
                ("voice"@, Tree::Text("alloy"@)),
                ("response_format"@, Tree::Text("mp3"@)),
            ],
        ),
    }
}

/// The request that has a text read aloud.
pub fn synthesize_speech(provider: &str, text: &str) -> (r: SpeechRequest)
    ensures
        r.body@ == speech_body(speaker_of(provider@), text@),
        t::opt_str(r.accept) == if speaker_of(provider@) == Speaker::ElevenLabs {
            Some("audio/mpeg"@)
        } else {
            None
        },
        (r.key_source@, r.url@, r.key_header@, r.key_prefix@) == match speaker_of(provider@) {
            Speaker::ElevenLabs => (
                "pipelock:elevenlabs/api-key"@,
                "https://api.elevenlabs.io/v1/text-to-speech/21m00Tcm4TlvDq8ikWAM"@,
                "xi-api-key"@,
                ""@,
            ),
            Speaker::Deepgram => (
                "pipelock:deepgram/api-key"@,
                "https://api.deepgram.com/v1/speak?model=aura-asteria-en"@,
                "authorization"@,
                "Token "@,
            ),
            Speaker::OpenAi => (
                "pipelock:openai/api-key"@,
                "https://api.openai.com/v1/audio/speech"@,
                "authorization"@,
                "Bearer "@,
            ),
        },
{
    let name = t::to_lower(provider);
    let mut f: Vec<(String, Json)> = Vec::new();
    if t::same(name.as_str(), "elevenlabs") {
        field(&mut f, "text", Json::Text(text.to_owned()));
        field(&mut f, "model_id", Json::Text("eleven_multilingual_v2".to_owned()));
        assert(json::entries(f@) =~= speech_body(Speaker::ElevenLabs, text@)->Record_0);
        SpeechRequest {
            key_source: "pipelock:elevenlabs/api-key",
            url: "https://api.elevenlabs.io/v1/text-to-speech/21m00Tcm4TlvDq8ikWAM",
            key_header: "xi-api-key",
            key_prefix: "",
            accept: Some("audio/mpeg"),
            body: record(f),
        }
    } else if t::same(name.as_str(), "deepgram") {
        field(&mut f, "text", Json::Text(text.to_owned()));
        assert(json::entries(f@) =~= speech_body(Speaker::Deepgram, text@)->Record_0);
        SpeechRequest {
            key_source: "pipelock:deepgram/api-key",
            url: "https://api.deepgram.com/v1/speak?model=aura-asteria-en",
            key_header: "authorization",
            key_prefix: "Token ",
            accept: None,
            body: record(f),
        }
    } else {
        field(&mut f, "model", Json::Text("tts-1".to_owned()));
        field(&mut f, "input", Json::Text(text.to_owned()));
        field(&mut f, "voice", Json::Text("alloy".to_owned()));
        field(&mut f, "response_format", Json::Text("mp3".to_owned()));
        assert(json::entries(f@) =~= speech_body(Speaker::OpenAi, text@)->Record_0);
        SpeechRequest {
            key_source: "pipelock:openai/api-key",
            url: "https://api.openai.com/v1/audio/speech",
            key_header: "authorization",
            key_prefix: "Bearer ",
            accept: None,
            body: record(f),
        }
    }
}

/// A request to have a recording transcribed.
#[derive(Debug, PartialEq, Eq)]
pub struct HearingRequest {
    pub service: Speaker,
    pub key_source: &'static str,
    pub url: &'static str,
    pub key_header: &'static str,
    pub key_prefix: &'static str,
    pub content_type: String,
    pub payload: Vec<u8>,
}

/// The request that has a recording transcribed.
pub fn transcribe_speech(provider: &str, filename: &str, audio: &Vec<u8>) -> (r: HearingRequest)
    ensures
        r.service == hearer_of(provider@),
        (r.key_source@, r.url@, r.key_header@, r.key_prefix@) == match hearer_of(provider@) {
            Speaker::OpenAi => (
                "pipelock:openai/api-key"@,
                "https://api.openai.com/v1/audio/transcriptions"@,
                "authorization"@,
                "Bearer "@,
            ),
            Speaker::Deepgram => (
                "pipelock:deepgram/api-key"@,
                "https://api.deepgram.com/v1/listen?model=nova-2&smart_format=true"@,
                "authorization"@,
                "Token "@,
            ),
            Speaker::ElevenLabs => (
                "pipelock:elevenlabs/api-key"@,
                "https://api.elevenlabs.io/v1/speech-to-text"@,
                "xi-api-key"@,
                ""@,
            ),
        },
        r.content_type@ == match hearer_of(provider@) {
            Speaker::Deepgram => "audio/ogg"@,
            _ => "multipart/form-data; boundary=maturanasttboundary7e3f"@,
        },
        r.payload@ == match hearer_of(provider@) {
            Speaker::OpenAi => audio_form("model"@, "whisper-1"@, filename@, audio@),
            Speaker::Deepgram => audio@,
            Speaker::ElevenLabs => audio_form("model_id"@, "scribe_v1"@, filename@, audio@),
        },
{
    let name = t::to_lower(provider);
    if t::same(name.as_str(), "openai") {
        let (content_type, payload) = multipart_audio("model", "whisper-1", filename, audio);
        HearingRequest {
            service: Speaker::OpenAi,
            key_source: "pipelock:openai/api-key",
            url: "https://api.openai.com/v1/audio/transcriptions",
            key_header: "authorization",
            key_prefix: "Bearer ",
            content_type,
            payload,
        }
    } else if t::same(name.as_str(), "deepgram") {
        let mut payload: Vec<u8> = Vec::new();
        payload.extend_from_slice(audio.as_slice());
        assert(payload@ =~= audio@);
        HearingRequest {
            service: Speaker::Deepgram,
            key_source: "pipelock:deepgram/api-key",
            url: "https://api.deepgram.com/v1/listen?model=nova-2&smart_format=true",
            key_header: "authorization",
            key_prefix: "Token ",
            content_type: "audio/ogg".to_owned(),
            payload,
        }
    } else {
        let (content_type, payload) = multipart_audio("model_id", "scribe_v1", filename, audio);
        HearingRequest {
            service: Speaker::ElevenLabs,
            key_source: "pipelock:elevenlabs/api-key",
            url: "https://api.elevenlabs.io/v1/speech-to-text",
            key_header: "xi-api-key",
            key_prefix: "",
            content_type,
            payload,
        }
    }
}

/// The first item of a list, or what stands under `0` in a record.
pub open spec fn zeroth(x: Tree) -> Option<Tree> {
    match x {
        Tree::List(items) => if items.len() > 0 {
            Some(items[0])
        } else {
            None
        },
        _ => x.get("0"@),
    }
}

fn zeroth_of(x: &Json) -> (r: Option<&Json>)
    ensures
        json::opt_tree(r) == zeroth(x@),
{
    match x {
        Json::List(items) => {
            assert(x@->List_0 =~= json::trees(items@));
            if items.len() > 0 {
                assert(json::trees(items@)[0] == items@[0]@);
                Some(&items[0])
            } else {
                None
            }
        },
        _ => x.get("0"),
    }
}

pub open spec fn value_in(x: Option<Tree>, key: Seq<char>) -> Option<Tree> {
    match x {
        Some(t) => t.get(key),
        None => None,
    }
}

pub open spec fn zeroth_in(x: Option<Tree>) -> Option<Tree> {
    match x {
        Some(t) => zeroth(t),
        None => None,
    }
}

fn step<'a>(x: Option<&'a Json>, key: &str) -> (r: Option<&'a Json>)
    ensures
        json::opt_tree(r) == value_in(json::opt_tree(x), key@),
{
    match x {
        Some(j) => j.get(key),
        None => None,
    }
}

fn step_zeroth<'a>(x: Option<&'a Json>) -> (r: Option<&'a Json>)
    ensures
        json::opt_tree(r) == zeroth_in(json::opt_tree(x)),
{
    match x {
        Some(j) => zeroth_of(j),
        None => None,
    }
}

/// What a service heard, from its answer; nothing where it does not say.
pub open spec fn transcript(service: Speaker, answer: Tree) -> Seq<char> {
    let place = match service {
        Speaker::Deepgram => value_in(
            zeroth_in(value_in(zeroth_in(value_in(answer.get("results"@), "channels"@)), "alternatives"@)),
            "transcript"@,
        ),
        _ => answer.get("text"@),
    };
    match place {
        Some(x) => match x.text() {
            Some(s) => s,
            None => Seq::empty(),
        },
        None => Seq::empty(),
    }
}

pub fn read_transcript(service: Speaker, answer: &Json) -> (r: String)
    ensures
        r@ == transcript(service, answer@),
{
    let place = match service {
        Speaker::Deepgram => {
            let channels = step(answer.get("results"), "channels");
            let alternatives = step(step_zeroth(channels), "alternatives");
            step(step_zeroth(alternatives), "transcript")
        },
        _ => answer.get("text"),
    };
    let found = match place {
        Some(x) => x.text(),
        None => None,
    };
    match found {
        Some(s) => s,
        None => {
            let none = String::new();
            assert(none@ =~= Seq::<char>::empty());
            none
        },
    }
}

// ---------------------------------------------------------------------------
// Forms
// ---------------------------------------------------------------------------

pub open spec fn bytes(s: Seq<char>) -> Seq<u8> {
    vstd::utf8::encode_utf8(s)
}

fn add_bytes(body: &mut Vec<u8>, s: &str)
    ensures
        final(body)@ == old(body)@ + bytes(s@),
{
    body.extend_from_slice(s.as_bytes());
    assert(body@ =~= old(body)@ + bytes(s@));
}

/// The form with a model and a recording.
pub open spec fn audio_form(field: Seq<char>, value: Seq<char>, filename: Seq<char>, audio: Seq<u8>) -> Seq<u8> {
    bytes(
        "--maturanasttboundary7e3f\r\ncontent-disposition: form-data; name=\""@ + field + "\"\r\n\r\n"@ + value
            + "\r\n--maturanasttboundary7e3f\r\ncontent-disposition: form-data; name=\"file\"; filename=\""@
            + filename + "\"\r\ncontent-type: application/octet-stream\r\n\r\n"@,
    ) + audio + bytes("\r\n--maturanasttboundary7e3f--\r\n"@)
}

/// The content type and the body of a form with a model and a recording.
pub fn multipart_audio(model_field: &str, model_value: &str, filename: &str, audio: &Vec<u8>) -> (r: (
    String,
    Vec<u8>,
))
    ensures
        r.0@ == "multipart/form-data; boundary=maturanasttboundary7e3f"@,
        r.1@ == audio_form(model_field@, model_value@, filename@, audio@),
{
    let head = "--maturanasttboundary7e3f\r\ncontent-disposition: form-data; name=\"".to_owned().concat(
        model_field,
    ).concat("\"\r\n\r\n").concat(model_value).concat(
        "\r\n--maturanasttboundary7e3f\r\ncontent-disposition: form-data; name=\"file\"; filename=\"",
    ).concat(filename).concat("\"\r\ncontent-type: application/octet-stream\r\n\r\n");
    let mut body: Vec<u8> = Vec::new();
    add_bytes(&mut body, head.as_str());
    assert(body@ =~= bytes(head@));
    body.extend_from_slice(audio.as_slice());
    add_bytes(&mut body, "\r\n--maturanasttboundary7e3f--\r\n");
    ("multipart/form-data; boundary=maturanasttboundary7e3f".to_owned(), body)
}

pub open spec fn audio_field(name: Seq<char>, value: Seq<char>) -> Seq<char> {
    "--maturanattsboundary7e3f\r\ncontent-disposition: form-data; name=\""@ + name + "\"\r\n\r\n"@ + value
        + "\r\n"@
}

/// The form that sends a reply as sound.
pub open spec fn reply_audio_form(chat_id: i64, reply_to: Option<i64>, audio: Seq<u8>) -> Seq<u8> {
    bytes(
        audio_field("chat_id"@, t::signed_decimal(chat_id as int)) + (match reply_to {
            Some(id) => audio_field("reply_to_message_id"@, t::signed_decimal(id as int)),
            None => Seq::empty(),
        })
            + "--maturanattsboundary7e3f\r\ncontent-disposition: form-data; name=\"audio\"; filename=\"reply.mp3\"\r\ncontent-type: audio/mpeg\r\n\r\n"@,
    ) + audio + bytes("\r\n--maturanattsboundary7e3f--\r\n"@)
}

fn audio_field_text(name: &str, value: &str) -> (r: String)
    ensures
        r@ == audio_field(name@, value@),
{
    "--maturanattsboundary7e3f\r\ncontent-disposition: form-data; name=\"".to_owned().concat(name).concat(
        "\"\r\n\r\n",
    ).concat(value).concat("\r\n")
}

/// The content type and the body of the form that sends a reply as sound.
pub fn send_telegram_audio(chat_id: i64, reply_to: Option<i64>, audio: &Vec<u8>) -> (r: (String, Vec<u8>))
    ensures
        r.0@ == "multipart/form-data; boundary=maturanattsboundary7e3f"@,
        r.1@ == reply_audio_form(chat_id, reply_to, audio@),
{
    let chat = audio_field_text("chat_id", t::i64_text(chat_id).as_str());
    let reply = match reply_to {
        Some(id) => audio_field_text("reply_to_message_id", t::i64_text(id).as_str()),
        None => {
            let none = String::new();
            assert(none@ =~= Seq::<char>::empty());
            none
        },
    };
    let head = chat.concat(reply.as_str()).concat(
        "--maturanattsboundary7e3f\r\ncontent-disposition: form-data; name=\"audio\"; filename=\"reply.mp3\"\r\ncontent-type: audio/mpeg\r\n\r\n",
    );
    let mut body: Vec<u8> = Vec::new();
    add_bytes(&mut body, head.as_str());
    assert(body@ =~= bytes(head@));
    body.extend_from_slice(audio.as_slice());
    add_bytes(&mut body, "\r\n--maturanattsboundary7e3f--\r\n");
    ("multipart/form-data; boundary=maturanattsboundary7e3f".to_owned(), body)
}

/// What is heard in a recording is handed to the agent, and echoed; where nothing
/// was understood, or the service failed, that is said instead.
pub proof fn law_what_is_heard_is_handed_on(provider: Seq<char>, heard: Result<Seq<char>, Seq<char>>)
    ensures
        heard matches Ok(text) ==> {
            &&& t::trimmed(text).len() > 0 ==> (voice_step(provider, heard) matches VoiceStep::Heard {
                prompt,
                audit,
                ..
            } && prompt == t::trimmed(text) && audit == "transcribed "@ + t::decimal(t::trimmed(text).len())
                + " chars via "@ + provider)
            &&& t::trimmed(text).len() == 0 ==> voice_step(provider, heard) is Reply
        },
        heard matches Err(error) ==> (voice_step(provider, heard) matches VoiceStep::Complain { audit, reply, .. }
            && audit == "STT failed via "@ + provider + ": "@ + error && t::starts(
            reply,
            "I couldn't transcribe that voice message (provider: "@ + provider + "): "@ + error,
        )),
{
    if heard is Err {
        let error = heard->Err_0;
        let front = "I couldn't transcribe that voice message (provider: "@ + provider + "): "@ + error;
        let reply = front
            + "\n\nSet a transcription key in pipelock (e.g. `pipelock:elevenlabs/api-key`)."@;
        assert(reply.subrange(0, front.len() as int) =~= front);
    }
}

/// The provider that also speaks listens, where it has a key; else the first one
/// that has a key does.
pub proof fn law_a_provider_with_a_key_listens(keys: SpeechKeys, preferred: Option<Seq<char>>)
    ensures
        keys.elevenlabs || keys.openai || keys.deepgram ==> {
            let chosen = listener(keys, preferred);
            ||| chosen == "elevenlabs"@ && keys.elevenlabs
            ||| chosen == "openai"@ && keys.openai
            ||| chosen == "deepgram"@ && keys.deepgram
        },
        preferred matches Some(p) ==> {
            &&& t::lower(p) == "openai"@ && keys.openai ==> listener(keys, preferred) == "openai"@
            &&& t::lower(p) == "deepgram"@ && keys.deepgram ==> listener(keys, preferred) == "deepgram"@
            &&& t::lower(p) == "elevenlabs"@ && keys.elevenlabs ==> listener(keys, preferred) == "elevenlabs"@
        },
        preferred is None && keys.elevenlabs ==> listener(keys, preferred) == "elevenlabs"@,
        preferred is None && !keys.elevenlabs && keys.openai ==> listener(keys, preferred) == "openai"@,
{
    reveal_strlit("elevenlabs");
    reveal_strlit("openai");
    reveal_strlit("deepgram");
    assert("elevenlabs"@.len() == 10 && "openai"@.len() == 6 && "deepgram"@.len() == 8);
}

/// A reply is read aloud where that is on and there is something to say, by the
/// provider that was chosen; nothing is read where it is off.
pub proof fn law_a_reply_is_read_aloud_where_that_is_on(s: SettingsView, text: Seq<char>, sentinel: Seq<char>)
    ensures
        !s.tts_enabled ==> spoken(s, text, sentinel) is None,
        t::trimmed(text).len() == 0 || t::trimmed(text) == sentinel ==> spoken(s, text, sentinel) is None,
        s.tts_enabled && t::trimmed(text).len() > 0 && t::trimmed(text) != sentinel ==> (spoken(
            s,
            text,
            sentinel,
        ) matches Some((provider, words)) && (s.tts_provider matches Some(p) ==> provider == p) && (
        s.tts_provider is None ==> provider == "openai"@) && (t::trimmed(text).len() <= 4000 ==> words == t::trimmed(
            text,
        )) && (t::trimmed(text).len() > 4000 ==> words == t::trimmed(text).take(4000))),
{
}

/// A text is sent to the service as it is, under the name that the service reads.
pub proof fn law_the_text_is_what_is_read_aloud(text: Seq<char>)
    ensures
        speech_body(Speaker::ElevenLabs, text)->Record_0.contains(("text"@, Tree::Text(text))),
        speech_body(Speaker::Deepgram, text)->Record_0.contains(("text"@, Tree::Text(text))),
        speech_body(Speaker::OpenAi, text)->Record_0.contains(("input"@, Tree::Text(text))),
{
    assert(speech_body(Speaker::ElevenLabs, text)->Record_0[0] == ("text"@, Tree::Text(text)));
    assert(speech_body(Speaker::Deepgram, text)->Record_0[0] == ("text"@, Tree::Text(text)));
    assert(speech_body(Speaker::OpenAi, text)->Record_0[1] == ("input"@, Tree::Text(text)));
}

/// A service is called by its name, in any case of letters.
pub proof fn law_a_service_is_called_by_its_name(provider: Seq<char>)
    ensures
        t::lower(provider) == "elevenlabs"@ ==> speaker_of(provider) == Speaker::ElevenLabs && hearer_of(provider)
            == Speaker::ElevenLabs,
        t::lower(provider) == "deepgram"@ ==> speaker_of(provider) == Speaker::Deepgram && hearer_of(provider)
            == Speaker::Deepgram,
        t::lower(provider) == "openai"@ ==> speaker_of(provider) == Speaker::OpenAi && hearer_of(provider)
            == Speaker::OpenAi,
{
    reveal_strlit("elevenlabs");
    reveal_strlit("openai");
    reveal_strlit("deepgram");
    assert("elevenlabs"@.len() == 10 && "openai"@.len() == 6 && "deepgram"@.len() == 8);
}

/// What a service heard is read from where it says it.
pub proof fn law_a_transcript_is_read_where_it_stands(answer: Tree, text: Seq<char>)
    requires
        answer.get("text"@) == Some(Tree::Text(text)),
    ensures
        transcript(Speaker::OpenAi, answer) == text,
        transcript(Speaker::ElevenLabs, answer) == text,
{
}

/// A form holds the recording as it is.
pub proof fn law_a_form_holds_the_recording(
    field: Seq<char>,
    value: Seq<char>,
    filename: Seq<char>,
    chat_id: i64,
    reply_to: Option<i64>,
    audio: Seq<u8>,
)
    ensures
        exists|a: int|
            0 <= a && a + audio.len() <= audio_form(field, value, filename, audio).len() && #[trigger] audio_form(
                field,
                value,
                filename,
                audio,
            ).subrange(a, a + audio.len()) == audio,
        exists|a: int|
            0 <= a && a + audio.len() <= reply_audio_form(chat_id, reply_to, audio).len()
                && #[trigger] reply_audio_form(chat_id, reply_to, audio).subrange(a, a + audio.len()) == audio,
{
    let tail = bytes("\r\n--maturanasttboundary7e3f--\r\n"@);
    let whole = audio_form(field, value, filename, audio);
    let a = whole.len() - tail.len() - audio.len();
    assert(whole.subrange(a, a + audio.len()) =~= audio);
    let end = bytes("\r\n--maturanattsboundary7e3f--\r\n"@);
    let form = reply_audio_form(chat_id, reply_to, audio);
    let b = form.len() - end.len() - audio.len();
    assert(form.subrange(b, b + audio.len()) =~= audio);
}

/// A field of a form holds its name and then its value.
pub proof fn law_a_field_holds_its_value(name: Seq<char>, value: Seq<char>)
    ensures
        t::has(audio_field(name, value), name),
        t::ends(audio_field(name, value), value + "\r\n"@),
{
    let a = "--maturanattsboundary7e3f\r\ncontent-disposition: form-data; name=\""@;
    let m = "\"\r\n\r\n"@;
    let all = audio_field(name, value);
    t::lemma_has_part(a, name, m + value + "\r\n"@);
    assert(a + name + (m + value + "\r\n"@) =~= all);
    let z = value + "\r\n"@;
    assert(all.subrange(all.len() - z.len(), all.len() as int) =~= z);
}

} // verus!
