//! The engine of a meeting's transcription: on the device, or in the cloud with
//! the device behind it.
use crate::dictation;
use crate::dictation::MeetingEngine;
use crate::engine;
use crate::text;
use vstd::prelude::*;
use vstd::string::*;

verus! {

/// Turns in flight while a cloud meeting transcription runs. Bounded well below
/// provider rate limits; the local engines run serially because their work is
/// CPU-bound.
pub const MEETING_TURN_CONCURRENCY: usize = 4;

/// What transcribes a meeting.
#[derive(Debug, Clone, PartialEq, Eq)]
pub enum MeetingTranscriber {
    Local(MeetingEngine),
    /// A provider, with a local engine behind it where one is ready.
    Cloud { provider: String, fallback: Option<MeetingEngine> },
}

/// Engine selection for one offline meeting run.
#[derive(Debug, Clone, PartialEq, Eq)]
pub struct MeetingAsrSelection {
    pub engine: MeetingTranscriber,
    pub turn_concurrency: usize,
}

/// The provider has what it needs to transcribe a meeting.
pub open spec fn cloud_ready(provider: Seq<char>, api_key: Seq<char>, base_url: Seq<char>) -> bool {
    if provider == "volcengine"@ || provider == "minimax"@ {
        text::trim(api_key).len() > 0
    } else if provider == "openai_audio"@ || provider == "custom"@ {
        text::trim(api_key).len() > 0 || text::trim(base_url).len() > 0
    } else {
        false
    }
}

/// Why a provider cannot transcribe a meeting.
pub open spec fn cloud_refusal(provider: Seq<char>) -> Seq<char> {
    if text::begins(provider, "local_"@) || provider.len() == 0 {
        "云端会议转写需要先在「设置 → 语音识别」选择在线 ASR（如 MiniMax ASR）并填写 API Key。"@
    } else if provider == "aliyun_qwen"@ || provider == "soniox"@ || provider == "stepfun"@
        || provider == "mimo"@ {
        "在线 ASR「"@ + provider
            + "」仅预置了 endpoint，尚未接入客户端；请改用 MiniMax ASR、火山引擎或 OpenAI Audio。"@
    } else {
        "云端会议转写需要在「设置 → 语音识别」填写在线 ASR 的 API Key。"@
    }
}

/// The local engine that is ready for a meeting.
pub open spec fn local_engine(sensevoice_ready: bool, paraformer_ready: bool) -> Option<
    MeetingEngine,
> {
    if sensevoice_ready {
        Some(MeetingEngine::SenseVoice)
    } else if paraformer_ready {
        Some(MeetingEngine::Paraformer)
    } else {
        None
    }
}

fn is_cloud_ready(provider: &str, api_key: &str, base_url: &str) -> (r: bool)
    ensures
        r == cloud_ready(provider@, api_key@, base_url@),
{
    if text::same(provider, "volcengine") || text::same(provider, "minimax") {
        !text::is_blank(api_key)
    } else if text::same(provider, "openai_audio") || text::same(provider, "custom") {
        !text::is_blank(api_key) || !text::is_blank(base_url)
    } else {
        false
    }
}

fn refusal(provider: &str) -> (r: String)
    ensures
        r@ == cloud_refusal(provider@),
{
    if text::starts_with(provider, "local_") || provider.is_empty() {
        "云端会议转写需要先在「设置 → 语音识别」选择在线 ASR（如 MiniMax ASR）并填写 API Key。".to_owned()
    } else if text::same(provider, "aliyun_qwen") || text::same(provider, "soniox") || text::same(
        provider,
        "stepfun",
    ) || text::same(provider, "mimo") {
        text::glue3(
            "在线 ASR「",
            provider,
            "」仅预置了 endpoint，尚未接入客户端；请改用 MiniMax ASR、火山引擎或 OpenAI Audio。",
        )
    } else {
        "云端会议转写需要在「设置 → 语音识别」填写在线 ASR 的 API Key。".to_owned()
    }
}

/// Resolve the meeting transcription engine. `local` (the default, and the
/// fallback for unknown values) is the on-device engine; `cloud` is the configured
/// online engine with a local understudy, and fails where the cloud side is not
/// configured.
pub fn build_meeting_transcribe_engine(
    mode: &str,
    provider: &str,
    api_key: &str,
    base_url: &str,
    sensevoice_ready: bool,
    paraformer_ready: bool,
) -> (r: Result<MeetingAsrSelection, String>)
    ensures
        ({
            let local = local_engine(sensevoice_ready, paraformer_ready);
            let name = engine::canonical_provider(provider@);
            if text::lower(mode@) != "cloud"@ {
                match local {
                    Some(engine) => r matches Ok(selection) && selection.engine
                        == MeetingTranscriber::Local(engine) && selection.turn_concurrency == 1,
                    None => text::fails(
                        r,
                        "meeting transcription needs a provisioned SenseVoice model, but none was found (install SenseVoice or select an existing model dir)"@,
                    ),
                }
            } else if cloud_ready(name, api_key@, base_url@) {
                r matches Ok(selection) && selection.turn_concurrency == MEETING_TURN_CONCURRENCY
                    && (selection.engine matches MeetingTranscriber::Cloud {
                    provider: chosen,
                    fallback,
                } && chosen@ == name && fallback == local)
            } else {
                text::fails(r, cloud_refusal(name))
            }
        }),
{
    let local: Result<MeetingEngine, String> = dictation::build_meeting_asr_engine(
        sensevoice_ready,
        paraformer_ready,
    );
    let lowered: String = text::lowered(mode);
    if !text::same(lowered.as_str(), "cloud") {
        return match local {
            Ok(engine) => Ok(
                MeetingAsrSelection {
                    engine: MeetingTranscriber::Local(engine),
                    turn_concurrency: 1,
                },
            ),
            Err(error) => Err(error),
        };
    }
    let name: String = engine::canonical_asr_provider(provider);
    if !is_cloud_ready(name.as_str(), api_key, base_url) {
        return Err(refusal(name.as_str()));
    }
    let fallback: Option<MeetingEngine> = match local {
        Ok(engine) => Some(engine),
        Err(_) => None,
    };
    Ok(
        MeetingAsrSelection {
            engine: MeetingTranscriber::Cloud { provider: name, fallback },
            turn_concurrency: MEETING_TURN_CONCURRENCY,
        },
    )
}

// ---------------------------------------------------------------------------
// An engine with another one behind it
// ---------------------------------------------------------------------------

/// What there is to know of an engine. `I` names engines.
#[derive(Debug, Clone, Copy, PartialEq, Eq)]
pub struct EngineTraits<I> {
    pub id: I,
    pub supported: bool,
    /// How much audio a request may hold; without it, any.
    pub max_audio_bytes: Option<usize>,
}

/// Primary-first engine pair: the primary is tried, and on any error the request
/// goes to the fallback.
#[derive(Debug, Clone, Copy, PartialEq, Eq)]
pub struct FallbackAsr<I> {
    pub primary: EngineTraits<I>,
    pub fallback: EngineTraits<I>,
}

impl<I: Copy> FallbackAsr<I> {
    pub fn new(primary: EngineTraits<I>, fallback: EngineTraits<I>) -> (r: Self)
        ensures
            r.primary == primary,
            r.fallback == fallback,
    {
        FallbackAsr { primary, fallback }
    }

    /// The pair is known by its primary.
    pub fn id(&self) -> (r: I)
        ensures
            r == self.primary.id,
    {
        self.primary.id
    }

    pub fn is_supported(&self) -> (r: bool)
        ensures
            r == (self.primary.supported || self.fallback.supported),
    {
        self.primary.supported || self.fallback.supported
    }

    /// A request must fit whichever engine may run it: the smaller cap binds.
    pub fn max_audio_bytes(&self) -> (r: Option<usize>)
        ensures
            match r {
                Some(cap) => {
                    &&& self.primary.max_audio_bytes == Some(cap) || self.fallback.max_audio_bytes
                        == Some(cap)
                    &&& self.primary.max_audio_bytes is Some ==> cap
                        <= self.primary.max_audio_bytes->0
                    &&& self.fallback.max_audio_bytes is Some ==> cap
                        <= self.fallback.max_audio_bytes->0
                },
                None => self.primary.max_audio_bytes is None && self.fallback.max_audio_bytes
                    is None,
            },
    {
        match (self.primary.max_audio_bytes, self.fallback.max_audio_bytes) {
            (Some(a), Some(b)) => if a < b {
                Some(a)
            } else {
                Some(b)
            },
            (Some(a), None) => Some(a),
            (None, b) => b,
        }
    }
}

/// What follows the primary: its result, or the request to the fallback.
#[derive(Debug, Clone, PartialEq, Eq)]
pub enum AfterPrimary<T> {
    Done(T),
    /// The fallback runs; the primary's error is kept.
    Retry(String),
}

/// What follows the primary.
pub fn after_primary<T>(primary: Result<T, String>) -> (r: AfterPrimary<T>)
    ensures
        match primary {
            Ok(result) => r == AfterPrimary::Done(result),
            Err(error) => r == AfterPrimary::<T>::Retry(error),
        },
{
    match primary {
        Ok(result) => AfterPrimary::Done(result),
        Err(error) => AfterPrimary::Retry(error),
    }
}

/// What a retried request comes to. The user chose the primary: where both fail,
/// its error is the one to act on.
pub fn settle_fallback<T>(primary_error: String, fallback: Result<T, String>) -> (r: Result<
    T,
    String,
>)
    ensures
        match fallback {
            Ok(result) => r == Ok::<T, String>(result),
            Err(_) => r == Err::<T, String>(primary_error),
        },
{
    match fallback {
        Ok(result) => Ok(result),
        Err(_) => Err(primary_error),
    }
}

// ---------------------------------------------------------------------------
// Laws of meeting engines
// ---------------------------------------------------------------------------

/// A provider with a client of its own needs a key; one at an address of the user's needs
/// a key or the address; no other can transcribe a meeting.
pub proof fn meeting_needs_a_key_or_an_address(
    provider: Seq<char>,
    api_key: Seq<char>,
    base_url: Seq<char>,
)
    ensures
        cloud_ready("volcengine"@, api_key, base_url) <==> text::trim(api_key).len() > 0,
        cloud_ready("minimax"@, api_key, base_url) <==> text::trim(api_key).len() > 0,
        cloud_ready("openai_audio"@, api_key, base_url) <==> text::trim(api_key).len() > 0
            || text::trim(base_url).len() > 0,
        cloud_ready("custom"@, api_key, base_url) <==> text::trim(api_key).len() > 0 || text::trim(
            base_url,
        ).len() > 0,
        cloud_ready(provider, api_key, base_url) ==> provider == "volcengine"@ || provider
            == "minimax"@ || provider == "openai_audio"@ || provider == "custom"@,
        text::trim(api_key).len() == 0 && text::trim(base_url).len() == 0 ==> !cloud_ready(
            provider,
            api_key,
            base_url,
        ),
{
    reveal_strlit("volcengine");
    reveal_strlit("minimax");
    reveal_strlit("openai_audio");
    reveal_strlit("custom");
    assert("volcengine"@.len() == 10 && "volcengine"@[0] == 'v' && "volcengine"@[1] == 'o'
        && "volcengine"@[2] == 'l' && "volcengine"@[3] == 'c' && "volcengine"@[4] == 'e'
        && "volcengine"@[5] == 'n' && "volcengine"@[6] == 'g' && "volcengine"@[7] == 'i'
        && "volcengine"@[8] == 'n' && "volcengine"@[9] == 'e');
    assert("minimax"@.len() == 7 && "minimax"@[0] == 'm' && "minimax"@[1] == 'i'
        && "minimax"@[2] == 'n' && "minimax"@[3] == 'i' && "minimax"@[4] == 'm'
        && "minimax"@[5] == 'a' && "minimax"@[6] == 'x');
    assert("openai_audio"@.len() == 12 && "openai_audio"@[0] == 'o' && "openai_audio"@[1] == 'p'
        && "openai_audio"@[2] == 'e' && "openai_audio"@[3] == 'n' && "openai_audio"@[4] == 'a'
        && "openai_audio"@[5] == 'i' && "openai_audio"@[6] == '_' && "openai_audio"@[7] == 'a'
        && "openai_audio"@[8] == 'u' && "openai_audio"@[9] == 'd' && "openai_audio"@[10] == 'i'
        && "openai_audio"@[11] == 'o');
    assert("custom"@.len() == 6 && "custom"@[0] == 'c' && "custom"@[1] == 'u'
        && "custom"@[2] == 's' && "custom"@[3] == 't' && "custom"@[4] == 'o'
        && "custom"@[5] == 'm');
}

/// A local provider, and none, is told to choose one in the cloud; one of which only the
/// address is known is named; any other lacks its key.
pub proof fn refusal_tells_what_is_missing(provider: Seq<char>)
    ensures
        provider.len() == 0 || text::begins(provider, "local_"@) ==> cloud_refusal(provider)
            == "云端会议转写需要先在「设置 → 语音识别」选择在线 ASR（如 MiniMax ASR）并填写 API Key。"@,
        provider == "aliyun_qwen"@ || provider == "soniox"@ || provider == "stepfun"@ || provider
            == "mimo"@ ==> cloud_refusal(provider) == "在线 ASR「"@ + provider
            + "」仅预置了 endpoint，尚未接入客户端；请改用 MiniMax ASR、火山引擎或 OpenAI Audio。"@,
        provider == "volcengine"@ || provider == "minimax"@ || provider == "openai_audio"@
            || provider == "custom"@ ==> cloud_refusal(provider)
            == "云端会议转写需要在「设置 → 语音识别」填写在线 ASR 的 API Key。"@,
{
    reveal_strlit("volcengine");
    reveal_strlit("minimax");
    reveal_strlit("openai_audio");
    reveal_strlit("custom");
    reveal_strlit("aliyun_qwen");
    reveal_strlit("soniox");
    reveal_strlit("stepfun");
    reveal_strlit("mimo");
    reveal_strlit("local_");
    assert("volcengine"@.len() == 10 && "volcengine"@[0] == 'v' && "volcengine"@[1] == 'o'
        && "volcengine"@[2] == 'l' && "volcengine"@[3] == 'c' && "volcengine"@[4] == 'e'
        && "volcengine"@[5] == 'n' && "volcengine"@[6] == 'g' && "volcengine"@[7] == 'i'
        && "volcengine"@[8] == 'n' && "volcengine"@[9] == 'e');
    assert("minimax"@.len() == 7 && "minimax"@[0] == 'm' && "minimax"@[1] == 'i'
        && "minimax"@[2] == 'n' && "minimax"@[3] == 'i' && "minimax"@[4] == 'm'
        && "minimax"@[5] == 'a' && "minimax"@[6] == 'x');
    assert("openai_audio"@.len() == 12 && "openai_audio"@[0] == 'o' && "openai_audio"@[1] == 'p'
        && "openai_audio"@[2] == 'e' && "openai_audio"@[3] == 'n' && "openai_audio"@[4] == 'a'
        && "openai_audio"@[5] == 'i' && "openai_audio"@[6] == '_' && "openai_audio"@[7] == 'a'
        && "openai_audio"@[8] == 'u' && "openai_audio"@[9] == 'd' && "openai_audio"@[10] == 'i'
        && "openai_audio"@[11] == 'o');
    assert("custom"@.len() == 6 && "custom"@[0] == 'c' && "custom"@[1] == 'u'
        && "custom"@[2] == 's' && "custom"@[3] == 't' && "custom"@[4] == 'o'
        && "custom"@[5] == 'm');
    assert("aliyun_qwen"@.len() == 11 && "aliyun_qwen"@[0] == 'a' && "aliyun_qwen"@[1] == 'l'
        && "aliyun_qwen"@[2] == 'i' && "aliyun_qwen"@[3] == 'y' && "aliyun_qwen"@[4] == 'u'
        && "aliyun_qwen"@[5] == 'n' && "aliyun_qwen"@[6] == '_' && "aliyun_qwen"@[7] == 'q'
        && "aliyun_qwen"@[8] == 'w' && "aliyun_qwen"@[9] == 'e' && "aliyun_qwen"@[10] == 'n');
    assert("soniox"@.len() == 6 && "soniox"@[0] == 's' && "soniox"@[1] == 'o'
        && "soniox"@[2] == 'n' && "soniox"@[3] == 'i' && "soniox"@[4] == 'o'
        && "soniox"@[5] == 'x');
    assert("stepfun"@.len() == 7 && "stepfun"@[0] == 's' && "stepfun"@[1] == 't'
        && "stepfun"@[2] == 'e' && "stepfun"@[3] == 'p' && "stepfun"@[4] == 'f'
        && "stepfun"@[5] == 'u' && "stepfun"@[6] == 'n');
    assert("mimo"@.len() == 4 && "mimo"@[0] == 'm' && "mimo"@[1] == 'i' && "mimo"@[2] == 'm'
        && "mimo"@[3] == 'o');
    assert("local_"@.len() == 6 && "local_"@[0] == 'l' && "local_"@[1] == 'o'
        && "local_"@[2] == 'c' && "local_"@[3] == 'a' && "local_"@[4] == 'l'
        && "local_"@[5] == '_');
    if text::begins(provider, "local_"@) {
        assert(provider.subrange(0, 6)[0] == provider[0]);
        assert(provider.subrange(0, 6)[5] == provider[5]);
    }
}

/// SenseVoice is taken before Paraformer, and one that is not ready is never taken.
pub proof fn ready_engine_is_taken(sensevoice: bool, paraformer: bool)
    ensures
        local_engine(true, paraformer) == Some(MeetingEngine::SenseVoice),
        local_engine(false, true) == Some(MeetingEngine::Paraformer),
        local_engine(sensevoice, paraformer) is None <==> !sensevoice && !paraformer,
{
}

} // verus!
