//! Speech recognition engines and the provider names that select them.
use crate::text;
use vstd::prelude::*;

verus! {

/// An engine that can transcribe speech. Only the first three run on the
/// device and have a model directory.
#[derive(Debug, Clone, Copy, PartialEq, Eq, Structural)]
pub enum EngineKind {
    SenseVoice,
    Qwen,
    Whisper,
    Speech,
    OpenAiAudio,
}

impl EngineKind {
    /// The engine's name.
    pub open spec fn name(self) -> Seq<char> {
        match self {
            EngineKind::SenseVoice => "sensevoice"@,
            EngineKind::Qwen => "qwen"@,
            EngineKind::Whisper => "whisper"@,
            EngineKind::Speech => "speech"@,
            EngineKind::OpenAiAudio => "openai_audio"@,
        }
    }

    /// The engine's name.
    pub fn as_str(self) -> (r: &'static str)
        ensures
            r@ == self.name(),
    {
        match self {
            EngineKind::SenseVoice => "sensevoice",
            EngineKind::Qwen => "qwen",
            EngineKind::Whisper => "whisper",
            EngineKind::Speech => "speech",
            EngineKind::OpenAiAudio => "openai_audio",
        }
    }
}

/// The one name under which a provider is known: each local engine's aliases
/// have its `local_` name; any other provider is known by its own name, in
/// lower case.
pub open spec fn canonical_provider(provider: Seq<char>) -> Seq<char> {
    let name = text::lower(text::trim(provider));
    if name == "sensevoice"@ || name == "local_sensevoice"@ {
        "local_sensevoice"@
    } else if name == "qwen"@ || name == "qwen3_asr"@ || name == "local_qwen"@ {
        "local_qwen"@
    } else if name == "whisper"@ || name == "local_whisper"@ {
        "local_whisper"@
    } else {
        name
    }
}

/// The engine that a provider runs on the device.
pub open spec fn provider_engine(provider: Seq<char>) -> Option<EngineKind> {
    let name = canonical_provider(provider);
    if name == "local_sensevoice"@ {
        Some(EngineKind::SenseVoice)
    } else if name == "local_qwen"@ {
        Some(EngineKind::Qwen)
    } else if name == "local_whisper"@ {
        Some(EngineKind::Whisper)
    } else {
        None
    }
}

/// The one name under which `provider` is known.
pub fn canonical_asr_provider(provider: &str) -> (r: String)
    ensures
        r@ == canonical_provider(provider@),
{
    let trimmed: String = text::trimmed(provider);
    let name: String = text::lowered(trimmed.as_str());
    if text::same(name.as_str(), "sensevoice") || text::same(name.as_str(), "local_sensevoice") {
        "local_sensevoice".to_owned()
    } else if text::same(name.as_str(), "qwen") || text::same(name.as_str(), "qwen3_asr")
        || text::same(name.as_str(), "local_qwen") {
        "local_qwen".to_owned()
    } else if text::same(name.as_str(), "whisper") || text::same(name.as_str(), "local_whisper") {
        "local_whisper".to_owned()
    } else {
        name
    }
}

/// The engine that `provider` runs on the device.
pub fn engine_kind_for_provider(provider: &str) -> (r: Option<EngineKind>)
    ensures
        r == provider_engine(provider@),
{
    let name: String = canonical_asr_provider(provider);
    if text::same(name.as_str(), "local_sensevoice") {
        Some(EngineKind::SenseVoice)
    } else if text::same(name.as_str(), "local_qwen") {
        Some(EngineKind::Qwen)
    } else if text::same(name.as_str(), "local_whisper") {
        Some(EngineKind::Whisper)
    } else {
        None
    }
}

/// Naming a provider a second time changes nothing.
pub proof fn canonical_provider_is_stable(provider: Seq<char>)
    ensures
        canonical_provider(canonical_provider(provider)) == canonical_provider(provider),
{
    reveal_strlit("sensevoice");
    reveal_strlit("qwen");
    reveal_strlit("qwen3_asr");
    reveal_strlit("local_sensevoice");
    reveal_strlit("local_qwen");
    reveal_strlit("local_whisper");
    assert("local_qwen"@[0] != "sensevoice"@[0]);
    let name = text::lower(text::trim(provider));
    text::lemma_lower_trimmed(provider);
    text::lemma_lower_trimmed(text::trim(provider));
    lemma_plain_provider("local_sensevoice"@);
    lemma_plain_provider("local_qwen"@);
    lemma_plain_provider("local_whisper"@);
}

proof fn lemma_plain_provider(name: Seq<char>)
    requires
        forall|i: int| 0 <= i < name.len() ==> 'a' <= #[trigger] name[i] <= 'z' || name[i] == '_',
    ensures
        text::lower(text::trim(name)) == name,
{
    text::lemma_trim_is_same(name);
    assert(text::lower(name) =~= name);
}

// ---------------------------------------------------------------------------
// Laws of providers
// ---------------------------------------------------------------------------

/// Each local engine is known by its own names, in any case and with white space around
/// them; every other provider is known by its own name and runs no local engine.
pub proof fn providers_have_their_names(provider: Seq<char>)
    ensures
        canonical_provider("sensevoice"@) == "local_sensevoice"@ && provider_engine("sensevoice"@) == Some(EngineKind::SenseVoice),
        canonical_provider("local_sensevoice"@) == "local_sensevoice"@ && provider_engine("local_sensevoice"@) == Some(EngineKind::SenseVoice),
        canonical_provider("qwen"@) == "local_qwen"@ && provider_engine("qwen"@) == Some(EngineKind::Qwen),
        canonical_provider("qwen3_asr"@) == "local_qwen"@ && provider_engine("qwen3_asr"@) == Some(EngineKind::Qwen),
        canonical_provider("local_qwen"@) == "local_qwen"@ && provider_engine("local_qwen"@) == Some(EngineKind::Qwen),
        canonical_provider("whisper"@) == "local_whisper"@ && provider_engine("whisper"@) == Some(EngineKind::Whisper),
        canonical_provider("local_whisper"@) == "local_whisper"@ && provider_engine("local_whisper"@) == Some(EngineKind::Whisper),
        canonical_provider("openai_audio"@) == "openai_audio"@ && provider_engine("openai_audio"@) is None,
        canonical_provider("custom"@) == "custom"@ && provider_engine("custom"@) is None,
        canonical_provider("volcengine"@) == "volcengine"@ && provider_engine("volcengine"@) is None,
        canonical_provider("minimax"@) == "minimax"@ && provider_engine("minimax"@) is None,
        canonical_provider("aliyun_qwen"@) == "aliyun_qwen"@ && provider_engine("aliyun_qwen"@) is None,
        canonical_provider("soniox"@) == "soniox"@ && provider_engine("soniox"@) is None,
        canonical_provider("stepfun"@) == "stepfun"@ && provider_engine("stepfun"@) is None,
        canonical_provider("mimo"@) == "mimo"@ && provider_engine("mimo"@) is None,
        canonical_provider(provider) == canonical_provider(text::lower(text::trim(provider))),
        provider_engine(provider) == provider_engine(text::lower(text::trim(provider))),
        provider_engine(provider) is None ==> canonical_provider(provider) == text::lower(
            text::trim(provider),
        ),
        provider_engine(provider) == Some(EngineKind::SenseVoice) <==> canonical_provider(provider)
            == "local_sensevoice"@,
        provider_engine(provider) == Some(EngineKind::Qwen) <==> canonical_provider(provider)
            == "local_qwen"@,
        provider_engine(provider) == Some(EngineKind::Whisper) <==> canonical_provider(provider)
            == "local_whisper"@,
        !(provider_engine(provider) == Some(EngineKind::Speech)),
        !(provider_engine(provider) == Some(EngineKind::OpenAiAudio)),
{
    reveal_strlit("sensevoice");
    reveal_strlit("local_sensevoice");
    reveal_strlit("qwen");
    reveal_strlit("qwen3_asr");
    reveal_strlit("local_qwen");
    reveal_strlit("whisper");
    reveal_strlit("local_whisper");
    reveal_strlit("openai_audio");
    reveal_strlit("custom");
    reveal_strlit("volcengine");
    reveal_strlit("minimax");
    reveal_strlit("aliyun_qwen");
    reveal_strlit("soniox");
    reveal_strlit("stepfun");
    reveal_strlit("mimo");
    assert("sensevoice"@.len() == 10 && "sensevoice"@[0] == 's' && "sensevoice"@[1] == 'e'
        && "sensevoice"@[2] == 'n' && "sensevoice"@[3] == 's' && "sensevoice"@[4] == 'e'
        && "sensevoice"@[5] == 'v' && "sensevoice"@[6] == 'o' && "sensevoice"@[7] == 'i'
        && "sensevoice"@[8] == 'c' && "sensevoice"@[9] == 'e');
    assert("local_sensevoice"@.len() == 16 && "local_sensevoice"@[0] == 'l'
        && "local_sensevoice"@[1] == 'o' && "local_sensevoice"@[2] == 'c'
        && "local_sensevoice"@[3] == 'a' && "local_sensevoice"@[4] == 'l'
        && "local_sensevoice"@[5] == '_' && "local_sensevoice"@[6] == 's'
        && "local_sensevoice"@[7] == 'e' && "local_sensevoice"@[8] == 'n'
        && "local_sensevoice"@[9] == 's' && "local_sensevoice"@[10] == 'e'
        && "local_sensevoice"@[11] == 'v' && "local_sensevoice"@[12] == 'o'
        && "local_sensevoice"@[13] == 'i' && "local_sensevoice"@[14] == 'c'
        && "local_sensevoice"@[15] == 'e');
    assert("qwen"@.len() == 4 && "qwen"@[0] == 'q' && "qwen"@[1] == 'w' && "qwen"@[2] == 'e'
        && "qwen"@[3] == 'n');
    assert("qwen3_asr"@.len() == 9 && "qwen3_asr"@[0] == 'q' && "qwen3_asr"@[1] == 'w'
        && "qwen3_asr"@[2] == 'e' && "qwen3_asr"@[3] == 'n' && "qwen3_asr"@[4] == '3'
        && "qwen3_asr"@[5] == '_' && "qwen3_asr"@[6] == 'a' && "qwen3_asr"@[7] == 's'
        && "qwen3_asr"@[8] == 'r');
    assert("local_qwen"@.len() == 10 && "local_qwen"@[0] == 'l' && "local_qwen"@[1] == 'o'
        && "local_qwen"@[2] == 'c' && "local_qwen"@[3] == 'a' && "local_qwen"@[4] == 'l'
        && "local_qwen"@[5] == '_' && "local_qwen"@[6] == 'q' && "local_qwen"@[7] == 'w'
        && "local_qwen"@[8] == 'e' && "local_qwen"@[9] == 'n');
    assert("whisper"@.len() == 7 && "whisper"@[0] == 'w' && "whisper"@[1] == 'h'
        && "whisper"@[2] == 'i' && "whisper"@[3] == 's' && "whisper"@[4] == 'p'
        && "whisper"@[5] == 'e' && "whisper"@[6] == 'r');
    assert("local_whisper"@.len() == 13 && "local_whisper"@[0] == 'l'
        && "local_whisper"@[1] == 'o' && "local_whisper"@[2] == 'c' && "local_whisper"@[3] == 'a'
        && "local_whisper"@[4] == 'l' && "local_whisper"@[5] == '_' && "local_whisper"@[6] == 'w'
        && "local_whisper"@[7] == 'h' && "local_whisper"@[8] == 'i' && "local_whisper"@[9] == 's'
        && "local_whisper"@[10] == 'p' && "local_whisper"@[11] == 'e'
        && "local_whisper"@[12] == 'r');
    assert("openai_audio"@.len() == 12 && "openai_audio"@[0] == 'o' && "openai_audio"@[1] == 'p'
        && "openai_audio"@[2] == 'e' && "openai_audio"@[3] == 'n' && "openai_audio"@[4] == 'a'
        && "openai_audio"@[5] == 'i' && "openai_audio"@[6] == '_' && "openai_audio"@[7] == 'a'
        && "openai_audio"@[8] == 'u' && "openai_audio"@[9] == 'd' && "openai_audio"@[10] == 'i'
        && "openai_audio"@[11] == 'o');
    assert("custom"@.len() == 6 && "custom"@[0] == 'c' && "custom"@[1] == 'u'
        && "custom"@[2] == 's' && "custom"@[3] == 't' && "custom"@[4] == 'o'
        && "custom"@[5] == 'm');
    assert("volcengine"@.len() == 10 && "volcengine"@[0] == 'v' && "volcengine"@[1] == 'o'
        && "volcengine"@[2] == 'l' && "volcengine"@[3] == 'c' && "volcengine"@[4] == 'e'
        && "volcengine"@[5] == 'n' && "volcengine"@[6] == 'g' && "volcengine"@[7] == 'i'
        && "volcengine"@[8] == 'n' && "volcengine"@[9] == 'e');
    assert("minimax"@.len() == 7 && "minimax"@[0] == 'm' && "minimax"@[1] == 'i'
        && "minimax"@[2] == 'n' && "minimax"@[3] == 'i' && "minimax"@[4] == 'm'
        && "minimax"@[5] == 'a' && "minimax"@[6] == 'x');
    assert("aliyun_qwen"@.len() == 11 && "aliyun_qwen"@[0] == 'a' && "aliyun_qwen"@[1] == 'l'
        && "aliyun_qwen"@[2] == 'i' && "aliyun_qwen"@[3] == 'y' && "aliyun_qwen"@[4] == 'u'
        && "aliyun_qwen"@[5] == 'n' && "aliyun_qwen"@[6] == '_' && "aliyun_qwen"@[7] == 'q'
        && "aliyun_qwen"@[8] == 'w' && "aliyun_qwen"@[9] == 'e' && "aliyun_qwen"@[10] == 'n');
    assert("soniox"@.len() == 6 && "soniox"@[0] == 's' && "soniox"@[1] == 'o'
        && "soniox"@[2] == 'n' && "soniox"@[3] == 'i' && "soniox"@[4] == 'o'
        && "soniox"@[5] == 'x');
    assert("stepfun"@.len() == 7 && "stepfun"@[0] == 's' && "stepfun"@[1] == 't'
        && "stepfun"@[2] == 'e' && "stepfun"@[3] == 'p' && "stepfun"@[4] == 'f'
        && "stepfun"@[5] == 'u' && "stepfun"@[6] == 'n');
    assert("mimo"@.len() == 4 && "mimo"@[0] == 'm' && "mimo"@[1] == 'i' && "mimo"@[2] == 'm'
        && "mimo"@[3] == 'o');
    assert(text::is_small_word("sensevoice"@));
    text::small_word_is_itself("sensevoice"@);
    assert(text::is_small_word("local_sensevoice"@));
    text::small_word_is_itself("local_sensevoice"@);
    assert(text::is_small_word("qwen"@));
    text::small_word_is_itself("qwen"@);
    assert(text::is_small_word("qwen3_asr"@));
    text::small_word_is_itself("qwen3_asr"@);
    assert(text::is_small_word("local_qwen"@));
    text::small_word_is_itself("local_qwen"@);
    assert(text::is_small_word("whisper"@));
    text::small_word_is_itself("whisper"@);
    assert(text::is_small_word("local_whisper"@));
    text::small_word_is_itself("local_whisper"@);
    assert(text::is_small_word("openai_audio"@));
    text::small_word_is_itself("openai_audio"@);
    assert(text::is_small_word("custom"@));
    text::small_word_is_itself("custom"@);
    assert(text::is_small_word("volcengine"@));
    text::small_word_is_itself("volcengine"@);
    assert(text::is_small_word("minimax"@));
    text::small_word_is_itself("minimax"@);
    assert(text::is_small_word("aliyun_qwen"@));
    text::small_word_is_itself("aliyun_qwen"@);
    assert(text::is_small_word("soniox"@));
    text::small_word_is_itself("soniox"@);
    assert(text::is_small_word("stepfun"@));
    text::small_word_is_itself("stepfun"@);
    assert(text::is_small_word("mimo"@));
    text::small_word_is_itself("mimo"@);
    text::lemma_lower_trimmed(provider);
    text::lemma_lower_trimmed(text::trim(provider));
}

/// Each engine has a name of its own, and a local one is found by it.
pub proof fn engines_have_names_of_their_own(a: EngineKind, b: EngineKind)
    ensures
        a.name() == b.name() ==> a == b,
        a is SenseVoice || a is Qwen || a is Whisper ==> provider_engine(a.name()) == Some(a),
        EngineKind::SenseVoice.name() == "sensevoice"@,
        EngineKind::Qwen.name() == "qwen"@,
        EngineKind::Whisper.name() == "whisper"@,
        EngineKind::Speech.name() == "speech"@,
        EngineKind::OpenAiAudio.name() == "openai_audio"@,
{
    reveal_strlit("sensevoice");
    reveal_strlit("qwen");
    reveal_strlit("whisper");
    reveal_strlit("speech");
    reveal_strlit("openai_audio");
    assert("sensevoice"@.len() == 10 && "sensevoice"@[0] == 's' && "sensevoice"@[1] == 'e'
        && "sensevoice"@[2] == 'n' && "sensevoice"@[3] == 's' && "sensevoice"@[4] == 'e'
        && "sensevoice"@[5] == 'v' && "sensevoice"@[6] == 'o' && "sensevoice"@[7] == 'i'
        && "sensevoice"@[8] == 'c' && "sensevoice"@[9] == 'e');
    assert("qwen"@.len() == 4 && "qwen"@[0] == 'q' && "qwen"@[1] == 'w' && "qwen"@[2] == 'e'
        && "qwen"@[3] == 'n');
    assert("whisper"@.len() == 7 && "whisper"@[0] == 'w' && "whisper"@[1] == 'h'
        && "whisper"@[2] == 'i' && "whisper"@[3] == 's' && "whisper"@[4] == 'p'
        && "whisper"@[5] == 'e' && "whisper"@[6] == 'r');
    assert("speech"@.len() == 6 && "speech"@[0] == 's' && "speech"@[1] == 'p'
        && "speech"@[2] == 'e' && "speech"@[3] == 'e' && "speech"@[4] == 'c'
        && "speech"@[5] == 'h');
    assert("openai_audio"@.len() == 12 && "openai_audio"@[0] == 'o' && "openai_audio"@[1] == 'p'
        && "openai_audio"@[2] == 'e' && "openai_audio"@[3] == 'n' && "openai_audio"@[4] == 'a'
        && "openai_audio"@[5] == 'i' && "openai_audio"@[6] == '_' && "openai_audio"@[7] == 'a'
        && "openai_audio"@[8] == 'u' && "openai_audio"@[9] == 'd' && "openai_audio"@[10] == 'i'
        && "openai_audio"@[11] == 'o');
    providers_have_their_names(a.name());
}

} // verus!
