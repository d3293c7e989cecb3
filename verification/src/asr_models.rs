//! Local recognition models: which are there, which is recommended, and how one
//! is chosen.
use crate::config;
use crate::config::AsrServiceConfig;
use crate::config::FoundModel;
use crate::engine;
use crate::engine::EngineKind;
use crate::paths;
use crate::platform::Platform;
use crate::text;
use vstd::prelude::*;
use vstd::string::*;

verus! {

#[derive(Debug, Clone, PartialEq, Eq)]
pub struct AsrModelCandidate {
    pub engine: String,
    pub path: String,
    pub label: String,
    pub ready: bool,
    pub source: String,
}

/// A model that was found, as the interface shows it.
pub fn shown_candidate(candidate: AsrModelCandidate, platform: Platform) -> (r: AsrModelCandidate)
    ensures
        r.engine == candidate.engine,
        r.path@ == paths::shown(candidate.path@, platform is Windows),
        r.label == candidate.label,
        r.ready == candidate.ready,
        r.source == candidate.source,
{
    AsrModelCandidate {
        engine: candidate.engine,
        path: paths::display_path(candidate.path.as_str(), platform),
        label: candidate.label,
        ready: candidate.ready,
        source: candidate.source,
    }
}

#[derive(Debug, Clone, PartialEq, Eq)]
pub struct AsrModelStatus {
    pub sensevoice_ready: bool,
    pub sensevoice_dir: String,
    pub whisper_ready: bool,
    pub whisper_dir: String,
    pub qwen_ready: bool,
    pub qwen_dir: String,
    /// Offline Paraformer (meeting transcription): word-level timestamps.
    pub paraformer_offline_ready: bool,
    pub paraformer_offline_dir: String,
    /// Streaming Paraformer (meeting real-time transcription).
    pub paraformer_streaming_ready: bool,
    pub paraformer_streaming_dir: String,
    pub qwen_runtime_supported: bool,
    pub qwen_fallback_reason: Option<String>,
    pub recommended_engine: String,
    pub total_memory_mb: Option<u64>,
    pub models_root: String,
    pub active_engine: String,
    pub active_model_dir: String,
    pub candidates: Vec<AsrModelCandidate>,
    pub download_url: String,
    pub paraformer_offline_download_url: String,
    pub paraformer_streaming_download_url: String,
}

#[derive(Debug, Clone, PartialEq, Eq)]
pub struct UseAsrModelInput {
    pub path: String,
    pub engine: Option<String>,
}

/// A directory, and whether a model is ready in it.
#[derive(Debug, Clone, PartialEq, Eq)]
pub struct ModelPlace {
    pub dir: String,
    pub ready: bool,
}

/// The directory that an engine uses, and the one that it would use by default.
#[derive(Debug, Clone, PartialEq, Eq)]
pub struct EnginePlaces {
    pub live: ModelPlace,
    pub default: ModelPlace,
}

impl EnginePlaces {
    pub open spec fn is_ready(self) -> bool {
        self.live.ready || self.default.ready
    }

    /// The directory that is told: the one in use where its model is ready.
    pub open spec fn told(self) -> Seq<char> {
        if self.live.ready {
            self.live.dir@
        } else {
            self.default.dir@
        }
    }
}

/// What was found of the models.
#[derive(Debug, Clone, PartialEq, Eq)]
pub struct ModelFacts {
    pub engine: EngineKind,
    pub sensevoice: EnginePlaces,
    pub whisper: EnginePlaces,
    pub qwen: EnginePlaces,
    pub paraformer_offline: ModelPlace,
    pub paraformer_streaming: ModelPlace,
    pub total_memory_mb: Option<u64>,
    pub models_root: String,
    pub candidates: Vec<AsrModelCandidate>,
    pub download_url: String,
    pub paraformer_offline_download_url: String,
    pub paraformer_streaming_download_url: String,
}

/// Why Qwen is not recommended on this machine.
pub open spec fn qwen_fallback(platform: Platform, total_memory_mb: Option<u64>) -> Option<
    Seq<char>,
> {
    if !(platform is MacOs) {
        Some(
            "Qwen3-ASR local runtime currently uses Apple MLX and is unavailable on Windows; SenseVoice was selected."@,
        )
    } else if total_memory_mb is Some && total_memory_mb->0 < 8 * 1024 {
        Some(
            "Available system memory is below the 8 GB Qwen safety threshold; SenseVoice was selected."@,
        )
    } else {
        None
    }
}

/// Why Qwen is not recommended on this machine.
pub fn qwen_fallback_reason(platform: Platform, total_memory_mb: Option<u64>) -> (r: Option<String>)
    ensures
        text::opt(r) == qwen_fallback(platform, total_memory_mb),
{
    match platform {
        Platform::MacOs => match total_memory_mb {
            Some(memory) => if memory < 8 * 1024 {
                Some(
                    "Available system memory is below the 8 GB Qwen safety threshold; SenseVoice was selected.".to_owned(),
                )
            } else {
                None
            },
            None => None,
        },
        _ => Some(
            "Qwen3-ASR local runtime currently uses Apple MLX and is unavailable on Windows; SenseVoice was selected.".to_owned(),
        ),
    }
}

fn told_dir(places: &EnginePlaces, platform: Platform) -> (r: String)
    ensures
        r@ == paths::shown(places.told(), platform is Windows),
{
    if places.live.ready {
        paths::display_path(places.live.dir.as_str(), platform)
    } else {
        paths::display_path(places.default.dir.as_str(), platform)
    }
}

impl AsrModelStatus {
    /// The status tells the facts.
    pub open spec fn tells(self, facts: ModelFacts, platform: Platform) -> bool {
        let windows = platform is Windows;
        &&& self.sensevoice_ready == facts.sensevoice.is_ready()
        &&& self.sensevoice_dir@ == paths::shown(facts.sensevoice.told(), windows)
        &&& self.whisper_ready == facts.whisper.is_ready()
        &&& self.whisper_dir@ == paths::shown(facts.whisper.told(), windows)
        &&& self.qwen_ready == facts.qwen.is_ready()
        &&& self.qwen_dir@ == paths::shown(facts.qwen.told(), windows)
        &&& self.paraformer_offline_ready == facts.paraformer_offline.ready
        &&& self.paraformer_offline_dir@ == paths::shown(facts.paraformer_offline.dir@, windows)
        &&& self.paraformer_streaming_ready == facts.paraformer_streaming.ready
        &&& self.paraformer_streaming_dir@ == paths::shown(
            facts.paraformer_streaming.dir@,
            windows,
        )
        &&& self.qwen_runtime_supported == (platform is MacOs)
        &&& text::opt(self.qwen_fallback_reason) == qwen_fallback(platform, facts.total_memory_mb)
        &&& self.recommended_engine@ == if qwen_fallback(platform, facts.total_memory_mb) is None
            && facts.qwen.is_ready() {
            "qwen"@
        } else {
            "sensevoice"@
        }
        &&& self.total_memory_mb == facts.total_memory_mb
        &&& self.models_root@ == paths::shown(facts.models_root@, windows)
        &&& self.active_engine@ == facts.engine.name()
        &&& self.active_model_dir@ == paths::shown(
            match facts.engine {
                EngineKind::Qwen => facts.qwen.live.dir@,
                EngineKind::Whisper => facts.whisper.live.dir@,
                _ => facts.sensevoice.live.dir@,
            },
            windows,
        )
        &&& self.candidates == facts.candidates
        &&& self.download_url == facts.download_url
        &&& self.paraformer_offline_download_url == facts.paraformer_offline_download_url
        &&& self.paraformer_streaming_download_url == facts.paraformer_streaming_download_url
    }
}

/// What there is to know of the models.
pub fn check_asr_model_status(facts: ModelFacts, platform: Platform) -> (r: AsrModelStatus)
    ensures
        r.tells(facts, platform),
{
    let active: &str = match facts.engine {
        EngineKind::Qwen => facts.qwen.live.dir.as_str(),
        EngineKind::Whisper => facts.whisper.live.dir.as_str(),
        _ => facts.sensevoice.live.dir.as_str(),
    };
    let active_model_dir: String = paths::display_path(active, platform);
    let reason: Option<String> = qwen_fallback_reason(platform, facts.total_memory_mb);
    let qwen_ready: bool = facts.qwen.live.ready || facts.qwen.default.ready;
    let recommended: &str = if reason.is_none() && qwen_ready {
        "qwen"
    } else {
        "sensevoice"
    };
    AsrModelStatus {
        sensevoice_ready: facts.sensevoice.live.ready || facts.sensevoice.default.ready,
        sensevoice_dir: told_dir(&facts.sensevoice, platform),
        whisper_ready: facts.whisper.live.ready || facts.whisper.default.ready,
        whisper_dir: told_dir(&facts.whisper, platform),
        qwen_ready,
        qwen_dir: told_dir(&facts.qwen, platform),
        paraformer_offline_ready: facts.paraformer_offline.ready,
        paraformer_offline_dir: paths::display_path(
            facts.paraformer_offline.dir.as_str(),
            platform,
        ),
        paraformer_streaming_ready: facts.paraformer_streaming.ready,
        paraformer_streaming_dir: paths::display_path(
            facts.paraformer_streaming.dir.as_str(),
            platform,
        ),
        qwen_runtime_supported: match platform {
            Platform::MacOs => true,
            _ => false,
        },
        qwen_fallback_reason: reason,
        recommended_engine: recommended.to_owned(),
        total_memory_mb: facts.total_memory_mb,
        models_root: paths::display_path(facts.models_root.as_str(), platform),
        active_engine: facts.engine.as_str().to_owned(),
        active_model_dir,
        candidates: facts.candidates,
        download_url: facts.download_url,
        paraformer_offline_download_url: facts.paraformer_offline_download_url,
        paraformer_streaming_download_url: facts.paraformer_streaming_download_url,
    }
}

// ---------------------------------------------------------------------------
// Choosing a model
// ---------------------------------------------------------------------------

/// What was found at the path of an input.
#[derive(Debug, Clone, Copy, PartialEq, Eq, Structural)]
pub struct PathFacts {
    pub is_dir: bool,
    pub sensevoice_ready: bool,
    pub qwen_ready: bool,
    pub whisper_ready: bool,
}

/// The engine that an input is for.
pub open spec fn wanted_engine(engine: Option<Seq<char>>) -> EngineKind {
    let name = engine::canonical_provider(
        match engine {
            Some(engine) => engine,
            None => "sensevoice"@,
        },
    );
    if name == "local_qwen"@ {
        EngineKind::Qwen
    } else if name == "local_whisper"@ {
        EngineKind::Whisper
    } else {
        EngineKind::SenseVoice
    }
}

impl PathFacts {
    pub open spec fn ready_for(self, engine: EngineKind) -> bool {
        match engine {
            EngineKind::Qwen => self.qwen_ready,
            EngineKind::Whisper => self.whisper_ready,
            _ => self.sensevoice_ready,
        }
    }
}

/// The words that refuse a directory for an engine.
pub open spec fn not_a_model(engine: EngineKind) -> Seq<char> {
    match engine {
        EngineKind::Qwen => "folder is not a valid Qwen3-ASR MLX model dir (need config, safetensors and tokenizer assets)"@,
        EngineKind::Whisper => "folder is not a valid Whisper (sherpa) model dir"@,
        _ => "folder is not a valid SenseVoice model dir (need model*.onnx + tokens.txt)"@,
    }
}

/// The engine that is to run from an existing directory, which is given without
/// white space around its path.
pub fn use_existing_asr_model(input: &UseAsrModelInput, facts: PathFacts) -> (r: Result<
    (EngineKind, String),
    String,
>)
    ensures
        ({
            let path = text::trim(input.path@);
            let engine = wanted_engine(text::opt(input.engine));
            if !facts.is_dir {
                text::fails(r, "not a directory: "@ + path)
            } else if !facts.ready_for(engine) {
                text::fails(r, not_a_model(engine))
            } else {
                r matches Ok((chosen, dir)) && chosen == engine && dir@ == path
            }
        }),
{
    let path: String = text::trimmed(input.path.as_str());
    if !facts.is_dir {
        return Err(text::glue("not a directory: ", path.as_str()));
    }
    let name: String = match &input.engine {
        Some(engine) => engine::canonical_asr_provider(engine.as_str()),
        None => engine::canonical_asr_provider("sensevoice"),
    };
    if text::same(name.as_str(), "local_qwen") {
        if facts.qwen_ready {
            Ok((EngineKind::Qwen, path))
        } else {
            Err(
                "folder is not a valid Qwen3-ASR MLX model dir (need config, safetensors and tokenizer assets)".to_owned(),
            )
        }
    } else if text::same(name.as_str(), "local_whisper") {
        if facts.whisper_ready {
            Ok((EngineKind::Whisper, path))
        } else {
            Err("folder is not a valid Whisper (sherpa) model dir".to_owned())
        }
    } else if facts.sensevoice_ready {
        Ok((EngineKind::SenseVoice, path))
    } else {
        Err(
            "folder is not a valid SenseVoice model dir (need model*.onnx + tokens.txt)".to_owned(),
        )
    }
}

/// The provider that runs on a local engine.
pub open spec fn local_provider(engine: EngineKind) -> Seq<char> {
    match engine {
        EngineKind::Qwen => "local_qwen"@,
        EngineKind::Whisper => "local_whisper"@,
        _ => "local_sensevoice"@,
    }
}

/// Keeps a model directory for the next launch, and selects its engine; `found`
/// says what stands in the directory that was kept before.
pub fn persist_model_selection(
    config: &mut AsrServiceConfig,
    path: &str,
    engine: EngineKind,
    found: FoundModel,
)
    ensures
        final(config).provider@ == local_provider(engine),
        final(config).dirs() == old(config).dirs().selected(
            engine,
            path@,
            found,
            old(config).provider@,
        ),
        final(config).runtime_path == old(config).runtime_path,
        final(config).qwen_shadow_enabled == old(config).qwen_shadow_enabled,
        final(config).base_url == old(config).base_url,
        final(config).model == old(config).model,
        final(config).api_key == old(config).api_key,
        final(config).language == old(config).language,
        final(config).timeout_secs == old(config).timeout_secs,
{
    config.set_model_dir_for(engine, path, found);
    config.provider = match engine {
        EngineKind::Qwen => "local_qwen".to_owned(),
        EngineKind::Whisper => "local_whisper".to_owned(),
        _ => "local_sensevoice".to_owned(),
    };
}

/// The model that was chosen for an engine is the one that it runs from.
pub proof fn chosen_model_is_used(
    dirs: config::ModelDirs,
    engine: EngineKind,
    path: Seq<char>,
    found: FoundModel,
    provider: Seq<char>,
)
    requires
        config::has_model_dir(engine),
        text::trim(path).len() > 0,
    ensures
        dirs.selected(engine, path, found, provider).dir_for(engine) == text::trim(path),
        engine::provider_engine(local_provider(engine)) == Some(engine),
{
    reveal_strlit("local_sensevoice");
    reveal_strlit("local_qwen");
    reveal_strlit("local_whisper");
    reveal_strlit("sensevoice");
    reveal_strlit("qwen");
    reveal_strlit("qwen3_asr");
    reveal_strlit("whisper");
    let name = local_provider(engine);
    assert(text::lower(name) =~= name);
    text::lemma_trim_is_same(name);
    assert("local_sensevoice"@.len() == 16 && "local_qwen"@.len() == 10 && "local_whisper"@.len()
        == 13 && "sensevoice"@.len() == 10 && "qwen"@.len() == 4 && "qwen3_asr"@.len() == 9
        && "whisper"@.len() == 7);
    assert("local_qwen"@[0] != "sensevoice"@[0]);
}

// ---------------------------------------------------------------------------
// Downloads
// ---------------------------------------------------------------------------

/// One download at a time, which can be called off.
#[derive(Debug, Clone, Copy, PartialEq, Eq, Structural)]
pub struct DownloadGuard {
    pub running: bool,
    pub cancelled: bool,
}

impl DownloadGuard {
    /// Starts a download, unless one is running.
    pub fn start(&mut self) -> (r: Result<(), String>)
        ensures
            r is Ok <==> !old(self).running,
            r is Ok ==> *final(self) == (DownloadGuard { running: true, cancelled: false }),
            r is Err ==> text::fails(r, "download already running"@) && *final(self) == *old(self),
    {
        if self.running {
            return Err("download already running".to_owned());
        }
        self.running = true;
        self.cancelled = false;
        Ok(())
    }

    /// Calls the download off.
    pub fn cancel(&mut self)
        ensures
            *final(self) == (DownloadGuard { cancelled: true, ..*old(self) }),
    {
        self.cancelled = true;
    }

    /// Ends the download.
    pub fn finish(&mut self)
        ensures
            *final(self) == (DownloadGuard { running: false, ..*old(self) }),
    {
        self.running = false;
    }
}

// ---------------------------------------------------------------------------
// Laws of the models
// ---------------------------------------------------------------------------

/// A model is ready where it is in use or shipped, and told by the directory that is in
/// use where that is ready.
pub proof fn model_is_told_where_it_is_ready(places: EnginePlaces)
    ensures
        places.is_ready() <==> places.live.ready || places.default.ready,
        places.live.ready ==> places.told() == places.live.dir@,
        !places.live.ready ==> places.told() == places.default.dir@,
{
}

/// Qwen is recommended on a Mac with 8 GB or more, and wherever the memory is not known.
pub proof fn qwen_needs_a_mac_with_memory(platform: Platform, memory: u64)
    ensures
        qwen_fallback(Platform::MacOs, None) is None,
        memory >= 8192 ==> qwen_fallback(Platform::MacOs, Some(memory)) is None,
        memory < 8192 ==> qwen_fallback(Platform::MacOs, Some(memory)) == Some(
            "Available system memory is below the 8 GB Qwen safety threshold; SenseVoice was selected."@,
        ),
        !(platform is MacOs) ==> qwen_fallback(platform, Some(memory)) == Some(
            "Qwen3-ASR local runtime currently uses Apple MLX and is unavailable on Windows; SenseVoice was selected."@,
        ),
        !(platform is MacOs) ==> qwen_fallback(platform, None) is Some,
{
}

/// A status tells of each engine whether it is ready and where, which one is recommended,
/// and which one runs.
pub proof fn status_tells_each_engine(status: AsrModelStatus, facts: ModelFacts, platform: Platform)
    requires
        status.tells(facts, platform),
    ensures
        status.sensevoice_ready <==> facts.sensevoice.live.ready || facts.sensevoice.default.ready,
        status.whisper_ready <==> facts.whisper.live.ready || facts.whisper.default.ready,
        status.qwen_ready <==> facts.qwen.live.ready || facts.qwen.default.ready,
        status.paraformer_offline_ready == facts.paraformer_offline.ready,
        status.paraformer_streaming_ready == facts.paraformer_streaming.ready,
        status.qwen_runtime_supported <==> platform is MacOs,
        status.recommended_engine@ == "qwen"@ <==> (facts.qwen.live.ready
            || facts.qwen.default.ready) && qwen_fallback(platform, facts.total_memory_mb) is None,
        status.recommended_engine@ == "qwen"@ || status.recommended_engine@ == "sensevoice"@,
        status.active_engine@ == facts.engine.name(),
        status.total_memory_mb == facts.total_memory_mb,
        status.candidates == facts.candidates,
        status.download_url == facts.download_url,
        !(platform is Windows) ==> status.models_root@ == facts.models_root@,
        !(platform is Windows) && facts.sensevoice.live.ready ==> status.sensevoice_dir@
            == facts.sensevoice.live.dir@,
        !(platform is Windows) && facts.whisper.live.ready ==> status.whisper_dir@
            == facts.whisper.live.dir@,
        !(platform is Windows) && facts.qwen.live.ready ==> status.qwen_dir@
            == facts.qwen.live.dir@,
        !(platform is Windows) ==> status.paraformer_offline_dir@ == facts.paraformer_offline.dir@
            && status.paraformer_streaming_dir@ == facts.paraformer_streaming.dir@,
        !(platform is Windows) && facts.engine is Qwen ==> status.active_model_dir@
            == facts.qwen.live.dir@,
        !(platform is Windows) && facts.engine is Whisper ==> status.active_model_dir@
            == facts.whisper.live.dir@,
        !(platform is Windows) && facts.engine is SenseVoice ==> status.active_model_dir@
            == facts.sensevoice.live.dir@,
{
    reveal_strlit("qwen");
    reveal_strlit("sensevoice");
    assert("qwen"@.len() == 4 && "sensevoice"@.len() == 10);
}

/// An input is for the engine that it names, and for SenseVoice where it names none.
pub proof fn input_is_for_its_engine(facts: PathFacts)
    ensures
        wanted_engine(None) is SenseVoice,
        wanted_engine(Some("sensevoice"@)) is SenseVoice,
        wanted_engine(Some("qwen"@)) is Qwen,
        wanted_engine(Some("local_qwen"@)) is Qwen,
        wanted_engine(Some("qwen3_asr"@)) is Qwen,
        wanted_engine(Some("whisper"@)) is Whisper,
        wanted_engine(Some("local_whisper"@)) is Whisper,
        wanted_engine(Some("openai_audio"@)) is SenseVoice,
        facts.ready_for(EngineKind::Qwen) == facts.qwen_ready,
        facts.ready_for(EngineKind::Whisper) == facts.whisper_ready,
        facts.ready_for(EngineKind::SenseVoice) == facts.sensevoice_ready,
        local_provider(EngineKind::Qwen) == "local_qwen"@,
        local_provider(EngineKind::Whisper) == "local_whisper"@,
        local_provider(EngineKind::SenseVoice) == "local_sensevoice"@,
        not_a_model(EngineKind::Qwen)
            == "folder is not a valid Qwen3-ASR MLX model dir (need config, safetensors and tokenizer assets)"@,
        not_a_model(EngineKind::Whisper) == "folder is not a valid Whisper (sherpa) model dir"@,
        not_a_model(EngineKind::SenseVoice)
            == "folder is not a valid SenseVoice model dir (need model*.onnx + tokens.txt)"@,
{
    reveal_strlit("local_qwen");
    reveal_strlit("local_whisper");
    reveal_strlit("local_sensevoice");
    reveal_strlit("openai_audio");
    assert("local_qwen"@.len() == 10 && "local_qwen"@[0] == 'l' && "local_qwen"@[1] == 'o'
        && "local_qwen"@[2] == 'c' && "local_qwen"@[3] == 'a' && "local_qwen"@[4] == 'l'
        && "local_qwen"@[5] == '_' && "local_qwen"@[6] == 'q' && "local_qwen"@[7] == 'w'
        && "local_qwen"@[8] == 'e' && "local_qwen"@[9] == 'n');
    assert("local_whisper"@.len() == 13 && "local_whisper"@[0] == 'l'
        && "local_whisper"@[1] == 'o' && "local_whisper"@[2] == 'c' && "local_whisper"@[3] == 'a'
        && "local_whisper"@[4] == 'l' && "local_whisper"@[5] == '_' && "local_whisper"@[6] == 'w'
        && "local_whisper"@[7] == 'h' && "local_whisper"@[8] == 'i' && "local_whisper"@[9] == 's'
        && "local_whisper"@[10] == 'p' && "local_whisper"@[11] == 'e'
        && "local_whisper"@[12] == 'r');
    assert("local_sensevoice"@.len() == 16 && "local_sensevoice"@[0] == 'l'
        && "local_sensevoice"@[1] == 'o' && "local_sensevoice"@[2] == 'c'
        && "local_sensevoice"@[3] == 'a' && "local_sensevoice"@[4] == 'l'
        && "local_sensevoice"@[5] == '_' && "local_sensevoice"@[6] == 's'
        && "local_sensevoice"@[7] == 'e' && "local_sensevoice"@[8] == 'n'
        && "local_sensevoice"@[9] == 's' && "local_sensevoice"@[10] == 'e'
        && "local_sensevoice"@[11] == 'v' && "local_sensevoice"@[12] == 'o'
        && "local_sensevoice"@[13] == 'i' && "local_sensevoice"@[14] == 'c'
        && "local_sensevoice"@[15] == 'e');
    assert("openai_audio"@.len() == 12 && "openai_audio"@[0] == 'o' && "openai_audio"@[1] == 'p'
        && "openai_audio"@[2] == 'e' && "openai_audio"@[3] == 'n' && "openai_audio"@[4] == 'a'
        && "openai_audio"@[5] == 'i' && "openai_audio"@[6] == '_' && "openai_audio"@[7] == 'a'
        && "openai_audio"@[8] == 'u' && "openai_audio"@[9] == 'd' && "openai_audio"@[10] == 'i'
        && "openai_audio"@[11] == 'o');
    engine::providers_have_their_names("qwen"@);
}

} // verus!
