//! Dictation: what the user is told, which engine listens, and when another one
//! steps in.
use crate::config::AsrServiceConfig;
use crate::config::IntentSpec;
use crate::config::VadConfig;
use crate::context_records::ContextInputRef;
use crate::context_records::StageUsageInput;
use crate::engine;
use crate::engine::EngineKind;
use crate::paths;
use crate::pipeline;
use crate::pipeline::ContextStageUsage;
use crate::pipeline::PipelineIssueKind;
use crate::pipeline::PipelineStage;
use crate::pipeline::PipelineStageIssue;
use crate::platform::Platform;
use crate::text;
use vstd::prelude::*;
use vstd::string::*;

verus! {

// ---------------------------------------------------------------------------
// Notices
// ---------------------------------------------------------------------------

/// The notice of a text that was copied.
pub open spec fn copied_notice() -> Seq<char> {
    "已复制"@
}

/// Capsule confirmation of a copy. Short: the capsule is a pill.
pub fn copied_toast_notice() -> (r: String)
    ensures
        r@ == copied_notice(),
{
    "已复制".to_owned()
}

/// The notice where text cannot be inserted into other apps. Only Windows needs
/// no permission for it, so that only there a copy is all there is to say.
pub open spec fn copy_only_notice(clipboard_copied: bool, platform: Platform) -> Seq<char> {
    if clipboard_copied {
        if platform is Windows {
            copied_notice()
        } else {
            "已复制 · 请开启辅助功能后可自动插入"@
        }
    } else if platform is MacOs {
        "需要「辅助功能」权限才能插入到其他 App，并且复制到剪贴板也失败了。请先从历史记录复制结果，并到 系统设置 → 隐私与安全性 → 辅助功能 打开 Lumen（或 lumen-asr-desktop）后重试。"@
    } else {
        "未能插入，也无法写入剪贴板。请从历史记录复制结果。"@
    }
}

/// The notice where text cannot be inserted into other apps.
pub fn copy_only_fallback_notice(clipboard_copied: bool, platform: Platform) -> (r: String)
    ensures
        r@ == copy_only_notice(clipboard_copied, platform),
{
    if clipboard_copied {
        match platform {
            Platform::Windows => copied_toast_notice(),
            _ => "已复制 · 请开启辅助功能后可自动插入".to_owned(),
        }
    } else {
        match platform {
            Platform::MacOs => "需要「辅助功能」权限才能插入到其他 App，并且复制到剪贴板也失败了。请先从历史记录复制结果，并到 系统设置 → 隐私与安全性 → 辅助功能 打开 Lumen（或 lumen-asr-desktop）后重试。".to_owned(),
            _ => "未能插入，也无法写入剪贴板。请从历史记录复制结果。".to_owned(),
        }
    }
}

/// The notice of a failed insertion: an elevated target is named as the cause.
pub open spec fn failed_insert_notice(error: Seq<char>, copied: bool) -> Seq<char> {
    let elevated = text::occurs(text::lower(error), "elevated"@);
    if copied {
        if elevated {
            "已复制 · 目标窗口可能以管理员运行"@
        } else {
            copied_notice()
        }
    } else if elevated {
        "目标窗口拒绝输入（可能正在以管理员身份运行）。也无法写入剪贴板，请从历史记录复制结果。"@
    } else {
        "未能插入，也无法写入剪贴板。请从历史记录复制结果。"@
    }
}

/// The notice of a failed insertion.
pub fn insert_failure_notice(error: &str, copied: bool) -> (r: String)
    ensures
        r@ == failed_insert_notice(error@, copied),
{
    let lowered: String = text::lowered(error);
    let elevated: bool = text::contains(lowered.as_str(), "elevated");
    if copied {
        if elevated {
            "已复制 · 目标窗口可能以管理员运行".to_owned()
        } else {
            copied_toast_notice()
        }
    } else if elevated {
        "目标窗口拒绝输入（可能正在以管理员身份运行）。也无法写入剪贴板，请从历史记录复制结果。".to_owned()
    } else {
        "未能插入，也无法写入剪贴板。请从历史记录复制结果。".to_owned()
    }
}

/// For how many seconds the capsule shows a notice: a mere copy only briefly.
pub fn capsule_notice_hold(insert_notice: Option<&str>, fallback: bool) -> (secs: u64)
    ensures
        secs == if insert_notice is Some && text::begins(insert_notice->0@, copied_notice())
            && !fallback {
            2u64
        } else {
            4u64
        },
{
    let copy_only: bool = match insert_notice {
        Some(notice) => text::starts_with(notice, "已复制"),
        None => false,
    };
    if copy_only && !fallback {
        2
    } else {
        4
    }
}

// ---------------------------------------------------------------------------
// The signal of a capture
// ---------------------------------------------------------------------------

/// Why a capture is not transcribed.
#[derive(Debug, Clone, Copy, PartialEq, Eq, Structural)]
pub enum CaptureSignalIssue {
    AbsoluteSilence,
    InvalidSignal,
}

/// The message of a stage issue for digital silence.
pub open spec fn silence_issue() -> Seq<char> {
    "absolute_silence"@
}

/// The message of a stage issue for a signal that is no number.
pub open spec fn invalid_issue() -> Seq<char> {
    "invalid_audio_signal"@
}

impl CaptureSignalIssue {
    pub open spec fn told(self) -> Seq<char> {
        match self {
            CaptureSignalIssue::AbsoluteSilence => "未检测到麦克风信号。请检查麦克风权限、输入设备或静音状态后重试。"@,
            CaptureSignalIssue::InvalidSignal => "录音数据无效，请检查输入设备后重试。"@,
        }
    }

    /// What is recorded of it.
    pub open spec fn issue(self) -> pipeline::Issue {
        match self {
            CaptureSignalIssue::AbsoluteSilence => pipeline::Issue {
                stage: PipelineStage::Capture,
                kind: PipelineIssueKind::AbsoluteSilence,
                message: silence_issue(),
            },
            CaptureSignalIssue::InvalidSignal => pipeline::Issue {
                stage: PipelineStage::Capture,
                kind: PipelineIssueKind::InputUnavailable,
                message: invalid_issue(),
            },
        }
    }

    /// What the user is told.
    pub fn message(self) -> (r: &'static str)
        ensures
            r@ == self.told(),
    {
        match self {
            Self::AbsoluteSilence => "未检测到麦克风信号。请检查麦克风权限、输入设备或静音状态后重试。",
            Self::InvalidSignal => "录音数据无效，请检查输入设备后重试。",
        }
    }
}

/// Whether a capture can be transcribed: `finite` says that its level and its
/// peak are numbers, `audible` that its peak is above digital silence.
pub fn ensure_audible_capture(finite: bool, audible: bool) -> (r: Result<(), CaptureSignalIssue>)
    ensures
        r == if !finite {
            Err::<(), CaptureSignalIssue>(CaptureSignalIssue::InvalidSignal)
        } else if audible {
            Ok::<(), CaptureSignalIssue>(())
        } else {
            Err::<(), CaptureSignalIssue>(CaptureSignalIssue::AbsoluteSilence)
        },
{
    if !finite {
        Err(CaptureSignalIssue::InvalidSignal)
    } else if audible {
        Ok(())
    } else {
        Err(CaptureSignalIssue::AbsoluteSilence)
    }
}

/// Records why a capture is not transcribed.
pub fn record_capture_signal_issue(
    stage_issues: &mut Vec<PipelineStageIssue>,
    issue: CaptureSignalIssue,
)
    ensures
        pipeline::issues(final(stage_issues)@) == pipeline::issues(old(stage_issues)@).push(
            issue.issue(),
        ),
{
    let ghost before = pipeline::issues(stage_issues@);
    let (kind, message): (PipelineIssueKind, &str) = match issue {
        CaptureSignalIssue::AbsoluteSilence => (
            PipelineIssueKind::AbsoluteSilence,
            "absolute_silence",
        ),
        CaptureSignalIssue::InvalidSignal => (
            PipelineIssueKind::InputUnavailable,
            "invalid_audio_signal",
        ),
    };
    stage_issues.push(
        PipelineStageIssue { stage: PipelineStage::Capture, kind, message: message.to_owned() },
    );
    assert(pipeline::issues(stage_issues@) =~= before.push(issue.issue()));
}

/// How long a capture lasts.
pub open spec fn duration_of(samples: int, sample_rate: int) -> int {
    if sample_rate > 0 {
        samples * 1000 / sample_rate
    } else {
        0
    }
}

/// How long a capture lasts, in milliseconds.
pub fn capture_duration_ms(samples: usize, sample_rate: u32) -> (ms: u64)
    requires
        samples * 1000 <= u64::MAX,
    ensures
        ms == duration_of(samples as int, sample_rate as int),
{
    if sample_rate > 0 {
        (samples as u64 * 1000) / sample_rate as u64
    } else {
        0
    }
}

// ---------------------------------------------------------------------------
// The engine that listens
// ---------------------------------------------------------------------------

/// The name of the engine in a record: the engine's own for a local provider.
pub open spec fn recorded_engine(provider: Seq<char>, engine: EngineKind) -> Seq<char> {
    if text::begins(provider, "local"@) {
        engine.name()
    } else {
        provider
    }
}

/// The name of the engine in a record.
pub fn asr_engine_name(provider: &str, engine: EngineKind) -> (r: String)
    ensures
        r@ == recorded_engine(provider@, engine),
{
    if text::starts_with(provider, "local") {
        engine.as_str().to_owned()
    } else {
        provider.to_owned()
    }
}

/// The provider in use: the configured one, or that of the engine.
pub open spec fn provider_in_use(configured: Seq<char>, engine: EngineKind) -> Seq<char> {
    if configured.len() == 0 {
        match engine {
            EngineKind::Qwen => "local_qwen"@,
            EngineKind::Whisper => "local_whisper"@,
            _ => "local_sensevoice"@,
        }
    } else {
        engine::canonical_provider(configured)
    }
}

/// The provider in use.
pub fn active_provider(configured: &str, engine: EngineKind) -> (r: String)
    ensures
        r@ == provider_in_use(configured@, engine),
{
    if configured.is_empty() {
        match engine {
            EngineKind::Qwen => "local_qwen".to_owned(),
            EngineKind::Whisper => "local_whisper".to_owned(),
            _ => "local_sensevoice".to_owned(),
        }
    } else {
        engine::canonical_asr_provider(configured)
    }
}

/// What was found of an engine's model.
#[derive(Debug, Clone, PartialEq, Eq)]
pub struct EngineStatus {
    pub ready: bool,
    pub model_dir: String,
}

#[derive(Debug, Clone, PartialEq, Eq)]
pub struct AsrStatus {
    pub recording: bool,
    /// Local runtime engine when the selected provider runs on-device.
    pub engine: EngineKind,
    /// Settings provider id (local_sensevoice | local_qwen | openai_audio | …).
    pub provider: String,
    pub sensevoice: EngineStatus,
    pub qwen: EngineStatus,
    pub whisper: EngineStatus,
    pub active_ready: bool,
    /// Short label for UI (e.g. "OpenAI Audio · whisper-1").
    pub provider_label: String,
}

/// The provider can transcribe. One that is only configured cannot yet.
pub open spec fn provider_ready(
    provider: Seq<char>,
    sensevoice: bool,
    qwen: bool,
    whisper: bool,
    has_key: bool,
    has_url: bool,
) -> bool {
    if provider == "local_sensevoice"@ {
        sensevoice
    } else if provider == "local_qwen"@ {
        qwen
    } else if provider == "local_whisper"@ {
        whisper
    } else if provider == "openai_audio"@ || provider == "custom"@ {
        has_key || has_url
    } else {
        false
    }
}

/// The provider as the interface names it.
pub open spec fn provider_label(
    provider: Seq<char>,
    preset: Option<Seq<char>>,
    model: Seq<char>,
) -> Seq<char> {
    match preset {
        Some(label) => if text::begins(provider, "local_"@) || model.len() == 0 {
            label
        } else {
            label + " · "@ + model
        },
        None => provider,
    }
}

fn shown_status(status: EngineStatus, platform: Platform) -> (r: EngineStatus)
    ensures
        r.ready == status.ready,
        r.model_dir@ == paths::shown(status.model_dir@, platform is Windows),
{
    EngineStatus {
        ready: status.ready,
        model_dir: paths::display_path(status.model_dir.as_str(), platform),
    }
}

/// What the engines can do, and which one is in use; `preset` is the label of the
/// provider in use where it is a known one.
pub fn asr_status_from(
    recording: bool,
    engine: EngineKind,
    config: &AsrServiceConfig,
    sensevoice: EngineStatus,
    qwen: EngineStatus,
    whisper: EngineStatus,
    preset: Option<String>,
    platform: Platform,
) -> (r: AsrStatus)
    ensures
        r.recording == recording,
        r.engine == engine,
        r.provider@ == provider_in_use(config.provider@, engine),
        r.sensevoice.ready == sensevoice.ready,
        r.qwen.ready == qwen.ready,
        r.whisper.ready == whisper.ready,
        r.sensevoice.model_dir@ == paths::shown(sensevoice.model_dir@, platform is Windows),
        r.qwen.model_dir@ == paths::shown(qwen.model_dir@, platform is Windows),
        r.whisper.model_dir@ == paths::shown(whisper.model_dir@, platform is Windows),
        r.active_ready == provider_ready(
            r.provider@,
            sensevoice.ready,
            qwen.ready,
            whisper.ready,
            config.api_key@.len() > 0,
            config.base_url@.len() > 0,
        ),
        r.provider_label@ == provider_label(r.provider@, text::opt(preset), config.model@),
{
    let provider: String = active_provider(config.provider.as_str(), engine);
    let p: &str = provider.as_str();
    let active_ready: bool = if text::same(p, "local_sensevoice") {
        sensevoice.ready
    } else if text::same(p, "local_qwen") {
        qwen.ready
    } else if text::same(p, "local_whisper") {
        whisper.ready
    } else if text::same(p, "openai_audio") || text::same(p, "custom") {
        !config.api_key.as_str().is_empty() || !config.base_url.as_str().is_empty()
    } else {
        false
    };
    let label: String = match preset {
        Some(label) => if text::starts_with(p, "local_") || config.model.as_str().is_empty() {
            label
        } else {
            text::glue3(label.as_str(), " · ", config.model.as_str())
        },
        None => p.to_owned(),
    };
    AsrStatus {
        recording,
        engine,
        provider,
        sensevoice: shown_status(sensevoice, platform),
        qwen: shown_status(qwen, platform),
        whisper: shown_status(whisper, platform),
        active_ready,
        provider_label: label,
    }
}

/// What to do about a provider that is not ready.
pub open spec fn guidance(provider: Seq<char>) -> Seq<char> {
    let name = engine::canonical_provider(provider);
    if name == "local_qwen"@ {
        "请先在「设置 → 语音识别」下载或选择有效的 Qwen3-ASR（sherpa-onnx）模型。"@
    } else if name == "local_sensevoice"@ {
        "请先安装或选择有效的 SenseVoice 模型。"@
    } else if name == "local_whisper"@ {
        "请先选择有效的 Whisper 模型。"@
    } else if name == "openai_audio"@ || name == "custom"@ {
        "请先完成在线 ASR 的地址与凭据配置。"@
    } else {
        "当前 ASR 尚未接入可运行的识别客户端。"@
    }
}

fn guidance_of(provider: &str) -> (r: &'static str)
    ensures
        r@ == guidance(provider@),
{
    let canonical: String = engine::canonical_asr_provider(provider);
    let name: &str = canonical.as_str();
    if text::same(name, "local_qwen") {
        "请先在「设置 → 语音识别」下载或选择有效的 Qwen3-ASR（sherpa-onnx）模型。"
    } else if text::same(name, "local_sensevoice") {
        "请先安装或选择有效的 SenseVoice 模型。"
    } else if text::same(name, "local_whisper") {
        "请先选择有效的 Whisper 模型。"
    } else if text::same(name, "openai_audio") || text::same(name, "custom") {
        "请先完成在线 ASR 的地址与凭据配置。"
    } else {
        "当前 ASR 尚未接入可运行的识别客户端。"
    }
}

/// The words that refuse to record: the runtime of the local Qwen engine may
/// still be being checked.
pub open spec fn not_ready(provider: Seq<char>, label: Seq<char>, checking: bool) -> Seq<char> {
    if checking && engine::canonical_provider(provider) == "local_qwen"@ {
        label + " 正在检查运行环境，请稍候再试。"@
    } else {
        label + " 未就绪。"@ + guidance(provider)
    }
}

/// Recording starts only where the provider in use can transcribe.
pub fn ensure_active_asr_ready(
    provider: &str,
    provider_label: &str,
    ready: bool,
    checking: bool,
) -> (r: Result<(), String>)
    ensures
        r is Ok <==> ready,
        !ready ==> text::fails(r, not_ready(provider@, provider_label@, checking)),
{
    if ready {
        return Ok(());
    }
    let canonical: String = engine::canonical_asr_provider(provider);
    if checking && text::same(canonical.as_str(), "local_qwen") {
        return Err(text::glue(provider_label, " 正在检查运行环境，请稍候再试。"));
    }
    Err(text::glue3(provider_label, " 未就绪。", guidance_of(provider)))
}

/// A provider that is known with its address and its model.
#[derive(Debug, Clone, PartialEq, Eq)]
pub struct AsrPreset {
    pub id: String,
    pub base_url: String,
    pub default_model: String,
}

/// The engine that runs under a provider, where the provider decides it.
pub open spec fn engine_under(provider: Seq<char>) -> Option<EngineKind> {
    if provider == "openai_audio"@ || provider == "custom"@ {
        Some(EngineKind::SenseVoice)
    } else {
        engine::provider_engine(provider)
    }
}

pub open spec fn or_default(value: Seq<char>, default: Seq<char>) -> Seq<char> {
    if value.len() == 0 {
        default
    } else {
        value
    }
}

fn fill(value: &mut String, default: &str)
    ensures
        final(value)@ == or_default(old(value)@, default@),
{
    if value.as_str().is_empty() {
        *value = default.to_owned();
    }
}

/// Selects the provider of a name: the engine that runs under it from now on, and
/// whether the loaded Qwen model is to be dropped. `preset` is what is known of a
/// provider that runs on no local engine.
pub fn set_asr_engine(
    config: &mut AsrServiceConfig,
    engine: &str,
    current: EngineKind,
    preset: Option<AsrPreset>,
) -> (r: Result<(EngineKind, bool), String>)
    ensures
        ({
            let id = engine::canonical_provider(engine@);
            match engine_under(id) {
                Some(kind) => {
                    &&& r == Ok::<(EngineKind, bool), String>((kind, !(kind is Qwen)))
                    &&& final(config).provider@ == id
                    &&& final(config).base_url@ == if id == "openai_audio"@ {
                        or_default(old(config).base_url@, "https://api.openai.com/v1"@)
                    } else {
                        old(config).base_url@
                    }
                    &&& final(config).model@ == if id == "openai_audio"@ {
                        or_default(old(config).model@, "whisper-1"@)
                    } else {
                        old(config).model@
                    }
                },
                None => if text::begins(id, "local_"@) {
                    &&& text::fails(r, "unknown local engine: "@ + engine@)
                    &&& *final(config) == *old(config)
                } else {
                    &&& r == Ok::<(EngineKind, bool), String>((current, true))
                    &&& final(config).provider@ == match preset {
                        Some(preset) => preset.id@,
                        None => id,
                    }
                    &&& final(config).base_url@ == match preset {
                        Some(preset) => or_default(preset.base_url@, old(config).base_url@),
                        None => old(config).base_url@,
                    }
                    &&& final(config).model@ == match preset {
                        Some(preset) => or_default(preset.default_model@, old(config).model@),
                        None => old(config).model@,
                    }
                },
            }
        }),
        final(config).dirs() == old(config).dirs(),
        final(config).api_key == old(config).api_key,
        final(config).language == old(config).language,
        final(config).timeout_secs == old(config).timeout_secs,
        final(config).runtime_path == old(config).runtime_path,
        final(config).qwen_shadow_enabled == old(config).qwen_shadow_enabled,
{
    let id: String = engine::canonical_asr_provider(engine);
    proof {
        engine::canonical_provider_is_stable(engine@);
    }
    let under: Option<EngineKind> = if text::same(id.as_str(), "openai_audio") || text::same(
        id.as_str(),
        "custom",
    ) {
        Some(EngineKind::SenseVoice)
    } else {
        engine::engine_kind_for_provider(id.as_str())
    };
    match under {
        Some(kind) => {
            if text::same(id.as_str(), "openai_audio") {
                fill(&mut config.base_url, "https://api.openai.com/v1");
                fill(&mut config.model, "whisper-1");
            }
            config.provider = id;
            let unload: bool = match kind {
                EngineKind::Qwen => false,
                _ => true,
            };
            Ok((kind, unload))
        },
        None => {
            if text::starts_with(id.as_str(), "local_") {
                return Err(text::glue("unknown local engine: ", engine));
            }
            match preset {
                Some(preset) => {
                    config.provider = preset.id;
                    if !preset.base_url.as_str().is_empty() {
                        config.base_url = preset.base_url;
                    }
                    if !preset.default_model.as_str().is_empty() {
                        config.model = preset.default_model;
                    }
                },
                None => {
                    config.provider = id;
                },
            }
            Ok((current, true))
        },
    }
}

// ---------------------------------------------------------------------------
// Cloud recognition with a local engine behind it
// ---------------------------------------------------------------------------

/// How long a cloud answer is waited for where a local engine can step in.
pub const CLOUD_ASR_HEDGE_SECS: u64 = 8;

/// How long a cloud answer is waited for, in seconds.
pub fn cloud_asr_hedge_deadline(configured_secs: u64, local_ready: bool) -> (secs: u64)
    ensures
        secs == if local_ready && configured_secs > CLOUD_ASR_HEDGE_SECS {
            CLOUD_ASR_HEDGE_SECS
        } else {
            configured_secs
        },
{
    if local_ready && configured_secs > CLOUD_ASR_HEDGE_SECS {
        CLOUD_ASR_HEDGE_SECS
    } else {
        configured_secs
    }
}

/// The timeout of a cloud request: thirty seconds at the least.
pub fn cloud_timeout(configured_secs: u64) -> (secs: u64)
    ensures
        secs == if configured_secs < 30 {
            30u64
        } else {
            configured_secs
        },
{
    if configured_secs < 30 {
        30
    } else {
        configured_secs
    }
}

/// An error of the connection, not of the request.
pub open spec fn hedgeable(error: Seq<char>) -> bool {
    let e = text::lower(error);
    ||| text::occurs(e, "timeout"@)
    ||| text::occurs(e, "timed out"@)
    ||| text::occurs(e, "error sending request"@)
    ||| text::occurs(e, "connection"@)
    ||| text::occurs(e, "connect error"@)
    ||| text::occurs(e, "dns error"@)
    ||| text::occurs(e, "network"@)
}

/// Whether a local engine may step in after a cloud error.
pub fn cloud_asr_error_is_hedgeable(error: &str) -> (r: bool)
    ensures
        r == hedgeable(error@),
{
    let lowered: String = text::lowered(error);
    let e: &str = lowered.as_str();
    text::contains(e, "timeout") || text::contains(e, "timed out") || text::contains(
        e,
        "error sending request",
    ) || text::contains(e, "connection") || text::contains(e, "connect error") || text::contains(
        e,
        "dns error",
    ) || text::contains(e, "network")
}

pub open spec fn hedge_label(provider: Seq<char>, engine: EngineKind) -> Seq<char> {
    provider + "→"@ + engine.name()
}

/// The engine of a record where a local engine stepped in.
pub fn asr_engine_hedge_label(selected_provider: &str, local_engine: EngineKind) -> (r: String)
    ensures
        r@ == hedge_label(selected_provider@, local_engine),
{
    text::glue3(selected_provider, "→", local_engine.as_str())
}

/// The local engine that steps in: SenseVoice, or else Whisper.
pub fn local_hedge_engine_kind(sensevoice_ready: bool, whisper_ready: bool) -> (r: Option<
    EngineKind,
>)
    ensures
        r == if sensevoice_ready {
            Some(EngineKind::SenseVoice)
        } else if whisper_ready {
            Some(EngineKind::Whisper)
        } else {
            None
        },
{
    if sensevoice_ready {
        Some(EngineKind::SenseVoice)
    } else if whisper_ready {
        Some(EngineKind::Whisper)
    } else {
        None
    }
}

/// What transcribes a capture.
#[derive(Debug, Clone, Copy, PartialEq, Eq, Structural)]
pub enum AsrRoute {
    Cloud,
    Local(EngineKind),
}

/// Providers of which only the address is known.
pub open spec fn only_configured(provider: Seq<char>) -> bool {
    ||| provider == "aliyun_qwen"@
    ||| provider == "volcengine"@
    ||| provider == "soniox"@
    ||| provider == "stepfun"@
    ||| provider == "mimo"@
}

/// What transcribes a capture, or why nothing does.
pub open spec fn route_of(provider: Seq<char>, engine: EngineKind) -> Result<AsrRoute, Seq<char>> {
    let name = engine::canonical_provider(provider);
    if only_configured(name) {
        Err(
            "ASR「"@ + name
                + "」仅预置了 endpoint，完整流式客户端尚未接入。请改用本地 SenseVoice 或 OpenAI Audio。"@,
        )
    } else if name == "openai_audio"@ || name == "custom"@ {
        Ok(AsrRoute::Cloud)
    } else {
        Ok(
            AsrRoute::Local(
                match engine::provider_engine(provider) {
                    Some(selected) => selected,
                    None => engine,
                },
            ),
        )
    }
}

/// What transcribes a capture under a provider; `engine` is the engine in use.
pub fn asr_route(provider: &str, engine: EngineKind) -> (r: Result<AsrRoute, String>)
    ensures
        match route_of(provider@, engine) {
            Ok(route) => r == Ok::<AsrRoute, String>(route),
            Err(error) => text::fails(r, error),
        },
{
    let canonical: String = engine::canonical_asr_provider(provider);
    let name: &str = canonical.as_str();
    if text::same(name, "aliyun_qwen") || text::same(name, "volcengine") || text::same(
        name,
        "soniox",
    ) || text::same(name, "stepfun") || text::same(name, "mimo") {
        return Err(
            text::glue3(
                "ASR「",
                name,
                "」仅预置了 endpoint，完整流式客户端尚未接入。请改用本地 SenseVoice 或 OpenAI Audio。",
            ),
        );
    }
    if text::same(name, "openai_audio") || text::same(name, "custom") {
        return Ok(AsrRoute::Cloud);
    }
    match engine::engine_kind_for_provider(provider) {
        Some(selected) => Ok(AsrRoute::Local(selected)),
        None => Ok(AsrRoute::Local(engine)),
    }
}

/// What follows a cloud error: a local engine, or the words of the error.
pub open spec fn after_cloud_error(error: Seq<char>, local: Option<EngineKind>) -> Result<
    EngineKind,
    Seq<char>,
> {
    if local is Some && hedgeable(error) {
        Ok(local->0)
    } else if error == "timeout"@ {
        Err("在线 ASR 超时"@)
    } else {
        Err(error)
    }
}

/// What follows a cloud error: the local engine that steps in, or the words of
/// the error.
pub fn hedge_cloud_error(error: String, local: Option<EngineKind>) -> (r: Result<
    EngineKind,
    String,
>)
    ensures
        match after_cloud_error(error@, local) {
            Ok(engine) => r == Ok::<EngineKind, String>(engine),
            Err(words) => text::fails(r, words),
        },
{
    let can_hedge: bool = cloud_asr_error_is_hedgeable(error.as_str());
    match local {
        Some(engine) => if can_hedge {
            return Ok(engine);
        },
        None => {},
    }
    if text::same(error.as_str(), "timeout") {
        Err("在线 ASR 超时".to_owned())
    } else {
        Err(error)
    }
}

/// What is recorded where a local engine stepped in.
pub open spec fn hedge_issue(provider: Seq<char>, engine: EngineKind) -> pipeline::Issue {
    pipeline::Issue {
        stage: PipelineStage::Asr,
        kind: PipelineIssueKind::Fallback,
        message: provider + " timeout; used "@ + engine.name(),
    }
}

/// What came of the local engine that stepped in: the engine of the record, or
/// the words of the error. That it stepped in is recorded where it succeeded.
pub fn settle_hedge(
    provider: &str,
    engine: EngineKind,
    local_error: Option<String>,
    stage_issues: &mut Vec<PipelineStageIssue>,
) -> (r: Result<String, String>)
    ensures
        match local_error {
            None => {
                &&& r matches Ok(label) && label@ == hedge_label(provider@, engine)
                &&& pipeline::issues(final(stage_issues)@) == pipeline::issues(
                    old(stage_issues)@,
                ).push(hedge_issue(provider@, engine))
            },
            Some(error) => {
                &&& text::fails(
                    r,
                    "在线 ASR 超时，本地 "@ + engine.name() + " 也失败："@ + error@,
                )
                &&& final(stage_issues)@ == old(stage_issues)@
            },
        },
{
    let ghost before = pipeline::issues(stage_issues@);
    match local_error {
        None => {
            stage_issues.push(
                PipelineStageIssue {
                    stage: PipelineStage::Asr,
                    kind: PipelineIssueKind::Fallback,
                    message: text::glue3(provider, " timeout; used ", engine.as_str()),
                },
            );
            assert(pipeline::issues(stage_issues@) =~= before.push(hedge_issue(provider@, engine)));
            Ok(asr_engine_hedge_label(provider, engine))
        },
        Some(error) => {
            let head: String = text::glue3("在线 ASR 超时，本地 ", engine.as_str(), " 也失败：");
            Err(text::glue(head.as_str(), error.as_str()))
        },
    }
}

/// A refused request is never sent to another engine: only errors of the
/// connection are hedged, and only where a local engine is ready.
pub proof fn only_connection_errors_are_hedged(error: Seq<char>, local: Option<EngineKind>)
    ensures
        after_cloud_error(error, local) is Ok <==> local is Some && hedgeable(error),
        after_cloud_error(error, local) matches Err(words) ==> words == error || error
            == "timeout"@,
{
}

/// A request to a cloud engine.
#[derive(Debug, Clone, PartialEq, Eq)]
pub struct CloudRequest {
    pub base_url: String,
    pub model: String,
    pub api_key: String,
    pub timeout_secs: u64,
    pub language: Option<String>,
}

pub open spec fn unless_blank(value: Seq<char>, default: Seq<char>) -> Seq<char> {
    if text::trim(value).len() == 0 {
        default
    } else {
        value
    }
}

fn unless_blank_of(value: &str, default: &str) -> (r: String)
    ensures
        r@ == unless_blank(value@, default@),
{
    if text::is_blank(value) {
        default.to_owned()
    } else {
        value.to_owned()
    }
}

/// The request that a configuration makes.
pub fn cloud_request(config: &AsrServiceConfig) -> (r: CloudRequest)
    ensures
        r.base_url@ == unless_blank(config.base_url@, "https://api.openai.com/v1"@),
        r.model@ == unless_blank(config.model@, "whisper-1"@),
        r.api_key@ == config.api_key@,
        r.timeout_secs == if config.timeout_secs < 30 {
            30u64
        } else {
            config.timeout_secs
        },
        text::opt(r.language) == if text::trim(config.language@).len() == 0 {
            None
        } else {
            Some(config.language@)
        },
{
    CloudRequest {
        base_url: unless_blank_of(config.base_url.as_str(), "https://api.openai.com/v1"),
        model: unless_blank_of(config.model.as_str(), "whisper-1"),
        api_key: config.api_key.as_str().to_owned(),
        timeout_secs: cloud_timeout(config.timeout_secs),
        language: if text::is_blank(config.language.as_str()) {
            None
        } else {
            Some(config.language.as_str().to_owned())
        },
    }
}

// ---------------------------------------------------------------------------
// Meetings
// ---------------------------------------------------------------------------

/// The engine that transcribes a meeting.
#[derive(Debug, Clone, Copy, PartialEq, Eq, Structural)]
pub enum MeetingEngine {
    SenseVoice,
    Paraformer,
}

/// The engine that transcribes a meeting: SenseVoice, which punctuates and knows
/// several languages; Paraformer only where SenseVoice is not there.
pub fn build_meeting_asr_engine(sensevoice_ready: bool, paraformer_ready: bool) -> (r: Result<
    MeetingEngine,
    String,
>)
    ensures
        sensevoice_ready ==> r == Ok::<MeetingEngine, String>(MeetingEngine::SenseVoice),
        !sensevoice_ready && paraformer_ready ==> r == Ok::<MeetingEngine, String>(
            MeetingEngine::Paraformer,
        ),
        !sensevoice_ready && !paraformer_ready ==> text::fails(
            r,
            "meeting transcription needs a provisioned SenseVoice model, but none was found (install SenseVoice or select an existing model dir)"@,
        ),
{
    if sensevoice_ready {
        Ok(MeetingEngine::SenseVoice)
    } else if paraformer_ready {
        Ok(MeetingEngine::Paraformer)
    } else {
        Err(
            "meeting transcription needs a provisioned SenseVoice model, but none was found (install SenseVoice or select an existing model dir)".to_owned(),
        )
    }
}

// ---------------------------------------------------------------------------
// Voice activity
// ---------------------------------------------------------------------------

/// How a recording ends by itself.
#[derive(Debug, Clone, Copy, PartialEq, Eq, Structural)]
pub enum AutoStop {
    Never,
    /// After so many milliseconds without speech, by the level of the signal.
    Level { timeout_ms: u64 },
    /// After so many milliseconds without speech, by the silero model.
    Silero { timeout_ms: u64 },
}

/// How a recording ends by itself; the level serves where silero does not run.
pub open spec fn auto_stop(vad: VadConfig, silero_active: bool) -> AutoStop {
    let timeout_ms = if vad.silence_timeout_ms < 300 {
        300
    } else if vad.silence_timeout_ms > 30_000 {
        30_000
    } else {
        vad.silence_timeout_ms
    };
    if !vad.enabled {
        AutoStop::Never
    } else if vad.mode@ == "silero"@ && silero_active {
        AutoStop::Silero { timeout_ms }
    } else {
        AutoStop::Level { timeout_ms }
    }
}

/// How a recording ends by itself.
pub fn vad_auto_stop(vad: &VadConfig, silero_active: bool) -> (r: AutoStop)
    ensures
        r == auto_stop(*vad, silero_active),
{
    let timeout_ms: u64 = if vad.silence_timeout_ms < 300 {
        300
    } else if vad.silence_timeout_ms > 30_000 {
        30_000
    } else {
        vad.silence_timeout_ms
    };
    if !vad.enabled {
        AutoStop::Never
    } else if text::same(vad.mode.as_str(), "silero") && silero_active {
        AutoStop::Silero { timeout_ms }
    } else {
        AutoStop::Level { timeout_ms }
    }
}

/// The configured silero model; `None` where the shared install is to be used.
pub open spec fn configured_silero(vad: VadConfig) -> Option<Seq<char>> {
    if text::trim(vad.silero_model_path@).len() == 0 {
        None
    } else {
        Some(text::trim(vad.silero_model_path@))
    }
}

/// The silero model. A configured one that is not a file is no model: another one
/// is not taken in its place. `is_file` says whether there is a file, `installed`
/// gives the shared install.
pub fn resolve_silero_model_path<F: Fn(&str) -> bool, G: Fn() -> Option<String>>(
    vad: &VadConfig,
    is_file: F,
    installed: G,
) -> (r: Option<String>)
    requires
        configured_silero(*vad) matches Some(path) ==> forall|asked: &str|
            asked@ == path ==> #[trigger] is_file.requires((asked,)),
        configured_silero(*vad) is None ==> installed.requires(()),
    ensures
        match configured_silero(*vad) {
            Some(path) => {
                &&& r matches Some(found) ==> found@ == path
                &&& exists|asked: &str, there: bool|
                    #![trigger is_file.ensures((asked,), there)]
                    asked@ == path && is_file.ensures((asked,), there) && r is Some == there
            },
            None => installed.ensures((), r),
        },
{
    let configured: String = text::trimmed(vad.silero_model_path.as_str());
    if !configured.as_str().is_empty() {
        let there: bool = is_file(configured.as_str());
        if there {
            Some(configured)
        } else {
            None
        }
    } else {
        installed()
    }
}

/// Which detector listens to a recording.
#[derive(Debug, Clone, PartialEq, Eq)]
pub enum SessionVad {
    /// None: the level of the signal is enough.
    Detached,
    Silero(String),
    /// None, and the model is to be fetched for the next recording.
    Fetch,
}

/// Which detector listens to a recording, where `model` is the silero model.
pub fn configure_session_vad(vad: &VadConfig, model: Option<String>) -> (r: SessionVad)
    ensures
        !vad.enabled || vad.mode@ != "silero"@ ==> r is Detached,
        vad.enabled && vad.mode@ == "silero"@ ==> match model {
            Some(path) => r == SessionVad::Silero(path),
            None => r is Fetch,
        },
{
    if !vad.enabled || !text::same(vad.mode.as_str(), "silero") {
        SessionVad::Detached
    } else {
        match model {
            Some(path) => SessionVad::Silero(path),
            None => SessionVad::Fetch,
        }
    }
}

// ---------------------------------------------------------------------------
// Intents
// ---------------------------------------------------------------------------

/// How the interface names an intent: its kind, the language that it translates
/// to, and a label.
pub fn intent_ui_label(intent: &IntentSpec) -> (r: (String, Option<String>, String))
    ensures
        match intent {
            IntentSpec::Translate { target_language, .. } => {
                &&& r.0@ == "translate"@
                &&& text::opt(r.1) == Some(target_language@)
                &&& r.2@ == "翻译→"@ + target_language@
            },
            IntentSpec::Raw => r.0@ == "raw"@ && r.1 is None && r.2@ == "仅原文"@,
            IntentSpec::Default | IntentSpec::PolishOverride => r.0@ == "default"@ && r.1 is None
                && r.2@ == "整理"@,
        },
{
    match intent {
        IntentSpec::Translate { target_language, .. } => (
            "translate".to_owned(),
            Some(target_language.as_str().to_owned()),
            text::glue("翻译→", target_language.as_str()),
        ),
        IntentSpec::Raw => ("raw".to_owned(), None, "仅原文".to_owned()),
        IntentSpec::Default | IntentSpec::PolishOverride => (
            "default".to_owned(),
            None,
            "整理".to_owned(),
        ),
    }
}

/// What the capsule says while it listens.
pub fn listening_message(intent_label: &str) -> (r: String)
    ensures
        r@ == "按住·"@ + intent_label@,
{
    text::glue("按住·", intent_label)
}

/// What the capsule says while a recording is worked on.
pub fn processing_message(intent: &IntentSpec) -> (r: String)
    ensures
        r@ == match intent {
            IntentSpec::Translate { target_language, .. } => "正在翻译 → "@ + target_language@
                + "…"@,
            IntentSpec::Raw => "转写中（不整理）…"@,
            _ => "转写与整理中…"@,
        },
{
    match intent {
        IntentSpec::Translate { target_language, .. } => text::glue3(
            "正在翻译 → ",
            target_language.as_str(),
            "…",
        ),
        IntentSpec::Raw => "转写中（不整理）…".to_owned(),
        _ => "转写与整理中…".to_owned(),
    }
}

// ---------------------------------------------------------------------------
// Context
// ---------------------------------------------------------------------------

/// The use of the captured context by the recognition stage: none, for a reason.
pub open spec fn unused_context(
    blank: pipeline::StageUsage,
    captured: bool,
    reason: Seq<char>,
) -> pipeline::StageUsage {
    pipeline::StageUsage {
        stage: PipelineStage::Asr,
        sources: seq!["captured_context"@],
        captured,
        not_used_reason: Some(reason),
        ..blank
    }
}

/// The record that the recognition stage did not use the captured context;
/// `blank` is a record without anything in it.
pub fn context_not_used(blank: ContextStageUsage, captured: bool, reason: &str) -> (r:
    ContextStageUsage)
    ensures
        r@ == unused_context(blank@, captured, reason@),
{
    let mut sources: Vec<String> = Vec::new();
    sources.push("captured_context".to_owned());
    assert(text::texts(sources@) =~= seq!["captured_context"@]);
    let mut usage: ContextStageUsage = blank;
    usage.stage = PipelineStage::Asr;
    usage.sources = sources;
    usage.captured = captured;
    usage.not_used_reason = Some(reason.to_owned());
    usage
}

/// What frozen context says of itself: whether anything was captured, and whether
/// more of it comes later.
pub fn frozen_context(input: &ContextInputRef) -> (r: (bool, bool))
    ensures
        r.0 == (input.source_presence_bitmap != 0),
        r.1 == (input.source_status_summary@ == "partial"@),
{
    (
        input.source_presence_bitmap != 0,
        text::same(input.source_status_summary.as_str(), "partial"),
    )
}

/// What recognition made of frozen context: it was not given any.
pub fn frozen_usage_input(capture_id: u128, attempt_id: u128, captured: bool) -> (r:
    StageUsageInput<'static>)
    ensures
        r.capture_id == Some(capture_id),
        r.attempt_id == attempt_id,
        r.stage is Asr,
        text::texts(r.sources@) == seq!["captured_context"@],
        r.projection is None,
        r.captured == captured,
        !r.selected && !r.consumed && !r.sent,
        text::opt(r.not_used_reason) == Some("captured_context_not_projected_to_asr"@),
{
    let mut sources: Vec<String> = Vec::new();
    sources.push("captured_context".to_owned());
    assert(text::texts(sources@) =~= seq!["captured_context"@]);
    StageUsageInput {
        capture_id: Some(capture_id),
        attempt_id,
        stage: PipelineStage::Asr,
        sources,
        projection: None,
        captured,
        selected: false,
        consumed: false,
        sent: false,
        not_used_reason: Some("captured_context_not_projected_to_asr".to_owned()),
    }
}

// ---------------------------------------------------------------------------
// Laws of a capture and its engine
// ---------------------------------------------------------------------------

proof fn lemma_word_occurs(before: Seq<char>, word: Seq<char>, after: Seq<char>)
    requires
        text::lower(word) == word,
    ensures
        text::occurs(text::lower(before + word + after), word),
{
    let e = text::lower(before + word + after);
    let at = before.len() as int;
    assert forall|i: int| 0 <= i < word.len() implies e[at + i] == #[trigger] word[i] by {
        assert((before + word + after)[at + i] == word[i]);
        assert(text::lower(word)[i] == word[i]);
    }
    assert(e.subrange(at, at + word.len()) =~= word);
    assert(text::occurs_at(e, word, at));
}

/// An error that tells of the connection, in any words around, is one of the connection; a
/// local engine that is there steps in for it.
pub proof fn connection_errors_are_known(
    before: Seq<char>,
    after: Seq<char>,
    error: Seq<char>,
    engine: EngineKind,
)
    ensures
        hedgeable(before + "timeout"@ + after),
        hedgeable(before + "timed out"@ + after),
        hedgeable(before + "error sending request"@ + after),
        hedgeable(before + "connection"@ + after),
        hedgeable(before + "connect error"@ + after),
        hedgeable(before + "dns error"@ + after),
        hedgeable(before + "network"@ + after),
        (forall|i: int| 0 <= i < error.len() ==> #[trigger] error[i] != 'o' && error[i] != 'O')
            ==> !hedgeable(error),
        hedgeable(error) ==> after_cloud_error(error, Some(engine)) == Ok::<EngineKind, Seq<char>>(
            engine,
        ),
        after_cloud_error("timeout"@, None) == Err::<EngineKind, Seq<char>>("在线 ASR 超时"@),
        error != "timeout"@ ==> after_cloud_error(error, None) == Err::<EngineKind, Seq<char>>(
            error,
        ),
{
    reveal_strlit("timeout");
    reveal_strlit("timed out");
    reveal_strlit("error sending request");
    reveal_strlit("connection");
    reveal_strlit("connect error");
    reveal_strlit("dns error");
    reveal_strlit("network");
    assert("timeout"@[4] == 'o');
    assert(text::lower("timeout"@) =~= "timeout"@);
    lemma_word_occurs(before, "timeout"@, after);
    assert("timed out"@[6] == 'o');
    assert(text::lower("timed out"@) =~= "timed out"@);
    lemma_word_occurs(before, "timed out"@, after);
    assert("error sending request"@[3] == 'o');
    assert(text::lower("error sending request"@) =~= "error sending request"@);
    lemma_word_occurs(before, "error sending request"@, after);
    assert("connection"@[1] == 'o');
    assert(text::lower("connection"@) =~= "connection"@);
    lemma_word_occurs(before, "connection"@, after);
    assert("connect error"@[1] == 'o');
    assert(text::lower("connect error"@) =~= "connect error"@);
    lemma_word_occurs(before, "connect error"@, after);
    assert("dns error"@[7] == 'o');
    assert(text::lower("dns error"@) =~= "dns error"@);
    lemma_word_occurs(before, "dns error"@, after);
    assert("network"@[4] == 'o');
    assert(text::lower("network"@) =~= "network"@);
    lemma_word_occurs(before, "network"@, after);
    if forall|i: int| 0 <= i < error.len() ==> #[trigger] error[i] != 'o' && error[i] != 'O' {
        let e = text::lower(error);
        assert forall|i: int| 0 <= i < e.len() implies #[trigger] e[i] != 'o' by {
            assert(error[i] != 'o' && error[i] != 'O');
        }
        lemma_has_letter(e, "timeout"@, 4);
        lemma_has_letter(e, "timed out"@, 6);
        lemma_has_letter(e, "error sending request"@, 3);
        lemma_has_letter(e, "connection"@, 1);
        lemma_has_letter(e, "connect error"@, 1);
        lemma_has_letter(e, "dns error"@, 7);
        lemma_has_letter(e, "network"@, 4);
    }
}

proof fn lemma_has_letter(e: Seq<char>, word: Seq<char>, k: int)
    requires
        0 <= k < word.len(),
        word[k] == 'o',
        forall|i: int| 0 <= i < e.len() ==> #[trigger] e[i] != 'o',
    ensures
        !text::occurs(e, word),
{
    if text::occurs(e, word) {
        let at = choose|at: int| text::occurs_at(e, word, at);
        assert(e.subrange(at, at + word.len())[k] == word[k]);
        assert(e[at + k] == 'o');
    }
}

/// A capture lasts as many milliseconds as its samples take at their rate.
pub proof fn capture_lasts_its_samples(samples: nat, rate: nat)
    ensures
        rate > 0 ==> rate * duration_of(samples as int, rate as int) <= samples * 1000 < rate * (
        duration_of(samples as int, rate as int) + 1),
        duration_of(samples as int, 0) == 0,
{
    if rate > 0 {
        let n = samples * 1000;
        let d = rate as int;
        vstd::arithmetic::div_mod::lemma_fundamental_div_mod(n as int, d);
        vstd::arithmetic::div_mod::lemma_mod_bound(n as int, d);
        assert(d * (n as int / d + 1) == d * (n as int / d) + d) by (nonlinear_arith);
    }
}

/// A text that was copied is told so; where it was not even copied, the history is named.
/// Windows needs no permission, and macOS says which one it needs.
pub proof fn notices_tell_what_happened(error: Seq<char>)
    ensures
        copied_notice() == "已复制"@,
        copy_only_notice(true, Platform::Windows) == "已复制"@,
        copy_only_notice(true, Platform::MacOs) == "已复制 · 请开启辅助功能后可自动插入"@,
        copy_only_notice(false, Platform::Windows)
            == "未能插入，也无法写入剪贴板。请从历史记录复制结果。"@,
        copy_only_notice(false, Platform::MacOs)
            == "需要「辅助功能」权限才能插入到其他 App，并且复制到剪贴板也失败了。请先从历史记录复制结果，并到 系统设置 → 隐私与安全性 → 辅助功能 打开 Lumen（或 lumen-asr-desktop）后重试。"@,
        text::occurs(text::lower(error), "elevated"@) ==> failed_insert_notice(error, true)
            == "已复制 · 目标窗口可能以管理员运行"@,
        text::occurs(text::lower(error), "elevated"@) ==> failed_insert_notice(error, false)
            == "目标窗口拒绝输入（可能正在以管理员身份运行）。也无法写入剪贴板，请从历史记录复制结果。"@,
        !text::occurs(text::lower(error), "elevated"@) ==> failed_insert_notice(error, true)
            == "已复制"@,
        !text::occurs(text::lower(error), "elevated"@) ==> failed_insert_notice(error, false)
            == "未能插入，也无法写入剪贴板。请从历史记录复制结果。"@,
        failed_insert_notice("the window is Elevated"@, true)
            == "已复制 · 目标窗口可能以管理员运行"@,
{
    reveal_strlit("the window is Elevated");
    reveal_strlit("elevated");
    assert("the window is Elevated"@.len() == 22 && "the window is Elevated"@[0] == 't'
        && "the window is Elevated"@[1] == 'h' && "the window is Elevated"@[2] == 'e'
        && "the window is Elevated"@[3] == ' ' && "the window is Elevated"@[4] == 'w'
        && "the window is Elevated"@[5] == 'i' && "the window is Elevated"@[6] == 'n'
        && "the window is Elevated"@[7] == 'd' && "the window is Elevated"@[8] == 'o'
        && "the window is Elevated"@[9] == 'w' && "the window is Elevated"@[10] == ' '
        && "the window is Elevated"@[11] == 'i' && "the window is Elevated"@[12] == 's'
        && "the window is Elevated"@[13] == ' ' && "the window is Elevated"@[14] == 'E'
        && "the window is Elevated"@[15] == 'l' && "the window is Elevated"@[16] == 'e'
        && "the window is Elevated"@[17] == 'v' && "the window is Elevated"@[18] == 'a'
        && "the window is Elevated"@[19] == 't' && "the window is Elevated"@[20] == 'e'
        && "the window is Elevated"@[21] == 'd');
    assert("elevated"@.len() == 8 && "elevated"@[0] == 'e' && "elevated"@[1] == 'l'
        && "elevated"@[2] == 'e' && "elevated"@[3] == 'v' && "elevated"@[4] == 'a'
        && "elevated"@[5] == 't' && "elevated"@[6] == 'e' && "elevated"@[7] == 'd');
    let e = text::lower("the window is Elevated"@);
    assert(e.subrange(14, 22) =~= "elevated"@);
    assert(text::occurs_at(e, "elevated"@, 14));
}

/// A signal that cannot be used is told by its cause and recorded as an issue of the
/// capture.
pub proof fn silence_is_told_apart(issue: CaptureSignalIssue)
    ensures
        issue.issue().stage is Capture,
        CaptureSignalIssue::AbsoluteSilence.issue().kind is AbsoluteSilence,
        CaptureSignalIssue::InvalidSignal.issue().kind is InputUnavailable,
        CaptureSignalIssue::AbsoluteSilence.issue().message == "absolute_silence"@,
        CaptureSignalIssue::InvalidSignal.issue().message == "invalid_audio_signal"@,
        CaptureSignalIssue::AbsoluteSilence.told()
            == "未检测到麦克风信号。请检查麦克风权限、输入设备或静音状态后重试。"@,
        CaptureSignalIssue::InvalidSignal.told() == "录音数据无效，请检查输入设备后重试。"@,
{
}

/// A local engine is recorded under its own name, and a provider in the cloud under the
/// provider's.
pub proof fn engine_is_recorded_by_its_name(provider: Seq<char>, rest: Seq<char>, engine: EngineKind)
    ensures
        recorded_engine("local"@ + rest, engine) == engine.name(),
        provider.len() < 5 || provider[0] != 'l' ==> recorded_engine(provider, engine) == provider,
        recorded_engine("openai_audio"@, engine) == "openai_audio"@,
{
    reveal_strlit("local");
    reveal_strlit("openai_audio");
    let all = "local"@ + rest;
    assert(all.subrange(0, 5) =~= "local"@);
    if text::begins(provider, "local"@) {
        assert(provider.subrange(0, 5)[0] == 'l');
        assert(provider[0] == 'l');
    }
    if text::begins("openai_audio"@, "local"@) {
        assert("openai_audio"@.subrange(0, 5)[0] == 'l');
    }
}

/// The provider in use is the configured one under its one name, and that of the engine
/// where none is configured; it runs the engine it is of.
pub proof fn provider_follows_the_engine(configured: Seq<char>, engine: EngineKind)
    ensures
        configured.len() > 0 ==> provider_in_use(configured, engine) == engine::canonical_provider(
            configured,
        ),
        provider_in_use(Seq::empty(), EngineKind::Qwen) == "local_qwen"@,
        provider_in_use(Seq::empty(), EngineKind::Whisper) == "local_whisper"@,
        provider_in_use(Seq::empty(), EngineKind::SenseVoice) == "local_sensevoice"@,
        engine is SenseVoice || engine is Qwen || engine is Whisper ==> engine_under(
            provider_in_use(Seq::empty(), engine),
        ) == Some(engine),
        engine_under("openai_audio"@) == Some(EngineKind::SenseVoice),
        engine_under("custom"@) == Some(EngineKind::SenseVoice),
        engine_under("local_qwen"@) == Some(EngineKind::Qwen),
{
    reveal_strlit("local_qwen");
    reveal_strlit("local_whisper");
    reveal_strlit("local_sensevoice");
    reveal_strlit("openai_audio");
    reveal_strlit("custom");
    assert("local_qwen"@.len() == 10 && "local_qwen"@[0] == 'l' && "local_qwen"@[1] == 'o'
        && "local_qwen"@[2] == 'c' && "local_qwen"@[3] == 'a' && "local_qwen"@[4] == 'l'
        && "local_qwen"@[5] == '_' && "local_qwen"@[6] == 'q' && "local_qwen"@[7] == 'w'
        && "local_qwen"@[8] == 'e' && "local_qwen"@[9] == 'n');
    assert("local_whisper"@.len() == 13 && "local_whisper"@[0] == 'l'
        && "local_whisper"@[1] == 'o' && "local_whisper"@[2] == 'c' && "local_whisper"@[3] == 'a'
        && "local_whisper"@[4] == 'l' && "local_whisper"@[5] == '_' && "local_whisper"@[6] == 'w'
        && "local_whisper"@[7] == 'h' && "local_whisper"@[8] == 'i' && "local_whisper"@[9] == 's'
        && "local_whisper"@[10] == 'p' && "local_whisper"@[11] == 'e'
        && "local_whisper"@[12] == 'r');
    assert("local_sensevoice"@.len() == 16 && "local_sensevoice"@[0] == 'l'
        && "local_sensevoice"@[1] == 'o' && "local_sensevoice"@[2] == 'c'
        && "local_sensevoice"@[3] == 'a' && "local_sensevoice"@[4] == 'l'
        && "local_sensevoice"@[5] == '_' && "local_sensevoice"@[6] == 's'
        && "local_sensevoice"@[7] == 'e' && "local_sensevoice"@[8] == 'n'
        && "local_sensevoice"@[9] == 's' && "local_sensevoice"@[10] == 'e'
        && "local_sensevoice"@[11] == 'v' && "local_sensevoice"@[12] == 'o'
        && "local_sensevoice"@[13] == 'i' && "local_sensevoice"@[14] == 'c'
        && "local_sensevoice"@[15] == 'e');
    assert("openai_audio"@.len() == 12 && "openai_audio"@[0] == 'o' && "openai_audio"@[1] == 'p'
        && "openai_audio"@[2] == 'e' && "openai_audio"@[3] == 'n' && "openai_audio"@[4] == 'a'
        && "openai_audio"@[5] == 'i' && "openai_audio"@[6] == '_' && "openai_audio"@[7] == 'a'
        && "openai_audio"@[8] == 'u' && "openai_audio"@[9] == 'd' && "openai_audio"@[10] == 'i'
        && "openai_audio"@[11] == 'o');
    assert("custom"@.len() == 6 && "custom"@[0] == 'c' && "custom"@[1] == 'u'
        && "custom"@[2] == 's' && "custom"@[3] == 't' && "custom"@[4] == 'o'
        && "custom"@[5] == 'm');
    engine::providers_have_their_names(configured);
}

/// A local provider is ready where its model is, and one at an address where it has a key
/// or the address; any other is not ready.
pub proof fn provider_is_ready_by_its_own(
    provider: Seq<char>,
    sensevoice: bool,
    qwen: bool,
    whisper: bool,
    has_key: bool,
    has_url: bool,
)
    ensures
        provider_ready("local_sensevoice"@, sensevoice, qwen, whisper, has_key, has_url)
            == sensevoice,
        provider_ready("local_qwen"@, sensevoice, qwen, whisper, has_key, has_url) == qwen,
        provider_ready("local_whisper"@, sensevoice, qwen, whisper, has_key, has_url) == whisper,
        provider_ready("openai_audio"@, sensevoice, qwen, whisper, has_key, has_url) == (has_key
            || has_url),
        provider_ready("custom"@, sensevoice, qwen, whisper, has_key, has_url) == (has_key
            || has_url),
        provider != "local_sensevoice"@ && provider != "local_qwen"@ && provider
            != "local_whisper"@ && provider != "openai_audio"@ && provider != "custom"@
            ==> !provider_ready(provider, sensevoice, qwen, whisper, has_key, has_url),
{
    reveal_strlit("local_qwen");
    reveal_strlit("local_whisper");
    reveal_strlit("local_sensevoice");
    reveal_strlit("openai_audio");
    reveal_strlit("custom");
    assert("local_qwen"@.len() == 10 && "local_qwen"@[0] == 'l' && "local_qwen"@[1] == 'o'
        && "local_qwen"@[2] == 'c' && "local_qwen"@[3] == 'a' && "local_qwen"@[4] == 'l'
        && "local_qwen"@[5] == '_' && "local_qwen"@[6] == 'q' && "local_qwen"@[7] == 'w'
        && "local_qwen"@[8] == 'e' && "local_qwen"@[9] == 'n');
    assert("local_whisper"@.len() == 13 && "local_whisper"@[0] == 'l'
        && "local_whisper"@[1] == 'o' && "local_whisper"@[2] == 'c' && "local_whisper"@[3] == 'a'
        && "local_whisper"@[4] == 'l' && "local_whisper"@[5] == '_' && "local_whisper"@[6] == 'w'
        && "local_whisper"@[7] == 'h' && "local_whisper"@[8] == 'i' && "local_whisper"@[9] == 's'
        && "local_whisper"@[10] == 'p' && "local_whisper"@[11] == 'e'
        && "local_whisper"@[12] == 'r');
    assert("local_sensevoice"@.len() == 16 && "local_sensevoice"@[0] == 'l'
        && "local_sensevoice"@[1] == 'o' && "local_sensevoice"@[2] == 'c'
        && "local_sensevoice"@[3] == 'a' && "local_sensevoice"@[4] == 'l'
        && "local_sensevoice"@[5] == '_' && "local_sensevoice"@[6] == 's'
        && "local_sensevoice"@[7] == 'e' && "local_sensevoice"@[8] == 'n'
        && "local_sensevoice"@[9] == 's' && "local_sensevoice"@[10] == 'e'
        && "local_sensevoice"@[11] == 'v' && "local_sensevoice"@[12] == 'o'
        && "local_sensevoice"@[13] == 'i' && "local_sensevoice"@[14] == 'c'
        && "local_sensevoice"@[15] == 'e');
    assert("openai_audio"@.len() == 12 && "openai_audio"@[0] == 'o' && "openai_audio"@[1] == 'p'
        && "openai_audio"@[2] == 'e' && "openai_audio"@[3] == 'n' && "openai_audio"@[4] == 'a'
        && "openai_audio"@[5] == 'i' && "openai_audio"@[6] == '_' && "openai_audio"@[7] == 'a'
        && "openai_audio"@[8] == 'u' && "openai_audio"@[9] == 'd' && "openai_audio"@[10] == 'i'
        && "openai_audio"@[11] == 'o');
    assert("custom"@.len() == 6 && "custom"@[0] == 'c' && "custom"@[1] == 'u'
        && "custom"@[2] == 's' && "custom"@[3] == 't' && "custom"@[4] == 'o'
        && "custom"@[5] == 'm');
}

/// A provider is named by its preset, with the model of one in the cloud behind it; one
/// without a preset by its own name.
pub proof fn provider_is_labelled(provider: Seq<char>, label: Seq<char>, model: Seq<char>)
    ensures
        provider_label(provider, None, model) == provider,
        provider_label(provider, Some(label), Seq::empty()) == label,
        model.len() > 0 && provider.len() > 0 && provider[0] != 'l' ==> provider_label(
            provider,
            Some(label),
            model,
        ) == label + " · "@ + model,
        provider_label("local_qwen"@, Some(label), model) == label,
        provider_label("local_sensevoice"@, Some(label), model) == label,
        provider_label("local_whisper"@, Some(label), model) == label,
{
    reveal_strlit("local_");
    reveal_strlit("local_qwen");
    reveal_strlit("local_whisper");
    reveal_strlit("local_sensevoice");
    assert("local_"@.len() == 6 && "local_"@[0] == 'l' && "local_"@[1] == 'o'
        && "local_"@[2] == 'c' && "local_"@[3] == 'a' && "local_"@[4] == 'l'
        && "local_"@[5] == '_');
    assert("local_qwen"@.len() == 10 && "local_qwen"@[0] == 'l' && "local_qwen"@[1] == 'o'
        && "local_qwen"@[2] == 'c' && "local_qwen"@[3] == 'a' && "local_qwen"@[4] == 'l'
        && "local_qwen"@[5] == '_' && "local_qwen"@[6] == 'q' && "local_qwen"@[7] == 'w'
        && "local_qwen"@[8] == 'e' && "local_qwen"@[9] == 'n');
    assert("local_whisper"@.len() == 13 && "local_whisper"@[0] == 'l'
        && "local_whisper"@[1] == 'o' && "local_whisper"@[2] == 'c' && "local_whisper"@[3] == 'a'
        && "local_whisper"@[4] == 'l' && "local_whisper"@[5] == '_' && "local_whisper"@[6] == 'w'
        && "local_whisper"@[7] == 'h' && "local_whisper"@[8] == 'i' && "local_whisper"@[9] == 's'
        && "local_whisper"@[10] == 'p' && "local_whisper"@[11] == 'e'
        && "local_whisper"@[12] == 'r');
    assert("local_sensevoice"@.len() == 16 && "local_sensevoice"@[0] == 'l'
        && "local_sensevoice"@[1] == 'o' && "local_sensevoice"@[2] == 'c'
        && "local_sensevoice"@[3] == 'a' && "local_sensevoice"@[4] == 'l'
        && "local_sensevoice"@[5] == '_' && "local_sensevoice"@[6] == 's'
        && "local_sensevoice"@[7] == 'e' && "local_sensevoice"@[8] == 'n'
        && "local_sensevoice"@[9] == 's' && "local_sensevoice"@[10] == 'e'
        && "local_sensevoice"@[11] == 'v' && "local_sensevoice"@[12] == 'o'
        && "local_sensevoice"@[13] == 'i' && "local_sensevoice"@[14] == 'c'
        && "local_sensevoice"@[15] == 'e');
    assert("local_qwen"@.subrange(0, 6) =~= "local_"@);
    assert("local_whisper"@.subrange(0, 6) =~= "local_"@);
    assert("local_sensevoice"@.subrange(0, 6) =~= "local_"@);
    if text::begins(provider, "local_"@) {
        assert(provider.subrange(0, 6)[0] == 'l');
        assert(provider[0] == 'l');
    }
}

/// What to do about a provider is told by its engine, and recording is refused by its
/// label; only the local Qwen engine can still be being checked.
pub proof fn refusal_to_record_is_told(provider: Seq<char>, label: Seq<char>)
    ensures
        guidance("local_qwen"@)
            == "请先在「设置 → 语音识别」下载或选择有效的 Qwen3-ASR（sherpa-onnx）模型。"@,
        guidance("local_sensevoice"@) == "请先安装或选择有效的 SenseVoice 模型。"@,
        guidance("local_whisper"@) == "请先选择有效的 Whisper 模型。"@,
        guidance("openai_audio"@) == "请先完成在线 ASR 的地址与凭据配置。"@,
        guidance("custom"@) == "请先完成在线 ASR 的地址与凭据配置。"@,
        guidance("soniox"@) == "当前 ASR 尚未接入可运行的识别客户端。"@,
        guidance("qwen"@) == guidance("local_qwen"@),
        not_ready(provider, label, false) == label + " 未就绪。"@ + guidance(provider),
        not_ready("local_qwen"@, label, true) == label + " 正在检查运行环境，请稍候再试。"@,
        not_ready("local_whisper"@, label, true) == not_ready("local_whisper"@, label, false),
        not_ready("openai_audio"@, label, true) == not_ready("openai_audio"@, label, false),
{
    reveal_strlit("local_qwen");
    reveal_strlit("local_whisper");
    reveal_strlit("local_sensevoice");
    reveal_strlit("openai_audio");
    reveal_strlit("custom");
    reveal_strlit("soniox");
    assert("local_qwen"@.len() == 10 && "local_qwen"@[0] == 'l' && "local_qwen"@[1] == 'o'
        && "local_qwen"@[2] == 'c' && "local_qwen"@[3] == 'a' && "local_qwen"@[4] == 'l'
        && "local_qwen"@[5] == '_' && "local_qwen"@[6] == 'q' && "local_qwen"@[7] == 'w'
        && "local_qwen"@[8] == 'e' && "local_qwen"@[9] == 'n');
    assert("local_whisper"@.len() == 13 && "local_whisper"@[0] == 'l'
        && "local_whisper"@[1] == 'o' && "local_whisper"@[2] == 'c' && "local_whisper"@[3] == 'a'
        && "local_whisper"@[4] == 'l' && "local_whisper"@[5] == '_' && "local_whisper"@[6] == 'w'
        && "local_whisper"@[7] == 'h' && "local_whisper"@[8] == 'i' && "local_whisper"@[9] == 's'
        && "local_whisper"@[10] == 'p' && "local_whisper"@[11] == 'e'
        && "local_whisper"@[12] == 'r');
    assert("local_sensevoice"@.len() == 16 && "local_sensevoice"@[0] == 'l'
        && "local_sensevoice"@[1] == 'o' && "local_sensevoice"@[2] == 'c'
        && "local_sensevoice"@[3] == 'a' && "local_sensevoice"@[4] == 'l'
        && "local_sensevoice"@[5] == '_' && "local_sensevoice"@[6] == 's'
        && "local_sensevoice"@[7] == 'e' && "local_sensevoice"@[8] == 'n'
        && "local_sensevoice"@[9] == 's' && "local_sensevoice"@[10] == 'e'
        && "local_sensevoice"@[11] == 'v' && "local_sensevoice"@[12] == 'o'
        && "local_sensevoice"@[13] == 'i' && "local_sensevoice"@[14] == 'c'
        && "local_sensevoice"@[15] == 'e');
    assert("openai_audio"@.len() == 12 && "openai_audio"@[0] == 'o' && "openai_audio"@[1] == 'p'
        && "openai_audio"@[2] == 'e' && "openai_audio"@[3] == 'n' && "openai_audio"@[4] == 'a'
        && "openai_audio"@[5] == 'i' && "openai_audio"@[6] == '_' && "openai_audio"@[7] == 'a'
        && "openai_audio"@[8] == 'u' && "openai_audio"@[9] == 'd' && "openai_audio"@[10] == 'i'
        && "openai_audio"@[11] == 'o');
    assert("custom"@.len() == 6 && "custom"@[0] == 'c' && "custom"@[1] == 'u'
        && "custom"@[2] == 's' && "custom"@[3] == 't' && "custom"@[4] == 'o'
        && "custom"@[5] == 'm');
    assert("soniox"@.len() == 6 && "soniox"@[0] == 's' && "soniox"@[1] == 'o'
        && "soniox"@[2] == 'n' && "soniox"@[3] == 'i' && "soniox"@[4] == 'o'
        && "soniox"@[5] == 'x');
    engine::providers_have_their_names(provider);
}

/// A capture goes to the cloud for a provider there and to the local engine of a provider
/// that has one, or to the engine that is loaded; one of which only the address is known
/// is refused by its name.
pub proof fn capture_goes_where_its_provider_is(engine: EngineKind)
    ensures
        route_of("openai_audio"@, engine) == Ok::<AsrRoute, Seq<char>>(AsrRoute::Cloud),
        route_of("custom"@, engine) == Ok::<AsrRoute, Seq<char>>(AsrRoute::Cloud),
        route_of("local_qwen"@, engine) == Ok::<AsrRoute, Seq<char>>(
            AsrRoute::Local(EngineKind::Qwen),
        ),
        route_of("local_whisper"@, engine) == Ok::<AsrRoute, Seq<char>>(
            AsrRoute::Local(EngineKind::Whisper),
        ),
        route_of("local_sensevoice"@, engine) == Ok::<AsrRoute, Seq<char>>(
            AsrRoute::Local(EngineKind::SenseVoice),
        ),
        route_of("minimax"@, engine) == Ok::<AsrRoute, Seq<char>>(AsrRoute::Local(engine)),
        route_of("aliyun_qwen"@, engine) is Err,
        route_of("volcengine"@, engine) is Err,
        route_of("soniox"@, engine) is Err,
        route_of("stepfun"@, engine) is Err,
        route_of("mimo"@, engine) matches Err(words) && words == "ASR「"@ + "mimo"@
            + "」仅预置了 endpoint，完整流式客户端尚未接入。请改用本地 SenseVoice 或 OpenAI Audio。"@,
{
    reveal_strlit("local_qwen");
    reveal_strlit("local_whisper");
    reveal_strlit("local_sensevoice");
    reveal_strlit("openai_audio");
    reveal_strlit("custom");
    reveal_strlit("soniox");
    reveal_strlit("minimax");
    reveal_strlit("aliyun_qwen");
    reveal_strlit("volcengine");
    reveal_strlit("stepfun");
    reveal_strlit("mimo");
    assert("local_qwen"@.len() == 10 && "local_qwen"@[0] == 'l' && "local_qwen"@[1] == 'o'
        && "local_qwen"@[2] == 'c' && "local_qwen"@[3] == 'a' && "local_qwen"@[4] == 'l'
        && "local_qwen"@[5] == '_' && "local_qwen"@[6] == 'q' && "local_qwen"@[7] == 'w'
        && "local_qwen"@[8] == 'e' && "local_qwen"@[9] == 'n');
    assert("local_whisper"@.len() == 13 && "local_whisper"@[0] == 'l'
        && "local_whisper"@[1] == 'o' && "local_whisper"@[2] == 'c' && "local_whisper"@[3] == 'a'
        && "local_whisper"@[4] == 'l' && "local_whisper"@[5] == '_' && "local_whisper"@[6] == 'w'
        && "local_whisper"@[7] == 'h' && "local_whisper"@[8] == 'i' && "local_whisper"@[9] == 's'
        && "local_whisper"@[10] == 'p' && "local_whisper"@[11] == 'e'
        && "local_whisper"@[12] == 'r');
    assert("local_sensevoice"@.len() == 16 && "local_sensevoice"@[0] == 'l'
        && "local_sensevoice"@[1] == 'o' && "local_sensevoice"@[2] == 'c'
        && "local_sensevoice"@[3] == 'a' && "local_sensevoice"@[4] == 'l'
        && "local_sensevoice"@[5] == '_' && "local_sensevoice"@[6] == 's'
        && "local_sensevoice"@[7] == 'e' && "local_sensevoice"@[8] == 'n'
        && "local_sensevoice"@[9] == 's' && "local_sensevoice"@[10] == 'e'
        && "local_sensevoice"@[11] == 'v' && "local_sensevoice"@[12] == 'o'
        && "local_sensevoice"@[13] == 'i' && "local_sensevoice"@[14] == 'c'
        && "local_sensevoice"@[15] == 'e');
    assert("openai_audio"@.len() == 12 && "openai_audio"@[0] == 'o' && "openai_audio"@[1] == 'p'
        && "openai_audio"@[2] == 'e' && "openai_audio"@[3] == 'n' && "openai_audio"@[4] == 'a'
        && "openai_audio"@[5] == 'i' && "openai_audio"@[6] == '_' && "openai_audio"@[7] == 'a'
        && "openai_audio"@[8] == 'u' && "openai_audio"@[9] == 'd' && "openai_audio"@[10] == 'i'
        && "openai_audio"@[11] == 'o');
    assert("custom"@.len() == 6 && "custom"@[0] == 'c' && "custom"@[1] == 'u'
        && "custom"@[2] == 's' && "custom"@[3] == 't' && "custom"@[4] == 'o'
        && "custom"@[5] == 'm');
    assert("soniox"@.len() == 6 && "soniox"@[0] == 's' && "soniox"@[1] == 'o'
        && "soniox"@[2] == 'n' && "soniox"@[3] == 'i' && "soniox"@[4] == 'o'
        && "soniox"@[5] == 'x');
    assert("minimax"@.len() == 7 && "minimax"@[0] == 'm' && "minimax"@[1] == 'i'
        && "minimax"@[2] == 'n' && "minimax"@[3] == 'i' && "minimax"@[4] == 'm'
        && "minimax"@[5] == 'a' && "minimax"@[6] == 'x');
    assert("aliyun_qwen"@.len() == 11 && "aliyun_qwen"@[0] == 'a' && "aliyun_qwen"@[1] == 'l'
        && "aliyun_qwen"@[2] == 'i' && "aliyun_qwen"@[3] == 'y' && "aliyun_qwen"@[4] == 'u'
        && "aliyun_qwen"@[5] == 'n' && "aliyun_qwen"@[6] == '_' && "aliyun_qwen"@[7] == 'q'
        && "aliyun_qwen"@[8] == 'w' && "aliyun_qwen"@[9] == 'e' && "aliyun_qwen"@[10] == 'n');
    assert("volcengine"@.len() == 10 && "volcengine"@[0] == 'v' && "volcengine"@[1] == 'o'
        && "volcengine"@[2] == 'l' && "volcengine"@[3] == 'c' && "volcengine"@[4] == 'e'
        && "volcengine"@[5] == 'n' && "volcengine"@[6] == 'g' && "volcengine"@[7] == 'i'
        && "volcengine"@[8] == 'n' && "volcengine"@[9] == 'e');
    assert("stepfun"@.len() == 7 && "stepfun"@[0] == 's' && "stepfun"@[1] == 't'
        && "stepfun"@[2] == 'e' && "stepfun"@[3] == 'p' && "stepfun"@[4] == 'f'
        && "stepfun"@[5] == 'u' && "stepfun"@[6] == 'n');
    assert("mimo"@.len() == 4 && "mimo"@[0] == 'm' && "mimo"@[1] == 'i' && "mimo"@[2] == 'm'
        && "mimo"@[3] == 'o');
    engine::providers_have_their_names("mimo"@);
}

/// Where a local engine steps in, both are recorded, as a fallback of recognition.
pub proof fn stepping_in_is_recorded(provider: Seq<char>, engine: EngineKind)
    ensures
        hedge_label(provider, engine) == provider + "→"@ + engine.name(),
        hedge_issue(provider, engine).stage is Asr,
        hedge_issue(provider, engine).kind is Fallback,
        hedge_issue(provider, engine).message == provider + " timeout; used "@ + engine.name(),
{
}

/// What is given stands, and the default where nothing is; only one of the two ways of
/// giving looks past white space.
pub proof fn defaults_stand_in(value: Seq<char>, default: Seq<char>)
    ensures
        value.len() > 0 ==> or_default(value, default) == value,
        or_default(Seq::empty(), default) == default,
        text::trim(value).len() > 0 ==> unless_blank(value, default) == value,
        text::trim(value).len() == 0 ==> unless_blank(value, default) == default,
{
}

/// A recording ends by itself only where that is switched on, after a silence of 300 ms to
/// 30 s, which is the configured one between these; silero serves where it is chosen and
/// runs, and the level everywhere else.
pub proof fn recording_ends_after_silence(vad: VadConfig, silero_active: bool)
    ensures
        !vad.enabled ==> auto_stop(vad, silero_active) is Never,
        vad.enabled ==> !(auto_stop(vad, silero_active) is Never),
        auto_stop(vad, silero_active) is Silero <==> vad.enabled && vad.mode@ == "silero"@
            && silero_active,
        auto_stop(vad, silero_active) matches AutoStop::Silero { timeout_ms } ==> {
            &&& 300 <= timeout_ms <= 30_000
            &&& 300 <= vad.silence_timeout_ms <= 30_000 ==> timeout_ms == vad.silence_timeout_ms
            &&& vad.silence_timeout_ms < 300 ==> timeout_ms == 300
            &&& vad.silence_timeout_ms > 30_000 ==> timeout_ms == 30_000
        },
        auto_stop(vad, silero_active) matches AutoStop::Level { timeout_ms } ==> {
            &&& 300 <= timeout_ms <= 30_000
            &&& 300 <= vad.silence_timeout_ms <= 30_000 ==> timeout_ms == vad.silence_timeout_ms
            &&& vad.silence_timeout_ms < 300 ==> timeout_ms == 300
            &&& vad.silence_timeout_ms > 30_000 ==> timeout_ms == 30_000
        },
{
}

/// A silero model is the configured one, without the white space around its path.
pub proof fn configured_model_is_taken(vad: VadConfig)
    ensures
        text::trim(vad.silero_model_path@).len() > 0 ==> configured_silero(vad) == Some(
            text::trim(vad.silero_model_path@),
        ),
        text::trim(vad.silero_model_path@).len() == 0 ==> configured_silero(vad) is None,
{
}

/// Context that recognition does not use is recorded so, with the reason.
pub proof fn unused_context_is_recorded(
    blank: pipeline::StageUsage,
    captured: bool,
    reason: Seq<char>,
)
    ensures
        ({
            let usage = unused_context(blank, captured, reason);
            &&& usage.stage is Asr
            &&& usage.sources == seq!["captured_context"@]
            &&& usage.captured == captured
            &&& usage.not_used_reason == Some(reason)
            &&& usage.sent == blank.sent
            &&& usage.selected == blank.selected
            &&& usage.consumed == blank.consumed
            &&& usage.projection_path == blank.projection_path
            &&& usage.projection_hash == blank.projection_hash
            &&& usage.projection_chars == blank.projection_chars
        }),
{
}

} // verus!
