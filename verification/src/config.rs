//! Application settings: their defaults, and the rules by which settings of
//! earlier versions are carried over.
use crate::engine;
use crate::engine::EngineKind;
use crate::paths;
use crate::platform::Platform;
use crate::text;
use vstd::prelude::*;
use vstd::string::*;

verus! {

// ---------------------------------------------------------------------------
// Meetings
// ---------------------------------------------------------------------------

/// Meeting-specific processing options.
#[derive(Debug, Clone)]
pub struct MeetingConfig {
    /// Clean the verbatim transcript with the configured model corrector.
    pub transcript_cleanup: bool,
    /// Watch for meetings and prompt (never auto-record) to start one.
    pub detection_enabled: bool,
    /// Link a just-started recording to the calendar.
    pub calendar_link: bool,
    /// Minutes of continuous microphone silence after which an unattended
    /// recording stops; `0` disables the stop.
    pub silence_auto_stop_minutes: u32,
    /// Most minutes by the clock that a meeting may take; `0` disables the cap.
    pub max_duration_minutes: u32,
    /// Prompt to stop when a calendar-linked meeting's end has passed.
    pub calendar_end_reminder: bool,
    /// Record the meeting application's audio as a second track.
    pub system_audio: bool,
    /// Feed the second track into the live transcript too.
    pub system_live_preview: bool,
    /// Hide the microphone's echo of remote speech from the transcript.
    pub echo_suppression: bool,
    /// Spread manual speaker marks to unlabelled segments by voiceprint.
    pub annotation_voiceprint_spread: bool,
    /// Enroll each manually named speaker's voiceprint.
    pub auto_enroll_speakers: bool,
    /// The enrolled identity that is the user.
    pub self_identity_id: Option<String>,
}

/// Default minutes of continuous microphone silence before an unattended
/// recording stops.
pub fn default_silence_auto_stop_minutes() -> (r: u32)
    ensures
        r == 15,
{
    15
}

/// Default cap on one meeting recording: eight hours.
pub fn default_max_duration_minutes() -> (r: u32)
    ensures
        r == 480,
{
    480
}

/// Default for the calendar-end stop reminder (a prompt, never a stop).
pub fn default_calendar_end_reminder() -> (r: bool)
    ensures
        r,
{
    true
}

impl Default for MeetingConfig {
    fn default() -> (r: Self)
        ensures
            r.transcript_cleanup && !r.detection_enabled && r.calendar_link,
            r.silence_auto_stop_minutes == 15 && r.max_duration_minutes == 480,
            r.calendar_end_reminder && r.system_audio && r.system_live_preview,
            r.echo_suppression && r.annotation_voiceprint_spread && r.auto_enroll_speakers,
            r.self_identity_id is None,
    {
        Self {
            transcript_cleanup: true,
            detection_enabled: false,
            calendar_link: true,
            silence_auto_stop_minutes: default_silence_auto_stop_minutes(),
            max_duration_minutes: default_max_duration_minutes(),
            calendar_end_reminder: default_calendar_end_reminder(),
            system_audio: true,
            system_live_preview: true,
            echo_suppression: true,
            annotation_voiceprint_spread: true,
            auto_enroll_speakers: true,
            self_identity_id: None,
        }
    }
}

/// Meeting settings as they are stored: each may be missing.
#[derive(Debug, Clone, Default)]
pub struct MeetingConfigWire {
    pub transcript_cleanup: Option<bool>,
    pub detection_enabled: Option<bool>,
    pub calendar_link: Option<bool>,
    pub silence_auto_stop_minutes: Option<u32>,
    pub max_duration_minutes: Option<u32>,
    pub calendar_end_reminder: Option<bool>,
    pub system_audio: Option<bool>,
    pub system_live_preview: Option<bool>,
    pub echo_suppression: Option<bool>,
    pub annotation_voiceprint_spread: Option<bool>,
    pub auto_enroll_speakers: Option<bool>,
    pub self_identity_id: Option<String>,
}

/// On, unless it was switched off.
pub open spec fn on_unless(value: Option<bool>) -> bool {
    value != Some(false)
}

fn switched(value: Option<bool>, default: bool) -> (r: bool)
    ensures
        r == match value {
            Some(value) => value,
            None => default,
        },
{
    match value {
        Some(value) => value,
        None => default,
    }
}

/// A stored number of minutes, or `default`.
pub open spec fn minutes_or(value: Option<u32>, default: u32) -> u32 {
    match value {
        Some(value) => value,
        None => default,
    }
}

fn stored_minutes(value: Option<u32>, default: u32) -> (r: u32)
    ensures
        r == minutes_or(value, default),
{
    match value {
        Some(value) => value,
        None => default,
    }
}

impl MeetingConfig {
    /// What stored settings stand for: a setting that is missing has its default.
    pub fn from_wire(wire: MeetingConfigWire) -> (r: Self)
        ensures
            r.detection_enabled == (wire.detection_enabled == Some(true)),
            r.transcript_cleanup == on_unless(wire.transcript_cleanup),
            r.calendar_link == on_unless(wire.calendar_link),
            r.calendar_end_reminder == on_unless(wire.calendar_end_reminder),
            r.system_audio == on_unless(wire.system_audio),
            r.system_live_preview == on_unless(wire.system_live_preview),
            r.echo_suppression == on_unless(wire.echo_suppression),
            r.annotation_voiceprint_spread == on_unless(wire.annotation_voiceprint_spread),
            r.auto_enroll_speakers == on_unless(wire.auto_enroll_speakers),
            r.silence_auto_stop_minutes == minutes_or(wire.silence_auto_stop_minutes, 15),
            r.max_duration_minutes == minutes_or(wire.max_duration_minutes, 480),
            r.self_identity_id == wire.self_identity_id,
    {
        Self {
            transcript_cleanup: switched(wire.transcript_cleanup, true),
            detection_enabled: switched(wire.detection_enabled, false),
            calendar_link: switched(wire.calendar_link, true),
            silence_auto_stop_minutes: stored_minutes(
                wire.silence_auto_stop_minutes,
                default_silence_auto_stop_minutes(),
            ),
            max_duration_minutes: stored_minutes(
                wire.max_duration_minutes,
                default_max_duration_minutes(),
            ),
            calendar_end_reminder: switched(
                wire.calendar_end_reminder,
                default_calendar_end_reminder(),
            ),
            system_audio: switched(wire.system_audio, true),
            system_live_preview: switched(wire.system_live_preview, true),
            echo_suppression: switched(wire.echo_suppression, true),
            annotation_voiceprint_spread: switched(wire.annotation_voiceprint_spread, true),
            auto_enroll_speakers: switched(wire.auto_enroll_speakers, true),
            self_identity_id: wire.self_identity_id,
        }
    }
}

// ---------------------------------------------------------------------------
// Context capture
// ---------------------------------------------------------------------------

#[derive(Debug, Clone)]
pub struct ContextCaptureConfig {
    pub enabled: bool,
    /// metadata | editor | visible. Vision sources are intentionally excluded.
    pub profile: String,
    pub max_chars: usize,
    pub freeze_deadline_ms: u64,
    pub late_deadline_ms: u64,
}

impl Default for ContextCaptureConfig {
    fn default() -> (r: Self)
        ensures
            r.enabled,
            r.profile@ == "visible"@,
            r.max_chars == 200_000,
            r.freeze_deadline_ms == 500,
            r.late_deadline_ms == 5_000,
    {
        Self {
            enabled: true,
            profile: "visible".to_owned(),
            max_chars: 200_000,
            freeze_deadline_ms: 500,
            late_deadline_ms: 5_000,
        }
    }
}

// ---------------------------------------------------------------------------
// Speech recognition
// ---------------------------------------------------------------------------

/// ASR provider selection across local and cloud transcription engines.
#[derive(Debug, Clone)]
pub struct AsrServiceConfig {
    /// local_sensevoice | local_qwen | local_whisper | openai_audio | …
    pub provider: String,
    /// The directory that earlier versions kept, for the engine then in use.
    pub model_dir: String,
    /// Engine-specific paths preserve independent local pipelines across switches.
    pub sensevoice_model_dir: String,
    pub qwen_model_dir: String,
    pub whisper_model_dir: String,
    /// Python executable for the Python-backed worker.
    pub runtime_path: String,
    /// A flag of earlier versions: tolerated, and read by nothing.
    pub qwen_shadow_enabled: bool,
    pub base_url: String,
    pub model: String,
    pub api_key: String,
    /// Optional BCP-47 / ISO language hint for cloud ASR.
    pub language: String,
    pub timeout_secs: u64,
}

/// The directories in which the engines' models are looked for.
#[verifier::ext_equal]
pub struct ModelDirs {
    pub current: Seq<char>,
    pub sensevoice: Seq<char>,
    pub qwen: Seq<char>,
    pub whisper: Seq<char>,
}

impl ModelDirs {
    /// The engine's own directory, without white space around it.
    pub open spec fn own(self, engine: EngineKind) -> Seq<char> {
        match engine {
            EngineKind::SenseVoice => text::trim(self.sensevoice),
            EngineKind::Qwen => text::trim(self.qwen),
            EngineKind::Whisper => text::trim(self.whisper),
            _ => Seq::empty(),
        }
    }

    /// The engine's own directory, or else the current one.
    pub open spec fn dir_for(self, engine: EngineKind) -> Seq<char> {
        if self.own(engine).len() > 0 {
            self.own(engine)
        } else {
            text::trim(self.current)
        }
    }

    /// With `dir` as the engine's own directory.
    pub open spec fn with_own(self, engine: EngineKind, dir: Seq<char>) -> ModelDirs {
        match engine {
            EngineKind::SenseVoice => ModelDirs { sensevoice: dir, ..self },
            EngineKind::Qwen => ModelDirs { qwen: dir, ..self },
            EngineKind::Whisper => ModelDirs { whisper: dir, ..self },
            _ => self,
        }
    }

    /// With `dir` as the engine's own directory where it has none.
    pub open spec fn claimed(self, engine: EngineKind, dir: Seq<char>) -> ModelDirs {
        if self.own(engine).len() == 0 {
            self.with_own(engine, dir)
        } else {
            self
        }
    }

    /// With the current directory given to the engine whose model it holds; to
    /// that of the provider where it holds none that is known.
    pub open spec fn migrated(self, found: FoundModel, provider: Seq<char>) -> ModelDirs {
        let current = text::trim(self.current);
        if current.len() == 0 {
            self
        } else if found.sensevoice {
            self.claimed(EngineKind::SenseVoice, current)
        } else if found.qwen {
            self.claimed(EngineKind::Qwen, current)
        } else if found.whisper {
            self.claimed(EngineKind::Whisper, current)
        } else {
            match engine::provider_engine(provider) {
                Some(engine) => self.claimed(engine, current),
                None => self,
            }
        }
    }

    /// With `path` selected for the engine.
    pub open spec fn selected(
        self,
        engine: EngineKind,
        path: Seq<char>,
        found: FoundModel,
        provider: Seq<char>,
    ) -> ModelDirs {
        let migrated = self.migrated(found, provider);
        if has_model_dir(engine) {
            ModelDirs { current: path, ..migrated.with_own(engine, path) }
        } else {
            migrated
        }
    }
}

/// The engine runs on the device, from a directory.
pub open spec fn has_model_dir(engine: EngineKind) -> bool {
    engine is SenseVoice || engine is Qwen || engine is Whisper
}

/// Which engines' models were found ready in the current directory.
#[derive(Debug, Clone, Copy, PartialEq, Eq, Structural)]
pub struct FoundModel {
    pub sensevoice: bool,
    pub qwen: bool,
    pub whisper: bool,
}

impl Default for AsrServiceConfig {
    fn default() -> (r: Self)
        ensures
            r.provider@ == "local_sensevoice"@,
            r.dirs() == (ModelDirs {
                current: Seq::empty(),
                sensevoice: Seq::empty(),
                qwen: Seq::empty(),
                whisper: Seq::empty(),
            }),
            r.runtime_path@.len() == 0 && !r.qwen_shadow_enabled && r.base_url@.len() == 0,
            r.model@.len() == 0 && r.api_key@.len() == 0 && r.language@.len() == 0,
            r.timeout_secs == 120,
    {
        Self {
            provider: "local_sensevoice".to_owned(),
            model_dir: String::new(),
            sensevoice_model_dir: String::new(),
            qwen_model_dir: String::new(),
            whisper_model_dir: String::new(),
            runtime_path: String::new(),
            qwen_shadow_enabled: false,
            base_url: String::new(),
            model: String::new(),
            api_key: String::new(),
            language: String::new(),
            timeout_secs: 120,
        }
    }
}

impl AsrServiceConfig {
    /// The directories of the engines' models.
    pub open spec fn dirs(self) -> ModelDirs {
        ModelDirs {
            current: self.model_dir@,
            sensevoice: self.sensevoice_model_dir@,
            qwen: self.qwen_model_dir@,
            whisper: self.whisper_model_dir@,
        }
    }

    /// All but the directories is as in `other`.
    pub open spec fn same_but_dirs(self, other: Self) -> bool {
        &&& self.provider == other.provider
        &&& self.runtime_path == other.runtime_path
        &&& self.qwen_shadow_enabled == other.qwen_shadow_enabled
        &&& self.base_url == other.base_url
        &&& self.model == other.model
        &&& self.api_key == other.api_key
        &&& self.language == other.language
        &&& self.timeout_secs == other.timeout_secs
    }

    fn claim(&mut self, engine: EngineKind, dir: String)
        ensures
            final(self).dirs() == old(self).dirs().claimed(engine, dir@),
            final(self).same_but_dirs(*old(self)),
    {
        match engine {
            EngineKind::SenseVoice => {
                if text::is_blank(self.sensevoice_model_dir.as_str()) {
                    self.sensevoice_model_dir = dir;
                }
            },
            EngineKind::Qwen => {
                if text::is_blank(self.qwen_model_dir.as_str()) {
                    self.qwen_model_dir = dir;
                }
            },
            EngineKind::Whisper => {
                if text::is_blank(self.whisper_model_dir.as_str()) {
                    self.whisper_model_dir = dir;
                }
            },
            _ => {},
        }
    }

    /// Gives the directory that earlier versions kept to the engine whose model
    /// was found in it, or else to the provider's engine.
    pub fn migrate_legacy_model_dir(&mut self, found: FoundModel)
        ensures
            final(self).dirs() == old(self).dirs().migrated(found, old(self).provider@),
            final(self).same_but_dirs(*old(self)),
    {
        let legacy: String = text::trimmed(self.model_dir.as_str());
        if legacy.as_str().is_empty() {
            return;
        }
        if found.sensevoice {
            self.claim(EngineKind::SenseVoice, legacy);
        } else if found.qwen {
            self.claim(EngineKind::Qwen, legacy);
        } else if found.whisper {
            self.claim(EngineKind::Whisper, legacy);
        } else if let Some(engine) = engine::engine_kind_for_provider(self.provider.as_str()) {
            self.claim(engine, legacy);
        }
    }

    /// The directory in which the engine's model is looked for.
    pub fn model_dir_for(&self, engine: EngineKind) -> (r: String)
        ensures
            r@ == self.dirs().dir_for(engine),
    {
        let own: String = match engine {
            EngineKind::SenseVoice => text::trimmed(self.sensevoice_model_dir.as_str()),
            EngineKind::Qwen => text::trimmed(self.qwen_model_dir.as_str()),
            EngineKind::Whisper => text::trimmed(self.whisper_model_dir.as_str()),
            _ => String::new(),
        };
        if own.as_str().is_empty() {
            text::trimmed(self.model_dir.as_str())
        } else {
            own
        }
    }

    /// Selects `path` for the engine. The current directory, which earlier
    /// versions still read, follows the active engine.
    pub fn set_model_dir_for(&mut self, engine: EngineKind, path: &str, found: FoundModel)
        ensures
            final(self).dirs() == old(self).dirs().selected(
                engine,
                path@,
                found,
                old(self).provider@,
            ),
            final(self).same_but_dirs(*old(self)),
    {
        self.migrate_legacy_model_dir(found);
        match engine {
            EngineKind::SenseVoice => {
                self.sensevoice_model_dir = path.to_owned();
            },
            EngineKind::Qwen => {
                self.qwen_model_dir = path.to_owned();
            },
            EngineKind::Whisper => {
                self.whisper_model_dir = path.to_owned();
            },
            _ => return,
        }
        self.model_dir = path.to_owned();
    }
}

/// The directory that was selected for an engine is the one it is given, and
/// the other engines' own directories are those they had, or that they were
/// given when the current directory was carried over.
pub proof fn selection_is_kept_apart(
    dirs: ModelDirs,
    engine: EngineKind,
    other: EngineKind,
    path: Seq<char>,
    found: FoundModel,
    provider: Seq<char>,
)
    requires
        has_model_dir(engine),
        text::trim(path) == path,
        path.len() > 0,
        engine != other,
    ensures
        dirs.selected(engine, path, found, provider).dir_for(engine) == path,
        dirs.selected(engine, path, found, provider).own(other) == dirs.migrated(
            found,
            provider,
        ).own(other),
        dirs.own(other).len() > 0 ==> dirs.selected(engine, path, found, provider).own(other)
            == dirs.own(other),
{
}

/// A known model is given to no other engine: once the current directory was
/// carried over, a later provider does not take it.
pub proof fn known_model_is_not_reassigned(
    dirs: ModelDirs,
    found: FoundModel,
    first: Seq<char>,
    second: Seq<char>,
)
    requires
        found.sensevoice || found.qwen || found.whisper,
    ensures
        dirs.migrated(found, first).migrated(found, second) == dirs.migrated(found, first),
{
    text::lemma_trim_twice(dirs.current);
}

/// `value` with a leading `~` replaced by the home directory.
pub open spec fn expanded(value: Seq<char>, home: Seq<char>, windows: bool) -> Seq<char> {
    if value == "~"@ {
        home
    } else if text::begins(value, "~/"@) || text::begins(value, "~\\"@) {
        paths::join(home, value.skip(2), windows)
    } else {
        value
    }
}

/// `value` with a leading `~` replaced by the home directory.
pub fn expand_user_path(value: &str, home: &str, platform: Platform) -> (r: String)
    ensures
        r@ == expanded(value@, home@, platform is Windows),
{
    proof {
        reveal_strlit("~/");
        reveal_strlit("~\\");
    }
    if text::same(value, "~") {
        return home.to_owned();
    }
    if let Some(relative) = text::after_prefix(value, "~/") {
        return paths::joined(home, relative.as_str(), platform);
    }
    if let Some(relative) = text::after_prefix(value, "~\\") {
        return paths::joined(home, relative.as_str(), platform);
    }
    value.to_owned()
}

/// The Python executable: the configured one, or else the environment's, or
/// else the platform's.
pub open spec fn python_path(
    configured: Seq<char>,
    environment: Option<Seq<char>>,
    home: Seq<char>,
    windows: bool,
) -> Seq<char> {
    if text::trim(configured).len() > 0 {
        expanded(text::trim(configured), home, windows)
    } else if environment is Some && environment->0.len() > 0 {
        expanded(environment->0, home, windows)
    } else if windows {
        "python"@
    } else {
        "python3"@
    }
}

impl AsrServiceConfig {
    /// Python executable for the Python-backed worker. `environment` is the
    /// value of the variable that names one, `home` the home directory.
    pub fn python_executable(
        &self,
        environment: Option<&String>,
        home: &str,
        platform: Platform,
    ) -> (r: String)
        ensures
            r@ == python_path(
                self.runtime_path@,
                text::seen(environment),
                home@,
                platform is Windows,
            ),
    {
        let configured: String = text::trimmed(self.runtime_path.as_str());
        if !configured.as_str().is_empty() {
            return expand_user_path(configured.as_str(), home, platform);
        }
        if let Some(value) = environment {
            if !value.as_str().is_empty() {
                return expand_user_path(value.as_str(), home, platform);
            }
        }
        match platform {
            Platform::Windows => "python".to_owned(),
            _ => "python3".to_owned(),
        }
    }

    /// Moves selections in the directory that earlier Windows builds used to the
    /// shared one, where the same engine's model is ready there. Custom paths
    /// are never rewritten. Returns whether anything changed.
    pub fn migrate_shared_model_dirs(&mut self, moves: &SharedModelDirs) -> (changed: bool)
        ensures
            final(self).dirs() == moves.applied(old(self).dirs()),
            final(self).same_but_dirs(*old(self)),
            changed == moves.applies(),
    {
        let mut changed: bool = false;
        if moves.sensevoice_is_legacy && moves.sensevoice_ready {
            self.sensevoice_model_dir = moves.shared_sensevoice.as_str().to_owned();
            changed = true;
        }
        if moves.whisper_is_legacy && moves.whisper_ready {
            self.whisper_model_dir = moves.shared_whisper.as_str().to_owned();
            changed = true;
        }
        if moves.current_is_legacy_sensevoice && moves.sensevoice_ready {
            self.model_dir = moves.shared_sensevoice.as_str().to_owned();
            changed = true;
        } else if moves.current_is_legacy_whisper && moves.whisper_ready {
            self.model_dir = moves.shared_whisper.as_str().to_owned();
            changed = true;
        }
        changed
    }
}

/// What is known of the directories that earlier Windows builds used and of the
/// shared ones: which selections are in the earlier ones, and which models are
/// ready in the shared ones.
#[derive(Debug, Clone)]
pub struct SharedModelDirs {
    pub sensevoice_is_legacy: bool,
    pub whisper_is_legacy: bool,
    pub current_is_legacy_sensevoice: bool,
    pub current_is_legacy_whisper: bool,
    pub sensevoice_ready: bool,
    pub whisper_ready: bool,
    pub shared_sensevoice: String,
    pub shared_whisper: String,
}

impl SharedModelDirs {
    pub open spec fn applies(self) -> bool {
        ||| self.sensevoice_ready && (self.sensevoice_is_legacy
            || self.current_is_legacy_sensevoice)
        ||| self.whisper_ready && (self.whisper_is_legacy || self.current_is_legacy_whisper)
    }

    pub open spec fn applied(self, dirs: ModelDirs) -> ModelDirs {
        ModelDirs {
            current: if self.current_is_legacy_sensevoice && self.sensevoice_ready {
                self.shared_sensevoice@
            } else if self.current_is_legacy_whisper && self.whisper_ready {
                self.shared_whisper@
            } else {
                dirs.current
            },
            sensevoice: if self.sensevoice_is_legacy && self.sensevoice_ready {
                self.shared_sensevoice@
            } else {
                dirs.sensevoice
            },
            qwen: dirs.qwen,
            whisper: if self.whisper_is_legacy && self.whisper_ready {
                self.shared_whisper@
            } else {
                dirs.whisper
            },
        }
    }
}

/// Shared model-dir resolution policy for local engines.
///
/// A non-empty `configured` directory that is ready always wins; where it is
/// empty or not ready, what the `shared` resolver finds is next, and at last
/// the `default`, which may not exist yet. Neither is asked before its turn.
pub fn resolve_local_model_dir<R, S, D>(
    configured: String,
    ready: R,
    shared: S,
    default: D,
) -> (r: String) where
    R: Fn(&String) -> bool,
    S: FnOnce() -> Option<String>,
    D: FnOnce() -> String,

    requires
        configured@.len() > 0 ==> call_requires(ready, (&configured,)),
        (configured@.len() == 0 || call_ensures(ready, (&configured,), false)) ==> call_requires(
            shared,
            (),
        ),
        (configured@.len() == 0 || call_ensures(ready, (&configured,), false)) && call_ensures(
            shared,
            (),
            None,
        ) ==> call_requires(default, ()),
    ensures
        ({
            let wins = configured@.len() > 0 && call_ensures(ready, (&configured,), true);
            let loses = configured@.len() == 0 || call_ensures(ready, (&configured,), false);
            ||| wins && r == configured
            ||| loses && call_ensures(shared, (), Some(r))
            ||| loses && call_ensures(shared, (), None) && call_ensures(default, (), r)
        }),
{
    if !configured.as_str().is_empty() && ready(&configured) {
        configured
    } else {
        match shared() {
            Some(dir) => dir,
            None => default(),
        }
    }
}

// ---------------------------------------------------------------------------
// Output
// ---------------------------------------------------------------------------

/// How much the corrector may change.
#[derive(Debug, Clone, Copy, PartialEq, Eq, Structural)]
pub enum CleanupLevel {
    Off,
    Light,
    Medium,
    Strong,
}

impl CleanupLevel {
    /// The name under which the level is stored.
    pub open spec fn name(self) -> Seq<char> {
        match self {
            CleanupLevel::Off => "none"@,
            CleanupLevel::Light => "light"@,
            CleanupLevel::Medium => "medium"@,
            CleanupLevel::Strong => "strong"@,
        }
    }

    /// The level that is stored under a name.
    pub open spec fn named(name: Seq<char>) -> Option<CleanupLevel> {
        if name == "none"@ {
            Some(CleanupLevel::Off)
        } else if name == "light"@ {
            Some(CleanupLevel::Light)
        } else if name == "medium"@ {
            Some(CleanupLevel::Medium)
        } else if name == "strong"@ {
            Some(CleanupLevel::Strong)
        } else {
            None
        }
    }

    /// The name under which the level is stored.
    pub fn as_str(self) -> (r: &'static str)
        ensures
            r@ == self.name(),
    {
        match self {
            CleanupLevel::Off => "none",
            CleanupLevel::Light => "light",
            CleanupLevel::Medium => "medium",
            CleanupLevel::Strong => "strong",
        }
    }

    /// The level that is stored under `name`.
    pub fn parse(name: &str) -> (r: Option<CleanupLevel>)
        ensures
            r == CleanupLevel::named(name@),
    {
        if text::same(name, "none") {
            Some(CleanupLevel::Off)
        } else if text::same(name, "light") {
            Some(CleanupLevel::Light)
        } else if text::same(name, "medium") {
            Some(CleanupLevel::Medium)
        } else if text::same(name, "strong") {
            Some(CleanupLevel::Strong)
        } else {
            None
        }
    }
}

/// A level is read back from the name under which it is stored.
pub proof fn level_is_read_back(level: CleanupLevel)
    ensures
        CleanupLevel::named(level.name()) == Some(level),
{
    reveal_strlit("none");
    reveal_strlit("light");
    reveal_strlit("medium");
    reveal_strlit("strong");
    assert("none"@.len() == 4 && "light"@.len() == 5 && "medium"@.len() == 6 && "strong"@.len()
        == 6);
    assert("medium"@[0] != "strong"@[0]);
}

/// Post-ASR text shaping profile.
#[derive(Debug, Clone)]
pub struct OutputConfig {
    /// Default cleanup for SenseVoice and providers without a dedicated profile.
    pub cleanup: String,
    /// Qwen-specific cleanup. Kept separate so switching ASR does not overwrite
    /// the user's lower-resource SenseVoice pipeline.
    pub qwen_cleanup: String,
    /// formal | neutral | casual | very_casual
    pub style: String,
    /// preserve | sentence | lower
    pub casing: String,
    /// preserve | standard | light
    pub punctuation: String,
    /// multi: concise, clarity, reorder, structure, keep_tone
    pub polish: Vec<String>,
    pub custom_enabled: bool,
    pub custom_instruction: String,
}

/// The settings that a stored profile holds; a setting may be missing.
#[derive(Debug, Clone, Default)]
pub struct OutputConfigWire {
    pub cleanup: Option<String>,
    pub qwen_cleanup: Option<String>,
    pub style: Option<String>,
    pub casing: Option<String>,
    pub punctuation: Option<String>,
    pub polish: Option<Vec<String>>,
    pub custom_enabled: Option<bool>,
    pub custom_instruction: Option<String>,
}

/// `value`, or else `default`.
pub open spec fn value_or(value: Option<String>, default: Seq<char>) -> Seq<char> {
    match value {
        Some(s) => s@,
        None => default,
    }
}

fn string_or(value: Option<String>, default: &str) -> (r: String)
    ensures
        r@ == value_or(value, default@),
{
    match value {
        Some(s) => s,
        None => default.to_owned(),
    }
}

/// The provider runs the Qwen engine.
pub open spec fn qwen_provider(provider: Seq<char>) -> bool {
    engine::provider_engine(provider) == Some(EngineKind::Qwen)
}

fn is_qwen_provider(provider: &str) -> (r: bool)
    ensures
        r == qwen_provider(provider@),
{
    match engine::engine_kind_for_provider(provider) {
        Some(EngineKind::Qwen) => true,
        _ => false,
    }
}

impl Default for OutputConfig {
    fn default() -> (r: Self)
        ensures
            r.cleanup@ == "medium"@,
            r.qwen_cleanup@ == "light"@,
            r.style@ == "neutral"@,
            r.casing@ == "sentence"@,
            r.punctuation@ == "standard"@,
            r.polish@.len() == 0,
            !r.custom_enabled,
            r.custom_instruction@.len() == 0,
    {
        Self {
            cleanup: "medium".to_owned(),
            qwen_cleanup: "light".to_owned(),
            style: "neutral".to_owned(),
            casing: "sentence".to_owned(),
            punctuation: "standard".to_owned(),
            polish: Vec::new(),
            custom_enabled: false,
            custom_instruction: String::new(),
        }
    }
}

impl OutputConfig {
    /// The profile that stored settings stand for. Before Qwen had its own
    /// profile, an explicit `cleanup` controlled every ASR; it keeps doing so
    /// where no Qwen cleanup was chosen.
    pub fn from_wire(wire: OutputConfigWire) -> (r: Self)
        ensures
            r.cleanup@ == value_or(wire.cleanup, "medium"@),
            r.qwen_cleanup@ == value_or(wire.qwen_cleanup, value_or(wire.cleanup, "light"@)),
            r.style@ == value_or(wire.style, "neutral"@),
            r.casing@ == value_or(wire.casing, "sentence"@),
            r.punctuation@ == value_or(wire.punctuation, "standard"@),
            wire.polish matches Some(polish) ==> r.polish == polish,
            wire.polish is None ==> r.polish@.len() == 0,
            r.custom_enabled == (wire.custom_enabled == Some(true)),
            r.custom_instruction@ == value_or(wire.custom_instruction, Seq::empty()),
    {
        let explicit: String = match &wire.cleanup {
            Some(cleanup) => cleanup.as_str().to_owned(),
            None => "light".to_owned(),
        };
        let polish: Vec<String> = match wire.polish {
            Some(polish) => polish,
            None => Vec::new(),
        };
        let custom_enabled: bool = match wire.custom_enabled {
            Some(enabled) => enabled,
            None => false,
        };
        let custom_instruction: String = match wire.custom_instruction {
            Some(instruction) => instruction,
            None => String::new(),
        };
        let qwen_cleanup: String = string_or(wire.qwen_cleanup, explicit.as_str());
        Self {
            cleanup: string_or(wire.cleanup, "medium"),
            qwen_cleanup,
            style: string_or(wire.style, "neutral"),
            casing: string_or(wire.casing, "sentence"),
            punctuation: string_or(wire.punctuation, "standard"),
            polish,
            custom_enabled,
            custom_instruction,
        }
    }

    /// The cleanup level of providers without a dedicated profile.
    pub open spec fn default_level(self) -> CleanupLevel {
        match CleanupLevel::named(self.cleanup@) {
            Some(level) => level,
            None => CleanupLevel::Medium,
        }
    }

    /// The cleanup level of a provider.
    pub open spec fn level_for(self, provider: Seq<char>) -> CleanupLevel {
        if qwen_provider(provider) {
            match CleanupLevel::named(self.qwen_cleanup@) {
                Some(level) => level,
                None => CleanupLevel::Light,
            }
        } else {
            self.default_level()
        }
    }

    /// The cleanup level of providers without a dedicated profile.
    pub fn cleanup_level(&self) -> (r: CleanupLevel)
        ensures
            r == self.default_level(),
    {
        match CleanupLevel::parse(self.cleanup.as_str()) {
            Some(level) => level,
            None => CleanupLevel::Medium,
        }
    }

    /// The cleanup level of `provider`.
    pub fn cleanup_level_for_asr_provider(&self, provider: &str) -> (r: CleanupLevel)
        ensures
            r == self.level_for(provider@),
    {
        if is_qwen_provider(provider) {
            match CleanupLevel::parse(self.qwen_cleanup.as_str()) {
                Some(level) => level,
                None => CleanupLevel::Light,
            }
        } else {
            self.cleanup_level()
        }
    }

    /// The name of the cleanup profile that `provider` has.
    pub fn cleanup_profile_for_asr_provider(&self, provider: &str) -> (r: &'static str)
        ensures
            r@ == (if qwen_provider(provider@) {
                "qwen"@
            } else {
                "default"@
            }),
    {
        if is_qwen_provider(provider) {
            "qwen"
        } else {
            "default"
        }
    }

    /// All but the two cleanup settings is as in `other`.
    pub open spec fn same_but_cleanup(self, other: Self) -> bool {
        &&& self.style == other.style
        &&& self.casing == other.casing
        &&& self.punctuation == other.punctuation
        &&& self.polish == other.polish
        &&& self.custom_enabled == other.custom_enabled
        &&& self.custom_instruction == other.custom_instruction
    }

    /// Sets the cleanup level of the profile that `provider` has; the other
    /// profile stays as it is.
    pub fn set_cleanup_for_asr_provider(&mut self, provider: &str, value: &str) -> (r: Result<
        (),
        String,
    >)
        ensures
            CleanupLevel::named(value@) matches Some(level) ==> {
                &&& r is Ok
                &&& final(self).same_but_cleanup(*old(self))
                &&& qwen_provider(provider@) ==> final(self).qwen_cleanup@ == level.name()
                    && final(self).cleanup == old(self).cleanup
                &&& !qwen_provider(provider@) ==> final(self).cleanup@ == level.name()
                    && final(self).qwen_cleanup == old(self).qwen_cleanup
            },
            CleanupLevel::named(value@) is None ==> {
                &&& r matches Err(error)
                &&& error@ == "unknown cleanup level: "@ + value@
                &&& *final(self) == *old(self)
            },
    {
        let level: CleanupLevel = match CleanupLevel::parse(value) {
            Some(level) => level,
            None => {
                let mut error: String = "unknown cleanup level: ".to_owned();
                error.append(value);
                return Err(error);
            },
        };
        if is_qwen_provider(provider) {
            self.qwen_cleanup = level.as_str().to_owned();
        } else {
            self.cleanup = level.as_str().to_owned();
        }
        Ok(())
    }

    /// The user's own instruction, where it is switched on and not blank.
    pub open spec fn instruction(self) -> Option<Seq<char>> {
        if self.custom_enabled && text::trim(self.custom_instruction@).len() > 0 {
            Some(text::trim(self.custom_instruction@))
        } else {
            None
        }
    }

    /// The user's own instruction, where it is switched on and not blank.
    pub fn custom_prompt(&self) -> (r: Option<String>)
        ensures
            text::opt(r) == self.instruction(),
    {
        if self.custom_enabled {
            let instruction: String = text::trimmed(self.custom_instruction.as_str());
            if instruction.as_str().is_empty() {
                None
            } else {
                Some(instruction)
            }
        } else {
            None
        }
    }

    /// What the corrector is asked to make of an utterance.
    pub fn prompt_input(&self, intent: IntentSpec) -> (r: PromptBuildInput)
        ensures
            r.asks(*self, self.default_level(), intent@),
    {
        PromptBuildInput {
            cleanup: self.cleanup_level(),
            style: self.style.as_str().to_owned(),
            casing: self.casing.as_str().to_owned(),
            punctuation: self.punctuation.as_str().to_owned(),
            polish: text::copy_texts(&self.polish),
            custom: self.custom_prompt(),
            intent,
        }
    }

    /// What the corrector is asked to make of an utterance that `provider`
    /// transcribed.
    pub fn prompt_input_for_asr_provider(&self, provider: &str, intent: IntentSpec) -> (r:
        PromptBuildInput)
        ensures
            r.asks(*self, self.level_for(provider@), intent@),
    {
        let mut input: PromptBuildInput = self.prompt_input(intent);
        input.cleanup = self.cleanup_level_for_asr_provider(provider);
        input
    }
}

/// What the corrector is asked to make of an utterance. The style, the casing, the
/// punctuation and the rules of polish stand here by their names.
#[derive(Debug, Clone)]
pub struct PromptBuildInput {
    pub cleanup: CleanupLevel,
    pub style: String,
    pub casing: String,
    pub punctuation: String,
    pub polish: Vec<String>,
    /// The user's own instruction.
    pub custom: Option<String>,
    pub intent: IntentSpec,
}

impl PromptBuildInput {
    /// It asks for the profile of `output` at the cleanup `level`.
    pub open spec fn asks(self, output: OutputConfig, level: CleanupLevel, intent: Intent) -> bool {
        &&& self.cleanup == level
        &&& self.style@ == output.style@
        &&& self.casing@ == output.casing@
        &&& self.punctuation@ == output.punctuation@
        &&& text::texts(self.polish@) == text::texts(output.polish@)
        &&& text::opt(self.custom) == output.instruction()
        &&& self.intent@ == intent
    }
}

/// A cleanup level that is set for a provider is the one that the provider then
/// has; a provider of the other profile keeps its level.
pub proof fn cleanup_profiles_are_isolated(
    before: OutputConfig,
    after: OutputConfig,
    level: CleanupLevel,
    provider: Seq<char>,
    other: Seq<char>,
)
    requires
        qwen_provider(provider) ==> after.qwen_cleanup@ == level.name() && after.cleanup
            == before.cleanup,
        !qwen_provider(provider) ==> after.cleanup@ == level.name() && after.qwen_cleanup
            == before.qwen_cleanup,
    ensures
        after.level_for(provider) == level,
        qwen_provider(other) != qwen_provider(provider) ==> after.level_for(other)
            == before.level_for(other),
{
    level_is_read_back(level);
}

// ---------------------------------------------------------------------------
// Onboarding, audio, user interface, voice activity, corrector, insertion
// ---------------------------------------------------------------------------

#[derive(Debug, Clone)]
pub struct OnboardingConfig {
    pub completed: bool,
    pub skipped: bool,
    /// Bump to re-prompt critical setup after product changes.
    pub version: u32,
    /// Current wizard step (0 = welcome …).
    pub step: u32,
    pub completed_at: Option<String>,
}

impl Default for OnboardingConfig {
    fn default() -> (r: Self)
        ensures
            !r.completed && !r.skipped && r.version == 1 && r.step == 0 && r.completed_at is None,
    {
        Self { completed: false, skipped: false, version: 1, step: 0, completed_at: None }
    }
}

#[derive(Debug, Clone)]
pub struct AudioConfig {
    /// None = system default input.
    pub device_name: Option<String>,
}

impl Default for AudioConfig {
    fn default() -> (r: Self)
        ensures
            r.device_name is None,
    {
        Self { device_name: None }
    }
}

impl AudioConfig {
    /// Keeps the device that was chosen; an empty name is the system default.
    pub fn choose_device(&mut self, name: Option<String>)
        ensures
            text::opt(final(self).device_name) == (match name {
                Some(s) => if s@.len() > 0 {
                    Some(s@)
                } else {
                    None
                },
                None => None,
            }),
    {
        self.device_name = match name {
            Some(s) => if s.as_str().is_empty() {
                None
            } else {
                Some(s)
            },
            None => None,
        };
    }
}

#[derive(Debug, Clone)]
pub struct UiConfig {
    /// Short start/done/error cues on dictation phase transitions.
    pub sounds: bool,
}

impl Default for UiConfig {
    fn default() -> (r: Self)
        ensures
            r.sounds,
    {
        Self { sounds: true }
    }
}

/// Voice-activity detection, but for the thresholds of the signal.
#[derive(Debug, Clone)]
pub struct VadConfig {
    /// Silence auto-stop for dictation.
    pub enabled: bool,
    /// rms | silero; unknown modes fall back to rms.
    pub mode: String,
    /// Sustained silence that ends the current dictation.
    pub silence_timeout_ms: u64,
    /// Drop the silent tail before ASR.
    pub trim_trailing: bool,
    /// The silero model; empty = the shared install.
    pub silero_model_path: String,
}

impl Default for VadConfig {
    fn default() -> (r: Self)
        ensures
            !r.enabled && r.mode@ == "rms"@ && r.silence_timeout_ms == 1500 && r.trim_trailing
                && r.silero_model_path@.len() == 0,
    {
        Self {
            enabled: false,
            mode: "rms".to_owned(),
            silence_timeout_ms: 1500,
            trim_trailing: true,
            silero_model_path: String::new(),
        }
    }
}

#[derive(Debug, Clone)]
pub struct CorrectorConfig {
    /// When false, only rule preprocess + dictionary replacements run.
    pub enabled: bool,
    /// Send a bounded projection of the current context to the model corrector.
    pub use_captured_context: bool,
    /// ollama | openai_compatible | none
    pub provider: String,
    pub base_url: String,
    pub model: String,
    pub api_key: String,
    pub timeout_secs: u64,
}

impl CorrectorConfig {
    /// The defaults, with the model and the key that the environment names.
    pub fn with_environment(model: Option<String>, api_key: Option<String>) -> (r: Self)
        ensures
            r.enabled && !r.use_captured_context,
            r.provider@ == "ollama"@,
            r.base_url@ == "http://127.0.0.1:11434/v1"@,
            r.model@ == value_or(model, "qwen2.5:7b"@),
            r.api_key@ == value_or(api_key, Seq::empty()),
            r.timeout_secs == 60,
    {
        let api_key: String = match api_key {
            Some(key) => key,
            None => String::new(),
        };
        Self {
            enabled: true,
            use_captured_context: false,
            provider: "ollama".to_owned(),
            base_url: "http://127.0.0.1:11434/v1".to_owned(),
            model: string_or(model, "qwen2.5:7b"),
            api_key,
            timeout_secs: 60,
        }
    }
}

impl Default for CorrectorConfig {
    fn default() -> (r: Self)
        ensures
            r.enabled && !r.use_captured_context,
            r.provider@ == "ollama"@,
            r.base_url@ == "http://127.0.0.1:11434/v1"@,
            r.model@ == "qwen2.5:7b"@,
            r.api_key@.len() == 0,
            r.timeout_secs == 60,
    {
        Self::with_environment(None, None)
    }
}

#[derive(Debug, Clone)]
pub struct InjectConfig {
    /// auto | paste | type | copy_only
    pub mode: String,
    pub preserve_clipboard: bool,
    /// Insert into the frontmost app when accessibility allows.
    pub auto_insert: bool,
}

impl Default for InjectConfig {
    fn default() -> (r: Self)
        ensures
            r.mode@ == "auto"@ && r.preserve_clipboard && r.auto_insert,
    {
        Self { mode: "auto".to_owned(), preserve_clipboard: true, auto_insert: true }
    }
}

/// How text is inserted.
#[derive(Debug, Clone, Copy, PartialEq, Eq, Structural)]
pub enum InjectMode {
    Auto,
    Paste,
    Type,
    CopyOnly,
    Ax,
}

/// The rule by which text is inserted.
#[derive(Debug, Clone, Copy, PartialEq, Eq, Structural)]
pub struct InsertPolicy {
    pub mode: InjectMode,
    pub preserve_clipboard: bool,
    pub paste_first: bool,
}

/// The insertion mode of a name; `auto` where the name is not known.
pub open spec fn inject_mode(name: Seq<char>) -> InjectMode {
    if name == "paste"@ {
        InjectMode::Paste
    } else if name == "type"@ {
        InjectMode::Type
    } else if name == "copy_only"@ || name == "copy"@ {
        InjectMode::CopyOnly
    } else if name == "ax"@ {
        InjectMode::Ax
    } else {
        InjectMode::Auto
    }
}

impl InjectConfig {
    /// The rule by which text is inserted.
    pub fn to_policy(&self) -> (r: InsertPolicy)
        ensures
            r == (InsertPolicy {
                mode: inject_mode(self.mode@),
                preserve_clipboard: self.preserve_clipboard,
                paste_first: true,
            }),
    {
        let name: &str = self.mode.as_str();
        let mode: InjectMode = if text::same(name, "paste") {
            InjectMode::Paste
        } else if text::same(name, "type") {
            InjectMode::Type
        } else if text::same(name, "copy_only") || text::same(name, "copy") {
            InjectMode::CopyOnly
        } else if text::same(name, "ax") {
            InjectMode::Ax
        } else {
            InjectMode::Auto
        };
        InsertPolicy { mode, preserve_clipboard: self.preserve_clipboard, paste_first: true }
    }
}

#[derive(Debug, Clone)]
pub struct LearningConfig {
    /// When true, promote a replacement after it appears `auto_promote_threshold` times.
    pub auto_promote: bool,
    pub auto_promote_threshold: u32,
    /// After successful insert, observe the field for user edits.
    pub post_paste_capture: bool,
    /// Seconds to watch after paste before giving up.
    pub post_paste_seconds: u64,
    /// Persist full dictated/edited evidence locally.
    pub persist_edit_evidence_text: bool,
}

impl Default for LearningConfig {
    fn default() -> (r: Self)
        ensures
            !r.auto_promote && r.auto_promote_threshold == 3 && r.post_paste_capture
                && r.post_paste_seconds == 20 && !r.persist_edit_evidence_text,
    {
        Self {
            auto_promote: false,
            auto_promote_threshold: 3,
            post_paste_capture: true,
            post_paste_seconds: 20,
            persist_edit_evidence_text: false,
        }
    }
}

// ---------------------------------------------------------------------------
// Hotkeys
// ---------------------------------------------------------------------------

#[derive(Debug, Clone)]
pub struct HotkeyConfig {
    pub enabled: bool,
    /// Global-shortcut format, e.g. "Alt+Space".
    pub toggle: String,
    /// Show floating capsule while recording / processing.
    pub show_capsule: bool,
    /// `hold` = push-to-talk (press start, release stop). `toggle` = press to start/stop.
    pub mode: String,
    /// Independent intent chords (translate, raw, …).
    pub intents: Vec<HotkeyIntentConfig>,
}

/// Secondary hold-to-talk with a different post-ASR intent.
#[derive(Debug, Clone)]
pub struct HotkeyIntentConfig {
    pub id: String,
    pub chord: String,
    /// hold | toggle (default hold)
    pub mode: String,
    /// default | translate | raw
    pub intent: String,
    /// For intent=translate
    pub target_language: String,
    /// For intent=translate: optional translation style / register.
    pub translate_style: Option<String>,
    pub enabled: bool,
}

/// The model of a [`HotkeyIntentConfig`].
#[verifier::ext_equal]
pub struct IntentChord {
    pub id: Seq<char>,
    pub chord: Seq<char>,
    pub mode: Seq<char>,
    pub intent: Seq<char>,
    pub target_language: Seq<char>,
    pub translate_style: Option<Seq<char>>,
    pub enabled: bool,
}

impl View for HotkeyIntentConfig {
    type V = IntentChord;

    open spec fn view(&self) -> IntentChord {
        IntentChord {
            id: self.id@,
            chord: self.chord@,
            mode: self.mode@,
            intent: self.intent@,
            target_language: self.target_language@,
            translate_style: text::opt(self.translate_style),
            enabled: self.enabled,
        }
    }
}

/// The models of a vector of intents.
pub open spec fn chords(intents: Seq<HotkeyIntentConfig>) -> Seq<IntentChord> {
    intents.map_values(|i: HotkeyIntentConfig| i@)
}

impl IntentChord {
    /// The intent that the application ships with, in a given mode.
    pub open spec fn shipped(mode: Seq<char>) -> IntentChord {
        IntentChord {
            id: "translate"@,
            chord: "Alt+Shift+T"@,
            mode,
            intent: "translate"@,
            target_language: "en"@,
            translate_style: None,
            enabled: true,
        }
    }

    /// The intent is to translate.
    pub open spec fn translates(self) -> bool {
        text::lower(self.intent) == "translate"@
    }

    /// In the mode of the primary hotkey, with what is blank filled in.
    pub open spec fn completed(self, mode: Seq<char>) -> IntentChord {
        IntentChord {
            mode,
            chord: if text::trim(self.chord).len() == 0 {
                "Alt+Shift+T"@
            } else {
                self.chord
            },
            target_language: if self.translates() && text::trim(self.target_language).len() == 0 {
                "en"@
            } else {
                self.target_language
            },
            ..self
        }
    }
}

/// One of the intents is to translate.
pub open spec fn has_translation(intents: Seq<IntentChord>) -> bool {
    exists|i: int| 0 <= i < intents.len() && (#[trigger] intents[i]).translates()
}

/// The intents in the mode of the primary hotkey, with what is blank filled in
/// and with the shipped translation in front where there is none.
pub open spec fn usable_intents(intents: Seq<IntentChord>, mode: Seq<char>) -> Seq<IntentChord> {
    let completed = intents.map_values(|i: IntentChord| i.completed(mode));
    if has_translation(completed) {
        completed
    } else {
        seq![IntentChord::shipped(mode)] + completed
    }
}

/// `mode` is hold-to-talk.
pub open spec fn holds(mode: Seq<char>) -> bool {
    text::lower(mode) != "toggle"@ && text::lower(mode) != "click"@
}

/// The name of the mode of a hotkey.
pub open spec fn mode_name(mode: Seq<char>) -> Seq<char> {
    if holds(mode) {
        "hold"@
    } else {
        "toggle"@
    }
}

/// What an utterance is for.
#[derive(Debug, Clone, PartialEq, Eq)]
pub enum IntentSpec {
    Default,
    PolishOverride,
    Raw,
    Translate { target_language: String, style: Option<String> },
}

/// The model of an [`IntentSpec`].
#[verifier::ext_equal]
pub enum Intent {
    Default,
    PolishOverride,
    Raw,
    Translate { target_language: Seq<char>, style: Option<Seq<char>> },
}

impl View for IntentSpec {
    type V = Intent;

    open spec fn view(&self) -> Intent {
        match self {
            IntentSpec::Default => Intent::Default,
            IntentSpec::PolishOverride => Intent::PolishOverride,
            IntentSpec::Raw => Intent::Raw,
            IntentSpec::Translate { target_language, style } => Intent::Translate {
                target_language: target_language@,
                style: text::opt(*style),
            },
        }
    }
}

impl IntentChord {
    /// What an utterance under this chord is for.
    pub open spec fn purpose(self) -> Intent {
        if self.translates() {
            Intent::Translate {
                target_language: if text::trim(self.target_language).len() == 0 {
                    "en"@
                } else {
                    self.target_language
                },
                style: match self.translate_style {
                    Some(style) => if text::trim(style).len() == 0 {
                        None
                    } else {
                        Some(text::trim(style))
                    },
                    None => None,
                },
            }
        } else if text::lower(self.intent) == "raw"@ {
            Intent::Raw
        } else {
            Intent::Default
        }
    }
}

impl Default for HotkeyIntentConfig {
    fn default() -> (r: Self)
        ensures
            r@ == IntentChord::shipped("hold"@),
    {
        Self {
            id: "translate".to_owned(),
            chord: "Alt+Shift+T".to_owned(),
            mode: "hold".to_owned(),
            intent: "translate".to_owned(),
            target_language: "en".to_owned(),
            translate_style: None,
            enabled: true,
        }
    }
}

impl HotkeyIntentConfig {
    fn shipped(mode: &str) -> (r: Self)
        ensures
            r@ == IntentChord::shipped(mode@),
    {
        let mut intent: HotkeyIntentConfig = HotkeyIntentConfig::default();
        intent.mode = mode.to_owned();
        intent
    }

    fn is_translation(&self) -> (r: bool)
        ensures
            r == self@.translates(),
    {
        let name: String = text::lowered(self.intent.as_str());
        text::same(name.as_str(), "translate")
    }

    /// What an utterance under this chord is for.
    pub fn to_intent_spec(&self) -> (r: IntentSpec)
        ensures
            r@ == self@.purpose(),
    {
        let name: String = text::lowered(self.intent.as_str());
        if text::same(name.as_str(), "translate") {
            let target_language: String = if text::is_blank(self.target_language.as_str()) {
                "en".to_owned()
            } else {
                self.target_language.as_str().to_owned()
            };
            let style: Option<String> = match &self.translate_style {
                Some(style) => {
                    let style: String = text::trimmed(style.as_str());
                    if style.as_str().is_empty() {
                        None
                    } else {
                        Some(style)
                    }
                },
                None => None,
            };
            IntentSpec::Translate { target_language, style }
        } else if text::same(name.as_str(), "raw") {
            IntentSpec::Raw
        } else {
            IntentSpec::Default
        }
    }
}

/// The primary hotkey that a platform ships with.
pub open spec fn shipped_toggle(windows: bool) -> Seq<char> {
    if windows {
        "Ctrl+Shift+Space"@
    } else {
        "Alt+Space"@
    }
}

/// The primary hotkey that `platform` ships with.
pub fn default_hotkey_toggle(platform: Platform) -> (r: &'static str)
    ensures
        r@ == shipped_toggle(platform is Windows),
{
    match platform {
        Platform::Windows => "Ctrl+Shift+Space",
        _ => "Alt+Space",
    }
}

impl Default for HotkeyConfig {
    /// What is shipped on macOS. Windows ships another toggle: `for_platform`.
    fn default() -> (r: Self)
        ensures
            r.enabled && r.show_capsule,
            r.toggle@ == shipped_toggle(false),
            r.mode@ == "hold"@,
            chords(r.intents@) == seq![IntentChord::shipped("hold"@)],
    {
        Self::for_platform(Platform::Other)
    }
}

impl HotkeyConfig {
    /// The hotkeys that `platform` ships with.
    pub fn for_platform(platform: Platform) -> (r: Self)
        ensures
            r.enabled && r.show_capsule,
            r.toggle@ == shipped_toggle(platform is Windows),
            r.mode@ == "hold"@,
            chords(r.intents@) == seq![IntentChord::shipped("hold"@)],
    {
        let mut intents: Vec<HotkeyIntentConfig> = Vec::new();
        intents.push(HotkeyIntentConfig::default());
        assert(chords(intents@) =~= seq![IntentChord::shipped("hold"@)]);
        Self {
            enabled: true,
            toggle: default_hotkey_toggle(platform).to_owned(),
            show_capsule: true,
            mode: "hold".to_owned(),
            intents,
        }
    }

    /// Whether the hotkey is hold-to-talk.
    pub fn is_hold_mode(&self) -> (r: bool)
        ensures
            r == holds(self.mode@),
    {
        let mode: String = text::lowered(self.mode.as_str());
        !(text::same(mode.as_str(), "toggle") || text::same(mode.as_str(), "click"))
    }

    /// All but the intents is as in `other`.
    pub open spec fn same_but_intents(self, other: Self) -> bool {
        &&& self.enabled == other.enabled
        &&& self.toggle == other.toggle
        &&& self.show_capsule == other.show_capsule
        &&& self.mode == other.mode
    }
}

fn complete_intent(intent: HotkeyIntentConfig, mode: &str) -> (r: HotkeyIntentConfig)
    ensures
        r@ == intent@.completed(mode@),
{
    let mut intent: HotkeyIntentConfig = intent;
    let translation: bool = intent.is_translation();
    intent.mode = mode.to_owned();
    if text::is_blank(intent.chord.as_str()) {
        intent.chord = "Alt+Shift+T".to_owned();
    }
    if translation && text::is_blank(intent.target_language.as_str()) {
        intent.target_language = "en".to_owned();
    }
    intent
}

/// Ensure a usable translate intent exists; align mode with primary hotkey.
/// A chord that the user chose is never rewritten.
pub fn ensure_default_intents(cfg: &mut HotkeyConfig)
    ensures
        chords(final(cfg).intents@) == usable_intents(
            chords(old(cfg).intents@),
            mode_name(old(cfg).mode@),
        ),
        final(cfg).same_but_intents(*old(cfg)),
{
    let primary_mode: &str = if cfg.is_hold_mode() {
        "hold"
    } else {
        "toggle"
    };
    let ghost all = chords(cfg.intents@);
    let ghost complete = |i: IntentChord| i.completed(primary_mode@);
    let mut completed: Vec<HotkeyIntentConfig> = Vec::new();
    let mut translation: bool = false;
    while cfg.intents.len() > 0
        invariant
            cfg.same_but_intents(*old(cfg)),
            complete == (|i: IntentChord| i.completed(primary_mode@)),
            cfg.intents@.len() + completed@.len() == all.len(),
            chords(cfg.intents@) == all.skip(completed@.len() as int),
            chords(completed@) == all.take(completed@.len() as int).map_values(complete),
            translation == has_translation(chords(completed@)),
        decreases cfg.intents@.len(),
    {
        let ghost done = completed@.len() as int;
        let ghost rest = cfg.intents@;
        assert(chords(rest)[0] == all.skip(done)[0]);
        let intent: HotkeyIntentConfig = cfg.intents.remove(0);
        assert(forall|j: int| 0 <= j < rest.len() - 1 ==> cfg.intents@[j] == rest[j + 1]);
        assert(forall|j: int|
            0 <= j < rest.len() - 1 ==> chords(rest)[j + 1] == #[trigger] all.skip(done + 1)[j]);
        let intent: HotkeyIntentConfig = complete_intent(intent, primary_mode);
        let ghost before = chords(completed@);
        let ghost last = intent@;
        let translates: bool = intent.is_translation();
        completed.push(intent);
        proof {
            assert(chords(completed@) =~= before.push(last));
            assert(chords(completed@) =~= all.take(done + 1).map_values(complete));
            assert(chords(cfg.intents@) =~= all.skip(done + 1));
            if translates {
                assert(chords(completed@)[done].translates());
            }
            if translation {
                let k = choose|k: int| 0 <= k < before.len() && (#[trigger] before[k]).translates();
                assert(chords(completed@)[k].translates());
            }
            if has_translation(chords(completed@)) && !translates {
                let k = choose|k: int|
                    0 <= k < chords(completed@).len() && (#[trigger] chords(
                        completed@,
                    )[k]).translates();
                assert(before[k].translates());
            }
        }
        translation = translation || translates;
    }
    assert(all.take(completed@.len() as int) =~= all);
    if !translation {
        let ghost before = chords(completed@);
        completed.insert(0, HotkeyIntentConfig::shipped(primary_mode));
        assert(chords(completed@) =~= seq![IntentChord::shipped(primary_mode@)] + before);
    }
    cfg.intents = completed;
}

/// Making the intents usable leaves one that is to translate, and a second time
/// changes nothing.
pub proof fn usable_intents_are_stable(intents: Seq<IntentChord>, mode: Seq<char>)
    ensures
        has_translation(usable_intents(intents, mode)),
        usable_intents(usable_intents(intents, mode), mode) == usable_intents(intents, mode),
{
    reveal_strlit("Alt+Shift+T");
    reveal_strlit("en");
    reveal_strlit("translate");
    let usable = usable_intents(intents, mode);
    let shipped = IntentChord::shipped(mode);
    assert(text::lower("translate"@) =~= "translate"@);
    text::lemma_trim_is_same("Alt+Shift+T"@);
    text::lemma_trim_is_same("en"@);
    if !has_translation(intents.map_values(|i: IntentChord| i.completed(mode))) {
        assert(usable[0].translates());
    }
    assert forall|i: int| 0 <= i < usable.len() implies #[trigger] usable[i].completed(mode)
        == usable[i] by {
        if usable[i] != shipped {
            let at = if has_translation(intents.map_values(|i: IntentChord| i.completed(mode))) {
                i
            } else {
                i - 1
            };
            assert(usable[i] == intents[at].completed(mode));
        }
    }
    assert(usable.map_values(|i: IntentChord| i.completed(mode)) =~= usable);
}

/// An intent that the user set up stays: its name, its purpose, whether it is
/// on, and its chord where that is not blank.
pub proof fn user_intents_are_kept(intents: Seq<IntentChord>, mode: Seq<char>, i: int)
    requires
        0 <= i < intents.len(),
    ensures
        ({
            let usable = usable_intents(intents, mode);
            let at = i + usable.len() - intents.len();
            let kept = usable[at];
            &&& 0 <= at < usable.len()
            &&& kept.id == intents[i].id
            &&& kept.intent == intents[i].intent
            &&& kept.enabled == intents[i].enabled
            &&& text::trim(intents[i].chord).len() > 0 ==> kept.chord == intents[i].chord
        }),
{
}

// ---------------------------------------------------------------------------
// All settings
// ---------------------------------------------------------------------------

#[derive(Debug, Clone)]
pub struct AppConfig {
    pub corrector: CorrectorConfig,
    pub output: OutputConfig,
    pub inject: InjectConfig,
    pub hotkey: HotkeyConfig,
    pub learning: LearningConfig,
    pub onboarding: OnboardingConfig,
    pub audio: AudioConfig,
    /// Desktop UI preferences (sound cues, …).
    pub ui: UiConfig,
    /// Voice-activity detection (silence auto-stop / trailing trim).
    pub vad: VadConfig,
    /// Speech recognition backend (local or cloud).
    pub asr: AsrServiceConfig,
    /// Local, encrypted context capture used for replay and pipeline provenance.
    pub context: ContextCaptureConfig,
    /// Meeting recording / processing options.
    pub meeting: MeetingConfig,
}

impl AppConfig {
    /// The settings that the application starts with on `platform`, with the model
    /// and the key of the corrector that the environment names.
    pub fn for_platform(
        platform: Platform,
        corrector_model: Option<String>,
        corrector_api_key: Option<String>,
    ) -> (r: Self)
        ensures
            !r.onboarding.completed && !r.onboarding.skipped && r.onboarding.version == 1
                && r.onboarding.step == 0 && r.onboarding.completed_at is None,
            r.audio.device_name is None,
            r.ui.sounds,
            !r.vad.enabled && r.vad.mode@ == "rms"@ && r.vad.silence_timeout_ms == 1500
                && r.vad.trim_trailing && r.vad.silero_model_path@.len() == 0,
            r.inject.mode@ == "auto"@ && r.inject.preserve_clipboard && r.inject.auto_insert,
            !r.learning.auto_promote && r.learning.auto_promote_threshold == 3
                && r.learning.post_paste_capture && r.learning.post_paste_seconds == 20
                && !r.learning.persist_edit_evidence_text,
            r.asr.provider@ == "local_sensevoice"@ && r.asr.timeout_secs == 120
                && !r.asr.qwen_shadow_enabled,
            r.asr.dirs() == (ModelDirs {
                current: Seq::empty(),
                sensevoice: Seq::empty(),
                qwen: Seq::empty(),
                whisper: Seq::empty(),
            }),
            r.asr.runtime_path@.len() == 0 && r.asr.base_url@.len() == 0 && r.asr.model@.len() == 0
                && r.asr.api_key@.len() == 0 && r.asr.language@.len() == 0,
            r.output.cleanup@ == "medium"@ && r.output.qwen_cleanup@ == "light"@
                && r.output.style@ == "neutral"@ && r.output.casing@ == "sentence"@
                && r.output.punctuation@ == "standard"@,
            r.output.polish@.len() == 0 && !r.output.custom_enabled
                && r.output.custom_instruction@.len() == 0,
            r.context.enabled && r.context.profile@ == "visible"@ && r.context.max_chars == 200_000
                && r.context.freeze_deadline_ms == 500 && r.context.late_deadline_ms == 5_000,
            r.meeting.transcript_cleanup && !r.meeting.detection_enabled && r.meeting.calendar_link,
            r.meeting.silence_auto_stop_minutes == 15 && r.meeting.max_duration_minutes == 480,
            r.meeting.calendar_end_reminder && r.meeting.system_audio
                && r.meeting.system_live_preview,
            r.meeting.echo_suppression && r.meeting.annotation_voiceprint_spread
                && r.meeting.auto_enroll_speakers && r.meeting.self_identity_id is None,
            r.corrector.enabled && !r.corrector.use_captured_context
                && r.corrector.provider@ == "ollama"@ && r.corrector.timeout_secs == 60,
            r.corrector.base_url@ == "http://127.0.0.1:11434/v1"@,
            r.hotkey.enabled && r.hotkey.show_capsule && r.hotkey.mode@ == "hold"@,
            chords(r.hotkey.intents@) == seq![IntentChord::shipped("hold"@)],
            r.hotkey.toggle@ == shipped_toggle(platform is Windows),
            r.corrector.model@ == value_or(corrector_model, "qwen2.5:7b"@),
            r.corrector.api_key@ == value_or(corrector_api_key, Seq::empty()),
    {
        Self {
            corrector: CorrectorConfig::with_environment(corrector_model, corrector_api_key),
            output: OutputConfig::default(),
            inject: InjectConfig::default(),
            hotkey: HotkeyConfig::for_platform(platform),
            learning: LearningConfig::default(),
            onboarding: OnboardingConfig::default(),
            audio: AudioConfig::default(),
            ui: UiConfig::default(),
            vad: VadConfig::default(),
            asr: AsrServiceConfig::default(),
            context: ContextCaptureConfig::default(),
            meeting: MeetingConfig::default(),
        }
    }
}

impl Default for AppConfig {
    /// What is shipped on macOS, with nothing set in the environment. Windows ships
    /// another hotkey: `for_platform`.
    fn default() -> (r: Self)
        ensures
            !r.onboarding.completed && !r.onboarding.skipped && r.onboarding.version == 1
                && r.onboarding.step == 0 && r.onboarding.completed_at is None,
            r.audio.device_name is None,
            r.ui.sounds,
            !r.vad.enabled && r.vad.mode@ == "rms"@ && r.vad.silence_timeout_ms == 1500
                && r.vad.trim_trailing && r.vad.silero_model_path@.len() == 0,
            r.inject.mode@ == "auto"@ && r.inject.preserve_clipboard && r.inject.auto_insert,
            !r.learning.auto_promote && r.learning.auto_promote_threshold == 3
                && r.learning.post_paste_capture && r.learning.post_paste_seconds == 20
                && !r.learning.persist_edit_evidence_text,
            r.asr.provider@ == "local_sensevoice"@ && r.asr.timeout_secs == 120
                && !r.asr.qwen_shadow_enabled,
            r.asr.dirs() == (ModelDirs {
                current: Seq::empty(),
                sensevoice: Seq::empty(),
                qwen: Seq::empty(),
                whisper: Seq::empty(),
            }),
            r.asr.runtime_path@.len() == 0 && r.asr.base_url@.len() == 0 && r.asr.model@.len() == 0
                && r.asr.api_key@.len() == 0 && r.asr.language@.len() == 0,
            r.output.cleanup@ == "medium"@ && r.output.qwen_cleanup@ == "light"@
                && r.output.style@ == "neutral"@ && r.output.casing@ == "sentence"@
                && r.output.punctuation@ == "standard"@,
            r.output.polish@.len() == 0 && !r.output.custom_enabled
                && r.output.custom_instruction@.len() == 0,
            r.context.enabled && r.context.profile@ == "visible"@ && r.context.max_chars == 200_000
                && r.context.freeze_deadline_ms == 500 && r.context.late_deadline_ms == 5_000,
            r.meeting.transcript_cleanup && !r.meeting.detection_enabled && r.meeting.calendar_link,
            r.meeting.silence_auto_stop_minutes == 15 && r.meeting.max_duration_minutes == 480,
            r.meeting.calendar_end_reminder && r.meeting.system_audio
                && r.meeting.system_live_preview,
            r.meeting.echo_suppression && r.meeting.annotation_voiceprint_spread
                && r.meeting.auto_enroll_speakers && r.meeting.self_identity_id is None,
            r.corrector.enabled && !r.corrector.use_captured_context
                && r.corrector.provider@ == "ollama"@ && r.corrector.timeout_secs == 60,
            r.corrector.base_url@ == "http://127.0.0.1:11434/v1"@,
            r.hotkey.enabled && r.hotkey.show_capsule && r.hotkey.mode@ == "hold"@,
            chords(r.hotkey.intents@) == seq![IntentChord::shipped("hold"@)],
            r.hotkey.toggle@ == shipped_toggle(false),
            r.corrector.model@ == "qwen2.5:7b"@,
            r.corrector.api_key@.len() == 0,
    {
        Self::for_platform(Platform::Other, None, None)
    }
}

/// The keys of a chord.
pub open spec fn chord_keys(chord: Seq<char>) -> Seq<Seq<char>> {
    text::split(chord, |c: char| c == '+')
}

/// One of the keys of a chord is the `Fn` key, which no Windows program sees.
pub open spec fn has_fn_key(chord: Seq<char>) -> bool {
    exists|i: int|
        0 <= i < chord_keys(chord).len() && text::lower(
            text::trim(#[trigger] chord_keys(chord)[i]),
        ) == "fn"@
}

/// Whether one of the keys of `chord` is the `Fn` key.
pub fn contains_fn_key(chord: &str) -> (r: bool)
    ensures
        r == has_fn_key(chord@),
{
    let at_plus = |c: char| -> (b: bool)
        ensures
            b == (c == '+'),
        { c == '+' };
    let keys: Vec<String> = text::split_where(chord, at_plus, Ghost(|c: char| c == '+'));
    let ghost all = chord_keys(chord@);
    let mut i: usize = 0;
    while i < keys.len()
        invariant
            i <= keys@.len(),
            all == chord_keys(chord@),
            all == text::texts(keys@),
            forall|j: int| 0 <= j < i ==> text::lower(text::trim(#[trigger] all[j])) != "fn"@,
        decreases keys@.len() - i,
    {
        let key: String = text::trimmed(keys[i].as_str());
        let key: String = text::lowered(key.as_str());
        if text::same(key.as_str(), "fn") {
            assert(text::lower(text::trim(chord_keys(chord@)[i as int])) == "fn"@);
            return true;
        }
        i = i + 1;
    }
    false
}

/// The primary hotkey that can fire on Windows: one that the shell reserves, as
/// long as the user has not chosen it, and one with an `Fn` key are replaced.
pub open spec fn windows_toggle(toggle: Seq<char>, onboarded: bool) -> Seq<char> {
    if needs_windows_toggle(toggle, onboarded) {
        "Ctrl+Shift+Space"@
    } else {
        toggle
    }
}

pub open spec fn needs_windows_toggle(toggle: Seq<char>, onboarded: bool) -> bool {
    (text::lower(toggle) == "alt+space"@ && !onboarded) || has_fn_key(toggle)
}

/// An intent that can fire on Windows: one with an `Fn` key is switched off and
/// gets the shipped chord.
pub open spec fn windows_intent(intent: IntentChord) -> IntentChord {
    if has_fn_key(intent.chord) {
        IntentChord { chord: "Alt+Shift+T"@, enabled: false, ..intent }
    } else {
        intent
    }
}

/// Some intent has an `Fn` key in its chord.
pub open spec fn has_fn_intent(intents: Seq<IntentChord>) -> bool {
    exists|i: int| 0 <= i < intents.len() && has_fn_key((#[trigger] intents[i]).chord)
}

fn replace_fn_intents(intents: &mut Vec<HotkeyIntentConfig>) -> (changed: bool)
    ensures
        chords(final(intents)@) == chords(old(intents)@).map_values(
            |i: IntentChord| windows_intent(i),
        ),
        changed == has_fn_intent(chords(old(intents)@)),
{
    let ghost all = chords(intents@);
    let ghost adapt = |i: IntentChord| windows_intent(i);
    let mut changed: bool = false;
    let mut done: Vec<HotkeyIntentConfig> = Vec::new();
    while intents.len() > 0
        invariant
            adapt == (|i: IntentChord| windows_intent(i)),
            intents@.len() + done@.len() == all.len(),
            chords(intents@) == all.skip(done@.len() as int),
            chords(done@) == all.take(done@.len() as int).map_values(adapt),
            changed == has_fn_intent(all.take(done@.len() as int)),
        decreases intents@.len(),
    {
        let ghost at = done@.len() as int;
        let ghost before = chords(done@);
        let ghost rest = intents@;
        assert(chords(rest)[0] == all.skip(at)[0]);
        let mut intent: HotkeyIntentConfig = intents.remove(0);
        assert(forall|j: int| 0 <= j < rest.len() - 1 ==> intents@[j] == rest[j + 1]);
        assert(forall|j: int|
            0 <= j < rest.len() - 1 ==> chords(rest)[j + 1] == #[trigger] all.skip(at + 1)[j]);
        assert(intent@ == all[at]);
        let affected: bool = contains_fn_key(intent.chord.as_str());
        if affected {
            intent.chord = "Alt+Shift+T".to_owned();
            intent.enabled = false;
        }
        let ghost last = intent@;
        done.push(intent);
        proof {
            assert(last == windows_intent(all[at]));
            assert(chords(done@) =~= before.push(last));
            assert(chords(done@) =~= all.take(at + 1).map_values(adapt));
            assert(chords(intents@) =~= all.skip(at + 1));
            let earlier = all.take(at);
            let now = all.take(at + 1);
            if affected {
                assert(has_fn_key(now[at].chord));
            }
            if changed {
                let k = choose|k: int|
                    0 <= k < earlier.len() && has_fn_key((#[trigger] earlier[k]).chord);
                assert(has_fn_key(now[k].chord));
            }
            if has_fn_intent(now) && !affected {
                let k = choose|k: int| 0 <= k < now.len() && has_fn_key((#[trigger] now[k]).chord);
                assert(has_fn_key(earlier[k].chord));
            }
        }
        changed = changed || affected;
    }
    assert(all.take(done@.len() as int) =~= all);
    *intents = done;
    changed
}

impl AppConfig {
    /// Replaces settings that can have no effect on the platform: on Windows, a
    /// selection in the directory that earlier builds used (`shared`, where it
    /// applies) and hotkeys that could never fire. Returns whether anything
    /// changed.
    pub fn apply_platform_fallbacks(
        &mut self,
        platform: Platform,
        shared: Option<&SharedModelDirs>,
    ) -> (changed: bool)
        ensures
            platform !is Windows ==> !changed && *final(self) == *old(self),
            platform is Windows ==> {
                let intents = chords(old(self).hotkey.intents@);
                let toggle = old(self).hotkey.toggle@;
                let onboarded = old(self).onboarding.completed;
                &&& changed == ((shared matches Some(moves) && moves.applies())
                    || needs_windows_toggle(toggle, onboarded) || has_fn_intent(intents))
                &&& final(self).hotkey.toggle@ == windows_toggle(toggle, onboarded)
                &&& chords(final(self).hotkey.intents@) == intents.map_values(
                    |i: IntentChord| windows_intent(i),
                )
                &&& final(self).asr.dirs() == (match shared {
                    Some(moves) => moves.applied(old(self).asr.dirs()),
                    None => old(self).asr.dirs(),
                })
                &&& final(self).asr.same_but_dirs(old(self).asr)
                &&& final(self).hotkey.enabled == old(self).hotkey.enabled
                &&& final(self).hotkey.show_capsule == old(self).hotkey.show_capsule
                &&& final(self).hotkey.mode == old(self).hotkey.mode
            },
            final(self).corrector == old(self).corrector,
            final(self).output == old(self).output,
            final(self).inject == old(self).inject,
            final(self).learning == old(self).learning,
            final(self).onboarding == old(self).onboarding,
            final(self).audio == old(self).audio,
            final(self).ui == old(self).ui,
            final(self).vad == old(self).vad,
            final(self).context == old(self).context,
            final(self).meeting == old(self).meeting,
    {
        match platform {
            Platform::Windows => {},
            _ => return false,
        }
        let mut changed: bool = false;
        if let Some(moves) = shared {
            if self.asr.migrate_shared_model_dirs(moves) {
                changed = true;
            }
        }
        let toggle: String = text::lowered(self.hotkey.toggle.as_str());
        if (text::same(toggle.as_str(), "alt+space") && !self.onboarding.completed)
            || contains_fn_key(self.hotkey.toggle.as_str()) {
            self.hotkey.toggle = "Ctrl+Shift+Space".to_owned();
            changed = true;
        }
        if replace_fn_intents(&mut self.hotkey.intents) {
            changed = true;
        }
        changed
    }

    /// What is done to settings that were read, before the platform's fallbacks:
    /// the intents are made usable, and the directory that earlier versions kept is
    /// carried over.
    pub fn prepare_loaded(&mut self, found: FoundModel)
        ensures
            chords(final(self).hotkey.intents@) == usable_intents(
                chords(old(self).hotkey.intents@),
                mode_name(old(self).hotkey.mode@),
            ),
            final(self).asr.dirs() == old(self).asr.dirs().migrated(found, old(self).asr.provider@),
            final(self).asr.same_but_dirs(old(self).asr),
            final(self).hotkey.toggle == old(self).hotkey.toggle,
            final(self).hotkey.enabled == old(self).hotkey.enabled,
            final(self).hotkey.show_capsule == old(self).hotkey.show_capsule,
            final(self).hotkey.mode == old(self).hotkey.mode,
            final(self).corrector == old(self).corrector,
            final(self).output == old(self).output,
            final(self).inject == old(self).inject,
            final(self).learning == old(self).learning,
            final(self).onboarding == old(self).onboarding,
            final(self).audio == old(self).audio,
            final(self).ui == old(self).ui,
            final(self).vad == old(self).vad,
            final(self).context == old(self).context,
            final(self).meeting == old(self).meeting,
    {
        ensure_default_intents(&mut self.hotkey);
        self.asr.migrate_legacy_model_dir(found);
    }

    /// What the corrector is asked to make of an utterance, under the cleanup of
    /// the provider in use.
    pub fn corrector_prompt_input(&self, intent: IntentSpec) -> (r: PromptBuildInput)
        ensures
            r.asks(self.output, self.output.level_for(self.asr.provider@), intent@),
    {
        self.output.prompt_input_for_asr_provider(self.asr.provider.as_str(), intent)
    }
}

// ---------------------------------------------------------------------------
// Laws of the configuration
// ---------------------------------------------------------------------------

/// What was never stored is on; only what was switched off is off.
pub proof fn what_is_not_stored_has_its_default(minutes: u32, default: u32)
    ensures
        on_unless(None) && on_unless(Some(true)) && !on_unless(Some(false)),
        minutes_or(Some(minutes), default) == minutes,
        minutes_or(None, default) == default,
{
}

/// A directory that is selected for an engine is the engine's own and the current one, and
/// no other engine loses its own.
pub proof fn selected_directory_is_found_again(
    dirs: ModelDirs,
    engine: EngineKind,
    other: EngineKind,
    path: Seq<char>,
    found: FoundModel,
    provider: Seq<char>,
)
    requires
        engine is SenseVoice || engine is Qwen || engine is Whisper,
        text::trim(path) == path,
        path.len() > 0,
    ensures
        dirs.selected(engine, path, found, provider).dir_for(engine) == path,
        dirs.selected(engine, path, found, provider).current == path,
        other != engine && dirs.own(other).len() > 0 ==> dirs.selected(
            engine,
            path,
            found,
            provider,
        ).own(other) == dirs.own(other),
{
    text::lemma_trim_twice(dirs.current);
}

/// The directory that was in use is kept for the engine whose model it holds, or for that
/// of the provider where it holds none that is known, unless that engine has its own.
pub proof fn current_directory_is_kept(dirs: ModelDirs, found: FoundModel, provider: Seq<char>)
    requires
        text::trim(dirs.current).len() > 0,
    ensures
        ({
            let after = dirs.migrated(found, provider);
            let current = text::trim(dirs.current);
            &&& after.current == dirs.current
            &&& found.sensevoice && text::trim(dirs.sensevoice).len() == 0 ==> after.sensevoice
                == current
            &&& !found.sensevoice && found.qwen && text::trim(dirs.qwen).len() == 0 ==> after.qwen
                == current
            &&& !found.sensevoice && !found.qwen && found.whisper && text::trim(dirs.whisper).len()
                == 0 ==> after.whisper == current
            &&& !found.sensevoice && !found.qwen && !found.whisper && provider == "local_qwen"@
                && text::trim(dirs.qwen).len() == 0 ==> after.qwen == current
            &&& text::trim(dirs.sensevoice).len() > 0 ==> after.sensevoice == dirs.sensevoice
            &&& text::trim(dirs.qwen).len() > 0 ==> after.qwen == dirs.qwen
            &&& text::trim(dirs.whisper).len() > 0 ==> after.whisper == dirs.whisper
        }),
{
    engine::providers_have_their_names(provider);
}

/// An engine's directory is its own, and the current one where it has none; nothing is
/// migrated where there is no current one.
pub proof fn own_directory_is_before_the_current(
    dirs: ModelDirs,
    found: FoundModel,
    provider: Seq<char>,
)
    ensures
        text::trim(dirs.qwen).len() > 0 ==> dirs.dir_for(EngineKind::Qwen) == text::trim(dirs.qwen),
        text::trim(dirs.sensevoice).len() > 0 ==> dirs.dir_for(EngineKind::SenseVoice)
            == text::trim(dirs.sensevoice),
        text::trim(dirs.whisper).len() > 0 ==> dirs.dir_for(EngineKind::Whisper) == text::trim(
            dirs.whisper,
        ),
        text::trim(dirs.qwen).len() == 0 ==> dirs.dir_for(EngineKind::Qwen) == text::trim(
            dirs.current,
        ),
        text::trim(dirs.sensevoice).len() == 0 ==> dirs.dir_for(EngineKind::SenseVoice)
            == text::trim(dirs.current),
        text::trim(dirs.whisper).len() == 0 ==> dirs.dir_for(EngineKind::Whisper) == text::trim(
            dirs.current,
        ),
        dirs.dir_for(EngineKind::Speech) == text::trim(dirs.current),
        text::trim(dirs.current).len() == 0 ==> dirs.migrated(found, provider) == dirs,
        has_model_dir(EngineKind::SenseVoice) && has_model_dir(EngineKind::Qwen) && has_model_dir(
            EngineKind::Whisper,
        ),
        !has_model_dir(EngineKind::Speech) && !has_model_dir(EngineKind::OpenAiAudio),
{
}

/// The directories of a configuration are seen as they are.
pub proof fn directories_are_seen_as_they_are(config: AsrServiceConfig)
    ensures
        config.dirs().current == config.model_dir@,
        config.dirs().sensevoice == config.sensevoice_model_dir@,
        config.dirs().qwen == config.qwen_model_dir@,
        config.dirs().whisper == config.whisper_model_dir@,
{
}

/// A leading `~` stands for the home directory; any other path is kept.
pub proof fn home_is_expanded(rest: Seq<char>, value: Seq<char>, home: Seq<char>, windows: bool)
    ensures
        expanded("~"@, home, windows) == home,
        expanded("~/"@ + rest, home, windows) == paths::join(home, rest, windows),
        expanded("~\\"@ + rest, home, windows) == paths::join(home, rest, windows),
        value.len() > 0 && value[0] != '~' ==> expanded(value, home, windows) == value,
{
    reveal_strlit("~");
    reveal_strlit("~/");
    reveal_strlit("~\\");
    let a = "~/"@ + rest;
    assert(a.subrange(0, 2) =~= "~/"@);
    assert(a.skip(2) =~= rest);
    let b = "~\\"@ + rest;
    assert(b.subrange(0, 2) =~= "~\\"@);
    assert(b.skip(2) =~= rest);
    assert(a.len() >= 2 && b.len() >= 2 && "~"@.len() == 1);
    if text::begins(value, "~/"@) {
        assert(value.subrange(0, 2)[0] == '~');
    }
    if text::begins(value, "~\\"@) {
        assert(value.subrange(0, 2)[0] == '~');
    }
    assert("~"@[0] == '~');
}

/// Python is the configured one, or that of the environment, or that of the platform.
pub proof fn python_is_found(
    configured: Seq<char>,
    environment: Seq<char>,
    home: Seq<char>,
    windows: bool,
)
    ensures
        text::trim(configured).len() > 0 ==> python_path(configured, Some(environment), home, windows)
            == expanded(text::trim(configured), home, windows) && python_path(
            configured,
            None,
            home,
            windows,
        ) == expanded(text::trim(configured), home, windows),
        text::trim(configured).len() == 0 && environment.len() > 0 ==> python_path(
            configured,
            Some(environment),
            home,
            windows,
        ) == expanded(environment, home, windows),
        text::trim(configured).len() == 0 ==> python_path(configured, None, home, true)
            == "python"@ && python_path(configured, None, home, false) == "python3"@,
        text::trim(configured).len() == 0 ==> python_path(
            configured,
            Some(Seq::empty()),
            home,
            windows,
        ) == python_path(configured, None, home, windows),
{
}

/// A cleanup level is read back from its name, and no other name is one.
pub proof fn cleanup_level_is_read_back(level: CleanupLevel, name: Seq<char>)
    ensures
        CleanupLevel::named(level.name()) == Some(level),
        CleanupLevel::named(name) matches Some(read) ==> read.name() == name,
        CleanupLevel::Off.name() == "none"@,
        CleanupLevel::Light.name() == "light"@,
        CleanupLevel::Medium.name() == "medium"@,
        CleanupLevel::Strong.name() == "strong"@,
{
    reveal_strlit("none");
    reveal_strlit("light");
    reveal_strlit("medium");
    reveal_strlit("strong");
    assert("none"@.len() == 4 && "none"@[0] == 'n' && "none"@[1] == 'o' && "none"@[2] == 'n'
        && "none"@[3] == 'e');
    assert("light"@.len() == 5 && "light"@[0] == 'l' && "light"@[1] == 'i' && "light"@[2] == 'g'
        && "light"@[3] == 'h' && "light"@[4] == 't');
    assert("medium"@.len() == 6 && "medium"@[0] == 'm' && "medium"@[1] == 'e'
        && "medium"@[2] == 'd' && "medium"@[3] == 'i' && "medium"@[4] == 'u'
        && "medium"@[5] == 'm');
    assert("strong"@.len() == 6 && "strong"@[0] == 's' && "strong"@[1] == 't'
        && "strong"@[2] == 'r' && "strong"@[3] == 'o' && "strong"@[4] == 'n'
        && "strong"@[5] == 'g');
}

/// Qwen has a cleanup level of its own, which is light where nothing known is stored; the
/// others share one, which is medium there.
pub proof fn qwen_is_cleaned_by_its_own_level(output: OutputConfig, provider: Seq<char>)
    ensures
        CleanupLevel::named(output.qwen_cleanup@) is None ==> output.level_for("local_qwen"@)
            is Light,
        CleanupLevel::named(output.qwen_cleanup@) matches Some(level) ==> output.level_for(
            "local_qwen"@,
        ) == level,
        CleanupLevel::named(output.cleanup@) is None ==> output.level_for("openai_audio"@)
            is Medium && output.default_level() is Medium,
        CleanupLevel::named(output.cleanup@) matches Some(level) ==> output.level_for(
            "local_sensevoice"@,
        ) == level && output.default_level() == level,
        output.level_for("qwen"@) == output.level_for("local_qwen"@),
        output.level_for("local_whisper"@) == output.default_level(),
        qwen_provider(provider) <==> engine::canonical_provider(provider) == "local_qwen"@,
{
    engine::providers_have_their_names(provider);
}

/// The user's own instruction is given where it is switched on and not blank, without the
/// white space around it.
pub proof fn own_instruction_is_given(output: OutputConfig)
    ensures
        !output.custom_enabled ==> output.instruction() is None,
        text::trim(output.custom_instruction@).len() == 0 ==> output.instruction() is None,
        output.custom_enabled && text::trim(output.custom_instruction@).len() > 0
            ==> output.instruction() == Some(text::trim(output.custom_instruction@)),
{
}

/// What is asked of the corrector is the whole of the output settings.
pub proof fn profile_is_the_output_settings(
    profile: PromptBuildInput,
    output: OutputConfig,
    level: CleanupLevel,
    intent: Intent,
)
    requires
        profile.asks(output, level, intent),
    ensures
        profile.cleanup == level,
        profile.style@ == output.style@,
        profile.casing@ == output.casing@,
        profile.punctuation@ == output.punctuation@,
        text::texts(profile.polish@) == text::texts(output.polish@),
        profile.intent@ == intent,
        profile.custom is Some <==> output.custom_enabled && text::trim(
            output.custom_instruction@,
        ).len() > 0,
        profile.custom matches Some(custom) ==> custom@ == text::trim(output.custom_instruction@),
{
}

/// Insertion modes have their names; any other name leaves the choice open.
pub proof fn insertion_modes_have_their_names(name: Seq<char>)
    ensures
        inject_mode("paste"@) is Paste,
        inject_mode("type"@) is Type,
        inject_mode("copy_only"@) is CopyOnly,
        inject_mode("copy"@) is CopyOnly,
        inject_mode("ax"@) is Ax,
        inject_mode("auto"@) is Auto,
        inject_mode(name) is Auto <==> name != "paste"@ && name != "type"@ && name != "copy_only"@
            && name != "copy"@ && name != "ax"@,
{
    reveal_strlit("paste");
    reveal_strlit("type");
    reveal_strlit("copy_only");
    reveal_strlit("copy");
    reveal_strlit("ax");
    reveal_strlit("auto");
    assert("paste"@.len() == 5 && "paste"@[0] == 'p' && "paste"@[1] == 'a' && "paste"@[2] == 's'
        && "paste"@[3] == 't' && "paste"@[4] == 'e');
    assert("type"@.len() == 4 && "type"@[0] == 't' && "type"@[1] == 'y' && "type"@[2] == 'p'
        && "type"@[3] == 'e');
    assert("copy_only"@.len() == 9 && "copy_only"@[0] == 'c' && "copy_only"@[1] == 'o'
        && "copy_only"@[2] == 'p' && "copy_only"@[3] == 'y' && "copy_only"@[4] == '_'
        && "copy_only"@[5] == 'o' && "copy_only"@[6] == 'n' && "copy_only"@[7] == 'l'
        && "copy_only"@[8] == 'y');
    assert("copy"@.len() == 4 && "copy"@[0] == 'c' && "copy"@[1] == 'o' && "copy"@[2] == 'p'
        && "copy"@[3] == 'y');
    assert("ax"@.len() == 2 && "ax"@[0] == 'a' && "ax"@[1] == 'x');
    assert("auto"@.len() == 4 && "auto"@[0] == 'a' && "auto"@[1] == 'u' && "auto"@[2] == 't'
        && "auto"@[3] == 'o');
}

/// A hotkey is held unless it is one that toggles or is clicked, in any case.
pub proof fn hotkey_is_held_unless_it_toggles(mode: Seq<char>)
    ensures
        !holds("toggle"@) && !holds("click"@) && holds("hold"@) && holds(Seq::empty()),
        holds(mode) == holds(text::lower(mode)),
        mode_name(mode) == "hold"@ <==> holds(mode),
        mode_name(mode) == "toggle"@ <==> !holds(mode),
        mode_name(mode_name(mode)) == mode_name(mode),
{
    reveal_strlit("toggle");
    reveal_strlit("click");
    reveal_strlit("hold");
    assert("toggle"@.len() == 6 && "toggle"@[0] == 't' && "toggle"@[1] == 'o'
        && "toggle"@[2] == 'g' && "toggle"@[3] == 'g' && "toggle"@[4] == 'l'
        && "toggle"@[5] == 'e');
    assert("click"@.len() == 5 && "click"@[0] == 'c' && "click"@[1] == 'l' && "click"@[2] == 'i'
        && "click"@[3] == 'c' && "click"@[4] == 'k');
    assert("hold"@.len() == 4 && "hold"@[0] == 'h' && "hold"@[1] == 'o' && "hold"@[2] == 'l'
        && "hold"@[3] == 'd');
    assert(text::is_small_word("toggle"@));
    text::small_word_is_itself("toggle"@);
    assert(text::is_small_word("click"@));
    text::small_word_is_itself("click"@);
    assert(text::is_small_word("hold"@));
    text::small_word_is_itself("hold"@);
    assert(text::lower(text::lower(mode)) =~= text::lower(mode));
    assert(text::lower(Seq::<char>::empty()).len() == 0);
}

/// What an utterance is for is told by its chord: a translation to its language, which is
/// English where none is given, in its style where that is not blank; the words as they
/// are; or nothing in particular.
pub proof fn chord_tells_its_purpose(chord: IntentChord)
    ensures
        text::lower(chord.intent) == "translate"@ ==> {
            &&& chord.purpose() matches Intent::Translate { target_language, style }
            &&& text::trim(chord.target_language).len() > 0 ==> target_language
                == chord.target_language
            &&& text::trim(chord.target_language).len() == 0 ==> target_language == "en"@
            &&& chord.translate_style is None ==> style is None
            &&& chord.translate_style matches Some(s) ==> (if text::trim(s).len() == 0 {
                style is None
            } else {
                style == Some(text::trim(s))
            })
        },
        text::lower(chord.intent) == "raw"@ ==> chord.purpose() is Raw,
        text::lower(chord.intent) != "raw"@ && text::lower(chord.intent) != "translate"@
            ==> chord.purpose() is Default,
{
    reveal_strlit("raw");
    reveal_strlit("translate");
    assert("raw"@.len() == 3 && "raw"@[0] == 'r' && "raw"@[1] == 'a' && "raw"@[2] == 'w');
    assert("translate"@.len() == 9 && "translate"@[0] == 't' && "translate"@[1] == 'r'
        && "translate"@[2] == 'a' && "translate"@[3] == 'n' && "translate"@[4] == 's'
        && "translate"@[5] == 'l' && "translate"@[6] == 'a' && "translate"@[7] == 't'
        && "translate"@[8] == 'e');
}

/// Intents that can be used have the mode of the primary hotkey, a chord and, where they
/// translate, a language; one of them translates; and what was set is kept.
pub proof fn usable_intents_are_complete(intents: Seq<IntentChord>, mode: Seq<char>, i: int)
    ensures
        has_translation(usable_intents(intents, mode)),
        0 <= i < usable_intents(intents, mode).len() ==> {
            let intent = usable_intents(intents, mode)[i];
            &&& intent.mode == mode
            &&& text::trim(intent.chord).len() > 0
            &&& text::lower(intent.intent) == "translate"@ ==> text::trim(intent.target_language).len()
                > 0
        },
        has_translation(intents) ==> usable_intents(intents, mode).len() == intents.len(),
        has_translation(intents) && 0 <= i < intents.len() ==> {
            let intent = usable_intents(intents, mode)[i];
            &&& intent.id == intents[i].id
            &&& intent.intent == intents[i].intent
            &&& intent.enabled == intents[i].enabled
            &&& intent.translate_style == intents[i].translate_style
            &&& text::trim(intents[i].chord).len() > 0 ==> intent.chord == intents[i].chord
            &&& text::trim(intents[i].chord).len() == 0 ==> intent.chord == "Alt+Shift+T"@
            &&& text::trim(intents[i].target_language).len() > 0 ==> intent.target_language
                == intents[i].target_language
        },
        !has_translation(intents) ==> usable_intents(intents, mode).len() == intents.len() + 1
            && usable_intents(intents, mode)[0].intent == "translate"@ && usable_intents(
            intents,
            mode,
        )[0].enabled && usable_intents(intents, mode)[0].target_language == "en"@ && usable_intents(
            intents,
            mode,
        )[0].chord == "Alt+Shift+T"@,
{
    reveal_strlit("Alt+Shift+T");
    reveal_strlit("en");
    reveal_strlit("translate");
    assert("Alt+Shift+T"@.len() == 11 && "Alt+Shift+T"@[0] == 'A' && "Alt+Shift+T"@[1] == 'l'
        && "Alt+Shift+T"@[2] == 't' && "Alt+Shift+T"@[3] == '+' && "Alt+Shift+T"@[4] == 'S'
        && "Alt+Shift+T"@[5] == 'h' && "Alt+Shift+T"@[6] == 'i' && "Alt+Shift+T"@[7] == 'f'
        && "Alt+Shift+T"@[8] == 't' && "Alt+Shift+T"@[9] == '+' && "Alt+Shift+T"@[10] == 'T');
    assert("en"@.len() == 2 && "en"@[0] == 'e' && "en"@[1] == 'n');
    assert("translate"@.len() == 9 && "translate"@[0] == 't' && "translate"@[1] == 'r'
        && "translate"@[2] == 'a' && "translate"@[3] == 'n' && "translate"@[4] == 's'
        && "translate"@[5] == 'l' && "translate"@[6] == 'a' && "translate"@[7] == 't'
        && "translate"@[8] == 'e');
    assert(text::is_small_word("en"@));
    text::small_word_is_itself("en"@);
    assert(text::is_small_word("translate"@));
    text::small_word_is_itself("translate"@);
    let completed = intents.map_values(|c: IntentChord| c.completed(mode));
    let all = usable_intents(intents, mode);
    assert(text::is_space('T') == false && text::is_space('A') == false);
    text::trimming_leaves_the_text(Seq::empty(), "Alt+Shift+T"@, Seq::empty());
    assert(Seq::<char>::empty() + "Alt+Shift+T"@ + Seq::<char>::empty() =~= "Alt+Shift+T"@);
    assert forall|k: int| 0 <= k < intents.len() implies (#[trigger] completed[k]).translates()
        == intents[k].translates() by {}
    if has_translation(intents) {
        let k = choose|k: int| 0 <= k < intents.len() && (#[trigger] intents[k]).translates();
        assert(completed[k].translates());
        assert(has_translation(completed));
    } else {
        if has_translation(completed) {
            let k = choose|k: int| 0 <= k < completed.len() && (#[trigger] completed[k]).translates();
            assert(intents[k].translates());
        }
        assert(all[0].translates());
        if 0 < i < all.len() {
            assert(all[i] == completed[i - 1]);
        }
    }
}

/// On Windows no hotkey has an `Fn` key, and the one that the shell reserves is kept only
/// where the user has chosen it.
pub proof fn windows_hotkeys_can_fire(toggle: Seq<char>, onboarded: bool, intent: IntentChord)
    ensures
        has_fn_key(toggle) ==> windows_toggle(toggle, onboarded) == "Ctrl+Shift+Space"@,
        text::lower(toggle) == "alt+space"@ && !onboarded ==> windows_toggle(toggle, onboarded)
            == "Ctrl+Shift+Space"@,
        !has_fn_key(toggle) && onboarded ==> windows_toggle(toggle, onboarded) == toggle,
        !has_fn_key(toggle) && text::lower(toggle) != "alt+space"@ ==> windows_toggle(
            toggle,
            onboarded,
        ) == toggle,
        has_fn_key(intent.chord) ==> !windows_intent(intent).enabled && windows_intent(intent).chord
            == "Alt+Shift+T"@,
        !has_fn_key(intent.chord) ==> windows_intent(intent) == intent,
        windows_intent(intent).intent == intent.intent,
        windows_intent(intent).id == intent.id,
        windows_intent(intent).target_language == intent.target_language,
        windows_intent(intent).mode == intent.mode,
        shipped_toggle(true) == "Ctrl+Shift+Space"@,
        shipped_toggle(false) == "Alt+Space"@,
{
}

/// `Fn` is a key of a chord where it stands between `+` signs, in any case and with white
/// space around it.
pub proof fn fn_key_is_seen(rest: Seq<char>)
    ensures
        has_fn_key("Fn"@),
        has_fn_key(rest + "+fn"@),
{
    let cut = |c: char| c == '+';
    reveal_strlit("Fn");
    reveal_strlit("fn");
    reveal_strlit("+fn");
    assert("Fn"@.len() == 2 && "Fn"@[0] == 'F' && "Fn"@[1] == 'n');
    assert("fn"@.len() == 2 && "fn"@[0] == 'f' && "fn"@[1] == 'n');
    assert("+fn"@.len() == 3 && "+fn"@[0] == '+' && "+fn"@[1] == 'f' && "+fn"@[2] == 'n');
    assert(text::is_small_word("fn"@));
    text::small_word_is_itself("fn"@);
    text::trimming_leaves_the_text(Seq::empty(), "Fn"@, Seq::empty());
    assert(Seq::<char>::empty() + "Fn"@ + Seq::<char>::empty() =~= "Fn"@);
    assert(text::lower("Fn"@) =~= "fn"@);
    let e = Seq::<char>::empty();
    assert(text::split(e, cut) =~= seq![e]);
    let f = seq!['F'];
    assert(f.drop_last() =~= e);
    assert(text::split(f, cut) =~= seq![f]);
    assert("Fn"@.drop_last() =~= f);
    assert(f.push('n') =~= "Fn"@);
    assert(text::split("Fn"@, cut) =~= seq!["Fn"@]);
    assert(chord_keys("Fn"@)[0] == "Fn"@);
    let all = rest + "+fn"@;
    let a = rest.push('+');
    let b = a.push('f');
    assert(all.drop_last() =~= b && b.drop_last() =~= a && a.drop_last() =~= rest);
    let keys = text::split(rest, cut);
    assert(text::split(a, cut) == keys.push(e));
    assert(keys.push(e).drop_last() =~= keys);
    assert(e.push('f') =~= seq!['f']);
    assert(text::split(b, cut) =~= keys.push(seq!['f']));
    assert(keys.push(seq!['f']).drop_last() =~= keys);
    assert(seq!['f'].push('n') =~= "fn"@);
    assert(text::split(all, cut) =~= keys.push("fn"@));
    assert(chord_keys(all)[keys.len() as int] == "fn"@);
}

/// Models move to the shared place only where they are there, and nothing else moves.
pub proof fn models_move_where_they_are(plan: SharedModelDirs, dirs: ModelDirs)
    ensures
        plan.applied(dirs).qwen == dirs.qwen,
        plan.sensevoice_ready && plan.sensevoice_is_legacy ==> plan.applied(dirs).sensevoice
            == plan.shared_sensevoice@,
        plan.whisper_ready && plan.whisper_is_legacy ==> plan.applied(dirs).whisper
            == plan.shared_whisper@,
        plan.sensevoice_ready && plan.current_is_legacy_sensevoice ==> plan.applied(dirs).current
            == plan.shared_sensevoice@,
        plan.whisper_ready && plan.current_is_legacy_whisper && !(plan.sensevoice_ready
            && plan.current_is_legacy_sensevoice) ==> plan.applied(dirs).current
            == plan.shared_whisper@,
        !plan.sensevoice_ready ==> plan.applied(dirs).sensevoice == dirs.sensevoice,
        !plan.whisper_ready ==> plan.applied(dirs).whisper == dirs.whisper,
        !plan.sensevoice_ready && !plan.whisper_ready ==> plan.applied(dirs) == dirs
            && !plan.applies(),
        !plan.applies() ==> plan.applied(dirs) == dirs,
        plan.sensevoice_ready && plan.sensevoice_is_legacy ==> plan.applies(),
        plan.sensevoice_ready && plan.current_is_legacy_sensevoice ==> plan.applies(),
        plan.whisper_ready && plan.whisper_is_legacy ==> plan.applies(),
        plan.whisper_ready && plan.current_is_legacy_whisper ==> plan.applies(),
{
}

/// An intent is seen as it is.
pub proof fn intent_is_seen_as_it_is(config: HotkeyIntentConfig, intent: IntentSpec)
    ensures
        config@.id == config.id@,
        config@.chord == config.chord@,
        config@.mode == config.mode@,
        config@.intent == config.intent@,
        config@.target_language == config.target_language@,
        config@.translate_style == text::opt(config.translate_style),
        config@.enabled == config.enabled,
        intent is Default ==> intent@ is Default,
        intent is PolishOverride ==> intent@ is PolishOverride,
        intent is Raw ==> intent@ is Raw,
        intent matches IntentSpec::Translate { target_language, style } ==> intent@
            == (Intent::Translate {
            target_language: target_language@,
            style: text::opt(style),
        }),
{
}

/// A change of the directories, of the cleanup or of the intents leaves the rest of the
/// settings as it is.
pub proof fn other_settings_stay(
    a: AsrServiceConfig,
    b: AsrServiceConfig,
    c: OutputConfig,
    d: OutputConfig,
    e: HotkeyConfig,
    f: HotkeyConfig,
    value: String,
    default: Seq<char>,
)
    ensures
        a.same_but_dirs(b) ==> a.provider == b.provider && a.runtime_path == b.runtime_path
            && a.qwen_shadow_enabled == b.qwen_shadow_enabled && a.base_url == b.base_url && a.model
            == b.model && a.api_key == b.api_key && a.language == b.language && a.timeout_secs
            == b.timeout_secs,
        c.same_but_cleanup(d) ==> c.style == d.style && c.casing == d.casing && c.punctuation
            == d.punctuation && c.polish == d.polish && c.custom_enabled == d.custom_enabled
            && c.custom_instruction == d.custom_instruction,
        e.same_but_intents(f) ==> e.enabled == f.enabled && e.toggle == f.toggle && e.show_capsule
            == f.show_capsule && e.mode == f.mode,
        value_or(Some(value), default) == value@,
        value_or(None, default) == default,
{
}

} // verus!
