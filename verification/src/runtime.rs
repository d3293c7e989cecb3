//! The engines that the application starts with, and the check of a runtime that
//! is still to be looked for.
use crate::config::AsrServiceConfig;
use crate::config::AudioConfig;
use crate::engine;
use crate::engine::EngineKind;
use crate::text;
use vstd::prelude::*;
use vstd::string::*;

verus! {

// ---------------------------------------------------------------------------
// The runtime
// ---------------------------------------------------------------------------

/// Seconds that a runtime has to answer.
pub const RUNTIME_PROBE_SECS: u64 = 10;

/// What is known of the runtime of an engine.
#[derive(Debug, Clone, PartialEq, Eq)]
pub struct QwenRuntimeStatus {
    pub executable: String,
    pub ready: bool,
    pub checking: bool,
    pub generation: u64,
}

impl QwenRuntimeStatus {
    /// Nothing is known yet.
    pub fn new(executable: String) -> (r: Self)
        ensures
            r.executable == executable,
            !r.ready && !r.checking && r.generation == 0,
    {
        QwenRuntimeStatus { executable, ready: false, checking: false, generation: 0 }
    }

    /// Begins a check of `executable`; there is one only where the model is there.
    /// A check that is still under way is out of date from now on.
    pub fn begin_check(&mut self, executable: &str, model_ready: bool) -> (generation: u64)
        ensures
            generation == final(self).generation,
            final(self).generation == (if old(self).generation == u64::MAX {
                0
            } else {
                old(self).generation + 1
            }),
            final(self).executable@ == executable@,
            !final(self).ready,
            final(self).checking == model_ready,
    {
        self.generation = if self.generation == u64::MAX {
            0
        } else {
            self.generation + 1
        };
        self.executable = executable.to_owned();
        self.ready = false;
        self.checking = model_ready;
        self.generation
    }

    /// Takes in what a check found, unless a later one has begun.
    pub fn finish_check(&mut self, generation: u64, executable: &str, ready: bool)
        ensures
            final(self).generation == old(self).generation,
            final(self).executable@ == old(self).executable@,
            old(self).generation == generation && old(self).executable@ == executable@ ==> {
                &&& final(self).ready == ready
                &&& !final(self).checking
            },
            !(old(self).generation == generation && old(self).executable@ == executable@)
                ==> final(self).ready == old(self).ready && final(self).checking == old(
                self,
            ).checking,
    {
        if self.generation == generation && text::same(self.executable.as_str(), executable) {
            self.ready = ready;
            self.checking = false;
        }
    }
}

/// What a runtime that was started is found to be doing.
#[derive(Debug, Clone, Copy, PartialEq, Eq, Structural)]
pub enum ProbeEvent {
    NotStarted,
    Running { overdue: bool },
    Exited { success: bool },
    Lost,
}

/// What is done with a runtime that was started.
#[derive(Debug, Clone, Copy, PartialEq, Eq, Structural)]
pub enum ProbeStep {
    Wait,
    /// It is stopped, and is not there.
    Kill,
    Done { available: bool },
}

/// What is done with a runtime that was started: it is there where it ends well
/// before its time is over.
pub fn probe_step(event: ProbeEvent) -> (r: ProbeStep)
    ensures
        r == match event {
            ProbeEvent::NotStarted => ProbeStep::Done { available: false },
            ProbeEvent::Running { overdue } => if overdue {
                ProbeStep::Kill
            } else {
                ProbeStep::Wait
            },
            ProbeEvent::Exited { success } => ProbeStep::Done { available: success },
            ProbeEvent::Lost => ProbeStep::Kill,
        },
{
    match event {
        ProbeEvent::NotStarted => ProbeStep::Done { available: false },
        ProbeEvent::Running { overdue } => if overdue {
            ProbeStep::Kill
        } else {
            ProbeStep::Wait
        },
        ProbeEvent::Exited { success } => ProbeStep::Done { available: success },
        ProbeEvent::Lost => ProbeStep::Kill,
    }
}

// ---------------------------------------------------------------------------
// What the application starts with
// ---------------------------------------------------------------------------

/// The engine that the application starts with.
pub fn initial_engine(provider: &str) -> (r: EngineKind)
    ensures
        r == match engine::provider_engine(provider@) {
            Some(kind) => kind,
            None => EngineKind::SenseVoice,
        },
{
    match engine::engine_kind_for_provider(provider) {
        Some(kind) => kind,
        None => EngineKind::SenseVoice,
    }
}

/// The directory of the Whisper model: the one that is set, where the model is
/// there, and else the usual one.
pub fn whisper_dir(selected: String, ready: bool, default: String) -> (r: String)
    ensures
        r == if selected@.len() > 0 && ready {
            selected
        } else {
            default
        },
{
    if !selected.as_str().is_empty() && ready {
        selected
    } else {
        default
    }
}

/// How the Qwen engine is made.
#[derive(Debug, Clone, PartialEq, Eq)]
pub struct QwenEngineSettings {
    pub model_dir: String,
    pub language: Option<String>,
    pub timeout_secs: u64,
}

/// How the Qwen engine is made: with a language only where one is set, and with
/// half a minute at least.
pub fn qwen_engine_from_config(config: &AsrServiceConfig, model_dir: String) -> (r:
    QwenEngineSettings)
    ensures
        r.model_dir == model_dir,
        text::opt(r.language) == if text::trim(config.language@).len() == 0 {
            None
        } else {
            Some(config.language@)
        },
        r.timeout_secs == if config.timeout_secs < 30 {
            30
        } else {
            config.timeout_secs
        },
{
    QwenEngineSettings {
        model_dir,
        language: if text::is_blank(config.language.as_str()) {
            None
        } else {
            Some(config.language.as_str().to_owned())
        },
        timeout_secs: if config.timeout_secs < 30 {
            30
        } else {
            config.timeout_secs
        },
    }
}

/// The device that is recorded from, where one is set.
pub fn initial_device(config: &AudioConfig) -> (r: Option<String>)
    ensures
        text::opt(r) == match config.device_name {
            Some(name) => if name@.len() > 0 {
                Some(name@)
            } else {
                None
            },
            None => None,
        },
{
    match &config.device_name {
        Some(name) => if name.as_str().is_empty() {
            None
        } else {
            Some(name.as_str().to_owned())
        },
        None => None,
    }
}

/// The value is there and more than space.
pub open spec fn is_set(value: Option<&String>) -> bool {
    value matches Some(value) && text::trim(value@).len() > 0
}

fn has_value(value: Option<&String>) -> (r: bool)
    ensures
        r == is_set(value),
{
    match value {
        Some(value) => !text::is_blank(value.as_str()),
        None => false,
    }
}

/// The shared root of the models that is to be set on Windows, as the directories
/// that lead to it: none where the user has set one, and none where it is not known
/// where applications keep their data.
pub fn configure_windows_models_root(
    configured: Option<&String>,
    local_app_data: Option<&String>,
) -> (r: Option<Vec<String>>)
    ensures
        match r {
            Some(dirs) => {
                &&& !is_set(configured) && is_set(local_app_data)
                &&& text::texts(dirs@) == seq![local_app_data->0@, "Lumen"@, "models"@]
            },
            None => is_set(configured) || !is_set(local_app_data),
        },
{
    if has_value(configured) {
        return None;
    }
    match local_app_data {
        Some(dir) => if text::is_blank(dir.as_str()) {
            None
        } else {
            let mut dirs: Vec<String> = Vec::new();
            dirs.push(dir.as_str().to_owned());
            dirs.push("Lumen".to_owned());
            dirs.push("models".to_owned());
            assert(text::texts(dirs@) =~= seq![dir@, "Lumen"@, "models"@]);
            Some(dirs)
        },
        None => None,
    }
}

// ---------------------------------------------------------------------------
// Laws of the environment
// ---------------------------------------------------------------------------

/// A value is set where it is there and more than white space.
pub proof fn blank_value_is_not_set(value: &String)
    ensures
        is_set(Some(value)) <==> text::trim(value@).len() > 0,
        !is_set(None),
        RUNTIME_PROBE_SECS == 10,
{
}

} // verus!
