//! The capture of context that runs beside a dictation.
use crate::config::ContextCaptureConfig;
use crate::context_records;
use crate::context_records::CaptureOrigin;
use crate::context_records::CaptureProfile;
use crate::context_records::ContextInputRef;
use crate::context_records::RecorderSettings;
use crate::context_records::SourceKind;
use crate::context_records::StageUsageInput;
use crate::edit_learning_runtime::FrontmostTarget;
use crate::outside;
use crate::paths;
use crate::platform::Platform;
use crate::pipeline::PipelineStage;
use crate::text;
use vstd::prelude::*;
use vstd::string::*;

verus! {

// ---------------------------------------------------------------------------
// The capture
// ---------------------------------------------------------------------------

/// What is known of the app that context is captured of.
#[derive(Debug, Clone, PartialEq, Eq, Default)]
pub struct TargetHint {
    pub app_name: Option<String>,
    pub bundle_id: Option<String>,
    pub window_title: Option<String>,
    pub document_url: Option<String>,
}

/// What is known of the app in front when a dictation started: its name and its
/// identifier, and nothing of its window.
pub fn capture_hint(target: Option<&FrontmostTarget>) -> (r: Option<TargetHint>)
    ensures
        match target {
            Some(target) => {
                &&& r matches Some(hint)
                &&& text::opt(hint.app_name) == text::opt(target.name)
                &&& text::opt(hint.bundle_id) == text::opt(target.bundle_id)
                &&& hint.window_title is None
                &&& hint.document_url is None
            },
            None => r is None,
        },
{
    match target {
        Some(target) => Some(
            TargetHint {
                app_name: text::copy_opt(&target.name),
                bundle_id: text::copy_opt(&target.bundle_id),
                window_title: None,
                document_url: None,
            },
        ),
        None => None,
    }
}

/// A capture that is under way, or that could not begin.
#[derive(Debug, Clone, PartialEq, Eq)]
pub struct ActiveContextCapture {
    pub session_id: u128,
    pub capture_id: u128,
    pub target_generation: u64,
    pub unavailable_reason: Option<String>,
    pub profile: CaptureProfile,
    /// Milliseconds since the epoch.
    pub started_at: i64,
}

impl ActiveContextCapture {
    /// What the records of this capture say of where they come from.
    pub fn origin(&self) -> (r: CaptureOrigin)
        ensures
            r == (CaptureOrigin {
                capture_id: self.capture_id,
                session_id: self.session_id,
                profile: self.profile,
                target_generation: self.target_generation,
                started_at: self.started_at,
            }),
    {
        CaptureOrigin {
            capture_id: self.capture_id,
            session_id: self.session_id,
            profile: self.profile,
            target_generation: self.target_generation,
            started_at: self.started_at,
        }
    }
}

/// What a collector is asked to capture.
#[derive(Debug, Clone, PartialEq, Eq)]
pub struct CaptureRequest {
    pub target_generation: u64,
    pub profile: CaptureProfile,
    pub sources: Vec<SourceKind>,
}

/// The recorder of captures. At most one capture is under way.
#[derive(Debug, Clone, PartialEq, Eq)]
pub struct ContextRecorder {
    pub settings: RecorderSettings,
    pub sealer_ready: bool,
    pub collector_ready: bool,
    pub initialization_error: Option<String>,
    pub active: Option<ActiveContextCapture>,
    /// How many captures were begun.
    pub generation: u64,
}

impl ContextRecorder {
    /// Why no capture can begin.
    pub open spec fn refusal(self) -> Option<Seq<char>> {
        context_records::refusal(
            self.settings.enabled,
            self.sealer_ready,
            self.collector_ready,
            text::opt(self.initialization_error),
        )
    }

    /// The recorder is what it was but for the capture under way.
    pub open spec fn same_setup(self, other: Self) -> bool {
        &&& self.settings == other.settings
        &&& self.sealer_ready == other.sealer_ready
        &&& self.collector_ready == other.collector_ready
        &&& self.initialization_error == other.initialization_error
    }

    /// A recorder by the settings. What went wrong with the key comes before what
    /// went wrong with the collector.
    pub fn new(
        config: &ContextCaptureConfig,
        sealer_ready: bool,
        key_error: Option<String>,
        collector_error: Option<String>,
    ) -> (r: Self)
        ensures
            r.settings.enabled == config.enabled,
            r.settings.profile == context_records::profile_named(config.profile@),
            r.settings.ax_max_chars == context_records::clamped(
                config.max_chars as int,
                1_000,
                1_000_000,
            ),
            r.settings.freeze_deadline_ms == context_records::clamped(
                config.freeze_deadline_ms as int,
                1,
                5_000,
            ),
            r.settings.late_deadline_ms == context_records::clamped(
                config.late_deadline_ms as int,
                1,
                60_000,
            ),
            r.sealer_ready == sealer_ready,
            r.collector_ready == collector_error is None,
            r.initialization_error == (if key_error is Some {
                key_error
            } else {
                collector_error
            }),
            r.active is None,
            r.generation == 0,
    {
        let collector_ready: bool = collector_error.is_none();
        let initialization_error: Option<String> = match key_error {
            Some(error) => Some(error),
            None => collector_error,
        };
        ContextRecorder {
            settings: context_records::recorder_settings(config),
            sealer_ready,
            collector_ready,
            initialization_error,
            active: None,
            generation: 0,
        }
    }

    /// What a collector is to be asked for, where a capture can begin.
    pub fn request(&self) -> (r: Option<CaptureRequest>)
        requires
            self.generation < u64::MAX,
        ensures
            r is Some <==> self.refusal() is None,
            r matches Some(request) ==> {
                &&& request.target_generation == self.generation + 1
                &&& request.profile == self.settings.profile
                &&& request.sources@ == context_records::captured_sources(self.settings.profile)
            },
    {
        let refusal: Option<String> = context_records::capture_refusal(
            self.settings.enabled,
            self.sealer_ready,
            self.collector_ready,
            self.initialization_error.as_ref(),
        );
        match refusal {
            Some(_) => None,
            None => Some(
                CaptureRequest {
                    target_generation: self.generation + 1,
                    profile: self.settings.profile,
                    sources: context_records::sources_for_profile(self.settings.profile),
                },
            ),
        }
    }

    /// Begins a capture in place of the one under way; `started` says whether the
    /// collector took the request up. A capture that could not begin is recorded
    /// with its reason.
    pub fn begin(
        &mut self,
        session_id: u128,
        capture_id: u128,
        started_at: i64,
        started: bool,
    ) -> (r: u128)
        requires
            old(self).generation < u64::MAX,
        ensures
            r == session_id,
            final(self).same_setup(*old(self)),
            final(self).generation == old(self).generation + 1,
            ({
                &&& final(self).active matches Some(active)
                &&& active.session_id == session_id
                &&& active.capture_id == capture_id
                &&& active.target_generation == old(self).generation + 1
                &&& active.profile == old(self).settings.profile
                &&& active.started_at == started_at
                &&& text::opt(active.unavailable_reason) == if old(self).refusal() is Some {
                    old(self).refusal()
                } else if started {
                    None
                } else {
                    Some("context_capture_start_failed"@)
                }
            }),
    {
        let refusal: Option<String> = context_records::capture_refusal(
            self.settings.enabled,
            self.sealer_ready,
            self.collector_ready,
            self.initialization_error.as_ref(),
        );
        self.generation = self.generation + 1;
        self.active = Some(
            ActiveContextCapture {
                session_id,
                capture_id,
                target_generation: self.generation,
                unavailable_reason: context_records::capture_unavailable_reason(refusal, started),
                profile: self.settings.profile,
                started_at,
            },
        );
        session_id
    }

    /// Hands the capture under way over: it is handed over once.
    pub fn take_active(&mut self) -> (r: Option<ActiveContextCapture>)
        ensures
            r == old(self).active,
            final(self).active is None,
            final(self).same_setup(*old(self)),
            final(self).generation == old(self).generation,
    {
        self.active.take()
    }

    /// Drops the capture under way.
    pub fn clear_active(&mut self)
        ensures
            final(self).active is None,
            final(self).same_setup(*old(self)),
            final(self).generation == old(self).generation,
    {
        self.active = None;
    }
}

// ---------------------------------------------------------------------------
// Storage
// ---------------------------------------------------------------------------

/// What the database is found to be.
#[derive(Debug, Clone, Copy, PartialEq, Eq, Structural)]
pub enum DatabaseState {
    Poisoned,
    Missing,
    Open,
}

/// A record of context is saved only where the database is open.
pub fn check_database(state: DatabaseState) -> (r: Result<(), String>)
    ensures
        match state {
            DatabaseState::Poisoned => text::fails(r, "store lock poisoned while saving context"@),
            DatabaseState::Missing => text::fails(r, "database unavailable while saving context"@),
            DatabaseState::Open => r is Ok,
        },
{
    match state {
        DatabaseState::Poisoned => Err("store lock poisoned while saving context".to_owned()),
        DatabaseState::Missing => Err("database unavailable while saving context".to_owned()),
        DatabaseState::Open => Ok(()),
    }
}

/// The path that a file is written to before it takes the place of `path`.
pub open spec fn temporary(path: Seq<char>, nonce: u128, windows: bool) -> Seq<char> {
    paths::extended(
        path,
        (match paths::extension_of(path, windows) {
            Some(extension) => extension,
            None => "data"@,
        }) + ".tmp-"@ + outside::uuid_display(nonce),
        windows,
    )
}

/// The path that a file is written to before it takes the place of `path`.
pub fn temporary_path(path: &str, nonce: u128, platform: Platform) -> (r: String)
    ensures
        r@ == temporary(path@, nonce, platform is Windows),
{
    let extension: String = match paths::extension(path, platform) {
        Some(extension) => extension,
        None => "data".to_owned(),
    };
    let written: String = text::glue3(
        extension.as_str(),
        ".tmp-",
        outside::uuid_text(nonce).as_str(),
    );
    paths::with_extension(path, written.as_str(), platform)
}

// ---------------------------------------------------------------------------
// Where nothing can be captured
// ---------------------------------------------------------------------------

/// What is recorded of a stage where no context can be captured.
#[derive(Debug, Clone, PartialEq, Eq)]
pub struct UncapturedUsage {
    pub stage: PipelineStage,
    pub sources: Vec<String>,
    pub captured: bool,
    pub selected: bool,
    pub consumed: bool,
    pub sent: bool,
    pub not_used_reason: Option<String>,
}

/// What is recorded of a stage where no context can be captured. A projection is
/// refused: nothing is disclosed that cannot be stored.
pub fn uncaptured_usage(input: StageUsageInput) -> (r: Result<UncapturedUsage, String>)
    ensures
        if input.projection is Some {
            text::fails(
                r,
                "Windows context projection storage is unavailable; input was not disclosed"@,
            )
        } else {
            &&& r matches Ok(usage)
            &&& usage.stage == input.stage
            &&& usage.sources == input.sources
            &&& usage.captured == input.captured
            &&& usage.selected == input.selected
            &&& usage.consumed == input.consumed
            &&& usage.sent == input.sent
            &&& text::opt(usage.not_used_reason) == Some(
                match input.not_used_reason {
                    Some(reason) => reason@,
                    None => "context_capture_unsupported_on_windows"@,
                },
            )
        },
{
    if input.projection.is_some() {
        return Err(
            "Windows context projection storage is unavailable; input was not disclosed".to_owned(),
        );
    }
    Ok(
        UncapturedUsage {
            stage: input.stage,
            sources: input.sources,
            captured: input.captured,
            selected: input.selected,
            consumed: input.consumed,
            sent: input.sent,
            not_used_reason: match input.not_used_reason {
                Some(reason) => Some(reason),
                None => Some("context_capture_unsupported_on_windows".to_owned()),
            },
        },
    )
}

/// Why no projection can be read back where none can be stored.
pub fn no_projection_storage() -> (r: String)
    ensures
        r@ == "Windows context projection storage is unavailable"@,
{
    "Windows context projection storage is unavailable".to_owned()
}

/// The reference to a capture that holds nothing.
pub fn uncaptured_ref(capture_id: u128) -> (r: ContextInputRef)
    ensures
        r.capture_id == capture_id,
        r.revision == 0,
        r.snapshot_hash@.len() == 0,
        r.context_schema_version == 1,
        r.capture_profile@ == "disabled"@,
        r.source_presence_bitmap == 0,
        r.source_status_summary@ == "unavailable"@,
{
    ContextInputRef {
        capture_id,
        revision: 0,
        snapshot_hash: String::new(),
        context_schema_version: 1,
        capture_profile: "disabled".to_owned(),
        source_presence_bitmap: 0,
        source_status_summary: "unavailable".to_owned(),
    }
}

// ---------------------------------------------------------------------------
// Laws of temporary files
// ---------------------------------------------------------------------------

/// A file is written under its own name with the mark of its writing behind it, beside the
/// place where it will stand.
pub proof fn temporary_file_stands_beside_its_place(
    before: Seq<char>,
    stem: Seq<char>,
    extension: Seq<char>,
    nonce: u128,
    windows: bool,
)
    requires
        paths::is_directory_part(before, windows),
        paths::is_file_name(stem + seq!['.'] + extension, windows),
        stem.len() > 0,
        forall|i: int| 0 <= i < extension.len() ==> #[trigger] extension[i] != '.',
    ensures
        temporary(before + (stem + seq!['.'] + extension), nonce, windows) == before + stem
            + seq!['.'] + (extension + ".tmp-"@ + outside::uuid_display(nonce)),
{
    paths::name_is_stem_and_extension(before, stem, extension, windows);
    paths::extension_is_replaced(
        before,
        stem,
        extension,
        extension + ".tmp-"@ + outside::uuid_display(nonce),
        windows,
    );
}

/// A file without an extension is written as data.
pub proof fn temporary_file_of_a_plain_name(
    before: Seq<char>,
    name: Seq<char>,
    nonce: u128,
    windows: bool,
)
    requires
        paths::is_directory_part(before, windows),
        paths::is_file_name(name, windows),
        forall|i: int| 1 <= i < name.len() ==> #[trigger] name[i] != '.',
    ensures
        temporary(before + name, nonce, windows) == paths::extended(
            before + name,
            "data.tmp-"@ + outside::uuid_display(nonce),
            windows,
        ),
{
    paths::name_without_a_dot_is_all_stem(before, name, windows);
    reveal_strlit("data");
    reveal_strlit(".tmp-");
    reveal_strlit("data.tmp-");
    assert("data"@ + ".tmp-"@ =~= "data.tmp-"@);
}

} // verus!
