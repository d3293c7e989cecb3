//! What becomes of a recording: from the microphone to the text in the target,
//! one outcome at a time.
use crate::dictation;
use crate::dictation::CaptureSignalIssue;
use crate::engine::EngineKind;
use crate::pipeline;
use crate::pipeline::ContextStageUsage;
use crate::pipeline::InsertStrategy;
use crate::pipeline::InsertionOutcome;
use crate::pipeline::PipelineIssueKind;
use crate::pipeline::PipelineStage;
use crate::pipeline::PipelineStageIssue;
use crate::platform::Platform;
use crate::text;
use vstd::prelude::*;
use vstd::string::*;

verus! {

// ---------------------------------------------------------------------------
// Settings, actions and events
// ---------------------------------------------------------------------------

/// What a dictation was set to do when the recording stopped.
#[derive(Debug, Clone, PartialEq, Eq)]
pub struct DictationSettings {
    pub engine: EngineKind,
    pub provider: String,
    /// The text is put into the target.
    pub auto_insert: bool,
    /// Edits are watched after the insertion.
    pub post_paste_capture: bool,
    pub post_paste_seconds: u64,
    /// Text can be inserted into other apps.
    pub insert_available: bool,
    pub platform: Platform,
    /// The intent of the session is a translation.
    pub translates: bool,
}

/// The settings as a value.
#[verifier::ext_equal]
pub struct Settings {
    pub engine: EngineKind,
    pub provider: Seq<char>,
    pub auto_insert: bool,
    pub post_paste_capture: bool,
    pub post_paste_seconds: u64,
    pub insert_available: bool,
    pub platform: Platform,
    pub translates: bool,
}

impl View for DictationSettings {
    type V = Settings;

    open spec fn view(&self) -> Settings {
        Settings {
            engine: self.engine,
            provider: self.provider@,
            auto_insert: self.auto_insert,
            post_paste_capture: self.post_paste_capture,
            post_paste_seconds: self.post_paste_seconds,
            insert_available: self.insert_available,
            platform: self.platform,
            translates: self.translates,
        }
    }
}

/// What is done next with a recording.
#[derive(Debug, Clone, Copy, PartialEq, Eq, Structural)]
pub enum DictationAction {
    StopCapture,
    FreezeContext,
    ReadSamples,
    InspectSignal,
    /// Seals late context in the background.
    ArchiveContext,
    Recognize,
    /// Corrects the enhanced text.
    Correct,
    /// Waits for the pane that is looked for.
    JoinPane,
    /// Gives the pane up, and the target that edits would be watched in.
    ForgetPane,
    /// Brings the target to the front.
    RestoreFocus,
    Insert,
    /// Clears the target that edits would be watched in, and copies the text, which
    /// cannot be inserted.
    CopyOnly,
    CopyAfterFailure,
    /// Asks whether a short silent capture is kept at all.
    AskDiscard,
    WriteDebug,
    Persist,
    /// Clears the target that edits would be watched in.
    ClearTarget,
    End,
}

/// What came of the action.
#[derive(Debug, Clone, PartialEq, Eq)]
pub enum DictationEvent {
    Done,
    Failed(String),
    /// No context was captured; the record has nothing in it.
    ContextMissing(ContextStageUsage),
    /// The context is sealed; `usage` is what is recorded of its use, `partial`
    /// says that more of it comes later.
    ContextFrozen { usage: Option<ContextStageUsage>, partial: bool },
    /// The context could not be sealed.
    ContextFailed { error: String, blank: ContextStageUsage },
    Samples { count: usize, sample_rate: u32 },
    Signal { finite: bool, audible: bool },
    /// `text` is what was recognized and is recorded, `enhanced` what is corrected.
    Recognized { text: String, enhanced: String, engine: String },
    Corrected { text: String, engine: String, model_applied: bool, fallback: Option<String> },
    /// The app itself is still in front.
    FrontIsSelf(String),
    Inserted { strategy: InsertStrategy, observing: bool },
    Discard(bool),
}

/// What came of the action, as a value.
pub enum Event {
    Done,
    Failed(Seq<char>),
    ContextMissing(pipeline::StageUsage),
    ContextFrozen { usage: Option<pipeline::StageUsage>, partial: bool },
    ContextFailed { error: Seq<char>, blank: pipeline::StageUsage },
    Samples { count: nat, sample_rate: nat },
    Signal { finite: bool, audible: bool },
    Recognized { text: Seq<char>, enhanced: Seq<char>, engine: Seq<char> },
    Corrected {
        text: Seq<char>,
        engine: Seq<char>,
        model_applied: bool,
        fallback: Option<Seq<char>>,
    },
    FrontIsSelf(Seq<char>),
    Inserted { strategy: InsertStrategy, observing: bool },
    Discard(bool),
}

impl View for DictationEvent {
    type V = Event;

    open spec fn view(&self) -> Event {
        match *self {
            DictationEvent::Done => Event::Done,
            DictationEvent::Failed(error) => Event::Failed(error@),
            DictationEvent::ContextMissing(blank) => Event::ContextMissing(blank@),
            DictationEvent::ContextFrozen { usage, partial } => Event::ContextFrozen {
                usage: match usage {
                    Some(usage) => Some(usage@),
                    None => None,
                },
                partial,
            },
            DictationEvent::ContextFailed { error, blank } => Event::ContextFailed {
                error: error@,
                blank: blank@,
            },
            DictationEvent::Samples { count, sample_rate } => Event::Samples {
                count: count as nat,
                sample_rate: sample_rate as nat,
            },
            DictationEvent::Signal { finite, audible } => Event::Signal { finite, audible },
            DictationEvent::Recognized { text, enhanced, engine } => Event::Recognized {
                text: text@,
                enhanced: enhanced@,
                engine: engine@,
            },
            DictationEvent::Corrected { text, engine, model_applied, fallback } => {
                Event::Corrected {
                    text: text@,
                    engine: engine@,
                    model_applied,
                    fallback: text::opt(fallback),
                }
            },
            DictationEvent::FrontIsSelf(name) => Event::FrontIsSelf(name@),
            DictationEvent::Inserted { strategy, observing } => Event::Inserted {
                strategy,
                observing,
            },
            DictationEvent::Discard(discard) => Event::Discard(discard),
        }
    }
}

// ---------------------------------------------------------------------------
// A run
// ---------------------------------------------------------------------------

/// A recording that is being worked on, and what is recorded of it.
#[derive(Debug, Clone, PartialEq, Eq)]
pub struct DictationRun {
    pub settings: DictationSettings,
    pub action: DictationAction,
    /// Why the capture could not be stopped.
    pub capture_error: Option<String>,
    pub issues: Vec<PipelineStageIssue>,
    pub usages: Vec<ContextStageUsage>,
    /// Context is still to be archived.
    pub archive_pending: bool,
    pub samples: usize,
    pub sample_rate: u32,
    pub duration_ms: u64,
    /// The stage that failed.
    pub failed_stage: Option<PipelineStage>,
    /// What the user is told instead of a text.
    pub error: Option<String>,
    pub asr_engine: String,
    /// What was recognized.
    pub asr_text: String,
    /// What is made of it for the corrector.
    pub enhanced_text: String,
    pub corrected_text: String,
    pub corrector_engine: String,
    pub model_applied: bool,
    pub fallback: Option<String>,
    pub notes: Vec<String>,
    pub insert_error: Option<String>,
    pub strategy: InsertStrategy,
    pub outcome: InsertionOutcome,
    pub observing: bool,
    pub notice: Option<String>,
    /// The text was settled: the attempt is complete.
    pub completed: bool,
    pub target_cleared: bool,
}

/// A run as a value.
#[verifier::ext_equal]
pub struct RunState {
    pub settings: Settings,
    pub action: DictationAction,
    pub capture_error: Option<Seq<char>>,
    pub issues: Seq<pipeline::Issue>,
    pub usages: Seq<pipeline::StageUsage>,
    pub archive_pending: bool,
    pub samples: int,
    pub sample_rate: int,
    pub duration_ms: int,
    pub failed_stage: Option<PipelineStage>,
    pub error: Option<Seq<char>>,
    pub asr_engine: Seq<char>,
    pub asr_text: Seq<char>,
    pub enhanced_text: Seq<char>,
    pub corrected_text: Seq<char>,
    pub corrector_engine: Seq<char>,
    pub model_applied: bool,
    pub fallback: Option<Seq<char>>,
    pub notes: Seq<Seq<char>>,
    pub insert_error: Option<Seq<char>>,
    pub strategy: InsertStrategy,
    pub outcome: InsertionOutcome,
    pub observing: bool,
    pub notice: Option<Seq<char>>,
    pub completed: bool,
    pub target_cleared: bool,
}

/// The records of the stages.
pub open spec fn usages(v: Seq<ContextStageUsage>) -> Seq<pipeline::StageUsage> {
    v.map_values(|u: ContextStageUsage| u@)
}

impl View for DictationRun {
    type V = RunState;

    open spec fn view(&self) -> RunState {
        RunState {
            settings: self.settings@,
            action: self.action,
            capture_error: text::opt(self.capture_error),
            issues: pipeline::issues(self.issues@),
            usages: usages(self.usages@),
            archive_pending: self.archive_pending,
            samples: self.samples as int,
            sample_rate: self.sample_rate as int,
            duration_ms: self.duration_ms as int,
            failed_stage: self.failed_stage,
            error: text::opt(self.error),
            asr_engine: self.asr_engine@,
            asr_text: self.asr_text@,
            enhanced_text: self.enhanced_text@,
            corrected_text: self.corrected_text@,
            corrector_engine: self.corrector_engine@,
            model_applied: self.model_applied,
            fallback: text::opt(self.fallback),
            notes: text::texts(self.notes@),
            insert_error: text::opt(self.insert_error),
            strategy: self.strategy,
            outcome: self.outcome,
            observing: self.observing,
            notice: text::opt(self.notice),
            completed: self.completed,
            target_cleared: self.target_cleared,
        }
    }
}

impl RunState {
    pub open spec fn at(self, action: DictationAction) -> RunState {
        RunState { action, ..self }
    }

    /// Where a run begins.
    pub open spec fn start(settings: Settings) -> RunState {
        RunState {
            settings,
            action: DictationAction::StopCapture,
            capture_error: None,
            issues: Seq::empty(),
            usages: Seq::empty(),
            archive_pending: false,
            samples: 0,
            sample_rate: 0,
            duration_ms: 0,
            failed_stage: None,
            error: None,
            asr_engine: settings.engine.name(),
            asr_text: Seq::empty(),
            enhanced_text: Seq::empty(),
            corrected_text: Seq::empty(),
            corrector_engine: Seq::empty(),
            model_applied: false,
            fallback: None,
            notes: Seq::empty(),
            insert_error: None,
            strategy: InsertStrategy::Nothing,
            outcome: InsertionOutcome::NotRequested,
            observing: false,
            notice: None,
            completed: false,
            target_cleared: false,
        }
    }

    /// Failed in a stage, with what the user is told.
    pub open spec fn failed(self, stage: PipelineStage, error: Seq<char>) -> RunState {
        RunState { failed_stage: Some(stage), error: Some(error), ..self }
    }

    pub open spec fn noted(self, note: Seq<char>) -> RunState {
        RunState { notes: self.notes.push(note), ..self }
    }

    pub open spec fn with_issue(
        self,
        stage: PipelineStage,
        kind: PipelineIssueKind,
        message: Seq<char>,
    ) -> RunState {
        RunState { issues: self.issues.push(pipeline::Issue { stage, kind, message }), ..self }
    }

    pub open spec fn with_usage(self, usage: pipeline::StageUsage) -> RunState {
        RunState { usages: self.usages.push(usage), ..self }
    }

    /// The text is to be put into the target.
    pub open spec fn inserts(self) -> bool {
        self.settings.auto_insert && self.corrected_text.len() > 0
    }

    /// The late context is archived next, or else `action` follows.
    pub open spec fn archiving_or(self, action: DictationAction) -> RunState {
        if self.archive_pending {
            self.at(DictationAction::ArchiveContext)
        } else {
            self.at(action)
        }
    }

    /// What became of the text is settled.
    pub open spec fn settled(self) -> RunState {
        RunState { completed: true, ..self.at(DictationAction::WriteDebug) }
    }

    /// The context was recorded: the capture goes on unless it failed.
    pub open spec fn after_context(self) -> RunState {
        match self.capture_error {
            Some(error) => self.failed(PipelineStage::Capture, error).archiving_or(
                DictationAction::Persist,
            ),
            None => self.at(DictationAction::ReadSamples),
        }
    }

    /// The capture is not transcribed.
    pub open spec fn rejected(
        self,
        issue: CaptureSignalIssue,
        error: Seq<char>,
        note: Seq<char>,
    ) -> RunState {
        RunState { issues: self.issues.push(issue.issue()), ..self }.failed(
            PipelineStage::Capture,
            error,
        ).noted(note).at(DictationAction::AskDiscard)
    }

    /// The context was recorded, or why it was not.
    pub open spec fn froze(self, event: Event) -> RunState {
        match event {
            Event::ContextMissing(blank) => self.with_usage(
                dictation::unused_context(blank, false, "capture_session_missing"@),
            ),
            Event::ContextFrozen { usage, partial } => {
                let next = RunState { archive_pending: partial, ..self };
                match usage {
                    Some(usage) => next.with_usage(usage),
                    None => next,
                }
            },
            Event::ContextFailed { error, blank } => self.with_issue(
                PipelineStage::Capture,
                PipelineIssueKind::InputUnavailable,
                error,
            ).with_usage(
                dictation::unused_context(blank, false, "context_persistence_failed"@),
            ),
            _ => self,
        }
    }

    /// The text was corrected.
    pub open spec fn corrected(
        self,
        words: Seq<char>,
        engine: Seq<char>,
        model_applied: bool,
        fallback: Option<Seq<char>>,
    ) -> RunState {
        let a = RunState {
            corrected_text: words,
            corrector_engine: engine,
            model_applied,
            fallback,
            ..self
        };
        let b = if self.asr_text.len() == 0 || self.asr_text == "."@ {
            a.noted("empty/dot ASR"@)
        } else {
            a
        };
        let c = if self.settings.translates && !model_applied {
            b.noted(untranslated(engine))
        } else {
            b
        };
        c.at(
            if c.inserts() && self.settings.post_paste_capture {
                DictationAction::JoinPane
            } else {
                DictationAction::ForgetPane
            },
        )
    }

    /// The pane is settled: the text goes to the target, to the clipboard, or
    /// nowhere.
    pub open spec fn after_pane(self) -> RunState {
        if !self.inserts() {
            self.settled()
        } else if self.settings.insert_available {
            self.at(DictationAction::RestoreFocus)
        } else {
            self.at(DictationAction::CopyOnly)
        }
    }

    /// The text was copied, where it cannot be inserted.
    pub open spec fn copied_only(self) -> RunState {
        RunState {
            strategy: InsertStrategy::CopyOnly,
            outcome: InsertionOutcome::Copied,
            notice: Some(dictation::copy_only_notice(true, self.settings.platform)),
            ..self
        }.noted(copy_note(self.settings.platform)).settled()
    }

    /// The text could not even be copied.
    pub open spec fn not_copied(self, error: Seq<char>, notice: Seq<char>) -> RunState {
        RunState { outcome: InsertionOutcome::Failed, notice: Some(notice), ..self }.noted(
            "clipboard copy failed: "@ + error,
        ).with_issue(PipelineStage::Insert, PipelineIssueKind::ClipboardFailure, error).settled()
    }

    /// The insertion came back with a strategy.
    pub open spec fn inserted(self, strategy: InsertStrategy, observing: bool) -> RunState {
        RunState {
            strategy,
            outcome: strategy.outcome(),
            observing: self.settings.post_paste_capture && observing,
            notice: if strategy.outcome() is Copied {
                Some(dictation::copied_notice())
            } else {
                self.notice
            },
            ..self
        }.settled()
    }

    /// The insertion failed: the text is to be copied.
    pub open spec fn not_inserted(self, error: Seq<char>) -> RunState {
        RunState { insert_error: Some(error), ..self }.noted("insert error: "@ + error).with_issue(
            PipelineStage::Insert,
            PipelineIssueKind::InjectionFailure,
            error,
        ).at(DictationAction::CopyAfterFailure)
    }

    /// Why the insertion failed.
    pub open spec fn insert_failure(self) -> Seq<char> {
        match self.insert_error {
            Some(error) => error,
            None => Seq::empty(),
        }
    }

    /// The text was copied after an insertion that failed.
    pub open spec fn copied_after_failure(self) -> RunState {
        RunState {
            strategy: InsertStrategy::CopyOnly,
            outcome: InsertionOutcome::Copied,
            notice: Some(dictation::failed_insert_notice(self.insert_failure(), true)),
            ..self
        }.settled()
    }
}

/// The note where a translation was not made.
pub open spec fn untranslated(engine: Seq<char>) -> Seq<char> {
    "翻译未执行：模型未响应（"@ + engine
        + "）。请在「AI 修正」里确认 Ollama 模型名可用（当前机器常见 qwen3.5:9b）"@
}

/// The note where text is copied because it cannot be inserted.
pub open spec fn copy_note(platform: Platform) -> Seq<char> {
    if platform is MacOs {
        "accessibility denied — text copied to clipboard; enable Accessibility for insert"@
    } else {
        "platform copy-only mode — text copied to clipboard"@
    }
}

/// The words of a failed action.
pub open spec fn failure(event: Event) -> Option<Seq<char>> {
    match event {
        Event::Failed(error) => Some(error),
        _ => None,
    }
}

/// Where a run stands after what came of its action.
pub open spec fn dictation_next(run: RunState, event: Event) -> RunState {
    match run.action {
        DictationAction::StopCapture => RunState { capture_error: failure(event), ..run }.at(
            DictationAction::FreezeContext,
        ),
        DictationAction::FreezeContext => run.froze(event).after_context(),
        DictationAction::ReadSamples => match event {
            Event::Samples { count, sample_rate } => {
                let next = RunState {
                    samples: count as int,
                    sample_rate: sample_rate as int,
                    duration_ms: dictation::duration_of(count as int, sample_rate as int),
                    ..run
                };
                if count == 0 {
                    next.rejected(
                        CaptureSignalIssue::AbsoluteSilence,
                        "no audio captured (0 samples) — hold longer or check mic"@,
                        "empty capture"@,
                    )
                } else {
                    next.at(DictationAction::InspectSignal)
                }
            },
            _ => run,
        },
        DictationAction::InspectSignal => match event {
            Event::Signal { finite, audible } => if finite && audible {
                run.archiving_or(DictationAction::Recognize)
            } else {
                let issue = if finite {
                    CaptureSignalIssue::AbsoluteSilence
                } else {
                    CaptureSignalIssue::InvalidSignal
                };
                run.rejected(issue, issue.told(), "near-silent capture rejected before ASR"@)
            },
            _ => run,
        },
        DictationAction::ArchiveContext => RunState { archive_pending: false, ..run }.at(
            if run.failed_stage is Some {
                DictationAction::Persist
            } else {
                DictationAction::Recognize
            },
        ),
        DictationAction::Recognize => match event {
            Event::Failed(error) => RunState {
                asr_engine: dictation::recorded_engine(run.settings.provider, run.settings.engine),
                ..run
            }.failed(PipelineStage::Asr, error).noted("ASR failed"@).at(
                DictationAction::WriteDebug,
            ),
            Event::Recognized { text, enhanced, engine } => RunState {
                asr_text: text,
                enhanced_text: enhanced,
                asr_engine: engine,
                ..run
            }.at(DictationAction::Correct),
            _ => run,
        },
        DictationAction::Correct => match event {
            Event::Failed(error) => RunState { error: Some(error), ..run }.at(
                DictationAction::ClearTarget,
            ),
            Event::Corrected { text, engine, model_applied, fallback } => run.corrected(
                text,
                engine,
                model_applied,
                fallback,
            ),
            _ => run,
        },
        DictationAction::JoinPane => run.after_pane(),
        DictationAction::ForgetPane => RunState { target_cleared: true, ..run }.after_pane(),
        DictationAction::RestoreFocus => match event {
            Event::FrontIsSelf(name) => run.noted(
                "frontmost is self before insert: "@ + name,
            ).at(DictationAction::Insert),
            _ => run.at(DictationAction::Insert),
        },
        DictationAction::Insert => match event {
            Event::Inserted { strategy, observing } => run.inserted(strategy, observing),
            Event::Failed(error) => run.not_inserted(error),
            _ => run,
        },
        DictationAction::CopyOnly => {
            let next = RunState { target_cleared: true, ..run };
            match failure(event) {
                Some(error) => next.not_copied(
                    error,
                    dictation::copy_only_notice(false, run.settings.platform),
                ),
                None => next.copied_only(),
            }
        },
        DictationAction::CopyAfterFailure => match failure(event) {
            Some(error) => run.not_copied(
                error,
                dictation::failed_insert_notice(run.insert_failure(), false),
            ),
            None => run.copied_after_failure(),
        },
        DictationAction::AskDiscard => match event {
            Event::Discard(true) => run.at(DictationAction::Persist),
            _ => run.at(DictationAction::WriteDebug),
        },
        DictationAction::WriteDebug => run.archiving_or(DictationAction::Persist),
        DictationAction::Persist => if run.failed_stage is Some {
            run.at(DictationAction::ClearTarget)
        } else {
            RunState { error: failure(event), ..run }.at(DictationAction::End)
        },
        DictationAction::ClearTarget => RunState { target_cleared: true, ..run }.at(
            DictationAction::End,
        ),
        DictationAction::End => run,
    }
}

/// The event tells what came of the action: the run can go on.
pub open spec fn answers(action: DictationAction, event: Event) -> bool {
    match action {
        DictationAction::ReadSamples => event is Samples,
        DictationAction::InspectSignal => event is Signal,
        DictationAction::Recognize => event is Recognized || event is Failed,
        DictationAction::Correct => event is Corrected || event is Failed,
        DictationAction::Insert => event is Inserted || event is Failed,
        DictationAction::End => false,
        _ => true,
    }
}

/// How far a run is from its end.
pub open spec fn distance(run: RunState) -> nat {
    match run.action {
        DictationAction::StopCapture => 15,
        DictationAction::FreezeContext => 14,
        DictationAction::ReadSamples => 13,
        DictationAction::InspectSignal => 12,
        DictationAction::ArchiveContext => if run.failed_stage is Some {
            3
        } else {
            11
        },
        DictationAction::Recognize => 10,
        DictationAction::Correct => 9,
        DictationAction::JoinPane | DictationAction::ForgetPane => 8,
        DictationAction::RestoreFocus => 7,
        DictationAction::Insert => 6,
        DictationAction::CopyOnly | DictationAction::CopyAfterFailure => 5,
        DictationAction::AskDiscard => 5,
        DictationAction::WriteDebug => 4,
        DictationAction::Persist => 2,
        DictationAction::ClearTarget => 1,
        DictationAction::End => 0,
    }
}

impl RunState {
    /// The text is being put into the target or onto the clipboard.
    pub open spec fn delivering(self) -> bool {
        match self.action {
            DictationAction::RestoreFocus
            | DictationAction::Insert
            | DictationAction::CopyOnly
            | DictationAction::CopyAfterFailure => true,
            _ => false,
        }
    }

    /// The recording is being taken in.
    pub open spec fn listening(self) -> bool {
        match self.action {
            DictationAction::StopCapture
            | DictationAction::FreezeContext
            | DictationAction::ReadSamples
            | DictationAction::InspectSignal => true,
            _ => false,
        }
    }

    /// The recording is being transcribed, or has been.
    pub open spec fn transcribing(self) -> bool {
        match self.action {
            DictationAction::Recognize
            | DictationAction::Correct
            | DictationAction::JoinPane
            | DictationAction::ForgetPane => true,
            _ => self.delivering(),
        }
    }

    /// The text that was inserted, the text that was copied, or a notice.
    pub open spec fn accounted_for(self) -> bool {
        if self.inserts() {
            match self.outcome {
                InsertionOutcome::Inserted => true,
                InsertionOutcome::Copied => self.notice is Some,
                InsertionOutcome::Failed => self.notice is Some || self.strategy is Nothing,
                InsertionOutcome::NotRequested => false,
            }
        } else {
            self.outcome is NotRequested && self.strategy is Nothing
        }
    }

    /// What holds of every run.
    pub open spec fn valid(self) -> bool {
        &&& self.delivering() || self.action is JoinPane ==> self.inserts()
        &&& self.action is CopyOnly ==> !self.settings.insert_available
        &&& self.action is RestoreFocus || self.action is Insert || self.action
            is CopyAfterFailure ==> self.settings.insert_available
        &&& self.listening() || self.transcribing() ==> self.failed_stage is None && self.error
            is None && !self.completed
        &&& self.action is InspectSignal || self.transcribing() ==> self.samples > 0
        &&& self.transcribing() ==> !self.archive_pending
        &&& self.action is ArchiveContext ==> !self.completed && (self.failed_stage is None
            ==> self.samples > 0 && self.error is None)
        &&& self.action is AskDiscard ==> self.failed_stage is Some
        &&& self.action is WriteDebug || self.action is Persist ==> if self.completed {
            self.error is None
        } else {
            self.failed_stage is Some
        }
        &&& self.action is ClearTarget ==> self.error is Some && !self.completed
        &&& self.action is End && !self.completed ==> self.error is Some && self.target_cleared
        &&& self.failed_stage is Some ==> self.error is Some && !self.completed
        &&& self.completed ==> self.accounted_for() && !self.archive_pending && self.samples > 0
        &&& self.completed ==> self.target_cleared || self.inserts()
            && self.settings.insert_available
        &&& !self.completed ==> self.outcome is NotRequested && self.strategy is Nothing
            && self.notice is None && !self.observing
        &&& self.observing ==> self.settings.post_paste_capture && self.inserts()
    }
}

/// Every run ends, and keeps its rules on the way: whatever comes of an action,
/// the run is nearer to its end.
pub proof fn every_run_ends(run: RunState, event: Event)
    requires
        run.valid(),
        answers(run.action, event),
    ensures
        dictation_next(run, event).valid(),
        distance(dictation_next(run, event)) < distance(run),
        dictation_next(run, event).settings == run.settings,
{
}

/// A run begins by its rules.
pub proof fn run_begins_valid(settings: Settings)
    ensures
        RunState::start(settings).valid(),
{
}

/// Silence is never transcribed: a capture without samples, or without a signal,
/// fails before recognition, and the user is told.
pub proof fn silence_is_not_transcribed(run: RunState, event: Event)
    requires
        run.valid(),
        run.action is ReadSamples && event is Samples && event->count == 0 || run.action
            is InspectSignal && event is Signal && !(event->finite && event->audible),
    ensures
        dictation_next(run, event).action is AskDiscard,
        dictation_next(run, event).failed_stage == Some(PipelineStage::Capture),
        dictation_next(run, event).error is Some,
        dictation_next(run, event).issues.len() == run.issues.len() + 1,
{
}

/// Nothing is inserted or copied unasked: only where insertion is on, and there is
/// a text.
pub proof fn nothing_is_delivered_unasked(run: RunState)
    requires
        run.valid(),
        run.delivering() || !(run.outcome is NotRequested),
    ensures
        run.settings.auto_insert,
        run.corrected_text.len() > 0,
{
}

/// A text is never lost without a word: where it was to be inserted and was not,
/// the user has a notice; a failed insertion is always followed by a copy.
pub proof fn text_is_never_lost_silently(run: RunState, error: Seq<char>)
    requires
        run.valid(),
    ensures
        run.completed && run.inserts() && run.outcome is Copied ==> run.notice is Some,
        run.action is Insert ==> dictation_next(run, Event::Failed(error)).action
            is CopyAfterFailure,
        run.action is CopyAfterFailure || run.action is CopyOnly ==> dictation_next(
            run,
            Event::Failed(error),
        ).notice is Some && dictation_next(run, Event::Failed(error)).outcome is Failed,
{
}

/// Edits are watched only where they are to be watched, after an insertion that
/// was asked for.
pub proof fn edits_are_watched_only_where_asked(run: RunState)
    requires
        run.valid(),
        run.observing,
    ensures
        run.completed,
        run.settings.post_paste_capture,
        run.settings.auto_insert,
{
}

/// No target in which edits would be watched is left behind: a run that is over has
/// cleared it, unless its text was to be inserted and could be, and then the insertion
/// has taken it. A run that failed has cleared it in any case, and tells the user why.
pub proof fn no_target_is_left_behind(run: RunState)
    requires
        run.valid(),
        run.action is End,
    ensures
        run.target_cleared || run.completed && run.inserts() && run.settings.insert_available,
        !run.completed ==> run.target_cleared && run.error is Some,
{
}

impl DictationRun {
    /// A run under settings.
    pub fn new(settings: DictationSettings) -> (r: Self)
        ensures
            r@ == RunState::start(settings@),
    {
        let asr_engine: String = settings.engine.as_str().to_owned();
        let run: DictationRun = DictationRun {
            settings,
            action: DictationAction::StopCapture,
            capture_error: None,
            issues: Vec::new(),
            usages: Vec::new(),
            archive_pending: false,
            samples: 0,
            sample_rate: 0,
            duration_ms: 0,
            failed_stage: None,
            error: None,
            asr_engine,
            asr_text: String::new(),
            enhanced_text: String::new(),
            corrected_text: String::new(),
            corrector_engine: String::new(),
            model_applied: false,
            fallback: None,
            notes: Vec::new(),
            insert_error: None,
            strategy: InsertStrategy::Nothing,
            outcome: InsertionOutcome::NotRequested,
            observing: false,
            notice: None,
            completed: false,
            target_cleared: false,
        };
        assert(run@ =~= RunState::start(run.settings@));
        run
    }

    fn push_note(&mut self, note: String)
        ensures
            final(self)@ == old(self)@.noted(note@),
    {
        let ghost before = self@;
        self.notes.push(note);
        assert(text::texts(self.notes@) =~= before.notes.push(note@));
        assert(self@ =~= before.noted(note@));
    }

    fn push_issue(&mut self, stage: PipelineStage, kind: PipelineIssueKind, message: String)
        ensures
            final(self)@ == old(self)@.with_issue(stage, kind, message@),
    {
        let ghost before = self@;
        let ghost words = message@;
        self.issues.push(PipelineStageIssue { stage, kind, message });
        assert(pipeline::issues(self.issues@) =~= before.issues.push(
            pipeline::Issue { stage, kind, message: words },
        ));
        assert(self@ =~= before.with_issue(stage, kind, words));
    }

    fn push_usage(&mut self, usage: ContextStageUsage)
        ensures
            final(self)@ == old(self)@.with_usage(usage@),
    {
        let ghost before = self@;
        self.usages.push(usage);
        assert(usages(self.usages@) =~= before.usages.push(usage@));
        assert(self@ =~= before.with_usage(usage@));
    }

    fn archive_or(&mut self, action: DictationAction)
        ensures
            final(self)@ == old(self)@.archiving_or(action),
    {
        self.action = if self.archive_pending {
            DictationAction::ArchiveContext
        } else {
            action
        };
    }

    fn settle(&mut self)
        ensures
            final(self)@ == old(self)@.settled(),
    {
        self.completed = true;
        self.action = DictationAction::WriteDebug;
    }

    fn inserts(&self) -> (r: bool)
        ensures
            r == self@.inserts(),
    {
        self.settings.auto_insert && !self.corrected_text.as_str().is_empty()
    }

    fn reject(&mut self, issue: CaptureSignalIssue, error: &str, note: &str)
        ensures
            final(self)@ == old(self)@.rejected(issue, error@, note@),
    {
        let ghost before = self@;
        dictation::record_capture_signal_issue(&mut self.issues, issue);
        self.failed_stage = Some(PipelineStage::Capture);
        self.error = Some(error.to_owned());
        self.push_note(note.to_owned());
        self.action = DictationAction::AskDiscard;
        assert(self@ =~= before.rejected(issue, error@, note@));
    }

    fn record_context(&mut self, event: DictationEvent)
        ensures
            final(self)@ == old(self)@.froze(event@),
    {
        match event {
            DictationEvent::ContextMissing(blank) => {
                self.push_usage(
                    dictation::context_not_used(blank, false, "capture_session_missing"),
                );
            },
            DictationEvent::ContextFrozen { usage, partial } => {
                self.archive_pending = partial;
                match usage {
                    Some(usage) => self.push_usage(usage),
                    None => {},
                }
            },
            DictationEvent::ContextFailed { error, blank } => {
                self.push_issue(
                    PipelineStage::Capture,
                    PipelineIssueKind::InputUnavailable,
                    error,
                );
                self.push_usage(
                    dictation::context_not_used(blank, false, "context_persistence_failed"),
                );
            },
            _ => {},
        }
    }

    fn leave_context(&mut self)
        ensures
            final(self)@ == old(self)@.after_context(),
    {
        match &self.capture_error {
            Some(error) => {
                let error: String = error.as_str().to_owned();
                self.failed_stage = Some(PipelineStage::Capture);
                self.error = Some(error);
                self.archive_or(DictationAction::Persist);
            },
            None => {
                self.action = DictationAction::ReadSamples;
            },
        }
    }

    fn correct(
        &mut self,
        words: String,
        engine: String,
        model_applied: bool,
        fallback: Option<String>,
    )
        ensures
            final(self)@ == old(self)@.corrected(
                words@,
                engine@,
                model_applied,
                text::opt(fallback),
            ),
    {
        let untranslated: String = text::glue3(
            "翻译未执行：模型未响应（",
            engine.as_str(),
            "）。请在「AI 修正」里确认 Ollama 模型名可用（当前机器常见 qwen3.5:9b）",
        );
        self.corrected_text = words;
        self.corrector_engine = engine;
        self.model_applied = model_applied;
        self.fallback = fallback;
        if self.asr_text.as_str().is_empty() || text::same(self.asr_text.as_str(), ".") {
            self.push_note("empty/dot ASR".to_owned());
        }
        if self.settings.translates && !model_applied {
            self.push_note(untranslated);
        }
        self.action = if self.inserts() && self.settings.post_paste_capture {
            DictationAction::JoinPane
        } else {
            DictationAction::ForgetPane
        };
    }

    fn leave_pane(&mut self)
        ensures
            final(self)@ == old(self)@.after_pane(),
    {
        if !self.inserts() {
            self.settle();
        } else if self.settings.insert_available {
            self.action = DictationAction::RestoreFocus;
        } else {
            self.action = DictationAction::CopyOnly;
        }
    }

    fn copy_failed(&mut self, error: String, notice: String)
        ensures
            final(self)@ == old(self)@.not_copied(error@, notice@),
    {
        self.outcome = InsertionOutcome::Failed;
        self.notice = Some(notice);
        self.push_note(text::glue("clipboard copy failed: ", error.as_str()));
        self.push_issue(PipelineStage::Insert, PipelineIssueKind::ClipboardFailure, error);
        self.settle();
    }

    fn insert_failed(&mut self, error: String)
        ensures
            final(self)@ == old(self)@.not_inserted(error@),
    {
        self.push_note(text::glue("insert error: ", error.as_str()));
        self.insert_error = Some(error.as_str().to_owned());
        self.push_issue(PipelineStage::Insert, PipelineIssueKind::InjectionFailure, error);
        self.action = DictationAction::CopyAfterFailure;
    }

    fn insert_failure(&self) -> (r: String)
        ensures
            r@ == self@.insert_failure(),
    {
        match &self.insert_error {
            Some(error) => error.as_str().to_owned(),
            None => String::new(),
        }
    }

    fn listen(&mut self, event: DictationEvent)
        requires
            old(self).action is ReadSamples || old(self).action is InspectSignal,
            event matches DictationEvent::Samples { count, .. } ==> count * 1000 <= u64::MAX,
        ensures
            final(self)@ == dictation_next(old(self)@, event@),
    {
        match self.action {
            DictationAction::ReadSamples => match event {
                DictationEvent::Samples { count, sample_rate } => {
                    self.samples = count;
                    self.sample_rate = sample_rate;
                    self.duration_ms = dictation::capture_duration_ms(count, sample_rate);
                    if count == 0 {
                        self.reject(
                            CaptureSignalIssue::AbsoluteSilence,
                            "no audio captured (0 samples) — hold longer or check mic",
                            "empty capture",
                        );
                    } else {
                        self.action = DictationAction::InspectSignal;
                    }
                },
                _ => {},
            },
            _ => match event {
                DictationEvent::Signal { finite, audible } => {
                    match dictation::ensure_audible_capture(finite, audible) {
                        Ok(()) => self.archive_or(DictationAction::Recognize),
                        Err(issue) => self.reject(
                            issue,
                            issue.message(),
                            "near-silent capture rejected before ASR",
                        ),
                    }
                },
                _ => {},
            },
        }
    }

    fn recognize(&mut self, event: DictationEvent)
        requires
            old(self).action is Recognize,
        ensures
            final(self)@ == dictation_next(old(self)@, event@),
    {
        match event {
            DictationEvent::Failed(error) => {
                self.asr_engine = dictation::asr_engine_name(
                    self.settings.provider.as_str(),
                    self.settings.engine,
                );
                self.failed_stage = Some(PipelineStage::Asr);
                self.error = Some(error);
                self.push_note("ASR failed".to_owned());
                self.action = DictationAction::WriteDebug;
            },
            DictationEvent::Recognized { text, enhanced, engine } => {
                self.asr_text = text;
                self.enhanced_text = enhanced;
                self.asr_engine = engine;
                self.action = DictationAction::Correct;
            },
            _ => {},
        }
    }

    fn finish_insert(&mut self, event: DictationEvent)
        requires
            old(self).action is Insert,
        ensures
            final(self)@ == dictation_next(old(self)@, event@),
    {
        match event {
            DictationEvent::Inserted { strategy, observing } => {
                self.strategy = strategy;
                self.outcome = pipeline::insertion_outcome_for_strategy(strategy);
                self.observing = self.settings.post_paste_capture && observing;
                match self.outcome {
                    InsertionOutcome::Copied => {
                        self.notice = Some(dictation::copied_toast_notice());
                    },
                    _ => {},
                }
                self.settle();
            },
            DictationEvent::Failed(error) => self.insert_failed(error),
            _ => {},
        }
    }

    fn finish_copy_only(&mut self, event: DictationEvent)
        requires
            old(self).action is CopyOnly,
        ensures
            final(self)@ == dictation_next(old(self)@, event@),
    {
        self.target_cleared = true;
        match failure_of(event) {
            Some(error) => {
                let notice: String = dictation::copy_only_fallback_notice(
                    false,
                    self.settings.platform,
                );
                self.copy_failed(error, notice);
            },
            None => {
                self.strategy = InsertStrategy::CopyOnly;
                self.outcome = InsertionOutcome::Copied;
                self.notice = Some(
                    dictation::copy_only_fallback_notice(true, self.settings.platform),
                );
                let note: &str = match self.settings.platform {
                    Platform::MacOs => "accessibility denied — text copied to clipboard; enable Accessibility for insert",
                    _ => "platform copy-only mode — text copied to clipboard",
                };
                self.push_note(note.to_owned());
                self.settle();
            },
        }
    }

    fn finish_copy_after_failure(&mut self, event: DictationEvent)
        requires
            old(self).action is CopyAfterFailure,
        ensures
            final(self)@ == dictation_next(old(self)@, event@),
    {
        let failed: String = self.insert_failure();
        match failure_of(event) {
            Some(error) => {
                let notice: String = dictation::insert_failure_notice(failed.as_str(), false);
                self.copy_failed(error, notice);
            },
            None => {
                self.strategy = InsertStrategy::CopyOnly;
                self.outcome = InsertionOutcome::Copied;
                self.notice = Some(dictation::insert_failure_notice(failed.as_str(), true));
                self.settle();
            },
        }
    }

    /// What the corrector is handed, once it is its turn: the enhanced text, and not
    /// the one that is recorded.
    pub fn text_to_correct(&self) -> (r: Option<&str>)
        ensures
            r is Some <==> self.action is Correct,
            r matches Some(text) ==> text@ == self@.enhanced_text,
    {
        match self.action {
            DictationAction::Correct => Some(self.enhanced_text.as_str()),
            _ => None,
        }
    }

    /// Takes what came of the run's action. An event that does not answer the
    /// action changes nothing.
    pub fn advance(&mut self, event: DictationEvent)
        requires
            event matches DictationEvent::Samples { count, .. } ==> count * 1000 <= u64::MAX,
        ensures
            final(self)@ == dictation_next(old(self)@, event@),
    {
        match self.action {
            DictationAction::StopCapture => {
                self.capture_error = failure_of(event);
                self.action = DictationAction::FreezeContext;
            },
            DictationAction::FreezeContext => {
                self.record_context(event);
                self.leave_context();
            },
            DictationAction::ReadSamples => self.listen(event),
            DictationAction::InspectSignal => self.listen(event),
            DictationAction::ArchiveContext => {
                self.archive_pending = false;
                self.action = if self.failed_stage.is_some() {
                    DictationAction::Persist
                } else {
                    DictationAction::Recognize
                };
            },
            DictationAction::Recognize => self.recognize(event),
            DictationAction::Correct => match event {
                DictationEvent::Failed(error) => {
                    self.error = Some(error);
                    self.action = DictationAction::ClearTarget;
                },
                DictationEvent::Corrected { text, engine, model_applied, fallback } => {
                    self.correct(text, engine, model_applied, fallback);
                },
                _ => {},
            },
            DictationAction::JoinPane => self.leave_pane(),
            DictationAction::ForgetPane => {
                self.target_cleared = true;
                self.leave_pane();
            },
            DictationAction::RestoreFocus => {
                match event {
                    DictationEvent::FrontIsSelf(name) => self.push_note(
                        text::glue("frontmost is self before insert: ", name.as_str()),
                    ),
                    _ => {},
                }
                self.action = DictationAction::Insert;
            },
            DictationAction::Insert => self.finish_insert(event),
            DictationAction::CopyOnly => self.finish_copy_only(event),
            DictationAction::CopyAfterFailure => self.finish_copy_after_failure(event),
            DictationAction::AskDiscard => {
                self.action = match event {
                    DictationEvent::Discard(true) => DictationAction::Persist,
                    _ => DictationAction::WriteDebug,
                };
            },
            DictationAction::WriteDebug => self.archive_or(DictationAction::Persist),
            DictationAction::Persist => {
                if self.failed_stage.is_some() {
                    self.action = DictationAction::ClearTarget;
                } else {
                    self.error = failure_of(event);
                    self.action = DictationAction::End;
                }
            },
            DictationAction::ClearTarget => {
                self.target_cleared = true;
                self.action = DictationAction::End;
            },
            DictationAction::End => {},
        }
    }

    /// The text that was inserted, for the record.
    pub fn inserted_text(&self) -> (r: Option<String>)
        ensures
            text::opt(r) == if self.outcome is Inserted {
                Some(self.corrected_text@)
            } else {
                None
            },
    {
        match self.outcome {
            InsertionOutcome::Inserted => Some(self.corrected_text.as_str().to_owned()),
            _ => None,
        }
    }

    /// What the session of the run is recorded with.
    pub fn recorded_session(&self) -> (r: RecordedSession)
        ensures
            r.records(self@),
    {
        let done: bool = self.completed;
        RecordedSession {
            completed: done,
            insert_strategy: self.strategy,
            asr_engine: self.asr_engine.as_str().to_owned(),
            asr_raw: text::only_if(done, self.asr_text.as_str()),
            corrected: text::only_if(done, self.corrected_text.as_str()),
            pasted: text::only_if(done, self.corrected_text.as_str()),
            corrector_engine: text::only_if(done, self.corrector_engine.as_str()),
        }
    }

    /// What a run that is over comes to: a text, or what the user is told.
    pub fn result(&self) -> (r: Result<TranscribeOutcome, String>)
        ensures
            match self@.error {
                Some(error) => text::fails(r, error),
                None => r matches Ok(outcome) && outcome.reports(self@),
            },
    {
        match &self.error {
            Some(error) => Err(error.as_str().to_owned()),
            None => {
                let inserted: bool = match self.outcome {
                    InsertionOutcome::Inserted => true,
                    _ => false,
                };
                Ok(
                    TranscribeOutcome {
                        text: self.corrected_text.as_str().to_owned(),
                        asr_text: self.asr_text.as_str().to_owned(),
                        corrected_text: self.corrected_text.as_str().to_owned(),
                        model_applied: self.model_applied,
                        fallback_reason: text::copy_opt(&self.fallback),
                        asr_engine: self.asr_engine.as_str().to_owned(),
                        corrector_engine: self.corrector_engine.as_str().to_owned(),
                        sample_rate: self.sample_rate,
                        num_samples: self.samples,
                        duration_ms: self.duration_ms,
                        watch_post_paste: inserted && self.observing,
                        post_paste_seconds: self.settings.post_paste_seconds,
                        insert_notice: text::copy_opt(&self.notice),
                    },
                )
            },
        }
    }
}

fn failure_of(event: DictationEvent) -> (r: Option<String>)
    ensures
        text::opt(r) == failure(event@),
{
    match event {
        DictationEvent::Failed(error) => Some(error),
        _ => None,
    }
}

/// What a session is recorded with: its texts only where it is complete.
#[derive(Debug, Clone, PartialEq, Eq)]
pub struct RecordedSession {
    /// Completed, or else failed.
    pub completed: bool,
    pub insert_strategy: InsertStrategy,
    pub asr_engine: String,
    pub asr_raw: Option<String>,
    pub corrected: Option<String>,
    pub pasted: Option<String>,
    pub corrector_engine: Option<String>,
}

impl RecordedSession {
    /// The record is that of a run.
    pub open spec fn records(self, run: RunState) -> bool {
        &&& self.completed == run.completed
        &&& self.insert_strategy == run.strategy
        &&& self.asr_engine@ == run.asr_engine
        &&& text::opt(self.asr_raw) == text::given(run.completed, run.asr_text)
        &&& text::opt(self.corrected) == text::given(run.completed, run.corrected_text)
        &&& text::opt(self.pasted) == text::given(run.completed, run.corrected_text)
        &&& text::opt(self.corrector_engine) == text::given(run.completed, run.corrector_engine)
    }
}

/// What a dictation came to, beside the session it is recorded in.
#[derive(Debug, Clone, PartialEq, Eq)]
pub struct TranscribeOutcome {
    pub text: String,
    pub asr_text: String,
    pub corrected_text: String,
    pub model_applied: bool,
    pub fallback_reason: Option<String>,
    pub asr_engine: String,
    pub corrector_engine: String,
    pub sample_rate: u32,
    pub num_samples: usize,
    pub duration_ms: u64,
    /// Post-paste edits are being watched.
    pub watch_post_paste: bool,
    pub post_paste_seconds: u64,
    /// What the user is told of the insertion, distinct from a failed recognition
    /// and from a corrector that fell back.
    pub insert_notice: Option<String>,
}

impl TranscribeOutcome {
    /// The outcome is that of a run.
    pub open spec fn reports(self, run: RunState) -> bool {
        &&& self.text@ == run.corrected_text
        &&& self.asr_text@ == run.asr_text
        &&& self.corrected_text@ == run.corrected_text
        &&& self.model_applied == run.model_applied
        &&& text::opt(self.fallback_reason) == run.fallback
        &&& self.asr_engine@ == run.asr_engine
        &&& self.corrector_engine@ == run.corrector_engine
        &&& self.sample_rate == run.sample_rate
        &&& self.num_samples == run.samples
        &&& self.duration_ms == run.duration_ms
        &&& self.watch_post_paste == (run.outcome is Inserted && run.observing)
        &&& self.post_paste_seconds == run.settings.post_paste_seconds
        &&& text::opt(self.insert_notice) == run.notice
    }
}

// ---------------------------------------------------------------------------
// Laws of a dictation
// ---------------------------------------------------------------------------

/// What is recognized is kept as it is: the text for the record, the enhanced one for
/// the corrector, which is next. A recognition that fails ends the attempt with its
/// words.
pub proof fn recognized_text_is_kept(
    run: RunState,
    text: Seq<char>,
    enhanced: Seq<char>,
    engine: Seq<char>,
    error: Seq<char>,
)
    requires
        run.action is Recognize,
    ensures
        ({
            let next = dictation_next(run, Event::Recognized { text, enhanced, engine });
            &&& next.asr_text == text
            &&& next.enhanced_text == enhanced
            &&& next.asr_engine == engine
            &&& next.action is Correct
            &&& next.error == run.error
            &&& next.failed_stage == run.failed_stage
        }),
        ({
            let next = dictation_next(run, Event::Failed(error));
            &&& next.error == Some(error)
            &&& next.failed_stage == Some(PipelineStage::Asr)
            &&& next.action is WriteDebug
            &&& next.asr_text == run.asr_text
            &&& next.notes.len() == run.notes.len() + 1
            &&& next.asr_engine == if text::begins(run.settings.provider, "local"@) {
                run.settings.engine.name()
            } else {
                run.settings.provider
            }
        }),
{
}

/// The corrector's answer is the text of the dictation, whether a model made it or
/// the rules did: whatever `model_applied` and `fallback` say, nothing of it is
/// dropped, and where there is something to insert the run goes on to insert it.
pub proof fn corrected_text_is_the_answer(
    run: RunState,
    text: Seq<char>,
    engine: Seq<char>,
    model_applied: bool,
    fallback: Option<Seq<char>>,
    error: Seq<char>,
)
    requires
        run.action is Correct,
    ensures
        ({
            let next = dictation_next(
                run,
                Event::Corrected { text, engine, model_applied, fallback },
            );
            &&& next.corrected_text == text
            &&& next.corrector_engine == engine
            &&& next.model_applied == model_applied
            &&& next.fallback == fallback
            &&& next.error == run.error
            &&& next.failed_stage == run.failed_stage
            &&& next.completed == run.completed
            &&& next.action == if run.settings.auto_insert && text.len() > 0
                && run.settings.post_paste_capture {
                DictationAction::JoinPane
            } else {
                DictationAction::ForgetPane
            }
        }),
        ({
            let next = dictation_next(run, Event::Failed(error));
            next.error == Some(error) && next.action is ClearTarget && next.corrected_text
                == run.corrected_text
        }),
{
}

/// A note is made of a dictation that said nothing, and one where a translation was
/// asked for and no model made it; the second names the corrector.
pub proof fn odd_answers_are_noted(
    run: RunState,
    text: Seq<char>,
    engine: Seq<char>,
    model_applied: bool,
    fallback: Option<Seq<char>>,
)
    requires
        run.action is Correct,
    ensures
        ({
            let next = dictation_next(
                run,
                Event::Corrected { text, engine, model_applied, fallback },
            );
            let silent = run.asr_text.len() == 0 || run.asr_text == "."@;
            let untold = run.settings.translates && !model_applied;
            &&& next.notes.len() == run.notes.len() + (if silent {
                1int
            } else {
                0
            }) + (if untold {
                1int
            } else {
                0
            })
            &&& untold ==> text::occurs(next.notes.last(), engine)
            &&& silent ==> next.notes[run.notes.len() as int] == "empty/dot ASR"@
        }),
{
    let next = dictation_next(run, Event::Corrected { text, engine, model_applied, fallback });
    if run.settings.translates && !model_applied {
        let note = untranslated(engine);
        let head = "翻译未执行：模型未响应（"@;
        assert(note.subrange(head.len() as int, head.len() as int + engine.len()) =~= engine);
        assert(text::occurs_at(note, engine, head.len() as int));
        assert(next.notes.last() == note);
    }
}

/// A text that is to be inserted goes to the target where text can be inserted, and to
/// the clipboard where it cannot; without a text, or where insertion is off, the
/// dictation is complete with nothing delivered.
pub proof fn text_goes_where_it_can(run: RunState, event: Event)
    requires
        run.action is JoinPane || run.action is ForgetPane,
    ensures
        ({
            let next = dictation_next(run, event);
            let asked = run.settings.auto_insert && run.corrected_text.len() > 0;
            &&& asked && run.settings.insert_available ==> next.action is RestoreFocus
                && !next.completed == !run.completed
            &&& asked && !run.settings.insert_available ==> next.action is CopyOnly
                && !next.completed == !run.completed
            &&& !asked ==> next.action is WriteDebug && next.completed
            &&& next.outcome == run.outcome
            &&& next.strategy == run.strategy
            &&& next.notice == run.notice
            &&& next.target_cleared == (run.target_cleared || run.action is ForgetPane)
        }),
        run.action is RestoreFocus ==> dictation_next(run, event).action is Insert,
{
}

/// What comes of an insertion is recorded as it is. A text that was pasted, set or
/// typed is inserted; one that was only copied is told to be; one that failed is
/// copied next.
pub proof fn insertion_is_recorded_as_it_is(
    run: RunState,
    strategy: InsertStrategy,
    observing: bool,
    error: Seq<char>,
)
    requires
        run.action is Insert,
    ensures
        ({
            let next = dictation_next(run, Event::Inserted { strategy, observing });
            &&& next.completed
            &&& next.action is WriteDebug
            &&& next.strategy == strategy
            &&& strategy is Paste || strategy is Ax || strategy is Type ==> next.outcome is Inserted
                && next.notice == run.notice
            &&& strategy is CopyOnly ==> next.outcome is Copied && next.notice is Some
            &&& strategy is Nothing ==> next.outcome is Failed && next.notice == run.notice
            &&& next.observing == (observing && run.settings.post_paste_capture)
        }),
        ({
            let next = dictation_next(run, Event::Failed(error));
            &&& next.action is CopyAfterFailure
            &&& next.insert_error == Some(error)
            &&& next.issues.len() == run.issues.len() + 1
            &&& next.issues.last().message == error
            &&& next.issues.last().stage is Insert
            &&& next.issues.last().kind is InjectionFailure
            &&& next.notes.len() == run.notes.len() + 1
            &&& !next.completed == !run.completed
        }),
{
}

/// A text that is copied is recorded and told as a copy; where even that fails the
/// failure is recorded and told, with its words.
pub proof fn copy_is_recorded_as_it_is(run: RunState, done: Event, error: Seq<char>)
    requires
        run.action is CopyOnly || run.action is CopyAfterFailure,
        !(done is Failed),
    ensures
        ({
            let next = dictation_next(run, done);
            &&& next.completed
            &&& next.action is WriteDebug
            &&& next.outcome is Copied
            &&& next.strategy is CopyOnly
            &&& next.notice is Some
            &&& next.issues == run.issues
            &&& next.target_cleared == (run.target_cleared || run.action is CopyOnly)
        }),
        ({
            let next = dictation_next(run, Event::Failed(error));
            &&& next.completed
            &&& next.action is WriteDebug
            &&& next.outcome is Failed
            &&& next.strategy == run.strategy
            &&& next.notice is Some
            &&& next.issues.len() == run.issues.len() + 1
            &&& next.issues.last().message == error
            &&& next.issues.last().stage is Insert
            &&& next.issues.last().kind is ClipboardFailure
            &&& next.target_cleared == (run.target_cleared || run.action is CopyOnly)
        }),
{
}

/// A recording is taken in as it is: its samples, their rate and its length in
/// milliseconds. One without samples is not transcribed.
pub proof fn recording_is_taken_in(run: RunState, count: nat, sample_rate: nat)
    requires
        run.action is ReadSamples,
    ensures
        ({
            let next = dictation_next(run, Event::Samples { count, sample_rate });
            &&& next.samples == count
            &&& next.sample_rate == sample_rate
            &&& sample_rate > 0 ==> next.duration_ms * sample_rate <= count * 1000
                && count * 1000 < (next.duration_ms + 1) * sample_rate
            &&& sample_rate == 0 ==> next.duration_ms == 0
            &&& count > 0 ==> next.action is InspectSignal && next.error == run.error
                && next.issues == run.issues
            &&& count == 0 ==> next.action is AskDiscard && next.error is Some
                && next.failed_stage == Some(PipelineStage::Capture)
        }),
{
    if sample_rate > 0 {
        let n = count * 1000;
        let r = sample_rate as int;
        vstd::arithmetic::div_mod::lemma_fundamental_div_mod(n as int, r);
        vstd::arithmetic::div_mod::lemma_mod_bound(n as int, r);
        let q = n as int / r;
        assert(r * q == q * r) by (nonlinear_arith);
        assert((q + 1) * r == q * r + r) by (nonlinear_arith);
    }
}

/// A signal that is there is transcribed, after the late context is archived where
/// there is some; one that is silent, or no signal at all, is not, and the user is
/// told which it is.
pub proof fn audible_signal_is_transcribed(run: RunState, finite: bool, audible: bool, other: Event)
    requires
        run.action is InspectSignal,
    ensures
        ({
            let next = dictation_next(run, Event::Signal { finite, audible });
            &&& finite && audible ==> next.failed_stage == run.failed_stage && next.error
                == run.error && next.issues == run.issues && next.action
                == if run.archive_pending {
                DictationAction::ArchiveContext
            } else {
                DictationAction::Recognize
            }
            &&& !(finite && audible) ==> next.action is AskDiscard && next.error is Some
                && next.failed_stage == Some(PipelineStage::Capture) && next.issues.len()
                == run.issues.len() + 1
            &&& finite && !audible ==> next.issues.last().kind is AbsoluteSilence
            &&& !finite ==> next.issues.last().kind is InputUnavailable
        }),
        dictation_next(run, Event::Signal { finite: true, audible: false }).error != dictation_next(
            run,
            Event::Signal { finite: false, audible: false },
        ).error,
{
    reveal_strlit("未检测到麦克风信号。请检查麦克风权限、输入设备或静音状态后重试。");
    reveal_strlit("录音数据无效，请检查输入设备后重试。");
    assert("未检测到麦克风信号。请检查麦克风权限、输入设备或静音状态后重试。"@[0] == '未');
    assert("录音数据无效，请检查输入设备后重试。"@[0] == '录');
}

/// A capture that could not be stopped fails with its words once its context is
/// recorded; one that could goes on to its samples. What is frozen of the context is
/// recorded as it is, and late context is archived where there is more to come.
pub proof fn context_is_recorded_before_the_samples(
    run: RunState,
    event: Event,
    usage: Option<pipeline::StageUsage>,
    partial: bool,
    error: Seq<char>,
    blank: pipeline::StageUsage,
)
    ensures
        run.action is StopCapture ==> dictation_next(run, event).action is FreezeContext
            && dictation_next(run, Event::Failed(error)).capture_error == Some(error) && (!(event
            is Failed) ==> dictation_next(run, event).capture_error is None),
        run.action is FreezeContext ==> {
            let frozen = dictation_next(run, Event::ContextFrozen { usage, partial });
            let missing = dictation_next(run, Event::ContextMissing(blank));
            let failed = dictation_next(run, Event::ContextFailed { error, blank });
            &&& frozen.archive_pending == partial
            &&& frozen.usages == match usage {
                Some(usage) => run.usages.push(usage),
                None => run.usages,
            }
            &&& frozen.issues == run.issues
            &&& missing.usages.len() == run.usages.len() + 1
            &&& !missing.usages.last().captured
            &&& missing.usages.last().not_used_reason == Some("capture_session_missing"@)
            &&& missing.usages.last().stage is Asr
            &&& missing.issues == run.issues
            &&& failed.issues == run.issues.push(
                pipeline::Issue {
                    stage: PipelineStage::Capture,
                    kind: PipelineIssueKind::InputUnavailable,
                    message: error,
                },
            )
            &&& failed.usages.len() == run.usages.len() + 1
            &&& !failed.usages.last().captured
            &&& failed.usages.last().not_used_reason == Some("context_persistence_failed"@)
        },
        run.action is FreezeContext && run.capture_error is None ==> dictation_next(
            run,
            event,
        ).action is ReadSamples && dictation_next(run, event).error == run.error,
        run.action is FreezeContext && run.capture_error is Some ==> {
            let next = dictation_next(run, event);
            &&& next.error == run.capture_error
            &&& next.failed_stage == Some(PipelineStage::Capture)
            &&& next.action == if next.archive_pending {
                DictationAction::ArchiveContext
            } else {
                DictationAction::Persist
            }
        },
{
}

/// The end of a run: late context is archived, once; a short silent capture is
/// dropped only where that is answered; what was made is kept, and where it cannot be
/// kept the user is told; a run that failed clears its target before it ends.
pub proof fn run_is_brought_to_its_end(run: RunState, event: Event, error: Seq<char>)
    ensures
        run.action is ArchiveContext ==> !dictation_next(run, event).archive_pending
            && dictation_next(run, event).action == if run.failed_stage is Some {
            DictationAction::Persist
        } else {
            DictationAction::Recognize
        },
        run.action is AskDiscard ==> dictation_next(run, Event::Discard(true)).action is Persist
            && dictation_next(run, Event::Discard(false)).action is WriteDebug,
        run.action is WriteDebug ==> dictation_next(run, event).action == if run.archive_pending {
            DictationAction::ArchiveContext
        } else {
            DictationAction::Persist
        },
        run.action is Persist && run.failed_stage is Some ==> dictation_next(run, event).action
            is ClearTarget && dictation_next(run, event).error == run.error,
        run.action is Persist && run.failed_stage is None ==> {
            &&& dictation_next(run, event).action is End
            &&& !(event is Failed) ==> dictation_next(run, event).error is None
            &&& dictation_next(run, Event::Failed(error)).error == Some(error)
        },
        run.action is ClearTarget ==> dictation_next(run, event).action is End && dictation_next(
            run,
            event,
        ).target_cleared && dictation_next(run, event).error == run.error,
        run.action is End ==> dictation_next(run, event) == run,
{
}

/// What is settled in a run stays in the next state of it.
spec fn keeps(run: RunState, next: RunState) -> bool {
    &&& next.settings == run.settings
    &&& !(run.action is Recognize) ==> next.asr_text == run.asr_text && next.enhanced_text
        == run.enhanced_text && next.asr_engine == run.asr_engine
    &&& !(run.action is Correct) ==> next.corrected_text == run.corrected_text
        && next.corrector_engine == run.corrector_engine && next.model_applied
        == run.model_applied && next.fallback == run.fallback
    &&& !(run.action is ReadSamples) ==> next.samples == run.samples && next.sample_rate
        == run.sample_rate && next.duration_ms == run.duration_ms
    &&& run.completed ==> next.completed
    &&& run.target_cleared ==> next.target_cleared
    &&& !(run.action is Insert || run.action is CopyOnly || run.action is CopyAfterFailure)
        ==> next.outcome == run.outcome && next.strategy == run.strategy && next.notice
        == run.notice && next.observing == run.observing
    &&& !(run.action is Insert) ==> next.insert_error == run.insert_error
}

/// The records of a run stand at the beginning of those of its next state.
spec fn grows(run: RunState, next: RunState) -> bool {
    &&& run.notes.len() <= next.notes.len()
    &&& next.notes.take(run.notes.len() as int) == run.notes
    &&& run.issues.len() <= next.issues.len()
    &&& next.issues.take(run.issues.len() as int) == run.issues
    &&& run.usages.len() <= next.usages.len()
    &&& next.usages.take(run.usages.len() as int) == run.usages
}

proof fn lemma_listening_keeps(run: RunState, event: Event)
    requires
        run.action is StopCapture || run.action is FreezeContext || run.action is ReadSamples || run.action is InspectSignal,
    ensures
        keeps(run, dictation_next(run, event)),
        grows(run, dictation_next(run, event)),
{
    let next = dictation_next(run, event);
    assert(next.notes.take(run.notes.len() as int) =~= run.notes);
    assert(next.issues.take(run.issues.len() as int) =~= run.issues);
    assert(next.usages.take(run.usages.len() as int) =~= run.usages);
}

proof fn lemma_hearing_keeps(run: RunState, event: Event)
    requires
        run.action is ArchiveContext || run.action is Recognize || run.action is Correct,
    ensures
        keeps(run, dictation_next(run, event)),
        grows(run, dictation_next(run, event)),
{
    let next = dictation_next(run, event);
    assert(next.notes.take(run.notes.len() as int) =~= run.notes);
    assert(next.issues.take(run.issues.len() as int) =~= run.issues);
    assert(next.usages.take(run.usages.len() as int) =~= run.usages);
}

proof fn lemma_delivery_keeps(run: RunState, event: Event)
    requires
        run.action is JoinPane || run.action is ForgetPane || run.action is RestoreFocus || run.action is Insert || run.action is CopyOnly || run.action is CopyAfterFailure,
    ensures
        keeps(run, dictation_next(run, event)),
        grows(run, dictation_next(run, event)),
{
    let next = dictation_next(run, event);
    assert(next.notes.take(run.notes.len() as int) =~= run.notes);
    assert(next.issues.take(run.issues.len() as int) =~= run.issues);
    assert(next.usages.take(run.usages.len() as int) =~= run.usages);
}

proof fn lemma_ending_keeps(run: RunState, event: Event)
    requires
        run.action is AskDiscard || run.action is WriteDebug || run.action is Persist || run.action is ClearTarget || run.action is End,
    ensures
        keeps(run, dictation_next(run, event)),
        grows(run, dictation_next(run, event)),
{
    let next = dictation_next(run, event);
    assert(next.notes.take(run.notes.len() as int) =~= run.notes);
    assert(next.issues.take(run.issues.len() as int) =~= run.issues);
    assert(next.usages.take(run.usages.len() as int) =~= run.usages);
}

/// What is settled stays: only recognition sets the recognized text, only correction
/// the corrected one, only the recording its length, and a text that was delivered is
/// not taken back.
pub proof fn what_is_settled_stays(run: RunState, event: Event)
    ensures
        ({
            let next = dictation_next(run, event);
            &&& next.settings == run.settings
            &&& !(run.action is Recognize) ==> next.asr_text == run.asr_text && next.enhanced_text
                == run.enhanced_text && next.asr_engine == run.asr_engine
            &&& !(run.action is Correct) ==> next.corrected_text == run.corrected_text
                && next.corrector_engine == run.corrector_engine && next.model_applied
                == run.model_applied && next.fallback == run.fallback
            &&& !(run.action is ReadSamples) ==> next.samples == run.samples && next.sample_rate
                == run.sample_rate && next.duration_ms == run.duration_ms
            &&& run.completed ==> next.completed
            &&& run.target_cleared ==> next.target_cleared
            &&& !(run.action is Insert || run.action is CopyOnly || run.action is CopyAfterFailure)
                ==> next.outcome == run.outcome && next.strategy == run.strategy && next.notice
                == run.notice && next.observing == run.observing
            &&& !(run.action is Insert) ==> next.insert_error == run.insert_error
        }),
{
    if run.action is StopCapture || run.action is FreezeContext || run.action is ReadSamples
        || run.action is InspectSignal {
        lemma_listening_keeps(run, event);
    } else if run.action is ArchiveContext || run.action is Recognize || run.action is Correct {
        lemma_hearing_keeps(run, event);
    } else if run.action is AskDiscard || run.action is WriteDebug || run.action is Persist
        || run.action is ClearTarget || run.action is End {
        lemma_ending_keeps(run, event);
    } else {
        lemma_delivery_keeps(run, event);
    }
}

/// What a run records is never taken out again: notes, issues and usages grow at their
/// end.
pub proof fn records_only_grow(run: RunState, event: Event)
    ensures
        run.notes.len() <= dictation_next(run, event).notes.len(),
        dictation_next(run, event).notes.take(run.notes.len() as int) == run.notes,
        run.issues.len() <= dictation_next(run, event).issues.len(),
        dictation_next(run, event).issues.take(run.issues.len() as int) == run.issues,
        run.usages.len() <= dictation_next(run, event).usages.len(),
        dictation_next(run, event).usages.take(run.usages.len() as int) == run.usages,
{
    if run.action is StopCapture || run.action is FreezeContext || run.action is ReadSamples
        || run.action is InspectSignal {
        lemma_listening_keeps(run, event);
    } else if run.action is ArchiveContext || run.action is Recognize || run.action is Correct {
        lemma_hearing_keeps(run, event);
    } else if run.action is AskDiscard || run.action is WriteDebug || run.action is Persist
        || run.action is ClearTarget || run.action is End {
        lemma_ending_keeps(run, event);
    } else {
        lemma_delivery_keeps(run, event);
    }
}

/// A run after all of `events`.
pub open spec fn played(run: RunState, events: Seq<Event>) -> RunState
    decreases events.len(),
{
    if events.len() == 0 {
        run
    } else {
        dictation_next(played(run, events.drop_last()), events.last())
    }
}

/// What a run is made of comes from its events and from nowhere else. After any
/// events at all, a dictation that is complete has the text of one of the corrector's
/// answers, whatever it says of the model, and the recognized text of one of the
/// recognitions. Where insertion is on and that text is not empty, it was inserted or
/// copied, or its delivery failed; where not, nothing was delivered.
pub proof fn dictation_delivers_the_answer(settings: Settings, events: Seq<Event>)
    ensures
        ({
            let run = played(RunState::start(settings), events);
            &&& run.settings == settings
            &&& run.completed && settings.auto_insert && run.corrected_text.len() > 0
                ==> !(run.outcome is NotRequested)
            &&& !(settings.auto_insert && run.corrected_text.len() > 0) ==> run.outcome
                is NotRequested
            &&& run.completed ==> exists|i: int|
                0 <= i < events.len() && (#[trigger] events[i]) is Corrected
                    && events[i]->Corrected_text == run.corrected_text
                    && events[i]->Corrected_engine == run.corrector_engine
                    && events[i]->model_applied == run.model_applied && events[i]->fallback
                    == run.fallback
            &&& run.completed ==> exists|i: int|
                0 <= i < events.len() && (#[trigger] events[i]) is Recognized
                    && events[i]->Recognized_text == run.asr_text && events[i]->enhanced
                    == run.enhanced_text && events[i]->Recognized_engine == run.asr_engine
        }),
{
    lemma_played(settings, events);
    let run = played(RunState::start(settings), events);
    if run.completed {
        let i = choose|i: int| 0 <= i < events.len() && answered(run, #[trigger] events[i]);
        assert(events[i] is Corrected);
        let k = choose|k: int| 0 <= k < events.len() && heard(run, #[trigger] events[k]);
        assert(events[k] is Recognized);
    }
}

/// The run has taken a recognition in.
spec fn past_recognition(run: RunState) -> bool {
    run.action is Correct || past_correction(run)
}

/// The run has taken a correction in.
spec fn past_correction(run: RunState) -> bool {
    run.completed || match run.action {
        DictationAction::JoinPane
        | DictationAction::ForgetPane
        | DictationAction::RestoreFocus
        | DictationAction::Insert
        | DictationAction::CopyOnly
        | DictationAction::CopyAfterFailure => true,
        _ => false,
    }
}

/// What keeps a run's texts and its outcome together.
spec fn consistent(run: RunState) -> bool {
    let asked = run.settings.auto_insert && run.corrected_text.len() > 0;
    &&& run.completed && asked ==> !(run.outcome is NotRequested)
    &&& !run.completed || !asked ==> run.outcome is NotRequested
    &&& run.completed ==> run.failed_stage is None && !run.archive_pending && (run.action
        is WriteDebug || run.action is Persist || run.action is End)
    &&& run.action is RestoreFocus || run.action is Insert || run.action is CopyOnly || run.action
        is CopyAfterFailure ==> asked
    &&& past_recognition(run) && !run.completed || run.action is Recognize ==> run.failed_stage
        is None && !run.archive_pending
    &&& run.action is StopCapture || run.action is FreezeContext || run.action is ReadSamples
        || run.action is InspectSignal ==> run.failed_stage is None
    &&& (run.action is AskDiscard || run.action is WriteDebug || run.action is Persist)
        && !run.completed ==> run.failed_stage is Some
}

proof fn lemma_listening_consistent(run: RunState, event: Event)
    requires
        consistent(run),
        run.action is StopCapture || run.action is FreezeContext || run.action is ReadSamples || run.action is InspectSignal,
    ensures
        consistent(dictation_next(run, event)),
        dictation_next(run, event).settings == run.settings,
        past_correction(dictation_next(run, event)) ==> past_correction(run) || run.action
            is Correct && event is Corrected,
        past_recognition(dictation_next(run, event)) ==> past_recognition(run) || run.action
            is Recognize && event is Recognized,
{
}

proof fn lemma_hearing_consistent(run: RunState, event: Event)
    requires
        consistent(run),
        run.action is ArchiveContext || run.action is Recognize || run.action is Correct,
    ensures
        consistent(dictation_next(run, event)),
        dictation_next(run, event).settings == run.settings,
        past_correction(dictation_next(run, event)) ==> past_correction(run) || run.action
            is Correct && event is Corrected,
        past_recognition(dictation_next(run, event)) ==> past_recognition(run) || run.action
            is Recognize && event is Recognized,
{
}

proof fn lemma_delivery_consistent(run: RunState, event: Event)
    requires
        consistent(run),
        run.action is JoinPane || run.action is ForgetPane || run.action is RestoreFocus || run.action is Insert || run.action is CopyOnly || run.action is CopyAfterFailure,
    ensures
        consistent(dictation_next(run, event)),
        dictation_next(run, event).settings == run.settings,
        past_correction(dictation_next(run, event)) ==> past_correction(run) || run.action
            is Correct && event is Corrected,
        past_recognition(dictation_next(run, event)) ==> past_recognition(run) || run.action
            is Recognize && event is Recognized,
{
}

proof fn lemma_ending_consistent(run: RunState, event: Event)
    requires
        consistent(run),
        run.action is AskDiscard || run.action is WriteDebug || run.action is Persist || run.action is ClearTarget || run.action is End,
    ensures
        consistent(dictation_next(run, event)),
        dictation_next(run, event).settings == run.settings,
        past_correction(dictation_next(run, event)) ==> past_correction(run) || run.action
            is Correct && event is Corrected,
        past_recognition(dictation_next(run, event)) ==> past_recognition(run) || run.action
            is Recognize && event is Recognized,
{
}

proof fn lemma_consistent(run: RunState, event: Event)
    requires
        consistent(run),
    ensures
        consistent(dictation_next(run, event)),
        dictation_next(run, event).settings == run.settings,
        past_correction(dictation_next(run, event)) ==> past_correction(run) || run.action
            is Correct && event is Corrected,
        past_recognition(dictation_next(run, event)) ==> past_recognition(run) || run.action
            is Recognize && event is Recognized,
{
    if run.action is StopCapture || run.action is FreezeContext || run.action is ReadSamples
        || run.action is InspectSignal {
        lemma_listening_consistent(run, event);
    } else if run.action is ArchiveContext || run.action is Recognize || run.action is Correct {
        lemma_hearing_consistent(run, event);
    } else if run.action is AskDiscard || run.action is WriteDebug || run.action is Persist
        || run.action is ClearTarget || run.action is End {
        lemma_ending_consistent(run, event);
    } else {
        lemma_delivery_consistent(run, event);
    }
}

/// The event is the answer that the run's corrected text is from.
spec fn answered(run: RunState, event: Event) -> bool {
    &&& event is Corrected
    &&& event->Corrected_text == run.corrected_text
    &&& event->Corrected_engine == run.corrector_engine
    &&& event->model_applied == run.model_applied
    &&& event->fallback == run.fallback
}

/// The event is the recognition that the run's text is from.
spec fn heard(run: RunState, event: Event) -> bool {
    &&& event is Recognized
    &&& event->Recognized_text == run.asr_text
    &&& event->enhanced == run.enhanced_text
    &&& event->Recognized_engine == run.asr_engine
}

proof fn lemma_played(settings: Settings, events: Seq<Event>)
    ensures
        ({
            let run = played(RunState::start(settings), events);
            &&& consistent(run)
            &&& run.settings == settings
            &&& past_correction(run) ==> exists|i: int|
                0 <= i < events.len() && answered(run, #[trigger] events[i])
            &&& past_recognition(run) ==> exists|i: int|
                0 <= i < events.len() && heard(run, #[trigger] events[i])
        }),
    decreases events.len(),
{
    if events.len() > 0 {
        let n = events.len() as int;
        let before = events.drop_last();
        lemma_played(settings, before);
        let run = played(RunState::start(settings), before);
        let event = events.last();
        let next = dictation_next(run, event);
        lemma_consistent(run, event);
        what_is_settled_stays(run, event);
        assert(events[n - 1] == event);
        if past_correction(next) {
            if past_correction(run) {
                let i = choose|i: int| 0 <= i < before.len() && answered(run, #[trigger] before[i]);
                assert(answered(next, events[i]));
            } else {
                assert(answered(next, events[n - 1]));
            }
        }
        if past_recognition(next) {
            if past_recognition(run) {
                let i = choose|i: int| 0 <= i < before.len() && heard(run, #[trigger] before[i]);
                assert(heard(next, events[i]));
            } else {
                assert(heard(next, events[n - 1]));
            }
        }
    }
}

/// A complete dictation reports its texts and records them; one that is not complete
/// records none.
pub proof fn texts_are_reported_and_recorded(
    run: RunState,
    outcome: TranscribeOutcome,
    session: RecordedSession,
)
    requires
        outcome.reports(run),
        session.records(run),
    ensures
        outcome.text@ == run.corrected_text,
        outcome.corrected_text@ == run.corrected_text,
        outcome.asr_text@ == run.asr_text,
        outcome.asr_engine@ == run.asr_engine,
        outcome.corrector_engine@ == run.corrector_engine,
        outcome.model_applied == run.model_applied,
        text::opt(outcome.fallback_reason) == run.fallback,
        outcome.num_samples == run.samples,
        outcome.sample_rate == run.sample_rate,
        outcome.duration_ms == run.duration_ms,
        text::opt(outcome.insert_notice) == run.notice,
        outcome.watch_post_paste <==> run.outcome is Inserted && run.observing,
        outcome.post_paste_seconds == run.settings.post_paste_seconds,
        session.completed == run.completed,
        session.insert_strategy == run.strategy,
        session.asr_engine@ == run.asr_engine,
        run.completed ==> {
            &&& session.asr_raw is Some && session.asr_raw->0@ == run.asr_text
            &&& session.corrected is Some && session.corrected->0@ == run.corrected_text
            &&& session.pasted is Some && session.pasted->0@ == run.corrected_text
            &&& session.corrector_engine is Some && session.corrector_engine->0@
                == run.corrector_engine
        },
        !run.completed ==> session.asr_raw is None && session.corrected is None && session.pasted
            is None && session.corrector_engine is None,
{
}

/// A run, its settings and its events are seen as they are.
pub proof fn run_is_seen_as_it_is(run: DictationRun, event: DictationEvent)
    ensures
        run@.action == run.action,
        run@.asr_text == run.asr_text@,
        run@.enhanced_text == run.enhanced_text@,
        run@.corrected_text == run.corrected_text@,
        run@.asr_engine == run.asr_engine@,
        run@.corrector_engine == run.corrector_engine@,
        run@.model_applied == run.model_applied,
        run@.outcome == run.outcome,
        run@.strategy == run.strategy,
        run@.completed == run.completed,
        run@.observing == run.observing,
        run@.archive_pending == run.archive_pending,
        run@.target_cleared == run.target_cleared,
        run@.failed_stage == run.failed_stage,
        run@.samples == run.samples,
        run@.sample_rate == run.sample_rate,
        run@.duration_ms == run.duration_ms,
        run@.error is Some <==> run.error is Some,
        run.error matches Some(error) ==> run@.error == Some(error@),
        run.notice matches Some(notice) ==> run@.notice == Some(notice@),
        run@.notice is Some <==> run.notice is Some,
        run@.settings.auto_insert == run.settings.auto_insert,
        run@.settings.post_paste_capture == run.settings.post_paste_capture,
        run@.settings.insert_available == run.settings.insert_available,
        run@.settings.translates == run.settings.translates,
        run@.settings.platform == run.settings.platform,
        run@.settings.engine == run.settings.engine,
        run@.settings.provider == run.settings.provider@,
        event matches DictationEvent::Corrected { text, engine, model_applied, fallback } ==> event@
            == (Event::Corrected {
            text: text@,
            engine: engine@,
            model_applied,
            fallback: text::opt(fallback),
        }),
        event matches DictationEvent::Recognized { text, enhanced, engine } ==> event@
            == (Event::Recognized { text: text@, enhanced: enhanced@, engine: engine@ }),
        event matches DictationEvent::Failed(error) ==> event@ == Event::Failed(error@),
        event matches DictationEvent::Inserted { strategy, observing } ==> event@
            == (Event::Inserted { strategy, observing }),
        event matches DictationEvent::Samples { count, sample_rate } ==> event@ == (Event::Samples {
            count: count as nat,
            sample_rate: sample_rate as nat,
        }),
        event matches DictationEvent::Signal { finite, audible } ==> event@ == (Event::Signal {
            finite,
            audible,
        }),
        event matches DictationEvent::Discard(discard) ==> event@ == Event::Discard(discard),
        event is Done ==> event@ is Done,
        event matches DictationEvent::FrontIsSelf(name) ==> event@ == Event::FrontIsSelf(name@),
{
}

/// A run begins with the recording, under its settings and with nothing in it.
pub proof fn run_begins_empty(settings: Settings)
    ensures
        ({
            let run = RunState::start(settings);
            &&& run.settings == settings
            &&& run.action is StopCapture
            &&& run.asr_engine == settings.engine.name()
            &&& run.asr_text.len() == 0
            &&& run.corrected_text.len() == 0
            &&& run.notes.len() == 0
            &&& run.issues.len() == 0
            &&& run.usages.len() == 0
            &&& !run.completed
            &&& run.outcome is NotRequested
            &&& run.error is None
            &&& run.failed_stage is None
            &&& !run.archive_pending
            &&& !run.target_cleared
        }),
{
}

/// Why a capture is not transcribed is told and noted in words.
pub proof fn rejected_capture_is_told_in_words(run: RunState, sample_rate: nat, finite: bool)
    ensures
        run.action is ReadSamples ==> ({
            let next = dictation_next(run, Event::Samples { count: 0, sample_rate });
            &&& next.error == Some("no audio captured (0 samples) — hold longer or check mic"@)
            &&& next.notes == run.notes.push("empty capture"@)
            &&& next.issues == run.issues.push(
                pipeline::Issue {
                    stage: PipelineStage::Capture,
                    kind: PipelineIssueKind::AbsoluteSilence,
                    message: "absolute_silence"@,
                },
            )
        }),
        run.action is InspectSignal ==> ({
            let next = dictation_next(run, Event::Signal { finite, audible: false });
            &&& next.notes == run.notes.push("near-silent capture rejected before ASR"@)
            &&& finite ==> next.error == Some(
                "未检测到麦克风信号。请检查麦克风权限、输入设备或静音状态后重试。"@,
            )
            &&& !finite ==> next.error == Some(
                "录音数据无效，请检查输入设备后重试。"@,
            )
        }),
{
}

/// That recognition failed, what is in front, and why a text was not inserted are noted in
/// words; so is a translation that was not made.
pub proof fn failed_step_is_noted_in_words(
    run: RunState,
    error: Seq<char>,
    name: Seq<char>,
    engine: Seq<char>,
)
    ensures
        run.action is Recognize ==> dictation_next(run, Event::Failed(error)).notes
            == run.notes.push("ASR failed"@),
        run.action is RestoreFocus ==> dictation_next(run, Event::FrontIsSelf(name)).notes
            == run.notes.push("frontmost is self before insert: "@ + name) && dictation_next(
            run,
            Event::Done,
        ).notes == run.notes,
        run.action is Insert ==> dictation_next(run, Event::Failed(error)).notes == run.notes.push(
            "insert error: "@ + error,
        ),
        run.action is Insert ==> dictation_next(
            run,
            Event::Inserted { strategy: InsertStrategy::CopyOnly, observing: false },
        ).notice == Some("已复制"@),
        untranslated(engine) == "翻译未执行：模型未响应（"@ + engine
            + "）。请在「AI 修正」里确认 Ollama 模型名可用（当前机器常见 qwen3.5:9b）"@,
{
}

/// A copy in place of an insertion is noted by the platform and told to the user; so is
/// one that failed.
pub proof fn copy_in_place_is_noted_in_words(run: RunState, error: Seq<char>)
    requires
        run.action is CopyOnly,
    ensures
        run.settings.platform is MacOs ==> dictation_next(run, Event::Done).notes == run.notes.push(
            "accessibility denied — text copied to clipboard; enable Accessibility for insert"@,
        ),
        !(run.settings.platform is MacOs) ==> dictation_next(run, Event::Done).notes
            == run.notes.push("platform copy-only mode — text copied to clipboard"@),
        dictation_next(run, Event::Failed(error)).notes == run.notes.push(
            "clipboard copy failed: "@ + error,
        ),
        dictation_next(run, Event::Done).notice == Some(
            dictation::copy_only_notice(true, run.settings.platform),
        ),
        dictation_next(run, Event::Failed(error)).notice == Some(
            dictation::copy_only_notice(false, run.settings.platform),
        ),
{
}

/// A copy after an insertion that failed is told with the failure; so is one that failed
/// too, which is noted.
pub proof fn copy_after_failure_is_told(run: RunState, error: Seq<char>)
    requires
        run.action is CopyAfterFailure,
        run.insert_error is Some,
    ensures
        dictation_next(run, Event::Done).notice == Some(
            dictation::failed_insert_notice(run.insert_error->0, true),
        ),
        dictation_next(run, Event::Done).notes == run.notes,
        dictation_next(run, Event::Failed(error)).notice == Some(
            dictation::failed_insert_notice(run.insert_error->0, false),
        ),
        dictation_next(run, Event::Failed(error)).notes == run.notes.push(
            "clipboard copy failed: "@ + error,
        ),
{
}

} // verus!
