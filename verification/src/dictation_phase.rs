//! The life of a dictation as the interface sees it: one session at a time, a
//! notice that gives way to what follows it, and the search for the pane that the
//! text goes to.
use crate::config;
use crate::config::InjectConfig;
use crate::config::IntentSpec;
use crate::config::LearningConfig;
use crate::dictation;
use crate::text;
use vstd::prelude::*;
use vstd::string::*;

verus! {

// ---------------------------------------------------------------------------
// Phases
// ---------------------------------------------------------------------------

#[derive(Debug, Clone, Copy, PartialEq, Eq, Structural)]
pub enum Phase {
    Idle,
    Recording,
    Processing,
}

/// A stop within so many milliseconds, without a recording, is a bounce.
pub const BOUNCE_MS: u64 = 80;

/// For how many seconds an error or a background notice is shown.
pub const NOTICE_SECS: u64 = 4;

/// The state of the interface of a dictation.
#[derive(Debug, Clone, PartialEq, Eq)]
pub struct DictationUi {
    pub phase: Phase,
    /// Grows with every notice and every session, so that an earlier notice does
    /// not hide a later one.
    pub notice_epoch: u64,
    /// When the recording started, in milliseconds.
    pub started_ms: Option<u64>,
    /// The intent of the session, until the corrector takes it.
    pub session_intent: IntentSpec,
    /// The intent that the interface shows, until the session is over.
    pub ui_intent: IntentSpec,
}

/// The state as a value.
#[verifier::ext_equal]
pub struct UiState {
    pub phase: Phase,
    pub notice_epoch: u64,
    pub started_ms: Option<u64>,
    pub session_intent: config::Intent,
    pub ui_intent: config::Intent,
}

impl View for DictationUi {
    type V = UiState;

    open spec fn view(&self) -> UiState {
        UiState {
            phase: self.phase,
            notice_epoch: self.notice_epoch,
            started_ms: self.started_ms,
            session_intent: self.session_intent@,
            ui_intent: self.ui_intent@,
        }
    }
}

/// The number after `epoch`, which begins anew after the last.
pub open spec fn next_epoch(epoch: u64) -> u64 {
    if epoch == u64::MAX {
        0
    } else {
        (epoch + 1) as u64
    }
}

fn following(epoch: u64) -> (r: u64)
    ensures
        r == next_epoch(epoch),
{
    if epoch == u64::MAX {
        0
    } else {
        epoch + 1
    }
}

/// What a toggle does.
#[derive(Debug, Clone, Copy, PartialEq, Eq, Structural)]
pub enum ToggleAction {
    Start,
    Stop,
    Ignore,
}

/// What a stop finds.
#[derive(Debug, Clone, Copy, PartialEq, Eq, Structural)]
pub enum StopVerdict {
    /// A stop right after the start, with nothing recorded.
    Bounce,
    /// Nothing is being recorded.
    NotRecording,
    Process,
}

/// How a session ends.
#[derive(Debug, Clone, Copy, PartialEq, Eq, Structural)]
pub enum SessionEnd {
    /// The capsule is hidden at once.
    Done,
    /// The capsule shows the outcome for a while.
    Fallback { epoch: u64, hold_secs: u64 },
    /// The capsule shows the error for a while.
    Error { epoch: u64, hold_secs: u64 },
}

impl UiState {
    /// A session has begun.
    pub open spec fn begun(self, intent: config::Intent, now_ms: u64) -> UiState {
        UiState {
            phase: Phase::Recording,
            notice_epoch: next_epoch(self.notice_epoch),
            started_ms: Some(now_ms),
            session_intent: intent,
            ui_intent: intent,
        }
    }

    /// A notice is shown, and no session is there.
    pub open spec fn noticed(self) -> UiState {
        UiState { phase: Phase::Idle, notice_epoch: next_epoch(self.notice_epoch), ..self }
    }

    /// How long the recording was held.
    pub open spec fn held_ms(self, now_ms: u64) -> int {
        match self.started_ms {
            Some(started) => if now_ms >= started {
                now_ms - started
            } else {
                0
            },
            None => 0,
        }
    }

    /// A notice of `epoch` is still the last one, with nothing going on.
    pub open spec fn is_over(self, epoch: u64) -> bool {
        self.notice_epoch == epoch && self.phase is Idle
    }
}

fn copy_intent(intent: &IntentSpec) -> (r: IntentSpec)
    ensures
        r@ == intent@,
{
    match intent {
        IntentSpec::Default => IntentSpec::Default,
        IntentSpec::PolishOverride => IntentSpec::PolishOverride,
        IntentSpec::Raw => IntentSpec::Raw,
        IntentSpec::Translate { target_language, style } => IntentSpec::Translate {
            target_language: target_language.as_str().to_owned(),
            style: text::copy_opt(style),
        },
    }
}

impl DictationUi {
    /// No session.
    pub fn new() -> (r: Self)
        ensures
            r@ == (UiState {
                phase: Phase::Idle,
                notice_epoch: 0,
                started_ms: None,
                session_intent: config::Intent::Default,
                ui_intent: config::Intent::Default,
            }),
    {
        DictationUi {
            phase: Phase::Idle,
            notice_epoch: 0,
            started_ms: None,
            session_intent: IntentSpec::Default,
            ui_intent: IntentSpec::Default,
        }
    }

    /// Binds an intent to the session.
    pub fn set_session_intent(&mut self, intent: &IntentSpec)
        ensures
            final(self)@ == (UiState { session_intent: intent@, ui_intent: intent@, ..old(self)@ }),
    {
        self.session_intent = copy_intent(intent);
        self.ui_intent = copy_intent(intent);
    }

    /// The intent of the session, which is then the default again. What the
    /// interface shows stays.
    pub fn take_session_intent(&mut self) -> (r: IntentSpec)
        ensures
            r@ == old(self)@.session_intent,
            final(self)@ == (UiState {
                session_intent: config::Intent::Default,
                ..old(self)@
            }),
    {
        let intent: IntentSpec = copy_intent(&self.session_intent);
        self.session_intent = IntentSpec::Default;
        intent
    }

    /// Starts a session, unless there is one: only one session at a time.
    pub fn dictation_start_with_intent(&mut self, intent: &IntentSpec, now_ms: u64) -> (started:
        bool)
        ensures
            started == (old(self)@.phase is Idle),
            final(self)@ == if started {
                old(self)@.begun(intent@, now_ms)
            } else {
                old(self)@
            },
    {
        match self.phase {
            Phase::Idle => {
                self.phase = Phase::Recording;
                self.notice_epoch = following(self.notice_epoch);
                self.set_session_intent(intent);
                self.started_ms = Some(now_ms);
                true
            },
            _ => false,
        }
    }

    /// Whether the capsule may say that it listens: a quick release can have
    /// ended the recording before.
    pub fn may_publish_listening(&self, audio_recording: bool) -> (r: bool)
        ensures
            r == (self@.phase is Recording && audio_recording),
    {
        match self.phase {
            Phase::Recording => audio_recording,
            _ => false,
        }
    }

    /// Ends a session that could not start recording.
    pub fn start_failed(&mut self) -> (r: SessionEnd)
        ensures
            final(self)@ == (UiState { started_ms: None, ..old(self)@.noticed() }),
            r == (SessionEnd::Error {
                epoch: final(self)@.notice_epoch,
                hold_secs: NOTICE_SECS,
            }),
    {
        self.started_ms = None;
        self.phase = Phase::Idle;
        self.notice_epoch = following(self.notice_epoch);
        SessionEnd::Error { epoch: self.notice_epoch, hold_secs: NOTICE_SECS }
    }

    /// Stops the recording of a session, where there is one.
    pub fn dictation_stop(&mut self) -> (stopped: bool)
        ensures
            stopped == (old(self)@.phase is Recording),
            final(self)@ == if stopped {
                UiState { phase: Phase::Processing, ..old(self)@ }
            } else {
                old(self)@
            },
    {
        match self.phase {
            Phase::Recording => {
                self.phase = Phase::Processing;
                true
            },
            _ => false,
        }
    }

    /// What there is to do after a stop. Nothing where nothing is recorded: the
    /// session is then over.
    pub fn settle_stop(&mut self, now_ms: u64, audio_recording: bool) -> (r: StopVerdict)
        ensures
            r == if audio_recording {
                StopVerdict::Process
            } else if old(self)@.held_ms(now_ms) < BOUNCE_MS {
                StopVerdict::Bounce
            } else {
                StopVerdict::NotRecording
            },
            final(self)@ == if audio_recording {
                old(self)@
            } else {
                UiState { phase: Phase::Idle, started_ms: None, ..old(self)@ }
            },
    {
        if audio_recording {
            return StopVerdict::Process;
        }
        let held_ms: u64 = match self.started_ms {
            Some(started) => if now_ms >= started {
                now_ms - started
            } else {
                0
            },
            None => 0,
        };
        self.started_ms = None;
        self.phase = Phase::Idle;
        if held_ms < BOUNCE_MS {
            StopVerdict::Bounce
        } else {
            StopVerdict::NotRecording
        }
    }

    /// Ends a session that was worked on: `succeeded` with a notice or a fallback
    /// keeps the capsule for a while, as an error does.
    pub fn settle_session(
        &mut self,
        succeeded: bool,
        insert_notice: Option<&str>,
        fallback: bool,
    ) -> (r: SessionEnd)
        ensures
            ({
                let over = UiState {
                    phase: Phase::Idle,
                    started_ms: None,
                    ui_intent: config::Intent::Default,
                    ..old(self)@
                };
                if succeeded && insert_notice is None && !fallback {
                    r is Done && final(self)@ == over
                } else {
                    &&& final(self)@ == over.noticed()
                    &&& r == if succeeded {
                        SessionEnd::Fallback {
                            epoch: over.noticed().notice_epoch,
                            hold_secs: if insert_notice is Some && text::begins(
                                insert_notice->0@,
                                dictation::copied_notice(),
                            ) && !fallback {
                                2
                            } else {
                                4
                            },
                        }
                    } else {
                        SessionEnd::Error {
                            epoch: over.noticed().notice_epoch,
                            hold_secs: NOTICE_SECS,
                        }
                    }
                }
            }),
    {
        self.started_ms = None;
        self.ui_intent = IntentSpec::Default;
        self.phase = Phase::Idle;
        if succeeded && insert_notice.is_none() && !fallback {
            return SessionEnd::Done;
        }
        self.notice_epoch = following(self.notice_epoch);
        if succeeded {
            let hold_secs: u64 = dictation::capsule_notice_hold(insert_notice, fallback);
            SessionEnd::Fallback { epoch: self.notice_epoch, hold_secs }
        } else {
            SessionEnd::Error { epoch: self.notice_epoch, hold_secs: NOTICE_SECS }
        }
    }

    /// Shows background feedback, only while nothing is going on: recording and
    /// processing always win. The epoch of the notice where it is shown.
    pub fn show_transient_background_notice(&mut self) -> (r: Option<u64>)
        ensures
            r is Some <==> old(self)@.phase is Idle,
            final(self)@ == if r is Some {
                old(self)@.noticed()
            } else {
                old(self)@
            },
            r matches Some(epoch) ==> epoch == final(self)@.notice_epoch,
    {
        match self.phase {
            Phase::Idle => {
                self.notice_epoch = following(self.notice_epoch);
                Some(self.notice_epoch)
            },
            _ => None,
        }
    }

    /// Whether a notice that was shown long enough is to be hidden.
    pub fn notice_is_over(&self, epoch: u64) -> (r: bool)
        ensures
            r == self@.is_over(epoch),
    {
        match self.phase {
            Phase::Idle => self.notice_epoch == epoch,
            _ => false,
        }
    }

    /// What a toggle does.
    pub fn toggle_dictation(&self) -> (r: ToggleAction)
        ensures
            r == match self@.phase {
                Phase::Recording => ToggleAction::Stop,
                Phase::Idle => ToggleAction::Start,
                Phase::Processing => ToggleAction::Ignore,
            },
    {
        match self.phase {
            Phase::Recording => ToggleAction::Stop,
            Phase::Idle => ToggleAction::Start,
            Phase::Processing => ToggleAction::Ignore,
        }
    }
}

/// A notice never hides what follows it: not a session, and not a later notice.
pub proof fn notice_gives_way(ui: UiState, epoch: u64, intent: config::Intent, now_ms: u64)
    requires
        ui.is_over(epoch),
    ensures
        !ui.begun(intent, now_ms).is_over(epoch),
        !ui.noticed().is_over(epoch),
        !(UiState { phase: Phase::Idle, ..ui.begun(intent, now_ms) }).is_over(epoch),
{
}

// ---------------------------------------------------------------------------
// Starting to record
// ---------------------------------------------------------------------------

/// What a start finds.
#[derive(Debug, Clone, PartialEq, Eq)]
pub enum StartCheck {
    AlreadyRecording,
    Refused(String),
    Start,
}

/// Whether a recording may start.
pub fn check_start(status: &dictation::AsrStatus, checking: bool) -> (r: StartCheck)
    ensures
        status.recording ==> r is AlreadyRecording,
        !status.recording && status.active_ready ==> r is Start,
        !status.recording && !status.active_ready ==> (r matches StartCheck::Refused(error)
            && error@ == dictation::not_ready(
            status.provider@,
            status.provider_label@,
            checking,
        )),
{
    if status.recording {
        return StartCheck::AlreadyRecording;
    }
    match dictation::ensure_active_asr_ready(
        status.provider.as_str(),
        status.provider_label.as_str(),
        status.active_ready,
        checking,
    ) {
        Ok(()) => StartCheck::Start,
        Err(error) => StartCheck::Refused(error),
    }
}

/// Whether edits are watched after an insertion.
pub fn observes_panes(inject: &InjectConfig, learning: &LearningConfig) -> (r: bool)
    ensures
        r == (inject.auto_insert && learning.post_paste_capture),
{
    inject.auto_insert && learning.post_paste_capture
}

/// Whether the target is to be brought to the front before an insertion: only
/// where this app is in front, or nothing is known of what is. A target that is
/// in front keeps its caret.
pub fn must_restore_target(frontmost_is_self: Option<bool>) -> (r: bool)
    ensures
        r == (frontmost_is_self != Some(false)),
{
    match frontmost_is_self {
        Some(is_self) => is_self,
        None => true,
    }
}

// ---------------------------------------------------------------------------
// The pane that the text goes to
// ---------------------------------------------------------------------------

/// For how many milliseconds a pane is looked for.
pub const PANE_DISCOVERY_BUDGET_MS: u64 = 2_000;

/// The search for the pane of a dictation. `P` names a pane.
#[derive(Debug, Clone, Copy, PartialEq, Eq)]
pub struct PaneTargetState<P> {
    /// Tells the search of this dictation from earlier ones.
    pub generation: u64,
    pub completed: bool,
    /// Until when the search is waited for, in milliseconds.
    pub deadline_ms: Option<u64>,
    /// The search that can still be called off.
    pub pending: Option<u64>,
    pub pane: Option<P>,
}

impl<P> PaneTargetState<P> {
    /// What a search of `generation` finds is taken.
    pub open spec fn accepts(self, generation: u64) -> bool {
        self.generation == generation
    }

    /// A search has begun.
    pub open spec fn begun(self, now_ms: u64) -> Self {
        PaneTargetState {
            generation: next_epoch(self.generation),
            completed: false,
            deadline_ms: Some((now_ms + PANE_DISCOVERY_BUDGET_MS) as u64),
            pending: Some(next_epoch(self.generation)),
            pane: None,
        }
    }

    /// The pane was taken.
    pub open spec fn joined(self) -> Self {
        PaneTargetState {
            generation: next_epoch(self.generation),
            completed: true,
            deadline_ms: None,
            pending: None,
            ..self
        }
    }

    /// The search was given up.
    pub open spec fn given_up(self) -> Self {
        PaneTargetState {
            generation: next_epoch(self.generation),
            completed: true,
            deadline_ms: None,
            pending: None,
            pane: None,
        }
    }
}

impl<P: Copy> PaneTargetState<P> {
    /// No search.
    pub fn new() -> (r: Self)
        ensures
            r == (PaneTargetState {
                generation: 0,
                completed: true,
                deadline_ms: None,
                pending: None,
                pane: None::<P>,
            }),
    {
        PaneTargetState {
            generation: 0,
            completed: true,
            deadline_ms: None,
            pending: None,
            pane: None,
        }
    }

    /// Begins a search: its generation, and the search that is to be called off.
    pub fn begin(&mut self, now_ms: u64) -> (r: (u64, Option<u64>))
        requires
            now_ms + PANE_DISCOVERY_BUDGET_MS <= u64::MAX,
        ensures
            r == (next_epoch(old(self).generation), old(self).pending),
            *final(self) == old(self).begun(now_ms),
    {
        let previous: Option<u64> = self.pending;
        self.generation = following(self.generation);
        self.completed = false;
        self.deadline_ms = Some(now_ms + PANE_DISCOVERY_BUDGET_MS);
        self.pending = Some(self.generation);
        self.pane = None;
        (self.generation, previous)
    }

    /// Takes what a search found, unless the dictation has moved on.
    pub fn discovered(&mut self, generation: u64, pane: Option<P>) -> (taken: bool)
        ensures
            taken == old(self).accepts(generation),
            *final(self) == if taken {
                PaneTargetState { completed: true, deadline_ms: None, pane, ..*old(self) }
            } else {
                *old(self)
            },
    {
        if self.generation != generation {
            return false;
        }
        self.pane = pane;
        self.completed = true;
        self.deadline_ms = None;
        true
    }

    /// For how many milliseconds the search is still waited for.
    pub fn wait_ms(&self, now_ms: u64) -> (r: Option<u64>)
        ensures
            r == if !self.completed && self.deadline_ms is Some && self.deadline_ms->0 >= now_ms {
                Some((self.deadline_ms->0 - now_ms) as u64)
            } else {
                None
            },
    {
        if self.completed {
            return None;
        }
        match self.deadline_ms {
            Some(deadline) => if deadline >= now_ms {
                Some(deadline - now_ms)
            } else {
                None
            },
            None => None,
        }
    }

    /// The pane that was found, and the search that is to be called off. What
    /// comes later is not taken.
    pub fn take_discovered_pane_target(&mut self) -> (r: (Option<P>, Option<u64>))
        ensures
            r == (old(self).pane, old(self).pending),
            *final(self) == old(self).joined(),
    {
        let pending: Option<u64> = self.pending;
        self.pending = None;
        self.generation = following(self.generation);
        self.completed = true;
        self.deadline_ms = None;
        (self.pane, pending)
    }

    /// Gives the search up: the search that is to be called off.
    pub fn cancel_pane_target_discovery(&mut self) -> (r: Option<u64>)
        ensures
            r == old(self).pending,
            *final(self) == old(self).given_up(),
    {
        let pending: Option<u64> = self.pending;
        self.pending = None;
        self.generation = following(self.generation);
        self.completed = true;
        self.deadline_ms = None;
        self.pane = None;
        pending
    }
}

/// A search that comes too late changes nothing: whether its dictation took the
/// pane, gave it up or another one began, what it finds is not taken.
pub proof fn late_search_is_not_taken<P>(state: PaneTargetState<P>, generation: u64, now_ms: u64)
    requires
        state.accepts(generation),
    ensures
        !state.joined().accepts(generation),
        !state.given_up().accepts(generation),
        !state.begun(now_ms).accepts(generation),
        state.begun(now_ms).pane is None,
{
}

// ---------------------------------------------------------------------------
// Laws of the phases
// ---------------------------------------------------------------------------

/// Each number is followed by the next, and the last by the first.
pub proof fn epochs_follow_each_other(epoch: u64)
    ensures
        epoch < u64::MAX ==> next_epoch(epoch) == epoch + 1,
        next_epoch(u64::MAX) == 0,
        next_epoch(epoch) != epoch,
{
}

/// A session records from its beginning on, for what it was begun for, and what was shown
/// before is out of date.
pub proof fn session_begins_recording(ui: UiState, intent: config::Intent, now_ms: u64)
    ensures
        ({
            let next = ui.begun(intent, now_ms);
            &&& next.phase is Recording
            &&& next.started_ms == Some(now_ms)
            &&& next.session_intent == intent
            &&& next.ui_intent == intent
            &&& next.notice_epoch != ui.notice_epoch
        }),
        ({
            let next = ui.noticed();
            &&& next.phase is Idle
            &&& next.notice_epoch != ui.notice_epoch
            &&& next.started_ms == ui.started_ms
            &&& next.session_intent == ui.session_intent
            &&& next.ui_intent == ui.ui_intent
        }),
{
}

/// A recording is held for the time since it began, and for none where none did.
pub proof fn recording_is_held_since_it_began(ui: UiState, intent: config::Intent, now_ms: u64, later: u64)
    ensures
        later >= now_ms ==> ui.begun(intent, now_ms).held_ms(later) == later - now_ms,
        later < now_ms ==> ui.begun(intent, now_ms).held_ms(later) == 0,
        ui.started_ms is None ==> ui.held_ms(later) == 0,
{
}

/// A notice is over by its own number while nothing goes on, and one that was followed by
/// another is not.
pub proof fn only_the_last_notice_is_over(ui: UiState, epoch: u64)
    ensures
        ui.noticed().is_over(ui.noticed().notice_epoch),
        !ui.noticed().is_over(ui.notice_epoch),
        !(ui.phase is Idle) ==> !ui.is_over(epoch),
        epoch != ui.notice_epoch ==> !ui.is_over(epoch),
{
}

/// A search begins with a number of its own and a time by which it ends, and forgets what
/// was found before; once it is taken or given up, what it finds is not taken any more.
pub proof fn search_is_taken_by_its_number<P>(state: PaneTargetState<P>, now_ms: u64)
    requires
        now_ms + 2_000 <= u64::MAX,
    ensures
        ({
            let next = state.begun(now_ms);
            &&& next.generation != state.generation
            &&& next.accepts(next.generation)
            &&& !next.accepts(state.generation)
            &&& next.pending == Some(next.generation)
            &&& next.pane is None
            &&& !next.completed
            &&& next.deadline_ms == Some((now_ms + 2_000) as u64)
        }),
        ({
            let next = state.joined();
            &&& next.pane == state.pane
            &&& next.completed
            &&& next.pending is None
            &&& next.deadline_ms is None
            &&& !next.accepts(state.generation)
        }),
        ({
            let next = state.given_up();
            &&& next.pane is None
            &&& next.completed
            &&& next.pending is None
            &&& next.deadline_ms is None
            &&& !next.accepts(state.generation)
        }),
{
}

/// What the interface holds is seen as it is.
pub proof fn interface_is_seen_as_it_is(ui: DictationUi)
    ensures
        ui@.phase == ui.phase,
        ui@.notice_epoch == ui.notice_epoch,
        ui@.started_ms == ui.started_ms,
        ui@.session_intent == ui.session_intent@,
        ui@.ui_intent == ui.ui_intent@,
{
}

} // verus!
