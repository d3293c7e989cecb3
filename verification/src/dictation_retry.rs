//! A recording that is transcribed again: the audio of its session, and the
//! context that was captured with it.
use crate::context_records::ContextInputRef;
use crate::dictation;
use crate::engine::EngineKind;
use crate::outside;
use crate::pipeline;
use crate::pipeline::ContextStageUsage;
use crate::pipeline::PipelineStage;
use crate::text;
use vstd::prelude::*;
use vstd::string::*;

verus! {

// ---------------------------------------------------------------------------
// The session and its audio
// ---------------------------------------------------------------------------

/// The session of an identifier, or why the text is none.
pub fn parse_session_id(id: &str) -> (r: Result<u128, String>)
    ensures
        match outside::uuid_parsed(id@) {
            Ok(session) => r == Ok::<u128, String>(session),
            Err(error) => text::fails(r, error),
        },
{
    outside::parse_uuid(id)
}

/// What was found of a session.
#[derive(Debug, Clone, PartialEq, Eq)]
pub enum SessionLookup {
    NoDatabase,
    Unreadable(String),
    Missing,
    /// The session, with the path of its audio where it has any.
    Found(Option<String>),
}

/// The path of the audio that a session was saved with.
pub fn session_audio_path(lookup: SessionLookup) -> (r: Result<String, String>)
    ensures
        match lookup {
            SessionLookup::NoDatabase => text::fails(r, "database not available"@),
            SessionLookup::Unreadable(error) => text::fails(r, error@),
            SessionLookup::Missing => text::fails(r, "session not found"@),
            SessionLookup::Found(None) => text::fails(r, "此会话没有保存音频"@),
            SessionLookup::Found(Some(path)) => r matches Ok(p) && p@ == path@,
        },
{
    match lookup {
        SessionLookup::NoDatabase => Err("database not available".to_owned()),
        SessionLookup::Unreadable(error) => Err(error),
        SessionLookup::Missing => Err("session not found".to_owned()),
        SessionLookup::Found(None) => Err("此会话没有保存音频".to_owned()),
        SessionLookup::Found(Some(path)) => Ok(path),
    }
}

/// The audio of a session can be played back: there is a file.
pub fn check_session_audio(path: &str, is_file: bool) -> (r: Result<(), String>)
    ensures
        r is Ok <==> is_file,
        !is_file ==> text::fails(r, "音频文件不存在: "@ + path@),
{
    if is_file {
        Ok(())
    } else {
        Err(text::glue("音频文件不存在: ", path))
    }
}

/// The audio that is to be transcribed again, as it was read: how many samples
/// there are, or why it could not be read.
#[derive(Debug, Clone, PartialEq, Eq)]
pub enum RetryAudio {
    NoPath,
    Unreadable(String),
    Read { samples: usize },
}

/// Why there is nothing to transcribe again.
pub open spec fn retry_refusal(audio: RetryAudio) -> Option<Seq<char>> {
    match audio {
        RetryAudio::NoPath => Some("此会话没有音频，无法重新转写"@),
        RetryAudio::Unreadable(error) => Some(error@),
        RetryAudio::Read { samples } => if samples == 0 {
            Some("音频为空"@)
        } else {
            None
        },
    }
}

/// The rate at which speech is recognized.
pub const ASR_SAMPLE_RATE: u32 = 16_000;

/// Whether the audio is to be brought to the rate of recognition.
pub fn needs_resampling(sample_rate: u32) -> (r: bool)
    ensures
        r == (sample_rate != ASR_SAMPLE_RATE),
{
    sample_rate != ASR_SAMPLE_RATE
}

// ---------------------------------------------------------------------------
// The context of an earlier attempt
// ---------------------------------------------------------------------------

/// An earlier attempt at the same session.
pub struct PriorAttempt {
    pub id: u128,
    pub context: Option<ContextInputRef>,
    pub usages: Vec<ContextStageUsage>,
}

/// The usage shows context that was sent to the corrector and can be opened
/// again; the personal dictionary is no such context.
pub open spec fn shows_context(usage: pipeline::StageUsage) -> bool {
    &&& usage.stage is Corrector
    &&& usage.sent
    &&& usage.projection_path is Some
    &&& !usage.sources.contains("personal_dictionary"@)
}

/// The first of the usages, from `from` on, that shows context.
pub open spec fn shown_from(usages: Seq<ContextStageUsage>, from: int) -> Option<int>
    decreases usages.len() - from,
{
    if from < 0 || from >= usages.len() {
        None
    } else if shows_context(usages[from]@) {
        Some(from)
    } else {
        shown_from(usages, from + 1)
    }
}

/// The next attempt, from `from` on, whose context can be opened again, and the
/// usage that shows it.
pub open spec fn open_from(priors: Seq<PriorAttempt>, from: int) -> Option<(int, int)>
    decreases priors.len() - from,
{
    if from < 0 || from >= priors.len() {
        None
    } else {
        match shown_from(priors[from].usages@, 0) {
            Some(usage) => if priors[from].context is Some {
                Some((from, usage))
            } else {
                open_from(priors, from + 1)
            },
            None => open_from(priors, from + 1),
        }
    }
}

/// The first attempt, from `from` on, with any context.
pub open spec fn context_from(priors: Seq<PriorAttempt>, from: int) -> Option<int>
    decreases priors.len() - from,
{
    if from < 0 || from >= priors.len() {
        None
    } else if priors[from].context is Some {
        Some(from)
    } else {
        context_from(priors, from + 1)
    }
}

fn names_dictionary(sources: &Vec<String>) -> (r: bool)
    ensures
        r == text::texts(sources@).contains("personal_dictionary"@),
{
    let ghost all = text::texts(sources@);
    let mut i: usize = 0;
    while i < sources.len()
        invariant
            i <= sources@.len(),
            all == text::texts(sources@),
            forall|j: int| 0 <= j < i ==> #[trigger] all[j] != "personal_dictionary"@,
        decreases sources@.len() - i,
    {
        assert(all[i as int] == sources@[i as int]@);
        if text::same(sources[i].as_str(), "personal_dictionary") {
            return true;
        }
        i = i + 1;
    }
    false
}

/// The first of the usages that shows context.
pub fn shown_usage(usages: &Vec<ContextStageUsage>) -> (r: Option<usize>)
    ensures
        match r {
            Some(at) => at < usages@.len() && shown_from(usages@, 0) == Some(at as int),
            None => shown_from(usages@, 0) is None,
        },
{
    let mut i: usize = 0;
    while i < usages.len()
        invariant
            i <= usages@.len(),
            shown_from(usages@, 0) == shown_from(usages@, i as int),
        decreases usages@.len() - i,
    {
        let usage: &ContextStageUsage = &usages[i];
        let corrector: bool = match usage.stage {
            PipelineStage::Corrector => true,
            _ => false,
        };
        if corrector && usage.sent && usage.projection_path.is_some() && !names_dictionary(
            &usage.sources,
        ) {
            return Some(i);
        }
        i = i + 1;
    }
    None
}

/// The next attempt, from `from` on, whose context can be opened again, and the
/// usage that shows it.
pub fn next_reusable(priors: &Vec<PriorAttempt>, from: usize) -> (r: Option<(usize, usize)>)
    ensures
        match r {
            Some((at, usage)) => {
                &&& from <= at < priors@.len()
                &&& usage < priors@[at as int].usages@.len()
                &&& open_from(priors@, from as int) == Some((at as int, usage as int))
            },
            None => open_from(priors@, from as int) is None,
        },
{
    let mut i: usize = from;
    while i < priors.len()
        invariant
            from <= i,
            open_from(priors@, from as int) == open_from(priors@, i as int),
        decreases priors@.len() - i,
    {
        if priors[i].context.is_some() {
            match shown_usage(&priors[i].usages) {
                Some(usage) => return Some((i, usage)),
                None => {},
            }
        }
        i = i + 1;
    }
    None
}

/// The attempt whose context the new one refers to: the one whose context was
/// opened, or else the first that has any.
pub fn retry_context(priors: &Vec<PriorAttempt>, opened: Option<usize>) -> (r: Option<usize>)
    ensures
        match opened {
            Some(at) => r == Some(at),
            None => match r {
                Some(at) => at < priors@.len() && context_from(priors@, 0) == Some(at as int),
                None => context_from(priors@, 0) is None,
            },
        },
{
    if opened.is_some() {
        return opened;
    }
    let mut i: usize = 0;
    while i < priors.len()
        invariant
            i <= priors@.len(),
            opened is None,
            context_from(priors@, 0) == context_from(priors@, i as int),
        decreases priors@.len() - i,
    {
        if priors[i].context.is_some() {
            return Some(i);
        }
        i = i + 1;
    }
    None
}

// ---------------------------------------------------------------------------
// A run
// ---------------------------------------------------------------------------

/// What is done next with a session that is transcribed again.
#[derive(Debug, Clone, Copy, PartialEq, Eq, Structural)]
pub enum RetryAction {
    /// Opens what the corrector was shown in an earlier attempt.
    OpenContext { prior: usize, usage: usize },
    ReadAudio,
    /// Brings the audio to the rate of recognition.
    Resample,
    Recognize,
    /// Corrects the enhanced text.
    Correct,
    /// Records the attempt that failed; the session stays as it was.
    PersistFailure,
    /// Records the attempt, and the session with its new texts.
    PersistResult,
    End,
}

/// What came of the action.
#[derive(Debug, Clone, PartialEq, Eq)]
pub enum RetryEvent {
    Done,
    Failed(String),
    Opened(bool),
    Audio { audio: RetryAudio, sample_rate: u32 },
    Resampled { samples: usize },
    /// `text` is what was recognized and is recorded, `enhanced` what is corrected.
    Recognized { text: String, enhanced: String, engine: String },
    Corrected { text: String, engine: String, model_applied: bool, fallback: Option<String> },
}

/// A session that is transcribed again, and what is recorded of it.
pub struct RetryRun {
    pub priors: Vec<PriorAttempt>,
    pub action: RetryAction,
    /// The earlier attempt whose context was opened.
    pub opened: Option<usize>,
    /// The earlier attempt whose context the new one refers to.
    pub context: Option<usize>,
    pub usage: ContextStageUsage,
    pub duration_ms: u64,
    pub failed_stage: Option<PipelineStage>,
    /// What the user is told instead of a text.
    pub error: Option<String>,
    pub asr_engine: String,
    /// What was recognized.
    pub asr_text: String,
    /// What is made of it for the corrector.
    pub enhanced_text: String,
    pub corrected_text: String,
    pub corrector_engine: String,
    pub model_applied: bool,
    pub fallback: Option<String>,
    /// The texts are there: the attempt is complete.
    pub completed: bool,
}

/// A run as a value.
#[verifier::ext_equal]
pub struct RetryState {
    pub priors: Seq<PriorAttempt>,
    pub action: RetryAction,
    pub opened: Option<int>,
    pub context: Option<int>,
    pub usage: pipeline::StageUsage,
    pub duration_ms: int,
    pub failed_stage: Option<PipelineStage>,
    pub error: Option<Seq<char>>,
    pub asr_engine: Seq<char>,
    pub asr_text: Seq<char>,
    pub enhanced_text: Seq<char>,
    pub corrected_text: Seq<char>,
    pub corrector_engine: Seq<char>,
    pub model_applied: bool,
    pub fallback: Option<Seq<char>>,
    pub completed: bool,
}

pub open spec fn index(at: Option<usize>) -> Option<int> {
    match at {
        Some(at) => Some(at as int),
        None => None,
    }
}

impl View for RetryRun {
    type V = RetryState;

    open spec fn view(&self) -> RetryState {
        RetryState {
            priors: self.priors@,
            action: self.action,
            opened: index(self.opened),
            context: index(self.context),
            usage: self.usage@,
            duration_ms: self.duration_ms as int,
            failed_stage: self.failed_stage,
            error: text::opt(self.error),
            asr_engine: self.asr_engine@,
            asr_text: self.asr_text@,
            enhanced_text: self.enhanced_text@,
            corrected_text: self.corrected_text@,
            corrector_engine: self.corrector_engine@,
            model_applied: self.model_applied,
            fallback: text::opt(self.fallback),
            completed: self.completed,
        }
    }
}

/// What came of the action, as a value.
pub enum RetryAnswer {
    Done,
    Failed(Seq<char>),
    Opened(bool),
    Audio { audio: RetryAudio, sample_rate: u32 },
    Resampled { samples: nat },
    Recognized { text: Seq<char>, enhanced: Seq<char>, engine: Seq<char> },
    Corrected {
        text: Seq<char>,
        engine: Seq<char>,
        model_applied: bool,
        fallback: Option<Seq<char>>,
    },
}

impl View for RetryEvent {
    type V = RetryAnswer;

    open spec fn view(&self) -> RetryAnswer {
        match *self {
            RetryEvent::Done => RetryAnswer::Done,
            RetryEvent::Failed(error) => RetryAnswer::Failed(error@),
            RetryEvent::Opened(opened) => RetryAnswer::Opened(opened),
            RetryEvent::Audio { audio, sample_rate } => RetryAnswer::Audio { audio, sample_rate },
            RetryEvent::Resampled { samples } => RetryAnswer::Resampled { samples: samples as nat },
            RetryEvent::Recognized { text, enhanced, engine } => RetryAnswer::Recognized {
                text: text@,
                enhanced: enhanced@,
                engine: engine@,
            },
            RetryEvent::Corrected { text, engine, model_applied, fallback } => {
                RetryAnswer::Corrected {
                    text: text@,
                    engine: engine@,
                    model_applied,
                    fallback: text::opt(fallback),
                }
            },
        }
    }
}

impl RetryState {
    pub open spec fn at(self, action: RetryAction) -> RetryState {
        RetryState { action, ..self }
    }

    /// The context is settled: the attempt refers to the one that was opened, or
    /// else to the first there is, and recognition is given none of it.
    pub open spec fn settled(self, opened: Option<int>) -> RetryState {
        let context = match opened {
            Some(at) => Some(at),
            None => context_from(self.priors, 0),
        };
        RetryState {
            opened,
            context,
            usage: dictation::unused_context(
                self.usage,
                context is Some && self.priors[context->0].context is Some
                    && self.priors[context->0].context->0.source_presence_bitmap != 0,
                "captured_context_not_projected_to_asr"@,
            ),
            ..self
        }.at(RetryAction::ReadAudio)
    }

    /// The next context is opened, or there is none to open.
    pub open spec fn looking(self, from: int) -> RetryState {
        match open_from(self.priors, from) {
            Some((prior, usage)) => self.at(
                RetryAction::OpenContext { prior: prior as usize, usage: usage as usize },
            ),
            None => self.settled(None),
        }
    }

    pub open spec fn failed(self, stage: PipelineStage, error: Seq<char>) -> RetryState {
        RetryState { failed_stage: Some(stage), error: Some(error), ..self }.at(
            RetryAction::PersistFailure,
        )
    }

    /// The audio is there, at the rate of recognition.
    pub open spec fn ready(self, samples: int) -> RetryState {
        RetryState {
            duration_ms: dictation::duration_of(samples, ASR_SAMPLE_RATE as int),
            ..self
        }.at(RetryAction::Recognize)
    }

    /// Where a run begins.
    pub open spec fn start(
        priors: Seq<PriorAttempt>,
        asr_engine: Seq<char>,
        blank: pipeline::StageUsage,
    ) -> RetryState {
        RetryState {
            priors,
            action: RetryAction::ReadAudio,
            opened: None,
            context: None,
            usage: blank,
            duration_ms: 0,
            failed_stage: None,
            error: None,
            asr_engine,
            asr_text: Seq::empty(),
            enhanced_text: Seq::empty(),
            corrected_text: Seq::empty(),
            corrector_engine: Seq::empty(),
            model_applied: false,
            fallback: None,
            completed: false,
        }.looking(0)
    }
}

/// Where a run stands after what came of its action.
pub open spec fn retry_next(run: RetryState, event: RetryAnswer) -> RetryState {
    match run.action {
        RetryAction::OpenContext { prior, .. } => match event {
            RetryAnswer::Opened(true) => run.settled(Some(prior as int)),
            _ => run.looking(prior + 1),
        },
        RetryAction::ReadAudio => match event {
            RetryAnswer::Audio { audio, sample_rate } => match retry_refusal(audio) {
                Some(error) => run.failed(PipelineStage::Preprocess, error),
                None => if sample_rate != ASR_SAMPLE_RATE {
                    run.at(RetryAction::Resample)
                } else {
                    run.ready(audio->samples as int)
                },
            },
            _ => run,
        },
        RetryAction::Resample => match event {
            RetryAnswer::Resampled { samples } => run.ready(samples as int),
            _ => run,
        },
        RetryAction::Recognize => match event {
            RetryAnswer::Failed(error) => run.failed(PipelineStage::Asr, error),
            RetryAnswer::Recognized { text, enhanced, engine } => RetryState {
                asr_text: text,
                enhanced_text: enhanced,
                asr_engine: engine,
                ..run
            }.at(RetryAction::Correct),
            _ => run,
        },
        RetryAction::Correct => match event {
            RetryAnswer::Failed(error) => RetryState { error: Some(error), ..run }.at(
                RetryAction::End,
            ),
            RetryAnswer::Corrected { text, engine, model_applied, fallback } => RetryState {
                corrected_text: text,
                corrector_engine: engine,
                model_applied,
                fallback,
                completed: true,
                ..run
            }.at(RetryAction::PersistResult),
            _ => run,
        },
        RetryAction::PersistFailure => run.at(RetryAction::End),
        RetryAction::PersistResult => match event {
            RetryAnswer::Failed(error) => RetryState { error: Some(error), ..run }.at(
                RetryAction::End,
            ),
            _ => run.at(RetryAction::End),
        },
        RetryAction::End => run,
    }
}

/// The event tells what came of the action: the run can go on.
pub open spec fn answers(action: RetryAction, event: RetryAnswer) -> bool {
    match action {
        RetryAction::ReadAudio => event is Audio,
        RetryAction::Resample => event is Resampled,
        RetryAction::Recognize => event is Recognized || event is Failed,
        RetryAction::Correct => event is Corrected || event is Failed,
        RetryAction::End => false,
        _ => true,
    }
}

/// How far a run is from its end.
pub open spec fn distance(run: RetryState) -> int {
    match run.action {
        RetryAction::OpenContext { prior, .. } => 7 + run.priors.len() - prior,
        RetryAction::ReadAudio => 6,
        RetryAction::Resample => 5,
        RetryAction::Recognize => 4,
        RetryAction::Correct => 3,
        RetryAction::PersistFailure | RetryAction::PersistResult => 1,
        RetryAction::End => 0,
    }
}

impl RetryState {
    /// What is known of a run at any time: a context that is opened is there, the
    /// texts are there from the correction on, and a stage that failed has left
    /// none.
    pub open spec fn valid(self) -> bool {
        &&& self.priors.len() <= usize::MAX
        &&& self.action matches RetryAction::OpenContext { prior, .. } ==> prior < self.priors.len()
        &&& self.completed ==> self.action is PersistResult || self.action is End
        &&& self.action is PersistResult ==> self.completed
        &&& self.action is PersistFailure ==> self.failed_stage is Some
        &&& self.failed_stage is Some ==> !self.completed && self.error is Some && (
        self.action is PersistFailure || self.action is End)
        &&& self.action is End && !self.completed ==> self.error is Some
    }
}

proof fn lemma_open_from(priors: Seq<PriorAttempt>, from: int)
    requires
        0 <= from,
    ensures
        open_from(priors, from) matches Some((at, usage)) ==> {
            &&& from <= at < priors.len()
            &&& 0 <= usage < priors[at].usages@.len()
            &&& priors[at].context is Some
            &&& shows_context(priors[at].usages@[usage]@)
        },
    decreases priors.len() - from,
{
    if from < priors.len() {
        lemma_shown_from(priors[from].usages@, 0);
        lemma_open_from(priors, from + 1);
    }
}

proof fn lemma_shown_from(usages: Seq<ContextStageUsage>, from: int)
    requires
        0 <= from,
    ensures
        shown_from(usages, from) matches Some(at) ==> from <= at < usages.len() && shows_context(
            usages[at]@,
        ),
    decreases usages.len() - from,
{
    if from < usages.len() {
        lemma_shown_from(usages, from + 1);
    }
}

/// Every run ends: whatever comes of an action, the run is nearer to its end.
pub proof fn every_run_ends(run: RetryState, event: RetryAnswer)
    requires
        run.valid(),
        answers(run.action, event),
    ensures
        retry_next(run, event).valid(),
        distance(retry_next(run, event)) < distance(run),
{
    if let RetryAction::OpenContext { prior, .. } = run.action {
        lemma_open_from(run.priors, prior + 1);
    }
}

/// What the corrector is shown again was shown to it before, in an attempt that
/// had context, and is not the personal dictionary.
pub proof fn only_shown_context_is_reopened(priors: Seq<PriorAttempt>, from: int)
    requires
        0 <= from,
    ensures
        open_from(priors, from) matches Some((at, usage)) ==> {
            &&& from <= at < priors.len()
            &&& 0 <= usage < priors[at].usages@.len()
            &&& priors[at].context is Some
            &&& shows_context(priors[at].usages@[usage]@)
        },
{
    lemma_open_from(priors, from);
}

/// A session gets new texts only from a run that recognized and corrected them: a
/// stage that failed leaves it as it was.
pub proof fn failed_retry_keeps_the_session(run: RetryState, event: RetryAnswer)
    requires
        run.valid(),
        !run.completed,
    ensures
        retry_next(run, event).completed ==> run.action is Correct && event is Corrected,
        run.failed_stage is Some ==> !retry_next(run, event).completed,
{
}

/// What a session is given by a run that is complete.
#[derive(Debug, Clone, PartialEq, Eq)]
pub struct RetriedSession {
    pub asr_raw: String,
    pub corrected: String,
    pub pasted: String,
    pub asr_engine: String,
    pub corrector_engine: String,
}

impl RetryRun {
    fn settle(&mut self, opened: Option<usize>)
        requires
            opened matches Some(at) ==> at < old(self).priors@.len(),
        ensures
            final(self)@ == old(self)@.settled(index(opened)),
    {
        let context: Option<usize> = retry_context(&self.priors, opened);
        let captured: bool = match context {
            Some(at) => match &self.priors[at].context {
                Some(context) => context.source_presence_bitmap != 0,
                None => false,
            },
            None => false,
        };
        let mut usage: ContextStageUsage = ContextStageUsage {
            stage: PipelineStage::Asr,
            sources: Vec::new(),
            projection_schema_version: 0,
            projection_path: None,
            projection_hash: None,
            projection_chars: 0,
            captured: false,
            selected: false,
            consumed: false,
            sent: false,
            not_used_reason: None,
        };
        std::mem::swap(&mut usage, &mut self.usage);
        self.usage = dictation::context_not_used(
            usage,
            captured,
            "captured_context_not_projected_to_asr",
        );
        self.opened = opened;
        self.context = context;
        self.action = RetryAction::ReadAudio;
    }

    fn look(&mut self, from: usize)
        ensures
            final(self)@ == old(self)@.looking(from as int),
    {
        match next_reusable(&self.priors, from) {
            Some((prior, usage)) => {
                self.action = RetryAction::OpenContext { prior, usage };
            },
            None => self.settle(None),
        }
    }

    fn fail(&mut self, stage: PipelineStage, error: String)
        ensures
            final(self)@ == old(self)@.failed(stage, error@),
    {
        self.failed_stage = Some(stage);
        self.error = Some(error);
        self.action = RetryAction::PersistFailure;
    }

    fn make_ready(&mut self, samples: usize)
        requires
            samples * 1000 <= u64::MAX,
        ensures
            final(self)@ == old(self)@.ready(samples as int),
    {
        self.duration_ms = dictation::capture_duration_ms(samples, ASR_SAMPLE_RATE);
        self.action = RetryAction::Recognize;
    }

    /// A run with the earlier attempts at the session; `blank` is a record without
    /// anything in it.
    pub fn new(
        provider: &str,
        engine: EngineKind,
        priors: Vec<PriorAttempt>,
        blank: ContextStageUsage,
    ) -> (r: Self)
        ensures
            r@ == RetryState::start(
                priors@,
                dictation::recorded_engine(provider@, engine),
                blank@,
            ),
    {
        let mut run: RetryRun = RetryRun {
            priors,
            action: RetryAction::ReadAudio,
            opened: None,
            context: None,
            usage: blank,
            duration_ms: 0,
            failed_stage: None,
            error: None,
            asr_engine: dictation::asr_engine_name(provider, engine),
            asr_text: String::new(),
            enhanced_text: String::new(),
            corrected_text: String::new(),
            corrector_engine: String::new(),
            model_applied: false,
            fallback: None,
            completed: false,
        };
        assert(run.asr_text@ =~= Seq::empty());
        assert(run.enhanced_text@ =~= Seq::empty());
        assert(run.corrected_text@ =~= Seq::empty());
        assert(run.corrector_engine@ =~= Seq::empty());
        run.look(0);
        run
    }

    /// What the corrector is handed, once it is its turn: the enhanced text, and not
    /// the one that is recorded.
    pub fn text_to_correct(&self) -> (r: Option<&str>)
        ensures
            r is Some <==> self.action is Correct,
            r matches Some(text) ==> text@ == self@.enhanced_text,
    {
        match self.action {
            RetryAction::Correct => Some(self.enhanced_text.as_str()),
            _ => None,
        }
    }

    /// Takes in what came of the action. An event that says nothing of it changes
    /// nothing.
    pub fn advance(&mut self, event: RetryEvent)
        requires
            event matches RetryEvent::Audio { audio: RetryAudio::Read { samples }, .. } ==> samples
                * 1000 <= u64::MAX,
            event matches RetryEvent::Resampled { samples } ==> samples * 1000 <= u64::MAX,
            old(self).action matches RetryAction::OpenContext { prior, .. } ==> prior < old(
                self,
            ).priors@.len(),
        ensures
            final(self)@ == retry_next(old(self)@, event@),
    {
        let count: usize = self.priors.len();
        assert(count == self.priors@.len());
        match self.action {
            RetryAction::OpenContext { prior, .. } => match event {
                RetryEvent::Opened(true) => self.settle(Some(prior)),
                _ => self.look(prior + 1),
            },
            RetryAction::ReadAudio => {
                if let RetryEvent::Audio { audio, sample_rate } = event {
                    match audio {
                        RetryAudio::Read { samples } => if samples == 0 {
                            self.fail(PipelineStage::Preprocess, "音频为空".to_owned());
                        } else if needs_resampling(sample_rate) {
                            self.action = RetryAction::Resample;
                        } else {
                            self.make_ready(samples);
                        },
                        RetryAudio::NoPath => self.fail(
                            PipelineStage::Preprocess,
                            "此会话没有音频，无法重新转写".to_owned(),
                        ),
                        RetryAudio::Unreadable(error) => self.fail(
                            PipelineStage::Preprocess,
                            error,
                        ),
                    }
                }
            },
            RetryAction::Resample => {
                if let RetryEvent::Resampled { samples } = event {
                    self.make_ready(samples);
                }
            },
            RetryAction::Recognize => match event {
                RetryEvent::Failed(error) => self.fail(PipelineStage::Asr, error),
                RetryEvent::Recognized { text, enhanced, engine } => {
                    self.asr_text = text;
                    self.enhanced_text = enhanced;
                    self.asr_engine = engine;
                    self.action = RetryAction::Correct;
                },
                _ => {},
            },
            RetryAction::Correct => match event {
                RetryEvent::Failed(error) => {
                    self.error = Some(error);
                    self.action = RetryAction::End;
                },
                RetryEvent::Corrected { text, engine, model_applied, fallback } => {
                    self.corrected_text = text;
                    self.corrector_engine = engine;
                    self.model_applied = model_applied;
                    self.fallback = fallback;
                    self.completed = true;
                    self.action = RetryAction::PersistResult;
                },
                _ => {},
            },
            RetryAction::PersistFailure => {
                self.action = RetryAction::End;
            },
            RetryAction::PersistResult => {
                if let RetryEvent::Failed(error) = event {
                    self.error = Some(error);
                }
                self.action = RetryAction::End;
            },
            RetryAction::End => {},
        }
    }

    /// What the session is given, where the run is complete.
    pub fn retried_session(&self) -> (r: Option<RetriedSession>)
        ensures
            r is Some <==> self.completed,
            r matches Some(session) ==> {
                &&& session.asr_raw@ == self.asr_text@
                &&& session.corrected@ == self.corrected_text@
                &&& session.pasted@ == self.corrected_text@
                &&& session.asr_engine@ == self.asr_engine@
                &&& session.corrector_engine@ == self.corrector_engine@
            },
    {
        if self.completed {
            Some(
                RetriedSession {
                    asr_raw: self.asr_text.as_str().to_owned(),
                    corrected: self.corrected_text.as_str().to_owned(),
                    pasted: self.corrected_text.as_str().to_owned(),
                    asr_engine: self.asr_engine.as_str().to_owned(),
                    corrector_engine: self.corrector_engine.as_str().to_owned(),
                },
            )
        } else {
            None
        }
    }

    /// What a run that is over comes to: the texts, or what the user is told.
    pub fn result(&self) -> (r: Result<RetryOutcome, String>)
        ensures
            match self@.error {
                Some(error) => text::fails(r, error),
                None => {
                    &&& r matches Ok(outcome)
                    &&& outcome.asr_text@ == self.asr_text@
                    &&& outcome.corrected_text@ == self.corrected_text@
                    &&& outcome.asr_engine@ == self.asr_engine@
                    &&& outcome.corrector_engine@ == self.corrector_engine@
                    &&& outcome.model_applied == self.model_applied
                    &&& text::opt(outcome.fallback_reason) == text::opt(self.fallback)
                },
            },
    {
        match &self.error {
            Some(error) => Err(error.as_str().to_owned()),
            None => Ok(
                RetryOutcome {
                    asr_text: self.asr_text.as_str().to_owned(),
                    corrected_text: self.corrected_text.as_str().to_owned(),
                    asr_engine: self.asr_engine.as_str().to_owned(),
                    corrector_engine: self.corrector_engine.as_str().to_owned(),
                    model_applied: self.model_applied,
                    fallback_reason: text::copy_opt(&self.fallback),
                },
            ),
        }
    }
}

/// What a second transcription came to, beside the session it is recorded in.
#[derive(Debug, Clone, PartialEq, Eq)]
pub struct RetryOutcome {
    pub asr_text: String,
    pub corrected_text: String,
    pub asr_engine: String,
    pub corrector_engine: String,
    pub model_applied: bool,
    pub fallback_reason: Option<String>,
}

// ---------------------------------------------------------------------------
// Laws of a second transcription
// ---------------------------------------------------------------------------

/// What is recognized is kept as it is, beside what is made of it for the corrector, and
/// the engine that recognized it is recorded.
pub proof fn retried_text_is_kept(
    run: RetryState,
    text: Seq<char>,
    enhanced: Seq<char>,
    engine: Seq<char>,
)
    requires
        run.action is Recognize,
    ensures
        ({
            let next = retry_next(run, RetryAnswer::Recognized { text, enhanced, engine });
            &&& next.action is Correct
            &&& next.asr_text == text
            &&& next.enhanced_text == enhanced
            &&& next.asr_engine == engine
            &&& next.corrected_text == run.corrected_text
            &&& next.error == run.error
            &&& next.failed_stage == run.failed_stage
            &&& next.duration_ms == run.duration_ms
            &&& next.usage == run.usage
            &&& next.opened == run.opened
            &&& next.context == run.context
            &&& !next.completed || run.completed
        }),
{
}

/// What the corrector answers is the text of the session, whether its model was applied
/// or not, and the run is complete.
pub proof fn retried_correction_is_the_answer(
    run: RetryState,
    text: Seq<char>,
    engine: Seq<char>,
    model_applied: bool,
    fallback: Option<Seq<char>>,
)
    requires
        run.action is Correct,
    ensures
        ({
            let next = retry_next(
                run,
                RetryAnswer::Corrected { text, engine, model_applied, fallback },
            );
            &&& next.action is PersistResult
            &&& next.corrected_text == text
            &&& next.corrector_engine == engine
            &&& next.model_applied == model_applied
            &&& next.fallback == fallback
            &&& next.completed
            &&& next.asr_text == run.asr_text
            &&& next.enhanced_text == run.enhanced_text
            &&& next.asr_engine == run.asr_engine
            &&& next.error == run.error
            &&& next.duration_ms == run.duration_ms
            &&& next.usage == run.usage
        }),
{
}

/// Audio that is there is recognized, at once where it has the rate of recognition and
/// once it is brought to it where it has another; its length is told in milliseconds.
pub proof fn audio_is_recognized(run: RetryState, samples: usize, sample_rate: u32)
    requires
        samples > 0,
    ensures
        run.action is ReadAudio && sample_rate == 16_000 ==> ({
            let next = retry_next(
                run,
                RetryAnswer::Audio { audio: RetryAudio::Read { samples }, sample_rate },
            );
            next.action is Recognize && 16 * next.duration_ms <= samples < 16 * (next.duration_ms
                + 1)
        }),
        run.action is ReadAudio && sample_rate != 16_000 ==> retry_next(
            run,
            RetryAnswer::Audio { audio: RetryAudio::Read { samples }, sample_rate },
        ).action is Resample,
        run.action is Resample ==> ({
            let next = retry_next(run, RetryAnswer::Resampled { samples: samples as nat });
            next.action is Recognize && 16 * next.duration_ms <= samples < 16 * (next.duration_ms
                + 1)
        }),
{
}

/// Audio that is missing, cannot be read or is empty fails before it is recognized, and
/// the user is told why.
pub proof fn missing_audio_is_told(run: RetryState, error: String, sample_rate: u32)
    requires
        run.action is ReadAudio,
    ensures
        ({
            let next = retry_next(
                run,
                RetryAnswer::Audio { audio: RetryAudio::NoPath, sample_rate },
            );
            &&& next.action is PersistFailure
            &&& next.failed_stage == Some(PipelineStage::Preprocess)
            &&& next.error == Some("此会话没有音频，无法重新转写"@)
        }),
        ({
            let next = retry_next(
                run,
                RetryAnswer::Audio { audio: RetryAudio::Unreadable(error), sample_rate },
            );
            &&& next.action is PersistFailure
            &&& next.failed_stage == Some(PipelineStage::Preprocess)
            &&& next.error == Some(error@)
        }),
        ({
            let next = retry_next(
                run,
                RetryAnswer::Audio { audio: RetryAudio::Read { samples: 0 }, sample_rate },
            );
            &&& next.action is PersistFailure
            &&& next.failed_stage == Some(PipelineStage::Preprocess)
            &&& next.error == Some("音频为空"@)
        }),
{
}

/// An error of a stage is what the user is told: one of recognition is recorded as its
/// failure, and one of the correction or of the record ends the run.
pub proof fn errors_are_told(run: RetryState, error: Seq<char>)
    ensures
        ({
            let next = retry_next(run, RetryAnswer::Failed(error));
            &&& run.action is Recognize ==> next.action is PersistFailure && next.failed_stage
                == Some(PipelineStage::Asr) && next.error == Some(error)
            &&& run.action is Correct ==> next.action is End && next.error == Some(error)
                && next.completed == run.completed && next.failed_stage == run.failed_stage
            &&& run.action is PersistResult ==> next.action is End && next.error == Some(error)
                && next.corrected_text == run.corrected_text && next.asr_text == run.asr_text
            &&& run.action is PersistFailure ==> next.action is End && next.error == run.error
        }),
        run.action is PersistResult ==> retry_next(run, RetryAnswer::Done) == (RetryState {
            action: RetryAction::End,
            ..run
        }),
        run.action is PersistFailure ==> retry_next(run, RetryAnswer::Done) == (RetryState {
            action: RetryAction::End,
            ..run
        }),
        run.action is End ==> retry_next(run, RetryAnswer::Failed(error)) == run,
{
}

/// The first attempt that has context and showed it is opened: no attempt before it does
/// both. Its first usage that shows context is the one that is opened.
pub proof fn first_shown_context_is_opened(priors: Seq<PriorAttempt>, from: int, i: int, j: int)
    requires
        0 <= from <= i < priors.len(),
        0 <= j < priors[i].usages@.len(),
        priors[i].context is Some,
        priors[i].usages@[j]@.stage is Corrector,
        priors[i].usages@[j]@.sent,
        priors[i].usages@[j]@.projection_path is Some,
        !priors[i].usages@[j]@.sources.contains("personal_dictionary"@),
    ensures
        open_from(priors, from) matches Some((at, usage)) && at <= i && (at == i ==> usage <= j),
    decreases priors.len() - from,
{
    lemma_found(priors[from].usages@, 0, j);
    if from < i {
        first_shown_context_is_opened(priors, from + 1, i, j);
        lemma_open_from(priors, from + 1);
    }
}

proof fn lemma_found(usages: Seq<ContextStageUsage>, from: int, j: int)
    ensures
        0 <= from <= j < usages.len() && shows_context(usages[j]@) ==> (shown_from(usages, from)
            matches Some(at) && at <= j),
    decreases usages.len() - from,
{
    if 0 <= from < j < usages.len() {
        lemma_found(usages, from + 1, j);
    }
}

/// Context that was opened is what the attempt refers to; where none is, it refers to the
/// first attempt that has any. None of it is given to recognition, which is recorded.
pub proof fn opened_context_is_referred_to(run: RetryState, prior: usize, usage: usize)
    requires
        run.action == (RetryAction::OpenContext { prior, usage }),
        prior < run.priors.len(),
        run.priors[prior as int].context is Some,
    ensures
        ({
            let next = retry_next(run, RetryAnswer::Opened(true));
            &&& next.action is ReadAudio
            &&& next.opened == Some(prior as int)
            &&& next.context == Some(prior as int)
            &&& next.usage.stage is Asr
            &&& next.usage.sources == seq!["captured_context"@]
            &&& next.usage.not_used_reason == Some("captured_context_not_projected_to_asr"@)
            &&& next.usage.captured <==> run.priors[prior as int].context->0.source_presence_bitmap
                != 0
            &&& next.usage.sent == run.usage.sent
        }),
        retry_next(run, RetryAnswer::Opened(false)).opened is Some ==> run.opened is Some,
{
    lemma_open_from(run.priors, prior + 1);
}

/// Where no context can be opened, the attempt refers to the first that has any, or to
/// none.
pub proof fn first_context_is_referred_to(run: RetryState, i: int)
    requires
        0 <= i < run.priors.len(),
        run.priors[i].context is Some,
    ensures
        ({
            let next = run.settled(None);
            &&& next.opened is None
            &&& next.context matches Some(at) && 0 <= at <= i && run.priors[at].context is Some
            &&& next.action is ReadAudio
        }),
{
    lemma_first_context(run.priors, 0, i);
}

proof fn lemma_first_context(priors: Seq<PriorAttempt>, from: int, i: int)
    requires
        0 <= from <= i < priors.len(),
        priors[i].context is Some,
    ensures
        context_from(priors, from) matches Some(at) && from <= at <= i && priors[at].context
            is Some,
    decreases priors.len() - from,
{
    if !(priors[from].context is Some) {
        lemma_first_context(priors, from + 1, i);
    }
}

/// A run begins without any text, error or result, with the engine that is configured.
pub proof fn retry_begins_empty(
    priors: Seq<PriorAttempt>,
    asr_engine: Seq<char>,
    blank: pipeline::StageUsage,
)
    ensures
        ({
            let run = RetryState::start(priors, asr_engine, blank);
            &&& run.priors == priors
            &&& run.asr_engine == asr_engine
            &&& run.asr_text.len() == 0
            &&& run.enhanced_text.len() == 0
            &&& run.corrected_text.len() == 0
            &&& run.corrector_engine.len() == 0
            &&& run.error is None
            &&& run.failed_stage is None
            &&& run.fallback is None
            &&& !run.completed
            &&& !run.model_applied
            &&& run.duration_ms == 0
            &&& run.opened is None
            &&& run.action is OpenContext || run.action is ReadAudio
            &&& priors.len() == 0 ==> run.action is ReadAudio && run.context is None
        }),
{
}

/// What has been settled stays: no step but its own changes the texts, the engines or
/// the attempts of a run.
pub proof fn settled_texts_stay(run: RetryState, event: RetryAnswer)
    ensures
        ({
            let next = retry_next(run, event);
            &&& next.priors == run.priors
            &&& !(run.action is Recognize) ==> next.asr_text == run.asr_text && next.enhanced_text
                == run.enhanced_text && next.asr_engine == run.asr_engine
            &&& !(run.action is Correct) ==> next.corrected_text == run.corrected_text
                && next.corrector_engine == run.corrector_engine && next.model_applied
                == run.model_applied && next.fallback == run.fallback && next.completed
                == run.completed
            &&& !(run.action is ReadAudio || run.action is Resample) ==> next.duration_ms
                == run.duration_ms
            &&& !(run.action is OpenContext) ==> next.opened == run.opened && next.context
                == run.context && next.usage == run.usage
            &&& run.error is Some ==> next.error is Some
        }),
{
}

/// An event that does not belong to the action changes nothing.
pub proof fn foreign_events_change_nothing(run: RetryState, event: RetryAnswer)
    ensures
        run.action is ReadAudio && !(event is Audio) ==> retry_next(run, event) == run,
        run.action is Resample && !(event is Resampled) ==> retry_next(run, event) == run,
        run.action is Recognize && !(event is Recognized || event is Failed) ==> retry_next(
            run,
            event,
        ) == run,
        run.action is Correct && !(event is Corrected || event is Failed) ==> retry_next(run, event)
            == run,
        run.action is End ==> retry_next(run, event) == run,
{
}

/// A run and what happens to it are seen as they are.
pub proof fn retry_is_seen_as_it_is(run: RetryRun, event: RetryEvent)
    ensures
        run@.priors == run.priors@,
        run@.action == run.action,
        run@.asr_text == run.asr_text@,
        run@.enhanced_text == run.enhanced_text@,
        run@.corrected_text == run.corrected_text@,
        run@.asr_engine == run.asr_engine@,
        run@.corrector_engine == run.corrector_engine@,
        run@.model_applied == run.model_applied,
        run@.completed == run.completed,
        run@.duration_ms == run.duration_ms,
        run@.failed_stage == run.failed_stage,
        run@.usage == run.usage@,
        run.error matches Some(error) ==> run@.error == Some(error@),
        run@.error is Some <==> run.error is Some,
        run.fallback matches Some(fallback) ==> run@.fallback == Some(fallback@),
        run@.fallback is Some <==> run.fallback is Some,
        run.opened matches Some(at) ==> run@.opened == Some(at as int),
        run@.opened is Some <==> run.opened is Some,
        run.context matches Some(at) ==> run@.context == Some(at as int),
        run@.context is Some <==> run.context is Some,
        event matches RetryEvent::Failed(error) ==> event@ == RetryAnswer::Failed(error@),
        event matches RetryEvent::Opened(b) ==> event@ == RetryAnswer::Opened(b),
        event matches RetryEvent::Resampled { samples } ==> event@ == (RetryAnswer::Resampled {
            samples: samples as nat,
        }),
        event matches RetryEvent::Audio { audio, sample_rate } ==> event@ == (RetryAnswer::Audio {
            audio,
            sample_rate,
        }),
        event matches RetryEvent::Recognized { text, enhanced, engine } ==> event@ == (
        RetryAnswer::Recognized { text: text@, enhanced: enhanced@, engine: engine@ }),
        event matches RetryEvent::Corrected { text, engine, model_applied, fallback } ==> event@
            == (RetryAnswer::Corrected {
            text: text@,
            engine: engine@,
            model_applied,
            fallback: text::opt(fallback),
        }),
{
}

} // verus!
