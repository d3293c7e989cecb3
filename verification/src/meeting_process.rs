//! A headless meeting run: the steps from the audio file to the transcript, the
//! engine that it uses, and what it prints.
use crate::headless;
use crate::headless::EngineChoice;
use crate::headless::MeetingProcessCli;
use crate::headless::OutputFormat;
use crate::paths;
use crate::platform::Platform;
use crate::text;
use vstd::prelude::*;
use vstd::string::*;

verus! {

// ---------------------------------------------------------------------------
// The engine
// ---------------------------------------------------------------------------

/// An engine that is ready to be made.
#[derive(Debug, Clone, PartialEq, Eq)]
pub enum EnginePlan {
    SenseVoice { dir: String, lang: Option<String> },
    Qwen { dir: String, lang: Option<String>, timeout_secs: u64 },
    MlxWhisper { python: String, model: String, lang: Option<String>, timeout_secs: u64 },
    Whisper { dir: String, lang: String },
}

/// An engine as a value.
pub enum EngineModel {
    SenseVoice { dir: Seq<char>, lang: Option<Seq<char>> },
    Qwen { dir: Seq<char>, lang: Option<Seq<char>>, timeout_secs: u64 },
    MlxWhisper { python: Seq<char>, model: Seq<char>, lang: Option<Seq<char>>, timeout_secs: u64 },
    Whisper { dir: Seq<char>, lang: Seq<char> },
}

impl View for EnginePlan {
    type V = EngineModel;

    open spec fn view(&self) -> EngineModel {
        match *self {
            EnginePlan::SenseVoice { dir, lang } => EngineModel::SenseVoice {
                dir: dir@,
                lang: text::opt(lang),
            },
            EnginePlan::Qwen { dir, lang, timeout_secs } => EngineModel::Qwen {
                dir: dir@,
                lang: text::opt(lang),
                timeout_secs,
            },
            EnginePlan::MlxWhisper { python, model, lang, timeout_secs } => EngineModel::MlxWhisper {
                python: python@,
                model: model@,
                lang: text::opt(lang),
                timeout_secs,
            },
            EnginePlan::Whisper { dir, lang } => EngineModel::Whisper { dir: dir@, lang: lang@ },
        }
    }
}

/// Where an engine's model was found, and whether it is complete.
#[derive(Debug, Clone, PartialEq, Eq)]
pub struct ModelDir {
    pub dir: String,
    pub ready: bool,
}

/// The engine of a choice, or why there is none.
pub open spec fn engine_planned(
    choice: EngineChoice,
    found: Option<(Seq<char>, bool)>,
    python: Seq<char>,
    model: Seq<char>,
    lang: Option<Seq<char>>,
) -> Result<EngineModel, Seq<char>> {
    match (choice, found) {
        (EngineChoice::SenseVoice, None) => Err(
            "no SenseVoice model dir resolved — install it first"@,
        ),
        (EngineChoice::SenseVoice, Some((dir, ready))) => if ready {
            Ok(EngineModel::SenseVoice { dir, lang })
        } else {
            Err("SenseVoice model not ready under "@ + dir)
        },
        (EngineChoice::Qwen, None) => Err("no Qwen3-ASR model dir resolved — install it first"@),
        (EngineChoice::Qwen, Some((dir, ready))) => if ready {
            Ok(EngineModel::Qwen { dir, lang, timeout_secs: 600 })
        } else {
            Err("Qwen3-ASR model not ready under "@ + dir)
        },
        (EngineChoice::MlxWhisper, _) => Ok(
            EngineModel::MlxWhisper { python, model, lang, timeout_secs: 900 },
        ),
        (EngineChoice::Whisper, found) => {
            let (dir, ready) = match found {
                Some((dir, ready)) => (dir, ready),
                None => (""@, false),
            };
            if ready {
                Ok(
                    EngineModel::Whisper {
                        dir,
                        lang: match lang {
                            Some(lang) => lang,
                            None => "en"@,
                        },
                    },
                )
            } else {
                Err(
                    "Whisper model not ready under "@ + dir
                        + " (CPU sherpa; use --engine mlx-whisper for production)"@,
                )
            }
        },
    }
}

/// The engine of a choice: `found` is the directory of its model, `python` and
/// `model` are for mlx-whisper.
pub fn build_engine(
    choice: EngineChoice,
    found: Option<ModelDir>,
    python: String,
    model: String,
    lang: Option<String>,
) -> (r: Result<EnginePlan, String>)
    ensures
        match engine_planned(
            choice,
            match found {
                Some(found) => Some((found.dir@, found.ready)),
                None => None,
            },
            python@,
            model@,
            text::opt(lang),
        ) {
            Ok(engine) => r matches Ok(plan) && plan@ == engine,
            Err(error) => text::fails(r, error),
        },
{
    match choice {
        EngineChoice::SenseVoice => match found {
            None => Err("no SenseVoice model dir resolved — install it first".to_owned()),
            Some(found) => if found.ready {
                Ok(EnginePlan::SenseVoice { dir: found.dir, lang })
            } else {
                Err(text::glue("SenseVoice model not ready under ", found.dir.as_str()))
            },
        },
        EngineChoice::Qwen => match found {
            None => Err("no Qwen3-ASR model dir resolved — install it first".to_owned()),
            Some(found) => if found.ready {
                Ok(EnginePlan::Qwen { dir: found.dir, lang, timeout_secs: 600 })
            } else {
                Err(text::glue("Qwen3-ASR model not ready under ", found.dir.as_str()))
            },
        },
        EngineChoice::MlxWhisper => Ok(
            EnginePlan::MlxWhisper { python, model, lang, timeout_secs: 900 },
        ),
        EngineChoice::Whisper => {
            let (dir, ready): (String, bool) = match found {
                Some(found) => (found.dir, found.ready),
                None => ("".to_owned(), false),
            };
            if ready {
                let lang: String = match lang {
                    Some(lang) => lang,
                    None => "en".to_owned(),
                };
                Ok(EnginePlan::Whisper { dir, lang })
            } else {
                Err(
                    text::glue3(
                        "Whisper model not ready under ",
                        dir.as_str(),
                        " (CPU sherpa; use --engine mlx-whisper for production)",
                    ),
                )
            }
        },
    }
}

// ---------------------------------------------------------------------------
// The language of a run
// ---------------------------------------------------------------------------

impl MeetingProcessCli {
    /// The language hint of the run.
    pub open spec fn hint(self) -> Option<Seq<char>> {
        match self.lang {
            Some(lang) => headless::lang_hint(lang@),
            None => None,
        }
    }

    /// The language that the transcript names: the hint, or what was written.
    pub open spec fn spoken(self) -> Option<Seq<char>> {
        match self.hint() {
            Some(hint) => Some(hint),
            None => text::opt(self.lang),
        }
    }

    /// The title of the run.
    pub open spec fn titled(self, windows: bool) -> Seq<char> {
        match paths::stem_of(self.audio@, windows) {
            Some(stem) => stem,
            None => "offline"@,
        }
    }

    /// The language hint that the engine is given.
    pub fn language_hint(&self) -> (r: Option<String>)
        ensures
            text::opt(r) == self.hint(),
    {
        match &self.lang {
            Some(lang) => headless::normalize_lang_hint(lang.as_str(), self.engine),
            None => None,
        }
    }

    /// The language that the transcript names.
    pub fn transcript_language(&self) -> (r: Option<String>)
        ensures
            text::opt(r) == self.spoken(),
    {
        match self.language_hint() {
            Some(hint) => Some(hint),
            None => text::copy_opt(&self.lang),
        }
    }

    /// The tag of the source lines. An alias such as `Español` is tagged by its
    /// code.
    pub fn source_tag(&self) -> (r: String)
        ensures
            r@ == headless::source_tag(self.spoken()),
    {
        match self.transcript_language() {
            Some(lang) => headless::source_lang_tag(Some(lang.as_str())),
            None => headless::source_lang_tag(None),
        }
    }

    /// The title of the run: the audio file's name without its extension.
    pub fn title(&self, platform: Platform) -> (r: String)
        ensures
            r@ == self.titled(platform is Windows),
    {
        match paths::file_stem(self.audio.as_str(), platform) {
            Some(stem) => stem,
            None => "offline".to_owned(),
        }
    }
}

// ---------------------------------------------------------------------------
// The steps of a run
// ---------------------------------------------------------------------------

/// What a run does next.
#[derive(Debug, Clone, Copy, PartialEq, Eq, Structural)]
pub enum ProcessAction {
    FindAudio,
    ConvertAudio,
    BuildEngine,
    MakeWorkDir,
    OpenStore,
    Transcribe,
    WriteMinutes,
    Translate,
    ReadSegments,
    ReadDetail,
    PrintText,
    PrintJson,
    PrintBilingual,
    PrintTranslatedJson,
    ExportData,
    ExportTranslatedData,
    RemoveWorkDir,
    RemoveAudioDir,
    Exit,
}

/// How the action went.
#[derive(Debug, Clone, PartialEq, Eq)]
pub enum ProcessEvent {
    Done,
    /// The audio was converted into a directory of its own.
    Converted,
    /// There was nothing: no translation, or no meeting.
    Nothing,
    Failed(String),
}

/// How the action went, as a value.
pub enum Outcome {
    Done,
    Converted,
    Nothing,
    Failed(Seq<char>),
}

impl View for ProcessEvent {
    type V = Outcome;

    open spec fn view(&self) -> Outcome {
        match *self {
            ProcessEvent::Done => Outcome::Done,
            ProcessEvent::Converted => Outcome::Converted,
            ProcessEvent::Nothing => Outcome::Nothing,
            ProcessEvent::Failed(reason) => Outcome::Failed(reason@),
        }
    }
}

/// Where a run stands.
#[derive(Debug, Clone, Copy, PartialEq, Eq, Structural)]
pub struct ProcessState {
    pub action: ProcessAction,
    /// The directory of the converted audio is there.
    pub audio_dir: bool,
    /// The directory of the run is there.
    pub work_dir: bool,
    /// There are translations.
    pub translated: bool,
    /// The exit code; nothing but written output makes it zero.
    pub code: i32,
}

impl ProcessState {
    pub open spec fn at(self, action: ProcessAction) -> ProcessState {
        ProcessState { action, ..self }
    }

    /// On the way out with an exit code: what was made is removed first.
    pub open spec fn leaving(self, code: i32) -> ProcessState {
        let action = if self.work_dir {
            ProcessAction::RemoveWorkDir
        } else if self.audio_dir {
            ProcessAction::RemoveAudioDir
        } else {
            ProcessAction::Exit
        };
        ProcessState { action, code, ..self }
    }

    /// The converted audio goes after the directory of the run, and both are gone
    /// at the end.
    pub open spec fn valid(self) -> bool {
        &&& self.action is RemoveAudioDir ==> !self.work_dir
        &&& self.action is Exit ==> !self.work_dir && !self.audio_dir
    }

    /// The run puts its output out.
    pub open spec fn at_output(self) -> bool {
        match self.action {
            ProcessAction::PrintText
            | ProcessAction::PrintJson
            | ProcessAction::PrintBilingual
            | ProcessAction::PrintTranslatedJson
            | ProcessAction::ExportData
            | ProcessAction::ExportTranslatedData => true,
            _ => false,
        }
    }
}

pub open spec fn format_name(format: OutputFormat) -> Seq<char> {
    match format {
        OutputFormat::Text => "Text"@,
        OutputFormat::Json => "Json"@,
        OutputFormat::TranscriptV1 => "TranscriptV1"@,
        OutputFormat::Bilingual => "Bilingual"@,
    }
}

/// What reads the result of the run.
pub open spec fn reading(format: OutputFormat) -> ProcessAction {
    match format {
        OutputFormat::TranscriptV1 => ProcessAction::ReadDetail,
        _ => ProcessAction::ReadSegments,
    }
}

/// What follows the transcription and the minutes.
pub open spec fn after_minutes(cli: headless::ProcessArgs) -> ProcessAction {
    if cli.translate_langs.len() > 0 {
        ProcessAction::Translate
    } else {
        reading(cli.format)
    }
}

/// How segments are printed.
pub open spec fn printing(format: OutputFormat, translated: bool) -> ProcessAction {
    match format {
        OutputFormat::Bilingual => ProcessAction::PrintBilingual,
        OutputFormat::Json => if translated {
            ProcessAction::PrintTranslatedJson
        } else {
            ProcessAction::PrintJson
        },
        _ => if translated {
            ProcessAction::PrintBilingual
        } else {
            ProcessAction::PrintText
        },
    }
}

/// The words before the reason with which an action failed.
pub open spec fn failure_prefix(action: ProcessAction) -> Seq<char> {
    match action {
        ProcessAction::MakeWorkDir => "meeting process: create temp dir: "@,
        ProcessAction::OpenStore => "meeting process: open store: "@,
        ProcessAction::WriteMinutes => "meeting process: minutes skipped: "@,
        ProcessAction::Translate => "meeting process: translate: "@,
        ProcessAction::ReadSegments => "meeting process: read segments: "@,
        ProcessAction::ReadDetail => "meeting process: load detail: "@,
        ProcessAction::PrintJson => "meeting process: serialize json: "@,
        ProcessAction::PrintTranslatedJson => "meeting process: serialize: "@,
        ProcessAction::ExportData => "meeting process: export transcript-v1: "@,
        ProcessAction::ExportTranslatedData => "meeting process: export bilingual transcript-v1: "@,
        _ => "meeting process: "@,
    }
}

/// The state after an action that went well.
pub open spec fn went_well(
    cli: headless::ProcessArgs,
    state: ProcessState,
    outcome: Outcome,
) -> (ProcessState, Option<Seq<char>>) {
    match state.action {
        ProcessAction::FindAudio => if headless::engine_takes(cli.engine, cli.lang) {
            (state.at(ProcessAction::ConvertAudio), None)
        } else {
            (
                state.leaving(2),
                Some(
                    "meeting process: "@ + headless::unsupported(text::trim(cli.lang->0)),
                ),
            )
        },
        ProcessAction::ConvertAudio => if outcome is Converted {
            (
                ProcessState { audio_dir: true, ..state.at(ProcessAction::BuildEngine) },
                Some(
                    "meeting process: converted "@ + cli.audio->0 + " → 16 kHz mono wav"@,
                ),
            )
        } else {
            (state.at(ProcessAction::BuildEngine), None)
        },
        ProcessAction::BuildEngine => (state.at(ProcessAction::MakeWorkDir), None),
        ProcessAction::MakeWorkDir => (
            ProcessState { work_dir: true, ..state.at(ProcessAction::OpenStore) },
            None,
        ),
        ProcessAction::OpenStore => (state.at(ProcessAction::Transcribe), None),
        ProcessAction::Transcribe => if cli.minutes {
            (state.at(ProcessAction::WriteMinutes), None)
        } else {
            (state.at(after_minutes(cli)), None)
        },
        ProcessAction::WriteMinutes => (state.at(after_minutes(cli)), None),
        ProcessAction::Translate => (
            ProcessState { translated: !(outcome is Nothing), ..state.at(reading(cli.format)) },
            None,
        ),
        ProcessAction::ReadSegments => (state.at(printing(cli.format, state.translated)), None),
        ProcessAction::ReadDetail => if outcome is Nothing {
            (state.leaving(1), Some("meeting process: meeting missing after process"@))
        } else if state.translated {
            (state.at(ProcessAction::ExportTranslatedData), None)
        } else {
            (state.at(ProcessAction::ExportData), None)
        },
        _ => (state.leaving(0), None),
    }
}

/// The state after an action that failed.
pub open spec fn went_wrong(
    cli: headless::ProcessArgs,
    state: ProcessState,
    reason: Seq<char>,
) -> (ProcessState, Option<Seq<char>>) {
    let note = Some(failure_prefix(state.action) + reason);
    match state.action {
        ProcessAction::FindAudio => (
            state.leaving(2),
            Some("meeting process: no such file: "@ + cli.audio->0),
        ),
        ProcessAction::WriteMinutes => (state.at(after_minutes(cli)), note),
        _ => (state.leaving(1), note),
    }
}

/// The state after a directory was removed, whether or not that went well.
pub open spec fn removed(state: ProcessState) -> ProcessState {
    let left = if state.action is RemoveWorkDir {
        ProcessState { work_dir: false, ..state }
    } else {
        ProcessState { audio_dir: false, ..state }
    };
    left.leaving(state.code)
}

/// Where the run stands after the outcome of its action, and what it says: a run
/// that ends well says so last.
pub open spec fn process_next(
    cli: headless::ProcessArgs,
    state: ProcessState,
    outcome: Outcome,
) -> (ProcessState, Option<Seq<char>>) {
    let (next, note) = match state.action {
        ProcessAction::Exit => (state, None),
        ProcessAction::RemoveWorkDir | ProcessAction::RemoveAudioDir => (removed(state), None),
        _ => match outcome {
            Outcome::Failed(reason) => went_wrong(cli, state, reason),
            _ => went_well(cli, state, outcome),
        },
    };
    if !(state.action is Exit) && next.action is Exit && next.code == 0 {
        (
            next,
            Some(
                "meeting process: done engine="@ + cli.engine.name() + " format="@ + format_name(
                    cli.format,
                ),
            ),
        )
    } else {
        (next, note)
    }
}

/// Where a run begins.
pub open spec fn process_start() -> ProcessState {
    ProcessState {
        action: ProcessAction::FindAudio,
        audio_dir: false,
        work_dir: false,
        translated: false,
        code: 1,
    }
}

/// A run of `meeting process`.
#[derive(Debug, Clone, PartialEq, Eq)]
pub struct MeetingRun {
    pub cli: MeetingProcessCli,
    pub state: ProcessState,
}

fn reading_of(format: OutputFormat) -> (r: ProcessAction)
    ensures
        r == reading(format),
{
    match format {
        OutputFormat::TranscriptV1 => ProcessAction::ReadDetail,
        _ => ProcessAction::ReadSegments,
    }
}

fn printing_of(format: OutputFormat, translated: bool) -> (r: ProcessAction)
    ensures
        r == printing(format, translated),
{
    match format {
        OutputFormat::Bilingual => ProcessAction::PrintBilingual,
        OutputFormat::Json => if translated {
            ProcessAction::PrintTranslatedJson
        } else {
            ProcessAction::PrintJson
        },
        _ => if translated {
            ProcessAction::PrintBilingual
        } else {
            ProcessAction::PrintText
        },
    }
}

fn failure_words(action: ProcessAction) -> (r: &'static str)
    ensures
        r@ == failure_prefix(action),
{
    match action {
        ProcessAction::MakeWorkDir => "meeting process: create temp dir: ",
        ProcessAction::OpenStore => "meeting process: open store: ",
        ProcessAction::WriteMinutes => "meeting process: minutes skipped: ",
        ProcessAction::Translate => "meeting process: translate: ",
        ProcessAction::ReadSegments => "meeting process: read segments: ",
        ProcessAction::ReadDetail => "meeting process: load detail: ",
        ProcessAction::PrintJson => "meeting process: serialize json: ",
        ProcessAction::PrintTranslatedJson => "meeting process: serialize: ",
        ProcessAction::ExportData => "meeting process: export transcript-v1: ",
        ProcessAction::ExportTranslatedData => "meeting process: export bilingual transcript-v1: ",
        _ => "meeting process: ",
    }
}

fn format_words(format: OutputFormat) -> (r: &'static str)
    ensures
        r@ == format_name(format),
{
    match format {
        OutputFormat::Text => "Text",
        OutputFormat::Json => "Json",
        OutputFormat::TranscriptV1 => "TranscriptV1",
        OutputFormat::Bilingual => "Bilingual",
    }
}

impl ProcessState {
    fn leave(&mut self, code: i32)
        ensures
            *final(self) == old(self).leaving(code),
    {
        self.code = code;
        self.action = if self.work_dir {
            ProcessAction::RemoveWorkDir
        } else if self.audio_dir {
            ProcessAction::RemoveAudioDir
        } else {
            ProcessAction::Exit
        };
    }
}

impl MeetingRun {
    /// A run of what was asked for.
    pub fn new(cli: MeetingProcessCli) -> (r: Self)
        ensures
            r.cli == cli,
            r.state == process_start(),
    {
        MeetingRun {
            cli,
            state: ProcessState {
                action: ProcessAction::FindAudio,
                audio_dir: false,
                work_dir: false,
                translated: false,
                code: 1,
            },
        }
    }

    fn after_minutes(&self) -> (r: ProcessAction)
        ensures
            r == after_minutes(self.cli@),
    {
        if self.cli.translate_langs.len() > 0 {
            ProcessAction::Translate
        } else {
            reading_of(self.cli.format)
        }
    }

    fn succeed(&mut self, event: &ProcessEvent) -> (note: Option<String>)
        requires
            !(event is Failed),
        ensures
            final(self).cli == old(self).cli,
            (final(self).state, text::opt(note)) == went_well(
                old(self).cli@,
                old(self).state,
                event@,
            ),
    {
        match self.state.action {
            ProcessAction::FindAudio => {
                let lang: Option<&str> = match &self.cli.lang {
                    Some(lang) => Some(lang.as_str()),
                    None => None,
                };
                match headless::check_engine_lang(self.cli.engine, lang) {
                    Ok(()) => {
                        self.state.action = ProcessAction::ConvertAudio;
                        None
                    },
                    Err(error) => {
                        self.state.leave(2);
                        Some(text::glue("meeting process: ", error.as_str()))
                    },
                }
            },
            ProcessAction::ConvertAudio => {
                self.state.action = ProcessAction::BuildEngine;
                match event {
                    ProcessEvent::Converted => {
                        self.state.audio_dir = true;
                        Some(
                            text::glue3(
                                "meeting process: converted ",
                                self.cli.audio.as_str(),
                                " → 16 kHz mono wav",
                            ),
                        )
                    },
                    _ => None,
                }
            },
            ProcessAction::BuildEngine => {
                self.state.action = ProcessAction::MakeWorkDir;
                None
            },
            ProcessAction::MakeWorkDir => {
                self.state.work_dir = true;
                self.state.action = ProcessAction::OpenStore;
                None
            },
            ProcessAction::OpenStore => {
                self.state.action = ProcessAction::Transcribe;
                None
            },
            ProcessAction::Transcribe => {
                self.state.action = if self.cli.minutes {
                    ProcessAction::WriteMinutes
                } else {
                    self.after_minutes()
                };
                None
            },
            ProcessAction::WriteMinutes => {
                self.state.action = self.after_minutes();
                None
            },
            ProcessAction::Translate => {
                self.state.translated = match event {
                    ProcessEvent::Nothing => false,
                    _ => true,
                };
                self.state.action = reading_of(self.cli.format);
                None
            },
            ProcessAction::ReadSegments => {
                self.state.action = printing_of(self.cli.format, self.state.translated);
                None
            },
            ProcessAction::ReadDetail => match event {
                ProcessEvent::Nothing => {
                    self.state.leave(1);
                    Some("meeting process: meeting missing after process".to_owned())
                },
                _ => {
                    self.state.action = if self.state.translated {
                        ProcessAction::ExportTranslatedData
                    } else {
                        ProcessAction::ExportData
                    };
                    None
                },
            },
            _ => {
                self.state.leave(0);
                None
            },
        }
    }

    fn fail(&mut self, reason: &str) -> (note: Option<String>)
        ensures
            final(self).cli == old(self).cli,
            (final(self).state, text::opt(note)) == went_wrong(
                old(self).cli@,
                old(self).state,
                reason@,
            ),
    {
        match self.state.action {
            ProcessAction::FindAudio => {
                self.state.leave(2);
                Some(text::glue("meeting process: no such file: ", self.cli.audio.as_str()))
            },
            ProcessAction::WriteMinutes => {
                self.state.action = self.after_minutes();
                Some(text::glue("meeting process: minutes skipped: ", reason))
            },
            _ => {
                let note: String = text::glue(failure_words(self.state.action), reason);
                self.state.leave(1);
                Some(note)
            },
        }
    }

    /// Takes the outcome of the run's action, and gives what the run says.
    pub fn advance(&mut self, event: &ProcessEvent) -> (note: Option<String>)
        ensures
            final(self).cli == old(self).cli,
            (final(self).state, text::opt(note)) == process_next(
                old(self).cli@,
                old(self).state,
                event@,
            ),
    {
        let note: Option<String> = match self.state.action {
            ProcessAction::Exit => return None,
            ProcessAction::RemoveWorkDir => {
                self.state.work_dir = false;
                let code: i32 = self.state.code;
                self.state.leave(code);
                None
            },
            ProcessAction::RemoveAudioDir => {
                self.state.audio_dir = false;
                let code: i32 = self.state.code;
                self.state.leave(code);
                None
            },
            _ => match event {
                ProcessEvent::Failed(reason) => self.fail(reason.as_str()),
                _ => self.succeed(event),
            },
        };
        match self.state.action {
            ProcessAction::Exit => if self.state.code == 0 {
                let engine: String = text::glue3(
                    "meeting process: done engine=",
                    self.cli.engine.as_str(),
                    " format=",
                );
                Some(text::glue(engine.as_str(), format_words(self.cli.format)))
            } else {
                note
            },
            _ => note,
        }
    }
}

/// How far an action is from the end of a run.
pub open spec fn distance(action: ProcessAction) -> nat {
    match action {
        ProcessAction::FindAudio => 12,
        ProcessAction::ConvertAudio => 11,
        ProcessAction::BuildEngine => 10,
        ProcessAction::MakeWorkDir => 9,
        ProcessAction::OpenStore => 8,
        ProcessAction::Transcribe => 7,
        ProcessAction::WriteMinutes => 6,
        ProcessAction::Translate => 5,
        ProcessAction::ReadSegments | ProcessAction::ReadDetail => 4,
        ProcessAction::RemoveWorkDir => 2,
        ProcessAction::RemoveAudioDir => 1,
        ProcessAction::Exit => 0,
        _ => 3,
    }
}

/// Every run ends: whatever comes of an action, the run is nearer to its end.
pub proof fn every_run_ends(cli: headless::ProcessArgs, state: ProcessState, outcome: Outcome)
    requires
        state.valid(),
        !(state.action is Exit),
    ensures
        process_start().valid(),
        process_next(cli, state, outcome).0.valid(),
        distance(process_next(cli, state, outcome).0.action) < distance(state.action),
{
}

/// A run leaves nothing behind: when it ends, the directories that it made are
/// removed.
pub proof fn nothing_is_left_behind(
    cli: headless::ProcessArgs,
    state: ProcessState,
    outcome: Outcome,
)
    requires
        !(state.action is Exit),
    ensures
        ({
            let next = process_next(cli, state, outcome).0;
            &&& next.action is Exit ==> !next.work_dir && !next.audio_dir
            &&& state.work_dir && !next.work_dir ==> state.action is RemoveWorkDir
            &&& state.audio_dir && !next.audio_dir ==> state.action is RemoveAudioDir
        }),
{
}

/// A run reports success only where its output was put out, and says why
/// wherever it goes out for another reason.
pub proof fn success_means_output(
    cli: headless::ProcessArgs,
    state: ProcessState,
    outcome: Outcome,
)
    requires
        state.code != 0,
        !(state.action is Exit),
    ensures
        ({
            let (next, note) = process_next(cli, state, outcome);
            &&& next.code == 0 ==> state.at_output() && !(outcome is Failed)
            &&& distance(next.action) < 3 <= distance(state.action) && next.code != 0
                ==> note is Some
        }),
{
}

/// A run that minutes cannot be written for goes on.
pub proof fn minutes_never_end_a_run(
    cli: headless::ProcessArgs,
    state: ProcessState,
    outcome: Outcome,
)
    requires
        state.action is WriteMinutes,
    ensures
        process_next(cli, state, outcome).0 == state.at(after_minutes(cli)),
{
}

// ---------------------------------------------------------------------------
// The language model of a run
// ---------------------------------------------------------------------------

/// A language model is configured.
pub open spec fn has_model(enabled: bool, provider: Seq<char>) -> bool {
    enabled && provider != "none"@
}

/// Minutes need a language model.
pub fn check_minutes(enabled: bool, provider: &str) -> (r: Result<(), String>)
    ensures
        r is Ok <==> has_model(enabled, provider@),
        r is Err ==> text::fails(r, "no LLM configured (Settings → AI cleanup)"@),
{
    if !enabled || text::same(provider, "none") {
        Err("no LLM configured (Settings → AI cleanup)".to_owned())
    } else {
        Ok(())
    }
}

/// The model that minutes name: none where its name is blank.
pub fn minutes_model(model: &str) -> (r: Option<String>)
    ensures
        text::opt(r) == if text::trim(model@).len() == 0 {
            None
        } else {
            Some(text::trim(model@))
        },
{
    let name: String = text::trimmed(model);
    if name.as_str().is_empty() {
        None
    } else {
        Some(name)
    }
}

/// Translations need a corrector, which `built` is the making of, and a language
/// model.
pub fn check_translation(enabled: bool, provider: &str, built: Result<(), String>) -> (r: Result<
    (),
    String,
>)
    ensures
        match built {
            Err(error) => text::fails(r, "corrector: "@ + error@),
            Ok(()) => {
                &&& r is Ok <==> has_model(enabled, provider@)
                &&& r is Err ==> text::fails(
                    r,
                    "translation requires a configured LLM corrector (Settings → AI cleanup / config.toml [corrector])"@,
                )
            },
        },
{
    match built {
        Err(error) => Err(text::glue("corrector: ", error.as_str())),
        Ok(()) => if !enabled || text::same(provider, "none") {
            Err(
                "translation requires a configured LLM corrector (Settings → AI cleanup / config.toml [corrector])".to_owned(),
            )
        } else {
            Ok(())
        },
    }
}

/// The engine that a transcript names.
pub fn transcript_engine(engine: EngineChoice) -> (r: String)
    ensures
        r@ == "diar-rs+"@ + engine.name(),
{
    text::glue("diar-rs+", engine.as_str())
}

// ---------------------------------------------------------------------------
// Laws of a run
// ---------------------------------------------------------------------------

/// A run whose steps all go well converts, transcribes, translates where it is asked to,
/// and prints or exports in the format that is asked for.
pub proof fn steps_follow_each_other(cli: headless::ProcessArgs, state: ProcessState)
    ensures
        state.action is FindAudio && headless::engine_takes(cli.engine, cli.lang) ==> process_next(
            cli,
            state,
            Outcome::Done,
        ).0 == (ProcessState { action: ProcessAction::ConvertAudio, ..state }),
        state.action is ConvertAudio ==> process_next(cli, state, Outcome::Done).0 == (
        ProcessState { action: ProcessAction::BuildEngine, ..state }),
        state.action is ConvertAudio ==> process_next(cli, state, Outcome::Converted).0 == (
        ProcessState { action: ProcessAction::BuildEngine, audio_dir: true, ..state }),
        state.action is BuildEngine ==> process_next(cli, state, Outcome::Done).0 == (
        ProcessState { action: ProcessAction::MakeWorkDir, ..state }),
        state.action is MakeWorkDir ==> process_next(cli, state, Outcome::Done).0 == (
        ProcessState { action: ProcessAction::OpenStore, work_dir: true, ..state }),
        state.action is OpenStore ==> process_next(cli, state, Outcome::Done).0 == (ProcessState {
            action: ProcessAction::Transcribe,
            ..state
        }),
        state.action is Transcribe && cli.minutes ==> process_next(cli, state, Outcome::Done).0
            == (ProcessState { action: ProcessAction::WriteMinutes, ..state }),
        (state.action is Transcribe && !cli.minutes || state.action is WriteMinutes)
            && cli.translate_langs.len() > 0 ==> process_next(cli, state, Outcome::Done).0 == (
        ProcessState { action: ProcessAction::Translate, ..state }),
        (state.action is Transcribe && !cli.minutes || state.action is WriteMinutes)
            && cli.translate_langs.len() == 0 && !(cli.format is TranscriptV1) ==> process_next(
            cli,
            state,
            Outcome::Done,
        ).0 == (ProcessState { action: ProcessAction::ReadSegments, ..state }),
        (state.action is Transcribe && !cli.minutes || state.action is WriteMinutes)
            && cli.translate_langs.len() == 0 && cli.format is TranscriptV1 ==> process_next(
            cli,
            state,
            Outcome::Done,
        ).0 == (ProcessState { action: ProcessAction::ReadDetail, ..state }),
        state.action is Translate && !(cli.format is TranscriptV1) ==> process_next(
            cli,
            state,
            Outcome::Done,
        ).0 == (ProcessState { action: ProcessAction::ReadSegments, translated: true, ..state }),
        state.action is Translate && cli.format is TranscriptV1 ==> process_next(
            cli,
            state,
            Outcome::Done,
        ).0 == (ProcessState { action: ProcessAction::ReadDetail, translated: true, ..state }),
        state.action is Translate ==> !process_next(cli, state, Outcome::Nothing).0.translated,
{
}

/// Segments are printed in the format that is asked for, with their translations where
/// there are any; a transcript is exported.
pub proof fn output_has_the_format_asked_for(cli: headless::ProcessArgs, state: ProcessState)
    ensures
        state.action is ReadSegments ==> ({
            let next = process_next(cli, state, Outcome::Done).0.action;
            &&& cli.format is Text && !state.translated ==> next is PrintText
            &&& cli.format is Text && state.translated ==> next is PrintBilingual
            &&& cli.format is Json && !state.translated ==> next is PrintJson
            &&& cli.format is Json && state.translated ==> next is PrintTranslatedJson
            &&& cli.format is Bilingual ==> next is PrintBilingual
        }),
        state.action is ReadDetail && state.translated ==> process_next(
            cli,
            state,
            Outcome::Done,
        ).0.action is ExportTranslatedData,
        state.action is ReadDetail && !state.translated ==> process_next(
            cli,
            state,
            Outcome::Done,
        ).0.action is ExportData,
        state.action is ReadDetail ==> process_next(cli, state, Outcome::Nothing) == (
            state.leaving(1),
            Some("meeting process: meeting missing after process"@),
        ),
        state.action is PrintText || state.action is PrintJson || state.action is PrintBilingual
            || state.action is PrintTranslatedJson || state.action is ExportData || state.action
            is ExportTranslatedData ==> process_next(cli, state, Outcome::Done).0 == state.leaving(
            0,
        ),
{
}

/// A language that the engine does not take ends the run with its own code and says so;
/// so does a file that is not there.
pub proof fn usage_errors_end_the_run(
    cli: headless::ProcessArgs,
    state: ProcessState,
    reason: Seq<char>,
)
    requires
        state.action is FindAudio,
    ensures
        !headless::engine_takes(cli.engine, cli.lang) ==> process_next(cli, state, Outcome::Done) == (
            state.leaving(2),
            Some("meeting process: "@ + headless::unsupported(text::trim(cli.lang->0))),
        ),
        process_next(cli, state, Outcome::Failed(reason)) == (
            state.leaving(2),
            Some("meeting process: no such file: "@ + cli.audio->0),
        ),
{
}

/// A step that fails ends the run with code 1 and tells the reason; only the minutes may
/// fail without ending it.
pub proof fn failure_tells_its_reason(
    cli: headless::ProcessArgs,
    state: ProcessState,
    reason: Seq<char>,
)
    requires
        !(state.action is FindAudio || state.action is Exit || state.action is RemoveWorkDir
            || state.action is RemoveAudioDir),
    ensures
        ({
            let (next, note) = process_next(cli, state, Outcome::Failed(reason));
            &&& !(state.action is WriteMinutes) ==> next == state.leaving(1)
            &&& note == Some(failure_prefix(state.action) + reason)
        }),
        failure_prefix(ProcessAction::Transcribe) == "meeting process: "@,
        failure_prefix(ProcessAction::ConvertAudio) == "meeting process: "@,
        failure_prefix(ProcessAction::BuildEngine) == "meeting process: "@,
        failure_prefix(ProcessAction::MakeWorkDir) == "meeting process: create temp dir: "@,
        failure_prefix(ProcessAction::OpenStore) == "meeting process: open store: "@,
        failure_prefix(ProcessAction::WriteMinutes) == "meeting process: minutes skipped: "@,
        failure_prefix(ProcessAction::Translate) == "meeting process: translate: "@,
        failure_prefix(ProcessAction::ReadSegments) == "meeting process: read segments: "@,
        failure_prefix(ProcessAction::ReadDetail) == "meeting process: load detail: "@,
        failure_prefix(ProcessAction::PrintJson) == "meeting process: serialize json: "@,
        failure_prefix(ProcessAction::PrintTranslatedJson) == "meeting process: serialize: "@,
        failure_prefix(ProcessAction::ExportData) == "meeting process: export transcript-v1: "@,
        failure_prefix(ProcessAction::ExportTranslatedData)
            == "meeting process: export bilingual transcript-v1: "@,
{
}

/// What was made is removed on the way out, the directory of the run first, and the code
/// stays.
pub proof fn run_leaves_by_removing_what_it_made(
    cli: headless::ProcessArgs,
    state: ProcessState,
    outcome: Outcome,
    code: i32,
)
    ensures
        state.leaving(code).code == code,
        state.work_dir ==> state.leaving(code).action is RemoveWorkDir,
        !state.work_dir && state.audio_dir ==> state.leaving(code).action is RemoveAudioDir,
        !state.work_dir && !state.audio_dir ==> state.leaving(code).action is Exit,
        state.leaving(code).work_dir == state.work_dir,
        state.leaving(code).audio_dir == state.audio_dir,
        state.action is RemoveWorkDir ==> ({
            let next = process_next(cli, state, outcome).0;
            &&& !next.work_dir
            &&& next.code == state.code
            &&& next.audio_dir == state.audio_dir
            &&& state.audio_dir ==> next.action is RemoveAudioDir
            &&& !state.audio_dir ==> next.action is Exit
        }),
        state.action is RemoveAudioDir && !state.work_dir ==> ({
            let next = process_next(cli, state, outcome).0;
            &&& !next.audio_dir
            &&& next.code == state.code
            &&& next.action is Exit
        }),
        state.action is Exit ==> process_next(cli, state, outcome) == (state, None::<Seq<char>>),
{
}

/// A run that ends well says so last, with its engine and its format; one that does not
/// never says it.
pub proof fn good_end_is_told(cli: headless::ProcessArgs, state: ProcessState)
    requires
        state.action is RemoveWorkDir,
        !state.audio_dir,
    ensures
        state.code == 0 ==> process_next(cli, state, Outcome::Done).1 == Some(
            "meeting process: done engine="@ + cli.engine.name() + " format="@ + format_name(
                cli.format,
            ),
        ),
        state.code != 0 ==> process_next(cli, state, Outcome::Done).1 is None,
        format_name(OutputFormat::Text) == "Text"@,
        format_name(OutputFormat::Json) == "Json"@,
        format_name(OutputFormat::TranscriptV1) == "TranscriptV1"@,
        format_name(OutputFormat::Bilingual) == "Bilingual"@,
{
}

/// A converted file is told of.
pub proof fn conversion_is_told(cli: headless::ProcessArgs, state: ProcessState)
    requires
        state.action is ConvertAudio,
    ensures
        process_next(cli, state, Outcome::Converted).1 == Some(
            "meeting process: converted "@ + cli.audio->0 + " → 16 kHz mono wav"@,
        ),
        process_next(cli, state, Outcome::Done).1 is None,
{
}

/// A run begins by looking for its audio, without anything made.
pub proof fn run_begins_with_its_audio()
    ensures
        process_start().action is FindAudio,
        !process_start().work_dir && !process_start().audio_dir && !process_start().translated,
        process_start().code == 1,
{
}

/// An engine is made from a model that is ready, with the language that is asked for; one
/// whose model is missing or not ready is refused.
pub proof fn engine_is_made_of_its_model(
    dir: Seq<char>,
    python: Seq<char>,
    model: Seq<char>,
    lang: Option<Seq<char>>,
)
    ensures
        engine_planned(EngineChoice::SenseVoice, Some((dir, true)), python, model, lang) == Ok::<
            EngineModel,
            Seq<char>,
        >(EngineModel::SenseVoice { dir, lang }),
        engine_planned(EngineChoice::Qwen, Some((dir, true)), python, model, lang) == Ok::<
            EngineModel,
            Seq<char>,
        >(EngineModel::Qwen { dir, lang, timeout_secs: 600 }),
        engine_planned(EngineChoice::MlxWhisper, Some((dir, false)), python, model, lang) == Ok::<
            EngineModel,
            Seq<char>,
        >(EngineModel::MlxWhisper { python, model, lang, timeout_secs: 900 }),
        engine_planned(EngineChoice::MlxWhisper, None, python, model, lang) == engine_planned(
            EngineChoice::MlxWhisper,
            Some((dir, true)),
            python,
            model,
            lang,
        ),
        engine_planned(EngineChoice::Whisper, Some((dir, true)), python, model, lang) matches Ok(
            made,
        ) && (made matches EngineModel::Whisper { dir: d, lang: l } && d == dir && l == (
        match lang {
            Some(lang) => lang,
            None => "en"@,
        })),
        engine_planned(EngineChoice::SenseVoice, Some((dir, false)), python, model, lang) == Err::<
            EngineModel,
            Seq<char>,
        >("SenseVoice model not ready under "@ + dir),
        engine_planned(EngineChoice::Qwen, Some((dir, false)), python, model, lang) == Err::<
            EngineModel,
            Seq<char>,
        >("Qwen3-ASR model not ready under "@ + dir),
        engine_planned(EngineChoice::Whisper, Some((dir, false)), python, model, lang) is Err,
        engine_planned(EngineChoice::SenseVoice, None, python, model, lang) == Err::<
            EngineModel,
            Seq<char>,
        >("no SenseVoice model dir resolved — install it first"@),
        engine_planned(EngineChoice::Qwen, None, python, model, lang) == Err::<
            EngineModel,
            Seq<char>,
        >("no Qwen3-ASR model dir resolved — install it first"@),
        engine_planned(EngineChoice::Whisper, None, python, model, lang) is Err,
{
}

/// The hint of a run is that of its language, and the transcript names the hint, or what
/// was written; a run is called by its file.
pub proof fn run_is_called_by_its_file(cli: MeetingProcessCli, windows: bool)
    ensures
        cli.lang is None ==> cli.hint() is None && cli.spoken() is None,
        cli.lang matches Some(lang) ==> cli.hint() == headless::lang_hint(lang@),
        cli.lang matches Some(lang) ==> (headless::lang_hint(lang@) is None ==> cli.spoken() == Some(
            lang@,
        )),
        cli.lang matches Some(lang) ==> (headless::lang_hint(lang@) is Some ==> cli.spoken()
            == headless::lang_hint(lang@)),
        paths::stem_of(cli.audio@, windows) is None ==> cli.titled(windows) == "offline"@,
        paths::stem_of(cli.audio@, windows) matches Some(stem) ==> cli.titled(windows) == stem,
{
}

/// A language model is there where it is switched on and a provider is chosen.
pub proof fn model_is_there_where_it_is_chosen(provider: Seq<char>)
    ensures
        !has_model(false, provider),
        !has_model(true, "none"@),
        provider != "none"@ ==> has_model(true, provider),
{
}

/// What came of an action is seen as it is.
pub proof fn outcome_is_seen_as_it_is(event: ProcessEvent, plan: EnginePlan)
    ensures
        event is Done ==> event@ is Done,
        event is Converted ==> event@ is Converted,
        event is Nothing ==> event@ is Nothing,
        event matches ProcessEvent::Failed(reason) ==> event@ == Outcome::Failed(reason@),
        plan matches EnginePlan::SenseVoice { dir, lang } ==> plan@ == (EngineModel::SenseVoice {
            dir: dir@,
            lang: text::opt(lang),
        }),
        plan matches EnginePlan::Whisper { dir, lang } ==> plan@ == (EngineModel::Whisper {
            dir: dir@,
            lang: lang@,
        }),
        plan matches EnginePlan::Qwen { dir, lang, timeout_secs } ==> plan@ == (EngineModel::Qwen {
            dir: dir@,
            lang: text::opt(lang),
            timeout_secs,
        }),
{
}

/// A Whisper model that is not ready is refused with what to use instead.
pub proof fn missing_whisper_tells_what_to_use(
    dir: Seq<char>,
    python: Seq<char>,
    model: Seq<char>,
    lang: Option<Seq<char>>,
)
    ensures
        engine_planned(EngineChoice::Whisper, Some((dir, false)), python, model, lang) == Err::<
            EngineModel,
            Seq<char>,
        >(
            "Whisper model not ready under "@ + dir
                + " (CPU sherpa; use --engine mlx-whisper for production)"@,
        ),
        engine_planned(EngineChoice::Whisper, None, python, model, lang) == engine_planned(
            EngineChoice::Whisper,
            Some((""@, false)),
            python,
            model,
            lang,
        ),
{
}

} // verus!
