//! The stages of a dictation attempt and what is recorded of them.
use crate::text;
use vstd::prelude::*;

verus! {

#[derive(Debug, Clone, Copy, PartialEq, Eq, Structural)]
pub enum PipelineStage {
    Capture,
    Preprocess,
    Asr,
    Enhancement,
    Corrector,
    Insert,
    Unknown,
}

impl PipelineStage {
    pub open spec fn name(self) -> Seq<char> {
        match self {
            PipelineStage::Capture => "capture"@,
            PipelineStage::Preprocess => "preprocess"@,
            PipelineStage::Asr => "asr"@,
            PipelineStage::Enhancement => "enhancement"@,
            PipelineStage::Corrector => "corrector"@,
            PipelineStage::Insert => "insert"@,
            PipelineStage::Unknown => "unknown"@,
        }
    }
}

/// The name of a stage.
pub fn stage_name(stage: PipelineStage) -> (r: &'static str)
    ensures
        r@ == stage.name(),
{
    match stage {
        PipelineStage::Capture => "capture",
        PipelineStage::Preprocess => "preprocess",
        PipelineStage::Asr => "asr",
        PipelineStage::Enhancement => "enhancement",
        PipelineStage::Corrector => "corrector",
        PipelineStage::Insert => "insert",
        PipelineStage::Unknown => "unknown",
    }
}

/// A stage's name is a word, with no colon in it.
pub proof fn stage_names_have_no_colon(stage: PipelineStage)
    ensures
        !stage.name().contains(':'),
{
    reveal_strlit("capture");
    reveal_strlit("preprocess");
    reveal_strlit("asr");
    reveal_strlit("enhancement");
    reveal_strlit("corrector");
    reveal_strlit("insert");
    reveal_strlit("unknown");
}

/// Different stages have different names.
pub proof fn stage_names_differ(a: PipelineStage, b: PipelineStage)
    requires
        a.name() == b.name(),
    ensures
        a == b,
{
    reveal_strlit("capture");
    reveal_strlit("preprocess");
    reveal_strlit("asr");
    reveal_strlit("enhancement");
    reveal_strlit("corrector");
    reveal_strlit("insert");
    reveal_strlit("unknown");
    assert("capture"@.len() == 7 && "preprocess"@.len() == 10 && "asr"@.len() == 3
        && "enhancement"@.len() == 11 && "corrector"@.len() == 9 && "insert"@.len() == 6
        && "unknown"@.len() == 7);
    assert("capture"@[0] != "unknown"@[0]);
}

/// What went wrong in a stage.
#[derive(Debug, Clone, Copy, PartialEq, Eq, Structural)]
pub enum PipelineIssueKind {
    AbsoluteSilence,
    InputUnavailable,
    ClipboardFailure,
    InjectionFailure,
    Fallback,
}

/// Something that went wrong in a stage.
#[derive(Debug, Clone, PartialEq, Eq)]
pub struct PipelineStageIssue {
    pub stage: PipelineStage,
    pub kind: PipelineIssueKind,
    pub message: String,
}

/// The model of a [`PipelineStageIssue`].
#[verifier::ext_equal]
pub struct Issue {
    pub stage: PipelineStage,
    pub kind: PipelineIssueKind,
    pub message: Seq<char>,
}

impl View for PipelineStageIssue {
    type V = Issue;

    open spec fn view(&self) -> Issue {
        Issue { stage: self.stage, kind: self.kind, message: self.message@ }
    }
}

/// The models of a vector of issues.
pub open spec fn issues(v: Seq<PipelineStageIssue>) -> Seq<Issue> {
    v.map_values(|i: PipelineStageIssue| i@)
}

/// How text was inserted.
#[derive(Debug, Clone, Copy, PartialEq, Eq, Structural)]
pub enum InsertStrategy {
    Paste,
    Ax,
    Type,
    CopyOnly,
    /// No text was inserted.
    Nothing,
}

/// What became of the text.
#[derive(Debug, Clone, Copy, PartialEq, Eq, Structural)]
pub enum InsertionOutcome {
    NotRequested,
    Inserted,
    Copied,
    Failed,
}

impl InsertStrategy {
    /// The strategy puts the text into a field that can be watched.
    pub open spec fn observable(self) -> bool {
        self is Paste || self is Ax || self is Type
    }

    /// What became of the text under this strategy.
    pub open spec fn outcome(self) -> InsertionOutcome {
        if self.observable() {
            InsertionOutcome::Inserted
        } else if self is CopyOnly {
            InsertionOutcome::Copied
        } else {
            InsertionOutcome::Failed
        }
    }

    pub open spec fn name(self) -> Seq<char> {
        match self {
            InsertStrategy::Paste => "paste"@,
            InsertStrategy::Ax => "ax"@,
            InsertStrategy::Type => "type"@,
            InsertStrategy::CopyOnly => "copy_only"@,
            InsertStrategy::Nothing => "none"@,
        }
    }
}

/// What became of the text under `strategy`.
pub fn insertion_outcome_for_strategy(strategy: InsertStrategy) -> (r: InsertionOutcome)
    ensures
        r == strategy.outcome(),
{
    match strategy {
        InsertStrategy::Paste | InsertStrategy::Ax | InsertStrategy::Type => {
            InsertionOutcome::Inserted
        },
        InsertStrategy::CopyOnly => InsertionOutcome::Copied,
        InsertStrategy::Nothing => InsertionOutcome::Failed,
    }
}

/// Whether `strategy` puts the text into a field that can be watched.
pub fn is_observable_insertion(strategy: InsertStrategy) -> (r: bool)
    ensures
        r == strategy.observable(),
{
    match strategy {
        InsertStrategy::Paste | InsertStrategy::Ax | InsertStrategy::Type => true,
        _ => false,
    }
}

/// The name of `strategy`.
pub fn strategy_name(strategy: InsertStrategy) -> (r: &'static str)
    ensures
        r@ == strategy.name(),
{
    match strategy {
        InsertStrategy::Paste => "paste",
        InsertStrategy::Ax => "ax",
        InsertStrategy::Type => "type",
        InsertStrategy::CopyOnly => "copy_only",
        InsertStrategy::Nothing => "none",
    }
}

/// What a stage was offered of the context, and what it made of it.
#[derive(Debug, Clone, PartialEq, Eq)]
pub struct ContextStageUsage {
    pub stage: PipelineStage,
    pub sources: Vec<String>,
    pub projection_schema_version: u32,
    pub projection_path: Option<String>,
    pub projection_hash: Option<String>,
    pub projection_chars: u32,
    pub captured: bool,
    pub selected: bool,
    pub consumed: bool,
    pub sent: bool,
    pub not_used_reason: Option<String>,
}

/// The model of a [`ContextStageUsage`].
#[verifier::ext_equal]
pub struct StageUsage {
    pub stage: PipelineStage,
    pub sources: Seq<Seq<char>>,
    pub projection_schema_version: int,
    pub projection_path: Option<Seq<char>>,
    pub projection_hash: Option<Seq<char>>,
    pub projection_chars: int,
    pub captured: bool,
    pub selected: bool,
    pub consumed: bool,
    pub sent: bool,
    pub not_used_reason: Option<Seq<char>>,
}

impl View for ContextStageUsage {
    type V = StageUsage;

    open spec fn view(&self) -> StageUsage {
        StageUsage {
            stage: self.stage,
            sources: text::texts(self.sources@),
            projection_schema_version: self.projection_schema_version as int,
            projection_path: text::opt(self.projection_path),
            projection_hash: text::opt(self.projection_hash),
            projection_chars: self.projection_chars as int,
            captured: self.captured,
            selected: self.selected,
            consumed: self.consumed,
            sent: self.sent,
            not_used_reason: text::opt(self.not_used_reason),
        }
    }
}

// ---------------------------------------------------------------------------
// Laws of stages and strategies
// ---------------------------------------------------------------------------

/// Stages have their names.
pub proof fn stages_have_their_names()
    ensures
        PipelineStage::Capture.name() == "capture"@,
        PipelineStage::Preprocess.name() == "preprocess"@,
        PipelineStage::Asr.name() == "asr"@,
        PipelineStage::Enhancement.name() == "enhancement"@,
        PipelineStage::Corrector.name() == "corrector"@,
        PipelineStage::Insert.name() == "insert"@,
        PipelineStage::Unknown.name() == "unknown"@,
{
}

/// A text is inserted by being pasted, set or typed, and such an insertion can be watched;
/// copied where it is only copied; and nothing else brings it anywhere.
pub proof fn strategies_come_to_what_they_do(a: InsertStrategy, b: InsertStrategy)
    ensures
        InsertStrategy::Paste.outcome() is Inserted && InsertStrategy::Paste.observable(),
        InsertStrategy::Ax.outcome() is Inserted && InsertStrategy::Ax.observable(),
        InsertStrategy::Type.outcome() is Inserted && InsertStrategy::Type.observable(),
        InsertStrategy::CopyOnly.outcome() is Copied && !InsertStrategy::CopyOnly.observable(),
        InsertStrategy::Nothing.outcome() is Failed && !InsertStrategy::Nothing.observable(),
        a.outcome() is Inserted <==> a.observable(),
        a.name() == b.name() ==> a == b,
        InsertStrategy::Paste.name() == "paste"@,
        InsertStrategy::Ax.name() == "ax"@,
        InsertStrategy::Type.name() == "type"@,
        InsertStrategy::CopyOnly.name() == "copy_only"@,
        InsertStrategy::Nothing.name() == "none"@,
{
    reveal_strlit("paste");
    reveal_strlit("ax");
    reveal_strlit("type");
    reveal_strlit("copy_only");
    reveal_strlit("none");
    assert("paste"@.len() == 5 && "paste"@[0] == 'p' && "paste"@[1] == 'a' && "paste"@[2] == 's'
        && "paste"@[3] == 't' && "paste"@[4] == 'e');
    assert("ax"@.len() == 2 && "ax"@[0] == 'a' && "ax"@[1] == 'x');
    assert("type"@.len() == 4 && "type"@[0] == 't' && "type"@[1] == 'y' && "type"@[2] == 'p'
        && "type"@[3] == 'e');
    assert("copy_only"@.len() == 9 && "copy_only"@[0] == 'c' && "copy_only"@[1] == 'o'
        && "copy_only"@[2] == 'p' && "copy_only"@[3] == 'y' && "copy_only"@[4] == '_'
        && "copy_only"@[5] == 'o' && "copy_only"@[6] == 'n' && "copy_only"@[7] == 'l'
        && "copy_only"@[8] == 'y');
    assert("none"@.len() == 4 && "none"@[0] == 'n' && "none"@[1] == 'o' && "none"@[2] == 'n'
        && "none"@[3] == 'e');
}

/// An issue and a record of context are seen as they are.
pub proof fn records_are_seen_as_they_are(issue: PipelineStageIssue, usage: ContextStageUsage)
    ensures
        issue@.stage == issue.stage,
        issue@.kind == issue.kind,
        issue@.message == issue.message@,
        usage@.stage == usage.stage,
        usage@.sources == text::texts(usage.sources@),
        usage@.projection_schema_version == usage.projection_schema_version,
        usage@.projection_path == text::opt(usage.projection_path),
        usage@.projection_hash == text::opt(usage.projection_hash),
        usage@.projection_chars == usage.projection_chars,
        usage@.captured == usage.captured,
        usage@.selected == usage.selected,
        usage@.consumed == usage.consumed,
        usage@.sent == usage.sent,
        usage@.not_used_reason == text::opt(usage.not_used_reason),
{
}

} // verus!
