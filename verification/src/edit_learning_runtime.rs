//! Insertions that are watched for edits: where the text goes, what is told of an
//! observation that could not start, and how a watched screen is read.
use crate::pipeline;
use crate::pipeline::InsertStrategy;
use crate::text;
use vstd::prelude::*;
use vstd::string::*;

verus! {

// ---------------------------------------------------------------------------
// Targets
// ---------------------------------------------------------------------------

/// The app in front when a dictation started.
#[derive(Debug, Clone, PartialEq, Eq)]
pub struct FrontmostTarget {
    pub name: Option<String>,
    pub bundle_id: Option<String>,
    pub process_id: Option<i32>,
}

/// What a surface is looked for by.
#[derive(Debug, Clone, PartialEq, Eq)]
pub struct SurfaceHint {
    pub app_name: Option<String>,
    pub bundle_id: Option<String>,
    pub process_id: Option<i32>,
}

/// What the surface of a target is looked for by: nothing without a target.
pub fn target_hint(target: Option<&FrontmostTarget>) -> (r: SurfaceHint)
    ensures
        match target {
            Some(target) => {
                &&& text::opt(r.app_name) == text::opt(target.name)
                &&& text::opt(r.bundle_id) == text::opt(target.bundle_id)
                &&& r.process_id == target.process_id
            },
            None => r.app_name is None && r.bundle_id is None && r.process_id is None,
        },
{
    match target {
        Some(target) => SurfaceHint {
            app_name: text::copy_opt(&target.name),
            bundle_id: text::copy_opt(&target.bundle_id),
            process_id: target.process_id,
        },
        None => SurfaceHint { app_name: None, bundle_id: None, process_id: None },
    }
}

// ---------------------------------------------------------------------------
// Watched insertions
// ---------------------------------------------------------------------------

/// Where a watched insertion goes.
#[derive(Debug, Clone, Copy, PartialEq, Eq, Structural)]
pub enum ReservationChoice {
    /// The pane that was found while recording.
    Pane,
    /// The surface that was reserved when the recording started.
    Pending,
    /// The surface of the target, if it can be reserved now.
    Reacquire,
    /// Nowhere that could be watched.
    Unavailable,
}

/// Where a watched insertion goes: a pane before a reserved surface, and that
/// before one that is reserved only now.
pub fn choose_reservation(pane: bool, pending: bool, target: Option<&FrontmostTarget>) -> (r:
    ReservationChoice)
    ensures
        r == if pane {
            ReservationChoice::Pane
        } else if pending {
            ReservationChoice::Pending
        } else if target is Some && target->0.process_id is Some {
            ReservationChoice::Reacquire
        } else {
            ReservationChoice::Unavailable
        },
{
    if pane {
        ReservationChoice::Pane
    } else if pending {
        ReservationChoice::Pending
    } else {
        match target {
            Some(target) => if target.process_id.is_some() {
                ReservationChoice::Reacquire
            } else {
                ReservationChoice::Unavailable
            },
            None => ReservationChoice::Unavailable,
        }
    }
}

/// Why a watched insertion failed.
#[derive(Debug, Clone, Copy, PartialEq, Eq, Structural)]
pub enum EngineError {
    /// The reserved target is no longer there.
    Prepare,
    Insert,
    Snapshot,
    InsertedTextNotFound,
    Repository,
    SurfaceTransitionTimeout,
}

impl EngineError {
    pub open spec fn reason(self) -> Seq<char> {
        match self {
            EngineError::Snapshot => "post_insert_snapshot_failed"@,
            EngineError::InsertedTextNotFound => "post_insert_anchor_not_found"@,
            EngineError::Prepare => "reserved_target_changed"@,
            EngineError::SurfaceTransitionTimeout => "surface_transition_timeout"@,
            EngineError::Insert | EngineError::Repository => {
                "post_insert_observation_start_failed"@
            },
        }
    }
}

/// Why edits are not watched, in a record.
pub fn observation_failure_reason(error: &EngineError) -> (r: &'static str)
    ensures
        r@ == error.reason(),
{
    match error {
        EngineError::Snapshot => "post_insert_snapshot_failed",
        EngineError::InsertedTextNotFound => "post_insert_anchor_not_found",
        EngineError::Prepare => "reserved_target_changed",
        EngineError::SurfaceTransitionTimeout => "surface_transition_timeout",
        EngineError::Insert | EngineError::Repository => "post_insert_observation_start_failed",
    }
}

/// What a watched insertion comes to.
#[derive(Debug, Clone, PartialEq, Eq)]
pub enum ObservedVerdict {
    /// The text was inserted; `report` says why edits are not watched.
    Inserted { strategy: InsertStrategy, observing: bool, report: Option<String> },
    /// The target has changed: the text is copied, not put into the wrong field.
    CopyInstead,
    Failed(String),
}

/// What a watched insertion comes to, as a value.
pub enum Observed {
    Inserted { strategy: InsertStrategy, observing: bool, report: Option<Seq<char>> },
    CopyInstead,
    Failed(Seq<char>),
}

impl View for ObservedVerdict {
    type V = Observed;

    open spec fn view(&self) -> Observed {
        match *self {
            ObservedVerdict::Inserted { strategy, observing, report } => Observed::Inserted {
                strategy,
                observing,
                report: text::opt(report),
            },
            ObservedVerdict::CopyInstead => Observed::CopyInstead,
            ObservedVerdict::Failed(error) => Observed::Failed(error@),
        }
    }
}

/// A report where the text stands in a field, and none where it does not.
pub open spec fn report_of(strategy: InsertStrategy, reason: Seq<char>) -> Option<Seq<char>> {
    if strategy.observable() {
        Some(reason)
    } else {
        None
    }
}

fn report(strategy: InsertStrategy, reason: &str) -> (r: Option<String>)
    ensures
        text::opt(r) == report_of(strategy, reason@),
{
    if pipeline::is_observable_insertion(strategy) {
        Some(reason.to_owned())
    } else {
        None
    }
}

/// What an insertion comes to that could not be watched.
pub fn unobserved_insertion(inserted: Result<InsertStrategy, String>) -> (r: ObservedVerdict)
    ensures
        r@ == match inserted {
            Ok(strategy) => Observed::Inserted {
                strategy,
                observing: false,
                report: report_of(strategy, "surface_reservation_unavailable"@),
            },
            Err(error) => Observed::Failed(error@),
        },
{
    match inserted {
        Ok(strategy) => ObservedVerdict::Inserted {
            strategy,
            observing: false,
            report: report(strategy, "surface_reservation_unavailable"),
        },
        Err(error) => ObservedVerdict::Failed(error),
    }
}

/// What a watched insertion comes to, by what the engine said and what was
/// inserted.
pub open spec fn observed(
    error: Option<(EngineError, Seq<char>)>,
    inserted: Option<InsertStrategy>,
) -> Observed {
    match (error, inserted) {
        (None, Some(strategy)) => Observed::Inserted { strategy, observing: true, report: None },
        (None, None) => Observed::Failed(
            "edit-learning engine completed without insertion outcome"@,
        ),
        (Some((kind, _)), Some(strategy)) => Observed::Inserted {
            strategy,
            observing: false,
            report: report_of(strategy, kind.reason()),
        },
        (Some((kind, words)), None) => if kind is Prepare {
            Observed::CopyInstead
        } else {
            Observed::Failed(words)
        },
    }
}

/// What a watched insertion comes to: `error` is what the engine said, with its
/// words, and `inserted` how the text was inserted, if it was.
pub fn settle_observed_insertion(
    error: Option<(EngineError, String)>,
    inserted: Option<InsertStrategy>,
) -> (r: ObservedVerdict)
    ensures
        r@ == observed(
            match error {
                Some((kind, words)) => Some((kind, words@)),
                None => None,
            },
            inserted,
        ),
{
    match error {
        None => match inserted {
            Some(strategy) => ObservedVerdict::Inserted { strategy, observing: true, report: None },
            None => ObservedVerdict::Failed(
                "edit-learning engine completed without insertion outcome".to_owned(),
            ),
        },
        Some((kind, words)) => match inserted {
            Some(strategy) => ObservedVerdict::Inserted {
                strategy,
                observing: false,
                report: report(strategy, observation_failure_reason(&kind)),
            },
            None => match kind {
                EngineError::Prepare => ObservedVerdict::CopyInstead,
                _ => ObservedVerdict::Failed(words),
            },
        },
    }
}

/// A text that was inserted stays inserted: no error of the observation takes it
/// back, and edits are watched only where the engine said nothing.
pub proof fn inserted_text_stays(
    error: Option<(EngineError, Seq<char>)>,
    strategy: InsertStrategy,
)
    ensures
        observed(error, Some(strategy)) is Inserted,
        observed(error, Some(strategy))->Inserted_strategy == strategy,
        observed(error, Some(strategy))->Inserted_observing <==> error is None,
{
}

/// A changed target never receives the text.
pub proof fn changed_target_gets_a_copy(words: Seq<char>)
    ensures
        observed(Some((EngineError::Prepare, words)), None) is CopyInstead,
{
}

// ---------------------------------------------------------------------------
// Watched screens
// ---------------------------------------------------------------------------

/// The lines of a text; what stands behind the last line break is a line only
/// where there is anything.
pub open spec fn lines_of(s: Seq<char>) -> Seq<Seq<char>> {
    let pieces = text::split(s, |c: char| c == '\n');
    if pieces.last().len() == 0 {
        pieces.drop_last()
    } else {
        pieces
    }
}

/// A screen without the white space at the ends of its lines.
pub open spec fn screen_of(s: Seq<char>) -> Seq<char> {
    text::join(lines_of(s).map_values(|line: Seq<char>| text::trim_end(line)), "\n"@)
}

/// A screen without the white space at the ends of its lines.
pub fn screen_text(screen: &str) -> (r: String)
    ensures
        r@ == screen_of(screen@),
{
    let at_break = |c: char| -> (b: bool)
        ensures
            b == (c == '\n'),
        { c == '\n' };
    let pieces: Vec<String> = text::split_where(screen, at_break, Ghost(|c: char| c == '\n'));
    let ghost all = text::texts(pieces@);
    proof {
        text::lemma_split_nonempty(screen@, |c: char| c == '\n');
    }
    let mut n: usize = pieces.len();
    assert(all.last() == pieces@[n - 1]@);
    if pieces[n - 1].as_str().is_empty() {
        n = n - 1;
    }
    let ghost wanted = lines_of(screen@);
    assert(wanted =~= all.take(n as int));
    let ghost ends = |line: Seq<char>| text::trim_end(line);
    let mut lines: Vec<String> = Vec::new();
    let mut i: usize = 0;
    assert(text::texts(lines@) =~= wanted.take(0).map_values(ends));
    while i < n
        invariant
            i <= n <= pieces@.len(),
            all == text::texts(pieces@),
            wanted == all.take(n as int),
            ends == (|line: Seq<char>| text::trim_end(line)),
            text::texts(lines@) == wanted.take(i as int).map_values(ends),
        decreases n - i,
    {
        let ghost had = text::texts(lines@);
        lines.push(text::trimmed_end(pieces[i].as_str()));
        assert(wanted[i as int] == pieces@[i as int]@);
        assert(text::texts(lines@) =~= had.push(ends(wanted[i as int])));
        assert(wanted.take(i + 1).map_values(ends) =~= had.push(ends(wanted[i as int])));
        i = i + 1;
    }
    assert(wanted.take(i as int) =~= wanted);
    text::joined(&lines, "\n")
}

// ---------------------------------------------------------------------------
// Records
// ---------------------------------------------------------------------------

/// Why a record could not be kept.
#[derive(Debug, Clone, PartialEq, Eq)]
pub enum RepositoryError {
    Unavailable(String),
    Failure(String),
    /// What the record belongs to is not there yet.
    ParentNotReady,
}

/// Tells a record that comes too early from one that failed; `marker` is how the
/// store says so.
pub fn parent_not_ready(result: Result<(), RepositoryError>, marker: &str) -> (r: Result<
    (),
    RepositoryError,
>)
    ensures
        r == if result is Err && result->Err_0 is Failure && text::occurs(
            result->Err_0->Failure_0@,
            marker@,
        ) {
            Err::<(), RepositoryError>(RepositoryError::ParentNotReady)
        } else {
            result
        },
{
    match result {
        Err(RepositoryError::Failure(message)) => if text::contains(message.as_str(), marker) {
            Err(RepositoryError::ParentNotReady)
        } else {
            Err(RepositoryError::Failure(message))
        },
        result => result,
    }
}

/// Acknowledged feedback is kept for so many days.
pub const ACKNOWLEDGED_FEEDBACK_RETENTION_DAYS: i64 = 30;

/// How much feedback is listed: what was asked for, or a hundred.
pub fn feedback_limit(limit: Option<u32>) -> (r: u32)
    ensures
        r == match limit {
            Some(limit) => limit,
            None => 100u32,
        },
{
    match limit {
        Some(limit) => limit,
        None => 100,
    }
}

/// Whether feedback is shown as an error.
pub fn feedback_is_error(kind: &str) -> (r: bool)
    ensures
        r == (kind@ == "observation_unavailable"@),
{
    text::same(kind, "observation_unavailable")
}

/// A proposal can only be rejected.
pub fn check_decision(decision: &str) -> (r: Result<(), String>)
    ensures
        r is Ok <==> decision@ == "rejected"@,
        r is Err ==> text::fails(r, "only proposal rejection is supported by this command"@),
{
    if text::same(decision, "rejected") {
        Ok(())
    } else {
        Err("only proposal rejection is supported by this command".to_owned())
    }
}

/// A decision counts only where the proposal was pending.
pub fn settle_decision(changed: bool) -> (r: Result<(), String>)
    ensures
        r is Ok <==> changed,
        !changed ==> text::fails(r, "proposal is no longer pending for this decision"@),
{
    if changed {
        Ok(())
    } else {
        Err("proposal is no longer pending for this decision".to_owned())
    }
}

/// Turning evidence off must redact what is stored. A failure means that it is
/// still there, and is told.
pub fn settle_redaction(enabled: bool, redacted: Result<(), String>) -> (r: Result<(), String>)
    ensures
        enabled || redacted is Ok ==> r is Ok,
        !enabled ==> (redacted matches Err(error) ==> text::fails(
            r,
            "edit-learning evidence redaction failed: "@ + error@,
        )),
{
    if enabled {
        return Ok(());
    }
    match redacted {
        Ok(()) => Ok(()),
        Err(error) => Err(
            text::glue("edit-learning evidence redaction failed: ", error.as_str()),
        ),
    }
}

// ---------------------------------------------------------------------------
// Laws of watching
// ---------------------------------------------------------------------------

/// Why an insertion is not watched is told by what went wrong.
pub proof fn watching_fails_for_a_reason()
    ensures
        EngineError::Snapshot.reason() == "post_insert_snapshot_failed"@,
        EngineError::InsertedTextNotFound.reason() == "post_insert_anchor_not_found"@,
        EngineError::Prepare.reason() == "reserved_target_changed"@,
        EngineError::SurfaceTransitionTimeout.reason() == "surface_transition_timeout"@,
        EngineError::Insert.reason() == "post_insert_observation_start_failed"@,
        EngineError::Repository.reason() == "post_insert_observation_start_failed"@,
{
}

/// A text that was inserted stays inserted, watched where nothing went wrong and with the
/// reason where it stands in a field but is not watched; one that was not is copied where
/// its target changed, and the failure is told otherwise.
pub proof fn insertion_is_settled(
    strategy: InsertStrategy,
    error: EngineError,
    words: Seq<char>,
)
    ensures
        observed(None, Some(strategy)) == (Observed::Inserted {
            strategy,
            observing: true,
            report: None,
        }),
        observed(None, None) == Observed::Failed(
            "edit-learning engine completed without insertion outcome"@,
        ),
        observed(Some((error, words)), Some(strategy)) matches Observed::Inserted {
            strategy: s,
            observing,
            report,
        } && s == strategy && !observing && (strategy.observable() ==> report == Some(
            error.reason(),
        )) && (!strategy.observable() ==> report is None),
        observed(Some((EngineError::Prepare, words)), None) is CopyInstead,
        !(error is Prepare) ==> observed(Some((error, words)), None) == Observed::Failed(words),
{
}

/// A line break ends a line, and a screen without one is a line; what stands behind the
/// last line break is one where there is anything.
pub proof fn line_breaks_end_lines(before: Seq<char>, line: Seq<char>)
    requires
        forall|i: int| 0 <= i < line.len() ==> #[trigger] line[i] != '\n',
    ensures
        lines_of(Seq::empty()).len() == 0,
        line.len() > 0 ==> lines_of(line) == seq![line],
        lines_of(line.push('\n')) == seq![line],
        line.len() > 0 ==> lines_of(before.push('\n') + line) == lines_of(before.push('\n')).push(
            line,
        ),
{
    let cut = |c: char| c == '\n';
    let none = Seq::<char>::empty();
    assert(text::split(none, cut) =~= seq![none]);
    lemma_line_behind(none, line);
    assert(none + line =~= line);
    assert(text::split(line, cut) =~= seq![line]);
    assert(line.push('\n').drop_last() =~= line);
    assert(text::split(line.push('\n'), cut) =~= seq![line, none]);
    assert(seq![line, none].drop_last() =~= seq![line]);
    let all = before.push('\n');
    assert(all.drop_last() =~= before);
    let head = text::split(before, cut);
    assert(text::split(all, cut) == head.push(none));
    assert(head.push(none).drop_last() =~= head);
    lemma_line_behind(all, line);
    assert(none + line =~= line);
    assert(text::split(all + line, cut) =~= head.push(line));
    assert(lines_of(none) =~= Seq::empty());
}

proof fn lemma_line_behind(before: Seq<char>, line: Seq<char>)
    requires
        forall|i: int| 0 <= i < line.len() ==> #[trigger] line[i] != '\n',
    ensures
        ({
            let cut = |c: char| c == '\n';
            let head = text::split(before, cut);
            text::split(before + line, cut) == head.drop_last().push(head.last() + line)
        }),
    decreases line.len(),
{
    let cut = |c: char| c == '\n';
    let head = text::split(before, cut);
    text::lemma_split_nonempty(before, cut);
    if line.len() > 0 {
        let l = line.drop_last();
        assert forall|i: int| 0 <= i < l.len() implies #[trigger] l[i] != '\n' by {
            assert(l[i] == line[i]);
        }
        lemma_line_behind(before, l);
        assert((before + line).drop_last() =~= before + l);
        assert((before + line).last() == line[line.len() - 1]);
        let mid = head.drop_last().push(head.last() + l);
        assert(mid.drop_last() =~= head.drop_last());
        assert((head.last() + l).push(line.last()) =~= head.last() + line);
    } else {
        assert(before + line =~= before);
        assert(head.last() + line =~= head.last());
        assert(head.drop_last().push(head.last()) =~= head);
    }
}

/// A screen loses the white space at the ends of its lines and nothing else.
pub proof fn screen_keeps_its_lines(line: Seq<char>)
    requires
        forall|i: int| 0 <= i < line.len() ==> #[trigger] line[i] != '\n',
    ensures
        screen_of(line) == text::trim_end(line),
        screen_of(line.push('\n')) == text::trim_end(line),
{
    line_breaks_end_lines(Seq::empty(), line);
    let ends = |l: Seq<char>| text::trim_end(l);
    let one = seq![line].map_values(ends);
    assert(one =~= seq![text::trim_end(line)]);
    assert(one.drop_last() =~= Seq::empty());
    assert(text::join(one, "\n"@) =~= text::trim_end(line));
    if line.len() == 0 {
        assert(line =~= Seq::empty());
        let empty = Seq::<Seq<char>>::empty().map_values(ends);
        assert(lines_of(line) =~= Seq::empty());
        assert(empty =~= Seq::empty());
        assert(text::join(empty, "\n"@) =~= Seq::empty());
        assert(text::trim_end(line) =~= Seq::empty());
    }
}

/// What an insertion came to is seen as it is, and feedback that was read stays thirty
/// days.
pub proof fn verdict_is_seen_as_it_is(verdict: ObservedVerdict)
    ensures
        verdict matches ObservedVerdict::Inserted { strategy, observing, report } ==> verdict@
            == (Observed::Inserted { strategy, observing, report: text::opt(report) }),
        verdict is CopyInstead ==> verdict@ is CopyInstead,
        verdict matches ObservedVerdict::Failed(error) ==> verdict@ == Observed::Failed(error@),
        ACKNOWLEDGED_FEEDBACK_RETENTION_DAYS == 30,
{
}

/// The lines of a screen stay apart, each without the white space at its end.
pub proof fn screen_lines_stay_apart(a: Seq<char>, b: Seq<char>)
    requires
        forall|i: int| 0 <= i < a.len() ==> #[trigger] a[i] != '\n',
        forall|i: int| 0 <= i < b.len() ==> #[trigger] b[i] != '\n',
        b.len() > 0,
    ensures
        screen_of(a.push('\n') + b) == text::trim_end(a) + seq!['\n'] + text::trim_end(b),
{
    line_breaks_end_lines(a, b);
    line_breaks_end_lines(Seq::empty(), a);
    let lines = seq![a].push(b);
    let ends = |l: Seq<char>| text::trim_end(l);
    let shown = lines.map_values(ends);
    assert(shown =~= seq![text::trim_end(a), text::trim_end(b)]);
    assert(shown.drop_last() =~= seq![text::trim_end(a)]);
    assert(seq![text::trim_end(a)].drop_last() =~= Seq::empty());
    reveal_strlit("\n");
    assert("\n"@ =~= seq!['\n']);
    assert(text::join(seq![text::trim_end(a)], "\n"@) =~= text::trim_end(a));
    assert(text::join(shown, "\n"@) =~= text::trim_end(a) + seq!['\n'] + text::trim_end(b));
}

} // verus!
