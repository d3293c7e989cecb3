//! Learning settings and explicit edits: what an edit is recorded as, and when a
//! replacement enters the dictionary.
use crate::config::LearningConfig;
use crate::outside;
use crate::text;
use vstd::prelude::*;
use vstd::string::*;

verus! {

// ---------------------------------------------------------------------------
// Settings
// ---------------------------------------------------------------------------

#[derive(Debug, Clone, PartialEq, Eq)]
pub struct LearningConfigDto {
    pub auto_promote: bool,
    pub auto_promote_threshold: u32,
    pub post_paste_capture: bool,
    /// Retained for configuration compatibility. The persistent engine uses
    /// semantic sessions and an independent retention policy.
    pub post_paste_seconds: u64,
}

#[derive(Debug, Clone, PartialEq, Eq)]
pub struct LearningConfigInput {
    pub auto_promote: Option<bool>,
    pub auto_promote_threshold: Option<u32>,
    pub post_paste_capture: Option<bool>,
    pub post_paste_seconds: Option<u64>,
}

/// The learning settings as the interface shows them.
pub fn dto(config: &LearningConfig) -> (r: LearningConfigDto)
    ensures
        r.auto_promote == config.auto_promote,
        r.auto_promote_threshold == config.auto_promote_threshold,
        r.post_paste_capture == config.post_paste_capture,
        r.post_paste_seconds == config.post_paste_seconds,
{
    LearningConfigDto {
        auto_promote: config.auto_promote,
        auto_promote_threshold: config.auto_promote_threshold,
        post_paste_capture: config.post_paste_capture,
        post_paste_seconds: config.post_paste_seconds,
    }
}

/// Takes over what an input sets: a replacement must be seen twice at the least,
/// and a field is watched for five seconds to two minutes.
pub fn save_learning_config(config: &mut LearningConfig, input: LearningConfigInput)
    ensures
        final(config).auto_promote == match input.auto_promote {
            Some(value) => value,
            None => old(config).auto_promote,
        },
        final(config).auto_promote_threshold == match input.auto_promote_threshold {
            Some(value) => if value < 2 {
                2
            } else {
                value
            },
            None => old(config).auto_promote_threshold,
        },
        final(config).post_paste_capture == match input.post_paste_capture {
            Some(value) => value,
            None => old(config).post_paste_capture,
        },
        final(config).post_paste_seconds == match input.post_paste_seconds {
            Some(value) => if value < 5 {
                5
            } else if value > 120 {
                120
            } else {
                value
            },
            None => old(config).post_paste_seconds,
        },
        final(config).persist_edit_evidence_text == old(config).persist_edit_evidence_text,
{
    if let Some(value) = input.auto_promote {
        config.auto_promote = value;
    }
    if let Some(value) = input.auto_promote_threshold {
        config.auto_promote_threshold = if value < 2 {
            2
        } else {
            value
        };
    }
    if let Some(value) = input.post_paste_capture {
        config.post_paste_capture = value;
    }
    if let Some(value) = input.post_paste_seconds {
        config.post_paste_seconds = if value < 5 {
            5
        } else if value > 120 {
            120
        } else {
            value
        };
    }
}

// ---------------------------------------------------------------------------
// Edits
// ---------------------------------------------------------------------------

#[derive(Debug, Clone, PartialEq, Eq)]
pub struct ProcessEditInput {
    pub before_text: String,
    pub after_text: String,
    pub session_id: Option<String>,
    /// pre_insert_ui | post_paste_ax | post_paste_pane | manual
    pub source: Option<String>,
    /// When false, only suggest (no edit_event write). Default true.
    pub record_event: Option<bool>,
}

/// Where an edit was made.
#[derive(Debug, Clone, Copy, PartialEq, Eq, Structural)]
pub enum EditSource {
    PreInsertUi,
    PostPasteAx,
    PostPastePane,
    Manual,
}

/// Where an edit was made, by name; before the insertion where the name is not
/// known.
pub open spec fn source_named(name: Option<Seq<char>>) -> EditSource {
    if name == Some("post_paste_pane"@) {
        EditSource::PostPastePane
    } else if name == Some("post_paste_ax"@) {
        EditSource::PostPasteAx
    } else if name == Some("manual"@) {
        EditSource::Manual
    } else {
        EditSource::PreInsertUi
    }
}

/// Where an edit was made, by name.
pub fn edit_source(name: Option<&String>) -> (r: EditSource)
    ensures
        r == source_named(text::seen(name)),
{
    match name {
        Some(name) => if text::same(name.as_str(), "post_paste_pane") {
            EditSource::PostPastePane
        } else if text::same(name.as_str(), "post_paste_ax") {
            EditSource::PostPasteAx
        } else if text::same(name.as_str(), "manual") {
            EditSource::Manual
        } else {
            EditSource::PreInsertUi
        },
        None => EditSource::PreInsertUi,
    }
}

/// What is to be done with an edit.
#[derive(Debug, Clone, Copy, PartialEq, Eq, Structural)]
pub enum EditPlan {
    /// Nothing was changed.
    Nothing,
    /// Candidates are looked for. The edit is recorded under `session`, where
    /// that is there.
    Learn { source: EditSource, session: Option<u128> },
}

/// The session of an edit, where `read` is the reading of its identifier: none
/// where the edit is not to be recorded or the identifier is none.
pub open spec fn edit_session(
    record_event: Option<bool>,
    read: Option<Result<u128, Seq<char>>>,
) -> Option<u128> {
    if record_event == Some(false) {
        None
    } else {
        match read {
            Some(Ok(id)) => Some(id),
            _ => None,
        }
    }
}

/// What is to be done with an edit, where `session` is the reading of the session
/// that it was made in.
pub fn plan_edit(input: &ProcessEditInput, session: Option<u128>) -> (r: EditPlan)
    ensures
        r == if input.before_text@ == input.after_text@ {
            EditPlan::Nothing
        } else {
            EditPlan::Learn {
                source: source_named(text::opt(input.source)),
                session: if input.record_event == Some(false) {
                    None
                } else {
                    session
                },
            }
        },
{
    if text::same(input.before_text.as_str(), input.after_text.as_str()) {
        return EditPlan::Nothing;
    }
    let record: bool = match input.record_event {
        Some(record) => record,
        None => true,
    };
    let source: EditSource = match &input.source {
        Some(name) => edit_source(Some(name)),
        None => edit_source(None),
    };
    EditPlan::Learn {
        source,
        session: if record {
            session
        } else {
            None
        },
    }
}

/// The reading of the session of an edit.
pub open spec fn session_read(id: Option<String>) -> Option<Result<u128, Seq<char>>> {
    match id {
        Some(id) => Some(outside::uuid_parsed(id@)),
        None => None,
    }
}

/// What is to be done with an edit. One that changes nothing is no edit; one
/// without a known session is not recorded, but still learned from.
pub fn process_edit(input: &ProcessEditInput) -> (r: EditPlan)
    ensures
        r == if input.before_text@ == input.after_text@ {
            EditPlan::Nothing
        } else {
            EditPlan::Learn {
                source: source_named(text::opt(input.source)),
                session: edit_session(input.record_event, session_read(input.session_id)),
            }
        },
{
    let session: Option<u128> = match &input.session_id {
        Some(id) => match outside::parse_uuid(id.as_str()) {
            Ok(id) => Some(id),
            Err(_) => None,
        },
        None => None,
    };
    plan_edit(input, session)
}

// ---------------------------------------------------------------------------
// Promotion
// ---------------------------------------------------------------------------

/// A replacement in the dictionary: how often it was seen, and whether it counts.
#[derive(Debug, Clone, Copy, PartialEq, Eq, Structural)]
pub struct LearnedEntry {
    pub hit_count: u32,
    pub confirmed: bool,
}

impl LearnedEntry {
    /// Seen once more; at least as often as the same edit was made.
    pub open spec fn hits(self, identical_edits: u32) -> u32 {
        let once_more = if self.hit_count == u32::MAX {
            u32::MAX
        } else {
            (self.hit_count + 1) as u32
        };
        let edits = if identical_edits == 0 {
            1
        } else {
            identical_edits
        };
        if once_more < edits {
            edits
        } else {
            once_more
        }
    }

    /// After an edit that makes it.
    pub open spec fn learned(self, identical_edits: u32, threshold: u32) -> LearnedEntry {
        let hit_count = self.hits(identical_edits);
        LearnedEntry { hit_count, confirmed: self.confirmed || hit_count >= threshold }
    }
}

/// What is done with a replacement.
#[derive(Debug, Clone, Copy, PartialEq, Eq, Structural)]
pub enum Promotion {
    /// It counts already: nothing is written.
    Known,
    /// It is written, and does not count yet.
    Counted(LearnedEntry),
    /// It is written, and counts from now on.
    Promoted(LearnedEntry),
}

/// What is done with a replacement that an edit makes: `found` is the entry that
/// there is, `identical_edits` how often the same edit was made.
pub fn promote(found: Option<LearnedEntry>, identical_edits: u32, threshold: u32) -> (r: Promotion)
    ensures
        ({
            let entry = match found {
                Some(entry) => entry,
                None => LearnedEntry { hit_count: 0, confirmed: false },
            };
            let next = entry.learned(identical_edits, threshold);
            r == if entry.confirmed {
                Promotion::Known
            } else if next.confirmed {
                Promotion::Promoted(next)
            } else {
                Promotion::Counted(next)
            }
        }),
{
    let entry: LearnedEntry = match found {
        Some(entry) => entry,
        None => LearnedEntry { hit_count: 0, confirmed: false },
    };
    if entry.confirmed {
        return Promotion::Known;
    }
    let once_more: u32 = if entry.hit_count == u32::MAX {
        u32::MAX
    } else {
        entry.hit_count + 1
    };
    let edits: u32 = if identical_edits == 0 {
        1
    } else {
        identical_edits
    };
    let hit_count: u32 = if once_more < edits {
        edits
    } else {
        once_more
    };
    if hit_count >= threshold {
        Promotion::Promoted(LearnedEntry { hit_count, confirmed: true })
    } else {
        Promotion::Counted(LearnedEntry { hit_count, confirmed: false })
    }
}

/// What counts goes on counting, no entry is seen less often than before, and a
/// new one counts only from the threshold on.
pub proof fn learning_only_grows(entry: LearnedEntry, identical_edits: u32, threshold: u32)
    ensures
        entry.confirmed ==> entry.learned(identical_edits, threshold).confirmed,
        entry.learned(identical_edits, threshold).hit_count >= entry.hit_count,
        entry.hit_count < u32::MAX ==> entry.learned(identical_edits, threshold).hit_count
            > entry.hit_count,
        !entry.confirmed ==> (entry.learned(identical_edits, threshold).confirmed
            <==> entry.learned(identical_edits, threshold).hit_count >= threshold),
{
}

/// What the user is told of an edit.
pub open spec fn edit_message(promoted: nat, candidates: nat) -> Seq<char> {
    if promoted > 0 {
        "auto-promoted "@ + text::decimal(promoted) + " dictionary entr(y/ies)"@
    } else if candidates == 0 {
        "edit captured; no dictionary candidates"@
    } else {
        "edit captured; "@ + text::decimal(candidates) + " candidate(s) ready to confirm"@
    }
}

/// What the user is told of an edit.
pub fn edit_summary(promoted: usize, candidates: usize) -> (r: String)
    ensures
        r@ == edit_message(promoted as nat, candidates as nat),
{
    if promoted > 0 {
        text::glue3(
            "auto-promoted ",
            text::decimal_text(promoted as u64).as_str(),
            " dictionary entr(y/ies)",
        )
    } else if candidates == 0 {
        "edit captured; no dictionary candidates".to_owned()
    } else {
        text::glue3(
            "edit captured; ",
            text::decimal_text(candidates as u64).as_str(),
            " candidate(s) ready to confirm",
        )
    }
}

/// What the user is told where nothing was changed.
pub fn no_edit() -> (r: String)
    ensures
        r@ == "no meaningful edit"@,
{
    "no meaningful edit".to_owned()
}

// ---------------------------------------------------------------------------
// Learning from an edit
// ---------------------------------------------------------------------------

/// What may be learned from an edit.
#[derive(Debug, Clone, PartialEq, Eq)]
pub struct Candidate {
    pub replacement: bool,
    pub from_text: Option<String>,
    pub to_text: Option<String>,
}

impl Candidate {
    /// It is a replacement with both its sides, which can be learned by itself.
    pub open spec fn learnable(self) -> bool {
        self.replacement && self.from_text is Some && self.to_text is Some
    }
}

/// The next candidate, from `from` on, that can be learned by itself.
pub open spec fn learnable_from(candidates: Seq<Candidate>, from: int) -> Option<int>
    decreases candidates.len() - from,
{
    if from < 0 || from >= candidates.len() {
        None
    } else if candidates[from].learnable() {
        Some(from)
    } else {
        learnable_from(candidates, from + 1)
    }
}

fn next_learnable(candidates: &Vec<Candidate>, from: usize) -> (r: Option<usize>)
    ensures
        match r {
            Some(at) => from <= at < candidates@.len() && learnable_from(candidates@, from as int)
                == Some(at as int),
            None => learnable_from(candidates@, from as int) is None,
        },
{
    let mut i: usize = from;
    while i < candidates.len()
        invariant
            from <= i,
            learnable_from(candidates@, from as int) == learnable_from(candidates@, i as int),
        decreases candidates@.len() - i,
    {
        let candidate: &Candidate = &candidates[i];
        if candidate.replacement && candidate.from_text.is_some() && candidate.to_text.is_some() {
            return Some(i);
        }
        i = i + 1;
    }
    None
}

/// What is done next to learn from an edit.
#[derive(Debug, Clone, PartialEq, Eq)]
pub enum LearnAction {
    /// Looks the replacement of a candidate up.
    LookUp { at: usize },
    /// Writes the entry of a candidate; `promoted` says that it counts from now on.
    Write { at: usize, entry: LearnedEntry, promoted: bool },
    /// All candidates are done with.
    Done,
    Failed(String),
}

/// What came of the action.
#[derive(Debug, Clone, PartialEq, Eq)]
pub enum LearnEvent {
    /// The entry that there is, and how often the same edit was made.
    Found { entry: Option<LearnedEntry>, identical_edits: u32 },
    Written,
    Failed(String),
}

/// The learning from an edit.
#[derive(Debug, Clone, PartialEq, Eq)]
pub struct LearnRun {
    pub candidates: Vec<Candidate>,
    pub threshold: u32,
    pub action: LearnAction,
    /// The candidates that count from now on, in their order.
    pub promoted: Vec<usize>,
}

/// Where the learning stands, as a value.
pub enum LearnStep {
    LookUp { at: int },
    Write { at: int, entry: LearnedEntry, promoted: bool },
    Done,
    Failed(Seq<char>),
}

impl View for LearnAction {
    type V = LearnStep;

    open spec fn view(&self) -> LearnStep {
        match *self {
            LearnAction::LookUp { at } => LearnStep::LookUp { at: at as int },
            LearnAction::Write { at, entry, promoted } => LearnStep::Write {
                at: at as int,
                entry,
                promoted,
            },
            LearnAction::Done => LearnStep::Done,
            LearnAction::Failed(error) => LearnStep::Failed(error@),
        }
    }
}

/// The candidate from `from` on that is looked up next.
pub open spec fn looking(candidates: Seq<Candidate>, from: int) -> LearnStep {
    match learnable_from(candidates, from) {
        Some(at) => LearnStep::LookUp { at },
        None => LearnStep::Done,
    }
}

/// Where the learning stands after what came of its action. An entry that counts
/// already is not written; what cannot be read or written ends the learning.
pub open spec fn learn_next(
    candidates: Seq<Candidate>,
    threshold: u32,
    step: LearnStep,
    event: LearnEvent,
) -> LearnStep {
    match (step, event) {
        (LearnStep::LookUp { .. } | LearnStep::Write { .. }, LearnEvent::Failed(error)) => {
            LearnStep::Failed(error@)
        },
        (LearnStep::LookUp { at }, LearnEvent::Found { entry, identical_edits }) => {
            let known = match entry {
                Some(entry) => entry,
                None => LearnedEntry { hit_count: 0, confirmed: false },
            };
            let next = known.learned(identical_edits, threshold);
            if known.confirmed {
                looking(candidates, at + 1)
            } else {
                LearnStep::Write { at, entry: next, promoted: next.confirmed }
            }
        },
        (LearnStep::Write { at, .. }, LearnEvent::Written) => looking(candidates, at + 1),
        _ => step,
    }
}

impl LearnRun {
    /// The learning from the candidates of an edit; nothing is learned by itself
    /// where that is switched off.
    pub fn new(candidates: Vec<Candidate>, auto_promote: bool, threshold: u32) -> (r: Self)
        ensures
            r.candidates == candidates,
            r.threshold == threshold,
            r.promoted@.len() == 0,
            r.action@ == if auto_promote {
                looking(candidates@, 0)
            } else {
                LearnStep::Done
            },
    {
        let action: LearnAction = if auto_promote {
            match next_learnable(&candidates, 0) {
                Some(at) => LearnAction::LookUp { at },
                None => LearnAction::Done,
            }
        } else {
            LearnAction::Done
        };
        LearnRun { candidates, threshold, action, promoted: Vec::new() }
    }

    fn look(&mut self, at: usize)
        requires
            at < old(self).candidates@.len(),
        ensures
            final(self).candidates == old(self).candidates,
            final(self).threshold == old(self).threshold,
            final(self).promoted == old(self).promoted,
            final(self).action@ == looking(old(self).candidates@, at + 1),
    {
        let count: usize = self.candidates.len();
        assert(at < count);
        self.action = match next_learnable(&self.candidates, at + 1) {
            Some(at) => LearnAction::LookUp { at },
            None => LearnAction::Done,
        };
    }

    /// Takes in what came of the action. A candidate that was written to count is
    /// promoted.
    pub fn advance(&mut self, event: LearnEvent)
        requires
            old(self).action matches LearnAction::LookUp { at } ==> at < old(
                self,
            ).candidates@.len(),
            old(self).action matches LearnAction::Write { at, .. } ==> at < old(
                self,
            ).candidates@.len(),
        ensures
            final(self).candidates == old(self).candidates,
            final(self).threshold == old(self).threshold,
            final(self).action@ == learn_next(
                old(self).candidates@,
                old(self).threshold,
                old(self).action@,
                event,
            ),
            final(self).promoted@ == match (old(self).action, event) {
                (LearnAction::Write { at, promoted: true, .. }, LearnEvent::Written) => {
                    old(self).promoted@.push(at)
                },
                _ => old(self).promoted@,
            },
    {
        match event {
            LearnEvent::Failed(error) => match self.action {
                LearnAction::LookUp { .. } | LearnAction::Write { .. } => {
                    self.action = LearnAction::Failed(error);
                },
                _ => {},
            },
            LearnEvent::Found { entry, identical_edits } => {
                let at: usize = match self.action {
                    LearnAction::LookUp { at } => at,
                    _ => {
                        return;
                    },
                };
                match promote(entry, identical_edits, self.threshold) {
                    Promotion::Known => self.look(at),
                    Promotion::Counted(entry) => {
                        self.action = LearnAction::Write { at, entry, promoted: false };
                    },
                    Promotion::Promoted(entry) => {
                        self.action = LearnAction::Write { at, entry, promoted: true };
                    },
                }
            },
            LearnEvent::Written => {
                let (at, promoted): (usize, bool) = match self.action {
                    LearnAction::Write { at, promoted, .. } => (at, promoted),
                    _ => {
                        return;
                    },
                };
                if promoted {
                    self.promoted.push(at);
                }
                self.look(at);
            },
        }
    }

    /// What the user is told of the edit.
    pub fn message(&self) -> (r: String)
        ensures
            r@ == edit_message(self.promoted@.len(), self.candidates@.len()),
    {
        edit_summary(self.promoted.len(), self.candidates.len())
    }
}

proof fn lemma_learnable_from(candidates: Seq<Candidate>, from: int)
    requires
        0 <= from,
    ensures
        learnable_from(candidates, from) matches Some(at) ==> from <= at < candidates.len()
            && candidates[at].learnable(),
    decreases candidates.len() - from,
{
    if from < candidates.len() {
        lemma_learnable_from(candidates, from + 1);
    }
}

/// How far the learning is from its end.
pub open spec fn learn_distance(candidates: Seq<Candidate>, step: LearnStep) -> int {
    match step {
        LearnStep::LookUp { at } => 2 * (candidates.len() - at) + 2,
        LearnStep::Write { at, .. } => 2 * (candidates.len() - at) + 1,
        _ => 0,
    }
}

/// The learning stands at a candidate that can be learned by itself.
pub open spec fn learn_valid(candidates: Seq<Candidate>, step: LearnStep) -> bool {
    match step {
        LearnStep::LookUp { at } => 0 <= at < candidates.len() && candidates[at].learnable(),
        LearnStep::Write { at, .. } => 0 <= at < candidates.len() && candidates[at].learnable(),
        _ => true,
    }
}

/// Only replacements with both their sides are learned by themselves, each at most
/// once, and the learning ends.
pub proof fn learning_ends(
    candidates: Seq<Candidate>,
    threshold: u32,
    step: LearnStep,
    event: LearnEvent,
)
    requires
        learn_valid(candidates, step),
    ensures
        learn_valid(candidates, looking(candidates, 0)),
        ({
            let next = learn_next(candidates, threshold, step, event);
            &&& learn_valid(candidates, next)
            &&& next == step || learn_distance(candidates, next) < learn_distance(candidates, step)
        }),
{
    lemma_learnable_from(candidates, 0);
    match step {
        LearnStep::LookUp { at } => {
            lemma_learnable_from(candidates, at + 1);
        },
        LearnStep::Write { at, .. } => {
            lemma_learnable_from(candidates, at + 1);
        },
        _ => {},
    }
}

// ---------------------------------------------------------------------------
// Laws of learning
// ---------------------------------------------------------------------------

/// The entry that a lookup stands for: a replacement that was not found was never
/// seen.
pub open spec fn seen_before(found: Option<LearnedEntry>) -> nat {
    match found {
        Some(entry) => entry.hit_count as nat,
        None => 0,
    }
}

/// An entry that does not count yet was seen once more after an edit, as often at
/// least as the same edit was made, and not oftener than one of the two says.
pub proof fn hits_are_the_greater_of_both_counts(
    entry: LearnedEntry,
    identical_edits: u32,
    threshold: u32,
)
    ensures
        ({
            let hits = entry.learned(identical_edits, threshold).hit_count;
            &&& hits >= identical_edits
            &&& hits >= 1
            &&& entry.hit_count < u32::MAX ==> hits >= entry.hit_count + 1
            &&& entry.hit_count == u32::MAX ==> hits == u32::MAX
            &&& hits == identical_edits || hits == entry.hit_count + 1 || hits == u32::MAX
                && entry.hit_count == u32::MAX
        }),
{
}

/// A replacement is promoted at the threshold and not before it: where it does not
/// count yet, it counts from this edit on exactly if this sighting, or the number of
/// the same edits, reaches the threshold.
pub proof fn promotion_is_at_the_threshold(
    candidates: Seq<Candidate>,
    threshold: u32,
    at: int,
    found: Option<LearnedEntry>,
    identical_edits: u32,
)
    requires
        found matches Some(entry) ==> !entry.confirmed,
    ensures
        ({
            let next = learn_next(
                candidates,
                threshold,
                LearnStep::LookUp { at },
                LearnEvent::Found { entry: found, identical_edits },
            );
            let reached = seen_before(found) + 1 >= threshold || identical_edits >= threshold;
            &&& next is Write
            &&& next->Write_at == at
            &&& next->promoted == reached
            &&& next->entry.confirmed == reached
            &&& next->entry.hit_count >= identical_edits
            &&& seen_before(found) < u32::MAX ==> next->entry.hit_count > seen_before(found)
            &&& identical_edits <= seen_before(found) + 1 && seen_before(found) < u32::MAX
                ==> next->entry.hit_count == seen_before(found) + 1
            &&& identical_edits > seen_before(found) ==> next->entry.hit_count == identical_edits
        }),
{
}

/// The first sighting of a replacement is counted as one, and promoted only where one
/// is enough.
pub proof fn first_sighting_counts_once(threshold: u32)
    ensures
        ({
            let entry = LearnedEntry { hit_count: 0, confirmed: false };
            &&& entry.learned(0, threshold).hit_count == 1
            &&& entry.learned(1, threshold).hit_count == 1
            &&& threshold > 1 ==> !entry.learned(1, threshold).confirmed
        }),
{
}

/// The same edit, made again and again, promotes its replacement the time that the
/// threshold is reached and no time before: after `n` sightings the replacement was
/// seen `n` times, and counts exactly if `n` is the threshold at least.
pub proof fn repetition_promotes_at_the_threshold(n: nat, threshold: u32)
    requires
        1 <= n < u32::MAX,
    ensures
        repeated(n, threshold).hit_count == n,
        repeated(n, threshold).confirmed <==> n >= threshold,
    decreases n,
{
    reveal_with_fuel(repeated, 2);
    if n > 1 {
        repetition_promotes_at_the_threshold((n - 1) as nat, threshold);
    }
}

/// A replacement after `n` sightings, each counted with no edits beside it.
pub open spec fn repeated(n: nat, threshold: u32) -> LearnedEntry
    decreases n,
{
    if n == 0 {
        LearnedEntry { hit_count: 0, confirmed: false }
    } else {
        repeated((n - 1) as nat, threshold).learned(0, threshold)
    }
}

/// A replacement that counts already is left as it is: the next candidate follows.
pub proof fn known_replacement_is_not_written(
    candidates: Seq<Candidate>,
    threshold: u32,
    at: int,
    entry: LearnedEntry,
    identical_edits: u32,
)
    requires
        entry.confirmed,
    ensures
        learn_next(
            candidates,
            threshold,
            LearnStep::LookUp { at },
            LearnEvent::Found { entry: Some(entry), identical_edits },
        ) == looking(candidates, at + 1),
{
}

/// No candidate is passed over: the one that is looked up next is the first, from
/// `from` on, that is a replacement with both its sides; there is none where the
/// learning is done.
pub proof fn candidates_are_taken_in_order(candidates: Seq<Candidate>, from: int)
    requires
        0 <= from,
    ensures
        looking(candidates, from) is LookUp || looking(candidates, from) is Done,
        looking(candidates, from) matches LearnStep::LookUp { at } ==> {
            &&& from <= at < candidates.len()
            &&& candidates[at].replacement
            &&& candidates[at].from_text is Some
            &&& candidates[at].to_text is Some
            &&& forall|i: int|
                from <= i < at ==> !((#[trigger] candidates[i]).replacement
                    && candidates[i].from_text is Some && candidates[i].to_text is Some)
        },
        looking(candidates, from) is Done ==> forall|i: int|
            from <= i < candidates.len() ==> !((#[trigger] candidates[i]).replacement
                && candidates[i].from_text is Some && candidates[i].to_text is Some),
    decreases candidates.len() - from,
{
    if from < candidates.len() {
        candidates_are_taken_in_order(candidates, from + 1);
    }
}

/// A candidate that was written is followed by the next; what cannot be read or
/// written ends the learning with its words, and an event that answers nothing
/// changes nothing.
pub proof fn learning_goes_on_or_tells_why(
    candidates: Seq<Candidate>,
    threshold: u32,
    at: int,
    entry: LearnedEntry,
    promoted: bool,
    error: String,
)
    ensures
        learn_next(
            candidates,
            threshold,
            LearnStep::Write { at, entry, promoted },
            LearnEvent::Written,
        ) == looking(candidates, at + 1),
        learn_next(
            candidates,
            threshold,
            LearnStep::Write { at, entry, promoted },
            LearnEvent::Failed(error),
        ) == LearnStep::Failed(error@),
        learn_next(candidates, threshold, LearnStep::LookUp { at }, LearnEvent::Failed(error))
            == LearnStep::Failed(error@),
        learn_next(candidates, threshold, LearnStep::Done, LearnEvent::Written) is Done,
        learn_next(candidates, threshold, LearnStep::LookUp { at }, LearnEvent::Written)
            == (LearnStep::LookUp { at }),
{
}

/// An edit is recorded under the session that it names, unless it is not to be
/// recorded; an identifier that cannot be read is no session.
pub proof fn edit_is_recorded_unless_refused(id: u128, words: Seq<char>, record: Option<bool>)
    ensures
        record != Some(false) ==> edit_session(record, Some(Ok(id))) == Some(id),
        edit_session(Some(false), Some(Ok(id))) is None,
        edit_session(record, Some(Err(words))) is None,
        edit_session(record, None) is None,
{
}

/// Each of the four places in which an edit is made is known by its own name.
pub proof fn edit_sources_are_told_apart(name: Seq<char>)
    ensures
        source_named(Some("pre_insert_ui"@)) is PreInsertUi,
        source_named(Some("post_paste_ax"@)) is PostPasteAx,
        source_named(Some("post_paste_pane"@)) is PostPastePane,
        source_named(Some("manual"@)) is Manual,
        source_named(None) is PreInsertUi,
        source_named(Some(name)) is PostPasteAx ==> name == "post_paste_ax"@,
        source_named(Some(name)) is PostPastePane ==> name == "post_paste_pane"@,
        source_named(Some(name)) is Manual ==> name == "manual"@,
{
    reveal_strlit("pre_insert_ui");
    reveal_strlit("post_paste_ax");
    reveal_strlit("post_paste_pane");
    reveal_strlit("manual");
    assert("pre_insert_ui"@[1] == 'r' && "post_paste_ax"@[1] == 'o' && "post_paste_pane"@[1] == 'o'
        && "manual"@[1] == 'a');
    assert("post_paste_ax"@.len() == 13 && "post_paste_pane"@.len() == 15);
}

/// The user is told how many entries were promoted, where any was, and else how many
/// candidates there are: different counts are told in different words.
pub proof fn edit_message_tells_the_counts(promoted: nat, candidates: nat, other: nat)
    ensures
        promoted > 0 && other > 0 && promoted != other ==> edit_message(promoted, candidates)
            != edit_message(other, candidates),
        candidates != other ==> edit_message(0, candidates) != edit_message(0, other),
        promoted > 0 ==> edit_message(promoted, candidates) != edit_message(0, other),
        promoted > 0 ==> edit_message(promoted, candidates) == edit_message(promoted, other),
{
    reveal_strlit("auto-promoted ");
    reveal_strlit(" dictionary entr(y/ies)");
    reveal_strlit("edit captured; no dictionary candidates");
    reveal_strlit("edit captured; ");
    reveal_strlit(" candidate(s) ready to confirm");
    let a = "auto-promoted "@;
    let b = " dictionary entr(y/ies)"@;
    let c = "edit captured; "@;
    let d = " candidate(s) ready to confirm"@;
    assert(a[0] == 'a' && c[0] == 'e' && "edit captured; no dictionary candidates"@[0] == 'e');
    lemma_between(a, text::decimal(promoted), text::decimal(other), b);
    lemma_between(c, text::decimal(candidates), text::decimal(other), d);
    if text::decimal(promoted) == text::decimal(other) {
        text::lemma_decimal_differs(promoted, other);
    }
    if text::decimal(candidates) == text::decimal(other) {
        text::lemma_decimal_differs(candidates, other);
    }
    if promoted > 0 {
        assert(edit_message(promoted, candidates)[0] == 'a');
        assert(edit_message(0, other)[0] == 'e');
    }
    text::lemma_decimal_is_digits(candidates);
    text::lemma_decimal_is_digits(other);
    let none = "edit captured; no dictionary candidates"@;
    assert(none[15] == 'n');
    if candidates > 0 {
        assert(edit_message(0, candidates)[15] == text::decimal(candidates)[0]);
    }
    if other > 0 {
        assert(edit_message(0, other)[15] == text::decimal(other)[0]);
    }
}

proof fn lemma_between(a: Seq<char>, x: Seq<char>, y: Seq<char>, b: Seq<char>)
    ensures
        a + x + b == a + y + b ==> x == y,
{
    if a + x + b == a + y + b {
        assert((a + x + b).len() == a.len() + x.len() + b.len());
        assert((a + y + b).len() == a.len() + y.len() + b.len());
        assert(x =~= (a + x + b).subrange(a.len() as int, (a.len() + x.len()) as int));
        assert(y =~= (a + y + b).subrange(a.len() as int, (a.len() + x.len()) as int));
    }
}

/// The message of an edit, in words.
pub proof fn edit_message_in_words(promoted: nat, candidates: nat)
    ensures
        promoted > 0 ==> edit_message(promoted, candidates) == "auto-promoted "@ + text::decimal(
            promoted,
        ) + " dictionary entr(y/ies)"@,
        edit_message(0, 0) == "edit captured; no dictionary candidates"@,
        candidates > 0 ==> edit_message(0, candidates) == "edit captured; "@ + text::decimal(
            candidates,
        ) + " candidate(s) ready to confirm"@,
{
}

} // verus!
