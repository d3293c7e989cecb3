//! Sessions, edits and the dictionary, as the interface asks for them.
use crate::learning::EditSource;
use crate::outside;
use crate::pipeline::InsertStrategy;
use crate::text;
use vstd::prelude::*;
use vstd::string::*;

verus! {

#[derive(Debug, Clone, PartialEq, Eq)]
pub struct Health {
    pub app: String,
    pub version: String,
    pub data_dir: String,
    pub db_path: String,
    pub db_ok: bool,
    pub session_count: u32,
    pub dictionary_count: u32,
}

#[derive(Debug, Clone, PartialEq, Eq)]
pub struct CreateSessionInput {
    pub asr_raw: Option<String>,
    pub corrected: Option<String>,
    pub pasted: Option<String>,
    pub focused_app: Option<String>,
    /// When true, also record an edit event if asr/corrected differ from pasted.
    pub record_edit_if_changed: Option<bool>,
}

#[derive(Debug, Clone, PartialEq, Eq)]
pub struct RecordEditInput {
    pub session_id: String,
    pub before_text: String,
    pub after_text: String,
    /// pre_insert_ui | post_paste_ax | manual
    pub source: Option<String>,
}

#[derive(Debug, Clone, PartialEq, Eq)]
pub struct ConfirmLearnInput {
    /// term | replacement
    pub kind: String,
    pub term: Option<String>,
    pub from_text: Option<String>,
    pub to_text: Option<String>,
    /// Optional session to attach an edit_event audit trail.
    pub session_id: Option<String>,
    pub before_text: Option<String>,
    pub after_text: Option<String>,
}

#[derive(Debug, Clone, PartialEq, Eq)]
pub struct AddTermInput {
    pub term: String,
}

#[derive(Debug, Clone, PartialEq, Eq)]
pub struct AddReplacementInput {
    pub from_text: String,
    pub to_text: String,
}

// ---------------------------------------------------------------------------
// Health
// ---------------------------------------------------------------------------

/// How many sessions are counted at most.
pub const SESSIONS_COUNTED: u32 = 10_000;

fn low_half(n: u64) -> (r: u32)
    ensures
        r == n % 0x1_0000_0000,
{
    assert(n as u32 == n % 0x1_0000_0000) by (bit_vector);
    #[verifier::truncate]
    (n as u32)
}

/// The state of the database: `counts` are its sessions and its entries, where it
/// is there. What could not be counted is `None`.
pub fn app_health(
    version: String,
    data_dir: String,
    db_path: String,
    counts: Option<(Option<u64>, Option<u64>)>,
) -> (r: Health)
    ensures
        r.app@ == "Lumen ASR"@,
        r.version == version,
        r.data_dir == data_dir,
        r.db_path == db_path,
        r.db_ok == counts is Some,
        r.session_count == match counts {
            Some((Some(sessions), _)) => sessions as int % 0x1_0000_0000,
            _ => 0,
        },
        r.dictionary_count == match counts {
            Some((_, Some(entries))) => entries as int % 0x1_0000_0000,
            _ => 0,
        },
{
    let (db_ok, session_count, dictionary_count): (bool, u32, u32) = match counts {
        Some((sessions, entries)) => (
            true,
            match sessions {
                Some(n) => low_half(n),
                None => 0,
            },
            match entries {
                Some(n) => low_half(n),
                None => 0,
            },
        ),
        None => (false, 0, 0),
    };
    Health {
        app: "Lumen ASR".to_owned(),
        version,
        data_dir,
        db_path,
        db_ok,
        session_count,
        dictionary_count,
    }
}

// ---------------------------------------------------------------------------
// Sessions
// ---------------------------------------------------------------------------

/// How many sessions are listed.
pub fn session_limit(limit: Option<u32>) -> (r: u32)
    ensures
        ({
            let wanted: u32 = match limit {
                Some(limit) => limit,
                None => 50,
            };
            r == if wanted < 1 {
                1
            } else if wanted > 500 {
                500
            } else {
                wanted
            }
        }),
{
    let wanted: u32 = match limit {
        Some(limit) => limit,
        None => 50,
    };
    if wanted < 1 {
        1
    } else if wanted > 500 {
        500
    } else {
        wanted
    }
}

/// A session that is saved by hand.
#[derive(Debug, Clone, PartialEq, Eq)]
pub struct ManualSession {
    pub asr_raw: Option<String>,
    pub corrected: Option<String>,
    pub pasted: Option<String>,
    pub focused_app: Option<String>,
    pub asr_engine: String,
    pub corrector_engine: String,
    pub insert_strategy: InsertStrategy,
}

/// An edit that is recorded with a session.
#[derive(Debug, Clone, PartialEq, Eq)]
pub struct RecordedEdit {
    pub source: EditSource,
    pub before: String,
    pub after: String,
}

/// The first of two texts that is there.
pub open spec fn either(a: Option<Seq<char>>, b: Option<Seq<char>>) -> Option<Seq<char>> {
    match a {
        Some(_) => a,
        None => b,
    }
}

/// What was inserted: what the input names, or the last text before it.
pub open spec fn text_after(input: CreateSessionInput) -> Option<Seq<char>> {
    either(text::opt(input.pasted), text_before(input))
}

/// What was there to be inserted.
pub open spec fn text_before(input: CreateSessionInput) -> Option<Seq<char>> {
    either(text::opt(input.corrected), text::opt(input.asr_raw))
}

/// The texts between which an edit lies, where one is to be recorded.
pub open spec fn edit_made(input: CreateSessionInput) -> Option<(Seq<char>, Seq<char>)> {
    let before = match text_before(input) {
        Some(before) => before,
        None => Seq::empty(),
    };
    let after = match text_after(input) {
        Some(after) => after,
        None => Seq::empty(),
    };
    if input.record_edit_if_changed == Some(true) && before.len() > 0 && before != after {
        Some((before, after))
    } else {
        None
    }
}

fn copy_either(a: &Option<String>, b: &Option<String>) -> (r: Option<String>)
    ensures
        text::opt(r) == either(text::opt(*a), text::opt(*b)),
{
    if a.is_some() {
        text::copy_opt(a)
    } else {
        text::copy_opt(b)
    }
}

fn text_or_empty(value: &Option<String>) -> (r: String)
    ensures
        r@ == match text::opt(*value) {
            Some(value) => value,
            None => Seq::empty(),
        },
{
    match value {
        Some(value) => value.as_str().to_owned(),
        None => String::new(),
    }
}

/// The session that an input describes, and the edit that is recorded with it.
pub fn save_session(input: &CreateSessionInput) -> (r: (ManualSession, Option<RecordedEdit>))
    ensures
        text::opt(r.0.asr_raw) == text::opt(input.asr_raw),
        text::opt(r.0.corrected) == text::opt(input.corrected),
        text::opt(r.0.pasted) == text_after(*input),
        text::opt(r.0.focused_app) == text::opt(input.focused_app),
        r.0.asr_engine@ == "manual"@,
        r.0.corrector_engine@ == "none"@,
        r.0.insert_strategy == InsertStrategy::CopyOnly,
        match edit_made(*input) {
            Some((before, after)) => {
                &&& r.1 matches Some(edit)
                &&& edit.source == EditSource::PreInsertUi
                &&& edit.before@ == before
                &&& edit.after@ == after
            },
            None => r.1 is None,
        },
{
    let before: Option<String> = copy_either(&input.corrected, &input.asr_raw);
    let pasted: Option<String> = copy_either(&input.pasted, &before);
    let asked: bool = match input.record_edit_if_changed {
        Some(asked) => asked,
        None => false,
    };
    let before: String = text_or_empty(&before);
    let after: String = text_or_empty(&pasted);
    let edit: Option<RecordedEdit> = if asked && !before.as_str().is_empty() && !text::same(
        before.as_str(),
        after.as_str(),
    ) {
        Some(RecordedEdit { source: EditSource::PreInsertUi, before, after })
    } else {
        None
    };
    (
        ManualSession {
            asr_raw: text::copy_opt(&input.asr_raw),
            corrected: text::copy_opt(&input.corrected),
            pasted,
            focused_app: text::copy_opt(&input.focused_app),
            asr_engine: "manual".to_owned(),
            corrector_engine: "none".to_owned(),
            insert_strategy: InsertStrategy::CopyOnly,
        },
        edit,
    )
}

/// An edit is recorded with a session only where it was asked for, and only where
/// what was inserted is not what was there.
pub proof fn recorded_edits_change_the_text(input: CreateSessionInput)
    ensures
        edit_made(input) matches Some((before, after)) ==> {
            &&& input.record_edit_if_changed == Some(true)
            &&& before.len() > 0
            &&& before != after
            &&& text_before(input) == Some(before)
            &&& text_after(input) == Some(after)
        },
{
}

/// A session for a history that is still empty.
pub fn seed_demo_session() -> (r: CreateSessionInput)
    ensures
        text::opt(r.asr_raw) == Some("你好  世界 用脱肯鉴权"@),
        text::opt(r.corrected) == Some("你好，世界。用 Token 鉴权。"@),
        text::opt(r.pasted) == Some("你好，世界。用 Token 鉴权。"@),
        text::opt(r.focused_app) == Some("Notes"@),
        r.record_edit_if_changed == Some(false),
{
    CreateSessionInput {
        asr_raw: Some("你好  世界 用脱肯鉴权".to_owned()),
        corrected: Some("你好，世界。用 Token 鉴权。".to_owned()),
        pasted: Some("你好，世界。用 Token 鉴权。".to_owned()),
        focused_app: Some("Notes".to_owned()),
        record_edit_if_changed: Some(false),
    }
}

// ---------------------------------------------------------------------------
// Edits and learning
// ---------------------------------------------------------------------------

/// Where an edit was made, by the name that an input gives.
pub open spec fn recorded_source(name: Option<Seq<char>>) -> EditSource {
    if name == Some("post_paste_ax"@) {
        EditSource::PostPasteAx
    } else if name == Some("manual"@) {
        EditSource::Manual
    } else {
        EditSource::PreInsertUi
    }
}

/// Under which session, and from where, an edit is recorded.
pub fn edit_to_record(input: &RecordEditInput) -> (r: Result<(u128, EditSource), String>)
    ensures
        match outside::uuid_parsed(input.session_id@) {
            Ok(session) => r == Ok::<(u128, EditSource), String>(
                (session, recorded_source(text::opt(input.source))),
            ),
            Err(error) => text::fails(r, error),
        },
{
    let session: u128 = match outside::parse_uuid(input.session_id.as_str()) {
        Ok(session) => session,
        Err(error) => {
            return Err(error);
        },
    };
    let source: EditSource = match &input.source {
        Some(name) => if text::same(name.as_str(), "post_paste_ax") {
            EditSource::PostPasteAx
        } else if text::same(name.as_str(), "manual") {
            EditSource::Manual
        } else {
            EditSource::PreInsertUi
        },
        None => EditSource::PreInsertUi,
    };
    Ok((session, source))
}

/// An edit is recorded only under a session that is there.
pub fn check_session_exists(found: Result<bool, String>) -> (r: Result<(), String>)
    ensures
        match found {
            Ok(true) => r is Ok,
            Ok(false) => text::fails(r, "session not found"@),
            Err(error) => text::fails(r, error@),
        },
{
    match found {
        Ok(true) => Ok(()),
        Ok(false) => Err("session not found".to_owned()),
        Err(error) => Err(error),
    }
}

/// An entry of the dictionary.
#[derive(Debug, Clone, PartialEq, Eq)]
pub enum EntryText {
    Term(String),
    Replacement(String, String),
}

/// An entry of the dictionary as a sequence of texts.
pub enum EntryModel {
    Term(Seq<char>),
    Replacement(Seq<char>, Seq<char>),
}

impl View for EntryText {
    type V = EntryModel;

    open spec fn view(&self) -> EntryModel {
        match self {
            EntryText::Term(term) => EntryModel::Term(term@),
            EntryText::Replacement(from, to) => EntryModel::Replacement(from@, to@),
        }
    }
}

/// A text that is more than space.
pub open spec fn filled(value: Option<String>) -> Option<Seq<char>> {
    match value {
        Some(value) => if text::trim(value@).len() > 0 {
            Some(value@)
        } else {
            None
        },
        None => None,
    }
}

/// What is learned, or why nothing is.
pub open spec fn learned(input: ConfirmLearnInput) -> Result<EntryModel, Seq<char>> {
    if input.kind@ == "replacement"@ {
        match filled(input.from_text) {
            Some(from) => match filled(input.to_text) {
                Some(to) => Ok(EntryModel::Replacement(from, to)),
                None => Err("to_text required for replacement"@),
            },
            None => Err("from_text required for replacement"@),
        }
    } else if input.kind@ == "term"@ {
        match filled(
            match input.term {
                Some(_) => input.term,
                None => input.to_text,
            },
        ) {
            Some(term) => Ok(EntryModel::Term(term)),
            None => Err("term required"@),
        }
    } else {
        Err("unknown kind: "@ + input.kind@)
    }
}

fn keep_filled(value: &Option<String>) -> (r: Option<String>)
    ensures
        text::opt(r) == filled(*value),
{
    match value {
        Some(value) => if text::is_blank(value.as_str()) {
            None
        } else {
            Some(value.as_str().to_owned())
        },
        None => None,
    }
}

/// What is learned by confirmation. A replacement needs both its sides; a term may
/// stand in the text that replaces.
pub fn confirm_learn(input: &ConfirmLearnInput) -> (r: Result<EntryText, String>)
    ensures
        match learned(*input) {
            Ok(entry) => r matches Ok(e) && e@ == entry,
            Err(error) => text::fails(r, error),
        },
{
    if text::same(input.kind.as_str(), "replacement") {
        let from: String = match keep_filled(&input.from_text) {
            Some(from) => from,
            None => {
                return Err("from_text required for replacement".to_owned());
            },
        };
        let to: String = match keep_filled(&input.to_text) {
            Some(to) => to,
            None => {
                return Err("to_text required for replacement".to_owned());
            },
        };
        Ok(EntryText::Replacement(from, to))
    } else if text::same(input.kind.as_str(), "term") {
        let term: Option<String> = if input.term.is_some() {
            keep_filled(&input.term)
        } else {
            keep_filled(&input.to_text)
        };
        match term {
            Some(term) => Ok(EntryText::Term(term)),
            None => Err("term required".to_owned()),
        }
    } else {
        Err(text::glue("unknown kind: ", input.kind.as_str()))
    }
}

/// The session under which a confirmation leaves a trace: the one that the input
/// names, where the texts differ.
pub open spec fn audited(input: ConfirmLearnInput) -> Option<u128> {
    match (text::opt(input.session_id), text::opt(input.before_text), text::opt(input.after_text)) {
        (Some(id), Some(before), Some(after)) => match outside::uuid_parsed(id) {
            Ok(session) => if before != after {
                Some(session)
            } else {
                None
            },
            Err(_) => None,
        },
        _ => None,
    }
}

/// The session under which a confirmation leaves a trace, if it is there.
pub fn audit_session(input: &ConfirmLearnInput) -> (r: Option<u128>)
    ensures
        r == audited(*input),
{
    match (&input.session_id, &input.before_text, &input.after_text) {
        (Some(id), Some(before), Some(after)) => match outside::parse_uuid(id.as_str()) {
            Ok(session) => if text::same(before.as_str(), after.as_str()) {
                None
            } else {
                Some(session)
            },
            Err(_) => None,
        },
        _ => None,
    }
}

// ---------------------------------------------------------------------------
// The dictionary
// ---------------------------------------------------------------------------

/// The term that is added, or why none is.
pub open spec fn added_term(input: AddTermInput) -> Result<EntryModel, Seq<char>> {
    let term = text::trim(input.term@);
    if term.len() == 0 {
        Err("term cannot be empty"@)
    } else {
        Ok(EntryModel::Term(term))
    }
}

/// The term that is added, without the space around it.
pub fn add_dictionary_term(input: &AddTermInput) -> (r: Result<EntryText, String>)
    ensures
        match added_term(*input) {
            Ok(entry) => r matches Ok(e) && e@ == entry,
            Err(error) => text::fails(r, error),
        },
{
    let term: String = text::trimmed(input.term.as_str());
    if term.as_str().is_empty() {
        Err("term cannot be empty".to_owned())
    } else {
        Ok(EntryText::Term(term))
    }
}

/// The replacement that is added, or why none is.
pub open spec fn added_replacement(input: AddReplacementInput) -> Result<EntryModel, Seq<char>> {
    let from = text::trim(input.from_text@);
    let to = text::trim(input.to_text@);
    if from.len() == 0 || to.len() == 0 {
        Err("from_text and to_text required"@)
    } else {
        Ok(EntryModel::Replacement(from, to))
    }
}

/// The replacement that is added, without the space around its sides.
pub fn add_dictionary_replacement(input: &AddReplacementInput) -> (r: Result<EntryText, String>)
    ensures
        match added_replacement(*input) {
            Ok(entry) => r matches Ok(e) && e@ == entry,
            Err(error) => text::fails(r, error),
        },
{
    let from: String = text::trimmed(input.from_text.as_str());
    let to: String = text::trimmed(input.to_text.as_str());
    if from.as_str().is_empty() || to.as_str().is_empty() {
        Err("from_text and to_text required".to_owned())
    } else {
        Ok(EntryText::Replacement(from, to))
    }
}

/// An entry each text of which is more than space.
pub open spec fn not_blank(entry: EntryModel) -> bool {
    match entry {
        EntryModel::Term(term) => text::trim(term).len() > 0,
        EntryModel::Replacement(from, to) => text::trim(from).len() > 0 && text::trim(to).len()
            > 0,
    }
}

/// No entry of the dictionary is blank, whether it is learned or added by hand.
pub proof fn entries_are_not_blank(
    learn: ConfirmLearnInput,
    term: AddTermInput,
    replacement: AddReplacementInput,
)
    ensures
        learned(learn) matches Ok(entry) ==> not_blank(entry),
        added_term(term) matches Ok(entry) ==> not_blank(entry),
        added_replacement(replacement) matches Ok(entry) ==> not_blank(entry),
{
    text::lemma_trim_twice(term.term@);
    text::lemma_trim_twice(replacement.from_text@);
    text::lemma_trim_twice(replacement.to_text@);
}

// ---------------------------------------------------------------------------
// Laws of the commands
// ---------------------------------------------------------------------------

/// An edit lies between what was there to be inserted, corrected or as it was recognized,
/// and what was inserted; it is recorded where that is asked for and the texts differ.
pub proof fn edit_lies_between_the_texts(input: CreateSessionInput)
    ensures
        input.pasted matches Some(s) ==> text_after(input) == Some(s@),
        input.pasted is None ==> text_after(input) == text_before(input),
        input.corrected matches Some(s) ==> text_before(input) == Some(s@),
        input.corrected is None ==> text_before(input) == text::opt(input.asr_raw),
        input.record_edit_if_changed != Some(true) ==> edit_made(input) is None,
        input.pasted is None ==> edit_made(input) is None,
        input.record_edit_if_changed == Some(true) ==> (text_before(input) matches Some(before) ==> (
        text_after(input) matches Some(after) ==> (before.len() > 0 && before != after
            ==> edit_made(input) == Some((before, after))))),
        text_before(input) is None ==> edit_made(input) is None,
{
}

/// Where an edit was made is told by its name, and is the app itself otherwise.
pub proof fn edit_source_has_its_name(name: Seq<char>)
    ensures
        recorded_source(Some("post_paste_ax"@)) is PostPasteAx,
        recorded_source(Some("manual"@)) is Manual,
        recorded_source(Some("pre_insert_ui"@)) is PreInsertUi,
        recorded_source(None) is PreInsertUi,
        name != "post_paste_ax"@ && name != "manual"@ ==> recorded_source(Some(name))
            is PreInsertUi,
{
    reveal_strlit("post_paste_ax");
    reveal_strlit("manual");
    reveal_strlit("pre_insert_ui");
    assert("post_paste_ax"@.len() == 13 && "post_paste_ax"@[0] == 'p'
        && "post_paste_ax"@[1] == 'o' && "post_paste_ax"@[2] == 's' && "post_paste_ax"@[3] == 't'
        && "post_paste_ax"@[4] == '_' && "post_paste_ax"@[5] == 'p' && "post_paste_ax"@[6] == 'a'
        && "post_paste_ax"@[7] == 's' && "post_paste_ax"@[8] == 't' && "post_paste_ax"@[9] == 'e'
        && "post_paste_ax"@[10] == '_' && "post_paste_ax"@[11] == 'a'
        && "post_paste_ax"@[12] == 'x');
    assert("manual"@.len() == 6 && "manual"@[0] == 'm' && "manual"@[1] == 'a'
        && "manual"@[2] == 'n' && "manual"@[3] == 'u' && "manual"@[4] == 'a'
        && "manual"@[5] == 'l');
    assert("pre_insert_ui"@.len() == 13 && "pre_insert_ui"@[0] == 'p'
        && "pre_insert_ui"@[1] == 'r' && "pre_insert_ui"@[2] == 'e' && "pre_insert_ui"@[3] == '_'
        && "pre_insert_ui"@[4] == 'i' && "pre_insert_ui"@[5] == 'n' && "pre_insert_ui"@[6] == 's'
        && "pre_insert_ui"@[7] == 'e' && "pre_insert_ui"@[8] == 'r' && "pre_insert_ui"@[9] == 't'
        && "pre_insert_ui"@[10] == '_' && "pre_insert_ui"@[11] == 'u'
        && "pre_insert_ui"@[12] == 'i');
}

/// A replacement is learned from both of its texts and a term from its own, or else from
/// the text that was chosen; what is blank is refused.
pub proof fn entry_is_learned_from_its_texts(input: ConfirmLearnInput)
    ensures
        input.kind@ == "replacement"@ ==> (input.from_text matches Some(from) ==> (
        input.to_text matches Some(to) ==> (text::trim(from@).len() > 0 && text::trim(to@).len() > 0
            ==> learned(input) == Ok::<EntryModel, Seq<char>>(
            EntryModel::Replacement(from@, to@),
        )))),
        input.kind@ == "replacement"@ && filled(input.from_text) is None ==> learned(input) == Err::<
            EntryModel,
            Seq<char>,
        >("from_text required for replacement"@),
        input.kind@ == "replacement"@ && filled(input.from_text) is Some && filled(input.to_text)
            is None ==> learned(input) == Err::<EntryModel, Seq<char>>(
            "to_text required for replacement"@,
        ),
        input.kind@ == "term"@ ==> (input.term matches Some(term) ==> (text::trim(term@).len() > 0
            ==> learned(input) == Ok::<EntryModel, Seq<char>>(EntryModel::Term(term@)))),
        input.kind@ == "term"@ && input.term is None ==> (input.to_text matches Some(to) ==> (
        text::trim(to@).len() > 0 ==> learned(input) == Ok::<EntryModel, Seq<char>>(
            EntryModel::Term(to@),
        ))),
        input.kind@ == "term"@ && input.term is None && input.to_text is None ==> learned(input)
            == Err::<EntryModel, Seq<char>>("term required"@),
        input.kind@ != "term"@ && input.kind@ != "replacement"@ ==> learned(input) == Err::<
            EntryModel,
            Seq<char>,
        >("unknown kind: "@ + input.kind@),
{
    reveal_strlit("term");
    reveal_strlit("replacement");
    assert("term"@.len() == 4 && "term"@[0] == 't' && "term"@[1] == 'e' && "term"@[2] == 'r'
        && "term"@[3] == 'm');
    assert("replacement"@.len() == 11 && "replacement"@[0] == 'r' && "replacement"@[1] == 'e'
        && "replacement"@[2] == 'p' && "replacement"@[3] == 'l' && "replacement"@[4] == 'a'
        && "replacement"@[5] == 'c' && "replacement"@[6] == 'e' && "replacement"@[7] == 'm'
        && "replacement"@[8] == 'e' && "replacement"@[9] == 'n' && "replacement"@[10] == 't');
}

/// A text counts as filled where it is more than white space, and is kept as it is.
pub proof fn filled_text_is_kept(value: String)
    ensures
        text::trim(value@).len() > 0 ==> filled(Some(value)) == Some(value@),
        text::trim(value@).len() == 0 ==> filled(Some(value)) is None,
        filled(None) is None,
{
}

/// A confirmation leaves a trace under the session that it names, where both texts are
/// there and differ.
pub proof fn trace_is_left_where_the_texts_differ(input: ConfirmLearnInput, session: u128)
    ensures
        input.session_id is None || input.before_text is None || input.after_text is None
            ==> audited(input) is None,
        text::opt(input.before_text) == text::opt(input.after_text) ==> audited(input) is None,
        input.session_id matches Some(id) ==> (outside::uuid_parsed(id@) == Ok::<u128, Seq<char>>(
            session,
        ) && input.before_text is Some && input.after_text is Some && text::opt(input.before_text)
            != text::opt(input.after_text) ==> audited(input) == Some(session)),
{
}

/// What is added to the dictionary is trimmed, and nothing blank is added.
pub proof fn added_entries_are_trimmed(term: AddTermInput, pair: AddReplacementInput)
    ensures
        text::trim(term.term@).len() > 0 ==> added_term(term) == Ok::<EntryModel, Seq<char>>(
            EntryModel::Term(text::trim(term.term@)),
        ),
        text::trim(term.term@).len() == 0 ==> added_term(term) == Err::<EntryModel, Seq<char>>(
            "term cannot be empty"@,
        ),
        text::trim(pair.from_text@).len() > 0 && text::trim(pair.to_text@).len() > 0
            ==> added_replacement(pair) == Ok::<EntryModel, Seq<char>>(
            EntryModel::Replacement(text::trim(pair.from_text@), text::trim(pair.to_text@)),
        ),
        text::trim(pair.from_text@).len() == 0 || text::trim(pair.to_text@).len() == 0
            ==> added_replacement(pair) == Err::<EntryModel, Seq<char>>(
            "from_text and to_text required"@,
        ),
{
}

/// An entry is seen as it is.
pub proof fn entry_is_seen_as_it_is(entry: EntryText)
    ensures
        entry matches EntryText::Term(term) ==> entry@ == EntryModel::Term(term@),
        entry matches EntryText::Replacement(from, to) ==> entry@ == EntryModel::Replacement(
            from@,
            to@,
        ),
{
}

} // verus!
