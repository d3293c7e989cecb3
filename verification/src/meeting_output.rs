//! What the headless commands print: speakers, translations, bilingual blocks
//! and the report of a compaction.
use crate::headless;
use crate::order;
use crate::text;
use vstd::prelude::*;
use vstd::string::*;

verus! {

// ---------------------------------------------------------------------------
// Speakers
// ---------------------------------------------------------------------------

/// The speakers of a transcript, in the order in which they first speak.
pub open spec fn speakers_of(spoken: Seq<Option<u128>>) -> Seq<u128>
    decreases spoken.len(),
{
    if spoken.len() == 0 {
        Seq::empty()
    } else {
        let before = speakers_of(spoken.drop_last());
        match spoken.last() {
            Some(id) => if before.contains(id) {
                before
            } else {
                before.push(id)
            },
            None => before,
        }
    }
}

/// The label of the speaker who is the `i`th to speak.
pub open spec fn speaker_label(i: int) -> Seq<char> {
    "S"@ + text::decimal((i + 1) as nat)
}

/// `labels` are the labels of `speakers`.
pub open spec fn are_labels(labels: Seq<(u128, String)>, speakers: Seq<u128>) -> bool {
    &&& labels.len() == speakers.len()
    &&& forall|i: int|
        0 <= i < labels.len() ==> (#[trigger] labels[i]).0 == speakers[i] && labels[i].1@
            == speaker_label(i)
}

/// The label of a speaker; of two entries for one speaker, the later.
pub open spec fn label_of(labels: Seq<(u128, String)>, id: u128) -> Option<Seq<char>>
    decreases labels.len(),
{
    if labels.len() == 0 {
        None
    } else if labels.last().0 == id {
        Some(labels.last().1@)
    } else {
        label_of(labels.drop_last(), id)
    }
}

/// What stands before the words of a speaker.
pub open spec fn shown_speaker(labels: Seq<(u128, String)>, speaker: Option<u128>) -> Seq<char> {
    match speaker {
        Some(id) => match label_of(labels, id) {
            Some(label) => label,
            None => "?"@,
        },
        None => "?"@,
    }
}

proof fn lemma_speakers_distinct(spoken: Seq<Option<u128>>)
    ensures
        speakers_of(spoken).no_duplicates(),
        speakers_of(spoken).len() <= spoken.len(),
        forall|i: int|
            0 <= i < spoken.len() && (#[trigger] spoken[i]) is Some ==> speakers_of(
                spoken,
            ).contains(spoken[i]->0),
    decreases spoken.len(),
{
    if spoken.len() > 0 {
        let head = spoken.drop_last();
        let before = speakers_of(head);
        let all = speakers_of(spoken);
        lemma_speakers_distinct(head);
        assert forall|i: int| 0 <= i < spoken.len() && (#[trigger] spoken[i])
            is Some implies all.contains(spoken[i]->0) by {
            if i < head.len() {
                assert(head[i] == spoken[i]);
                assert(before.contains(spoken[i]->0));
                assert(all[before.index_of(spoken[i]->0)] == spoken[i]->0);
            } else if !before.contains(spoken[i]->0) {
                assert(all[before.len() as int] == spoken[i]->0);
            }
        }
    }
}

proof fn lemma_label_at(labels: Seq<(u128, String)>, speakers: Seq<u128>, i: int)
    requires
        are_labels(labels, speakers),
        speakers.no_duplicates(),
        0 <= i < speakers.len(),
    ensures
        label_of(labels, speakers[i]) == Some(speaker_label(i)),
    decreases labels.len(),
{
    assert(labels[labels.len() - 1].0 == speakers[labels.len() - 1]);
    if i < labels.len() - 1 {
        lemma_label_at(labels.drop_last(), speakers.drop_last(), i);
    }
}

proof fn lemma_no_label(labels: Seq<(u128, String)>, speakers: Seq<u128>, id: u128)
    requires
        are_labels(labels, speakers),
    ensures
        label_of(labels, id) is Some <==> speakers.contains(id),
    decreases labels.len(),
{
    if labels.len() > 0 {
        let last = labels.len() - 1;
        assert(labels[last].0 == speakers[last]);
        lemma_no_label(labels.drop_last(), speakers.drop_last(), id);
        if speakers.contains(id) && speakers.index_of(id) < last {
            assert(speakers.drop_last()[speakers.index_of(id)] == id);
        }
        if speakers.drop_last().contains(id) {
            assert(speakers[speakers.drop_last().index_of(id)] == id);
        }
    }
}

/// The label of a speaker, where there is one.
pub fn find_label(labels: &Vec<(u128, String)>, id: u128) -> (r: Option<String>)
    ensures
        text::opt(r) == label_of(labels@, id),
{
    let mut n: usize = labels.len();
    assert(labels@.take(n as int) =~= labels@);
    while n > 0
        invariant
            n <= labels@.len(),
            label_of(labels@, id) == label_of(labels@.take(n as int), id),
        decreases n,
    {
        assert(labels@.take(n as int).last() == labels@[n - 1]);
        assert(labels@.take(n as int).drop_last() =~= labels@.take(n - 1));
        if labels[n - 1].0 == id {
            return Some(labels[n - 1].1.as_str().to_owned());
        }
        n = n - 1;
    }
    None
}

/// The labels of the speakers: `S1` for the first to speak, and so on.
pub fn speaker_labels(spoken: &Vec<Option<u128>>) -> (r: Vec<(u128, String)>)
    ensures
        are_labels(r@, speakers_of(spoken@)),
{
    let mut labels: Vec<(u128, String)> = Vec::new();
    let mut i: usize = 0;
    while i < spoken.len()
        invariant
            i <= spoken@.len(),
            are_labels(labels@, speakers_of(spoken@.take(i as int))),
        decreases spoken@.len() - i,
    {
        let ghost before = spoken@.take(i as int);
        proof {
            lemma_speakers_distinct(before);
            assert(spoken@.take(i + 1).drop_last() =~= before);
            assert(spoken@.take(i + 1).last() == spoken@[i as int]);
        }
        if let Some(id) = spoken[i] {
            proof {
                lemma_no_label(labels@, speakers_of(before), id);
            }
            let known: bool = find_label(&labels, id).is_some();
            if !known {
                let count: usize = labels.len();
                let label: String = text::glue("S", text::decimal_text(count as u64 + 1).as_str());
                labels.push((id, label));
            }
        }
        i = i + 1;
    }
    assert(spoken@.take(i as int) =~= spoken@);
    labels
}

/// What stands before the words of a speaker.
pub fn speaker_name(labels: &Vec<(u128, String)>, speaker: Option<u128>) -> (r: String)
    ensures
        r@ == shown_speaker(labels@, speaker),
{
    match speaker {
        Some(id) => match find_label(labels, id) {
            Some(label) => label,
            None => "?".to_owned(),
        },
        None => "?".to_owned(),
    }
}

/// Labels tell speakers apart: every speaker of a transcript has a label, and two
/// have the same one only where they are the same.
pub proof fn labels_tell_speakers_apart(
    spoken: Seq<Option<u128>>,
    labels: Seq<(u128, String)>,
    i: int,
    j: int,
)
    requires
        are_labels(labels, speakers_of(spoken)),
        0 <= i < spoken.len(),
        0 <= j < spoken.len(),
        spoken[i] is Some,
        spoken[j] is Some,
    ensures
        label_of(labels, spoken[i]->0) is Some,
        (shown_speaker(labels, spoken[i]) == shown_speaker(labels, spoken[j])) <==> (spoken[i]
            == spoken[j]),
{
    let speakers = speakers_of(spoken);
    lemma_speakers_distinct(spoken);
    let a = speakers.index_of(spoken[i]->0);
    let b = speakers.index_of(spoken[j]->0);
    lemma_label_at(labels, speakers, a);
    lemma_label_at(labels, speakers, b);
    let x = text::decimal((a + 1) as nat);
    let y = text::decimal((b + 1) as nat);
    if speaker_label(a) == speaker_label(b) {
        reveal_strlit("S");
        assert(x =~= speaker_label(a).skip(1));
        assert(y =~= speaker_label(b).skip(1));
        text::lemma_decimal_differs((a + 1) as nat, (b + 1) as nat);
    }
}

// ---------------------------------------------------------------------------
// Translations
// ---------------------------------------------------------------------------

/// The translations of one segment: languages in order, each with its text.
#[derive(Debug, Clone, PartialEq, Eq)]
pub struct Translations {
    pub entries: Vec<(String, String)>,
}

/// Languages with their texts.
pub open spec fn entries_of(entries: Seq<(String, String)>) -> Seq<(Seq<char>, Seq<char>)> {
    entries.map_values(|e: (String, String)| (e.0@, e.1@))
}

impl View for Translations {
    type V = Seq<(Seq<char>, Seq<char>)>;

    open spec fn view(&self) -> Seq<(Seq<char>, Seq<char>)> {
        entries_of(self.entries@)
    }
}

/// Each language comes before the ones behind it.
pub open spec fn in_order(entries: Seq<(Seq<char>, Seq<char>)>) -> bool {
    forall|i: int, j: int|
        0 <= i < j < entries.len() ==> order::comes_before(
            (#[trigger] entries[i]).0,
            (#[trigger] entries[j]).0,
        )
}

/// With the text of a language, at its place or in place of the one before.
pub open spec fn with_translation(
    entries: Seq<(Seq<char>, Seq<char>)>,
    lang: Seq<char>,
    text: Seq<char>,
) -> Seq<(Seq<char>, Seq<char>)>
    decreases entries.len(),
{
    if entries.len() == 0 {
        seq![(lang, text)]
    } else if entries.last().0 == lang {
        entries.drop_last().push((lang, text))
    } else if order::comes_before(entries.last().0, lang) {
        entries.push((lang, text))
    } else {
        with_translation(entries.drop_last(), lang, text).push(entries.last())
    }
}

/// The text of a language.
pub open spec fn translation_of(entries: Seq<(Seq<char>, Seq<char>)>, lang: Seq<char>) -> Option<
    Seq<char>,
>
    decreases entries.len(),
{
    if entries.len() == 0 {
        None
    } else if entries.last().0 == lang {
        Some(entries.last().1)
    } else {
        translation_of(entries.drop_last(), lang)
    }
}

proof fn lemma_with_translation(
    entries: Seq<(Seq<char>, Seq<char>)>,
    lang: Seq<char>,
    text: Seq<char>,
    other: Seq<char>,
)
    requires
        in_order(entries),
    ensures
        in_order(with_translation(entries, lang, text)),
        forall|i: int|
            0 <= i < with_translation(entries, lang, text).len() ==> (
            #[trigger] with_translation(entries, lang, text)[i]).0 == lang || exists|j: int|
                0 <= j < entries.len() && (#[trigger] entries[j]).0 == with_translation(
                    entries,
                    lang,
                    text,
                )[i].0,
        translation_of(with_translation(entries, lang, text), lang) == Some(text),
        other != lang ==> translation_of(with_translation(entries, lang, text), other)
            == translation_of(entries, other),
    decreases entries.len(),
{
    let r = with_translation(entries, lang, text);
    if entries.len() == 0 {
        assert(r.drop_last() =~= entries);
    } else {
        let head = entries.drop_last();
        let last = entries.len() - 1;
        lemma_with_translation(head, lang, text, other);
        if entries.last().0 == lang {
            assert(r.drop_last() =~= head);
            assert forall|i: int| 0 <= i < r.len() implies (#[trigger] r[i]).0 == lang || exists|
                j: int,
            | 0 <= j < entries.len() && (#[trigger] entries[j]).0 == r[i].0 by {
                if i < last {
                    assert(entries[i].0 == r[i].0);
                }
            }
            assert forall|i: int, j: int| 0 <= i < j < r.len() implies order::comes_before(
                (#[trigger] r[i]).0,
                (#[trigger] r[j]).0,
            ) by {
                assert(order::comes_before(entries[i].0, entries[j].0));
            }
        } else if order::comes_before(entries.last().0, lang) {
            assert(r.drop_last() =~= entries);
            assert forall|i: int| 0 <= i < r.len() implies (#[trigger] r[i]).0 == lang || exists|
                j: int,
            | 0 <= j < entries.len() && (#[trigger] entries[j]).0 == r[i].0 by {
                if i <= last {
                    assert(entries[i].0 == r[i].0);
                }
            }
            assert forall|i: int, j: int| 0 <= i < j < r.len() implies order::comes_before(
                (#[trigger] r[i]).0,
                (#[trigger] r[j]).0,
            ) by {
                if j <= last {
                    assert(order::comes_before(entries[i].0, entries[j].0));
                } else if i < last {
                    assert(order::comes_before(entries[i].0, entries[last].0));
                    order::lemma_order_transitive(entries[i].0, entries[last].0, lang);
                }
            }
        } else {
            let before = with_translation(head, lang, text);
            order::lemma_order(entries.last().0, lang);
            assert(r.drop_last() =~= before);
            assert forall|i: int| 0 <= i < r.len() implies (#[trigger] r[i]).0 == lang || exists|
                j: int,
            | 0 <= j < entries.len() && (#[trigger] entries[j]).0 == r[i].0 by {
                if i < before.len() {
                    assert(r[i] == before[i]);
                    if before[i].0 != lang {
                        let j = choose|j: int|
                            0 <= j < head.len() && (#[trigger] head[j]).0 == before[i].0;
                        assert(entries[j].0 == r[i].0);
                    }
                } else {
                    assert(entries[last].0 == r[i].0);
                }
            }
            assert forall|i: int, j: int| 0 <= i < j < r.len() implies order::comes_before(
                (#[trigger] r[i]).0,
                (#[trigger] r[j]).0,
            ) by {
                if j < before.len() {
                    assert(order::comes_before(before[i].0, before[j].0));
                } else if before[i].0 != lang {
                    let k = choose|k: int|
                        0 <= k < head.len() && (#[trigger] head[k]).0 == before[i].0;
                    assert(order::comes_before(entries[k].0, entries[last].0));
                }
            }
        }
    }
}

/// A translation is found again, and changes no other one.
pub proof fn translation_is_found_again(
    entries: Seq<(Seq<char>, Seq<char>)>,
    lang: Seq<char>,
    text: Seq<char>,
    other: Seq<char>,
)
    requires
        in_order(entries),
    ensures
        in_order(with_translation(entries, lang, text)),
        translation_of(with_translation(entries, lang, text), lang) == Some(text),
        other != lang ==> translation_of(with_translation(entries, lang, text), other)
            == translation_of(entries, other),
{
    lemma_with_translation(entries, lang, text, other);
}

impl Translations {
    /// No translation.
    pub fn new() -> (r: Self)
        ensures
            r@ == Seq::<(Seq<char>, Seq<char>)>::empty(),
            in_order(r@),
    {
        let r: Translations = Translations { entries: Vec::new() };
        assert(r@ =~= Seq::empty());
        r
    }

    /// Puts the text of a language at its place.
    pub fn insert(&mut self, lang: &str, text: &str)
        requires
            in_order(old(self)@),
        ensures
            final(self)@ == with_translation(old(self)@, lang@, text@),
            in_order(final(self)@),
    {
        let ghost all = self@;
        proof {
            translation_is_found_again(all, lang@, text@, lang@);
        }
        let mut at: usize = self.entries.len();
        assert(all.take(at as int) =~= all);
        assert(all.skip(at as int) =~= Seq::empty());
        while at > 0 && !order::is_before(self.entries[at - 1].0.as_str(), lang)
            invariant
                at <= self.entries@.len(),
                all == self@,
                all == old(self)@,
                in_order(with_translation(all, lang@, text@)),
                with_translation(all, lang@, text@) == with_translation(
                    all.take(at as int),
                    lang@,
                    text@,
                ) + all.skip(at as int),
            decreases at,
        {
            let ghost head = all.take(at as int);
            proof {
                assert(head.drop_last() =~= all.take(at - 1));
                assert(head.last() == all[at - 1]);
                assert(self.entries@[at - 1].0@ == all[at - 1].0);
            }
            if text::same(self.entries[at - 1].0.as_str(), lang) {
                let ghost goal = with_translation(all, lang@, text@);
                self.entries.set(at - 1, (lang.to_owned(), text.to_owned()));
                assert(self@ =~= goal);
                return;
            }
            assert(all.skip(at - 1) =~= seq![head.last()] + all.skip(at as int));
            at = at - 1;
        }
        let ghost head = all.take(at as int);
        let ghost goal = with_translation(all, lang@, text@);
        proof {
            if at > 0 {
                assert(head.last() == all[at - 1]);
                assert(self.entries@[at - 1].0@ == all[at - 1].0);
                order::lemma_order(head.last().0, lang@);
            } else {
                assert(head =~= Seq::empty());
            }
        }
        self.entries.insert(at, (lang.to_owned(), text.to_owned()));
        assert(self@ =~= goal);
    }
}

/// A segment to translate into a language.
#[derive(Debug, Clone, PartialEq, Eq)]
pub struct TranslationRequest {
    pub segment: usize,
    pub lang: String,
    /// The words of the segment, without white space around them.
    pub source: String,
    /// The language's English name.
    pub target: String,
}

/// A request as a value.
#[verifier::ext_equal]
pub struct Request {
    pub segment: int,
    pub lang: Seq<char>,
    pub source: Seq<char>,
    pub target: Seq<char>,
}

impl View for TranslationRequest {
    type V = Request;

    open spec fn view(&self) -> Request {
        Request {
            segment: self.segment as int,
            lang: self.lang@,
            source: self.source@,
            target: self.target@,
        }
    }
}

pub open spec fn requests(v: Seq<TranslationRequest>) -> Seq<Request> {
    v.map_values(|r: TranslationRequest| r@)
}

/// The requests for one segment: one for every language, none for a blank one.
pub open spec fn segment_requests(segment: int, text: Seq<char>, langs: Seq<Seq<char>>) -> Seq<
    Request,
> {
    if text::trim(text).len() == 0 {
        Seq::empty()
    } else {
        langs.map_values(
            |lang: Seq<char>|
                Request {
                    segment,
                    lang,
                    source: text::trim(text),
                    target: headless::lang_name(lang),
                },
        )
    }
}

/// The requests for a transcript, segment by segment.
pub open spec fn translation_plan(segments: Seq<Seq<char>>, langs: Seq<Seq<char>>) -> Seq<Request>
    decreases segments.len(),
{
    if segments.len() == 0 {
        Seq::empty()
    } else {
        translation_plan(segments.drop_last(), langs) + segment_requests(
            segments.len() - 1,
            segments.last(),
            langs,
        )
    }
}

/// What is to be translated of a transcript, in order.
pub fn plan_translations(segments: &Vec<String>, langs: &Vec<String>) -> (r: Vec<
    TranslationRequest,
>)
    ensures
        requests(r@) == translation_plan(text::texts(segments@), text::texts(langs@)),
{
    let ghost all = text::texts(segments@);
    let ghost names = text::texts(langs@);
    let mut plan: Vec<TranslationRequest> = Vec::new();
    let mut i: usize = 0;
    assert(requests(plan@) =~= translation_plan(all.take(0), names));
    while i < segments.len()
        invariant
            i <= segments@.len(),
            all == text::texts(segments@),
            names == text::texts(langs@),
            requests(plan@) == translation_plan(all.take(i as int), names),
        decreases segments@.len() - i,
    {
        let ghost before = requests(plan@);
        let source: String = text::trimmed(segments[i].as_str());
        proof {
            assert(all.take(i + 1).drop_last() =~= all.take(i as int));
            assert(all.take(i + 1).last() == segments@[i as int]@);
        }
        let ghost added = segment_requests(i as int, segments@[i as int]@, names);
        if !source.as_str().is_empty() {
            let mut j: usize = 0;
            assert(added.take(0) =~= Seq::empty());
            while j < langs.len()
                invariant
                    j <= langs@.len(),
                    i < segments@.len(),
                    names == text::texts(langs@),
                    source@ == text::trim(segments@[i as int]@),
                    source@.len() > 0,
                    added == segment_requests(i as int, segments@[i as int]@, names),
                    requests(plan@) == before + added.take(j as int),
                decreases langs@.len() - j,
            {
                let ghost had = requests(plan@);
                let lang: &str = langs[j].as_str();
                assert(names[j as int] == lang@);
                plan.push(
                    TranslationRequest {
                        segment: i,
                        lang: lang.to_owned(),
                        source: source.as_str().to_owned(),
                        target: headless::display_lang_name(lang),
                    },
                );
                assert(requests(plan@) =~= had.push(added[j as int]));
                assert(added.take(j + 1) =~= added.take(j as int).push(added[j as int]));
                j = j + 1;
            }
            assert(added.take(j as int) =~= added);
        } else {
            assert(added =~= Seq::empty());
            assert(before + added =~= before);
        }
        i = i + 1;
    }
    assert(all.take(i as int) =~= all);
    plan
}

/// Keeps what came of a request. A model that fell back to the source text gave
/// no translation, and its text is not kept.
pub fn keep_translation(
    kept: &mut Vec<Translations>,
    request: &TranslationRequest,
    model_applied: bool,
    text: &str,
)
    requires
        forall|i: int| 0 <= i < old(kept)@.len() ==> in_order((#[trigger] old(kept)@[i])@),
    ensures
        final(kept)@.len() == old(kept)@.len(),
        forall|i: int| 0 <= i < final(kept)@.len() ==> in_order((#[trigger] final(kept)@[i])@),
        forall|i: int|
            0 <= i < old(kept)@.len() ==> (#[trigger] final(kept)@[i])@ == if model_applied && i
                == request.segment {
                with_translation(old(kept)@[i]@, request.lang@, text::trim(text@))
            } else {
                old(kept)@[i]@
            },
{
    if model_applied && request.segment < kept.len() {
        let trimmed: String = text::trimmed(text);
        let mut entry: Translations = Translations { entries: Vec::new() };
        let at: usize = request.segment;
        std::mem::swap(&mut entry.entries, &mut kept[at].entries);
        entry.insert(request.lang.as_str(), trimmed.as_str());
        kept.set(at, entry);
    }
}

// ---------------------------------------------------------------------------
// Lines
// ---------------------------------------------------------------------------

/// One segment in a plain transcript; `span` is its time.
pub fn segment_line(span: &str, who: &str, words: &str) -> (r: String)
    ensures
        r@ == span@ + " "@ + who@ + ": "@ + words@,
{
    let head: String = text::glue3(span, " ", who);
    text::glue3(head.as_str(), ": ", words)
}

/// What follows a plain transcript.
pub fn summary_line(segments: usize, speakers: usize) -> (r: String)
    ensures
        r@ == "("@ + text::decimal(segments as nat) + " segments, "@ + text::decimal(
            speakers as nat,
        ) + " speaker"@ + if speakers == 1 {
            ""@
        } else {
            "s"@
        } + ")"@,
{
    let head: String = text::glue3("(", text::decimal_text(segments as u64).as_str(), " segments, ");
    let count: String = text::glue3(
        head.as_str(),
        text::decimal_text(speakers as u64).as_str(),
        " speaker",
    );
    text::glue3(
        count.as_str(),
        if speakers == 1 {
            ""
        } else {
            "s"
        },
        ")",
    )
}

/// A line that belongs to a language.
pub open spec fn tagged(tag: Seq<char>, words: Seq<char>) -> Seq<char> {
    "  "@ + tag + ": "@ + words
}

/// The lines of a segment with its translations: who speaks, the source, every
/// translation under its tag, and an empty line.
pub open spec fn block_lines(
    head: Seq<char>,
    source_tag: Seq<char>,
    words: Seq<char>,
    translations: Seq<(Seq<char>, Seq<char>)>,
) -> Seq<Seq<char>> {
    seq![head, tagged(source_tag, words)] + translations.map_values(
        |t: (Seq<char>, Seq<char>)| tagged(text::upper(t.0), t.1),
    ) + seq![""@]
}

fn tagged_line(tag: &str, words: &str) -> (r: String)
    ensures
        r@ == tagged(tag@, words@),
{
    let head: String = text::glue3("  ", tag, ": ");
    text::glue(head.as_str(), words)
}

/// The lines of a segment with its translations.
pub fn bilingual_block(
    span: &str,
    who: &str,
    source_tag: &str,
    words: &str,
    translations: &Translations,
) -> (r: Vec<String>)
    ensures
        text::texts(r@) == block_lines(
            span@ + " "@ + who@ + ":"@,
            source_tag@,
            words@,
            translations@,
        ),
{
    let mut lines: Vec<String> = Vec::new();
    let head: String = text::glue3(span, " ", who);
    lines.push(text::glue(head.as_str(), ":"));
    lines.push(tagged_line(source_tag, words));
    let ghost first = seq![span@ + " "@ + who@ + ":"@, tagged(source_tag@, words@)];
    let ghost tags = translations@.map_values(
        |t: (Seq<char>, Seq<char>)| tagged(text::upper(t.0), t.1),
    );
    let mut i: usize = 0;
    assert(text::texts(lines@) =~= first + tags.take(0));
    while i < translations.entries.len()
        invariant
            i <= translations.entries@.len(),
            tags == translations@.map_values(
                |t: (Seq<char>, Seq<char>)| tagged(text::upper(t.0), t.1),
            ),
            text::texts(lines@) == first + tags.take(i as int),
        decreases translations.entries@.len() - i,
    {
        let ghost had = text::texts(lines@);
        let tag: String = text::uppered(translations.entries[i].0.as_str());
        lines.push(tagged_line(tag.as_str(), translations.entries[i].1.as_str()));
        assert(translations@[i as int] == (
            translations.entries@[i as int].0@,
            translations.entries@[i as int].1@,
        ));
        assert(text::texts(lines@) =~= had.push(tags[i as int]));
        assert(tags.take(i + 1) =~= tags.take(i as int).push(tags[i as int]));
        i = i + 1;
    }
    assert(tags.take(i as int) =~= tags);
    let ghost had = text::texts(lines@);
    lines.push("".to_owned());
    assert(text::texts(lines@) =~= had.push(""@));
    lines
}

// ---------------------------------------------------------------------------
// The report of a compaction
// ---------------------------------------------------------------------------

/// What became of a track.
#[derive(Debug, Clone, PartialEq, Eq)]
pub enum CompactStatus {
    Converted { before_bytes: u64, after_bytes: u64 },
    Skipped(String),
    Failed(String),
}

/// A track of a recording and what became of it.
#[derive(Debug, Clone, PartialEq, Eq)]
pub struct CompactTrack {
    pub kind: String,
    pub status: CompactStatus,
}

pub open spec fn status_text(status: CompactStatus, dry_run: bool) -> Seq<char> {
    match status {
        CompactStatus::Converted { before_bytes, after_bytes } => (if dry_run {
            "would convert"@
        } else {
            "converted"@
        }) + " "@ + headless::size_text(before_bytes as nat) + " → "@ + headless::size_text(
            after_bytes as nat,
        ),
        CompactStatus::Skipped(reason) => "skipped ("@ + reason@ + ")"@,
        CompactStatus::Failed(reason) => "FAILED ("@ + reason@ + ")"@,
    }
}

fn status_words(status: &CompactStatus, dry_run: bool) -> (r: String)
    ensures
        r@ == status_text(*status, dry_run),
{
    match status {
        CompactStatus::Converted { before_bytes, after_bytes } => {
            let verb: &str = if dry_run {
                "would convert"
            } else {
                "converted"
            };
            let before: String = headless::format_bytes(*before_bytes);
            let after: String = headless::format_bytes(*after_bytes);
            let head: String = text::glue3(verb, " ", before.as_str());
            text::glue3(head.as_str(), " → ", after.as_str())
        },
        CompactStatus::Skipped(reason) => text::glue3("skipped (", reason.as_str(), ")"),
        CompactStatus::Failed(reason) => text::glue3("FAILED (", reason.as_str(), ")"),
    }
}

/// The title of a meeting as a report shows it.
pub open spec fn shown_title(title: Option<Seq<char>>) -> Seq<char> {
    match title {
        Some(title) => title,
        None => "(untitled)"@,
    }
}

/// The line of one track.
pub open spec fn track_line(
    id: Seq<char>,
    title: Seq<char>,
    track: CompactTrack,
    dry_run: bool,
) -> Seq<char> {
    id + " "@ + title + " ["@ + track.kind@ + "]: "@ + status_text(track.status, dry_run)
}

/// The lines of one meeting.
pub open spec fn report_lines(
    id: Seq<char>,
    title: Seq<char>,
    tracks: Seq<CompactTrack>,
    dry_run: bool,
) -> Seq<Seq<char>> {
    if tracks.len() == 0 {
        seq![id + " "@ + title + ": no audio tracks"@]
    } else {
        tracks.map_values(|track: CompactTrack| track_line(id, title, track, dry_run))
    }
}

/// What a compaction reports of one meeting.
pub fn compact_report(
    id: &str,
    title: Option<String>,
    tracks: &Vec<CompactTrack>,
    dry_run: bool,
) -> (r: Vec<String>)
    ensures
        text::texts(r@) == report_lines(id@, shown_title(text::opt(title)), tracks@, dry_run),
{
    let title: String = match title {
        Some(title) => title,
        None => "(untitled)".to_owned(),
    };
    let head: String = text::glue3(id, " ", title.as_str());
    let mut lines: Vec<String> = Vec::new();
    if tracks.len() == 0 {
        lines.push(text::glue(head.as_str(), ": no audio tracks"));
        assert(text::texts(lines@) =~= report_lines(id@, title@, tracks@, dry_run));
        return lines;
    }
    let ghost all = report_lines(id@, title@, tracks@, dry_run);
    let mut i: usize = 0;
    assert(text::texts(lines@) =~= all.take(0));
    while i < tracks.len()
        invariant
            i <= tracks@.len(),
            tracks@.len() > 0,
            head@ == id@ + " "@ + title@,
            all == report_lines(id@, title@, tracks@, dry_run),
            text::texts(lines@) == all.take(i as int),
        decreases tracks@.len() - i,
    {
        let ghost had = text::texts(lines@);
        let outcome: String = status_words(&tracks[i].status, dry_run);
        let track: String = text::glue3(head.as_str(), " [", tracks[i].kind.as_str());
        lines.push(text::glue3(track.as_str(), "]: ", outcome.as_str()));
        assert(text::texts(lines@) =~= had.push(all[i as int]));
        assert(all.take(i + 1) =~= had.push(all[i as int]));
        i = i + 1;
    }
    assert(all.take(i as int) =~= all);
    lines
}

/// The sums of a compaction.
#[derive(Debug, Clone, Copy, PartialEq, Eq, Structural)]
pub struct CompactSummary {
    pub converted: u64,
    pub skipped: u64,
    pub failed: u64,
    pub bytes_before: u64,
    pub bytes_after: u64,
    pub savings: u64,
}

impl CompactSummary {
    pub open spec fn shown(self, dry_run: bool) -> Seq<char> {
        (if dry_run {
            "dry-run"@
        } else {
            "done"@
        }) + ": converted "@ + text::decimal(self.converted as nat) + ", skipped "@ + text::decimal(
            self.skipped as nat,
        ) + ", failed "@ + text::decimal(self.failed as nat) + "; "@ + headless::size_text(
            self.bytes_before as nat,
        ) + " → "@ + headless::size_text(self.bytes_after as nat) + " ("@ + headless::size_text(
            self.savings as nat,
        ) + " "@ + (if dry_run {
            "projected savings"@
        } else {
            "reclaimed"@
        }) + ")"@
    }

    /// The last line of a compaction.
    pub fn line(&self, dry_run: bool) -> (r: String)
        ensures
            r@ == self.shown(dry_run),
    {
        let mut line: String = if dry_run {
            "dry-run".to_owned()
        } else {
            "done".to_owned()
        };
        line.append(": converted ");
        line.append(text::decimal_text(self.converted).as_str());
        line.append(", skipped ");
        line.append(text::decimal_text(self.skipped).as_str());
        line.append(", failed ");
        line.append(text::decimal_text(self.failed).as_str());
        line.append("; ");
        line.append(headless::format_bytes(self.bytes_before).as_str());
        line.append(" → ");
        line.append(headless::format_bytes(self.bytes_after).as_str());
        line.append(" (");
        line.append(headless::format_bytes(self.savings).as_str());
        line.append(" ");
        line.append(
            if dry_run {
                "projected savings"
            } else {
                "reclaimed"
            },
        );
        line.append(")");
        line
    }

    /// The exit code of a compaction: one where a track failed.
    pub fn exit_code(&self) -> (r: i32)
        ensures
            r == if self.failed > 0 {
                1i32
            } else {
                0i32
            },
    {
        if self.failed > 0 {
            1
        } else {
            0
        }
    }
}

// ---------------------------------------------------------------------------
// The exported transcript
// ---------------------------------------------------------------------------

/// What an exported transcript says of a segment, beside its times and its words.
#[derive(Debug, Clone, PartialEq, Eq)]
pub struct ExportedSegment {
    pub id: String,
    pub speaker: Option<String>,
    pub translations: Vec<(String, String)>,
}

/// What an exported transcript says of a segment: its number, the label of who
/// speaks, where that is known, and every translation under its language.
pub fn export_segment(
    seq: u64,
    speaker: Option<u128>,
    labels: &Vec<(u128, String)>,
    translations: Option<&Translations>,
) -> (r: ExportedSegment)
    ensures
        r.id@ == text::decimal(seq as nat),
        text::opt(r.speaker) == match speaker {
            Some(id) => label_of(labels@, id),
            None => None,
        },
        entries_of(r.translations@) == match translations {
            Some(translations) => translations@,
            None => Seq::empty(),
        },
{
    let speaker: Option<String> = match speaker {
        Some(id) => find_label(labels, id),
        None => None,
    };
    let mut kept: Vec<(String, String)> = Vec::new();
    assert(entries_of(kept@) =~= Seq::empty());
    if let Some(translations) = translations {
        let ghost all = translations@;
        let mut i: usize = 0;
        assert(all.take(0) =~= Seq::empty());
        while i < translations.entries.len()
            invariant
                i <= translations.entries@.len(),
                all == entries_of(translations.entries@),
                entries_of(kept@) == all.take(i as int),
            decreases translations.entries@.len() - i,
        {
            let ghost had = entries_of(kept@);
            let entry: &(String, String) = &translations.entries[i];
            kept.push((entry.0.as_str().to_owned(), entry.1.as_str().to_owned()));
            assert(entries_of(kept@) =~= had.push(all[i as int]));
            assert(all.take(i + 1) =~= had.push(all[i as int]));
            i = i + 1;
        }
        assert(all.take(i as int) =~= all);
    }
    ExportedSegment { id: text::decimal_text(seq), speaker, translations: kept }
}

// ---------------------------------------------------------------------------
// The table of voiceprints
// ---------------------------------------------------------------------------

/// `s` with spaces behind it, up to `width`.
pub open spec fn padded(s: Seq<char>, width: nat) -> Seq<char>
    decreases width - s.len(),
{
    if s.len() >= width {
        s
    } else {
        padded(s.push(' '), width)
    }
}

fn pad(s: &str, width: usize) -> (r: String)
    ensures
        r@ == padded(s@, width as nat),
{
    let mut r: String = s.to_owned();
    let mut n: usize = text::to_chars(s).len();
    while n < width
        invariant
            n == r@.len(),
            padded(r@, width as nat) == padded(s@, width as nat),
        decreases width - n,
    {
        r.push(' ');
        n = n + 1;
    }
    r
}

/// The head of the table.
pub fn voiceprint_head() -> (r: String)
    ensures
        r@ == "label  current           best-match (score)   would-auto-tag"@,
{
    "label  current           best-match (score)   would-auto-tag".to_owned()
}

/// Who a voice was taken for, with how well it fits as it is written.
#[derive(Debug, Clone, PartialEq, Eq)]
pub struct VoiceMatch {
    pub name: String,
    pub score: String,
}

pub open spec fn match_text(found: Option<VoiceMatch>, missing: Seq<char>) -> Seq<char> {
    match found {
        Some(found) => found.name@ + " ("@ + found.score@ + ")"@,
        None => missing,
    }
}

fn written_match(found: &Option<VoiceMatch>, missing: &str) -> (r: String)
    ensures
        r@ == match_text(*found, missing@),
{
    match found {
        Some(found) => {
            let head: String = text::glue3(found.name.as_str(), " (", found.score.as_str());
            text::glue(head.as_str(), ")")
        },
        None => missing.to_owned(),
    }
}

/// What is known of the voice of a speaker.
#[derive(Debug, Clone, PartialEq, Eq)]
pub enum Voice {
    /// There is no recording of it.
    Missing,
    /// Who fits best, and who it would be taken for.
    Known { best: Option<VoiceMatch>, auto: Option<VoiceMatch> },
}

/// The line of a speaker in the table.
pub open spec fn voiceprint_line(label: Seq<char>, name: Option<Seq<char>>, voice: Voice) -> Seq<
    char,
> {
    let head = padded(label, 6) + " "@ + padded(
        match name {
            Some(name) => name,
            None => "-"@,
        },
        16,
    ) + " "@;
    match voice {
        Voice::Missing => head + "(no centroid)"@,
        Voice::Known { best, auto } => head + padded(match_text(best, "— (library empty)"@), 20)
            + " "@ + match_text(auto, "—"@),
    }
}

/// The line of a speaker in the table.
pub fn voiceprint_row(label: &str, name: Option<&String>, voice: &Voice) -> (r: String)
    ensures
        r@ == voiceprint_line(label@, text::seen(name), *voice),
{
    let name: String = match name {
        Some(name) => pad(name.as_str(), 16),
        None => pad("-", 16),
    };
    let head: String = text::glue3(pad(label, 6).as_str(), " ", name.as_str());
    let head: String = text::glue(head.as_str(), " ");
    match voice {
        Voice::Missing => text::glue(head.as_str(), "(no centroid)"),
        Voice::Known { best, auto } => {
            let best: String = pad(written_match(best, "— (library empty)").as_str(), 20);
            let head: String = text::glue3(head.as_str(), best.as_str(), " ");
            text::glue(head.as_str(), written_match(auto, "—").as_str())
        },
    }
}

// ---------------------------------------------------------------------------
// Laws of output
// ---------------------------------------------------------------------------

/// A speaker who speaks for the first time comes behind those who spoke before; one who
/// spoke before, and silence, change nothing.
pub proof fn speakers_come_as_they_speak(spoken: Seq<Option<u128>>, id: u128)
    ensures
        speakers_of(Seq::empty()).len() == 0,
        speakers_of(spoken.push(None)) == speakers_of(spoken),
        speakers_of(spoken).contains(id) ==> speakers_of(spoken.push(Some(id))) == speakers_of(
            spoken,
        ),
        !speakers_of(spoken).contains(id) ==> speakers_of(spoken.push(Some(id))) == speakers_of(
            spoken,
        ).push(id),
{
    assert(spoken.push(None).drop_last() =~= spoken);
    assert(spoken.push(Some(id)).drop_last() =~= spoken);
}

/// Speakers are numbered from one on, and one without a label is shown by a question mark.
pub proof fn speakers_are_numbered(labels: Seq<(u128, String)>, id: u128, i: int)
    requires
        i >= 0,
    ensures
        speaker_label(0) == "S1"@,
        speaker_label(i) == "S"@ + text::decimal((i + 1) as nat),
        shown_speaker(labels, None) == "?"@,
        (forall|k: int| 0 <= k < labels.len() ==> (#[trigger] labels[k]).0 != id) ==> shown_speaker(
            labels,
            Some(id),
        ) == "?"@ && label_of(labels, id) is None,
{
    reveal_strlit("S");
    reveal_strlit("S1");
    assert(text::decimal(1) =~= seq!['1']);
    assert("S"@ + text::decimal(1) =~= "S1"@);
    if forall|k: int| 0 <= k < labels.len() ==> (#[trigger] labels[k]).0 != id {
        lemma_never_labelled(labels, id);
    }
}

proof fn lemma_never_labelled(labels: Seq<(u128, String)>, id: u128)
    requires
        forall|k: int| 0 <= k < labels.len() ==> (#[trigger] labels[k]).0 != id,
    ensures
        label_of(labels, id) is None,
    decreases labels.len(),
{
    if labels.len() > 0 {
        assert(labels[labels.len() - 1].0 != id);
        assert forall|k: int| 0 <= k < labels.drop_last().len() implies (
        #[trigger] labels.drop_last()[k]).0 != id by {
            assert(labels[k].0 != id);
        }
        lemma_never_labelled(labels.drop_last(), id);
    }
}

/// A label is shown for its speaker.
pub proof fn label_is_shown_for_its_speaker(labels: Seq<(u128, String)>, id: u128, label: String)
    ensures
        label_of(labels.push((id, label)), id) == Some(label@),
        shown_speaker(labels.push((id, label)), Some(id)) == label@,
{
}

/// A segment that is not blank is asked for in each language, with its text, trimmed, and
/// the language's name; a blank one is not asked for.
pub proof fn every_language_is_asked_for(
    segments: Seq<Seq<char>>,
    langs: Seq<Seq<char>>,
    segment: Seq<char>,
    i: int,
)
    requires
        0 <= i < langs.len(),
    ensures
        ({
            let before = translation_plan(segments, langs);
            let after = translation_plan(segments.push(segment), langs);
            &&& text::trim(segment).len() == 0 ==> after == before
            &&& text::trim(segment).len() > 0 ==> after.len() == before.len() + langs.len()
            &&& text::trim(segment).len() > 0 ==> after.take(before.len() as int) == before
            &&& text::trim(segment).len() > 0 ==> after[before.len() + i] == (Request {
                segment: segments.len() as int,
                lang: langs[i],
                source: text::trim(segment),
                target: headless::lang_name(langs[i]),
            })
        }),
        translation_plan(Seq::empty(), langs).len() == 0,
{
    assert(segments.push(segment).drop_last() =~= segments);
    let before = translation_plan(segments, langs);
    let after = translation_plan(segments.push(segment), langs);
    if text::trim(segment).len() == 0 {
        assert(after =~= before);
    } else {
        assert(after.take(before.len() as int) =~= before);
    }
}

/// A block tells who speaks, then the source under its tag, then each translation under
/// its language in capitals, and ends with an empty line.
pub proof fn block_tells_its_translations(
    head: Seq<char>,
    source_tag: Seq<char>,
    words: Seq<char>,
    translations: Seq<(Seq<char>, Seq<char>)>,
    i: int,
)
    requires
        0 <= i < translations.len(),
    ensures
        ({
            let lines = block_lines(head, source_tag, words, translations);
            &&& lines.len() == translations.len() + 3
            &&& lines[0] == head
            &&& lines[1] == "  "@ + source_tag + ": "@ + words
            &&& lines[2 + i] == "  "@ + text::upper(translations[i].0) + ": "@ + translations[i].1
            &&& lines.last() == ""@
        }),
        block_lines(head, source_tag, words, Seq::empty()).len() == 3,
        block_lines(head, source_tag, words, Seq::empty())[1] == "  "@ + source_tag + ": "@ + words,
{
}

/// What became of a track is told: what was saved, why it was passed over, or why it
/// failed.
pub proof fn track_tells_what_became_of_it(
    before_bytes: u64,
    after_bytes: u64,
    reason: String,
)
    ensures
        status_text(CompactStatus::Converted { before_bytes, after_bytes }, false) == "converted"@
            + " "@ + headless::size_text(before_bytes as nat) + " → "@ + headless::size_text(
            after_bytes as nat,
        ),
        status_text(CompactStatus::Converted { before_bytes, after_bytes }, true)
            == "would convert"@ + " "@ + headless::size_text(before_bytes as nat) + " → "@
            + headless::size_text(after_bytes as nat),
        status_text(CompactStatus::Skipped(reason), true) == "skipped ("@ + reason@ + ")"@,
        status_text(CompactStatus::Skipped(reason), false) == "skipped ("@ + reason@ + ")"@,
        status_text(CompactStatus::Failed(reason), true) == "FAILED ("@ + reason@ + ")"@,
        status_text(CompactStatus::Failed(reason), false) == "FAILED ("@ + reason@ + ")"@,
{
}

/// A report has a line for each track, in their order, which names the meeting and the
/// track; a meeting without tracks has one line that says so.
pub proof fn report_has_a_line_for_each_track(
    id: Seq<char>,
    title: Seq<char>,
    tracks: Seq<CompactTrack>,
    dry_run: bool,
    i: int,
)
    ensures
        shown_title(Some(title)) == title,
        shown_title(None) == "(untitled)"@,
        report_lines(id, title, Seq::empty(), dry_run) == seq![
            id + " "@ + title + ": no audio tracks"@,
        ],
        0 <= i < tracks.len() ==> report_lines(id, title, tracks, dry_run).len() == tracks.len()
            && report_lines(id, title, tracks, dry_run)[i] == id + " "@ + title + " ["@
            + tracks[i].kind@ + "]: "@ + status_text(tracks[i].status, dry_run),
{
}

/// A text is padded with spaces behind it and kept as it is.
pub proof fn text_is_padded_behind(s: Seq<char>, width: nat, i: int)
    ensures
        s.len() >= width ==> padded(s, width) == s,
        s.len() < width ==> padded(s, width).len() == width,
        padded(s, width).len() >= s.len(),
        padded(s, width).subrange(0, s.len() as int) == s,
        s.len() <= i < width ==> padded(s, width)[i] == ' ',
    decreases width - s.len(),
{
    if s.len() < width {
        let more = s.push(' ');
        text_is_padded_behind(more, width, i);
        let all = padded(s, width);
        assert(all == padded(more, width));
        assert(all.subrange(0, more.len() as int)[s.len() as int] == ' ');
        assert(all.subrange(0, s.len() as int) =~= all.subrange(0, more.len() as int).subrange(
            0,
            s.len() as int,
        ));
        assert(more.subrange(0, s.len() as int) =~= s);
    } else {
        assert(s.subrange(0, s.len() as int) =~= s);
    }
}

/// A speaker's line tells the label, the name where it is known, who fits best and who the
/// voice would be taken for; or that there is no recording.
pub proof fn voice_is_told(
    label: Seq<char>,
    name: Seq<char>,
    best: Option<VoiceMatch>,
    auto: Option<VoiceMatch>,
    found: VoiceMatch,
    missing: Seq<char>,
)
    ensures
        match_text(Some(found), missing) == found.name@ + " ("@ + found.score@ + ")"@,
        match_text(None, missing) == missing,
        voiceprint_line(label, Some(name), Voice::Missing) == padded(label, 6) + " "@ + padded(
            name,
            16,
        ) + " "@ + "(no centroid)"@,
        voiceprint_line(label, None, Voice::Missing) == voiceprint_line(
            label,
            Some("-"@),
            Voice::Missing,
        ),
        voiceprint_line(label, Some(name), Voice::Known { best, auto }) == padded(label, 6) + " "@
            + padded(name, 16) + " "@ + padded(match_text(best, "— (library empty)"@), 20) + " "@
            + match_text(auto, "—"@),
        voiceprint_line(label, None, Voice::Known { best, auto }) == voiceprint_line(
            label,
            Some("-"@),
            Voice::Known { best, auto },
        ),
{
}

/// A summary tells its counts, what the tracks took and take, and what is gained.
pub proof fn summary_tells_its_counts(totals: CompactSummary)
    ensures
        totals.shown(false) == "done"@ + ": converted "@ + text::decimal(totals.converted as nat)
            + ", skipped "@ + text::decimal(totals.skipped as nat) + ", failed "@ + text::decimal(
            totals.failed as nat,
        ) + "; "@ + headless::size_text(totals.bytes_before as nat) + " → "@ + headless::size_text(
            totals.bytes_after as nat,
        ) + " ("@ + headless::size_text(totals.savings as nat) + " "@ + "reclaimed"@ + ")"@,
        totals.shown(true) == "dry-run"@ + ": converted "@ + text::decimal(totals.converted as nat)
            + ", skipped "@ + text::decimal(totals.skipped as nat) + ", failed "@ + text::decimal(
            totals.failed as nat,
        ) + "; "@ + headless::size_text(totals.bytes_before as nat) + " → "@ + headless::size_text(
            totals.bytes_after as nat,
        ) + " ("@ + headless::size_text(totals.savings as nat) + " "@ + "projected savings"@ + ")"@,
{
}

/// Translations and requests are seen as they are.
pub proof fn translations_are_seen_as_they_are(
    entries: Seq<(String, String)>,
    request: TranslationRequest,
    i: int,
)
    ensures
        entries_of(entries).len() == entries.len(),
        0 <= i < entries.len() ==> entries_of(entries)[i] == (entries[i].0@, entries[i].1@),
        request@.segment == request.segment,
        request@.lang == request.lang@,
        request@.source == request.source@,
        request@.target == request.target@,
{
}

} // verus!
