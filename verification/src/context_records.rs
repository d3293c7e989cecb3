//! What is recorded of a context capture: where each part is kept, how it is
//! bound to its origin, and what every pipeline stage was offered of it.
use crate::config::ContextCaptureConfig;
use crate::context_manifest::SourceState;
use crate::order;
use crate::outside;
use crate::paths;
use crate::pipeline;
use crate::pipeline::ContextStageUsage;
use crate::pipeline::PipelineStage;
use crate::pipeline::StageUsage;
use crate::platform::Platform;
use crate::text;
use vstd::prelude::*;
use vstd::string::*;

verus! {

// ---------------------------------------------------------------------------
// Sets of sources
// ---------------------------------------------------------------------------

/// Each text of `s` comes before the ones behind it.
pub open spec fn ascending(s: Seq<Seq<char>>) -> bool {
    forall|i: int, j: int| 0 <= i < j < s.len() ==> order::comes_before(#[trigger] s[i], #[trigger] s[j])
}

/// `list` with `item` at its place, where it is not there yet.
pub open spec fn inserted(list: Seq<Seq<char>>, item: Seq<char>) -> Seq<Seq<char>>
    decreases list.len(),
{
    if list.len() == 0 {
        seq![item]
    } else if list.last() == item {
        list
    } else if order::comes_before(list.last(), item) {
        list.push(item)
    } else {
        inserted(list.drop_last(), item).push(list.last())
    }
}

/// The texts of `sources` in order, each once.
pub open spec fn canonical(sources: Seq<Seq<char>>) -> Seq<Seq<char>>
    decreases sources.len(),
{
    if sources.len() == 0 {
        Seq::empty()
    } else {
        inserted(canonical(sources.drop_last()), sources.last())
    }
}

proof fn lemma_inserted(list: Seq<Seq<char>>, item: Seq<char>)
    requires
        ascending(list),
    ensures
        ascending(inserted(list, item)),
        forall|x: Seq<char>|
            #[trigger] inserted(list, item).contains(x) <==> list.contains(x) || x == item,
    decreases list.len(),
{
    let r = inserted(list, item);
    if list.len() == 0 {
        assert(r[0] == item);
    } else if list.last() == item {
        assert(list[list.len() - 1] == item);
    } else if order::comes_before(list.last(), item) {
        assert forall|i: int, j: int| 0 <= i < j < r.len() implies order::comes_before(
            #[trigger] r[i],
            #[trigger] r[j],
        ) by {
            if j == list.len() && i < list.len() - 1 {
                order::lemma_order_transitive(list[i], list.last(), item);
            }
        }
        assert forall|x: Seq<char>|
            #[trigger] r.contains(x) <==> list.contains(x) || x == item by {
            if list.contains(x) {
                let k = list.index_of(x);
                assert(r[k] == x);
            }
            assert(r[list.len() as int] == item);
        }
    } else {
        let head = list.drop_last();
        lemma_inserted(head, item);
        order::lemma_order(list.last(), item);
        let before = inserted(head, item);
        assert forall|i: int, j: int| 0 <= i < j < r.len() implies order::comes_before(
            #[trigger] r[i],
            #[trigger] r[j],
        ) by {
            if j == before.len() {
                assert(before.contains(r[i]));
                if r[i] != item {
                    assert(head.contains(r[i]));
                    let k = head.index_of(r[i]);
                    assert(list[k] == r[i]);
                    assert(order::comes_before(list[k], list[list.len() - 1]));
                }
            }
        }
        assert forall|x: Seq<char>|
            #[trigger] r.contains(x) <==> list.contains(x) || x == item by {
            if r.contains(x) {
                let k = r.index_of(x);
                if k < before.len() {
                    assert(before.contains(x));
                    if x != item {
                        assert(head.contains(x));
                        assert(list[head.index_of(x)] == x);
                    }
                }
            }
            if list.contains(x) {
                let k = list.index_of(x);
                if k < head.len() {
                    assert(head[k] == x);
                    assert(before.contains(x));
                    assert(r[before.index_of(x)] == x);
                } else {
                    assert(r[before.len() as int] == x);
                }
            }
            if x == item {
                assert(before.contains(x));
                assert(r[before.index_of(x)] == x);
            }
        }
    }
}

/// The canonical sources are in order, and are those that were given.
pub proof fn canonical_is_ascending(sources: Seq<Seq<char>>)
    ensures
        ascending(canonical(sources)),
        forall|x: Seq<char>| #[trigger] canonical(sources).contains(x) <==> sources.contains(x),
    decreases sources.len(),
{
    if sources.len() > 0 {
        let head = sources.drop_last();
        canonical_is_ascending(head);
        lemma_inserted(canonical(head), sources.last());
        assert forall|x: Seq<char>|
            #[trigger] canonical(sources).contains(x) <==> sources.contains(x) by {
            if sources.contains(x) {
                let k = sources.index_of(x);
                if k < head.len() {
                    assert(head[k] == x);
                }
            }
            if head.contains(x) {
                assert(sources[head.index_of(x)] == x);
            }
            assert(sources[sources.len() - 1] == sources.last());
        }
    }
}

proof fn lemma_ascending_unique(a: Seq<Seq<char>>, b: Seq<Seq<char>>)
    requires
        ascending(a),
        ascending(b),
        forall|x: Seq<char>| #[trigger] a.contains(x) <==> b.contains(x),
    ensures
        a == b,
    decreases a.len(),
{
    if a.len() == 0 {
        if b.len() > 0 {
            assert(b.contains(b[0]));
            assert(a.contains(b[0]));
        }
        assert(a =~= b);
    } else if b.len() == 0 {
        assert(a.contains(a[0]));
        assert(b.contains(a[0]));
    } else {
        let x = a.last();
        let y = b.last();
        assert(a[a.len() - 1] == x && b[b.len() - 1] == y);
        assert(a.contains(x) && b.contains(y));
        assert(b.contains(x) && a.contains(y));
        if x != y {
            let i = b.index_of(x);
            let j = a.index_of(y);
            assert(order::comes_before(b[i], b[b.len() - 1]));
            assert(order::comes_before(a[j], a[a.len() - 1]));
            order::lemma_order(x, y);
        }
        let c = a.drop_last();
        let d = b.drop_last();
        assert forall|z: Seq<char>| #[trigger] c.contains(z) <==> d.contains(z) by {
            order::lemma_order(x, x);
            if c.contains(z) {
                let k = c.index_of(z);
                assert(a[k] == z);
                assert(order::comes_before(a[k], a[a.len() - 1]));
                assert(a.contains(z));
                assert(b.contains(z));
                let m = b.index_of(z);
                assert(m != b.len() - 1);
                assert(d[m] == z);
            }
            if d.contains(z) {
                let k = d.index_of(z);
                assert(b[k] == z);
                assert(order::comes_before(b[k], b[b.len() - 1]));
                assert(b.contains(z));
                assert(a.contains(z));
                let m = a.index_of(z);
                assert(m != a.len() - 1);
                assert(c[m] == z);
            }
        }
        lemma_ascending_unique(c, d);
        assert(a =~= c.push(x));
        assert(b =~= d.push(y));
    }
}

/// The key of a set of sources: neither the order in which they are given nor
/// one given twice changes it.
pub proof fn source_key_is_of_the_set(a: Seq<Seq<char>>, b: Seq<Seq<char>>)
    requires
        forall|x: Seq<char>| #[trigger] a.contains(x) <==> b.contains(x),
    ensures
        source_key(a) == source_key(b),
{
    canonical_is_ascending(a);
    canonical_is_ascending(b);
    assert forall|x: Seq<char>| #[trigger] canonical(a).contains(x) <==> canonical(b).contains(
        x,
    ) by {
        assert(canonical(a).contains(x) <==> a.contains(x));
        assert(canonical(b).contains(x) <==> b.contains(x));
    }
    lemma_ascending_unique(canonical(a), canonical(b));
}

fn insert_sorted(list: &mut Vec<String>, item: &String)
    ensures
        text::texts(final(list)@) == inserted(text::texts(old(list)@), item@),
{
    let ghost all = text::texts(list@);
    let mut at: usize = list.len();
    assert(all.take(at as int) =~= all);
    assert(all.skip(at as int) =~= Seq::empty());
    while at > 0
        invariant
            at <= list@.len(),
            all == text::texts(list@),
            all == text::texts(old(list)@),
            inserted(all, item@) == inserted(all.take(at as int), item@) + all.skip(at as int),
        decreases at,
    {
        let ghost head = all.take(at as int);
        assert(head.last() == list@[at - 1]@);
        assert(head.drop_last() =~= all.take(at - 1));
        if text::same(list[at - 1].as_str(), item.as_str()) {
            assert(head + all.skip(at as int) =~= all);
            return;
        }
        if order::is_before(list[at - 1].as_str(), item.as_str()) {
            list.insert(at, item.as_str().to_owned());
            assert(text::texts(list@) =~= head.push(item@) + all.skip(at as int));
            return;
        }
        proof {
            let rest = inserted(all.take(at - 1), item@);
            assert(rest.push(head.last()) + all.skip(at as int) =~= rest + all.skip(at - 1));
        }
        at = at - 1;
    }
    list.insert(0, item.as_str().to_owned());
    assert(all.take(0) =~= Seq::empty());
    assert(text::texts(list@) =~= seq![item@] + all.skip(0));
}

// ---------------------------------------------------------------------------
// Keys and bindings
// ---------------------------------------------------------------------------

/// The key under which a projection of some sources is kept: the first sixteen
/// digits of the digest of their names, in order and each once.
pub open spec fn source_key(sources: Seq<Seq<char>>) -> Seq<char> {
    outside::blake3_digest(
        vstd::utf8::encode_utf8(text::join(canonical(sources), "\u{1f}"@)),
    ).take(16)
}

/// The key under which a projection of `sources` is kept.
pub fn stage_usage_source_key(sources: &Vec<String>) -> (r: String)
    ensures
        r@ == source_key(text::texts(sources@)),
        r@.len() == 16,
{
    let ghost all = text::texts(sources@);
    let mut ordered: Vec<String> = Vec::new();
    let mut i: usize = 0;
    assert(all.take(0) =~= Seq::empty());
    assert(text::texts(ordered@) =~= Seq::empty());
    while i < sources.len()
        invariant
            i <= sources@.len(),
            all == text::texts(sources@),
            text::texts(ordered@) == canonical(all.take(i as int)),
        decreases sources@.len() - i,
    {
        insert_sorted(&mut ordered, &sources[i]);
        proof {
            let next = all.take(i + 1);
            assert(next.drop_last() =~= all.take(i as int));
            assert(next.last() == sources@[i as int]@);
        }
        i = i + 1;
    }
    assert(all.take(i as int) =~= all);
    let joined: String = text::joined(&ordered, "\u{1f}");
    let digest: String = outside::blake3_hex(joined.as_str().as_bytes());
    let chars: Vec<char> = text::to_chars(digest.as_str());
    let key: String = text::from_chars(&chars, 0, 16);
    assert(key@ =~= chars@.take(16));
    key
}

/// The segment of a capture's paths and bindings.
pub open spec fn capture_segment(capture: Option<u128>) -> Seq<char> {
    match capture {
        Some(id) => outside::uuid_display(id),
        None => "unlinked"@,
    }
}

fn segment_of(capture: Option<u128>) -> (r: String)
    ensures
        r@ == capture_segment(capture),
{
    match capture {
        Some(id) => outside::uuid_text(id),
        None => "unlinked".to_owned(),
    }
}

/// The data that binds a stage's projection to its capture, its attempt, its
/// stage and its sources.
pub open spec fn stage_binding(
    capture: Seq<char>,
    attempt: Seq<char>,
    stage: PipelineStage,
    key: Seq<char>,
) -> Seq<char> {
    "lumen-context:v1:"@ + capture + ":attempt:"@ + attempt + ":stage:"@ + stage.name()
        + ":sources:"@ + key
}

fn bind_stage(capture: &str, attempt: &str, stage: PipelineStage, key: &str) -> (r: String)
    ensures
        r@ == stage_binding(capture@, attempt@, stage, key@),
{
    let mut r: String = "lumen-context:v1:".to_owned();
    r.append(capture);
    r.append(":attempt:");
    r.append(attempt);
    r.append(":stage:");
    r.append(pipeline::stage_name(stage));
    r.append(":sources:");
    r.append(key);
    r
}

/// `rest` under `base`, where records are kept: on macOS.
pub open spec fn under(base: Seq<char>, rest: Seq<char>) -> Seq<char> {
    paths::join(base, rest, false)
}

fn placed(base: &str, rest: &str) -> (r: String)
    ensures
        r@ == under(base@, rest@),
{
    paths::joined(base, rest, Platform::MacOs)
}

/// Where a stage's projection is kept.
pub open spec fn stage_path(
    root: Seq<char>,
    capture: Seq<char>,
    attempt: Seq<char>,
    stage: PipelineStage,
    key: Seq<char>,
) -> Seq<char> {
    under(
        under(under(under(root, capture), "usage"@), attempt),
        stage.name() + "-"@ + key + ".sealed.json"@,
    )
}

fn path_of_stage(root: &str, capture: &str, attempt: &str, stage: PipelineStage, key: &str) -> (r:
    String)
    ensures
        r@ == stage_path(root@, capture@, attempt@, stage, key@),
{
    let mut file: String = pipeline::stage_name(stage).to_owned();
    file.append("-");
    file.append(key);
    file.append(".sealed.json");
    let dir: String = placed(root, capture);
    let dir: String = placed(dir.as_str(), "usage");
    let dir: String = placed(dir.as_str(), attempt);
    placed(dir.as_str(), file.as_str())
}

/// The data that binds a projection to identifiers, a stage and sources.
pub open spec fn projection_binding(
    capture: Option<u128>,
    attempt: u128,
    stage: PipelineStage,
    sources: Seq<Seq<char>>,
) -> Seq<char> {
    stage_binding(
        capture_segment(capture),
        outside::uuid_display(attempt),
        stage,
        source_key(sources),
    )
}

/// A projection is bound to its identifiers: under another capture, or none, under
/// another attempt, another stage or sources with another key, its binding is another
/// one.
pub proof fn projection_is_bound_to_its_ids(
    c1: Option<u128>,
    a1: u128,
    s1: PipelineStage,
    k1: Seq<Seq<char>>,
    c2: Option<u128>,
    a2: u128,
    s2: PipelineStage,
    k2: Seq<Seq<char>>,
)
    ensures
        projection_binding(c1, a1, s1, k1) == projection_binding(c2, a2, s2, k2) <==> c1 == c2
            && a1 == a2 && s1 == s2 && source_key(k1) == source_key(k2),
{
    if projection_binding(c1, a1, s1, k1) == projection_binding(c2, a2, s2, k2) {
        lemma_binding_tells_its_capture(c1, a1, s1, k1, c2, a2, s2, k2);
        lemma_binding_tells_the_rest(c1, a1, s1, k1, a2, s2, k2);
    }
}

proof fn lemma_segments(capture: Option<u128>, other: Option<u128>)
    ensures
        capture is Some ==> capture_segment(capture).len() == 36 && capture_segment(capture)[8]
            == '-',
        capture is None ==> capture_segment(capture).len() == 8,
        capture_segment(capture) == capture_segment(other) ==> capture == other,
{
    reveal_strlit("unlinked");
    assert("unlinked"@.len() == 8);
    if let Some(a) = capture {
        outside::uuid_display_is_one_to_one(a, a);
        if let Some(b) = other {
            outside::uuid_display_is_one_to_one(a, b);
        }
    } else if let Some(b) = other {
        outside::uuid_display_is_one_to_one(b, b);
    }
}

proof fn lemma_binding_tells_its_capture(
    c1: Option<u128>,
    a1: u128,
    s1: PipelineStage,
    k1: Seq<Seq<char>>,
    c2: Option<u128>,
    a2: u128,
    s2: PipelineStage,
    k2: Seq<Seq<char>>,
)
    requires
        projection_binding(c1, a1, s1, k1) == projection_binding(c2, a2, s2, k2),
    ensures
        c1 == c2,
{
    reveal_strlit("lumen-context:v1:");
    reveal_strlit(":attempt:");
    let b1 = projection_binding(c1, a1, s1, k1);
    let b2 = projection_binding(c2, a2, s2, k2);
    let g1 = capture_segment(c1);
    let g2 = capture_segment(c2);
    lemma_segments(c1, c2);
    lemma_segments(c2, c1);
    assert("lumen-context:v1:"@.len() == 17 && ":attempt:"@.len() == 9);
    if c1 is Some && c2 is None {
        assert(b1[25] == g1[8]);
        assert(b2[25] == ':');
    } else if c1 is None && c2 is Some {
        assert(b1[25] == ':');
        assert(b2[25] == g2[8]);
    } else {
        let n = g1.len() as int;
        assert(b1.subrange(17, 17 + n) =~= g1);
        assert(b2.subrange(17, 17 + n) =~= g2);
    }
}

proof fn lemma_binding_tells_the_rest(
    capture: Option<u128>,
    a1: u128,
    s1: PipelineStage,
    k1: Seq<Seq<char>>,
    a2: u128,
    s2: PipelineStage,
    k2: Seq<Seq<char>>,
)
    requires
        projection_binding(capture, a1, s1, k1) == projection_binding(capture, a2, s2, k2),
    ensures
        a1 == a2,
        s1 == s2,
        source_key(k1) == source_key(k2),
{
    reveal_strlit("lumen-context:v1:");
    reveal_strlit(":attempt:");
    reveal_strlit(":stage:");
    reveal_strlit(":sources:");
    assert("lumen-context:v1:"@.len() == 17 && ":attempt:"@.len() == 9 && ":stage:"@.len() == 7
        && ":sources:"@.len() == 9);
    let b1 = projection_binding(capture, a1, s1, k1);
    let b2 = projection_binding(capture, a2, s2, k2);
    let c = capture_segment(capture).len() as int;
    let (t1, t2) = (outside::uuid_display(a1), outside::uuid_display(a2));
    let (n1, n2) = (s1.name(), s2.name());
    let (m1, m2) = (n1.len() as int, n2.len() as int);
    let (q1, q2) = (source_key(k1), source_key(k2));
    outside::uuid_display_is_one_to_one(a1, a2);
    outside::uuid_display_is_one_to_one(a2, a1);
    pipeline::stage_names_have_no_colon(s1);
    pipeline::stage_names_have_no_colon(s2);
    assert(b1.subrange(26 + c, 62 + c) =~= t1);
    assert(b2.subrange(26 + c, 62 + c) =~= t2);
    if m1 < m2 {
        assert(b1[69 + c + m1] == ':');
        assert(b2[69 + c + m1] == n2[m1]);
        assert(n2.contains(n2[m1]));
    } else if m2 < m1 {
        assert(b2[69 + c + m2] == ':');
        assert(b1[69 + c + m2] == n1[m2]);
        assert(n1.contains(n1[m2]));
    }
    assert(b1.subrange(69 + c, 69 + c + m1) =~= n1);
    assert(b2.subrange(69 + c, 69 + c + m1) =~= n2);
    pipeline::stage_names_differ(s1, s2);
    assert(b1.skip(78 + c + m1) =~= q1);
    assert(b2.skip(78 + c + m1) =~= q2);
}

// ---------------------------------------------------------------------------
// What a stage was offered
// ---------------------------------------------------------------------------

/// What a stage was offered of the context.
pub struct StageUsageInput<'a> {
    pub capture_id: Option<u128>,
    pub attempt_id: u128,
    pub stage: PipelineStage,
    pub sources: Vec<String>,
    pub projection: Option<&'a [u8]>,
    pub captured: bool,
    pub selected: bool,
    pub consumed: bool,
    pub sent: bool,
    pub not_used_reason: Option<String>,
}

/// Where a projection is to be sealed, and the data it is to be bound to.
#[derive(Debug, Clone, PartialEq, Eq)]
pub struct SealPlan {
    pub path: String,
    pub binding: String,
}

/// What is recorded of a stage, and what is to be sealed first.
#[derive(Debug, Clone, PartialEq, Eq)]
pub struct StageUsagePlan {
    pub usage: ContextStageUsage,
    pub seal: Option<SealPlan>,
}

/// A count, as far as a field of 32 bits can hold it.
pub open spec fn capped(count: int) -> int {
    if count <= u32::MAX {
        count
    } else {
        u32::MAX as int
    }
}

/// What is recorded of a stage, with the digest, the length and the path of
/// its projection.
pub open spec fn usage_record(input: StageUsageInput, root: Seq<char>) -> StageUsage {
    let sources = text::texts(input.sources@);
    StageUsage {
        stage: input.stage,
        sources,
        projection_schema_version: 1,
        projection_path: match input.projection {
            Some(_) => Some(
                stage_path(
                    root,
                    capture_segment(input.capture_id),
                    outside::uuid_display(input.attempt_id),
                    input.stage,
                    source_key(sources),
                ),
            ),
            None => None,
        },
        projection_hash: match input.projection {
            Some(bytes) => Some(outside::blake3_digest(bytes@)),
            None => None,
        },
        projection_chars: match input.projection {
            Some(bytes) => capped(outside::utf8_lossy(bytes@).len() as int),
            None => 0,
        },
        captured: input.captured,
        selected: input.selected,
        consumed: input.consumed,
        sent: input.sent,
        not_used_reason: text::opt(input.not_used_reason),
    }
}

/// The record of what one pipeline stage was offered, and where the exact
/// projection is to be sealed. A stage that was offered nothing is recorded
/// without one; a projection is refused where nothing can be sealed.
pub fn plan_stage_usage(root: &str, sealer_ready: bool, input: StageUsageInput) -> (r: Result<
    StageUsagePlan,
    String,
>)
    ensures
        r is Err <==> input.projection is Some && !sealer_ready,
        r matches Err(error) ==> error@ == "context projection encryption unavailable"@,
        r matches Ok(plan) ==> {
            &&& plan.usage@ == usage_record(input, root@)
            &&& plan.seal is Some <==> input.projection is Some
            &&& plan.seal matches Some(seal) ==> {
                &&& seal.path@ == usage_record(input, root@).projection_path->0
                &&& seal.binding@ == projection_binding(
                    input.capture_id,
                    input.attempt_id,
                    input.stage,
                    text::texts(input.sources@),
                )
            }
        },
{
    let bytes: &[u8] = match input.projection {
        Some(bytes) => bytes,
        None => {
            return Ok(
                StageUsagePlan {
                    usage: ContextStageUsage {
                        stage: input.stage,
                        sources: input.sources,
                        projection_schema_version: 1,
                        projection_path: None,
                        projection_hash: None,
                        projection_chars: 0,
                        captured: input.captured,
                        selected: input.selected,
                        consumed: input.consumed,
                        sent: input.sent,
                        not_used_reason: input.not_used_reason,
                    },
                    seal: None,
                },
            );
        },
    };
    if !sealer_ready {
        return Err("context projection encryption unavailable".to_owned());
    }
    let hash: String = outside::blake3_hex(bytes);
    let count: usize = text::to_chars(outside::lossy_text(bytes).as_str()).len();
    let chars: u32 = if count <= u32::MAX as usize {
        count as u32
    } else {
        u32::MAX
    };
    let key: String = stage_usage_source_key(&input.sources);
    let capture: String = segment_of(input.capture_id);
    let attempt: String = outside::uuid_text(input.attempt_id);
    let path: String = path_of_stage(
        root,
        capture.as_str(),
        attempt.as_str(),
        input.stage,
        key.as_str(),
    );
    let binding: String = bind_stage(
        capture.as_str(),
        attempt.as_str(),
        input.stage,
        key.as_str(),
    );
    Ok(
        StageUsagePlan {
            usage: ContextStageUsage {
                stage: input.stage,
                sources: input.sources,
                projection_schema_version: 1,
                projection_path: Some(path.as_str().to_owned()),
                projection_hash: Some(hash),
                projection_chars: chars,
                captured: input.captured,
                selected: input.selected,
                consumed: input.consumed,
                sent: input.sent,
                not_used_reason: input.not_used_reason,
            },
            seal: Some(SealPlan { path, binding }),
        },
    )
}

/// Where a recorded projection is to be read from, and the data it must be
/// bound to: its path is recorded and it can be opened, or else it is refused.
pub fn plan_projection_load(
    sealer_ready: bool,
    capture_id: Option<u128>,
    attempt_id: u128,
    usage: &ContextStageUsage,
) -> (r: Result<SealPlan, String>)
    ensures
        usage.projection_path is None ==> text::fails(r, "stage projection path unavailable"@),
        usage.projection_path is Some && !sealer_ready ==> text::fails(
            r,
            "context projection encryption unavailable"@,
        ),
        usage.projection_path is Some && sealer_ready ==> r is Ok,
        r matches Ok(plan) ==> {
            &&& plan.path@ == usage.projection_path->0@
            &&& plan.binding@ == projection_binding(
                capture_id,
                attempt_id,
                usage.stage,
                usage@.sources,
            )
        },
{
    let path: String = match &usage.projection_path {
        Some(path) => path.as_str().to_owned(),
        None => return Err("stage projection path unavailable".to_owned()),
    };
    if !sealer_ready {
        return Err("context projection encryption unavailable".to_owned());
    }
    let key: String = stage_usage_source_key(&usage.sources);
    let capture: String = segment_of(capture_id);
    let attempt: String = outside::uuid_text(attempt_id);
    let binding: String = bind_stage(
        capture.as_str(),
        attempt.as_str(),
        usage.stage,
        key.as_str(),
    );
    Ok(SealPlan { path, binding })
}

/// Checks that what was opened has the recorded digest, where one is recorded.
pub fn check_projection_hash(opened: &[u8], usage: &ContextStageUsage) -> (r: Result<(), String>)
    ensures
        r is Ok <==> (usage.projection_hash matches Some(hash) ==> hash@
            == outside::blake3_digest(opened@)),
        r matches Err(error) ==> error@ == "stage projection hash mismatch"@,
{
    if let Some(expected) = &usage.projection_hash {
        let hash: String = outside::blake3_hex(opened);
        if !text::same(hash.as_str(), expected.as_str()) {
            return Err("stage projection hash mismatch".to_owned());
        }
    }
    Ok(())
}

/// What was sealed for a stage is found again under its own identifiers and under
/// no others: the path that is recorded is the one it was sealed at, and the bytes
/// that were sealed pass the check. Where `presented`, which may have been changed
/// since, is loaded as that of `capture` and `attempt`, the binding is the one that it
/// was sealed under exactly where both are its own, the stage is its stage, and the
/// sources have the key of its sources.
pub proof fn recorded_projection_is_found_again(
    input: StageUsageInput,
    root: Seq<char>,
    usage: ContextStageUsage,
    presented: ContextStageUsage,
    capture: Option<u128>,
    attempt: u128,
)
    requires
        input.projection is Some,
        usage@ == usage_record(input, root),
    ensures
        usage.projection_path is Some,
        projection_binding(input.capture_id, input.attempt_id, usage.stage, usage@.sources)
            == projection_binding(
            input.capture_id,
            input.attempt_id,
            input.stage,
            text::texts(input.sources@),
        ),
        projection_binding(capture, attempt, presented.stage, presented@.sources)
            == projection_binding(
            input.capture_id,
            input.attempt_id,
            input.stage,
            text::texts(input.sources@),
        ) <==> capture == input.capture_id && attempt == input.attempt_id && presented.stage
            == input.stage && source_key(presented@.sources) == source_key(
            text::texts(input.sources@),
        ),
        usage.projection_hash matches Some(hash) && hash@ == outside::blake3_digest(
            input.projection->0@,
        ),
{
    projection_is_bound_to_its_ids(
        capture,
        attempt,
        presented.stage,
        presented@.sources,
        input.capture_id,
        input.attempt_id,
        input.stage,
        text::texts(input.sources@),
    );
}

/// What a load gives: what was opened, where it has the recorded digest.
pub open spec fn loaded(opened: Option<Seq<u8>>, usage: ContextStageUsage) -> Option<Seq<u8>> {
    match opened {
        Some(bytes) => if usage.projection_hash matches Some(hash) ==> hash@
            == outside::blake3_digest(bytes) {
            Some(bytes)
        } else {
            None
        },
        None => None,
    }
}

/// Settles a load: `opened` is what the sealed file gave under the binding of the
/// plan, or the words with which it was refused.
pub fn settle_projection_load(opened: Result<Vec<u8>, String>, usage: &ContextStageUsage) -> (r:
    Result<Vec<u8>, String>)
    ensures
        match opened {
            Ok(bytes) => match loaded(Some(bytes@), *usage) {
                Some(_) => r == Ok::<Vec<u8>, String>(bytes),
                None => text::fails(r, "stage projection hash mismatch"@),
            },
            Err(error) => r == Err::<Vec<u8>, String>(error),
        },
{
    match opened {
        Ok(bytes) => match check_projection_hash(bytes.as_slice(), usage) {
            Ok(()) => Ok(bytes),
            Err(error) => Err(error),
        },
        Err(error) => Err(error),
    }
}

/// A sealed projection is opened as it was recorded and in no other way. `opens`
/// says what the file at the recorded path gives under a binding; a sealer that
/// authenticates its binding gives what was sealed, under the binding that it was
/// sealed under, and nothing under any other. Then a load of `presented`, which has
/// the recorded digest, as that of `capture` and `attempt` gives what was sealed
/// where both are its own, the stage is its stage and the sources have the key of its
/// sources, and nothing otherwise.
pub proof fn sealed_projection_opens_only_as_recorded(
    input: StageUsageInput,
    root: Seq<char>,
    usage: ContextStageUsage,
    presented: ContextStageUsage,
    capture: Option<u128>,
    attempt: u128,
    opens: spec_fn(Seq<char>) -> Option<Seq<u8>>,
)
    requires
        input.projection is Some,
        usage@ == usage_record(input, root),
        presented@.projection_hash == usage@.projection_hash,
        ({
            let sealed = projection_binding(
                input.capture_id,
                input.attempt_id,
                input.stage,
                text::texts(input.sources@),
            );
            &&& opens(sealed) == Some(input.projection->0@)
            &&& forall|binding: Seq<char>| #[trigger] opens(binding) is Some ==> binding == sealed
        }),
    ensures
        ({
            let own = capture == input.capture_id && attempt == input.attempt_id && presented.stage
                == input.stage && source_key(presented@.sources) == source_key(
                text::texts(input.sources@),
            );
            loaded(
                opens(
                    projection_binding(capture, attempt, presented.stage, presented@.sources),
                ),
                presented,
            ) == if own {
                Some(input.projection->0@)
            } else {
                None
            }
        }),
{
    recorded_projection_is_found_again(input, root, usage, presented, capture, attempt);
    let binding = projection_binding(capture, attempt, presented.stage, presented@.sources);
    assert(opens(binding) is Some || opens(binding) is None);
}

// ---------------------------------------------------------------------------
// Snapshots
// ---------------------------------------------------------------------------

/// How much of the context is captured.
#[derive(Debug, Clone, Copy, PartialEq, Eq, Structural)]
pub enum CaptureProfile {
    Metadata,
    Editor,
    Visible,
    Vision,
    FullLocal,
}

/// A source of context.
#[derive(Debug, Clone, Copy, PartialEq, Eq, Structural)]
pub enum SourceKind {
    Target,
    EditorAx,
    AxVisible,
    Browser,
}

/// The profile of a configured name; the visible one where it is not known.
pub open spec fn profile_named(name: Seq<char>) -> CaptureProfile {
    if name == "metadata"@ {
        CaptureProfile::Metadata
    } else if name == "editor"@ {
        CaptureProfile::Editor
    } else {
        CaptureProfile::Visible
    }
}

/// The profile of the configured name `value`.
pub fn parse_profile(value: &str) -> (r: CaptureProfile)
    ensures
        r == profile_named(value@),
{
    if text::same(value, "metadata") {
        CaptureProfile::Metadata
    } else if text::same(value, "editor") {
        CaptureProfile::Editor
    } else {
        CaptureProfile::Visible
    }
}

/// The name under which a profile is recorded.
pub open spec fn recorded_profile(profile: CaptureProfile) -> Seq<char> {
    match profile {
        CaptureProfile::Metadata => "metadata"@,
        CaptureProfile::Editor => "editor"@,
        _ => "visible"@,
    }
}

/// The name under which `profile` is recorded.
pub fn profile_name(profile: CaptureProfile) -> (r: &'static str)
    ensures
        r@ == recorded_profile(profile),
{
    match profile {
        CaptureProfile::Metadata => "metadata",
        CaptureProfile::Editor => "editor",
        _ => "visible",
    }
}

/// A recorded profile reads back as one that captures the same sources.
pub proof fn profile_is_read_back(profile: CaptureProfile)
    ensures
        captured_sources(profile_named(recorded_profile(profile))) == captured_sources(profile),
{
    reveal_strlit("metadata");
    reveal_strlit("editor");
    reveal_strlit("visible");
    assert("metadata"@.len() == 8 && "editor"@.len() == 6 && "visible"@.len() == 7);
}

/// The sources that a profile captures. None of them is an image.
pub open spec fn captured_sources(profile: CaptureProfile) -> Seq<SourceKind> {
    match profile {
        CaptureProfile::Metadata => seq![SourceKind::Target],
        CaptureProfile::Editor => seq![SourceKind::Target, SourceKind::EditorAx],
        _ => seq![
            SourceKind::Target,
            SourceKind::EditorAx,
            SourceKind::AxVisible,
            SourceKind::Browser,
        ],
    }
}

/// The sources that `profile` captures.
pub fn sources_for_profile(profile: CaptureProfile) -> (r: Vec<SourceKind>)
    ensures
        r@ == captured_sources(profile),
{
    let mut sources: Vec<SourceKind> = Vec::new();
    sources.push(SourceKind::Target);
    match profile {
        CaptureProfile::Metadata => {},
        CaptureProfile::Editor => {
            sources.push(SourceKind::EditorAx);
        },
        _ => {
            sources.push(SourceKind::EditorAx);
            sources.push(SourceKind::AxVisible);
            sources.push(SourceKind::Browser);
        },
    }
    assert(sources@ =~= captured_sources(profile));
    sources
}

/// A source that was collected.
pub open spec fn present(state: Option<SourceState>) -> bool {
    state matches Some(state) && state.collected()
}

/// Bit `i` of `bits`.
pub open spec fn bit(bits: u64, i: u64) -> bool {
    (bits >> i) & 1 == 1
}

/// One bit for each source, in the order of `states`, which is set where the
/// source was collected.
pub fn source_presence_bitmap(states: &Vec<Option<SourceState>>) -> (bits: u64)
    requires
        states@.len() <= 64,
    ensures
        forall|i: u64|
            0 <= i < 64 ==> #[trigger] bit(bits, i) == (i < states@.len() && present(
                states@[i as int],
            )),
{
    let mut bits: u64 = 0;
    let mut at: usize = 0;
    assert forall|i: u64| 0 <= i < 64 implies !(#[trigger] bit(0, i)) by {
        assert((0u64 >> i) & 1 == 0) by (bit_vector)
            requires
                i < 64,
        ;
    }
    while at < states.len()
        invariant
            at <= states@.len() <= 64,
            forall|i: u64|
                0 <= i < 64 ==> #[trigger] bit(bits, i) == (i < at && present(states@[i as int])),
        decreases states@.len() - at,
    {
        let collected: bool = match states[at] {
            Some(SourceState::Succeeded) => true,
            Some(SourceState::Empty) => true,
            _ => false,
        };
        if collected {
            let ghost before = bits;
            let k: u64 = at as u64;
            bits = bits | (1u64 << k);
            assert forall|i: u64| 0 <= i < 64 implies #[trigger] bit(bits, i) == (bit(before, i)
                || i == k) by {
                assert((((before | (1u64 << k)) >> i) & 1 == 1) == ((before >> i) & 1 == 1 || i
                    == k)) by (bit_vector)
                    requires
                        i < 64,
                        k < 64,
                ;
            }
        }
        at = at + 1;
    }
    bits
}

/// `n` in decimal notation, with zeros in front up to `width` digits.
pub open spec fn padded(n: nat, width: int) -> Seq<char> {
    let digits = text::decimal(n);
    if digits.len() >= width {
        digits
    } else {
        Seq::new((width - digits.len()) as nat, |i: int| '0') + digits
    }
}

fn padded_text(n: u64, width: usize) -> (r: String)
    ensures
        r@ == padded(n as nat, width as int),
{
    let digits: String = text::decimal_text(n);
    let count: usize = text::to_chars(digits.as_str()).len();
    let mut r: String = String::new();
    let mut i: usize = count;
    while i < width
        invariant
            count <= i,
            i <= width || i == count,
            r@ == Seq::new((i - count) as nat, |j: int| '0'),
        decreases width - i,
    {
        r.push('0');
        i = i + 1;
        assert(r@ =~= Seq::new((i - count) as nat, |j: int| '0'));
    }
    r.append(digits.as_str());
    assert(r@ =~= padded(n as nat, width as int));
    r
}

/// The file that holds a capture's artifact.
pub open spec fn artifact_file(revision: nat, artifact: Seq<char>) -> Seq<char> {
    "artifact.r"@ + padded(revision, 4) + "-"@ + artifact + ".sealed.json"@
}

/// The file that holds a revision of a capture's manifest.
pub open spec fn manifest_file(revision: nat, schema_version: nat) -> Seq<char> {
    "manifest.r"@ + padded(revision, 4) + ".v"@ + text::decimal(schema_version) + ".sealed.json"@
}

/// The data that binds an artifact to its capture.
pub open spec fn artifact_binding(capture: Seq<char>, artifact: Seq<char>) -> Seq<char> {
    "lumen-context:v1:"@ + capture + ":artifact:"@ + artifact
}

/// The data that binds a manifest to its capture and revision.
pub open spec fn manifest_binding(capture: Seq<char>, revision: nat) -> Seq<char> {
    "lumen-context:v1:"@ + capture + ":manifest:"@ + text::decimal(revision)
}

/// Where an artifact is sealed, and the data it is bound to.
pub fn plan_artifact(root: &str, capture: &str, revision: u32, artifact: &str) -> (r: SealPlan)
    ensures
        r.path@ == under(
            under(root@, capture@),
            artifact_file(revision as nat, artifact@),
        ),
        r.binding@ == artifact_binding(capture@, artifact@),
{
    let mut file: String = "artifact.r".to_owned();
    file.append(padded_text(revision as u64, 4).as_str());
    file.append("-");
    file.append(artifact);
    file.append(".sealed.json");
    let mut binding: String = "lumen-context:v1:".to_owned();
    binding.append(capture);
    binding.append(":artifact:");
    binding.append(artifact);
    let dir: String = placed(root, capture);
    SealPlan { path: placed(dir.as_str(), file.as_str()), binding }
}

/// Where a manifest is sealed, and the data it is bound to.
pub fn plan_manifest(root: &str, capture: &str, revision: u32, schema_version: u32) -> (r: SealPlan)
    ensures
        r.path@ == under(
            under(root@, capture@),
            manifest_file(revision as nat, schema_version as nat),
        ),
        r.binding@ == manifest_binding(capture@, revision as nat),
{
    let mut file: String = "manifest.r".to_owned();
    file.append(padded_text(revision as u64, 4).as_str());
    file.append(".v");
    file.append(text::decimal_text(schema_version as u64).as_str());
    file.append(".sealed.json");
    let mut binding: String = "lumen-context:v1:".to_owned();
    binding.append(capture);
    binding.append(":manifest:");
    binding.append(text::decimal_text(revision as u64).as_str());
    let dir: String = placed(root, capture);
    SealPlan { path: placed(dir.as_str(), file.as_str()), binding }
}

/// What is kept of one revision of a capture. Times are milliseconds since the
/// epoch.
#[derive(Debug, Clone, PartialEq, Eq)]
pub struct ContextSnapshotRecord {
    pub capture_id: u128,
    pub session_id: u128,
    pub revision: u32,
    pub schema_version: u32,
    pub profile: String,
    pub target_generation: u64,
    pub started_at: i64,
    pub frozen_at: i64,
    pub completed_at: Option<i64>,
    pub manifest_path: String,
    pub source_presence_bitmap: u64,
    pub source_status_json: String,
    pub sanitized_hash: String,
    pub encryption: String,
    pub status: String,
}

/// The reference by which an attempt names the context it was given.
#[derive(Debug, Clone, PartialEq, Eq)]
pub struct ContextInputRef {
    pub capture_id: u128,
    pub revision: u32,
    pub snapshot_hash: String,
    pub context_schema_version: u32,
    pub capture_profile: String,
    pub source_presence_bitmap: u64,
    pub source_status_summary: String,
}

impl ContextInputRef {
    /// The reference names `record`.
    pub open spec fn names(self, record: ContextSnapshotRecord) -> bool {
        &&& self.capture_id == record.capture_id
        &&& self.revision == record.revision
        &&& self.snapshot_hash@ == record.sanitized_hash@
        &&& self.context_schema_version == record.schema_version
        &&& self.capture_profile@ == record.profile@
        &&& self.source_presence_bitmap == record.source_presence_bitmap
        &&& self.source_status_summary@ == record.status@
    }
}

/// The reference to `record`.
pub fn context_ref(record: &ContextSnapshotRecord) -> (r: ContextInputRef)
    ensures
        r.names(*record),
{
    ContextInputRef {
        capture_id: record.capture_id,
        revision: record.revision,
        snapshot_hash: record.sanitized_hash.as_str().to_owned(),
        context_schema_version: record.schema_version,
        capture_profile: record.profile.as_str().to_owned(),
        source_presence_bitmap: record.source_presence_bitmap,
        source_status_summary: record.status.as_str().to_owned(),
    }
}

/// Which capture a record is of.
#[derive(Debug, Clone, Copy, PartialEq, Eq, Structural)]
pub struct CaptureOrigin {
    pub capture_id: u128,
    pub session_id: u128,
    pub profile: CaptureProfile,
    pub target_generation: u64,
    pub started_at: i64,
}

/// The record is of the capture `origin`.
pub open spec fn originates(record: ContextSnapshotRecord, origin: CaptureOrigin) -> bool {
    &&& record.capture_id == origin.capture_id
    &&& record.session_id == origin.session_id
    &&& record.profile@ == recorded_profile(origin.profile)
    &&& record.target_generation == origin.target_generation
    &&& record.started_at == origin.started_at
}

/// The status of a capture that did not take place.
pub open spec fn unavailable_status(reason: Option<Seq<char>>) -> Seq<char> {
    let reason = match reason {
        Some(reason) => reason,
        None => "context_capture_unavailable"@,
    };
    "{\"capture\":{\"reason\":"@ + outside::json_literal(reason)
        + ",\"state\":\"unavailable\"}}"@
}

/// The record of a capture that did not take place: it holds nothing but the
/// reason, and is still there to be audited.
pub fn unavailable_record(origin: CaptureOrigin, reason: Option<&String>, now: i64) -> (r: Result<
    ContextSnapshotRecord,
    serde_json::Error,
>)
    ensures
        r is Ok,
        r matches Ok(record) ==> {
            let status = unavailable_status(text::seen(reason));
            &&& originates(record, origin)
            &&& record.revision == 1
            &&& record.schema_version == 1
            &&& record.frozen_at == now
            &&& record.completed_at == Some(now)
            &&& record.manifest_path@.len() == 0
            &&& record.source_presence_bitmap == 0
            &&& record.source_status_json@ == status
            &&& record.sanitized_hash@ == outside::blake3_digest(vstd::utf8::encode_utf8(status))
            &&& record.encryption@ == "none"@
            &&& record.status@ == "unavailable"@
        },
{
    let literal: String = match reason {
        Some(reason) => outside::json_string(reason.as_str())?,
        None => outside::json_string("context_capture_unavailable")?,
    };
    let mut status: String = "{\"capture\":{\"reason\":".to_owned();
    status.append(literal.as_str());
    status.append(",\"state\":\"unavailable\"}}");
    let hash: String = outside::blake3_hex(status.as_str().as_bytes());
    Ok(
        ContextSnapshotRecord {
            capture_id: origin.capture_id,
            session_id: origin.session_id,
            revision: 1,
            schema_version: 1,
            profile: profile_name(origin.profile).to_owned(),
            target_generation: origin.target_generation,
            started_at: origin.started_at,
            frozen_at: now,
            completed_at: Some(now),
            manifest_path: String::new(),
            source_presence_bitmap: 0,
            source_status_json: status,
            sanitized_hash: hash,
            encryption: "none".to_owned(),
            status: "unavailable".to_owned(),
        },
    )
}

/// What a snapshot holds of one revision.
#[derive(Debug, Clone)]
pub struct SnapshotFacts {
    pub revision: u32,
    pub schema_version: u32,
    pub frozen_at: i64,
    /// Every source that was asked for has ended.
    pub terminal: bool,
    pub states: Vec<Option<SourceState>>,
    pub status_json: String,
    pub manifest_path: String,
}

/// The record of a snapshot whose manifest was sealed.
pub fn snapshot_record(
    origin: CaptureOrigin,
    facts: SnapshotFacts,
    manifest_json: &[u8],
    encryption: &str,
) -> (record: ContextSnapshotRecord)
    requires
        facts.states@.len() <= 64,
    ensures
        originates(record, origin),
        record.revision == facts.revision,
        record.schema_version == facts.schema_version,
        record.frozen_at == facts.frozen_at,
        record.completed_at == (if facts.terminal {
            Some(facts.frozen_at)
        } else {
            None
        }),
        record.manifest_path@ == facts.manifest_path@,
        forall|i: u64|
            0 <= i < 64 ==> #[trigger] bit(record.source_presence_bitmap, i) == (i
                < facts.states@.len() && present(facts.states@[i as int])),
        record.source_status_json@ == facts.status_json@,
        record.sanitized_hash@ == outside::blake3_digest(manifest_json@),
        record.encryption@ == encryption@,
        record.status@ == (if facts.terminal {
            "complete"@
        } else {
            "partial"@
        }),
{
    let bits: u64 = source_presence_bitmap(&facts.states);
    ContextSnapshotRecord {
        capture_id: origin.capture_id,
        session_id: origin.session_id,
        revision: facts.revision,
        schema_version: facts.schema_version,
        profile: profile_name(origin.profile).to_owned(),
        target_generation: origin.target_generation,
        started_at: origin.started_at,
        frozen_at: facts.frozen_at,
        completed_at: if facts.terminal {
            Some(facts.frozen_at)
        } else {
            None
        },
        manifest_path: facts.manifest_path,
        source_presence_bitmap: bits,
        source_status_json: facts.status_json,
        sanitized_hash: outside::blake3_hex(manifest_json),
        encryption: encryption.to_owned(),
        status: if facts.terminal {
            "complete".to_owned()
        } else {
            "partial".to_owned()
        },
    }
}

// ---------------------------------------------------------------------------
// The recorder
// ---------------------------------------------------------------------------

/// `value`, but not under `lo` or over `hi`.
pub open spec fn clamped(value: int, lo: int, hi: int) -> int {
    if value < lo {
        lo
    } else if value > hi {
        hi
    } else {
        value
    }
}

fn clamp(value: u64, lo: u64, hi: u64) -> (r: u64)
    ensures
        r == clamped(value as int, lo as int, hi as int),
{
    if value < lo {
        lo
    } else if value > hi {
        hi
    } else {
        value
    }
}

/// The settings by which captures are recorded.
#[derive(Debug, Clone, Copy, PartialEq, Eq, Structural)]
pub struct RecorderSettings {
    pub enabled: bool,
    pub profile: CaptureProfile,
    pub ax_max_chars: usize,
    pub freeze_deadline_ms: u64,
    pub late_deadline_ms: u64,
}

/// The settings by which captures are recorded, within their bounds.
pub fn recorder_settings(config: &ContextCaptureConfig) -> (r: RecorderSettings)
    ensures
        r.enabled == config.enabled,
        r.profile == profile_named(config.profile@),
        r.ax_max_chars == clamped(config.max_chars as int, 1_000, 1_000_000),
        r.freeze_deadline_ms == clamped(config.freeze_deadline_ms as int, 1, 5_000),
        r.late_deadline_ms == clamped(config.late_deadline_ms as int, 1, 60_000),
{
    let ax_max_chars: usize = if config.max_chars < 1_000 {
        1_000
    } else if config.max_chars > 1_000_000 {
        1_000_000
    } else {
        config.max_chars
    };
    RecorderSettings {
        enabled: config.enabled,
        profile: parse_profile(config.profile.as_str()),
        ax_max_chars,
        freeze_deadline_ms: clamp(config.freeze_deadline_ms, 1, 5_000),
        late_deadline_ms: clamp(config.late_deadline_ms, 1, 60_000),
    }
}

/// Why a capture cannot begin.
pub open spec fn refusal(
    enabled: bool,
    sealer_ready: bool,
    collector_ready: bool,
    initialization_error: Option<Seq<char>>,
) -> Option<Seq<char>> {
    if !enabled {
        Some("context_capture_disabled"@)
    } else if !sealer_ready {
        Some(
            match initialization_error {
                Some(error) => error,
                None => "context_encryption_unavailable"@,
            },
        )
    } else if !collector_ready {
        Some(
            match initialization_error {
                Some(error) => error,
                None => "context_collector_unavailable"@,
            },
        )
    } else {
        None
    }
}

/// Why a capture cannot begin, where it cannot.
pub fn capture_refusal(
    enabled: bool,
    sealer_ready: bool,
    collector_ready: bool,
    initialization_error: Option<&String>,
) -> (r: Option<String>)
    ensures
        text::opt(r) == refusal(
            enabled,
            sealer_ready,
            collector_ready,
            text::seen(initialization_error),
        ),
{
    if !enabled {
        Some("context_capture_disabled".to_owned())
    } else if !sealer_ready {
        match initialization_error {
            Some(error) => Some(error.as_str().to_owned()),
            None => Some("context_encryption_unavailable".to_owned()),
        }
    } else if !collector_ready {
        match initialization_error {
            Some(error) => Some(error.as_str().to_owned()),
            None => Some("context_collector_unavailable".to_owned()),
        }
    } else {
        None
    }
}

/// Why there is no capture, once one was tried: a collector that did not start
/// is a reason where there was none before.
pub fn capture_unavailable_reason(refusal: Option<String>, started: bool) -> (r: Option<String>)
    ensures
        text::opt(r) == (if refusal is None && !started {
            Some("context_capture_start_failed"@)
        } else {
            text::opt(refusal)
        }),
{
    match refusal {
        Some(reason) => Some(reason),
        None => if started {
            None
        } else {
            Some("context_capture_start_failed".to_owned())
        },
    }
}

/// Where the key that seals captures is kept.
#[derive(Debug, Clone, Copy, PartialEq, Eq, Structural)]
pub enum SealerSource {
    Keychain,
    LocalKeyFile,
    Missing,
}

/// How captures are sealed: with the keychain's key, or else with the local
/// key file's, or else not at all. What went wrong on the way is kept.
pub fn sealer_choice(keychain_error: Option<&String>, local_error: Option<&String>) -> (r: (
    SealerSource,
    String,
    Option<String>,
))
    ensures
        keychain_error is None ==> {
            &&& r.0 is Keychain
            &&& r.1@ == "chacha20_poly1305:macos_keychain"@
            &&& r.2 is None
        },
        keychain_error is Some && local_error is None ==> {
            &&& r.0 is LocalKeyFile
            &&& r.1@ == "chacha20_poly1305:local_key_file"@
            &&& text::opt(r.2) == Some("keychain fallback: "@ + keychain_error->0@)
        },
        keychain_error is Some && local_error is Some ==> {
            &&& r.0 is Missing
            &&& r.1@ == "none"@
            &&& text::opt(r.2) == Some(
                "keychain error: "@ + keychain_error->0@ + "; local key error: "@
                    + local_error->0@,
            )
        },
{
    match keychain_error {
        None => (SealerSource::Keychain, "chacha20_poly1305:macos_keychain".to_owned(), None),
        Some(keychain) => match local_error {
            None => {
                let mut note: String = "keychain fallback: ".to_owned();
                note.append(keychain.as_str());
                (
                    SealerSource::LocalKeyFile,
                    "chacha20_poly1305:local_key_file".to_owned(),
                    Some(note),
                )
            },
            Some(local) => {
                let mut note: String = "keychain error: ".to_owned();
                note.append(keychain.as_str());
                note.append("; local key error: ");
                note.append(local.as_str());
                (SealerSource::Missing, "none".to_owned(), Some(note))
            },
        },
    }
}

/// The key that a key file holds: its bytes, where there are 32 of them.
pub fn local_key(bytes: Vec<u8>) -> (r: Result<Vec<u8>, String>)
    ensures
        bytes@.len() == 32 ==> r == Ok::<Vec<u8>, String>(bytes),
        bytes@.len() != 32 ==> text::fails(r, "local context key has invalid length"@),
{
    if bytes.len() == 32 {
        Ok(bytes)
    } else {
        Err("local context key has invalid length".to_owned())
    }
}

// ---------------------------------------------------------------------------
// Laws of records
// ---------------------------------------------------------------------------

/// The key of sources is the beginning of the digest of their names, joined in order.
pub proof fn key_is_of_the_names_in_order(sources: Seq<Seq<char>>)
    requires
        forall|i: int, j: int|
            0 <= i < j < sources.len() ==> order::comes_before(
                #[trigger] sources[i],
                #[trigger] sources[j],
            ),
    ensures
        source_key(sources) == outside::blake3_digest(
            vstd::utf8::encode_utf8(text::join(sources, "\u{1f}"@)),
        ).subrange(0, 16),
{
    canonical_is_ascending(sources);
    lemma_ascending_unique(canonical(sources), sources);
    let digest = outside::blake3_digest(vstd::utf8::encode_utf8(text::join(sources, "\u{1f}"@)));
    assert(digest.take(16) == digest.subrange(0, 16));
}

/// A capture is told by its identifier, and the lack of one by a word.
pub proof fn capture_is_told_by_its_identifier(id: u128)
    ensures
        capture_segment(Some(id)) == outside::uuid_display(id),
        capture_segment(None) == "unlinked"@,
{
}

/// A binding names the capture, the attempt, the stage and the key, in this order.
pub proof fn binding_names_its_parts(
    capture: Option<u128>,
    attempt: u128,
    stage: PipelineStage,
    sources: Seq<Seq<char>>,
)
    ensures
        projection_binding(capture, attempt, stage, sources) == "lumen-context:v1:"@
            + capture_segment(capture) + ":attempt:"@ + outside::uuid_display(attempt) + ":stage:"@
            + stage.name() + ":sources:"@ + source_key(sources),
{
}

/// A projection is kept under its capture and its attempt, in a file of its stage and its
/// key.
pub proof fn projection_is_kept_in_its_place(
    root: Seq<char>,
    capture: Seq<char>,
    attempt: Seq<char>,
    stage: PipelineStage,
    key: Seq<char>,
)
    requires
        root.len() > 0,
        root.last() != '/',
        paths::is_file_name(capture, false),
        paths::is_file_name(attempt, false),
        !key.contains('/'),
        !stage.name().contains('/'),
        stage.name().len() > 0,
    ensures
        stage_path(root, capture, attempt, stage, key) == root + seq!['/'] + capture + seq!['/']
            + "usage"@ + seq!['/'] + attempt + seq!['/'] + (stage.name() + "-"@ + key
            + ".sealed.json"@),
{
    reveal_strlit("usage");
    reveal_strlit("-");
    reveal_strlit(".sealed.json");
    let file = stage.name() + "-"@ + key + ".sealed.json"@;
    assert(".sealed.json"@.len() == 12 && ".sealed.json"@[0] == '.' && ".sealed.json"@[1] == 's'
        && ".sealed.json"@[2] == 'e' && ".sealed.json"@[3] == 'a' && ".sealed.json"@[4] == 'l'
        && ".sealed.json"@[5] == 'e' && ".sealed.json"@[6] == 'd' && ".sealed.json"@[7] == '.'
        && ".sealed.json"@[8] == 'j' && ".sealed.json"@[9] == 's' && ".sealed.json"@[10] == 'o'
        && ".sealed.json"@[11] == 'n');
    assert(file.len() > 2);
    assert forall|i: int| 0 <= i < file.len() implies #[trigger] file[i] != '/' by {
        let n = stage.name().len() as int;
        let k = key.len() as int;
        if i < n {
            assert(file[i] == stage.name()[i]);
            assert(stage.name().contains(stage.name()[i]));
        } else if i == n {
            assert(file[i] == "-"@[0]);
        } else if i < n + 1 + k {
            assert(file[i] == key[i - n - 1]);
            assert(key.contains(key[i - n - 1]));
        } else {
            assert(file[i] == ".sealed.json"@[i - n - 1 - k]);
        }
    }
    assert(paths::is_file_name("usage"@, false));
    assert(paths::is_file_name(file, false));
    paths::name_is_put_under_a_directory(root, capture);
    let a = root + seq!['/'] + capture;
    assert(a.last() == capture.last());
    paths::name_is_put_under_a_directory(a, "usage"@);
    let b = a + seq!['/'] + "usage"@;
    assert(b.last() == "usage"@.last());
    paths::name_is_put_under_a_directory(b, attempt);
    let d = b + seq!['/'] + attempt;
    assert(d.last() == attempt.last());
    paths::name_is_put_under_a_directory(d, file);
}

/// What is recorded of a stage is what is told of it, and of its projection the digest,
/// the length and the path; without a projection none of these.
pub proof fn stage_is_recorded_as_told(input: StageUsageInput, root: Seq<char>)
    ensures
        ({
            let record = usage_record(input, root);
            &&& record.stage == input.stage
            &&& record.sources == text::texts(input.sources@)
            &&& record.captured == input.captured
            &&& record.selected == input.selected
            &&& record.consumed == input.consumed
            &&& record.sent == input.sent
            &&& record.not_used_reason == text::opt(input.not_used_reason)
            &&& record.projection_schema_version == 1
            &&& input.projection is None ==> record.projection_path is None
                && record.projection_hash is None && record.projection_chars == 0
            &&& input.projection is Some ==> record.projection_hash == Some(
                outside::blake3_digest(input.projection->0@),
            )
            &&& input.projection is Some ==> record.projection_path == Some(
                stage_path(
                    root,
                    capture_segment(input.capture_id),
                    outside::uuid_display(input.attempt_id),
                    input.stage,
                    source_key(text::texts(input.sources@)),
                ),
            )
            &&& input.projection is Some && outside::utf8_lossy(input.projection->0@).len()
                <= u32::MAX ==> record.projection_chars == outside::utf8_lossy(
                input.projection->0@,
            ).len()
        }),
{
}

/// What was opened is given back where it has the digest that was recorded, and nothing
/// otherwise.
pub proof fn only_what_was_recorded_is_loaded(bytes: Seq<u8>, usage: ContextStageUsage)
    ensures
        loaded(None, usage) is None,
        usage.projection_hash is None ==> loaded(Some(bytes), usage) == Some(bytes),
        usage.projection_hash matches Some(hash) ==> (hash@ == outside::blake3_digest(bytes)
            ==> loaded(Some(bytes), usage) == Some(bytes)),
        usage.projection_hash matches Some(hash) ==> (hash@ != outside::blake3_digest(bytes)
            ==> loaded(Some(bytes), usage) is None),
{
}

/// A count is kept as it is as far as it fits.
pub proof fn count_is_kept_as_it_fits(count: int, value: int, lo: int, hi: int)
    requires
        lo <= hi,
    ensures
        count <= u32::MAX ==> capped(count) == count,
        count > u32::MAX ==> capped(count) == u32::MAX,
        lo <= clamped(value, lo, hi) <= hi,
        lo <= value <= hi ==> clamped(value, lo, hi) == value,
        value < lo ==> clamped(value, lo, hi) == lo,
        value > hi ==> clamped(value, lo, hi) == hi,
{
}

/// Profiles have their names, and a larger one captures what a smaller one does and more.
pub proof fn profiles_capture_their_sources(name: Seq<char>, profile: CaptureProfile)
    ensures
        profile_named("metadata"@) is Metadata,
        profile_named("editor"@) is Editor,
        profile_named("visible"@) is Visible,
        profile_named(name) is Visible <==> name != "metadata"@ && name != "editor"@,
        recorded_profile(CaptureProfile::Metadata) == "metadata"@,
        recorded_profile(CaptureProfile::Editor) == "editor"@,
        recorded_profile(CaptureProfile::Visible) == "visible"@,
        recorded_profile(CaptureProfile::Vision) == "visible"@,
        recorded_profile(CaptureProfile::FullLocal) == "visible"@,
        captured_sources(profile).len() >= 1 && captured_sources(profile)[0] is Target,
        captured_sources(CaptureProfile::Metadata).len() == 1,
        captured_sources(CaptureProfile::Editor).len() == 2 && captured_sources(
            CaptureProfile::Editor,
        )[1] is EditorAx,
        profile is Visible || profile is Vision || profile is FullLocal ==> captured_sources(
            profile,
        ) == seq![
            SourceKind::Target,
            SourceKind::EditorAx,
            SourceKind::AxVisible,
            SourceKind::Browser,
        ],
{
    reveal_strlit("metadata");
    reveal_strlit("editor");
    reveal_strlit("visible");
    assert("metadata"@.len() == 8 && "metadata"@[0] == 'm' && "metadata"@[1] == 'e'
        && "metadata"@[2] == 't' && "metadata"@[3] == 'a' && "metadata"@[4] == 'd'
        && "metadata"@[5] == 'a' && "metadata"@[6] == 't' && "metadata"@[7] == 'a');
    assert("editor"@.len() == 6 && "editor"@[0] == 'e' && "editor"@[1] == 'd'
        && "editor"@[2] == 'i' && "editor"@[3] == 't' && "editor"@[4] == 'o'
        && "editor"@[5] == 'r');
    assert("visible"@.len() == 7 && "visible"@[0] == 'v' && "visible"@[1] == 'i'
        && "visible"@[2] == 's' && "visible"@[3] == 'i' && "visible"@[4] == 'b'
        && "visible"@[5] == 'l' && "visible"@[6] == 'e');
}

/// A source is present where it was collected, with anything in it or not.
pub proof fn collected_source_is_present()
    ensures
        present(Some(SourceState::Succeeded)),
        present(Some(SourceState::Empty)),
        !present(Some(SourceState::Denied)),
        !present(Some(SourceState::SkippedPolicy)),
        !present(None),
{
}

/// A number is padded with zeros in front and keeps its digits.
pub proof fn number_is_padded_in_front(n: nat, width: int, i: int)
    requires
        width > 0,
    ensures
        ({
            let digits = text::decimal(n);
            let all = padded(n, width);
            &&& digits.len() >= width ==> all == digits
            &&& digits.len() < width ==> all.len() == width && all.subrange(
                width - digits.len(),
                width,
            ) == digits
            &&& 0 <= i < width - digits.len() ==> all[i] == '0'
        }),
{
    let digits = text::decimal(n);
    if digits.len() < width {
        assert(padded(n, width).subrange(width - digits.len(), width) =~= digits);
    }
}

/// A capture's files and bindings name what they are of.
pub proof fn files_name_what_they_hold(
    revision: nat,
    schema_version: nat,
    artifact: Seq<char>,
    capture: Seq<char>,
)
    ensures
        artifact_file(revision, artifact) == "artifact.r"@ + padded(revision, 4) + "-"@ + artifact
            + ".sealed.json"@,
        manifest_file(revision, schema_version) == "manifest.r"@ + padded(revision, 4) + ".v"@
            + text::decimal(schema_version) + ".sealed.json"@,
        artifact_binding(capture, artifact) == "lumen-context:v1:"@ + capture + ":artifact:"@
            + artifact,
        manifest_binding(capture, revision) == "lumen-context:v1:"@ + capture + ":manifest:"@
            + text::decimal(revision),
{
}

/// A reference that names a record agrees with it in everything that it tells.
pub proof fn reference_agrees_with_its_record(
    reference: ContextInputRef,
    record: ContextSnapshotRecord,
    origin: CaptureOrigin,
)
    ensures
        reference.names(record) ==> {
            &&& reference.capture_id == record.capture_id
            &&& reference.revision == record.revision
            &&& reference.snapshot_hash@ == record.sanitized_hash@
            &&& reference.context_schema_version == record.schema_version
            &&& reference.capture_profile@ == record.profile@
            &&& reference.source_presence_bitmap == record.source_presence_bitmap
            &&& reference.source_status_summary@ == record.status@
        },
        originates(record, origin) ==> {
            &&& record.capture_id == origin.capture_id
            &&& record.session_id == origin.session_id
            &&& record.profile@ == recorded_profile(origin.profile)
            &&& record.target_generation == origin.target_generation
            &&& record.started_at == origin.started_at
        },
{
}

/// A capture that did not take place tells why.
pub proof fn missing_capture_tells_why(reason: Seq<char>)
    ensures
        unavailable_status(Some(reason)) == "{\"capture\":{\"reason\":"@ + outside::json_literal(
            reason,
        ) + ",\"state\":\"unavailable\"}}"@,
        unavailable_status(None) == unavailable_status(Some("context_capture_unavailable"@)),
{
}

/// A capture begins where it is switched on and can be sealed and collected; what is
/// missing is told, by the error that came up where there was one.
pub proof fn capture_begins_where_it_can(sealer: bool, collector: bool, error: Seq<char>)
    ensures
        refusal(true, true, true, None) is None,
        refusal(true, true, true, Some(error)) is None,
        refusal(false, sealer, collector, Some(error)) == Some("context_capture_disabled"@),
        refusal(false, sealer, collector, None) == Some("context_capture_disabled"@),
        refusal(true, false, collector, Some(error)) == Some(error),
        refusal(true, false, collector, None) == Some("context_encryption_unavailable"@),
        refusal(true, true, false, Some(error)) == Some(error),
        refusal(true, true, false, None) == Some("context_collector_unavailable"@),
{
}

} // verus!
