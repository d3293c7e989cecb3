//! A compact, text-only view of a captured context.
use crate::context_manifest::AxNode;
use crate::context_manifest::BrowserContext;
use crate::context_manifest::BrowserElementContext;
use crate::context_manifest::ContextManifest;
use crate::context_manifest::EditorContext;
use crate::context_manifest::OcrDocument;
use crate::context_manifest::VisibleTextBlock;
use crate::outside;
use crate::text;
use vstd::prelude::*;
use vstd::string::*;

verus! {

pub const APP_LIMIT: usize = 100;

pub const TITLE_LIMIT: usize = 180;

pub const EDITOR_META_LIMIT: usize = 120;

pub const SELECTED_LIMIT: usize = 400;

pub const CURSOR_PREFIX_LIMIT: usize = 600;

pub const CURSOR_SUFFIX_LIMIT: usize = 400;

pub const FULL_FIELD_LIMIT: usize = 1_000;

pub const NEARBY_LIMIT: usize = 300;

pub const VISIBLE_BLOCK_LIMIT: usize = 400;

pub const CORRECTOR_CONTEXT_MAX_CHARS: usize = 2_000;

// ---------------------------------------------------------------------------
// Labelled lines within a budget
// ---------------------------------------------------------------------------

/// The words of `s`: the pieces between its white space.
pub open spec fn words(s: Seq<char>) -> Seq<Seq<char>> {
    text::split(s, |c: char| text::is_space(c)).filter(|w: Seq<char>| w.len() > 0)
}

/// `s` with one blank between its words and no other white space.
pub open spec fn squeezed(s: Seq<char>) -> Seq<char> {
    text::join(words(s), " "@)
}

/// `value`, where there is more in it than white space.
pub open spec fn non_empty(value: Option<Seq<char>>) -> Option<Seq<char>> {
    match value {
        Some(s) => if text::trim(s).len() > 0 {
            Some(s)
        } else {
            None
        },
        None => None,
    }
}

/// The first of two values that is there.
pub open spec fn either(a: Option<Seq<char>>, b: Option<Seq<char>>) -> Option<Seq<char>> {
    if a is Some {
        a
    } else {
        b
    }
}

/// The model of a [`FlatTextBuilder`]: the lines so far, the scalar values that
/// they take when joined, and the keys of the values already seen.
#[verifier::ext_equal]
pub struct Flat {
    pub max: int,
    pub used: int,
    pub lines: Seq<Seq<char>>,
    pub seen: Set<Seq<char>>,
}

impl Flat {
    pub open spec fn empty(max: int) -> Flat {
        Flat { max, used: 0, lines: Seq::empty(), seen: Set::empty() }
    }

    /// The lines, joined, take what is counted, and that is within the budget.
    pub open spec fn wf(self) -> bool {
        self.used == text::join(self.lines, "\n"@).len() && self.used <= self.max
    }

    /// What a line takes besides its value: the break before it, its label and
    /// the colon.
    pub open spec fn fixed(self, label: Seq<char>) -> int {
        (if self.lines.len() > 0 {
            1int
        } else {
            0int
        }) + label.len() + 1
    }

    /// With a line for `value`, cut to `limit` and to what is left of the
    /// budget; as it was where the value is missing, blank or already seen, or
    /// where there is no room.
    pub open spec fn push(
        self,
        label: Seq<char>,
        value: Option<Seq<char>>,
        limit: int,
        keep_end: bool,
    ) -> Flat {
        match value {
            None => self,
            Some(value) => {
                let words = squeezed(value);
                let key = outside::unicode_lowercase(words);
                let room = self.max - self.used - self.fixed(label);
                let size = if limit <= room {
                    limit
                } else {
                    room
                };
                let kept = if words.len() <= size {
                    words
                } else if keep_end {
                    words.skip(words.len() - size)
                } else {
                    words.take(size)
                };
                if words.len() == 0 || self.seen.contains(key) || room <= 0 || size <= 0 {
                    self
                } else {
                    Flat {
                        max: self.max,
                        used: self.used + self.fixed(label) + kept.len(),
                        lines: self.lines.push(label + "："@ + kept),
                        seen: self.seen.insert(key),
                    }
                }
            },
        }
    }

    pub open spec fn push_first(
        self,
        label: Seq<char>,
        value: Option<Seq<char>>,
        limit: int,
    ) -> Flat {
        self.push(label, value, limit, false)
    }

    pub open spec fn push_last(
        self,
        label: Seq<char>,
        value: Option<Seq<char>>,
        limit: int,
    ) -> Flat {
        self.push(label, value, limit, true)
    }

    /// With `value` counted as seen.
    pub open spec fn remember(self, value: Option<Seq<char>>) -> Flat {
        match value {
            None => self,
            Some(value) => if squeezed(value).len() == 0 {
                self
            } else {
                Flat { seen: self.seen.insert(outside::unicode_lowercase(squeezed(value))), ..self }
            },
        }
    }

    pub open spec fn push_visible(self, value: Option<Seq<char>>) -> Flat {
        self.push_first("可见文字"@, value, VISIBLE_BLOCK_LIMIT as int)
    }

    /// With the texts of the first `n` blocks.
    pub open spec fn push_blocks(self, blocks: Seq<VisibleTextBlock>, n: int) -> Flat
        decreases n,
    {
        if n <= 0 {
            self
        } else {
            self.push_blocks(blocks, n - 1).push_visible(Some(blocks[n - 1].text@))
        }
    }

    /// With the texts of the first `n` documents.
    pub open spec fn push_documents(self, documents: Seq<OcrDocument>, n: int) -> Flat
        decreases n,
    {
        if n <= 0 {
            self
        } else {
            self.push_documents(documents, n - 1).push_visible(Some(documents[n - 1].text@))
        }
    }

    /// With the texts of the trees under `nodes`, each node before what is
    /// under it.
    pub open spec fn push_nodes(self, nodes: Seq<AxNode>) -> Flat
        decreases nodes,
    {
        if nodes.len() == 0 {
            self
        } else {
            let node = nodes[nodes.len() - 1];
            self.push_nodes(nodes.subrange(0, nodes.len() - 1)).push_visible(
                text::opt(node.title),
            ).push_visible(text::opt(node.value)).push_visible(
                text::opt(node.description),
            ).push_nodes(node.children@)
        }
    }

    /// The lines, joined, where there are any.
    pub open spec fn finish(self) -> Option<Seq<char>> {
        if self.lines.len() == 0 {
            None
        } else {
            Some(text::join(self.lines, "\n"@))
        }
    }
}

/// Collects labelled lines within a budget of scalar values, each value once.
struct FlatTextBuilder {
    max_chars: usize,
    used_chars: usize,
    lines: Vec<String>,
    seen_values: Vec<String>,
}

impl View for FlatTextBuilder {
    type V = Flat;

    closed spec fn view(&self) -> Flat {
        Flat {
            max: self.max_chars as int,
            used: self.used_chars as int,
            lines: text::texts(self.lines@),
            seen: text::texts(self.seen_values@).to_set(),
        }
    }
}

proof fn lemma_push_wf(
    flat: Flat,
    label: Seq<char>,
    value: Option<Seq<char>>,
    limit: int,
    keep_end: bool,
)
    requires
        flat.wf(),
    ensures
        flat.push(label, value, limit, keep_end).wf(),
        flat.push(label, value, limit, keep_end).max == flat.max,
{
    let after = flat.push(label, value, limit, keep_end);
    if after != flat {
        reveal_strlit("\n");
        reveal_strlit("：");
        assert(after.lines.drop_last() =~= flat.lines);
        let line = after.lines.last();
        if flat.lines.len() == 0 {
            assert(text::join(after.lines, "\n"@) == line);
        }
    }
}

/// `value` with one blank between its words.
fn normalize_whitespace(value: &str) -> (r: String)
    ensures
        r@ == squeezed(value@),
{
    let is_cut = |c: char| -> (b: bool)
        ensures
            b == text::is_space(c),
        { text::char_is_space(c) };
    let pieces: Vec<String> = text::split_where(
        value,
        is_cut,
        Ghost(|c: char| text::is_space(c)),
    );
    let ghost all = text::texts(pieces@);
    let ghost keep = |w: Seq<char>| w.len() > 0;
    let mut kept: Vec<String> = Vec::new();
    let mut i: usize = 0;
    proof {
        reveal(Seq::filter);
        assert(all.take(0).filter(keep) =~= Seq::empty());
        assert(text::texts(kept@) =~= Seq::empty());
    }
    while i < pieces.len()
        invariant
            i <= pieces@.len(),
            all == text::texts(pieces@),
            keep == (|w: Seq<char>| w.len() > 0),
            text::texts(kept@) == all.take(i as int).filter(keep),
        decreases pieces@.len() - i,
    {
        let ghost before = text::texts(kept@);
        proof {
            reveal(Seq::filter);
            assert(all.take(i + 1).drop_last() =~= all.take(i as int));
            assert(all.take(i + 1).last() == pieces@[i as int]@);
        }
        if !pieces[i].as_str().is_empty() {
            kept.push(pieces[i].as_str().to_owned());
            assert(text::texts(kept@) =~= before.push(pieces@[i as int]@));
        }
        i = i + 1;
    }
    assert(all.take(i as int) =~= all);
    text::joined(&kept, " ")
}

/// The first `max_chars` scalar values of `value`.
fn take_first_chars(value: &str, max_chars: usize) -> (r: String)
    ensures
        r@ == (if value@.len() <= max_chars {
            value@
        } else {
            value@.take(max_chars as int)
        }),
{
    let chars: Vec<char> = text::to_chars(value);
    if chars.len() <= max_chars {
        return value.to_owned();
    }
    let r: String = text::from_chars(&chars, 0, max_chars);
    assert(r@ =~= value@.take(max_chars as int));
    r
}

/// The last `max_chars` scalar values of `value`.
fn take_last_chars(value: &str, max_chars: usize) -> (r: String)
    ensures
        r@ == (if value@.len() <= max_chars {
            value@
        } else {
            value@.skip(value@.len() - max_chars)
        }),
{
    let chars: Vec<char> = text::to_chars(value);
    let n: usize = chars.len();
    if n <= max_chars {
        return value.to_owned();
    }
    let r: String = text::from_chars(&chars, n - max_chars, n);
    assert(r@ =~= value@.skip(n - max_chars));
    r
}

impl FlatTextBuilder {
    fn new(max_chars: usize) -> (r: Self)
        ensures
            r@ == Flat::empty(max_chars as int),
            r@.wf(),
    {
        let r = Self { max_chars, used_chars: 0, lines: Vec::new(), seen_values: Vec::new() };
        assert(r@ =~= Flat::empty(max_chars as int));
        r
    }

    fn push_first(&mut self, label: &str, value: Option<&String>, field_limit: usize)
        requires
            old(self)@.wf(),
        ensures
            final(self)@ == old(self)@.push_first(label@, text::seen(value), field_limit as int),
            final(self)@.wf(),
    {
        self.push(label, value, field_limit, false);
    }

    fn push_last(&mut self, label: &str, value: Option<&String>, field_limit: usize)
        requires
            old(self)@.wf(),
        ensures
            final(self)@ == old(self)@.push_last(label@, text::seen(value), field_limit as int),
            final(self)@.wf(),
    {
        self.push(label, value, field_limit, true);
    }

    fn has_seen(&self, key: &str) -> (r: bool)
        ensures
            r == self@.seen.contains(key@),
    {
        let mut i: usize = 0;
        while i < self.seen_values.len()
            invariant
                i <= self.seen_values@.len(),
                forall|j: int| 0 <= j < i ==> text::texts(self.seen_values@)[j] != key@,
            decreases self.seen_values@.len() - i,
        {
            if text::same(self.seen_values[i].as_str(), key) {
                assert(text::texts(self.seen_values@)[i as int] == key@);
                return true;
            }
            i = i + 1;
        }
        false
    }

    fn note_seen(&mut self, key: String)
        ensures
            final(self)@ == (Flat { seen: old(self)@.seen.insert(key@), ..old(self)@ }),
    {
        let ghost before = text::texts(self.seen_values@);
        let ghost added = key@;
        if !self.has_seen(key.as_str()) {
            self.seen_values.push(key);
            proof {
                assert(text::texts(self.seen_values@) =~= before.push(added));
                before.lemma_push_to_set_commute(added);
            }
        } else {
            assert(before.to_set().insert(added) =~= before.to_set());
        }
    }

    fn remember(&mut self, value: Option<&String>)
        requires
            old(self)@.wf(),
        ensures
            final(self)@ == old(self)@.remember(text::seen(value)),
            final(self)@.wf(),
    {
        if let Some(value) = value {
            let normalized: String = normalize_whitespace(value.as_str());
            if !normalized.as_str().is_empty() {
                let key: String = outside::to_lowercase(normalized.as_str());
                self.note_seen(key);
            }
        }
    }

    fn push(&mut self, label: &str, value: Option<&String>, field_limit: usize, keep_end: bool)
        requires
            old(self)@.wf(),
        ensures
            final(self)@ == old(self)@.push(label@, text::seen(value), field_limit as int, keep_end),
            final(self)@.wf(),
    {
        proof {
            lemma_push_wf(self@, label@, text::seen(value), field_limit as int, keep_end);
            reveal_strlit("：");
        }
        let value: &String = match value {
            Some(value) => value,
            None => return,
        };
        let normalized: String = normalize_whitespace(value.as_str());
        if normalized.as_str().is_empty() {
            return;
        }
        let dedupe_key: String = outside::to_lowercase(normalized.as_str());
        if self.has_seen(dedupe_key.as_str()) {
            return;
        }
        let label_chars: usize = text::to_chars(label).len();
        let separator_chars: usize = if self.lines.len() > 0 {
            1
        } else {
            0
        };
        let left: usize = self.max_chars - self.used_chars;
        if left <= separator_chars || left - separator_chars <= 1 || left - separator_chars - 1
            <= label_chars {
            return;
        }
        let fixed_chars: usize = separator_chars + 1 + label_chars;
        let available: usize = left - fixed_chars;
        let value_limit: usize = if field_limit <= available {
            field_limit
        } else {
            available
        };
        if value_limit == 0 {
            return;
        }
        let kept: String = if keep_end {
            take_last_chars(normalized.as_str(), value_limit)
        } else {
            take_first_chars(normalized.as_str(), value_limit)
        };
        let count: usize = text::to_chars(kept.as_str()).len();
        let mut line: String = label.to_owned();
        line.append("：");
        line.append(kept.as_str());
        let ghost lines = text::texts(self.lines@);
        let ghost last = line@;
        self.used_chars = self.used_chars + fixed_chars + count;
        self.lines.push(line);
        assert(text::texts(self.lines@) =~= lines.push(last));
        self.note_seen(dedupe_key);
    }

    fn finish(self) -> (r: Option<String>)
        ensures
            text::opt(r) == self@.finish(),
    {
        if self.lines.len() == 0 {
            None
        } else {
            Some(text::joined(&self.lines, "\n"))
        }
    }
}

// ---------------------------------------------------------------------------
// The view of a manifest
// ---------------------------------------------------------------------------

/// A text of the focused field, where there is a field.
pub open spec fn of_editor(
    m: ContextManifest,
    field: spec_fn(EditorContext) -> Option<String>,
) -> Option<Seq<char>> {
    match m.editor {
        Some(editor) => text::opt(field(editor)),
        None => None,
    }
}

/// A text of the page, where there is a page.
pub open spec fn of_browser(
    m: ContextManifest,
    field: spec_fn(BrowserContext) -> Option<String>,
) -> Option<Seq<char>> {
    match m.browser {
        Some(browser) => text::opt(field(browser)),
        None => None,
    }
}

/// A text of the page's focused element, where there is one.
pub open spec fn of_element(
    m: ContextManifest,
    field: spec_fn(BrowserElementContext) -> Option<String>,
) -> Option<Seq<char>> {
    match m.element() {
        Some(element) => text::opt(field(element)),
        None => None,
    }
}

/// What is selected: in the field, or else on the page.
pub open spec fn selected(m: ContextManifest) -> Option<Seq<char>> {
    either(
        non_empty(of_editor(m, |e: EditorContext| e.selected_text)),
        non_empty(of_browser(m, |b: BrowserContext| b.selection_text)),
    )
}

/// What stands before the cursor: in the field, or else on the page.
pub open spec fn before_cursor(m: ContextManifest) -> Option<Seq<char>> {
    either(
        non_empty(of_editor(m, |e: EditorContext| e.cursor_prefix)),
        non_empty(of_browser(m, |b: BrowserContext| b.nearby_before)),
    )
}

/// What stands after the cursor: in the field, or else on the page.
pub open spec fn after_cursor(m: ContextManifest) -> Option<Seq<char>> {
    either(
        non_empty(of_editor(m, |e: EditorContext| e.cursor_suffix)),
        non_empty(of_browser(m, |b: BrowserContext| b.nearby_after)),
    )
}

/// The lines on the text at the cursor. The whole field is shown only where
/// nothing is known of the cursor; it counts as seen in any case.
pub open spec fn cursor_lines(m: ContextManifest, flat: Flat) -> Flat {
    let whole = of_editor(m, |e: EditorContext| e.full_field_text);
    let value = of_element(m, |e: BrowserElementContext| e.value);
    let at_cursor = flat.push_first("选中文字"@, selected(m), SELECTED_LIMIT as int).push_first(
        "光标后"@,
        after_cursor(m),
        CURSOR_SUFFIX_LIMIT as int,
    ).push_last("光标前"@, before_cursor(m), CURSOR_PREFIX_LIMIT as int);
    let all = if before_cursor(m) is None && after_cursor(m) is None {
        at_cursor.push_first(
            "输入框全文"@,
            either(non_empty(whole), non_empty(value)),
            FULL_FIELD_LIMIT as int,
        )
    } else {
        at_cursor
    };
    all.remember(either(whole, value))
}

/// The lines on the application and the page.
pub open spec fn place_lines(m: ContextManifest, flat: Flat) -> Flat {
    let with_target = match m.target {
        Some(target) => flat.push_first(
            "应用"@,
            text::opt(target.app_name),
            APP_LIMIT as int,
        ).push_first("窗口"@, text::opt(target.window_title), TITLE_LIMIT as int),
        None => flat,
    };
    match m.browser {
        Some(browser) => with_target.push_first(
            "网页"@,
            text::opt(browser.title),
            TITLE_LIMIT as int,
        ).push_first("域名"@, text::opt(browser.domain), APP_LIMIT as int),
        None => with_target,
    }
}

/// The lines on what the field is: the focused field, or else the page's
/// focused element.
pub open spec fn field_lines(m: ContextManifest, flat: Flat) -> Flat {
    let limit = EDITOR_META_LIMIT as int;
    match m.editor {
        Some(e) => flat.push_first("输入框角色"@, text::opt(e.role), limit).push_first(
            "输入框名称"@,
            text::opt(e.label),
            limit,
        ).push_first("输入框提示"@, text::opt(e.placeholder), limit),
        None => match m.element() {
            Some(e) => flat.push_first("输入框角色"@, text::opt(e.role), limit).push_first(
                "输入框名称"@,
                text::opt(e.aria_label),
                limit,
            ).push_first("输入框提示"@, text::opt(e.placeholder), limit),
            None => flat,
        },
    }
}

/// The lines on what stands around the field.
pub open spec fn nearby_lines(m: ContextManifest, flat: Flat) -> Flat {
    flat.push_last(
        "输入框前文"@,
        either(
            non_empty(of_editor(m, |e: EditorContext| e.nearby_before)),
            non_empty(of_element(m, |e: BrowserElementContext| e.sibling_before)),
        ),
        NEARBY_LIMIT as int,
    ).push_first(
        "输入框后文"@,
        either(
            non_empty(of_editor(m, |e: EditorContext| e.nearby_after)),
            non_empty(of_element(m, |e: BrowserElementContext| e.sibling_after)),
        ),
        NEARBY_LIMIT as int,
    )
}

/// The lines on the visible text: fused, where that is there, or else of each
/// source.
pub open spec fn visible_lines(m: ContextManifest, flat: Flat) -> Flat {
    if m.visible_text_fused matches Some(fused) && fused.blocks@.len() > 0 {
        let blocks = m.visible_text_fused->0.blocks@;
        flat.push_blocks(blocks, blocks.len() as int)
    } else {
        let with_page = match m.browser {
            Some(browser) => flat.push_blocks(
                browser.viewport_text_blocks@,
                browser.viewport_text_blocks@.len() as int,
            ),
            None => flat,
        };
        let with_tree = match m.ax_visible {
            Some(tree) => with_page.push_nodes(tree.roots@),
            None => with_page,
        };
        with_tree.push_documents(m.ocr_documents@, m.ocr_documents@.len() as int)
    }
}

/// All lines of the view, with a budget of `max`.
pub open spec fn all_lines(m: ContextManifest, max: int) -> Flat {
    visible_lines(
        m,
        nearby_lines(m, field_lines(m, place_lines(m, cursor_lines(m, Flat::empty(max))))),
    )
}

/// The compact view of a manifest; none where text may not be kept or the focus
/// is on a secure field.
pub open spec fn flatten(m: ContextManifest, max: int) -> Option<Seq<char>> {
    if max == 0 || !m.privacy.raw_text_allowed || m.secure_focus() {
        None
    } else {
        all_lines(m, max).finish()
    }
}

/// `value`, where there is more in it than white space.
fn not_blank<'a>(value: Option<&'a String>) -> (r: Option<&'a String>)
    ensures
        text::seen(r) == non_empty(text::seen(value)),
{
    match value {
        Some(s) => if text::is_blank(s.as_str()) {
            None
        } else {
            Some(s)
        },
        None => None,
    }
}

/// The first of two values that is there.
fn first_of<'a>(a: Option<&'a String>, b: Option<&'a String>) -> (r: Option<&'a String>)
    ensures
        text::seen(r) == either(text::seen(a), text::seen(b)),
{
    match a {
        Some(s) => Some(s),
        None => b,
    }
}

fn push_blocks(out: &mut FlatTextBuilder, blocks: &Vec<VisibleTextBlock>)
    requires
        old(out)@.wf(),
    ensures
        final(out)@ == old(out)@.push_blocks(blocks@, blocks@.len() as int),
        final(out)@.wf(),
{
    let ghost start = out@;
    let mut i: usize = 0;
    while i < blocks.len()
        invariant
            i <= blocks@.len(),
            out@ == start.push_blocks(blocks@, i as int),
            out@.wf(),
        decreases blocks@.len() - i,
    {
        out.push_first("可见文字", Some(&blocks[i].text), VISIBLE_BLOCK_LIMIT);
        i = i + 1;
    }
}

fn push_documents(out: &mut FlatTextBuilder, documents: &Vec<OcrDocument>)
    requires
        old(out)@.wf(),
    ensures
        final(out)@ == old(out)@.push_documents(documents@, documents@.len() as int),
        final(out)@.wf(),
{
    let ghost start = out@;
    let mut i: usize = 0;
    while i < documents.len()
        invariant
            i <= documents@.len(),
            out@ == start.push_documents(documents@, i as int),
            out@.wf(),
        decreases documents@.len() - i,
    {
        out.push_first("可见文字", Some(&documents[i].text), VISIBLE_BLOCK_LIMIT);
        i = i + 1;
    }
}

/// The texts of the trees under `nodes`.
fn push_ax_text(out: &mut FlatTextBuilder, nodes: &Vec<AxNode>)
    requires
        old(out)@.wf(),
    ensures
        final(out)@ == old(out)@.push_nodes(nodes@),
        final(out)@.wf(),
    decreases nodes,
{
    let ghost start = out@;
    let mut i: usize = 0;
    assert(nodes@.subrange(0, 0) =~= Seq::empty());
    while i < nodes.len()
        invariant
            i <= nodes@.len(),
            out@ == start.push_nodes(nodes@.subrange(0, i as int)),
            out@.wf(),
        decreases nodes@.len() - i,
    {
        let node: &AxNode = &nodes[i];
        out.push_first("可见文字", node.title.as_ref(), VISIBLE_BLOCK_LIMIT);
        out.push_first("可见文字", node.value.as_ref(), VISIBLE_BLOCK_LIMIT);
        out.push_first("可见文字", node.description.as_ref(), VISIBLE_BLOCK_LIMIT);
        push_ax_text(out, &node.children);
        proof {
            let upto = nodes@.subrange(0, i + 1);
            assert(upto.subrange(0, upto.len() - 1) =~= nodes@.subrange(0, i as int));
        }
        i = i + 1;
    }
    assert(nodes@.subrange(0, i as int) =~= nodes@);
}

fn push_cursor(out: &mut FlatTextBuilder, m: &ContextManifest)
    requires
        old(out)@.wf(),
    ensures
        final(out)@ == cursor_lines(*m, old(out)@),
        final(out)@.wf(),
{
    let mut editor_selected: Option<&String> = None;
    let mut editor_prefix: Option<&String> = None;
    let mut editor_suffix: Option<&String> = None;
    let mut editor_whole: Option<&String> = None;
    if let Some(editor) = &m.editor {
        editor_selected = editor.selected_text.as_ref();
        editor_prefix = editor.cursor_prefix.as_ref();
        editor_suffix = editor.cursor_suffix.as_ref();
        editor_whole = editor.full_field_text.as_ref();
    }
    let mut page_selected: Option<&String> = None;
    let mut page_before: Option<&String> = None;
    let mut page_after: Option<&String> = None;
    let mut element_value: Option<&String> = None;
    if let Some(browser) = &m.browser {
        page_selected = browser.selection_text.as_ref();
        page_before = browser.nearby_before.as_ref();
        page_after = browser.nearby_after.as_ref();
        if let Some(element) = &browser.focused_element {
            element_value = element.value.as_ref();
        }
    }
    let selected: Option<&String> = first_of(not_blank(editor_selected), not_blank(page_selected));
    let prefix: Option<&String> = first_of(not_blank(editor_prefix), not_blank(page_before));
    let suffix: Option<&String> = first_of(not_blank(editor_suffix), not_blank(page_after));
    out.push_first("选中文字", selected, SELECTED_LIMIT);
    out.push_first("光标后", suffix, CURSOR_SUFFIX_LIMIT);
    out.push_last("光标前", prefix, CURSOR_PREFIX_LIMIT);
    if prefix.is_none() && suffix.is_none() {
        out.push_first(
            "输入框全文",
            first_of(not_blank(editor_whole), not_blank(element_value)),
            FULL_FIELD_LIMIT,
        );
    }
    out.remember(first_of(editor_whole, element_value));
}

fn push_place(out: &mut FlatTextBuilder, m: &ContextManifest)
    requires
        old(out)@.wf(),
    ensures
        final(out)@ == place_lines(*m, old(out)@),
        final(out)@.wf(),
{
    if let Some(target) = &m.target {
        out.push_first("应用", target.app_name.as_ref(), APP_LIMIT);
        out.push_first("窗口", target.window_title.as_ref(), TITLE_LIMIT);
    }
    // The parsed domain only: a full address may hold paths, query values,
    // fragments, document ids or access tokens.
    if let Some(browser) = &m.browser {
        out.push_first("网页", browser.title.as_ref(), TITLE_LIMIT);
        out.push_first("域名", browser.domain.as_ref(), APP_LIMIT);
    }
}

fn push_field(out: &mut FlatTextBuilder, m: &ContextManifest)
    requires
        old(out)@.wf(),
    ensures
        final(out)@ == field_lines(*m, old(out)@),
        final(out)@.wf(),
{
    if let Some(editor) = &m.editor {
        out.push_first("输入框角色", editor.role.as_ref(), EDITOR_META_LIMIT);
        out.push_first("输入框名称", editor.label.as_ref(), EDITOR_META_LIMIT);
        out.push_first("输入框提示", editor.placeholder.as_ref(), EDITOR_META_LIMIT);
    } else if let Some(browser) = &m.browser {
        if let Some(element) = &browser.focused_element {
            out.push_first("输入框角色", element.role.as_ref(), EDITOR_META_LIMIT);
            out.push_first("输入框名称", element.aria_label.as_ref(), EDITOR_META_LIMIT);
            out.push_first("输入框提示", element.placeholder.as_ref(), EDITOR_META_LIMIT);
        }
    }
}

fn push_nearby(out: &mut FlatTextBuilder, m: &ContextManifest)
    requires
        old(out)@.wf(),
    ensures
        final(out)@ == nearby_lines(*m, old(out)@),
        final(out)@.wf(),
{
    let mut editor_before: Option<&String> = None;
    let mut editor_after: Option<&String> = None;
    if let Some(editor) = &m.editor {
        editor_before = editor.nearby_before.as_ref();
        editor_after = editor.nearby_after.as_ref();
    }
    let mut element_before: Option<&String> = None;
    let mut element_after: Option<&String> = None;
    if let Some(browser) = &m.browser {
        if let Some(element) = &browser.focused_element {
            element_before = element.sibling_before.as_ref();
            element_after = element.sibling_after.as_ref();
        }
    }
    let before: Option<&String> = first_of(not_blank(editor_before), not_blank(element_before));
    let after: Option<&String> = first_of(not_blank(editor_after), not_blank(element_after));
    out.push_last("输入框前文", before, NEARBY_LIMIT);
    out.push_first("输入框后文", after, NEARBY_LIMIT);
}

fn push_visible(out: &mut FlatTextBuilder, m: &ContextManifest)
    requires
        old(out)@.wf(),
    ensures
        final(out)@ == visible_lines(*m, old(out)@),
        final(out)@.wf(),
{
    if let Some(fused) = &m.visible_text_fused {
        if fused.blocks.len() > 0 {
            push_blocks(out, &fused.blocks);
            return;
        }
    }
    if let Some(browser) = &m.browser {
        push_blocks(out, &browser.viewport_text_blocks);
    }
    if let Some(tree) = &m.ax_visible {
        push_ax_text(out, &tree.roots);
    }
    push_documents(out, &m.ocr_documents);
}

/// Build a compact, text-only view for the corrector.
///
/// The view intentionally excludes addresses, coordinates, trees, source
/// references, screenshots and diagnostics. Those remain in the local manifest
/// and are not useful to a text correction model.
pub fn flatten_for_corrector(manifest: &ContextManifest, max_chars: usize) -> (r: Option<String>)
    ensures
        text::opt(r) == flatten(*manifest, max_chars as int),
        r matches Some(view) ==> view@.len() <= max_chars,
{
    if max_chars == 0 || !manifest.privacy.raw_text_allowed || manifest.has_secure_focus() {
        return None;
    }
    let mut out = FlatTextBuilder::new(max_chars);
    push_cursor(&mut out, manifest);
    push_place(&mut out, manifest);
    push_field(&mut out, manifest);
    push_nearby(&mut out, manifest);
    push_visible(&mut out, manifest);
    proof {
        lemma_all_lines(*manifest, max_chars as int);
    }
    out.finish()
}

// ---------------------------------------------------------------------------
// Laws
// ---------------------------------------------------------------------------

/// What a push keeps: the invariant, the budget, the lines so far and the keys
/// seen so far.
pub open spec fn extends(after: Flat, before: Flat) -> bool {
    &&& after.wf()
    &&& after.max == before.max
    &&& before.lines.len() <= after.lines.len()
    &&& after.lines.take(before.lines.len() as int) == before.lines
    &&& before.seen.subset_of(after.seen)
}

/// Pushing a value only ever adds to a builder: the lines so far stay, in
/// order, the values seen so far stay seen, and the budget is kept.
pub proof fn push_extends(
    flat: Flat,
    label: Seq<char>,
    value: Option<Seq<char>>,
    limit: int,
    keep_end: bool,
)
    requires
        flat.wf(),
    ensures
        extends(flat.push(label, value, limit, keep_end), flat),
{
    lemma_push_wf(flat, label, value, limit, keep_end);
    let after = flat.push(label, value, limit, keep_end);
    assert(after.lines.take(flat.lines.len() as int) =~= flat.lines);
}

/// A value that was pushed before, or one that differs from it only in its
/// white space or in case, adds nothing.
pub proof fn push_is_once(
    flat: Flat,
    label: Seq<char>,
    value: Seq<char>,
    limit: int,
    keep_end: bool,
    other_label: Seq<char>,
    other_value: Seq<char>,
    other_limit: int,
    other_keep_end: bool,
)
    requires
        flat.push(label, Some(value), limit, keep_end) != flat,
        outside::unicode_lowercase(squeezed(value)) == outside::unicode_lowercase(
            squeezed(other_value),
        ),
    ensures
        ({
            let after = flat.push(label, Some(value), limit, keep_end);
            after.push(other_label, Some(other_value), other_limit, other_keep_end) == after
        }),
{
}

proof fn lemma_nodes(flat: Flat, nodes: Seq<AxNode>)
    requires
        flat.wf(),
    ensures
        flat.push_nodes(nodes).wf(),
        flat.push_nodes(nodes).max == flat.max,
    decreases nodes,
{
    if nodes.len() > 0 {
        let node = nodes[nodes.len() - 1];
        let rest = nodes.subrange(0, nodes.len() - 1);
        lemma_nodes(flat, rest);
        let limit = VISIBLE_BLOCK_LIMIT as int;
        let a = flat.push_nodes(rest);
        lemma_push_wf(a, "可见文字"@, text::opt(node.title), limit, false);
        let b = a.push_visible(text::opt(node.title));
        lemma_push_wf(b, "可见文字"@, text::opt(node.value), limit, false);
        let c = b.push_visible(text::opt(node.value));
        lemma_push_wf(c, "可见文字"@, text::opt(node.description), limit, false);
        let d = c.push_visible(text::opt(node.description));
        lemma_nodes(d, node.children@);
    }
}

proof fn lemma_blocks(flat: Flat, blocks: Seq<VisibleTextBlock>, n: int)
    requires
        flat.wf(),
    ensures
        flat.push_blocks(blocks, n).wf(),
        flat.push_blocks(blocks, n).max == flat.max,
    decreases n,
{
    if n > 0 {
        lemma_blocks(flat, blocks, n - 1);
        lemma_push_wf(
            flat.push_blocks(blocks, n - 1),
            "可见文字"@,
            Some(blocks[n - 1].text@),
            VISIBLE_BLOCK_LIMIT as int,
            false,
        );
    }
}

proof fn lemma_documents(flat: Flat, documents: Seq<OcrDocument>, n: int)
    requires
        flat.wf(),
    ensures
        flat.push_documents(documents, n).wf(),
        flat.push_documents(documents, n).max == flat.max,
    decreases n,
{
    if n > 0 {
        lemma_documents(flat, documents, n - 1);
        lemma_push_wf(
            flat.push_documents(documents, n - 1),
            "可见文字"@,
            Some(documents[n - 1].text@),
            VISIBLE_BLOCK_LIMIT as int,
            false,
        );
    }
}

proof fn lemma_all_lines(m: ContextManifest, max: int)
    requires
        0 <= max,
    ensures
        all_lines(m, max).wf(),
        all_lines(m, max).max == max,
{
    assert forall|flat: Flat, label: Seq<char>, value: Option<Seq<char>>, limit: int, end: bool|
        flat.wf() implies (#[trigger] flat.push(label, value, limit, end)).wf() && flat.push(
        label,
        value,
        limit,
        end,
    ).max == flat.max by {
        lemma_push_wf(flat, label, value, limit, end);
    }
    let a = cursor_lines(m, Flat::empty(max));
    let b = nearby_lines(m, field_lines(m, place_lines(m, a)));
    assert(b.wf() && b.max == max);
    if m.visible_text_fused matches Some(fused) && fused.blocks@.len() > 0 {
        let blocks = m.visible_text_fused->0.blocks@;
        lemma_blocks(b, blocks, blocks.len() as int);
    } else {
        let c = match m.browser {
            Some(browser) => {
                let blocks = browser.viewport_text_blocks@;
                lemma_blocks(b, blocks, blocks.len() as int);
                b.push_blocks(blocks, blocks.len() as int)
            },
            None => b,
        };
        let d = match m.ax_visible {
            Some(tree) => {
                lemma_nodes(c, tree.roots@);
                c.push_nodes(tree.roots@)
            },
            None => c,
        };
        lemma_documents(d, m.ocr_documents@, m.ocr_documents@.len() as int);
    }
}

/// The view is within its budget, and there is none of a secure field or of
/// text that may not be kept.
pub proof fn view_is_bounded_and_private(m: ContextManifest, max: int)
    requires
        0 <= max,
    ensures
        flatten(m, max) matches Some(view) ==> view.len() <= max,
        m.secure_focus() || !m.privacy.raw_text_allowed ==> flatten(m, max) is None,
{
    lemma_all_lines(m, max);
}

// ---------------------------------------------------------------------------
// Laws of the view
// ---------------------------------------------------------------------------

/// Squeezing takes all white space away but one blank between two words, word by word.
pub proof fn squeezing_keeps_the_words(before: Seq<char>, space: char, word: Seq<char>)
    requires
        text::is_space(space),
        word.len() > 0,
        forall|i: int| 0 <= i < word.len() ==> !text::is_space(#[trigger] word[i]),
    ensures
        squeezed(Seq::empty()) == Seq::<char>::empty(),
        squeezed(word) == word,
        squeezed(before.push(space)) == squeezed(before),
        squeezed(before).len() > 0 ==> squeezed(before.push(space) + word) == squeezed(before)
            + seq![' '] + word,
        squeezed(before).len() == 0 ==> squeezed(before.push(space) + word) == word,
{
    let cut = |c: char| text::is_space(c);
    let keep = |w: Seq<char>| w.len() > 0;
    let none = Seq::<char>::empty();
    let head = text::split(before, cut);
    reveal(Seq::filter);
    reveal_strlit(" ");
    assert(" "@ =~= seq![' ']);
    assert(text::split(none, cut) =~= seq![none]);
    assert(seq![none].drop_last() =~= Seq::empty());
    assert(Seq::<Seq<char>>::empty().filter(keep) =~= Seq::empty());
    assert(words(none) =~= Seq::empty());
    assert(squeezed(none) =~= none);
    assert(before.push(space).drop_last() =~= before);
    assert(text::split(before.push(space), cut) == head.push(none));
    assert(head.push(none).drop_last() =~= head);
    assert(words(before.push(space)) == words(before));
    lemma_word_behind(before.push(space), word);
    assert(text::split(before.push(space) + word, cut) =~= head.push(word));
    assert(head.push(word).drop_last() =~= head);
    assert(words(before.push(space) + word) == words(before).push(word));
    lemma_word_behind(none, word);
    assert(none + word =~= word);
    assert(none + word =~= word);
    assert(text::split(word, cut) =~= Seq::<Seq<char>>::empty().push(word));
    assert(Seq::<Seq<char>>::empty().push(word).drop_last() =~= Seq::empty());
    assert(words(word) =~= seq![word]);
    lemma_joined_behind(Seq::empty(), word);
    lemma_joined_behind(words(before), word);
    assert(Seq::<Seq<char>>::empty().push(word) =~= seq![word]);
    lemma_words_are_solid(before);
    lemma_solid_join(words(before));
    if words(before).len() == 0 {
        assert(words(before) =~= Seq::empty());
    }
}

proof fn lemma_word_behind(before: Seq<char>, word: Seq<char>)
    requires
        forall|i: int| 0 <= i < word.len() ==> !text::is_space(#[trigger] word[i]),
    ensures
        ({
            let cut = |c: char| text::is_space(c);
            let head = text::split(before, cut);
            text::split(before + word, cut) == head.drop_last().push(head.last() + word)
        }),
    decreases word.len(),
{
    let cut = |c: char| text::is_space(c);
    let head = text::split(before, cut);
    text::lemma_split_nonempty(before, cut);
    if word.len() > 0 {
        let w = word.drop_last();
        assert forall|i: int| 0 <= i < w.len() implies !text::is_space(#[trigger] w[i]) by {
            assert(w[i] == word[i]);
        }
        lemma_word_behind(before, w);
        assert((before + word).drop_last() =~= before + w);
        assert((before + word).last() == word[word.len() - 1]);
        let mid = head.drop_last().push(head.last() + w);
        assert(mid.drop_last() =~= head.drop_last());
        assert((head.last() + w).push(word.last()) =~= head.last() + word);
    } else {
        assert(before + word =~= before);
        assert(head.last() + word =~= head.last());
        assert(head.drop_last().push(head.last()) =~= head);
    }
}

proof fn lemma_joined_behind(list: Seq<Seq<char>>, word: Seq<char>)
    ensures
        list.len() == 0 ==> text::join(list.push(word), " "@) == word,
        list.len() > 0 ==> text::join(list.push(word), " "@) == text::join(list, " "@) + " "@
            + word,
{
    assert(list.push(word).drop_last() =~= list);
}

proof fn lemma_words_are_solid(s: Seq<char>)
    ensures
        forall|i: int| 0 <= i < words(s).len() ==> (#[trigger] words(s)[i]).len() > 0,
{
    let cut = |c: char| text::is_space(c);
    let keep = |w: Seq<char>| w.len() > 0;
    let all = text::split(s, cut);
    assert forall|i: int| 0 <= i < words(s).len() implies (#[trigger] words(s)[i]).len() > 0 by {
        all.lemma_filter_pred(keep, i);
    }
}

proof fn lemma_solid_join(list: Seq<Seq<char>>)
    requires
        forall|i: int| 0 <= i < list.len() ==> (#[trigger] list[i]).len() > 0,
    ensures
        text::join(list, " "@).len() == 0 <==> list.len() == 0,
{
    if list.len() > 0 {
        let before = list.drop_last();
        assert(before.push(list.last()) =~= list);
        lemma_joined_behind(before, list.last());
    }
}

/// What is told of a value in a line: all of its words where they are within the limit and
/// the room that is left, and the first or the last of their scalar values otherwise.
pub proof fn new_value_is_told(
    flat: Flat,
    label: Seq<char>,
    value: Seq<char>,
    limit: int,
    keep_end: bool,
)
    requires
        limit > 0,
        squeezed(value).len() > 0,
        !flat.seen.contains(outside::unicode_lowercase(squeezed(value))),
    ensures
        ({
            let after = flat.push(label, Some(value), limit, keep_end);
            let told = squeezed(value);
            let break_len: int = if flat.lines.len() > 0 {
                1
            } else {
                0
            };
            let room = flat.max - flat.used - break_len - label.len() - 1;
            &&& room <= 0 ==> after == flat
            &&& room > 0 ==> after.lines.len() == flat.lines.len() + 1
            &&& told.len() <= limit && told.len() <= room ==> after.lines == flat.lines.push(
                label + "："@ + told,
            ) && after.used == flat.used + break_len + label.len() + 1 + told.len()
            &&& room >= limit && told.len() > limit && !keep_end ==> after.lines.last() == label
                + "："@ + told.subrange(0, limit)
            &&& room >= limit && told.len() > limit && keep_end ==> after.lines.last() == label
                + "："@ + told.subrange(told.len() - limit, told.len() as int)
            &&& 0 < room < limit && told.len() > room && !keep_end ==> after.lines.last() == label
                + "："@ + told.subrange(0, room)
            &&& 0 < room < limit && told.len() > room && keep_end ==> after.lines.last() == label
                + "："@ + told.subrange(told.len() - room, told.len() as int)
            &&& room > 0 ==> after.seen.contains(outside::unicode_lowercase(told))
            &&& after.max == flat.max
        }),
{
    let told = squeezed(value);
    let break_len: int = if flat.lines.len() > 0 {
        1
    } else {
        0
    };
    let room = flat.max - flat.used - break_len - label.len() - 1;
    if told.len() > limit && room >= limit {
        assert(told.take(limit) =~= told.subrange(0, limit));
        assert(told.skip(told.len() - limit) =~= told.subrange(
            told.len() - limit,
            told.len() as int,
        ));
    }
    if 0 < room < told.len() {
        assert(told.take(room) =~= told.subrange(0, room));
        assert(told.skip(told.len() - room) =~= told.subrange(told.len() - room, told.len() as int));
    }
}

/// A value that is missing, blank or already seen adds no line.
pub proof fn old_value_is_not_told(
    flat: Flat,
    label: Seq<char>,
    value: Seq<char>,
    limit: int,
    keep_end: bool,
)
    ensures
        flat.push(label, None, limit, keep_end) == flat,
        squeezed(value).len() == 0 || flat.seen.contains(
            outside::unicode_lowercase(squeezed(value)),
        ) ==> flat.push(label, Some(value), limit, keep_end) == flat,
        flat.remember(None) == flat,
        flat.remember(Some(value)).lines == flat.lines,
        squeezed(value).len() > 0 ==> flat.remember(Some(value)).seen.contains(
            outside::unicode_lowercase(squeezed(value)),
        ),
{
}

/// `flat` has room for `value` in a line of at most `limit`, and has not seen it.
pub open spec fn takes(flat: Flat, label: Seq<char>, value: Seq<char>, limit: int) -> bool {
    &&& 0 < squeezed(value).len() <= limit
    &&& !flat.seen.contains(outside::unicode_lowercase(squeezed(value)))
    &&& flat.used + 1 + label.len() + 1 + squeezed(value).len() <= flat.max
}

/// The line of a value.
pub open spec fn told(label: Seq<char>, value: Seq<char>) -> Seq<char> {
    label + "："@ + squeezed(value)
}

/// The first line of a view tells what is selected in the field, or else on the page;
/// where nothing is, it tells what stands after the cursor, or else before it, or else the
/// whole field.
pub proof fn text_at_the_cursor_is_told_first(m: ContextManifest, max: int, value: Seq<char>)
    requires
        m.privacy.raw_text_allowed,
        !m.secure_focus(),
        squeezed(value).len() > 0,
        text::trim(value).len() > 0,
        squeezed(value).len() + 7 <= max,
    ensures
        m.editor is Some && text::opt(m.editor->0.selected_text) == Some(value) &&
            squeezed(value).len() <= 400 ==> flatten(m, max) is Some && all_lines(m, max).lines[0]
            == told("选中文字"@, value),
        m.editor is None && m.browser is Some && text::opt(m.browser->0.selection_text) ==
            Some(value) && squeezed(value).len() <= 400 ==> flatten(m, max) is Some &&
            all_lines(m, max).lines[0] == told("选中文字"@, value),
        m.browser is None && m.editor is Some && m.editor->0.selected_text is None &&
            text::opt(m.editor->0.cursor_suffix) == Some(value) && squeezed(value).len() <= 400
            ==> flatten(m, max) is Some && all_lines(m, max).lines[0] == told("光标后"@, value),
        m.browser is None && m.editor is Some && m.editor->0.selected_text is None &&
            m.editor->0.cursor_suffix is None && text::opt(m.editor->0.cursor_prefix) ==
            Some(value) && squeezed(value).len() <= 600 ==> flatten(m, max) is Some &&
            all_lines(m, max).lines[0] == told("光标前"@, value),
        m.editor is None && m.browser is Some && m.browser->0.selection_text is None &&
            text::opt(m.browser->0.nearby_after) == Some(value) && squeezed(value).len() <= 400
            ==> flatten(m, max) is Some && all_lines(m, max).lines[0] == told("光标后"@, value),
        m.editor is None && m.browser is Some && m.browser->0.selection_text is None &&
            m.browser->0.nearby_after is None && text::opt(m.browser->0.nearby_before) ==
            Some(value) && squeezed(value).len() <= 600 ==> flatten(m, max) is Some &&
            all_lines(m, max).lines[0] == told("光标前"@, value),
        m.browser is None && m.editor is Some && m.editor->0.selected_text is None &&
            m.editor->0.cursor_suffix is None && m.editor->0.cursor_prefix is None &&
            text::opt(m.editor->0.full_field_text) == Some(value) && squeezed(value).len() <=
            1_000 ==> flatten(m, max) is Some && all_lines(m, max).lines[0] == told("输入框全文"@,
            value),
{
    reveal_strlit("选中文字");
    reveal_strlit("光标后");
    reveal_strlit("光标前");
    reveal_strlit("输入框全文");
    let start = Flat::empty(max);
    reveal_strlit("\n");
    assert(text::join(start.lines, "\n"@).len() == 0);
    let a = start.push_first("选中文字"@, selected(m), SELECTED_LIMIT as int);
    let b = a.push_first("光标后"@, after_cursor(m), CURSOR_SUFFIX_LIMIT as int);
    let c = b.push_last("光标前"@, before_cursor(m), CURSOR_PREFIX_LIMIT as int);
    push_extends(start, "选中文字"@, selected(m), SELECTED_LIMIT as int, false);
    push_extends(a, "光标后"@, after_cursor(m), CURSOR_SUFFIX_LIMIT as int, false);
    push_extends(b, "光标前"@, before_cursor(m), CURSOR_PREFIX_LIMIT as int, true);
    let at = cursor_lines(m, start);
    let whole = of_editor(m, |e: EditorContext| e.full_field_text);
    let of_page = of_element(m, |e: BrowserElementContext| e.value);
    push_extends(
        c,
        "输入框全文"@,
        either(non_empty(whole), non_empty(of_page)),
        FULL_FIELD_LIMIT as int,
        false,
    );
    lemma_rest_extends(m, max);
    let end = all_lines(m, max);
    if a.lines.len() > 0 {
        assert(b.lines.take(a.lines.len() as int)[0] == b.lines[0]);
    }
    if b.lines.len() > 0 {
        assert(c.lines.take(b.lines.len() as int)[0] == c.lines[0]);
    }
    if c.lines.len() > 0 {
        assert(at.lines.take(c.lines.len() as int)[0] == at.lines[0]);
    }
    if at.lines.len() > 0 {
        assert(end.lines.take(at.lines.len() as int)[0] == end.lines[0]);
    }
}

proof fn lemma_extends_on(a: Flat, b: Flat, c: Flat)
    requires
        extends(b, a),
        extends(c, b),
    ensures
        extends(c, a),
{
    assert(c.lines.take(a.lines.len() as int) =~= c.lines.take(b.lines.len() as int).take(
        a.lines.len() as int,
    ));
}

/// What is told of the text at the cursor stays at the beginning of the view.
proof fn lemma_rest_extends(m: ContextManifest, max: int)
    requires
        max >= 0,
    ensures
        ({
            let start = Flat::empty(max);
            &&& start.wf()
            &&& cursor_lines(m, start).wf()
            &&& place_lines(m, cursor_lines(m, start)).wf()
            &&& field_lines(m, place_lines(m, cursor_lines(m, start))).wf()
            &&& extends(all_lines(m, max), cursor_lines(m, start))
        }),
{
    reveal_strlit("\n");
    let start = Flat::empty(max);
    assert(text::join(start.lines, "\n"@).len() == 0);
    lemma_cursor_wf(m, start);
    let at = cursor_lines(m, start);
    lemma_place_extends(m, at);
    let place = place_lines(m, at);
    lemma_field_extends(m, place);
    let field = field_lines(m, place);
    lemma_nearby_extends(m, field);
    let near = nearby_lines(m, field);
    lemma_visible_extends(m, near);
    lemma_extends_on(at, place, field);
    lemma_extends_on(at, field, near);
    lemma_extends_on(at, near, visible_lines(m, near));
}

proof fn lemma_cursor_wf(m: ContextManifest, start: Flat)
    requires
        start.wf(),
    ensures
        cursor_lines(m, start).wf(),
{
    let a = start.push_first("选中文字"@, selected(m), SELECTED_LIMIT as int);
    let b = a.push_first("光标后"@, after_cursor(m), CURSOR_SUFFIX_LIMIT as int);
    let c = b.push_last("光标前"@, before_cursor(m), CURSOR_PREFIX_LIMIT as int);
    push_extends(start, "选中文字"@, selected(m), SELECTED_LIMIT as int, false);
    push_extends(a, "光标后"@, after_cursor(m), CURSOR_SUFFIX_LIMIT as int, false);
    push_extends(b, "光标前"@, before_cursor(m), CURSOR_PREFIX_LIMIT as int, true);
    let whole = of_editor(m, |e: EditorContext| e.full_field_text);
    let of_page = of_element(m, |e: BrowserElementContext| e.value);
    push_extends(
        c,
        "输入框全文"@,
        either(non_empty(whole), non_empty(of_page)),
        FULL_FIELD_LIMIT as int,
        false,
    );
}

proof fn lemma_same_extends(flat: Flat)
    requires
        flat.wf(),
    ensures
        extends(flat, flat),
{
    assert(flat.lines.take(flat.lines.len() as int) =~= flat.lines);
}

proof fn lemma_place_extends(m: ContextManifest, flat: Flat)
    requires
        flat.wf(),
    ensures
        extends(place_lines(m, flat), flat),
{
    lemma_same_extends(flat);
    let a = match m.target {
        Some(target) => {
            let x = flat.push_first("应用"@, text::opt(target.app_name), APP_LIMIT as int);
            let y = x.push_first("窗口"@, text::opt(target.window_title), TITLE_LIMIT as int);
            push_extends(flat, "应用"@, text::opt(target.app_name), APP_LIMIT as int, false);
            push_extends(x, "窗口"@, text::opt(target.window_title), TITLE_LIMIT as int, false);
            lemma_extends_on(flat, x, y);
            y
        },
        None => flat,
    };
    if let Some(browser) = m.browser {
        let x = a.push_first("网页"@, text::opt(browser.title), TITLE_LIMIT as int);
        let y = x.push_first("域名"@, text::opt(browser.domain), APP_LIMIT as int);
        push_extends(a, "网页"@, text::opt(browser.title), TITLE_LIMIT as int, false);
        push_extends(x, "域名"@, text::opt(browser.domain), APP_LIMIT as int, false);
        lemma_extends_on(flat, a, x);
        lemma_extends_on(flat, x, y);
    }
}

proof fn lemma_three_extend(
    flat: Flat,
    role: Option<Seq<char>>,
    name: Option<Seq<char>>,
    hint: Option<Seq<char>>,
)
    requires
        flat.wf(),
    ensures
        extends(
            flat.push_first("输入框角色"@, role, EDITOR_META_LIMIT as int).push_first(
                "输入框名称"@,
                name,
                EDITOR_META_LIMIT as int,
            ).push_first("输入框提示"@, hint, EDITOR_META_LIMIT as int),
            flat,
        ),
{
    let limit = EDITOR_META_LIMIT as int;
    let x = flat.push_first("输入框角色"@, role, limit);
    let y = x.push_first("输入框名称"@, name, limit);
    let z = y.push_first("输入框提示"@, hint, limit);
    push_extends(flat, "输入框角色"@, role, limit, false);
    push_extends(x, "输入框名称"@, name, limit, false);
    push_extends(y, "输入框提示"@, hint, limit, false);
    lemma_extends_on(flat, x, y);
    lemma_extends_on(flat, y, z);
}

proof fn lemma_field_extends(m: ContextManifest, flat: Flat)
    requires
        flat.wf(),
    ensures
        extends(field_lines(m, flat), flat),
{
    lemma_same_extends(flat);
    if let Some(e) = m.editor {
        lemma_three_extend(flat, text::opt(e.role), text::opt(e.label), text::opt(e.placeholder));
    } else if let Some(e) = m.element() {
        lemma_three_extend(
            flat,
            text::opt(e.role),
            text::opt(e.aria_label),
            text::opt(e.placeholder),
        );
    }
}

proof fn lemma_nearby_extends(m: ContextManifest, flat: Flat)
    requires
        flat.wf(),
    ensures
        extends(nearby_lines(m, flat), flat),
{
    let before = either(
        non_empty(of_editor(m, |e: EditorContext| e.nearby_before)),
        non_empty(of_element(m, |e: BrowserElementContext| e.sibling_before)),
    );
    let after = either(
        non_empty(of_editor(m, |e: EditorContext| e.nearby_after)),
        non_empty(of_element(m, |e: BrowserElementContext| e.sibling_after)),
    );
    let x = flat.push_last("输入框前文"@, before, NEARBY_LIMIT as int);
    push_extends(flat, "输入框前文"@, before, NEARBY_LIMIT as int, true);
    push_extends(x, "输入框后文"@, after, NEARBY_LIMIT as int, false);
    lemma_extends_on(flat, x, nearby_lines(m, flat));
}

proof fn lemma_visible_push(flat: Flat, value: Option<Seq<char>>)
    requires
        flat.wf(),
    ensures
        extends(flat.push_visible(value), flat),
{
    push_extends(flat, "可见文字"@, value, VISIBLE_BLOCK_LIMIT as int, false);
}

proof fn lemma_blocks_extend(flat: Flat, blocks: Seq<VisibleTextBlock>, n: int)
    requires
        flat.wf(),
        n <= blocks.len(),
    ensures
        extends(flat.push_blocks(blocks, n), flat),
    decreases n,
{
    lemma_same_extends(flat);
    if n > 0 {
        lemma_blocks_extend(flat, blocks, n - 1);
        let before = flat.push_blocks(blocks, n - 1);
        lemma_visible_push(before, Some(blocks[n - 1].text@));
        lemma_extends_on(flat, before, flat.push_blocks(blocks, n));
    }
}

proof fn lemma_documents_extend(flat: Flat, documents: Seq<OcrDocument>, n: int)
    requires
        flat.wf(),
        n <= documents.len(),
    ensures
        extends(flat.push_documents(documents, n), flat),
    decreases n,
{
    lemma_same_extends(flat);
    if n > 0 {
        lemma_documents_extend(flat, documents, n - 1);
        let before = flat.push_documents(documents, n - 1);
        lemma_visible_push(before, Some(documents[n - 1].text@));
        lemma_extends_on(flat, before, flat.push_documents(documents, n));
    }
}

proof fn lemma_nodes_extend(flat: Flat, nodes: Seq<AxNode>)
    requires
        flat.wf(),
    ensures
        extends(flat.push_nodes(nodes), flat),
    decreases nodes,
{
    lemma_same_extends(flat);
    if nodes.len() > 0 {
        let node = nodes[nodes.len() - 1];
        let rest = nodes.subrange(0, nodes.len() - 1);
        lemma_nodes_extend(flat, rest);
        let a = flat.push_nodes(rest);
        let b = a.push_visible(text::opt(node.title));
        let c = b.push_visible(text::opt(node.value));
        let d = c.push_visible(text::opt(node.description));
        lemma_visible_push(a, text::opt(node.title));
        lemma_visible_push(b, text::opt(node.value));
        lemma_visible_push(c, text::opt(node.description));
        lemma_nodes_extend(d, node.children@);
        lemma_extends_on(flat, a, b);
        lemma_extends_on(flat, b, c);
        lemma_extends_on(flat, c, d);
        lemma_extends_on(flat, d, d.push_nodes(node.children@));
    }
}

proof fn lemma_visible_extends(m: ContextManifest, flat: Flat)
    requires
        flat.wf(),
    ensures
        extends(visible_lines(m, flat), flat),
{
    lemma_same_extends(flat);
    if m.visible_text_fused matches Some(fused) && fused.blocks@.len() > 0 {
        let blocks = m.visible_text_fused->0.blocks@;
        lemma_blocks_extend(flat, blocks, blocks.len() as int);
    } else {
        let c = match m.browser {
            Some(browser) => {
                let blocks = browser.viewport_text_blocks@;
                lemma_blocks_extend(flat, blocks, blocks.len() as int);
                flat.push_blocks(blocks, blocks.len() as int)
            },
            None => flat,
        };
        let d = match m.ax_visible {
            Some(tree) => {
                lemma_nodes_extend(c, tree.roots@);
                c.push_nodes(tree.roots@)
            },
            None => c,
        };
        let e = d.push_documents(m.ocr_documents@, m.ocr_documents@.len() as int);
        lemma_documents_extend(d, m.ocr_documents@, m.ocr_documents@.len() as int);
        if m.ax_visible is None {
            lemma_same_extends(c);
        }
        lemma_extends_on(flat, c, d);
        lemma_extends_on(flat, d, e);
    }
}

/// The application and its window, and the page and its domain, are told by their names
/// behind what is told already.
pub proof fn place_is_told(m: ContextManifest, flat: Flat, value: Seq<char>)
    ensures
        m.browser is None && m.target is Some && text::opt(m.target->0.app_name) == Some(value) &&
            m.target->0.window_title is None && takes(flat, "应用"@, value, 100) ==> place_lines(m,
            flat).lines == flat.lines.push(told("应用"@, value)),
        m.browser is None && m.target is Some && text::opt(m.target->0.window_title) ==
            Some(value) && m.target->0.app_name is None && takes(flat, "窗口"@, value, 180) ==>
            place_lines(m, flat).lines == flat.lines.push(told("窗口"@, value)),
        m.target is None && m.browser is Some && text::opt(m.browser->0.title) == Some(value) &&
            m.browser->0.domain is None && takes(flat, "网页"@, value, 180) ==> place_lines(m,
            flat).lines == flat.lines.push(told("网页"@, value)),
        m.target is None && m.browser is Some && text::opt(m.browser->0.domain) == Some(value) &&
            m.browser->0.title is None && takes(flat, "域名"@, value, 100) ==> place_lines(m,
            flat).lines == flat.lines.push(told("域名"@, value)),
        m.target is None && m.browser is None ==> place_lines(m, flat) == flat,
{
}

/// What the field is, is told of the focused field, or else of the page's focused element:
/// its role, its name and its hint.
pub proof fn field_is_told(m: ContextManifest, flat: Flat, value: Seq<char>)
    ensures
        m.editor is Some && text::opt(m.editor->0.role) == Some(value) && m.editor->0.label is
            None && m.editor->0.placeholder is None && takes(flat, "输入框角色"@, value, 120) ==>
            field_lines(m, flat).lines == flat.lines.push(told("输入框角色"@, value)),
        m.editor is Some && text::opt(m.editor->0.label) == Some(value) && m.editor->0.role is
            None && m.editor->0.placeholder is None && takes(flat, "输入框名称"@, value, 120) ==>
            field_lines(m, flat).lines == flat.lines.push(told("输入框名称"@, value)),
        m.editor is Some && text::opt(m.editor->0.placeholder) == Some(value) && m.editor->0.role
            is None && m.editor->0.label is None && takes(flat, "输入框提示"@, value, 120) ==>
            field_lines(m, flat).lines == flat.lines.push(told("输入框提示"@, value)),
        m.editor is None && m.browser is Some && m.browser->0.focused_element is Some &&
            text::opt(m.browser->0.focused_element->0.role) == Some(value) &&
            m.browser->0.focused_element->0.aria_label is None &&
            m.browser->0.focused_element->0.placeholder is None && takes(flat, "输入框角色"@, value,
            120) ==> field_lines(m, flat).lines == flat.lines.push(told("输入框角色"@, value)),
        m.editor is None && m.browser is Some && m.browser->0.focused_element is Some &&
            text::opt(m.browser->0.focused_element->0.aria_label) == Some(value) &&
            m.browser->0.focused_element->0.role is None &&
            m.browser->0.focused_element->0.placeholder is None && takes(flat, "输入框名称"@, value,
            120) ==> field_lines(m, flat).lines == flat.lines.push(told("输入框名称"@, value)),
        m.editor is None && m.browser is Some && m.browser->0.focused_element is Some &&
            text::opt(m.browser->0.focused_element->0.placeholder) == Some(value) &&
            m.browser->0.focused_element->0.role is None &&
            m.browser->0.focused_element->0.aria_label is None && takes(flat, "输入框提示"@, value,
            120) ==> field_lines(m, flat).lines == flat.lines.push(told("输入框提示"@, value)),
        m.editor is None && m.browser is None ==> field_lines(m, flat) == flat,
{
}

/// What stands around the field is told of the field, or else of the page's focused
/// element: what is before it and what is after it.
pub proof fn surroundings_are_told(m: ContextManifest, flat: Flat, value: Seq<char>)
    requires
        text::trim(value).len() > 0,
    ensures
        m.browser is None && m.editor is Some && text::opt(m.editor->0.nearby_before) ==
            Some(value) && m.editor->0.nearby_after is None && takes(flat, "输入框前文"@, value, 300)
            ==> nearby_lines(m, flat).lines == flat.lines.push(told("输入框前文"@, value)),
        m.browser is None && m.editor is Some && text::opt(m.editor->0.nearby_after) ==
            Some(value) && m.editor->0.nearby_before is None && takes(flat, "输入框后文"@, value, 300)
            ==> nearby_lines(m, flat).lines == flat.lines.push(told("输入框后文"@, value)),
        m.editor is None && m.browser is Some && m.browser->0.focused_element is Some &&
            text::opt(m.browser->0.focused_element->0.sibling_before) == Some(value) &&
            m.browser->0.focused_element->0.sibling_after is None && takes(flat, "输入框前文"@, value,
            300) ==> nearby_lines(m, flat).lines == flat.lines.push(told("输入框前文"@, value)),
        m.editor is None && m.browser is Some && m.browser->0.focused_element is Some &&
            text::opt(m.browser->0.focused_element->0.sibling_after) == Some(value) &&
            m.browser->0.focused_element->0.sibling_before is None && takes(flat, "输入框后文"@, value,
            300) ==> nearby_lines(m, flat).lines == flat.lines.push(told("输入框后文"@, value)),
        m.editor is None && m.browser is None ==> nearby_lines(m, flat) == flat,
{
}

/// Visible text is told block by block and document by document, in their order.
pub proof fn visible_text_is_told(
    flat: Flat,
    blocks: Seq<VisibleTextBlock>,
    documents: Seq<OcrDocument>,
    block: VisibleTextBlock,
    document: OcrDocument,
    n: int,
)
    requires
        0 <= n < blocks.len(),
        0 <= n < documents.len(),
        blocks[n] == block,
        documents[n] == document,
    ensures
        flat.push_blocks(blocks, 0) == flat,
        flat.push_documents(documents, 0) == flat,
        takes(flat.push_blocks(blocks, n), "可见文字"@, block.text@, 400) ==> flat.push_blocks(
            blocks,
            n + 1,
        ).lines == flat.push_blocks(blocks, n).lines.push(told("可见文字"@, block.text@)),
        takes(flat.push_documents(documents, n), "可见文字"@, document.text@, 400)
            ==> flat.push_documents(documents, n + 1).lines == flat.push_documents(
            documents,
            n,
        ).lines.push(told("可见文字"@, document.text@)),
{
}

/// Fused text is told alone; without it, that of the page comes before that of the tree
/// and that before the documents.
pub proof fn fused_text_is_told_alone(m: ContextManifest, flat: Flat)
    ensures
        m.visible_text_fused matches Some(fused) ==> (fused.blocks@.len() > 0 ==> visible_lines(
            m,
            flat,
        ) == flat.push_blocks(fused.blocks@, fused.blocks@.len() as int)),
        m.visible_text_fused is None && m.browser is None && m.ax_visible is None ==> visible_lines(
            m,
            flat,
        ) == flat.push_documents(m.ocr_documents@, m.ocr_documents@.len() as int),
        m.visible_text_fused is None && m.ax_visible is None && m.ocr_documents@.len() == 0 ==> (
        m.browser matches Some(b) ==> visible_lines(m, flat) == flat.push_blocks(
            b.viewport_text_blocks@,
            b.viewport_text_blocks@.len() as int,
        )),
        m.visible_text_fused is None && m.browser is None && m.ocr_documents@.len() == 0 ==> (
        m.ax_visible matches Some(tree) ==> visible_lines(m, flat) == flat.push_nodes(tree.roots@)),
{
}

/// Without room, without leave or with a secure field there is no view, and what is told
/// is the lines joined by line breaks.
pub proof fn view_is_its_lines(m: ContextManifest, max: int)
    ensures
        flatten(m, 0) is None,
        !m.privacy.raw_text_allowed ==> flatten(m, max) is None,
        m.editor matches Some(e) && e.secure ==> flatten(m, max) is None,
        flatten(m, max) matches Some(view) ==> all_lines(m, max).lines.len() > 0 && view
            == text::join(all_lines(m, max).lines, "\n"@),
        max != 0 && m.privacy.raw_text_allowed && !m.secure_focus() && all_lines(m, max).lines.len()
            > 0 ==> flatten(m, max) is Some,
{
}

} // verus!
