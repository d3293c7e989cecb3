//! Pure attribution of a later field value to one inserted dictation span.
use crate::text;
use vstd::prelude::*;

verus! {

// ---------------------------------------------------------------------------
// Model
// ---------------------------------------------------------------------------

/// What a later field value says of the inserted span.
#[derive(Debug, Clone, PartialEq, Eq)]
pub enum EditProjection {
    Unchanged,
    Edited { after_text: String },
    Unrelated,
}

/// The model of an [`EditProjection`].
#[verifier::ext_equal]
pub enum Attribution {
    Unchanged,
    Edited(Seq<char>),
    Unrelated,
}

impl View for EditProjection {
    type V = Attribution;

    open spec fn view(&self) -> Attribution {
        match self {
            EditProjection::Unchanged => Attribution::Unchanged,
            EditProjection::Edited { after_text } => Attribution::Edited(after_text@),
            EditProjection::Unrelated => Attribution::Unrelated,
        }
    }
}

/// The model of an anchor: an inserted text and the text on either side of it.
#[verifier::ext_equal]
pub struct Anchor {
    pub inserted: Seq<char>,
    pub left: Seq<char>,
    pub right: Seq<char>,
}

impl Anchor {
    /// The field in which `span` stands where the inserted text stood.
    pub open spec fn with_span(self, span: Seq<char>) -> Seq<char> {
        self.left + span + self.right
    }

    /// What stands in `field` between the two contexts, where they frame it.
    pub open spec fn span_in(self, field: Seq<char>) -> Option<Seq<char>> {
        if text::begins(field, self.left) && text::ends(field, self.right) && self.left.len()
            + self.right.len() <= field.len() {
            Some(field.subrange(self.left.len() as int, field.len() - self.right.len()))
        } else {
            None
        }
    }

    /// The attribution of a span that was found.
    pub open spec fn attribute(self, span: Seq<char>) -> Attribution {
        if span == self.inserted {
            Attribution::Unchanged
        } else {
            Attribution::Edited(span)
        }
    }

    /// The attribution of a field value.
    pub open spec fn attribute_field(self, field: Seq<char>) -> Attribution {
        match self.span_in(field) {
            Some(span) => self.attribute(span),
            None => Attribution::Unrelated,
        }
    }

    /// The most scalar values that a span may have to count as an edit in a
    /// terminal.
    pub open spec fn span_limit(self) -> int {
        4 * self.inserted.len() as int + 256
    }

    /// The span of one terminal row, where the contexts frame it and it is not
    /// over the limit.
    pub open spec fn span_in_line(self, line: Seq<char>) -> Option<Seq<char>> {
        match self.span_in(line) {
            Some(span) => if span.len() <= self.span_limit() {
                Some(span)
            } else {
                None
            },
            None => None,
        }
    }

    /// The attribution of a terminal screen: that of its one row which the
    /// contexts frame; a screen with no such row, or with several, is unrelated.
    pub open spec fn attribute_screen(self, lines: Seq<Seq<char>>) -> Attribution {
        let framed = lines.filter(|line: Seq<char>| self.span_in_line(line) is Some);
        if framed.len() == 1 {
            self.attribute(self.span_in_line(framed[0])->0)
        } else {
            Attribution::Unrelated
        }
    }

    /// The text of the last row of the left context: the terminal's prompt.
    pub open spec fn prompt(self) -> Seq<char> {
        self.left.skip(line_start(self.left, self.left.len() as int))
    }

    /// The attribution of a terminal's field value to its current command line.
    pub open spec fn attribute_current_line(self, field: Seq<char>) -> Attribution {
        if self.right.len() > 0 {
            self.attribute_field(field)
        } else if self.prompt().len() == 0 {
            collapse(self.attribute_field(field), self.inserted)
        } else {
            match text::last_upto(field, self.prompt(), field.len() as int) {
                None => Attribution::Unrelated,
                Some(start) => {
                    let after = field.skip(start + self.prompt().len());
                    if after.contains('\n') || after.len() > self.span_limit() {
                        Attribution::Unrelated
                    } else {
                        collapse(self.attribute(after), self.inserted)
                    }
                },
            }
        }
    }
}

/// The position at which the row that holds `at` begins.
pub open spec fn line_start(s: Seq<char>, at: int) -> int
    decreases at,
{
    if at <= 0 {
        0
    } else if s[at - 1] == '\n' {
        at
    } else {
        line_start(s, at - 1)
    }
}

/// The position at which the row that holds `at` ends.
pub open spec fn line_end(s: Seq<char>, at: int) -> int
    decreases s.len() - at,
{
    if at >= s.len() {
        s.len() as int
    } else if s[at] == '\n' {
        at
    } else {
        line_end(s, at + 1)
    }
}

/// The anchor of `inserted` in a field that holds it once.
pub open spec fn field_anchor(field: Seq<char>, inserted: Seq<char>) -> Result<Anchor, Seq<char>> {
    if inserted.len() == 0 {
        Err("inserted_text_empty"@)
    } else {
        match text::first_from(field, inserted, 0) {
            None => Err("inserted_text_not_found_in_field"@),
            Some(start) => if text::first_from(field, inserted, start + inserted.len()) is Some {
                Err("inserted_text_not_unique_in_field"@)
            } else {
                Ok(
                    Anchor {
                        inserted,
                        left: field.take(start),
                        right: field.skip(start + inserted.len()),
                    },
                )
            },
        }
    }
}

/// The anchor of `inserted` in the row of a screen that holds it once.
pub open spec fn screen_anchor(screen: Seq<char>, inserted: Seq<char>) -> Result<
    Anchor,
    Seq<char>,
> {
    if inserted.len() == 0 {
        Err("inserted_text_empty"@)
    } else if inserted.contains('\n') || inserted.contains('\r') {
        Err("pane_multiline_insert_unsupported"@)
    } else {
        match text::first_from(screen, inserted, 0) {
            None => Err("inserted_text_not_found_in_pane"@),
            Some(start) => {
                let end = start + inserted.len();
                let left = screen.subrange(line_start(screen, start), start);
                let right = screen.subrange(end, line_end(screen, end));
                if text::first_from(screen, inserted, end) is Some {
                    Err("inserted_text_not_unique_in_pane"@)
                } else if left.len() == 0 && right.len() == 0 {
                    Err("pane_line_context_unavailable"@)
                } else {
                    Ok(Anchor { inserted, left, right })
                }
            },
        }
    }
}

/// `s` without the blanks that a terminal pads a row with.
pub open spec fn trim_padding(s: Seq<char>) -> Seq<char>
    decreases s.len(),
{
    if s.len() > 0 && (s.last() == ' ' || s.last() == '\u{a0}') {
        trim_padding(s.drop_last())
    } else {
        s
    }
}

/// Eight blanks in a row: what a terminal leaves where it cleared a line.
pub open spec fn has_clear(s: Seq<char>) -> bool {
    exists|i: int| blank_run(s, i, 8)
}

/// `n` scalar values of white space stand in `s` from `i` on.
pub open spec fn blank_run(s: Seq<char>, i: int, n: int) -> bool {
    0 <= i && i + n <= s.len() && forall|k: int| i <= k < i + n ==> text::is_space(#[trigger] s[k])
}

/// The first `n` scalar values of `s` come again at its end, with a cleared
/// line between the two.
pub open spec fn is_redraw(s: Seq<char>, n: int) -> bool {
    0 <= n && 2 * n <= s.len() && s.take(n) == s.skip(s.len() - n) && has_clear(
        s.subrange(n, s.len() - n),
    )
}

/// The greatest length from `lo` to `hi` at which `s` is a redraw.
pub open spec fn redraw_length(s: Seq<char>, lo: int, hi: int) -> Option<int>
    decreases hi + 1,
{
    if hi < lo || hi < 0 {
        None
    } else if is_redraw(s, hi) {
        Some(hi)
    } else {
        redraw_length(s, lo, hi - 1)
    }
}

pub open spec fn least(a: int, b: int) -> int {
    if a <= b {
        a
    } else {
        b
    }
}

pub open spec fn greatest(a: int, b: int) -> int {
    if a >= b {
        a
    } else {
        b
    }
}

/// An edit with what a terminal's redraw added to it taken away again.
pub open spec fn collapse(projection: Attribution, inserted: Seq<char>) -> Attribution {
    match projection {
        Attribution::Edited(after) => {
            let tail = trim_padding(after);
            let lo = greatest(inserted.len() as int / 3, 3);
            let hi = least(4 * inserted.len() as int + 256, tail.len() as int / 2);
            match redraw_length(tail, lo, hi) {
                Some(n) => Attribution::Edited(tail.take(n)),
                None => match closest_suffix(tail, inserted) {
                    Some(suffix) => Attribution::Edited(suffix),
                    None => if tail.contains('\n') || tail.len() > 2 * inserted.len() + 64 {
                        Attribution::Unrelated
                    } else {
                        Attribution::Edited(tail)
                    },
                },
            }
        },
        other => other,
    }
}

// ---------------------------------------------------------------------------
// Alignment
// ---------------------------------------------------------------------------

/// A place in the alignment table: what it costs to turn the text into the
/// part of the tail that begins at `start`.
pub struct Alignment {
    pub cost: int,
    pub start: int,
}

/// How far the length of the part that begins at `start` and ends at `column`
/// is from `row`.
pub open spec fn length_gap(start: int, row: int, column: int) -> int {
    if column - start >= row {
        column - start - row
    } else {
        row - (column - start)
    }
}

/// `a` is to be preferred over `b`: it costs less, or as much with a length
/// that is closer to `row`.
pub open spec fn preferred(a: Alignment, b: Alignment, row: int, column: int) -> bool {
    a.cost < b.cost || (a.cost == b.cost && length_gap(a.start, row, column) < length_gap(
        b.start,
        row,
        column,
    ))
}

/// The best alignment of the first `row` scalar values of `text` with a part of
/// `tail` that ends at `column`.
pub open spec fn align(text: Seq<char>, tail: Seq<char>, row: int, column: int) -> Alignment
    decreases row, column,
{
    if row <= 0 {
        Alignment { cost: 0, start: column }
    } else if column <= 0 {
        Alignment { cost: row, start: 0 }
    } else {
        let up = align(text, tail, row - 1, column);
        let left = align(text, tail, row, column - 1);
        let corner = align(text, tail, row - 1, column - 1);
        let a = Alignment { cost: up.cost + 1, start: up.start };
        let b = Alignment { cost: left.cost + 1, start: left.start };
        let c = Alignment {
            cost: corner.cost + if text[row - 1] != tail[column - 1] {
                1int
            } else {
                0int
            },
            start: corner.start,
        };
        let d = if preferred(b, a, row, column) {
            b
        } else {
            a
        };
        if preferred(c, d, row, column) {
            c
        } else {
            d
        }
    }
}

/// The part at the end of `tail` that is an edit of `inserted`, where one is
/// close enough to it.
pub open spec fn closest_suffix(tail: Seq<char>, inserted: Seq<char>) -> Option<Seq<char>> {
    if inserted.len() == 0 || tail.len() > 4 * inserted.len() + 256 {
        None
    } else {
        let best = align(inserted, tail, inserted.len() as int, tail.len() as int);
        let suffix = tail.skip(best.start);
        if best.start < 8 || suffix.len() == 0 || suffix.contains('\n') || suffix.len() > 2
            * inserted.len() + 64 || best.cost * 100 > greatest(
            inserted.len() as int,
            suffix.len() as int,
        ) * 35 {
            None
        } else {
            Some(suffix)
        }
    }
}

/// The least number of insertions, deletions and substitutions that turn `a`
/// into `b`.
pub open spec fn edit_distance(a: Seq<char>, b: Seq<char>) -> int
    decreases a.len(), b.len(),
{
    if a.len() == 0 {
        b.len() as int
    } else if b.len() == 0 {
        a.len() as int
    } else {
        least(
            least(edit_distance(a.drop_last(), b) + 1, edit_distance(a, b.drop_last()) + 1),
            edit_distance(a.drop_last(), b.drop_last()) + if a.last() != b.last() {
                1int
            } else {
                0int
            },
        )
    }
}

proof fn lemma_align_bounds(text: Seq<char>, tail: Seq<char>, row: int, column: int)
    requires
        0 <= row,
        0 <= column,
    ensures
        0 <= align(text, tail, row, column).cost <= row,
        0 <= align(text, tail, row, column).start <= column,
    decreases row, column,
{
    if row > 0 && column > 0 {
        lemma_align_bounds(text, tail, row - 1, column);
        lemma_align_bounds(text, tail, row, column - 1);
        lemma_align_bounds(text, tail, row - 1, column - 1);
    }
}

/// The alignment's cost is the edit distance to the part it names, and no part
/// that ends at the same place is nearer.
pub proof fn alignment_is_nearest(text: Seq<char>, tail: Seq<char>, row: int, column: int)
    requires
        0 <= row <= text.len(),
        0 <= column <= tail.len(),
    ensures
        0 <= align(text, tail, row, column).start <= column,
        align(text, tail, row, column).cost == edit_distance(
            text.take(row),
            tail.subrange(align(text, tail, row, column).start, column),
        ),
        forall|s: int|
            0 <= s <= column ==> align(text, tail, row, column).cost <= #[trigger] edit_distance(
                text.take(row),
                tail.subrange(s, column),
            ),
    decreases row, column,
{
    lemma_align_bounds(text, tail, row, column);
    if row == 0 {
        assert(text.take(0).len() == 0);
    } else if column == 0 {
        assert forall|s: int| 0 <= s <= column implies align(text, tail, row, column).cost
            <= #[trigger] edit_distance(text.take(row), tail.subrange(s, column)) by {}
    } else {
        alignment_is_nearest(text, tail, row - 1, column);
        alignment_is_nearest(text, tail, row, column - 1);
        alignment_is_nearest(text, tail, row - 1, column - 1);
        let best = align(text, tail, row, column);
        let t = text.take(row);
        assert(t.drop_last() =~= text.take(row - 1));
        assert(t.last() == text[row - 1]);
        let substituted = if text[row - 1] != tail[column - 1] {
            1int
        } else {
            0int
        };
        let up = align(text, tail, row - 1, column);
        let left = align(text, tail, row, column - 1);
        let corner = align(text, tail, row - 1, column - 1);
        assert forall|s: int| 0 <= s < column implies #[trigger] edit_distance(
            t,
            tail.subrange(s, column),
        ) == least(
            least(
                edit_distance(text.take(row - 1), tail.subrange(s, column)) + 1,
                edit_distance(t, tail.subrange(s, column - 1)) + 1,
            ),
            edit_distance(text.take(row - 1), tail.subrange(s, column - 1)) + substituted,
        ) by {
            let part = tail.subrange(s, column);
            assert(part.drop_last() =~= tail.subrange(s, column - 1));
            assert(part.last() == tail[column - 1]);
        }
        assert(edit_distance(t, tail.subrange(column, column)) == row);
        assert(edit_distance(text.take(row - 1), tail.subrange(column, column)) == row - 1);
        assert forall|s: int| 0 <= s <= column implies best.cost <= #[trigger] edit_distance(
            t,
            tail.subrange(s, column),
        ) by {
            assert(up.cost <= edit_distance(text.take(row - 1), tail.subrange(s, column)));
            if s < column {
                assert(left.cost <= edit_distance(t, tail.subrange(s, column - 1)));
                assert(corner.cost <= edit_distance(
                    text.take(row - 1),
                    tail.subrange(s, column - 1),
                ));
            }
        }
        assert(edit_distance(t, tail.subrange(best.start, column)) <= best.cost) by {
            assert(edit_distance(t, tail.subrange(up.start, column)) <= up.cost + 1);
            assert(edit_distance(t, tail.subrange(left.start, column)) <= left.cost + 1);
            assert(edit_distance(t, tail.subrange(corner.start, column)) <= corner.cost
                + substituted);
        }
    }
}

// ---------------------------------------------------------------------------
// Anchors
// ---------------------------------------------------------------------------

/// The text inserted into a field and what stood around it.
#[derive(Debug, Clone)]
pub struct InsertionAnchor {
    inserted_text: String,
    left_context: String,
    right_context: String,
}

/// Pins one uniquely rendered terminal row without requiring the rest of the
/// pane to remain unchanged while a TUI redraws status/header/footer content.
#[derive(Debug, Clone)]
pub struct TerminalInsertionAnchor {
    inserted_text: String,
    left_context: String,
    right_context: String,
}

impl View for InsertionAnchor {
    type V = Anchor;

    closed spec fn view(&self) -> Anchor {
        Anchor {
            inserted: self.inserted_text@,
            left: self.left_context@,
            right: self.right_context@,
        }
    }
}

impl View for TerminalInsertionAnchor {
    type V = Anchor;

    closed spec fn view(&self) -> Anchor {
        Anchor {
            inserted: self.inserted_text@,
            left: self.left_context@,
            right: self.right_context@,
        }
    }
}

/// The model of what a constructor returns.
pub open spec fn anchored<T: View<V = Anchor>>(r: Result<T, String>) -> Result<Anchor, Seq<char>> {
    match r {
        Ok(anchor) => Ok(anchor@),
        Err(reason) => Err(reason@),
    }
}

/// Whether `c` is one of `chars`.
fn has_char(chars: &Vec<char>, c: char) -> (r: bool)
    ensures
        r == chars@.contains(c),
{
    let mut i: usize = 0;
    while i < chars.len()
        invariant
            i <= chars@.len(),
            forall|j: int| 0 <= j < i ==> chars@[j] != c,
        decreases chars@.len() - i,
    {
        if chars[i] == c {
            return true;
        }
        i = i + 1;
    }
    false
}

/// The bounds of the part of `field` between `left` and `right`, where they
/// frame it.
fn span_bounds(field: &Vec<char>, left: &Vec<char>, right: &Vec<char>) -> (r: Option<
    (usize, usize),
>)
    ensures
        ({
            let anchor = Anchor { inserted: Seq::empty(), left: left@, right: right@ };
            match r {
                Some((start, end)) => start <= end <= field@.len() && anchor.span_in(field@)
                    == Some(field@.subrange(start as int, end as int)),
                None => anchor.span_in(field@) is None,
            }
        }),
{
    let n: usize = field.len();
    if left.len() > n || right.len() > n - left.len() {
        return None;
    }
    if !text::stands_at(field, left, 0) || !text::stands_at(field, right, n - right.len()) {
        return None;
    }
    Some((left.len(), n - right.len()))
}

/// The position at which the row that holds `at` begins.
fn find_line_start(s: &Vec<char>, at: usize) -> (r: usize)
    requires
        at <= s@.len(),
    ensures
        r <= at,
        r == line_start(s@, at as int),
{
    let mut i: usize = at;
    while i > 0 && s[i - 1] != '\n'
        invariant
            i <= at <= s@.len(),
            line_start(s@, at as int) == line_start(s@, i as int),
        decreases i,
    {
        i = i - 1;
    }
    i
}

/// The position at which the row that holds `at` ends.
fn find_line_end(s: &Vec<char>, at: usize) -> (r: usize)
    requires
        at <= s@.len(),
    ensures
        at <= r <= s@.len(),
        r == line_end(s@, at as int),
{
    let mut i: usize = at;
    while i < s.len() && s[i] != '\n'
        invariant
            at <= i <= s@.len(),
            line_end(s@, at as int) == line_end(s@, i as int),
        decreases s@.len() - i,
    {
        i = i + 1;
    }
    i
}

/// Whether `count` is over `factor` times `base` plus `extra`.
fn exceeds(count: usize, base: usize, factor: u8, extra: u16) -> (r: bool)
    ensures
        r == (count > factor * base + extra),
{
    proof {
        assert(0 <= (base as int) * (factor as int) <= 0xffff_ffff_ffff_ffff * 255)
            by (nonlinear_arith)
            requires
                0 <= base <= 0xffff_ffff_ffff_ffff,
                0 <= factor <= 255,
        ;
        assert((base as int) * (factor as int) == (factor as int) * (base as int))
            by (nonlinear_arith);
    }
    let limit: u128 = (base as u128) * (factor as u128) + (extra as u128);
    count as u128 > limit
}

impl TerminalInsertionAnchor {
    /// Anchors `inserted_text` in the row of `snapshot` that alone holds it.
    pub fn from_snapshot(snapshot: &str, inserted_text: &str) -> (r: Result<Self, String>)
        ensures
            anchored(r) == screen_anchor(snapshot@, inserted_text@),
    {
        let inserted: Vec<char> = text::to_chars(inserted_text);
        if inserted.len() == 0 {
            return Err("inserted_text_empty".to_owned());
        }
        if has_char(&inserted, '\n') || has_char(&inserted, '\r') {
            return Err("pane_multiline_insert_unsupported".to_owned());
        }
        let screen: Vec<char> = text::to_chars(snapshot);
        let start: usize = match text::find_from(&screen, &inserted, 0) {
            Some(start) => start,
            None => return Err("inserted_text_not_found_in_pane".to_owned()),
        };
        let end: usize = start + inserted.len();
        if text::find_from(&screen, &inserted, end).is_some() {
            return Err("inserted_text_not_unique_in_pane".to_owned());
        }
        let from: usize = find_line_start(&screen, start);
        let upto: usize = find_line_end(&screen, end);
        if from == start && end == upto {
            return Err("pane_line_context_unavailable".to_owned());
        }
        Ok(
            Self {
                inserted_text: inserted_text.to_owned(),
                left_context: text::from_chars(&screen, from, start),
                right_context: text::from_chars(&screen, end, upto),
            },
        )
    }

    /// The attribution of the pane's rendered text.
    pub fn project(&self, snapshot: &str) -> (r: EditProjection)
        ensures
            r@ == self@.attribute_screen(text::split(snapshot@, |c: char| c == '\n')),
    {
        let at_break = |c: char| -> (b: bool)
            ensures
                b == (c == '\n'),
            { c == '\n' };
        let lines: Vec<String> = text::split_where(snapshot, at_break, Ghost(|c: char| c == '\n'));
        let ghost all = text::texts(lines@);
        let ghost framed = |line: Seq<char>| self@.span_in_line(line) is Some;
        let mut found: Option<usize> = None;
        let mut i: usize = 0;
        proof {
            assert(all.take(0) =~= Seq::empty());
            reveal(Seq::filter);
        }
        while i < lines.len()
            invariant
                i <= lines@.len(),
                all == text::texts(lines@),
                all == text::split(snapshot@, |c: char| c == '\n'),
                framed == (|line: Seq<char>| self@.span_in_line(line) is Some),
                match found {
                    None => all.take(i as int).filter(framed).len() == 0,
                    Some(at) => at < i && all.take(i as int).filter(framed) =~= seq![
                        lines@[at as int]@,
                    ] && framed(lines@[at as int]@),
                },
            decreases lines@.len() - i,
        {
            let matched: bool = self.project_line(lines[i].as_str()).is_some();
            proof {
                assert(all.take(i + 1).drop_last() =~= all.take(i as int));
                assert(all.take(i + 1).last() == lines@[i as int]@);
                reveal(Seq::filter);
            }
            if matched {
                if found.is_some() {
                    proof {
                        assert(all.take(i + 1).filter(framed).len() == 2);
                        let rest = all.skip(i + 1);
                        assert(all =~= all.take(i + 1) + rest);
                        Seq::filter_distributes_over_add(all.take(i + 1), rest, framed);
                        assert(all.filter(framed).len() >= 2);
                    }
                    return EditProjection::Unrelated;
                }
                found = Some(i);
            }
            i = i + 1;
        }
        assert(all.take(i as int) =~= all);
        match found {
            Some(at) => self.projection_for_line(lines[at].as_str()),
            None => EditProjection::Unrelated,
        }
    }

    fn projection_for_line(&self, line: &str) -> (r: EditProjection)
        ensures
            r@ == match self@.span_in_line(line@) {
                Some(span) => self@.attribute(span),
                None => Attribution::Unrelated,
            },
    {
        match self.project_line(line) {
            Some(after_text) => if text::same(after_text.as_str(), self.inserted_text.as_str()) {
                EditProjection::Unchanged
            } else {
                EditProjection::Edited { after_text }
            },
            None => EditProjection::Unrelated,
        }
    }

    fn project_line(&self, line: &str) -> (r: Option<String>)
        ensures
            r is Some <==> self@.span_in_line(line@) is Some,
            r matches Some(span) ==> self@.span_in_line(line@) == Some(span@),
    {
        let row: Vec<char> = text::to_chars(line);
        let left: Vec<char> = text::to_chars(self.left_context.as_str());
        let right: Vec<char> = text::to_chars(self.right_context.as_str());
        let inserted: Vec<char> = text::to_chars(self.inserted_text.as_str());
        match span_bounds(&row, &left, &right) {
            Some((start, end)) => if exceeds(end - start, inserted.len(), 4, 256) {
                None
            } else {
                Some(text::from_chars(&row, start, end))
            },
            None => None,
        }
    }
}

impl InsertionAnchor {
    /// Anchors `inserted_text` in the field that holds it once.
    pub fn from_post_insert(field_value: &str, inserted_text: &str) -> (r: Result<Self, String>)
        ensures
            anchored(r) == field_anchor(field_value@, inserted_text@),
    {
        let inserted: Vec<char> = text::to_chars(inserted_text);
        if inserted.len() == 0 {
            return Err("inserted_text_empty".to_owned());
        }
        let field: Vec<char> = text::to_chars(field_value);
        let start: usize = match text::find_from(&field, &inserted, 0) {
            Some(start) => start,
            None => return Err("inserted_text_not_found_in_field".to_owned()),
        };
        let n: usize = field.len();
        let end: usize = start + inserted.len();
        if text::find_from(&field, &inserted, end).is_some() {
            return Err("inserted_text_not_unique_in_field".to_owned());
        }
        let left_context: String = text::from_chars(&field, 0, start);
        let right_context: String = text::from_chars(&field, end, n);
        assert(left_context@ =~= field_value@.take(start as int));
        assert(right_context@ =~= field_value@.skip(end as int));
        Ok(Self { inserted_text: inserted_text.to_owned(), left_context, right_context })
    }

    /// The attribution of a later value of the field.
    pub fn project(&self, field_value: &str) -> (r: EditProjection)
        ensures
            r@ == self@.attribute_field(field_value@),
    {
        let field: Vec<char> = text::to_chars(field_value);
        let left: Vec<char> = text::to_chars(self.left_context.as_str());
        let right: Vec<char> = text::to_chars(self.right_context.as_str());
        match span_bounds(&field, &left, &right) {
            Some((start, end)) => {
                let after_text: String = text::from_chars(&field, start, end);
                if text::same(after_text.as_str(), self.inserted_text.as_str()) {
                    EditProjection::Unchanged
                } else {
                    EditProjection::Edited { after_text }
                }
            },
            None => EditProjection::Unrelated,
        }
    }

    /// Terminal accessibility trees may represent an in-place command-line redraw by appending
    /// the redrawn prompt and line to AXValue instead of replacing the old line. In that case,
    /// attribute only the text after the last exact copy of the original prompt prefix.
    pub fn project_terminal_current_line(&self, field_value: &str) -> (r: EditProjection)
        ensures
            r@ == self@.attribute_current_line(field_value@),
    {
        if !self.right_context.as_str().is_empty() {
            return self.project(field_value);
        }
        let left: Vec<char> = text::to_chars(self.left_context.as_str());
        let from: usize = find_line_start(&left, left.len());
        if from == left.len() {
            return collapse_terminal_redraw(self.project(field_value), self.inserted_text.as_str());
        }
        let mut prompt: Vec<char> = Vec::new();
        let mut i: usize = from;
        while i < left.len()
            invariant
                from <= i <= left@.len(),
                prompt@ == left@.subrange(from as int, i as int),
            decreases left@.len() - i,
        {
            prompt.push(left[i]);
            i = i + 1;
            assert(prompt@ =~= left@.subrange(from as int, i as int));
        }
        assert(prompt@ =~= self@.prompt());
        let field: Vec<char> = text::to_chars(field_value);
        let start: usize = match text::find_last(&field, &prompt) {
            Some(start) => start,
            None => return EditProjection::Unrelated,
        };
        let n: usize = field.len();
        let begin: usize = start + prompt.len();
        let after_text: String = text::from_chars(&field, begin, n);
        assert(after_text@ =~= field_value@.skip(begin as int));
        let after: Vec<char> = text::to_chars(after_text.as_str());
        let inserted: Vec<char> = text::to_chars(self.inserted_text.as_str());
        if has_char(&after, '\n') || exceeds(after.len(), inserted.len(), 4, 256) {
            return EditProjection::Unrelated;
        }
        let projection: EditProjection = if text::same_chars(&after, &inserted) {
            EditProjection::Unchanged
        } else {
            EditProjection::Edited { after_text }
        };
        collapse_terminal_redraw(projection, self.inserted_text.as_str())
    }
}

// ---------------------------------------------------------------------------
// Terminal redraws
// ---------------------------------------------------------------------------

/// Whether eight scalar values of white space stand in a row in `s` from
/// `start` up to `end`.
fn clear_between(s: &Vec<char>, start: usize, end: usize) -> (r: bool)
    requires
        start <= end <= s@.len(),
    ensures
        r == has_clear(s@.subrange(start as int, end as int)),
{
    let ghost middle = s@.subrange(start as int, end as int);
    let mut run: usize = 0;
    let mut i: usize = start;
    while i < end
        invariant
            start <= i <= end <= s@.len(),
            middle == s@.subrange(start as int, end as int),
            run <= i - start,
            run < 8,
            forall|k: int| i - run <= k < i ==> text::is_space(#[trigger] s@[k]),
            run < i - start ==> !text::is_space(s@[i - run - 1]),
            forall|j: int| #[trigger] blank_run(middle, j, 8) ==> j + start > i - run - 1,
        decreases end - i,
    {
        if text::char_is_space(s[i]) {
            run = run + 1;
            i = i + 1;
            if run == 8 {
                assert(blank_run(middle, i - start - 8, 8)) by {
                    assert forall|k: int| i - start - 8 <= k < i - start implies text::is_space(
                        #[trigger] middle[k],
                    ) by {
                        assert(middle[k] == s@[start + k]);
                    }
                }
                return true;
            }
        } else {
            assert forall|j: int| #[trigger] blank_run(middle, j, 8) implies j + start > i by {
                if j + start <= i {
                    assert(text::is_space(middle[i - start]));
                }
            }
            run = 0;
            i = i + 1;
        }
    }
    assert forall|j: int| !(#[trigger] blank_run(middle, j, 8)) by {
        if blank_run(middle, j, 8) {
            assert(j + start > i - run - 1);
        }
    }
    false
}

/// Whether the first `n` scalar values of `s` come again at its end, with a
/// cleared line between the two.
fn redrawn_at(s: &Vec<char>, n: usize) -> (r: bool)
    requires
        2 * n <= s@.len(),
    ensures
        r == is_redraw(s@, n as int),
{
    let len: usize = s.len();
    let mut i: usize = 0;
    while i < n
        invariant
            i <= n,
            2 * n <= len == s@.len(),
            forall|j: int| 0 <= j < i ==> #[trigger] s@[j] == s@[len - n + j],
        decreases n - i,
    {
        if s[i] != s[len - n + i] {
            assert(s@.take(n as int)[i as int] != s@.skip(len - n)[i as int]);
            return false;
        }
        i = i + 1;
    }
    assert(s@.take(n as int) =~= s@.skip(len - n));
    clear_between(s, n, len - n)
}

/// The number of scalar values of `s` without the blanks at its end.
fn unpadded_len(s: &Vec<char>) -> (n: usize)
    ensures
        n <= s@.len(),
        s@.take(n as int) == trim_padding(s@),
{
    let mut n: usize = s.len();
    assert(s@.take(n as int) =~= s@);
    while n > 0 && (s[n - 1] == ' ' || s[n - 1] == '\u{a0}')
        invariant
            n <= s@.len(),
            trim_padding(s@) == trim_padding(s@.take(n as int)),
        decreases n,
    {
        assert(s@.take(n as int).drop_last() =~= s@.take(n - 1));
        n = n - 1;
    }
    n
}

/// Takes what a terminal's redraw added to an edit away again.
fn collapse_terminal_redraw(projection: EditProjection, inserted_text: &str) -> (r: EditProjection)
    ensures
        r@ == collapse(projection@, inserted_text@),
{
    let after_text: String = match projection {
        EditProjection::Edited { after_text } => after_text,
        other => return other,
    };
    let padded: Vec<char> = text::to_chars(after_text.as_str());
    let end: usize = unpadded_len(&padded);
    let tail_text: String = text::from_chars(&padded, 0, end);
    assert(tail_text@ =~= padded@.take(end as int));
    let tail: Vec<char> = text::to_chars(tail_text.as_str());
    let inserted: Vec<char> = text::to_chars(inserted_text);
    let count: usize = inserted.len();
    let lo: usize = if count / 3 >= 3 {
        count / 3
    } else {
        3
    };
    let half: usize = tail.len() / 2;
    let hi: usize = if exceeds(half, count, 4, 256) {
        4 * count + 256
    } else {
        half
    };
    assert(hi == least(4 * count as int + 256, half as int));
    let mut length: usize = hi;
    while length >= lo
        invariant
            3 <= lo,
            length <= hi,
            2 * hi <= tail@.len(),
            redraw_length(tail@, lo as int, hi as int) == redraw_length(
                tail@,
                lo as int,
                length as int,
            ),
            collapse(projection@, inserted_text@) == match redraw_length(
                tail@,
                lo as int,
                hi as int,
            ) {
                Some(n) => Attribution::Edited(tail@.take(n)),
                None => match closest_suffix(tail@, inserted_text@) {
                    Some(suffix) => Attribution::Edited(suffix),
                    None => if tail@.contains('\n') || tail@.len() > 2 * inserted_text@.len() + 64 {
                        Attribution::Unrelated
                    } else {
                        Attribution::Edited(tail@)
                    },
                },
            },
        decreases length,
    {
        if redrawn_at(&tail, length) {
            let head: String = text::from_chars(&tail, 0, length);
            assert(head@ =~= tail@.take(length as int));
            return EditProjection::Edited { after_text: head };
        }
        length = length - 1;
    }
    if let Some(suffix) = closest_terminal_suffix(&tail, inserted_text) {
        return EditProjection::Edited { after_text: suffix };
    }
    if has_char(&tail, '\n') || exceeds(tail.len(), count, 2, 64) {
        return EditProjection::Unrelated;
    }
    EditProjection::Edited { after_text: tail_text }
}

/// A cell of the alignment table.
#[derive(Clone, Copy)]
struct Cell {
    cost: u128,
    start: usize,
}

impl View for Cell {
    type V = Alignment;

    closed spec fn view(&self) -> Alignment {
        Alignment { cost: self.cost as int, start: self.start as int }
    }
}

/// Whether `a` is to be preferred over `b`.
fn prefer(a: Cell, b: Cell, row: usize, column: usize) -> (r: bool)
    requires
        a.start <= column,
        b.start <= column,
    ensures
        r == preferred(a@, b@, row as int, column as int),
{
    let a_len: usize = column - a.start;
    let b_len: usize = column - b.start;
    let a_gap: usize = if a_len >= row {
        a_len - row
    } else {
        row - a_len
    };
    let b_gap: usize = if b_len >= row {
        b_len - row
    } else {
        row - b_len
    };
    a.cost < b.cost || (a.cost == b.cost && a_gap < b_gap)
}

/// The row of the alignment table after `previous`.
fn next_row(inserted: &Vec<char>, tail: &Vec<char>, previous: &Vec<Cell>, row: usize) -> (r: Vec<
    Cell,
>)
    requires
        1 <= row <= inserted@.len(),
        previous@.len() == tail@.len() + 1,
        forall|c: int|
            0 <= c <= tail@.len() ==> (#[trigger] previous@[c])@ == align(
                inserted@,
                tail@,
                row - 1,
                c,
            ),
    ensures
        r@.len() == tail@.len() + 1,
        forall|c: int|
            0 <= c <= tail@.len() ==> (#[trigger] r@[c])@ == align(
                inserted@,
                tail@,
                row as int,
                c,
            ),
{
    let mut current: Vec<Cell> = Vec::new();
    current.push(Cell { cost: row as u128, start: 0 });
    let mut done: usize = 0;
    while done < tail.len()
        invariant
            done <= tail@.len(),
            1 <= row <= inserted@.len(),
            previous@.len() == tail@.len() + 1,
            current@.len() == done + 1,
            forall|c: int|
                0 <= c <= tail@.len() ==> (#[trigger] previous@[c])@ == align(
                    inserted@,
                    tail@,
                    row - 1,
                    c,
                ),
            forall|c: int|
                0 <= c <= done ==> (#[trigger] current@[c])@ == align(
                    inserted@,
                    tail@,
                    row as int,
                    c,
                ),
        decreases tail@.len() - done,
    {
        let column: usize = done + 1;
        proof {
            lemma_align_bounds(inserted@, tail@, row - 1, column as int);
            lemma_align_bounds(inserted@, tail@, row - 1, done as int);
            lemma_align_bounds(inserted@, tail@, row as int, done as int);
        }
        let up: Cell = Cell { cost: previous[column].cost + 1, start: previous[column].start };
        let left: Cell = Cell { cost: current[done].cost + 1, start: current[done].start };
        let corner: Cell = Cell {
            cost: if inserted[row - 1] != tail[done] {
                previous[done].cost + 1
            } else {
                previous[done].cost
            },
            start: previous[done].start,
        };
        let mut best: Cell = up;
        if prefer(left, best, row, column) {
            best = left;
        }
        if prefer(corner, best, row, column) {
            best = corner;
        }
        current.push(best);
        done = column;
        assert(current@[done as int]@ == align(inserted@, tail@, row as int, done as int));
    }
    current
}

/// The part at the end of `field_tail` that is an edit of `inserted_text`,
/// where one is close enough to it.
fn closest_terminal_suffix(field_tail: &Vec<char>, inserted_text: &str) -> (r: Option<String>)
    ensures
        r is Some <==> closest_suffix(field_tail@, inserted_text@) is Some,
        r matches Some(suffix) ==> closest_suffix(field_tail@, inserted_text@) == Some(suffix@),
{
    let inserted: Vec<char> = text::to_chars(inserted_text);
    if inserted.len() == 0 || exceeds(field_tail.len(), inserted.len(), 4, 256) {
        return None;
    }
    let mut previous: Vec<Cell> = Vec::new();
    let mut from: usize = 0;
    while from < field_tail.len()
        invariant
            from <= field_tail@.len(),
            previous@.len() == from,
            forall|c: int|
                0 <= c < from ==> (#[trigger] previous@[c])@ == align(
                    inserted@,
                    field_tail@,
                    0,
                    c,
                ),
        decreases field_tail@.len() - from,
    {
        previous.push(Cell { cost: 0, start: from });
        from = from + 1;
    }
    previous.push(Cell { cost: 0, start: from });
    let mut row: usize = 0;
    while row < inserted.len()
        invariant
            row <= inserted@.len(),
            previous@.len() == field_tail@.len() + 1,
            forall|c: int|
                0 <= c <= field_tail@.len() ==> (#[trigger] previous@[c])@ == align(
                    inserted@,
                    field_tail@,
                    row as int,
                    c,
                ),
        decreases inserted@.len() - row,
    {
        row = row + 1;
        previous = next_row(&inserted, field_tail, &previous, row);
    }
    let best: Cell = previous[field_tail.len()];
    proof {
        lemma_align_bounds(inserted@, field_tail@, row as int, field_tail@.len() as int);
    }
    let suffix: String = text::from_chars(field_tail, best.start, field_tail.len());
    assert(suffix@ =~= field_tail@.skip(best.start as int));
    let candidate: Vec<char> = text::to_chars(suffix.as_str());
    let longest: usize = if inserted.len() >= candidate.len() {
        inserted.len()
    } else {
        candidate.len()
    };
    if best.start < 8 || candidate.len() == 0 || has_char(&candidate, '\n') || exceeds(
        candidate.len(),
        inserted.len(),
        2,
        64,
    ) || best.cost * 100 > (longest as u128) * 35 {
        return None;
    }
    Some(suffix)
}

// ---------------------------------------------------------------------------
// Laws
// ---------------------------------------------------------------------------

/// A field value is attributed to the span exactly when it is the anchored
/// field with some text in the span's place; that text is what is reported.
pub proof fn attribution_is_the_span(anchor: Anchor, field: Seq<char>, span: Seq<char>)
    ensures
        anchor.span_in(anchor.with_span(span)) == Some(span),
        anchor.span_in(field) == Some(span) ==> field == anchor.with_span(span),
{
    let whole = anchor.with_span(span);
    assert(whole.subrange(0, anchor.left.len() as int) =~= anchor.left);
    assert(whole.subrange(
        whole.len() - anchor.right.len(),
        whole.len() - anchor.right.len() + anchor.right.len(),
    ) =~= anchor.right);
    assert(whole.subrange(anchor.left.len() as int, whole.len() - anchor.right.len()) =~= span);
    if anchor.span_in(field) == Some(span) {
        let l = anchor.left.len() as int;
        let r = field.len() - anchor.right.len();
        assert(field =~= field.subrange(0, l) + field.subrange(l, r) + field.subrange(
            r,
            field.len() as int,
        ));
    }
}

/// The field that an anchor was made from is reported as unchanged.
pub proof fn anchored_field_is_unchanged(field: Seq<char>, inserted: Seq<char>)
    requires
        field_anchor(field, inserted) is Ok,
    ensures
        field_anchor(field, inserted)->Ok_0.with_span(inserted) == field,
        field_anchor(field, inserted)->Ok_0.attribute_field(field) == Attribution::Unchanged,
{
    let anchor = field_anchor(field, inserted)->Ok_0;
    text::lemma_first_from(field, inserted, 0);
    let start = first_place(field, inserted);
    assert(field =~= field.take(start) + field.subrange(start, start + inserted.len())
        + field.skip(start + inserted.len()));
    attribution_is_the_span(anchor, field, inserted);
}

/// Where `inserted` first stands in `field`.
spec fn first_place(field: Seq<char>, inserted: Seq<char>) -> int {
    text::first_from(field, inserted, 0)->0
}

/// Deleting the inserted text is an edit to the empty text.
pub proof fn deletion_is_an_edit(field: Seq<char>, inserted: Seq<char>)
    requires
        field_anchor(field, inserted) is Ok,
    ensures
        ({
            let anchor = field_anchor(field, inserted)->Ok_0;
            anchor.attribute_field(anchor.left + anchor.right) == Attribution::Edited(Seq::empty())
        }),
{
    let anchor = field_anchor(field, inserted)->Ok_0;
    attribution_is_the_span(anchor, field, Seq::empty());
    assert(anchor.with_span(Seq::empty()) =~= anchor.left + anchor.right);
}

/// An edit that a screen is attributed to is never longer than the limit, and
/// stands in one row of it between the anchor's contexts.
pub proof fn screen_edit_stands_in_one_row(anchor: Anchor, lines: Seq<Seq<char>>, span: Seq<char>)
    requires
        anchor.attribute_screen(lines) == Attribution::Edited(span),
    ensures
        span.len() <= anchor.span_limit(),
        lines.contains(anchor.with_span(span)),
{
    let framed = |line: Seq<char>| anchor.span_in_line(line) is Some;
    let row = lines.filter(framed)[0];
    assert(lines.filter(framed).contains(row));
    lines.lemma_filter_contains_rev(framed, row);
    lines.lemma_filter_pred(framed, 0);
    attribution_is_the_span(anchor, row, span);
}

// ---------------------------------------------------------------------------
// Laws of fields
// ---------------------------------------------------------------------------

/// A field is attributed by what stands between the two contexts: the inserted text
/// there is no edit, any other text is the edit, of whatever length; and a field that
/// the contexts do not frame is unrelated.
pub proof fn field_is_attributed_by_its_span(anchor: Anchor, field: Seq<char>, span: Seq<char>)
    ensures
        span == anchor.inserted ==> anchor.attribute_field(anchor.left + span + anchor.right)
            == Attribution::Unchanged,
        span != anchor.inserted ==> anchor.attribute_field(anchor.left + span + anchor.right)
            == Attribution::Edited(span),
        anchor.attribute_field(field) == Attribution::Edited(span) ==> field == anchor.left + span
            + anchor.right && span != anchor.inserted,
        anchor.attribute_field(field) == Attribution::Unchanged ==> field == anchor.left
            + anchor.inserted + anchor.right,
{
    attribution_is_the_span(anchor, field, span);
    attribution_is_the_span(anchor, field, anchor.inserted);
    assert(anchor.with_span(span) =~= anchor.left + span + anchor.right);
    assert(anchor.with_span(anchor.inserted) =~= anchor.left + anchor.inserted + anchor.right);
}

/// A text is anchored in a field that holds it once, between what stands before and
/// behind it. An empty text is not anchored, nor one that is not there, nor one that
/// is there again further on.
pub proof fn text_is_anchored_where_it_stands(
    left: Seq<char>,
    inserted: Seq<char>,
    right: Seq<char>,
)
    ensures
        ({
            let field = left + inserted + right;
            &&& inserted.len() > 0 && (forall|i: int|
                0 <= i <= field.len() - inserted.len() && #[trigger] field.subrange(
                    i,
                    i + inserted.len(),
                ) == inserted ==> i == left.len()) ==> field_anchor(field, inserted)
                == Ok::<Anchor, Seq<char>>(Anchor { inserted, left, right })
            &&& inserted.len() == 0 ==> field_anchor(field, inserted) is Err
        }),
{
    let field = left + inserted + right;
    let n = inserted.len() as int;
    let at = left.len() as int;
    if n > 0 && (forall|i: int|
        0 <= i <= field.len() - n && #[trigger] field.subrange(i, i + n) == inserted ==> i == at) {
        assert(field.subrange(at, at + n) =~= inserted);
        text::lemma_first_is_found(field, inserted, 0, at);
        text::lemma_first_from(field, inserted, 0);
        text::lemma_first_from(field, inserted, at + n);
        let start = text::first_from(field, inserted, 0)->0;
        assert(field.subrange(start, start + n) == inserted);
        if text::first_from(field, inserted, at + n) is Some {
            let next = text::first_from(field, inserted, at + n)->0;
            assert(field.subrange(next, next + n) == inserted);
        }
        assert(field.take(at) =~= left);
        assert(field.skip(at + n) =~= right);
    }
}

/// An anchor holds the field that it was made from, and the inserted text is not in it
/// a second time.
pub proof fn anchor_holds_its_field(field: Seq<char>, inserted: Seq<char>, i: int)
    ensures
        field_anchor(field, inserted) matches Ok(anchor) ==> {
            &&& inserted.len() > 0
            &&& anchor.inserted == inserted
            &&& anchor.left + inserted + anchor.right == field
            &&& anchor.left.len() + inserted.len() <= i <= field.len() - inserted.len()
                ==> field.subrange(i, i + inserted.len()) != inserted
            &&& 0 <= i < anchor.left.len() ==> field.subrange(i, i + inserted.len()) != inserted
        },
        field_anchor(field, inserted) is Err && inserted.len() > 0 && 0 <= i <= field.len()
            - inserted.len() && field.subrange(i, i + inserted.len()) == inserted ==> exists|j: int|
            0 <= j <= field.len() - inserted.len() && j != i && #[trigger] field.subrange(
                j,
                j + inserted.len(),
            ) == inserted,
{
    let n = inserted.len() as int;
    if n > 0 {
        text::lemma_first_from(field, inserted, 0);
        if 0 <= i <= field.len() - n && field.subrange(i, i + n) == inserted {
            text::lemma_first_is_found(field, inserted, 0, i);
        }
        if text::first_from(field, inserted, 0) is Some {
            let start = text::first_from(field, inserted, 0)->0;
            text::lemma_first_from(field, inserted, start + n);
            assert(field.subrange(start, start + n) == inserted);
            if 0 <= i <= field.len() - n && field.subrange(i, i + n) == inserted && start + n <= i {
                text::lemma_first_is_found(field, inserted, start + n, i);
            }
            if text::first_from(field, inserted, start + n) is Some {
                let again = text::first_from(field, inserted, start + n)->0;
                assert(field.subrange(again, again + n) == inserted);
            }
            assert(field.take(start) + inserted + field.skip(start + n) =~= field);
        }
    }
}

// ---------------------------------------------------------------------------
// Laws of the current line
// ---------------------------------------------------------------------------

/// The prompt of an anchor is the last row of what stands before the text.
proof fn lemma_prompt(before: Seq<char>, prompt: Seq<char>)
    requires
        before.len() == 0 || before.last() == '\n',
        !prompt.contains('\n'),
    ensures
        line_start(before + prompt, (before.len() + prompt.len()) as int) == before.len(),
    decreases prompt.len(),
{
    let s = before + prompt;
    if prompt.len() > 0 {
        let p = prompt.drop_last();
        assert(!p.contains('\n')) by {
            if p.contains('\n') {
                let k = choose|k: int| 0 <= k < p.len() && p[k] == '\n';
                assert(prompt[k] == '\n');
            }
        }
        lemma_prompt(before, p);
        assert(prompt.contains(prompt.last()));
        assert(s[s.len() - 1] == prompt.last());
        lemma_line_start_of_part(s, before + p, (before.len() + p.len()) as int);
    } else {
        assert(s =~= before);
    }
}

proof fn lemma_line_start_of_part(s: Seq<char>, part: Seq<char>, at: int)
    requires
        0 <= at <= part.len() <= s.len(),
        forall|i: int| 0 <= i < part.len() ==> s[i] == part[i],
    ensures
        line_start(s, at) == line_start(part, at),
    decreases at,
{
    if at > 0 {
        lemma_line_start_of_part(s, part, at - 1);
    }
}

/// The padding that a terminal fills a row with.
pub open spec fn is_padding(s: Seq<char>) -> bool {
    forall|i: int| 0 <= i < s.len() ==> #[trigger] s[i] == ' ' || s[i] == '\u{a0}'
}

proof fn lemma_padding_is_trimmed(s: Seq<char>, padding: Seq<char>)
    requires
        is_padding(padding),
        s.len() > 0 ==> s.last() != ' ' && s.last() != '\u{a0}',
    ensures
        trim_padding(s + padding) == s,
    decreases padding.len(),
{
    if padding.len() > 0 {
        let p = padding.drop_last();
        assert forall|i: int| 0 <= i < p.len() implies #[trigger] p[i] == ' ' || p[i] == '\u{a0}' by {
            assert(p[i] == padding[i]);
        }
        lemma_padding_is_trimmed(s, p);
        assert((s + padding).drop_last() =~= s + p);
        assert((s + padding).last() == padding[padding.len() - 1]);
    } else {
        assert(s + padding =~= s);
    }
}

proof fn lemma_no_redraw(s: Seq<char>, lo: int, hi: int)
    requires
        forall|i: int| !#[trigger] blank_run(s, i, 8),
    ensures
        redraw_length(s, lo, hi) is None,
    decreases hi + 1,
{
    if hi >= lo && hi >= 0 {
        if is_redraw(s, hi) {
            let middle = s.subrange(hi, s.len() - hi);
            let i = choose|i: int| blank_run(middle, i, 8);
            assert(blank_run(s, hi + i, 8)) by {
                assert forall|k: int| hi + i <= k < hi + i + 8 implies text::is_space(
                    #[trigger] s[k],
                ) by {
                    assert(text::is_space(middle[k - hi]));
                }
            }
        }
        lemma_no_redraw(s, lo, hi - 1);
    }
}

/// No part at the end of `s`, from its ninth scalar value on, is near to `inserted`.
pub open spec fn nothing_near(s: Seq<char>, inserted: Seq<char>) -> bool {
    forall|at: int|
        8 <= at < s.len() ==> 100 * (#[trigger] edit_distance(inserted, s.skip(at))) > 35
            * inserted.len() && 100 * edit_distance(inserted, s.skip(at)) > 35 * (s.len() - at)
}

proof fn lemma_no_suffix(s: Seq<char>, inserted: Seq<char>)
    requires
        nothing_near(s, inserted),
    ensures
        closest_suffix(s, inserted) is None,
{
    if inserted.len() > 0 && s.len() <= 4 * inserted.len() + 256 {
        let best = align(inserted, s, inserted.len() as int, s.len() as int);
        alignment_is_nearest(inserted, s, inserted.len() as int, s.len() as int);
        assert(inserted.take(inserted.len() as int) =~= inserted);
        assert(s.subrange(best.start, s.len() as int) =~= s.skip(best.start));
        if 8 <= best.start < s.len() {
            assert(best.cost == edit_distance(inserted, s.skip(best.start)));
        }
    }
}

/// An edit of the current line is attributed as it stands. `field` ends in the prompt,
/// the edited text and the terminal's padding. Where the text is in one row, is not a
/// redraw of itself, has at most twice the inserted text's length and 64 more, and no
/// part at its end is near to the inserted text, it is the edit, longer or shorter;
/// where the line is the inserted text to the letter, there is none.
pub proof fn current_line_is_the_edit(
    anchor: Anchor,
    earlier: Seq<char>,
    prompt: Seq<char>,
    screen: Seq<char>,
    span: Seq<char>,
    padding: Seq<char>,
)
    requires
        anchor.right.len() == 0,
        anchor.left == earlier + prompt,
        earlier.len() == 0 || earlier.last() == '\n',
        prompt.len() > 0,
        !prompt.contains('\n'),
        is_padding(padding),
        span.len() > 0 ==> span.last() != ' ' && span.last() != '\u{a0}',
        !span.contains('\n'),
        forall|i: int| !#[trigger] blank_run(span, i, 8),
        span.len() <= 2 * anchor.inserted.len() + 64,
        span.len() + padding.len() <= 4 * anchor.inserted.len() + 256,
        nothing_near(span, anchor.inserted),
        forall|i: int|
            screen.len() < i ==> !#[trigger] text::occurs_at(
                screen + prompt + span + padding,
                prompt,
                i,
            ),
    ensures
        anchor.attribute_current_line(screen + prompt + span + padding) == if span + padding
            == anchor.inserted {
            Attribution::Unchanged
        } else {
            Attribution::Edited(span)
        },
{
    let field = screen + prompt + span + padding;
    let at = screen.len() as int;
    lemma_prompt(earlier, prompt);
    assert(anchor.prompt() =~= prompt);
    assert(field.subrange(at, at + prompt.len()) =~= prompt);
    text::lemma_last_is_found(field, prompt, at);
    let after = field.skip(at + prompt.len());
    assert(after =~= span + padding);
    assert(!after.contains('\n')) by {
        if after.contains('\n') {
            let k = choose|k: int| 0 <= k < after.len() && after[k] == '\n';
            if k < span.len() {
                assert(span[k] == '\n');
            } else {
                assert(padding[k - span.len()] == '\n');
            }
        }
    }
    lemma_padding_is_trimmed(span, padding);
    let lo = greatest(anchor.inserted.len() as int / 3, 3);
    let hi = least(4 * anchor.inserted.len() as int + 256, span.len() as int / 2);
    lemma_no_redraw(span, lo, hi);
    lemma_no_suffix(span, anchor.inserted);
}

/// A current line that cannot be the edited text is unrelated: where the prompt is gone,
/// where the line goes on in another row, or where it is longer than four times the
/// inserted text and 256 more.
pub proof fn foreign_line_is_unrelated(
    anchor: Anchor,
    earlier: Seq<char>,
    prompt: Seq<char>,
    screen: Seq<char>,
    after: Seq<char>,
)
    requires
        anchor.right.len() == 0,
        anchor.left == earlier + prompt,
        earlier.len() == 0 || earlier.last() == '\n',
        prompt.len() > 0,
        !prompt.contains('\n'),
    ensures
        (forall|i: int| !#[trigger] text::occurs_at(screen, prompt, i))
            ==> anchor.attribute_current_line(screen) == Attribution::Unrelated,
        (forall|i: int|
            screen.len() < i ==> !#[trigger] text::occurs_at(screen + prompt + after, prompt, i))
            && (after.contains('\n') || after.len() > 4 * anchor.inserted.len() + 256)
            ==> anchor.attribute_current_line(screen + prompt + after) == Attribution::Unrelated,
{
    lemma_prompt(earlier, prompt);
    assert(anchor.prompt() =~= prompt);
    text::lemma_last_upto(screen, prompt, screen.len() as int);
    let field = screen + prompt + after;
    let at = screen.len() as int;
    if forall|i: int| screen.len() < i ==> !#[trigger] text::occurs_at(field, prompt, i) {
        assert(field.subrange(at, at + prompt.len()) =~= prompt);
        text::lemma_last_is_found(field, prompt, at);
        assert(field.skip(at + prompt.len()) =~= after);
    }
}

/// Where text stands behind the inserted one, or there is no prompt, the line is
/// attributed by its contexts like any field; without a prompt what a redraw added is
/// taken away again.
pub proof fn line_without_prompt_is_a_field(anchor: Anchor, span: Seq<char>)
    ensures
        anchor.right.len() > 0 ==> anchor.attribute_current_line(anchor.left + span + anchor.right)
            == if span == anchor.inserted {
            Attribution::Unchanged
        } else {
            Attribution::Edited(span)
        },
        anchor.right.len() == 0 && (anchor.left.len() == 0 || anchor.left.last() == '\n') && (
        forall|i: int| !#[trigger] blank_run(span, i, 8)) && (span.len() > 0 ==> span.last() != ' '
            && span.last() != '\u{a0}') && !span.contains('\n') && span.len() <= 2
            * anchor.inserted.len() + 64 && nothing_near(span, anchor.inserted)
            ==> anchor.attribute_current_line(anchor.left + span) == if span == anchor.inserted {
            Attribution::Unchanged
        } else {
            Attribution::Edited(span)
        },
{
    field_is_attributed_by_its_span(anchor, anchor.left, span);
    if anchor.right.len() == 0 {
        assert(anchor.left + span + anchor.right =~= anchor.left + span);
        let none = Seq::<char>::empty();
        assert(!none.contains('\n'));
        if anchor.left.len() == 0 || anchor.left.last() == '\n' {
            lemma_prompt(anchor.left, none);
            assert(anchor.left + none =~= anchor.left);
            assert(anchor.prompt().len() == 0);
        }
        if (forall|i: int| !#[trigger] blank_run(span, i, 8)) && (span.len() > 0 ==> span.last()
            != ' ' && span.last() != '\u{a0}') && nothing_near(span, anchor.inserted) {
            lemma_padding_is_trimmed(span, none);
            assert(span + none =~= span);
            lemma_no_redraw(
                span,
                greatest(anchor.inserted.len() as int / 3, 3),
                least(4 * anchor.inserted.len() as int + 256, span.len() as int / 2),
            );
            lemma_no_suffix(span, anchor.inserted);
        }
    }
}

/// A line that the terminal drew twice, with a cleared stretch of eight blanks between
/// the two, counts once: the edit is a text that the line both begins and ends with,
/// and is as long as `draft` at least, which is such a text.
pub proof fn redrawn_line_counts_once(
    inserted: Seq<char>,
    draft: Seq<char>,
    gap: Seq<char>,
    i: int,
    padding: Seq<char>,
)
    requires
        blank_run(gap, i, 8),
        is_padding(padding),
        3 <= draft.len(),
        inserted.len() <= 3 * draft.len(),
        draft.len() <= 4 * inserted.len() + 256,
        draft.last() != ' ' && draft.last() != '\u{a0}',
    ensures
        ({
            let line = draft + gap + draft;
            let r = collapse(Attribution::Edited(line + padding), inserted);
            &&& r is Edited
            &&& draft.len() <= r->Edited_0.len()
            &&& 2 * r->Edited_0.len() <= line.len()
            &&& line.take(r->Edited_0.len() as int) == r->Edited_0
            &&& line.skip(line.len() - r->Edited_0.len()) == r->Edited_0
            &&& r->Edited_0.len() <= 4 * inserted.len() + 256
        }),
{
    let line = draft + gap + draft;
    let n = draft.len() as int;
    assert(line.last() == draft.last());
    lemma_padding_is_trimmed(line, padding);
    assert(line.take(n) =~= draft);
    assert(line.skip(line.len() - n) =~= draft);
    assert(line.subrange(n, line.len() - n) =~= gap);
    assert(is_redraw(line, n));
    let lo = greatest(inserted.len() as int / 3, 3);
    let hi = least(4 * inserted.len() as int + 256, line.len() as int / 2);
    lemma_redraw_is_found(line, lo, hi, n);
}

proof fn lemma_redraw_is_found(s: Seq<char>, lo: int, hi: int, n: int)
    requires
        0 <= lo <= n <= hi,
        is_redraw(s, n),
    ensures
        redraw_length(s, lo, hi) matches Some(m) && n <= m <= hi && is_redraw(s, m),
    decreases hi,
{
    if !is_redraw(s, hi) {
        lemma_redraw_is_found(s, lo, hi - 1, n);
    }
}

/// The edit distance tells texts apart, and is no more than the longer text and no less
/// than the difference of the lengths.
pub proof fn distance_is_of_texts(a: Seq<char>, b: Seq<char>)
    ensures
        edit_distance(a, b) == 0 <==> a == b,
        edit_distance(a, b) >= a.len() - b.len(),
        edit_distance(a, b) >= b.len() - a.len(),
        edit_distance(a, b) <= a.len() || edit_distance(a, b) <= b.len(),
    decreases a.len(), b.len(),
{
    if a.len() == 0 || b.len() == 0 {
        assert(a.len() == 0 && b.len() == 0 ==> a =~= b);
    } else {
        distance_is_of_texts(a.drop_last(), b);
        distance_is_of_texts(a, b.drop_last());
        distance_is_of_texts(a.drop_last(), b.drop_last());
        assert(a =~= a.drop_last().push(a.last()));
        assert(b =~= b.drop_last().push(b.last()));
        assert(a == b ==> a.drop_last() == b.drop_last());
    }
}

/// A change of one scalar value costs one at most: a value more at the end of either
/// text, or another one there.
pub proof fn one_change_costs_one(a: Seq<char>, b: Seq<char>, c: char, d: char)
    ensures
        edit_distance(a.push(c), b) <= edit_distance(a, b) + 1,
        edit_distance(a, b.push(d)) <= edit_distance(a, b) + 1,
        edit_distance(a.push(c), b.push(d)) <= edit_distance(a, b) + 1,
        edit_distance(a.push(c), b.push(c)) <= edit_distance(a, b),
{
    assert(a.push(c).drop_last() =~= a);
    assert(b.push(d).drop_last() =~= b);
    assert(b.push(c).drop_last() =~= b);
    distance_is_of_texts(a.push(c), b);
    distance_is_of_texts(a, b.push(d));
    if b.len() == 0 {
        distance_is_of_texts(a, b);
    }
    if a.len() == 0 {
        distance_is_of_texts(a, b);
    }
}

/// A line that ends in the inserted text, with eight scalar values or more before it and
/// no redraw, is attributed to that text.
pub proof fn text_at_the_end_is_found(inserted: Seq<char>, before: Seq<char>)
    requires
        inserted.len() > 0,
        !inserted.contains('\n'),
        inserted.last() != ' ' && inserted.last() != '\u{a0}',
        8 <= before.len(),
        before.len() <= 3 * inserted.len() + 256,
        forall|i: int| !#[trigger] blank_run(before + inserted, i, 8),
    ensures
        collapse(Attribution::Edited(before + inserted), inserted) == Attribution::Edited(inserted),
{
    let s = before + inserted;
    let n = inserted.len() as int;
    let m = s.len() as int;
    let none = Seq::<char>::empty();
    assert(s.last() == inserted.last());
    lemma_padding_is_trimmed(s, none);
    assert(s + none =~= s);
    lemma_no_redraw(s, greatest(n / 3, 3), least(4 * n + 256, m / 2));
    let best = align(inserted, s, n, m);
    alignment_is_nearest(inserted, s, n, m);
    assert(inserted.take(n) =~= inserted);
    assert(s.subrange(before.len() as int, m) =~= inserted);
    distance_is_of_texts(inserted, inserted);
    assert(best.cost <= edit_distance(inserted, s.subrange(before.len() as int, m)));
    distance_is_of_texts(inserted, s.subrange(best.start, m));
    assert(best.cost == 0);
    assert(s.subrange(best.start, m) == inserted);
    assert(s.skip(best.start) =~= inserted);
    assert(best.start == before.len());
}

/// What is reported as an edit of a redrawn line stands in that line, and has no padding
/// at its end unless the line is taken as it was.
pub proof fn reported_edit_stands_in_the_line(after: Seq<char>, inserted: Seq<char>)
    ensures
        collapse(Attribution::Unchanged, inserted) == Attribution::Unchanged,
        collapse(Attribution::Unrelated, inserted) == Attribution::Unrelated,
        collapse(Attribution::Edited(after), inserted) matches Attribution::Edited(edit)
            ==> edit.len() <= after.len() && exists|i: int|
            0 <= i <= after.len() - edit.len() && #[trigger] after.subrange(i, i + edit.len())
                == edit,
        trim_padding(after).len() > 2 * inserted.len() + 64 && (forall|i: int|
            !#[trigger] blank_run(after, i, 8)) && nothing_near(trim_padding(after), inserted)
            ==> collapse(Attribution::Edited(after), inserted) == Attribution::Unrelated,
{
    let tail = trim_padding(after);
    lemma_trimmed(after);
    let lo = greatest(inserted.len() as int / 3, 3);
    let hi = least(4 * inserted.len() as int + 256, tail.len() as int / 2);
    lemma_redraw_bounds(tail, lo, hi);
    if collapse(Attribution::Edited(after), inserted) is Edited {
        let edit = collapse(Attribution::Edited(after), inserted)->Edited_0;
        let n = edit.len() as int;
        if redraw_length(tail, lo, hi) is Some {
            assert(edit == tail.take(redraw_length(tail, lo, hi)->0));
            assert(after.subrange(0, 0 + n) =~= edit);
        } else if closest_suffix(tail, inserted) is Some {
            lemma_align_bounds(inserted, tail, inserted.len() as int, tail.len() as int);
            let start = align(inserted, tail, inserted.len() as int, tail.len() as int).start;
            assert(after.subrange(start, start + n) =~= edit);
        } else {
            assert(after.subrange(0, 0 + n) =~= edit);
        }
    }
    if (forall|i: int| !#[trigger] blank_run(after, i, 8)) && nothing_near(tail, inserted) {
        assert forall|i: int| !#[trigger] blank_run(tail, i, 8) by {
            if blank_run(tail, i, 8) {
                assert(blank_run(after, i, 8)) by {
                    assert forall|k: int| i <= k < i + 8 implies text::is_space(
                        #[trigger] after[k],
                    ) by {
                        assert(text::is_space(tail[k]));
                    }
                }
            }
        }
        lemma_no_redraw(tail, lo, hi);
        lemma_no_suffix(tail, inserted);
    }
}

proof fn lemma_trimmed(s: Seq<char>)
    ensures
        trim_padding(s).len() <= s.len(),
        trim_padding(s) == s.take(trim_padding(s).len() as int),
    decreases s.len(),
{
    if s.len() > 0 && (s.last() == ' ' || s.last() == '\u{a0}') {
        lemma_trimmed(s.drop_last());
        assert(s.drop_last().take(trim_padding(s).len() as int) =~= s.take(
            trim_padding(s).len() as int,
        ));
    } else {
        assert(s.take(s.len() as int) =~= s);
    }
}

proof fn lemma_redraw_bounds(s: Seq<char>, lo: int, hi: int)
    ensures
        redraw_length(s, lo, hi) matches Some(n) ==> lo <= n <= hi && is_redraw(s, n),
    decreases hi + 1,
{
    if hi >= lo && hi >= 0 && !is_redraw(s, hi) {
        lemma_redraw_bounds(s, lo, hi - 1);
    }
}

// ---------------------------------------------------------------------------
// Laws of screens
// ---------------------------------------------------------------------------

/// The row is framed by the anchor's contexts with a text between them that is not
/// longer than four times the inserted one and 256 more.
pub open spec fn frames(anchor: Anchor, row: Seq<char>, span: Seq<char>) -> bool {
    row == anchor.left + span + anchor.right && span.len() <= 4 * anchor.inserted.len() + 256
}

proof fn lemma_frames(anchor: Anchor, row: Seq<char>, span: Seq<char>)
    ensures
        frames(anchor, row, span) ==> anchor.span_in_line(row) == Some(span),
        anchor.span_in_line(row) == Some(span) ==> frames(anchor, row, span),
{
    attribution_is_the_span(anchor, row, span);
    assert(anchor.with_span(span) =~= anchor.left + span + anchor.right);
}

/// The one row of a screen that the contexts frame is attributed, whichever row it is;
/// a screen with no such row is unrelated, and so is one with two.
pub proof fn framed_row_is_attributed(anchor: Anchor, rows: Seq<Seq<char>>, at: int, span: Seq<char>)
    requires
        0 <= at < rows.len(),
        frames(anchor, rows[at], span),
    ensures
        (forall|i: int, other: Seq<char>|
            0 <= i < rows.len() && i != at ==> !#[trigger] frames(anchor, rows[i], other))
            ==> anchor.attribute_screen(rows) == if span == anchor.inserted {
            Attribution::Unchanged
        } else {
            Attribution::Edited(span)
        },
{
    let framed = |line: Seq<char>| anchor.span_in_line(line) is Some;
    lemma_frames(anchor, rows[at], span);
    if forall|i: int, other: Seq<char>|
        0 <= i < rows.len() && i != at ==> !#[trigger] frames(anchor, rows[i], other) {
        let a = rows.take(at);
        let b = seq![rows[at]];
        let c = rows.skip(at + 1);
        assert(rows =~= a + b + c);
        assert forall|i: int| 0 <= i < rows.len() && i != at implies !framed(#[trigger] rows[i]) by {
            if framed(rows[i]) {
                let other = anchor.span_in_line(rows[i])->0;
                lemma_frames(anchor, rows[i], other);
                assert(frames(anchor, rows[i], other));
            }
        }
        lemma_filter_none(a, framed);
        lemma_filter_none(c, framed);
        Seq::filter_distributes_over_add(a + b, c, framed);
        Seq::filter_distributes_over_add(a, b, framed);
        reveal(Seq::filter);
        assert(b.drop_last() =~= Seq::empty());
        assert(b.last() == rows[at]);
        assert(b.drop_last().filter(framed) =~= Seq::empty());
        assert(b.filter(framed) =~= b);
        assert(rows.filter(framed) =~= b);
    }
}

/// A screen on which no row, or more than one, is framed by the contexts is unrelated.
pub proof fn unframed_screen_is_unrelated(
    anchor: Anchor,
    rows: Seq<Seq<char>>,
    a: int,
    b: int,
    s: Seq<char>,
    t: Seq<char>,
)
    ensures
        (forall|i: int, other: Seq<char>|
            0 <= i < rows.len() ==> !#[trigger] frames(anchor, rows[i], other))
            ==> anchor.attribute_screen(rows) == Attribution::Unrelated,
        0 <= a < b < rows.len() && frames(anchor, rows[a], s) && frames(anchor, rows[b], t)
            ==> anchor.attribute_screen(rows) == Attribution::Unrelated,
{
    let framed = |line: Seq<char>| anchor.span_in_line(line) is Some;
    if forall|i: int, other: Seq<char>|
        0 <= i < rows.len() ==> !#[trigger] frames(anchor, rows[i], other) {
        assert forall|i: int| 0 <= i < rows.len() implies !framed(#[trigger] rows[i]) by {
            if framed(rows[i]) {
                let other = anchor.span_in_line(rows[i])->0;
                lemma_frames(anchor, rows[i], other);
                assert(frames(anchor, rows[i], other));
            }
        }
        lemma_filter_none(rows, framed);
    }
    if 0 <= a < b < rows.len() && frames(anchor, rows[a], s) && frames(anchor, rows[b], t) {
        lemma_frames(anchor, rows[a], s);
        lemma_frames(anchor, rows[b], t);
        let front = rows.take(b);
        let back = rows.skip(b);
        assert(rows =~= front + back);
        Seq::filter_distributes_over_add(front, back, framed);
        lemma_filter_some(front, framed, a);
        lemma_filter_some(back, framed, 0);
    }
}

proof fn lemma_filter_none(s: Seq<Seq<char>>, keep: spec_fn(Seq<char>) -> bool)
    requires
        forall|i: int| 0 <= i < s.len() ==> !keep(#[trigger] s[i]),
    ensures
        s.filter(keep) == Seq::<Seq<char>>::empty(),
    decreases s.len(),
{
    reveal(Seq::filter);
    if s.len() > 0 {
        assert forall|i: int| 0 <= i < s.drop_last().len() implies !keep(
            #[trigger] s.drop_last()[i],
        ) by {
            assert(s.drop_last()[i] == s[i]);
        }
        lemma_filter_none(s.drop_last(), keep);
        assert(s.last() == s[s.len() - 1]);
    }
}

proof fn lemma_filter_some(s: Seq<Seq<char>>, keep: spec_fn(Seq<char>) -> bool, i: int)
    requires
        0 <= i < s.len(),
        keep(s[i]),
    ensures
        s.filter(keep).len() >= 1,
    decreases s.len(),
{
    reveal(Seq::filter);
    if i < s.len() - 1 {
        lemma_filter_some(s.drop_last(), keep, i);
    }
}

/// A text is anchored in the row of a screen that alone holds it, between what stands
/// before and behind it in that row; the rest of the screen does not matter. A text of
/// several rows is not anchored, nor one that fills its row.
pub proof fn text_is_anchored_in_its_row(
    above: Seq<char>,
    left: Seq<char>,
    inserted: Seq<char>,
    right: Seq<char>,
    below: Seq<char>,
)
    requires
        above.len() == 0 || above.last() == '\n',
        below.len() == 0 || below[0] == '\n',
        !left.contains('\n'),
        !right.contains('\n'),
    ensures
        ({
            let screen = above + left + inserted + right + below;
            &&& inserted.contains('\n') || inserted.contains('\r') || inserted.len() == 0
                ==> screen_anchor(screen, inserted) is Err
            &&& inserted.len() > 0 && !inserted.contains('\n') && !inserted.contains('\r') && (
            left.len() > 0 || right.len() > 0) && (forall|i: int|
                0 <= i <= screen.len() - inserted.len() && #[trigger] screen.subrange(
                    i,
                    i + inserted.len(),
                ) == inserted ==> i == above.len() + left.len()) ==> screen_anchor(screen, inserted)
                == Ok::<Anchor, Seq<char>>(Anchor { inserted, left, right })
        }),
{
    let screen = above + left + inserted + right + below;
    let n = inserted.len() as int;
    let at = (above.len() + left.len()) as int;
    if n > 0 && !inserted.contains('\n') && !inserted.contains('\r') && (forall|i: int|
        0 <= i <= screen.len() - n && #[trigger] screen.subrange(i, i + n) == inserted ==> i
            == at) {
        assert(screen.subrange(at, at + n) =~= inserted);
        text::lemma_first_is_found(screen, inserted, 0, at);
        text::lemma_first_from(screen, inserted, 0);
        text::lemma_first_from(screen, inserted, at + n);
        let start = text::first_from(screen, inserted, 0)->0;
        assert(screen.subrange(start, start + n) == inserted);
        if text::first_from(screen, inserted, at + n) is Some {
            let next = text::first_from(screen, inserted, at + n)->0;
            assert(screen.subrange(next, next + n) == inserted);
        }
        lemma_prompt(above, left);
        lemma_line_start_of_part(screen, above + left, at);
        lemma_row_end(above + left + inserted, right, below, at + n);
        assert(screen =~= (above + left + inserted) + right + below);
        assert(screen.subrange(above.len() as int, at) =~= left);
        assert(screen.subrange(at + n, at + n + right.len()) =~= right);
    }
}

proof fn lemma_row_end(before: Seq<char>, row: Seq<char>, below: Seq<char>, at: int)
    requires
        at == before.len(),
        !row.contains('\n'),
        below.len() == 0 || below[0] == '\n',
    ensures
        line_end(before + row + below, at) == at + row.len(),
    decreases row.len(),
{
    let s = before + row + below;
    if row.len() > 0 {
        assert(row.contains(row[0]));
        assert(s[at] == row[0]);
        let rest = row.skip(1);
        assert(!rest.contains('\n')) by {
            if rest.contains('\n') {
                let k = choose|k: int| 0 <= k < rest.len() && rest[k] == '\n';
                assert(row[k + 1] == '\n');
            }
        }
        lemma_row_end(before.push(row[0]), rest, below, at + 1);
        assert(before.push(row[0]) + rest + below =~= s);
    } else if below.len() > 0 {
        assert(s[at] == below[0]);
    }
}

/// A projection is seen as it is.
pub proof fn projection_is_seen_as_it_is(projection: EditProjection)
    ensures
        projection is Unchanged ==> projection@ is Unchanged,
        projection is Unrelated ==> projection@ is Unrelated,
        projection matches EditProjection::Edited { after_text } ==> projection@
            == Attribution::Edited(after_text@),
{
}

/// A text that cannot be anchored is refused for its reason: it is empty, it is not there,
/// it is there twice, or, on a screen, it has a line break or nothing beside it.
pub proof fn anchor_is_refused_for_a_reason(
    field: Seq<char>,
    inserted: Seq<char>,
    a: Seq<char>,
    b: Seq<char>,
    c: Seq<char>,
)
    ensures
        field_anchor(field, Seq::empty()) == Err::<Anchor, Seq<char>>("inserted_text_empty"@),
        screen_anchor(field, Seq::empty()) == Err::<Anchor, Seq<char>>("inserted_text_empty"@),
        inserted.len() > 0 && !text::occurs(field, inserted) ==> field_anchor(field, inserted)
            == Err::<Anchor, Seq<char>>("inserted_text_not_found_in_field"@),
        inserted.len() > 0 && (inserted.contains('\n') || inserted.contains('\r'))
            ==> screen_anchor(field, inserted) == Err::<Anchor, Seq<char>>(
            "pane_multiline_insert_unsupported"@,
        ),
        inserted.len() > 0 && !inserted.contains('\n') && !inserted.contains('\r')
            && !text::occurs(field, inserted) ==> screen_anchor(field, inserted) == Err::<
            Anchor,
            Seq<char>,
        >("inserted_text_not_found_in_pane"@),
        inserted.len() > 0 && field == inserted + b + inserted && text::first_from(
            field,
            inserted,
            0,
        ) == Some(0int) ==> field_anchor(field, inserted) == Err::<Anchor, Seq<char>>(
            "inserted_text_not_unique_in_field"@,
        ),
        inserted.len() > 0 && !inserted.contains('\n') && !inserted.contains('\r') && field
            == inserted + b + inserted && text::first_from(field, inserted, 0) == Some(0int)
            ==> screen_anchor(field, inserted) == Err::<Anchor, Seq<char>>(
            "inserted_text_not_unique_in_pane"@,
        ),
{
    if inserted.len() > 0 && !text::occurs(field, inserted) {
        lemma_never_found(field, inserted, 0);
    }
    if field == inserted + b + inserted {
        let n = inserted.len() as int;
        let at = n + b.len();
        assert(field.subrange(at, at + n) =~= inserted);
        assert(text::occurs_at(field, inserted, at));
        lemma_found_from(field, inserted, n, at);
    }
}

proof fn lemma_never_found(hay: Seq<char>, needle: Seq<char>, from: int)
    requires
        !text::occurs(hay, needle),
        0 <= from,
    ensures
        text::first_from(hay, needle, from) is None,
    decreases hay.len() - from + 1,
{
    assert(!text::occurs_at(hay, needle, from));
    if from + needle.len() <= hay.len() {
        lemma_never_found(hay, needle, from + 1);
    }
}

proof fn lemma_found_from(hay: Seq<char>, needle: Seq<char>, from: int, at: int)
    requires
        0 <= from <= at,
        text::occurs_at(hay, needle, at),
    ensures
        text::first_from(hay, needle, from) is Some,
    decreases at - from,
{
    if from < at && !text::occurs_at(hay, needle, from) {
        lemma_found_from(hay, needle, from + 1, at);
    }
}

} // verus!
