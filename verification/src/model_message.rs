//! What a model message tells: a projection, with nothing lost.
use crate::context_capture;
use crate::context_capture::separators_escaped;
use crate::context_capture::with_member;
use crate::context_capture::BrowserText;
use crate::context_capture::ContextText;
use crate::context_capture::EditorText;
use crate::context_capture::TargetText;
use crate::outside;
use crate::text;
use vstd::prelude::*;

verus! {

// ---------------------------------------------------------------------------
// Texts without separators
// ---------------------------------------------------------------------------

/// No line separator stands in `s`.
pub open spec fn plain(s: Seq<char>) -> bool {
    forall|i: int| 0 <= i < s.len() ==> #[trigger] s[i] != '\u{2028}' && s[i] != '\u{2029}'
}

proof fn lemma_escaped_joins(a: Seq<char>, b: Seq<char>)
    ensures
        separators_escaped(a + b) == separators_escaped(a) + separators_escaped(b),
    decreases b.len(),
{
    if b.len() == 0 {
        assert(a + b =~= a);
        assert(separators_escaped(a) + separators_escaped(b) =~= separators_escaped(a));
    } else {
        lemma_escaped_joins(a, b.drop_last());
        assert((a + b).drop_last() =~= a + b.drop_last());
        assert((a + b).last() == b.last());
        assert(separators_escaped(a + b) =~= separators_escaped(a) + separators_escaped(b));
    }
}

proof fn lemma_plain_is_kept(s: Seq<char>)
    requires
        plain(s),
    ensures
        separators_escaped(s) == s,
    decreases s.len(),
{
    if s.len() > 0 {
        assert forall|i: int| 0 <= i < s.drop_last().len() implies #[trigger] s.drop_last()[i]
            != '\u{2028}' && s.drop_last()[i] != '\u{2029}' by {
            assert(s.drop_last()[i] == s[i]);
        }
        lemma_plain_is_kept(s.drop_last());
        assert(s.last() == s[s.len() - 1]);
        assert(s =~= s.drop_last().push(s.last()));
    }
}

// ---------------------------------------------------------------------------
// Text literals
// ---------------------------------------------------------------------------

/// How one character stands in a message.
pub open spec fn safe_char(c: char) -> Seq<char> {
    if c == '\u{2028}' {
        seq!['\\', 'u', '2', '0', '2', '8']
    } else if c == '\u{2029}' {
        seq!['\\', 'u', '2', '0', '2', '9']
    } else {
        outside::json_char(c)
    }
}

/// How a text stands in a message.
pub open spec fn safe_body(s: Seq<char>) -> Seq<char>
    decreases s.len(),
{
    if s.len() == 0 {
        Seq::empty()
    } else {
        safe_char(s[0]) + safe_body(s.skip(1))
    }
}

/// A text as a message holds it.
pub open spec fn safe_literal(s: Seq<char>) -> Seq<char> {
    seq!['"'] + safe_body(s) + seq!['"']
}

proof fn lemma_char_is_safe(c: char)
    ensures
        separators_escaped(outside::json_char(c)) == safe_char(c),
{
    reveal_strlit("\\u2028");
    reveal_strlit("\\u2029");
    let e = outside::json_char(c);
    if c == '\u{2028}' || c == '\u{2029}' {
        assert(e =~= seq![c]);
        assert(e.drop_last() =~= Seq::empty());
        assert(separators_escaped(e.drop_last()) =~= Seq::empty());
        assert(separators_escaped(e) =~= safe_char(c));
    } else {
        if (c as nat) < 32 {
            context_capture::lemma_control_digits(c);
        }
        assert(plain(e));
        lemma_plain_is_kept(e);
    }
}

proof fn lemma_body_grows(s: Seq<char>, c: char)
    ensures
        safe_body(s.push(c)) == safe_body(s) + safe_char(c),
    decreases s.len(),
{
    let t = s.push(c);
    if s.len() == 0 {
        assert(t.skip(1) =~= Seq::empty());
        assert(safe_body(t.skip(1)) =~= Seq::empty());
        assert(t[0] == c);
        assert(safe_body(t) =~= safe_body(s) + safe_char(c));
    } else {
        assert(t.skip(1) =~= s.skip(1).push(c));
        assert(t[0] == s[0]);
        lemma_body_grows(s.skip(1), c);
        assert(safe_body(t) =~= safe_body(s) + safe_char(c));
    }
}

proof fn lemma_body_is_safe(s: Seq<char>)
    ensures
        separators_escaped(outside::json_body(s)) == safe_body(s),
    decreases s.len(),
{
    if s.len() > 0 {
        let d = s.drop_last();
        lemma_body_is_safe(d);
        lemma_char_is_safe(s.last());
        lemma_escaped_joins(outside::json_body(d), outside::json_char(s.last()));
        lemma_body_grows(d, s.last());
        assert(d.push(s.last()) =~= s);
    }
}

proof fn lemma_literal_is_safe(s: Seq<char>)
    ensures
        separators_escaped(outside::json_literal(s)) == safe_literal(s),
{
    let q = seq!['"'];
    lemma_plain_is_kept(q);
    lemma_body_is_safe(s);
    lemma_escaped_joins(q, outside::json_body(s));
    lemma_escaped_joins(q + outside::json_body(s), q);
}

proof fn lemma_same_rest(p: Seq<char>, x: Seq<char>, y: Seq<char>)
    requires
        p + x == p + y,
    ensures
        x == y,
{
    assert(x =~= (p + x).skip(p.len() as int));
    assert(y =~= (p + y).skip(p.len() as int));
}

/// A character is told by how it begins.
proof fn lemma_char_is_told(c: char, d: char, x: Seq<char>, y: Seq<char>)
    requires
        safe_char(c) + x == safe_char(d) + y,
    ensures
        c == d,
        x == y,
{
    let a = safe_char(c);
    let b = safe_char(d);
    let l = a + x;
    let r = b + y;
    if (c as nat) < 32 {
        context_capture::lemma_control_digits(c);
    }
    if (d as nat) < 32 {
        context_capture::lemma_control_digits(d);
    }
    assert(l[0] == a[0] && r[0] == b[0]);
    if a.len() > 1 {
        assert(l[1] == a[1]);
    }
    if b.len() > 1 {
        assert(r[1] == b[1]);
    }
    if a.len() > 5 {
        assert(l[2] == a[2] && l[4] == a[4] && l[5] == a[5]);
    }
    if b.len() > 5 {
        assert(r[2] == b[2] && r[4] == b[4] && r[5] == b[5]);
    }
    assert(c == d);
    lemma_same_rest(a, x, y);
}

/// A text is told by its literal, whatever follows.
proof fn lemma_body_is_told(s: Seq<char>, t: Seq<char>, x: Seq<char>, y: Seq<char>)
    requires
        safe_body(s) + (seq!['"'] + x) == safe_body(t) + (seq!['"'] + y),
    ensures
        s == t,
        x == y,
    decreases s.len(),
{
    let q = seq!['"'];
    let l = safe_body(s) + (q + x);
    let r = safe_body(t) + (q + y);
    if s.len() == 0 && t.len() == 0 {
        assert(l =~= q + x);
        assert(r =~= q + y);
        lemma_same_rest(q, x, y);
        assert(s =~= t);
    } else if s.len() == 0 {
        assert(l[0] == '"');
        assert(r[0] == safe_char(t[0])[0]);
        assert(false);
    } else if t.len() == 0 {
        assert(r[0] == '"');
        assert(l[0] == safe_char(s[0])[0]);
        assert(false);
    } else {
        let u = safe_body(s.skip(1)) + (q + x);
        let v = safe_body(t.skip(1)) + (q + y);
        assert(l =~= safe_char(s[0]) + u);
        assert(r =~= safe_char(t[0]) + v);
        lemma_char_is_told(s[0], t[0], u, v);
        lemma_body_is_told(s.skip(1), t.skip(1), x, y);
        assert(s =~= seq![s[0]] + s.skip(1));
        assert(t =~= seq![t[0]] + t.skip(1));
    }
}

proof fn lemma_literal_is_told(s: Seq<char>, t: Seq<char>, x: Seq<char>, y: Seq<char>)
    requires
        safe_literal(s) + x == safe_literal(t) + y,
    ensures
        s == t,
        x == y,
{
    let q = seq!['"'];
    let u = safe_body(s) + (q + x);
    let v = safe_body(t) + (q + y);
    assert(safe_literal(s) + x =~= q + u);
    assert(safe_literal(t) + y =~= q + v);
    lemma_same_rest(q, u, v);
    lemma_body_is_told(s, t, x, y);
}

// ---------------------------------------------------------------------------
// How a literal is read
// ---------------------------------------------------------------------------

/// The value of a hexadecimal digit of either case.
pub open spec fn hex_value(c: char) -> Option<nat> {
    if '0' <= c <= '9' {
        Some((c as nat - 48) as nat)
    } else if 'a' <= c <= 'f' {
        Some((c as nat - 87) as nat)
    } else if 'A' <= c <= 'F' {
        Some((c as nat - 55) as nat)
    } else {
        None
    }
}

/// The character that four hexadecimal digits name. Halves of a pair name none by
/// themselves.
pub open spec fn named_char(a: char, b: char, c: char, d: char) -> Option<char> {
    match (hex_value(a), hex_value(b), hex_value(c), hex_value(d)) {
        (Some(p), Some(q), Some(r), Some(s)) => {
            let n = p * 4096 + q * 256 + r * 16 + s;
            if 0xd800 <= n < 0xe000 {
                None
            } else {
                Some(n as char)
            }
        },
        _ => None,
    }
}

/// The character that the escape at the beginning of `body` stands for, and how long
/// the escape is, by the rules of JSON.
pub open spec fn escape_read(body: Seq<char>) -> Option<(char, int)> {
    if body.len() < 2 {
        None
    } else if body[1] == '"' || body[1] == '\\' || body[1] == '/' {
        Some((body[1], 2))
    } else if body[1] == 'b' {
        Some(('\u{8}', 2))
    } else if body[1] == 'f' {
        Some(('\u{c}', 2))
    } else if body[1] == 'n' {
        Some(('\n', 2))
    } else if body[1] == 'r' {
        Some(('\r', 2))
    } else if body[1] == 't' {
        Some(('\t', 2))
    } else if body[1] == 'u' && body.len() >= 6 {
        match named_char(body[2], body[3], body[4], body[5]) {
            Some(c) => Some((c, 6)),
            None => None,
        }
    } else {
        None
    }
}

/// The text that stands between the quotes of a JSON literal, by the rules of JSON;
/// `None` where that is no text of a literal. Pairs of escapes are left out: no
/// message has one.
pub open spec fn text_read(body: Seq<char>) -> Option<Seq<char>>
    decreases body.len(),
{
    if body.len() == 0 {
        Some(Seq::empty())
    } else if body[0] == '\\' {
        match escape_read(body) {
            Some((c, n)) => if 0 < n <= body.len() {
                match text_read(body.skip(n)) {
                    Some(rest) => Some(seq![c] + rest),
                    None => None,
                }
            } else {
                None
            },
            None => None,
        }
    } else if body[0] == '"' || (body[0] as nat) < 32 {
        None
    } else {
        match text_read(body.skip(1)) {
            Some(rest) => Some(seq![body[0]] + rest),
            None => None,
        }
    }
}

proof fn lemma_digit_is_read(d: nat)
    requires
        d < 16,
    ensures
        hex_value(text::hex_digit(d)) == Some(d),
{
}

proof fn lemma_char_is_read(c: char, x: Seq<char>)
    requires
        text_read(x) is Some,
    ensures
        text_read(safe_char(c) + x) == Some(seq![c] + text_read(x)->0),
{
    let e = safe_char(c);
    let b = e + x;
    assert(b[0] == e[0]);
    assert(b.skip(e.len() as int) =~= x);
    if e.len() > 1 {
        assert(b[1] == e[1]);
    }
    if (c as nat) < 32 {
        context_capture::lemma_control_digits(c);
        lemma_digit_is_read((c as nat) / 16);
        lemma_digit_is_read((c as nat) % 16);
    }
    if e.len() > 5 {
        assert(b[2] == e[2] && b[3] == e[3] && b[4] == e[4] && b[5] == e[5]);
        assert(named_char(b[2], b[3], b[4], b[5]) == Some(c));
    }
}

/// A text is read back from its literal in a message: the escapes in it, read by the
/// rules of JSON, give the text.
pub proof fn text_is_read_back(s: Seq<char>)
    ensures
        separators_escaped(outside::json_literal(s)) == safe_literal(s),
        text_read(safe_body(s)) == Some(s),
    decreases s.len(),
{
    lemma_literal_is_safe(s);
    if s.len() > 0 {
        text_is_read_back(s.skip(1));
        lemma_char_is_read(s[0], safe_body(s.skip(1)));
        assert(seq![s[0]] + s.skip(1) =~= s);
    } else {
        assert(s =~= Seq::empty());
    }
}

// ---------------------------------------------------------------------------
// Objects
// ---------------------------------------------------------------------------

/// What stands before the value of a member called `name`.
pub open spec fn heading(name: Seq<char>) -> Seq<char> {
    "\""@ + name + "\":"@
}

/// A word of small letters and underscores.
pub open spec fn is_word(s: Seq<char>) -> bool {
    forall|i: int| 0 <= i < s.len() ==> 'a' <= #[trigger] s[i] <= 'z' || s[i] == '_'
}

/// The members of an object, of the first `n` fields, that have a value.
pub open spec fn members(names: Seq<Seq<char>>, values: Seq<Option<Seq<char>>>, n: int) -> Seq<char>
    decreases n,
{
    if n <= 0 {
        Seq::empty()
    } else {
        match values[n - 1] {
            Some(json) => with_member(members(names, values, n - 1), names[n - 1], json),
            None => members(names, values, n - 1),
        }
    }
}

/// An object, read from its field `k` on; `first` says that no member stands
/// before it.
pub open spec fn rest(
    names: Seq<Seq<char>>,
    values: Seq<Option<Seq<char>>>,
    k: int,
    first: bool,
) -> Seq<char>
    decreases names.len() - k,
{
    if k >= names.len() {
        seq!['}']
    } else {
        match values[k] {
            Some(json) => comma(first) + heading(names[k]) + json + rest(
                names,
                values,
                k + 1,
                false,
            ),
            None => rest(names, values, k + 1, first),
        }
    }
}

pub open spec fn comma(first: bool) -> Seq<char> {
    if first {
        Seq::empty()
    } else {
        seq![',']
    }
}

/// The object with these fields.
pub open spec fn object(names: Seq<Seq<char>>, values: Seq<Option<Seq<char>>>) -> Seq<char> {
    "{"@ + members(names, values, names.len() as int) + "}"@
}

proof fn lemma_unrolled(names: Seq<Seq<char>>, values: Seq<Option<Seq<char>>>, k: int)
    requires
        0 <= k <= names.len(),
    ensures
        members(names, values, names.len() as int) + seq!['}'] == members(names, values, k) + rest(
            names,
            values,
            k,
            members(names, values, k).len() == 0,
        ),
    decreases names.len() - k,
{
    if k < names.len() {
        lemma_unrolled(names, values, k + 1);
        let m = members(names, values, k);
        reveal_strlit("\"");
        reveal_strlit(",");
        match values[k] {
            Some(json) => {
                let n = members(names, values, k + 1);
                assert(n == with_member(m, names[k], json));
                assert("\""@.len() == 1);
                assert(n.len() > 0);
                let r = rest(names, values, k + 1, false);
                assert(","@ =~= seq![',']);
                assert(n =~= m + comma(m.len() == 0) + heading(names[k]) + json);
                assert(n + r =~= m + (comma(m.len() == 0) + heading(names[k]) + json + r));
            },
            None => {},
        }
    }
}

/// The values with their separators escaped.
pub open spec fn escaped(values: Seq<Option<Seq<char>>>) -> Seq<Option<Seq<char>>> {
    values.map_values(
        |v: Option<Seq<char>>|
            match v {
                Some(json) => Some(separators_escaped(json)),
                None => None,
            },
    )
}

proof fn lemma_heading_is_kept(name: Seq<char>)
    requires
        is_word(name),
    ensures
        separators_escaped(heading(name)) == heading(name),
{
    reveal_strlit("\"");
    reveal_strlit("\":");
    let h = heading(name);
    assert forall|i: int| 0 <= i < h.len() implies #[trigger] h[i] != '\u{2028}' && h[i]
        != '\u{2029}' by {
        if 1 <= i < 1 + name.len() {
            assert(h[i] == name[i - 1]);
        }
    }
    lemma_plain_is_kept(h);
}

proof fn lemma_rest_escaped(
    names: Seq<Seq<char>>,
    values: Seq<Option<Seq<char>>>,
    k: int,
    first: bool,
)
    requires
        0 <= k <= names.len(),
        names.len() == values.len(),
        forall|i: int| 0 <= i < names.len() ==> is_word(#[trigger] names[i]),
    ensures
        separators_escaped(rest(names, values, k, first)) == rest(names, escaped(values), k, first),
    decreases names.len() - k,
{
    if k == names.len() {
        lemma_plain_is_kept(seq!['}']);
    } else {
        assert(is_word(names[k]));
        match values[k] {
            Some(json) => {
                let c = comma(first);
                let h = heading(names[k]);
                let r = rest(names, values, k + 1, false);
                lemma_rest_escaped(names, values, k + 1, false);
                lemma_plain_is_kept(c);
                lemma_heading_is_kept(names[k]);
                lemma_escaped_joins(c + h + json, r);
                lemma_escaped_joins(c + h, json);
                lemma_escaped_joins(c, h);
            },
            None => lemma_rest_escaped(names, values, k + 1, first),
        }
    }
}

/// An object in a message.
proof fn lemma_object_escaped(names: Seq<Seq<char>>, values: Seq<Option<Seq<char>>>)
    requires
        names.len() == values.len(),
        forall|i: int| 0 <= i < names.len() ==> is_word(#[trigger] names[i]),
    ensures
        separators_escaped(object(names, values)) == seq!['{'] + rest(
            names,
            escaped(values),
            0,
            true,
        ),
{
    reveal_strlit("{");
    reveal_strlit("}");
    assert("{"@ =~= seq!['{']);
    assert("}"@ =~= seq!['}']);
    lemma_unrolled(names, values, 0);
    let r = rest(names, values, 0, true);
    assert(members(names, values, 0) + r =~= r);
    assert(object(names, values) =~= seq!['{'] + (members(names, values, names.len() as int)
        + seq!['}']));
    lemma_plain_is_kept(seq!['{']);
    lemma_escaped_joins(seq!['{'], r);
    lemma_rest_escaped(names, values, 0, true);
}

// ---------------------------------------------------------------------------
// Values that end where they end
// ---------------------------------------------------------------------------

/// `x` begins as what follows a value in an object.
pub open spec fn stops(x: Seq<char>) -> bool {
    x.len() > 0 && (x[0] == ',' || x[0] == '}')
}

/// Neither of two values goes on where the other ends.
pub open spec fn told(a: Seq<char>, b: Seq<char>) -> bool {
    forall|x: Seq<char>, y: Seq<char>|
        #![trigger a + x, b + y]
        stops(x) && stops(y) && a + x == b + y ==> a == b
}

/// No comma and no closing brace stands in `s`.
pub open spec fn unbroken(s: Seq<char>) -> bool {
    forall|i: int| 0 <= i < s.len() ==> #[trigger] s[i] != ',' && s[i] != '}'
}

proof fn lemma_unbroken_is_told(a: Seq<char>, b: Seq<char>)
    requires
        unbroken(a),
        unbroken(b),
    ensures
        told(a, b),
{
    assert forall|x: Seq<char>, y: Seq<char>|
        #![trigger a + x, b + y]
        stops(x) && stops(y) && a + x == b + y implies a == b by {
        let l = a + x;
        let r = b + y;
        if a.len() < b.len() {
            assert(l[a.len() as int] == x[0]);
            assert(r[a.len() as int] == b[a.len() as int]);
        } else if b.len() < a.len() {
            assert(r[b.len() as int] == y[0]);
            assert(l[b.len() as int] == a[b.len() as int]);
        } else {
            assert(a =~= l.take(a.len() as int));
            assert(b =~= r.take(a.len() as int));
        }
    }
}

proof fn lemma_literals_are_told(s: Seq<char>, t: Seq<char>)
    ensures
        told(safe_literal(s), safe_literal(t)),
        safe_literal(s) == safe_literal(t) ==> s == t,
{
    let a = safe_literal(s);
    let b = safe_literal(t);
    assert forall|x: Seq<char>, y: Seq<char>|
        #![trigger a + x, b + y]
        stops(x) && stops(y) && a + x == b + y implies a == b by {
        lemma_literal_is_told(s, t, x, y);
    }
    if a == b {
        lemma_literal_is_told(s, t, Seq::empty(), Seq::empty());
    }
}

/// A member's name is told by what stands before its value.
proof fn lemma_heading_is_told(m: Seq<char>, n: Seq<char>, x: Seq<char>, y: Seq<char>)
    requires
        is_word(m),
        is_word(n),
        heading(m) + x == heading(n) + y,
    ensures
        m == n,
        x == y,
{
    reveal_strlit("\"");
    reveal_strlit("\":");
    let l = heading(m) + x;
    let r = heading(n) + y;
    if m.len() < n.len() {
        assert(l[1 + m.len() as int] == '"');
        assert(r[1 + m.len() as int] == n[m.len() as int]);
        assert(false);
    } else if n.len() < m.len() {
        assert(r[1 + n.len() as int] == '"');
        assert(l[1 + n.len() as int] == m[n.len() as int]);
        assert(false);
    }
    assert(m =~= l.subrange(1, 1 + m.len() as int));
    assert(n =~= r.subrange(1, 1 + m.len() as int));
    lemma_same_rest(heading(m), x, y);
}

/// The fields of two objects of one shape: words, none twice, and values that
/// are told from one another.
pub open spec fn comparable(
    names: Seq<Seq<char>>,
    a: Seq<Option<Seq<char>>>,
    b: Seq<Option<Seq<char>>>,
) -> bool {
    &&& names.len() == a.len() == b.len()
    &&& forall|i: int| 0 <= i < names.len() ==> is_word(#[trigger] names[i])
    &&& names.no_duplicates()
    &&& forall|i: int|
        0 <= i < names.len() && (#[trigger] a[i]) is Some && b[i] is Some ==> told(a[i]->0, b[i]->0)
}

proof fn lemma_rest_stops(names: Seq<Seq<char>>, values: Seq<Option<Seq<char>>>, k: int)
    requires
        0 <= k <= names.len(),
    ensures
        stops(rest(names, values, k, false)),
    decreases names.len() - k,
{
    if k < names.len() && values[k] is None {
        lemma_rest_stops(names, values, k + 1);
    }
}

/// An object whose remaining fields are all called otherwise does not begin
/// with a member called `name`.
proof fn lemma_other_names(
    names: Seq<Seq<char>>,
    values: Seq<Option<Seq<char>>>,
    k: int,
    first: bool,
    name: Seq<char>,
    x: Seq<char>,
    y: Seq<char>,
)
    requires
        0 <= k <= names.len(),
        is_word(name),
        forall|i: int| 0 <= i < names.len() ==> is_word(#[trigger] names[i]),
        forall|i: int| k <= i < names.len() ==> #[trigger] names[i] != name,
    ensures
        rest(names, values, k, first) + y != comma(first) + (heading(name) + x),
    decreases names.len() - k,
{
    reveal_strlit("\"");
    let l = rest(names, values, k, first) + y;
    let r = comma(first) + (heading(name) + x);
    if k == names.len() {
        assert(l[0] == '}');
        if first {
            assert(r[0] == '"');
        } else {
            assert(r[0] == ',');
        }
    } else {
        match values[k] {
            Some(json) => {
                let u = json + rest(names, values, k + 1, false) + y;
                assert(l =~= comma(first) + (heading(names[k]) + u));
                assert(is_word(names[k]));
                if l == r {
                    lemma_same_rest(comma(first), heading(names[k]) + u, heading(name) + x);
                    lemma_heading_is_told(names[k], name, u, x);
                }
            },
            None => lemma_other_names(names, values, k + 1, first, name, x, y),
        }
    }
}

/// Two objects of one shape that read alike have the same values, whatever
/// follows them.
proof fn lemma_rest_is_told(
    names: Seq<Seq<char>>,
    a: Seq<Option<Seq<char>>>,
    b: Seq<Option<Seq<char>>>,
    k: int,
    first: bool,
    x: Seq<char>,
    y: Seq<char>,
)
    requires
        0 <= k <= names.len(),
        comparable(names, a, b),
        rest(names, a, k, first) + x == rest(names, b, k, first) + y,
    ensures
        forall|i: int| k <= i < names.len() ==> #[trigger] a[i] == b[i],
    decreases names.len() - k,
{
    if k < names.len() {
        assert(is_word(names[k]));
        match (a[k], b[k]) {
            (Some(p), Some(q)) => {
                let h = comma(first) + heading(names[k]);
                let ra = rest(names, a, k + 1, false);
                let rb = rest(names, b, k + 1, false);
                let u = ra + x;
                let v = rb + y;
                assert(rest(names, a, k, first) + x =~= h + (p + u));
                assert(rest(names, b, k, first) + y =~= h + (q + v));
                lemma_same_rest(h, p + u, q + v);
                lemma_rest_stops(names, a, k + 1);
                lemma_rest_stops(names, b, k + 1);
                assert(u[0] == ra[0] && v[0] == rb[0]);
                assert(told(p, q));
                assert(p == q);
                lemma_same_rest(p, u, v);
                lemma_rest_is_told(names, a, b, k + 1, false, x, y);
            },
            (None, None) => lemma_rest_is_told(names, a, b, k + 1, first, x, y),
            (Some(p), None) => {
                let u = p + rest(names, a, k + 1, false) + x;
                assert(rest(names, a, k, first) + x =~= comma(first) + (heading(names[k]) + u));
                lemma_other_names(names, b, k + 1, first, names[k], u, y);
            },
            (None, Some(q)) => {
                let u = q + rest(names, b, k + 1, false) + y;
                assert(rest(names, b, k, first) + y =~= comma(first) + (heading(names[k]) + u));
                lemma_other_names(names, a, k + 1, first, names[k], u, x);
            },
        }
    }
}

/// Two objects of one shape: what they tell, and that neither goes on where
/// the other ends.
proof fn lemma_objects_are_told(
    names: Seq<Seq<char>>,
    a: Seq<Option<Seq<char>>>,
    b: Seq<Option<Seq<char>>>,
)
    requires
        comparable(names, escaped(a), escaped(b)),
        names.len() == a.len() == b.len(),
    ensures
        told(separators_escaped(object(names, a)), separators_escaped(object(names, b))),
        separators_escaped(object(names, a)) == separators_escaped(object(names, b)) ==> escaped(a)
            == escaped(b),
{
    lemma_object_escaped(names, a);
    lemma_object_escaped(names, b);
    let p = separators_escaped(object(names, a));
    let q = separators_escaped(object(names, b));
    let l = rest(names, escaped(a), 0, true);
    let r = rest(names, escaped(b), 0, true);
    assert forall|x: Seq<char>, y: Seq<char>|
        #![trigger p + x, q + y]
        p + x == q + y implies escaped(a) == escaped(b) && p == q by {
        assert(p + x =~= seq!['{'] + (l + x));
        assert(q + y =~= seq!['{'] + (r + y));
        lemma_same_rest(seq!['{'], l + x, r + y);
        lemma_rest_is_told(names, escaped(a), escaped(b), 0, true, x, y);
        assert(escaped(a) =~= escaped(b));
    }
    if p == q {
        let e = Seq::<char>::empty();
        assert(p + e == q + e);
    }
}

// ---------------------------------------------------------------------------
// Lists
// ---------------------------------------------------------------------------

/// A list of texts, read from its text `k` on.
pub open spec fn list_rest(texts: Seq<Seq<char>>, k: int) -> Seq<char>
    decreases texts.len() - k,
{
    if k >= texts.len() {
        seq![']']
    } else {
        comma(k == 0) + safe_literal(texts[k]) + list_rest(texts, k + 1)
    }
}

/// A list of texts as JSON.
pub open spec fn list_json(texts: Seq<Seq<char>>) -> Seq<char> {
    "["@ + text::join(context_capture::literals(texts), ","@) + "]"@
}

proof fn lemma_list_unrolled(texts: Seq<Seq<char>>, k: int)
    requires
        0 <= k <= texts.len(),
    ensures
        separators_escaped(text::join(context_capture::literals(texts.take(k)), ","@)) + list_rest(
            texts,
            k,
        ) == list_rest(texts, 0),
    decreases k,
{
    let now = context_capture::literals(texts.take(k));
    let joined = text::join(now, ","@);
    if k == 0 {
        assert(joined =~= Seq::empty());
        assert(separators_escaped(joined) =~= Seq::empty());
        assert(separators_escaped(joined) + list_rest(texts, 0) =~= list_rest(texts, 0));
    } else {
        lemma_list_unrolled(texts, k - 1);
        let before = context_capture::literals(texts.take(k - 1));
        let b = text::join(before, ","@);
        let last = outside::json_literal(texts[k - 1]);
        assert(now.drop_last() =~= before);
        assert(now.last() == last);
        lemma_literal_is_safe(texts[k - 1]);
        reveal_strlit(",");
        assert(","@ =~= seq![',']);
        lemma_plain_is_kept(","@);
        if k == 1 {
            assert(b =~= Seq::empty());
            assert(joined == last);
            assert(separators_escaped(b) =~= Seq::empty());
        } else {
            assert(joined == b + ","@ + last);
            lemma_escaped_joins(b + ","@, last);
            lemma_escaped_joins(b, ","@);
        }
        assert(separators_escaped(joined) =~= separators_escaped(b) + comma(k == 1) + safe_literal(
            texts[k - 1],
        ));
        assert(separators_escaped(joined) + list_rest(texts, k) =~= separators_escaped(b)
            + list_rest(texts, k - 1));
    }
}

proof fn lemma_list_escaped(texts: Seq<Seq<char>>)
    ensures
        separators_escaped(list_json(texts)) == seq!['['] + list_rest(texts, 0),
{
    reveal_strlit("[");
    reveal_strlit("]");
    assert("["@ =~= seq!['[']);
    assert("]"@ =~= seq![']']);
    assert(texts.take(texts.len() as int) =~= texts);
    lemma_list_unrolled(texts, texts.len() as int);
    let joined = text::join(context_capture::literals(texts), ","@);
    lemma_plain_is_kept("["@);
    lemma_plain_is_kept("]"@);
    lemma_escaped_joins("["@, joined);
    lemma_escaped_joins("["@ + joined, "]"@);
    assert(separators_escaped(list_json(texts)) =~= seq!['['] + (separators_escaped(joined)
        + seq![']']));
}

proof fn lemma_list_rest_is_told(
    s: Seq<Seq<char>>,
    t: Seq<Seq<char>>,
    k: int,
    x: Seq<char>,
    y: Seq<char>,
)
    requires
        0 <= k <= s.len(),
        k <= t.len(),
        list_rest(s, k) + x == list_rest(t, k) + y,
    ensures
        s.len() == t.len(),
        forall|i: int| k <= i < s.len() ==> #[trigger] s[i] == t[i],
    decreases s.len() - k,
{
    let l = list_rest(s, k) + x;
    let r = list_rest(t, k) + y;
    if k < s.len() && k < t.len() {
        let u = list_rest(s, k + 1) + x;
        let v = list_rest(t, k + 1) + y;
        assert(l =~= comma(k == 0) + (safe_literal(s[k]) + u));
        assert(r =~= comma(k == 0) + (safe_literal(t[k]) + v));
        lemma_same_rest(comma(k == 0), safe_literal(s[k]) + u, safe_literal(t[k]) + v);
        lemma_literal_is_told(s[k], t[k], u, v);
        lemma_list_rest_is_told(s, t, k + 1, x, y);
    } else if k < s.len() {
        assert(r[0] == ']');
        assert(l[0] == (comma(k == 0) + safe_literal(s[k]))[0]);
    } else if k < t.len() {
        assert(l[0] == ']');
        assert(r[0] == (comma(k == 0) + safe_literal(t[k]))[0]);
    }
}

proof fn lemma_lists_are_told(s: Seq<Seq<char>>, t: Seq<Seq<char>>)
    ensures
        told(separators_escaped(list_json(s)), separators_escaped(list_json(t))),
        separators_escaped(list_json(s)) == separators_escaped(list_json(t)) ==> s == t,
{
    lemma_list_escaped(s);
    lemma_list_escaped(t);
    let p = separators_escaped(list_json(s));
    let q = separators_escaped(list_json(t));
    assert forall|x: Seq<char>, y: Seq<char>|
        #![trigger p + x, q + y]
        p + x == q + y implies s == t && p == q by {
        assert(p + x =~= seq!['['] + (list_rest(s, 0) + x));
        assert(q + y =~= seq!['['] + (list_rest(t, 0) + y));
        lemma_same_rest(seq!['['], list_rest(s, 0) + x, list_rest(t, 0) + y);
        lemma_list_rest_is_told(s, t, 0, x, y);
        assert(s =~= t);
    }
    if p == q {
        let e = Seq::<char>::empty();
        assert(p + e == q + e);
    }
}

// ---------------------------------------------------------------------------
// Objects of texts
// ---------------------------------------------------------------------------

/// Words, none of them twice.
pub open spec fn are_names(names: Seq<Seq<char>>) -> bool {
    &&& forall|i: int| 0 <= i < names.len() ==> is_word(#[trigger] names[i])
    &&& names.no_duplicates()
}

/// The JSON of a text, where there is one.
pub open spec fn literal(value: Option<Seq<char>>) -> Option<Seq<char>> {
    match value {
        Some(s) => Some(outside::json_literal(s)),
        None => None,
    }
}

/// The object with these texts.
pub open spec fn text_object(names: Seq<Seq<char>>, texts: Seq<Option<Seq<char>>>) -> Seq<char> {
    object(names, texts.map_values(|value: Option<Seq<char>>| literal(value)))
}

proof fn lemma_text_objects_are_told(
    names: Seq<Seq<char>>,
    a: Seq<Option<Seq<char>>>,
    b: Seq<Option<Seq<char>>>,
)
    requires
        are_names(names),
        names.len() == a.len() == b.len(),
    ensures
        told(separators_escaped(text_object(names, a)), separators_escaped(text_object(names, b))),
        separators_escaped(text_object(names, a)) == separators_escaped(text_object(names, b)) ==> a
            == b,
{
    let p = a.map_values(|value: Option<Seq<char>>| literal(value));
    let q = b.map_values(|value: Option<Seq<char>>| literal(value));
    let ep = escaped(p);
    let eq = escaped(q);
    assert forall|i: int| 0 <= i < names.len() implies {
        &&& (#[trigger] ep[i]) is Some == a[i] is Some
        &&& eq[i] is Some == b[i] is Some
        &&& ep[i] is Some && eq[i] is Some ==> told(ep[i]->0, eq[i]->0)
        &&& ep[i] == eq[i] ==> a[i] == b[i]
    } by {
        if let Some(s) = a[i] {
            lemma_literal_is_safe(s);
        }
        if let Some(t) = b[i] {
            lemma_literal_is_safe(t);
        }
        if a[i] is Some && b[i] is Some {
            lemma_literals_are_told(a[i]->0, b[i]->0);
        }
    }
    lemma_objects_are_told(names, p, q);
    if ep == eq {
        assert forall|i: int| 0 <= i < a.len() implies a[i] == b[i] by {
            assert(ep[i] == eq[i]);
        }
        assert(a =~= b);
    }
}

/// The names of the members of a target.
pub open spec fn target_names() -> Seq<Seq<char>> {
    seq![
        "app_name"@,
        "bundle_id"@,
        "window_title"@,
        "document_url"@,
    ]
}

proof fn lemma_target_names()
    ensures
        are_names(target_names()),
{
    reveal_strlit("app_name");
    reveal_strlit("bundle_id");
    reveal_strlit("window_title");
    reveal_strlit("document_url");
    let n = target_names();
    assert("app_name"@.len() == 8 && is_word("app_name"@));
    assert("bundle_id"@.len() == 9 && is_word("bundle_id"@));
    assert("window_title"@.len() == 12 && is_word("window_title"@));
    assert("document_url"@.len() == 12 && is_word("document_url"@));
    assert("window_title"@[0] == 'w' && "document_url"@[0] == 'd');
    assert forall|i: int, j: int| 0 <= i < j < n.len() implies n[i] != n[j] by {
        assert(n[i].len() != n[j].len() || n[i][0] != n[j][0]);
    }
}

/// The names of the members of an editor.
pub open spec fn editor_names() -> Seq<Seq<char>> {
    seq![
        "role"@,
        "title"@,
        "label"@,
        "placeholder"@,
        "selected_text"@,
        "cursor_before"@,
        "cursor_after"@,
        "nearby_before"@,
        "nearby_after"@,
        "field_text"@,
    ]
}

proof fn lemma_editor_names()
    ensures
        are_names(editor_names()),
{
    reveal_strlit("role");
    reveal_strlit("title");
    reveal_strlit("label");
    reveal_strlit("placeholder");
    reveal_strlit("selected_text");
    reveal_strlit("cursor_before");
    reveal_strlit("cursor_after");
    reveal_strlit("nearby_before");
    reveal_strlit("nearby_after");
    reveal_strlit("field_text");
    let n = editor_names();
    assert("role"@.len() == 4 && is_word("role"@));
    assert("title"@.len() == 5 && is_word("title"@));
    assert("label"@.len() == 5 && is_word("label"@));
    assert("placeholder"@.len() == 11 && is_word("placeholder"@));
    assert("selected_text"@.len() == 13 && is_word("selected_text"@));
    assert("cursor_before"@.len() == 13 && is_word("cursor_before"@));
    assert("cursor_after"@.len() == 12 && is_word("cursor_after"@));
    assert("nearby_before"@.len() == 13 && is_word("nearby_before"@));
    assert("nearby_after"@.len() == 12 && is_word("nearby_after"@));
    assert("field_text"@.len() == 10 && is_word("field_text"@));
    assert("title"@[0] == 't' && "label"@[0] == 'l');
    assert("selected_text"@[0] == 's' && "cursor_before"@[0] == 'c' && "nearby_before"@[0] == 'n');
    assert("cursor_after"@[0] == 'c' && "nearby_after"@[0] == 'n');
    assert forall|i: int, j: int| 0 <= i < j < n.len() implies n[i] != n[j] by {
        assert(n[i].len() != n[j].len() || n[i][0] != n[j][0]);
    }
}

/// The names of the members of a browser.
pub open spec fn browser_names() -> Seq<Seq<char>> {
    seq![
        "title"@,
        "domain"@,
        "page_language"@,
        "selection_text"@,
        "nearby_before"@,
        "nearby_after"@,
    ]
}

proof fn lemma_browser_names()
    ensures
        are_names(browser_names()),
{
    reveal_strlit("title");
    reveal_strlit("domain");
    reveal_strlit("page_language");
    reveal_strlit("selection_text");
    reveal_strlit("nearby_before");
    reveal_strlit("nearby_after");
    let n = browser_names();
    assert("title"@.len() == 5 && is_word("title"@));
    assert("domain"@.len() == 6 && is_word("domain"@));
    assert("page_language"@.len() == 13 && is_word("page_language"@));
    assert("selection_text"@.len() == 14 && is_word("selection_text"@));
    assert("nearby_before"@.len() == 13 && is_word("nearby_before"@));
    assert("nearby_after"@.len() == 12 && is_word("nearby_after"@));
    assert("page_language"@[0] == 'p' && "nearby_before"@[0] == 'n');
    assert forall|i: int, j: int| 0 <= i < j < n.len() implies n[i] != n[j] by {
        assert(n[i].len() != n[j].len() || n[i][0] != n[j][0]);
    }
}

/// The names of the members of a projection.
pub open spec fn context_names() -> Seq<Seq<char>> {
    seq![
        "schema_version"@,
        "target"@,
        "editor"@,
        "browser"@,
        "visible_text"@,
        "truncated"@,
    ]
}

proof fn lemma_context_names()
    ensures
        are_names(context_names()),
{
    reveal_strlit("schema_version");
    reveal_strlit("target");
    reveal_strlit("editor");
    reveal_strlit("browser");
    reveal_strlit("visible_text");
    reveal_strlit("truncated");
    let n = context_names();
    assert("schema_version"@.len() == 14 && is_word("schema_version"@));
    assert("target"@.len() == 6 && is_word("target"@));
    assert("editor"@.len() == 6 && is_word("editor"@));
    assert("browser"@.len() == 7 && is_word("browser"@));
    assert("visible_text"@.len() == 12 && is_word("visible_text"@));
    assert("truncated"@.len() == 9 && is_word("truncated"@));
    assert("target"@[0] == 't' && "editor"@[0] == 'e');
    assert forall|i: int, j: int| 0 <= i < j < n.len() implies n[i] != n[j] by {
        assert(n[i].len() != n[j].len() || n[i][0] != n[j][0]);
    }
}

/// The texts of a target.
pub open spec fn target_texts(v: TargetText) -> Seq<Option<Seq<char>>> {
    seq![
        v.app_name,
        v.bundle_id,
        v.window_title,
        v.document_url,
    ]
}

proof fn lemma_target_is_object(e: TargetText)
    ensures
        context_capture::target_json(e) == text_object(target_names(), target_texts(e)),
{
    let n = target_names();
    let t = target_texts(e);
    let v = t.map_values(|value: Option<Seq<char>>| literal(value));
    let m0 = Seq::<char>::empty();
    assert(members(n, v, 0) == m0);
    let m1 = context_capture::with_text(m0, "app_name"@, e.app_name);
    assert(n[0] == "app_name"@ && v[0] == literal(e.app_name));
    assert(members(n, v, 1) == m1);
    let m2 = context_capture::with_text(m1, "bundle_id"@, e.bundle_id);
    assert(n[1] == "bundle_id"@ && v[1] == literal(e.bundle_id));
    assert(members(n, v, 2) == m2);
    let m3 = context_capture::with_text(m2, "window_title"@, e.window_title);
    assert(n[2] == "window_title"@ && v[2] == literal(e.window_title));
    assert(members(n, v, 3) == m3);
    let m4 = context_capture::with_text(m3, "document_url"@, e.document_url);
    assert(n[3] == "document_url"@ && v[3] == literal(e.document_url));
    assert(members(n, v, 4) == m4);
}

proof fn lemma_target_is_told(a: TargetText, b: TargetText)
    ensures
        told(
            separators_escaped(context_capture::target_json(a)),
            separators_escaped(context_capture::target_json(b)),
        ),
        separators_escaped(context_capture::target_json(a)) == separators_escaped(
            context_capture::target_json(b),
        ) ==> a == b,
{
    lemma_target_names();
    let p = target_texts(a);
    let q = target_texts(b);
    lemma_target_is_object(a);
    lemma_target_is_object(b);
    lemma_text_objects_are_told(target_names(), p, q);
    if p == q {
        assert(a.app_name == p[0] && b.app_name == q[0]);
        assert(a.bundle_id == p[1] && b.bundle_id == q[1]);
        assert(a.window_title == p[2] && b.window_title == q[2]);
        assert(a.document_url == p[3] && b.document_url == q[3]);
    }
}

/// The texts of an editor.
pub open spec fn editor_texts(v: EditorText) -> Seq<Option<Seq<char>>> {
    seq![
        v.role,
        v.title,
        v.label,
        v.placeholder,
        v.selected_text,
        v.cursor_before,
        v.cursor_after,
        v.nearby_before,
        v.nearby_after,
        v.field_text,
    ]
}

proof fn lemma_editor_is_object(e: EditorText)
    ensures
        context_capture::editor_json(e) == text_object(editor_names(), editor_texts(e)),
{
    let n = editor_names();
    let t = editor_texts(e);
    let v = t.map_values(|value: Option<Seq<char>>| literal(value));
    let m0 = Seq::<char>::empty();
    assert(members(n, v, 0) == m0);
    let m1 = context_capture::with_text(m0, "role"@, e.role);
    assert(n[0] == "role"@ && v[0] == literal(e.role));
    assert(members(n, v, 1) == m1);
    let m2 = context_capture::with_text(m1, "title"@, e.title);
    assert(n[1] == "title"@ && v[1] == literal(e.title));
    assert(members(n, v, 2) == m2);
    let m3 = context_capture::with_text(m2, "label"@, e.label);
    assert(n[2] == "label"@ && v[2] == literal(e.label));
    assert(members(n, v, 3) == m3);
    let m4 = context_capture::with_text(m3, "placeholder"@, e.placeholder);
    assert(n[3] == "placeholder"@ && v[3] == literal(e.placeholder));
    assert(members(n, v, 4) == m4);
    let m5 = context_capture::with_text(m4, "selected_text"@, e.selected_text);
    assert(n[4] == "selected_text"@ && v[4] == literal(e.selected_text));
    assert(members(n, v, 5) == m5);
    let m6 = context_capture::with_text(m5, "cursor_before"@, e.cursor_before);
    assert(n[5] == "cursor_before"@ && v[5] == literal(e.cursor_before));
    assert(members(n, v, 6) == m6);
    let m7 = context_capture::with_text(m6, "cursor_after"@, e.cursor_after);
    assert(n[6] == "cursor_after"@ && v[6] == literal(e.cursor_after));
    assert(members(n, v, 7) == m7);
    let m8 = context_capture::with_text(m7, "nearby_before"@, e.nearby_before);
    assert(n[7] == "nearby_before"@ && v[7] == literal(e.nearby_before));
    assert(members(n, v, 8) == m8);
    let m9 = context_capture::with_text(m8, "nearby_after"@, e.nearby_after);
    assert(n[8] == "nearby_after"@ && v[8] == literal(e.nearby_after));
    assert(members(n, v, 9) == m9);
    let m10 = context_capture::with_text(m9, "field_text"@, e.field_text);
    assert(n[9] == "field_text"@ && v[9] == literal(e.field_text));
    assert(members(n, v, 10) == m10);
}

proof fn lemma_editor_is_told(a: EditorText, b: EditorText)
    ensures
        told(
            separators_escaped(context_capture::editor_json(a)),
            separators_escaped(context_capture::editor_json(b)),
        ),
        separators_escaped(context_capture::editor_json(a)) == separators_escaped(
            context_capture::editor_json(b),
        ) ==> a == b,
{
    lemma_editor_names();
    let p = editor_texts(a);
    let q = editor_texts(b);
    lemma_editor_is_object(a);
    lemma_editor_is_object(b);
    lemma_text_objects_are_told(editor_names(), p, q);
    if p == q {
        assert(a.role == p[0] && b.role == q[0]);
        assert(a.title == p[1] && b.title == q[1]);
        assert(a.label == p[2] && b.label == q[2]);
        assert(a.placeholder == p[3] && b.placeholder == q[3]);
        assert(a.selected_text == p[4] && b.selected_text == q[4]);
        assert(a.cursor_before == p[5] && b.cursor_before == q[5]);
        assert(a.cursor_after == p[6] && b.cursor_after == q[6]);
        assert(a.nearby_before == p[7] && b.nearby_before == q[7]);
        assert(a.nearby_after == p[8] && b.nearby_after == q[8]);
        assert(a.field_text == p[9] && b.field_text == q[9]);
    }
}

/// The texts of a browser.
pub open spec fn browser_texts(v: BrowserText) -> Seq<Option<Seq<char>>> {
    seq![
        v.title,
        v.domain,
        v.page_language,
        v.selection_text,
        v.nearby_before,
        v.nearby_after,
    ]
}

proof fn lemma_browser_is_object(e: BrowserText)
    ensures
        context_capture::browser_json(e) == text_object(browser_names(), browser_texts(e)),
{
    let n = browser_names();
    let t = browser_texts(e);
    let v = t.map_values(|value: Option<Seq<char>>| literal(value));
    let m0 = Seq::<char>::empty();
    assert(members(n, v, 0) == m0);
    let m1 = context_capture::with_text(m0, "title"@, e.title);
    assert(n[0] == "title"@ && v[0] == literal(e.title));
    assert(members(n, v, 1) == m1);
    let m2 = context_capture::with_text(m1, "domain"@, e.domain);
    assert(n[1] == "domain"@ && v[1] == literal(e.domain));
    assert(members(n, v, 2) == m2);
    let m3 = context_capture::with_text(m2, "page_language"@, e.page_language);
    assert(n[2] == "page_language"@ && v[2] == literal(e.page_language));
    assert(members(n, v, 3) == m3);
    let m4 = context_capture::with_text(m3, "selection_text"@, e.selection_text);
    assert(n[3] == "selection_text"@ && v[3] == literal(e.selection_text));
    assert(members(n, v, 4) == m4);
    let m5 = context_capture::with_text(m4, "nearby_before"@, e.nearby_before);
    assert(n[4] == "nearby_before"@ && v[4] == literal(e.nearby_before));
    assert(members(n, v, 5) == m5);
    let m6 = context_capture::with_text(m5, "nearby_after"@, e.nearby_after);
    assert(n[5] == "nearby_after"@ && v[5] == literal(e.nearby_after));
    assert(members(n, v, 6) == m6);
}

proof fn lemma_browser_is_told(a: BrowserText, b: BrowserText)
    ensures
        told(
            separators_escaped(context_capture::browser_json(a)),
            separators_escaped(context_capture::browser_json(b)),
        ),
        separators_escaped(context_capture::browser_json(a)) == separators_escaped(
            context_capture::browser_json(b),
        ) ==> a == b,
{
    lemma_browser_names();
    let p = browser_texts(a);
    let q = browser_texts(b);
    lemma_browser_is_object(a);
    lemma_browser_is_object(b);
    lemma_text_objects_are_told(browser_names(), p, q);
    if p == q {
        assert(a.title == p[0] && b.title == q[0]);
        assert(a.domain == p[1] && b.domain == q[1]);
        assert(a.page_language == p[2] && b.page_language == q[2]);
        assert(a.selection_text == p[3] && b.selection_text == q[3]);
        assert(a.nearby_before == p[4] && b.nearby_before == q[4]);
        assert(a.nearby_after == p[5] && b.nearby_after == q[5]);
    }
}

// ---------------------------------------------------------------------------
// Projections
// ---------------------------------------------------------------------------

/// The values of the members of a projection.
pub open spec fn context_values(context: ContextText) -> Seq<Option<Seq<char>>> {
    seq![
        Some(text::decimal(context.schema_version as nat)),
        match context.target {
            Some(target) => Some(context_capture::target_json(target)),
            None => None,
        },
        match context.editor {
            Some(editor) => Some(context_capture::editor_json(editor)),
            None => None,
        },
        match context.browser {
            Some(browser) => Some(context_capture::browser_json(browser)),
            None => None,
        },
        if context.visible_text.len() > 0 {
            Some(list_json(context.visible_text))
        } else {
            None
        },
        Some(
            if context.truncated {
                "true"@
            } else {
                "false"@
            },
        ),
    ]
}

proof fn lemma_context_is_object(context: ContextText)
    ensures
        context_capture::context_json(context) == object(context_names(), context_values(context)),
{
    let n = context_names();
    let v = context_values(context);
    assert(members(n, v, 0) == Seq::<char>::empty());
    let a = with_member(Seq::empty(), n[0], v[0]->0);
    assert(members(n, v, 1) == a);
    let b = if v[1] is Some {
        with_member(a, n[1], v[1]->0)
    } else {
        a
    };
    assert(members(n, v, 2) == b);
    let c = if v[2] is Some {
        with_member(b, n[2], v[2]->0)
    } else {
        b
    };
    assert(members(n, v, 3) == c);
    let d = if v[3] is Some {
        with_member(c, n[3], v[3]->0)
    } else {
        c
    };
    assert(members(n, v, 4) == d);
    let e = if v[4] is Some {
        with_member(d, n[4], v[4]->0)
    } else {
        d
    };
    assert(members(n, v, 5) == e);
    assert(members(n, v, 6) == with_member(e, n[5], v[5]->0));
}

proof fn lemma_decimal_is_unbroken(n: nat)
    ensures
        unbroken(text::decimal(n)),
        plain(text::decimal(n)),
    decreases n,
{
    if n >= 10 {
        lemma_decimal_is_unbroken(n / 10);
        let before = text::decimal(n / 10);
        let now = text::decimal(n);
        assert forall|i: int| 0 <= i < now.len() implies #[trigger] now[i] != ',' && now[i] != '}'
            && now[i] != '\u{2028}' && now[i] != '\u{2029}' by {
            if i < before.len() {
                assert(now[i] == before[i]);
            }
        }
    }
}

proof fn lemma_truths_are_told(p: bool, q: bool)
    ensures
        ({
            let a = if p {
                "true"@
            } else {
                "false"@
            };
            let b = if q {
                "true"@
            } else {
                "false"@
            };
            &&& separators_escaped(a) == a
            &&& separators_escaped(b) == b
            &&& told(a, b)
            &&& a == b ==> p == q
        }),
{
    reveal_strlit("true");
    reveal_strlit("false");
    assert("true"@.len() == 4 && "false"@.len() == 5);
    assert(plain("true"@) && plain("false"@) && unbroken("true"@) && unbroken("false"@));
    lemma_plain_is_kept("true"@);
    lemma_plain_is_kept("false"@);
    lemma_unbroken_is_told("true"@, "false"@);
    lemma_unbroken_is_told("false"@, "true"@);
    lemma_unbroken_is_told("true"@, "true"@);
    lemma_unbroken_is_told("false"@, "false"@);
}

/// The values of two projections are told from one another, member by member.
proof fn lemma_values_are_told(a: ContextText, b: ContextText, i: int)
    requires
        a.schema_version >= 0,
        b.schema_version >= 0,
        0 <= i < 6,
    ensures
        ({
            let p = escaped(context_values(a))[i];
            let q = escaped(context_values(b))[i];
            &&& p is Some && q is Some ==> told(p->0, q->0)
            &&& p == q ==> {
                &&& i == 0 ==> a.schema_version == b.schema_version
                &&& i == 1 ==> a.target == b.target
                &&& i == 2 ==> a.editor == b.editor
                &&& i == 3 ==> a.browser == b.browser
                &&& i == 4 ==> a.visible_text == b.visible_text
                &&& i == 5 ==> a.truncated == b.truncated
            }
        }),
{
    let p = escaped(context_values(a))[i];
    let q = escaped(context_values(b))[i];
    if i == 0 {
        let m = a.schema_version as nat;
        let n = b.schema_version as nat;
        lemma_decimal_is_unbroken(m);
        lemma_decimal_is_unbroken(n);
        lemma_plain_is_kept(text::decimal(m));
        lemma_plain_is_kept(text::decimal(n));
        lemma_unbroken_is_told(text::decimal(m), text::decimal(n));
        if p == q {
            text::lemma_decimal_differs(m, n);
        }
    } else if i == 1 {
        if a.target is Some && b.target is Some {
            lemma_target_is_told(a.target->0, b.target->0);
        }
    } else if i == 2 {
        if a.editor is Some && b.editor is Some {
            lemma_editor_is_told(a.editor->0, b.editor->0);
        }
    } else if i == 3 {
        if a.browser is Some && b.browser is Some {
            lemma_browser_is_told(a.browser->0, b.browser->0);
        }
    } else if i == 4 {
        lemma_lists_are_told(a.visible_text, b.visible_text);
        if a.visible_text.len() == 0 && b.visible_text.len() == 0 {
            assert(a.visible_text =~= b.visible_text);
        }
    } else {
        lemma_truths_are_told(a.truncated, b.truncated);
    }
}

/// A model message tells its projection: two projections are written alike
/// only where they are the same, so that nothing of one is lost or taken for
/// something else in its message.
pub proof fn message_tells_its_projection(a: ContextText, b: ContextText)
    requires
        a.schema_version >= 0,
        b.schema_version >= 0,
    ensures
        separators_escaped(context_capture::context_json(a)) == separators_escaped(
            context_capture::context_json(b),
        ) <==> a == b,
{
    let n = context_names();
    let p = context_values(a);
    let q = context_values(b);
    lemma_context_is_object(a);
    lemma_context_is_object(b);
    lemma_context_names();
    assert forall|i: int| 0 <= i < n.len() && (#[trigger] escaped(p)[i]) is Some && escaped(
        q,
    )[i] is Some implies told(escaped(p)[i]->0, escaped(q)[i]->0) by {
        lemma_values_are_told(a, b, i);
    }
    lemma_objects_are_told(n, p, q);
    if escaped(p) == escaped(q) {
        lemma_values_are_told(a, b, 0);
        lemma_values_are_told(a, b, 1);
        lemma_values_are_told(a, b, 2);
        lemma_values_are_told(a, b, 3);
        lemma_values_are_told(a, b, 4);
        lemma_values_are_told(a, b, 5);
    }
}

} // verus!
