//! Text over Unicode scalar values: the model is `Seq<char>`, the view of a
//! `str` or `String`.
use vstd::prelude::*;
use vstd::string::*;

verus! {

// ---------------------------------------------------------------------------
// Characters
// ---------------------------------------------------------------------------

/// The scalar values with the Unicode property White_Space.
pub open spec fn is_space(c: char) -> bool {
    ||| '\u{9}' <= c <= '\u{d}'
    ||| c == ' '
    ||| c == '\u{85}'
    ||| c == '\u{a0}'
    ||| c == '\u{1680}'
    ||| '\u{2000}' <= c <= '\u{200a}'
    ||| c == '\u{2028}'
    ||| c == '\u{2029}'
    ||| c == '\u{202f}'
    ||| c == '\u{205f}'
    ||| c == '\u{3000}'
}

/// Whether `c` is white space.
pub fn char_is_space(c: char) -> (b: bool)
    ensures
        b == is_space(c),
{
    ('\u{9}' <= c && c <= '\u{d}') || c == ' ' || c == '\u{85}' || c == '\u{a0}' || c == '\u{1680}'
        || ('\u{2000}' <= c && c <= '\u{200a}') || c == '\u{2028}' || c == '\u{2029}' || c
        == '\u{202f}' || c == '\u{205f}' || c == '\u{3000}'
}

/// `c` with the letters `A` to `Z` in lower case; any other scalar value as it is.
pub open spec fn lower_char(c: char) -> char {
    if 'A' <= c <= 'Z' {
        ((c as u32) + 32) as char
    } else {
        c
    }
}

/// `c` with the letters `a` to `z` in upper case; any other scalar value as it is.
pub open spec fn upper_char(c: char) -> char {
    if 'a' <= c <= 'z' {
        ((c as u32) - 32) as char
    } else {
        c
    }
}

pub fn char_to_lower(c: char) -> (r: char)
    ensures
        r == lower_char(c),
{
    if 'A' <= c && c <= 'Z' {
        ((c as u8) + 32) as char
    } else {
        c
    }
}

pub fn char_to_upper(c: char) -> (r: char)
    ensures
        r == upper_char(c),
{
    if 'a' <= c && c <= 'z' {
        ((c as u8) - 32) as char
    } else {
        c
    }
}

// ---------------------------------------------------------------------------
// Conversions
// ---------------------------------------------------------------------------

/// The scalar values of `s`, in order.
pub fn to_chars(s: &str) -> (chars: Vec<char>)
    ensures
        chars@ == s@,
{
    let mut chars: Vec<char> = Vec::new();
    for c in iter: s.chars()
        invariant
            chars@ == iter.seq().take(iter.index()),
    {
        chars.push(c);
    }
    chars
}

/// The string of the scalar values of `chars` from `start` up to, not
/// including, `end`.
pub fn from_chars(chars: &Vec<char>, start: usize, end: usize) -> (s: String)
    requires
        start <= end <= chars@.len(),
    ensures
        s@ == chars@.subrange(start as int, end as int),
{
    let mut s: String = String::new();
    let mut i: usize = start;
    while i < end
        invariant
            start <= i <= end <= chars@.len(),
            s@ == chars@.subrange(start as int, i as int),
        decreases end - i,
    {
        s.push(chars[i]);
        i = i + 1;
        assert(chars@.subrange(start as int, i as int) == chars@.subrange(
            start as int,
            i - 1,
        ).push(chars@[i - 1]));
    }
    s
}

/// Whether two texts are the same.
pub fn same(a: &str, b: &str) -> (r: bool)
    ensures
        r == (a@ == b@),
{
    let x: Vec<char> = to_chars(a);
    let y: Vec<char> = to_chars(b);
    same_chars(&x, &y)
}

/// Whether two texts, held as scalar values, are the same.
pub fn same_chars(x: &Vec<char>, y: &Vec<char>) -> (r: bool)
    ensures
        r == (x@ == y@),
{
    if x.len() != y.len() {
        return false;
    }
    let mut i: usize = 0;
    while i < x.len()
        invariant
            i <= x@.len(),
            x@.len() == y@.len(),
            forall|j: int| 0 <= j < i ==> x@[j] == y@[j],
        decreases x@.len() - i,
    {
        if x[i] != y[i] {
            return false;
        }
        i = i + 1;
    }
    assert(x@ =~= y@);
    true
}

// ---------------------------------------------------------------------------
// Trimming and case
// ---------------------------------------------------------------------------

/// `s` without its leading white space.
pub open spec fn trim_start(s: Seq<char>) -> Seq<char>
    decreases s.len(),
{
    if s.len() > 0 && is_space(s[0]) {
        trim_start(s.subrange(1, s.len() as int))
    } else {
        s
    }
}

/// `s` without its trailing white space.
pub open spec fn trim_end(s: Seq<char>) -> Seq<char>
    decreases s.len(),
{
    if s.len() > 0 && is_space(s[s.len() - 1]) {
        trim_end(s.subrange(0, s.len() - 1))
    } else {
        s
    }
}

/// `s` without its leading and trailing white space.
pub open spec fn trim(s: Seq<char>) -> Seq<char> {
    trim_end(trim_start(s))
}

/// `s` with its ASCII letters in lower case.
pub open spec fn lower(s: Seq<char>) -> Seq<char> {
    s.map_values(|c: char| lower_char(c))
}

/// `s` with its ASCII letters in upper case.
pub open spec fn upper(s: Seq<char>) -> Seq<char> {
    s.map_values(|c: char| upper_char(c))
}

/// The bounds of the trimmed part of `chars`.
fn trim_bounds(chars: &Vec<char>) -> (r: (usize, usize))
    ensures
        r.0 <= r.1 <= chars@.len(),
        chars@.subrange(r.0 as int, r.1 as int) == trim(chars@),
{
    let n: usize = chars.len();
    let mut start: usize = 0;
    assert(chars@.subrange(0, n as int) =~= chars@);
    while start < n && char_is_space(chars[start])
        invariant
            start <= n == chars@.len(),
            trim_start(chars@) == trim_start(chars@.subrange(start as int, n as int)),
        decreases n - start,
    {
        assert(chars@.subrange(start as int, n as int).subrange(1, n - start)
            =~= chars@.subrange(start + 1, n as int));
        start = start + 1;
    }
    assert(trim_start(chars@) == chars@.subrange(start as int, n as int));
    let mut end: usize = n;
    while end > start && char_is_space(chars[end - 1])
        invariant
            start <= end <= n == chars@.len(),
            trim(chars@) == trim_end(chars@.subrange(start as int, end as int)),
        decreases end,
    {
        assert(chars@.subrange(start as int, end as int).subrange(0, end - start - 1)
            =~= chars@.subrange(start as int, end - 1));
        end = end - 1;
    }
    (start, end)
}

/// `s` without leading and trailing white space.
pub fn trimmed(s: &str) -> (r: String)
    ensures
        r@ == trim(s@),
{
    let chars: Vec<char> = to_chars(s);
    let (start, end) = trim_bounds(&chars);
    from_chars(&chars, start, end)
}

/// Whether nothing is left of `s` once it is trimmed.
pub fn is_blank(s: &str) -> (r: bool)
    ensures
        r == (trim(s@).len() == 0),
{
    let chars: Vec<char> = to_chars(s);
    let (start, end) = trim_bounds(&chars);
    start == end
}

/// `s` without trailing white space.
pub fn trimmed_end(s: &str) -> (r: String)
    ensures
        r@ == trim_end(s@),
{
    let chars: Vec<char> = to_chars(s);
    let n: usize = chars.len();
    let mut end: usize = n;
    assert(chars@.subrange(0, n as int) =~= chars@);
    while end > 0 && char_is_space(chars[end - 1])
        invariant
            end <= n == chars@.len(),
            trim_end(chars@) == trim_end(chars@.subrange(0, end as int)),
        decreases end,
    {
        assert(chars@.subrange(0, end as int).subrange(0, end - 1) =~= chars@.subrange(0, end - 1));
        end = end - 1;
    }
    from_chars(&chars, 0, end)
}

/// `s` with its ASCII letters in lower case.
pub fn lowered(s: &str) -> (r: String)
    ensures
        r@ == lower(s@),
{
    let chars: Vec<char> = to_chars(s);
    let mut r: String = String::new();
    let mut i: usize = 0;
    while i < chars.len()
        invariant
            i <= chars@.len(),
            r@ == lower(chars@.take(i as int)),
        decreases chars@.len() - i,
    {
        r.push(char_to_lower(chars[i]));
        i = i + 1;
        assert(r@ =~= lower(chars@.take(i as int)));
    }
    assert(chars@.take(i as int) =~= chars@);
    r
}

/// `s` with its ASCII letters in upper case.
pub fn uppered(s: &str) -> (r: String)
    ensures
        r@ == upper(s@),
{
    let chars: Vec<char> = to_chars(s);
    let mut r: String = String::new();
    let mut i: usize = 0;
    while i < chars.len()
        invariant
            i <= chars@.len(),
            r@ == upper(chars@.take(i as int)),
        decreases chars@.len() - i,
    {
        r.push(char_to_upper(chars[i]));
        i = i + 1;
        assert(r@ =~= upper(chars@.take(i as int)));
    }
    assert(chars@.take(i as int) =~= chars@);
    r
}

/// The view of an optional string.
pub open spec fn opt(value: Option<String>) -> Option<Seq<char>> {
    match value {
        Some(s) => Some(s@),
        None => None,
    }
}

/// `r` is an error with the words `message`.
pub open spec fn fails<T>(r: Result<T, String>, message: Seq<char>) -> bool {
    r matches Err(error) && error@ == message
}

/// The view of a borrowed optional string.
pub open spec fn seen(value: Option<&String>) -> Option<Seq<char>> {
    match value {
        Some(s) => Some(s@),
        None => None,
    }
}

/// A copy of an optional string.
pub fn copy_opt(value: &Option<String>) -> (r: Option<String>)
    ensures
        opt(r) == opt(*value),
{
    match value {
        Some(s) => Some(s.as_str().to_owned()),
        None => None,
    }
}

/// `value`, where it is given.
pub open spec fn given(is_given: bool, value: Seq<char>) -> Option<Seq<char>> {
    if is_given {
        Some(value)
    } else {
        None
    }
}

/// A copy of a text, where it is given.
pub fn only_if(is_given: bool, value: &str) -> (r: Option<String>)
    ensures
        opt(r) == given(is_given, value@),
{
    if is_given {
        Some(value.to_owned())
    } else {
        None
    }
}

/// A copy of a list of texts.
pub fn copy_texts(list: &Vec<String>) -> (r: Vec<String>)
    ensures
        texts(r@) == texts(list@),
{
    let ghost all = texts(list@);
    let mut r: Vec<String> = Vec::new();
    let mut i: usize = 0;
    while i < list.len()
        invariant
            i <= list@.len(),
            all == texts(list@),
            texts(r@) == all.take(i as int),
        decreases list@.len() - i,
    {
        let ghost had = texts(r@);
        r.push(list[i].as_str().to_owned());
        assert(texts(r@) =~= had.push(all[i as int]));
        assert(all.take(i + 1) =~= had.push(all[i as int]));
        i = i + 1;
    }
    assert(all.take(i as int) =~= all);
    r
}

/// No white space stands at either end of what trimming leaves.
pub proof fn lemma_trim_ends(s: Seq<char>)
    ensures
        trim(s).len() > 0 ==> !is_space(trim(s)[0]) && !is_space(trim(s).last()),
{
    lemma_trim_start_end(s);
    lemma_trim_end_end(trim_start(s));
}

proof fn lemma_trim_start_end(s: Seq<char>)
    ensures
        trim_start(s).len() > 0 ==> !is_space(trim_start(s)[0]),
    decreases s.len(),
{
    if s.len() > 0 && is_space(s[0]) {
        lemma_trim_start_end(s.subrange(1, s.len() as int));
    }
}

proof fn lemma_trim_end_end(s: Seq<char>)
    ensures
        trim_end(s).len() > 0 ==> !is_space(trim_end(s).last()),
        trim_end(s).len() > 0 ==> trim_end(s)[0] == s[0],
    decreases s.len(),
{
    if s.len() > 0 && is_space(s[s.len() - 1]) {
        lemma_trim_end_end(s.subrange(0, s.len() - 1));
    }
}

/// A text without white space at either end is as it is when trimmed.
pub proof fn lemma_trim_is_same(s: Seq<char>)
    requires
        s.len() > 0 ==> !is_space(s[0]) && !is_space(s.last()),
    ensures
        trim(s) == s,
{
}

/// Trimming a second time changes nothing.
pub proof fn lemma_trim_twice(s: Seq<char>)
    ensures
        trim(trim(s)) == trim(s),
{
    lemma_trim_ends(s);
    lemma_trim_is_same(trim(s));
}

/// Lowering the case keeps white space where it is, so that a trimmed text
/// stays trimmed, and a second time changes nothing.
pub proof fn lemma_lower_trimmed(s: Seq<char>)
    ensures
        trim(lower(trim(s))) == lower(trim(s)),
        lower(lower(s)) == lower(s),
{
    lemma_trim_ends(s);
    assert(lower(lower(s)) =~= lower(s));
    lemma_trim_is_same(lower(trim(s)));
}

// ---------------------------------------------------------------------------
// Searching
// ---------------------------------------------------------------------------

/// `needle` stands in `hay` at position `at`.
pub open spec fn occurs_at(hay: Seq<char>, needle: Seq<char>, at: int) -> bool {
    0 <= at && at + needle.len() <= hay.len() && hay.subrange(at, at + needle.len()) == needle
}

/// `needle` stands somewhere in `hay`.
pub open spec fn occurs(hay: Seq<char>, needle: Seq<char>) -> bool {
    exists|at: int| occurs_at(hay, needle, at)
}

/// `s` begins with `prefix`.
pub open spec fn begins(s: Seq<char>, prefix: Seq<char>) -> bool {
    occurs_at(s, prefix, 0)
}

/// `s` ends with `suffix`.
pub open spec fn ends(s: Seq<char>, suffix: Seq<char>) -> bool {
    occurs_at(s, suffix, s.len() - suffix.len())
}

/// The first position, from `from` on, at which `needle` stands in `hay`.
pub open spec fn first_from(hay: Seq<char>, needle: Seq<char>, from: int) -> Option<int>
    decreases hay.len() - from + 1,
{
    if from < 0 || from + needle.len() > hay.len() {
        None
    } else if occurs_at(hay, needle, from) {
        Some(from)
    } else {
        first_from(hay, needle, from + 1)
    }
}

/// The last position, up to `upto`, at which `needle` stands in `hay`.
pub open spec fn last_upto(hay: Seq<char>, needle: Seq<char>, upto: int) -> Option<int>
    decreases upto + 1,
{
    if upto < 0 {
        None
    } else if occurs_at(hay, needle, upto) {
        Some(upto)
    } else {
        last_upto(hay, needle, upto - 1)
    }
}

/// `first_from` is the least position at which the needle stands.
pub proof fn lemma_first_from(hay: Seq<char>, needle: Seq<char>, from: int)
    requires
        0 <= from,
    ensures
        match first_from(hay, needle, from) {
            Some(at) => from <= at && occurs_at(hay, needle, at) && forall|j: int|
                from <= j < at ==> !occurs_at(hay, needle, j),
            None => forall|j: int| from <= j ==> !occurs_at(hay, needle, j),
        },
    decreases hay.len() - from + 1,
{
    if from + needle.len() <= hay.len() && !occurs_at(hay, needle, from) {
        lemma_first_from(hay, needle, from + 1);
    }
}

/// What stands in a text is found, at that place or before it.
pub proof fn lemma_first_is_found(hay: Seq<char>, needle: Seq<char>, from: int, at: int)
    requires
        0 <= from <= at,
        at + needle.len() <= hay.len(),
        hay.subrange(at, at + needle.len()) == needle,
    ensures
        first_from(hay, needle, from) matches Some(first) && from <= first <= at,
{
    lemma_first_from(hay, needle, from);
    assert(occurs_at(hay, needle, at));
}

/// `last_upto` is the greatest position at which the needle stands.
pub proof fn lemma_last_upto(hay: Seq<char>, needle: Seq<char>, upto: int)
    ensures
        match last_upto(hay, needle, upto) {
            Some(at) => 0 <= at <= upto && occurs_at(hay, needle, at) && forall|j: int|
                at < j <= upto ==> !occurs_at(hay, needle, j),
            None => forall|j: int| 0 <= j <= upto ==> !occurs_at(hay, needle, j),
        },
    decreases upto + 1,
{
    if upto >= 0 && !occurs_at(hay, needle, upto) {
        lemma_last_upto(hay, needle, upto - 1);
    }
}

/// What stands in a text and does not come again is found from its end.
pub proof fn lemma_last_is_found(hay: Seq<char>, needle: Seq<char>, at: int)
    requires
        0 <= at,
        at + needle.len() <= hay.len(),
        hay.subrange(at, at + needle.len()) == needle,
        forall|i: int| at < i ==> !#[trigger] occurs_at(hay, needle, i),
    ensures
        last_upto(hay, needle, hay.len() as int) == Some(at),
{
    lemma_last_upto(hay, needle, hay.len() as int);
    assert(occurs_at(hay, needle, at));
}

/// Whether `needle` stands in `hay` at `at`.
pub fn stands_at(hay: &Vec<char>, needle: &Vec<char>, at: usize) -> (r: bool)
    ensures
        r == occurs_at(hay@, needle@, at as int),
{
    let n: usize = hay.len();
    if at > n || needle.len() > n - at {
        return false;
    }
    let mut i: usize = 0;
    while i < needle.len()
        invariant
            i <= needle@.len(),
            at + needle@.len() <= n == hay@.len(),
            forall|j: int| 0 <= j < i ==> hay@[at + j] == needle@[j],
        decreases needle@.len() - i,
    {
        if hay[at + i] != needle[i] {
            assert(hay@.subrange(at as int, at + needle@.len())[i as int] != needle@[i as int]);
            return false;
        }
        i = i + 1;
    }
    assert(hay@.subrange(at as int, at + needle@.len()) =~= needle@);
    true
}

/// The first position at which `needle` stands in `hay`, from `from` on.
pub fn find_from(hay: &Vec<char>, needle: &Vec<char>, from: usize) -> (r: Option<usize>)
    ensures
        r is Some <==> first_from(hay@, needle@, from as int) is Some,
        r matches Some(at) ==> first_from(hay@, needle@, from as int) == Some(at as int)
            && occurs_at(hay@, needle@, at as int) && from <= at,
{
    let n: usize = hay.len();
    let mut at: usize = from;
    while at < n
        invariant
            from <= at,
            n == hay@.len(),
            first_from(hay@, needle@, from as int) == first_from(hay@, needle@, at as int),
        decreases n - at,
    {
        if stands_at(hay, needle, at) {
            return Some(at);
        }
        proof {
            lemma_first_from(hay@, needle@, at as int);
            lemma_first_from(hay@, needle@, at + 1);
        }
        at = at + 1;
    }
    if stands_at(hay, needle, at) {
        return Some(at);
    }
    proof {
        lemma_first_from(hay@, needle@, at as int);
    }
    None
}

/// The last position at which `needle` stands in `hay`.
pub fn find_last(hay: &Vec<char>, needle: &Vec<char>) -> (r: Option<usize>)
    ensures
        r is Some <==> last_upto(hay@, needle@, hay@.len() as int) is Some,
        r matches Some(at) ==> last_upto(hay@, needle@, hay@.len() as int) == Some(at as int)
            && occurs_at(hay@, needle@, at as int),
{
    let mut at: usize = hay.len();
    while at > 0
        invariant
            at <= hay@.len(),
            last_upto(hay@, needle@, hay@.len() as int) == last_upto(hay@, needle@, at as int),
        decreases at,
    {
        if stands_at(hay, needle, at) {
            return Some(at);
        }
        at = at - 1;
    }
    if stands_at(hay, needle, 0) {
        return Some(0);
    }
    assert(last_upto(hay@, needle@, -1) is None);
    None
}

/// Whether `needle` stands somewhere in `hay`.
pub fn contains(hay: &str, needle: &str) -> (r: bool)
    ensures
        r == occurs(hay@, needle@),
{
    let h: Vec<char> = to_chars(hay);
    let n: Vec<char> = to_chars(needle);
    proof {
        lemma_first_from(hay@, needle@, 0);
        assert(forall|at: int| occurs_at(hay@, needle@, at) ==> 0 <= at);
    }
    find_from(&h, &n, 0).is_some()
}

/// Whether `s` begins with `prefix`.
pub fn starts_with(s: &str, prefix: &str) -> (r: bool)
    ensures
        r == begins(s@, prefix@),
{
    let h: Vec<char> = to_chars(s);
    let n: Vec<char> = to_chars(prefix);
    stands_at(&h, &n, 0)
}

/// What follows `prefix` in `s`, where `s` begins with it.
pub fn after_prefix(s: &str, prefix: &str) -> (r: Option<String>)
    ensures
        r is Some <==> begins(s@, prefix@),
        r matches Some(rest) ==> rest@ == s@.skip(prefix@.len() as int),
{
    let h: Vec<char> = to_chars(s);
    let n: Vec<char> = to_chars(prefix);
    if stands_at(&h, &n, 0) {
        let rest: String = from_chars(&h, n.len(), h.len());
        assert(rest@ =~= s@.skip(prefix@.len() as int));
        Some(rest)
    } else {
        None
    }
}

// ---------------------------------------------------------------------------
// Joining and splitting
// ---------------------------------------------------------------------------

/// `a` and `b`, one after the other.
pub fn glue(a: &str, b: &str) -> (r: String)
    ensures
        r@ == a@ + b@,
{
    let mut r: String = a.to_owned();
    r.append(b);
    r
}

/// `a`, `b` and `c`, one after the other.
pub fn glue3(a: &str, b: &str, c: &str) -> (r: String)
    ensures
        r@ == a@ + b@ + c@,
{
    let mut r: String = a.to_owned();
    r.append(b);
    r.append(c);
    r
}


/// The views of a vector of strings.
pub open spec fn texts(v: Seq<String>) -> Seq<Seq<char>> {
    v.map_values(|s: String| s@)
}

/// The texts of `parts`, with `sep` between each two.
pub open spec fn join(parts: Seq<Seq<char>>, sep: Seq<char>) -> Seq<char>
    decreases parts.len(),
{
    if parts.len() == 0 {
        Seq::empty()
    } else if parts.len() == 1 {
        parts[0]
    } else {
        join(parts.drop_last(), sep) + sep + parts.last()
    }
}

/// The strings of `parts`, with `sep` between each two.
pub fn joined(parts: &Vec<String>, sep: &str) -> (r: String)
    ensures
        r@ == join(texts(parts@), sep@),
{
    let mut r: String = String::new();
    let mut i: usize = 0;
    while i < parts.len()
        invariant
            i <= parts@.len(),
            r@ == join(texts(parts@).take(i as int), sep@),
        decreases parts@.len() - i,
    {
        if i > 0 {
            r.append(sep);
        }
        r.append(parts[i].as_str());
        proof {
            let next = texts(parts@).take(i + 1);
            assert(next.drop_last() =~= texts(parts@).take(i as int));
            assert(next.last() == parts@[i as int]@);
            assert(r@ =~= join(next, sep@));
        }
        i = i + 1;
    }
    assert(texts(parts@).take(i as int) =~= texts(parts@));
    r
}

/// The pieces of `s` between the scalar values for which `cut` holds, in order;
/// always at least one.
pub open spec fn split(s: Seq<char>, cut: spec_fn(char) -> bool) -> Seq<Seq<char>>
    decreases s.len(),
{
    if s.len() == 0 {
        seq![Seq::empty()]
    } else {
        let head = split(s.drop_last(), cut);
        if cut(s.last()) {
            head.push(Seq::empty())
        } else {
            head.drop_last().push(head.last().push(s.last()))
        }
    }
}

/// What stands in `s` before the first scalar value for which `cut` holds.
pub open spec fn until(s: Seq<char>, cut: spec_fn(char) -> bool) -> Seq<char>
    decreases s.len(),
{
    if s.len() == 0 || cut(s[0]) {
        Seq::empty()
    } else {
        seq![s[0]] + until(s.skip(1), cut)
    }
}

/// Where the first scalar value of `chars` stands that `cut` accepts.
pub(crate) fn until_where<F: Fn(char) -> bool>(
    s: &str,
    cut: F,
    Ghost(cut_spec): Ghost<spec_fn(char) -> bool>,
) -> (r: String)
    requires
        forall|c: char| call_requires(cut, (c,)),
        forall|c: char, b: bool| call_ensures(cut, (c,), b) ==> b == cut_spec(c),
    ensures
        r@ == until(s@, cut_spec),
{
    let chars: Vec<char> = to_chars(s);
    let mut r: String = String::new();
    let mut i: usize = 0;
    assert(chars@.skip(0) =~= chars@);
    while i < chars.len()
        invariant
            i <= chars@.len(),
            chars@ == s@,
            forall|c: char| call_requires(cut, (c,)),
            forall|c: char, b: bool| call_ensures(cut, (c,), b) ==> b == cut_spec(c),
            until(s@, cut_spec) == r@ + until(chars@.skip(i as int), cut_spec),
        decreases chars@.len() - i,
    {
        let ghost rest = chars@.skip(i as int);
        if cut(chars[i]) {
            assert(r@ + until(rest, cut_spec) =~= r@);
            return r;
        }
        let ghost before = r@;
        r.push(chars[i]);
        i = i + 1;
        assert(rest.skip(1) =~= chars@.skip(i as int));
        assert(before + until(rest, cut_spec) =~= r@ + until(chars@.skip(i as int), cut_spec));
    }
    assert(r@ + until(chars@.skip(i as int), cut_spec) =~= r@);
    r
}

pub proof fn lemma_split_nonempty(s: Seq<char>, cut: spec_fn(char) -> bool)
    ensures
        split(s, cut).len() > 0,
    decreases s.len(),
{
    if s.len() > 0 {
        lemma_split_nonempty(s.drop_last(), cut);
    }
}

/// The pieces of `s` between the scalar values that `cut` accepts.
pub(crate) fn split_where<F: Fn(char) -> bool>(
    s: &str,
    cut: F,
    Ghost(cut_spec): Ghost<spec_fn(char) -> bool>,
) -> (r: Vec<String>)
    requires
        forall|c: char| call_requires(cut, (c,)),
        forall|c: char, b: bool| call_ensures(cut, (c,), b) ==> b == cut_spec(c),
    ensures
        texts(r@) == split(s@, cut_spec),
{
    let chars: Vec<char> = to_chars(s);
    let mut r: Vec<String> = Vec::new();
    let mut piece: String = String::new();
    let mut i: usize = 0;
    assert(texts(r@).push(piece@) =~= split(chars@.take(0), cut_spec));
    while i < chars.len()
        invariant
            i <= chars@.len(),
            forall|c: char| call_requires(cut, (c,)),
            forall|c: char, b: bool| call_ensures(cut, (c,), b) ==> b == cut_spec(c),
            texts(r@).push(piece@) == split(chars@.take(i as int), cut_spec),
        decreases chars@.len() - i,
    {
        let ghost before = texts(r@).push(piece@);
        assert(chars@.take(i + 1).drop_last() =~= chars@.take(i as int));
        if cut(chars[i]) {
            r.push(piece);
            piece = String::new();
            assert(texts(r@).push(piece@) =~= before.push(Seq::empty()));
        } else {
            piece.push(chars[i]);
            assert(texts(r@).push(piece@) =~= before.drop_last().push(
                before.last().push(chars@[i as int]),
            ));
        }
        i = i + 1;
    }
    assert(chars@.take(i as int) =~= chars@);
    let ghost before = texts(r@).push(piece@);
    r.push(piece);
    assert(texts(r@) =~= before);
    r
}

/// What stands before the first cut holds no cut.
pub proof fn lemma_until_free(s: Seq<char>, cut: spec_fn(char) -> bool)
    ensures
        forall|i: int| 0 <= i < until(s, cut).len() ==> !cut(#[trigger] until(s, cut)[i]),
    decreases s.len(),
{
    if s.len() > 0 && !cut(s[0]) {
        let rest = until(s.skip(1), cut);
        lemma_until_free(s.skip(1), cut);
        assert forall|i: int| 0 <= i < until(s, cut).len() implies !cut(
            #[trigger] until(s, cut)[i],
        ) by {
            if i > 0 {
                assert(until(s, cut)[i] == rest[i - 1]);
            }
        }
    }
}

/// What is left after trimming stood in the text.
pub proof fn lemma_trim_is_part(s: Seq<char>)
    ensures
        forall|i: int| 0 <= i < trim(s).len() ==> s.contains(#[trigger] trim(s)[i]),
    decreases s.len(),
{
    lemma_trim_start_is_part(s);
    lemma_trim_end_is_part(trim_start(s));
}

proof fn lemma_trim_start_is_part(s: Seq<char>)
    ensures
        forall|i: int|
            0 <= i < trim_start(s).len() ==> s.contains(#[trigger] trim_start(s)[i]),
    decreases s.len(),
{
    if s.len() > 0 && is_space(s[0]) {
        let rest = s.subrange(1, s.len() as int);
        lemma_trim_start_is_part(rest);
        assert forall|i: int| 0 <= i < trim_start(s).len() implies s.contains(
            #[trigger] trim_start(s)[i],
        ) by {
            let c = trim_start(rest)[i];
            assert(rest.contains(c));
            let j = rest.index_of(c);
            assert(s[j + 1] == c);
        }
    } else {
        assert forall|i: int| 0 <= i < trim_start(s).len() implies s.contains(
            #[trigger] trim_start(s)[i],
        ) by {
            assert(trim_start(s)[i] == s[i]);
        }
    }
}

proof fn lemma_trim_end_is_part(s: Seq<char>)
    ensures
        forall|i: int|
            0 <= i < trim_end(s).len() ==> s.contains(#[trigger] trim_end(s)[i]),
    decreases s.len(),
{
    if s.len() > 0 && is_space(s[s.len() - 1]) {
        let rest = s.subrange(0, s.len() - 1);
        lemma_trim_end_is_part(rest);
        assert forall|i: int| 0 <= i < trim_end(s).len() implies s.contains(
            #[trigger] trim_end(s)[i],
        ) by {
            let c = trim_end(rest)[i];
            assert(rest.contains(c));
            let j = rest.index_of(c);
            assert(s[j] == c);
        }
    } else {
        assert forall|i: int| 0 <= i < trim_end(s).len() implies s.contains(
            #[trigger] trim_end(s)[i],
        ) by {
            assert(trim_end(s)[i] == s[i]);
        }
    }
}

// ---------------------------------------------------------------------------
// Numbers
// ---------------------------------------------------------------------------

/// The decimal digit of `d`.
pub open spec fn digit(d: nat) -> char {
    (48 + d) as char
}

/// `n` in decimal notation.
pub open spec fn decimal(n: nat) -> Seq<char>
    decreases n,
{
    if n < 10 {
        seq![digit(n)]
    } else {
        decimal(n / 10).push(digit(n % 10))
    }
}

proof fn lemma_decimal_len(n: nat)
    ensures
        decimal(n).len() >= 1,
        n >= 10 ==> decimal(n).len() >= 2,
    decreases n,
{
    if n >= 10 {
        lemma_decimal_len(n / 10);
    }
}

/// A number is written in the digits from 0 to 9, and in one at least.
pub proof fn lemma_decimal_is_digits(n: nat)
    ensures
        decimal(n).len() >= 1,
        forall|i: int| 0 <= i < decimal(n).len() ==> '0' <= #[trigger] decimal(n)[i] <= '9',
    decreases n,
{
    if n >= 10 {
        lemma_decimal_is_digits(n / 10);
    }
}

/// Two numbers are written alike only where they are the same.
pub proof fn lemma_decimal_differs(a: nat, b: nat)
    requires
        decimal(a) == decimal(b),
    ensures
        a == b,
    decreases a,
{
    lemma_decimal_len(a);
    lemma_decimal_len(b);
    if a >= 10 && b >= 10 {
        assert(decimal(a).drop_last() =~= decimal(a / 10));
        assert(decimal(b).drop_last() =~= decimal(b / 10));
        lemma_decimal_differs(a / 10, b / 10);
        assert(decimal(a).last() == digit(a % 10) && decimal(b).last() == digit(b % 10));
        lemma_digit_differs(a % 10, b % 10);
    } else if a < 10 && b < 10 {
        assert(decimal(a)[0] == digit(a) && decimal(b)[0] == digit(b));
        lemma_digit_differs(a, b);
    } else if a < 10 {
        assert(decimal(a).len() == 1);
    } else {
        assert(decimal(b).len() == 1);
    }
}

proof fn lemma_digit_differs(a: nat, b: nat)
    requires
        a < 10,
        b < 10,
        digit(a) == digit(b),
    ensures
        a == b,
{
}


/// `n` in decimal notation.
pub fn decimal_text(n: u64) -> (r: String)
    ensures
        r@ == decimal(n as nat),
    decreases n,
{
    if n < 10 {
        let mut r: String = String::new();
        r.push((48u8 + n as u8) as char);
        assert(r@ =~= decimal(n as nat));
        r
    } else {
        let mut r: String = decimal_text(n / 10);
        r.push((48u8 + (n % 10) as u8) as char);
        r
    }
}

// ---------------------------------------------------------------------------
// Hexadecimal digits
// ---------------------------------------------------------------------------

pub open spec fn hex_digit(d: nat) -> char {
    if d < 10 {
        (('0' as u8) + d) as char
    } else {
        (('a' as u8) + d - 10) as char
    }
}

/// The last `width` hexadecimal digits of a number.
pub open spec fn hex_digits(n: nat, width: nat) -> Seq<char>
    decreases width,
{
    if width == 0 {
        Seq::empty()
    } else {
        hex_digits(n / 16, (width - 1) as nat).push(hex_digit(n % 16))
    }
}

pub proof fn lemma_hex_differs(a: nat, b: nat, width: nat)
    requires
        hex_digits(a, width) == hex_digits(b, width),
        a < pow16(width),
        b < pow16(width),
    ensures
        a == b,
    decreases width,
{
    if width > 0 {
        let da = hex_digits(a, width);
        let db = hex_digits(b, width);
        let before = (width - 1) as nat;
        assert(da.last() == hex_digit(a % 16) && db.last() == hex_digit(b % 16));
        assert(a % 16 == b % 16);
        assert(da.drop_last() =~= hex_digits(a / 16, before));
        assert(db.drop_last() =~= hex_digits(b / 16, before));
        assert(pow16(width) == 16 * pow16(before));
        assert(a / 16 < pow16(before) && b / 16 < pow16(before));
        lemma_hex_differs(a / 16, b / 16, before);
    }
}

/// 16 to the power of `n`.
pub open spec fn pow16(n: nat) -> nat
    decreases n,
{
    if n == 0 {
        1
    } else {
        16 * pow16((n - 1) as nat)
    }
}

/// A number of 128 bits is told by its 32 digits.
pub proof fn lemma_hex_is_one_to_one(a: u128, b: u128)
    requires
        hex_digits(a as nat, 32) == hex_digits(b as nat, 32),
    ensures
        a == b,
{
    assert(pow16(32) == 0x1_0000_0000_0000_0000_0000_0000_0000_0000) by {
        reveal_with_fuel(pow16, 33);
    }
    lemma_hex_differs(a as nat, b as nat, 32);
}

pub proof fn lemma_hex_len(n: nat, width: nat)
    ensures
        hex_digits(n, width).len() == width,
    decreases width,
{
    if width > 0 {
        lemma_hex_len(n / 16, (width - 1) as nat);
    }
}

// ---------------------------------------------------------------------------
// Laws of text
// ---------------------------------------------------------------------------

/// All of `s` is white space.
pub open spec fn is_all_space(s: Seq<char>) -> bool {
    forall|i: int| 0 <= i < s.len() ==> is_space(#[trigger] s[i])
}

/// Trimming takes the white space around a text away, all of it and nothing else.
pub proof fn trimming_leaves_the_text(before: Seq<char>, s: Seq<char>, after: Seq<char>)
    requires
        is_all_space(before),
        is_all_space(after),
        s.len() > 0 ==> !is_space(s[0]) && !is_space(s.last()),
    ensures
        trim(before + s + after) == s,
{
    lemma_end_is_trimmed(s, after);
    if s.len() == 0 {
        lemma_start_is_trimmed(before + after, Seq::empty());
        assert(before + s + after =~= before + after + Seq::empty());
        assert(trim_start(Seq::<char>::empty()) =~= Seq::empty());
        assert(s =~= Seq::empty());
    } else {
        lemma_start_is_trimmed(before, s + after);
        assert(before + s + after =~= before + (s + after));
        assert((s + after)[0] == s[0]);
    }
}

proof fn lemma_start_is_trimmed(before: Seq<char>, s: Seq<char>)
    requires
        is_all_space(before),
    ensures
        trim_start(before + s) == trim_start(s),
    decreases before.len(),
{
    if before.len() > 0 {
        let rest = before.skip(1);
        assert forall|i: int| 0 <= i < rest.len() implies is_space(#[trigger] rest[i]) by {
            assert(is_space(before[i + 1]));
        }
        lemma_start_is_trimmed(rest, s);
        assert((before + s)[0] == before[0]);
        assert((before + s).subrange(1, (before + s).len() as int) =~= rest + s);
    } else {
        assert(before + s =~= s);
    }
}

proof fn lemma_end_is_trimmed(s: Seq<char>, after: Seq<char>)
    requires
        is_all_space(after),
        s.len() > 0 ==> !is_space(s.last()),
    ensures
        trim_end(s + after) == s,
    decreases after.len(),
{
    if after.len() > 0 {
        let rest = after.drop_last();
        assert forall|i: int| 0 <= i < rest.len() implies is_space(#[trigger] rest[i]) by {
            assert(is_space(after[i]));
        }
        lemma_end_is_trimmed(s, rest);
        let whole = s + after;
        assert(whole[whole.len() - 1] == after[after.len() - 1]);
        assert(whole.subrange(0, whole.len() - 1) =~= s + rest);
    } else {
        assert(s + after =~= s);
    }
}

/// Blanks, tabs and line breaks are white space; what is printed in ASCII is not.
pub proof fn white_space_is_not_printed(c: char)
    ensures
        is_space(' ') && is_space('\t') && is_space('\n') && is_space('\r') && is_space('\u{a0}')
            && is_space('\u{3000}') && is_space('\u{2028}'),
        33 <= c as u32 <= 126 ==> !is_space(c),
        is_space(c) ==> c as u32 <= 32 || c as u32 == 0x85 || c as u32 == 0xa0 || c as u32 >= 0x1680,
{
}

/// Case is changed letter by letter, of ASCII alone, and nothing else is.
pub proof fn case_is_of_ascii_letters(s: Seq<char>, i: int)
    requires
        0 <= i < s.len(),
    ensures
        lower(s).len() == s.len(),
        upper(s).len() == s.len(),
        'A' <= s[i] <= 'Z' ==> lower(s)[i] as u32 == s[i] as u32 + 32,
        !('A' <= s[i] <= 'Z') ==> lower(s)[i] == s[i],
        'a' <= s[i] <= 'z' ==> upper(s)[i] as u32 + 32 == s[i] as u32,
        !('a' <= s[i] <= 'z') ==> upper(s)[i] == s[i],
{
}

/// A word in small letters, digits and signs.
pub open spec fn is_small_word(s: Seq<char>) -> bool {
    forall|i: int| 0 <= i < s.len() ==> !is_space(#[trigger] s[i]) && !('A' <= s[i] <= 'Z')
}

/// A word in small letters is read as it is, in whatever case it is written and with
/// white space around it.
pub proof fn small_word_is_itself(s: Seq<char>)
    requires
        is_small_word(s),
    ensures
        trim(s) == s,
        lower(s) == s,
{
    lemma_trim_is_same(s);
    assert(lower(s) =~= s);
}

/// Splitting at one scalar value is undone by joining with it, and no piece holds it.
pub proof fn split_is_undone_by_joining(s: Seq<char>, at: char, i: int)
    ensures
        join(split(s, |c: char| c == at), seq![at]) == s,
        0 <= i < split(s, |c: char| c == at).len() ==> !split(s, |c: char| c == at)[i].contains(at),
    decreases s.len(),
{
    let cut = |c: char| c == at;
    if s.len() == 0 {
        assert(split(s, cut) =~= seq![Seq::<char>::empty()]);
        assert(join(split(s, cut), seq![at]) =~= s);
    } else {
        split_is_undone_by_joining(s.drop_last(), at, i);
        let head = split(s.drop_last(), cut);
        lemma_split_nonempty(s.drop_last(), cut);
        split_is_undone_by_joining(s.drop_last(), at, head.len() - 1);
        if s.last() == at {
            let all = head.push(Seq::empty());
            assert(split(s, cut) == all);
            assert(all.drop_last() =~= head);
            assert(join(all, seq![at]) =~= s.drop_last().push(at));
            assert(s =~= s.drop_last().push(at));
        } else {
            let all = head.drop_last().push(head.last().push(s.last()));
            assert(split(s, cut) == all);
            assert(all.drop_last() =~= head.drop_last());
            assert(s =~= s.drop_last().push(s.last()));
            if head.len() == 1 {
                assert(all.len() == 1);
                assert(join(all, seq![at]) =~= s);
            } else {
                assert(join(all, seq![at]) =~= join(head, seq![at]).push(s.last()));
            }
            if i == head.len() - 1 {
                assert(all[i] == head.last().push(s.last()));
                if all[i].contains(at) {
                    let k = choose|k: int| 0 <= k < all[i].len() && all[i][k] == at;
                    assert(head.last()[k] == at);
                }
            } else if 0 <= i < head.len() - 1 {
                assert(all[i] == head[i]);
            }
        }
    }
}

/// What stands before the first scalar value that is cut at is the text up to there,
/// or all of it.
pub proof fn until_is_the_beginning(s: Seq<char>, cut: spec_fn(char) -> bool)
    ensures
        until(s, cut).len() <= s.len(),
        until(s, cut) == s.take(until(s, cut).len() as int),
        until(s, cut).len() < s.len() ==> cut(s[until(s, cut).len() as int]),
        forall|i: int| 0 <= i < until(s, cut).len() ==> !cut(#[trigger] s[i]),
    decreases s.len(),
{
    if s.len() > 0 && !cut(s[0]) {
        let rest = s.skip(1);
        until_is_the_beginning(rest, cut);
        let n = until(s, cut).len() as int;
        assert(until(s, cut) =~= s.take(n));
        assert forall|i: int| 0 <= i < n implies !cut(#[trigger] s[i]) by {
            if i > 0 {
                assert(rest[i - 1] == s[i]);
            }
        }
        if n < s.len() {
            assert(rest[n - 1] == s[n]);
        }
    } else {
        assert(until(s, cut) =~= s.take(0));
    }
}

/// A text that may be missing is seen as it is.
pub proof fn optional_text_is_seen(value: Option<String>, s: Seq<char>, given: bool)
    ensures
        opt(value) is Some <==> value is Some,
        value matches Some(text) ==> opt(value) == Some(text@),
        self::given(given, s) == if given {
            Some(s)
        } else {
            None
        },
{
}

/// A piece without a cut in it is added to the last piece of what stands before it.
pub proof fn piece_stands_behind(before: Seq<char>, piece: Seq<char>, cut: spec_fn(char) -> bool)
    requires
        forall|i: int| 0 <= i < piece.len() ==> !cut(#[trigger] piece[i]),
    ensures
        ({
            let head = split(before, cut);
            split(before + piece, cut) == head.drop_last().push(head.last() + piece)
        }),
        split(piece, cut) == seq![piece],
    decreases piece.len(),
{
    let head = split(before, cut);
    let none = Seq::<char>::empty();
    lemma_split_nonempty(before, cut);
    assert(split(none, cut) =~= seq![none]);
    if piece.len() > 0 {
        let p = piece.drop_last();
        assert forall|i: int| 0 <= i < p.len() implies !cut(#[trigger] p[i]) by {
            assert(p[i] == piece[i]);
        }
        piece_stands_behind(before, p, cut);
        assert(!cut(piece[piece.len() - 1]));
        assert((before + piece).drop_last() =~= before + p);
        assert((before + piece).last() == piece[piece.len() - 1]);
        let mid = head.drop_last().push(head.last() + p);
        assert(mid.drop_last() =~= head.drop_last());
        assert((head.last() + p).push(piece.last()) =~= head.last() + piece);
        assert(p.push(piece.last()) =~= piece);
        assert(seq![p].drop_last() =~= Seq::<Seq<char>>::empty());
        assert(split(piece, cut) =~= seq![piece]);
    } else {
        assert(before + piece =~= before);
        assert(head.last() + piece =~= head.last());
        assert(head.drop_last().push(head.last()) =~= head);
        assert(piece =~= none);
    }
}

/// A cut begins a new piece.
pub proof fn cut_begins_a_piece(before: Seq<char>, c: char, cut: spec_fn(char) -> bool)
    requires
        cut(c),
    ensures
        split(before.push(c), cut) == split(before, cut).push(Seq::empty()),
{
    assert(before.push(c).drop_last() =~= before);
}

} // verus!
