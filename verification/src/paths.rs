//! Paths as text, with the separators of the platform: `/`, and `\` besides on
//! Windows, where a path may begin with a drive such as `C:`, a share such as
//! `\\server\share` or a device such as `\\.\COM1`. A path that begins with `\\?\`
//! is verbatim: behind its prefix only `\` separates, and `.` is a component.
use crate::platform::Platform;
use crate::text;
use vstd::prelude::*;
use vstd::string::*;

verus! {

// ---------------------------------------------------------------------------
// Separators and prefixes
// ---------------------------------------------------------------------------

pub open spec fn is_separator(c: char, windows: bool) -> bool {
    c == '/' || (windows && c == '\\')
}

/// A separator between the components of a path that is verbatim, or not.
pub open spec fn divides(c: char, windows: bool, verbatim: bool) -> bool {
    if verbatim {
        c == '\\'
    } else {
        is_separator(c, windows)
    }
}

pub open spec fn is_drive_letter(c: char) -> bool {
    'a' <= c <= 'z' || 'A' <= c <= 'Z'
}

/// What the platform puts between two components.
pub open spec fn main_separator(windows: bool) -> char {
    if windows {
        '\\'
    } else {
        '/'
    }
}

pub open spec fn is_verbatim(path: Seq<char>, windows: bool) -> bool {
    windows && path.len() >= 4 && path[0] == '\\' && path[1] == '\\' && path[2] == '?' && path[3]
        == '\\'
}

/// Where the first separator stands at `at` or behind it; the end of the path
/// where there is none.
pub open spec fn next_separator(path: Seq<char>, at: int, verbatim: bool) -> int
    decreases path.len() - at,
{
    if at >= path.len() {
        path.len() as int
    } else if divides(path[at], true, verbatim) {
        at
    } else {
        next_separator(path, at + 1, verbatim)
    }
}

/// Where the share ends whose server begins at `at`; where there is no share, the
/// server.
pub open spec fn share_end(path: Seq<char>, at: int, verbatim: bool) -> int {
    let server = next_separator(path, at, verbatim);
    let share = next_separator(path, server + 1, verbatim);
    if share > server + 1 {
        share
    } else {
        server
    }
}

/// How long the prefix of a verbatim path is: a share behind `UNC\`, a drive, or one
/// component.
pub open spec fn verbatim_prefix_len(path: Seq<char>) -> int {
    if path.len() >= 8 && path[4] == 'U' && path[5] == 'N' && path[6] == 'C' && is_separator(
        path[7],
        true,
    ) {
        share_end(path, 8, true)
    } else if path.len() >= 6 && is_drive_letter(path[4]) && path[5] == ':' && (path.len() == 6
        || is_separator(path[6], true)) {
        6
    } else {
        next_separator(path, 4, true)
    }
}

/// How long the prefix is that a path begins with.
pub open spec fn prefix_len(path: Seq<char>, windows: bool) -> int {
    if !windows || path.len() < 2 {
        0
    } else if is_verbatim(path, windows) {
        verbatim_prefix_len(path)
    } else if is_separator(path[0], true) && is_separator(path[1], true) {
        let server = next_separator(path, 2, false);
        if path.len() >= 4 && path[2] == '.' && is_separator(path[3], true) {
            next_separator(path, 4, false)
        } else if server > 2 && share_end(path, 2, false) > server {
            share_end(path, 2, false)
        } else {
            0
        }
    } else if is_drive_letter(path[0]) && path[1] == ':' {
        2
    } else {
        0
    }
}

/// Where the components of a path begin: behind the prefix and the root.
pub open spec fn body_start(path: Seq<char>, windows: bool) -> int {
    let prefix = prefix_len(path, windows);
    if prefix < path.len() && is_separator(path[prefix], windows) {
        prefix + 1
    } else {
        prefix
    }
}

// ---------------------------------------------------------------------------
// Components
// ---------------------------------------------------------------------------

/// `path` without what ends it beyond its last component: separators, and
/// components `.` behind a separator where the path is not verbatim. The first
/// `floor` characters stay.
pub open spec fn untrailed(path: Seq<char>, floor: int, windows: bool, verbatim: bool) -> Seq<char>
    decreases path.len(),
{
    if path.len() > floor && path.len() > 0 && divides(path.last(), windows, verbatim) {
        untrailed(path.drop_last(), floor, windows, verbatim)
    } else if !verbatim && path.len() > floor && path.len() > 1 && path.last() == '.'
        && is_separator(path[path.len() - 2], windows) {
        untrailed(path.drop_last(), floor, windows, verbatim)
    } else {
        path
    }
}

/// Where the last component of `path` begins.
pub open spec fn last_start(
    path: Seq<char>,
    at: int,
    floor: int,
    windows: bool,
    verbatim: bool,
) -> int
    decreases at,
{
    if at <= 0 || at <= floor {
        floor
    } else if divides(path[at - 1], windows, verbatim) {
        at
    } else {
        last_start(path, at - 1, floor, windows, verbatim)
    }
}

/// A path up to the end of its last component.
pub open spec fn body_of(path: Seq<char>, windows: bool) -> Seq<char> {
    untrailed(path, body_start(path, windows), windows, is_verbatim(path, windows))
}

/// Where the last component of a path begins.
pub open spec fn name_start(path: Seq<char>, windows: bool) -> int {
    let body = body_of(path, windows);
    last_start(
        body,
        body.len() as int,
        body_start(path, windows),
        windows,
        is_verbatim(path, windows),
    )
}

/// The last component of a path, where it names a file or a directory.
pub open spec fn name_of(path: Seq<char>, windows: bool) -> Option<Seq<char>> {
    let name = body_of(path, windows).skip(name_start(path, windows));
    if name.len() == 0 || name == "."@ || name == ".."@ {
        None
    } else {
        Some(name)
    }
}

/// Where the last dot of `name` stands.
pub open spec fn last_dot(name: Seq<char>) -> Option<int> {
    text::last_upto(name, seq!['.'], name.len() as int)
}

/// What follows the last dot of a file name; nothing where there is no dot or
/// only a leading one.
pub open spec fn extension_of(path: Seq<char>, windows: bool) -> Option<Seq<char>> {
    match name_of(path, windows) {
        Some(name) => match last_dot(name) {
            Some(at) => if at > 0 {
                Some(name.skip(at + 1))
            } else {
                None
            },
            None => None,
        },
        None => None,
    }
}

/// What stands before the last dot of a file name; all of it where there is no
/// dot or only a leading one.
pub open spec fn stem_of(path: Seq<char>, windows: bool) -> Option<Seq<char>> {
    match name_of(path, windows) {
        Some(name) => match last_dot(name) {
            Some(at) => if at > 0 {
                Some(name.take(at))
            } else {
                Some(name)
            },
            None => Some(name),
        },
        None => None,
    }
}

/// A path has no component behind its prefix and its root: a `.` right behind a
/// drive is none.
pub open spec fn is_bare(path: Seq<char>, windows: bool) -> bool {
    let body = body_of(path, windows);
    let floor = body_start(path, windows);
    ||| body.len() <= floor
    ||| floor == prefix_len(path, windows) && floor > 0 && body.len() == floor + 1 && body.last()
        == '.'
}

/// What stands before the last component of a path: at least its prefix and its
/// root. Nothing where it has no component.
pub open spec fn parent_of(path: Seq<char>, windows: bool) -> Option<Seq<char>> {
    let floor = body_start(path, windows);
    if is_bare(path, windows) {
        None
    } else {
        let before = body_of(path, windows).take(name_start(path, windows));
        Some(untrailed(before, floor, windows, is_verbatim(path, windows)))
    }
}

/// `path` with `extension` in place of that of its file name; `path` itself where
/// it names no file.
pub open spec fn extended(path: Seq<char>, extension: Seq<char>, windows: bool) -> Seq<char> {
    match stem_of(path, windows) {
        Some(stem) => body_of(path, windows).take(name_start(path, windows)) + stem + "."@
            + extension,
        None => path,
    }
}

// ---------------------------------------------------------------------------
// Joining
// ---------------------------------------------------------------------------

/// `rest` under `base`. Where `rest` begins with a prefix it stands alone, and where
/// it begins with a separator it keeps only the prefix of `base`. Under a verbatim
/// path it is made verbatim itself.
pub open spec fn join(base: Seq<char>, rest: Seq<char>, windows: bool) -> Seq<char> {
    if prefix_len(rest, windows) > 0 {
        rest
    } else if is_verbatim(base, windows) && rest.len() > 0 {
        join_verbatim(base, rest)
    } else if rest.len() > 0 && is_separator(rest[0], windows) {
        base.take(prefix_len(base, windows)) + rest
    } else if base.len() == 0 || is_separator(base.last(), windows) || is_drive(base, windows) {
        base + rest
    } else {
        base.push(main_separator(windows)) + rest
    }
}

/// A drive with nothing behind it.
pub open spec fn is_drive(path: Seq<char>, windows: bool) -> bool {
    path.len() == 2 && prefix_len(path, windows) == 2
}

/// The pieces that are not empty.
pub open spec fn solid(pieces: Seq<Seq<char>>) -> Seq<Seq<char>>
    decreases pieces.len(),
{
    if pieces.len() == 0 {
        Seq::empty()
    } else if pieces.last().len() == 0 {
        solid(pieces.drop_last())
    } else {
        solid(pieces.drop_last()).push(pieces.last())
    }
}

/// The components `names`, followed by a piece of another path: `..` takes back a
/// name, and `.` is nothing.
pub open spec fn followed(names: Seq<Seq<char>>, piece: Seq<char>) -> Seq<Seq<char>> {
    if piece.len() == 0 || piece == "."@ {
        names
    } else if piece == ".."@ {
        if names.len() > 0 && names.last() != "."@ && names.last() != ".."@ {
            names.drop_last()
        } else {
            names
        }
    } else {
        names.push(piece)
    }
}

/// The components `names`, followed by the pieces of another path.
pub open spec fn followed_by(names: Seq<Seq<char>>, pieces: Seq<Seq<char>>) -> Seq<Seq<char>>
    decreases pieces.len(),
{
    if pieces.len() == 0 {
        names
    } else {
        followed(followed_by(names, pieces.drop_last()), pieces.last())
    }
}

/// The pieces of `path` between its separators.
pub open spec fn pieces(path: Seq<char>, verbatim: bool) -> Seq<Seq<char>> {
    text::split(path, |c: char| divides(c, true, verbatim))
}

/// `rest` under a verbatim path.
pub open spec fn join_verbatim(base: Seq<char>, rest: Seq<char>) -> Seq<char> {
    let prefix = prefix_len(base, true);
    let start = body_start(base, true);
    let anew = is_separator(rest[0], true);
    let names = if anew {
        Seq::empty()
    } else {
        solid(pieces(base.skip(start), true))
    };
    let all = followed_by(names, pieces(rest, false));
    base.take(prefix) + if all.len() > 0 {
        "\\"@ + text::join(all, "\\"@)
    } else if anew || start > prefix {
        "\\"@
    } else {
        Seq::empty()
    }
}

// ---------------------------------------------------------------------------
// The functions
// ---------------------------------------------------------------------------

fn on_windows(platform: Platform) -> (r: bool)
    ensures
        r == (platform is Windows),
{
    match platform {
        Platform::Windows => true,
        _ => false,
    }
}

fn separator(c: char, windows: bool) -> (r: bool)
    ensures
        r == is_separator(c, windows),
{
    c == '/' || (windows && c == '\\')
}

fn divider(c: char, windows: bool, verbatim: bool) -> (r: bool)
    ensures
        r == divides(c, windows, verbatim),
{
    if verbatim {
        c == '\\'
    } else {
        separator(c, windows)
    }
}

fn drive_letter(c: char) -> (r: bool)
    ensures
        r == is_drive_letter(c),
{
    ('a' <= c && c <= 'z') || ('A' <= c && c <= 'Z')
}

fn verbatim(path: &Vec<char>, windows: bool) -> (r: bool)
    ensures
        r == is_verbatim(path@, windows),
{
    windows && path.len() >= 4 && path[0] == '\\' && path[1] == '\\' && path[2] == '?' && path[3]
        == '\\'
}

fn find_separator(path: &Vec<char>, at: usize, verbatim: bool) -> (r: usize)
    requires
        at <= path@.len(),
    ensures
        at <= r <= path@.len(),
        r == next_separator(path@, at as int, verbatim),
{
    let mut i: usize = at;
    while i < path.len() && !divider(path[i], true, verbatim)
        invariant
            at <= i <= path@.len(),
            next_separator(path@, at as int, verbatim) == next_separator(
                path@,
                i as int,
                verbatim,
            ),
        decreases path@.len() - i,
    {
        i = i + 1;
    }
    i
}

fn find_share_end(path: &Vec<char>, at: usize, verbatim: bool) -> (r: usize)
    requires
        at <= path@.len(),
    ensures
        at <= r <= path@.len(),
        r == share_end(path@, at as int, verbatim),
        r >= next_separator(path@, at as int, verbatim),
{
    let server: usize = find_separator(path, at, verbatim);
    if server == path.len() {
        assert(next_separator(path@, server + 1, verbatim) == path@.len());
        return server;
    }
    let share: usize = find_separator(path, server + 1, verbatim);
    if share > server + 1 {
        share
    } else {
        server
    }
}

fn find_prefix(path: &Vec<char>, windows: bool) -> (r: usize)
    ensures
        r <= path@.len(),
        r == prefix_len(path@, windows),
{
    let n: usize = path.len();
    if !windows || n < 2 {
        return 0;
    }
    if verbatim(path, windows) {
        if n >= 8 && path[4] == 'U' && path[5] == 'N' && path[6] == 'C' && separator(path[7], true) {
            find_share_end(path, 8, true)
        } else if n >= 6 && drive_letter(path[4]) && path[5] == ':' && (n == 6 || separator(
            path[6],
            true,
        )) {
            6
        } else {
            find_separator(path, 4, true)
        }
    } else if separator(path[0], true) && separator(path[1], true) {
        let server: usize = find_separator(path, 2, false);
        if n >= 4 && path[2] == '.' && separator(path[3], true) {
            return find_separator(path, 4, false);
        }
        let share: usize = find_share_end(path, 2, false);
        if server > 2 && share > server {
            share
        } else {
            0
        }
    } else if drive_letter(path[0]) && path[1] == ':' {
        2
    } else {
        0
    }
}

fn find_body(path: &Vec<char>, windows: bool) -> (r: usize)
    ensures
        r <= path@.len(),
        r == body_start(path@, windows),
{
    let prefix: usize = find_prefix(path, windows);
    if prefix < path.len() && separator(path[prefix], windows) {
        prefix + 1
    } else {
        prefix
    }
}

fn untrailed_len(
    path: &Vec<char>,
    upto: usize,
    floor: usize,
    windows: bool,
    verbatim: bool,
) -> (n: usize)
    requires
        floor <= upto <= path@.len(),
    ensures
        floor <= n <= upto,
        path@.take(n as int) == untrailed(path@.take(upto as int), floor as int, windows, verbatim),
{
    let mut n: usize = upto;
    loop
        invariant
            floor <= n <= upto <= path@.len(),
            untrailed(path@.take(upto as int), floor as int, windows, verbatim) == untrailed(
                path@.take(n as int),
                floor as int,
                windows,
                verbatim,
            ),
        decreases n,
    {
        let ghost now = path@.take(n as int);
        if n > floor && divider(path[n - 1], windows, verbatim) {
            assert(now.drop_last() =~= path@.take(n - 1));
            n = n - 1;
        } else if !verbatim && n > floor && n > 1 && path[n - 1] == '.' && separator(
            path[n - 2],
            windows,
        ) {
            assert(now.drop_last() =~= path@.take(n - 1));
            n = n - 1;
        } else {
            return n;
        }
    }
}

fn find_last_start(
    path: &Vec<char>,
    upto: usize,
    floor: usize,
    windows: bool,
    verbatim: bool,
) -> (r: usize)
    requires
        floor <= upto <= path@.len(),
    ensures
        floor <= r <= upto,
        r == last_start(path@.take(upto as int), upto as int, floor as int, windows, verbatim),
{
    let mut i: usize = upto;
    while i > floor && !divider(path[i - 1], windows, verbatim)
        invariant
            floor <= i <= upto <= path@.len(),
            last_start(path@.take(upto as int), upto as int, floor as int, windows, verbatim)
                == last_start(
                path@.take(upto as int),
                i as int,
                floor as int,
                windows,
                verbatim,
            ),
        decreases i,
    {
        i = i - 1;
    }
    i
}

/// Where the last component of a path begins and ends.
fn find_name(path: &Vec<char>, windows: bool) -> (r: (usize, usize))
    ensures
        body_start(path@, windows) <= r.0 <= r.1 <= path@.len(),
        path@.take(r.1 as int) == body_of(path@, windows),
        r.0 == name_start(path@, windows),
{
    let floor: usize = find_body(path, windows);
    let bare: bool = verbatim(path, windows);
    assert(path@.take(path@.len() as int) =~= path@);
    let end: usize = untrailed_len(path, path.len(), floor, windows, bare);
    let start: usize = find_last_start(path, end, floor, windows, bare);
    (start, end)
}

/// The last component of `path`, where it names a file or a directory.
pub fn file_name(path: &str, platform: Platform) -> (r: Option<String>)
    ensures
        text::opt(r) == name_of(path@, platform is Windows),
{
    let chars: Vec<char> = text::to_chars(path);
    let (start, end): (usize, usize) = find_name(&chars, on_windows(platform));
    let name: String = text::from_chars(&chars, start, end);
    assert(name@ =~= chars@.take(end as int).skip(start as int));
    if name.as_str().is_empty() || text::same(name.as_str(), ".") || text::same(
        name.as_str(),
        "..",
    ) {
        None
    } else {
        Some(name)
    }
}

fn find_dot(name: &Vec<char>) -> (r: Option<usize>)
    ensures
        r is Some <==> last_dot(name@) is Some,
        r matches Some(at) ==> last_dot(name@) == Some(at as int) && at < name@.len(),
{
    let mut dot: Vec<char> = Vec::new();
    dot.push('.');
    assert(dot@ =~= seq!['.']);
    text::find_last(name, &dot)
}

/// What follows the last dot of the file name of `path`.
pub fn extension(path: &str, platform: Platform) -> (r: Option<String>)
    ensures
        text::opt(r) == extension_of(path@, platform is Windows),
{
    match file_name(path, platform) {
        Some(name) => {
            let chars: Vec<char> = text::to_chars(name.as_str());
            match find_dot(&chars) {
                Some(at) => if at > 0 {
                    let n: usize = chars.len();
                    let rest: String = text::from_chars(&chars, at + 1, n);
                    assert(rest@ =~= chars@.skip(at + 1));
                    Some(rest)
                } else {
                    None
                },
                None => None,
            }
        },
        None => None,
    }
}

/// What stands before the last dot of the file name of `path`.
pub fn file_stem(path: &str, platform: Platform) -> (r: Option<String>)
    ensures
        text::opt(r) == stem_of(path@, platform is Windows),
{
    match file_name(path, platform) {
        Some(name) => {
            let chars: Vec<char> = text::to_chars(name.as_str());
            match find_dot(&chars) {
                Some(at) => if at > 0 {
                    let stem: String = text::from_chars(&chars, 0, at);
                    assert(stem@ =~= chars@.take(at as int));
                    Some(stem)
                } else {
                    Some(name)
                },
                None => Some(name),
            }
        },
        None => None,
    }
}

/// What stands before the last component of `path`.
pub fn parent(path: &str, platform: Platform) -> (r: Option<String>)
    ensures
        text::opt(r) == parent_of(path@, platform is Windows),
{
    let windows: bool = on_windows(platform);
    let chars: Vec<char> = text::to_chars(path);
    let floor: usize = find_body(&chars, windows);
    let (start, end): (usize, usize) = find_name(&chars, windows);
    let prefix: usize = find_prefix(&chars, windows);
    if end <= floor || (floor == prefix && floor > 0 && end - 1 == floor && chars[end - 1] == '.') {
        return None;
    }
    let bare: usize = untrailed_len(&chars, start, floor, windows, verbatim(&chars, windows));
    assert(chars@.take(end as int).take(start as int) =~= chars@.take(start as int));
    let r: String = text::from_chars(&chars, 0, bare);
    assert(r@ =~= chars@.take(bare as int));
    Some(r)
}

/// `path` with `extension` in place of that of its file name.
pub fn with_extension(path: &str, extension: &str, platform: Platform) -> (r: String)
    ensures
        r@ == extended(path@, extension@, platform is Windows),
{
    match file_stem(path, platform) {
        Some(stem) => {
            let chars: Vec<char> = text::to_chars(path);
            let (start, end): (usize, usize) = find_name(&chars, on_windows(platform));
            let mut r: String = text::from_chars(&chars, 0, start);
            assert(r@ =~= chars@.take(end as int).take(start as int));
            r.append(stem.as_str());
            r.append(".");
            r.append(extension);
            r
        },
        None => path.to_owned(),
    }
}

fn pieces_of(path: &str, verbatim: bool) -> (r: Vec<String>)
    ensures
        text::texts(r@) == pieces(path@, verbatim),
{
    let cut = |c: char| -> (b: bool)
        ensures
            b == divides(c, true, verbatim),
        { divider(c, true, verbatim) };
    text::split_where(path, cut, Ghost(|c: char| divides(c, true, verbatim)))
}

fn keep_solid(all: Vec<String>) -> (r: Vec<String>)
    ensures
        text::texts(r@) == solid(text::texts(all@)),
{
    let mut r: Vec<String> = Vec::new();
    let mut i: usize = 0;
    let ghost whole = text::texts(all@);
    assert(text::texts(r@) =~= solid(whole.take(0)));
    while i < all.len()
        invariant
            i <= all@.len(),
            whole == text::texts(all@),
            text::texts(r@) == solid(whole.take(i as int)),
        decreases all@.len() - i,
    {
        let ghost before = text::texts(r@);
        assert(whole.take(i + 1).drop_last() =~= whole.take(i as int));
        assert(whole.take(i + 1).last() == all@[i as int]@);
        if !all[i].as_str().is_empty() {
            r.push(all[i].as_str().to_owned());
            assert(text::texts(r@) =~= before.push(all@[i as int]@));
        }
        i = i + 1;
    }
    assert(whole.take(i as int) =~= whole);
    r
}

fn follow(names: &mut Vec<String>, piece: &str)
    ensures
        text::texts(final(names)@) == followed(text::texts(old(names)@), piece@),
{
    let ghost before = text::texts(names@);
    let n: usize = names.len();
    if piece.is_empty() || text::same(piece, ".") {
    } else if text::same(piece, "..") {
        if n > 0 && !text::same(names[n - 1].as_str(), ".") && !text::same(
            names[n - 1].as_str(),
            "..",
        ) {
            assert(before.last() == names@[n - 1]@);
            let _ = names.pop();
            assert(text::texts(names@) =~= before.drop_last());
        } else if n > 0 {
            assert(before.last() == names@[n - 1]@);
        }
    } else {
        names.push(piece.to_owned());
        assert(text::texts(names@) =~= before.push(piece@));
    }
}

fn joined_verbatim(base: &Vec<char>, rest: &str) -> (r: String)
    requires
        rest@.len() > 0,
    ensures
        r@ == join_verbatim(base@, rest@),
{
    let t: Vec<char> = text::to_chars(rest);
    let prefix: usize = find_prefix(base, true);
    let start: usize = find_body(base, true);
    let anew: bool = separator(t[0], true);
    let mut names: Vec<String> = Vec::new();
    if !anew {
        let body: String = text::from_chars(base, start, base.len());
        assert(body@ =~= base@.skip(start as int));
        names = keep_solid(pieces_of(body.as_str(), true));
    }
    assert(anew ==> text::texts(names@) =~= Seq::empty());
    let ghost first = text::texts(names@);
    let more: Vec<String> = pieces_of(rest, false);
    let ghost all = text::texts(more@);
    let mut i: usize = 0;
    assert(all.take(0) =~= Seq::empty());
    while i < more.len()
        invariant
            i <= more@.len(),
            all == text::texts(more@),
            text::texts(names@) == followed_by(first, all.take(i as int)),
        decreases more@.len() - i,
    {
        assert(all.take(i + 1).drop_last() =~= all.take(i as int));
        assert(all.take(i + 1).last() == more@[i as int]@);
        follow(&mut names, more[i].as_str());
        i = i + 1;
    }
    assert(all.take(i as int) =~= all);
    let mut r: String = text::from_chars(base, 0, prefix);
    assert(r@ =~= base@.take(prefix as int));
    if names.len() > 0 {
        r.append("\\");
        r.append(text::joined(&names, "\\").as_str());
        assert(r@ =~= base@.take(prefix as int) + ("\\"@ + text::join(
            text::texts(names@),
            "\\"@,
        )));
    } else if anew || start > prefix {
        r.append("\\");
    }
    assert(r@ =~= join_verbatim(base@, rest@));
    r
}

/// `rest` under `base`.
pub fn joined(base: &str, rest: &str, platform: Platform) -> (r: String)
    ensures
        r@ == join(base@, rest@, platform is Windows),
{
    let windows: bool = on_windows(platform);
    let b: Vec<char> = text::to_chars(base);
    let t: Vec<char> = text::to_chars(rest);
    if find_prefix(&t, windows) > 0 {
        return rest.to_owned();
    }
    if verbatim(&b, windows) && t.len() > 0 {
        return joined_verbatim(&b, rest);
    }
    let prefix: usize = find_prefix(&b, windows);
    if t.len() > 0 && separator(t[0], windows) {
        let mut r: String = text::from_chars(&b, 0, prefix);
        assert(r@ =~= b@.take(prefix as int));
        r.append(rest);
        return r;
    }
    let mut r: String = base.to_owned();
    if b.len() > 0 && !separator(b[b.len() - 1], windows) && !(b.len() == 2 && prefix == 2) {
        r.push(if windows {
            '\\'
        } else {
            '/'
        });
    }
    r.append(rest);
    r
}

/// How a path is shown: with backslashes for separators on Windows.
pub open spec fn shown(path: Seq<char>, windows: bool) -> Seq<char> {
    if windows {
        path.map_values(
            |c: char|
                if c == '/' {
                    '\\'
                } else {
                    c
                },
        )
    } else {
        path
    }
}

/// Render a path with native separators in user-facing values.
pub fn display_path(path: &str, platform: Platform) -> (r: String)
    ensures
        r@ == shown(path@, platform is Windows),
{
    match platform {
        Platform::Windows => {
            let chars: Vec<char> = text::to_chars(path);
            let mut r: String = String::new();
            let mut i: usize = 0;
            while i < chars.len()
                invariant
                    i <= chars@.len(),
                    r@ == shown(chars@.take(i as int), true),
                decreases chars@.len() - i,
            {
                if chars[i] == '/' {
                    r.push('\\');
                } else {
                    r.push(chars[i]);
                }
                i = i + 1;
                assert(r@ =~= shown(chars@.take(i as int), true));
            }
            assert(chars@.take(i as int) =~= chars@);
            r
        },
        _ => path.to_owned(),
    }
}

// ---------------------------------------------------------------------------
// Laws of paths
// ---------------------------------------------------------------------------

/// `before` is empty or ends with a separator, and on Windows it begins with a drive and
/// its root: a file name can stand behind it.
pub open spec fn is_directory_part(before: Seq<char>, windows: bool) -> bool {
    if windows {
        &&& before.len() >= 3
        &&& ('a' <= before[0] <= 'z' || 'A' <= before[0] <= 'Z')
        &&& before[1] == ':'
        &&& (before[2] == '\\' || before[2] == '/')
        &&& (before.last() == '\\' || before.last() == '/')
    } else {
        before.len() == 0 || before.last() == '/'
    }
}

/// `name` can name a file: it is not empty, holds no separator, and is neither `.` nor
/// `..`.
pub open spec fn is_file_name(name: Seq<char>, windows: bool) -> bool {
    &&& name.len() > 0
    &&& forall|i: int| 0 <= i < name.len() ==> #[trigger] name[i] != '/'
    &&& windows ==> forall|i: int| 0 <= i < name.len() ==> #[trigger] name[i] != '\\'
    &&& name != seq!['.']
    &&& name != seq!['.', '.']
}

proof fn lemma_last_start(path: Seq<char>, at: int, start: int, floor: int, windows: bool)
    requires
        0 <= floor <= start <= at <= path.len(),
        forall|i: int| start <= i < at ==> !is_separator(#[trigger] path[i], windows),
        start == floor || is_separator(path[start - 1], windows),
    ensures
        last_start(path, at, floor, windows, false) == start,
    decreases at,
{
    if at > start {
        assert(!is_separator(path[at - 1], windows));
        lemma_last_start(path, at - 1, start, floor, windows);
    }
}

proof fn lemma_file_path(before: Seq<char>, name: Seq<char>, windows: bool)
    requires
        is_directory_part(before, windows),
        is_file_name(name, windows),
    ensures
        ({
            let path = before + name;
            &&& !is_verbatim(path, windows)
            &&& body_start(path, windows) <= before.len()
            &&& body_of(path, windows) == path
            &&& name_start(path, windows) == before.len()
            &&& !is_bare(path, windows)
            &&& before.len() == 0 ==> body_start(path, windows) == 0
        }),
{
    let path = before + name;
    assert(before.len() > 0 ==> path[0] == before[0]);
    assert(path[path.len() - 1] == name[name.len() - 1]);
    if windows {
        assert(path[1] == before[1] && path[2] == before[2]);
        assert(prefix_len(path, windows) == 2);
    } else {
        if before.len() == 0 {
            assert(path[0] == name[0]);
        }
    }
    if name.len() > 1 {
        assert(path[path.len() - 2] == name[name.len() - 2]);
    } else {
        assert(name =~= seq![name[0]]);
    }
    assert(!is_separator(path.last(), windows));
    assert(body_of(path, windows) == path);
    assert forall|i: int| before.len() <= i < path.len() implies !is_separator(
        #[trigger] path[i],
        windows,
    ) by {
        assert(path[i] == name[i - before.len()]);
    }
    if before.len() > 0 {
        assert(path[before.len() - 1] == before.last());
    }
    lemma_last_start(
        path,
        path.len() as int,
        before.len() as int,
        body_start(path, windows),
        windows,
    );
}

/// A file is named by what stands behind its directory.
pub proof fn file_is_named_behind_its_directory(before: Seq<char>, name: Seq<char>, windows: bool)
    requires
        is_directory_part(before, windows),
        is_file_name(name, windows),
    ensures
        name_of(before + name, windows) == Some(name),
{
    lemma_file_path(before, name, windows);
    assert((before + name).skip(before.len() as int) =~= name);
    reveal_strlit(".");
    reveal_strlit("..");
    assert("."@ =~= seq!['.']);
    assert(".."@ =~= seq!['.', '.']);
}

proof fn lemma_last_dot(stem: Seq<char>, extension: Seq<char>)
    requires
        forall|i: int| 0 <= i < extension.len() ==> #[trigger] extension[i] != '.',
    ensures
        last_dot(stem + seq!['.'] + extension) == Some(stem.len() as int),
{
    let name = stem + seq!['.'] + extension;
    lemma_dot_upto(name, stem.len() as int, name.len() as int);
}

proof fn lemma_dot_upto(name: Seq<char>, at: int, upto: int)
    requires
        0 <= at < name.len(),
        at <= upto <= name.len(),
        name[at] == '.',
        forall|i: int| at < i < name.len() ==> #[trigger] name[i] != '.',
    ensures
        text::last_upto(name, seq!['.'], upto) == Some(at),
    decreases upto,
{
    if upto == at {
        assert(name.subrange(at, at + 1) =~= seq!['.']);
        assert(text::occurs_at(name, seq!['.'], at));
    } else {
        if text::occurs_at(name, seq!['.'], upto) {
            assert(name.subrange(upto, upto + 1)[0] == '.');
            assert(name[upto] == '.');
        }
        lemma_dot_upto(name, at, upto - 1);
    }
}

/// A file's name is its stem, a dot and its extension, and the last dot divides them.
pub proof fn name_is_stem_and_extension(
    before: Seq<char>,
    stem: Seq<char>,
    extension: Seq<char>,
    windows: bool,
)
    requires
        is_directory_part(before, windows),
        is_file_name(stem + seq!['.'] + extension, windows),
        stem.len() > 0,
        forall|i: int| 0 <= i < extension.len() ==> #[trigger] extension[i] != '.',
    ensures
        stem_of(before + (stem + seq!['.'] + extension), windows) == Some(stem),
        extension_of(before + (stem + seq!['.'] + extension), windows) == Some(extension),
{
    let name = stem + seq!['.'] + extension;
    file_is_named_behind_its_directory(before, name, windows);
    lemma_last_dot(stem, extension);
    assert(name.skip(stem.len() as int + 1) =~= extension);
    assert(name.take(stem.len() as int) =~= stem);
}

/// A new extension takes the place of the old one, and all that stands before it stays.
pub proof fn extension_is_replaced(
    before: Seq<char>,
    stem: Seq<char>,
    extension: Seq<char>,
    other: Seq<char>,
    windows: bool,
)
    requires
        is_directory_part(before, windows),
        is_file_name(stem + seq!['.'] + extension, windows),
        stem.len() > 0,
        forall|i: int| 0 <= i < extension.len() ==> #[trigger] extension[i] != '.',
    ensures
        extended(before + (stem + seq!['.'] + extension), other, windows) == before + stem
            + seq!['.'] + other,
{
    let name = stem + seq!['.'] + extension;
    name_is_stem_and_extension(before, stem, extension, windows);
    lemma_file_path(before, name, windows);
    reveal_strlit(".");
    assert("."@ =~= seq!['.']);
    assert((before + name).take(before.len() as int) =~= before);
}

/// A name without a dot is all stem.
pub proof fn name_without_a_dot_is_all_stem(before: Seq<char>, name: Seq<char>, windows: bool)
    requires
        is_directory_part(before, windows),
        is_file_name(name, windows),
        forall|i: int| 1 <= i < name.len() ==> #[trigger] name[i] != '.',
    ensures
        stem_of(before + name, windows) == Some(name),
        extension_of(before + name, windows) is None,
{
    file_is_named_behind_its_directory(before, name, windows);
    if let Some(at) = last_dot(name) {
        text::lemma_last_upto(name, seq!['.'], name.len() as int);
        if at > 0 {
            assert(name.subrange(at, at + 1)[0] == '.');
            assert(name[at] == '.');
        }
    }
}

/// A file's parent is its directory, without the separator between them; at the root it is
/// the root.
pub proof fn parent_is_the_directory(directory: Seq<char>, name: Seq<char>, windows: bool)
    requires
        is_file_name(name, windows),
        directory.len() > 0,
        windows ==> directory.len() >= 4 && is_directory_part(directory.take(3), true),
        directory.last() != '/' && directory.last() != '\\' && directory.last() != '.',
    ensures
        parent_of(directory + seq![main_separator(windows)] + name, windows) == Some(directory),
        !windows ==> parent_of(seq!['/'] + name, windows) == Some(seq!['/']),
        !windows ==> parent_of(name, windows) == Some(Seq::<char>::empty()),
{
    let sep = seq![main_separator(windows)];
    let before = directory + sep;
    let path = before + name;
    assert(before.last() == main_separator(windows));
    if windows {
        assert(directory.take(3)[0] == directory[0] && directory.take(3)[1] == directory[1]
            && directory.take(3)[2] == directory[2]);
        assert(before[0] == directory[0] && before[1] == directory[1] && before[2] == directory[2]);
    }
    lemma_file_path(before, name, windows);
    let floor = body_start(path, windows);
    assert(path.take(before.len() as int) =~= before);
    assert(before.drop_last() =~= directory);
    if windows {
        assert(path[0] == before[0] && path[1] == before[1] && path[2] == before[2]);
    } else {
        assert(path[0] == directory[0]);
    }
    assert(floor <= directory.len());
    assert(untrailed(directory, floor, windows, false) == directory);
    assert(untrailed(before, floor, windows, false) == directory);
    if !windows {
        let root = seq!['/'];
        lemma_file_path(root, name, false);
        assert((root + name)[0] == '/');
        assert((root + name).take(1) =~= root);
        lemma_file_path(Seq::empty(), name, false);
        assert(Seq::<char>::empty() + name =~= name);
        assert(name.take(0) =~= Seq::empty());
    }
}

/// A name is put under a directory with one separator between them; a path from the root
/// stands alone.
pub proof fn name_is_put_under_a_directory(base: Seq<char>, name: Seq<char>)
    requires
        is_file_name(name, false),
    ensures
        base.len() > 0 && base.last() != '/' ==> join(base, name, false) == base + seq!['/'] + name,
        base.len() > 0 && base.last() == '/' ==> join(base, name, false) == base + name,
        join(Seq::empty(), name, false) == name,
        join(base, seq!['/'] + name, false) == seq!['/'] + name,
{
    assert(base.push('/') =~= base + seq!['/']);
    assert(Seq::<char>::empty() + name =~= name);
    assert((seq!['/'] + name)[0] == '/');
    assert(base.take(0) + (seq!['/'] + name) =~= seq!['/'] + name);
}

/// On Windows a name is put under a directory of a drive with one separator between them;
/// a path with a drive of its own stands alone.
pub proof fn name_is_put_under_a_drive(base: Seq<char>, name: Seq<char>, other: Seq<char>)
    requires
        is_file_name(name, true),
        name.len() < 2 || name[1] != ':',
        base.len() >= 3,
        is_directory_part(base.take(3), true),
        is_directory_part(other, true),
    ensures
        base.last() != '/' && base.last() != '\\' ==> join(base, name, true) == base
            + seq!['\\'] + name,
        base.last() == '\\' ==> join(base, name, true) == base + name,
        join(base, other, true) == other,
        join(base, other + name, true) == other + name,
        join(base, seq!['\\'] + name, true) == base.take(2) + seq!['\\'] + name,
{
    assert(base.take(3)[0] == base[0] && base.take(3)[1] == base[1] && base.take(3)[2] == base[2]);
    assert(prefix_len(name, true) == 0);
    assert(base.push('\\') =~= base + seq!['\\']);
    assert((other + name)[0] == other[0] && (other + name)[1] == other[1]);
    let rooted = seq!['\\'] + name;
    assert(rooted[0] == '\\' && rooted[1] == name[0]);
    assert(prefix_len(rooted, true) == 0);
    assert(base.take(2) + rooted =~= base.take(2) + seq!['\\'] + name);
}

/// What is put under a directory is found there: it names the file, and the directory is
/// its parent.
pub proof fn joined_path_is_taken_apart(base: Seq<char>, name: Seq<char>)
    requires
        is_file_name(name, false),
        base.len() > 0,
        base.last() != '/' && base.last() != '\\' && base.last() != '.',
    ensures
        name_of(join(base, name, false), false) == Some(name),
        parent_of(join(base, name, false), false) == Some(base),
{
    name_is_put_under_a_directory(base, name);
    parent_is_the_directory(base, name, false);
    file_is_named_behind_its_directory(base + seq!['/'], name, false);
}

/// What ends a path beyond its last component does not count.
pub proof fn trailing_separators_do_not_count(before: Seq<char>, name: Seq<char>)
    requires
        is_directory_part(before, false),
        is_file_name(name, false),
    ensures
        name_of(before + name + seq!['/'], false) == Some(name),
        stem_of(before + name + seq!['/'], false) == stem_of(before + name, false),
        extension_of(before + name + seq!['/'], false) == extension_of(before + name, false),
        parent_of(before + name + seq!['/'], false) == parent_of(before + name, false),
{
    let path = before + name;
    let longer = path + seq!['/'];
    lemma_file_path(before, name, false);
    file_is_named_behind_its_directory(before, name, false);
    assert(longer.drop_last() =~= path);
    assert(longer[0] == path[0]);
    assert(longer.last() == '/');
    assert(body_start(longer, false) == body_start(path, false));
    assert(body_of(longer, false) == body_of(path, false));
}

/// A path is shown with the platform's separators and as it is otherwise.
pub proof fn path_is_shown_with_its_separators(path: Seq<char>, i: int)
    requires
        0 <= i < path.len(),
    ensures
        shown(path, false) == path,
        shown(path, true).len() == path.len(),
        path[i] == '/' ==> shown(path, true)[i] == '\\',
        path[i] != '/' ==> shown(path, true)[i] == path[i],
        main_separator(true) == '\\' && main_separator(false) == '/',
        is_separator('/', false) && is_separator('/', true) && is_separator('\\', true),
        !is_separator('\\', false),
{
}

/// The next separator is the first that stands at a place or behind it.
pub proof fn next_separator_is_the_first(path: Seq<char>, at: int, verbatim: bool, i: int)
    requires
        0 <= at <= path.len(),
    ensures
        at <= next_separator(path, at, verbatim) <= path.len(),
        at <= i < next_separator(path, at, verbatim) ==> path[i] != '\\' && (path[i] != '/'
            || verbatim),
        next_separator(path, at, verbatim) < path.len() ==> path[next_separator(
            path,
            at,
            verbatim,
        )] == '\\' || (!verbatim && path[next_separator(path, at, verbatim)] == '/'),
    decreases path.len() - at,
{
    if at < path.len() && !divides(path[at], true, verbatim) {
        next_separator_is_the_first(path, at + 1, verbatim, i);
    }
}

proof fn lemma_next_separator(path: Seq<char>, at: int, end: int, verbatim: bool)
    requires
        0 <= at <= end <= path.len(),
        forall|i: int| at <= i < end ==> #[trigger] path[i] != '\\' && path[i] != '/',
        end < path.len() ==> path[end] == '\\',
    ensures
        next_separator(path, at, verbatim) == end,
    decreases end - at,
{
    if at < end {
        assert(path[at] != '\\' && path[at] != '/');
        lemma_next_separator(path, at + 1, end, verbatim);
    }
}

/// A drive is the prefix of what begins with it, and a share of what begins with its
/// server and its name; a path without either has none, and no path of another platform
/// has one.
pub proof fn prefixes_are_drives_and_shares(
    path: Seq<char>,
    server: Seq<char>,
    share: Seq<char>,
    rest: Seq<char>,
)
    requires
        server.len() > 0 && server[0] != '?' && server[0] != '.',
        share.len() > 0,
        forall|i: int| 0 <= i < server.len() ==> #[trigger] server[i] != '\\' && server[i] != '/',
        forall|i: int| 0 <= i < share.len() ==> #[trigger] share[i] != '\\' && share[i] != '/',
        rest.len() > 0 ==> rest[0] == '\\',
    ensures
        prefix_len(path, false) == 0,
        path.len() >= 2 && 'a' <= path[0] <= 'z' && path[1] == ':' ==> prefix_len(path, true) == 2,
        path.len() >= 2 && 'A' <= path[0] <= 'Z' && path[1] == ':' ==> prefix_len(path, true) == 2,
        path.len() >= 2 && path[0] != '/' && path[0] != '\\' && path[1] != ':' ==> prefix_len(
            path,
            true,
        ) == 0,
        prefix_len(seq!['\\', '\\'] + server + seq!['\\'] + share + rest, true) == 3
            + server.len() + share.len(),
{
    let unc = seq!['\\', '\\'] + server + seq!['\\'] + share + rest;
    let n = server.len() as int;
    let end = 3 + n + share.len();
    assert(unc[0] == '\\' && unc[1] == '\\' && unc[2] == server[0]);
    assert(unc[2 + n] == '\\');
    assert forall|i: int| 2 <= i < 2 + n implies #[trigger] unc[i] != '\\' && unc[i] != '/' by {
        assert(unc[i] == server[i - 2]);
    }
    assert forall|i: int| 3 + n <= i < end implies #[trigger] unc[i] != '\\' && unc[i] != '/' by {
        assert(unc[i] == share[i - 3 - n]);
    }
    if rest.len() > 0 {
        assert(unc[end] == rest[0]);
    }
    lemma_next_separator(unc, 2, 2 + n, false);
    lemma_next_separator(unc, 3 + n, end, false);
    assert(!is_verbatim(unc, true));
    assert(next_separator(unc, 2, false) == 2 + n);
}

/// A verbatim drive is the prefix of what begins with it.
pub proof fn verbatim_drive_is_a_prefix(drive: char, rest: Seq<char>)
    requires
        'a' <= drive <= 'z' || 'A' <= drive <= 'Z',
        rest.len() > 0 ==> rest[0] == '\\',
    ensures
        is_verbatim(seq!['\\', '\\', '?', '\\', drive, ':'] + rest, true),
        !is_verbatim(seq!['\\', '\\', '?', '\\', drive, ':'] + rest, false),
        prefix_len(seq!['\\', '\\', '?', '\\', drive, ':'] + rest, true) == 6,
{
    let path = seq!['\\', '\\', '?', '\\', drive, ':'] + rest;
    assert(path[0] == '\\' && path[1] == '\\' && path[2] == '?' && path[3] == '\\');
    assert(path[4] == drive && path[5] == ':');
    if rest.len() > 0 {
        assert(path[6] == '\\');
    }
}

/// Components follow each other: a name is one more, `..` takes one back, and `.` and
/// nothing change nothing.
pub proof fn components_follow_each_other(
    names: Seq<Seq<char>>,
    pieces: Seq<Seq<char>>,
    name: Seq<char>,
)
    ensures
        followed(names, Seq::empty()) == names,
        followed(names, "."@) == names,
        name.len() > 2 ==> followed(names, name) == names.push(name),
        name.len() > 2 ==> followed(names.push(name), ".."@) == names,
        followed(Seq::empty(), ".."@) == Seq::<Seq<char>>::empty(),
        followed_by(names, pieces.push(name)) == followed(followed_by(names, pieces), name),
        followed_by(names, Seq::empty()) == names,
        name.len() > 0 ==> solid(pieces.push(name)) == solid(pieces).push(name),
        solid(pieces.push(Seq::empty())) == solid(pieces),
        solid(Seq::empty()).len() == 0,
{
    reveal_strlit(".");
    reveal_strlit("..");
    assert("."@.len() == 1 && ".."@.len() == 2);
    assert(pieces.push(name).drop_last() =~= pieces);
    assert(pieces.push(Seq::empty()).drop_last() =~= pieces);
    assert(names.push(name).drop_last() =~= names);
}

/// A name is put under a verbatim path with a backslash.
pub proof fn name_is_put_under_a_verbatim_path(drive: char, directory: Seq<char>, name: Seq<char>)
    requires
        'a' <= drive <= 'z' || 'A' <= drive <= 'Z',
        is_file_name(directory, true),
        is_file_name(name, true),
        name.len() > 2,
        name[1] != ':',
    ensures
        join(seq!['\\', '\\', '?', '\\', drive, ':', '\\'] + directory, name, true)
            == seq!['\\', '\\', '?', '\\', drive, ':', '\\'] + directory + seq!['\\']
            + name,
{
    let head = seq!['\\', '\\', '?', '\\', drive, ':'];
    let rest = seq!['\\'] + directory;
    let base = seq!['\\', '\\', '?', '\\', drive, ':', '\\'] + directory;
    assert(base =~= head + rest);
    verbatim_drive_is_a_prefix(drive, rest);
    assert(base[6] == '\\');
    assert(body_start(base, true) == 7);
    assert(base.skip(7) =~= directory);
    assert(base.take(6) =~= head);
    let cut = |c: char| divides(c, true, true);
    let part = |c: char| divides(c, true, false);
    let none = Seq::<char>::empty();
    text::piece_stands_behind(none, directory, cut);
    text::piece_stands_behind(none, name, part);
    assert(pieces(directory, true) =~= seq![directory]);
    assert(pieces(name, false) =~= seq![name]);
    let e = Seq::<Seq<char>>::empty();
    components_follow_each_other(e, e, directory);
    components_follow_each_other(seq![directory], e, name);
    assert(e.push(directory) =~= seq![directory]);
    assert(e.push(name) =~= seq![name]);
    assert(solid(e) =~= e);
    assert(solid(seq![directory]) =~= seq![directory]);
    assert(followed_by(seq![directory], seq![name]) == seq![directory].push(name));
    let all = seq![directory].push(name);
    reveal_strlit("\\");
    assert("\\"@ =~= seq!['\\']);
    assert(all.drop_last() =~= seq![directory]);
    assert(seq![directory].drop_last() =~= e);
    assert(text::join(seq![directory], "\\"@) =~= directory);
    assert(text::join(all, "\\"@) =~= directory + seq!['\\'] + name);
    assert(prefix_len(name, true) == 0);
    assert(join_verbatim(base, name) =~= base + seq!['\\'] + name);
}

} // verus!
