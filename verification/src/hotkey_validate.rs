//! Soft validation of a hotkey: what is wrong with it, and what it may collide
//! with.
use crate::text;
use vstd::prelude::*;
use vstd::string::*;

verus! {

#[derive(Debug, Clone, PartialEq, Eq)]
pub struct HotkeyValidation {
    pub ok: bool,
    pub shortcut: String,
    pub warnings: Vec<String>,
    pub errors: Vec<String>,
}

/// The keys of a shortcut, in upper case.
pub open spec fn keys_of(shortcut: Seq<char>) -> Seq<Seq<char>> {
    text::split(text::upper(shortcut), |c: char| c == '+').map_values(
        |part: Seq<char>| text::trim(part),
    ).filter(|part: Seq<char>| part.len() > 0)
}

/// The key is a modifier.
pub open spec fn is_modifier(key: Seq<char>) -> bool {
    ||| key == "ALT"@
    ||| key == "OPTION"@
    ||| key == "SHIFT"@
    ||| key == "CONTROL"@
    ||| key == "CTRL"@
    ||| key == "COMMAND"@
    ||| key == "CMD"@
    ||| key == "META"@
    ||| key == "SUPER"@
    ||| key == "COMMANDORCONTROL"@
    ||| key == "COMMANDORCTRL"@
}

/// How many of the keys are modifiers.
pub open spec fn modifier_count(keys: Seq<Seq<char>>) -> nat {
    keys.filter(|key: Seq<char>| is_modifier(key)).len()
}

pub open spec fn one_if(holds: bool, words: Seq<char>) -> Seq<Seq<char>> {
    if holds {
        seq![words]
    } else {
        Seq::empty()
    }
}

/// What is wrong with a shortcut that is not empty.
pub open spec fn key_errors(keys: Seq<Seq<char>>) -> Seq<Seq<char>> {
    one_if(keys.len() == 0, "无法解析快捷键"@) + one_if(
        modifier_count(keys) == 0,
        "至少需要一个修饰键（如 Alt / Shift / Control）"@,
    ) + one_if(
        modifier_count(keys) == keys.len() && modifier_count(keys) < 2,
        "纯修饰键组合至少需要两个修饰键（如 Alt+Shift）"@,
    )
}

/// What a shortcut may collide with.
pub open spec fn collisions(shortcut: Seq<char>) -> Seq<Seq<char>> {
    let upper = text::upper(shortcut);
    one_if(
        upper == "COMMAND+SPACE"@ || upper == "CMD+SPACE"@ || upper == "META+SPACE"@,
        "可能与 Spotlight（⌘Space）冲突"@,
    ) + one_if(
        upper == "CONTROL+SPACE"@ || upper == "CTRL+SPACE"@,
        "可能与输入法切换冲突"@,
    ) + one_if(
        text::occurs(upper, "COMMAND"@) && text::occurs(upper, "TAB"@),
        "可能与应用切换冲突"@,
    )
}

/// What the event tap has to say, where the shortcut is not only one for the
/// global registry.
pub open spec fn tap_warnings(shortcut: Seq<char>, tap_error: Option<Seq<char>>) -> Seq<Seq<char>> {
    match tap_error {
        Some(error) => one_if(
            !text::occurs(shortcut, "CommandOrControl"@),
            "EventTap 解析提示: "@ + error,
        ),
        None => Seq::empty(),
    }
}

fn modifier(key: &str) -> (r: bool)
    ensures
        r == is_modifier(key@),
{
    text::same(key, "ALT") || text::same(key, "OPTION") || text::same(key, "SHIFT") || text::same(
        key,
        "CONTROL",
    ) || text::same(key, "CTRL") || text::same(key, "COMMAND") || text::same(key, "CMD")
        || text::same(key, "META") || text::same(key, "SUPER") || text::same(
        key,
        "COMMANDORCONTROL",
    ) || text::same(key, "COMMANDORCTRL")
}

fn push_if(list: &mut Vec<String>, holds: bool, words: &str)
    ensures
        text::texts(final(list)@) == text::texts(old(list)@) + one_if(holds, words@),
{
    let ghost before = text::texts(list@);
    if holds {
        list.push(words.to_owned());
    }
    assert(text::texts(list@) =~= before + one_if(holds, words@));
}

fn keys_in(shortcut: &str) -> (r: Vec<String>)
    ensures
        text::texts(r@) == keys_of(shortcut@),
{
    let upper: String = text::uppered(shortcut);
    let is_plus = |c: char| -> (b: bool)
        ensures
            b == (c == '+'),
        { c == '+' };
    let pieces: Vec<String> = text::split_where(
        upper.as_str(),
        is_plus,
        Ghost(|c: char| c == '+'),
    );
    let ghost cut = |part: Seq<char>| text::trim(part);
    let ghost keep = |part: Seq<char>| part.len() > 0;
    let ghost all = text::texts(pieces@).map_values(cut);
    let mut keys: Vec<String> = Vec::new();
    let mut i: usize = 0;
    proof {
        reveal(Seq::filter);
        assert(text::texts(keys@) =~= all.take(0).filter(keep));
    }
    while i < pieces.len()
        invariant
            i <= pieces@.len(),
            cut == (|part: Seq<char>| text::trim(part)),
            keep == (|part: Seq<char>| part.len() > 0),
            all == text::texts(pieces@).map_values(cut),
            text::texts(keys@) == all.take(i as int).filter(keep),
        decreases pieces@.len() - i,
    {
        let ghost had = text::texts(keys@);
        let key: String = text::trimmed(pieces[i].as_str());
        proof {
            reveal(Seq::filter);
            assert(all.take(i + 1).drop_last() =~= all.take(i as int));
            assert(all.take(i + 1).last() == key@);
        }
        if !key.as_str().is_empty() {
            keys.push(key);
            assert(text::texts(keys@) =~= had.push(key@));
        }
        i = i + 1;
    }
    assert(all.take(i as int) =~= all);
    keys
}

fn count_modifiers(keys: &Vec<String>) -> (count: usize)
    ensures
        count == modifier_count(text::texts(keys@)),
        count <= keys@.len(),
{
    let ghost all = text::texts(keys@);
    let ghost keep = |key: Seq<char>| is_modifier(key);
    let mut count: usize = 0;
    let mut i: usize = 0;
    proof {
        reveal(Seq::filter);
    }
    while i < keys.len()
        invariant
            i <= keys@.len(),
            count <= i,
            all == text::texts(keys@),
            keep == (|key: Seq<char>| is_modifier(key)),
            count == all.take(i as int).filter(keep).len(),
        decreases keys@.len() - i,
    {
        proof {
            reveal(Seq::filter);
            assert(all.take(i + 1).drop_last() =~= all.take(i as int));
            assert(all.take(i + 1).last() == keys@[i as int]@);
        }
        if modifier(keys[i].as_str()) {
            count = count + 1;
        }
        i = i + 1;
    }
    assert(all.take(i as int) =~= all);
    count
}

/// What is wrong with a shortcut, and what it may collide with; `tap_error` is
/// what the event tap says of it, where there is one.
pub fn validate_hotkey(shortcut: &str, tap_error: Option<&str>) -> (r: HotkeyValidation)
    ensures
        r.shortcut@ == text::trim(shortcut@),
        r.ok == (r.errors@.len() == 0),
        text::trim(shortcut@).len() == 0 ==> text::texts(r.errors@) == seq!["快捷键不能为空"@]
            && r.warnings@.len() == 0,
        text::trim(shortcut@).len() > 0 ==> {
            &&& text::texts(r.errors@) == key_errors(keys_of(text::trim(shortcut@)))
            &&& text::texts(r.warnings@) == collisions(text::trim(shortcut@)) + tap_warnings(
                text::trim(shortcut@),
                match tap_error {
                    Some(error) => Some(error@),
                    None => None,
                },
            )
        },
{
    let s: String = text::trimmed(shortcut);
    let mut warnings: Vec<String> = Vec::new();
    let mut errors: Vec<String> = Vec::new();
    if s.as_str().is_empty() {
        errors.push("快捷键不能为空".to_owned());
        assert(text::texts(errors@) =~= seq!["快捷键不能为空"@]);
        return HotkeyValidation { ok: false, shortcut: s, warnings, errors };
    }
    let keys: Vec<String> = keys_in(s.as_str());
    let modifiers: usize = count_modifiers(&keys);
    push_if(&mut errors, keys.len() == 0, "无法解析快捷键");
    push_if(
        &mut errors,
        modifiers == 0,
        "至少需要一个修饰键（如 Alt / Shift / Control）",
    );
    push_if(
        &mut errors,
        modifiers == keys.len() && modifiers < 2,
        "纯修饰键组合至少需要两个修饰键（如 Alt+Shift）",
    );
    assert(text::texts(errors@) =~= key_errors(keys_of(s@)));
    let uppered: String = text::uppered(s.as_str());
    let upper: &str = uppered.as_str();
    push_if(
        &mut warnings,
        text::same(upper, "COMMAND+SPACE") || text::same(upper, "CMD+SPACE") || text::same(
            upper,
            "META+SPACE",
        ),
        "可能与 Spotlight（⌘Space）冲突",
    );
    push_if(
        &mut warnings,
        text::same(upper, "CONTROL+SPACE") || text::same(upper, "CTRL+SPACE"),
        "可能与输入法切换冲突",
    );
    push_if(
        &mut warnings,
        text::contains(upper, "COMMAND") && text::contains(upper, "TAB"),
        "可能与应用切换冲突",
    );
    assert(text::texts(warnings@) =~= collisions(s@));
    if let Some(error) = tap_error {
        let words: String = text::glue("EventTap 解析提示: ", error);
        push_if(
            &mut warnings,
            !text::contains(s.as_str(), "CommandOrControl"),
            words.as_str(),
        );
    }
    HotkeyValidation { ok: errors.len() == 0, shortcut: s, warnings, errors }
}

/// A hotkey that is accepted has a modifier, and another key beside it.
pub proof fn accepted_hotkey_has_two_keys(shortcut: Seq<char>)
    requires
        key_errors(keys_of(shortcut)).len() == 0,
    ensures
        modifier_count(keys_of(shortcut)) > 0,
        keys_of(shortcut).len() >= 2,
{
    let keys = keys_of(shortcut);
    let found = keys.filter(|key: Seq<char>| is_modifier(key));
    if keys.len() == 1 {
        reveal(Seq::filter);
        reveal_with_fuel(Seq::filter, 2);
        assert(keys.drop_last() =~= Seq::empty());
        assert(found.len() <= 1);
    }
}

// ---------------------------------------------------------------------------
// Laws of checking a shortcut
// ---------------------------------------------------------------------------

/// Modifiers have their names, and a letter or the space bar is none.
pub proof fn modifiers_have_their_names()
    ensures
        is_modifier("ALT"@),
        is_modifier("OPTION"@),
        is_modifier("SHIFT"@),
        is_modifier("CONTROL"@),
        is_modifier("CTRL"@),
        is_modifier("COMMAND"@),
        is_modifier("CMD"@),
        is_modifier("META"@),
        is_modifier("SUPER"@),
        is_modifier("COMMANDORCONTROL"@),
        is_modifier("COMMANDORCTRL"@),
        !is_modifier("SPACE"@),
        !is_modifier("T"@),
        !is_modifier("F1"@),
        !is_modifier("FN"@),
{
    reveal_strlit("ALT");
    reveal_strlit("OPTION");
    reveal_strlit("SHIFT");
    reveal_strlit("CONTROL");
    reveal_strlit("CTRL");
    reveal_strlit("COMMAND");
    reveal_strlit("CMD");
    reveal_strlit("META");
    reveal_strlit("SUPER");
    reveal_strlit("COMMANDORCONTROL");
    reveal_strlit("COMMANDORCTRL");
    reveal_strlit("SPACE");
    reveal_strlit("T");
    reveal_strlit("F1");
    reveal_strlit("FN");
    assert("ALT"@.len() == 3 && "ALT"@[0] == 'A' && "ALT"@[1] == 'L' && "ALT"@[2] == 'T');
    assert("OPTION"@.len() == 6 && "OPTION"@[0] == 'O' && "OPTION"@[1] == 'P'
        && "OPTION"@[2] == 'T' && "OPTION"@[3] == 'I' && "OPTION"@[4] == 'O'
        && "OPTION"@[5] == 'N');
    assert("SHIFT"@.len() == 5 && "SHIFT"@[0] == 'S' && "SHIFT"@[1] == 'H' && "SHIFT"@[2] == 'I'
        && "SHIFT"@[3] == 'F' && "SHIFT"@[4] == 'T');
    assert("CONTROL"@.len() == 7 && "CONTROL"@[0] == 'C' && "CONTROL"@[1] == 'O'
        && "CONTROL"@[2] == 'N' && "CONTROL"@[3] == 'T' && "CONTROL"@[4] == 'R'
        && "CONTROL"@[5] == 'O' && "CONTROL"@[6] == 'L');
    assert("CTRL"@.len() == 4 && "CTRL"@[0] == 'C' && "CTRL"@[1] == 'T' && "CTRL"@[2] == 'R'
        && "CTRL"@[3] == 'L');
    assert("COMMAND"@.len() == 7 && "COMMAND"@[0] == 'C' && "COMMAND"@[1] == 'O'
        && "COMMAND"@[2] == 'M' && "COMMAND"@[3] == 'M' && "COMMAND"@[4] == 'A'
        && "COMMAND"@[5] == 'N' && "COMMAND"@[6] == 'D');
    assert("CMD"@.len() == 3 && "CMD"@[0] == 'C' && "CMD"@[1] == 'M' && "CMD"@[2] == 'D');
    assert("META"@.len() == 4 && "META"@[0] == 'M' && "META"@[1] == 'E' && "META"@[2] == 'T'
        && "META"@[3] == 'A');
    assert("SUPER"@.len() == 5 && "SUPER"@[0] == 'S' && "SUPER"@[1] == 'U' && "SUPER"@[2] == 'P'
        && "SUPER"@[3] == 'E' && "SUPER"@[4] == 'R');
    assert("COMMANDORCONTROL"@.len() == 16 && "COMMANDORCONTROL"@[0] == 'C'
        && "COMMANDORCONTROL"@[1] == 'O' && "COMMANDORCONTROL"@[2] == 'M'
        && "COMMANDORCONTROL"@[3] == 'M' && "COMMANDORCONTROL"@[4] == 'A'
        && "COMMANDORCONTROL"@[5] == 'N' && "COMMANDORCONTROL"@[6] == 'D'
        && "COMMANDORCONTROL"@[7] == 'O' && "COMMANDORCONTROL"@[8] == 'R'
        && "COMMANDORCONTROL"@[9] == 'C' && "COMMANDORCONTROL"@[10] == 'O'
        && "COMMANDORCONTROL"@[11] == 'N' && "COMMANDORCONTROL"@[12] == 'T'
        && "COMMANDORCONTROL"@[13] == 'R' && "COMMANDORCONTROL"@[14] == 'O'
        && "COMMANDORCONTROL"@[15] == 'L');
    assert("COMMANDORCTRL"@.len() == 13 && "COMMANDORCTRL"@[0] == 'C'
        && "COMMANDORCTRL"@[1] == 'O' && "COMMANDORCTRL"@[2] == 'M' && "COMMANDORCTRL"@[3] == 'M'
        && "COMMANDORCTRL"@[4] == 'A' && "COMMANDORCTRL"@[5] == 'N' && "COMMANDORCTRL"@[6] == 'D'
        && "COMMANDORCTRL"@[7] == 'O' && "COMMANDORCTRL"@[8] == 'R' && "COMMANDORCTRL"@[9] == 'C'
        && "COMMANDORCTRL"@[10] == 'T' && "COMMANDORCTRL"@[11] == 'R'
        && "COMMANDORCTRL"@[12] == 'L');
    assert("SPACE"@.len() == 5 && "SPACE"@[0] == 'S' && "SPACE"@[1] == 'P' && "SPACE"@[2] == 'A'
        && "SPACE"@[3] == 'C' && "SPACE"@[4] == 'E');
    assert("T"@.len() == 1 && "T"@[0] == 'T');
    assert("F1"@.len() == 2 && "F1"@[0] == 'F' && "F1"@[1] == '1');
    assert("FN"@.len() == 2 && "FN"@[0] == 'F' && "FN"@[1] == 'N');
}

/// A modifier counts once, wherever it stands, and no other key counts.
pub proof fn modifiers_are_counted(keys: Seq<Seq<char>>, key: Seq<char>)
    ensures
        is_modifier(key) ==> modifier_count(keys.push(key)) == modifier_count(keys) + 1,
        !is_modifier(key) ==> modifier_count(keys.push(key)) == modifier_count(keys),
        modifier_count(Seq::empty()) == 0,
{
    reveal(Seq::filter);
    assert(keys.push(key).drop_last() =~= keys);
}

/// A shortcut needs a modifier, and two where it has no other key; what is missing is told
/// in this order, and a shortcut that has all of it is told nothing.
pub proof fn shortcut_is_told_what_it_lacks(keys: Seq<Seq<char>>, words: Seq<char>)
    ensures
        one_if(true, words) == seq![words],
        one_if(false, words).len() == 0,
        key_errors(Seq::empty()).len() == 3,
        keys.len() > 0 && modifier_count(keys) == 0 ==> key_errors(keys) == seq![
            "至少需要一个修饰键（如 Alt / Shift / Control）"@,
        ],
        keys.len() == 1 && modifier_count(keys) == 1 ==> key_errors(keys) == seq![
            "纯修饰键组合至少需要两个修饰键（如 Alt+Shift）"@,
        ],
        modifier_count(keys) >= 2 && keys.len() > 0 ==> key_errors(keys).len() == 0,
        modifier_count(keys) >= 1 && modifier_count(keys) < keys.len() ==> key_errors(keys).len()
            == 0,
{
    modifiers_are_counted(Seq::empty(), words);
}

/// Shortcuts that the system uses are told, in any case; others are not.
pub proof fn collisions_are_told(shortcut: Seq<char>)
    ensures
        collisions("Command+Space"@).contains("可能与 Spotlight（⌘Space）冲突"@),
        collisions("cmd+space"@).contains("可能与 Spotlight（⌘Space）冲突"@),
        collisions("Control+Space"@).contains("可能与输入法切换冲突"@),
        collisions("Ctrl+Space"@).contains("可能与输入法切换冲突"@),
        collisions(shortcut) == collisions(text::upper(shortcut)),
        text::occurs(text::upper(shortcut), "COMMAND"@) && text::occurs(
            text::upper(shortcut),
            "TAB"@,
        ) ==> collisions(shortcut).last() == "可能与应用切换冲突"@,
        shortcut.len() < 7 ==> collisions(shortcut).len() == 0,
{
    reveal_strlit("Command+Space");
    reveal_strlit("cmd+space");
    reveal_strlit("Control+Space");
    reveal_strlit("Ctrl+Space");
    reveal_strlit("COMMAND+SPACE");
    reveal_strlit("CMD+SPACE");
    reveal_strlit("META+SPACE");
    reveal_strlit("CONTROL+SPACE");
    reveal_strlit("CTRL+SPACE");
    reveal_strlit("COMMAND");
    assert("Command+Space"@.len() == 13 && "Command+Space"@[0] == 'C'
        && "Command+Space"@[1] == 'o' && "Command+Space"@[2] == 'm' && "Command+Space"@[3] == 'm'
        && "Command+Space"@[4] == 'a' && "Command+Space"@[5] == 'n' && "Command+Space"@[6] == 'd'
        && "Command+Space"@[7] == '+' && "Command+Space"@[8] == 'S' && "Command+Space"@[9] == 'p'
        && "Command+Space"@[10] == 'a' && "Command+Space"@[11] == 'c'
        && "Command+Space"@[12] == 'e');
    assert("cmd+space"@.len() == 9 && "cmd+space"@[0] == 'c' && "cmd+space"@[1] == 'm'
        && "cmd+space"@[2] == 'd' && "cmd+space"@[3] == '+' && "cmd+space"@[4] == 's'
        && "cmd+space"@[5] == 'p' && "cmd+space"@[6] == 'a' && "cmd+space"@[7] == 'c'
        && "cmd+space"@[8] == 'e');
    assert("Control+Space"@.len() == 13 && "Control+Space"@[0] == 'C'
        && "Control+Space"@[1] == 'o' && "Control+Space"@[2] == 'n' && "Control+Space"@[3] == 't'
        && "Control+Space"@[4] == 'r' && "Control+Space"@[5] == 'o' && "Control+Space"@[6] == 'l'
        && "Control+Space"@[7] == '+' && "Control+Space"@[8] == 'S' && "Control+Space"@[9] == 'p'
        && "Control+Space"@[10] == 'a' && "Control+Space"@[11] == 'c'
        && "Control+Space"@[12] == 'e');
    assert("Ctrl+Space"@.len() == 10 && "Ctrl+Space"@[0] == 'C' && "Ctrl+Space"@[1] == 't'
        && "Ctrl+Space"@[2] == 'r' && "Ctrl+Space"@[3] == 'l' && "Ctrl+Space"@[4] == '+'
        && "Ctrl+Space"@[5] == 'S' && "Ctrl+Space"@[6] == 'p' && "Ctrl+Space"@[7] == 'a'
        && "Ctrl+Space"@[8] == 'c' && "Ctrl+Space"@[9] == 'e');
    assert("COMMAND+SPACE"@.len() == 13 && "COMMAND+SPACE"@[0] == 'C'
        && "COMMAND+SPACE"@[1] == 'O' && "COMMAND+SPACE"@[2] == 'M' && "COMMAND+SPACE"@[3] == 'M'
        && "COMMAND+SPACE"@[4] == 'A' && "COMMAND+SPACE"@[5] == 'N' && "COMMAND+SPACE"@[6] == 'D'
        && "COMMAND+SPACE"@[7] == '+' && "COMMAND+SPACE"@[8] == 'S' && "COMMAND+SPACE"@[9] == 'P'
        && "COMMAND+SPACE"@[10] == 'A' && "COMMAND+SPACE"@[11] == 'C'
        && "COMMAND+SPACE"@[12] == 'E');
    assert("CMD+SPACE"@.len() == 9 && "CMD+SPACE"@[0] == 'C' && "CMD+SPACE"@[1] == 'M'
        && "CMD+SPACE"@[2] == 'D' && "CMD+SPACE"@[3] == '+' && "CMD+SPACE"@[4] == 'S'
        && "CMD+SPACE"@[5] == 'P' && "CMD+SPACE"@[6] == 'A' && "CMD+SPACE"@[7] == 'C'
        && "CMD+SPACE"@[8] == 'E');
    assert("META+SPACE"@.len() == 10 && "META+SPACE"@[0] == 'M' && "META+SPACE"@[1] == 'E'
        && "META+SPACE"@[2] == 'T' && "META+SPACE"@[3] == 'A' && "META+SPACE"@[4] == '+'
        && "META+SPACE"@[5] == 'S' && "META+SPACE"@[6] == 'P' && "META+SPACE"@[7] == 'A'
        && "META+SPACE"@[8] == 'C' && "META+SPACE"@[9] == 'E');
    assert("CONTROL+SPACE"@.len() == 13 && "CONTROL+SPACE"@[0] == 'C'
        && "CONTROL+SPACE"@[1] == 'O' && "CONTROL+SPACE"@[2] == 'N' && "CONTROL+SPACE"@[3] == 'T'
        && "CONTROL+SPACE"@[4] == 'R' && "CONTROL+SPACE"@[5] == 'O' && "CONTROL+SPACE"@[6] == 'L'
        && "CONTROL+SPACE"@[7] == '+' && "CONTROL+SPACE"@[8] == 'S' && "CONTROL+SPACE"@[9] == 'P'
        && "CONTROL+SPACE"@[10] == 'A' && "CONTROL+SPACE"@[11] == 'C'
        && "CONTROL+SPACE"@[12] == 'E');
    assert("CTRL+SPACE"@.len() == 10 && "CTRL+SPACE"@[0] == 'C' && "CTRL+SPACE"@[1] == 'T'
        && "CTRL+SPACE"@[2] == 'R' && "CTRL+SPACE"@[3] == 'L' && "CTRL+SPACE"@[4] == '+'
        && "CTRL+SPACE"@[5] == 'S' && "CTRL+SPACE"@[6] == 'P' && "CTRL+SPACE"@[7] == 'A'
        && "CTRL+SPACE"@[8] == 'C' && "CTRL+SPACE"@[9] == 'E');
    assert("COMMAND"@.len() == 7 && "COMMAND"@[0] == 'C' && "COMMAND"@[1] == 'O'
        && "COMMAND"@[2] == 'M' && "COMMAND"@[3] == 'M' && "COMMAND"@[4] == 'A'
        && "COMMAND"@[5] == 'N' && "COMMAND"@[6] == 'D');
    assert(text::upper("Command+Space"@) =~= "COMMAND+SPACE"@);
    assert(text::upper("cmd+space"@) =~= "CMD+SPACE"@);
    assert(text::upper("Control+Space"@) =~= "CONTROL+SPACE"@);
    assert(text::upper("Ctrl+Space"@) =~= "CTRL+SPACE"@);
    assert(text::upper(text::upper(shortcut)) =~= text::upper(shortcut));
    assert(collisions("Command+Space"@)[0] == "可能与 Spotlight（⌘Space）冲突"@);
    assert(collisions("cmd+space"@)[0] == "可能与 Spotlight（⌘Space）冲突"@);
    assert(collisions("Control+Space"@)[0] == "可能与输入法切换冲突"@);
    assert(collisions("Ctrl+Space"@)[0] == "可能与输入法切换冲突"@);
    if text::occurs(text::upper(shortcut), "COMMAND"@) {
        let at = choose|at: int| text::occurs_at(text::upper(shortcut), "COMMAND"@, at);
        assert(shortcut.len() >= 7);
    }
}

/// What the event tap could not read is told, unless the shortcut is one for the global
/// registry.
pub proof fn tap_errors_are_told(shortcut: Seq<char>, error: Seq<char>)
    ensures
        tap_warnings(shortcut, None).len() == 0,
        text::occurs(shortcut, "CommandOrControl"@) ==> tap_warnings(shortcut, Some(error)).len()
            == 0,
        !text::occurs(shortcut, "CommandOrControl"@) ==> tap_warnings(shortcut, Some(error))
            == seq!["EventTap 解析提示: "@ + error],
{
}

/// A key behind a `+` sign is one more key, in capitals and without the white space around
/// it.
pub proof fn keys_are_divided_by_plus(before: Seq<char>, key: Seq<char>)
    requires
        key.len() > 0,
        !text::is_space(key[0]),
        !text::is_space(key.last()),
        forall|i: int| 0 <= i < key.len() ==> #[trigger] key[i] != '+',
    ensures
        keys_of(key) == seq![text::upper(key)],
        keys_of(before.push('+') + key) == keys_of(before).push(text::upper(key)),
        keys_of(before.push('+')) == keys_of(before),
{
    let cut = |c: char| c == '+';
    let ends = |part: Seq<char>| text::trim(part);
    let keep = |part: Seq<char>| part.len() > 0;
    let none = Seq::<char>::empty();
    let u = text::upper(key);
    let up = text::upper(before);
    assert(u[0] == text::upper_char(key[0]) && u.last() == text::upper_char(key.last()));
    text::trimming_leaves_the_text(none, u, none);
    assert(none + u + none =~= u);
    assert forall|i: int| 0 <= i < u.len() implies #[trigger] u[i] != '+' by {
        assert(key[i] != '+');
    }
    let all = text::upper(before.push('+') + key);
    assert(all =~= up.push('+') + u);
    assert(text::upper(before.push('+')) =~= up.push('+'));
    let head = text::split(up, cut);
    assert(up.push('+').drop_last() =~= up);
    assert(text::split(up.push('+'), cut) == head.push(none));
    assert(head.push(none).drop_last() =~= head);
    lemma_key_behind(up.push('+'), u);
    assert(none + u =~= u);
    assert(text::split(all, cut) =~= head.push(u));
    assert(head.push(u).map_values(ends) =~= head.map_values(ends).push(u));
    assert(text::trim(none) =~= none) by {
        text::trimming_leaves_the_text(none, none, none);
        assert(none + none + none =~= none);
    }
    assert(head.push(none).map_values(ends) =~= head.map_values(ends).push(none));
    reveal(Seq::filter);
    let m = head.map_values(ends);
    assert(m.push(u).drop_last() =~= m);
    assert(m.push(none).drop_last() =~= m);
    assert(text::split(none, cut) =~= seq![none]);
    lemma_key_behind(none, u);
    let e = Seq::<Seq<char>>::empty();
    assert(text::split(u, cut) =~= e.push(u));
    assert(e.push(u).map_values(ends) =~= e.push(u));
    assert(e.push(u).drop_last() =~= e);
    assert(e.filter(keep) =~= e);
    assert(keys_of(key) =~= seq![u]);
}

proof fn lemma_key_behind(before: Seq<char>, key: Seq<char>)
    requires
        forall|i: int| 0 <= i < key.len() ==> #[trigger] key[i] != '+',
    ensures
        ({
            let cut = |c: char| c == '+';
            let head = text::split(before, cut);
            text::split(before + key, cut) == head.drop_last().push(head.last() + key)
        }),
    decreases key.len(),
{
    let cut = |c: char| c == '+';
    let head = text::split(before, cut);
    text::lemma_split_nonempty(before, cut);
    if key.len() > 0 {
        let k = key.drop_last();
        assert forall|i: int| 0 <= i < k.len() implies #[trigger] k[i] != '+' by {
            assert(k[i] == key[i]);
        }
        lemma_key_behind(before, k);
        assert((before + key).drop_last() =~= before + k);
        assert((before + key).last() == key[key.len() - 1]);
        let mid = head.drop_last().push(head.last() + k);
        assert(mid.drop_last() =~= head.drop_last());
        assert((head.last() + k).push(key.last()) =~= head.last() + key);
    } else {
        assert(before + key =~= before);
        assert(head.last() + key =~= head.last());
        assert(head.drop_last().push(head.last()) =~= head);
    }
}

} // verus!
