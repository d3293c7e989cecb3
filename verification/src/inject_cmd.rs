//! Insertion of text into other apps: its settings, where it is possible, and the
//! keystrokes and clipboard contents that it is made of.
use crate::config;
use crate::config::InjectConfig;
use crate::config::InsertPolicy;
use crate::pipeline;
use crate::pipeline::InsertStrategy;
use crate::platform::Platform;
use crate::text;
use vstd::prelude::*;
use vstd::string::*;

verus! {

// ---------------------------------------------------------------------------
// Settings
// ---------------------------------------------------------------------------

#[derive(Debug, Clone, PartialEq, Eq)]
pub struct InjectConfigDto {
    pub mode: String,
    pub preserve_clipboard: bool,
    pub auto_insert: bool,
}

#[derive(Debug, Clone, PartialEq, Eq)]
pub struct InjectConfigInput {
    pub mode: Option<String>,
    pub preserve_clipboard: Option<bool>,
    pub auto_insert: Option<bool>,
}

#[derive(Debug, Clone, PartialEq, Eq)]
pub struct InsertTextOutcome {
    pub strategy: String,
    pub restored_clipboard: bool,
}

/// The insertion settings as the interface shows them.
pub fn get_inject_config(config: &InjectConfig) -> (r: InjectConfigDto)
    ensures
        r.mode@ == config.mode@,
        r.preserve_clipboard == config.preserve_clipboard,
        r.auto_insert == config.auto_insert,
{
    InjectConfigDto {
        mode: config.mode.as_str().to_owned(),
        preserve_clipboard: config.preserve_clipboard,
        auto_insert: config.auto_insert,
    }
}

/// Takes over what an input sets.
pub fn save_inject_config(config: &mut InjectConfig, input: InjectConfigInput)
    ensures
        final(config).mode@ == match input.mode {
            Some(mode) => mode@,
            None => old(config).mode@,
        },
        final(config).preserve_clipboard == match input.preserve_clipboard {
            Some(value) => value,
            None => old(config).preserve_clipboard,
        },
        final(config).auto_insert == match input.auto_insert {
            Some(value) => value,
            None => old(config).auto_insert,
        },
{
    if let Some(mode) = input.mode {
        config.mode = mode;
    }
    if let Some(value) = input.preserve_clipboard {
        config.preserve_clipboard = value;
    }
    if let Some(value) = input.auto_insert {
        config.auto_insert = value;
    }
}

// ---------------------------------------------------------------------------
// Where text can be inserted
// ---------------------------------------------------------------------------

/// What an insertion does.
#[derive(Debug, Clone, PartialEq, Eq)]
pub enum InsertPlan {
    /// There is no text: nothing is inserted.
    Nothing,
    Inject(InsertPolicy),
    Refused(String),
}

/// What an insertion does: `trusted` says that the system lets this app type into
/// others, which only macOS asks for.
pub fn insert_with_config(
    config: &InjectConfig,
    text: &str,
    platform: Platform,
    trusted: bool,
) -> (r: InsertPlan)
    ensures
        text@.len() == 0 ==> r is Nothing,
        text@.len() > 0 ==> match platform {
            Platform::Windows => r == InsertPlan::Inject(policy_of(*config)),
            Platform::MacOs => if trusted {
                r == InsertPlan::Inject(policy_of(*config))
            } else {
                refuses(
                    r,
                    "Accessibility permission required to insert into other apps (System Settings → Privacy & Security → Accessibility)"@,
                )
            },
            Platform::Other => refuses(
                r,
                "text insertion is not implemented on this platform"@,
            ),
        },
{
    if text.is_empty() {
        return InsertPlan::Nothing;
    }
    match platform {
        Platform::Windows => InsertPlan::Inject(config.to_policy()),
        Platform::MacOs => if trusted {
            InsertPlan::Inject(config.to_policy())
        } else {
            InsertPlan::Refused(
                "Accessibility permission required to insert into other apps (System Settings → Privacy & Security → Accessibility)".to_owned(),
            )
        },
        Platform::Other => InsertPlan::Refused(
            "text insertion is not implemented on this platform".to_owned(),
        ),
    }
}

/// The rule by which text is inserted.
pub open spec fn policy_of(config: InjectConfig) -> InsertPolicy {
    InsertPolicy {
        mode: config::inject_mode(config.mode@),
        preserve_clipboard: config.preserve_clipboard,
        paste_first: true,
    }
}

/// The plan refuses, with these words.
pub open spec fn refuses(plan: InsertPlan, words: Seq<char>) -> bool {
    plan matches InsertPlan::Refused(error) && error@ == words
}

/// Whether text can be copied on a platform.
pub fn check_copy(platform: Platform) -> (r: Result<(), String>)
    ensures
        r is Ok <==> !(platform is Other),
        r is Err ==> text::fails(r, "clipboard copy is not implemented on this platform"@),
{
    match platform {
        Platform::Other => Err("clipboard copy is not implemented on this platform".to_owned()),
        _ => Ok(()),
    }
}

/// What an insertion came to, as the interface shows it.
pub fn insert_outcome(strategy: InsertStrategy, restored_clipboard: bool) -> (r: InsertTextOutcome)
    ensures
        r.strategy@ == strategy.name(),
        r.restored_clipboard == restored_clipboard,
{
    InsertTextOutcome {
        strategy: pipeline::strategy_name(strategy).to_owned(),
        restored_clipboard,
    }
}

// ---------------------------------------------------------------------------
// UTF-16
// ---------------------------------------------------------------------------

/// The UTF-16 units of a scalar value.
pub open spec fn units_of_char(c: char) -> Seq<u16> {
    let n = c as int;
    if n < 0x1_0000 {
        seq![n as u16]
    } else {
        seq![
            (0xD800 + (n - 0x1_0000) / 0x400) as u16,
            (0xDC00 + (n - 0x1_0000) % 0x400) as u16,
        ]
    }
}

/// The UTF-16 units of a text.
pub open spec fn units_of(s: Seq<char>) -> Seq<u16>
    decreases s.len(),
{
    if s.len() == 0 {
        Seq::empty()
    } else {
        units_of(s.drop_last()) + units_of_char(s.last())
    }
}

fn push_units(units: &mut Vec<u16>, c: char)
    ensures
        final(units)@ == old(units)@ + units_of_char(c),
{
    let ghost had = units@;
    let n: u32 = c as u32;
    if n < 0x1_0000 {
        units.push(n as u16);
    } else {
        let rest: u32 = n - 0x1_0000;
        units.push((0xD800 + rest / 0x400) as u16);
        units.push((0xDC00 + rest % 0x400) as u16);
    }
    assert(units@ =~= had + units_of_char(c));
}

/// The UTF-16 units of a text.
pub fn utf16_units(text: &str) -> (r: Vec<u16>)
    ensures
        r@ == units_of(text@),
{
    let chars: Vec<char> = text::to_chars(text);
    let mut units: Vec<u16> = Vec::new();
    let mut i: usize = 0;
    while i < chars.len()
        invariant
            i <= chars@.len(),
            units@ == units_of(chars@.take(i as int)),
        decreases chars@.len() - i,
    {
        assert(chars@.take(i + 1).drop_last() =~= chars@.take(i as int));
        push_units(&mut units, chars[i]);
        i = i + 1;
    }
    assert(chars@.take(i as int) =~= chars@);
    units
}

/// What the clipboard holds for a text: its units, and a zero behind them.
pub fn clipboard_units(text: &str) -> (r: Vec<u16>)
    ensures
        r@ == units_of(text@).push(0),
{
    let mut units: Vec<u16> = utf16_units(text);
    units.push(0);
    units
}

/// How many units a text on the clipboard has: up to the first zero, or all.
pub fn clipboard_text_len(units: &Vec<u16>) -> (n: usize)
    ensures
        n <= units@.len(),
        forall|i: int| 0 <= i < n ==> #[trigger] units@[i] != 0,
        n < units@.len() ==> units@[n as int] == 0,
{
    let mut n: usize = 0;
    while n < units.len() && units[n] != 0
        invariant
            n <= units@.len(),
            forall|i: int| 0 <= i < n ==> #[trigger] units@[i] != 0,
        decreases units@.len() - n,
    {
        n = n + 1;
    }
    n
}

proof fn lemma_char_units_not_zero(c: char)
    requires
        c as int != 0,
    ensures
        forall|i: int| 0 <= i < units_of_char(c).len() ==> #[trigger] units_of_char(c)[i] != 0,
{
}

proof fn lemma_units_not_zero(s: Seq<char>)
    requires
        forall|i: int| 0 <= i < s.len() ==> #[trigger] s[i] as int != 0,
    ensures
        forall|i: int| 0 <= i < units_of(s).len() ==> #[trigger] units_of(s)[i] != 0,
    decreases s.len(),
{
    if s.len() > 0 {
        lemma_units_not_zero(s.drop_last());
        assert(s[s.len() - 1] == s.last());
        lemma_char_units_not_zero(s.last());
        let head = units_of(s.drop_last());
        let tail = units_of_char(s.last());
        assert forall|i: int| 0 <= i < units_of(s).len() implies #[trigger] units_of(s)[i] != 0 by {
            if i < head.len() {
                assert(units_of(s)[i] == head[i]);
            } else {
                assert(units_of(s)[i] == tail[i - head.len()]);
            }
        }
    }
}

/// A text without a null character comes back from the clipboard whole.
pub proof fn clipboard_gives_back_the_text(s: Seq<char>, n: int)
    requires
        forall|i: int| 0 <= i < s.len() ==> #[trigger] s[i] as int != 0,
        0 <= n <= units_of(s).push(0).len(),
        forall|i: int| 0 <= i < n ==> #[trigger] units_of(s).push(0)[i] != 0,
        n < units_of(s).push(0).len() ==> units_of(s).push(0)[n] == 0,
    ensures
        units_of(s).push(0).take(n) == units_of(s),
{
    lemma_units_not_zero(s);
    let units = units_of(s);
    let held = units.push(0);
    if n < units.len() {
        assert(held[n] == units[n]);
    }
    if n == held.len() {
        assert(held[units.len() as int] == 0);
    }
    assert(held.take(n) =~= units);
}

// ---------------------------------------------------------------------------
// Keystrokes
// ---------------------------------------------------------------------------

/// What is pressed.
#[derive(Debug, Clone, Copy, PartialEq, Eq, Structural)]
pub enum Key {
    Control,
    V,
    /// A UTF-16 unit, whatever key it stands on.
    Unit(u16),
}

/// A key goes down or up.
#[derive(Debug, Clone, Copy, PartialEq, Eq, Structural)]
pub struct Stroke {
    pub key: Key,
    pub up: bool,
}

/// The keys that are down after the strokes, where none was before.
pub open spec fn held_keys(strokes: Seq<Stroke>) -> Set<Key>
    decreases strokes.len(),
{
    if strokes.len() == 0 {
        Set::empty()
    } else {
        let before = held_keys(strokes.drop_last());
        let last = strokes.last();
        if last.up {
            before.remove(last.key)
        } else {
            before.insert(last.key)
        }
    }
}

/// The strokes of a paste.
pub open spec fn paste_strokes() -> Seq<Stroke> {
    seq![
        Stroke { key: Key::Control, up: false },
        Stroke { key: Key::V, up: false },
        Stroke { key: Key::V, up: true },
        Stroke { key: Key::Control, up: true },
    ]
}

/// The strokes of a paste.
pub fn ctrl_v_sequence() -> (r: Vec<Stroke>)
    ensures
        r@ == paste_strokes(),
{
    let mut strokes: Vec<Stroke> = Vec::new();
    strokes.push(Stroke { key: Key::Control, up: false });
    strokes.push(Stroke { key: Key::V, up: false });
    strokes.push(Stroke { key: Key::V, up: true });
    strokes.push(Stroke { key: Key::Control, up: true });
    assert(strokes@ =~= paste_strokes());
    strokes
}

/// The strokes that let go of what a paste may have left down.
pub fn release_sequence() -> (r: Vec<Stroke>)
    ensures
        r@ == seq![Stroke { key: Key::V, up: true }, Stroke { key: Key::Control, up: true }],
{
    let mut strokes: Vec<Stroke> = Vec::new();
    strokes.push(Stroke { key: Key::V, up: true });
    strokes.push(Stroke { key: Key::Control, up: true });
    assert(strokes@ =~= seq![
        Stroke { key: Key::V, up: true },
        Stroke { key: Key::Control, up: true },
    ]);
    strokes
}

/// A paste lets go of every key, and so does what follows a paste of which only
/// a part was accepted.
pub proof fn every_key_is_released(accepted: int)
    requires
        0 <= accepted <= 4,
    ensures
        held_keys(paste_strokes()) == Set::<Key>::empty(),
        held_keys(
            paste_strokes().take(accepted) + seq![
                Stroke { key: Key::V, up: true },
                Stroke { key: Key::Control, up: true },
            ],
        ) == Set::<Key>::empty(),
{
    let all = paste_strokes();
    let p0 = all.take(0);
    let p1 = all.take(1);
    let p2 = all.take(2);
    let p3 = all.take(3);
    assert(all.drop_last() =~= p3);
    assert(p3.drop_last() =~= p2);
    assert(p2.drop_last() =~= p1);
    assert(p1.drop_last() =~= p0);
    assert(held_keys(p0) =~= Set::empty());
    assert(held_keys(p1) =~= Set::empty().insert(Key::Control));
    assert(held_keys(p2) =~= Set::empty().insert(Key::Control).insert(Key::V));
    assert(held_keys(p3) =~= Set::empty().insert(Key::Control));
    assert(held_keys(all) =~= Set::<Key>::empty());
    let some = all.take(accepted);
    assert(accepted == 4 ==> some =~= all);
    assert(held_keys(some).subset_of(set![Key::Control, Key::V]));
    let v = Stroke { key: Key::V, up: true };
    let control = Stroke { key: Key::Control, up: true };
    let after = some + seq![v, control];
    assert(after.drop_last() =~= some.push(v));
    assert(some.push(v).drop_last() =~= some);
    assert(held_keys(some.push(v)) =~= held_keys(some).remove(Key::V));
    assert(after.last() == control);
    assert(held_keys(after) =~= held_keys(some).remove(Key::V).remove(Key::Control));
    assert(held_keys(after) =~= Set::<Key>::empty());
}

/// The strokes that type a unit.
pub open spec fn unit_strokes(unit: u16) -> Seq<Stroke> {
    seq![Stroke { key: Key::Unit(unit), up: false }, Stroke { key: Key::Unit(unit), up: true }]
}

/// The strokes that type units, in order.
pub open spec fn typed(units: Seq<u16>) -> Seq<Stroke>
    decreases units.len(),
{
    if units.len() == 0 {
        Seq::empty()
    } else {
        typed(units.drop_last()) + unit_strokes(units.last())
    }
}

/// How many units are typed at once.
pub const UNITS_AT_ONCE: usize = 128;

/// The strokes that type the units from `from` on, as many as are typed at once,
/// and where the next ones begin.
pub fn typing_strokes(units: &Vec<u16>, from: usize) -> (r: (Vec<Stroke>, usize))
    requires
        from <= units@.len(),
    ensures
        r.1 == if units@.len() - from > UNITS_AT_ONCE {
            from + UNITS_AT_ONCE
        } else {
            units@.len() as int
        },
        r.0@ == typed(units@.subrange(from as int, r.1 as int)),
{
    let n: usize = units.len();
    let end: usize = if n - from > UNITS_AT_ONCE {
        from + UNITS_AT_ONCE
    } else {
        n
    };
    let mut strokes: Vec<Stroke> = Vec::new();
    let mut i: usize = from;
    while i < end
        invariant
            from <= i <= end <= units@.len(),
            strokes@ == typed(units@.subrange(from as int, i as int)),
        decreases end - i,
    {
        let ghost had = strokes@;
        let ghost next = units@.subrange(from as int, i + 1);
        assert(next.drop_last() =~= units@.subrange(from as int, i as int));
        assert(next.last() == units@[i as int]);
        strokes.push(Stroke { key: Key::Unit(units[i]), up: false });
        strokes.push(Stroke { key: Key::Unit(units[i]), up: true });
        assert(strokes@ =~= had + unit_strokes(units@[i as int]));
        i = i + 1;
    }
    (strokes, end)
}

proof fn lemma_typed_parts(a: Seq<u16>, b: Seq<u16>)
    ensures
        typed(a + b) == typed(a) + typed(b),
    decreases b.len(),
{
    if b.len() == 0 {
        assert(a + b =~= a);
        assert(typed(a) + typed(b) =~= typed(a));
    } else {
        lemma_typed_parts(a, b.drop_last());
        assert((a + b).drop_last() =~= a + b.drop_last());
        assert(typed(a + b) =~= typed(a) + typed(b));
    }
}

proof fn lemma_unit_is_released(before: Seq<Stroke>, unit: u16)
    requires
        held_keys(before) == Set::<Key>::empty(),
    ensures
        held_keys(before + unit_strokes(unit)) == Set::<Key>::empty(),
{
    let down = Stroke { key: Key::Unit(unit), up: false };
    let up = Stroke { key: Key::Unit(unit), up: true };
    let after = before + unit_strokes(unit);
    assert(after.drop_last() =~= before.push(down));
    assert(after.last() == up);
    assert(before.push(down).drop_last() =~= before);
    assert(held_keys(before.push(down)) =~= Set::<Key>::empty().insert(Key::Unit(unit)));
    assert(held_keys(after) =~= Set::<Key>::empty());
}

/// Typing piece by piece types the whole, and lets go of every key.
pub proof fn typing_in_pieces_types_the_whole(units: Seq<u16>, at: int)
    requires
        0 <= at <= units.len(),
    ensures
        typed(units.take(at)) + typed(units.skip(at)) == typed(units),
        held_keys(typed(units)) == Set::<Key>::empty(),
    decreases units.len(),
{
    lemma_typed_parts(units.take(at), units.skip(at));
    assert(units.take(at) + units.skip(at) =~= units);
    if units.len() > 0 {
        let head = units.drop_last();
        typing_in_pieces_types_the_whole(head, 0);
        lemma_unit_is_released(typed(head), units.last());
    }
}

/// How long the modifiers of a hotkey are waited for.
pub const MODIFIER_TIMEOUT_MS: u64 = 800;

/// What to do about modifiers that may still be down.
#[derive(Debug, Clone, PartialEq, Eq)]
pub enum ModifierStep {
    Clear,
    Wait,
    TimedOut(String),
}

/// What to do about modifiers: they must be up before text is inserted, or the
/// insertion is given up.
pub fn wait_for_modifiers(any_down: bool, elapsed_ms: u64) -> (r: ModifierStep)
    ensures
        !any_down ==> r is Clear,
        any_down && elapsed_ms < MODIFIER_TIMEOUT_MS ==> r is Wait,
        any_down && elapsed_ms >= MODIFIER_TIMEOUT_MS ==> (r matches ModifierStep::TimedOut(error)
            && error@ == "release the dictation shortcut before Windows text insertion"@),
{
    if !any_down {
        ModifierStep::Clear
    } else if elapsed_ms >= MODIFIER_TIMEOUT_MS {
        ModifierStep::TimedOut(
            "release the dictation shortcut before Windows text insertion".to_owned(),
        )
    } else {
        ModifierStep::Wait
    }
}

/// Whether all strokes were accepted.
pub fn check_strokes(sent: usize, wanted: usize) -> (r: Result<(), String>)
    ensures
        r is Ok <==> sent == wanted,
        r is Err ==> text::fails(
            r,
            "Windows blocked simulated keyboard input; elevated apps cannot receive input from a non-elevated Lumen process"@,
        ),
{
    if sent == wanted {
        Ok(())
    } else {
        Err(
            "Windows blocked simulated keyboard input; elevated apps cannot receive input from a non-elevated Lumen process".to_owned(),
        )
    }
}

// ---------------------------------------------------------------------------
// Pasting
// ---------------------------------------------------------------------------

/// Milliseconds between filling the clipboard and pasting.
pub const SETTLE_MS: u64 = 40;

/// Milliseconds that an app has to read the clipboard.
pub const READ_MS: u64 = 350;

/// What a paste does next.
#[derive(Debug, Clone, Copy, PartialEq, Eq, Structural)]
pub enum PasteAction {
    WaitForModifiers,
    /// The clipboard is read, to be restored.
    ReadClipboard,
    /// The clipboard is filled with the text, and time is left to settle.
    FillClipboard,
    /// The keys of a paste are sent, and time is left to read the clipboard.
    SendKeys,
    /// The clipboard is filled with what it held.
    Restore,
    Done,
    Failed,
}

/// A paste through the clipboard.
#[derive(Debug, Clone, PartialEq, Eq)]
pub struct PasteRun {
    pub preserve: bool,
    /// What the clipboard held; empty where it held no text.
    pub previous: Option<String>,
    pub next: PasteAction,
    pub error: Option<String>,
}

/// What came of an action.
#[derive(Debug, Clone, PartialEq, Eq)]
pub enum PasteEvent {
    Done,
    /// What the clipboard held, where it held text.
    Held(Option<String>),
    Failed(String),
}

/// What a paste does after `action`.
pub open spec fn paste_next(action: PasteAction, preserve: bool, failed: bool) -> PasteAction {
    match action {
        PasteAction::WaitForModifiers => if failed {
            PasteAction::Failed
        } else if preserve {
            PasteAction::ReadClipboard
        } else {
            PasteAction::FillClipboard
        },
        PasteAction::ReadClipboard => if failed {
            PasteAction::Failed
        } else {
            PasteAction::FillClipboard
        },
        PasteAction::FillClipboard => if failed {
            PasteAction::Failed
        } else {
            PasteAction::SendKeys
        },
        PasteAction::SendKeys => if failed {
            PasteAction::Failed
        } else if preserve {
            PasteAction::Restore
        } else {
            PasteAction::Done
        },
        PasteAction::Restore => PasteAction::Done,
        PasteAction::Done => PasteAction::Done,
        PasteAction::Failed => PasteAction::Failed,
    }
}

impl PasteRun {
    /// A paste of `text`; nothing is done for an empty one.
    pub fn new(text: &str, preserve: bool) -> (r: Self)
        ensures
            r.preserve == preserve,
            r.previous is None,
            r.error is None,
            r.next == if text@.len() == 0 {
                PasteAction::Done
            } else {
                PasteAction::WaitForModifiers
            },
    {
        PasteRun {
            preserve,
            previous: None,
            next: if text.is_empty() {
                PasteAction::Done
            } else {
                PasteAction::WaitForModifiers
            },
            error: None,
        }
    }

    /// Takes in what came of the last action.
    pub fn advance(&mut self, event: PasteEvent)
        ensures
            final(self).preserve == old(self).preserve,
            final(self).next == paste_next(old(self).next, old(self).preserve, event is Failed),
            text::opt(final(self).previous) == (if old(self).next is ReadClipboard
                && event !is Failed {
                Some(
                    match event {
                        PasteEvent::Held(Some(held)) => held@,
                        _ => Seq::empty(),
                    },
                )
            } else {
                text::opt(old(self).previous)
            }),
            text::opt(final(self).error) == (if final(self).next is Failed && old(self).next
                !is Failed {
                Some(event->Failed_0@)
            } else {
                text::opt(old(self).error)
            }),
    {
        let action: PasteAction = self.next;
        match event {
            PasteEvent::Failed(error) => match action {
                PasteAction::Restore | PasteAction::Done => {
                    self.next = PasteAction::Done;
                },
                PasteAction::Failed => {},
                _ => {
                    self.next = PasteAction::Failed;
                    self.error = Some(error);
                },
            },
            event => {
                if let PasteAction::ReadClipboard = action {
                    self.previous = match event {
                        PasteEvent::Held(Some(held)) => Some(held),
                        _ => Some(String::new()),
                    };
                }
                self.next = match action {
                    PasteAction::WaitForModifiers => if self.preserve {
                        PasteAction::ReadClipboard
                    } else {
                        PasteAction::FillClipboard
                    },
                    PasteAction::ReadClipboard => PasteAction::FillClipboard,
                    PasteAction::FillClipboard => PasteAction::SendKeys,
                    PasteAction::SendKeys => if self.preserve {
                        PasteAction::Restore
                    } else {
                        PasteAction::Done
                    },
                    PasteAction::Restore => PasteAction::Done,
                    PasteAction::Done => PasteAction::Done,
                    PasteAction::Failed => PasteAction::Failed,
                };
            },
        }
    }
}

/// What a paste has come to after `failures` of its actions, one after the other.
pub open spec fn paste_after(start: PasteAction, preserve: bool, failures: Seq<bool>) -> PasteAction
    decreases failures.len(),
{
    if failures.len() == 0 {
        start
    } else {
        paste_next(paste_after(start, preserve, failures.drop_last()), preserve, failures.last())
    }
}

/// A text that reached its target is never reported as lost, so that it is not
/// inserted a second time, whatever becomes of the clipboard afterwards.
pub proof fn pasted_text_is_never_lost(preserve: bool, failures: Seq<bool>, rest: Seq<bool>)
    requires
        paste_after(PasteAction::WaitForModifiers, preserve, failures) is SendKeys,
    ensures
        paste_after(
            PasteAction::WaitForModifiers,
            preserve,
            failures.push(false) + rest,
        ) !is Failed,
    decreases rest.len(),
{
    let all = failures.push(false) + rest;
    if rest.len() == 0 {
        assert(all.drop_last() =~= failures);
    } else {
        let before = failures.push(false) + rest.drop_last();
        pasted_text_is_never_lost(preserve, failures, rest.drop_last());
        lemma_after_keys(preserve, failures, rest);
        assert(all.drop_last() =~= before);
    }
}

proof fn lemma_after_keys(preserve: bool, failures: Seq<bool>, rest: Seq<bool>)
    requires
        paste_after(PasteAction::WaitForModifiers, preserve, failures) is SendKeys,
    ensures
        ({
            let now = paste_after(
                PasteAction::WaitForModifiers,
                preserve,
                failures.push(false) + rest,
            );
            now is Restore || now is Done
        }),
    decreases rest.len(),
{
    let all = failures.push(false) + rest;
    if rest.len() == 0 {
        assert(all.drop_last() =~= failures);
    } else {
        lemma_after_keys(preserve, failures, rest.drop_last());
        assert(all.drop_last() =~= failures.push(false) + rest.drop_last());
    }
}

/// The clipboard is touched only once the keys of the hotkey are up.
pub proof fn clipboard_waits_for_the_keys(preserve: bool, failures: Seq<bool>)
    requires
        failures.len() > 0,
        failures[0],
    ensures
        paste_after(PasteAction::WaitForModifiers, preserve, failures) is Failed,
    decreases failures.len(),
{
    let head = failures.drop_last();
    if head.len() == 0 {
        assert(head =~= Seq::empty());
        assert(paste_after(PasteAction::WaitForModifiers, preserve, head)
            is WaitForModifiers);
        assert(failures.last() == failures[0]);
    } else {
        clipboard_waits_for_the_keys(preserve, head);
    }
}

// ---------------------------------------------------------------------------
// Laws of insertion
// ---------------------------------------------------------------------------

/// Text is inserted by the configured mode, and pasted first.
pub proof fn text_is_inserted_by_its_mode(config: InjectConfig)
    ensures
        policy_of(config).mode == config::inject_mode(config.mode@),
        policy_of(config).preserve_clipboard == config.preserve_clipboard,
        policy_of(config).paste_first,
{
}

/// A plan that refuses gives the words.
pub proof fn refusal_gives_its_words(plan: InsertPlan, error: String)
    ensures
        refuses(InsertPlan::Refused(error), error@),
        refuses(plan, error@) ==> plan is Refused,
{
}

/// A scalar value of the basic plane is one unit, its own number; any other is a high and a
/// low surrogate that give its number back.
pub proof fn units_give_the_character_back(c: char)
    ensures
        (c as int) < 0x1_0000 ==> units_of_char(c).len() == 1 && units_of_char(c)[0] == c as int,
        (c as int) >= 0x1_0000 ==> ({
            let units = units_of_char(c);
            &&& units.len() == 2
            &&& 0xD800 <= units[0] <= 0xDBFF
            &&& 0xDC00 <= units[1] <= 0xDFFF
            &&& (units[0] - 0xD800) * 0x400 + (units[1] - 0xDC00) + 0x1_0000 == c as int
        }),
{
}

/// A text is the units of its scalar values, in their order.
pub proof fn units_follow_each_other(s: Seq<char>, c: char)
    ensures
        units_of(s.push(c)) == units_of(s) + units_of_char(c),
        units_of(Seq::empty()).len() == 0,
{
    assert(s.push(c).drop_last() =~= s);
}

/// A key is down from its stroke down to its stroke up.
pub proof fn keys_are_held_between_strokes(strokes: Seq<Stroke>, key: Key, other: Key)
    ensures
        held_keys(strokes.push(Stroke { key, up: false })).contains(key),
        !held_keys(strokes.push(Stroke { key, up: true })).contains(key),
        other != key ==> (held_keys(strokes.push(Stroke { key, up: false })).contains(other)
            <==> held_keys(strokes).contains(other)) && (held_keys(
            strokes.push(Stroke { key, up: true }),
        ).contains(other) <==> held_keys(strokes).contains(other)),
        held_keys(Seq::empty()) == Set::<Key>::empty(),
{
    assert(strokes.push(Stroke { key, up: false }).drop_last() =~= strokes);
    assert(strokes.push(Stroke { key, up: true }).drop_last() =~= strokes);
}

/// A paste presses `V` while control is down, and lets both go.
pub proof fn paste_is_control_and_v()
    ensures
        paste_strokes().len() == 4,
        paste_strokes()[0] == (Stroke { key: Key::Control, up: false }),
        paste_strokes()[1] == (Stroke { key: Key::V, up: false }),
        paste_strokes()[2] == (Stroke { key: Key::V, up: true }),
        paste_strokes()[3] == (Stroke { key: Key::Control, up: true }),
{
}

/// A unit is typed by a stroke down and one up, behind those before it.
pub proof fn units_are_typed_in_order(units: Seq<u16>, unit: u16)
    ensures
        typed(units.push(unit)) == typed(units) + seq![
            Stroke { key: Key::Unit(unit), up: false },
            Stroke { key: Key::Unit(unit), up: true },
        ],
        typed(Seq::empty()).len() == 0,
{
    assert(units.push(unit).drop_last() =~= units);
}

/// A paste waits for the keys, keeps the clipboard where it is to be preserved, fills it,
/// presses the keys and gives the clipboard back; any failure before the keys ends it.
pub proof fn paste_goes_step_by_step(preserve: bool, failed: bool)
    ensures
        paste_next(PasteAction::WaitForModifiers, true, false) is ReadClipboard,
        paste_next(PasteAction::WaitForModifiers, false, false) is FillClipboard,
        paste_next(PasteAction::ReadClipboard, preserve, false) is FillClipboard,
        paste_next(PasteAction::FillClipboard, preserve, false) is SendKeys,
        paste_next(PasteAction::SendKeys, true, false) is Restore,
        paste_next(PasteAction::SendKeys, false, false) is Done,
        paste_next(PasteAction::Restore, preserve, failed) is Done,
        paste_next(PasteAction::WaitForModifiers, preserve, true) is Failed,
        paste_next(PasteAction::ReadClipboard, preserve, true) is Failed,
        paste_next(PasteAction::FillClipboard, preserve, true) is Failed,
        paste_next(PasteAction::SendKeys, preserve, true) is Failed,
        paste_next(PasteAction::Done, preserve, failed) is Done,
        paste_next(PasteAction::Failed, preserve, failed) is Failed,
        paste_after(PasteAction::WaitForModifiers, true, seq![false, false, false, false, false])
            is Done,
        paste_after(PasteAction::WaitForModifiers, false, seq![false, false, false]) is Done,
{
    reveal_with_fuel(paste_after, 6);
    let f = seq![false, false, false, false, false];
    assert(f.drop_last() =~= seq![false, false, false, false]);
    assert(f.drop_last().drop_last() =~= seq![false, false, false]);
    assert(f.drop_last().drop_last().drop_last() =~= seq![false, false]);
    assert(f.drop_last().drop_last().drop_last().drop_last() =~= seq![false]);
    assert(seq![false].drop_last() =~= Seq::<bool>::empty());
    assert(seq![false, false].drop_last() =~= seq![false]);
    assert(seq![false, false, false].drop_last() =~= seq![false, false]);
}

} // verus!
