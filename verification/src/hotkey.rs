//! Global hotkeys: what they are set to, what they do, and how they are
//! registered.
use crate::config;
use crate::config::ensure_default_intents;
use crate::config::HotkeyConfig;
use crate::config::HotkeyIntentConfig;
use crate::config::IntentSpec;
use crate::text;
use vstd::prelude::*;
use vstd::string::*;

verus! {

// ---------------------------------------------------------------------------
// Settings
// ---------------------------------------------------------------------------

#[derive(Debug, Clone, PartialEq, Eq)]
pub struct HotkeyIntentDto {
    pub id: String,
    pub chord: String,
    pub mode: String,
    pub intent: String,
    pub target_language: String,
    pub enabled: bool,
}

#[derive(Debug, Clone, PartialEq, Eq)]
pub struct HotkeyDto {
    pub enabled: bool,
    pub toggle: String,
    pub show_capsule: bool,
    pub mode: String,
    pub intents: Vec<HotkeyIntentDto>,
    /// True when EventTap multi-binding is active (best path).
    pub event_tap_active: bool,
    /// Human hint when intents cannot fully register.
    pub register_note: String,
}

#[derive(Debug, Clone, PartialEq, Eq)]
pub struct HotkeyIntentInput {
    pub id: Option<String>,
    pub chord: Option<String>,
    pub mode: Option<String>,
    pub intent: Option<String>,
    pub target_language: Option<String>,
    pub enabled: Option<bool>,
}

#[derive(Debug, Clone, PartialEq, Eq)]
pub struct HotkeyInput {
    pub enabled: Option<bool>,
    pub toggle: Option<String>,
    pub show_capsule: Option<bool>,
    pub mode: Option<String>,
    pub intents: Option<Vec<HotkeyIntentInput>>,
}

impl HotkeyIntentDto {
    /// Shows an intent.
    pub open spec fn shows(self, intent: config::IntentChord) -> bool {
        &&& self.id@ == intent.id
        &&& self.chord@ == intent.chord
        &&& self.mode@ == intent.mode
        &&& self.intent@ == intent.intent
        &&& self.target_language@ == intent.target_language
        &&& self.enabled == intent.enabled
    }
}

/// An intent as the interface shows it.
pub fn intent_dto(i: &HotkeyIntentConfig) -> (r: HotkeyIntentDto)
    ensures
        r.shows(i@),
{
    HotkeyIntentDto {
        id: i.id.as_str().to_owned(),
        chord: i.chord.as_str().to_owned(),
        mode: i.mode.as_str().to_owned(),
        intent: i.intent.as_str().to_owned(),
        target_language: i.target_language.as_str().to_owned(),
        enabled: i.enabled,
    }
}

/// How the hotkeys are registered.
#[derive(Debug, Clone, PartialEq, Eq)]
pub struct RegisterStatus {
    pub event_tap_active: bool,
    pub note: String,
}

/// The hotkeys as the interface shows them, and whether their settings were
/// completed and are to be saved.
pub fn get_hotkey_config(config: &mut HotkeyConfig, status: &RegisterStatus) -> (r: (
    HotkeyDto,
    bool,
))
    ensures
        config::chords(final(config).intents@) == config::usable_intents(
            config::chords(old(config).intents@),
            config::mode_name(old(config).mode@),
        ),
        final(config).same_but_intents(*old(config)),
        r.0.enabled == final(config).enabled,
        r.0.toggle@ == final(config).toggle@,
        r.0.show_capsule == final(config).show_capsule,
        r.0.mode@ == final(config).mode@,
        r.0.intents@.len() == final(config).intents@.len(),
        forall|i: int|
            0 <= i < r.0.intents@.len() ==> (#[trigger] r.0.intents@[i]).shows(
                final(config).intents@[i]@,
            ),
        r.0.event_tap_active == status.event_tap_active,
        r.0.register_note@ == status.note@,
        r.1 == (final(config).intents@.len() != old(config).intents@.len()),
{
    let before: usize = config.intents.len();
    ensure_default_intents(config);
    let mut intents: Vec<HotkeyIntentDto> = Vec::new();
    let mut i: usize = 0;
    while i < config.intents.len()
        invariant
            i <= config.intents@.len(),
            intents@.len() == i,
            forall|j: int|
                0 <= j < i ==> (#[trigger] intents@[j]).shows(config.intents@[j]@),
        decreases config.intents@.len() - i,
    {
        intents.push(intent_dto(&config.intents[i]));
        i = i + 1;
    }
    (
        HotkeyDto {
            enabled: config.enabled,
            toggle: config.toggle.as_str().to_owned(),
            show_capsule: config.show_capsule,
            mode: config.mode.as_str().to_owned(),
            intents,
            event_tap_active: status.event_tap_active,
            register_note: status.note.as_str().to_owned(),
        },
        config.intents.len() != before,
    )
}

pub open spec fn given_or(value: Option<String>, default: Seq<char>) -> Seq<char> {
    match value {
        Some(value) => value@,
        None => default,
    }
}

/// The intent that an input stands for.
pub open spec fn intent_of(input: HotkeyIntentInput) -> config::IntentChord {
    config::IntentChord {
        id: given_or(input.id, "intent"@),
        chord: given_or(input.chord, ""@),
        mode: given_or(input.mode, "hold"@),
        intent: given_or(input.intent, "translate"@),
        target_language: given_or(input.target_language, "en"@),
        translate_style: None,
        enabled: input.enabled == Some(true),
    }
}

fn take_or(value: Option<String>, default: &str) -> (r: String)
    ensures
        r@ == given_or(value, default@),
{
    match value {
        Some(value) => value,
        None => default.to_owned(),
    }
}

fn intent_from(input: HotkeyIntentInput) -> (r: HotkeyIntentConfig)
    ensures
        r@ == intent_of(input),
{
    HotkeyIntentConfig {
        id: take_or(input.id, "intent"),
        chord: take_or(input.chord, ""),
        mode: take_or(input.mode, "hold"),
        intent: take_or(input.intent, "translate"),
        target_language: take_or(input.target_language, "en"),
        translate_style: None,
        enabled: match input.enabled {
            Some(enabled) => enabled,
            None => false,
        },
    }
}

/// The intents of an input.
pub open spec fn intents_of(inputs: Seq<HotkeyIntentInput>) -> Seq<config::IntentChord> {
    inputs.map_values(|i: HotkeyIntentInput| intent_of(i))
}

/// The intents after an input, before they are made usable.
pub open spec fn chosen_intents(
    current: Seq<config::IntentChord>,
    input: Option<Vec<HotkeyIntentInput>>,
) -> Seq<config::IntentChord> {
    match input {
        Some(list) => intents_of(list@),
        None => current,
    }
}

/// Takes over what an input sets. A chord that the user chose is kept as it is;
/// only what is blank is filled in.
pub fn save_hotkey_config(config: &mut HotkeyConfig, input: HotkeyInput)
    ensures
        final(config).enabled == match input.enabled {
            Some(enabled) => enabled,
            None => old(config).enabled,
        },
        final(config).toggle@ == match input.toggle {
            Some(toggle) => toggle@,
            None => old(config).toggle@,
        },
        final(config).show_capsule == match input.show_capsule {
            Some(show) => show,
            None => old(config).show_capsule,
        },
        final(config).mode@ == match input.mode {
            Some(mode) => config::mode_name(mode@),
            None => old(config).mode@,
        },
        config::chords(final(config).intents@) == config::usable_intents(
            chosen_intents(config::chords(old(config).intents@), input.intents),
            config::mode_name(final(config).mode@),
        ),
{
    if let Some(enabled) = input.enabled {
        config.enabled = enabled;
    }
    if let Some(toggle) = input.toggle {
        config.toggle = toggle;
    }
    if let Some(show) = input.show_capsule {
        config.show_capsule = show;
    }
    if let Some(mode) = input.mode {
        let lowered: String = text::lowered(mode.as_str());
        config.mode = if text::same(lowered.as_str(), "toggle") || text::same(
            lowered.as_str(),
            "click",
        ) {
            "toggle".to_owned()
        } else {
            "hold".to_owned()
        };
    }
    if let Some(list) = input.intents {
        let ghost all = list@;
        let mut rest: Vec<HotkeyIntentInput> = list;
        let mut intents: Vec<HotkeyIntentConfig> = Vec::new();
        assert(config::chords(intents@) =~= intents_of(all.take(0)));
        assert(all.skip(0) =~= all);
        while rest.len() > 0
            invariant
                rest@.len() + intents@.len() == all.len(),
                rest@ == all.skip(intents@.len() as int),
                config::chords(intents@) == intents_of(all.take(intents@.len() as int)),
            decreases rest@.len(),
        {
            let ghost done = intents@.len() as int;
            let ghost had = config::chords(intents@);
            let item: HotkeyIntentInput = rest.remove(0);
            assert(item == all[done]);
            assert(rest@ =~= all.skip(done + 1));
            intents.push(intent_from(item));
            assert(config::chords(intents@) =~= had.push(intent_of(all[done])));
            assert(intents_of(all.take(done + 1)) =~= had.push(intent_of(all[done])));
        }
        assert(all.take(intents@.len() as int) =~= all);
        config.intents = intents;
    }
    ensure_default_intents(config);
}

// ---------------------------------------------------------------------------
// What a hotkey does
// ---------------------------------------------------------------------------

/// The first intent of an identifier.
pub open spec fn intent_named(intents: Seq<config::IntentChord>, id: Seq<char>) -> Option<
    config::IntentChord,
>
    decreases intents.len(),
{
    if intents.len() == 0 {
        None
    } else if intents[0].id == id {
        Some(intents[0])
    } else {
        intent_named(intents.skip(1), id)
    }
}

/// What an utterance under a binding is for; the default where nothing is known
/// of the binding.
pub open spec fn binding_intent(intents: Seq<config::IntentChord>, id: Seq<char>) -> config::Intent {
    if id == "default"@ {
        config::Intent::Default
    } else {
        match intent_named(intents, id) {
            Some(intent) => intent.purpose(),
            None => config::Intent::Default,
        }
    }
}

/// What an utterance under a binding is for.
pub fn resolve_intent(config: &HotkeyConfig, binding_id: &str) -> (r: IntentSpec)
    ensures
        r@ == binding_intent(config::chords(config.intents@), binding_id@),
{
    if text::same(binding_id, "default") {
        return IntentSpec::Default;
    }
    let ghost all = config::chords(config.intents@);
    let mut i: usize = 0;
    assert(all.skip(0) =~= all);
    while i < config.intents.len()
        invariant
            i <= config.intents@.len(),
            all == config::chords(config.intents@),
            binding_id@ != "default"@,
            intent_named(all, binding_id@) == intent_named(all.skip(i as int), binding_id@),
        decreases config.intents@.len() - i,
    {
        assert(all.skip(i as int)[0] == config.intents@[i as int]@);
        assert(all.skip(i as int).skip(1) =~= all.skip(i + 1));
        if text::same(config.intents[i].id.as_str(), binding_id) {
            return config.intents[i].to_intent_spec();
        }
        i = i + 1;
    }
    IntentSpec::Default
}

/// What a hotkey does when it goes down or up.
#[derive(Debug, Clone, Copy, PartialEq, Eq, Structural)]
pub enum HotkeyAction {
    Start,
    Stop,
    Toggle,
    Ignore,
}

/// What a hotkey does: hold-to-talk starts and stops, a click toggles.
pub fn hotkey_action(hold: bool, press: bool) -> (r: HotkeyAction)
    ensures
        r == if hold {
            if press {
                HotkeyAction::Start
            } else {
                HotkeyAction::Stop
            }
        } else if press {
            HotkeyAction::Toggle
        } else {
            HotkeyAction::Ignore
        },
{
    if hold {
        if press {
            HotkeyAction::Start
        } else {
            HotkeyAction::Stop
        }
    } else if press {
        HotkeyAction::Toggle
    } else {
        HotkeyAction::Ignore
    }
}

// ---------------------------------------------------------------------------
// Registration
// ---------------------------------------------------------------------------

/// A chord that is to be registered.
#[derive(Debug, Clone, PartialEq, Eq)]
pub struct Binding {
    pub id: String,
    pub chord: String,
}

/// A chord as a value.
#[verifier::ext_equal]
pub struct BoundChord {
    pub id: Seq<char>,
    pub chord: Seq<char>,
}

impl View for Binding {
    type V = BoundChord;

    open spec fn view(&self) -> BoundChord {
        BoundChord { id: self.id@, chord: self.chord@ }
    }
}

pub open spec fn bound(v: Seq<Binding>) -> Seq<BoundChord> {
    v.map_values(|b: Binding| b@)
}

/// The intent has a chord of its own.
pub open spec fn has_chord(intent: config::IntentChord) -> bool {
    intent.enabled && text::trim(intent.chord).len() > 0
}

/// The chords of the intents that have one, in order.
pub open spec fn intent_bindings(intents: Seq<config::IntentChord>) -> Seq<BoundChord>
    decreases intents.len(),
{
    if intents.len() == 0 {
        Seq::empty()
    } else {
        let before = intent_bindings(intents.drop_last());
        let last = intents.last();
        if has_chord(last) {
            before.push(BoundChord { id: last.id, chord: text::trim(last.chord) })
        } else {
            before
        }
    }
}

/// What there is to register: nothing where the hotkeys are off or the primary
/// one is blank; else the primary one, and then the intents.
pub open spec fn wanted(config: HotkeyConfig) -> Option<Seq<BoundChord>> {
    if !config.enabled || text::trim(config.toggle@).len() == 0 {
        None
    } else {
        Some(
            seq![BoundChord { id: "default"@, chord: text::trim(config.toggle@) }]
                + intent_bindings(config::chords(config.intents@)),
        )
    }
}

/// What there is to register; nothing where the hotkeys are off.
pub fn wanted_bindings(config: &HotkeyConfig) -> (r: Option<Vec<Binding>>)
    ensures
        match wanted(*config) {
            Some(bindings) => r matches Some(list) && bound(list@) == bindings,
            None => r is None,
        },
{
    let toggle: String = text::trimmed(config.toggle.as_str());
    if !config.enabled || toggle.as_str().is_empty() {
        return None;
    }
    let ghost all = config::chords(config.intents@);
    let ghost first = seq![BoundChord { id: "default"@, chord: toggle@ }];
    let mut list: Vec<Binding> = Vec::new();
    list.push(Binding { id: "default".to_owned(), chord: toggle });
    let mut i: usize = 0;
    assert(bound(list@) =~= first + intent_bindings(all.take(0)));
    while i < config.intents.len()
        invariant
            i <= config.intents@.len(),
            all == config::chords(config.intents@),
            bound(list@) == first + intent_bindings(all.take(i as int)),
        decreases config.intents@.len() - i,
    {
        let ghost had = bound(list@);
        let intent: &HotkeyIntentConfig = &config.intents[i];
        proof {
            assert(all.take(i + 1).drop_last() =~= all.take(i as int));
            assert(all.take(i + 1).last() == intent@);
        }
        let chord: String = text::trimmed(intent.chord.as_str());
        if intent.enabled && !chord.as_str().is_empty() {
            let ghost added = BoundChord { id: intent@.id, chord: chord@ };
            list.push(Binding { id: intent.id.as_str().to_owned(), chord });
            assert(bound(list@) =~= had.push(added));
            assert(first + intent_bindings(all.take(i as int)).push(added) =~= had.push(added));
        }
        i = i + 1;
    }
    assert(all.take(i as int) =~= all);
    Some(list)
}

/// How many of the intents are on.
pub open spec fn enabled_count(intents: Seq<config::IntentChord>) -> nat
    decreases intents.len(),
{
    if intents.len() == 0 {
        0
    } else {
        enabled_count(intents.drop_last()) + if intents.last().enabled {
            1nat
        } else {
            0nat
        }
    }
}

/// The note where the event tap took all hotkeys.
pub fn event_tap_note(config: &HotkeyConfig) -> (r: String)
    ensures
        r@ == "EventTap 已注册主热键 + "@ + text::decimal(
            enabled_count(config::chords(config.intents@)),
        ) + " 个意图键"@,
{
    let ghost all = config::chords(config.intents@);
    let mut count: usize = 0;
    let mut i: usize = 0;
    while i < config.intents.len()
        invariant
            i <= config.intents@.len(),
            all == config::chords(config.intents@),
            count <= i,
            count == enabled_count(all.take(i as int)),
        decreases config.intents@.len() - i,
    {
        proof {
            assert(all.take(i + 1).drop_last() =~= all.take(i as int));
            assert(all.take(i + 1).last() == config.intents@[i as int]@);
        }
        if config.intents[i].enabled {
            count = count + 1;
        }
        i = i + 1;
    }
    assert(all.take(i as int) =~= all);
    text::glue3(
        "EventTap 已注册主热键 + ",
        text::decimal_text(count as u64).as_str(),
        " 个意图键",
    )
}

/// What a chord is made of, by those who can register it.
#[derive(Debug, Clone, Copy, PartialEq, Eq, Structural)]
pub enum ChordKind {
    /// Modifiers alone, which are watched.
    Modifiers,
    /// A key with modifiers, which is a global shortcut.
    Keys,
    Unknown,
}

/// What became of a chord where the event tap is not there.
#[derive(Debug, Clone, PartialEq, Eq)]
pub struct FallbackBinding {
    pub id: String,
    pub chord: String,
    pub kind: ChordKind,
    /// Why the shortcut could not be registered.
    pub error: Option<String>,
}

/// The identifiers of the chords that are watched.
pub open spec fn watched(bindings: Seq<FallbackBinding>) -> Seq<Seq<char>>
    decreases bindings.len(),
{
    if bindings.len() == 0 {
        Seq::empty()
    } else {
        let before = watched(bindings.drop_last());
        if bindings.last().kind is Modifiers {
            before.push(bindings.last().id@)
        } else {
            before
        }
    }
}

/// How many shortcuts are registered.
pub open spec fn shortcuts(bindings: Seq<FallbackBinding>) -> nat
    decreases bindings.len(),
{
    if bindings.len() == 0 {
        0
    } else {
        shortcuts(bindings.drop_last()) + if bindings.last().kind is Keys && bindings.last().error
            is None {
            1nat
        } else {
            0nat
        }
    }
}

/// What there is to say of the intents: a chord that nobody knows, and a shortcut
/// that could not be registered.
pub open spec fn complaints(intents: Seq<FallbackBinding>) -> Seq<Seq<char>>
    decreases intents.len(),
{
    if intents.len() == 0 {
        Seq::empty()
    } else {
        let before = complaints(intents.drop_last());
        let last = intents.last();
        match last.kind {
            ChordKind::Modifiers => before,
            ChordKind::Unknown => before.push("无法解析意图键 "@ + last.chord@),
            ChordKind::Keys => match last.error {
                Some(error) => before.push(
                    "意图键 "@ + last.id@ + " 注册失败: "@ + error@,
                ),
                None => before,
            },
        }
    }
}

/// All there is to say of a registration.
pub open spec fn fallback_notes(primary: FallbackBinding, intents: Seq<FallbackBinding>) -> Seq<
    Seq<char>,
> {
    let ids = watched(seq![primary] + intents);
    if ids.len() > 0 {
        seq!["修饰键监听: "@ + text::join(ids, ", "@)] + complaints(intents)
    } else {
        complaints(intents)
    }
}

/// The note of a registration without the event tap, or why it failed.
pub open spec fn fallback_result(primary: FallbackBinding, intents: Seq<FallbackBinding>) -> Result<
    Seq<char>,
    Seq<char>,
> {
    let all = seq![primary] + intents;
    let notes = fallback_notes(primary, intents);
    if primary.kind is Keys && primary.error is Some {
        Err("register primary hotkey failed: "@ + primary.error->0@)
    } else if watched(all).len() == 0 && shortcuts(all) == 0 {
        Err("no hotkeys could be registered"@)
    } else if notes.len() == 0 {
        Ok(
            "回退注册成功（修饰键组 + "@ + text::decimal(shortcuts(all))
                + " 个含字母键）"@,
        )
    } else {
        Ok("回退注册（EventTap 需辅助功能）。"@ + text::join(notes, "；"@))
    }
}

fn is_shortcut(binding: &FallbackBinding) -> (r: bool)
    ensures
        r == (binding.kind is Keys && binding.error is None),
{
    match binding.kind {
        ChordKind::Keys => binding.error.is_none(),
        _ => false,
    }
}

fn is_watched(binding: &FallbackBinding) -> (r: bool)
    ensures
        r == (binding.kind is Modifiers),
{
    match binding.kind {
        ChordKind::Modifiers => true,
        _ => false,
    }
}

fn watched_ids(primary: &FallbackBinding, intents: &Vec<FallbackBinding>) -> (ids: Vec<String>)
    ensures
        text::texts(ids@) == watched(seq![*primary] + intents@),
{
    let ghost whole = seq![*primary] + intents@;
    let mut ids: Vec<String> = Vec::new();
    if is_watched(primary) {
        ids.push(primary.id.as_str().to_owned());
    }
    proof {
        assert(whole.take(1).drop_last() =~= Seq::empty());
        assert(whole.take(1).last() == *primary);
        reveal_with_fuel(watched, 2);
        assert(text::texts(ids@) =~= watched(whole.take(1)));
    }
    let mut i: usize = 0;
    while i < intents.len()
        invariant
            i <= intents@.len(),
            whole == seq![*primary] + intents@,
            text::texts(ids@) == watched(whole.take(i + 1)),
        decreases intents@.len() - i,
    {
        let ghost had = text::texts(ids@);
        assert(whole.take(i + 2).drop_last() =~= whole.take(i + 1));
        assert(whole.take(i + 2).last() == intents@[i as int]);
        if is_watched(&intents[i]) {
            ids.push(intents[i].id.as_str().to_owned());
            assert(text::texts(ids@) =~= had.push(intents@[i as int].id@));
        }
        i = i + 1;
    }
    assert(whole.take(i + 1) =~= whole);
    ids
}

fn count_shortcuts(primary: &FallbackBinding, intents: &Vec<FallbackBinding>) -> (count: usize)
    requires
        intents@.len() < usize::MAX,
    ensures
        count == shortcuts(seq![*primary] + intents@),
{
    let ghost whole = seq![*primary] + intents@;
    let mut count: usize = if is_shortcut(primary) {
        1
    } else {
        0
    };
    proof {
        assert(whole.take(1).drop_last() =~= Seq::empty());
        assert(whole.take(1).last() == *primary);
        reveal_with_fuel(shortcuts, 2);
    }
    let mut i: usize = 0;
    while i < intents.len()
        invariant
            i <= intents@.len() < usize::MAX,
            whole == seq![*primary] + intents@,
            count <= i + 1,
            count == shortcuts(whole.take(i + 1)),
        decreases intents@.len() - i,
    {
        assert(whole.take(i + 2).drop_last() =~= whole.take(i + 1));
        assert(whole.take(i + 2).last() == intents@[i as int]);
        if is_shortcut(&intents[i]) {
            count = count + 1;
        }
        i = i + 1;
    }
    assert(whole.take(i + 1) =~= whole);
    count
}

fn collect_complaints(intents: &Vec<FallbackBinding>) -> (notes: Vec<String>)
    ensures
        text::texts(notes@) == complaints(intents@),
{
    let mut notes: Vec<String> = Vec::new();
    let mut i: usize = 0;
    assert(text::texts(notes@) =~= complaints(intents@.take(0)));
    while i < intents.len()
        invariant
            i <= intents@.len(),
            text::texts(notes@) == complaints(intents@.take(i as int)),
        decreases intents@.len() - i,
    {
        let binding: &FallbackBinding = &intents[i];
        let ghost had = text::texts(notes@);
        assert(intents@.take(i + 1).drop_last() =~= intents@.take(i as int));
        assert(intents@.take(i + 1).last() == *binding);
        match binding.kind {
            ChordKind::Modifiers => {},
            ChordKind::Unknown => {
                notes.push(text::glue("无法解析意图键 ", binding.chord.as_str()));
                assert(text::texts(notes@) =~= had.push(
                    "无法解析意图键 "@ + binding.chord@,
                ));
            },
            ChordKind::Keys => match &binding.error {
                Some(error) => {
                    let head: String = text::glue3(
                        "意图键 ",
                        binding.id.as_str(),
                        " 注册失败: ",
                    );
                    notes.push(text::glue(head.as_str(), error.as_str()));
                    assert(text::texts(notes@) =~= had.push(
                        "意图键 "@ + binding.id@ + " 注册失败: "@ + error@,
                    ));
                },
                None => {},
            },
        }
        i = i + 1;
    }
    assert(intents@.take(i as int) =~= intents@);
    notes
}

/// The note of a registration without the event tap, or why it failed: `primary`
/// and `intents` say what became of each chord.
pub fn register_fallback(primary: &FallbackBinding, intents: &Vec<FallbackBinding>) -> (r: Result<
    String,
    String,
>)
    requires
        intents@.len() < usize::MAX,
    ensures
        match fallback_result(*primary, intents@) {
            Ok(note) => r matches Ok(n) && n@ == note,
            Err(error) => text::fails(r, error),
        },
{
    let primary_keys: bool = match primary.kind {
        ChordKind::Keys => true,
        _ => false,
    };
    if primary_keys {
        if let Some(error) = &primary.error {
            return Err(text::glue("register primary hotkey failed: ", error.as_str()));
        }
    }
    let ids: Vec<String> = watched_ids(primary, intents);
    let count: usize = count_shortcuts(primary, intents);
    if ids.len() == 0 && count == 0 {
        return Err("no hotkeys could be registered".to_owned());
    }
    let mut notes: Vec<String> = collect_complaints(intents);
    if ids.len() > 0 {
        let ghost had = text::texts(notes@);
        let list: String = text::joined(&ids, ", ");
        notes.insert(0, text::glue("修饰键监听: ", list.as_str()));
        assert(text::texts(notes@) =~= seq!["修饰键监听: "@ + list@] + had);
    }
    if notes.len() == 0 {
        Ok(
            text::glue3(
                "回退注册成功（修饰键组 + ",
                text::decimal_text(count as u64).as_str(),
                " 个含字母键）",
            ),
        )
    } else {
        let list: String = text::joined(&notes, "；");
        Ok(text::glue("回退注册（EventTap 需辅助功能）。", list.as_str()))
    }
}

proof fn lemma_nothing_registered(all: Seq<FallbackBinding>)
    requires
        forall|i: int|
            0 <= i < all.len() ==> (#[trigger] all[i]).kind is Unknown || (all[i].kind is Keys
                && all[i].error is Some),
    ensures
        watched(all).len() == 0,
        shortcuts(all) == 0,
    decreases all.len(),
{
    if all.len() > 0 {
        assert(all[all.len() - 1] == all.last());
        lemma_nothing_registered(all.drop_last());
    }
}

/// A registration of which nothing took hold is never reported as one that
/// succeeded.
pub proof fn nothing_registered_is_an_error(
    primary: FallbackBinding,
    intents: Seq<FallbackBinding>,
)
    requires
        forall|i: int|
            0 <= i <= intents.len() ==> ({
                let b = #[trigger] (seq![primary] + intents)[i];
                b.kind is Unknown || (b.kind is Keys && b.error is Some)
            }),
    ensures
        fallback_result(primary, intents) is Err,
{
    lemma_nothing_registered(seq![primary] + intents);
}

/// The note where the hotkeys are off.
pub fn disabled_note() -> (r: String)
    ensures
        r@ == "热键已关闭"@,
{
    "热键已关闭".to_owned()
}

// ---------------------------------------------------------------------------
// Laws of hotkeys
// ---------------------------------------------------------------------------

/// An input stands for the intent that it gives, with a default for what it leaves out; it
/// is on only where it is switched on.
pub proof fn input_gives_its_intent(input: HotkeyIntentInput)
    ensures
        ({
            let intent = intent_of(input);
            &&& input.id matches Some(id) ==> intent.id == id@
            &&& input.id is None ==> intent.id == "intent"@
            &&& input.chord matches Some(chord) ==> intent.chord == chord@
            &&& input.chord is None ==> intent.chord == ""@
            &&& input.mode matches Some(mode) ==> intent.mode == mode@
            &&& input.mode is None ==> intent.mode == "hold"@
            &&& input.intent matches Some(name) ==> intent.intent == name@
            &&& input.intent is None ==> intent.intent == "translate"@
            &&& input.target_language matches Some(lang) ==> intent.target_language == lang@
            &&& input.target_language is None ==> intent.target_language == "en"@
            &&& intent.translate_style is None
            &&& intent.enabled <==> input.enabled == Some(true)
        }),
{
}

/// Intents that are given replace the current ones, one for one; where none are given the
/// current ones stay.
pub proof fn given_intents_replace(
    current: Seq<config::IntentChord>,
    input: Vec<HotkeyIntentInput>,
    i: int,
)
    ensures
        chosen_intents(current, None) == current,
        chosen_intents(current, Some(input)).len() == input@.len(),
        0 <= i < input@.len() ==> chosen_intents(current, Some(input))[i] == intent_of(input@[i]),
{
}

/// What is shown of an intent is the intent.
pub proof fn intent_is_shown_as_it_is(shown: HotkeyIntentDto, intent: config::IntentChord)
    requires
        shown.shows(intent),
    ensures
        shown.id@ == intent.id,
        shown.chord@ == intent.chord,
        shown.mode@ == intent.mode,
        shown.intent@ == intent.intent,
        shown.target_language@ == intent.target_language,
        shown.enabled == intent.enabled,
{
}

/// An utterance is for what the first intent of its binding is for; for nothing in
/// particular under the primary hotkey and under a binding that is not known.
pub proof fn binding_tells_the_intent(intents: Seq<config::IntentChord>, id: Seq<char>, i: int)
    ensures
        binding_intent(intents, "default"@) is Default,
        (forall|k: int| 0 <= k < intents.len() ==> (#[trigger] intents[k]).id != id)
            ==> binding_intent(intents, id) is Default,
        0 <= i < intents.len() && intents[i].id == id && id != "default"@ && (forall|k: int|
            0 <= k < i ==> (#[trigger] intents[k]).id != id) ==> binding_intent(intents, id)
            == intents[i].purpose(),
{
    lemma_intent_named(intents, id, i);
}

proof fn lemma_intent_named(intents: Seq<config::IntentChord>, id: Seq<char>, i: int)
    ensures
        (forall|k: int| 0 <= k < intents.len() ==> (#[trigger] intents[k]).id != id)
            ==> intent_named(intents, id) is None,
        0 <= i < intents.len() && intents[i].id == id && (forall|k: int|
            0 <= k < i ==> (#[trigger] intents[k]).id != id) ==> intent_named(intents, id) == Some(
            intents[i],
        ),
    decreases intents.len(),
{
    if intents.len() > 0 {
        let rest = intents.skip(1);
        assert(forall|k: int| 0 <= k < rest.len() ==> #[trigger] rest[k] == intents[k + 1]);
        lemma_intent_named(rest, id, i - 1);
        if intents[0].id != id {
            if forall|k: int| 0 <= k < intents.len() ==> (#[trigger] intents[k]).id != id {
                assert forall|k: int| 0 <= k < rest.len() implies (#[trigger] rest[k]).id != id by {
                    assert(intents[k + 1].id != id);
                }
            }
            if 0 < i < intents.len() && intents[i].id == id && (forall|k: int|
                0 <= k < i ==> (#[trigger] intents[k]).id != id) {
                assert forall|k: int| 0 <= k < i - 1 implies (#[trigger] rest[k]).id != id by {
                    assert(intents[k + 1].id != id);
                }
                assert(rest[i - 1] == intents[i]);
            }
        } else {
            assert(intents[0].id == id);
        }
    }
}

/// An intent is bound to its chord, without the white space around it, where it is on and
/// has one; the order stays.
pub proof fn intents_are_bound_in_order(
    intents: Seq<config::IntentChord>,
    intent: config::IntentChord,
)
    ensures
        intent.enabled && text::trim(intent.chord).len() > 0 ==> intent_bindings(
            intents.push(intent),
        ) == intent_bindings(intents).push(
            BoundChord { id: intent.id, chord: text::trim(intent.chord) },
        ),
        !intent.enabled || text::trim(intent.chord).len() == 0 ==> intent_bindings(
            intents.push(intent),
        ) == intent_bindings(intents),
        intent_bindings(Seq::empty()).len() == 0,
        enabled_count(intents.push(intent)) == enabled_count(intents) + if intent.enabled {
            1nat
        } else {
            0nat
        },
        enabled_count(Seq::empty()) == 0,
{
    assert(intents.push(intent).drop_last() =~= intents);
}

/// The primary hotkey is the first that is registered, under the default binding; nothing
/// is where hotkeys are off or it is blank.
pub proof fn primary_hotkey_is_first(config: HotkeyConfig)
    ensures
        wanted(config) is Some <==> config.enabled && text::trim(config.toggle@).len() > 0,
        wanted(config) matches Some(all) ==> {
            &&& all.len() == 1 + intent_bindings(config::chords(config.intents@)).len()
            &&& all[0].id == "default"@
            &&& all[0].chord == text::trim(config.toggle@)
            &&& all.skip(1) == intent_bindings(config::chords(config.intents@))
        },
{
    if let Some(all) = wanted(config) {
        assert(all.skip(1) =~= intent_bindings(config::chords(config.intents@)));
    }
}

/// A chord of modifiers alone is watched, and one with a key is registered unless that
/// fails, which is told; so is one that nobody knows.
pub proof fn bindings_are_registered_by_their_keys(
    bindings: Seq<FallbackBinding>,
    binding: FallbackBinding,
)
    ensures
        binding.kind is Modifiers ==> watched(bindings.push(binding)) == watched(bindings).push(
            binding.id@,
        ),
        !(binding.kind is Modifiers) ==> watched(bindings.push(binding)) == watched(bindings),
        binding.kind is Keys && binding.error is None ==> shortcuts(bindings.push(binding))
            == shortcuts(bindings) + 1,
        !(binding.kind is Keys) || binding.error is Some ==> shortcuts(bindings.push(binding))
            == shortcuts(bindings),
        binding.kind is Modifiers || (binding.kind is Keys && binding.error is None)
            ==> complaints(bindings.push(binding)) == complaints(bindings),
        binding.kind is Unknown ==> complaints(bindings.push(binding)) == complaints(
            bindings,
        ).push("无法解析意图键 "@ + binding.chord@),
        binding.kind is Keys ==> (binding.error matches Some(error) ==> complaints(
            bindings.push(binding),
        ) == complaints(bindings).push("意图键 "@ + binding.id@ + " 注册失败: "@ + error@)),
        watched(Seq::empty()).len() == 0 && shortcuts(Seq::empty()) == 0 && complaints(
            Seq::empty(),
        ).len() == 0,
{
    assert(bindings.push(binding).drop_last() =~= bindings);
}

/// A registration fails where the primary hotkey does or where nothing could be
/// registered; it tells what is watched and what went wrong, or how many were registered.
pub proof fn registration_tells_its_result(primary: FallbackBinding, intents: Seq<FallbackBinding>)
    ensures
        primary.kind is Keys && primary.error is Some ==> fallback_result(primary, intents)
            == Err::<Seq<char>, Seq<char>>(
            "register primary hotkey failed: "@ + primary.error->0@,
        ),
        intents.len() == 0 && primary.kind is Unknown ==> fallback_result(primary, intents)
            == Err::<Seq<char>, Seq<char>>("no hotkeys could be registered"@),
        intents.len() == 0 && primary.kind is Keys && primary.error is None ==> fallback_result(
            primary,
            intents,
        ) == Ok::<Seq<char>, Seq<char>>(
            "回退注册成功（修饰键组 + "@ + text::decimal(1) + " 个含字母键）"@,
        ),
        intents.len() == 0 && primary.kind is Modifiers ==> fallback_result(primary, intents)
            == Ok::<Seq<char>, Seq<char>>(
            "回退注册（EventTap 需辅助功能）。"@ + ("修饰键监听: "@ + primary.id@),
        ),
{
    let all = seq![primary] + intents;
    if intents.len() == 0 {
        let none = Seq::<FallbackBinding>::empty();
        assert(all =~= none.push(primary));
        bindings_are_registered_by_their_keys(none, primary);
        assert(intents =~= none);
        assert(watched(none) =~= Seq::empty());
        if primary.kind is Modifiers {
            let ids = watched(all);
            assert(ids =~= seq![primary.id@]);
            assert(ids.drop_last() =~= Seq::empty());
            assert(text::join(ids, ", "@) =~= primary.id@);
            let notes = fallback_notes(primary, intents);
            assert(notes =~= seq!["修饰键监听: "@ + primary.id@]);
            assert(notes.drop_last() =~= Seq::empty());
            assert(text::join(notes, "；"@) =~= "修饰键监听: "@ + primary.id@);
        } else {
            assert(fallback_notes(primary, intents) =~= Seq::empty());
        }
    }
}

/// A binding is seen as it is.
pub proof fn binding_is_seen_as_it_is(binding: Binding, v: Seq<Binding>, i: int)
    ensures
        binding@.id == binding.id@,
        binding@.chord == binding.chord@,
        bound(v).len() == v.len(),
        0 <= i < v.len() ==> bound(v)[i] == v[i]@,
{
}

} // verus!
