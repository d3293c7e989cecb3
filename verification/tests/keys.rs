use lumen_asr_desktop::config::{HotkeyConfig, HotkeyIntentConfig, InjectConfig, IntentSpec};
use lumen_asr_desktop::hotkey::{
    disabled_note, get_hotkey_config, hotkey_action, intent_dto, register_fallback, resolve_intent,
    save_hotkey_config, wanted_bindings, ChordKind, FallbackBinding, HotkeyAction, HotkeyInput,
    RegisterStatus,
};
use lumen_asr_desktop::hotkey_validate::validate_hotkey;
use lumen_asr_desktop::inject_cmd::{
    check_copy, check_strokes, clipboard_text_len, clipboard_units, ctrl_v_sequence,
    get_inject_config, insert_outcome, insert_with_config, release_sequence, save_inject_config,
    typing_strokes, utf16_units, wait_for_modifiers, InjectConfigInput, InsertPlan, Key,
    ModifierStep, PasteAction, PasteEvent, PasteRun, Stroke,
};
use lumen_asr_desktop::pipeline::InsertStrategy;
use lumen_asr_desktop::platform::Platform;

#[test]
fn ctrl_v_sequence_releases_every_key() {
    let inputs = ctrl_v_sequence();

    assert_eq!(inputs.len(), 4);
    assert_eq!(inputs[0].key, Key::Control);
    assert_eq!(inputs[1].key, Key::V);
    assert!(inputs[2].up);
    assert!(inputs[3].up);
    assert_eq!(inputs[2], Stroke { key: Key::V, up: true });
    assert!(release_sequence().iter().all(|stroke| stroke.up));
}

#[test]
fn text_becomes_the_units_of_the_clipboard() {
    for text in ["", "plain", "你好 \u{1F600}!", "\u{10FFFF}\u{0}\u{D7FF}\u{E000}"] {
        assert_eq!(utf16_units(text), text.encode_utf16().collect::<Vec<u16>>());
    }
    let units = clipboard_units("你好");
    assert_eq!(units.last(), Some(&0));
    assert_eq!(clipboard_text_len(&units), 2);
    assert_eq!(String::from_utf16(&units[..2]).unwrap(), "你好");
    assert_eq!(clipboard_text_len(&vec![65, 66]), 2);
}

#[test]
fn typing_in_pieces_types_the_whole() {
    let text = "a long text ".repeat(40);
    let units = utf16_units(&text);
    let mut typed: Vec<u16> = Vec::new();
    let mut at = 0;
    while at < units.len() {
        let (strokes, next) = typing_strokes(&units, at);
        assert!(next > at);
        assert_eq!(strokes.len(), 2 * (next - at));
        for pair in strokes.chunks(2) {
            assert_eq!(pair[0].key, pair[1].key);
            assert!(!pair[0].up && pair[1].up);
            match pair[0].key {
                Key::Unit(unit) => typed.push(unit),
                _ => panic!("a unit was expected"),
            }
        }
        at = next;
    }
    assert_eq!(typed, units);
}

#[test]
fn text_waits_until_the_keys_are_up() {
    assert_eq!(wait_for_modifiers(false, 5_000), ModifierStep::Clear);
    assert_eq!(wait_for_modifiers(true, 100), ModifierStep::Wait);
    assert!(matches!(wait_for_modifiers(true, 800), ModifierStep::TimedOut(_)));
    assert!(check_strokes(4, 4).is_ok());
    assert!(check_strokes(3, 4).unwrap_err().contains("elevated"));
}

fn pasted(events: Vec<PasteEvent>) -> PasteRun {
    let mut run = PasteRun::new("text", true);
    for event in events {
        run.advance(event);
    }
    run
}

#[test]
fn a_text_that_was_pasted_is_never_reported_as_lost() {
    let run = pasted(vec![
        PasteEvent::Done,
        PasteEvent::Held(Some("before".into())),
        PasteEvent::Done,
        PasteEvent::Done,
    ]);
    assert_eq!(run.next, PasteAction::Restore);
    assert_eq!(run.previous.as_deref(), Some("before"));
    let mut run = run;
    run.advance(PasteEvent::Failed("clipboard".into()));
    assert_eq!(run.next, PasteAction::Done);
    assert_eq!(run.error, None);
}

#[test]
fn a_paste_that_fails_says_why() {
    let run = pasted(vec![PasteEvent::Failed("keys".into())]);
    assert_eq!(run.next, PasteAction::Failed);
    assert_eq!(run.error.as_deref(), Some("keys"));
    let run = pasted(vec![PasteEvent::Done, PasteEvent::Held(None), PasteEvent::Failed("x".into())]);
    assert_eq!(run.next, PasteAction::Failed);
    assert_eq!(run.previous.as_deref(), Some(""));
    assert_eq!(PasteRun::new("", true).next, PasteAction::Done);
}

#[test]
fn text_is_inserted_where_that_is_allowed() {
    let config = InjectConfig::default();
    assert_eq!(insert_with_config(&config, "", Platform::MacOs, true), InsertPlan::Nothing);
    assert!(matches!(
        insert_with_config(&config, "x", Platform::MacOs, true),
        InsertPlan::Inject(_)
    ));
    assert!(matches!(
        insert_with_config(&config, "x", Platform::MacOs, false),
        InsertPlan::Refused(_)
    ));
    assert!(check_copy(Platform::MacOs).is_ok());
    assert_eq!(
        check_copy(Platform::Other).unwrap_err(),
        "clipboard copy is not implemented on this platform"
    );
    assert_eq!(insert_outcome(InsertStrategy::Paste, true).strategy, "paste");
    assert_eq!(insert_outcome(InsertStrategy::Nothing, false).strategy, "none");
    let mut config = InjectConfig::default();
    save_inject_config(
        &mut config,
        InjectConfigInput { mode: Some("type".into()), preserve_clipboard: None, auto_insert: None },
    );
    assert_eq!(get_inject_config(&config).mode, "type");
}

#[test]
fn a_hotkey_needs_a_modifier_and_a_key() {
    assert!(validate_hotkey("Alt+Space", None).ok);
    assert!(!validate_hotkey("", None).ok);
    assert!(!validate_hotkey("Space", None).ok);
    let warned = validate_hotkey("Alt+Space", Some("tap refused"));
    assert!(warned.ok);
    assert_eq!(warned.warnings, ["EventTap 解析提示: tap refused"]);
    assert_eq!(validate_hotkey("ctrl+space", None).warnings, ["可能与输入法切换冲突"]);
}

#[test]
fn presses_mean_what_the_mode_says() {
    assert_eq!(hotkey_action(true, true), HotkeyAction::Start);
    assert_eq!(hotkey_action(true, false), HotkeyAction::Stop);
    assert_eq!(hotkey_action(false, true), HotkeyAction::Toggle);
    assert_eq!(hotkey_action(false, false), HotkeyAction::Ignore);
}

fn fallback(id: &str, kind: ChordKind, error: Option<&str>) -> FallbackBinding {
    FallbackBinding {
        id: id.into(),
        chord: "Alt+X".into(),
        kind,
        error: error.map(String::from),
    }
}

#[test]
fn nothing_registered_is_an_error() {
    assert_eq!(
        register_fallback(&fallback("default", ChordKind::Unknown, None), &vec![]).unwrap_err(),
        "no hotkeys could be registered"
    );
    assert_eq!(
        register_fallback(&fallback("default", ChordKind::Keys, Some("taken")), &vec![])
            .unwrap_err(),
        "register primary hotkey failed: taken"
    );
    let intents = vec![fallback("translate", ChordKind::Keys, Some("taken"))];
    let note = register_fallback(&fallback("default", ChordKind::Modifiers, None), &intents);
    assert_eq!(note.unwrap(), "回退注册（EventTap 需辅助功能）。修饰键监听: default；意图键 translate 注册失败: taken");
}

#[test]
fn hotkeys_are_shown_and_saved() {
    let mut config = HotkeyConfig::default();
    let status = RegisterStatus { event_tap_active: true, note: "n".into() };
    let (dto, _) = get_hotkey_config(&mut config, &status);
    assert_eq!(dto.toggle, "Alt+Space");
    assert!(dto.event_tap_active);
    save_hotkey_config(
        &mut config,
        HotkeyInput {
            enabled: Some(false),
            toggle: Some("Ctrl+J".into()),
            show_capsule: None,
            mode: Some("toggle".into()),
            intents: None,
        },
    );
    assert_eq!(config.toggle, "Ctrl+J");
    assert!(wanted_bindings(&config).is_none());
    config.enabled = true;
    let bindings = wanted_bindings(&config).unwrap();
    assert_eq!(bindings[0].chord, "Ctrl+J");
    assert!(matches!(resolve_intent(&config, "translate"), IntentSpec::Translate { .. }));
    assert!(matches!(resolve_intent(&config, "default"), IntentSpec::Default));
    assert_eq!(intent_dto(&HotkeyIntentConfig::default()).id, "translate");
    assert!(!disabled_note().is_empty());
}
