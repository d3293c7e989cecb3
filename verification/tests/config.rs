use lumen_asr_desktop::config::{
    contains_fn_key, ensure_default_intents, expand_user_path, resolve_local_model_dir, AppConfig,
    AsrServiceConfig, AudioConfig, CleanupLevel, ContextCaptureConfig, CorrectorConfig, FoundModel,
    HotkeyConfig, HotkeyIntentConfig, InjectConfig, InjectMode, IntentSpec, MeetingConfig,
    MeetingConfigWire, OutputConfig, OutputConfigWire, SharedModelDirs,
};
use lumen_asr_desktop::engine::{canonical_asr_provider, engine_kind_for_provider, EngineKind};
use lumen_asr_desktop::platform::Platform;

/// Stored meeting settings that name the transcript cleanup alone.
fn meeting_with_cleanup_alone() -> MeetingConfig {
    MeetingConfig::from_wire(MeetingConfigWire {
        transcript_cleanup: Some(true),
        ..MeetingConfigWire::default()
    })
}

fn nothing_found() -> FoundModel {
    FoundModel { sensevoice: false, qwen: false, whisper: false }
}

#[test]
fn local_engine_model_paths_survive_provider_round_trips() {
    let mut asr = AsrServiceConfig::default();
    asr.model_dir = "/models/original-sensevoice".into();
    asr.set_model_dir_for(EngineKind::Qwen, "/models/qwen", nothing_found());
    asr.provider = "local_qwen".into();
    asr.set_model_dir_for(EngineKind::Whisper, "/models/whisper", nothing_found());

    assert_eq!(asr.model_dir_for(EngineKind::SenseVoice), "/models/original-sensevoice");
    assert_eq!(asr.model_dir_for(EngineKind::Qwen), "/models/qwen");
    assert_eq!(asr.model_dir_for(EngineKind::Whisper), "/models/whisper");
}

#[test]
fn legacy_model_migration_does_not_reassign_a_known_model_to_another_engine() {
    let model_dir = "/tmp/lumen-sensevoice-model";
    let found = FoundModel { sensevoice: true, qwen: false, whisper: false };
    let mut asr = AsrServiceConfig::default();
    asr.model_dir = model_dir.to_string();
    asr.migrate_legacy_model_dir(found);
    asr.provider = "local_qwen".into();
    asr.migrate_legacy_model_dir(found);

    assert_eq!(asr.sensevoice_model_dir, model_dir);
    assert!(asr.qwen_model_dir.is_empty());
}

#[test]
fn runtime_path_expands_home_prefix() {
    let mut asr = AsrServiceConfig::default();
    asr.runtime_path = "~/mlx-env/bin/python".into();

    assert_eq!(
        asr.python_executable(None, "/home/someone", Platform::MacOs),
        "/home/someone/mlx-env/bin/python"
    );
}

#[test]
fn python_is_looked_for_in_order() {
    let mut asr = AsrServiceConfig::default();
    let env = "~/env/python".to_string();
    assert_eq!(asr.python_executable(Some(&env), "/h", Platform::MacOs), "/h/env/python");
    assert_eq!(asr.python_executable(None, "/h", Platform::MacOs), "python3");
    assert_eq!(asr.python_executable(None, "/h", Platform::Windows), "python");
    asr.runtime_path = " /opt/python ".into();
    assert_eq!(asr.python_executable(Some(&env), "/h", Platform::MacOs), "/opt/python");
    assert_eq!(expand_user_path("~", "/h", Platform::MacOs), "/h");
    assert_eq!(expand_user_path("~other/x", "/h", Platform::MacOs), "~other/x");
    assert_eq!(
        expand_user_path("~\\env\\python.exe", "C:\\Users\\me", Platform::Windows),
        "C:\\Users\\me\\env\\python.exe"
    );
    assert_eq!(expand_user_path("~/x", "C:\\h", Platform::Windows), "C:\\h\\x");
}

#[test]
fn legacy_qwen_shadow_flag_is_tolerated_and_ignored() {
    let asr = AsrServiceConfig {
        provider: "local_qwen".into(),
        runtime_path: "/qwen/bin/python".into(),
        qwen_shadow_enabled: true,
        ..AsrServiceConfig::default()
    };

    assert!(asr.qwen_shadow_enabled);
    assert_eq!(asr.runtime_path, "/qwen/bin/python");
}

#[test]
fn output_cleanup_defaults_are_isolated_by_asr_provider() {
    let output = OutputConfig::default();

    assert_eq!(
        output.cleanup_level_for_asr_provider("local_sensevoice"),
        CleanupLevel::Medium
    );
    assert_eq!(output.cleanup_level_for_asr_provider("local_qwen"), CleanupLevel::Light);
}

#[test]
fn existing_config_without_qwen_cleanup_preserves_the_previous_cleanup() {
    let output = OutputConfig::from_wire(OutputConfigWire {
        cleanup: Some("strong".into()),
        ..OutputConfigWire::default()
    });

    assert_eq!(
        output.cleanup_level_for_asr_provider("local_sensevoice"),
        CleanupLevel::Strong
    );
    assert_eq!(output.cleanup_level_for_asr_provider("local_qwen"), CleanupLevel::Strong);
}

#[test]
fn existing_disabled_cleanup_does_not_enable_qwen_correction_on_upgrade() {
    let output = OutputConfig::from_wire(OutputConfigWire {
        cleanup: Some("none".into()),
        ..OutputConfigWire::default()
    });

    assert_eq!(output.cleanup_level_for_asr_provider("local_qwen"), CleanupLevel::Off);
}

#[test]
fn config_without_an_explicit_cleanup_uses_the_new_qwen_default() {
    let output = OutputConfig::from_wire(OutputConfigWire::default());

    assert_eq!(output.cleanup_level_for_asr_provider("local_qwen"), CleanupLevel::Light);
}

#[test]
fn cleanup_profiles_can_be_changed_without_cross_contamination() {
    let mut output = OutputConfig::default();

    output.set_cleanup_for_asr_provider("local_qwen", "strong").unwrap();
    assert_eq!(output.cleanup_level_for_asr_provider("local_qwen"), CleanupLevel::Strong);
    assert_eq!(
        output.cleanup_level_for_asr_provider("local_sensevoice"),
        CleanupLevel::Medium
    );

    output.set_cleanup_for_asr_provider("local_sensevoice", "none").unwrap();
    assert_eq!(output.cleanup_level_for_asr_provider("local_sensevoice"), CleanupLevel::Off);
    assert_eq!(output.cleanup_level_for_asr_provider("local_qwen"), CleanupLevel::Strong);

    assert_eq!(
        output.set_cleanup_for_asr_provider("local_qwen", "loud").unwrap_err(),
        "unknown cleanup level: loud"
    );
    assert_eq!(output.cleanup_profile_for_asr_provider("qwen"), "qwen");
    assert_eq!(output.cleanup_profile_for_asr_provider("openai_audio"), "default");
}

#[test]
fn meeting_transcript_cleanup_defaults_on() {
    assert!(MeetingConfig::default().transcript_cleanup);
    assert!(AppConfig::default().meeting.transcript_cleanup);
}

#[test]
fn meeting_system_audio_defaults_on_and_can_opt_out() {
    assert!(MeetingConfig::default().system_audio);
    assert!(AppConfig::default().meeting.system_audio);
    assert!(meeting_with_cleanup_alone().system_audio);
    let off = MeetingConfig::from_wire(MeetingConfigWire {
        system_audio: Some(false),
        ..MeetingConfigWire::default()
    });
    assert!(!off.system_audio);
}

#[test]
fn meeting_echo_suppression_defaults_on_and_can_opt_out() {
    assert!(MeetingConfig::default().echo_suppression);
    assert!(AppConfig::default().meeting.echo_suppression);
    assert!(meeting_with_cleanup_alone().echo_suppression);
    let off = MeetingConfig::from_wire(MeetingConfigWire {
        echo_suppression: Some(false),
        ..MeetingConfigWire::default()
    });
    assert!(!off.echo_suppression);
}

#[test]
fn meeting_calendar_link_defaults_on_and_can_opt_out() {
    assert!(MeetingConfig::default().calendar_link);
    assert!(AppConfig::default().meeting.calendar_link);
    assert!(meeting_with_cleanup_alone().calendar_link);
    let off = MeetingConfig::from_wire(MeetingConfigWire {
        calendar_link: Some(false),
        ..MeetingConfigWire::default()
    });
    assert!(!off.calendar_link);
}

#[test]
fn meeting_silence_auto_stop_defaults_to_fifteen_minutes_and_can_opt_out() {
    assert_eq!(MeetingConfig::default().silence_auto_stop_minutes, 15);
    assert_eq!(AppConfig::default().meeting.silence_auto_stop_minutes, 15);
    assert_eq!(meeting_with_cleanup_alone().silence_auto_stop_minutes, 15);
    let off = MeetingConfig::from_wire(MeetingConfigWire {
        silence_auto_stop_minutes: Some(0),
        ..MeetingConfigWire::default()
    });
    assert_eq!(off.silence_auto_stop_minutes, 0);
}

#[test]
fn meeting_calendar_end_reminder_defaults_on_and_can_opt_out() {
    assert!(MeetingConfig::default().calendar_end_reminder);
    assert!(AppConfig::default().meeting.calendar_end_reminder);
    assert!(meeting_with_cleanup_alone().calendar_end_reminder);
    let off = MeetingConfig::from_wire(MeetingConfigWire {
        calendar_end_reminder: Some(false),
        ..MeetingConfigWire::default()
    });
    assert!(!off.calendar_end_reminder);
}

#[test]
fn meeting_self_identity_defaults_none_and_round_trips() {
    assert_eq!(MeetingConfig::default().self_identity_id, None);
    assert_eq!(meeting_with_cleanup_alone().self_identity_id, None);
    let set = MeetingConfig::from_wire(MeetingConfigWire {
        self_identity_id: Some("11111111-2222-3333-4444-555555555555".into()),
        ..MeetingConfigWire::default()
    });
    assert_eq!(
        set.self_identity_id.as_deref(),
        Some("11111111-2222-3333-4444-555555555555")
    );
}

#[test]
fn meeting_detection_defaults_off_and_opts_in() {
    assert!(!MeetingConfig::default().detection_enabled);
    assert!(!AppConfig::default().meeting.detection_enabled);
    assert!(!MeetingConfig::from_wire(MeetingConfigWire::default()).detection_enabled);
    let enabled = MeetingConfig::from_wire(MeetingConfigWire {
        detection_enabled: Some(true),
        ..MeetingConfigWire::default()
    });
    assert!(enabled.detection_enabled);
}

#[test]
fn context_capture_defaults_to_bounded_text_without_vision_sources() {
    let context = ContextCaptureConfig::default();

    assert!(context.enabled);
    assert_eq!(context.profile, "visible");
    assert_eq!(context.max_chars, 200_000);
}

#[test]
fn existing_config_without_context_section_enables_auditable_capture() {
    let config = AppConfig::default();

    assert!(config.context.enabled);
    assert_eq!(config.context.profile, "visible");
}

#[test]
fn existing_corrector_config_keeps_context_upload_opt_in() {
    let corrector = CorrectorConfig {
        enabled: true,
        provider: "minimax".into(),
        ..CorrectorConfig::default()
    };

    assert!(!corrector.use_captured_context);
}

#[test]
fn windows_migrates_default_hotkey() {
    let mut config = AppConfig::for_platform(Platform::Windows, None, None);
    config.hotkey.toggle = "Alt+Space".into();

    assert!(config.apply_platform_fallbacks(Platform::Windows, None));
    assert_eq!(config.hotkey.toggle, "Ctrl+Shift+Space");
}

#[test]
fn windows_migrates_unobservable_fn_hotkeys() {
    let mut config = AppConfig::for_platform(Platform::Windows, None, None);
    config.hotkey.toggle = "Fn".into();
    config.hotkey.intents[0].chord = "Fn+T".into();

    assert!(config.apply_platform_fallbacks(Platform::Windows, None));
    assert_eq!(config.hotkey.toggle, "Ctrl+Shift+Space");
    assert_eq!(config.hotkey.intents[0].chord, "Alt+Shift+T");
    assert!(!config.hotkey.intents[0].enabled);
}

#[test]
fn other_platforms_keep_their_hotkeys() {
    let mut config = AppConfig::default();
    config.hotkey.toggle = "Fn".into();
    assert!(!config.apply_platform_fallbacks(Platform::MacOs, None));
    assert_eq!(config.hotkey.toggle, "Fn");

    let mut chosen = AppConfig::for_platform(Platform::Windows, None, None);
    chosen.hotkey.toggle = "Alt+Space".into();
    chosen.onboarding.completed = true;
    assert!(!chosen.apply_platform_fallbacks(Platform::Windows, None));
    assert_eq!(chosen.hotkey.toggle, "Alt+Space");
}

#[test]
fn shared_models_replace_those_of_earlier_builds() {
    let mut config = AppConfig::for_platform(Platform::Windows, None, None);
    config.asr.sensevoice_model_dir = "old/sv".into();
    config.asr.whisper_model_dir = "custom/wh".into();
    config.asr.model_dir = "old/sv".into();
    let moves = SharedModelDirs {
        sensevoice_is_legacy: true,
        whisper_is_legacy: false,
        current_is_legacy_sensevoice: true,
        current_is_legacy_whisper: false,
        sensevoice_ready: true,
        whisper_ready: true,
        shared_sensevoice: "shared/sv".into(),
        shared_whisper: "shared/wh".into(),
    };
    config.prepare_loaded(nothing_found());
    assert_eq!(config.asr.sensevoice_model_dir, "old/sv");
    assert!(config.apply_platform_fallbacks(Platform::Windows, Some(&moves)));
    assert_eq!(config.asr.sensevoice_model_dir, "shared/sv");
    assert_eq!(config.asr.model_dir, "shared/sv");
    assert_eq!(config.asr.whisper_model_dir, "custom/wh");
}

#[test]
fn the_environment_names_the_model_and_the_key() {
    let named = AppConfig::for_platform(
        Platform::MacOs,
        Some("model".into()),
        Some("key".into()),
    );
    assert_eq!(named.corrector.model, "model");
    assert_eq!(named.corrector.api_key, "key");
    assert_eq!(AppConfig::default().corrector.model, "qwen2.5:7b");
    assert_eq!(
        AppConfig::for_platform(Platform::Windows, None, None).hotkey.toggle,
        "Ctrl+Shift+Space"
    );
}

#[test]
fn fn_is_a_key_of_its_own() {
    assert!(contains_fn_key("Fn"));
    assert!(contains_fn_key("Ctrl+ fn +A"));
    assert!(!contains_fn_key("F1"));
    assert!(!contains_fn_key("Alt+Fnord"));
}

#[test]
fn intents_are_made_usable_once_and_for_all() {
    let mut hotkey = HotkeyConfig { intents: Vec::new(), ..HotkeyConfig::default() };
    hotkey.mode = "toggle".into();
    ensure_default_intents(&mut hotkey);
    assert_eq!(hotkey.intents.len(), 1);
    assert_eq!(hotkey.intents[0].chord, "Alt+Shift+T");
    assert_eq!(hotkey.intents[0].mode, "toggle");
    hotkey.intents[0].chord = "Ctrl+J".into();
    ensure_default_intents(&mut hotkey);
    assert_eq!(hotkey.intents.len(), 1);
    assert_eq!(hotkey.intents[0].chord, "Ctrl+J");
}

#[test]
fn an_intent_says_what_an_utterance_is_for() {
    let mut intent = HotkeyIntentConfig::default();
    intent.target_language = "  ".into();
    intent.translate_style = Some(" formal ".into());
    match intent.to_intent_spec() {
        IntentSpec::Translate { target_language, style } => {
            assert_eq!(target_language, "en");
            assert_eq!(style.as_deref(), Some("formal"));
        }
        _ => panic!("a translation was expected"),
    }
    intent.intent = "RAW".into();
    assert!(matches!(intent.to_intent_spec(), IntentSpec::Raw));
    intent.intent = "other".into();
    assert!(matches!(intent.to_intent_spec(), IntentSpec::Default));
}

#[test]
fn insertion_follows_the_mode() {
    let mode = |name: &str| {
        InjectConfig { mode: name.into(), ..InjectConfig::default() }.to_policy().mode
    };
    assert_eq!(mode("paste"), InjectMode::Paste);
    assert_eq!(mode("type"), InjectMode::Type);
    assert_eq!(mode("copy"), InjectMode::CopyOnly);
    assert_eq!(mode("copy_only"), InjectMode::CopyOnly);
    assert_eq!(mode("ax"), InjectMode::Ax);
    assert_eq!(mode("what"), InjectMode::Auto);
}

#[test]
fn the_own_instruction_counts_where_it_is_switched_on() {
    let mut output = OutputConfig::default();
    output.custom_instruction = "  be brief ".into();
    assert_eq!(output.custom_prompt(), None);
    output.custom_enabled = true;
    assert_eq!(output.custom_prompt().as_deref(), Some("be brief"));
    output.custom_instruction = "  ".into();
    assert_eq!(output.custom_prompt(), None);
}

#[test]
fn an_empty_device_is_the_default_one() {
    let mut audio = AudioConfig::default();
    audio.choose_device(Some("Mic".into()));
    assert_eq!(audio.device_name.as_deref(), Some("Mic"));
    audio.choose_device(Some(String::new()));
    assert_eq!(audio.device_name, None);
}

#[test]
fn qwen_provider_aliases_share_one_canonical_engine_contract() {
    for alias in ["qwen", "qwen3_asr", "local_qwen"] {
        assert_eq!(canonical_asr_provider(alias), "local_qwen");
        assert_eq!(engine_kind_for_provider(alias), Some(EngineKind::Qwen));
    }
}

#[test]
fn valid_config_override_wins_over_shared_and_default() {
    let configured = "/tmp/user-model".to_string();
    let picked = resolve_local_model_dir(
        configured.clone(),
        |_| true,
        || panic!("shared resolver must not run when config override is valid"),
        || panic!("default must not run when config override is valid"),
    );
    assert_eq!(picked, configured);
}

#[test]
fn empty_config_falls_back_to_shared_resolution() {
    let shared = "/tmp/shared-root-model".to_string();
    let shared_for_closure = shared.clone();
    let picked = resolve_local_model_dir(
        String::new(),
        |_| true,
        move || Some(shared_for_closure),
        || panic!("default must not run when shared resolution succeeds"),
    );
    assert_eq!(picked, shared);
}

#[test]
fn unready_config_override_is_ignored_for_shared_resolution() {
    let configured = "/tmp/stale-user-model".to_string();
    let shared = "/tmp/shared-root-model".to_string();
    let shared_for_closure = shared.clone();
    let picked = resolve_local_model_dir(
        configured,
        |_| false,
        move || Some(shared_for_closure),
        || panic!("default must not run when shared resolution succeeds"),
    );
    assert_eq!(picked, shared);
}

#[test]
fn nothing_installed_falls_back_to_default_for_not_installed_status() {
    let default = "/tmp/shared-download-target".to_string();
    let default_for_closure = default.clone();
    let picked = resolve_local_model_dir(
        String::new(),
        |_| true,
        || None,
        move || default_for_closure,
    );
    assert_eq!(picked, default);
}

#[test]
fn existing_config_without_meeting_section_defaults_cleanup_on() {
    let config = AppConfig {
        asr: AsrServiceConfig {
            provider: "local_sensevoice".into(),
            ..AsrServiceConfig::default()
        },
        meeting: MeetingConfig::from_wire(MeetingConfigWire::default()),
        ..AppConfig::default()
    };
    assert!(config.meeting.transcript_cleanup);
}

#[test]
fn meeting_transcript_cleanup_can_be_disabled() {
    let meeting = MeetingConfig::from_wire(MeetingConfigWire {
        transcript_cleanup: Some(false),
        ..MeetingConfigWire::default()
    });
    assert!(!meeting.transcript_cleanup);
}

#[test]
fn the_provider_in_use_decides_the_cleanup_that_is_asked_for() {
    let mut config = AppConfig::default();
    config.asr.provider = "local_qwen".into();
    config.output.polish = vec!["concise".into(), "clarity".into()];
    config.output.custom_enabled = true;
    config.output.custom_instruction = "  keep code  ".into();
    let asked = config.corrector_prompt_input(IntentSpec::Raw);
    assert_eq!(asked.cleanup, CleanupLevel::Light);
    assert_eq!(asked.style, "neutral");
    assert_eq!(asked.casing, "sentence");
    assert_eq!(asked.punctuation, "standard");
    assert_eq!(asked.polish, ["concise", "clarity"]);
    assert_eq!(asked.custom.as_deref(), Some("keep code"));
    assert_eq!(asked.intent, IntentSpec::Raw);
    assert_eq!(config.output.prompt_input(IntentSpec::Default).cleanup, CleanupLevel::Medium);

    config.output.custom_instruction = " ".into();
    assert_eq!(config.output.prompt_input(IntentSpec::Default).custom, None);
}

#[test]
fn stored_meeting_settings_that_are_missing_have_their_defaults() {
    let (read, default) =
        (MeetingConfig::from_wire(MeetingConfigWire::default()), MeetingConfig::default());
    assert_eq!(format!("{read:?}"), format!("{default:?}"));
    let stored = MeetingConfig::from_wire(MeetingConfigWire {
        max_duration_minutes: Some(60),
        system_live_preview: Some(false),
        annotation_voiceprint_spread: Some(false),
        auto_enroll_speakers: Some(false),
        ..MeetingConfigWire::default()
    });
    assert_eq!(stored.max_duration_minutes, 60);
    assert!(!stored.system_live_preview && !stored.annotation_voiceprint_spread);
    assert!(!stored.auto_enroll_speakers && stored.transcript_cleanup);
}
