//! What is told of the engines, of a session and of the context that it froze.
use lumen_asr_desktop::asr_models::{
    check_asr_model_status, EnginePlaces, ModelFacts, ModelPlace,
};
use lumen_asr_desktop::config::{AsrServiceConfig, HotkeyConfig, IntentSpec};
use lumen_asr_desktop::context_records::ContextInputRef;
use lumen_asr_desktop::dictation::{
    asr_status_from, frozen_context, frozen_usage_input, intent_ui_label, listening_message,
    processing_message, AsrStatus, EngineStatus,
};
use lumen_asr_desktop::dictation_phase::{
    check_start, DictationUi, PaneTargetState, Phase, SessionEnd, StartCheck, NOTICE_SECS,
};
use lumen_asr_desktop::engine::EngineKind;
use lumen_asr_desktop::hotkey::event_tap_note;
use lumen_asr_desktop::meeting_asr::{EngineTraits, FallbackAsr};
use lumen_asr_desktop::pipeline::PipelineStage;
use lumen_asr_desktop::platform::Platform;

fn engine(ready: bool) -> EngineStatus {
    EngineStatus { ready, model_dir: "/models/x".into() }
}

fn status(provider: &str, qwen_ready: bool, preset: Option<&str>) -> AsrStatus {
    let config = AsrServiceConfig {
        provider: provider.into(),
        model: "whisper-1".into(),
        ..AsrServiceConfig::default()
    };
    asr_status_from(
        false,
        EngineKind::Qwen,
        &config,
        engine(false),
        engine(qwen_ready),
        engine(false),
        preset.map(String::from),
        Platform::MacOs,
    )
}

#[test]
fn the_provider_in_use_decides_whether_recording_may_start() {
    let ready = status("local_qwen", true, Some("Qwen3-ASR"));
    assert_eq!(ready.provider, "local_qwen");
    assert!(ready.active_ready);
    assert_eq!(ready.provider_label, "Qwen3-ASR");
    assert_eq!(ready.qwen.model_dir, "/models/x");
    assert!(matches!(check_start(&ready, false), StartCheck::Start));

    let waiting = status("local_qwen", false, Some("Qwen3-ASR"));
    assert!(matches!(
        check_start(&waiting, true),
        StartCheck::Refused(error) if error == "Qwen3-ASR 正在检查运行环境，请稍候再试。"
    ));

    let busy = AsrStatus { recording: true, ..waiting };
    assert!(matches!(check_start(&busy, true), StartCheck::AlreadyRecording));

    let cloud = status("openai_audio", false, Some("OpenAI Audio"));
    assert_eq!(cloud.provider_label, "OpenAI Audio · whisper-1");
}

#[test]
fn the_interface_names_the_intent() {
    let translate = IntentSpec::Translate { target_language: "en".into(), style: None };
    assert_eq!(
        intent_ui_label(&translate),
        ("translate".into(), Some("en".into()), "翻译→en".into())
    );
    assert_eq!(intent_ui_label(&IntentSpec::Raw).2, "仅原文");
    assert_eq!(intent_ui_label(&IntentSpec::PolishOverride), (
        "default".into(),
        None,
        "整理".into()
    ));
    assert_eq!(listening_message("整理"), "按住·整理");
    assert_eq!(processing_message(&translate), "正在翻译 → en…");
    assert_eq!(processing_message(&IntentSpec::Raw), "转写中（不整理）…");
    assert_eq!(processing_message(&IntentSpec::Default), "转写与整理中…");
}

#[test]
fn a_start_that_fails_is_noticed() {
    let mut ui = DictationUi::new();
    ui.started_ms = Some(5);
    ui.phase = Phase::Recording;
    let end = ui.start_failed();
    assert!(matches!(
        end,
        SessionEnd::Error { epoch: 1, hold_secs: NOTICE_SECS }
    ));
    assert_eq!(ui.started_ms, None);
    assert!(matches!(ui.phase, Phase::Idle));
}

#[test]
fn a_search_is_waited_for_until_its_deadline() {
    let mut search: PaneTargetState<u64> = PaneTargetState::new();
    assert_eq!(search.wait_ms(0), None);
    let (generation, _) = search.begin(1_000);
    let deadline = search.deadline_ms.unwrap();
    assert_eq!(search.wait_ms(1_000), Some(deadline - 1_000));
    assert_eq!(search.wait_ms(deadline + 1), None);
    assert!(search.discovered(generation, Some(7)));
    assert_eq!(search.wait_ms(1_000), None);
}

#[test]
fn recognition_is_not_given_frozen_context() {
    let frozen = ContextInputRef {
        capture_id: 3,
        revision: 1,
        snapshot_hash: "00".into(),
        context_schema_version: 1,
        capture_profile: "standard".into(),
        source_presence_bitmap: 4,
        source_status_summary: "partial".into(),
    };
    assert_eq!(frozen_context(&frozen), (true, true));
    let usage = frozen_usage_input(3, 9, true);
    assert_eq!(usage.capture_id, Some(3));
    assert_eq!(usage.attempt_id, 9);
    assert!(matches!(usage.stage, PipelineStage::Asr));
    assert_eq!(usage.sources, ["captured_context"]);
    assert!(usage.captured && !usage.sent);
    assert_eq!(
        usage.not_used_reason.as_deref(),
        Some("captured_context_not_projected_to_asr")
    );
}

#[test]
fn enabled_intents_are_counted() {
    let mut config = HotkeyConfig::default();
    let enabled = config.intents.iter().filter(|intent| intent.enabled).count();
    assert_eq!(
        event_tap_note(&config),
        format!("EventTap 已注册主热键 + {enabled} 个意图键")
    );
    for intent in config.intents.iter_mut() {
        intent.enabled = false;
    }
    assert_eq!(event_tap_note(&config), "EventTap 已注册主热键 + 0 个意图键");
}

#[test]
fn a_pair_is_supported_where_one_of_it_is() {
    let traits = |supported| EngineTraits { id: 1u8, supported, max_audio_bytes: None };
    assert!(FallbackAsr::new(traits(false), traits(true)).is_supported());
    assert!(!FallbackAsr::new(traits(false), traits(false)).is_supported());
}

fn places(live: bool) -> EnginePlaces {
    EnginePlaces {
        live: ModelPlace { dir: "/live".into(), ready: live },
        default: ModelPlace { dir: "/default".into(), ready: true },
    }
}

#[test]
fn the_directory_in_use_is_told_where_its_model_is_ready() {
    let facts = ModelFacts {
        engine: EngineKind::Qwen,
        sensevoice: places(false),
        whisper: places(true),
        qwen: places(true),
        paraformer_offline: ModelPlace { dir: "/po".into(), ready: false },
        paraformer_streaming: ModelPlace { dir: "/ps".into(), ready: true },
        total_memory_mb: Some(16 * 1024),
        models_root: "/models".into(),
        candidates: vec![],
        download_url: "u".into(),
        paraformer_offline_download_url: "o".into(),
        paraformer_streaming_download_url: "s".into(),
    };
    let mac = check_asr_model_status(facts.clone(), Platform::MacOs);
    assert!(mac.sensevoice_ready);
    assert_eq!(mac.sensevoice_dir, "/default");
    assert_eq!(mac.whisper_dir, "/live");
    assert_eq!(mac.active_model_dir, "/live");
    assert_eq!(mac.active_engine, "qwen");
    assert_eq!(mac.recommended_engine, "qwen");
    assert_eq!(mac.qwen_fallback_reason, None);

    let windows = check_asr_model_status(facts, Platform::Windows);
    assert_eq!(windows.recommended_engine, "sensevoice");
    assert!(windows.qwen_fallback_reason.is_some());
}
