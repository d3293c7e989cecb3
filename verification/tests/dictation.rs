use lumen_asr_desktop::config::{AsrServiceConfig, VadConfig};
use lumen_asr_desktop::dictation::{
    active_provider, asr_engine_hedge_label, asr_engine_name, asr_route, build_meeting_asr_engine,
    capsule_notice_hold, capture_duration_ms, cloud_asr_error_is_hedgeable,
    cloud_asr_hedge_deadline, cloud_request, cloud_timeout, configure_session_vad,
    copy_only_fallback_notice, ensure_active_asr_ready, ensure_audible_capture, hedge_cloud_error,
    insert_failure_notice, local_hedge_engine_kind, record_capture_signal_issue,
    resolve_silero_model_path, set_asr_engine, settle_hedge, vad_auto_stop, AsrPreset, AsrRoute,
    AutoStop, CaptureSignalIssue, MeetingEngine, SessionVad,
};
use lumen_asr_desktop::engine::EngineKind;
use lumen_asr_desktop::pipeline::{
    insertion_outcome_for_strategy, InsertStrategy, InsertionOutcome, PipelineIssueKind,
    PipelineStage,
};
use lumen_asr_desktop::platform::Platform;

#[test]
fn meeting_engine_prefers_sensevoice_when_provisioned() {
    assert_eq!(build_meeting_asr_engine(true, true), Ok(MeetingEngine::SenseVoice));
    assert_eq!(build_meeting_asr_engine(true, false), Ok(MeetingEngine::SenseVoice));
    assert_eq!(build_meeting_asr_engine(false, true), Ok(MeetingEngine::Paraformer));
    assert!(build_meeting_asr_engine(false, false).is_err());
}

#[test]
fn insertion_strategies_map_to_distinct_metric_outcomes() {
    for strategy in [InsertStrategy::Paste, InsertStrategy::Ax, InsertStrategy::Type] {
        assert_eq!(
            insertion_outcome_for_strategy(strategy),
            InsertionOutcome::Inserted
        );
    }
    assert_eq!(
        insertion_outcome_for_strategy(InsertStrategy::CopyOnly),
        InsertionOutcome::Copied
    );
    assert_eq!(
        insertion_outcome_for_strategy(InsertStrategy::Nothing),
        InsertionOutcome::Failed
    );
}

#[test]
fn copy_only_feedback_matches_platform_contract() {
    let copied = copy_only_fallback_notice(true, Platform::Windows);
    assert!(copied.starts_with("已复制"));
    assert!(!copied.contains("辅助功能"));
    let failure = copy_only_fallback_notice(false, Platform::Windows);
    assert!(failure.contains("剪贴板"));
    assert!(!failure.contains("辅助功能"));
    for platform in [Platform::MacOs, Platform::Other] {
        let copied = copy_only_fallback_notice(true, platform);
        assert!(copied.starts_with("已复制"));
        assert!(copied.contains("辅助功能"));
    }
}

#[test]
fn insert_failure_notice_separates_elevated_targets_from_generic_failures() {
    let elevated = insert_failure_notice(
        "Windows blocked simulated keyboard input; elevated apps cannot receive input from a non-elevated Lumen process",
        true,
    );
    assert!(elevated.starts_with("已复制"));
    assert!(elevated.contains("管理员"));
    let generic = insert_failure_notice("paste failed", true);
    assert_eq!(generic, "已复制");
    let both_failed = insert_failure_notice("paste failed", false);
    assert!(both_failed.contains("历史记录"));
}

#[test]
fn cloud_asr_hedge_prefers_a_short_deadline_when_local_is_ready() {
    let configured = 120;
    assert_eq!(cloud_asr_hedge_deadline(configured, true), 8);
    assert_eq!(cloud_asr_hedge_deadline(configured, false), configured);
    assert_eq!(cloud_asr_hedge_deadline(5, true), 5);
}

#[test]
fn cloud_asr_timeouts_are_hedgeable_but_auth_rejects_are_not() {
    assert!(cloud_asr_error_is_hedgeable("timeout"));
    assert!(cloud_asr_error_is_hedgeable("http: error sending request"));
    assert!(cloud_asr_error_is_hedgeable("timed out"));
    assert!(!cloud_asr_error_is_hedgeable(
        "provider rejected request with status 401 Unauthorized"
    ));
    assert!(!cloud_asr_error_is_hedgeable(
        "provider rejected request with status 400: bad request"
    ));
}

#[test]
fn asr_engine_hedge_label_records_the_path_that_actually_ran() {
    assert_eq!(
        asr_engine_hedge_label("openai_audio", EngineKind::SenseVoice),
        "openai_audio→sensevoice"
    );
}

#[test]
fn copy_toast_holds_the_capsule_briefly() {
    assert_eq!(capsule_notice_hold(Some("已复制"), false), 2);
    assert_eq!(capsule_notice_hold(Some("已复制"), true), 4);
}

fn audible(rms: f32, peak: f32) -> Result<(), CaptureSignalIssue> {
    ensure_audible_capture(rms.is_finite() && peak.is_finite(), peak > 1.0e-6)
}

#[test]
fn near_silent_capture_threshold_rejects_invalid_or_inaudible_peaks() {
    assert_eq!(audible(0.0, 0.0), Err(CaptureSignalIssue::AbsoluteSilence));
    assert_eq!(audible(f32::NAN, 0.0), Err(CaptureSignalIssue::InvalidSignal));
    assert_eq!(audible(0.0, f32::INFINITY), Err(CaptureSignalIssue::InvalidSignal));
    assert_eq!(audible(1.0e-7, 1.0e-7), Err(CaptureSignalIssue::AbsoluteSilence));
    assert_eq!(audible(1.0e-7, 1.0e-6), Err(CaptureSignalIssue::AbsoluteSilence));
    assert!(audible(1.0e-7, 1.000_001e-6).is_ok());
    assert!(audible(1.0e-6, 1.0e-5).is_ok());
    assert!(audible(0.001, 0.005).is_ok());
}

#[test]
fn absolute_silence_uses_a_stable_structured_issue() {
    let mut issues = Vec::new();
    record_capture_signal_issue(&mut issues, CaptureSignalIssue::AbsoluteSilence);

    assert_eq!(issues.len(), 1);
    let issue = &issues[0];
    assert_eq!(issue.stage, PipelineStage::Capture);
    assert_eq!(issue.kind, PipelineIssueKind::AbsoluteSilence);
    assert_eq!(issue.message, "absolute_silence");
}

#[test]
fn invalid_audio_signal_is_not_classified_as_absolute_silence() {
    let mut issues = Vec::new();
    record_capture_signal_issue(&mut issues, CaptureSignalIssue::InvalidSignal);

    let issue = &issues[0];
    assert_eq!(issue.stage, PipelineStage::Capture);
    assert_eq!(issue.kind, PipelineIssueKind::InputUnavailable);
    assert_eq!(issue.message, "invalid_audio_signal");
}

#[test]
fn silero_model_path_prefers_configured_existing_file() {
    let model = "/models/silero_vad.onnx";
    let vad = VadConfig { silero_model_path: model.into(), ..VadConfig::default() };
    assert_eq!(
        resolve_silero_model_path(&vad, |path| path == model, || Some("/shared".into())),
        Some(model.to_string())
    );
}

#[test]
fn silero_model_path_rejects_missing_configured_file() {
    let vad = VadConfig {
        silero_model_path: "/nonexistent/silero_vad.onnx".into(),
        ..VadConfig::default()
    };
    assert_eq!(
        resolve_silero_model_path(&vad, |_| false, || Some("/shared".into())),
        None
    );
    let unset = VadConfig::default();
    assert_eq!(
        resolve_silero_model_path(&unset, |_| false, || Some("/shared".into())),
        Some("/shared".to_string())
    );
}

#[test]
fn backend_recording_gate_rejects_unready_qwen() {
    let error = ensure_active_asr_ready(
        "local_qwen",
        "本地 Qwen3-ASR 0.6B 8-bit（高准确率）",
        false,
        false,
    )
    .unwrap_err();
    assert!(error.contains("Qwen"));
    assert!(error.contains("未就绪"));
    let checking = ensure_active_asr_ready("local_qwen", "Qwen", false, true).unwrap_err();
    assert!(checking.contains("正在检查"));
    assert!(ensure_active_asr_ready("local_qwen", "Qwen", true, false).is_ok());
}

#[test]
fn a_stop_by_silence_is_kept_within_bounds() {
    let vad = |mode: &str, ms: u64| VadConfig {
        enabled: true,
        mode: mode.into(),
        silence_timeout_ms: ms,
        ..VadConfig::default()
    };
    assert_eq!(vad_auto_stop(&VadConfig::default(), true), AutoStop::Never);
    assert_eq!(vad_auto_stop(&vad("silero", 1), true), AutoStop::Silero { timeout_ms: 300 });
    assert_eq!(vad_auto_stop(&vad("silero", 99_000), false), AutoStop::Level { timeout_ms: 30_000 });
    assert_eq!(vad_auto_stop(&vad("other", 1_500), true), AutoStop::Level { timeout_ms: 1_500 });
}

#[test]
fn a_session_listens_with_the_model_that_is_there() {
    let vad = VadConfig { enabled: true, mode: "silero".into(), ..VadConfig::default() };
    assert_eq!(
        configure_session_vad(&vad, Some("/m.onnx".into())),
        SessionVad::Silero("/m.onnx".into())
    );
    assert_eq!(configure_session_vad(&vad, None), SessionVad::Fetch);
    assert_eq!(configure_session_vad(&VadConfig::default(), None), SessionVad::Detached);
}

#[test]
fn recognition_goes_where_the_provider_says() {
    assert_eq!(asr_route("openai_audio", EngineKind::Qwen), Ok(AsrRoute::Cloud));
    assert_eq!(asr_route("custom", EngineKind::Qwen), Ok(AsrRoute::Cloud));
    assert_eq!(
        asr_route("qwen", EngineKind::SenseVoice),
        Ok(AsrRoute::Local(EngineKind::Qwen))
    );
    assert_eq!(
        asr_route("unheard_of", EngineKind::Whisper),
        Ok(AsrRoute::Local(EngineKind::Whisper))
    );
    assert_eq!(
        asr_route("volcengine", EngineKind::Qwen).unwrap_err(),
        "ASR「volcengine」仅预置了 endpoint，完整流式客户端尚未接入。请改用本地 SenseVoice 或 OpenAI Audio。"
    );
}

#[test]
fn a_cloud_error_is_answered_by_a_local_engine_or_passed_on() {
    assert_eq!(local_hedge_engine_kind(true, true), Some(EngineKind::SenseVoice));
    assert_eq!(local_hedge_engine_kind(false, true), Some(EngineKind::Whisper));
    assert_eq!(local_hedge_engine_kind(false, false), None);
    assert_eq!(
        hedge_cloud_error("timeout".into(), Some(EngineKind::SenseVoice)),
        Ok(EngineKind::SenseVoice)
    );
    assert_eq!(hedge_cloud_error("timeout".into(), None), Err("在线 ASR 超时".to_string()));
    assert_eq!(
        hedge_cloud_error("status 401".into(), Some(EngineKind::SenseVoice)),
        Err("status 401".to_string())
    );
    let mut issues = Vec::new();
    let label =
        settle_hedge("openai_audio", EngineKind::SenseVoice, None, &mut issues).unwrap();
    assert_eq!(label, "openai_audio→sensevoice");
    assert_eq!(issues.len(), 1);
    assert_eq!(issues[0].kind, PipelineIssueKind::Fallback);
    assert_eq!(issues[0].message, "openai_audio timeout; used sensevoice");
    assert_eq!(
        settle_hedge("openai_audio", EngineKind::Whisper, Some("no".into()), &mut issues)
            .unwrap_err(),
        "在线 ASR 超时，本地 whisper 也失败：no"
    );
    assert_eq!(issues.len(), 1);
}

#[test]
fn a_cloud_request_has_its_defaults() {
    let request = cloud_request(&AsrServiceConfig { timeout_secs: 3, ..AsrServiceConfig::default() });
    assert_eq!(request.base_url, "https://api.openai.com/v1");
    assert_eq!(request.model, "whisper-1");
    assert_eq!(request.timeout_secs, 30);
    assert_eq!(request.language, None);
    assert_eq!(cloud_timeout(45), 45);
}

#[test]
fn an_engine_brings_its_provider_with_it() {
    let mut config = AsrServiceConfig::default();
    let (kind, _) = set_asr_engine(&mut config, "qwen", EngineKind::SenseVoice, None).unwrap();
    assert_eq!(kind, EngineKind::Qwen);
    assert_eq!(config.provider, "local_qwen");
    let preset = AsrPreset {
        id: "groq".into(),
        base_url: "https://api.example".into(),
        default_model: "m".into(),
    };
    assert_eq!(
        set_asr_engine(&mut config, "groq", EngineKind::Qwen, Some(preset)),
        Ok((EngineKind::Qwen, true))
    );
    assert_eq!(config.provider, "groq");
    assert_eq!(config.base_url, "https://api.example");
    assert_eq!(config.model, "m");
    let mut fresh = AsrServiceConfig::default();
    assert_eq!(
        set_asr_engine(&mut fresh, "openai_audio", EngineKind::Qwen, None),
        Ok((EngineKind::SenseVoice, true))
    );
    assert_eq!(fresh.base_url, "https://api.openai.com/v1");
    assert_eq!(fresh.model, "whisper-1");
    assert_eq!(
        set_asr_engine(&mut fresh, "local_parrot", EngineKind::Qwen, None).unwrap_err(),
        "unknown local engine: local_parrot"
    );
}

#[test]
fn names_and_lengths_are_what_they_are() {
    assert_eq!(capture_duration_ms(16_000, 16_000), 1_000);
    assert_eq!(capture_duration_ms(8, 16_000), 0);
    assert_eq!(asr_engine_name("local_qwen", EngineKind::Qwen), "qwen");
    assert_eq!(active_provider("", EngineKind::SenseVoice), "local_sensevoice");
}
