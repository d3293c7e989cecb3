use lumen_asr_desktop::config::{InjectConfig, IntentSpec, LearningConfig};
use lumen_asr_desktop::context_records::ContextInputRef;
use lumen_asr_desktop::dictation_phase::{
    must_restore_target, observes_panes, DictationUi, PaneTargetState, Phase, SessionEnd,
    StopVerdict, ToggleAction,
};
use lumen_asr_desktop::dictation_retry::{
    PriorAttempt, RetryAction, RetryAudio, RetryEvent, RetryRun,
};
use lumen_asr_desktop::dictation_run::{
    DictationAction, DictationEvent, DictationRun, DictationSettings,
};
use lumen_asr_desktop::engine::EngineKind;
use lumen_asr_desktop::pipeline::{
    ContextStageUsage, InsertStrategy, InsertionOutcome, PipelineIssueKind, PipelineStage,
};
use lumen_asr_desktop::platform::Platform;

fn settings() -> DictationSettings {
    DictationSettings {
        engine: EngineKind::SenseVoice,
        provider: "local_sensevoice".into(),
        auto_insert: true,
        post_paste_capture: true,
        post_paste_seconds: 20,
        insert_available: true,
        platform: Platform::MacOs,
        translates: false,
    }
}

fn usage() -> ContextStageUsage {
    ContextStageUsage {
        stage: PipelineStage::Unknown,
        sources: vec![],
        projection_schema_version: 0,
        projection_path: None,
        projection_hash: None,
        projection_chars: 0,
        captured: false,
        selected: false,
        consumed: false,
        sent: false,
        not_used_reason: None,
    }
}

/// What is answered to an action where all goes well.
fn answer(action: DictationAction) -> DictationEvent {
    match action {
        DictationAction::FreezeContext => DictationEvent::ContextMissing(usage()),
        DictationAction::ReadSamples => {
            DictationEvent::Samples { count: 32_000, sample_rate: 16_000 }
        }
        DictationAction::InspectSignal => DictationEvent::Signal { finite: true, audible: true },
        DictationAction::Recognize => {
            DictationEvent::Recognized {
                text: "你好".into(),
                enhanced: "你 好".into(),
                engine: "sensevoice".into(),
            }
        }
        DictationAction::Correct => DictationEvent::Corrected {
            text: "你好。".into(),
            engine: "ollama".into(),
            model_applied: true,
            fallback: None,
        },
        DictationAction::Insert => {
            DictationEvent::Inserted { strategy: InsertStrategy::Paste, observing: true }
        }
        _ => DictationEvent::Done,
    }
}

/// A run to its end, in which `failing` fails.
fn run(settings: DictationSettings, failing: &[DictationAction]) -> (DictationRun, Vec<DictationAction>) {
    let mut run = DictationRun::new(settings);
    let mut actions = Vec::new();
    for _ in 0..20 {
        let action = run.action;
        if action == DictationAction::End {
            return (run, actions);
        }
        actions.push(action);
        let handed = (action == DictationAction::Correct).then_some("你 好");
        assert_eq!(run.text_to_correct(), handed);
        if failing.contains(&action) {
            run.advance(DictationEvent::Failed("broken".into()));
        } else {
            run.advance(answer(action));
        }
    }
    panic!("the run goes on");
}

#[test]
fn a_dictation_ends_with_its_text() {
    let (run, actions) = run(settings(), &[]);
    let outcome = run.result().unwrap();
    assert_eq!(outcome.text, "你好。");
    assert_eq!(outcome.asr_text, "你好");
    assert_eq!(run.enhanced_text, "你 好");
    assert_eq!(run.text_to_correct(), None);
    assert_eq!(outcome.duration_ms, 2_000);
    assert_eq!(run.outcome, InsertionOutcome::Inserted);
    assert_eq!(run.inserted_text().as_deref(), Some("你好。"));
    assert!(run.completed);
    let session = run.recorded_session();
    assert!(session.completed);
    assert_eq!(session.insert_strategy, InsertStrategy::Paste);
    assert_eq!(session.asr_raw.as_deref(), Some("你好"));
    assert_eq!(session.pasted.as_deref(), Some("你好。"));
    assert_eq!(session.corrector_engine.as_deref(), Some("ollama"));
    assert!(actions.contains(&DictationAction::JoinPane));
    assert!(actions.contains(&DictationAction::Persist));
    assert_eq!(run.usages[0].not_used_reason.as_deref(), Some("capture_session_missing"));
}

#[test]
fn silence_is_not_transcribed() {
    let mut run = DictationRun::new(settings());
    while run.action != DictationAction::InspectSignal {
        run.advance(answer(run.action));
    }
    run.advance(DictationEvent::Signal { finite: true, audible: false });
    assert_eq!(run.action, DictationAction::AskDiscard);
    assert_eq!(run.failed_stage, Some(PipelineStage::Capture));
    assert_eq!(run.issues[0].kind, PipelineIssueKind::AbsoluteSilence);
    run.advance(DictationEvent::Discard(true));
    assert_eq!(run.action, DictationAction::Persist);
    while run.action != DictationAction::End {
        assert_ne!(run.action, DictationAction::Recognize);
        run.advance(DictationEvent::Done);
    }
    assert!(run.target_cleared);
    assert!(run.result().unwrap_err().contains("麦克风"));
}

#[test]
fn an_empty_capture_is_refused() {
    let mut run = DictationRun::new(settings());
    while run.action != DictationAction::ReadSamples {
        run.advance(answer(run.action));
    }
    run.advance(DictationEvent::Samples { count: 0, sample_rate: 16_000 });
    assert_eq!(
        run.error.as_deref(),
        Some("no audio captured (0 samples) — hold longer or check mic")
    );
}

#[test]
fn nothing_is_delivered_unasked() {
    let quiet = DictationSettings { auto_insert: false, ..settings() };
    let (run, actions) = run(quiet, &[]);
    for action in
        [DictationAction::Insert, DictationAction::CopyOnly, DictationAction::CopyAfterFailure]
    {
        assert!(!actions.contains(&action));
    }
    assert_eq!(run.outcome, InsertionOutcome::NotRequested);
    assert_eq!(run.result().unwrap().text, "你好。");
}

#[test]
fn a_text_that_cannot_be_inserted_is_copied() {
    let (copied, actions) = run(settings(), &[DictationAction::Insert]);
    assert!(actions.contains(&DictationAction::CopyAfterFailure));
    assert_eq!(copied.outcome, InsertionOutcome::Copied);
    assert_eq!(copied.result().unwrap().insert_notice.as_deref(), Some("已复制"));

    let (lost, _) =
        run(settings(), &[DictationAction::Insert, DictationAction::CopyAfterFailure]);
    assert_eq!(lost.outcome, InsertionOutcome::Failed);
    assert!(lost.result().unwrap().insert_notice.unwrap().contains("历史记录"));
    assert_eq!(lost.issues.len(), 2);

    let denied = DictationSettings { insert_available: false, ..settings() };
    let (copied, _) = run(denied, &[]);
    assert_eq!(copied.strategy, InsertStrategy::CopyOnly);
    assert!(copied.target_cleared);
    assert!(copied.notice.unwrap().contains("辅助功能"));
}

#[test]
fn a_run_that_fails_clears_its_target() {
    for action in [DictationAction::StopCapture, DictationAction::Recognize, DictationAction::Correct]
    {
        let (run, _) = run(settings(), &[action]);
        assert!(run.target_cleared, "{action:?}");
        let session = run.recorded_session();
        assert_eq!((session.completed, session.asr_raw, session.pasted), (false, None, None));
        assert_eq!(run.result().unwrap_err(), "broken");
    }
    assert!(!run(settings(), &[]).0.target_cleared);
    let (stored, _) = run(settings(), &[DictationAction::Persist]);
    assert_eq!(stored.result().unwrap_err(), "broken");
}

#[test]
fn edits_are_watched_only_where_asked() {
    let unwatched = DictationSettings { post_paste_capture: false, ..settings() };
    let (run, actions) = run(unwatched, &[]);
    assert!(actions.contains(&DictationAction::ForgetPane));
    assert!(!run.observing);
    assert!(!run.result().unwrap().watch_post_paste);
}

#[test]
fn a_notice_gives_way_to_a_session() {
    let mut ui = DictationUi::new();
    let epoch = ui.show_transient_background_notice().unwrap();
    assert!(ui.notice_is_over(epoch));
    assert!(ui.dictation_start_with_intent(&IntentSpec::Default, 1_000));
    assert!(!ui.notice_is_over(epoch));
    assert_eq!(ui.show_transient_background_notice(), None);
}

#[test]
fn a_session_runs_from_start_to_end() {
    let mut ui = DictationUi::new();
    assert_eq!(ui.toggle_dictation(), ToggleAction::Start);
    assert!(ui.dictation_start_with_intent(&IntentSpec::Raw, 1_000));
    assert!(!ui.dictation_start_with_intent(&IntentSpec::Raw, 1_001));
    assert_eq!(ui.toggle_dictation(), ToggleAction::Stop);
    assert!(ui.may_publish_listening(true));
    assert!(ui.dictation_stop());
    assert_eq!(ui.settle_stop(2_000, true), StopVerdict::Process);
    assert!(matches!(ui.take_session_intent(), IntentSpec::Raw));
    assert_eq!(ui.toggle_dictation(), ToggleAction::Ignore);
    assert_eq!(ui.settle_session(true, None, false), SessionEnd::Done);
    assert_eq!(ui.phase, Phase::Idle);
}

#[test]
fn a_stop_right_after_the_start_is_a_bounce() {
    let mut ui = DictationUi::new();
    ui.dictation_start_with_intent(&IntentSpec::Default, 1_000);
    assert!(ui.dictation_stop());
    assert_eq!(ui.settle_stop(1_010, false), StopVerdict::Bounce);
    let mut ui = DictationUi::new();
    ui.dictation_start_with_intent(&IntentSpec::Default, 1_000);
    ui.dictation_stop();
    assert_eq!(ui.settle_stop(9_000, false), StopVerdict::NotRecording);
    assert!(matches!(ui.settle_session(false, None, false), SessionEnd::Error { .. }));
}

#[test]
fn a_copied_text_holds_the_capsule() {
    let mut ui = DictationUi::new();
    ui.dictation_start_with_intent(&IntentSpec::Default, 0);
    ui.dictation_stop();
    ui.settle_stop(5_000, true);
    match ui.settle_session(true, Some("已复制"), false) {
        SessionEnd::Fallback { epoch, hold_secs } => {
            assert_eq!(hold_secs, 2);
            assert!(ui.notice_is_over(epoch));
        }
        other => panic!("{other:?}"),
    }
}

#[test]
fn a_search_that_comes_too_late_is_not_taken() {
    let mut panes: PaneTargetState<&str> = PaneTargetState::new();
    let (first, _) = panes.begin(1_000);
    let (second, _) = panes.begin(2_000);
    assert!(!panes.discovered(first, Some("old")));
    assert!(panes.discovered(second, Some("new")));
    assert_eq!(panes.take_discovered_pane_target().0, Some("new"));
    assert!(!panes.discovered(second, Some("newer")));
    let (third, _) = panes.begin(3_000);
    panes.cancel_pane_target_discovery();
    assert!(!panes.discovered(third, Some("late")));
}

#[test]
fn the_target_keeps_its_caret_where_it_is_in_front() {
    assert!(!must_restore_target(Some(false)));
    assert!(must_restore_target(Some(true)));
    assert!(must_restore_target(None));
    assert!(observes_panes(&InjectConfig::default(), &LearningConfig::default()));
}

fn prior(id: u128, context: bool, sources: &[&str]) -> PriorAttempt {
    let reference = ContextInputRef {
        capture_id: id,
        revision: 1,
        snapshot_hash: String::new(),
        context_schema_version: 1,
        capture_profile: "visible".into(),
        source_presence_bitmap: 1,
        source_status_summary: "complete".into(),
    };
    let shown = ContextStageUsage {
        stage: PipelineStage::Corrector,
        sources: sources.iter().map(|s| s.to_string()).collect(),
        projection_path: Some("/p".into()),
        sent: true,
        ..usage()
    };
    PriorAttempt { id, context: context.then_some(reference), usages: vec![usage(), shown] }
}

fn recognized(run: &mut RetryRun) {
    run.advance(RetryEvent::Audio {
        audio: RetryAudio::Read { samples: 48_000 },
        sample_rate: 48_000,
    });
    assert_eq!(run.action, RetryAction::Resample);
    run.advance(RetryEvent::Resampled { samples: 16_000 });
    assert_eq!(run.duration_ms, 1_000);
    assert_eq!(run.text_to_correct(), None);
    run.advance(RetryEvent::Recognized {
        text: "一".into(),
        enhanced: "壹".into(),
        engine: "qwen".into(),
    });
    assert_eq!(run.action, RetryAction::Correct);
    assert_eq!(run.text_to_correct(), Some("壹"));
}

#[test]
fn a_session_is_transcribed_again_with_the_context_it_had() {
    let priors = vec![
        prior(1, true, &["personal_dictionary"]),
        prior(2, false, &["target"]),
        prior(3, true, &["target"]),
        prior(4, true, &["target"]),
    ];
    let mut run = RetryRun::new("local_qwen", EngineKind::Qwen, priors, usage());
    assert_eq!(run.action, RetryAction::OpenContext { prior: 2, usage: 1 });
    run.advance(RetryEvent::Opened(false));
    assert_eq!(run.action, RetryAction::OpenContext { prior: 3, usage: 1 });
    run.advance(RetryEvent::Opened(true));
    assert_eq!(run.context, Some(3));
    assert!(run.usage.captured);
    recognized(&mut run);
    run.advance(RetryEvent::Corrected {
        text: "二".into(),
        engine: "ollama".into(),
        model_applied: true,
        fallback: None,
    });
    assert_eq!(run.action, RetryAction::PersistResult);
    let session = run.retried_session().unwrap();
    assert_eq!((session.asr_raw.as_str(), session.pasted.as_str()), ("一", "二"));
    run.advance(RetryEvent::Done);
    assert_eq!(run.action, RetryAction::End);
    assert_eq!(run.result().unwrap().corrected_text, "二");
}

#[test]
fn a_retry_that_fails_keeps_the_session() {
    let start = || {
        RetryRun::new("local_qwen", EngineKind::Qwen, vec![prior(1, true, &["personal_dictionary"])], usage())
    };
    for (audio, error) in [
        (RetryAudio::NoPath, "此会话没有音频，无法重新转写"),
        (RetryAudio::Unreadable("bad wav".into()), "bad wav"),
        (RetryAudio::Read { samples: 0 }, "音频为空"),
    ] {
        let mut run = start();
        assert_eq!(run.action, RetryAction::ReadAudio);
        assert_eq!(run.context, Some(0));
        run.advance(RetryEvent::Audio { audio, sample_rate: 16_000 });
        assert_eq!(run.failed_stage, Some(PipelineStage::Preprocess));
        assert_eq!(run.action, RetryAction::PersistFailure);
        run.advance(RetryEvent::Failed("disk".into()));
        assert_eq!(run.result().unwrap_err(), error);
        assert_eq!(run.retried_session(), None);
    }
    let mut run = start();
    recognized(&mut run);
    run.advance(RetryEvent::Failed("corrector".into()));
    assert_eq!(run.action, RetryAction::End);
    assert_eq!(run.result().unwrap_err(), "corrector");
}
