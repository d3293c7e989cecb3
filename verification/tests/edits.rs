use lumen_asr_desktop::config::LearningConfig;
use lumen_asr_desktop::edit_learning_runtime::{
    check_decision, choose_reservation, feedback_is_error, feedback_limit,
    observation_failure_reason, parent_not_ready, screen_text, settle_decision,
    settle_observed_insertion, settle_redaction, target_hint, unobserved_insertion, EngineError,
    FrontmostTarget, ObservedVerdict, RepositoryError, ReservationChoice,
};
use lumen_asr_desktop::learning::{
    dto, edit_source, edit_summary, no_edit, process_edit, promote, save_learning_config,
    Candidate, EditPlan, EditSource, LearnAction, LearnEvent, LearnRun, LearnedEntry,
    LearningConfigInput, ProcessEditInput, Promotion,
};
use lumen_asr_desktop::pipeline::InsertStrategy;

#[test]
fn target_hint_keeps_the_reserved_native_process() {
    let target = FrontmostTarget {
        name: Some("Safari".into()),
        bundle_id: Some("com.apple.Safari".into()),
        process_id: Some(42),
    };

    let hint = target_hint(Some(&target));

    assert_eq!(hint.app_name.as_deref(), Some("Safari"));
    assert_eq!(hint.bundle_id.as_deref(), Some("com.apple.Safari"));
    assert_eq!(hint.process_id, Some(42));
    assert_eq!(target_hint(None).process_id, None);
}

#[test]
fn surface_transition_timeout_has_a_distinct_failure_reason() {
    assert_eq!(
        observation_failure_reason(&EngineError::SurfaceTransitionTimeout),
        "surface_transition_timeout"
    );
}

#[test]
fn learning_dto_preserves_legacy_config_while_engine_owns_retention() {
    let config = LearningConfig {
        auto_promote: true,
        auto_promote_threshold: 3,
        post_paste_capture: true,
        post_paste_seconds: 20,
        ..LearningConfig::default()
    };

    let dto = dto(&config);

    assert!(dto.auto_promote);
    assert_eq!(dto.auto_promote_threshold, 3);
    assert!(dto.post_paste_capture);
    assert_eq!(dto.post_paste_seconds, 20);
}

#[test]
fn inserted_text_stays_where_watching_fails() {
    for error in [
        EngineError::Prepare,
        EngineError::Insert,
        EngineError::Snapshot,
        EngineError::InsertedTextNotFound,
        EngineError::Repository,
        EngineError::SurfaceTransitionTimeout,
    ] {
        let settled = settle_observed_insertion(
            Some((error, "why".into())),
            Some(InsertStrategy::Paste),
        );
        assert!(!matches!(settled, ObservedVerdict::Failed(_)), "{settled:?}");
    }
    assert!(matches!(
        unobserved_insertion(Err("no".into())),
        ObservedVerdict::Failed(error) if error == "no"
    ));
}

#[test]
fn a_pane_comes_before_a_pending_target() {
    let target = FrontmostTarget { name: None, bundle_id: None, process_id: Some(1) };
    assert_eq!(choose_reservation(true, true, Some(&target)), ReservationChoice::Pane);
    assert_eq!(choose_reservation(false, true, Some(&target)), ReservationChoice::Pending);
    assert_eq!(choose_reservation(false, false, Some(&target)), ReservationChoice::Reacquire);
}

#[test]
fn small_decisions_of_edit_learning() {
    assert_eq!(feedback_limit(None), 100);
    assert_eq!(feedback_limit(Some(3)), 3);
    assert!(feedback_is_error("observation_unavailable"));
    assert!(!feedback_is_error("learned"));
    assert!(check_decision("rejected").is_ok());
    assert_eq!(
        check_decision("confirmed").unwrap_err(),
        "only proposal rejection is supported by this command"
    );
    assert!(settle_decision(true).is_ok());
    assert_eq!(
        settle_decision(false).unwrap_err(),
        "proposal is no longer pending for this decision"
    );
    assert!(settle_redaction(true, Err("disk".into())).is_ok());
    assert!(settle_redaction(false, Ok(())).is_ok());
    assert_eq!(
        settle_redaction(false, Err("disk".into())).unwrap_err(),
        "edit-learning evidence redaction failed: disk"
    );
    assert!(matches!(
        parent_not_ready(Err(RepositoryError::Failure("no parent row".into())), "parent"),
        Err(RepositoryError::ParentNotReady)
    ));
    assert!(parent_not_ready(Ok(()), "parent").is_ok());
    assert_eq!(screen_text("one\r\ntwo  \n\nend"), "one\ntwo\n\nend");
}

#[test]
fn settings_of_learning_are_kept_within_bounds() {
    let mut config = LearningConfig::default();
    save_learning_config(
        &mut config,
        LearningConfigInput {
            auto_promote: Some(true),
            auto_promote_threshold: Some(0),
            post_paste_capture: None,
            post_paste_seconds: Some(100_000),
        },
    );
    assert!(config.auto_promote);
    assert_eq!(config.auto_promote_threshold, 2);
    assert!(config.post_paste_capture);
    assert_eq!(config.post_paste_seconds, 120);
}

fn edit(before: &str, after: &str) -> ProcessEditInput {
    ProcessEditInput {
        before_text: before.into(),
        after_text: after.into(),
        session_id: Some("11111111-2222-3333-4444-555555555555".into()),
        source: Some("post_paste_ax".into()),
        record_event: None,
    }
}

#[test]
fn an_edit_that_changes_nothing_teaches_nothing() {
    assert_eq!(process_edit(&edit("same", "same")), EditPlan::Nothing);
    assert_eq!(
        process_edit(&edit("cotex", "Codex")),
        EditPlan::Learn {
            source: EditSource::PostPasteAx,
            session: Some(0x11111111_2222_3333_4444_555555555555),
        }
    );
    let mut unnamed = edit("cotex", "Codex");
    unnamed.session_id = Some("nobody".into());
    assert_eq!(
        process_edit(&unnamed),
        EditPlan::Learn { source: EditSource::PostPasteAx, session: None }
    );
    assert_eq!(edit_source(Some(&"post_paste_pane".into())), EditSource::PostPastePane);
    assert_eq!(edit_source(Some(&"manual".into())), EditSource::Manual);
    assert_eq!(edit_source(None), EditSource::PreInsertUi);
}

#[test]
fn what_is_learned_only_grows() {
    assert_eq!(
        promote(Some(LearnedEntry { hit_count: 9, confirmed: true }), 1, 3),
        Promotion::Known
    );
    match promote(Some(LearnedEntry { hit_count: 1, confirmed: false }), 1, 3) {
        Promotion::Counted(entry) => assert_eq!(entry.hit_count, 2),
        other => panic!("{other:?}"),
    }
    match promote(Some(LearnedEntry { hit_count: 2, confirmed: false }), 1, 3) {
        Promotion::Promoted(entry) => {
            assert_eq!(entry.hit_count, 3);
            assert!(entry.confirmed);
        }
        other => panic!("{other:?}"),
    }
    match promote(Some(LearnedEntry { hit_count: u32::MAX, confirmed: false }), 1, u32::MAX) {
        Promotion::Promoted(entry) => assert_eq!(entry.hit_count, u32::MAX),
        other => panic!("{other:?}"),
    }
    assert_eq!(edit_summary(2, 5), "auto-promoted 2 dictionary entr(y/ies)");
    assert_eq!(edit_summary(0, 0), "edit captured; no dictionary candidates");
    assert_eq!(edit_summary(0, 3), "edit captured; 3 candidate(s) ready to confirm");
}

fn candidate(from: Option<&str>) -> Candidate {
    Candidate {
        replacement: true,
        from_text: from.map(String::from),
        to_text: Some("Codex".into()),
    }
}

#[test]
fn replacements_are_learned_one_after_the_other() {
    let candidates = vec![
        Candidate { replacement: false, ..candidate(Some("a")) },
        candidate(None),
        candidate(Some("cotex")),
        candidate(Some("cortex")),
    ];
    let mut run = LearnRun::new(candidates.clone(), true, 3);
    assert_eq!(run.action, LearnAction::LookUp { at: 2 });
    run.advance(LearnEvent::Found {
        entry: Some(LearnedEntry { hit_count: 2, confirmed: false }),
        identical_edits: 1,
    });
    assert_eq!(
        run.action,
        LearnAction::Write {
            at: 2,
            entry: LearnedEntry { hit_count: 3, confirmed: true },
            promoted: true
        }
    );
    run.advance(LearnEvent::Written);
    assert_eq!(run.promoted, [2]);
    run.advance(LearnEvent::Found {
        entry: Some(LearnedEntry { hit_count: 9, confirmed: true }),
        identical_edits: 1,
    });
    assert_eq!(run.action, LearnAction::Done);
    assert_eq!(run.message(), "auto-promoted 1 dictionary entr(y/ies)");

    let off = LearnRun::new(candidates.clone(), false, 3);
    assert_eq!(off.action, LearnAction::Done);
    assert_eq!(off.message(), "edit captured; 4 candidate(s) ready to confirm");

    let mut failing = LearnRun::new(candidates, true, 3);
    failing.advance(LearnEvent::Failed("disk".into()));
    assert_eq!(failing.action, LearnAction::Failed("disk".into()));
    assert_eq!(no_edit(), "no meaningful edit");
}
