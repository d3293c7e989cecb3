use lumen_asr_desktop::config::{AsrServiceConfig, AudioConfig, ContextCaptureConfig};
use lumen_asr_desktop::context_manifest::SourceState;
use lumen_asr_desktop::context_recorder::{
    capture_hint, check_database, no_projection_storage, temporary_path, uncaptured_ref,
    uncaptured_usage, ContextRecorder, DatabaseState,
};
use lumen_asr_desktop::context_records::{
    check_projection_hash, context_ref, local_key, parse_profile, plan_artifact, plan_manifest,
    plan_projection_load, plan_stage_usage, profile_name, sealer_choice, settle_projection_load,
    snapshot_record,
    source_presence_bitmap, sources_for_profile, stage_usage_source_key, unavailable_record,
    CaptureOrigin, CaptureProfile, SealerSource, SnapshotFacts, SourceKind, StageUsageInput,
};
use lumen_asr_desktop::dictation_retry::{
    check_session_audio, needs_resampling, parse_session_id, session_audio_path, SessionLookup,
};
use lumen_asr_desktop::edit_learning_runtime::FrontmostTarget;
use lumen_asr_desktop::engine::EngineKind;
use lumen_asr_desktop::paths;
use lumen_asr_desktop::pipeline::PipelineStage;
use lumen_asr_desktop::platform::Platform;
use lumen_asr_desktop::runtime::{
    configure_windows_models_root, initial_device, initial_engine, probe_step,
    qwen_engine_from_config, whisper_dir, ProbeEvent, ProbeStep, QwenRuntimeStatus,
};
use lumen_asr_desktop::session_artifacts::{
    delete_session_with_artifacts, plan_removal, settle_removal, Artifact, ContextArtifact,
    Deletion, PurgeAction, PurgeEvent, SessionArtifactPaths, SilentPurge,
};

fn input<'a>(sources: &[&str], projection: Option<&'a [u8]>) -> StageUsageInput<'a> {
    StageUsageInput {
        capture_id: Some(7),
        attempt_id: 9,
        stage: PipelineStage::Corrector,
        sources: sources.iter().map(|s| s.to_string()).collect(),
        projection,
        captured: true,
        selected: true,
        consumed: true,
        sent: true,
        not_used_reason: None,
    }
}

#[test]
fn stage_usage_preserves_the_exact_serialized_projection() {
    let projection = br#"{"terms":["Codex"],"replacements":[]}"#;
    let dictionary = input(&["personal_dictionary"], Some(projection));
    let plan = plan_stage_usage("/ctx", true, dictionary).unwrap();
    let (usage, seal) = (plan.usage, plan.seal.unwrap());
    assert!(usage.sent);
    assert_eq!(
        usage.projection_hash.as_deref(),
        Some(blake3::hash(projection).to_hex().as_str())
    );
    let aad = format!(
        "lumen-context:v1:{}:attempt:{}:stage:corrector:sources:{}",
        uuid::Uuid::from_u128(7),
        uuid::Uuid::from_u128(9),
        stage_usage_source_key(&vec!["personal_dictionary".into()])
    );
    assert_eq!(seal.binding, aad);
    assert_eq!(plan_projection_load(true, Some(7), 9, &usage).unwrap(), seal);
    assert_eq!(settle_projection_load(Ok(projection.to_vec()), &usage).unwrap(), projection);

    let captured_context = br#"{"target":{"app_name":"TextEdit"}}"#;
    let context = input(&["target", "editor_ax"], Some(captured_context));
    let context_usage = plan_stage_usage("/ctx", true, context).unwrap().usage;
    assert_ne!(usage.projection_path, context_usage.projection_path);
}

#[test]
fn a_projection_is_sealed_and_found_under_its_ids() {
    let projection = "{\"target\":\"文\"}".as_bytes();
    let plan = plan_stage_usage("/ctx", true, input(&["editor_ax", "target"], Some(projection)))
        .unwrap();
    let key = &blake3::hash("editor_ax\u{1f}target".as_bytes()).to_hex().to_string()[..16];
    let capture = uuid::Uuid::from_u128(7);
    let attempt = uuid::Uuid::from_u128(9);
    let seal = plan.seal.unwrap();
    assert_eq!(seal.path, format!("/ctx/{capture}/usage/{attempt}/corrector-{key}.sealed.json"));
    assert_eq!(
        seal.binding,
        format!("lumen-context:v1:{capture}:attempt:{attempt}:stage:corrector:sources:{key}")
    );
    let usage = plan.usage;
    assert_eq!(usage.projection_path.as_deref(), Some(seal.path.as_str()));
    assert_eq!(
        usage.projection_hash.as_deref(),
        Some(blake3::hash(projection).to_hex().to_string().as_str())
    );
    assert_eq!(usage.projection_chars, 14);

    let load = plan_projection_load(true, Some(7), 9, &usage).unwrap();
    assert_eq!(load, seal);
    for (capture, attempt) in [(Some(8), 9), (Some(7), 10), (None, 9)] {
        let other = plan_projection_load(true, capture, attempt, &usage).unwrap();
        assert_ne!(other.binding, seal.binding, "{capture:?} {attempt}");
    }
    assert!(check_projection_hash(projection, &usage).is_ok());
    assert_eq!(
        settle_projection_load(Ok(b"other".to_vec()), &usage).unwrap_err(),
        "stage projection hash mismatch"
    );
    assert_eq!(settle_projection_load(Err("sealed".into()), &usage).unwrap_err(), "sealed");
    assert_eq!(
        check_projection_hash(b"other", &usage).unwrap_err(),
        "stage projection hash mismatch"
    );
    assert_eq!(
        plan_projection_load(false, Some(7), 9, &usage).unwrap_err(),
        "context projection encryption unavailable"
    );
}

#[test]
fn a_stage_that_was_offered_nothing_is_recorded_without_a_projection() {
    let plan = plan_stage_usage("/ctx", false, input(&["target"], None)).unwrap();
    assert!(plan.seal.is_none());
    assert_eq!(plan.usage.projection_hash, None);
    assert_eq!(
        plan_projection_load(true, None, 9, &plan.usage).unwrap_err(),
        "stage projection path unavailable"
    );
    assert_eq!(
        plan_stage_usage("/ctx", false, input(&["target"], Some(b"x"))).unwrap_err(),
        "context projection encryption unavailable"
    );
    let mut unlinked = input(&["a"], Some(b"\xff\xfe"));
    unlinked.capture_id = None;
    let plan = plan_stage_usage("/ctx", true, unlinked).unwrap();
    assert!(plan.usage.projection_path.unwrap().starts_with("/ctx/unlinked/usage/"));
    assert_eq!(
        plan.usage.projection_chars as usize,
        String::from_utf8_lossy(b"\xff\xfe").chars().count()
    );
}

#[test]
fn the_key_is_of_the_set_of_sources() {
    let key = |sources: &[&str]| {
        stage_usage_source_key(&sources.iter().map(|s| s.to_string()).collect())
    };
    assert_eq!(key(&["b", "a"]), key(&["a", "b", "a"]));
    assert_ne!(key(&["a", "b"]), key(&["a"]));
    assert_eq!(key(&["a", "b"]).len(), 16);
}

#[test]
fn profiles_are_read_back() {
    for profile in [
        CaptureProfile::Metadata,
        CaptureProfile::Editor,
        CaptureProfile::Visible,
        CaptureProfile::Vision,
        CaptureProfile::FullLocal,
    ] {
        let name = profile_name(profile);
        assert!(!name.is_empty());
        if matches!(profile, CaptureProfile::Metadata | CaptureProfile::Editor) {
            assert_eq!(parse_profile(name), profile);
        }
    }
    assert_eq!(parse_profile("anything"), CaptureProfile::Visible);
    assert_eq!(sources_for_profile(CaptureProfile::Metadata), [SourceKind::Target]);
    let bits = source_presence_bitmap(&vec![
        Some(SourceState::Succeeded),
        None,
        Some(SourceState::Denied),
        Some(SourceState::Empty),
    ]);
    assert_eq!(bits & 1, 1);
    assert_eq!(bits & 0b110, 0);
}

fn origin() -> CaptureOrigin {
    CaptureOrigin {
        capture_id: 7,
        session_id: 8,
        profile: CaptureProfile::Visible,
        target_generation: 3,
        started_at: 1_000,
    }
}

#[test]
fn unavailable_capture_is_still_auditable() {
    let config = ContextCaptureConfig { enabled: false, ..ContextCaptureConfig::default() };
    let mut recorder =
        ContextRecorder::new(&config, false, Some("test unavailable".into()), None);
    let session_id = recorder.begin(8, 7, 1_000, false);
    let active = recorder.take_active().unwrap();
    let record =
        unavailable_record(active.origin(), active.unavailable_reason.as_ref(), 2_000).unwrap();
    let input_ref = context_ref(&record);
    assert_eq!(input_ref.source_status_summary, "unavailable");
    assert_eq!(record.session_id, session_id);
    assert_eq!(record.status, "unavailable");
    assert!(record.source_status_json.contains("disabled"));
}

#[test]
fn an_unavailable_capture_is_recorded_with_its_reason() {
    let reason = "say \"why\"".to_string();
    let record = unavailable_record(origin(), Some(&reason), 2_000).unwrap();
    let value: serde_json::Value = serde_json::from_str(&record.source_status_json).unwrap();
    assert_eq!(value["capture"]["state"], "unavailable");
    assert_eq!(value["capture"]["reason"], reason.as_str());
    assert_eq!(
        record.sanitized_hash,
        blake3::hash(record.source_status_json.as_bytes()).to_hex().to_string()
    );
    assert_eq!(record.manifest_path, "");
    assert_eq!(record.status, "unavailable");
    assert_eq!(record.completed_at, Some(2_000));
    let reference = context_ref(&record);
    assert_eq!(reference.snapshot_hash, record.sanitized_hash);
    assert_eq!(reference.capture_profile, "visible");
    assert_eq!(reference.source_status_summary, "unavailable");
}

#[test]
fn a_snapshot_is_complete_once_every_source_has_ended() {
    let facts = |terminal| SnapshotFacts {
        revision: 2,
        schema_version: 1,
        frozen_at: 5_000,
        terminal,
        states: vec![],
        status_json: "{}".into(),
        manifest_path: "/m".into(),
    };
    let complete = snapshot_record(origin(), facts(true), b"json", "none");
    assert_eq!(complete.status, "complete");
    assert_eq!(complete.completed_at, Some(5_000));
    assert_eq!(complete.sanitized_hash, blake3::hash(b"json").to_hex().to_string());
    let partial = snapshot_record(origin(), facts(false), b"json", "none");
    assert_eq!(partial.status, "partial");
    assert_eq!(partial.completed_at, None);
    let plan = plan_manifest("/ctx", "cap", 2, 1);
    assert_eq!(plan.path, "/ctx/cap/manifest.r0002.v1.sealed.json");
    assert_eq!(plan.binding, "lumen-context:v1:cap:manifest:2");
    let plan = plan_artifact("/ctx", "cap", 12, "art");
    assert_eq!(plan.path, "/ctx/cap/artifact.r0012-art.sealed.json");
    assert_eq!(plan.binding, "lumen-context:v1:cap:artifact:art");
}

#[test]
fn captures_are_sealed_with_the_key_that_is_there() {
    let error = "locked".to_string();
    assert_eq!(sealer_choice(None, None).0, SealerSource::Keychain);
    assert_eq!(sealer_choice(Some(&error), None).0, SealerSource::LocalKeyFile);
    let (source, _, why) = sealer_choice(Some(&error), Some(&error));
    assert_eq!(source, SealerSource::Missing);
    assert!(why.unwrap().contains("locked"));
    assert!(local_key(vec![1; 32]).is_ok());
    assert!(local_key(vec![1; 31]).is_err());
}

#[test]
fn a_capture_is_handed_over_once() {
    let mut recorder = ContextRecorder::new(&ContextCaptureConfig::default(), true, None, None);
    let request = recorder.request().unwrap();
    assert_eq!(request.target_generation, 1);
    assert_eq!(recorder.begin(8, 7, 1_000, true), 8);
    let active = recorder.take_active().unwrap();
    assert_eq!(active.unavailable_reason, None);
    assert_eq!(active.origin(), CaptureOrigin { target_generation: 1, ..origin() });
    assert_eq!(recorder.take_active(), None);
    recorder.begin(9, 10, 1_000, false);
    assert_eq!(
        recorder.active.as_ref().unwrap().unavailable_reason.as_deref(),
        Some("context_capture_start_failed")
    );
    assert_eq!(recorder.generation, 2);
    recorder.clear_active();
    assert_eq!(recorder.active, None);
}

#[test]
fn a_recorder_says_why_it_cannot_capture() {
    let config = ContextCaptureConfig::default();
    let mut sealed = ContextRecorder::new(&config, false, Some("no key".into()), None);
    assert_eq!(sealed.request(), None);
    sealed.begin(1, 2, 0, false);
    assert_eq!(sealed.active.unwrap().unavailable_reason.as_deref(), Some("no key"));
    let off = ContextCaptureConfig { enabled: false, ..ContextCaptureConfig::default() };
    let mut off = ContextRecorder::new(&off, true, None, None);
    off.begin(1, 2, 0, false);
    assert_eq!(
        off.active.unwrap().unavailable_reason.as_deref(),
        Some("context_capture_disabled")
    );
    let collector = ContextRecorder::new(&config, true, None, Some("no display".into()));
    assert!(!collector.collector_ready);
    assert_eq!(collector.initialization_error.as_deref(), Some("no display"));
}

#[test]
fn nothing_is_disclosed_where_nothing_can_be_stored() {
    assert_eq!(
        uncaptured_usage(input(&["a"], Some(b"x"))).unwrap_err(),
        "Windows context projection storage is unavailable; input was not disclosed"
    );
    let usage = uncaptured_usage(input(&["a"], None)).unwrap();
    assert_eq!(
        usage.not_used_reason.as_deref(),
        Some("context_capture_unsupported_on_windows")
    );
    assert_eq!(uncaptured_ref(7).capture_profile, "disabled");
    assert_eq!(no_projection_storage(), "Windows context projection storage is unavailable");
    assert!(check_database(DatabaseState::Open).is_ok());
    assert_eq!(
        check_database(DatabaseState::Missing).unwrap_err(),
        "database unavailable while saving context"
    );
    assert_eq!(
        check_database(DatabaseState::Poisoned).unwrap_err(),
        "store lock poisoned while saving context"
    );
    let target = FrontmostTarget {
        name: Some("Safari".into()),
        bundle_id: None,
        process_id: Some(1),
    };
    let hint = capture_hint(Some(&target)).unwrap();
    assert_eq!(hint.app_name.as_deref(), Some("Safari"));
    assert_eq!(hint.window_title, None);
    assert_eq!(capture_hint(None), None);
}

#[test]
fn paths_are_taken_apart_as_the_standard_library_does() {
    for path in [
        "/a/b.c", "/a/b", "a", "a.b", ".hidden", "a.", "/", "", "a/", "a//b//", "/a/./b/.", "..",
        "a/..", "/a/b.tar.gz", "./x", "a/.b", "//a", "a/.", "a/./", "a.b/c",
    ] {
        let std_path = std::path::Path::new(path);
        let name = std_path.file_name().map(|s| s.to_string_lossy().into_owned());
        let extension = std_path.extension().map(|s| s.to_string_lossy().into_owned());
        let stem = std_path.file_stem().map(|s| s.to_string_lossy().into_owned());
        assert_eq!(paths::file_name(path, Platform::MacOs), name, "{path:?}");
        assert_eq!(paths::extension(path, Platform::MacOs), extension, "{path:?}");
        assert_eq!(paths::file_stem(path, Platform::MacOs), stem, "{path:?}");
        assert_eq!(
            paths::parent(path, Platform::MacOs),
            std_path.parent().map(|p| p.display().to_string()),
            "{path:?}"
        );
        assert_eq!(
            paths::with_extension(path, "x.y", Platform::MacOs),
            std_path.with_extension("x.y").display().to_string(),
            "{path:?}"
        );
        for rest in ["c", "/c", "c/d", ""] {
            assert_eq!(
                paths::joined(path, rest, Platform::MacOs),
                std_path.join(rest).display().to_string(),
                "{path:?} {rest:?}"
            );
        }
    }
    assert_eq!(paths::display_path("a/b", Platform::Windows), "a\\b");
    assert_eq!(paths::display_path("a/b", Platform::MacOs), "a/b");
}

#[test]
fn windows_paths_have_drives_shares_and_two_separators() {
    let win = Platform::Windows;
    for (path, name, stem, extension, parent) in [
        ("C:\\a\\b.c", Some("b.c"), Some("b"), Some("c"), Some("C:\\a")),
        ("C:/a\\b", Some("b"), Some("b"), None, Some("C:/a")),
        ("C:\\b.c", Some("b.c"), Some("b"), Some("c"), Some("C:\\")),
        ("C:b.c", Some("b.c"), Some("b"), Some("c"), Some("C:")),
        ("C:\\", None, None, None, None),
        ("C:", None, None, None, None),
        ("\\\\nas\\music\\a.m4a", Some("a.m4a"), Some("a"), Some("m4a"), Some("\\\\nas\\music\\")),
        ("\\\\nas\\music", None, None, None, None),
        ("a\\.\\b\\.", Some("b"), Some("b"), None, Some("a")),
        ("a\\..", None, None, None, Some("a")),
        ("1:\\b", Some("b"), Some("b"), None, Some("1:")),
        ("C:.", None, None, None, None),
        ("C:.\\x", Some("x"), Some("x"), None, Some("C:.")),
        ("\\\\.\\COM1", None, None, None, None),
        ("\\\\?\\C:\\a/b.txt", Some("a/b.txt"), Some("a/b"), Some("txt"), Some("\\\\?\\C:\\")),
        ("\\\\?\\C:\\a\\b.c\\", Some("b.c"), Some("b"), Some("c"), Some("\\\\?\\C:\\a")),
        ("\\\\?\\C:\\a\\.", None, None, None, Some("\\\\?\\C:\\a")),
        ("\\\\?\\C:", None, None, None, None),
        ("\\\\?\\UNC\\s\\t", None, None, None, None),
        ("\\\\?\\UNC\\s\\t\\u.v", Some("u.v"), Some("u"), Some("v"), Some("\\\\?\\UNC\\s\\t\\")),
        ("\\\\?\\pictures\\a", Some("a"), Some("a"), None, Some("\\\\?\\pictures\\")),
        ("//?/C:/a/b", Some("b"), Some("b"), None, Some("//?/C:/a")),
    ] {
        assert_eq!(paths::file_name(path, win).as_deref(), name, "{path:?}");
        assert_eq!(paths::file_stem(path, win).as_deref(), stem, "{path:?}");
        assert_eq!(paths::extension(path, win).as_deref(), extension, "{path:?}");
        assert_eq!(paths::parent(path, win).as_deref(), parent, "{path:?}");
    }
    assert_eq!(paths::with_extension("C:\\a.b\\c.d", "e", win), "C:\\a.b\\c.e");
    assert_eq!(paths::joined("C:\\a", "b", win), "C:\\a\\b");
    assert_eq!(paths::joined("C:\\a/", "b", win), "C:\\a/b");
    assert_eq!(paths::joined("C:", "b", win), "C:b");
    assert_eq!(paths::joined("C:\\a", "\\b", win), "C:\\b");
    assert_eq!(paths::joined("C:\\a", "D:b", win), "D:b");
    assert_eq!(paths::joined("\\\\s\\t\\a", "/b", win), "\\\\s\\t/b");
    assert_eq!(paths::joined("\\\\?\\C:\\a", "b/./c", win), "\\\\?\\C:\\a\\b\\c");
    assert_eq!(paths::joined("\\\\?\\C:\\a\\b", "..\\c", win), "\\\\?\\C:\\a\\c");
    assert_eq!(paths::joined("\\\\?\\C:\\a", "/b", win), "\\\\?\\C:\\b");
    assert_eq!(paths::joined("\\\\?\\C:\\a", "../..", win), "\\\\?\\C:\\");
    assert_eq!(paths::joined("\\\\?\\C:", "b", win), "\\\\?\\C:\\b");
    assert_eq!(paths::joined("\\\\?\\C:\\a", "", win), "\\\\?\\C:\\a\\");
    assert_eq!(paths::file_name("a\\b", Platform::MacOs).as_deref(), Some("a\\b"));
}

#[test]
fn files_are_written_beside_their_place() {
    let nonce = 0x11111111_2222_3333_4444_555555555555_u128;
    assert_eq!(
        temporary_path("/ctx/manifest.sealed.json", nonce, Platform::MacOs),
        "/ctx/manifest.sealed.json.tmp-11111111-2222-3333-4444-555555555555"
    );
    assert_eq!(
        temporary_path("/ctx/key", nonce, Platform::MacOs),
        "/ctx/key.data.tmp-11111111-2222-3333-4444-555555555555"
    );
    assert_eq!(
        temporary_path("C:\\c.t\\key", nonce, Platform::Windows),
        "C:\\c.t\\key.data.tmp-11111111-2222-3333-4444-555555555555"
    );
    let id = 0x0123_4567_89ab_cdef_fedc_ba98_7654_3210_u128;
    assert_eq!(
        temporary_path("k.j", id, Platform::MacOs),
        format!("k.j.tmp-{}", uuid::Uuid::from_u128(id))
    );
}

fn artifacts() -> SessionArtifactPaths {
    let context = |capture_id, path: &str| ContextArtifact { capture_id, manifest_path: path.into() };
    SessionArtifactPaths {
        session_id: 1,
        audio_path: Some("/d/audio.wav".into()),
        context_artifacts: vec![context(2, "/c/m.json"), context(3, ""), context(4, "/c/n.json")],
    }
}

#[test]
fn a_session_is_removed_with_what_it_owns() {
    let plan = plan_removal(&artifacts());
    assert_eq!(
        plan,
        vec![
            Artifact::Audio { session_id: 1, path: "/d/audio.wav".into() },
            Artifact::Context { capture_id: 2, path: "/c/m.json".into() },
            Artifact::Context { capture_id: 4, path: "/c/n.json".into() },
        ]
    );
    assert!(settle_removal(&plan[0], true, Ok(true), "x").is_ok());
    assert!(settle_removal(&plan[0], false, Ok(false), "x").is_ok());
    assert_eq!(
        settle_removal(&plan[0], true, Ok(false), "\"/d/audio.wav\"").unwrap_err(),
        "refused to remove debug artifact: \"/d/audio.wav\""
    );
    assert_eq!(
        settle_removal(&plan[1], true, Ok(false), "/c/m.json").unwrap_err(),
        "refused to remove context artifact: /c/m.json"
    );
    assert_eq!(
        settle_removal(&plan[1], true, Err("disk".into()), "/c/m.json").unwrap_err(),
        "remove context artifact: disk"
    );
    assert_eq!(
        settle_removal(&plan[0], true, Err("disk".into()), "x").unwrap_err(),
        "remove debug artifact: disk"
    );
}

#[test]
fn explicit_session_deletion_removes_owned_audio_and_context() {
    assert_eq!(delete_session_with_artifacts(Ok(Some(Ok(())))), Deletion::DeleteRow);
    assert_eq!(delete_session_with_artifacts(Ok(None)), Deletion::Missing);
    assert_eq!(
        delete_session_with_artifacts(Ok(Some(Err("refused".into())))),
        Deletion::Failed("refused".into())
    );
    assert_eq!(
        delete_session_with_artifacts(Err("locked".into())),
        Deletion::Failed("locked".into())
    );
}

#[test]
fn legacy_silence_purge_deletes_artifacts_and_retries_refused_paths() {
    let mut purge = SilentPurge::new();
    assert_eq!(purge.next, PurgeAction::List);
    purge.advance(PurgeEvent::Listed { last: Some("c".into()), sessions: vec![1, 2, 3] });
    assert_eq!(purge.after, "c");
    assert_eq!(purge.next, PurgeAction::RemoveFiles);
    purge.advance(PurgeEvent::FilesRemoved { gone: vec![true, true, false] });
    assert_eq!(purge.next, PurgeAction::DeleteRows);
    assert_eq!(purge.sessions, [1, 2]);
    purge.advance(PurgeEvent::RowsDeleted { count: Some(2) });
    assert_eq!(purge.purged, 2);
    purge.advance(PurgeEvent::Listed { last: Some("d".into()), sessions: vec![4] });
    purge.advance(PurgeEvent::FilesRemoved { gone: vec![false] });
    assert_eq!(purge.next, PurgeAction::List);
    purge.advance(PurgeEvent::Listed { last: None, sessions: vec![] });
    assert_eq!(purge.next, PurgeAction::Report);
    let mut stopped = SilentPurge::new();
    stopped.advance(PurgeEvent::Unavailable);
    assert_eq!(stopped.next, PurgeAction::Stop);
}

#[test]
fn qwen_runtime_probe_handles_success_failure_missing_and_timeout() {
    assert_eq!(
        probe_step(ProbeEvent::Exited { success: true }),
        ProbeStep::Done { available: true }
    );
    assert_eq!(
        probe_step(ProbeEvent::Exited { success: false }),
        ProbeStep::Done { available: false }
    );
    assert_eq!(probe_step(ProbeEvent::NotStarted), ProbeStep::Done { available: false });
    assert_eq!(probe_step(ProbeEvent::Running { overdue: false }), ProbeStep::Wait);
    assert_eq!(probe_step(ProbeEvent::Running { overdue: true }), ProbeStep::Kill);
    assert_eq!(probe_step(ProbeEvent::Lost), ProbeStep::Kill);
}

#[test]
fn a_check_that_is_out_of_date_counts_for_nothing() {
    let mut status = QwenRuntimeStatus::new("python3".into());
    let first = status.begin_check("python3", true);
    let second = status.begin_check("/opt/python3", true);
    status.finish_check(first, "python3", true);
    assert!(!status.ready && status.checking);
    status.finish_check(second, "/opt/python3", true);
    assert!(status.ready && !status.checking);
    status.begin_check("/opt/python3", false);
    assert!(!status.ready && !status.checking);
}

#[test]
fn the_application_starts_with_what_is_set() {
    assert_eq!(initial_engine("qwen"), EngineKind::Qwen);
    assert_eq!(initial_engine("groq"), EngineKind::SenseVoice);
    assert_eq!(whisper_dir("/w".into(), true, "/d".into()), "/w");
    assert_eq!(whisper_dir("/w".into(), false, "/d".into()), "/d");
    let config =
        AsrServiceConfig { language: " ".into(), timeout_secs: 3, ..AsrServiceConfig::default() };
    let engine = qwen_engine_from_config(&config, "/q".into());
    assert_eq!((engine.language, engine.timeout_secs), (None, 30));
    let device = AudioConfig { device_name: Some(String::new()) };
    assert_eq!(initial_device(&device), None);
    let local = "C:\\Data".to_string();
    let blank = " ".to_string();
    assert_eq!(
        configure_windows_models_root(Some(&blank), Some(&local)).unwrap(),
        ["C:\\Data", "Lumen", "models"]
    );
    assert_eq!(configure_windows_models_root(Some(&local), Some(&local)), None);
    assert_eq!(configure_windows_models_root(None, None), None);
}

#[test]
fn a_session_is_transcribed_again_from_its_audio() {
    assert_eq!(
        parse_session_id("11111111-2222-3333-4444-555555555555"),
        Ok(0x11111111_2222_3333_4444_555555555555)
    );
    assert_eq!(
        session_audio_path(SessionLookup::NoDatabase).unwrap_err(),
        "database not available"
    );
    assert_eq!(session_audio_path(SessionLookup::Missing).unwrap_err(), "session not found");
    assert_eq!(
        session_audio_path(SessionLookup::Found(None)).unwrap_err(),
        "此会话没有保存音频"
    );
    assert_eq!(session_audio_path(SessionLookup::Found(Some("/a".into()))).unwrap(), "/a");
    assert_eq!(check_session_audio("/a", false).unwrap_err(), "音频文件不存在: /a");
    assert!(needs_resampling(44_100));
    assert!(!needs_resampling(16_000));
}
