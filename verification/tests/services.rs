use lumen_asr_desktop::asr_models::{
    persist_model_selection, qwen_fallback_reason, shown_candidate, use_existing_asr_model,
    AsrModelCandidate, DownloadGuard, PathFacts, UseAsrModelInput,
};
use lumen_asr_desktop::commands::{
    add_dictionary_replacement, add_dictionary_term, app_health, audit_session,
    check_session_exists, confirm_learn, edit_to_record, save_session, seed_demo_session,
    session_limit, AddReplacementInput, AddTermInput, ConfirmLearnInput, CreateSessionInput,
    EntryText, RecordEditInput,
};
use lumen_asr_desktop::config::{
    AsrServiceConfig, CleanupLevel, CorrectorConfig, FoundModel, OutputConfig,
};
use lumen_asr_desktop::corrector_cmd::{
    blank_outcome, corrected_outcome, default_corrector_config, get_asr_service_config,
    save_asr_service_config, save_corrector_config, save_output_config, status_from,
    AsrServiceInput, CorrectTextInput, CorrectorConfigInput, KnownValues, LlmPreset, OutputNames,
};
use lumen_asr_desktop::corrector_probe::{
    apply_corrector_suggestion, has_qwen, list_failed, list_ollama_models, ollama_base,
    probe_corrector, pull_failed, pull_model, pull_not_started, pull_progress, tags_url,
    ApplyCorrectorSuggestionInput, CorrectorEnvironment, OllamaPullInput,
};
use lumen_asr_desktop::corrector_svc::{
    build_corrector, correct_route, corrector_outcome_identity, dictionary_run_identity,
    engine_label, run_identity, CorrectRoute, CorrectorPlan, DictionaryContext,
};
use lumen_asr_desktop::detection_stats::{DetectionStats, DetectionStatsCounters, StatCounter};
use lumen_asr_desktop::dictation::{AsrPreset, MeetingEngine};
use lumen_asr_desktop::engine::EngineKind;
use lumen_asr_desktop::learning::EditSource;
use lumen_asr_desktop::meeting_apps::{
    catalog_dir, settle_installation, unique_temp_path, validate_catalog, AppClass, BundleId,
    Installation, MeetingAppCatalog, MeetingAppEntry, MeetingAppKind, MeetingAppRegistry,
    CATALOG_VERSION,
};
use lumen_asr_desktop::meeting_asr::{
    after_primary, build_meeting_transcribe_engine, settle_fallback, AfterPrimary, EngineTraits,
    FallbackAsr, MeetingTranscriber,
};
use lumen_asr_desktop::pipeline::InsertStrategy;
use lumen_asr_desktop::platform::Platform;

fn corrector(model: &str) -> CorrectorConfig {
    CorrectorConfig {
        enabled: true,
        provider: "minimax".into(),
        model: model.into(),
        ..CorrectorConfig::default()
    }
}

#[test]
fn run_identity_uses_effective_model_and_stable_prompt_hash() {
    let config = corrector("test-corrector-model");
    let first = run_identity(&config, CleanupLevel::Medium, "prompt", None);
    let second = run_identity(&config, CleanupLevel::Medium, "prompt", None);

    assert_eq!(first.provider, "minimax");
    assert_eq!(first.model.as_deref(), Some("test-corrector-model"));
    assert_eq!(first.prompt_hash, second.prompt_hash);
    assert_eq!(first.prompt_hash_algorithm.as_deref(), Some("blake3"));
    assert!(first.uses_model);
    assert_eq!(
        first.prompt_hash.unwrap(),
        blake3::hash("prompt".as_bytes()).to_hex().to_string()
    );
}

#[test]
fn run_identity_tracks_the_active_asr_cleanup_profile() {
    let config = corrector("test-corrector-model");
    let output = OutputConfig::default();

    let level = output.cleanup_level_for_asr_provider("local_sensevoice");
    let sensevoice = run_identity(&config, level, level.as_str(), None);
    assert!(sensevoice.engine_label.ends_with("|medium"));

    let level = output.cleanup_level_for_asr_provider("local_qwen");
    let qwen = run_identity(&config, level, level.as_str(), None);
    assert!(qwen.engine_label.ends_with("|light"));
    assert_ne!(sensevoice.prompt_hash, qwen.prompt_hash);
}

#[test]
fn disabled_corrector_identity_does_not_claim_a_model() {
    let config = CorrectorConfig { enabled: false, ..CorrectorConfig::default() };
    let identity = run_identity(&config, CleanupLevel::Medium, "prompt", None);

    assert_eq!(identity.provider, "none");
    assert_eq!(identity.model, None);
    assert_eq!(identity.prompt_hash, None);
    assert!(!identity.uses_model);
}

#[test]
fn raw_intent_identity_is_cleanup_only_not_fallback() {
    let config = corrector("test-corrector-model");
    let identity = run_identity(&config, CleanupLevel::Off, "", None);
    let outcome = corrector_outcome_identity(&identity, false);

    assert_eq!(identity.provider, "none");
    assert_eq!(identity.engine_label, "cleanup:none");
    assert_eq!(outcome.engine, "cleanup:none");
    assert!(!outcome.fallback);
}

#[test]
fn configured_model_failure_is_the_only_fallback() {
    let config = corrector("test-corrector-model");
    let identity = run_identity(&config, CleanupLevel::Medium, "prompt", None);
    let success = corrector_outcome_identity(&identity, true);
    let fallback = corrector_outcome_identity(&identity, false);

    assert_eq!(success.engine, identity.engine_label);
    assert!(!success.fallback);
    assert_eq!(fallback.engine, format!("{}:fallback", identity.engine_label));
    assert!(fallback.fallback);
}

#[test]
fn engine_label_uses_the_model_that_will_run() {
    let config = corrector("");
    let preset = "MiniMax-M3".to_string();

    assert!(engine_label(&config, CleanupLevel::Medium, Some(&preset)).contains("MiniMax-M3"));
}

fn dictionary(from: &str, to: &str) -> DictionaryContext {
    DictionaryContext { terms: vec![], replacements: vec![(from.into(), to.into())] }
}

#[test]
fn dictionary_identity_changes_with_effective_context_not_entry_metadata() {
    let first_identity = dictionary_run_identity(&dictionary("cotex", "Codex"));
    let same_identity = dictionary_run_identity(&dictionary("cotex", "Codex"));
    let changed_identity = dictionary_run_identity(&dictionary("cortex", "Codex"));

    assert_eq!(first_identity, same_identity);
    assert_ne!(first_identity.hash, changed_identity.hash);
    assert_eq!(first_identity.term_count, 0);
    assert_eq!(first_identity.replacement_count, 1);
}

#[test]
fn terms_and_replacements_do_not_run_together() {
    let term = |terms: &[&str]| DictionaryContext {
        terms: terms.iter().map(|t| t.to_string()).collect(),
        replacements: vec![],
    };
    let hashes: Vec<String> = [
        term(&["ab", "c"]),
        term(&["a", "bc"]),
        term(&["abc"]),
        dictionary("ab", "c"),
        dictionary("a", "bc"),
    ]
    .iter()
    .map(|context| dictionary_run_identity(context).hash)
    .collect();
    for i in 0..hashes.len() {
        for j in 0..i {
            assert_ne!(hashes[i], hashes[j]);
        }
    }
}

#[test]
fn corrector_build_failure_returns_a_sanitized_fallback_category() {
    let config = CorrectorConfig {
        enabled: true,
        provider: "missing-preset".into(),
        base_url: String::new(),
        ..CorrectorConfig::default()
    };
    assert!(matches!(correct_route(&config, "prompt", None, None), CorrectRoute::BuildFailed));
    assert!(build_corrector(&config, None, None).is_err());
    assert!(matches!(correct_route(&config, "", None, None), CorrectRoute::Preprocess));
    let off = CorrectorConfig { enabled: false, ..CorrectorConfig::default() };
    assert_eq!(build_corrector(&off, None, None), Ok(CorrectorPlan::Null));
}

fn no_environment() -> CorrectorEnvironment {
    CorrectorEnvironment {
        ollama_host: None,
        lumen_ollama_url: None,
        openai_api_base: None,
        openai_base_url: None,
        lumen_corrector_base_url: None,
        openai_api_key: None,
        lumen_corrector_api_key: None,
        lumen_corrector_model: None,
    }
}

#[test]
fn ollama_is_looked_for_where_the_environment_says() {
    let mut environment = no_environment();
    assert_eq!(ollama_base(&environment), "http://127.0.0.1:11434");
    environment.lumen_ollama_url = Some("http://b//".into());
    assert_eq!(ollama_base(&environment), "http://b");
    environment.ollama_host = Some("http://a/".into());
    assert_eq!(ollama_base(&environment), "http://a");
    assert_eq!(tags_url("http://a"), "http://a/api/tags");
    assert_eq!(list_failed("500 Internal"), "ollama HTTP 500 Internal");
}

#[test]
fn models_are_listed_in_order() {
    let names: Vec<Option<String>> =
        ["qwen2.5:7b", "", "llama3", "éclair", "llama3", "Zeta"]
            .iter()
            .map(|n| if n.is_empty() { None } else { Some(n.to_string()) })
            .collect();
    let mut expected: Vec<String> = names.iter().flatten().cloned().collect();
    expected.sort();
    assert_eq!(list_ollama_models(names), expected);
    assert!(has_qwen(&vec!["Qwen2.5:7B-instruct".into()]));
    assert!(!has_qwen(&vec!["qwen2.5:14b".into()]));
}

#[test]
fn what_runs_here_comes_before_what_the_environment_names() {
    let mut environment = no_environment();
    environment.openai_base_url = Some("https://api.example".into());
    environment.lumen_corrector_api_key = Some("key".into());
    let url = "http://127.0.0.1:11434".to_string();

    let local =
        probe_corrector(url.clone(), Some(vec!["llama3".into(), "phi".into()]), &environment);
    assert_eq!(local.suggested_provider, "ollama");
    assert_eq!(local.suggested_base_url, "http://127.0.0.1:11434/v1");
    assert_eq!(local.suggested_model, "llama3");
    assert_eq!(local.message, "Ollama 可用，共 2 个模型");
    assert!(local.env_openai_key_set);

    let empty = probe_corrector(url.clone(), Some(vec![]), &environment);
    assert_eq!(empty.suggested_model, "qwen2.5:7b");
    assert_eq!(empty.message, "Ollama 在运行但还没有模型，建议拉取 qwen2.5:7b");

    let online = probe_corrector(url.clone(), None, &environment);
    assert_eq!(online.suggested_provider, "openai_compatible");
    assert_eq!(online.suggested_base_url, "https://api.example");
    assert_eq!(online.suggested_model, "gpt-4o-mini");

    environment.openai_api_base = Some(String::new());
    let nothing = probe_corrector(url, None, &environment);
    assert_eq!(nothing.env_openai_base, None);
    assert_eq!(nothing.suggested_provider, "none");
}

#[test]
fn a_model_is_fetched_by_its_name() {
    assert_eq!(pull_model(&OllamaPullInput { model: None }).unwrap(), "qwen2.5:7b");
    assert_eq!(
        pull_model(&OllamaPullInput { model: Some("  ".into()) }).unwrap_err(),
        "model name empty"
    );
    assert_eq!(pull_progress("m", false).message, "正在拉取 m …");
    assert_eq!(pull_progress("m", true).phase, "done");
    assert_eq!(
        pull_not_started("no"),
        "无法启动 ollama（是否已安装？）: no. 可执行: brew install ollama"
    );
    for code in [Some(0), Some(7), Some(-1), Some(i32::MIN), Some(i32::MAX), None] {
        assert_eq!(pull_failed(code), format!("ollama pull failed (exit {code:?})"));
    }
}

#[test]
fn a_suggestion_keeps_the_key_that_is_there() {
    let input = |provider: &str, key: Option<&str>| ApplyCorrectorSuggestionInput {
        provider: provider.into(),
        base_url: "u".into(),
        model: "m".into(),
        enabled: None,
        api_key: key.map(String::from),
    };
    let mut environment = no_environment();
    environment.openai_api_key = Some("env".into());
    let mut config = CorrectorConfig::default();
    apply_corrector_suggestion(&mut config, input("none", None), &environment);
    assert!(!config.enabled);
    assert_eq!(config.api_key, "env");
    apply_corrector_suggestion(&mut config, input("ollama", Some("own")), &environment);
    assert!(config.enabled);
    assert_eq!(config.api_key, "own");
    apply_corrector_suggestion(&mut config, input("ollama", None), &environment);
    assert_eq!(config.api_key, "own");
}

fn no_input() -> CorrectorConfigInput {
    CorrectorConfigInput {
        enabled: None,
        provider: None,
        base_url: None,
        model: None,
        api_key: None,
        timeout_secs: None,
        cleanup: None,
        style: None,
        casing: None,
        punctuation: None,
        polish: None,
        custom_enabled: None,
        custom_instruction: None,
    }
}

fn all_known() -> KnownValues {
    KnownValues { cleanup: true, style: true, casing: true, punctuation: true, polish: vec![] }
}

#[test]
fn a_provider_brings_its_address_with_it() {
    let mut config = CorrectorConfig::default();
    let input = CorrectorConfigInput {
        provider: Some("deepseek".into()),
        model: Some("mine".into()),
        timeout_secs: Some(1),
        ..no_input()
    };
    let preset = LlmPreset {
        kind: "openai".into(),
        base_url: "https://api.example".into(),
        default_model: "theirs".into(),
    };
    save_corrector_config(&mut config, &input, Some(preset));
    assert_eq!(config.provider, "deepseek");
    assert_eq!(config.base_url, "https://api.example");
    assert_eq!(config.model, "mine");
    assert_eq!(config.timeout_secs, 5);

    let local = LlmPreset { kind: "ollama".into(), base_url: "".into(), default_model: "".into() };
    let input = CorrectorConfigInput { provider: Some("ollama-local".into()), ..no_input() };
    save_corrector_config(&mut config, &input, Some(local));
    assert_eq!(config.provider, "ollama");
    assert_eq!(config.base_url, "https://api.example");
}

#[test]
fn an_unknown_value_ends_the_reading() {
    let input = CorrectorConfigInput {
        cleanup: Some("STRONG".into()),
        style: Some("Odd".into()),
        casing: Some("lower".into()),
        polish: Some(vec!["concise".into(), "odd".into()]),
        ..no_input()
    };
    let mut output = OutputConfig::default();
    let known = KnownValues { style: false, ..all_known() };
    assert_eq!(
        save_output_config(&mut output, &input, &known).unwrap_err(),
        "unknown style: Odd"
    );
    assert_eq!(output.cleanup, "strong");
    assert_eq!(output.casing, "sentence");

    let known = KnownValues { polish: vec![true, false], ..all_known() };
    assert_eq!(
        save_output_config(&mut output, &input, &known).unwrap_err(),
        "unknown polish rule: odd"
    );
    let known = KnownValues { cleanup: false, ..all_known() };
    assert_eq!(
        save_output_config(&mut output, &input, &known).unwrap_err(),
        "unknown cleanup level: STRONG"
    );
    let known = KnownValues { casing: false, ..all_known() };
    assert_eq!(
        save_output_config(&mut output, &input, &known).unwrap_err(),
        "unknown casing: lower"
    );
    let known = KnownValues { punctuation: false, ..all_known() };
    let spaced = CorrectorConfigInput { punctuation: Some("odd".into()), ..no_input() };
    assert_eq!(
        save_output_config(&mut output, &spaced, &known).unwrap_err(),
        "unknown punctuation: odd"
    );
    let known = KnownValues { polish: vec![true, true], ..all_known() };
    assert!(save_output_config(&mut output, &input, &known).is_ok());
    assert_eq!(output.polish, ["concise", "odd"]);
    assert_eq!(output.style, "odd");
}

#[test]
fn keys_are_never_shown() {
    let mut asr = AsrServiceConfig::default();
    let input = AsrServiceInput {
        provider: Some("groq".into()),
        base_url: None,
        model: None,
        api_key: Some("secret".into()),
        language: Some("zh".into()),
        timeout_secs: Some(3),
    };
    let preset = AsrPreset {
        id: "groq".into(),
        base_url: "https://api.example".into(),
        default_model: "".into(),
    };
    save_asr_service_config(&mut asr, input, Some(preset));
    let status = get_asr_service_config(&asr);
    assert_eq!(status.base_url, "https://api.example");
    assert_eq!(status.timeout_secs, 15);
    assert!(status.has_api_key);
    assert!(!format!("{status:?}").contains("secret"));

    let config = default_corrector_config(Some("m".into()), Some("secret".into()));
    let names = OutputNames {
        style: "neutral".into(),
        casing: "sentence".into(),
        punctuation: "standard".into(),
        polish: vec![],
    };
    let status = status_from(&config, &OutputConfig::default(), "label".into(), names);
    assert!(status.has_api_key);
    assert_eq!(status.cleanup, "medium");
    assert!(!format!("{status:?}").contains("secret"));
}

#[test]
fn a_blank_text_is_left_alone() {
    let outcome = blank_outcome(&CorrectTextInput { text: " \n".into() }).unwrap();
    assert_eq!(outcome.text, " \n");
    assert_eq!(outcome.corrector_engine, "none");
    assert_eq!(blank_outcome(&CorrectTextInput { text: "x".into() }), None);
    assert_eq!(corrected_outcome("x".into(), false, "e").corrector_engine, "e:fallback");
    assert_eq!(corrected_outcome("x".into(), true, "e").corrector_engine, "e");
}

#[test]
fn sessions_are_saved_with_their_edit() {
    let mut input = seed_demo_session();
    let (session, edit) = save_session(&input);
    assert_eq!(edit, None);
    assert_eq!(session.asr_engine, "manual");
    assert_eq!(session.insert_strategy, InsertStrategy::CopyOnly);
    input.record_edit_if_changed = Some(true);
    assert_eq!(save_session(&input).1, None);
    input.pasted = Some("something else".into());
    let edit = save_session(&input).1.unwrap();
    assert_eq!(edit.source, EditSource::PreInsertUi);
    assert_eq!(edit.before, "你好，世界。用 Token 鉴权。");
    assert_eq!(edit.after, "something else");
    let raw = CreateSessionInput {
        asr_raw: Some("raw".into()),
        corrected: None,
        pasted: None,
        focused_app: None,
        record_edit_if_changed: None,
    };
    assert_eq!(save_session(&raw).0.pasted.as_deref(), Some("raw"));
}

#[test]
fn requests_are_checked() {
    assert_eq!(session_limit(None), 50);
    assert_eq!(session_limit(Some(0)), 1);
    assert_eq!(session_limit(Some(9_999)), 500);
    let input = |id: &str, source: Option<&str>| RecordEditInput {
        session_id: id.into(),
        before_text: "a".into(),
        after_text: "b".into(),
        source: source.map(String::from),
    };
    let id = "11111111-2222-3333-4444-555555555555";
    let number = 0x11111111_2222_3333_4444_555555555555_u128;
    assert_eq!(edit_to_record(&input(id, Some("manual"))), Ok((number, EditSource::Manual)));
    assert_eq!(edit_to_record(&input(id, None)), Ok((number, EditSource::PreInsertUi)));
    assert_eq!(
        edit_to_record(&input("x", None)).unwrap_err(),
        uuid::Uuid::parse_str("x").unwrap_err().to_string()
    );
    assert!(check_session_exists(Ok(true)).is_ok());
    assert_eq!(check_session_exists(Ok(false)).unwrap_err(), "session not found");
    let health = app_health("1".into(), "d".into(), "p".into(), Some((Some(3), None)));
    assert!(health.db_ok);
    assert_eq!((health.session_count, health.dictionary_count), (3, 0));
    assert!(!app_health("1".into(), "d".into(), "p".into(), None).db_ok);
}

fn learn(kind: &str) -> ConfirmLearnInput {
    ConfirmLearnInput {
        kind: kind.into(),
        term: None,
        from_text: None,
        to_text: Some("Codex".into()),
        session_id: Some("11111111-2222-3333-4444-555555555555".into()),
        before_text: Some("a".into()),
        after_text: Some("b".into()),
    }
}

#[test]
fn no_entry_is_blank() {
    assert_eq!(confirm_learn(&learn("term")), Ok(EntryText::Term("Codex".into())));
    assert_eq!(
        confirm_learn(&learn("replacement")).unwrap_err(),
        "from_text required for replacement"
    );
    let mut blank = learn("replacement");
    blank.from_text = Some("cotex".into());
    assert_eq!(
        confirm_learn(&blank),
        Ok(EntryText::Replacement("cotex".into(), "Codex".into()))
    );
    blank.to_text = Some("  ".into());
    assert_eq!(confirm_learn(&blank).unwrap_err(), "to_text required for replacement");
    blank.kind = "term".into();
    assert_eq!(confirm_learn(&blank).unwrap_err(), "term required");
    assert_eq!(confirm_learn(&learn("other")).unwrap_err(), "unknown kind: other");
    assert_eq!(
        add_dictionary_term(&AddTermInput { term: " Codex ".into() }),
        Ok(EntryText::Term("Codex".into()))
    );
    assert_eq!(
        add_dictionary_term(&AddTermInput { term: " ".into() }).unwrap_err(),
        "term cannot be empty"
    );
    assert_eq!(
        add_dictionary_replacement(&AddReplacementInput {
            from_text: "a".into(),
            to_text: " ".into()
        })
        .unwrap_err(),
        "from_text and to_text required"
    );
    assert!(audit_session(&learn("term")).is_some());
    let mut same = learn("term");
    same.after_text = Some("a".into());
    assert_eq!(audit_session(&same), None);
}

#[test]
fn increments_persist_and_reload() {
    let mut stats = DetectionStats::load(None);
    stats.increment(StatCounter::PromptShown);
    stats.increment(StatCounter::PromptShown);
    let written = stats.increment(StatCounter::StopSuggested);
    let snap = stats.snapshot();
    assert_eq!(snap.prompt_shown, 2);
    assert_eq!(snap.stop_suggested, 1);
    assert_eq!(snap.prompt_accepted, 0);
    let reloaded = DetectionStats::load(Some(written)).snapshot();
    assert_eq!(reloaded.prompt_shown, 2);
    assert_eq!(reloaded.stop_suggested, 1);
}

#[test]
fn corrupt_file_resets_to_zero() {
    let read: Option<DetectionStatsCounters> = None;
    assert_eq!(DetectionStats::load(read).snapshot().prompt_shown, 0);
}

fn bundle(written: &str) -> BundleId {
    let normalized = written.to_ascii_lowercase();
    let normalized = normalized.split(".helper").next().unwrap().to_string();
    BundleId { written: written.into(), normalized }
}

fn sample_catalog() -> MeetingAppCatalog {
    MeetingAppCatalog {
        version: CATALOG_VERSION,
        applications: vec![
            MeetingAppEntry {
                name: "Zoom".into(),
                kind: MeetingAppKind::Meeting,
                bundle_ids: vec![bundle("us.zoom.xos")],
                detect: true,
                capture: true,
            },
            MeetingAppEntry {
                name: "Browser".into(),
                kind: MeetingAppKind::Browser,
                bundle_ids: vec![bundle("com.google.Chrome")],
                detect: true,
                capture: false,
            },
        ],
    }
}

#[test]
fn save_reload_and_classify_use_external_file() {
    let mut fresh = MeetingAppRegistry::new("/data/meeting-apps.toml".into());
    fresh.reload(Ok(sample_catalog())).unwrap();
    assert_eq!(fresh.classify(&bundle("US.ZOOM.XOS").normalized), AppClass::NativeMeeting);
    assert_eq!(
        fresh.classify(&bundle("com.google.Chrome.helper.Renderer").normalized),
        AppClass::Browser
    );
    assert_eq!(fresh.label(&bundle("us.zoom.xos")), "Zoom");
    assert_eq!(fresh.manual_capture_bundle_ids(), vec!["us.zoom.xos"]);
}

#[test]
fn malformed_external_catalog_remains_visible_as_a_load_error() {
    let mut registry = MeetingAppRegistry::new("/data/meeting-apps.toml".into());
    let error = registry
        .reload(Err("parse /data/meeting-apps.toml: expected `]`".into()))
        .unwrap_err();
    let snapshot = registry.snapshot(Platform::MacOs);
    assert!(error.contains("parse"));
    assert_eq!(snapshot.load_error.as_deref(), Some(error.as_str()));
    assert!(snapshot.applications.is_empty());
}

#[test]
fn duplicate_bundle_ids_are_rejected_case_insensitively() {
    let mut catalog = sample_catalog();
    catalog.applications.push(MeetingAppEntry {
        name: "Duplicate".into(),
        kind: MeetingAppKind::Meeting,
        bundle_ids: vec![bundle("US.ZOOM.XOS")],
        detect: true,
        capture: true,
    });
    assert!(validate_catalog(&catalog)
        .unwrap_err()
        .contains("appears more than once"));
}

#[test]
fn browser_is_not_in_manual_capture_allowlist() {
    let mut registry = MeetingAppRegistry::new("/data/meeting-apps.toml".into());
    registry.saved(sample_catalog());
    assert!(!registry.capture_enabled("com.google.chrome"));
    assert_eq!(registry.manual_capture_bundle_ids(), vec!["us.zoom.xos"]);
}

#[test]
fn template_install_never_overwrites_an_existing_user_catalog() {
    assert!(settle_installation("/d/c.toml", Installation::AlreadyThere).is_ok());
    assert!(settle_installation("/d/c.toml", Installation::Installed).is_ok());
    assert_eq!(
        settle_installation("/d/c.toml", Installation::Failed("disk".into())).unwrap_err(),
        "install /d/c.toml: disk"
    );
}

#[test]
fn temporary_files_have_names_of_their_own() {
    let id = 0x0123_4567_89ab_cdef_0123_4567_89ab_cdef_u128;
    assert_eq!(
        unique_temp_path("/d", id, Platform::MacOs),
        format!("/d/.meeting-apps.toml.{}.tmp", uuid::Uuid::from_u128(id).simple())
    );
    assert_eq!(
        unique_temp_path("/d", 7, Platform::MacOs),
        format!("/d/.meeting-apps.toml.{}.tmp", uuid::Uuid::from_u128(7).simple())
    );
    assert_eq!(catalog_dir("/d/c.toml", Platform::MacOs).unwrap(), "/d");
    assert_eq!(catalog_dir("/", Platform::MacOs).unwrap_err(), "invalid catalog path: /");
    assert_eq!(catalog_dir("D:\\d\\c.toml", Platform::Windows).unwrap(), "D:\\d");
}

fn traits(id: &'static str, max_audio_bytes: Option<usize>) -> EngineTraits<&'static str> {
    EngineTraits { id, supported: true, max_audio_bytes }
}

#[test]
fn primary_success_never_touches_the_fallback() {
    assert_eq!(after_primary(Ok("cloud")), AfterPrimary::Done("cloud"));
}

#[test]
fn primary_error_falls_back_to_local_result() {
    let primary: Result<&str, String> = Err("http: connection reset".into());
    match after_primary(primary) {
        AfterPrimary::Retry(error) => {
            assert_eq!(settle_fallback(error, Ok("local")), Ok("local"));
        }
        AfterPrimary::Done(_) => panic!("the primary failed"),
    }
}

#[test]
fn double_failure_reports_the_primary_error() {
    let error = "provider rejected request with status 401".to_string();
    let fallback: Result<&str, String> = Err("local also broken".into());
    let err = settle_fallback(error, fallback).unwrap_err();
    assert!(err.contains("401"), "{err}");
}

#[test]
fn identity_follows_primary_and_cap_takes_the_minimum() {
    let engine = FallbackAsr::new(traits("cloud", Some(16_000_000)), traits("local", None));
    assert_eq!(engine.id(), "cloud");
    assert_eq!(engine.max_audio_bytes(), Some(16_000_000));

    let engine = FallbackAsr::new(traits("cloud", None), traits("local", Some(8_000_000)));
    assert_eq!(engine.max_audio_bytes(), Some(8_000_000));
}

#[test]
fn meetings_are_transcribed_where_they_can_be() {
    let local = build_meeting_transcribe_engine("local", "", "", "", true, false).unwrap();
    assert_eq!(local.engine, MeetingTranscriber::Local(MeetingEngine::SenseVoice));
    let cloud =
        build_meeting_transcribe_engine("cloud", "minimax", "key", "", false, true).unwrap();
    assert_eq!(
        cloud.engine,
        MeetingTranscriber::Cloud {
            provider: "minimax".into(),
            fallback: Some(MeetingEngine::Paraformer)
        }
    );
    assert!(build_meeting_transcribe_engine("cloud", "minimax", " ", "", true, true).is_err());
    assert!(build_meeting_transcribe_engine("cloud", "soniox", "k", "", true, true)
        .unwrap_err()
        .contains("soniox"));
    assert!(build_meeting_transcribe_engine("local", "", "", "", false, false).is_err());
}

#[test]
fn a_model_that_is_chosen_is_used() {
    let facts =
        PathFacts { is_dir: true, sensevoice_ready: false, qwen_ready: true, whisper_ready: false };
    let input = |engine: &str| UseAsrModelInput { path: " /m ".into(), engine: Some(engine.into()) };
    assert_eq!(
        use_existing_asr_model(&input("qwen"), facts),
        Ok((EngineKind::Qwen, "/m".to_string()))
    );
    assert!(use_existing_asr_model(&input("whisper"), facts).unwrap_err().contains("Whisper"));
    let nowhere = PathFacts { is_dir: false, ..facts };
    assert_eq!(
        use_existing_asr_model(&input("qwen"), nowhere).unwrap_err(),
        "not a directory: /m"
    );
    let mut config = AsrServiceConfig::default();
    let found = FoundModel { sensevoice: false, qwen: false, whisper: false };
    persist_model_selection(&mut config, "/m", EngineKind::Qwen, found);
    assert_eq!(config.model_dir_for(EngineKind::Qwen), "/m");
    assert_eq!(config.provider, "local_qwen");
    assert_eq!(qwen_fallback_reason(Platform::MacOs, Some(16 * 1024)), None);
    assert!(qwen_fallback_reason(Platform::MacOs, Some(4096)).unwrap().contains("8 GB"));
    assert!(qwen_fallback_reason(Platform::Windows, None).is_some());
    let candidate = AsrModelCandidate {
        engine: "qwen".into(),
        path: "a/b".into(),
        label: "l".into(),
        ready: true,
        source: "s".into(),
    };
    assert_eq!(shown_candidate(candidate, Platform::Windows).path, "a\\b");
}

#[test]
fn one_download_at_a_time() {
    let mut guard = DownloadGuard { running: false, cancelled: true };
    assert!(guard.start().is_ok());
    assert!(!guard.cancelled);
    assert_eq!(guard.start().unwrap_err(), "download already running");
    guard.cancel();
    assert!(guard.cancelled);
    guard.finish();
    assert!(guard.start().is_ok());
}
