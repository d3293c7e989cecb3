use lumen_asr_desktop::headless::{
    check_engine_lang, display_lang_name, format_bytes, headless_command, is_decimal_text,
    minutes_output_path, normalize_lang_hint, parse_compact_args, parse_count,
    parse_meeting_process_args, parse_voiceprint_args, source_lang_tag, CompactArgs, EngineChoice,
    HeadlessCommand, OutputFormat,
};
use lumen_asr_desktop::platform::Platform;
use lumen_asr_desktop::meeting_output::{
    bilingual_block, compact_report, export_segment, find_label, keep_translation,
    plan_translations, segment_line, speaker_labels, speaker_name, summary_line, voiceprint_head,
    voiceprint_row, CompactStatus, CompactSummary, CompactTrack, Translations, Voice, VoiceMatch,
};
use lumen_asr_desktop::meeting_process::{
    build_engine, check_minutes, check_translation, minutes_model, transcript_engine, EnginePlan,
    MeetingRun, ModelDir, ProcessAction, ProcessEvent,
};

fn args(parts: &[&str]) -> Vec<String> {
    parts.iter().map(|s| (*s).to_string()).collect()
}

#[test]
fn source_lang_tag_from_cli_not_hardcoded_es() {
    assert_eq!(source_lang_tag(Some("zh")), "ZH");
    assert_eq!(source_lang_tag(Some("Chinese")), "ZH");
    assert_eq!(source_lang_tag(Some("es")), "ES");
    assert_eq!(source_lang_tag(Some("Spanish")), "ES");
    assert_eq!(source_lang_tag(Some("Español")), "ES");
    assert_eq!(source_lang_tag(Some("en")), "EN");
    assert_eq!(source_lang_tag(None), "SRC");
    assert_eq!(source_lang_tag(Some("auto")), "SRC");
}

#[test]
fn source_tag_prefers_normalized_alias() {
    let raw = "Español";
    let norm = normalize_lang_hint(raw, EngineChoice::MlxWhisper);
    assert_eq!(norm.as_deref(), Some("es"));
    assert_eq!(source_lang_tag(norm.as_deref().or(Some(raw))), "ES");
}

#[test]
fn sensevoice_rejects_spanish() {
    let err = check_engine_lang(EngineChoice::SenseVoice, Some("es")).unwrap_err();
    assert!(err.contains("sensevoice"), "{err}");
    assert!(err.contains("mlx-whisper") || err.contains("qwen"), "{err}");
}

#[test]
fn sensevoice_accepts_official_langs() {
    for lang in ["zh", "en", "ja", "ko", "yue", "auto", "Chinese"] {
        check_engine_lang(EngineChoice::SenseVoice, Some(lang)).unwrap();
    }
    check_engine_lang(EngineChoice::SenseVoice, None).unwrap();
}

#[test]
fn multilingual_engines_accept_spanish() {
    check_engine_lang(EngineChoice::MlxWhisper, Some("es")).unwrap();
    check_engine_lang(EngineChoice::Qwen, Some("Spanish")).unwrap();
}

#[test]
fn parse_bilingual_defaults_translate_zh() {
    let cli = parse_meeting_process_args(&args(&[
        "talk.m4a",
        "--format",
        "bilingual",
        "--engine",
        "mlx-whisper",
        "--lang",
        "es",
    ]))
    .unwrap();
    assert_eq!(cli.format, OutputFormat::Bilingual);
    assert_eq!(cli.translate_langs, vec!["zh".to_string()]);
    assert_eq!(cli.engine, EngineChoice::MlxWhisper);
    assert_eq!(cli.lang.as_deref(), Some("es"));
}

#[test]
fn parse_engine_and_min_turn() {
    let cli = parse_meeting_process_args(&args(&[
        "a.wav",
        "--engine=qwen",
        "--min-turn-seconds",
        "0",
        "--lang",
        "Spanish",
    ]))
    .unwrap();
    assert_eq!(cli.engine, EngineChoice::Qwen);
    let min_turn_seconds: f64 = cli.min_turn_seconds.as_deref().unwrap().parse().unwrap();
    assert!((min_turn_seconds - 0.0).abs() < 1e-9);
    assert_eq!(cli.lang.as_deref(), Some("Spanish"));
    assert!(!cli.minutes);
}

#[test]
fn parse_minutes_flag() {
    let cli = parse_meeting_process_args(&args(&["talk.wav", "--minutes"])).unwrap();
    assert!(cli.minutes);
}

#[test]
fn an_inline_value_is_the_separate_value() {
    for (flag, value) in [
        ("--engine", "qwen"),
        ("--lang", "es"),
        ("--format", "json"),
        ("--translate", "zh,en"),
        ("--max-speakers", "4"),
        ("--min-turn-seconds", "0.5"),
        ("--mlx-whisper-model", "m"),
    ] {
        let inline = format!("{flag}={value}");
        assert_eq!(
            parse_meeting_process_args(&args(&["a.wav", &inline])),
            parse_meeting_process_args(&args(&["a.wav", flag, value]))
        );
    }
}

#[test]
fn every_refusal_has_its_words() {
    let refused = |parts: &[&str]| parse_meeting_process_args(&args(parts)).unwrap_err();
    assert_eq!(
        refused(&[]),
        "usage: meeting process <audio> [--engine …] [--lang …] [--format …] [--translate zh]"
    );
    assert_eq!(refused(&["a.wav", "--lang"]), "missing value for --lang");
    assert_eq!(refused(&["a.wav", "--what"]), "unexpected argument `--what`");
    assert_eq!(refused(&["a.wav", "b.wav"]), "unexpected positional argument `b.wav`");
    assert_eq!(refused(&["a.wav", "--max-speakers", "x"]), "invalid --max-speakers `x`");
    assert_eq!(
        refused(&["a.wav", "--min-turn-seconds", "soon"]),
        "invalid --min-turn-seconds `soon`"
    );
    assert!(refused(&["a.wav", "--engine", "parrot"]).contains("parrot"));
    assert!(refused(&["a.wav", "--format", "parrot"]).contains("parrot"));
}

#[test]
fn numbers_are_read_as_the_standard_library_reads_them() {
    for text in [
        "0", "12", "+7", "-3", "", "+", "007", "1_000", " 1", "18446744073709551615",
        "18446744073709551616", "99999999999999999999999",
    ] {
        assert_eq!(parse_count(text), text.parse::<usize>().ok(), "{text:?}");
    }
    for text in [
        "0", "0.5", ".5", "5.", ".", "", "-1", "+2.5", "1e3", "1E-3", "e3", "1e", "inf", "-inf",
        "nan", "NaN", "infinity", "Infinit", "+nan", "1.2.3", "0x10", "1_0", " 1", "1 ", "--1",
        "1e+5", "1e+", "１",
    ] {
        assert_eq!(is_decimal_text(text), text.parse::<f64>().is_ok(), "{text:?}");
    }
}

#[test]
fn sizes_are_written_as_the_standard_library_writes_them() {
    let expected = |bytes: u64| {
        let units = ["B", "KB", "MB", "GB"];
        let mut size = bytes as f64;
        let mut unit = 0;
        while size >= 1024.0 && unit < 3 {
            size /= 1024.0;
            unit += 1;
        }
        if unit == 0 {
            format!("{bytes} B")
        } else {
            format!("{size:.1} {}", units[unit])
        }
    };
    for bytes in [
        0, 1, 1023, 1024, 1025, 1075, 1076, 1126, 1536, 1_048_575, 1_048_576, 52_428,
        1_073_741_823, 1_073_741_824, 5_000_000_000, 0x20_0000_0000_0001, u64::MAX, u64::MAX - 1024,
    ] {
        assert_eq!(format_bytes(bytes), expected(bytes), "{bytes}");
    }
    for i in 0..20_000u64 {
        let bytes = i * 6_151 + i * i * 13;
        assert_eq!(format_bytes(bytes), expected(bytes), "{bytes}");
    }
}

#[test]
fn commands_are_told_apart() {
    let command = |parts: &[&str]| headless_command(&args(parts)).map(|(c, rest)| (c, rest));
    assert_eq!(command(&[]), None);
    assert_eq!(command(&["--something"]), None);
    assert_eq!(command(&["--build-info"]), Some((HeadlessCommand::BuildInfo, vec![])));
    assert_eq!(
        command(&["meeting", "process", "a.wav"]),
        Some((HeadlessCommand::MeetingProcess, args(&["a.wav"])))
    );
    assert_eq!(
        command(&["meeting", "compact"]),
        Some((HeadlessCommand::MeetingCompact, vec![]))
    );
    assert_eq!(
        command(&["voiceprint-match", "x"]),
        Some((HeadlessCommand::VoiceprintMatch, args(&["x"])))
    );
}

#[test]
fn meetings_are_named_by_their_identifier() {
    let id = "11111111-2222-3333-4444-555555555555";
    let number = 0x11111111_2222_3333_4444_555555555555_u128;
    assert_eq!(
        parse_compact_args(&args(&["--dry-run", "--meeting", id])),
        Ok(CompactArgs { dry_run: true, meeting: Some(number) })
    );
    assert_eq!(
        parse_compact_args(&args(&["--meeting", "nobody"])).unwrap_err(),
        "meeting compact: invalid meeting id `nobody`"
    );
    assert_eq!(parse_voiceprint_args(&args(&[id])), Ok(number));
    assert_eq!(
        parse_voiceprint_args(&args(&["x"])).unwrap_err(),
        "voiceprint-match: invalid meeting id `x`"
    );
    assert_eq!(
        parse_voiceprint_args(&[].to_vec()).unwrap_err(),
        "usage: voiceprint-match <meeting_id>"
    );
}

#[test]
fn minutes_stand_beside_the_audio() {
    assert_eq!(minutes_output_path("/a/talk.m4a", Platform::MacOs), "/a/talk.minutes.md");
    assert_eq!(
        minutes_output_path("C:\\a\\talk.m4a", Platform::Windows),
        "C:\\a\\talk.minutes.md"
    );
    assert_eq!(minutes_output_path("C:\\talk.m4a", Platform::Windows), "C:\\talk.minutes.md");
    assert_eq!(minutes_output_path("C:talk.m4a", Platform::Windows), "C:talk.minutes.md");
    assert_eq!(minutes_model("  "), None);
    assert_eq!(minutes_model(" m ").as_deref(), Some("m"));
    assert!(check_minutes(true, "ollama").is_ok());
    assert_eq!(
        check_minutes(true, "none").unwrap_err(),
        "no LLM configured (Settings → AI cleanup)"
    );
    assert_eq!(
        check_translation(true, "ollama", Err("no".into())).unwrap_err(),
        "corrector: no"
    );
    assert!(check_translation(false, "ollama", Ok(())).is_err());
    assert_eq!(transcript_engine(EngineChoice::Qwen), "diar-rs+qwen");
}

#[test]
fn engines_are_built_from_models_that_are_there() {
    let dir = |ready| Some(ModelDir { dir: "/m".into(), ready });
    let plan = build_engine(
        EngineChoice::SenseVoice,
        dir(true),
        "python3".into(),
        "model".into(),
        Some("zh".into()),
    );
    assert_eq!(plan, Ok(EnginePlan::SenseVoice { dir: "/m".into(), lang: Some("zh".into()) }));
    assert!(build_engine(EngineChoice::SenseVoice, dir(false), "p".into(), "m".into(), None)
        .is_err());
    assert!(build_engine(EngineChoice::Qwen, None, "p".into(), "m".into(), None).is_err());
}

fn finish(run: &mut MeetingRun) -> Vec<String> {
    let mut notes = Vec::new();
    for _ in 0..30 {
        if run.state.action == ProcessAction::Exit {
            return notes;
        }
        if let Some(note) = run.advance(&ProcessEvent::Done) {
            notes.push(note);
        }
    }
    panic!("the run goes on");
}

#[test]
fn a_run_ends_and_leaves_nothing_behind() {
    let cli = parse_meeting_process_args(&args(&["a.m4a", "--minutes", "--translate", "zh"]));
    let mut run = MeetingRun::new(cli.unwrap());
    run.advance(&ProcessEvent::Done);
    assert_eq!(
        run.advance(&ProcessEvent::Converted).unwrap(),
        "meeting process: converted a.m4a → 16 kHz mono wav"
    );
    assert!(run.state.audio_dir);
    let notes = finish(&mut run);
    assert_eq!(run.state.code, 0);
    assert!(!run.state.audio_dir && !run.state.work_dir);
    assert_eq!(notes.last().unwrap(), "meeting process: done engine=sensevoice format=Text");
}

#[test]
fn a_run_that_fails_says_why_and_cleans_up() {
    let cli = parse_meeting_process_args(&args(&["a.wav"])).unwrap();
    let mut run = MeetingRun::new(cli.clone());
    assert_eq!(
        run.advance(&ProcessEvent::Failed("gone".into())).unwrap(),
        "meeting process: no such file: a.wav"
    );
    assert_eq!(run.state.action, ProcessAction::Exit);
    assert_eq!(run.state.code, 2);

    let mut run = MeetingRun::new(cli);
    while run.state.action != ProcessAction::Transcribe {
        run.advance(&ProcessEvent::Done);
    }
    assert_eq!(
        run.advance(&ProcessEvent::Failed("noise".into())).unwrap(),
        "meeting process: noise"
    );
    assert_eq!(run.state.action, ProcessAction::RemoveWorkDir);
    finish(&mut run);
    assert_eq!(run.state.code, 1);
}

#[test]
fn minutes_that_fail_do_not_end_a_run() {
    let cli = parse_meeting_process_args(&args(&["a.wav", "--minutes"])).unwrap();
    let mut run = MeetingRun::new(cli);
    while run.state.action != ProcessAction::WriteMinutes {
        run.advance(&ProcessEvent::Done);
    }
    assert_eq!(
        run.advance(&ProcessEvent::Failed("no model".into())).unwrap(),
        "meeting process: minutes skipped: no model"
    );
    finish(&mut run);
    assert_eq!(run.state.code, 0);
}

#[test]
fn speakers_are_told_apart_in_the_order_they_speak() {
    let labels = speaker_labels(&vec![Some(9), None, Some(4), Some(9)]);
    assert_eq!(labels, vec![(9, "S1".to_string()), (4, "S2".to_string())]);
    assert_eq!(find_label(&labels, 4).as_deref(), Some("S2"));
    assert_eq!(speaker_name(&labels, Some(7)), "?");
    assert_eq!(speaker_name(&labels, None), "?");
}

#[test]
fn translations_are_found_again() {
    let mut translations = Translations::new();
    translations.insert("zh", "你好");
    translations.insert("en", "hello");
    translations.insert("zh", "您好");
    assert_eq!(
        translations.entries,
        vec![("en".to_string(), "hello".to_string()), ("zh".to_string(), "您好".to_string())]
    );
    let requests = plan_translations(&args(&["hola", " "]), &args(&["zh", "en"]));
    assert_eq!(requests.len(), 2);
    assert_eq!(requests[0].lang, "zh");
    let mut kept = vec![Translations::new(), Translations::new()];
    keep_translation(&mut kept, &requests[1], true, " hello ");
    keep_translation(&mut kept, &requests[0], false, "ignored");
    assert_eq!(kept[0].entries, vec![("en".to_string(), "hello".to_string())]);
    assert_eq!(
        bilingual_block("[0:00]", "S1", "ES", "hola", &kept[0]),
        ["[0:00] S1:", "  ES: hola", "  EN: hello", ""]
    );
    let labels = vec![(9, "S1".to_string())];
    let exported = export_segment(3, Some(9), &labels, Some(&kept[0]));
    assert_eq!(exported.id, "3");
    assert_eq!(exported.speaker.as_deref(), Some("S1"));
    assert_eq!(exported.translations, vec![("en".to_string(), "hello".to_string())]);
    assert_eq!(export_segment(0, None, &labels, None).translations, vec![]);
}

#[test]
fn lines_are_written_out() {
    assert_eq!(segment_line("[0:00]", "S1", "words"), "[0:00] S1: words");
    assert_eq!(summary_line(2, 1), "(2 segments, 1 speaker)");
    assert_eq!(summary_line(0, 2), "(0 segments, 2 speakers)");
    assert_eq!(display_lang_name("zh"), "Chinese");
    let found = |name: &str, score: f32| {
        Some(VoiceMatch { name: name.into(), score: format!("{score:.3}") })
    };
    assert_eq!(
        voiceprint_head(),
        "label  current           best-match (score)   would-auto-tag"
    );
    let name = "张三".to_string();
    let expected = format!("{:<6} {:<16} {:<20} {}", "S1", name, "Ann (0.812)", "—");
    let voice = Voice::Known { best: found("Ann", 0.8123), auto: None };
    assert_eq!(voiceprint_row("S1", Some(&name), &voice), expected);
    assert_eq!(
        voiceprint_row("S2", None, &Voice::Missing),
        format!("{:<6} {:<16} (no centroid)", "S2", "-")
    );
    let long = "a name that is longer than its column".to_string();
    assert_eq!(
        voiceprint_row("S3", Some(&long), &Voice::Known { best: None, auto: found("Bo", 1.0) }),
        format!("{:<6} {:<16} {:<20} {}", "S3", long, "— (library empty)", "Bo (1.000)")
    );
}

#[test]
fn a_compaction_is_reported() {
    let tracks = vec![
        CompactTrack {
            kind: "mic".into(),
            status: CompactStatus::Converted { before_bytes: 2048, after_bytes: 1024 },
        },
        CompactTrack { kind: "system".into(), status: CompactStatus::Skipped("opus".into()) },
        CompactTrack { kind: "mix".into(), status: CompactStatus::Failed("disk".into()) },
    ];
    let report = compact_report("id", Some("Talk".into()), &tracks, false).join("\n");
    assert!(report.contains("2.0 KB") && report.contains("1.0 KB"), "{report}");
    assert!(report.contains("opus") && report.contains("disk"), "{report}");
    let summary = CompactSummary {
        converted: 1,
        skipped: 1,
        failed: 1,
        bytes_before: 2048,
        bytes_after: 1024,
        savings: 1024,
    };
    assert_eq!(summary.exit_code(), 1);
    assert_ne!(summary.line(true), summary.line(false));
}

#[test]
fn a_language_without_a_primary_tag_is_the_source() {
    for lang in ["-", "_", "-x", "_y", "--"] {
        assert_eq!(source_lang_tag(Some(lang)), "SRC", "{lang:?}");
    }
    assert_eq!(source_lang_tag(Some("fr-CA")), "FR");
}
