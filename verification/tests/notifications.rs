use lumen_asr_desktop::app_notifications::{
    count_chars, format_minutes_body, meeting_detected_notice, minutes_ready_title, MeetingDoneStats,
};

fn stats(
    title: Option<&str>,
    duration_seconds: Option<f64>,
    transcript_chars: usize,
    minutes_chars: Option<usize>,
) -> MeetingDoneStats {
    MeetingDoneStats {
        title: title.map(String::from),
        duration_minutes: duration_seconds.map(|seconds| (seconds / 60.0) as u64),
        transcript_chars,
        minutes_chars,
    }
}

#[test]
fn body_reports_all_known_stats() {
    assert_eq!(
        format_minutes_body(&stats(Some("周会"), Some(366.0), 1133, Some(1668))),
        "时长6分钟 · 记录1133字 · 纪要1668字"
    );
}

#[test]
fn body_omits_unknown_parts_and_sub_minute_rounds_down() {
    assert_eq!(
        format_minutes_body(&stats(None, Some(20.0), 350, None)),
        "时长不足1分钟 · 记录350字"
    );
    assert_eq!(format_minutes_body(&stats(None, None, 0, None)), "打开 Lumen 查看");
}

#[test]
fn body_ignores_missing_duration_and_empty_minutes() {
    assert_eq!(format_minutes_body(&stats(Some("x"), None, 42, Some(0))), "记录42字");
}

#[test]
fn count_chars_skips_whitespace_only() {
    assert_eq!(count_chars("你好，世界 hello\n\t world"), 15);
    assert_eq!(count_chars("  \n"), 0);
}

#[test]
fn titles_name_the_meeting_where_it_has_a_name() {
    let named = stats(Some(" 周会 "), None, 0, None);
    assert_eq!(minutes_ready_title(&named), "「周会」纪要已生成");
    let blank = stats(Some("  "), None, 0, None);
    assert_eq!(minutes_ready_title(&blank), "会议纪要已生成");
    let (title, body) = meeting_detected_notice("Zoom");
    assert_eq!(title, "检测到Zoom会议");
    assert_eq!(body, "Lumen 在等你确认——点「开始记录」后才会开始录音");
}

#[test]
fn white_space_is_what_the_standard_library_says() {
    for c in (0..=0x10FFFF).filter_map(char::from_u32) {
        let text: String = [c].into_iter().collect();
        assert_eq!(count_chars(&text) == 0, c.is_whitespace(), "{c:?}");
    }
}
