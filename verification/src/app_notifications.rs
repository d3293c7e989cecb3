//! System notifications about meetings: what they say.
use crate::text;
use vstd::prelude::*;
use vstd::string::*;

verus! {

/// What a finished meeting came to.
#[derive(Debug, Clone, PartialEq, Eq)]
pub struct MeetingDoneStats {
    pub title: Option<String>,
    /// The duration in whole minutes, where it is known and there is any.
    pub duration_minutes: Option<u64>,
    pub transcript_chars: usize,
    /// `None` when no minutes were generated; the body then only reports the
    /// transcript.
    pub minutes_chars: Option<usize>,
}

/// What is told to the front-end when the app is opened again.
#[derive(Debug, Clone, PartialEq, Eq)]
pub struct AppReopenedEvent {
    pub meeting_id: Option<String>,
}

/// How many scalar values of a text are no white space.
pub open spec fn visible_count(s: Seq<char>) -> nat {
    s.filter(|c: char| !text::is_space(c)).len()
}

/// Count "words" the way a Chinese reader does: non-whitespace characters.
pub fn count_chars(text: &str) -> (n: usize)
    ensures
        n == visible_count(text@),
{
    let chars: Vec<char> = text::to_chars(text);
    let ghost keep = |c: char| !text::is_space(c);
    let mut n: usize = 0;
    let mut i: usize = 0;
    proof {
        reveal(Seq::filter);
    }
    while i < chars.len()
        invariant
            i <= chars@.len(),
            n <= i,
            keep == (|c: char| !text::is_space(c)),
            n == chars@.take(i as int).filter(keep).len(),
        decreases chars@.len() - i,
    {
        proof {
            reveal(Seq::filter);
            assert(chars@.take(i + 1).drop_last() =~= chars@.take(i as int));
        }
        if !text::char_is_space(chars[i]) {
            n = n + 1;
        }
        i = i + 1;
    }
    assert(chars@.take(i as int) =~= chars@);
    n
}

/// The parts of a notification body that are known.
pub open spec fn body_parts(stats: MeetingDoneStats) -> Seq<Seq<char>> {
    let duration = match stats.duration_minutes {
        Some(minutes) => if minutes < 1 {
            seq!["时长不足1分钟"@]
        } else {
            seq!["时长"@ + text::decimal(minutes as nat) + "分钟"@]
        },
        None => Seq::empty(),
    };
    let transcript = if stats.transcript_chars > 0 {
        seq!["记录"@ + text::decimal(stats.transcript_chars as nat) + "字"@]
    } else {
        Seq::empty()
    };
    let minutes = match stats.minutes_chars {
        Some(chars) => if chars > 0 {
            seq!["纪要"@ + text::decimal(chars as nat) + "字"@]
        } else {
            Seq::empty()
        },
        None => Seq::empty(),
    };
    duration + transcript + minutes
}

/// The body of a notification: "时长6分钟 · 记录1133字 · 纪要1668字", without the
/// parts that are not known.
pub fn format_minutes_body(stats: &MeetingDoneStats) -> (r: String)
    ensures
        r@ == if body_parts(*stats).len() == 0 {
            "打开 Lumen 查看"@
        } else {
            text::join(body_parts(*stats), " · "@)
        },
{
    let mut parts: Vec<String> = Vec::new();
    if let Some(minutes) = stats.duration_minutes {
        if minutes < 1 {
            parts.push("时长不足1分钟".to_owned());
        } else {
            parts.push(
                text::glue3("时长", text::decimal_text(minutes).as_str(), "分钟"),
            );
        }
    }
    if stats.transcript_chars > 0 {
        parts.push(
            text::glue3(
                "记录",
                text::decimal_text(stats.transcript_chars as u64).as_str(),
                "字",
            ),
        );
    }
    if let Some(chars) = stats.minutes_chars {
        if chars > 0 {
            parts.push(
                text::glue3("纪要", text::decimal_text(chars as u64).as_str(), "字"),
            );
        }
    }
    assert(text::texts(parts@) =~= body_parts(*stats));
    if parts.len() == 0 {
        "打开 Lumen 查看".to_owned()
    } else {
        text::joined(&parts, " · ")
    }
}

/// The title and the body of the notification of a detected meeting. Recording
/// starts only from the prompt in the app.
pub fn meeting_detected_notice(display_name: &str) -> (r: (String, String))
    ensures
        r.0@ == "检测到"@ + display_name@ + "会议"@,
        r.1@ == "Lumen 在等你确认——点「开始记录」后才会开始录音"@,
{
    (
        text::glue3("检测到", display_name, "会议"),
        "Lumen 在等你确认——点「开始记录」后才会开始录音".to_owned(),
    )
}

/// The title of the notification of finished minutes.
pub fn minutes_ready_title(stats: &MeetingDoneStats) -> (r: String)
    ensures
        r@ == if stats.title is Some && text::trim(stats.title->0@).len() > 0 {
            "「"@ + text::trim(stats.title->0@) + "」纪要已生成"@
        } else {
            "会议纪要已生成"@
        },
{
    if let Some(title) = &stats.title {
        let title: String = text::trimmed(title.as_str());
        if !title.as_str().is_empty() {
            return text::glue3("「", title.as_str(), "」纪要已生成");
        }
    }
    "会议纪要已生成".to_owned()
}

// ---------------------------------------------------------------------------
// Laws of the notification
// ---------------------------------------------------------------------------

/// White space is not counted, and everything else is, once.
pub proof fn white_space_does_not_count(s: Seq<char>, c: char)
    ensures
        text::is_space(c) ==> visible_count(s.push(c)) == visible_count(s),
        !text::is_space(c) ==> visible_count(s.push(c)) == visible_count(s) + 1,
        visible_count(Seq::empty()) == 0,
{
    reveal(Seq::filter);
    assert(s.push(c).drop_last() =~= s);
}

/// What is known stands in the body: the duration first, then the length of the
/// transcript, and then that of the minutes.
pub proof fn body_tells_what_is_known(stats: MeetingDoneStats)
    ensures
        stats.duration_minutes is None && stats.transcript_chars == 0 && stats.minutes_chars
            is None ==> body_parts(stats).len() == 0,
        stats.duration_minutes matches Some(m) ==> (m >= 1 ==> body_parts(stats)[0] == "时长"@
            + text::decimal(m as nat) + "分钟"@),
        stats.duration_minutes matches Some(m) && m < 1 ==> body_parts(stats)[0]
            == "时长不足1分钟"@,
        stats.transcript_chars > 0 ==> body_parts(stats).contains(
            "记录"@ + text::decimal(stats.transcript_chars as nat) + "字"@,
        ),
        stats.minutes_chars matches Some(n) ==> (n > 0 ==> body_parts(stats).last() == "纪要"@
            + text::decimal(n as nat) + "字"@),
        body_parts(stats).len() <= 3,
        stats.duration_minutes is Some && stats.transcript_chars > 0 && (stats.minutes_chars
            matches Some(n) && n > 0) ==> body_parts(stats).len() == 3,
{
    let d: int = if stats.duration_minutes is Some {
        1
    } else {
        0
    };
    if stats.transcript_chars > 0 {
        assert(body_parts(stats)[d] == "记录"@ + text::decimal(stats.transcript_chars as nat)
            + "字"@);
    }
}

} // verus!
