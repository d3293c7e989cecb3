//! Headless commands: their arguments, the languages and engines that they
//! accept, and the decisions of a meeting run.
use crate::outside;
use crate::paths;
use crate::platform::Platform;
use crate::text;
use vstd::prelude::*;
use vstd::string::*;

verus! {

// ---------------------------------------------------------------------------
// Engines and formats
// ---------------------------------------------------------------------------

#[derive(Debug, Clone, Copy, PartialEq, Eq, Structural)]
pub enum EngineChoice {
    SenseVoice,
    Qwen,
    /// mlx-whisper Metal (production Whisper).
    MlxWhisper,
    /// sherpa-onnx Whisper (CPU).
    Whisper,
}

/// The engine of a name, in any case and with white space around it.
pub open spec fn engine_named(name: Seq<char>) -> Option<EngineChoice> {
    let n = text::lower(text::trim(name));
    if n == "sensevoice"@ || n == "sv"@ || n == "local_sensevoice"@ {
        Some(EngineChoice::SenseVoice)
    } else if n == "qwen"@ || n == "qwen3"@ || n == "qwen3-asr"@ || n == "local_qwen"@ {
        Some(EngineChoice::Qwen)
    } else if n == "mlx-whisper"@ || n == "mlx_whisper"@ || n == "whisper-mlx"@ || n
        == "whisper_mlx"@ {
        Some(EngineChoice::MlxWhisper)
    } else if n == "whisper"@ || n == "local_whisper"@ || n == "sherpa-whisper"@ {
        Some(EngineChoice::Whisper)
    } else {
        None
    }
}

impl EngineChoice {
    pub open spec fn name(self) -> Seq<char> {
        match self {
            EngineChoice::SenseVoice => "sensevoice"@,
            EngineChoice::Qwen => "qwen"@,
            EngineChoice::MlxWhisper => "mlx-whisper"@,
            EngineChoice::Whisper => "whisper"@,
        }
    }

    /// The engine of a name.
    pub fn parse(s: &str) -> (r: Option<Self>)
        ensures
            r == engine_named(s@),
    {
        let trimmed: String = text::trimmed(s);
        let lowered: String = text::lowered(trimmed.as_str());
        let n: &str = lowered.as_str();
        if text::same(n, "sensevoice") || text::same(n, "sv") || text::same(
            n,
            "local_sensevoice",
        ) {
            Some(Self::SenseVoice)
        } else if text::same(n, "qwen") || text::same(n, "qwen3") || text::same(n, "qwen3-asr")
            || text::same(n, "local_qwen") {
            Some(Self::Qwen)
        } else if text::same(n, "mlx-whisper") || text::same(n, "mlx_whisper") || text::same(
            n,
            "whisper-mlx",
        ) || text::same(n, "whisper_mlx") {
            Some(Self::MlxWhisper)
        } else if text::same(n, "whisper") || text::same(n, "local_whisper") || text::same(
            n,
            "sherpa-whisper",
        ) {
            Some(Self::Whisper)
        } else {
            None
        }
    }

    /// The engine's name.
    pub fn as_str(self) -> (r: &'static str)
        ensures
            r@ == self.name(),
    {
        match self {
            Self::SenseVoice => "sensevoice",
            Self::Qwen => "qwen",
            Self::MlxWhisper => "mlx-whisper",
            Self::Whisper => "whisper",
        }
    }
}

#[derive(Debug, Clone, Copy, PartialEq, Eq, Structural)]
pub enum OutputFormat {
    Text,
    Json,
    TranscriptV1,
    /// Human bilingual blocks (source + each target language).
    Bilingual,
}

/// The format of a name, in any case and with white space around it.
pub open spec fn format_named(name: Seq<char>) -> Option<OutputFormat> {
    let n = text::lower(text::trim(name));
    if n == "text"@ || n == "txt"@ {
        Some(OutputFormat::Text)
    } else if n == "json"@ || n == "segments"@ {
        Some(OutputFormat::Json)
    } else if n == "transcript-v1"@ || n == "transcript_v1"@ || n == "v1"@ || n
        == "lumen-transcript"@ {
        Some(OutputFormat::TranscriptV1)
    } else if n == "bilingual"@ || n == "bi"@ || n == "es-zh"@ {
        Some(OutputFormat::Bilingual)
    } else {
        None
    }
}

impl OutputFormat {
    /// The format of a name.
    pub fn parse(s: &str) -> (r: Option<Self>)
        ensures
            r == format_named(s@),
    {
        let trimmed: String = text::trimmed(s);
        let lowered: String = text::lowered(trimmed.as_str());
        let n: &str = lowered.as_str();
        if text::same(n, "text") || text::same(n, "txt") {
            Some(Self::Text)
        } else if text::same(n, "json") || text::same(n, "segments") {
            Some(Self::Json)
        } else if text::same(n, "transcript-v1") || text::same(n, "transcript_v1") || text::same(
            n,
            "v1",
        ) || text::same(n, "lumen-transcript") {
            Some(Self::TranscriptV1)
        } else if text::same(n, "bilingual") || text::same(n, "bi") || text::same(n, "es-zh") {
            Some(Self::Bilingual)
        } else {
            None
        }
    }
}

// ---------------------------------------------------------------------------
// Numbers
// ---------------------------------------------------------------------------

pub open spec fn is_digit(c: char) -> bool {
    '0' <= c <= '9'
}

/// The number that decimal digits stand for.
pub open spec fn number(digits: Seq<char>) -> nat
    decreases digits.len(),
{
    if digits.len() == 0 {
        0
    } else {
        number(digits.drop_last()) * 10 + (digits.last() as nat - '0' as nat) as nat
    }
}

/// The digits of a count, behind a sign `+` where there is one.
pub open spec fn count_digits(s: Seq<char>) -> Seq<char> {
    if s.len() > 0 && s[0] == '+' {
        s.skip(1)
    } else {
        s
    }
}

/// The count that a text stands for: digits that fit, perhaps behind a `+`.
pub open spec fn count_of(s: Seq<char>) -> Option<nat> {
    let digits = count_digits(s);
    if digits.len() > 0 && (forall|i: int| 0 <= i < digits.len() ==> is_digit(#[trigger] digits[i]))
        && number(digits) <= usize::MAX {
        Some(number(digits))
    } else {
        None
    }
}

proof fn lemma_number_grows(digits: Seq<char>, n: int)
    requires
        0 <= n <= digits.len(),
        forall|i: int| 0 <= i < digits.len() ==> is_digit(#[trigger] digits[i]),
    ensures
        number(digits.take(n)) <= number(digits),
    decreases digits.len(),
{
    if n == digits.len() {
        assert(digits.take(n) =~= digits);
    } else {
        let head = digits.drop_last();
        lemma_number_grows(head, n);
        assert(head.take(n) =~= digits.take(n));
    }
}

/// The count that `s` stands for.
pub fn parse_count(s: &str) -> (r: Option<usize>)
    ensures
        match r {
            Some(n) => count_of(s@) == Some(n as nat),
            None => count_of(s@) is None,
        },
{
    let chars: Vec<char> = text::to_chars(s);
    let start: usize = if chars.len() > 0 && chars[0] == '+' {
        1
    } else {
        0
    };
    let ghost digits = count_digits(s@);
    assert(digits =~= chars@.skip(start as int));
    if start == chars.len() {
        return None;
    }
    let mut all_digits: bool = true;
    let mut i: usize = start;
    while i < chars.len()
        invariant
            start <= i <= chars@.len(),
            digits == chars@.skip(start as int),
            all_digits == (forall|j: int| 0 <= j < i - start ==> is_digit(#[trigger] digits[j])),
        decreases chars@.len() - i,
    {
        assert(digits[i - start] == chars@[i as int]);
        if !('0' <= chars[i] && chars[i] <= '9') {
            all_digits = false;
            assert(!is_digit(digits[i - start]));
        }
        i = i + 1;
    }
    if !all_digits {
        return None;
    }
    let mut n: usize = 0;
    let mut k: usize = start;
    assert(digits.take(0) =~= Seq::empty());
    while k < chars.len()
        invariant
            start <= k <= chars@.len(),
            digits == chars@.skip(start as int),
            digits == count_digits(s@),
            digits.len() > 0,
            forall|j: int| 0 <= j < digits.len() ==> is_digit(#[trigger] digits[j]),
            n == number(digits.take(k - start)),
        decreases chars@.len() - k,
    {
        let ghost at = k - start;
        proof {
            assert(digits[at] == chars@[k as int]);
            assert(digits.take(at + 1).drop_last() =~= digits.take(at));
            assert(digits.take(at + 1).last() == digits[at]);
            lemma_number_grows(digits, at + 1);
        }
        let digit: usize = chars[k] as usize - '0' as usize;
        let tens: usize = match n.checked_mul(10) {
            Some(tens) => tens,
            None => return None,
        };
        n = match tens.checked_add(digit) {
            Some(n) => n,
            None => return None,
        };
        k = k + 1;
    }
    assert(digits.take(k - start) =~= digits);
    Some(n)
}

/// The position of the first scalar value of `s`, from `i` on, that is no digit.
pub open spec fn digits_end(s: Seq<char>, i: int) -> int
    decreases s.len() - i,
{
    if 0 <= i < s.len() && is_digit(s[i]) {
        digits_end(s, i + 1)
    } else {
        i
    }
}

/// `c` is a sign.
pub open spec fn is_sign(c: char) -> bool {
    c == '+' || c == '-'
}

/// `s` ends at `i`, or with an exponent that begins there.
pub open spec fn is_exponent(s: Seq<char>, i: int) -> bool {
    if i == s.len() {
        true
    } else if s[i] == 'e' || s[i] == 'E' {
        let j = if i + 1 < s.len() && is_sign(s[i + 1]) {
            i + 2
        } else {
            i + 1
        };
        j < s.len() && digits_end(s, j) == s.len()
    } else {
        false
    }
}

/// Digits with at most one point among them, and at least one digit, and
/// perhaps an exponent behind them, stand in `s` from `i` to its end.
pub open spec fn is_plain_decimal(s: Seq<char>, i: int) -> bool {
    let a = digits_end(s, i);
    if a < s.len() && s[a] == '.' {
        let b = digits_end(s, a + 1);
        (a > i || b > a + 1) && is_exponent(s, b)
    } else {
        a > i && is_exponent(s, a)
    }
}

/// A text that stands for a number with a fraction: a decimal or the name of an
/// infinity or of no number, in any case, perhaps behind a sign.
pub open spec fn is_decimal(s: Seq<char>) -> bool {
    let i: int = if s.len() > 0 && is_sign(s[0]) {
        1
    } else {
        0
    };
    let word = text::lower(s.skip(i));
    word == "inf"@ || word == "infinity"@ || word == "nan"@ || is_plain_decimal(s, i)
}

fn find_digits_end(s: &Vec<char>, start: usize) -> (r: usize)
    requires
        start <= s@.len(),
    ensures
        start <= r <= s@.len(),
        r == digits_end(s@, start as int),
{
    let mut i: usize = start;
    while i < s.len() && '0' <= s[i] && s[i] <= '9'
        invariant
            start <= i <= s@.len(),
            digits_end(s@, start as int) == digits_end(s@, i as int),
        decreases s@.len() - i,
    {
        i = i + 1;
    }
    i
}

fn exponent_at(s: &Vec<char>, i: usize) -> (r: bool)
    requires
        i <= s@.len(),
    ensures
        r == is_exponent(s@, i as int),
{
    let n: usize = s.len();
    if i == n {
        return true;
    }
    if s[i] != 'e' && s[i] != 'E' {
        return false;
    }
    let mut j: usize = i + 1;
    if j < n && (s[j] == '+' || s[j] == '-') {
        j = j + 1;
    }
    j < n && find_digits_end(s, j) == n
}

/// Whether `text` stands for a number with a fraction.
pub fn is_decimal_text(text: &str) -> (r: bool)
    ensures
        r == is_decimal(text@),
{
    let s: Vec<char> = text::to_chars(text);
    let n: usize = s.len();
    let i: usize = if n > 0 && (s[0] == '+' || s[0] == '-') {
        1
    } else {
        0
    };
    let rest: String = text::from_chars(&s, i, n);
    assert(rest@ =~= text@.skip(i as int));
    let word: String = text::lowered(rest.as_str());
    if text::same(word.as_str(), "inf") || text::same(word.as_str(), "infinity") || text::same(
        word.as_str(),
        "nan",
    ) {
        return true;
    }
    let a: usize = find_digits_end(&s, i);
    if a < n && s[a] == '.' {
        let b: usize = find_digits_end(&s, a + 1);
        (a > i || b > a + 1) && exponent_at(&s, b)
    } else {
        a > i && exponent_at(&s, a)
    }
}

// ---------------------------------------------------------------------------
// The arguments of `meeting process`
// ---------------------------------------------------------------------------

/// What `meeting process` was asked to do.
#[derive(Debug, Clone, PartialEq, Eq)]
pub struct MeetingProcessCli {
    pub audio: String,
    pub engine: EngineChoice,
    pub lang: Option<String>,
    pub format: OutputFormat,
    pub max_speakers: usize,
    /// The number of seconds as it was written, where it was given.
    pub min_turn_seconds: Option<String>,
    /// Target languages for per-segment translation.
    pub translate_langs: Vec<String>,
    /// The model's name, where it was given.
    pub mlx_whisper_model: Option<String>,
    /// Structured minutes next to the input file.
    pub minutes: bool,
}

/// The arguments read so far.
#[verifier::ext_equal]
pub struct ProcessArgs {
    pub audio: Option<Seq<char>>,
    pub engine: EngineChoice,
    pub lang: Option<Seq<char>>,
    pub format: OutputFormat,
    pub max_speakers: int,
    pub min_turn_seconds: Option<Seq<char>>,
    pub translate_langs: Seq<Seq<char>>,
    pub mlx_whisper_model: Option<Seq<char>>,
    pub minutes: bool,
}

/// An option with a value.
#[derive(Debug, Clone, Copy, PartialEq, Eq, Structural)]
pub enum ValueOption {
    Engine,
    Lang,
    Format,
    Translate,
    MaxSpeakers,
    MinTurnSeconds,
    MlxWhisperModel,
}

impl ValueOption {
    pub open spec fn flag(self) -> Seq<char> {
        match self {
            ValueOption::Engine => "--engine"@,
            ValueOption::Lang => "--lang"@,
            ValueOption::Format => "--format"@,
            ValueOption::Translate => "--translate"@,
            ValueOption::MaxSpeakers => "--max-speakers"@,
            ValueOption::MinTurnSeconds => "--min-turn-seconds"@,
            ValueOption::MlxWhisperModel => "--mlx-whisper-model"@,
        }
    }
}

/// The option whose value is the next argument.
pub open spec fn separate_option(arg: Seq<char>) -> Option<ValueOption> {
    if arg == "--engine"@ {
        Some(ValueOption::Engine)
    } else if arg == "--lang"@ || arg == "--language"@ {
        Some(ValueOption::Lang)
    } else if arg == "--format"@ {
        Some(ValueOption::Format)
    } else if arg == "--translate"@ {
        Some(ValueOption::Translate)
    } else if arg == "--max-speakers"@ {
        Some(ValueOption::MaxSpeakers)
    } else if arg == "--min-turn-seconds"@ {
        Some(ValueOption::MinTurnSeconds)
    } else if arg == "--mlx-whisper-model"@ {
        Some(ValueOption::MlxWhisperModel)
    } else {
        None
    }
}

/// The option and the value that stand in one argument.
pub open spec fn inline_option(arg: Seq<char>) -> Option<(ValueOption, Seq<char>)> {
    if text::begins(arg, "--engine="@) {
        Some((ValueOption::Engine, arg.skip("--engine="@.len() as int)))
    } else if text::begins(arg, "--lang="@) {
        Some((ValueOption::Lang, arg.skip("--lang="@.len() as int)))
    } else if text::begins(arg, "--language="@) {
        Some((ValueOption::Lang, arg.skip("--language="@.len() as int)))
    } else if text::begins(arg, "--format="@) {
        Some((ValueOption::Format, arg.skip("--format="@.len() as int)))
    } else if text::begins(arg, "--translate="@) {
        Some((ValueOption::Translate, arg.skip("--translate="@.len() as int)))
    } else if text::begins(arg, "--max-speakers="@) {
        Some((ValueOption::MaxSpeakers, arg.skip("--max-speakers="@.len() as int)))
    } else if text::begins(arg, "--min-turn-seconds="@) {
        Some((ValueOption::MinTurnSeconds, arg.skip("--min-turn-seconds="@.len() as int)))
    } else if text::begins(arg, "--mlx-whisper-model="@) {
        Some((ValueOption::MlxWhisperModel, arg.skip("--mlx-whisper-model="@.len() as int)))
    } else {
        None
    }
}

/// `c` stands between two languages of a list.
pub open spec fn between_langs(c: char) -> bool {
    c == ',' || c == ';' || text::is_space(c)
}

/// The languages of a list, in lower case.
pub open spec fn langs_of(raw: Seq<char>) -> Seq<Seq<char>> {
    text::split(raw, |c: char| between_langs(c)).filter(|s: Seq<char>| s.len() > 0).map_values(
        |s: Seq<char>| text::lower(s),
    )
}

impl ProcessArgs {
    pub open spec fn start() -> ProcessArgs {
        ProcessArgs {
            audio: None,
            engine: EngineChoice::SenseVoice,
            lang: None,
            format: OutputFormat::Text,
            max_speakers: 6,
            min_turn_seconds: None,
            translate_langs: Seq::empty(),
            mlx_whisper_model: None,
            minutes: false,
        }
    }

    /// With the value of an option, or the words that refuse it.
    pub open spec fn with_option(self, option: ValueOption, value: Seq<char>) -> Result<
        ProcessArgs,
        Seq<char>,
    > {
        match option {
            ValueOption::Engine => match engine_named(value) {
                Some(engine) => Ok(ProcessArgs { engine, ..self }),
                None => Err(
                    "unknown --engine `"@ + value + "` (sensevoice|qwen|mlx-whisper|whisper)"@,
                ),
            },
            ValueOption::Lang => Ok(ProcessArgs { lang: Some(value), ..self }),
            ValueOption::Format => match format_named(value) {
                Some(format) => Ok(ProcessArgs { format, ..self }),
                None => Err(
                    "unknown --format `"@ + value + "` (text|json|transcript-v1|bilingual)"@,
                ),
            },
            ValueOption::Translate => Ok(
                ProcessArgs { translate_langs: self.translate_langs + langs_of(value), ..self },
            ),
            ValueOption::MaxSpeakers => match count_of(value) {
                Some(n) => Ok(ProcessArgs { max_speakers: n as int, ..self }),
                None => Err("invalid --max-speakers `"@ + value + "`"@),
            },
            ValueOption::MinTurnSeconds => if is_decimal(value) {
                Ok(ProcessArgs { min_turn_seconds: Some(value), ..self })
            } else {
                Err("invalid --min-turn-seconds `"@ + value + "`"@)
            },
            ValueOption::MlxWhisperModel => Ok(
                ProcessArgs { mlx_whisper_model: Some(value), ..self },
            ),
        }
    }

    /// With all arguments from `i` on, or the words that refuse the first that
    /// cannot be taken.
    pub open spec fn read(self, args: Seq<Seq<char>>, i: int) -> Result<ProcessArgs, Seq<char>>
        decreases args.len() - i,
    {
        if i < 0 || i >= args.len() {
            Ok(self)
        } else {
            let arg = args[i];
            if arg == "--json"@ {
                ProcessArgs { format: OutputFormat::Json, ..self }.read(args, i + 1)
            } else if arg == "--minutes"@ {
                ProcessArgs { minutes: true, ..self }.read(args, i + 1)
            } else if let Some(option) = separate_option(arg) {
                if i + 1 >= args.len() {
                    Err("missing value for "@ + option.flag())
                } else {
                    match self.with_option(option, args[i + 1]) {
                        Ok(next) => next.read(args, i + 2),
                        Err(error) => Err(error),
                    }
                }
            } else if let Some((option, value)) = inline_option(arg) {
                match self.with_option(option, value) {
                    Ok(next) => next.read(args, i + 1),
                    Err(error) => Err(error),
                }
            } else if text::begins(arg, "-"@) {
                Err("unexpected argument `"@ + arg + "`"@)
            } else if self.audio is None {
                ProcessArgs { audio: Some(arg), ..self }.read(args, i + 1)
            } else {
                Err("unexpected positional argument `"@ + arg + "`"@)
            }
        }
    }

    /// Complete: there is an audio file, and bilingual output has a language.
    pub open spec fn complete(self) -> Result<ProcessArgs, Seq<char>> {
        if self.audio is None {
            Err(
                "usage: meeting process <audio> [--engine …] [--lang …] [--format …] [--translate zh]"@,
            )
        } else if self.format is Bilingual && self.translate_langs.len() == 0 {
            Ok(ProcessArgs { translate_langs: seq!["zh"@], ..self })
        } else {
            Ok(self)
        }
    }
}

/// What the arguments of `meeting process` ask for.
pub open spec fn process_args(args: Seq<Seq<char>>) -> Result<ProcessArgs, Seq<char>> {
    match ProcessArgs::start().read(args, 0) {
        Ok(read) => read.complete(),
        Err(error) => Err(error),
    }
}

impl View for MeetingProcessCli {
    type V = ProcessArgs;

    open spec fn view(&self) -> ProcessArgs {
        ProcessArgs {
            audio: Some(self.audio@),
            engine: self.engine,
            lang: text::opt(self.lang),
            format: self.format,
            max_speakers: self.max_speakers as int,
            min_turn_seconds: text::opt(self.min_turn_seconds),
            translate_langs: text::texts(self.translate_langs@),
            mlx_whisper_model: text::opt(self.mlx_whisper_model),
            minutes: self.minutes,
        }
    }
}

/// The languages of a list.
pub fn split_langs(raw: &str) -> (r: Vec<String>)
    ensures
        text::texts(r@) == langs_of(raw@),
{
    let is_cut = |c: char| -> (b: bool)
        ensures
            b == between_langs(c),
        { c == ',' || c == ';' || text::char_is_space(c) };
    let pieces: Vec<String> = text::split_where(raw, is_cut, Ghost(|c: char| between_langs(c)));
    let ghost all = text::texts(pieces@);
    let ghost keep = |s: Seq<char>| s.len() > 0;
    let ghost lowered = |s: Seq<char>| text::lower(s);
    let mut langs: Vec<String> = Vec::new();
    let mut i: usize = 0;
    proof {
        reveal(Seq::filter);
        assert(text::texts(langs@) =~= all.take(0).filter(keep).map_values(lowered));
    }
    while i < pieces.len()
        invariant
            i <= pieces@.len(),
            all == text::texts(pieces@),
            keep == (|s: Seq<char>| s.len() > 0),
            lowered == (|s: Seq<char>| text::lower(s)),
            text::texts(langs@) == all.take(i as int).filter(keep).map_values(lowered),
        decreases pieces@.len() - i,
    {
        let ghost before = all.take(i as int).filter(keep);
        proof {
            reveal(Seq::filter);
            assert(all.take(i + 1).drop_last() =~= all.take(i as int));
            assert(all.take(i + 1).last() == pieces@[i as int]@);
        }
        if !pieces[i].as_str().is_empty() {
            let ghost had = text::texts(langs@);
            langs.push(text::lowered(pieces[i].as_str()));
            assert(text::texts(langs@) =~= had.push(text::lower(pieces@[i as int]@)));
            assert(before.push(pieces@[i as int]@).map_values(lowered) =~= had.push(
                text::lower(pieces@[i as int]@),
            ));
        }
        i = i + 1;
    }
    assert(all.take(i as int) =~= all);
    langs
}

/// The arguments read so far.
struct ProcessReader {
    audio: Option<String>,
    engine: EngineChoice,
    lang: Option<String>,
    format: OutputFormat,
    max_speakers: usize,
    min_turn_seconds: Option<String>,
    translate_langs: Vec<String>,
    mlx_whisper_model: Option<String>,
    minutes: bool,
}

impl View for ProcessReader {
    type V = ProcessArgs;

    closed spec fn view(&self) -> ProcessArgs {
        ProcessArgs {
            audio: text::opt(self.audio),
            engine: self.engine,
            lang: text::opt(self.lang),
            format: self.format,
            max_speakers: self.max_speakers as int,
            min_turn_seconds: text::opt(self.min_turn_seconds),
            translate_langs: text::texts(self.translate_langs@),
            mlx_whisper_model: text::opt(self.mlx_whisper_model),
            minutes: self.minutes,
        }
    }
}

fn separate(arg: &str) -> (r: Option<ValueOption>)
    ensures
        r == separate_option(arg@),
{
    if text::same(arg, "--engine") {
        Some(ValueOption::Engine)
    } else if text::same(arg, "--lang") || text::same(arg, "--language") {
        Some(ValueOption::Lang)
    } else if text::same(arg, "--format") {
        Some(ValueOption::Format)
    } else if text::same(arg, "--translate") {
        Some(ValueOption::Translate)
    } else if text::same(arg, "--max-speakers") {
        Some(ValueOption::MaxSpeakers)
    } else if text::same(arg, "--min-turn-seconds") {
        Some(ValueOption::MinTurnSeconds)
    } else if text::same(arg, "--mlx-whisper-model") {
        Some(ValueOption::MlxWhisperModel)
    } else {
        None
    }
}

fn inline(arg: &str) -> (r: Option<(ValueOption, String)>)
    ensures
        r is Some <==> inline_option(arg@) is Some,
        r matches Some((option, value)) ==> inline_option(arg@) == Some((option, value@)),
{
    if let Some(value) = text::after_prefix(arg, "--engine=") {
        Some((ValueOption::Engine, value))
    } else if let Some(value) = text::after_prefix(arg, "--lang=") {
        Some((ValueOption::Lang, value))
    } else if let Some(value) = text::after_prefix(arg, "--language=") {
        Some((ValueOption::Lang, value))
    } else if let Some(value) = text::after_prefix(arg, "--format=") {
        Some((ValueOption::Format, value))
    } else if let Some(value) = text::after_prefix(arg, "--translate=") {
        Some((ValueOption::Translate, value))
    } else if let Some(value) = text::after_prefix(arg, "--max-speakers=") {
        Some((ValueOption::MaxSpeakers, value))
    } else if let Some(value) = text::after_prefix(arg, "--min-turn-seconds=") {
        Some((ValueOption::MinTurnSeconds, value))
    } else if let Some(value) = text::after_prefix(arg, "--mlx-whisper-model=") {
        Some((ValueOption::MlxWhisperModel, value))
    } else {
        None
    }
}

fn flag_name(option: ValueOption) -> (r: &'static str)
    ensures
        r@ == option.flag(),
{
    match option {
        ValueOption::Engine => "--engine",
        ValueOption::Lang => "--lang",
        ValueOption::Format => "--format",
        ValueOption::Translate => "--translate",
        ValueOption::MaxSpeakers => "--max-speakers",
        ValueOption::MinTurnSeconds => "--min-turn-seconds",
        ValueOption::MlxWhisperModel => "--mlx-whisper-model",
    }
}

impl ProcessReader {
    fn set_option(&mut self, option: ValueOption, value: &str) -> (r: Result<(), String>)
        ensures
            match old(self)@.with_option(option, value@) {
                Ok(next) => r is Ok && final(self)@ == next,
                Err(error) => text::fails(r, error),
            },
    {
        match option {
            ValueOption::Engine => {
                self.engine = match EngineChoice::parse(value) {
                    Some(engine) => engine,
                    None => return Err(
                        text::glue3(
                            "unknown --engine `",
                            value,
                            "` (sensevoice|qwen|mlx-whisper|whisper)",
                        ),
                    ),
                };
            },
            ValueOption::Lang => {
                self.lang = Some(value.to_owned());
            },
            ValueOption::Format => {
                self.format = match OutputFormat::parse(value) {
                    Some(format) => format,
                    None => return Err(
                        text::glue3(
                            "unknown --format `",
                            value,
                            "` (text|json|transcript-v1|bilingual)",
                        ),
                    ),
                };
            },
            ValueOption::Translate => {
                let ghost before = text::texts(self.translate_langs@);
                let mut langs: Vec<String> = split_langs(value);
                let ghost added = langs@;
                self.translate_langs.append(&mut langs);
                assert(text::texts(self.translate_langs@) =~= before + text::texts(added));
            },
            ValueOption::MaxSpeakers => {
                self.max_speakers = match parse_count(value) {
                    Some(n) => n,
                    None => return Err(text::glue3("invalid --max-speakers `", value, "`")),
                };
            },
            ValueOption::MinTurnSeconds => {
                if !is_decimal_text(value) {
                    return Err(text::glue3("invalid --min-turn-seconds `", value, "`"));
                }
                self.min_turn_seconds = Some(value.to_owned());
            },
            ValueOption::MlxWhisperModel => {
                self.mlx_whisper_model = Some(value.to_owned());
            },
        }
        Ok(())
    }
}

/// What the arguments of `meeting process` ask for.
pub fn parse_meeting_process_args(args: &Vec<String>) -> (r: Result<MeetingProcessCli, String>)
    ensures
        match process_args(text::texts(args@)) {
            Ok(asked) => r matches Ok(cli) && cli@ == asked,
            Err(error) => text::fails(r, error),
        },
{
    let ghost all = text::texts(args@);
    let mut reader: ProcessReader = ProcessReader {
        audio: None,
        engine: EngineChoice::SenseVoice,
        lang: None,
        format: OutputFormat::Text,
        max_speakers: 6,
        min_turn_seconds: None,
        translate_langs: Vec::new(),
        mlx_whisper_model: None,
        minutes: false,
    };
    assert(reader@ =~= ProcessArgs::start());
    let mut i: usize = 0;
    while i < args.len()
        invariant
            i <= args@.len(),
            all == text::texts(args@),
            ProcessArgs::start().read(all, 0) == reader@.read(all, i as int),
        decreases args@.len() - i,
    {
        let arg: &str = args[i].as_str();
        assert(arg@ == all[i as int]);
        if text::same(arg, "--json") {
            reader.format = OutputFormat::Json;
            i = i + 1;
        } else if text::same(arg, "--minutes") {
            reader.minutes = true;
            i = i + 1;
        } else if let Some(option) = separate(arg) {
            if i + 1 >= args.len() {
                return Err(text::glue("missing value for ", flag_name(option)));
            }
            assert(args@[i + 1]@ == all[i + 1]);
            reader.set_option(option, args[i + 1].as_str())?;
            i = i + 2;
        } else if let Some((option, value)) = inline(arg) {
            reader.set_option(option, value.as_str())?;
            i = i + 1;
        } else if text::starts_with(arg, "-") {
            return Err(text::glue3("unexpected argument `", arg, "`"));
        } else if reader.audio.is_none() {
            reader.audio = Some(arg.to_owned());
            i = i + 1;
        } else {
            return Err(text::glue3("unexpected positional argument `", arg, "`"));
        }
    }
    let audio: String = match reader.audio {
        Some(audio) => audio,
        None => return Err(
            "usage: meeting process <audio> [--engine …] [--lang …] [--format …] [--translate zh]".to_owned(),
        ),
    };
    let bilingual: bool = match reader.format {
        OutputFormat::Bilingual => true,
        _ => false,
    };
    let mut translate_langs: Vec<String> = reader.translate_langs;
    if bilingual && translate_langs.len() == 0 {
        translate_langs.push("zh".to_owned());
        assert(text::texts(translate_langs@) =~= seq!["zh"@]);
    }
    Ok(
        MeetingProcessCli {
            audio,
            engine: reader.engine,
            lang: reader.lang,
            format: reader.format,
            max_speakers: reader.max_speakers,
            min_turn_seconds: reader.min_turn_seconds,
            translate_langs,
            mlx_whisper_model: reader.mlx_whisper_model,
            minutes: reader.minutes,
        },
    )
}

proof fn lemma_not_begun(s: Seq<char>, prefix: Seq<char>, k: int)
    requires
        0 <= k < prefix.len(),
        k < s.len() ==> s[k] != prefix[k],
    ensures
        !text::begins(s, prefix),
{
    if text::begins(s, prefix) {
        assert(s.take(prefix.len() as int)[k] == prefix[k]);
    }
}

proof fn lemma_inline_form(option: ValueOption, value: Seq<char>)
    ensures
        ({
            let arg = option.flag() + "="@ + value;
            &&& arg != "--json"@
            &&& arg != "--minutes"@
            &&& separate_option(arg) is None
            &&& inline_option(arg) == Some((option, value))
            &&& option.flag() != "--json"@
            &&& option.flag() != "--minutes"@
            &&& separate_option(option.flag()) == Some(option)
        }),
{
    reveal_strlit("=");
    reveal_strlit("--json");
    reveal_strlit("--minutes");
    reveal_strlit("--engine");
    reveal_strlit("--lang");
    reveal_strlit("--language");
    reveal_strlit("--format");
    reveal_strlit("--translate");
    reveal_strlit("--max-speakers");
    reveal_strlit("--min-turn-seconds");
    reveal_strlit("--mlx-whisper-model");
    reveal_strlit("--engine=");
    reveal_strlit("--lang=");
    reveal_strlit("--language=");
    reveal_strlit("--format=");
    reveal_strlit("--translate=");
    reveal_strlit("--max-speakers=");
    reveal_strlit("--min-turn-seconds=");
    reveal_strlit("--mlx-whisper-model=");
    let arg = option.flag() + "="@ + value;
    match option {
        ValueOption::Engine => {
            assert(arg[2] != "--json"@[2]);
            assert(arg[2] != "--minutes"@[2]);
            assert(arg.len() > "--engine"@.len());
            assert(arg[2] != "--lang"@[2]);
            assert(arg[2] != "--language"@[2]);
            assert(arg[2] != "--format"@[2]);
            assert(arg[2] != "--translate"@[2]);
            assert(arg[2] != "--max-speakers"@[2]);
            assert(arg[2] != "--min-turn-seconds"@[2]);
            assert(arg[2] != "--mlx-whisper-model"@[2]);
            assert(arg.take("--engine="@.len() as int) =~= "--engine="@);
            assert(arg.skip("--engine="@.len() as int) =~= value);
        },
        ValueOption::Lang => {
            assert(arg[2] != "--json"@[2]);
            assert(arg[2] != "--minutes"@[2]);
            assert(arg[2] != "--engine"@[2]);
            assert(arg.len() > "--lang"@.len());
            assert(arg[6] != "--language"@[6]);
            assert(arg[2] != "--format"@[2]);
            assert(arg[2] != "--translate"@[2]);
            assert(arg[2] != "--max-speakers"@[2]);
            assert(arg[2] != "--min-turn-seconds"@[2]);
            assert(arg[2] != "--mlx-whisper-model"@[2]);
            lemma_not_begun(arg, "--engine="@, 2);
            assert(arg.take("--lang="@.len() as int) =~= "--lang="@);
            assert(arg.skip("--lang="@.len() as int) =~= value);
        },
        ValueOption::Format => {
            assert(arg[2] != "--json"@[2]);
            assert(arg[2] != "--minutes"@[2]);
            assert(arg[2] != "--engine"@[2]);
            assert(arg[2] != "--lang"@[2]);
            assert(arg[2] != "--language"@[2]);
            assert(arg.len() > "--format"@.len());
            assert(arg[2] != "--translate"@[2]);
            assert(arg[2] != "--max-speakers"@[2]);
            assert(arg[2] != "--min-turn-seconds"@[2]);
            assert(arg[2] != "--mlx-whisper-model"@[2]);
            lemma_not_begun(arg, "--engine="@, 2);
            lemma_not_begun(arg, "--lang="@, 2);
            lemma_not_begun(arg, "--language="@, 2);
            assert(arg.take("--format="@.len() as int) =~= "--format="@);
            assert(arg.skip("--format="@.len() as int) =~= value);
        },
        ValueOption::Translate => {
            assert(arg[2] != "--json"@[2]);
            assert(arg[2] != "--minutes"@[2]);
            assert(arg[2] != "--engine"@[2]);
            assert(arg[2] != "--lang"@[2]);
            assert(arg[2] != "--language"@[2]);
            assert(arg[2] != "--format"@[2]);
            assert(arg.len() > "--translate"@.len());
            assert(arg[2] != "--max-speakers"@[2]);
            assert(arg[2] != "--min-turn-seconds"@[2]);
            assert(arg[2] != "--mlx-whisper-model"@[2]);
            lemma_not_begun(arg, "--engine="@, 2);
            lemma_not_begun(arg, "--lang="@, 2);
            lemma_not_begun(arg, "--language="@, 2);
            lemma_not_begun(arg, "--format="@, 2);
            assert(arg.take("--translate="@.len() as int) =~= "--translate="@);
            assert(arg.skip("--translate="@.len() as int) =~= value);
        },
        ValueOption::MaxSpeakers => {
            assert(arg[2] != "--json"@[2]);
            assert(arg[3] != "--minutes"@[3]);
            assert(arg[2] != "--engine"@[2]);
            assert(arg[2] != "--lang"@[2]);
            assert(arg[2] != "--language"@[2]);
            assert(arg[2] != "--format"@[2]);
            assert(arg[2] != "--translate"@[2]);
            assert(arg.len() > "--max-speakers"@.len());
            assert(arg[3] != "--min-turn-seconds"@[3]);
            assert(arg[3] != "--mlx-whisper-model"@[3]);
            lemma_not_begun(arg, "--engine="@, 2);
            lemma_not_begun(arg, "--lang="@, 2);
            lemma_not_begun(arg, "--language="@, 2);
            lemma_not_begun(arg, "--format="@, 2);
            lemma_not_begun(arg, "--translate="@, 2);
            assert(arg.take("--max-speakers="@.len() as int) =~= "--max-speakers="@);
            assert(arg.skip("--max-speakers="@.len() as int) =~= value);
        },
        ValueOption::MinTurnSeconds => {
            assert(arg[2] != "--json"@[2]);
            assert(arg[5] != "--minutes"@[5]);
            assert(arg[2] != "--engine"@[2]);
            assert(arg[2] != "--lang"@[2]);
            assert(arg[2] != "--language"@[2]);
            assert(arg[2] != "--format"@[2]);
            assert(arg[2] != "--translate"@[2]);
            assert(arg[3] != "--max-speakers"@[3]);
            assert(arg.len() > "--min-turn-seconds"@.len());
            assert(arg[3] != "--mlx-whisper-model"@[3]);
            lemma_not_begun(arg, "--engine="@, 2);
            lemma_not_begun(arg, "--lang="@, 2);
            lemma_not_begun(arg, "--language="@, 2);
            lemma_not_begun(arg, "--format="@, 2);
            lemma_not_begun(arg, "--translate="@, 2);
            lemma_not_begun(arg, "--max-speakers="@, 3);
            assert(arg.take("--min-turn-seconds="@.len() as int) =~= "--min-turn-seconds="@);
            assert(arg.skip("--min-turn-seconds="@.len() as int) =~= value);
        },
        ValueOption::MlxWhisperModel => {
            assert(arg[2] != "--json"@[2]);
            assert(arg[3] != "--minutes"@[3]);
            assert(arg[2] != "--engine"@[2]);
            assert(arg[2] != "--lang"@[2]);
            assert(arg[2] != "--language"@[2]);
            assert(arg[2] != "--format"@[2]);
            assert(arg[2] != "--translate"@[2]);
            assert(arg[3] != "--max-speakers"@[3]);
            assert(arg[3] != "--min-turn-seconds"@[3]);
            assert(arg.len() > "--mlx-whisper-model"@.len());
            lemma_not_begun(arg, "--engine="@, 2);
            lemma_not_begun(arg, "--lang="@, 2);
            lemma_not_begun(arg, "--language="@, 2);
            lemma_not_begun(arg, "--format="@, 2);
            lemma_not_begun(arg, "--translate="@, 2);
            lemma_not_begun(arg, "--max-speakers="@, 3);
            lemma_not_begun(arg, "--min-turn-seconds="@, 3);
            assert(arg.take("--mlx-whisper-model="@.len() as int) =~= "--mlx-whisper-model="@);
            assert(arg.skip("--mlx-whisper-model="@.len() as int) =~= value);
        },
    }
    assert(option.flag()[2] == arg[2] && option.flag()[5] == arg[5]);
}

/// An option's value may stand behind `=` or as the next argument: both mean the
/// same.
pub proof fn inline_value_is_the_separate_value(
    asked: ProcessArgs,
    option: ValueOption,
    value: Seq<char>,
)
    ensures
        asked.read(seq![option.flag() + "="@ + value], 0) == asked.read(
            seq![option.flag(), value],
            0,
        ),
{
    lemma_inline_form(option, value);
    reveal_with_fuel(ProcessArgs::read, 3);
}

/// Arguments that are accepted name an audio file, and bilingual output has a
/// language to translate to.
pub proof fn accepted_arguments_are_complete(args: Seq<Seq<char>>)
    ensures
        process_args(args) matches Ok(asked) ==> {
            &&& asked.audio is Some
            &&& asked.format is Bilingual ==> asked.translate_langs.len() > 0
        },
{
}

// ---------------------------------------------------------------------------
// Languages
// ---------------------------------------------------------------------------

/// The short code of a language's name; any other text in lower case.
pub open spec fn short_code(name: Seq<char>) -> Seq<char> {
    let n = text::lower(name);
    if n == "spanish"@ || n == "español"@ || n == "espanol"@ || n == "spa"@ {
        "es"@
    } else if n == "english"@ || n == "eng"@ {
        "en"@
    } else if n == "chinese"@ || n == "中文"@ || n == "zh-cn"@ || n == "zh-hans"@ {
        "zh"@
    } else if n == "japanese"@ || n == "jpn"@ {
        "ja"@
    } else if n == "korean"@ || n == "kor"@ {
        "ko"@
    } else if n == "yue"@ || n == "cantonese"@ {
        "yue"@
    } else {
        n
    }
}

/// The language hint that an engine is given: none where the language is to be
/// detected.
pub open spec fn lang_hint(raw: Seq<char>) -> Option<Seq<char>> {
    let name = text::trim(raw);
    if name.len() == 0 || text::lower(name) == "auto"@ {
        None
    } else {
        Some(short_code(name))
    }
}

/// The language hint that `engine` is given; every engine takes short codes.
pub fn normalize_lang_hint(raw: &str, engine: EngineChoice) -> (r: Option<String>)
    ensures
        text::opt(r) == lang_hint(raw@),
{
    let _ = engine;
    let name: String = text::trimmed(raw);
    let lowered: String = text::lowered(name.as_str());
    let n: &str = lowered.as_str();
    if name.as_str().is_empty() || text::same(n, "auto") {
        return None;
    }
    let code: String = if text::same(n, "spanish") || text::same(n, "español") || text::same(n, "espanol") || text::same(n, "spa") {
        "es".to_owned()
    } else if text::same(n, "english") || text::same(n, "eng") {
        "en".to_owned()
    } else if text::same(n, "chinese") || text::same(n, "中文") || text::same(n, "zh-cn") || text::same(n, "zh-hans") {
        "zh".to_owned()
    } else if text::same(n, "japanese") || text::same(n, "jpn") {
        "ja".to_owned()
    } else if text::same(n, "korean") || text::same(n, "kor") {
        "ko".to_owned()
    } else if text::same(n, "yue") || text::same(n, "cantonese") {
        "yue".to_owned()
    } else {
        lowered
    };
    Some(code)
}

/// The English name of a language's code; any other text in lower case.
pub open spec fn lang_name(code: Seq<char>) -> Seq<char> {
    let n = text::lower(code);
    if n == "zh"@ || n == "zh-cn"@ || n == "zh-hans"@ || n == "cn"@ || n == "chinese"@ {
        "Chinese"@
    } else if n == "en"@ || n == "eng"@ || n == "english"@ {
        "English"@
    } else if n == "es"@ || n == "spa"@ || n == "spanish"@ {
        "Spanish"@
    } else if n == "ja"@ || n == "jpn"@ || n == "japanese"@ {
        "Japanese"@
    } else {
        n
    }
}

/// The English name of a language's code.
pub fn display_lang_name(code: &str) -> (r: String)
    ensures
        r@ == lang_name(code@),
{
    let lowered: String = text::lowered(code);
    let n: &str = lowered.as_str();
    if text::same(n, "zh") || text::same(n, "zh-cn") || text::same(n, "zh-hans") || text::same(n, "cn") || text::same(n, "chinese") {
        "Chinese".to_owned()
    } else if text::same(n, "en") || text::same(n, "eng") || text::same(n, "english") {
        "English".to_owned()
    } else if text::same(n, "es") || text::same(n, "spa") || text::same(n, "spanish") {
        "Spanish".to_owned()
    } else if text::same(n, "ja") || text::same(n, "jpn") || text::same(n, "japanese") {
        "Japanese".to_owned()
    } else {
        lowered
    }
}

/// What stands before the first separator of a language tag.
pub open spec fn primary_tag(lang: Seq<char>) -> Seq<char> {
    text::until(lang, |c: char| c == '-' || c == '_' || c == ' ')
}

fn primary_of(lang: &str) -> (r: String)
    ensures
        r@ == primary_tag(lang@),
{
    let cut = |c: char| -> (b: bool)
        ensures
            b == (c == '-' || c == '_' || c == ' '),
        { c == '-' || c == '_' || c == ' ' };
    text::until_where(lang, cut, Ghost(|c: char| c == '-' || c == '_' || c == ' '))
}

pub open spec fn is_alphanumeric(c: char) -> bool {
    is_digit(c) || 'a' <= c <= 'z' || 'A' <= c <= 'Z'
}

/// One to eight letters and digits.
pub open spec fn is_plain_code(s: Seq<char>) -> bool {
    0 < s.len() <= 8 && forall|i: int| 0 <= i < s.len() ==> is_alphanumeric(#[trigger] s[i])
}

/// The tag of a primary language; a plain code is its own tag, in upper case.
pub open spec fn tag_of_primary(primary: Seq<char>) -> Seq<char> {
    if primary == "es"@ || primary == "spa"@ || primary == "spanish"@ || primary == "español"@ || primary == "espanol"@ {
        "ES"@
    } else if primary == "zh"@ || primary == "cn"@ || primary == "chinese"@ || primary == "中文"@ {
        "ZH"@
    } else if primary == "en"@ || primary == "eng"@ || primary == "english"@ {
        "EN"@
    } else if primary == "ja"@ || primary == "jpn"@ || primary == "japanese"@ {
        "JA"@
    } else if primary == "ko"@ || primary == "kor"@ || primary == "korean"@ {
        "KO"@
    } else if primary == "yue"@ || primary == "cantonese"@ {
        "YUE"@
    } else if primary == "fr"@ || primary == "fra"@ || primary == "french"@ {
        "FR"@
    } else if primary == "de"@ || primary == "deu"@ || primary == "german"@ {
        "DE"@
    } else if primary == "pt"@ || primary == "por"@ || primary == "portuguese"@ {
        "PT"@
    } else if is_plain_code(primary) {
        text::upper(primary)
    } else {
        "SRC"@
    }
}

/// The tag of the source line of a bilingual transcript; `SRC` where the
/// language is not known or is to be detected.
pub open spec fn source_tag(lang: Option<Seq<char>>) -> Seq<char> {
    match lang {
        Some(raw) => {
            let name = text::lower(text::trim(raw));
            if name.len() == 0 || name == "auto"@ {
                "SRC"@
            } else {
                tag_of_primary(primary_tag(name))
            }
        },
        None => "SRC"@,
    }
}

/// Every source line has a tag: it is never empty, and is `SRC` wherever no language
/// can be told from what was written.
pub proof fn source_tag_is_never_empty(lang: Option<Seq<char>>)
    ensures
        source_tag(lang).len() > 0,
        lang matches Some(raw) ==> primary_tag(text::lower(text::trim(raw))).len() == 0
            ==> source_tag(lang) == "SRC"@,
{
    reveal_strlit("SRC");
    reveal_strlit("ES");
    reveal_strlit("ZH");
    reveal_strlit("EN");
    reveal_strlit("JA");
    reveal_strlit("KO");
    reveal_strlit("YUE");
    reveal_strlit("FR");
    reveal_strlit("DE");
    reveal_strlit("PT");
    lemma_primaries_are_written();
}

proof fn lemma_primaries_are_written()
    ensures
        tag_of_primary(Seq::empty()) == "SRC"@,
{
    reveal_strlit("es");
    reveal_strlit("spa");
    reveal_strlit("spanish");
    reveal_strlit("español");
    reveal_strlit("espanol");
    reveal_strlit("zh");
    reveal_strlit("cn");
    reveal_strlit("chinese");
    reveal_strlit("中文");
    reveal_strlit("en");
    reveal_strlit("eng");
    reveal_strlit("english");
    reveal_strlit("ja");
    reveal_strlit("jpn");
    reveal_strlit("japanese");
    reveal_strlit("ko");
    reveal_strlit("kor");
    reveal_strlit("korean");
    reveal_strlit("yue");
    reveal_strlit("cantonese");
    reveal_strlit("fr");
    reveal_strlit("fra");
    reveal_strlit("french");
    reveal_strlit("de");
    reveal_strlit("deu");
    reveal_strlit("german");
    reveal_strlit("pt");
    reveal_strlit("por");
    reveal_strlit("portuguese");
    assert("es"@.len() > 0);
    assert("spa"@.len() > 0);
    assert("spanish"@.len() > 0);
    assert("español"@.len() > 0);
    assert("espanol"@.len() > 0);
    assert("zh"@.len() > 0);
    assert("cn"@.len() > 0);
    assert("chinese"@.len() > 0);
    assert("中文"@.len() > 0);
    assert("en"@.len() > 0);
    assert("eng"@.len() > 0);
    assert("english"@.len() > 0);
    assert("ja"@.len() > 0);
    assert("jpn"@.len() > 0);
    assert("japanese"@.len() > 0);
    assert("ko"@.len() > 0);
    assert("kor"@.len() > 0);
    assert("korean"@.len() > 0);
    assert("yue"@.len() > 0);
    assert("cantonese"@.len() > 0);
    assert("fr"@.len() > 0);
    assert("fra"@.len() > 0);
    assert("french"@.len() > 0);
    assert("de"@.len() > 0);
    assert("deu"@.len() > 0);
    assert("german"@.len() > 0);
    assert("pt"@.len() > 0);
    assert("por"@.len() > 0);
    assert("portuguese"@.len() > 0);
}

fn plain_code(s: &str) -> (r: bool)
    ensures
        r == is_plain_code(s@),
{
    let chars: Vec<char> = text::to_chars(s);
    if chars.len() == 0 || chars.len() > 8 {
        return false;
    }
    let mut i: usize = 0;
    while i < chars.len()
        invariant
            chars@ == s@,
            i <= chars@.len(),
            forall|j: int| 0 <= j < i ==> is_alphanumeric(#[trigger] chars@[j]),
        decreases chars@.len() - i,
    {
        let c: char = chars[i];
        if !(('0' <= c && c <= '9') || ('a' <= c && c <= 'z') || ('A' <= c && c <= 'Z')) {
            assert(!is_alphanumeric(s@[i as int]));
            return false;
        }
        i = i + 1;
    }
    true
}

/// Compact upper-case tag for the source line of a bilingual transcript.
pub fn source_lang_tag(lang: Option<&str>) -> (r: String)
    ensures
        r@ == source_tag(
            match lang {
                Some(s) => Some(s@),
                None => None,
            },
        ),
{
    let raw: String = match lang {
        Some(raw) => text::trimmed(raw),
        None => return "SRC".to_owned(),
    };
    let name: String = text::lowered(raw.as_str());
    if name.as_str().is_empty() || text::same(name.as_str(), "auto") {
        return "SRC".to_owned();
    }
    let primary: String = primary_of(name.as_str());
    let p: &str = primary.as_str();
    if text::same(p, "es") || text::same(p, "spa") || text::same(p, "spanish") || text::same(p, "español") || text::same(p, "espanol") {
        "ES".to_owned()
    } else if text::same(p, "zh") || text::same(p, "cn") || text::same(p, "chinese") || text::same(p, "中文") {
        "ZH".to_owned()
    } else if text::same(p, "en") || text::same(p, "eng") || text::same(p, "english") {
        "EN".to_owned()
    } else if text::same(p, "ja") || text::same(p, "jpn") || text::same(p, "japanese") {
        "JA".to_owned()
    } else if text::same(p, "ko") || text::same(p, "kor") || text::same(p, "korean") {
        "KO".to_owned()
    } else if text::same(p, "yue") || text::same(p, "cantonese") {
        "YUE".to_owned()
    } else if text::same(p, "fr") || text::same(p, "fra") || text::same(p, "french") {
        "FR".to_owned()
    } else if text::same(p, "de") || text::same(p, "deu") || text::same(p, "german") {
        "DE".to_owned()
    } else if text::same(p, "pt") || text::same(p, "por") || text::same(p, "portuguese") {
        "PT".to_owned()
    } else if plain_code(p) {
        text::uppered(p)
    } else {
        "SRC".to_owned()
    }
}

/// The languages that SenseVoice knows.
pub open spec fn sensevoice_knows(primary: Seq<char>) -> bool {
    ||| primary == "zh"@
    ||| primary == "cn"@
    ||| primary == "chinese"@
    ||| primary == "中文"@
    ||| primary == "en"@
    ||| primary == "eng"@
    ||| primary == "english"@
    ||| primary == "ja"@
    ||| primary == "jpn"@
    ||| primary == "japanese"@
    ||| primary == "ko"@
    ||| primary == "kor"@
    ||| primary == "korean"@
    ||| primary == "yue"@
    ||| primary == "cantonese"@
}

/// SenseVoice can transcribe the language: it knows it, or is to detect it.
pub open spec fn sensevoice_supports(lang: Seq<char>) -> bool {
    let name = text::lower(text::trim(lang));
    name.len() == 0 || name == "auto"@ || sensevoice_knows(primary_tag(name))
}

/// Whether SenseVoice can transcribe `lang`.
pub fn sensevoice_supports_lang(lang: &str) -> (r: bool)
    ensures
        r == sensevoice_supports(lang@),
{
    let trimmed: String = text::trimmed(lang);
    let name: String = text::lowered(trimmed.as_str());
    if name.as_str().is_empty() || text::same(name.as_str(), "auto") {
        return true;
    }
    let primary: String = primary_of(name.as_str());
    let p: &str = primary.as_str();
    text::same(p, "zh") || text::same(p, "cn") || text::same(p, "chinese") || text::same(p, "中文") || text::same(p, "en") || text::same(p, "eng") || text::same(p, "english") || text::same(p, "ja") || text::same(p, "jpn") || text::same(p, "japanese") || text::same(p, "ko") || text::same(p, "kor") || text::same(p, "korean") || text::same(p, "yue") || text::same(p, "cantonese")
}

/// An engine and a language that go together.
pub open spec fn engine_takes(engine: EngineChoice, lang: Option<Seq<char>>) -> bool {
    engine is SenseVoice ==> match lang {
        Some(raw) => sensevoice_supports(raw),
        None => true,
    }
}

/// The words that refuse a language for SenseVoice.
pub open spec fn unsupported(lang: Seq<char>) -> Seq<char> {
    "engine `sensevoice` does not support language `"@ + lang
        + "` (official: zh/en/ja/ko/yue). Use `--engine mlx-whisper` or `--engine qwen` for multi-lingual file ASR, or omit `--lang` for CJK dictation defaults"@
}

/// Reject engine/language pairs that would silently produce garbage text.
pub fn check_engine_lang(engine: EngineChoice, lang: Option<&str>) -> (r: Result<(), String>)
    ensures
        r is Ok <==> engine_takes(
            engine,
            match lang {
                Some(s) => Some(s@),
                None => None,
            },
        ),
        r is Err ==> text::fails(r, unsupported(text::trim(lang->0@))),
{
    let raw: String = match lang {
        Some(raw) => text::trimmed(raw),
        None => return Ok(()),
    };
    proof {
        text::lemma_trim_twice(lang->0@);
    }
    match engine {
        EngineChoice::SenseVoice => {
            if sensevoice_supports_lang(raw.as_str()) {
                Ok(())
            } else {
                Err(
                    text::glue3(
                        "engine `sensevoice` does not support language `",
                        raw.as_str(),
                        "` (official: zh/en/ja/ko/yue). Use `--engine mlx-whisper` or `--engine qwen` for multi-lingual file ASR, or omit `--lang` for CJK dictation defaults",
                    ),
                )
            }
        },
        _ => Ok(()),
    }
}

// ---------------------------------------------------------------------------
// Files
// ---------------------------------------------------------------------------

/// Where the minutes of an audio file are written: next to it, under its name.
pub open spec fn minutes_path(audio: Seq<char>, windows: bool) -> Seq<char> {
    let stem = match paths::stem_of(audio, windows) {
        Some(stem) => stem,
        None => "meeting"@,
    };
    let name = stem + ".minutes.md"@;
    match paths::parent_of(audio, windows) {
        Some(parent) => if parent.len() > 0 {
            paths::join(parent, name, windows)
        } else {
            name
        },
        None => name,
    }
}

/// Where the minutes of `audio` are written.
pub fn minutes_output_path(audio: &str, platform: Platform) -> (r: String)
    ensures
        r@ == minutes_path(audio@, platform is Windows),
{
    let stem: String = match paths::file_stem(audio, platform) {
        Some(stem) => stem,
        None => "meeting".to_owned(),
    };
    let name: String = text::glue(stem.as_str(), ".minutes.md");
    match paths::parent(audio, platform) {
        Some(parent) => if parent.as_str().is_empty() {
            name
        } else {
            paths::joined(parent.as_str(), name.as_str(), platform)
        },
        None => name,
    }
}

// ---------------------------------------------------------------------------
// Commands
// ---------------------------------------------------------------------------

/// A command that runs without the desktop app.
#[derive(Debug, Clone, Copy, PartialEq, Eq, Structural)]
pub enum HeadlessCommand {
    BuildInfo,
    MeetingProcess,
    MeetingCompact,
    VoiceprintMatch,
    Help,
}

/// The command that the process arguments name; none for the desktop app.
pub open spec fn command_of(args: Seq<Seq<char>>) -> Option<HeadlessCommand> {
    if args.len() == 0 {
        None
    } else if args[0] == "--build-info"@ || args[0] == "--version"@ {
        Some(HeadlessCommand::BuildInfo)
    } else if args[0] == "meeting"@ && args.len() > 1 && args[1] == "process"@ {
        Some(HeadlessCommand::MeetingProcess)
    } else if args[0] == "meeting"@ && args.len() > 1 && args[1] == "compact"@ {
        Some(HeadlessCommand::MeetingCompact)
    } else if args[0] == "voiceprint-match"@ {
        Some(HeadlessCommand::VoiceprintMatch)
    } else if args[0] == "--help"@ || args[0] == "-h"@ {
        Some(HeadlessCommand::Help)
    } else {
        None
    }
}

impl HeadlessCommand {
    /// How many arguments name the command.
    pub open spec fn words(self) -> int {
        match self {
            HeadlessCommand::MeetingProcess | HeadlessCommand::MeetingCompact => 2,
            _ => 1,
        }
    }
}

/// The command that the process arguments name, and the arguments that are its
/// own.
pub fn headless_command(args: &Vec<String>) -> (r: Option<(HeadlessCommand, Vec<String>)>)
    ensures
        match command_of(text::texts(args@)) {
            Some(command) => r matches Some((c, rest)) && c == command && text::texts(rest@)
                == text::texts(args@).skip(command.words()),
            None => r is None,
        },
{
    let ghost all = text::texts(args@);
    if args.len() == 0 {
        return None;
    }
    let first: &str = args[0].as_str();
    assert(first@ == all[0]);
    assert(args@.len() > 1 ==> all[1] == args@[1]@);
    let (command, words): (HeadlessCommand, usize) = if text::same(first, "--build-info")
        || text::same(first, "--version") {
        (HeadlessCommand::BuildInfo, 1)
    } else if text::same(first, "meeting") && args.len() > 1 && text::same(
        args[1].as_str(),
        "process",
    ) {
        (HeadlessCommand::MeetingProcess, 2)
    } else if text::same(first, "meeting") && args.len() > 1 && text::same(
        args[1].as_str(),
        "compact",
    ) {
        (HeadlessCommand::MeetingCompact, 2)
    } else if text::same(first, "voiceprint-match") {
        (HeadlessCommand::VoiceprintMatch, 1)
    } else if text::same(first, "--help") || text::same(first, "-h") {
        (HeadlessCommand::Help, 1)
    } else {
        return None;
    };
    let mut rest: Vec<String> = Vec::new();
    let mut i: usize = words;
    while i < args.len()
        invariant
            words <= i <= args@.len(),
            all == text::texts(args@),
            text::texts(rest@) == all.subrange(words as int, i as int),
        decreases args@.len() - i,
    {
        let ghost had = text::texts(rest@);
        rest.push(args[i].as_str().to_owned());
        assert(text::texts(rest@) =~= had.push(all[i as int]));
        i = i + 1;
    }
    assert(all.subrange(words as int, i as int) =~= all.skip(words as int));
    Some((command, rest))
}

// ---------------------------------------------------------------------------
// The arguments of `meeting compact` and `voiceprint-match`
// ---------------------------------------------------------------------------

/// What `meeting compact` was asked to do.
#[derive(Debug, Clone, Copy, PartialEq, Eq, Structural)]
pub struct CompactArgs {
    /// Nothing is written.
    pub dry_run: bool,
    /// The one meeting to compact; all meetings without it.
    pub meeting: Option<u128>,
}

impl CompactArgs {
    /// With the meeting of a text, which `read` is the reading of.
    pub open spec fn with_meeting(self, raw: Seq<char>, read: Result<u128, Seq<char>>) -> Result<
        CompactArgs,
        Seq<char>,
    > {
        match read {
            Ok(id) => Ok(CompactArgs { meeting: Some(id), ..self }),
            Err(_) => Err("meeting compact: invalid meeting id `"@ + raw + "`"@),
        }
    }

    /// With all arguments from `i` on, where `read` says how a text is read as an
    /// identifier.
    pub open spec fn read(
        self,
        args: Seq<Seq<char>>,
        i: int,
        read: spec_fn(Seq<char>) -> Result<u128, Seq<char>>,
    ) -> Result<CompactArgs, Seq<char>>
        decreases args.len() - i,
    {
        if i < 0 || i >= args.len() {
            Ok(self)
        } else if args[i] == "--dry-run"@ {
            CompactArgs { dry_run: true, ..self }.read(args, i + 1, read)
        } else if args[i] == "--meeting"@ {
            if i + 1 >= args.len() {
                Err("meeting compact: missing value for --meeting"@)
            } else {
                match self.with_meeting(args[i + 1], read(args[i + 1])) {
                    Ok(next) => next.read(args, i + 2, read),
                    Err(error) => Err(error),
                }
            }
        } else if text::begins(args[i], "--meeting="@) {
            let raw = args[i].skip("--meeting="@.len() as int);
            match self.with_meeting(raw, read(raw)) {
                Ok(next) => next.read(args, i + 1, read),
                Err(error) => Err(error),
            }
        } else {
            Err(
                "meeting compact: unexpected argument `"@ + args[i]
                    + "`\nusage: meeting compact [--dry-run] [--meeting <id>]"@,
            )
        }
    }

    /// Takes the reading of `raw` as the meeting.
    pub fn set_meeting(&mut self, raw: &str, read: Result<u128, String>) -> (r: Result<(), String>)
        ensures
            match old(self).with_meeting(raw@, result_seen(read)) {
                Ok(next) => r is Ok && *final(self) == next,
                Err(error) => text::fails(r, error),
            },
    {
        match read {
            Ok(id) => {
                self.meeting = Some(id);
                Ok(())
            },
            Err(_) => Err(text::glue3("meeting compact: invalid meeting id `", raw, "`")),
        }
    }
}

/// A result whose error is a text, as a value.
pub open spec fn result_seen(r: Result<u128, String>) -> Result<u128, Seq<char>> {
    match r {
        Ok(id) => Ok(id),
        Err(error) => Err(error@),
    }
}

/// What the arguments of `meeting compact` ask for.
pub fn parse_compact_args(args: &Vec<String>) -> (r: Result<CompactArgs, String>)
    ensures
        match (CompactArgs { dry_run: false, meeting: None }).read(
            text::texts(args@),
            0,
            |raw: Seq<char>| outside::uuid_parsed(raw),
        ) {
            Ok(asked) => r == Ok::<CompactArgs, String>(asked),
            Err(error) => text::fails(r, error),
        },
{
    let ghost all = text::texts(args@);
    let ghost read = |raw: Seq<char>| outside::uuid_parsed(raw);
    let mut asked: CompactArgs = CompactArgs { dry_run: false, meeting: None };
    let ghost start = asked;
    let mut i: usize = 0;
    while i < args.len()
        invariant
            i <= args@.len(),
            all == text::texts(args@),
            read == (|raw: Seq<char>| outside::uuid_parsed(raw)),
            start == (CompactArgs { dry_run: false, meeting: None }),
            start.read(all, 0, read) == asked.read(all, i as int, read),
        decreases args@.len() - i,
    {
        let arg: &str = args[i].as_str();
        assert(arg@ == all[i as int]);
        if text::same(arg, "--dry-run") {
            asked.dry_run = true;
            i = i + 1;
        } else if text::same(arg, "--meeting") {
            if i + 1 >= args.len() {
                return Err("meeting compact: missing value for --meeting".to_owned());
            }
            let raw: &str = args[i + 1].as_str();
            assert(raw@ == all[i + 1]);
            asked.set_meeting(raw, outside::parse_uuid(raw))?;
            i = i + 2;
        } else if let Some(raw) = text::after_prefix(arg, "--meeting=") {
            asked.set_meeting(raw.as_str(), outside::parse_uuid(raw.as_str()))?;
            i = i + 1;
        } else {
            return Err(
                text::glue3(
                    "meeting compact: unexpected argument `",
                    arg,
                    "`\nusage: meeting compact [--dry-run] [--meeting <id>]",
                ),
            );
        }
    }
    Ok(asked)
}

/// The meeting that `voiceprint-match` was asked for, where `read` is the reading
/// of the first argument.
pub fn voiceprint_meeting(args: &Vec<String>, read: Result<u128, String>) -> (r: Result<
    u128,
    String,
>)
    ensures
        args@.len() == 0 ==> text::fails(r, "usage: voiceprint-match <meeting_id>"@),
        args@.len() > 0 ==> match read {
            Ok(id) => r == Ok::<u128, String>(id),
            Err(_) => text::fails(
                r,
                "voiceprint-match: invalid meeting id `"@ + args@[0]@ + "`"@,
            ),
        },
{
    if args.len() == 0 {
        return Err("usage: voiceprint-match <meeting_id>".to_owned());
    }
    match read {
        Ok(id) => Ok(id),
        Err(_) => Err(
            text::glue3("voiceprint-match: invalid meeting id `", args[0].as_str(), "`"),
        ),
    }
}

/// The meeting that the arguments of `voiceprint-match` name.
pub fn parse_voiceprint_args(args: &Vec<String>) -> (r: Result<u128, String>)
    ensures
        args@.len() == 0 ==> text::fails(r, "usage: voiceprint-match <meeting_id>"@),
        args@.len() > 0 ==> match outside::uuid_parsed(args@[0]@) {
            Ok(id) => r == Ok::<u128, String>(id),
            Err(_) => text::fails(
                r,
                "voiceprint-match: invalid meeting id `"@ + args@[0]@ + "`"@,
            ),
        },
{
    let read: Result<u128, String> = if args.len() == 0 {
        Err(String::new())
    } else {
        outside::parse_uuid(args[0].as_str())
    };
    voiceprint_meeting(args, read)
}

// ---------------------------------------------------------------------------
// Sizes
// ---------------------------------------------------------------------------

/// `n / d` to the nearest whole number; of two that are as near, the even one.
pub open spec fn nearest(n: nat, d: nat) -> nat {
    let q = n / d;
    let twice = 2 * (n % d);
    if twice > d || (twice == d && q % 2 == 1) {
        q + 1
    } else {
        q
    }
}

/// How far apart the numbers of 53 binary digits are about `n`.
pub open spec fn spacing(n: nat) -> nat
    decreases n,
{
    if n < 0x20_0000_0000_0000 {
        1
    } else {
        2 * spacing(n / 2)
    }
}

/// `n` to 53 binary digits.
pub open spec fn rounded(n: nat) -> nat {
    nearest(n, spacing(n)) * spacing(n)
}

/// How often a size is divided by 1024, at most three times.
pub open spec fn size_unit(size: nat) -> nat {
    if size < 1024 {
        0
    } else if size < 1024 * 1024 {
        1
    } else if size < 1024 * 1024 * 1024 {
        2
    } else {
        3
    }
}

/// 1024 to the power of `unit`, for the units of a size.
pub open spec fn unit_bytes(unit: nat) -> nat {
    if unit == 0 {
        1
    } else if unit == 1 {
        1024
    } else if unit == 2 {
        1024 * 1024
    } else {
        1024 * 1024 * 1024
    }
}

pub open spec fn unit_name(unit: nat) -> Seq<char> {
    if unit == 0 {
        " B"@
    } else if unit == 1 {
        " KB"@
    } else if unit == 2 {
        " MB"@
    } else {
        " GB"@
    }
}

/// A size as a reader sees it: bytes as they are, anything larger in its unit
/// with one decimal.
pub open spec fn size_text(bytes: nat) -> Seq<char> {
    let size = rounded(bytes);
    let unit = size_unit(size);
    if unit == 0 {
        text::decimal(bytes) + unit_name(0)
    } else {
        let tenths = nearest(size * 10, unit_bytes(unit));
        text::decimal(tenths / 10) + "."@ + text::decimal(tenths % 10) + unit_name(unit)
    }
}

proof fn lemma_spacing(n: nat)
    ensures
        spacing(n) >= 1,
        n > 0 ==> spacing(n) <= n,
        n < 0x20_0000_0000_0000 ==> rounded(n) == n,
    decreases n,
{
    if n >= 0x20_0000_0000_0000 {
        lemma_spacing(n / 2);
    } else {
        assert(n / 1 == n && n % 1 == 0);
        assert(spacing(n) == 1);
        assert(nearest(n, 1) == n);
        assert(n * 1 == n);
    }
}

fn spacing_of(n: u64) -> (r: u64)
    ensures
        r == spacing(n as nat),
        r >= 1,
    decreases n,
{
    proof {
        lemma_spacing(n as nat);
        lemma_spacing((n / 2) as nat);
    }
    if n < 0x20_0000_0000_0000 {
        1
    } else {
        2 * spacing_of(n / 2)
    }
}

fn nearest_of(n: u128, d: u128) -> (r: u128)
    requires
        d >= 1,
        n < 0x1000_0000_0000_0000_0000,
        d < 0x1000_0000_0000_0000_0000,
    ensures
        r == nearest(n as nat, d as nat),
        r <= n / d + 1,
{
    let q: u128 = n / d;
    let rest: u128 = n % d;
    assert(q <= n) by (nonlinear_arith)
        requires
            q == n / d,
            d >= 1,
    ;
    if 2 * rest > d || (2 * rest == d && q % 2 == 1) {
        q + 1
    } else {
        q
    }
}

/// A size as a reader sees it.
pub fn format_bytes(bytes: u64) -> (r: String)
    ensures
        r@ == size_text(bytes as nat),
{
    let gap: u128 = spacing_of(bytes) as u128;
    proof {
        lemma_spacing(bytes as nat);
    }
    let quotient: u128 = nearest_of(bytes as u128, gap);
    assert(0 <= quotient * gap < 0x2_0000_0000_0000_0000) by (nonlinear_arith)
        requires
            quotient <= (bytes as u128) / gap + 1,
            1 <= gap < 0x1_0000_0000_0000_0000,
            bytes < 0x1_0000_0000_0000_0000,
    ;
    let size: u128 = quotient * gap;
    if size < 1024 {
        return text::glue(text::decimal_text(bytes).as_str(), " B");
    }
    let (unit, name): (u128, &str) = if size < 1024 * 1024 {
        (1024, " KB")
    } else if size < 1024 * 1024 * 1024 {
        (1024 * 1024, " MB")
    } else {
        (1024 * 1024 * 1024, " GB")
    };
    let tenths: u128 = nearest_of(size * 10, unit);
    proof {
        let scaled: int = size * 10;
        assert(scaled < 20 * 0x1_0000_0000_0000_0000);
        if size < 1024 * 1024 {
            assert(scaled / 1024 <= scaled);
            assert(scaled < 10 * 1024 * 1024);
        } else if size < 1024 * 1024 * 1024 {
            assert(scaled / 1_048_576 <= scaled);
            assert(scaled < 10 * 1024 * 1024 * 1024);
        } else {
            assert(scaled / 1_073_741_824 <= 20 * 0x4_0000_0000);
        }
        assert(tenths < 0x1_0000_0000_0000_0000);
        assert(size == rounded(bytes as nat));
        assert(unit == unit_bytes(size_unit(size as nat)));
    }
    let whole: String = text::decimal_text((tenths / 10) as u64);
    let part: String = text::decimal_text((tenths % 10) as u64);
    let digits: String = text::glue3(whole.as_str(), ".", part.as_str());
    text::glue(digits.as_str(), name)
}

// ---------------------------------------------------------------------------
// Laws of the command line
// ---------------------------------------------------------------------------

/// Each output format is asked for by its own names, in any case and with white space
/// around them, and by no others.
pub proof fn formats_have_their_names(name: Seq<char>)
    ensures
        format_named("text"@) == Some(OutputFormat::Text),
        format_named("txt"@) == Some(OutputFormat::Text),
        format_named("json"@) == Some(OutputFormat::Json),
        format_named("segments"@) == Some(OutputFormat::Json),
        format_named("transcript-v1"@) == Some(OutputFormat::TranscriptV1),
        format_named("transcript_v1"@) == Some(OutputFormat::TranscriptV1),
        format_named("v1"@) == Some(OutputFormat::TranscriptV1),
        format_named("lumen-transcript"@) == Some(OutputFormat::TranscriptV1),
        format_named("bilingual"@) == Some(OutputFormat::Bilingual),
        format_named("bi"@) == Some(OutputFormat::Bilingual),
        format_named("es-zh"@) == Some(OutputFormat::Bilingual),
        format_named(name) == format_named(text::lower(text::trim(name))),
        format_named(name) == Some(OutputFormat::Text) ==> text::lower(text::trim(name)) == "text"@ || text::lower(text::trim(name)) == "txt"@,
        format_named(name) == Some(OutputFormat::Json) ==> text::lower(text::trim(name)) == "json"@ || text::lower(text::trim(name)) == "segments"@,
        format_named(name) == Some(OutputFormat::TranscriptV1) ==> text::lower(text::trim(name)) == "transcript-v1"@ || text::lower(text::trim(name)) == "transcript_v1"@ || text::lower(text::trim(name)) == "v1"@ || text::lower(text::trim(name)) == "lumen-transcript"@,
        format_named(name) == Some(OutputFormat::Bilingual) ==> text::lower(text::trim(name)) == "bilingual"@ || text::lower(text::trim(name)) == "bi"@ || text::lower(text::trim(name)) == "es-zh"@,
{
    reveal_strlit("text");
    reveal_strlit("txt");
    reveal_strlit("json");
    reveal_strlit("segments");
    reveal_strlit("transcript-v1");
    reveal_strlit("transcript_v1");
    reveal_strlit("v1");
    reveal_strlit("lumen-transcript");
    reveal_strlit("bilingual");
    reveal_strlit("bi");
    reveal_strlit("es-zh");
    assert("text"@.len() == 4 && "text"@[0] == 't' && "text"@[1] == 'e' && "text"@[2] == 'x'
        && "text"@[3] == 't');
    assert("txt"@.len() == 3 && "txt"@[0] == 't' && "txt"@[1] == 'x' && "txt"@[2] == 't');
    assert("json"@.len() == 4 && "json"@[0] == 'j' && "json"@[1] == 's' && "json"@[2] == 'o'
        && "json"@[3] == 'n');
    assert("segments"@.len() == 8 && "segments"@[0] == 's' && "segments"@[1] == 'e'
        && "segments"@[2] == 'g' && "segments"@[3] == 'm' && "segments"@[4] == 'e'
        && "segments"@[5] == 'n' && "segments"@[6] == 't' && "segments"@[7] == 's');
    assert("transcript-v1"@.len() == 13 && "transcript-v1"@[0] == 't'
        && "transcript-v1"@[1] == 'r' && "transcript-v1"@[2] == 'a' && "transcript-v1"@[3] == 'n'
        && "transcript-v1"@[4] == 's' && "transcript-v1"@[5] == 'c' && "transcript-v1"@[6] == 'r'
        && "transcript-v1"@[7] == 'i' && "transcript-v1"@[8] == 'p' && "transcript-v1"@[9] == 't'
        && "transcript-v1"@[10] == '-' && "transcript-v1"@[11] == 'v'
        && "transcript-v1"@[12] == '1');
    assert("transcript_v1"@.len() == 13 && "transcript_v1"@[0] == 't'
        && "transcript_v1"@[1] == 'r' && "transcript_v1"@[2] == 'a' && "transcript_v1"@[3] == 'n'
        && "transcript_v1"@[4] == 's' && "transcript_v1"@[5] == 'c' && "transcript_v1"@[6] == 'r'
        && "transcript_v1"@[7] == 'i' && "transcript_v1"@[8] == 'p' && "transcript_v1"@[9] == 't'
        && "transcript_v1"@[10] == '_' && "transcript_v1"@[11] == 'v'
        && "transcript_v1"@[12] == '1');
    assert("v1"@.len() == 2 && "v1"@[0] == 'v' && "v1"@[1] == '1');
    assert("lumen-transcript"@.len() == 16 && "lumen-transcript"@[0] == 'l'
        && "lumen-transcript"@[1] == 'u' && "lumen-transcript"@[2] == 'm'
        && "lumen-transcript"@[3] == 'e' && "lumen-transcript"@[4] == 'n'
        && "lumen-transcript"@[5] == '-' && "lumen-transcript"@[6] == 't'
        && "lumen-transcript"@[7] == 'r' && "lumen-transcript"@[8] == 'a'
        && "lumen-transcript"@[9] == 'n' && "lumen-transcript"@[10] == 's'
        && "lumen-transcript"@[11] == 'c' && "lumen-transcript"@[12] == 'r'
        && "lumen-transcript"@[13] == 'i' && "lumen-transcript"@[14] == 'p'
        && "lumen-transcript"@[15] == 't');
    assert("bilingual"@.len() == 9 && "bilingual"@[0] == 'b' && "bilingual"@[1] == 'i'
        && "bilingual"@[2] == 'l' && "bilingual"@[3] == 'i' && "bilingual"@[4] == 'n'
        && "bilingual"@[5] == 'g' && "bilingual"@[6] == 'u' && "bilingual"@[7] == 'a'
        && "bilingual"@[8] == 'l');
    assert("bi"@.len() == 2 && "bi"@[0] == 'b' && "bi"@[1] == 'i');
    assert("es-zh"@.len() == 5 && "es-zh"@[0] == 'e' && "es-zh"@[1] == 's' && "es-zh"@[2] == '-'
        && "es-zh"@[3] == 'z' && "es-zh"@[4] == 'h');
    text::lemma_lower_trimmed(name);
    text::lemma_lower_trimmed(text::trim(name));
    assert(text::is_small_word("text"@));
    text::small_word_is_itself("text"@);
    assert(text::is_small_word("txt"@));
    text::small_word_is_itself("txt"@);
    assert(text::is_small_word("json"@));
    text::small_word_is_itself("json"@);
    assert(text::is_small_word("segments"@));
    text::small_word_is_itself("segments"@);
    assert(text::is_small_word("transcript-v1"@));
    text::small_word_is_itself("transcript-v1"@);
    assert(text::is_small_word("transcript_v1"@));
    text::small_word_is_itself("transcript_v1"@);
    assert(text::is_small_word("v1"@));
    text::small_word_is_itself("v1"@);
    assert(text::is_small_word("lumen-transcript"@));
    text::small_word_is_itself("lumen-transcript"@);
    assert(text::is_small_word("bilingual"@));
    text::small_word_is_itself("bilingual"@);
    assert(text::is_small_word("bi"@));
    text::small_word_is_itself("bi"@);
    assert(text::is_small_word("es-zh"@));
    text::small_word_is_itself("es-zh"@);
}

/// Each engine is asked for by its own names, in any case and with white space around
/// them, and by no others.
pub proof fn engines_have_their_names(name: Seq<char>)
    ensures
        engine_named("sensevoice"@) == Some(EngineChoice::SenseVoice),
        engine_named("sv"@) == Some(EngineChoice::SenseVoice),
        engine_named("local_sensevoice"@) == Some(EngineChoice::SenseVoice),
        engine_named("qwen"@) == Some(EngineChoice::Qwen),
        engine_named("qwen3"@) == Some(EngineChoice::Qwen),
        engine_named("qwen3-asr"@) == Some(EngineChoice::Qwen),
        engine_named("local_qwen"@) == Some(EngineChoice::Qwen),
        engine_named("mlx-whisper"@) == Some(EngineChoice::MlxWhisper),
        engine_named("mlx_whisper"@) == Some(EngineChoice::MlxWhisper),
        engine_named("whisper-mlx"@) == Some(EngineChoice::MlxWhisper),
        engine_named("whisper_mlx"@) == Some(EngineChoice::MlxWhisper),
        engine_named("whisper"@) == Some(EngineChoice::Whisper),
        engine_named("local_whisper"@) == Some(EngineChoice::Whisper),
        engine_named("sherpa-whisper"@) == Some(EngineChoice::Whisper),
        engine_named(name) == engine_named(text::lower(text::trim(name))),
        engine_named(name) == Some(EngineChoice::SenseVoice) ==> text::lower(text::trim(name)) == "sensevoice"@ || text::lower(text::trim(name)) == "sv"@ || text::lower(text::trim(name)) == "local_sensevoice"@,
        engine_named(name) == Some(EngineChoice::Qwen) ==> text::lower(text::trim(name)) == "qwen"@ || text::lower(text::trim(name)) == "qwen3"@ || text::lower(text::trim(name)) == "qwen3-asr"@ || text::lower(text::trim(name)) == "local_qwen"@,
        engine_named(name) == Some(EngineChoice::MlxWhisper) ==> text::lower(text::trim(name)) == "mlx-whisper"@ || text::lower(text::trim(name)) == "mlx_whisper"@ || text::lower(text::trim(name)) == "whisper-mlx"@ || text::lower(text::trim(name)) == "whisper_mlx"@,
        engine_named(name) == Some(EngineChoice::Whisper) ==> text::lower(text::trim(name)) == "whisper"@ || text::lower(text::trim(name)) == "local_whisper"@ || text::lower(text::trim(name)) == "sherpa-whisper"@,
{
    reveal_strlit("sensevoice");
    reveal_strlit("sv");
    reveal_strlit("local_sensevoice");
    reveal_strlit("qwen");
    reveal_strlit("qwen3");
    reveal_strlit("qwen3-asr");
    reveal_strlit("local_qwen");
    reveal_strlit("mlx-whisper");
    reveal_strlit("mlx_whisper");
    reveal_strlit("whisper-mlx");
    reveal_strlit("whisper_mlx");
    reveal_strlit("whisper");
    reveal_strlit("local_whisper");
    reveal_strlit("sherpa-whisper");
    assert("sensevoice"@.len() == 10 && "sensevoice"@[0] == 's' && "sensevoice"@[1] == 'e'
        && "sensevoice"@[2] == 'n' && "sensevoice"@[3] == 's' && "sensevoice"@[4] == 'e'
        && "sensevoice"@[5] == 'v' && "sensevoice"@[6] == 'o' && "sensevoice"@[7] == 'i'
        && "sensevoice"@[8] == 'c' && "sensevoice"@[9] == 'e');
    assert("sv"@.len() == 2 && "sv"@[0] == 's' && "sv"@[1] == 'v');
    assert("local_sensevoice"@.len() == 16 && "local_sensevoice"@[0] == 'l'
        && "local_sensevoice"@[1] == 'o' && "local_sensevoice"@[2] == 'c'
        && "local_sensevoice"@[3] == 'a' && "local_sensevoice"@[4] == 'l'
        && "local_sensevoice"@[5] == '_' && "local_sensevoice"@[6] == 's'
        && "local_sensevoice"@[7] == 'e' && "local_sensevoice"@[8] == 'n'
        && "local_sensevoice"@[9] == 's' && "local_sensevoice"@[10] == 'e'
        && "local_sensevoice"@[11] == 'v' && "local_sensevoice"@[12] == 'o'
        && "local_sensevoice"@[13] == 'i' && "local_sensevoice"@[14] == 'c'
        && "local_sensevoice"@[15] == 'e');
    assert("qwen"@.len() == 4 && "qwen"@[0] == 'q' && "qwen"@[1] == 'w' && "qwen"@[2] == 'e'
        && "qwen"@[3] == 'n');
    assert("qwen3"@.len() == 5 && "qwen3"@[0] == 'q' && "qwen3"@[1] == 'w' && "qwen3"@[2] == 'e'
        && "qwen3"@[3] == 'n' && "qwen3"@[4] == '3');
    assert("qwen3-asr"@.len() == 9 && "qwen3-asr"@[0] == 'q' && "qwen3-asr"@[1] == 'w'
        && "qwen3-asr"@[2] == 'e' && "qwen3-asr"@[3] == 'n' && "qwen3-asr"@[4] == '3'
        && "qwen3-asr"@[5] == '-' && "qwen3-asr"@[6] == 'a' && "qwen3-asr"@[7] == 's'
        && "qwen3-asr"@[8] == 'r');
    assert("local_qwen"@.len() == 10 && "local_qwen"@[0] == 'l' && "local_qwen"@[1] == 'o'
        && "local_qwen"@[2] == 'c' && "local_qwen"@[3] == 'a' && "local_qwen"@[4] == 'l'
        && "local_qwen"@[5] == '_' && "local_qwen"@[6] == 'q' && "local_qwen"@[7] == 'w'
        && "local_qwen"@[8] == 'e' && "local_qwen"@[9] == 'n');
    assert("mlx-whisper"@.len() == 11 && "mlx-whisper"@[0] == 'm' && "mlx-whisper"@[1] == 'l'
        && "mlx-whisper"@[2] == 'x' && "mlx-whisper"@[3] == '-' && "mlx-whisper"@[4] == 'w'
        && "mlx-whisper"@[5] == 'h' && "mlx-whisper"@[6] == 'i' && "mlx-whisper"@[7] == 's'
        && "mlx-whisper"@[8] == 'p' && "mlx-whisper"@[9] == 'e' && "mlx-whisper"@[10] == 'r');
    assert("mlx_whisper"@.len() == 11 && "mlx_whisper"@[0] == 'm' && "mlx_whisper"@[1] == 'l'
        && "mlx_whisper"@[2] == 'x' && "mlx_whisper"@[3] == '_' && "mlx_whisper"@[4] == 'w'
        && "mlx_whisper"@[5] == 'h' && "mlx_whisper"@[6] == 'i' && "mlx_whisper"@[7] == 's'
        && "mlx_whisper"@[8] == 'p' && "mlx_whisper"@[9] == 'e' && "mlx_whisper"@[10] == 'r');
    assert("whisper-mlx"@.len() == 11 && "whisper-mlx"@[0] == 'w' && "whisper-mlx"@[1] == 'h'
        && "whisper-mlx"@[2] == 'i' && "whisper-mlx"@[3] == 's' && "whisper-mlx"@[4] == 'p'
        && "whisper-mlx"@[5] == 'e' && "whisper-mlx"@[6] == 'r' && "whisper-mlx"@[7] == '-'
        && "whisper-mlx"@[8] == 'm' && "whisper-mlx"@[9] == 'l' && "whisper-mlx"@[10] == 'x');
    assert("whisper_mlx"@.len() == 11 && "whisper_mlx"@[0] == 'w' && "whisper_mlx"@[1] == 'h'
        && "whisper_mlx"@[2] == 'i' && "whisper_mlx"@[3] == 's' && "whisper_mlx"@[4] == 'p'
        && "whisper_mlx"@[5] == 'e' && "whisper_mlx"@[6] == 'r' && "whisper_mlx"@[7] == '_'
        && "whisper_mlx"@[8] == 'm' && "whisper_mlx"@[9] == 'l' && "whisper_mlx"@[10] == 'x');
    assert("whisper"@.len() == 7 && "whisper"@[0] == 'w' && "whisper"@[1] == 'h'
        && "whisper"@[2] == 'i' && "whisper"@[3] == 's' && "whisper"@[4] == 'p'
        && "whisper"@[5] == 'e' && "whisper"@[6] == 'r');
    assert("local_whisper"@.len() == 13 && "local_whisper"@[0] == 'l'
        && "local_whisper"@[1] == 'o' && "local_whisper"@[2] == 'c' && "local_whisper"@[3] == 'a'
        && "local_whisper"@[4] == 'l' && "local_whisper"@[5] == '_' && "local_whisper"@[6] == 'w'
        && "local_whisper"@[7] == 'h' && "local_whisper"@[8] == 'i' && "local_whisper"@[9] == 's'
        && "local_whisper"@[10] == 'p' && "local_whisper"@[11] == 'e'
        && "local_whisper"@[12] == 'r');
    assert("sherpa-whisper"@.len() == 14 && "sherpa-whisper"@[0] == 's'
        && "sherpa-whisper"@[1] == 'h' && "sherpa-whisper"@[2] == 'e'
        && "sherpa-whisper"@[3] == 'r' && "sherpa-whisper"@[4] == 'p'
        && "sherpa-whisper"@[5] == 'a' && "sherpa-whisper"@[6] == '-'
        && "sherpa-whisper"@[7] == 'w' && "sherpa-whisper"@[8] == 'h'
        && "sherpa-whisper"@[9] == 'i' && "sherpa-whisper"@[10] == 's'
        && "sherpa-whisper"@[11] == 'p' && "sherpa-whisper"@[12] == 'e'
        && "sherpa-whisper"@[13] == 'r');
    text::lemma_lower_trimmed(name);
    text::lemma_lower_trimmed(text::trim(name));
    assert(text::is_small_word("sensevoice"@));
    text::small_word_is_itself("sensevoice"@);
    assert(text::is_small_word("sv"@));
    text::small_word_is_itself("sv"@);
    assert(text::is_small_word("local_sensevoice"@));
    text::small_word_is_itself("local_sensevoice"@);
    assert(text::is_small_word("qwen"@));
    text::small_word_is_itself("qwen"@);
    assert(text::is_small_word("qwen3"@));
    text::small_word_is_itself("qwen3"@);
    assert(text::is_small_word("qwen3-asr"@));
    text::small_word_is_itself("qwen3-asr"@);
    assert(text::is_small_word("local_qwen"@));
    text::small_word_is_itself("local_qwen"@);
    assert(text::is_small_word("mlx-whisper"@));
    text::small_word_is_itself("mlx-whisper"@);
    assert(text::is_small_word("mlx_whisper"@));
    text::small_word_is_itself("mlx_whisper"@);
    assert(text::is_small_word("whisper-mlx"@));
    text::small_word_is_itself("whisper-mlx"@);
    assert(text::is_small_word("whisper_mlx"@));
    text::small_word_is_itself("whisper_mlx"@);
    assert(text::is_small_word("whisper"@));
    text::small_word_is_itself("whisper"@);
    assert(text::is_small_word("local_whisper"@));
    text::small_word_is_itself("local_whisper"@);
    assert(text::is_small_word("sherpa-whisper"@));
    text::small_word_is_itself("sherpa-whisper"@);
}

/// An engine is read back from its own name.
pub proof fn engine_is_read_back(engine: EngineChoice)
    ensures
        engine_named(engine.name()) == Some(engine),
{
    engines_have_their_names(engine.name());
}

/// What is read of arguments depends only on those that are left.
proof fn lemma_read_rest(asked: ProcessArgs, a: Seq<Seq<char>>, i: int, b: Seq<Seq<char>>, j: int)
    requires
        0 <= i <= a.len(),
        0 <= j <= b.len(),
        a.skip(i) == b.skip(j),
    ensures
        asked.read(a, i) == asked.read(b, j),
    decreases a.len() - i,
{
    assert(a.skip(i).len() == a.len() - i && b.skip(j).len() == b.len() - j);
    if i < a.len() {
        assert(a.skip(i)[0] == a[i] && b.skip(j)[0] == b[j]);
        assert(a.skip(i + 1) =~= a.skip(i).skip(1) && b.skip(j + 1) =~= b.skip(j).skip(1));
        if i + 1 < a.len() {
            assert(a.skip(i)[1] == a[i + 1] && b.skip(j)[1] == b[j + 1]);
            assert(a.skip(i + 2) =~= a.skip(i).skip(2) && b.skip(j + 2) =~= b.skip(j).skip(2));
        }
        let arg = a[i];
        if arg == "--json"@ {
            lemma_read_rest(ProcessArgs { format: OutputFormat::Json, ..asked }, a, i + 1, b, j + 1);
        } else if arg == "--minutes"@ {
            lemma_read_rest(ProcessArgs { minutes: true, ..asked }, a, i + 1, b, j + 1);
        } else if let Some(option) = separate_option(arg) {
            if i + 1 < a.len() {
                if let Ok(next) = asked.with_option(option, a[i + 1]) {
                    lemma_read_rest(next, a, i + 2, b, j + 2);
                }
            }
        } else if let Some((option, value)) = inline_option(arg) {
            if let Ok(next) = asked.with_option(option, value) {
                lemma_read_rest(next, a, i + 1, b, j + 1);
            }
        } else if !text::begins(arg, "-"@) && asked.audio is None {
            lemma_read_rest(ProcessArgs { audio: Some(arg), ..asked }, a, i + 1, b, j + 1);
        }
    }
}

proof fn lemma_flags()
    ensures
        separate_option("--engine"@) == Some(ValueOption::Engine),
        separate_option("--lang"@) == Some(ValueOption::Lang),
        separate_option("--language"@) == Some(ValueOption::Lang),
        separate_option("--format"@) == Some(ValueOption::Format),
        separate_option("--translate"@) == Some(ValueOption::Translate),
        separate_option("--max-speakers"@) == Some(ValueOption::MaxSpeakers),
        separate_option("--min-turn-seconds"@) == Some(ValueOption::MinTurnSeconds),
        separate_option("--mlx-whisper-model"@) == Some(ValueOption::MlxWhisperModel),
        separate_option("--json"@) is None,
        separate_option("--minutes"@) is None,
        "--engine"@ != "--json"@ && "--engine"@ != "--minutes"@,
        "--lang"@ != "--json"@ && "--lang"@ != "--minutes"@,
        "--language"@ != "--json"@ && "--language"@ != "--minutes"@,
        "--format"@ != "--json"@ && "--format"@ != "--minutes"@,
        "--translate"@ != "--json"@ && "--translate"@ != "--minutes"@,
        "--max-speakers"@ != "--json"@ && "--max-speakers"@ != "--minutes"@,
        "--min-turn-seconds"@ != "--json"@ && "--min-turn-seconds"@ != "--minutes"@,
        "--mlx-whisper-model"@ != "--json"@ && "--mlx-whisper-model"@ != "--minutes"@,
        "--json"@ != "--minutes"@,
{
    reveal_strlit("--json");
    reveal_strlit("--minutes");
    reveal_strlit("--engine");
    reveal_strlit("--lang");
    reveal_strlit("--language");
    reveal_strlit("--format");
    reveal_strlit("--translate");
    reveal_strlit("--max-speakers");
    reveal_strlit("--min-turn-seconds");
    reveal_strlit("--mlx-whisper-model");
    assert("--json"@.len() == 6 && "--json"@[0] == '-' && "--json"@[1] == '-'
        && "--json"@[2] == 'j' && "--json"@[3] == 's' && "--json"@[4] == 'o'
        && "--json"@[5] == 'n');
    assert("--minutes"@.len() == 9 && "--minutes"@[0] == '-' && "--minutes"@[1] == '-'
        && "--minutes"@[2] == 'm' && "--minutes"@[3] == 'i' && "--minutes"@[4] == 'n'
        && "--minutes"@[5] == 'u' && "--minutes"@[6] == 't' && "--minutes"@[7] == 'e'
        && "--minutes"@[8] == 's');
    assert("--engine"@.len() == 8 && "--engine"@[0] == '-' && "--engine"@[1] == '-'
        && "--engine"@[2] == 'e' && "--engine"@[3] == 'n' && "--engine"@[4] == 'g'
        && "--engine"@[5] == 'i' && "--engine"@[6] == 'n' && "--engine"@[7] == 'e');
    assert("--lang"@.len() == 6 && "--lang"@[0] == '-' && "--lang"@[1] == '-'
        && "--lang"@[2] == 'l' && "--lang"@[3] == 'a' && "--lang"@[4] == 'n'
        && "--lang"@[5] == 'g');
    assert("--language"@.len() == 10 && "--language"@[0] == '-' && "--language"@[1] == '-'
        && "--language"@[2] == 'l' && "--language"@[3] == 'a' && "--language"@[4] == 'n'
        && "--language"@[5] == 'g' && "--language"@[6] == 'u' && "--language"@[7] == 'a'
        && "--language"@[8] == 'g' && "--language"@[9] == 'e');
    assert("--format"@.len() == 8 && "--format"@[0] == '-' && "--format"@[1] == '-'
        && "--format"@[2] == 'f' && "--format"@[3] == 'o' && "--format"@[4] == 'r'
        && "--format"@[5] == 'm' && "--format"@[6] == 'a' && "--format"@[7] == 't');
    assert("--translate"@.len() == 11 && "--translate"@[0] == '-' && "--translate"@[1] == '-'
        && "--translate"@[2] == 't' && "--translate"@[3] == 'r' && "--translate"@[4] == 'a'
        && "--translate"@[5] == 'n' && "--translate"@[6] == 's' && "--translate"@[7] == 'l'
        && "--translate"@[8] == 'a' && "--translate"@[9] == 't' && "--translate"@[10] == 'e');
    assert("--max-speakers"@.len() == 14 && "--max-speakers"@[0] == '-'
        && "--max-speakers"@[1] == '-' && "--max-speakers"@[2] == 'm'
        && "--max-speakers"@[3] == 'a' && "--max-speakers"@[4] == 'x'
        && "--max-speakers"@[5] == '-' && "--max-speakers"@[6] == 's'
        && "--max-speakers"@[7] == 'p' && "--max-speakers"@[8] == 'e'
        && "--max-speakers"@[9] == 'a' && "--max-speakers"@[10] == 'k'
        && "--max-speakers"@[11] == 'e' && "--max-speakers"@[12] == 'r'
        && "--max-speakers"@[13] == 's');
    assert("--min-turn-seconds"@.len() == 18 && "--min-turn-seconds"@[0] == '-'
        && "--min-turn-seconds"@[1] == '-' && "--min-turn-seconds"@[2] == 'm'
        && "--min-turn-seconds"@[3] == 'i' && "--min-turn-seconds"@[4] == 'n'
        && "--min-turn-seconds"@[5] == '-' && "--min-turn-seconds"@[6] == 't'
        && "--min-turn-seconds"@[7] == 'u' && "--min-turn-seconds"@[8] == 'r'
        && "--min-turn-seconds"@[9] == 'n' && "--min-turn-seconds"@[10] == '-'
        && "--min-turn-seconds"@[11] == 's' && "--min-turn-seconds"@[12] == 'e'
        && "--min-turn-seconds"@[13] == 'c' && "--min-turn-seconds"@[14] == 'o'
        && "--min-turn-seconds"@[15] == 'n' && "--min-turn-seconds"@[16] == 'd'
        && "--min-turn-seconds"@[17] == 's');
    assert("--mlx-whisper-model"@.len() == 19 && "--mlx-whisper-model"@[0] == '-'
        && "--mlx-whisper-model"@[1] == '-' && "--mlx-whisper-model"@[2] == 'm'
        && "--mlx-whisper-model"@[3] == 'l' && "--mlx-whisper-model"@[4] == 'x'
        && "--mlx-whisper-model"@[5] == '-' && "--mlx-whisper-model"@[6] == 'w'
        && "--mlx-whisper-model"@[7] == 'h' && "--mlx-whisper-model"@[8] == 'i'
        && "--mlx-whisper-model"@[9] == 's' && "--mlx-whisper-model"@[10] == 'p'
        && "--mlx-whisper-model"@[11] == 'e' && "--mlx-whisper-model"@[12] == 'r'
        && "--mlx-whisper-model"@[13] == '-' && "--mlx-whisper-model"@[14] == 'm'
        && "--mlx-whisper-model"@[15] == 'o' && "--mlx-whisper-model"@[16] == 'd'
        && "--mlx-whisper-model"@[17] == 'e' && "--mlx-whisper-model"@[18] == 'l');
}

/// Each option of `meeting process` sets what it is for and nothing else, wherever it
/// stands: the arguments behind it are read as if they stood alone.
pub proof fn options_set_what_they_name(asked: ProcessArgs, value: Seq<char>, rest: Seq<Seq<char>>)
    ensures
        asked.read(seq!["--json"@] + rest, 0) == (ProcessArgs {
            format: OutputFormat::Json,
            ..asked
        }).read(rest, 0),
        asked.read(seq!["--minutes"@] + rest, 0) == (ProcessArgs { minutes: true, ..asked }).read(
            rest,
            0,
        ),
        asked.read(seq!["--lang"@, value] + rest, 0) == (ProcessArgs {
            lang: Some(value),
            ..asked
        }).read(rest, 0),
        asked.read(seq!["--language"@, value] + rest, 0) == asked.read(
            seq!["--lang"@, value] + rest,
            0,
        ),
        asked.read(seq!["--mlx-whisper-model"@, value] + rest, 0) == (ProcessArgs {
            mlx_whisper_model: Some(value),
            ..asked
        }).read(rest, 0),
        match engine_named(value) {
            Some(engine) => asked.read(seq!["--engine"@, value] + rest, 0) == (ProcessArgs {
                engine,
                ..asked
            }).read(rest, 0),
            None => asked.read(seq!["--engine"@, value] + rest, 0) is Err,
        },
        match format_named(value) {
            Some(format) => asked.read(seq!["--format"@, value] + rest, 0) == (ProcessArgs {
                format,
                ..asked
            }).read(rest, 0),
            None => asked.read(seq!["--format"@, value] + rest, 0) is Err,
        },
        match count_of(value) {
            Some(n) => asked.read(seq!["--max-speakers"@, value] + rest, 0) == (ProcessArgs {
                max_speakers: n as int,
                ..asked
            }).read(rest, 0),
            None => asked.read(seq!["--max-speakers"@, value] + rest, 0) is Err,
        },
        is_decimal(value) ==> asked.read(seq!["--min-turn-seconds"@, value] + rest, 0)
            == (ProcessArgs { min_turn_seconds: Some(value), ..asked }).read(rest, 0),
        !is_decimal(value) ==> asked.read(seq!["--min-turn-seconds"@, value] + rest, 0) is Err,
        asked.read(seq!["--translate"@, value] + rest, 0) == (ProcessArgs {
            translate_langs: asked.translate_langs + langs_of(value),
            ..asked
        }).read(rest, 0),
{
    lemma_flags();
    lemma_behind_one(ProcessArgs { format: OutputFormat::Json, ..asked }, "--json"@, rest);
    lemma_behind_one(ProcessArgs { minutes: true, ..asked }, "--minutes"@, rest);
    lemma_behind_two(
        asked.with_option(ValueOption::Lang, value)->Ok_0,
        "--lang"@,
        value,
        rest,
    );
    lemma_behind_two(
        asked.with_option(ValueOption::Lang, value)->Ok_0,
        "--language"@,
        value,
        rest,
    );
    lemma_behind_two(
        asked.with_option(ValueOption::MlxWhisperModel, value)->Ok_0,
        "--mlx-whisper-model"@,
        value,
        rest,
    );
    lemma_behind_two(
        asked.with_option(ValueOption::Engine, value)->Ok_0,
        "--engine"@,
        value,
        rest,
    );
    lemma_behind_two(
        asked.with_option(ValueOption::Format, value)->Ok_0,
        "--format"@,
        value,
        rest,
    );
    lemma_behind_two(
        asked.with_option(ValueOption::MaxSpeakers, value)->Ok_0,
        "--max-speakers"@,
        value,
        rest,
    );
    lemma_behind_two(
        asked.with_option(ValueOption::MinTurnSeconds, value)->Ok_0,
        "--min-turn-seconds"@,
        value,
        rest,
    );
    lemma_behind_two(
        asked.with_option(ValueOption::Translate, value)->Ok_0,
        "--translate"@,
        value,
        rest,
    );
}

proof fn lemma_behind_one(next: ProcessArgs, flag: Seq<char>, rest: Seq<Seq<char>>)
    ensures
        ({
            let args = seq![flag] + rest;
            &&& args.len() == rest.len() + 1
            &&& args[0] == flag
            &&& next.read(args, 1) == next.read(rest, 0)
        }),
{
    let args = seq![flag] + rest;
    assert(args.skip(1) =~= rest.skip(0));
    lemma_read_rest(next, args, 1, rest, 0);
}

proof fn lemma_behind_two(
    next: ProcessArgs,
    flag: Seq<char>,
    value: Seq<char>,
    rest: Seq<Seq<char>>,
)
    ensures
        ({
            let args = seq![flag, value] + rest;
            &&& args.len() == rest.len() + 2
            &&& args[0] == flag
            &&& args[1] == value
            &&& next.read(args, 2) == next.read(rest, 0)
        }),
{
    let args = seq![flag, value] + rest;
    assert(args.skip(2) =~= rest.skip(0));
    lemma_read_rest(next, args, 2, rest, 0);
}

/// `--json` is short for `--format json`, wherever it stands.
pub proof fn json_flag_is_the_format(asked: ProcessArgs, rest: Seq<Seq<char>>)
    ensures
        asked.read(seq!["--json"@] + rest, 0) == asked.read(seq!["--format"@, "json"@] + rest, 0),
        ({
            let flag = asked.read(seq!["--json"@], 0);
            flag is Ok && flag->Ok_0.format is Json
        }),
{
    options_set_what_they_name(asked, "json"@, rest);
    formats_have_their_names("json"@);
    let none = Seq::<Seq<char>>::empty();
    options_set_what_they_name(asked, "json"@, none);
    assert(seq!["--json"@] + none =~= seq!["--json"@]);
}

/// An argument that is no option is the audio file; a second one is refused, and so is
/// anything else that begins with a dash, and an option without its value.
pub proof fn positional_argument_is_the_audio(
    asked: ProcessArgs,
    arg: Seq<char>,
    rest: Seq<Seq<char>>,
)
    ensures
        arg.len() > 0 && arg[0] != '-' && asked.audio is None ==> asked.read(seq![arg] + rest, 0)
            == (ProcessArgs { audio: Some(arg), ..asked }).read(rest, 0),
        arg.len() > 0 && arg[0] != '-' && asked.audio is Some ==> asked.read(seq![arg] + rest, 0)
            is Err,
        asked.read(seq!["--engine"@], 0) is Err,
        asked.read(seq!["--lang"@], 0) is Err,
        asked.read(seq!["--format"@], 0) is Err,
        asked.read(seq!["--translate"@], 0) is Err,
        asked.read(seq!["--max-speakers"@], 0) is Err,
        asked.read(seq!["--min-turn-seconds"@], 0) is Err,
        asked.read(seq!["--mlx-whisper-model"@], 0) is Err,
        asked.read(seq!["-x"@] + rest, 0) is Err,
        asked.read(seq!["--loud"@] + rest, 0) is Err,
        asked.read(Seq::empty(), 0) == Ok::<ProcessArgs, Seq<char>>(asked),
{
    lemma_flags();
    reveal_strlit("--json");
    reveal_strlit("--minutes");
    reveal_strlit("--engine");
    reveal_strlit("--lang");
    reveal_strlit("--language");
    reveal_strlit("--format");
    reveal_strlit("--translate");
    reveal_strlit("--max-speakers");
    reveal_strlit("--min-turn-seconds");
    reveal_strlit("--mlx-whisper-model");
    reveal_strlit("-x");
    reveal_strlit("--loud");
    reveal_strlit("-");
    assert("--json"@.len() == 6 && "--json"@[0] == '-' && "--json"@[1] == '-'
        && "--json"@[2] == 'j' && "--json"@[3] == 's' && "--json"@[4] == 'o'
        && "--json"@[5] == 'n');
    assert("--minutes"@.len() == 9 && "--minutes"@[0] == '-' && "--minutes"@[1] == '-'
        && "--minutes"@[2] == 'm' && "--minutes"@[3] == 'i' && "--minutes"@[4] == 'n'
        && "--minutes"@[5] == 'u' && "--minutes"@[6] == 't' && "--minutes"@[7] == 'e'
        && "--minutes"@[8] == 's');
    assert("--engine"@.len() == 8 && "--engine"@[0] == '-' && "--engine"@[1] == '-'
        && "--engine"@[2] == 'e' && "--engine"@[3] == 'n' && "--engine"@[4] == 'g'
        && "--engine"@[5] == 'i' && "--engine"@[6] == 'n' && "--engine"@[7] == 'e');
    assert("--lang"@.len() == 6 && "--lang"@[0] == '-' && "--lang"@[1] == '-'
        && "--lang"@[2] == 'l' && "--lang"@[3] == 'a' && "--lang"@[4] == 'n'
        && "--lang"@[5] == 'g');
    assert("--language"@.len() == 10 && "--language"@[0] == '-' && "--language"@[1] == '-'
        && "--language"@[2] == 'l' && "--language"@[3] == 'a' && "--language"@[4] == 'n'
        && "--language"@[5] == 'g' && "--language"@[6] == 'u' && "--language"@[7] == 'a'
        && "--language"@[8] == 'g' && "--language"@[9] == 'e');
    assert("--format"@.len() == 8 && "--format"@[0] == '-' && "--format"@[1] == '-'
        && "--format"@[2] == 'f' && "--format"@[3] == 'o' && "--format"@[4] == 'r'
        && "--format"@[5] == 'm' && "--format"@[6] == 'a' && "--format"@[7] == 't');
    assert("--translate"@.len() == 11 && "--translate"@[0] == '-' && "--translate"@[1] == '-'
        && "--translate"@[2] == 't' && "--translate"@[3] == 'r' && "--translate"@[4] == 'a'
        && "--translate"@[5] == 'n' && "--translate"@[6] == 's' && "--translate"@[7] == 'l'
        && "--translate"@[8] == 'a' && "--translate"@[9] == 't' && "--translate"@[10] == 'e');
    assert("--max-speakers"@.len() == 14 && "--max-speakers"@[0] == '-'
        && "--max-speakers"@[1] == '-' && "--max-speakers"@[2] == 'm'
        && "--max-speakers"@[3] == 'a' && "--max-speakers"@[4] == 'x'
        && "--max-speakers"@[5] == '-' && "--max-speakers"@[6] == 's'
        && "--max-speakers"@[7] == 'p' && "--max-speakers"@[8] == 'e'
        && "--max-speakers"@[9] == 'a' && "--max-speakers"@[10] == 'k'
        && "--max-speakers"@[11] == 'e' && "--max-speakers"@[12] == 'r'
        && "--max-speakers"@[13] == 's');
    assert("--min-turn-seconds"@.len() == 18 && "--min-turn-seconds"@[0] == '-'
        && "--min-turn-seconds"@[1] == '-' && "--min-turn-seconds"@[2] == 'm'
        && "--min-turn-seconds"@[3] == 'i' && "--min-turn-seconds"@[4] == 'n'
        && "--min-turn-seconds"@[5] == '-' && "--min-turn-seconds"@[6] == 't'
        && "--min-turn-seconds"@[7] == 'u' && "--min-turn-seconds"@[8] == 'r'
        && "--min-turn-seconds"@[9] == 'n' && "--min-turn-seconds"@[10] == '-'
        && "--min-turn-seconds"@[11] == 's' && "--min-turn-seconds"@[12] == 'e'
        && "--min-turn-seconds"@[13] == 'c' && "--min-turn-seconds"@[14] == 'o'
        && "--min-turn-seconds"@[15] == 'n' && "--min-turn-seconds"@[16] == 'd'
        && "--min-turn-seconds"@[17] == 's');
    assert("--mlx-whisper-model"@.len() == 19 && "--mlx-whisper-model"@[0] == '-'
        && "--mlx-whisper-model"@[1] == '-' && "--mlx-whisper-model"@[2] == 'm'
        && "--mlx-whisper-model"@[3] == 'l' && "--mlx-whisper-model"@[4] == 'x'
        && "--mlx-whisper-model"@[5] == '-' && "--mlx-whisper-model"@[6] == 'w'
        && "--mlx-whisper-model"@[7] == 'h' && "--mlx-whisper-model"@[8] == 'i'
        && "--mlx-whisper-model"@[9] == 's' && "--mlx-whisper-model"@[10] == 'p'
        && "--mlx-whisper-model"@[11] == 'e' && "--mlx-whisper-model"@[12] == 'r'
        && "--mlx-whisper-model"@[13] == '-' && "--mlx-whisper-model"@[14] == 'm'
        && "--mlx-whisper-model"@[15] == 'o' && "--mlx-whisper-model"@[16] == 'd'
        && "--mlx-whisper-model"@[17] == 'e' && "--mlx-whisper-model"@[18] == 'l');
    assert("-x"@.len() == 2 && "-x"@[0] == '-' && "-x"@[1] == 'x');
    assert("--loud"@.len() == 6 && "--loud"@[0] == '-' && "--loud"@[1] == '-'
        && "--loud"@[2] == 'l' && "--loud"@[3] == 'o' && "--loud"@[4] == 'u'
        && "--loud"@[5] == 'd');
    assert("-"@.len() == 1 && "-"@[0] == '-');
    reveal_strlit("--engine=");
    reveal_strlit("--lang=");
    reveal_strlit("--language=");
    reveal_strlit("--format=");
    reveal_strlit("--translate=");
    reveal_strlit("--max-speakers=");
    reveal_strlit("--min-turn-seconds=");
    reveal_strlit("--mlx-whisper-model=");
    lemma_begins_with(arg, "--engine="@);
    lemma_begins_with("-x"@, "--engine="@);
    lemma_begins_with("--loud"@, "--engine="@);
    assert("--engine="@.len() == 9 && "--engine="@[0] == '-' && "--engine="@[2] == 'e' && "--engine="@[3] == 'n' && "--engine="@[4] == 'g');
    lemma_begins_with(arg, "--lang="@);
    lemma_begins_with("-x"@, "--lang="@);
    lemma_begins_with("--loud"@, "--lang="@);
    assert("--lang="@.len() == 7 && "--lang="@[0] == '-' && "--lang="@[2] == 'l' && "--lang="@[3] == 'a' && "--lang="@[4] == 'n');
    lemma_begins_with(arg, "--language="@);
    lemma_begins_with("-x"@, "--language="@);
    lemma_begins_with("--loud"@, "--language="@);
    assert("--language="@.len() == 11 && "--language="@[0] == '-' && "--language="@[2] == 'l' && "--language="@[3] == 'a' && "--language="@[4] == 'n');
    lemma_begins_with(arg, "--format="@);
    lemma_begins_with("-x"@, "--format="@);
    lemma_begins_with("--loud"@, "--format="@);
    assert("--format="@.len() == 9 && "--format="@[0] == '-' && "--format="@[2] == 'f' && "--format="@[3] == 'o' && "--format="@[4] == 'r');
    lemma_begins_with(arg, "--translate="@);
    lemma_begins_with("-x"@, "--translate="@);
    lemma_begins_with("--loud"@, "--translate="@);
    assert("--translate="@.len() == 12 && "--translate="@[0] == '-' && "--translate="@[2] == 't' && "--translate="@[3] == 'r' && "--translate="@[4] == 'a');
    lemma_begins_with(arg, "--max-speakers="@);
    lemma_begins_with("-x"@, "--max-speakers="@);
    lemma_begins_with("--loud"@, "--max-speakers="@);
    assert("--max-speakers="@.len() == 15 && "--max-speakers="@[0] == '-' && "--max-speakers="@[2] == 'm' && "--max-speakers="@[3] == 'a' && "--max-speakers="@[4] == 'x');
    lemma_begins_with(arg, "--min-turn-seconds="@);
    lemma_begins_with("-x"@, "--min-turn-seconds="@);
    lemma_begins_with("--loud"@, "--min-turn-seconds="@);
    assert("--min-turn-seconds="@.len() == 19 && "--min-turn-seconds="@[0] == '-' && "--min-turn-seconds="@[2] == 'm' && "--min-turn-seconds="@[3] == 'i' && "--min-turn-seconds="@[4] == 'n');
    lemma_begins_with(arg, "--mlx-whisper-model="@);
    lemma_begins_with("-x"@, "--mlx-whisper-model="@);
    lemma_begins_with("--loud"@, "--mlx-whisper-model="@);
    assert("--mlx-whisper-model="@.len() == 20 && "--mlx-whisper-model="@[0] == '-' && "--mlx-whisper-model="@[2] == 'm' && "--mlx-whisper-model="@[3] == 'l' && "--mlx-whisper-model="@[4] == 'x');
    lemma_begins_with(arg, "-"@);
    assert("-x"@.subrange(0, 1) =~= "-"@);
    assert("--loud"@.subrange(0, 1) =~= "-"@);
    lemma_behind_one(ProcessArgs { audio: Some(arg), ..asked }, arg, rest);
    lemma_behind_one(asked, "-x"@, rest);
    lemma_behind_one(asked, "--loud"@, rest);
}

proof fn lemma_begins_with(arg: Seq<char>, prefix: Seq<char>)
    ensures
        text::begins(arg, prefix) ==> arg.len() >= prefix.len() && forall|i: int|
            0 <= i < prefix.len() ==> #[trigger] arg[i] == prefix[i],
{
    if text::begins(arg, prefix) {
        assert forall|i: int| 0 <= i < prefix.len() implies #[trigger] arg[i] == prefix[i] by {
            assert(arg.subrange(0, prefix.len() as int)[i] == arg[i]);
        }
    }
}

/// An audio file alone asks for what is usual: SenseVoice, plain text, six speakers at
/// most, no translation and no minutes. Bilingual output without a language is
/// translated to Chinese.
pub proof fn audio_alone_asks_for_the_usual(audio: Seq<char>)
    requires
        audio.len() > 0,
        audio[0] != '-',
    ensures
        process_args(seq![audio]) matches Ok(asked) && {
            &&& asked.audio == Some(audio)
            &&& asked.engine is SenseVoice
            &&& asked.format is Text
            &&& asked.max_speakers == 6
            &&& asked.lang is None
            &&& asked.min_turn_seconds is None
            &&& asked.mlx_whisper_model is None
            &&& asked.translate_langs.len() == 0
            &&& !asked.minutes
        },
        process_args(seq![audio, "--json"@]) == process_args(seq![audio, "--format"@, "json"@]),
        process_args(seq![audio, "--json"@]) matches Ok(asked) && asked.format is Json && asked.audio
            == Some(audio),
        process_args(seq![audio, "--format"@, "text"@]) matches Ok(asked) && asked.format is Text,
        process_args(seq![audio, "--format"@, "transcript-v1"@]) matches Ok(asked) && asked.format
            is TranscriptV1,
        process_args(seq![audio, "--format"@, "bilingual"@]) matches Ok(asked) && asked.format
            is Bilingual && asked.translate_langs == seq!["zh"@],
        process_args(Seq::empty()) is Err,
{
    let none = Seq::<Seq<char>>::empty();
    let start = ProcessArgs::start();
    let named = ProcessArgs { audio: Some(audio), ..start };
    positional_argument_is_the_audio(start, audio, none);
    assert(seq![audio] + none =~= seq![audio]);
    positional_argument_is_the_audio(named, audio, none);
    json_flag_is_the_format(named, none);
    options_set_what_they_name(named, "json"@, none);
    options_set_what_they_name(named, "text"@, none);
    options_set_what_they_name(named, "transcript-v1"@, none);
    options_set_what_they_name(named, "bilingual"@, none);
    formats_have_their_names("json"@);
    positional_argument_is_the_audio(start, audio, seq!["--json"@]);
    assert(seq![audio] + seq!["--json"@] =~= seq![audio, "--json"@]);
    assert(seq!["--json"@] + none =~= seq!["--json"@]);
    lemma_format_behind(start, audio, "json"@);
    lemma_format_behind(start, audio, "text"@);
    lemma_format_behind(start, audio, "transcript-v1"@);
    lemma_format_behind(start, audio, "bilingual"@);
    positional_argument_is_the_audio(
        ProcessArgs { format: OutputFormat::Json, ..named },
        audio,
        none,
    );
    positional_argument_is_the_audio(
        ProcessArgs { format: OutputFormat::TranscriptV1, ..named },
        audio,
        none,
    );
    positional_argument_is_the_audio(
        ProcessArgs { format: OutputFormat::Bilingual, ..named },
        audio,
        none,
    );
}

proof fn lemma_format_behind(asked: ProcessArgs, audio: Seq<char>, name: Seq<char>)
    requires
        audio.len() > 0,
        audio[0] != '-',
        asked.audio is None,
    ensures
        asked.read(seq![audio, "--format"@, name], 0) == (ProcessArgs {
            audio: Some(audio),
            ..asked
        }).read(seq!["--format"@, name] + Seq::<Seq<char>>::empty(), 0),
{
    let rest = seq!["--format"@, name];
    assert(rest + Seq::<Seq<char>>::empty() =~= rest);
    positional_argument_is_the_audio(asked, audio, rest);
    assert(seq![audio] + rest =~= seq![audio, "--format"@, name]);
}

/// A count is read back from its digits, with a `+` before them or without; other
/// texts are no count.
pub proof fn count_is_read_back(n: nat, s: Seq<char>, i: int)
    requires
        n <= usize::MAX,
    ensures
        count_of(text::decimal(n)) == Some(n),
        count_of(seq!['+'] + text::decimal(n)) == Some(n),
        count_of(Seq::empty()) is None,
        1 <= i < s.len() && !('0' <= s[i] <= '9') ==> count_of(s) is None,
{
    let d = text::decimal(n);
    text::lemma_decimal_is_digits(n);
    lemma_number_of_decimal(n);
    assert(d[0] != '+');
    assert forall|k: int| 0 <= k < d.len() implies is_digit(#[trigger] d[k]) by {}
    assert((seq!['+'] + d).skip(1) =~= d);
    if 1 <= i < s.len() && !('0' <= s[i] <= '9') {
        let digits = count_digits(s);
        if s[0] == '+' {
            assert(digits[i - 1] == s[i]);
        } else {
            assert(digits[i] == s[i]);
        }
    }
}

proof fn lemma_number_of_decimal(n: nat)
    ensures
        number(text::decimal(n)) == n,
    decreases n,
{
    let d = text::decimal(n);
    if n >= 10 {
        lemma_number_of_decimal(n / 10);
        assert(d.drop_last() =~= text::decimal(n / 10));
        assert(d.last() == text::digit(n % 10));
    } else {
        assert(d.drop_last() =~= Seq::empty());
        assert(number(d.drop_last()) == 0);
        assert(d.last() == text::digit(n));
    }
}

/// The languages of a list are its words, in lower case and in their order: joined with
/// commas they are read back.
pub proof fn languages_are_read_in_order(before: Seq<char>, lang: Seq<char>)
    requires
        lang.len() > 0,
        forall|i: int| 0 <= i < lang.len() ==> !between_langs(#[trigger] lang[i]),
    ensures
        langs_of(lang) == seq![text::lower(lang)],
        langs_of(before + seq![','] + lang) == langs_of(before).push(text::lower(lang)),
        langs_of(before + seq![' ']) == langs_of(before),
        langs_of(Seq::empty()) == Seq::<Seq<char>>::empty(),
        between_langs(',') && between_langs(';') && between_langs(' '),
{
    let cut = |c: char| between_langs(c);
    let keep = |s: Seq<char>| s.len() > 0;
    let lowered = |s: Seq<char>| text::lower(s);
    let none = Seq::<char>::empty();
    reveal(Seq::filter);
    assert(text::split(none, cut) =~= seq![none]);
    lemma_split_word(none, lang);
    assert(none + lang =~= lang);
    lemma_split_word(before + seq![','], lang);
    assert((before + seq![',']).drop_last() =~= before);
    assert((before + seq![' ']).drop_last() =~= before);
    let head = text::split(before, cut);
    let comma = text::split(before + seq![','], cut);
    assert(comma == head.push(none));
    assert(text::split(before + seq![' '], cut) == head.push(none));
    lemma_filter_push(head, none);
    lemma_filter_push(head, lang);
    assert(comma.drop_last() =~= head);
    assert(text::split(before + seq![','] + lang, cut) =~= head.push(lang));
    lemma_filter_push(Seq::empty(), lang);
    lemma_filter_push(Seq::empty(), none);
    assert(Seq::<Seq<char>>::empty().filter(keep) =~= Seq::empty());
    assert(text::split(lang, cut) =~= Seq::<Seq<char>>::empty().push(lang));
    assert(langs_of(lang) =~= seq![text::lower(lang)]);
    assert(langs_of(before + seq![','] + lang) =~= langs_of(before).push(text::lower(lang)));
    assert(text::split(none, cut) =~= Seq::<Seq<char>>::empty().push(none));
    assert(langs_of(none) =~= Seq::empty());
}

proof fn lemma_filter_push(list: Seq<Seq<char>>, s: Seq<char>)
    ensures
        ({
            let keep = |s: Seq<char>| s.len() > 0;
            &&& s.len() > 0 ==> list.push(s).filter(keep) == list.filter(keep).push(s)
            &&& s.len() == 0 ==> list.push(s).filter(keep) == list.filter(keep)
        }),
{
    reveal(Seq::filter);
    assert(list.push(s).drop_last() =~= list);
}

proof fn lemma_split_word(before: Seq<char>, word: Seq<char>)
    requires
        forall|i: int| 0 <= i < word.len() ==> !between_langs(#[trigger] word[i]),
    ensures
        ({
            let cut = |c: char| between_langs(c);
            let head = text::split(before, cut);
            text::split(before + word, cut) == head.drop_last().push(head.last() + word)
        }),
    decreases word.len(),
{
    let cut = |c: char| between_langs(c);
    let head = text::split(before, cut);
    text::lemma_split_nonempty(before, cut);
    if word.len() > 0 {
        let w = word.drop_last();
        assert forall|i: int| 0 <= i < w.len() implies !between_langs(#[trigger] w[i]) by {
            assert(w[i] == word[i]);
        }
        lemma_split_word(before, w);
        assert((before + word).drop_last() =~= before + w);
        assert((before + word).last() == word[word.len() - 1]);
        let mid = head.drop_last().push(head.last() + w);
        assert(mid.drop_last() =~= head.drop_last());
        assert((head.last() + w).push(word.last()) =~= head.last() + word);
    } else {
        assert(before + word =~= before);
        assert(head.last() + word =~= head.last());
        assert(head.drop_last().push(head.last()) =~= head);
    }
}

/// Seconds are written as Rust writes a number with a fraction.
pub proof fn seconds_are_decimals(n: nat, m: nat)
    ensures
        is_decimal(text::decimal(n)),
        is_decimal(text::decimal(n) + seq!['.'] + text::decimal(m)),
        is_decimal(seq!['-'] + text::decimal(n)),
        !is_decimal(Seq::empty()),
        !is_decimal(seq!['x']),
        !is_decimal(text::decimal(n).push('x')),
{
    let a = text::decimal(n);
    let b = text::decimal(m);
    text::lemma_decimal_is_digits(n);
    text::lemma_decimal_is_digits(m);
    lemma_digits_run(a, 0, a.len() as int);
    let c = a + seq!['.'] + b;
    lemma_digits_run(c, 0, a.len() as int);
    assert(c[a.len() as int] == '.');
    lemma_digits_run(c, a.len() as int + 1, c.len() as int);
    let d = seq!['-'] + a;
    lemma_digits_run(d, 1, d.len() as int);
    let e = a.push('x');
    lemma_digits_run(e, 0, a.len() as int);
    reveal_strlit("inf");
    reveal_strlit("infinity");
    reveal_strlit("nan");
    assert("inf"@.len() == 3 && "inf"@[0] == 'i' && "infinity"@[0] == 'i' && "nan"@[0] == 'n' && "nan"@.len()
        == 3);
    assert(e.skip(0) =~= e);
    assert(text::lower(e)[0] == e[0]);
    assert(seq!['x'].skip(0) =~= seq!['x']);
    assert(text::lower(seq!['x']).len() == 1);
    assert("infinity"@.len() == 8);
    let none = Seq::<char>::empty();
    assert(none.skip(0) =~= none);
    assert(text::lower(none).len() == 0);
}

proof fn lemma_digits_run(s: Seq<char>, i: int, end: int)
    requires
        0 <= i <= end <= s.len(),
        forall|k: int| i <= k < end ==> '0' <= #[trigger] s[k] <= '9',
        end < s.len() ==> !('0' <= s[end] <= '9'),
    ensures
        digits_end(s, i) == end,
    decreases end - i,
{
    if i < end {
        assert('0' <= s[i] <= '9');
        lemma_digits_run(s, i + 1, end);
    }
}

/// What is asked for is seen as it is.
pub proof fn request_is_seen_as_it_is(cli: MeetingProcessCli)
    ensures
        cli@.audio == Some(cli.audio@),
        cli@.engine == cli.engine,
        cli@.format == cli.format,
        cli@.max_speakers == cli.max_speakers,
        cli@.minutes == cli.minutes,
        cli.lang matches Some(lang) ==> cli@.lang == Some(lang@),
        cli@.lang is Some <==> cli.lang is Some,
        cli@.translate_langs.len() == cli.translate_langs@.len(),
        forall|i: int|
            0 <= i < cli.translate_langs@.len() ==> cli@.translate_langs[i] == (
            #[trigger] cli.translate_langs@[i])@,
        cli.min_turn_seconds matches Some(s) ==> cli@.min_turn_seconds == Some(s@),
        cli@.min_turn_seconds is Some <==> cli.min_turn_seconds is Some,
        cli.mlx_whisper_model matches Some(s) ==> cli@.mlx_whisper_model == Some(s@),
        cli@.mlx_whisper_model is Some <==> cli.mlx_whisper_model is Some,
{
}

proof fn lemma_at_the_start(flag: Seq<char>, value: Seq<char>)
    ensures
        text::begins(flag + value, flag),
        (flag + value).skip(flag.len() as int) == value,
        forall|i: int| 0 <= i < flag.len() ==> #[trigger] (flag + value)[i] == flag[i],
{
    let all = flag + value;
    assert(all.subrange(0, 0 + flag.len() as int) =~= flag);
    assert(all.skip(flag.len() as int) =~= value);
}

proof fn lemma_joined_engine(value: Seq<char>)
    ensures
        ({
            let arg = "--engine="@ + value;
            &&& arg != "--json"@ && arg != "--minutes"@
            &&& separate_option(arg) is None
            &&& inline_option(arg) == Some((ValueOption::Engine, value))
        }),
{
    let arg = "--engine="@ + value;
    lemma_at_the_start("--engine="@, value);
    reveal_strlit("--json");
    reveal_strlit("--minutes");
    reveal_strlit("--engine");
    reveal_strlit("--lang");
    reveal_strlit("--language");
    reveal_strlit("--format");
    reveal_strlit("--translate");
    reveal_strlit("--max-speakers");
    reveal_strlit("--min-turn-seconds");
    reveal_strlit("--mlx-whisper-model");
    reveal_strlit("--engine=");
    assert("--json"@.len() == 6 && "--json"@[0] == '-' && "--json"@[1] == '-'
        && "--json"@[2] == 'j' && "--json"@[3] == 's' && "--json"@[4] == 'o'
        && "--json"@[5] == 'n');
    assert("--minutes"@.len() == 9 && "--minutes"@[0] == '-' && "--minutes"@[1] == '-'
        && "--minutes"@[2] == 'm' && "--minutes"@[3] == 'i' && "--minutes"@[4] == 'n'
        && "--minutes"@[5] == 'u' && "--minutes"@[6] == 't' && "--minutes"@[7] == 'e'
        && "--minutes"@[8] == 's');
    assert("--engine"@.len() == 8 && "--engine"@[0] == '-' && "--engine"@[1] == '-'
        && "--engine"@[2] == 'e' && "--engine"@[3] == 'n' && "--engine"@[4] == 'g'
        && "--engine"@[5] == 'i' && "--engine"@[6] == 'n' && "--engine"@[7] == 'e');
    assert("--lang"@.len() == 6 && "--lang"@[0] == '-' && "--lang"@[1] == '-'
        && "--lang"@[2] == 'l' && "--lang"@[3] == 'a' && "--lang"@[4] == 'n'
        && "--lang"@[5] == 'g');
    assert("--language"@.len() == 10 && "--language"@[0] == '-' && "--language"@[1] == '-'
        && "--language"@[2] == 'l' && "--language"@[3] == 'a' && "--language"@[4] == 'n'
        && "--language"@[5] == 'g' && "--language"@[6] == 'u' && "--language"@[7] == 'a'
        && "--language"@[8] == 'g' && "--language"@[9] == 'e');
    assert("--format"@.len() == 8 && "--format"@[0] == '-' && "--format"@[1] == '-'
        && "--format"@[2] == 'f' && "--format"@[3] == 'o' && "--format"@[4] == 'r'
        && "--format"@[5] == 'm' && "--format"@[6] == 'a' && "--format"@[7] == 't');
    assert("--translate"@.len() == 11 && "--translate"@[0] == '-' && "--translate"@[1] == '-'
        && "--translate"@[2] == 't' && "--translate"@[3] == 'r' && "--translate"@[4] == 'a'
        && "--translate"@[5] == 'n' && "--translate"@[6] == 's' && "--translate"@[7] == 'l'
        && "--translate"@[8] == 'a' && "--translate"@[9] == 't' && "--translate"@[10] == 'e');
    assert("--max-speakers"@.len() == 14 && "--max-speakers"@[0] == '-'
        && "--max-speakers"@[1] == '-' && "--max-speakers"@[2] == 'm'
        && "--max-speakers"@[3] == 'a' && "--max-speakers"@[4] == 'x'
        && "--max-speakers"@[5] == '-' && "--max-speakers"@[6] == 's'
        && "--max-speakers"@[7] == 'p' && "--max-speakers"@[8] == 'e'
        && "--max-speakers"@[9] == 'a' && "--max-speakers"@[10] == 'k'
        && "--max-speakers"@[11] == 'e' && "--max-speakers"@[12] == 'r'
        && "--max-speakers"@[13] == 's');
    assert("--min-turn-seconds"@.len() == 18 && "--min-turn-seconds"@[0] == '-'
        && "--min-turn-seconds"@[1] == '-' && "--min-turn-seconds"@[2] == 'm'
        && "--min-turn-seconds"@[3] == 'i' && "--min-turn-seconds"@[4] == 'n'
        && "--min-turn-seconds"@[5] == '-' && "--min-turn-seconds"@[6] == 't'
        && "--min-turn-seconds"@[7] == 'u' && "--min-turn-seconds"@[8] == 'r'
        && "--min-turn-seconds"@[9] == 'n' && "--min-turn-seconds"@[10] == '-'
        && "--min-turn-seconds"@[11] == 's' && "--min-turn-seconds"@[12] == 'e'
        && "--min-turn-seconds"@[13] == 'c' && "--min-turn-seconds"@[14] == 'o'
        && "--min-turn-seconds"@[15] == 'n' && "--min-turn-seconds"@[16] == 'd'
        && "--min-turn-seconds"@[17] == 's');
    assert("--mlx-whisper-model"@.len() == 19 && "--mlx-whisper-model"@[0] == '-'
        && "--mlx-whisper-model"@[1] == '-' && "--mlx-whisper-model"@[2] == 'm'
        && "--mlx-whisper-model"@[3] == 'l' && "--mlx-whisper-model"@[4] == 'x'
        && "--mlx-whisper-model"@[5] == '-' && "--mlx-whisper-model"@[6] == 'w'
        && "--mlx-whisper-model"@[7] == 'h' && "--mlx-whisper-model"@[8] == 'i'
        && "--mlx-whisper-model"@[9] == 's' && "--mlx-whisper-model"@[10] == 'p'
        && "--mlx-whisper-model"@[11] == 'e' && "--mlx-whisper-model"@[12] == 'r'
        && "--mlx-whisper-model"@[13] == '-' && "--mlx-whisper-model"@[14] == 'm'
        && "--mlx-whisper-model"@[15] == 'o' && "--mlx-whisper-model"@[16] == 'd'
        && "--mlx-whisper-model"@[17] == 'e' && "--mlx-whisper-model"@[18] == 'l');
    assert("--engine="@.len() == 9 && "--engine="@[0] == '-' && "--engine="@[1] == '-'
        && "--engine="@[2] == 'e' && "--engine="@[3] == 'n' && "--engine="@[4] == 'g'
        && "--engine="@[5] == 'i' && "--engine="@[6] == 'n' && "--engine="@[7] == 'e'
        && "--engine="@[8] == '=');
    assert(arg.len() >= 9 && arg[8] == '=' && arg[2] == 'e' && arg[3] == 'n' && arg[4] == 'g' && arg[6] == 'n');
}

proof fn lemma_joined_lang(value: Seq<char>)
    ensures
        ({
            let arg = "--lang="@ + value;
            &&& arg != "--json"@ && arg != "--minutes"@
            &&& separate_option(arg) is None
            &&& inline_option(arg) == Some((ValueOption::Lang, value))
        }),
{
    let arg = "--lang="@ + value;
    lemma_at_the_start("--lang="@, value);
    reveal_strlit("--json");
    reveal_strlit("--minutes");
    reveal_strlit("--engine");
    reveal_strlit("--lang");
    reveal_strlit("--language");
    reveal_strlit("--format");
    reveal_strlit("--translate");
    reveal_strlit("--max-speakers");
    reveal_strlit("--min-turn-seconds");
    reveal_strlit("--mlx-whisper-model");
    reveal_strlit("--lang=");
    reveal_strlit("--engine=");
    assert("--json"@.len() == 6 && "--json"@[0] == '-' && "--json"@[1] == '-'
        && "--json"@[2] == 'j' && "--json"@[3] == 's' && "--json"@[4] == 'o'
        && "--json"@[5] == 'n');
    assert("--minutes"@.len() == 9 && "--minutes"@[0] == '-' && "--minutes"@[1] == '-'
        && "--minutes"@[2] == 'm' && "--minutes"@[3] == 'i' && "--minutes"@[4] == 'n'
        && "--minutes"@[5] == 'u' && "--minutes"@[6] == 't' && "--minutes"@[7] == 'e'
        && "--minutes"@[8] == 's');
    assert("--engine"@.len() == 8 && "--engine"@[0] == '-' && "--engine"@[1] == '-'
        && "--engine"@[2] == 'e' && "--engine"@[3] == 'n' && "--engine"@[4] == 'g'
        && "--engine"@[5] == 'i' && "--engine"@[6] == 'n' && "--engine"@[7] == 'e');
    assert("--lang"@.len() == 6 && "--lang"@[0] == '-' && "--lang"@[1] == '-'
        && "--lang"@[2] == 'l' && "--lang"@[3] == 'a' && "--lang"@[4] == 'n'
        && "--lang"@[5] == 'g');
    assert("--language"@.len() == 10 && "--language"@[0] == '-' && "--language"@[1] == '-'
        && "--language"@[2] == 'l' && "--language"@[3] == 'a' && "--language"@[4] == 'n'
        && "--language"@[5] == 'g' && "--language"@[6] == 'u' && "--language"@[7] == 'a'
        && "--language"@[8] == 'g' && "--language"@[9] == 'e');
    assert("--format"@.len() == 8 && "--format"@[0] == '-' && "--format"@[1] == '-'
        && "--format"@[2] == 'f' && "--format"@[3] == 'o' && "--format"@[4] == 'r'
        && "--format"@[5] == 'm' && "--format"@[6] == 'a' && "--format"@[7] == 't');
    assert("--translate"@.len() == 11 && "--translate"@[0] == '-' && "--translate"@[1] == '-'
        && "--translate"@[2] == 't' && "--translate"@[3] == 'r' && "--translate"@[4] == 'a'
        && "--translate"@[5] == 'n' && "--translate"@[6] == 's' && "--translate"@[7] == 'l'
        && "--translate"@[8] == 'a' && "--translate"@[9] == 't' && "--translate"@[10] == 'e');
    assert("--max-speakers"@.len() == 14 && "--max-speakers"@[0] == '-'
        && "--max-speakers"@[1] == '-' && "--max-speakers"@[2] == 'm'
        && "--max-speakers"@[3] == 'a' && "--max-speakers"@[4] == 'x'
        && "--max-speakers"@[5] == '-' && "--max-speakers"@[6] == 's'
        && "--max-speakers"@[7] == 'p' && "--max-speakers"@[8] == 'e'
        && "--max-speakers"@[9] == 'a' && "--max-speakers"@[10] == 'k'
        && "--max-speakers"@[11] == 'e' && "--max-speakers"@[12] == 'r'
        && "--max-speakers"@[13] == 's');
    assert("--min-turn-seconds"@.len() == 18 && "--min-turn-seconds"@[0] == '-'
        && "--min-turn-seconds"@[1] == '-' && "--min-turn-seconds"@[2] == 'm'
        && "--min-turn-seconds"@[3] == 'i' && "--min-turn-seconds"@[4] == 'n'
        && "--min-turn-seconds"@[5] == '-' && "--min-turn-seconds"@[6] == 't'
        && "--min-turn-seconds"@[7] == 'u' && "--min-turn-seconds"@[8] == 'r'
        && "--min-turn-seconds"@[9] == 'n' && "--min-turn-seconds"@[10] == '-'
        && "--min-turn-seconds"@[11] == 's' && "--min-turn-seconds"@[12] == 'e'
        && "--min-turn-seconds"@[13] == 'c' && "--min-turn-seconds"@[14] == 'o'
        && "--min-turn-seconds"@[15] == 'n' && "--min-turn-seconds"@[16] == 'd'
        && "--min-turn-seconds"@[17] == 's');
    assert("--mlx-whisper-model"@.len() == 19 && "--mlx-whisper-model"@[0] == '-'
        && "--mlx-whisper-model"@[1] == '-' && "--mlx-whisper-model"@[2] == 'm'
        && "--mlx-whisper-model"@[3] == 'l' && "--mlx-whisper-model"@[4] == 'x'
        && "--mlx-whisper-model"@[5] == '-' && "--mlx-whisper-model"@[6] == 'w'
        && "--mlx-whisper-model"@[7] == 'h' && "--mlx-whisper-model"@[8] == 'i'
        && "--mlx-whisper-model"@[9] == 's' && "--mlx-whisper-model"@[10] == 'p'
        && "--mlx-whisper-model"@[11] == 'e' && "--mlx-whisper-model"@[12] == 'r'
        && "--mlx-whisper-model"@[13] == '-' && "--mlx-whisper-model"@[14] == 'm'
        && "--mlx-whisper-model"@[15] == 'o' && "--mlx-whisper-model"@[16] == 'd'
        && "--mlx-whisper-model"@[17] == 'e' && "--mlx-whisper-model"@[18] == 'l');
    assert("--lang="@.len() == 7 && "--lang="@[0] == '-' && "--lang="@[1] == '-'
        && "--lang="@[2] == 'l' && "--lang="@[3] == 'a' && "--lang="@[4] == 'n'
        && "--lang="@[5] == 'g' && "--lang="@[6] == '=');
    assert("--engine="@.len() == 9 && "--engine="@[0] == '-' && "--engine="@[1] == '-'
        && "--engine="@[2] == 'e' && "--engine="@[3] == 'n' && "--engine="@[4] == 'g'
        && "--engine="@[5] == 'i' && "--engine="@[6] == 'n' && "--engine="@[7] == 'e'
        && "--engine="@[8] == '=');
    assert(arg.len() >= 7 && arg[6] == '=' && arg[2] == 'l' && arg[3] == 'a' && arg[4] == 'n');
    lemma_begins_with(arg, "--engine="@);
    assert(arg[2] != "--engine="@[2]);
}

proof fn lemma_joined_language(value: Seq<char>)
    ensures
        ({
            let arg = "--language="@ + value;
            &&& arg != "--json"@ && arg != "--minutes"@
            &&& separate_option(arg) is None
            &&& inline_option(arg) == Some((ValueOption::Lang, value))
        }),
{
    let arg = "--language="@ + value;
    lemma_at_the_start("--language="@, value);
    reveal_strlit("--json");
    reveal_strlit("--minutes");
    reveal_strlit("--engine");
    reveal_strlit("--lang");
    reveal_strlit("--language");
    reveal_strlit("--format");
    reveal_strlit("--translate");
    reveal_strlit("--max-speakers");
    reveal_strlit("--min-turn-seconds");
    reveal_strlit("--mlx-whisper-model");
    reveal_strlit("--language=");
    reveal_strlit("--engine=");
    reveal_strlit("--lang=");
    assert("--json"@.len() == 6 && "--json"@[0] == '-' && "--json"@[1] == '-'
        && "--json"@[2] == 'j' && "--json"@[3] == 's' && "--json"@[4] == 'o'
        && "--json"@[5] == 'n');
    assert("--minutes"@.len() == 9 && "--minutes"@[0] == '-' && "--minutes"@[1] == '-'
        && "--minutes"@[2] == 'm' && "--minutes"@[3] == 'i' && "--minutes"@[4] == 'n'
        && "--minutes"@[5] == 'u' && "--minutes"@[6] == 't' && "--minutes"@[7] == 'e'
        && "--minutes"@[8] == 's');
    assert("--engine"@.len() == 8 && "--engine"@[0] == '-' && "--engine"@[1] == '-'
        && "--engine"@[2] == 'e' && "--engine"@[3] == 'n' && "--engine"@[4] == 'g'
        && "--engine"@[5] == 'i' && "--engine"@[6] == 'n' && "--engine"@[7] == 'e');
    assert("--lang"@.len() == 6 && "--lang"@[0] == '-' && "--lang"@[1] == '-'
        && "--lang"@[2] == 'l' && "--lang"@[3] == 'a' && "--lang"@[4] == 'n'
        && "--lang"@[5] == 'g');
    assert("--language"@.len() == 10 && "--language"@[0] == '-' && "--language"@[1] == '-'
        && "--language"@[2] == 'l' && "--language"@[3] == 'a' && "--language"@[4] == 'n'
        && "--language"@[5] == 'g' && "--language"@[6] == 'u' && "--language"@[7] == 'a'
        && "--language"@[8] == 'g' && "--language"@[9] == 'e');
    assert("--format"@.len() == 8 && "--format"@[0] == '-' && "--format"@[1] == '-'
        && "--format"@[2] == 'f' && "--format"@[3] == 'o' && "--format"@[4] == 'r'
        && "--format"@[5] == 'm' && "--format"@[6] == 'a' && "--format"@[7] == 't');
    assert("--translate"@.len() == 11 && "--translate"@[0] == '-' && "--translate"@[1] == '-'
        && "--translate"@[2] == 't' && "--translate"@[3] == 'r' && "--translate"@[4] == 'a'
        && "--translate"@[5] == 'n' && "--translate"@[6] == 's' && "--translate"@[7] == 'l'
        && "--translate"@[8] == 'a' && "--translate"@[9] == 't' && "--translate"@[10] == 'e');
    assert("--max-speakers"@.len() == 14 && "--max-speakers"@[0] == '-'
        && "--max-speakers"@[1] == '-' && "--max-speakers"@[2] == 'm'
        && "--max-speakers"@[3] == 'a' && "--max-speakers"@[4] == 'x'
        && "--max-speakers"@[5] == '-' && "--max-speakers"@[6] == 's'
        && "--max-speakers"@[7] == 'p' && "--max-speakers"@[8] == 'e'
        && "--max-speakers"@[9] == 'a' && "--max-speakers"@[10] == 'k'
        && "--max-speakers"@[11] == 'e' && "--max-speakers"@[12] == 'r'
        && "--max-speakers"@[13] == 's');
    assert("--min-turn-seconds"@.len() == 18 && "--min-turn-seconds"@[0] == '-'
        && "--min-turn-seconds"@[1] == '-' && "--min-turn-seconds"@[2] == 'm'
        && "--min-turn-seconds"@[3] == 'i' && "--min-turn-seconds"@[4] == 'n'
        && "--min-turn-seconds"@[5] == '-' && "--min-turn-seconds"@[6] == 't'
        && "--min-turn-seconds"@[7] == 'u' && "--min-turn-seconds"@[8] == 'r'
        && "--min-turn-seconds"@[9] == 'n' && "--min-turn-seconds"@[10] == '-'
        && "--min-turn-seconds"@[11] == 's' && "--min-turn-seconds"@[12] == 'e'
        && "--min-turn-seconds"@[13] == 'c' && "--min-turn-seconds"@[14] == 'o'
        && "--min-turn-seconds"@[15] == 'n' && "--min-turn-seconds"@[16] == 'd'
        && "--min-turn-seconds"@[17] == 's');
    assert("--mlx-whisper-model"@.len() == 19 && "--mlx-whisper-model"@[0] == '-'
        && "--mlx-whisper-model"@[1] == '-' && "--mlx-whisper-model"@[2] == 'm'
        && "--mlx-whisper-model"@[3] == 'l' && "--mlx-whisper-model"@[4] == 'x'
        && "--mlx-whisper-model"@[5] == '-' && "--mlx-whisper-model"@[6] == 'w'
        && "--mlx-whisper-model"@[7] == 'h' && "--mlx-whisper-model"@[8] == 'i'
        && "--mlx-whisper-model"@[9] == 's' && "--mlx-whisper-model"@[10] == 'p'
        && "--mlx-whisper-model"@[11] == 'e' && "--mlx-whisper-model"@[12] == 'r'
        && "--mlx-whisper-model"@[13] == '-' && "--mlx-whisper-model"@[14] == 'm'
        && "--mlx-whisper-model"@[15] == 'o' && "--mlx-whisper-model"@[16] == 'd'
        && "--mlx-whisper-model"@[17] == 'e' && "--mlx-whisper-model"@[18] == 'l');
    assert("--language="@.len() == 11 && "--language="@[0] == '-' && "--language="@[1] == '-'
        && "--language="@[2] == 'l' && "--language="@[3] == 'a' && "--language="@[4] == 'n'
        && "--language="@[5] == 'g' && "--language="@[6] == 'u' && "--language="@[7] == 'a'
        && "--language="@[8] == 'g' && "--language="@[9] == 'e' && "--language="@[10] == '=');
    assert("--engine="@.len() == 9 && "--engine="@[0] == '-' && "--engine="@[1] == '-'
        && "--engine="@[2] == 'e' && "--engine="@[3] == 'n' && "--engine="@[4] == 'g'
        && "--engine="@[5] == 'i' && "--engine="@[6] == 'n' && "--engine="@[7] == 'e'
        && "--engine="@[8] == '=');
    assert("--lang="@.len() == 7 && "--lang="@[0] == '-' && "--lang="@[1] == '-'
        && "--lang="@[2] == 'l' && "--lang="@[3] == 'a' && "--lang="@[4] == 'n'
        && "--lang="@[5] == 'g' && "--lang="@[6] == '=');
    assert(arg.len() >= 11 && arg[10] == '=' && arg[2] == 'l' && arg[3] == 'a' && arg[4] == 'n' && arg[6] == 'u');
    lemma_begins_with(arg, "--engine="@);
    assert(arg[2] != "--engine="@[2]);
    lemma_begins_with(arg, "--lang="@);
    assert(arg[6] != "--lang="@[6]);
}

proof fn lemma_joined_format(value: Seq<char>)
    ensures
        ({
            let arg = "--format="@ + value;
            &&& arg != "--json"@ && arg != "--minutes"@
            &&& separate_option(arg) is None
            &&& inline_option(arg) == Some((ValueOption::Format, value))
        }),
{
    let arg = "--format="@ + value;
    lemma_at_the_start("--format="@, value);
    reveal_strlit("--json");
    reveal_strlit("--minutes");
    reveal_strlit("--engine");
    reveal_strlit("--lang");
    reveal_strlit("--language");
    reveal_strlit("--format");
    reveal_strlit("--translate");
    reveal_strlit("--max-speakers");
    reveal_strlit("--min-turn-seconds");
    reveal_strlit("--mlx-whisper-model");
    reveal_strlit("--format=");
    reveal_strlit("--engine=");
    reveal_strlit("--lang=");
    reveal_strlit("--language=");
    assert("--json"@.len() == 6 && "--json"@[0] == '-' && "--json"@[1] == '-'
        && "--json"@[2] == 'j' && "--json"@[3] == 's' && "--json"@[4] == 'o'
        && "--json"@[5] == 'n');
    assert("--minutes"@.len() == 9 && "--minutes"@[0] == '-' && "--minutes"@[1] == '-'
        && "--minutes"@[2] == 'm' && "--minutes"@[3] == 'i' && "--minutes"@[4] == 'n'
        && "--minutes"@[5] == 'u' && "--minutes"@[6] == 't' && "--minutes"@[7] == 'e'
        && "--minutes"@[8] == 's');
    assert("--engine"@.len() == 8 && "--engine"@[0] == '-' && "--engine"@[1] == '-'
        && "--engine"@[2] == 'e' && "--engine"@[3] == 'n' && "--engine"@[4] == 'g'
        && "--engine"@[5] == 'i' && "--engine"@[6] == 'n' && "--engine"@[7] == 'e');
    assert("--lang"@.len() == 6 && "--lang"@[0] == '-' && "--lang"@[1] == '-'
        && "--lang"@[2] == 'l' && "--lang"@[3] == 'a' && "--lang"@[4] == 'n'
        && "--lang"@[5] == 'g');
    assert("--language"@.len() == 10 && "--language"@[0] == '-' && "--language"@[1] == '-'
        && "--language"@[2] == 'l' && "--language"@[3] == 'a' && "--language"@[4] == 'n'
        && "--language"@[5] == 'g' && "--language"@[6] == 'u' && "--language"@[7] == 'a'
        && "--language"@[8] == 'g' && "--language"@[9] == 'e');
    assert("--format"@.len() == 8 && "--format"@[0] == '-' && "--format"@[1] == '-'
        && "--format"@[2] == 'f' && "--format"@[3] == 'o' && "--format"@[4] == 'r'
        && "--format"@[5] == 'm' && "--format"@[6] == 'a' && "--format"@[7] == 't');
    assert("--translate"@.len() == 11 && "--translate"@[0] == '-' && "--translate"@[1] == '-'
        && "--translate"@[2] == 't' && "--translate"@[3] == 'r' && "--translate"@[4] == 'a'
        && "--translate"@[5] == 'n' && "--translate"@[6] == 's' && "--translate"@[7] == 'l'
        && "--translate"@[8] == 'a' && "--translate"@[9] == 't' && "--translate"@[10] == 'e');
    assert("--max-speakers"@.len() == 14 && "--max-speakers"@[0] == '-'
        && "--max-speakers"@[1] == '-' && "--max-speakers"@[2] == 'm'
        && "--max-speakers"@[3] == 'a' && "--max-speakers"@[4] == 'x'
        && "--max-speakers"@[5] == '-' && "--max-speakers"@[6] == 's'
        && "--max-speakers"@[7] == 'p' && "--max-speakers"@[8] == 'e'
        && "--max-speakers"@[9] == 'a' && "--max-speakers"@[10] == 'k'
        && "--max-speakers"@[11] == 'e' && "--max-speakers"@[12] == 'r'
        && "--max-speakers"@[13] == 's');
    assert("--min-turn-seconds"@.len() == 18 && "--min-turn-seconds"@[0] == '-'
        && "--min-turn-seconds"@[1] == '-' && "--min-turn-seconds"@[2] == 'm'
        && "--min-turn-seconds"@[3] == 'i' && "--min-turn-seconds"@[4] == 'n'
        && "--min-turn-seconds"@[5] == '-' && "--min-turn-seconds"@[6] == 't'
        && "--min-turn-seconds"@[7] == 'u' && "--min-turn-seconds"@[8] == 'r'
        && "--min-turn-seconds"@[9] == 'n' && "--min-turn-seconds"@[10] == '-'
        && "--min-turn-seconds"@[11] == 's' && "--min-turn-seconds"@[12] == 'e'
        && "--min-turn-seconds"@[13] == 'c' && "--min-turn-seconds"@[14] == 'o'
        && "--min-turn-seconds"@[15] == 'n' && "--min-turn-seconds"@[16] == 'd'
        && "--min-turn-seconds"@[17] == 's');
    assert("--mlx-whisper-model"@.len() == 19 && "--mlx-whisper-model"@[0] == '-'
        && "--mlx-whisper-model"@[1] == '-' && "--mlx-whisper-model"@[2] == 'm'
        && "--mlx-whisper-model"@[3] == 'l' && "--mlx-whisper-model"@[4] == 'x'
        && "--mlx-whisper-model"@[5] == '-' && "--mlx-whisper-model"@[6] == 'w'
        && "--mlx-whisper-model"@[7] == 'h' && "--mlx-whisper-model"@[8] == 'i'
        && "--mlx-whisper-model"@[9] == 's' && "--mlx-whisper-model"@[10] == 'p'
        && "--mlx-whisper-model"@[11] == 'e' && "--mlx-whisper-model"@[12] == 'r'
        && "--mlx-whisper-model"@[13] == '-' && "--mlx-whisper-model"@[14] == 'm'
        && "--mlx-whisper-model"@[15] == 'o' && "--mlx-whisper-model"@[16] == 'd'
        && "--mlx-whisper-model"@[17] == 'e' && "--mlx-whisper-model"@[18] == 'l');
    assert("--format="@.len() == 9 && "--format="@[0] == '-' && "--format="@[1] == '-'
        && "--format="@[2] == 'f' && "--format="@[3] == 'o' && "--format="@[4] == 'r'
        && "--format="@[5] == 'm' && "--format="@[6] == 'a' && "--format="@[7] == 't'
        && "--format="@[8] == '=');
    assert("--engine="@.len() == 9 && "--engine="@[0] == '-' && "--engine="@[1] == '-'
        && "--engine="@[2] == 'e' && "--engine="@[3] == 'n' && "--engine="@[4] == 'g'
        && "--engine="@[5] == 'i' && "--engine="@[6] == 'n' && "--engine="@[7] == 'e'
        && "--engine="@[8] == '=');
    assert("--lang="@.len() == 7 && "--lang="@[0] == '-' && "--lang="@[1] == '-'
        && "--lang="@[2] == 'l' && "--lang="@[3] == 'a' && "--lang="@[4] == 'n'
        && "--lang="@[5] == 'g' && "--lang="@[6] == '=');
    assert("--language="@.len() == 11 && "--language="@[0] == '-' && "--language="@[1] == '-'
        && "--language="@[2] == 'l' && "--language="@[3] == 'a' && "--language="@[4] == 'n'
        && "--language="@[5] == 'g' && "--language="@[6] == 'u' && "--language="@[7] == 'a'
        && "--language="@[8] == 'g' && "--language="@[9] == 'e' && "--language="@[10] == '=');
    assert(arg.len() >= 9 && arg[8] == '=' && arg[2] == 'f' && arg[3] == 'o' && arg[4] == 'r' && arg[6] == 'a');
    lemma_begins_with(arg, "--engine="@);
    assert(arg[2] != "--engine="@[2]);
    lemma_begins_with(arg, "--lang="@);
    assert(arg[2] != "--lang="@[2]);
    lemma_begins_with(arg, "--language="@);
    assert(arg[2] != "--language="@[2]);
}

proof fn lemma_joined_translate(value: Seq<char>)
    ensures
        ({
            let arg = "--translate="@ + value;
            &&& arg != "--json"@ && arg != "--minutes"@
            &&& separate_option(arg) is None
            &&& inline_option(arg) == Some((ValueOption::Translate, value))
        }),
{
    let arg = "--translate="@ + value;
    lemma_at_the_start("--translate="@, value);
    reveal_strlit("--json");
    reveal_strlit("--minutes");
    reveal_strlit("--engine");
    reveal_strlit("--lang");
    reveal_strlit("--language");
    reveal_strlit("--format");
    reveal_strlit("--translate");
    reveal_strlit("--max-speakers");
    reveal_strlit("--min-turn-seconds");
    reveal_strlit("--mlx-whisper-model");
    reveal_strlit("--translate=");
    reveal_strlit("--engine=");
    reveal_strlit("--lang=");
    reveal_strlit("--language=");
    reveal_strlit("--format=");
    assert("--json"@.len() == 6 && "--json"@[0] == '-' && "--json"@[1] == '-'
        && "--json"@[2] == 'j' && "--json"@[3] == 's' && "--json"@[4] == 'o'
        && "--json"@[5] == 'n');
    assert("--minutes"@.len() == 9 && "--minutes"@[0] == '-' && "--minutes"@[1] == '-'
        && "--minutes"@[2] == 'm' && "--minutes"@[3] == 'i' && "--minutes"@[4] == 'n'
        && "--minutes"@[5] == 'u' && "--minutes"@[6] == 't' && "--minutes"@[7] == 'e'
        && "--minutes"@[8] == 's');
    assert("--engine"@.len() == 8 && "--engine"@[0] == '-' && "--engine"@[1] == '-'
        && "--engine"@[2] == 'e' && "--engine"@[3] == 'n' && "--engine"@[4] == 'g'
        && "--engine"@[5] == 'i' && "--engine"@[6] == 'n' && "--engine"@[7] == 'e');
    assert("--lang"@.len() == 6 && "--lang"@[0] == '-' && "--lang"@[1] == '-'
        && "--lang"@[2] == 'l' && "--lang"@[3] == 'a' && "--lang"@[4] == 'n'
        && "--lang"@[5] == 'g');
    assert("--language"@.len() == 10 && "--language"@[0] == '-' && "--language"@[1] == '-'
        && "--language"@[2] == 'l' && "--language"@[3] == 'a' && "--language"@[4] == 'n'
        && "--language"@[5] == 'g' && "--language"@[6] == 'u' && "--language"@[7] == 'a'
        && "--language"@[8] == 'g' && "--language"@[9] == 'e');
    assert("--format"@.len() == 8 && "--format"@[0] == '-' && "--format"@[1] == '-'
        && "--format"@[2] == 'f' && "--format"@[3] == 'o' && "--format"@[4] == 'r'
        && "--format"@[5] == 'm' && "--format"@[6] == 'a' && "--format"@[7] == 't');
    assert("--translate"@.len() == 11 && "--translate"@[0] == '-' && "--translate"@[1] == '-'
        && "--translate"@[2] == 't' && "--translate"@[3] == 'r' && "--translate"@[4] == 'a'
        && "--translate"@[5] == 'n' && "--translate"@[6] == 's' && "--translate"@[7] == 'l'
        && "--translate"@[8] == 'a' && "--translate"@[9] == 't' && "--translate"@[10] == 'e');
    assert("--max-speakers"@.len() == 14 && "--max-speakers"@[0] == '-'
        && "--max-speakers"@[1] == '-' && "--max-speakers"@[2] == 'm'
        && "--max-speakers"@[3] == 'a' && "--max-speakers"@[4] == 'x'
        && "--max-speakers"@[5] == '-' && "--max-speakers"@[6] == 's'
        && "--max-speakers"@[7] == 'p' && "--max-speakers"@[8] == 'e'
        && "--max-speakers"@[9] == 'a' && "--max-speakers"@[10] == 'k'
        && "--max-speakers"@[11] == 'e' && "--max-speakers"@[12] == 'r'
        && "--max-speakers"@[13] == 's');
    assert("--min-turn-seconds"@.len() == 18 && "--min-turn-seconds"@[0] == '-'
        && "--min-turn-seconds"@[1] == '-' && "--min-turn-seconds"@[2] == 'm'
        && "--min-turn-seconds"@[3] == 'i' && "--min-turn-seconds"@[4] == 'n'
        && "--min-turn-seconds"@[5] == '-' && "--min-turn-seconds"@[6] == 't'
        && "--min-turn-seconds"@[7] == 'u' && "--min-turn-seconds"@[8] == 'r'
        && "--min-turn-seconds"@[9] == 'n' && "--min-turn-seconds"@[10] == '-'
        && "--min-turn-seconds"@[11] == 's' && "--min-turn-seconds"@[12] == 'e'
        && "--min-turn-seconds"@[13] == 'c' && "--min-turn-seconds"@[14] == 'o'
        && "--min-turn-seconds"@[15] == 'n' && "--min-turn-seconds"@[16] == 'd'
        && "--min-turn-seconds"@[17] == 's');
    assert("--mlx-whisper-model"@.len() == 19 && "--mlx-whisper-model"@[0] == '-'
        && "--mlx-whisper-model"@[1] == '-' && "--mlx-whisper-model"@[2] == 'm'
        && "--mlx-whisper-model"@[3] == 'l' && "--mlx-whisper-model"@[4] == 'x'
        && "--mlx-whisper-model"@[5] == '-' && "--mlx-whisper-model"@[6] == 'w'
        && "--mlx-whisper-model"@[7] == 'h' && "--mlx-whisper-model"@[8] == 'i'
        && "--mlx-whisper-model"@[9] == 's' && "--mlx-whisper-model"@[10] == 'p'
        && "--mlx-whisper-model"@[11] == 'e' && "--mlx-whisper-model"@[12] == 'r'
        && "--mlx-whisper-model"@[13] == '-' && "--mlx-whisper-model"@[14] == 'm'
        && "--mlx-whisper-model"@[15] == 'o' && "--mlx-whisper-model"@[16] == 'd'
        && "--mlx-whisper-model"@[17] == 'e' && "--mlx-whisper-model"@[18] == 'l');
    assert("--translate="@.len() == 12 && "--translate="@[0] == '-' && "--translate="@[1] == '-'
        && "--translate="@[2] == 't' && "--translate="@[3] == 'r' && "--translate="@[4] == 'a'
        && "--translate="@[5] == 'n' && "--translate="@[6] == 's' && "--translate="@[7] == 'l'
        && "--translate="@[8] == 'a' && "--translate="@[9] == 't' && "--translate="@[10] == 'e'
        && "--translate="@[11] == '=');
    assert("--engine="@.len() == 9 && "--engine="@[0] == '-' && "--engine="@[1] == '-'
        && "--engine="@[2] == 'e' && "--engine="@[3] == 'n' && "--engine="@[4] == 'g'
        && "--engine="@[5] == 'i' && "--engine="@[6] == 'n' && "--engine="@[7] == 'e'
        && "--engine="@[8] == '=');
    assert("--lang="@.len() == 7 && "--lang="@[0] == '-' && "--lang="@[1] == '-'
        && "--lang="@[2] == 'l' && "--lang="@[3] == 'a' && "--lang="@[4] == 'n'
        && "--lang="@[5] == 'g' && "--lang="@[6] == '=');
    assert("--language="@.len() == 11 && "--language="@[0] == '-' && "--language="@[1] == '-'
        && "--language="@[2] == 'l' && "--language="@[3] == 'a' && "--language="@[4] == 'n'
        && "--language="@[5] == 'g' && "--language="@[6] == 'u' && "--language="@[7] == 'a'
        && "--language="@[8] == 'g' && "--language="@[9] == 'e' && "--language="@[10] == '=');
    assert("--format="@.len() == 9 && "--format="@[0] == '-' && "--format="@[1] == '-'
        && "--format="@[2] == 'f' && "--format="@[3] == 'o' && "--format="@[4] == 'r'
        && "--format="@[5] == 'm' && "--format="@[6] == 'a' && "--format="@[7] == 't'
        && "--format="@[8] == '=');
    assert(arg.len() >= 12 && arg[11] == '=' && arg[2] == 't' && arg[3] == 'r' && arg[4] == 'a' && arg[6] == 's');
    lemma_begins_with(arg, "--engine="@);
    assert(arg[2] != "--engine="@[2]);
    lemma_begins_with(arg, "--lang="@);
    assert(arg[2] != "--lang="@[2]);
    lemma_begins_with(arg, "--language="@);
    assert(arg[2] != "--language="@[2]);
    lemma_begins_with(arg, "--format="@);
    assert(arg[2] != "--format="@[2]);
}

proof fn lemma_joined_max_speakers(value: Seq<char>)
    ensures
        ({
            let arg = "--max-speakers="@ + value;
            &&& arg != "--json"@ && arg != "--minutes"@
            &&& separate_option(arg) is None
            &&& inline_option(arg) == Some((ValueOption::MaxSpeakers, value))
        }),
{
    let arg = "--max-speakers="@ + value;
    lemma_at_the_start("--max-speakers="@, value);
    reveal_strlit("--json");
    reveal_strlit("--minutes");
    reveal_strlit("--engine");
    reveal_strlit("--lang");
    reveal_strlit("--language");
    reveal_strlit("--format");
    reveal_strlit("--translate");
    reveal_strlit("--max-speakers");
    reveal_strlit("--min-turn-seconds");
    reveal_strlit("--mlx-whisper-model");
    reveal_strlit("--max-speakers=");
    reveal_strlit("--engine=");
    reveal_strlit("--lang=");
    reveal_strlit("--language=");
    reveal_strlit("--format=");
    reveal_strlit("--translate=");
    assert("--json"@.len() == 6 && "--json"@[0] == '-' && "--json"@[1] == '-'
        && "--json"@[2] == 'j' && "--json"@[3] == 's' && "--json"@[4] == 'o'
        && "--json"@[5] == 'n');
    assert("--minutes"@.len() == 9 && "--minutes"@[0] == '-' && "--minutes"@[1] == '-'
        && "--minutes"@[2] == 'm' && "--minutes"@[3] == 'i' && "--minutes"@[4] == 'n'
        && "--minutes"@[5] == 'u' && "--minutes"@[6] == 't' && "--minutes"@[7] == 'e'
        && "--minutes"@[8] == 's');
    assert("--engine"@.len() == 8 && "--engine"@[0] == '-' && "--engine"@[1] == '-'
        && "--engine"@[2] == 'e' && "--engine"@[3] == 'n' && "--engine"@[4] == 'g'
        && "--engine"@[5] == 'i' && "--engine"@[6] == 'n' && "--engine"@[7] == 'e');
    assert("--lang"@.len() == 6 && "--lang"@[0] == '-' && "--lang"@[1] == '-'
        && "--lang"@[2] == 'l' && "--lang"@[3] == 'a' && "--lang"@[4] == 'n'
        && "--lang"@[5] == 'g');
    assert("--language"@.len() == 10 && "--language"@[0] == '-' && "--language"@[1] == '-'
        && "--language"@[2] == 'l' && "--language"@[3] == 'a' && "--language"@[4] == 'n'
        && "--language"@[5] == 'g' && "--language"@[6] == 'u' && "--language"@[7] == 'a'
        && "--language"@[8] == 'g' && "--language"@[9] == 'e');
    assert("--format"@.len() == 8 && "--format"@[0] == '-' && "--format"@[1] == '-'
        && "--format"@[2] == 'f' && "--format"@[3] == 'o' && "--format"@[4] == 'r'
        && "--format"@[5] == 'm' && "--format"@[6] == 'a' && "--format"@[7] == 't');
    assert("--translate"@.len() == 11 && "--translate"@[0] == '-' && "--translate"@[1] == '-'
        && "--translate"@[2] == 't' && "--translate"@[3] == 'r' && "--translate"@[4] == 'a'
        && "--translate"@[5] == 'n' && "--translate"@[6] == 's' && "--translate"@[7] == 'l'
        && "--translate"@[8] == 'a' && "--translate"@[9] == 't' && "--translate"@[10] == 'e');
    assert("--max-speakers"@.len() == 14 && "--max-speakers"@[0] == '-'
        && "--max-speakers"@[1] == '-' && "--max-speakers"@[2] == 'm'
        && "--max-speakers"@[3] == 'a' && "--max-speakers"@[4] == 'x'
        && "--max-speakers"@[5] == '-' && "--max-speakers"@[6] == 's'
        && "--max-speakers"@[7] == 'p' && "--max-speakers"@[8] == 'e'
        && "--max-speakers"@[9] == 'a' && "--max-speakers"@[10] == 'k'
        && "--max-speakers"@[11] == 'e' && "--max-speakers"@[12] == 'r'
        && "--max-speakers"@[13] == 's');
    assert("--min-turn-seconds"@.len() == 18 && "--min-turn-seconds"@[0] == '-'
        && "--min-turn-seconds"@[1] == '-' && "--min-turn-seconds"@[2] == 'm'
        && "--min-turn-seconds"@[3] == 'i' && "--min-turn-seconds"@[4] == 'n'
        && "--min-turn-seconds"@[5] == '-' && "--min-turn-seconds"@[6] == 't'
        && "--min-turn-seconds"@[7] == 'u' && "--min-turn-seconds"@[8] == 'r'
        && "--min-turn-seconds"@[9] == 'n' && "--min-turn-seconds"@[10] == '-'
        && "--min-turn-seconds"@[11] == 's' && "--min-turn-seconds"@[12] == 'e'
        && "--min-turn-seconds"@[13] == 'c' && "--min-turn-seconds"@[14] == 'o'
        && "--min-turn-seconds"@[15] == 'n' && "--min-turn-seconds"@[16] == 'd'
        && "--min-turn-seconds"@[17] == 's');
    assert("--mlx-whisper-model"@.len() == 19 && "--mlx-whisper-model"@[0] == '-'
        && "--mlx-whisper-model"@[1] == '-' && "--mlx-whisper-model"@[2] == 'm'
        && "--mlx-whisper-model"@[3] == 'l' && "--mlx-whisper-model"@[4] == 'x'
        && "--mlx-whisper-model"@[5] == '-' && "--mlx-whisper-model"@[6] == 'w'
        && "--mlx-whisper-model"@[7] == 'h' && "--mlx-whisper-model"@[8] == 'i'
        && "--mlx-whisper-model"@[9] == 's' && "--mlx-whisper-model"@[10] == 'p'
        && "--mlx-whisper-model"@[11] == 'e' && "--mlx-whisper-model"@[12] == 'r'
        && "--mlx-whisper-model"@[13] == '-' && "--mlx-whisper-model"@[14] == 'm'
        && "--mlx-whisper-model"@[15] == 'o' && "--mlx-whisper-model"@[16] == 'd'
        && "--mlx-whisper-model"@[17] == 'e' && "--mlx-whisper-model"@[18] == 'l');
    assert("--max-speakers="@.len() == 15 && "--max-speakers="@[0] == '-'
        && "--max-speakers="@[1] == '-' && "--max-speakers="@[2] == 'm'
        && "--max-speakers="@[3] == 'a' && "--max-speakers="@[4] == 'x'
        && "--max-speakers="@[5] == '-' && "--max-speakers="@[6] == 's'
        && "--max-speakers="@[7] == 'p' && "--max-speakers="@[8] == 'e'
        && "--max-speakers="@[9] == 'a' && "--max-speakers="@[10] == 'k'
        && "--max-speakers="@[11] == 'e' && "--max-speakers="@[12] == 'r'
        && "--max-speakers="@[13] == 's' && "--max-speakers="@[14] == '=');
    assert("--engine="@.len() == 9 && "--engine="@[0] == '-' && "--engine="@[1] == '-'
        && "--engine="@[2] == 'e' && "--engine="@[3] == 'n' && "--engine="@[4] == 'g'
        && "--engine="@[5] == 'i' && "--engine="@[6] == 'n' && "--engine="@[7] == 'e'
        && "--engine="@[8] == '=');
    assert("--lang="@.len() == 7 && "--lang="@[0] == '-' && "--lang="@[1] == '-'
        && "--lang="@[2] == 'l' && "--lang="@[3] == 'a' && "--lang="@[4] == 'n'
        && "--lang="@[5] == 'g' && "--lang="@[6] == '=');
    assert("--language="@.len() == 11 && "--language="@[0] == '-' && "--language="@[1] == '-'
        && "--language="@[2] == 'l' && "--language="@[3] == 'a' && "--language="@[4] == 'n'
        && "--language="@[5] == 'g' && "--language="@[6] == 'u' && "--language="@[7] == 'a'
        && "--language="@[8] == 'g' && "--language="@[9] == 'e' && "--language="@[10] == '=');
    assert("--format="@.len() == 9 && "--format="@[0] == '-' && "--format="@[1] == '-'
        && "--format="@[2] == 'f' && "--format="@[3] == 'o' && "--format="@[4] == 'r'
        && "--format="@[5] == 'm' && "--format="@[6] == 'a' && "--format="@[7] == 't'
        && "--format="@[8] == '=');
    assert("--translate="@.len() == 12 && "--translate="@[0] == '-' && "--translate="@[1] == '-'
        && "--translate="@[2] == 't' && "--translate="@[3] == 'r' && "--translate="@[4] == 'a'
        && "--translate="@[5] == 'n' && "--translate="@[6] == 's' && "--translate="@[7] == 'l'
        && "--translate="@[8] == 'a' && "--translate="@[9] == 't' && "--translate="@[10] == 'e'
        && "--translate="@[11] == '=');
    assert(arg.len() >= 15 && arg[14] == '=' && arg[2] == 'm' && arg[3] == 'a' && arg[4] == 'x' && arg[6] == 's');
    lemma_begins_with(arg, "--engine="@);
    assert(arg[2] != "--engine="@[2]);
    lemma_begins_with(arg, "--lang="@);
    assert(arg[2] != "--lang="@[2]);
    lemma_begins_with(arg, "--language="@);
    assert(arg[2] != "--language="@[2]);
    lemma_begins_with(arg, "--format="@);
    assert(arg[2] != "--format="@[2]);
    lemma_begins_with(arg, "--translate="@);
    assert(arg[2] != "--translate="@[2]);
}

proof fn lemma_joined_min_turn_seconds(value: Seq<char>)
    ensures
        ({
            let arg = "--min-turn-seconds="@ + value;
            &&& arg != "--json"@ && arg != "--minutes"@
            &&& separate_option(arg) is None
            &&& inline_option(arg) == Some((ValueOption::MinTurnSeconds, value))
        }),
{
    let arg = "--min-turn-seconds="@ + value;
    lemma_at_the_start("--min-turn-seconds="@, value);
    reveal_strlit("--json");
    reveal_strlit("--minutes");
    reveal_strlit("--engine");
    reveal_strlit("--lang");
    reveal_strlit("--language");
    reveal_strlit("--format");
    reveal_strlit("--translate");
    reveal_strlit("--max-speakers");
    reveal_strlit("--min-turn-seconds");
    reveal_strlit("--mlx-whisper-model");
    reveal_strlit("--min-turn-seconds=");
    reveal_strlit("--engine=");
    reveal_strlit("--lang=");
    reveal_strlit("--language=");
    reveal_strlit("--format=");
    reveal_strlit("--translate=");
    reveal_strlit("--max-speakers=");
    assert("--json"@.len() == 6 && "--json"@[0] == '-' && "--json"@[1] == '-'
        && "--json"@[2] == 'j' && "--json"@[3] == 's' && "--json"@[4] == 'o'
        && "--json"@[5] == 'n');
    assert("--minutes"@.len() == 9 && "--minutes"@[0] == '-' && "--minutes"@[1] == '-'
        && "--minutes"@[2] == 'm' && "--minutes"@[3] == 'i' && "--minutes"@[4] == 'n'
        && "--minutes"@[5] == 'u' && "--minutes"@[6] == 't' && "--minutes"@[7] == 'e'
        && "--minutes"@[8] == 's');
    assert("--engine"@.len() == 8 && "--engine"@[0] == '-' && "--engine"@[1] == '-'
        && "--engine"@[2] == 'e' && "--engine"@[3] == 'n' && "--engine"@[4] == 'g'
        && "--engine"@[5] == 'i' && "--engine"@[6] == 'n' && "--engine"@[7] == 'e');
    assert("--lang"@.len() == 6 && "--lang"@[0] == '-' && "--lang"@[1] == '-'
        && "--lang"@[2] == 'l' && "--lang"@[3] == 'a' && "--lang"@[4] == 'n'
        && "--lang"@[5] == 'g');
    assert("--language"@.len() == 10 && "--language"@[0] == '-' && "--language"@[1] == '-'
        && "--language"@[2] == 'l' && "--language"@[3] == 'a' && "--language"@[4] == 'n'
        && "--language"@[5] == 'g' && "--language"@[6] == 'u' && "--language"@[7] == 'a'
        && "--language"@[8] == 'g' && "--language"@[9] == 'e');
    assert("--format"@.len() == 8 && "--format"@[0] == '-' && "--format"@[1] == '-'
        && "--format"@[2] == 'f' && "--format"@[3] == 'o' && "--format"@[4] == 'r'
        && "--format"@[5] == 'm' && "--format"@[6] == 'a' && "--format"@[7] == 't');
    assert("--translate"@.len() == 11 && "--translate"@[0] == '-' && "--translate"@[1] == '-'
        && "--translate"@[2] == 't' && "--translate"@[3] == 'r' && "--translate"@[4] == 'a'
        && "--translate"@[5] == 'n' && "--translate"@[6] == 's' && "--translate"@[7] == 'l'
        && "--translate"@[8] == 'a' && "--translate"@[9] == 't' && "--translate"@[10] == 'e');
    assert("--max-speakers"@.len() == 14 && "--max-speakers"@[0] == '-'
        && "--max-speakers"@[1] == '-' && "--max-speakers"@[2] == 'm'
        && "--max-speakers"@[3] == 'a' && "--max-speakers"@[4] == 'x'
        && "--max-speakers"@[5] == '-' && "--max-speakers"@[6] == 's'
        && "--max-speakers"@[7] == 'p' && "--max-speakers"@[8] == 'e'
        && "--max-speakers"@[9] == 'a' && "--max-speakers"@[10] == 'k'
        && "--max-speakers"@[11] == 'e' && "--max-speakers"@[12] == 'r'
        && "--max-speakers"@[13] == 's');
    assert("--min-turn-seconds"@.len() == 18 && "--min-turn-seconds"@[0] == '-'
        && "--min-turn-seconds"@[1] == '-' && "--min-turn-seconds"@[2] == 'm'
        && "--min-turn-seconds"@[3] == 'i' && "--min-turn-seconds"@[4] == 'n'
        && "--min-turn-seconds"@[5] == '-' && "--min-turn-seconds"@[6] == 't'
        && "--min-turn-seconds"@[7] == 'u' && "--min-turn-seconds"@[8] == 'r'
        && "--min-turn-seconds"@[9] == 'n' && "--min-turn-seconds"@[10] == '-'
        && "--min-turn-seconds"@[11] == 's' && "--min-turn-seconds"@[12] == 'e'
        && "--min-turn-seconds"@[13] == 'c' && "--min-turn-seconds"@[14] == 'o'
        && "--min-turn-seconds"@[15] == 'n' && "--min-turn-seconds"@[16] == 'd'
        && "--min-turn-seconds"@[17] == 's');
    assert("--mlx-whisper-model"@.len() == 19 && "--mlx-whisper-model"@[0] == '-'
        && "--mlx-whisper-model"@[1] == '-' && "--mlx-whisper-model"@[2] == 'm'
        && "--mlx-whisper-model"@[3] == 'l' && "--mlx-whisper-model"@[4] == 'x'
        && "--mlx-whisper-model"@[5] == '-' && "--mlx-whisper-model"@[6] == 'w'
        && "--mlx-whisper-model"@[7] == 'h' && "--mlx-whisper-model"@[8] == 'i'
        && "--mlx-whisper-model"@[9] == 's' && "--mlx-whisper-model"@[10] == 'p'
        && "--mlx-whisper-model"@[11] == 'e' && "--mlx-whisper-model"@[12] == 'r'
        && "--mlx-whisper-model"@[13] == '-' && "--mlx-whisper-model"@[14] == 'm'
        && "--mlx-whisper-model"@[15] == 'o' && "--mlx-whisper-model"@[16] == 'd'
        && "--mlx-whisper-model"@[17] == 'e' && "--mlx-whisper-model"@[18] == 'l');
    assert("--min-turn-seconds="@.len() == 19 && "--min-turn-seconds="@[0] == '-'
        && "--min-turn-seconds="@[1] == '-' && "--min-turn-seconds="@[2] == 'm'
        && "--min-turn-seconds="@[3] == 'i' && "--min-turn-seconds="@[4] == 'n'
        && "--min-turn-seconds="@[5] == '-' && "--min-turn-seconds="@[6] == 't'
        && "--min-turn-seconds="@[7] == 'u' && "--min-turn-seconds="@[8] == 'r'
        && "--min-turn-seconds="@[9] == 'n' && "--min-turn-seconds="@[10] == '-'
        && "--min-turn-seconds="@[11] == 's' && "--min-turn-seconds="@[12] == 'e'
        && "--min-turn-seconds="@[13] == 'c' && "--min-turn-seconds="@[14] == 'o'
        && "--min-turn-seconds="@[15] == 'n' && "--min-turn-seconds="@[16] == 'd'
        && "--min-turn-seconds="@[17] == 's' && "--min-turn-seconds="@[18] == '=');
    assert("--engine="@.len() == 9 && "--engine="@[0] == '-' && "--engine="@[1] == '-'
        && "--engine="@[2] == 'e' && "--engine="@[3] == 'n' && "--engine="@[4] == 'g'
        && "--engine="@[5] == 'i' && "--engine="@[6] == 'n' && "--engine="@[7] == 'e'
        && "--engine="@[8] == '=');
    assert("--lang="@.len() == 7 && "--lang="@[0] == '-' && "--lang="@[1] == '-'
        && "--lang="@[2] == 'l' && "--lang="@[3] == 'a' && "--lang="@[4] == 'n'
        && "--lang="@[5] == 'g' && "--lang="@[6] == '=');
    assert("--language="@.len() == 11 && "--language="@[0] == '-' && "--language="@[1] == '-'
        && "--language="@[2] == 'l' && "--language="@[3] == 'a' && "--language="@[4] == 'n'
        && "--language="@[5] == 'g' && "--language="@[6] == 'u' && "--language="@[7] == 'a'
        && "--language="@[8] == 'g' && "--language="@[9] == 'e' && "--language="@[10] == '=');
    assert("--format="@.len() == 9 && "--format="@[0] == '-' && "--format="@[1] == '-'
        && "--format="@[2] == 'f' && "--format="@[3] == 'o' && "--format="@[4] == 'r'
        && "--format="@[5] == 'm' && "--format="@[6] == 'a' && "--format="@[7] == 't'
        && "--format="@[8] == '=');
    assert("--translate="@.len() == 12 && "--translate="@[0] == '-' && "--translate="@[1] == '-'
        && "--translate="@[2] == 't' && "--translate="@[3] == 'r' && "--translate="@[4] == 'a'
        && "--translate="@[5] == 'n' && "--translate="@[6] == 's' && "--translate="@[7] == 'l'
        && "--translate="@[8] == 'a' && "--translate="@[9] == 't' && "--translate="@[10] == 'e'
        && "--translate="@[11] == '=');
    assert("--max-speakers="@.len() == 15 && "--max-speakers="@[0] == '-'
        && "--max-speakers="@[1] == '-' && "--max-speakers="@[2] == 'm'
        && "--max-speakers="@[3] == 'a' && "--max-speakers="@[4] == 'x'
        && "--max-speakers="@[5] == '-' && "--max-speakers="@[6] == 's'
        && "--max-speakers="@[7] == 'p' && "--max-speakers="@[8] == 'e'
        && "--max-speakers="@[9] == 'a' && "--max-speakers="@[10] == 'k'
        && "--max-speakers="@[11] == 'e' && "--max-speakers="@[12] == 'r'
        && "--max-speakers="@[13] == 's' && "--max-speakers="@[14] == '=');
    assert(arg.len() >= 19 && arg[18] == '=' && arg[2] == 'm' && arg[3] == 'i' && arg[4] == 'n' && arg[6] == 't');
    lemma_begins_with(arg, "--engine="@);
    assert(arg[2] != "--engine="@[2]);
    lemma_begins_with(arg, "--lang="@);
    assert(arg[2] != "--lang="@[2]);
    lemma_begins_with(arg, "--language="@);
    assert(arg[2] != "--language="@[2]);
    lemma_begins_with(arg, "--format="@);
    assert(arg[2] != "--format="@[2]);
    lemma_begins_with(arg, "--translate="@);
    assert(arg[2] != "--translate="@[2]);
    lemma_begins_with(arg, "--max-speakers="@);
    assert(arg[3] != "--max-speakers="@[3]);
}

proof fn lemma_joined_mlx_whisper_model(value: Seq<char>)
    ensures
        ({
            let arg = "--mlx-whisper-model="@ + value;
            &&& arg != "--json"@ && arg != "--minutes"@
            &&& separate_option(arg) is None
            &&& inline_option(arg) == Some((ValueOption::MlxWhisperModel, value))
        }),
{
    let arg = "--mlx-whisper-model="@ + value;
    lemma_at_the_start("--mlx-whisper-model="@, value);
    reveal_strlit("--json");
    reveal_strlit("--minutes");
    reveal_strlit("--engine");
    reveal_strlit("--lang");
    reveal_strlit("--language");
    reveal_strlit("--format");
    reveal_strlit("--translate");
    reveal_strlit("--max-speakers");
    reveal_strlit("--min-turn-seconds");
    reveal_strlit("--mlx-whisper-model");
    reveal_strlit("--mlx-whisper-model=");
    reveal_strlit("--engine=");
    reveal_strlit("--lang=");
    reveal_strlit("--language=");
    reveal_strlit("--format=");
    reveal_strlit("--translate=");
    reveal_strlit("--max-speakers=");
    reveal_strlit("--min-turn-seconds=");
    assert("--json"@.len() == 6 && "--json"@[0] == '-' && "--json"@[1] == '-'
        && "--json"@[2] == 'j' && "--json"@[3] == 's' && "--json"@[4] == 'o'
        && "--json"@[5] == 'n');
    assert("--minutes"@.len() == 9 && "--minutes"@[0] == '-' && "--minutes"@[1] == '-'
        && "--minutes"@[2] == 'm' && "--minutes"@[3] == 'i' && "--minutes"@[4] == 'n'
        && "--minutes"@[5] == 'u' && "--minutes"@[6] == 't' && "--minutes"@[7] == 'e'
        && "--minutes"@[8] == 's');
    assert("--engine"@.len() == 8 && "--engine"@[0] == '-' && "--engine"@[1] == '-'
        && "--engine"@[2] == 'e' && "--engine"@[3] == 'n' && "--engine"@[4] == 'g'
        && "--engine"@[5] == 'i' && "--engine"@[6] == 'n' && "--engine"@[7] == 'e');
    assert("--lang"@.len() == 6 && "--lang"@[0] == '-' && "--lang"@[1] == '-'
        && "--lang"@[2] == 'l' && "--lang"@[3] == 'a' && "--lang"@[4] == 'n'
        && "--lang"@[5] == 'g');
    assert("--language"@.len() == 10 && "--language"@[0] == '-' && "--language"@[1] == '-'
        && "--language"@[2] == 'l' && "--language"@[3] == 'a' && "--language"@[4] == 'n'
        && "--language"@[5] == 'g' && "--language"@[6] == 'u' && "--language"@[7] == 'a'
        && "--language"@[8] == 'g' && "--language"@[9] == 'e');
    assert("--format"@.len() == 8 && "--format"@[0] == '-' && "--format"@[1] == '-'
        && "--format"@[2] == 'f' && "--format"@[3] == 'o' && "--format"@[4] == 'r'
        && "--format"@[5] == 'm' && "--format"@[6] == 'a' && "--format"@[7] == 't');
    assert("--translate"@.len() == 11 && "--translate"@[0] == '-' && "--translate"@[1] == '-'
        && "--translate"@[2] == 't' && "--translate"@[3] == 'r' && "--translate"@[4] == 'a'
        && "--translate"@[5] == 'n' && "--translate"@[6] == 's' && "--translate"@[7] == 'l'
        && "--translate"@[8] == 'a' && "--translate"@[9] == 't' && "--translate"@[10] == 'e');
    assert("--max-speakers"@.len() == 14 && "--max-speakers"@[0] == '-'
        && "--max-speakers"@[1] == '-' && "--max-speakers"@[2] == 'm'
        && "--max-speakers"@[3] == 'a' && "--max-speakers"@[4] == 'x'
        && "--max-speakers"@[5] == '-' && "--max-speakers"@[6] == 's'
        && "--max-speakers"@[7] == 'p' && "--max-speakers"@[8] == 'e'
        && "--max-speakers"@[9] == 'a' && "--max-speakers"@[10] == 'k'
        && "--max-speakers"@[11] == 'e' && "--max-speakers"@[12] == 'r'
        && "--max-speakers"@[13] == 's');
    assert("--min-turn-seconds"@.len() == 18 && "--min-turn-seconds"@[0] == '-'
        && "--min-turn-seconds"@[1] == '-' && "--min-turn-seconds"@[2] == 'm'
        && "--min-turn-seconds"@[3] == 'i' && "--min-turn-seconds"@[4] == 'n'
        && "--min-turn-seconds"@[5] == '-' && "--min-turn-seconds"@[6] == 't'
        && "--min-turn-seconds"@[7] == 'u' && "--min-turn-seconds"@[8] == 'r'
        && "--min-turn-seconds"@[9] == 'n' && "--min-turn-seconds"@[10] == '-'
        && "--min-turn-seconds"@[11] == 's' && "--min-turn-seconds"@[12] == 'e'
        && "--min-turn-seconds"@[13] == 'c' && "--min-turn-seconds"@[14] == 'o'
        && "--min-turn-seconds"@[15] == 'n' && "--min-turn-seconds"@[16] == 'd'
        && "--min-turn-seconds"@[17] == 's');
    assert("--mlx-whisper-model"@.len() == 19 && "--mlx-whisper-model"@[0] == '-'
        && "--mlx-whisper-model"@[1] == '-' && "--mlx-whisper-model"@[2] == 'm'
        && "--mlx-whisper-model"@[3] == 'l' && "--mlx-whisper-model"@[4] == 'x'
        && "--mlx-whisper-model"@[5] == '-' && "--mlx-whisper-model"@[6] == 'w'
        && "--mlx-whisper-model"@[7] == 'h' && "--mlx-whisper-model"@[8] == 'i'
        && "--mlx-whisper-model"@[9] == 's' && "--mlx-whisper-model"@[10] == 'p'
        && "--mlx-whisper-model"@[11] == 'e' && "--mlx-whisper-model"@[12] == 'r'
        && "--mlx-whisper-model"@[13] == '-' && "--mlx-whisper-model"@[14] == 'm'
        && "--mlx-whisper-model"@[15] == 'o' && "--mlx-whisper-model"@[16] == 'd'
        && "--mlx-whisper-model"@[17] == 'e' && "--mlx-whisper-model"@[18] == 'l');
    assert("--mlx-whisper-model="@.len() == 20 && "--mlx-whisper-model="@[0] == '-'
        && "--mlx-whisper-model="@[1] == '-' && "--mlx-whisper-model="@[2] == 'm'
        && "--mlx-whisper-model="@[3] == 'l' && "--mlx-whisper-model="@[4] == 'x'
        && "--mlx-whisper-model="@[5] == '-' && "--mlx-whisper-model="@[6] == 'w'
        && "--mlx-whisper-model="@[7] == 'h' && "--mlx-whisper-model="@[8] == 'i'
        && "--mlx-whisper-model="@[9] == 's' && "--mlx-whisper-model="@[10] == 'p'
        && "--mlx-whisper-model="@[11] == 'e' && "--mlx-whisper-model="@[12] == 'r'
        && "--mlx-whisper-model="@[13] == '-' && "--mlx-whisper-model="@[14] == 'm'
        && "--mlx-whisper-model="@[15] == 'o' && "--mlx-whisper-model="@[16] == 'd'
        && "--mlx-whisper-model="@[17] == 'e' && "--mlx-whisper-model="@[18] == 'l'
        && "--mlx-whisper-model="@[19] == '=');
    assert("--engine="@.len() == 9 && "--engine="@[0] == '-' && "--engine="@[1] == '-'
        && "--engine="@[2] == 'e' && "--engine="@[3] == 'n' && "--engine="@[4] == 'g'
        && "--engine="@[5] == 'i' && "--engine="@[6] == 'n' && "--engine="@[7] == 'e'
        && "--engine="@[8] == '=');
    assert("--lang="@.len() == 7 && "--lang="@[0] == '-' && "--lang="@[1] == '-'
        && "--lang="@[2] == 'l' && "--lang="@[3] == 'a' && "--lang="@[4] == 'n'
        && "--lang="@[5] == 'g' && "--lang="@[6] == '=');
    assert("--language="@.len() == 11 && "--language="@[0] == '-' && "--language="@[1] == '-'
        && "--language="@[2] == 'l' && "--language="@[3] == 'a' && "--language="@[4] == 'n'
        && "--language="@[5] == 'g' && "--language="@[6] == 'u' && "--language="@[7] == 'a'
        && "--language="@[8] == 'g' && "--language="@[9] == 'e' && "--language="@[10] == '=');
    assert("--format="@.len() == 9 && "--format="@[0] == '-' && "--format="@[1] == '-'
        && "--format="@[2] == 'f' && "--format="@[3] == 'o' && "--format="@[4] == 'r'
        && "--format="@[5] == 'm' && "--format="@[6] == 'a' && "--format="@[7] == 't'
        && "--format="@[8] == '=');
    assert("--translate="@.len() == 12 && "--translate="@[0] == '-' && "--translate="@[1] == '-'
        && "--translate="@[2] == 't' && "--translate="@[3] == 'r' && "--translate="@[4] == 'a'
        && "--translate="@[5] == 'n' && "--translate="@[6] == 's' && "--translate="@[7] == 'l'
        && "--translate="@[8] == 'a' && "--translate="@[9] == 't' && "--translate="@[10] == 'e'
        && "--translate="@[11] == '=');
    assert("--max-speakers="@.len() == 15 && "--max-speakers="@[0] == '-'
        && "--max-speakers="@[1] == '-' && "--max-speakers="@[2] == 'm'
        && "--max-speakers="@[3] == 'a' && "--max-speakers="@[4] == 'x'
        && "--max-speakers="@[5] == '-' && "--max-speakers="@[6] == 's'
        && "--max-speakers="@[7] == 'p' && "--max-speakers="@[8] == 'e'
        && "--max-speakers="@[9] == 'a' && "--max-speakers="@[10] == 'k'
        && "--max-speakers="@[11] == 'e' && "--max-speakers="@[12] == 'r'
        && "--max-speakers="@[13] == 's' && "--max-speakers="@[14] == '=');
    assert("--min-turn-seconds="@.len() == 19 && "--min-turn-seconds="@[0] == '-'
        && "--min-turn-seconds="@[1] == '-' && "--min-turn-seconds="@[2] == 'm'
        && "--min-turn-seconds="@[3] == 'i' && "--min-turn-seconds="@[4] == 'n'
        && "--min-turn-seconds="@[5] == '-' && "--min-turn-seconds="@[6] == 't'
        && "--min-turn-seconds="@[7] == 'u' && "--min-turn-seconds="@[8] == 'r'
        && "--min-turn-seconds="@[9] == 'n' && "--min-turn-seconds="@[10] == '-'
        && "--min-turn-seconds="@[11] == 's' && "--min-turn-seconds="@[12] == 'e'
        && "--min-turn-seconds="@[13] == 'c' && "--min-turn-seconds="@[14] == 'o'
        && "--min-turn-seconds="@[15] == 'n' && "--min-turn-seconds="@[16] == 'd'
        && "--min-turn-seconds="@[17] == 's' && "--min-turn-seconds="@[18] == '=');
    assert(arg.len() >= 20 && arg[19] == '=' && arg[2] == 'm' && arg[3] == 'l' && arg[4] == 'x' && arg[6] == 'w');
    lemma_begins_with(arg, "--engine="@);
    assert(arg[2] != "--engine="@[2]);
    lemma_begins_with(arg, "--lang="@);
    assert(arg[2] != "--lang="@[2]);
    lemma_begins_with(arg, "--language="@);
    assert(arg[2] != "--language="@[2]);
    lemma_begins_with(arg, "--format="@);
    assert(arg[2] != "--format="@[2]);
    lemma_begins_with(arg, "--translate="@);
    assert(arg[2] != "--translate="@[2]);
    lemma_begins_with(arg, "--max-speakers="@);
    assert(arg[3] != "--max-speakers="@[3]);
    lemma_begins_with(arg, "--min-turn-seconds="@);
    assert(arg[3] != "--min-turn-seconds="@[3]);
}

/// An option and its value may stand in one argument, with `=` between them.
pub proof fn joined_options_are_the_same(asked: ProcessArgs, value: Seq<char>, rest: Seq<Seq<char>>)
    ensures
        asked.read(seq!["--engine="@ + value] + rest, 0) == asked.read(seq!["--engine"@, value] + rest, 0),
        asked.read(seq!["--lang="@ + value] + rest, 0) == asked.read(seq!["--lang"@, value] + rest, 0),
        asked.read(seq!["--language="@ + value] + rest, 0) == asked.read(seq!["--language"@, value] + rest, 0),
        asked.read(seq!["--format="@ + value] + rest, 0) == asked.read(seq!["--format"@, value] + rest, 0),
        asked.read(seq!["--translate="@ + value] + rest, 0) == asked.read(seq!["--translate"@, value] + rest, 0),
        asked.read(seq!["--max-speakers="@ + value] + rest, 0) == asked.read(seq!["--max-speakers"@, value] + rest, 0),
        asked.read(seq!["--min-turn-seconds="@ + value] + rest, 0) == asked.read(seq!["--min-turn-seconds"@, value] + rest, 0),
        asked.read(seq!["--mlx-whisper-model="@ + value] + rest, 0) == asked.read(seq!["--mlx-whisper-model"@, value] + rest, 0),
{
    lemma_flags();
    lemma_joined_engine(value);
    lemma_same_joined(asked, ValueOption::Engine, "--engine"@, "--engine="@, value, rest);
    lemma_joined_lang(value);
    lemma_same_joined(asked, ValueOption::Lang, "--lang"@, "--lang="@, value, rest);
    lemma_joined_language(value);
    lemma_same_joined(asked, ValueOption::Lang, "--language"@, "--language="@, value, rest);
    lemma_joined_format(value);
    lemma_same_joined(asked, ValueOption::Format, "--format"@, "--format="@, value, rest);
    lemma_joined_translate(value);
    lemma_same_joined(asked, ValueOption::Translate, "--translate"@, "--translate="@, value, rest);
    lemma_joined_max_speakers(value);
    lemma_same_joined(asked, ValueOption::MaxSpeakers, "--max-speakers"@, "--max-speakers="@, value, rest);
    lemma_joined_min_turn_seconds(value);
    lemma_same_joined(asked, ValueOption::MinTurnSeconds, "--min-turn-seconds"@, "--min-turn-seconds="@, value, rest);
    lemma_joined_mlx_whisper_model(value);
    lemma_same_joined(asked, ValueOption::MlxWhisperModel, "--mlx-whisper-model"@, "--mlx-whisper-model="@, value, rest);
}

proof fn lemma_same_joined(
    asked: ProcessArgs,
    option: ValueOption,
    flag: Seq<char>,
    joined: Seq<char>,
    value: Seq<char>,
    rest: Seq<Seq<char>>,
)
    requires
        flag != "--json"@ && flag != "--minutes"@,
        separate_option(flag) == Some(option),
        joined + value != "--json"@ && joined + value != "--minutes"@,
        separate_option(joined + value) is None,
        inline_option(joined + value) == Some((option, value)),
    ensures
        asked.read(seq![joined + value] + rest, 0) == asked.read(seq![flag, value] + rest, 0),
{
    let next = asked.with_option(option, value)->Ok_0;
    lemma_behind_one(next, joined + value, rest);
    lemma_behind_two(next, flag, value, rest);
}

/// A language's name is turned to its short code, and a code is its own; blank texts and
/// `auto` leave the language to be detected.
pub proof fn language_is_hinted_by_its_code(raw: Seq<char>)
    ensures
        lang_hint("spanish"@) == Some("es"@),
        lang_hint("español"@) == Some("es"@),
        lang_hint("espanol"@) == Some("es"@),
        lang_hint("spa"@) == Some("es"@),
        lang_hint("english"@) == Some("en"@),
        lang_hint("eng"@) == Some("en"@),
        lang_hint("chinese"@) == Some("zh"@),
        lang_hint("中文"@) == Some("zh"@),
        lang_hint("zh-cn"@) == Some("zh"@),
        lang_hint("zh-hans"@) == Some("zh"@),
        lang_hint("japanese"@) == Some("ja"@),
        lang_hint("jpn"@) == Some("ja"@),
        lang_hint("korean"@) == Some("ko"@),
        lang_hint("kor"@) == Some("ko"@),
        lang_hint("yue"@) == Some("yue"@),
        lang_hint("cantonese"@) == Some("yue"@),
        lang_hint("es"@) == Some("es"@),
        lang_hint("en"@) == Some("en"@),
        lang_hint("zh"@) == Some("zh"@),
        lang_hint("ja"@) == Some("ja"@),
        lang_hint("ko"@) == Some("ko"@),
        lang_hint("fr"@) == Some("fr"@),
        lang_hint("de"@) == Some("de"@),
        lang_hint("auto"@) is None,
        text::trim(raw).len() == 0 ==> lang_hint(raw) is None,
        lang_hint(raw) is None ==> text::trim(raw).len() == 0 || text::lower(text::trim(raw))
            == "auto"@,
        lang_hint(raw) == lang_hint(text::lower(text::trim(raw))),
        text::lower(text::trim(raw)).len() == 2 && text::lower(text::trim(raw)) != "中文"@ ==> lang_hint(
            raw,
        ) == Some(text::lower(text::trim(raw))),
{
    reveal_strlit("spanish");
    reveal_strlit("español");
    reveal_strlit("espanol");
    reveal_strlit("spa");
    reveal_strlit("english");
    reveal_strlit("eng");
    reveal_strlit("chinese");
    reveal_strlit("中文");
    reveal_strlit("zh-cn");
    reveal_strlit("zh-hans");
    reveal_strlit("japanese");
    reveal_strlit("jpn");
    reveal_strlit("korean");
    reveal_strlit("kor");
    reveal_strlit("yue");
    reveal_strlit("cantonese");
    reveal_strlit("es");
    reveal_strlit("en");
    reveal_strlit("zh");
    reveal_strlit("ja");
    reveal_strlit("ko");
    reveal_strlit("fr");
    reveal_strlit("de");
    reveal_strlit("auto");
    assert("spanish"@.len() == 7 && "spanish"@[0] == 's' && "spanish"@[1] == 'p'
        && "spanish"@[2] == 'a' && "spanish"@[3] == 'n' && "spanish"@[4] == 'i'
        && "spanish"@[5] == 's' && "spanish"@[6] == 'h');
    assert("español"@.len() == 7 && "español"@[0] == 'e' && "español"@[1] == 's'
        && "español"@[2] == 'p' && "español"@[3] == 'a' && "español"@[4] == 'ñ'
        && "español"@[5] == 'o' && "español"@[6] == 'l');
    assert("espanol"@.len() == 7 && "espanol"@[0] == 'e' && "espanol"@[1] == 's'
        && "espanol"@[2] == 'p' && "espanol"@[3] == 'a' && "espanol"@[4] == 'n'
        && "espanol"@[5] == 'o' && "espanol"@[6] == 'l');
    assert("spa"@.len() == 3 && "spa"@[0] == 's' && "spa"@[1] == 'p' && "spa"@[2] == 'a');
    assert("english"@.len() == 7 && "english"@[0] == 'e' && "english"@[1] == 'n'
        && "english"@[2] == 'g' && "english"@[3] == 'l' && "english"@[4] == 'i'
        && "english"@[5] == 's' && "english"@[6] == 'h');
    assert("eng"@.len() == 3 && "eng"@[0] == 'e' && "eng"@[1] == 'n' && "eng"@[2] == 'g');
    assert("chinese"@.len() == 7 && "chinese"@[0] == 'c' && "chinese"@[1] == 'h'
        && "chinese"@[2] == 'i' && "chinese"@[3] == 'n' && "chinese"@[4] == 'e'
        && "chinese"@[5] == 's' && "chinese"@[6] == 'e');
    assert("中文"@.len() == 2 && "中文"@[0] == '中' && "中文"@[1] == '文');
    assert("zh-cn"@.len() == 5 && "zh-cn"@[0] == 'z' && "zh-cn"@[1] == 'h' && "zh-cn"@[2] == '-'
        && "zh-cn"@[3] == 'c' && "zh-cn"@[4] == 'n');
    assert("zh-hans"@.len() == 7 && "zh-hans"@[0] == 'z' && "zh-hans"@[1] == 'h'
        && "zh-hans"@[2] == '-' && "zh-hans"@[3] == 'h' && "zh-hans"@[4] == 'a'
        && "zh-hans"@[5] == 'n' && "zh-hans"@[6] == 's');
    assert("japanese"@.len() == 8 && "japanese"@[0] == 'j' && "japanese"@[1] == 'a'
        && "japanese"@[2] == 'p' && "japanese"@[3] == 'a' && "japanese"@[4] == 'n'
        && "japanese"@[5] == 'e' && "japanese"@[6] == 's' && "japanese"@[7] == 'e');
    assert("jpn"@.len() == 3 && "jpn"@[0] == 'j' && "jpn"@[1] == 'p' && "jpn"@[2] == 'n');
    assert("korean"@.len() == 6 && "korean"@[0] == 'k' && "korean"@[1] == 'o'
        && "korean"@[2] == 'r' && "korean"@[3] == 'e' && "korean"@[4] == 'a'
        && "korean"@[5] == 'n');
    assert("kor"@.len() == 3 && "kor"@[0] == 'k' && "kor"@[1] == 'o' && "kor"@[2] == 'r');
    assert("yue"@.len() == 3 && "yue"@[0] == 'y' && "yue"@[1] == 'u' && "yue"@[2] == 'e');
    assert("cantonese"@.len() == 9 && "cantonese"@[0] == 'c' && "cantonese"@[1] == 'a'
        && "cantonese"@[2] == 'n' && "cantonese"@[3] == 't' && "cantonese"@[4] == 'o'
        && "cantonese"@[5] == 'n' && "cantonese"@[6] == 'e' && "cantonese"@[7] == 's'
        && "cantonese"@[8] == 'e');
    assert("es"@.len() == 2 && "es"@[0] == 'e' && "es"@[1] == 's');
    assert("en"@.len() == 2 && "en"@[0] == 'e' && "en"@[1] == 'n');
    assert("zh"@.len() == 2 && "zh"@[0] == 'z' && "zh"@[1] == 'h');
    assert("ja"@.len() == 2 && "ja"@[0] == 'j' && "ja"@[1] == 'a');
    assert("ko"@.len() == 2 && "ko"@[0] == 'k' && "ko"@[1] == 'o');
    assert("fr"@.len() == 2 && "fr"@[0] == 'f' && "fr"@[1] == 'r');
    assert("de"@.len() == 2 && "de"@[0] == 'd' && "de"@[1] == 'e');
    assert("auto"@.len() == 4 && "auto"@[0] == 'a' && "auto"@[1] == 'u' && "auto"@[2] == 't'
        && "auto"@[3] == 'o');
    assert(text::is_small_word("spanish"@));
    text::small_word_is_itself("spanish"@);
    assert(text::is_small_word("español"@));
    text::small_word_is_itself("español"@);
    assert(text::is_small_word("espanol"@));
    text::small_word_is_itself("espanol"@);
    assert(text::is_small_word("spa"@));
    text::small_word_is_itself("spa"@);
    assert(text::is_small_word("english"@));
    text::small_word_is_itself("english"@);
    assert(text::is_small_word("eng"@));
    text::small_word_is_itself("eng"@);
    assert(text::is_small_word("chinese"@));
    text::small_word_is_itself("chinese"@);
    assert(text::is_small_word("中文"@));
    text::small_word_is_itself("中文"@);
    assert(text::is_small_word("zh-cn"@));
    text::small_word_is_itself("zh-cn"@);
    assert(text::is_small_word("zh-hans"@));
    text::small_word_is_itself("zh-hans"@);
    assert(text::is_small_word("japanese"@));
    text::small_word_is_itself("japanese"@);
    assert(text::is_small_word("jpn"@));
    text::small_word_is_itself("jpn"@);
    assert(text::is_small_word("korean"@));
    text::small_word_is_itself("korean"@);
    assert(text::is_small_word("kor"@));
    text::small_word_is_itself("kor"@);
    assert(text::is_small_word("yue"@));
    text::small_word_is_itself("yue"@);
    assert(text::is_small_word("cantonese"@));
    text::small_word_is_itself("cantonese"@);
    assert(text::is_small_word("es"@));
    text::small_word_is_itself("es"@);
    assert(text::is_small_word("en"@));
    text::small_word_is_itself("en"@);
    assert(text::is_small_word("zh"@));
    text::small_word_is_itself("zh"@);
    assert(text::is_small_word("ja"@));
    text::small_word_is_itself("ja"@);
    assert(text::is_small_word("ko"@));
    text::small_word_is_itself("ko"@);
    assert(text::is_small_word("fr"@));
    text::small_word_is_itself("fr"@);
    assert(text::is_small_word("de"@));
    text::small_word_is_itself("de"@);
    assert(text::is_small_word("auto"@));
    text::small_word_is_itself("auto"@);
    text::lemma_lower_trimmed(raw);
    text::lemma_lower_trimmed(text::trim(raw));
    let n = text::lower(text::trim(raw));
    assert(text::lower(n) =~= n);
}

/// A language's code is turned to its English name, in any case; any other text is kept,
/// in small letters.
pub proof fn language_is_called_by_its_name(code: Seq<char>)
    ensures
        lang_name("zh"@) == "Chinese"@,
        lang_name("zh-cn"@) == "Chinese"@,
        lang_name("zh-hans"@) == "Chinese"@,
        lang_name("cn"@) == "Chinese"@,
        lang_name("chinese"@) == "Chinese"@,
        lang_name("en"@) == "English"@,
        lang_name("eng"@) == "English"@,
        lang_name("english"@) == "English"@,
        lang_name("es"@) == "Spanish"@,
        lang_name("spa"@) == "Spanish"@,
        lang_name("spanish"@) == "Spanish"@,
        lang_name("ja"@) == "Japanese"@,
        lang_name("jpn"@) == "Japanese"@,
        lang_name("japanese"@) == "Japanese"@,
        lang_name("fr"@) == "fr"@,
        lang_name(code) == lang_name(text::lower(code)),
        lang_name(code) == "Chinese"@ || lang_name(code) == "English"@ || lang_name(code) == "Spanish"@ || lang_name(code) == "Japanese"@ || lang_name(code)
            == text::lower(code),
{
    reveal_strlit("zh");
    reveal_strlit("zh-cn");
    reveal_strlit("zh-hans");
    reveal_strlit("cn");
    reveal_strlit("chinese");
    reveal_strlit("en");
    reveal_strlit("eng");
    reveal_strlit("english");
    reveal_strlit("es");
    reveal_strlit("spa");
    reveal_strlit("spanish");
    reveal_strlit("ja");
    reveal_strlit("jpn");
    reveal_strlit("japanese");
    reveal_strlit("fr");
    assert("zh"@.len() == 2 && "zh"@[0] == 'z' && "zh"@[1] == 'h');
    assert("zh-cn"@.len() == 5 && "zh-cn"@[0] == 'z' && "zh-cn"@[1] == 'h' && "zh-cn"@[2] == '-'
        && "zh-cn"@[3] == 'c' && "zh-cn"@[4] == 'n');
    assert("zh-hans"@.len() == 7 && "zh-hans"@[0] == 'z' && "zh-hans"@[1] == 'h'
        && "zh-hans"@[2] == '-' && "zh-hans"@[3] == 'h' && "zh-hans"@[4] == 'a'
        && "zh-hans"@[5] == 'n' && "zh-hans"@[6] == 's');
    assert("cn"@.len() == 2 && "cn"@[0] == 'c' && "cn"@[1] == 'n');
    assert("chinese"@.len() == 7 && "chinese"@[0] == 'c' && "chinese"@[1] == 'h'
        && "chinese"@[2] == 'i' && "chinese"@[3] == 'n' && "chinese"@[4] == 'e'
        && "chinese"@[5] == 's' && "chinese"@[6] == 'e');
    assert("en"@.len() == 2 && "en"@[0] == 'e' && "en"@[1] == 'n');
    assert("eng"@.len() == 3 && "eng"@[0] == 'e' && "eng"@[1] == 'n' && "eng"@[2] == 'g');
    assert("english"@.len() == 7 && "english"@[0] == 'e' && "english"@[1] == 'n'
        && "english"@[2] == 'g' && "english"@[3] == 'l' && "english"@[4] == 'i'
        && "english"@[5] == 's' && "english"@[6] == 'h');
    assert("es"@.len() == 2 && "es"@[0] == 'e' && "es"@[1] == 's');
    assert("spa"@.len() == 3 && "spa"@[0] == 's' && "spa"@[1] == 'p' && "spa"@[2] == 'a');
    assert("spanish"@.len() == 7 && "spanish"@[0] == 's' && "spanish"@[1] == 'p'
        && "spanish"@[2] == 'a' && "spanish"@[3] == 'n' && "spanish"@[4] == 'i'
        && "spanish"@[5] == 's' && "spanish"@[6] == 'h');
    assert("ja"@.len() == 2 && "ja"@[0] == 'j' && "ja"@[1] == 'a');
    assert("jpn"@.len() == 3 && "jpn"@[0] == 'j' && "jpn"@[1] == 'p' && "jpn"@[2] == 'n');
    assert("japanese"@.len() == 8 && "japanese"@[0] == 'j' && "japanese"@[1] == 'a'
        && "japanese"@[2] == 'p' && "japanese"@[3] == 'a' && "japanese"@[4] == 'n'
        && "japanese"@[5] == 'e' && "japanese"@[6] == 's' && "japanese"@[7] == 'e');
    assert("fr"@.len() == 2 && "fr"@[0] == 'f' && "fr"@[1] == 'r');
    assert(text::is_small_word("zh"@));
    text::small_word_is_itself("zh"@);
    assert(text::is_small_word("zh-cn"@));
    text::small_word_is_itself("zh-cn"@);
    assert(text::is_small_word("zh-hans"@));
    text::small_word_is_itself("zh-hans"@);
    assert(text::is_small_word("cn"@));
    text::small_word_is_itself("cn"@);
    assert(text::is_small_word("chinese"@));
    text::small_word_is_itself("chinese"@);
    assert(text::is_small_word("en"@));
    text::small_word_is_itself("en"@);
    assert(text::is_small_word("eng"@));
    text::small_word_is_itself("eng"@);
    assert(text::is_small_word("english"@));
    text::small_word_is_itself("english"@);
    assert(text::is_small_word("es"@));
    text::small_word_is_itself("es"@);
    assert(text::is_small_word("spa"@));
    text::small_word_is_itself("spa"@);
    assert(text::is_small_word("spanish"@));
    text::small_word_is_itself("spanish"@);
    assert(text::is_small_word("ja"@));
    text::small_word_is_itself("ja"@);
    assert(text::is_small_word("jpn"@));
    text::small_word_is_itself("jpn"@);
    assert(text::is_small_word("japanese"@));
    text::small_word_is_itself("japanese"@);
    assert(text::is_small_word("fr"@));
    text::small_word_is_itself("fr"@);
    assert(text::lower(text::lower(code)) =~= text::lower(code));
}

/// A source line is tagged by its language: by the tag of a language that is known, in any
/// case and whatever its region is, and by `SRC` where none is given.
pub proof fn source_is_tagged_by_its_language(raw: Seq<char>, region: Seq<char>)
    ensures
        source_tag(None) == "SRC"@,
        source_tag(Some("auto"@)) == "SRC"@,
        text::trim(raw).len() == 0 ==> source_tag(Some(raw)) == "SRC"@,
        source_tag(Some(raw)) == source_tag(Some(text::lower(text::trim(raw)))),
        source_tag(Some("es"@)) == "ES"@,
        source_tag(Some("spa"@)) == "ES"@,
        source_tag(Some("spanish"@)) == "ES"@,
        source_tag(Some("español"@)) == "ES"@,
        source_tag(Some("espanol"@)) == "ES"@,
        source_tag(Some("zh"@)) == "ZH"@,
        source_tag(Some("cn"@)) == "ZH"@,
        source_tag(Some("chinese"@)) == "ZH"@,
        source_tag(Some("中文"@)) == "ZH"@,
        source_tag(Some("en"@)) == "EN"@,
        source_tag(Some("eng"@)) == "EN"@,
        source_tag(Some("english"@)) == "EN"@,
        source_tag(Some("ja"@)) == "JA"@,
        source_tag(Some("jpn"@)) == "JA"@,
        source_tag(Some("japanese"@)) == "JA"@,
        source_tag(Some("ko"@)) == "KO"@,
        source_tag(Some("kor"@)) == "KO"@,
        source_tag(Some("korean"@)) == "KO"@,
        source_tag(Some("yue"@)) == "YUE"@,
        source_tag(Some("cantonese"@)) == "YUE"@,
        source_tag(Some("fr"@)) == "FR"@,
        source_tag(Some("fra"@)) == "FR"@,
        source_tag(Some("french"@)) == "FR"@,
        source_tag(Some("de"@)) == "DE"@,
        source_tag(Some("deu"@)) == "DE"@,
        source_tag(Some("german"@)) == "DE"@,
        source_tag(Some("pt"@)) == "PT"@,
        source_tag(Some("por"@)) == "PT"@,
        source_tag(Some("portuguese"@)) == "PT"@,
        source_tag(Some("it"@)) == "IT"@,
{
    reveal_strlit("es");
    reveal_strlit("spa");
    reveal_strlit("spanish");
    reveal_strlit("español");
    reveal_strlit("espanol");
    reveal_strlit("zh");
    reveal_strlit("cn");
    reveal_strlit("chinese");
    reveal_strlit("中文");
    reveal_strlit("en");
    reveal_strlit("eng");
    reveal_strlit("english");
    reveal_strlit("ja");
    reveal_strlit("jpn");
    reveal_strlit("japanese");
    reveal_strlit("ko");
    reveal_strlit("kor");
    reveal_strlit("korean");
    reveal_strlit("yue");
    reveal_strlit("cantonese");
    reveal_strlit("fr");
    reveal_strlit("fra");
    reveal_strlit("french");
    reveal_strlit("de");
    reveal_strlit("deu");
    reveal_strlit("german");
    reveal_strlit("pt");
    reveal_strlit("por");
    reveal_strlit("portuguese");
    reveal_strlit("auto");
    reveal_strlit("it");
    reveal_strlit("IT");
    assert("es"@.len() == 2 && "es"@[0] == 'e' && "es"@[1] == 's');
    assert("spa"@.len() == 3 && "spa"@[0] == 's' && "spa"@[1] == 'p' && "spa"@[2] == 'a');
    assert("spanish"@.len() == 7 && "spanish"@[0] == 's' && "spanish"@[1] == 'p'
        && "spanish"@[2] == 'a' && "spanish"@[3] == 'n' && "spanish"@[4] == 'i'
        && "spanish"@[5] == 's' && "spanish"@[6] == 'h');
    assert("español"@.len() == 7 && "español"@[0] == 'e' && "español"@[1] == 's'
        && "español"@[2] == 'p' && "español"@[3] == 'a' && "español"@[4] == 'ñ'
        && "español"@[5] == 'o' && "español"@[6] == 'l');
    assert("espanol"@.len() == 7 && "espanol"@[0] == 'e' && "espanol"@[1] == 's'
        && "espanol"@[2] == 'p' && "espanol"@[3] == 'a' && "espanol"@[4] == 'n'
        && "espanol"@[5] == 'o' && "espanol"@[6] == 'l');
    assert("zh"@.len() == 2 && "zh"@[0] == 'z' && "zh"@[1] == 'h');
    assert("cn"@.len() == 2 && "cn"@[0] == 'c' && "cn"@[1] == 'n');
    assert("chinese"@.len() == 7 && "chinese"@[0] == 'c' && "chinese"@[1] == 'h'
        && "chinese"@[2] == 'i' && "chinese"@[3] == 'n' && "chinese"@[4] == 'e'
        && "chinese"@[5] == 's' && "chinese"@[6] == 'e');
    assert("中文"@.len() == 2 && "中文"@[0] == '中' && "中文"@[1] == '文');
    assert("en"@.len() == 2 && "en"@[0] == 'e' && "en"@[1] == 'n');
    assert("eng"@.len() == 3 && "eng"@[0] == 'e' && "eng"@[1] == 'n' && "eng"@[2] == 'g');
    assert("english"@.len() == 7 && "english"@[0] == 'e' && "english"@[1] == 'n'
        && "english"@[2] == 'g' && "english"@[3] == 'l' && "english"@[4] == 'i'
        && "english"@[5] == 's' && "english"@[6] == 'h');
    assert("ja"@.len() == 2 && "ja"@[0] == 'j' && "ja"@[1] == 'a');
    assert("jpn"@.len() == 3 && "jpn"@[0] == 'j' && "jpn"@[1] == 'p' && "jpn"@[2] == 'n');
    assert("japanese"@.len() == 8 && "japanese"@[0] == 'j' && "japanese"@[1] == 'a'
        && "japanese"@[2] == 'p' && "japanese"@[3] == 'a' && "japanese"@[4] == 'n'
        && "japanese"@[5] == 'e' && "japanese"@[6] == 's' && "japanese"@[7] == 'e');
    assert("ko"@.len() == 2 && "ko"@[0] == 'k' && "ko"@[1] == 'o');
    assert("kor"@.len() == 3 && "kor"@[0] == 'k' && "kor"@[1] == 'o' && "kor"@[2] == 'r');
    assert("korean"@.len() == 6 && "korean"@[0] == 'k' && "korean"@[1] == 'o'
        && "korean"@[2] == 'r' && "korean"@[3] == 'e' && "korean"@[4] == 'a'
        && "korean"@[5] == 'n');
    assert("yue"@.len() == 3 && "yue"@[0] == 'y' && "yue"@[1] == 'u' && "yue"@[2] == 'e');
    assert("cantonese"@.len() == 9 && "cantonese"@[0] == 'c' && "cantonese"@[1] == 'a'
        && "cantonese"@[2] == 'n' && "cantonese"@[3] == 't' && "cantonese"@[4] == 'o'
        && "cantonese"@[5] == 'n' && "cantonese"@[6] == 'e' && "cantonese"@[7] == 's'
        && "cantonese"@[8] == 'e');
    assert("fr"@.len() == 2 && "fr"@[0] == 'f' && "fr"@[1] == 'r');
    assert("fra"@.len() == 3 && "fra"@[0] == 'f' && "fra"@[1] == 'r' && "fra"@[2] == 'a');
    assert("french"@.len() == 6 && "french"@[0] == 'f' && "french"@[1] == 'r'
        && "french"@[2] == 'e' && "french"@[3] == 'n' && "french"@[4] == 'c'
        && "french"@[5] == 'h');
    assert("de"@.len() == 2 && "de"@[0] == 'd' && "de"@[1] == 'e');
    assert("deu"@.len() == 3 && "deu"@[0] == 'd' && "deu"@[1] == 'e' && "deu"@[2] == 'u');
    assert("german"@.len() == 6 && "german"@[0] == 'g' && "german"@[1] == 'e'
        && "german"@[2] == 'r' && "german"@[3] == 'm' && "german"@[4] == 'a'
        && "german"@[5] == 'n');
    assert("pt"@.len() == 2 && "pt"@[0] == 'p' && "pt"@[1] == 't');
    assert("por"@.len() == 3 && "por"@[0] == 'p' && "por"@[1] == 'o' && "por"@[2] == 'r');
    assert("portuguese"@.len() == 10 && "portuguese"@[0] == 'p' && "portuguese"@[1] == 'o'
        && "portuguese"@[2] == 'r' && "portuguese"@[3] == 't' && "portuguese"@[4] == 'u'
        && "portuguese"@[5] == 'g' && "portuguese"@[6] == 'u' && "portuguese"@[7] == 'e'
        && "portuguese"@[8] == 's' && "portuguese"@[9] == 'e');
    assert("auto"@.len() == 4 && "auto"@[0] == 'a' && "auto"@[1] == 'u' && "auto"@[2] == 't'
        && "auto"@[3] == 'o');
    assert("it"@.len() == 2 && "it"@[0] == 'i' && "it"@[1] == 't');
    assert("IT"@.len() == 2 && "IT"@[0] == 'I' && "IT"@[1] == 'T');
    assert(text::is_small_word("es"@));
    text::small_word_is_itself("es"@);
    lemma_own_primary("es"@);
    assert(text::is_small_word("spa"@));
    text::small_word_is_itself("spa"@);
    lemma_own_primary("spa"@);
    assert(text::is_small_word("spanish"@));
    text::small_word_is_itself("spanish"@);
    lemma_own_primary("spanish"@);
    assert(text::is_small_word("español"@));
    text::small_word_is_itself("español"@);
    lemma_own_primary("español"@);
    assert(text::is_small_word("espanol"@));
    text::small_word_is_itself("espanol"@);
    lemma_own_primary("espanol"@);
    assert(text::is_small_word("zh"@));
    text::small_word_is_itself("zh"@);
    lemma_own_primary("zh"@);
    assert(text::is_small_word("cn"@));
    text::small_word_is_itself("cn"@);
    lemma_own_primary("cn"@);
    assert(text::is_small_word("chinese"@));
    text::small_word_is_itself("chinese"@);
    lemma_own_primary("chinese"@);
    assert(text::is_small_word("中文"@));
    text::small_word_is_itself("中文"@);
    lemma_own_primary("中文"@);
    assert(text::is_small_word("en"@));
    text::small_word_is_itself("en"@);
    lemma_own_primary("en"@);
    assert(text::is_small_word("eng"@));
    text::small_word_is_itself("eng"@);
    lemma_own_primary("eng"@);
    assert(text::is_small_word("english"@));
    text::small_word_is_itself("english"@);
    lemma_own_primary("english"@);
    assert(text::is_small_word("ja"@));
    text::small_word_is_itself("ja"@);
    lemma_own_primary("ja"@);
    assert(text::is_small_word("jpn"@));
    text::small_word_is_itself("jpn"@);
    lemma_own_primary("jpn"@);
    assert(text::is_small_word("japanese"@));
    text::small_word_is_itself("japanese"@);
    lemma_own_primary("japanese"@);
    assert(text::is_small_word("ko"@));
    text::small_word_is_itself("ko"@);
    lemma_own_primary("ko"@);
    assert(text::is_small_word("kor"@));
    text::small_word_is_itself("kor"@);
    lemma_own_primary("kor"@);
    assert(text::is_small_word("korean"@));
    text::small_word_is_itself("korean"@);
    lemma_own_primary("korean"@);
    assert(text::is_small_word("yue"@));
    text::small_word_is_itself("yue"@);
    lemma_own_primary("yue"@);
    assert(text::is_small_word("cantonese"@));
    text::small_word_is_itself("cantonese"@);
    lemma_own_primary("cantonese"@);
    assert(text::is_small_word("fr"@));
    text::small_word_is_itself("fr"@);
    lemma_own_primary("fr"@);
    assert(text::is_small_word("fra"@));
    text::small_word_is_itself("fra"@);
    lemma_own_primary("fra"@);
    assert(text::is_small_word("french"@));
    text::small_word_is_itself("french"@);
    lemma_own_primary("french"@);
    assert(text::is_small_word("de"@));
    text::small_word_is_itself("de"@);
    lemma_own_primary("de"@);
    assert(text::is_small_word("deu"@));
    text::small_word_is_itself("deu"@);
    lemma_own_primary("deu"@);
    assert(text::is_small_word("german"@));
    text::small_word_is_itself("german"@);
    lemma_own_primary("german"@);
    assert(text::is_small_word("pt"@));
    text::small_word_is_itself("pt"@);
    lemma_own_primary("pt"@);
    assert(text::is_small_word("por"@));
    text::small_word_is_itself("por"@);
    lemma_own_primary("por"@);
    assert(text::is_small_word("portuguese"@));
    text::small_word_is_itself("portuguese"@);
    lemma_own_primary("portuguese"@);
    assert(text::is_small_word("auto"@));
    text::small_word_is_itself("auto"@);
    lemma_own_primary("auto"@);
    assert(text::is_small_word("it"@));
    text::small_word_is_itself("it"@);
    lemma_own_primary("it"@);
    assert(text::upper("it"@) =~= "IT"@);
    text::lemma_lower_trimmed(raw);
    text::lemma_lower_trimmed(text::trim(raw));
    let n = text::lower(text::trim(raw));
    assert(text::lower(n) =~= n);
}

proof fn lemma_own_primary(s: Seq<char>)
    requires
        forall|i: int| 0 <= i < s.len() ==> #[trigger] s[i] != '-' && s[i] != '_' && s[i] != ' ',
    ensures
        primary_tag(s) == s,
{
    let cut = |c: char| c == '-' || c == '_' || c == ' ';
    text::until_is_the_beginning(s, cut);
    assert(s.take(s.len() as int) =~= s);
}

/// A language is taken by what stands before its region.
pub proof fn region_does_not_count(primary: Seq<char>, sign: char, region: Seq<char>)
    requires
        sign == '-' || sign == '_' || sign == ' ',
        forall|i: int|
            0 <= i < primary.len() ==> #[trigger] primary[i] != '-' && primary[i] != '_'
                && primary[i] != ' ',
    ensures
        primary_tag(primary + seq![sign] + region) == primary,
{
    let cut = |c: char| c == '-' || c == '_' || c == ' ';
    let all = primary + seq![sign] + region;
    text::until_is_the_beginning(all, cut);
    assert(all[primary.len() as int] == sign);
    let n = text::until(all, cut).len() as int;
    if n < primary.len() {
        assert(all[n] == primary[n]);
    }
    assert(all.take(primary.len() as int) =~= primary);
}

/// SenseVoice takes Chinese, English, Japanese, Korean and Cantonese, and detects the
/// language where none is given; the other engines take any language.
pub proof fn sensevoice_takes_its_languages(lang: Seq<char>, engine: EngineChoice)
    ensures
        sensevoice_supports("zh"@),
        sensevoice_supports("cn"@),
        sensevoice_supports("chinese"@),
        sensevoice_supports("中文"@),
        sensevoice_supports("en"@),
        sensevoice_supports("eng"@),
        sensevoice_supports("english"@),
        sensevoice_supports("ja"@),
        sensevoice_supports("jpn"@),
        sensevoice_supports("japanese"@),
        sensevoice_supports("ko"@),
        sensevoice_supports("kor"@),
        sensevoice_supports("korean"@),
        sensevoice_supports("yue"@),
        sensevoice_supports("cantonese"@),
        sensevoice_supports("auto"@),
        !sensevoice_supports("es"@),
        !sensevoice_supports("fr"@),
        !sensevoice_supports("de"@),
        !sensevoice_supports("pt"@),
        !sensevoice_supports("spanish"@),
        text::trim(lang).len() == 0 ==> sensevoice_supports(lang),
        sensevoice_supports(lang) == sensevoice_supports(text::lower(text::trim(lang))),
        engine_takes(engine, None),
        !(engine is SenseVoice) ==> engine_takes(engine, Some(lang)),
        engine is SenseVoice ==> engine_takes(engine, Some(lang)) == sensevoice_supports(lang),
{
    reveal_strlit("zh");
    reveal_strlit("cn");
    reveal_strlit("chinese");
    reveal_strlit("中文");
    reveal_strlit("en");
    reveal_strlit("eng");
    reveal_strlit("english");
    reveal_strlit("ja");
    reveal_strlit("jpn");
    reveal_strlit("japanese");
    reveal_strlit("ko");
    reveal_strlit("kor");
    reveal_strlit("korean");
    reveal_strlit("yue");
    reveal_strlit("cantonese");
    reveal_strlit("es");
    reveal_strlit("fr");
    reveal_strlit("de");
    reveal_strlit("pt");
    reveal_strlit("spanish");
    reveal_strlit("auto");
    assert("zh"@.len() == 2 && "zh"@[0] == 'z' && "zh"@[1] == 'h');
    assert("cn"@.len() == 2 && "cn"@[0] == 'c' && "cn"@[1] == 'n');
    assert("chinese"@.len() == 7 && "chinese"@[0] == 'c' && "chinese"@[1] == 'h'
        && "chinese"@[2] == 'i' && "chinese"@[3] == 'n' && "chinese"@[4] == 'e'
        && "chinese"@[5] == 's' && "chinese"@[6] == 'e');
    assert("中文"@.len() == 2 && "中文"@[0] == '中' && "中文"@[1] == '文');
    assert("en"@.len() == 2 && "en"@[0] == 'e' && "en"@[1] == 'n');
    assert("eng"@.len() == 3 && "eng"@[0] == 'e' && "eng"@[1] == 'n' && "eng"@[2] == 'g');
    assert("english"@.len() == 7 && "english"@[0] == 'e' && "english"@[1] == 'n'
        && "english"@[2] == 'g' && "english"@[3] == 'l' && "english"@[4] == 'i'
        && "english"@[5] == 's' && "english"@[6] == 'h');
    assert("ja"@.len() == 2 && "ja"@[0] == 'j' && "ja"@[1] == 'a');
    assert("jpn"@.len() == 3 && "jpn"@[0] == 'j' && "jpn"@[1] == 'p' && "jpn"@[2] == 'n');
    assert("japanese"@.len() == 8 && "japanese"@[0] == 'j' && "japanese"@[1] == 'a'
        && "japanese"@[2] == 'p' && "japanese"@[3] == 'a' && "japanese"@[4] == 'n'
        && "japanese"@[5] == 'e' && "japanese"@[6] == 's' && "japanese"@[7] == 'e');
    assert("ko"@.len() == 2 && "ko"@[0] == 'k' && "ko"@[1] == 'o');
    assert("kor"@.len() == 3 && "kor"@[0] == 'k' && "kor"@[1] == 'o' && "kor"@[2] == 'r');
    assert("korean"@.len() == 6 && "korean"@[0] == 'k' && "korean"@[1] == 'o'
        && "korean"@[2] == 'r' && "korean"@[3] == 'e' && "korean"@[4] == 'a'
        && "korean"@[5] == 'n');
    assert("yue"@.len() == 3 && "yue"@[0] == 'y' && "yue"@[1] == 'u' && "yue"@[2] == 'e');
    assert("cantonese"@.len() == 9 && "cantonese"@[0] == 'c' && "cantonese"@[1] == 'a'
        && "cantonese"@[2] == 'n' && "cantonese"@[3] == 't' && "cantonese"@[4] == 'o'
        && "cantonese"@[5] == 'n' && "cantonese"@[6] == 'e' && "cantonese"@[7] == 's'
        && "cantonese"@[8] == 'e');
    assert("es"@.len() == 2 && "es"@[0] == 'e' && "es"@[1] == 's');
    assert("fr"@.len() == 2 && "fr"@[0] == 'f' && "fr"@[1] == 'r');
    assert("de"@.len() == 2 && "de"@[0] == 'd' && "de"@[1] == 'e');
    assert("pt"@.len() == 2 && "pt"@[0] == 'p' && "pt"@[1] == 't');
    assert("spanish"@.len() == 7 && "spanish"@[0] == 's' && "spanish"@[1] == 'p'
        && "spanish"@[2] == 'a' && "spanish"@[3] == 'n' && "spanish"@[4] == 'i'
        && "spanish"@[5] == 's' && "spanish"@[6] == 'h');
    assert("auto"@.len() == 4 && "auto"@[0] == 'a' && "auto"@[1] == 'u' && "auto"@[2] == 't'
        && "auto"@[3] == 'o');
    assert(text::is_small_word("zh"@));
    text::small_word_is_itself("zh"@);
    lemma_own_primary("zh"@);
    assert(text::is_small_word("cn"@));
    text::small_word_is_itself("cn"@);
    lemma_own_primary("cn"@);
    assert(text::is_small_word("chinese"@));
    text::small_word_is_itself("chinese"@);
    lemma_own_primary("chinese"@);
    assert(text::is_small_word("中文"@));
    text::small_word_is_itself("中文"@);
    lemma_own_primary("中文"@);
    assert(text::is_small_word("en"@));
    text::small_word_is_itself("en"@);
    lemma_own_primary("en"@);
    assert(text::is_small_word("eng"@));
    text::small_word_is_itself("eng"@);
    lemma_own_primary("eng"@);
    assert(text::is_small_word("english"@));
    text::small_word_is_itself("english"@);
    lemma_own_primary("english"@);
    assert(text::is_small_word("ja"@));
    text::small_word_is_itself("ja"@);
    lemma_own_primary("ja"@);
    assert(text::is_small_word("jpn"@));
    text::small_word_is_itself("jpn"@);
    lemma_own_primary("jpn"@);
    assert(text::is_small_word("japanese"@));
    text::small_word_is_itself("japanese"@);
    lemma_own_primary("japanese"@);
    assert(text::is_small_word("ko"@));
    text::small_word_is_itself("ko"@);
    lemma_own_primary("ko"@);
    assert(text::is_small_word("kor"@));
    text::small_word_is_itself("kor"@);
    lemma_own_primary("kor"@);
    assert(text::is_small_word("korean"@));
    text::small_word_is_itself("korean"@);
    lemma_own_primary("korean"@);
    assert(text::is_small_word("yue"@));
    text::small_word_is_itself("yue"@);
    lemma_own_primary("yue"@);
    assert(text::is_small_word("cantonese"@));
    text::small_word_is_itself("cantonese"@);
    lemma_own_primary("cantonese"@);
    assert(text::is_small_word("es"@));
    text::small_word_is_itself("es"@);
    lemma_own_primary("es"@);
    assert(text::is_small_word("fr"@));
    text::small_word_is_itself("fr"@);
    lemma_own_primary("fr"@);
    assert(text::is_small_word("de"@));
    text::small_word_is_itself("de"@);
    lemma_own_primary("de"@);
    assert(text::is_small_word("pt"@));
    text::small_word_is_itself("pt"@);
    lemma_own_primary("pt"@);
    assert(text::is_small_word("spanish"@));
    text::small_word_is_itself("spanish"@);
    lemma_own_primary("spanish"@);
    assert(text::is_small_word("auto"@));
    text::small_word_is_itself("auto"@);
    lemma_own_primary("auto"@);
    text::lemma_lower_trimmed(lang);
    text::lemma_lower_trimmed(text::trim(lang));
    let n = text::lower(text::trim(lang));
    assert(text::lower(n) =~= n);
}

/// The words that name a command are read to it, whatever follows them; other words open
/// the desktop app.
pub proof fn commands_have_their_words(rest: Seq<Seq<char>>, args: Seq<Seq<char>>)
    ensures
        command_of(seq!["--build-info"@] + rest) == Some(HeadlessCommand::BuildInfo),
        command_of(seq!["--version"@] + rest) == Some(HeadlessCommand::BuildInfo),
        command_of(seq!["meeting"@, "process"@] + rest) == Some(HeadlessCommand::MeetingProcess),
        command_of(seq!["meeting"@, "compact"@] + rest) == Some(HeadlessCommand::MeetingCompact),
        command_of(seq!["voiceprint-match"@] + rest) == Some(HeadlessCommand::VoiceprintMatch),
        command_of(seq!["--help"@] + rest) == Some(HeadlessCommand::Help),
        command_of(seq!["-h"@] + rest) == Some(HeadlessCommand::Help),
        command_of(Seq::empty()) is None,
        command_of(seq!["meeting"@]) is None,
        command_of(args) is Some ==> args.len() >= command_of(args)->0.words() && (args[0]
            == "--build-info"@ || args[0] == "--version"@ || args[0] == "--help"@ || args[0]
            == "-h"@ || args[0] == "voiceprint-match"@ || (args[0] == "meeting"@ && (args[1]
            == "process"@ || args[1] == "compact"@))),
        HeadlessCommand::MeetingProcess.words() == 2 && HeadlessCommand::MeetingCompact.words() == 2,
        HeadlessCommand::BuildInfo.words() == 1 && HeadlessCommand::Help.words() == 1
            && HeadlessCommand::VoiceprintMatch.words() == 1,
{
    reveal_strlit("--build-info");
    reveal_strlit("--version");
    reveal_strlit("meeting");
    reveal_strlit("process");
    reveal_strlit("compact");
    reveal_strlit("voiceprint-match");
    reveal_strlit("--help");
    reveal_strlit("-h");
    assert("--build-info"@.len() == 12 && "--build-info"@[0] == '-' && "--build-info"@[1] == '-'
        && "--build-info"@[2] == 'b' && "--build-info"@[3] == 'u' && "--build-info"@[4] == 'i'
        && "--build-info"@[5] == 'l' && "--build-info"@[6] == 'd' && "--build-info"@[7] == '-'
        && "--build-info"@[8] == 'i' && "--build-info"@[9] == 'n' && "--build-info"@[10] == 'f'
        && "--build-info"@[11] == 'o');
    assert("--version"@.len() == 9 && "--version"@[0] == '-' && "--version"@[1] == '-'
        && "--version"@[2] == 'v' && "--version"@[3] == 'e' && "--version"@[4] == 'r'
        && "--version"@[5] == 's' && "--version"@[6] == 'i' && "--version"@[7] == 'o'
        && "--version"@[8] == 'n');
    assert("meeting"@.len() == 7 && "meeting"@[0] == 'm' && "meeting"@[1] == 'e'
        && "meeting"@[2] == 'e' && "meeting"@[3] == 't' && "meeting"@[4] == 'i'
        && "meeting"@[5] == 'n' && "meeting"@[6] == 'g');
    assert("process"@.len() == 7 && "process"@[0] == 'p' && "process"@[1] == 'r'
        && "process"@[2] == 'o' && "process"@[3] == 'c' && "process"@[4] == 'e'
        && "process"@[5] == 's' && "process"@[6] == 's');
    assert("compact"@.len() == 7 && "compact"@[0] == 'c' && "compact"@[1] == 'o'
        && "compact"@[2] == 'm' && "compact"@[3] == 'p' && "compact"@[4] == 'a'
        && "compact"@[5] == 'c' && "compact"@[6] == 't');
    assert("voiceprint-match"@.len() == 16 && "voiceprint-match"@[0] == 'v'
        && "voiceprint-match"@[1] == 'o' && "voiceprint-match"@[2] == 'i'
        && "voiceprint-match"@[3] == 'c' && "voiceprint-match"@[4] == 'e'
        && "voiceprint-match"@[5] == 'p' && "voiceprint-match"@[6] == 'r'
        && "voiceprint-match"@[7] == 'i' && "voiceprint-match"@[8] == 'n'
        && "voiceprint-match"@[9] == 't' && "voiceprint-match"@[10] == '-'
        && "voiceprint-match"@[11] == 'm' && "voiceprint-match"@[12] == 'a'
        && "voiceprint-match"@[13] == 't' && "voiceprint-match"@[14] == 'c'
        && "voiceprint-match"@[15] == 'h');
    assert("--help"@.len() == 6 && "--help"@[0] == '-' && "--help"@[1] == '-'
        && "--help"@[2] == 'h' && "--help"@[3] == 'e' && "--help"@[4] == 'l'
        && "--help"@[5] == 'p');
    assert("-h"@.len() == 2 && "-h"@[0] == '-' && "-h"@[1] == 'h');
}

proof fn lemma_compact_rest(
    asked: CompactArgs,
    a: Seq<Seq<char>>,
    i: int,
    b: Seq<Seq<char>>,
    j: int,
    read: spec_fn(Seq<char>) -> Result<u128, Seq<char>>,
)
    requires
        0 <= i <= a.len(),
        0 <= j <= b.len(),
        a.skip(i) == b.skip(j),
    ensures
        asked.read(a, i, read) == asked.read(b, j, read),
    decreases a.len() - i,
{
    assert(a.skip(i).len() == a.len() - i && b.skip(j).len() == b.len() - j);
    if i < a.len() {
        assert(a.skip(i)[0] == a[i] && b.skip(j)[0] == b[j]);
        assert(a.skip(i + 1) =~= a.skip(i).skip(1) && b.skip(j + 1) =~= b.skip(j).skip(1));
        let arg = a[i];
        if arg == "--dry-run"@ {
            lemma_compact_rest(CompactArgs { dry_run: true, ..asked }, a, i + 1, b, j + 1, read);
        } else if arg == "--meeting"@ {
            if i + 1 < a.len() {
                assert(a.skip(i)[1] == a[i + 1] && b.skip(j)[1] == b[j + 1]);
                assert(a.skip(i + 2) =~= a.skip(i).skip(2) && b.skip(j + 2) =~= b.skip(j).skip(2));
                if let Ok(next) = asked.with_meeting(a[i + 1], read(a[i + 1])) {
                    lemma_compact_rest(next, a, i + 2, b, j + 2, read);
                }
            }
        } else if text::begins(arg, "--meeting="@) {
            let raw = arg.skip("--meeting="@.len() as int);
            if let Ok(next) = asked.with_meeting(raw, read(raw)) {
                lemma_compact_rest(next, a, i + 1, b, j + 1, read);
            }
        }
    }
}

/// The options of `meeting compact` set what they name: whether nothing is to be deleted,
/// and the one meeting that is meant, whose identifier may stand in the same argument.
pub proof fn compact_options_set_what_they_name(
    asked: CompactArgs,
    raw: Seq<char>,
    rest: Seq<Seq<char>>,
    read: spec_fn(Seq<char>) -> Result<u128, Seq<char>>,
)
    ensures
        asked.read(seq!["--dry-run"@] + rest, 0, read) == (CompactArgs {
            dry_run: true,
            ..asked
        }).read(rest, 0, read),
        match read(raw) {
            Ok(id) => asked.read(seq!["--meeting"@, raw] + rest, 0, read) == (CompactArgs {
                meeting: Some(id),
                ..asked
            }).read(rest, 0, read),
            Err(_) => asked.read(seq!["--meeting"@, raw] + rest, 0, read) is Err,
        },
        asked.read(seq!["--meeting="@ + raw] + rest, 0, read) == asked.read(
            seq!["--meeting"@, raw] + rest,
            0,
            read,
        ),
        asked.read(seq!["--meeting"@], 0, read) is Err,
        asked.read(seq!["--all"@] + rest, 0, read) is Err,
        asked.read(Seq::empty(), 0, read) == Ok::<CompactArgs, Seq<char>>(asked),
{
    reveal_strlit("--dry-run");
    reveal_strlit("--meeting");
    reveal_strlit("--meeting=");
    reveal_strlit("--all");
    assert("--dry-run"@.len() == 9 && "--dry-run"@[0] == '-' && "--dry-run"@[1] == '-'
        && "--dry-run"@[2] == 'd' && "--dry-run"@[3] == 'r' && "--dry-run"@[4] == 'y'
        && "--dry-run"@[5] == '-' && "--dry-run"@[6] == 'r' && "--dry-run"@[7] == 'u'
        && "--dry-run"@[8] == 'n');
    assert("--meeting"@.len() == 9 && "--meeting"@[0] == '-' && "--meeting"@[1] == '-'
        && "--meeting"@[2] == 'm' && "--meeting"@[3] == 'e' && "--meeting"@[4] == 'e'
        && "--meeting"@[5] == 't' && "--meeting"@[6] == 'i' && "--meeting"@[7] == 'n'
        && "--meeting"@[8] == 'g');
    assert("--meeting="@.len() == 10 && "--meeting="@[0] == '-' && "--meeting="@[1] == '-'
        && "--meeting="@[2] == 'm' && "--meeting="@[3] == 'e' && "--meeting="@[4] == 'e'
        && "--meeting="@[5] == 't' && "--meeting="@[6] == 'i' && "--meeting="@[7] == 'n'
        && "--meeting="@[8] == 'g' && "--meeting="@[9] == '=');
    assert("--all"@.len() == 5 && "--all"@[0] == '-' && "--all"@[1] == '-' && "--all"@[2] == 'a'
        && "--all"@[3] == 'l' && "--all"@[4] == 'l');
    let flag = seq!["--dry-run"@] + rest;
    assert(flag.skip(1) =~= rest.skip(0));
    lemma_compact_rest(CompactArgs { dry_run: true, ..asked }, flag, 1, rest, 0, read);
    let two = seq!["--meeting"@, raw] + rest;
    assert(two.skip(2) =~= rest.skip(0));
    assert(two[0] == "--meeting"@ && two[1] == raw);
    let arg = "--meeting="@ + raw;
    let one = seq![arg] + rest;
    assert(one.skip(1) =~= rest.skip(0));
    assert(one[0] == arg);
    lemma_at_the_start("--meeting="@, raw);
    assert(arg[2] == 'm' && arg[9] == '=');
    assert(arg.len() >= 10);
    if let Ok(id) = read(raw) {
        let next = CompactArgs { meeting: Some(id), ..asked };
        lemma_compact_rest(next, two, 2, rest, 0, read);
        lemma_compact_rest(next, one, 1, rest, 0, read);
    }
    let other = seq!["--all"@] + rest;
    assert(other[0] == "--all"@);
    lemma_begins_with("--all"@, "--meeting="@);
}

/// Rounding goes to the nearest whole number, and to the even one of two that are as near.
pub proof fn nearest_is_nearest(n: nat, d: nat)
    requires
        d > 0,
    ensures
        2 * (nearest(n, d) * d) <= 2 * n + d,
        2 * n <= 2 * (nearest(n, d) * d) + d,
        2 * (nearest(n, d) * d) == 2 * n + d ==> nearest(n, d) % 2 == 0,
        2 * n == 2 * (nearest(n, d) * d) + d ==> nearest(n, d) % 2 == 0,
        n % d == 0 ==> nearest(n, d) * d == n,
{
    let q = n / d;
    vstd::arithmetic::div_mod::lemma_fundamental_div_mod(n as int, d as int);
    assert(n == d * q + n % d);
    assert(q * d == d * q) by (nonlinear_arith);
    assert((q + 1) * d == d * q + d) by (nonlinear_arith);
}

/// A size below a kilobyte is told in bytes as it is, and one of whole units in them.
pub proof fn size_is_told_in_its_unit(bytes: nat, n: nat)
    ensures
        bytes < 1024 ==> size_text(bytes) == text::decimal(bytes) + " B"@,
        1 <= n < 1024 ==> size_text(n * 1024) == text::decimal(n) + ".0 KB"@,
        1 <= n < 1024 ==> size_text(n * 1024 * 1024) == text::decimal(n) + ".0 MB"@,
        1 <= n < 8192 ==> size_text(n * 1024 * 1024 * 1024) == text::decimal(n) + ".0 GB"@,
        1024 <= bytes < 1024 * 1024 ==> text::ends(size_text(bytes), " KB"@),
        1024 * 1024 <= bytes < 1024 * 1024 * 1024 ==> text::ends(size_text(bytes), " MB"@),
        1024 * 1024 * 1024 <= bytes < 0x20_0000_0000_0000 ==> text::ends(
            size_text(bytes),
            " GB"@,
        ),
{
    reveal_strlit(" B");
    reveal_strlit(" KB");
    reveal_strlit(" MB");
    reveal_strlit(" GB");
    reveal_strlit(".0 KB");
    reveal_strlit(".0 MB");
    reveal_strlit(".0 GB");
    reveal_strlit(".");
    reveal_strlit("0");
    lemma_exact_size(bytes);
    if bytes < 0x20_0000_0000_0000 && bytes >= 1024 {
        let unit = size_unit(bytes);
        let tenths = nearest(bytes * 10, unit_bytes(unit));
        let digits = text::decimal(tenths / 10) + "."@ + text::decimal(tenths % 10);
        let all = digits + unit_name(unit);
        assert(size_text(bytes) == all);
        assert(unit_name(unit).len() == 3);
        let at = all.len() - 3;
        assert(all.subrange(at, at + 3) =~= unit_name(unit));
    }
    if 1 <= n < 1024 {
        lemma_whole_size(n, 1);
        lemma_whole_size(n, 2);
    }
    if 1 <= n < 8192 {
        lemma_whole_size(n, 3);
    }
}

proof fn lemma_exact_size(bytes: nat)
    ensures
        bytes < 0x20_0000_0000_0000 ==> rounded(bytes) == bytes,
        bytes < 1024 ==> size_unit(rounded(bytes)) == 0,
{
    if bytes < 0x20_0000_0000_0000 {
        assert(spacing(bytes) == 1);
        assert(nearest(bytes, 1) == bytes);
        assert(bytes * 1 == bytes);
    }
}

proof fn lemma_whole_size(n: nat, unit: nat)
    requires
        1 <= n < 8192,
        1 <= unit <= 3,
        unit < 3 ==> n < 1024,
    ensures
        size_text(n * unit_bytes(unit)) == text::decimal(n) + ".0"@ + unit_name(unit),
        unit == 1 ==> text::decimal(n) + ".0"@ + unit_name(unit) == text::decimal(n) + ".0 KB"@,
        unit == 2 ==> text::decimal(n) + ".0"@ + unit_name(unit) == text::decimal(n) + ".0 MB"@,
        unit == 3 ==> text::decimal(n) + ".0"@ + unit_name(unit) == text::decimal(n) + ".0 GB"@,
        unit == 1 ==> n * unit_bytes(unit) == n * 1024,
        unit == 2 ==> n * unit_bytes(unit) == n * 1024 * 1024,
        unit == 3 ==> n * unit_bytes(unit) == n * 1024 * 1024 * 1024,
{
    let u = unit_bytes(unit);
    let size = n * u;
    assert(unit == 1 ==> size == n * 1024);
    assert(unit == 2 ==> size == n * 1048576);
    assert(unit == 3 ==> size == n * 1073741824);
    assert(size < 0x20_0000_0000_0000);
    lemma_exact_size(size);
    assert(size_unit(size) == unit);
    nearest_is_nearest(size * 10, u);
    assert(size * 10 == (n * 10) * u) by (nonlinear_arith)
        requires
            size == n * u,
    ;
    vstd::arithmetic::div_mod::lemma_mod_multiples_basic((n * 10) as int, u as int);
    let tenths = nearest(size * 10, u);
    assert(tenths == n * 10) by (nonlinear_arith)
        requires
            tenths * u == (n * 10) * u,
            u > 0,
    ;
    assert(tenths / 10 == n && tenths % 10 == 0);
    reveal_strlit(" B");
    reveal_strlit(" KB");
    reveal_strlit(" MB");
    reveal_strlit(" GB");
    reveal_strlit(".0 KB");
    reveal_strlit(".0 MB");
    reveal_strlit(".0 GB");
    reveal_strlit(".");
    reveal_strlit(".0");
    assert(text::decimal(0) =~= seq!['0']);
    assert(text::decimal(n) + "."@ + text::decimal(0) + unit_name(unit) =~= text::decimal(n)
        + ".0"@ + unit_name(unit));
    assert(unit == 1 ==> ".0"@ + unit_name(unit) =~= ".0 KB"@);
    assert(unit == 2 ==> ".0"@ + unit_name(unit) =~= ".0 MB"@);
    assert(unit == 3 ==> ".0"@ + unit_name(unit) =~= ".0 GB"@);
    assert(text::decimal(n) + ".0"@ + unit_name(unit) =~= text::decimal(n) + (".0"@ + unit_name(
        unit,
    )));
}

/// A value that an option does not take is refused by its words, with the value.
pub proof fn refused_value_is_told(asked: ProcessArgs, value: Seq<char>, rest: Seq<Seq<char>>)
    ensures
        engine_named(value) is None ==> asked.read(seq!["--engine"@, value] + rest, 0) == Err::<
            ProcessArgs,
            Seq<char>,
        >("unknown --engine `"@ + value + "` (sensevoice|qwen|mlx-whisper|whisper)"@),
        format_named(value) is None ==> asked.read(seq!["--format"@, value] + rest, 0) == Err::<
            ProcessArgs,
            Seq<char>,
        >("unknown --format `"@ + value + "` (text|json|transcript-v1|bilingual)"@),
        count_of(value) is None ==> asked.read(seq!["--max-speakers"@, value] + rest, 0) == Err::<
            ProcessArgs,
            Seq<char>,
        >("invalid --max-speakers `"@ + value + "`"@),
        !is_decimal(value) ==> asked.read(seq!["--min-turn-seconds"@, value] + rest, 0) == Err::<
            ProcessArgs,
            Seq<char>,
        >("invalid --min-turn-seconds `"@ + value + "`"@),
{
    lemma_flags();
    lemma_behind_two(asked, "--engine"@, value, rest);
    lemma_behind_two(asked, "--format"@, value, rest);
    lemma_behind_two(asked, "--max-speakers"@, value, rest);
    lemma_behind_two(asked, "--min-turn-seconds"@, value, rest);
}

proof fn lemma_value_missing(asked: ProcessArgs, flag: Seq<char>, option: ValueOption)
    requires
        flag != "--json"@ && flag != "--minutes"@,
        separate_option(flag) == Some(option),
    ensures
        asked.read(seq![flag], 0) == Err::<ProcessArgs, Seq<char>>(
            "missing value for "@ + option.flag(),
        ),
{
}

/// An option without its value is refused by its name.
pub proof fn missing_value_is_told(asked: ProcessArgs)
    ensures
        asked.read(seq!["--lang"@], 0) == Err::<ProcessArgs, Seq<char>>(
            "missing value for "@ + "--lang"@,
        ),
        asked.read(seq!["--language"@], 0) == Err::<ProcessArgs, Seq<char>>(
            "missing value for "@ + "--lang"@,
        ),
        asked.read(seq!["--format"@], 0) == Err::<ProcessArgs, Seq<char>>(
            "missing value for "@ + "--format"@,
        ),
        asked.read(seq!["--engine"@], 0) == Err::<ProcessArgs, Seq<char>>(
            "missing value for "@ + "--engine"@,
        ),
        asked.read(seq!["--translate"@], 0) == Err::<ProcessArgs, Seq<char>>(
            "missing value for "@ + "--translate"@,
        ),
        asked.read(seq!["--max-speakers"@], 0) == Err::<ProcessArgs, Seq<char>>(
            "missing value for "@ + "--max-speakers"@,
        ),
        asked.read(seq!["--min-turn-seconds"@], 0) == Err::<ProcessArgs, Seq<char>>(
            "missing value for "@ + "--min-turn-seconds"@,
        ),
        asked.read(seq!["--mlx-whisper-model"@], 0) == Err::<ProcessArgs, Seq<char>>(
            "missing value for "@ + "--mlx-whisper-model"@,
        ),
{
    lemma_flags();
    lemma_value_missing(asked, "--lang"@, ValueOption::Lang);
    lemma_value_missing(asked, "--language"@, ValueOption::Lang);
    lemma_value_missing(asked, "--format"@, ValueOption::Format);
    lemma_value_missing(asked, "--engine"@, ValueOption::Engine);
    lemma_value_missing(asked, "--translate"@, ValueOption::Translate);
    lemma_value_missing(asked, "--max-speakers"@, ValueOption::MaxSpeakers);
    lemma_value_missing(asked, "--min-turn-seconds"@, ValueOption::MinTurnSeconds);
    lemma_value_missing(asked, "--mlx-whisper-model"@, ValueOption::MlxWhisperModel);
}

proof fn lemma_no_dash(value: Seq<char>)
    requires
        value.len() > 0,
        value[0] != '-',
    ensures
        value != "--json"@ && value != "--minutes"@,
        separate_option(value) is None,
        inline_option(value) is None,
        !text::begins(value, "-"@),
{
    reveal_strlit("--json");
    reveal_strlit("--minutes");
    reveal_strlit("--engine");
    reveal_strlit("--lang");
    reveal_strlit("--language");
    reveal_strlit("--format");
    reveal_strlit("--translate");
    reveal_strlit("--max-speakers");
    reveal_strlit("--min-turn-seconds");
    reveal_strlit("--mlx-whisper-model");
    reveal_strlit("--engine=");
    reveal_strlit("--lang=");
    reveal_strlit("--language=");
    reveal_strlit("--format=");
    reveal_strlit("--translate=");
    reveal_strlit("--max-speakers=");
    reveal_strlit("--min-turn-seconds=");
    reveal_strlit("--mlx-whisper-model=");
    reveal_strlit("-");
    assert("--json"@.len() == 6 && "--json"@[0] == '-');
    assert("--minutes"@.len() == 9 && "--minutes"@[0] == '-');
    assert("--engine"@.len() == 8 && "--engine"@[0] == '-');
    assert("--lang"@.len() == 6 && "--lang"@[0] == '-');
    assert("--language"@.len() == 10 && "--language"@[0] == '-');
    assert("--format"@.len() == 8 && "--format"@[0] == '-');
    assert("--translate"@.len() == 11 && "--translate"@[0] == '-');
    assert("--max-speakers"@.len() == 14 && "--max-speakers"@[0] == '-');
    assert("--min-turn-seconds"@.len() == 18 && "--min-turn-seconds"@[0] == '-');
    assert("--mlx-whisper-model"@.len() == 19 && "--mlx-whisper-model"@[0] == '-');
    assert("--engine="@.len() == 9 && "--engine="@[0] == '-');
    lemma_begins_with(value, "--engine="@);
    assert("--lang="@.len() == 7 && "--lang="@[0] == '-');
    lemma_begins_with(value, "--lang="@);
    assert("--language="@.len() == 11 && "--language="@[0] == '-');
    lemma_begins_with(value, "--language="@);
    assert("--format="@.len() == 9 && "--format="@[0] == '-');
    lemma_begins_with(value, "--format="@);
    assert("--translate="@.len() == 12 && "--translate="@[0] == '-');
    lemma_begins_with(value, "--translate="@);
    assert("--max-speakers="@.len() == 15 && "--max-speakers="@[0] == '-');
    lemma_begins_with(value, "--max-speakers="@);
    assert("--min-turn-seconds="@.len() == 19 && "--min-turn-seconds="@[0] == '-');
    lemma_begins_with(value, "--min-turn-seconds="@);
    assert("--mlx-whisper-model="@.len() == 20 && "--mlx-whisper-model="@[0] == '-');
    lemma_begins_with(value, "--mlx-whisper-model="@);
    assert("-"@.len() == 1 && "-"@[0] == '-');
    lemma_begins_with(value, "-"@);
}

/// A second file is refused by its name, and a run without one is told how to use it.
pub proof fn second_file_is_told(asked: ProcessArgs, value: Seq<char>, rest: Seq<Seq<char>>)
    ensures
        value.len() > 0 && value[0] != '-' && asked.audio is Some ==> asked.read(
            seq![value] + rest,
            0,
        ) == Err::<ProcessArgs, Seq<char>>("unexpected positional argument `"@ + value + "`"@),
        asked.audio is None ==> asked.complete() == Err::<ProcessArgs, Seq<char>>(
            "usage: meeting process <audio> [--engine …] [--lang …] [--format …] [--translate zh]"@,
        ),
        unsupported(value) == "engine `sensevoice` does not support language `"@ + value
            + "` (official: zh/en/ja/ko/yue). Use `--engine mlx-whisper` or `--engine qwen` for multi-lingual file ASR, or omit `--lang` for CJK dictation defaults"@,
{
    lemma_behind_one(asked, value, rest);
    if value.len() > 0 && value[0] != '-' {
        lemma_no_dash(value);
    }
}

/// Seconds may be written with a point, an exponent and a sign, and as infinity or no
/// number at all, in any case.
pub proof fn seconds_may_be_written_so()
    ensures
        is_decimal("inf"@) && is_decimal("Infinity"@) && is_decimal("NaN"@) && is_decimal("-inf"@),
        is_decimal("1.5"@) && is_decimal(".5"@) && is_decimal("1."@) && is_decimal("+2"@),
        is_decimal("1e3"@) && is_decimal("1E-3"@),
        !is_decimal("."@) && !is_decimal("1e"@) && !is_decimal("--1"@) && !is_decimal("1.2.3"@),
{
    reveal_strlit("inf");
    reveal_strlit("Infinity");
    reveal_strlit("infinity");
    reveal_strlit("NaN");
    reveal_strlit("nan");
    reveal_strlit("-inf");
    reveal_strlit("1.5");
    reveal_strlit(".5");
    reveal_strlit("1.");
    reveal_strlit("+2");
    reveal_strlit("1e3");
    reveal_strlit("1E-3");
    reveal_strlit(".");
    reveal_strlit("1e");
    reveal_strlit("--1");
    reveal_strlit("1.2.3");
    assert("inf"@.len() == 3 && "inf"@[0] == 'i' && "inf"@[1] == 'n' && "inf"@[2] == 'f');
    assert("Infinity"@.len() == 8 && "Infinity"@[0] == 'I' && "Infinity"@[1] == 'n'
        && "Infinity"@[2] == 'f' && "Infinity"@[3] == 'i' && "Infinity"@[4] == 'n'
        && "Infinity"@[5] == 'i' && "Infinity"@[6] == 't' && "Infinity"@[7] == 'y');
    assert("infinity"@.len() == 8 && "infinity"@[0] == 'i' && "infinity"@[1] == 'n'
        && "infinity"@[2] == 'f' && "infinity"@[3] == 'i' && "infinity"@[4] == 'n'
        && "infinity"@[5] == 'i' && "infinity"@[6] == 't' && "infinity"@[7] == 'y');
    assert("NaN"@.len() == 3 && "NaN"@[0] == 'N' && "NaN"@[1] == 'a' && "NaN"@[2] == 'N');
    assert("nan"@.len() == 3 && "nan"@[0] == 'n' && "nan"@[1] == 'a' && "nan"@[2] == 'n');
    assert("-inf"@.len() == 4 && "-inf"@[0] == '-' && "-inf"@[1] == 'i' && "-inf"@[2] == 'n'
        && "-inf"@[3] == 'f');
    assert("1.5"@.len() == 3 && "1.5"@[0] == '1' && "1.5"@[1] == '.' && "1.5"@[2] == '5');
    assert(".5"@.len() == 2 && ".5"@[0] == '.' && ".5"@[1] == '5');
    assert("1."@.len() == 2 && "1."@[0] == '1' && "1."@[1] == '.');
    assert("+2"@.len() == 2 && "+2"@[0] == '+' && "+2"@[1] == '2');
    assert("1e3"@.len() == 3 && "1e3"@[0] == '1' && "1e3"@[1] == 'e' && "1e3"@[2] == '3');
    assert("1E-3"@.len() == 4 && "1E-3"@[0] == '1' && "1E-3"@[1] == 'E' && "1E-3"@[2] == '-'
        && "1E-3"@[3] == '3');
    assert("."@.len() == 1 && "."@[0] == '.');
    assert("1e"@.len() == 2 && "1e"@[0] == '1' && "1e"@[1] == 'e');
    assert("--1"@.len() == 3 && "--1"@[0] == '-' && "--1"@[1] == '-' && "--1"@[2] == '1');
    assert("1.2.3"@.len() == 5 && "1.2.3"@[0] == '1' && "1.2.3"@[1] == '.' && "1.2.3"@[2] == '2'
        && "1.2.3"@[3] == '.' && "1.2.3"@[4] == '3');
    reveal_with_fuel(digits_end, 3);
    assert("inf"@.skip(0) =~= "inf"@ && text::lower("inf"@) =~= "inf"@);
    assert("Infinity"@.skip(0) =~= "Infinity"@ && text::lower("Infinity"@) =~= "infinity"@);
    assert("NaN"@.skip(0) =~= "NaN"@ && text::lower("NaN"@) =~= "nan"@);
    assert("-inf"@.skip(1) =~= "inf"@);
    assert("."@.skip(0) =~= "."@ && text::lower("."@).len() == 1);
    assert("1e"@.skip(0) =~= "1e"@ && text::lower("1e"@).len() == 2);
    assert("--1"@.skip(1).len() == 2 && text::lower("--1"@.skip(1)).len() == 2);
    assert("1.2.3"@.skip(0) =~= "1.2.3"@ && text::lower("1.2.3"@).len() == 5);
}

/// Minutes are written beside the audio, under its name.
pub proof fn minutes_stand_beside_the_audio(
    directory: Seq<char>,
    stem: Seq<char>,
    extension: Seq<char>,
)
    requires
        directory.len() > 0,
        directory.last() != '/' && directory.last() != '\\' && directory.last() != '.',
        paths::is_file_name(stem + seq!['.'] + extension, false),
        stem.len() > 0,
        forall|i: int| 0 <= i < extension.len() ==> #[trigger] extension[i] != '.',
    ensures
        minutes_path(directory + seq!['/'] + (stem + seq!['.'] + extension), false) == directory
            + seq!['/'] + (stem + ".minutes.md"@),
        minutes_path(stem + seq!['.'] + extension, false) == stem + ".minutes.md"@,
{
    let name = stem + seq!['.'] + extension;
    let before = directory + seq!['/'];
    assert(before.last() == '/');
    paths::name_is_stem_and_extension(before, stem, extension, false);
    paths::parent_is_the_directory(directory, name, false);
    reveal_strlit(".minutes.md");
    let file = stem + ".minutes.md"@;
    assert(".minutes.md"@.len() == 11 && ".minutes.md"@[0] == '.' && ".minutes.md"@[1] == 'm'
        && ".minutes.md"@[2] == 'i' && ".minutes.md"@[3] == 'n' && ".minutes.md"@[4] == 'u'
        && ".minutes.md"@[5] == 't' && ".minutes.md"@[6] == 'e' && ".minutes.md"@[7] == 's'
        && ".minutes.md"@[8] == '.' && ".minutes.md"@[9] == 'm' && ".minutes.md"@[10] == 'd');
    assert forall|i: int| 0 <= i < file.len() implies #[trigger] file[i] != '/' by {
        if i < stem.len() {
            assert(name[i] == stem[i]);
        } else {
            assert(file[i] == ".minutes.md"@[i - stem.len()]);
        }
    }
    assert(file.len() > 2);
    paths::name_is_put_under_a_directory(directory, file);
    paths::name_is_stem_and_extension(Seq::empty(), stem, extension, false);
    assert(Seq::<char>::empty() + name =~= name);
}

/// What is refused of `meeting compact` is told by its words.
pub proof fn compact_refusals_tell_the_value(
    asked: CompactArgs,
    raw: Seq<char>,
    rest: Seq<Seq<char>>,
    read: spec_fn(Seq<char>) -> Result<u128, Seq<char>>,
)
    ensures
        asked.read(seq!["--meeting"@], 0, read) == Err::<CompactArgs, Seq<char>>(
            "meeting compact: missing value for --meeting"@,
        ),
        read(raw) is Err ==> asked.read(seq!["--meeting"@, raw] + rest, 0, read) == Err::<
            CompactArgs,
            Seq<char>,
        >("meeting compact: invalid meeting id `"@ + raw + "`"@),
        raw.len() > 0 && raw[0] != '-' ==> asked.read(seq![raw] + rest, 0, read) == Err::<
            CompactArgs,
            Seq<char>,
        >(
            "meeting compact: unexpected argument `"@ + raw
                + "`\nusage: meeting compact [--dry-run] [--meeting <id>]"@,
        ),
{
    reveal_strlit("--dry-run");
    reveal_strlit("--meeting");
    reveal_strlit("--meeting=");
    assert("--dry-run"@.len() == 9 && "--dry-run"@[0] == '-' && "--dry-run"@[1] == '-'
        && "--dry-run"@[2] == 'd' && "--dry-run"@[3] == 'r' && "--dry-run"@[4] == 'y'
        && "--dry-run"@[5] == '-' && "--dry-run"@[6] == 'r' && "--dry-run"@[7] == 'u'
        && "--dry-run"@[8] == 'n');
    assert("--meeting"@.len() == 9 && "--meeting"@[0] == '-' && "--meeting"@[1] == '-'
        && "--meeting"@[2] == 'm' && "--meeting"@[3] == 'e' && "--meeting"@[4] == 'e'
        && "--meeting"@[5] == 't' && "--meeting"@[6] == 'i' && "--meeting"@[7] == 'n'
        && "--meeting"@[8] == 'g');
    assert("--meeting="@.len() == 10 && "--meeting="@[0] == '-' && "--meeting="@[1] == '-'
        && "--meeting="@[2] == 'm' && "--meeting="@[3] == 'e' && "--meeting="@[4] == 'e'
        && "--meeting="@[5] == 't' && "--meeting="@[6] == 'i' && "--meeting="@[7] == 'n'
        && "--meeting="@[8] == 'g' && "--meeting="@[9] == '=');
    let two = seq!["--meeting"@, raw] + rest;
    assert(two[0] == "--meeting"@ && two[1] == raw);
    let one = seq![raw] + rest;
    assert(one[0] == raw);
    lemma_begins_with(raw, "--meeting="@);
}

/// An identifier that was read is seen as it is.
pub proof fn reading_is_seen_as_it_is(r: Result<u128, String>)
    ensures
        r matches Ok(id) ==> result_seen(r) == Ok::<u128, Seq<char>>(id),
        r matches Err(error) ==> result_seen(r) == Err::<u128, Seq<char>>(error@),
{
}

/// A plain code of another language is its own tag, in capitals; what is no code is told
/// by `SRC`.
pub proof fn other_codes_are_their_own_tags(code: Seq<char>)
    requires
        forall|i: int|
            0 <= i < code.len() ==> ('a' <= #[trigger] code[i] <= 'z' || '0' <= code[i] <= '9'),
    ensures
        code.len() == 2 && code[0] == 'i' ==> source_tag(Some(code)) == text::upper(code),
        code.len() > 12 ==> source_tag(Some(code)) == "SRC"@,
{
    reveal_strlit("es");
    reveal_strlit("spa");
    reveal_strlit("spanish");
    reveal_strlit("español");
    reveal_strlit("espanol");
    reveal_strlit("zh");
    reveal_strlit("cn");
    reveal_strlit("chinese");
    reveal_strlit("中文");
    reveal_strlit("en");
    reveal_strlit("eng");
    reveal_strlit("english");
    reveal_strlit("ja");
    reveal_strlit("jpn");
    reveal_strlit("japanese");
    reveal_strlit("ko");
    reveal_strlit("kor");
    reveal_strlit("korean");
    reveal_strlit("yue");
    reveal_strlit("cantonese");
    reveal_strlit("fr");
    reveal_strlit("fra");
    reveal_strlit("french");
    reveal_strlit("de");
    reveal_strlit("deu");
    reveal_strlit("german");
    reveal_strlit("pt");
    reveal_strlit("por");
    reveal_strlit("portuguese");
    reveal_strlit("auto");
    assert("es"@.len() == 2 && "es"@[0] == 'e' && "es"@[1] == 's');
    assert("spa"@.len() == 3 && "spa"@[0] == 's' && "spa"@[1] == 'p' && "spa"@[2] == 'a');
    assert("spanish"@.len() == 7 && "spanish"@[0] == 's' && "spanish"@[1] == 'p'
        && "spanish"@[2] == 'a' && "spanish"@[3] == 'n' && "spanish"@[4] == 'i'
        && "spanish"@[5] == 's' && "spanish"@[6] == 'h');
    assert("español"@.len() == 7 && "español"@[0] == 'e' && "español"@[1] == 's'
        && "español"@[2] == 'p' && "español"@[3] == 'a' && "español"@[4] == 'ñ'
        && "español"@[5] == 'o' && "español"@[6] == 'l');
    assert("espanol"@.len() == 7 && "espanol"@[0] == 'e' && "espanol"@[1] == 's'
        && "espanol"@[2] == 'p' && "espanol"@[3] == 'a' && "espanol"@[4] == 'n'
        && "espanol"@[5] == 'o' && "espanol"@[6] == 'l');
    assert("zh"@.len() == 2 && "zh"@[0] == 'z' && "zh"@[1] == 'h');
    assert("cn"@.len() == 2 && "cn"@[0] == 'c' && "cn"@[1] == 'n');
    assert("chinese"@.len() == 7 && "chinese"@[0] == 'c' && "chinese"@[1] == 'h'
        && "chinese"@[2] == 'i' && "chinese"@[3] == 'n' && "chinese"@[4] == 'e'
        && "chinese"@[5] == 's' && "chinese"@[6] == 'e');
    assert("中文"@.len() == 2 && "中文"@[0] == '中' && "中文"@[1] == '文');
    assert("en"@.len() == 2 && "en"@[0] == 'e' && "en"@[1] == 'n');
    assert("eng"@.len() == 3 && "eng"@[0] == 'e' && "eng"@[1] == 'n' && "eng"@[2] == 'g');
    assert("english"@.len() == 7 && "english"@[0] == 'e' && "english"@[1] == 'n'
        && "english"@[2] == 'g' && "english"@[3] == 'l' && "english"@[4] == 'i'
        && "english"@[5] == 's' && "english"@[6] == 'h');
    assert("ja"@.len() == 2 && "ja"@[0] == 'j' && "ja"@[1] == 'a');
    assert("jpn"@.len() == 3 && "jpn"@[0] == 'j' && "jpn"@[1] == 'p' && "jpn"@[2] == 'n');
    assert("japanese"@.len() == 8 && "japanese"@[0] == 'j' && "japanese"@[1] == 'a'
        && "japanese"@[2] == 'p' && "japanese"@[3] == 'a' && "japanese"@[4] == 'n'
        && "japanese"@[5] == 'e' && "japanese"@[6] == 's' && "japanese"@[7] == 'e');
    assert("ko"@.len() == 2 && "ko"@[0] == 'k' && "ko"@[1] == 'o');
    assert("kor"@.len() == 3 && "kor"@[0] == 'k' && "kor"@[1] == 'o' && "kor"@[2] == 'r');
    assert("korean"@.len() == 6 && "korean"@[0] == 'k' && "korean"@[1] == 'o'
        && "korean"@[2] == 'r' && "korean"@[3] == 'e' && "korean"@[4] == 'a'
        && "korean"@[5] == 'n');
    assert("yue"@.len() == 3 && "yue"@[0] == 'y' && "yue"@[1] == 'u' && "yue"@[2] == 'e');
    assert("cantonese"@.len() == 9 && "cantonese"@[0] == 'c' && "cantonese"@[1] == 'a'
        && "cantonese"@[2] == 'n' && "cantonese"@[3] == 't' && "cantonese"@[4] == 'o'
        && "cantonese"@[5] == 'n' && "cantonese"@[6] == 'e' && "cantonese"@[7] == 's'
        && "cantonese"@[8] == 'e');
    assert("fr"@.len() == 2 && "fr"@[0] == 'f' && "fr"@[1] == 'r');
    assert("fra"@.len() == 3 && "fra"@[0] == 'f' && "fra"@[1] == 'r' && "fra"@[2] == 'a');
    assert("french"@.len() == 6 && "french"@[0] == 'f' && "french"@[1] == 'r'
        && "french"@[2] == 'e' && "french"@[3] == 'n' && "french"@[4] == 'c'
        && "french"@[5] == 'h');
    assert("de"@.len() == 2 && "de"@[0] == 'd' && "de"@[1] == 'e');
    assert("deu"@.len() == 3 && "deu"@[0] == 'd' && "deu"@[1] == 'e' && "deu"@[2] == 'u');
    assert("german"@.len() == 6 && "german"@[0] == 'g' && "german"@[1] == 'e'
        && "german"@[2] == 'r' && "german"@[3] == 'm' && "german"@[4] == 'a'
        && "german"@[5] == 'n');
    assert("pt"@.len() == 2 && "pt"@[0] == 'p' && "pt"@[1] == 't');
    assert("por"@.len() == 3 && "por"@[0] == 'p' && "por"@[1] == 'o' && "por"@[2] == 'r');
    assert("portuguese"@.len() == 10 && "portuguese"@[0] == 'p' && "portuguese"@[1] == 'o'
        && "portuguese"@[2] == 'r' && "portuguese"@[3] == 't' && "portuguese"@[4] == 'u'
        && "portuguese"@[5] == 'g' && "portuguese"@[6] == 'u' && "portuguese"@[7] == 'e'
        && "portuguese"@[8] == 's' && "portuguese"@[9] == 'e');
    assert("auto"@.len() == 4 && "auto"@[0] == 'a' && "auto"@[1] == 'u' && "auto"@[2] == 't'
        && "auto"@[3] == 'o');
    assert(text::is_small_word(code));
    text::small_word_is_itself(code);
    lemma_own_primary(code);
}

} // verus!
