//! Audio files: which can be imported, and how others are made of them.
use crate::paths;
use crate::platform::Platform;
use crate::text;
use vstd::prelude::*;
use vstd::string::*;

verus! {

/// The extension of an audio file, in lower case; empty where there is none.
pub open spec fn extension_of(path: Seq<char>, windows: bool) -> Seq<char> {
    match paths::extension_of(path, windows) {
        Some(extension) => text::lower(extension),
        None => Seq::empty(),
    }
}

/// The extension of an audio file, in lower case.
pub fn audio_extension(path: &str, platform: Platform) -> (r: String)
    ensures
        r@ == extension_of(path@, platform is Windows),
{
    match paths::extension(path, platform) {
        Some(extension) => text::lowered(extension.as_str()),
        None => String::new(),
    }
}

/// The extensions of the audio that a meeting can be made of.
pub open spec fn is_import_extension(extension: Seq<char>) -> bool {
    ||| extension == "wav"@
    ||| extension == "wave"@
    ||| extension == "mp3"@
    ||| extension == "m4a"@
    ||| extension == "mp4"@
    ||| extension == "opus"@
    ||| extension == "ogg"@
}

/// Whether a meeting can be made of a file, by its name.
pub fn is_importable_meeting_audio(path: &str, platform: Platform) -> (r: bool)
    ensures
        r == is_import_extension(extension_of(path@, platform is Windows)),
{
    let extension: String = audio_extension(path, platform);
    let e: &str = extension.as_str();
    text::same(e, "wav") || text::same(e, "wave") || text::same(e, "mp3") || text::same(e, "m4a")
        || text::same(e, "mp4") || text::same(e, "opus") || text::same(e, "ogg")
}

pub open spec fn is_wav(path: Seq<char>, windows: bool) -> bool {
    extension_of(path, windows) == "wav"@ || extension_of(path, windows) == "wave"@
}

fn wav(path: &str, platform: Platform) -> (r: bool)
    ensures
        r == is_wav(path@, platform is Windows),
{
    let extension: String = audio_extension(path, platform);
    text::same(extension.as_str(), "wav") || text::same(extension.as_str(), "wave")
}

/// How a file enters the library of meetings.
#[derive(Debug, Clone, Copy, PartialEq, Eq, Structural)]
pub enum ImportPlan {
    Copy,
    Convert,
}

/// Copy a wav as-is, otherwise convert.
pub fn copy_or_convert_to_wav(src: &str, platform: Platform) -> (r: ImportPlan)
    ensures
        r == if is_wav(src@, platform is Windows) {
            ImportPlan::Copy
        } else {
            ImportPlan::Convert
        },
{
    if wav(src, platform) {
        ImportPlan::Copy
    } else {
        ImportPlan::Convert
    }
}

/// What a conversion makes.
#[derive(Debug, Clone, Copy, PartialEq, Eq, Structural)]
pub enum AudioTarget {
    /// 16 kHz mono PCM.
    Wav,
    Mp3,
    Ogg,
}

impl AudioTarget {
    /// The options that make the target.
    pub open spec fn options(self) -> Seq<Seq<char>> {
        match self {
            AudioTarget::Wav => seq!["-ac"@, "1"@, "-ar"@, "16000"@, "-c:a"@, "pcm_s16le"@],
            AudioTarget::Mp3 => seq!["-vn"@, "-c:a"@, "libmp3lame"@, "-q:a"@, "2"@],
            AudioTarget::Ogg => seq!["-vn"@, "-c:a"@, "libvorbis"@, "-q:a"@, "4"@],
        }
    }

    /// What there is to do where ffmpeg cannot be started.
    pub open spec fn advice(self) -> Seq<char> {
        match self {
            AudioTarget::Wav => "）。请安装 ffmpeg 后再导入 m4a/mp3/mp4。"@,
            AudioTarget::Mp3 => "）。导出 MP3 需要安装 ffmpeg。"@,
            AudioTarget::Ogg => "）。导出 OGG 需要安装 ffmpeg。"@,
        }
    }

    pub open spec fn failed(self) -> Seq<char> {
        match self {
            AudioTarget::Wav => "ffmpeg 转换失败："@,
            AudioTarget::Mp3 => "ffmpeg 导出 MP3 失败："@,
            AudioTarget::Ogg => "ffmpeg 导出 OGG 失败："@,
        }
    }

    pub open spec fn missing(self) -> Seq<char> {
        match self {
            AudioTarget::Wav => "ffmpeg 没有生成 wav 文件"@,
            AudioTarget::Mp3 => "ffmpeg 没有生成 mp3 文件"@,
            AudioTarget::Ogg => "ffmpeg 没有生成 ogg 文件"@,
        }
    }
}

fn push(list: &mut Vec<String>, word: &str)
    ensures
        text::texts(final(list)@) == text::texts(old(list)@).push(word@),
{
    let ghost before = text::texts(list@);
    list.push(word.to_owned());
    assert(text::texts(list@) =~= before.push(word@));
}

/// The arguments with which ffmpeg makes `target` of `src` at `dest`.
pub fn ffmpeg_args(src: &str, dest: &str, target: AudioTarget) -> (r: Vec<String>)
    ensures
        text::texts(r@) == seq!["-y"@, "-i"@, src@] + target.options() + seq![dest@],
{
    let mut args: Vec<String> = Vec::new();
    push(&mut args, "-y");
    push(&mut args, "-i");
    push(&mut args, src);
    match target {
        AudioTarget::Wav => {
            push(&mut args, "-ac");
            push(&mut args, "1");
            push(&mut args, "-ar");
            push(&mut args, "16000");
            push(&mut args, "-c:a");
            push(&mut args, "pcm_s16le");
        },
        AudioTarget::Mp3 => {
            push(&mut args, "-vn");
            push(&mut args, "-c:a");
            push(&mut args, "libmp3lame");
            push(&mut args, "-q:a");
            push(&mut args, "2");
        },
        AudioTarget::Ogg => {
            push(&mut args, "-vn");
            push(&mut args, "-c:a");
            push(&mut args, "libvorbis");
            push(&mut args, "-q:a");
            push(&mut args, "4");
        },
    }
    push(&mut args, dest);
    assert(text::texts(args@) =~= seq!["-y"@, "-i"@, src@] + target.options() + seq![dest@]);
    args
}

/// There is a file to convert or to copy.
pub fn check_source(src: &str, is_file: bool) -> (r: Result<(), String>)
    ensures
        r is Ok <==> is_file,
        !is_file ==> text::fails(r, "找不到音频文件："@ + src@),
{
    if is_file {
        Ok(())
    } else {
        Err(text::glue("找不到音频文件：", src))
    }
}

/// What came of a conversion.
#[derive(Debug, Clone, PartialEq, Eq)]
pub enum ConversionEvent {
    /// ffmpeg could not be started.
    NotStarted(String),
    Ended { success: bool, output_is_file: bool },
}

/// Why a conversion failed.
pub open spec fn conversion_error(src: Seq<char>, target: AudioTarget, event: ConversionEvent) -> Option<
    Seq<char>,
> {
    match event {
        ConversionEvent::NotStarted(error) => Some(
            "无法启动 ffmpeg（"@ + error@ + target.advice(),
        ),
        ConversionEvent::Ended { success, output_is_file } => if !success {
            Some(target.failed() + src)
        } else if !output_is_file {
            Some(target.missing())
        } else {
            None
        },
    }
}

/// Whether a conversion made its file.
pub fn settle_conversion(src: &str, target: AudioTarget, event: ConversionEvent) -> (r: Result<
    (),
    String,
>)
    ensures
        match conversion_error(src@, target, event) {
            Some(error) => text::fails(r, error),
            None => r is Ok,
        },
{
    match event {
        ConversionEvent::NotStarted(error) => {
            let advice: &str = match target {
                AudioTarget::Wav => "）。请安装 ffmpeg 后再导入 m4a/mp3/mp4。",
                AudioTarget::Mp3 => "）。导出 MP3 需要安装 ffmpeg。",
                AudioTarget::Ogg => "）。导出 OGG 需要安装 ffmpeg。",
            };
            Err(text::glue3("无法启动 ffmpeg（", error.as_str(), advice))
        },
        ConversionEvent::Ended { success, output_is_file } => if !success {
            let failed: &str = match target {
                AudioTarget::Wav => "ffmpeg 转换失败：",
                AudioTarget::Mp3 => "ffmpeg 导出 MP3 失败：",
                AudioTarget::Ogg => "ffmpeg 导出 OGG 失败：",
            };
            Err(text::glue(failed, src))
        } else if !output_is_file {
            match target {
                AudioTarget::Wav => Err("ffmpeg 没有生成 wav 文件".to_owned()),
                AudioTarget::Mp3 => Err("ffmpeg 没有生成 mp3 文件".to_owned()),
                AudioTarget::Ogg => Err("ffmpeg 没有生成 ogg 文件".to_owned()),
            }
        } else {
            Ok(())
        },
    }
}

/// What the pipeline reads of a file.
#[derive(Debug, Clone, Copy, PartialEq, Eq, Structural)]
pub enum WavPlan {
    /// The file itself.
    AsIs,
    /// A conversion, in a directory of its own.
    Convert,
}

/// What the pipeline reads of a file: a wav itself, and where `opus_native` so
/// too an opus file, which it decodes on its own.
pub fn ensure_wav(path: &str, opus_native: bool, is_file: bool, platform: Platform) -> (r: Result<
    WavPlan,
    String,
>)
    ensures
        ({
            let windows = platform is Windows;
            let as_is = is_wav(path@, windows) || (opus_native && extension_of(path@, windows)
                == "opus"@);
            &&& as_is && is_file ==> r == Ok::<WavPlan, String>(WavPlan::AsIs)
            &&& as_is && !is_file ==> text::fails(r, "找不到音频文件："@ + path@)
            &&& !as_is ==> r == Ok::<WavPlan, String>(WavPlan::Convert)
        }),
{
    let extension: String = audio_extension(path, platform);
    let e: &str = extension.as_str();
    if text::same(e, "wav") || text::same(e, "wave") || (opus_native && text::same(e, "opus")) {
        check_source(path, is_file)?;
        Ok(WavPlan::AsIs)
    } else {
        Ok(WavPlan::Convert)
    }
}

/// The name of the directory of a conversion.
pub fn conversion_dir_name(process_id: u64, millis: u64) -> (r: String)
    ensures
        r@ == "lumen-audio-"@ + text::decimal(process_id as nat) + "-"@ + text::decimal(
            millis as nat,
        ),
{
    let head: String = text::glue3(
        "lumen-audio-",
        text::decimal_text(process_id).as_str(),
        "-",
    );
    text::glue(head.as_str(), text::decimal_text(millis).as_str())
}

// ---------------------------------------------------------------------------
// Laws of audio files
// ---------------------------------------------------------------------------

/// A meeting can be made of these kinds of audio and of no others.
pub proof fn importable_audio_has_its_extension(extension: Seq<char>)
    ensures
        is_import_extension("wav"@),
        is_import_extension("wave"@),
        is_import_extension("mp3"@),
        is_import_extension("m4a"@),
        is_import_extension("mp4"@),
        is_import_extension("opus"@),
        is_import_extension("ogg"@),
        !is_import_extension("flac"@),
        !is_import_extension("txt"@),
        !is_import_extension(Seq::empty()),
{
    reveal_strlit("wav");
    reveal_strlit("wave");
    reveal_strlit("mp3");
    reveal_strlit("m4a");
    reveal_strlit("mp4");
    reveal_strlit("opus");
    reveal_strlit("ogg");
    reveal_strlit("flac");
    reveal_strlit("txt");
    assert("wav"@.len() == 3 && "wav"@[0] == 'w' && "wav"@[1] == 'a' && "wav"@[2] == 'v');
    assert("wave"@.len() == 4 && "wave"@[0] == 'w' && "wave"@[1] == 'a' && "wave"@[2] == 'v'
        && "wave"@[3] == 'e');
    assert("mp3"@.len() == 3 && "mp3"@[0] == 'm' && "mp3"@[1] == 'p' && "mp3"@[2] == '3');
    assert("m4a"@.len() == 3 && "m4a"@[0] == 'm' && "m4a"@[1] == '4' && "m4a"@[2] == 'a');
    assert("mp4"@.len() == 3 && "mp4"@[0] == 'm' && "mp4"@[1] == 'p' && "mp4"@[2] == '4');
    assert("opus"@.len() == 4 && "opus"@[0] == 'o' && "opus"@[1] == 'p' && "opus"@[2] == 'u'
        && "opus"@[3] == 's');
    assert("ogg"@.len() == 3 && "ogg"@[0] == 'o' && "ogg"@[1] == 'g' && "ogg"@[2] == 'g');
    assert("flac"@.len() == 4 && "flac"@[0] == 'f' && "flac"@[1] == 'l' && "flac"@[2] == 'a'
        && "flac"@[3] == 'c');
    assert("txt"@.len() == 3 && "txt"@[0] == 't' && "txt"@[1] == 'x' && "txt"@[2] == 't');
}

/// A file's extension counts in any case, and only wav files are wav.
pub proof fn extension_counts_in_any_case(
    before: Seq<char>,
    stem: Seq<char>,
    extension: Seq<char>,
    windows: bool,
)
    requires
        paths::is_directory_part(before, windows),
        paths::is_file_name(stem + seq!['.'] + extension, windows),
        stem.len() > 0,
        forall|i: int| 0 <= i < extension.len() ==> #[trigger] extension[i] != '.',
    ensures
        extension_of(before + (stem + seq!['.'] + extension), windows) == text::lower(extension),
        is_wav(before + (stem + seq!['.'] + extension), windows) <==> text::lower(extension)
            == "wav"@ || text::lower(extension) == "wave"@,
{
    paths::name_is_stem_and_extension(before, stem, extension, windows);
}

/// Speech is made at 16 kHz with one channel, and each export by its own encoder.
pub proof fn targets_are_made_by_their_options()
    ensures
        AudioTarget::Wav.options() == seq!["-ac"@, "1"@, "-ar"@, "16000"@, "-c:a"@, "pcm_s16le"@],
        AudioTarget::Mp3.options() == seq!["-vn"@, "-c:a"@, "libmp3lame"@, "-q:a"@, "2"@],
        AudioTarget::Ogg.options() == seq!["-vn"@, "-c:a"@, "libvorbis"@, "-q:a"@, "4"@],
{
}

/// A conversion succeeds where it ends well and its file is there; why it failed is told,
/// by the target and the file.
pub proof fn conversion_tells_why_it_failed(src: Seq<char>, target: AudioTarget, error: String)
    ensures
        conversion_error(
            src,
            target,
            ConversionEvent::Ended { success: true, output_is_file: true },
        ) is None,
        conversion_error(
            src,
            target,
            ConversionEvent::Ended { success: true, output_is_file: false },
        ) == Some(target.missing()),
        conversion_error(
            src,
            target,
            ConversionEvent::Ended { success: false, output_is_file: true },
        ) == Some(target.failed() + src),
        conversion_error(
            src,
            target,
            ConversionEvent::Ended { success: false, output_is_file: false },
        ) == Some(target.failed() + src),
        conversion_error(src, target, ConversionEvent::NotStarted(error)) == Some(
            "无法启动 ffmpeg（"@ + error@ + target.advice(),
        ),
        AudioTarget::Wav.advice() == "）。请安装 ffmpeg 后再导入 m4a/mp3/mp4。"@,
        AudioTarget::Mp3.advice() == "）。导出 MP3 需要安装 ffmpeg。"@,
        AudioTarget::Ogg.advice() == "）。导出 OGG 需要安装 ffmpeg。"@,
        AudioTarget::Wav.failed() == "ffmpeg 转换失败："@,
        AudioTarget::Mp3.failed() == "ffmpeg 导出 MP3 失败："@,
        AudioTarget::Ogg.failed() == "ffmpeg 导出 OGG 失败："@,
        AudioTarget::Wav.missing() == "ffmpeg 没有生成 wav 文件"@,
        AudioTarget::Mp3.missing() == "ffmpeg 没有生成 mp3 文件"@,
        AudioTarget::Ogg.missing() == "ffmpeg 没有生成 ogg 文件"@,
{
}

} // verus!
