use lumen_asr_desktop::audio_convert::{
    audio_extension, check_source, conversion_dir_name, copy_or_convert_to_wav, ensure_wav,
    ffmpeg_args, is_importable_meeting_audio, settle_conversion, AudioTarget, ConversionEvent,
    ImportPlan, WavPlan,
};
use lumen_asr_desktop::platform::Platform;

#[test]
fn importable_extensions() {
    assert!(is_importable_meeting_audio("talk.m4a", Platform::MacOs));
    assert!(is_importable_meeting_audio("talk.MP3", Platform::MacOs));
    assert!(is_importable_meeting_audio("talk.wav", Platform::MacOs));
    assert!(is_importable_meeting_audio("talk.mp4", Platform::MacOs));
    assert!(is_importable_meeting_audio("talk.opus", Platform::MacOs));
    assert!(is_importable_meeting_audio("talk.OGG", Platform::MacOs));
    assert!(!is_importable_meeting_audio("talk.txt", Platform::MacOs));
    assert!(!is_importable_meeting_audio("talk", Platform::MacOs));
}

#[test]
fn convert_missing_file_fails() {
    let err = check_source("/path/that/does/not/exist.wav", false).unwrap_err();
    assert!(err.contains("找不到音频文件"));
    assert!(check_source("/there.wav", true).is_ok());
}

#[test]
fn wav_is_copied_and_the_rest_converted() {
    assert_eq!(copy_or_convert_to_wav("/a/b.WAV", Platform::MacOs), ImportPlan::Copy);
    assert_eq!(copy_or_convert_to_wav("/a/b.mp3", Platform::MacOs), ImportPlan::Convert);
    assert_eq!(audio_extension("/a/b.MP3", Platform::MacOs), "mp3");
    assert_eq!(audio_extension("/a/b", Platform::MacOs), "");
    assert_eq!(audio_extension("C:\\a.b\\talk", Platform::Windows), "");
    assert_eq!(audio_extension("C:\\a.b\\talk.WAV", Platform::Windows), "wav");
    assert_eq!(
        copy_or_convert_to_wav("\\\\nas\\music\\talk.wave", Platform::Windows),
        ImportPlan::Copy
    );
}

#[test]
fn ffmpeg_is_told_what_to_make() {
    assert_eq!(
        ffmpeg_args("in.m4a", "out.wav", AudioTarget::Wav),
        ["-y", "-i", "in.m4a", "-ac", "1", "-ar", "16000", "-c:a", "pcm_s16le", "out.wav"]
    );
    assert_eq!(
        ffmpeg_args("in.wav", "out.mp3", AudioTarget::Mp3),
        ["-y", "-i", "in.wav", "-vn", "-c:a", "libmp3lame", "-q:a", "2", "out.mp3"]
    );
    assert_eq!(
        ffmpeg_args("in.wav", "out.ogg", AudioTarget::Ogg),
        ["-y", "-i", "in.wav", "-vn", "-c:a", "libvorbis", "-q:a", "4", "out.ogg"]
    );
}

#[test]
fn a_conversion_counts_once_its_file_is_there() {
    let ended = |success, output_is_file| ConversionEvent::Ended { success, output_is_file };
    assert!(settle_conversion("a.m4a", AudioTarget::Wav, ended(true, true)).is_ok());
    assert_eq!(
        settle_conversion("a.m4a", AudioTarget::Mp3, ended(false, true)).unwrap_err(),
        "ffmpeg 导出 MP3 失败：a.m4a"
    );
    assert_eq!(
        settle_conversion("a.m4a", AudioTarget::Ogg, ended(true, false)).unwrap_err(),
        "ffmpeg 没有生成 ogg 文件"
    );
    assert_eq!(
        settle_conversion("a.m4a", AudioTarget::Wav, ConversionEvent::NotStarted("no".into()))
            .unwrap_err(),
        "无法启动 ffmpeg（no）。请安装 ffmpeg 后再导入 m4a/mp3/mp4。"
    );
}

#[test]
fn the_pipeline_reads_wav_and_where_it_can_opus() {
    assert_eq!(ensure_wav("a.wav", false, true, Platform::MacOs), Ok(WavPlan::AsIs));
    assert_eq!(ensure_wav("a.opus", true, true, Platform::MacOs), Ok(WavPlan::AsIs));
    assert_eq!(ensure_wav("a.opus", false, true, Platform::MacOs), Ok(WavPlan::Convert));
    assert_eq!(ensure_wav("a.wav", false, false, Platform::MacOs), Err("找不到音频文件：a.wav".to_string()));
    assert_eq!(conversion_dir_name(7, 1234), "lumen-audio-7-1234");
}
