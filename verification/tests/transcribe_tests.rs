use yt_dlp_downloader::transcribe::{
    caption_status, done_message, extract_args, media_missing_message, progress_status,
    temp_wav_name, transcript_path, whisper_args, whisper_failure_message, WhisperLine,
    WhisperReader, TRANSCRIPTION_FAILED,
};

#[test]
fn file_names_and_messages() {
    assert_eq!(temp_wav_name("talk"), ".talk.whisper.wav");
    assert_eq!(transcript_path("/v/talk"), "/v/talk.txt");
    assert_eq!(done_message("talk"), "자막 생성 완료!\ntalk.txt\ntalk.srt");
    assert_eq!(media_missing_message("/x.mp4"), "파일을 찾을 수 없습니다: /x.mp4");
}

#[test]
fn command_lines() {
    assert_eq!(
        extract_args("/v/a.mp4", "/v/.a.whisper.wav"),
        vec!["-i", "/v/a.mp4", "-vn", "-ar", "16000", "-ac", "1", "-c:a", "pcm_s16le", "-y", "/v/.a.whisper.wav"]
    );
    assert_eq!(
        whisper_args("/m.bin", "ko", "/v/a", "/v/.a.whisper.wav"),
        vec!["-m", "/m.bin", "-l", "ko", "-otxt", "-osrt", "-pp", "-of", "/v/a", "/v/.a.whisper.wav"]
    );
}

#[test]
fn reading_whisper_output() {
    let r = WhisperReader::new().unwrap();
    match r.read("whisper_print_progress_callback: progress = 42%") {
        WhisperLine::Progress { percent } => assert_eq!(percent, "42"),
        _ => panic!("expected progress"),
    }
    match r.read("[00:01:02.000 --> 00:01:04.500]   안녕하세요  ") {
        WhisperLine::Caption { start, shown } => {
            assert_eq!(start, "00:01:02");
            assert_eq!(shown, "[00:01:02] 안녕하세요");
        }
        _ => panic!("expected caption"),
    }
    assert!(matches!(r.read("whisper_init_from_file: loading model"), WhisperLine::Other));
}

#[test]
fn statuses() {
    assert_eq!(progress_status(42, ""), "자막 생성 중 · 42%");
    assert_eq!(progress_status(7, "[00:00:01] 네"), "자막 생성 중 · 7% · [00:00:01] 네");
    assert_eq!(caption_status("[00:00:01] 네"), "자막 생성 중 · [00:00:01] 네");
}

#[test]
fn failure_messages() {
    assert_eq!(
        whisper_failure_message("loading\nFailed: ERROR opening file\nerror 2\n"),
        "Failed: ERROR opening file"
    );
    assert_eq!(whisper_failure_message("all fine\n"), TRANSCRIPTION_FAILED);
    assert_eq!(whisper_failure_message(""), "자막 생성에 실패했습니다.");
}
