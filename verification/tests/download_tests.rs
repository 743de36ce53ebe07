use yt_dlp_downloader::download::{
    cancel_target, detect_ffmpeg_dir, detect_node_runtime, download_args, download_outcome,
    ffmpeg_dir_from_probes, node_candidates,
    fatal_error_lines, file_kind, folder_name, new_entries, output_template, DownloadMode,
    FileKind, FolderScan, ProgressReader, DOWNLOAD_DONE, DOWNLOAD_FAILED, NO_DOWNLOAD_RUNNING,
    RECORDING_DONE, SUBTITLES_FAILED,
};

#[test]
fn mode_names() {
    assert_eq!(DownloadMode::from_name("audio_wav"), Ok(DownloadMode::AudioWav));
    assert_eq!(DownloadMode::from_name("video_1080"), Ok(DownloadMode::Video1080));
    assert_eq!(DownloadMode::from_name("live_now"), Ok(DownloadMode::LiveNow));
    assert_eq!(
        DownloadMode::from_name("podcast"),
        Err("알 수 없는 모드: podcast".to_string())
    );
    assert!(DownloadMode::from_name("Audio_wav").is_err());
}

#[test]
fn mode_classes() {
    assert!(DownloadMode::LiveFromStart.is_live());
    assert!(!DownloadMode::VideoBest.is_live());
    assert!(DownloadMode::LiveNow.is_video());
    assert!(!DownloadMode::SubOnly.is_video());
    assert!(!DownloadMode::AudioMp3.is_video());
    assert!(DownloadMode::VideoHardsub.has_subtitles());
    assert!(!DownloadMode::Video1080.has_subtitles());
}

#[test]
fn folder_names_lose_reserved_characters() {
    assert_eq!(folder_name(Some("a/b\\c:d*e?f\"g<h>i|j")), "abcdefghij");
    assert_eq!(folder_name(Some("내 영상: 1편")), "내 영상 1편");
    assert_eq!(folder_name(Some("???")), "");
    assert_eq!(folder_name(None), "");
}

#[test]
fn output_templates() {
    assert_eq!(output_template("/out", ""), "/out/%(title)s/%(title)s.%(ext)s");
    assert_eq!(output_template("/out", "clip"), "/out/clip/clip.%(ext)s");
}

fn strs(v: &[&str]) -> Vec<String> {
    v.iter().map(|s| s.to_string()).collect()
}

#[test]
fn audio_download_command_line() {
    let args = download_args("https://y/1", DownloadMode::AudioMp3, None, "/out", None, None);
    assert_eq!(
        args,
        strs(&[
            "https://y/1", "-x", "--audio-format", "mp3", "--audio-quality", "0", "-o",
            "/out/%(title)s/%(title)s.%(ext)s", "--newline", "--no-colors", "--extractor-args",
            "youtube:player_client=ios,android,web", "--retries", "2", "--extractor-retries", "1",
            "--sleep-requests", "1.5", "--sleep-subtitles", "3",
        ])
    );
}

#[test]
fn subtitle_download_command_line_with_tools() {
    let args = download_args(
        "u",
        DownloadMode::VideoSub,
        Some("my:clip"),
        "/o",
        Some("/usr/local/bin/node"),
        Some("/opt/homebrew/bin"),
    );
    assert_eq!(
        args,
        strs(&[
            "u", "--write-subs", "--write-auto-subs", "--sub-langs", "ko,en", "-f",
            "bestvideo+bestaudio/best", "--merge-output-format", "mp4", "-o",
            "/o/myclip/myclip.%(ext)s", "--newline", "--no-colors", "--extractor-args",
            "youtube:player_client=ios,android,web", "--retries", "2", "--extractor-retries", "1",
            "--sleep-requests", "1.5", "--sleep-subtitles", "3", "--ignore-errors",
            "--js-runtimes", "nodejs:/usr/local/bin/node", "--ffmpeg-location", "/opt/homebrew/bin",
        ])
    );
}

#[test]
fn live_command_line_options() {
    let args = download_args("u", DownloadMode::LiveFromStart, None, "/o", None, None);
    assert_eq!(
        args[1..11].to_vec(),
        strs(&[
            "-f", "bv*+ba/b", "--live-from-start", "--hls-use-mpegts", "--wait-for-video", "30",
            "--fragment-retries", "20", "--merge-output-format", "mp4",
        ])
    );
    assert!(!args.contains(&"--ignore-errors".to_string()));
}

#[test]
fn tool_detection_returns_known_places() {
    if let Some(p) = detect_node_runtime() {
        assert!(p == "/opt/homebrew/bin/node" || p == "/usr/local/bin/node");
    }
    if let Some(d) = detect_ffmpeg_dir() {
        assert!(d == "/opt/homebrew/bin" || d == "/usr/local/bin");
    }
    assert_eq!(ffmpeg_dir_from_probes(&vec![true, true]), Some("/opt/homebrew/bin".to_string()));
    assert_eq!(ffmpeg_dir_from_probes(&vec![false, true]), Some("/usr/local/bin".to_string()));
    assert_eq!(ffmpeg_dir_from_probes(&vec![false, false]), None);
    assert_eq!(
        node_candidates(),
        vec!["/opt/homebrew/bin/node".to_string(), "/usr/local/bin/node".to_string()]
    );
}

#[test]
fn percent_lines() {
    let r = ProgressReader::new().unwrap();
    assert_eq!(
        r.percent_text("[download]  12.3% of 10.00MiB at 1.00MiB/s ETA 00:09"),
        Some("12.3".to_string())
    );
    assert_eq!(r.percent_text("[download] 100% of 3.2MiB"), Some("100".to_string()));
    assert_eq!(r.percent_text("[youtube] abc: Downloading webpage"), None);
}

#[test]
fn live_status_lines() {
    let r = ProgressReader::new().unwrap();
    assert_eq!(
        r.live_status("[download] 1.03GiB at 584KB/s (frag 3062/3062)", 0),
        Some("녹화 중 · 3062 조각 · 1.03GiB".to_string())
    );
    assert_eq!(
        r.live_status("[download] 1.03GiB at 584KB/s (frag 3062/3062)", 2),
        Some("녹화 중 · 3062 조각 · 1.03GiB · 누락 2".to_string())
    );
    assert_eq!(
        r.live_status("frame=  100 fps= 30 q=-1.0 size=    1024KiB time=00:00:03.33 bitrate=1.0", 0),
        Some("녹화 중 · 1024KiB · 영상 00:00:03.33".to_string())
    );
    assert_eq!(
        r.live_status("[download] 8.50MiB at 1.20MiB/s (00:00:05)", 11),
        Some("녹화 중 · 8.50MiB · 누락 11".to_string())
    );
    assert_eq!(r.live_status("[info] Writing metadata", 0), None);
    assert!(r.is_skip_notice("[download] fragment not found; Skipping fragment 12 ..."));
    assert!(!r.is_skip_notice("[download] 8.50MiB at 1.20MiB/s"));
}

#[test]
fn fatal_lines_are_error_lines() {
    assert_eq!(
        fatal_error_lines("WARNING: a\n  ERROR: b\nERROR c\nERROR: d\n"),
        vec!["  ERROR: b".to_string(), "ERROR: d".to_string()]
    );
}

#[test]
fn warnings_only_is_a_success() {
    assert_eq!(
        download_outcome(DownloadMode::VideoBest, "WARNING: slow\n", false, false, 0),
        Ok(DOWNLOAD_DONE.to_string())
    );
    assert_eq!(download_outcome(DownloadMode::AudioWav, "", false, false, 0), Ok("다운로드 완료!".to_string()));
}

#[test]
fn subtitles_only_needs_a_subtitle_file() {
    assert_eq!(
        download_outcome(DownloadMode::SubOnly, "", false, false, 0),
        Err(SUBTITLES_FAILED.to_string())
    );
    assert_eq!(
        download_outcome(
            DownloadMode::SubOnly,
            "ERROR: Unable to download video subtitles for 'ko': HTTP Error 429\n",
            true,
            false,
            0
        ),
        Ok(DOWNLOAD_DONE.to_string())
    );
    assert_eq!(
        download_outcome(DownloadMode::SubOnly, "ERROR: Private video\n", false, false, 0),
        Err("ERROR: Private video".to_string())
    );
}

#[test]
fn first_error_line_is_reported() {
    assert_eq!(
        download_outcome(
            DownloadMode::AudioMp3,
            "WARNING: a\nERROR: Video unavailable\nERROR: second\n",
            false,
            false,
            0
        ),
        Err("ERROR: Video unavailable".to_string())
    );
    assert_eq!(
        download_outcome(DownloadMode::AudioMp3, "  ERROR: spaced\n", false, false, 0),
        Err("  ERROR: spaced".to_string())
    );
}

#[test]
fn video_modes_excuse_errors() {
    assert_eq!(
        download_outcome(DownloadMode::VideoBest, "ERROR: something\n", false, true, 0),
        Ok(DOWNLOAD_DONE.to_string())
    );
    assert_eq!(
        download_outcome(
            DownloadMode::VideoSub,
            "ERROR: No subtitles for ko\n",
            false,
            false,
            0
        ),
        Ok(DOWNLOAD_DONE.to_string())
    );
    assert_eq!(
        download_outcome(DownloadMode::AudioWav, "ERROR: No subtitles\n", false, true, 0),
        Err("ERROR: No subtitles".to_string())
    );
}

#[test]
fn live_recordings() {
    assert_eq!(
        download_outcome(DownloadMode::LiveNow, "ERROR: fragment 3 not found\n", false, false, 3),
        Ok("녹화 완료 · 조각 3 개 누락 (영상 갭 약 6초)".to_string())
    );
    assert_eq!(
        download_outcome(DownloadMode::LiveNow, "", false, false, 0),
        Ok(RECORDING_DONE.to_string())
    );
    assert_eq!(
        download_outcome(
            DownloadMode::LiveFromStart,
            "ERROR: [youtube] This live event has ended\n",
            false,
            false,
            0
        ),
        Err("ERROR: [youtube] This live event has ended".to_string())
    );
    assert_eq!(DOWNLOAD_FAILED, "다운로드 중 오류가 발생했습니다.");
}

#[test]
fn file_kinds() {
    assert_eq!(file_kind("vtt"), FileKind::Subtitles);
    for e in ["mp4", "mkv", "webm", "mov", "ts"] {
        assert_eq!(file_kind(e), FileKind::Video);
    }
    assert_eq!(file_kind("srt"), FileKind::Other);
    assert_eq!(file_kind("MP4"), FileKind::Other);
}

#[test]
fn folder_scan() {
    let mut s = FolderScan::new();
    assert!(!s.note_file(false, Some("vtt")));
    assert!(!s.vtt_found);
    assert!(!s.note_file(true, Some("webm")));
    assert!(s.video_found);
    assert!(s.note_file(true, Some("vtt")));
    assert!(s.vtt_found);
    assert!(!s.note_file(true, None));
}

#[test]
fn new_folder_entries() {
    let before = vec![b"/o/a".to_vec(), b"/o/b".to_vec()];
    let after = vec![b"/o/a".to_vec(), b"/o/c".to_vec(), b"/o/b".to_vec(), b"/o/d".to_vec()];
    assert_eq!(new_entries(&before, &after), vec![1, 3]);
    assert_eq!(new_entries(&after, &before), Vec::<usize>::new());
}

#[test]
fn cancelling() {
    assert_eq!(cancel_target(Some(42)), Ok(42));
    assert_eq!(cancel_target(None), Err(NO_DOWNLOAD_RUNNING.to_string()));
}
