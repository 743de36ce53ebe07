use yt_dlp_downloader::tools::{
    check_whisper, ffmpeg_candidates, ffmpeg_from_probes, find_ffmpeg, find_ffprobe,
    find_whisper_model, ffprobe_args, model_candidates, model_from_probes, pick_first_present,
    probe_paths, title_from_output, trimmed_stdout, whisper_cli_from_which, whisper_cli_location,
    ytdlp_from_which, ytdlp_location, CommandOutput, FFMPEG_MISSING, MODEL_MISSING,
    WHISPER_CLI_MISSING, YTDLP_MISSING,
};

fn out(success: bool, stdout: &[u8], stderr: &[u8]) -> CommandOutput {
    CommandOutput { success, stdout: stdout.to_vec(), stderr: stderr.to_vec() }
}

#[test]
fn find_ffmpeg_returns_a_known_place_or_the_message() {
    match find_ffmpeg() {
        Ok(p) => assert!(p == "/opt/homebrew/bin/ffmpeg" || p == "/usr/local/bin/ffmpeg"),
        Err(e) => assert_eq!(e, "ffmpeg가 설치되어 있지 않습니다."),
    }
    assert_eq!(FFMPEG_MISSING, "ffmpeg가 설치되어 있지 않습니다.");
    if let Some(p) = find_ffprobe() {
        assert!(p.ends_with("/bin/ffprobe"));
    }
}

#[test]
fn which_answers() {
    assert_eq!(
        ytdlp_from_which(Some(&out(true, b"/home/me/bin/yt-dlp\n", b""))),
        Ok("/home/me/bin/yt-dlp".to_string())
    );
    assert_eq!(ytdlp_from_which(Some(&out(true, b"", b""))), Ok(String::new()));
    assert_eq!(ytdlp_from_which(Some(&out(false, b"x", b""))), Err(YTDLP_MISSING.to_string()));
    assert_eq!(ytdlp_from_which(None), Err(YTDLP_MISSING.to_string()));
    assert_eq!(
        whisper_cli_from_which(Some(&out(true, b" /x/whisper-cli \n", b""))),
        Ok("/x/whisper-cli".to_string())
    );
    assert_eq!(
        whisper_cli_from_which(Some(&out(true, b"  \n", b""))),
        Err(WHISPER_CLI_MISSING.to_string())
    );
    assert_eq!(whisper_cli_from_which(None), Err(WHISPER_CLI_MISSING.to_string()));
}

#[test]
fn command_output_text() {
    assert_eq!(trimmed_stdout(&out(true, b"2024.08.06\n", b"")), "2024.08.06");
    assert_eq!(
        title_from_output(&out(true, "제목 \n".as_bytes(), b"")),
        Ok("제목".to_string())
    );
    assert_eq!(
        title_from_output(&out(false, b"", b"ERROR: no such video\n")),
        Err("ERROR: no such video".to_string())
    );
    assert_eq!(
        title_from_output(&out(true, b" a\xffb\n", b"")),
        Ok("a\u{FFFD}b".to_string())
    );
}

#[test]
fn model_search() {
    assert_eq!(
        model_candidates("/home/u"),
        vec![
            "/home/u/whisper-models/ggml-large-v3.bin".to_string(),
            "/home/u/whisper-models/ggml-large-v3-turbo.bin".to_string(),
            "/opt/homebrew/share/whisper-cpp/models/ggml-large-v3.bin".to_string(),
            "/home/u/.cache/whisper/ggml-large-v3.bin".to_string(),
        ]
    );
    assert_eq!(
        find_whisper_model("/nonexistent-home"),
        Err(MODEL_MISSING.to_string())
    );
}

#[test]
fn whisper_check_reports_each_lookup() {
    let missing = |m: &str| Err::<String, String>(m.to_string());
    let none = check_whisper(
        &missing(WHISPER_CLI_MISSING),
        &missing(MODEL_MISSING),
        &missing(FFMPEG_MISSING),
    );
    assert!(!none.whisper && !none.model && !none.ffmpeg && none.model_path.is_empty());
    let all = check_whisper(
        &Ok("/opt/homebrew/bin/whisper-cli".to_string()),
        &Ok("/h/whisper-models/ggml-large-v3.bin".to_string()),
        &Ok("/usr/local/bin/ffmpeg".to_string()),
    );
    assert!(all.whisper && all.model && all.ffmpeg);
    assert_eq!(all.model_path, "/h/whisper-models/ggml-large-v3.bin");
    let partly = check_whisper(
        &missing(WHISPER_CLI_MISSING),
        &Ok("/m.bin".to_string()),
        &Ok("/usr/local/bin/ffmpeg".to_string()),
    );
    assert!(!partly.whisper && partly.model && partly.ffmpeg);
}

#[test]
fn ffmpeg_lookup_takes_the_first_present_place() {
    assert_eq!(ffmpeg_from_probes(&vec![true, true]), Ok("/opt/homebrew/bin/ffmpeg".to_string()));
    assert_eq!(ffmpeg_from_probes(&vec![true, false]), Ok("/opt/homebrew/bin/ffmpeg".to_string()));
    assert_eq!(ffmpeg_from_probes(&vec![false, true]), Ok("/usr/local/bin/ffmpeg".to_string()));
    assert_eq!(ffmpeg_from_probes(&vec![false, false]), Err(FFMPEG_MISSING.to_string()));
    let present = probe_paths(&ffmpeg_candidates());
    assert_eq!(find_ffmpeg(), ffmpeg_from_probes(&present));
}

#[test]
fn model_lookup_prefers_large_v3() {
    let h = "/h";
    assert_eq!(
        model_from_probes(h, &vec![true, true, true, true]),
        Ok("/h/whisper-models/ggml-large-v3.bin".to_string())
    );
    assert_eq!(
        model_from_probes(h, &vec![false, true, true, false]),
        Ok("/h/whisper-models/ggml-large-v3-turbo.bin".to_string())
    );
    assert_eq!(
        model_from_probes(h, &vec![false, false, true, true]),
        Ok("/opt/homebrew/share/whisper-cpp/models/ggml-large-v3.bin".to_string())
    );
    assert_eq!(
        model_from_probes(h, &vec![false, false, false, true]),
        Ok("/h/.cache/whisper/ggml-large-v3.bin".to_string())
    );
    assert_eq!(model_from_probes(h, &vec![false; 4]), Err(MODEL_MISSING.to_string()));
}

#[test]
fn first_present_candidate() {
    let c = vec!["a".to_string(), "b".to_string(), "c".to_string()];
    assert_eq!(pick_first_present(&c, &vec![false, true, true]), Some("b".to_string()));
    assert_eq!(pick_first_present(&c, &vec![true, false, true]), Some("a".to_string()));
    assert_eq!(pick_first_present(&c, &vec![false, false, false]), None);
    assert_eq!(probe_paths(&vec!["/".to_string(), "/no/such/path/here".to_string()]), vec![true, false]);
}

#[test]
fn installed_places_come_before_which() {
    let which = out(true, b"/elsewhere/yt-dlp\n", b"");
    assert_eq!(
        ytdlp_location(&vec![true, true], Some(&which)),
        Ok("/opt/homebrew/bin/yt-dlp".to_string())
    );
    assert_eq!(
        ytdlp_location(&vec![false, true], Some(&which)),
        Ok("/usr/local/bin/yt-dlp".to_string())
    );
    assert_eq!(
        ytdlp_location(&vec![false, false], Some(&which)),
        Ok("/elsewhere/yt-dlp".to_string())
    );
    assert_eq!(ytdlp_location(&vec![false, false], None), Err(YTDLP_MISSING.to_string()));
    let which = out(true, b"/elsewhere/whisper-cli\n", b"");
    assert_eq!(
        whisper_cli_location(&vec![true, false], Some(&which)),
        Ok("/opt/homebrew/bin/whisper-cli".to_string())
    );
    assert_eq!(
        whisper_cli_location(&vec![false, true], None),
        Ok("/usr/local/bin/whisper-cli".to_string())
    );
    assert_eq!(
        whisper_cli_location(&vec![false, false], Some(&which)),
        Ok("/elsewhere/whisper-cli".to_string())
    );
    assert_eq!(
        whisper_cli_location(&vec![false, false], Some(&out(true, b"\n", b""))),
        Err(WHISPER_CLI_MISSING.to_string())
    );
}

#[test]
fn ffprobe_command_line() {
    assert_eq!(
        ffprobe_args("/m.mp4"),
        vec![
            "-v", "error", "-show_entries", "format=duration", "-of",
            "default=noprint_wrappers=1:nokey=1", "/m.mp4",
        ]
    );
}
