use yt_dlp_downloader::vtt::{vtt_text_lines, vtt_to_text};

const SAMPLE: &str = "WEBVTT\nKind: captions\nLanguage: ko\n\nNOTE\nThis is a comment\nstill comment\n\n1\n00:00:01.000 --> 00:00:03.000 align:start position:0%\n<c>Hello</c> world\n\n00:00:03.000 --> 00:00:05.000\nHello world\nSecond line\n";

#[test]
fn vtt_sample_becomes_plain_text() {
    assert_eq!(vtt_to_text(SAMPLE).unwrap(), "Hello world\nSecond line");
}

#[test]
fn vtt_repeated_caption_lines_are_kept_once() {
    let doc = "WEBVTT\n\n00:00:00.000 --> 00:00:01.000\nsame\n\n00:00:01.000 --> 00:00:02.000\nsame\nother\n\n00:00:02.000 --> 00:00:03.000\nsame\n";
    assert_eq!(vtt_to_text(doc).unwrap(), "same\nother\nsame");
}

#[test]
fn vtt_tags_and_cue_numbers_are_dropped() {
    let doc = "WEBVTT\r\n\r\n12\r\n00:00:00.000 --> 00:00:01.000\r\n<00:00:00.500><c> 안녕</c><c> 하세요</c>\r\n<i></i>\r\n";
    assert_eq!(vtt_to_text(doc).unwrap(), "안녕 하세요");
}

#[test]
fn vtt_note_block_ends_at_blank_line() {
    let doc = "NOTE first\ncomment\n\nkept\nNOTE\nhidden\n";
    assert_eq!(vtt_to_text(doc).unwrap(), "kept");
}

#[test]
fn vtt_empty_document() {
    assert_eq!(vtt_to_text("").unwrap(), "");
    assert!(vtt_text_lines("WEBVTT\n\n").is_empty());
}

#[test]
fn vtt_kept_lines_are_trimmed_and_not_repeated() {
    let lines = vtt_text_lines(SAMPLE);
    for (i, l) in lines.iter().enumerate() {
        assert!(!l.is_empty());
        assert_eq!(l.trim(), l);
        if i + 1 < lines.len() {
            assert_ne!(l, &lines[i + 1]);
        }
    }
}

#[test]
fn vtt_inserted_cue_markers_change_nothing() {
    let plain = "WEBVTT\n\nsame\nsame\nother\n";
    let marked = "WEBVTT\n\n7\nsame\n00:00:01.000 --> 00:00:02.000\nsame\nother\n42\n";
    assert_eq!(vtt_to_text(plain).unwrap(), "same\nother");
    assert_eq!(vtt_to_text(marked).unwrap(), vtt_to_text(plain).unwrap());
}
