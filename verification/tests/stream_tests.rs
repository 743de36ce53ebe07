use yt_dlp_downloader::stream::{ErrorLog, LineAssembler};

fn read_all(chunks: &[&str]) -> Vec<String> {
    let mut a = LineAssembler::new();
    let mut out = Vec::new();
    for c in chunks {
        out.extend(a.feed(c));
    }
    out.extend(a.finish());
    out
}

#[test]
fn lines_split_at_newline_and_carriage_return() {
    assert_eq!(
        read_all(&["a\nb\rc\r\n\nd"]),
        vec!["a", "b", "c", "d"]
    );
}

#[test]
fn chunk_boundaries_do_not_matter() {
    let whole = "[download]  1.0%\r[download]  2.0%\n\nframe=1 size=1KiB time=00:00:01\n";
    let expected = read_all(&[whole]);
    for cut in 0..whole.len() {
        if !whole.is_char_boundary(cut) {
            continue;
        }
        let (a, b) = whole.split_at(cut);
        assert_eq!(read_all(&[a, b]), expected, "cut at {}", cut);
    }
    assert_eq!(expected.len(), 3);
}

#[test]
fn pending_text_is_flushed_at_the_end() {
    let mut a = LineAssembler::new();
    assert!(a.feed("partial").is_empty());
    assert_eq!(a.feed(" line\nnext"), vec!["partial line"]);
    assert_eq!(a.finish(), Some("next".to_string()));
    assert_eq!(LineAssembler::new().finish(), None);
}

#[test]
fn error_log_keeps_non_blank_lines() {
    let mut log = ErrorLog::new();
    assert!(!log.add("WARNING: slow"));
    assert!(!log.add("   "));
    assert!(!log.add(""));
    assert!(log.add("[download] Skipping fragment 3"));
    assert_eq!(log.text(), "WARNING: slow\n[download] Skipping fragment 3\n");
}

#[test]
fn raw_chunks_are_decoded_before_splitting() {
    let mut a = LineAssembler::new();
    assert_eq!(a.feed_bytes(b"ok\n\xff\r"), vec!["ok".to_string(), "\u{FFFD}".to_string()]);
    assert_eq!(a.feed_bytes("가\n".as_bytes()), vec!["가".to_string()]);
}
