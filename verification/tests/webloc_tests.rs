use yt_dlp_downloader::webloc::{link_files_to_write, webloc_content, LINK_TEXT_FILE_NAME, WEBLOC_FILE_NAME};

#[test]
fn webloc_document() {
    assert_eq!(
        webloc_content("https://youtu.be/x"),
        "<?xml version=\"1.0\" encoding=\"UTF-8\"?>\n<!DOCTYPE plist PUBLIC \"-//Apple//DTD PLIST 1.0//EN\" \"http://www.apple.com/DTDs/PropertyList-1.0.dtd\">\n<plist version=\"1.0\">\n<dict>\n    <key>URL</key>\n    <string>https://youtu.be/x</string>\n</dict>\n</plist>\n"
    );
    assert_eq!(WEBLOC_FILE_NAME, "원본 링크.webloc");
    assert_eq!(LINK_TEXT_FILE_NAME, "원본 링크.txt");
}

#[test]
fn link_files_are_written_once() {
    let w = link_files_to_write(false, false);
    assert!(w.webloc && w.text);
    let w = link_files_to_write(false, true);
    assert!(w.webloc && !w.text);
    let w = link_files_to_write(true, false);
    assert!(!w.webloc && !w.text);
}

#[test]
fn second_link_write_changes_nothing() {
    let (mut webloc, mut text) = (false, true);
    let first = link_files_to_write(webloc, text);
    webloc |= first.webloc;
    text |= first.text;
    let second = link_files_to_write(webloc, text);
    assert!(webloc && text && !second.webloc && !second.text);
}
