use yt_dlp_downloader::settings::{
    download_dir_choice, saved_output_dir, saved_output_member, settings_json, DEFAULT_DOWNLOAD_DIR,
};

#[test]
fn saved_folder_reads_back() {
    let d = "/tmp";
    let text = settings_json(d).unwrap();
    assert_eq!(text, format!("{{\n  \"output_dir\": {}\n}}", serde_json::to_string(d).unwrap()));
    assert_eq!(saved_output_dir(&text), Some(d.to_string()));
}

#[test]
fn saved_folder_needs_to_exist_and_be_a_string() {
    assert_eq!(saved_output_dir("{\"output_dir\": \"/no/such/folder/here\"}"), None);
    assert_eq!(saved_output_dir("{\"output_dir\": 3}"), None);
    assert_eq!(saved_output_dir("not json"), None);
    assert_eq!(saved_output_dir("{}"), None);
    assert_eq!(saved_output_dir("[\"/tmp\"]"), None);
    assert_eq!(saved_output_dir("{\"output_dir\": \"/\"}"), Some("/".to_string()));
}

#[test]
fn special_characters_survive_saving() {
    let text = settings_json("C:\\a \"b\"").unwrap();
    assert_eq!(text, "{\n  \"output_dir\": \"C:\\\\a \\\"b\\\"\"\n}");
    assert!(DEFAULT_DOWNLOAD_DIR.ends_with("00_유튜브_영상_다운로드"));
}

#[test]
fn saved_member_and_fallback() {
    assert_eq!(
        saved_output_member("{\"output_dir\": \"/no/such/folder/here\"}"),
        Some("/no/such/folder/here".to_string())
    );
    assert_eq!(saved_output_member("{\"output_dir\": 3}"), None);
    assert_eq!(saved_output_member("not json"), None);
    assert_eq!(download_dir_choice(Some("/saved"), true), Some("/saved".to_string()));
    assert_eq!(download_dir_choice(Some("/saved"), false), None);
    assert_eq!(download_dir_choice(None, true), None);
}
