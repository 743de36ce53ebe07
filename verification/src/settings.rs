//! The saved download folder, kept as a small JSON settings file.
use vstd::prelude::*;
use crate::text::owned;
use crate::tools::{opt_view, path_exists};

verus! {

/// The folder used when none is saved.
pub const DEFAULT_DOWNLOAD_DIR: &'static str = "/Users/honamgung/Documents/00_유튜브_영상_다운로드";

/// The settings key of the download folder.
pub const OUTPUT_DIR_KEY: &'static str = "output_dir";

/// The string member `key` of the JSON document `document`, as `serde_json` reads
/// it: `None` when the document does not parse, is not an object, has no member
/// `key`, or that member is not a string.
pub uninterp spec fn json_string_member(document: Seq<char>, key: Seq<char>) -> Option<Seq<char>>;

/// The text `serde_json::to_string_pretty` makes of the object `{key: value}`,
/// `None` when it reports an error.
pub uninterp spec fn json_pretty_object(key: Seq<char>, value: Seq<char>) -> Option<Seq<char>>;

/// Parses `document` with `serde_json::from_str` into a `serde_json::Value` and
/// reads its string member `key` with `Value::get` and `Value::as_str`; the contract
/// claims the result is `json_string_member`.
#[verifier::external_body]
fn json_member_text(document: &str, key: &str) -> (r: Option<String>)
    ensures
        match r {
            Some(s) => json_string_member(document@, key@) == Some(s@),
            None => json_string_member(document@, key@) is None,
        },
{
    let value: serde_json::Value = serde_json::from_str(document).ok()?;
    value.get(key)?.as_str().map(|s| s.to_string())
}

/// Builds the object `{key: value}` as a `serde_json::Value` and calls
/// `serde_json::to_string_pretty` on it; the contract claims the result is
/// `json_pretty_object`, and that reading member `key` of the text it wrote gives
/// `value` back (serde_json escapes every string it writes and unescapes it when
/// it parses).
#[verifier::external_body]
fn json_pretty_text(key: &str, value: &str) -> (r: Option<String>)
    ensures
        match r {
            Some(s) => json_pretty_object(key@, value@) == Some(s@),
            None => json_pretty_object(key@, value@) is None,
        },
        r matches Some(s) ==> json_string_member(s@, key@) == Some(value@),
{
    let mut object = serde_json::Map::new();
    object.insert(key.to_string(), serde_json::Value::String(value.to_string()));
    serde_json::to_string_pretty(&serde_json::Value::Object(object)).ok()
}

/// The download folder saved in the settings text `settings`, whether or not it
/// still exists: its string member `output_dir`, if it has one.
pub fn saved_output_member(settings: &str) -> (r: Option<String>)
    ensures
        opt_view(r) == json_string_member(settings@, OUTPUT_DIR_KEY@),
{
    json_member_text(settings, OUTPUT_DIR_KEY)
}

/// The saved folder to download into, given the saved member `member` and whether
/// the folder it names exists: the saved folder when it exists, else nothing (and
/// the default folder is used).
pub open spec fn saved_dir_choice(member: Option<Seq<char>>, member_exists: bool) -> Option<
    Seq<char>,
> {
    match member {
        Some(d) => if member_exists {
            Some(d)
        } else {
            None
        },
        None => None,
    }
}

/// The saved folder to download into, given the saved member and whether the
/// folder it names exists (`member_exists` is not read when nothing is saved).
pub fn download_dir_choice(member: Option<&str>, member_exists: bool) -> (r: Option<String>)
    ensures
        opt_view(r) == saved_dir_choice(
            match member {
                Some(d) => Some(d@),
                None => None,
            },
            member_exists,
        ),
{
    match member {
        Some(d) => if member_exists {
            Some(owned(d))
        } else {
            None
        },
        None => None,
    }
}

/// The saved download folder, read from the settings text `settings`, when the
/// folder it names is found on disk.
pub fn saved_output_dir(settings: &str) -> (r: Option<String>)
    ensures
        exists|member_exists: bool|
            opt_view(r) == #[trigger] saved_dir_choice(
                json_string_member(settings@, OUTPUT_DIR_KEY@),
                member_exists,
            ),
{
    let member = saved_output_member(settings);
    match member {
        Some(dir) => {
            let found = path_exists(dir.as_str());
            let r = download_dir_choice(Some(dir.as_str()), found);
            assert(opt_view(r) == saved_dir_choice(
                json_string_member(settings@, OUTPUT_DIR_KEY@),
                found,
            ));
            r
        },
        None => {
            assert(saved_dir_choice(json_string_member(settings@, OUTPUT_DIR_KEY@), false)
                is None);
            None
        },
    }
}

/// The settings text that saves `dir` as the download folder; the folder read
/// back from that text is `dir`.
pub fn settings_json(dir: &str) -> (r: Option<String>)
    ensures
        match r {
            Some(s) => json_pretty_object(OUTPUT_DIR_KEY@, dir@) == Some(s@),
            None => json_pretty_object(OUTPUT_DIR_KEY@, dir@) is None,
        },
        r matches Some(s) ==> json_string_member(s@, OUTPUT_DIR_KEY@) == Some(dir@),
{
    json_pretty_text(OUTPUT_DIR_KEY, dir)
}

} // verus!
