//! The link files left in a new download folder: a macOS `.webloc` shortcut to the
//! source page and a plain-text copy of its address.
use vstd::prelude::*;
use vstd::string::StringExecFns;
use crate::text::owned;

verus! {

/// The name of the shortcut file.
pub const WEBLOC_FILE_NAME: &'static str = "원본 링크.webloc";

/// The name of the plain-text file holding the address.
pub const LINK_TEXT_FILE_NAME: &'static str = "원본 링크.txt";

/// The property list up to the address.
pub const WEBLOC_HEAD: &'static str = "<?xml version=\"1.0\" encoding=\"UTF-8\"?>\n<!DOCTYPE plist PUBLIC \"-//Apple//DTD PLIST 1.0//EN\" \"http://www.apple.com/DTDs/PropertyList-1.0.dtd\">\n<plist version=\"1.0\">\n<dict>\n    <key>URL</key>\n    <string>";

/// The property list after the address.
pub const WEBLOC_TAIL: &'static str = "</string>\n</dict>\n</plist>\n";

/// The `.webloc` property list that opens `url`.
pub fn webloc_content(url: &str) -> (r: String)
    ensures
        r@ == WEBLOC_HEAD@ + url@ + WEBLOC_TAIL@,
{
    let mut r = owned(WEBLOC_HEAD);
    r.append(url);
    r.append(WEBLOC_TAIL);
    r
}

/// Which link files to write into a folder.
pub struct LinkWrites {
    /// Write the `.webloc` shortcut.
    pub webloc: bool,
    /// Write the plain-text copy of the address.
    pub text: bool,
}

/// The link files to write, given which already exist: nothing when the shortcut is
/// there; otherwise the shortcut, and the text file unless it is there.
pub open spec fn link_plan(webloc_exists: bool, text_exists: bool) -> LinkWrites {
    LinkWrites { webloc: !webloc_exists, text: !webloc_exists && !text_exists }
}

/// Which link files a folder holds after the files of `plan` were written into a
/// folder holding those given.
pub open spec fn links_after(webloc_exists: bool, text_exists: bool, plan: LinkWrites) -> (
    bool,
    bool,
) {
    (webloc_exists || plan.webloc, text_exists || plan.text)
}

/// The link files to write, given which already exist: nothing when the shortcut is
/// there; otherwise the shortcut, and the text file unless it is there.
pub fn link_files_to_write(webloc_exists: bool, text_exists: bool) -> (r: LinkWrites)
    ensures
        r == link_plan(webloc_exists, text_exists),
{
    if webloc_exists {
        LinkWrites { webloc: false, text: false }
    } else {
        LinkWrites { webloc: true, text: !text_exists }
    }
}

/// Link files are written once: once the files planned for a folder are written,
/// the shortcut is there, and planning again for that folder writes nothing, so a
/// second address given for the same folder leaves the first one in place.
pub proof fn lemma_link_files_once(webloc_exists: bool, text_exists: bool)
    ensures
        ({
            let (w2, t2) = links_after(
                webloc_exists,
                text_exists,
                link_plan(webloc_exists, text_exists),
            );
            &&& w2
            &&& link_plan(w2, t2) == (LinkWrites { webloc: false, text: false })
            &&& links_after(w2, t2, link_plan(w2, t2)) == (w2, t2)
        }),
{
}

} // verus!
