//! Picking the screenshot the game just took, and the name of its PNG copy.
use vstd::prelude::*;
use crate::paths::{path_extension, path_file_name, path_with_extension, with_extension_text};
use crate::text::{ends_with, ends_with_seq};

verus! {

/// A file of the screenshots folder: its name and when it was last modified,
/// in whole seconds since the Unix epoch.
#[derive(Debug, Clone)]
pub struct ScreenshotEntry {
    pub file_name: String,
    pub modified_secs: u64,
}

/// The file is a TGA screenshot.
pub open spec fn is_tga(name: Seq<char>) -> bool {
    ends_with_seq(name, ".tga"@)
}

/// Entry `k` is the newest TGA screenshot: modified after the epoch, no
/// other screenshot modified later, and every earlier-listed screenshot
/// modified strictly earlier.
pub open spec fn is_newest_screenshot(entries: Seq<ScreenshotEntry>, k: int) -> bool {
    &&& 0 <= k < entries.len()
    &&& is_tga(entries[k].file_name@)
    &&& entries[k].modified_secs > 0
    &&& forall|j: int|
        0 <= j < entries.len() && is_tga(entries[j].file_name@) ==> entries[j].modified_secs
            <= entries[k].modified_secs
    &&& forall|j: int|
        0 <= j < k && is_tga(entries[j].file_name@) ==> entries[j].modified_secs
            < entries[k].modified_secs
}

/// Some TGA screenshot was modified after the epoch.
pub open spec fn has_screenshot(entries: Seq<ScreenshotEntry>) -> bool {
    exists|j: int|
        0 <= j < entries.len() && is_tga(entries[j].file_name@) && entries[j].modified_secs > 0
}

/// The index of the newest TGA screenshot among the folder's entries, in
/// the order the folder lists them.
pub fn newest_screenshot(entries: &Vec<ScreenshotEntry>) -> (r: Option<usize>)
    ensures
        r matches Some(k) ==> is_newest_screenshot(entries@, k as int),
        r is None <==> !has_screenshot(entries@),
{
    let mut newest: Option<usize> = None;
    let mut newest_time: u64 = 0;
    let mut i: usize = 0;
    while i < entries.len()
        invariant
            i <= entries@.len(),
            forall|j: int|
                0 <= j < i && is_tga(entries@[j].file_name@) ==> entries@[j].modified_secs
                    <= newest_time,
            newest is None <==> newest_time == 0,
            newest matches Some(k) ==> {
                &&& k < i
                &&& is_tga(entries@[k as int].file_name@)
                &&& entries@[k as int].modified_secs == newest_time
                &&& forall|j: int|
                    0 <= j < k && is_tga(entries@[j].file_name@) ==> entries@[j].modified_secs
                        < newest_time
            },
        decreases entries.len() - i,
    {
        let entry = &entries[i];
        if ends_with(entry.file_name.as_str(), ".tga") {
            if entry.modified_secs > newest_time {
                newest_time = entry.modified_secs;
                newest = Some(i);
            }
        }
        i = i + 1;
    }
    if newest.is_none() {
        assert forall|j: int| 0 <= j < entries@.len() && is_tga(entries@[j].file_name@) implies !(
        entries@[j].modified_secs > 0) by {}
    }
    newest
}

/// Where the PNG copy of the screenshot `tga_path` goes: the same path with
/// the extension `png`.
pub fn png_path(tga_path: &str) -> (r: String)
    ensures
        r@ == path_with_extension(tga_path@, "png"@),
        path_file_name(tga_path@) is None ==> r@ == tga_path@,
        path_file_name(tga_path@) is Some ==> path_extension(r@) == Some("png"@),
{
    proof {
        reveal_strlit("png");
    }
    with_extension_text(tga_path, "png")
}

} // verus!
