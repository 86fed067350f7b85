//! The user-visible notification messages.

use vstd::prelude::*;
use vstd::string::StringExecFns;

verus! {

/// The warning sent when the scanned directory offers no wallpapers.
pub open spec fn spec_no_wallpapers_message(dir: Seq<char>) -> Seq<char> {
    "No wallpapers found in "@ + dir
}

/// The notification sent after a wallpaper was applied and linked.
pub open spec fn spec_success_message(path: Seq<char>) -> Seq<char> {
    "Wallpaper set to "@ + path
}

pub fn no_wallpapers_message(dir: &str) -> (r: String)
    ensures
        r@ == spec_no_wallpapers_message(dir@),
{
    let mut r = String::from_str("No wallpapers found in ");
    r.append(dir);
    r
}

pub fn success_message(path: &str) -> (r: String)
    ensures
        r@ == spec_success_message(path@),
{
    let mut r = String::from_str("Wallpaper set to ");
    r.append(path);
    r
}

} // verus!
