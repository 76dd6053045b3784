//! Handing a file to the VLC media player.

use vstd::prelude::*;
use crate::text::{chars_of, string_of_range};

verus! {

/// A path without the verbatim prefix `\\?\` that canonical paths carry on
/// Windows, which the player does not understand.
pub open spec fn without_verbatim_prefix(path: Seq<char>) -> Seq<char> {
    if path.len() >= 4 && path[0] == '\\' && path[1] == '\\' && path[2] == '?' && path[3] == '\\' {
        path.skip(4)
    } else {
        path
    }
}

/// Strips the verbatim prefix from a canonical path.
pub fn strip_verbatim_prefix(path: &str) -> (r: String)
    ensures
        r@ == without_verbatim_prefix(path@),
{
    let v = chars_of(path);
    if v.len() >= 4 && v[0] == '\\' && v[1] == '\\' && v[2] == '?' && v[3] == '\\' {
        let r = string_of_range(&v, 4, v.len());
        assert(v@.subrange(4, v@.len() as int) == v@.skip(4));
        r
    } else {
        let r = string_of_range(&v, 0, v.len());
        assert(v@.subrange(0, v@.len() as int) == v@);
        r
    }
}

/// The programs to try, in order, to start the player.
pub fn vlc_candidates() -> (r: Vec<String>)
    ensures
        r.deep_view() == seq![
            "C:\\Program Files\\VideoLAN\\VLC\\vlc.exe"@,
            "C:\\Program Files (x86)\\VideoLAN\\VLC\\vlc.exe"@,
            "vlc"@,
        ],
{
    let mut v: Vec<String> = Vec::new();
    v.push("C:\\Program Files\\VideoLAN\\VLC\\vlc.exe".to_owned());
    v.push("C:\\Program Files (x86)\\VideoLAN\\VLC\\vlc.exe".to_owned());
    v.push("vlc".to_owned());
    assert(v.deep_view() =~= seq![
        "C:\\Program Files\\VideoLAN\\VLC\\vlc.exe"@,
        "C:\\Program Files (x86)\\VideoLAN\\VLC\\vlc.exe"@,
        "vlc"@,
    ]);
    v
}

} // verus!
