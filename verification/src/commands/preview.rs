//! What the preview decides before anything is shown or served.

use vstd::prelude::*;
use vstd::string::StringExecFns;
use crate::stats::calculator::AllStats;
use crate::text::{ends_with, has_suffix};

verus! {

/// The media type under which a static file of this path is served, going
/// by the path's ending.
pub open spec fn media_type(path: Seq<char>) -> Seq<char> {
    if has_suffix(path, ".js"@) {
        "application/javascript"@
    } else if has_suffix(path, ".css"@) {
        "text/css"@
    } else if has_suffix(path, ".svg"@) {
        "image/svg+xml"@
    } else if has_suffix(path, ".png"@) {
        "image/png"@
    } else if has_suffix(path, ".ico"@) {
        "image/x-icon"@
    } else {
        "application/octet-stream"@
    }
}

/// The media type under which a static file of this path is served.
pub fn content_type(path: &str) -> (r: &'static str)
    ensures
        r@ == media_type(path@),
{
    if ends_with(path, ".js") {
        "application/javascript"
    } else if ends_with(path, ".css") {
        "text/css"
    } else if ends_with(path, ".svg") {
        "image/svg+xml"
    } else if ends_with(path, ".png") {
        "image/png"
    } else if ends_with(path, ".ico") {
        "image/x-icon"
    } else {
        "application/octet-stream"
    }
}

/// Where the static file requested as `path` lies among the bundled files.
pub fn asset_path(path: &str) -> (r: String)
    ensures
        r@ == "assets/"@ + path@,
{
    let mut r = "assets/".to_owned();
    r.append(path);
    r
}

/// Whether the snapshot holds anything to show.
pub fn has_data(stats: &AllStats) -> (r: bool)
    ensures
        r == (stats@.total_keys != 0),
{
    stats.total_keys != 0
}

} // verus!
