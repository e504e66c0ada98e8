//! The content type under which a file is served.

use vstd::prelude::*;

verus! {

/// Playlists that are typed `audio/x-mpegurl` are served as
/// `application/x-mpegURL`; any other type is kept.
pub open spec fn served_content_type(current: Seq<char>) -> Seq<char> {
    if current == "audio/x-mpegurl"@ {
        "application/x-mpegURL"@
    } else {
        current
    }
}

pub fn content_type_for(current: &str) -> (r: String)
    ensures
        r@ == served_content_type(current@),
{
    let current = String::from_str(current);
    if current == String::from_str("audio/x-mpegurl") {
        String::from_str("application/x-mpegURL")
    } else {
        current
    }
}

} // verus!
