use vstd::prelude::*;

use crate::user_guard::User;

verus! {

/// Records that user `$2` downloaded subtitle `$1`.
pub const INSERT_DOWNLOAD_SQL: &'static str =
    "INSERT INTO downloads (subtitle_id, user_id) VALUES ($1, $2)";

/// The name, type and content of subtitle `$1`, as at most one row.
pub const SUBTITLE_SQL: &'static str =
    "SELECT raw_name, mime, content FROM subtitles where id = $1 LIMIT 1";

/// The download of a subtitle by a user, to be recorded.
#[derive(Clone, Copy, Debug, PartialEq, Eq, Structural)]
pub struct Download {
    pub subtitle_id: i32,
    pub user_id: i32,
}

/// A subtitle as it is handed to the user who downloads it.
pub struct SubtitleForDownload {
    pub name: String,
    pub mime: String,
    pub content: Vec<u8>,
}

/// The download of subtitle `id` by `user`.
pub fn download(user: &User, id: i32) -> (d: Download)
    ensures
        d.subtitle_id == id,
        d.user_id == user.id,
{
    Download { subtitle_id: id, user_id: user.id }
}

impl SubtitleForDownload {
    pub fn new(name: String, mime: String, content: Vec<u8>) -> (s: SubtitleForDownload)
        ensures
            s.name@ == name@,
            s.mime@ == mime@,
            s.content@ == content@,
    {
        SubtitleForDownload { name, mime, content }
    }
}

} // verus!
