use vstd::prelude::*;

use crate::user_guard::User;

verus! {

/// Stores a subtitle uploaded by user `$1` with name `$2`, type `$3` and
/// content `$4`.
pub const INSERT_SUBTITLE_SQL: &'static str =
    "INSERT INTO subtitles (user_id, raw_name, mime, content) VALUES ($1, $2, $3, $4)";

/// A subtitle to be stored.
pub struct NewSubtitle {
    pub user_id: i32,
    pub raw_name: String,
    pub mime: String,
    pub content: Vec<u8>,
}

/// The subtitle that `user` uploads with this name, type and content.
pub fn upload(user: &User, name: String, mime: String, content: Vec<u8>) -> (s: NewSubtitle)
    ensures
        s.user_id == user.id,
        s.raw_name@ == name@,
        s.mime@ == mime@,
        s.content@ == content@,
{
    NewSubtitle { user_id: user.id, raw_name: name, mime, content }
}

} // verus!
