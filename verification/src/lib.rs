//! Server-side logic of a subtitle sharing service: PIN based sign in,
//! bearer token checks, feedback on subtitles and listing of uploads.

pub mod auth;
pub mod clock;
pub mod env;
pub mod feedback;
pub mod server;
pub mod subtitle_for_list;
pub mod user_guard;
