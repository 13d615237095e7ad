use legendado_server::env::{missing_variable_message, read, JWT_SECRET_KEY_VAR};
use legendado_server::feedback::Feedback;
use legendado_server::server::subtitle::{download, SubtitleForDownload};
use legendado_server::server::subtitles::list;
use legendado_server::server::upload::upload;
use legendado_server::server::{cors_policy, HttpMethod};
use legendado_server::subtitle_for_list::{assemble, FeedbackCountRow, SubtitleRow, UserFeedbackRow};
use legendado_server::user_guard::User;

fn sub(id: i32, name: &str, downloads_count: i64) -> SubtitleRow {
    SubtitleRow { id, name: name.to_string(), downloads_count }
}

fn count(subtitle_id: i32, key: &str, count: i64) -> FeedbackCountRow {
    FeedbackCountRow { subtitle_id, key: key.to_string(), count }
}

fn vote(subtitle_id: i32, key: &str) -> UserFeedbackRow {
    UserFeedbackRow { subtitle_id, key: key.to_string() }
}

#[test]
fn list_joins_feedback_and_votes() {
    let subs = vec![sub(1, "OsVingaceiros", 3), sub(2, "MiranhaNomade", 0), sub(3, "Sem", 1)];
    let counts = vec![count(1, "JustWorks", 2), count(2, "BadSync", 1), count(1, "BadSync", 5)];
    let votes = vec![vote(1, "BadSync"), vote(2, "JustWorks")];
    let listed = assemble(&subs, &counts, &votes);
    assert_eq!(listed.len(), 3);
    assert_eq!((listed[0].id, listed[0].name.as_str(), listed[0].downloads_count), (1, "OsVingaceiros", 3));
    let f0: Vec<(String, i64, bool)> =
        listed[0].feedbacks.iter().map(|f| (f.key.clone(), f.count, f.voted)).collect();
    assert_eq!(f0, vec![("JustWorks".to_string(), 2, false), ("BadSync".to_string(), 5, true)]);
    let f1: Vec<(String, i64, bool)> =
        listed[1].feedbacks.iter().map(|f| (f.key.clone(), f.count, f.voted)).collect();
    assert_eq!(f1, vec![("BadSync".to_string(), 1, false)]);
    assert!(listed[2].feedbacks.is_empty());
    assert!(assemble(&vec![], &counts, &votes).is_empty());
}

#[test]
fn public_list_keeps_rows() {
    let listed = list(&vec![sub(5, "A", 2), sub(6, "B", 0)]);
    assert_eq!(listed.len(), 2);
    assert_eq!((listed[1].id, listed[1].name.as_str(), listed[1].downloads_count), (6, "B", 0));
}

#[test]
fn feedback_names_read_back() {
    for f in [Feedback::JustWorks, Feedback::BadSync] {
        assert_eq!(Feedback::from_name(&f.to_string()), Ok(f));
        assert_eq!(f.to_string().parse::<Feedback>(), Ok(f));
    }
    assert_eq!(Feedback::JustWorks.to_string(), "JustWorks");
    assert_eq!(Feedback::BadSync.to_string(), "BadSync");
    assert_eq!(Feedback::from_name("justworks"), Err(":("));
    assert_eq!("".parse::<Feedback>(), Err(":("));
}

#[test]
fn feedback_replaces_the_earlier_one() {
    let statements = Feedback::BadSync.upsert(4, 8);
    assert_eq!((statements.user_id, statements.subtitle_id, statements.key.as_str()), (4, 8, "BadSync"));
}

#[test]
fn uploads_and_downloads_carry_the_user() {
    let user = User { id: 3 };
    let stored = upload(&user, "OsVingaceiros".to_string(), "text/legenda".to_string(), b"Toninho".to_vec());
    assert_eq!(stored.user_id, 3);
    assert_eq!(stored.raw_name, "OsVingaceiros");
    assert_eq!(stored.mime, "text/legenda");
    assert_eq!(stored.content, b"Toninho".to_vec());
    let d = download(&user, 11);
    assert_eq!((d.subtitle_id, d.user_id), (11, 3));
    let s = SubtitleForDownload::new("n".to_string(), "m".to_string(), vec![1, 2]);
    assert_eq!((s.name.as_str(), s.mime.as_str(), s.content), ("n", "m", vec![1, 2]));
}

#[test]
fn cors_admits_the_web_client() {
    let policy = cors_policy();
    assert_eq!(policy.allowed_origins, vec!["http://localhost:3000".to_string()]);
    assert_eq!(policy.allowed_methods, vec![HttpMethod::Get, HttpMethod::Post]);
    assert!(policy.allow_all_headers);
}

#[test]
fn environment_settings() {
    assert_eq!(read("s3cr3t".to_string()).jwt_secret_key, "s3cr3t");
    assert_eq!(JWT_SECRET_KEY_VAR, "JWT_SECRET_KEY");
    assert_eq!(missing_variable_message(JWT_SECRET_KEY_VAR), "JWT_SECRET_KEY env var missing");
}
