use vstd::prelude::*;

verus! {

/// Removes the feedback that user `$1` gave to subtitle `$2`.
pub const DELETE_FEEDBACK_SQL: &'static str =
    "DELETE FROM feedbacks WHERE user_id = $1 AND subtitle_id = $2";

/// Stores feedback `$3` of user `$1` on subtitle `$2`.
pub const INSERT_FEEDBACK_SQL: &'static str =
    "INSERT INTO feedbacks (user_id, subtitle_id, key) VALUES ($1, $2, $3)";

/// What a user says of a subtitle.
#[derive(Clone, Copy, Debug, PartialEq, Eq, Structural)]
pub enum Feedback {
    JustWorks,
    BadSync,
}

/// The name under which a feedback is stored.
pub open spec fn feedback_name(feedback: Feedback) -> Seq<char> {
    match feedback {
        Feedback::JustWorks => seq!['J', 'u', 's', 't', 'W', 'o', 'r', 'k', 's'],
        Feedback::BadSync => seq!['B', 'a', 'd', 'S', 'y', 'n', 'c'],
    }
}

/// The feedback with this name, if there is one.
pub open spec fn parse_feedback(name: Seq<char>) -> Option<Feedback> {
    if name == feedback_name(Feedback::JustWorks) {
        Some(Feedback::JustWorks)
    } else if name == feedback_name(Feedback::BadSync) {
        Some(Feedback::BadSync)
    } else {
        None
    }
}

/// Whether two texts hold the same characters.
fn same_text(a: &str, b: &str) -> (same: bool)
    ensures
        same == (a@ == b@),
{
    let n = a.unicode_len();
    if n != b.unicode_len() {
        return false;
    }
    let mut i: usize = 0;
    while i < n
        invariant
            n == a@.len(),
            n == b@.len(),
            i <= n,
            forall|j: int| 0 <= j < i ==> a@[j] == b@[j],
        decreases n - i,
    {
        if a.get_char(i) != b.get_char(i) {
            return false;
        }
        i = i + 1;
    }
    assert(a@ =~= b@);
    true
}

/// The statement pair that replaces a user's feedback on a subtitle: the
/// old one is deleted, then `key` is stored.
pub struct FeedbackUpsert {
    pub user_id: i32,
    pub subtitle_id: i32,
    pub key: String,
}

impl Feedback {
    /// Reads a feedback from its name; any other text is refused with `:(`.
    pub fn from_name(raw: &str) -> (r: Result<Feedback, &'static str>)
        ensures
            match parse_feedback(raw@) {
                Some(f) => r == Ok::<Feedback, &'static str>(f),
                None => (r matches Err(e) && e@ == seq![':', '(']),
            },
    {
        let just_works = "JustWorks";
        let bad_sync = "BadSync";
        let refusal = ":(";
        proof {
            reveal_strlit("JustWorks");
            reveal_strlit("BadSync");
            reveal_strlit(":(");
            assert(just_works@ =~= feedback_name(Feedback::JustWorks));
            assert(bad_sync@ =~= feedback_name(Feedback::BadSync));
        }
        if same_text(raw, just_works) {
            Ok(Feedback::JustWorks)
        } else if same_text(raw, bad_sync) {
            Ok(Feedback::BadSync)
        } else {
            Err(refusal)
        }
    }

    /// The name of the feedback.
    pub fn to_string(&self) -> (name: String)
        ensures
            name@ == feedback_name(*self),
    {
        match self {
            Feedback::JustWorks => {
                let name = "JustWorks";
                proof {
                    reveal_strlit("JustWorks");
                }
                String::from_str(name)
            },
            Feedback::BadSync => {
                let name = "BadSync";
                proof {
                    reveal_strlit("BadSync");
                }
                String::from_str(name)
            },
        }
    }

    /// The statements that record this feedback of user `user_id` on
    /// subtitle `subtitle_id` in place of any earlier one.
    pub fn upsert(&self, user_id: i32, subtitle_id: i32) -> (statements: FeedbackUpsert)
        ensures
            statements.user_id == user_id,
            statements.subtitle_id == subtitle_id,
            statements.key@ == feedback_name(*self),
    {
        FeedbackUpsert { user_id, subtitle_id, key: self.to_string() }
    }
}

/// A feedback's name reads back as that feedback, and only a feedback's
/// name reads as one.
pub proof fn lemma_feedback_name_round_trip(feedback: Feedback, name: Seq<char>)
    ensures
        parse_feedback(feedback_name(feedback)) == Some(feedback),
        parse_feedback(name) == Some(feedback) ==> name == feedback_name(feedback),
{
    assert(feedback_name(Feedback::JustWorks) != feedback_name(Feedback::BadSync)) by {
        assert(feedback_name(Feedback::JustWorks).len() != feedback_name(Feedback::BadSync).len());
    }
}

impl std::str::FromStr for Feedback {
    type Err = &'static str;

    fn from_str(raw: &str) -> (r: Result<Self, Self::Err>)
        ensures
            match parse_feedback(raw@) {
                Some(f) => r == Ok::<Feedback, &'static str>(f),
                None => (r matches Err(e) && e@ == seq![':', '(']),
            },
    {
        Feedback::from_name(raw)
    }
}

} // verus!
