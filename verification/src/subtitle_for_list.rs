use vstd::prelude::*;

verus! {

/// Each subtitle with its name and the sum of its download ids, as
/// `(id, name, sum)` rows.
pub const SUBTITLES_SQL: &'static str = "
        SELECT s.id, s.raw_name, SUM(COALESCE(d.id, 0))
        FROM subtitles s
        LEFT JOIN downloads d ON d.subtitle_id = s.id
        GROUP BY s.id, s.raw_name
    ";

/// For each subtitle and feedback key, how many users gave it, as
/// `(subtitle id, key, count)` rows.
pub const FEEDBACK_COUNTS_SQL: &'static str = "
    	SELECT s.id, f.key, count(*)
    	FROM subtitles s
        JOIN feedbacks f ON f.subtitle_id = s.id
        GROUP BY s.id, f.key
    ";

/// The feedback that the user `$1` gave, as `(subtitle id, key)` rows.
pub const USER_FEEDBACKS_SQL: &'static str = "
        SELECT s.id, f.key
        FROM subtitles s
        JOIN feedbacks f ON f.subtitle_id = s.id AND f.user_id = $1
    ";

/// A row of `SUBTITLES_SQL`.
pub struct SubtitleRow {
    pub id: i32,
    pub name: String,
    pub downloads_count: i64,
}

/// A row of `FEEDBACK_COUNTS_SQL`.
pub struct FeedbackCountRow {
    pub subtitle_id: i32,
    pub key: String,
    pub count: i64,
}

/// A row of `USER_FEEDBACKS_SQL`.
pub struct UserFeedbackRow {
    pub subtitle_id: i32,
    pub key: String,
}

/// How often one kind of feedback was given to a subtitle, and whether the
/// user asking gave it.
pub struct SubtitleForListFeedback {
    pub key: String,
    pub count: i64,
    pub voted: bool,
}

/// A subtitle as the list shows it to a user.
pub struct SubtitleForList {
    pub id: i32,
    pub name: String,
    pub downloads_count: i64,
    pub feedbacks: Vec<SubtitleForListFeedback>,
}

impl View for SubtitleForListFeedback {
    /// The key, the count and whether the user voted.
    type V = (Seq<char>, i64, bool);

    open spec fn view(&self) -> (Seq<char>, i64, bool) {
        (self.key@, self.count, self.voted)
    }
}

impl View for SubtitleForList {
    /// The id, the name, the downloads count and the feedbacks.
    type V = (i32, Seq<char>, i64, Seq<(Seq<char>, i64, bool)>);

    open spec fn view(&self) -> (i32, Seq<char>, i64, Seq<(Seq<char>, i64, bool)>) {
        (
            self.id,
            self.name@,
            self.downloads_count,
            self.feedbacks@.map_values(|f: SubtitleForListFeedback| f@),
        )
    }
}

/// Whether the user gave feedback `key` to subtitle `subtitle_id`.
pub open spec fn voted(subtitle_id: i32, key: Seq<char>, user_feedbacks: Seq<UserFeedbackRow>) -> bool {
    exists|k: int|
        0 <= k < user_feedbacks.len() && (#[trigger] user_feedbacks[k]).subtitle_id == subtitle_id
            && user_feedbacks[k].key@ == key
}

/// The feedbacks of subtitle `subtitle_id`: the count rows for it, in
/// their order, each with whether the user gave that feedback.
pub open spec fn feedback_entries(
    subtitle_id: i32,
    feedback_counts: Seq<FeedbackCountRow>,
    user_feedbacks: Seq<UserFeedbackRow>,
) -> Seq<(Seq<char>, i64, bool)>
    decreases feedback_counts.len(),
{
    if feedback_counts.len() == 0 {
        Seq::empty()
    } else {
        let earlier = feedback_entries(subtitle_id, feedback_counts.drop_last(), user_feedbacks);
        let row = feedback_counts.last();
        if row.subtitle_id == subtitle_id {
            earlier.push((row.key@, row.count, voted(subtitle_id, row.key@, user_feedbacks)))
        } else {
            earlier
        }
    }
}

/// The list entry of a subtitle row.
pub open spec fn list_entry(
    row: SubtitleRow,
    feedback_counts: Seq<FeedbackCountRow>,
    user_feedbacks: Seq<UserFeedbackRow>,
) -> (i32, Seq<char>, i64, Seq<(Seq<char>, i64, bool)>) {
    (
        row.id,
        row.name@,
        row.downloads_count,
        feedback_entries(row.id, feedback_counts, user_feedbacks),
    )
}

/// Whether the user gave feedback `key` to subtitle `subtitle_id`.
fn has_voted(subtitle_id: i32, key: &String, user_feedbacks: &Vec<UserFeedbackRow>) -> (b: bool)
    ensures
        b == voted(subtitle_id, key@, user_feedbacks@),
        b <==> exists|k: int|
            0 <= k < user_feedbacks.len() && (#[trigger] user_feedbacks@[k]).subtitle_id
                == subtitle_id && user_feedbacks@[k].key@ == key@,
{
    let mut k: usize = 0;
    while k < user_feedbacks.len()
        invariant
            k <= user_feedbacks.len(),
            forall|j: int|
                0 <= j < k ==> !((#[trigger] user_feedbacks@[j]).subtitle_id == subtitle_id
                    && user_feedbacks@[j].key@ == key@),
        decreases user_feedbacks.len() - k,
    {
        let row = &user_feedbacks[k];
        if row.subtitle_id == subtitle_id && row.key == *key {
            return true;
        }
        k = k + 1;
    }
    false
}

/// The feedbacks of subtitle `subtitle_id`.
fn feedbacks_of(
    subtitle_id: i32,
    feedback_counts: &Vec<FeedbackCountRow>,
    user_feedbacks: &Vec<UserFeedbackRow>,
) -> (feedbacks: Vec<SubtitleForListFeedback>)
    ensures
        feedbacks@.map_values(|f: SubtitleForListFeedback| f@) == feedback_entries(
            subtitle_id,
            feedback_counts@,
            user_feedbacks@,
        ),
{
    let mut feedbacks: Vec<SubtitleForListFeedback> = Vec::new();
    let mut j: usize = 0;
    while j < feedback_counts.len()
        invariant
            j <= feedback_counts.len(),
            feedbacks@.map_values(|f: SubtitleForListFeedback| f@) == feedback_entries(
                subtitle_id,
                feedback_counts@.take(j as int),
                user_feedbacks@,
            ),
        decreases feedback_counts.len() - j,
    {
        let row = &feedback_counts[j];
        assert(feedback_counts@.take(j + 1).drop_last() =~= feedback_counts@.take(j as int));
        if row.subtitle_id == subtitle_id {
            let entry = SubtitleForListFeedback {
                key: row.key.clone(),
                count: row.count,
                voted: has_voted(subtitle_id, &row.key, user_feedbacks),
            };
            let ghost before = feedbacks@;
            feedbacks.push(entry);
            assert(feedbacks@.map_values(|f: SubtitleForListFeedback| f@) =~= before.map_values(
                |f: SubtitleForListFeedback| f@,
            ).push(entry@));
        }
        j = j + 1;
    }
    assert(feedback_counts@.take(feedback_counts.len() as int) =~= feedback_counts@);
    feedbacks
}

/// The list of subtitles shown to a user: one entry per subtitle row, in
/// order, with its feedbacks from the count rows and whether the user gave
/// each of them, from that user's feedback rows.
pub fn assemble(
    subtitles: &Vec<SubtitleRow>,
    feedback_counts: &Vec<FeedbackCountRow>,
    user_feedbacks: &Vec<UserFeedbackRow>,
) -> (list: Vec<SubtitleForList>)
    ensures
        list.len() == subtitles.len(),
        forall|i: int|
            0 <= i < list.len() ==> (#[trigger] list@[i])@ == list_entry(
                subtitles@[i],
                feedback_counts@,
                user_feedbacks@,
            ),
        forall|i: int|
            0 <= i < list.len() ==> {
                &&& (#[trigger] list@[i]).id == subtitles@[i].id
                &&& list@[i].name@ == subtitles@[i].name@
                &&& list@[i].downloads_count == subtitles@[i].downloads_count
            },
        forall|i: int, j: int|
            0 <= i < list.len() && 0 <= j < list@[i].feedbacks.len() ==> (
            #[trigger] list@[i].feedbacks@[j]).voted == (exists|k: int|
                0 <= k < user_feedbacks.len() && (#[trigger] user_feedbacks@[k]).subtitle_id
                    == list@[i].id && user_feedbacks@[k].key@ == list@[i].feedbacks@[j].key@),
{
    let mut list: Vec<SubtitleForList> = Vec::new();
    let mut i: usize = 0;
    while i < subtitles.len()
        invariant
            i <= subtitles.len(),
            list.len() == i,
            forall|k: int|
                0 <= k < i ==> (#[trigger] list@[k])@ == list_entry(
                    subtitles@[k],
                    feedback_counts@,
                    user_feedbacks@,
                ),
        decreases subtitles.len() - i,
    {
        let row = &subtitles[i];
        let entry = SubtitleForList {
            id: row.id,
            name: row.name.clone(),
            downloads_count: row.downloads_count,
            feedbacks: feedbacks_of(row.id, feedback_counts, user_feedbacks),
        };
        list.push(entry);
        i = i + 1;
    }
    proof {
        assert forall|i: int, j: int|
            0 <= i < list.len() && 0 <= j < list@[i].feedbacks.len() implies (
            #[trigger] list@[i].feedbacks@[j]).voted == (exists|k: int|
                0 <= k < user_feedbacks.len() && (#[trigger] user_feedbacks@[k]).subtitle_id
                    == list@[i].id && user_feedbacks@[k].key@ == list@[i].feedbacks@[j].key@) by {
            lemma_voted_entries(list@[i].id, feedback_counts@, user_feedbacks@);
            let fs = list@[i].feedbacks@;
            assert(fs.map_values(|f: SubtitleForListFeedback| f@)[j] == fs[j]@);
        }
    }
    list
}

/// An entry of a subtitle's feedbacks is marked voted exactly when one of
/// the user's feedback rows, wherever it stands among them, names that
/// subtitle and that key. In particular, every feedback the user gave shows
/// as voted on its subtitle.
pub proof fn lemma_voted_entries(
    subtitle_id: i32,
    feedback_counts: Seq<FeedbackCountRow>,
    user_feedbacks: Seq<UserFeedbackRow>,
)
    ensures
        forall|j: int|
            0 <= j < feedback_entries(subtitle_id, feedback_counts, user_feedbacks).len() ==> (
            #[trigger] feedback_entries(subtitle_id, feedback_counts, user_feedbacks)[j]).2 == (
            exists|k: int|
                0 <= k < user_feedbacks.len() && (#[trigger] user_feedbacks[k]).subtitle_id
                    == subtitle_id && user_feedbacks[k].key@ == feedback_entries(
                    subtitle_id,
                    feedback_counts,
                    user_feedbacks,
                )[j].0),
    decreases feedback_counts.len(),
{
    if feedback_counts.len() > 0 {
        let earlier_rows = feedback_counts.drop_last();
        lemma_voted_entries(subtitle_id, earlier_rows, user_feedbacks);
        let earlier = feedback_entries(subtitle_id, earlier_rows, user_feedbacks);
        let all = feedback_entries(subtitle_id, feedback_counts, user_feedbacks);
        let row = feedback_counts.last();
        assert forall|j: int| 0 <= j < all.len() implies (#[trigger] all[j]).2 == (exists|k: int|
            0 <= k < user_feedbacks.len() && (#[trigger] user_feedbacks[k]).subtitle_id
                == subtitle_id && user_feedbacks[k].key@ == all[j].0) by {
            if j < earlier.len() {
                assert(all[j] == earlier[j]);
            } else {
                assert(row.subtitle_id == subtitle_id);
                assert(all[j] == (row.key@, row.count, voted(subtitle_id, row.key@, user_feedbacks)));
            }
        }
    }
}

/// Some count row for subtitle `subtitle_id` has the key and count of
/// `entry`.
pub open spec fn from_count_row(
    feedback_counts: Seq<FeedbackCountRow>,
    subtitle_id: i32,
    entry: (Seq<char>, i64, bool),
) -> bool {
    exists|m: int|
        0 <= m < feedback_counts.len() && (#[trigger] feedback_counts[m]).subtitle_id
            == subtitle_id && feedback_counts[m].key@ == entry.0 && feedback_counts[m].count
            == entry.1
}

/// Some entry has the key and count of `row`.
pub open spec fn has_entry_for(entries: Seq<(Seq<char>, i64, bool)>, row: FeedbackCountRow) -> bool {
    exists|j: int| 0 <= j < entries.len() && (#[trigger] entries[j]).0 == row.key@ && entries[j].1 == row.count
}

/// The feedbacks of a subtitle are its count rows: each entry carries the
/// key and count of a count row for that subtitle, and each count row for
/// the subtitle gives an entry.
pub proof fn lemma_entries_are_the_subtitles_count_rows(
    subtitle_id: i32,
    feedback_counts: Seq<FeedbackCountRow>,
    user_feedbacks: Seq<UserFeedbackRow>,
)
    ensures
        feedback_entries(subtitle_id, feedback_counts, user_feedbacks).len()
            <= feedback_counts.len(),
        forall|j: int|
            0 <= j < feedback_entries(subtitle_id, feedback_counts, user_feedbacks).len()
                ==> from_count_row(
                feedback_counts,
                subtitle_id,
                #[trigger] feedback_entries(subtitle_id, feedback_counts, user_feedbacks)[j],
            ),
        forall|m: int|
            0 <= m < feedback_counts.len() && (#[trigger] feedback_counts[m]).subtitle_id
                == subtitle_id ==> has_entry_for(
                feedback_entries(subtitle_id, feedback_counts, user_feedbacks),
                feedback_counts[m],
            ),
    decreases feedback_counts.len(),
{
    if feedback_counts.len() > 0 {
        let earlier_rows = feedback_counts.drop_last();
        lemma_entries_are_the_subtitles_count_rows(subtitle_id, earlier_rows, user_feedbacks);
        let earlier = feedback_entries(subtitle_id, earlier_rows, user_feedbacks);
        let all = feedback_entries(subtitle_id, feedback_counts, user_feedbacks);
        let last = feedback_counts.len() - 1;
        let row = feedback_counts.last();
        assert forall|j: int| 0 <= j < all.len() implies from_count_row(
            feedback_counts,
            subtitle_id,
            #[trigger] all[j],
        ) by {
            if j < earlier.len() {
                assert(all[j] == earlier[j]);
                assert(from_count_row(earlier_rows, subtitle_id, earlier[j]));
                let m = choose|m: int|
                    0 <= m < earlier_rows.len() && (#[trigger] earlier_rows[m]).subtitle_id
                        == subtitle_id && earlier_rows[m].key@ == earlier[j].0
                        && earlier_rows[m].count == earlier[j].1;
                assert(feedback_counts[m] == earlier_rows[m]);
            } else {
                assert(feedback_counts[last] == row);
            }
        }
        assert forall|m: int|
            0 <= m < feedback_counts.len() && (#[trigger] feedback_counts[m]).subtitle_id
                == subtitle_id implies has_entry_for(all, feedback_counts[m]) by {
            if m < last {
                assert(earlier_rows[m] == feedback_counts[m]);
                assert(has_entry_for(earlier, earlier_rows[m]));
                let j = choose|j: int|
                    0 <= j < earlier.len() && (#[trigger] earlier[j]).0 == earlier_rows[m].key@
                        && earlier[j].1 == earlier_rows[m].count;
                assert(all[j] == earlier[j]);
            } else {
                assert(all[earlier.len() as int].0 == row.key@);
            }
        }
    }
}

/// Each feedback row of the user marks its key as voted among the
/// feedbacks of its subtitle.
pub proof fn lemma_given_feedback_is_voted(
    feedback_counts: Seq<FeedbackCountRow>,
    user_feedbacks: Seq<UserFeedbackRow>,
    k: int,
    j: int,
)
    requires
        0 <= k < user_feedbacks.len(),
        0 <= j < feedback_entries(user_feedbacks[k].subtitle_id, feedback_counts, user_feedbacks).len(),
        feedback_entries(user_feedbacks[k].subtitle_id, feedback_counts, user_feedbacks)[j].0
            == user_feedbacks[k].key@,
    ensures
        feedback_entries(user_feedbacks[k].subtitle_id, feedback_counts, user_feedbacks)[j].2,
{
    lemma_voted_entries(user_feedbacks[k].subtitle_id, feedback_counts, user_feedbacks);
}

} // verus!
