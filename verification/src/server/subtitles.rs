use vstd::prelude::*;

use crate::subtitle_for_list::SubtitleRow;

verus! {

/// Each subtitle with its name and the number of distinct users who
/// downloaded it, as `(id, name, count)` rows.
pub const SUBTITLES_SQL: &'static str = "
        SELECT s.id, s.raw_name, (
            SELECT count(distinct(d.user_id)) FROM downloads d WHERE subtitle_id = s.id
        )
        FROM subtitles s
    ";

/// A subtitle in the public list.
pub struct SubtitleForList {
    pub id: i32,
    pub name: String,
    pub downloads_count: i64,
}

/// One list entry per row, in order.
pub fn list(rows: &Vec<SubtitleRow>) -> (list: Vec<SubtitleForList>)
    ensures
        list.len() == rows.len(),
        forall|i: int|
            0 <= i < list.len() ==> {
                &&& (#[trigger] list@[i]).id == rows@[i].id
                &&& list@[i].name@ == rows@[i].name@
                &&& list@[i].downloads_count == rows@[i].downloads_count
            },
{
    let mut list: Vec<SubtitleForList> = Vec::new();
    let mut i: usize = 0;
    while i < rows.len()
        invariant
            i <= rows.len(),
            list.len() == i,
            forall|k: int|
                0 <= k < i ==> {
                    &&& (#[trigger] list@[k]).id == rows@[k].id
                    &&& list@[k].name@ == rows@[k].name@
                    &&& list@[k].downloads_count == rows@[k].downloads_count
                },
        decreases rows.len() - i,
    {
        let row = &rows[i];
        list.push(
            SubtitleForList {
                id: row.id,
                name: row.name.clone(),
                downloads_count: row.downloads_count,
            },
        );
        i = i + 1;
    }
    list
}

} // verus!
