use vstd::prelude::*;
use crate::entities::progression_event_type::ProgressionEventType;
use crate::entities::user_progression::UserProgression;
use crate::use_cases::progression::ProgressionCounters;

verus! {

/// A kind of event as it is stored: its identifier and its name.
#[derive(Debug)]
pub struct ProgressionEventTypeDb {
    pub id: i32,
    pub event_type: String,
}

/// A counter of one user as it is read for display: the kind of event by its
/// name.
#[derive(Debug)]
pub struct UserProgressDb {
    pub event_type: String,
    pub progress_count: i32,
}

/// The count that `rows` gives for the kind named `event_type`; of two rows
/// for one kind the later one counts, and a kind without a row counts 0.
pub open spec fn progress_by_name(rows: Seq<UserProgressDb>, event_type: Seq<char>) -> int
    decreases rows.len(),
{
    if rows.len() == 0 {
        0
    } else if rows.last().event_type@ == event_type {
        rows.last().progress_count as int
    } else {
        progress_by_name(rows.drop_last(), event_type)
    }
}

fn lookup_progress(rows: &Vec<UserProgressDb>, event_type: &String) -> (progress: i32)
    ensures
        progress == progress_by_name(rows@, event_type@),
{
    let mut i: usize = rows.len();
    assert(rows@.take(i as int) == rows@);
    while i > 0
        invariant
            i <= rows.len(),
            progress_by_name(rows@, event_type@) == progress_by_name(
                rows@.take(i as int),
                event_type@,
            ),
        decreases i,
    {
        assert(rows@.take(i as int).drop_last() == rows@.take(i - 1));
        assert(rows@.take(i as int).last() == rows@[i - 1]);
        if rows[i - 1].event_type == *event_type {
            return rows[i - 1].progress_count;
        }
        i = i - 1;
    }
    0
}

/// The progress of one user for every kind of event there is, in the order
/// of the kinds: what was recorded, and 0 for a kind without a record.
pub fn merge_user_progressions(
    all_types: &Vec<ProgressionEventTypeDb>,
    user_progress: &Vec<UserProgressDb>,
) -> (result: Vec<UserProgression>)
    ensures
        result@.len() == all_types@.len(),
        forall|k: int|
            0 <= k < result@.len() ==> (#[trigger] result@[k]).progression_event_type@
                == all_types@[k].event_type@ && result@[k].current_progress == progress_by_name(
                user_progress@,
                all_types@[k].event_type@,
            ),
{
    let mut result: Vec<UserProgression> = Vec::new();
    let mut k: usize = 0;
    while k < all_types.len()
        invariant
            k <= all_types.len(),
            result@.len() == k,
            forall|m: int|
                0 <= m < k ==> (#[trigger] result@[m]).progression_event_type@
                    == all_types@[m].event_type@ && result@[m].current_progress
                    == progress_by_name(user_progress@, all_types@[m].event_type@),
        decreases all_types.len() - k,
    {
        let name = all_types[k].event_type.clone();
        let current_progress = lookup_progress(user_progress, &name);
        result.push(UserProgression { progression_event_type: name, current_progress });
        k = k + 1;
    }
    result
}

/// The progress that the counters hold for the kind with identifier `id`;
/// an identifier of no kind counts 0.
pub open spec fn progress_by_id(counters: ProgressionCounters, user_id: int, id: int) -> int {
    match ProgressionEventType::spec_from_id(id) {
        Some(kind) => counters.spec_progress(user_id, kind),
        None => 0,
    }
}

/// The progress of `user_id` for every kind of event there is, read from the
/// counters, in the order of the kinds.
pub fn read_user_progressions(
    counters: &ProgressionCounters,
    user_id: i32,
    all_types: &Vec<ProgressionEventTypeDb>,
) -> (result: Vec<UserProgression>)
    requires
        counters.wf(),
    ensures
        result@.len() == all_types@.len(),
        forall|k: int|
            0 <= k < result@.len() ==> (#[trigger] result@[k]).progression_event_type@
                == all_types@[k].event_type@ && result@[k].current_progress == progress_by_id(
                *counters,
                user_id as int,
                all_types@[k].id as int,
            ),
{
    let mut result: Vec<UserProgression> = Vec::new();
    let mut k: usize = 0;
    while k < all_types.len()
        invariant
            counters.wf(),
            k <= all_types.len(),
            result@.len() == k,
            forall|m: int|
                0 <= m < k ==> (#[trigger] result@[m]).progression_event_type@
                    == all_types@[m].event_type@ && result@[m].current_progress == progress_by_id(
                    *counters,
                    user_id as int,
                    all_types@[m].id as int,
                ),
        decreases all_types.len() - k,
    {
        let current_progress = match ProgressionEventType::from_id(all_types[k].id) {
            Some(kind) => counters.get_user_progression(user_id, kind),
            None => 0,
        };
        result.push(
            UserProgression {
                progression_event_type: all_types[k].event_type.clone(),
                current_progress,
            },
        );
        k = k + 1;
    }
    result
}

} // verus!
