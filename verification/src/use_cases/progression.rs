use vstd::prelude::*;
use crate::entities::progression_event_type::ProgressionEventType;

verus! {

/// The latest known progress of one user for one kind of event.
#[derive(Debug, Clone, Copy, PartialEq, Eq, Structural)]
pub struct ProgressionCounter {
    pub user_id: i32,
    pub event_type: ProgressionEventType,
    pub progress_count: i32,
}

/// The count that `rows` holds for the pair, if it holds one.
pub open spec fn counter_lookup(
    rows: Seq<ProgressionCounter>,
    user_id: int,
    event_type: ProgressionEventType,
) -> Option<int>
    decreases rows.len(),
{
    if rows.len() == 0 {
        None
    } else if rows.last().user_id == user_id && rows.last().event_type == event_type {
        Some(rows.last().progress_count as int)
    } else {
        counter_lookup(rows.drop_last(), user_id, event_type)
    }
}

/// No pair of user and kind has two rows.
pub open spec fn counters_unique(rows: Seq<ProgressionCounter>) -> bool {
    forall|i: int, j: int|
        0 <= i < j < rows.len() ==> !((#[trigger] rows[i]).user_id == (#[trigger] rows[j]).user_id
            && rows[i].event_type == rows[j].event_type)
}

proof fn lemma_lookup_finds(
    rows: Seq<ProgressionCounter>,
    user_id: int,
    event_type: ProgressionEventType,
)
    ensures
        counter_lookup(rows, user_id, event_type) is Some <==> exists|i: int|
            0 <= i < rows.len() && (#[trigger] rows[i]).user_id == user_id && rows[i].event_type
                == event_type,
    decreases rows.len(),
{
    if rows.len() > 0 {
        let front = rows.drop_last();
        lemma_lookup_finds(front, user_id, event_type);
        if counter_lookup(front, user_id, event_type) is Some {
            let i = choose|i: int|
                0 <= i < front.len() && (#[trigger] front[i]).user_id == user_id
                    && front[i].event_type == event_type;
            assert(rows[i] == front[i]);
        }
        if exists|i: int|
            0 <= i < rows.len() && (#[trigger] rows[i]).user_id == user_id && rows[i].event_type
                == event_type {
            let i = choose|i: int|
                0 <= i < rows.len() && (#[trigger] rows[i]).user_id == user_id
                    && rows[i].event_type == event_type;
            if i < front.len() {
                assert(front[i] == rows[i]);
            }
        }
    }
}

proof fn lemma_lookup_at(rows: Seq<ProgressionCounter>, i: int)
    requires
        counters_unique(rows),
        0 <= i < rows.len(),
    ensures
        counter_lookup(rows, rows[i].user_id as int, rows[i].event_type) == Some(
            rows[i].progress_count as int,
        ),
    decreases rows.len(),
{
    if i < rows.len() - 1 {
        let front = rows.drop_last();
        assert(front[i] == rows[i]);
        assert(rows[rows.len() - 1] == rows.last());
        assert forall|a: int, b: int| 0 <= a < b < front.len() implies !((
        #[trigger] front[a]).user_id == (#[trigger] front[b]).user_id && front[a].event_type
            == front[b].event_type) by {
            assert(front[a] == rows[a] && front[b] == rows[b]);
        }
        lemma_lookup_at(front, i);
    }
}

proof fn lemma_lookup_after_update(
    rows: Seq<ProgressionCounter>,
    i: int,
    count: i32,
    user_id: int,
    event_type: ProgressionEventType,
)
    requires
        counters_unique(rows),
        0 <= i < rows.len(),
    ensures
        counters_unique(rows.update(i, ProgressionCounter { progress_count: count, ..rows[i] })),
        counter_lookup(
            rows.update(i, ProgressionCounter { progress_count: count, ..rows[i] }),
            user_id,
            event_type,
        ) == if user_id == rows[i].user_id && event_type == rows[i].event_type {
            Some(count as int)
        } else {
            counter_lookup(rows, user_id, event_type)
        },
    decreases rows.len(),
{
    let row = ProgressionCounter { progress_count: count, ..rows[i] };
    let after = rows.update(i, row);
    assert forall|a: int, b: int| 0 <= a < b < after.len() implies !((
    #[trigger] after[a]).user_id == (#[trigger] after[b]).user_id && after[a].event_type
        == after[b].event_type) by {
        assert(after[a].user_id == rows[a].user_id && after[a].event_type == rows[a].event_type);
        assert(after[b].user_id == rows[b].user_id && after[b].event_type == rows[b].event_type);
    }
    if user_id == rows[i].user_id && event_type == rows[i].event_type {
        lemma_lookup_at(after, i);
    } else {
        let front = rows.drop_last();
        assert forall|a: int, b: int| 0 <= a < b < front.len() implies !((
        #[trigger] front[a]).user_id == (#[trigger] front[b]).user_id && front[a].event_type
            == front[b].event_type) by {
            assert(front[a] == rows[a] && front[b] == rows[b]);
        }
        if i < rows.len() - 1 {
            assert(front[i] == rows[i]);
            assert(after.drop_last() == front.update(i, row));
            lemma_lookup_after_update(front, i, count, user_id, event_type);
        } else {
            assert(after.drop_last() == front);
        }
    }
}

/// The progression recorder: one counter for each pair of user and kind of
/// event that was ever recorded.
pub struct ProgressionCounters {
    rows: Vec<ProgressionCounter>,
}

impl View for ProgressionCounters {
    type V = Map<(int, ProgressionEventType), int>;

    /// The recorded counts, by user and kind.
    closed spec fn view(&self) -> Map<(int, ProgressionEventType), int> {
        Map::new(
            |key: (int, ProgressionEventType)| counter_lookup(self.rows@, key.0, key.1) is Some,
            |key: (int, ProgressionEventType)| counter_lookup(self.rows@, key.0, key.1)->0,
        )
    }
}

impl ProgressionCounters {
    /// One row per pair of user and kind.
    pub closed spec fn wf(&self) -> bool {
        counters_unique(self.rows@)
    }

    /// The progress that is read for a pair: the recorded count, and 0 where
    /// none was recorded.
    pub open spec fn spec_progress(&self, user_id: int, event_type: ProgressionEventType) -> int {
        if self@.contains_key((user_id, event_type)) {
            self@[(user_id, event_type)]
        } else {
            0
        }
    }

    pub fn new() -> (counters: ProgressionCounters)
        ensures
            counters.wf(),
            counters@ == Map::<(int, ProgressionEventType), int>::empty(),
    {
        let counters = ProgressionCounters { rows: Vec::new() };
        assert(counters@ =~= Map::<(int, ProgressionEventType), int>::empty());
        counters
    }

    fn position(&self, user_id: i32, event_type: ProgressionEventType) -> (at: Option<usize>)
        requires
            self.wf(),
        ensures
            at is Some <==> self@.contains_key((user_id as int, event_type)),
            at matches Some(i) ==> i < self.rows@.len() && self.rows@[i as int].user_id == user_id
                && self.rows@[i as int].event_type == event_type && self@[(
                user_id as int,
                event_type,
            )] == self.rows@[i as int].progress_count,
    {
        proof {
            lemma_lookup_finds(self.rows@, user_id as int, event_type);
        }
        let mut i: usize = 0;
        while i < self.rows.len()
            invariant
                self.wf(),
                i <= self.rows.len(),
                forall|k: int|
                    0 <= k < i ==> !((#[trigger] self.rows@[k]).user_id == user_id
                        && self.rows@[k].event_type == event_type),
            decreases self.rows.len() - i,
        {
            if self.rows[i].user_id == user_id && self.rows[i].event_type == event_type {
                proof {
                    lemma_lookup_at(self.rows@, i as int);
                }
                return Some(i);
            }
            i = i + 1;
        }
        None
    }

    /// Records the progress of `user_id` for `event_type`. The count replaces
    /// whatever was recorded for the pair before, higher or lower; no other
    /// pair changes.
    pub fn record_progression_event(
        &mut self,
        user_id: i32,
        event_type: ProgressionEventType,
        progress_count: i32,
    )
        requires
            old(self).wf(),
        ensures
            final(self).wf(),
            final(self)@ == old(self)@.insert((user_id as int, event_type), progress_count as int),
    {
        let ghost before = self.rows@;
        match self.position(user_id, event_type) {
            Some(i) => {
                let row = ProgressionCounter { user_id, event_type, progress_count };
                self.rows[i] = row;
                proof {
                    assert(row == ProgressionCounter { progress_count, ..before[i as int] });
                    assert(self.rows@ == before.update(i as int, row));
                    assert forall|key: (int, ProgressionEventType)|
                        counter_lookup(self.rows@, key.0, key.1) == if key == (
                            user_id as int,
                            event_type,
                        ) {
                            Some(progress_count as int)
                        } else {
                            #[trigger] counter_lookup(before, key.0, key.1)
                        } by {
                        lemma_lookup_after_update(before, i as int, progress_count, key.0, key.1);
                    }
                    lemma_lookup_after_update(
                        before,
                        i as int,
                        progress_count,
                        user_id as int,
                        event_type,
                    );
                }
            },
            None => {
                let row = ProgressionCounter { user_id, event_type, progress_count };
                self.rows.push(row);
                proof {
                    lemma_lookup_finds(before, user_id as int, event_type);
                    assert(self.rows@.drop_last() == before);
                    assert forall|i: int, j: int| 0 <= i < j < self.rows@.len() implies !((
                    #[trigger] self.rows@[i]).user_id == (#[trigger] self.rows@[j]).user_id
                        && self.rows@[i].event_type == self.rows@[j].event_type) by {
                        assert(self.rows@[i] == before[i]);
                        if j < before.len() {
                            assert(self.rows@[j] == before[j]);
                        }
                    }
                }
            },
        }
        assert(self@ =~= old(self)@.insert((user_id as int, event_type), progress_count as int));
    }

    /// The progress of `user_id` for `event_type`: the recorded count, and 0
    /// where none was recorded.
    pub fn get_user_progression(&self, user_id: i32, event_type: ProgressionEventType) -> (progress:
        i32)
        requires
            self.wf(),
        ensures
            progress == self.spec_progress(user_id as int, event_type),
    {
        match self.position(user_id, event_type) {
            Some(i) => self.rows[i].progress_count,
            None => 0,
        }
    }
}

} // verus!
