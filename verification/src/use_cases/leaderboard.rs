use vstd::prelude::*;
use crate::app_error::{AppError, AppErrorView, AppResult};
use vstd::string::StringExecFns;
use crate::entities::leaderboard_entry::{LeaderboardEntry, LeaderboardEntryDto, LeaderboardEntryView};

verus! {

/// Whether `a` stands before `b`: by the higher score, and between equal
/// scores by the earlier registration.
pub open spec fn outranks(a: LeaderboardEntryView, b: LeaderboardEntryView) -> bool {
    a.total_score > b.total_score || (a.total_score == b.total_score && a.created_at
        < b.created_at)
}

/// The number of entries that stand before `me`.
pub open spec fn count_outranking(entries: Seq<LeaderboardEntryView>, me: LeaderboardEntryView) -> nat
    decreases entries.len(),
{
    if entries.len() == 0 {
        0
    } else {
        count_outranking(entries.drop_last(), me) + if outranks(entries.last(), me) {
            1nat
        } else {
            0nat
        }
    }
}

/// The rank of `me` as of now: one more than the number of entries that stand
/// before it.
pub open spec fn realtime_rank(entries: Seq<LeaderboardEntryView>, me: LeaderboardEntryView) -> nat {
    1 + count_outranking(entries, me)
}

/// The highest persisted rank, 0 on an empty board.
pub open spec fn max_rank(entries: Seq<LeaderboardEntryView>) -> nat
    decreases entries.len(),
{
    if entries.len() == 0 {
        0
    } else {
        let before = max_rank(entries.drop_last());
        if entries.last().rank > before {
            entries.last().rank
        } else {
            before
        }
    }
}

pub open spec fn has_user(entries: Seq<LeaderboardEntryView>, user_id: int) -> bool {
    exists|i: int| 0 <= i < entries.len() && (#[trigger] entries[i]).user_id == user_id
}

pub open spec fn has_key(entries: Seq<LeaderboardEntryView>, public_key: Seq<char>) -> bool {
    exists|i: int| 0 <= i < entries.len() && (#[trigger] entries[i]).public_key == public_key
}

/// Whether the board holds the user under this very key.
pub open spec fn is_member(
    entries: Seq<LeaderboardEntryView>,
    user_id: int,
    public_key: Seq<char>,
) -> bool {
    exists|i: int|
        0 <= i < entries.len() && (#[trigger] entries[i]).user_id == user_id
            && entries[i].public_key == public_key
}

/// The persisted ranks are 1, 2, 3 and so on, in the order of the entries.
pub open spec fn ranks_in_order(entries: Seq<LeaderboardEntryView>) -> bool {
    forall|i: int| 0 <= i < entries.len() ==> (#[trigger] entries[i]).rank == i + 1
}

/// No two entries share a user or a key.
pub open spec fn users_distinct(entries: Seq<LeaderboardEntryView>) -> bool {
    forall|i: int, j: int|
        0 <= i < j < entries.len() ==> (#[trigger] entries[i]).user_id != (
        #[trigger] entries[j]).user_id && entries[i].public_key != entries[j].public_key
}

/// The error for a user or a key that the board holds in another pairing.
pub open spec fn board_conflict() -> AppErrorView {
    AppErrorView::Database("leaderboard entry conflicts with an existing one"@)
}

/// The error of a board that has no rank left to give.
pub open spec fn board_full() -> AppErrorView {
    AppErrorView::Internal("leaderboard is full"@)
}

fn conflict() -> (error: AppError)
    ensures
        error@ == board_conflict(),
{
    AppError::Database(String::from_str("leaderboard entry conflicts with an existing one"))
}

fn full() -> (error: AppError)
    ensures
        error@ == board_full(),
{
    AppError::Internal(String::from_str("leaderboard is full"))
}

/// The entry that a user gets on joining.
pub open spec fn fresh_entry(user_id: i32, public_key: Seq<char>, rank: nat, created_at: i64) -> LeaderboardEntryView {
    LeaderboardEntryView {
        user_id: user_id as int,
        public_key,
        total_score: 0,
        rank,
        previous_rank: rank,
        created_at: created_at as int,
    }
}

/// The views of a run of entries.
pub open spec fn entry_views(entries: Seq<LeaderboardEntry>) -> Seq<LeaderboardEntryView> {
    entries.map_values(|e: LeaderboardEntry| e@)
}

/// Where the persisted ranks run 1, 2, 3 and so on, the highest of them is the
/// number of entries.
pub proof fn lemma_max_rank_is_len(entries: Seq<LeaderboardEntryView>)
    requires
        ranks_in_order(entries),
    ensures
        max_rank(entries) == entries.len(),
        forall|i: int| 0 <= i < entries.len() ==> (#[trigger] entries[i]).rank <= max_rank(entries),
    decreases entries.len(),
{
    if entries.len() > 0 {
        let front = entries.drop_last();
        assert forall|i: int| 0 <= i < front.len() implies (#[trigger] front[i]).rank == i + 1 by {
            assert(front[i] == entries[i]);
        }
        lemma_max_rank_is_len(front);
        assert(entries[entries.len() - 1] == entries.last());
    }
}

/// Whoever stands before `a` stands before everything that `a` stands before,
/// so `a` has fewer entries before it; strictly fewer on a board that holds
/// `a` itself.
pub proof fn lemma_count_outranking_monotone(
    entries: Seq<LeaderboardEntryView>,
    a: LeaderboardEntryView,
    b: LeaderboardEntryView,
)
    requires
        outranks(a, b),
    ensures
        count_outranking(entries, a) <= count_outranking(entries, b),
        entries.contains(a) ==> count_outranking(entries, a) < count_outranking(entries, b),
    decreases entries.len(),
{
    if entries.len() > 0 {
        let front = entries.drop_last();
        lemma_count_outranking_monotone(front, a, b);
        if entries.contains(a) {
            let k = choose|k: int| 0 <= k < entries.len() && entries[k] == a;
            if k < front.len() {
                assert(front[k] == a);
            } else {
                assert(entries.last() == a);
            }
        }
    }
}

/// Entries with the same score and the same registration time have the same
/// entries before them.
pub proof fn lemma_count_outranking_tie(
    entries: Seq<LeaderboardEntryView>,
    a: LeaderboardEntryView,
    b: LeaderboardEntryView,
)
    requires
        a.total_score == b.total_score,
        a.created_at == b.created_at,
    ensures
        count_outranking(entries, a) == count_outranking(entries, b),
    decreases entries.len(),
{
    if entries.len() > 0 {
        lemma_count_outranking_tie(entries.drop_last(), a, b);
    }
}

/// An entry of the board has fewer entries before it than the board has
/// entries.
pub proof fn lemma_count_outranking_bound(entries: Seq<LeaderboardEntryView>, me: LeaderboardEntryView)
    ensures
        count_outranking(entries, me) <= entries.len(),
        entries.contains(me) ==> count_outranking(entries, me) < entries.len(),
    decreases entries.len(),
{
    if entries.len() > 0 {
        let front = entries.drop_last();
        lemma_count_outranking_bound(front, me);
        if entries.contains(me) {
            let k = choose|k: int| 0 <= k < entries.len() && entries[k] == me;
            if k < front.len() {
                assert(front[k] == me);
            } else {
                assert(entries.last() == me);
            }
        }
    }
}

/// The real-time rank orders the board. Of any two entries, the one with the
/// higher score has the strictly lower rank number; between equal scores the
/// one registered earlier has it; entries that agree in both share a rank. No
/// rank is below 1 or above the number of entries.
pub proof fn lemma_realtime_rank_is_ordered(entries: Seq<LeaderboardEntryView>, i: int, j: int)
    requires
        0 <= i < entries.len(),
        0 <= j < entries.len(),
    ensures
        1 <= realtime_rank(entries, entries[i]) <= entries.len(),
        entries[i].total_score > entries[j].total_score ==> realtime_rank(entries, entries[i])
            < realtime_rank(entries, entries[j]),
        entries[i].total_score == entries[j].total_score && entries[i].created_at
            < entries[j].created_at ==> realtime_rank(entries, entries[i]) < realtime_rank(
            entries,
            entries[j],
        ),
        entries[i].total_score == entries[j].total_score && entries[i].created_at
            == entries[j].created_at ==> realtime_rank(entries, entries[i]) == realtime_rank(
            entries,
            entries[j],
        ),
        realtime_rank(entries, entries[i]) < realtime_rank(entries, entries[j]) ==> outranks(
            entries[i],
            entries[j],
        ),
{
    let a = entries[i];
    let b = entries[j];
    assert(entries.contains(a));
    assert(entries.contains(b));
    lemma_count_outranking_bound(entries, a);
    if outranks(a, b) {
        lemma_count_outranking_monotone(entries, a, b);
    } else if outranks(b, a) {
        lemma_count_outranking_monotone(entries, b, a);
    } else {
        lemma_count_outranking_tie(entries, a, b);
    }
}

/// No entry stands behind one that it outranks.
pub open spec fn in_rank_order(entries: Seq<LeaderboardEntryView>) -> bool {
    forall|i: int, j: int|
        0 <= i < j < entries.len() ==> !outranks(#[trigger] entries[j], #[trigger] entries[i])
}

/// The place at which `entry` goes into a run that is in rank order: before
/// the entries at the end that it outranks, behind all others.
pub open spec fn rank_position(sorted: Seq<LeaderboardEntryView>, entry: LeaderboardEntryView) -> int
    decreases sorted.len(),
{
    if sorted.len() == 0 {
        0
    } else if outranks(entry, sorted.last()) {
        rank_position(sorted.drop_last(), entry)
    } else {
        sorted.len() as int
    }
}

/// The entries in rank order: highest score first, between equal scores the
/// earlier registration first, and entries that agree in both in the order
/// they had.
pub open spec fn ranked(entries: Seq<LeaderboardEntryView>) -> Seq<LeaderboardEntryView>
    decreases entries.len(),
{
    if entries.len() == 0 {
        Seq::empty()
    } else {
        let before = ranked(entries.drop_last());
        before.insert(rank_position(before, entries.last()), entries.last())
    }
}

/// The entries with their ranks counted anew from 1 in the order they stand
/// in, each keeping the rank it had as its previous rank.
pub open spec fn renumbered(entries: Seq<LeaderboardEntryView>) -> Seq<LeaderboardEntryView> {
    Seq::new(
        entries.len(),
        |i: int|
            LeaderboardEntryView {
                rank: (i + 1) as nat,
                previous_rank: entries[i].rank,
                ..entries[i]
            },
    )
}

/// Where an entry goes into a run in rank order: it outranks exactly the
/// entries from its place on, and the run with the entry at that place is in
/// rank order again.
pub proof fn lemma_rank_position(sorted: Seq<LeaderboardEntryView>, entry: LeaderboardEntryView)
    requires
        in_rank_order(sorted),
    ensures
        0 <= rank_position(sorted, entry) <= sorted.len(),
        forall|i: int|
            0 <= i < sorted.len() ==> (outranks(entry, #[trigger] sorted[i]) <==> i
                >= rank_position(sorted, entry)),
        in_rank_order(sorted.insert(rank_position(sorted, entry), entry)),
    decreases sorted.len(),
{
    let p = rank_position(sorted, entry);
    if sorted.len() > 0 {
        let front = sorted.drop_last();
        assert forall|i: int, j: int| 0 <= i < j < front.len() implies !outranks(
            #[trigger] front[j],
            #[trigger] front[i],
        ) by {
            assert(front[i] == sorted[i] && front[j] == sorted[j]);
        }
        lemma_rank_position(front, entry);
        assert forall|i: int| 0 <= i < sorted.len() implies (outranks(entry, #[trigger] sorted[i])
            <==> i >= p) by {
            if i < front.len() {
                assert(front[i] == sorted[i]);
                if !outranks(entry, sorted.last()) {
                    assert(!outranks(sorted[sorted.len() - 1], sorted[i]));
                }
            }
        }
    }
    let after = sorted.insert(p, entry);
    assert forall|i: int, j: int| 0 <= i < j < after.len() implies !outranks(
        #[trigger] after[j],
        #[trigger] after[i],
    ) by {
        if i < p {
            assert(after[i] == sorted[i]);
        } else if i > p {
            assert(after[i] == sorted[i - 1]);
        }
        if j < p {
            assert(after[j] == sorted[j]);
        } else if j > p {
            assert(after[j] == sorted[j - 1]);
        }
    }
}

/// The ranked entries are in rank order, they are the same entries as
/// before, each as often as before, and no entry among them is new.
pub proof fn lemma_ranked(entries: Seq<LeaderboardEntryView>)
    ensures
        in_rank_order(ranked(entries)),
        ranked(entries).len() == entries.len(),
        ranked(entries).to_multiset() == entries.to_multiset(),
        forall|i: int|
            0 <= i < entries.len() ==> exists|j: int|
                0 <= j < entries.len() && (#[trigger] ranked(entries)[i]) == entries[j],
        users_distinct(entries) ==> users_distinct(ranked(entries)),
    decreases entries.len(),
{
    if entries.len() == 0 {
        assert(entries =~= ranked(entries));
    } else {
        let front = entries.drop_last();
        let x = entries.last();
        let before = ranked(front);
        lemma_ranked(front);
        lemma_rank_position(before, x);
        let p = rank_position(before, x);
        let after = before.insert(p, x);
        assert(after == ranked(entries));
        assert(after.remove(p) == before);
        assert(after[p] == x);
        vstd::seq_lib::to_multiset_remove(after, p);
        vstd::seq_lib::to_multiset_build(front, x);
        assert(front.push(x) == entries);
        assert(after.to_multiset() =~= entries.to_multiset()) by {
            after.to_multiset_ensures();
            assert(after.contains(x));
        }
        assert forall|i: int| 0 <= i < entries.len() implies exists|j: int|
            0 <= j < entries.len() && (#[trigger] after[i]) == entries[j] by {
            if i == p {
                assert(after[i] == entries[entries.len() - 1]);
            } else {
                let k = if i < p {
                    i
                } else {
                    i - 1
                };
                assert(after[i] == before[k]);
                let j = choose|j: int| 0 <= j < front.len() && before[k] == front[j];
                assert(front[j] == entries[j]);
            }
        }
        if users_distinct(entries) {
            assert forall|a: int, b: int| 0 <= a < b < front.len() implies (
            #[trigger] front[a]).user_id != (#[trigger] front[b]).user_id && front[a].public_key
                != front[b].public_key by {
                assert(front[a] == entries[a] && front[b] == entries[b]);
            }
            assert forall|k: int| 0 <= k < before.len() implies (#[trigger] before[k]).user_id
                != x.user_id && before[k].public_key != x.public_key by {
                let j = choose|j: int| 0 <= j < front.len() && before[k] == front[j];
                assert(front[j] == entries[j]);
                assert(entries[j].user_id != entries[entries.len() - 1].user_id);
            }
            assert forall|a: int, b: int| 0 <= a < b < after.len() implies (
            #[trigger] after[a]).user_id != (#[trigger] after[b]).user_id && after[a].public_key
                != after[b].public_key by {
                let ka = if a < p {
                    a
                } else {
                    a - 1
                };
                let kb = if b < p {
                    b
                } else {
                    b - 1
                };
                if a != p {
                    assert(after[a] == before[ka]);
                }
                if b != p {
                    assert(after[b] == before[kb]);
                }
            }
        }
    }
}

/// In a run in rank order in which no two entries agree in both score and
/// registration time, the place of every entry is its real-time rank.
pub proof fn lemma_rank_order_gives_realtime_rank(entries: Seq<LeaderboardEntryView>, i: int)
    requires
        in_rank_order(entries),
        0 <= i < entries.len(),
        forall|a: int, b: int|
            0 <= a < b < entries.len() ==> (#[trigger] entries[a]).total_score != (
            #[trigger] entries[b]).total_score || entries[a].created_at != entries[b].created_at,
    ensures
        realtime_rank(entries, entries[i]) == i + 1,
{
    lemma_count_in_order(entries, i, entries.len() as int);
    assert(entries.take(entries.len() as int) == entries);
}

/// Counting anew changes no score and no registration time, so it changes
/// nothing about who stands before whom.
proof fn lemma_renumbering_keeps_counts(
    entries: Seq<LeaderboardEntryView>,
    upto: int,
    me: LeaderboardEntryView,
    renumbered_me: LeaderboardEntryView,
)
    requires
        0 <= upto <= entries.len(),
        me.total_score == renumbered_me.total_score,
        me.created_at == renumbered_me.created_at,
    ensures
        count_outranking(renumbered(entries).take(upto), renumbered_me) == count_outranking(
            entries.take(upto),
            me,
        ),
    decreases upto,
{
    if upto > 0 {
        lemma_renumbering_keeps_counts(entries, upto - 1, me, renumbered_me);
        assert(entries.take(upto).drop_last() == entries.take(upto - 1));
        assert(renumbered(entries).take(upto).drop_last() == renumbered(entries).take(upto - 1));
        assert(entries.take(upto).last() == entries[upto - 1]);
        assert(renumbered(entries).take(upto).last() == renumbered(entries)[upto - 1]);
    }
}

/// After the ranks of a board are recomputed, the persisted rank of every
/// entry is its real-time rank, provided that no two entries agree in both
/// score and registration time.
pub proof fn lemma_recomputed_rank_is_realtime_rank(entries: Seq<LeaderboardEntryView>, i: int)
    requires
        users_distinct(entries),
        0 <= i < entries.len(),
        forall|a: int, b: int|
            0 <= a < b < entries.len() ==> (#[trigger] entries[a]).total_score != (
            #[trigger] entries[b]).total_score || entries[a].created_at != entries[b].created_at,
    ensures
        renumbered(ranked(entries)).len() == entries.len(),
        renumbered(ranked(entries))[i].rank == realtime_rank(
            renumbered(ranked(entries)),
            renumbered(ranked(entries))[i],
        ),
{
    let order = ranked(entries);
    let after = renumbered(order);
    lemma_ranked(entries);
    assert forall|a: int, b: int| 0 <= a < b < order.len() implies (
    #[trigger] order[a]).total_score != (#[trigger] order[b]).total_score || order[a].created_at
        != order[b].created_at by {
        let ja = choose|j: int| 0 <= j < entries.len() && order[a] == entries[j];
        let jb = choose|j: int| 0 <= j < entries.len() && order[b] == entries[j];
        assert(order[a].user_id != order[b].user_id);
        assert(ja != jb);
        if ja < jb {
            assert(entries[ja].total_score != entries[jb].total_score || entries[ja].created_at
                != entries[jb].created_at);
        } else {
            assert(entries[jb].total_score != entries[ja].total_score || entries[jb].created_at
                != entries[ja].created_at);
        }
    }
    lemma_rank_order_gives_realtime_rank(order, i);
    lemma_renumbering_keeps_counts(order, order.len() as int, order[i], after[i]);
    assert(order.take(order.len() as int) == order);
    assert(after.take(order.len() as int) == after);
}

proof fn lemma_count_in_order(entries: Seq<LeaderboardEntryView>, i: int, upto: int)
    requires
        in_rank_order(entries),
        0 <= i < entries.len(),
        0 <= upto <= entries.len(),
        forall|a: int, b: int|
            0 <= a < b < entries.len() ==> (#[trigger] entries[a]).total_score != (
            #[trigger] entries[b]).total_score || entries[a].created_at != entries[b].created_at,
    ensures
        count_outranking(entries.take(upto), entries[i]) == if upto <= i {
            upto
        } else {
            i
        },
    decreases upto,
{
    if upto > 0 {
        lemma_count_in_order(entries, i, upto - 1);
        assert(entries.take(upto).drop_last() == entries.take(upto - 1));
        assert(entries.take(upto).last() == entries[upto - 1]);
        let other = entries[upto - 1];
        if upto - 1 < i {
            assert(!outranks(entries[i], entries[upto - 1]));
            assert(outranks(other, entries[i]));
        } else if upto - 1 > i {
            assert(!outranks(entries[upto - 1], entries[i]));
        }
    }
}

/// The leaderboard: every user once, each with a persisted rank, the ranks
/// running from 1 without a gap.
pub struct Leaderboard {
    entries: Vec<LeaderboardEntry>,
}

impl View for Leaderboard {
    type V = Seq<LeaderboardEntryView>;

    closed spec fn view(&self) -> Seq<LeaderboardEntryView> {
        entry_views(self.entries@)
    }
}

impl Leaderboard {
    pub open spec fn wf(&self) -> bool {
        &&& ranks_in_order(self@)
        &&& users_distinct(self@)
        &&& self@.len() <= u32::MAX
    }

    pub fn new() -> (board: Leaderboard)
        ensures
            board.wf(),
            board@ == Seq::<LeaderboardEntryView>::empty(),
    {
        let board = Leaderboard { entries: Vec::new() };
        assert(board@ =~= Seq::<LeaderboardEntryView>::empty());
        board
    }

    fn position_of_user(&self, user_id: i32) -> (at: Option<usize>)
        ensures
            at is Some <==> has_user(self@, user_id as int),
            at matches Some(i) ==> i < self@.len() && self@[i as int].user_id == user_id,
    {
        let mut i: usize = 0;
        while i < self.entries.len()
            invariant
                i <= self.entries.len(),
                self@.len() == self.entries.len(),
                forall|k: int| 0 <= k < i ==> (#[trigger] self@[k]).user_id != user_id,
            decreases self.entries.len() - i,
        {
            if self.entries[i].user_id == user_id {
                assert(self@[i as int].user_id == user_id);
                return Some(i);
            }
            i = i + 1;
        }
        None
    }

    fn position_of_key(&self, public_key: &String) -> (at: Option<usize>)
        ensures
            at is Some <==> has_key(self@, public_key@),
            at matches Some(i) ==> i < self@.len() && self@[i as int].public_key == public_key@,
    {
        let mut i: usize = 0;
        while i < self.entries.len()
            invariant
                i <= self.entries.len(),
                self@.len() == self.entries.len(),
                forall|k: int| 0 <= k < i ==> (#[trigger] self@[k]).public_key != public_key@,
            decreases self.entries.len() - i,
        {
            if self.entries[i].public_key == *public_key {
                assert(self@[i as int].public_key == public_key@);
                return Some(i);
            }
            i = i + 1;
        }
        None
    }

    /// The number of users on the board.
    pub fn get_total_users_with_badges(&self) -> (total: u32)
        requires
            self.wf(),
        ensures
            total == self@.len(),
    {
        self.entries.len() as u32
    }

    /// Puts a new user on the board, with score 0 and the rank after the
    /// highest rank there is. A user who is on the board under the same key
    /// stays as they are and is told their persisted rank. A user or a key
    /// that the board holds in another pairing is refused, and so is a board
    /// that has no rank left to give.
    pub fn add_user(&mut self, user_id: i32, public_key: &str, created_at: i64) -> (result:
        AppResult<u32>)
        requires
            old(self).wf(),
        ensures
            final(self).wf(),
            result is Ok <==> is_member(old(self)@, user_id as int, public_key@) || (!has_user(
                old(self)@,
                user_id as int,
            ) && !has_key(old(self)@, public_key@) && old(self)@.len() < u32::MAX),
            match result {
                Ok(rank) => if is_member(old(self)@, user_id as int, public_key@) {
                    &&& final(self)@ == old(self)@
                    &&& exists|i: int|
                        0 <= i < old(self)@.len() && (#[trigger] old(self)@[i]).user_id == user_id
                            && old(self)@[i].rank == rank
                } else {
                    &&& rank == max_rank(old(self)@) + 1
                    &&& forall|i: int|
                        0 <= i < old(self)@.len() ==> (#[trigger] old(self)@[i]).rank < rank
                    &&& final(self)@ == old(self)@.push(
                        fresh_entry(user_id, public_key@, rank as nat, created_at),
                    )
                },
                Err(e) => {
                    &&& final(self)@ == old(self)@
                    &&& e@ == if has_user(old(self)@, user_id as int) || has_key(
                        old(self)@,
                        public_key@,
                    ) {
                        board_conflict()
                    } else {
                        board_full()
                    }
                },
            },
    {
        let key = public_key.to_owned();
        let by_user = self.position_of_user(user_id);
        let by_key = self.position_of_key(&key);
        proof {
            lemma_max_rank_is_len(self@);
        }
        match (by_user, by_key) {
            (Some(i), Some(j)) => {
                if i == j {
                    Ok(self.entries[i].rank)
                } else {
                    proof {
                        if is_member(self@, user_id as int, public_key@) {
                            let k = choose|k: int|
                                0 <= k < self@.len() && (#[trigger] self@[k]).user_id == user_id
                                    && self@[k].public_key == public_key@;
                            assert(k == i as int);
                            assert(k == j as int);
                        }
                    }
                    Err(conflict())
                }
            },
            (Some(i), None) => {
                Err(conflict())
            },
            (None, Some(j)) => {
                Err(conflict())
            },
            (None, None) => {
                if self.entries.len() >= u32::MAX as usize {
                    Err(full())
                } else {
                    let rank = (self.entries.len() + 1) as u32;
                    let ghost before = self@;
                    self.entries.push(
                        LeaderboardEntry {
                            user_id,
                            public_key: key,
                            total_score: 0,
                            rank,
                            previous_rank: rank,
                            created_at,
                        },
                    );
                    proof {
                        assert(self@ =~= before.push(
                            fresh_entry(user_id, public_key@, rank as nat, created_at),
                        ));
                        assert forall|a: int, b: int| 0 <= a < b < self@.len() implies (
                        #[trigger] self@[a]).user_id != (#[trigger] self@[b]).user_id
                            && self@[a].public_key != self@[b].public_key by {
                            assert(self@[a] == before[a]);
                            if b < before.len() {
                                assert(self@[b] == before[b]);
                            }
                        }
                        assert forall|a: int| 0 <= a < self@.len() implies (
                        #[trigger] self@[a]).rank == a + 1 by {
                            if a < before.len() {
                                assert(self@[a] == before[a]);
                            }
                        }
                    }
                    Ok(rank)
                }
            },
        }
    }

    fn count_before(&self, at: usize) -> (count: u32)
        requires
            self.wf(),
            at < self@.len(),
        ensures
            count == count_outranking(self@, self@[at as int]),
            count < self@.len(),
    {
        let me_score = self.entries[at].total_score;
        let me_created = self.entries[at].created_at;
        let ghost me = self@[at as int];
        let mut count: u32 = 0;
        let mut i: usize = 0;
        while i < self.entries.len()
            invariant
                self.wf(),
                at < self@.len(),
                self@.len() == self.entries.len(),
                me == self@[at as int],
                me_score == me.total_score,
                me_created == me.created_at,
                i <= self.entries.len(),
                count == count_outranking(self@.take(i as int), me),
                count <= i,
                i > at ==> count < i,
            decreases self.entries.len() - i,
        {
            assert(self@.take(i + 1).drop_last() == self@.take(i as int));
            assert(self@.take(i + 1).last() == self@[i as int]);
            let other = &self.entries[i];
            if other.total_score > me_score || (other.total_score == me_score && other.created_at
                < me_created) {
                count = count + 1;
            }
            i = i + 1;
        }
        assert(self@.take(i as int) == self@);
        count
    }

    /// The rank of the user with `public_key` as of now, computed over the
    /// whole board; 0 for a key that is not on the board.
    pub fn get_user_rank(&self, public_key: &str) -> (rank: u32)
        requires
            self.wf(),
        ensures
            !has_key(self@, public_key@) ==> rank == 0,
            has_key(self@, public_key@) ==> exists|i: int|
                0 <= i < self@.len() && (#[trigger] self@[i]).public_key == public_key@ && rank
                    == realtime_rank(self@, self@[i]),
    {
        let key = public_key.to_owned();
        match self.position_of_key(&key) {
            Some(i) => self.count_before(i) + 1,
            None => 0,
        }
    }

    /// The entry of the user with `public_key` with its rank as of now in
    /// place of the persisted one.
    pub fn get_user_leaderboard_entry(&self, public_key: &str) -> (entry: Option<LeaderboardEntry>)
        requires
            self.wf(),
        ensures
            entry is Some <==> has_key(self@, public_key@),
            entry matches Some(e) ==> exists|i: int|
                0 <= i < self@.len() && (#[trigger] self@[i]).public_key == public_key@ && e@
                    == (LeaderboardEntryView { rank: realtime_rank(self@, self@[i]), ..self@[i] }),
    {
        let key = public_key.to_owned();
        match self.position_of_key(&key) {
            Some(i) => {
                let rank = self.count_before(i) + 1;
                let mut entry = self.entries[i].duplicate();
                entry.rank = rank;
                Some(entry)
            },
            None => None,
        }
    }

    /// The entry of the user with `public_key` as it is persisted.
    pub fn get_cached_entry(&self, public_key: &str) -> (entry: Option<LeaderboardEntry>)
        requires
            self.wf(),
        ensures
            entry is Some <==> has_key(self@, public_key@),
            entry matches Some(e) ==> exists|i: int|
                0 <= i < self@.len() && (#[trigger] self@[i]).public_key == public_key@ && e@
                    == self@[i],
    {
        let key = public_key.to_owned();
        match self.position_of_key(&key) {
            Some(i) => Some(self.entries[i].duplicate()),
            None => None,
        }
    }

    /// One window of the persisted ranking: the entries in ascending order of
    /// rank, without the first `offset` of them, and no more than `limit`.
    pub fn get_leaderboard_entries(&self, limit: u32, offset: u32) -> (page: Vec<LeaderboardEntry>)
        requires
            self.wf(),
        ensures
            entry_views(page@) == self@.subrange(
                page_start(self@.len(), offset as nat) as int,
                page_end(self@.len(), offset as nat, limit as nat) as int,
            ),
            forall|k: int| 0 <= k < page@.len() ==> (#[trigger] page@[k]).rank == offset + k + 1,
    {
        let n = self.entries.len();
        let start: usize = if (offset as usize) < n {
            offset as usize
        } else {
            n
        };
        let end: usize = if (limit as usize) < n - start {
            start + limit as usize
        } else {
            n
        };
        let mut page: Vec<LeaderboardEntry> = Vec::new();
        let mut i: usize = start;
        while i < end
            invariant
                self.wf(),
                self@.len() == self.entries.len(),
                start <= i <= end <= n,
                n == self.entries.len(),
                entry_views(page@) == self@.subrange(start as int, i as int),
            decreases end - i,
        {
            let entry = self.entries[i].duplicate();
            let ghost shorter = page@;
            page.push(entry);
            proof {
                let target = self@.subrange(start as int, i + 1);
                assert(entry_views(shorter).len() == shorter.len());
                assert(self@.subrange(start as int, i as int).len() == i - start);
                assert(page@.len() == i + 1 - start);
                assert(entry_views(page@).len() == page@.len());
                assert forall|k: int| 0 <= k < target.len() implies entry_views(page@)[k]
                    == target[k] by {
                    assert(entry_views(page@)[k] == page@[k]@);
                    if k < shorter.len() {
                        assert(entry_views(shorter)[k] == self@.subrange(start as int, i as int)[k]);
                        assert(page@[k] == shorter[k]);
                    } else {
                        assert(page@[k] == entry);
                        assert(self@[i as int] == self.entries@[i as int]@);
                    }
                }
                assert(entry_views(page@) =~= target);
            }
            i = i + 1;
        }
        proof {
            assert forall|k: int| 0 <= k < page@.len() implies (#[trigger] page@[k]).rank == offset
                + k + 1 by {
                assert(entry_views(page@)[k] == self@[start + k]);
            }
        }
        page
    }

    fn insert_position(sorted: &Vec<LeaderboardEntry>, entry: &LeaderboardEntry) -> (at: usize)
        ensures
            at == rank_position(entry_views(sorted@), entry@),
            at <= sorted@.len(),
    {
        let ghost views = entry_views(sorted@);
        let mut at: usize = sorted.len();
        assert(views.take(at as int) == views);
        while at > 0
            invariant
                at <= sorted.len(),
                views == entry_views(sorted@),
                rank_position(views, entry@) == rank_position(views.take(at as int), entry@),
            decreases at,
        {
            assert(views.take(at as int).drop_last() == views.take(at - 1));
            assert(views.take(at as int).last() == sorted@[at - 1]@);
            let other = &sorted[at - 1];
            if entry.total_score > other.total_score || (entry.total_score == other.total_score
                && entry.created_at < other.created_at) {
                at = at - 1;
            } else {
                return at;
            }
        }
        at
    }

    /// Recomputes the persisted ranks from the scores: the entries are put in
    /// rank order and numbered from 1, and each keeps the rank it had as its
    /// previous rank. Entries that agree in score and registration time stay
    /// in the order they had.
    pub fn recompute_ranks(&mut self)
        requires
            old(self).wf(),
        ensures
            final(self).wf(),
            final(self)@ == renumbered(ranked(old(self)@)),
    {
        let ghost before = self@;
        let n = self.entries.len();
        let mut sorted: Vec<LeaderboardEntry> = Vec::new();
        let mut k: usize = 0;
        assert(entry_views(sorted@) =~= ranked(before.take(0)));
        while k < n
            invariant
                k <= n,
                n == self.entries.len(),
                self@ == before,
                before.len() == n,
                entry_views(sorted@) == ranked(before.take(k as int)),
                sorted@.len() == k,
            decreases n - k,
        {
            let entry = self.entries[k].duplicate();
            let at = Self::insert_position(&sorted, &entry);
            let ghost shorter = entry_views(sorted@);
            proof {
                assert(before.take(k + 1).drop_last() == before.take(k as int));
                assert(before.take(k + 1).last() == entry@);
            }
            sorted.insert(at, entry);
            assert(entry_views(sorted@) =~= shorter.insert(at as int, entry@));
            k = k + 1;
        }
        assert(before.take(k as int) == before);
        proof {
            lemma_ranked(before);
        }
        let ghost order = entry_views(sorted@);
        let mut renumbered_entries: Vec<LeaderboardEntry> = Vec::new();
        let mut i: usize = 0;
        while i < n
            invariant
                i <= n,
                n == sorted@.len(),
                n <= u32::MAX,
                order == entry_views(sorted@),
                renumbered_entries@.len() == i,
                forall|m: int|
                    0 <= m < i ==> (#[trigger] renumbered_entries@[m])@ == renumbered(order)[m],
            decreases n - i,
        {
            let mut entry = sorted[i].duplicate();
            entry.previous_rank = entry.rank;
            entry.rank = (i + 1) as u32;
            assert(entry@ == renumbered(order)[i as int]);
            renumbered_entries.push(entry);
            i = i + 1;
        }
        self.entries = renumbered_entries;
        proof {
            let after = renumbered(order);
            assert(self@ =~= after);
            assert forall|a: int, b: int| 0 <= a < b < after.len() implies (
            #[trigger] after[a]).user_id != (#[trigger] after[b]).user_id && after[a].public_key
                != after[b].public_key by {
                assert(after[a].user_id == order[a].user_id && after[a].public_key
                    == order[a].public_key);
                assert(after[b].user_id == order[b].user_id && after[b].public_key
                    == order[b].public_key);
            }
        }
    }

    /// Sets the score of a user. Says whether the user is on the board; where
    /// they are not, nothing changes. Persisted ranks stay as they are until
    /// they are recomputed.
    pub fn set_total_score(&mut self, user_id: i32, total_score: i32) -> (found: bool)
        requires
            old(self).wf(),
        ensures
            final(self).wf(),
            found == has_user(old(self)@, user_id as int),
            final(self)@ == with_score(old(self)@, user_id as int, total_score as int),
    {
        match self.position_of_user(user_id) {
            Some(i) => {
                let ghost before = self@;
                let mut entry = self.entries[i].duplicate();
                entry.total_score = total_score;
                self.entries[i] = entry;
                proof {
                    let after = with_score(before, user_id as int, total_score as int);
                    assert(before[i as int].user_id == user_id);
                    assert forall|a: int| 0 <= a < after.len() implies self@[a] == after[a] by {
                        if a != i {
                            assert(self@[a] == before[a]);
                            if a < i {
                                assert(before[a].user_id != before[i as int].user_id);
                            } else {
                                assert(before[i as int].user_id != before[a].user_id);
                            }
                        }
                    }
                    assert(self@ =~= after);
                    lemma_with_score_keeps_wf(before, user_id as int, total_score as int);
                }
                true
            },
            None => {
                assert(self@ =~= with_score(self@, user_id as int, total_score as int));
                false
            },
        }
    }
}

/// The board with the score of `user_id` set to `total_score`.
pub open spec fn with_score(entries: Seq<LeaderboardEntryView>, user_id: int, total_score: int) -> Seq<
    LeaderboardEntryView,
> {
    Seq::new(
        entries.len(),
        |i: int|
            if entries[i].user_id == user_id {
                LeaderboardEntryView { total_score, ..entries[i] }
            } else {
                entries[i]
            },
    )
}

/// Setting a score changes neither who is on the board nor any persisted
/// rank.
pub proof fn lemma_with_score_keeps_wf(entries: Seq<LeaderboardEntryView>, user_id: int, total_score: int)
    ensures
        with_score(entries, user_id, total_score).len() == entries.len(),
        ranks_in_order(entries) ==> ranks_in_order(with_score(entries, user_id, total_score)),
        users_distinct(entries) ==> users_distinct(with_score(entries, user_id, total_score)),
        forall|u: int|
            has_user(with_score(entries, user_id, total_score), u) <==> has_user(entries, u),
        forall|u: int, key: Seq<char>|
            is_member(with_score(entries, user_id, total_score), u, key) <==> is_member(
                entries,
                u,
                key,
            ),
{
    let after = with_score(entries, user_id, total_score);
    if ranks_in_order(entries) {
        assert forall|a: int| 0 <= a < after.len() implies (#[trigger] after[a]).rank == a + 1 by {
            assert(after[a].rank == entries[a].rank);
        }
    }
    if users_distinct(entries) {
        assert forall|a: int, b: int| 0 <= a < b < after.len() implies (
        #[trigger] after[a]).user_id != (#[trigger] after[b]).user_id && after[a].public_key
            != after[b].public_key by {
            assert(after[a].user_id == entries[a].user_id && after[a].public_key
                == entries[a].public_key);
            assert(after[b].user_id == entries[b].user_id && after[b].public_key
                == entries[b].public_key);
        }
    }
    assert forall|u: int| has_user(after, u) <==> has_user(entries, u) by {
        if has_user(after, u) {
            let i = choose|i: int| 0 <= i < after.len() && (#[trigger] after[i]).user_id == u;
            assert(entries[i].user_id == u);
        }
        if has_user(entries, u) {
            let i = choose|i: int| 0 <= i < entries.len() && (#[trigger] entries[i]).user_id == u;
            assert(after[i].user_id == u);
        }
    }
    assert forall|u: int, key: Seq<char>| is_member(after, u, key) <==> is_member(
        entries,
        u,
        key,
    ) by {
        if is_member(after, u, key) {
            let i = choose|i: int|
                0 <= i < after.len() && (#[trigger] after[i]).user_id == u && after[i].public_key
                    == key;
            assert(entries[i].user_id == u && entries[i].public_key == key);
        }
        if is_member(entries, u, key) {
            let i = choose|i: int|
                0 <= i < entries.len() && (#[trigger] entries[i]).user_id == u
                    && entries[i].public_key == key;
            assert(after[i].user_id == u && after[i].public_key == key);
        }
    }
}

/// The index at which a window that leaves out `offset` entries starts on a
/// board of `len` entries.
pub open spec fn page_start(len: nat, offset: nat) -> nat {
    if offset < len {
        offset
    } else {
        len
    }
}

/// The index at which such a window of at most `limit` entries ends.
pub open spec fn page_end(len: nat, offset: nat, limit: nat) -> nat {
    if page_start(len, offset) + limit < len {
        page_start(len, offset) + limit
    } else {
        len
    }
}

/// The number of entries that the pages before `page` hold, pages counted
/// from 1.
pub open spec fn page_offset(page: nat, limit: nat) -> nat {
    ((page - 1) * limit) as nat
}

/// The number of entries to leave out for `page`, pages counted from 1, or
/// none where that number is beyond any board: a board holds fewer entries
/// than 2 to the 32, so such a page is empty.
pub open spec fn spec_page_window(page: u32, limit: u32) -> Option<u32> {
    if page_offset(page as nat, limit as nat) <= u32::MAX {
        Some(page_offset(page as nat, limit as nat) as u32)
    } else {
        None
    }
}

/// Computes the number of entries that the pages before `page` hold.
pub fn page_window(page: u32, limit: u32) -> (offset: Option<u32>)
    requires
        page >= 1,
    ensures
        offset == spec_page_window(page, limit),
{
    assert((page - 1) * limit <= 0xffff_ffff * 0xffff_ffff) by (nonlinear_arith)
        requires
            1 <= page <= 0xffff_ffff,
            0 <= limit <= 0xffff_ffff,
    ;
    let wide: u64 = (page as u64 - 1) * (limit as u64);
    assert(wide == page_offset(page as nat, limit as nat)) by (nonlinear_arith)
        requires
            wide == (page as u64 - 1) * (limit as u64),
            page >= 1,
    ;
    if wide > u32::MAX as u64 {
        None
    } else {
        Some(wide as u32)
    }
}

/// One page of the persisted ranking, pages counted from 1, with the number
/// of users on the board.
pub fn get_leaderboard(board: &Leaderboard, page: u32, limit: u32) -> (result: (
    Vec<LeaderboardEntryDto>,
    u32,
))
    requires
        board.wf(),
        page >= 1,
    ensures
        result.1 == board@.len(),
        result.0@.len() == page_end(
            board@.len(),
            page_offset(page as nat, limit as nat),
            limit as nat,
        ) - page_start(board@.len(), page_offset(page as nat, limit as nat)),
        forall|k: int|
            0 <= k < result.0@.len() ==> {
                let shown = #[trigger] result.0@[k];
                let entry = board@[page_start(
                    board@.len(),
                    page_offset(page as nat, limit as nat),
                ) + k];
                &&& shown.public_key@ == entry.public_key
                &&& shown.total_score == entry.total_score
                &&& shown.rank == entry.rank
                &&& shown.rank == page_offset(page as nat, limit as nat) + k + 1
            },
{
    let total = board.get_total_users_with_badges();
    let ghost wide = page_offset(page as nat, limit as nat);
    let offset: u32 = match page_window(page, limit) {
        Some(offset) => offset,
        None => u32::MAX,
    };
    let entries = board.get_leaderboard_entries(limit, offset);
    assert(page_start(board@.len(), offset as nat) == page_start(board@.len(), wide as nat));
    let ghost start = page_start(board@.len(), wide as nat);
    let ghost source = entries@;
    let mut shown: Vec<LeaderboardEntryDto> = Vec::new();
    let mut entries = entries;
    let mut k: usize = 0;
    let n = entries.len();
    assert(entry_views(source).len() == source.len());
    while k < n
        invariant
            k <= n,
            n == source.len(),
            entries@.len() == n,
            forall|m: int| k <= m < n ==> (#[trigger] entries@[m])@ == source[m]@,
            shown@.len() == k,
            forall|m: int|
                0 <= m < k ==> {
                    let s = #[trigger] shown@[m];
                    &&& s.public_key@ == source[m]@.public_key
                    &&& s.total_score == source[m]@.total_score
                    &&& s.rank == source[m]@.rank
                },
        decreases n - k,
    {
        let entry = entries[k].duplicate();
        shown.push(LeaderboardEntryDto::from(entry));
        k = k + 1;
    }
    proof {
        assert forall|m: int| 0 <= m < shown@.len() implies {
            let s = #[trigger] shown@[m];
            let entry = board@[start + m];
            &&& s.public_key@ == entry.public_key
            &&& s.total_score == entry.total_score
            &&& s.rank == entry.rank
            &&& s.rank == page_offset(page as nat, limit as nat) + m + 1
        } by {
            assert(entry_views(source)[m] == source[m]@);
            assert(entry_views(source)[m] == board@[start + m]);
            assert(source[m].rank == offset + m + 1);
        }
    }
    (shown, total)
}

} // verus!
