use vstd::prelude::*;
use vstd::string::StringExecFns;
use crate::entities::progression_event_type::ProgressionEventType;

verus! {

/// How a progress value is held against the count that a badge asks for.
#[derive(Debug, Clone, Copy, PartialEq, Eq, Structural)]
pub enum BadgeOperation {
    Equals,
    GreaterOrEqual,
}

/// The code under which the operation that asks for equality is stored.
pub open spec fn equals_code() -> Seq<char> {
    seq!['e', 'q']
}

/// The code under which the operation that asks for a least count is stored.
pub open spec fn greater_or_equal_code() -> Seq<char> {
    seq!['g', 't', 'e']
}

impl BadgeOperation {
    /// The operation that a stored code stands for, if it stands for one.
    pub open spec fn spec_parse(code: Seq<char>) -> Option<BadgeOperation> {
        if code == equals_code() {
            Some(BadgeOperation::Equals)
        } else if code == greater_or_equal_code() {
            Some(BadgeOperation::GreaterOrEqual)
        } else {
            None
        }
    }

    /// Reads an operation from its stored code. A rule with any other code
    /// grants nothing.
    pub fn parse(code: &str) -> (operation: Option<BadgeOperation>)
        ensures
            operation == Self::spec_parse(code@),
    {
        proof {
            reveal_strlit("eq");
            reveal_strlit("gte");
            assert("eq"@ =~= equals_code());
            assert("gte"@ =~= greater_or_equal_code());
        }
        let code = String::from_str(code);
        if code == String::from_str("eq") {
            Some(BadgeOperation::Equals)
        } else if code == String::from_str("gte") {
            Some(BadgeOperation::GreaterOrEqual)
        } else {
            None
        }
    }

    /// The code under which the operation is stored.
    pub fn code(&self) -> (code: String)
        ensures
            Self::spec_parse(code@) == Some(*self),
    {
        proof {
            reveal_strlit("eq");
            reveal_strlit("gte");
            assert("eq"@ =~= equals_code());
            assert("gte"@ =~= greater_or_equal_code());
            assert(equals_code().len() != greater_or_equal_code().len());
        }
        match self {
            BadgeOperation::Equals => String::from_str("eq"),
            BadgeOperation::GreaterOrEqual => String::from_str("gte"),
        }
    }
}

/// One rule of the seeded badge configuration: the badge, the kind of progress
/// it looks at, and the test on that progress.
#[derive(Debug, Clone, Copy, PartialEq, Eq, Structural)]
pub struct BadgeCondition {
    pub badge_id: i32,
    pub event_type: ProgressionEventType,
    pub operation: BadgeOperation,
    pub required_count: i32,
}

impl BadgeCondition {
    /// Whether `progress` passes the test of this rule.
    pub open spec fn is_met(self, progress: int) -> bool {
        match self.operation {
            BadgeOperation::Equals => progress == self.required_count,
            BadgeOperation::GreaterOrEqual => progress >= self.required_count,
        }
    }

    /// Whether this rule grants its badge for `progress` of kind `event_type`.
    pub open spec fn applies(self, event_type: ProgressionEventType, progress: int) -> bool {
        self.event_type == event_type && self.is_met(progress)
    }

    /// The rule that a stored row stands for: the kind of event by its
    /// identifier, the operation by its code. A row with an identifier of no
    /// kind or with an unknown code stands for no rule.
    pub open spec fn spec_from_row(
        badge_id: i32,
        event_type_id: i32,
        operation: Seq<char>,
        required_count: i32,
    ) -> Option<BadgeCondition> {
        match (
            ProgressionEventType::spec_from_id(event_type_id as int),
            BadgeOperation::spec_parse(operation),
        ) {
            (Some(event_type), Some(operation)) => Some(
                BadgeCondition { badge_id, event_type, operation, required_count },
            ),
            _ => None,
        }
    }

    /// Reads a rule from a stored row.
    pub fn from_row(badge_id: i32, event_type_id: i32, operation: &str, required_count: i32) -> (rule:
        Option<BadgeCondition>)
        ensures
            rule == Self::spec_from_row(badge_id, event_type_id, operation@, required_count),
    {
        match (ProgressionEventType::from_id(event_type_id), BadgeOperation::parse(operation)) {
            (Some(event_type), Some(operation)) => Some(
                BadgeCondition { badge_id, event_type, operation, required_count },
            ),
            _ => None,
        }
    }

    pub fn check(&self, event_type: ProgressionEventType, progress_count: i32) -> (granted: bool)
        ensures
            granted == self.applies(event_type, progress_count as int),
    {
        if self.event_type == event_type {
            match self.operation {
                BadgeOperation::Equals => progress_count == self.required_count,
                BadgeOperation::GreaterOrEqual => progress_count >= self.required_count,
            }
        } else {
            false
        }
    }
}

/// The badges that `progress` of kind `event_type` qualifies for, one entry
/// per rule that applies, in the order of the rules.
pub open spec fn eligible_badges_spec(
    conditions: Seq<BadgeCondition>,
    event_type: ProgressionEventType,
    progress: int,
) -> Seq<i32>
    decreases conditions.len(),
{
    if conditions.len() == 0 {
        Seq::empty()
    } else {
        let before = eligible_badges_spec(conditions.drop_last(), event_type, progress);
        if conditions.last().applies(event_type, progress) {
            before.push(conditions.last().badge_id)
        } else {
            before
        }
    }
}

/// A badge is among the eligible ones exactly if some rule for it applies.
pub proof fn lemma_eligible_iff_some_rule_applies(
    conditions: Seq<BadgeCondition>,
    event_type: ProgressionEventType,
    progress: int,
    badge_id: i32,
)
    ensures
        eligible_badges_spec(conditions, event_type, progress).contains(badge_id) <==> exists|i: int|
            0 <= i < conditions.len() && #[trigger] conditions[i].badge_id == badge_id
                && conditions[i].applies(event_type, progress),
    decreases conditions.len(),
{
    let all = eligible_badges_spec(conditions, event_type, progress);
    if conditions.len() > 0 {
        let front = conditions.drop_last();
        let before = eligible_badges_spec(front, event_type, progress);
        lemma_eligible_iff_some_rule_applies(front, event_type, progress, badge_id);
        let last = conditions.last();
        if all.contains(badge_id) {
            if before.contains(badge_id) {
                let i = choose|i: int|
                    0 <= i < front.len() && #[trigger] front[i].badge_id == badge_id
                        && front[i].applies(event_type, progress);
                assert(conditions[i] == front[i]);
            } else {
                assert(last.applies(event_type, progress));
                let k = choose|k: int| 0 <= k < all.len() && all[k] == badge_id;
                if k < before.len() {
                    assert(before[k] == badge_id);
                    assert(before.contains(badge_id));
                }
                assert(conditions[conditions.len() - 1].badge_id == badge_id);
            }
        }
        if exists|i: int|
            0 <= i < conditions.len() && #[trigger] conditions[i].badge_id == badge_id
                && conditions[i].applies(event_type, progress) {
            let i = choose|i: int|
                0 <= i < conditions.len() && #[trigger] conditions[i].badge_id == badge_id
                    && conditions[i].applies(event_type, progress);
            if i < front.len() {
                assert(front[i] == conditions[i]);
                assert(before.contains(badge_id));
                let k = choose|k: int| 0 <= k < before.len() && before[k] == badge_id;
                assert(all[k] == badge_id);
            } else {
                assert(all[all.len() - 1] == badge_id);
            }
        }
    }
}

/// Selects the badges that a progress value qualifies for.
pub fn eligible_badges(
    conditions: &Vec<BadgeCondition>,
    event_type: ProgressionEventType,
    progress_count: i32,
) -> (badge_ids: Vec<i32>)
    ensures
        badge_ids@ == eligible_badges_spec(conditions@, event_type, progress_count as int),
{
    let mut badge_ids: Vec<i32> = Vec::new();
    let mut i: usize = 0;
    while i < conditions.len()
        invariant
            i <= conditions.len(),
            badge_ids@ == eligible_badges_spec(
                conditions@.take(i as int),
                event_type,
                progress_count as int,
            ),
        decreases conditions.len() - i,
    {
        assert(conditions@.take(i + 1).drop_last() == conditions@.take(i as int));
        if conditions[i].check(event_type, progress_count) {
            badge_ids.push(conditions[i].badge_id);
        }
        i = i + 1;
    }
    assert(conditions@.take(i as int) == conditions@);
    badge_ids
}

/// One granted badge: who holds it, which badge, and when it was granted.
#[derive(Debug, Clone, Copy, PartialEq, Eq, Structural)]
pub struct BadgeAward {
    pub user_id: i32,
    pub badge_id: i32,
    pub awarded_at: i64,
}

/// Whether `rows` holds an award of `badge_id` to `user_id`.
pub open spec fn has_award(rows: Seq<BadgeAward>, user_id: int, badge_id: int) -> bool {
    exists|i: int|
        0 <= i < rows.len() && (#[trigger] rows[i]).user_id == user_id && rows[i].badge_id
            == badge_id
}

/// The number of rows in `rows` that award `badge_id` to `user_id`.
pub open spec fn award_count(rows: Seq<BadgeAward>, user_id: int, badge_id: int) -> nat
    decreases rows.len(),
{
    if rows.len() == 0 {
        0
    } else {
        let before = award_count(rows.drop_last(), user_id, badge_id);
        if rows.last().user_id == user_id && rows.last().badge_id == badge_id {
            before + 1
        } else {
            before
        }
    }
}

/// The rows of `rows` that belong to `user_id`, in order.
pub open spec fn awards_of_user(rows: Seq<BadgeAward>, user_id: int) -> Seq<BadgeAward>
    decreases rows.len(),
{
    if rows.len() == 0 {
        Seq::empty()
    } else {
        let before = awards_of_user(rows.drop_last(), user_id);
        if rows.last().user_id == user_id {
            before.push(rows.last())
        } else {
            before
        }
    }
}

/// No pair of user and badge has two rows.
pub open spec fn awards_unique(rows: Seq<BadgeAward>) -> bool {
    forall|i: int, j: int|
        0 <= i < j < rows.len() ==> !((#[trigger] rows[i]).user_id == (#[trigger] rows[j]).user_id
            && rows[i].badge_id == rows[j].badge_id)
}

/// The idempotent insert: a new row at the end where the pair has none yet,
/// and no change at all where it has one.
pub open spec fn insert_award(rows: Seq<BadgeAward>, user_id: i32, badge_id: i32, at: i64) -> Seq<
    BadgeAward,
> {
    if has_award(rows, user_id as int, badge_id as int) {
        rows
    } else {
        rows.push(BadgeAward { user_id, badge_id, awarded_at: at })
    }
}

/// The idempotent insert of each of `badge_ids` in turn.
pub open spec fn insert_awards(rows: Seq<BadgeAward>, user_id: i32, badge_ids: Seq<i32>, at: i64) -> Seq<
    BadgeAward,
>
    decreases badge_ids.len(),
{
    if badge_ids.len() == 0 {
        rows
    } else {
        insert_award(
            insert_awards(rows, user_id, badge_ids.drop_last(), at),
            user_id,
            badge_ids.last(),
            at,
        )
    }
}

/// Those of `badge_ids` whose insert, each in turn, adds a row.
pub open spec fn newly_awarded(rows: Seq<BadgeAward>, user_id: i32, badge_ids: Seq<i32>, at: i64) -> Seq<
    i32,
>
    decreases badge_ids.len(),
{
    if badge_ids.len() == 0 {
        Seq::empty()
    } else {
        let before = newly_awarded(rows, user_id, badge_ids.drop_last(), at);
        if has_award(
            insert_awards(rows, user_id, badge_ids.drop_last(), at),
            user_id as int,
            badge_ids.last() as int,
        ) {
            before
        } else {
            before.push(badge_ids.last())
        }
    }
}

/// The rows after one evaluation of `progress` of kind `event_type` for
/// `user_id` at time `at`.
pub open spec fn evaluate_spec(
    rows: Seq<BadgeAward>,
    conditions: Seq<BadgeCondition>,
    user_id: i32,
    event_type: ProgressionEventType,
    progress: int,
    at: i64,
) -> Seq<BadgeAward> {
    insert_awards(rows, user_id, eligible_badges_spec(conditions, event_type, progress), at)
}

/// A pair of user and badge has a row exactly if its count is positive, and
/// where no pair has two rows no count exceeds one.
pub proof fn lemma_award_count(rows: Seq<BadgeAward>, user_id: int, badge_id: int)
    ensures
        has_award(rows, user_id, badge_id) <==> award_count(rows, user_id, badge_id) >= 1,
        awards_unique(rows) ==> award_count(rows, user_id, badge_id) <= 1,
    decreases rows.len(),
{
    if rows.len() > 0 {
        let front = rows.drop_last();
        lemma_award_count(front, user_id, badge_id);
        if has_award(front, user_id, badge_id) {
            let i = choose|i: int|
                0 <= i < front.len() && (#[trigger] front[i]).user_id == user_id
                    && front[i].badge_id == badge_id;
            assert(rows[i] == front[i]);
        }
        if has_award(rows, user_id, badge_id) {
            let i = choose|i: int|
                0 <= i < rows.len() && (#[trigger] rows[i]).user_id == user_id && rows[i].badge_id
                    == badge_id;
            if i < front.len() {
                assert(front[i] == rows[i]);
            }
        }
        if awards_unique(rows) {
            assert forall|i: int, j: int| 0 <= i < j < front.len() implies !((
            #[trigger] front[i]).user_id == (#[trigger] front[j]).user_id && front[i].badge_id
                == front[j].badge_id) by {
                assert(front[i] == rows[i] && front[j] == rows[j]);
            }
            if rows.last().user_id == user_id && rows.last().badge_id == badge_id {
                if has_award(front, user_id, badge_id) {
                    let i = choose|i: int|
                        0 <= i < front.len() && (#[trigger] front[i]).user_id == user_id
                            && front[i].badge_id == badge_id;
                    assert(rows[i] == front[i]);
                    assert(rows[rows.len() - 1] == rows.last());
                }
            }
        }
    }
}

/// What one idempotent insert does: the rows before it stay as they are and in
/// place, a pair of user and badge has a row afterwards exactly if it had one
/// or is the inserted pair, and no pair comes to have two.
pub proof fn lemma_insert_award(
    rows: Seq<BadgeAward>,
    user_id: i32,
    badge_id: i32,
    at: i64,
    holder: int,
    badge: int,
)
    ensures
        rows.is_prefix_of(insert_award(rows, user_id, badge_id, at)),
        has_award(insert_award(rows, user_id, badge_id, at), holder, badge) <==> (has_award(
            rows,
            holder,
            badge,
        ) || (holder == user_id && badge == badge_id)),
        awards_unique(rows) ==> awards_unique(insert_award(rows, user_id, badge_id, at)),
{
    let after = insert_award(rows, user_id, badge_id, at);
    if !has_award(rows, user_id as int, badge_id as int) {
        assert(after[rows.len() as int].user_id == user_id);
        if has_award(rows, holder, badge) {
            let i = choose|i: int|
                0 <= i < rows.len() && (#[trigger] rows[i]).user_id == holder && rows[i].badge_id
                    == badge;
            assert(after[i] == rows[i]);
        }
        if has_award(after, holder, badge) {
            let i = choose|i: int|
                0 <= i < after.len() && (#[trigger] after[i]).user_id == holder
                    && after[i].badge_id == badge;
            if i < rows.len() {
                assert(rows[i] == after[i]);
            }
        }
        if awards_unique(rows) {
            assert forall|i: int, j: int| 0 <= i < j < after.len() implies !((
            #[trigger] after[i]).user_id == (#[trigger] after[j]).user_id && after[i].badge_id
                == after[j].badge_id) by {
                assert(after[i] == rows[i]);
                if j < rows.len() {
                    assert(after[j] == rows[j]);
                }
            }
        }
    }
}

/// What a run of idempotent inserts does: the rows before it stay as they are
/// and in place, a pair of user and badge has a row afterwards exactly if it
/// had one or is among the inserted, and no pair comes to have two.
pub proof fn lemma_insert_awards(
    rows: Seq<BadgeAward>,
    user_id: i32,
    badge_ids: Seq<i32>,
    at: i64,
    holder: int,
    badge: int,
)
    ensures
        rows.is_prefix_of(insert_awards(rows, user_id, badge_ids, at)),
        has_award(insert_awards(rows, user_id, badge_ids, at), holder, badge) <==> (has_award(
            rows,
            holder,
            badge,
        ) || (holder == user_id && exists|k: int|
            0 <= k < badge_ids.len() && #[trigger] badge_ids[k] == badge)),
        awards_unique(rows) ==> awards_unique(insert_awards(rows, user_id, badge_ids, at)),
    decreases badge_ids.len(),
{
    let after = insert_awards(rows, user_id, badge_ids, at);
    if badge_ids.len() > 0 {
        let front = badge_ids.drop_last();
        let mid = insert_awards(rows, user_id, front, at);
        lemma_insert_awards(rows, user_id, front, at, holder, badge);
        lemma_insert_award(mid, user_id, badge_ids.last(), at, holder, badge);
        if holder == user_id && exists|k: int|
            0 <= k < badge_ids.len() && #[trigger] badge_ids[k] == badge {
            let k = choose|k: int| 0 <= k < badge_ids.len() && #[trigger] badge_ids[k] == badge;
            if k < front.len() {
                assert(front[k] == badge);
            }
        }
        if has_award(mid, holder, badge) && !has_award(rows, holder, badge) {
            let k = choose|k: int| 0 <= k < front.len() && #[trigger] front[k] == badge;
            assert(badge_ids[k] == badge);
        }
        if has_award(after, holder, badge) && !has_award(mid, holder, badge) {
            assert(badge_ids[badge_ids.len() - 1] == badge);
        }
    }
}

/// Granting badges that the user holds already changes nothing.
pub proof fn lemma_insert_held_changes_nothing(
    rows: Seq<BadgeAward>,
    user_id: i32,
    badge_ids: Seq<i32>,
    at: i64,
)
    requires
        forall|k: int|
            0 <= k < badge_ids.len() ==> has_award(rows, user_id as int, #[trigger] badge_ids[k] as int),
    ensures
        insert_awards(rows, user_id, badge_ids, at) == rows,
    decreases badge_ids.len(),
{
    if badge_ids.len() > 0 {
        let front = badge_ids.drop_last();
        assert forall|k: int| 0 <= k < front.len() implies has_award(
            rows,
            user_id as int,
            #[trigger] front[k] as int,
        ) by {
            assert(front[k] == badge_ids[k]);
        }
        lemma_insert_held_changes_nothing(rows, user_id, front, at);
        assert(has_award(rows, user_id as int, badge_ids[badge_ids.len() - 1] as int));
    }
}

/// After an evaluation the user holds every badge that was eligible, and
/// goes on holding what they held.
pub proof fn lemma_evaluation_grants_all_eligible(
    rows: Seq<BadgeAward>,
    conditions: Seq<BadgeCondition>,
    user_id: i32,
    event_type: ProgressionEventType,
    progress: int,
    at: i64,
)
    ensures
        forall|k: int|
            0 <= k < eligible_badges_spec(conditions, event_type, progress).len() ==> has_award(
                evaluate_spec(rows, conditions, user_id, event_type, progress, at),
                user_id as int,
                #[trigger] eligible_badges_spec(conditions, event_type, progress)[k] as int,
            ),
        forall|holder: int, badge: int|
            has_award(rows, holder, badge) ==> #[trigger] has_award(
                evaluate_spec(rows, conditions, user_id, event_type, progress, at),
                holder,
                badge,
            ),
{
    let eligible = eligible_badges_spec(conditions, event_type, progress);
    let after = evaluate_spec(rows, conditions, user_id, event_type, progress, at);
    assert forall|k: int| 0 <= k < eligible.len() implies has_award(
        after,
        user_id as int,
        #[trigger] eligible[k] as int,
    ) by {
        lemma_insert_awards(rows, user_id, eligible, at, user_id as int, eligible[k] as int);
    }
    assert forall|holder: int, badge: int| has_award(rows, holder, badge) implies #[trigger] has_award(
        after,
        holder,
        badge,
    ) by {
        lemma_insert_awards(rows, user_id, eligible, at, holder, badge);
    }
}

/// Grants to one user leave the score of every other user as it is.
pub proof fn lemma_insert_awards_keeps_other_scores(
    rows: Seq<BadgeAward>,
    user_id: i32,
    badge_ids: Seq<i32>,
    at: i64,
    scores: Seq<BadgeScore>,
    other: int,
)
    requires
        other != user_id,
    ensures
        total_score_spec(insert_awards(rows, user_id, badge_ids, at), scores, other)
            == total_score_spec(rows, scores, other),
    decreases badge_ids.len(),
{
    if badge_ids.len() > 0 {
        let mid = insert_awards(rows, user_id, badge_ids.drop_last(), at);
        lemma_insert_awards_keeps_other_scores(rows, user_id, badge_ids.drop_last(), at, scores, other);
        let row = BadgeAward { user_id, badge_id: badge_ids.last(), awarded_at: at };
        assert(mid.push(row).drop_last() == mid);
    }
}

/// Grants to one user add rows of that user only.
pub proof fn lemma_insert_awards_adds_rows_of_user(
    rows: Seq<BadgeAward>,
    user_id: i32,
    badge_ids: Seq<i32>,
    at: i64,
    k: int,
)
    requires
        rows.len() <= k < insert_awards(rows, user_id, badge_ids, at).len(),
    ensures
        insert_awards(rows, user_id, badge_ids, at)[k].user_id == user_id,
    decreases badge_ids.len(),
{
    if badge_ids.len() > 0 {
        let mid = insert_awards(rows, user_id, badge_ids.drop_last(), at);
        if k < mid.len() {
            lemma_insert_awards_adds_rows_of_user(rows, user_id, badge_ids.drop_last(), at, k);
        }
    }
}

/// However often a user is evaluated, the second time with the same or a
/// higher progress than the first, no user holds any badge in more than one
/// row.
pub proof fn lemma_repeated_evaluation_awards_once(
    rows: Seq<BadgeAward>,
    conditions: Seq<BadgeCondition>,
    user_id: i32,
    event_type: ProgressionEventType,
    first: int,
    second: int,
    at_first: i64,
    at_second: i64,
    any_user: int,
    any_badge: int,
)
    requires
        awards_unique(rows),
        first <= second,
    ensures
        award_count(
            evaluate_spec(
                evaluate_spec(rows, conditions, user_id, event_type, first, at_first),
                conditions,
                user_id,
                event_type,
                second,
                at_second,
            ),
            any_user,
            any_badge,
        ) <= 1,
{
    let once = evaluate_spec(rows, conditions, user_id, event_type, first, at_first);
    let twice = evaluate_spec(once, conditions, user_id, event_type, second, at_second);
    lemma_insert_awards(
        rows,
        user_id,
        eligible_badges_spec(conditions, event_type, first),
        at_first,
        any_user,
        any_badge,
    );
    lemma_insert_awards(
        once,
        user_id,
        eligible_badges_spec(conditions, event_type, second),
        at_second,
        any_user,
        any_badge,
    );
    lemma_award_count(twice, any_user, any_badge);
}

/// What the two operations ask: `Equals` is met by the required count and by
/// nothing else, `GreaterOrEqual` by the required count and everything above.
pub proof fn lemma_operations(rule: BadgeCondition, progress: int)
    ensures
        rule.operation == BadgeOperation::Equals ==> (rule.is_met(progress) <==> progress
            == rule.required_count),
        rule.operation == BadgeOperation::GreaterOrEqual ==> (rule.is_met(progress) <==> progress
            >= rule.required_count),
{
}

/// After an evaluation a user holds a badge exactly if they held it before
/// or a rule for the badge, on the kind of event that was evaluated, is met
/// by the progress.
pub proof fn lemma_award_iff_threshold_met(
    rows: Seq<BadgeAward>,
    conditions: Seq<BadgeCondition>,
    user_id: i32,
    event_type: ProgressionEventType,
    progress: int,
    at: i64,
    badge_id: i32,
)
    ensures
        has_award(
            evaluate_spec(rows, conditions, user_id, event_type, progress, at),
            user_id as int,
            badge_id as int,
        ) <==> has_award(rows, user_id as int, badge_id as int) || exists|i: int|
            0 <= i < conditions.len() && #[trigger] conditions[i].badge_id == badge_id
                && conditions[i].event_type == event_type && conditions[i].is_met(progress),
{
    let eligible = eligible_badges_spec(conditions, event_type, progress);
    lemma_insert_awards(rows, user_id, eligible, at, user_id as int, badge_id as int);
    lemma_eligible_iff_some_rule_applies(conditions, event_type, progress, badge_id);
    let listed = exists|k: int| 0 <= k < eligible.len() && #[trigger] eligible[k] == badge_id as int;
    if listed {
        let k = choose|k: int| 0 <= k < eligible.len() && #[trigger] eligible[k] == badge_id as int;
        assert(eligible[k] == badge_id);
        assert(eligible.contains(badge_id));
    }
    if eligible.contains(badge_id) {
        let k = choose|k: int| 0 <= k < eligible.len() && eligible[k] == badge_id;
        assert(eligible[k] == badge_id as int);
        assert(listed);
    }
    let after = evaluate_spec(rows, conditions, user_id, event_type, progress, at);
    assert(has_award(after, user_id as int, badge_id as int) <==> (has_award(
        rows,
        user_id as int,
        badge_id as int,
    ) || listed));
    let met = exists|i: int|
        0 <= i < conditions.len() && #[trigger] conditions[i].badge_id == badge_id
            && conditions[i].event_type == event_type && conditions[i].is_met(progress);
    if eligible.contains(badge_id) {
        let i = choose|i: int|
            0 <= i < conditions.len() && #[trigger] conditions[i].badge_id == badge_id
                && conditions[i].applies(event_type, progress);
        assert(conditions[i].badge_id == badge_id && conditions[i].event_type == event_type
            && conditions[i].is_met(progress));
        assert(met);
    }
    if met {
        let i = choose|i: int|
            0 <= i < conditions.len() && #[trigger] conditions[i].badge_id == badge_id
                && conditions[i].event_type == event_type && conditions[i].is_met(progress);
        assert(conditions[i].badge_id == badge_id && conditions[i].applies(event_type, progress));
        assert(eligible.contains(badge_id));
    }
}

/// No evaluation takes a badge back or touches the time of a grant: whatever
/// progress a later evaluation reports, for whichever user, every row stays
/// as it is and where it is.
pub proof fn lemma_awards_are_never_revoked(
    rows: Seq<BadgeAward>,
    conditions: Seq<BadgeCondition>,
    user_id: i32,
    event_type: ProgressionEventType,
    later_progress: int,
    at: i64,
    holder: int,
    badge_id: int,
)
    ensures
        rows.is_prefix_of(evaluate_spec(rows, conditions, user_id, event_type, later_progress, at)),
        has_award(rows, holder, badge_id) ==> has_award(
            evaluate_spec(rows, conditions, user_id, event_type, later_progress, at),
            holder,
            badge_id,
        ),
{
    lemma_insert_awards(
        rows,
        user_id,
        eligible_badges_spec(conditions, event_type, later_progress),
        at,
        holder,
        badge_id,
    );
}

/// The award state of all users: at most one row per user and badge, rows only
/// ever added, none changed or removed.
pub struct BadgeAwards {
    rows: Vec<BadgeAward>,
}

impl View for BadgeAwards {
    type V = Seq<BadgeAward>;

    closed spec fn view(&self) -> Seq<BadgeAward> {
        self.rows@
    }
}

impl BadgeAwards {
    /// The uniqueness invariant of the store.
    pub open spec fn wf(&self) -> bool {
        awards_unique(self@)
    }

    pub fn new() -> (awards: BadgeAwards)
        ensures
            awards@ == Seq::<BadgeAward>::empty(),
            awards.wf(),
    {
        BadgeAwards { rows: Vec::new() }
    }

    /// The number of award rows.
    pub fn len(&self) -> (n: usize)
        ensures
            n == self@.len(),
    {
        self.rows.len()
    }

    /// The time at which `user_id` was granted `badge_id`, if it was.
    pub fn awarded_at(&self, user_id: i32, badge_id: i32) -> (at: Option<i64>)
        ensures
            at is Some <==> has_award(self@, user_id as int, badge_id as int),
            at matches Some(t) ==> exists|i: int|
                0 <= i < self@.len() && #[trigger] self@[i] == (BadgeAward {
                    user_id,
                    badge_id,
                    awarded_at: t,
                }),
    {
        let mut i: usize = 0;
        while i < self.rows.len()
            invariant
                i <= self.rows.len(),
                forall|k: int|
                    0 <= k < i ==> !((#[trigger] self.rows@[k]).user_id == user_id
                        && self.rows@[k].badge_id == badge_id),
            decreases self.rows.len() - i,
        {
            if self.rows[i].user_id == user_id && self.rows[i].badge_id == badge_id {
                assert(self@[i as int] == (BadgeAward {
                    user_id,
                    badge_id,
                    awarded_at: self.rows@[i as int].awarded_at,
                }));
                return Some(self.rows[i].awarded_at);
            }
            i = i + 1;
        }
        None
    }

    /// Whether `user_id` holds `badge_id`.
    pub fn is_awarded(&self, user_id: i32, badge_id: i32) -> (held: bool)
        ensures
            held == has_award(self@, user_id as int, badge_id as int),
    {
        self.awarded_at(user_id, badge_id).is_some()
    }

    /// The grants of `user_id`, in the order in which they were made.
    pub fn awards_of(&self, user_id: i32) -> (held: Vec<BadgeAward>)
        ensures
            held@ == awards_of_user(self@, user_id as int),
    {
        let mut held: Vec<BadgeAward> = Vec::new();
        let mut i: usize = 0;
        while i < self.rows.len()
            invariant
                i <= self.rows.len(),
                held@ == awards_of_user(self@.take(i as int), user_id as int),
            decreases self.rows.len() - i,
        {
            assert(self@.take(i + 1).drop_last() == self@.take(i as int));
            if self.rows[i].user_id == user_id {
                held.push(self.rows[i]);
            }
            i = i + 1;
        }
        assert(self@.take(i as int) == self@);
        held
    }

    /// Grants `badge_id` to `user_id` at time `at` unless the user holds it
    /// already; an earlier grant keeps its time. Says whether a row was added.
    pub fn award(&mut self, user_id: i32, badge_id: i32, at: i64) -> (added: bool)
        requires
            old(self).wf(),
        ensures
            final(self).wf(),
            final(self)@ == insert_award(old(self)@, user_id, badge_id, at),
            added == !has_award(old(self)@, user_id as int, badge_id as int),
    {
        proof {
            lemma_insert_award(self@, user_id, badge_id, at, user_id as int, badge_id as int);
        }
        if self.is_awarded(user_id, badge_id) {
            false
        } else {
            self.rows.push(BadgeAward { user_id, badge_id, awarded_at: at });
            true
        }
    }

    /// The badge evaluator. Grants `user_id`, at time `at`, every badge that a
    /// rule gives for `progress_count` of kind `event_type`, each at most once,
    /// and returns the badges that were granted by this call.
    pub fn award_badge_if_eligible(
        &mut self,
        conditions: &Vec<BadgeCondition>,
        user_id: i32,
        event_type: ProgressionEventType,
        progress_count: i32,
        at: i64,
    ) -> (granted: Vec<i32>)
        requires
            old(self).wf(),
        ensures
            final(self).wf(),
            final(self)@ == evaluate_spec(
                old(self)@,
                conditions@,
                user_id,
                event_type,
                progress_count as int,
                at,
            ),
            granted@ == newly_awarded(
                old(self)@,
                user_id,
                eligible_badges_spec(conditions@, event_type, progress_count as int),
                at,
            ),
    {
        let eligible = eligible_badges(conditions, event_type, progress_count);
        self.award_all(user_id, &eligible, at)
    }

    /// Grants `user_id` each of `badge_ids` in turn, at time `at`, and returns
    /// those that were not held before.
    pub fn award_all(&mut self, user_id: i32, badge_ids: &Vec<i32>, at: i64) -> (granted: Vec<i32>)
        requires
            old(self).wf(),
        ensures
            final(self).wf(),
            final(self)@ == insert_awards(old(self)@, user_id, badge_ids@, at),
            granted@ == newly_awarded(old(self)@, user_id, badge_ids@, at),
    {
        let mut granted: Vec<i32> = Vec::new();
        let mut i: usize = 0;
        while i < badge_ids.len()
            invariant
                i <= badge_ids.len(),
                self.wf(),
                self@ == insert_awards(old(self)@, user_id, badge_ids@.take(i as int), at),
                granted@ == newly_awarded(old(self)@, user_id, badge_ids@.take(i as int), at),
            decreases badge_ids.len() - i,
        {
            assert(badge_ids@.take(i + 1).drop_last() == badge_ids@.take(i as int));
            if self.award(user_id, badge_ids[i], at) {
                granted.push(badge_ids[i]);
            }
            i = i + 1;
        }
        assert(badge_ids@.take(i as int) == badge_ids@);
        granted
    }

    /// Grants `user_id` the badge `badge_id` at time `at` if `value` meets one
    /// of the rules of that badge, whatever kind of event the rule looks at.
    /// Says whether a row was added.
    pub fn create_badge(
        &mut self,
        conditions: &Vec<BadgeCondition>,
        user_id: i32,
        badge_id: i32,
        value: i32,
        at: i64,
    ) -> (added: bool)
        requires
            old(self).wf(),
        ensures
            final(self).wf(),
            final(self)@ == if badge_is_met(conditions@, badge_id, value as int) {
                insert_award(old(self)@, user_id, badge_id, at)
            } else {
                old(self)@
            },
            added == (badge_is_met(conditions@, badge_id, value as int) && !has_award(
                old(self)@,
                user_id as int,
                badge_id as int,
            )),
    {
        let mut i: usize = 0;
        while i < conditions.len()
            invariant
                i <= conditions.len(),
                self.wf(),
                self@ == old(self)@,
                forall|k: int|
                    0 <= k < i ==> !((#[trigger] conditions@[k]).badge_id == badge_id
                        && conditions@[k].is_met(value as int)),
            decreases conditions.len() - i,
        {
            let rule = &conditions[i];
            let met = match rule.operation {
                BadgeOperation::Equals => value == rule.required_count,
                BadgeOperation::GreaterOrEqual => value >= rule.required_count,
            };
            if rule.badge_id == badge_id && met {
                return self.award(user_id, badge_id, at);
            }
            i = i + 1;
        }
        false
    }

    /// The score of `user_id`: the sum of the scores of the badges they hold,
    /// held within the range of the score column.
    pub fn total_score(&self, scores: &Vec<BadgeScore>, user_id: i32) -> (score: i32)
        ensures
            score == clamp_score(total_score_spec(self@, scores@, user_id as int)),
    {
        let mut sum: i128 = 0;
        let mut i: usize = 0;
        while i < self.rows.len()
            invariant
                i <= self.rows.len(),
                sum == total_score_spec(self@.take(i as int), scores@, user_id as int),
                -0x8000_0000 * i <= sum <= 0x7fff_ffff * i,
            decreases self.rows.len() - i,
        {
            assert(self@.take(i + 1).drop_last() == self@.take(i as int));
            if self.rows[i].user_id == user_id {
                let value = score_of(scores, self.rows[i].badge_id);
                sum = sum + value as i128;
            }
            i = i + 1;
        }
        assert(self@.take(i as int) == self@);
        if sum > i32::MAX as i128 {
            i32::MAX
        } else if sum < i32::MIN as i128 {
            i32::MIN
        } else {
            sum as i32
        }
    }
}

/// Whether `value` meets one of the rules of `badge_id`.
pub open spec fn badge_is_met(conditions: Seq<BadgeCondition>, badge_id: i32, value: int) -> bool {
    exists|i: int|
        0 <= i < conditions.len() && (#[trigger] conditions[i]).badge_id == badge_id
            && conditions[i].is_met(value)
}

/// The score that the catalogue gives for a badge.
#[derive(Debug, Clone, Copy, PartialEq, Eq, Structural)]
pub struct BadgeScore {
    pub badge_id: i32,
    pub score: i32,
}

/// The score of `badge_id` by the first line of the catalogue that names it,
/// and 0 for a badge that the catalogue does not know.
pub open spec fn badge_score(scores: Seq<BadgeScore>, badge_id: int) -> int
    decreases scores.len(),
{
    if scores.len() == 0 {
        0
    } else if scores.first().badge_id == badge_id {
        scores.first().score as int
    } else {
        badge_score(scores.drop_first(), badge_id)
    }
}

/// The sum of the scores of the badges that `user_id` holds.
pub open spec fn total_score_spec(rows: Seq<BadgeAward>, scores: Seq<BadgeScore>, user_id: int) -> int
    decreases rows.len(),
{
    if rows.len() == 0 {
        0
    } else {
        total_score_spec(rows.drop_last(), scores, user_id) + if rows.last().user_id == user_id {
            badge_score(scores, rows.last().badge_id as int)
        } else {
            0
        }
    }
}

/// A sum of scores held within the range of a 32-bit score.
pub open spec fn clamp_score(total: int) -> int {
    if total > i32::MAX {
        i32::MAX as int
    } else if total < i32::MIN {
        i32::MIN as int
    } else {
        total
    }
}

/// Looks up the score of a badge in the catalogue.
pub fn score_of(scores: &Vec<BadgeScore>, badge_id: i32) -> (score: i32)
    ensures
        score == badge_score(scores@, badge_id as int),
{
    let mut i: usize = 0;
    assert(scores@.skip(0) == scores@);
    while i < scores.len()
        invariant
            i <= scores.len(),
            badge_score(scores@, badge_id as int) == badge_score(
                scores@.skip(i as int),
                badge_id as int,
            ),
        decreases scores.len() - i,
    {
        assert(scores@.skip(i as int).first() == scores@[i as int]);
        assert(scores@.skip(i as int).drop_first() == scores@.skip(i + 1));
        if scores[i].badge_id == badge_id {
            return scores[i].score;
        }
        i = i + 1;
    }
    assert(scores@.skip(i as int).len() == 0);
    0
}

} // verus!
