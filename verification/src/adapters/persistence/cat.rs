use std::collections::HashMap;
use vstd::prelude::*;
use crate::app_error::AppResult;
use crate::entities::cat::{Cat, CatLevel};

verus! {

broadcast use vstd::std_specs::hash::group_hash_axioms;

/// A cat as it is stored.
#[derive(Debug)]
pub struct CatDb {
    pub id: i32,
    pub name: String,
    pub description: String,
    pub sprite_idle: String,
    pub sprite_mining: String,
    pub is_starter: bool,
    pub created_at: i64,
}

/// A level of a cat as it is stored.
#[derive(Debug, Clone, Copy, PartialEq, Eq, Structural)]
pub struct CatLevelDb {
    pub cat_id: i32,
    pub level: i32,
    pub damage: i64,
    pub critical_chance: i64,
    pub critical_multiplier: i64,
    pub cost: i64,
}

/// The level that a stored level stands for.
pub open spec fn level_of(row: CatLevelDb) -> CatLevel {
    CatLevel {
        level: row.level,
        damage: row.damage,
        critical_chance: row.critical_chance,
        critical_multiplier: row.critical_multiplier,
        cost: row.cost,
    }
}

/// The levels of the cat `cat_id` among `cat_levels`, in the order of the
/// rows.
pub open spec fn levels_of(cat_levels: Seq<CatLevelDb>, cat_id: i32) -> Seq<CatLevel>
    decreases cat_levels.len(),
{
    if cat_levels.len() == 0 {
        Seq::empty()
    } else {
        let before = levels_of(cat_levels.drop_last(), cat_id);
        if cat_levels.last().cat_id == cat_id {
            before.push(level_of(cat_levels.last()))
        } else {
            before
        }
    }
}

/// No level stands behind a higher one.
pub open spec fn in_level_order(levels: Seq<CatLevel>) -> bool {
    forall|i: int, j: int|
        0 <= i < j < levels.len() ==> (#[trigger] levels[i]).level <= (#[trigger] levels[j]).level
}

/// The place at which `level` goes into a run in level order: before the
/// levels at the end that are higher, behind all others.
pub open spec fn level_position(sorted: Seq<CatLevel>, level: CatLevel) -> int
    decreases sorted.len(),
{
    if sorted.len() == 0 {
        0
    } else if level.level < sorted.last().level {
        level_position(sorted.drop_last(), level)
    } else {
        sorted.len() as int
    }
}

/// The levels in level order, levels with the same number in the order they
/// had.
pub open spec fn sorted_levels(levels: Seq<CatLevel>) -> Seq<CatLevel>
    decreases levels.len(),
{
    if levels.len() == 0 {
        Seq::empty()
    } else {
        let before = sorted_levels(levels.drop_last());
        before.insert(level_position(before, levels.last()), levels.last())
    }
}

/// Where a level goes into a run in level order: the levels from its place
/// on are exactly the higher ones, and the run with the level at that place
/// is in level order again.
pub proof fn lemma_level_position(sorted: Seq<CatLevel>, level: CatLevel)
    requires
        in_level_order(sorted),
    ensures
        0 <= level_position(sorted, level) <= sorted.len(),
        forall|i: int|
            0 <= i < sorted.len() ==> (level.level < (#[trigger] sorted[i]).level <==> i
                >= level_position(sorted, level)),
        in_level_order(sorted.insert(level_position(sorted, level), level)),
    decreases sorted.len(),
{
    let p = level_position(sorted, level);
    if sorted.len() > 0 {
        let front = sorted.drop_last();
        assert forall|i: int, j: int| 0 <= i < j < front.len() implies (
        #[trigger] front[i]).level <= (#[trigger] front[j]).level by {
            assert(front[i] == sorted[i] && front[j] == sorted[j]);
        }
        lemma_level_position(front, level);
        assert forall|i: int| 0 <= i < sorted.len() implies (level.level < (
        #[trigger] sorted[i]).level <==> i >= p) by {
            if i < front.len() {
                assert(front[i] == sorted[i]);
                if !(level.level < sorted.last().level) {
                    assert(sorted[i].level <= sorted[sorted.len() - 1].level);
                }
            }
        }
    }
    let after = sorted.insert(p, level);
    assert forall|i: int, j: int| 0 <= i < j < after.len() implies (#[trigger] after[i]).level
        <= (#[trigger] after[j]).level by {
        if i < p {
            assert(after[i] == sorted[i]);
        } else if i > p {
            assert(after[i] == sorted[i - 1]);
        }
        if j < p {
            assert(after[j] == sorted[j]);
        } else if j > p {
            assert(after[j] == sorted[j - 1]);
        }
    }
}

/// The sorted levels are in level order and are the same levels as before,
/// each as often as before.
pub proof fn lemma_sorted_levels(levels: Seq<CatLevel>)
    ensures
        in_level_order(sorted_levels(levels)),
        sorted_levels(levels).len() == levels.len(),
        sorted_levels(levels).to_multiset() == levels.to_multiset(),
    decreases levels.len(),
{
    if levels.len() == 0 {
        assert(levels =~= sorted_levels(levels));
    } else {
        let front = levels.drop_last();
        let x = levels.last();
        let before = sorted_levels(front);
        lemma_sorted_levels(front);
        lemma_level_position(before, x);
        let p = level_position(before, x);
        let after = before.insert(p, x);
        assert(after.remove(p) == before);
        assert(after[p] == x);
        vstd::seq_lib::to_multiset_remove(after, p);
        vstd::seq_lib::to_multiset_build(front, x);
        assert(front.push(x) == levels);
        assert(after.to_multiset() =~= levels.to_multiset()) by {
            after.to_multiset_ensures();
            assert(after.contains(x));
        }
    }
}

/// Whether `cat` is the stored `row` with its levels from `cat_levels`, in
/// level order.
pub open spec fn is_cat_of(cat: Cat, row: CatDb, cat_levels: Seq<CatLevelDb>) -> bool {
    &&& cat.id == row.id
    &&& cat.name@ == row.name@
    &&& cat.description@ == row.description@
    &&& cat.sprite_idle@ == row.sprite_idle@
    &&& cat.sprite_mining@ == row.sprite_mining@
    &&& cat.is_starter == row.is_starter
    &&& cat.created_at == row.created_at
    &&& cat.levels@ == sorted_levels(levels_of(cat_levels, row.id))
}

fn insert_position(sorted: &Vec<CatLevel>, level: &CatLevel) -> (at: usize)
    ensures
        at == level_position(sorted@, *level),
        at <= sorted@.len(),
{
    let mut at: usize = sorted.len();
    assert(sorted@.take(at as int) == sorted@);
    while at > 0
        invariant
            at <= sorted.len(),
            level_position(sorted@, *level) == level_position(sorted@.take(at as int), *level),
        decreases at,
    {
        assert(sorted@.take(at as int).drop_last() == sorted@.take(at - 1));
        assert(sorted@.take(at as int).last() == sorted@[at - 1]);
        if level.level < sorted[at - 1].level {
            at = at - 1;
        } else {
            return at;
        }
    }
    at
}

/// Whether `by_cat` holds, for every cat that has levels among
/// `cat_levels`, those levels in level order, and nothing for any other cat.
spec fn groups_levels(by_cat: Map<i32, Vec<CatLevel>>, cat_levels: Seq<CatLevelDb>) -> bool {
    forall|cat_id: i32|
        if (#[trigger] levels_of(cat_levels, cat_id)).len() > 0 {
            by_cat.contains_key(cat_id) && by_cat[cat_id]@ == sorted_levels(
                levels_of(cat_levels, cat_id),
            )
        } else {
            !by_cat.contains_key(cat_id)
        }
}

fn group_levels(cat_levels: &Vec<CatLevelDb>) -> (levels_by_cat: HashMap<i32, Vec<CatLevel>>)
    ensures
        groups_levels(levels_by_cat@, cat_levels@),
{
    let mut levels_by_cat: HashMap<i32, Vec<CatLevel>> = HashMap::new();
    let mut j: usize = 0;
    while j < cat_levels.len()
        invariant
            j <= cat_levels.len(),
            groups_levels(levels_by_cat@, cat_levels@.take(j as int)),
        decreases cat_levels.len() - j,
    {
        let row = &cat_levels[j];
        let level = CatLevel {
            level: row.level,
            damage: row.damage,
            critical_chance: row.critical_chance,
            critical_multiplier: row.critical_multiplier,
            cost: row.cost,
        };
        let ghost shorter = cat_levels@.take(j as int);
        let ghost longer = cat_levels@.take(j + 1);
        let ghost before = levels_by_cat@;
        let ghost collected = levels_of(shorter, row.cat_id);
        let mut levels = match levels_by_cat.remove(&row.cat_id) {
            Some(levels) => levels,
            None => Vec::new(),
        };
        proof {
            if collected.len() == 0 {
                assert(collected =~= Seq::<CatLevel>::empty());
            }
            assert(levels@ == sorted_levels(collected));
        }
        let at = insert_position(&levels, &level);
        levels.insert(at, level);
        levels_by_cat.insert(row.cat_id, levels);
        proof {
            assert(longer.drop_last() == shorter);
            assert(longer.last() == cat_levels@[j as int]);
            assert(collected.push(level).drop_last() == collected);
            assert forall|cat_id: i32|
                if (#[trigger] levels_of(longer, cat_id)).len() > 0 {
                    levels_by_cat@.contains_key(cat_id) && levels_by_cat@[cat_id]@
                        == sorted_levels(levels_of(longer, cat_id))
                } else {
                    !levels_by_cat@.contains_key(cat_id)
                } by {
                if cat_id != row.cat_id {
                    assert(levels_of(longer, cat_id) == levels_of(shorter, cat_id));
                }
            }
        }
        j = j + 1;
    }
    assert(cat_levels@.take(j as int) == cat_levels@);
    levels_by_cat
}

fn copy_levels(levels: &Vec<CatLevel>) -> (copy: Vec<CatLevel>)
    ensures
        copy@ == levels@,
{
    let mut copy: Vec<CatLevel> = Vec::new();
    let mut i: usize = 0;
    while i < levels.len()
        invariant
            i <= levels.len(),
            copy@ == levels@.take(i as int),
        decreases levels.len() - i,
    {
        copy.push(levels[i]);
        assert(levels@.take(i + 1) == levels@.take(i as int).push(levels@[i as int]));
        i = i + 1;
    }
    assert(levels@.take(i as int) == levels@);
    copy
}

/// Puts the cats together with their levels: one cat for each stored cat and
/// in order, each with the levels stored for it, lowest level first.
pub fn convert_to_cats(cats: Vec<CatDb>, cat_levels: Vec<CatLevelDb>) -> (result: AppResult<
    Vec<Cat>,
>)
    ensures
        result matches Ok(shown) && shown@.len() == cats@.len() && forall|k: int|
            0 <= k < shown@.len() ==> is_cat_of(#[trigger] shown@[k], cats@[k], cat_levels@),
{
    let levels_by_cat = group_levels(&cat_levels);
    let mut shown: Vec<Cat> = Vec::new();
    let mut k: usize = 0;
    while k < cats.len()
        invariant
            k <= cats.len(),
            shown@.len() == k,
            groups_levels(levels_by_cat@, cat_levels@),
            forall|m: int| 0 <= m < k ==> is_cat_of(#[trigger] shown@[m], cats@[m], cat_levels@),
        decreases cats.len() - k,
    {
        let row = &cats[k];
        let ghost stored = levels_of(cat_levels@, row.id);
        let levels = match levels_by_cat.get(&row.id) {
            Some(levels) => copy_levels(levels),
            None => Vec::new(),
        };
        proof {
            if stored.len() == 0 {
                assert(stored =~= Seq::<CatLevel>::empty());
                assert(sorted_levels(stored) =~= Seq::<CatLevel>::empty());
            }
        }
        shown.push(
            Cat {
                id: row.id,
                name: row.name.clone(),
                description: row.description.clone(),
                sprite_idle: row.sprite_idle.clone(),
                sprite_mining: row.sprite_mining.clone(),
                is_starter: row.is_starter,
                created_at: row.created_at,
                levels,
            },
        );
        k = k + 1;
    }
    Ok(shown)
}

} // verus!
