use vstd::prelude::*;
use crate::app_error::AppResult;
use crate::entities::badge_group::BadgeGroup;

verus! {

/// A badge group as it is stored.
#[derive(Debug)]
pub struct BadgeGroupDb {
    pub id: i32,
    pub title: String,
    pub description: String,
    pub created_at: i64,
}

/// Whether `group` is the stored `row`, field by field.
pub open spec fn is_group_of(group: BadgeGroup, row: BadgeGroupDb) -> bool {
    &&& group.id == row.id
    &&& group.title@ == row.title@
    &&& group.description@ == row.description@
    &&& group.created_at == row.created_at
}

/// Turns stored badge groups into badge groups, one for one and in order.
pub fn convert_to_badge_groups(badge_groups: Vec<BadgeGroupDb>) -> (result: AppResult<
    Vec<BadgeGroup>,
>)
    ensures
        result matches Ok(groups) && groups@.len() == badge_groups@.len() && forall|i: int|
            0 <= i < groups@.len() ==> is_group_of(#[trigger] groups@[i], badge_groups@[i]),
{
    let mut groups: Vec<BadgeGroup> = Vec::new();
    let mut i: usize = 0;
    while i < badge_groups.len()
        invariant
            i <= badge_groups.len(),
            groups@.len() == i,
            forall|k: int| 0 <= k < i ==> is_group_of(#[trigger] groups@[k], badge_groups@[k]),
        decreases badge_groups.len() - i,
    {
        let row = &badge_groups[i];
        groups.push(
            BadgeGroup {
                id: row.id,
                title: row.title.clone(),
                description: row.description.clone(),
                created_at: row.created_at,
            },
        );
        i = i + 1;
    }
    Ok(groups)
}

} // verus!
