use vstd::prelude::*;

verus! {

/// A group under which badges are shown.
#[derive(Debug)]
pub struct BadgeGroup {
    pub id: i32,
    pub title: String,
    pub description: String,
    pub created_at: i64,
}

} // verus!
