use vstd::prelude::*;

use crate::models::Tag;
use crate::persistency::tags::models::{tags_from_rows, SurrealTagEntityOutput};

verus! {

/// The shape a relation-traversal query returns: one record per matched
/// post, carrying the tag rows reached over the relation.
#[derive(Debug)]
pub struct SurrealTagsEntityOutput {
    pub tags: Vec<SurrealTagEntityOutput>,
}

/// The decode step after a relation traversal: the tags of the first
/// returned record as domain tags, or nothing when the engine returned no
/// record at all.
pub fn first_record_tags(rows: Vec<SurrealTagsEntityOutput>) -> (r: Option<Vec<Tag>>)
    ensures
        r is Some <==> rows@.len() > 0,
        r matches Some(tags) ==> {
            &&& tags@.len() == rows@[0].tags@.len()
            &&& forall|i: int|
                0 <= i < tags@.len() ==> (#[trigger] tags@[i]).id == rows@[0].tags@[i].id
                    && tags@[i].name == rows@[0].tags@[i].name
        },
{
    let mut rows = rows;
    if rows.len() == 0 {
        None
    } else {
        let first = rows.remove(0);
        Some(tags_from_rows(first.tags))
    }
}

} // verus!
