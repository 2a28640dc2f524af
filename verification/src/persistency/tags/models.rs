use vstd::prelude::*;

use crate::models::Tag;
use crate::persistency::tags::errors::TagRepositoryError;

verus! {

/// A request to create a tag, or the new name when renaming one.
#[derive(Debug)]
pub struct NewTag {
    pub name: String,
}

/// The shape handed to the storage engine when writing a tag.
#[derive(Debug)]
pub struct SurrealTagEntityInput {
    pub name: String,
}

impl From<NewTag> for SurrealTagEntityInput {
    fn from(tag: NewTag) -> Self {
        SurrealTagEntityInput { name: tag.name }
    }
}

impl vstd::std_specs::convert::FromSpecImpl<NewTag> for SurrealTagEntityInput {
    open spec fn obeys_from_spec() -> bool {
        true
    }

    open spec fn from_spec(tag: NewTag) -> Self {
        SurrealTagEntityInput { name: tag.name }
    }
}

/// A tag row as the storage engine returns it.
#[derive(Debug)]
pub struct SurrealTagEntityOutput {
    pub id: String,
    pub name: String,
}

impl Clone for SurrealTagEntityOutput {
    fn clone(&self) -> (r: Self)
        ensures
            r == *self,
    {
        SurrealTagEntityOutput { id: self.id.clone(), name: self.name.clone() }
    }
}

impl From<SurrealTagEntityOutput> for Tag {
    fn from(tag: SurrealTagEntityOutput) -> Self {
        Tag { id: tag.id, name: tag.name }
    }
}

impl vstd::std_specs::convert::FromSpecImpl<SurrealTagEntityOutput> for Tag {
    open spec fn obeys_from_spec() -> bool {
        true
    }

    open spec fn from_spec(tag: SurrealTagEntityOutput) -> Self {
        Tag { id: tag.id, name: tag.name }
    }
}

/// One page of tags together with the size of the whole collection.
#[derive(Debug)]
pub struct FindTagsResponse {
    pub tags: Vec<Tag>,
    pub total: usize,
}

/// The decode step after a tag write: the first returned row as a domain
/// tag, or the given error when the engine returned no row.
pub fn first_tag_or(rows: Vec<SurrealTagEntityOutput>, err: TagRepositoryError) -> (r: Result<
    Tag,
    TagRepositoryError,
>)
    ensures
        r is Ok <==> rows@.len() > 0,
        rows@.len() > 0 ==> (r matches Ok(t) && t.id == rows@[0].id && t.name == rows@[0].name),
        rows@.len() == 0 ==> r == Err::<Tag, TagRepositoryError>(err),
{
    let mut rows = rows;
    if rows.len() == 0 {
        Err(err)
    } else {
        let row = rows.remove(0);
        Ok(Tag::from(row))
    }
}

/// Converts a listing result set to domain tags, keeping order.
pub fn tags_from_rows(rows: Vec<SurrealTagEntityOutput>) -> (r: Vec<Tag>)
    ensures
        r@.len() == rows@.len(),
        forall|i: int|
            0 <= i < rows@.len() ==> (#[trigger] r@[i]).id == rows@[i].id && r@[i].name
                == rows@[i].name,
{
    let mut r: Vec<Tag> = Vec::new();
    let mut i: usize = 0;
    while i < rows.len()
        invariant
            i <= rows@.len(),
            r@.len() == i,
            forall|j: int|
                0 <= j < i as int ==> (#[trigger] r@[j]).id == rows@[j].id && r@[j].name
                    == rows@[j].name,
        decreases rows@.len() - i,
    {
        r.push(Tag::from(rows[i].clone()));
        i = i + 1;
    }
    r
}

} // verus!
