use vstd::prelude::*;

use crate::models::{Post, Tag};
use crate::persistency::posts::errors::PostRepositoryError;

verus! {

/// A request to create or rewrite a post. `tags` holds the referenced tag
/// names and stands for a set: order carries no meaning, and a repeated
/// name adds nothing, since names resolve against the stored tag rows.
#[derive(Debug)]
pub struct NewPost {
    pub title: String,
    pub content: String,
    pub tags: Vec<String>,
}

/// The shape handed to the storage engine when writing a post. Timestamps
/// are milliseconds since the Unix epoch.
#[derive(Debug, PartialEq, Eq)]
pub struct SurrealPostEntityInput {
    pub title: String,
    pub content: String,
    pub created_at: i64,
    pub updated_at: i64,
}

/// A post row as the storage engine returns it from a write.
#[derive(Debug)]
pub struct SurrealPostEntityOutput {
    pub id: String,
    pub title: String,
    pub content: String,
    pub created_at: i64,
    pub updated_at: i64,
}

impl Clone for SurrealPostEntityOutput {
    fn clone(&self) -> (r: Self)
        ensures
            r == *self,
    {
        SurrealPostEntityOutput {
            id: self.id.clone(),
            title: self.title.clone(),
            content: self.content.clone(),
            created_at: self.created_at,
            updated_at: self.updated_at,
        }
    }
}

impl From<(SurrealPostEntityOutput, Vec<Tag>)> for Post {
    fn from(pair: (SurrealPostEntityOutput, Vec<Tag>)) -> Self {
        let (post, tags) = pair;
        Post {
            id: post.id,
            title: post.title,
            content: post.content,
            tags,
            created_at: post.created_at,
            updated_at: post.updated_at,
        }
    }
}

impl vstd::std_specs::convert::FromSpecImpl<(SurrealPostEntityOutput, Vec<Tag>)> for Post {
    open spec fn obeys_from_spec() -> bool {
        true
    }

    open spec fn from_spec(pair: (SurrealPostEntityOutput, Vec<Tag>)) -> Self {
        Post {
            id: pair.0.id,
            title: pair.0.title,
            content: pair.0.content,
            tags: pair.1,
            created_at: pair.0.created_at,
            updated_at: pair.0.updated_at,
        }
    }
}

/// A post row as the joined listing query returns it: the row fields plus
/// the tags reached over the post/tag relation.
#[derive(Debug)]
pub struct SurrealPostEntityWithTagsOutput {
    pub id: String,
    pub title: String,
    pub content: String,
    pub tags: Vec<Tag>,
    pub created_at: i64,
    pub updated_at: i64,
}

impl Clone for SurrealPostEntityWithTagsOutput {
    fn clone(&self) -> (r: Self)
        ensures
            r.id == self.id,
            r.title == self.title,
            r.content == self.content,
            r.tags@ =~= self.tags@,
            r.created_at == self.created_at,
            r.updated_at == self.updated_at,
    {
        SurrealPostEntityWithTagsOutput {
            id: self.id.clone(),
            title: self.title.clone(),
            content: self.content.clone(),
            tags: clone_tags(&self.tags),
            created_at: self.created_at,
            updated_at: self.updated_at,
        }
    }
}

/// Clones a tag list, keeping every element.
pub fn clone_tags(tags: &Vec<Tag>) -> (r: Vec<Tag>)
    ensures
        r@ =~= tags@,
{
    let mut r: Vec<Tag> = Vec::new();
    let mut i: usize = 0;
    while i < tags.len()
        invariant
            i <= tags@.len(),
            r@ =~= tags@.take(i as int),
        decreases tags@.len() - i,
    {
        r.push(tags[i].clone());
        proof {
            assert(tags@.take(i + 1) =~= tags@.take(i as int).push(tags@[i as int]));
        }
        i = i + 1;
    }
    proof {
        assert(tags@.take(tags@.len() as int) =~= tags@);
    }
    r
}

impl From<SurrealPostEntityWithTagsOutput> for Post {
    fn from(post: SurrealPostEntityWithTagsOutput) -> Self {
        Post {
            id: post.id,
            title: post.title,
            content: post.content,
            tags: post.tags,
            created_at: post.created_at,
            updated_at: post.updated_at,
        }
    }
}

impl vstd::std_specs::convert::FromSpecImpl<SurrealPostEntityWithTagsOutput> for Post {
    open spec fn obeys_from_spec() -> bool {
        true
    }

    open spec fn from_spec(post: SurrealPostEntityWithTagsOutput) -> Self {
        Post {
            id: post.id,
            title: post.title,
            content: post.content,
            tags: post.tags,
            created_at: post.created_at,
            updated_at: post.updated_at,
        }
    }
}

/// One page of posts together with the size of the whole collection.
#[derive(Debug)]
pub struct FindPostsResponse {
    pub posts: Vec<Post>,
    pub total: usize,
}

/// The decode step after a post write: the first returned row, or the given
/// error when the engine returned no row.
pub fn first_post_row_or(rows: Vec<SurrealPostEntityOutput>, err: PostRepositoryError) -> (r:
    Result<SurrealPostEntityOutput, PostRepositoryError>)
    ensures
        r is Ok <==> rows@.len() > 0,
        rows@.len() > 0 ==> r == Ok::<SurrealPostEntityOutput, PostRepositoryError>(rows@[0]),
        rows@.len() == 0 ==> r == Err::<SurrealPostEntityOutput, PostRepositoryError>(err),
{
    let mut rows = rows;
    if rows.len() == 0 {
        Err(err)
    } else {
        Ok(rows.remove(0))
    }
}

/// Converts a joined listing result set to domain posts, keeping order.
pub fn posts_from_rows(rows: Vec<SurrealPostEntityWithTagsOutput>) -> (r: Vec<Post>)
    ensures
        r@.len() == rows@.len(),
        forall|i: int|
            0 <= i < rows@.len() ==> (#[trigger] r@[i]).id == rows@[i].id && r@[i].title
                == rows@[i].title && r@[i].content == rows@[i].content && r@[i].tags@
                =~= rows@[i].tags@ && r@[i].created_at == rows@[i].created_at && r@[i].updated_at
                == rows@[i].updated_at,
{
    let mut r: Vec<Post> = Vec::new();
    let mut i: usize = 0;
    while i < rows.len()
        invariant
            i <= rows@.len(),
            r@.len() == i,
            forall|j: int|
                0 <= j < i as int ==> (#[trigger] r@[j]).id == rows@[j].id && r@[j].title
                    == rows@[j].title && r@[j].content == rows@[j].content && r@[j].tags@
                    =~= rows@[j].tags@ && r@[j].created_at == rows@[j].created_at
                    && r@[j].updated_at == rows@[j].updated_at,
        decreases rows@.len() - i,
    {
        r.push(Post::from(rows[i].clone()));
        i = i + 1;
    }
    r
}

} // verus!
