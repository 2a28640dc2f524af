use vstd::prelude::*;
use vstd::string::*;

use crate::clock::now_utc_millis;
use crate::models::{string_views, tag_names, tag_views, Tag};
use crate::persistency::posts::errors::PostRepositoryError;
use crate::persistency::posts::models::SurrealPostEntityInput;
use crate::seqs::lemma_take_push;
use crate::utils::tag::{
    lemma_names_not_in_empty, lemma_names_not_in_push, names_not_in, tags_contain_name,
};

verus! {

/// Builds the storage row for a post written at instant `now` (milliseconds
/// since the Unix epoch): a fresh post was created and updated at the same
/// moment.
pub fn create_post_entity(title: String, content: String, now: i64) -> (r: SurrealPostEntityInput)
    ensures
        r.title == title,
        r.content == content,
        r.created_at == now,
        r.updated_at == now,
{
    SurrealPostEntityInput { title, content, created_at: now, updated_at: now }
}

/// Builds the storage row for a post written now, stamping both timestamps
/// with the current wall-clock instant.
pub fn post_entity_now(title: String, content: String) -> (r: SurrealPostEntityInput)
    ensures
        r.title == title,
        r.content == content,
        r.created_at == r.updated_at,
{
    let now: i64 = now_utc_millis();
    create_post_entity(title, content, now)
}

/// Computes which requested tag names are absent from the resolved tags:
/// exactly the requested names no resolved tag bears, in request order.
pub fn missing_tag_names(requested: &Vec<String>, found: &Vec<Tag>) -> (r: Vec<String>)
    ensures
        string_views(r@) =~= names_not_in(string_views(requested@), tag_names(tag_views(found@))),
{
    let ghost req = string_views(requested@);
    let ghost names = tag_names(tag_views(found@));
    let mut r: Vec<String> = Vec::new();
    let mut i: usize = 0;
    while i < requested.len()
        invariant
            i <= requested@.len(),
            req == string_views(requested@),
            names == tag_names(tag_views(found@)),
            req.len() == requested@.len(),
            forall|j: int| 0 <= j < requested@.len() ==> req[j] == requested@[j]@,
            string_views(r@) =~= names_not_in(req.take(i as int), names),
        decreases requested@.len() - i,
    {
        let hit = tags_contain_name(found, requested[i].as_str());
        proof {
            lemma_take_push(req, i as int);
            lemma_names_not_in_push(req.take(i as int), names, req[i as int]);
        }
        if !hit {
            r.push(requested[i].clone());
        }
        i = i + 1;
    }
    proof {
        assert(req.take(requested@.len() as int) =~= req);
    }
    r
}

/// The create-time validation step: every requested tag name must have
/// resolved to a tag. On success the resolved tags pass through unchanged;
/// otherwise exactly the unresolved names are reported and no write may
/// follow.
pub fn ensure_all_tags_found(found: Vec<Tag>, requested: &Vec<String>) -> (r: Result<
    Vec<Tag>,
    PostRepositoryError,
>)
    ensures
        r is Ok <==> (forall|i: int|
            0 <= i < requested@.len() ==> tag_names(tag_views(found@)).contains(
                #[trigger] requested@[i]@,
            )),
        r matches Ok(tags) ==> tags == found,
        r matches Err(e) ==> (e matches PostRepositoryError::TagsNotFound(missing)
            && string_views(missing@) =~= names_not_in(
            string_views(requested@),
            tag_names(tag_views(found@)),
        ) && names_not_in(string_views(requested@), tag_names(tag_views(found@))).len() > 0),
{
    let ghost req = string_views(requested@);
    let ghost names = tag_names(tag_views(found@));
    let missing = missing_tag_names(requested, &found);
    let ghost m = names_not_in(req, names);
    proof {
        lemma_names_not_in_empty(req, names);
        let all_req = forall|i: int|
            0 <= i < requested@.len() ==> names.contains(#[trigger] requested@[i]@);
        if all_req {
            assert forall|i: int| 0 <= i < req.len() implies names.contains(#[trigger] req[i]) by {
                assert(req[i] == requested@[i]@);
                assert(names.contains(requested@[i]@));
            }
            assert(m.len() == 0);
        }
        if m.len() == 0 {
            assert forall|i: int| 0 <= i < requested@.len() implies names.contains(
                #[trigger] requested@[i]@,
            ) by {
                assert(names.contains(req[i]));
                assert(req[i] == requested@[i]@);
            }
        }
    }
    if missing.len() == 0 {
        Ok(found)
    } else {
        Err(PostRepositoryError::TagsNotFound(missing))
    }
}

/// Builds the record references for the relation write that associates one
/// post with its tags: the post reference and one tag reference per tag.
pub fn relation_refs(post_id: &str, tags: &Vec<Tag>) -> (r: (String, Vec<String>))
    ensures
        r.0@ == "posts:"@ + post_id@,
        r.1@.len() == tags@.len(),
        forall|i: int| 0 <= i < tags@.len() ==> (#[trigger] r.1@[i])@ == "tags:"@ + tags@[i].id@,
{
    let mut post_ref = String::from_str("posts:");
    post_ref.append(post_id);
    let mut tag_refs: Vec<String> = Vec::new();
    let mut i: usize = 0;
    while i < tags.len()
        invariant
            i <= tags@.len(),
            tag_refs@.len() == i,
            forall|j: int|
                0 <= j < i as int ==> (#[trigger] tag_refs@[j])@ == "tags:"@ + tags@[j].id@,
        decreases tags@.len() - i,
    {
        let mut tag_ref = String::from_str("tags:");
        tag_ref.append(tags[i].id.as_str());
        tag_refs.push(tag_ref);
        i = i + 1;
    }
    (post_ref, tag_refs)
}

} // verus!
