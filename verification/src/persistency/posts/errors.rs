use vstd::prelude::*;

use crate::models::string_views;

verus! {

/// The names of `names`, joined with a comma and a space.
pub open spec fn joined_names(names: Seq<Seq<char>>) -> Seq<char>
    decreases names.len(),
{
    if names.len() == 0 {
        Seq::empty()
    } else if names.len() == 1 {
        names[0]
    } else {
        joined_names(names.drop_last()) + ", "@ + names.last()
    }
}

/// Joins names for an error message: `"a, b, c"`.
pub fn join_names(names: &Vec<String>) -> (r: String)
    ensures
        r@ == joined_names(string_views(names@)),
{
    let ghost all = string_views(names@);
    let mut r = String::new();
    let mut i: usize = 0;
    while i < names.len()
        invariant
            i <= names.len(),
            all == string_views(names@),
            all.len() == names@.len(),
            forall|j: int| 0 <= j < names@.len() ==> all[j] == names@[j]@,
            r@ == joined_names(all.take(i as int)),
        decreases names.len() - i,
    {
        if i > 0 {
            r.append(", ");
        }
        r.append(names[i].as_str());
        proof {
            let t = all.take(i + 1);
            assert(t.drop_last() =~= all.take(i as int));
            assert(t.last() == all[i as int]);
            if i == 0 {
                assert(joined_names(t) == all[0]);
                assert(r@ =~= all[0]);
            } else {
                assert(joined_names(t) == joined_names(all.take(i as int)) + ", "@ + all[i as int]);
            }
        }
        i = i + 1;
    }
    proof {
        assert(all.take(names@.len() as int) =~= all);
    }
    r
}

/// Everything a post repository operation can fail with. `Database` carries
/// the storage engine's own description of a failed call; `TagsNotFound`
/// carries the requested tag names that no tag row matched.
#[derive(Debug)]
pub enum PostRepositoryError {
    Database(String),
    PostCreation,
    TagsNotFound(Vec<String>),
    PostListing,
    PostCount,
    PostUpdate,
    PostGet,
}

impl PostRepositoryError {
    /// Human-readable description of the failure.
    pub fn message(&self) -> (r: String)
        ensures
            self matches PostRepositoryError::Database(e) ==> r@ == "Database query failed: "@
                + e@,
            self is PostCreation ==> r@ == "Failed to create post in the database"@,
            self matches PostRepositoryError::TagsNotFound(names) ==> r@ == "Tags not found: "@
                + joined_names(string_views(names@)),
            self is PostListing ==> r@ == "Failed to list posts from the database"@,
            self is PostCount ==> r@ == "Failed to count posts in the database"@,
            self is PostUpdate ==> r@ == "Failed to update post in the database"@,
            self is PostGet ==> r@ == "Failed to get post from the database"@,
    {
        match self {
            PostRepositoryError::Database(e) => String::from_str("Database query failed: ").concat(
                e.as_str(),
            ),
            PostRepositoryError::PostCreation => String::from_str(
                "Failed to create post in the database",
            ),
            PostRepositoryError::TagsNotFound(names) => String::from_str(
                "Tags not found: ",
            ).concat(join_names(names).as_str()),
            PostRepositoryError::PostListing => String::from_str(
                "Failed to list posts from the database",
            ),
            PostRepositoryError::PostCount => String::from_str(
                "Failed to count posts in the database",
            ),
            PostRepositoryError::PostUpdate => String::from_str(
                "Failed to update post in the database",
            ),
            PostRepositoryError::PostGet => String::from_str(
                "Failed to get post from the database",
            ),
        }
    }
}

} // verus!
