use vstd::prelude::*;

verus! {

/// Everything a tag repository operation can fail with. `Database` carries
/// the storage engine's own description of a failed call.
#[derive(Debug)]
pub enum TagRepositoryError {
    Database(String),
    TagCreation,
    TagListing,
    TagCount,
    TagFind,
    TagUpdate,
    TagNotFound,
}

impl TagRepositoryError {
    /// Human-readable description of the failure.
    pub fn message(&self) -> (r: String)
        ensures
            self matches TagRepositoryError::Database(e) ==> r@ == "Database error: "@ + e@,
            self is TagCreation ==> r@ == "Failed to create tag in the database"@,
            self is TagListing ==> r@ == "Failed to list tags from the database"@,
            self is TagCount ==> r@ == "Failed to count tags in the database"@,
            self is TagFind ==> r@ == "Failed to find tags by names in the database"@,
            self is TagUpdate ==> r@ == "Failed to update tag in the database"@,
            self is TagNotFound ==> r@ == "Tag not found in the database"@,
    {
        match self {
            TagRepositoryError::Database(e) => String::from_str("Database error: ").concat(
                e.as_str(),
            ),
            TagRepositoryError::TagCreation => String::from_str(
                "Failed to create tag in the database",
            ),
            TagRepositoryError::TagListing => String::from_str(
                "Failed to list tags from the database",
            ),
            TagRepositoryError::TagCount => String::from_str(
                "Failed to count tags in the database",
            ),
            TagRepositoryError::TagFind => String::from_str(
                "Failed to find tags by names in the database",
            ),
            TagRepositoryError::TagUpdate => String::from_str(
                "Failed to update tag in the database",
            ),
            TagRepositoryError::TagNotFound => String::from_str("Tag not found in the database"),
        }
    }
}

} // verus!
