//! A verified persistence core for a posts-and-tags service.
//!
//! Two entities live in the store: posts and tags, joined by a many-to-many
//! relation. The repository layer here carries the rules with teeth —
//! tag-existence validation on post writes, exact synchronization of the
//! post/tag relation, paginated listing with a collection-wide count — each
//! stated as a contract and proved. [`persistency::memory`] holds the
//! in-process store the contracts are stated against; an application shell
//! can put the same decision functions in front of a remote storage engine.

pub mod clock;
pub mod config;
pub mod ids;
pub mod models;
pub mod persistency;
pub mod seqs;
pub mod text;
pub mod utils;
