pub mod laws;
pub mod memory;
pub mod models;
pub mod posts;
pub mod posts_tags;
pub mod tags;
