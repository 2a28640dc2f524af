pub mod errors;
pub mod models;
