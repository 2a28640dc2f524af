pub mod errors;
pub mod models;
pub mod utils;
