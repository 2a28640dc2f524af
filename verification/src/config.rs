pub mod strategies;
pub mod errors;
pub mod loaders;
pub mod models;
