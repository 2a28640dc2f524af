pub mod tag;
