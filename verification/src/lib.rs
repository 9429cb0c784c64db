//! Indexing of a photo collection into albums, with the metadata rules that
//! each photograph has to meet, and the small blog index beside it.

pub mod albums;
pub mod blog;
pub mod guarantees;
pub mod hashing;
pub mod log_404;
pub mod manifest;
pub mod metadata;
pub mod pages;
pub mod photos;
pub mod tags;
pub mod text;
pub mod time;
pub mod util;
