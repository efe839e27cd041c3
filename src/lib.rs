//! Persistence model for short text posts: an ordered, id-keyed store with
//! insert, delete and batched sync-flag updates, each with a proved contract.

pub mod post;
pub mod db;
pub mod laws;
