//! Change-synchronisation core of a note-taking backend: a version clock, a
//! mutation log over notebooks, notes and content blocks, durable tombstones,
//! and a change feed that clients poll by watermark.

pub mod data;
pub mod feed;
pub mod error;
pub mod clock;
pub mod store;
pub mod laws;
pub mod replica;
