//! Media ingestion and indexing: content identity, embedded metadata,
//! thumbnails and reconciliation against an index of media records.

pub mod identity;
pub mod text;
pub mod datetime;
pub mod metadata;
pub mod models;
pub mod image;
pub mod video;
pub mod reconcile;
pub mod collection;
pub mod links;
pub mod forms;
