//! Core of a shared full-text search service: file indexing by extension
//! dispatch, a single-owner query engine over an in-memory document index,
//! and a correlation bridge that routes each response back to the caller
//! that submitted the matching request.

pub mod bridge;
pub mod engine;
pub mod errors;
pub mod indexer;
pub mod protocol;
pub mod registry;
pub mod schema;
pub mod service;
pub mod text;
pub mod ui;
