//! Core of a capture-to-record intake pipeline: audio decoding for a local
//! speech model, model-cache lifecycle decisions, interpretation of a
//! loosely-shaped classification document into typed draft records, contact
//! suggestion matching, identifier allocation, and draft confirmation.

pub mod activity;
pub mod audio;
pub mod classify;
pub mod confirm;
pub mod contacts;
pub mod drafts;
pub mod engine;
pub mod ids;
pub mod model_cache;
pub mod text;
