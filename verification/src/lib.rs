//! Release automation: semantic versions, manifest discovery and selection,
//! and the ordered release transaction.

pub mod decimal;
pub mod error;
pub mod locator;
pub mod manifest;
pub mod pattern;
pub mod release;
pub mod repository;
pub mod selector;
pub mod version;
