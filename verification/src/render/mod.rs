//! Turning a digest into a document.

pub mod markdown;
