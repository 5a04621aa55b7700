//! The conversation: its segments, its Markdown form, and search in it.

pub mod format_laws;
pub mod history;
pub mod markdown;
pub mod parse;
pub mod preview;
pub mod roundtrip;
pub mod search;
pub mod segment;
pub mod segment_ops;
pub mod tools;
