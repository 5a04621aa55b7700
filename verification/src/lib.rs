//! Terminal chat front end: the state, rules and text formats, verified.

pub use vstd::hash_map::StringHashMap;
pub use vstd::hash_set::StringHashSet;

pub mod app;
pub mod chat;
pub mod commands;
pub mod input;
pub mod input_wrap;
pub mod order;
pub mod style;
pub mod text;
pub mod text_laws;
