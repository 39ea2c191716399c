//! A verified core for a terminal text-document viewer: pagination of raw
//! extracted text into pages, case-insensitive search with highlight spans,
//! bound-checked navigation state, and the key-driven input-mode state
//! machine, together with the pure render model handed to a terminal surface.

pub mod app;
pub mod highlight;
pub mod pagination;
pub mod render;
pub mod search;
pub mod text;
