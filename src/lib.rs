//! A preset selector for a settings editor: each named option stands for a
//! list of path/value assignments into a session document, the displayed
//! option is recomputed from the document, and choosing an option yields the
//! assignments to apply.

pub mod json;
pub mod path;
pub mod schema;
pub mod control;
