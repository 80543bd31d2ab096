//! Named clipboard registers: an in-memory store of text slots, each with a
//! content and a keyboard shortcut, keyed by a unique name.
pub mod entries;
pub mod model;
pub mod manager;
pub mod register;
