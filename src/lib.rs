//! Widgets built by composition: each widget gathers independent aspects
//! (tree membership, text, layout) and forwards each aspect's operations to
//! the part that holds it.

pub mod button;
pub mod control;
pub mod layout;
pub mod text;
pub mod tree;
