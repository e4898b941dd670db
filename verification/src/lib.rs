//! Renders the branch structure of a repository's pull requests as a tree.
//!
//! Pull-request records are decoded from JSON text, arranged into a graph from
//! base branches to the head branches stacked on them, and laid out depth
//! first as an indented tree annotated with pull-request numbers and titles.

pub mod assoc;
pub mod gh;
pub mod graph;
pub mod json;
pub mod parse;
pub mod render;
pub mod text;
