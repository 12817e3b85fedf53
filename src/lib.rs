//! Conversion of a parsed markup document tree into structured plain text:
//! headings, emphasis, links, images, lists, pipe tables, fenced code and an
//! optional front-matter header.
//!
//! `convert` walks the tree once; its result is stated exactly by
//! `model::converted`, a function of the tree and the options.
pub mod text;
pub mod tree;
pub mod config;
pub mod metadata;
pub mod table;
pub mod rules;
pub mod model;
pub mod formatter;
pub mod laws;
pub mod fetch;

pub use config::{CleaningRules, Config};
pub use formatter::{convert, Formatter};
pub use tree::{Attribute, Node, NodeData, Tree};
