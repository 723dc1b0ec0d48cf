//! Document-intelligence core of a language server for an MDX-like authoring
//! format: position-based navigation of a parsed syntax tree, predicate-based
//! search over ancestor paths, and ordered-directory resolution of partial
//! references to concrete file locations.

pub mod ast;
pub mod config;
pub mod nodes;
pub mod store;
