//! Traffic-classification rules: the registry of rule types and their
//! tokens, the grammars that rule values are checked against, the ordered
//! duplicate-free rule collection, and the records it is stored as.
pub mod collection;
pub mod grammar;
pub mod laws;
pub mod persist;
pub mod rule;
pub mod rule_type;
pub mod text;
