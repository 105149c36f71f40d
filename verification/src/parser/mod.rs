//! The parser: query text to a typed tree.
//!
//! The grammar is stated as specification functions on a sequence of
//! characters, one per rule; each executable function is proved to return
//! what its rule yields.

pub mod condition;
pub mod query;
pub mod selection;
pub mod source;
pub mod value;
