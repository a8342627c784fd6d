//! Definitions: named metadata, the edges between them, tags, processors and the
//! definitions that edges lead to.
pub mod definition;
pub mod edge;
pub mod finders;
pub mod foreign_definition;
pub mod input;
pub mod metadata;
pub mod tag;
pub mod merging;
