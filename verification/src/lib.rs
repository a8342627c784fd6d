//! Dependency definitions: shared references, merging, processor contexts and
//! path lookup through nested definitions.
pub mod model;
pub mod strmap;
pub mod merge;
pub mod json;
pub mod thread;
pub mod reference_value;
pub mod cli;
pub mod processor;
pub mod definition;
pub mod contexts;
pub mod dto;
pub mod mappers;
pub mod inputs;
pub mod engine;
pub mod laws;
pub mod graph;
pub mod collection;
