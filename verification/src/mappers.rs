//! Turning definitions as written into definitions and back.
pub mod arguments;
pub mod environments;
pub mod processors;
pub mod tags;
pub mod definition_dto;
