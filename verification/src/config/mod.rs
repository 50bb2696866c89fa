//! The scheduler's configuration: its data model and accessors.
pub mod data;
pub mod reader;
