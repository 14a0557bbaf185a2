//! The `model` pipelines: options and resolved configuration per database.
pub mod mysql;
pub mod pg;
