//! The `rsctl` code generator: API description language, its semantic model,
//! the Rust project generator and the pipeline decisions around them.
pub mod api;
pub mod args;
pub mod bodies;
pub mod cli;
pub mod gen;
pub mod groups;
pub mod model;
pub mod naming;
pub mod parse;
pub mod pipeline;
pub mod project;
pub mod routes;
pub mod semantic;
pub mod spec;
pub mod tree;
pub mod typegen;
