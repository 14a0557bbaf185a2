//! The REST layer: configuration, the runtime engine, the server builder,
//! go-zero style options and the built-in middleware decisions.
pub mod config;
pub mod engine;
pub mod middleware;
pub mod options;
pub mod server;
pub mod web;
