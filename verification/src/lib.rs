//! A verified core for a go-zero style REST toolkit: configuration defaults and
//! checks, middleware decisions, the API description language and its code
//! generator, and the small template engine the generator renders with.
pub mod text;
pub mod render;
pub mod rest;
pub mod conf;
pub mod rsctl;
pub mod sorted;
