//! go-zero style route and server options, written like `WithPrefix("/api/v1")`.
use vstd::prelude::*;
use std::time::Duration;
use crate::rest::config::SignatureConf;

verus! {

/// Mounts the routes under a path prefix.
pub struct WithPrefix(pub &'static str);

/// Wraps the routes in a middleware.
pub struct WithMiddleware<M>(pub M);

/// Requires a valid bearer JWT signed with the given secret.
pub struct WithJwt<S>(pub S);

/// Allows cross-origin requests from the given origins.
pub struct WithCors(pub Vec<String>);

/// Allows the given request headers in cross-origin requests.
pub struct WithCorsHeaders(pub Vec<String>);

pub struct WithCustomCors;

/// Limits request bodies to the given number of bytes.
pub struct WithMaxBytes(pub i64);

/// Limits the number of concurrent connections.
pub struct WithMaxConns(pub usize);

/// Answers requests that take longer with a timeout.
pub struct WithTimeout(pub Duration);

pub struct WithRecover;

pub struct WithGunzip;

pub struct WithMetrics;

pub struct WithPrometheus;

pub struct WithBreaker;

pub struct WithShedding;

pub struct WithSSE;

/// Checks request signatures.
pub struct WithSignature(pub SignatureConf);

/// Answers unmatched requests with the given handler.
pub struct WithNotFoundHandler<H>(pub H);

pub struct WithNotAllowedHandler;

pub struct WithFileServer;

pub struct WithTLSConfig;

pub struct WithUnauthorizedCallback;

pub struct WithUnsignedCallback;

} // verus!
