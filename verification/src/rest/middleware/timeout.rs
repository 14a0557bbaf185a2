//! Timeout middleware (go-zero `WithTimeout`).
use vstd::prelude::*;
use std::sync::Arc;
use std::time::Duration;

verus! {

/// The shared state of the timeout middleware: the deadline of each request.
pub fn state(timeout: Duration) -> (s: Arc<Duration>)
    ensures
        *s == timeout,
{
    Arc::new(timeout)
}

} // verus!
