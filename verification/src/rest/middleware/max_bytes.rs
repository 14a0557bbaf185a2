//! MaxBytes middleware: the request body limit (go-zero `WithMaxBytes`).
use vstd::prelude::*;

verus! {

/// A request body limit.
#[derive(Debug, Clone, Copy, PartialEq, Eq, Structural)]
pub enum BodyLimit {
    /// No limit.
    Disabled,
    /// At most this many bytes.
    Max(u64),
}

/// What `layer(max_bytes)` yields: a non-positive setting turns the limit off.
pub open spec fn layer_spec(max_bytes: i64) -> BodyLimit {
    if max_bytes <= 0 {
        BodyLimit::Disabled
    } else {
        BodyLimit::Max(max_bytes as u64)
    }
}

/// The body limit for a `MaxBytes` setting.
pub fn layer(max_bytes: i64) -> (l: BodyLimit)
    ensures
        l == layer_spec(max_bytes),
{
    if max_bytes <= 0 {
        return BodyLimit::Disabled;
    }
    BodyLimit::Max(max_bytes as u64)
}

} // verus!
