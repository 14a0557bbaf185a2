//! The handler for requests no route matches.
use vstd::prelude::*;
use crate::rest::server::Router;

verus! {

/// Sets `router`'s fallback: requests that match no route go to the not-found
/// handler; the routes and layers are kept.
pub fn apply<S>(router: Router<S>) -> (r: Router<S>)
    ensures
        r.routes() == router.routes(),
        r.layers() == router.layers(),
        r.has_fallback(),
        r.state_applied() == router.state_applied(),
{
    router.fallback()
}

} // verus!
