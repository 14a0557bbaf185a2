//! The runtime engine: holds the configuration and decides which built-in
//! middlewares the configuration switches on.
use vstd::prelude::*;
use crate::rest::config::RestConf;
use crate::rest::middleware::max_bytes::{layer, layer_spec, BodyLimit};
use crate::rest::server::{Layer, Router};

verus! {

/// Runtime engine: the configuration and, later, runtime resources.
#[derive(Debug, Clone)]
pub struct Engine {
    pub conf: RestConf,
}

/// The built-in layers a configuration switches on, in the order they are applied:
/// the timeout (when enabled and positive), then the body limit (when enabled).
pub open spec fn default_layers(conf: RestConf) -> Seq<Layer> {
    let t: Seq<Layer> = if conf.middlewares.timeout && conf.timeout > 0 {
        seq![Layer::Timeout { millis: conf.timeout as u64 }]
    } else {
        Seq::empty()
    };
    if conf.middlewares.max_bytes {
        t.push(Layer::BodyLimit(layer_spec(conf.max_bytes)))
    } else {
        t
    }
}

impl Engine {
    pub fn new(conf: RestConf) -> (e: Self)
        ensures
            e.conf == conf,
    {
        Engine { conf }
    }

    /// Applies the built-in middlewares enabled in `conf.middlewares` to `router`.
    pub fn apply_defaults<S>(&self, router: Router<S>) -> (r: Router<S>)
        ensures
            r.routes() == router.routes(),
            r.has_fallback() == router.has_fallback(),
            r.state_applied() == router.state_applied(),
            r.layers() == router.layers() + default_layers(self.conf),
    {
        let mut router = router;
        let ghost l0 = router.layers();
        if self.conf.middlewares.timeout && self.conf.timeout > 0 {
            router = router.layer(Layer::Timeout { millis: self.conf.timeout as u64 });
        }
        if self.conf.middlewares.max_bytes {
            router = router.layer(Layer::BodyLimit(layer(self.conf.max_bytes)));
        }
        router
    }
}

} // verus!
