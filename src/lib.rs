//! A TLS-terminating reverse proxy core: route compilation and selection,
//! upstream target construction, request rewriting, response synthesis and
//! the listener shutdown protocol.
use vstd::prelude::*;

pub mod config;
pub mod forward;
pub mod interpolate;
pub mod parse;
pub mod pipeline;
pub mod plugin;
pub mod proxy;
pub mod request;
pub mod router;
pub mod shutdown;
pub mod text;

verus! {

/// The library version, as published.
pub fn version() -> (r: &'static str)
    ensures
        r@ == "0.1.0"@,
{
    "0.1.0"
}

} // verus!
