//! Startup: from a configuration to a route table and resolved listeners.
use vstd::prelude::*;
use crate::config::{Config, ConfigError, ResolvedListener, config_ok, resolved_bind};
use crate::request::IpAddress;
use crate::router::{Router, compile_fault, ips_at};

verus! {

/// What the proxy runs with: its route table and its listeners.
#[derive(Clone, Debug)]
pub struct Prepared {
    pub router: Router,
    pub listeners: Vec<ResolvedListener>,
}

/// Validates the configuration, compiles its routes and resolves its
/// listeners, failing with the first error. `binds_parse[i]` tells whether
/// listener `i`'s bind address parses; `host_ips[i][k]` is what host pattern
/// `k` of route `i` parses to as an IP address.
pub fn prepare(
    config: &Config,
    binds_parse: &Vec<bool>,
    host_ips: &Vec<Vec<Option<IpAddress>>>,
) -> (r: Result<Prepared, ConfigError>)
    ensures
        r is Ok == (config_ok(*config, binds_parse@) && forall|i: int|
            0 <= i < config.routes@.len() ==> compile_fault(#[trigger] config.routes@[i]) is None),
        r matches Ok(p) ==> p.router.routes@.len() == config.routes@.len() && (forall|i: int|
            0 <= i < config.routes@.len() ==> #[trigger] p.router.routes@[i].compiled_from(
                config.routes@[i],
                ips_at(host_ips@, i),
            )) && p.listeners@.len() == config.listeners@.len() && forall|i: int|
            0 <= i < config.listeners@.len() ==> (#[trigger] p.listeners@[i]).name@
                == config.listeners@[i].name@ && p.listeners@[i].addr@ == resolved_bind(
                config.listeners@[i].bind@,
            ),
{
    match config.validate(binds_parse) {
        Err(e) => {
            return Err(e);
        },
        Ok(()) => {},
    }
    let router = match Router::build(config.routes.as_slice(), host_ips) {
        Ok(t) => t,
        Err(e) => {
            return Err(e);
        },
    };
    proof {
        assert forall|i: int| 0 <= i < config.listeners@.len() implies config.listeners@[i].tls is Some by {
            assert(crate::config::listener_problem(config.listeners@, binds_parse@, i) is None);
        }
    }
    match config.resolved_listeners() {
        Ok(listeners) => Ok(Prepared { router, listeners }),
        Err(e) => Err(e),
    }
}

} // verus!
