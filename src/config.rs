//! The validated configuration descriptor: listeners, routes, filters and
//! upstream strategies, with their structural checks.
use vstd::prelude::*;
use crate::parse::{parse_uri, parsed_uri, trim_str, trimmed};
use crate::text::str_eq;

verus! {

/// What a configuration check found wrong.
#[derive(Clone, Copy, Debug, PartialEq, Eq, Structural)]
pub enum ConfigErrorKind {
    NoListeners,
    EmptyListenerName,
    InvalidBindAddress,
    MissingTls,
    EmptyTlsPaths,
    DuplicateListener,
    NoRoutes,
    EmptyRouteName,
    NoHostMatchers,
    InvalidUpstreamTarget,
    UnsupportedStrategy,
    DuplicateRoute,
    InvalidMethod,
}

/// A configuration error: its kind and the name of the listener, route or
/// target it concerns (empty where none does).
#[derive(Clone, Debug)]
pub struct ConfigError {
    pub kind: ConfigErrorKind,
    pub subject: String,
}

/// Root configuration.
#[derive(Clone, Debug, Default)]
pub struct Config {
    pub admin: Option<Admin>,
    pub listeners: Vec<Listener>,
    pub routes: Vec<Route>,
    pub plugins: Option<Plugins>,
}

#[derive(Clone, Debug)]
pub struct Admin {
    pub listen: String,
}

#[derive(Clone, Debug, Default)]
pub struct Listener {
    pub name: String,
    pub bind: String,
    pub tls: Option<Tls>,
    pub alpn: Option<Vec<String>>,
    pub http: Option<HttpTweaks>,
}

#[derive(Clone, Debug)]
pub struct Tls {
    pub cert: String,
    pub key: String,
}

#[derive(Clone, Debug, Default)]
pub struct HttpTweaks {
    pub max_header_bytes: Option<u32>,
    pub request_timeout_secs: Option<u64>,
}

#[derive(Clone, Debug, Default)]
pub struct Route {
    pub name: String,
    pub matchers: Matchers,
    pub filters: Vec<Filter>,
    pub upstream: Upstream,
    pub response_filters: Vec<Filter>,
}

#[derive(Clone, Debug, Default)]
pub struct Matchers {
    pub hosts: Option<Vec<String>>,
    pub path_prefix: Option<String>,
    pub methods: Option<Vec<String>>,
    pub headers: Option<Vec<HeaderMatch>>,
}

#[derive(Clone, Debug)]
pub struct HeaderMatch {
    pub name: String,
    pub value: String,
}

/// The settings of a filter that the core reads: the `request_secs` member
/// of its payload, where that member is an unsigned integer.
#[derive(Clone, Copy, Debug, Default)]
pub struct FilterConfig {
    pub request_secs: Option<u64>,
}

#[derive(Clone, Debug)]
pub enum Filter {
    Builtin { name: String, config: FilterConfig },
    Wasm { name: String, module: String, config: FilterConfig },
    InProc { name: String, symbol: String, config: FilterConfig },
}

impl Default for Filter {
    fn default() -> (r: Self)
        ensures
            r matches Filter::Builtin { name, config } && name@.len() == 0
                && config.request_secs is None,
    {
        Filter::Builtin { name: String::new(), config: FilterConfig { request_secs: None } }
    }
}

#[derive(Clone, Debug)]
pub enum Upstream {
    Single { target: String },
    RoundRobin { targets: Vec<String> },
    LeastLatency { targets: Vec<String> },
    Hash { targets: Vec<String>, key: String },
}

impl Default for Upstream {
    fn default() -> (r: Self)
        ensures
            r matches Upstream::Single { target } && target@.len() == 0,
    {
        Upstream::Single { target: String::new() }
    }
}

#[derive(Clone, Debug, Default)]
pub struct Plugins {
    pub search_paths: Vec<String>,
    pub allow_unsafe_dylib: bool,
}

/// A listener with its bind address resolved and its TLS material required.
#[derive(Clone, Debug)]
pub struct ResolvedListener {
    pub name: String,
    pub addr: String,
    pub tls: Tls,
    pub alpn: Vec<String>,
}

/// Nothing but whitespace.
pub open spec fn blank(s: Seq<char>) -> bool {
    trimmed(s).len() == 0
}

/// The address a bind value stands for: a leading `:` means every interface.
pub open spec fn resolved_bind(bind: Seq<char>) -> Seq<char> {
    if bind.len() > 0 && bind[0] == ':' {
        "0.0.0.0"@ + bind
    } else {
        bind
    }
}

/// The first fault of TLS material, if any.
pub open spec fn tls_fault(t: Tls) -> Option<ConfigErrorKind> {
    if blank(t.cert@) || blank(t.key@) {
        Some(ConfigErrorKind::EmptyTlsPaths)
    } else {
        None
    }
}

/// The first fault of one listener, given whether its bind address parses.
pub open spec fn listener_fault(l: Listener, bind_parses: bool) -> Option<ConfigErrorKind> {
    if blank(l.name@) {
        Some(ConfigErrorKind::EmptyListenerName)
    } else if !bind_parses {
        Some(ConfigErrorKind::InvalidBindAddress)
    } else {
        match l.tls {
            None => Some(ConfigErrorKind::MissingTls),
            Some(t) => tls_fault(t),
        }
    }
}

/// The fault of an upstream declaration, if any.
pub open spec fn upstream_fault(u: Upstream) -> Option<ConfigErrorKind> {
    match u {
        Upstream::Single { target } => if parsed_uri(target@) is Some {
            None
        } else {
            Some(ConfigErrorKind::InvalidUpstreamTarget)
        },
        _ => Some(ConfigErrorKind::UnsupportedStrategy),
    }
}

/// The name an upstream error carries: the target, or the strategy.
pub open spec fn upstream_subject(u: Upstream) -> Seq<char> {
    match u {
        Upstream::Single { target } => target@,
        Upstream::RoundRobin { .. } => "round_robin"@,
        Upstream::LeastLatency { .. } => "least_latency"@,
        Upstream::Hash { .. } => "hash"@,
    }
}

/// The first fault of one route.
pub open spec fn route_fault(r: Route) -> Option<ConfigErrorKind> {
    if blank(r.name@) {
        Some(ConfigErrorKind::EmptyRouteName)
    } else if (r.matchers.hosts matches Some(h) ==> h.len() == 0) {
        Some(ConfigErrorKind::NoHostMatchers)
    } else {
        upstream_fault(r.upstream)
    }
}

/// The name a route error carries.
pub open spec fn route_subject(r: Route) -> Seq<char> {
    if route_fault(r) == Some(ConfigErrorKind::EmptyRouteName) || route_fault(r) == Some(
        ConfigErrorKind::NoHostMatchers,
    ) {
        r.name@
    } else {
        upstream_subject(r.upstream)
    }
}

/// Whether the bind address of listener `i` parses; absent entries do not.
pub open spec fn bind_at(binds: Seq<bool>, i: int) -> bool {
    0 <= i < binds.len() && binds[i]
}

/// The problem with the listener at `i`: its own fault, or a name already used
/// by an earlier listener.
pub open spec fn listener_problem(ls: Seq<Listener>, binds: Seq<bool>, i: int) -> Option<
    ConfigErrorKind,
> {
    match listener_fault(ls[i], bind_at(binds, i)) {
        Some(k) => Some(k),
        None => if exists|j: int| 0 <= j < i && #[trigger] ls[j].name@ == ls[i].name@ {
            Some(ConfigErrorKind::DuplicateListener)
        } else {
            None
        },
    }
}

/// The problem with the route at `i`: its own fault, or a name already used.
pub open spec fn route_problem(rs: Seq<Route>, i: int) -> Option<ConfigErrorKind> {
    match route_fault(rs[i]) {
        Some(k) => Some(k),
        None => if exists|j: int| 0 <= j < i && #[trigger] rs[j].name@ == rs[i].name@ {
            Some(ConfigErrorKind::DuplicateRoute)
        } else {
            None
        },
    }
}

pub open spec fn route_problem_subject(rs: Seq<Route>, i: int) -> Seq<char> {
    if route_fault(rs[i]) is Some {
        route_subject(rs[i])
    } else {
        rs[i].name@
    }
}

/// A configuration that passes every check.
pub open spec fn config_ok(c: Config, binds: Seq<bool>) -> bool {
    &&& c.listeners@.len() > 0
    &&& c.routes@.len() > 0
    &&& forall|i: int| 0 <= i < c.listeners@.len() ==> listener_problem(c.listeners@, binds, i) is None
    &&& forall|i: int| 0 <= i < c.routes@.len() ==> route_problem(c.routes@, i) is None
}

/// The timeout, in seconds, that one filter declares.
pub open spec fn filter_timeout(f: Filter) -> Option<u64> {
    match f {
        Filter::Builtin { name, config } => if name@ == "timeout"@ {
            config.request_secs
        } else {
            None
        },
        _ => None,
    }
}

/// The timeout of the first filter that declares one.
pub open spec fn first_timeout(fs: Seq<Filter>) -> Option<u64>
    decreases fs.len(),
{
    if fs.len() == 0 {
        None
    } else {
        match filter_timeout(fs[0]) {
            Some(t) => Some(t),
            None => first_timeout(fs.drop_first()),
        }
    }
}

/// The protocols advertised when a listener names none.
pub open spec fn default_alpn() -> Seq<Seq<char>> {
    seq!["h2"@, "http/1.1"@]
}

pub open spec fn string_views(v: Seq<String>) -> Seq<Seq<char>> {
    v.map_values(|s: String| s@)
}

fn blank_str(s: &str) -> (r: bool)
    ensures
        r == blank(s@),
{
    trim_str(s).unicode_len() == 0
}

fn copy_strings(v: &Vec<String>) -> (r: Vec<String>)
    ensures
        r@ == v@,
{
    let mut out: Vec<String> = Vec::new();
    let mut i: usize = 0;
    while i < v.len()
        invariant
            0 <= i <= v.len(),
            out@ == v@.subrange(0, i as int),
        decreases v.len() - i,
    {
        out.push(v[i].clone());
        i = i + 1;
    }
    assert(out@ =~= v@);
    out
}

fn error(kind: ConfigErrorKind, subject: &str) -> (r: ConfigError)
    ensures
        r.kind == kind,
        r.subject@ == subject@,
{
    ConfigError { kind, subject: String::from_str(subject) }
}

impl Tls {
    /// Both paths must hold more than whitespace.
    pub fn validate(&self) -> (r: Result<(), ConfigError>)
        ensures
            r is Ok == (tls_fault(*self) is None),
            r matches Err(e) ==> Some(e.kind) == tls_fault(*self) && e.subject@.len() == 0,
    {
        if blank_str(self.cert.as_str()) || blank_str(self.key.as_str()) {
            proof {
                reveal_strlit("");
            }
            return Err(error(ConfigErrorKind::EmptyTlsPaths, ""));
        }
        Ok(())
    }
}

impl Listener {
    /// The address to bind, with the `:PORT` shorthand expanded to all interfaces.
    pub fn bind_address(&self) -> (r: String)
        ensures
            r@ == resolved_bind(self.bind@),
    {
        if self.bind.unicode_len() > 0 && self.bind.get_char(0) == ':' {
            let mut a = String::from_str("0.0.0.0");
            a.append(self.bind.as_str());
            a
        } else {
            self.bind.clone()
        }
    }

    /// Checks the name, the bind address (whether `bind_address()` parses as a
    /// socket address is `bind_parses`) and the TLS material, in that order.
    pub fn validate(&self, bind_parses: bool) -> (r: Result<(), ConfigError>)
        ensures
            r is Ok == (listener_fault(*self, bind_parses) is None),
            r matches Err(e) ==> Some(e.kind) == listener_fault(*self, bind_parses) && (e.kind
                == ConfigErrorKind::EmptyTlsPaths || e.subject@ == self.name@),
    {
        if blank_str(self.name.as_str()) {
            return Err(error(ConfigErrorKind::EmptyListenerName, self.name.as_str()));
        }
        if !bind_parses {
            return Err(error(ConfigErrorKind::InvalidBindAddress, self.name.as_str()));
        }
        match &self.tls {
            Some(tls) => tls.validate(),
            None => Err(error(ConfigErrorKind::MissingTls, self.name.as_str())),
        }
    }
}

impl ResolvedListener {
    /// Resolves the bind address, requires TLS material, and fills in the
    /// default protocol list.
    pub fn from_listener(l: &Listener) -> (r: Result<ResolvedListener, ConfigError>)
        ensures
            r is Ok == (l.tls is Some),
            r matches Err(e) ==> e.kind == ConfigErrorKind::MissingTls && e.subject@ == l.name@,
            r matches Ok(x) ==> x.name@ == l.name@ && x.addr@ == resolved_bind(l.bind@)
                && Some(x.tls) == l.tls && string_views(x.alpn@) == match l.alpn {
                Some(a) => string_views(a@),
                None => default_alpn(),
            },
    {
        let addr = l.bind_address();
        let tls = match &l.tls {
            Some(t) => Tls { cert: t.cert.clone(), key: t.key.clone() },
            None => {
                return Err(error(ConfigErrorKind::MissingTls, l.name.as_str()));
            },
        };
        let alpn = match &l.alpn {
            Some(a) => copy_strings(a),
            None => {
                let mut v: Vec<String> = Vec::new();
                v.push(String::from_str("h2"));
                v.push(String::from_str("http/1.1"));
                v
            },
        };
        proof {
            assert(string_views(alpn@) =~= match l.alpn {
                Some(a) => string_views(a@),
                None => default_alpn(),
            });
        }
        Ok(ResolvedListener { name: l.name.clone(), addr, tls, alpn })
    }
}

impl Upstream {
    /// Only a single, well-formed target is supported.
    pub fn validate(&self) -> (r: Result<(), ConfigError>)
        ensures
            r is Ok == (upstream_fault(*self) is None),
            r matches Err(e) ==> Some(e.kind) == upstream_fault(*self) && e.subject@
                == upstream_subject(*self),
    {
        match self {
            Upstream::Single { target } => {
                if parse_uri(target.as_str()).is_some() {
                    Ok(())
                } else {
                    Err(error(ConfigErrorKind::InvalidUpstreamTarget, target.as_str()))
                }
            },
            _ => Err(self.strategy_error()),
        }
    }

    /// The error for a strategy other than a single target.
    pub(crate) fn strategy_error(&self) -> (e: ConfigError)
        requires
            !(self is Single),
        ensures
            Some(e.kind) == upstream_fault(*self),
            e.subject@ == upstream_subject(*self),
    {
        match self {
            Upstream::Single { target } => error(ConfigErrorKind::InvalidUpstreamTarget, target.as_str()),
            Upstream::RoundRobin { .. } => error(ConfigErrorKind::UnsupportedStrategy, "round_robin"),
            Upstream::LeastLatency { .. } => error(ConfigErrorKind::UnsupportedStrategy, "least_latency"),
            Upstream::Hash { .. } => error(ConfigErrorKind::UnsupportedStrategy, "hash"),
        }
    }

    /// The target of a single-target upstream.
    pub fn single_target(&self) -> (r: Option<&str>)
        ensures
            r is Some == (self is Single),
            r matches Some(t) ==> self matches Upstream::Single { target } && t@ == target@,
    {
        match self {
            Upstream::Single { target } => Some(target.as_str()),
            _ => None,
        }
    }
}

impl Route {
    /// Checks the name, that at least one host matcher is declared, and the upstream.
    pub fn validate(&self) -> (r: Result<(), ConfigError>)
        ensures
            r is Ok == (route_fault(*self) is None),
            r matches Err(e) ==> Some(e.kind) == route_fault(*self) && e.subject@ == route_subject(
                *self,
            ),
    {
        if blank_str(self.name.as_str()) {
            return Err(error(ConfigErrorKind::EmptyRouteName, self.name.as_str()));
        }
        let no_hosts = match &self.matchers.hosts {
            Some(h) => h.len() == 0,
            None => true,
        };
        if no_hosts {
            return Err(error(ConfigErrorKind::NoHostMatchers, self.name.as_str()));
        }
        self.upstream.validate()
    }

    /// The forwarding timeout in seconds: that of the first builtin `timeout`
    /// filter whose payload holds an unsigned `request_secs`; none if no filter does.
    pub fn request_timeout(&self) -> (r: Option<u64>)
        ensures
            r == first_timeout(self.filters@),
    {
        let n = self.filters.len();
        let mut i: usize = 0;
        assert(self.filters@.subrange(0, n as int) =~= self.filters@);
        while i < n
            invariant
                n == self.filters@.len(),
                0 <= i <= n,
                first_timeout(self.filters@) == first_timeout(self.filters@.subrange(i as int, n as int)),
            decreases n - i,
        {
            let ghost rest = self.filters@.subrange(i as int, n as int);
            assert(rest.drop_first() =~= self.filters@.subrange(i + 1, n as int));
            match &self.filters[i] {
                Filter::Builtin { name, config } => {
                    if str_eq(name.as_str(), "timeout") {
                        if let Some(secs) = config.request_secs {
                            return Some(secs);
                        }
                    }
                },
                _ => {},
            }
            i = i + 1;
        }
        None
    }
}

impl Config {
    /// Checks that there are listeners and routes, that each is valid, and that
    /// names are unique, reporting the first problem in declaration order.
    /// `binds_parse[i]` tells whether listener `i`'s bind address parses; a
    /// missing entry counts as one that does not.
    pub fn validate(&self, binds_parse: &Vec<bool>) -> (r: Result<(), ConfigError>)
        ensures
            r is Ok == config_ok(*self, binds_parse@),
            r matches Err(e) ==> {
                ||| self.listeners@.len() == 0 && e.kind == ConfigErrorKind::NoListeners
                ||| exists|i: int|
                    0 <= i < self.listeners@.len() && (forall|j: int|
                        0 <= j < i ==> listener_problem(self.listeners@, binds_parse@, j) is None)
                        && listener_problem(self.listeners@, binds_parse@, i) == Some(e.kind)
                ||| (self.listeners@.len() > 0 && forall|i: int|
                    0 <= i < self.listeners@.len() ==> listener_problem(
                        self.listeners@,
                        binds_parse@,
                        i,
                    ) is None) && {
                    ||| self.routes@.len() == 0 && e.kind == ConfigErrorKind::NoRoutes
                    ||| exists|i: int|
                        0 <= i < self.routes@.len() && (forall|j: int|
                            0 <= j < i ==> route_problem(self.routes@, j) is None) && route_problem(
                            self.routes@,
                            i,
                        ) == Some(e.kind) && e.subject@ == route_problem_subject(self.routes@, i)
                }
            },
    {
        let n = self.listeners.len();
        if n == 0 {
            return Err(error(ConfigErrorKind::NoListeners, ""));
        }
        let mut i: usize = 0;
        while i < n
            invariant
                n == self.listeners@.len(),
                0 <= i <= n,
                forall|j: int| 0 <= j < i ==> listener_problem(self.listeners@, binds_parse@, j) is None,
            decreases n - i,
        {
            let l = &self.listeners[i];
            let parses = i < binds_parse.len() && binds_parse[i];
            match l.validate(parses) {
                Err(e) => {
                    assert(listener_problem(self.listeners@, binds_parse@, i as int) == Some(e.kind));
                    return Err(e);
                },
                Ok(()) => {},
            }
            let mut j: usize = 0;
            while j < i
                invariant
                    n == self.listeners@.len(),
                    0 <= j <= i < n,
                    *l == self.listeners@[i as int],
                    listener_fault(self.listeners@[i as int], bind_at(binds_parse@, i as int)) is None,
                    forall|k: int| 0 <= k < i ==> listener_problem(self.listeners@, binds_parse@, k) is None,
                    forall|k: int| 0 <= k < j ==> self.listeners@[k].name@ != l.name@,
                decreases i - j,
            {
                if self.listeners[j].name == l.name {
                    assert(self.listeners@[j as int].name@ == self.listeners@[i as int].name@);
                    assert(listener_problem(self.listeners@, binds_parse@, i as int) == Some(
                        ConfigErrorKind::DuplicateListener,
                    ));
                    return Err(error(ConfigErrorKind::DuplicateListener, l.name.as_str()));
                }
                j = j + 1;
            }
            assert(listener_problem(self.listeners@, binds_parse@, i as int) is None);
            i = i + 1;
        }
        let m = self.routes.len();
        if m == 0 {
            return Err(error(ConfigErrorKind::NoRoutes, ""));
        }
        let mut i: usize = 0;
        while i < m
            invariant
                n == self.listeners@.len(),
                n > 0,
                forall|j: int| 0 <= j < n ==> listener_problem(self.listeners@, binds_parse@, j) is None,
                m == self.routes@.len(),
                0 <= i <= m,
                forall|j: int| 0 <= j < i ==> route_problem(self.routes@, j) is None,
            decreases m - i,
        {
            let r = &self.routes[i];
            match r.validate() {
                Err(e) => {
                    assert(route_problem(self.routes@, i as int) == Some(e.kind));
                    return Err(e);
                },
                Ok(()) => {},
            }
            let mut j: usize = 0;
            while j < i
                invariant
                    m == self.routes@.len(),
                    0 <= j <= i < m,
                    *r == self.routes@[i as int],
                    route_fault(self.routes@[i as int]) is None,
                    forall|k: int| 0 <= k < i ==> route_problem(self.routes@, k) is None,
                    n == self.listeners@.len(),
                    n > 0,
                    forall|k: int| 0 <= k < n ==> listener_problem(self.listeners@, binds_parse@, k) is None,
                    forall|k: int| 0 <= k < j ==> self.routes@[k].name@ != r.name@,
                decreases i - j,
            {
                if self.routes[j].name == r.name {
                    assert(self.routes@[j as int].name@ == self.routes@[i as int].name@);
                    assert(route_problem(self.routes@, i as int) == Some(ConfigErrorKind::DuplicateRoute));
                    return Err(error(ConfigErrorKind::DuplicateRoute, r.name.as_str()));
                }
                j = j + 1;
            }
            assert(route_problem(self.routes@, i as int) is None);
            i = i + 1;
        }
        Ok(())
    }

    /// Every listener, resolved; the first one without TLS material fails.
    pub fn resolved_listeners(&self) -> (r: Result<Vec<ResolvedListener>, ConfigError>)
        ensures
            r is Ok == (forall|i: int| 0 <= i < self.listeners@.len() ==> self.listeners@[i].tls is Some),
            r matches Err(e) ==> e.kind == ConfigErrorKind::MissingTls && exists|i: int|
                0 <= i < self.listeners@.len() && self.listeners@[i].tls is None
                    && e.subject@ == self.listeners@[i].name@,
            r matches Ok(v) ==> v@.len() == self.listeners@.len() && forall|i: int|
                0 <= i < v@.len() ==> v@[i].name@ == self.listeners@[i].name@
                    && v@[i].addr@ == resolved_bind(self.listeners@[i].bind@)
                    && Some(v@[i].tls) == self.listeners@[i].tls,
    {
        let mut out: Vec<ResolvedListener> = Vec::new();
        let mut i: usize = 0;
        while i < self.listeners.len()
            invariant
                0 <= i <= self.listeners@.len(),
                out@.len() == i,
                forall|k: int| 0 <= k < i ==> self.listeners@[k].tls is Some,
                forall|k: int|
                    0 <= k < i ==> out@[k].name@ == self.listeners@[k].name@
                        && out@[k].addr@ == resolved_bind(self.listeners@[k].bind@)
                        && Some(out@[k].tls) == self.listeners@[k].tls,
            decreases self.listeners@.len() - i,
        {
            match ResolvedListener::from_listener(&self.listeners[i]) {
                Ok(x) => out.push(x),
                Err(e) => {
                    return Err(e);
                },
            }
            i = i + 1;
        }
        Ok(out)
    }
}

/// Filters without a builtin `timeout` among them give no timeout: the
/// forward waits without bound.
pub proof fn lemma_no_timeout_filter(fs: Seq<Filter>)
    requires
        forall|i: int|
            0 <= i < fs.len() ==> !(#[trigger] fs[i] matches Filter::Builtin { name, .. } && name@
                == "timeout"@),
    ensures
        first_timeout(fs) is None,
    decreases fs.len(),
{
    if fs.len() > 0 {
        assert forall|i: int| 0 <= i < fs.drop_first().len() implies !(#[trigger] fs.drop_first()[i] matches Filter::Builtin { name, .. } && name@ == "timeout"@) by {
            assert(fs.drop_first()[i] == fs[i + 1]);
        }
        lemma_no_timeout_filter(fs.drop_first());
    }
}

/// The first builtin `timeout` filter whose payload holds `request_secs`
/// gives the timeout, whatever follows it.
pub proof fn lemma_first_timeout_filter(fs: Seq<Filter>, i: int, secs: u64)
    requires
        0 <= i < fs.len(),
        filter_timeout(fs[i]) == Some(secs),
        forall|j: int| 0 <= j < i ==> filter_timeout(#[trigger] fs[j]) is None,
    ensures
        first_timeout(fs) == Some(secs),
    decreases i,
{
    if i > 0 {
        assert forall|j: int| 0 <= j < i - 1 implies filter_timeout(#[trigger] fs.drop_first()[j]) is None by {
            assert(fs.drop_first()[j] == fs[j + 1]);
        }
        assert(fs.drop_first()[i - 1] == fs[i]);
        lemma_first_timeout_filter(fs.drop_first(), i - 1, secs);
    }
}

} // verus!
