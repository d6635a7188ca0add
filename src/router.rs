//! Route compilation and first-match route selection.
use vstd::prelude::*;
use crate::config::{
    ConfigError, ConfigErrorKind, HeaderMatch, Matchers, Route, Upstream, first_timeout,
};
use crate::config::string_views;
use crate::parse::{UriParts, method_is_valid, opt_view, parse_header_name, parse_uri, parsed_uri};
use crate::request::{IpAddress, RequestHead, header_equals, header_is};
use crate::text::{
    eq_ignore_ascii_case, eq_ignore_case, ends_with_ignore_case, has_prefix, has_suffix, is_token,
    lower, starts_with, str_eq,
};

verus! {

/// One compiled host pattern.
#[derive(Clone, Debug)]
pub enum HostMatcher {
    /// `*`: every host.
    Any,
    /// A host name, compared without ASCII case.
    Exact(String),
    /// `*.suffix`: hosts ending with the suffix, compared without ASCII case.
    Wildcard(String),
    /// An IP address: hosts that parse to the same address.
    Ip(IpAddress),
}

/// Whether a host pattern admits a host. `pattern_ip` and `host_ip` are what
/// the pattern and the host parse to as IP addresses.
pub open spec fn pattern_admits(
    pattern: Seq<char>,
    pattern_ip: Option<IpAddress>,
    host: Seq<char>,
    host_ip: Option<IpAddress>,
) -> bool {
    if pattern == seq!['*'] {
        true
    } else if pattern_ip is Some {
        host_ip == pattern_ip
    } else if has_prefix(pattern, seq!['*', '.']) {
        has_suffix(lower(host), lower(pattern.subrange(2, pattern.len() as int)))
    } else {
        eq_ignore_case(host, pattern)
    }
}

impl HostMatcher {
    pub open spec fn admits(&self, host: Seq<char>, host_ip: Option<IpAddress>) -> bool {
        match self {
            HostMatcher::Any => true,
            HostMatcher::Exact(v) => eq_ignore_case(host, v@),
            HostMatcher::Wildcard(x) => has_suffix(lower(host), lower(x@)),
            HostMatcher::Ip(a) => host_ip == Some(*a),
        }
    }

    /// The matcher compiled from `pattern`, which parses to `pattern_ip`.
    pub open spec fn compiled_from(&self, pattern: Seq<char>, pattern_ip: Option<IpAddress>) -> bool {
        match self {
            HostMatcher::Any => pattern == seq!['*'],
            HostMatcher::Ip(a) => pattern != seq!['*'] && pattern_ip == Some(*a),
            HostMatcher::Wildcard(x) => pattern != seq!['*'] && pattern_ip is None && has_prefix(
                pattern,
                seq!['*', '.'],
            ) && x@ == pattern.subrange(2, pattern.len() as int),
            HostMatcher::Exact(v) => pattern != seq!['*'] && pattern_ip is None && !has_prefix(
                pattern,
                seq!['*', '.'],
            ) && v@ == pattern,
        }
    }

    /// Classifies a pattern: `*`, then an IP address, then `*.suffix`, else an
    /// exact host name. `pattern_ip` is what `pattern` parses to as an IP address.
    pub fn new(pattern: &str, pattern_ip: Option<IpAddress>) -> (r: HostMatcher)
        ensures
            r.compiled_from(pattern@, pattern_ip),
            forall|host: Seq<char>, host_ip: Option<IpAddress>|
                #[trigger] r.admits(host, host_ip) == pattern_admits(pattern@, pattern_ip, host, host_ip),
    {
        proof {
            reveal_strlit("*");
            reveal_strlit("*.");
            assert("*"@ =~= seq!['*']);
            assert("*."@ =~= seq!['*', '.']);
        }
        if str_eq(pattern, "*") {
            return HostMatcher::Any;
        }
        if let Some(ip) = pattern_ip {
            return HostMatcher::Ip(ip);
        }
        if starts_with(pattern, "*.") {
            let n = pattern.unicode_len();
            let rest = pattern.substring_char(2, n);
            return HostMatcher::Wildcard(String::from_str(rest));
        }
        HostMatcher::Exact(String::from_str(pattern))
    }

    pub fn matches(&self, host: &str, host_ip: Option<IpAddress>) -> (r: bool)
        ensures
            r == self.admits(host@, host_ip),
    {
        match self {
            HostMatcher::Any => true,
            HostMatcher::Exact(v) => eq_ignore_ascii_case(host, v.as_str()),
            HostMatcher::Wildcard(x) => ends_with_ignore_case(host, x.as_str()),
            HostMatcher::Ip(a) => match host_ip {
                Some(h) => h == *a,
                None => false,
            },
        }
    }
}

/// A header predicate: the first header of that name holds exactly that text.
#[derive(Clone, Debug)]
pub struct HeaderPredicate {
    /// The header name, ASCII-lowercased.
    pub name: String,
    pub value: String,
}

/// A header name that compiles into a predicate.
pub open spec fn valid_header_name(n: Seq<char>) -> bool {
    is_token(n) && n.len() <= 65535
}

/// The declared header predicates that compile; the others are dropped.
pub open spec fn kept_headers(hs: Seq<HeaderMatch>) -> Seq<HeaderMatch> {
    hs.filter(|h: HeaderMatch| valid_header_name(h.name@))
}

impl HeaderPredicate {
    pub open spec fn compiled_from(&self, h: HeaderMatch) -> bool {
        self.name@ == lower(h.name@) && self.value@ == h.value@
    }

    /// Compiles a declared header match; `None` where its name is not a valid header name.
    pub fn from_match(h: &HeaderMatch) -> (r: Option<HeaderPredicate>)
        ensures
            r is Some == valid_header_name(h.name@),
            r matches Some(p) ==> p.compiled_from(*h),
    {
        match parse_header_name(h.name.as_str()) {
            Some(name) => Some(HeaderPredicate { name, value: copy_str(&h.value) }),
            None => None,
        }
    }

    pub fn matches(&self, headers: &Vec<crate::request::Header>) -> (r: bool)
        ensures
            r == header_is(headers@, self.name@, self.value@),
    {
        header_equals(headers, self.name.as_str(), self.value.as_str())
    }
}

/// The compiled matchers of one route.
#[derive(Clone, Debug)]
pub struct RouteMatchers {
    pub hosts: Vec<HostMatcher>,
    pub path_prefix: Option<String>,
    pub methods: Option<Vec<String>>,
    pub headers: Vec<HeaderPredicate>,
}

impl RouteMatchers {
    /// Host, then path prefix, then method, then every header predicate.
    pub open spec fn admits(&self, host: Seq<char>, host_ip: Option<IpAddress>, req: RequestHead) -> bool {
        &&& (self.hosts@.len() == 0 || exists|i: int|
            0 <= i < self.hosts@.len() && #[trigger] self.hosts@[i].admits(host, host_ip))
        &&& match self.path_prefix {
            Some(p) => has_prefix(req.path@, p@),
            None => true,
        }
        &&& match self.methods {
            Some(ms) => string_views(ms@).contains(req.method@),
            None => true,
        }
        &&& forall|i: int|
            0 <= i < self.headers@.len() ==> header_is(
                req.headers@,
                #[trigger] self.headers@[i].name@,
                self.headers@[i].value@,
            )
    }

    /// What compiling `m`, whose host patterns parse to `host_ips`, yields.
    pub open spec fn compiled_from(&self, m: Matchers, host_ips: Seq<Option<IpAddress>>) -> bool {
        let hosts = declared_hosts(m);
        let kept = declared_headers(m);
        &&& self.hosts@.len() == hosts.len()
        &&& forall|i: int|
            0 <= i < hosts.len() ==> #[trigger] self.hosts@[i].compiled_from(hosts[i]@, ip_at(host_ips, i))
        &&& opt_view(self.path_prefix) == opt_view(m.path_prefix)
        &&& match (self.methods, m.methods) {
            (Some(a), Some(b)) => string_views(a@) == string_views(b@),
            (None, None) => true,
            _ => false,
        }
        &&& self.headers@.len() == kept.len()
        &&& forall|i: int| 0 <= i < kept.len() ==> #[trigger] self.headers@[i].compiled_from(kept[i])
    }
}

/// The declared host patterns; none when absent.
pub open spec fn declared_hosts(m: Matchers) -> Seq<String> {
    match m.hosts {
        Some(h) => h@,
        None => Seq::empty(),
    }
}

/// The declared header matches that compile.
pub open spec fn declared_headers(m: Matchers) -> Seq<HeaderMatch> {
    match m.headers {
        Some(h) => kept_headers(h@),
        None => Seq::empty(),
    }
}

/// What host pattern `i` parses to as an IP address; absent entries are none.
pub open spec fn ip_at(ips: Seq<Option<IpAddress>>, i: int) -> Option<IpAddress> {
    if 0 <= i < ips.len() {
        ips[i]
    } else {
        None
    }
}

/// The parsed host patterns of route `i`; absent entries are empty.
pub open spec fn ips_at(ips: Seq<Vec<Option<IpAddress>>>, i: int) -> Seq<Option<IpAddress>> {
    if 0 <= i < ips.len() {
        ips[i]@
    } else {
        Seq::empty()
    }
}

pub open spec fn all_tokens(ms: Seq<String>) -> bool {
    forall|i: int| 0 <= i < ms.len() ==> is_token(#[trigger] ms[i]@)
}

pub open spec fn methods_ok(m: Matchers) -> bool {
    m.methods matches Some(ms) ==> all_tokens(ms@)
}

fn copy_str(s: &String) -> (r: String)
    ensures
        r@ == s@,
{
    s.clone()
}

impl RouteMatchers {
    /// Compiles a route's matchers. Fails on the first method that is not an
    /// HTTP token; header predicates whose name is not a valid header name
    /// are dropped. `host_ips[i]` is what host pattern `i` parses to as an IP address.
    pub fn from_matchers(m: &Matchers, host_ips: &Vec<Option<IpAddress>>) -> (r: Result<RouteMatchers, ConfigError>)
        ensures
            r is Ok == methods_ok(*m),
            r matches Ok(c) ==> c.compiled_from(*m, host_ips@),
            r matches Err(e) ==> e.kind == ConfigErrorKind::InvalidMethod && (m.methods matches Some(
                ms,
            ) && exists|i: int|
                0 <= i < ms@.len() && !is_token(#[trigger] ms@[i]@) && e.subject@ == ms@[i]@ && forall|j: int|
                    0 <= j < i ==> is_token(#[trigger] ms@[j]@)),
    {
        let mut hosts: Vec<HostMatcher> = Vec::new();
        match &m.hosts {
            Some(hs) => {
                let mut i: usize = 0;
                while i < hs.len()
                    invariant
                        0 <= i <= hs@.len(),
                        hosts@.len() == i,
                        forall|k: int| 0 <= k < i ==> #[trigger] hosts@[k].compiled_from(hs@[k]@, ip_at(host_ips@, k)),
                    decreases hs@.len() - i,
                {
                    let ip = if i < host_ips.len() {
                        host_ips[i]
                    } else {
                        None
                    };
                    hosts.push(HostMatcher::new(hs[i].as_str(), ip));
                    i = i + 1;
                }
            },
            None => {},
        }
        let methods = match &m.methods {
            None => None,
            Some(ms) => match compile_methods(ms) {
                Ok(v) => Some(v),
                Err(e) => {
                    return Err(e);
                },
            },
        };
        let mut headers: Vec<HeaderPredicate> = Vec::new();
        match &m.headers {
            None => {},
            Some(hs) => {
                let mut i: usize = 0;
                while i < hs.len()
                    invariant
                        0 <= i <= hs@.len(),
                        headers@.len() == kept_headers(hs@.subrange(0, i as int)).len(),
                        forall|k: int|
                            0 <= k < headers@.len() ==> #[trigger] headers@[k].compiled_from(
                                kept_headers(hs@.subrange(0, i as int))[k],
                            ),
                    decreases hs@.len() - i,
                {
                    let ghost before = kept_headers(hs@.subrange(0, i as int));
                    proof {
                        reveal(Seq::filter);
                        assert(hs@.subrange(0, i + 1).drop_last() =~= hs@.subrange(0, i as int));
                    }
                    match HeaderPredicate::from_match(&hs[i]) {
                        Some(p) => {
                            headers.push(p);
                            assert(kept_headers(hs@.subrange(0, i + 1)) == before.push(hs@[i as int]));
                        },
                        None => {
                            assert(kept_headers(hs@.subrange(0, i + 1)) == before);
                        },
                    }
                    i = i + 1;
                }
                assert(hs@.subrange(0, hs@.len() as int) =~= hs@);
            },
        }
        let path_prefix = match &m.path_prefix {
            Some(p) => Some(copy_str(p)),
            None => None,
        };
        Ok(RouteMatchers { hosts, path_prefix, methods, headers })
    }

    fn any_host(&self, host: &str, host_ip: Option<IpAddress>) -> (r: bool)
        ensures
            r == exists|i: int| 0 <= i < self.hosts@.len() && #[trigger] self.hosts@[i].admits(host@, host_ip),
    {
        let mut i: usize = 0;
        while i < self.hosts.len()
            invariant
                0 <= i <= self.hosts@.len(),
                forall|k: int| 0 <= k < i ==> !(#[trigger] self.hosts@[k].admits(host@, host_ip)),
            decreases self.hosts@.len() - i,
        {
            if self.hosts[i].matches(host, host_ip) {
                return true;
            }
            i = i + 1;
        }
        false
    }

    pub fn matches(&self, host: &str, host_ip: Option<IpAddress>, req: &RequestHead) -> (r: bool)
        ensures
            r == self.admits(host@, host_ip, *req),
    {
        if self.hosts.len() > 0 && !self.any_host(host, host_ip) {
            return false;
        }
        if let Some(p) = &self.path_prefix {
            if !starts_with(req.path.as_str(), p.as_str()) {
                return false;
            }
        }
        if let Some(ms) = &self.methods {
            if !contains_str(ms, req.method.as_str()) {
                return false;
            }
        }
        let mut i: usize = 0;
        while i < self.headers.len()
            invariant
                0 <= i <= self.headers@.len(),
                forall|k: int|
                    0 <= k < i ==> header_is(
                        req.headers@,
                        #[trigger] self.headers@[k].name@,
                        self.headers@[k].value@,
                    ),
            decreases self.headers@.len() - i,
        {
            if !self.headers[i].matches(&req.headers) {
                return false;
            }
            i = i + 1;
        }
        true
    }
}

/// Whether one of the strings equals `s`.
fn contains_str(v: &Vec<String>, s: &str) -> (r: bool)
    ensures
        r == string_views(v@).contains(s@),
{
    let mut i: usize = 0;
    while i < v.len()
        invariant
            0 <= i <= v@.len(),
            forall|k: int| 0 <= k < i ==> v@[k]@ != s@,
        decreases v@.len() - i,
    {
        if str_eq(v[i].as_str(), s) {
            assert(string_views(v@)[i as int] == s@);
            return true;
        }
        i = i + 1;
    }
    assert(!string_views(v@).contains(s@)) by {
        if string_views(v@).contains(s@) {
            let k = choose|k: int| 0 <= k < v@.len() && string_views(v@)[k] == s@;
            assert(v@[k]@ == s@);
        }
    }
    false
}

/// A compiled forwarding target.
#[derive(Clone, Debug)]
pub struct UpstreamEndpoint {
    pub uri: UriParts,
}

/// A compiled route.
#[derive(Clone, Debug)]
pub struct RouteHandle {
    pub name: String,
    pub matchers: RouteMatchers,
    pub upstream: UpstreamEndpoint,
    /// The forwarding timeout in seconds; none means an unbounded wait.
    pub timeout: Option<u64>,
}

/// The immutable, ordered table of compiled routes.
#[derive(Clone, Debug)]
pub struct Router {
    pub routes: Vec<RouteHandle>,
}

/// Why a route descriptor does not compile: a bad method, else its upstream.
pub open spec fn compile_fault(r: Route) -> Option<ConfigErrorKind> {
    if !methods_ok(r.matchers) {
        Some(ConfigErrorKind::InvalidMethod)
    } else {
        crate::config::upstream_fault(r.upstream)
    }
}

impl UpstreamEndpoint {
    pub open spec fn compiled_from(&self, u: Upstream) -> bool {
        u matches Upstream::Single { target } && parsed_uri(target@) == Some(self.uri.view())
    }

    /// Compiles a single-target upstream; other strategies and malformed
    /// targets fail.
    pub fn from_upstream(u: &Upstream) -> (r: Result<UpstreamEndpoint, ConfigError>)
        ensures
            r is Ok == (crate::config::upstream_fault(*u) is None),
            r matches Ok(e) ==> e.compiled_from(*u),
            r matches Err(e) ==> Some(e.kind) == crate::config::upstream_fault(*u)
                && e.subject@ == crate::config::upstream_subject(*u),
    {
        match u {
            Upstream::Single { target } => match parse_uri(target.as_str()) {
                Some(uri) => Ok(UpstreamEndpoint { uri }),
                None => Err(ConfigError {
                    kind: ConfigErrorKind::InvalidUpstreamTarget,
                    subject: copy_str(target),
                }),
            },
            _ => Err(u.strategy_error()),
        }
    }
}

impl RouteHandle {
    pub open spec fn compiled_from(&self, r: Route, host_ips: Seq<Option<IpAddress>>) -> bool {
        &&& self.name@ == r.name@
        &&& self.matchers.compiled_from(r.matchers, host_ips)
        &&& self.upstream.compiled_from(r.upstream)
        &&& self.timeout == first_timeout(r.filters@)
    }

    /// Compiles one route: its matchers, then its upstream, then its timeout.
    pub fn from_route(r: &Route, host_ips: &Vec<Option<IpAddress>>) -> (res: Result<RouteHandle, ConfigError>)
        ensures
            res is Ok == (compile_fault(*r) is None),
            res matches Ok(h) ==> h.compiled_from(*r, host_ips@),
            res matches Err(e) ==> Some(e.kind) == compile_fault(*r),
    {
        let matchers = match RouteMatchers::from_matchers(&r.matchers, host_ips) {
            Ok(m) => m,
            Err(e) => {
                return Err(e);
            },
        };
        let upstream = match UpstreamEndpoint::from_upstream(&r.upstream) {
            Ok(u) => u,
            Err(e) => {
                return Err(e);
            },
        };
        Ok(RouteHandle { name: copy_str(&r.name), matchers, upstream, timeout: r.request_timeout() })
    }

    pub fn timeout(&self) -> (r: Option<u64>)
        ensures
            r == self.timeout,
    {
        self.timeout
    }
}

impl Router {
    /// Compiles every route, in order; the first route that does not compile
    /// fails the whole table. `host_ips[i][k]` is what host pattern `k` of
    /// route `i` parses to as an IP address; missing entries are none.
    pub fn build(routes: &[Route], host_ips: &Vec<Vec<Option<IpAddress>>>) -> (r: Result<Router, ConfigError>)
        ensures
            r is Ok == forall|i: int| 0 <= i < routes@.len() ==> compile_fault(#[trigger] routes@[i]) is None,
            r matches Ok(t) ==> t.routes@.len() == routes@.len() && forall|i: int|
                0 <= i < routes@.len() ==> #[trigger] t.routes@[i].compiled_from(routes@[i], ips_at(host_ips@, i)),
            r matches Err(e) ==> exists|i: int|
                0 <= i < routes@.len() && (forall|j: int| 0 <= j < i ==> compile_fault(#[trigger] routes@[j]) is None)
                    && compile_fault(#[trigger] routes@[i]) == Some(e.kind),
    {
        let mut handles: Vec<RouteHandle> = Vec::new();
        let mut i: usize = 0;
        while i < routes.len()
            invariant
                0 <= i <= routes@.len(),
                handles@.len() == i,
                forall|k: int| 0 <= k < i ==> compile_fault(#[trigger] routes@[k]) is None,
                forall|k: int| 0 <= k < i ==> #[trigger] handles@[k].compiled_from(routes@[k], ips_at(host_ips@, k)),
            decreases routes@.len() - i,
        {
            let none: Vec<Option<IpAddress>> = Vec::new();
            let ips = if i < host_ips.len() {
                &host_ips[i]
            } else {
                &none
            };
            assert(ips@ == ips_at(host_ips@, i as int));
            match RouteHandle::from_route(&routes[i], ips) {
                Ok(h) => handles.push(h),
                Err(e) => {
                    assert(compile_fault(routes@[i as int]) == Some(e.kind));
                    return Err(e);
                },
            }
            i = i + 1;
        }
        Ok(Router { routes: handles })
    }

    /// The first route, in declaration order, whose matchers all admit the request.
    pub fn select(&self, req: &RequestHead, host: &str, host_ip: Option<IpAddress>) -> (r: Option<&RouteHandle>)
        ensures
            r is None == forall|i: int|
                0 <= i < self.routes@.len() ==> !(#[trigger] self.routes@[i]).matchers.admits(host@, host_ip, *req),
            r matches Some(h) ==> exists|i: int|
                0 <= i < self.routes@.len() && *h == self.routes@[i] && (#[trigger] self.routes@[i]).matchers.admits(host@, host_ip, *req)
                    && forall|j: int| 0 <= j < i ==> !(#[trigger] self.routes@[j]).matchers.admits(host@, host_ip, *req),
    {
        let mut i: usize = 0;
        while i < self.routes.len()
            invariant
                0 <= i <= self.routes@.len(),
                forall|j: int| 0 <= j < i ==> !(#[trigger] self.routes@[j]).matchers.admits(host@, host_ip, *req),
            decreases self.routes@.len() - i,
        {
            if self.routes[i].matchers.matches(host, host_ip, req) {
                return Some(&self.routes[i]);
            }
            i = i + 1;
        }
        None
    }
}

/// Checks that every method is an HTTP token, and keeps them all.
fn compile_methods(ms: &Vec<String>) -> (r: Result<Vec<String>, ConfigError>)
    ensures
        r is Ok == all_tokens(ms@),
        r matches Ok(v) ==> string_views(v@) == string_views(ms@),
        r matches Err(e) ==> e.kind == ConfigErrorKind::InvalidMethod && exists|i: int|
            0 <= i < ms@.len() && !is_token(#[trigger] ms@[i]@) && e.subject@ == ms@[i]@ && forall|j: int|
                0 <= j < i ==> is_token(#[trigger] ms@[j]@),
{
    let mut out: Vec<String> = Vec::new();
    let mut i: usize = 0;
    while i < ms.len()
        invariant
            0 <= i <= ms@.len(),
            string_views(out@) == string_views(ms@.subrange(0, i as int)),
            forall|k: int| 0 <= k < i ==> is_token(#[trigger] ms@[k]@),
        decreases ms@.len() - i,
    {
        if !method_is_valid(ms[i].as_str()) {
            let subject = copy_str(&ms[i]);
            assert(subject@ == ms@[i as int]@);
            assert(!is_token(ms@[i as int]@));
            return Err(ConfigError { kind: ConfigErrorKind::InvalidMethod, subject });
        }
        out.push(copy_str(&ms[i]));
        assert(string_views(ms@.subrange(0, i + 1)) =~= string_views(ms@.subrange(0, i as int)).push(ms@[i as int]@));
        assert(string_views(out@) =~= string_views(ms@.subrange(0, i as int)).push(ms@[i as int]@));
        i = i + 1;
    }
    assert(ms@.subrange(0, ms@.len() as int) =~= ms@);
    Ok(out)
}

/// A route declared without methods admits a request whatever its method:
/// two requests that differ only in their method are admitted alike.
pub proof fn lemma_no_methods_admits_every_method(
    c: RouteMatchers,
    m: Matchers,
    host_ips: Seq<Option<IpAddress>>,
    host: Seq<char>,
    host_ip: Option<IpAddress>,
    a: RequestHead,
    b: RequestHead,
)
    requires
        c.compiled_from(m, host_ips),
        m.methods is None,
        a.path@ == b.path@,
        a.headers@ == b.headers@,
    ensures
        c.admits(host, host_ip, a) == c.admits(host, host_ip, b),
{
}

/// Whether a route's declared matchers admit a request: some host pattern
/// admits the host (or none is declared), the path starts with the prefix,
/// the method is among the declared ones, and every declared header match
/// with a valid name holds.
pub open spec fn declared_admits(
    m: Matchers,
    host_ips: Seq<Option<IpAddress>>,
    host: Seq<char>,
    host_ip: Option<IpAddress>,
    req: RequestHead,
) -> bool {
    let hosts = declared_hosts(m);
    let kept = declared_headers(m);
    &&& (hosts.len() == 0 || exists|i: int|
        0 <= i < hosts.len() && #[trigger] pattern_admits(hosts[i]@, ip_at(host_ips, i), host, host_ip))
    &&& match m.path_prefix {
        Some(p) => has_prefix(req.path@, p@),
        None => true,
    }
    &&& match m.methods {
        Some(ms) => string_views(ms@).contains(req.method@),
        None => true,
    }
    &&& forall|i: int|
        0 <= i < kept.len() ==> header_is(req.headers@, lower(#[trigger] kept[i].name@), kept[i].value@)
}

/// Compiled matchers admit exactly the requests their declaration admits.
pub proof fn lemma_compiled_matchers_admit(
    c: RouteMatchers,
    m: Matchers,
    host_ips: Seq<Option<IpAddress>>,
    host: Seq<char>,
    host_ip: Option<IpAddress>,
    req: RequestHead,
)
    requires
        c.compiled_from(m, host_ips),
    ensures
        c.admits(host, host_ip, req) == declared_admits(m, host_ips, host, host_ip, req),
{
    let hosts = declared_hosts(m);
    let kept = declared_headers(m);
    assert forall|i: int| 0 <= i < hosts.len() implies #[trigger] c.hosts@[i].admits(host, host_ip)
        == pattern_admits(hosts[i]@, ip_at(host_ips, i), host, host_ip) by {
        assert(c.hosts@[i].compiled_from(hosts[i]@, ip_at(host_ips, i)));
    }
    if c.hosts@.len() > 0 {
        if exists|i: int| 0 <= i < c.hosts@.len() && #[trigger] c.hosts@[i].admits(host, host_ip) {
            let i = choose|i: int| 0 <= i < c.hosts@.len() && #[trigger] c.hosts@[i].admits(host, host_ip);
            assert(pattern_admits(hosts[i]@, ip_at(host_ips, i), host, host_ip));
        }
        if exists|i: int| 0 <= i < hosts.len() && #[trigger] pattern_admits(hosts[i]@, ip_at(host_ips, i), host, host_ip) {
            let i = choose|i: int| 0 <= i < hosts.len() && #[trigger] pattern_admits(hosts[i]@, ip_at(host_ips, i), host, host_ip);
            assert(c.hosts@[i].admits(host, host_ip));
        }
    }
    assert forall|i: int| 0 <= i < kept.len() implies (#[trigger] c.headers@[i].name@ == lower(kept[i].name@)
        && c.headers@[i].value@ == kept[i].value@) by {
        assert(c.headers@[i].compiled_from(kept[i]));
    }
    let ch = forall|i: int|
        0 <= i < c.headers@.len() ==> header_is(req.headers@, #[trigger] c.headers@[i].name@, c.headers@[i].value@);
    let dh = forall|i: int|
        0 <= i < kept.len() ==> header_is(req.headers@, lower(#[trigger] kept[i].name@), kept[i].value@);
    if ch {
        assert forall|i: int| 0 <= i < kept.len() implies header_is(req.headers@, lower(#[trigger] kept[i].name@), kept[i].value@) by {
            assert(header_is(req.headers@, c.headers@[i].name@, c.headers@[i].value@));
        }
    }
    if dh {
        assert forall|i: int| 0 <= i < c.headers@.len() implies header_is(req.headers@, #[trigger] c.headers@[i].name@, c.headers@[i].value@) by {
            assert(header_is(req.headers@, lower(kept[i].name@), kept[i].value@));
        }
    }
}

} // verus!
