use jester::config::{Filter, FilterConfig, HeaderMatch, Matchers, Route, Upstream};
use jester::request::{Header, IpAddress, RequestHead};
use jester::router::{HostMatcher, RouteMatchers, Router};

fn request(method: &str, path: &str, headers: Vec<(&str, &str)>) -> RequestHead {
    RequestHead {
        method: method.to_string(),
        path: path.to_string(),
        path_and_query: Some(path.to_string()),
        uri_host: None,
        headers: headers
            .into_iter()
            .map(|(n, v)| Header { name: n.to_string(), value: v.as_bytes().to_vec() })
            .collect(),
    }
}

fn test_matcher(hosts: Vec<&str>, host: &str, path: &str) -> bool {
    let matchers = Matchers {
        hosts: Some(hosts.into_iter().map(String::from).collect()),
        path_prefix: Some("/api".into()),
        methods: None,
        headers: None,
    };
    let ips = vec![None; matchers.hosts.as_ref().unwrap().len()];
    let rm = RouteMatchers::from_matchers(&matchers, &ips).unwrap();
    let _ = path;
    let req = request("GET", "/api/test", vec![]);
    rm.matches(host, None, &req)
}

fn route(name: &str, hosts: Vec<&str>, prefix: Option<&str>, methods: Option<Vec<&str>>) -> Route {
    let mut r = Route::default();
    r.name = name.to_string();
    r.matchers.hosts = Some(hosts.into_iter().map(String::from).collect());
    r.matchers.path_prefix = prefix.map(String::from);
    r.matchers.methods = methods.map(|m| m.into_iter().map(String::from).collect());
    r.upstream = Upstream::Single { target: "http://127.0.0.1:9000".to_string() };
    r
}

fn ips_for(routes: &[Route]) -> Vec<Vec<Option<IpAddress>>> {
    routes
        .iter()
        .map(|r| vec![None; r.matchers.hosts.as_ref().map_or(0, |h| h.len())])
        .collect()
}

#[test]
fn wildcard_hosts_match_suffix() {
    assert!(test_matcher(vec!["*.svc.local"], "foo.svc.local", "/api"));
    assert!(!test_matcher(vec!["*.svc.local"], "foo.svc", "/api"));
}

#[test]
fn exact_hosts_match_case_insensitive() {
    assert!(test_matcher(vec!["Example.com"], "example.com", "/api"));
}

#[test]
fn wildcard_match_ignores_case() {
    assert!(test_matcher(vec!["*.Svc.Local"], "FOO.svc.LOCAL", "/api"));
}

#[test]
fn any_host_pattern_matches_everything() {
    assert!(test_matcher(vec!["*"], "whatever.example", "/api"));
}

#[test]
fn exact_host_rejects_other_host() {
    assert!(!test_matcher(vec!["example.com"], "example.org", "/api"));
}

#[test]
fn ip_pattern_matches_same_address_only() {
    let m = HostMatcher::new("10.0.0.1", Some(IpAddress::V4(0x0a00_0001)));
    assert!(matches!(m, HostMatcher::Ip(_)));
    assert!(m.matches("10.0.0.1", Some(IpAddress::V4(0x0a00_0001))));
    assert!(!m.matches("10.0.0.2", Some(IpAddress::V4(0x0a00_0002))));
    assert!(!m.matches("10.0.0.1.example", None));
}

#[test]
fn path_prefix_is_plain_case_sensitive_prefix() {
    let matchers = Matchers {
        hosts: Some(vec!["*".into()]),
        path_prefix: Some("/Api".into()),
        methods: None,
        headers: None,
    };
    let rm = RouteMatchers::from_matchers(&matchers, &vec![None]).unwrap();
    assert!(!rm.matches("a", None, &request("GET", "/api/x", vec![])));
    assert!(rm.matches("a", None, &request("GET", "/Apix", vec![])));
}

#[test]
fn no_methods_matches_every_method() {
    let routes = vec![route("r", vec!["*"], None, None)];
    let router = Router::build(&routes, &ips_for(&routes)).unwrap();
    for m in ["GET", "POST", "DELETE", "PATCH", "BREW"] {
        assert!(router.select(&request(m, "/", vec![]), "h", None).is_some());
    }
}

#[test]
fn declared_methods_are_case_sensitive() {
    let routes = vec![route("r", vec!["*"], None, Some(vec!["GET"]))];
    let router = Router::build(&routes, &ips_for(&routes)).unwrap();
    assert!(router.select(&request("GET", "/", vec![]), "h", None).is_some());
    assert!(router.select(&request("get", "/", vec![]), "h", None).is_none());
    assert!(router.select(&request("POST", "/", vec![]), "h", None).is_none());
}

#[test]
fn earliest_matching_route_wins() {
    let routes = vec![
        route("api", vec!["*"], Some("/api"), None),
        route("all", vec!["*"], None, None),
        route("api-late", vec!["*"], Some("/api"), None),
    ];
    let router = Router::build(&routes, &ips_for(&routes)).unwrap();
    assert_eq!(router.select(&request("GET", "/api/x", vec![]), "h", None).unwrap().name, "api");
    assert_eq!(router.select(&request("GET", "/other", vec![]), "h", None).unwrap().name, "all");
}

#[test]
fn no_route_matches_gives_none() {
    let routes = vec![route("only", vec!["example.com"], None, None)];
    let router = Router::build(&routes, &ips_for(&routes)).unwrap();
    assert!(router.select(&request("GET", "/", vec![]), "other.com", None).is_none());
}

#[test]
fn invalid_method_fails_build() {
    let routes = vec![route("r", vec!["*"], None, Some(vec!["GET", "BAD METHOD"]))];
    let err = Router::build(&routes, &ips_for(&routes)).err().unwrap();
    assert_eq!(err.kind, jester::config::ConfigErrorKind::InvalidMethod);
    assert_eq!(err.subject, "BAD METHOD");
}

#[test]
fn invalid_upstream_fails_build() {
    let mut r = route("r", vec!["*"], None, None);
    r.upstream = Upstream::Single { target: "http://exa mple.com".to_string() };
    let routes = vec![r];
    let err = Router::build(&routes, &ips_for(&routes)).err().unwrap();
    assert_eq!(err.kind, jester::config::ConfigErrorKind::InvalidUpstreamTarget);
}

#[test]
fn header_predicates_must_all_hold() {
    let mut r = route("r", vec!["*"], None, None);
    r.matchers.headers = Some(vec![
        HeaderMatch { name: "X-Env".into(), value: "prod".into() },
        HeaderMatch { name: "x-team".into(), value: "core".into() },
    ]);
    let routes = vec![r];
    let router = Router::build(&routes, &ips_for(&routes)).unwrap();
    assert_eq!(router.routes[0].matchers.headers[0].name, "x-env");
    let both = request("GET", "/", vec![("x-env", "prod"), ("X-Team", "core")]);
    let one = request("GET", "/", vec![("x-env", "prod")]);
    let wrong = request("GET", "/", vec![("x-env", "Prod"), ("x-team", "core")]);
    assert!(router.select(&both, "h", None).is_some());
    assert!(router.select(&one, "h", None).is_none());
    assert!(router.select(&wrong, "h", None).is_none());
}

#[test]
fn malformed_header_predicate_is_dropped() {
    let mut r = route("r", vec!["*"], None, None);
    r.matchers.headers = Some(vec![HeaderMatch { name: "bad name".into(), value: "v".into() }]);
    let routes = vec![r];
    let router = Router::build(&routes, &ips_for(&routes)).unwrap();
    assert_eq!(router.routes[0].matchers.headers.len(), 0);
    assert!(router.select(&request("GET", "/", vec![]), "h", None).is_some());
}

#[test]
fn compiled_route_carries_timeout() {
    let mut r = route("r", vec!["*"], None, None);
    r.filters.push(Filter::Builtin {
        name: "timeout".into(),
        config: FilterConfig { request_secs: Some(7) },
    });
    let routes = vec![r];
    let router = Router::build(&routes, &ips_for(&routes)).unwrap();
    assert_eq!(router.routes[0].timeout(), Some(7));
}

#[test]
fn missing_ip_entries_mean_no_address() {
    let routes = vec![route("r", vec!["10.0.0.1"], None, None)];
    let router = Router::build(&routes, &vec![]).unwrap();
    assert!(matches!(router.routes[0].matchers.hosts[0], HostMatcher::Exact(_)));
    assert!(router.select(&request("GET", "/", vec![]), "10.0.0.1", None).is_some());
}
