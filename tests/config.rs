use jester::config::{
    Config, ConfigErrorKind, Filter, FilterConfig, Listener, ResolvedListener, Route, Tls, Upstream,
};

fn listener(name: &str, bind: &str) -> Listener {
    Listener {
        name: name.into(),
        bind: bind.into(),
        tls: Some(Tls { cert: "cert".into(), key: "key".into() }),
        alpn: None,
        http: None,
    }
}

fn valid_route(name: &str) -> Route {
    let mut route = Route::default();
    route.name = name.into();
    route.matchers.hosts = Some(vec!["example.com".into()]);
    route.upstream = Upstream::Single { target: "http://127.0.0.1:8080".into() };
    route
}

#[test]
fn listener_bind_shorthand_defaults_to_all_interfaces() {
    let listener = Listener {
        name: "test".into(),
        bind: ":8080".into(),
        tls: Some(Tls { cert: "cert".into(), key: "key".into() }),
        alpn: None,
        http: None,
    };
    assert_eq!(listener.bind_address(), "0.0.0.0:8080");
}

#[test]
fn full_bind_address_is_kept() {
    assert_eq!(listener("a", "127.0.0.1:443").bind_address(), "127.0.0.1:443");
}

#[test]
fn route_timeout_parses_builtin_filter() {
    let mut route = Route::default();
    route.name = "test".into();
    route.matchers.hosts = Some(vec!["example.com".into()]);
    route.upstream = Upstream::Single { target: "http://127.0.0.1:8080".into() };
    route.filters.push(Filter::Builtin {
        name: "timeout".into(),
        config: FilterConfig { request_secs: Some(5) },
    });
    assert_eq!(route.request_timeout(), Some(5));
}

#[test]
fn no_timeout_filter_means_no_timeout() {
    let mut route = valid_route("r");
    route.filters.push(Filter::Builtin { name: "other".into(), config: FilterConfig { request_secs: Some(5) } });
    route.filters.push(Filter::Wasm {
        name: "timeout".into(),
        module: "m".into(),
        config: FilterConfig { request_secs: Some(9) },
    });
    assert_eq!(route.request_timeout(), None);
}

#[test]
fn timeout_filter_without_seconds_is_skipped() {
    let mut route = valid_route("r");
    route.filters.push(Filter::Builtin { name: "timeout".into(), config: FilterConfig { request_secs: None } });
    route.filters.push(Filter::Builtin { name: "timeout".into(), config: FilterConfig { request_secs: Some(3) } });
    assert_eq!(route.request_timeout(), Some(3));
}

#[test]
fn resolved_listener_defaults_alpn() {
    let r = ResolvedListener::from_listener(&listener("a", ":9443")).unwrap();
    assert_eq!(r.addr, "0.0.0.0:9443");
    assert_eq!(r.alpn, vec!["h2".to_string(), "http/1.1".to_string()]);
}

#[test]
fn resolved_listener_requires_tls() {
    let mut l = listener("plain", ":80");
    l.tls = None;
    let e = ResolvedListener::from_listener(&l).err().unwrap();
    assert_eq!(e.kind, ConfigErrorKind::MissingTls);
    assert_eq!(e.subject, "plain");
}

#[test]
fn listener_validation_errors() {
    assert_eq!(listener("  ", ":1").validate(true).err().unwrap().kind, ConfigErrorKind::EmptyListenerName);
    assert_eq!(listener("a", "nope").validate(false).err().unwrap().kind, ConfigErrorKind::InvalidBindAddress);
    let mut l = listener("a", ":1");
    l.tls = None;
    assert_eq!(l.validate(true).err().unwrap().kind, ConfigErrorKind::MissingTls);
    l.tls = Some(Tls { cert: " ".into(), key: "k".into() });
    assert_eq!(l.validate(true).err().unwrap().kind, ConfigErrorKind::EmptyTlsPaths);
    assert!(listener("a", ":1").validate(true).is_ok());
}

#[test]
fn tls_requires_both_paths() {
    assert!(Tls { cert: "c".into(), key: "k".into() }.validate().is_ok());
    assert!(Tls { cert: "c".into(), key: "".into() }.validate().is_err());
}

#[test]
fn route_validation_errors() {
    let mut r = valid_route("r");
    assert!(r.validate().is_ok());
    r.matchers.hosts = Some(vec![]);
    assert_eq!(r.validate().err().unwrap().kind, ConfigErrorKind::NoHostMatchers);
    let mut r = valid_route(" ");
    assert_eq!(r.validate().err().unwrap().kind, ConfigErrorKind::EmptyRouteName);
    r.name = "x".into();
    r.upstream = Upstream::RoundRobin { targets: vec!["http://a".into()] };
    let e = r.validate().err().unwrap();
    assert_eq!(e.kind, ConfigErrorKind::UnsupportedStrategy);
    assert_eq!(e.subject, "round_robin");
}

#[test]
fn single_target_only_for_single() {
    let u = Upstream::Single { target: "http://a".into() };
    assert_eq!(u.single_target(), Some("http://a"));
    let h = Upstream::Hash { targets: vec![], key: "k".into() };
    assert_eq!(h.single_target(), None);
}

#[test]
fn config_validation_order_and_duplicates() {
    let mut cfg = Config::default();
    assert_eq!(cfg.validate(&vec![]).err().unwrap().kind, ConfigErrorKind::NoListeners);
    cfg.listeners = vec![listener("a", ":1"), listener("a", ":2")];
    assert_eq!(cfg.validate(&vec![true, true]).err().unwrap().kind, ConfigErrorKind::DuplicateListener);
    cfg.listeners = vec![listener("a", ":1"), listener("b", ":2")];
    assert_eq!(cfg.validate(&vec![true, true]).err().unwrap().kind, ConfigErrorKind::NoRoutes);
    cfg.routes = vec![valid_route("r"), valid_route("r")];
    let e = cfg.validate(&vec![true, true]).err().unwrap();
    assert_eq!(e.kind, ConfigErrorKind::DuplicateRoute);
    assert_eq!(e.subject, "r");
    cfg.routes = vec![valid_route("r"), valid_route("s")];
    assert!(cfg.validate(&vec![true, true]).is_ok());
    assert_eq!(cfg.validate(&vec![true, false]).err().unwrap().kind, ConfigErrorKind::InvalidBindAddress);
    assert_eq!(cfg.resolved_listeners().unwrap().len(), 2);
}

#[test]
fn missing_bind_entry_counts_as_unparsable() {
    let mut cfg = Config::default();
    cfg.listeners = vec![listener("a", ":1")];
    cfg.routes = vec![valid_route("r")];
    assert_eq!(cfg.validate(&vec![]).err().unwrap().kind, ConfigErrorKind::InvalidBindAddress);
}

#[test]
fn prepare_builds_router_and_listeners() {
    let mut cfg = Config::default();
    cfg.listeners = vec![listener("a", ":8443")];
    cfg.routes = vec![valid_route("r")];
    let p = jester::proxy::prepare(&cfg, &vec![true], &vec![vec![None]]).unwrap();
    assert_eq!(p.router.routes.len(), 1);
    assert_eq!(p.router.routes[0].name, "r");
    assert_eq!(p.listeners[0].addr, "0.0.0.0:8443");
    cfg.routes[0].matchers.methods = Some(vec!["G ET".into()]);
    let e = jester::proxy::prepare(&cfg, &vec![true], &vec![vec![None]]).err().unwrap();
    assert_eq!(e.kind, ConfigErrorKind::InvalidMethod);
}
