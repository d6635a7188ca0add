use jester::config::{Route, Upstream};
use jester::forward::{build_upstream_uri, clean_hop_by_hop, rewrite_headers, to_text};
use jester::pipeline::{
    bad_gateway, finish_request, internal_error, not_found, plan_request, Completion, Dispatch,
    ForwardResult, Outcome,
};
use jester::plugin::PluginManifest;
use jester::request::{extract_host, Header, RequestHead};
use jester::router::{Router, UpstreamEndpoint};
use jester::shutdown::{accept_step, AcceptStep, RunEvent, RunState};

fn header(n: &str, v: &str) -> Header {
    Header { name: n.to_string(), value: v.as_bytes().to_vec() }
}

fn request(pq: Option<&str>, headers: Vec<Header>) -> RequestHead {
    RequestHead {
        method: "GET".into(),
        path: pq.map(|p| p.split('?').next().unwrap().to_string()).unwrap_or_else(|| "/".into()),
        path_and_query: pq.map(String::from),
        uri_host: None,
        headers,
    }
}

fn router_for(target: &str, hosts: Vec<&str>, timeout: Option<u64>) -> Router {
    let mut r = Route::default();
    r.name = "main".into();
    r.matchers.hosts = Some(hosts.iter().map(|h| h.to_string()).collect());
    r.upstream = Upstream::Single { target: target.into() };
    if let Some(t) = timeout {
        r.filters.push(jester::config::Filter::Builtin {
            name: "timeout".into(),
            config: jester::config::FilterConfig { request_secs: Some(t) },
        });
    }
    let ips = vec![vec![None; hosts.len()]];
    Router::build(&[r], &ips).unwrap()
}

fn value_of<'a>(hs: &'a [Header], name: &str) -> Vec<&'a [u8]> {
    hs.iter().filter(|h| h.name.eq_ignore_ascii_case(name)).map(|h| h.value.as_slice()).collect()
}

#[test]
fn upstream_uri_replaces_path_and_query() {
    let ep = UpstreamEndpoint::from_upstream(&Upstream::Single {
        target: "http://127.0.0.1:9000/ignored-path".into(),
    })
    .unwrap();
    assert_eq!(ep.uri.authority.as_deref(), Some("127.0.0.1:9000"));
    let target = build_upstream_uri(&ep.uri, Some("/api/x?y=1")).unwrap();
    assert_eq!(to_text(&target), "http://127.0.0.1:9000/api/x?y=1");
}

#[test]
fn upstream_uri_defaults_to_root() {
    let ep = UpstreamEndpoint::from_upstream(&Upstream::Single { target: "https://up.example".into() })
        .unwrap();
    let target = build_upstream_uri(&ep.uri, None).unwrap();
    assert_eq!(to_text(&target), "https://up.example/");
}

#[test]
fn hop_by_hop_headers_are_removed() {
    let mut hs = vec![
        header("connection", "close"),
        header("Keep-Alive", "5"),
        header("accept", "*/*"),
        header("te", "trailers"),
        header("Upgrade", "ws"),
        header("proxy-authorization", "x"),
        header("proxy-authenticate", "y"),
        header("x-a", "1"),
    ];
    clean_hop_by_hop(&mut hs);
    let names: Vec<&str> = hs.iter().map(|h| h.name.as_str()).collect();
    assert_eq!(names, vec!["accept", "x-a"]);
}

#[test]
fn forwarded_headers_are_rewritten() {
    let mut hs = vec![
        header("Host", "client.example"),
        header("connection", "keep-alive"),
        header("x-forwarded-proto", "http"),
        header("accept", "text/html"),
    ];
    rewrite_headers(&mut hs, Some("127.0.0.1:9000"));
    assert!(value_of(&hs, "connection").is_empty());
    assert_eq!(value_of(&hs, "host"), vec![b"127.0.0.1:9000".as_slice()]);
    assert_eq!(value_of(&hs, "x-forwarded-proto"), vec![b"https".as_slice()]);
    assert_eq!(value_of(&hs, "accept"), vec![b"text/html".as_slice()]);
}

#[test]
fn host_kept_without_authority() {
    let mut hs = vec![header("host", "client.example")];
    rewrite_headers(&mut hs, None);
    assert_eq!(value_of(&hs, "host"), vec![b"client.example".as_slice()]);
    assert_eq!(value_of(&hs, "x-forwarded-proto"), vec![b"https".as_slice()]);
}

#[test]
fn host_taken_from_uri_then_header() {
    let mut req = request(Some("/"), vec![header("HOST", "from.header")]);
    assert_eq!(extract_host(&req).as_deref(), Some("from.header"));
    req.uri_host = Some("from.uri".into());
    assert_eq!(extract_host(&req).as_deref(), Some("from.uri"));
    let bad = request(Some("/"), vec![Header { name: "host".into(), value: vec![0xff] }]);
    assert_eq!(extract_host(&bad), None);
}

#[test]
fn miss_gives_404() {
    let router = router_for("http://127.0.0.1:9000", vec!["example.com"], None);
    let req = request(Some("/"), vec![header("host", "other.com")]);
    match plan_request(&router, &req, None) {
        Dispatch::Respond { reply, route_name, outcomes } => {
            assert_eq!(reply.status, 404);
            assert_eq!(reply.body, "no matching route");
            assert!(route_name.is_none());
            assert_eq!(outcomes, vec![Outcome::Miss]);
        }
        Dispatch::Forward(_) => panic!("expected a miss"),
    }
}

#[test]
fn hit_plans_forward() {
    let router = router_for("http://127.0.0.1:9000/base", vec!["Example.com"], Some(5));
    let req = request(Some("/api/x?y=1"), vec![header("host", "example.com"), header("te", "trailers")]);
    match plan_request(&router, &req, None) {
        Dispatch::Forward(p) => {
            assert_eq!(p.route_name, "main");
            assert_eq!(p.target, "http://127.0.0.1:9000/api/x?y=1");
            assert_eq!(p.timeout, Some(5));
            assert!(value_of(&p.headers, "te").is_empty());
            assert_eq!(value_of(&p.headers, "host"), vec![b"127.0.0.1:9000".as_slice()]);
        }
        Dispatch::Respond { .. } => panic!("expected a forward"),
    }
}

#[test]
fn timeout_gives_502() {
    match finish_request(ForwardResult::TimedOut) {
        Completion::Fail(r) => {
            assert_eq!(r.status, 502);
            assert_eq!(r.body, "upstream error");
        }
        Completion::Relay => panic!("expected a failure"),
    }
    assert!(matches!(finish_request(ForwardResult::Failed), Completion::Fail(_)));
    assert!(matches!(finish_request(ForwardResult::Answered(201)), Completion::Relay));
}

#[test]
fn synthesized_responses() {
    assert_eq!((not_found().status, not_found().body.as_str()), (404, "no matching route"));
    assert_eq!((bad_gateway().status, bad_gateway().body.as_str()), (502, "upstream error"));
    assert_eq!((internal_error().status, internal_error().body.as_str()), (500, "internal error"));
    assert_eq!(Outcome::Hit.label(), "hit");
    assert_eq!(Outcome::Miss.label(), "miss");
    assert_eq!(Outcome::Error.label(), "error");
}

#[test]
fn shutdown_preferred_over_ready_connection() {
    assert_eq!(accept_step(true, true), AcceptStep::Stop);
    assert_eq!(accept_step(false, true), AcceptStep::Accept);
    assert_eq!(accept_step(false, false), AcceptStep::Wait);
}

#[test]
fn no_accept_after_shutdown_but_drain_completes() {
    let mut s = RunState::new(2);
    assert_eq!(s.step(RunEvent::ConnectionReady), AcceptStep::Accept);
    assert_eq!(s.step(RunEvent::Interrupt), AcceptStep::Wait);
    assert_eq!(s.step(RunEvent::ConnectionReady), AcceptStep::Stop);
    assert_eq!(s.accepted, 1);
    assert!(!s.may_return());
    assert_eq!(s.step(RunEvent::Poll), AcceptStep::Stop);
    assert_eq!(s.step(RunEvent::ConnectionReady), AcceptStep::Wait);
    assert_eq!(s.accepted, 1);
    assert!(!s.may_return());
    s.step(RunEvent::ConnectionClosed);
    assert!(s.may_return());
}

#[test]
fn manifest_capabilities() {
    let m = PluginManifest {
        capabilities: vec!["http".into(), "metrics".into()],
        ..Default::default()
    };
    assert!(m.requires_capability("metrics"));
    assert!(!m.requires_capability("Metrics"));
}

#[test]
fn version_is_published() {
    assert_eq!(jester::version(), "0.1.0");
}
