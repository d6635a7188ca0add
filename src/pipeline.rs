//! The decisions of the per-request pipeline: route selection, the upstream
//! request to make, and the response to give when no upstream answers.
use vstd::prelude::*;
use crate::forward::{build_upstream_uri, copy_bytes, forwarded_headers, rewrite_headers, to_text, upstream_target, uri_text, opt_str_view};
use crate::parse::opt_view;
use crate::request::{Header, IpAddress, RequestHead, extract_host, header_views, request_host};
use crate::router::{RouteHandle, Router};

verus! {

/// A response the proxy writes itself.
#[derive(Clone, Debug)]
pub struct Reply {
    pub status: u16,
    pub body: String,
}

/// The label of the request counter.
#[derive(Clone, Copy, Debug, PartialEq, Eq, Structural)]
pub enum Outcome {
    Hit,
    Miss,
    Error,
}

impl Outcome {
    pub fn label(&self) -> (r: &'static str)
        ensures
            *self == Outcome::Hit ==> r@ == "hit"@,
            *self == Outcome::Miss ==> r@ == "miss"@,
            *self == Outcome::Error ==> r@ == "error"@,
    {
        match self {
            Outcome::Hit => "hit",
            Outcome::Miss => "miss",
            Outcome::Error => "error",
        }
    }
}

pub fn response_with(status: u16, msg: &str) -> (r: Reply)
    ensures
        r.status == status,
        r.body@ == msg@,
{
    Reply { status, body: String::from_str(msg) }
}

/// No route matches.
pub fn not_found() -> (r: Reply)
    ensures
        r.status == 404,
        r.body@ == "no matching route"@,
{
    response_with(404, "no matching route")
}

/// The upstream timed out or failed.
pub fn bad_gateway() -> (r: Reply)
    ensures
        r.status == 502,
        r.body@ == "upstream error"@,
{
    response_with(502, "upstream error")
}

/// Assembling a response failed.
pub fn internal_error() -> (r: Reply)
    ensures
        r.status == 500,
        r.body@ == "internal error"@,
{
    response_with(500, "internal error")
}

/// The request to send upstream for a matched route.
#[derive(Clone, Debug)]
pub struct ForwardPlan {
    pub route_name: String,
    /// The upstream target URI, as text.
    pub target: String,
    /// The rewritten request headers.
    pub headers: Vec<Header>,
    /// The forwarding timeout in seconds; none waits without bound.
    pub timeout: Option<u64>,
}

/// What to do with a request.
#[derive(Clone, Debug)]
pub enum Dispatch {
    /// Answer at once: `outcomes` are the counters to increment.
    Respond { reply: Reply, route_name: Option<String>, outcomes: Vec<Outcome> },
    /// Forward upstream, counting a hit.
    Forward(ForwardPlan),
}

/// How a forwarded request ended.
#[derive(Clone, Copy, Debug, PartialEq, Eq, Structural)]
pub enum ForwardResult {
    /// The upstream answered with this status.
    Answered(u16),
    /// The route's timeout expired first.
    TimedOut,
    /// Connecting or talking to the upstream failed.
    Failed,
}

/// What to give the client once the upstream call ended.
#[derive(Clone, Debug)]
pub enum Completion {
    /// Pass the upstream's response through.
    Relay,
    /// Answer with this response, counting an error.
    Fail(Reply),
}

/// Route `i` is the first whose matchers admit the request.
pub open spec fn first_match(
    routes: Seq<RouteHandle>,
    i: int,
    host: Seq<char>,
    host_ip: Option<IpAddress>,
    req: RequestHead,
) -> bool {
    &&& 0 <= i < routes.len()
    &&& routes[i].matchers.admits(host, host_ip, req)
    &&& forall|j: int| 0 <= j < i ==> !(#[trigger] routes[j]).matchers.admits(host, host_ip, req)
}

pub open spec fn no_match(
    routes: Seq<RouteHandle>,
    host: Seq<char>,
    host_ip: Option<IpAddress>,
    req: RequestHead,
) -> bool {
    forall|i: int| 0 <= i < routes.len() ==> !(#[trigger] routes[i]).matchers.admits(host, host_ip, req)
}

/// The host routing sees: the request's host, or empty where it has none.
pub open spec fn routing_host(req: RequestHead) -> Seq<char> {
    match request_host(req) {
        Some(h) => h,
        None => Seq::empty(),
    }
}

/// The plan for forwarding `req` along route `r`, where its target forms a URI.
pub open spec fn plans_forward(p: ForwardPlan, r: RouteHandle, req: RequestHead) -> bool {
    &&& p.route_name@ == r.name@
    &&& upstream_target(r.upstream.uri.view(), opt_view(req.path_and_query)) matches Some(t)
        && p.target@ == uri_text(t)
    &&& header_views(p.headers@) == forwarded_headers(
        header_views(req.headers@),
        r.upstream.uri.view().1,
    )
    &&& p.timeout == r.timeout
}

fn copy_header_list(v: &Vec<Header>) -> (r: Vec<Header>)
    ensures
        header_views(r@) == header_views(v@),
{
    let mut out: Vec<Header> = Vec::new();
    let mut i: usize = 0;
    while i < v.len()
        invariant
            0 <= i <= v@.len(),
            header_views(out@) == header_views(v@.subrange(0, i as int)),
        decreases v@.len() - i,
    {
        let h = Header { name: v[i].name.clone(), value: copy_bytes(&v[i].value) };
        let ghost before = out@;
        out.push(h);
        assert(out@ == before.push(h));
        assert(header_views(out@) =~= header_views(before).push((h.name@, h.value@)));
        assert(header_views(v@.subrange(0, i + 1)) =~= header_views(v@.subrange(0, i as int)).push(
            (v@[i as int].name@, v@[i as int].value@),
        ));
        i = i + 1;
    }
    assert(v@.subrange(0, v@.len() as int) =~= v@);
    out
}

fn opt_as_str(o: &Option<String>) -> (r: Option<&str>)
    ensures
        opt_str_view(r) == opt_view(*o),
{
    match o {
        Some(s) => Some(s.as_str()),
        None => None,
    }
}

/// Decides what to do with a request: on no matching route, answer 404 and
/// count a miss; on a match, forward to the route's upstream with the request's
/// path and query and rewritten headers, counting a hit; where that target does
/// not form a URI, answer 502 and count a hit and an error. `host_ip` is what
/// the request's host (see `extract_host`) parses to as an IP address.
pub fn plan_request(router: &Router, req: &RequestHead, host_ip: Option<IpAddress>) -> (d: Dispatch)
    ensures
        d matches Dispatch::Respond { reply, route_name, outcomes } ==> {
            ||| no_match(router.routes@, routing_host(*req), host_ip, *req) && reply.status == 404
                && reply.body@ == "no matching route"@ && route_name is None && outcomes@ == seq![Outcome::Miss]
            ||| exists|i: int|
                first_match(router.routes@, i, routing_host(*req), host_ip, *req) && upstream_target(
                    router.routes@[i].upstream.uri.view(),
                    opt_view(req.path_and_query),
                ) is None && reply.status == 502 && reply.body@ == "upstream error"@
                    && outcomes@ == seq![Outcome::Hit, Outcome::Error]
                    && opt_view(route_name) == Some(router.routes@[i].name@)
        },
        d matches Dispatch::Forward(p) ==> exists|i: int|
            first_match(router.routes@, i, routing_host(*req), host_ip, *req) && plans_forward(
                p,
                router.routes@[i],
                *req,
            ),
        no_match(router.routes@, routing_host(*req), host_ip, *req) ==> d is Respond,
        (exists|i: int|
            first_match(router.routes@, i, routing_host(*req), host_ip, *req) && upstream_target(
                router.routes@[i].upstream.uri.view(),
                opt_view(req.path_and_query),
            ) is Some) ==> d is Forward,
{
    let host = match extract_host(req) {
        Some(h) => h,
        None => String::new(),
    };
    match router.select(req, host.as_str(), host_ip) {
        None => {
            let mut outcomes: Vec<Outcome> = Vec::new();
            outcomes.push(Outcome::Miss);
            assert(outcomes@ =~= seq![Outcome::Miss]);
            Dispatch::Respond { reply: not_found(), route_name: None, outcomes }
        },
        Some(route) => {
            let ghost i = choose|i: int|
                0 <= i < router.routes@.len() && *route == router.routes@[i]
                    && (#[trigger] router.routes@[i]).matchers.admits(host@, host_ip, *req)
                    && forall|j: int| 0 <= j < i ==> !(#[trigger] router.routes@[j]).matchers.admits(host@, host_ip, *req);
            assert(first_match(router.routes@, i, routing_host(*req), host_ip, *req));
            proof {
                assert forall|k: int| first_match(router.routes@, k, routing_host(*req), host_ip, *req) implies k == i by {
                    if k < i {
                        assert(!router.routes@[k].matchers.admits(host@, host_ip, *req));
                    } else if k > i {
                        assert(!router.routes@[i].matchers.admits(host@, host_ip, *req));
                    }
                }
            }
            match build_upstream_uri(&route.upstream.uri, opt_as_str(&req.path_and_query)) {
                None => {
                    let mut outcomes: Vec<Outcome> = Vec::new();
                    outcomes.push(Outcome::Hit);
                    outcomes.push(Outcome::Error);
                    assert(outcomes@ =~= seq![Outcome::Hit, Outcome::Error]);
                    Dispatch::Respond {
                        reply: bad_gateway(),
                        route_name: Some(route.name.clone()),
                        outcomes,
                    }
                },
                Some(target) => {
                    let mut headers = copy_header_list(&req.headers);
                    rewrite_headers(&mut headers, opt_as_str(&route.upstream.uri.authority));
                    Dispatch::Forward(
                        ForwardPlan {
                            route_name: route.name.clone(),
                            target: to_text(&target),
                            headers,
                            timeout: route.timeout,
                        },
                    )
                },
            }
        },
    }
}

/// Decides the answer once the upstream call ended: an upstream response is
/// passed through; a timeout or a failure gives 502 `upstream error`.
pub fn finish_request(result: ForwardResult) -> (c: Completion)
    ensures
        result is Answered <==> c is Relay,
        c matches Completion::Fail(r) ==> r.status == 502 && r.body@ == "upstream error"@,
{
    match result {
        ForwardResult::Answered(_) => Completion::Relay,
        ForwardResult::TimedOut => Completion::Fail(bad_gateway()),
        ForwardResult::Failed => Completion::Fail(bad_gateway()),
    }
}

} // verus!
