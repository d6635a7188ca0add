//! Building the upstream target and rewriting the forwarded request's headers.
use vstd::prelude::*;
use vstd::string::StrSliceExecFns;
use vstd::utf8::encode_utf8;
use crate::parse::{UriParts, opt_view};
use crate::request::{Header, HeaderView, first_header, header_views};
use crate::text::{eq_ignore_ascii_case, eq_ignore_case};

verus! {

pub type UriView = (Option<Seq<char>>, Option<Seq<char>>, Option<Seq<char>>);

/// The upstream target for a request: the base's scheme and authority with
/// the request's path and query (`/` where it has none). `None` where the
/// parts do not form a URI: a scheme without an authority or the reverse.
pub open spec fn upstream_target(base: UriView, incoming: Option<Seq<char>>) -> Option<UriView> {
    let pq = match incoming {
        Some(p) => p,
        None => seq!['/'],
    };
    if base.0 is Some != base.1 is Some {
        None
    } else {
        Some((base.0, base.1, Some(pq)))
    }
}

/// The text of a URI: `scheme://`, then the authority, then path and query.
pub open spec fn uri_text(u: UriView) -> Seq<char> {
    let s = match u.0 {
        Some(x) => x + "://"@,
        None => Seq::empty(),
    };
    let a = match u.1 {
        Some(x) => x,
        None => Seq::empty(),
    };
    let p = match u.2 {
        Some(x) => x,
        None => Seq::empty(),
    };
    s + a + p
}

/// Builds the upstream target from the route's base URI and the request's
/// path and query; the base's own path is not used.
pub fn build_upstream_uri(base: &UriParts, incoming: Option<&str>) -> (r: Option<UriParts>)
    ensures
        r is Some == upstream_target(base.view(), opt_str_view(incoming)) is Some,
        r matches Some(u) ==> upstream_target(base.view(), opt_str_view(incoming)) == Some(u.view()),
{
    if base.scheme.is_some() != base.authority.is_some() {
        return None;
    }
    let pq = match incoming {
        Some(p) => String::from_str(p),
        None => {
            proof {
                reveal_strlit("/");
                assert("/"@ =~= seq!['/']);
            }
            String::from_str("/")
        },
    };
    Some(UriParts {
        scheme: copy_opt(&base.scheme),
        authority: copy_opt(&base.authority),
        path_and_query: Some(pq),
    })
}

pub open spec fn opt_str_view(o: Option<&str>) -> Option<Seq<char>> {
    match o {
        Some(s) => Some(s@),
        None => None,
    }
}

fn copy_opt(o: &Option<String>) -> (r: Option<String>)
    ensures
        opt_view(r) == opt_view(*o),
{
    match o {
        Some(s) => Some(s.clone()),
        None => None,
    }
}

/// The URI as text.
pub fn to_text(u: &UriParts) -> (r: String)
    ensures
        r@ == uri_text(u.view()),
{
    let mut out = String::new();
    if let Some(s) = &u.scheme {
        out.append(s.as_str());
        out.append("://");
    }
    if let Some(a) = &u.authority {
        out.append(a.as_str());
    }
    if let Some(p) = &u.path_and_query {
        out.append(p.as_str());
    }
    assert(out@ =~= uri_text(u.view()));
    out
}

/// The headers that apply to one transport leg only.
pub open spec fn hop_by_hop() -> Seq<Seq<char>> {
    seq![
        "connection"@,
        "keep-alive"@,
        "proxy-authenticate"@,
        "proxy-authorization"@,
        "te"@,
        "upgrade"@,
    ]
}

pub open spec fn is_hop(name: Seq<char>) -> bool {
    exists|k: int| 0 <= k < hop_by_hop().len() && eq_ignore_case(name, #[trigger] hop_by_hop()[k])
}

pub open spec fn not_hop(h: HeaderView) -> bool {
    !is_hop(h.0)
}

pub open spec fn named(h: HeaderView, name: Seq<char>) -> bool {
    eq_ignore_case(h.0, name)
}

/// Drops every header named `name`, then appends one with that value.
pub open spec fn set_header(hs: Seq<HeaderView>, name: Seq<char>, value: Seq<u8>) -> Seq<HeaderView> {
    hs.filter(|h: HeaderView| !named(h, name)).push((name, value))
}

/// The headers forwarded upstream: hop-by-hop headers dropped, `host` set
/// to the upstream authority where there is one, `x-forwarded-proto` set to `https`.
pub open spec fn forwarded_headers(hs: Seq<HeaderView>, authority: Option<Seq<char>>) -> Seq<HeaderView> {
    let cleaned = hs.filter(|h: HeaderView| not_hop(h));
    let hosted = match authority {
        Some(a) => set_header(cleaned, "host"@, encode_utf8(a)),
        None => cleaned,
    };
    set_header(hosted, "x-forwarded-proto"@, encode_utf8("https"@))
}

fn hop_check(name: &str) -> (r: bool)
    ensures
        r == is_hop(name@),
{
    let r = eq_ignore_ascii_case(name, "connection") || eq_ignore_ascii_case(name, "keep-alive")
        || eq_ignore_ascii_case(name, "proxy-authenticate") || eq_ignore_ascii_case(
        name,
        "proxy-authorization",
    ) || eq_ignore_ascii_case(name, "te") || eq_ignore_ascii_case(name, "upgrade");
    proof {
        let hb = hop_by_hop();
        if r {
            if eq_ignore_case(name@, "connection"@) {
                assert(eq_ignore_case(name@, hb[0]));
            } else if eq_ignore_case(name@, "keep-alive"@) {
                assert(eq_ignore_case(name@, hb[1]));
            } else if eq_ignore_case(name@, "proxy-authenticate"@) {
                assert(eq_ignore_case(name@, hb[2]));
            } else if eq_ignore_case(name@, "proxy-authorization"@) {
                assert(eq_ignore_case(name@, hb[3]));
            } else if eq_ignore_case(name@, "te"@) {
                assert(eq_ignore_case(name@, hb[4]));
            } else {
                assert(eq_ignore_case(name@, hb[5]));
            }
        } else {
            assert forall|k: int| 0 <= k < hb.len() implies !eq_ignore_case(name@, #[trigger] hb[k]) by {
                if k == 0 {
                } else if k == 1 {
                } else if k == 2 {
                } else if k == 3 {
                } else if k == 4 {
                } else {
                }
            }
        }
    }
    r
}

fn copy_header(h: &Header) -> (r: Header)
    ensures
        r.name@ == h.name@,
        r.value@ == h.value@,
{
    Header { name: h.name.clone(), value: copy_bytes(&h.value) }
}

pub(crate) fn copy_bytes(v: &Vec<u8>) -> (r: Vec<u8>)
    ensures
        r@ == v@,
{
    let mut out: Vec<u8> = Vec::new();
    let mut i: usize = 0;
    while i < v.len()
        invariant
            0 <= i <= v@.len(),
            out@ == v@.subrange(0, i as int),
        decreases v@.len() - i,
    {
        out.push(v[i]);
        i = i + 1;
    }
    assert(out@ =~= v@);
    out
}

/// Removes the hop-by-hop headers, keeping the others in order.
pub fn clean_hop_by_hop(headers: &mut Vec<Header>)
    ensures
        header_views(final(headers)@) == header_views(old(headers)@).filter(|h: HeaderView| not_hop(h)),
{
    let ghost hv = header_views(headers@);
    let mut out: Vec<Header> = Vec::new();
    let mut i: usize = 0;
    while i < headers.len()
        invariant
            hv == header_views(headers@),
            0 <= i <= headers@.len(),
            header_views(out@) == hv.subrange(0, i as int).filter(|h: HeaderView| not_hop(h)),
        decreases headers@.len() - i,
    {
        proof {
            reveal(Seq::filter);
            assert(hv.subrange(0, i + 1).drop_last() =~= hv.subrange(0, i as int));
        }
        let h = &headers[i];
        if !hop_check(h.name.as_str()) {
            let c = copy_header(h);
            out.push(c);
            assert(header_views(out@) =~= hv.subrange(0, i as int).filter(|h: HeaderView| not_hop(h)).push(hv[i as int]));
        }
        i = i + 1;
    }
    assert(hv.subrange(0, hv.len() as int) =~= hv);
    *headers = out;
}

/// Drops every header named `name`, then appends one holding `value`.
fn set_header_exec(headers: &mut Vec<Header>, name: &str, value: &str)
    ensures
        header_views(final(headers)@) == set_header(header_views(old(headers)@), name@, encode_utf8(value@)),
{
    let ghost hv = header_views(headers@);
    let ghost keep = |h: HeaderView| !named(h, name@);
    let mut out: Vec<Header> = Vec::new();
    let mut i: usize = 0;
    while i < headers.len()
        invariant
            hv == header_views(headers@),
            keep == (|h: HeaderView| !named(h, name@)),
            0 <= i <= headers@.len(),
            header_views(out@) == hv.subrange(0, i as int).filter(keep),
        decreases headers@.len() - i,
    {
        proof {
            reveal(Seq::filter);
            assert(hv.subrange(0, i + 1).drop_last() =~= hv.subrange(0, i as int));
        }
        let h = &headers[i];
        if !eq_ignore_ascii_case(h.name.as_str(), name) {
            let c = copy_header(h);
            out.push(c);
            assert(header_views(out@) =~= hv.subrange(0, i as int).filter(keep).push(hv[i as int]));
        }
        i = i + 1;
    }
    assert(hv.subrange(0, hv.len() as int) =~= hv);
    let h = Header { name: String::from_str(name), value: value.as_bytes_vec() };
    out.push(h);
    assert(header_views(out@) =~= hv.filter(keep).push((name@, encode_utf8(value@))));
    *headers = out;
}

/// Rewrites the headers of a request about to be forwarded.
pub fn rewrite_headers(headers: &mut Vec<Header>, authority: Option<&str>)
    ensures
        header_views(final(headers)@) == forwarded_headers(header_views(old(headers)@), opt_str_view(authority)),
{
    clean_hop_by_hop(headers);
    if let Some(a) = authority {
        set_header_exec(headers, "host", a);
    }
    set_header_exec(headers, "x-forwarded-proto", "https");
}

proof fn lemma_filter_keeps(
    s: Seq<HeaderView>,
    p: spec_fn(HeaderView) -> bool,
    q: spec_fn(HeaderView) -> bool,
)
    requires
        forall|i: int| 0 <= i < s.len() ==> q(#[trigger] s[i]),
    ensures
        forall|i: int| 0 <= i < s.filter(p).len() ==> q(#[trigger] s.filter(p)[i]) && p(s.filter(p)[i]),
    decreases s.len(),
{
    reveal(Seq::filter);
    if s.len() > 0 {
        let d = s.drop_last();
        assert forall|i: int| 0 <= i < d.len() implies q(#[trigger] d[i]) by {
            assert(d[i] == s[i]);
        }
        lemma_filter_keeps(d, p, q);
        let f = s.filter(p);
        let fd = d.filter(p);
        assert(q(s[s.len() - 1]));
        assert forall|i: int| 0 <= i < f.len() implies q(#[trigger] f[i]) && p(f[i]) by {
            if i < fd.len() {
                assert(f[i] == fd[i]);
            }
        }
    }
}

proof fn lemma_first_header_of(hs: Seq<HeaderView>, name: Seq<char>, v: Seq<u8>)
    requires
        exists|k: int| 0 <= k < hs.len() && named(#[trigger] hs[k], name),
        forall|k: int| 0 <= k < hs.len() && named(#[trigger] hs[k], name) ==> hs[k].1 == v,
    ensures
        first_header(hs, name) == Some(v),
    decreases hs.len(),
{
    if !named(hs[0], name) {
        let k = choose|k: int| 0 <= k < hs.len() && named(#[trigger] hs[k], name);
        let t = hs.drop_first();
        assert(t[k - 1] == hs[k]);
        assert forall|j: int| 0 <= j < t.len() && named(#[trigger] t[j], name) implies t[j].1 == v by {
            assert(t[j] == hs[j + 1]);
        }
        lemma_first_header_of(t, name, v);
    }
}

proof fn lemma_len_of_match(a: Seq<char>, b: Seq<char>)
    requires
        eq_ignore_case(a, b),
    ensures
        a.len() == b.len(),
{
    assert(crate::text::lower(a).len() == a.len());
    assert(crate::text::lower(b).len() == b.len());
}

proof fn lemma_short_names_not_hop(name: Seq<char>)
    requires
        name.len() == 4 || name.len() == 17,
    ensures
        !is_hop(name),
{
    reveal_strlit("connection");
    reveal_strlit("keep-alive");
    reveal_strlit("proxy-authenticate");
    reveal_strlit("proxy-authorization");
    reveal_strlit("te");
    reveal_strlit("upgrade");
    assert forall|k: int| 0 <= k < hop_by_hop().len() implies !eq_ignore_case(name, #[trigger] hop_by_hop()[k]) by {
        if eq_ignore_case(name, hop_by_hop()[k]) {
            lemma_len_of_match(name, hop_by_hop()[k]);
        }
    }
}

/// The headers forwarded upstream hold no hop-by-hop header; where the
/// upstream has an authority, every `host` header holds it and a lookup of
/// `host` finds it; every `x-forwarded-proto` header holds `https` and a lookup finds it.
pub proof fn lemma_forwarded_headers(hs: Seq<HeaderView>, authority: Option<Seq<char>>)
    ensures
        ({
            let out = forwarded_headers(hs, authority);
            &&& forall|k: int| 0 <= k < out.len() ==> !is_hop(#[trigger] out[k].0)
            &&& forall|k: int|
                0 <= k < out.len() && named(#[trigger] out[k], "x-forwarded-proto"@) ==> out[k].1
                    == encode_utf8("https"@)
            &&& first_header(out, "x-forwarded-proto"@) == Some(encode_utf8("https"@))
            &&& authority matches Some(a) ==> {
                &&& forall|k: int|
                    0 <= k < out.len() && named(#[trigger] out[k], "host"@) ==> out[k].1 == encode_utf8(a)
                &&& first_header(out, "host"@) == Some(encode_utf8(a))
            }
        }),
{
    reveal_strlit("host");
    reveal_strlit("x-forwarded-proto");
    let host = "host"@;
    let xfp = "x-forwarded-proto"@;
    let https = encode_utf8("https"@);
    let nh = |h: HeaderView| not_hop(h);
    let cleaned = hs.filter(nh);
    lemma_filter_keeps(hs, nh, |h: HeaderView| true);
    lemma_short_names_not_hop(host);
    lemma_short_names_not_hop(xfp);
    // what holds of every header before the forwarding protocol is set
    let hq = |h: HeaderView|
        not_hop(h) && (authority matches Some(a) ==> (named(h, host) ==> h.1 == encode_utf8(a)));
    let hosted = match authority {
        Some(a) => set_header(cleaned, host, encode_utf8(a)),
        None => cleaned,
    };
    match authority {
        Some(a) => {
            let nhost = |h: HeaderView| !named(h, host);
            lemma_filter_keeps(cleaned, nhost, |h: HeaderView| not_hop(h));
            assert(named((host, encode_utf8(a)), host));
            assert forall|i: int| 0 <= i < hosted.len() implies hq(#[trigger] hosted[i]) by {
                if i < hosted.len() - 1 {
                    assert(hosted[i] == cleaned.filter(nhost)[i]);
                }
            }
        },
        None => {
            assert forall|i: int| 0 <= i < hosted.len() implies hq(#[trigger] hosted[i]) by {
                assert(nh(hosted[i]));
            }
        },
    }
    let nx = |h: HeaderView| !named(h, xfp);
    lemma_filter_keeps(hosted, nx, hq);
    let kept = hosted.filter(nx);
    let out = kept.push((xfp, https));
    assert(out == forwarded_headers(hs, authority));
    assert(named((xfp, https), xfp));
    assert forall|k: int| 0 <= k < out.len() implies !is_hop(#[trigger] out[k].0) by {
        if k < out.len() - 1 {
            assert(out[k] == kept[k]);
        }
    }
    assert forall|k: int| 0 <= k < out.len() && named(#[trigger] out[k], xfp) implies out[k].1 == https by {
        if k < out.len() - 1 {
            assert(out[k] == kept[k]);
        }
    }
    assert(named(out[out.len() - 1], xfp));
    lemma_first_header_of(out, xfp, https);
    if let Some(a) = authority {
        assert forall|k: int| 0 <= k < out.len() && named(#[trigger] out[k], host) implies out[k].1
            == encode_utf8(a) by {
            if k < out.len() - 1 {
                assert(out[k] == kept[k]);
            } else {
                if named(out[k], host) {
                    lemma_len_of_match(xfp, host);
                }
            }
        }
        let last = hosted.len() - 1;
        assert(hosted[last] == (host, encode_utf8(a)));
        assert(named(hosted[last], host));
        if named(hosted[last], xfp) {
            lemma_len_of_match(host, xfp);
        }
        hosted.lemma_filter_contains(nx, last);
        let j = choose|j: int| 0 <= j < kept.len() && kept[j] == hosted[last];
        assert(out[j] == hosted[last]);
        assert(named(out[j], host));
        lemma_first_header_of(out, host, encode_utf8(a));
    }
}

} // verus!
