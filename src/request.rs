//! The part of an incoming HTTP request that routing and forwarding read.
use vstd::prelude::*;
use vstd::utf8::encode_utf8;
use crate::parse::{opt_view, push_char};
use crate::text::{eq_ignore_ascii_case, eq_ignore_case};

verus! {

/// An IP address, as its numeric value.
#[derive(Clone, Copy, Debug, PartialEq, Eq, Structural)]
pub enum IpAddress {
    V4(u32),
    V6(u128),
}

/// One header line: its name and its raw value bytes.
#[derive(Clone, Debug)]
pub struct Header {
    pub name: String,
    pub value: Vec<u8>,
}

/// The request line and headers of an incoming request.
#[derive(Clone, Debug)]
pub struct RequestHead {
    pub method: String,
    /// The path of the request target, without the query.
    pub path: String,
    /// The path and query of the request target, where it has one.
    pub path_and_query: Option<String>,
    /// The host of the request target, where it is an absolute URI.
    pub uri_host: Option<String>,
    pub headers: Vec<Header>,
}

/// A byte that a header value may hold and still read as text.
pub open spec fn visible_byte(b: u8) -> bool {
    (32 <= b && b < 127) || b == 9
}

/// Header value bytes that read as text.
pub open spec fn visible(v: Seq<u8>) -> bool {
    forall|i: int| 0 <= i < v.len() ==> visible_byte(#[trigger] v[i])
}

/// Text bytes read as characters.
pub open spec fn bytes_text(v: Seq<u8>) -> Seq<char> {
    v.map_values(|b: u8| b as char)
}

/// Header lines as name and value.
pub type HeaderView = (Seq<char>, Seq<u8>);

/// The header lines of a list, as names and values.
pub open spec fn header_views(hs: Seq<Header>) -> Seq<HeaderView> {
    hs.map_values(|h: Header| (h.name@, h.value@))
}

/// The value of the first header named `name`, compared without ASCII case.
pub open spec fn first_header(hs: Seq<HeaderView>, name: Seq<char>) -> Option<Seq<u8>>
    decreases hs.len(),
{
    if hs.len() == 0 {
        None
    } else if eq_ignore_case(hs[0].0, name) {
        Some(hs[0].1)
    } else {
        first_header(hs.drop_first(), name)
    }
}

/// The first header named `name` holds exactly the text `value`.
pub open spec fn header_is(hs: Seq<Header>, name: Seq<char>, value: Seq<char>) -> bool {
    match first_header(header_views(hs), name) {
        Some(v) => visible(v) && v == encode_utf8(value),
        None => false,
    }
}

/// The host a request is addressed to: that of an absolute request target,
/// else the text of the first `Host` header.
pub open spec fn request_host(r: RequestHead) -> Option<Seq<char>> {
    match r.uri_host {
        Some(h) => Some(h@),
        None => match first_header(header_views(r.headers@), "host"@) {
            Some(v) => if visible(v) {
                Some(bytes_text(v))
            } else {
                None
            },
            None => None,
        },
    }
}

/// The index of the first header named `name`, if any.
pub fn find_header(hs: &Vec<Header>, name: &str) -> (r: Option<usize>)
    ensures
        r is None ==> first_header(header_views(hs@), name@) is None,
        r matches Some(i) ==> i < hs@.len() && first_header(header_views(hs@), name@) == Some(
            hs@[i as int].value@,
        ),
{
    let ghost hv = header_views(hs@);
    let mut i: usize = 0;
    assert(hv.subrange(0, hv.len() as int) =~= hv);
    while i < hs.len()
        invariant
            hv == header_views(hs@),
            0 <= i <= hs@.len(),
            first_header(hv, name@) == first_header(hv.subrange(i as int, hv.len() as int), name@),
        decreases hs@.len() - i,
    {
        let ghost rest = hv.subrange(i as int, hv.len() as int);
        assert(rest.drop_first() =~= hv.subrange(i + 1, hv.len() as int));
        if eq_ignore_ascii_case(hs[i].name.as_str(), name) {
            return Some(i);
        }
        i = i + 1;
    }
    None
}

/// Whether the bytes read as text.
pub fn is_visible(v: &[u8]) -> (r: bool)
    ensures
        r == visible(v@),
{
    let mut i: usize = 0;
    while i < v.len()
        invariant
            0 <= i <= v@.len(),
            forall|k: int| 0 <= k < i ==> visible_byte(v@[k]),
        decreases v@.len() - i,
    {
        let b = v[i];
        if !((32 <= b && b < 127) || b == 9) {
            return false;
        }
        i = i + 1;
    }
    true
}

/// Whether two byte sequences are equal.
pub fn bytes_eq(a: &[u8], b: &[u8]) -> (r: bool)
    ensures
        r == (a@ == b@),
{
    if a.len() != b.len() {
        return false;
    }
    let mut i: usize = 0;
    while i < a.len()
        invariant
            a@.len() == b@.len(),
            0 <= i <= a@.len(),
            forall|k: int| 0 <= k < i ==> a@[k] == b@[k],
        decreases a@.len() - i,
    {
        if a[i] != b[i] {
            return false;
        }
        i = i + 1;
    }
    assert(a@ =~= b@);
    true
}

/// Whether the first header named `name` holds exactly the text `value`.
pub fn header_equals(hs: &Vec<Header>, name: &str, value: &str) -> (r: bool)
    ensures
        r == header_is(hs@, name@, value@),
{
    match find_header(hs, name) {
        None => false,
        Some(i) => {
            let v = hs[i].value.as_slice();
            is_visible(v) && bytes_eq(v, value.as_bytes())
        },
    }
}

/// The host of a request: the request target's host, else the first `Host`
/// header where it reads as text.
pub fn extract_host(r: &RequestHead) -> (h: Option<String>)
    ensures
        opt_view(h) == request_host(*r),
{
    match &r.uri_host {
        Some(h) => Some(h.clone()),
        None => {
            proof {
                reveal_strlit("host");
            }
            match find_header(&r.headers, "host") {
                None => None,
                Some(i) => {
                    let v = r.headers[i].value.as_slice();
                    if is_visible(v) {
                        Some(bytes_to_string(v))
                    } else {
                        None
                    }
                },
            }
        },
    }
}

fn bytes_to_string(v: &[u8]) -> (s: String)
    ensures
        s@ == bytes_text(v@),
{
    let mut s = String::new();
    let mut i: usize = 0;
    while i < v.len()
        invariant
            0 <= i <= v@.len(),
            s@ == bytes_text(v@.subrange(0, i as int)),
        decreases v@.len() - i,
    {
        let c = v[i] as char;
        push_char(&mut s, c);
        assert(bytes_text(v@.subrange(0, i + 1)) =~= bytes_text(v@.subrange(0, i as int)).push(c));
        i = i + 1;
    }
    assert(v@.subrange(0, v@.len() as int) =~= v@);
    s
}

} // verus!
