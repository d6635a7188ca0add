//! Parsing that the `http` crate and `str` perform for the library, each
//! behind one trusted item.
use vstd::prelude::*;
use crate::text::{is_token, lower};
use std::str::FromStr;

verus! {

/// Parts of a URI as parsed by `http::Uri`: scheme, authority and path-and-query.
pub uninterp spec fn parsed_uri(s: Seq<char>) -> Option<(Option<Seq<char>>, Option<Seq<char>>, Option<Seq<char>>)>;

/// What `str::trim` leaves of a string.
pub uninterp spec fn trimmed(s: Seq<char>) -> Seq<char>;

/// The view of an optional string.
pub open spec fn opt_view(o: Option<String>) -> Option<Seq<char>> {
    match o {
        Some(s) => Some(s@),
        None => None,
    }
}

/// The scheme, authority and path-and-query of a parsed URI.
#[derive(Clone, Debug)]
pub struct UriParts {
    pub scheme: Option<String>,
    pub authority: Option<String>,
    pub path_and_query: Option<String>,
}

impl UriParts {
    pub open spec fn view(&self) -> (Option<Seq<char>>, Option<Seq<char>>, Option<Seq<char>>) {
        (opt_view(self.scheme), opt_view(self.authority), opt_view(self.path_and_query))
    }
}

/// Relies on `http::Uri::from_str`: `None` exactly when it rejects `s`,
/// else the scheme, authority and path-and-query it reports.
#[verifier::external_body]
pub(crate) fn parse_uri(s: &str) -> (r: Option<UriParts>)
    ensures
        r.is_some() == parsed_uri(s@).is_some(),
        r matches Some(p) ==> parsed_uri(s@) == Some(p.view()),
{
    http::Uri::from_str(s).ok().map(|u| UriParts {
        scheme: u.scheme_str().map(|x| x.to_string()),
        authority: u.authority().map(|a| a.as_str().to_string()),
        path_and_query: u.path_and_query().map(|p| p.as_str().to_string()),
    })
}

/// Relies on `http::Method::from_bytes`: a method is accepted exactly when it
/// is a non-empty run of token characters.
#[verifier::external_body]
pub(crate) fn method_is_valid(s: &str) -> (r: bool)
    ensures
        r == is_token(s@),
{
    http::Method::from_bytes(s.as_bytes()).is_ok()
}

/// Relies on `http::HeaderName::from_str`: accepted exactly when the name is a
/// token of at most 65535 characters; the name it keeps is ASCII-lowercased.
#[verifier::external_body]
pub(crate) fn parse_header_name(s: &str) -> (r: Option<String>)
    ensures
        r.is_some() == (is_token(s@) && s@.len() <= 65535),
        r matches Some(n) ==> n@ == lower(s@),
{
    http::header::HeaderName::from_str(s).ok().map(|n| n.as_str().to_string())
}

/// Relies on `str::trim`: the string without leading and trailing whitespace;
/// an empty string stays empty.
#[verifier::external_body]
pub(crate) fn trim_str(s: &str) -> (r: &str)
    ensures
        r@ == trimmed(s@),
        s@.len() == 0 ==> r@.len() == 0,
{
    s.trim()
}

/// Relies on `String::push`: appends one character.
#[verifier::external_body]
pub(crate) fn push_char(s: &mut String, c: char)
    ensures
        final(s)@ == old(s)@.push(c),
{
    s.push(c)
}

} // verus!
