//! `${KEY}` and `${KEY:default}` placeholders in configuration text.
use vstd::prelude::*;
use crate::parse::push_char;
use crate::text::str_eq;

verus! {

/// A character of a placeholder key.
pub open spec fn key_char(c: char) -> bool {
    ('A' <= c && c <= 'Z') || ('0' <= c && c <= '9') || c == '_'
}

/// The end of the run of key characters that starts at `i`.
pub open spec fn key_end(s: Seq<char>, i: int) -> int
    decreases s.len() - i,
{
    if i < 0 || i >= s.len() || !key_char(s[i]) {
        i
    } else {
        key_end(s, i + 1)
    }
}

/// The first `}` at or after `i`, or the end of the text.
pub open spec fn brace_at_or_after(s: Seq<char>, i: int) -> int
    decreases s.len() - i,
{
    if i < 0 || i >= s.len() || s[i] == '}' {
        i
    } else {
        brace_at_or_after(s, i + 1)
    }
}

/// A placeholder starting at `i`: where its key starts and ends, where its
/// default starts and ends if it has one, and where the placeholder ends.
pub struct Placeholder {
    pub key_start: int,
    pub key_end: int,
    pub default: Option<(int, int)>,
    pub end: int,
}

/// The placeholder that starts at `i`, if one does: `${`, a non-empty key of
/// `A`-`Z`, `0`-`9` and `_`, then either `}` or `:` with a non-empty default
/// up to the next `}`.
pub open spec fn placeholder_at(s: Seq<char>, i: int) -> Option<Placeholder> {
    if 0 <= i && i + 1 < s.len() && s[i] == '$' && s[i + 1] == '{' {
        let ks = i + 2;
        let ke = key_end(s, ks);
        if ke == ks || ke >= s.len() {
            None
        } else if s[ke] == '}' {
            Some(Placeholder { key_start: ks, key_end: ke, default: None, end: ke + 1 })
        } else if s[ke] == ':' {
            let de = brace_at_or_after(s, ke + 1);
            if de > ke + 1 && de < s.len() {
                Some(Placeholder { key_start: ks, key_end: ke, default: Some((ke + 1, de)), end: de + 1 })
            } else {
                None
            }
        } else {
            None
        }
    } else {
        None
    }
}

/// The value of the first variable named `key`.
pub open spec fn lookup(vars: Seq<(Seq<char>, Seq<char>)>, key: Seq<char>) -> Option<Seq<char>>
    decreases vars.len(),
{
    if vars.len() == 0 {
        None
    } else if vars[0].0 == key {
        Some(vars[0].1)
    } else {
        lookup(vars.drop_first(), key)
    }
}

/// What a placeholder becomes: the variable's value, else its default, else nothing.
pub open spec fn replacement(s: Seq<char>, p: Placeholder, vars: Seq<(Seq<char>, Seq<char>)>) -> Seq<char> {
    match lookup(vars, s.subrange(p.key_start, p.key_end)) {
        Some(v) => v,
        None => match p.default {
            Some((a, b)) => s.subrange(a, b),
            None => Seq::empty(),
        },
    }
}

/// The text from `i` on with every placeholder, leftmost first, replaced.
pub open spec fn interpolated_from(s: Seq<char>, vars: Seq<(Seq<char>, Seq<char>)>, i: int) -> Seq<char>
    decreases s.len() - i,
{
    if i < 0 || i >= s.len() {
        Seq::empty()
    } else {
        match placeholder_at(s, i) {
            Some(p) => if p.end > i {
                replacement(s, p, vars) + interpolated_from(s, vars, p.end)
            } else {
                Seq::empty()
            },
            None => seq![s[i]] + interpolated_from(s, vars, i + 1),
        }
    }
}

pub open spec fn var_views(vars: Seq<(String, String)>) -> Seq<(Seq<char>, Seq<char>)> {
    vars.map_values(|v: (String, String)| (v.0@, v.1@))
}

proof fn lemma_key_end_bounds(s: Seq<char>, i: int)
    requires
        0 <= i <= s.len(),
    ensures
        i <= key_end(s, i) <= s.len(),
        forall|k: int| i <= k < key_end(s, i) ==> key_char(#[trigger] s[k]),
        key_end(s, i) < s.len() ==> !key_char(s[key_end(s, i)]),
    decreases s.len() - i,
{
    if i < s.len() && key_char(s[i]) {
        lemma_key_end_bounds(s, i + 1);
    }
}

proof fn lemma_brace_bounds(s: Seq<char>, i: int)
    requires
        0 <= i <= s.len(),
    ensures
        i <= brace_at_or_after(s, i) <= s.len(),
        forall|k: int| i <= k < brace_at_or_after(s, i) ==> #[trigger] s[k] != '}',
        brace_at_or_after(s, i) < s.len() ==> s[brace_at_or_after(s, i)] == '}',
    decreases s.len() - i,
{
    if i < s.len() && s[i] != '}' {
        lemma_brace_bounds(s, i + 1);
    }
}

fn is_key_char(c: char) -> (r: bool)
    ensures
        r == key_char(c),
{
    ('A' <= c && c <= 'Z') || ('0' <= c && c <= '9') || c == '_'
}

fn scan_key(s: &str, n: usize, i: usize) -> (r: usize)
    requires
        n == s@.len(),
        i <= n,
    ensures
        r == key_end(s@, i as int),
{
    proof {
        lemma_key_end_bounds(s@, i as int);
    }
    let mut j = i;
    while j < n && is_key_char(s.get_char(j))
        invariant
            n == s@.len(),
            i <= j <= n,
            key_end(s@, j as int) == key_end(s@, i as int),
        decreases n - j,
    {
        j = j + 1;
    }
    j
}

fn scan_brace(s: &str, n: usize, i: usize) -> (r: usize)
    requires
        n == s@.len(),
        i <= n,
    ensures
        r == brace_at_or_after(s@, i as int),
{
    let mut j = i;
    while j < n && s.get_char(j) != '}'
        invariant
            n == s@.len(),
            i <= j <= n,
            brace_at_or_after(s@, j as int) == brace_at_or_after(s@, i as int),
        decreases n - j,
    {
        j = j + 1;
    }
    j
}

/// The placeholder at `i`, as (key start, key end, default, end).
fn find_placeholder(s: &str, n: usize, i: usize) -> (r: Option<(usize, usize, Option<(usize, usize)>, usize)>)
    requires
        n == s@.len(),
        i < n,
    ensures
        r is None == placeholder_at(s@, i as int) is None,
        r matches Some(t) ==> placeholder_at(s@, i as int) matches Some(p) && p.key_start == t.0
            && p.key_end == t.1 && p.end == t.3 && t.3 <= n && i < t.3 && t.0 <= t.1 <= n
            && match t.2 {
            Some((a, b)) => p.default == Some((a as int, b as int)) && a <= b <= n,
            None => p.default is None,
        },
{
    if i + 1 >= n || s.get_char(i) != '$' || s.get_char(i + 1) != '{' {
        return None;
    }
    let ks = i + 2;
    let ke = scan_key(s, n, ks);
    proof {
        lemma_key_end_bounds(s@, ks as int);
    }
    if ke == ks || ke >= n {
        return None;
    }
    let c = s.get_char(ke);
    if c == '}' {
        return Some((ks, ke, None, ke + 1));
    }
    if c != ':' {
        return None;
    }
    let de = scan_brace(s, n, ke + 1);
    proof {
        lemma_brace_bounds(s@, ke + 1);
    }
    if de > ke + 1 && de < n {
        Some((ks, ke, Some((ke + 1, de)), de + 1))
    } else {
        None
    }
}

fn lookup_var<'a>(vars: &'a Vec<(String, String)>, key: &str) -> (r: Option<&'a String>)
    ensures
        lookup(var_views(vars@), key@) == match r {
            Some(v) => Some(v@),
            None => None,
        },
{
    let ghost vv = var_views(vars@);
    let mut i: usize = 0;
    assert(vv.subrange(0, vv.len() as int) =~= vv);
    while i < vars.len()
        invariant
            vv == var_views(vars@),
            0 <= i <= vars@.len(),
            lookup(vv, key@) == lookup(vv.subrange(i as int, vv.len() as int), key@),
        decreases vars@.len() - i,
    {
        let ghost rest = vv.subrange(i as int, vv.len() as int);
        assert(rest.drop_first() =~= vv.subrange(i + 1, vv.len() as int));
        if str_eq(vars[i].0.as_str(), key) {
            return Some(&vars[i].1);
        }
        i = i + 1;
    }
    None
}

/// Replaces every `${KEY}` and `${KEY:default}` in `input`, leftmost first,
/// with the value of `KEY` in `vars` (the first pair with that name), else
/// with the default, else with nothing. Other text is kept.
pub fn interpolate_env(input: &str, vars: &Vec<(String, String)>) -> (r: String)
    ensures
        r@ == interpolated_from(input@, var_views(vars@), 0),
{
    let n = input.unicode_len();
    let ghost s = input@;
    let ghost vv = var_views(vars@);
    let mut out = String::new();
    let mut i: usize = 0;
    while i < n
        invariant
            n == s.len(),
            s == input@,
            vv == var_views(vars@),
            0 <= i <= n,
            out@ + interpolated_from(s, vv, i as int) == interpolated_from(s, vv, 0),
        decreases n - i,
    {
        match find_placeholder(input, n, i) {
            Some((ks, ke, default, end)) => {
                let ghost p = placeholder_at(s, i as int).unwrap();
                let key = input.substring_char(ks, ke);
                let piece: &str = match lookup_var(vars, key) {
                    Some(v) => v.as_str(),
                    None => match default {
                        Some((a, b)) => input.substring_char(a, b),
                        None => "",
                    },
                };
                proof {
                    reveal_strlit("");
                    assert(piece@ == replacement(s, p, vv));
                    assert(interpolated_from(s, vv, i as int) == replacement(s, p, vv)
                        + interpolated_from(s, vv, end as int));
                    assert(out@ + piece@ + interpolated_from(s, vv, end as int) == out@ + (piece@
                        + interpolated_from(s, vv, end as int)));
                }
                out.append(piece);
                i = end;
            },
            None => {
                let c = input.get_char(i);
                proof {
                    assert(interpolated_from(s, vv, i as int) == seq![c] + interpolated_from(s, vv, i + 1));
                    assert(out@.push(c) + interpolated_from(s, vv, i + 1) =~= out@ + (seq![c]
                        + interpolated_from(s, vv, i + 1)));
                }
                push_char(&mut out, c);
                i = i + 1;
            },
        }
    }
    assert(out@ + interpolated_from(s, vv, n as int) =~= out@);
    out
}

} // verus!
