//! Two ways of recognising the method name `GET`, compared for speed:
//! lowering the name, and comparing it to `get` ignoring ASCII case.

use vstd::prelude::*;
use crate::auth::ascii_lower_code;
use crate::text::{chars_of, string_from_chars};

verus! {

broadcast use vstd::string::group_string_axioms;

/// `r` is `s` with its ASCII letters in lower case.
pub open spec fn ascii_lowered(s: Seq<char>, r: Seq<char>) -> bool {
    r.len() == s.len() && forall|i: int| 0 <= i < s.len() ==> (#[trigger] r[i]) as u32 == ascii_lower_code(s[i])
}

fn lower_char(c: char) -> (r: char)
    ensures
        r as u32 == ascii_lower_code(c),
{
    let u = c as u32;
    if 65 <= u && u <= 90 {
        let b: u8 = (u + 32) as u8;
        b as char
    } else {
        c
    }
}

/// `s` with its ASCII letters in lower case.
pub fn ascii_lowercase(s: &str) -> (r: String)
    ensures
        ascii_lowered(s@, r@),
{
    let v = chars_of(s);
    let mut out: Vec<char> = Vec::new();
    let mut i: usize = 0;
    while i < v.len()
        invariant
            i <= v@.len(),
            v@ == s@,
            out@.len() == i,
            forall|j: int| 0 <= j < i ==> (#[trigger] out@[j]) as u32 == ascii_lower_code(s@[j]),
        decreases v@.len() - i,
    {
        out.push(lower_char(v[i]));
        i = i + 1;
    }
    string_from_chars(out.as_slice())
}

/// `a` and `b` are equal but for the case of ASCII letters.
pub open spec fn eq_ignoring_ascii_case(a: Seq<char>, b: Seq<char>) -> bool {
    a.len() == b.len() && forall|i: int| 0 <= i < a.len() ==> #[trigger] ascii_lower_code(a[i])
        == ascii_lower_code(b[i])
}

fn lower_code(c: char) -> (u: u32)
    ensures
        u == ascii_lower_code(c),
{
    let a = c as u32;
    if 65 <= a && a <= 90 {
        a + 32
    } else {
        a
    }
}

/// Whether `a` and `b` are equal but for the case of ASCII letters.
pub fn eq_ignore_ascii_case(a: &str, b: &str) -> (r: bool)
    ensures
        r == eq_ignoring_ascii_case(a@, b@),
{
    let av = chars_of(a);
    let bv = chars_of(b);
    if av.len() != bv.len() {
        return false;
    }
    let mut i: usize = 0;
    while i < av.len()
        invariant
            i <= av@.len(),
            av@ == a@,
            bv@ == b@,
            av@.len() == bv@.len(),
            forall|j: int| 0 <= j < i ==> #[trigger] ascii_lower_code(a@[j]) == ascii_lower_code(b@[j]),
        decreases av@.len() - i,
    {
        if lower_code(av[i]) != lower_code(bv[i]) {
            return false;
        }
        i = i + 1;
    }
    true
}

/// The method name `GET` lowered: `get`.
pub fn method_to_lowercase() -> (r: String)
    ensures
        r@ == "get"@,
{
    let method = "GET";
    let low = ascii_lowercase(method);
    proof {
        reveal_strlit("GET");
        reveal_strlit("get");
        let g = "get"@;
        assert forall|i: int| 0 <= i < 3 implies low@[i] == g[i] by {
            vstd::utf8::char_u32_cast(low@[i], low@[i] as u32);
            vstd::utf8::char_u32_cast(g[i], g[i] as u32);
        }
        assert(low@ =~= g);
    }
    low
}

/// Whether the method name `GET` is `get` ignoring ASCII case: it is.
pub fn method_as_bytes_eq() -> (r: bool)
    ensures
        r,
{
    let is_get = eq_ignore_ascii_case("GET", "get");
    proof {
        reveal_strlit("GET");
        reveal_strlit("get");
    }
    is_get
}

} // verus!
