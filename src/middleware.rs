use vstd::prelude::*;
use crate::headers::{same_name, set_header, without_header};

verus! {

pub open spec fn allow_origin_name() -> Seq<char> {
    "access-control-allow-origin"@
}

pub open spec fn allow_methods_name() -> Seq<char> {
    "access-control-allow-methods"@
}

pub open spec fn allow_headers_name() -> Seq<char> {
    "access-control-allow-headers"@
}

pub open spec fn allow_origin_value() -> Seq<char> {
    "*"@
}

pub open spec fn allow_methods_value() -> Seq<char> {
    "GET, POST, PUT, DELETE, PATCH, OPTIONS"@
}

pub open spec fn allow_headers_value() -> Seq<char> {
    "Content-Type, Authorization"@
}

/// A header list after the three CORS headers are set on it, each in place
/// of any entry of the same name.
pub open spec fn with_cors(h: Seq<(Seq<char>, Seq<char>)>) -> Seq<(Seq<char>, Seq<char>)> {
    let h1 = without_header(h, allow_origin_name()).push((allow_origin_name(), allow_origin_value()));
    let h2 = without_header(h1, allow_methods_name()).push((allow_methods_name(), allow_methods_value()));
    without_header(h2, allow_headers_name()).push((allow_headers_name(), allow_headers_value()))
}

/// Whether `n` is one of the three CORS header names.
pub open spec fn is_cors_name(n: Seq<char>) -> bool {
    same_name(n, allow_origin_name()) || same_name(n, allow_methods_name()) || same_name(
        n,
        allow_headers_name(),
    )
}

/// Sets the three CORS headers, replacing whatever values the list held
/// under those names.
pub fn add_cors_headers(headers: &mut Vec<(String, String)>)
    ensures
        crate::headers::header_view(final(headers)@) == with_cors(crate::headers::header_view(old(headers)@)),
{
    set_header(headers, "access-control-allow-origin", "*");
    set_header(headers, "access-control-allow-methods", "GET, POST, PUT, DELETE, PATCH, OPTIONS");
    set_header(headers, "access-control-allow-headers", "Content-Type, Authorization");
}

proof fn lemma_without_has_none(h: Seq<(Seq<char>, Seq<char>)>, n: Seq<char>)
    ensures
        forall|i: int| 0 <= i < without_header(h, n).len() ==> !same_name(#[trigger] without_header(h, n)[i].0, n),
    decreases h.len(),
{
    if h.len() > 0 {
        let rest = without_header(h.drop_last(), n);
        lemma_without_has_none(h.drop_last(), n);
        let w = without_header(h, n);
        assert forall|i: int| 0 <= i < w.len() implies !same_name(#[trigger] w[i].0, n) by {
            if i < rest.len() {
                assert(w[i] == rest[i]);
            }
        }
    }
}

proof fn lemma_without_keeps_absent(h: Seq<(Seq<char>, Seq<char>)>, n: Seq<char>, m: Seq<char>)
    requires
        forall|i: int| 0 <= i < h.len() ==> !same_name(#[trigger] h[i].0, m),
    ensures
        forall|i: int| 0 <= i < without_header(h, n).len() ==> !same_name(#[trigger] without_header(h, n)[i].0, m),
    decreases h.len(),
{
    if h.len() > 0 {
        let t = h.drop_last();
        assert forall|i: int| 0 <= i < t.len() implies !same_name(#[trigger] t[i].0, m) by {
            assert(t[i] == h[i]);
        }
        lemma_without_keeps_absent(t, n, m);
        assert(!same_name(h[h.len() - 1].0, m));
        let rest = without_header(t, n);
        let w = without_header(h, n);
        assert forall|i: int| 0 <= i < w.len() implies !same_name(#[trigger] w[i].0, m) by {
            if i < rest.len() {
                assert(w[i] == rest[i]);
            }
        }
    }
}

proof fn lemma_without_push(h: Seq<(Seq<char>, Seq<char>)>, p: (Seq<char>, Seq<char>), n: Seq<char>)
    requires
        !same_name(p.0, n),
    ensures
        without_header(h.push(p), n) == without_header(h, n).push(p),
{
    assert(h.push(p).drop_last() =~= h);
}

proof fn lemma_cors_names_differ()
    ensures
        !same_name(allow_origin_name(), allow_methods_name()),
        !same_name(allow_origin_name(), allow_headers_name()),
        !same_name(allow_methods_name(), allow_headers_name()),
        !same_name(allow_methods_name(), allow_origin_name()),
        !same_name(allow_headers_name(), allow_origin_name()),
        !same_name(allow_headers_name(), allow_methods_name()),
{
    reveal_strlit("access-control-allow-origin");
    reveal_strlit("access-control-allow-methods");
    reveal_strlit("access-control-allow-headers");
    assert(fold_char_at(allow_methods_name(), 21) != fold_char_at(allow_headers_name(), 21));
}

spec fn fold_char_at(s: Seq<char>, i: int) -> int {
    crate::headers::fold_char(s[i])
}

/// Whatever headers a response held, after the CORS headers are set it
/// holds each of the three CORS names exactly once, at its end, with the
/// fixed values, and the entries before them carry none of those names.
pub proof fn lemma_cors_exact(h: Seq<(Seq<char>, Seq<char>)>)
    ensures
        with_cors(h).len() >= 3,
        with_cors(h)[with_cors(h).len() - 3] == (allow_origin_name(), allow_origin_value()),
        with_cors(h)[with_cors(h).len() - 2] == (allow_methods_name(), allow_methods_value()),
        with_cors(h)[with_cors(h).len() - 1] == (allow_headers_name(), allow_headers_value()),
        forall|i: int| 0 <= i < with_cors(h).len() - 3 ==> !is_cors_name(#[trigger] with_cors(h)[i].0),
{
    lemma_cors_names_differ();
    let o = allow_origin_name();
    let m = allow_methods_name();
    let hd = allow_headers_name();
    let po = (o, allow_origin_value());
    let pm = (m, allow_methods_value());
    let ph = (hd, allow_headers_value());
    let b1 = without_header(h, o);
    let b2 = without_header(b1, m);
    let b3 = without_header(b2, hd);
    lemma_without_push(b1, po, m);
    lemma_without_push(b2.push(po), pm, hd);
    lemma_without_push(b2, po, hd);
    assert(with_cors(h) == b3.push(po).push(pm).push(ph));
    lemma_without_has_none(h, o);
    lemma_without_keeps_absent(b1, m, o);
    lemma_without_keeps_absent(b2, hd, o);
    lemma_without_has_none(b1, m);
    lemma_without_keeps_absent(b2, hd, m);
    lemma_without_has_none(b2, hd);
    let r = with_cors(h);
    assert forall|i: int| 0 <= i < r.len() - 3 implies !is_cors_name(#[trigger] r[i].0) by {
        assert(r[i] == b3[i]);
    }
}

} // verus!
