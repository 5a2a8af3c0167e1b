use vstd::prelude::*;

verus! {

/// An ASCII letter folded to lower case, as a code point; every other
/// character is left as it is.
pub open spec fn fold_char(c: char) -> int {
    if 65 <= (c as int) && (c as int) <= 90 {
        (c as int) + 32
    } else {
        c as int
    }
}

/// Header names compare without regard to ASCII case.
pub open spec fn same_name(a: Seq<char>, b: Seq<char>) -> bool {
    &&& a.len() == b.len()
    &&& forall|i: int| 0 <= i < a.len() ==> #[trigger] fold_char(a[i]) == fold_char(b[i])
}

/// The names and values of a header list, as sequences of characters.
pub open spec fn header_view(h: Seq<(String, String)>) -> Seq<(Seq<char>, Seq<char>)> {
    h.map_values(|p: (String, String)| (p.0@, p.1@))
}

/// The first value stored under `name`, if any.
pub open spec fn first_value(h: Seq<(Seq<char>, Seq<char>)>, name: Seq<char>) -> Option<Seq<char>>
    decreases h.len(),
{
    if h.len() == 0 {
        None
    } else if same_name(h[0].0, name) {
        Some(h[0].1)
    } else {
        first_value(h.drop_first(), name)
    }
}

/// The list with every entry named `name` taken out, the others kept in order.
pub open spec fn without_header(h: Seq<(Seq<char>, Seq<char>)>, name: Seq<char>) -> Seq<(Seq<char>, Seq<char>)>
    decreases h.len(),
{
    if h.len() == 0 {
        h
    } else {
        let rest = without_header(h.drop_last(), name);
        if same_name(h.last().0, name) {
            rest
        } else {
            rest.push(h.last())
        }
    }
}

fn fold_exec(c: char) -> (r: u32)
    ensures
        r == fold_char(c),
{
    let v = c as u32;
    if 65 <= v && v <= 90 {
        v + 32
    } else {
        v
    }
}

/// Whether two header names are equal without regard to ASCII case.
pub fn names_match(a: &str, b: &str) -> (r: bool)
    ensures
        r == same_name(a@, b@),
{
    let n = a.unicode_len();
    if n != b.unicode_len() {
        return false;
    }
    let mut i: usize = 0;
    while i < n
        invariant
            n == a@.len(),
            n == b@.len(),
            i <= n,
            forall|j: int| 0 <= j < i ==> #[trigger] fold_char(a@[j]) == fold_char(b@[j]),
        decreases n - i,
    {
        if fold_exec(a.get_char(i)) != fold_exec(b.get_char(i)) {
            return false;
        }
        i = i + 1;
    }
    true
}

proof fn lemma_view_push(h: Seq<(String, String)>, i: int)
    requires
        0 <= i < h.len(),
    ensures
        header_view(h.take(i + 1)) == header_view(h.take(i)).push((h[i].0@, h[i].1@)),
{
    assert(header_view(h.take(i + 1)) =~= header_view(h.take(i)).push((h[i].0@, h[i].1@)));
}

proof fn lemma_first_value_skip(h: Seq<(Seq<char>, Seq<char>)>, i: int, name: Seq<char>)
    requires
        0 <= i <= h.len(),
        forall|j: int| 0 <= j < i ==> !same_name(#[trigger] h[j].0, name),
    ensures
        first_value(h, name) == first_value(h.skip(i), name),
    decreases i,
{
    if i > 0 {
        assert(!same_name(h[0].0, name));
        let t = h.drop_first();
        assert forall|j: int| 0 <= j < i - 1 implies !same_name(#[trigger] t[j].0, name) by {
            assert(t[j] == h[j + 1]);
        }
        lemma_first_value_skip(t, i - 1, name);
        assert(t.skip(i - 1) =~= h.skip(i));
    } else {
        assert(h.skip(0) =~= h);
    }
}

/// The first value stored under `name` (names compared without regard to
/// ASCII case), as an owned string.
pub fn header_value(headers: &Vec<(String, String)>, name: &str) -> (r: Option<String>)
    ensures
        match r {
            Some(v) => first_value(header_view(headers@), name@) == Some(v@),
            None => first_value(header_view(headers@), name@) is None,
        },
{
    let ghost hv = header_view(headers@);
    let mut i: usize = 0;
    while i < headers.len()
        invariant
            i <= headers@.len(),
            hv == header_view(headers@),
            forall|j: int| 0 <= j < i ==> !same_name(#[trigger] hv[j].0, name@),
        decreases headers.len() - i,
    {
        if names_match(headers[i].0.as_str(), name) {
            proof {
                lemma_first_value_skip(hv, i as int, name@);
                assert(hv.skip(i as int)[0] == hv[i as int]);
            }
            return Some(headers[i].1.clone());
        }
        i = i + 1;
    }
    proof {
        lemma_first_value_skip(hv, i as int, name@);
    }
    None
}

/// Takes every entry named `name` out of the list, keeping the order of the rest.
pub fn remove_header(headers: &mut Vec<(String, String)>, name: &str)
    ensures
        header_view(final(headers)@) == without_header(header_view(old(headers)@), name@),
{
    let mut out: Vec<(String, String)> = Vec::new();
    let mut i: usize = 0;
    while i < headers.len()
        invariant
            i <= headers@.len(),
            header_view(out@) == without_header(header_view(headers@.take(i as int)), name@),
        decreases headers.len() - i,
    {
        proof {
            lemma_view_push(headers@, i as int);
            let tv = header_view(headers@.take(i as int + 1));
            assert(tv.drop_last() == header_view(headers@.take(i as int)));
        }
        if !names_match(headers[i].0.as_str(), name) {
            let k = headers[i].0.clone();
            let v = headers[i].1.clone();
            let ghost before = out@;
            out.push((k, v));
            proof {
                assert(header_view(out@) =~= header_view(before).push((headers@[i as int].0@, headers@[i as int].1@)));
            }
        }
        i = i + 1;
    }
    proof {
        assert(headers@.take(i as int) =~= headers@);
    }
    *headers = out;
}

/// Puts `name: value` at the end of the list in place of every entry with
/// that name, as a header map's `insert` does.
pub fn set_header(headers: &mut Vec<(String, String)>, name: &str, value: &str)
    ensures
        header_view(final(headers)@) == without_header(header_view(old(headers)@), name@).push((name@, value@)),
{
    remove_header(headers, name);
    let ghost before = headers@;
    headers.push((name.to_string(), value.to_string()));
    proof {
        assert(header_view(headers@) =~= header_view(before).push((name@, value@)));
    }
}

} // verus!

verus! {

/// A copy of a header list.
pub fn copy_headers(headers: &Vec<(String, String)>) -> (r: Vec<(String, String)>)
    ensures
        header_view(r@) == header_view(headers@),
{
    let mut out: Vec<(String, String)> = Vec::new();
    let mut i: usize = 0;
    while i < headers.len()
        invariant
            i <= headers@.len(),
            header_view(out@) == header_view(headers@.take(i as int)),
        decreases headers.len() - i,
    {
        proof {
            lemma_view_push(headers@, i as int);
        }
        let ghost before = out@;
        out.push((headers[i].0.clone(), headers[i].1.clone()));
        proof {
            assert(header_view(out@) =~= header_view(before).push((headers@[i as int].0@, headers@[i as int].1@)));
        }
        i = i + 1;
    }
    proof {
        assert(headers@.take(i as int) =~= headers@);
    }
    out
}

/// A copy of a byte sequence.
pub fn copy_bytes(b: &Vec<u8>) -> (r: Vec<u8>)
    ensures
        r@ == b@,
{
    let mut out: Vec<u8> = Vec::new();
    let mut i: usize = 0;
    while i < b.len()
        invariant
            i <= b@.len(),
            out@ == b@.take(i as int),
        decreases b.len() - i,
    {
        out.push(b[i]);
        assert(out@ =~= b@.take(i as int + 1));
        i = i + 1;
    }
    assert(b@.take(i as int) =~= b@);
    out
}

} // verus!
