//! What handlers read from request headers.

use vstd::prelude::*;
use crate::text::{chars_of, string_from_chars, trim_chars, trim_spec, contains_spec, find_chars};

verus! {

broadcast use vstd::string::group_string_axioms;

/// The text before the first `,` of `s` (all of `s` without one).
pub open spec fn first_segment(s: Seq<char>) -> Seq<char> {
    match s.index_of_first(',') {
        Some(i) => s.take(i),
        None => s,
    }
}

/// The client address of a request: the first address of a readable
/// `X-Forwarded-For` header (trimmed), else a readable `X-Real-IP`
/// header, else the peer address. A header is `None` when absent and
/// `Some(None)` when present but not readable text.
pub open spec fn client_ip_spec(
    forwarded_for: Option<Option<Seq<char>>>,
    real_ip: Option<Option<Seq<char>>>,
    peer_ip: Seq<char>,
) -> Seq<char> {
    match forwarded_for {
        Some(Some(f)) => trim_spec(first_segment(f)),
        _ => match real_ip {
            Some(Some(r)) => r,
            _ => peer_ip,
        },
    }
}

/// The text of a header that may be absent or unreadable.
pub open spec fn header_text(h: Option<Option<String>>) -> Option<Option<Seq<char>>> {
    match h {
        Some(Some(s)) => Some(Some(s@)),
        Some(None) => Some(None),
        None => None,
    }
}

fn first_segment_exec(s: &str) -> (r: Vec<char>)
    ensures
        r@ == first_segment(s@),
{
    let v = chars_of(s);
    let mut k: usize = 0;
    while k < v.len()
        invariant
            k <= v@.len(),
            v@ == s@,
            forall|j: int| 0 <= j < k ==> v@[j] != ',',
        decreases v@.len() - k,
    {
        if v[k] == ',' {
            proof {
                v@.index_of_first_ensures(',');
                assert(v@.contains(','));
                let f = v@.index_of_first(',')->0;
                assert(f == k);
                assert(v@.subrange(0, k as int) =~= v@.take(k as int));
            }
            let head = &v.as_slice()[0..k];
            proof {
                assert(head@ =~= v@.subrange(0, k as int));
            }
            let mut out: Vec<char> = Vec::new();
            crate::text::append_chars(&mut out, head);
            return out;
        }
        k = k + 1;
    }
    proof {
        v@.index_of_first_ensures(',');
        assert(!v@.contains(','));
    }
    v
}

/// The address a request came from.
pub fn client_ip(
    forwarded_for: Option<Option<String>>,
    real_ip: Option<Option<String>>,
    peer_ip: String,
) -> (r: String)
    ensures
        r@ == client_ip_spec(header_text(forwarded_for), header_text(real_ip), peer_ip@),
{
    match forwarded_for {
        Some(Some(f)) => {
            let seg = first_segment_exec(f.as_str());
            let t = trim_chars(seg.as_slice());
            return string_from_chars(t.as_slice());
        },
        _ => {},
    }
    match real_ip {
        Some(Some(r)) => r,
        _ => peer_ip,
    }
}

/// The `Accept` header names every required type.
pub open spec fn accepts_all(accept: Seq<char>, required: Seq<Seq<char>>) -> bool {
    forall|i: int| 0 <= i < required.len() ==> contains_spec(accept, #[trigger] required[i])
}

/// The texts of the required types.
pub open spec fn texts_of(required: Seq<&str>) -> Seq<Seq<char>> {
    required.map_values(|s: &str| s@)
}

/// The `Accept` value a request to the MCP endpoint is served with: the
/// request's own when it is readable and names every required type, else
/// `fallback`.
pub fn effective_accept(accept: Option<&str>, required: &Vec<&str>, fallback: &str) -> (r: String)
    ensures
        ({
            let req = texts_of(required@);
            match accept {
                Some(a) => if accepts_all(a@, req) {
                    r@ == a@
                } else {
                    r@ == fallback@
                },
                None => r@ == fallback@,
            }
        }),
{
    let ghost req = texts_of(required@);
    match accept {
        Some(a) => {
            let av = chars_of(a);
            let mut ok = true;
            let mut i: usize = 0;
            while i < required.len()
                invariant
                    i <= required@.len(),
                    av@ == a@,
                    req == texts_of(required@),
                    ok <==> (forall|j: int| 0 <= j < i ==> contains_spec(a@, #[trigger] req[j])),
                decreases required@.len() - i,
            {
                let m = chars_of(required[i]);
                let found = find_chars(av.as_slice(), m.as_slice()).is_some();
                proof {
                    assert(req[i as int] == m@);
                    if ok && found {
                        assert forall|j: int| 0 <= j < i + 1 implies contains_spec(a@, #[trigger] req[j]) by {
                            if j < i {
                            } else {
                                assert(req[j] == m@);
                            }
                        }
                    }
                }
                ok = ok && found;
                i = i + 1;
            }
            proof {
                assert(ok == accepts_all(a@, req));
            }
            if ok {
                a.to_owned()
            } else {
                fallback.to_owned()
            }
        },
        None => fallback.to_owned(),
    }
}

} // verus!
