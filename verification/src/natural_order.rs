//! Natural ordering of names such as `1.Intro`, `2.Setup`, `13.Advanced`:
//! a leading number before the first `.` orders numerically, names without
//! one come last.

use vstd::prelude::*;
use crate::text::{chars_of, first_occurrence, first_occurrence_exec, parse_i64, parse_i64_spec};
use vstd::string::StrSliceExecFns;

verus! {

/// The numeric prefix of `name` and the rest after the first `.`; names
/// without a parsable prefix get `i64::MAX` and keep their whole text.
pub open spec fn name_prefix_spec(name: Seq<char>) -> (i64, Seq<char>) {
    match first_occurrence(name, seq!['.']) {
        Some(d) => match parse_i64_spec(name.take(d)) {
            Some(n) => (n, name.skip(d + 1)),
            None => (i64::MAX, name),
        },
        None => (i64::MAX, name),
    }
}

/// Lexicographic order of character sequences by code point: negative,
/// zero or positive as `a` comes before, equals, or comes after `b` (the
/// order `str::cmp` gives, UTF-8 preserving code point order).
pub open spec fn text_order(a: Seq<char>, b: Seq<char>) -> int
    decreases a.len(),
{
    if a.len() == 0 && b.len() == 0 {
        0
    } else if a.len() == 0 {
        -1
    } else if b.len() == 0 {
        1
    } else if a[0] < b[0] {
        -1
    } else if a[0] > b[0] {
        1
    } else {
        text_order(a.drop_first(), b.drop_first())
    }
}

/// Natural order of two names: by numeric prefix, then by the rest of the
/// text.
pub open spec fn natural_order_spec(a: Seq<char>, b: Seq<char>) -> int {
    let (na, ra) = name_prefix_spec(a);
    let (nb, rb) = name_prefix_spec(b);
    if na < nb {
        -1
    } else if na > nb {
        1
    } else {
        text_order(ra, rb)
    }
}

pub proof fn lemma_text_order_sign(a: Seq<char>, b: Seq<char>)
    ensures
        -1 <= text_order(a, b) <= 1,
        text_order(a, b) == -text_order(b, a),
        text_order(a, b) == 0 <==> a == b,
    decreases a.len(),
{
    if a.len() > 0 && b.len() > 0 && a[0] == b[0] {
        lemma_text_order_sign(a.drop_first(), b.drop_first());
        if a.drop_first() == b.drop_first() {
            assert(a =~= seq![a[0]] + a.drop_first());
            assert(b =~= seq![b[0]] + b.drop_first());
        }
    } else if a.len() > 0 && b.len() > 0 {
        assert(a[0] != b[0]);
    } else if a.len() == 0 && b.len() == 0 {
        assert(a =~= b);
    }
}

pub proof fn lemma_text_order_transitive(a: Seq<char>, b: Seq<char>, c: Seq<char>)
    requires
        text_order(a, b) < 0,
        text_order(b, c) < 0,
    ensures
        text_order(a, c) < 0,
    decreases a.len(),
{
    if a.len() > 0 && b.len() > 0 && c.len() > 0 && a[0] == b[0] && b[0] == c[0] {
        lemma_text_order_transitive(a.drop_first(), b.drop_first(), c.drop_first());
    }
}

pub proof fn lemma_natural_order(a: Seq<char>, b: Seq<char>, c: Seq<char>)
    ensures
        -1 <= natural_order_spec(a, b) <= 1,
        natural_order_spec(a, b) == -natural_order_spec(b, a),
        natural_order_spec(a, b) == 0 <==> name_prefix_spec(a) == name_prefix_spec(b),
        natural_order_spec(a, b) < 0 && natural_order_spec(b, c) < 0 ==> natural_order_spec(a, c)
            < 0,
        natural_order_spec(a, b) == 0 && natural_order_spec(b, c) < 0 ==> natural_order_spec(a, c)
            < 0,
        natural_order_spec(a, b) < 0 && natural_order_spec(b, c) == 0 ==> natural_order_spec(a, c)
            < 0,
        natural_order_spec(a, b) == 0 && natural_order_spec(b, c) == 0 ==> natural_order_spec(a, c)
            == 0,
{
    let (na, ra) = name_prefix_spec(a);
    let (nb, rb) = name_prefix_spec(b);
    let (nc, rc) = name_prefix_spec(c);
    lemma_text_order_sign(ra, rb);
    lemma_text_order_sign(rb, rc);
    lemma_text_order_sign(ra, rc);
    if text_order(ra, rb) < 0 && text_order(rb, rc) < 0 {
        lemma_text_order_transitive(ra, rb, rc);
    }
}

/// Code-point order is lexicographic: where two texts first differ, the
/// smaller character decides, whatever their lengths; a proper prefix
/// comes first.
pub proof fn lemma_text_order_lexicographic(a: Seq<char>, b: Seq<char>, k: int)
    requires
        0 <= k <= a.len(),
        k <= b.len(),
        a.take(k) == b.take(k),
    ensures
        k < a.len() && k < b.len() && a[k] < b[k] ==> text_order(a, b) < 0,
        k < a.len() && k < b.len() && a[k] > b[k] ==> text_order(a, b) > 0,
        k == a.len() && k < b.len() ==> text_order(a, b) < 0,
    decreases k,
{
    if k > 0 {
        assert(a.take(k)[0] == a[0]);
        assert(b.take(k)[0] == b[0]);
        assert(a[0] == b[0]);
        assert(a.drop_first().take(k - 1) =~= a.take(k).drop_first());
        assert(b.drop_first().take(k - 1) =~= b.take(k).drop_first());
        lemma_text_order_lexicographic(a.drop_first(), b.drop_first(), k - 1);
        if k < a.len() {
            assert(a.drop_first()[k - 1] == a[k]);
        }
        if k < b.len() {
            assert(b.drop_first()[k - 1] == b[k]);
        }
    }
}

/// Names order first by their numeric prefix; names with the same prefix
/// order by the code points of their rests, decided at the first place the
/// rests differ, whatever their lengths (so `Apple` lists before `Car`).
pub proof fn lemma_natural_order_meaning(a: Seq<char>, b: Seq<char>, k: int)
    ensures
        name_prefix_spec(a).0 < name_prefix_spec(b).0 ==> natural_order_spec(a, b) < 0,
        ({
            let ra = name_prefix_spec(a).1;
            let rb = name_prefix_spec(b).1;
            name_prefix_spec(a).0 == name_prefix_spec(b).0 && 0 <= k < ra.len() && k < rb.len()
                && ra.take(k) == rb.take(k) && ra[k] < rb[k] ==> natural_order_spec(a, b) < 0
        }),
        ({
            let ra = name_prefix_spec(a).1;
            let rb = name_prefix_spec(b).1;
            name_prefix_spec(a).0 == name_prefix_spec(b).0 && k == ra.len() && k < rb.len()
                && ra == rb.take(k) ==> natural_order_spec(a, b) < 0
        }),
{
    let ra = name_prefix_spec(a).1;
    let rb = name_prefix_spec(b).1;
    if 0 <= k <= ra.len() && k <= rb.len() && ra.take(k) == rb.take(k) {
        lemma_text_order_lexicographic(ra, rb, k);
    }
    if k == ra.len() && k < rb.len() && ra == rb.take(k) {
        assert(ra.take(k) =~= ra);
        lemma_text_order_lexicographic(ra, rb, k);
    }
}

/// Splits `name` at its first `.` into a numeric prefix and the rest; a
/// name without a parsable number before its first `.` yields
/// `(i64::MAX, name)`, so such names sort after numbered ones.
pub fn parse_name_prefix(name: &str) -> (r: (i64, &str))
    ensures
        (r.0, r.1@) == name_prefix_spec(name@),
{
    let v = chars_of(name);
    let dot = vec!['.'];
    proof {
        assert(dot@ =~= seq!['.']);
    }
    match first_occurrence_exec(v.as_slice(), dot.as_slice()) {
        Some(d) => {
            let prefix = &v.as_slice()[0..d];
            proof {
                assert(prefix@ =~= name@.take(d as int));
            }
            match parse_i64(prefix) {
                Some(num) => {
                    let n = name.unicode_len();
                    let rest = name.substring_char(d + 1, n);
                    proof {
                        assert(rest@ =~= name@.skip(d + 1));
                    }
                    (num, rest)
                },
                None => (i64::MAX, name),
            }
        },
        None => (i64::MAX, name),
    }
}

/// Code-point order of two character sequences (see [`text_order`]).
fn text_order_exec(a: &[char], b: &[char]) -> (r: i8)
    ensures
        r == text_order(a@, b@),
{
    let mut i: usize = 0;
    proof {
        assert(a@.skip(0) =~= a@);
        assert(b@.skip(0) =~= b@);
    }
    while i < a.len() && i < b.len()
        invariant
            i <= a@.len(),
            i <= b@.len(),
            a@.subrange(0, i as int) == b@.subrange(0, i as int),
            text_order(a@, b@) == text_order(a@.skip(i as int), b@.skip(i as int)),
        decreases a@.len() - i,
    {
        proof {
            assert(a@.skip(i as int)[0] == a@[i as int]);
            assert(b@.skip(i as int)[0] == b@[i as int]);
            assert(a@.skip(i as int).drop_first() =~= a@.skip(i + 1));
            assert(b@.skip(i as int).drop_first() =~= b@.skip(i + 1));
        }
        if a[i] < b[i] {
            return -1;
        }
        if a[i] > b[i] {
            return 1;
        }
        proof {
            assert(a@.subrange(0, i + 1) =~= a@.subrange(0, i as int).push(a@[i as int]));
            assert(b@.subrange(0, i + 1) =~= b@.subrange(0, i as int).push(b@[i as int]));
        }
        i = i + 1;
    }
    if i == a.len() && i == b.len() {
        0
    } else if i == a.len() {
        -1
    } else {
        1
    }
}

/// Natural order of two names as `-1`, `0` or `1` (see
/// [`natural_order_spec`]).
pub fn natural_order(a: &str, b: &str) -> (r: i8)
    ensures
        r == natural_order_spec(a@, b@),
{
    let (num_a, rest_a) = parse_name_prefix(a);
    let (num_b, rest_b) = parse_name_prefix(b);
    if num_a < num_b {
        -1
    } else if num_a > num_b {
        1
    } else {
        let ra = chars_of(rest_a);
        let rb = chars_of(rest_b);
        text_order_exec(ra.as_slice(), rb.as_slice())
    }
}

/// Natural sort comparison: by numeric prefix, then by the rest of the
/// name (`"2.b" < "10.a" < "abc"`).
pub fn natural_sort_cmp(a: &str, b: &str) -> (r: std::cmp::Ordering)
    ensures
        r == std::cmp::Ordering::Less <==> natural_order_spec(a@, b@) < 0,
        r == std::cmp::Ordering::Equal <==> natural_order_spec(a@, b@) == 0,
        r == std::cmp::Ordering::Greater <==> natural_order_spec(a@, b@) > 0,
{
    let o = natural_order(a, b);
    if o < 0 {
        std::cmp::Ordering::Less
    } else if o == 0 {
        std::cmp::Ordering::Equal
    } else {
        std::cmp::Ordering::Greater
    }
}

} // verus!
