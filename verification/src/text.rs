//! Character-level string utilities shared by the rest of the library.

use vstd::prelude::*;

verus! {

broadcast use vstd::string::group_string_axioms;

/// The characters of a string slice, in order.
pub fn chars_of(s: &str) -> (v: Vec<char>)
    ensures
        v@ == s@,
{
    let mut v: Vec<char> = Vec::new();
    for c in it: s.chars()
        invariant
            it.seq() == s@,
            v@ == it.seq().take(it.index() as int),
    {
        v.push(c);
    }
    v
}

/// Appends one character to a `String` (`String::push`).
#[verifier::external_body]
pub(crate) fn push_char(s: &mut String, c: char)
    ensures
        final(s)@ == old(s)@.push(c),
{
    s.push(c);
}

/// A `String` holding exactly the given characters.
pub fn string_from_chars(v: &[char]) -> (s: String)
    ensures
        s@ == v@,
{
    let mut s = String::new();
    let mut i: usize = 0;
    while i < v.len()
        invariant
            i <= v@.len(),
            s@ == v@.take(i as int),
        decreases v@.len() - i,
    {
        push_char(&mut s, v[i]);
        proof {
            assert(v@.take(i as int).push(v@[i as int]) =~= v@.take(i + 1));
        }
        i = i + 1;
    }
    proof {
        assert(v@.take(v@.len() as int) =~= v@);
    }
    s
}


// ---------------------------------------------------------------------
// Whitespace (the Unicode `White_Space` property, as `char::is_whitespace`)
// ---------------------------------------------------------------------

/// The Unicode `White_Space` code points.
pub open spec fn is_white_space(c: char) -> bool {
    let u = c as u32;
    ||| 0x09 <= u <= 0x0d
    ||| u == 0x20
    ||| u == 0x85
    ||| u == 0xa0
    ||| u == 0x1680
    ||| 0x2000 <= u <= 0x200a
    ||| u == 0x2028
    ||| u == 0x2029
    ||| u == 0x202f
    ||| u == 0x205f
    ||| u == 0x3000
}

/// Whether `c` is Unicode white space.
pub fn is_whitespace(c: char) -> (b: bool)
    ensures
        b == is_white_space(c),
{
    let u = c as u32;
    (0x09 <= u && u <= 0x0d) || u == 0x20 || u == 0x85 || u == 0xa0 || u == 0x1680 || (0x2000
        <= u && u <= 0x200a) || u == 0x2028 || u == 0x2029 || u == 0x202f || u == 0x205f || u
        == 0x3000
}

/// `s` without its leading white space.
pub open spec fn trim_start_spec(s: Seq<char>) -> Seq<char>
    decreases s.len(),
{
    if s.len() > 0 && is_white_space(s[0]) {
        trim_start_spec(s.drop_first())
    } else {
        s
    }
}

/// `s` without its trailing white space.
pub open spec fn trim_end_spec(s: Seq<char>) -> Seq<char>
    decreases s.len(),
{
    if s.len() > 0 && is_white_space(s.last()) {
        trim_end_spec(s.drop_last())
    } else {
        s
    }
}

/// `s` without leading and trailing white space (`str::trim`).
pub open spec fn trim_spec(s: Seq<char>) -> Seq<char> {
    trim_end_spec(trim_start_spec(s))
}

/// Number of leading white-space characters of `s`.
pub open spec fn leading_ws(s: Seq<char>) -> nat
    decreases s.len(),
{
    if s.len() > 0 && is_white_space(s[0]) {
        1 + leading_ws(s.drop_first())
    } else {
        0
    }
}

/// Number of trailing white-space characters of `s`.
pub open spec fn trailing_ws(s: Seq<char>) -> nat
    decreases s.len(),
{
    if s.len() > 0 && is_white_space(s.last()) {
        1 + trailing_ws(s.drop_last())
    } else {
        0
    }
}

pub proof fn lemma_trim_start(s: Seq<char>)
    ensures
        leading_ws(s) <= s.len(),
        trim_start_spec(s) == s.skip(leading_ws(s) as int),
        forall|i: int| 0 <= i < leading_ws(s) ==> is_white_space(#[trigger] s[i]),
        leading_ws(s) < s.len() ==> !is_white_space(s[leading_ws(s) as int]),
    decreases s.len(),
{
    if s.len() > 0 && is_white_space(s[0]) {
        lemma_trim_start(s.drop_first());
        assert(s.drop_first().skip(leading_ws(s.drop_first()) as int) =~= s.skip(
            leading_ws(s) as int,
        ));
        assert forall|i: int| 0 <= i < leading_ws(s) implies is_white_space(#[trigger] s[i]) by {
            if i > 0 {
                assert(s[i] == s.drop_first()[i - 1]);
            }
        }
        if leading_ws(s) < s.len() {
            assert(s[leading_ws(s) as int] == s.drop_first()[leading_ws(s.drop_first()) as int]);
        }
    } else {
        assert(s.skip(0) =~= s);
    }
}

pub proof fn lemma_trim_end(s: Seq<char>)
    ensures
        trailing_ws(s) <= s.len(),
        trim_end_spec(s) == s.take(s.len() - trailing_ws(s)),
        forall|i: int| s.len() - trailing_ws(s) <= i < s.len() ==> is_white_space(#[trigger] s[i]),
        trailing_ws(s) < s.len() ==> !is_white_space(s[s.len() - trailing_ws(s) - 1]),
    decreases s.len(),
{
    if s.len() > 0 && is_white_space(s.last()) {
        lemma_trim_end(s.drop_last());
        assert(s.drop_last().take(s.drop_last().len() - trailing_ws(s.drop_last())) =~= s.take(
            s.len() - trailing_ws(s),
        ));
        assert forall|i: int| s.len() - trailing_ws(s) <= i < s.len() implies is_white_space(
            #[trigger] s[i],
        ) by {
            if i < s.len() - 1 {
                assert(s[i] == s.drop_last()[i]);
            }
        }
        if trailing_ws(s) < s.len() {
            assert(s[s.len() - trailing_ws(s) - 1] == s.drop_last()[s.drop_last().len()
                - trailing_ws(s.drop_last()) - 1]);
        }
    } else {
        assert(s.take(s.len() as int) =~= s);
    }
}

/// The characters of `v` without leading and trailing white space.
pub fn trim_chars(v: &[char]) -> (r: Vec<char>)
    ensures
        r@ == trim_spec(v@),
{
    let n = v.len();
    let mut start: usize = 0;
    proof {
        lemma_trim_start(v@);
    }
    while start < n && is_whitespace(v[start])
        invariant
            n == v@.len(),
            start <= n,
            start <= leading_ws(v@),
            leading_ws(v@) <= n,
        decreases n - start,
    {
        proof {
            lemma_trim_start(v@);
            if start == leading_ws(v@) {
                assert(!is_white_space(v@[start as int]));
            }
        }
        start = start + 1;
    }
    proof {
        lemma_trim_start(v@);
        if start < leading_ws(v@) {
            assert(is_white_space(v@[start as int]));
        }
    }
    let ghost t = v@.skip(start as int);
    let mut end: usize = n;
    proof {
        lemma_trim_end(t);
    }
    while end > start && is_whitespace(v[end - 1])
        invariant
            n == v@.len(),
            start <= end <= n,
            t == v@.skip(start as int),
            n - end <= trailing_ws(t),
            trailing_ws(t) <= t.len(),
        decreases end,
    {
        proof {
            lemma_trim_end(t);
            if n - end == trailing_ws(t) {
                assert(t[t.len() - trailing_ws(t) - 1] == v@[end - 1]);
            }
        }
        end = end - 1;
    }
    proof {
        lemma_trim_end(t);
        if n - end < trailing_ws(t) {
            assert(t[t.len() - (n - end) - 1] == v@[end - 1]);
        }
        assert(t.take(t.len() - trailing_ws(t)) =~= v@.subrange(start as int, end as int));
    }
    let mut r: Vec<char> = Vec::new();
    let mut i: usize = start;
    while i < end
        invariant
            start <= i <= end <= n,
            n == v@.len(),
            r@ == v@.subrange(start as int, i as int),
        decreases end - i,
    {
        r.push(v[i]);
        proof {
            assert(v@.subrange(start as int, i as int).push(v@[i as int]) =~= v@.subrange(
                start as int,
                i + 1,
            ));
        }
        i = i + 1;
    }
    r
}

/// `s.trim()` as an owned `String`.
pub fn trim_str(s: &str) -> (r: String)
    ensures
        r@ == trim_spec(s@),
{
    let v = chars_of(s);
    let t = trim_chars(v.as_slice());
    string_from_chars(t.as_slice())
}


// ---------------------------------------------------------------------
// Splitting on white space and joining
// ---------------------------------------------------------------------

/// Left-to-right scan of `s`: the words completed so far and the word
/// being read.
pub open spec fn ws_scan(s: Seq<char>) -> (Seq<Seq<char>>, Seq<char>)
    decreases s.len(),
{
    if s.len() == 0 {
        (seq![], seq![])
    } else {
        let (words, cur) = ws_scan(s.drop_last());
        let c = s.last();
        if is_white_space(c) {
            if cur.len() > 0 {
                (words.push(cur), seq![])
            } else {
                (words, seq![])
            }
        } else {
            (words, cur.push(c))
        }
    }
}

/// The maximal runs of non-white-space characters of `s`, in order
/// (`str::split_whitespace`).
pub open spec fn split_whitespace_spec(s: Seq<char>) -> Seq<Seq<char>> {
    let (words, cur) = ws_scan(s);
    if cur.len() > 0 {
        words.push(cur)
    } else {
        words
    }
}

/// The pieces of `parts` with `sep` between neighbours.
pub open spec fn join_spec(parts: Seq<Seq<char>>, sep: Seq<char>) -> Seq<char>
    decreases parts.len(),
{
    if parts.len() == 0 {
        seq![]
    } else if parts.len() == 1 {
        parts[0]
    } else {
        join_spec(parts.drop_last(), sep) + sep + parts.last()
    }
}

/// `s` with its words separated by single spaces and no white space at
/// either end.
pub open spec fn collapse_whitespace_spec(s: Seq<char>) -> Seq<char> {
    join_spec(split_whitespace_spec(s), seq![' '])
}

/// A word of `split_whitespace`: not empty, and no white space in it.
pub open spec fn is_word(w: Seq<char>) -> bool {
    w.len() > 0 && forall|i: int| 0 <= i < w.len() ==> !is_white_space(#[trigger] w[i])
}

/// The pieces of a white-space scan are words, and the open piece holds no
/// white space.
proof fn lemma_ws_scan_words(s: Seq<char>)
    ensures
        forall|k: int| 0 <= k < ws_scan(s).0.len() ==> is_word(#[trigger] ws_scan(s).0[k]),
        forall|i: int| 0 <= i < ws_scan(s).1.len() ==> !is_white_space(#[trigger] ws_scan(s).1[i]),
    decreases s.len(),
{
    if s.len() > 0 {
        lemma_ws_scan_words(s.drop_last());
        let (words, cur) = ws_scan(s.drop_last());
        if !is_white_space(s.last()) {
            assert forall|i: int| 0 <= i < cur.push(s.last()).len() implies !is_white_space(
                #[trigger] cur.push(s.last())[i],
            ) by {
                if i < cur.len() {
                    assert(cur.push(s.last())[i] == cur[i]);
                }
            }
        }
    }
}

/// Scanning on through text without white space only extends the open
/// piece.
proof fn lemma_ws_scan_append(p: Seq<char>, q: Seq<char>)
    requires
        forall|i: int| 0 <= i < q.len() ==> !is_white_space(#[trigger] q[i]),
    ensures
        ws_scan(p + q) == (ws_scan(p).0, ws_scan(p).1 + q),
    decreases q.len(),
{
    if q.len() == 0 {
        assert(p + q =~= p);
        assert(ws_scan(p).1 + q =~= ws_scan(p).1);
    } else {
        lemma_ws_scan_append(p, q.drop_last());
        assert((p + q).drop_last() =~= p + q.drop_last());
        assert(!is_white_space(q.last()));
        assert((ws_scan(p).1 + q.drop_last()).push(q.last()) =~= ws_scan(p).1 + q);
    }
}

/// Scanning words joined by single spaces leaves all but the last word
/// closed and the last one open.
proof fn lemma_ws_scan_join(words: Seq<Seq<char>>)
    requires
        words.len() > 0,
        forall|k: int| 0 <= k < words.len() ==> is_word(#[trigger] words[k]),
    ensures
        ws_scan(join_spec(words, seq![' '])) == (words.drop_last(), words.last()),
    decreases words.len(),
{
    if words.len() == 1 {
        assert(is_word(words[0]));
        lemma_ws_scan_append(seq![], words[0]);
        assert(seq![] + words[0] =~= words[0]);
        assert(words.drop_last() =~= seq![]);
    } else {
        let front = words.drop_last();
        assert forall|k: int| 0 <= k < front.len() implies is_word(#[trigger] front[k]) by {
            assert(front[k] == words[k]);
        }
        lemma_ws_scan_join(front);
        let j = join_spec(front, seq![' ']);
        let js = j + seq![' '];
        assert(js.drop_last() =~= j);
        assert(is_white_space(js.last()));
        assert(is_word(front.last()));
        assert(front.drop_last().push(front.last()) =~= front);
        assert(ws_scan(js) == (front, Seq::<char>::empty()));
        assert(is_word(words.last()));
        lemma_ws_scan_append(js, words.last());
        assert(Seq::<char>::empty() + words.last() =~= words.last());
    }
}

/// Splitting words joined by single spaces gives the words back.
pub proof fn lemma_split_join_words(words: Seq<Seq<char>>)
    requires
        forall|k: int| 0 <= k < words.len() ==> is_word(#[trigger] words[k]),
    ensures
        split_whitespace_spec(join_spec(words, seq![' '])) == words,
{
    if words.len() > 0 {
        lemma_ws_scan_join(words);
        assert(is_word(words.last()));
        assert(words.drop_last().push(words.last()) =~= words);
    }
}

/// Collapsing white space twice is collapsing it once: collapsed text is
/// its words joined by single spaces.
pub proof fn lemma_collapse_whitespace_idempotent(s: Seq<char>)
    ensures
        collapse_whitespace_spec(collapse_whitespace_spec(s)) == collapse_whitespace_spec(s),
{
    lemma_ws_scan_words(s);
    let parts = split_whitespace_spec(s);
    let (words, cur) = ws_scan(s);
    assert forall|k: int| 0 <= k < parts.len() implies is_word(#[trigger] parts[k]) by {
        if k < words.len() {
            assert(parts[k] == words[k]);
        } else {
            assert(parts[k] == cur);
        }
    }
    lemma_split_join_words(parts);
}

/// The views of a sequence of character vectors.
pub open spec fn views_of(ws: Seq<Vec<char>>) -> Seq<Seq<char>> {
    ws.map_values(|w: Vec<char>| w@)
}

/// The words of `v`, split at white space.
pub fn split_whitespace(v: &[char]) -> (words: Vec<Vec<char>>)
    ensures
        views_of(words@) == split_whitespace_spec(v@),
{
    let mut words: Vec<Vec<char>> = Vec::new();
    let mut cur: Vec<char> = Vec::new();
    let mut i: usize = 0;
    while i < v.len()
        invariant
            i <= v@.len(),
            (views_of(words@), cur@) == ws_scan(v@.take(i as int)),
        decreases v@.len() - i,
    {
        let c = v[i];
        proof {
            assert(v@.take(i + 1).drop_last() =~= v@.take(i as int));
        }
        if is_whitespace(c) {
            if cur.len() > 0 {
                let ghost old_words = views_of(words@);
                let done = cur;
                words.push(done);
                cur = Vec::new();
                proof {
                    assert(views_of(words@) =~= old_words.push(done@));
                }
            } else {
                cur = Vec::new();
            }
        } else {
            cur.push(c);
        }
        i = i + 1;
    }
    proof {
        assert(v@.take(v@.len() as int) =~= v@);
    }
    if cur.len() > 0 {
        let ghost old_words = views_of(words@);
        let done = cur;
        words.push(done);
        proof {
            assert(views_of(words@) =~= old_words.push(done@));
        }
    }
    words
}

/// The words of `parts` joined with `sep`.
pub fn join_chars(parts: &Vec<Vec<char>>, sep: &[char]) -> (r: Vec<char>)
    ensures
        r@ == join_spec(views_of(parts@), sep@),
{
    let mut r: Vec<char> = Vec::new();
    let mut i: usize = 0;
    while i < parts.len()
        invariant
            i <= parts@.len(),
            r@ == join_spec(views_of(parts@).take(i as int), sep@),
        decreases parts@.len() - i,
    {
        let ghost pv = views_of(parts@);
        proof {
            assert(pv.take(i + 1).drop_last() =~= pv.take(i as int));
            assert(pv.take(i + 1).last() == parts@[i as int]@);
        }
        if i > 0 {
            let mut k: usize = 0;
            let ghost r0 = r@;
            while k < sep.len()
                invariant
                    k <= sep@.len(),
                    r@ == r0 + sep@.take(k as int),
                decreases sep@.len() - k,
            {
                r.push(sep[k]);
                proof {
                    assert(r0 + sep@.take(k + 1) =~= (r0 + sep@.take(k as int)).push(sep@[k as int]));
                }
                k = k + 1;
            }
            proof {
                assert(sep@.take(sep@.len() as int) =~= sep@);
            }
        } else {
            proof {
                assert(pv.take(1) =~= seq![pv[0]]);
            }
        }
        let part = &parts[i];
        let ghost r1 = r@;
        let mut k: usize = 0;
        while k < part.len()
            invariant
                k <= part@.len(),
                r@ == r1 + part@.take(k as int),
            decreases part@.len() - k,
        {
            r.push(part[k]);
            proof {
                assert(r1 + part@.take(k + 1) =~= (r1 + part@.take(k as int)).push(part@[k as int]));
            }
            k = k + 1;
        }
        proof {
            assert(part@.take(part@.len() as int) =~= part@);
            if i == 0 {
                assert(r@ =~= join_spec(pv.take(1), sep@));
            }
        }
        i = i + 1;
    }
    proof {
        assert(views_of(parts@).take(parts@.len() as int) =~= views_of(parts@));
    }
    r
}

/// `s` with runs of white space replaced by one space and the ends trimmed
/// (`s.split_whitespace().collect::<Vec<_>>().join(" ")`).
pub fn collapse_whitespace(v: &[char]) -> (r: Vec<char>)
    ensures
        r@ == collapse_whitespace_spec(v@),
{
    let words = split_whitespace(v);
    let sep = vec![' '];
    proof {
        assert(sep@ =~= seq![' ']);
    }
    join_chars(&words, sep.as_slice())
}


// ---------------------------------------------------------------------
// Prefixes and occurrences
// ---------------------------------------------------------------------

/// `needle` occurs in `hay` starting at index `i`.
pub open spec fn occurs_at(hay: Seq<char>, needle: Seq<char>, i: int) -> bool {
    0 <= i && i + needle.len() <= hay.len() && hay.subrange(i, i + needle.len()) == needle
}

/// `needle` occurs somewhere in `hay` (`str::contains`).
pub open spec fn contains_spec(hay: Seq<char>, needle: Seq<char>) -> bool {
    exists|i: int| occurs_at(hay, needle, i)
}

/// `hay` begins with `prefix` (`str::starts_with`).
pub open spec fn starts_with_spec(hay: Seq<char>, prefix: Seq<char>) -> bool {
    prefix.len() <= hay.len() && hay.take(prefix.len() as int) == prefix
}

/// Whether `needle` occurs in `hay` at index `i`.
pub fn occurs_at_exec(hay: &[char], needle: &[char], i: usize) -> (b: bool)
    ensures
        b == occurs_at(hay@, needle@, i as int),
{
    if i > hay.len() || needle.len() > hay.len() - i {
        return false;
    }
    let mut k: usize = 0;
    while k < needle.len()
        invariant
            i + needle@.len() <= hay@.len(),
            hay@.len() <= usize::MAX,
            k <= needle@.len(),
            forall|j: int| 0 <= j < k ==> hay@[i + j] == needle@[j],
        decreases needle@.len() - k,
    {
        if hay[i + k] != needle[k] {
            proof {
                assert(hay@.subrange(i as int, i + needle@.len())[k as int] != needle@[k as int]);
            }
            return false;
        }
        k = k + 1;
    }
    proof {
        assert(hay@.subrange(i as int, i + needle@.len()) =~= needle@);
    }
    true
}

/// Whether `hay` begins with `prefix`.
pub fn starts_with(hay: &[char], prefix: &[char]) -> (b: bool)
    ensures
        b == starts_with_spec(hay@, prefix@),
{
    let b = occurs_at_exec(hay, prefix, 0);
    proof {
        assert(hay@.subrange(0, prefix@.len() as int) =~= hay@.take(prefix@.len() as int));
    }
    b
}

/// The first index at which `needle` occurs in `hay` (`str::find`, counted
/// in characters).
pub fn find_chars(hay: &[char], needle: &[char]) -> (r: Option<usize>)
    ensures
        r is Some <==> contains_spec(hay@, needle@),
        r matches Some(i) ==> occurs_at(hay@, needle@, i as int) && forall|j: int|
            0 <= j < i ==> !occurs_at(hay@, needle@, j),
{
    let mut i: usize = 0;
    while i < hay.len()
        invariant
            i <= hay@.len(),
            forall|j: int| 0 <= j < i ==> !occurs_at(hay@, needle@, j),
        decreases hay@.len() - i,
    {
        if occurs_at_exec(hay, needle, i) {
            return Some(i);
        }
        i = i + 1;
    }
    if occurs_at_exec(hay, needle, i) {
        return Some(i);
    }
    proof {
        assert forall|j: int| !occurs_at(hay@, needle@, j) by {
            if 0 <= j <= i {
            } else if j > i {
                assert(j + needle@.len() > hay@.len());
            }
        }
    }
    None
}

/// The first index from `i` on at which `needle` occurs in `hay`.
pub open spec fn first_occurrence_from(hay: Seq<char>, needle: Seq<char>, i: int) -> Option<int>
    decreases hay.len() + 1 - i,
{
    if i < 0 || i > hay.len() {
        None
    } else if occurs_at(hay, needle, i) {
        Some(i)
    } else {
        first_occurrence_from(hay, needle, i + 1)
    }
}

/// The first index at which `needle` occurs in `hay`.
pub open spec fn first_occurrence(hay: Seq<char>, needle: Seq<char>) -> Option<int> {
    first_occurrence_from(hay, needle, 0)
}

proof fn lemma_first_occurrence_skip(hay: Seq<char>, needle: Seq<char>, i: int)
    requires
        0 <= i <= hay.len() + 1,
        forall|j: int| 0 <= j < i ==> !occurs_at(hay, needle, j),
    ensures
        first_occurrence(hay, needle) == first_occurrence_from(hay, needle, i),
    decreases i,
{
    if i > 0 {
        lemma_first_occurrence_skip(hay, needle, i - 1);
    }
}

/// The first index at which `needle` occurs in `hay`, in characters.
pub fn first_occurrence_exec(hay: &[char], needle: &[char]) -> (r: Option<usize>)
    ensures
        r matches Some(i) ==> first_occurrence(hay@, needle@) == Some(i as int) && occurs_at(
            hay@,
            needle@,
            i as int,
        ),
        r is None ==> first_occurrence(hay@, needle@) is None,
{
    let r = find_chars(hay, needle);
    proof {
        match r {
            Some(i) => {
                lemma_first_occurrence_skip(hay@, needle@, i as int);
            },
            None => {
                lemma_first_occurrence_skip(hay@, needle@, (hay@.len() + 1) as int);
            },
        }
    }
    r
}

/// Whether `needle` occurs in `hay`.
pub fn contains_chars(hay: &[char], needle: &[char]) -> (b: bool)
    ensures
        b == contains_spec(hay@, needle@),
{
    find_chars(hay, needle).is_some()
}

/// Whether `a` and `b` hold the same characters.
pub fn chars_eq(a: &[char], b: &[char]) -> (r: bool)
    ensures
        r == (a@ == b@),
{
    if a.len() != b.len() {
        return false;
    }
    let mut i: usize = 0;
    while i < a.len()
        invariant
            a@.len() == b@.len(),
            i <= a@.len(),
            forall|j: int| 0 <= j < i ==> a@[j] == b@[j],
        decreases a@.len() - i,
    {
        if a[i] != b[i] {
            return false;
        }
        i = i + 1;
    }
    proof {
        assert(a@ =~= b@);
    }
    true
}

/// Whether `c` occurs in `v`.
pub fn has_char(v: &[char], c: char) -> (b: bool)
    ensures
        b == v@.contains(c),
{
    let mut i: usize = 0;
    while i < v.len()
        invariant
            i <= v@.len(),
            forall|j: int| 0 <= j < i ==> v@[j] != c,
        decreases v@.len() - i,
    {
        if v[i] == c {
            return true;
        }
        i = i + 1;
    }
    false
}

// ---------------------------------------------------------------------
// Unicode case mapping (std)
// ---------------------------------------------------------------------

/// What `str::to_lowercase` returns for a string with characters `s`.
pub uninterp spec fn unicode_lowercase(s: Seq<char>) -> Seq<char>;

/// What `str::to_uppercase` returns for a string with characters `s`.
pub uninterp spec fn unicode_uppercase(s: Seq<char>) -> Seq<char>;

/// Lower-cases `s` with `str::to_lowercase`: the result is the name
/// `unicode_lowercase` applied to the characters of `s`; nothing more about
/// the Unicode case tables is stated.
#[verifier::external_body]
pub(crate) fn to_lowercase(s: &str) -> (r: String)
    ensures
        r@ == unicode_lowercase(s@),
{
    s.to_lowercase()
}

/// Upper-cases `s` with `str::to_uppercase`: the result is the name
/// `unicode_uppercase` applied to the characters of `s`; nothing more about
/// the Unicode case tables is stated.
#[verifier::external_body]
pub(crate) fn to_uppercase(s: &str) -> (r: String)
    ensures
        r@ == unicode_uppercase(s@),
{
    s.to_uppercase()
}

/// Lower-cased characters of `v`.
pub fn lowercase_chars(v: &[char]) -> (r: Vec<char>)
    ensures
        r@ == unicode_lowercase(v@),
{
    let s = string_from_chars(v);
    let l = to_lowercase(s.as_str());
    chars_of(l.as_str())
}

/// Upper-cased characters of `v`.
pub fn uppercase_chars(v: &[char]) -> (r: Vec<char>)
    ensures
        r@ == unicode_uppercase(v@),
{
    let s = string_from_chars(v);
    let u = to_uppercase(s.as_str());
    chars_of(u.as_str())
}

/// What `char::is_alphanumeric` returns for `c` (the Unicode `Alphabetic`
/// or `Numeric` properties).
pub uninterp spec fn unicode_alphanumeric(c: char) -> bool;

/// `char::is_alphanumeric`: the result is the name `unicode_alphanumeric`
/// applied to `c`; the Unicode property tables themselves are not stated.
#[verifier::external_body]
pub(crate) fn is_alphanumeric(c: char) -> (b: bool)
    ensures
        b == unicode_alphanumeric(c),
{
    c.is_alphanumeric()
}

/// Views of a sequence of `String`s.
pub open spec fn string_views(v: Seq<String>) -> Seq<Seq<char>> {
    v.map_values(|s: String| s@)
}

/// `String`s holding the given character vectors, in order.
pub fn strings_from(v: &Vec<Vec<char>>) -> (r: Vec<String>)
    ensures
        string_views(r@) == views_of(v@),
{
    let mut r: Vec<String> = Vec::new();
    let mut i: usize = 0;
    while i < v.len()
        invariant
            i <= v@.len(),
            string_views(r@) == views_of(v@).take(i as int),
        decreases v@.len() - i,
    {
        let s = string_from_chars(v[i].as_slice());
        let ghost r0 = r@;
        r.push(s);
        proof {
            assert(string_views(r@) =~= string_views(r0).push(s@));
            assert(views_of(v@).take(i + 1) =~= views_of(v@).take(i as int).push(v@[i as int]@));
        }
        i = i + 1;
    }
    proof {
        assert(views_of(v@).take(v@.len() as int) =~= views_of(v@));
    }
    r
}

// ---------------------------------------------------------------------
// Decimal integers (the `Display` and `FromStr` forms of std integers)
// ---------------------------------------------------------------------

/// The ASCII digit for `d < 10`.
pub open spec fn digit_char(d: nat) -> char {
    (d + 48) as char
}

/// Value of an ASCII digit character.
pub open spec fn digit_value(c: char) -> nat {
    (c as u32 - 48) as nat
}

/// `c` is an ASCII digit.
pub open spec fn is_digit(c: char) -> bool {
    '0' <= c <= '9'
}

/// Decimal digits of `n`, most significant first, without leading zeros.
pub open spec fn decimal_digits(n: nat) -> Seq<char>
    decreases n,
{
    if n < 10 {
        seq![digit_char(n)]
    } else {
        decimal_digits(n / 10).push(digit_char(n % 10))
    }
}

/// Decimal form of `i`, with a leading `-` when negative.
pub open spec fn decimal(i: int) -> Seq<char> {
    if i < 0 {
        seq!['-'] + decimal_digits((-i) as nat)
    } else {
        decimal_digits(i as nat)
    }
}

/// Value of a sequence of ASCII digits.
pub open spec fn digits_value(d: Seq<char>) -> nat
    decreases d.len(),
{
    if d.len() == 0 {
        0
    } else {
        digits_value(d.drop_last()) * 10 + digit_value(d.last())
    }
}

/// All characters of `d` are ASCII digits.
pub open spec fn all_digits(d: Seq<char>) -> bool {
    forall|i: int| 0 <= i < d.len() ==> is_digit(#[trigger] d[i])
}

/// The value of the decimal text `s` with an optional leading `+`, as the
/// unsigned integer types read it; `None` when `s` is not of that form.
pub open spec fn unsigned_decimal_value(s: Seq<char>) -> Option<nat> {
    let d = if s.len() > 0 && s[0] == '+' {
        s.drop_first()
    } else {
        s
    };
    if d.len() > 0 && all_digits(d) {
        Some(digits_value(d))
    } else {
        None
    }
}

/// The value of the decimal text `s` with an optional leading `+` or `-`,
/// as the signed integer types read it; `None` when `s` is not of that form.
pub open spec fn signed_decimal_value(s: Seq<char>) -> Option<int> {
    if s.len() > 0 && s[0] == '-' {
        let d = s.drop_first();
        if d.len() > 0 && all_digits(d) {
            Some(-(digits_value(d) as int))
        } else {
            None
        }
    } else {
        match unsigned_decimal_value(s) {
            Some(v) => Some(v as int),
            None => None,
        }
    }
}

/// `s.parse::<u64>()`: the value when `s` is an optional `+` followed by
/// one or more digits and the value fits.
pub open spec fn parse_u64_spec(s: Seq<char>) -> Option<u64> {
    match unsigned_decimal_value(s) {
        Some(v) => if v <= u64::MAX {
            Some(v as u64)
        } else {
            None
        },
        None => None,
    }
}

/// `s.parse::<i64>()`: the value when `s` is an optional sign followed by
/// one or more digits and the value fits.
pub open spec fn parse_i64_spec(s: Seq<char>) -> Option<i64> {
    match signed_decimal_value(s) {
        Some(v) => if i64::MIN <= v <= i64::MAX {
            Some(v as i64)
        } else {
            None
        },
        None => None,
    }
}

proof fn lemma_digits_value_prefix(d: Seq<char>, i: int)
    requires
        0 <= i <= d.len(),
    ensures
        digits_value(d.take(i)) <= digits_value(d),
    decreases d.len() - i,
{
    if i < d.len() {
        lemma_digits_value_prefix(d, i + 1);
        assert(d.take(i + 1).drop_last() =~= d.take(i));
    } else {
        assert(d.take(i) =~= d);
    }
}

/// Value of the digit string `d` when all are digits and it fits in `u64`.
fn digits_to_u64(d: &[char]) -> (r: Option<u64>)
    ensures
        r matches Some(v) ==> all_digits(d@) && v == digits_value(d@),
        r is None ==> !all_digits(d@) || digits_value(d@) > u64::MAX,
{
    let mut acc: u64 = 0;
    let mut i: usize = 0;
    while i < d.len()
        invariant
            i <= d@.len(),
            all_digits(d@.take(i as int)),
            acc == digits_value(d@.take(i as int)),
        decreases d@.len() - i,
    {
        let c = d[i];
        proof {
            assert(d@.take(i + 1).drop_last() =~= d@.take(i as int));
        }
        if !('0' <= c && c <= '9') {
            proof {
                assert(!is_digit(d@[i as int]));
            }
            return None;
        }
        let dv = (c as u32 - 48) as u64;
        if acc > (u64::MAX - dv) / 10 {
            proof {
                assert(digits_value(d@.take(i + 1)) == acc * 10 + dv);
                assert(acc * 10 + dv > u64::MAX) by (nonlinear_arith)
                    requires
                        acc > (u64::MAX - dv) / 10,
                        dv <= 9,
                ;
                lemma_digits_value_prefix(d@, i + 1);
            }
            return None;
        }
        proof {
            assert(acc * 10 + dv <= u64::MAX) by (nonlinear_arith)
                requires
                    acc <= (u64::MAX - dv) / 10,
                    dv <= 9,
            ;
        }
        acc = acc * 10 + dv;
        i = i + 1;
    }
    proof {
        assert(d@.take(d@.len() as int) =~= d@);
    }
    Some(acc)
}

/// `s.parse::<u64>()` over the characters of `s`.
pub fn parse_u64(s: &[char]) -> (r: Option<u64>)
    ensures
        r == parse_u64_spec(s@),
{
    let n = s.len();
    let start: usize = if n > 0 && s[0] == '+' {
        1
    } else {
        0
    };
    let d = &s[start..n];
    proof {
        assert(d@ == s@.subrange(start as int, n as int));
        if start == 1 {
            assert(d@ =~= s@.drop_first());
        } else {
            assert(d@ =~= s@);
        }
    }
    if d.len() == 0 {
        return None;
    }
    digits_to_u64(d)
}

/// `s.parse::<i64>()` over the characters of `s`.
pub fn parse_i64(s: &[char]) -> (r: Option<i64>)
    ensures
        r == parse_i64_spec(s@),
{
    let n = s.len();
    if n > 0 && s[0] == '-' {
        let d = &s[1..n];
        proof {
            assert(d@ =~= s@.drop_first());
        }
        if d.len() == 0 {
            return None;
        }
        match digits_to_u64(d) {
            Some(m) => {
                if m <= 9223372036854775807 {
                    Some(-(m as i64))
                } else if m == 9223372036854775808 {
                    Some(i64::MIN)
                } else {
                    None
                }
            },
            None => None,
        }
    } else {
        match parse_u64(s) {
            Some(m) => {
                if m <= 9223372036854775807 {
                    Some(m as i64)
                } else {
                    None
                }
            },
            None => {
                proof {
                    if unsigned_decimal_value(s@) is Some {
                        assert(unsigned_decimal_value(s@)->0 > u64::MAX);
                    }
                }
                None
            },
        }
    }
}

proof fn lemma_decimal_digits_len(n: nat)
    ensures
        decimal_digits(n).len() >= 1,
        n < 10 ==> decimal_digits(n).len() == 1,
    decreases n,
{
    if n >= 10 {
        lemma_decimal_digits_len(n / 10);
    }
}

/// Appends the decimal digits of `n` to `out`.
fn push_decimal_digits(out: &mut Vec<char>, n: u64)
    ensures
        final(out)@ == old(out)@ + decimal_digits(n as nat),
    decreases n,
{
    if n >= 10 {
        push_decimal_digits(out, n / 10);
    }
    let d = (n % 10) as u32 + 48;
    let c = char_from_digit(d);
    proof {
        if n >= 10 {
            assert(old(out)@ + decimal_digits(n as nat) =~= (old(out)@ + decimal_digits(
                (n / 10) as nat,
            )).push(digit_char((n % 10) as nat)));
        } else {
            assert(old(out)@ + decimal_digits(n as nat) =~= old(out)@.push(
                digit_char(n as nat),
            ));
        }
    }
    out.push(c);
}

/// The ASCII digit character with code `d`.
fn char_from_digit(d: u32) -> (c: char)
    requires
        48 <= d <= 57,
    ensures
        c == (d as char),
        c as u32 == d,
{
    if d == 48 {
        '0'
    } else if d == 49 {
        '1'
    } else if d == 50 {
        '2'
    } else if d == 51 {
        '3'
    } else if d == 52 {
        '4'
    } else if d == 53 {
        '5'
    } else if d == 54 {
        '6'
    } else if d == 55 {
        '7'
    } else if d == 56 {
        '8'
    } else {
        '9'
    }
}

/// Decimal characters of `n` (`n.to_string()`).
pub fn u64_decimal(n: u64) -> (r: Vec<char>)
    ensures
        r@ == decimal(n as int),
{
    let mut out: Vec<char> = Vec::new();
    push_decimal_digits(&mut out, n);
    proof {
        assert(out@ =~= decimal_digits(n as nat));
    }
    out
}

/// Decimal characters of `i` (`i.to_string()`).
pub fn i64_decimal(i: i64) -> (r: Vec<char>)
    ensures
        r@ == decimal(i as int),
{
    let mut out: Vec<char> = Vec::new();
    if i < 0 {
        out.push('-');
        let m: u64 = if i == i64::MIN {
            9223372036854775808
        } else {
            (-i) as u64
        };
        push_decimal_digits(&mut out, m);
        proof {
            assert(out@ =~= seq!['-'] + decimal_digits((-i) as nat));
        }
    } else {
        push_decimal_digits(&mut out, i as u64);
        proof {
            assert(out@ =~= decimal_digits(i as nat));
        }
    }
    out
}

/// Appends the characters of `b` to `a`.
pub fn append_chars(a: &mut Vec<char>, b: &[char])
    ensures
        final(a)@ == old(a)@ + b@,
{
    let mut i: usize = 0;
    while i < b.len()
        invariant
            i <= b@.len(),
            a@ == old(a)@ + b@.take(i as int),
        decreases b@.len() - i,
    {
        a.push(b[i]);
        proof {
            assert(old(a)@ + b@.take(i + 1) =~= (old(a)@ + b@.take(i as int)).push(b@[i as int]));
        }
        i = i + 1;
    }
    proof {
        assert(b@.take(b@.len() as int) =~= b@);
    }
}

/// Appends the characters of `s` to `a`.
pub fn append_str(a: &mut Vec<char>, s: &str)
    ensures
        final(a)@ == old(a)@ + s@,
{
    let v = chars_of(s);
    append_chars(a, v.as_slice());
}


// ---------------------------------------------------------------------
// UTF-8 length (`str::len`)
// ---------------------------------------------------------------------

/// Bytes in the UTF-8 encoding of `c`.
pub open spec fn utf8_width(c: char) -> nat {
    if (c as u32) <= 0x7F {
        1
    } else if (c as u32) <= 0x7FF {
        2
    } else if (c as u32) <= 0xFFFF {
        3
    } else {
        4
    }
}

/// Encoding one more character adds its width.
pub proof fn lemma_encode_utf8_push(s: Seq<char>, c: char)
    ensures
        vstd::utf8::encode_utf8(s.push(c)).len() == vstd::utf8::encode_utf8(s).len() + utf8_width(c),
    decreases s.len(),
{
    vstd::utf8::char_is_scalar(c);
    if s.len() == 0 {
        assert(s.push(c).drop_first() =~= Seq::<char>::empty());
        assert(s.push(c)[0] == c);
        assert(vstd::utf8::encode_utf8(Seq::<char>::empty()).len() == 0);
        assert(vstd::utf8::encode_scalar(c as u32).len() == utf8_width(c));
    } else {
        assert(s.push(c).drop_first() =~= s.drop_first().push(c));
        assert(s.push(c)[0] == s[0]);
        lemma_encode_utf8_push(s.drop_first(), c);
    }
}

/// Whether the UTF-8 encoding of `v` (what `str::len` counts) is longer
/// than `limit` bytes.
pub fn utf8_len_exceeds(v: &[char], limit: u32) -> (b: bool)
    ensures
        b == (vstd::utf8::encode_utf8(v@).len() > limit),
{
    let cap: u64 = limit as u64 + 1;
    let mut acc: u64 = 0;
    let mut i: usize = 0;
    while i < v.len()
        invariant
            i <= v@.len(),
            cap == limit + 1,
            acc == if vstd::utf8::encode_utf8(v@.take(i as int)).len() < cap {
                vstd::utf8::encode_utf8(v@.take(i as int)).len()
            } else {
                cap as nat
            },
        decreases v@.len() - i,
    {
        let c = v[i];
        let w: u64 = if (c as u32) <= 0x7F {
            1
        } else if (c as u32) <= 0x7FF {
            2
        } else if (c as u32) <= 0xFFFF {
            3
        } else {
            4
        };
        proof {
            assert(v@.take(i as int).push(c) =~= v@.take(i + 1));
            lemma_encode_utf8_push(v@.take(i as int), c);
        }
        acc = if acc + w < cap {
            acc + w
        } else {
            cap
        };
        i = i + 1;
    }
    proof {
        assert(v@.take(v@.len() as int) =~= v@);
    }
    acc >= cap
}

} // verus!
