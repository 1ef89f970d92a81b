//! Blog search: LIKE patterns, plain-text excerpts and the paging of a
//! search request.

use vstd::prelude::*;
use crate::text::{
    chars_of, collapse_whitespace, collapse_whitespace_spec, first_occurrence,
    first_occurrence_exec, lowercase_chars, split_whitespace, split_whitespace_spec,
    string_from_chars, trim_chars, trim_spec, unicode_lowercase, append_str, append_chars,
    ws_scan, join_spec,
};

verus! {

/// Search over blogs.
pub struct SearchRepository;

/// `s` with `\`, `%` and `_` each preceded by a `\`.
pub open spec fn escape_like_spec(s: Seq<char>) -> Seq<char>
    decreases s.len(),
{
    if s.len() == 0 {
        seq![]
    } else {
        let c = s.last();
        let prev = escape_like_spec(s.drop_last());
        if c == '\\' || c == '%' || c == '_' {
            prev.push('\\').push(c)
        } else {
            prev.push(c)
        }
    }
}

/// The `ILIKE` pattern matching any text that contains `keyword`.
pub open spec fn fuzzy_pattern_spec(keyword: Seq<char>) -> Seq<char> {
    seq!['%'] + escape_like_spec(keyword) + seq!['%']
}

/// Left-to-right scan dropping `<...>` tags: the kept text and whether the
/// scan is inside a tag.
pub open spec fn html_scan(s: Seq<char>) -> (Seq<char>, bool)
    decreases s.len(),
{
    if s.len() == 0 {
        (seq![], false)
    } else {
        let (out, in_tag) = html_scan(s.drop_last());
        let c = s.last();
        if c == '<' {
            (out, true)
        } else if c == '>' {
            (out, false)
        } else if !in_tag {
            (out.push(c), in_tag)
        } else {
            (out, in_tag)
        }
    }
}

/// `html` without its tags, with white space collapsed to single spaces.
pub open spec fn strip_html_spec(html: Seq<char>) -> Seq<char> {
    collapse_whitespace_spec(html_scan(html).0)
}

/// The earlier of a previous best position and a new one (the earlier
/// keyword wins ties).
pub open spec fn earlier(prev: Option<int>, p: Option<int>) -> Option<int> {
    match p {
        None => prev,
        Some(q) => match prev {
            None => Some(q),
            Some(b) => if q < b {
                Some(q)
            } else {
                Some(b)
            },
        },
    }
}

/// The first position in `lower` of any of `keywords` (each lower-cased).
pub open spec fn best_keyword_position(lower: Seq<char>, keywords: Seq<Seq<char>>) -> Option<int>
    decreases keywords.len(),
{
    if keywords.len() == 0 {
        None
    } else {
        earlier(
            best_keyword_position(lower, keywords.drop_last()),
            first_occurrence(lower, unicode_lowercase(keywords.last())),
        )
    }
}

/// Where the excerpt of `content` for `keyword` is centred, if any keyword
/// word occurs (positions count characters of the lower-cased plain text).
pub open spec fn excerpt_position(content: Seq<char>, keyword: Seq<char>) -> Option<int> {
    let plain = strip_html_spec(content);
    best_keyword_position(unicode_lowercase(plain), split_whitespace_spec(keyword))
}

pub open spec fn min_int(a: int, b: int) -> int {
    if a <= b {
        a
    } else {
        b
    }
}

pub open spec fn max_int(a: int, b: int) -> int {
    if a >= b {
        a
    } else {
        b
    }
}

/// The window `(start, end)` of the excerpt of a text of `n` characters.
pub open spec fn excerpt_window(n: int, best: Option<int>, max_length: int) -> (int, int) {
    let m = max_int(max_length, 1);
    match best {
        Some(pos) => {
            let start = max_int(pos - min_int(50, m / 2), 0);
            (start, min_int(start + m, n))
        },
        None => (0, min_int(m, n)),
    }
}

/// The excerpt of `plain`: the window's text, trimmed, with `...` where
/// text was cut at either end.
pub open spec fn excerpt_text(plain: Seq<char>, best: Option<int>, max_length: int) -> Seq<char> {
    let (start, end) = excerpt_window(plain.len() as int, best, max_length);
    (if start > 0 {
        "..."@
    } else {
        seq![]
    }) + trim_spec(plain.subrange(start, end)) + (if end < plain.len() {
        "..."@
    } else {
        seq![]
    })
}

/// The excerpt shown for `content` in search results for `keyword`.
pub open spec fn generate_excerpt_spec(content: Seq<char>, keyword: Seq<char>, max_length: int) -> Option<
    Seq<char>,
> {
    if content.len() == 0 {
        None
    } else {
        let t = excerpt_text(strip_html_spec(content), excerpt_position(content, keyword), max_length);
        if t.len() == 0 {
            None
        } else {
            Some(t)
        }
    }
}

/// The excerpt can be cut without running past the machine word or past
/// the end of the text (the lower-cased text can be longer than the text it
/// came from).
pub open spec fn excerpt_in_bounds(content: Seq<char>, keyword: Seq<char>, max_length: int) -> bool {
    content.len() > 0 ==> match excerpt_position(content, keyword) {
        None => true,
        Some(pos) => {
            let m = max_int(max_length, 1);
            let start = max_int(pos - min_int(50, m / 2), 0);
            start + m <= usize::MAX && start <= strip_html_spec(content).len()
        },
    }
}

/// The first position of any of the words in `lower`.
fn best_position(lower: &Vec<char>, words: &Vec<Vec<char>>) -> (r: Option<usize>)
    ensures
        match r {
            Some(p) => best_keyword_position(lower@, crate::text::views_of(words@)) == Some(
                p as int,
            ),
            None => best_keyword_position(lower@, crate::text::views_of(words@)) is None,
        },
{
    let ghost wv = crate::text::views_of(words@);
    let mut best: Option<usize> = None;
    let mut i: usize = 0;
    while i < words.len()
        invariant
            i <= words@.len(),
            wv == crate::text::views_of(words@),
            match best {
                Some(p) => best_keyword_position(lower@, wv.take(i as int)) == Some(p as int),
                None => best_keyword_position(lower@, wv.take(i as int)) is None,
            },
        decreases words@.len() - i,
    {
        proof {
            assert(wv.take(i + 1).drop_last() =~= wv.take(i as int));
            assert(wv.take(i + 1).last() == words@[i as int]@);
        }
        let kw = lowercase_chars(words[i].as_slice());
        let p = first_occurrence_exec(lower.as_slice(), kw.as_slice());
        match p {
            Some(q) => {
                match best {
                    None => {
                        best = Some(q);
                    },
                    Some(b) => {
                        if q < b {
                            best = Some(q);
                        }
                    },
                }
            },
            None => {},
        }
        i = i + 1;
    }
    proof {
        assert(wv.take(words@.len() as int) =~= wv);
    }
    best
}

/// The characters `v[from..to]`.
fn sub_chars(v: &Vec<char>, from: usize, to: usize) -> (r: Vec<char>)
    requires
        from <= to <= v@.len(),
    ensures
        r@ == v@.subrange(from as int, to as int),
{
    let mut r: Vec<char> = Vec::new();
    let mut k = from;
    while k < to
        invariant
            from <= k <= to <= v@.len(),
            r@ == v@.subrange(from as int, k as int),
        decreases to - k,
    {
        r.push(v[k]);
        proof {
            assert(v@.subrange(from as int, k + 1) =~= v@.subrange(from as int, k as int).push(
                v@[k as int],
            ));
        }
        k = k + 1;
    }
    r
}

impl SearchRepository {
    /// `value` with every `\`, `%` and `_` escaped by a `\`, for use in a
    /// `LIKE ... ESCAPE '\'` pattern.
    pub fn escape_like(value: &str) -> (r: String)
        ensures
            r@ == escape_like_spec(value@),
    {
        let v = chars_of(value);
        let mut out: Vec<char> = Vec::new();
        let mut i: usize = 0;
        while i < v.len()
            invariant
                i <= v@.len(),
                out@ == escape_like_spec(v@.take(i as int)),
            decreases v@.len() - i,
        {
            let c = v[i];
            proof {
                assert(v@.take(i + 1).drop_last() =~= v@.take(i as int));
            }
            if c == '\\' || c == '%' || c == '_' {
                out.push('\\');
                out.push(c);
            } else {
                out.push(c);
            }
            i = i + 1;
        }
        proof {
            assert(v@.take(v@.len() as int) =~= v@);
        }
        string_from_chars(out.as_slice())
    }

    /// The `ILIKE` pattern `%<escaped keyword>%`.
    pub fn fuzzy_pattern(keyword: &str) -> (r: String)
        ensures
            r@ == fuzzy_pattern_spec(keyword@),
    {
        let e = Self::escape_like(keyword);
        let mut v: Vec<char> = Vec::new();
        v.push('%');
        append_str(&mut v, e.as_str());
        v.push('%');
        proof {
            assert(v@ =~= fuzzy_pattern_spec(keyword@));
        }
        string_from_chars(v.as_slice())
    }

    /// `html` without `<...>` tags, its words separated by single spaces.
    pub fn strip_html_tags(html: &str) -> (r: String)
        ensures
            r@ == strip_html_spec(html@),
    {
        let v = chars_of(html);
        let mut out: Vec<char> = Vec::new();
        let mut in_tag = false;
        let mut i: usize = 0;
        while i < v.len()
            invariant
                i <= v@.len(),
                (out@, in_tag) == html_scan(v@.take(i as int)),
            decreases v@.len() - i,
        {
            let c = v[i];
            proof {
                assert(v@.take(i + 1).drop_last() =~= v@.take(i as int));
            }
            if c == '<' {
                in_tag = true;
            } else if c == '>' {
                in_tag = false;
            } else if !in_tag {
                out.push(c);
            }
            i = i + 1;
        }
        proof {
            assert(v@.take(v@.len() as int) =~= v@);
        }
        let collapsed = collapse_whitespace(out.as_slice());
        string_from_chars(collapsed.as_slice())
    }

    /// A plain-text excerpt of `content` around the first occurrence of any
    /// word of `keyword` (compared lower-cased), at most `max_length`
    /// characters of text plus `...` marks where it was cut; the opening of
    /// the text when no word occurs; `None` for empty content or an empty
    /// excerpt.
    pub fn generate_excerpt(content: &str, keyword: &str, max_length: usize) -> (r: Option<String>)
        requires
            excerpt_in_bounds(content@, keyword@, max_length as int),
        ensures
            match r {
                Some(t) => generate_excerpt_spec(content@, keyword@, max_length as int) == Some(
                    t@,
                ),
                None => generate_excerpt_spec(content@, keyword@, max_length as int) is None,
            },
    {
        if content.is_empty() {
            return None;
        }
        let plain_s = Self::strip_html_tags(content);
        let plain = chars_of(plain_s.as_str());
        let kv = chars_of(keyword);
        let words = split_whitespace(kv.as_slice());
        let lower = lowercase_chars(plain.as_slice());
        let best = best_position(&lower, &words);
        let n = plain.len();
        let m: usize = if max_length < 1 {
            1
        } else {
            max_length
        };
        let mut out: Vec<char> = Vec::new();
        let ghost bestg: Option<int> = match best {
            Some(p) => Some(p as int),
            None => None,
        };
        proof {
            assert(bestg == excerpt_position(content@, keyword@));
        }
        match best {
            Some(pos) => {
                let half = m / 2;
                let cb: usize = if half < 50 {
                    half
                } else {
                    50
                };
                let start: usize = if pos > cb {
                    pos - cb
                } else {
                    0
                };
                let end: usize = if start + m < n {
                    start + m
                } else {
                    n
                };
                if start > 0 {
                    append_str(&mut out, "...");
                }
                let snippet = sub_chars(&plain, start, end);
                let t = trim_chars(snippet.as_slice());
                append_chars(&mut out, t.as_slice());
                if end < n {
                    append_str(&mut out, "...");
                }
                proof {
                    assert(excerpt_window(n as int, bestg, max_length as int) == (
                    start as int,
                    end as int,
                    ));
                    assert(out@ =~= excerpt_text(plain@, bestg, max_length as int));
                }
            },
            None => {
                let end: usize = if m < n {
                    m
                } else {
                    n
                };
                let snippet = sub_chars(&plain, 0, end);
                let t = trim_chars(snippet.as_slice());
                append_chars(&mut out, t.as_slice());
                if end < n {
                    append_str(&mut out, "...");
                }
                proof {
                    assert(plain@.subrange(0, end as int) == plain@.subrange(0, end as int));
                    assert(out@ =~= excerpt_text(plain@, bestg, max_length as int));
                }
            },
        }
        if out.len() == 0 {
            None
        } else {
            Some(string_from_chars(out.as_slice()))
        }
    }

    /// The excerpt of `content` for `keyword`, or `None` when cutting it
    /// would run past the machine word or past the end of the text (inputs
    /// on which the excerpt cannot be cut).
    pub fn checked_excerpt(content: &str, keyword: &str, max_length: usize) -> (r: Option<
        Option<String>,
    >)
        ensures
            r is Some <==> excerpt_in_bounds(content@, keyword@, max_length as int),
            r matches Some(e) ==> match e {
                Some(t) => generate_excerpt_spec(content@, keyword@, max_length as int) == Some(
                    t@,
                ),
                None => generate_excerpt_spec(content@, keyword@, max_length as int) is None,
            },
    {
        if content.is_empty() {
            return Some(None);
        }
        let plain_s = Self::strip_html_tags(content);
        let plain = chars_of(plain_s.as_str());
        let kv = chars_of(keyword);
        let words = split_whitespace(kv.as_slice());
        let lower = lowercase_chars(plain.as_slice());
        let best = best_position(&lower, &words);
        match best {
            Some(pos) => {
                let m: usize = if max_length < 1 {
                    1
                } else {
                    max_length
                };
                let half = m / 2;
                let cb: usize = if half < 50 {
                    half
                } else {
                    50
                };
                let start: usize = if pos > cb {
                    pos - cb
                } else {
                    0
                };
                if start > usize::MAX - m || start > plain.len() {
                    return None;
                }
            },
            None => {},
        }
        Some(Self::generate_excerpt(content, keyword, max_length))
    }
}

/// What a search asks of the database: the trimmed keyword, its `ILIKE`
/// pattern, the page window and whether only published blogs count.
pub struct SearchPlan {
    pub keyword: String,
    pub pattern: String,
    pub limit: i64,
    pub offset: i64,
    pub published_only: bool,
}

impl SearchRepository {
    /// The plan of a search: none when the keyword is blank, whatever the
    /// page (the search then finds nothing without asking the database);
    /// only a non-blank keyword needs the page's offset to fit in an `i64`.
    pub fn search_plan(keyword: &str, page: i64, page_size: i64, published_only: bool) -> (r:
        Option<SearchPlan>)
        requires
            trim_spec(keyword@).len() > 0 ==> crate::repositories::blog::offset_fits(page, page_size),
        ensures
            match r {
                Some(p) => {
                    &&& trim_spec(keyword@).len() > 0
                    &&& p.keyword@ == trim_spec(keyword@)
                    &&& p.pattern@ == fuzzy_pattern_spec(trim_spec(keyword@))
                    &&& p.limit == page_size
                    &&& p.offset == crate::repositories::blog::page_offset_spec(page, page_size)
                    &&& p.published_only == published_only
                },
                None => trim_spec(keyword@).len() == 0,
            },
    {
        let kv = chars_of(keyword);
        let t = trim_chars(kv.as_slice());
        if t.len() == 0 {
            return None;
        }
        let k = string_from_chars(t.as_slice());
        let pattern = Self::fuzzy_pattern(k.as_str());
        let offset = crate::repositories::blog::page_offset(page, page_size);
        Some(SearchPlan { keyword: k, pattern, limit: page_size, offset, published_only })
    }
}

// ---------------------------------------------------------------------
// Laws
// ---------------------------------------------------------------------

/// Reads an escaped `LIKE` text back, from its end: a `\`, `%` or `_` is
/// the second character of an escape pair.
pub open spec fn unescape_like_spec(s: Seq<char>) -> Seq<char>
    decreases s.len(),
{
    if s.len() == 0 {
        seq![]
    } else {
        let c = s.last();
        if (c == '\\' || c == '%' || c == '_') && s.len() >= 2 {
            unescape_like_spec(s.drop_last().drop_last()).push(c)
        } else {
            unescape_like_spec(s.drop_last()).push(c)
        }
    }
}

/// Escaping loses nothing: the escaped text reads back as the original, so
/// different keywords never give the same pattern.
pub proof fn lemma_escape_like_reversible(s: Seq<char>)
    ensures
        unescape_like_spec(escape_like_spec(s)) == s,
    decreases s.len(),
{
    if s.len() > 0 {
        lemma_escape_like_reversible(s.drop_last());
        let prev = escape_like_spec(s.drop_last());
        let c = s.last();
        if c == '\\' || c == '%' || c == '_' {
            assert(prev.push('\\').push(c).drop_last().drop_last() =~= prev);
        } else {
            assert(prev.push(c).drop_last() =~= prev);
        }
        assert(s.drop_last().push(c) =~= s);
    }
}

/// Two keywords with the same pattern are the same keyword.
pub proof fn lemma_fuzzy_pattern_injective(a: Seq<char>, b: Seq<char>)
    requires
        fuzzy_pattern_spec(a) == fuzzy_pattern_spec(b),
    ensures
        a == b,
{
    let ea = escape_like_spec(a);
    let eb = escape_like_spec(b);
    assert(ea =~= fuzzy_pattern_spec(a).subrange(1, fuzzy_pattern_spec(a).len() - 1));
    assert(eb =~= fuzzy_pattern_spec(b).subrange(1, fuzzy_pattern_spec(b).len() - 1));
    lemma_escape_like_reversible(a);
    lemma_escape_like_reversible(b);
}

/// `s` holds no `c`.
pub open spec fn free_of(s: Seq<char>, c: char) -> bool {
    forall|i: int| 0 <= i < s.len() ==> s[i] != c
}

proof fn lemma_html_scan_free(s: Seq<char>)
    ensures
        free_of(html_scan(s).0, '<'),
        free_of(html_scan(s).0, '>'),
    decreases s.len(),
{
    if s.len() > 0 {
        lemma_html_scan_free(s.drop_last());
    }
}

proof fn lemma_ws_scan_free(s: Seq<char>, c: char)
    requires
        free_of(s, c),
    ensures
        forall|k: int| 0 <= k < ws_scan(s).0.len() ==> free_of(#[trigger] ws_scan(s).0[k], c),
        free_of(ws_scan(s).1, c),
    decreases s.len(),
{
    if s.len() > 0 {
        assert(free_of(s.drop_last(), c)) by {
            assert forall|i: int| 0 <= i < s.drop_last().len() implies s.drop_last()[i] != c by {
                assert(s.drop_last()[i] == s[i]);
            }
        }
        lemma_ws_scan_free(s.drop_last(), c);
        assert(s.last() == s[s.len() - 1]);
    }
}

proof fn lemma_join_free(parts: Seq<Seq<char>>, sep: Seq<char>, c: char)
    requires
        forall|k: int| 0 <= k < parts.len() ==> free_of(#[trigger] parts[k], c),
        free_of(sep, c),
    ensures
        free_of(join_spec(parts, sep), c),
    decreases parts.len(),
{
    if parts.len() > 1 {
        let d = parts.drop_last();
        assert forall|k: int| 0 <= k < d.len() implies free_of(#[trigger] d[k], c) by {
            assert(d[k] == parts[k]);
        }
        lemma_join_free(d, sep, c);
        let j = join_spec(d, sep);
        let last = parts[parts.len() - 1];
        assert forall|i: int| 0 <= i < (j + sep + last).len() implies (j + sep + last)[i] != c by {
            if i < j.len() {
            } else if i < j.len() + sep.len() {
            } else {
                assert((j + sep + last)[i] == last[i - j.len() - sep.len()]);
            }
        }
    } else if parts.len() == 1 {
        assert(free_of(parts[0], c));
    }
}

proof fn lemma_collapse_free(s: Seq<char>, c: char)
    requires
        free_of(s, c),
        c != ' ',
    ensures
        free_of(collapse_whitespace_spec(s), c),
{
    lemma_ws_scan_free(s, c);
    let (words, cur) = ws_scan(s);
    let parts = split_whitespace_spec(s);
    assert forall|k: int| 0 <= k < parts.len() implies free_of(#[trigger] parts[k], c) by {
        if k < words.len() {
            assert(parts[k] == words[k]);
        }
    }
    lemma_join_free(parts, seq![' '], c);
}

/// Plain text has no tag left: it holds neither `<` nor `>`.
pub proof fn lemma_strip_html_has_no_tags(html: Seq<char>)
    ensures
        free_of(strip_html_spec(html), '<'),
        free_of(strip_html_spec(html), '>'),
{
    lemma_html_scan_free(html);
    lemma_collapse_free(html_scan(html).0, '<');
    lemma_collapse_free(html_scan(html).0, '>');
}

/// Text without `<` and `>` passes the tag scan unchanged.
proof fn lemma_html_scan_plain(s: Seq<char>)
    requires
        free_of(s, '<'),
        free_of(s, '>'),
    ensures
        html_scan(s) == (s, false),
    decreases s.len(),
{
    if s.len() > 0 {
        assert(free_of(s.drop_last(), '<') && free_of(s.drop_last(), '>')) by {
            assert forall|i: int| 0 <= i < s.drop_last().len() implies s.drop_last()[i] != '<' && s.drop_last()[i]
                != '>' by {
                assert(s.drop_last()[i] == s[i]);
            }
        }
        lemma_html_scan_plain(s.drop_last());
        assert(s[s.len() - 1] != '<' && s[s.len() - 1] != '>');
        assert(s.drop_last().push(s.last()) =~= s);
    }
}

/// Stripping is done in one pass: stripped text strips to itself, and it
/// is already its words joined by single spaces.
pub proof fn lemma_strip_html_idempotent(html: Seq<char>)
    ensures
        strip_html_spec(strip_html_spec(html)) == strip_html_spec(html),
        crate::text::collapse_whitespace_spec(strip_html_spec(html)) == strip_html_spec(html),
{
    let r = strip_html_spec(html);
    lemma_strip_html_has_no_tags(html);
    lemma_html_scan_plain(r);
    crate::text::lemma_collapse_whitespace_idempotent(html_scan(html).0);
}

/// An excerpt is at most `max_length` characters (at least one) of text,
/// with at most three dots at each end.
pub proof fn lemma_excerpt_length(content: Seq<char>, keyword: Seq<char>, max_length: int)
    requires
        excerpt_in_bounds(content, keyword, max_length),
    ensures
        generate_excerpt_spec(content, keyword, max_length) matches Some(e) ==> e.len()
            <= max_int(max_length, 1) + 6,
{
    reveal_strlit("...");
    if content.len() > 0 {
        let plain = strip_html_spec(content);
        let best = excerpt_position(content, keyword);
        let m = max_int(max_length, 1);
        let (start, end) = excerpt_window(plain.len() as int, best, max_length);
        assert(0 <= start <= end <= plain.len());
        assert(end - start <= m);
        let sub = plain.subrange(start, end);
        crate::text::lemma_trim_start(sub);
        crate::text::lemma_trim_end(crate::text::trim_start_spec(sub));
        assert(trim_spec(sub).len() <= sub.len());
        assert(excerpt_text(plain, best, max_length).len() <= sub.len() + 6);
    }
}


/// A search from `i` finds the first place at or after `i` where `needle`
/// occurs, and finds one whenever there is one.
proof fn lemma_first_occurrence_from_meaning(hay: Seq<char>, needle: Seq<char>, i: int, p: int)
    requires
        0 <= i,
    ensures
        crate::text::first_occurrence_from(hay, needle, i) matches Some(q) ==> (i <= q
            && crate::text::occurs_at(hay, needle, q)),
        i <= p && crate::text::occurs_at(hay, needle, p) ==> (crate::text::first_occurrence_from(
            hay,
            needle,
            i,
        ) matches Some(q) && q <= p),
    decreases hay.len() + 1 - i,
{
    if i <= hay.len() && !crate::text::occurs_at(hay, needle, i) {
        lemma_first_occurrence_from_meaning(hay, needle, i + 1, p);
    }
}

/// The position found for several keywords is the earliest place where one
/// of them (lower-cased) occurs in `lower`.
proof fn lemma_best_position_meaning(lower: Seq<char>, ks: Seq<Seq<char>>)
    ensures
        forall|k: int, p: int|
            0 <= k < ks.len() && #[trigger] crate::text::occurs_at(lower, unicode_lowercase(ks[k]), p)
                ==> (best_keyword_position(lower, ks) matches Some(q) && q <= p),
        best_keyword_position(lower, ks) matches Some(q) ==> exists|k: int|
            0 <= k < ks.len() && crate::text::occurs_at(lower, unicode_lowercase(#[trigger] ks[k]), q),
    decreases ks.len(),
{
    if ks.len() > 0 {
        let front = ks.drop_last();
        let w = unicode_lowercase(ks.last());
        lemma_best_position_meaning(lower, front);
        assert forall|k: int, p: int|
            0 <= k < ks.len() && #[trigger] crate::text::occurs_at(lower, unicode_lowercase(ks[k]), p)
                implies (best_keyword_position(lower, ks) matches Some(q) && q <= p) by {
            lemma_first_occurrence_from_meaning(lower, w, 0, p);
            if k < front.len() {
                assert(front[k] == ks[k]);
            }
        }
        if best_keyword_position(lower, ks) is Some {
            let q = best_keyword_position(lower, ks)->0;
            lemma_first_occurrence_from_meaning(lower, w, 0, 0);
            if best_keyword_position(lower, front) == Some(q) {
                let k = choose|k: int|
                    0 <= k < front.len() && crate::text::occurs_at(lower, unicode_lowercase(#[trigger] front[k]), q);
                assert(front[k] == ks[k]);
            } else {
                assert(ks[ks.len() - 1] == ks.last());
            }
        }
    }
}

/// Keyword matching ignores case: an excerpt is centred on the earliest
/// place where the lower-cased form of one of the keyword's words occurs in
/// the lower-cased plain text, and there is a centre whenever some word
/// occurs.
pub proof fn lemma_excerpt_centre_is_earliest_match(content: Seq<char>, keyword: Seq<char>)
    ensures
        ({
            let lower = unicode_lowercase(strip_html_spec(content));
            let words = split_whitespace_spec(keyword);
            &&& forall|k: int, p: int|
                0 <= k < words.len() && #[trigger] crate::text::occurs_at(
                    lower,
                    unicode_lowercase(words[k]),
                    p,
                ) ==> (excerpt_position(content, keyword) matches Some(q) && q <= p)
            &&& excerpt_position(content, keyword) matches Some(q) ==> exists|k: int|
                0 <= k < words.len() && crate::text::occurs_at(
                    lower,
                    unicode_lowercase(#[trigger] words[k]),
                    q,
                )
        }),
{
    lemma_best_position_meaning(
        unicode_lowercase(strip_html_spec(content)),
        split_whitespace_spec(keyword),
    );
}

} // verus!
