//! Raw SQL import: MySQL dump clean-up, statement splitting and the rules
//! that decide which statements run.

use vstd::prelude::*;
use crate::text::{
    append_chars, append_str, chars_eq, chars_of, contains_chars, contains_spec, is_alphanumeric,
    join_chars, join_spec, starts_with, starts_with_spec, string_from_chars, string_views,
    strings_from, trim_chars, trim_spec, u64_decimal, decimal, unicode_alphanumeric,
    unicode_uppercase, uppercase_chars, views_of,
};

verus! {

// ---------------------------------------------------------------------
// Statement splitting
// ---------------------------------------------------------------------

/// State of the statement splitter between two characters.
pub struct SplitState {
    /// Text of the statement being read.
    pub current: Seq<char>,
    /// Inside a single-quoted string literal.
    pub in_string: bool,
    /// Inside a dollar-quoted body.
    pub in_dollar: bool,
    /// The opening `$tag$` of the dollar-quoted body.
    pub tag: Seq<char>,
}

/// A character that may appear in a dollar-quote tag.
pub open spec fn is_tag_char(c: char) -> bool {
    unicode_alphanumeric(c) || c == '_'
}

/// Length of the run of tag characters of `s` starting at `i`.
pub open spec fn tag_run(s: Seq<char>, i: int) -> nat
    decreases s.len() - i,
{
    if 0 <= i < s.len() && is_tag_char(s[i]) {
        1 + tag_run(s, i + 1)
    } else {
        0
    }
}

pub proof fn lemma_tag_run_bound(s: Seq<char>, i: int)
    requires
        0 <= i <= s.len(),
    ensures
        i + tag_run(s, i) <= s.len(),
        forall|k: int| i <= k < i + tag_run(s, i) ==> is_tag_char(#[trigger] s[k]),
        i + tag_run(s, i) < s.len() ==> !is_tag_char(s[i + tag_run(s, i)]),
    decreases s.len() - i,
{
    if i < s.len() && is_tag_char(s[i]) {
        lemma_tag_run_bound(s, i + 1);
    }
}

/// The statement a finished chunk of text contributes: the trimmed text,
/// when not empty.
pub open spec fn finish_statement(cur: Seq<char>) -> Seq<Seq<char>> {
    let t = trim_spec(cur);
    if t.len() > 0 {
        seq![t]
    } else {
        seq![]
    }
}

/// The statements read from position `i` of `s` on, in splitter state `st`.
///
/// A `;` ends a statement unless it stands inside a single-quoted string
/// (where `''` is an escaped quote) or inside a `$tag$ ... $tag$` body.
/// Each statement is trimmed, its text otherwise kept as written; empty
/// ones and a lone `;` are dropped.
pub open spec fn split_from(s: Seq<char>, i: int, st: SplitState) -> Seq<Seq<char>>
    decreases s.len() - i,
{
    if i < 0 || i >= s.len() {
        finish_statement(st.current)
    } else {
        let c = s[i];
        let cur = st.current.push(c);
        if c == '\'' && !st.in_dollar {
            if st.in_string && i + 1 < s.len() && s[i + 1] == '\'' {
                split_from(s, i + 2, SplitState { current: cur.push('\''), ..st })
            } else {
                split_from(s, i + 1, SplitState { current: cur, in_string: !st.in_string, ..st })
            }
        } else if c == '$' && !st.in_string {
            proof {
                lemma_tag_run_bound(s, i + 1);
            }
            let j = i + 1 + tag_run(s, i + 1);
            let name = s.subrange(i + 1, j);
            let closed = j < s.len() && s[j] == '$';
            if st.in_dollar {
                let cur2 = if closed {
                    cur + name + seq!['$']
                } else {
                    cur + name
                };
                let potential = if closed {
                    seq!['$'] + name + seq!['$']
                } else {
                    seq!['$'] + name
                };
                let next = if closed {
                    j + 1
                } else {
                    j
                };
                if potential == st.tag {
                    split_from(
                        s,
                        next,
                        SplitState { current: cur2, in_dollar: false, tag: seq![], ..st },
                    )
                } else {
                    split_from(s, next, SplitState { current: cur2, ..st })
                }
            } else {
                if closed {
                    split_from(
                        s,
                        j + 1,
                        SplitState {
                            current: cur + name + seq!['$'],
                            in_dollar: true,
                            tag: seq!['$'] + name + seq!['$'],
                            ..st
                        },
                    )
                } else {
                    split_from(s, j, SplitState { current: cur + name, ..st })
                }
            }
        } else if c == ';' && !st.in_string && !st.in_dollar {
            let t = trim_spec(cur);
            let rest = split_from(s, i + 1, SplitState { current: seq![], ..st });
            if t.len() > 0 && t != seq![';'] {
                seq![t] + rest
            } else {
                rest
            }
        } else {
            split_from(s, i + 1, SplitState { current: cur, ..st })
        }
    }
}

/// The statements of `sql`, split at top-level `;`.
pub open spec fn split_sql_spec(sql: Seq<char>) -> Seq<Seq<char>> {
    split_from(
        sql,
        0,
        SplitState { current: seq![], in_string: false, in_dollar: false, tag: seq![] },
    )
}

/// Appends `s[from..to]` to `out`.
fn push_range(out: &mut Vec<char>, s: &Vec<char>, from: usize, to: usize)
    requires
        from <= to <= s@.len(),
    ensures
        final(out)@ == old(out)@ + s@.subrange(from as int, to as int),
{
    let mut k: usize = from;
    while k < to
        invariant
            from <= k <= to <= s@.len(),
            out@ == old(out)@ + s@.subrange(from as int, k as int),
        decreases to - k,
    {
        out.push(s[k]);
        proof {
            assert(old(out)@ + s@.subrange(from as int, k + 1) =~= (old(out)@ + s@.subrange(
                from as int,
                k as int,
            )).push(s@[k as int]));
        }
        k = k + 1;
    }
}

/// Whether `c` may appear in a dollar-quote tag.
fn is_tag_char_exec(c: char) -> (b: bool)
    ensures
        b == is_tag_char(c),
{
    c == '_' || is_alphanumeric(c)
}

/// The end of the run of tag characters of `s` starting at `start`.
fn scan_tag(s: &Vec<char>, start: usize) -> (j: usize)
    requires
        start <= s@.len(),
    ensures
        j == start + tag_run(s@, start as int),
{
    let mut j = start;
    while j < s.len() && is_tag_char_exec(s[j])
        invariant
            start <= j <= s@.len(),
            forall|k: int| start <= k < j ==> is_tag_char(#[trigger] s@[k]),
        decreases s@.len() - j,
    {
        j = j + 1;
    }
    proof {
        lemma_tag_run_exact(s@, start as int, j as int);
    }
    j
}

proof fn lemma_tag_run_exact(s: Seq<char>, a: int, j: int)
    requires
        0 <= a <= j <= s.len(),
        forall|k: int| a <= k < j ==> is_tag_char(#[trigger] s[k]),
        j == s.len() || !is_tag_char(s[j]),
    ensures
        tag_run(s, a) == j - a,
    decreases j - a,
{
    if a < j {
        lemma_tag_run_exact(s, a + 1, j);
    }
}

/// Whether the trimmed statement text `t` is kept (not empty and not a
/// lone `;`).
fn keep_statement(t: &Vec<char>) -> (b: bool)
    ensures
        b == (t@.len() > 0 && t@ != seq![';']),
{
    if t.len() == 0 {
        false
    } else if t.len() == 1 && t[0] == ';' {
        proof {
            assert(t@ =~= seq![';']);
        }
        false
    } else {
        proof {
            if t@.len() == 1 {
                assert(t@[0] != seq![';'][0]);
            }
        }
        true
    }
}

/// Splits SQL text into statements at every `;` that stands outside a
/// single-quoted string and outside a `$tag$`-quoted body; the statements
/// come back trimmed but otherwise as written, without empty ones or a
/// lone `;`.
pub fn split_sql_statements(sql: &str) -> (r: Vec<String>)
    ensures
        string_views(r@) == split_sql_spec(sql@),
{
    let s = chars_of(sql);
    let n = s.len();
    let mut stmts: Vec<Vec<char>> = Vec::new();
    let mut current: Vec<char> = Vec::new();
    let mut in_string = false;
    let mut in_dollar = false;
    let mut tag: Vec<char> = Vec::new();
    let mut i: usize = 0;
    while i < n
        invariant
            n == s@.len(),
            s@ == sql@,
            i <= n,
            views_of(stmts@) + split_from(
                s@,
                i as int,
                SplitState { current: current@, in_string, in_dollar, tag: tag@ },
            ) == split_sql_spec(sql@),
        decreases n - i,
    {
        let ghost st = SplitState { current: current@, in_string, in_dollar, tag: tag@ };
        let ghost total = views_of(stmts@);
        let ghost i0 = i as int;
        let c = s[i];
        current.push(c);
        if c == '\'' && !in_dollar {
            if in_string && i + 1 < n && s[i + 1] == '\'' {
                current.push('\'');
                i = i + 2;
                proof {
                    assert(split_from(s@, i0, st) == split_from(
                        s@,
                        i as int,
                        SplitState { current: current@, in_string, in_dollar, tag: tag@ },
                    ));
                }
            } else {
                in_string = !in_string;
                i = i + 1;
                proof {
                    assert(split_from(s@, i0, st) == split_from(
                        s@,
                        i as int,
                        SplitState { current: current@, in_string, in_dollar, tag: tag@ },
                    ));
                }
            }
        } else if c == '$' && !in_string {
            let j = scan_tag(&s, i + 1);
            proof {
                lemma_tag_run_bound(s@, i + 1);
            }
            let closed = j < n && s[j] == '$';
            if in_dollar {
                push_range(&mut current, &s, i + 1, j);
                if closed {
                    current.push('$');
                }
                let mut potential: Vec<char> = Vec::new();
                potential.push('$');
                push_range(&mut potential, &s, i + 1, j);
                if closed {
                    potential.push('$');
                }
                proof {
                    let name = s@.subrange(i + 1, j as int);
                    if closed {
                        assert(potential@ =~= seq!['$'] + name + seq!['$']);
                    } else {
                        assert(potential@ =~= seq!['$'] + name);
                    }
                }
                proof {
                    let name = s@.subrange(i + 1, j as int);
                    if closed {
                        assert(current@ =~= st.current.push(c) + name + seq!['$']);
                    } else {
                        assert(current@ =~= st.current.push(c) + name);
                    }
                }
                if chars_eq(potential.as_slice(), tag.as_slice()) {
                    in_dollar = false;
                    tag = Vec::new();
                }
                i = if closed {
                    j + 1
                } else {
                    j
                };
                proof {
                    assert(split_from(s@, i0, st) == split_from(
                        s@,
                        i as int,
                        SplitState { current: current@, in_string, in_dollar, tag: tag@ },
                    ));
                }
            } else {
                push_range(&mut current, &s, i + 1, j);
                if closed {
                    current.push('$');
                    let mut t: Vec<char> = Vec::new();
                    t.push('$');
                    push_range(&mut t, &s, i + 1, j);
                    t.push('$');
                    proof {
                        assert(t@ =~= seq!['$'] + s@.subrange(i + 1, j as int) + seq!['$']);
                        assert(current@ =~= st.current.push(c) + s@.subrange(i + 1, j as int)
                            + seq!['$']);
                    }
                    tag = t;
                    in_dollar = true;
                    i = j + 1;
                    proof {
                        assert(split_from(s@, i0, st) == split_from(
                            s@,
                            i as int,
                            SplitState { current: current@, in_string, in_dollar, tag: tag@ },
                        ));
                    }
                } else {
                    i = j;
                    proof {
                        assert(split_from(s@, i0, st) == split_from(
                            s@,
                            i as int,
                            SplitState { current: current@, in_string, in_dollar, tag: tag@ },
                        ));
                    }
                }
            }
        } else if c == ';' && !in_string && !in_dollar {
            let t = trim_chars(current.as_slice());
            if keep_statement(&t) {
                let ghost s0 = views_of(stmts@);
                stmts.push(t);
                proof {
                    assert(views_of(stmts@) =~= s0.push(t@));
                    assert(s0.push(t@) + split_from(
                        s@,
                        i + 1,
                        SplitState { current: seq![], ..st },
                    ) =~= s0 + (seq![t@] + split_from(
                        s@,
                        i + 1,
                        SplitState { current: seq![], ..st },
                    )));
                }
            }
            current = Vec::new();
            i = i + 1;
        } else {
            i = i + 1;
            proof {
                assert(split_from(s@, i0, st) == split_from(
                    s@,
                    i as int,
                    SplitState { current: current@, in_string, in_dollar, tag: tag@ },
                ));
            }
        }
    }
    let t = trim_chars(current.as_slice());
    if t.len() > 0 {
        let ghost s0 = views_of(stmts@);
        stmts.push(t);
        proof {
            assert(views_of(stmts@) =~= s0.push(t@));
            assert(s0 + seq![t@] =~= s0.push(t@));
        }
    } else {
        proof {
            assert(views_of(stmts@) + seq![] =~= views_of(stmts@));
        }
    }
    strings_from(&stmts)
}


// ---------------------------------------------------------------------
// MySQL dump clean-up
// ---------------------------------------------------------------------

/// Left-to-right scan of `s` split at `\n`: the finished fields and the
/// field being read.
pub open spec fn nl_scan(s: Seq<char>) -> (Seq<Seq<char>>, Seq<char>)
    decreases s.len(),
{
    if s.len() == 0 {
        (seq![], seq![])
    } else {
        let (done, cur) = nl_scan(s.drop_last());
        if s.last() == '\n' {
            (done.push(cur), seq![])
        } else {
            (done, cur.push(s.last()))
        }
    }
}

/// A line without the `\r` of a `\r\n` ending.
pub open spec fn strip_cr(l: Seq<char>) -> Seq<char> {
    if l.len() > 0 && l.last() == '\r' {
        l.drop_last()
    } else {
        l
    }
}

/// The lines of `s` as `str::lines` yields them: split at `\n`, a `\r`
/// right before a `\n` dropped, and no empty last line after a final `\n`.
pub open spec fn lines_spec(s: Seq<char>) -> Seq<Seq<char>> {
    let (done, cur) = nl_scan(s);
    done.map_values(|l: Seq<char>| strip_cr(l)) + if cur.len() > 0 {
        seq![cur]
    } else {
        seq![]
    }
}

/// A line survives the clean-up pass for `pattern` unless its trimmed,
/// upper-cased text begins with `pattern`.
pub open spec fn keeps_line(l: Seq<char>, pattern: Seq<char>) -> bool {
    !starts_with_spec(unicode_uppercase(trim_spec(l)), pattern)
}

/// The lines of `ls` that survive the pass for `pattern`, in order.
pub open spec fn kept_lines(ls: Seq<Seq<char>>, pattern: Seq<char>) -> Seq<Seq<char>>
    decreases ls.len(),
{
    if ls.len() == 0 {
        seq![]
    } else if keeps_line(ls.last(), pattern) {
        kept_lines(ls.drop_last(), pattern).push(ls.last())
    } else {
        kept_lines(ls.drop_last(), pattern)
    }
}

/// One clean-up pass: drop the lines that begin with `pattern`, rejoin with
/// `\n`.
pub open spec fn mysql_pass(s: Seq<char>, pattern: Seq<char>) -> Seq<char> {
    join_spec(kept_lines(lines_spec(s), pattern), seq!['\n'])
}

/// `s` without the character `c`.
pub open spec fn without_char(s: Seq<char>, c: char) -> Seq<char>
    decreases s.len(),
{
    if s.len() == 0 {
        seq![]
    } else if s.last() == c {
        without_char(s.drop_last(), c)
    } else {
        without_char(s.drop_last(), c).push(s.last())
    }
}

/// The MySQL session settings whose lines are dropped, in the order the
/// passes run.
pub open spec fn mysql_setting_patterns() -> Seq<Seq<char>> {
    seq![
        "SET NAMES"@,
        "SET FOREIGN_KEY_CHECKS"@,
        "SET SQL_MODE"@,
        "SET TIME_ZONE"@,
        "SET UNIQUE_CHECKS"@,
        "SET AUTOCOMMIT"@,
    ]
}

/// `s` after the passes for the first `k` setting patterns.
pub open spec fn mysql_passes(s: Seq<char>, k: int) -> Seq<char>
    decreases k,
{
    if k <= 0 {
        s
    } else {
        mysql_pass(mysql_passes(s, k - 1), mysql_setting_patterns()[k - 1])
    }
}

/// A MySQL dump rewritten for PostgreSQL: setting lines dropped, backticks
/// removed.
pub open spec fn mysql_to_postgres_spec(sql: Seq<char>) -> Seq<char> {
    without_char(mysql_passes(sql, 6), '`')
}

/// The lines of `v`.
pub fn lines_of(v: &[char]) -> (r: Vec<Vec<char>>)
    ensures
        views_of(r@) == lines_spec(v@),
{
    let mut done: Vec<Vec<char>> = Vec::new();
    let mut cur: Vec<char> = Vec::new();
    let mut i: usize = 0;
    while i < v.len()
        invariant
            i <= v@.len(),
            views_of(done@) == nl_scan(v@.take(i as int)).0.map_values(
                |l: Seq<char>| strip_cr(l),
            ),
            cur@ == nl_scan(v@.take(i as int)).1,
        decreases v@.len() - i,
    {
        let c = v[i];
        proof {
            assert(v@.take(i + 1).drop_last() =~= v@.take(i as int));
        }
        if c == '\n' {
            let ghost d0 = views_of(done@);
            let ghost sc = nl_scan(v@.take(i as int));
            let mut line = cur;
            if line.len() > 0 && line[line.len() - 1] == '\r' {
                line.pop();
            }
            proof {
                assert(line@ == strip_cr(sc.1));
            }
            done.push(line);
            cur = Vec::new();
            proof {
                assert(views_of(done@) =~= d0.push(line@));
                assert(sc.0.push(sc.1).map_values(|l: Seq<char>| strip_cr(l)) =~= sc.0.map_values(
                    |l: Seq<char>| strip_cr(l),
                ).push(strip_cr(sc.1)));
            }
        } else {
            cur.push(c);
        }
        i = i + 1;
    }
    proof {
        assert(v@.take(v@.len() as int) =~= v@);
    }
    let ghost d0 = views_of(done@);
    if cur.len() > 0 {
        done.push(cur);
        proof {
            assert(views_of(done@) =~= d0 + seq![cur@]);
        }
    } else {
        proof {
            assert(views_of(done@) =~= d0 + seq![]);
        }
    }
    done
}

/// Whether line `l` survives the pass for `pattern`.
fn keeps_line_exec(l: &[char], pattern: &[char]) -> (b: bool)
    ensures
        b == keeps_line(l@, pattern@),
{
    let t = trim_chars(l);
    let u = uppercase_chars(t.as_slice());
    !starts_with(u.as_slice(), pattern)
}

/// One clean-up pass over `v` for `pattern`.
fn mysql_pass_exec(v: &[char], pattern: &[char]) -> (r: Vec<char>)
    ensures
        r@ == mysql_pass(v@, pattern@),
{
    let ls = lines_of(v);
    let mut kept: Vec<Vec<char>> = Vec::new();
    let mut i: usize = 0;
    while i < ls.len()
        invariant
            i <= ls@.len(),
            views_of(kept@) == kept_lines(views_of(ls@).take(i as int), pattern@),
        decreases ls@.len() - i,
    {
        proof {
            assert(views_of(ls@).take(i + 1).drop_last() =~= views_of(ls@).take(i as int));
        }
        if keeps_line_exec(ls[i].as_slice(), pattern) {
            let ghost k0 = views_of(kept@);
            let l = ls[i].clone();
            kept.push(l);
            proof {
                assert(views_of(kept@) =~= k0.push(ls@[i as int]@));
            }
        }
        i = i + 1;
    }
    proof {
        assert(views_of(ls@).take(ls@.len() as int) =~= views_of(ls@));
    }
    let sep = vec!['\n'];
    proof {
        assert(sep@ =~= seq!['\n']);
    }
    join_chars(&kept, sep.as_slice())
}

/// Drops the MySQL session-setting lines (`SET NAMES`,
/// `SET FOREIGN_KEY_CHECKS`, `SET SQL_MODE`, `SET TIME_ZONE`,
/// `SET UNIQUE_CHECKS`, `SET AUTOCOMMIT`; compared after trimming and
/// upper-casing each line) and removes every backtick.
pub fn convert_mysql_to_postgres(sql: &str) -> (r: String)
    ensures
        r@ == mysql_to_postgres_spec(sql@),
{
    let mut cur = chars_of(sql);
    let patterns: [&str; 6] = [
        "SET NAMES",
        "SET FOREIGN_KEY_CHECKS",
        "SET SQL_MODE",
        "SET TIME_ZONE",
        "SET UNIQUE_CHECKS",
        "SET AUTOCOMMIT",
    ];
    let mut k: usize = 0;
    while k < 6
        invariant
            k <= 6,
            cur@ == mysql_passes(sql@, k as int),
            forall|j: int| 0 <= j < 6 ==> #[trigger] patterns@[j]@ == mysql_setting_patterns()[j],
        decreases 6 - k,
    {
        let p = chars_of(patterns[k]);
        cur = mysql_pass_exec(cur.as_slice(), p.as_slice());
        k = k + 1;
    }
    let mut out: Vec<char> = Vec::new();
    let mut i: usize = 0;
    while i < cur.len()
        invariant
            i <= cur@.len(),
            out@ == without_char(cur@.take(i as int), '`'),
        decreases cur@.len() - i,
    {
        proof {
            assert(cur@.take(i + 1).drop_last() =~= cur@.take(i as int));
        }
        if cur[i] != '`' {
            out.push(cur[i]);
        }
        i = i + 1;
    }
    proof {
        assert(cur@.take(cur@.len() as int) =~= cur@);
    }
    string_from_chars(out.as_slice())
}


// ---------------------------------------------------------------------
// Which statements run
// ---------------------------------------------------------------------

/// What the importer does with one statement.
pub enum SqlStatementAction {
    /// Nothing: empty, a comment, a transaction marker or `CREATE TABLE`.
    Skip,
    /// Not run; the message is recorded among the import errors.
    Reject(String),
    /// Run this (trimmed) statement.
    Execute(String),
}

/// The abstract value of a [`SqlStatementAction`].
pub enum SqlActionView {
    Skip,
    Reject(Seq<char>),
    Execute(Seq<char>),
}

impl View for SqlStatementAction {
    type V = SqlActionView;

    open spec fn view(&self) -> SqlActionView {
        match self {
            SqlStatementAction::Skip => SqlActionView::Skip,
            SqlStatementAction::Reject(m) => SqlActionView::Reject(m@),
            SqlStatementAction::Execute(t) => SqlActionView::Execute(t@),
        }
    }
}

/// A statement (upper-cased) that is passed over without a word: a comment,
/// a transaction marker, or `CREATE TABLE`.
pub open spec fn is_ignored_statement(u: Seq<char>) -> bool {
    ||| starts_with_spec(u, "--"@)
    ||| starts_with_spec(u, "/*"@)
    ||| u == "BEGIN"@
    ||| u == "COMMIT"@
    ||| u == "START TRANSACTION"@
    ||| starts_with_spec(u, "CREATE TABLE"@)
}

/// A statement (upper-cased) that would drop or wipe data.
pub open spec fn is_dangerous_statement(u: Seq<char>) -> bool {
    ||| starts_with_spec(u, "DROP"@)
    ||| starts_with_spec(u, "TRUNCATE"@)
    ||| starts_with_spec(u, "CREATE DATABASE"@)
    ||| starts_with_spec(u, "DROP DATABASE"@)
}

/// A statement (upper-cased) that touches the users table.
pub open spec fn touches_users(u: Seq<char>) -> bool {
    ||| contains_spec(u, "INTO USERS"@)
    ||| contains_spec(u, "INTO `USERS`"@)
    ||| contains_spec(u, "INTO \"USERS\""@)
    ||| contains_spec(u, "FROM USERS"@)
    ||| (starts_with_spec(u, "UPDATE"@) && contains_spec(u, "USERS"@))
    ||| (starts_with_spec(u, "DELETE"@) && contains_spec(u, "USERS"@))
}

/// `"Statement <n>: <detail>"`, numbering statements from 1.
pub open spec fn statement_message(index: int, detail: Seq<char>) -> Seq<char> {
    "Statement "@ + decimal(index + 1) + ": "@ + detail
}

/// What the importer does with statement number `index` (from 0).
pub open spec fn statement_action_spec(index: int, stmt: Seq<char>) -> SqlActionView {
    let t = trim_spec(stmt);
    let u = unicode_uppercase(t);
    if t.len() == 0 || is_ignored_statement(u) {
        SqlActionView::Skip
    } else if is_dangerous_statement(u) {
        SqlActionView::Reject(statement_message(index, "Skipped dangerous operation"@))
    } else if touches_users(u) {
        SqlActionView::Reject(
            statement_message(
                index,
                "Skipped user data operation (use setup page to create admin)"@,
            ),
        )
    } else {
        SqlActionView::Execute(t)
    }
}

/// Whether `u` begins with the literal `p`.
fn starts_with_str(u: &[char], p: &str) -> (b: bool)
    ensures
        b == starts_with_spec(u@, p@),
{
    let pv = chars_of(p);
    starts_with(u, pv.as_slice())
}

/// Whether `u` contains the literal `p`.
fn contains_str(u: &[char], p: &str) -> (b: bool)
    ensures
        b == contains_spec(u@, p@),
{
    let pv = chars_of(p);
    contains_chars(u, pv.as_slice())
}

/// Whether `u` is exactly the literal `p`.
fn equals_str(u: &[char], p: &str) -> (b: bool)
    ensures
        b == (u@ == p@),
{
    let pv = chars_of(p);
    chars_eq(u, pv.as_slice())
}

/// `"Statement <index + 1>: <detail>"`.
fn statement_message_exec(index: usize, detail: &str) -> (r: String)
    requires
        index < usize::MAX,
    ensures
        r@ == statement_message(index as int, detail@),
{
    let mut v = chars_of("Statement ");
    let n = u64_decimal((index + 1) as u64);
    append_chars(&mut v, n.as_slice());
    append_str(&mut v, ": ");
    append_str(&mut v, detail);
    proof {
        assert(v@ =~= statement_message(index as int, detail@));
    }
    string_from_chars(v.as_slice())
}

/// Decides what happens to statement number `index` (counted from 0) of a
/// SQL import: comments, `BEGIN`/`COMMIT`/`START TRANSACTION` and
/// `CREATE TABLE` are skipped; `DROP`, `TRUNCATE` and `CREATE DATABASE` are
/// refused; anything touching the users table is refused; the rest runs.
pub fn classify_sql_statement(index: usize, stmt: &str) -> (r: SqlStatementAction)
    requires
        index < usize::MAX,
    ensures
        r@ == statement_action_spec(index as int, stmt@),
{
    let sv = chars_of(stmt);
    let t = trim_chars(sv.as_slice());
    if t.len() == 0 {
        return SqlStatementAction::Skip;
    }
    let u = uppercase_chars(t.as_slice());
    let u = u.as_slice();
    if starts_with_str(u, "--") || starts_with_str(u, "/*") || equals_str(u, "BEGIN")
        || equals_str(u, "COMMIT") || equals_str(u, "START TRANSACTION") || starts_with_str(
        u,
        "CREATE TABLE",
    ) {
        return SqlStatementAction::Skip;
    }
    if starts_with_str(u, "DROP") || starts_with_str(u, "TRUNCATE") || starts_with_str(
        u,
        "CREATE DATABASE",
    ) || starts_with_str(u, "DROP DATABASE") {
        return SqlStatementAction::Reject(
            statement_message_exec(index, "Skipped dangerous operation"),
        );
    }
    if contains_str(u, "INTO USERS") || contains_str(u, "INTO `USERS`") || contains_str(
        u,
        "INTO \"USERS\"",
    ) || contains_str(u, "FROM USERS") || (starts_with_str(u, "UPDATE") && contains_str(
        u,
        "USERS",
    )) || (starts_with_str(u, "DELETE") && contains_str(u, "USERS")) {
        return SqlStatementAction::Reject(
            statement_message_exec(
                index,
                "Skipped user data operation (use setup page to create admin)",
            ),
        );
    }
    SqlStatementAction::Execute(string_from_chars(t.as_slice()))
}

/// The action for every statement of a SQL import, in order: the text is
/// converted from MySQL form, split into statements, and each statement is
/// classified.
pub fn plan_sql_import(sql: &str) -> (r: Vec<SqlStatementAction>)
    ensures
        r@.len() == split_sql_spec(mysql_to_postgres_spec(sql@)).len(),
        forall|i: int|
            0 <= i < r@.len() ==> #[trigger] r@[i]@ == statement_action_spec(
                i,
                split_sql_spec(mysql_to_postgres_spec(sql@))[i],
            ),
{
    let converted = convert_mysql_to_postgres(sql);
    let stmts = split_sql_statements(converted.as_str());
    let ghost sv = string_views(stmts@);
    let mut r: Vec<SqlStatementAction> = Vec::new();
    let mut i: usize = 0;
    while i < stmts.len()
        invariant
            i <= stmts@.len(),
            sv == string_views(stmts@),
            sv == split_sql_spec(mysql_to_postgres_spec(sql@)),
            r@.len() == i,
            forall|j: int| 0 <= j < i ==> #[trigger] r@[j]@ == statement_action_spec(j, sv[j]),
        decreases stmts@.len() - i,
    {
        let a = classify_sql_statement(i, stmts[i].as_str());
        r.push(a);
        i = i + 1;
    }
    r
}

/// Outcome of a SQL import.
/// A request to run SQL text.
pub struct SqlImportRequest {
    pub sql: String,
}

pub struct SqlImportResult {
    /// No statement failed to run.
    pub success: bool,
    /// Statements that ran, or that failed only because their data was
    /// already there.
    pub statements_executed: i64,
    /// Refusals and failures, in statement order.
    pub errors: Vec<String>,
}

/// A database error text that only says the data was already there.
pub open spec fn is_already_present_error(e: Seq<char>) -> bool {
    ||| contains_spec(e, "already exists"@)
    ||| contains_spec(e, "duplicate key"@)
    ||| contains_spec(e, "unique constraint"@)
}

impl SqlImportResult {
    /// A successful result with nothing run yet.
    pub fn new() -> (r: SqlImportResult)
        ensures
            r.success,
            r.statements_executed == 0,
            r.errors@.len() == 0,
    {
        SqlImportResult { success: true, statements_executed: 0, errors: Vec::new() }
    }

    /// Records a refused statement's message.
    pub fn record_rejection(&mut self, message: String)
        ensures
            final(self).success == old(self).success,
            final(self).statements_executed == old(self).statements_executed,
            final(self).errors@ == old(self).errors@.push(message),
    {
        self.errors.push(message);
    }

    /// Records how running statement number `index` (from 0) went: success,
    /// or a failure that only reports existing data, counts as executed;
    /// any other failure clears `success` and is recorded as
    /// `"Statement <index + 1>: <error>"`.
    pub fn record_outcome(&mut self, index: usize, outcome: Result<(), String>)
        requires
            old(self).statements_executed < i64::MAX,
            index < usize::MAX,
        ensures
            match outcome {
                Ok(()) => {
                    &&& final(self).statements_executed == old(self).statements_executed + 1
                    &&& final(self).success == old(self).success
                    &&& final(self).errors@ == old(self).errors@
                },
                Err(e) => if is_already_present_error(e@) {
                    &&& final(self).statements_executed == old(self).statements_executed + 1
                    &&& final(self).success == old(self).success
                    &&& final(self).errors@ == old(self).errors@
                } else {
                    &&& final(self).statements_executed == old(self).statements_executed
                    &&& !final(self).success
                    &&& final(self).errors@.len() == old(self).errors@.len() + 1
                    &&& final(self).errors@.take(old(self).errors@.len() as int)
                        == old(self).errors@
                    &&& final(self).errors@.last()@ == statement_message(index as int, e@)
                },
            },
    {
        match outcome {
            Ok(()) => {
                self.statements_executed = self.statements_executed + 1;
            },
            Err(e) => {
                let ev = chars_of(e.as_str());
                let ev = ev.as_slice();
                if contains_str(ev, "already exists") || contains_str(ev, "duplicate key")
                    || contains_str(ev, "unique constraint") {
                    self.statements_executed = self.statements_executed + 1;
                } else {
                    self.success = false;
                    let m = statement_message_exec(index, e.as_str());
                    let ghost e0 = self.errors@;
                    self.errors.push(m);
                    proof {
                        assert(self.errors@.take(e0.len() as int) =~= e0);
                    }
                }
            },
        }
    }
}

// ---------------------------------------------------------------------
// Laws
// ---------------------------------------------------------------------

/// Every statement of `seqs` has text.
pub open spec fn all_nonempty(seqs: Seq<Seq<char>>) -> bool {
    forall|k: int| 0 <= k < seqs.len() ==> (#[trigger] seqs[k]).len() > 0
}

proof fn lemma_prepend_nonempty(t: Seq<char>, rest: Seq<Seq<char>>)
    requires
        t.len() > 0,
        all_nonempty(rest),
    ensures
        all_nonempty(seq![t] + rest),
{
    assert forall|k: int| 0 <= k < (seq![t] + rest).len() implies (#[trigger] (seq![t] + rest)[k]).len()
        > 0 by {
        if k > 0 {
            assert((seq![t] + rest)[k] == rest[k - 1]);
        }
    }
}

/// Statements read from any point of the text have text.
pub proof fn lemma_split_from_nonempty(s: Seq<char>, i: int, st: SplitState)
    ensures
        all_nonempty(split_from(s, i, st)),
    decreases s.len() - i,
{
    if i < 0 || i >= s.len() {
    } else {
        let c = s[i];
        let cur = st.current.push(c);
        if c == '\'' && !st.in_dollar {
            if st.in_string && i + 1 < s.len() && s[i + 1] == '\'' {
                lemma_split_from_nonempty(s, i + 2, SplitState { current: cur.push('\''), ..st });
            } else {
                lemma_split_from_nonempty(
                    s,
                    i + 1,
                    SplitState { current: cur, in_string: !st.in_string, ..st },
                );
            }
        } else if c == '$' && !st.in_string {
            lemma_tag_run_bound(s, i + 1);
            let j = i + 1 + tag_run(s, i + 1);
            let name = s.subrange(i + 1, j);
            let closed = j < s.len() && s[j] == '$';
            if st.in_dollar {
                let cur2 = if closed {
                    cur + name + seq!['$']
                } else {
                    cur + name
                };
                let potential = if closed {
                    seq!['$'] + name + seq!['$']
                } else {
                    seq!['$'] + name
                };
                let next = if closed {
                    j + 1
                } else {
                    j
                };
                if potential == st.tag {
                    lemma_split_from_nonempty(
                        s,
                        next,
                        SplitState { current: cur2, in_dollar: false, tag: seq![], ..st },
                    );
                } else {
                    lemma_split_from_nonempty(s, next, SplitState { current: cur2, ..st });
                }
            } else {
                if closed {
                    lemma_split_from_nonempty(
                        s,
                        j + 1,
                        SplitState {
                            current: cur + name + seq!['$'],
                            in_dollar: true,
                            tag: seq!['$'] + name + seq!['$'],
                            ..st
                        },
                    );
                } else {
                    lemma_split_from_nonempty(s, j, SplitState { current: cur + name, ..st });
                }
            }
        } else if c == ';' && !st.in_string && !st.in_dollar {
            let t = trim_spec(cur);
            lemma_split_from_nonempty(s, i + 1, SplitState { current: seq![], ..st });
            if t.len() > 0 && t != seq![';'] {
                lemma_prepend_nonempty(t, split_from(s, i + 1, SplitState { current: seq![], ..st }));
            }
        } else {
            lemma_split_from_nonempty(s, i + 1, SplitState { current: cur, ..st });
        }
    }
}

/// No statement split from SQL text is empty.
pub proof fn lemma_split_statements_nonempty(sql: Seq<char>)
    ensures
        all_nonempty(split_sql_spec(sql)),
{
    lemma_split_from_nonempty(
        sql,
        0,
        SplitState { current: seq![], in_string: false, in_dollar: false, tag: seq![] },
    );
}

proof fn lemma_without_char_free(s: Seq<char>, c: char)
    ensures
        forall|i: int| 0 <= i < without_char(s, c).len() ==> #[trigger] without_char(s, c)[i] != c,
    decreases s.len(),
{
    if s.len() > 0 {
        lemma_without_char_free(s.drop_last(), c);
        let prev = without_char(s.drop_last(), c);
        assert forall|i: int| 0 <= i < without_char(s, c).len() implies #[trigger] without_char(
            s,
            c,
        )[i] != c by {
            if i < prev.len() {
                assert(without_char(s, c)[i] == prev[i]);
            }
        }
    }
}

/// Converted SQL holds no backtick.
pub proof fn lemma_converted_sql_has_no_backticks(sql: Seq<char>)
    ensures
        forall|i: int|
            0 <= i < mysql_to_postgres_spec(sql).len() ==> #[trigger] mysql_to_postgres_spec(sql)[i]
                != '`',
{
    lemma_without_char_free(mysql_passes(sql, 6), '`');
}

/// Only statements that are neither dangerous nor about users are run, and
/// they run as written, trimmed.
pub proof fn lemma_executed_statements_are_safe(index: int, stmt: Seq<char>)
    ensures
        statement_action_spec(index, stmt) matches SqlActionView::Execute(t) ==> {
            &&& t == trim_spec(stmt)
            &&& t.len() > 0
            &&& !is_ignored_statement(unicode_uppercase(t))
            &&& !is_dangerous_statement(unicode_uppercase(t))
            &&& !touches_users(unicode_uppercase(t))
        },
{
}

/// Which statements of a dump run, in full: a blank statement, a comment,
/// a transaction marker or `CREATE TABLE` is passed over; `DROP`,
/// `TRUNCATE` and `CREATE DATABASE` are refused; a statement writing into
/// or reading from the users table, or an `UPDATE` or `DELETE` naming it,
/// is refused; every other statement runs as written, trimmed, whatever
/// its values hold (so an insert of a blog whose text says "users" runs).
pub proof fn lemma_statement_actions(index: int, stmt: Seq<char>)
    ensures
        ({
            let t = trim_spec(stmt);
            let u = unicode_uppercase(t);
            let passed_over = t.len() == 0 || starts_with_spec(u, "--"@) || starts_with_spec(u, "/*"@)
                || u == "BEGIN"@ || u == "COMMIT"@ || u == "START TRANSACTION"@ || starts_with_spec(
                u,
                "CREATE TABLE"@,
            );
            let dangerous = starts_with_spec(u, "DROP"@) || starts_with_spec(u, "TRUNCATE"@)
                || starts_with_spec(u, "CREATE DATABASE"@);
            let about_users = contains_spec(u, "INTO USERS"@) || contains_spec(u, "INTO `USERS`"@)
                || contains_spec(u, "INTO \"USERS\""@) || contains_spec(u, "FROM USERS"@) || ((
            starts_with_spec(u, "UPDATE"@) || starts_with_spec(u, "DELETE"@)) && contains_spec(
                u,
                "USERS"@,
            ));
            &&& passed_over ==> statement_action_spec(index, stmt) == SqlActionView::Skip
            &&& !passed_over && dangerous ==> statement_action_spec(index, stmt)
                == SqlActionView::Reject(
                "Statement "@ + decimal(index + 1) + ": Skipped dangerous operation"@,
            )
            &&& !passed_over && !dangerous && about_users ==> statement_action_spec(index, stmt)
                == SqlActionView::Reject(
                "Statement "@ + decimal(index + 1)
                    + ": Skipped user data operation (use setup page to create admin)"@,
            )
            &&& !passed_over && !dangerous && !about_users ==> statement_action_spec(index, stmt)
                == SqlActionView::Execute(t)
        }),
{
    let t = trim_spec(stmt);
    let u = unicode_uppercase(t);
    reveal_strlit(": ");
    reveal_strlit("Skipped dangerous operation");
    reveal_strlit(": Skipped dangerous operation");
    reveal_strlit("Skipped user data operation (use setup page to create admin)");
    reveal_strlit(": Skipped user data operation (use setup page to create admin)");
    assert(": "@ + "Skipped dangerous operation"@ =~= ": Skipped dangerous operation"@);
    assert(": "@ + "Skipped user data operation (use setup page to create admin)"@
        =~= ": Skipped user data operation (use setup page to create admin)"@);
    let d = decimal(index + 1);
    assert("Statement "@ + d + ": "@ + "Skipped dangerous operation"@ =~= "Statement "@ + d
        + ": Skipped dangerous operation"@);
    assert("Statement "@ + d + ": "@ + "Skipped user data operation (use setup page to create admin)"@
        =~= "Statement "@ + d + ": Skipped user data operation (use setup page to create admin)"@);
    if starts_with_spec(u, "DROP DATABASE"@) {
        reveal_strlit("DROP DATABASE");
        reveal_strlit("DROP");
        assert(u.take(4) =~= u.take(13).take(4));
        assert("DROP DATABASE"@.take(4) =~= "DROP"@);
    }
}

} // verus!
