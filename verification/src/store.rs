//! What the archive stores about a capture, the full-text query built from
//! user input, and where a capture's image file goes.

use vstd::prelude::*;

use crate::text::{
    all_ws, chars_of, is_whitespace, is_ws, lemma_trim_start, push_char, push_str,
    skip_leading_ws, trim_start, zero_padded, zero_padded_text,
};

verus! {

/// One archived capture as listed by the store.
#[derive(Debug, Clone, PartialEq)]
pub struct CaptureRow {
    pub id: i64,
    pub taken_at: String,
    pub path: String,
    pub monitor: String,
    pub width: u32,
    pub height: u32,
    pub status: String,
    /// AI description when analyzed (populated by list/search queries).
    pub description: Option<String>,
    /// Latest delivery outcome per sink, e.g. "email:sent,telegram:failed"
    /// (populated by list/search queries).
    pub delivery_summary: Option<String>,
}

/// Length of the word `t` starts with (up to the first whitespace).
pub open spec fn word_len(t: Seq<char>) -> nat
    decreases t.len(),
{
    if t.len() == 0 || is_ws(t[0]) {
        0
    } else {
        1 + word_len(t.drop_first())
    }
}

/// `w` with every `"` doubled, as FTS5 string syntax wants.
pub open spec fn escape_quotes(w: Seq<char>) -> Seq<char>
    decreases w.len(),
{
    if w.len() == 0 {
        Seq::empty()
    } else if w.last() == '"' {
        escape_quotes(w.drop_last()) + seq!['"', '"']
    } else {
        escape_quotes(w.drop_last()).push(w.last())
    }
}

/// How many `"` characters `s` holds.
pub open spec fn count_quotes(s: Seq<char>) -> nat
    decreases s.len(),
{
    if s.len() == 0 {
        0
    } else {
        count_quotes(s.drop_last()) + if s.last() == '"' {
            1nat
        } else {
            0nat
        }
    }
}

/// `s` read back from the end with each `""` pair taken as one `"`.
pub open spec fn undoubled(s: Seq<char>) -> Seq<char>
    decreases s.len(),
{
    if s.len() >= 2 && s.last() == '"' && s[s.len() - 2] == '"' {
        undoubled(s.take(s.len() - 2)).push('"')
    } else if s.len() > 0 {
        undoubled(s.drop_last()).push(s.last())
    } else {
        Seq::empty()
    }
}

proof fn lemma_count_quotes_append(a: Seq<char>, b: Seq<char>)
    ensures
        count_quotes(a + b) == count_quotes(a) + count_quotes(b),
    decreases b.len(),
{
    if b.len() > 0 {
        lemma_count_quotes_append(a, b.drop_last());
        assert((a + b).drop_last() == a + b.drop_last());
    } else {
        assert(a + b == a);
    }
}

/// Law: escaping doubles every `"` of a term and changes nothing else. The
/// escaped term is one character longer per `"`, holds twice as many `"`,
/// and reading each `""` pair back as one `"` gives the term again.
pub proof fn lemma_escape_doubles_every_quote(w: Seq<char>)
    ensures
        escape_quotes(w).len() == w.len() + count_quotes(w),
        count_quotes(escape_quotes(w)) == 2 * count_quotes(w),
        undoubled(escape_quotes(w)) == w,
    decreases w.len(),
{
    if w.len() > 0 {
        let p = w.drop_last();
        lemma_escape_doubles_every_quote(p);
        let e = escape_quotes(p);
        if w.last() == '"' {
            let q = seq!['"', '"'];
            lemma_count_quotes_append(e, q);
            assert(q.drop_last() == seq!['"']);
            assert(seq!['"'].drop_last() == Seq::<char>::empty());
            assert(count_quotes(Seq::<char>::empty()) == 0);
            assert(seq!['"'].last() == '"');
            assert(count_quotes(seq!['"']) == 1);
            assert(count_quotes(q) == 2);
            let f = e + q;
            assert(f.take(f.len() - 2) == e);
            assert(f.last() == '"' && f[f.len() - 2] == '"');
            assert(w == p.push('"'));
        } else {
            let c = w.last();
            lemma_count_quotes_append(e, seq![c]);
            assert(seq![c].drop_last() == Seq::<char>::empty());
            assert(count_quotes(Seq::<char>::empty()) == 0);
            assert(seq![c].last() == c);
            assert(count_quotes(seq![c]) == 0);
            let f = e.push(c);
            assert(f == e + seq![c]);
            assert(f.drop_last() == e);
            assert(w == p.push(c));
        }
    }
}

/// A term as an FTS5 string.
pub open spec fn quoted(w: Seq<char>) -> Seq<char> {
    seq!['"'] + escape_quotes(w) + seq!['"']
}

pub proof fn lemma_word_len(t: Seq<char>)
    ensures
        word_len(t) <= t.len(),
        t.len() > 0 && !is_ws(t[0]) ==> word_len(t) >= 1,
    decreases t.len(),
{
    if t.len() > 0 && !is_ws(t[0]) {
        lemma_word_len(t.drop_first());
    }
}

/// The whitespace-separated terms of `s`, each quoted, joined by single
/// spaces (`first`: no space before the first term).
pub open spec fn fts_terms(s: Seq<char>, first: bool) -> Seq<char>
    decreases s.len(),
{
    let t = trim_start(s);
    if t.len() == 0 {
        Seq::empty()
    } else {
        proof {
            lemma_trim_start(s);
            lemma_word_len(t);
        }
        let k = word_len(t);
        (if first {
            Seq::empty()
        } else {
            seq![' ']
        }) + quoted(t.take(k as int)) + fts_terms(t.skip(k as int), false)
    }
}

/// The full-text query for user input: every whitespace-separated term is
/// quoted (inner quotes doubled) so user input can't break the FTS5 query
/// syntax; terms are joined by spaces, so all of them must match.
pub open spec fn fts_query_of(query: Seq<char>) -> Seq<char> {
    fts_terms(query, true)
}

/// Appends `v[a..b]` as an FTS5 string.
fn push_quoted(out: &mut String, v: &Vec<char>, a: usize, b: usize)
    requires
        a <= b <= v.len(),
    ensures
        final(out)@ == old(out)@ + quoted(v@.subrange(a as int, b as int)),
{
    push_char(out, '"');
    let mut i = a;
    while i < b
        invariant
            a <= i <= b <= v.len(),
            out@ == old(out)@ + seq!['"'] + escape_quotes(v@.subrange(a as int, i as int)),
        decreases b - i,
    {
        let c = v[i];
        proof {
            assert(v@.subrange(a as int, i + 1).drop_last() == v@.subrange(a as int, i as int));
        }
        push_char(out, c);
        if c == '"' {
            push_char(out, '"');
        }
        i += 1;
    }
    push_char(out, '"');
}

/// Build the FTS5 query for a search box's text.
pub fn fts_query(query: &str) -> (r: String)
    ensures
        r@ == fts_query_of(query@),
{
    let v = chars_of(query);
    let n = v.len();
    let mut out = String::new();
    let mut i: usize = 0;
    let mut first = true;
    proof {
        assert(v@.subrange(0, n as int) == v@);
    }
    loop
        invariant
            i <= n == v@.len(),
            out@ + fts_terms(v@.subrange(i as int, n as int), first) == fts_query_of(query@),
            v@ == query@,
        decreases n - i,
    {
        let a = skip_leading_ws(&v, i, n);
        if a == n {
            proof {
                assert(v@.subrange(a as int, n as int).len() == 0);
            }
            return out;
        }
        let mut b = a;
        while b < n && !is_whitespace(v[b])
            invariant
                a <= b <= n == v@.len(),
                word_len(v@.subrange(a as int, n as int)) == (b - a) + word_len(
                    v@.subrange(b as int, n as int),
                ),
            decreases n - b,
        {
            assert(v@.subrange(b as int, n as int).drop_first() == v@.subrange(b + 1, n as int));
            b += 1;
        }
        proof {
            let t = v@.subrange(a as int, n as int);
            assert(word_len(v@.subrange(b as int, n as int)) == 0);
            assert(t.take(b - a) == v@.subrange(a as int, b as int));
            assert(t.skip(b - a) == v@.subrange(b as int, n as int));
            lemma_trim_start(v@.subrange(i as int, n as int));
        }
        if !first {
            push_char(&mut out, ' ');
        }
        push_quoted(&mut out, &v, a, b);
        i = b;
        first = false;
    }
}

/// Only whitespace has no leading non-whitespace left after trimming.
proof fn lemma_trim_start_empty(s: Seq<char>)
    ensures
        trim_start(s).len() == 0 <==> all_ws(s),
    decreases s.len(),
{
    if s.len() > 0 && is_ws(s[0]) {
        lemma_trim_start_empty(s.drop_first());
        if all_ws(s.drop_first()) {
            assert forall|i: int| 0 <= i < s.len() implies is_ws(#[trigger] s[i]) by {
                if i > 0 {
                    assert(s[i] == s.drop_first()[i - 1]);
                }
            }
        }
        if all_ws(s) {
            assert forall|i: int| 0 <= i < s.drop_first().len() implies is_ws(
                #[trigger] s.drop_first()[i],
            ) by {
                assert(s.drop_first()[i] == s[i + 1]);
            }
        }
    } else if s.len() > 0 {
        assert(!is_ws(s[0]));
    }
}

/// Law: a search query yields no full-text query exactly when the input is
/// blank, so a blank search returns no rows and any other input is searched.
pub proof fn lemma_fts_query_empty_iff_blank(query: Seq<char>)
    ensures
        fts_query_of(query).len() == 0 <==> all_ws(query),
{
    lemma_trim_start_empty(query);
}

/// Ids of the captures whose image file is gone (`exists[i]` tells whether
/// `captures[i]`'s file is still on disk).
pub fn stale_capture_ids(captures: &Vec<(i64, String)>, exists: &Vec<bool>) -> (r: Vec<i64>)
    requires
        captures@.len() == exists@.len(),
    ensures
        r@ == stale_ids_of(captures@, exists@),
{
    let mut r: Vec<i64> = Vec::new();
    let mut i: usize = 0;
    while i < captures.len()
        invariant
            i <= captures@.len() == exists@.len(),
            r@ == stale_ids_of(captures@.take(i as int), exists@.take(i as int)),
        decreases captures.len() - i,
    {
        proof {
            assert(captures@.take(i + 1).drop_last() == captures@.take(i as int));
            assert(exists@.take(i + 1).drop_last() == exists@.take(i as int));
        }
        if !exists[i] {
            r.push(captures[i].0);
        }
        i += 1;
    }
    proof {
        assert(captures@.take(captures@.len() as int) == captures@);
        assert(exists@.take(exists@.len() as int) == exists@);
    }
    r
}

/// The ids, in order, of the captures flagged as missing.
pub open spec fn stale_ids_of(captures: Seq<(i64, String)>, exists: Seq<bool>) -> Seq<i64>
    decreases captures.len(),
{
    if captures.len() == 0 || exists.len() == 0 {
        Seq::empty()
    } else if exists.last() {
        stale_ids_of(captures.drop_last(), exists.drop_last())
    } else {
        stale_ids_of(captures.drop_last(), exists.drop_last()).push(captures.last().0)
    }
}

/// The directory, under the data directory, that holds the captures.
pub const CAPTURES_DIR: &'static str = "captures";

/// The dated directories a capture taken on a local date is filed under:
/// year (at least four digits), month and day (two digits each), so a
/// capture lands in `captures/YYYY/MM/DD/`.
pub fn capture_dirs(year: u32, month: u32, day: u32) -> (r: (String, String, String))
    ensures
        r.0@ == zero_padded(year as nat, 4),
        r.1@ == zero_padded(month as nat, 2),
        r.2@ == zero_padded(day as nat, 2),
{
    (
        zero_padded_text(year as u64, 4),
        zero_padded_text(month as u64, 2),
        zero_padded_text(day as u64, 2),
    )
}

/// The file name of a capture taken at a local time of day:
/// `screen_HHMMSS_mmm.<ext>`.
pub fn capture_file_name(hour: u32, minute: u32, second: u32, millis: u32, ext: &str) -> (r:
    String)
    ensures
        r@ == "screen_"@ + zero_padded(hour as nat, 2) + zero_padded(minute as nat, 2)
            + zero_padded(second as nat, 2) + "_"@ + zero_padded(millis as nat, 3) + "."@ + ext@,
{
    let mut r = String::new();
    push_str(&mut r, "screen_");
    let h = zero_padded_text(hour as u64, 2);
    push_str(&mut r, h.as_str());
    let m = zero_padded_text(minute as u64, 2);
    push_str(&mut r, m.as_str());
    let sec = zero_padded_text(second as u64, 2);
    push_str(&mut r, sec.as_str());
    push_str(&mut r, "_");
    let ms = zero_padded_text(millis as u64, 3);
    push_str(&mut r, ms.as_str());
    push_str(&mut r, ".");
    push_str(&mut r, ext);
    r
}


/// How many entries of `e` are `false`.
pub open spec fn count_false(e: Seq<bool>) -> nat
    decreases e.len(),
{
    if e.len() == 0 {
        0
    } else {
        count_false(e.drop_last()) + if e.last() {
            0nat
        } else {
            1nat
        }
    }
}

/// Law: the stale ids are exactly the ids of the captures whose file is
/// gone: one per missing file (so as many as there are `false` flags),
/// every missing capture's id among them, and nothing but such ids.
pub proof fn lemma_stale_ids_are_the_missing(captures: Seq<(i64, String)>, exists: Seq<bool>)
    requires
        captures.len() == exists.len(),
    ensures
        stale_ids_of(captures, exists).len() == count_false(exists),
        forall|i: int|
            0 <= i < captures.len() && !exists[i] ==> stale_ids_of(captures, exists).contains(
                (#[trigger] captures[i]).0,
            ),
        forall|k: int|
            0 <= k < stale_ids_of(captures, exists).len() ==> exists|i: int|
                0 <= i < captures.len() && !exists[i] && captures[i].0 == #[trigger] stale_ids_of(
                    captures,
                    exists,
                )[k],
    decreases captures.len(),
{
    if captures.len() > 0 {
        let cp = captures.drop_last();
        let ep = exists.drop_last();
        let n = captures.len() - 1;
        lemma_stale_ids_are_the_missing(cp, ep);
        let prev = stale_ids_of(cp, ep);
        let cur = stale_ids_of(captures, exists);
        assert forall|i: int|
            0 <= i < captures.len() && !exists[i] implies cur.contains((#[trigger] captures[i]).0) by {
            if i < n {
                assert(cp[i] == captures[i]);
                assert(ep[i] == exists[i]);
                assert(prev.contains(cp[i].0));
                let k = choose|k: int| 0 <= k < prev.len() && prev[k] == cp[i].0;
                assert(cur[k] == prev[k]);
            } else {
                assert(cur[prev.len() as int] == captures[i].0);
            }
        }
        assert forall|k: int| 0 <= k < cur.len() implies exists|i: int|
            0 <= i < captures.len() && !exists[i] && captures[i].0 == #[trigger] cur[k] by {
            if k < prev.len() {
                assert(cur[k] == prev[k]);
                let i = choose|i: int| 0 <= i < cp.len() && !ep[i] && cp[i].0 == prev[k];
                assert(cp[i] == captures[i] && ep[i] == exists[i]);
            } else {
                assert(!exists[n] && captures[n].0 == cur[k]);
            }
        }
    }
}

} // verus!
