//! The analysis prompt and a lenient parser for model output. Small vision
//! models frequently wrap JSON in prose or code fences, or prefix their
//! answer with a reasoning block.

use vstd::prelude::*;

use crate::text::{
    all_ws, chars_of, find_from, find_in, has_prefix, has_suffix, is_ws, lemma_find_from,
    lemma_rfind, lemma_trim_span,
    opt_view, rfind_char_before, rfind_in, starts_with_at, ends_with_at, string_from, trim,
    trim_range,
};

verus! {

pub const DEFAULT_PROMPT: &'static str = "You are analyzing a screenshot from the user's own computer. Respond with ONLY a JSON object, no other text:\n{\"ocr\": \"<transcribe all legible on-screen text, preserving line structure>\", \"description\": \"<2-3 sentences: which application/activity is shown and what the user is doing>\"}";

/// What `serde_json` reads from `text`: `None` when `text` is not a JSON
/// document; otherwise `Some` of member `key` when the document is an object
/// whose member `key` is a JSON string, and `Some(None)` in every other case.
pub uninterp spec fn json_string_member(text: Seq<char>, key: Seq<char>) -> Option<
    Option<Seq<char>>,
>;

/// Calls `serde_json::from_str::<serde_json::Value>` on `text`, then
/// `Value::get(key)` and `Value::as_str`. The contract ties the result to
/// `json_string_member`, and states that a string member is only found in a
/// text holding a `{` (only an object has members); how JSON is parsed is
/// otherwise left to serde_json.
#[verifier::external_body]
pub(crate) fn json_str_member(text: &str, key: &str) -> (r: Option<Option<String>>)
    ensures
        r is None <==> json_string_member(text@, key@) is None,
        r matches Some(m) ==> json_string_member(text@, key@) == Some(opt_view(m)),
        r is Some && r->0 is Some ==> text@.contains('{'),
{
    match serde_json::from_str::<serde_json::Value>(text) {
        Ok(value) => Some(value.get(key).and_then(|v| v.as_str()).map(|s| s.to_string())),
        Err(_) => None,
    }
}

pub open spec fn or_empty(o: Option<Seq<char>>) -> Seq<char> {
    match o {
        Some(s) => s,
        None => Seq::empty(),
    }
}

/// The (ocr, description) pair a candidate text yields: it must be a JSON
/// document, and at least one of the two string members must be non-empty.
pub open spec fn candidate_fields(c: Seq<char>) -> Option<(Seq<char>, Seq<char>)> {
    match (json_string_member(c, "ocr"@), json_string_member(c, "description"@)) {
        (Some(o), Some(d)) => {
            let ocr = or_empty(o);
            let desc = or_empty(d);
            if ocr.len() > 0 || desc.len() > 0 {
                Some((ocr, desc))
            } else {
                None
            }
        },
        _ => None,
    }
}

pub open spec fn think_open() -> Seq<char> {
    seq!['<', 't', 'h', 'i', 'n', 'k', '>']
}

pub open spec fn think_close() -> Seq<char> {
    seq!['<', '/', 't', 'h', 'i', 'n', 'k', '>']
}

pub open spec fn fence() -> Seq<char> {
    seq!['`', '`', '`']
}

pub open spec fn json_fence() -> Seq<char> {
    seq!['`', '`', '`', 'j', 's', 'o', 'n']
}

/// `s[k..]` with every `<think>…</think>` block removed; an unterminated
/// block swallows the rest of the text.
pub open spec fn without_think_from(s: Seq<char>, k: int) -> Seq<char>
    decreases s.len() + 1 - k,
{
    if k < 0 || k > s.len() {
        Seq::empty()
    } else {
        match find_from(s, think_open(), k) {
            None => s.subrange(k, s.len() as int),
            Some(a) => {
                match find_from(s, think_close(), a) {
                    None => s.subrange(k, a),
                    Some(b) => {
                        proof {
                            lemma_find_from(s, think_open(), k);
                            lemma_find_from(s, think_close(), a);
                        }
                        s.subrange(k, a) + without_think_from(s, b + 8)
                    },
                }
            },
        }
    }
}

pub open spec fn without_think(s: Seq<char>) -> Seq<char> {
    without_think_from(s, 0)
}

/// The text between a leading ```` ```json ```` (or ```` ``` ````) fence and a
/// trailing ```` ``` ````, trimmed; the trimmed text when not fenced.
pub open spec fn unfenced(raw: Seq<char>) -> Seq<char> {
    let t = trim(raw);
    let after = if has_prefix(t, json_fence()) {
        Some(t.skip(7))
    } else if has_prefix(t, fence()) {
        Some(t.skip(3))
    } else {
        None
    };
    match after {
        Some(a) => if has_suffix(a, fence()) {
            trim(a.take(a.len() - 3))
        } else {
            t
        },
        None => t,
    }
}

/// From the first `{` to the last `}`, when the latter comes after the former.
pub open spec fn braced_span(s: Seq<char>) -> Option<Seq<char>> {
    match (find_from(s, seq!['{'], 0), rfind_char_before(s, '}', s.len() as int)) {
        (Some(a), Some(b)) => if b > a {
            Some(s.subrange(a, b + 1))
        } else {
            None
        },
        _ => None,
    }
}

/// The first candidate (trimmed text, unfenced text, outer braces) that
/// yields fields; nothing at all when the text has no `{…}` span.
pub open spec fn json_fields(raw: Seq<char>) -> Option<(Seq<char>, Seq<char>)> {
    match braced_span(raw) {
        None => None,
        Some(ob) => match candidate_fields(trim(raw)) {
            Some(p) => Some(p),
            None => match candidate_fields(unfenced(raw)) {
                Some(p) => Some(p),
                None => candidate_fields(ob),
            },
        },
    }
}

/// (ocr, description) extracted from raw model output: reasoning blocks are
/// removed, then JSON is looked for; failing that, the whole trimmed answer
/// becomes the description.
pub open spec fn parsed_response(raw: Seq<char>) -> (Seq<char>, Seq<char>) {
    let cleaned = without_think(raw);
    match json_fields(cleaned) {
        Some(p) => p,
        None => (Seq::empty(), trim(cleaned)),
    }
}

/// `s` has no occurrence of `p` at or after `i` when `s` never holds `p`'s
/// first character.
proof fn lemma_not_found(s: Seq<char>, p: Seq<char>, i: int)
    requires
        0 <= i,
        p.len() > 0,
        forall|k: int| 0 <= k < s.len() ==> s[k] != p[0],
    ensures
        find_from(s, p, i) is None,
{
    lemma_find_from(s, p, i);
    if find_from(s, p, i) is Some {
        let j = find_from(s, p, i)->0;
        assert(s.subrange(j, j + p.len())[0] == s[j]);
    }
}

/// Law: a reply that is plain prose (no `{`, so no JSON object, and no `<`,
/// so no reasoning block) yields no on-screen text, and its description is
/// the whole reply with only the surrounding whitespace removed: one
/// contiguous piece `raw[a..b]` that starts and ends with non-whitespace,
/// with nothing but whitespace before and after it. No line or character
/// inside it is dropped.
pub proof fn lemma_prose_reply_kept_whole(raw: Seq<char>) -> (ab: (int, int))
    requires
        forall|k: int| 0 <= k < raw.len() ==> raw[k] != '{' && raw[k] != '<',
    ensures
        parsed_response(raw).0.len() == 0,
        0 <= ab.0 <= ab.1 <= raw.len(),
        parsed_response(raw).1 == raw.subrange(ab.0, ab.1),
        forall|i: int| 0 <= i < ab.0 ==> is_ws(#[trigger] raw[i]),
        forall|i: int| ab.1 <= i < raw.len() ==> is_ws(#[trigger] raw[i]),
        ab.0 < ab.1 ==> !is_ws(raw[ab.0]) && !is_ws(raw[ab.1 - 1]),
{
    lemma_not_found(raw, think_open(), 0);
    assert(raw.subrange(0, raw.len() as int) == raw);
    assert(without_think(raw) == raw);
    lemma_not_found(raw, seq!['{'], 0);
    assert(braced_span(raw) is None);
    lemma_trim_span(raw)
}

/// Law: whenever no JSON candidate of the cleaned reply (the reply with its
/// reasoning blocks removed) yields fields, the result has no on-screen text
/// and the description is the whole cleaned reply with only the surrounding
/// whitespace removed: one contiguous piece `cleaned[a..b]` that starts and
/// ends with non-whitespace, with nothing but whitespace before and after.
pub proof fn lemma_fallback_keeps_whole(raw: Seq<char>) -> (ab: (int, int))
    requires
        json_fields(without_think(raw)) is None,
    ensures
        parsed_response(raw).0.len() == 0,
        0 <= ab.0 <= ab.1 <= without_think(raw).len(),
        parsed_response(raw).1 == without_think(raw).subrange(ab.0, ab.1),
        forall|i: int| 0 <= i < ab.0 ==> is_ws(#[trigger] without_think(raw)[i]),
        forall|i: int|
            ab.1 <= i < without_think(raw).len() ==> is_ws(#[trigger] without_think(raw)[i]),
        ab.0 < ab.1 ==> !is_ws(without_think(raw)[ab.0]) && !is_ws(without_think(raw)[ab.1 - 1]),
{
    lemma_trim_span(without_think(raw))
}

/// Extracted (ocr, description) from raw model output.
pub fn parse_response(raw: &str) -> (r: (String, String))
    ensures
        (r.0@, r.1@) == parsed_response(raw@),
{
    let v = chars_of(raw);
    let cleaned = think_stripped(&v);
    match try_parse_json(&cleaned) {
        Some(pair) => pair,
        None => {
            let (a, b) = trim_range(&cleaned, 0, cleaned.len());
            proof {
                assert(cleaned@.subrange(0, cleaned.len() as int) == cleaned@);
            }
            (String::new(), string_from(&cleaned, a, b))
        },
    }
}

/// `raw` with every `<think>…</think>` reasoning block removed; an
/// unterminated block drops everything after its opening tag.
pub fn strip_think_blocks(raw: &str) -> (r: String)
    ensures
        r@ == without_think(raw@),
{
    let v = chars_of(raw);
    let out = think_stripped(&v);
    string_from(&out, 0, out.len())
}

/// The text inside a ```` ```json ```` / ```` ``` ```` fence, trimmed; the
/// trimmed text itself when it is not fenced on both ends.
pub fn strip_fences(raw: &str) -> (r: String)
    ensures
        r@ == unfenced(raw@),
{
    let v = chars_of(raw);
    let (a, b) = fence_bounds(&v);
    string_from(&v, a, b)
}

/// The span from the first `{` through the last `}`, when the last `}` comes
/// after the first `{`.
pub fn outer_braces(raw: &str) -> (r: Option<String>)
    ensures
        opt_view(r) == braced_span(raw@),
{
    let v = chars_of(raw);
    match brace_bounds(&v) {
        Some((a, b)) => Some(string_from(&v, a, b)),
        None => None,
    }
}

/// Reasoning models often prefix their answer with `<think>…</think>`.
/// Remove those blocks so only the final answer is parsed.
fn think_stripped(v: &Vec<char>) -> (out: Vec<char>)
    ensures
        out@ == without_think(v@),
{
    let open: Vec<char> = vec!['<', 't', 'h', 'i', 'n', 'k', '>'];
    let close: Vec<char> = vec!['<', '/', 't', 'h', 'i', 'n', 'k', '>'];
    assert(open@ == think_open());
    assert(close@ == think_close());
    let mut out: Vec<char> = Vec::new();
    let mut k: usize = 0;
    loop
        invariant
            k <= v.len(),
            open@ == think_open(),
            close@ == think_close(),
            out@ + without_think_from(v@, k as int) == without_think(v@),
        decreases v.len() - k,
    {
        match find_in(v, &open, k) {
            None => {
                append_range(&mut out, v, k, v.len());
                return out;
            },
            Some(a) => {
                proof {
                    lemma_find_from(v@, think_open(), k as int);
                }
                append_range(&mut out, v, k, a);
                match find_in(v, &close, a) {
                    None => {
                        assert(out@ == without_think(v@));
                        return out;
                    },
                    Some(b) => {
                        proof {
                            lemma_find_from(v@, think_close(), a as int);
                            assert(out@ + without_think_from(v@, b + 8) == without_think(v@));
                        }
                        k = b + 8;
                    },
                }
            },
        }
    }
}

/// Appends `v[lo..hi]` to `out`.
fn append_range(out: &mut Vec<char>, v: &Vec<char>, lo: usize, hi: usize)
    requires
        lo <= hi <= v.len(),
    ensures
        final(out)@ == old(out)@ + v@.subrange(lo as int, hi as int),
{
    let mut i = lo;
    while i < hi
        invariant
            lo <= i <= hi <= v.len(),
            out@ == old(out)@ + v@.subrange(lo as int, i as int),
        decreases hi - i,
    {
        out.push(v[i]);
        assert(v@.subrange(lo as int, i + 1) == v@.subrange(lo as int, i as int).push(v@[i as int]));
        i += 1;
    }
}

/// Fields from one candidate text.
fn fields_of(candidate: &str) -> (r: Option<(String, String)>)
    ensures
        r matches Some(p) ==> candidate_fields(candidate@) == Some((p.0@, p.1@)),
        r is None ==> candidate_fields(candidate@) is None,
{
    let ocr = json_str_member(candidate, "ocr");
    let description = json_str_member(candidate, "description");
    match (ocr, description) {
        (Some(o), Some(d)) => {
            let o = match o {
                Some(s) => s,
                None => String::new(),
            };
            let d = match d {
                Some(s) => s,
                None => String::new(),
            };
            if o.as_str().is_empty() && d.as_str().is_empty() {
                None
            } else {
                Some((o, d))
            }
        },
        _ => None,
    }
}

/// Bounds of `unfenced(v)` inside `v`.
fn fence_bounds(v: &Vec<char>) -> (r: (usize, usize))
    ensures
        r.0 <= r.1 <= v.len(),
        v@.subrange(r.0 as int, r.1 as int) == unfenced(v@),
{
    let (a, b) = trim_range(v, 0, v.len());
    proof {
        assert(v@.subrange(0, v.len() as int) == v@);
    }
    let ghost t = v@.subrange(a as int, b as int);
    let plain: Vec<char> = vec!['`', '`', '`'];
    let tagged: Vec<char> = vec!['`', '`', '`', 'j', 's', 'o', 'n'];
    assert(plain@ == fence());
    assert(tagged@ == json_fence());
    let start = if starts_with_at(v, a, b, &tagged) {
        assert(t.take(7) == v@.subrange(a as int, a + 7));
        a + 7
    } else if starts_with_at(v, a, b, &plain) {
        assert(t.take(3) == v@.subrange(a as int, a + 3));
        a + 3
    } else {
        assert(!has_prefix(t, json_fence()) && !has_prefix(t, fence())) by {
            if has_prefix(t, json_fence()) {
                assert(t.take(7) == v@.subrange(a as int, a + 7));
            }
            if has_prefix(t, fence()) {
                assert(t.take(3) == v@.subrange(a as int, a + 3));
            }
        }
        return (a, b);
    };
    assert(v@.subrange(start as int, b as int) == t.skip(start - a));
    if ends_with_at(v, start, b, &plain) {
        let (c, d) = trim_range(v, start, b - 3);
        assert(v@.subrange(start as int, b - 3) == t.skip(start - a).take(b - start - 3));
        assert(v@.subrange(b - 3, b as int) == t.skip(start - a).skip(b - start - 3));
        (c, d)
    } else {
        proof {
            if has_suffix(t.skip(start - a), fence()) {
                assert(v@.subrange(b - 3, b as int) == t.skip(start - a).skip(b - start - 3));
            }
        }
        (a, b)
    }
}

/// Bounds of `braced_span(v)` inside `v`.
fn brace_bounds(v: &Vec<char>) -> (r: Option<(usize, usize)>)
    ensures
        r matches Some(p) ==> p.0 <= p.1 <= v.len() && braced_span(v@) == Some(
            v@.subrange(p.0 as int, p.1 as int),
        ),
        r is None ==> braced_span(v@) is None,
{
    let brace: Vec<char> = vec!['{'];
    assert(brace@ == seq!['{']);
    let start = find_in(v, &brace, 0);
    let end = rfind_in(v, '}');
    match (start, end) {
        (Some(a), Some(b)) => {
            proof {
                lemma_rfind(v@, '}', v.len() as int);
            }
            if b > a {
                Some((a, b + 1))
            } else {
                None
            }
        },
        _ => None,
    }
}

/// The JSON may be fenced (```json ... ```) or surrounded by prose; find
/// the outermost braces and try progressively.
fn try_parse_json(v: &Vec<char>) -> (r: Option<(String, String)>)
    ensures
        r matches Some(p) ==> json_fields(v@) == Some((p.0@, p.1@)),
        r is None ==> json_fields(v@) is None,
{
    let braces = match brace_bounds(v) {
        Some(p) => p,
        None => return None,
    };
    let (a, b) = trim_range(v, 0, v.len());
    proof {
        assert(v@.subrange(0, v.len() as int) == v@);
    }
    let first = string_from(v, a, b);
    if let Some(p) = fields_of(first.as_str()) {
        return Some(p);
    }
    let (c, d) = fence_bounds(v);
    let second = string_from(v, c, d);
    if let Some(p) = fields_of(second.as_str()) {
        return Some(p);
    }
    let third = string_from(v, braces.0, braces.1);
    fields_of(third.as_str())
}

} // verus!
