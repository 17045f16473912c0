//! Ollama's streamed model download: the response arrives as chunks of
//! newline-delimited JSON, which are cut into complete lines, and each
//! line is either blank, an error report, or a progress record.

use vstd::prelude::*;

use crate::error::CoreError;
use crate::llm::ollama_error;
use crate::llm::prompts::json_string_member;
use crate::pipeline::flatten;
use crate::text::{trim, trimmed};

verus! {

pub open spec fn no_newline(s: Seq<u8>) -> bool {
    forall|i: int| 0 <= i < s.len() ==> #[trigger] s[i] != 10u8
}

/// A complete line: ends with a newline and holds no other.
pub open spec fn is_line(l: Seq<u8>) -> bool {
    l.len() > 0 && l.last() == 10u8 && no_newline(l.drop_last())
}

pub open spec fn lines_view(v: Seq<Vec<u8>>) -> Seq<Seq<u8>> {
    v.map_values(|l: Vec<u8>| l@)
}

/// Bytes received but not yet ended by a newline.
pub struct LineBuffer {
    pending: Vec<u8>,
}

impl LineBuffer {
    #[verifier::type_invariant]
    spec fn wf(self) -> bool {
        no_newline(self.pending@)
    }

    /// The bytes waiting for their line to end.
    pub closed spec fn pending(&self) -> Seq<u8> {
        self.pending@
    }

    pub fn new() -> (r: LineBuffer)
        ensures
            r.pending() == Seq::<u8>::empty(),
    {
        LineBuffer { pending: Vec::new() }
    }

    /// Takes a chunk and hands back every line it completes, in order. No
    /// byte is lost or duplicated: the lines followed by what stays pending
    /// are what was pending followed by the chunk; every line ends with its
    /// only newline; what stays pending holds no newline.
    pub fn push_chunk(&mut self, chunk: &[u8]) -> (lines: Vec<Vec<u8>>)
        ensures
            flatten(lines_view(lines@)) + final(self).pending() == old(self).pending() + chunk@,
            forall|k: int| 0 <= k < lines@.len() ==> is_line(#[trigger] lines@[k]@),
            no_newline(final(self).pending()),
    {
        proof {
            use_type_invariant(&*self);
        }
        let mut data: Vec<u8> = Vec::new();
        let mut j: usize = 0;
        while j < self.pending.len()
            invariant
                j <= self.pending@.len(),
                data@ == self.pending@.take(j as int),
            decreases self.pending.len() - j,
        {
            data.push(self.pending[j]);
            assert(self.pending@.take(j + 1) == self.pending@.take(j as int).push(self.pending@[j as int]));
            j += 1;
        }
        let mut j: usize = 0;
        while j < chunk.len()
            invariant
                j <= chunk@.len(),
                data@ == self.pending@ + chunk@.take(j as int),
            decreases chunk.len() - j,
        {
            data.push(chunk[j]);
            assert(chunk@.take(j + 1) == chunk@.take(j as int).push(chunk@[j as int]));
            j += 1;
        }
        assert(chunk@.take(chunk@.len() as int) == chunk@);
        assert(self.pending@.take(self.pending@.len() as int) == self.pending@);
        let ghost all = data@;
        let mut lines: Vec<Vec<u8>> = Vec::new();
        let mut line: Vec<u8> = Vec::new();
        let mut i: usize = 0;
        while i < data.len()
            invariant
                data@ == all,
                i <= all.len(),
                flatten(lines_view(lines@)) + line@ == all.take(i as int),
                no_newline(line@),
                forall|k: int| 0 <= k < lines@.len() ==> is_line(#[trigger] lines@[k]@),
            decreases data.len() - i,
        {
            let b = data[i];
            line.push(b);
            proof {
                assert(all.take(i + 1) == all.take(i as int).push(b));
            }
            if b == 10u8 {
                let mut done: Vec<u8> = Vec::new();
                std::mem::swap(&mut done, &mut line);
                let ghost before = lines@;
                lines.push(done);
                proof {
                    assert(lines_view(lines@).drop_last() == lines_view(before));
                    assert(done@.drop_last() =~= done@.take(done@.len() - 1));
                }
            }
            i += 1;
        }
        proof {
            assert(all.take(all.len() as int) == all);
        }
        self.pending = line;
        lines
    }
}

/// What `String::from_utf8_lossy` reads from `bytes`.
pub uninterp spec fn lossy_utf8(bytes: Seq<u8>) -> Seq<char>;

/// Calls `String::from_utf8_lossy`. Claims the result is `lossy_utf8` of the
/// bytes and, as its documentation says, just the decoded text when the
/// bytes are valid UTF-8 (invalid sequences become U+FFFD, which is not
/// stated here).
#[verifier::external_body]
fn lossy_text(bytes: &[u8]) -> (r: String)
    ensures
        r@ == lossy_utf8(bytes@),
        vstd::utf8::valid_utf8(bytes@) ==> r@ == vstd::utf8::decode_utf8(bytes@),
{
    String::from_utf8_lossy(bytes).into_owned()
}

/// One line of the pull stream.
pub enum PullLine {
    /// Nothing but whitespace.
    Blank,
    /// The server reported an error; the download stops.
    Failed(CoreError),
    /// Anything else, trimmed: a progress record when it parses as one.
    Record(String),
}

/// Sorts a line of the pull stream: blank lines are skipped; a JSON object
/// with a string `error` member stops the download with that message.
pub fn pull_line(bytes: &[u8]) -> (r: PullLine)
    ensures
        ({
            let t = trim(lossy_utf8(bytes@));
            &&& t.len() == 0 ==> r is Blank
            &&& t.len() > 0 ==> match json_string_member(t, "error"@) {
                Some(Some(m)) => (r matches PullLine::Failed(CoreError::Llm(x)) && x@ == "ollama: "@
                    + m),
                _ => (r matches PullLine::Record(s) && s@ == t),
            }
        }),
{
    let text = lossy_text(bytes);
    let t = trimmed(text.as_str());
    if t.as_str().is_empty() {
        return PullLine::Blank;
    }
    match crate::llm::prompts::json_str_member(t.as_str(), "error") {
        Some(Some(m)) => PullLine::Failed(ollama_error(m.as_str())),
        _ => PullLine::Record(t),
    }
}

} // verus!
