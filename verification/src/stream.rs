//! Reassembling lines from the output streams of a child process.
//!
//! Progress output ends its lines with either `'\n'` or a bare `'\r'` (ffmpeg
//! redraws one line in place), and arrives in chunks that may cut a line anywhere.
//! `LineAssembler` turns the chunks into the non-empty runs between line breaks.
//! `ErrorLog` keeps the non-blank lines of an error stream.
use vstd::prelude::*;
use vstd::string::StringExecFns;
use crate::text::{chars_of, contains, push_char, string_of, text_contains, trim, trim_text, views};
use crate::tools::{text_from_bytes, utf8_lossy};

verus! {

/// `c` ends a line of progress output.
pub open spec fn is_line_break(c: char) -> bool {
    c == '\n' || c == '\r'
}

/// Reading `chunk` with `pending` characters held back: the lines completed and the
/// characters held back afterwards. A line break completes the held-back run when it
/// is not empty; any other character extends the run.
pub open spec fn feed_lines(pending: Seq<char>, chunk: Seq<char>) -> (Seq<Seq<char>>, Seq<char>)
    decreases chunk.len(),
{
    if chunk.len() == 0 {
        (Seq::empty(), pending)
    } else {
        let (done, rest) = feed_lines(pending, chunk.drop_last());
        let c = chunk.last();
        if is_line_break(c) {
            if rest.len() > 0 {
                (done.push(rest), Seq::empty())
            } else {
                (done, rest)
            }
        } else {
            (done, rest.push(c))
        }
    }
}

/// Splits streamed text into lines at `'\n'` and `'\r'`, skipping empty lines.
pub struct LineAssembler {
    pending: Vec<char>,
}

impl View for LineAssembler {
    type V = Seq<char>;

    /// The characters read since the last completed line.
    closed spec fn view(&self) -> Seq<char> {
        self.pending@
    }
}

impl LineAssembler {
    /// An assembler that holds nothing back.
    pub fn new() -> (r: Self)
        ensures
            r@ == Seq::<char>::empty(),
    {
        LineAssembler { pending: Vec::new() }
    }

    /// Reads `chunk` and returns the lines it completes, in order.
    pub fn feed(&mut self, chunk: &str) -> (lines: Vec<String>)
        ensures
            (views(lines@), final(self)@) == feed_lines(old(self)@, chunk@),
    {
        let cs = chars_of(chunk);
        let mut lines: Vec<String> = Vec::new();
        let ghost start = self.pending@;
        proof {
            assert(cs@.take(0) =~= Seq::<char>::empty());
        }
        for i in 0..cs.len()
            invariant
                cs@ == chunk@,
                (views(lines@), self.pending@) == feed_lines(start, cs@.take(i as int)),
        {
            let c = cs[i];
            proof {
                assert(cs@.take(i + 1).drop_last() =~= cs@.take(i as int));
                assert(cs@.take(i + 1).last() == c);
            }
            if c == '\n' || c == '\r' {
                if self.pending.len() > 0 {
                    let ghost old_views = views(lines@);
                    lines.push(string_of(self.pending.as_slice()));
                    self.pending = Vec::new();
                    proof {
                        assert(views(lines@) =~= old_views.push(feed_lines(start, cs@.take(i as int)).1));
                        assert(self.pending@ =~= Seq::<char>::empty());
                    }
                }
            } else {
                self.pending.push(c);
            }
        }
        proof {
            assert(cs@.take(cs@.len() as int) =~= cs@);
        }
        lines
    }

    /// Reads a chunk of raw output, decoded as `String::from_utf8_lossy` decodes it,
    /// and returns the lines it completes, in order.
    pub fn feed_bytes(&mut self, chunk: &[u8]) -> (lines: Vec<String>)
        ensures
            (views(lines@), final(self)@) == feed_lines(old(self)@, utf8_lossy(chunk@)),
    {
        let text = text_from_bytes(chunk);
        self.feed(text.as_str())
    }

    /// The last line when the stream ends: what is held back, if anything.
    pub fn finish(self) -> (r: Option<String>)
        ensures
            r is Some <==> self@.len() > 0,
            r matches Some(line) ==> line@ == self@,
    {
        if self.pending.len() > 0 {
            Some(string_of(self.pending.as_slice()))
        } else {
            None
        }
    }
}

/// Reading `a` and then `b` gives the same lines, and holds back the same
/// characters, as reading `a + b` at once: where a stream is cut into chunks does not
/// change what is read from it.
pub proof fn lemma_feed_lines_chunking(pending: Seq<char>, a: Seq<char>, b: Seq<char>)
    ensures
        ({
            let (la, ra) = feed_lines(pending, a);
            let (lb, rb) = feed_lines(ra, b);
            feed_lines(pending, a + b) == (la + lb, rb)
        }),
    decreases b.len(),
{
    let (la, ra) = feed_lines(pending, a);
    if b.len() == 0 {
        assert(a + b =~= a);
        assert(la + Seq::<Seq<char>>::empty() =~= la);
    } else {
        lemma_feed_lines_chunking(pending, a, b.drop_last());
        assert((a + b).drop_last() =~= a + b.drop_last());
        assert((a + b).last() == b.last());
        let (lb0, rb0) = feed_lines(ra, b.drop_last());
        assert((la + lb0).push(rb0) =~= la + lb0.push(rb0));
    }
}

/// A line break-free run stays line break-free; completed lines are never empty
/// and never contain a line break.
pub open spec fn no_line_break(s: Seq<char>) -> bool {
    forall|i: int| 0 <= i < s.len() ==> !is_line_break(#[trigger] s[i])
}

/// Every line that `feed_lines` completes is non-empty and free of line breaks, and
/// so is what it holds back, when it started from a run free of line breaks.
pub proof fn lemma_feed_lines_shape(pending: Seq<char>, chunk: Seq<char>)
    requires
        no_line_break(pending),
    ensures
        ({
            let (done, rest) = feed_lines(pending, chunk);
            &&& no_line_break(rest)
            &&& forall|k: int|
                0 <= k < done.len() ==> #[trigger] done[k].len() > 0 && no_line_break(done[k])
        }),
    decreases chunk.len(),
{
    if chunk.len() > 0 {
        lemma_feed_lines_shape(pending, chunk.drop_last());
        let (done, rest) = feed_lines(pending, chunk.drop_last());
        let c = chunk.last();
        if !is_line_break(c) {
            assert(no_line_break(rest.push(c))) by {
                assert forall|i: int| 0 <= i < rest.len() + 1 implies !is_line_break(
                    #[trigger] rest.push(c)[i],
                ) by {
                    if i < rest.len() {
                        assert(rest.push(c)[i] == rest[i]);
                    }
                }
            }
        } else if rest.len() > 0 {
            let d2 = done.push(rest);
            assert forall|k: int| 0 <= k < d2.len() implies #[trigger] d2[k].len() > 0
                && no_line_break(d2[k]) by {
                if k < done.len() {
                    assert(d2[k] == done[k]);
                }
            }
            assert(no_line_break(Seq::<char>::empty()));
        }
    }
}

/// The non-blank lines of an error stream, each followed by a newline.
pub struct ErrorLog {
    text: String,
}

impl View for ErrorLog {
    type V = Seq<char>;

    /// The text collected so far.
    closed spec fn view(&self) -> Seq<char> {
        self.text@
    }
}

/// The text a log holds after `line` is offered to it.
pub open spec fn log_after(log: Seq<char>, line: Seq<char>) -> Seq<char> {
    if trim(line).len() > 0 {
        log + line + seq!['\n']
    } else {
        log
    }
}

/// A line that reports a skipped live-stream fragment.
pub open spec fn notes_skipped_fragment(line: Seq<char>) -> bool {
    trim(line).len() > 0 && contains(line, "Skipping fragment"@)
}

impl ErrorLog {
    /// An empty log.
    pub fn new() -> (r: Self)
        ensures
            r@ == Seq::<char>::empty(),
    {
        ErrorLog { text: String::new() }
    }

    /// Offers one line of the stream: a line that is not blank is kept. Returns
    /// whether the line reports a skipped fragment.
    pub fn add(&mut self, line: &str) -> (skipped: bool)
        ensures
            final(self)@ == log_after(old(self)@, line@),
            skipped == notes_skipped_fragment(line@),
    {
        let t = trim_text(line);
        if t.as_str().is_empty() {
            return false;
        }
        let skipped = text_contains(line, "Skipping fragment");
        self.text.append(line);
        push_char(&mut self.text, '\n');
        skipped
    }

    /// The collected text.
    pub fn text(&self) -> (r: &str)
        ensures
            r@ == self@,
    {
        self.text.as_str()
    }
}

} // verus!
