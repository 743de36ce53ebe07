//! Turning a WebVTT subtitle file into plain text.
//!
//! Cue timings, headers, cue numbers, `NOTE` blocks and markup tags are dropped;
//! what is left is the spoken text, one line per cue line, without the repeated
//! lines that automatic captions produce.
use vstd::prelude::*;
use crate::pattern::{
    pattern_compiles, pattern_matches, pattern_replace_all, regex_compiles, regex_is_match,
    regex_replace_all,
};
use crate::text::{
    chars_equal, chars_of, is_u64_text, join, join_strings, lemma_trim_idempotent, lines, lines_of,
    parses_as_u64, string_of, trim, trim_chars, views,
};

verus! {

/// A cue timing line such as `00:00:01.000 --> 00:00:03.500 align:start`.
pub const TIMESTAMP_PATTERN: &'static str = r"^\d{2}:\d{2}:\d{2}\.\d{3}\s*-->.*$";

/// A markup tag such as `<c>` or `<00:00:01.000>`.
pub const TAG_PATTERN: &'static str = r"<[^>]+>";

/// File headers and cue settings.
pub const HEADER_PATTERN: &'static str = r"(?i)(WEBVTT|Kind:|Language:|\balign:|\bposition:)";

/// The first line of a `NOTE` comment block.
pub const NOTE_PATTERN: &'static str = r"^NOTE\b";

/// All four patterns compile.
pub open spec fn vtt_patterns_compile() -> bool {
    &&& regex_compiles(TIMESTAMP_PATTERN@)
    &&& regex_compiles(TAG_PATTERN@)
    &&& regex_compiles(HEADER_PATTERN@)
    &&& regex_compiles(NOTE_PATTERN@)
}

/// The state of the scan over the lines of a subtitle file.
pub struct VttScan {
    /// The text lines kept so far.
    pub kept: Seq<Seq<char>>,
    /// The last line kept (empty before the first).
    pub prev: Seq<char>,
    /// Inside a `NOTE` block.
    pub in_note: bool,
}

/// The scan before the first line.
pub open spec fn vtt_scan_start() -> VttScan {
    VttScan { kept: Seq::empty(), prev: Seq::empty(), in_note: false }
}

/// A trimmed line that carries no text: empty, a cue timing, a header or cue
/// setting, or a cue number.
pub open spec fn is_vtt_noise(t: Seq<char>) -> bool {
    ||| t.len() == 0
    ||| regex_is_match(TIMESTAMP_PATTERN@, t)
    ||| regex_is_match(HEADER_PATTERN@, t)
    ||| parses_as_u64(t)
}

/// A trimmed line with its markup tags removed, trimmed again.
pub open spec fn vtt_clean(t: Seq<char>) -> Seq<char> {
    trim(regex_replace_all(TAG_PATTERN@, t, Seq::empty()))
}

/// One step of the scan: what reading `line` does to the state.
pub open spec fn vtt_step(st: VttScan, line: Seq<char>) -> VttScan {
    let t = trim(line);
    if regex_is_match(NOTE_PATTERN@, t) {
        VttScan { kept: st.kept, prev: st.prev, in_note: true }
    } else if st.in_note {
        VttScan { kept: st.kept, prev: st.prev, in_note: t.len() != 0 }
    } else if is_vtt_noise(t) {
        st
    } else {
        let clean = vtt_clean(t);
        if clean.len() == 0 || clean == st.prev {
            st
        } else {
            VttScan { kept: st.kept.push(clean), prev: clean, in_note: false }
        }
    }
}

/// The scan over a sequence of lines.
pub open spec fn vtt_scan(lines: Seq<Seq<char>>) -> VttScan
    decreases lines.len(),
{
    if lines.len() == 0 {
        vtt_scan_start()
    } else {
        vtt_step(vtt_scan(lines.drop_last()), lines.last())
    }
}

/// The plain text of a subtitle file: the kept lines joined by newlines.
pub open spec fn vtt_plain_text(content: Seq<char>) -> Seq<char> {
    join(vtt_scan(lines(content)).kept, seq!['\n'])
}

/// The text lines that survive a scan are non-empty and trimmed, and no line
/// repeats the line kept just before it; the scan remembers the last line kept.
pub proof fn lemma_vtt_kept_lines(lines: Seq<Seq<char>>)
    ensures
        ({
            let st = vtt_scan(lines);
            &&& st.kept.len() == 0 ==> st.prev.len() == 0
            &&& st.kept.len() > 0 ==> st.prev == st.kept.last()
            &&& forall|i: int|
                0 <= i < st.kept.len() ==> #[trigger] st.kept[i].len() > 0 && trim(st.kept[i])
                    == st.kept[i]
            &&& forall|i: int| 0 <= i < st.kept.len() - 1 ==> #[trigger] st.kept[i] != st.kept[i + 1]
        }),
    decreases lines.len(),
{
    if lines.len() > 0 {
        lemma_vtt_kept_lines(lines.drop_last());
        let st = vtt_scan(lines.drop_last());
        let t = trim(lines.last());
        let clean = vtt_clean(t);
        lemma_trim_idempotent(regex_replace_all(TAG_PATTERN@, t, Seq::empty()));
        let nst = vtt_scan(lines);
        if nst.kept.len() > st.kept.len() {
            assert(nst.kept == st.kept.push(clean));
            assert forall|i: int| 0 <= i < nst.kept.len() implies #[trigger] nst.kept[i].len()
                > 0 && trim(nst.kept[i]) == nst.kept[i] by {
                if i < st.kept.len() {
                    assert(nst.kept[i] == st.kept[i]);
                }
            }
            assert forall|i: int| 0 <= i < nst.kept.len() - 1 implies #[trigger] nst.kept[i]
                != nst.kept[i + 1] by {
                assert(nst.kept[i] == st.kept[i]);
                if i + 1 < st.kept.len() {
                    assert(nst.kept[i + 1] == st.kept[i + 1]);
                }
            }
        } else {
            assert(nst.kept == st.kept);
            assert(nst.prev == st.prev);
        }
    }
}

/// A line whose trimmed text is a cue number or a cue timing (and does not open a
/// `NOTE` block).
pub open spec fn is_cue_marker(x: Seq<char>) -> bool {
    let t = trim(x);
    &&& t.len() > 0
    &&& !regex_is_match(NOTE_PATTERN@, t)
    &&& (parses_as_u64(t) || regex_is_match(TIMESTAMP_PATTERN@, t))
}

/// Reading a cue number or a cue timing leaves the scan as it was.
pub proof fn lemma_cue_marker_step(st: VttScan, x: Seq<char>)
    requires
        is_cue_marker(x),
    ensures
        vtt_step(st, x) == st,
{
}

/// Inserting a cue number or a cue timing line anywhere among the lines of a
/// subtitle file changes nothing in its plain text: the scan over `a`, the
/// inserted line `x`, then `b` ends as the scan over `a` then `b`, so the text of
/// a document whose lines are the former equals that of one whose lines are the
/// latter.
pub proof fn lemma_vtt_ignores_cue_markers(
    a: Seq<Seq<char>>,
    x: Seq<char>,
    b: Seq<Seq<char>>,
    with_marker: Seq<char>,
    without_marker: Seq<char>,
)
    requires
        is_cue_marker(x),
    ensures
        vtt_scan(a + seq![x] + b) == vtt_scan(a + b),
        lines(with_marker) == a + seq![x] + b && lines(without_marker) == a + b ==> vtt_plain_text(
            with_marker,
        ) == vtt_plain_text(without_marker),
    decreases b.len(),
{
    if b.len() == 0 {
        assert(a + seq![x] + b =~= a.push(x));
        assert(a + b =~= a);
        assert(a.push(x).drop_last() =~= a);
        lemma_cue_marker_step(vtt_scan(a), x);
    } else {
        lemma_vtt_ignores_cue_markers(a, x, b.drop_last(), with_marker, without_marker);
        assert((a + seq![x] + b).drop_last() =~= a + seq![x] + b.drop_last());
        assert((a + b).drop_last() =~= a + b.drop_last());
        assert((a + seq![x] + b).last() == b.last());
        assert((a + b).last() == b.last());
    }
}

/// Lines that carry no text (blank, a cue timing, a header or cue setting, or a
/// whole-line number) and open no `NOTE` block leave a scan that is outside a
/// `NOTE` block as it was.
pub proof fn lemma_vtt_skips_blank_and_markers(p: Seq<Seq<char>>, b: Seq<Seq<char>>)
    requires
        !vtt_scan(p).in_note,
        forall|i: int|
            0 <= i < b.len() ==> !regex_is_match(NOTE_PATTERN@, #[trigger] trim(b[i])) && (trim(
                b[i],
            ).len() == 0 || regex_is_match(TIMESTAMP_PATTERN@, trim(b[i])) || regex_is_match(
                HEADER_PATTERN@,
                trim(b[i]),
            ) || parses_as_u64(trim(b[i]))),
    ensures
        vtt_scan(p + b) == vtt_scan(p),
    decreases b.len(),
{
    if b.len() == 0 {
        assert(p + b =~= p);
    } else {
        lemma_vtt_skips_blank_and_markers(p, b.drop_last());
        assert((p + b).drop_last() =~= p + b.drop_last());
        assert((p + b).last() == b[b.len() - 1]);
        assert(!regex_is_match(NOTE_PATTERN@, trim(b[b.len() - 1])));
    }
}

/// A text line is kept: in a subtitle file whose lines other than `x` are all blank,
/// cue timings, headers or cue settings, or whole-line numbers (and open no `NOTE`
/// block), a line `x` whose trimmed text `t` is non-empty, holds no markup tag,
/// opens no `NOTE` block, and is neither a cue timing, nor a header or cue setting,
/// nor a whole-line number, is the only line kept, so the plain text is `t`. In
/// particular a caption that merely starts with a digit is kept.
pub proof fn lemma_vtt_keeps_text_line(
    a: Seq<Seq<char>>,
    x: Seq<char>,
    b: Seq<Seq<char>>,
    content: Seq<char>,
)
    requires
        forall|i: int|
            0 <= i < a.len() ==> !regex_is_match(NOTE_PATTERN@, #[trigger] trim(a[i])) && (trim(
                a[i],
            ).len() == 0 || regex_is_match(TIMESTAMP_PATTERN@, trim(a[i])) || regex_is_match(
                HEADER_PATTERN@,
                trim(a[i]),
            ) || parses_as_u64(trim(a[i]))),
        forall|i: int|
            0 <= i < b.len() ==> !regex_is_match(NOTE_PATTERN@, #[trigger] trim(b[i])) && (trim(
                b[i],
            ).len() == 0 || regex_is_match(TIMESTAMP_PATTERN@, trim(b[i])) || regex_is_match(
                HEADER_PATTERN@,
                trim(b[i]),
            ) || parses_as_u64(trim(b[i]))),
        trim(x).len() > 0,
        regex_replace_all(TAG_PATTERN@, trim(x), Seq::empty()) == trim(x),
        !regex_is_match(NOTE_PATTERN@, trim(x)),
        !regex_is_match(TIMESTAMP_PATTERN@, trim(x)),
        !regex_is_match(HEADER_PATTERN@, trim(x)),
        !parses_as_u64(trim(x)),
    ensures
        vtt_scan(a + seq![x] + b).kept == seq![trim(x)],
        lines(content) == a + seq![x] + b ==> vtt_plain_text(content) == trim(x),
{
    let e: Seq<Seq<char>> = Seq::empty();
    assert(e + a =~= a);
    lemma_vtt_skips_blank_and_markers(e, a);
    assert(vtt_scan(e) == vtt_scan_start());
    let pa = a.push(x);
    assert(pa.drop_last() =~= a);
    assert(pa.last() == x);
    lemma_trim_idempotent(x);
    assert(vtt_clean(trim(x)) == trim(x));
    assert(vtt_scan(pa) == VttScan { kept: seq![trim(x)], prev: trim(x), in_note: false });
    assert(a + seq![x] + b =~= pa + b);
    lemma_vtt_skips_blank_and_markers(pa, b);
}

/// The kept text lines of a subtitle file, given that its patterns compile.
pub fn vtt_text_lines(content: &str) -> (r: Vec<String>)
    requires
        vtt_patterns_compile(),
    ensures
        views(r@) == vtt_scan(lines(content@)).kept,
{
    let ls = lines_of(content);
    let mut kept: Vec<String> = Vec::new();
    let mut prev: Vec<char> = Vec::new();
    let mut in_note = false;
    let ghost lv = views(ls@);
    for i in 0..ls.len()
        invariant
            vtt_patterns_compile(),
            lv == views(ls@),
            lv == lines(content@),
            ({
                let st = vtt_scan(lv.take(i as int));
                &&& views(kept@) == st.kept
                &&& prev@ == st.prev
                &&& in_note == st.in_note
            }),
    {
        let ghost st = vtt_scan(lv.take(i as int));
        proof {
            assert(lv.take(i + 1).drop_last() =~= lv.take(i as int));
            assert(lv.take(i + 1).last() == ls@[i as int]@);
        }
        let tv = trim_chars(chars_of(ls[i].as_str()).as_slice());
        let t = string_of(tv.as_slice());
        if pattern_matches(NOTE_PATTERN, t.as_str()) {
            in_note = true;
        } else if in_note {
            in_note = tv.len() != 0;
        } else if tv.len() == 0 || pattern_matches(TIMESTAMP_PATTERN, t.as_str())
            || pattern_matches(HEADER_PATTERN, t.as_str()) || is_u64_text(tv.as_slice()) {
        } else {
            let stripped = pattern_replace_all(TAG_PATTERN, t.as_str(), "");
            let cv = trim_chars(chars_of(stripped.as_str()).as_slice());
            proof {
                assert(""@ =~= Seq::<char>::empty()) by {
                    reveal_strlit("");
                }
            }
            if cv.len() != 0 && !chars_equal(cv.as_slice(), prev.as_slice()) {
                let ghost old_views = views(kept@);
                kept.push(string_of(cv.as_slice()));
                proof {
                    assert(views(kept@) =~= old_views.push(cv@));
                }
                prev = cv;
                in_note = false;
            }
        }
    }
    proof {
        assert(lv.take(ls@.len() as int) =~= lv);
    }
    kept
}

/// The plain text of the WebVTT document `content`, or `None` when one of the
/// subtitle patterns does not compile.
pub fn vtt_to_text(content: &str) -> (r: Option<String>)
    ensures
        r is Some <==> vtt_patterns_compile(),
        r matches Some(t) ==> t@ == vtt_plain_text(content@),
{
    if !(pattern_compiles(TIMESTAMP_PATTERN) && pattern_compiles(TAG_PATTERN) && pattern_compiles(
        HEADER_PATTERN,
    ) && pattern_compiles(NOTE_PATTERN)) {
        return None;
    }
    let kept = vtt_text_lines(content);
    proof {
        reveal_strlit("\n");
        assert("\n"@ =~= seq!['\n']);
    }
    Some(join_strings(&kept, "\n"))
}

} // verus!
