//! Transcribing a media file with whisper-cli: the command lines, the files, reading
//! whisper-cli's output, and the messages shown.
use vstd::prelude::*;
use vstd::string::StringExecFns;
use crate::pattern::{
    group_text, pattern_captures, pattern_compiles, regex_captures, regex_compiles,
};
use crate::download::group_or_empty;
use crate::text::{
    contains, lines, lines_of, owned, owned_all, push_signed_decimal, signed_decimal,
    text_contains, trim, trim_text, views,
};

verus! {

/// Shown while the audio track is extracted.
pub const EXTRACTING_AUDIO: &'static str = "오디오 추출 중...";

/// Shown when whisper-cli starts.
pub const TRANSCRIBING: &'static str = "자막 생성 중...";

/// Shown when the work is done.
pub const FINISHED: &'static str = "완료";

/// Reported when the media file has no parent folder.
pub const NO_PARENT_FOLDER: &'static str = "영상 폴더를 찾을 수 없습니다.";

/// Reported when the media file name cannot be read as text.
pub const BAD_FILE_NAME: &'static str = "파일명을 처리할 수 없습니다.";

/// Reported when ffmpeg could not extract the audio.
pub const EXTRACTION_FAILED: &'static str = "오디오 추출 실패 (지원되지 않는 포맷일 수 있음)";

/// Reported when whisper-cli failed without naming an error.
pub const TRANSCRIPTION_FAILED: &'static str = "자막 생성에 실패했습니다.";

/// Reported when whisper-cli left no transcript.
pub const NO_TRANSCRIPT: &'static str = "자막 파일이 생성되지 않았습니다.";

/// The start of the message for a missing media file.
pub const MEDIA_MISSING: &'static str = "파일을 찾을 수 없습니다: ";

/// The start of every status shown during transcription.
pub const STATUS_PREFIX: &'static str = "자막 생성 중 · ";

/// The message for a missing media file at `path`.
pub fn media_missing_message(path: &str) -> (r: String)
    ensures
        r@ == MEDIA_MISSING@ + path@,
{
    let mut r = owned(MEDIA_MISSING);
    r.append(path);
    r
}

/// The name of the temporary audio file for a media file named `stem`: hidden, next
/// to the media file.
pub fn temp_wav_name(stem: &str) -> (r: String)
    ensures
        r@ == "."@ + stem@ + ".whisper.wav"@,
{
    let mut r = owned(".");
    r.append(stem);
    r.append(".whisper.wav");
    r
}

/// The ffmpeg arguments that extract a 16 kHz mono 16-bit WAV track.
pub open spec fn extract_arg_texts(media: Seq<char>, wav: Seq<char>) -> Seq<Seq<char>> {
    seq![
        "-i"@,
        media,
        "-vn"@,
        "-ar"@,
        "16000"@,
        "-ac"@,
        "1"@,
        "-c:a"@,
        "pcm_s16le"@,
        "-y"@,
        wav,
    ]
}

/// The ffmpeg command line that extracts the audio of `media` into `wav`.
pub fn extract_args(media: &str, wav: &str) -> (r: Vec<String>)
    ensures
        views(r@) == extract_arg_texts(media@, wav@),
{
    let r = owned_all(
        &["-i", media, "-vn", "-ar", "16000", "-ac", "1", "-c:a", "pcm_s16le", "-y", wav],
    );
    assert(views(r@) =~= extract_arg_texts(media@, wav@));
    r
}

/// The whisper-cli arguments: model, language, text and SRT output with progress,
/// the output base name, then the audio file.
pub open spec fn whisper_arg_texts(
    model: Seq<char>,
    language: Seq<char>,
    output_base: Seq<char>,
    wav: Seq<char>,
) -> Seq<Seq<char>> {
    seq![
        "-m"@,
        model,
        "-l"@,
        language,
        "-otxt"@,
        "-osrt"@,
        "-pp"@,
        "-of"@,
        output_base,
        wav,
    ]
}

/// The whisper-cli command line.
pub fn whisper_args(model: &str, language: &str, output_base: &str, wav: &str) -> (r: Vec<
    String,
>)
    ensures
        views(r@) == whisper_arg_texts(model@, language@, output_base@, wav@),
{
    let r = owned_all(
        &["-m", model, "-l", language, "-otxt", "-osrt", "-pp", "-of", output_base, wav],
    );
    assert(views(r@) =~= whisper_arg_texts(model@, language@, output_base@, wav@));
    r
}

/// The transcript whisper-cli writes for `output_base`.
pub fn transcript_path(output_base: &str) -> (r: String)
    ensures
        r@ == output_base@ + ".txt"@,
{
    let mut r = owned(output_base);
    r.append(".txt");
    r
}

/// The message for a finished transcription of the media file named `stem`.
pub fn done_message(stem: &str) -> (r: String)
    ensures
        r@ == "자막 생성 완료!\n"@ + stem@ + ".txt\n"@ + stem@ + ".srt"@,
{
    let mut r = owned("자막 생성 완료!\n");
    r.append(stem);
    r.append(".txt\n");
    r.append(stem);
    r.append(".srt");
    r
}

// ---------------------------------------------------------------------------
// whisper-cli output
// ---------------------------------------------------------------------------

/// `progress = 42%`.
pub const PROGRESS_PATTERN: &'static str = r"progress\s*=\s*(\d+)%";

/// `[00:01:02.000 --> 00:01:04.500]  text`: a recognised caption.
pub const CUE_PATTERN: &'static str =
    r"\[(\d{2}:\d{2}:\d{2})\.\d+\s+-->\s+\d{2}:\d{2}:\d{2}\.\d+\]\s+(.+)";

/// Both whisper-cli patterns compile.
pub open spec fn whisper_patterns_compile() -> bool {
    regex_compiles(PROGRESS_PATTERN@) && regex_compiles(CUE_PATTERN@)
}

/// What a line of whisper-cli output reports.
pub enum WhisperLine {
    /// Progress, with the digits of the percentage.
    Progress { percent: String },
    /// A caption: its start time, and the caption as shown,
    /// `[start] text`.
    Caption { start: String, shown: String },
    /// Nothing of interest.
    Other,
}

/// The view of a `WhisperLine`: progress digits, or start time and shown caption.
pub enum WhisperLineView {
    /// Progress, with the digits of the percentage.
    Progress(Seq<char>),
    /// A caption: start time and the caption as shown.
    Caption(Seq<char>, Seq<char>),
    /// Nothing of interest.
    Other,
}

impl View for WhisperLine {
    type V = WhisperLineView;

    open spec fn view(&self) -> WhisperLineView {
        match self {
            WhisperLine::Progress { percent } => WhisperLineView::Progress(percent@),
            WhisperLine::Caption { start, shown } => WhisperLineView::Caption(start@, shown@),
            WhisperLine::Other => WhisperLineView::Other,
        }
    }
}

/// How a line of whisper-cli output is read: a progress report first, else a
/// caption, shown as `[start] text` with the text trimmed.
pub open spec fn whisper_line_of(line: Seq<char>) -> WhisperLineView {
    match regex_captures(PROGRESS_PATTERN@, line) {
        Some(g) => WhisperLineView::Progress(group_text(g, 1)),
        None => match regex_captures(CUE_PATTERN@, line) {
            Some(g) => WhisperLineView::Caption(
                group_text(g, 1),
                "["@ + group_text(g, 1) + "] "@ + trim(group_text(g, 2)),
            ),
            None => WhisperLineView::Other,
        },
    }
}

/// Reads the lines whisper-cli prints. It exists only when both of its patterns
/// compile.
pub struct WhisperReader {
    ready: (),
}

impl WhisperReader {
    #[verifier::type_invariant]
    spec fn patterns_ready(self) -> bool {
        whisper_patterns_compile()
    }

    /// A reader, or `None` when one of the patterns does not compile.
    pub fn new() -> (r: Option<Self>)
        ensures
            r is Some <==> whisper_patterns_compile(),
    {
        if pattern_compiles(PROGRESS_PATTERN) && pattern_compiles(CUE_PATTERN) {
            Some(WhisperReader { ready: () })
        } else {
            None
        }
    }

    /// What `line` reports.
    pub fn read(&self, line: &str) -> (r: WhisperLine)
        ensures
            r@ == whisper_line_of(line@),
    {
        proof {
            use_type_invariant(self);
        }
        if let Some(g) = pattern_captures(PROGRESS_PATTERN, line) {
            return WhisperLine::Progress { percent: group_or_empty(&g, 1) };
        }
        if let Some(g) = pattern_captures(CUE_PATTERN, line) {
            let start = group_or_empty(&g, 1);
            let text = group_or_empty(&g, 2);
            let mut shown = owned("[");
            shown.append(start.as_str());
            shown.append("] ");
            shown.append(trim_text(text.as_str()).as_str());
            return WhisperLine::Caption { start, shown };
        }
        WhisperLine::Other
    }
}

/// The status for `percent` done, with the last caption shown when there is one.
pub open spec fn progress_status_text(percent: int, last_caption: Seq<char>) -> Seq<char> {
    if last_caption.len() == 0 {
        STATUS_PREFIX@ + signed_decimal(percent) + "%"@
    } else {
        STATUS_PREFIX@ + signed_decimal(percent) + "% · "@ + last_caption
    }
}

/// The status for `percent` done, with the last caption shown when there is one.
pub fn progress_status(percent: i32, last_caption: &str) -> (r: String)
    ensures
        r@ == progress_status_text(percent as int, last_caption@),
{
    let mut r = owned(STATUS_PREFIX);
    push_signed_decimal(&mut r, percent);
    if last_caption.is_empty() {
        r.append("%");
    } else {
        r.append("% · ");
        r.append(last_caption);
    }
    r
}

/// The status for a newly recognised caption.
pub fn caption_status(shown: &str) -> (r: String)
    ensures
        r@ == STATUS_PREFIX@ + shown@,
{
    let mut r = owned(STATUS_PREFIX);
    r.append(shown);
    r
}

/// The lower-case form `str::to_lowercase` gives of `s`.
pub uninterp spec fn lowercase(s: Seq<char>) -> Seq<char>;

/// Calls `str::to_lowercase`; the contract claims the result is `lowercase`.
#[verifier::external_body]
fn lowercase_text(s: &str) -> (r: String)
    ensures
        r@ == lowercase(s@),
{
    s.to_lowercase()
}

/// The first of `ls` that mentions an error in any letter case.
pub open spec fn first_error_mention(ls: Seq<Seq<char>>) -> Option<Seq<char>>
    decreases ls.len(),
{
    if ls.len() == 0 {
        None
    } else if contains(lowercase(ls[0]), "error"@) {
        Some(ls[0])
    } else {
        first_error_mention(ls.drop_first())
    }
}

/// The message for a failed transcription: the first line of whisper-cli's error
/// output that mentions an error, or a general message.
pub open spec fn whisper_failure_text(errors: Seq<char>) -> Seq<char> {
    match first_error_mention(lines(errors)) {
        Some(l) => l,
        None => TRANSCRIPTION_FAILED@,
    }
}

/// The message for a failed transcription whose error output was `errors`.
pub fn whisper_failure_message(errors: &str) -> (r: String)
    ensures
        r@ == whisper_failure_text(errors@),
{
    let ls = lines_of(errors);
    let ghost lv = views(ls@);
    proof {
        assert(lv.skip(0) =~= lv);
    }
    for i in 0..ls.len()
        invariant
            lv == views(ls@),
            lv == lines(errors@),
            first_error_mention(lv) == first_error_mention(lv.skip(i as int)),
    {
        proof {
            assert(lv.skip(i as int)[0] == ls@[i as int]@);
            assert(lv.skip(i as int).drop_first() =~= lv.skip(i + 1));
        }
        let low = lowercase_text(ls[i].as_str());
        if text_contains(low.as_str(), "error") {
            return ls[i].clone();
        }
    }
    proof {
        assert(lv.skip(ls@.len() as int) =~= Seq::<Seq<char>>::empty());
    }
    owned(TRANSCRIPTION_FAILED)
}

} // verus!
