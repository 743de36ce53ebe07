//! Locating the external programs (yt-dlp, whisper-cli, ffmpeg, ffprobe, node)
//! and the whisper model, and reading what simple tool invocations print.
use vstd::prelude::*;
use vstd::string::StringExecFns;
use vstd::utf8::{decode_utf8, valid_utf8};
use crate::text::{owned, owned_all, trim, trim_text, views};

verus! {

/// The text `String::from_utf8_lossy` makes of `bytes`: their UTF-8 decoding, with
/// each invalid sequence replaced by U+FFFD.
pub uninterp spec fn utf8_lossy(bytes: Seq<u8>) -> Seq<char>;

/// Calls `String::from_utf8_lossy`; the contract claims the result is `utf8_lossy`,
/// and, as the standard library documents, the plain decoding for valid UTF-8.
#[verifier::external_body]
pub(crate) fn text_from_bytes(bytes: &[u8]) -> (r: String)
    ensures
        r@ == utf8_lossy(bytes@),
        valid_utf8(bytes@) ==> r@ == decode_utf8(bytes@),
{
    String::from_utf8_lossy(bytes).into_owned()
}

/// Calls `std::path::Path::exists` on `path`. Whether a file is there depends on the
/// disk at the time of the call, so the contract claims nothing of the result.
#[verifier::external_body]
pub(crate) fn path_exists(path: &str) -> (r: bool) {
    std::path::Path::new(path).exists()
}

/// The view of an optional string.
pub open spec fn opt_view(o: Option<String>) -> Option<Seq<char>> {
    match o {
        Some(s) => Some(s@),
        None => None,
    }
}

/// The view of a result whose both sides are strings.
pub open spec fn result_view(r: Result<String, String>) -> Result<Seq<char>, Seq<char>> {
    match r {
        Ok(s) => Ok(s@),
        Err(e) => Err(e@),
    }
}

/// The first of `candidates` whose probe answer in `present` is yes; `None` when
/// no answer is yes.
pub open spec fn pick_first(candidates: Seq<Seq<char>>, present: Seq<bool>) -> Option<Seq<char>>
    decreases present.len(),
{
    if present.len() == 0 || candidates.len() == 0 {
        None
    } else if present[0] {
        Some(candidates[0])
    } else {
        pick_first(candidates.drop_first(), present.drop_first())
    }
}

/// `i` is the first index whose probe answer is yes.
pub open spec fn is_first_present(present: Seq<bool>, i: int) -> bool {
    &&& 0 <= i < present.len()
    &&& present[i]
    &&& forall|j: int| 0 <= j < i ==> !present[j]
}

/// The first candidate whose answer is yes is picked, whatever comes after it; and
/// nothing is picked exactly when no answer is yes.
pub proof fn lemma_pick_first(candidates: Seq<Seq<char>>, present: Seq<bool>)
    requires
        candidates.len() == present.len(),
    ensures
        pick_first(candidates, present) is None <==> forall|j: int|
            0 <= j < present.len() ==> !present[j],
        forall|i: int|
            is_first_present(present, i) ==> pick_first(candidates, present) == Some(
                #[trigger] candidates[i],
            ),
        pick_first(candidates, present) matches Some(c) ==> exists|i: int|
            is_first_present(present, i) && c == #[trigger] candidates[i],
    decreases present.len(),
{
    if present.len() > 0 {
        let (c2, p2) = (candidates.drop_first(), present.drop_first());
        lemma_pick_first(c2, p2);
        if present[0] {
            assert(is_first_present(present, 0));
            assert forall|i: int| is_first_present(present, i) implies pick_first(
                candidates,
                present,
            ) == Some(#[trigger] candidates[i]) by {
                if i > 0 {
                    assert(!present[0]);
                }
            }
        } else {
            assert forall|i: int| is_first_present(present, i) implies pick_first(
                candidates,
                present,
            ) == Some(#[trigger] candidates[i]) by {
                assert(i > 0);
                assert(is_first_present(p2, i - 1)) by {
                    assert forall|j: int| 0 <= j < i - 1 implies !p2[j] by {
                        assert(p2[j] == present[j + 1]);
                    }
                }
                assert(c2[i - 1] == candidates[i]);
            }
            if pick_first(candidates, present) is None {
                assert forall|j: int| 0 <= j < present.len() implies !present[j] by {
                    if j > 0 {
                        assert(p2[j - 1] == present[j]);
                    }
                }
            } else {
                let c = pick_first(candidates, present)->0;
                let k = choose|k: int| is_first_present(p2, k) && c == c2[k];
                assert(is_first_present(present, k + 1)) by {
                    assert forall|j: int| 0 <= j < k + 1 implies !present[j] by {
                        if j > 0 {
                            assert(p2[j - 1] == present[j]);
                        }
                    }
                }
                assert(candidates[k + 1] == c2[k]);
            }
            assert((forall|j: int| 0 <= j < present.len() ==> !present[j]) ==> (forall|j: int|
                0 <= j < p2.len() ==> !p2[j])) by {
                if forall|j: int| 0 <= j < present.len() ==> !present[j] {
                    assert forall|j: int| 0 <= j < p2.len() implies !p2[j] by {
                        assert(p2[j] == present[j + 1]);
                    }
                }
            }
        }
    }
}

/// Asks the disk, for each of `paths` in order, whether it exists. The answers
/// depend on the disk at the time of the calls.
pub fn probe_paths(paths: &Vec<String>) -> (present: Vec<bool>)
    ensures
        present@.len() == paths@.len(),
{
    let mut present: Vec<bool> = Vec::new();
    for i in 0..paths.len()
        invariant
            present@.len() == i,
    {
        present.push(path_exists(paths[i].as_str()));
    }
    present
}

/// The first of `candidates` whose probe answer in `present` is yes.
pub fn pick_first_present(candidates: &Vec<String>, present: &Vec<bool>) -> (r: Option<String>)
    requires
        present@.len() == candidates@.len(),
    ensures
        opt_view(r) == pick_first(views(candidates@), present@),
{
    let ghost cv = views(candidates@);
    proof {
        assert(cv.skip(0) =~= cv);
        assert(present@.skip(0) =~= present@);
    }
    for i in 0..candidates.len()
        invariant
            cv == views(candidates@),
            present@.len() == candidates@.len(),
            pick_first(cv, present@) == pick_first(cv.skip(i as int), present@.skip(i as int)),
    {
        proof {
            assert(cv.skip(i as int).drop_first() =~= cv.skip(i + 1));
            assert(present@.skip(i as int).drop_first() =~= present@.skip(i + 1));
            assert(cv.skip(i as int)[0] == candidates@[i as int]@);
            assert(present@.skip(i as int)[0] == present@[i as int]);
        }
        if present[i] {
            return Some(candidates[i].clone());
        }
    }
    None
}

/// The first of the owned `candidates` that exists on disk, if any: the
/// candidates are probed in order and the first one found is returned.
pub fn first_existing_owned(candidates: &Vec<String>) -> (r: Option<String>)
    ensures
        exists|present: Seq<bool>|
            present.len() == candidates@.len() && opt_view(r) == #[trigger] pick_first(
                views(candidates@),
                present,
            ),
{
    let present = probe_paths(candidates);
    let r = pick_first_present(candidates, &present);
    assert(present@.len() == candidates@.len() && opt_view(r) == pick_first(
        views(candidates@),
        present@,
    ));
    r
}

/// What a finished child process reported.
pub struct CommandOutput {
    /// The process exited with status 0.
    pub success: bool,
    /// Its standard output.
    pub stdout: Vec<u8>,
    /// Its standard error.
    pub stderr: Vec<u8>,
}

// ---------------------------------------------------------------------------
// ffmpeg and ffprobe
// ---------------------------------------------------------------------------

/// Reported when no ffmpeg is installed.
pub const FFMPEG_MISSING: &'static str = "ffmpeg가 설치되어 있지 않습니다.";

/// The places where ffmpeg is looked for, in order: Homebrew on Apple silicon,
/// then on Intel.
pub open spec fn ffmpeg_candidate_texts() -> Seq<Seq<char>> {
    seq!["/opt/homebrew/bin/ffmpeg"@, "/usr/local/bin/ffmpeg"@]
}

/// The places where ffmpeg is looked for, in order.
pub fn ffmpeg_candidates() -> (r: Vec<String>)
    ensures
        views(r@) == ffmpeg_candidate_texts(),
{
    let r = owned_all(&["/opt/homebrew/bin/ffmpeg", "/usr/local/bin/ffmpeg"]);
    assert(views(r@) =~= ffmpeg_candidate_texts());
    r
}

/// The ffmpeg lookup for the probe answers `present` of its candidates: the first
/// candidate that is present, or the message that ffmpeg is missing.
pub open spec fn ffmpeg_result(present: Seq<bool>) -> Result<Seq<char>, Seq<char>> {
    match pick_first(ffmpeg_candidate_texts(), present) {
        Some(p) => Ok(p),
        None => Err(FFMPEG_MISSING@),
    }
}

/// The ffmpeg lookup, given which of its candidates are present.
pub fn ffmpeg_from_probes(present: &Vec<bool>) -> (r: Result<String, String>)
    requires
        present@.len() == ffmpeg_candidate_texts().len(),
    ensures
        result_view(r) == ffmpeg_result(present@),
{
    let candidates = ffmpeg_candidates();
    match pick_first_present(&candidates, present) {
        Some(p) => Ok(p),
        None => Err(owned(FFMPEG_MISSING)),
    }
}

/// The ffmpeg lookup prefers Homebrew on Apple silicon: its path when present,
/// else Intel Homebrew's when present, else the message that ffmpeg is missing.
pub proof fn lemma_ffmpeg_order(present: Seq<bool>)
    requires
        present.len() == ffmpeg_candidate_texts().len(),
    ensures
        ffmpeg_result(present) == (if present[0] {
            Ok(ffmpeg_candidate_texts()[0])
        } else if present[1] {
            Ok(ffmpeg_candidate_texts()[1])
        } else {
            Err(FFMPEG_MISSING@)
        }),
{
    reveal_with_fuel(pick_first, 3);
    assert(present.drop_first().drop_first().len() == 0);
}

/// The installed ffmpeg: the first of its candidates found on disk, or the
/// message that ffmpeg is missing.
pub fn find_ffmpeg() -> (r: Result<String, String>)
    ensures
        exists|present: Seq<bool>|
            present.len() == ffmpeg_candidate_texts().len() && result_view(r)
                == #[trigger] ffmpeg_result(present),
{
    let candidates = ffmpeg_candidates();
    let present = probe_paths(&candidates);
    let r = ffmpeg_from_probes(&present);
    assert(present@.len() == ffmpeg_candidate_texts().len() && result_view(r) == ffmpeg_result(
        present@,
    ));
    r
}

/// The places where ffprobe is looked for, in order.
pub open spec fn ffprobe_candidate_texts() -> Seq<Seq<char>> {
    seq!["/opt/homebrew/bin/ffprobe"@, "/usr/local/bin/ffprobe"@]
}

/// The places where ffprobe is looked for, in order.
pub fn ffprobe_candidates() -> (r: Vec<String>)
    ensures
        views(r@) == ffprobe_candidate_texts(),
{
    let r = owned_all(&["/opt/homebrew/bin/ffprobe", "/usr/local/bin/ffprobe"]);
    assert(views(r@) =~= ffprobe_candidate_texts());
    r
}

/// The installed ffprobe: the first of its candidates found on disk, if any.
pub fn find_ffprobe() -> (r: Option<String>)
    ensures
        exists|present: Seq<bool>|
            present.len() == ffprobe_candidate_texts().len() && opt_view(r) == #[trigger] pick_first(
                ffprobe_candidate_texts(),
                present,
            ),
{
    first_existing_owned(&ffprobe_candidates())
}

/// The arguments that make ffprobe print the duration of `media` in seconds.
pub open spec fn ffprobe_arg_texts(media: Seq<char>) -> Seq<Seq<char>> {
    seq![
        "-v"@,
        "error"@,
        "-show_entries"@,
        "format=duration"@,
        "-of"@,
        "default=noprint_wrappers=1:nokey=1"@,
        media,
    ]
}

/// The ffprobe command line for reading the duration of `media`.
pub fn ffprobe_args(media: &str) -> (r: Vec<String>)
    ensures
        views(r@) == ffprobe_arg_texts(media@),
{
    let r = owned_all(
        &[
            "-v",
            "error",
            "-show_entries",
            "format=duration",
            "-of",
            "default=noprint_wrappers=1:nokey=1",
            media,
        ],
    );
    assert(views(r@) =~= ffprobe_arg_texts(media@));
    r
}

// ---------------------------------------------------------------------------
// yt-dlp and whisper-cli
// ---------------------------------------------------------------------------

/// Reported when yt-dlp cannot be found.
pub const YTDLP_MISSING: &'static str =
    "yt-dlp가 설치되어 있지 않습니다. brew install yt-dlp 를 실행하세요.";

/// Reported when whisper-cli cannot be found.
pub const WHISPER_CLI_MISSING: &'static str =
    "whisper-cli가 설치되어 있지 않습니다. brew install whisper-cpp 를 실행하세요.";

/// The places where yt-dlp is looked for before asking `which`, in order.
pub open spec fn ytdlp_candidate_texts() -> Seq<Seq<char>> {
    seq!["/opt/homebrew/bin/yt-dlp"@, "/usr/local/bin/yt-dlp"@]
}

/// The places where whisper-cli is looked for before asking `which`, in order.
pub open spec fn whisper_cli_candidate_texts() -> Seq<Seq<char>> {
    seq!["/opt/homebrew/bin/whisper-cli"@, "/usr/local/bin/whisper-cli"@]
}

/// The places where yt-dlp is looked for before asking `which`, in order.
pub fn ytdlp_candidates() -> (r: Vec<String>)
    ensures
        views(r@) == ytdlp_candidate_texts(),
{
    let r = owned_all(&["/opt/homebrew/bin/yt-dlp", "/usr/local/bin/yt-dlp"]);
    assert(views(r@) =~= ytdlp_candidate_texts());
    r
}

/// The places where whisper-cli is looked for before asking `which`, in order.
pub fn whisper_cli_candidates() -> (r: Vec<String>)
    ensures
        views(r@) == whisper_cli_candidate_texts(),
{
    let r = owned_all(&["/opt/homebrew/bin/whisper-cli", "/usr/local/bin/whisper-cli"]);
    assert(views(r@) =~= whisper_cli_candidate_texts());
    r
}

/// yt-dlp at the first of its usual Homebrew locations found on disk, if any.
pub fn find_installed_ytdlp() -> (r: Option<String>)
    ensures
        exists|present: Seq<bool>|
            present.len() == ytdlp_candidate_texts().len() && opt_view(r) == #[trigger] pick_first(
                ytdlp_candidate_texts(),
                present,
            ),
{
    first_existing_owned(&ytdlp_candidates())
}

/// whisper-cli at the first of its usual Homebrew locations found on disk, if any.
pub fn find_installed_whisper_cli() -> (r: Option<String>)
    ensures
        exists|present: Seq<bool>|
            present.len() == whisper_cli_candidate_texts().len() && opt_view(r)
                == #[trigger] pick_first(whisper_cli_candidate_texts(), present),
{
    first_existing_owned(&whisper_cli_candidates())
}

/// The path that `which yt-dlp` printed: its trimmed output when it succeeded.
pub open spec fn ytdlp_from_which_spec(which: Option<(bool, Seq<u8>)>) -> Result<
    Seq<char>,
    Seq<char>,
> {
    match which {
        Some((true, out)) => Ok(trim(utf8_lossy(out))),
        _ => Err(YTDLP_MISSING@),
    }
}

/// Reads the answer of `which yt-dlp` (`None` when it could not be run).
pub fn ytdlp_from_which(which: Option<&CommandOutput>) -> (r: Result<String, String>)
    ensures
        match r {
            Ok(p) => ytdlp_from_which_spec(
                match which {
                    Some(o) => Some((o.success, o.stdout@)),
                    None => None,
                },
            ) == Ok::<Seq<char>, Seq<char>>(p@),
            Err(e) => ytdlp_from_which_spec(
                match which {
                    Some(o) => Some((o.success, o.stdout@)),
                    None => None,
                },
            ) == Err::<Seq<char>, Seq<char>>(e@),
        },
{
    match which {
        Some(o) => {
            if o.success {
                let out = text_from_bytes(o.stdout.as_slice());
                Ok(trim_text(out.as_str()))
            } else {
                Err(owned(YTDLP_MISSING))
            }
        },
        None => Err(owned(YTDLP_MISSING)),
    }
}

/// The path that `which whisper-cli` printed: its trimmed output when it succeeded
/// and is not empty.
pub open spec fn whisper_cli_from_which_spec(which: Option<(bool, Seq<u8>)>) -> Result<
    Seq<char>,
    Seq<char>,
> {
    match which {
        Some((true, out)) => if trim(utf8_lossy(out)).len() > 0 {
            Ok(trim(utf8_lossy(out)))
        } else {
            Err(WHISPER_CLI_MISSING@)
        },
        _ => Err(WHISPER_CLI_MISSING@),
    }
}

/// Reads the answer of `which whisper-cli` (`None` when it could not be run).
pub fn whisper_cli_from_which(which: Option<&CommandOutput>) -> (r: Result<String, String>)
    ensures
        match r {
            Ok(p) => whisper_cli_from_which_spec(
                match which {
                    Some(o) => Some((o.success, o.stdout@)),
                    None => None,
                },
            ) == Ok::<Seq<char>, Seq<char>>(p@),
            Err(e) => whisper_cli_from_which_spec(
                match which {
                    Some(o) => Some((o.success, o.stdout@)),
                    None => None,
                },
            ) == Err::<Seq<char>, Seq<char>>(e@),
        },
{
    match which {
        Some(o) => {
            if o.success {
                let out = text_from_bytes(o.stdout.as_slice());
                let p = trim_text(out.as_str());
                if !p.as_str().is_empty() {
                    return Ok(p);
                }
            }
            Err(owned(WHISPER_CLI_MISSING))
        },
        None => Err(owned(WHISPER_CLI_MISSING)),
    }
}

/// The yt-dlp lookup: the first of its Homebrew locations that is present, else
/// what `which yt-dlp` answered.
pub open spec fn ytdlp_location_spec(present: Seq<bool>, which: Option<(bool, Seq<u8>)>) -> Result<
    Seq<char>,
    Seq<char>,
> {
    match pick_first(ytdlp_candidate_texts(), present) {
        Some(p) => Ok(p),
        None => ytdlp_from_which_spec(which),
    }
}

/// The yt-dlp lookup, given which of its Homebrew locations are present and the
/// answer of `which yt-dlp` (`None` when it was not run or could not be run; it is
/// only read when no location is present).
pub fn ytdlp_location(present: &Vec<bool>, which: Option<&CommandOutput>) -> (r: Result<
    String,
    String,
>)
    requires
        present@.len() == ytdlp_candidate_texts().len(),
    ensures
        result_view(r) == ytdlp_location_spec(
            present@,
            match which {
                Some(o) => Some((o.success, o.stdout@)),
                None => None,
            },
        ),
{
    match pick_first_present(&ytdlp_candidates(), present) {
        Some(p) => Ok(p),
        None => ytdlp_from_which(which),
    }
}

/// The whisper-cli lookup: the first of its Homebrew locations that is present,
/// else what `which whisper-cli` answered.
pub open spec fn whisper_cli_location_spec(
    present: Seq<bool>,
    which: Option<(bool, Seq<u8>)>,
) -> Result<Seq<char>, Seq<char>> {
    match pick_first(whisper_cli_candidate_texts(), present) {
        Some(p) => Ok(p),
        None => whisper_cli_from_which_spec(which),
    }
}

/// The whisper-cli lookup, given which of its Homebrew locations are present and
/// the answer of `which whisper-cli` (`None` when it was not run or could not be
/// run; it is only read when no location is present).
pub fn whisper_cli_location(present: &Vec<bool>, which: Option<&CommandOutput>) -> (r: Result<
    String,
    String,
>)
    requires
        present@.len() == whisper_cli_candidate_texts().len(),
    ensures
        result_view(r) == whisper_cli_location_spec(
            present@,
            match which {
                Some(o) => Some((o.success, o.stdout@)),
                None => None,
            },
        ),
{
    match pick_first_present(&whisper_cli_candidates(), present) {
        Some(p) => Ok(p),
        None => whisper_cli_from_which(which),
    }
}

/// yt-dlp and whisper-cli are looked for at Apple-silicon Homebrew's place first,
/// then at Intel Homebrew's, and `which` is only asked when neither is present.
pub proof fn lemma_installed_before_which(present: Seq<bool>, which: Option<(bool, Seq<u8>)>)
    requires
        present.len() == 2,
    ensures
        present[0] ==> ytdlp_location_spec(present, which) == Ok::<Seq<char>, Seq<char>>(
            ytdlp_candidate_texts()[0],
        ) && whisper_cli_location_spec(present, which) == Ok::<Seq<char>, Seq<char>>(
            whisper_cli_candidate_texts()[0],
        ),
        !present[0] && present[1] ==> ytdlp_location_spec(present, which) == Ok::<
            Seq<char>,
            Seq<char>,
        >(ytdlp_candidate_texts()[1]) && whisper_cli_location_spec(present, which) == Ok::<
            Seq<char>,
            Seq<char>,
        >(whisper_cli_candidate_texts()[1]),
        !present[0] && !present[1] ==> ytdlp_location_spec(present, which)
            == ytdlp_from_which_spec(which) && whisper_cli_location_spec(present, which)
            == whisper_cli_from_which_spec(which),
{
    reveal_with_fuel(pick_first, 3);
    assert(present.drop_first().drop_first().len() == 0);
}

/// The trimmed standard output of a command, such as the version `yt-dlp --version` prints.
pub fn trimmed_stdout(out: &CommandOutput) -> (r: String)
    ensures
        r@ == trim(utf8_lossy(out.stdout@)),
{
    let text = text_from_bytes(out.stdout.as_slice());
    trim_text(text.as_str())
}

/// The title that `yt-dlp --get-title` printed, or its error output.
pub fn title_from_output(out: &CommandOutput) -> (r: Result<String, String>)
    ensures
        out.success ==> (r matches Ok(t) && t@ == trim(utf8_lossy(out.stdout@))),
        !out.success ==> (r matches Err(e) && e@ == trim(utf8_lossy(out.stderr@))),
{
    if out.success {
        let text = text_from_bytes(out.stdout.as_slice());
        Ok(trim_text(text.as_str()))
    } else {
        let text = text_from_bytes(out.stderr.as_slice());
        Err(trim_text(text.as_str()))
    }
}

// ---------------------------------------------------------------------------
// The whisper model
// ---------------------------------------------------------------------------

/// Reported when no whisper model file is found.
pub const MODEL_MISSING: &'static str =
    "whisper 모델 파일을 찾을 수 없습니다.\n\n다음 명령어로 다운로드하세요:\n\nmkdir -p ~/whisper-models && cd ~/whisper-models && curl -L -o ggml-large-v3.bin https://huggingface.co/ggerganov/whisper.cpp/resolve/main/ggml-large-v3.bin";

/// Where a whisper model is looked for, in order, for the home directory `home`.
pub open spec fn model_candidate_texts(home: Seq<char>) -> Seq<Seq<char>> {
    seq![
        home + "/whisper-models/ggml-large-v3.bin"@,
        home + "/whisper-models/ggml-large-v3-turbo.bin"@,
        "/opt/homebrew/share/whisper-cpp/models/ggml-large-v3.bin"@,
        home + "/.cache/whisper/ggml-large-v3.bin"@,
    ]
}

fn joined(a: &str, b: &str) -> (r: String)
    ensures
        r@ == a@ + b@,
{
    let mut r = owned(a);
    r.append(b);
    r
}

/// The places where a whisper model is looked for, for the home directory `home`.
pub fn model_candidates(home: &str) -> (r: Vec<String>)
    ensures
        views(r@) == model_candidate_texts(home@),
{
    let mut r: Vec<String> = Vec::new();
    r.push(joined(home, "/whisper-models/ggml-large-v3.bin"));
    r.push(joined(home, "/whisper-models/ggml-large-v3-turbo.bin"));
    r.push(owned("/opt/homebrew/share/whisper-cpp/models/ggml-large-v3.bin"));
    r.push(joined(home, "/.cache/whisper/ggml-large-v3.bin"));
    assert(views(r@) =~= model_candidate_texts(home@));
    r
}

/// The model lookup for `home`, given the probe answers `present` of its
/// candidates: the first candidate that is present (large-v3 in
/// `~/whisper-models` before turbo, before Homebrew's, before the cache), or the
/// message that no model was found.
pub open spec fn model_result(home: Seq<char>, present: Seq<bool>) -> Result<Seq<char>, Seq<char>> {
    match pick_first(model_candidate_texts(home), present) {
        Some(p) => Ok(p),
        None => Err(MODEL_MISSING@),
    }
}

/// The model lookup for `home`, given which of its candidates are present.
pub fn model_from_probes(home: &str, present: &Vec<bool>) -> (r: Result<String, String>)
    requires
        present@.len() == model_candidate_texts(home@).len(),
    ensures
        result_view(r) == model_result(home@, present@),
{
    let candidates = model_candidates(home);
    match pick_first_present(&candidates, present) {
        Some(p) => Ok(p),
        None => Err(owned(MODEL_MISSING)),
    }
}

/// The model lookup returns the earliest candidate that is present (so large-v3
/// in `~/whisper-models` wins over turbo when both are there), and the message that
/// no model was found exactly when no candidate is present.
pub proof fn lemma_model_order(home: Seq<char>, present: Seq<bool>)
    requires
        present.len() == model_candidate_texts(home).len(),
    ensures
        model_result(home, present) is Err <==> forall|j: int|
            0 <= j < present.len() ==> !present[j],
        model_result(home, present) is Err ==> model_result(home, present) == Err::<
            Seq<char>,
            Seq<char>,
        >(MODEL_MISSING@),
        forall|i: int|
            is_first_present(present, i) ==> model_result(home, present) == Ok::<
                Seq<char>,
                Seq<char>,
            >(#[trigger] model_candidate_texts(home)[i]),
{
    lemma_pick_first(model_candidate_texts(home), present);
}

/// The installed whisper model: the first candidate for `home` found on disk, or
/// the message that no model was found.
pub fn find_whisper_model(home: &str) -> (r: Result<String, String>)
    ensures
        exists|present: Seq<bool>|
            present.len() == model_candidate_texts(home@).len() && result_view(r)
                == #[trigger] model_result(home@, present),
{
    let candidates = model_candidates(home);
    let present = probe_paths(&candidates);
    let r = model_from_probes(home, &present);
    assert(present@.len() == model_candidate_texts(home@).len() && result_view(r) == model_result(
        home@,
        present@,
    ));
    r
}

/// Which parts of the transcription tool chain are installed.
pub struct WhisperCheck {
    /// whisper-cli was found.
    pub whisper: bool,
    /// A model file was found.
    pub model: bool,
    /// ffmpeg was found.
    pub ffmpeg: bool,
    /// The model file found, or empty.
    pub model_path: String,
}

/// The report on the transcription tool chain, from the results of the
/// whisper-cli, model and ffmpeg lookups.
pub fn check_whisper(
    whisper: &Result<String, String>,
    model: &Result<String, String>,
    ffmpeg: &Result<String, String>,
) -> (r: WhisperCheck)
    ensures
        r.whisper == whisper is Ok,
        r.ffmpeg == ffmpeg is Ok,
        r.model == model is Ok,
        r.model_path@ == match model {
            Ok(p) => p@,
            Err(_) => Seq::<char>::empty(),
        },
{
    let (found, model_path) = match model {
        Ok(p) => (true, p.clone()),
        Err(_) => (false, String::new()),
    };
    WhisperCheck { whisper: whisper.is_ok(), model: found, ffmpeg: ffmpeg.is_ok(), model_path }
}

} // verus!
