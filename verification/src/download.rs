//! Downloading with yt-dlp: the modes, the command line, reading progress output,
//! and deciding the result from what yt-dlp reported.
use vstd::prelude::*;
use vstd::string::StringExecFns;
use crate::pattern::{
    group_text, group_views, pattern_captures, pattern_compiles, pattern_matches,
    regex_captures, regex_compiles, regex_is_match,
};
use crate::text::{
    chars_of, chars_start_with, contains, decimal, lines, lines_of, owned, owned_all, push_char,
    push_decimal, starts_with, text_contains, text_equal, trim_start,
    trim_start_chars, views,
};
use crate::tools::{first_existing_owned, opt_view, pick_first, pick_first_present, probe_paths};

verus! {

// ---------------------------------------------------------------------------
// Modes
// ---------------------------------------------------------------------------

/// What to fetch.
#[derive(PartialEq, Eq, Structural, Clone, Copy, Debug)]
pub enum DownloadMode {
    /// Best audio, converted to WAV.
    AudioWav,
    /// Best audio, converted to MP3.
    AudioMp3,
    /// Best video and audio, merged into MP4.
    VideoBest,
    /// Best video up to 1080 lines, merged into MP4.
    Video1080,
    /// Korean and English subtitles only.
    SubOnly,
    /// Video with subtitle files beside it.
    VideoSub,
    /// Video with the subtitles embedded.
    VideoHardsub,
    /// A live stream, recorded from its beginning.
    LiveFromStart,
    /// A live stream, recorded from now on.
    LiveNow,
}

/// The mode that the front end calls `name`.
pub open spec fn mode_named(name: Seq<char>) -> Option<DownloadMode> {
    if name == "audio_wav"@ {
        Some(DownloadMode::AudioWav)
    } else if name == "audio_mp3"@ {
        Some(DownloadMode::AudioMp3)
    } else if name == "video_best"@ {
        Some(DownloadMode::VideoBest)
    } else if name == "video_1080"@ {
        Some(DownloadMode::Video1080)
    } else if name == "sub_only"@ {
        Some(DownloadMode::SubOnly)
    } else if name == "video_sub"@ {
        Some(DownloadMode::VideoSub)
    } else if name == "video_hardsub"@ {
        Some(DownloadMode::VideoHardsub)
    } else if name == "live_from_start"@ {
        Some(DownloadMode::LiveFromStart)
    } else if name == "live_now"@ {
        Some(DownloadMode::LiveNow)
    } else {
        None
    }
}

/// The start of the message for an unknown mode name.
pub const UNKNOWN_MODE: &'static str = "알 수 없는 모드: ";

impl DownloadMode {
    /// The mode records a live stream.
    pub open spec fn live(self) -> bool {
        self == DownloadMode::LiveFromStart || self == DownloadMode::LiveNow
    }

    /// The mode produces a video file.
    pub open spec fn video(self) -> bool {
        ||| self == DownloadMode::VideoSub
        ||| self == DownloadMode::VideoHardsub
        ||| self == DownloadMode::VideoBest
        ||| self == DownloadMode::Video1080
        ||| self.live()
    }

    /// The mode fetches subtitles.
    pub open spec fn subtitles(self) -> bool {
        self == DownloadMode::SubOnly || self == DownloadMode::VideoSub || self
            == DownloadMode::VideoHardsub
    }

    /// The mode named `name`, or the message for an unknown mode.
    pub fn from_name(name: &str) -> (r: Result<DownloadMode, String>)
        ensures
            match r {
                Ok(m) => mode_named(name@) == Some(m),
                Err(e) => mode_named(name@) is None && e@ == UNKNOWN_MODE@ + name@,
            },
    {
        if text_equal(name, "audio_wav") {
            Ok(DownloadMode::AudioWav)
        } else if text_equal(name, "audio_mp3") {
            Ok(DownloadMode::AudioMp3)
        } else if text_equal(name, "video_best") {
            Ok(DownloadMode::VideoBest)
        } else if text_equal(name, "video_1080") {
            Ok(DownloadMode::Video1080)
        } else if text_equal(name, "sub_only") {
            Ok(DownloadMode::SubOnly)
        } else if text_equal(name, "video_sub") {
            Ok(DownloadMode::VideoSub)
        } else if text_equal(name, "video_hardsub") {
            Ok(DownloadMode::VideoHardsub)
        } else if text_equal(name, "live_from_start") {
            Ok(DownloadMode::LiveFromStart)
        } else if text_equal(name, "live_now") {
            Ok(DownloadMode::LiveNow)
        } else {
            let mut e = owned(UNKNOWN_MODE);
            e.append(name);
            Err(e)
        }
    }

    /// Whether the mode records a live stream.
    pub fn is_live(&self) -> (r: bool)
        ensures
            r == self.live(),
    {
        match self {
            DownloadMode::LiveFromStart | DownloadMode::LiveNow => true,
            _ => false,
        }
    }

    /// Whether the mode produces a video file.
    pub fn is_video(&self) -> (r: bool)
        ensures
            r == self.video(),
    {
        match self {
            DownloadMode::VideoSub | DownloadMode::VideoHardsub | DownloadMode::VideoBest
            | DownloadMode::Video1080 | DownloadMode::LiveFromStart | DownloadMode::LiveNow => true,
            _ => false,
        }
    }

    /// Whether the mode fetches subtitles.
    pub fn has_subtitles(&self) -> (r: bool)
        ensures
            r == self.subtitles(),
    {
        match self {
            DownloadMode::SubOnly | DownloadMode::VideoSub | DownloadMode::VideoHardsub => true,
            _ => false,
        }
    }

    /// The yt-dlp options that select what the mode fetches.
    pub open spec fn arg_texts(self) -> Seq<Seq<char>> {
        match self {
            DownloadMode::AudioWav => seq![
                "-x"@,
                "--audio-format"@,
                "wav"@,
                "--audio-quality"@,
                "0"@,
            ],
            DownloadMode::AudioMp3 => seq![
                "-x"@,
                "--audio-format"@,
                "mp3"@,
                "--audio-quality"@,
                "0"@,
            ],
            DownloadMode::VideoBest => seq![
                "-f"@,
                "bestvideo+bestaudio/best"@,
                "--merge-output-format"@,
                "mp4"@,
            ],
            DownloadMode::Video1080 => seq![
                "-f"@,
                "bestvideo[height<=1080]+bestaudio/best[height<=1080]/best"@,
                "--merge-output-format"@,
                "mp4"@,
            ],
            DownloadMode::SubOnly => seq![
                "--write-subs"@,
                "--write-auto-subs"@,
                "--sub-langs"@,
                "ko,en"@,
                "--skip-download"@,
            ],
            DownloadMode::VideoSub => seq![
                "--write-subs"@,
                "--write-auto-subs"@,
                "--sub-langs"@,
                "ko,en"@,
                "-f"@,
                "bestvideo+bestaudio/best"@,
                "--merge-output-format"@,
                "mp4"@,
            ],
            DownloadMode::VideoHardsub => seq![
                "--write-subs"@,
                "--write-auto-subs"@,
                "--sub-langs"@,
                "ko,en"@,
                "--embed-subs"@,
                "-f"@,
                "bestvideo+bestaudio/best"@,
                "--merge-output-format"@,
                "mp4"@,
            ],
            DownloadMode::LiveFromStart => seq![
                "-f"@,
                "bv*+ba/b"@,
                "--live-from-start"@,
                "--hls-use-mpegts"@,
                "--wait-for-video"@,
                "30"@,
                "--fragment-retries"@,
                "20"@,
                "--merge-output-format"@,
                "mp4"@,
            ],
            DownloadMode::LiveNow => seq![
                "-f"@,
                "bv*+ba/b"@,
                "--hls-use-mpegts"@,
                "--wait-for-video"@,
                "30"@,
                "--fragment-retries"@,
                "20"@,
                "--merge-output-format"@,
                "mp4"@,
            ],
        }
    }

    /// The yt-dlp options that select what the mode fetches.
    pub fn args(&self) -> (r: Vec<String>)
        ensures
            views(r@) == self.arg_texts(),
    {
        let r = match self {
            DownloadMode::AudioWav => owned_all(
                &["-x", "--audio-format", "wav", "--audio-quality", "0"],
            ),
            DownloadMode::AudioMp3 => owned_all(
                &["-x", "--audio-format", "mp3", "--audio-quality", "0"],
            ),
            DownloadMode::VideoBest => owned_all(
                &["-f", "bestvideo+bestaudio/best", "--merge-output-format", "mp4"],
            ),
            DownloadMode::Video1080 => owned_all(
                &[
                    "-f",
                    "bestvideo[height<=1080]+bestaudio/best[height<=1080]/best",
                    "--merge-output-format",
                    "mp4",
                ],
            ),
            DownloadMode::SubOnly => owned_all(
                &["--write-subs", "--write-auto-subs", "--sub-langs", "ko,en", "--skip-download"],
            ),
            DownloadMode::VideoSub => owned_all(
                &[
                    "--write-subs",
                    "--write-auto-subs",
                    "--sub-langs",
                    "ko,en",
                    "-f",
                    "bestvideo+bestaudio/best",
                    "--merge-output-format",
                    "mp4",
                ],
            ),
            DownloadMode::VideoHardsub => owned_all(
                &[
                    "--write-subs",
                    "--write-auto-subs",
                    "--sub-langs",
                    "ko,en",
                    "--embed-subs",
                    "-f",
                    "bestvideo+bestaudio/best",
                    "--merge-output-format",
                    "mp4",
                ],
            ),
            DownloadMode::LiveFromStart => owned_all(
                &[
                    "-f",
                    "bv*+ba/b",
                    "--live-from-start",
                    "--hls-use-mpegts",
                    "--wait-for-video",
                    "30",
                    "--fragment-retries",
                    "20",
                    "--merge-output-format",
                    "mp4",
                ],
            ),
            DownloadMode::LiveNow => owned_all(
                &[
                    "-f",
                    "bv*+ba/b",
                    "--hls-use-mpegts",
                    "--wait-for-video",
                    "30",
                    "--fragment-retries",
                    "20",
                    "--merge-output-format",
                    "mp4",
                ],
            ),
        };
        assert(views(r@) =~= self.arg_texts());
        r
    }
}

// ---------------------------------------------------------------------------
// The command line
// ---------------------------------------------------------------------------

/// A character that a folder or file name may not hold.
pub open spec fn is_reserved_name_char(c: char) -> bool {
    c == '/' || c == '\\' || c == ':' || c == '*' || c == '?' || c == '"' || c == '<' || c == '>'
        || c == '|'
}

/// `s` without its reserved characters.
pub open spec fn strip_reserved(s: Seq<char>) -> Seq<char>
    decreases s.len(),
{
    if s.len() == 0 {
        Seq::empty()
    } else if is_reserved_name_char(s.last()) {
        strip_reserved(s.drop_last())
    } else {
        strip_reserved(s.drop_last()).push(s.last())
    }
}

/// The folder (and file) name the user chose, without reserved characters; empty
/// when none was chosen.
pub open spec fn folder_name_text(filename: Option<Seq<char>>) -> Seq<char> {
    match filename {
        Some(n) => strip_reserved(n),
        None => Seq::empty(),
    }
}

/// The folder name for the chosen file name: the name without reserved
/// characters, or empty when no name was chosen.
pub fn folder_name(filename: Option<&str>) -> (r: String)
    ensures
        r@ == folder_name_text(
            match filename {
                Some(n) => Some(n@),
                None => None,
            },
        ),
{
    match filename {
        None => String::new(),
        Some(n) => {
            let cs = chars_of(n);
            let mut r = String::new();
            proof {
                assert(cs@.take(0) =~= Seq::<char>::empty());
            }
            for i in 0..cs.len()
                invariant
                    cs@ == n@,
                    r@ == strip_reserved(cs@.take(i as int)),
            {
                let c = cs[i];
                proof {
                    assert(cs@.take(i + 1).drop_last() =~= cs@.take(i as int));
                    assert(cs@.take(i + 1).last() == c);
                }
                if !(c == '/' || c == '\\' || c == ':' || c == '*' || c == '?' || c == '"' || c
                    == '<' || c == '>' || c == '|') {
                    push_char(&mut r, c);
                }
            }
            proof {
                assert(cs@.take(cs@.len() as int) =~= cs@);
            }
            r
        },
    }
}

/// A name without reserved characters keeps every character.
pub open spec fn has_no_reserved(s: Seq<char>) -> bool {
    forall|i: int| 0 <= i < s.len() ==> !is_reserved_name_char(#[trigger] s[i])
}

/// The folder name holds no reserved character, names without reserved characters
/// are kept as they are, and cleaning a cleaned name changes nothing.
pub proof fn lemma_strip_reserved(s: Seq<char>)
    ensures
        has_no_reserved(strip_reserved(s)),
        has_no_reserved(s) ==> strip_reserved(s) == s,
        strip_reserved(strip_reserved(s)) == strip_reserved(s),
    decreases s.len(),
{
    if s.len() > 0 {
        lemma_strip_reserved(s.drop_last());
        let r = strip_reserved(s.drop_last());
        if !is_reserved_name_char(s.last()) {
            let r2 = r.push(s.last());
            assert(has_no_reserved(r2)) by {
                assert forall|i: int| 0 <= i < r2.len() implies !is_reserved_name_char(
                    #[trigger] r2[i],
                ) by {
                    if i < r.len() {
                        assert(r2[i] == r[i]);
                    }
                }
            }
            assert(r2.drop_last() =~= r);
            if has_no_reserved(s) {
                assert(has_no_reserved(s.drop_last())) by {
                    assert forall|i: int| 0 <= i < s.drop_last().len() implies !is_reserved_name_char(
                        #[trigger] s.drop_last()[i],
                    ) by {
                        assert(s.drop_last()[i] == s[i]);
                    }
                }
                assert(r2 =~= s);
            }
        } else {
            assert(has_no_reserved(s) ==> !is_reserved_name_char(s[s.len() - 1]));
        }
    }
}

/// Cleaning a chosen name removes exactly the nine characters `/ \ : * ? " < > |`
/// and keeps every other character, in order; so a name holding none of them is
/// kept as it is, and is the folder and file name in the output template.
pub proof fn lemma_folder_name_removes_only_reserved(name: Seq<char>, output_dir: Seq<char>)
    ensures
        folder_name_text(Some(name)) == name.filter(
            |c: char|
                !(c == '/' || c == '\\' || c == ':' || c == '*' || c == '?' || c == '"' || c
                    == '<' || c == '>' || c == '|'),
        ),
        (forall|i: int|
            0 <= i < name.len() ==> !(#[trigger] name[i] == '/' || name[i] == '\\' || name[i]
                == ':' || name[i] == '*' || name[i] == '?' || name[i] == '"' || name[i] == '<'
                || name[i] == '>' || name[i] == '|')) ==> folder_name_text(Some(name)) == name,
        (forall|i: int|
            0 <= i < name.len() ==> !(#[trigger] name[i] == '/' || name[i] == '\\' || name[i]
                == ':' || name[i] == '*' || name[i] == '?' || name[i] == '"' || name[i] == '<'
                || name[i] == '>' || name[i] == '|')) && name.len() > 0 ==> output_template_text(
            output_dir,
            folder_name_text(Some(name)),
        ) == output_dir + "/"@ + name + "/"@ + name + ".%(ext)s"@,
    decreases name.len(),
{
    reveal(Seq::filter);
    let keep = |c: char|
        !(c == '/' || c == '\\' || c == ':' || c == '*' || c == '?' || c == '"' || c == '<' || c
            == '>' || c == '|');
    if name.len() > 0 {
        lemma_folder_name_removes_only_reserved(name.drop_last(), output_dir);
        assert(strip_reserved(name) == name.filter(keep));
    } else {
        assert(strip_reserved(name) == name.filter(keep));
    }
    lemma_strip_reserved(name);
    if forall|i: int|
        0 <= i < name.len() ==> !(#[trigger] name[i] == '/' || name[i] == '\\' || name[i]
            == ':' || name[i] == '*' || name[i] == '?' || name[i] == '"' || name[i] == '<'
            || name[i] == '>' || name[i] == '|') {
        assert(has_no_reserved(name));
    }
}

/// The output template handed to yt-dlp: a folder named after the video title, or
/// after the chosen name, inside `output_dir`.
pub open spec fn output_template_text(output_dir: Seq<char>, folder: Seq<char>) -> Seq<char> {
    if folder.len() == 0 {
        output_dir + "/%(title)s/%(title)s.%(ext)s"@
    } else {
        output_dir + "/"@ + folder + "/"@ + folder + ".%(ext)s"@
    }
}

/// The output template for `output_dir` and the folder name `folder`.
pub fn output_template(output_dir: &str, folder: &str) -> (r: String)
    ensures
        r@ == output_template_text(output_dir@, folder@),
{
    let mut r = owned(output_dir);
    if folder.is_empty() {
        r.append("/%(title)s/%(title)s.%(ext)s");
    } else {
        r.append("/");
        r.append(folder);
        r.append("/");
        r.append(folder);
        r.append(".%(ext)s");
    }
    r
}

/// The options every download uses: line-by-line progress without colours, the
/// mobile YouTube clients, few retries and polite pauses between requests.
pub open spec fn common_arg_texts() -> Seq<Seq<char>> {
    seq![
        "--newline"@,
        "--no-colors"@,
        "--extractor-args"@,
        "youtube:player_client=ios,android,web"@,
        "--retries"@,
        "2"@,
        "--extractor-retries"@,
        "1"@,
        "--sleep-requests"@,
        "1.5"@,
        "--sleep-subtitles"@,
        "3"@,
    ]
}

/// The complete yt-dlp command line (without the program) for downloading `url`.
pub open spec fn download_arg_texts(
    url: Seq<char>,
    mode: DownloadMode,
    filename: Option<Seq<char>>,
    output_dir: Seq<char>,
    node: Option<Seq<char>>,
    ffmpeg_dir: Option<Seq<char>>,
) -> Seq<Seq<char>> {
    seq![url] + mode.arg_texts() + seq![
        "-o"@,
        output_template_text(output_dir, folder_name_text(filename)),
    ] + common_arg_texts() + (if mode.subtitles() {
        seq!["--ignore-errors"@]
    } else {
        Seq::empty()
    }) + (match node {
        Some(p) => seq!["--js-runtimes"@, "nodejs:"@ + p],
        None => Seq::empty(),
    }) + (match ffmpeg_dir {
        Some(d) => seq!["--ffmpeg-location"@, d],
        None => Seq::empty(),
    })
}

/// Each audio mode asks yt-dlp for its own format: the command line starts with the
/// address, then extraction, then `--audio-format` followed by `wav` for
/// `AudioWav` and by `mp3` for `AudioMp3`, at the best quality; so the two audio
/// modes give different command lines.
pub proof fn lemma_audio_formats(
    url: Seq<char>,
    filename: Option<Seq<char>>,
    output_dir: Seq<char>,
    node: Option<Seq<char>>,
    ffmpeg_dir: Option<Seq<char>>,
)
    ensures
        ({
            let wav = download_arg_texts(
                url,
                DownloadMode::AudioWav,
                filename,
                output_dir,
                node,
                ffmpeg_dir,
            );
            let mp3 = download_arg_texts(
                url,
                DownloadMode::AudioMp3,
                filename,
                output_dir,
                node,
                ffmpeg_dir,
            );
            &&& wav.len() > 6 && mp3.len() > 6
            &&& wav.take(6) == seq![
                url,
                "-x"@,
                "--audio-format"@,
                "wav"@,
                "--audio-quality"@,
                "0"@,
            ]
            &&& mp3.take(6) == seq![
                url,
                "-x"@,
                "--audio-format"@,
                "mp3"@,
                "--audio-quality"@,
                "0"@,
            ]
            &&& wav != mp3
        }),
        DownloadMode::AudioWav.arg_texts() == seq![
            "-x"@,
            "--audio-format"@,
            "wav"@,
            "--audio-quality"@,
            "0"@,
        ],
        DownloadMode::AudioMp3.arg_texts() == seq![
            "-x"@,
            "--audio-format"@,
            "mp3"@,
            "--audio-quality"@,
            "0"@,
        ],
{
    let wav = download_arg_texts(url, DownloadMode::AudioWav, filename, output_dir, node, ffmpeg_dir);
    let mp3 = download_arg_texts(url, DownloadMode::AudioMp3, filename, output_dir, node, ffmpeg_dir);
    assert(wav.take(6) =~= seq![url, "-x"@, "--audio-format"@, "wav"@, "--audio-quality"@, "0"@]);
    assert(mp3.take(6) =~= seq![url, "-x"@, "--audio-format"@, "mp3"@, "--audio-quality"@, "0"@]);
    assert(wav[3] == "wav"@);
    assert(mp3[3] == "mp3"@);
    assert("wav"@ != "mp3"@) by {
        reveal_strlit("wav");
        reveal_strlit("mp3");
        assert("wav"@[0] != "mp3"@[0]);
    }
}

/// The yt-dlp command line for downloading `url` in `mode` into `output_dir`, with the
/// chosen file name, the node runtime and the ffmpeg directory, when there are any.
pub fn download_args(
    url: &str,
    mode: DownloadMode,
    filename: Option<&str>,
    output_dir: &str,
    node: Option<&str>,
    ffmpeg_dir: Option<&str>,
) -> (r: Vec<String>)
    ensures
        views(r@) == download_arg_texts(
            url@,
            mode,
            match filename {
                Some(n) => Some(n@),
                None => None,
            },
            output_dir@,
            match node {
                Some(p) => Some(p@),
                None => None,
            },
            match ffmpeg_dir {
                Some(d) => Some(d@),
                None => None,
            },
        ),
{
    let ghost fname = match filename {
        Some(x) => Some(x@),
        None => None,
    };
    let ghost nodev = match node {
        Some(x) => Some(x@),
        None => None,
    };
    let ghost dirv = match ffmpeg_dir {
        Some(x) => Some(x@),
        None => None,
    };
    let mut args: Vec<String> = Vec::new();
    args.push(owned(url));
    let mode_args = mode.args();
    let folder = folder_name(filename);
    let template = output_template(output_dir, folder.as_str());
    let common = owned_all(
        &[
            "--newline",
            "--no-colors",
            "--extractor-args",
            "youtube:player_client=ios,android,web",
            "--retries",
            "2",
            "--extractor-retries",
            "1",
            "--sleep-requests",
            "1.5",
            "--sleep-subtitles",
            "3",
        ],
    );
    assert(views(common@) =~= common_arg_texts());
    let ghost expect = download_arg_texts(url@, mode, fname, output_dir@, nodev, dirv);
    let ghost mut acc: Seq<Seq<char>> = seq![url@];
    assert(views(args@) =~= acc);
    for i in 0..mode_args.len()
        invariant
            views(args@) == acc + views(mode_args@).take(i as int),
    {
        let ghost before = views(args@);
        args.push(mode_args[i].clone());
        assert(views(args@) =~= before.push(mode_args@[i as int]@));
        assert(views(mode_args@).take(i + 1) =~= views(mode_args@).take(i as int).push(
            mode_args@[i as int]@,
        ));
    }
    proof {
        assert(views(mode_args@).take(mode_args@.len() as int) =~= views(mode_args@));
        acc = acc + mode.arg_texts();
    }
    args.push(owned("-o"));
    args.push(template);
    proof {
        acc = acc + seq!["-o"@, output_template_text(output_dir@, folder_name_text(fname))];
    }
    assert(views(args@) =~= acc);
    for i in 0..common.len()
        invariant
            views(args@) == acc + views(common@).take(i as int),
    {
        let ghost before = views(args@);
        args.push(common[i].clone());
        assert(views(args@) =~= before.push(common@[i as int]@));
        assert(views(common@).take(i + 1) =~= views(common@).take(i as int).push(
            common@[i as int]@,
        ));
    }
    proof {
        assert(views(common@).take(common@.len() as int) =~= views(common@));
        acc = acc + common_arg_texts();
    }
    if mode.has_subtitles() {
        args.push(owned("--ignore-errors"));
    }
    proof {
        acc = acc + (if mode.subtitles() {
            seq!["--ignore-errors"@]
        } else {
            Seq::empty()
        });
    }
    assert(views(args@) =~= acc);
    match node {
        Some(p) => {
            args.push(owned("--js-runtimes"));
            let mut rt = owned("nodejs:");
            rt.append(p);
            args.push(rt);
        },
        None => {},
    }
    proof {
        acc = acc + (match nodev {
            Some(p) => seq!["--js-runtimes"@, "nodejs:"@ + p],
            None => Seq::empty(),
        });
    }
    assert(views(args@) =~= acc);
    match ffmpeg_dir {
        Some(d) => {
            args.push(owned("--ffmpeg-location"));
            args.push(owned(d));
        },
        None => {},
    }
    proof {
        acc = acc + (match dirv {
            Some(d) => seq!["--ffmpeg-location"@, d],
            None => Seq::empty(),
        });
    }
    assert(views(args@) =~= acc);
    assert(acc =~= expect);
    args
}

/// The places where a node runtime is looked for, in order.
pub open spec fn node_candidate_texts() -> Seq<Seq<char>> {
    seq!["/opt/homebrew/bin/node"@, "/usr/local/bin/node"@]
}

/// The places where a node runtime is looked for, in order.
pub fn node_candidates() -> (r: Vec<String>)
    ensures
        views(r@) == node_candidate_texts(),
{
    let r = owned_all(&["/opt/homebrew/bin/node", "/usr/local/bin/node"]);
    assert(views(r@) =~= node_candidate_texts());
    r
}

/// A node runtime for yt-dlp's YouTube extractor: the first of its places found
/// on disk, if any.
pub fn detect_node_runtime() -> (r: Option<String>)
    ensures
        exists|present: Seq<bool>|
            present.len() == node_candidate_texts().len() && opt_view(r) == #[trigger] pick_first(
                node_candidate_texts(),
                present,
            ),
{
    first_existing_owned(&node_candidates())
}

/// The directories where ffmpeg is looked for, in order.
pub open spec fn tool_dir_texts() -> Seq<Seq<char>> {
    seq!["/opt/homebrew/bin"@, "/usr/local/bin"@]
}

/// The directories where ffmpeg is looked for, in order.
pub fn tool_dirs() -> (r: Vec<String>)
    ensures
        views(r@) == tool_dir_texts(),
{
    let r = owned_all(&["/opt/homebrew/bin", "/usr/local/bin"]);
    assert(views(r@) =~= tool_dir_texts());
    r
}

/// The ffmpeg executable in each of the directories where it is looked for.
pub open spec fn ffmpeg_probe_texts() -> Seq<Seq<char>> {
    seq!["/opt/homebrew/bin/ffmpeg"@, "/usr/local/bin/ffmpeg"@]
}

/// The paths probed to find the directory holding ffmpeg, one per directory.
pub fn ffmpeg_probes() -> (r: Vec<String>)
    ensures
        views(r@) == ffmpeg_probe_texts(),
{
    let r = owned_all(&["/opt/homebrew/bin/ffmpeg", "/usr/local/bin/ffmpeg"]);
    assert(views(r@) =~= ffmpeg_probe_texts());
    r
}

/// The directory holding ffmpeg, given for each directory whether ffmpeg is
/// present in it: the first such directory, if any.
pub fn ffmpeg_dir_from_probes(present: &Vec<bool>) -> (r: Option<String>)
    requires
        present@.len() == tool_dir_texts().len(),
    ensures
        opt_view(r) == pick_first(tool_dir_texts(), present@),
{
    pick_first_present(&tool_dirs(), present)
}

/// The directory holding ffmpeg: the first of the Homebrew directories in which
/// ffmpeg is found on disk, if any.
pub fn detect_ffmpeg_dir() -> (r: Option<String>)
    ensures
        exists|present: Seq<bool>|
            present.len() == tool_dir_texts().len() && opt_view(r) == #[trigger] pick_first(
                tool_dir_texts(),
                present,
            ),
{
    let probes = ffmpeg_probes();
    assert(probes@.len() == views(probes@).len());
    let present = probe_paths(&probes);
    let r = ffmpeg_dir_from_probes(&present);
    assert(present@.len() == tool_dir_texts().len() && opt_view(r) == pick_first(
        tool_dir_texts(),
        present@,
    ));
    r
}

// ---------------------------------------------------------------------------
// Progress output
// ---------------------------------------------------------------------------

/// `[download]  12.3%`: the percentage of an ordinary download.
pub const PERCENT_PATTERN: &'static str = r"\[download\]\s+(\d+\.?\d*)%";

/// `[download] 1.03GiB at 584KB/s (frag 3062/3062)`: a live stream in fragments.
pub const FRAGMENT_PATTERN: &'static str =
    r"\[download\]\s+([\d.]+\s*[KMG]?i?B)\s+at\s+[^\(]*\(frag\s+(\d+)/(\??\d*)\)";

/// `frame=N fps=F ... size=SIZE time=HH:MM:SS bitrate=BR`: ffmpeg recording a stream.
pub const FFMPEG_PATTERN: &'static str =
    r"frame=\s*\d+.*?size=\s*([\d.]+\s*[KMG]?i?B).*?time=([\d:.]+)";

/// `[download] 8.50MiB at 1.2MiB/s`: yt-dlp recording a single HLS stream.
pub const SIZE_PATTERN: &'static str =
    r"\[download\]\s+([\d.]+\s*[KMG]?i?B)\s+at\s+[\d.]+\s*[KMG]?i?B/s";

/// `fragment not found; Skipping fragment N`: a lost piece of a live stream.
pub const SKIP_PATTERN: &'static str = r"fragment not found; Skipping fragment";

/// All progress patterns compile.
pub open spec fn progress_patterns_compile() -> bool {
    &&& regex_compiles(PERCENT_PATTERN@)
    &&& regex_compiles(FRAGMENT_PATTERN@)
    &&& regex_compiles(FFMPEG_PATTERN@)
    &&& regex_compiles(SIZE_PATTERN@)
    &&& regex_compiles(SKIP_PATTERN@)
}

/// The percentage text of an ordinary download line.
pub open spec fn percent_text_of(line: Seq<char>) -> Option<Seq<char>> {
    match regex_captures(PERCENT_PATTERN@, line) {
        Some(g) => Some(group_text(g, 1)),
        None => None,
    }
}

/// The note on lost fragments, when there are any.
pub open spec fn skipped_note(skipped: nat) -> Seq<char> {
    if skipped > 0 {
        " · 누락 "@ + decimal(skipped)
    } else {
        Seq::empty()
    }
}

/// The status shown for a line of live-recording output, with `skipped` fragments
/// lost so far: fragment count and size, or size and recorded time, or size alone.
pub open spec fn live_status_of(line: Seq<char>, skipped: nat) -> Option<Seq<char>> {
    match regex_captures(FRAGMENT_PATTERN@, line) {
        Some(g) => Some(
            "녹화 중 · "@ + group_text(g, 2) + " 조각 · "@ + group_text(g, 1) + skipped_note(
                skipped,
            ),
        ),
        None => match regex_captures(FFMPEG_PATTERN@, line) {
            Some(g) => Some(
                "녹화 중 · "@ + group_text(g, 1) + " · 영상 "@ + group_text(g, 2) + skipped_note(
                    skipped,
                ),
            ),
            None => match regex_captures(SIZE_PATTERN@, line) {
                Some(g) => Some("녹화 중 · "@ + group_text(g, 1) + skipped_note(skipped)),
                None => None,
            },
        },
    }
}

/// A fragment line of a live recording, `[download] S at R (frag N/M)`, is shown
/// as the count `N` of fragments recorded (the number before the slash, group 2 of
/// the pattern) and the size `S` (group 1), followed by the note on lost fragments
/// when there are any.
pub proof fn lemma_fragment_status(
    line: Seq<char>,
    groups: Seq<Option<Seq<char>>>,
    size: Seq<char>,
    recorded: Seq<char>,
    skipped: nat,
)
    requires
        regex_captures(FRAGMENT_PATTERN@, line) == Some(groups),
        groups.len() > 2,
        groups[1] == Some(size),
        groups[2] == Some(recorded),
    ensures
        skipped == 0 ==> live_status_of(line, skipped) == Some(
            "녹화 중 · "@ + recorded + " 조각 · "@ + size,
        ),
        skipped > 0 ==> live_status_of(line, skipped) == Some(
            "녹화 중 · "@ + recorded + " 조각 · "@ + size + " · 누락 "@ + decimal(skipped),
        ),
{
    if skipped == 0 {
        assert("녹화 중 · "@ + recorded + " 조각 · "@ + size + Seq::<char>::empty() =~= "녹화 중 · "@
            + recorded + " 조각 · "@ + size);
    }
}

/// The text of group `i`, or empty when it is absent.
pub fn group_or_empty(groups: &Vec<Option<String>>, i: usize) -> (r: String)
    ensures
        r@ == group_text(group_views(groups@), i as int),
{
    if i < groups.len() {
        match &groups[i] {
            Some(s) => s.clone(),
            None => String::new(),
        }
    } else {
        String::new()
    }
}

fn append_skipped_note(s: &mut String, skipped: u64)
    ensures
        final(s)@ == old(s)@ + skipped_note(skipped as nat),
{
    if skipped > 0 {
        s.append(" · 누락 ");
        push_decimal(s, skipped);
    } else {
        assert(old(s)@ + Seq::<char>::empty() =~= old(s)@);
    }
}

/// Reads the progress lines of yt-dlp and ffmpeg. It exists only when all of its
/// patterns compile.
pub struct ProgressReader {
    ready: (),
}

impl ProgressReader {
    #[verifier::type_invariant]
    spec fn patterns_ready(self) -> bool {
        progress_patterns_compile()
    }

    /// A reader, or `None` when one of the progress patterns does not compile.
    pub fn new() -> (r: Option<Self>)
        ensures
            r is Some <==> progress_patterns_compile(),
    {
        if pattern_compiles(PERCENT_PATTERN) && pattern_compiles(FRAGMENT_PATTERN)
            && pattern_compiles(FFMPEG_PATTERN) && pattern_compiles(SIZE_PATTERN)
            && pattern_compiles(SKIP_PATTERN) {
            Some(ProgressReader { ready: () })
        } else {
            None
        }
    }

    /// The percentage text of an ordinary download line, if it is one.
    pub fn percent_text(&self, line: &str) -> (r: Option<String>)
        ensures
            match r {
                Some(t) => percent_text_of(line@) == Some(t@),
                None => percent_text_of(line@) is None,
            },
    {
        proof {
            use_type_invariant(self);
        }
        match pattern_captures(PERCENT_PATTERN, line) {
            Some(g) => Some(group_or_empty(&g, 1)),
            None => None,
        }
    }

    /// Whether a line of live-recording output reports a lost fragment.
    pub fn is_skip_notice(&self, line: &str) -> (r: bool)
        ensures
            r == regex_is_match(SKIP_PATTERN@, line@),
    {
        proof {
            use_type_invariant(self);
        }
        pattern_matches(SKIP_PATTERN, line)
    }

    /// The status to show for a line of live-recording output, with `skipped`
    /// fragments lost so far; `None` for a line that reports no progress.
    pub fn live_status(&self, line: &str, skipped: u64) -> (r: Option<String>)
        ensures
            match r {
                Some(t) => live_status_of(line@, skipped as nat) == Some(t@),
                None => live_status_of(line@, skipped as nat) is None,
            },
    {
        proof {
            use_type_invariant(self);
        }
        if let Some(g) = pattern_captures(FRAGMENT_PATTERN, line) {
            let mut s = owned("녹화 중 · ");
            s.append(group_or_empty(&g, 2).as_str());
            s.append(" 조각 · ");
            s.append(group_or_empty(&g, 1).as_str());
            append_skipped_note(&mut s, skipped);
            return Some(s);
        }
        if let Some(g) = pattern_captures(FFMPEG_PATTERN, line) {
            let mut s = owned("녹화 중 · ");
            s.append(group_or_empty(&g, 1).as_str());
            s.append(" · 영상 ");
            s.append(group_or_empty(&g, 2).as_str());
            append_skipped_note(&mut s, skipped);
            return Some(s);
        }
        if let Some(g) = pattern_captures(SIZE_PATTERN, line) {
            let mut s = owned("녹화 중 · ");
            s.append(group_or_empty(&g, 1).as_str());
            append_skipped_note(&mut s, skipped);
            return Some(s);
        }
        None
    }
}

// ---------------------------------------------------------------------------
// Files found after a download
// ---------------------------------------------------------------------------

/// What a file in a download folder is, by its extension.
#[derive(PartialEq, Eq, Structural, Clone, Copy, Debug)]
pub enum FileKind {
    /// A WebVTT subtitle file.
    Subtitles,
    /// A video container.
    Video,
    /// Anything else.
    Other,
}

/// The kind of a file with the extension `ext`.
pub open spec fn kind_of_extension(ext: Seq<char>) -> FileKind {
    if ext == "vtt"@ {
        FileKind::Subtitles
    } else if ext == "mp4"@ || ext == "mkv"@ || ext == "webm"@ || ext == "mov"@ || ext == "ts"@ {
        FileKind::Video
    } else {
        FileKind::Other
    }
}

/// The kind of a file with the extension `ext`.
pub fn file_kind(ext: &str) -> (r: FileKind)
    ensures
        r == kind_of_extension(ext@),
{
    if text_equal(ext, "vtt") {
        FileKind::Subtitles
    } else if text_equal(ext, "mp4") || text_equal(ext, "mkv") || text_equal(ext, "webm")
        || text_equal(ext, "mov") || text_equal(ext, "ts") {
        FileKind::Video
    } else {
        FileKind::Other
    }
}

/// Indices `i` of `after`, in order, whose entry is not among `before`.
pub open spec fn new_entry_indices(before: Seq<Seq<u8>>, after: Seq<Seq<u8>>) -> Seq<int>
    decreases after.len(),
{
    if after.len() == 0 {
        Seq::empty()
    } else if before.contains(after.last()) {
        new_entry_indices(before, after.drop_last())
    } else {
        new_entry_indices(before, after.drop_last()).push(after.len() - 1)
    }
}

fn byte_strings_contain(list: &Vec<Vec<u8>>, x: &Vec<u8>) -> (r: bool)
    ensures
        r == list@.map_values(|v: Vec<u8>| v@).contains(x@),
{
    let ghost lv = list@.map_values(|v: Vec<u8>| v@);
    for i in 0..list.len()
        invariant
            lv == list@.map_values(|v: Vec<u8>| v@),
            forall|j: int| 0 <= j < i ==> lv[j] != x@,
    {
        let a = list[i].as_slice();
        let b = x.as_slice();
        let mut same = a.len() == b.len();
        let mut k: usize = 0;
        while same && k < a.len()
            invariant
                same ==> a@.len() == b@.len(),
                k <= a@.len(),
                same ==> forall|j: int| 0 <= j < k ==> a@[j] == b@[j],
                !same ==> a@ != b@,
            decreases a@.len() - k,
        {
            if a[k] != b[k] {
                same = false;
            }
            k = k + 1;
        }
        if same {
            assert(a@ =~= b@);
            assert(lv[i as int] == x@);
            return true;
        }
        assert(lv[i as int] == a@);
    }
    false
}

/// The entries of a folder listing that were not in an earlier listing: the indices
/// into `after`, in order, of the entries (as raw path bytes) missing from `before`.
pub fn new_entries(before: &Vec<Vec<u8>>, after: &Vec<Vec<u8>>) -> (r: Vec<usize>)
    ensures
        r@.map_values(|i: usize| i as int) == new_entry_indices(
            before@.map_values(|v: Vec<u8>| v@),
            after@.map_values(|v: Vec<u8>| v@),
        ),
{
    let ghost bv = before@.map_values(|v: Vec<u8>| v@);
    let ghost av = after@.map_values(|v: Vec<u8>| v@);
    let mut r: Vec<usize> = Vec::new();
    for i in 0..after.len()
        invariant
            bv == before@.map_values(|v: Vec<u8>| v@),
            av == after@.map_values(|v: Vec<u8>| v@),
            r@.map_values(|i: usize| i as int) == new_entry_indices(bv, av.take(i as int)),
    {
        proof {
            assert(av.take(i + 1).drop_last() =~= av.take(i as int));
            assert(av.take(i + 1).last() == after@[i as int]@);
        }
        if !byte_strings_contain(before, &after[i]) {
            let ghost old_r = r@.map_values(|i: usize| i as int);
            r.push(i);
            assert(r@.map_values(|i: usize| i as int) =~= old_r.push(i as int));
        }
    }
    proof {
        assert(av.take(after@.len() as int) =~= av);
    }
    r
}

/// What was found among the files written by a download.
pub struct FolderScan {
    /// A subtitle file was written.
    pub vtt_found: bool,
    /// A video file was written.
    pub video_found: bool,
}

impl FolderScan {
    /// Nothing found yet.
    pub fn new() -> (r: Self)
        ensures
            !r.vtt_found,
            !r.video_found,
    {
        FolderScan { vtt_found: false, video_found: false }
    }

    /// Notes one file of a download folder: whether it was written during this
    /// download, and its extension. Returns whether it is a new subtitle file, to be
    /// turned into plain text. Files from earlier downloads are ignored.
    pub fn note_file(&mut self, recent: bool, ext: Option<&str>) -> (convert: bool)
        ensures
            ({
                let kind = match ext {
                    Some(e) => kind_of_extension(e@),
                    None => FileKind::Other,
                };
                &&& convert == (recent && kind == FileKind::Subtitles)
                &&& final(self).vtt_found == (old(self).vtt_found || convert)
                &&& final(self).video_found == (old(self).video_found || (recent && kind
                    == FileKind::Video))
            }),
    {
        if !recent {
            return false;
        }
        match ext {
            Some(e) => match file_kind(e) {
                FileKind::Subtitles => {
                    self.vtt_found = true;
                    true
                },
                FileKind::Video => {
                    self.video_found = true;
                    false
                },
                FileKind::Other => false,
            },
            None => false,
        }
    }
}

// ---------------------------------------------------------------------------
// The result of a download
// ---------------------------------------------------------------------------

/// Reported when a subtitles-only download produced no subtitle file.
pub const SUBTITLES_FAILED: &'static str = "자막 다운로드에 실패했습니다. (자막이 없거나 YouTube 레이트 리밋)";

/// Reported when a live recording ended without lost fragments.
pub const RECORDING_DONE: &'static str = "녹화 완료!";

/// Reported when an ordinary download ended.
pub const DOWNLOAD_DONE: &'static str = "다운로드 완료!";

/// Reported on failure when yt-dlp printed no `ERROR:` line.
pub const DOWNLOAD_FAILED: &'static str = "다운로드 중 오류가 발생했습니다.";

/// A line in which yt-dlp reports a real error.
pub open spec fn is_fatal_line(l: Seq<char>) -> bool {
    starts_with(trim_start(l), "ERROR:"@)
}

/// The fatal lines among `ls`, in order.
pub open spec fn fatal_lines(ls: Seq<Seq<char>>) -> Seq<Seq<char>>
    decreases ls.len(),
{
    if ls.len() == 0 {
        Seq::empty()
    } else if is_fatal_line(ls.last()) {
        fatal_lines(ls.drop_last()).push(ls.last())
    } else {
        fatal_lines(ls.drop_last())
    }
}

/// An error about subtitles only.
pub open spec fn is_subtitle_error(e: Seq<char>) -> bool {
    ||| contains(e, "subtitles"@)
    ||| contains(e, "No subtitles"@)
    ||| contains(e, "Unable to download video subtitles"@)
}

/// An error that a live recording recovers from.
pub open spec fn is_recoverable_live_error(e: Seq<char>) -> bool {
    ||| contains(e, "Did not get any data blocks"@)
    ||| contains(e, "fragment"@)
    ||| contains(e, "HTTP Error 5"@)
}

/// The download failed: yt-dlp reported errors, and they are not excused by a
/// video file (or by the errors being about subtitles only) in a video mode, by a
/// subtitle file in the subtitles-only mode, or by all being recoverable in a live
/// recording.
pub open spec fn download_failed(
    mode: DownloadMode,
    errors: Seq<char>,
    vtt_found: bool,
    video_found: bool,
) -> bool {
    let fatal = fatal_lines(lines(errors));
    let subtitle_only = fatal.len() > 0 && forall|i: int|
        0 <= i < fatal.len() ==> is_subtitle_error(#[trigger] fatal[i]);
    let live_recoverable = mode.live() && fatal.len() > 0 && forall|i: int|
        0 <= i < fatal.len() ==> is_recoverable_live_error(#[trigger] fatal[i]);
    &&& fatal.len() > 0
    &&& !(mode.video() && (video_found || subtitle_only))
    &&& !(mode == DownloadMode::SubOnly && vtt_found)
    &&& !live_recoverable
}

/// The message for a finished live recording that lost `skipped` fragments.
pub open spec fn recording_done_text(skipped: nat) -> Seq<char> {
    if skipped == 0 {
        RECORDING_DONE@
    } else {
        "녹화 완료 · 조각 "@ + decimal(skipped) + " 개 누락 (영상 갭 약 "@ + decimal(2 * skipped)
            + "초)"@
    }
}

/// The result of a download in `mode` after which yt-dlp's error stream held
/// `errors`, a subtitle file was (or was not) found, a video file was (or was not)
/// found, and `skipped` live fragments were lost.
pub open spec fn download_result(
    mode: DownloadMode,
    errors: Seq<char>,
    vtt_found: bool,
    video_found: bool,
    skipped: nat,
) -> Result<Seq<char>, Seq<char>> {
    if !download_failed(mode, errors, vtt_found, video_found) {
        if mode == DownloadMode::SubOnly && !vtt_found {
            Err(SUBTITLES_FAILED@)
        } else if mode.live() {
            Ok(recording_done_text(skipped))
        } else {
            Ok(DOWNLOAD_DONE@)
        }
    } else {
        let fatal = fatal_lines(lines(errors));
        if fatal.len() > 0 {
            Err(fatal[0])
        } else {
            Err(DOWNLOAD_FAILED@)
        }
    }
}

/// The fatal lines among the lines of `errors`, in order.
pub fn fatal_error_lines(errors: &str) -> (r: Vec<String>)
    ensures
        views(r@) == fatal_lines(lines(errors@)),
{
    let ls = lines_of(errors);
    let marker = chars_of("ERROR:");
    let mut r: Vec<String> = Vec::new();
    let ghost lv = views(ls@);
    for i in 0..ls.len()
        invariant
            lv == views(ls@),
            marker@ == "ERROR:"@,
            views(r@) == fatal_lines(lv.take(i as int)),
    {
        proof {
            assert(lv.take(i + 1).drop_last() =~= lv.take(i as int));
            assert(lv.take(i + 1).last() == ls@[i as int]@);
        }
        let t = trim_start_chars(chars_of(ls[i].as_str()).as_slice());
        if chars_start_with(t.as_slice(), marker.as_slice()) {
            let ghost before = views(r@);
            r.push(ls[i].clone());
            assert(views(r@) =~= before.push(ls@[i as int]@));
        }
    }
    proof {
        assert(lv.take(ls@.len() as int) =~= lv);
    }
    r
}

fn all_about_subtitles(fatal: &Vec<String>) -> (r: bool)
    ensures
        r == forall|i: int| 0 <= i < fatal@.len() ==> is_subtitle_error(#[trigger] fatal@[i]@),
{
    for i in 0..fatal.len()
        invariant
            forall|j: int| 0 <= j < i ==> is_subtitle_error(#[trigger] fatal@[j]@),
    {
        let e = fatal[i].as_str();
        if !(text_contains(e, "subtitles") || text_contains(e, "No subtitles") || text_contains(
            e,
            "Unable to download video subtitles",
        )) {
            return false;
        }
    }
    true
}

fn all_recoverable(fatal: &Vec<String>) -> (r: bool)
    ensures
        r == forall|i: int|
            0 <= i < fatal@.len() ==> is_recoverable_live_error(#[trigger] fatal@[i]@),
{
    for i in 0..fatal.len()
        invariant
            forall|j: int| 0 <= j < i ==> is_recoverable_live_error(#[trigger] fatal@[j]@),
    {
        let e = fatal[i].as_str();
        if !(text_contains(e, "Did not get any data blocks") || text_contains(e, "fragment")
            || text_contains(e, "HTTP Error 5")) {
            return false;
        }
    }
    true
}

/// The result of a download: the message to show on success, or the error.
pub fn download_outcome(
    mode: DownloadMode,
    errors: &str,
    vtt_found: bool,
    video_found: bool,
    skipped: u64,
) -> (r: Result<String, String>)
    requires
        mode.live() && skipped > 0 && !download_failed(mode, errors@, vtt_found, video_found)
            ==> skipped <= u64::MAX / 2,
    ensures
        match r {
            Ok(m) => download_result(mode, errors@, vtt_found, video_found, skipped as nat) == Ok::<
                Seq<char>,
                Seq<char>,
            >(m@),
            Err(e) => download_result(mode, errors@, vtt_found, video_found, skipped as nat)
                == Err::<Seq<char>, Seq<char>>(e@),
        },
{
    let fatal = fatal_error_lines(errors);
    let ghost fv = fatal_lines(lines(errors@));
    proof {
        assert forall|i: int| 0 <= i < fatal@.len() implies #[trigger] fatal@[i]@ == fv[i] by {
            assert(views(fatal@)[i] == fatal@[i]@);
        }
    }
    let any = fatal.len() > 0;
    let subtitle_only = any && all_about_subtitles(&fatal);
    let live_recoverable = mode.is_live() && any && all_recoverable(&fatal);
    let failed = any && !(mode.is_video() && (video_found || subtitle_only)) && !(mode
        == DownloadMode::SubOnly && vtt_found) && !live_recoverable;
    proof {
        assert(subtitle_only == (fv.len() > 0 && forall|i: int|
            0 <= i < fv.len() ==> is_subtitle_error(#[trigger] fv[i])));
        assert(live_recoverable == (mode.live() && fv.len() > 0 && forall|i: int|
            0 <= i < fv.len() ==> is_recoverable_live_error(#[trigger] fv[i])));
        assert(failed == download_failed(mode, errors@, vtt_found, video_found));
    }
    if !failed {
        if mode == DownloadMode::SubOnly && !vtt_found {
            Err(owned(SUBTITLES_FAILED))
        } else if mode.is_live() {
            if skipped == 0 {
                Ok(owned(RECORDING_DONE))
            } else {
                let mut m = owned("녹화 완료 · 조각 ");
                push_decimal(&mut m, skipped);
                m.append(" 개 누락 (영상 갭 약 ");
                push_decimal(&mut m, skipped * 2);
                m.append("초)");
                Ok(m)
            }
        } else {
            Ok(owned(DOWNLOAD_DONE))
        }
    } else {
        if fatal.len() > 0 {
            Err(fatal[0].clone())
        } else {
            Err(owned(DOWNLOAD_FAILED))
        }
    }
}

/// Reported when there is no download to cancel.
pub const NO_DOWNLOAD_RUNNING: &'static str = "진행 중인 다운로드가 없습니다.";

/// The process to stop when the user cancels: the running download's process id,
/// or the message that nothing is running.
pub fn cancel_target(running: Option<u32>) -> (r: Result<u32, String>)
    ensures
        match running {
            Some(pid) => r matches Ok(p) && p == pid,
            None => r matches Err(e) && e@ == NO_DOWNLOAD_RUNNING@,
        },
{
    match running {
        Some(pid) => Ok(pid),
        None => Err(owned(NO_DOWNLOAD_RUNNING)),
    }
}

// ---------------------------------------------------------------------------
// Laws of the download result
// ---------------------------------------------------------------------------

/// Every line that `fatal_lines` picks is a line of the input that reports an
/// error, and the first one picked is the first such line.
pub proof fn lemma_fatal_lines_are_fatal(ls: Seq<Seq<char>>)
    ensures
        forall|i: int|
            0 <= i < fatal_lines(ls).len() ==> is_fatal_line(#[trigger] fatal_lines(ls)[i])
                && ls.contains(fatal_lines(ls)[i]),
    decreases ls.len(),
{
    if ls.len() > 0 {
        lemma_fatal_lines_are_fatal(ls.drop_last());
        let f = fatal_lines(ls.drop_last());
        assert forall|i: int| 0 <= i < fatal_lines(ls).len() implies is_fatal_line(
            #[trigger] fatal_lines(ls)[i],
        ) && ls.contains(fatal_lines(ls)[i]) by {
            if i < f.len() {
                assert(fatal_lines(ls)[i] == f[i]);
                let k = choose|k: int| 0 <= k < ls.drop_last().len() && ls.drop_last()[k] == f[i];
                assert(ls[k] == f[i]);
            } else {
                assert(ls[ls.len() - 1] == ls.last());
            }
        }
    }
}

/// Warnings alone never fail a download: when yt-dlp printed no `ERROR:` line, the
/// result is a success, except that a subtitles-only download that produced no
/// subtitle file reports that.
pub proof fn lemma_warnings_do_not_fail(
    mode: DownloadMode,
    errors: Seq<char>,
    vtt_found: bool,
    video_found: bool,
    skipped: nat,
)
    requires
        fatal_lines(lines(errors)).len() == 0,
    ensures
        !download_failed(mode, errors, vtt_found, video_found),
        download_result(mode, errors, vtt_found, video_found, skipped) is Ok <==> !(mode
            == DownloadMode::SubOnly && !vtt_found),
{
}

/// A video mode that produced a video file succeeds, whatever errors yt-dlp
/// reported.
pub proof fn lemma_video_file_succeeds(
    mode: DownloadMode,
    errors: Seq<char>,
    vtt_found: bool,
    skipped: nat,
)
    requires
        mode.video(),
    ensures
        download_result(mode, errors, vtt_found, true, skipped) is Ok,
{
}

/// A subtitles-only download succeeds exactly when a subtitle file was found.
pub proof fn lemma_subtitles_only_needs_a_file(
    errors: Seq<char>,
    vtt_found: bool,
    video_found: bool,
    skipped: nat,
)
    ensures
        download_result(DownloadMode::SubOnly, errors, vtt_found, video_found, skipped) is Ok
            <==> vtt_found,
        vtt_found ==> download_result(DownloadMode::SubOnly, errors, vtt_found, video_found, skipped)
            == Ok::<Seq<char>, Seq<char>>(DOWNLOAD_DONE@),
{
}

/// A live recording whose errors are all recoverable (lost data blocks, fragments,
/// server errors) ends as a finished recording.
pub proof fn lemma_live_errors_recoverable(
    mode: DownloadMode,
    errors: Seq<char>,
    vtt_found: bool,
    video_found: bool,
    skipped: nat,
)
    requires
        mode.live(),
        forall|i: int|
            0 <= i < fatal_lines(lines(errors)).len() ==> is_recoverable_live_error(
                #[trigger] fatal_lines(lines(errors))[i],
            ),
    ensures
        download_result(mode, errors, vtt_found, video_found, skipped) == Ok::<
            Seq<char>,
            Seq<char>,
        >(recording_done_text(skipped)),
{
}

/// In a mode that downloads a video, when no video file was found and one of the
/// lines in which yt-dlp reported an error is about neither subtitles nor a fault
/// a live recording recovers from, the download fails with the first error line:
/// errors about subtitles excuse a missing video only when every error line is
/// about subtitles.
pub proof fn lemma_video_error_not_excused(
    mode: DownloadMode,
    errors: Seq<char>,
    vtt_found: bool,
    skipped: nat,
    k: int,
)
    requires
        mode == DownloadMode::VideoSub || mode == DownloadMode::VideoHardsub || mode
            == DownloadMode::VideoBest || mode == DownloadMode::Video1080 || mode
            == DownloadMode::LiveFromStart || mode == DownloadMode::LiveNow,
        0 <= k < fatal_lines(lines(errors)).len(),
        !contains(fatal_lines(lines(errors))[k], "subtitles"@),
        !contains(fatal_lines(lines(errors))[k], "No subtitles"@),
        !contains(fatal_lines(lines(errors))[k], "Unable to download video subtitles"@),
        !contains(fatal_lines(lines(errors))[k], "Did not get any data blocks"@),
        !contains(fatal_lines(lines(errors))[k], "fragment"@),
        !contains(fatal_lines(lines(errors))[k], "HTTP Error 5"@),
    ensures
        download_result(mode, errors, vtt_found, false, skipped) == Err::<Seq<char>, Seq<char>>(
            fatal_lines(lines(errors))[0],
        ),
{
    let fatal = fatal_lines(lines(errors));
    assert(!is_subtitle_error(fatal[k]));
    assert(!is_recoverable_live_error(fatal[k]));
}

/// A failed download is reported with the first line in which yt-dlp reported an
/// error; that line is one of the lines it printed.
pub proof fn lemma_failure_names_first_error(
    mode: DownloadMode,
    errors: Seq<char>,
    vtt_found: bool,
    video_found: bool,
    skipped: nat,
)
    requires
        download_failed(mode, errors, vtt_found, video_found),
    ensures
        ({
            let fatal = fatal_lines(lines(errors));
            &&& fatal.len() > 0
            &&& download_result(mode, errors, vtt_found, video_found, skipped) == Err::<
                Seq<char>,
                Seq<char>,
            >(fatal[0])
            &&& is_fatal_line(fatal[0])
            &&& lines(errors).contains(fatal[0])
        }),
{
    lemma_fatal_lines_are_fatal(lines(errors));
}

} // verus!
