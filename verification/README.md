# yt_dlp_downloader

The verified core of a desktop front end for `yt-dlp` (downloads) and `whisper-cli`
(transcription). The library in `src/` is checked with Verus; `app/` is the Tauri
shell that runs the child processes, touches the file system and emits events.

Modules of the library:

- `text` – character-level utilities (trimming, `lines`, searching, decimal numbers).
- `pattern` – regular-expression matching through the `regex` crate.
- `vtt` – WebVTT subtitles to plain text.
- `stream` – reassembling lines from streamed process output; collecting error output.
- `download` – download modes, the yt-dlp command line, progress lines, the result.
- `transcribe` – ffmpeg and whisper-cli command lines, whisper-cli output, messages.
- `tools` – locating the external programs and the whisper model.
- `settings` – the saved download folder (JSON through `serde_json`).
- `webloc` – the link files left in a new download folder.
