//! Verified core of a desktop front end for yt-dlp and whisper-cli: command lines,
//! progress-line parsing, subtitle cleaning and the decisions that turn tool output
//! into results.
pub mod text;
pub mod pattern;
pub mod vtt;
pub mod stream;
pub mod tools;
pub mod download;
pub mod webloc;
pub mod settings;
pub mod transcribe;
