//! The one error type of the library: a distinct variant per failure mode a
//! caller needs to branch on.

use vstd::prelude::*;

verus! {

/// `std::io::Error`, carried through unchanged.
#[verifier::external_type_specification]
#[verifier::external_body]
pub struct ExIoError(std::io::Error);

/// `youtube_helper_rs::YoutubeHelperError`, carried through unchanged.
#[verifier::external_type_specification]
#[verifier::external_body]
pub struct ExYoutubeHelperError(youtube_helper_rs::YoutubeHelperError);

/// Every fallible operation of the library ends in this type.
#[derive(Debug)]
pub enum PodcastHelperError {
    /// The `ffmpeg` binary could not be spawned at all (not on `PATH`).
    FfmpegNotFound(String),
    /// `ffmpeg` ran but exited non-zero; `stderr` is its own diagnostic.
    FfmpegFailed { input_source: String, stderr: String },
    /// An HTTP request failed before any bytes could be interpreted.
    Network { url: String, message: String },
    /// The bytes at `url` are not a feed that can be parsed.
    InvalidFeed { url: String, message: String },
    /// The feed parsed but none of its entries carried an audio enclosure.
    EmptyFeed(String),
    /// Spotify / Apple Podcasts catalog URLs: DRM-gated, refused outright.
    DrmProtected { platform: &'static str, hint: String },
    /// The string is not a source of any kind handled here.
    UnrecognizedSource(String),
    /// A yt-dlp-compatible source whose download failed.
    YtDlp { url: String, source: youtube_helper_rs::YoutubeHelperError },
    /// Any other I/O failure.
    Io(std::io::Error),
}

} // verus!
