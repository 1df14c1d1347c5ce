//! The decisions of `extract_audio_stream`: what to do with a classified
//! source before any I/O happens. The caller performs the step (decode with
//! `ffmpeg`, fetch a feed, download through `yt-dlp`) and comes back with
//! its result.

use vstd::prelude::*;
use crate::error::PodcastHelperError;
use crate::source::{
    apple_hint, apple_platform, apple_podcasts_host, classify_spec, spotify_hint,
    spotify_host, spotify_platform, KindView, SourceKind, UrlParts,
};
use crate::text::ascii_lower;

verus! {

/// The next step of an extraction.
#[derive(Debug)]
pub enum ExtractionStep {
    /// The source is refused before any I/O, with this error.
    Refuse(PodcastHelperError),
    /// Decode this local path or URL with `ffmpeg`.
    Decode(String),
    /// Fetch this feed, pick its latest episode, and decode its enclosure.
    DecodeLatestEpisode(String),
    /// Download the audio of this URL through `yt-dlp`, then decode the file.
    DecodeDownload(String),
}

/// The step for each kind of source: DRM catalogs and unknown schemes are
/// refused; local files and direct URLs are decoded; feeds go through their
/// latest episode; yt-dlp platforms through a download.
pub open spec fn step_of(kind: SourceKind) -> ExtractionStep {
    match kind {
        SourceKind::Drm { platform, hint } => ExtractionStep::Refuse(
            PodcastHelperError::DrmProtected { platform, hint },
        ),
        SourceKind::Unrecognized(s) => ExtractionStep::Refuse(PodcastHelperError::UnrecognizedSource(s)),
        SourceKind::YtDlp(url) => ExtractionStep::DecodeDownload(url),
        SourceKind::Feed(url) => ExtractionStep::DecodeLatestEpisode(url),
        SourceKind::LocalFile(path) => ExtractionStep::Decode(path),
        SourceKind::DirectAudioUrl(url) => ExtractionStep::Decode(url),
    }
}

/// The step that extracting audio from a source of this kind takes first.
pub fn extraction_step(kind: SourceKind) -> (r: ExtractionStep)
    ensures
        r == step_of(kind),
{
    match kind {
        SourceKind::Drm { platform, hint } => ExtractionStep::Refuse(
            PodcastHelperError::DrmProtected { platform, hint },
        ),
        SourceKind::Unrecognized(s) => ExtractionStep::Refuse(PodcastHelperError::UnrecognizedSource(s)),
        SourceKind::YtDlp(url) => ExtractionStep::DecodeDownload(url),
        SourceKind::Feed(url) => ExtractionStep::DecodeLatestEpisode(url),
        SourceKind::LocalFile(path) => ExtractionStep::Decode(path),
        SourceKind::DirectAudioUrl(url) => ExtractionStep::Decode(url),
    }
}

/// What a download through `yt-dlp` means: the path of the downloaded file
/// to decode, or, where the download failed, a `YtDlp` error naming the URL
/// and carrying the failure.
pub fn download_outcome(url: &str, downloaded: Result<String, youtube_helper_rs::YoutubeHelperError>) -> (r: Result<String, PodcastHelperError>)
    ensures
        match downloaded {
            Ok(path) => r == Ok::<String, PodcastHelperError>(path),
            Err(e) => r matches Err(PodcastHelperError::YtDlp { url: u, source }) && u@ == url@ && source == e,
        },
{
    match downloaded {
        Ok(path) => Ok(path),
        Err(e) => Err(PodcastHelperError::YtDlp { url: String::from_str(url), source: e }),
    }
}

/// The host of parsed URL parts, lower-cased (empty where there is none).
pub open spec fn lower_host(p: UrlParts) -> Seq<char> {
    ascii_lower(
        match p.host {
            Some(h) => h@,
            None => Seq::empty(),
        },
    )
}

/// Spotify and Apple Podcasts catalog URLs are refused outright, before any
/// network or decoder work, under the platform's name and with a pointer to
/// the show's public RSS feed.
pub proof fn law_catalog_urls_are_refused(source: Seq<char>, parsed: Option<UrlParts>, kind: SourceKind)
    requires
        kind@ == classify_spec(source, parsed),
        parsed is Some,
        parsed->0.scheme@ == "http"@ || parsed->0.scheme@ == "https"@,
    ensures
        spotify_host(lower_host(parsed->0)) ==> (step_of(kind) matches ExtractionStep::Refuse(
            PodcastHelperError::DrmProtected { platform, hint },
        ) && platform@ == spotify_platform() && hint@ == spotify_hint()),
        !spotify_host(lower_host(parsed->0)) && apple_podcasts_host(lower_host(parsed->0)) ==> (
        step_of(kind) matches ExtractionStep::Refuse(
            PodcastHelperError::DrmProtected { platform, hint },
        ) && platform@ == apple_platform() && hint@ == apple_hint()),
{
    let p = parsed->0;
    reveal_strlit("file");
    reveal_strlit("http");
    reveal_strlit("https");
    assert(p.scheme@ != "file"@) by {
        assert("file"@[0] == 'f');
        assert("http"@[0] == 'h');
        assert("https"@[0] == 'h');
        assert(p.scheme@[0] == 'h');
    }
    if spotify_host(lower_host(p)) {
        assert(classify_spec(source, parsed) == (KindView::Drm { platform: spotify_platform(), hint: spotify_hint() }));
    } else if apple_podcasts_host(lower_host(p)) {
        assert(classify_spec(source, parsed) == (KindView::Drm { platform: apple_platform(), hint: apple_hint() }));
    }
    match kind {
        SourceKind::Drm { platform, hint } => {},
        _ => {},
    }
}

} // verus!
