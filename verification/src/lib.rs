//! URL in, PCM out: the decision logic of a podcast audio extractor.
//!
//! Given a source string, decide what it is (local file, direct audio URL,
//! feed, yt-dlp platform, refused DRM catalog); turn a parsed feed into its
//! episodes, newest first; build the decoder's command line and interpret
//! how the decoder ended. The I/O itself is the caller's.

mod episode;
mod error;
mod extract;
mod feed;
mod feed_check;
mod ffmpeg;
mod pcm;
mod source;
mod text;

pub use episode::{enclosure_from_entry, Episode, FeedEntry, LinkRecord, MediaContentRecord, MediaRecord};
pub use error::PodcastHelperError;
pub use extract::{download_outcome, extraction_step, ExtractionStep};
pub use feed::{
    episodes_from_entries, feed_outcome, latest_episode_of, parse_feed, parse_unchecked_feed, sort_newest_first,
};
pub use feed_check::accepts_feed_bytes;
pub use ffmpeg::{ffmpeg_args, ffmpeg_outcome, spawn_failure, SpawnOutcome};
pub use pcm::{frames_in, le_words, ExtractOptions, RawPcm};
pub use source::{
    classify_parsed, classify_source, extension_of, is_apple_podcasts_host, is_spotify_host,
    is_ytdlp_host, KindView, SourceKind, UrlParts,
};
