# podcast_helper

URL in, PCM out. Given a local file path, a direct audio URL, an RSS/Atom
feed URL (its latest episode), or a YouTube/Vimeo/SoundCloud/Twitch URL,
decode the audio to raw PCM with `ffmpeg`. Spotify and Apple Podcasts
catalog URLs are refused with a pointer to the show's public RSS feed.

Layout:

- `src/` — the library, verified with Verus:
  - `source.rs`: classification of a source string (over the parts of its
    parsed URL, from the `url` crate);
  - `episode.rs`, `feed.rs`: feed entries to episodes, newest-first stable
    ordering, the latest episode (feed documents parsed by `feed-rs`);
  - `feed_check.rs`: which feed documents are handed to the parser at all:
    a reading of the bytes that refuses the few places where the parser can
    panic (oversized or non-ASCII time values, a non-ASCII character right
    next to an e-mail address in a person field, a late or unknown encoding
    declaration, a UTF-16 start) and accepts everything else;
  - `ffmpeg.rs`, `pcm.rs`: the decoder's command line, what each way the
    decoder process ends means, little-endian sample words, frame counts;
  - `extract.rs`: the step an extraction takes for each kind of source, and
    what a `yt-dlp` download's outcome means;
  - `text.rs`: character-level string operations;
  - `error.rs`: the error type.
- `app/` — the I/O around it: HTTP fetches (`ureq`), running `ffmpeg`,
  downloads through `youtube-helper-rs`, `f32` samples, and the error and
  episode types with their `thiserror`/`serde` derives.
- `tests/` — tests of the library.
