//! Source classification: given an arbitrary string, decide whether it names
//! a local file, a direct audio URL, an RSS/Atom feed, a yt-dlp-compatible
//! platform, or a DRM-gated catalog URL that is refused outright. No network
//! and no filesystem: every branch inspects the string and its parsed URL.

use vstd::prelude::*;
use crate::text::{
    ascii_lower, ends_with, has_suffix, str_eq, to_ascii_lower,
};

verus! {

/// The parts of a parsed absolute URL that classification reads.
#[derive(Debug, Clone, PartialEq, Eq)]
pub struct UrlParts {
    /// The scheme, lower case (`https`, `file`, `ftp`, ...).
    pub scheme: String,
    /// The host, when the URL has one.
    pub host: Option<String>,
    /// The path component, percent-encoded as in the URL.
    pub path: String,
    /// For a URL that denotes a local file, the filesystem path it denotes.
    pub file_path: Option<String>,
}

/// What `url::Url::parse` makes of `source`: `None` where it is not an
/// absolute URL, else the scheme, host, path and file path of the URL.
pub uninterp spec fn url_parts_of(source: Seq<char>) -> Option<UrlParts>;

/// Calls `url::Url::parse` on `source` and reads from the result
/// `Url::scheme`, `Url::host_str`, `Url::path` and `Url::to_file_path` (the
/// last lossily turned into a string). The contract claims only that the
/// outcome is a function of `source`, named `url_parts_of`.
#[verifier::external_body]
fn parse_url_parts(source: &str) -> (res: Option<UrlParts>)
    ensures
        res == url_parts_of(source@),
{
    url::Url::parse(source).ok().map(|u| UrlParts {
        scheme: u.scheme().to_string(),
        host: u.host_str().map(|h| h.to_string()),
        path: u.path().to_string(),
        file_path: u.to_file_path().ok().map(|p| p.to_string_lossy().into_owned()),
    })
}

/// The outcome of classifying a source string, before any I/O happens.
#[derive(Debug, Clone, PartialEq, Eq)]
pub enum SourceKind {
    /// A path on the local filesystem (bare path or `file://` URL). Existence
    /// is not checked here: `ffmpeg` reports a missing file. The path is
    /// held as the string handed to `ffmpeg` (a `file://` path that is not
    /// UTF-8 taken lossily, as the decoder is given it).
    LocalFile(String),
    /// An HTTP(S) URL naming an audio container directly, or any other
    /// HTTP(S) URL not otherwise recognized: handed to `ffmpeg` as is.
    DirectAudioUrl(String),
    /// An HTTP(S) URL whose extension marks it as a feed document.
    Feed(String),
    /// A URL on a host that `yt-dlp` knows how to resolve.
    YtDlp(String),
    /// A DRM-gated catalog URL (Spotify, Apple Podcasts), refused outright.
    Drm { platform: &'static str, hint: String },
    /// A URL with a scheme that is not handled at all (e.g. `ftp://`).
    Unrecognized(String),
}

/// The mathematical model of a `SourceKind`: each string by its characters.
pub enum KindView {
    LocalFile(Seq<char>),
    DirectAudioUrl(Seq<char>),
    Feed(Seq<char>),
    YtDlp(Seq<char>),
    Drm { platform: Seq<char>, hint: Seq<char> },
    Unrecognized(Seq<char>),
}

impl View for SourceKind {
    type V = KindView;

    open spec fn view(&self) -> KindView {
        match self {
            SourceKind::LocalFile(p) => KindView::LocalFile(p@),
            SourceKind::DirectAudioUrl(u) => KindView::DirectAudioUrl(u@),
            SourceKind::Feed(u) => KindView::Feed(u@),
            SourceKind::YtDlp(u) => KindView::YtDlp(u@),
            SourceKind::Drm { platform, hint } => KindView::Drm { platform: platform@, hint: hint@ },
            SourceKind::Unrecognized(s) => KindView::Unrecognized(s@),
        }
    }
}

/// The name under which Spotify is refused.
pub open spec fn spotify_platform() -> Seq<char> {
    "Spotify"@
}

/// The advice given with a refused Spotify URL.
pub open spec fn spotify_hint() -> Seq<char> {
    "Spotify's catalog is DRM-gated and cannot be processed locally; look for the show's public RSS feed instead."@
}

/// The name under which Apple Podcasts is refused.
pub open spec fn apple_platform() -> Seq<char> {
    "Apple Podcasts"@
}

/// The advice given with a refused Apple Podcasts URL.
pub open spec fn apple_hint() -> Seq<char> {
    "Apple Podcasts URLs point to the catalog, not the audio; look for the show's public RSS feed instead (e.g. via getrssfeed.com or the Podcast Index)."@
}

/// `host` is `domain` itself or one of its subdomains.
pub open spec fn host_in_domain(host: Seq<char>, domain: Seq<char>) -> bool {
    host == domain || has_suffix(host, seq!['.'] + domain)
}

/// The host belongs to Spotify.
pub open spec fn spotify_host(host: Seq<char>) -> bool {
    host_in_domain(host, "spotify.com"@)
}

/// The host belongs to Apple Podcasts.
pub open spec fn apple_podcasts_host(host: Seq<char>) -> bool {
    host_in_domain(host, "podcasts.apple.com"@)
}

/// The host belongs to a platform that `yt-dlp` resolves.
pub open spec fn ytdlp_host(host: Seq<char>) -> bool {
    ||| host_in_domain(host, "youtube.com"@)
    ||| host_in_domain(host, "youtu.be"@)
    ||| host_in_domain(host, "vimeo.com"@)
    ||| host_in_domain(host, "soundcloud.com"@)
    ||| host_in_domain(host, "twitch.tv"@)
}

/// An extension that marks a feed document.
pub open spec fn feed_extension(ext: Seq<char>) -> bool {
    ext == "xml"@ || ext == "rss"@ || ext == "atom"@ || ext == "json"@
}

/// The position of the last `c` in `s`, or -1 where there is none.
pub open spec fn last_index_of(s: Seq<char>, c: char) -> int
    decreases s.len(),
{
    if s.len() == 0 {
        -1
    } else if s.last() == c {
        s.len() - 1
    } else {
        last_index_of(s.drop_last(), c)
    }
}

/// The extension of a path: what follows its last `.`, lower-cased, where
/// there is such a dot and something follows it.
pub open spec fn extension_spec(path: Seq<char>) -> Option<Seq<char>> {
    let i = last_index_of(path, '.');
    if i >= 0 && i + 1 < path.len() {
        Some(ascii_lower(path.subrange(i + 1, path.len() as int)))
    } else {
        None
    }
}

/// The class of `source`, given what URL parsing made of it.
pub open spec fn classify_spec(source: Seq<char>, parsed: Option<UrlParts>) -> KindView {
    match parsed {
        None => KindView::LocalFile(source),
        Some(p) => if p.scheme@ == "file"@ {
            KindView::LocalFile(
                match p.file_path {
                    Some(fp) => fp@,
                    None => p.path@,
                },
            )
        } else if p.scheme@ == "http"@ || p.scheme@ == "https"@ {
            let host = ascii_lower(
                match p.host {
                    Some(h) => h@,
                    None => Seq::empty(),
                },
            );
            if spotify_host(host) {
                KindView::Drm { platform: spotify_platform(), hint: spotify_hint() }
            } else if apple_podcasts_host(host) {
                KindView::Drm { platform: apple_platform(), hint: apple_hint() }
            } else if ytdlp_host(host) {
                KindView::YtDlp(source)
            } else {
                match extension_spec(p.path@) {
                    Some(ext) => if feed_extension(ext) {
                        KindView::Feed(source)
                    } else {
                        KindView::DirectAudioUrl(source)
                    },
                    None => KindView::DirectAudioUrl(source),
                }
            }
        } else {
            KindView::Unrecognized(source)
        },
    }
}

/// The characters of the host of parsed URL parts (empty where there is none).
pub open spec fn host_chars(p: UrlParts) -> Seq<char> {
    match p.host {
        Some(h) => h@,
        None => Seq::empty(),
    }
}

/// Classification reads the host without regard to ASCII case: two parsed
/// URLs that differ only in the case of their host are classified alike.
pub proof fn law_host_case_is_ignored(source: Seq<char>, p: UrlParts, q: UrlParts)
    requires
        p.scheme@ == q.scheme@,
        p.path@ == q.path@,
        p.file_path == q.file_path,
        ascii_lower(host_chars(p)) == ascii_lower(host_chars(q)),
    ensures
        classify_spec(source, Some(p)) == classify_spec(source, Some(q)),
{
}

/// `last_index_of` is an index of `c`, with no `c` after it, or -1 where `s`
/// holds no `c`.
proof fn lemma_last_index_of(s: Seq<char>, c: char)
    ensures
        -1 <= last_index_of(s, c) < s.len(),
        last_index_of(s, c) >= 0 ==> s[last_index_of(s, c)] == c,
        forall|j: int| last_index_of(s, c) < j < s.len() ==> s[j] != c,
    decreases s.len(),
{
    if s.len() > 0 && s.last() != c {
        lemma_last_index_of(s.drop_last(), c);
        assert forall|j: int| last_index_of(s, c) < j < s.len() implies s[j] != c by {
            if j < s.len() - 1 {
                assert(s[j] == s.drop_last()[j]);
            }
        }
    }
}

/// Lower-casing keeps every dot where it is.
proof fn lemma_last_dot_of_lower(s: Seq<char>)
    ensures
        last_index_of(ascii_lower(s), '.') == last_index_of(s, '.'),
    decreases s.len(),
{
    if s.len() > 0 {
        assert(ascii_lower(s).drop_last() =~= ascii_lower(s.drop_last()));
        lemma_last_dot_of_lower(s.drop_last());
    }
}

/// The extension of a path is matched without regard to ASCII case (two
/// paths equal but for the case of ASCII letters have the same extension),
/// and an extension comes out lower-cased and holds no dot.
pub proof fn law_extension_ignores_case(p: Seq<char>, q: Seq<char>)
    requires
        ascii_lower(p) == ascii_lower(q),
    ensures
        extension_spec(p) == extension_spec(q),
        extension_spec(p) matches Some(e) ==> ascii_lower(e) == e && !e.contains('.'),
{
    lemma_last_dot_of_lower(p);
    lemma_last_dot_of_lower(q);
    lemma_last_index_of(p, '.');
    let i = last_index_of(p, '.');
    assert(p.len() == ascii_lower(p).len() && q.len() == ascii_lower(q).len());
    if i >= 0 && i + 1 < p.len() {
        let sp = p.subrange(i + 1, p.len() as int);
        let sq = q.subrange(i + 1, q.len() as int);
        assert(ascii_lower(sp) =~= ascii_lower(p).subrange(i + 1, p.len() as int));
        assert(ascii_lower(sq) =~= ascii_lower(q).subrange(i + 1, q.len() as int));
        let e = ascii_lower(sp);
        assert(ascii_lower(e) =~= e);
        if e.contains('.') {
            let j = choose|j: int| 0 <= j < e.len() && e[j] == '.';
            assert(p[i + 1 + j] != '.');
        }
    }
}

/// `String::from(s)`, by its characters.
fn owned(s: &str) -> (r: String)
    ensures
        r@ == s@,
{
    String::from_str(s)
}

/// The position of the last `c` in `s`, or `None`.
fn find_last(s: &str, c: char) -> (r: Option<usize>)
    ensures
        match r {
            Some(i) => i as int == last_index_of(s@, c) && i < s@.len(),
            None => last_index_of(s@, c) == -1,
        },
{
    let n = s.unicode_len();
    let mut k: usize = n;
    assert(s@.subrange(0, n as int) =~= s@);
    while k > 0
        invariant
            n == s@.len(),
            k <= n,
            last_index_of(s@, c) == last_index_of(s@.subrange(0, k as int), c),
        decreases k,
    {
        let ghost pre = s@.subrange(0, k as int);
        if s.get_char(k - 1) == c {
            return Some(k - 1);
        }
        assert(pre.drop_last() =~= s@.subrange(0, k - 1));
        k = k - 1;
    }
    None
}

/// The extension of `path`: what follows its last `.`, lower-cased, if
/// anything follows it.
pub fn extension_of(path: &str) -> (r: Option<String>)
    ensures
        match r {
            Some(e) => extension_spec(path@) == Some(e@),
            None => extension_spec(path@) is None,
        },
{
    proof {
        assert(path@.subrange(0, path@.len() as int) =~= path@);
    }
    let n = path.unicode_len();
    match find_last(path, '.') {
        Some(i) => {
            if i + 1 < n {
                Some(to_ascii_lower(path.substring_char(i + 1, n)))
            } else {
                None
            }
        },
        None => None,
    }
}

/// `host` is `domain` itself or one of its subdomains.
fn in_domain(host: &str, domain: &str) -> (r: bool)
    ensures
        r == host_in_domain(host@, domain@),
{
    if str_eq(host, domain) {
        return true;
    }
    let n = host.unicode_len();
    let m = domain.unicode_len();
    if m >= n {
        proof {
            assert(!has_suffix(host@, seq!['.'] + domain@));
        }
        return false;
    }
    let off = n - m - 1;
    let dotted = host.get_char(off) == '.' && ends_with(host, domain);
    proof {
        let t = seq!['.'] + domain@;
        let tail = host@.subrange(off as int, n as int);
        if dotted {
            assert(tail =~= t);
        }
        if has_suffix(host@, t) {
            assert(tail[0] == t[0]);
            assert(host@.subrange(n - m, n as int) =~= tail.subrange(1, tail.len() as int));
            assert(t.subrange(1, t.len() as int) =~= domain@);
        }
    }
    dotted
}

/// The host is Spotify's.
pub fn is_spotify_host(host: &str) -> (r: bool)
    ensures
        r == spotify_host(host@),
{
    in_domain(host, "spotify.com")
}

/// The host is Apple Podcasts'.
pub fn is_apple_podcasts_host(host: &str) -> (r: bool)
    ensures
        r == apple_podcasts_host(host@),
{
    in_domain(host, "podcasts.apple.com")
}

/// The host is one that `yt-dlp` resolves: YouTube, Vimeo, SoundCloud or
/// Twitch.
pub fn is_ytdlp_host(host: &str) -> (r: bool)
    ensures
        r == ytdlp_host(host@),
{
    in_domain(host, "youtube.com") || in_domain(host, "youtu.be") || in_domain(host, "vimeo.com")
        || in_domain(host, "soundcloud.com") || in_domain(host, "twitch.tv")
}

/// The extension is one of a feed document.
fn is_feed_extension(ext: &str) -> (r: bool)
    ensures
        r == feed_extension(ext@),
{
    str_eq(ext, "xml") || str_eq(ext, "rss") || str_eq(ext, "atom") || str_eq(ext, "json")
}

/// Classify `source` given what URL parsing made of it (`None`: not an
/// absolute URL).
pub fn classify_parsed(source: &str, parsed: Option<UrlParts>) -> (r: SourceKind)
    ensures
        r@ == classify_spec(source@, parsed),
{
    match parsed {
        None => SourceKind::LocalFile(owned(source)),
        Some(p) => {
            if str_eq(p.scheme.as_str(), "file") {
                match p.file_path {
                    Some(fp) => SourceKind::LocalFile(fp),
                    None => SourceKind::LocalFile(p.path),
                }
            } else if str_eq(p.scheme.as_str(), "http") || str_eq(p.scheme.as_str(), "https") {
                let host = match &p.host {
                    Some(h) => to_ascii_lower(h.as_str()),
                    None => {
                        let e = String::new();
                        proof {
                            assert(ascii_lower(Seq::<char>::empty()) =~= Seq::<char>::empty());
                        }
                        e
                    },
                };
                if is_spotify_host(host.as_str()) {
                    SourceKind::Drm {
                        platform: "Spotify",
                        hint: owned(
                            "Spotify's catalog is DRM-gated and cannot be processed locally; look for the show's public RSS feed instead.",
                        ),
                    }
                } else if is_apple_podcasts_host(host.as_str()) {
                    SourceKind::Drm {
                        platform: "Apple Podcasts",
                        hint: owned(
                            "Apple Podcasts URLs point to the catalog, not the audio; look for the show's public RSS feed instead (e.g. via getrssfeed.com or the Podcast Index).",
                        ),
                    }
                } else if is_ytdlp_host(host.as_str()) {
                    SourceKind::YtDlp(owned(source))
                } else {
                    match extension_of(p.path.as_str()) {
                        Some(ext) => {
                            if is_feed_extension(ext.as_str()) {
                                SourceKind::Feed(owned(source))
                            } else {
                                SourceKind::DirectAudioUrl(owned(source))
                            }
                        },
                        None => SourceKind::DirectAudioUrl(owned(source)),
                    }
                }
            } else {
                SourceKind::Unrecognized(owned(source))
            }
        },
    }
}

/// Classify a source string, by inspecting the string and the parts of its
/// parsed URL only: nothing is fetched and the path is not looked up.
pub fn classify_source(source: &str) -> (r: SourceKind)
    ensures
        r@ == classify_spec(source@, url_parts_of(source@)),
{
    classify_parsed(source, parse_url_parts(source))
}

} // verus!
