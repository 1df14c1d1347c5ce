use podcast_helper::{
    classify_parsed, classify_source, extension_of, is_apple_podcasts_host, is_spotify_host,
    is_ytdlp_host, SourceKind, UrlParts,
};

#[test]
fn bare_relative_path_is_local_file() {
    assert_eq!(
        classify_source("episode.mp3"),
        SourceKind::LocalFile("episode.mp3".to_string())
    );
}

#[test]
fn bare_absolute_path_is_local_file() {
    assert_eq!(
        classify_source("/tmp/episode.wav"),
        SourceKind::LocalFile("/tmp/episode.wav".to_string())
    );
}

#[test]
fn file_scheme_url_is_local_file() {
    match classify_source("file:///tmp/episode.mp3") {
        SourceKind::LocalFile(path) => assert_eq!(path, "/tmp/episode.mp3".to_string()),
        other => panic!("expected LocalFile, got {other:?}"),
    }
}

#[test]
fn mp3_url_is_direct_audio() {
    assert_eq!(
        classify_source("https://cdn.example.com/ep1.mp3"),
        SourceKind::DirectAudioUrl("https://cdn.example.com/ep1.mp3".to_string())
    );
}

#[test]
fn m4a_opus_wav_m3u8_are_direct_audio() {
    for url in [
        "https://cdn.example.com/ep1.m4a",
        "https://cdn.example.com/ep1.opus",
        "https://cdn.example.com/ep1.wav",
        "https://cdn.example.com/live.m3u8",
    ] {
        assert!(matches!(classify_source(url), SourceKind::DirectAudioUrl(_)));
    }
}

#[test]
fn mp3_url_with_query_string_is_still_direct_audio() {
    assert_eq!(
        classify_source("https://cdn.example.com/ep1.mp3?dl=1&t=abc"),
        SourceKind::DirectAudioUrl("https://cdn.example.com/ep1.mp3?dl=1&t=abc".to_string())
    );
}

#[test]
fn extensionless_enclosure_url_falls_back_to_direct_audio() {
    assert_eq!(
        classify_source("https://traffic.megaphone.fm/ABC123456"),
        SourceKind::DirectAudioUrl("https://traffic.megaphone.fm/ABC123456".to_string())
    );
}

#[test]
fn xml_rss_atom_urls_are_feed() {
    for url in [
        "https://feeds.npr.org/510289/podcast.xml",
        "https://example.com/show.rss",
        "https://example.com/show.atom",
    ] {
        assert!(matches!(classify_source(url), SourceKind::Feed(_)));
    }
}

#[test]
fn youtube_hosts_are_ytdlp() {
    for url in [
        "https://www.youtube.com/watch?v=abc123",
        "https://youtu.be/abc123",
        "https://m.youtube.com/watch?v=abc123",
    ] {
        assert!(matches!(classify_source(url), SourceKind::YtDlp(_)));
    }
}

#[test]
fn vimeo_soundcloud_twitch_are_ytdlp() {
    for url in [
        "https://vimeo.com/12345",
        "https://soundcloud.com/artist/track",
        "https://www.twitch.tv/somechannel",
        "https://clips.twitch.tv/someClip",
    ] {
        assert!(matches!(classify_source(url), SourceKind::YtDlp(_)));
    }
}

#[test]
fn spotify_is_drm_refused() {
    match classify_source("https://open.spotify.com/show/abc123") {
        SourceKind::Drm { platform, .. } => assert_eq!(platform, "Spotify"),
        other => panic!("expected Drm, got {other:?}"),
    }
}

#[test]
fn apple_podcasts_is_drm_refused() {
    match classify_source("https://podcasts.apple.com/us/podcast/id123456") {
        SourceKind::Drm { platform, .. } => assert_eq!(platform, "Apple Podcasts"),
        other => panic!("expected Drm, got {other:?}"),
    }
}

#[test]
fn unknown_scheme_is_unrecognized() {
    assert!(matches!(
        classify_source("ftp://example.com/ep1.mp3"),
        SourceKind::Unrecognized(_)
    ));
}

#[test]
fn lookalike_host_is_not_falsely_flagged_as_spotify() {
    assert!(!matches!(
        classify_source("https://notspotify.com/ep1.mp3"),
        SourceKind::Drm { .. }
    ));
}

#[test]
fn file_url_path_is_percent_decoded() {
    assert_eq!(
        classify_source("file:///tmp/my%20show.mp3"),
        SourceKind::LocalFile("/tmp/my show.mp3".to_string())
    );
}

#[test]
fn upper_case_host_and_extension_are_recognized() {
    assert!(matches!(
        classify_source("https://OPEN.SPOTIFY.COM/show/x"),
        SourceKind::Drm { platform: "Spotify", .. }
    ));
    assert!(matches!(
        classify_source("https://example.com/Show.XML"),
        SourceKind::Feed(_)
    ));
}

#[test]
fn drm_hint_points_to_rss_feed() {
    match classify_source("https://open.spotify.com/show/abc123") {
        SourceKind::Drm { hint, .. } => assert!(hint.contains("public RSS feed")),
        other => panic!("expected Drm, got {other:?}"),
    }
}

fn parts(scheme: &str, host: Option<&str>, path: &str, file_path: Option<&str>) -> UrlParts {
    UrlParts {
        scheme: scheme.to_string(),
        host: host.map(|h| h.to_string()),
        path: path.to_string(),
        file_path: file_path.map(|p| p.to_string()),
    }
}

#[test]
fn classify_parsed_follows_each_branch() {
    assert_eq!(
        classify_parsed("x", None),
        SourceKind::LocalFile("x".to_string())
    );
    assert_eq!(
        classify_parsed("file:/a", Some(parts("file", None, "/a", Some("/b")))),
        SourceKind::LocalFile("/b".to_string())
    );
    assert_eq!(
        classify_parsed("file:/a", Some(parts("file", None, "/a", None))),
        SourceKind::LocalFile("/a".to_string())
    );
    assert_eq!(
        classify_parsed("u", Some(parts("https", Some("Vimeo.com"), "/1", None))),
        SourceKind::YtDlp("u".to_string())
    );
    assert_eq!(
        classify_parsed("u", Some(parts("http", None, "/feed.json", None))),
        SourceKind::Feed("u".to_string())
    );
    assert_eq!(
        classify_parsed("u", Some(parts("https", Some("a.b"), "/x.", None))),
        SourceKind::DirectAudioUrl("u".to_string())
    );
    assert_eq!(
        classify_parsed("u", Some(parts("gopher", Some("a.b"), "/x", None))),
        SourceKind::Unrecognized("u".to_string())
    );
    assert!(matches!(
        classify_parsed("u", Some(parts("https", Some("x.podcasts.apple.com"), "/", None))),
        SourceKind::Drm { platform: "Apple Podcasts", .. }
    ));
}

#[test]
fn extension_is_text_after_last_dot_lower_cased() {
    assert_eq!(extension_of("/a/b.tar.GZ"), Some("gz".to_string()));
    assert_eq!(extension_of("/a/b."), None);
    assert_eq!(extension_of("noext"), None);
    assert_eq!(extension_of(""), None);
    assert_eq!(extension_of(".hidden"), Some("hidden".to_string()));
}

#[test]
fn extension_is_matched_without_regard_to_case() {
    for path in ["/show/Feed.XmL", "/a.b/c.Mp3", "/x.RSS"] {
        assert_eq!(extension_of(&path.to_ascii_uppercase()), extension_of(path));
        assert_eq!(extension_of(&path.to_ascii_lowercase()), extension_of(path));
        let e = extension_of(path).unwrap();
        assert_eq!(e, e.to_ascii_lowercase());
        assert!(!e.contains('.'));
    }
}

#[test]
fn host_predicates_match_domain_or_subdomain() {
    assert!(is_spotify_host("spotify.com"));
    assert!(is_spotify_host("open.spotify.com"));
    assert!(!is_spotify_host("notspotify.com"));
    assert!(!is_spotify_host("spotify.com.evil.org"));
    assert!(is_apple_podcasts_host("podcasts.apple.com"));
    assert!(!is_apple_podcasts_host("apple.com"));
    assert!(is_ytdlp_host("youtu.be"));
    assert!(is_ytdlp_host("clips.twitch.tv"));
    assert!(!is_ytdlp_host("myyoutube.com"));
}
