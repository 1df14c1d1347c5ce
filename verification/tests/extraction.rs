use podcast_helper::{
    classify_source, download_outcome, extraction_step, ffmpeg_outcome, ExtractOptions,
    ExtractionStep, PodcastHelperError, SpawnOutcome,
};

fn step(source: &str) -> ExtractionStep {
    extraction_step(classify_source(source))
}

#[test]
fn spotify_source_is_refused_without_touching_ffmpeg_or_network() {
    let err = match step("https://open.spotify.com/show/abc123") {
        ExtractionStep::Refuse(err) => err,
        other => panic!("expected a refusal, got {other:?}"),
    };
    assert!(matches!(
        err,
        PodcastHelperError::DrmProtected {
            platform: "Spotify",
            ..
        }
    ));
}

#[test]
fn apple_podcasts_source_is_refused() {
    let err = match step("https://podcasts.apple.com/us/podcast/id123") {
        ExtractionStep::Refuse(err) => err,
        other => panic!("expected a refusal, got {other:?}"),
    };
    assert!(matches!(
        err,
        PodcastHelperError::DrmProtected {
            platform: "Apple Podcasts",
            ..
        }
    ));
}

#[test]
fn unknown_scheme_is_reported_as_unrecognized() {
    let err = match step("ftp://example.com/ep1.mp3") {
        ExtractionStep::Refuse(err) => err,
        other => panic!("expected a refusal, got {other:?}"),
    };
    assert!(matches!(err, PodcastHelperError::UnrecognizedSource(_)));
}

#[test]
fn youtube_source_is_delegated_to_youtube_helper_rs() {
    let url = match step("https://www.youtube.com/watch?v=abc123") {
        ExtractionStep::DecodeDownload(url) => url,
        other => panic!("expected a yt-dlp download, got {other:?}"),
    };
    assert_eq!(url, "https://www.youtube.com/watch?v=abc123");
    let failure = youtube_helper_rs::YoutubeHelperError::BinaryNotFound {
        binary: "yt-dlp-does-not-exist-anywhere".to_string(),
        source: std::io::Error::new(std::io::ErrorKind::NotFound, "not found"),
    };
    let err = download_outcome(&url, Err(failure)).unwrap_err();
    assert!(matches!(err, PodcastHelperError::YtDlp { .. }));
}

#[test]
fn download_failure_names_the_url_and_keeps_the_cause() {
    let failure = youtube_helper_rs::YoutubeHelperError::InvalidUrl {
        url: "https://vimeo.com/x".to_string(),
        reason: "unsupported".to_string(),
    };
    match download_outcome("https://vimeo.com/x", Err(failure)) {
        Err(PodcastHelperError::YtDlp { url, source }) => {
            assert_eq!(url, "https://vimeo.com/x");
            assert!(matches!(source, youtube_helper_rs::YoutubeHelperError::InvalidUrl { .. }));
        }
        other => panic!("expected YtDlp, got {other:?}"),
    }
    assert_eq!(download_outcome("u", Ok("/tmp/a.wav".to_string())).unwrap(), "/tmp/a.wav");
}

#[test]
fn missing_local_file_surfaces_as_ffmpeg_error_not_a_panic() {
    let path = match step("/nonexistent/path/does-not-exist-xyz.mp3") {
        ExtractionStep::Decode(path) => path,
        other => panic!("expected a decode, got {other:?}"),
    };
    assert_eq!(path, "/nonexistent/path/does-not-exist-xyz.mp3");
    let result = ffmpeg_outcome(
        "ffmpeg",
        &path,
        &ExtractOptions::default(),
        SpawnOutcome::Exited {
            success: false,
            stdout: vec![],
            stderr: b"/nonexistent/path/does-not-exist-xyz.mp3: No such file or directory".to_vec(),
        },
    );
    assert!(result.is_err());
}

#[test]
fn feeds_go_through_their_latest_episode_and_urls_straight_to_the_decoder() {
    assert!(matches!(
        step("https://feeds.npr.org/510289/podcast.xml"),
        ExtractionStep::DecodeLatestEpisode(_)
    ));
    assert!(matches!(
        step("https://cdn.example.com/ep1.mp3"),
        ExtractionStep::Decode(_)
    ));
}
