use ffmpegeasy::config::{AgentConfig, ServerConfig};
use ffmpegeasy::jobs::{MediaType, PlanJob};
use ffmpegeasy::manage::{
    accepts_extension, extension_listed, media_type_of, relative_or_name, scan_step, PairPayload,
    ScanRequest, ScanResponse, ScanStep, SettingsError, SettingsPayload,
};
use ffmpegeasy::state::AppState;

#[test]
fn initial_state() {
    let state = AppState::new("0123456789012345678901234".to_string());
    assert!(state.agents.is_empty());
    assert!(state.agent_channels.is_empty());
    assert!(state.jobs.is_empty());
    assert!(state.pending_jobs.is_empty());
    assert_eq!(state.allowed_tokens, vec!["0123456789012345678901234".to_string()]);
    assert_eq!(state.public_base_url, "http://localhost:4000");
}

#[test]
fn initial_token_of_another_length_is_left_out() {
    for token in ["dev-token", "", "012345678901234567890123", "01234567890123456789012345"] {
        let state = AppState::new(token.to_string());
        assert!(state.allowed_tokens.is_empty());
        assert!(!state.accepts_token(&Some(token.to_string())));
    }
}

#[test]
fn scan_walks_entry_by_entry() {
    // Directories are passed over; a scan that does not descend ends at
    // the first directory deeper than one level.
    for depth in [0, 1, 2, 9] {
        assert_eq!(scan_step(true, true, depth, false), ScanStep::Skip);
        assert_eq!(scan_step(false, true, depth, false), if depth > 1 { ScanStep::Stop } else { ScanStep::Skip });
        for recursive in [true, false] {
            assert_eq!(scan_step(recursive, false, depth, true), ScanStep::Examine);
            assert_eq!(scan_step(recursive, false, depth, false), ScanStep::Skip);
        }
    }
}

#[test]
fn scan_output_mirrors_the_tree_unless_told_not_to() {
    let mut r = request("audio");
    assert_eq!(r.output_part("d/a.mp3", "a.mp3"), "d/a.mp3");
    r.mirror_structure = Some(true);
    assert_eq!(r.output_part("d/a.mp3", "a.mp3"), "d/a.mp3");
    r.mirror_structure = Some(false);
    assert_eq!(r.output_part("d/a.mp3", "a.mp3"), "a.mp3");
    assert_eq!(relative_or_name(Some("d/a.mp3".to_string()), "a.mp3"), "d/a.mp3");
    assert_eq!(relative_or_name(None, "a.mp3"), "a.mp3");
}

#[test]
fn listed_extensions_and_media_names() {
    assert!(extension_listed(MediaType::Video, "mp4"));
    assert!(!extension_listed(MediaType::Video, "MP4"));
    assert!(!extension_listed(MediaType::Video, "mp3"));
    assert!(extension_listed(MediaType::Audio, "mp3"));
    assert!(extension_listed(MediaType::Image, "avif"));
    assert!(!extension_listed(MediaType::Image, ""));
    assert_eq!(media_type_of("audio"), MediaType::Audio);
    assert_eq!(media_type_of("video"), MediaType::Video);
    assert_eq!(media_type_of("image"), MediaType::Image);
    assert_eq!(media_type_of("AUDIO"), MediaType::Image);
    assert_eq!(media_type_of(""), MediaType::Image);
}

#[test]
fn settings_accept_http_urls_only() {
    let mut state = AppState::new("t".to_string());
    assert_eq!(state.set_public_base_url(None), Ok(()));
    assert_eq!(state.public_base_url, "http://localhost:4000");
    for bad in ["ftp://host", "host:4000", "", "HTTP://host", " http://host", "http:/host"] {
        let payload = SettingsPayload { public_base_url: Some(bad.to_string()) };
        assert_eq!(state.set_public_base_url(payload.public_base_url), Err(SettingsError::InvalidUrl));
        assert_eq!(state.public_base_url, "http://localhost:4000");
    }
    assert_eq!(SettingsError::InvalidUrl.message(), "invalid URL");
    assert_eq!(state.set_public_base_url(Some("https://media.example/base///".to_string())), Ok(()));
    assert_eq!(state.public_base_url, "https://media.example/base");
    assert_eq!(state.set_public_base_url(Some("http://h".to_string())), Ok(()));
    assert_eq!(state.public_base_url, "http://h");
    assert_eq!(state.set_public_base_url(Some("http://".to_string())), Ok(()));
    assert_eq!(state.public_base_url, "http:");
}

#[test]
fn pair_payload_carries_the_token() {
    let mut state = AppState::new("t".to_string());
    let payload = PairPayload { token: Some("0123456789012345678901234".to_string()) };
    assert!(state.pair(payload.token).is_ok());
    assert!(state.accepts_token(&Some("0123456789012345678901234".to_string())));
    assert!(!state.accepts_token(&Some("t".to_string())));
    assert!(!state.accepts_token(&None));
}

fn request(media_type: &str) -> ScanRequest {
    ScanRequest {
        input_root: "/in".to_string(),
        output_root: "/out".to_string(),
        recursive: None,
        mirror_structure: None,
        media_type: media_type.to_string(),
        codec: "flac".to_string(),
    }
}

#[test]
fn scan_request_validity_and_defaults() {
    assert!(request("audio").is_valid());
    assert!(!request("").is_valid());
    let mut r = request("audio");
    r.codec = String::new();
    assert!(!r.is_valid());
    let mut r = request("audio");
    r.input_root = String::new();
    assert!(!r.is_valid());
    let mut r = request("audio");
    r.output_root = String::new();
    assert!(!r.is_valid());

    let mut r = request("audio");
    assert!(r.is_recursive() && r.mirrors());
    r.recursive = Some(false);
    r.mirror_structure = Some(false);
    assert!(!r.is_recursive() && !r.mirrors());

    assert_eq!(request("audio").media(), MediaType::Audio);
    assert_eq!(request("AUDIO").media(), MediaType::Audio);
    assert_eq!(request("Video").media(), MediaType::Video);
    assert_eq!(request("image").media(), MediaType::Image);
    assert_eq!(request("anything").media(), MediaType::Image);
}

#[test]
fn scan_keeps_the_listed_extensions() {
    let audio = ["mp3", "wav", "flac", "aac", "m4a", "ogg", "opus", "wma", "aiff", "alac"];
    let video = ["mp4", "mkv", "mov", "avi", "webm", "m4v"];
    let image = ["jpg", "jpeg", "png", "webp", "tiff", "bmp", "heic", "heif", "avif"];
    let all: Vec<&str> = audio.iter().chain(video.iter()).chain(image.iter()).copied().collect();
    for ext in all {
        assert_eq!(accepts_extension(MediaType::Audio, ext), audio.contains(&ext), "{}", ext);
        assert_eq!(accepts_extension(MediaType::Video, ext), video.contains(&ext), "{}", ext);
        assert_eq!(accepts_extension(MediaType::Image, ext), image.contains(&ext), "{}", ext);
    }
    assert!(accepts_extension(MediaType::Video, "MP4"));
    assert!(accepts_extension(MediaType::Video, "MkV"));
    assert!(!accepts_extension(MediaType::Video, ""));
    assert!(!accepts_extension(MediaType::Video, ".mp4"));
    assert!(!accepts_extension(MediaType::Audio, "txt"));
}

#[test]
fn scan_response_counts_and_sums() {
    let r = request("VIDEO");
    let a = r.plan_for("/in/a.mp4".to_string(), "a.mp4".to_string(), 700, "/out/a".to_string());
    let b = r.plan_for("/in/d/b.mkv".to_string(), "d/b.mkv".to_string(), 42, "/out/d/b".to_string());
    assert_eq!(a.media_type, MediaType::Video);
    assert_eq!(a.codec, "flac");
    assert!(a.options.is_none());
    assert_eq!((a.source_path.as_str(), a.relative_path.as_str()), ("/in/a.mp4", "a.mp4"));
    assert_eq!((b.output_path.as_str(), b.size_bytes), ("/out/d/b", 42));
    let response = ScanResponse::of(vec![a, b]);
    assert_eq!(response.count, 2);
    assert_eq!(response.total_bytes, 742);
    assert_eq!(response.jobs.len(), 2);
    let none = ScanResponse::of(vec![]);
    assert_eq!((none.count, none.total_bytes), (0, 0));

    let big = |size: u64| PlanJob {
        source_path: "s".to_string(),
        relative_path: "r".to_string(),
        media_type: MediaType::Audio,
        size_bytes: size,
        output_path: "o".to_string(),
        codec: "c".to_string(),
        options: None,
    };
    let wrapped = ScanResponse::of(vec![big(u64::MAX), big(5)]);
    assert_eq!(wrapped.total_bytes, 4);
}

#[test]
fn server_defaults() {
    let config = ServerConfig::default();
    assert_eq!(config.host, "0.0.0.0");
    assert_eq!(config.port, 4000);
    let copy = config.clone();
    assert_eq!((copy.host.as_str(), copy.port), ("0.0.0.0", 4000));
}

#[test]
fn agent_config_is_copied_whole() {
    let config = AgentConfig {
        controller_url: "http://c".to_string(),
        token: "t".to_string(),
        concurrency: 3,
        ffmpeg_path: "ffmpeg".to_string(),
        job_timeout_secs: 3600,
        upload_max_retries: 3,
        request_connect_timeout_secs: 10,
        request_timeout_secs: 900,
    };
    let copy = config.clone();
    assert_eq!(copy.controller_url, "http://c");
    assert_eq!(copy.token, "t");
    assert_eq!(copy.concurrency, 3);
    assert_eq!(copy.ffmpeg_path, "ffmpeg");
    assert_eq!(copy.job_timeout_secs, 3600);
    assert_eq!(copy.upload_max_retries, 3);
    assert_eq!(copy.request_connect_timeout_secs, 10);
    assert_eq!(copy.request_timeout_secs, 900);
}
