use youtube_downloader_gui::url::{UrlValidator, YouTubeProvider};

#[test]
fn test_matches_standard_video_url() {
    let provider = YouTubeProvider::new();
    assert!(provider.matches_url("https://www.youtube.com/watch?v=dQw4w9WgXcQ"));
    assert!(provider.matches_url("https://youtube.com/watch?v=dQw4w9WgXcQ"));
}

#[test]
fn test_matches_short_url() {
    let provider = YouTubeProvider::new();
    assert!(provider.matches_url("https://youtu.be/dQw4w9WgXcQ"));
}

#[test]
fn test_matches_playlist_url() {
    let provider = YouTubeProvider::new();
    assert!(provider.matches_url("https://www.youtube.com/playlist?list=PLrAXtmErZgOeiKm4sgNOknGvNjby9efdf"));
}

#[test]
fn test_matches_channel_url_new_format() {
    let provider = YouTubeProvider::new();
    assert!(provider.matches_url("https://www.youtube.com/@LinusTechTips"));
}

#[test]
fn test_matches_channel_url_old_format() {
    let provider = YouTubeProvider::new();
    assert!(provider.matches_url("https://www.youtube.com/channel/UCXuqSBlHAE6Xw-yeJA0Tunw"));
}

#[test]
fn test_matches_user_url() {
    let provider = YouTubeProvider::new();
    assert!(provider.matches_url("https://www.youtube.com/user/LinusTechTips"));
}

#[test]
fn test_matches_custom_url() {
    let provider = YouTubeProvider::new();
    assert!(provider.matches_url("https://www.youtube.com/c/LinusTechTips"));
}

#[test]
fn test_does_not_match_invalid_urls() {
    let provider = YouTubeProvider::new();
    assert!(!provider.matches_url("https://www.vimeo.com/123456"));
    assert!(!provider.matches_url("https://www.bilibili.com/video/BV1xx411c7mD"));
    assert!(!provider.matches_url("not a url"));
    assert!(!provider.matches_url(""));
}

#[test]
fn test_matches_url_with_whitespace() {
    let provider = YouTubeProvider::new();
    assert!(provider.matches_url("  https://www.youtube.com/watch?v=dQw4w9WgXcQ  "));
}

#[test]
fn test_provider_name() {
    let provider = YouTubeProvider::new();
    assert_eq!(provider.name(), "YouTube");
}

#[test]
fn test_supported_patterns() {
    let provider = YouTubeProvider::new();
    let patterns = provider.supported_patterns();
    assert_eq!(patterns.len(), 7);
    assert!(patterns.contains(&"https://www.youtube.com/watch?v=VIDEO_ID".to_string()));
}

#[test]
fn test_url_validator_valid_urls() {
    let validator = UrlValidator::new();

    assert!(validator.validate_youtube_url("https://www.youtube.com/watch?v=dQw4w9WgXcQ").is_ok());
    assert!(validator.validate_youtube_url("https://youtu.be/dQw4w9WgXcQ").is_ok());
    assert!(validator.validate_youtube_url("https://www.youtube.com/playlist?list=PLtest").is_ok());
    assert!(validator.validate_youtube_url("https://www.youtube.com/@channel").is_ok());
}

#[test]
fn test_url_validator_invalid_urls() {
    let validator = UrlValidator::new();

    assert!(validator.validate_youtube_url("").is_err());
    assert!(validator.validate_youtube_url("not a url").is_err());
    assert!(validator.validate_youtube_url("https://vimeo.com/123456").is_err());
    assert!(validator.validate_youtube_url("www.youtube.com/watch?v=test").is_err());
}

#[test]
fn test_url_validator_normalize() {
    let validator = UrlValidator::new();

    let url = "https://www.youtube.com/watch?v=dQw4w9WgXcQ&feature=share";
    let normalized = validator.validate_and_normalize(url).unwrap();
    assert_eq!(normalized, "https://www.youtube.com/watch?v=dQw4w9WgXcQ");
}


#[test]
fn tracking_parameters_are_cut() {
    let v = UrlValidator::new();
    assert_eq!(v.remove_tracking_params("https://youtu.be/abc&t=42&feature=x"), "https://youtu.be/abc");
    assert_eq!(
        v.remove_tracking_params("https://www.youtube.com/playlist?list=PL1&index=3"),
        "https://www.youtube.com/playlist?list=PL1"
    );
    assert_eq!(v.remove_tracking_params("https://www.youtube.com/watch?v=a&list=PL1"), "https://www.youtube.com/watch?v=a");
    assert_eq!(
        v.validate_and_normalize("  https://www.youtube.com/watch?v=a&index=2 ").unwrap(),
        "https://www.youtube.com/watch?v=a"
    );
    match v.validate_youtube_url("ftp://youtube.com/watch?v=a") {
        Err(e) => assert_eq!(e.message(), "Invalid URL: URL must start with http:// or https://"),
        Ok(_) => panic!("accepted"),
    }
}

#[test]
fn test_platform_settings() {
    let provider = YouTubeProvider::new();
    let settings = provider.get_platform_settings();
    assert_eq!(settings.len(), 6);

    assert!(settings.iter().any(|s| s.key == "youtube_prefer_av1"));
    assert!(settings.iter().any(|s| s.key == "youtube_skip_ads"));
    assert!(settings.iter().any(|s| s.key == "youtube_subtitle_language"));
    assert!(settings.iter().any(|s| s.key == "youtube_max_resolution"));
}
