use youtube_downloader_gui::error::DownloadError;
use youtube_downloader_gui::error_handler::{DiskSpaceChecker, ErrorMessageGenerator};
use youtube_downloader_gui::provider::{build_format_string, DownloadOptions};

#[test]
fn test_format_bytes() {
    assert_eq!(DiskSpaceChecker::format_bytes(1024), "1.00 KB");
    assert_eq!(DiskSpaceChecker::format_bytes(1024 * 1024), "1.00 MB");
    assert_eq!(DiskSpaceChecker::format_bytes(1024 * 1024 * 1024), "1.00 GB");
    assert_eq!(DiskSpaceChecker::format_bytes(1536 * 1024 * 1024), "1.50 GB");
}

#[test]
fn format_bytes_rounds_and_picks_units() {
    assert_eq!(DiskSpaceChecker::format_bytes(0), "0.00 B");
    assert_eq!(DiskSpaceChecker::format_bytes(1023), "1023.00 B");
    assert_eq!(DiskSpaceChecker::format_bytes(1100), "1.07 KB");
    assert_eq!(DiskSpaceChecker::format_bytes(5 * 1024u64.pow(5)), "5120.00 TB");
}

#[test]
fn test_friendly_message_generation() {
    let error = DownloadError::YtdlpNotFound;
    let msg = ErrorMessageGenerator::generate_friendly_message(&error);
    assert!(msg.contains("yt-dlp"));
    assert!(msg.contains("brew install"));
}

#[test]
fn test_friendly_message_network_timeout() {
    let error = DownloadError::Network("Connection timeout after 30s".to_string());
    let msg = ErrorMessageGenerator::generate_friendly_message(&error);
    assert!(msg.contains("timed out"));
}

#[test]
fn test_friendly_message_insufficient_space() {
    let error = DownloadError::InsufficientSpace {
        required: 1024 * 1024 * 1024,
        available: 512 * 1024 * 1024,
    };
    let msg = ErrorMessageGenerator::generate_friendly_message(&error);
    assert!(msg.contains("Not enough disk space"));
    assert!(msg.contains("GB"));
    assert_eq!(msg, "Not enough disk space. Required: 1.00 GB, Available: 512.00 MB");
}

#[test]
fn friendly_messages_simplify() {
    let msg = ErrorMessageGenerator::generate_friendly_message(&DownloadError::DownloadFailed(
        "ERROR: ERROR: error: exit 1".to_string(),
    ));
    assert_eq!(msg, "Download failed: exit 1");
    let long = "x".repeat(250);
    let s = ErrorMessageGenerator::simplify_technical_message(&long);
    assert_eq!(s.chars().count(), 200);
    assert!(s.ends_with("..."));
    assert_eq!(ErrorMessageGenerator::simplify_technical_message(&"y".repeat(200)), "y".repeat(200));
    let msg = ErrorMessageGenerator::generate_friendly_message(&DownloadError::VideoUnavailable(
        "Private video".to_string(),
    ));
    assert_eq!(msg, "This video is private and cannot be downloaded.");
    let msg = ErrorMessageGenerator::generate_friendly_message(&DownloadError::PlatformNotSupported(
        "Vimeo".to_string(),
    ));
    assert_eq!(msg, "The platform 'Vimeo' is not yet supported.");
}

#[test]
fn space_check_adds_ten_percent() {
    assert!(DiskSpaceChecker::check_space(Some(1000), 1100).is_ok());
    match DiskSpaceChecker::check_space(Some(1000), 1099) {
        Err(DownloadError::InsufficientSpace { required, available }) => {
            assert_eq!((required, available), (1100, 1099))
        }
        _ => panic!("expected insufficient space"),
    }
    assert!(DiskSpaceChecker::check_space(None, 1024 * 1024 * 1024).is_err());
}

#[test]
fn test_build_format_string_best() {
    let options = DownloadOptions { quality: "best".to_string(), format: "mp4".to_string(), audio_only: false };
    let format = build_format_string(&options);
    assert!(format.contains("bestvideo"));
    assert!(format.contains("mp4"));
    assert_eq!(format, "bestvideo[ext=mp4]+bestaudio/best[ext=mp4]/best");
}

#[test]
fn test_build_format_string_1080p() {
    let options = DownloadOptions { quality: "1080p".to_string(), format: "mp4".to_string(), audio_only: false };
    let format = build_format_string(&options);
    assert!(format.contains("height<=1080"));
    assert_eq!(format, "bestvideo[height<=1080][ext=mp4]+bestaudio/best[height<=1080]/best");
}

#[test]
fn test_build_format_string_audio_only() {
    let options = DownloadOptions { quality: "best".to_string(), format: "mp3".to_string(), audio_only: true };
    let format = build_format_string(&options);
    assert_eq!(format, "bestaudio");
}

#[test]
fn format_bytes_largest_size() {
    assert_eq!(DiskSpaceChecker::format_bytes(u64::MAX), "16777216.00 TB");
}

#[test]
fn long_messages_are_cut_by_bytes() {
    let at_boundary = format!("abc{}", "é".repeat(100));
    assert_eq!(at_boundary.len(), 203);
    let cut = ErrorMessageGenerator::simplify_technical_message(&at_boundary);
    assert_eq!(cut, format!("abc{}...", "é".repeat(97)));
    assert_eq!(cut.len(), 200);
    let off_boundary = format!("abcd{}", "é".repeat(100));
    let cut2 = ErrorMessageGenerator::simplify_technical_message(&off_boundary);
    assert_eq!(cut2, format!("abcd{}...", "é".repeat(96)));
    let short = "é".repeat(100);
    assert_eq!(ErrorMessageGenerator::simplify_technical_message(&short), short);
}
