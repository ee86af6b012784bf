use youtube_downloader_gui::executables::{ExecutableManager, UpdateService, EXECUTABLE_MODE};
use youtube_downloader_gui::error::DownloadError;
use youtube_downloader_gui::storage::{
    validate_path, Architecture, CompletedDownload, DownloadHistory, StorageService,
};

#[test]
fn test_download_history_default() {
    let history = DownloadHistory::default();
    assert!(history.downloads.is_empty());
}

#[test]
fn test_validate_path_traversal() {
    let path_str = "/Users/test/../../../etc/passwd";
    assert!(path_str.contains(".."));
    assert!(matches!(validate_path(path_str, true), Err(DownloadError::PermissionDenied(m)) if m == "Path traversal not allowed"));
}

#[test]
fn test_path_with_null_bytes() {
    let path_str = "/Users/test\0/file";
    assert!(path_str.contains('\0'));
    assert!(matches!(validate_path(path_str, true), Err(DownloadError::PermissionDenied(m)) if m == "Invalid path characters"));
}

#[test]
fn test_restricted_paths_macos() {
    let restricted_paths = vec![
        "/System/Library",
        "/Library/System",
        "/bin/bash",
        "/sbin/init",
        "/usr/bin",
        "/private/var/root",
    ];

    for path in restricted_paths {
        assert!(
            path.starts_with("/System")
                || path.starts_with("/Library")
                || path.starts_with("/bin")
                || path.starts_with("/sbin")
                || path.starts_with("/usr")
                || path.starts_with("/private/var")
        );
        assert!(validate_path(path, true).is_err());
        assert!(validate_path(path, false).is_ok());
    }
}

#[test]
fn test_validate_path_relative() {
    assert!(matches!(validate_path("relative/path", false), Err(DownloadError::PermissionDenied(m)) if m == "Path must be absolute"));
    assert!(validate_path("/Users/test/Downloads", true).is_ok());
}

#[test]
fn history_keeps_order() {
    let mut history = DownloadHistory::default();
    for i in 0..2 {
        history.add(CompletedDownload {
            id: format!("d{}", i),
            video_id: "v".to_string(),
            title: "t".to_string(),
            completed_at: "2024-01-01T00:00:00Z".to_string(),
            save_path: "/tmp/v.mp4".to_string(),
            file_size: 10,
            platform: "YouTube".to_string(),
        });
    }
    assert_eq!(history.downloads[1].id, "d1");
}

#[test]
fn test_architecture_detection() {
    assert_eq!(Architecture::from_name("x86_64"), Architecture::X86_64);
    assert_eq!(Architecture::from_name("aarch64"), Architecture::Aarch64);
    assert_eq!(Architecture::from_name("riscv64"), Architecture::X86_64);
}

#[test]
fn executable_manager_test_architecture_dir_name() {
    assert_eq!(Architecture::X86_64.dir_name(), "x86_64");
    assert_eq!(Architecture::Aarch64.dir_name(), "aarch64");
}

#[test]
fn update_service_test_architecture_dir_name() {
    assert_eq!(Architecture::X86_64.dir_name(), "x86_64");
    assert_eq!(Architecture::Aarch64.dir_name(), "aarch64");
}

#[test]
fn bundled_tool_paths() {
    let m = ExecutableManager::from_parts("/Applications/App/Resources".to_string(), Architecture::Aarch64);
    assert_eq!(m.get_ytdlp_path(), "/Applications/App/Resources/bin/aarch64/yt-dlp");
    assert_eq!(m.get_ffmpeg_path(), "/Applications/App/Resources/bin/aarch64/ffmpeg");
    let m2 = ExecutableManager::from_parts("/res/".to_string(), Architecture::X86_64);
    assert_eq!(m2.get_ytdlp_path(), "/res/bin/x86_64/yt-dlp");
    assert_eq!(m2.architecture(), Architecture::X86_64);
    let plan = m2.set_executable_permissions();
    assert_eq!(plan, vec![("/res/bin/x86_64/yt-dlp".to_string(), EXECUTABLE_MODE), ("/res/bin/x86_64/ffmpeg".to_string(), 0o755)]);
    let u = UpdateService::new(m.get_ytdlp_path(), m.architecture());
    assert_eq!(u.arch, Architecture::Aarch64);
}

#[test]
fn test_sanitize_filename_basic() {
    // Test basic sanitization through create_directory_structure
    let result = StorageService::sanitize_filename("Normal Filename");
    assert_eq!(result, "Normal Filename");
}

#[test]
fn test_sanitize_filename_with_invalid_chars() {
    // Test that invalid filesystem characters are replaced
    let result = StorageService::sanitize_filename("File/Name:With*Invalid?Chars");
    assert_eq!(result, "File_Name_With_Invalid_Chars");
}

#[test]
fn test_sanitize_filename_with_control_chars() {
    // Test that control characters are replaced
    let result = StorageService::sanitize_filename("File\nName\tWith\rControl");
    assert_eq!(result, "File_Name_With_Control");
}

#[test]
fn test_sanitize_filename_with_dots() {
    // Test that leading/trailing dots are removed
    let result = StorageService::sanitize_filename("...filename...");
    assert_eq!(result, "filename");
}

#[test]
fn test_sanitize_filename_empty() {
    // Test that empty strings become "untitled"
    let result = StorageService::sanitize_filename("");
    assert_eq!(result, "untitled");
    
    let result2 = StorageService::sanitize_filename("   ");
    assert_eq!(result2, "untitled");
    
    let result3 = StorageService::sanitize_filename("...");
    assert_eq!(result3, "untitled");
}

#[test]
fn test_sanitize_filename_with_spaces() {
    // Test that spaces are preserved but trimmed
    let result = StorageService::sanitize_filename("  File Name  ");
    assert_eq!(result, "File Name");
}

#[test]
fn sanitize_unicode_white_space_and_controls() {
    assert_eq!(StorageService::sanitize_filename("\u{3000} a\u{7f}b \u{a0}"), "a_b");
    assert_eq!(StorageService::sanitize_filename(" . x<y>|z . "), "x_y__z");
    assert!(StorageService::new(true).validate_path("/Users/me/Movies").is_ok());
    assert!(StorageService::new(false).validate_path("/usr/local/x").is_ok());
    assert!(matches!(
        StorageService::new(true).validate_path("/usr/local/x"),
        Err(DownloadError::PermissionDenied(m)) if m == "Cannot write to system directory: /usr"
    ));
}

#[test]
fn test_validate_path_absolute() {
    assert!(validate_path("/Users/test/Downloads", true).is_ok());
}

#[test]
fn test_download_history_add_download() {
    let mut history = DownloadHistory::default();

    let download = CompletedDownload {
        id: "test-id".to_string(),
        video_id: "dQw4w9WgXcQ".to_string(),
        title: "Test Video".to_string(),
        completed_at: chrono::Utc::now().to_rfc3339(),
        save_path: "/Users/test/Downloads/video.mp4".to_string(),
        file_size: 1024 * 1024 * 50,
        platform: "YouTube".to_string(),
    };

    history.downloads.push(download.clone());

    assert_eq!(history.downloads.len(), 1);
    assert_eq!(history.downloads[0].video_id, "dQw4w9WgXcQ");
    assert_eq!(history.downloads[0].title, "Test Video");
}
