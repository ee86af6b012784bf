use youtube_downloader_gui::checksums::{ffmpeg_version_from, find_checksum};
use youtube_downloader_gui::error::DownloadError;
use youtube_downloader_gui::executables::{ExecutableManager, UpdateService};
use youtube_downloader_gui::storage::Architecture;

const ABC: &str = "ba7816bf8f01cfea414140de5dae2223b00361a396177a9cb410ff61f20015ad";
const EMPTY: &str = "e3b0c44298fc1c149afbf4c8996fb92427ae41e4649b934ca495991b7852b855";

fn manager() -> ExecutableManager {
    ExecutableManager::from_parts("/res".to_string(), Architecture::Aarch64)
}

#[test]
fn checksum_lines() {
    let file = "# bundled tools\r\n\n  aaa  aarch64/yt-dlp  \nbbb x86_64/yt-dlp\nccc aarch64/yt-dlp\nddd eee fff\n";
    assert_eq!(find_checksum(file, "aarch64/yt-dlp"), Some("ccc".to_string()));
    assert_eq!(find_checksum(file, "x86_64/yt-dlp"), Some("bbb".to_string()));
    assert_eq!(find_checksum(file, "eee"), None);
    assert_eq!(find_checksum(file, "bundled"), None);
    assert_eq!(find_checksum("", "x"), None);
    assert_eq!(find_checksum("abc\tname", "name"), Some("abc".to_string()));
}

#[test]
fn digest_comparison() {
    let m = manager();
    assert!(m.verify_checksum(&b"abc".to_vec(), ABC));
    assert!(m.verify_checksum(&Vec::new(), EMPTY));
    assert!(!m.verify_checksum(&b"abd".to_vec(), ABC));
}

#[test]
fn all_executables() {
    let m = manager();
    let file = format!("{} aarch64/yt-dlp\n{} aarch64/ffmpeg\n", ABC, EMPTY);
    assert!(m.verify_all_executables(&file, &b"abc".to_vec(), &Vec::new()).is_ok());
    match m.verify_all_executables(&file, &b"abc".to_vec(), &b"x".to_vec()) {
        Err(DownloadError::DownloadFailed(msg)) => assert_eq!(msg, "ffmpeg checksum verification failed for aarch64"),
        other => panic!("unexpected {:?}", other),
    }
    match m.verify_all_executables("", &b"abc".to_vec(), &Vec::new()) {
        Err(DownloadError::DownloadFailed(msg)) => assert_eq!(msg, "No checksum found for yt-dlp (aarch64)"),
        other => panic!("unexpected {:?}", other),
    }
}

#[test]
fn checksums_file_rewrite() {
    let u = UpdateService::new("/res/bin/x86_64/yt-dlp".to_string(), Architecture::X86_64);
    let file = "old  x86_64/yt-dlp\r\nkeep  aarch64/yt-dlp\n# note";
    assert_eq!(
        u.update_checksums_file(file, "new"),
        "new  x86_64/yt-dlp\nkeep  aarch64/yt-dlp\n# note\n"
    );
    assert_eq!(u.update_checksums_file("", "new"), "");
    assert_eq!(UpdateService::available_update("2024.01.01", "2024.02.01".to_string()), Some("2024.02.01".to_string()));
    assert_eq!(UpdateService::available_update("2024.02.01", "2024.02.01".to_string()), None);
}

#[test]
fn ffmpeg_version_line() {
    assert_eq!(ffmpeg_version_from("ffmpeg version 6.1.1 Copyright (c) 2000-2023\nbuilt with clang"), "6.1.1");
    assert_eq!(ffmpeg_version_from("ffmpeg version   n7.0\n"), "n7.0");
    assert_eq!(ffmpeg_version_from("something else\nversion 1"), "unknown");
    assert_eq!(ffmpeg_version_from(""), "unknown");
    assert_eq!(ffmpeg_version_from("ffmpeg version "), "unknown");
}
