//! Data exchanged with a platform provider: metadata records, download
//! options, dependency reports, and the extractor's format selector.
use vstd::prelude::*;
use crate::error::DownloadError;
use crate::text::{append, chars_of, contains, contains_lit};

verus! {

/// One downloadable format of a video.
#[derive(Clone, Debug)]
pub struct FormatInfo {
    pub format_id: String,
    pub ext: String,
    pub resolution: Option<String>,
    pub filesize: Option<u64>,
}

/// Metadata of one video.
#[derive(Clone, Debug)]
pub struct VideoInfo {
    pub id: String,
    pub title: String,
    pub description: String,
    pub thumbnail: String,
    pub duration: u64,
    pub uploader: String,
    pub upload_date: String,
    pub view_count: u64,
    pub available_formats: Vec<FormatInfo>,
    pub platform: String,
    pub url: String,
}

/// Metadata of a playlist and its videos.
#[derive(Clone, Debug)]
pub struct PlaylistInfo {
    pub id: String,
    pub title: String,
    pub description: String,
    pub uploader: String,
    pub video_count: usize,
    pub videos: Vec<VideoInfo>,
    pub platform: String,
    pub url: String,
    pub has_more: bool,
    pub page: usize,
    pub page_size: usize,
}

/// Metadata of a channel, its playlists and its videos.
#[derive(Clone, Debug)]
pub struct ChannelInfo {
    pub id: String,
    pub name: String,
    pub description: String,
    pub playlists: Vec<PlaylistInfo>,
    pub all_videos: Vec<VideoInfo>,
    pub platform: String,
    pub url: String,
}

/// What to download: a quality label (`best`, `2160p`/`4k`, `1440p`,
/// `1080p`, `720p`, `480p`, `360p`), a container extension, or audio only.
#[derive(Clone, Debug)]
pub struct DownloadOptions {
    pub quality: String,
    pub format: String,
    pub audio_only: bool,
}

/// Whether an external tool is installed, and how to install it.
#[derive(Clone, Debug)]
pub struct Dependency {
    pub name: String,
    pub installed: bool,
    pub version: Option<String>,
    pub install_instructions: String,
}

/// The kind of value a platform setting takes.
#[derive(Clone, Debug)]
pub enum SettingType {
    Boolean,
    String,
    Number,
    Select { options: Vec<String> },
}

/// The default value of a platform setting.
#[derive(Clone, Debug, PartialEq)]
pub enum SettingValue {
    Bool(bool),
    Text(String),
}

/// A setting that a platform offers.
#[derive(Clone, Debug)]
pub struct PlatformSetting {
    pub key: String,
    pub label: String,
    pub setting_type: SettingType,
    pub default_value: SettingValue,
}

/// The height limit that a quality label stands for; `None` for `best` and
/// for any label not listed.
pub open spec fn height_limit(quality: Seq<char>) -> Option<Seq<char>> {
    if quality == "2160p"@ || quality == "4k"@ {
        Some("2160"@)
    } else if quality == "1440p"@ {
        Some("1440"@)
    } else if quality == "1080p"@ {
        Some("1080"@)
    } else if quality == "720p"@ {
        Some("720"@)
    } else if quality == "480p"@ {
        Some("480"@)
    } else if quality == "360p"@ {
        Some("360"@)
    } else {
        None
    }
}

/// The extractor's format selector for `options`.
pub open spec fn format_selector(quality: Seq<char>, format: Seq<char>, audio_only: bool) -> Seq<char> {
    if audio_only {
        "bestaudio"@
    } else {
        match height_limit(quality) {
            Some(h) => "bestvideo[height<="@ + h + "][ext="@ + format + "]+bestaudio/best[height<="@
                + h + "]/best"@,
            None => "bestvideo[ext="@ + format + "]+bestaudio/best[ext="@ + format + "]/best"@,
        }
    }
}

/// The height limit of a quality label, as text.
fn height_of(quality: &str) -> (r: Option<&'static str>)
    ensures
        height_limit(quality@) == (match r {
            Some(h) => Some(h@),
            None => None,
        }),
{
    let q = quality;
    if crate::text::same_text(q, "2160p") || crate::text::same_text(q, "4k") {
        Some("2160")
    } else if crate::text::same_text(q, "1440p") {
        Some("1440")
    } else if crate::text::same_text(q, "1080p") {
        Some("1080")
    } else if crate::text::same_text(q, "720p") {
        Some("720")
    } else if crate::text::same_text(q, "480p") {
        Some("480")
    } else if crate::text::same_text(q, "360p") {
        Some("360")
    } else {
        None
    }
}

/// Builds the extractor's format selector: best audio alone, or the best
/// video (under the quality's height limit, in the requested container)
/// with the best audio, falling back to the best single file.
pub fn build_format_string(options: &DownloadOptions) -> (r: String)
    ensures
        r@ == format_selector(options.quality@, options.format@, options.audio_only),
{
    if options.audio_only {
        return String::from_str("bestaudio");
    }
    let format = options.format.as_str();
    match height_of(options.quality.as_str()) {
        Some(h) => {
            let mut r = String::from_str("bestvideo[height<=");
            append(&mut r, h);
            append(&mut r, "][ext=");
            append(&mut r, format);
            append(&mut r, "]+bestaudio/best[height<=");
            append(&mut r, h);
            append(&mut r, "]/best");
            r
        },
        None => {
            let mut r = String::from_str("bestvideo[ext=");
            append(&mut r, format);
            append(&mut r, "]+bestaudio/best[ext=");
            append(&mut r, format);
            append(&mut r, "]/best");
            r
        },
    }
}

/// The extractor's arguments for one download: line-by-line progress
/// without colour or warnings, a single video, the output template, the
/// transcoder's location, the format selector, audio extraction when asked,
/// and the URL last.
pub open spec fn download_args(
    url: Seq<char>,
    quality: Seq<char>,
    format: Seq<char>,
    audio_only: bool,
    save_path: Seq<char>,
    ffmpeg_location: Seq<char>,
) -> Seq<Seq<char>> {
    let base = seq![
        "--newline"@,
        "--no-color"@,
        "--progress"@,
        "--no-warnings"@,
        "--no-playlist"@,
        "-o"@,
        save_path,
        "--ffmpeg-location"@,
        ffmpeg_location,
        "-f"@,
        format_selector(quality, format, audio_only),
    ];
    let audio = if audio_only {
        seq!["-x"@, "--audio-format"@, format]
    } else {
        Seq::empty()
    };
    base + audio + seq![url]
}

pub open spec fn texts(v: Seq<String>) -> Seq<Seq<char>> {
    v.map_values(|s: String| s@)
}

fn push_text(v: &mut Vec<String>, s: &str)
    ensures
        texts(final(v)@) == texts(old(v)@).push(s@),
{
    v.push(String::from_str(s));
    proof {
        assert(texts(final(v)@) =~= texts(old(v)@).push(s@));
    }
}

/// The extractor's arguments for downloading `url` with `options` to
/// `save_path`, with the transcoder at `ffmpeg_location`.
pub fn build_download_args(
    url: &str,
    options: &DownloadOptions,
    save_path: &str,
    ffmpeg_location: &str,
) -> (r: Vec<String>)
    ensures
        texts(r@) == download_args(
            url@,
            options.quality@,
            options.format@,
            options.audio_only,
            save_path@,
            ffmpeg_location@,
        ),
{
    let mut v: Vec<String> = Vec::new();
    push_text(&mut v, "--newline");
    push_text(&mut v, "--no-color");
    push_text(&mut v, "--progress");
    push_text(&mut v, "--no-warnings");
    push_text(&mut v, "--no-playlist");
    push_text(&mut v, "-o");
    push_text(&mut v, save_path);
    push_text(&mut v, "--ffmpeg-location");
    push_text(&mut v, ffmpeg_location);
    push_text(&mut v, "-f");
    let selector = build_format_string(options);
    push_text(&mut v, selector.as_str());
    if options.audio_only {
        push_text(&mut v, "-x");
        push_text(&mut v, "--audio-format");
        push_text(&mut v, options.format.as_str());
    }
    push_text(&mut v, url);
    proof {
        assert(texts(v@) =~= download_args(
            url@,
            options.quality@,
            options.format@,
            options.audio_only,
            save_path@,
            ffmpeg_location@,
        ));
    }
    v
}

/// The error a failed extractor run reports, from its standard error: an
/// unavailable or private video, a network problem, or a failed download.
pub open spec fn extractor_error(stderr: Seq<char>, text: String) -> DownloadError {
    if contains(stderr, "Video unavailable"@) || contains(stderr, "Private video"@) {
        DownloadError::VideoUnavailable(text)
    } else if contains(stderr, "network"@) || contains(stderr, "timeout"@) {
        DownloadError::Network(text)
    } else {
        DownloadError::DownloadFailed(text)
    }
}

/// Classifies the standard error of a failed extractor run.
pub fn classify_extractor_error(stderr: String) -> (r: DownloadError)
    ensures
        r == extractor_error(stderr@, stderr),
{
    let s = chars_of(stderr.as_str());
    if contains_lit(&s, "Video unavailable") || contains_lit(&s, "Private video") {
        DownloadError::VideoUnavailable(stderr)
    } else if contains_lit(&s, "network") || contains_lit(&s, "timeout") {
        DownloadError::Network(stderr)
    } else {
        DownloadError::DownloadFailed(stderr)
    }
}

} // verus!
