use youtube_downloader_gui::metadata::{
    assemble_channel, assemble_playlist, extract_uploads_playlist_id, parse_formats, parse_video_info,
    playlists_url_of, FormatEntry, MetadataEntry,
};

fn s(v: &str) -> Option<String> {
    Some(v.to_string())
}

fn entry() -> MetadataEntry {
    MetadataEntry {
        id: None,
        title: None,
        description: None,
        thumbnail: None,
        last_thumbnail_url: None,
        duration: None,
        uploader: None,
        channel: None,
        channel_id: None,
        upload_date: None,
        view_count: None,
        playlist_id: None,
        playlist_title: None,
        playlist: None,
        playlist_uploader: None,
        playlist_description: None,
    }
}

#[test]
fn video_fields_and_defaults() {
    let e = MetadataEntry { id: s("abc"), channel: s("Chan"), duration: Some(212), ..entry() };
    let formats = vec![
        FormatEntry { format_id: s("18"), ext: None, resolution: s("640x360"), filesize: None, filesize_approx: Some(99) },
        FormatEntry { format_id: None, ext: s("webm"), resolution: None, filesize: Some(1), filesize_approx: None },
        FormatEntry { format_id: s("22"), ext: s("webm"), resolution: None, filesize: Some(5), filesize_approx: Some(7) },
    ];
    let v = parse_video_info(&e, &formats, "https://youtu.be/abc");
    assert_eq!(v.id, "abc");
    assert_eq!(v.title, "Unknown Title");
    assert_eq!(v.uploader, "Chan");
    assert_eq!(v.duration, 212);
    assert_eq!(v.view_count, 0);
    assert_eq!(v.url, "https://youtu.be/abc");
    assert_eq!(v.platform, "YouTube");
    assert_eq!(v.available_formats.len(), 2);
    assert_eq!(v.available_formats[0].ext, "mp4");
    assert_eq!(v.available_formats[0].filesize, Some(99));
    assert_eq!(v.available_formats[1].format_id, "22");
    assert_eq!(v.available_formats[1].filesize, Some(5));
    assert_eq!(parse_formats(&Vec::new()).len(), 0);
}

#[test]
fn playlist_takes_fields_from_first_titled_entry() {
    let entries = vec![
        MetadataEntry { id: s("v1"), playlist_title: s("Mix"), playlist_id: s("PL1"), channel: s("C"), ..entry() },
        MetadataEntry { id: s("v2"), playlist_title: s("Other"), uploader: s("U2"), ..entry() },
        MetadataEntry { title: s("no id"), ..entry() },
        MetadataEntry { id: s("v3"), thumbnail: None, last_thumbnail_url: s("t.jpg"), ..entry() },
    ];
    let p = assemble_playlist(&entries, "https://www.youtube.com/playlist?list=PL1");
    assert_eq!(p.title, "Mix");
    assert_eq!(p.id, "PL1");
    assert_eq!(p.uploader, "C");
    assert_eq!(p.video_count, 3);
    assert_eq!(p.videos[0].url, "https://www.youtube.com/watch?v=v1");
    assert_eq!(p.videos[1].uploader, "U2");
    assert_eq!(p.videos[2].uploader, "C");
    assert_eq!(p.videos[2].thumbnail, "t.jpg");
    let empty = assemble_playlist(&Vec::new(), "u");
    assert_eq!(empty.title, "");
    assert_eq!(empty.video_count, 0);
}

#[test]
fn channel_videos_and_playlists() {
    let entries = vec![
        MetadataEntry { id: s("a"), uploader: s("Up"), channel_id: s("UC123"), ..entry() },
        MetadataEntry { id: s("b"), channel: s("Other"), ..entry() },
    ];
    let listing = vec![
        MetadataEntry { id: s("x0"), ..entry() },
        MetadataEntry { playlist_id: s("P1"), playlist: s("First"), ..entry() },
        MetadataEntry { id: s("x1"), ..entry() },
        MetadataEntry { playlist_id: s("P2"), id: s("x2"), ..entry() },
    ];
    let c = assemble_channel(&entries, &listing, "https://www.youtube.com/@up");
    assert_eq!(c.name, "Up");
    assert_eq!(c.id, "UC123");
    assert_eq!(c.all_videos.len(), 2);
    assert_eq!(c.all_videos[1].uploader, "Up");
    assert_eq!(c.playlists.len(), 2);
    assert_eq!(c.playlists[0].title, "First");
    assert_eq!(c.playlists[0].url, "https://www.youtube.com/playlist?list=P1");
    // videos listed before the first playlist go to it
    let ids: Vec<&str> = c.playlists[0].videos.iter().map(|v| v.id.as_str()).collect();
    assert_eq!(ids, vec!["x0", "x1"]);
    assert_eq!(c.playlists[1].title, "Unknown Playlist");
    assert_eq!(c.playlists[1].video_count, 1);
    assert_eq!(c.playlists[1].uploader, "Up");
}

#[test]
fn uploads_playlist_and_tabs() {
    let e = MetadataEntry { channel_id: s("UCabc"), ..entry() };
    assert_eq!(extract_uploads_playlist_id(&e), s("UUabc"));
    let e2 = MetadataEntry { channel_id: s("HCabc"), ..entry() };
    assert_eq!(extract_uploads_playlist_id(&e2), s("HCabc"));
    assert_eq!(extract_uploads_playlist_id(&entry()), None);
    assert_eq!(playlists_url_of("https://www.youtube.com/@name//"), "https://www.youtube.com/@name/playlists");
    assert_eq!(playlists_url_of("https://www.youtube.com/channel/UC1"), "https://www.youtube.com/channel/UC1/playlists");
    assert_eq!(playlists_url_of("https://www.youtube.com/user/x/"), "https://www.youtube.com/user/x/");
}
