use youtube_downloader_gui::cache::{MetadataCache, TtlMap, DEFAULT_TTL_MS};
use youtube_downloader_gui::provider::{ChannelInfo, PlaylistInfo, VideoInfo};

fn video(id: &str) -> VideoInfo {
    VideoInfo {
        id: id.to_string(),
        title: format!("Video {}", id),
        description: String::new(),
        thumbnail: String::new(),
        duration: 60,
        uploader: "someone".to_string(),
        upload_date: "20240101".to_string(),
        view_count: 1,
        available_formats: Vec::new(),
        platform: "YouTube".to_string(),
        url: format!("https://www.youtube.com/watch?v={}", id),
    }
}

#[test]
fn put_then_get_until_expiry() {
    let mut c = MetadataCache::with_default_ttl();
    assert_eq!(c.ttl_ms, DEFAULT_TTL_MS);
    c.put_video_at("u1".to_string(), video("a"), 1_000);
    assert_eq!(c.get_video_at("u1", 1_000).unwrap().id, "a");
    assert_eq!(c.get_video_at("u1", 1_000 + DEFAULT_TTL_MS).unwrap().id, "a");
    assert!(c.get_video_at("u1", 1_001 + DEFAULT_TTL_MS).is_none());
    assert!(c.get_video_at("u2", 1_000).is_none());
    // an expired entry is absent on read but not evicted
    assert_eq!(c.stats().video_count, 1);
}

#[test]
fn put_overwrites_and_refreshes() {
    let mut c = MetadataCache::new(10);
    c.put_video_at("u".to_string(), video("a"), 0);
    c.put_video_at("u".to_string(), video("b"), 100);
    assert_eq!(c.get_video_at("u", 105).unwrap().id, "b");
    assert_eq!(c.stats().video_count, 1);
}

#[test]
fn sweep_removes_only_expired() {
    let mut c = MetadataCache::new(10);
    c.put_video_at("old".to_string(), video("a"), 0);
    c.put_video_at("new".to_string(), video("b"), 100);
    c.put_playlist_at(
        "p".to_string(),
        PlaylistInfo {
            id: "p".to_string(),
            title: "P".to_string(),
            description: String::new(),
            uploader: String::new(),
            video_count: 0,
            videos: Vec::new(),
            platform: "YouTube".to_string(),
            url: "p".to_string(),
            has_more: false,
            page: 0,
            page_size: 0,
        },
        0,
    );
    c.put_channel_at(
        "c".to_string(),
        ChannelInfo {
            id: "c".to_string(),
            name: "C".to_string(),
            description: String::new(),
            playlists: Vec::new(),
            all_videos: Vec::new(),
            platform: "YouTube".to_string(),
            url: "c".to_string(),
        },
        100,
    );
    c.cleanup_expired_at(105);
    let s = c.stats();
    assert_eq!((s.video_count, s.playlist_count, s.channel_count, s.total_count), (1, 0, 1, 2));
    assert_eq!(c.get_video_at("new", 105).unwrap().id, "b");
    assert!(c.get_playlist_at("p", 5).is_none());
    assert_eq!(c.get_channel_at("c", 105).unwrap().name, "C");
    c.clear_all();
    assert_eq!(c.stats().total_count, 0);
}

#[test]
fn wall_clock_cache() {
    let mut c = MetadataCache::with_default_ttl();
    c.put_video("u".to_string(), video("a"));
    assert_eq!(c.get_video("u").unwrap().id, "a");
    c.cleanup_expired();
    assert_eq!(c.stats().video_count, 1);
}

#[test]
fn ttl_map_basics() {
    let mut m: TtlMap<u32> = TtlMap::new();
    m.put("k".to_string(), 7, 0, 5);
    assert_eq!(m.get("k", 5), Some(&7));
    assert_eq!(m.get("k", 6), None);
    m.put("k".to_string(), 8, u64::MAX - 1, 5);
    assert_eq!(m.get("k", u64::MAX), Some(&8));
    assert_eq!(m.len(), 1);
}
