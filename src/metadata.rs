//! Assembling metadata records from the extractor's JSON entries. Each entry
//! is handed over as the plain fields read from it; a field that is absent
//! or of another JSON type is `None`.
use vstd::prelude::*;
use crate::provider::{ChannelInfo, FormatInfo, PlaylistInfo, VideoInfo};
use crate::text::{append, chars_of, contains, contains_lit, copy_text, matches_at, string_of};

verus! {

/// The fields of one JSON entry that metadata is built from.
#[derive(Clone, Debug)]
pub struct MetadataEntry {
    pub id: Option<String>,
    pub title: Option<String>,
    pub description: Option<String>,
    pub thumbnail: Option<String>,
    /// The `url` of the last element of the entry's `thumbnails` array.
    pub last_thumbnail_url: Option<String>,
    pub duration: Option<u64>,
    pub uploader: Option<String>,
    pub channel: Option<String>,
    pub channel_id: Option<String>,
    pub upload_date: Option<String>,
    pub view_count: Option<u64>,
    pub playlist_id: Option<String>,
    pub playlist_title: Option<String>,
    pub playlist: Option<String>,
    pub playlist_uploader: Option<String>,
    pub playlist_description: Option<String>,
}

/// The fields of one element of an entry's `formats` array.
#[derive(Clone, Debug)]
pub struct FormatEntry {
    pub format_id: Option<String>,
    pub ext: Option<String>,
    pub resolution: Option<String>,
    pub filesize: Option<u64>,
    pub filesize_approx: Option<u64>,
}

/// The text of `o`, or `d` when absent.
pub open spec fn or_text(o: Option<String>, d: Seq<char>) -> Seq<char> {
    match o {
        Some(s) => s@,
        None => d,
    }
}

/// The text of `a`, else of `b`, else `d`.
pub open spec fn or_text2(a: Option<String>, b: Option<String>, d: Seq<char>) -> Seq<char> {
    match a {
        Some(s) => s@,
        None => or_text(b, d),
    }
}

pub open spec fn or_num(o: Option<u64>, d: u64) -> u64 {
    match o {
        Some(v) => v,
        None => d,
    }
}

pub open spec fn opt_text(o: Option<String>) -> Option<Seq<char>> {
    match o {
        Some(s) => Some(s@),
        None => None,
    }
}

pub fn text_or(o: &Option<String>, d: &str) -> (r: String)
    ensures
        r@ == or_text(*o, d@),
{
    match o {
        Some(s) => s.clone(),
        None => String::from_str(d),
    }
}

fn text_or2(a: &Option<String>, b: &Option<String>, d: &str) -> (r: String)
    ensures
        r@ == or_text2(*a, *b, d@),
{
    match a {
        Some(s) => s.clone(),
        None => text_or(b, d),
    }
}

/// What a format element becomes: its id, its extension (`mp4` when
/// absent), its resolution, and its size (exact, else approximate).
pub open spec fn format_fits(f: FormatInfo, e: FormatEntry) -> bool {
    &&& e.format_id matches Some(id) && f.format_id@ == id@
    &&& f.ext@ == or_text(e.ext, "mp4"@)
    &&& opt_text(f.resolution) == opt_text(e.resolution)
    &&& f.filesize == (match e.filesize {
        Some(v) => Some(v),
        None => e.filesize_approx,
    })
}

/// The elements that have a `format_id`, in order.
pub open spec fn with_format_id(s: Seq<FormatEntry>) -> Seq<FormatEntry> {
    s.filter(|e: FormatEntry| e.format_id is Some)
}

/// The available formats of a video: one per element with a `format_id`.
pub fn parse_formats(entries: &Vec<FormatEntry>) -> (r: Vec<FormatInfo>)
    ensures
        r@.len() == with_format_id(entries@).len(),
        forall|i: int| 0 <= i < r@.len() ==> format_fits(#[trigger] r@[i], with_format_id(entries@)[i]),
{
    let mut r: Vec<FormatInfo> = Vec::new();
    let mut i: usize = 0;
    while i < entries.len()
        invariant
            i <= entries@.len(),
            r@.len() == with_format_id(entries@.subrange(0, i as int)).len(),
            forall|k: int|
                0 <= k < r@.len() ==> format_fits(
                    #[trigger] r@[k],
                    with_format_id(entries@.subrange(0, i as int))[k],
                ),
        decreases entries@.len() - i,
    {
        let e = &entries[i];
        let ghost pre = with_format_id(entries@.subrange(0, i as int));
        proof {
            reveal(Seq::filter);
            assert(entries@.subrange(0, i + 1).drop_last() =~= entries@.subrange(0, i as int));
        }
        match &e.format_id {
            Some(id) => {
                let f = FormatInfo {
                    format_id: id.clone(),
                    ext: text_or(&e.ext, "mp4"),
                    resolution: match &e.resolution {
                        Some(s) => Some(s.clone()),
                        None => None,
                    },
                    filesize: match e.filesize {
                        Some(v) => Some(v),
                        None => e.filesize_approx,
                    },
                };
                r.push(f);
                proof {
                    assert(with_format_id(entries@.subrange(0, i + 1)) == pre.push(entries@[i as int]));
                }
            },
            None => {
                proof {
                    assert(with_format_id(entries@.subrange(0, i + 1)) == pre);
                }
            },
        }
        i = i + 1;
    }
    proof {
        assert(entries@.subrange(0, entries@.len() as int) =~= entries@);
    }
    r
}

/// What a full video entry becomes, with `formats` as its formats and `url`
/// as its URL.
pub open spec fn video_fits(v: VideoInfo, e: MetadataEntry, url: Seq<char>) -> bool {
    &&& v.id@ == or_text(e.id, ""@)
    &&& v.title@ == or_text(e.title, "Unknown Title"@)
    &&& v.description@ == or_text(e.description, ""@)
    &&& v.thumbnail@ == or_text(e.thumbnail, ""@)
    &&& v.duration == or_num(e.duration, 0)
    &&& v.uploader@ == or_text2(e.uploader, e.channel, "Unknown"@)
    &&& v.upload_date@ == or_text(e.upload_date, ""@)
    &&& v.view_count == or_num(e.view_count, 0)
    &&& v.platform@ == "YouTube"@
    &&& v.url@ == url
}

/// The metadata of one video, from its entry and format elements.
pub fn parse_video_info(entry: &MetadataEntry, formats: &Vec<FormatEntry>, url: &str) -> (r: VideoInfo)
    ensures
        video_fits(r, *entry, url@),
        r.available_formats@.len() == with_format_id(formats@).len(),
        forall|i: int|
            0 <= i < r.available_formats@.len() ==> format_fits(
                #[trigger] r.available_formats@[i],
                with_format_id(formats@)[i],
            ),
{
    VideoInfo {
        id: text_or(&entry.id, ""),
        title: text_or(&entry.title, "Unknown Title"),
        description: text_or(&entry.description, ""),
        thumbnail: text_or(&entry.thumbnail, ""),
        duration: match entry.duration {
            Some(v) => v,
            None => 0,
        },
        uploader: text_or2(&entry.uploader, &entry.channel, "Unknown"),
        upload_date: text_or(&entry.upload_date, ""),
        view_count: match entry.view_count {
            Some(v) => v,
            None => 0,
        },
        available_formats: parse_formats(formats),
        platform: String::from_str("YouTube"),
        url: copy_text(url),
    }
}

/// The page of a video id.
pub open spec fn watch_url(id: Seq<char>) -> Seq<char> {
    "https://www.youtube.com/watch?v="@ + id
}

pub fn watch_url_of(id: &str) -> (r: String)
    ensures
        r@ == watch_url(id@),
{
    let mut s = String::from_str("https://www.youtube.com/watch?v=");
    append(&mut s, id);
    s
}

/// The uploads playlist of a channel: `UU` and the rest of a `UC…` id, or
/// the id itself.
pub open spec fn uploads_playlist(channel_id: Seq<char>) -> Seq<char> {
    if matches_at(channel_id, 0, "UC"@) {
        "UU"@ + channel_id.subrange(2, channel_id.len() as int)
    } else {
        channel_id
    }
}

/// The uploads playlist of the entry's channel, when it names one.
pub fn extract_uploads_playlist_id(entry: &MetadataEntry) -> (r: Option<String>)
    ensures
        match entry.channel_id {
            Some(c) => r matches Some(s) && s@ == uploads_playlist(c@),
            None => r is None,
        },
{
    match &entry.channel_id {
        Some(c) => {
            let chars = crate::text::chars_of(c.as_str());
            proof {
                reveal_strlit("UC");
            }
            if crate::text::lit_end(&chars, 0, "UC").is_some() {
                let mut s = String::from_str("UU");
                let rest = crate::text::suffix_of(&chars, 2);
                append(&mut s, rest.as_str());
                Some(s)
            } else {
                Some(c.clone())
            }
        },
        None => None,
    }
}

/// The playlist-level fields as they stand while entries are read.
pub struct ListHead {
    pub title: Seq<char>,
    pub id: Seq<char>,
    pub description: Seq<char>,
    pub uploader: Seq<char>,
}

/// The playlist-level fields that entry `e` gives.
pub open spec fn playlist_head_of(e: MetadataEntry) -> ListHead {
    ListHead {
        title: or_text2(e.playlist_title, e.playlist, "Unknown Playlist"@),
        id: or_text(e.playlist_id, ""@),
        description: or_text(e.playlist_description, ""@),
        uploader: match e.playlist_uploader {
            Some(u) => u@,
            None => or_text2(e.uploader, e.channel, "Unknown"@),
        },
    }
}

/// The playlist-level fields after reading `s`: taken from each entry
/// while the title read so far is empty, so from the first entry that gives
/// a non-empty title.
pub open spec fn playlist_head(s: Seq<MetadataEntry>) -> ListHead
    decreases s.len(),
{
    if s.len() == 0 {
        ListHead { title: ""@, id: ""@, description: ""@, uploader: ""@ }
    } else {
        let h = playlist_head(s.drop_last());
        if h.title.len() == 0 {
            playlist_head_of(s.last())
        } else {
            h
        }
    }
}

/// The positions of the entries that have an `id`, in order.
pub open spec fn id_positions(s: Seq<MetadataEntry>) -> Seq<int>
    decreases s.len(),
{
    if s.len() == 0 {
        Seq::empty()
    } else {
        let p = id_positions(s.drop_last());
        if s.last().id is Some {
            p.push(s.len() - 1)
        } else {
            p
        }
    }
}

/// What an entry of a flat listing becomes, its uploader defaulting to `owner`.
pub open spec fn listed_video_fits(v: VideoInfo, e: MetadataEntry, owner: Seq<char>) -> bool {
    &&& e.id matches Some(id) && v.id@ == id@ && v.url@ == watch_url(id@)
    &&& v.title@ == or_text(e.title, "Unknown Title"@)
    &&& v.description@ == or_text(e.description, ""@)
    &&& v.thumbnail@ == or_text2(e.thumbnail, e.last_thumbnail_url, ""@)
    &&& v.duration == or_num(e.duration, 0)
    &&& v.uploader@ == (match e.uploader {
        Some(u) => u@,
        None => or_text(e.channel, owner),
    })
    &&& v.upload_date@ == or_text(e.upload_date, ""@)
    &&& v.view_count == or_num(e.view_count, 0)
    &&& v.available_formats@.len() == 0
    &&& v.platform@ == "YouTube"@
}

fn listed_video(e: &MetadataEntry, id: &String, owner: &String) -> (r: VideoInfo)
    requires
        e.id == Some(*id),
    ensures
        listed_video_fits(r, *e, owner@),
{
    VideoInfo {
        id: id.clone(),
        title: text_or(&e.title, "Unknown Title"),
        description: text_or(&e.description, ""),
        thumbnail: text_or2(&e.thumbnail, &e.last_thumbnail_url, ""),
        duration: match e.duration {
            Some(v) => v,
            None => 0,
        },
        uploader: match &e.uploader {
            Some(u) => u.clone(),
            None => match &e.channel {
                Some(c) => c.clone(),
                None => owner.clone(),
            },
        },
        upload_date: text_or(&e.upload_date, ""),
        view_count: match e.view_count {
            Some(v) => v,
            None => 0,
        },
        available_formats: Vec::new(),
        platform: String::from_str("YouTube"),
        url: watch_url_of(id.as_str()),
    }
}

/// The playlist read from a flat listing: its fields from the first entry
/// with a title, and one video per entry with an `id`, whose uploader
/// defaults to the playlist's uploader as read up to that entry.
pub fn assemble_playlist(entries: &Vec<MetadataEntry>, url: &str) -> (r: PlaylistInfo)
    ensures
        r.title@ == playlist_head(entries@).title,
        r.id@ == playlist_head(entries@).id,
        r.description@ == playlist_head(entries@).description,
        r.uploader@ == playlist_head(entries@).uploader,
        r.videos@.len() == id_positions(entries@).len(),
        r.video_count == r.videos@.len(),
        forall|j: int|
            0 <= j < r.videos@.len() ==> {
                let k = #[trigger] id_positions(entries@)[j];
                listed_video_fits(
                    r.videos@[j],
                    entries@[k],
                    playlist_head(entries@.subrange(0, k + 1)).uploader,
                )
            },
        r.platform@ == "YouTube"@,
        r.url@ == url@,
        !r.has_more && r.page == 0 && r.page_size == 0,
{
    let mut title = String::new();
    let mut id = String::new();
    let mut description = String::new();
    let mut uploader = String::new();
    let mut videos: Vec<VideoInfo> = Vec::new();
    let mut i: usize = 0;
    proof {
        reveal_strlit("");
        assert(""@ =~= Seq::<char>::empty());
        assert(entries@.subrange(0, 0) =~= Seq::<MetadataEntry>::empty());
    }
    while i < entries.len()
        invariant
            i <= entries@.len(),
            title@ == playlist_head(entries@.subrange(0, i as int)).title,
            id@ == playlist_head(entries@.subrange(0, i as int)).id,
            description@ == playlist_head(entries@.subrange(0, i as int)).description,
            uploader@ == playlist_head(entries@.subrange(0, i as int)).uploader,
            videos@.len() == id_positions(entries@.subrange(0, i as int)).len(),
            forall|j: int| 0 <= j < videos@.len() ==> {
                let k = #[trigger] id_positions(entries@.subrange(0, i as int))[j];
                &&& 0 <= k < i
                &&& listed_video_fits(
                    videos@[j],
                    entries@[k],
                    playlist_head(entries@.subrange(0, k + 1)).uploader,
                )
            },
        decreases entries@.len() - i,
    {
        let e = &entries[i];
        let ghost pre = entries@.subrange(0, i as int);
        let ghost cur = entries@.subrange(0, i + 1);
        proof {
            assert(cur.drop_last() =~= pre);
            assert(cur.last() == entries@[i as int]);
        }
        if title.as_str().unicode_len() == 0 {
            title = text_or2(&e.playlist_title, &e.playlist, "Unknown Playlist");
            id = text_or(&e.playlist_id, "");
            uploader = match &e.playlist_uploader {
                Some(u) => u.clone(),
                None => text_or2(&e.uploader, &e.channel, "Unknown"),
            };
            description = text_or(&e.playlist_description, "");
        }
        if let Some(vid) = &e.id {
            let v = listed_video(e, vid, &uploader);
            videos.push(v);
        }
        proof {
            let pos_pre = id_positions(pre);
            let pos_cur = id_positions(cur);
            assert forall|j: int| 0 <= j < videos@.len() implies {
                let k = #[trigger] pos_cur[j];
                &&& 0 <= k < i + 1
                &&& listed_video_fits(
                    videos@[j],
                    entries@[k],
                    playlist_head(entries@.subrange(0, k + 1)).uploader,
                )
            } by {
                if j < pos_pre.len() {
                    assert(pos_cur[j] == pos_pre[j]);
                } else {
                    assert(pos_cur[j] == i as int);
                }
            }
        }
        i = i + 1;
    }
    proof {
        assert(entries@.subrange(0, entries@.len() as int) =~= entries@);
    }
    let count = videos.len();
    PlaylistInfo {
        id,
        title,
        description,
        uploader,
        video_count: count,
        videos,
        platform: String::from_str("YouTube"),
        url: copy_text(url),
        has_more: false,
        page: 0,
        page_size: 0,
    }
}

/// The channel-level fields: name, id and description.
pub struct ChannelHead {
    pub name: Seq<char>,
    pub id: Seq<char>,
    pub description: Seq<char>,
}

pub open spec fn channel_head_of(e: MetadataEntry) -> ChannelHead {
    ChannelHead {
        name: or_text2(e.channel, e.uploader, "Unknown Channel"@),
        id: or_text(e.channel_id, ""@),
        description: or_text(e.description, ""@),
    }
}

/// The channel-level fields after reading `s`: taken from each entry while
/// the name read so far is empty.
pub open spec fn channel_head(s: Seq<MetadataEntry>) -> ChannelHead
    decreases s.len(),
{
    if s.len() == 0 {
        ChannelHead { name: ""@, id: ""@, description: ""@ }
    } else {
        let h = channel_head(s.drop_last());
        if h.name.len() == 0 {
            channel_head_of(s.last())
        } else {
            h
        }
    }
}

/// What an entry of a channel's listing becomes, with `owner` as uploader.
pub open spec fn channel_video_fits(v: VideoInfo, e: MetadataEntry, owner: Seq<char>) -> bool {
    &&& e.id matches Some(id) && v.id@ == id@ && v.url@ == watch_url(id@)
    &&& v.title@ == or_text(e.title, "Unknown Title"@)
    &&& v.description@ == or_text(e.description, ""@)
    &&& v.thumbnail@ == or_text2(e.thumbnail, e.last_thumbnail_url, ""@)
    &&& v.duration == or_num(e.duration, 0)
    &&& v.uploader@ == owner
    &&& v.upload_date@ == or_text(e.upload_date, ""@)
    &&& v.view_count == or_num(e.view_count, 0)
    &&& v.available_formats@.len() == 0
    &&& v.platform@ == "YouTube"@
}

/// What an entry of a channel's playlists listing becomes as a video.
pub open spec fn playlist_video_fits(v: VideoInfo, e: MetadataEntry, owner: Seq<char>) -> bool {
    &&& e.id matches Some(id) && v.id@ == id@ && v.url@ == watch_url(id@)
    &&& v.title@ == or_text(e.title, "Unknown Title"@)
    &&& v.description@.len() == 0
    &&& v.thumbnail@ == or_text(e.thumbnail, ""@)
    &&& v.duration == or_num(e.duration, 0)
    &&& v.uploader@ == owner
    &&& v.upload_date@.len() == 0
    &&& v.view_count == 0
    &&& v.available_formats@.len() == 0
    &&& v.platform@ == "YouTube"@
}

/// The page of a playlist id.
pub open spec fn playlist_url(id: Seq<char>) -> Seq<char> {
    "https://www.youtube.com/playlist?list="@ + id
}

/// What an entry that starts a playlist gives it (its videos aside).
pub open spec fn playlist_start_fits(p: PlaylistInfo, e: MetadataEntry, owner: Seq<char>) -> bool {
    &&& e.playlist_id matches Some(pid) && p.id@ == pid@ && p.url@ == playlist_url(pid@)
    &&& p.title@ == or_text2(e.playlist_title, e.playlist, "Unknown Playlist"@)
    &&& p.description@ == or_text(e.playlist_description, ""@)
    &&& p.uploader@ == owner
    &&& p.platform@ == "YouTube"@
    &&& !p.has_more && p.page == 0 && p.page_size == 0
}

/// Grouping a playlists listing: the finished playlists (the entry that
/// started each and the entries of its videos), the one being read, and the
/// videos read since it started.
pub struct Groups {
    pub done: Seq<(int, Seq<int>)>,
    pub current: Option<int>,
    pub pending: Seq<int>,
}

/// Reading entry `k`: one with a `playlist_id` closes the playlist being
/// read (keeping its videos) and starts another; one with an `id` adds a
/// video to the videos pending. Videos read before any playlist starts go
/// to the first one.
pub open spec fn group_step(g: Groups, e: MetadataEntry, k: int) -> Groups {
    let g1 = if e.playlist_id is Some {
        match g.current {
            Some(c) => Groups { done: g.done.push((c, g.pending)), current: Some(k), pending: Seq::empty() },
            None => Groups { done: g.done, current: Some(k), pending: g.pending },
        }
    } else {
        g
    };
    if e.id is Some {
        Groups { done: g1.done, current: g1.current, pending: g1.pending.push(k) }
    } else {
        g1
    }
}

pub open spec fn groups_after(s: Seq<MetadataEntry>) -> Groups
    decreases s.len(),
{
    if s.len() == 0 {
        Groups { done: Seq::empty(), current: None, pending: Seq::empty() }
    } else {
        group_step(groups_after(s.drop_last()), s.last(), s.len() - 1)
    }
}

/// The playlists of a listing, each as its starting entry and video entries.
pub open spec fn playlist_groups(s: Seq<MetadataEntry>) -> Seq<(int, Seq<int>)> {
    let g = groups_after(s);
    match g.current {
        Some(c) => g.done.push((c, g.pending)),
        None => g.done,
    }
}

/// Playlist `p` is the group `grp` of `s`, owned by `owner`.
pub open spec fn group_fits(p: PlaylistInfo, s: Seq<MetadataEntry>, grp: (int, Seq<int>), owner: Seq<char>) -> bool {
    &&& 0 <= grp.0 < s.len()
    &&& playlist_start_fits(p, s[grp.0], owner)
    &&& p.videos@.len() == grp.1.len()
    &&& p.video_count == grp.1.len()
    &&& forall|j: int|
        0 <= j < grp.1.len() ==> 0 <= #[trigger] grp.1[j] < s.len() && playlist_video_fits(
            p.videos@[j],
            s[grp.1[j]],
            owner,
        )
}

fn playlist_start(e: &MetadataEntry, pid: &String, owner: &String) -> (r: PlaylistInfo)
    requires
        e.playlist_id == Some(*pid),
    ensures
        playlist_start_fits(r, *e, owner@),
        r.videos@.len() == 0,
{
    let mut url = String::from_str("https://www.youtube.com/playlist?list=");
    append(&mut url, pid.as_str());
    PlaylistInfo {
        id: pid.clone(),
        title: text_or2(&e.playlist_title, &e.playlist, "Unknown Playlist"),
        description: text_or(&e.playlist_description, ""),
        uploader: owner.clone(),
        video_count: 0,
        videos: Vec::new(),
        platform: String::from_str("YouTube"),
        url,
        has_more: false,
        page: 0,
        page_size: 0,
    }
}

fn playlist_video(e: &MetadataEntry, id: &String, owner: &String) -> (r: VideoInfo)
    requires
        e.id == Some(*id),
    ensures
        playlist_video_fits(r, *e, owner@),
{
    VideoInfo {
        id: id.clone(),
        title: text_or(&e.title, "Unknown Title"),
        description: String::new(),
        thumbnail: text_or(&e.thumbnail, ""),
        duration: match e.duration {
            Some(v) => v,
            None => 0,
        },
        uploader: owner.clone(),
        upload_date: String::new(),
        view_count: 0,
        available_formats: Vec::new(),
        platform: String::from_str("YouTube"),
        url: watch_url_of(id.as_str()),
    }
}

/// The playlists of a channel's playlists listing, grouped in order.
pub fn group_playlists(entries: &Vec<MetadataEntry>, owner: &String) -> (r: Vec<PlaylistInfo>)
    ensures
        r@.len() == playlist_groups(entries@).len(),
        forall|p: int|
            0 <= p < r@.len() ==> group_fits(
                #[trigger] r@[p],
                entries@,
                playlist_groups(entries@)[p],
                owner@,
            ),
{
    let mut done: Vec<PlaylistInfo> = Vec::new();
    let mut current: Option<PlaylistInfo> = None;
    let mut pending: Vec<VideoInfo> = Vec::new();
    let ghost s = entries@;
    let mut i: usize = 0;
    proof {
        assert(s.subrange(0, 0) =~= Seq::<MetadataEntry>::empty());
    }
    while i < entries.len()
        invariant
            s == entries@,
            i <= s.len(),
            ({
                let g = groups_after(s.subrange(0, i as int));
                &&& done@.len() == g.done.len()
                &&& forall|p: int| 0 <= p < done@.len() ==> group_fits(#[trigger] done@[p], s, g.done[p], owner@)
                &&& (current is Some) == (g.current is Some)
                &&& current matches Some(c) ==> g.current matches Some(k) && 0 <= k < s.len()
                    && playlist_start_fits(c, s[k], owner@) && c.videos@.len() == 0
                &&& pending@.len() == g.pending.len()
                &&& forall|j: int| 0 <= j < pending@.len() ==> 0 <= #[trigger] g.pending[j] < s.len()
                    && playlist_video_fits(pending@[j], s[g.pending[j]], owner@)
            }),
        decreases s.len() - i,
    {
        let e = &entries[i];
        let ghost g0 = groups_after(s.subrange(0, i as int));
        proof {
            assert(s.subrange(0, i + 1).drop_last() =~= s.subrange(0, i as int));
            assert(s.subrange(0, i + 1).last() == s[i as int]);
        }
        if let Some(pid) = &e.playlist_id {
            let started = playlist_start(e, pid, owner);
            match current {
                Some(mut pl) => {
                    let count = pending.len();
                    pl.videos = pending;
                    pl.video_count = count;
                    proof {
                        let c = g0.current->0;
                        assert(group_fits(pl, s, (c, g0.pending), owner@));
                    }
                    done.push(pl);
                    pending = Vec::new();
                },
                None => {},
            }
            current = Some(started);
        }
        if let Some(vid) = &e.id {
            pending.push(playlist_video(e, vid, owner));
        }
        proof {
            let g1 = groups_after(s.subrange(0, i + 1));
            assert(g1 == group_step(g0, s[i as int], i as int));
            assert forall|p: int| 0 <= p < done@.len() implies group_fits(#[trigger] done@[p], s, g1.done[p], owner@) by {
            }
            assert forall|j: int| 0 <= j < pending@.len() implies 0 <= #[trigger] g1.pending[j] < s.len()
                && playlist_video_fits(pending@[j], s[g1.pending[j]], owner@) by {
            }
        }
        i = i + 1;
    }
    proof {
        assert(s.subrange(0, s.len() as int) =~= s);
    }
    match current {
        Some(mut pl) => {
            let count = pending.len();
            pl.videos = pending;
            pl.video_count = count;
            let ghost g = groups_after(s);
            proof {
                let c = g.current->0;
                assert(group_fits(pl, s, (c, g.pending), owner@));
            }
            done.push(pl);
            proof {
                assert forall|p: int| 0 <= p < done@.len() implies group_fits(
                    #[trigger] done@[p],
                    s,
                    playlist_groups(s)[p],
                    owner@,
                ) by {
                }
            }
        },
        None => {},
    }
    done
}

/// A channel read from its listing of videos and its listing of playlists:
/// its fields from the first entry with a name, one video per entry with an
/// `id` (uploaded by the channel as named up to that entry), and the
/// playlists grouped from the second listing under the channel's name.
pub fn assemble_channel(
    entries: &Vec<MetadataEntry>,
    playlist_entries: &Vec<MetadataEntry>,
    url: &str,
) -> (r: ChannelInfo)
    ensures
        r.name@ == channel_head(entries@).name,
        r.id@ == channel_head(entries@).id,
        r.description@ == channel_head(entries@).description,
        r.all_videos@.len() == id_positions(entries@).len(),
        forall|j: int|
            0 <= j < r.all_videos@.len() ==> {
                let k = #[trigger] id_positions(entries@)[j];
                channel_video_fits(r.all_videos@[j], entries@[k], channel_head(entries@.subrange(0, k + 1)).name)
            },
        r.playlists@.len() == playlist_groups(playlist_entries@).len(),
        forall|p: int|
            0 <= p < r.playlists@.len() ==> group_fits(
                #[trigger] r.playlists@[p],
                playlist_entries@,
                playlist_groups(playlist_entries@)[p],
                channel_head(entries@).name,
            ),
        r.platform@ == "YouTube"@,
        r.url@ == url@,
{
    let mut name = String::new();
    let mut id = String::new();
    let mut description = String::new();
    let mut videos: Vec<VideoInfo> = Vec::new();
    let mut i: usize = 0;
    proof {
        reveal_strlit("");
        assert(""@ =~= Seq::<char>::empty());
        assert(entries@.subrange(0, 0) =~= Seq::<MetadataEntry>::empty());
    }
    while i < entries.len()
        invariant
            i <= entries@.len(),
            name@ == channel_head(entries@.subrange(0, i as int)).name,
            id@ == channel_head(entries@.subrange(0, i as int)).id,
            description@ == channel_head(entries@.subrange(0, i as int)).description,
            videos@.len() == id_positions(entries@.subrange(0, i as int)).len(),
            forall|j: int| 0 <= j < videos@.len() ==> {
                let k = #[trigger] id_positions(entries@.subrange(0, i as int))[j];
                &&& 0 <= k < i
                &&& channel_video_fits(
                    videos@[j],
                    entries@[k],
                    channel_head(entries@.subrange(0, k + 1)).name,
                )
            },
        decreases entries@.len() - i,
    {
        let e = &entries[i];
        let ghost pre = entries@.subrange(0, i as int);
        let ghost cur = entries@.subrange(0, i + 1);
        proof {
            assert(cur.drop_last() =~= pre);
            assert(cur.last() == entries@[i as int]);
        }
        if name.as_str().unicode_len() == 0 {
            name = text_or2(&e.channel, &e.uploader, "Unknown Channel");
            id = text_or(&e.channel_id, "");
            description = text_or(&e.description, "");
        }
        if let Some(vid) = &e.id {
            videos.push(VideoInfo {
                id: vid.clone(),
                title: text_or(&e.title, "Unknown Title"),
                description: text_or(&e.description, ""),
                thumbnail: text_or2(&e.thumbnail, &e.last_thumbnail_url, ""),
                duration: match e.duration {
                    Some(v) => v,
                    None => 0,
                },
                uploader: name.clone(),
                upload_date: text_or(&e.upload_date, ""),
                view_count: match e.view_count {
                    Some(v) => v,
                    None => 0,
                },
                available_formats: Vec::new(),
                platform: String::from_str("YouTube"),
                url: watch_url_of(vid.as_str()),
            });
        }
        proof {
            let pos_pre = id_positions(pre);
            let pos_cur = id_positions(cur);
            assert forall|j: int| 0 <= j < videos@.len() implies {
                let k = #[trigger] pos_cur[j];
                &&& 0 <= k < i + 1
                &&& channel_video_fits(
                    videos@[j],
                    entries@[k],
                    channel_head(entries@.subrange(0, k + 1)).name,
                )
            } by {
                if j < pos_pre.len() {
                    assert(pos_cur[j] == pos_pre[j]);
                } else {
                    assert(pos_cur[j] == i as int);
                }
            }
        }
        i = i + 1;
    }
    proof {
        assert(entries@.subrange(0, entries@.len() as int) =~= entries@);
    }
    let playlists = group_playlists(playlist_entries, &name);
    ChannelInfo {
        id,
        name,
        description,
        playlists,
        all_videos: videos,
        platform: String::from_str("YouTube"),
        url: copy_text(url),
    }
}

/// `s` without trailing `/`.
pub open spec fn trim_slashes(s: Seq<char>) -> Seq<char>
    decreases s.len(),
{
    if s.len() > 0 && s.last() == '/' {
        trim_slashes(s.drop_last())
    } else {
        s
    }
}

/// Where a channel lists its playlists: the `playlists` tab of an `@name`
/// or `channel/` page; any other URL as it is.
pub open spec fn playlists_url(url: Seq<char>) -> Seq<char> {
    if contains(url, "/@"@) || contains(url, "/channel/"@) {
        trim_slashes(url) + "/playlists"@
    } else {
        url
    }
}

/// The URL of a channel's playlists tab.
pub fn playlists_url_of(url: &str) -> (r: String)
    ensures
        r@ == playlists_url(url@),
{
    let s = chars_of(url);
    if contains_lit(&s, "/@") || contains_lit(&s, "/channel/") {
        let mut end = s.len();
        proof {
            assert(s@.subrange(0, end as int) =~= s@);
        }
        while end > 0 && s[end - 1] == '/'
            invariant
                end <= s@.len(),
                trim_slashes(s@.subrange(0, end as int)) == trim_slashes(s@),
            decreases end,
        {
            proof {
                assert(s@.subrange(0, end as int).drop_last() =~= s@.subrange(0, end - 1));
            }
            end = end - 1;
        }
        proof {
            assert(trim_slashes(s@.subrange(0, end as int)) == s@.subrange(0, end as int));
        }
        let mut r = string_of(&s, end);
        append(&mut r, "/playlists");
        r
    } else {
        copy_text(url)
    }
}

} // verus!
