//! Time-boxed memoization of metadata lookups, keyed by normalized URL.
//! Times are milliseconds on the wall clock.
use vstd::prelude::*;
use crate::clock::now_millis;
use crate::provider::{ChannelInfo, PlaylistInfo, VideoInfo};
use crate::text::same_text;

verus! {

/// The default time to live of an entry: 5 minutes, in milliseconds.
pub const DEFAULT_TTL_MS: u64 = 300_000;

/// A cached value and the instant after which it counts as absent.
#[derive(Debug)]
pub struct CacheEntry<T> {
    pub key: String,
    pub data: T,
    pub expires_at: u64,
}

/// The entry has expired at `now`.
pub open spec fn is_expired<T>(e: CacheEntry<T>, now: u64) -> bool {
    now > e.expires_at
}

/// The first entry at or after `i` with key `key`.
pub open spec fn first_key_from<T>(s: Seq<CacheEntry<T>>, key: Seq<char>, i: int) -> Option<int>
    decreases s.len() - i,
{
    if i < 0 || i >= s.len() {
        None
    } else if s[i].key@ == key {
        Some(i)
    } else {
        first_key_from(s, key, i + 1)
    }
}

/// What a lookup of `key` at `now` returns: the value, if present and not expired.
pub open spec fn spec_get<T>(s: Seq<CacheEntry<T>>, key: Seq<char>, now: u64) -> Option<T> {
    match first_key_from(s, key, 0) {
        Some(i) => if is_expired(s[i], now) {
            None
        } else {
            Some(s[i].data)
        },
        None => None,
    }
}

/// The entries after storing `e`: it replaces the entry with its key, or is appended.
pub open spec fn spec_put<T>(s: Seq<CacheEntry<T>>, e: CacheEntry<T>) -> Seq<CacheEntry<T>> {
    match first_key_from(s, e.key@, 0) {
        Some(i) => s.update(i, e),
        None => s.push(e),
    }
}

/// `now + ttl`, or the largest instant if that overflows.
pub open spec fn expiry(now: u64, ttl: u64) -> u64 {
    if now + ttl > u64::MAX {
        u64::MAX
    } else {
        (now + ttl) as u64
    }
}

/// The entries still fresh at `now`, in order.
pub open spec fn swept<T>(s: Seq<CacheEntry<T>>, now: u64) -> Seq<CacheEntry<T>> {
    s.filter(|e: CacheEntry<T>| !is_expired(e, now))
}

/// A map from keys to values that expire.
pub struct TtlMap<T> {
    entries: Vec<CacheEntry<T>>,
}

impl<T> View for TtlMap<T> {
    type V = Seq<CacheEntry<T>>;

    closed spec fn view(&self) -> Seq<CacheEntry<T>> {
        self.entries@
    }
}

pub proof fn lemma_first_key_found<T>(s: Seq<CacheEntry<T>>, key: Seq<char>, i: int)
    ensures
        first_key_from(s, key, i) matches Some(k) ==> i <= k < s.len() && s[k].key@ == key && (
        forall|j: int| i <= j < k ==> #[trigger] s[j].key@ != key),
    decreases s.len() - i,
{
    if !(i < 0 || i >= s.len()) && s[i].key@ != key {
        lemma_first_key_found(s, key, i + 1);
    }
}

impl<T> TtlMap<T> {
    /// An empty map.
    pub fn new() -> (r: TtlMap<T>)
        ensures
            r@.len() == 0,
    {
        TtlMap { entries: Vec::new() }
    }

    /// Number of entries, expired ones included.
    pub fn len(&self) -> (r: usize)
        ensures
            r == self@.len(),
    {
        self.entries.len()
    }

    fn find(&self, key: &str) -> (r: Option<usize>)
        ensures
            r == (match first_key_from(self@, key@, 0) {
                Some(i) => Some(i as usize),
                None => None,
            }),
            r matches Some(i) ==> i < self@.len() && first_key_from(self@, key@, 0) == Some(
                i as int,
            ),
    {
        let mut i: usize = 0;
        while i < self.entries.len()
            invariant
                i <= self@.len(),
                first_key_from(self@, key@, i as int) == first_key_from(self@, key@, 0),
            decreases self@.len() - i,
        {
            if same_text(self.entries[i].key.as_str(), key) {
                return Some(i);
            }
            i = i + 1;
        }
        None
    }

    /// The value of `key` at `now`, if present and not expired; an expired
    /// entry reads as absent and stays in place.
    pub fn get(&self, key: &str, now: u64) -> (r: Option<&T>)
        ensures
            spec_get(self@, key@, now) == (match r {
                Some(v) => Some(*v),
                None => None,
            }),
    {
        match self.find(key) {
            Some(i) => {
                if now > self.entries[i].expires_at {
                    None
                } else {
                    Some(&self.entries[i].data)
                }
            },
            None => None,
        }
    }

    /// Stores `data` under `key`, expiring `ttl` after `now`, over any entry
    /// with that key.
    pub fn put(&mut self, key: String, data: T, now: u64, ttl: u64)
        ensures
            final(self)@ == spec_put(
                old(self)@,
                CacheEntry { key, data, expires_at: expiry(now, ttl) },
            ),
    {
        let expires_at = now.saturating_add(ttl);
        let found = self.find(key.as_str());
        let e = CacheEntry { key, data, expires_at };
        match found {
            Some(i) => {
                self.entries.set(i, e);
            },
            None => {
                self.entries.push(e);
            },
        }
    }

    /// Removes every entry expired at `now`, keeping the others in order.
    pub fn cleanup_expired(&mut self, now: u64)
        ensures
            final(self)@ == swept(old(self)@, now),
    {
        let ghost s = self@;
        let ghost keep = |e: CacheEntry<T>| !is_expired(e, now);
        let n = self.entries.len();
        let mut i: usize = 0;
        let mut j: usize = 0;
        while j < n
            invariant
                n == s.len(),
                j <= n,
                i <= j,
                keep == (|e: CacheEntry<T>| !is_expired(e, now)),
                i == s.subrange(0, j as int).filter(keep).len(),
                self@ == s.subrange(0, j as int).filter(keep) + s.subrange(j as int, n as int),
            decreases n - j,
        {
            let ghost pre = s.subrange(0, j as int).filter(keep);
            proof {
                reveal(Seq::filter);
                let q = s.subrange(0, j + 1);
                assert(q.drop_last() =~= s.subrange(0, j as int));
                assert(q.last() == s[j as int]);
                assert(q.filter(keep) == if keep(q.last()) {
                    pre.push(q.last())
                } else {
                    pre
                });
                assert(self@[i as int] == s[j as int]);
            }
            if now > self.entries[i].expires_at {
                let _gone = self.entries.remove(i);
                proof {
                    assert(s.subrange(0, j + 1).filter(keep) == pre);
                    assert(self@ =~= pre + s.subrange(j + 1, n as int));
                }
            } else {
                proof {
                    assert(s.subrange(0, j + 1).filter(keep) == pre.push(s[j as int]));
                    assert(self@ =~= pre.push(s[j as int]) + s.subrange(j + 1, n as int));
                }
                i = i + 1;
            }
            j = j + 1;
        }
        proof {
            assert(s.subrange(0, n as int) =~= s);
            assert(self@ =~= s.filter(keep));
        }
    }

    /// Removes every entry.
    pub fn clear(&mut self)
        ensures
            final(self)@.len() == 0,
    {
        self.entries = Vec::new();
    }
}

/// A value stored with `put` reads back until its expiry, and as absent after it.
pub proof fn lemma_put_then_get<T>(s: Seq<CacheEntry<T>>, key: String, data: T, now: u64, ttl: u64, later: u64)
    ensures
        later <= expiry(now, ttl) ==> spec_get(
            spec_put(s, CacheEntry { key, data, expires_at: expiry(now, ttl) }),
            key@,
            later,
        ) == Some(data),
        later > expiry(now, ttl) ==> spec_get(
            spec_put(s, CacheEntry { key, data, expires_at: expiry(now, ttl) }),
            key@,
            later,
        ) is None,
{
    let e = CacheEntry { key, data, expires_at: expiry(now, ttl) };
    let t = spec_put(s, e);
    lemma_first_key_found(s, key@, 0);
    match first_key_from(s, key@, 0) {
        Some(i) => {
            lemma_first_key_same_prefix(s, t, key@, 0, i);
        },
        None => {
            lemma_first_key_absent(s, key@, 0);
            lemma_first_key_same_prefix(s, t, key@, 0, s.len() as int);
        },
    }
}

/// Where two lists agree before `k`, hold no `key` there, and `t` holds
/// `key` at `k`, the first `key` of `t` is at `k`.
proof fn lemma_first_key_same_prefix<T>(
    s: Seq<CacheEntry<T>>,
    t: Seq<CacheEntry<T>>,
    key: Seq<char>,
    i: int,
    k: int,
)
    requires
        0 <= i <= k < t.len(),
        t[k].key@ == key,
        forall|j: int| i <= j < k ==> #[trigger] t[j].key@ != key,
    ensures
        first_key_from(t, key, i) == Some(k),
    decreases k - i,
{
    if i < k {
        lemma_first_key_same_prefix(s, t, key, i + 1, k);
    }
}

proof fn lemma_first_key_absent<T>(s: Seq<CacheEntry<T>>, key: Seq<char>, i: int)
    requires
        0 <= i,
        first_key_from(s, key, i) is None,
    ensures
        forall|j: int| i <= j < s.len() ==> #[trigger] s[j].key@ != key,
    decreases s.len() - i,
{
    if i < s.len() {
        lemma_first_key_absent(s, key, i + 1);
    }
}

/// A sweep removes only expired entries: every entry it keeps is fresh at
/// `now`, and every entry fresh at `now` is kept.
pub proof fn lemma_sweep_keeps_fresh<T>(s: Seq<CacheEntry<T>>, now: u64)
    ensures
        forall|i: int|
            0 <= i < s.len() && !is_expired(#[trigger] s[i], now) ==> swept(s, now).contains(s[i]),
        forall|i: int| 0 <= i < swept(s, now).len() ==> !is_expired(#[trigger] swept(s, now)[i], now),
{
    broadcast use vstd::seq_lib::group_filter_ensures;

    let keep = |e: CacheEntry<T>| !is_expired(e, now);
    assert forall|i: int| 0 <= i < s.len() && !is_expired(#[trigger] s[i], now) implies swept(
        s,
        now,
    ).contains(s[i]) by {
        s.lemma_filter_contains(keep, i);
    }
    assert forall|i: int| 0 <= i < swept(s, now).len() implies !is_expired(
        #[trigger] swept(s, now)[i],
        now,
    ) by {
        s.lemma_filter_pred(keep, i);
    }
}

/// Counts of cached entries per kind.
#[derive(Clone, Copy, Debug)]
pub struct CacheStats {
    pub video_count: usize,
    pub playlist_count: usize,
    pub channel_count: usize,
    pub total_count: usize,
}

/// Independent caches of video, playlist and channel metadata sharing one
/// time to live.
pub struct MetadataCache {
    pub video_cache: TtlMap<VideoInfo>,
    pub playlist_cache: TtlMap<PlaylistInfo>,
    pub channel_cache: TtlMap<ChannelInfo>,
    pub ttl_ms: u64,
}

impl MetadataCache {
    /// Empty caches with the given time to live.
    pub fn new(ttl_ms: u64) -> (r: MetadataCache)
        ensures
            r.video_cache@.len() == 0,
            r.playlist_cache@.len() == 0,
            r.channel_cache@.len() == 0,
            r.ttl_ms == ttl_ms,
    {
        MetadataCache {
            video_cache: TtlMap::new(),
            playlist_cache: TtlMap::new(),
            channel_cache: TtlMap::new(),
            ttl_ms,
        }
    }

    /// Empty caches with the default time to live of 5 minutes.
    pub fn with_default_ttl() -> (r: MetadataCache)
        ensures
            r.video_cache@.len() == 0,
            r.playlist_cache@.len() == 0,
            r.channel_cache@.len() == 0,
            r.ttl_ms == DEFAULT_TTL_MS,
    {
        Self::new(DEFAULT_TTL_MS)
    }

    /// Cached video metadata for `url` at `now`.
    pub fn get_video_at(&self, url: &str, now: u64) -> (r: Option<&VideoInfo>)
        ensures
            spec_get(self.video_cache@, url@, now) == (match r {
                Some(v) => Some(*v),
                None => None,
            }),
    {
        self.video_cache.get(url, now)
    }

    /// Caches video metadata for `url`, expiring one time to live after `now`.
    pub fn put_video_at(&mut self, url: String, info: VideoInfo, now: u64)
        ensures
            final(self).video_cache@ == spec_put(
                old(self).video_cache@,
                CacheEntry { key: url, data: info, expires_at: expiry(now, old(self).ttl_ms) },
            ),
            final(self).playlist_cache@ == old(self).playlist_cache@,
            final(self).channel_cache@ == old(self).channel_cache@,
            final(self).ttl_ms == old(self).ttl_ms,
    {
        let ttl = self.ttl_ms;
        self.video_cache.put(url, info, now, ttl);
    }

    /// Cached playlist metadata for `url` at `now`.
    pub fn get_playlist_at(&self, url: &str, now: u64) -> (r: Option<&PlaylistInfo>)
        ensures
            spec_get(self.playlist_cache@, url@, now) == (match r {
                Some(v) => Some(*v),
                None => None,
            }),
    {
        self.playlist_cache.get(url, now)
    }

    /// Caches playlist metadata for `url`, expiring one time to live after `now`.
    pub fn put_playlist_at(&mut self, url: String, info: PlaylistInfo, now: u64)
        ensures
            final(self).playlist_cache@ == spec_put(
                old(self).playlist_cache@,
                CacheEntry { key: url, data: info, expires_at: expiry(now, old(self).ttl_ms) },
            ),
            final(self).video_cache@ == old(self).video_cache@,
            final(self).channel_cache@ == old(self).channel_cache@,
            final(self).ttl_ms == old(self).ttl_ms,
    {
        let ttl = self.ttl_ms;
        self.playlist_cache.put(url, info, now, ttl);
    }

    /// Cached channel metadata for `url` at `now`.
    pub fn get_channel_at(&self, url: &str, now: u64) -> (r: Option<&ChannelInfo>)
        ensures
            spec_get(self.channel_cache@, url@, now) == (match r {
                Some(v) => Some(*v),
                None => None,
            }),
    {
        self.channel_cache.get(url, now)
    }

    /// Caches channel metadata for `url`, expiring one time to live after `now`.
    pub fn put_channel_at(&mut self, url: String, info: ChannelInfo, now: u64)
        ensures
            final(self).channel_cache@ == spec_put(
                old(self).channel_cache@,
                CacheEntry { key: url, data: info, expires_at: expiry(now, old(self).ttl_ms) },
            ),
            final(self).video_cache@ == old(self).video_cache@,
            final(self).playlist_cache@ == old(self).playlist_cache@,
            final(self).ttl_ms == old(self).ttl_ms,
    {
        let ttl = self.ttl_ms;
        self.channel_cache.put(url, info, now, ttl);
    }

    /// Cached video metadata for `url` now: whatever the clock says, the
    /// result is what a lookup at some instant gives.
    pub fn get_video(&self, url: &str) -> (r: Option<&VideoInfo>)
        ensures
            exists|now: u64|
                spec_get(self.video_cache@, url@, now) == (match r {
                    Some(v) => Some(*v),
                    None => None,
                }),
    {
        let now = now_millis();
        self.get_video_at(url, now)
    }

    /// Caches video metadata for `url`, from now.
    pub fn put_video(&mut self, url: String, info: VideoInfo)
        ensures
            exists|now: u64|
                final(self).video_cache@ == spec_put(
                    old(self).video_cache@,
                    CacheEntry { key: url, data: info, expires_at: expiry(now, old(self).ttl_ms) },
                ),
            final(self).playlist_cache@ == old(self).playlist_cache@,
            final(self).channel_cache@ == old(self).channel_cache@,
            final(self).ttl_ms == old(self).ttl_ms,
    {
        let now = now_millis();
        self.put_video_at(url, info, now)
    }

    /// Cached playlist metadata for `url` now: what a lookup at some instant gives.
    pub fn get_playlist(&self, url: &str) -> (r: Option<&PlaylistInfo>)
        ensures
            exists|now: u64|
                spec_get(self.playlist_cache@, url@, now) == (match r {
                    Some(v) => Some(*v),
                    None => None,
                }),
    {
        let now = now_millis();
        self.get_playlist_at(url, now)
    }

    /// Caches playlist metadata for `url`, from now.
    pub fn put_playlist(&mut self, url: String, info: PlaylistInfo)
        ensures
            exists|now: u64|
                final(self).playlist_cache@ == spec_put(
                    old(self).playlist_cache@,
                    CacheEntry { key: url, data: info, expires_at: expiry(now, old(self).ttl_ms) },
                ),
            final(self).video_cache@ == old(self).video_cache@,
            final(self).channel_cache@ == old(self).channel_cache@,
            final(self).ttl_ms == old(self).ttl_ms,
    {
        let now = now_millis();
        self.put_playlist_at(url, info, now)
    }

    /// Cached channel metadata for `url` now: what a lookup at some instant gives.
    pub fn get_channel(&self, url: &str) -> (r: Option<&ChannelInfo>)
        ensures
            exists|now: u64|
                spec_get(self.channel_cache@, url@, now) == (match r {
                    Some(v) => Some(*v),
                    None => None,
                }),
    {
        let now = now_millis();
        self.get_channel_at(url, now)
    }

    /// Caches channel metadata for `url`, from now.
    pub fn put_channel(&mut self, url: String, info: ChannelInfo)
        ensures
            exists|now: u64|
                final(self).channel_cache@ == spec_put(
                    old(self).channel_cache@,
                    CacheEntry { key: url, data: info, expires_at: expiry(now, old(self).ttl_ms) },
                ),
            final(self).video_cache@ == old(self).video_cache@,
            final(self).playlist_cache@ == old(self).playlist_cache@,
            final(self).ttl_ms == old(self).ttl_ms,
    {
        let now = now_millis();
        self.put_channel_at(url, info, now)
    }

    /// Removes the entries expired at `now` from all three caches.
    pub fn cleanup_expired_at(&mut self, now: u64)
        ensures
            final(self).video_cache@ == swept(old(self).video_cache@, now),
            final(self).playlist_cache@ == swept(old(self).playlist_cache@, now),
            final(self).channel_cache@ == swept(old(self).channel_cache@, now),
            final(self).ttl_ms == old(self).ttl_ms,
    {
        self.video_cache.cleanup_expired(now);
        self.playlist_cache.cleanup_expired(now);
        self.channel_cache.cleanup_expired(now);
    }

    /// Removes the entries expired now from all three caches.
    pub fn cleanup_expired(&mut self)
        ensures
            exists|now: u64|
                {
                    &&& final(self).video_cache@ == swept(old(self).video_cache@, now)
                    &&& final(self).playlist_cache@ == swept(old(self).playlist_cache@, now)
                    &&& final(self).channel_cache@ == swept(old(self).channel_cache@, now)
                },
            final(self).ttl_ms == old(self).ttl_ms,
    {
        let now = now_millis();
        self.cleanup_expired_at(now)
    }

    /// Empties all three caches.
    pub fn clear_all(&mut self)
        ensures
            final(self).video_cache@.len() == 0,
            final(self).playlist_cache@.len() == 0,
            final(self).channel_cache@.len() == 0,
            final(self).ttl_ms == old(self).ttl_ms,
    {
        self.video_cache.clear();
        self.playlist_cache.clear();
        self.channel_cache.clear();
    }

    /// Entry counts per kind, expired entries included.
    pub fn stats(&self) -> (r: CacheStats)
        requires
            self.video_cache@.len() + self.playlist_cache@.len() + self.channel_cache@.len()
                <= usize::MAX,
        ensures
            r.video_count == self.video_cache@.len(),
            r.playlist_count == self.playlist_cache@.len(),
            r.channel_count == self.channel_cache@.len(),
            r.total_count == r.video_count + r.playlist_count + r.channel_count,
    {
        let video_count = self.video_cache.len();
        let playlist_count = self.playlist_cache.len();
        let channel_count = self.channel_cache.len();
        CacheStats {
            video_count,
            playlist_count,
            channel_count,
            total_count: video_count + playlist_count + channel_count,
        }
    }
}

} // verus!
