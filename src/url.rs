//! Recognizing and normalizing the URLs of the supported platform.
use vstd::prelude::*;
use crate::error::DownloadError;
use crate::provider::{PlatformSetting, SettingType, SettingValue};
use crate::storage::{trim_chars, trim_text};
use crate::text::{chars_of, contains, contains_lit, find_lit, first_match_from, lit_end, matches_at, string_of};

verus! {

/// Whether the regular expression `pattern` matches somewhere in `text`.
pub uninterp spec fn regex_matches(pattern: Seq<char>, text: Seq<char>) -> bool;

/// Relies on `regex::Regex::new` and `Regex::is_match`: whether the regular
/// expression `pattern` matches in `text` (false when it does not compile).
#[verifier::external_body]
fn pattern_matches(pattern: &str, text: &str) -> (r: bool)
    ensures
        r == regex_matches(pattern@, text@),
{
    match regex::Regex::new(pattern) {
        Ok(re) => re.is_match(text),
        Err(_) => false,
    }
}

/// The URL shapes of the platform: watch pages, short links, playlists and
/// the four forms of channel pages.
pub open spec fn url_patterns() -> Seq<Seq<char>> {
    seq![
        "^https?://(www\\.)?youtube\\.com/watch\\?v=[\\w-]+"@,
        "^https?://youtu\\.be/[\\w-]+"@,
        "^https?://(www\\.)?youtube\\.com/playlist\\?list=[\\w-]+"@,
        "^https?://(www\\.)?youtube\\.com/@[\\w-]+"@,
        "^https?://(www\\.)?youtube\\.com/channel/[\\w-]+"@,
        "^https?://(www\\.)?youtube\\.com/user/[\\w-]+"@,
        "^https?://(www\\.)?youtube\\.com/c/[\\w-]+"@,
    ]
}

/// Some pattern of the platform matches `text`.
pub open spec fn matches_platform(text: Seq<char>) -> bool {
    exists|i: int| 0 <= i < url_patterns().len() && regex_matches(#[trigger] url_patterns()[i], text)
}

fn patterns() -> (r: Vec<&'static str>)
    ensures
        r@.len() == url_patterns().len(),
        forall|i: int| 0 <= i < r@.len() ==> (#[trigger] r@[i])@ == url_patterns()[i],
{
    let r = vec![
        "^https?://(www\\.)?youtube\\.com/watch\\?v=[\\w-]+",
        "^https?://youtu\\.be/[\\w-]+",
        "^https?://(www\\.)?youtube\\.com/playlist\\?list=[\\w-]+",
        "^https?://(www\\.)?youtube\\.com/@[\\w-]+",
        "^https?://(www\\.)?youtube\\.com/channel/[\\w-]+",
        "^https?://(www\\.)?youtube\\.com/user/[\\w-]+",
        "^https?://(www\\.)?youtube\\.com/c/[\\w-]+",
    ];
    assert(r@.len() == 7);
    r
}

/// Whether some pattern of the platform matches `text`.
fn any_pattern_matches(text: &str) -> (r: bool)
    ensures
        r == matches_platform(text@),
{
    let ps = patterns();
    let mut i: usize = 0;
    while i < ps.len()
        invariant
            i <= ps@.len(),
            ps@.len() == url_patterns().len(),
            forall|k: int| 0 <= k < ps@.len() ==> (#[trigger] ps@[k])@ == url_patterns()[k],
            forall|k: int| 0 <= k < i ==> !regex_matches(#[trigger] url_patterns()[k], text@),
        decreases ps@.len() - i,
    {
        if pattern_matches(ps[i], text) {
            assert(regex_matches(url_patterns()[i as int], text@));
            return true;
        }
        i = i + 1;
    }
    false
}

/// `text` with white space trimmed from both ends.
fn trimmed(text: &str) -> (r: String)
    ensures
        r@ == trim_text(text@, true),
{
    let t = trim_chars(&chars_of(text), true);
    let r = string_of(&t, t.len());
    proof {
        assert(t@.subrange(0, t@.len() as int) =~= t@);
    }
    r
}

/// The provider of the platform, running the extractor at `ytdlp_path` with
/// the transcoder at `ffmpeg_path`.
#[derive(Clone, Debug)]
pub struct YouTubeProvider {
    pub ytdlp_path: String,
    pub ffmpeg_path: String,
}

impl YouTubeProvider {
    /// A provider that finds `yt-dlp` and `ffmpeg` on the search path.
    pub fn new() -> (r: YouTubeProvider)
        ensures
            r.ytdlp_path@ == "yt-dlp"@,
            r.ffmpeg_path@ == "ffmpeg"@,
    {
        YouTubeProvider { ytdlp_path: String::from_str("yt-dlp"), ffmpeg_path: String::from_str("ffmpeg") }
    }

    /// A provider with the given executables.
    pub fn with_executables(ytdlp_path: String, ffmpeg_path: String) -> (r: YouTubeProvider)
        ensures
            r.ytdlp_path == ytdlp_path,
            r.ffmpeg_path == ffmpeg_path,
    {
        YouTubeProvider { ytdlp_path, ffmpeg_path }
    }

    /// The platform's name.
    pub fn name(&self) -> (r: &'static str)
        ensures
            r@ == "YouTube"@,
    {
        "YouTube"
    }

    /// Whether the URL, white space trimmed, has one of the platform's shapes.
    pub fn matches_url(&self, url: &str) -> (r: bool)
        ensures
            r == matches_platform(trim_text(url@, true)),
    {
        let t = trimmed(url);
        any_pattern_matches(t.as_str())
    }

    /// The platform's settings: AV1 preference, sponsor skipping, subtitle
    /// language, embedded thumbnail, embedded metadata, maximum resolution.
    pub fn get_platform_settings(&self) -> (r: Vec<PlatformSetting>)
        ensures
            r@.len() == 6,
            r@[0].key@ == "youtube_prefer_av1"@ && r@[0].default_value == SettingValue::Bool(false),
            r@[1].key@ == "youtube_skip_ads"@ && r@[1].default_value == SettingValue::Bool(true),
            r@[2].key@ == "youtube_subtitle_language"@,
            r@[3].key@ == "youtube_embed_thumbnail"@ && r@[3].default_value == SettingValue::Bool(true),
            r@[4].key@ == "youtube_embed_metadata"@ && r@[4].default_value == SettingValue::Bool(true),
            r@[5].key@ == "youtube_max_resolution"@,
    {
        let mut r: Vec<PlatformSetting> = Vec::new();
        r.push(PlatformSetting {
            key: String::from_str("youtube_prefer_av1"),
            label: String::from_str("优先使用 AV1 编码"),
            setting_type: SettingType::Boolean,
            default_value: SettingValue::Bool(false),
        });
        r.push(PlatformSetting {
            key: String::from_str("youtube_skip_ads"),
            label: String::from_str("跳过赞助片段 (SponsorBlock)"),
            setting_type: SettingType::Boolean,
            default_value: SettingValue::Bool(true),
        });
        let mut languages: Vec<String> = Vec::new();
        languages.push(String::from_str("none"));
        languages.push(String::from_str("zh-CN"));
        languages.push(String::from_str("zh-TW"));
        languages.push(String::from_str("en"));
        languages.push(String::from_str("ja"));
        languages.push(String::from_str("ko"));
        r.push(PlatformSetting {
            key: String::from_str("youtube_subtitle_language"),
            label: String::from_str("字幕语言"),
            setting_type: SettingType::Select { options: languages },
            default_value: SettingValue::Text(String::from_str("none")),
        });
        r.push(PlatformSetting {
            key: String::from_str("youtube_embed_thumbnail"),
            label: String::from_str("嵌入缩略图到视频文件"),
            setting_type: SettingType::Boolean,
            default_value: SettingValue::Bool(true),
        });
        r.push(PlatformSetting {
            key: String::from_str("youtube_embed_metadata"),
            label: String::from_str("嵌入元数据 (标题、描述等)"),
            setting_type: SettingType::Boolean,
            default_value: SettingValue::Bool(true),
        });
        let mut resolutions: Vec<String> = Vec::new();
        resolutions.push(String::from_str("best"));
        resolutions.push(String::from_str("2160p"));
        resolutions.push(String::from_str("1440p"));
        resolutions.push(String::from_str("1080p"));
        resolutions.push(String::from_str("720p"));
        resolutions.push(String::from_str("480p"));
        r.push(PlatformSetting {
            key: String::from_str("youtube_max_resolution"),
            label: String::from_str("最大分辨率"),
            setting_type: SettingType::Select { options: resolutions },
            default_value: SettingValue::Text(String::from_str("1080p")),
        });
        r
    }

    /// Examples of the URL shapes accepted.
    pub fn supported_patterns(&self) -> (r: Vec<String>)
        ensures
            r@.len() == 7,
            r@[0]@ == "https://www.youtube.com/watch?v=VIDEO_ID"@,
    {
        let mut r: Vec<String> = Vec::new();
        r.push(String::from_str("https://www.youtube.com/watch?v=VIDEO_ID"));
        r.push(String::from_str("https://youtu.be/VIDEO_ID"));
        r.push(String::from_str("https://www.youtube.com/playlist?list=PLAYLIST_ID"));
        r.push(String::from_str("https://www.youtube.com/@CHANNEL_NAME"));
        r.push(String::from_str("https://www.youtube.com/channel/CHANNEL_ID"));
        r.push(String::from_str("https://www.youtube.com/user/USERNAME"));
        r.push(String::from_str("https://www.youtube.com/c/CUSTOM_NAME"));
        r
    }
}

/// The providers known, at most one per name, in order of registration.
pub struct PlatformRegistry {
    providers: Vec<YouTubeProvider>,
}

impl View for PlatformRegistry {
    type V = Seq<YouTubeProvider>;

    closed spec fn view(&self) -> Seq<YouTubeProvider> {
        self.providers@
    }
}

/// The first provider of `s` that handles `url`.
pub open spec fn first_handler(s: Seq<YouTubeProvider>, url: Seq<char>, i: int) -> Option<int>
    decreases s.len() - i,
{
    if i < 0 || i >= s.len() {
        None
    } else if matches_platform(trim_text(url, true)) {
        Some(i)
    } else {
        first_handler(s, url, i + 1)
    }
}

impl PlatformRegistry {
    /// A registry without providers.
    pub fn new() -> (r: PlatformRegistry)
        ensures
            r@.len() == 0,
    {
        PlatformRegistry { providers: Vec::new() }
    }

    /// Registers `provider`, replacing the one of the same name. Every
    /// provider of this type is named `YouTube`, so it replaces any other.
    pub fn register(&mut self, provider: YouTubeProvider)
        ensures
            final(self)@ == (if old(self)@.len() == 0 {
                seq![provider]
            } else {
                old(self)@.update(0, provider)
            }),
    {
        if self.providers.len() == 0 {
            self.providers.push(provider);
            proof {
                assert(self@ =~= seq![provider]);
            }
        } else {
            self.providers.set(0, provider);
        }
    }

    /// The first registered provider that handles `url`.
    pub fn detect_provider(&self, url: &str) -> (r: Option<&YouTubeProvider>)
        ensures
            match first_handler(self@, url@, 0) {
                Some(i) => r matches Some(p) && *p == self@[i],
                None => r is None,
            },
    {
        let mut i: usize = 0;
        while i < self.providers.len()
            invariant
                i <= self@.len(),
                first_handler(self@, url@, i as int) == first_handler(self@, url@, 0),
            decreases self@.len() - i,
        {
            if self.providers[i].matches_url(url) {
                return Some(&self.providers[i]);
            }
            i = i + 1;
        }
        None
    }

    /// All registered providers.
    pub fn get_all_providers(&self) -> (r: &Vec<YouTubeProvider>)
        ensures
            r@ == self@,
    {
        &self.providers
    }

    /// The provider named `name`.
    pub fn get_provider(&self, name: &str) -> (r: Option<&YouTubeProvider>)
        ensures
            r is Some == (self@.len() > 0 && name@ == "YouTube"@),
            r matches Some(p) ==> *p == self@[0],
    {
        if self.providers.len() > 0 && crate::text::same_text(name, "YouTube") {
            Some(&self.providers[0])
        } else {
            None
        }
    }
}

impl Default for PlatformRegistry {
    fn default() -> (r: PlatformRegistry)
        ensures
            r@.len() == 0,
    {
        PlatformRegistry::new()
    }
}

/// The verdict on a URL: its trimmed form, or why it is refused.
pub open spec fn url_verdict(url: Seq<char>) -> Result<Seq<char>, Seq<char>> {
    let t = trim_text(url, true);
    if t.len() == 0 {
        Err("URL cannot be empty"@)
    } else if !(matches_at(t, 0, "http://"@) || matches_at(t, 0, "https://"@)) {
        Err("URL must start with http:// or https://"@)
    } else if !matches_platform(t) {
        Err("URL does not match any supported YouTube format"@)
    } else {
        Ok(t)
    }
}

/// `s` cut before the first `param`, except that `&list=` stays in a playlist URL.
pub open spec fn cut_param(s: Seq<char>, param: Seq<char>) -> Seq<char> {
    match first_match_from(s, param, 0) {
        Some(pos) => if param == "&list="@ && contains(s, "playlist?list="@) {
            s
        } else {
            s.subrange(0, pos)
        },
        None => s,
    }
}

/// `url` without its tracking parameters.
pub open spec fn without_tracking(url: Seq<char>) -> Seq<char> {
    cut_param(cut_param(cut_param(cut_param(url, "&feature="@), "&t="@), "&list="@), "&index="@)
}

/// Checks URLs of the platform and strips their tracking parameters.
pub struct UrlValidator;


fn cut(s: &Vec<char>, param: &str, keep_in_playlist: bool) -> (r: Vec<char>)
    requires
        keep_in_playlist == (param@ == "&list="@),
    ensures
        r@ == cut_param(s@, param@),
{
    match find_lit(s, param) {
        Some(pos) => {
            if keep_in_playlist && contains_lit(s, "playlist?list=") {
                s.clone()
            } else {
                proof {
                    crate::text::lemma_first_match_found(s@, param@, 0);
                }
                let mut r: Vec<char> = Vec::new();
                let mut i: usize = 0;
                while i < pos
                    invariant
                        i <= pos <= s@.len(),
                        r@ == s@.subrange(0, i as int),
                    decreases pos - i,
                {
                    r.push(s[i]);
                    proof {
                        assert(s@.subrange(0, i + 1) =~= s@.subrange(0, i as int).push(s@[i as int]));
                    }
                    i = i + 1;
                }
                r
            }
        },
        None => s.clone(),
    }
}

impl UrlValidator {
    pub fn new() -> (r: UrlValidator) {
        UrlValidator
    }

    /// The URL with white space trimmed, if it is non-empty, starts with
    /// `http://` or `https://`, and has one of the platform's shapes; else
    /// `InvalidUrl` saying which rule failed.
    pub fn validate_youtube_url(&self, url: &str) -> (r: Result<String, DownloadError>)
        ensures
            match url_verdict(url@) {
                Ok(t) => r matches Ok(s) && s@ == t,
                Err(msg) => r matches Err(DownloadError::InvalidUrl(m)) && m@ == msg,
            },
    {
        let t = trimmed(url);
        let c = chars_of(t.as_str());
        if c.len() == 0 {
            return Err(DownloadError::InvalidUrl(String::from_str("URL cannot be empty")));
        }
        if !(lit_end(&c, 0, "http://").is_some() || lit_end(&c, 0, "https://").is_some()) {
            return Err(DownloadError::InvalidUrl(String::from_str("URL must start with http:// or https://")));
        }
        if !any_pattern_matches(t.as_str()) {
            return Err(
                DownloadError::InvalidUrl(String::from_str("URL does not match any supported YouTube format")),
            );
        }
        Ok(t)
    }

    /// A valid URL with its tracking parameters (`&feature=`, `&t=`,
    /// `&list=` outside playlists, `&index=`) cut off.
    pub fn validate_and_normalize(&self, url: &str) -> (r: Result<String, DownloadError>)
        ensures
            match url_verdict(url@) {
                Ok(t) => r matches Ok(s) && s@ == without_tracking(t),
                Err(msg) => r matches Err(DownloadError::InvalidUrl(m)) && m@ == msg,
            },
    {
        let validated = self.validate_youtube_url(url)?;
        Ok(self.remove_tracking_params(validated.as_str()))
    }

    /// `url` without its tracking parameters.
    pub fn remove_tracking_params(&self, url: &str) -> (r: String)
        ensures
            r@ == without_tracking(url@),
    {
        let s0 = chars_of(url);
        proof {
            reveal_strlit("&feature=");
            reveal_strlit("&t=");
            reveal_strlit("&list=");
            reveal_strlit("&index=");
            assert("&t="@.len() == 3);
            assert("&list="@.len() == 6);
            assert("&t="@ != "&list="@);
        }
        let s1 = cut(&s0, "&feature=", false);
        let s2 = cut(&s1, "&t=", false);
        let s3 = cut(&s2, "&list=", true);
        let s4 = cut(&s3, "&index=", false);
        let r = string_of(&s4, s4.len());
        proof {
            assert(s4@.subrange(0, s4@.len() as int) =~= s4@);
        }
        r
    }
}

} // verus!
