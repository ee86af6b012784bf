//! Persisted state and the rules on paths and file names.
use vstd::prelude::*;
use crate::error::DownloadError;
use crate::task::DownloadItem;
use crate::text::{chars_of, contains, contains_lit, lit_end, matches_at, string_of};

verus! {

/// The first of the system's directories (`/System`, `/Library`, `/bin`,
/// `/sbin`, `/usr`, `/private/var`) that `s` starts with.
pub open spec fn restricted_prefix(s: Seq<char>) -> Option<Seq<char>> {
    if matches_at(s, 0, "/System"@) {
        Some("/System"@)
    } else if matches_at(s, 0, "/Library"@) {
        Some("/Library"@)
    } else if matches_at(s, 0, "/bin"@) {
        Some("/bin"@)
    } else if matches_at(s, 0, "/sbin"@) {
        Some("/sbin"@)
    } else if matches_at(s, 0, "/usr"@) {
        Some("/usr"@)
    } else if matches_at(s, 0, "/private/var"@) {
        Some("/private/var"@)
    } else {
        None
    }
}

/// The verdict on a save path: it must be absolute, hold no `..` and no NUL,
/// and, where `restrict_system_dirs` holds (on macOS), lie outside the
/// system's directories. The first rule broken decides.
pub open spec fn path_verdict(s: Seq<char>, restrict_system_dirs: bool) -> Option<Seq<char>> {
    if !(s.len() > 0 && s[0] == '/') {
        Some("Path must be absolute"@)
    } else if contains(s, ".."@) {
        Some("Path traversal not allowed"@)
    } else if contains(s, seq!['\0']) {
        Some("Invalid path characters"@)
    } else if restrict_system_dirs && restricted_prefix(s) is Some {
        Some("Cannot write to system directory: "@ + restricted_prefix(s)->0)
    } else {
        None
    }
}

fn restricted_prefix_in(s: &Vec<char>) -> (r: Option<&'static str>)
    ensures
        restricted_prefix(s@) == (match r {
            Some(p) => Some(p@),
            None => None,
        }),
{
    if lit_end(s, 0, "/System").is_some() {
        Some("/System")
    } else if lit_end(s, 0, "/Library").is_some() {
        Some("/Library")
    } else if lit_end(s, 0, "/bin").is_some() {
        Some("/bin")
    } else if lit_end(s, 0, "/sbin").is_some() {
        Some("/sbin")
    } else if lit_end(s, 0, "/usr").is_some() {
        Some("/usr")
    } else if lit_end(s, 0, "/private/var").is_some() {
        Some("/private/var")
    } else {
        None
    }
}

/// Checks that a path is safe to write to; the error is `PermissionDenied`
/// with the rule broken. The system's directories are refused only where
/// `restrict_system_dirs` holds.
pub fn validate_path(path: &str, restrict_system_dirs: bool) -> (r: Result<(), DownloadError>)
    ensures
        match path_verdict(path@, restrict_system_dirs) {
            None => r is Ok,
            Some(msg) => r matches Err(DownloadError::PermissionDenied(m)) && m@ == msg,
        },
{
    let s = chars_of(path);
    if !(s.len() > 0 && s[0] == '/') {
        return Err(DownloadError::PermissionDenied(String::from_str("Path must be absolute")));
    }
    if contains_lit(&s, "..") {
        return Err(DownloadError::PermissionDenied(String::from_str("Path traversal not allowed")));
    }
    if contains_nul(&s) {
        return Err(DownloadError::PermissionDenied(String::from_str("Invalid path characters")));
    }
    if restrict_system_dirs {
        if let Some(prefix) = restricted_prefix_in(&s) {
            let mut m = String::from_str("Cannot write to system directory: ");
            crate::text::append(&mut m, prefix);
            return Err(DownloadError::PermissionDenied(m));
        }
    }
    Ok(())
}

fn contains_nul(s: &Vec<char>) -> (r: bool)
    ensures
        r == contains(s@, seq!['\0']),
{
    let mut i: usize = 0;
    while i < s.len()
        invariant
            i <= s@.len(),
            forall|j: int| 0 <= j < i ==> s@[j] != '\0',
        decreases s@.len() - i,
    {
        if s[i] == '\0' {
            assert(s@.subrange(i as int, i + 1) =~= seq!['\0']);
            assert(matches_at(s@, i as int, seq!['\0']));
            return true;
        }
        i = i + 1;
    }
    assert forall|j: int| !matches_at(s@, j, seq!['\0']) by {
        if matches_at(s@, j, seq!['\0']) {
            assert(s@.subrange(j, j + 1)[0] == s@[j]);
        }
    }
    false
}

/// White space as `char::is_whitespace` defines it.
pub open spec fn is_white_space(c: char) -> bool {
    ('\t' <= c && c <= '\r') || c == ' ' || c == '\u{85}' || c == '\u{a0}' || c == '\u{1680}' || (
    '\u{2000}' <= c && c <= '\u{200a}') || c == '\u{2028}' || c == '\u{2029}' || c == '\u{202f}'
        || c == '\u{205f}' || c == '\u{3000}'
}

/// Control characters as `char::is_control` defines them.
pub open spec fn is_control_char(c: char) -> bool {
    c <= '\u{1f}' || ('\u{7f}' <= c && c <= '\u{9f}')
}

/// Characters that file systems refuse in names.
pub open spec fn is_unsafe_char(c: char) -> bool {
    c == '/' || c == '\\' || c == ':' || c == '*' || c == '?' || c == '"' || c == '<' || c == '>'
        || c == '|' || is_control_char(c)
}

pub open spec fn safe_char(c: char) -> char {
    if is_unsafe_char(c) {
        '_'
    } else {
        c
    }
}

/// The characters trimmed: white space (`spaces`), or dots and spaces.
pub open spec fn trimmed_char(spaces: bool, c: char) -> bool {
    if spaces {
        is_white_space(c)
    } else {
        c == '.' || c == ' '
    }
}

/// The first index at or after `i` whose character is not trimmed.
pub open spec fn lead_end(s: Seq<char>, i: int, spaces: bool) -> int
    decreases s.len() - i,
{
    if 0 <= i < s.len() && trimmed_char(spaces, s[i]) {
        lead_end(s, i + 1, spaces)
    } else {
        i
    }
}

/// The end of `s[lo..hi]` once trimmed characters are dropped from its back.
pub open spec fn trail_end(s: Seq<char>, lo: int, hi: int, spaces: bool) -> int
    decreases hi - lo,
{
    if lo < hi && trimmed_char(spaces, s[hi - 1]) {
        trail_end(s, lo, hi - 1, spaces)
    } else {
        hi
    }
}

/// `s` with trimmed characters dropped from both ends.
pub open spec fn trim_text(s: Seq<char>, spaces: bool) -> Seq<char> {
    let a = lead_end(s, 0, spaces);
    s.subrange(a, trail_end(s, a, s.len() as int, spaces))
}

/// A file name made safe: white space trimmed, unsafe characters replaced by
/// `_`, dots and spaces trimmed from both ends; `untitled` if nothing is left.
pub open spec fn sanitized(name: Seq<char>) -> Seq<char> {
    let t = trim_text(name, true);
    let m = t.map_values(|c: char| safe_char(c));
    let u = trim_text(m, false);
    if u.len() == 0 {
        "untitled"@
    } else {
        u
    }
}

fn is_trimmed(spaces: bool, c: char) -> (r: bool)
    ensures
        r == trimmed_char(spaces, c),
{
    if spaces {
        ('\t' <= c && c <= '\r') || c == ' ' || c == '\u{85}' || c == '\u{a0}' || c == '\u{1680}'
            || ('\u{2000}' <= c && c <= '\u{200a}') || c == '\u{2028}' || c == '\u{2029}' || c
            == '\u{202f}' || c == '\u{205f}' || c == '\u{3000}'
    } else {
        c == '.' || c == ' '
    }
}

pub(crate) fn trim_chars(s: &Vec<char>, spaces: bool) -> (r: Vec<char>)
    ensures
        r@ == trim_text(s@, spaces),
{
    let n = s.len();
    let mut a: usize = 0;
    while a < n && is_trimmed(spaces, s[a])
        invariant
            n == s@.len(),
            a <= n,
            lead_end(s@, a as int, spaces) == lead_end(s@, 0, spaces),
        decreases n - a,
    {
        a = a + 1;
    }
    let mut b: usize = n;
    while b > a && is_trimmed(spaces, s[b - 1])
        invariant
            n == s@.len(),
            a <= b <= n,
            lead_end(s@, 0, spaces) == a,
            trail_end(s@, a as int, b as int, spaces) == trail_end(s@, a as int, n as int, spaces),
        decreases b - a,
    {
        b = b - 1;
    }
    let mut r: Vec<char> = Vec::new();
    let mut i = a;
    while i < b
        invariant
            a <= i <= b <= n,
            n == s@.len(),
            r@ == s@.subrange(a as int, i as int),
        decreases b - i,
    {
        r.push(s[i]);
        proof {
            assert(s@.subrange(a as int, i + 1) =~= s@.subrange(a as int, i as int).push(s@[i as int]));
        }
        i = i + 1;
    }
    r
}

/// Rules on where downloads are written and what they are called.
pub struct StorageService {
    /// Whether the system's directories are refused (on macOS).
    pub restrict_system_dirs: bool,
}

impl StorageService {
    /// Replaces characters that file systems refuse, trims white space and
    /// leading or trailing dots and spaces, and never returns an empty name.
    pub fn sanitize_filename(name: &str) -> (r: String)
        ensures
            r@ == sanitized(name@),
    {
        let s = chars_of(name);
        let t = trim_chars(&s, true);
        let mut m: Vec<char> = Vec::new();
        let mut i: usize = 0;
        while i < t.len()
            invariant
                i <= t@.len(),
                m@ == t@.subrange(0, i as int).map_values(|c: char| safe_char(c)),
            decreases t@.len() - i,
        {
            let c = t[i];
            let safe = if c == '/' || c == '\\' || c == ':' || c == '*' || c == '?' || c == '"' || c
                == '<' || c == '>' || c == '|' || c <= '\u{1f}' || ('\u{7f}' <= c && c <= '\u{9f}') {
                '_'
            } else {
                c
            };
            m.push(safe);
            proof {
                assert(t@.subrange(0, i + 1).map_values(|c: char| safe_char(c)) =~= t@.subrange(
                    0,
                    i as int,
                ).map_values(|c: char| safe_char(c)).push(safe_char(t@[i as int])));
            }
            i = i + 1;
        }
        proof {
            assert(t@.subrange(0, t@.len() as int) =~= t@);
        }
        let u = trim_chars(&m, false);
        if u.len() == 0 {
            String::from_str("untitled")
        } else {
            string_of(&u, u.len())
        }
    }

    /// The rules for a platform that does (`true`, macOS) or does not
    /// protect the system's directories.
    pub fn new(restrict_system_dirs: bool) -> (r: StorageService)
        ensures
            r.restrict_system_dirs == restrict_system_dirs,
    {
        StorageService { restrict_system_dirs }
    }

    /// Checks that a path is safe to write to (see `validate_path`).
    pub fn validate_path(&self, path: &str) -> (r: Result<(), DownloadError>)
        ensures
            match path_verdict(path@, self.restrict_system_dirs) {
                None => r is Ok,
                Some(msg) => r matches Err(DownloadError::PermissionDenied(m)) && m@ == msg,
            },
    {
        validate_path(path, self.restrict_system_dirs)
    }
}

/// The persisted queue and when it was saved.
#[derive(Clone, Debug)]
pub struct QueueState {
    pub items: Vec<DownloadItem>,
    pub last_updated: String,
}

/// A finished download, for the history.
#[derive(Clone, Debug)]
pub struct CompletedDownload {
    pub id: String,
    pub video_id: String,
    pub title: String,
    pub completed_at: String,
    pub save_path: String,
    pub file_size: u64,
    pub platform: String,
}

/// The downloads finished so far.
#[derive(Clone, Debug)]
pub struct DownloadHistory {
    pub downloads: Vec<CompletedDownload>,
}

/// Relies on `chrono::DateTime::<Utc>::from_timestamp_millis` and
/// `DateTime::to_rfc3339`: the instant `ms` milliseconds after the Unix epoch
/// as an RFC 3339 timestamp, which always starts with the year's digits;
/// `None` when chrono cannot represent that instant. Neither call panics.
#[verifier::external_body]
fn rfc3339_of_millis(ms: u64) -> (r: Option<String>)
    requires
        ms <= i64::MAX,
    ensures
        r matches Some(s) ==> s@.len() > 0,
{
    match chrono::DateTime::<chrono::Utc>::from_timestamp_millis(ms as i64) {
        Some(d) => Some(d.to_rfc3339()),
        None => None,
    }
}

impl QueueState {
    /// An empty queue stamped with the current time (the epoch when the
    /// clock's reading cannot be represented).
    pub fn new() -> (r: QueueState)
        ensures
            r.items@.len() == 0,
            r.last_updated@.len() > 0,
    {
        let ms = crate::clock::now_millis();
        let stamp = if ms <= i64::MAX as u64 {
            rfc3339_of_millis(ms)
        } else {
            None
        };
        let last_updated = match stamp {
            Some(s) => s,
            None => {
                proof {
                    reveal_strlit("1970-01-01T00:00:00+00:00");
                }
                String::from_str("1970-01-01T00:00:00+00:00")
            },
        };
        QueueState { items: Vec::new(), last_updated }
    }
}

impl Default for QueueState {
    fn default() -> (r: QueueState)
        ensures
            r.items@.len() == 0,
            r.last_updated@.len() > 0,
    {
        QueueState::new()
    }
}

impl DownloadHistory {
    /// An empty history.
    pub fn new() -> (r: DownloadHistory)
        ensures
            r.downloads@.len() == 0,
    {
        DownloadHistory { downloads: Vec::new() }
    }

    /// Appends a finished download.
    pub fn add(&mut self, download: CompletedDownload)
        ensures
            final(self).downloads@ == old(self).downloads@.push(download),
    {
        self.downloads.push(download);
    }
}

impl Default for DownloadHistory {
    fn default() -> (r: DownloadHistory)
        ensures
            r.downloads@.len() == 0,
    {
        DownloadHistory::new()
    }
}

/// The processor architectures that bundled executables exist for.
#[derive(Clone, Copy, Debug, PartialEq, Eq, Structural)]
pub enum Architecture {
    X86_64,
    Aarch64,
}

pub open spec fn arch_dir(a: Architecture) -> Seq<char> {
    match a {
        Architecture::X86_64 => "x86_64"@,
        Architecture::Aarch64 => "aarch64"@,
    }
}

impl Architecture {
    /// The architecture named `name` (as `std::env::consts::ARCH` names it);
    /// any other name is taken as x86_64.
    pub fn from_name(name: &str) -> (r: Architecture)
        ensures
            r == (if name@ == "aarch64"@ {
                Architecture::Aarch64
            } else {
                Architecture::X86_64
            }),
    {
        if crate::text::same_text(name, "aarch64") {
            Architecture::Aarch64
        } else {
            Architecture::X86_64
        }
    }

    /// The directory name of the architecture's bundled executables.
    pub fn dir_name(&self) -> (r: &'static str)
        ensures
            r@ == arch_dir(*self),
    {
        match self {
            Architecture::X86_64 => "x86_64",
            Architecture::Aarch64 => "aarch64",
        }
    }
}

} // verus!
