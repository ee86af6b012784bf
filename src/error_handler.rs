//! Disk-space verdicts, human-readable sizes, and friendly error messages.
use vstd::prelude::*;
use crate::error::DownloadError;
use crate::text::{
    append, chars_of, contains, contains_lit, dec_digits, lit_end, matches_at, push_decimal,
    string_of,
};

verus! {

/// The size assumed for a download of unknown size: 1 GiB.
pub const DEFAULT_REQUIRED_BYTES: u64 = 1024 * 1024 * 1024;

/// A message longer than this many bytes (in UTF-8) is cut.
pub const MAX_MESSAGE_BYTES: u64 = 200;

/// How many bytes of a long message are kept, before the ellipsis.
pub const CUT_MESSAGE_BYTES: u64 = 197;

/// Checks free space before a download.
pub struct DiskSpaceChecker;

/// Turns errors into messages for display.
pub struct ErrorMessageGenerator;

/// `1024^k`.
pub open spec fn pow1024(k: nat) -> nat
    decreases k,
{
    if k == 0 {
        1
    } else {
        1024 * pow1024((k - 1) as nat)
    }
}

/// The unit a size is shown in: the largest of B, KB, MB, GB, TB that the
/// size reaches.
pub open spec fn unit_index(bytes: nat) -> nat {
    if bytes >= pow1024(4) {
        4
    } else if bytes >= pow1024(3) {
        3
    } else if bytes >= pow1024(2) {
        2
    } else if bytes >= pow1024(1) {
        1
    } else {
        0
    }
}

pub open spec fn unit_name(k: nat) -> Seq<char> {
    if k == 0 {
        "B"@
    } else if k == 1 {
        "KB"@
    } else if k == 2 {
        "MB"@
    } else if k == 3 {
        "GB"@
    } else {
        "TB"@
    }
}

/// `bytes / 1024^k` in hundredths, rounded to nearest, ties to even.
pub open spec fn hundredths(bytes: nat, k: nat) -> nat {
    let d = pow1024(k);
    let q = bytes * 100 / d;
    let r = bytes * 100 % d;
    if 2 * r > d || (2 * r == d && q % 2 == 1) {
        q + 1
    } else {
        q
    }
}

/// Two decimal digits of `n < 100`, with a leading zero.
pub open spec fn two_digits(n: nat) -> Seq<char> {
    if n < 10 {
        "0"@ + dec_digits(n)
    } else {
        dec_digits(n)
    }
}

/// A size as `<whole>.<two digits> <unit>`.
pub open spec fn format_bytes_text(bytes: nat) -> Seq<char> {
    let k = unit_index(bytes);
    let h = hundredths(bytes, k);
    dec_digits(h / 100) + "."@ + two_digits(h % 100) + " "@ + unit_name(k)
}

/// The space a download needs: its estimate (1 GiB when unknown) plus 10%,
/// capped at the largest `u64`.
pub open spec fn required_with_buffer(estimated: Option<u64>) -> nat {
    let r = match estimated {
        Some(v) => v as nat,
        None => DEFAULT_REQUIRED_BYTES as nat,
    };
    if r + r / 10 > u64::MAX {
        u64::MAX as nat
    } else {
        r + r / 10
    }
}

/// `s` with every leading repetition of `p` removed.
pub open spec fn strip_all(s: Seq<char>, p: Seq<char>) -> Seq<char>
    decreases s.len(),
{
    if p.len() > 0 && matches_at(s, 0, p) {
        strip_all(s.subrange(p.len() as int, s.len() as int), p)
    } else {
        s
    }
}

/// The length of `c` in UTF-8.
pub open spec fn utf8_len(c: char) -> nat {
    if c <= '\u{7f}' {
        1
    } else if c <= '\u{7ff}' {
        2
    } else if c <= '\u{ffff}' {
        3
    } else {
        4
    }
}

/// The length of `s` in UTF-8.
pub open spec fn byte_len(s: Seq<char>) -> nat
    decreases s.len(),
{
    if s.len() == 0 {
        0
    } else {
        byte_len(s.drop_last()) + utf8_len(s.last())
    }
}

/// How many leading characters of `s` fit in `budget` bytes of UTF-8.
pub open spec fn fit_count(s: Seq<char>, budget: int) -> nat
    decreases s.len(),
{
    if s.len() == 0 || utf8_len(s[0]) > budget {
        0
    } else {
        1 + fit_count(s.subrange(1, s.len() as int), budget - utf8_len(s[0]))
    }
}

/// A technical message without its `ERROR: `, `Error: ` and `error: `
/// prefixes; over 200 bytes, cut to the characters that fit in 197 bytes
/// (exactly 197 where that is a character boundary) and an ellipsis.
pub open spec fn simplified(msg: Seq<char>) -> Seq<char> {
    let m = strip_all(strip_all(strip_all(msg, "ERROR: "@), "Error: "@), "error: "@);
    if byte_len(m) > MAX_MESSAGE_BYTES {
        m.subrange(0, fit_count(m, CUT_MESSAGE_BYTES as int) as int) + "..."@
    } else {
        m
    }
}

/// The friendly message of an error.
pub open spec fn friendly_text(e: DownloadError) -> Seq<char> {
    match e {
        DownloadError::Network(m) => if contains(m@, "timeout"@) {
            "Connection timed out. Please check your internet connection."@
        } else if contains(m@, "DNS"@) || contains(m@, "resolve"@) {
            "Could not resolve the server address. Check your DNS settings."@
        } else {
            "Network error: "@ + simplified(m@)
        },
        DownloadError::VideoUnavailable(m) => if contains(m@, "Private video"@) {
            "This video is private and cannot be downloaded."@
        } else if contains(m@, "removed"@) || contains(m@, "deleted"@) {
            "This video has been removed or deleted."@
        } else if contains(m@, "region"@) || contains(m@, "country"@) {
            "This video is not available in your region."@
        } else if contains(m@, "age"@) {
            "This video has age restrictions."@
        } else {
            "This video is not available for download."@
        },
        DownloadError::InsufficientSpace { required, available } => "Not enough disk space. Required: "@
            + format_bytes_text(required as nat) + ", Available: "@ + format_bytes_text(
            available as nat,
        ),
        DownloadError::InvalidUrl(m) => "Invalid URL: "@ + m@,
        DownloadError::YtdlpNotFound => "yt-dlp is not installed. Please install it using: brew install yt-dlp"@,
        DownloadError::DownloadFailed(m) => "Download failed: "@ + simplified(m@),
        DownloadError::PermissionDenied(m) => "Permission denied: "@ + m@
            + ". Please choose a different location."@,
        DownloadError::PlatformNotSupported(p) => "The platform '"@ + p@ + "' is not yet supported."@,
        DownloadError::DependencyMissing(d) => "Required dependency '"@ + d@
            + "' is missing. Please install it first."@,
        DownloadError::Cancelled => "Download was cancelled."@,
        DownloadError::Timeout => "The operation timed out. Please try again."@,
        DownloadError::Io(m) => "File system error: "@ + m@,
        DownloadError::Serialization(m) => "Data processing error: "@ + m@,
    }
}

proof fn lemma_pow1024_values()
    ensures
        pow1024(1) == 1024,
        pow1024(2) == 1048576,
        pow1024(3) == 1073741824,
        pow1024(4) == 1099511627776,
{
    reveal_with_fuel(pow1024, 5);
}

impl DiskSpaceChecker {
    /// A size in bytes as text: two decimals and the largest unit reached.
    pub fn format_bytes(bytes: u64) -> (r: String)
        ensures
            r@ == format_bytes_text(bytes as nat),
    {
        proof {
            lemma_pow1024_values();
        }
        let (k, d, unit): (u64, u128, &str) = if bytes >= 1099511627776 {
            (4, 1099511627776, "TB")
        } else if bytes >= 1073741824 {
            (3, 1073741824, "GB")
        } else if bytes >= 1048576 {
            (2, 1048576, "MB")
        } else if bytes >= 1024 {
            (1, 1024, "KB")
        } else {
            (0, 1, "B")
        };
        proof {
            assert(pow1024(0) == 1);
        }
        let scaled: u128 = bytes as u128 * 100;
        let q = scaled / d;
        let rem = scaled % d;
        let h: u128 = if 2 * rem > d || (2 * rem == d && q % 2 == 1) {
            q + 1
        } else {
            q
        };
        proof {
            assert(q <= scaled) by (nonlinear_arith)
                requires
                    q == scaled / d,
                    d >= 1,
            ;
        }
        let whole = (h / 100) as u64;
        let frac = (h % 100) as u64;
        let mut s = String::new();
        push_decimal(&mut s, whole);
        append(&mut s, ".");
        if frac < 10 {
            append(&mut s, "0");
        }
        push_decimal(&mut s, frac);
        append(&mut s, " ");
        append(&mut s, unit);
        proof {
            assert(s@ =~= format_bytes_text(bytes as nat));
        }
        s
    }

    /// The verdict on free space: `available` must cover the estimate
    /// (1 GiB when unknown) plus 10%.
    pub fn check_space(estimated_size: Option<u64>, available: u64) -> (r: Result<(), DownloadError>)
        ensures
            r is Ok == (available >= required_with_buffer(estimated_size)),
            r matches Err(e) ==> e == (DownloadError::InsufficientSpace {
                required: required_with_buffer(estimated_size) as u64,
                available,
            }),
    {
        let required = match estimated_size {
            Some(v) => v,
            None => DEFAULT_REQUIRED_BYTES,
        };
        let with_buffer = required.saturating_add(required / 10);
        if available < with_buffer {
            Err(DownloadError::InsufficientSpace { required: with_buffer, available })
        } else {
            Ok(())
        }
    }
}

/// `s` without leading repetitions of `p`.
fn strip_prefix_all(s: &Vec<char>, p: &str) -> (r: Vec<char>)
    ensures
        r@ == strip_all(s@, p@),
{
    let n = p.unicode_len();
    if n == 0 {
        return s.clone();
    }
    let mut start: usize = 0;
    proof {
        assert(s@.subrange(0, s@.len() as int) =~= s@);
    }
    loop
        invariant
            n == p@.len(),
            n > 0,
            start <= s@.len(),
            strip_all(s@, p@) == strip_all(s@.subrange(start as int, s@.len() as int), p@),
        ensures
            start <= s@.len(),
            strip_all(s@, p@) == s@.subrange(start as int, s@.len() as int),
        decreases s@.len() - start,
    {
        let ghost rest = s@.subrange(start as int, s@.len() as int);
        match lit_end(s, start, p) {
            Some(e) => {
                proof {
                    assert(matches_at(rest, 0, p@)) by {
                        assert(rest.subrange(0, n as int) =~= s@.subrange(start as int, e as int));
                    }
                    assert(rest.subrange(n as int, rest.len() as int) =~= s@.subrange(
                        e as int,
                        s@.len() as int,
                    ));
                }
                start = e;
            },
            None => {
                proof {
                    assert(!matches_at(rest, 0, p@)) by {
                        if matches_at(rest, 0, p@) {
                            assert(s@.subrange(start as int, start + n) =~= rest.subrange(0, n as int));
                        }
                    }
                    assert(strip_all(rest, p@) == rest);
                }
                break;
            },
        }
    }
    let mut r: Vec<char> = Vec::new();
    let mut i = start;
    while i < s.len()
        invariant
            start <= i <= s@.len(),
            r@ == s@.subrange(start as int, i as int),
        decreases s@.len() - i,
    {
        r.push(s[i]);
        proof {
            assert(s@.subrange(start as int, i + 1) =~= s@.subrange(start as int, i as int).push(s@[i as int]));
        }
        i = i + 1;
    }
    r
}

/// Appends the characters `v[from..to]` to `s`.
fn push_chars(s: &mut String, v: &Vec<char>, to: usize)
    requires
        to <= v@.len(),
    ensures
        final(s)@ == old(s)@ + v@.subrange(0, to as int),
{
    let text = string_of(v, to);
    append(s, text.as_str());
}

fn utf8_len_of(c: char) -> (r: u64)
    ensures
        r == utf8_len(c),
{
    if c <= '\u{7f}' {
        1
    } else if c <= '\u{7ff}' {
        2
    } else if c <= '\u{ffff}' {
        3
    } else {
        4
    }
}

/// The length of `s` in UTF-8.
fn utf8_byte_len(s: &Vec<char>) -> (r: u128)
    ensures
        r == byte_len(s@),
{
    let mut total: u128 = 0;
    let mut i: usize = 0;
    while i < s.len()
        invariant
            i <= s@.len(),
            total == byte_len(s@.subrange(0, i as int)),
            total <= 4 * i,
        decreases s@.len() - i,
    {
        proof {
            assert(s@.subrange(0, i + 1).drop_last() =~= s@.subrange(0, i as int));
        }
        total = total + utf8_len_of(s[i]) as u128;
        i = i + 1;
    }
    proof {
        assert(s@.subrange(0, i as int) =~= s@);
    }
    total
}

/// How many leading characters of `s` fit in `budget` bytes of UTF-8.
fn fitting_chars(s: &Vec<char>, budget: u64) -> (r: usize)
    ensures
        r == fit_count(s@, budget as int),
        r <= s@.len(),
{
    let mut k: usize = 0;
    let mut used: u64 = 0;
    proof {
        assert(s@.subrange(0, s@.len() as int) =~= s@);
    }
    while k < s.len() && utf8_len_of(s[k]) <= budget - used
        invariant
            k <= s@.len(),
            used <= budget,
            fit_count(s@, budget as int) == k + fit_count(
                s@.subrange(k as int, s@.len() as int),
                budget - used,
            ),
        decreases s@.len() - k,
    {
        proof {
            let rest = s@.subrange(k as int, s@.len() as int);
            assert(rest[0] == s@[k as int]);
            assert(rest.subrange(1, rest.len() as int) =~= s@.subrange(k + 1, s@.len() as int));
        }
        used = used + utf8_len_of(s[k]);
        k = k + 1;
    }
    proof {
        let rest = s@.subrange(k as int, s@.len() as int);
        if k < s@.len() {
            assert(rest[0] == s@[k as int]);
        }
    }
    k
}

impl ErrorMessageGenerator {
    /// A technical message for end users: without its `ERROR: `, `Error: `
    /// and `error: ` prefixes, and over 200 bytes cut to what fits in 197
    /// bytes, then `...`.
    pub fn simplify_technical_message(msg: &str) -> (r: String)
        ensures
            r@ == simplified(msg@),
    {
        let s0 = chars_of(msg);
        let s1 = strip_prefix_all(&s0, "ERROR: ");
        let s2 = strip_prefix_all(&s1, "Error: ");
        let s3 = strip_prefix_all(&s2, "error: ");
        let mut r = String::new();
        if utf8_byte_len(&s3) > MAX_MESSAGE_BYTES as u128 {
            let keep = fitting_chars(&s3, CUT_MESSAGE_BYTES);
            push_chars(&mut r, &s3, keep);
            append(&mut r, "...");
        } else {
            push_chars(&mut r, &s3, s3.len());
            proof {
                assert(s3@.subrange(0, s3@.len() as int) =~= s3@);
            }
        }
        proof {
            assert(r@ =~= simplified(msg@));
        }
        r
    }

    /// A message suitable for direct display.
    pub fn generate_friendly_message(error: &DownloadError) -> (r: String)
        ensures
            r@ == friendly_text(*error),
    {
        match error {
            DownloadError::Network(m) => {
                let s = chars_of(m.as_str());
                if contains_lit(&s, "timeout") {
                    String::from_str("Connection timed out. Please check your internet connection.")
                } else if contains_lit(&s, "DNS") || contains_lit(&s, "resolve") {
                    String::from_str("Could not resolve the server address. Check your DNS settings.")
                } else {
                    let mut r = String::from_str("Network error: ");
                    append(&mut r, Self::simplify_technical_message(m.as_str()).as_str());
                    r
                }
            },
            DownloadError::VideoUnavailable(m) => {
                let s = chars_of(m.as_str());
                if contains_lit(&s, "Private video") {
                    String::from_str("This video is private and cannot be downloaded.")
                } else if contains_lit(&s, "removed") || contains_lit(&s, "deleted") {
                    String::from_str("This video has been removed or deleted.")
                } else if contains_lit(&s, "region") || contains_lit(&s, "country") {
                    String::from_str("This video is not available in your region.")
                } else if contains_lit(&s, "age") {
                    String::from_str("This video has age restrictions.")
                } else {
                    String::from_str("This video is not available for download.")
                }
            },
            DownloadError::InsufficientSpace { required, available } => {
                let mut r = String::from_str("Not enough disk space. Required: ");
                append(&mut r, DiskSpaceChecker::format_bytes(*required).as_str());
                append(&mut r, ", Available: ");
                append(&mut r, DiskSpaceChecker::format_bytes(*available).as_str());
                r
            },
            DownloadError::InvalidUrl(m) => {
                let mut r = String::from_str("Invalid URL: ");
                append(&mut r, m.as_str());
                r
            },
            DownloadError::YtdlpNotFound => String::from_str(
                "yt-dlp is not installed. Please install it using: brew install yt-dlp",
            ),
            DownloadError::DownloadFailed(m) => {
                let mut r = String::from_str("Download failed: ");
                append(&mut r, Self::simplify_technical_message(m.as_str()).as_str());
                r
            },
            DownloadError::PermissionDenied(m) => {
                let mut r = String::from_str("Permission denied: ");
                append(&mut r, m.as_str());
                append(&mut r, ". Please choose a different location.");
                r
            },
            DownloadError::PlatformNotSupported(p) => {
                let mut r = String::from_str("The platform '");
                append(&mut r, p.as_str());
                append(&mut r, "' is not yet supported.");
                r
            },
            DownloadError::DependencyMissing(d) => {
                let mut r = String::from_str("Required dependency '");
                append(&mut r, d.as_str());
                append(&mut r, "' is missing. Please install it first.");
                r
            },
            DownloadError::Cancelled => String::from_str("Download was cancelled."),
            DownloadError::Timeout => String::from_str("The operation timed out. Please try again."),
            DownloadError::Io(m) => {
                let mut r = String::from_str("File system error: ");
                append(&mut r, m.as_str());
                r
            },
            DownloadError::Serialization(m) => {
                let mut r = String::from_str("Data processing error: ");
                append(&mut r, m.as_str());
                r
            },
        }
    }
}

} // verus!
