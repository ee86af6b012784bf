//! The progress model and the parser that reads it from one line of the
//! extractor's standard output.
use vstd::prelude::*;
use crate::text::{
    chars_of, contains, contains_lit, lit_end, digit_value, digits_end, find_lit, first_match_from,
    is_digit, lemma_digits_end_facts, lemma_first_match_found, lemma_pow10_monotone,
    lemma_pow10_positive, lemma_spaces_end_facts, matches_at, numeral, pow10,
    skip_digits, skip_spaces, spaces_end,
};

verus! {

/// The most digits a number in a progress line may have; a longer one is not read.
pub const MAX_NUMBER_DIGITS: u64 = 19;

/// A non-negative decimal number exactly as written: `mantissa / 10^scale`.
#[derive(Clone, Copy, Debug, PartialEq, Eq, Structural)]
pub struct Decimal {
    pub mantissa: u64,
    pub scale: u32,
}

/// `a <= b` as numbers.
pub open spec fn dec_le(a: Decimal, b: Decimal) -> bool {
    a.mantissa * pow10(b.scale as nat) <= b.mantissa * pow10(a.scale as nat)
}

pub proof fn lemma_pow10_add(x: nat, y: nat)
    ensures
        pow10(x + y) == pow10(x) * pow10(y),
    decreases y,
{
    if y > 0 {
        lemma_pow10_add(x, (y - 1) as nat);
        assert(pow10(x + y) == 10 * pow10((x + y - 1) as nat));
        assert(pow10(y) == 10 * pow10((y - 1) as nat));
        assert(10 * (pow10(x) * pow10((y - 1) as nat)) == pow10(x) * (10 * pow10((y - 1) as nat)))
            by (nonlinear_arith);
        assert(x + (y - 1) as nat == (x + y - 1) as nat);
    } else {
        assert(pow10(0) == 1);
        assert(x + y == x);
    }
}

/// `x * c <= y * c` when `c > 0` exactly when `x <= y`.
proof fn lemma_scale_le(x: int, y: int, c: int)
    requires
        c > 0,
    ensures
        (x * c <= y * c) == (x <= y),
{
    if x <= y {
        assert(x * c <= y * c) by (nonlinear_arith)
            requires
                x <= y,
                c > 0,
        ;
    } else {
        assert(x * c > y * c) by (nonlinear_arith)
            requires
                x > y,
                c > 0,
        ;
    }
}

impl Decimal {
    /// Whether `self <= other` as numbers.
    pub fn at_most(&self, other: &Decimal) -> (r: bool)
        ensures
            r == dec_le(*self, *other),
    {
        let a = *self;
        let b = *other;
        proof {
            lemma_pow10_values();
            lemma_pow10_positive(a.scale as nat);
            lemma_pow10_positive(b.scale as nat);
        }
        if a.scale <= b.scale {
            let d = b.scale - a.scale;
            proof {
                lemma_pow10_add(a.scale as nat, d as nat);
                assert(a.mantissa * pow10(b.scale as nat) == (a.mantissa * pow10(d as nat)) * pow10(
                    a.scale as nat,
                )) by (nonlinear_arith)
                    requires
                        pow10(b.scale as nat) == pow10(a.scale as nat) * pow10(d as nat),
                ;
                lemma_scale_le(
                    (a.mantissa * pow10(d as nat)) as int,
                    b.mantissa as int,
                    pow10(a.scale as nat) as int,
                );
            }
            if d > 19 {
                proof {
                    lemma_pow10_monotone(20, d as nat);
                    reveal_with_fuel(pow10, 21);
                    if a.mantissa > 0 {
                        assert(a.mantissa * pow10(d as nat) >= pow10(d as nat)) by (nonlinear_arith)
                            requires
                                a.mantissa >= 1,
                                pow10(d as nat) >= 1,
                        ;
                    }
                }
                a.mantissa == 0
            } else {
                let p = pow10_exec(d);
                proof {
                    lemma_pow10_monotone(d as nat, 19);
                    assert(a.mantissa as nat * p <= 0xffff_ffff_ffff_ffff * 10000000000000000000)
                        by (nonlinear_arith)
                        requires
                            a.mantissa <= 0xffff_ffff_ffff_ffffu64,
                            p <= 10000000000000000000,
                    ;
                }
                (a.mantissa as u128) * p <= b.mantissa as u128
            }
        } else {
            let d = a.scale - b.scale;
            proof {
                lemma_pow10_add(b.scale as nat, d as nat);
                assert(b.mantissa * pow10(a.scale as nat) == (b.mantissa * pow10(d as nat)) * pow10(
                    b.scale as nat,
                )) by (nonlinear_arith)
                    requires
                        pow10(a.scale as nat) == pow10(b.scale as nat) * pow10(d as nat),
                ;
                lemma_scale_le(
                    a.mantissa as int,
                    (b.mantissa * pow10(d as nat)) as int,
                    pow10(b.scale as nat) as int,
                );
            }
            if d > 19 {
                proof {
                    lemma_pow10_monotone(20, d as nat);
                    reveal_with_fuel(pow10, 21);
                    if b.mantissa > 0 {
                        assert(b.mantissa * pow10(d as nat) >= pow10(d as nat)) by (nonlinear_arith)
                            requires
                                b.mantissa >= 1,
                                pow10(d as nat) >= 1,
                        ;
                    }
                }
                b.mantissa != 0 || a.mantissa == 0
            } else {
                let p = pow10_exec(d);
                proof {
                    lemma_pow10_monotone(d as nat, 19);
                    assert(b.mantissa as nat * p <= 0xffff_ffff_ffff_ffff * 10000000000000000000)
                        by (nonlinear_arith)
                        requires
                            b.mantissa <= 0xffff_ffff_ffff_ffffu64,
                            p <= 10000000000000000000,
                    ;
                }
                a.mantissa as u128 <= (b.mantissa as u128) * p
            }
        }
    }

    /// The integer `n`.
    pub fn whole(n: u64) -> (r: Decimal)
        ensures
            r.mantissa == n,
            r.scale == 0,
    {
        Decimal { mantissa: n, scale: 0 }
    }
}

/// A normalized progress record. Sizes are in bytes, `speed` in bytes per
/// second (rounded down), `eta` in seconds.
#[derive(Clone, Copy, Debug, PartialEq, Eq, Structural)]
pub struct DownloadProgress {
    pub percentage: Decimal,
    pub downloaded_bytes: u64,
    pub total_bytes: u64,
    pub speed: u64,
    pub eta: u64,
}

/// A record with the given percentage and every other field zero.
pub open spec fn marker_progress(percent: u64) -> DownloadProgress {
    DownloadProgress {
        percentage: Decimal { mantissa: percent, scale: 0 },
        downloaded_bytes: 0,
        total_bytes: 0,
        speed: 0,
        eta: 0,
    }
}

/// The percentage is at least 100.
pub open spec fn is_complete(p: DownloadProgress) -> bool {
    p.percentage.mantissa >= 100 * pow10(p.percentage.scale as nat)
}

/// The number `digits[.digits]` that starts at `i`, with where it ends.
pub open spec fn spec_number(s: Seq<char>, i: int) -> Option<(Decimal, int)> {
    let a = digits_end(s, i);
    if a == i {
        None
    } else if a < s.len() && s[a] == '.' {
        let b = digits_end(s, a + 1);
        if b - i - 1 > MAX_NUMBER_DIGITS {
            None
        } else {
            Some(
                (
                    Decimal {
                        mantissa: (numeral(s, i, a) * pow10((b - a - 1) as nat) + numeral(
                            s,
                            a + 1,
                            b,
                        )) as u64,
                        scale: (b - a - 1) as u32,
                    },
                    b,
                ),
            )
        }
    } else if a - i > MAX_NUMBER_DIGITS {
        None
    } else {
        Some((Decimal { mantissa: numeral(s, i, a) as u64, scale: 0 }, a))
    }
}

/// A binary size unit at `i` (`KiB`, `MiB`, `GiB` or `B`): its size in bytes and where it ends.
pub open spec fn spec_unit(s: Seq<char>, i: int) -> Option<(nat, int)> {
    if matches_at(s, i, "KiB"@) {
        Some((1024, i + "KiB"@.len()))
    } else if matches_at(s, i, "MiB"@) {
        Some((1024 * 1024, i + "MiB"@.len()))
    } else if matches_at(s, i, "GiB"@) {
        Some((1024 * 1024 * 1024, i + "GiB"@.len()))
    } else if matches_at(s, i, "B"@) {
        Some((1, i + "B"@.len()))
    } else {
        None
    }
}

/// One or more spaces, `word`, one or more spaces: where what follows starts.
pub open spec fn spec_keyword(s: Seq<char>, i: int, word: Seq<char>) -> Option<int> {
    let a = spaces_end(s, i);
    let b = spaces_end(s, a + word.len());
    if a > i && matches_at(s, a, word) && b > a + word.len() {
        Some(b)
    } else {
        None
    }
}

/// Where the text after the first `[download]` marker starts.
pub open spec fn spec_body_start(s: Seq<char>) -> Option<int> {
    match first_match_from(s, "[download]"@, 0) {
        Some(m) => Some(m + "[download]"@.len()),
        None => None,
    }
}

/// A number that starts at `j` (no digit or `.` before it) and is
/// immediately followed by `%`.
pub open spec fn percent_at(s: Seq<char>, j: int) -> Option<(Decimal, int)> {
    if 0 <= j < s.len() && (j == 0 || !(is_digit(s[j - 1]) || s[j - 1] == '.')) {
        match spec_number(s, j) {
            Some((d, e)) => if e < s.len() && s[e] == '%' {
                Some((d, e + 1))
            } else {
                None
            },
            None => None,
        }
    } else {
        None
    }
}

/// The first number at or after `i` immediately followed by `%`, with
/// where the `%` ends.
pub open spec fn spec_percent_part(s: Seq<char>, i: int) -> Option<(Decimal, int)>
    decreases s.len() - i,
{
    if i < 0 || i >= s.len() {
        None
    } else {
        match percent_at(s, i) {
            Some(x) => Some(x),
            None => spec_percent_part(s, i + 1),
        }
    }
}

/// ` of [~]<number><unit>` from `i`.
pub open spec fn spec_size_part(s: Seq<char>, i: int) -> Option<(Decimal, nat, int)> {
    match spec_keyword(s, i, "of"@) {
        Some(a) => {
            let b = if a < s.len() && s[a] == '~' {
                a + 1
            } else {
                a
            };
            match spec_number(s, b) {
                Some((d, e)) => match spec_unit(s, e) {
                    Some((u, f)) => Some((d, u, f)),
                    None => None,
                },
                None => None,
            }
        },
        None => None,
    }
}

/// ` at <number><unit>/s` from `i`.
pub open spec fn spec_speed_part(s: Seq<char>, i: int) -> Option<(Decimal, nat, int)> {
    match spec_keyword(s, i, "at"@) {
        Some(a) => match spec_number(s, a) {
            Some((d, e)) => match spec_unit(s, e) {
                Some((u, f)) => if matches_at(s, f, "/s"@) {
                    Some((d, u, f + "/s"@.len()))
                } else {
                    None
                },
                None => None,
            },
            None => None,
        },
        None => None,
    }
}

/// A run of one to `MAX_NUMBER_DIGITS` digits at `i`: its value and where it ends.
pub open spec fn spec_group(s: Seq<char>, i: int) -> Option<(nat, int)> {
    let a = digits_end(s, i);
    if a == i || a - i > MAX_NUMBER_DIGITS {
        None
    } else {
        Some((numeral(s, i, a), a))
    }
}

/// `MM:SS` or `HH:MM:SS` at `i`, in seconds.
pub open spec fn spec_clock(s: Seq<char>, i: int) -> Option<nat> {
    match spec_group(s, i) {
        Some((g1, a)) => if a < s.len() && s[a] == ':' {
            match spec_group(s, a + 1) {
                Some((g2, b)) => if b < s.len() && s[b] == ':' && digits_end(s, b + 1) > b + 1 {
                    match spec_group(s, b + 1) {
                        Some((g3, c)) => Some(g1 * 3600 + g2 * 60 + g3),
                        None => None,
                    }
                } else {
                    Some(g1 * 60 + g2)
                },
                None => None,
            }
        } else {
            None
        },
        None => None,
    }
}

/// ` ETA <clock>` from `i`, in seconds, if it fits in a `u64`.
pub open spec fn spec_eta_part(s: Seq<char>, i: int) -> Option<u64> {
    match spec_keyword(s, i, "ETA"@) {
        Some(a) => spec_clock_secs(s, a),
        None => None,
    }
}

/// `spec_clock` if it fits in a `u64`.
pub open spec fn spec_clock_secs(s: Seq<char>, i: int) -> Option<u64> {
    match spec_clock(s, i) {
        Some(v) => if v <= u64::MAX {
            Some(v as u64)
        } else {
            None
        },
        None => None,
    }
}

/// `d * unit` bytes, rounded down, if it fits in a `u64`.
pub open spec fn spec_to_bytes(d: Decimal, unit: nat) -> Option<u64> {
    let v = (d.mantissa as nat * unit) / pow10(d.scale as nat);
    if v <= u64::MAX {
        Some(v as u64)
    } else {
        None
    }
}

/// `percentage / 100 * total`, rounded down, if it fits in a `u64`.
pub open spec fn spec_share(percentage: Decimal, total: u64) -> Option<u64> {
    let v = (percentage.mantissa as nat * total as nat) / (100 * pow10(percentage.scale as nat));
    if v <= u64::MAX {
        Some(v as u64)
    } else {
        None
    }
}

/// Positions in `Option`s of exec results, as `int`.
pub open spec fn at_int<T>(r: Option<(T, usize)>) -> Option<(T, int)> {
    match r {
        Some((v, e)) => Some((v, e as int)),
        None => None,
    }
}

/// The first `[download]` marker and the percentage that follows it.
pub open spec fn spec_after_percent(s: Seq<char>) -> Option<(Decimal, int)> {
    match spec_body_start(s) {
        Some(p) => spec_percent_part(s, p),
        None => None,
    }
}

/// The percentage, then the total size and its unit.
pub open spec fn spec_after_size(s: Seq<char>) -> Option<(Decimal, Decimal, nat, int)> {
    match spec_after_percent(s) {
        Some((p, e)) => match spec_size_part(s, e) {
            Some((d, u, f)) => Some((p, d, u, f)),
            None => None,
        },
        None => None,
    }
}

/// The percentage, the total size, then the speed and its unit.
pub open spec fn spec_after_speed(s: Seq<char>) -> Option<(Decimal, Decimal, nat, Decimal, nat, int)> {
    match spec_after_size(s) {
        Some((p, d, u, e)) => match spec_speed_part(s, e) {
            Some((sd, su, f)) => Some((p, d, u, sd, su, f)),
            None => None,
        },
        None => None,
    }
}

/// The percentage of a progress line.
pub open spec fn spec_percentage(s: Seq<char>) -> Option<Decimal> {
    match spec_after_percent(s) {
        Some((p, _)) => Some(p),
        None => None,
    }
}

/// `(downloaded, total)` bytes of a progress line.
pub open spec fn spec_bytes(s: Seq<char>) -> Option<(u64, u64)> {
    match spec_after_size(s) {
        Some((p, d, u, _)) => match spec_to_bytes(d, u) {
            Some(total) => match spec_share(p, total) {
                Some(done) => Some((done, total)),
                None => None,
            },
            None => None,
        },
        None => None,
    }
}

/// The speed of a progress line, in bytes per second.
pub open spec fn spec_speed(s: Seq<char>) -> Option<u64> {
    match spec_after_speed(s) {
        Some((_, _, _, sd, su, _)) => spec_to_bytes(sd, su),
        None => None,
    }
}

/// The ETA of a progress line, in seconds.
pub open spec fn spec_eta(s: Seq<char>) -> Option<u64> {
    match spec_after_speed(s) {
        Some((_, _, _, _, _, e)) => spec_eta_part(s, e),
        None => None,
    }
}

/// The record of a line in the generic `<pct>% of <size> at <speed>/s ETA <time>`
/// shape; `None` as soon as any field does not read.
pub open spec fn spec_generic_progress(s: Seq<char>) -> Option<DownloadProgress> {
    match (spec_percentage(s), spec_bytes(s), spec_speed(s), spec_eta(s)) {
        (Some(p), Some((done, total)), Some(speed), Some(eta)) => Some(
            DownloadProgress {
                percentage: p,
                downloaded_bytes: done,
                total_bytes: total,
                speed,
                eta,
            },
        ),
        _ => None,
    }
}

/// What one line of extractor output says about progress, the first rule that
/// applies winning: no `[download]` marker, nothing; a destination line, 0%; an
/// artifact that already exists, 100%; a completion line, 100%; else the
/// generic shape.
pub open spec fn spec_parse_progress_line(s: Seq<char>) -> Option<DownloadProgress> {
    if !contains(s, "[download]"@) {
        None
    } else if contains(s, "[download] Destination:"@) {
        Some(marker_progress(0))
    } else if contains(s, "has already been downloaded"@) {
        Some(marker_progress(100))
    } else if contains(s, "[download] 100%"@) || contains(s, "[download]  100%"@) {
        Some(marker_progress(100))
    } else {
        spec_generic_progress(s)
    }
}

pub proof fn lemma_pow10_values()
    ensures
        pow10(18) == 1000000000000000000,
        pow10(19) == 10000000000000000000,
        pow10(21) == 1000000000000000000000,
{
    reveal_with_fuel(pow10, 22);
}

fn pow10_exec(n: u32) -> (r: u128)
    requires
        n <= 19,
    ensures
        r == pow10(n as nat),
{
    proof {
        lemma_pow10_values();
        lemma_pow10_monotone(n as nat, 19);
    }
    let mut r: u128 = 1;
    let mut k: u32 = 0;
    while k < n
        invariant
            k <= n <= 19,
            r == pow10(k as nat),
            pow10(19) == 10000000000000000000,
        decreases n - k,
    {
        proof {
            lemma_pow10_monotone((k + 1) as nat, 19);
        }
        r = r * 10;
        k = k + 1;
    }
    r
}

/// Reads the digits `s[from..to]` after `m0`, which already holds `count0` digits.
fn read_digits(s: &Vec<char>, from: usize, to: usize, m0: u64, count0: u64) -> (r: u64)
    requires
        from <= to <= s@.len(),
        forall|k: int| from <= k < to ==> is_digit(#[trigger] s@[k]),
        m0 < pow10(count0 as nat),
        count0 + (to - from) <= MAX_NUMBER_DIGITS,
    ensures
        r == m0 * pow10((to - from) as nat) + numeral(s@, from as int, to as int),
        r < pow10((count0 + to - from) as nat),
{
    proof {
        lemma_pow10_values();
        assert(pow10(0) == 1);
        assert(pow10((from - from) as nat) == 1);
        assert(m0 * pow10((from - from) as nat) == m0);
        assert(numeral(s@, from as int, from as int) == 0);
    }
    let mut m = m0;
    let mut k = from;
    while k < to
        invariant
            from <= k <= to <= s@.len(),
            forall|j: int| from <= j < to ==> is_digit(#[trigger] s@[j]),
            count0 + (to - from) <= MAX_NUMBER_DIGITS,
            m == m0 * pow10((k - from) as nat) + numeral(s@, from as int, k as int),
            m < pow10((count0 + k - from) as nat),
            pow10(18) == 1000000000000000000,
        decreases to - k,
    {
        let c = s[k];
        assert(is_digit(s@[k as int]));
        let d = (c as u32 - '0' as u32) as u64;
        assert(d == digit_value(s@[k as int]));
        let ghost cnt = (count0 + k - from) as nat;
        let ghost p = pow10((k - from) as nat);
        let ghost n = numeral(s@, from as int, k as int);
        proof {
            lemma_pow10_monotone(cnt, 18);
            assert(pow10(cnt + 1) == 10 * pow10(cnt));
            assert(pow10((k + 1 - from) as nat) == 10 * p);
            assert(m * 10 + d < 10 * pow10(cnt)) by (nonlinear_arith)
                requires
                    m < pow10(cnt),
                    d <= 9,
            ;
            assert((m0 * p + n) * 10 + d == m0 * (10 * p) + (n * 10 + d)) by (nonlinear_arith);
            assert(numeral(s@, from as int, k + 1) == n * 10 + d);
        }
        m = m * 10 + d;
        k = k + 1;
    }
    m
}

/// Reads the number `digits[.digits]` that starts at `i`.
pub fn parse_number(s: &Vec<char>, i: usize) -> (r: Option<(Decimal, usize)>)
    requires
        i <= s@.len(),
    ensures
        at_int(r) == spec_number(s@, i as int),
        r matches Some((d, e)) ==> d.scale <= MAX_NUMBER_DIGITS && i < e <= s@.len(),
{
    proof {
        lemma_pow10_values();
        lemma_digits_end_facts(s@, i as int);
    }
    let a = skip_digits(s, i);
    if a == i {
        return None;
    }
    if a < s.len() && s[a] == '.' {
        proof {
            lemma_digits_end_facts(s@, a + 1);
        }
        let b = skip_digits(s, a + 1);
        if b - i - 1 > 19 {
            return None;
        }
        let n = read_digits(s, i, a, 0, 0);
        let m = read_digits(s, a + 1, b, n, (a - i) as u64);
        proof {
            lemma_pow10_monotone((a - i + b - (a + 1)) as nat, 19);
        }
        Some((Decimal { mantissa: m, scale: (b - a - 1) as u32 }, b))
    } else {
        if a - i > 19 {
            return None;
        }
        let n = read_digits(s, i, a, 0, 0);
        proof {
            lemma_pow10_monotone((a - i) as nat, 19);
        }
        Some((Decimal { mantissa: n, scale: 0 }, a))
    }
}

fn parse_unit(s: &Vec<char>, i: usize) -> (r: Option<(u64, usize)>)
    requires
        i <= s@.len(),
    ensures
        spec_unit(s@, i as int) == (match r {
            Some((u, e)) => Some((u as nat, e as int)),
            None => None,
        }),
        r matches Some((u, e)) ==> u <= 1024 * 1024 * 1024 && e <= s@.len(),
{
    if let Some(e) = lit_end(s, i, "KiB") {
        Some((1024, e))
    } else if let Some(e) = lit_end(s, i, "MiB") {
        Some((1024 * 1024, e))
    } else if let Some(e) = lit_end(s, i, "GiB") {
        Some((1024 * 1024 * 1024, e))
    } else if let Some(e) = lit_end(s, i, "B") {
        Some((1, e))
    } else {
        None
    }
}

fn parse_keyword(s: &Vec<char>, i: usize, word: &str) -> (r: Option<usize>)
    requires
        i <= s@.len(),
    ensures
        spec_keyword(s@, i as int, word@) == (match r {
            Some(e) => Some(e as int),
            None => None,
        }),
        r matches Some(e) ==> e <= s@.len(),
{
    proof {
        lemma_spaces_end_facts(s@, i as int);
    }
    let a = skip_spaces(s, i);
    if a <= i {
        return None;
    }
    if let Some(e) = lit_end(s, a, word) {
        proof {
            lemma_spaces_end_facts(s@, e as int);
        }
        let b = skip_spaces(s, e);
        if b > e {
            return Some(b);
        }
    }
    None
}

fn parse_percent_part(s: &Vec<char>, i: usize) -> (r: Option<(Decimal, usize)>)
    requires
        i <= s@.len(),
    ensures
        at_int(r) == spec_percent_part(s@, i as int),
        r matches Some((d, e)) ==> d.scale <= MAX_NUMBER_DIGITS && e <= s@.len(),
{
    let mut j = i;
    while j < s.len()
        invariant
            i <= j <= s@.len(),
            spec_percent_part(s@, j as int) == spec_percent_part(s@, i as int),
        decreases s@.len() - j,
    {
        if j == 0 || !(('0' <= s[j - 1] && s[j - 1] <= '9') || s[j - 1] == '.') {
            if let Some((d, e)) = parse_number(s, j) {
                if e < s.len() && s[e] == '%' {
                    return Some((d, e + 1));
                }
            }
        }
        j = j + 1;
    }
    None
}

fn parse_size_part(s: &Vec<char>, i: usize) -> (r: Option<(Decimal, u64, usize)>)
    requires
        i <= s@.len(),
    ensures
        spec_size_part(s@, i as int) == (match r {
            Some((d, u, e)) => Some((d, u as nat, e as int)),
            None => None,
        }),
        r matches Some((d, u, e)) ==> d.scale <= MAX_NUMBER_DIGITS && u <= 1024 * 1024 * 1024
            && e <= s@.len(),
{
    match parse_keyword(s, i, "of") {
        Some(a) => {
            let b = if a < s.len() && s[a] == '~' {
                a + 1
            } else {
                a
            };
            match parse_number(s, b) {
                Some((d, e)) => match parse_unit(s, e) {
                    Some((u, f)) => Some((d, u, f)),
                    None => None,
                },
                None => None,
            }
        },
        None => None,
    }
}

fn parse_speed_part(s: &Vec<char>, i: usize) -> (r: Option<(Decimal, u64, usize)>)
    requires
        i <= s@.len(),
    ensures
        spec_speed_part(s@, i as int) == (match r {
            Some((d, u, e)) => Some((d, u as nat, e as int)),
            None => None,
        }),
        r matches Some((d, u, e)) ==> d.scale <= MAX_NUMBER_DIGITS && u <= 1024 * 1024 * 1024
            && e <= s@.len(),
{
    match parse_keyword(s, i, "at") {
        Some(a) => match parse_number(s, a) {
            Some((d, e)) => match parse_unit(s, e) {
                Some((u, f)) => {
                    match lit_end(s, f, "/s") {
                        Some(g) => Some((d, u, g)),
                        None => None,
                    }
                },
                None => None,
            },
            None => None,
        },
        None => None,
    }
}

fn parse_group(s: &Vec<char>, i: usize) -> (r: Option<(u64, usize)>)
    requires
        i <= s@.len(),
    ensures
        spec_group(s@, i as int) == (match r {
            Some((v, e)) => Some((v as nat, e as int)),
            None => None,
        }),
        r matches Some((v, e)) ==> i < e <= s@.len(),
{
    proof {
        lemma_digits_end_facts(s@, i as int);
        lemma_pow10_values();
    }
    let a = skip_digits(s, i);
    if a == i || a - i > 19 {
        return None;
    }
    let v = read_digits(s, i, a, 0, 0);
    proof {
        assert(pow10(0) == 1);
    }
    Some((v, a))
}

fn parse_clock(s: &Vec<char>, i: usize) -> (r: Option<u64>)
    requires
        i <= s@.len(),
    ensures
        r == spec_clock_secs(s@, i as int),
{
    let (g1, a) = match parse_group(s, i) {
        Some(p) => p,
        None => return None,
    };
    if !(a < s.len() && s[a] == ':') {
        return None;
    }
    let (g2, b) = match parse_group(s, a + 1) {
        Some(p) => p,
        None => return None,
    };
    if b < s.len() && s[b] == ':' && skip_digits(s, b + 1) > b + 1 {
        let (g3, c) = match parse_group(s, b + 1) {
            Some(p) => p,
            None => return None,
        };
        let v: u128 = g1 as u128 * 3600 + g2 as u128 * 60 + g3 as u128;
        if v <= u64::MAX as u128 {
            Some(v as u64)
        } else {
            None
        }
    } else {
        let v: u128 = g1 as u128 * 60 + g2 as u128;
        if v <= u64::MAX as u128 {
            Some(v as u64)
        } else {
            None
        }
    }
}

fn parse_eta_part(s: &Vec<char>, i: usize) -> (r: Option<u64>)
    requires
        i <= s@.len(),
    ensures
        r == spec_eta_part(s@, i as int),
{
    match parse_keyword(s, i, "ETA") {
        Some(a) => parse_clock(s, a),
        None => None,
    }
}

fn to_bytes(d: Decimal, unit: u64) -> (r: Option<u64>)
    requires
        d.scale <= MAX_NUMBER_DIGITS,
        unit <= 1024 * 1024 * 1024,
    ensures
        r == spec_to_bytes(d, unit as nat),
{
    let p = pow10_exec(d.scale);
    proof {
        lemma_pow10_positive(d.scale as nat);
        assert(d.mantissa as nat * unit as nat <= 0xffff_ffff_ffff_ffff * 1024 * 1024 * 1024)
            by (nonlinear_arith)
            requires
                d.mantissa <= 0xffff_ffff_ffff_ffffu64,
                unit <= 1024 * 1024 * 1024,
        ;
    }
    let v: u128 = (d.mantissa as u128) * (unit as u128) / p;
    if v <= u64::MAX as u128 {
        Some(v as u64)
    } else {
        None
    }
}

fn share(percentage: Decimal, total: u64) -> (r: Option<u64>)
    requires
        percentage.scale <= MAX_NUMBER_DIGITS,
    ensures
        r == spec_share(percentage, total),
{
    let p = pow10_exec(percentage.scale);
    proof {
        lemma_pow10_positive(percentage.scale as nat);
        lemma_pow10_values();
        lemma_pow10_monotone(percentage.scale as nat, 19);
        assert(percentage.mantissa as nat * total as nat <= 0xffff_ffff_ffff_ffff
            * 0xffff_ffff_ffff_ffff) by (nonlinear_arith)
            requires
                percentage.mantissa <= 0xffff_ffff_ffff_ffffu64,
                total <= 0xffff_ffff_ffff_ffffu64,
        ;
    }
    let v: u128 = (percentage.mantissa as u128) * (total as u128) / (100 * p);
    if v <= u64::MAX as u128 {
        Some(v as u64)
    } else {
        None
    }
}

fn scan_after_percent(s: &Vec<char>) -> (r: Option<(Decimal, usize)>)
    ensures
        at_int(r) == spec_after_percent(s@),
        r matches Some((d, e)) ==> d.scale <= MAX_NUMBER_DIGITS && e <= s@.len(),
{
    match find_lit(s, "[download]") {
        Some(m) => {
            let ghost lit = "[download]"@;
            assert(matches_at(s@, m as int, lit)) by {
                lemma_first_match_found(s@, lit, 0);
            }
            match lit_end(s, m, "[download]") {
                Some(p) => parse_percent_part(s, p),
                None => None,
            }
        },
        None => None,
    }
}


fn scan_after_size(s: &Vec<char>) -> (r: Option<(Decimal, Decimal, u64, usize)>)
    ensures
        spec_after_size(s@) == (match r {
            Some((p, d, u, e)) => Some((p, d, u as nat, e as int)),
            None => None,
        }),
        r matches Some((p, d, u, e)) ==> p.scale <= MAX_NUMBER_DIGITS && d.scale
            <= MAX_NUMBER_DIGITS && u <= 1024 * 1024 * 1024 && e <= s@.len(),
{
    match scan_after_percent(s) {
        Some((p, e)) => match parse_size_part(s, e) {
            Some((d, u, f)) => Some((p, d, u, f)),
            None => None,
        },
        None => None,
    }
}

fn scan_after_speed(s: &Vec<char>) -> (r: Option<(Decimal, Decimal, u64, Decimal, u64, usize)>)
    ensures
        spec_after_speed(s@) == (match r {
            Some((p, d, u, sd, su, e)) => Some((p, d, u as nat, sd, su as nat, e as int)),
            None => None,
        }),
        r matches Some((p, d, u, sd, su, e)) ==> p.scale <= MAX_NUMBER_DIGITS && d.scale
            <= MAX_NUMBER_DIGITS && u <= 1024 * 1024 * 1024 && sd.scale <= MAX_NUMBER_DIGITS
            && su <= 1024 * 1024 * 1024 && e <= s@.len(),
{
    match scan_after_size(s) {
        Some((p, d, u, e)) => match parse_speed_part(s, e) {
            Some((sd, su, f)) => Some((p, d, u, sd, su, f)),
            None => None,
        },
        None => None,
    }
}

/// The percentage of a progress line: the first number after the first
/// `[download]` marker that is immediately followed by `%`.
pub fn extract_percentage(line: &str) -> (r: Option<Decimal>)
    ensures
        r == spec_percentage(line@),
{
    let s = chars_of(line);
    match scan_after_percent(&s) {
        Some((p, _)) => Some(p),
        None => None,
    }
}

/// `(downloaded, total)` bytes of a progress line: the total is the size after
/// `of` in its binary unit, the downloaded part is the percentage of it.
pub fn extract_bytes(line: &str) -> (r: Option<(u64, u64)>)
    ensures
        r == spec_bytes(line@),
{
    let s = chars_of(line);
    match scan_after_size(&s) {
        Some((p, d, u, _)) => match to_bytes(d, u) {
            Some(total) => match share(p, total) {
                Some(done) => Some((done, total)),
                None => None,
            },
            None => None,
        },
        None => None,
    }
}

/// The speed of a progress line, in bytes per second, rounded down.
pub fn extract_speed(line: &str) -> (r: Option<u64>)
    ensures
        r == spec_speed(line@),
{
    let s = chars_of(line);
    match scan_after_speed(&s) {
        Some((_, _, _, sd, su, _)) => to_bytes(sd, su),
        None => None,
    }
}

/// The ETA of a progress line, in seconds; without an hours group the hours are 0.
pub fn extract_eta(line: &str) -> (r: Option<u64>)
    ensures
        r == spec_eta(line@),
{
    let s = chars_of(line);
    match scan_after_speed(&s) {
        Some((_, _, _, _, _, e)) => parse_eta_part(&s, e),
        None => None,
    }
}

fn marker(percent: u64) -> (r: DownloadProgress)
    ensures
        r == marker_progress(percent),
{
    DownloadProgress {
        percentage: Decimal::whole(percent),
        downloaded_bytes: 0,
        total_bytes: 0,
        speed: 0,
        eta: 0,
    }
}

/// Reads one line of extractor output; `None` when the line says nothing about
/// progress or does not fully read.
pub fn parse_progress_line(line: &str) -> (r: Option<DownloadProgress>)
    ensures
        r == spec_parse_progress_line(line@),
{
    let s = chars_of(line);
    if !contains_lit(&s, "[download]") {
        return None;
    }
    if contains_lit(&s, "[download] Destination:") {
        return Some(marker(0));
    }
    if contains_lit(&s, "has already been downloaded") {
        return Some(marker(100));
    }
    if contains_lit(&s, "[download] 100%") || contains_lit(&s, "[download]  100%") {
        return Some(marker(100));
    }
    let p = match extract_percentage(line) {
        Some(p) => p,
        None => return None,
    };
    let (done, total) = match extract_bytes(line) {
        Some(b) => b,
        None => return None,
    };
    let speed = match extract_speed(line) {
        Some(v) => v,
        None => return None,
    };
    let eta = match extract_eta(line) {
        Some(v) => v,
        None => return None,
    };
    Some(DownloadProgress { percentage: p, downloaded_bytes: done, total_bytes: total, speed, eta })
}

impl DownloadProgress {
    /// The record sent when the extractor exits successfully: 100%, other
    /// fields zero.
    pub fn completed() -> (r: DownloadProgress)
        ensures
            r == marker_progress(100),
    {
        marker(100)
    }

    /// Whether the percentage is at least 100.
    pub fn is_complete(&self) -> (r: bool)
        ensures
            r == is_complete(*self),
    {
        let scale = self.percentage.scale;
        if scale > 18 {
            proof {
                lemma_pow10_values();
                lemma_pow10_monotone(18, scale as nat);
            }
            return false;
        }
        proof {
            lemma_pow10_values();
            lemma_pow10_monotone(scale as nat, 18);
        }
        let p = pow10_exec(scale);
        (self.percentage.mantissa as u128) >= 100 * p
    }
}

} // verus!
