//! Character-level helpers shared by the parsers: literal matching, digit runs
//! and decimal numerals over `Seq<char>`.
use vstd::prelude::*;

verus! {

/// `10^n`.
pub open spec fn pow10(n: nat) -> nat
    decreases n,
{
    if n == 0 {
        1
    } else {
        10 * pow10((n - 1) as nat)
    }
}

pub open spec fn is_digit(c: char) -> bool {
    '0' <= c && c <= '9'
}

pub open spec fn digit_value(c: char) -> nat {
    (c as int - '0' as int) as nat
}

/// `lit` occurs in `s` starting at index `i`.
pub open spec fn matches_at(s: Seq<char>, i: int, lit: Seq<char>) -> bool {
    0 <= i && i + lit.len() <= s.len() && s.subrange(i, i + lit.len()) == lit
}

/// `lit` occurs somewhere in `s`.
pub open spec fn contains(s: Seq<char>, lit: Seq<char>) -> bool {
    exists|i: int| matches_at(s, i, lit)
}

/// The first index at or after `i` where `lit` occurs in `s`.
pub open spec fn first_match_from(s: Seq<char>, lit: Seq<char>, i: int) -> Option<int>
    decreases s.len() + 1 - i,
{
    if i < 0 || i + lit.len() > s.len() {
        None
    } else if matches_at(s, i, lit) {
        Some(i)
    } else {
        first_match_from(s, lit, i + 1)
    }
}

/// End of the (possibly empty) run of digits that starts at `i`.
pub open spec fn digits_end(s: Seq<char>, i: int) -> int
    decreases s.len() - i,
{
    if 0 <= i < s.len() && is_digit(s[i]) {
        digits_end(s, i + 1)
    } else {
        i
    }
}

/// End of the (possibly empty) run of spaces that starts at `i`.
pub open spec fn spaces_end(s: Seq<char>, i: int) -> int
    decreases s.len() - i,
{
    if 0 <= i < s.len() && s[i] == ' ' {
        spaces_end(s, i + 1)
    } else {
        i
    }
}

/// The digits `s[i..j]` read as a decimal numeral.
pub open spec fn numeral(s: Seq<char>, i: int, j: int) -> nat
    decreases j - i,
{
    if j <= i {
        0
    } else {
        numeral(s, i, j - 1) * 10 + digit_value(s[j - 1])
    }
}

pub proof fn lemma_pow10_positive(n: nat)
    ensures
        pow10(n) >= 1,
    decreases n,
{
    if n > 0 {
        lemma_pow10_positive((n - 1) as nat);
    }
}

pub proof fn lemma_pow10_monotone(a: nat, b: nat)
    requires
        a <= b,
    ensures
        pow10(a) <= pow10(b),
    decreases b,
{
    if a < b {
        lemma_pow10_monotone(a, (b - 1) as nat);
        lemma_pow10_positive((b - 1) as nat);
    }
}

/// The first match found from `i` is a match, at or after `i`.
pub proof fn lemma_first_match_found(s: Seq<char>, lit: Seq<char>, i: int)
    requires
        0 <= i,
    ensures
        first_match_from(s, lit, i) matches Some(m) ==> i <= m && matches_at(s, m, lit),
    decreases s.len() + 1 - i,
{
    if !(i < 0 || i + lit.len() > s.len()) && !matches_at(s, i, lit) {
        lemma_first_match_found(s, lit, i + 1);
    }
}

pub proof fn lemma_digits_end_facts(s: Seq<char>, i: int)
    requires
        0 <= i <= s.len(),
    ensures
        i <= digits_end(s, i) <= s.len(),
        forall|k: int| i <= k < digits_end(s, i) ==> is_digit(#[trigger] s[k]),
        digits_end(s, i) < s.len() ==> !is_digit(s[digits_end(s, i)]),
    decreases s.len() - i,
{
    if i < s.len() && is_digit(s[i]) {
        lemma_digits_end_facts(s, i + 1);
    }
}

pub proof fn lemma_spaces_end_facts(s: Seq<char>, i: int)
    requires
        0 <= i <= s.len(),
    ensures
        i <= spaces_end(s, i) <= s.len(),
    decreases s.len() - i,
{
    if i < s.len() && s[i] == ' ' {
        lemma_spaces_end_facts(s, i + 1);
    }
}

/// The character of decimal digit `d`.
pub open spec fn digit_char(d: nat) -> char {
    if d == 0 {
        '0'
    } else if d == 1 {
        '1'
    } else if d == 2 {
        '2'
    } else if d == 3 {
        '3'
    } else if d == 4 {
        '4'
    } else if d == 5 {
        '5'
    } else if d == 6 {
        '6'
    } else if d == 7 {
        '7'
    } else if d == 8 {
        '8'
    } else {
        '9'
    }
}

/// `n` written in decimal, without leading zeros.
pub open spec fn dec_digits(n: nat) -> Seq<char>
    decreases n,
{
    if n < 10 {
        seq![digit_char(n)]
    } else {
        dec_digits(n / 10).push(digit_char(n % 10))
    }
}

fn digit_text(d: u64) -> (r: &'static str)
    requires
        d < 10,
    ensures
        r@ == seq![digit_char(d as nat)],
{
    let r = if d == 0 {
        "0"
    } else if d == 1 {
        "1"
    } else if d == 2 {
        "2"
    } else if d == 3 {
        "3"
    } else if d == 4 {
        "4"
    } else if d == 5 {
        "5"
    } else if d == 6 {
        "6"
    } else if d == 7 {
        "7"
    } else if d == 8 {
        "8"
    } else {
        "9"
    };
    proof {
        reveal_strlit("0");
        reveal_strlit("1");
        reveal_strlit("2");
        reveal_strlit("3");
        reveal_strlit("4");
        reveal_strlit("5");
        reveal_strlit("6");
        reveal_strlit("7");
        reveal_strlit("8");
        reveal_strlit("9");
        assert(r@ =~= seq![digit_char(d as nat)]);
    }
    r
}

/// Appends `t` to `s`.
pub fn append(s: &mut String, t: &str)
    ensures
        final(s)@ == old(s)@ + t@,
{
    s.append(t);
}

/// Appends `n` in decimal to `s`.
pub fn push_decimal(s: &mut String, n: u64)
    ensures
        final(s)@ == old(s)@ + dec_digits(n as nat),
    decreases n,
{
    if n >= 10 {
        push_decimal(s, n / 10);
    }
    let ghost mid = s@;
    append(s, digit_text(n % 10));
    proof {
        if n >= 10 {
            assert(s@ =~= old(s)@ + dec_digits(n as nat));
        } else {
            assert(s@ =~= old(s)@ + dec_digits(n as nat));
        }
    }
}

/// `n` in decimal.
pub fn decimal_string(n: u64) -> (r: String)
    ensures
        r@ == dec_digits(n as nat),
{
    let mut s = String::new();
    push_decimal(&mut s, n);
    proof {
        assert(s@ =~= dec_digits(n as nat));
    }
    s
}

/// Relies on `String::from_iter` over characters: the string of `v[..to]`.
#[verifier::external_body]
pub fn string_of(v: &Vec<char>, to: usize) -> (r: String)
    requires
        to <= v@.len(),
    ensures
        r@ == v@.subrange(0, to as int),
{
    v[..to].iter().collect()
}

/// A copy of `s`.
pub fn copy_text(s: &str) -> (r: String)
    ensures
        r@ == s@,
{
    String::from_str(s)
}

/// The characters `v[from..]` as a string.
pub fn suffix_of(v: &Vec<char>, from: usize) -> (r: String)
    requires
        from <= v@.len(),
    ensures
        r@ == v@.subrange(from as int, v@.len() as int),
{
    let mut rest: Vec<char> = Vec::new();
    let mut i = from;
    while i < v.len()
        invariant
            from <= i <= v@.len(),
            rest@ == v@.subrange(from as int, i as int),
        decreases v@.len() - i,
    {
        rest.push(v[i]);
        proof {
            assert(v@.subrange(from as int, i + 1) =~= v@.subrange(from as int, i as int).push(v@[i as int]));
        }
        i = i + 1;
    }
    let r = string_of(&rest, rest.len());
    proof {
        assert(rest@.subrange(0, rest@.len() as int) =~= rest@);
    }
    r
}

/// The characters of `s`, in order.
pub fn chars_of(s: &str) -> (r: Vec<char>)
    ensures
        r@ == s@,
{
    let n = s.unicode_len();
    let mut r: Vec<char> = Vec::new();
    let mut i: usize = 0;
    while i < n
        invariant
            n == s@.len(),
            i <= n,
            r@ == s@.subrange(0, i as int),
        decreases n - i,
    {
        r.push(s.get_char(i));
        i = i + 1;
    }
    r
}

/// Whether `lit` occurs in `s` at index `i`.
pub fn lit_at(s: &Vec<char>, i: usize, lit: &str) -> (r: bool)
    ensures
        r == matches_at(s@, i as int, lit@),
{
    let n = lit.unicode_len();
    let len = s.len();
    if i > len || n > len - i {
        return false;
    }
    let mut k: usize = 0;
    while k < n
        invariant
            n == lit@.len(),
            len == s@.len(),
            i + n <= s@.len(),
            k <= n,
            forall|j: int| 0 <= j < k ==> s@[i + j] == lit@[j],
        decreases n - k,
    {
        if s[i + k] != lit.get_char(k) {
            assert(s@.subrange(i as int, i + n)[k as int] != lit@[k as int]);
            return false;
        }
        k = k + 1;
    }
    assert(s@.subrange(i as int, i + n) =~= lit@);
    true
}

/// Whether two strings hold the same characters.
pub fn same_text(a: &str, b: &str) -> (r: bool)
    ensures
        r == (a@ == b@),
{
    let n = a.unicode_len();
    if n != b.unicode_len() {
        return false;
    }
    let mut k: usize = 0;
    while k < n
        invariant
            n == a@.len(),
            n == b@.len(),
            k <= n,
            forall|j: int| 0 <= j < k ==> a@[j] == b@[j],
        decreases n - k,
    {
        if a.get_char(k) != b.get_char(k) {
            return false;
        }
        k = k + 1;
    }
    assert(a@ =~= b@);
    true
}

/// Where `lit` ends if it occurs in `s` at index `i`.
pub fn lit_end(s: &Vec<char>, i: usize, lit: &str) -> (r: Option<usize>)
    ensures
        r is Some == matches_at(s@, i as int, lit@),
        r matches Some(e) ==> e == i + lit@.len() && e <= s@.len(),
{
    if lit_at(s, i, lit) && i <= s.len() {
        Some(i + lit.unicode_len())
    } else {
        None
    }
}

/// Whether `lit` occurs anywhere in `s`.
pub fn contains_lit(s: &Vec<char>, lit: &str) -> (r: bool)
    ensures
        r == contains(s@, lit@),
{
    let len = s.len();
    let mut i: usize = 0;
    loop
        invariant
            len == s@.len(),
            i <= len,
            forall|j: int| 0 <= j < i ==> !matches_at(s@, j, lit@),
        decreases len - i,
    {
        if lit_at(s, i, lit) {
            return true;
        }
        if i == len {
            assert forall|j: int| !matches_at(s@, j, lit@) by {
                if 0 <= j <= len {
                }
            }
            return false;
        }
        i = i + 1;
    }
}

/// End of the run of digits that starts at `i`.
pub fn skip_digits(s: &Vec<char>, i: usize) -> (r: usize)
    requires
        i <= s@.len(),
    ensures
        r as int == digits_end(s@, i as int),
{
    let mut j = i;
    while j < s.len() && '0' <= s[j] && s[j] <= '9'
        invariant
            i <= j <= s@.len(),
            digits_end(s@, j as int) == digits_end(s@, i as int),
        decreases s@.len() - j,
    {
        j = j + 1;
    }
    j
}

/// End of the run of spaces that starts at `i`.
pub fn skip_spaces(s: &Vec<char>, i: usize) -> (r: usize)
    requires
        i <= s@.len(),
    ensures
        r as int == spaces_end(s@, i as int),
{
    let mut j = i;
    while j < s.len() && s[j] == ' '
        invariant
            i <= j <= s@.len(),
            spaces_end(s@, j as int) == spaces_end(s@, i as int),
        decreases s@.len() - j,
    {
        j = j + 1;
    }
    j
}

/// The first index where `lit` occurs in `s`.
pub fn find_lit(s: &Vec<char>, lit: &str) -> (r: Option<usize>)
    ensures
        first_match_from(s@, lit@, 0) == (match r {
            Some(i) => Some(i as int),
            None => None,
        }),
{
    let len = s.len();
    let n = lit.unicode_len();
    if n > len {
        return None;
    }
    if n == 0 {
        assert(s@.subrange(0, 0) =~= lit@);
        return Some(0);
    }
    let mut i: usize = 0;
    while i <= len - n
        invariant
            len == s@.len(),
            n == lit@.len(),
            1 <= n <= len,
            i <= len - n + 1,
            first_match_from(s@, lit@, i as int) == first_match_from(s@, lit@, 0),
        decreases len + 1 - i,
    {
        if lit_at(s, i, lit) {
            return Some(i);
        }
        i = i + 1;
    }
    None
}

} // verus!
