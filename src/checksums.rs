//! Integrity of the bundled executables: the checksums file, and SHA-256
//! digests compared against it.
use vstd::prelude::*;
use crate::error::DownloadError;
use crate::executables::{ExecutableManager, UpdateService};
use crate::storage::{arch_dir, is_white_space, trim_chars, trim_text};
use crate::text::{append, chars_of, same_text, string_of};

verus! {

/// The SHA-256 digest of `data` as lower-case hexadecimal.
pub uninterp spec fn sha256_hex(data: Seq<u8>) -> Seq<char>;

/// Relies on `sha2::Sha256::digest` and its `LowerHex` formatting: the
/// SHA-256 digest of `data` in lower-case hexadecimal.
#[verifier::external_body]
fn sha256_hex_of(data: &Vec<u8>) -> (r: String)
    ensures
        r@ == sha256_hex(data@),
{
    format!("{:x}", <sha2::Sha256 as sha2::Digest>::digest(data.as_slice()))
}

/// The end of the line that starts at `i`.
pub open spec fn line_end(s: Seq<char>, i: int) -> int
    decreases s.len() - i,
{
    if 0 <= i < s.len() && s[i] != '\n' {
        line_end(s, i + 1)
    } else {
        i
    }
}

/// A line without its trailing carriage return.
pub open spec fn strip_cr(l: Seq<char>) -> Seq<char> {
    if l.len() > 0 && l.last() == '\r' {
        l.drop_last()
    } else {
        l
    }
}

/// The lines of `s` from `i`, split at `\n`, each without a trailing `\r`;
/// a final `\n` ends the last line rather than starting an empty one.
pub open spec fn lines_from(s: Seq<char>, i: int) -> Seq<Seq<char>>
    decreases s.len() + 1 - i,
{
    let e = line_end(s, i);
    if i < 0 || i >= s.len() || e < i || e > s.len() {
        Seq::empty()
    } else {
        seq![strip_cr(s.subrange(i, e))] + lines_from(s, e + 1)
    }
}

/// The end of the run of characters at `i` for which `white` says whether
/// they are white space.
pub open spec fn run_end(s: Seq<char>, i: int, white: bool) -> int
    decreases s.len() - i,
{
    if 0 <= i < s.len() && is_white_space(s[i]) == white {
        run_end(s, i + 1, white)
    } else {
        i
    }
}

/// The words of `s` from `i`: its maximal runs without white space.
pub open spec fn words_from(s: Seq<char>, i: int) -> Seq<Seq<char>>
    decreases s.len() - i,
{
    let a = run_end(s, i, true);
    let b = run_end(s, a, false);
    if i < 0 || a >= s.len() || a < i || b <= a || b > s.len() {
        Seq::empty()
    } else {
        seq![s.subrange(a, b)] + words_from(s, b)
    }
}

/// The `(file, checksum)` that a line declares: none for a blank line or a
/// `#` comment, nor for a line of other than two words.
pub open spec fn pair_of(line: Seq<char>) -> Option<(Seq<char>, Seq<char>)> {
    let t = trim_text(line, true);
    let w = words_from(t, 0);
    if t.len() == 0 || t[0] == '#' || w.len() != 2 {
        None
    } else {
        Some((w[1], w[0]))
    }
}

/// The checksum that the last line declaring `name` gives it.
pub open spec fn checksum_in(lines: Seq<Seq<char>>, name: Seq<char>) -> Option<Seq<char>>
    decreases lines.len(),
{
    if lines.len() == 0 {
        None
    } else {
        match pair_of(lines.last()) {
            Some((n, c)) => if n == name {
                Some(c)
            } else {
                checksum_in(lines.drop_last(), name)
            },
            None => checksum_in(lines.drop_last(), name),
        }
    }
}

proof fn lemma_line_end_bounds(s: Seq<char>, i: int)
    requires
        0 <= i <= s.len(),
    ensures
        i <= line_end(s, i) <= s.len(),
    decreases s.len() - i,
{
    if i < s.len() && s[i] != '\n' {
        lemma_line_end_bounds(s, i + 1);
    }
}

proof fn lemma_run_end_bounds(s: Seq<char>, i: int, white: bool)
    requires
        0 <= i <= s.len(),
    ensures
        i <= run_end(s, i, white) <= s.len(),
        run_end(s, i, white) < s.len() ==> is_white_space(s[run_end(s, i, white)]) != white,
    decreases s.len() - i,
{
    if i < s.len() && is_white_space(s[i]) == white {
        lemma_run_end_bounds(s, i + 1, white);
    }
}

fn is_ws(c: char) -> (r: bool)
    ensures
        r == is_white_space(c),
{
    ('\t' <= c && c <= '\r') || c == ' ' || c == '\u{85}' || c == '\u{a0}' || c == '\u{1680}' || (
    '\u{2000}' <= c && c <= '\u{200a}') || c == '\u{2028}' || c == '\u{2029}' || c == '\u{202f}'
        || c == '\u{205f}' || c == '\u{3000}'
}

fn skip_run(s: &Vec<char>, i: usize, white: bool) -> (r: usize)
    requires
        i <= s@.len(),
    ensures
        r as int == run_end(s@, i as int, white),
{
    let mut j = i;
    while j < s.len() && is_ws(s[j]) == white
        invariant
            i <= j <= s@.len(),
            run_end(s@, j as int, white) == run_end(s@, i as int, white),
        decreases s@.len() - j,
    {
        j = j + 1;
    }
    j
}

fn slice_chars(s: &Vec<char>, a: usize, b: usize) -> (r: Vec<char>)
    requires
        a <= b <= s@.len(),
    ensures
        r@ == s@.subrange(a as int, b as int),
{
    let mut r: Vec<char> = Vec::new();
    let mut i = a;
    while i < b
        invariant
            a <= i <= b <= s@.len(),
            r@ == s@.subrange(a as int, i as int),
        decreases b - i,
    {
        r.push(s[i]);
        proof {
            assert(s@.subrange(a as int, i + 1) =~= s@.subrange(a as int, i as int).push(s@[i as int]));
        }
        i = i + 1;
    }
    r
}

/// The words of `s`.
pub(crate) fn words(s: &Vec<char>) -> (r: Vec<Vec<char>>)
    ensures
        r@.map_values(|w: Vec<char>| w@) == words_from(s@, 0),
{
    let mut r: Vec<Vec<char>> = Vec::new();
    let mut i: usize = 0;
    while i < s.len()
        invariant
            i <= s@.len(),
            r@.map_values(|w: Vec<char>| w@) + words_from(s@, i as int) == words_from(s@, 0),
        decreases s@.len() - i,
    {
        proof {
            lemma_run_end_bounds(s@, i as int, true);
        }
        let a = skip_run(s, i, true);
        if a >= s.len() {
            proof {
                assert(words_from(s@, a as int) == Seq::<Seq<char>>::empty());
            }
            i = a;
        } else {
            proof {
                lemma_run_end_bounds(s@, a as int, false);
            }
            let b = skip_run(s, a, false);
            let w = slice_chars(s, a, b);
            let ghost before = r@.map_values(|w: Vec<char>| w@);
            r.push(w);
            proof {
                assert(r@.map_values(|w: Vec<char>| w@) =~= before.push(s@.subrange(a as int, b as int)));
                assert(words_from(s@, i as int) == seq![s@.subrange(a as int, b as int)] + words_from(s@, b as int));
                assert(before + words_from(s@, i as int) =~= before.push(s@.subrange(a as int, b as int))
                    + words_from(s@, b as int));
            }
            i = b;
        }
    }
    proof {
        assert(words_from(s@, i as int) == Seq::<Seq<char>>::empty());
        assert(r@.map_values(|w: Vec<char>| w@) + Seq::<Seq<char>>::empty() =~= r@.map_values(
            |w: Vec<char>| w@,
        ));
    }
    r
}

/// The `(file, checksum)` that a line declares.
fn pair_in(line: &Vec<char>) -> (r: Option<(Vec<char>, Vec<char>)>)
    ensures
        pair_of(line@) == (match r {
            Some((n, c)) => Some((n@, c@)),
            None => None,
        }),
{
    let t = trim_chars(line, true);
    if t.len() == 0 || t[0] == '#' {
        return None;
    }
    let mut w = words(&t);
    if w.len() != 2 {
        return None;
    }
    proof {
        assert(w@.map_values(|w: Vec<char>| w@)[0] == w@[0]@);
        assert(w@.map_values(|w: Vec<char>| w@)[1] == w@[1]@);
    }
    let name = w.pop().unwrap();
    let sum = w.pop().unwrap();
    Some((name, sum))
}

fn chars_equal(a: &Vec<char>, b: &Vec<char>) -> (r: bool)
    ensures
        r == (a@ == b@),
{
    if a.len() != b.len() {
        return false;
    }
    let mut i: usize = 0;
    while i < a.len()
        invariant
            a@.len() == b@.len(),
            i <= a@.len(),
            forall|j: int| 0 <= j < i ==> a@[j] == b@[j],
        decreases a@.len() - i,
    {
        if a[i] != b[i] {
            return false;
        }
        i = i + 1;
    }
    assert(a@ =~= b@);
    true
}

/// The checksum the checksums file `content` gives the file `name`: that of
/// the last line declaring it.
pub fn find_checksum(content: &str, name: &str) -> (r: Option<String>)
    ensures
        checksum_in(lines_from(content@, 0), name@) == (match r {
            Some(c) => Some(c@),
            None => None,
        }),
{
    let s = chars_of(content);
    let key = chars_of(name);
    let ghost all = lines_from(s@, 0);
    let ghost mut done: Seq<Seq<char>> = Seq::empty();
    let mut found: Option<Vec<char>> = None;
    let mut i: usize = 0;
    proof {
        assert(done + lines_from(s@, 0) =~= all);
    }
    while i < s.len()
        invariant
            i <= s@.len(),
            s@ == content@,
            key@ == name@,
            done + lines_from(s@, i as int) == all,
            checksum_in(done, key@) == (match found {
                Some(c) => Some(c@),
                None => None,
            }),
        decreases s@.len() - i,
    {
        proof {
            lemma_line_end_bounds(s@, i as int);
        }
        let mut e = i;
        while e < s.len() && s[e] != '\n'
            invariant
                i <= e <= s@.len(),
                line_end(s@, e as int) == line_end(s@, i as int),
            decreases s@.len() - e,
        {
            e = e + 1;
        }
        let mut line = slice_chars(&s, i, e);
        if line.len() > 0 && line[line.len() - 1] == '\r' {
            line.pop();
            proof {
                assert(line@ =~= s@.subrange(i as int, e as int).drop_last());
            }
        }
        let ghost l = line@;
        match pair_in(&line) {
            Some((n, c)) => {
                if chars_equal(&n, &key) {
                    found = Some(c);
                }
            },
            None => {},
        }
        proof {
            let d2 = done.push(l);
            assert(d2.drop_last() =~= done);
            assert(d2.last() == l);
            assert(lines_from(s@, i as int) == seq![l] + lines_from(s@, e + 1));
            assert(done + lines_from(s@, i as int) =~= d2 + lines_from(s@, e + 1));
            done = d2;
        }
        if e >= s.len() {
            i = s.len();
            proof {
                assert(lines_from(s@, e + 1) == Seq::<Seq<char>>::empty());
                assert(lines_from(s@, i as int) == Seq::<Seq<char>>::empty());
            }
        } else {
            i = e + 1;
        }
    }
    proof {
        assert(lines_from(s@, i as int) == Seq::<Seq<char>>::empty());
        assert(done + Seq::<Seq<char>>::empty() =~= done);
    }
    match found {
        Some(c) => {
            let r = string_of(&c, c.len());
            proof {
                assert(c@.subrange(0, c@.len() as int) =~= c@);
            }
            Some(r)
        },
        None => None,
    }
}

/// The lines of `s`.
pub(crate) fn split_lines(s: &Vec<char>) -> (r: Vec<Vec<char>>)
    ensures
        r@.map_values(|l: Vec<char>| l@) == lines_from(s@, 0),
{
    let mut r: Vec<Vec<char>> = Vec::new();
    let mut i: usize = 0;
    proof {
        assert(Seq::<Seq<char>>::empty() + lines_from(s@, 0) =~= lines_from(s@, 0));
    }
    while i < s.len()
        invariant
            i <= s@.len(),
            r@.map_values(|l: Vec<char>| l@) + lines_from(s@, i as int) == lines_from(s@, 0),
        decreases s@.len() - i,
    {
        proof {
            lemma_line_end_bounds(s@, i as int);
        }
        let mut e = i;
        while e < s.len() && s[e] != '\n'
            invariant
                i <= e <= s@.len(),
                line_end(s@, e as int) == line_end(s@, i as int),
            decreases s@.len() - e,
        {
            e = e + 1;
        }
        let mut line = slice_chars(s, i, e);
        if line.len() > 0 && line[line.len() - 1] == '\r' {
            line.pop();
            proof {
                assert(line@ =~= s@.subrange(i as int, e as int).drop_last());
            }
        }
        let ghost before = r@.map_values(|l: Vec<char>| l@);
        let ghost l = line@;
        r.push(line);
        proof {
            assert(r@.map_values(|l: Vec<char>| l@) =~= before.push(l));
            assert(lines_from(s@, i as int) == seq![l] + lines_from(s@, e + 1));
            assert(before + lines_from(s@, i as int) =~= before.push(l) + lines_from(s@, e + 1));
        }
        if e >= s.len() {
            i = s.len();
            proof {
                assert(lines_from(s@, e + 1) == Seq::<Seq<char>>::empty());
                assert(lines_from(s@, i as int) == Seq::<Seq<char>>::empty());
            }
        } else {
            i = e + 1;
        }
    }
    proof {
        assert(lines_from(s@, i as int) == Seq::<Seq<char>>::empty());
        assert(r@.map_values(|l: Vec<char>| l@) + Seq::<Seq<char>>::empty() =~= r@.map_values(
            |l: Vec<char>| l@,
        ));
    }
    r
}

/// Each line of `lines` followed by `\n`, a line holding `key` replaced by
/// `<checksum>  <key>`.
pub open spec fn rewritten(lines: Seq<Seq<char>>, key: Seq<char>, checksum: Seq<char>) -> Seq<char>
    decreases lines.len(),
{
    if lines.len() == 0 {
        Seq::empty()
    } else {
        let l = lines.last();
        let out = if crate::text::contains(l, key) {
            checksum + "  "@ + key + "\n"@
        } else {
            l + "\n"@
        };
        rewritten(lines.drop_last(), key, checksum) + out
    }
}

/// The version that `ffmpeg -version` reports: the word after `version `
/// on the first line, or `unknown`.
pub open spec fn ffmpeg_version(output: Seq<char>) -> Seq<char> {
    let ls = lines_from(output, 0);
    if ls.len() == 0 {
        "unknown"@
    } else {
        let l = ls[0];
        match crate::text::first_match_from(l, "version "@, 0) {
            Some(m) => {
                let w = words_from(l.subrange(m + "version "@.len(), l.len() as int), 0);
                if w.len() > 0 {
                    w[0]
                } else {
                    "unknown"@
                }
            },
            None => "unknown"@,
        }
    }
}

/// Reads the version from the output of `ffmpeg -version`.
pub fn ffmpeg_version_from(output: &str) -> (r: String)
    ensures
        r@ == ffmpeg_version(output@),
{
    let s = chars_of(output);
    let ls = split_lines(&s);
    if ls.len() == 0 {
        return String::from_str("unknown");
    }
    let first = &ls[0];
    proof {
        assert(ls@.map_values(|l: Vec<char>| l@)[0] == first@);
    }
    match crate::text::find_lit(first, "version ") {
        Some(m) => {
            proof {
                crate::text::lemma_first_match_found(first@, "version "@, 0);
            }
            let start = match crate::text::lit_end(first, m, "version ") {
                Some(e) => e,
                None => return String::from_str("unknown"),
            };
            let rest = slice_chars(first, start, first.len());
            let w = words(&rest);
            if w.len() > 0 {
                proof {
                    assert(w@.map_values(|x: Vec<char>| x@)[0] == w@[0]@);
                }
                let r = string_of(&w[0], w[0].len());
                proof {
                    assert(w@[0]@.subrange(0, w@[0]@.len() as int) =~= w@[0]@);
                }
                r
            } else {
                String::from_str("unknown")
            }
        },
        None => String::from_str("unknown"),
    }
}


/// The key of a bundled tool in the checksums file: `<arch>/<tool>`.
pub open spec fn checksum_key(m: ExecutableManager, tool: Seq<char>) -> Seq<char> {
    arch_dir(m.arch) + "/"@ + tool
}

/// The verdict on one bundled tool.
pub open spec fn tool_verdict(
    m: ExecutableManager,
    content: Seq<char>,
    tool: Seq<char>,
    data: Seq<u8>,
) -> Option<Seq<char>> {
    match checksum_in(lines_from(content, 0), checksum_key(m, tool)) {
        None => Some("No checksum found for "@ + tool + " ("@ + arch_dir(m.arch) + ")"@),
        Some(c) => if sha256_hex(data) == c {
            None
        } else {
            Some(tool + " checksum verification failed for "@ + arch_dir(m.arch))
        },
    }
}

impl UpdateService {
    /// The version to update to: `latest` when it differs from `current`.
    pub fn available_update(current: &str, latest: String) -> (r: Option<String>)
        ensures
            current@ == latest@ ==> r is None,
            current@ != latest@ ==> r == Some(latest),
    {
        if same_text(current, latest.as_str()) {
            None
        } else {
            Some(latest)
        }
    }

    /// The checksums file `content` with the extractor's line for this
    /// architecture carrying `new_checksum`.
    pub fn update_checksums_file(&self, content: &str, new_checksum: &str) -> (r: String)
        ensures
            r@ == rewritten(lines_from(content@, 0), arch_dir(self.arch) + "/yt-dlp"@, new_checksum@),
    {
        let dir = self.arch.dir_name();
        let mut key = String::from_str(dir);
        append(&mut key, "/yt-dlp");
        let key_chars = chars_of(key.as_str());
        let s = chars_of(content);
        let lines = split_lines(&s);
        let ghost ls = lines@.map_values(|l: Vec<char>| l@);
        let mut out = String::new();
        let mut k: usize = 0;
        proof {
            assert(ls.subrange(0, 0) =~= Seq::<Seq<char>>::empty());
        }
        while k < lines.len()
            invariant
                k <= lines@.len(),
                ls == lines@.map_values(|l: Vec<char>| l@),
                key@ == key_chars@,
                out@ == rewritten(ls.subrange(0, k as int), key@, new_checksum@),
            decreases lines@.len() - k,
        {
            let line = &lines[k];
            let text = string_of(line, line.len());
            proof {
                assert(line@.subrange(0, line@.len() as int) =~= line@);
                assert(ls.subrange(0, k + 1).drop_last() =~= ls.subrange(0, k as int));
                assert(ls.subrange(0, k + 1).last() == line@);
            }
            if crate::text::contains_lit(line, key.as_str()) {
                append(&mut out, new_checksum);
                append(&mut out, "  ");
                append(&mut out, key.as_str());
                append(&mut out, "\n");
            } else {
                append(&mut out, text.as_str());
                append(&mut out, "\n");
            }
            k = k + 1;
        }
        proof {
            assert(ls.subrange(0, lines@.len() as int) =~= ls);
        }
        out
    }
}

impl ExecutableManager {
    /// Whether `contents` has the SHA-256 digest `expected` (lower-case hex).
    pub fn verify_checksum(&self, contents: &Vec<u8>, expected: &str) -> (r: bool)
        ensures
            r == (sha256_hex(contents@) == expected@),
    {
        let digest = sha256_hex_of(contents);
        same_text(digest.as_str(), expected)
    }

    fn verify_tool(&self, checksums: &str, tool: &str, contents: &Vec<u8>) -> (r: Result<(), DownloadError>)
        ensures
            match tool_verdict(*self, checksums@, tool@, contents@) {
                None => r is Ok,
                Some(msg) => r matches Err(DownloadError::DownloadFailed(m)) && m@ == msg,
            },
    {
        let dir = self.arch.dir_name();
        let mut key = String::from_str(dir);
        append(&mut key, "/");
        append(&mut key, tool);
        match find_checksum(checksums, key.as_str()) {
            None => {
                let mut m = String::from_str("No checksum found for ");
                append(&mut m, tool);
                append(&mut m, " (");
                append(&mut m, dir);
                append(&mut m, ")");
                Err(DownloadError::DownloadFailed(m))
            },
            Some(c) => {
                if self.verify_checksum(contents, c.as_str()) {
                    Ok(())
                } else {
                    let mut m = String::from_str(tool);
                    append(&mut m, " checksum verification failed for ");
                    append(&mut m, dir);
                    Err(DownloadError::DownloadFailed(m))
                }
            },
        }
    }

    /// Checks the bundled extractor, then the transcoder, against the
    /// checksums file: each must be listed under `<arch>/<tool>` and have
    /// that digest. The first failure is returned.
    pub fn verify_all_executables(
        &self,
        checksums: &str,
        ytdlp_contents: &Vec<u8>,
        ffmpeg_contents: &Vec<u8>,
    ) -> (r: Result<(), DownloadError>)
        ensures
            match tool_verdict(*self, checksums@, "yt-dlp"@, ytdlp_contents@) {
                Some(msg) => r matches Err(DownloadError::DownloadFailed(m)) && m@ == msg,
                None => match tool_verdict(*self, checksums@, "ffmpeg"@, ffmpeg_contents@) {
                    Some(msg) => r matches Err(DownloadError::DownloadFailed(m)) && m@ == msg,
                    None => r is Ok,
                },
            },
    {
        self.verify_tool(checksums, "yt-dlp", ytdlp_contents)?;
        self.verify_tool(checksums, "ffmpeg", ffmpeg_contents)
    }
}

} // verus!
