use vstd::prelude::*;
use vstd::string::*;

use vstd::utf8::*;

use crate::error::Error;
use crate::platform::Os;
use crate::text::{chars_of, digits_value, int_text, int_text_of, is_digit, names_of};

verus! {

/// The text pattern of a browser version: four runs of ASCII digits joined by dots.
pub const VERSION_PATTERN: &'static str = "[0-9]+\\.[0-9]+\\.[0-9]+\\.[0-9]+";

/// End of the run of ASCII digits that starts at `i`.
pub open spec fn run_end(s: Seq<char>, i: int) -> int
    decreases s.len() - i,
{
    if 0 <= i < s.len() && is_digit(s[i]) {
        run_end(s, i + 1)
    } else {
        i
    }
}

/// Ends of the four digit runs of a version that starts at `i`.
pub open spec fn group_ends(s: Seq<char>, i: int) -> (int, int, int, int) {
    let e1 = run_end(s, i);
    let e2 = run_end(s, e1 + 1);
    let e3 = run_end(s, e2 + 1);
    let e4 = run_end(s, e3 + 1);
    (e1, e2, e3, e4)
}

/// Whether four dot-separated digit runs start at `i`.
pub open spec fn version_at(s: Seq<char>, i: int) -> bool {
    let (e1, e2, e3, e4) = group_ends(s, i);
    &&& 0 <= i
    &&& i < e1 < s.len() && s[e1] == '.'
    &&& e1 + 1 < e2 < s.len() && s[e2] == '.'
    &&& e2 + 1 < e3 < s.len() && s[e3] == '.'
    &&& e3 + 1 < e4
}

/// The first position at or after `i` where a version starts.
pub open spec fn first_version_from(s: Seq<char>, i: int) -> Option<int>
    decreases s.len() - i,
{
    if i < 0 || i >= s.len() {
        None
    } else if version_at(s, i) {
        Some(i)
    } else {
        first_version_from(s, i + 1)
    }
}

pub open spec fn first_version_start(s: Seq<char>) -> Option<int> {
    first_version_from(s, 0)
}

/// Whether no version starts anywhere in `s`.
pub open spec fn has_no_version(s: Seq<char>) -> bool {
    forall|i: int| 0 <= i < s.len() ==> !version_at(s, i)
}

/// The text of the version that starts at `i`.
pub open spec fn version_text(s: Seq<char>, i: int) -> Seq<char> {
    s.subrange(i, group_ends(s, i).3)
}

/// The numbers of the version that starts at `i`.
pub open spec fn components(s: Seq<char>, i: int) -> (int, int, int, int) {
    let (e1, e2, e3, e4) = group_ends(s, i);
    (
        digits_value(s.subrange(i, e1)),
        digits_value(s.subrange(e1 + 1, e2)),
        digits_value(s.subrange(e2 + 1, e3)),
        digits_value(s.subrange(e3 + 1, e4)),
    )
}

/// The numbers of the first version in `s`, if there is one.
pub open spec fn version_in(s: Seq<char>) -> Option<(int, int, int, int)> {
    match first_version_start(s) {
        Some(i) => Some(components(s, i)),
        None => None,
    }
}

pub open spec fn fits_i16(c: (int, int, int, int)) -> bool {
    c.0 <= i16::MAX && c.1 <= i16::MAX && c.2 <= i16::MAX && c.3 <= i16::MAX
}

/// The numbers of the first version in `s`, where there is one and each fits in an `i16`.
pub open spec fn parsed_version(s: Seq<char>) -> Option<(int, int, int, int)> {
    match version_in(s) {
        Some(c) => if fits_i16(c) {
            Some(c)
        } else {
            None
        },
        None => None,
    }
}

/// Relies on String::from_utf8: it succeeds exactly on valid UTF-8, and the text then
/// holds the decoded characters.
#[verifier::external_body]
fn utf8_text(bytes: Vec<u8>) -> (r: Option<String>)
    ensures
        r is Some <==> valid_utf8(bytes@),
        r matches Some(s) ==> s@ == decode_utf8(bytes@),
{
    String::from_utf8(bytes).ok()
}

/// Relies on regex::Regex::new and Regex::find: `find` returns the leftmost-first match.
/// For this pattern the match starts at the first position where four dot-joined digit
/// runs start, and each run, the last one too, is taken whole. The pattern is valid, so
/// it compiles and the `Err` arm is not taken.
#[verifier::external_body]
fn find_version_text(pattern: &str, text: &str) -> (r: Option<String>)
    requires
        pattern@ == VERSION_PATTERN@,
    ensures
        match first_version_start(text@) {
            None => r is None,
            Some(i) => r matches Some(m) && m@ == version_text(text@, i),
        },
{
    match regex::Regex::new(pattern) {
        Ok(re) => re.find(text).map(|m| m.as_str().to_string()),
        Err(_) => None,
    }
}

/// A digit run ends where the digits stop.
pub proof fn lemma_run_end(s: Seq<char>, i: int)
    requires
        0 <= i <= s.len(),
    ensures
        i <= run_end(s, i) <= s.len(),
        forall|k: int| i <= k < run_end(s, i) ==> is_digit(s[k]),
        run_end(s, i) == s.len() || !is_digit(s[run_end(s, i)]),
    decreases s.len() - i,
{
    if i < s.len() && is_digit(s[i]) {
        lemma_run_end(s, i + 1);
    }
}

/// A stretch of digits followed by a non-digit (or the end) is the run.
pub proof fn lemma_run_end_is(s: Seq<char>, i: int, e: int)
    requires
        0 <= i <= e <= s.len(),
        forall|k: int| i <= k < e ==> is_digit(s[k]),
        e == s.len() || !is_digit(s[e]),
    ensures
        run_end(s, i) == e,
    decreases e - i,
{
    if i < e {
        lemma_run_end_is(s, i + 1, e);
    }
}

proof fn lemma_run_in_match(s: Seq<char>, i: int, k: int, e: int, m: Seq<char>)
    requires
        0 <= i <= k <= s.len(),
        m == s.subrange(i, e),
        run_end(s, k) <= e <= s.len(),
        run_end(s, k) == e || s[run_end(s, k)] == '.',
    ensures
        run_end(m, k - i) == run_end(s, k) - i,
        m.subrange(k - i, run_end(s, k) - i) == s.subrange(k, run_end(s, k)),
{
    lemma_run_end(s, k);
    let r = run_end(s, k);
    assert forall|j: int| k - i <= j < r - i implies is_digit(m[j]) by {
        assert(m[j] == s[j + i]);
    }
    if r != e {
        assert(m[r - i] == s[r]);
    }
    lemma_run_end_is(m, k - i, r - i);
    assert(m.subrange(k - i, r - i) =~= s.subrange(k, r));
}

/// Within the text of a version, the runs sit where they sat in the whole text.
proof fn lemma_version_text(s: Seq<char>, i: int)
    requires
        version_at(s, i),
    ensures
        ({
            let m = version_text(s, i);
            let (e1, e2, e3, e4) = group_ends(s, i);
            &&& m.len() == e4 - i
            &&& run_end(m, 0) == e1 - i && m[e1 - i] == '.'
            &&& run_end(m, e1 - i + 1) == e2 - i && m[e2 - i] == '.'
            &&& run_end(m, e2 - i + 1) == e3 - i && m[e3 - i] == '.'
            &&& run_end(m, e3 - i + 1) == e4 - i
            &&& m.subrange(0, e1 - i) == s.subrange(i, e1)
            &&& m.subrange(e1 - i + 1, e2 - i) == s.subrange(e1 + 1, e2)
            &&& m.subrange(e2 - i + 1, e3 - i) == s.subrange(e2 + 1, e3)
            &&& m.subrange(e3 - i + 1, e4 - i) == s.subrange(e3 + 1, e4)
        }),
{
    let m = version_text(s, i);
    let (e1, e2, e3, e4) = group_ends(s, i);
    lemma_run_end(s, e3 + 1);
    lemma_run_in_match(s, i, i, e4, m);
    lemma_run_in_match(s, i, e1 + 1, e4, m);
    lemma_run_in_match(s, i, e2 + 1, e4, m);
    lemma_run_in_match(s, i, e3 + 1, e4, m);
}

/// What is found is a version, and none starts before it.
pub proof fn lemma_found(s: Seq<char>, i: int)
    requires
        first_version_from(s, i) is Some,
    ensures
        ({
            let j = first_version_from(s, i).unwrap();
            &&& i <= j < s.len()
            &&& version_at(s, j)
            &&& forall|k: int| i <= k < j ==> !version_at(s, k)
        }),
    decreases s.len() - i,
{
    if 0 <= i < s.len() && !version_at(s, i) {
        lemma_found(s, i + 1);
    }
}

/// Where no version starts, none is found.
pub proof fn lemma_none_found(s: Seq<char>, i: int)
    requires
        0 <= i,
        forall|j: int| i <= j < s.len() ==> !version_at(s, j),
    ensures
        first_version_from(s, i) is None,
    decreases s.len() - i,
{
    if i < s.len() {
        lemma_none_found(s, i + 1);
    }
}

proof fn lemma_first_is(s: Seq<char>, k: int, i: int)
    requires
        0 <= k <= i < s.len(),
        version_at(s, i),
        forall|j: int| k <= j < i ==> !version_at(s, j),
    ensures
        first_version_from(s, k) == Some(i),
    decreases i - k,
{
    if k < i {
        lemma_first_is(s, k + 1, i);
    }
}

pub open spec fn all_digits(g: Seq<char>) -> bool {
    g.len() > 0 && forall|k: int| 0 <= k < g.len() ==> is_digit(g[k])
}

/// Four runs of digits joined by dots.
pub open spec fn dotted(g1: Seq<char>, g2: Seq<char>, g3: Seq<char>, g4: Seq<char>) -> Seq<char> {
    g1 + seq!['.'] + g2 + seq!['.'] + g3 + seq!['.'] + g4
}

/// A four-part version set anywhere in surrounding text is found, with its four numbers,
/// when no version starts in the text before it and the text after it does not go on with
/// a digit.
pub proof fn law_embedded_version_found(
    before: Seq<char>,
    g1: Seq<char>,
    g2: Seq<char>,
    g3: Seq<char>,
    g4: Seq<char>,
    after: Seq<char>,
)
    requires
        all_digits(g1),
        all_digits(g2),
        all_digits(g3),
        all_digits(g4),
        after.len() == 0 || !is_digit(after[0]),
        forall|j: int|
            0 <= j < before.len() ==> !version_at(before + dotted(g1, g2, g3, g4) + after, j),
    ensures
        version_in(before + dotted(g1, g2, g3, g4) + after) == Some(
            (digits_value(g1), digits_value(g2), digits_value(g3), digits_value(g4)),
        ),
{
    let s = before + dotted(g1, g2, g3, g4) + after;
    let i = before.len() as int;
    let e1 = i + g1.len();
    let e2 = e1 + 1 + g2.len();
    let e3 = e2 + 1 + g3.len();
    let e4 = e3 + 1 + g4.len();
    assert(s.subrange(i, e1) =~= g1);
    assert(s.subrange(e1 + 1, e2) =~= g2);
    assert(s.subrange(e2 + 1, e3) =~= g3);
    assert(s.subrange(e3 + 1, e4) =~= g4);
    assert(s[e1] == '.' && s[e2] == '.' && s[e3] == '.');
    assert forall|k: int| i <= k < e1 implies is_digit(s[k]) by {
        assert(s[k] == s.subrange(i, e1)[k - i]);
    }
    assert forall|k: int| e1 + 1 <= k < e2 implies is_digit(s[k]) by {
        assert(s[k] == s.subrange(e1 + 1, e2)[k - e1 - 1]);
    }
    assert forall|k: int| e2 + 1 <= k < e3 implies is_digit(s[k]) by {
        assert(s[k] == s.subrange(e2 + 1, e3)[k - e2 - 1]);
    }
    assert forall|k: int| e3 + 1 <= k < e4 implies is_digit(s[k]) by {
        assert(s[k] == s.subrange(e3 + 1, e4)[k - e3 - 1]);
    }
    if e4 < s.len() {
        assert(s[e4] == after[0]);
    }
    lemma_run_end_is(s, i, e1);
    lemma_run_end_is(s, e1 + 1, e2);
    lemma_run_end_is(s, e2 + 1, e3);
    lemma_run_end_is(s, e3 + 1, e4);
    assert(version_at(s, i));
    lemma_first_is(s, 0, i);
}

/// The run of digits that starts at `start`, and its value when that fits in an `i16`.
fn scan_group(cs: &Vec<char>, start: usize) -> (r: (usize, Option<i16>))
    requires
        start <= cs.len(),
    ensures
        r.0 == run_end(cs@, start as int),
        start <= r.0 <= cs.len(),
        r.1 is Some <==> digits_value(cs@.subrange(start as int, r.0 as int)) <= i16::MAX,
        r.1 matches Some(v) ==> v == digits_value(cs@.subrange(start as int, r.0 as int)),
{
    let mut k: usize = start;
    let mut acc: u32 = 0;
    let mut over = false;
    while k < cs.len() && '0' <= cs[k] && cs[k] <= '9'
        invariant
            start <= k <= cs.len(),
            run_end(cs@, k as int) == run_end(cs@, start as int),
            digits_value(cs@.subrange(start as int, k as int)) >= 0,
            !over ==> acc == digits_value(cs@.subrange(start as int, k as int)) && acc <= 32767,
            over ==> digits_value(cs@.subrange(start as int, k as int)) > 32767,
        decreases cs.len() - k,
    {
        let d: u32 = (cs[k] as u32) - ('0' as u32);
        assert(cs@.subrange(start as int, k + 1).drop_last() =~= cs@.subrange(start as int, k as int));
        if !over {
            let n = acc * 10 + d;
            if n > 32767 {
                over = true;
            } else {
                acc = n;
            }
        }
        k = k + 1;
    }
    if over {
        (k, None)
    } else {
        (k, Some(acc as i16))
    }
}

/// A browser version: four numbers, as in `87.0.4280.141`.
#[derive(Debug, PartialEq, Eq, Clone, Copy, Structural)]
pub struct Version {
    pub major: i16,
    pub minor: i16,
    pub build: i16,
    pub patch: i16,
}

impl Version {
    pub open spec fn parts(self) -> (int, int, int, int) {
        (self.major as int, self.minor as int, self.build as int, self.patch as int)
    }

    /// Finds the first four-part version in free-form text, such as the output of
    /// `chrome --version`. Fails when there is none, or when a part does not fit in an `i16`.
    pub fn version_from_output(output: &str) -> (r: Result<Version, Error>)
        ensures
            match parsed_version(output@) {
                Some(c) => r matches Ok(v) && v.parts() == c,
                None => r matches Err(Error::VersionParse { text }) && text@ == output@,
            },
            has_no_version(output@) ==> r is Err,
    {
        proof {
            if has_no_version(output@) {
                lemma_none_found(output@, 0);
            }
        }
        let found = find_version_text(VERSION_PATTERN, output);
        let m = match found {
            Some(m) => m,
            None => {
                return Err(Error::VersionParse { text: String::from_str(output) });
            },
        };
        let cs = chars_of(m.as_str());
        let ghost s = output@;
        let ghost i = first_version_start(s).unwrap();
        proof {
            lemma_found(s, 0);
            lemma_version_text(s, i);
        }
        let (e1, a) = scan_group(&cs, 0);
        let (e2, b) = scan_group(&cs, e1 + 1);
        let (e3, c) = scan_group(&cs, e2 + 1);
        let (e4, d) = scan_group(&cs, e3 + 1);
        match (a, b, c, d) {
            (Some(major), Some(minor), Some(build), Some(patch)) => {
                Ok(Version { major, minor, build, patch })
            },
            _ => Err(Error::VersionParse { text: String::from_str(output) }),
        }
    }

    /// The version in what a browser probe printed. The bytes must be UTF-8.
    pub fn from_probe_output(stdout: Vec<u8>) -> (r: Result<Version, Error>)
        ensures
            !valid_utf8(stdout@) ==> (r matches Err(e) && e is Utf8),
            valid_utf8(stdout@) ==> match parsed_version(decode_utf8(stdout@)) {
                Some(c) => r matches Ok(v) && v.parts() == c,
                None => r matches Err(e) && e is VersionParse,
            },
    {
        match utf8_text(stdout) {
            Some(text) => Version::version_from_output(text.as_str()),
            None => Err(Error::Utf8),
        }
    }

    /// The command that prints the version of the browser at `browser` on `os`: the
    /// browser itself with `--version`, or on Windows a PowerShell query of the file's
    /// product version.
    pub fn probe_command(os: &Os, browser: &str) -> (r: Result<Vec<String>, Error>)
        ensures
            (os is Linux || os is MacOs) ==> (r matches Ok(v) && names_of(v@) == seq![
                browser@,
                "--version"@,
            ]),
            os is Windows ==> (r matches Ok(v) && names_of(v@) == seq![
                "powershell"@,
                "-Command"@,
                "(Get-ItemProperty '"@ + browser@ + "').VersionInfo.ProductVersion"@,
            ]),
            os is Other ==> (r matches Err(e) && e is UnsupportedPlatform),
    {
        let mut v: Vec<String> = Vec::new();
        match os {
            Os::Linux | Os::MacOs => {
                v.push(String::from_str(browser));
                v.push(String::from_str("--version"));
                assert(names_of(v@) =~= seq![browser@, "--version"@]);
                Ok(v)
            },
            Os::Windows => {
                v.push(String::from_str("powershell"));
                v.push(String::from_str("-Command"));
                v.push(
                    String::from_str("(Get-ItemProperty '").concat(browser).concat(
                        "').VersionInfo.ProductVersion",
                    ),
                );
                assert(names_of(v@) =~= seq![
                    "powershell"@,
                    "-Command"@,
                    "(Get-ItemProperty '"@ + browser@ + "').VersionInfo.ProductVersion"@,
                ]);
                Ok(v)
            },
            Os::Other { name } => Err(Error::UnsupportedPlatform { os: name.clone() }),
        }
    }

    /// `major.minor.build.patch`
    pub fn full_version(&self) -> (r: String)
        ensures
            r@ == int_text(self.major as int) + seq!['.'] + int_text(self.minor as int) + seq!['.']
                + int_text(self.build as int) + seq!['.'] + int_text(self.patch as int),
    {
        let mut r = self.build_version();
        proof {
            reveal_strlit(".");
        }
        r.append(".");
        r.append(int_text_of(self.patch).as_str());
        r
    }

    /// `major.minor.build`
    pub fn build_version(&self) -> (r: String)
        ensures
            r@ == int_text(self.major as int) + seq!['.'] + int_text(self.minor as int) + seq!['.']
                + int_text(self.build as int),
    {
        proof {
            reveal_strlit(".");
        }
        let mut r = int_text_of(self.major);
        r.append(".");
        r.append(int_text_of(self.minor).as_str());
        r.append(".");
        r.append(int_text_of(self.build).as_str());
        r
    }
}

} // verus!
