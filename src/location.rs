use vstd::prelude::*;
use vstd::string::*;

use crate::error::Error;
use crate::platform::Os;
use crate::text::names_of;

verus! {

/// The path that `std::path::Path::join` makes of a directory and a relative name.
pub uninterp spec fn joined_path(dir: Seq<char>, name: Seq<char>) -> Seq<char>;

/// Relies on std::path::Path::join: the joined path depends on its two parts alone.
#[verifier::external_body]
pub(crate) fn join_path(dir: &str, name: &str) -> (r: String)
    ensures
        r@ == joined_path(dir@, name@),
{
    std::path::Path::new(dir).join(name).to_string_lossy().into_owned()
}

/// Relies on std::path::Path::exists: whether something is on disk at `path`. That
/// depends on the disk, so nothing is stated of it.
#[verifier::external_body]
fn path_exists(path: &str) -> (r: bool) {
    std::path::Path::new(path).exists()
}

/// One candidate path: `outer/inner` in the directory-and-file style, or
/// `outer/inner/chrome.exe` in the Windows style, where the outer list holds the roots.
pub open spec fn cell(outer: Seq<char>, inner: Seq<char>, windows: bool) -> Seq<char> {
    if windows {
        joined_path(joined_path(outer, inner), "chrome.exe"@)
    } else {
        joined_path(outer, inner)
    }
}

pub open spec fn row(outer: Seq<char>, inner: Seq<Seq<char>>, windows: bool) -> Seq<Seq<char>> {
    inner.map_values(|i: Seq<char>| cell(outer, i, windows))
}

/// Every outer name crossed with every inner name, all of the first outer name's row
/// before the second's.
pub open spec fn grid(outer: Seq<Seq<char>>, inner: Seq<Seq<char>>, windows: bool) -> Seq<Seq<char>>
    decreases outer.len(),
{
    if outer.len() == 0 {
        Seq::empty()
    } else {
        grid(outer.drop_last(), inner, windows) + row(outer.last(), inner, windows)
    }
}

/// Builds `grid` of the two lists.
fn grid_paths(outer: &Vec<String>, inner: &Vec<String>, windows: bool) -> (r: Vec<String>)
    ensures
        names_of(r@) == grid(names_of(outer@), names_of(inner@), windows),
{
    let ghost o = names_of(outer@);
    let ghost n = names_of(inner@);
    let mut out: Vec<String> = Vec::new();
    let mut i: usize = 0;
    while i < outer.len()
        invariant
            o == names_of(outer@),
            n == names_of(inner@),
            i <= outer.len(),
            names_of(out@) == grid(o.take(i as int), n, windows),
        decreases outer.len() - i,
    {
        let mut j: usize = 0;
        while j < inner.len()
            invariant
                o == names_of(outer@),
                n == names_of(inner@),
                i < outer.len(),
                j <= inner.len(),
                names_of(out@) == grid(o.take(i as int), n, windows) + row(o[i as int], n, windows).take(
                    j as int,
                ),
            decreases inner.len() - j,
        {
            let p = if windows {
                let base = join_path(outer[i].as_str(), inner[j].as_str());
                join_path(base.as_str(), "chrome.exe")
            } else {
                join_path(outer[i].as_str(), inner[j].as_str())
            };
            let ghost before = names_of(out@);
            out.push(p);
            proof {
                assert(names_of(out@) =~= before.push(p@));
                assert(row(o[i as int], n, windows).take(j + 1) =~= row(o[i as int], n, windows).take(
                    j as int,
                ).push(cell(o[i as int], n[j as int], windows)));
            }
            j = j + 1;
        }
        proof {
            assert(row(o[i as int], n, windows).take(j as int) =~= row(o[i as int], n, windows));
            assert(o.take(i + 1).drop_last() =~= o.take(i as int));
        }
        i = i + 1;
    }
    assert(o.take(i as int) =~= o);
    out
}

fn strings(a: &'static str, b: &'static str) -> (r: Vec<String>)
    ensures
        names_of(r@) == seq![a@, b@],
{
    let mut v: Vec<String> = Vec::new();
    v.push(String::from_str(a));
    v.push(String::from_str(b));
    assert(names_of(v@) =~= seq![a@, b@]);
    v
}

pub open spec fn linux_dirs() -> Seq<Seq<char>> {
    seq![
        "/usr/local/sbin"@,
        "/usr/local/bin"@,
        "/usr/sbin"@,
        "/usr/bin"@,
        "/sbin"@,
        "/bin"@,
        "/opt/google/chrome"@,
    ]
}

pub open spec fn linux_files() -> Seq<Seq<char>> {
    seq!["google-chrome"@, "chrome"@, "chromium"@, "chromium-browser"@]
}

pub open spec fn mac_dirs() -> Seq<Seq<char>> {
    seq!["/Applications/Chromium.app"@, "/Applications/Google Chrome.app"@]
}

pub open spec fn mac_files() -> Seq<Seq<char>> {
    seq!["Contents/MacOS/Chromium"@, "Contents/MacOS/Google Chrome"@]
}

pub open spec fn windows_dirs() -> Seq<Seq<char>> {
    seq!["Google\\Chrome\\Application"@, "Chromium\\Application"@]
}

/// Where the browser is looked for on `os`, in order. On Windows the install roots
/// (the Program Files folders) are given, since they are asked of the system.
pub open spec fn candidates(os: Os, windows_roots: Seq<Seq<char>>) -> Seq<Seq<char>> {
    match os {
        Os::Linux => grid(linux_dirs(), linux_files(), false),
        Os::MacOs => grid(mac_dirs(), mac_files(), false),
        Os::Windows => grid(windows_roots, windows_dirs(), true),
        Os::Other { .. } => Seq::empty(),
    }
}

/// Finds the installed Chrome or Chromium browser.
pub struct Location {}

impl Location {
    /// Where the browser is looked for on `os`, in the order they are tried.
    pub fn candidates(os: &Os, windows_roots: &Vec<String>) -> (r: Vec<String>)
        ensures
            names_of(r@) == candidates(*os, names_of(windows_roots@)),
    {
        match os {
            Os::Linux => {
                let mut dirs: Vec<String> = Vec::new();
                dirs.push(String::from_str("/usr/local/sbin"));
                dirs.push(String::from_str("/usr/local/bin"));
                dirs.push(String::from_str("/usr/sbin"));
                dirs.push(String::from_str("/usr/bin"));
                dirs.push(String::from_str("/sbin"));
                dirs.push(String::from_str("/bin"));
                dirs.push(String::from_str("/opt/google/chrome"));
                let mut files: Vec<String> = Vec::new();
                files.push(String::from_str("google-chrome"));
                files.push(String::from_str("chrome"));
                files.push(String::from_str("chromium"));
                files.push(String::from_str("chromium-browser"));
                assert(names_of(dirs@) =~= linux_dirs());
                assert(names_of(files@) =~= linux_files());
                grid_paths(&dirs, &files, false)
            },
            Os::MacOs => {
                let dirs = strings("/Applications/Chromium.app", "/Applications/Google Chrome.app");
                let files = strings("Contents/MacOS/Chromium", "Contents/MacOS/Google Chrome");
                grid_paths(&dirs, &files, false)
            },
            Os::Windows => {
                let dirs = strings("Google\\Chrome\\Application", "Chromium\\Application");
                grid_paths(windows_roots, &dirs, true)
            },
            Os::Other { .. } => Vec::new(),
        }
    }

    /// The first of `paths` that the probes in `present` report there, where `present[k]`
    /// is what the probe of `paths[k]` reported.
    pub fn first_existing(paths: &Vec<String>, present: &Vec<bool>) -> (r: Result<String, Error>)
        ensures
            picks(names_of(paths@), present@, r),
    {
        let ghost c = names_of(paths@);
        let mut k: usize = 0;
        while k < paths.len() && k < present.len()
            invariant
                c == names_of(paths@),
                first_present(present@, c.len() as int, 0) == first_present(present@, c.len() as int, k as int),
            decreases paths.len() - k,
        {
            if present[k] {
                assert(c[k as int] == paths@[k as int]@);
                return Ok(paths[k].clone());
            }
            k = k + 1;
        }
        Err(Error::NotFound { what: String::from_str("chrome") })
    }

    /// The first candidate on `os` that exists on disk. The candidates are probed in
    /// order, each at most once, and none after the first that exists.
    pub fn location(os: &Os, windows_roots: &Vec<String>) -> (r: Result<String, Error>)
        ensures
            exists|present: Seq<bool>|
                #![trigger picks(candidates(*os, names_of(windows_roots@)), present, r)]
                probe_record(present, candidates(*os, names_of(windows_roots@)).len() as int)
                    && picks(candidates(*os, names_of(windows_roots@)), present, r),
    {
        let paths = Location::candidates(os, windows_roots);
        let ghost c = names_of(paths@);
        let mut present: Vec<bool> = Vec::new();
        let mut k: usize = 0;
        while k < paths.len()
            invariant_except_break
                k == present.len(),
                k <= paths.len(),
                forall|j: int| 0 <= j < k ==> !present@[j],
            ensures
                k == present.len(),
                k <= paths.len(),
                probe_record(present@, paths.len() as int),
            decreases paths.len() - k,
        {
            let hit = path_exists(paths[k].as_str());
            present.push(hit);
            k = k + 1;
            if hit {
                break;
            }
        }
        let r = Location::first_existing(&paths, &present);
        assert(picks(candidates(*os, names_of(windows_roots@)), present@, r));
        r
    }
}

/// Index of the first `true` in `present[i..min(n, len)]`.
pub open spec fn first_present(present: Seq<bool>, n: int, i: int) -> Option<int>
    decreases present.len() - i,
{
    if i < 0 || i >= n || i >= present.len() {
        None
    } else if present[i] {
        Some(i)
    } else {
        first_present(present, n, i + 1)
    }
}

/// The choice among candidate paths `c` that probe results `present` make: the first
/// one reported there, or not found.
pub open spec fn picks(c: Seq<Seq<char>>, present: Seq<bool>, r: Result<String, Error>) -> bool {
    match first_present(present, c.len() as int, 0) {
        Some(k) => r matches Ok(p) && p@ == c[k],
        None => r matches Err(e) && e is NotFound,
    }
}

/// Probes of `n` candidates in order, each at most once, stopping at the first that
/// exists: every probe but the last reported nothing there, and the probes ran to the
/// end unless the last one reported something.
pub open spec fn probe_record(present: Seq<bool>, n: int) -> bool {
    &&& present.len() <= n
    &&& forall|j: int| 0 <= j < present.len() - 1 ==> !present[j]
    &&& present.len() < n ==> (present.len() > 0 && present.last())
}

} // verus!
