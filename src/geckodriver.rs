use vstd::prelude::*;
use vstd::string::*;

use crate::error::Error;
use crate::platform::Os;
use crate::text::{decimal, decimal_text};
use crate::urls::{last_path_segment, last_segment, parse_url, url_serialization};

verus! {

/// Where geckodriver releases are published.
pub const GECKO_BASE_URL: &'static str = "https://github.com/mozilla/geckodriver/releases";

/// The platform part of a geckodriver download address, which is also the archive's suffix.
pub open spec fn gecko_token(os: Os, pointer_width: u32) -> Option<Seq<char>> {
    match os {
        Os::Linux => Some("linux"@ + decimal(pointer_width as nat) + ".tar.gz"@),
        Os::MacOs => Some("macos.tar.gz"@),
        Os::Windows => Some("win"@ + decimal(pointer_width as nat) + ".zip"@),
        Os::Other { .. } => None,
    }
}

/// `<base>/download/<release>/geckodriver-<release>-<platform>`
pub open spec fn gecko_url_text(release: Seq<char>, token: Seq<char>) -> Seq<char> {
    GECKO_BASE_URL@ + "/download/"@ + release + "/geckodriver-"@ + release + "-"@ + token
}

/// What building the geckodriver address of `release` for `os` and pointer width gives:
/// the parsed address, or an error that carries the text that did not parse or the system
/// that has no download.
pub open spec fn gecko_download(release: Seq<char>, os: Os, pointer_width: u32, r: Result<String, Error>) -> bool {
    match gecko_token(os, pointer_width) {
        Some(t) => match url_serialization(gecko_url_text(release, t)) {
            Some(s) => r matches Ok(u) && u@ == s,
            None => r matches Err(Error::InvalidUrl { url }) && url@ == gecko_url_text(release, t),
        },
        None => r matches Err(Error::UnsupportedPlatform { os: n }) && (os matches Os::Other {
            name,
        } && n@ == name@),
    }
}

/// The geckodriver family: the latest release on the project's release page.
pub struct Geckodriver {}

impl Geckodriver {
    pub fn new() -> (r: Self) {
        Geckodriver {  }
    }

    /// Width of a pointer on this machine, in bits.
    pub fn pointer_width() -> (r: usize)
        ensures
            r == usize::BITS,
    {
        usize::BITS as usize
    }

    /// The platform part of the download address for `os` and pointer width.
    pub fn platform(os: &Os, pointer_width: u32) -> (r: Result<String, Error>)
        ensures
            match gecko_token(*os, pointer_width) {
                Some(t) => r matches Ok(s) && s@ == t,
                None => r matches Err(Error::UnsupportedPlatform { os: n }) && (os matches Os::Other {
                    name,
                } && n@ == name@),
            },
    {
        match os {
            Os::Linux => Ok(String::from_str("linux").concat(decimal_text(pointer_width).as_str()).concat(
                ".tar.gz",
            )),
            Os::MacOs => Ok(String::from_str("macos.tar.gz")),
            Os::Windows => Ok(String::from_str("win").concat(decimal_text(pointer_width).as_str()).concat(
                ".zip",
            )),
            Os::Other { name } => Err(Error::UnsupportedPlatform { os: name.clone() }),
        }
    }

    /// The page that redirects to the newest release.
    pub fn latest_release_url(&self) -> (r: String)
        ensures
            r@ == GECKO_BASE_URL@ + "/latest"@,
    {
        String::from_str(GECKO_BASE_URL).concat("/latest")
    }

    /// The release that the latest-release page redirected to: the last segment of the
    /// address it ended at.
    pub fn latest_version(&self, final_url: &str) -> (r: Result<String, Error>)
        ensures
            match last_segment(final_url@) {
                Some(s) => r matches Ok(v) && v@ == s,
                None => r matches Err(e) && e is Resolution,
            },
    {
        match last_path_segment(final_url) {
            Some(s) => Ok(s),
            None => Err(Error::Resolution { message: String::from_str(final_url) }),
        }
    }

    /// The address of the geckodriver archive of `release` for `os` and pointer width.
    pub fn direct_download_url(&self, release: &str, os: &Os, pointer_width: u32) -> (r: Result<
        String,
        Error,
    >)
        ensures
            gecko_download(release@, *os, pointer_width, r),
    {
        let token = match Geckodriver::platform(os, pointer_width) {
            Ok(t) => t,
            Err(e) => {
                return Err(e);
            },
        };
        let text = String::from_str(GECKO_BASE_URL).concat("/download/").concat(release).concat(
            "/geckodriver-",
        ).concat(release).concat("-").concat(token.as_str());
        match parse_url(text.as_str()) {
            Some(u) => Ok(u),
            None => Err(Error::InvalidUrl { url: text }),
        }
    }
}

/// The geckodriver address of a release ends in the platform's part: `linux32.tar.gz` or
/// `linux64.tar.gz` and `win32.zip` or `win64.zip` by pointer width, `macos.tar.gz` on
/// every width.
pub proof fn law_gecko_url_shape(release: Seq<char>, pointer_width: u32)
    ensures
        ({
            let head = GECKO_BASE_URL@ + "/download/"@ + release + "/geckodriver-"@ + release;
            &&& gecko_url_text(release, gecko_token(Os::Linux, 32).unwrap()) == head
                + "-linux32.tar.gz"@
            &&& gecko_url_text(release, gecko_token(Os::Linux, 64).unwrap()) == head
                + "-linux64.tar.gz"@
            &&& gecko_url_text(release, gecko_token(Os::MacOs, pointer_width).unwrap()) == head
                + "-macos.tar.gz"@
            &&& gecko_url_text(release, gecko_token(Os::Windows, 32).unwrap()) == head + "-win32.zip"@
            &&& gecko_url_text(release, gecko_token(Os::Windows, 64).unwrap()) == head + "-win64.zip"@
        }),
{
    reveal_strlit("-");
    reveal_strlit("linux");
    reveal_strlit("win");
    reveal_strlit(".tar.gz");
    reveal_strlit(".zip");
    reveal_strlit("macos.tar.gz");
    reveal_strlit("-linux32.tar.gz");
    reveal_strlit("-linux64.tar.gz");
    reveal_strlit("-macos.tar.gz");
    reveal_strlit("-win32.zip");
    reveal_strlit("-win64.zip");
    reveal_with_fuel(decimal, 2);
    assert(decimal(32) =~= seq!['3', '2']);
    assert(decimal(64) =~= seq!['6', '4']);
    let head = GECKO_BASE_URL@ + "/download/"@ + release + "/geckodriver-"@ + release;
    assert(head + "-"@ + ("linux"@ + decimal(32) + ".tar.gz"@) =~= head + "-linux32.tar.gz"@);
    assert(head + "-"@ + ("linux"@ + decimal(64) + ".tar.gz"@) =~= head + "-linux64.tar.gz"@);
    assert(head + "-"@ + "macos.tar.gz"@ =~= head + "-macos.tar.gz"@);
    assert(head + "-"@ + ("win"@ + decimal(32) + ".zip"@) =~= head + "-win32.zip"@);
    assert(head + "-"@ + ("win"@ + decimal(64) + ".zip"@) =~= head + "-win64.zip"@);
}

/// On a supported system, where the address text parses, the geckodriver address of a
/// release is the parsed `<base>/download/<release>/geckodriver-<release>-<platform>`,
/// with `linux32.tar.gz` or `linux64.tar.gz`, `macos.tar.gz`, `win32.zip` or `win64.zip`
/// as the platform's part.
pub proof fn law_gecko_download_url(release: Seq<char>, os: Os, pointer_width: u32, r: Result<String, Error>)
    requires
        gecko_download(release, os, pointer_width, r),
        !(os is Other),
        url_serialization(gecko_url_text(release, gecko_token(os, pointer_width).unwrap())) is Some,
    ensures
        ({
            let head = GECKO_BASE_URL@ + "/download/"@ + release + "/geckodriver-"@ + release;
            &&& (os is Linux && pointer_width == 32) ==> (r matches Ok(u) && Some(u@) == url_serialization(
                head + "-linux32.tar.gz"@,
            ))
            &&& (os is Linux && pointer_width == 64) ==> (r matches Ok(u) && Some(u@) == url_serialization(
                head + "-linux64.tar.gz"@,
            ))
            &&& os is MacOs ==> (r matches Ok(u) && Some(u@) == url_serialization(head + "-macos.tar.gz"@))
            &&& (os is Windows && pointer_width == 32) ==> (r matches Ok(u) && Some(u@) == url_serialization(
                head + "-win32.zip"@,
            ))
            &&& (os is Windows && pointer_width == 64) ==> (r matches Ok(u) && Some(u@) == url_serialization(
                head + "-win64.zip"@,
            ))
        }),
{
    law_gecko_url_shape(release, pointer_width);
}

} // verus!
