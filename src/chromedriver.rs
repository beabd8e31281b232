use vstd::prelude::*;
use vstd::string::*;

use crate::error::Error;
use crate::platform::Os;
use crate::urls::{parse_url, url_serialization};

verus! {

/// Where chromedriver archives are published.
pub const CHROME_BASE_URL: &'static str = "https://storage.googleapis.com/chrome-for-testing-public";

/// The document that lists known-good chromedriver versions, oldest first.
pub const CHROME_VERSIONS_URL: &'static str =
    "https://googlechromelabs.github.io/chrome-for-testing/known-good-versions-with-downloads.json";

/// Of the JSON document `document`, the member `field` of each element of its array
/// member `list`, where that is text; `None` where the document does not parse or has no
/// such array.
pub uninterp spec fn json_list_fields(document: Seq<char>, list: Seq<char>, field: Seq<char>) -> Option<
    Seq<Option<Seq<char>>>,
>;

pub open spec fn text_of(o: Option<String>) -> Option<Seq<char>> {
    match o {
        Some(s) => Some(s@),
        None => None,
    }
}

/// Relies on serde_json::from_str, Value::get, Value::as_array and Value::as_str: reads the
/// document, takes its member `list` as an array, and of each element the member `field`
/// as text. What comes back depends on the three texts alone.
#[verifier::external_body]
fn list_field_texts(document: &str, list: &str, field: &str) -> (r: Option<Vec<Option<String>>>)
    ensures
        match json_list_fields(document@, list@, field@) {
            None => r is None,
            Some(s) => r matches Some(v) && v@.len() == s.len() && forall|k: int|
                0 <= k < s.len() ==> #[trigger] text_of(v@[k]) == s[k],
        },
{
    let doc: serde_json::Value = serde_json::from_str(document).ok()?;
    let items = doc.get(list)?.as_array()?;
    Some(items.iter().map(|item| item.get(field).and_then(|f| f.as_str()).map(String::from)).collect())
}

/// The newest release in a known-good versions document: the `version` of the last
/// element of its `versions` list, where that is non-empty text.
pub open spec fn latest_release_in(document: Seq<char>) -> Option<Seq<char>> {
    match json_list_fields(document, "versions"@, "version"@) {
        Some(s) => if s.len() > 0 && s.last() is Some && s.last().unwrap().len() > 0 {
            s.last()
        } else {
            None
        },
        None => None,
    }
}

/// The platform part of a chromedriver download address.
pub open spec fn chrome_token(os: Os) -> Option<Seq<char>> {
    match os {
        Os::Linux => Some("linux64"@),
        Os::MacOs => Some("mac64"@),
        Os::Windows => Some("win32"@),
        Os::Other { .. } => None,
    }
}

/// `<base>/<release>/<platform>/chromedriver-<platform>.zip`
pub open spec fn chrome_url_text(release: Seq<char>, token: Seq<char>) -> Seq<char> {
    CHROME_BASE_URL@ + "/"@ + release + "/"@ + token + "/chromedriver-"@ + token + ".zip"@
}

/// What building the chromedriver address of `release` for `os` gives: the parsed address,
/// or an error that carries the text that did not parse or the system that has no download.
pub open spec fn chrome_download(release: Seq<char>, os: Os, r: Result<String, Error>) -> bool {
    match chrome_token(os) {
        Some(t) => match url_serialization(chrome_url_text(release, t)) {
            Some(s) => r matches Ok(u) && u@ == s,
            None => r matches Err(Error::InvalidUrl { url }) && url@ == chrome_url_text(release, t),
        },
        None => r matches Err(Error::UnsupportedPlatform { os: n }) && (os matches Os::Other {
            name,
        } && n@ == name@),
    }
}

/// The chromedriver family: releases from the known-good versions list.
pub struct Chromedriver {}

impl Chromedriver {
    pub fn new() -> (r: Self) {
        Chromedriver {  }
    }

    /// The platform part of the download address for `os`.
    pub fn platform(os: &Os) -> (r: Result<String, Error>)
        ensures
            match chrome_token(*os) {
                Some(t) => r matches Ok(s) && s@ == t,
                None => r matches Err(Error::UnsupportedPlatform { os: n }) && (os matches Os::Other {
                    name,
                } && n@ == name@),
            },
    {
        match os {
            Os::Linux => Ok(String::from_str("linux64")),
            Os::MacOs => Ok(String::from_str("mac64")),
            Os::Windows => Ok(String::from_str("win32")),
            Os::Other { name } => Err(Error::UnsupportedPlatform { os: name.clone() }),
        }
    }

    /// The address of the chromedriver archive of `release` for `os`.
    pub fn direct_download_url(&self, release: &str, os: &Os) -> (r: Result<String, Error>)
        ensures
            chrome_download(release@, *os, r),
    {
        let token = match Chromedriver::platform(os) {
            Ok(t) => t,
            Err(e) => {
                return Err(e);
            },
        };
        let text = String::from_str(CHROME_BASE_URL).concat("/").concat(release).concat("/").concat(
            token.as_str(),
        ).concat("/chromedriver-").concat(token.as_str()).concat(".zip");
        match parse_url(text.as_str()) {
            Some(u) => Ok(u),
            None => Err(Error::InvalidUrl { url: text }),
        }
    }

    /// The newest release in the known-good versions document: the `version` of the
    /// last element of its `versions` list. The list is taken to run oldest first; it is
    /// not searched for a larger version.
    pub fn latest_version(&self, document: &str) -> (r: Result<String, Error>)
        ensures
            match latest_release_in(document@) {
                Some(v) => r matches Ok(s) && s@ == v,
                None => r matches Err(e) && e is Resolution,
            },
    {
        let versions = match list_field_texts(document, "versions", "version") {
            Some(v) => v,
            None => {
                return Err(Error::Resolution { message: String::from_str(CHROME_VERSIONS_URL) });
            },
        };
        if versions.len() == 0 {
            return Err(Error::Resolution { message: String::from_str(CHROME_VERSIONS_URL) });
        }
        let ghost s = json_list_fields(document@, "versions"@, "version"@).unwrap();
        assert(text_of(versions@[versions.len() - 1]) == s.last());
        match &versions[versions.len() - 1] {
            Some(v) => if v.unicode_len() > 0 {
                Ok(v.clone())
            } else {
                Err(Error::Resolution { message: String::from_str(CHROME_VERSIONS_URL) })
            },
            None => Err(Error::Resolution { message: String::from_str(CHROME_VERSIONS_URL) }),
        }
    }
}

/// The chromedriver address of a release has the platform's part in its last two
/// segments: `linux64`, `mac64` or `win32`.
pub proof fn law_chrome_url_shape(release: Seq<char>)
    ensures
        chrome_url_text(release, chrome_token(Os::Linux).unwrap()) == CHROME_BASE_URL@ + "/"@
            + release + "/linux64/chromedriver-linux64.zip"@,
        chrome_url_text(release, chrome_token(Os::MacOs).unwrap()) == CHROME_BASE_URL@ + "/"@
            + release + "/mac64/chromedriver-mac64.zip"@,
        chrome_url_text(release, chrome_token(Os::Windows).unwrap()) == CHROME_BASE_URL@ + "/"@
            + release + "/win32/chromedriver-win32.zip"@,
{
    reveal_strlit("/");
    reveal_strlit("/chromedriver-");
    reveal_strlit(".zip");
    reveal_strlit("linux64");
    reveal_strlit("mac64");
    reveal_strlit("win32");
    reveal_strlit("/linux64/chromedriver-linux64.zip");
    reveal_strlit("/mac64/chromedriver-mac64.zip");
    reveal_strlit("/win32/chromedriver-win32.zip");
    let b = CHROME_BASE_URL@ + "/"@ + release;
    assert("/"@ + "linux64"@ + "/chromedriver-"@ + "linux64"@ + ".zip"@
        =~= "/linux64/chromedriver-linux64.zip"@);
    assert("/"@ + "mac64"@ + "/chromedriver-"@ + "mac64"@ + ".zip"@ =~= "/mac64/chromedriver-mac64.zip"@);
    assert("/"@ + "win32"@ + "/chromedriver-"@ + "win32"@ + ".zip"@ =~= "/win32/chromedriver-win32.zip"@);
    assert(b + "/"@ + "linux64"@ + "/chromedriver-"@ + "linux64"@ + ".zip"@ =~= b + "/linux64/chromedriver-linux64.zip"@);
    assert(b + "/"@ + "mac64"@ + "/chromedriver-"@ + "mac64"@ + ".zip"@ =~= b + "/mac64/chromedriver-mac64.zip"@);
    assert(b + "/"@ + "win32"@ + "/chromedriver-"@ + "win32"@ + ".zip"@ =~= b + "/win32/chromedriver-win32.zip"@);
}

/// On a supported system, where the address text parses, the chromedriver address of a
/// release is the parsed `<base>/<release>/<platform>/chromedriver-<platform>.zip`, with
/// `linux64`, `mac64` or `win32` as the platform's part.
pub proof fn law_chrome_download_url(release: Seq<char>, os: Os, r: Result<String, Error>)
    requires
        chrome_download(release, os, r),
        !(os is Other),
        url_serialization(chrome_url_text(release, chrome_token(os).unwrap())) is Some,
    ensures
        os is Linux ==> (r matches Ok(u) && Some(u@) == url_serialization(
            CHROME_BASE_URL@ + "/"@ + release + "/linux64/chromedriver-linux64.zip"@,
        )),
        os is MacOs ==> (r matches Ok(u) && Some(u@) == url_serialization(
            CHROME_BASE_URL@ + "/"@ + release + "/mac64/chromedriver-mac64.zip"@,
        )),
        os is Windows ==> (r matches Ok(u) && Some(u@) == url_serialization(
            CHROME_BASE_URL@ + "/"@ + release + "/win32/chromedriver-win32.zip"@,
        )),
{
    law_chrome_url_shape(release);
}

} // verus!
