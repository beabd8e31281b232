use vstd::prelude::*;
use vstd::string::*;

verus! {

/// The text that `url::Url` serializes an address to, after parsing `text`; `None` where
/// `text` does not parse.
pub uninterp spec fn url_serialization(text: Seq<char>) -> Option<Seq<char>>;

/// The path segments of the address `text`; `None` where it does not parse or
/// cannot be a base.
pub uninterp spec fn url_path_segments(text: Seq<char>) -> Option<Seq<Seq<char>>>;

/// Relies on url::Url::parse: whether the text parses, and the serialized address, depend
/// on the text alone.
#[verifier::external_body]
pub(crate) fn parse_url(text: &str) -> (r: Option<String>)
    ensures
        match url_serialization(text@) {
            None => r is None,
            Some(s) => r matches Some(u) && u@ == s,
        },
{
    url::Url::parse(text).ok().map(String::from)
}

/// Relies on url::Url::parse and Url::path_segments: the segments depend on the text
/// alone, and where there are any there is at least one (it may be empty).
#[verifier::external_body]
fn path_segments(url: &str) -> (r: Option<Vec<String>>)
    ensures
        match url_path_segments(url@) {
            None => r is None,
            Some(segs) => r matches Some(v) && v@.len() == segs.len() && forall|k: int|
                0 <= k < segs.len() ==> #[trigger] v@[k]@ == segs[k],
        },
        r matches Some(v) ==> v@.len() >= 1,
{
    match url::Url::parse(url) {
        Ok(u) => u.path_segments().map(|s| s.map(String::from).collect()),
        Err(_) => None,
    }
}

/// The last path segment of the address `url`, where it has one that is not empty.
pub open spec fn last_segment(url: Seq<char>) -> Option<Seq<char>> {
    match url_path_segments(url) {
        Some(segs) => if segs.len() > 0 && segs.last().len() > 0 {
            Some(segs.last())
        } else {
            None
        },
        None => None,
    }
}

/// The last path segment of the address `url`, where it has one that is not empty.
pub fn last_path_segment(url: &str) -> (r: Option<String>)
    ensures
        match last_segment(url@) {
            None => r is None,
            Some(s) => r matches Some(t) && t@ == s,
        },
{
    match path_segments(url) {
        Some(v) => {
            let last = &v[v.len() - 1];
            if last.unicode_len() > 0 {
                Some(last.clone())
            } else {
                None
            }
        },
        None => None,
    }
}

/// The file name that stands for an archive when its address names none.
pub const PLACEHOLDER_ARCHIVE_NAME: &'static str = "tmp.bin";

/// The archive's file name, taken from the last path segment of its address.
pub fn archive_filename(url: &str) -> (r: String)
    ensures
        match last_segment(url@) {
            Some(s) => r@ == s,
            None => r@ == PLACEHOLDER_ARCHIVE_NAME@,
        },
{
    match last_path_segment(url) {
        Some(s) => s,
        None => String::from_str(PLACEHOLDER_ARCHIVE_NAME),
    }
}

} // verus!
