use std::io::Read;
use vstd::prelude::*;
use vstd::string::*;

use crate::error::Error;
use crate::text::{after_last, ends_with, has_suffix, last_index_before, names_of, text_after_last};

verus! {

/// How an archive is packed, as its file name tells.
#[derive(Debug, Clone, Copy, PartialEq, Eq, Structural)]
pub enum ArchiveKind {
    TarGz,
    Zip,
}

/// The kind that a file name's suffix selects.
pub open spec fn kind_of(filename: Seq<char>) -> Option<ArchiveKind> {
    if ends_with(filename, "tar.gz"@) {
        Some(ArchiveKind::TarGz)
    } else if ends_with(filename, "zip"@) {
        Some(ArchiveKind::Zip)
    } else {
        None
    }
}

/// The suffix of a file name: what follows its last dot.
pub open spec fn suffix_of(filename: Seq<char>) -> Seq<char> {
    after_last(filename, '.')
}

/// The last component of a `/`-separated entry path.
pub open spec fn base_name(path: Seq<char>) -> Seq<char> {
    after_last(path, '/')
}

pub open spec fn is_wanted_name(wanted: Seq<Seq<char>>, name: Seq<char>) -> bool {
    exists|k: int| 0 <= k < wanted.len() && wanted[k] == name
}

/// Index of the first name at or after `i` that is wanted.
pub open spec fn first_wanted_from(names: Seq<Seq<char>>, wanted: Seq<Seq<char>>, i: int) -> Option<
    int,
>
    decreases names.len() - i,
{
    if i < 0 || i >= names.len() {
        None
    } else if is_wanted_name(wanted, names[i]) {
        Some(i)
    } else {
        first_wanted_from(names, wanted, i + 1)
    }
}

pub open spec fn first_wanted(names: Seq<Seq<char>>, wanted: Seq<Seq<char>>) -> Option<int> {
    first_wanted_from(names, wanted, 0)
}

/// The one entry taken out of an archive: its path inside the archive and its bytes.
#[derive(Debug)]
pub struct ExtractedEntry {
    pub name: String,
    pub contents: Vec<u8>,
}

/// Which unpacking a file name asks for.
pub fn archive_kind(filename: &str) -> (r: Result<ArchiveKind, Error>)
    ensures
        match kind_of(filename@) {
            Some(k) => r == Ok::<ArchiveKind, Error>(k),
            None => r matches Err(Error::UnsupportedArchive { suffix }) && suffix@ == suffix_of(
                filename@,
            ),
        },
{
    if has_suffix(filename, "tar.gz") {
        Ok(ArchiveKind::TarGz)
    } else if has_suffix(filename, "zip") {
        Ok(ArchiveKind::Zip)
    } else {
        Err(Error::UnsupportedArchive { suffix: text_after_last(filename, '.') })
    }
}

/// Whether `name` is one of `wanted`.
pub fn is_wanted(name: &str, wanted: &Vec<String>) -> (r: bool)
    ensures
        r == is_wanted_name(names_of(wanted@), name@),
{
    let mut i: usize = 0;
    while i < wanted.len()
        invariant
            i <= wanted.len(),
            forall|k: int| 0 <= k < i ==> wanted@[k]@ != name@,
        decreases wanted.len() - i,
    {
        if String::from_str(name) == wanted[i] {
            assert(names_of(wanted@)[i as int] == name@);
            return true;
        }
        i = i + 1;
    }
    assert forall|k: int| 0 <= k < names_of(wanted@).len() implies names_of(wanted@)[k] != name@ by {
        assert(names_of(wanted@)[k] == wanted@[k]@);
    }
    false
}

/// The base names of a tar listing's entries.
pub open spec fn base_names(es: Seq<(Seq<char>, Seq<u8>)>) -> Seq<Seq<char>> {
    es.map_values(|e: (Seq<char>, Seq<u8>)| base_name(e.0))
}

/// What a gzip stream decompresses to; `None` where it is not a whole gzip stream.
pub uninterp spec fn gunzip_of(compressed: Seq<u8>) -> Option<Seq<u8>>;

/// The entries that `tar` reads from an uncompressed archive, in order, each as its path
/// and the bytes that reading it yields; `None` where a header, path or entry cannot be
/// read.
pub uninterp spec fn tar_entries_of(data: Seq<u8>) -> Option<Seq<(Seq<char>, Seq<u8>)>>;

/// The entries of a gzip-compressed tar archive, where it reads cleanly.
pub open spec fn tar_gz_listing(compressed: Seq<u8>) -> Option<Seq<(Seq<char>, Seq<u8>)>> {
    match gunzip_of(compressed) {
        Some(d) => tar_entries_of(d),
        None => None,
    }
}

/// A gzip-compressed tar archive read from memory, decompressed as its entries are read.
#[verifier::external_body]
pub struct TarArchive {
    inner: tar::Archive<flate2::read::GzDecoder<std::io::Cursor<Vec<u8>>>>,
}

/// A walk over the entries of a `TarArchive`, with the entry it is at.
#[verifier::external_body]
pub struct TarWalk<'a> {
    entries: tar::Entries<'a, flate2::read::GzDecoder<std::io::Cursor<Vec<u8>>>>,
    current: Option<tar::Entry<'a, flate2::read::GzDecoder<std::io::Cursor<Vec<u8>>>>>,
}

/// The compressed bytes of an archive that has not been read yet.
pub uninterp spec fn tar_source(a: TarArchive) -> Option<Seq<u8>>;

/// The entries a walk has still to yield, where they read cleanly.
pub uninterp spec fn tar_rest(w: TarWalk<'_>) -> Option<Seq<(Seq<char>, Seq<u8>)>>;

/// The bytes of the entry a walk is at, where they read cleanly.
pub uninterp spec fn tar_current(w: TarWalk<'_>) -> Option<Seq<u8>>;

/// How many more items the walk yields, an unreadable entry included.
pub uninterp spec fn tar_left(w: TarWalk<'_>) -> nat;

/// Relies on flate2::read::GzDecoder::new and tar::Archive::new: an archive that reads
/// the decompressed stream of `compressed` as it goes.
#[verifier::external_body]
fn open_tar_gz(compressed: Vec<u8>) -> (r: TarArchive)
    ensures
        tar_source(r) == Some(compressed@),
{
    TarArchive {
        inner: tar::Archive::new(flate2::read::GzDecoder::new(std::io::Cursor::new(compressed))),
    }
}

/// Relies on tar::Archive::entries: on an archive not yet read it succeeds, and the walk
/// yields the archive's entries in order. Where an entry cannot be read the walk yields an
/// error and ends.
#[verifier::external_body]
fn tar_entries<'a>(archive: &'a mut TarArchive) -> (r: Option<TarWalk<'a>>)
    ensures
        tar_source(*old(archive)) matches Some(c) ==> (r matches Some(w) && tar_rest(w)
            == match gunzip_of(c) {
            Some(d) => tar_entries_of(d),
            None => None,
        } && tar_current(w) is None && (tar_rest(w) matches Some(es) ==> tar_left(w) == es.len())),
{
    archive.inner.entries().ok().map(|entries| TarWalk { entries, current: None })
}

/// Relies on tar::Entries::next and tar::Entry::path: moves to the next entry and gives
/// its path; `Some(None)` for an entry that cannot be read, `None` at the end.
#[verifier::external_body]
fn next_tar_entry<'a>(w: &mut TarWalk<'a>) -> (r: Option<Option<String>>)
    ensures
        tar_left(*old(w)) == 0 ==> r is None,
        r is Some ==> tar_left(*final(w)) < tar_left(*old(w)),
        tar_rest(*old(w)) matches Some(es) ==> (es.len() == 0 ==> r is None),
        tar_rest(*old(w)) matches Some(es) ==> (es.len() > 0 ==> (r matches Some(Some(p)) && p@
            == es[0].0 && tar_rest(*final(w)) == Some(es.drop_first()) && tar_current(*final(w))
            == Some(es[0].1) && tar_left(*final(w)) == es.len() - 1)),
{
    match w.entries.next() {
        None => None,
        Some(Err(_)) => Some(None),
        Some(Ok(entry)) => {
            let path = entry.path().ok().map(|p| p.to_string_lossy().into_owned());
            w.current = Some(entry);
            Some(path)
        },
    }
}

/// Relies on tar::Entry's `Read`: the bytes of the entry the walk is at.
#[verifier::external_body]
fn read_current(w: &mut TarWalk) -> (r: Option<Vec<u8>>)
    ensures
        tar_current(*old(w)) matches Some(b) ==> (r matches Some(v) && v@ == b),
{
    let mut out = Vec::new();
    match &mut w.current {
        Some(entry) => match entry.read_to_end(&mut out) {
            Ok(_) => Some(out),
            Err(_) => None,
        },
        None => None,
    }
}

/// What taking an entry out of a gzip-compressed tar archive gives: a wanted entry in any
/// case, and where the archive reads cleanly, its first entry with a wanted base name, or
/// a contents error when there is none.
pub open spec fn tar_gz_extracts(
    compressed: Seq<u8>,
    wanted: Seq<Seq<char>>,
    r: Result<ExtractedEntry, Error>,
) -> bool {
    &&& r matches Ok(x) ==> is_wanted_name(wanted, base_name(x.name@))
    &&& tar_gz_listing(compressed) matches Some(es) ==> match first_wanted(base_names(es), wanted) {
        Some(k) => r matches Ok(x) && x.name@ == es[k].0 && x.contents@ == es[k].1,
        None => r matches Err(e) && e is ArchiveContents,
    }
}

/// The first entry of a gzip-compressed tar archive whose base name is wanted. The
/// archive is decompressed as it is read, and entries after that one are not read.
pub fn extract_tar_gz(compressed: Vec<u8>, wanted: &Vec<String>) -> (r: Result<ExtractedEntry, Error>)
    ensures
        tar_gz_extracts(compressed@, names_of(wanted@), r),
{
    let ghost listing = tar_gz_listing(compressed@);
    let ghost w = names_of(wanted@);
    let mut archive = open_tar_gz(compressed);
    let mut walk = match tar_entries(&mut archive) {
        Some(walk) => walk,
        None => {
            return Err(Error::Archive { message: String::from_str("tar") });
        },
    };
    let ghost mut i: int = 0;
    loop
        invariant_except_break
            0 <= i,
            listing == tar_gz_listing(compressed@),
            w == names_of(wanted@),
            listing matches Some(es) ==> (i <= es.len() && tar_rest(walk) == Some(es.subrange(i, es.len() as int))
                && tar_left(walk) == es.len() - i && first_wanted(base_names(es), w)
                == first_wanted_from(base_names(es), w, i)),
        ensures
            listing == tar_gz_listing(compressed@),
            w == names_of(wanted@),
            listing matches Some(es) ==> first_wanted(base_names(es), w) is None,
        decreases tar_left(walk),
    {
        match next_tar_entry(&mut walk) {
            None => {
                proof {
                    if let Some(es) = listing {
                        assert(es.subrange(i, es.len() as int).len() == 0);
                    }
                }
                break;
            },
            Some(None) => {
                return Err(Error::Archive { message: String::from_str("tar") });
            },
            Some(Some(path)) => {
                let base = text_after_last(path.as_str(), '/');
                proof {
                    if let Some(es) = listing {
                        assert(es.subrange(i, es.len() as int)[0] == es[i]);
                        assert(base_names(es)[i] == base_name(es[i].0));
                        assert(es.subrange(i, es.len() as int).drop_first() =~= es.subrange(i + 1, es.len() as int));
                    }
                }
                if is_wanted(base.as_str(), wanted) {
                    proof {
                        if let Some(es) = listing {
                            assert(first_wanted_from(base_names(es), w, i) == Some(i));
                        }
                    }
                    return match read_current(&mut walk) {
                        Some(contents) => Ok(ExtractedEntry { name: path, contents }),
                        None => Err(Error::Archive { message: path }),
                    };
                }
                proof {
                    i = i + 1;
                }
            },
        }
    }
    Err(Error::ArchiveContents { archive: String::from_str("tar.gz") })
}

#[verifier::external_type_specification]
#[verifier::external_body]
#[verifier::reject_recursive_types(R)]
pub struct ExZipArchive<R>(zip::ZipArchive<R>);

#[verifier::external_type_specification]
#[verifier::external_body]
#[verifier::reject_recursive_types(T)]
pub struct ExCursor<T>(std::io::Cursor<T>);

/// A zip archive read from memory.
pub type ZipBytes = zip::ZipArchive<std::io::Cursor<Vec<u8>>>;

/// The entries of a zip archive, in index order; `None` where its index cannot be read.
/// Each entry has its stored name where its data can be located in the archive, and its
/// decompressed bytes where it also opens with no password (an encrypted entry is tried
/// with the empty one), reads, and passes its checksum. An entry that asks for a password
/// it is not given, or uses a compression method this build cannot read, has no bytes.
pub uninterp spec fn zip_listing(bytes: Seq<u8>) -> Option<Seq<(Option<Seq<char>>, Option<Seq<u8>>)>>;

/// The bytes a zip archive reads from.
pub uninterp spec fn zip_source(z: zip::ZipArchive<std::io::Cursor<Vec<u8>>>) -> Seq<u8>;

/// Relies on zip::ZipArchive::new: reads the archive's index.
#[verifier::external_body]
fn open_zip(bytes: Vec<u8>) -> (r: Option<ZipBytes>)
    ensures
        match zip_listing(bytes@) {
            None => r is None,
            Some(_) => r matches Some(z) && zip_source(z) == bytes@,
        },
{
    zip::ZipArchive::new(std::io::Cursor::new(bytes)).ok()
}

/// Relies on zip::ZipArchive::len: the number of entries.
#[verifier::external_body]
fn zip_len(z: &ZipBytes) -> (r: usize)
    ensures
        zip_listing(zip_source(*z)) matches Some(es) ==> r == es.len(),
{
    z.len()
}

/// Relies on zip::ZipArchive::by_index_raw and ZipFile::name: the name stored for entry
/// `i`. `by_index_raw` locates the entry's data without opening it, and reports every
/// failure as an error.
#[verifier::external_body]
fn zip_entry_name(z: &mut ZipBytes, i: usize) -> (r: Option<String>)
    ensures
        zip_source(*final(z)) == zip_source(*old(z)),
        zip_listing(zip_source(*old(z))) matches Some(es) ==> (i < es.len() ==> match es[i as int].0 {
            None => r is None,
            Some(n) => r matches Some(s) && s@ == n,
        }),
{
    z.by_index_raw(i).ok().map(|f| f.name().to_string())
}

/// Relies on zip::ZipArchive::by_index_decrypt and ZipFile's `Read`: the decompressed bytes
/// of entry `i`. Unlike `by_index`, `by_index_decrypt` hands back a missing or wrong
/// password as a value rather than panicking on it; the empty password it is given is
/// dropped for an entry that is not encrypted.
#[verifier::external_body]
fn zip_entry_contents(z: &mut ZipBytes, i: usize) -> (r: Option<Vec<u8>>)
    ensures
        zip_source(*final(z)) == zip_source(*old(z)),
        zip_listing(zip_source(*old(z))) matches Some(es) ==> (i < es.len() ==> match es[i as int].1 {
            None => r is None,
            Some(d) => r matches Some(v) && v@ == d,
        }),
{
    let mut out = Vec::new();
    match z.by_index_decrypt(i, b"") {
        Ok(Ok(mut f)) => match f.read_to_end(&mut out) {
            Ok(_) => Some(out),
            Err(_) => None,
        },
        Ok(Err(_)) => None,
        Err(_) => None,
    }
}

/// Where a scan of zip entries from `i` stops: at the first entry that cannot be opened
/// or whose name is wanted.
pub open spec fn zip_stop(
    es: Seq<(Option<Seq<char>>, Option<Seq<u8>>)>,
    wanted: Seq<Seq<char>>,
    i: int,
) -> Option<int>
    decreases es.len() - i,
{
    if i < 0 || i >= es.len() {
        None
    } else {
        match es[i].0 {
            None => Some(i),
            Some(n) => if is_wanted_name(wanted, n) {
                Some(i)
            } else {
                zip_stop(es, wanted, i + 1)
            },
        }
    }
}

/// What taking an entry out of a zip archive gives: the first entry, in index order, whose
/// stored name is wanted, with its bytes; a contents error when no entry is wanted; an
/// archive error where the index, an earlier entry or that entry cannot be read.
pub open spec fn zip_extracts(bytes: Seq<u8>, wanted: Seq<Seq<char>>, r: Result<ExtractedEntry, Error>) -> bool {
    match zip_listing(bytes) {
        None => r matches Err(e) && e is Archive,
        Some(es) => match zip_stop(es, wanted, 0) {
            None => r matches Err(e) && e is ArchiveContents,
            Some(k) => match es[k] {
                (Some(n), Some(d)) => r matches Ok(x) && x.name@ == n && x.contents@ == d,
                _ => r matches Err(e) && e is Archive,
            },
        },
    }
}

proof fn lemma_zip_stop(es: Seq<(Option<Seq<char>>, Option<Seq<u8>>)>, wanted: Seq<Seq<char>>, i: int)
    requires
        zip_stop(es, wanted, i) is Some,
    ensures
        ({
            let k = zip_stop(es, wanted, i).unwrap();
            &&& i <= k < es.len()
            &&& es[k].0 matches Some(n) ==> is_wanted_name(wanted, n)
        }),
    decreases es.len() - i,
{
    if 0 <= i < es.len() && es[i].0 is Some && !is_wanted_name(wanted, es[i].0.unwrap()) {
        lemma_zip_stop(es, wanted, i + 1);
    }
}

/// The first entry of a zip archive, in index order, whose stored name is wanted.
pub fn extract_zip(bytes: Vec<u8>, wanted: &Vec<String>) -> (r: Result<ExtractedEntry, Error>)
    ensures
        zip_extracts(bytes@, names_of(wanted@), r),
{
    let ghost listing = zip_listing(bytes@);
    let ghost w = names_of(wanted@);
    let mut z = match open_zip(bytes) {
        Some(z) => z,
        None => {
            return Err(Error::Archive { message: String::from_str("zip") });
        },
    };
    let ghost es = listing.unwrap();
    let n = zip_len(&z);
    let mut i: usize = 0;
    while i < n
        invariant
            listing == Some(es),
            listing == zip_listing(bytes@),
            zip_listing(zip_source(z)) == listing,
            n == es.len(),
            i <= n,
            w == names_of(wanted@),
            zip_stop(es, w, 0) == zip_stop(es, w, i as int),
        decreases n - i,
    {
        let name = match zip_entry_name(&mut z, i) {
            Some(name) => name,
            None => {
                assert(zip_stop(es, w, i as int) == Some(i as int));
                return Err(Error::Archive { message: String::from_str("zip") });
            },
        };
        assert(es[i as int].0 == Some(name@));
        if is_wanted(name.as_str(), wanted) {
            assert(zip_stop(es, w, i as int) == Some(i as int));
            return match zip_entry_contents(&mut z, i) {
                Some(contents) => Ok(ExtractedEntry { name, contents }),
                None => Err(Error::Archive { message: name }),
            };
        }
        i = i + 1;
    }
    Err(Error::ArchiveContents { archive: String::from_str("zip") })
}

/// What taking an entry out of an archive named `filename` gives.
pub open spec fn extracts(
    filename: Seq<char>,
    bytes: Seq<u8>,
    wanted: Seq<Seq<char>>,
    r: Result<ExtractedEntry, Error>,
) -> bool {
    match kind_of(filename) {
        None => r matches Err(Error::UnsupportedArchive { suffix }) && suffix@ == suffix_of(filename),
        Some(ArchiveKind::TarGz) => tar_gz_extracts(bytes, wanted, r),
        Some(ArchiveKind::Zip) => zip_extracts(bytes, wanted, r),
    }
}

/// Takes the first wanted entry out of an archive, unpacking it as the suffix of its
/// file name says: `tar.gz` matches entries by base name, `zip` by stored name.
pub fn extract(filename: &str, bytes: Vec<u8>, wanted: &Vec<String>) -> (r: Result<ExtractedEntry, Error>)
    ensures
        extracts(filename@, bytes@, names_of(wanted@), r),
{
    match archive_kind(filename) {
        Err(e) => Err(e),
        Ok(ArchiveKind::TarGz) => extract_tar_gz(bytes, wanted),
        Ok(ArchiveKind::Zip) => extract_zip(bytes, wanted),
    }
}

proof fn lemma_first_wanted_is(names: Seq<Seq<char>>, wanted: Seq<Seq<char>>, i: int, k: int)
    requires
        0 <= i <= k < names.len(),
        is_wanted_name(wanted, names[k]),
        forall|j: int| i <= j < k ==> !is_wanted_name(wanted, #[trigger] names[j]),
    ensures
        first_wanted_from(names, wanted, i) == Some(k),
    decreases k - i,
{
    if i < k {
        lemma_first_wanted_is(names, wanted, i + 1, k);
    }
}

/// From a gzip-compressed tar archive that reads cleanly, the entry taken out is the first
/// one whose base name is wanted, with exactly its bytes; entries before it, such as a
/// licence text, are passed over.
pub proof fn law_tar_gz_first_wanted_entry(
    compressed: Seq<u8>,
    wanted: Seq<Seq<char>>,
    k: int,
    r: Result<ExtractedEntry, Error>,
)
    requires
        tar_gz_listing(compressed) is Some,
        ({
            let es = tar_gz_listing(compressed).unwrap();
            &&& 0 <= k < es.len()
            &&& is_wanted_name(wanted, base_name(es[k].0))
            &&& forall|j: int| 0 <= j < k ==> !is_wanted_name(wanted, #[trigger] base_name(es[j].0))
        }),
        tar_gz_extracts(compressed, wanted, r),
    ensures
        ({
            let es = tar_gz_listing(compressed).unwrap();
            r matches Ok(x) && x.name@ == es[k].0 && x.contents@ == es[k].1
        }),
{
    let es = tar_gz_listing(compressed).unwrap();
    let names = base_names(es);
    assert forall|j: int| 0 <= j < k implies !is_wanted_name(wanted, #[trigger] names[j]) by {
        assert(names[j] == base_name(es[j].0));
    }
    lemma_first_wanted_is(names, wanted, 0, k);
}

proof fn lemma_zip_stop_is(
    es: Seq<(Option<Seq<char>>, Option<Seq<u8>>)>,
    wanted: Seq<Seq<char>>,
    i: int,
    k: int,
)
    requires
        0 <= i <= k < es.len(),
        es[k].0 is Some && is_wanted_name(wanted, es[k].0.unwrap()),
        forall|j: int| i <= j < k ==> #[trigger] es[j].0 is Some && !is_wanted_name(wanted, es[j].0.unwrap()),
    ensures
        zip_stop(es, wanted, i) == Some(k),
    decreases k - i,
{
    if i < k {
        lemma_zip_stop_is(es, wanted, i + 1, k);
    }
}

/// From a zip archive whose entries up to the first wanted one open, that entry is taken
/// out with exactly its bytes, where they read; entries before it are passed over.
pub proof fn law_zip_first_wanted_entry(
    bytes: Seq<u8>,
    wanted: Seq<Seq<char>>,
    k: int,
    r: Result<ExtractedEntry, Error>,
)
    requires
        zip_listing(bytes) is Some,
        ({
            let es = zip_listing(bytes).unwrap();
            &&& 0 <= k < es.len()
            &&& es[k].0 is Some && is_wanted_name(wanted, es[k].0.unwrap())
            &&& es[k].1 is Some
            &&& forall|j: int|
                0 <= j < k ==> #[trigger] es[j].0 is Some && !is_wanted_name(wanted, es[j].0.unwrap())
        }),
        zip_extracts(bytes, wanted, r),
    ensures
        ({
            let es = zip_listing(bytes).unwrap();
            r matches Ok(x) && x.name@ == es[k].0.unwrap() && x.contents@ == es[k].1.unwrap()
        }),
{
    let es = zip_listing(bytes).unwrap();
    lemma_zip_stop_is(es, wanted, 0, k);
}

/// A file name that ends in a suffix of neither kind is refused, and the error names
/// the suffix: `driver.7z` is refused naming `7z`.
pub proof fn law_unknown_suffix_named(stem: Seq<char>, ext: Seq<char>)
    requires
        forall|k: int| 0 <= k < ext.len() ==> ext[k] != '.',
        kind_of(stem + seq!['.'] + ext) is None,
    ensures
        suffix_of(stem + seq!['.'] + ext) == ext,
{
    let s = stem + seq!['.'] + ext;
    lemma_last_dot(s, stem.len() as int, s.len() as int);
    assert(s.subrange(stem.len() as int + 1, s.len() as int) =~= ext);
}

proof fn lemma_last_dot(s: Seq<char>, d: int, end: int)
    requires
        0 <= d < end <= s.len(),
        s[d] == '.',
        forall|k: int| d < k < s.len() ==> s[k] != '.',
    ensures
        last_index_before(s, '.', end) == d,
    decreases end,
{
    if end - 1 > d {
        lemma_last_dot(s, d, end - 1);
    }
}

} // verus!
