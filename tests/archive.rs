use std::io::{Cursor, Write};

use webdriver_install::archive::{archive_kind, extract_tar_gz, extract_zip};
use webdriver_install::{extract, ArchiveKind, Error};

fn tar_gz(entries: &[(&str, &[u8])]) -> Vec<u8> {
    let enc = flate2::write::GzEncoder::new(Vec::new(), flate2::Compression::default());
    let mut builder = tar::Builder::new(enc);
    for (name, data) in entries {
        let mut header = tar::Header::new_gnu();
        header.set_size(data.len() as u64);
        header.set_mode(0o644);
        header.set_cksum();
        builder.append_data(&mut header, name, *data).unwrap();
    }
    builder.into_inner().unwrap().finish().unwrap()
}

fn zip_bytes(entries: &[(&str, &[u8])]) -> Vec<u8> {
    let mut w = zip::ZipWriter::new(Cursor::new(Vec::new()));
    for (name, data) in entries {
        w.start_file(*name, zip::write::FileOptions::default()).unwrap();
        w.write_all(data).unwrap();
    }
    w.finish().unwrap().into_inner()
}

fn names(v: &[&str]) -> Vec<String> {
    v.iter().map(|s| s.to_string()).collect()
}

#[test]
fn tar_gz_takes_only_the_driver() {
    let bytes = tar_gz(&[("LICENSE", b"license text"), ("geckodriver", b"\x7fELF driver")]);
    let e = extract("geckodriver-v1-linux64.tar.gz", bytes, &names(&["geckodriver"])).unwrap();
    assert_eq!(e.name, "geckodriver");
    assert_eq!(e.contents, b"\x7fELF driver".to_vec());
}

#[test]
fn tar_gz_matches_base_name_and_keeps_path() {
    let bytes = tar_gz(&[("dist/README", b"r"), ("dist/geckodriver", b"bin"), ("geckodriver", b"later")]);
    let e = extract("a.tar.gz", bytes, &names(&["geckodriver", "geckodriver.exe"])).unwrap();
    assert_eq!(e.name, "dist/geckodriver");
    assert_eq!(e.contents, b"bin".to_vec());
}

#[test]
fn zip_takes_the_wanted_entry_byte_for_byte() {
    let payload: Vec<u8> = (0..5000u32).map(|i| (i * 7 % 251) as u8).collect();
    let bytes = zip_bytes(&[("notices.txt", b"notices"), ("chromedriver.exe", &payload)]);
    let e = extract("chromedriver-win32.zip", bytes, &names(&["chromedriver.exe"])).unwrap();
    assert_eq!(e.name, "chromedriver.exe");
    assert_eq!(e.contents, payload);
}

#[test]
fn zip_first_wanted_in_index_order() {
    let bytes = zip_bytes(&[("a", b"1"), ("chromedriver", b"2"), ("chromedriver.exe", b"3")]);
    let e = extract_zip(bytes, &names(&["chromedriver.exe", "chromedriver"])).unwrap();
    assert_eq!(e.name, "chromedriver");
    assert_eq!(e.contents, b"2".to_vec());
}

#[test]
fn unknown_suffix_is_named() {
    match extract("geckodriver-v1.7z", vec![1, 2, 3], &names(&["geckodriver"])) {
        Err(Error::UnsupportedArchive { suffix }) => assert_eq!(suffix, "7z"),
        r => panic!("unexpected {:?}", r),
    }
    match archive_kind("tmp.bin") {
        Err(Error::UnsupportedArchive { suffix }) => assert_eq!(suffix, "bin"),
        r => panic!("unexpected {:?}", r),
    }
}

#[test]
fn kinds_by_suffix() {
    assert_eq!(archive_kind("x.tar.gz").unwrap(), ArchiveKind::TarGz);
    assert_eq!(archive_kind("x.zip").unwrap(), ArchiveKind::Zip);
    assert_eq!(archive_kind("zip").unwrap(), ArchiveKind::Zip);
    assert!(archive_kind("x.gz").is_err());
}

#[test]
fn archive_without_the_driver() {
    let bytes = zip_bytes(&[("notices.txt", b"n")]);
    assert!(matches!(
        extract("c.zip", bytes, &names(&["chromedriver"])),
        Err(Error::ArchiveContents { .. })
    ));
    let bytes = tar_gz(&[("LICENSE", b"l")]);
    assert!(matches!(
        extract("g.tar.gz", bytes, &names(&["geckodriver"])),
        Err(Error::ArchiveContents { .. })
    ));
}

#[test]
fn corrupt_archives_are_refused() {
    assert!(matches!(
        extract("g.tar.gz", vec![1, 2, 3, 4], &names(&["geckodriver"])),
        Err(Error::Archive { .. })
    ));
    assert!(matches!(
        extract("c.zip", vec![1, 2, 3, 4], &names(&["chromedriver"])),
        Err(Error::Archive { .. })
    ));
}

#[test]
fn tar_gz_first_wanted_entry_wins() {
    let bytes = tar_gz(&[("a/geckodriver.exe", b"one"), ("geckodriver", b"two")]);
    let e = extract_tar_gz(bytes, &names(&["geckodriver", "geckodriver.exe"])).unwrap();
    assert_eq!(e.name, "a/geckodriver.exe");
    assert_eq!(e.contents, b"one".to_vec());
}

#[test]
fn tar_gz_with_damaged_trailer_still_yields_earlier_entry() {
    let mut bytes = tar_gz(&[("geckodriver", b"driver")]);
    let n = bytes.len();
    bytes[n - 1] ^= 0xff;
    bytes[n - 5] ^= 0xff;
    let e = extract_tar_gz(bytes, &names(&["geckodriver"])).unwrap();
    assert_eq!(e.contents, b"driver".to_vec());
}

fn le16(v: &mut Vec<u8>, x: u16) {
    v.extend_from_slice(&x.to_le_bytes());
}

fn le32(v: &mut Vec<u8>, x: u32) {
    v.extend_from_slice(&x.to_le_bytes());
}

/// One stored entry whose central header carries an AES extra field while its
/// encryption flag is clear.
fn zip_with_aes_field(name: &[u8], data: &[u8]) -> Vec<u8> {
    let extra: [u8; 11] = [0x01, 0x99, 7, 0, 1, 0, 0x41, 0x45, 1, 0, 0];
    let mut v = Vec::new();
    le32(&mut v, 0x04034b50);
    for x in [20u16, 0, 0, 0, 0] {
        le16(&mut v, x);
    }
    le32(&mut v, 0);
    le32(&mut v, data.len() as u32);
    le32(&mut v, data.len() as u32);
    le16(&mut v, name.len() as u16);
    le16(&mut v, 0);
    v.extend_from_slice(name);
    v.extend_from_slice(data);
    let cd_start = v.len() as u32;
    le32(&mut v, 0x02014b50);
    for x in [20u16, 20, 0, 0, 0, 0] {
        le16(&mut v, x);
    }
    le32(&mut v, 0);
    le32(&mut v, data.len() as u32);
    le32(&mut v, data.len() as u32);
    le16(&mut v, name.len() as u16);
    le16(&mut v, extra.len() as u16);
    for x in [0u16, 0, 0] {
        le16(&mut v, x);
    }
    le32(&mut v, 0);
    le32(&mut v, 0);
    v.extend_from_slice(name);
    v.extend_from_slice(&extra);
    let cd_size = v.len() as u32 - cd_start;
    le32(&mut v, 0x06054b50);
    for x in [0u16, 0, 1, 1] {
        le16(&mut v, x);
    }
    le32(&mut v, cd_size);
    le32(&mut v, cd_start);
    le16(&mut v, 0);
    v
}

#[test]
fn zip_entry_asking_for_a_password_is_an_archive_error() {
    let bytes = zip_with_aes_field(b"chromedriver", b"MZ");
    assert!(matches!(
        extract_zip(bytes.clone(), &names(&["chromedriver"])),
        Err(Error::Archive { .. })
    ));
    assert!(matches!(
        extract_zip(bytes, &names(&["geckodriver"])),
        Err(Error::ArchiveContents { .. })
    ));
}
