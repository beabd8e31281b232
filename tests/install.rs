use std::io::{Cursor, Write};

use webdriver_install::location::Location;
use webdriver_install::{Action, Driver, Error, Install, Os, Platform, Stage, TargetProblem};

fn linux() -> Platform {
    Platform { os: Os::Linux, pointer_width: 64 }
}

#[test]
fn driver_names() {
    assert_eq!(Driver::Chrome.as_str(), "chromedriver");
    assert_eq!(Driver::Gecko.as_str(), "geckodriver");
    assert_eq!(Driver::from_str("chromedriver"), Some(Driver::Chrome));
    assert_eq!(Driver::from_str("geckodriver"), Some(Driver::Gecko));
    assert_eq!(Driver::from_str("operadriver"), None);
    assert_eq!(
        Driver::Gecko.executable_names(),
        vec!["geckodriver".to_string(), "geckodriver.exe".to_string()]
    );
}

#[test]
fn missing_target_fails_before_any_request() {
    let mut install = Install::new(Driver::Gecko, "/no/such/dir".to_string(), linux());
    match install.start() {
        Action::CheckTarget { dir } => assert_eq!(dir, "/no/such/dir"),
        a => panic!("unexpected {:?}", a),
    }
    match install.on_target_checked(false, false) {
        Action::Fail { error: Error::InvalidTarget { problem } } => {
            assert_eq!(problem, TargetProblem::Missing)
        }
        a => panic!("unexpected {:?}", a),
    }
    assert!(matches!(install.stage, Stage::Failed));
}

#[test]
fn target_that_is_a_file_fails() {
    let mut install = Install::new(Driver::Chrome, "/etc/hosts".to_string(), linux());
    assert!(matches!(
        install.on_target_checked(true, false),
        Action::Fail { error: Error::InvalidTarget { problem: TargetProblem::NotADirectory } }
    ));
}

#[test]
fn gecko_install_steps() {
    let mut install = Install::new(Driver::Gecko, "/tmp/drivers".to_string(), linux());
    match install.on_target_checked(true, true) {
        Action::FetchFinalUrl { url } => {
            assert_eq!(url, "https://github.com/mozilla/geckodriver/releases/latest")
        }
        a => panic!("unexpected {:?}", a),
    }
    let url = match install.on_release("https://github.com/mozilla/geckodriver/releases/tag/v0.35.0") {
        Action::FetchBytes { url } => url,
        a => panic!("unexpected {:?}", a),
    };
    assert_eq!(
        url,
        "https://github.com/mozilla/geckodriver/releases/download/v0.35.0/geckodriver-v0.35.0-linux64.tar.gz"
    );

    let enc = flate2::write::GzEncoder::new(Vec::new(), flate2::Compression::default());
    let mut builder = tar::Builder::new(enc);
    for (name, data) in [("LICENSE", &b"l"[..]), ("geckodriver", &b"exe"[..])] {
        let mut header = tar::Header::new_gnu();
        header.set_size(data.len() as u64);
        header.set_cksum();
        builder.append_data(&mut header, name, data).unwrap();
    }
    let bytes = builder.into_inner().unwrap().finish().unwrap();
    match install.on_archive(bytes) {
        Action::WriteExecutable { path, contents } => {
            assert_eq!(path, "/tmp/drivers/geckodriver");
            assert_eq!(contents, b"exe".to_vec());
        }
        a => panic!("unexpected {:?}", a),
    }
    match install.on_written() {
        Action::Done { path } => assert_eq!(path, "/tmp/drivers/geckodriver"),
        a => panic!("unexpected {:?}", a),
    }
}

#[test]
fn chrome_install_steps() {
    let mut install = Install::new(
        Driver::Chrome,
        "/opt/w".to_string(),
        Platform { os: Os::Windows, pointer_width: 64 },
    );
    match install.on_target_checked(true, true) {
        Action::FetchText { url } => assert!(url.ends_with("known-good-versions-with-downloads.json")),
        a => panic!("unexpected {:?}", a),
    }
    let doc = r#"{"versions":[{"version":"1.0.0.1"},{"version":"131.0.6778.85"}]}"#;
    match install.on_release(doc) {
        Action::FetchBytes { url } => assert_eq!(
            url,
            "https://storage.googleapis.com/chrome-for-testing-public/131.0.6778.85/win32/chromedriver-win32.zip"
        ),
        a => panic!("unexpected {:?}", a),
    }
    let mut w = zip::ZipWriter::new(Cursor::new(Vec::new()));
    w.start_file("notices.txt", zip::write::FileOptions::default()).unwrap();
    w.write_all(b"n").unwrap();
    w.start_file("chromedriver.exe", zip::write::FileOptions::default()).unwrap();
    w.write_all(b"MZ").unwrap();
    let bytes = w.finish().unwrap().into_inner();
    match install.on_archive(bytes) {
        Action::WriteExecutable { path, contents } => {
            assert!(path.ends_with("chromedriver.exe"));
            assert_eq!(contents, b"MZ".to_vec());
        }
        a => panic!("unexpected {:?}", a),
    }
}

#[test]
fn unknown_archive_suffix_fails_the_install() {
    let mut install = Install::new(Driver::Gecko, "/tmp".to_string(), linux());
    install.stage = Stage::Download { url: "https://example.com/d/driver.7z".to_string() };
    match install.on_archive(vec![0; 10]) {
        Action::Fail { error: Error::UnsupportedArchive { suffix } } => assert_eq!(suffix, "7z"),
        a => panic!("unexpected {:?}", a),
    }
}

#[test]
fn chrome_release_metadata_errors() {
    let mut install = Install::new(Driver::Chrome, "/tmp".to_string(), linux());
    install.stage = Stage::ResolveRelease;
    assert!(matches!(
        install.on_release("{}"),
        Action::Fail { error: Error::Resolution { .. } }
    ));
}

#[test]
fn linux_candidates_in_row_order() {
    let c = Location::candidates(&Os::Linux, &vec![]);
    assert_eq!(c.len(), 28);
    assert_eq!(c[0], "/usr/local/sbin/google-chrome");
    assert_eq!(c[1], "/usr/local/sbin/chrome");
    assert_eq!(c[4], "/usr/local/bin/google-chrome");
    assert_eq!(c[27], "/opt/google/chrome/chromium-browser");
}

#[test]
fn mac_and_windows_candidates() {
    let m = Location::candidates(&Os::MacOs, &vec![]);
    assert_eq!(
        m,
        vec![
            "/Applications/Chromium.app/Contents/MacOS/Chromium".to_string(),
            "/Applications/Chromium.app/Contents/MacOS/Google Chrome".to_string(),
            "/Applications/Google Chrome.app/Contents/MacOS/Chromium".to_string(),
            "/Applications/Google Chrome.app/Contents/MacOS/Google Chrome".to_string(),
        ]
    );
    let w = Location::candidates(&Os::Windows, &vec!["/pf".to_string(), "/pf86".to_string()]);
    assert_eq!(w.len(), 4);
    assert!(w[0].starts_with("/pf/Google\\Chrome\\Application"));
    assert!(w[1].starts_with("/pf/Chromium\\Application"));
    assert!(w[2].starts_with("/pf86/Google\\Chrome\\Application"));
    assert!(w.iter().all(|p| p.ends_with("chrome.exe")));
}

#[test]
fn no_browser_on_unknown_system() {
    assert!(matches!(
        Location::location(&Os::Other { name: "x".to_string() }, &vec![]),
        Err(Error::NotFound { .. })
    ));
    assert!(matches!(
        Location::location(&Os::Windows, &vec!["/definitely/not/here".to_string()]),
        Err(Error::NotFound { .. })
    ));
}

#[test]
fn first_existing_takes_first_reported() {
    let paths: Vec<String> = vec!["a".to_string(), "b".to_string(), "c".to_string()];
    assert_eq!(Location::first_existing(&paths, &vec![false, true, true]).unwrap(), "b");
    assert!(matches!(
        Location::first_existing(&paths, &vec![false, false]),
        Err(Error::NotFound { .. })
    ));
    assert!(matches!(
        Location::first_existing(&paths, &vec![]),
        Err(Error::NotFound { .. })
    ));
}
