use webdriver_install::urls::archive_filename;
use webdriver_install::{Chromedriver, Error, Geckodriver, Os};

#[test]
fn chromedriver_direct_download_url_test() {
    assert_eq!(
        "https://storage.googleapis.com/chrome-for-testing-public/v1/linux64/chromedriver-linux64.zip",
        Chromedriver::new()
            .direct_download_url("v1", &Os::Linux)
            .unwrap()
            .to_string()
    );
    assert_eq!(
        "https://storage.googleapis.com/chrome-for-testing-public/v1/mac64/chromedriver-mac64.zip",
        Chromedriver::new()
            .direct_download_url("v1", &Os::MacOs)
            .unwrap()
            .to_string()
    );
    assert_eq!(
        "https://storage.googleapis.com/chrome-for-testing-public/v1/win32/chromedriver-win32.zip",
        Chromedriver::new()
            .direct_download_url("v1", &Os::Windows)
            .unwrap()
            .to_string()
    );
}

#[test]
fn geckodriver_direct_download_url_test() {
    assert_eq!(
        "https://github.com/mozilla/geckodriver/releases/download/v1/geckodriver-v1-linux64.tar.gz",
        Geckodriver::new()
            .direct_download_url("v1", &Os::Linux, 64)
            .unwrap()
            .to_string()
    );
    assert_eq!(
        "https://github.com/mozilla/geckodriver/releases/download/v1/geckodriver-v1-macos.tar.gz",
        Geckodriver::new()
            .direct_download_url("v1", &Os::MacOs, 64)
            .unwrap()
            .to_string()
    );
    assert_eq!(
        "https://github.com/mozilla/geckodriver/releases/download/v1/geckodriver-v1-win64.zip",
        Geckodriver::new()
            .direct_download_url("v1", &Os::Windows, 64)
            .unwrap()
            .to_string()
    );
}

#[test]
fn geckodriver_url_by_pointer_width() {
    let g = Geckodriver::new();
    assert!(g
        .direct_download_url("v0.35.0", &Os::Linux, 32)
        .unwrap()
        .ends_with("/download/v0.35.0/geckodriver-v0.35.0-linux32.tar.gz"));
    assert!(g
        .direct_download_url("v0.35.0", &Os::Windows, 32)
        .unwrap()
        .ends_with("geckodriver-v0.35.0-win32.zip"));
    assert_eq!(Geckodriver::pointer_width(), usize::BITS as usize);
}

#[test]
fn unsupported_platform_is_refused() {
    let other = Os::Other { name: "freebsd".to_string() };
    match Chromedriver::platform(&other) {
        Err(Error::UnsupportedPlatform { os }) => assert_eq!(os, "freebsd"),
        r => panic!("unexpected {:?}", r),
    }
    assert!(matches!(
        Geckodriver::new().direct_download_url("v1", &other, 64),
        Err(Error::UnsupportedPlatform { .. })
    ));
}

#[test]
fn platform_parts() {
    assert_eq!(Chromedriver::platform(&Os::MacOs).unwrap(), "mac64");
    assert_eq!(Geckodriver::platform(&Os::Linux, 64).unwrap(), "linux64.tar.gz");
    assert_eq!(Geckodriver::platform(&Os::Windows, 32).unwrap(), "win32.zip");
}

#[test]
fn os_names() {
    assert!(matches!(Os::from_target_name("linux"), Os::Linux));
    assert!(matches!(Os::from_target_name("macos"), Os::MacOs));
    assert!(matches!(Os::from_target_name("windows"), Os::Windows));
    assert!(matches!(Os::from_kernel_name("Darwin"), Os::MacOs));
    assert!(matches!(Os::from_kernel_name("Linux"), Os::Linux));
    match Os::from_kernel_name("SunOS") {
        Os::Other { name } => assert_eq!(name, "SunOS"),
        o => panic!("unexpected {:?}", o),
    }
    assert_eq!(Os::Windows.name(), "windows");
}

#[test]
fn archive_file_names() {
    assert_eq!(
        archive_filename("https://github.com/mozilla/geckodriver/releases/download/v1/geckodriver-v1-linux64.tar.gz"),
        "geckodriver-v1-linux64.tar.gz"
    );
    assert_eq!(archive_filename("https://example.com/"), "tmp.bin");
    assert_eq!(archive_filename("https://example.com"), "tmp.bin");
    assert_eq!(archive_filename("data:text/plain,x"), "tmp.bin");
}

#[test]
fn gecko_release_from_redirect() {
    let g = Geckodriver::new();
    assert_eq!(
        g.latest_release_url(),
        "https://github.com/mozilla/geckodriver/releases/latest"
    );
    assert_eq!(
        g.latest_version("https://github.com/mozilla/geckodriver/releases/tag/v0.35.0")
            .unwrap(),
        "v0.35.0"
    );
    assert!(matches!(
        g.latest_version("https://github.com/"),
        Err(Error::Resolution { .. })
    ));
}

#[test]
fn chrome_release_is_last_listed() {
    let c = Chromedriver::new();
    let doc = r#"{"timestamp":"x","versions":[{"version":"113.0.5672.0"},{"version":"131.0.6778.85","revision":"1"}]}"#;
    assert_eq!(c.latest_version(doc).unwrap(), "131.0.6778.85");
    for bad in [
        r#"{"versions":[]}"#,
        r#"{"other":[]}"#,
        r#"{"versions":[{"revision":"1"}]}"#,
        r#"{"versions":[{"version":7}]}"#,
        "not json",
    ] {
        assert!(matches!(c.latest_version(bad), Err(Error::Resolution { .. })), "{}", bad);
    }
}

#[test]
fn download_url_is_normalized_by_the_parser() {
    assert_eq!(
        Chromedriver::new().direct_download_url("v 1", &Os::Linux).unwrap(),
        "https://storage.googleapis.com/chrome-for-testing-public/v%201/linux64/chromedriver-linux64.zip"
    );
    assert_eq!(
        Geckodriver::new().direct_download_url("a/../b", &Os::MacOs, 64).unwrap(),
        "https://github.com/mozilla/geckodriver/releases/download/b/b-macos.tar.gz"
    );
}

#[test]
fn chrome_release_is_last_not_largest() {
    let doc = r#"{"versions":[{"version":"120.0.1"},{"version":"115.0.5"}]}"#;
    assert_eq!(Chromedriver::new().latest_version(doc).unwrap(), "115.0.5");
    assert!(matches!(
        Chromedriver::new().latest_version(r#"{"versions":[{"version":""}]}"#),
        Err(Error::Resolution { .. })
    ));
}

#[test]
fn same_release_gives_same_address() {
    let c = Chromedriver::new();
    assert_eq!(
        c.direct_download_url("1.2.3.4", &Os::MacOs).unwrap(),
        c.direct_download_url("1.2.3.4", &Os::MacOs).unwrap()
    );
}
