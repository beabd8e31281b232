use webdriver_install::version::VERSION_PATTERN;
use webdriver_install::{Error, Os, Version};

#[test]
fn version_from_output_test() {
    assert_eq!(
        Version::version_from_output("Chromium 87.0.4280.141 snap").unwrap(),
        Version {
            major: 87,
            minor: 0,
            build: 4280,
            patch: 141
        }
    );
    assert_eq!(
        Version::version_from_output("127.0.0.1").unwrap(),
        Version {
            major: 127,
            minor: 0,
            build: 0,
            patch: 1
        }
    );
}

#[test]
#[should_panic(expected = "Could not find 4-part Chrome version string in 'a.0.0.1'")]
fn version_from_output_panic_test() {
    if let Err(Error::VersionParse { text }) = Version::version_from_output("a.0.0.1") {
        panic!("regex: Could not find 4-part Chrome version string in '{}'", text);
    }
}

#[test]
#[should_panic(expected = "Could not find 4-part Chrome version string in 'abc 1.0.1 def'")]
fn version_from_output_panic_not_4_parts_test() {
    if let Err(Error::VersionParse { text }) = Version::version_from_output("abc 1.0.1 def") {
        panic!("regex: Could not find 4-part Chrome version string in '{}'", text);
    }
}

#[test]
fn version_error_carries_the_text() {
    match Version::version_from_output("abc 1.0.1 def") {
        Err(Error::VersionParse { text }) => assert_eq!(text, "abc 1.0.1 def"),
        other => panic!("unexpected {:?}", other),
    }
}

#[test]
fn first_of_two_versions_is_taken() {
    let v = Version::version_from_output("Google Chrome 120.0.6099.109 (1.2.3.4)").unwrap();
    assert_eq!(
        v,
        Version {
            major: 120,
            minor: 0,
            build: 6099,
            patch: 109
        }
    );
}

#[test]
fn version_after_a_partial_one() {
    let v = Version::version_from_output("v2 1.2.3 then 4.5.6.7").unwrap();
    assert_eq!(v, Version { major: 4, minor: 5, build: 6, patch: 7 });
}

#[test]
fn version_part_too_large_is_refused() {
    assert!(matches!(
        Version::version_from_output("Chrome 99999.0.0.1"),
        Err(Error::VersionParse { .. })
    ));
    let v = Version::version_from_output("32767.0.0.007").unwrap();
    assert_eq!(v, Version { major: 32767, minor: 0, build: 0, patch: 7 });
}

#[test]
fn version_of_empty_text_is_refused() {
    assert!(Version::version_from_output("").is_err());
}

#[test]
fn version_texts() {
    let v = Version { major: 87, minor: 0, build: 4280, patch: 141 };
    assert_eq!(v.full_version(), "87.0.4280.141");
    assert_eq!(v.build_version(), "87.0.4280");
}

#[test]
fn version_from_probe_bytes() {
    let v = Version::from_probe_output(b"Chromium 87.0.4280.141 snap\n".to_vec()).unwrap();
    assert_eq!(v, Version { major: 87, minor: 0, build: 4280, patch: 141 });
    assert!(matches!(
        Version::from_probe_output(vec![0xff, 0xfe, b'1']),
        Err(Error::Utf8)
    ));
}

#[test]
fn probe_commands() {
    let linux = Version::probe_command(&Os::Linux, "/usr/bin/chromium").unwrap();
    assert_eq!(linux, vec!["/usr/bin/chromium".to_string(), "--version".to_string()]);
    let win = Version::probe_command(&Os::Windows, "C:\\chrome.exe").unwrap();
    assert_eq!(
        win,
        vec![
            "powershell".to_string(),
            "-Command".to_string(),
            "(Get-ItemProperty 'C:\\chrome.exe').VersionInfo.ProductVersion".to_string()
        ]
    );
    assert!(matches!(
        Version::probe_command(&Os::Other { name: "haiku".to_string() }, "x"),
        Err(Error::UnsupportedPlatform { .. })
    ));
}

#[test]
fn version_pattern_text() {
    assert_eq!(VERSION_PATTERN, "[0-9]+\\.[0-9]+\\.[0-9]+\\.[0-9]+");
}

#[test]
fn version_with_leading_zeros_inside_text() {
    let v = Version::version_from_output("x 01.002.3.0004 y").unwrap();
    assert_eq!(v, Version { major: 1, minor: 2, build: 3, patch: 4 });
}
