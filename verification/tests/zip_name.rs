use ram_fileserver::error::{
    AdmissionError, AdmissionResource, AnyError, ChangedStatus, LimitKind, ResponseErrorRef,
};
use ram_fileserver::response::StatusCode;
use ram_fileserver::zip_name::{
    encode_valid_zip_utf8, encode_zip_byte, encode_zip_byte_as_percent, encode_zip_component,
    is_upper_hex_digit, validate_portable_zip_component, validate_zip_entry_name,
    validated_zip_entry_name, windows_device_name, windows_numbered_device_name,
    ZIP_ENTRY_NAME_MAX_BYTES, ZIP_TOP_LEVEL_DIRECTORY,
};

fn entry_name(path: &[u8]) -> Result<String, AnyError> {
    validated_zip_entry_name(path, &format!("{:?}", String::from_utf8_lossy(path)))
}

#[test]
fn zip_entry_name_accepts_portable_relative_paths() {
    assert_eq!(
        entry_name(b"dir/file.txt").unwrap(),
        "archive/dir/file.txt"
    );
    assert_eq!(
        entry_name("目录/😀.txt".as_bytes()).unwrap(),
        "archive/目录/😀.txt"
    );
    assert_eq!(
        entry_name(b"read me + (final),v1.txt").unwrap(),
        "archive/read me + (final),v1.txt"
    );
}

#[test]
fn zip_entry_name_byte_limit_is_inclusive_and_typed() {
    let child_bytes = ZIP_ENTRY_NAME_MAX_BYTES - ZIP_TOP_LEVEL_DIRECTORY.len() - 1;
    let at_limit = format!("{ZIP_TOP_LEVEL_DIRECTORY}/{}", "a".repeat(child_bytes));
    assert_eq!(at_limit.len(), ZIP_ENTRY_NAME_MAX_BYTES);
    validate_zip_entry_name(&at_limit, false).unwrap();

    let over_limit = format!("{at_limit}a");
    let error = validate_zip_entry_name(&over_limit, false).unwrap_err();
    assert!(matches!(
        AdmissionError::in_anyhow_chain(&error),
        Some(AdmissionError::LimitExceeded {
            resource: AdmissionResource::ArchiveEntryNameBytes,
            kind: LimitKind::Semantic,
            limit,
            observed: Some(observed),
        }) if *limit == ZIP_ENTRY_NAME_MAX_BYTES as u64
            && *observed == ZIP_ENTRY_NAME_MAX_BYTES as u64 + 1
    ));
    let mapped = ResponseErrorRef::from_anyhow_typed(&error, ChangedStatus::Conflict)
        .expect("ZIP entry-name limit remains typed under context");
    assert_eq!(mapped.status(), StatusCode::UnprocessableEntity);
}

#[test]
fn percent_encoding_cannot_expand_a_deep_path_past_the_zip_header_limit() {
    let mut source = String::new();
    for level in 0..86 {
        if level > 0 {
            source.push('/');
        }
        source.push_str(&":".repeat(255));
    }

    let error = entry_name(source.as_bytes()).unwrap_err();
    assert!(matches!(
        AdmissionError::in_anyhow_chain(&error),
        Some(AdmissionError::LimitExceeded {
            resource: AdmissionResource::ArchiveEntryNameBytes,
            kind: LimitKind::Semantic,
            limit,
            observed: Some(observed),
        }) if *limit == ZIP_ENTRY_NAME_MAX_BYTES as u64
            && *observed > ZIP_ENTRY_NAME_MAX_BYTES as u64
    ));
}

#[test]
fn zip_entry_name_rejects_only_structural_traversal_forms() {
    for value in ["", ".", "..", "../escape", "dir/../escape", "/absolute"] {
        assert!(
            entry_name(value.as_bytes()).is_err(),
            "unexpectedly accepted {value:?}"
        );
    }
}

#[test]
fn zip_entry_name_encodes_cross_platform_special_names() {
    assert_eq!(
        entry_name(br"dir\file:ads.txt").unwrap(),
        "archive/dir%5Cfile%3Aads.txt"
    );
    assert_eq!(entry_name(b"CON.txt").unwrap(), "archive/%43ON.txt");
    assert_eq!(
        entry_name(b"literal%5C.txt").unwrap(),
        "archive/literal%255C.txt"
    );
    assert_eq!(entry_name(b"raw-\xff.txt").unwrap(), "archive/raw-%FF.txt");
    assert_eq!(
        entry_name(b"caf\xc3\xa9-\xff-\xe6\x96\x87.txt").unwrap(),
        "archive/café-%FF-文.txt"
    );
}

#[test]
fn zip_entry_name_encodes_the_complete_windows_device_matrix() {
    for device in ["CON", "PRN", "AUX", "NUL"] {
        let source = format!("{device}.txt");
        let encoded = entry_name(source.as_bytes()).unwrap();
        assert_eq!(
            encoded,
            format!("archive/%{:02X}{}.txt", device.as_bytes()[0], &device[1..])
        );
    }
    for prefix in ["COM", "LPT"] {
        for suffix in ["1", "2", "3", "4", "5", "6", "7", "8", "9", "¹", "²", "³"] {
            let device = format!("{prefix}{suffix}");
            let source = format!("{device}.log");
            let encoded = entry_name(source.as_bytes()).unwrap();
            assert_eq!(
                encoded,
                format!("archive/%{:02X}{}.log", prefix.as_bytes()[0], &device[1..]),
                "Windows device name {source:?} was not neutralized"
            );
        }
    }
}

#[test]
fn final_zip_name_validator_rejects_posix_and_windows_escape_forms() {
    for (value, directory) in [
        ("", false),
        ("/archive/file", false),
        (r"\archive\file", false),
        ("other/file", false),
        ("archive", false),
        ("archive/", false),
        ("archive", true),
        ("archive//file", false),
        ("archive/../evil", false),
        (r"archive/..\..\evil", false),
        (r"archive/C:\evil", false),
        (r"archive/\\server\share", false),
        ("archive/CON", false),
        ("archive/file.", false),
        ("archive/file ", false),
        ("archive/raw%ff", false),
        ("archive/file:stream", false),
    ] {
        assert!(
            validate_zip_entry_name(value, directory).is_err(),
            "unexpectedly accepted {value:?}"
        );
    }
    assert!(validate_zip_entry_name("archive/", true).is_ok());
    assert!(validate_zip_entry_name("archive/dir/", true).is_ok());
    assert!(validate_zip_entry_name("archive/dir/file.txt", false).is_ok());
    assert!(validate_zip_entry_name("archive/目录/😀.txt", false).is_ok());
    assert!(validate_zip_entry_name("archive/%43ON.txt", false).is_ok());
}

#[test]
fn hostile_linux_filenames_remain_beneath_root_under_windows_semantics() {
    for source_name in [r"..\..\evil", r"C:\evil", r"\\server\share", r"dir\..\evil"] {
        let entry_name = entry_name(source_name.as_bytes()).unwrap();
        validate_zip_entry_name(&entry_name, false).unwrap();
        let windows_components = windows_semantic_components(&entry_name)
            .expect("generated ZIP name must be a relative Windows path");
        assert_eq!(
            windows_components.first().map(String::as_str),
            Some(ZIP_TOP_LEVEL_DIRECTORY),
            "{source_name:?} produced {entry_name:?}"
        );
        assert_eq!(
            windows_components.len(),
            2,
            "encoded separators must remain inside one child component: {entry_name:?}"
        );
    }
}

/// A small independent reading of a path as Windows takes it: both slashes separate, and `..`
/// goes up.
fn windows_semantic_components(value: &str) -> Option<Vec<String>> {
    let bytes = value.as_bytes();
    if value.starts_with(['/', '\\'])
        || (bytes.len() >= 2 && bytes[0].is_ascii_alphabetic() && bytes[1] == b':')
    {
        return None;
    }

    let mut normalized = Vec::new();
    for component in value.split(['/', '\\']) {
        match component {
            "" | "." => {}
            ".." => {
                normalized.pop()?;
            }
            _ if component.as_bytes().get(1) == Some(&b':')
                && component.as_bytes()[0].is_ascii_alphabetic() =>
            {
                return None;
            }
            _ => normalized.push(component.to_owned()),
        }
    }
    Some(normalized)
}

#[test]
fn refused_paths_are_shown_as_they_are_handed_over() {
    let refusal = |path: &[u8], shown: &str| {
        validated_zip_entry_name(path, shown).unwrap_err().describe("")
    };
    assert_eq!(refusal(b"", "\"\""), "empty ZIP entry path");
    assert_eq!(
        refusal(b"\xff/../x", "\"\\xFF/../x\""),
        "unsafe structural ZIP entry path \"\\xFF/../x\""
    );
    assert_eq!(refusal(b"\xffa\0", "\"\\xFFa\\0\""), "unsafe ZIP entry path \"\\xFFa\\0\"");
}

#[test]
fn every_refusal_says_what_is_wrong() {
    let refusal = |name: &str, directory: bool| {
        validate_zip_entry_name(name, directory).unwrap_err().describe("")
    };
    assert_eq!(refusal("", false), "unsafe ZIP entry name \"\"");
    assert_eq!(refusal("\\a", false), "unsafe ZIP entry name \"\\\\a\"");
    assert_eq!(refusal("archive/a\0", false), "unsafe ZIP entry name \"archive/a\\0\"");
    assert_eq!(refusal("archive", true), "ZIP directory entry lacks its trailing slash");
    assert_eq!(refusal("archive/", false), "ZIP file entry has a trailing slash");
    assert_eq!(
        refusal("other/file", false),
        "ZIP entry is outside the fixed top-level directory"
    );
    assert_eq!(
        refusal("archive", false),
        "ZIP file entry must be a child of the fixed top-level directory"
    );
    assert_eq!(refusal("archive/a/NUL", false), "unsafe ZIP entry component \"NUL\"");
    assert_eq!(
        refusal("archive/文%2g", false),
        "invalid percent encoding in ZIP entry component \"文%2g\""
    );
    // The first fault decides.
    assert_eq!(refusal("archive/a?%zz", false), "unsafe ZIP entry component \"a?%zz\"");
    assert_eq!(refusal("archive/b./%zz", false), "unsafe ZIP entry component \"b.\"");
}

#[test]
fn device_names_are_recognized_whatever_their_case_and_suffix() {
    for name in ["con", "Prn.txt", "AUX ", "nul:stream", "com1", "LPT9.log", "cOm\u{b9}"] {
        assert!(windows_device_name(name.as_bytes()), "{name:?}");
    }
    for name in ["", "co", "cons", "com0", "com10", "lpt", "a.con", "com\u{2074}"] {
        assert!(!windows_device_name(name.as_bytes()), "{name:?}");
    }
    assert!(windows_numbered_device_name(b"lpt3", b"LPT"));
    assert!(!windows_numbered_device_name(b"lpt3", b"COM"));
}

#[test]
fn bytes_are_encoded_by_what_they_mean() {
    let mut output = String::new();
    encode_zip_byte_as_percent(&mut output, 0x0a);
    encode_zip_byte_as_percent(&mut output, 0xfe);
    assert_eq!(output, "%0A%FE");

    let mut output = String::new();
    encode_zip_byte(&mut output, b'a', 0, 3, false);
    encode_zip_byte(&mut output, b'.', 1, 3, false);
    encode_zip_byte(&mut output, b'.', 2, 3, false);
    encode_zip_byte(&mut output, b'%', 0, 3, false);
    encode_zip_byte(&mut output, b'c', 0, 3, true);
    assert_eq!(output, "a.%2E%25%63");

    let mut output = String::from("x");
    encode_valid_zip_utf8(&mut output, "é:ß ", 1, 7, false);
    assert_eq!(output, "xé%3Aß%20");
    assert!(is_upper_hex_digit(b'F') && !is_upper_hex_digit(b'f'));
}

#[test]
fn malformed_bytes_are_encoded_one_by_one() {
    assert_eq!(encode_zip_component(b"\xe6\x96"), "%E6%96");
    assert_eq!(encode_zip_component(b"\xe6\x96a"), "%E6%96a");
    assert_eq!(encode_zip_component(b"\xc0\xaf"), "%C0%AF");
    assert_eq!(encode_zip_component(b"\xed\xa0\x80"), "%ED%A0%80");
    assert_eq!(encode_zip_component(b"a\xf0\x9f\x98\x80b"), "a😀b");
}

#[test]
fn encoded_components_are_portable_and_decode_back() {
    for component in [
        &b"CON"[..],
        b"com1.tar.gz",
        b"trailing.",
        b"trailing ",
        b"100%",
        b"\xff\xfe",
        b"a/b",
        b"..",
        "目录".as_bytes(),
    ] {
        let encoded = encode_zip_component(component);
        validate_portable_zip_component(&encoded).unwrap();
        assert_eq!(percent_decoded(&encoded), component);
    }
}

fn percent_decoded(text: &str) -> Vec<u8> {
    let bytes = text.as_bytes();
    let mut decoded = Vec::new();
    let mut at = 0;
    while at < bytes.len() {
        if bytes[at] == b'%' {
            decoded.push(u8::from_str_radix(&text[at + 1..at + 3], 16).unwrap());
            at += 3;
        } else {
            decoded.push(bytes[at]);
            at += 1;
        }
    }
    decoded
}
