use rainconfig::artifact::{extract_bytecode, read_bytecode};
use rainconfig::{BuildError, BytecodeField, ErrorKind, FilePath, HexError, IoFailure, Snapshot};

fn artifact_path(text: &str) -> FilePath {
    FilePath { bytes: text.as_bytes().to_vec() }
}

fn one_file(name: &str, content: &str) -> Snapshot {
    Snapshot {
        directories: vec![],
        files: vec![(artifact_path(name), Ok(content.as_bytes().to_vec()))],
    }
}

#[test]
fn artifact_with_both_fields_gives_both() {
    let snapshot = one_file(
        "out/A.json",
        r#"{"abi":[],"bytecode":{"object":"0x600a600c"},"deployedBytecode":{"object":"0x6001"}}"#,
    );
    let bytecode = read_bytecode(&artifact_path("out/A.json"), &snapshot).unwrap();
    assert_eq!(bytecode.creation, Some(vec![0x60, 0x0a, 0x60, 0x0c]));
    assert_eq!(bytecode.deployed, Some(vec![0x60, 0x01]));
}

#[test]
fn artifact_with_only_deployed_bytecode() {
    let snapshot = one_file("out/A.json", r#"{"deployedBytecode":{"object":"0x6001"}}"#);
    let bytecode = read_bytecode(&artifact_path("out/A.json"), &snapshot).unwrap();
    assert_eq!(bytecode.creation, None);
    assert_eq!(bytecode.deployed, Some(vec![0x60, 0x01]));
}

#[test]
fn artifact_with_only_creation_bytecode() {
    let snapshot = one_file("out/A.json", r#"{"bytecode":{"object":"fe"}}"#);
    let bytecode = read_bytecode(&artifact_path("out/A.json"), &snapshot).unwrap();
    assert_eq!(bytecode.creation, Some(vec![0xfe]));
    assert_eq!(bytecode.deployed, None);
}

#[test]
fn artifact_with_neither_field_fails() {
    for content in [
        r#"{}"#,
        r#"{"abi":[]}"#,
        r#"[]"#,
        r#"null"#,
        r#"{"bytecode":"0x6001","deployedBytecode":"0x6001"}"#,
        r#"{"bytecode":{"object":7},"deployedBytecode":{"object":null}}"#,
        r#"{"bytecode":{"Object":"0x6001"}}"#,
    ] {
        let snapshot = one_file("out/A.json", content);
        match read_bytecode(&artifact_path("out/A.json"), &snapshot) {
            Err(e) => {
                assert_eq!(e.kind(), ErrorKind::Semantic);
                match e {
                    BuildError::NoBytecode { path } => assert_eq!(path.bytes, b"out/A.json".to_vec()),
                    other => panic!("unexpected error: {:?}", other),
                }
            },
            Ok(bytecode) => panic!("unexpected success: {:?}", bytecode),
        }
    }
}

#[test]
fn field_that_is_no_string_counts_as_absent() {
    let snapshot = one_file(
        "out/A.json",
        r#"{"bytecode":{"object":{"nested":"0x00"}},"deployedBytecode":{"object":"0x6001"}}"#,
    );
    let bytecode = read_bytecode(&artifact_path("out/A.json"), &snapshot).unwrap();
    assert_eq!(bytecode.creation, None);
    assert_eq!(bytecode.deployed, Some(vec![0x60, 0x01]));
}

#[test]
fn malformed_creation_bytecode_is_named() {
    let snapshot = one_file(
        "out/A.json",
        r#"{"bytecode":{"object":"0x60q1"},"deployedBytecode":{"object":"0x6001"}}"#,
    );
    match read_bytecode(&artifact_path("out/A.json"), &snapshot) {
        Err(e) => {
            assert_eq!(e.kind(), ErrorKind::Decode);
            match e {
                BuildError::BytecodeHex { path, field, cause } => {
                    assert_eq!(path.bytes, b"out/A.json".to_vec());
                    assert_eq!(field, BytecodeField::Creation);
                    assert_eq!(cause, HexError::InvalidHexCharacter { c: 'q', index: 2 });
                },
                other => panic!("unexpected error: {:?}", other),
            }
        },
        Ok(bytecode) => panic!("unexpected success: {:?}", bytecode),
    }
}

#[test]
fn malformed_deployed_bytecode_is_named() {
    let snapshot = one_file(
        "out/A.json",
        r#"{"bytecode":{"object":"0x6001"},"deployedBytecode":{"object":"0x600"}}"#,
    );
    match read_bytecode(&artifact_path("out/A.json"), &snapshot) {
        Err(BuildError::BytecodeHex { path, field, cause }) => {
            assert_eq!(path.bytes, b"out/A.json".to_vec());
            assert_eq!(field, BytecodeField::Deployed);
            assert_eq!(cause, HexError::OddLength);
        },
        other => panic!("unexpected outcome: {:?}", other),
    }
}

#[test]
fn lone_malformed_field_fails_the_read() {
    match extract_bytecode(&artifact_path("a"), None, Some("0xzz")) {
        Err(BuildError::BytecodeHex { field, cause, .. }) => {
            assert_eq!(field, BytecodeField::Deployed);
            assert_eq!(cause, HexError::InvalidHexCharacter { c: 'z', index: 0 });
        },
        other => panic!("unexpected outcome: {:?}", other),
    }
    match extract_bytecode(&artifact_path("a"), Some("abc"), None) {
        Err(BuildError::BytecodeHex { field, cause, .. }) => {
            assert_eq!(field, BytecodeField::Creation);
            assert_eq!(cause, HexError::OddLength);
        },
        other => panic!("unexpected outcome: {:?}", other),
    }
}

#[test]
fn two_malformed_fields_name_the_deployed_bytecode() {
    match extract_bytecode(&artifact_path("a"), Some("0x1"), Some("0xgg")) {
        Err(BuildError::BytecodeHex { field, cause, .. }) => {
            assert_eq!(field, BytecodeField::Deployed);
            assert_eq!(cause, HexError::InvalidHexCharacter { c: 'g', index: 0 });
        },
        other => panic!("unexpected outcome: {:?}", other),
    }
}

#[test]
fn fields_given_directly_are_decoded() {
    let both = extract_bytecode(&artifact_path("a"), Some("0x00ff"), Some("0X10")).unwrap();
    assert_eq!(both.creation, Some(vec![0x00, 0xff]));
    assert_eq!(both.deployed, Some(vec![0x10]));
    let empty = extract_bytecode(&artifact_path("a"), Some(""), None).unwrap();
    assert_eq!(empty.creation, Some(vec![]));
    assert_eq!(empty.deployed, None);
    match extract_bytecode(&artifact_path("a"), None, None) {
        Err(BuildError::NoBytecode { path }) => assert_eq!(path.bytes, b"a".to_vec()),
        other => panic!("unexpected outcome: {:?}", other),
    }
}

#[test]
fn hex_digits_beyond_ascii_are_refused_by_position_in_bytes() {
    match extract_bytecode(&artifact_path("a"), Some("0xab\u{e9}"), None) {
        Err(BuildError::BytecodeHex { cause, .. }) => {
            assert_eq!(cause, HexError::InvalidHexCharacter { c: '\u{c3}', index: 2 });
        },
        other => panic!("unexpected outcome: {:?}", other),
    }
    match extract_bytecode(&artifact_path("a"), Some("0xab\u{e9}1"), None) {
        Err(BuildError::BytecodeHex { cause, .. }) => assert_eq!(cause, HexError::OddLength),
        other => panic!("unexpected outcome: {:?}", other),
    }
}

#[test]
fn artifact_that_is_not_json_fails_with_its_path() {
    let snapshot = one_file("out/A.json", "{");
    match read_bytecode(&artifact_path("out/A.json"), &snapshot) {
        Err(e) => {
            assert_eq!(e.kind(), ErrorKind::Decode);
            match e {
                BuildError::ArtifactJson { path, message } => {
                    assert_eq!(path.bytes, b"out/A.json".to_vec());
                    assert_eq!(message, "EOF while parsing an object at line 1 column 1");
                },
                other => panic!("unexpected error: {:?}", other),
            }
        },
        Ok(bytecode) => panic!("unexpected success: {:?}", bytecode),
    }
    let empty = one_file("out/A.json", "");
    match read_bytecode(&artifact_path("out/A.json"), &empty) {
        Err(BuildError::ArtifactJson { message, .. }) => {
            assert_eq!(message, "EOF while parsing a value at line 1 column 0")
        },
        other => panic!("unexpected outcome: {:?}", other),
    }
}

#[test]
fn artifact_that_cannot_be_read_fails_with_its_path() {
    let snapshot = Snapshot {
        directories: vec![],
        files: vec![
            (artifact_path("out/A.json"), Err(IoFailure { message: "is a directory".to_string() })),
        ],
    };
    match read_bytecode(&artifact_path("out/A.json"), &snapshot) {
        Err(BuildError::Io { path, message }) => {
            assert_eq!(path.bytes, b"out/A.json".to_vec());
            assert_eq!(message, "is a directory");
        },
        other => panic!("unexpected outcome: {:?}", other),
    }
    match read_bytecode(&artifact_path("out/B.json"), &snapshot) {
        Err(BuildError::Io { path, message }) => {
            assert_eq!(path.bytes, b"out/B.json".to_vec());
            assert_eq!(message, "no such file or directory");
        },
        other => panic!("unexpected outcome: {:?}", other),
    }
}

#[test]
fn last_of_two_members_of_one_name_counts() {
    let snapshot = one_file(
        "out/A.json",
        r#"{"bytecode":{"object":"0x01"},"bytecode":{"object":"0x02"}}"#,
    );
    let bytecode = read_bytecode(&artifact_path("out/A.json"), &snapshot).unwrap();
    assert_eq!(bytecode.creation, Some(vec![0x02]));
}
