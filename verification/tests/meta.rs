use rainconfig::meta::{load_meta_bytes, read_meta};
use rainconfig::{BuildError, ErrorKind, FilePath, HexError, IoFailure, RainConfigMetaType, Snapshot};

fn meta_path(text: &str) -> FilePath {
    FilePath { bytes: text.as_bytes().to_vec() }
}

fn unhex(text: &str) -> Vec<u8> {
    let digits: Vec<u32> = text.chars().map(|c| c.to_digit(16).unwrap()).collect();
    digits.chunks(2).map(|pair| (pair[0] * 16 + pair[1]) as u8).collect()
}

fn files(entries: Vec<(&str, Result<Vec<u8>, &str>)>) -> Snapshot {
    let mut files = Vec::new();
    for (name, content) in entries {
        let content = match content {
            Ok(bytes) => Ok(bytes),
            Err(message) => Err(IoFailure { message: message.to_string() }),
        };
        files.push((meta_path(name), content));
    }
    Snapshot { directories: vec![], files }
}

const KECCAK_EMPTY: &str = "c5d2460186f7233c927e7db2dcc703c0e500b653ca82273b7bfad8045d85a470";
const KECCAK_ABC: &str = "4e03657aea45a94fc7d47ba826c8d667c0d1e6e33a64a036ec44f58fa12d6c45";
const KECCAK_HELLO: &str = "1c8aff950685c2ed4bc3174f3472287b56d9517b9c948127319a09a7a36deac8";

#[test]
fn binary_meta_is_filed_under_its_keccak_hash() {
    let snapshot = files(vec![("meta/abc.bin", Ok(b"abc".to_vec()))]);
    let mut metas = Vec::new();
    let meta = RainConfigMetaType::Binary(meta_path("meta/abc.bin"));
    read_meta(&meta, &mut metas, &snapshot, false).unwrap();
    assert_eq!(metas, vec![(unhex(KECCAK_ABC), b"abc".to_vec())]);
    assert_eq!(metas[0].0.len(), 32);
}

#[test]
fn hash_is_of_the_bytes_and_not_of_the_input() {
    let snapshot = files(vec![("hello", Ok(b"hello".to_vec())), ("empty", Ok(vec![]))]);
    let mut metas = Vec::new();
    read_meta(&RainConfigMetaType::Binary(meta_path("hello")), &mut metas, &snapshot, false)
        .unwrap();
    read_meta(&RainConfigMetaType::Binary(meta_path("empty")), &mut metas, &snapshot, false)
        .unwrap();
    assert_eq!(
        metas,
        vec![(unhex(KECCAK_HELLO), b"hello".to_vec()), (unhex(KECCAK_EMPTY), vec![])]
    );
}

#[test]
fn hex_meta_is_decoded_before_it_is_hashed() {
    let snapshot = files(vec![("meta/abc.hex", Ok(b"0x616263".to_vec()))]);
    let mut metas = Vec::new();
    let meta = RainConfigMetaType::Hex(meta_path("meta/abc.hex"));
    read_meta(&meta, &mut metas, &snapshot, false).unwrap();
    assert_eq!(metas, vec![(unhex(KECCAK_ABC), b"abc".to_vec())]);
}

#[test]
fn same_bytes_in_either_form_have_the_same_hash() {
    let snapshot = files(
        vec![
            ("a.bin", Ok(vec![0xde, 0xad, 0xbe, 0xef])),
            ("a.hex", Ok(b"0xdeadbeef".to_vec())),
            ("b.hex", Ok(b"DEADBEEF".to_vec())),
            ("c.hex", Ok(b"0XDeadBeef".to_vec())),
        ],
    );
    let mut metas = Vec::new();
    read_meta(&RainConfigMetaType::Binary(meta_path("a.bin")), &mut metas, &snapshot, false)
        .unwrap();
    read_meta(&RainConfigMetaType::Hex(meta_path("a.hex")), &mut metas, &snapshot, false).unwrap();
    read_meta(&RainConfigMetaType::Hex(meta_path("b.hex")), &mut metas, &snapshot, false).unwrap();
    read_meta(&RainConfigMetaType::Hex(meta_path("c.hex")), &mut metas, &snapshot, false).unwrap();
    assert_eq!(metas.len(), 4);
    assert_eq!(metas[0].1, vec![0xde, 0xad, 0xbe, 0xef]);
    assert_eq!(metas[1], metas[0]);
    assert_eq!(metas[2], metas[0]);
    assert_eq!(metas[3], metas[0]);
}

#[test]
fn loading_appends_behind_what_is_there() {
    let snapshot = files(vec![("empty", Ok(vec![]))]);
    let mut metas = vec![(vec![1u8], vec![2u8])];
    read_meta(&RainConfigMetaType::Binary(meta_path("empty")), &mut metas, &snapshot, false)
        .unwrap();
    assert_eq!(metas, vec![(vec![1u8], vec![2u8]), (unhex(KECCAK_EMPTY), vec![])]);
}

#[test]
fn hex_meta_with_a_bad_digit_fails_with_its_path() {
    let snapshot = files(vec![("meta/bad.hex", Ok(b"0x61zz".to_vec()))]);
    let meta = RainConfigMetaType::Hex(meta_path("meta/bad.hex"));
    let mut metas = Vec::new();
    match read_meta(&meta, &mut metas, &snapshot, false) {
        Err(e) => {
            assert_eq!(e.kind(), ErrorKind::Decode);
            match e {
                BuildError::MetaHex { path, cause } => {
                    assert_eq!(path.bytes, b"meta/bad.hex".to_vec());
                    assert_eq!(cause, HexError::InvalidHexCharacter { c: 'z', index: 2 });
                },
                other => panic!("unexpected error: {:?}", other),
            }
        },
        Ok(()) => panic!("unexpected success"),
    }
    assert!(metas.is_empty());
}

#[test]
fn hex_meta_of_odd_length_fails() {
    let snapshot = files(
        vec![("odd.hex", Ok(b"0x616".to_vec())), ("newline.hex", Ok(b"0x6162\n".to_vec()))],
    );
    for name in ["odd.hex", "newline.hex"] {
        match load_meta_bytes(&RainConfigMetaType::Hex(meta_path(name)), &snapshot) {
            Err(BuildError::MetaHex { path, cause }) => {
                assert_eq!(path.bytes, name.as_bytes().to_vec());
                assert_eq!(cause, HexError::OddLength);
            },
            other => panic!("unexpected outcome: {:?}", other),
        }
    }
}

#[test]
fn hex_meta_reports_the_first_bad_byte_behind_the_prefix() {
    let snapshot = files(
        vec![
            ("space.hex", Ok(b"0x61 62 ".to_vec())),
            ("plain.hex", Ok(b"6g6h".to_vec())),
            ("prefix_only.hex", Ok(b"0x".to_vec())),
            ("double_prefix.hex", Ok(b"0x0x61".to_vec())),
        ],
    );
    match load_meta_bytes(&RainConfigMetaType::Hex(meta_path("space.hex")), &snapshot) {
        Err(BuildError::MetaHex { cause, .. }) => {
            assert_eq!(cause, HexError::InvalidHexCharacter { c: ' ', index: 2 })
        },
        other => panic!("unexpected outcome: {:?}", other),
    }
    match load_meta_bytes(&RainConfigMetaType::Hex(meta_path("plain.hex")), &snapshot) {
        Err(BuildError::MetaHex { cause, .. }) => {
            assert_eq!(cause, HexError::InvalidHexCharacter { c: 'g', index: 1 })
        },
        other => panic!("unexpected outcome: {:?}", other),
    }
    assert_eq!(
        load_meta_bytes(&RainConfigMetaType::Hex(meta_path("prefix_only.hex")), &snapshot).unwrap(),
        Vec::<u8>::new()
    );
    match load_meta_bytes(&RainConfigMetaType::Hex(meta_path("double_prefix.hex")), &snapshot) {
        Err(BuildError::MetaHex { cause, .. }) => {
            assert_eq!(cause, HexError::InvalidHexCharacter { c: 'x', index: 1 })
        },
        other => panic!("unexpected outcome: {:?}", other),
    }
}

#[test]
fn hex_meta_that_is_not_text_is_a_read_failure() {
    let snapshot = files(vec![("raw.hex", Ok(vec![0x30, 0x78, 0xff, 0xfe]))]);
    match load_meta_bytes(&RainConfigMetaType::Hex(meta_path("raw.hex")), &snapshot) {
        Err(e) => {
            assert_eq!(e.kind(), ErrorKind::Io);
            match e {
                BuildError::Io { path, message } => {
                    assert_eq!(path.bytes, b"raw.hex".to_vec());
                    assert_eq!(message, "stream did not contain valid UTF-8");
                },
                other => panic!("unexpected error: {:?}", other),
            }
        },
        Ok(bytes) => panic!("unexpected success: {:?}", bytes),
    }
    assert_eq!(
        load_meta_bytes(&RainConfigMetaType::Binary(meta_path("raw.hex")), &snapshot).unwrap(),
        vec![0x30, 0x78, 0xff, 0xfe]
    );
}

#[test]
fn unreadable_meta_fails_without_force() {
    let snapshot = files(vec![("locked.bin", Err("permission denied"))]);
    let mut metas = Vec::new();
    for meta in [
        RainConfigMetaType::Binary(meta_path("locked.bin")),
        RainConfigMetaType::Hex(meta_path("locked.bin")),
    ] {
        match read_meta(&meta, &mut metas, &snapshot, false) {
            Err(BuildError::Io { path, message }) => {
                assert_eq!(path.bytes, b"locked.bin".to_vec());
                assert_eq!(message, "permission denied");
            },
            other => panic!("unexpected outcome: {:?}", other),
        }
    }
    match read_meta(&RainConfigMetaType::Binary(meta_path("gone.bin")), &mut metas, &snapshot, false) {
        Err(BuildError::Io { path, message }) => {
            assert_eq!(path.bytes, b"gone.bin".to_vec());
            assert_eq!(message, "no such file or directory");
        },
        other => panic!("unexpected outcome: {:?}", other),
    }
    assert!(metas.is_empty());
}

#[test]
fn force_skips_a_meta_that_cannot_be_loaded() {
    let snapshot = files(
        vec![
            ("locked.bin", Err("permission denied")),
            ("bad.hex", Ok(b"xyz".to_vec())),
            ("good.hex", Ok(b"616263".to_vec())),
        ],
    );
    let mut metas = Vec::new();
    read_meta(&RainConfigMetaType::Binary(meta_path("locked.bin")), &mut metas, &snapshot, true)
        .unwrap();
    read_meta(&RainConfigMetaType::Hex(meta_path("bad.hex")), &mut metas, &snapshot, true).unwrap();
    read_meta(&RainConfigMetaType::Binary(meta_path("gone.bin")), &mut metas, &snapshot, true)
        .unwrap();
    assert!(metas.is_empty());
    read_meta(&RainConfigMetaType::Hex(meta_path("good.hex")), &mut metas, &snapshot, true).unwrap();
    assert_eq!(metas, vec![(unhex(KECCAK_ABC), b"abc".to_vec())]);
}
