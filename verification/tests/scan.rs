use rainconfig::scan::{read_dotrain_files, scan_file, scan_listing};
use rainconfig::{BuildError, Entry, ErrorKind, FilePath, IoFailure, RainConfigStruct, Snapshot};

fn path(text: &str) -> FilePath {
    FilePath { bytes: text.as_bytes().to_vec() }
}

fn file(name: &str, content: &str) -> Result<Entry, IoFailure> {
    Ok(Entry::File { path: path(name), content: Ok(content.as_bytes().to_vec()) })
}

fn broken_file(name: &str, message: &str) -> Result<Entry, IoFailure> {
    Ok(Entry::File { path: path(name), content: Err(IoFailure { message: message.to_string() }) })
}

fn dir(name: &str, entries: Vec<Result<Entry, IoFailure>>) -> Result<Entry, IoFailure> {
    Ok(Entry::Directory { path: path(name), listing: Ok(entries) })
}

fn snapshot_of(root: &str, entries: Vec<Result<Entry, IoFailure>>) -> Snapshot {
    Snapshot { directories: vec![(path(root), Ok(entries))], files: vec![] }
}

fn names(files: &Vec<(FilePath, String)>) -> Vec<(String, String)> {
    let mut out = Vec::new();
    for (p, text) in files {
        out.push((String::from_utf8(p.bytes.clone()).unwrap(), text.clone()));
    }
    out
}

fn pair(a: &str, b: &str) -> (String, String) {
    (a.to_string(), b.to_string())
}

fn mixed_tree() -> Snapshot {
    snapshot_of(
        "src",
        vec![
            file("src/a.rain", "alpha"),
            file("src/b.txt", "beta"),
            dir(
                "src/sub",
                vec![
                    file("src/sub/c.rain", "gamma"),
                    file("src/sub/e.md", "epsilon"),
                    dir("src/sub/deep", vec![file("src/sub/deep/d.rain", "delta")]),
                ],
            ),
            Ok(Entry::Other { path: path("src/socket.rain") }),
            file("src/z.rain", "zeta"),
        ],
    )
}

#[test]
fn scan_returns_dotrain_files_at_any_depth() {
    let snapshot = mixed_tree();
    let expected = vec![
        pair("src/a.rain", "alpha"),
        pair("src/sub/c.rain", "gamma"),
        pair("src/sub/deep/d.rain", "delta"),
        pair("src/z.rain", "zeta"),
    ];
    let strict = read_dotrain_files(&path("src"), &snapshot, false).unwrap();
    assert_eq!(names(&strict), expected);
    let forced = read_dotrain_files(&path("src"), &snapshot, true).unwrap();
    assert_eq!(names(&forced), expected);
}

#[test]
fn scan_of_an_empty_directory_finds_nothing() {
    let snapshot = snapshot_of("src", vec![]);
    assert!(read_dotrain_files(&path("src"), &snapshot, false).unwrap().is_empty());
}

#[test]
fn dotrain_extension_is_recognised() {
    assert!(path("a.rain").is_dotrain());
    assert!(path("src/a.rain").is_dotrain());
    assert!(path("src/a.b.rain").is_dotrain());
    assert!(path("..rain").is_dotrain());
    assert!(path("src.d/x.rain").is_dotrain());
    assert!(!path(".rain").is_dotrain());
    assert!(!path("src/.rain").is_dotrain());
    assert!(!path("rain").is_dotrain());
    assert!(!path("a.rain.bak").is_dotrain());
    assert!(!path("a.RAIN").is_dotrain());
    assert!(!path("a.rains").is_dotrain());
    assert!(!path("a.ain").is_dotrain());
    assert!(!path("a.rain/").is_dotrain());
    assert!(!path("a.rain/b").is_dotrain());
    assert!(!path("").is_dotrain());
    assert!(!path("a.").is_dotrain());
}

#[test]
fn directory_named_like_a_source_is_searched_not_returned() {
    let snapshot = snapshot_of(
        "src",
        vec![dir("src/lib.rain", vec![file("src/lib.rain/inner.rain", "inner")])],
    );
    let found = read_dotrain_files(&path("src"), &snapshot, false).unwrap();
    assert_eq!(names(&found), vec![pair("src/lib.rain/inner.rain", "inner")]);
}

#[test]
fn strict_scan_fails_on_unreadable_source() {
    let snapshot = snapshot_of(
        "src",
        vec![file("src/a.rain", "alpha"), broken_file("src/b.rain", "permission denied")],
    );
    match read_dotrain_files(&path("src"), &snapshot, false) {
        Err(BuildError::Io { path: p, message }) => {
            assert_eq!(p.bytes, b"src/b.rain".to_vec());
            assert_eq!(message, "permission denied");
        },
        other => panic!("unexpected outcome: {:?}", other),
    }
}

#[test]
fn forced_scan_skips_unreadable_source() {
    let snapshot = snapshot_of(
        "src",
        vec![
            file("src/a.rain", "alpha"),
            broken_file("src/b.rain", "permission denied"),
            file("src/c.rain", "gamma"),
        ],
    );
    let found = read_dotrain_files(&path("src"), &snapshot, true).unwrap();
    assert_eq!(names(&found), vec![pair("src/a.rain", "alpha"), pair("src/c.rain", "gamma")]);
}

#[test]
fn unreadable_file_of_another_extension_is_ignored() {
    let snapshot = snapshot_of(
        "src",
        vec![broken_file("src/b.txt", "permission denied"), file("src/c.rain", "gamma")],
    );
    let found = read_dotrain_files(&path("src"), &snapshot, false).unwrap();
    assert_eq!(names(&found), vec![pair("src/c.rain", "gamma")]);
}

#[test]
fn source_that_is_not_text_is_a_read_failure() {
    let entries = vec![
        Ok(Entry::File { path: path("src/bad.rain"), content: Ok(vec![0x66, 0xff, 0x6f]) }),
        file("src/c.rain", "gamma"),
    ];
    let snapshot = snapshot_of("src", entries);
    match read_dotrain_files(&path("src"), &snapshot, false) {
        Err(BuildError::Io { path: p, message }) => {
            assert_eq!(p.bytes, b"src/bad.rain".to_vec());
            assert_eq!(message, "stream did not contain valid UTF-8");
        },
        other => panic!("unexpected outcome: {:?}", other),
    }
    let found = read_dotrain_files(&path("src"), &snapshot, true).unwrap();
    assert_eq!(names(&found), vec![pair("src/c.rain", "gamma")]);
}

#[test]
fn source_text_keeps_multibyte_characters() {
    let snapshot = snapshot_of("src", vec![file("src/a.rain", "caf\u{e9} \u{1f327}")]);
    let found = read_dotrain_files(&path("src"), &snapshot, false).unwrap();
    assert_eq!(names(&found), vec![pair("src/a.rain", "caf\u{e9} \u{1f327}")]);
}

#[test]
fn strict_scan_fails_on_unlistable_subdirectory() {
    let snapshot = snapshot_of(
        "src",
        vec![
            file("src/a.rain", "alpha"),
            Ok(Entry::Directory {
                path: path("src/locked"),
                listing: Err(IoFailure { message: "permission denied".to_string() }),
            }),
            file("src/c.rain", "gamma"),
        ],
    );
    match read_dotrain_files(&path("src"), &snapshot, false) {
        Err(e) => {
            assert_eq!(e.kind(), ErrorKind::Io);
            match e {
                BuildError::Io { path: p, message } => {
                    assert_eq!(p.bytes, b"src/locked".to_vec());
                    assert_eq!(message, "permission denied");
                },
                other => panic!("unexpected error: {:?}", other),
            }
        },
        Ok(found) => panic!("unexpected success: {:?}", found),
    }
    let found = read_dotrain_files(&path("src"), &snapshot, true).unwrap();
    assert_eq!(names(&found), vec![pair("src/a.rain", "alpha"), pair("src/c.rain", "gamma")]);
}

#[test]
fn forced_scan_drops_the_whole_of_a_failing_subtree() {
    let snapshot = snapshot_of(
        "src",
        vec![
            file("src/a.rain", "alpha"),
            dir(
                "src/sub",
                vec![
                    file("src/sub/kept.rain", "seen before the listing broke"),
                    Err(IoFailure { message: "input/output error".to_string() }),
                    file("src/sub/late.rain", "never reached"),
                ],
            ),
            file("src/c.rain", "gamma"),
        ],
    );
    let found = read_dotrain_files(&path("src"), &snapshot, true).unwrap();
    assert_eq!(names(&found), vec![pair("src/a.rain", "alpha"), pair("src/c.rain", "gamma")]);
    match read_dotrain_files(&path("src"), &snapshot, false) {
        Err(BuildError::Io { path: p, message }) => {
            assert_eq!(p.bytes, b"src/sub".to_vec());
            assert_eq!(message, "input/output error");
        },
        other => panic!("unexpected outcome: {:?}", other),
    }
}

#[test]
fn broken_listing_fails_its_directory_even_with_force() {
    let snapshot = snapshot_of(
        "src",
        vec![file("src/a.rain", "alpha"), Err(IoFailure { message: "stale handle".to_string() })],
    );
    match read_dotrain_files(&path("src"), &snapshot, true) {
        Err(BuildError::Io { path: p, message }) => {
            assert_eq!(p.bytes, b"src".to_vec());
            assert_eq!(message, "stale handle");
        },
        other => panic!("unexpected outcome: {:?}", other),
    }
}

#[test]
fn strict_scan_reports_the_first_failure() {
    let snapshot = snapshot_of(
        "src",
        vec![
            broken_file("src/a.rain", "first"),
            broken_file("src/b.rain", "second"),
            Err(IoFailure { message: "third".to_string() }),
        ],
    );
    match read_dotrain_files(&path("src"), &snapshot, false) {
        Err(BuildError::Io { path: p, message }) => {
            assert_eq!(p.bytes, b"src/a.rain".to_vec());
            assert_eq!(message, "first");
        },
        other => panic!("unexpected outcome: {:?}", other),
    }
}

#[test]
fn directory_that_was_not_listed_counts_as_absent() {
    let snapshot = snapshot_of("src", vec![file("src/a.rain", "alpha")]);
    match read_dotrain_files(&path("lib"), &snapshot, false) {
        Err(BuildError::Io { path: p, message }) => {
            assert_eq!(p.bytes, b"lib".to_vec());
            assert_eq!(message, "no such file or directory");
        },
        other => panic!("unexpected outcome: {:?}", other),
    }
    assert!(read_dotrain_files(&path("lib"), &snapshot, true).is_err());
}

#[test]
fn first_listing_of_a_path_is_the_one_that_counts() {
    let snapshot = Snapshot {
        directories: vec![
            (path("src"), Ok(vec![file("src/a.rain", "first")])),
            (path("src"), Ok(vec![file("src/a.rain", "second")])),
        ],
        files: vec![],
    };
    let found = read_dotrain_files(&path("src"), &snapshot, false).unwrap();
    assert_eq!(names(&found), vec![pair("src/a.rain", "first")]);
}

#[test]
fn scan_of_a_single_file() {
    let content = Ok(b"1".to_vec());
    let found = scan_file(&path("x/one.rain"), &content, false).unwrap();
    assert_eq!(names(&found), vec![pair("x/one.rain", "1")]);
    assert!(scan_file(&path("x/one.txt"), &content, false).unwrap().is_empty());
    let broken = Err(IoFailure { message: "busy".to_string() });
    assert!(scan_file(&path("x/one.txt"), &broken, false).unwrap().is_empty());
    assert!(scan_file(&path("x/one.rain"), &broken, true).unwrap().is_empty());
    match scan_file(&path("x/one.rain"), &broken, false) {
        Err(BuildError::Io { path: p, message }) => {
            assert_eq!(p.bytes, b"x/one.rain".to_vec());
            assert_eq!(message, "busy");
        },
        other => panic!("unexpected outcome: {:?}", other),
    }
}

#[test]
fn scan_of_a_listing() {
    let entries = vec![
        dir("x/a", vec![dir("x/a/b", vec![file("x/a/b/c.rain", "c")]), file("x/a/d.rain", "d")]),
        file("x/e.rain", "e"),
    ];
    let found = scan_listing(&path("x"), &entries, false).unwrap();
    assert_eq!(
        names(&found),
        vec![pair("x/a/b/c.rain", "c"), pair("x/a/d.rain", "d"), pair("x/e.rain", "e")]
    );
    assert!(scan_listing(&path("x"), &vec![], true).unwrap().is_empty());
}

#[test]
fn scan_of_a_deep_tree_finds_the_innermost_source() {
    let depth = 2000;
    let mut name = String::from("r");
    let mut names_down = Vec::new();
    for _ in 0..depth {
        name.push_str("/d");
        names_down.push(name.clone());
    }
    let leaf = format!("{}/leaf.rain", name);
    let mut entries = vec![file(&leaf, "leaf")];
    while let Some(directory) = names_down.pop() {
        entries = vec![file(&format!("{}.rain", directory), "beside"), dir(&directory, entries)];
    }
    let found = scan_listing(&path("r"), &entries, false).unwrap();
    assert_eq!(found.len(), depth + 1);
    assert_eq!(found[0].0.bytes, b"r/d.rain".to_vec());
    assert_eq!(found[depth].0.bytes, leaf.as_bytes().to_vec());
    assert_eq!(found[depth].1, "leaf");
    let mut tree = entries;
    loop {
        let mut next = None;
        for entry in tree {
            if let Ok(Entry::Directory { listing: Ok(below), .. }) = entry {
                next = Some(below);
            }
        }
        match next {
            Some(below) => tree = below,
            None => break,
        }
    }
}

#[test]
fn forced_scan_resumes_behind_a_failing_subtree_at_any_depth() {
    let entries = vec![
        file("r/first.rain", "1"),
        dir(
            "r/a",
            vec![
                file("r/a/kept.rain", "2"),
                dir(
                    "r/a/b",
                    vec![
                        file("r/a/b/lost.rain", "x"),
                        dir("r/a/b/c", vec![file("r/a/b/c/lost.rain", "y")]),
                        Err(IoFailure { message: "gone".to_string() }),
                    ],
                ),
                Ok(Entry::Directory {
                    path: path("r/a/locked"),
                    listing: Err(IoFailure { message: "denied".to_string() }),
                }),
                file("r/a/after.rain", "3"),
            ],
        ),
        file("r/last.rain", "4"),
    ];
    let found = scan_listing(&path("r"), &entries, true).unwrap();
    assert_eq!(
        names(&found),
        vec![
            pair("r/first.rain", "1"),
            pair("r/a/kept.rain", "2"),
            pair("r/a/after.rain", "3"),
            pair("r/last.rain", "4"),
        ]
    );
    match scan_listing(&path("r"), &entries, false) {
        Err(BuildError::Io { path: p, message }) => {
            assert_eq!(p.bytes, b"r/a/b".to_vec());
            assert_eq!(message, "gone");
        },
        other => panic!("unexpected outcome: {:?}", other),
    }
}

#[test]
fn source_under_a_path_that_is_not_text_is_still_found() {
    let mut odd = b"src/".to_vec();
    odd.push(0xff);
    odd.extend_from_slice(b".rain");
    let odd_path = FilePath { bytes: odd.clone() };
    assert!(odd_path.is_dotrain());
    assert_eq!(odd_path.to_uri(), None);
    let snapshot = snapshot_of(
        "src",
        vec![Ok(Entry::File { path: odd_path, content: Ok(b"odd".to_vec()) })],
    );
    let found = read_dotrain_files(&path("src"), &snapshot, false).unwrap();
    assert_eq!(found.len(), 1);
    assert_eq!(found[0].0.bytes, odd);
    assert_eq!(found[0].1, "odd");
}

#[test]
fn uri_is_the_path_as_text() {
    assert_eq!(path("src/a.rain").to_uri(), Some("src/a.rain".to_string()));
    assert_eq!(path("").to_uri(), Some(String::new()));
    assert_eq!(path("d\u{e9}p\u{f4}t/a.rain").to_uri(), Some("d\u{e9}p\u{f4}t/a.rain".to_string()));
    assert_eq!(FilePath { bytes: vec![0x61, 0xc3] }.to_uri(), None);
    assert_eq!(FilePath { bytes: vec![0xed, 0xa0, 0x80] }.to_uri(), None);
}

#[test]
fn included_directories_are_scanned_in_order() {
    let snapshot = Snapshot {
        directories: vec![
            (path("one"), Ok(vec![file("one/a.rain", "a")])),
            (path("two"), Ok(vec![file("two/b.rain", "b"), file("two/c.txt", "c")])),
        ],
        files: vec![],
    };
    let config = RainConfigStruct {
        included: Some(vec![path("two"), path("one")]),
        subgraphs: None,
        meta: None,
        deployers: None,
    };
    let found = config.read_included_files(&snapshot, false).unwrap();
    assert_eq!(names(&found), vec![pair("two/b.rain", "b"), pair("one/a.rain", "a")]);
}

#[test]
fn included_directory_that_fails_is_skipped_with_force() {
    let snapshot = Snapshot {
        directories: vec![
            (path("one"), Ok(vec![file("one/a.rain", "a")])),
            (path("two"), Err(IoFailure { message: "not a directory".to_string() })),
        ],
        files: vec![],
    };
    let config = RainConfigStruct {
        included: Some(vec![path("two"), path("one"), path("three")]),
        subgraphs: None,
        meta: None,
        deployers: None,
    };
    let found = config.read_included_files(&snapshot, true).unwrap();
    assert_eq!(names(&found), vec![pair("one/a.rain", "a")]);
    match config.read_included_files(&snapshot, false) {
        Err(BuildError::Io { path: p, message }) => {
            assert_eq!(p.bytes, b"two".to_vec());
            assert_eq!(message, "not a directory");
        },
        other => panic!("unexpected outcome: {:?}", other),
    }
}

#[test]
fn no_included_directories_means_no_sources() {
    let snapshot = mixed_tree();
    let config = RainConfigStruct { included: None, subgraphs: None, meta: None, deployers: None };
    assert!(config.read_included_files(&snapshot, false).unwrap().is_empty());
    let empty = RainConfigStruct {
        included: Some(vec![]),
        subgraphs: None,
        meta: None,
        deployers: None,
    };
    assert!(empty.read_included_files(&snapshot, false).unwrap().is_empty());
}
