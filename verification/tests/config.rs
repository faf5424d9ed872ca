use rainconfig::{FilePath, RainConfigDeployer, RainConfigMetaType, RainConfigStruct};

fn config_path(text: &str) -> FilePath {
    FilePath { bytes: text.as_bytes().to_vec() }
}

fn some_bundle(parser: &str) -> RainConfigDeployer {
    RainConfigDeployer {
        construction_meta: RainConfigMetaType::Binary(config_path("meta.bin")),
        expression_deployer: config_path("Deployer.json"),
        parser: config_path(parser),
        store: config_path("Store.json"),
        interpreter: config_path("Interpreter.json"),
    }
}

fn some_config() -> RainConfigStruct {
    RainConfigStruct {
        included: Some(vec![config_path("src"), config_path("lib")]),
        subgraphs: Some(vec!["https://example.org/subgraph".to_string()]),
        meta: Some(vec![
            RainConfigMetaType::Binary(config_path("a.bin")),
            RainConfigMetaType::Hex(config_path("b.hex")),
        ]),
        deployers: Some(vec![("0x01".to_string(), some_bundle("Parser.json"))]),
    }
}

#[test]
fn paths_are_equal_by_their_bytes() {
    assert!(config_path("src/a.rain") == config_path("src/a.rain"));
    assert!(config_path("src/a.rain") != config_path("src/b.rain"));
    assert!(config_path("src") != config_path("src/"));
    assert!(config_path("") == config_path(""));
    assert_eq!(config_path("src").clone(), config_path("src"));
}

#[test]
fn meta_files_are_equal_by_form_and_path() {
    let binary = RainConfigMetaType::Binary(config_path("a"));
    assert!(binary == RainConfigMetaType::Binary(config_path("a")));
    assert!(binary != RainConfigMetaType::Hex(config_path("a")));
    assert!(binary != RainConfigMetaType::Binary(config_path("b")));
    assert!(RainConfigMetaType::Hex(config_path("a")) == RainConfigMetaType::Hex(config_path("a")));
}

#[test]
fn bundles_are_equal_by_every_file() {
    assert!(some_bundle("Parser.json") == some_bundle("Parser.json"));
    assert!(some_bundle("Parser.json") != some_bundle("Other.json"));
    let mut changed = some_bundle("Parser.json");
    changed.construction_meta = RainConfigMetaType::Hex(config_path("meta.bin"));
    assert!(changed != some_bundle("Parser.json"));
    let mut changed = some_bundle("Parser.json");
    changed.interpreter = config_path("I.json");
    assert!(changed != some_bundle("Parser.json"));
}

#[test]
fn configurations_are_equal_field_by_field() {
    assert_eq!(some_config(), some_config());
    assert_eq!(some_config().clone(), some_config());
    let empty = RainConfigStruct { included: None, subgraphs: None, meta: None, deployers: None };
    assert!(empty != some_config());
    assert!(
        empty == RainConfigStruct { included: None, subgraphs: None, meta: None, deployers: None }
    );
    let mut changed = some_config();
    changed.included = Some(vec![config_path("lib"), config_path("src")]);
    assert!(changed != some_config());
    let mut changed = some_config();
    changed.included = Some(vec![]);
    assert!(changed != some_config());
    changed.included = None;
    assert!(changed != some_config());
    let mut changed = some_config();
    changed.subgraphs = Some(vec!["https://example.org/other".to_string()]);
    assert!(changed != some_config());
    let mut changed = some_config();
    changed.meta = Some(vec![
        RainConfigMetaType::Binary(config_path("a.bin")),
        RainConfigMetaType::Binary(config_path("b.hex")),
    ]);
    assert!(changed != some_config());
    let mut changed = some_config();
    changed.deployers = Some(vec![("0x02".to_string(), some_bundle("Parser.json"))]);
    assert!(changed != some_config());
    let mut changed = some_config();
    changed.deployers = Some(vec![("0x01".to_string(), some_bundle("P.json"))]);
    assert!(changed != some_config());
}
