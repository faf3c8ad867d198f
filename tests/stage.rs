use loading_dock::{load_config, stage_file, Config, Stored};

/// What opening the temporary file's path for reading gives.
fn open_result(f: &tempfile::NamedTempFile) -> Result<(), String> {
    f.reopen().map(|_| ()).map_err(|e| e.to_string())
}

/// What opening a path that names no file gives.
fn not_found() -> Result<(), String> {
    Err(std::io::Error::from(std::io::ErrorKind::NotFound).to_string())
}

#[test]
fn successfuly_staged() {
    let f = tempfile::NamedTempFile::new().expect("error creating temp file");
    let path = f
        .path()
        .as_os_str()
        .to_str()
        .expect("error converting path to str");

    let mut cfg = Config::default();
    stage_file(&mut cfg, &path, open_result(&f)).expect("error staging file");

    assert_eq!(cfg.staged, vec![path]);
}

#[test]
fn stage_duplicate() {
    let f = tempfile::NamedTempFile::new().expect("error creating temp file");
    let path = f
        .path()
        .as_os_str()
        .to_str()
        .expect("error converting path to str");

    let mut cfg = Config::default();
    stage_file(&mut cfg, &path, open_result(&f)).expect("error staging file");
    stage_file(&mut cfg, &path, open_result(&f)).expect("error staging second file");

    assert_eq!(cfg.staged, vec![path]);
}

#[test]
fn file_does_not_exist() {
    let mut cfg = Config::default();
    stage_file(&mut cfg, "", not_found()).expect_err("should have errored on missing file");

    assert_eq!(cfg.staged, Vec::<String>::new());
}

#[test]
fn failed_stage_names_the_file_and_keeps_the_list() {
    let mut cfg = Config { staged: vec!["kept".to_string()] };
    let err = stage_file(&mut cfg, "/no/such/file", Err("not found".to_string()))
        .expect_err("should fail");
    assert_eq!(err.text(), "/no/such/file: not found");
    assert_eq!(cfg.staged, vec!["kept".to_string()]);
}

#[test]
fn stage_two_paths_in_order_and_store_them() {
    let mut cfg = Config::default();
    stage_file(&mut cfg, "/tmp/a.txt", Ok(())).expect("first");
    stage_file(&mut cfg, "/tmp/b.txt", Ok(())).expect("second");
    assert_eq!(cfg.staged, vec!["/tmp/a.txt".to_string(), "/tmp/b.txt".to_string()]);
    assert_eq!(cfg.to_json(), "{\"staged\":[\"/tmp/a.txt\",\"/tmp/b.txt\"]}");
}

#[test]
fn stage_existing_path_again_keeps_order() {
    let mut cfg = Config::default();
    stage_file(&mut cfg, "a", Ok(())).unwrap();
    stage_file(&mut cfg, "b", Ok(())).unwrap();
    stage_file(&mut cfg, "a", Ok(())).unwrap();
    assert_eq!(cfg.staged, vec!["a".to_string(), "b".to_string()]);
}

#[test]
fn listing_puts_each_path_on_a_line() {
    let cfg = Config { staged: vec!["x".to_string(), "y".to_string()] };
    assert_eq!(cfg.listing(), "x\ny\n");
    assert_eq!(Config::default().listing(), "");
}

#[test]
fn empty_config_is_stored_as_empty_array() {
    assert_eq!(Config::default().to_json(), "{\"staged\":[]}");
}

#[test]
fn stored_text_escapes_quotes() {
    let cfg = Config { staged: vec!["a\"b".to_string()] };
    assert_eq!(cfg.to_json(), "{\"staged\":[\"a\\\"b\"]}");
}

#[test]
fn stored_text_escapes_control_characters() {
    let cfg = Config { staged: vec!["a\tb\nc\u{1}d\\e\u{7f}/".to_string()] };
    assert_eq!(cfg.to_json(), "{\"staged\":[\"a\\tb\\nc\\u0001d\\\\e\u{7f}/\"]}");
}

#[test]
fn stored_text_keeps_non_ascii() {
    let cfg = Config { staged: vec!["é".to_string(), "x".to_string()] };
    assert_eq!(cfg.to_json(), "{\"staged\":[\"é\",\"x\"]}");
}

#[test]
fn stored_text_reads_back() {
    let cfg = Config { staged: vec!["/tmp/a.txt".to_string(), "b c".to_string(), "ü\"\\".to_string()] };
    let text = cfg.to_json();
    let value: serde_json::Value = serde_json::from_str(&text).expect("valid JSON");
    let back: Vec<String> = value
        .get("staged")
        .and_then(|v| v.as_array())
        .expect("an array")
        .iter()
        .map(|s| s.as_str().expect("a string").to_string())
        .collect();
    assert_eq!(back, cfg.staged);
}

#[test]
fn missing_file_loads_empty() {
    let cfg = load_config(Stored::Missing).expect("not an error");
    assert!(cfg.staged.is_empty());
}

#[test]
fn malformed_file_loads_empty() {
    let cfg = load_config(Stored::Malformed).expect("not an error");
    assert!(cfg.staged.is_empty());
}

#[test]
fn unreadable_file_is_an_error() {
    let err = load_config(Stored::Unreadable("permission denied".to_string())).expect_err("error");
    assert_eq!(err.text(), "permission denied");
}

#[test]
fn parsed_file_is_kept() {
    let cfg = Config { staged: vec!["p".to_string()] };
    let loaded = load_config(Stored::Parsed(cfg)).expect("ok");
    assert_eq!(loaded.staged, vec!["p".to_string()]);
}
