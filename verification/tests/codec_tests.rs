use cracker::conan_package::ConanPackage;
use cracker::codec::parse_db;
use cracker::db::CrackerDatabase;
use cracker::db::CrackerDatabaseData;
use cracker::errors::CrackerError;

fn conan_data(reference: &str, settings: Vec<String>, options: Vec<String>) -> CrackerDatabaseData {
    CrackerDatabaseData::Conan {
        conan_pkg: ConanPackage::new(reference).unwrap(),
        conan_settings: settings,
        conan_options: options,
    }
}

#[test]
fn init_cache_dir_db_already_exists() {
    let username = "fulara";
    let content = format!(r#"{{"wrapped":[],"storage_owned_by":"{}"}}"#, username);
    let db = CrackerDatabase::load(&content, username).unwrap();
    assert!(!db.storage_owned_by.is_empty());
    assert!(db.wrapped.is_empty());
}

#[test]
fn init_cache_dir_db_already_exists_diff_username() {
    let content = r#"{"wrapped":[],"storage_owned_by":"not_me"}"#;
    let result = CrackerDatabase::load(content, "fulara");
    let display = result.err().unwrap().message();
    assert_eq!(display, r#"Cracker storage owned by: 'not_me' while you are: 'fulara'"#);
}

#[test]
fn loading_garbage_is_a_decode_error() {
    assert_eq!(CrackerDatabase::load("", "me"), Err(CrackerError::Decode));
    assert_eq!(CrackerDatabase::load("{}", "me"), Err(CrackerError::Decode));
    assert_eq!(
        CrackerDatabase::load(r#"{"wrapped":[],"storage_owned_by":"me"} "#, "me"),
        Err(CrackerError::Decode)
    );
}

#[test]
fn empty_database_serializes_compactly() {
    let db = CrackerDatabase::new("fulara".to_owned());
    assert_eq!(db.save(), r#"{"wrapped":[],"storage_owned_by":"fulara"}"#);
}

#[test]
fn one_entry_serializes_to_the_canonical_text() {
    let mut db = CrackerDatabase::new("me".to_owned());
    db.register_wrap(
        "tool",
        "/store/conan_abc",
        conan_data("abc/321@", vec!["os=Linux".to_owned()], vec![]),
    );
    let expected = r#"{"wrapped":[{"data":{"Conan":{"conan_pkg":{"name":"abc","version":"321","user":"","channel":""},"conan_settings":["os=Linux"],"conan_options":[]}},"wrappers":[{"wrapped_bin":"tool"}],"install_folder":"/store/conan_abc"}],"storage_owned_by":"me"}"#;
    assert_eq!(db.save(), expected);
}

#[test]
fn save_and_load_round_trip_exactly() {
    let mut db = CrackerDatabase::new("owner".to_owned());
    db.register_wrap(
        "alpha",
        "/s/conan_abc",
        conan_data("abc/321@a/b", vec!["s1".to_owned(), "s2".to_owned()], vec!["o1".to_owned()]),
    );
    db.register_wrap("beta", "/s/conan_abc", conan_data(
        "abc/321@a/b",
        vec!["s1".to_owned(), "s2".to_owned()],
        vec!["o1".to_owned()],
    ));
    db.register_wrap(
        "tool",
        "/s/git_tool",
        CrackerDatabaseData::Git {
            pkg_name: "tool".to_owned(),
            url: "https://host/a/tool.git".to_owned(),
            label: "unimplemented".to_owned(),
            search_paths: vec![".".to_owned(), "bin".to_owned()],
        },
    );
    let text = db.save();
    let loaded = CrackerDatabase::load(&text, "owner").unwrap();
    assert_eq!(loaded, db);
    assert_eq!(loaded.save(), text);
}

#[test]
fn strings_with_quotes_and_backslashes_round_trip() {
    let mut db = CrackerDatabase::new("owner".to_owned());
    db.register_wrap(
        "q",
        r#"C:\store\pkg"dir"#,
        conan_data("abc/321@", vec![r#"flag="a b""#.to_owned(), "back\\slash".to_owned()], vec![]),
    );
    let text = db.save();
    let loaded = CrackerDatabase::load(&text, "owner").unwrap();
    assert_eq!(loaded, db);
}

#[test]
fn save_prunes_entries_without_wrappers() {
    let mut db = CrackerDatabase::new("owner".to_owned());
    db.register_wrap("solo", "/s/conan_abc", conan_data("abc/321@", vec![], vec![]));
    db.register_wrap("tool", "/s/git_tool", CrackerDatabaseData::Git {
        pkg_name: "tool".to_owned(),
        url: "https://host/tool.git".to_owned(),
        label: "unimplemented".to_owned(),
        search_paths: vec![],
    });
    db.unregister_wrapper(&cracker::db::Wrapper { wrapped_bin: "solo".to_owned() });
    let text = db.save();
    // The emptied entry does not appear in the persisted file.
    assert!(!text.contains("conan_abc"));
    assert!(text.contains("git_tool"));
    let loaded = CrackerDatabase::load(&text, "owner").unwrap();
    assert_eq!(loaded.wrapped.len(), 1);
    assert_eq!(loaded.wrapped[0].install_folder, "/s/git_tool");
}

#[test]
fn parse_db_rejects_near_misses() {
    assert!(parse_db(r#"{"wrapped":[],"storage_owned_by":"me""#).is_none());
    assert!(parse_db(r#"{"wrapped": [],"storage_owned_by":"me"}"#).is_none());
    assert!(parse_db(r#"{"wrapped":[],"storage_owned_by":me}"#).is_none());
}
