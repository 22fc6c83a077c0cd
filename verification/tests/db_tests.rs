use cracker::conan_package::ConanPackage;
use cracker::db::CrackerDatabase;
use cracker::db::CrackerDatabaseData;
use cracker::db::Wrapper;

fn conan_data(reference: &str) -> CrackerDatabaseData {
    CrackerDatabaseData::Conan {
        conan_pkg: ConanPackage::new(reference).unwrap(),
        conan_settings: vec![],
        conan_options: vec![],
    }
}

fn git_data(url: &str) -> CrackerDatabaseData {
    CrackerDatabaseData::Git {
        pkg_name: "tool".to_owned(),
        url: url.to_owned(),
        label: "unimplemented".to_owned(),
        search_paths: vec![".".to_owned()],
    }
}

#[test]
fn new_database_is_empty_and_owned() {
    let db = CrackerDatabase::new("someone".to_owned());
    assert_eq!(db.wrapped.len(), 0);
    assert_eq!(db.storage_owned_by, "someone");
}

#[test]
fn registering_equal_data_groups_under_one_entry() {
    let mut db = CrackerDatabase::new("me".to_owned());
    db.register_wrap("alpha", "/store/conan_abc", conan_data("abc/321@"));
    db.register_wrap("beta", "/store/conan_abc", conan_data("abc/321@"));
    assert_eq!(db.wrapped.len(), 1);
    assert_eq!(db.wrapped[0].wrappers.len(), 2);
    assert_eq!(db.wrapped[0].wrappers[0].wrapped_bin, "alpha");
    assert_eq!(db.wrapped[0].wrappers[1].wrapped_bin, "beta");
}

#[test]
fn registering_different_data_creates_two_entries() {
    let mut db = CrackerDatabase::new("me".to_owned());
    db.register_wrap("alpha", "/store/conan_abc", conan_data("abc/321@"));
    db.register_wrap("beta", "/store/git_tool", git_data("https://host/tool.git"));
    assert_eq!(db.wrapped.len(), 2);
    assert_eq!(db.wrapped[0].wrappers.len(), 1);
    assert_eq!(db.wrapped[1].wrappers.len(), 1);
}

#[test]
fn wrapped_finds_a_wrapper_by_exact_name() {
    let mut db = CrackerDatabase::new("me".to_owned());
    db.register_wrap("alpha", "/store/conan_abc", conan_data("abc/321@"));
    assert_eq!(db.wrapped("alpha"), Some(Wrapper { wrapped_bin: "alpha".to_owned() }));
    assert_eq!(db.wrapped("Alpha"), None);
    assert_eq!(db.wrapped("beta"), None);
}

#[test]
fn wrappers_lists_the_entry_at_a_folder() {
    let mut db = CrackerDatabase::new("me".to_owned());
    db.register_wrap("alpha", "/store/conan_abc", conan_data("abc/321@"));
    db.register_wrap("beta", "/store/conan_abc", conan_data("abc/321@"));
    let ws = db.wrappers("/store/conan_abc");
    assert_eq!(ws.len(), 2);
    assert_eq!(ws[0].wrapped_bin, "alpha");
    assert_eq!(ws[1].wrapped_bin, "beta");
    assert!(db.wrappers("/store/elsewhere").is_empty());
}

#[test]
fn unregister_wrapper_removes_the_name_from_every_entry() {
    let mut db = CrackerDatabase::new("me".to_owned());
    db.register_wrap("alpha", "/store/conan_abc", conan_data("abc/321@"));
    db.register_wrap("beta", "/store/conan_abc", conan_data("abc/321@"));
    db.unregister_wrapper(&Wrapper { wrapped_bin: "alpha".to_owned() });
    assert_eq!(db.wrapped("alpha"), None);
    assert_eq!(db.wrapped("beta"), Some(Wrapper { wrapped_bin: "beta".to_owned() }));
    for entry in &db.wrapped {
        for w in &entry.wrappers {
            assert_ne!(w.wrapped_bin, "alpha");
        }
    }
}

#[test]
fn unregister_pkg_drops_the_whole_entry() {
    let mut db = CrackerDatabase::new("me".to_owned());
    db.register_wrap("alpha", "/store/conan_abc", conan_data("abc/321@"));
    db.register_wrap("tool", "/store/git_tool", git_data("https://host/tool.git"));
    db.unregister_pkg("/store/conan_abc");
    assert_eq!(db.wrapped.len(), 1);
    assert_eq!(db.wrapped[0].install_folder, "/store/git_tool");
}

#[test]
fn overwrite_keeps_one_occurrence_of_a_name() {
    let mut db = CrackerDatabase::new("me".to_owned());
    db.register_wrap("alpha", "/store/conan_abc", conan_data("abc/321@"));
    // The overwrite path: the old owner loses the name before the new one
    // gains it.
    db.unregister_wrapper(&Wrapper { wrapped_bin: "alpha".to_owned() });
    db.register_wrap("alpha", "/store/git_tool", git_data("https://host/tool.git"));
    let mut occurrences = 0;
    for entry in &db.wrapped {
        for w in &entry.wrappers {
            if w.wrapped_bin == "alpha" {
                occurrences += 1;
            }
        }
    }
    assert_eq!(occurrences, 1);
}
