use cracker::commands::Conan;
use cracker::commands::ConanStorageGuard;
use cracker::conan_package::ConanPackage;
use cracker::db::CrackerDatabase;
use cracker::db::CrackerDatabaseData;
use cracker::db::Wrapper;
use cracker::errors::CrackerError;
use cracker::orchestrator::crack;
use cracker::orchestrator::import_requests;
use cracker::orchestrator::make_sure_if_empty;
use cracker::orchestrator::should_wrap;
use cracker::orchestrator::CollisionOutcome;
use cracker::orchestrator::CrackOutcome;
use cracker::orchestrator::CrackRequest;
use cracker::orchestrator::ImportRequest;
use cracker::paths::InstallationType;
use cracker::paths::Paths;

fn test_paths() -> Paths {
    Paths {
        prefix: "some/random/path".to_owned(),
        bin_dir: "some/random/path/bin".to_owned(),
        install_type: InstallationType::Conan,
        pkg_name: "abc".to_owned(),
    }
}

fn conan_request(bin: &str, reference: &str) -> CrackRequest {
    CrackRequest {
        bin: bin.to_owned(),
        pkg_name: "abc".to_owned(),
        data: CrackerDatabaseData::Conan {
            conan_pkg: ConanPackage::new(reference).unwrap(),
            conan_settings: vec![],
            conan_options: vec![],
        },
    }
}

const CONAN_SCRIPT: &str = r#"#!/bin/bash
source some/random/path/.cracker_storage/conan_abc/activate_run.sh
source some/random/path/.cracker_storage/conan_abc/activate.sh
binary "${@}""#;

#[test]
fn crack_tests() {
    let req = conan_request("binary", "abc/321@a/b");
    let paths = test_paths();
    let mut db = CrackerDatabase { wrapped: vec![], storage_owned_by: String::new() };
    assert!(db.wrapped("binary").is_none());

    // Fresh name: no prompt, the script is written.
    let outcome = crack(&mut db, &req, &paths, None, true);
    assert_eq!(
        db.wrapped("binary"),
        Some(Wrapper { wrapped_bin: String::from("binary") })
    );
    match outcome {
        CrackOutcome::Done { remove_first, script_path, contents } => {
            assert_eq!(remove_first, None);
            assert_eq!(script_path, "some/random/path/bin/binary");
            assert_eq!(contents, CONAN_SCRIPT);
        },
        other => panic!("unexpected outcome: {:?}", other),
    }

    // Wrapped already, the user consents: the old file is removed first.
    let outcome = crack(&mut db, &req, &paths, Some(true), true);
    match outcome {
        CrackOutcome::Done { remove_first, script_path, contents } => {
            assert_eq!(remove_first, Some("some/random/path/bin/binary".to_owned()));
            assert_eq!(script_path, "some/random/path/bin/binary");
            assert_eq!(contents, CONAN_SCRIPT);
        },
        other => panic!("unexpected outcome: {:?}", other),
    }

    // Wrapped already, the user declines: nothing is removed or written.
    let before = db.clone();
    let outcome = crack(&mut db, &req, &paths, Some(false), true);
    assert_eq!(outcome, CrackOutcome::Skipped);
    assert_eq!(db, before);
}

#[test]
fn crack_asks_before_overwriting() {
    let req = conan_request("binary", "abc/321@a/b");
    let paths = test_paths();
    let mut db = CrackerDatabase::new("me".to_owned());
    crack(&mut db, &req, &paths, None, true);
    let before = db.clone();
    match crack(&mut db, &req, &paths, None, true) {
        CrackOutcome::NeedsAnswer { message } => {
            assert_eq!(message, "Wrapper binary already generated overwrite?");
        },
        other => panic!("unexpected outcome: {:?}", other),
    }
    assert_eq!(db, before);
}

#[test]
fn crack_git_wrapper_has_no_activation() {
    let req = CrackRequest {
        bin: "/abs/tool".to_owned(),
        pkg_name: "tool".to_owned(),
        data: CrackerDatabaseData::Git {
            pkg_name: "tool".to_owned(),
            url: "https://host/tool.git".to_owned(),
            label: "unimplemented".to_owned(),
            search_paths: vec![".".to_owned()],
        },
    };
    let paths = Paths {
        prefix: "p".to_owned(),
        bin_dir: "p/bin".to_owned(),
        install_type: InstallationType::Git,
        pkg_name: "tool".to_owned(),
    };
    let mut db = CrackerDatabase::new("me".to_owned());
    match crack(&mut db, &req, &paths, None, false) {
        CrackOutcome::Done { remove_first, script_path, contents } => {
            assert_eq!(remove_first, None);
            assert_eq!(script_path, "p/bin/tool");
            assert_eq!(contents, "#!/bin/bash\n/abs/tool \"${@}\"");
        },
        other => panic!("unexpected outcome: {:?}", other),
    }
}

#[test]
fn conan_install_fun() {
    let expected_invocations = vec![
        vec!["conan", "config", "get", "storage.path"],
        vec!["conan", "config", "set", "storage.path=some/random/path/.cracker_storage"],
        vec![
            "conan", "install", "abc/321@", "-if", "some_folder", "-g", "virtualrunenv", "-g",
            "virtualenv", "-s", "some_set", "-s", "another_one", "-o", "opt",
        ],
        vec!["conan", "config", "set", "storage.path=abc"],
    ];

    let mut captured: Vec<Vec<String>> = Vec::new();
    captured.push(ConanStorageGuard::get_storage_cmd());
    // The get command returned "abc"; redirect to the storage directory.
    let (guard, set_cmd) =
        ConanStorageGuard::new("abc".to_owned(), "some/random/path/.cracker_storage");
    captured.push(set_cmd);
    let conan = Conan::new();
    captured.push(conan.install_command(
        &ConanPackage::new("abc/321@").unwrap(),
        "some_folder",
        &vec![String::from("some_set"), String::from("another_one")],
        &vec![String::from("opt")],
    ));
    captured.push(guard.restore_cmd());
    assert_eq!(captured, expected_invocations
        .iter()
        .map(|c| c.iter().map(|s| s.to_string()).collect::<Vec<String>>())
        .collect::<Vec<Vec<String>>>());
}

#[test]
fn install_result_reports_failures_verbatim() {
    let conan = Conan::new();
    assert!(conan.install_result(0, String::new(), String::new()).is_ok());
    let err = conan
        .install_result(7, "out".to_owned(), "err".to_owned())
        .err()
        .unwrap();
    assert_eq!(
        err,
        CrackerError::InstallFailure {
            status: 7,
            stdout: "out".to_owned(),
            stderr: "err".to_owned()
        }
    );
    assert_eq!(
        err.message(),
        "conan install failed with exit code 7 \nstdout:\nout \nstderr:\nerr"
    );
}

#[test]
fn fresh_root_install_scenario() {
    // A fresh root: the collision check passes, one executable is wrapped,
    // the database holds one entry with one wrapper, and the script sources
    // the two activation files before handing over.
    let paths = Paths::new(
        "root".to_owned(),
        None,
        InstallationType::Conan,
        "abc",
    );
    assert_eq!(paths.bin_dir(), "root/bin");
    let mut db = CrackerDatabase::new("me".to_owned());
    let pre = make_sure_if_empty(&mut db, false, "abc", &paths, None);
    assert_eq!(pre, CollisionOutcome::Clean);
    let req = CrackRequest {
        bin: "root/.cracker_storage/conan_abc/bin/tool".to_owned(),
        pkg_name: "abc".to_owned(),
        data: CrackerDatabaseData::Conan {
            conan_pkg: ConanPackage::new("abc/1.0@").unwrap(),
            conan_settings: vec![],
            conan_options: vec![],
        },
    };
    match crack(&mut db, &req, &paths, None, true) {
        CrackOutcome::Done { remove_first, script_path, contents } => {
            assert_eq!(remove_first, None);
            assert_eq!(script_path, "root/bin/tool");
            assert_eq!(
                contents,
                "#!/bin/bash\n\
                 source root/.cracker_storage/conan_abc/activate_run.sh\n\
                 source root/.cracker_storage/conan_abc/activate.sh\n\
                 root/.cracker_storage/conan_abc/bin/tool \"${@}\""
            );
        },
        other => panic!("unexpected outcome: {:?}", other),
    }
    assert_eq!(db.wrapped.len(), 1);
    assert_eq!(db.wrapped[0].wrappers.len(), 1);
    assert_eq!(db.wrapped[0].wrappers[0].wrapped_bin, "tool");
    assert_eq!(db.wrapped[0].install_folder, "root/.cracker_storage/conan_abc");
}

#[test]
fn reinstall_declined_changes_nothing() {
    // An occupied install folder and the answer "no": the install is
    // abandoned with no mutation.
    let paths = test_paths();
    let mut db = CrackerDatabase::new("me".to_owned());
    let req = conan_request("binary", "abc/321@");
    crack(&mut db, &req, &paths, None, true);
    let before = db.clone();
    match make_sure_if_empty(&mut db, true, "abc", &paths, None) {
        CollisionOutcome::NeedsAnswer { message } => {
            assert_eq!(
                message,
                "Package: abc already installed wraps: [binary], to proceed that package \
                 has to be removed, remove?"
            );
        },
        other => panic!("unexpected outcome: {:?}", other),
    }
    assert_eq!(db, before);
    let outcome = make_sure_if_empty(&mut db, true, "abc", &paths, Some(false));
    assert_eq!(outcome, CollisionOutcome::Refused);
    assert_eq!(db, before);
}

#[test]
fn reinstall_confirmed_removes_and_saves() {
    // An occupied install folder and the answer "yes": the folder and the
    // wrapper files are named for removal, the entry leaves the database,
    // and the index text is saved at once.
    let paths = test_paths();
    let mut db = CrackerDatabase::new("me".to_owned());
    let req = conan_request("binary", "abc/321@");
    crack(&mut db, &req, &paths, None, true);
    match make_sure_if_empty(&mut db, true, "abc", &paths, Some(true)) {
        CollisionOutcome::Removed { plan } => {
            assert_eq!(plan.remove_dir, "some/random/path/.cracker_storage/conan_abc");
            assert_eq!(plan.remove_files, vec!["some/random/path/bin/binary".to_owned()]);
            assert_eq!(plan.index_contents, db.save());
        },
        other => panic!("unexpected outcome: {:?}", other),
    }
    assert!(db.wrapped.is_empty());
    assert!(db.wrapped("binary").is_none());
}

#[test]
fn should_wrap_filters_files_modes_and_allow_list() {
    let empty: Vec<String> = vec![];
    let list = vec!["tool".to_owned(), "other".to_owned()];
    assert!(should_wrap(true, 0o755, "anything", &empty));
    assert!(!should_wrap(false, 0o755, "anything", &empty));
    assert!(!should_wrap(true, 0o644, "anything", &empty));
    // Any execute bit is enough, not only the owner's.
    assert!(should_wrap(true, 0o010, "anything", &empty));
    assert!(should_wrap(true, 0o601, "anything", &empty));
    assert!(should_wrap(true, 0o700, "tool", &list));
    assert!(!should_wrap(true, 0o700, "missing", &list));
}

#[test]
fn import_requests_rebuild_each_entry() {
    let mut db = CrackerDatabase::new("me".to_owned());
    db.register_wrap(
        "alpha",
        "/s/conan_abc",
        CrackerDatabaseData::Conan {
            conan_pkg: ConanPackage::new("abc/321@a/b").unwrap(),
            conan_settings: vec!["os=Linux".to_owned()],
            conan_options: vec!["shared=True".to_owned()],
        },
    );
    db.register_wrap(
        "tool",
        "/s/git_tool",
        CrackerDatabaseData::Git {
            pkg_name: "tool".to_owned(),
            url: "https://host/tool.git".to_owned(),
            label: "unimplemented".to_owned(),
            search_paths: vec![".".to_owned()],
        },
    );
    let requests = import_requests(&db);
    assert_eq!(requests.len(), 2);
    assert_eq!(
        requests[0],
        ImportRequest::Conan {
            reference: "abc/321@a/b".to_owned(),
            settings: vec!["os=Linux".to_owned()],
            options: vec!["shared=True".to_owned()],
            wrappers: vec!["alpha".to_owned()],
        }
    );
    assert_eq!(
        requests[1],
        ImportRequest::Git {
            url: "https://host/tool.git".to_owned(),
            search_paths: vec![".".to_owned()],
            wrappers: vec!["tool".to_owned()],
        }
    );
}
