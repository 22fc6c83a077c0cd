use cracker::answer::parse_answer;
use cracker::commands::git_clone_command;
use cracker::db::CrackerDatabase;
use cracker::errors::CrackerError;
use cracker::extract::extract_git_repo_name;
use cracker::extract::extract_path;
use cracker::paths::file_name;
use cracker::paths::join_path;
use cracker::paths::parent_path;
use cracker::paths::InstallationType;
use cracker::paths::Paths;
use cracker::permissions::expand_mode_to_all_users;
use cracker::script::generate_enable_script;

fn test_paths() -> Paths {
    Paths {
        prefix: "some/random/path".to_owned(),
        bin_dir: "some/random/path/bin".to_owned(),
        install_type: InstallationType::Conan,
        pkg_name: "abc".to_owned(),
    }
}

#[test]
fn init_cache_dir_test() {
    let paths = test_paths();
    assert_eq!(paths.storage_dir(), "some/random/path/.cracker_storage");
    assert_eq!(paths.bin_dir(), "some/random/path/bin");
    assert_eq!(paths.db_path(), "some/random/path/.cracker_index");
    assert_eq!(paths.install_folder(), "some/random/path/.cracker_storage/conan_abc");
    let db = CrackerDatabase::new("someone".to_owned());
    assert!(!db.storage_owned_by.is_empty());
}

#[test]
fn permissions() {
    let paths = test_paths();
    let (path, contents) = generate_enable_script(&paths).unwrap();
    assert_eq!(path, "some/random/path/cracker_enable");
    assert_eq!(
        contents,
        r#"#!/bin/bash
export PATH="some/random/path/bin:$PATH""#
    );
}

#[test]
fn extract_test_path() {
    let content = "\nabcabcabc\nPATH=\"wole\":\"abc\"\n        ";
    assert_eq!(extract_path(content), Some(String::from("wole")));
}

#[test]
fn extract_path_needs_a_well_formed_line() {
    assert_eq!(extract_path(""), None);
    assert_eq!(extract_path("nothing here"), None);
    assert_eq!(extract_path("PATH=bare"), None);
    assert_eq!(extract_path("PATH=\"\":\"x\""), None);
}

#[test]
fn extract_git_url_project_name() {
    assert_eq!(
        extract_git_repo_name("https://github.com/fulara/conan-cracker.git").unwrap(),
        String::from("conan-cracker")
    );
}

#[test]
fn extract_git_url_rejects_other_shapes() {
    let err = extract_git_repo_name("no-suffix").err().unwrap();
    assert!(matches!(err, CrackerError::GitUrlUnparsable { .. }));
    assert_eq!(err.message(), "Unable to extract project name from url: no-suffix");
    assert!(extract_git_repo_name("nodir.git").is_err());
}

#[test]
fn expand_mode_to_all_users_test() {
    assert_eq!(expand_mode_to_all_users(0o100u32), 0o111);
    assert_eq!(expand_mode_to_all_users(0o300u32), 0o333);
    assert_eq!(expand_mode_to_all_users(0o644u32), 0o666);
    assert_eq!(expand_mode_to_all_users(0o713u32), 0o777);
    assert_eq!(expand_mode_to_all_users(0o134u32), 0o135);
}

#[test]
fn expand_mode_propagates_owner_bits() {
    assert_eq!(expand_mode_to_all_users(0o744u32), 0o777);
    assert_eq!(expand_mode_to_all_users(0o600u32), 0o666);
}

#[test]
fn answers_accept_yes_and_no_in_any_case() {
    assert_eq!(parse_answer("y"), Some(true));
    assert_eq!(parse_answer("YES"), Some(true));
    assert_eq!(parse_answer("  yes \n"), Some(true));
    assert_eq!(parse_answer("n"), Some(false));
    assert_eq!(parse_answer(" No\n"), Some(false));
    assert_eq!(parse_answer("maybe"), None);
    assert_eq!(parse_answer(""), None);
}

#[test]
fn path_helpers_join_and_split() {
    assert_eq!(join_path("a/b", "c"), "a/b/c");
    assert_eq!(join_path("", "c"), "c");
    assert_eq!(join_path("a/", "c"), "a/c");
    assert_eq!(parent_path("some/random/path/bin"), Some("some/random/path".to_owned()));
    assert_eq!(parent_path("bin"), Some("".to_owned()));
    assert_eq!(parent_path(""), None);
    assert_eq!(parent_path("/"), None);
    assert_eq!(parent_path("//"), None);
    assert_eq!(parent_path("/bin"), Some("/".to_owned()));
    // Trailing separators do not count: the last component still drops.
    assert_eq!(parent_path("a/b/"), Some("a".to_owned()));
    assert_eq!(parent_path("a/b//"), Some("a".to_owned()));
    assert_eq!(parent_path("bin/"), Some("".to_owned()));
    assert_eq!(file_name("a/b/tool"), "tool");
    assert_eq!(file_name("tool"), "tool");
}

#[test]
fn default_bin_dir_sits_under_the_prefix() {
    let paths = Paths::new("root".to_owned(), None, InstallationType::Git, "tool");
    assert_eq!(paths.bin_dir(), "root/bin");
    assert_eq!(paths.install_folder(), "root/.cracker_storage/git_tool");
    let paths = Paths::new(
        "root".to_owned(),
        Some("elsewhere/bin".to_owned()),
        InstallationType::Git,
        "tool",
    );
    assert_eq!(paths.bin_dir(), "elsewhere/bin");
}

#[test]
fn git_clone_command_is_shallow() {
    assert_eq!(
        git_clone_command("https://host/tool.git", "/store/git_tool"),
        vec![
            "git".to_owned(),
            "clone".to_owned(),
            "https://host/tool.git".to_owned(),
            "--depth".to_owned(),
            "1".to_owned(),
            "/store/git_tool".to_owned(),
        ]
    );
}

#[test]
fn enable_script_needs_a_parent() {
    let paths = Paths {
        prefix: String::new(),
        bin_dir: String::new(),
        install_type: InstallationType::Conan,
        pkg_name: "abc".to_owned(),
    };
    assert_eq!(generate_enable_script(&paths), Err(CrackerError::PathDerivationError));
    assert_eq!(
        CrackerError::PathDerivationError.message(),
        "Unable to extract parent path"
    );
}
