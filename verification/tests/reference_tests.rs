use cracker::conan_package::ConanPackage;
use cracker::errors::CrackerError;

fn p(name: &str, ver: &str, user: &str, channel: &str) -> ConanPackage {
    ConanPackage {
        name: name.to_owned(),
        version: ver.to_owned(),
        user: user.to_owned(),
        channel: channel.to_owned(),
    }
}

fn name_pattern_fail_test(package: &str) {
    assert_eq!(
        ConanPackage::new(package).err().unwrap().message(),
        format!("Your reference does not match a regex pattern, {}", package)
    );
}

fn name_pattern_ok(package: &str) {
    assert!(ConanPackage::new(package).is_ok());
}

#[test]
fn conan_package_component_extractions() {
    let pkg = p("abc", "321", "", "");
    assert_eq!(pkg, ConanPackage::new("abc/321").unwrap());
    assert_eq!("abc/321@", ConanPackage::new("abc/321").unwrap().full());
    let pkg = p("abc", "321", "a", "b");
    assert_eq!(pkg, ConanPackage::new("abc/321@a/b").unwrap());
}

#[test]
fn invalid_reference_tests() {
    name_pattern_fail_test("a");
    name_pattern_fail_test("aaaaaa@");
    name_pattern_ok("aaaa/aaaa@");

    // user channel present without slash
    name_pattern_fail_test("aaa/aaa@aa");
    name_pattern_fail_test("aaa/aaa@aaaa");
    name_pattern_ok("aaa/aaa@aaaa/a");

    name_pattern_fail_test("aaa/aaa/aaa");
}

#[test]
fn too_short_reference_is_reported_as_such() {
    // The grammar passes but the length floor does not.
    let err = ConanPackage::new("a/b@").err().unwrap();
    assert!(matches!(err, CrackerError::ReferenceTooShort { .. }));
    assert_eq!(
        err.message(),
        "conan package provided(a/b@) is too short, conan does not handle that 5+ charachters only."
    );
}

#[test]
fn full_round_trips_through_parse() {
    for reference in ["abc/321", "abc/321@", "abc/321@a/b", "some_pkg/1.2.3@user/chan"] {
        let parsed = ConanPackage::new(reference).unwrap();
        let rendered = parsed.full();
        let reparsed = ConanPackage::new(&rendered).unwrap();
        assert_eq!(parsed, reparsed);
        assert_eq!(rendered, reparsed.full());
    }
}

#[test]
fn user_channel_renders_both_or_nothing() {
    assert_eq!(ConanPackage::new("abc/321").unwrap().user_channel(), "");
    assert_eq!(ConanPackage::new("abc/321@a/b").unwrap().user_channel(), "a/b");
}
