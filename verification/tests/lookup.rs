//! How executables are compared and shown.

use scriptkeeper::executable_path::{canonicalize, compare_executables};

fn which(name: &str) -> String {
    quale::which(name).unwrap().to_string_lossy().into_owned()
}

#[test]
fn returns_true_if_executables_are_identical() {
    let executable = "./bin/myexec";
    assert!(compare_executables(&vec![], executable, executable));
}

#[test]
fn returns_false_if_executables_are_distinct() {
    let a = "./bin/myexec";
    let b = "./bin/myotherexec";
    assert!(!compare_executables(&vec![], a, b));
}

#[test]
fn returns_true_if_executables_match_after_lookup_in_path() {
    let cp_long = which("cp");
    let cp_short = "cp";
    assert!(compare_executables(&vec![], &cp_long, cp_short));
}

#[test]
fn shortens_absolute_executable_paths_if_found_in_path() {
    let resolved = which("cp");
    assert_eq!(canonicalize(&vec![], &resolved), "cp");
}

#[test]
fn does_not_shorten_executable_that_is_not_in_path() {
    assert_eq!(canonicalize(&vec![], "/foo/doesnotexist"), "/foo/doesnotexist");
}

#[test]
fn does_not_shorten_executable_that_is_not_in_path_but_has_same_name_as_one_that_is() {
    assert_eq!(canonicalize(&vec![], "/not/in/path/ls"), "/not/in/path/ls");
}

#[test]
fn does_not_shorten_relative_path() {
    assert_eq!(canonicalize(&vec![], "./foo"), "./foo");
}

#[test]
fn does_not_modify_short_forms_if_found_in_path() {
    assert_eq!(canonicalize(&vec![], "ls"), "ls");
}

#[test]
fn shortens_mocked_executables() {
    let shown = canonicalize(&vec!["does_not_exist".to_string()], "/bin/does_not_exist");
    assert_eq!(shown, "does_not_exist");
}

#[test]
fn keeps_paths_without_a_file_name() {
    assert_eq!(canonicalize(&vec![], "/"), "/");
    assert_eq!(canonicalize(&vec![], ""), "");
}

#[test]
fn mocked_executables_are_found_in_bin_only() {
    let mocked = vec!["does_not_exist".to_string()];
    assert_eq!(canonicalize(&mocked, "/usr/bin/does_not_exist"), "/usr/bin/does_not_exist");
    assert!(compare_executables(&mocked, "/bin/does_not_exist", "does_not_exist"));
    assert!(!compare_executables(&vec![], "/bin/does_not_exist", "does_not_exist"));
}

#[test]
fn a_shortened_name_stays_short() {
    let shown = canonicalize(&vec![], &which("cp"));
    assert_eq!(shown, "cp");
    assert_eq!(canonicalize(&vec![], &shown), "cp");
    let mocked = vec!["does_not_exist".to_string()];
    let shown = canonicalize(&mocked, "/bin/does_not_exist");
    assert_eq!(canonicalize(&mocked, &shown), "does_not_exist");
}

#[test]
fn showing_an_executable_twice_gives_the_same_form() {
    for executable in [which("cp"), "/not/in/path/ls".to_string(), "./foo".to_string(), "ls".to_string()] {
        let once = canonicalize(&vec![], &executable);
        assert_eq!(canonicalize(&vec![], &once), once);
    }
}
