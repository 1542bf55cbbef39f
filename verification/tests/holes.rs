//! Filling in holes of test files and recording tests. Each test plays the
//! script: it hands the recorder the commands that the script runs and
//! says when a wrapped command exits.

use scriptkeeper::checker_result::CheckerResult;
use scriptkeeper::recorder::{ExecveAction, HoleRecorder, Recorder, RecorderResult};
use scriptkeeper::test_checker::TestChecker;
use scriptkeeper::test_spec::{Test, Tests};
use scriptkeeper::utils::trim_margin;
use scriptkeeper::yaml::write_yaml;
use yaml_rust::YamlLoader;

/// A command that the script runs: its name and its arguments.
type Run = (&'static str, Vec<&'static str>);

fn cmd(executable: &'static str, arguments: &[&'static str]) -> Run {
    (executable, arguments.to_vec())
}

/// The path under which a shell finds an executable: where `PATH` leads.
fn executable(name: &str) -> String {
    match quale::which(name) {
        Some(path) => path.to_string_lossy().into_owned(),
        None => format!("/usr/bin/{}", name),
    }
}

fn strings(words: &[&str]) -> Vec<String> {
    words.iter().map(|w| w.to_string()).collect()
}

/// Runs the script against one test; `script` gives the commands that the
/// script runs, given the arguments of the test.
fn run_against_test(test: Test, unmocked: &Vec<String>, script: &dyn Fn(&Test) -> Vec<Run>) -> RecorderResult {
    let commands = script(&test);
    if test.ends_with_hole {
        let mut recorder = HoleRecorder::new(unmocked, test);
        for (name, arguments) in commands {
            match recorder.handle_execve_enter(executable(name), strings(&arguments)) {
                ExecveAction::Wrap => recorder.handle_exited(0),
                ExecveAction::Mock(_) | ExecveAction::Unmocked => {}
            }
        }
        recorder.handle_end(0)
    } else {
        let copy = test.clone();
        let mut checker = TestChecker::new(test, unmocked);
        for (name, arguments) in commands {
            checker.handle_execve_enter(executable(name), strings(&arguments));
        }
        RecorderResult::Checked(copy, checker.handle_end(0, Some(vec![]), Some(vec![])))
    }
}

/// The output of the run and the new content of the test file, if any.
fn run(existing: &str, script: &dyn Fn(&Test) -> Vec<Run>) -> (String, Option<String>) {
    let tests = Tests::load_from_text("script.test.yaml", &trim_margin(existing).unwrap()).unwrap();
    let Tests { tests, unmocked_commands, .. } = tests;
    let results: Vec<RecorderResult> =
        tests.into_iter().map(|test| run_against_test(test, &unmocked_commands, script)).collect();
    let report = RecorderResult::handle_results("script.test.yaml", unmocked_commands, &results).unwrap();
    (report.output, report.test_file_contents.map(|bytes| String::from_utf8(bytes).unwrap()))
}

fn assert_eq_yaml(result: &str, expected: &str) {
    let result = YamlLoader::load_from_str(result).unwrap();
    let expected = YamlLoader::load_from_str(&trim_margin(expected).unwrap()).unwrap();
    assert_eq!(result, expected);
}

fn test_holes(existing: &str, script: &dyn Fn(&Test) -> Vec<Run>, expected: &str) {
    let (_, written) = run(existing, script);
    assert_eq_yaml(&written.expect("the test file was not written"), expected);
}

fn ls_foo_or_ls_la(test: &Test) -> Vec<Run> {
    if test.arguments == vec!["foo"] {
        vec![cmd("ls", &[])]
    } else {
        vec![cmd("ls", &["-la"])]
    }
}

#[test]
fn fills_in_holes_in_protocols_files() {
    test_holes(
        "
            |tests:
            |  - steps:
            |      - _
        ",
        &|_| vec![cmd("ls", &[])],
        "
            |tests:
            |  - steps:
            |      - ls
        ",
    )
}

#[test]
fn indicates_on_stdout_that_the_protocols_file_was_written_to() {
    let (output, written) = run(
        "
            |tests:
            |  - steps:
            |      - _
        ",
        &|_| vec![cmd("true", &[])],
    );
    assert!(written.is_some());
    assert_eq!(output, "Test holes filled in script.test.yaml.\nAll tests passed.\n");
}

#[test]
fn does_not_modify_files_without_holes() {
    let (output, written) = run(
        r#"
            |tests:
            |  - steps:
            |      - "true"
        "#,
        &|_| vec![cmd("true", &[])],
    );
    assert_eq!(written, None);
    assert_eq!(output, "All tests passed.\n");
}

#[test]
fn works_for_holes_following_specified_steps() {
    test_holes(
        "
            |tests:
            |  - steps:
            |      - ls
            |      - _
        ",
        &|_| vec![cmd("ls", &[]), cmd("ls", &["-la"])],
        "
            |tests:
            |  - steps:
            |      - ls
            |      - ls -la
        ",
    )
}

#[test]
fn works_in_conjunction_with_tests_without_holes() {
    test_holes(
        "
            |tests:
            |  - arguments: foo
            |    steps:
            |      - ls
            |  - steps:
            |      - _
        ",
        &ls_foo_or_ls_la,
        "
            |tests:
            |  - arguments: foo
            |    steps:
            |      - ls
            |  - steps:
            |      - ls -la
        ",
    )
}

#[test]
fn works_for_multiple_tests_with_holes() {
    test_holes(
        "
            |tests:
            |  - arguments: foo
            |    steps:
            |      - _
            |  - steps:
            |      - _
        ",
        &ls_foo_or_ls_la,
        "
            |tests:
            |  - arguments: foo
            |    steps:
            |      - ls
            |  - steps:
            |      - ls -la
        ",
    )
}

#[test]
fn errors_in_test_with_hole() {
    let (output, written) = run(
        "
            |tests:
            |  - steps:
            |      - ls -la
            |      - _
        ",
        &|_| vec![cmd("ls", &[]), cmd("ls", &[])],
    );
    assert_eq!(written, None);
    assert_eq!(output, "error:\n  expected: ls -la\n  received: ls\n");
}

#[test]
fn errors_in_test_without_hole() {
    let (output, written) = run(
        "
            |tests:
            |  - arguments: foo
            |    steps:
            |      - ls -foo
            |  - steps:
            |      - _
        ",
        &ls_foo_or_ls_la,
    );
    assert_eq!(written, None);
    assert_eq!(output, "error:\n  expected: ls -foo\n  received: ls\n");
}

#[test]
fn preserves_script_arguments() {
    test_holes(
        "
            |tests:
            |  - arguments: foo
            |    steps:
            |      - _
        ",
        &|_| vec![cmd("ls", &[])],
        "
            |tests:
            |  - arguments: foo
            |    steps:
            |      - ls
        ",
    )
}

#[test]
fn removes_hole_when_script_does_not_execute_more_steps() {
    test_holes(
        "
            |tests:
            |  - steps:
            |      - ls
            |      - _
        ",
        &|_| vec![cmd("ls", &[])],
        "
            |tests:
            |  - steps:
            |      - ls
        ",
    )
}

#[test]
fn allows_to_specify_a_script_environment() {
    test_holes(
        "
            |tests:
            |  - env:
            |      FOO: /tmp
            |    steps:
            |      - _
        ",
        &|test| vec![cmd("ls", &[if test.env[0].1 == "/tmp" { "/tmp" } else { "" }])],
        "
            |tests:
            |  - env:
            |      FOO: /tmp
            |    steps:
            |      - ls /tmp
        ",
    )
}

#[test]
fn preserves_unmocked_commands() {
    test_holes(
        "
            |unmockedCommands:
            |  - sed
            |tests:
            |  - steps:
            |      - _
        ",
        &|_| vec![],
        "
            |unmockedCommands:
            |  - sed
            |tests:
            |  - steps: []
        ",
    )
}

#[test]
fn excludes_unmocked_commands_from_recorded_tests() {
    test_holes(
        "
            |unmockedCommands:
            |  - ls
            |tests:
            |  - steps:
            |      - _
        ",
        &|_| vec![cmd("ls", &[])],
        "
            |unmockedCommands:
            |  - ls
            |tests:
            |  - steps: []
        ",
    )
}

/// What `--record` prints for a script that runs `commands`.
fn record(commands: Vec<Run>, exitcode: i32) -> String {
    let mut recorder = Recorder::empty();
    for (name, arguments) in commands {
        if recorder.handle_execve_enter(executable(name), strings(&arguments)) {
            recorder.handle_exited(0);
        }
    }
    let test = recorder.handle_end(exitcode);
    let bytes = write_yaml(&Tests::new(vec![test]).serialize()).unwrap();
    String::from_utf8(bytes).unwrap()
}

#[test]
fn records_an_empty_protocol() {
    assert_eq_yaml(
        &record(vec![], 0),
        "
            |tests:
            |  - steps: []
        ",
    );
}

#[test]
fn records_protocol_steps() {
    assert_eq_yaml(
        &record(vec![cmd("true", &[])], 0),
        r#"
            |tests:
            |  - steps:
            |      - "true"
        "#,
    );
}

#[test]
fn records_arguments_and_a_non_zero_exit_code() {
    assert_eq_yaml(
        &record(vec![cmd("cp", &["a b", "c"])], 3),
        r#"
            |tests:
            |  - steps:
            |      - cp "a b" c
            |    exitcode: 3
        "#,
    );
}

#[test]
fn a_failing_test_with_hole_keeps_its_failure() {
    let test = Tests::load_from_text("t", "steps: [cp, _]").unwrap().tests.remove(0);
    let mut recorder = HoleRecorder::new(&vec![], test);
    recorder.handle_execve_enter(executable("mv"), vec![]);
    match recorder.handle_end(0) {
        RecorderResult::Checked(test, CheckerResult::Failure(message)) => {
            assert!(test.ends_with_hole);
            assert_eq!(message, "  expected: cp\n  received: mv\n");
        }
        other => panic!("expected a failure, got {:?}", other),
    }
}
