//! Reports of runs, captured output, mock executables and small helpers.

use scriptkeeper::checker_result::{CheckerResult, CheckerResults};
use scriptkeeper::context::{Context, MockStream};
use scriptkeeper::executable_mock::{create_mock_executable, skip_hashbang_line};
use scriptkeeper::stdio::{Capture, StreamType};
use scriptkeeper::test_result::{TestResult, TestResults};
use scriptkeeper::test_spec::Tests;
use scriptkeeper::utils::{trim_margin, with_has_more};
use scriptkeeper::ExitCode;

fn failure(message: &str) -> CheckerResult {
    CheckerResult::Failure(message.to_string())
}

#[test]
fn a_run_passes_exactly_when_its_exit_code_is_zero() {
    let all_pass = CheckerResults(vec![CheckerResult::Pass, CheckerResult::Pass]);
    assert_eq!(all_pass.format(), "All tests passed.\n");
    assert_eq!(all_pass.exitcode(), ExitCode(0));
    assert!(all_pass.is_pass());

    let none = CheckerResults(vec![]);
    assert_eq!(none.format(), "All tests passed.\n");
    assert_eq!(none.exitcode(), ExitCode(0));

    let one_fails = CheckerResults(vec![failure("  expected: cp\n  received: mv\n")]);
    assert_eq!(one_fails.format(), "error:\n  expected: cp\n  received: mv\n");
    assert_eq!(one_fails.exitcode(), ExitCode(1));

    let some_fail = CheckerResults(vec![CheckerResult::Pass, failure("  expected: cp\n  received: mv\n")]);
    assert_eq!(
        some_fail.format(),
        "test 1:\n  Tests passed.\nerror in test 2:\n  expected: cp\n  received: mv\n"
    );
    assert_eq!(some_fail.exitcode(), ExitCode(1));
    assert!(!some_fail.is_pass());
}

#[test]
fn only_the_first_error_of_a_test_is_kept() {
    let mut result = CheckerResult::Pass;
    result.register_step_error("cp", "mv");
    result.register_step_error("ls", "rm");
    result.register_error("later".to_string());
    assert_eq!(result, failure("  expected: cp\n  received: mv\n"));
    assert_eq!(result.format(Some(3)), "error in test 3:\n  expected: cp\n  received: mv\n");
    assert_eq!(CheckerResult::Pass.format(Some(2)), "test 2:\n  Tests passed.\n");
}

#[test]
fn protocol_reports_name_protocols() {
    let mut failed = TestResult::Pass;
    failed.register_step_error("cp", "mv");
    let results = TestResults(vec![TestResult::Pass, failed]);
    assert_eq!(
        results.format_test_results(),
        "protocol 1:\n  Tests passed.\nerror in protocol 2:\n  expected: cp\n  received: mv\n"
    );
    assert_eq!(results.exitcode(), ExitCode(1));
    let results = TestResults(vec![TestResult::Pass]);
    assert_eq!(results.format_test_results(), "All tests passed.\n");
    assert_eq!(results.exitcode(), ExitCode(0));
}

#[test]
fn a_mock_context_captures_what_is_written() {
    let mut context = Context::new_mock();
    assert!(!context.write_stdout(&b"foo".to_vec()));
    assert!(!context.write_stdout(&b"bar\n".to_vec()));
    assert!(!context.write_stderr(&b"baz".to_vec()));
    assert_eq!(context.get_captured_stdout(), "foobar\n");
    assert_eq!(context.get_captured_stderr(), "baz");

    let mut real = Context::Context { scriptkeeper_executable: "/bin/scriptkeeper".to_string() };
    assert!(real.write_stdout(&b"foo".to_vec()));
    assert!(real.write_stderr(&b"foo".to_vec()));

    let mut stream = MockStream::new();
    stream.write(&"ä".as_bytes().to_vec());
    assert_eq!(stream.get_captured_stream(), "ä");
}

#[test]
fn mock_executables_hold_their_configuration_after_the_hashbang_line() {
    let config = vec![0, 10, 255, 10, 1];
    let contents = create_mock_executable("/usr/bin/scriptkeeper", &config);
    let mut expected = b"#!/usr/bin/scriptkeeper --executable-mock\n".to_vec();
    expected.extend_from_slice(&config);
    assert_eq!(contents, expected);
    assert_eq!(skip_hashbang_line(&contents), config);
    assert_eq!(skip_hashbang_line(&b"no line break".to_vec()), b"");
}

#[test]
fn only_expected_streams_are_captured() {
    let tests = Tests::load_from_text("t", "- steps: []\n  stderr: foo\n- steps: []").unwrap();
    assert_eq!(Capture::for_test(&tests.tests[0]), Capture { stdout: false, stderr: true });
    assert_eq!(Capture::for_test(&tests.tests[1]), Capture { stdout: false, stderr: false });
    assert_eq!(StreamType::Stdout.name(), "stdout");
    assert_eq!(StreamType::Stderr.name(), "stderr");
}

#[test]
fn with_has_more_marks_all_but_the_last() {
    assert_eq!(with_has_more(vec![1, 2, 3]), vec![(1, true), (2, true), (3, false)]);
    assert_eq!(with_has_more::<u8>(vec![]), vec![]);
}

#[test]
fn trim_margin_cuts_the_margin() {
    assert_eq!(trim_margin("\n    |foo\n    |  bar\n").unwrap(), "foo\n  bar\n");
    assert_eq!(trim_margin("\n    foo\n").unwrap_err(), "include a margin prefix '|'");
}
