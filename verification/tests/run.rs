//! Runs of scripts against their test files. The tracer is not part of the
//! library, so each test plays the script: it hands the checker the
//! commands that the script would run, in the form in which `execve` gets
//! them, and lets the script go on with what the mocks answer.

use scriptkeeper::checker_result::{CheckerResult, CheckerResults};
use scriptkeeper::test_checker::TestChecker;
use scriptkeeper::test_spec::{Test, Tests};
use scriptkeeper::tracee_memory::data_to_string;
use scriptkeeper::utils::trim_margin;

/// The path under which a shell finds an executable: as given when it has a
/// slash, else where `PATH` leads.
fn executable(name: &str) -> String {
    if name.contains('/') {
        name.to_string()
    } else {
        match quale::which(name) {
            Some(path) => path.to_string_lossy().into_owned(),
            None => format!("/usr/bin/{}", name),
        }
    }
}

/// A script run against one test.
struct Session {
    checker: TestChecker,
    stdout: Vec<u8>,
    stderr: Vec<u8>,
}

impl Session {
    /// The script runs a command; a mocked command answers with the output
    /// and exit code of its step, an unmocked one with `real`.
    fn run(&mut self, name: &str, arguments: &[&str], real: (&str, i32)) -> (String, i32) {
        let arguments = arguments.iter().map(|a| a.to_string()).collect();
        match self.checker.handle_execve_enter(executable(name), arguments) {
            Some(config) => (String::from_utf8(config.stdout).unwrap(), config.exitcode),
            None => (real.0.to_string(), real.1),
        }
    }

    /// The script asks for its working directory; `real` is the one it runs in.
    fn pwd(&self, real: &str) -> String {
        match self.checker.handle_getcwd_exit(4096).unwrap() {
            Some(reply) => {
                assert_eq!(reply.return_value as usize, data_to_string(&reply.words).len() + 1);
                String::from_utf8(data_to_string(&reply.words)).unwrap()
            }
            None => real.to_string(),
        }
    }

    /// The script tests whether a file exists; `real` is whether it does.
    fn file_exists(&self, path: &str, real: bool) -> bool {
        self.checker.handle_stat_exit(path).is_some() || real
    }

    fn echo(&mut self, text: &str) {
        self.stdout.extend_from_slice(text.as_bytes());
    }

    fn echo_to_stderr(&mut self, text: &str) {
        self.stderr.extend_from_slice(text.as_bytes());
    }
}

/// What a run of all tests gives: the output of scriptkeeper and its exit
/// code.
fn run_tests(tests_yaml: &str, script: impl Fn(&mut Session, usize) -> i32) -> (String, i32) {
    let text = trim_margin(tests_yaml).unwrap();
    let tests = Tests::load_from_text("script.test.yaml", &text).unwrap();
    let mut results: Vec<CheckerResult> = vec![];
    let mut relayed = String::new();
    for (index, test) in tests.tests.into_iter().enumerate() {
        let capture_stdout = test.stdout.is_some();
        let capture_stderr = test.stderr.is_some();
        let mut session = Session {
            checker: TestChecker::new(test, &tests.unmocked_commands),
            stdout: vec![],
            stderr: vec![],
        };
        let exitcode = script(&mut session, index);
        relayed.push_str(&String::from_utf8(session.stdout.clone()).unwrap());
        let Session { checker, stdout, stderr } = session;
        results.push(checker.handle_end(
            exitcode,
            if capture_stdout { Some(stdout) } else { None },
            if capture_stderr { Some(stderr) } else { None },
        ));
    }
    let results = CheckerResults(results);
    (relayed + &results.format(), results.exitcode().0)
}

fn passes() -> (String, i32) {
    ("All tests passed.\n".to_string(), 0)
}

fn fails(message: &str) -> (String, i32) {
    (trim_margin(message).unwrap(), 1)
}

#[test]
fn run_simple() {
    let result = run_tests(
        r"
            |steps:
            |  - cp
        ",
        |s, _| {
            s.run("cp", &[], ("", 0));
            0
        },
    );
    assert_eq!(result, passes());
}

#[test]
fn run_can_specify_interpreter() {
    let result = run_tests(
        r#"
            |tests:
            |  - steps:
            |    - "true"
            |interpreter: /usr/bin/ruby
        "#,
        |s, _| {
            s.run("true", &[], ("", 0));
            0
        },
    );
    assert_eq!(result, passes());
}

#[test]
fn allows_to_match_command_with_regex() {
    let result = run_tests(
        r#"
            |tests:
            |  - steps:
            |    - regex: cp \d
        "#,
        |s, _| {
            s.run("cp", &["1"], ("", 0));
            0
        },
    );
    assert_eq!(result, passes());
}

#[test]
fn allows_to_match_command_arguments() {
    let result = run_tests(
        r#"
            |tests:
            |  - steps:
            |    - regex: cp foo \w+
        "#,
        |s, _| {
            s.run("cp", &["foo", "bar"], ("", 0));
            0
        },
    );
    assert_eq!(result, passes());
}

#[test]
fn allows_to_match_command_executable() {
    let result = run_tests(
        r#"
            |tests:
            |  - steps:
            |    - regex: \w+ foo bar
        "#,
        |s, _| {
            s.run("cp", &["foo", "bar"], ("", 0));
            0
        },
    );
    assert_eq!(result, passes());
}

#[test]
fn run_multiple() {
    let result = run_tests(
        r"
            |steps:
            |  - cp
            |  - ls
        ",
        |s, _| {
            s.run("cp", &[], ("", 0));
            s.run("ls", &[], ("", 0));
            0
        },
    );
    assert_eq!(result, passes());
}

#[test]
fn run_failing() {
    let result = run_tests(
        r"
            |steps:
            |  - cp
        ",
        |s, _| {
            s.run("mv", &[], ("", 0));
            0
        },
    );
    assert_eq!(
        result,
        fails(
            "
                |error:
                |  expected: cp
                |  received: mv
            "
        )
    );
}

#[test]
fn run_failing_later() {
    let result = run_tests(
        r"
            |steps:
            |  - ls
            |  - cp
        ",
        |s, _| {
            s.run("ls", &[], ("", 0));
            s.run("mv", &[], ("", 0));
            0
        },
    );
    assert_eq!(
        result,
        fails(
            "
                |error:
                |  expected: cp
                |  received: mv
            "
        )
    );
}

#[test]
fn run_arguments() {
    let result = run_tests(
        r"
            |steps:
            |  - cp foo
        ",
        |s, _| {
            s.run("cp", &["foo"], ("", 0));
            0
        },
    );
    assert_eq!(result, passes());
}

#[test]
fn run_failing_arguments() {
    let result = run_tests(
        r"
            |steps:
            |  - cp foo
        ",
        |s, _| {
            s.run("cp", &["bar"], ("", 0));
            0
        },
    );
    assert_eq!(
        result,
        fails(
            "
                |error:
                |  expected: cp foo
                |  received: cp bar
            "
        )
    );
}

#[test]
fn run_arguments_with_spaces() {
    let result = run_tests(
        r#"
            |steps:
            |  - cp "foo bar"
        "#,
        |s, _| {
            s.run("cp", &["foo bar"], ("", 0));
            0
        },
    );
    assert_eq!(result, passes());
}

#[test]
fn run_error_messages_maintain_quotes() {
    let result = run_tests(
        r#"
            |steps:
            |  - cp "foo bar"
        "#,
        |s, _| {
            s.run("cp", &["foo", "bar"], ("", 0));
            0
        },
    );
    assert_eq!(
        result,
        fails(
            r#"
                |error:
                |  expected: cp "foo bar"
                |  received: cp foo bar
            "#
        )
    );
}

#[test]
fn run_reports_the_first_error() {
    let result = run_tests(
        r"
            |steps:
            |  - cp first
            |  - cp second
        ",
        |s, _| {
            s.run("mv", &["first"], ("", 0));
            s.run("mv", &["second"], ("", 0));
            0
        },
    );
    assert_eq!(
        result,
        fails(
            "
                |error:
                |  expected: cp first
                |  received: mv first
            "
        )
    );
}

#[test]
fn run_more_expected_commands() {
    let result = run_tests(
        r"
            |steps:
            |  - ls
            |  - cp
        ",
        |s, _| {
            s.run("ls", &[], ("", 0));
            0
        },
    );
    assert_eq!(
        result,
        fails(
            "
                |error:
                |  expected: cp
                |  received: <script terminated>
            "
        )
    );
}

#[test]
fn run_more_received_commands() {
    let result = run_tests(
        r"
            |steps:
            |  - ls
        ",
        |s, _| {
            s.run("ls", &[], ("", 0));
            s.run("cp", &[], ("", 0));
            0
        },
    );
    assert_eq!(
        result,
        fails(
            "
                |error:
                |  expected: <script termination>
                |  received: cp
            "
        )
    );
}

/// `output=$(cp); cp $output`
fn cp_output_unquoted(s: &mut Session) -> i32 {
    let (output, _) = s.run("cp", &[], ("", 0));
    let words: Vec<&str> = output.split_whitespace().collect();
    s.run("cp", &words, ("", 0));
    0
}

#[test]
fn run_mock_stdout() {
    let result = run_tests(
        r"
            |steps:
            |  - command: cp
            |    stdout: test_output
            |  - cp test_output
        ",
        |s, _| cp_output_unquoted(s),
    );
    assert_eq!(result, passes());
}

#[test]
fn run_mock_stdout_with_special_characters() {
    let result = run_tests(
        r#"
            |steps:
            |  - command: cp
            |    stdout: 'foo"'
            |  - 'cp foo\"'
        "#,
        |s, _| cp_output_unquoted(s),
    );
    assert_eq!(result, passes());
}

#[test]
fn run_mock_stdout_with_newlines() {
    let result = run_tests(
        r#"
            |steps:
            |  - command: cp
            |    stdout: "foo\nbar"
            |  - 'cp foo\nbar'
        "#,
        |s, _| {
            let (output, _) = s.run("cp", &[], ("", 0));
            s.run("cp", &[output.trim_end_matches('\n')], ("", 0));
            0
        },
    );
    assert_eq!(result, passes());
}

#[test]
fn run_pass_arguments_into_tested_script() {
    let text = trim_margin(
        r"
            |arguments: foo
            |steps:
            |  - cp foo
        ",
    )
    .unwrap();
    let tests = Tests::load_from_text("script.test.yaml", &text).unwrap();
    assert_eq!(tests.tests[0].arguments, vec!["foo".to_string()]);
    let result = run_tests(&text_with_margin(&text), |s, _| {
        let first = s.checker.test.arguments[0].clone();
        s.run("cp", &[first.as_str()], ("", 0));
        0
    });
    assert_eq!(result, passes());
}

/// A text with a margin again, for `run_tests`.
fn text_with_margin(text: &str) -> String {
    text.lines().map(|line| format!("|{}\n", line)).collect()
}

#[test]
fn run_all_pass() {
    let result = run_tests(
        r"
            |- arguments: foo
            |  steps:
            |    - cp foo
            |- arguments: bar
            |  steps:
            |    - cp bar
        ",
        |s, _| {
            let first = s.checker.test.arguments[0].clone();
            s.run("cp", &[first.as_str()], ("", 0));
            0
        },
    );
    assert_eq!(result, passes());
}

#[test]
fn run_all_fail() {
    let result = run_tests(
        r"
            |- steps:
            |    - cp
            |- steps:
            |    - cp
        ",
        |s, _| {
            s.run("mv", &[], ("", 0));
            0
        },
    );
    assert_eq!(
        result,
        fails(
            "
                |error in test 1:
                |  expected: cp
                |  received: mv
                |error in test 2:
                |  expected: cp
                |  received: mv
            "
        )
    );
}

#[test]
fn run_some_fail() {
    let result = run_tests(
        r"
            |- steps:
            |    - mv
            |- steps:
            |    - cp
        ",
        |s, _| {
            s.run("mv", &[], ("", 0));
            0
        },
    );
    assert_eq!(
        result,
        fails(
            "
                |test 1:
                |  Tests passed.
                |error in test 2:
                |  expected: cp
                |  received: mv
            "
        )
    );
}

#[test]
fn run_pass_env_into_tested_script() {
    let result = run_tests(
        r"
            |env:
            |  FOO: test-env-var
            |steps:
            |  - cp test-env-var
        ",
        |s, _| {
            let foo = s
                .checker
                .test
                .env
                .iter()
                .find(|(key, _)| key == "FOO")
                .map(|(_, value)| value.clone())
                .unwrap();
            s.run("cp", &[foo.as_str()], ("", 0));
            0
        },
    );
    assert_eq!(result, passes());
}

#[test]
fn separates_the_path_per_test() {}

#[test]
fn run_detects_running_commands_from_ruby_scripts() {
    let result = run_tests(
        r"
            |steps:
            |  - ls
        ",
        |s, _| {
            s.run("ls", &[], ("", 0));
            0
        },
    );
    assert_eq!(result, passes());
}

#[test]
fn run_set_a_non_zero_exitcode() {
    let result = run_tests(
        r"
            |steps:
            |  - command: grep foo
            |    exitcode: 1
            |  - ls
        ",
        |s, _| {
            let (_, exitcode) = s.run("grep", &["foo"], ("", 0));
            if exitcode != 0 {
                s.run("ls", &[], ("", 0));
            }
            0
        },
    );
    assert_eq!(result, passes());
}

#[test]
fn run_set_a_zero_exitcode() {
    let result = run_tests(
        r"
            |steps:
            |  - command: grep foo
            |    exitcode: 0
            |  - ls
        ",
        |s, _| {
            let (_, exitcode) = s.run("grep", &["foo"], ("", 1));
            if exitcode == 0 {
                s.run("ls", &[], ("", 0));
            }
            0
        },
    );
    assert_eq!(result, passes());
}

#[test]
fn run_uses_a_zero_exitcode_by_default() {
    let result = run_tests(
        r"
            |steps:
            |  - grep foo
            |  - ls
        ",
        |s, _| {
            let (_, exitcode) = s.run("grep", &["foo"], ("", 1));
            if exitcode == 0 {
                s.run("ls", &[], ("", 0));
            }
            0
        },
    );
    assert_eq!(result, passes());
}

#[test]
fn run_allow_to_specify_the_exact_exitcode() {
    let result = run_tests(
        r"
            |steps:
            |  - command: grep foo
            |    exitcode: 42
            |  - ls 42
        ",
        |s, _| {
            let (_, exitcode) = s.run("grep", &["foo"], ("", 0));
            s.run("ls", &[exitcode.to_string().as_str()], ("", 0));
            0
        },
    );
    assert_eq!(result, passes());
}

/// `ls $(pwd)/file`
fn ls_file_in_working_directory(s: &mut Session) -> i32 {
    let cwd = s.pwd("/somewhere/else");
    s.run("ls", &[format!("{}/file", cwd).as_str()], ("", 0));
    0
}

#[test]
fn run_allows_to_specify_the_working_directory() {
    let result = run_tests(
        r"
            |cwd: /foo
            |steps:
            |  - ls /foo/file
        ",
        |s, _| ls_file_in_working_directory(s),
    );
    assert_eq!(result, passes());
}

#[test]
fn run_works_for_long_paths() {
    let result = run_tests(
        r"
            |cwd: /foo/bar/baz/foo/bar/baz/foo/bar/baz/foo
            |steps:
            |  - ls /foo/bar/baz/foo/bar/baz/foo/bar/baz/foo/file
        ",
        |s, _| ls_file_in_working_directory(s),
    );
    assert_eq!(result, passes());
}

#[test]
fn run_failure_when_the_tested_script_exits_with_a_non_zero_exitcode() {
    let result = run_tests(
        r"
            |steps: []
        ",
        |_, _| 42,
    );
    assert_eq!(
        result,
        fails(
            "
                |error:
                |  expected: <exitcode 0>
                |  received: <exitcode 42>
            "
        )
    );
}

#[test]
fn run_expect_non_zero_exitcode_passing() {
    let result = run_tests(
        r"
            |steps: []
            |exitcode: 42
        ",
        |_, _| 42,
    );
    assert_eq!(result, passes());
}

#[test]
fn run_expect_non_zero_exitcode_failing() {
    let result = run_tests(
        r"
            |steps: []
            |exitcode: 42
        ",
        |_, _| 0,
    );
    assert_eq!(
        result,
        fails(
            "
                |error:
                |  expected: <exitcode 42>
                |  received: <exitcode 0>
            "
        )
    );
}

/// `ls $(dirname dir/file)`
fn ls_dirname(s: &mut Session) -> i32 {
    let (output, _) = s.run("dirname", &["dir/file"], ("dir\n", 0));
    s.run("ls", &[output.trim_end()], ("", 0));
    0
}

#[test]
fn run_allows_to_unmock_commands() {
    let result = run_tests(
        r"
            |tests:
            |  - steps:
            |    - ls dir
            |unmockedCommands:
            |  - dirname
        ",
        |s, _| ls_dirname(s),
    );
    assert_eq!(result, passes());
}

#[test]
fn run_complains_when_expected_an_unmocked_command() {
    let result = run_tests(
        r"
            |tests:
            |  - steps:
            |    - dirname dir/file
            |    - ls dir
            |unmockedCommands:
            |  - dirname
        ",
        |s, _| ls_dirname(s),
    );
    assert_eq!(
        result,
        fails(
            "
                |error:
                |  expected: dirname dir/file
                |  received: ls dir
            "
        )
    );
}

/// `if [ -f /foo ]; then cp; fi`
fn cp_if_foo_exists(s: &mut Session, path: &str) -> i32 {
    if s.file_exists(path, false) {
        s.run("cp", &[], ("", 0));
    }
    0
}

#[test]
fn files_allows_to_mock_files_existence() {
    let result = run_tests(
        r"
            |tests:
            |  - steps:
            |      - cp
            |    mockedFiles:
            |      - /foo
        ",
        |s, _| cp_if_foo_exists(s, "/foo"),
    );
    assert_eq!(result, passes());
}

#[test]
fn files_allows_to_mock_directory_existence() {
    let result = run_tests(
        r"
            |tests:
            |  - steps:
            |      - command: cp
            |    mockedFiles:
            |      - /foo/
        ",
        |s, _| {
            assert_eq!(s.checker.handle_stat_exit("/foo/"), Some(0o40000));
            cp_if_foo_exists(s, "/foo/")
        },
    );
    assert_eq!(result, passes());
}

#[test]
fn files_does_not_mock_existence_of_unspecified_files() {
    let result = run_tests(
        r"
            |tests:
            |  - steps: []
        ",
        |s, _| cp_if_foo_exists(s, "/foo"),
    );
    assert_eq!(result, passes());
}

#[test]
fn path_looks_up_step_executable_in_path() {
    let result = run_tests(
        r"
            |steps:
            |  - cp
        ",
        |s, _| {
            s.run("cp", &[], ("", 0));
            0
        },
    );
    assert_eq!(result, passes());
}

#[test]
fn path_looks_up_unmocked_command_executable_in_path() {
    let result = run_tests(
        r"
            |tests:
            |  - steps: []
            |unmockedCommands:
            |  - ls
        ",
        |s, _| {
            s.run("ls", &[], ("", 0));
            0
        },
    );
    assert_eq!(result, passes());
}

#[test]
fn path_shortens_received_executable_to_file_name_when_reporting_step_error() {
    let result = run_tests(
        r"
            |steps:
            |  - cp
        ",
        |s, _| {
            s.run("mv", &[], ("", 0));
            0
        },
    );
    assert_eq!(
        result,
        fails(
            "
                |error:
                |  expected: cp
                |  received: mv
            "
        )
    );
}

#[test]
fn path_runs_step_executable_that_is_not_in_path() {
    let result = run_tests(
        r"
            |steps:
            |  - /not/in/path
        ",
        |s, _| {
            s.run("/not/in/path", &[], ("", 0));
            0
        },
    );
    assert_eq!(result, passes());
}

#[test]
fn stdio_relays_stdout_from_the_tested_script_to_the_user() {
    let result = run_tests(
        r"
            |tests:
            |  - steps: []
        ",
        |s, _| {
            s.echo("foo\n");
            0
        },
    );
    assert_eq!(result, ("foo\nAll tests passed.\n".to_string(), 0));
}

#[test]
fn stdio_relays_stderr_from_the_tested_script_to_the_user() {
    let result = run_tests(
        r"
            |tests:
            |  - steps: []
        ",
        |s, _| {
            s.echo_to_stderr("foo\n");
            0
        },
    );
    assert_eq!(result, passes());
}

#[test]
fn stdio_fails_when_not_matching() {
    let result = run_tests(
        r#"
            |tests:
            |  - steps: []
            |    stderr: "foo\n"
        "#,
        |s, _| {
            s.echo_to_stderr("bar\n");
            0
        },
    );
    assert_eq!(
        result,
        fails(
            r#"
                |error:
                |  expected output to stderr: "foo\n"
                |  received output to stderr: "bar\n"
            "#
        )
    );
}

#[test]
fn stdio_passes_when_matching() {
    let result = run_tests(
        r#"
            |tests:
            |  - steps: []
            |    stderr: "foo\n"
        "#,
        |s, _| {
            s.echo_to_stderr("foo\n");
            0
        },
    );
    assert_eq!(result, passes());
}

#[test]
fn stdio_fails_when_expecting_stderr_but_none_printed() {
    let result = run_tests(
        r#"
            |tests:
            |  - steps: []
            |    stderr: "foo\n"
        "#,
        |_, _| 0,
    );
    assert_eq!(
        result,
        fails(
            r#"
                |error:
                |  expected output to stderr: "foo\n"
                |  received output to stderr: ""
            "#
        )
    );
}

#[test]
fn fails_when_expecting_stdout_but_none_printed() {
    let result = run_tests(
        r#"
            |tests:
            |  - steps: []
            |    stdout: "foo\n"
        "#,
        |_, _| 0,
    );
    assert_eq!(
        result,
        fails(
            r#"
                |error:
                |  expected output to stdout: "foo\n"
                |  received output to stdout: ""
            "#
        )
    );
}

#[test]
fn expected_stdout_fails_when_not_matching() {
    let result = run_tests(
        r#"
            |tests:
            |  - steps: []
            |    stdout: "foo\n"
        "#,
        |s, _| {
            s.echo("bar\n");
            0
        },
    );
    assert_eq!(
        result,
        fails(
            r#"
                |bar
                |error:
                |  expected output to stdout: "foo\n"
                |  received output to stdout: "bar\n"
            "#
        )
    );
}

#[test]
fn when_not_specified_but_scripts_writes_to_stderr() {}

#[test]
fn passes_for_expected_writes() {
    let result = run_tests(
        r#"
            |- steps: []
            |  stderr: "foo\n"
        "#,
        |s, _| {
            s.echo_to_stderr("foo\n");
            0
        },
    );
    assert_eq!(result, passes());
}

#[test]
fn checked_tests_keep_their_steps_in_the_checker() {
    let text = trim_margin(
        r"
            |steps:
            |  - ls
            |  - cp
        ",
    )
    .unwrap();
    let tests = Tests::load_from_text("script.test.yaml", &text).unwrap();
    let test: Test = tests.tests.into_iter().next().unwrap();
    let mut checker = TestChecker::new(test, &vec![]);
    assert_eq!(checker.test.steps.len(), 2);
    checker.handle_execve_enter(executable("ls"), vec![]).unwrap();
    assert_eq!(checker.test.steps.len(), 1);
    assert!(checker.result.is_pass());
}

/// The script `if [ -f /foo ] (or -d /foo/); then cp; fi` against a test.
fn run_cp_if_exists(tests_yaml: &str, path: &'static str) -> (String, i32) {
    run_tests(tests_yaml, move |s, _| cp_if_foo_exists(s, path))
}

#[test]
fn run_allows_to_mock_files_existence() {
    let result = run_cp_if_exists(
        r"
            |tests:
            |  - steps:
            |      - cp
            |    mockedFiles:
            |      - /foo
        ",
        "/foo",
    );
    assert_eq!(result, passes());
}

#[test]
fn run_allows_to_mock_directory_existence() {
    let result = run_cp_if_exists(
        r"
            |tests:
            |  - steps:
            |      - command: cp
            |    mockedFiles:
            |      - /foo/
        ",
        "/foo/",
    );
    assert_eq!(result, passes());
}

#[test]
fn run_does_not_mock_existence_of_unspecified_files() {
    let result = run_cp_if_exists(
        r"
            |tests:
            |  - steps: []
        ",
        "/foo",
    );
    assert_eq!(result, passes());
}

#[test]
fn an_unmocked_file_that_exists_still_exists() {
    let result = run_tests(
        r"
            |tests:
            |  - steps:
            |      - cp
        ",
        |s, _| {
            if s.file_exists("/foo", true) {
                s.run("cp", &[], ("", 0));
            }
            0
        },
    );
    assert_eq!(result, passes());
}
