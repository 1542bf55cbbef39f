//! Reading test files: steps, tests and their fields.

use scriptkeeper::command::Command;
use scriptkeeper::command_matcher::CommandMatcher;
use scriptkeeper::test_spec::{find_test_file, Step, Test, Tests};
use scriptkeeper::utils::trim_margin;
use scriptkeeper::yaml::{expect_integer, Yaml};

fn string(s: &str) -> Yaml {
    Yaml::String(s.to_string())
}

/// A YAML hash with string keys.
fn hash(entries: Vec<(&str, Yaml)>) -> Yaml {
    Yaml::Hash(entries.into_iter().map(|(key, value)| (string(key), value)).collect())
}

fn test_parse_step(yaml: Yaml) -> Result<Step, String> {
    Step::parse(&yaml)
}

fn command(line: &str) -> Command {
    Command::new(line).unwrap()
}

fn exact(step: &Step) -> &Command {
    match &step.command_matcher {
        CommandMatcher::ExactMatch(command) => command,
        CommandMatcher::RegexMatch(_) => panic!("expected an exact match"),
    }
}

fn parse(text: &str) -> Result<Tests, String> {
    Tests::load_from_text("script.test.yaml", &trim_margin(text)?)
}

fn parse_one(text: &str) -> Test {
    let tests = parse(text).unwrap().tests;
    assert_eq!(tests.len(), 1);
    tests.into_iter().next().unwrap()
}

fn executables(test: &Test) -> Vec<String> {
    test.steps.iter().map(|step| exact(step).executable.clone()).collect()
}

#[test]
fn parses_strings_to_steps() {
    let step = test_parse_step(string("foo")).unwrap();
    assert_eq!(exact(&step), &Command { executable: "foo".to_string(), arguments: vec![] });
    assert_eq!(step.stdout, b"");
    assert_eq!(step.exitcode, 0);
}

#[test]
fn parses_arguments() {
    let step = test_parse_step(string("foo bar")).unwrap();
    assert_eq!(
        exact(&step),
        &Command { executable: "foo".to_string(), arguments: vec!["bar".to_string()] }
    );
}

#[test]
fn parses_objects_to_steps() {
    let step = test_parse_step(hash(vec![("command", string("foo"))])).unwrap();
    assert_eq!(exact(&step), &Command { executable: "foo".to_string(), arguments: vec![] });
    assert_eq!(step.stdout, b"");
    assert_eq!(step.exitcode, 0);
}

#[test]
fn allows_to_put_arguments_in_the_command_field() {
    let step = test_parse_step(hash(vec![("command", string("foo bar"))])).unwrap();
    assert_eq!(
        exact(&step),
        &Command { executable: "foo".to_string(), arguments: vec!["bar".to_string()] }
    );
}

#[test]
fn gives_nice_parse_errors() {
    assert_eq!(Step::parse(&Yaml::Null).unwrap_err(), "expected: string or array, got: Null");
}

#[test]
fn allows_to_specify_stdout() {
    assert_eq!(test_parse_step(hash(vec![("command", string("foo")), ("stdout", string("bar"))])).unwrap().stdout, b"bar".to_vec());
}

#[test]
fn allows_to_specify_the_mocked_exit_code() {
    assert_eq!(test_parse_step(hash(vec![("command", string("foo")), ("exitcode", Yaml::Integer(42))])).unwrap().exitcode, 42);
}

#[test]
fn uses_zero_as_the_default() {
    assert_eq!(test_parse_step(hash(vec![("command", string("foo"))])).unwrap().exitcode, 0);
}

#[test]
fn parses_regex_steps() {
    let step = test_parse_step(hash(vec![("regex", string("cp \\d"))])).unwrap();
    match &step.command_matcher {
        CommandMatcher::RegexMatch(regex) => assert_eq!(regex.original_string(), "cp \\d"),
        CommandMatcher::ExactMatch(_) => panic!("expected a regex"),
    }
}

#[test]
fn rejects_unknown_step_fields() {
    assert_eq!(
        test_parse_step(hash(vec![("command", string("foo")), ("foo", Yaml::Integer(1))])).unwrap_err(),
        "unexpected field 'foo', possible values: 'command', 'regex', 'stdout', 'exitcode'"
    );
}

#[test]
fn reads_a_protocol_from_a_sibling_yaml_file() {
    let test = parse_one(
        r"
            |steps:
            |  - /bin/true
        ",
    );
    assert_eq!(executables(&test), vec!["/bin/true"]);
    assert!(exact(&test.steps[0]).arguments.is_empty());
    assert!(test.arguments.is_empty());
    assert_eq!(test.cwd, None);
    assert_eq!(test.exitcode, None);
}

#[test]
fn works_for_multiple_commands() {
    let test = parse_one(
        r"
            |steps:
            |  - /bin/true
            |  - /bin/false
        ",
    );
    assert_eq!(executables(&test), vec!["/bin/true", "/bin/false"]);
}

#[test]
fn allows_to_specify_arguments() {
    let test = parse_one(
        r"
            |steps:
            |  - /bin/true foo bar
        ",
    );
    assert_eq!(exact(&test.steps[0]).arguments, vec!["foo", "bar"]);
}

#[test]
fn allows_to_specify_the_protocol_as_an_object() {
    let test = parse_one(
        r"
            |tests:
            |  - steps:
            |    - /bin/true
        ",
    );
    assert_eq!(executables(&test), vec!["/bin/true"]);
}

#[test]
fn allows_to_specify_the_script_environment() {
    let test = parse_one(
        r"
            |steps:
            |  - /bin/true
            |env:
            |  foo: bar
        ",
    );
    assert_eq!(test.env, vec![("foo".to_string(), "bar".to_string())]);
}

fn arguments_of_each(tests: Tests) -> Vec<Vec<String>> {
    tests.tests.into_iter().map(|test| test.arguments).collect()
}

#[test]
fn allows_to_specify_multiple_protocols() {
    let tests = parse(
        r"
            |- arguments: foo
            |  steps: []
            |- arguments: bar
            |  steps: []
        ",
    )
    .unwrap();
    assert_eq!(arguments_of_each(tests), vec![vec!["foo"], vec!["bar"]]);
}

#[test]
fn disallows_multiple_yaml_documents() {
    assert_eq!(
        parse(
            r"
                |steps: []
                |---
                |steps: []
            ",
        )
        .unwrap_err(),
        "multiple YAML documents not allowed (in script.test.yaml)"
    );
}

#[test]
fn allows_to_specify_multiple_protocols_as_an_object() {
    let tests = parse(
        r"
            |tests:
            |  - arguments: foo
            |    steps: []
            |  - arguments: bar
            |    steps: []
        ",
    )
    .unwrap();
    assert_eq!(arguments_of_each(tests), vec![vec!["foo"], vec!["bar"]]);
}

#[test]
fn returns_a_nice_error_when_the_required_top_level_keys_are_missing() {
    assert_eq!(
        parse("{}").unwrap_err(),
        "error in script.test.yaml: expected field \"tests\" or \"steps\", got: Hash({})"
    );
}

#[test]
fn allows_arguments() {
    let test = parse_one(
        r"
            |steps:
            |  - /bin/true
            |arguments: foo bar
        ",
    );
    assert_eq!(test.arguments, vec!["foo", "bar"]);
}

#[test]
fn allows_arguments_with_whitespace() {
    let test = parse_one(
        r#"
            |steps:
            |  - /bin/true
            |arguments: foo "bar baz"
        "#,
    );
    assert_eq!(test.arguments, vec!["foo", "bar baz"]);
}

#[test]
fn disallows_arguments_of_invalid_type() {
    assert_eq!(
        parse(
            r"
                |steps:
                |  - /bin/true
                |arguments: 42
            ",
        )
        .unwrap_err(),
        "error in script.test.yaml: expected: string, got: Integer(42)"
    );
}

#[test]
fn mod_allows_to_specify_the_working_directory() {
    let test = parse_one(
        r"
            |steps:
            |  - /bin/true
            |cwd: /foo
        ",
    );
    assert_eq!(test.cwd, Some("/foo".to_string()));
}

#[test]
fn mod_none_is_the_default() {
    let test = parse_one(
        r"
            |steps:
            |  - /bin/true
        ",
    );
    assert_eq!(test.cwd, None);
    assert_eq!(test.stderr, None);
    assert_eq!(test.stdout, None);
}

#[test]
fn disallows_relative_paths() {
    let yaml = hash(vec![
        ("steps", Yaml::Array(vec![string("/bin/true")])),
        ("cwd", string("foo")),
    ]);
    assert_eq!(
        Tests::parse(&yaml).unwrap_err(),
        "cwd has to be an absolute path starting with \"/\", got: \"foo\""
    );
}

#[test]
fn allows_to_specify_the_expected_exit_code() {
    let test = parse_one(
        r"
            |steps:
            |  - /bin/true
            |exitcode: 42
        ",
    );
    assert_eq!(test.exitcode, Some(42));
}

#[test]
fn uses_none_as_the_default() {
    let test = parse_one(
        r"
            |steps:
            |  - /bin/true
        ",
    );
    assert_eq!(test.exitcode, None);
}

#[test]
fn allows_to_specify_unmocked_commands() {
    let tests = parse(
        r"
            |tests:
            |  - steps: []
            |unmockedCommands:
            |  - foo
        ",
    )
    .unwrap();
    assert_eq!(tests.unmocked_commands, vec!["foo"]);
}

#[test]
fn allows_a_specified_interpreter() {
    let tests = parse(
        r"
            |tests:
            |  - steps: []
            |interpreter: /bin/bash
        ",
    )
    .unwrap();
    assert_eq!(tests.interpreter.unwrap(), "/bin/bash");
}

#[test]
fn disallows_an_interpreter_with_an_invalid_type() {
    assert_eq!(
        parse(
            r"
                |tests:
                |  - steps: []
                |interpreter: 42
            ",
        )
        .unwrap_err(),
        "error in script.test.yaml: expected: string, got: Integer(42)"
    );
}

#[test]
fn allows_to_specify_mocked_files() {
    let test = parse_one(
        r"
            |steps: []
            |mockedFiles:
            |  - /foo
        ",
    );
    assert_eq!(test.mocked_files, vec!["/foo"]);
}

#[test]
fn allows_to_specify_the_expected_stderr() {
    let test = parse_one(
        r"
            |- steps: []
            |  stderr: foo
        ",
    );
    assert_eq!(test.stderr.map(|s| String::from_utf8(s).unwrap()), Some("foo".to_string()));
}

#[test]
fn run_wrong_types() {
    assert_eq!(
        parse(
            r"
                |steps: 42
            ",
        )
        .unwrap_err(),
        "error in script.test.yaml: expected: array, got: Integer(42)"
    );
}

#[test]
fn run_invalid_yaml() {
    assert_eq!(
        parse(
            r"
                |steps: - boo
            ",
        )
        .unwrap_err(),
        "invalid YAML in script.test.yaml: block sequence entries are not allowed in this context at line 1 column 8"
    );
}

#[test]
fn complains_about_an_empty_file() {
    assert_eq!(parse("").unwrap_err(), "no YAML documents (in script.test.yaml)");
}

#[test]
fn rejects_unknown_test_fields() {
    let error = parse(
        r"
            |steps: []
            |foo: 1
        ",
    )
    .unwrap_err();
    assert!(error.starts_with("error in script.test.yaml: unexpected field 'foo', possible values: "));
}

#[test]
fn a_hole_ends_the_steps() {
    let test = parse_one(
        r"
            |steps:
            |  - cp
            |  - _
        ",
    );
    assert!(test.ends_with_hole);
    assert_eq!(executables(&test), vec!["cp"]);
    let test = parse_one(
        r"
            |steps:
            |  - cp
        ",
    );
    assert!(!test.ends_with_hole);
}

#[test]
fn adds_the_protocols_file_extension() {
    assert_eq!(find_test_file("foo"), "foo.test.yaml");
}

#[test]
fn works_for_files_with_extensions() {
    assert_eq!(find_test_file("foo.ext"), "foo.ext.test.yaml");
}

#[test]
fn errors_on_out_of_bounds_integers() {
    let too_large: i64 = i64::from(i32::MAX) + 1;
    let yaml = Yaml::Integer(too_large);
    assert_eq!(
        expect_integer(&yaml).unwrap_err(),
        format!("expected: integer below {}, got: {:?}", i32::MAX, yaml_rust::Yaml::Integer(too_large))
    );
    assert_eq!(expect_integer(&Yaml::Integer(42)).unwrap(), 42);
}

fn summary(test: &Test) -> (Vec<(String, Vec<String>, Vec<u8>, i32)>, Vec<String>, Option<i32>) {
    let steps = test
        .steps
        .iter()
        .map(|step| {
            let command = exact(step);
            (command.executable.clone(), command.arguments.clone(), step.stdout.clone(), step.exitcode)
        })
        .collect();
    (steps, test.arguments.clone(), test.exitcode)
}

#[test]
fn a_command_line_is_short_for_a_command_field() {
    for line in ["git add .", "git push", r#"cp "a b" c"#] {
        let short = test_parse_step(string(line)).unwrap();
        let long = test_parse_step(hash(vec![("command", string(line))])).unwrap();
        assert_eq!(exact(&short), exact(&long));
        assert_eq!(short.stdout, long.stdout);
        assert_eq!(short.exitcode, long.exitcode);
    }
    let short = test_parse_step(string("foo \"bar")).unwrap_err();
    let long = test_parse_step(hash(vec![("command", string("foo \"bar"))])).unwrap_err();
    assert_eq!(short, long);
}

#[test]
fn an_array_of_tests_is_short_for_a_tests_field() {
    let array = parse(
        r"
            |- arguments: push
            |  steps:
            |    - git add .
            |    - git push
            |- arguments: pull
            |  steps:
            |    - git pull
        ",
    )
    .unwrap();
    let field = parse(
        r"
            |tests:
            |  - arguments: push
            |    steps:
            |      - git add .
            |      - git push
            |  - arguments: pull
            |    steps:
            |      - git pull
        ",
    )
    .unwrap();
    assert_eq!(array.tests.len(), 2);
    assert_eq!(
        array.tests.iter().map(summary).collect::<Vec<_>>(),
        field.tests.iter().map(summary).collect::<Vec<_>>()
    );
    assert_eq!(array.unmocked_commands, field.unmocked_commands);
    assert_eq!(array.interpreter, field.interpreter);
}

#[test]
fn a_single_test_is_short_for_an_array_of_one() {
    let single = parse(
        r"
            |steps:
            |  - cp a b
            |exitcode: 3
        ",
    )
    .unwrap();
    let array = parse(
        r"
            |- steps:
            |    - cp a b
            |  exitcode: 3
        ",
    )
    .unwrap();
    assert_eq!(single.tests.len(), 1);
    assert_eq!(summary(&single.tests[0]), summary(&array.tests[0]));
}

#[test]
fn a_step_needs_a_command_or_a_regex() {
    let mut expected = yaml_rust::yaml::Hash::new();
    expected.insert(yaml_rust::Yaml::String("stdout".to_string()), yaml_rust::Yaml::String("foo".to_string()));
    assert_eq!(
        test_parse_step(hash(vec![("stdout", string("foo"))])).unwrap_err(),
        format!("expected field 'command', got: {:?}", expected)
    );
}
