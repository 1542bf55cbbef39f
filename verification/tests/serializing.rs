//! The YAML that steps, tests and test files are written as.

use scriptkeeper::command::Command;
use scriptkeeper::command_matcher::{AnchoredRegex, CommandMatcher};
use scriptkeeper::test_spec::{Step, Test, Tests};
use scriptkeeper::yaml::Yaml;

fn text(value: &Yaml) -> Option<&str> {
    match value {
        Yaml::String(s) => Some(s.as_str()),
        _ => None,
    }
}

fn keys(value: &Yaml) -> Vec<String> {
    match value {
        Yaml::Hash(entries) => entries.iter().map(|(k, _)| text(k).unwrap().to_string()).collect(),
        other => panic!("not a hash: {:?}", other),
    }
}

fn field<'a>(value: &'a Yaml, key: &str) -> &'a Yaml {
    match value {
        Yaml::Hash(entries) => &entries.iter().find(|(k, _)| text(k) == Some(key)).unwrap().1,
        other => panic!("not a hash: {:?}", other),
    }
}

fn exact_step(line: &str, stdout: &[u8], exitcode: i32) -> Step {
    Step {
        command_matcher: CommandMatcher::ExactMatch(Command::new(line).unwrap()),
        stdout: stdout.to_vec(),
        exitcode,
    }
}

#[test]
fn a_plain_step_is_written_as_its_command_line() {
    let written = exact_step("cp a 'b c'", b"", 0).serialize();
    assert_eq!(text(&written), Some("cp a 'b c'"));
}

#[test]
fn a_step_with_output_and_exitcode_is_written_as_a_hash_in_order() {
    let written = exact_step("cp a b", b"foo", 1).serialize();
    assert_eq!(keys(&written), vec!["command", "stdout", "exitcode"]);
    assert_eq!(text(field(&written, "command")), Some("cp a b"));
    assert_eq!(text(field(&written, "stdout")), Some("foo"));
    assert!(matches!(field(&written, "exitcode"), Yaml::Integer(1)));
}

#[test]
fn a_step_with_only_an_exitcode_leaves_out_stdout() {
    let written = exact_step("cp a b", b"", 42).serialize();
    assert_eq!(keys(&written), vec!["command", "exitcode"]);
    assert!(matches!(field(&written, "exitcode"), Yaml::Integer(42)));
}

#[test]
fn a_regex_step_is_written_as_a_hash() {
    let step = Step {
        command_matcher: CommandMatcher::RegexMatch(AnchoredRegex::new("cp .*").unwrap()),
        stdout: vec![],
        exitcode: 0,
    };
    let written = step.serialize();
    assert_eq!(keys(&written), vec!["regex"]);
    assert_eq!(text(field(&written, "regex")), Some("cp .*"));
}

#[test]
fn a_test_is_written_with_its_steps_and_exitcode() {
    let mut test = Test::new(vec![exact_step("cp a b", b"", 0)]);
    test.exitcode = Some(3);
    let written = test.serialize();
    assert_eq!(keys(&written), vec!["steps", "exitcode"]);
    match field(&written, "steps") {
        Yaml::Array(items) => {
            assert_eq!(items.len(), 1);
            assert_eq!(text(&items[0]), Some("cp a b"));
        }
        other => panic!("not an array: {:?}", other),
    }
    assert!(matches!(field(&written, "exitcode"), Yaml::Integer(3)));
}

#[test]
fn a_test_file_is_written_with_its_tests() {
    let written = Tests::new(vec![Test::new(vec![])]).serialize();
    assert_eq!(keys(&written), vec!["tests"]);
    match field(&written, "tests") {
        Yaml::Array(items) => {
            assert_eq!(items.len(), 1);
            assert_eq!(keys(&items[0]), vec!["steps"]);
        }
        other => panic!("not an array: {:?}", other),
    }
}
