use vstd::prelude::*;

use std::collections::VecDeque;

use crate::argument_parser::{error_message, split_words, Parser};
use crate::command::{parse_command, Command, CommandView};
use crate::command_matcher::{anchored, regex_error, AnchoredRegex, CommandMatcher};
use crate::text::{push_str, str_bytes, string_from_chars};
use crate::yaml::{
    expect_field, expect_integer, expect_str, field_value, integer_of, missing_field_message,
    string_of, Yaml,
};

verus! {

/// What a step expects of a command, as a value: an exact command, or the
/// pattern of a regular expression.
pub enum MatcherView {
    Exact(CommandView),
    Regex(Seq<char>),
}

/// The value of a command matcher.
pub open spec fn matcher_view(matcher: &CommandMatcher) -> MatcherView {
    match matcher {
        CommandMatcher::ExactMatch(command) => MatcherView::Exact(command.view()),
        CommandMatcher::RegexMatch(regex) => MatcherView::Regex(regex.source()),
    }
}

/// A step of a test: a command that the tested script is expected to run,
/// with what the mock of that command writes to stdout and exits with.
#[derive(Debug)]
pub struct Step {
    pub command_matcher: CommandMatcher,
    pub stdout: Vec<u8>,
    pub exitcode: i32,
}

/// The value of a step.
pub struct StepView {
    pub matcher: MatcherView,
    pub stdout: Seq<u8>,
    pub exitcode: i32,
}

/// The step that expects exactly `command`, whose mock writes nothing and
/// exits with 0.
pub open spec fn plain_step(command: CommandView) -> StepView {
    StepView { matcher: MatcherView::Exact(command), stdout: seq![], exitcode: 0 }
}

/// The quoted field names, separated by commas.
pub open spec fn keys_text(known: Seq<Seq<char>>) -> Seq<char>
    decreases known.len(),
{
    if known.len() == 0 {
        seq![]
    } else if known.len() == 1 {
        "'"@ + known[0] + "'"@
    } else {
        keys_text(known.drop_last()) + ", '"@ + known.last() + "'"@
    }
}

/// The message for a field that is not one of the known ones.
pub open spec fn unexpected_field_message(key: Seq<char>, known: Seq<Seq<char>>) -> Seq<char> {
    "unexpected field '"@ + key + "', possible values: "@ + keys_text(known)
}

/// The first complaint about the keys of a YAML hash: a key that is not a
/// string, or one that is not among the known field names.
pub open spec fn keys_complaint(known: Seq<Seq<char>>, entries: Seq<(Yaml, Yaml)>) -> Option<Seq<char>>
    decreases entries.len(),
{
    if entries.len() == 0 {
        None
    } else {
        match string_of(entries[0].0) {
            Err(message) => Some(message),
            Ok(key) => if known.contains(key) {
                keys_complaint(known, entries.drop_first())
            } else {
                Some(unexpected_field_message(key, known))
            },
        }
    }
}

/// The field names as values.
pub open spec fn names_of(known: Seq<String>) -> Seq<Seq<char>> {
    known.map_values(|s: String| s@)
}

fn keys_listing(known: &Vec<String>) -> (result: String)
    ensures
        result@ == keys_text(names_of(known@)),
{
    let ghost names = names_of(known@);
    let mut out: Vec<char> = Vec::new();
    let mut i: usize = 0;
    while i < known.len()
        invariant
            i <= known.len(),
            names == names_of(known@),
            out@ == keys_text(names.take(i as int)),
        decreases known.len() - i,
    {
        if i > 0 {
            push_str(&mut out, ", ");
        }
        out.push('\'');
        push_str(&mut out, known[i].as_str());
        out.push('\'');
        proof {
            reveal_strlit(", ");
            reveal_strlit("'");
            reveal_strlit(", '");
            let next = names.take(i + 1);
            assert(next.drop_last() =~= names.take(i as int));
            assert(next.last() == known@[i as int]@);
            if i == 0 {
                assert(next.len() == 1);
            }
        }
        i += 1;
    }
    assert(names.take(known.len() as int) =~= names);
    string_from_chars(&out)
}

/// Checks that every key of a YAML hash is a string among the known field
/// names.
pub fn check_keys(known: &Vec<String>, entries: &Vec<(Yaml, Yaml)>) -> (result: Result<(), String>)
    ensures
        match keys_complaint(names_of(known@), entries@) {
            None => result is Ok,
            Some(message) => result matches Err(m) && m@ == message,
        },
{
    let ghost names = names_of(known@);
    let mut i: usize = 0;
    assert(entries@.skip(0) =~= entries@);
    while i < entries.len()
        invariant
            i <= entries.len(),
            names == names_of(known@),
            keys_complaint(names, entries@) == keys_complaint(names, entries@.skip(i as int)),
        decreases entries.len() - i,
    {
        assert(entries@.skip(i as int).drop_first() =~= entries@.skip(i + 1));
        assert(entries@.skip(i as int)[0] == entries@[i as int]);
        let key = match expect_str(&entries[i].0) {
            Ok(key) => key,
            Err(message) => {
                return Err(message);
            },
        };
        let mut found = false;
        let mut j: usize = 0;
        while j < known.len()
            invariant
                j <= known.len(),
                names == names_of(known@),
                found <==> exists|k: int| 0 <= k < j && names[k] == key@,
            decreases known.len() - j,
        {
            assert(names[j as int] == known@[j as int]@);
            if known[j] == *key {
                found = true;
            }
            j += 1;
        }
        if !found {
            let mut out: Vec<char> = Vec::new();
            push_str(&mut out, "unexpected field '");
            push_str(&mut out, key.as_str());
            push_str(&mut out, "', possible values: ");
            let listing = keys_listing(known);
            push_str(&mut out, listing.as_str());
            proof {
                reveal_strlit("unexpected field '");
                reveal_strlit("', possible values: ");
                assert(!names.contains(key@));
            }
            return Err(string_from_chars(&out));
        }
        proof {
            let k = choose|k: int| 0 <= k < known.len() && names[k] == key@;
            assert(names.contains(key@));
        }
        i += 1;
    }
    assert(entries@.skip(i as int).len() == 0);
    Ok(())
}

/// The bytes of an optional string field: `None` when the field is absent.
pub open spec fn optional_bytes(entries: Seq<(Yaml, Yaml)>, key: Seq<char>) -> Result<Option<Seq<u8>>, Seq<char>> {
    match field_value(entries, key) {
        None => Ok(None),
        Some(value) => match string_of(value) {
            Ok(s) => Ok(Some(vstd::utf8::encode_utf8(s))),
            Err(message) => Err(message),
        },
    }
}

/// The integer of an optional field: `None` when the field is absent.
pub open spec fn optional_integer(entries: Seq<(Yaml, Yaml)>, key: Seq<char>) -> Result<Option<i32>, Seq<char>> {
    match field_value(entries, key) {
        None => Ok(None),
        Some(value) => match integer_of(value) {
            Ok(n) => Ok(Some(n)),
            Err(message) => Err(message),
        },
    }
}

/// The string of an optional field: `None` when the field is absent.
pub open spec fn optional_string(entries: Seq<(Yaml, Yaml)>, key: Seq<char>) -> Result<Option<Seq<char>>, Seq<char>> {
    match field_value(entries, key) {
        None => Ok(None),
        Some(value) => match string_of(value) {
            Ok(s) => Ok(Some(s)),
            Err(message) => Err(message),
        },
    }
}

fn bytes_field(entries: &Vec<(Yaml, Yaml)>, key: &str) -> (result: Result<Option<Vec<u8>>, String>)
    ensures
        match optional_bytes(entries@, key@) {
            Ok(None) => result matches Ok(None),
            Ok(Some(bytes)) => result matches Ok(Some(b)) && b@ == bytes,
            Err(message) => result matches Err(m) && m@ == message,
        },
{
    match expect_field(entries, key) {
        Err(_) => Ok(None),
        Ok(value) => match expect_str(value) {
            Ok(s) => Ok(Some(str_bytes(s.as_str()))),
            Err(message) => Err(message),
        },
    }
}

fn integer_field(entries: &Vec<(Yaml, Yaml)>, key: &str) -> (result: Result<Option<i32>, String>)
    ensures
        match optional_integer(entries@, key@) {
            Ok(n) => result == Ok::<Option<i32>, String>(n),
            Err(message) => result matches Err(m) && m@ == message,
        },
{
    match expect_field(entries, key) {
        Err(_) => Ok(None),
        Ok(value) => match expect_integer(value) {
            Ok(n) => Ok(Some(n)),
            Err(message) => Err(message),
        },
    }
}

fn string_field(entries: &Vec<(Yaml, Yaml)>, key: &str) -> (result: Result<Option<String>, String>)
    ensures
        match optional_string(entries@, key@) {
            Ok(None) => result matches Ok(None),
            Ok(Some(text)) => result matches Ok(Some(t)) && t@ == text,
            Err(message) => result matches Err(m) && m@ == message,
        },
{
    match expect_field(entries, key) {
        Err(_) => Ok(None),
        Ok(value) => match expect_str(value) {
            Ok(s) => Ok(Some(s.clone())),
            Err(message) => Err(message),
        },
    }
}

/// The field names that a step given as a hash may have.
pub open spec fn step_keys() -> Seq<Seq<char>> {
    seq!["command"@, "regex"@, "stdout"@, "exitcode"@]
}

/// What the fields of a step expect of a command: the command line of the
/// `command` field, or else the pattern of the `regex` field.
pub open spec fn matcher_of(entries: Seq<(Yaml, Yaml)>) -> Result<MatcherView, Seq<char>> {
    match field_value(entries, "command"@) {
        Some(value) => match string_of(value) {
            Err(message) => Err(message),
            Ok(line) => match parse_command(line) {
                Ok(command) => Ok(MatcherView::Exact(command)),
                Err(message) => Err(message),
            },
        },
        None => match field_value(entries, "regex"@) {
            Some(value) => match string_of(value) {
                Err(message) => Err(message),
                Ok(pattern) => match regex_error(anchored(pattern)) {
                    None => Ok(MatcherView::Regex(pattern)),
                    Some(message) => Err(message),
                },
            },
            None => Err(missing_field_message("command"@, entries)),
        },
    }
}

/// The message for a step that is neither a string nor a hash.
pub open spec fn step_type_message(value: Yaml) -> Seq<char> {
    "expected: string or array, got: "@ + crate::yaml::yaml_debug_text(value)
}

/// The step that a YAML value describes: a command line, or a hash with
/// the fields `command` or `regex`, and optionally `stdout` and `exitcode`.
pub open spec fn step_of(value: Yaml) -> Result<StepView, Seq<char>> {
    match value {
        Yaml::String(line) => match parse_command(line@) {
            Ok(command) => Ok(plain_step(command)),
            Err(message) => Err(message),
        },
        Yaml::Hash(entries) => match keys_complaint(step_keys(), entries@) {
            Some(message) => Err(message),
            None => match matcher_of(entries@) {
                Err(message) => Err(message),
                Ok(matcher) => match optional_bytes(entries@, "stdout"@) {
                    Err(message) => Err(message),
                    Ok(stdout) => match optional_integer(entries@, "exitcode"@) {
                        Err(message) => Err(message),
                        Ok(exitcode) => Ok(
                            StepView {
                                matcher,
                                stdout: match stdout {
                                    Some(bytes) => bytes,
                                    None => seq![],
                                },
                                exitcode: match exitcode {
                                    Some(n) => n,
                                    None => 0,
                                },
                            },
                        ),
                    },
                },
            },
        },
        _ => Err(step_type_message(value)),
    }
}

fn step_keys_vec() -> (result: Vec<String>)
    ensures
        names_of(result@) == step_keys(),
{
    let result = vec![
        String::from_str("command"),
        String::from_str("regex"),
        String::from_str("stdout"),
        String::from_str("exitcode"),
    ];
    assert(names_of(result@) =~= step_keys());
    result
}

fn matcher_from_fields(entries: &Vec<(Yaml, Yaml)>) -> (result: Result<CommandMatcher, String>)
    ensures
        match matcher_of(entries@) {
            Ok(view) => result matches Ok(m) && matcher_view(&m) == view,
            Err(message) => result matches Err(m) && m@ == message,
        },
{
    match expect_field(entries, "command") {
        Ok(value) => {
            let line = match expect_str(value) {
                Ok(line) => line,
                Err(message) => {
                    return Err(message);
                },
            };
            match Command::new(line.as_str()) {
                Ok(command) => Ok(CommandMatcher::ExactMatch(command)),
                Err(message) => Err(message),
            }
        },
        Err(missing) => match expect_field(entries, "regex") {
            Ok(value) => {
                let pattern = match expect_str(value) {
                    Ok(pattern) => pattern,
                    Err(message) => {
                        return Err(message);
                    },
                };
                match AnchoredRegex::new(pattern.as_str()) {
                    Ok(regex) => Ok(CommandMatcher::RegexMatch(regex)),
                    Err(message) => Err(message),
                }
            },
            Err(_) => Err(missing),
        },
    }
}

impl Step {
    /// The value of the step.
    pub open spec fn view(&self) -> StepView {
        StepView { matcher: matcher_view(&self.command_matcher), stdout: self.stdout@, exitcode: self.exitcode }
    }

    /// The step that expects exactly `command`; its mock writes nothing and
    /// exits with 0.
    pub fn new(command: Command) -> (result: Step)
        ensures
            result.view() == plain_step(command.view()),
    {
        Step { command_matcher: CommandMatcher::ExactMatch(command), stdout: Vec::new(), exitcode: 0 }
    }

    /// The step that expects the command of a command line.
    pub fn from_string(line: &str) -> (result: Result<Step, String>)
        ensures
            match parse_command(line@) {
                Ok(command) => result matches Ok(step) && step.view() == plain_step(command),
                Err(message) => result matches Err(m) && m@ == message,
            },
    {
        match Command::new(line) {
            Ok(command) => Ok(Step::new(command)),
            Err(message) => Err(message),
        }
    }

    /// The step that a YAML value describes (see `step_of`).
    pub fn parse(value: &Yaml) -> (result: Result<Step, String>)
        ensures
            match step_of(*value) {
                Ok(view) => result matches Ok(step) && step.view() == view,
                Err(message) => result matches Err(m) && m@ == message,
            },
    {
        match value {
            Yaml::String(line) => Step::from_string(line.as_str()),
            Yaml::Hash(entries) => {
                let known = step_keys_vec();
                if let Err(message) = check_keys(&known, entries) {
                    return Err(message);
                }
                let command_matcher = match matcher_from_fields(entries) {
                    Ok(matcher) => matcher,
                    Err(message) => {
                        return Err(message);
                    },
                };
                let stdout = match bytes_field(entries, "stdout") {
                    Ok(Some(bytes)) => bytes,
                    Ok(None) => Vec::new(),
                    Err(message) => {
                        return Err(message);
                    },
                };
                let exitcode = match integer_field(entries, "exitcode") {
                    Ok(Some(n)) => n,
                    Ok(None) => 0,
                    Err(message) => {
                        return Err(message);
                    },
                };
                Ok(Step { command_matcher, stdout, exitcode })
            },
            _ => {
                let mut out: Vec<char> = Vec::new();
                push_str(&mut out, "expected: string or array, got: ");
                let rendered = crate::yaml::debug_yaml(value);
                push_str(&mut out, rendered.as_str());
                proof {
                    reveal_strlit("expected: string or array, got: ");
                }
                Err(string_from_chars(&out))
            },
        }
    }
}

/// A test: what the tested script is run with, the steps it is expected to
/// run, and what it is expected to write and exit with.
#[derive(Debug)]
pub struct Test {
    pub steps: VecDeque<Step>,
    pub ends_with_hole: bool,
    pub arguments: Vec<String>,
    pub env: Vec<(String, String)>,
    pub cwd: Option<String>,
    pub mocked_files: Vec<String>,
    pub stdout: Option<Vec<u8>>,
    pub stderr: Option<Vec<u8>>,
    pub exitcode: Option<i32>,
}

/// The value of a test.
pub struct TestView {
    pub steps: Seq<StepView>,
    pub ends_with_hole: bool,
    pub arguments: Seq<Seq<char>>,
    pub env: Seq<(Seq<char>, Seq<char>)>,
    pub cwd: Option<Seq<char>>,
    pub mocked_files: Seq<Seq<char>>,
    pub stdout: Option<Seq<u8>>,
    pub stderr: Option<Seq<u8>>,
    pub exitcode: Option<i32>,
}

/// The values of some strings.
pub open spec fn strings_view(strings: Seq<String>) -> Seq<Seq<char>> {
    strings.map_values(|s: String| s@)
}

/// The values of some pairs of strings.
pub open spec fn pairs_view(pairs: Seq<(String, String)>) -> Seq<(Seq<char>, Seq<char>)> {
    pairs.map_values(|p: (String, String)| (p.0@, p.1@))
}

/// The value of an optional string.
pub open spec fn optional_string_view(s: Option<String>) -> Option<Seq<char>> {
    match s {
        Some(s) => Some(s@),
        None => None,
    }
}

/// The value of optional bytes.
pub open spec fn optional_bytes_view(b: Option<Vec<u8>>) -> Option<Seq<u8>> {
    match b {
        Some(b) => Some(b@),
        None => None,
    }
}

/// The test with the given steps, no arguments, environment, working
/// directory, mocked files or expectations on the output, and no hole.
pub open spec fn test_with_steps(steps: Seq<StepView>) -> TestView {
    TestView {
        steps,
        ends_with_hole: false,
        arguments: seq![],
        env: seq![],
        cwd: None,
        mocked_files: seq![],
        stdout: None,
        stderr: None,
        exitcode: None,
    }
}

/// Whether a YAML value is a hole: the string `_`, which as the last step
/// marks the steps that follow as to be recorded.
pub open spec fn is_hole(value: Yaml) -> bool {
    crate::yaml::is_key(value, "_"@)
}

/// The steps that a list of YAML values describes; the first error, if any.
pub open spec fn steps_of(items: Seq<Yaml>) -> Result<Seq<StepView>, Seq<char>>
    decreases items.len(),
{
    if items.len() == 0 {
        Ok(seq![])
    } else {
        match steps_of(items.drop_last()) {
            Err(message) => Err(message),
            Ok(steps) => match step_of(items.last()) {
                Err(message) => Err(message),
                Ok(step) => Ok(steps.push(step)),
            },
        }
    }
}

/// The steps of a list, and whether it ends with a hole, which is then not
/// one of the steps.
pub open spec fn step_list_of(items: Seq<Yaml>) -> Result<(Seq<StepView>, bool), Seq<char>> {
    if items.len() > 0 && is_hole(items.last()) {
        match steps_of(items.drop_last()) {
            Ok(steps) => Ok((steps, true)),
            Err(message) => Err(message),
        }
    } else {
        match steps_of(items) {
            Ok(steps) => Ok((steps, false)),
            Err(message) => Err(message),
        }
    }
}

/// The strings that a list of YAML values holds; the first error, if any.
pub open spec fn strings_of(items: Seq<Yaml>) -> Result<Seq<Seq<char>>, Seq<char>>
    decreases items.len(),
{
    if items.len() == 0 {
        Ok(seq![])
    } else {
        match strings_of(items.drop_last()) {
            Err(message) => Err(message),
            Ok(strings) => match string_of(items.last()) {
                Err(message) => Err(message),
                Ok(s) => Ok(strings.push(s)),
            },
        }
    }
}

/// The pairs of strings that the entries of a YAML hash hold; the first
/// error, if any, the key checked before the value.
pub open spec fn pairs_of(entries: Seq<(Yaml, Yaml)>) -> Result<Seq<(Seq<char>, Seq<char>)>, Seq<char>>
    decreases entries.len(),
{
    if entries.len() == 0 {
        Ok(seq![])
    } else {
        match pairs_of(entries.drop_last()) {
            Err(message) => Err(message),
            Ok(pairs) => match string_of(entries.last().0) {
                Err(message) => Err(message),
                Ok(key) => match string_of(entries.last().1) {
                    Err(message) => Err(message),
                    Ok(value) => Ok(pairs.push((key, value))),
                },
            },
        }
    }
}

/// The script arguments of the `arguments` field, split into words.
pub open spec fn arguments_of(entries: Seq<(Yaml, Yaml)>) -> Result<Seq<Seq<char>>, Seq<char>> {
    match optional_string(entries, "arguments"@) {
        Err(message) => Err(message),
        Ok(None) => Ok(seq![]),
        Ok(Some(line)) => match split_words(line) {
            Ok(words) => Ok(words),
            Err(e) => Err(error_message(e, line)),
        },
    }
}

/// The environment of the `env` field, a hash of strings.
pub open spec fn env_of(entries: Seq<(Yaml, Yaml)>) -> Result<Seq<(Seq<char>, Seq<char>)>, Seq<char>> {
    match field_value(entries, "env"@) {
        None => Ok(seq![]),
        Some(value) => match value {
            Yaml::Hash(pairs) => pairs_of(pairs@),
            _ => Err(crate::yaml::unexpected_message("object"@, value)),
        },
    }
}

/// The message for a working directory that is not an absolute path.
pub open spec fn cwd_message(cwd: Seq<char>) -> Seq<char> {
    "cwd has to be an absolute path starting with \"/\", got: "@ + crate::text::debug_quoted(cwd)
}

/// The working directory of the `cwd` field, which has to start with `/`.
pub open spec fn cwd_of(entries: Seq<(Yaml, Yaml)>) -> Result<Option<Seq<char>>, Seq<char>> {
    match optional_string(entries, "cwd"@) {
        Err(message) => Err(message),
        Ok(None) => Ok(None),
        Ok(Some(cwd)) => if cwd.len() > 0 && cwd[0] == '/' {
            Ok(Some(cwd))
        } else {
            Err(cwd_message(cwd))
        },
    }
}

/// The paths of the `mockedFiles` field, an array of strings.
pub open spec fn mocked_files_of(entries: Seq<(Yaml, Yaml)>) -> Result<Seq<Seq<char>>, Seq<char>> {
    match field_value(entries, "mockedFiles"@) {
        None => Ok(seq![]),
        Some(value) => match value {
            Yaml::Array(items) => strings_of(items@),
            _ => Err(crate::yaml::unexpected_message("array"@, value)),
        },
    }
}

/// The field names that a test may have.
pub open spec fn test_keys() -> Seq<Seq<char>> {
    seq![
        "arguments"@,
        "env"@,
        "cwd"@,
        "mockedFiles"@,
        "stdout"@,
        "stderr"@,
        "exitcode"@,
        "steps"@,
    ]
}

/// The steps of the `steps` field, which every test has.
pub open spec fn test_steps_of(entries: Seq<(Yaml, Yaml)>) -> Result<(Seq<StepView>, bool), Seq<char>> {
    match field_value(entries, "steps"@) {
        None => Err(missing_field_message("steps"@, entries)),
        Some(value) => match value {
            Yaml::Array(items) => step_list_of(items@),
            _ => Err(crate::yaml::unexpected_message("array"@, value)),
        },
    }
}

/// The test that the fields of a YAML hash describe; the fields are read in
/// the order steps, arguments, env, cwd, stdout, stderr, exitcode,
/// mockedFiles, and the first error is given.
pub open spec fn test_of(entries: Seq<(Yaml, Yaml)>) -> Result<TestView, Seq<char>> {
    match keys_complaint(test_keys(), entries) {
        Some(message) => Err(message),
        None => match test_steps_of(entries) {
            Err(message) => Err(message),
            Ok((steps, ends_with_hole)) => match arguments_of(entries) {
                Err(message) => Err(message),
                Ok(arguments) => match env_of(entries) {
                    Err(message) => Err(message),
                    Ok(env) => match cwd_of(entries) {
                        Err(message) => Err(message),
                        Ok(cwd) => match optional_bytes(entries, "stdout"@) {
                            Err(message) => Err(message),
                            Ok(stdout) => match optional_bytes(entries, "stderr"@) {
                                Err(message) => Err(message),
                                Ok(stderr) => match optional_integer(entries, "exitcode"@) {
                                    Err(message) => Err(message),
                                    Ok(exitcode) => match mocked_files_of(entries) {
                                        Err(message) => Err(message),
                                        Ok(mocked_files) => Ok(
                                            TestView {
                                                steps,
                                                ends_with_hole,
                                                arguments,
                                                env,
                                                cwd,
                                                mocked_files,
                                                stdout,
                                                stderr,
                                                exitcode,
                                            },
                                        ),
                                    },
                                },
                            },
                        },
                    },
                },
            },
        },
    }
}

/// An error in a prefix of a list of steps is the error of the whole list.
proof fn lemma_steps_of_error(items: Seq<Yaml>, i: int, j: int)
    requires
        0 <= i <= j <= items.len(),
        steps_of(items.take(i)) is Err,
    ensures
        steps_of(items.take(j)) == steps_of(items.take(i)),
    decreases j - i,
{
    if j > i {
        lemma_steps_of_error(items, i, j - 1);
        assert(items.take(j).drop_last() =~= items.take(j - 1));
    }
}

fn parse_steps(items: &Vec<Yaml>) -> (result: Result<(VecDeque<Step>, bool), String>)
    ensures
        match step_list_of(items@) {
            Ok((steps, hole)) => result matches Ok((s, h)) && s@.map_values(|x: Step| x.view()) == steps
                && h == hole,
            Err(message) => result matches Err(m) && m@ == message,
        },
{
    let mut count = items.len();
    let mut hole = false;
    if count > 0 {
        if let Yaml::String(last) = &items[count - 1] {
            let marker = String::from_str("_");
            if *last == marker {
                hole = true;
                count = count - 1;
            }
        }
    }
    assert(hole == (items@.len() > 0 && is_hole(items@.last())));
    let ghost listed = if hole {
        items@.drop_last()
    } else {
        items@
    };
    assert(listed =~= items@.take(count as int));
    let mut steps: VecDeque<Step> = VecDeque::new();
    let mut i: usize = 0;
    assert(steps@.map_values(|x: Step| x.view()) =~= Seq::<StepView>::empty());
    assert(items@.take(0).len() == 0);
    while i < count
        invariant
            i <= count <= items.len(),
            listed == items@.take(count as int),
            hole == (items@.len() > 0 && is_hole(items@.last())),
            listed == if hole {
                items@.drop_last()
            } else {
                items@
            },
            steps_of(items@.take(i as int)) == Ok::<Seq<StepView>, Seq<char>>(
                steps@.map_values(|x: Step| x.view()),
            ),
        decreases count - i,
    {
        let ghost before = steps@;
        assert(items@.take(i + 1).drop_last() =~= items@.take(i as int));
        assert(items@.take(i + 1).last() == items@[i as int]);
        match Step::parse(&items[i]) {
            Ok(step) => {
                steps.push_back(step);
                assert(steps@.map_values(|x: Step| x.view()) =~= before.map_values(|x: Step| x.view()).push(
                    step.view(),
                ));
            },
            Err(message) => {
                assert(steps_of(items@.take(i + 1)) == Err::<Seq<StepView>, Seq<char>>(message@));
                proof {
                    lemma_steps_of_error(items@, i + 1, count as int);
                }
                assert(steps_of(listed) == Err::<Seq<StepView>, Seq<char>>(message@));
                return Err(message);
            },
        }
        i += 1;
    }
    Ok((steps, hole))
}

proof fn lemma_strings_of_error(items: Seq<Yaml>, i: int, j: int)
    requires
        0 <= i <= j <= items.len(),
        strings_of(items.take(i)) is Err,
    ensures
        strings_of(items.take(j)) == strings_of(items.take(i)),
    decreases j - i,
{
    if j > i {
        lemma_strings_of_error(items, i, j - 1);
        assert(items.take(j).drop_last() =~= items.take(j - 1));
    }
}

proof fn lemma_pairs_of_error(entries: Seq<(Yaml, Yaml)>, i: int, j: int)
    requires
        0 <= i <= j <= entries.len(),
        pairs_of(entries.take(i)) is Err,
    ensures
        pairs_of(entries.take(j)) == pairs_of(entries.take(i)),
    decreases j - i,
{
    if j > i {
        lemma_pairs_of_error(entries, i, j - 1);
        assert(entries.take(j).drop_last() =~= entries.take(j - 1));
    }
}

fn parse_strings(items: &Vec<Yaml>) -> (result: Result<Vec<String>, String>)
    ensures
        match strings_of(items@) {
            Ok(strings) => result matches Ok(s) && strings_view(s@) == strings,
            Err(message) => result matches Err(m) && m@ == message,
        },
{
    let mut strings: Vec<String> = Vec::new();
    let mut i: usize = 0;
    assert(strings_view(strings@) =~= Seq::<Seq<char>>::empty());
    while i < items.len()
        invariant
            i <= items.len(),
            strings_of(items@.take(i as int)) == Ok::<Seq<Seq<char>>, Seq<char>>(strings_view(strings@)),
        decreases items.len() - i,
    {
        let ghost before = strings@;
        assert(items@.take(i + 1).drop_last() =~= items@.take(i as int));
        assert(items@.take(i + 1).last() == items@[i as int]);
        match expect_str(&items[i]) {
            Ok(text) => {
                strings.push(text.clone());
                assert(strings_view(strings@) =~= strings_view(before).push(text@));
            },
            Err(message) => {
                proof {
                    lemma_strings_of_error(items@, i + 1, items.len() as int);
                }
                assert(items@.take(items.len() as int) =~= items@);
                return Err(message);
            },
        }
        i += 1;
    }
    assert(items@.take(items.len() as int) =~= items@);
    Ok(strings)
}

fn parse_pairs(entries: &Vec<(Yaml, Yaml)>) -> (result: Result<Vec<(String, String)>, String>)
    ensures
        match pairs_of(entries@) {
            Ok(pairs) => result matches Ok(p) && pairs_view(p@) == pairs,
            Err(message) => result matches Err(m) && m@ == message,
        },
{
    let mut pairs: Vec<(String, String)> = Vec::new();
    let mut i: usize = 0;
    assert(pairs_view(pairs@) =~= Seq::<(Seq<char>, Seq<char>)>::empty());
    while i < entries.len()
        invariant
            i <= entries.len(),
            pairs_of(entries@.take(i as int)) == Ok::<Seq<(Seq<char>, Seq<char>)>, Seq<char>>(
                pairs_view(pairs@),
            ),
        decreases entries.len() - i,
    {
        let ghost before = pairs@;
        assert(entries@.take(i + 1).drop_last() =~= entries@.take(i as int));
        assert(entries@.take(i + 1).last() == entries@[i as int]);
        let key = match expect_str(&entries[i].0) {
            Ok(key) => key,
            Err(message) => {
                proof {
                    lemma_pairs_of_error(entries@, i + 1, entries.len() as int);
                }
                assert(entries@.take(entries.len() as int) =~= entries@);
                return Err(message);
            },
        };
        let value = match expect_str(&entries[i].1) {
            Ok(value) => value,
            Err(message) => {
                proof {
                    lemma_pairs_of_error(entries@, i + 1, entries.len() as int);
                }
                assert(entries@.take(entries.len() as int) =~= entries@);
                return Err(message);
            },
        };
        pairs.push((key.clone(), value.clone()));
        assert(pairs_view(pairs@) =~= pairs_view(before).push((key@, value@)));
        i += 1;
    }
    assert(entries@.take(entries.len() as int) =~= entries@);
    Ok(pairs)
}

fn parse_arguments_field(entries: &Vec<(Yaml, Yaml)>) -> (result: Result<Vec<String>, String>)
    ensures
        match arguments_of(entries@) {
            Ok(arguments) => result matches Ok(a) && strings_view(a@) == arguments,
            Err(message) => result matches Err(m) && m@ == message,
        },
{
    match string_field(entries, "arguments") {
        Err(message) => Err(message),
        Ok(None) => {
            let empty: Vec<String> = Vec::new();
            assert(strings_view(empty@) =~= Seq::<Seq<char>>::empty());
            Ok(empty)
        },
        Ok(Some(line)) => match Parser::parse_argument_strings(line.as_str()) {
            Ok(words) => {
                assert(strings_view(words@) =~= split_words(line@)->Ok_0);
                Ok(words)
            },
            Err(message) => Err(message),
        },
    }
}

fn parse_env_field(entries: &Vec<(Yaml, Yaml)>) -> (result: Result<Vec<(String, String)>, String>)
    ensures
        match env_of(entries@) {
            Ok(env) => result matches Ok(e) && pairs_view(e@) == env,
            Err(message) => result matches Err(m) && m@ == message,
        },
{
    match expect_field(entries, "env") {
        Err(_) => {
            let empty: Vec<(String, String)> = Vec::new();
            assert(pairs_view(empty@) =~= Seq::<(Seq<char>, Seq<char>)>::empty());
            Ok(empty)
        },
        Ok(value) => match crate::yaml::expect_object(value) {
            Ok(pairs) => parse_pairs(pairs),
            Err(message) => Err(message),
        },
    }
}

fn parse_cwd_field(entries: &Vec<(Yaml, Yaml)>) -> (result: Result<Option<String>, String>)
    ensures
        match cwd_of(entries@) {
            Ok(cwd) => result matches Ok(c) && optional_string_view(c) == cwd,
            Err(message) => result matches Err(m) && m@ == message,
        },
{
    match string_field(entries, "cwd") {
        Err(message) => Err(message),
        Ok(None) => Ok(None),
        Ok(Some(cwd)) => {
            let chars = crate::text::chars_of(cwd.as_str());
            if chars.len() > 0 && chars[0] == '/' {
                Ok(Some(cwd))
            } else {
                let mut out: Vec<char> = Vec::new();
                push_str(&mut out, "cwd has to be an absolute path starting with \"/\", got: ");
                let quoted = crate::text::debug_string(cwd.as_str());
                push_str(&mut out, quoted.as_str());
                proof {
                    reveal_strlit("cwd has to be an absolute path starting with \"/\", got: ");
                }
                Err(string_from_chars(&out))
            }
        },
    }
}

fn parse_mocked_files_field(entries: &Vec<(Yaml, Yaml)>) -> (result: Result<Vec<String>, String>)
    ensures
        match mocked_files_of(entries@) {
            Ok(files) => result matches Ok(f) && strings_view(f@) == files,
            Err(message) => result matches Err(m) && m@ == message,
        },
{
    match expect_field(entries, "mockedFiles") {
        Err(_) => {
            let empty: Vec<String> = Vec::new();
            assert(strings_view(empty@) =~= Seq::<Seq<char>>::empty());
            Ok(empty)
        },
        Ok(value) => match crate::yaml::expect_array(value) {
            Ok(items) => parse_strings(items),
            Err(message) => Err(message),
        },
    }
}

fn test_keys_vec() -> (result: Vec<String>)
    ensures
        names_of(result@) == test_keys(),
{
    let result = vec![
        String::from_str("arguments"),
        String::from_str("env"),
        String::from_str("cwd"),
        String::from_str("mockedFiles"),
        String::from_str("stdout"),
        String::from_str("stderr"),
        String::from_str("exitcode"),
        String::from_str("steps"),
    ];
    assert(names_of(result@) =~= test_keys());
    result
}

impl Test {
    /// The value of the test.
    pub open spec fn view(&self) -> TestView {
        TestView {
            steps: self.steps@.map_values(|s: Step| s.view()),
            ends_with_hole: self.ends_with_hole,
            arguments: strings_view(self.arguments@),
            env: pairs_view(self.env@),
            cwd: optional_string_view(self.cwd),
            mocked_files: strings_view(self.mocked_files@),
            stdout: optional_bytes_view(self.stdout),
            stderr: optional_bytes_view(self.stderr),
            exitcode: self.exitcode,
        }
    }

    /// The test with the given steps and nothing else (see `test_with_steps`).
    pub fn new(steps: Vec<Step>) -> (result: Test)
        ensures
            result.view() == test_with_steps(steps@.map_values(|s: Step| s.view())),
    {
        let mut queue: VecDeque<Step> = VecDeque::new();
        let mut steps = steps;
        let ghost all = steps@;
        while steps.len() > 0
            invariant
                queue@ + steps@ == all,
            decreases steps.len(),
        {
            let ghost before_queue = queue@;
            let ghost before_steps = steps@;
            let step = steps.remove(0);
            queue.push_back(step);
            assert(queue@ + steps@ =~= before_queue + before_steps);
        }
        assert(queue@ =~= all);
        let arguments: Vec<String> = Vec::new();
        let env: Vec<(String, String)> = Vec::new();
        let mocked_files: Vec<String> = Vec::new();
        assert(strings_view(arguments@) =~= Seq::<Seq<char>>::empty());
        assert(strings_view(mocked_files@) =~= Seq::<Seq<char>>::empty());
        assert(pairs_view(env@) =~= Seq::<(Seq<char>, Seq<char>)>::empty());
        Test {
            steps: queue,
            ends_with_hole: false,
            arguments,
            env,
            cwd: None,
            mocked_files,
            stdout: None,
            stderr: None,
            exitcode: None,
        }
    }
}

impl Test {
    /// The test that the fields of a YAML hash describe (see `test_of`).
    pub fn from_object(entries: &Vec<(Yaml, Yaml)>) -> (result: Result<Test, String>)
        ensures
            match test_of(entries@) {
                Ok(view) => result matches Ok(test) && test.view() == view,
                Err(message) => result matches Err(m) && m@ == message,
            },
    {
        let known = test_keys_vec();
        if let Err(message) = check_keys(&known, entries) {
            return Err(message);
        }
        let (steps, ends_with_hole) = match expect_field(entries, "steps") {
            Err(message) => {
                return Err(message);
            },
            Ok(value) => match crate::yaml::expect_array(value) {
                Err(message) => {
                    return Err(message);
                },
                Ok(items) => match parse_steps(items) {
                    Ok(parsed) => parsed,
                    Err(message) => {
                        return Err(message);
                    },
                },
            },
        };
        let arguments = match parse_arguments_field(entries) {
            Ok(arguments) => arguments,
            Err(message) => {
                return Err(message);
            },
        };
        let env = match parse_env_field(entries) {
            Ok(env) => env,
            Err(message) => {
                return Err(message);
            },
        };
        let cwd = match parse_cwd_field(entries) {
            Ok(cwd) => cwd,
            Err(message) => {
                return Err(message);
            },
        };
        let stdout = match bytes_field(entries, "stdout") {
            Ok(stdout) => stdout,
            Err(message) => {
                return Err(message);
            },
        };
        let stderr = match bytes_field(entries, "stderr") {
            Ok(stderr) => stderr,
            Err(message) => {
                return Err(message);
            },
        };
        let exitcode = match integer_field(entries, "exitcode") {
            Ok(exitcode) => exitcode,
            Err(message) => {
                return Err(message);
            },
        };
        let mocked_files = match parse_mocked_files_field(entries) {
            Ok(mocked_files) => mocked_files,
            Err(message) => {
                return Err(message);
            },
        };
        let test = Test {
            steps,
            ends_with_hole,
            arguments,
            env,
            cwd,
            mocked_files,
            stdout,
            stderr,
            exitcode,
        };
        assert(optional_bytes_view(test.stdout) == optional_bytes(entries@, "stdout"@)->Ok_0);
        assert(optional_bytes_view(test.stderr) == optional_bytes(entries@, "stderr"@)->Ok_0);
        Ok(test)
    }
}

/// The tests of a test file, the commands that are run rather than mocked,
/// and the interpreter that runs the tested script, if any.
#[derive(Debug)]
pub struct Tests {
    pub tests: Vec<Test>,
    pub unmocked_commands: Vec<String>,
    pub interpreter: Option<String>,
}

/// The value of a set of tests.
pub struct TestsView {
    pub tests: Seq<TestView>,
    pub unmocked_commands: Seq<Seq<char>>,
    pub interpreter: Option<Seq<char>>,
}

/// The tests that a list of YAML values describes, each a hash; the first
/// error, if any.
pub open spec fn tests_of(items: Seq<Yaml>) -> Result<Seq<TestView>, Seq<char>>
    decreases items.len(),
{
    if items.len() == 0 {
        Ok(seq![])
    } else {
        match tests_of(items.drop_last()) {
            Err(message) => Err(message),
            Ok(tests) => match items.last() {
                Yaml::Hash(entries) => match test_of(entries@) {
                    Err(message) => Err(message),
                    Ok(test) => Ok(tests.push(test)),
                },
                _ => Err(crate::yaml::unexpected_message("object"@, items.last())),
            },
        }
    }
}

proof fn lemma_tests_of_error(items: Seq<Yaml>, i: int, j: int)
    requires
        0 <= i <= j <= items.len(),
        tests_of(items.take(i)) is Err,
    ensures
        tests_of(items.take(j)) == tests_of(items.take(i)),
    decreases j - i,
{
    if j > i {
        lemma_tests_of_error(items, i, j - 1);
        assert(items.take(j).drop_last() =~= items.take(j - 1));
    }
}

/// The field names that a test file given as a hash with a `tests` field
/// may have.
pub open spec fn file_keys() -> Seq<Seq<char>> {
    seq!["tests"@, "unmockedCommands"@, "interpreter"@]
}

/// The commands of the `unmockedCommands` field, an array of strings.
pub open spec fn unmocked_commands_of(entries: Seq<(Yaml, Yaml)>) -> Result<Seq<Seq<char>>, Seq<char>> {
    match field_value(entries, "unmockedCommands"@) {
        None => Ok(seq![]),
        Some(value) => match value {
            Yaml::Array(items) => strings_of(items@),
            _ => Err(crate::yaml::unexpected_message("array"@, value)),
        },
    }
}

/// The message for a hash that has neither a `tests` nor a `steps` field.
pub open spec fn no_tests_message(value: Yaml) -> Seq<char> {
    "expected field \"tests\" or \"steps\", got: "@ + crate::yaml::yaml_debug_text(value)
}

/// The tests that the content of a test file describes: an array of tests;
/// a hash with the field `tests` (and optionally `unmockedCommands` and
/// `interpreter`); or a single test, a hash with the field `steps`.
pub open spec fn tests_from_yaml(value: Yaml) -> Result<TestsView, Seq<char>> {
    match value {
        Yaml::Array(items) => match tests_of(items@) {
            Ok(tests) => Ok(TestsView { tests, unmocked_commands: seq![], interpreter: None }),
            Err(message) => Err(message),
        },
        Yaml::Hash(entries) => match field_value(entries@, "tests"@) {
            Some(tests) => match keys_complaint(file_keys(), entries@) {
                Some(message) => Err(message),
                None => match tests {
                    Yaml::Array(items) => match tests_of(items@) {
                        Err(message) => Err(message),
                        Ok(tests) => match unmocked_commands_of(entries@) {
                            Err(message) => Err(message),
                            Ok(unmocked_commands) => match optional_string(entries@, "interpreter"@) {
                                Err(message) => Err(message),
                                Ok(interpreter) => Ok(TestsView { tests, unmocked_commands, interpreter }),
                            },
                        },
                    },
                    _ => Err(crate::yaml::unexpected_message("array"@, tests)),
                },
            },
            None => match field_value(entries@, "steps"@) {
                Some(_) => match test_of(entries@) {
                    Ok(test) => Ok(TestsView { tests: seq![test], unmocked_commands: seq![], interpreter: None }),
                    Err(message) => Err(message),
                },
                None => Err(no_tests_message(value)),
            },
        },
        _ => Err("expected: array or object, got: "@ + crate::yaml::yaml_debug_text(value)),
    }
}

fn parse_tests(items: &Vec<Yaml>) -> (result: Result<Vec<Test>, String>)
    ensures
        match tests_of(items@) {
            Ok(tests) => result matches Ok(t) && t@.map_values(|x: Test| x.view()) == tests,
            Err(message) => result matches Err(m) && m@ == message,
        },
{
    let mut tests: Vec<Test> = Vec::new();
    let mut i: usize = 0;
    assert(tests@.map_values(|x: Test| x.view()) =~= Seq::<TestView>::empty());
    while i < items.len()
        invariant
            i <= items.len(),
            tests_of(items@.take(i as int)) == Ok::<Seq<TestView>, Seq<char>>(
                tests@.map_values(|x: Test| x.view()),
            ),
        decreases items.len() - i,
    {
        let ghost before = tests@;
        assert(items@.take(i + 1).drop_last() =~= items@.take(i as int));
        assert(items@.take(i + 1).last() == items@[i as int]);
        let parsed = match crate::yaml::expect_object(&items[i]) {
            Ok(entries) => Test::from_object(entries),
            Err(message) => Err(message),
        };
        match parsed {
            Ok(test) => {
                tests.push(test);
                assert(tests@.map_values(|x: Test| x.view()) =~= before.map_values(|x: Test| x.view()).push(
                    test.view(),
                ));
            },
            Err(message) => {
                proof {
                    lemma_tests_of_error(items@, i + 1, items.len() as int);
                }
                assert(items@.take(items.len() as int) =~= items@);
                return Err(message);
            },
        }
        i += 1;
    }
    assert(items@.take(items.len() as int) =~= items@);
    Ok(tests)
}

fn file_keys_vec() -> (result: Vec<String>)
    ensures
        names_of(result@) == file_keys(),
{
    let result = vec![
        String::from_str("tests"),
        String::from_str("unmockedCommands"),
        String::from_str("interpreter"),
    ];
    assert(names_of(result@) =~= file_keys());
    result
}

impl Tests {
    /// The value of the tests.
    pub open spec fn view(&self) -> TestsView {
        TestsView {
            tests: self.tests@.map_values(|t: Test| t.view()),
            unmocked_commands: strings_view(self.unmocked_commands@),
            interpreter: optional_string_view(self.interpreter),
        }
    }

    /// The given tests, with no unmocked commands and no interpreter.
    pub fn new(tests: Vec<Test>) -> (result: Tests)
        ensures
            result.view() == (TestsView {
                tests: tests@.map_values(|t: Test| t.view()),
                unmocked_commands: seq![],
                interpreter: None,
            }),
    {
        let unmocked_commands: Vec<String> = Vec::new();
        assert(strings_view(unmocked_commands@) =~= Seq::<Seq<char>>::empty());
        Tests { tests, unmocked_commands, interpreter: None }
    }

    /// The tests that the content of a test file describes (see
    /// `tests_from_yaml`).
    pub fn parse(value: &Yaml) -> (result: Result<Tests, String>)
        ensures
            match tests_from_yaml(*value) {
                Ok(view) => result matches Ok(tests) && tests.view() == view,
                Err(message) => result matches Err(m) && m@ == message,
            },
    {
        match value {
            Yaml::Array(items) => match parse_tests(items) {
                Ok(tests) => Ok(Tests::new(tests)),
                Err(message) => Err(message),
            },
            Yaml::Hash(entries) => match expect_field(entries, "tests") {
                Ok(tests_value) => {
                    let known = file_keys_vec();
                    if let Err(message) = check_keys(&known, entries) {
                        return Err(message);
                    }
                    let tests = match crate::yaml::expect_array(tests_value) {
                        Err(message) => {
                            return Err(message);
                        },
                        Ok(items) => match parse_tests(items) {
                            Ok(tests) => tests,
                            Err(message) => {
                                return Err(message);
                            },
                        },
                    };
                    let unmocked_commands = match expect_field(entries, "unmockedCommands") {
                        Err(_) => {
                            let empty: Vec<String> = Vec::new();
                            assert(strings_view(empty@) =~= Seq::<Seq<char>>::empty());
                            empty
                        },
                        Ok(value) => match crate::yaml::expect_array(value) {
                            Err(message) => {
                                return Err(message);
                            },
                            Ok(items) => match parse_strings(items) {
                                Ok(strings) => strings,
                                Err(message) => {
                                    return Err(message);
                                },
                            },
                        },
                    };
                    let interpreter = match string_field(entries, "interpreter") {
                        Ok(interpreter) => interpreter,
                        Err(message) => {
                            return Err(message);
                        },
                    };
                    Ok(Tests { tests, unmocked_commands, interpreter })
                },
                Err(_) => match expect_field(entries, "steps") {
                    Ok(_) => match Test::from_object(entries) {
                        Ok(test) => {
                            let tests = vec![test];
                            assert(tests@.map_values(|t: Test| t.view()) =~= seq![test.view()]);
                            Ok(Tests::new(tests))
                        },
                        Err(message) => Err(message),
                    },
                    Err(_) => {
                        let mut out: Vec<char> = Vec::new();
                        push_str(&mut out, "expected field \"tests\" or \"steps\", got: ");
                        let rendered = crate::yaml::debug_yaml(value);
                        push_str(&mut out, rendered.as_str());
                        proof {
                            reveal_strlit("expected field \"tests\" or \"steps\", got: ");
                        }
                        Err(string_from_chars(&out))
                    },
                },
            },
            _ => {
                let mut out: Vec<char> = Vec::new();
                push_str(&mut out, "expected: array or object, got: ");
                let rendered = crate::yaml::debug_yaml(value);
                push_str(&mut out, rendered.as_str());
                proof {
                    reveal_strlit("expected: array or object, got: ");
                }
                Err(string_from_chars(&out))
            },
        }
    }
}

/// The test file of a script: its path with `.test.yaml` appended.
pub open spec fn test_file_of(script: Seq<char>) -> Seq<char> {
    script + ".test.yaml"@
}

/// The path of the test file of a script.
pub fn find_test_file(script: &str) -> (result: String)
    ensures
        result@ == test_file_of(script@),
{
    let mut out: Vec<char> = Vec::new();
    push_str(&mut out, script);
    push_str(&mut out, ".test.yaml");
    string_from_chars(&out)
}

/// The tests of a test file whose YAML documents have been loaded: there
/// has to be exactly one document, and it has to describe tests.
pub open spec fn tests_from_documents(file: Seq<char>, documents: Seq<Yaml>) -> Result<TestsView, Seq<char>> {
    if documents.len() > 1 {
        Err("multiple YAML documents not allowed (in "@ + file + ")"@)
    } else if documents.len() == 0 {
        Err("no YAML documents (in "@ + file + ")"@)
    } else {
        match tests_from_yaml(documents[0]) {
            Ok(tests) => Ok(tests),
            Err(message) => Err("error in "@ + file + ": "@ + message),
        }
    }
}

/// The tests of a test file, given its path and its content.
pub open spec fn tests_from_text(file: Seq<char>, contents: Seq<char>) -> Result<TestsView, Seq<char>> {
    match crate::yaml::yaml_load(contents) {
        Err(message) => Err("invalid YAML in "@ + file + ": "@ + message),
        Ok(documents) => tests_from_documents(file, documents),
    }
}

impl Tests {
    /// The tests of the loaded YAML documents of the test file `file` (see
    /// `tests_from_documents`).
    pub fn from_documents(file: &str, documents: Vec<Yaml>) -> (result: Result<Tests, String>)
        ensures
            match tests_from_documents(file@, documents@) {
                Ok(view) => result matches Ok(tests) && tests.view() == view,
                Err(message) => result matches Err(m) && m@ == message,
            },
    {
        let mut out: Vec<char> = Vec::new();
        if documents.len() > 1 {
            push_str(&mut out, "multiple YAML documents not allowed (in ");
            push_str(&mut out, file);
            push_str(&mut out, ")");
            proof {
                reveal_strlit("multiple YAML documents not allowed (in ");
                reveal_strlit(")");
            }
            return Err(string_from_chars(&out));
        }
        if documents.len() == 0 {
            push_str(&mut out, "no YAML documents (in ");
            push_str(&mut out, file);
            push_str(&mut out, ")");
            proof {
                reveal_strlit("no YAML documents (in ");
                reveal_strlit(")");
            }
            return Err(string_from_chars(&out));
        }
        match Tests::parse(&documents[0]) {
            Ok(tests) => Ok(tests),
            Err(message) => {
                push_str(&mut out, "error in ");
                push_str(&mut out, file);
                push_str(&mut out, ": ");
                push_str(&mut out, message.as_str());
                proof {
                    reveal_strlit("error in ");
                    reveal_strlit(": ");
                }
                Err(string_from_chars(&out))
            },
        }
    }

    /// The tests of the test file `file`, given its content (see
    /// `tests_from_text`).
    pub fn load_from_text(file: &str, contents: &str) -> (result: Result<Tests, String>)
        ensures
            match tests_from_text(file@, contents@) {
                Ok(view) => result matches Ok(tests) && tests.view() == view,
                Err(message) => result matches Err(m) && m@ == message,
            },
    {
        match crate::yaml::load_yaml(contents) {
            Ok(documents) => Tests::from_documents(file, documents),
            Err(message) => {
                let mut out: Vec<char> = Vec::new();
                push_str(&mut out, "invalid YAML in ");
                push_str(&mut out, file);
                push_str(&mut out, ": ");
                push_str(&mut out, message.as_str());
                proof {
                    reveal_strlit("invalid YAML in ");
                    reveal_strlit(": ");
                }
                Err(string_from_chars(&out))
            },
        }
    }
}

impl Clone for Step {
    /// A copy of the step.
    fn clone(&self) -> (result: Step)
        ensures
            result.view() == self.view(),
    {
        let command_matcher = self.command_matcher.clone();
        Step { command_matcher, stdout: self.stdout.clone(), exitcode: self.exitcode }
    }
}

/// Copies some strings.
pub fn clone_strings(strings: &Vec<String>) -> (result: Vec<String>)
    ensures
        strings_view(result@) == strings_view(strings@),
{
    let mut result: Vec<String> = Vec::new();
    let mut i: usize = 0;
    while i < strings.len()
        invariant
            i <= strings.len(),
            strings_view(result@) == strings_view(strings@.take(i as int)),
        decreases strings.len() - i,
    {
        let ghost before = result@;
        let copy = strings[i].clone();
        result.push(copy);
        assert(strings_view(result@) =~= strings_view(before).push(strings@[i as int]@));
        assert(strings_view(strings@.take(i + 1)) =~= strings_view(strings@.take(i as int)).push(strings@[i as int]@));
        i += 1;
    }
    assert(strings@.take(strings.len() as int) =~= strings@);
    result
}

fn clone_pairs(pairs: &Vec<(String, String)>) -> (result: Vec<(String, String)>)
    ensures
        pairs_view(result@) == pairs_view(pairs@),
{
    let mut result: Vec<(String, String)> = Vec::new();
    let mut i: usize = 0;
    while i < pairs.len()
        invariant
            i <= pairs.len(),
            pairs_view(result@) == pairs_view(pairs@.take(i as int)),
        decreases pairs.len() - i,
    {
        let ghost before = result@;
        let (key, value) = &pairs[i];
        result.push((key.clone(), value.clone()));
        assert(pairs_view(result@) =~= pairs_view(before).push((pairs@[i as int].0@, pairs@[i as int].1@)));
        assert(pairs_view(pairs@.take(i + 1)) =~= pairs_view(pairs@.take(i as int)).push(
            (pairs@[i as int].0@, pairs@[i as int].1@),
        ));
        i += 1;
    }
    assert(pairs@.take(pairs.len() as int) =~= pairs@);
    result
}

fn clone_steps(steps: &VecDeque<Step>) -> (result: VecDeque<Step>)
    ensures
        result@.map_values(|s: Step| s.view()) == steps@.map_values(|s: Step| s.view()),
{
    let mut result: VecDeque<Step> = VecDeque::new();
    let mut i: usize = 0;
    while i < steps.len()
        invariant
            i <= steps@.len(),
            result@.map_values(|s: Step| s.view()) == steps@.take(i as int).map_values(|s: Step| s.view()),
        decreases steps@.len() - i,
    {
        let ghost before = result@;
        let step = steps[i].clone();
        result.push_back(step);
        assert(result@.map_values(|s: Step| s.view()) =~= before.map_values(|s: Step| s.view()).push(
            steps@[i as int].view(),
        ));
        assert(steps@.take(i + 1).map_values(|s: Step| s.view()) =~= steps@.take(i as int).map_values(
            |s: Step| s.view(),
        ).push(steps@[i as int].view()));
        i += 1;
    }
    assert(steps@.take(steps@.len() as int) =~= steps@);
    result
}

impl Clone for Test {
    /// A copy of the test.
    fn clone(&self) -> (result: Test)
        ensures
            result.view() == self.view(),
    {
        Test {
            steps: clone_steps(&self.steps),
            ends_with_hole: self.ends_with_hole,
            arguments: clone_strings(&self.arguments),
            env: clone_pairs(&self.env),
            cwd: self.cwd.clone(),
            mocked_files: clone_strings(&self.mocked_files),
            stdout: self.stdout.clone(),
            stderr: self.stderr.clone(),
            exitcode: self.exitcode,
        }
    }
}


/// The shorthand for a step: a command line alone means the same as a hash
/// with that command line in its `command` field.
pub proof fn lemma_step_shorthand(line: String, key: String, hash: Vec<(Yaml, Yaml)>)
    requires
        key@ == "command"@,
        hash@ == seq![(Yaml::String(key), Yaml::String(line))],
    ensures
        step_of(Yaml::String(line)) == step_of(Yaml::Hash(hash)),
{
    reveal_strlit("command");
    reveal_strlit("regex");
    reveal_strlit("stdout");
    reveal_strlit("exitcode");
    let entries = hash@;
    assert(step_keys()[0] == key@);
    assert(keys_complaint(step_keys(), entries.drop_first()) is None);
    assert(keys_complaint(step_keys(), entries) is None);
    assert(field_value(entries, "command"@) == Some(Yaml::String(line)));
    assert(field_value(entries.drop_first(), "stdout"@) is None);
    assert(field_value(entries, "stdout"@) is None);
    assert(field_value(entries.drop_first(), "exitcode"@) is None);
    assert(!crate::yaml::is_key(entries[0].0, "exitcode"@));
    assert(field_value(entries, "exitcode"@) is None);
}

/// Tests given as an array mean the same as the same array in the `tests`
/// field of a hash.
pub proof fn lemma_tests_field(items: Vec<Yaml>, key: String, hash: Vec<(Yaml, Yaml)>)
    requires
        key@ == "tests"@,
        hash@ == seq![(Yaml::String(key), Yaml::Array(items))],
    ensures
        tests_from_yaml(Yaml::Array(items)) == tests_from_yaml(Yaml::Hash(hash)),
{
    reveal_strlit("tests");
    reveal_strlit("unmockedCommands");
    reveal_strlit("interpreter");
    let entries = hash@;
    assert(file_keys()[0] == key@);
    assert(keys_complaint(file_keys(), entries.drop_first()) is None);
    assert(keys_complaint(file_keys(), entries) is None);
    assert(field_value(entries, "tests"@) == Some(Yaml::Array(items)));
    assert(field_value(entries.drop_first(), "unmockedCommands"@) is None);
    assert(field_value(entries, "unmockedCommands"@) is None);
    assert(field_value(entries.drop_first(), "interpreter"@) is None);
    assert(!crate::yaml::is_key(entries[0].0, "interpreter"@));
    assert(field_value(entries, "interpreter"@) is None);
}

/// A single test, a hash with a `steps` field and no `tests` field, means
/// the same as an array that holds only that test.
pub proof fn lemma_single_test(entries: Vec<(Yaml, Yaml)>, items: Vec<Yaml>)
    requires
        field_value(entries@, "tests"@) is None,
        field_value(entries@, "steps"@) is Some,
        items@ == seq![Yaml::Hash(entries)],
    ensures
        tests_from_yaml(Yaml::Hash(entries)) == tests_from_yaml(Yaml::Array(items)),
{
    assert(items@.drop_last() =~= Seq::<Yaml>::empty());
    assert(tests_of(items@.drop_last()) == Ok::<Seq<TestView>, Seq<char>>(seq![]));
    if let Ok(test) = test_of(entries@) {
        assert(seq![test] =~= Seq::<TestView>::empty().push(test));
    }
}

} // verus!
