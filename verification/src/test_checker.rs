use vstd::prelude::*;

use crate::checker_result::{step_error_message, CheckerResult};
use crate::command::{format_command, Command, CommandView};
use crate::command_matcher::{expected_executable, matcher_accepts, matcher_shown, CommandMatcher};
use crate::executable_path::{compare_executables, contains_path, same_path, shown_form};
use crate::stdio::{stream_name, StreamType};
use crate::test_spec::{matcher_view, Step, Test, TestView};
use crate::text::{
    chars_of, debug_quoted, debug_string, decimal, push_chars, push_decimal_i64, push_str,
    string_from_chars, utf8_lossy, utf8_lossy_string,
};
use crate::tracee_memory::{string_to_words, string_words, too_long_message};

verus! {

/// What the mock of a command writes to stdout and exits with.
#[derive(Debug)]
pub struct MockConfig {
    pub stdout: Vec<u8>,
    pub exitcode: i32,
}

/// The error that a result holds, if any.
pub open spec fn error_of(result: CheckerResult) -> Option<Seq<char>> {
    match result {
        CheckerResult::Pass => None,
        CheckerResult::Failure(message) => Some(message@),
    }
}

/// The error after `message` is registered: the first error is kept.
pub open spec fn first_error(before: Option<Seq<char>>, message: Seq<char>) -> Option<Seq<char>> {
    match before {
        Some(error) => Some(error),
        None => Some(message),
    }
}

/// Whether `line` is the command line of `command` with its executable in
/// a form in which it may be shown (see `canonicalize`).
pub open spec fn shown_command(command: CommandView, line: Seq<char>) -> bool {
    exists|shown: Seq<char>|
        shown_form(Seq::empty(), command.executable, shown) && line == #[trigger] format_command(
            shown,
            command.arguments,
        )
}

/// Whether `line` is how a matcher may be shown in a report.
pub open spec fn shown_matcher(matcher: &CommandMatcher, line: Seq<char>) -> bool {
    exists|shown: Seq<char>|
        shown_form(Seq::empty(), expected_executable(matcher), shown) && line == #[trigger] matcher_shown(
            matcher,
            shown,
        )
}

/// Whether `answer` is what a matcher answers for a received command, for
/// some forms in which the two executables may be shown.
pub open spec fn accepts(matcher: &CommandMatcher, received: CommandView, answer: bool) -> bool {
    exists|ca: Seq<char>, cb: Seq<char>|
        #![trigger shown_form(Seq::empty(), expected_executable(matcher), ca), shown_form(Seq::empty(), received.executable, cb)]
        shown_form(Seq::empty(), expected_executable(matcher), ca) && shown_form(
            Seq::empty(),
            received.executable,
            cb,
        ) && answer == matcher_accepts(matcher, received, ca, cb)
}

/// Whether `answer` is what comparing two executables gives, for some forms
/// in which they may be shown.
pub open spec fn same_executable(a: Seq<char>, b: Seq<char>, answer: bool) -> bool {
    exists|ca: Seq<char>, cb: Seq<char>|
        #![trigger shown_form(Seq::empty(), a, ca), shown_form(Seq::empty(), b, cb)]
        shown_form(Seq::empty(), a, ca) && shown_form(Seq::empty(), b, cb) && answer == same_path(ca, cb)
}

/// Whether checking a received command against a step's matcher turns the
/// result `before` into `after`: unchanged when the matcher accepts the
/// command, else with the step error registered.
pub open spec fn step_checked(
    before: CheckerResult,
    matcher: &CommandMatcher,
    received: CommandView,
    after: CheckerResult,
) -> bool {
    ||| accepts(matcher, received, true) && after == before
    ||| accepts(matcher, received, false) && exists|expected: Seq<char>, line: Seq<char>|
        #![trigger shown_matcher(matcher, expected), shown_command(received, line)]
        shown_matcher(matcher, expected) && shown_command(received, line) && error_of(after)
            == first_error(error_of(before), step_error_message(expected, line))
}

/// The test with other steps.
pub open spec fn with_steps(test: TestView, steps: Seq<crate::test_spec::StepView>) -> TestView {
    TestView { steps, ..test }
}

/// The word that stands in the report for the end of the script where a
/// command was expected.
pub open spec fn script_termination() -> Seq<char> {
    "<script termination>"@
}

/// The word that stands in the report where the script ended but a step
/// was still expected.
pub open spec fn script_terminated() -> Seq<char> {
    "<script terminated>"@
}

/// Whether the checker `after` is the checker `before` once it has checked
/// a received command against the next step and answered with `config`:
/// the step is taken off, its mock's output and exit code are answered,
/// and a mismatch is registered. With no step left, the command is
/// registered as unexpected, and its mock writes nothing and exits with 0.
pub open spec fn stepped(before: TestChecker, after: TestChecker, received: CommandView, config: MockConfig) -> bool {
    &&& after.unmocked_commands == before.unmocked_commands
    &&& if before.test.view().steps.len() > 0 {
        let step = before.test.steps@[0];
        &&& after.test.view() == with_steps(before.test.view(), before.test.view().steps.drop_first())
        &&& config.stdout@ == step.stdout@
        &&& config.exitcode == step.exitcode
        &&& step_checked(before.result, &step.command_matcher, received, after.result)
    } else {
        &&& after.test.view() == before.test.view()
        &&& config.stdout@.len() == 0
        &&& config.exitcode == 0
        &&& exists|line: Seq<char>|
            shown_command(received, line) && error_of(after.result) == first_error(
                error_of(before.result),
                #[trigger] step_error_message(script_termination(), line),
            )
    }
}

/// The reply to a `getcwd` call: the words to write into the buffer and
/// the value to return.
#[derive(Debug)]
pub struct CwdReply {
    pub words: Vec<u64>,
    pub return_value: u64,
}

/// The file type bits of a directory.
/// Returns `libc::S_IFDIR`, which the source of `libc` defines as 0o40000
/// on Linux.
#[verifier::external_body]
fn directory_mode() -> (mode: u32)
    ensures
        mode == 0o40000,
{
    libc::S_IFDIR
}

/// The file type bits of a regular file.
/// Returns `libc::S_IFREG`, which the source of `libc` defines as 0o100000
/// on Linux.
#[verifier::external_body]
fn regular_file_mode() -> (mode: u32)
    ensures
        mode == 0o100000,
{
    libc::S_IFREG
}

/// The file type that a mocked file is given: a directory when its path
/// ends with `/`, else a regular file.
pub open spec fn mocked_mode(path: Seq<char>) -> u32 {
    if path.len() > 0 && path.last() == '/' {
        0o40000
    } else {
        0o100000
    }
}

/// The tag of an exit code in a report.
pub open spec fn exitcode_tag(exitcode: int) -> Seq<char> {
    "<exitcode "@ + decimal(exitcode) + ">"@
}

/// The report of an output stream that is not what the test expects.
pub open spec fn output_message(stream: StreamType, expected: Seq<u8>, received: Seq<u8>) -> Seq<char> {
    "  expected output to "@ + stream_name(stream) + ": "@ + debug_quoted(utf8_lossy(expected))
        + "\n  received output to "@ + stream_name(stream) + ": "@ + debug_quoted(utf8_lossy(received))
        + "\n"@
}

/// The error after the captured output of a stream is compared with what
/// the test expects of it.
pub open spec fn output_checked(
    before: Option<Seq<char>>,
    stream: StreamType,
    expected: Option<Seq<u8>>,
    captured: Seq<u8>,
) -> Option<Seq<char>> {
    match expected {
        None => before,
        Some(expected) => if captured == expected {
            before
        } else {
            first_error(before, output_message(stream, expected, captured))
        },
    }
}

/// The exit code that a test expects: 0 unless it says otherwise.
pub open spec fn expected_exitcode(expected: Option<i32>) -> i32 {
    match expected {
        Some(n) => n,
        None => 0,
    }
}

/// The error after the exit code of the script is compared with the
/// expected one, 0 unless the test says otherwise.
pub open spec fn exitcode_checked(before: Option<Seq<char>>, expected: Option<i32>, exitcode: i32) -> Option<
    Seq<char>,
> {
    let expected = match expected {
        Some(n) => n,
        None => 0,
    };
    if exitcode == expected {
        before
    } else {
        first_error(before, step_error_message(exitcode_tag(expected as int), exitcode_tag(exitcode as int)))
    }
}

/// Whether `after` is the error once it has been checked that no step is
/// left: with a step left, its mismatch with the end of the script is
/// registered.
pub open spec fn remaining_checked(before: Option<Seq<char>>, test: Test, after: Option<Seq<char>>) -> bool {
    if test.steps@.len() > 0 {
        exists|expected: Seq<char>|
            shown_matcher(&test.steps@[0].command_matcher, expected) && after == first_error(
                before,
                #[trigger] step_error_message(expected, script_terminated()),
            )
    } else {
        after == before
    }
}

/// Checks a script run against a test, step by step, as the script runs.
#[derive(Debug)]
pub struct TestChecker {
    pub test: Test,
    pub unmocked_commands: Vec<String>,
    pub result: CheckerResult,
}

impl TestChecker {
    /// A checker for a test that has not seen anything yet.
    pub fn new(test: Test, unmocked_commands: &Vec<String>) -> (result: TestChecker)
        ensures
            result.test == test,
            result.unmocked_commands@ == unmocked_commands@,
            result.result == CheckerResult::Pass,
    {
        let mut copied: Vec<String> = Vec::new();
        let mut i: usize = 0;
        while i < unmocked_commands.len()
            invariant
                i <= unmocked_commands.len(),
                copied@ == unmocked_commands@.take(i as int),
            decreases unmocked_commands.len() - i,
        {
            copied.push(unmocked_commands[i].clone());
            assert(copied@ =~= unmocked_commands@.take(i + 1));
            i += 1;
        }
        assert(copied@ =~= unmocked_commands@);
        TestChecker { test, unmocked_commands: copied, result: CheckerResult::Pass }
    }

    /// The mock of a command that was not expected: it writes nothing and
    /// exits with 0, so that the script goes on.
    pub fn allow_failing_scripts_to_continue() -> (result: MockConfig)
        ensures
            result.stdout@.len() == 0,
            result.exitcode == 0,
    {
        MockConfig { stdout: Vec::new(), exitcode: 0 }
    }

    /// Checks a received command against the next step (see `stepped`).
    pub fn handle_step(&mut self, received: Command) -> (result: MockConfig)
        ensures
            stepped(*old(self), *final(self), received.view(), result),
    {
        let ghost before = *self;
        match self.test.steps.pop_front() {
            Some(next_step) => {
                assert(self.test.steps@.map_values(|s: Step| s.view()) =~= before.test.steps@.map_values(
                    |s: Step| s.view(),
                ).drop_first());
                assert(self.test.view() =~= with_steps(before.test.view(), before.test.view().steps.drop_first()));
                let Step { command_matcher, stdout, exitcode } = next_step;
                let matched = command_matcher.matches(&received);
                proof {
                    let (ca, cb) = choose|ca: Seq<char>, cb: Seq<char>|
                        shown_form(Seq::empty(), expected_executable(&command_matcher), ca) && shown_form(
                            Seq::empty(),
                            received.executable@,
                            cb,
                        ) && matched == matcher_accepts(&command_matcher, received.view(), ca, cb);
                    assert(shown_form(Seq::empty(), received.view().executable, cb));
                    assert(accepts(&command_matcher, received.view(), matched));
                }
                if !matched {
                    let expected = command_matcher.format();
                    let line = received.format();
                    self.result.register_step_error(expected.as_str(), line.as_str());
                    assert(accepts(&command_matcher, received.view(), false));
                    assert(shown_matcher(&command_matcher, expected@));
                    assert(shown_command(received.view(), line@));
                } else {
                    assert(accepts(&command_matcher, received.view(), true));
                }
                MockConfig { stdout, exitcode }
            },
            None => {
                let line = received.format();
                self.result.register_step_error("<script termination>", line.as_str());
                TestChecker::allow_failing_scripts_to_continue()
            },
        }
    }

    /// Handles a script that is about to run a command: an unmocked command
    /// runs as it is (`None`); any other is checked against the next step,
    /// and its mock is answered (see `stepped`).
    pub fn handle_execve_enter(&mut self, executable: String, arguments: Vec<String>) -> (result: Option<
        MockConfig,
    >)
        ensures
            match result {
                None => (exists|i: int|
                    0 <= i < old(self).unmocked_commands.len() && #[trigger] same_executable(
                        old(self).unmocked_commands@[i]@,
                        executable@,
                        true,
                    )) && *final(self) == *old(self),
                Some(config) => (forall|i: int|
                    0 <= i < old(self).unmocked_commands.len() ==> #[trigger] same_executable(
                        old(self).unmocked_commands@[i]@,
                        executable@,
                        false,
                    )) && stepped(
                    *old(self),
                    *final(self),
                    (Command { executable, arguments }).view(),
                    config,
                ),
            },
    {
        let no_mocks: Vec<String> = Vec::new();
        assert(no_mocks@ == Seq::<String>::empty());
        let mut i: usize = 0;
        while i < self.unmocked_commands.len()
            invariant
                i <= self.unmocked_commands.len(),
                no_mocks@ == Seq::<String>::empty(),
                forall|j: int|
                    0 <= j < i ==> #[trigger] same_executable(self.unmocked_commands@[j]@, executable@, false),
            decreases self.unmocked_commands.len() - i,
        {
            if compare_executables(&no_mocks, self.unmocked_commands[i].as_str(), executable.as_str()) {
                assert(same_executable(self.unmocked_commands@[i as int]@, executable@, true));
                return None;
            }
            assert(same_executable(self.unmocked_commands@[i as int]@, executable@, false));
            i += 1;
        }
        Some(self.handle_step(Command { executable, arguments }))
    }

    /// The reply to a `getcwd` call that may write `max_size` bytes: with a
    /// working directory in the test, its bytes and a NUL byte, and their
    /// length as the return value; nothing without one.
    pub fn handle_getcwd_exit(&self, max_size: u64) -> (result: Result<Option<CwdReply>, String>)
        ensures
            match self.test.cwd {
                None => result matches Ok(None),
                Some(cwd) => {
                    let bytes = vstd::utf8::encode_utf8(cwd@);
                    if bytes.len() >= max_size {
                        result matches Err(m) && m@ == too_long_message()
                    } else {
                        result matches Ok(Some(reply)) && reply.words@ == string_words(bytes)
                            && reply.return_value == bytes.len() + 1
                    }
                },
            },
    {
        match &self.test.cwd {
            None => Ok(None),
            Some(cwd) => {
                let bytes = crate::text::str_bytes(cwd.as_str());
                match string_to_words(&bytes, max_size) {
                    Err(message) => Err(message),
                    Ok(words) => {
                        let return_value = bytes.len() as u64 + 1;
                        Ok(Some(CwdReply { words, return_value }))
                    },
                }
            },
        }
    }

    /// The file type to report for a `stat` of `filename`: for a mocked
    /// file, a directory when the name ends with `/`, else a regular file;
    /// nothing for a file that is not mocked.
    pub fn handle_stat_exit(&self, filename: &str) -> (result: Option<u32>)
        ensures
            result is Some <==> exists|i: int|
                0 <= i < self.test.mocked_files.len() && same_path(#[trigger] self.test.mocked_files@[i]@, filename@),
            result matches Some(mode) ==> mode == mocked_mode(filename@),
    {
        if contains_path(&self.test.mocked_files, filename) {
            let chars = chars_of(filename);
            if chars.len() > 0 && chars[chars.len() - 1] == '/' {
                Some(directory_mode())
            } else {
                Some(regular_file_mode())
            }
        } else {
            None
        }
    }

    /// Compares the captured output of a stream with what the test expects
    /// of it, and registers a mismatch.
    pub fn check_expected_output_stream(&mut self, stream: StreamType, captured: &Vec<u8>, expected: &Vec<u8>)
        ensures
            final(self).test == old(self).test,
            final(self).unmocked_commands == old(self).unmocked_commands,
            error_of(final(self).result) == output_checked(
                error_of(old(self).result),
                stream,
                Some(expected@),
                captured@,
            ),
    {
        if !bytes_equal(captured, expected) {
            let name = stream.name();
            let mut out: Vec<char> = Vec::new();
            push_str(&mut out, "  expected output to ");
            push_str(&mut out, name.as_str());
            push_str(&mut out, ": ");
            let expected_text = utf8_lossy_string(expected);
            let quoted = debug_string(expected_text.as_str());
            push_str(&mut out, quoted.as_str());
            push_str(&mut out, "\n  received output to ");
            push_str(&mut out, name.as_str());
            push_str(&mut out, ": ");
            let received_text = utf8_lossy_string(captured);
            let quoted = debug_string(received_text.as_str());
            push_str(&mut out, quoted.as_str());
            push_str(&mut out, "\n");
            proof {
                reveal_strlit("  expected output to ");
                reveal_strlit(": ");
                reveal_strlit("\n  received output to ");
                reveal_strlit("\n");
            }
            self.result.register_error(string_from_chars(&out));
        }
    }

    /// The result of the test once the script has ended with `exitcode`,
    /// given the captured output of the streams that the test expects: a
    /// step still expected, a different exit code and different output are
    /// registered, in this order.
    pub fn handle_end(self, exitcode: i32, stdout: Option<Vec<u8>>, stderr: Option<Vec<u8>>) -> (result:
        CheckerResult)
        requires
            self.test.stdout is Some ==> stdout is Some,
            self.test.stderr is Some ==> stderr is Some,
        ensures
            exists|after_steps: Option<Seq<char>>|
                #[trigger] remaining_checked(error_of(self.result), self.test, after_steps) && error_of(result)
                    == output_checked(
                    output_checked(
                        exitcode_checked(after_steps, self.test.exitcode, exitcode),
                        StreamType::Stdout,
                        crate::test_spec::optional_bytes_view(self.test.stdout),
                        match stdout {
                            Some(b) => b@,
                            None => Seq::empty(),
                        },
                    ),
                    StreamType::Stderr,
                    crate::test_spec::optional_bytes_view(self.test.stderr),
                    match stderr {
                        Some(b) => b@,
                        None => Seq::empty(),
                    },
                ),
            result is Pass <==> ({
                &&& self.result is Pass
                &&& self.test.steps@.len() == 0
                &&& exitcode == expected_exitcode(self.test.exitcode)
                &&& (self.test.stdout matches Some(e) ==> (stdout matches Some(s) && s@ == e@))
                &&& (self.test.stderr matches Some(e) ==> (stderr matches Some(s) && s@ == e@))
            }),
    {
        let ghost original = self;
        let mut checker = self;
        if checker.test.steps.len() > 0 {
            let expected = checker.test.steps[0].command_matcher.format();
            checker.result.register_step_error(expected.as_str(), "<script terminated>");
            assert(shown_matcher(&original.test.steps@[0].command_matcher, expected@));
            assert(error_of(checker.result) == first_error(
                error_of(original.result),
                step_error_message(expected@, script_terminated()),
            ));
        }
        let ghost after_steps = error_of(checker.result);
        assert(remaining_checked(error_of(original.result), original.test, after_steps));
        let expected_exitcode = match checker.test.exitcode {
            Some(n) => n,
            None => 0,
        };
        if exitcode != expected_exitcode {
            let expected_tag = exitcode_tag_string(expected_exitcode);
            let received_tag = exitcode_tag_string(exitcode);
            checker.result.register_step_error(expected_tag.as_str(), received_tag.as_str());
        }
        assert(error_of(checker.result) == exitcode_checked(after_steps, original.test.exitcode, exitcode));
        let expected_stdout = checker.test.stdout.clone();
        if let Some(expected) = expected_stdout {
            let captured = stdout.unwrap();
            checker.check_expected_output_stream(StreamType::Stdout, &captured, &expected);
        }
        let expected_stderr = checker.test.stderr.clone();
        if let Some(expected) = expected_stderr {
            let captured = stderr.unwrap();
            checker.check_expected_output_stream(StreamType::Stderr, &captured, &expected);
        }
        checker.result
    }
}

/// The tag of an exit code in a report (see `exitcode_tag`).
fn exitcode_tag_string(exitcode: i32) -> (result: String)
    ensures
        result@ == exitcode_tag(exitcode as int),
{
    let mut out: Vec<char> = Vec::new();
    push_str(&mut out, "<exitcode ");
    push_decimal_i64(&mut out, exitcode as i64);
    push_str(&mut out, ">");
    proof {
        reveal_strlit("<exitcode ");
        reveal_strlit(">");
    }
    string_from_chars(&out)
}

/// Whether two byte strings are equal.
pub fn bytes_equal(a: &Vec<u8>, b: &Vec<u8>) -> (result: bool)
    ensures
        result == (a@ == b@),
{
    if a.len() != b.len() {
        return false;
    }
    let mut i: usize = 0;
    while i < a.len()
        invariant
            a.len() == b.len(),
            i <= a.len(),
            forall|j: int| 0 <= j < i ==> a@[j] == b@[j],
        decreases a.len() - i,
    {
        if a[i] != b[i] {
            return false;
        }
        i += 1;
    }
    assert(a@ =~= b@);
    true
}


/// Whether a matcher accepts a received command whatever forms the lookups
/// in `PATH` give the two executables.
pub open spec fn surely_accepts(matcher: &CommandMatcher, received: CommandView) -> bool {
    accepts(matcher, received, true) && !accepts(matcher, received, false)
}

/// Whether a matcher rejects a received command whatever forms the lookups
/// in `PATH` give the two executables.
pub open spec fn surely_rejects(matcher: &CommandMatcher, received: CommandView) -> bool {
    accepts(matcher, received, false) && !accepts(matcher, received, true)
}

/// Whether the checker went from `checkers[i]` to `checkers[i + 1]` by
/// checking the command `received[i]` and answering `configs[i]`.
pub open spec fn turn(checkers: Seq<TestChecker>, received: Seq<CommandView>, configs: Seq<MockConfig>, i: int) -> bool {
    stepped(checkers[i], checkers[i + 1], received[i], configs[i])
}

/// Whether `checkers` are the states of a checker that checked the commands
/// `received`, one after the other, and answered `configs`.
pub open spec fn checked_in_turn(checkers: Seq<TestChecker>, received: Seq<CommandView>, configs: Seq<MockConfig>) -> bool {
    &&& checkers.len() == received.len() + 1
    &&& configs.len() == received.len()
    &&& forall|i: int| 0 <= i < received.len() ==> #[trigger] turn(checkers, received, configs, i)
}

/// Matchers with the same value answer alike.
proof fn lemma_accepts_by_view(m1: &CommandMatcher, m2: &CommandMatcher, received: CommandView, answer: bool)
    requires
        matcher_view(m1) == matcher_view(m2),
    ensures
        accepts(m1, received, answer) == accepts(m2, received, answer),
{
    assert(expected_executable(m1) == expected_executable(m2));
    assert forall|ca: Seq<char>, cb: Seq<char>|
        matcher_accepts(m1, received, ca, cb) == matcher_accepts(m2, received, ca, cb) by {}
    if accepts(m1, received, answer) {
        let (ca, cb) = choose|ca: Seq<char>, cb: Seq<char>|
            shown_form(Seq::empty(), expected_executable(m1), ca) && shown_form(
                Seq::empty(),
                received.executable,
                cb,
            ) && answer == matcher_accepts(m1, received, ca, cb);
        assert(shown_form(Seq::empty(), expected_executable(m2), ca));
    }
    if accepts(m2, received, answer) {
        let (ca, cb) = choose|ca: Seq<char>, cb: Seq<char>|
            shown_form(Seq::empty(), expected_executable(m2), ca) && shown_form(
                Seq::empty(),
                received.executable,
                cb,
            ) && answer == matcher_accepts(m2, received, ca, cb);
        assert(shown_form(Seq::empty(), expected_executable(m1), ca));
    }
}

/// The first `k` turns of a conforming run: no error, the steps taken off
/// one by one, and each command answered with the mock of its step.
proof fn lemma_conforming_prefix(
    checkers: Seq<TestChecker>,
    received: Seq<CommandView>,
    configs: Seq<MockConfig>,
    k: int,
)
    requires
        checked_in_turn(checkers, received, configs),
        checkers[0].result is Pass,
        checkers[0].test.view().steps.len() == received.len(),
        forall|i: int|
            0 <= i < received.len() ==> #[trigger] surely_accepts(
                &checkers[0].test.steps@[i].command_matcher,
                received[i],
            ),
        0 <= k <= received.len(),
    ensures
        checkers[k].result is Pass,
        checkers[k].test.view().steps == checkers[0].test.view().steps.skip(k),
        forall|j: int|
            0 <= j < k ==> configs[j].stdout@ == (#[trigger] checkers[0].test.view().steps[j]).stdout
                && configs[j].exitcode == checkers[0].test.view().steps[j].exitcode,
    decreases k,
{
    if k == 0 {
        assert(checkers[0].test.view().steps.skip(0) =~= checkers[0].test.view().steps);
    } else {
        let i = k - 1;
        lemma_conforming_prefix(checkers, received, configs, i);
        assert(turn(checkers, received, configs, i));
        let before = checkers[i];
        let first = checkers[0];
        let step = before.test.steps@[0];
        assert(before.test.view().steps[0] == step.view());
        assert(first.test.view().steps[i] == first.test.steps@[i].view());
        lemma_accepts_by_view(&step.command_matcher, &first.test.steps@[i].command_matcher, received[i], true);
        lemma_accepts_by_view(&step.command_matcher, &first.test.steps@[i].command_matcher, received[i], false);
        assert(surely_accepts(&first.test.steps@[i].command_matcher, received[i]));
        assert(checkers[k].test.view().steps =~= first.test.view().steps.skip(k));
    }
}

/// A script that runs, one after the other, as many commands as the test
/// has steps, each accepted by its step whatever forms the lookups in
/// `PATH` give the executables, leaves the checker with no step left and no
/// error; each command is answered with the mock output and exit code of
/// its step.
pub proof fn lemma_conforming_commands_pass(
    checkers: Seq<TestChecker>,
    received: Seq<CommandView>,
    configs: Seq<MockConfig>,
)
    requires
        checked_in_turn(checkers, received, configs),
        checkers[0].result is Pass,
        checkers[0].test.view().steps.len() == received.len(),
        forall|i: int|
            0 <= i < received.len() ==> #[trigger] surely_accepts(
                &checkers[0].test.steps@[i].command_matcher,
                received[i],
            ),
    ensures
        checkers.last().result is Pass,
        checkers.last().test.view().steps.len() == 0,
        forall|j: int|
            0 <= j < received.len() ==> configs[j].stdout@ == (#[trigger] checkers[0].test.view().steps[j]).stdout
                && configs[j].exitcode == checkers[0].test.view().steps[j].exitcode,
{
    lemma_conforming_prefix(checkers, received, configs, received.len() as int);
}

/// Once a check has failed, the commands that follow leave its error as it
/// is: the report shows the first mismatch.
pub proof fn lemma_first_error_kept(
    checkers: Seq<TestChecker>,
    received: Seq<CommandView>,
    configs: Seq<MockConfig>,
    i: int,
    j: int,
)
    requires
        checked_in_turn(checkers, received, configs),
        0 <= i <= j < checkers.len(),
        checkers[i].result is Failure,
    ensures
        checkers[j].result is Failure,
        error_of(checkers[j].result) == error_of(checkers[i].result),
    decreases j - i,
{
    if i < j {
        assert(turn(checkers, received, configs, i));
        lemma_first_error_kept(checkers, received, configs, i + 1, j);
    }
}

/// A command that the step due rejects whatever forms the lookups in
/// `PATH` give the executables, or that comes when no step is left, fails
/// the test, and the failure stays.
pub proof fn lemma_mismatch_fails(
    checkers: Seq<TestChecker>,
    received: Seq<CommandView>,
    configs: Seq<MockConfig>,
    i: int,
)
    requires
        checked_in_turn(checkers, received, configs),
        0 <= i < received.len(),
        checkers[i].test.view().steps.len() == 0 || surely_rejects(
            &checkers[i].test.steps@[0].command_matcher,
            received[i],
        ),
    ensures
        forall|j: int| i < j < checkers.len() ==> (#[trigger] checkers[j]).result is Failure,
{
    assert(turn(checkers, received, configs, i));
    assert(checkers[i + 1].result is Failure);
    assert forall|j: int| i < j < checkers.len() implies (#[trigger] checkers[j]).result is Failure by {
        lemma_first_error_kept(checkers, received, configs, i + 1, j);
    }
}

} // verus!
