use vstd::prelude::*;

use crate::checker_result::{all_pass, results_report, CheckerResult, CheckerResults};
use crate::serialization::{representable_tests, shown_tests};
use crate::test_spec::{tests_from_yaml, Tests, TestsView};
use crate::text::{push_str, string_from_chars};
use crate::yaml::{write_yaml, yaml_output, Yaml};
use crate::ExitCode;
use crate::command::{Command, CommandView};
use crate::command_matcher::CommandMatcher;
use crate::executable_path::compare_executables;
use crate::test_checker::{same_executable, stepped, MockConfig, TestChecker};
use crate::test_spec::{
    clone_strings, matcher_view, strings_view, MatcherView, Step, StepView, Test, TestView,
};

verus! {

/// Records the commands that a script runs, as the steps of a test.
#[derive(Debug)]
pub struct Recorder {
    pub test: Test,
    pub command: Option<Command>,
    pub unmocked_commands: Vec<String>,
}

/// The value of an optional command.
pub open spec fn command_view(command: Option<Command>) -> Option<CommandView> {
    match command {
        Some(c) => Some(c.view()),
        None => None,
    }
}

/// The step that records a command that exited with `exitcode`.
pub open spec fn recorded_step(command: CommandView, exitcode: i32) -> StepView {
    StepView { matcher: MatcherView::Exact(command), stdout: seq![], exitcode }
}

/// Whether the recorder `after` is a recorder with the given test, unmocked
/// commands and pending command once it has seen the script about to run
/// `executable` with `arguments`: an unmocked command is left alone; any
/// other is wrapped, so that it runs and is recorded when it exits.
pub open spec fn recorder_entered(
    test: TestView,
    unmocked_commands: Seq<Seq<char>>,
    command: Option<CommandView>,
    after: Recorder,
    executable: Seq<char>,
    arguments: Seq<Seq<char>>,
    wrapped: bool,
) -> bool {
    &&& after.test.view() == test
    &&& strings_view(after.unmocked_commands@) == unmocked_commands
    &&& if wrapped {
        &&& forall|i: int|
            0 <= i < unmocked_commands.len() ==> #[trigger] same_executable(unmocked_commands[i], executable, false)
        &&& command_view(after.command) == Some(CommandView { executable, arguments })
    } else {
        &&& exists|i: int|
            0 <= i < unmocked_commands.len() && #[trigger] same_executable(unmocked_commands[i], executable, true)
        &&& command_view(after.command) == command
    }
}

/// Whether the recorder `after` is `before` once a process exited with
/// `exitcode`: the pending command, if any, is recorded as a step with that
/// exit code.
pub open spec fn recorder_exited(before: Recorder, after: Recorder, exitcode: i32) -> bool {
    match command_view(before.command) {
        None => after == before,
        Some(command) => {
            &&& after.command is None
            &&& after.unmocked_commands == before.unmocked_commands
            &&& after.test.view() == crate::test_checker::with_steps(
                before.test.view(),
                before.test.view().steps.push(recorded_step(command, exitcode)),
            )
        },
    }
}

/// Whether the recorder `after` is `before` once it has seen a command or
/// the exit of a process.
pub open spec fn recorder_moved(before: Recorder, after: Recorder) -> bool {
    ||| exists|executable: Seq<char>, arguments: Seq<Seq<char>>, wrapped: bool|
        #[trigger] recorder_entered(
            before.test.view(),
            strings_view(before.unmocked_commands@),
            command_view(before.command),
            after,
            executable,
            arguments,
            wrapped,
        )
    ||| exists|exitcode: i32| #[trigger] recorder_exited(before, after, exitcode)
}

/// Whether `recorders[i + 1]` is `recorders[i]` once it has seen a command
/// or the exit of a process.
pub open spec fn recorded_in_turn(recorders: Seq<Recorder>, i: int) -> bool {
    recorder_moved(recorders[i], recorders[i + 1])
}

/// Whatever commands and exits a recorder sees, the steps it started with
/// stay first, and the rest of its test stays as it was: a filled hole
/// keeps the steps written before it.
pub proof fn lemma_recording_keeps_steps(recorders: Seq<Recorder>)
    requires
        recorders.len() > 0,
        forall|i: int| 0 <= i < recorders.len() - 1 ==> #[trigger] recorded_in_turn(recorders, i),
    ensures
        recorders[0].test.view().steps.len() <= recorders.last().test.view().steps.len(),
        recorders.last().test.view().steps.take(recorders[0].test.view().steps.len() as int)
            == recorders[0].test.view().steps,
        crate::test_checker::with_steps(recorders.last().test.view(), recorders[0].test.view().steps)
            == recorders[0].test.view(),
    decreases recorders.len(),
{
    let first = recorders[0].test.view();
    if recorders.len() == 1 {
        assert(first.steps.take(first.steps.len() as int) =~= first.steps);
    } else {
        let rest = recorders.drop_last();
        assert forall|i: int| 0 <= i < rest.len() - 1 implies #[trigger] recorded_in_turn(rest, i) by {
            assert(recorded_in_turn(recorders, i));
        }
        lemma_recording_keeps_steps(rest);
        let n = recorders.len() - 2;
        assert(recorded_in_turn(recorders, n));
        let before = recorders[n].test.view();
        let after = recorders[n + 1].test.view();
        assert(before.steps.take(first.steps.len() as int) == first.steps);
        if exists|exitcode: i32| #[trigger] recorder_exited(recorders[n], recorders[n + 1], exitcode) {
            let exitcode = choose|exitcode: i32| #[trigger] recorder_exited(recorders[n], recorders[n + 1], exitcode);
            if let Some(command) = command_view(recorders[n].command) {
                assert(after.steps =~= before.steps.push(recorded_step(command, exitcode)));
                assert(after.steps.take(first.steps.len() as int) =~= before.steps.take(first.steps.len() as int));
            }
        }
    }
}

/// The test with the exit code of the script recorded, unless it is 0.
pub open spec fn with_exitcode(test: TestView, exitcode: i32) -> TestView {
    if exitcode != 0 {
        TestView { exitcode: Some(exitcode), ..test }
    } else {
        test
    }
}

impl Recorder {
    /// A recorder with an empty test and no unmocked commands.
    pub fn empty() -> (result: Recorder)
        ensures
            result.test.view() == crate::test_spec::test_with_steps(seq![]),
            result.command is None,
            result.unmocked_commands@.len() == 0,
    {
        let steps: Vec<Step> = Vec::new();
        assert(steps@.map_values(|s: Step| s.view()) =~= Seq::<StepView>::empty());
        Recorder { test: Test::new(steps), command: None, unmocked_commands: Vec::new() }
    }

    /// A recorder that adds the steps it records to `test`.
    pub fn new(test: Test, unmocked_commands: &Vec<String>) -> (result: Recorder)
        ensures
            result.test == test,
            result.command is None,
            strings_view(result.unmocked_commands@) == strings_view(unmocked_commands@),
    {
        Recorder { test, command: None, unmocked_commands: clone_strings(unmocked_commands) }
    }

    /// Handles a script that is about to run a command: an unmocked command
    /// runs as it is (`false`); any other is to be run by a wrapper and is
    /// recorded when it exits (`true`).
    pub fn handle_execve_enter(&mut self, executable: String, arguments: Vec<String>) -> (wrapped: bool)
        ensures
            recorder_entered(
                old(self).test.view(),
                strings_view(old(self).unmocked_commands@),
                command_view(old(self).command),
                *final(self),
                executable@,
                strings_view(arguments@),
                wrapped,
            ),
    {
        let no_mocks: Vec<String> = Vec::new();
        assert(no_mocks@ == Seq::<String>::empty());
        let ghost unmocked = strings_view(self.unmocked_commands@);
        let mut i: usize = 0;
        while i < self.unmocked_commands.len()
            invariant
                i <= self.unmocked_commands.len(),
                no_mocks@ == Seq::<String>::empty(),
                unmocked == strings_view(self.unmocked_commands@),
                forall|j: int| 0 <= j < i ==> #[trigger] same_executable(unmocked[j], executable@, false),
            decreases self.unmocked_commands.len() - i,
        {
            if compare_executables(&no_mocks, self.unmocked_commands[i].as_str(), executable.as_str()) {
                assert(same_executable(unmocked[i as int], executable@, true));
                return false;
            }
            assert(same_executable(unmocked[i as int], executable@, false));
            i += 1;
        }
        self.command = Some(Command { executable, arguments });
        true
    }

    /// Handles the exit of a process: the pending command, if any, is
    /// recorded as a step with the exit code.
    pub fn handle_exited(&mut self, exitcode: i32)
        ensures
            recorder_exited(*old(self), *final(self), exitcode),
            old(self).command matches Some(command) ==> {
                &&& final(self).command is None
                &&& final(self).test.view().steps.len() == old(self).test.view().steps.len() + 1
                &&& final(self).test.view().steps.drop_last() == old(self).test.view().steps
                &&& final(self).test.view().steps.last().matcher == MatcherView::Exact(command.view())
                &&& final(self).test.view().steps.last().stdout.len() == 0
                &&& final(self).test.view().steps.last().exitcode == exitcode
            },
            old(self).command is None ==> *final(self) == *old(self),
    {
        if let Some(command) = self.command.take() {
            let ghost before = self.test.steps@;
            let step = Step { command_matcher: CommandMatcher::ExactMatch(command), stdout: Vec::new(), exitcode };
            assert(step.view() == recorded_step(command.view(), exitcode));
            self.test.steps.push_back(step);
            assert(self.test.steps@.map_values(|s: Step| s.view()) =~= before.map_values(|s: Step| s.view()).push(
                recorded_step(command.view(), exitcode),
            ));
        }
    }

    /// The recorded test once the script has ended with `exitcode`, which
    /// is recorded unless it is 0.
    pub fn handle_end(self, exitcode: i32) -> (result: Test)
        ensures
            result.view() == with_exitcode(self.test.view(), exitcode),
            exitcode != 0 ==> result.view().exitcode == Some(exitcode),
            exitcode == 0 ==> result.view().exitcode == self.test.view().exitcode,
            result.view() == (TestView { exitcode: result.view().exitcode, ..self.test.view() }),
    {
        let mut test = self.test;
        if exitcode != 0 {
            test.exitcode = Some(exitcode);
        }
        test
    }
}

/// What the tracer is to do with a command that the script is about to
/// run.
#[derive(Debug)]
pub enum ExecveAction {
    /// Run it as it is.
    Unmocked,
    /// Run a mock in its place.
    Mock(MockConfig),
    /// Run it through a wrapper, which records it.
    Wrap,
}

/// Whether the checker `after` is the checker `before` once it has seen the
/// script about to run `executable` with `arguments` and answered `action`
/// (see `TestChecker::handle_execve_enter`).
pub open spec fn checker_entered(
    before: TestChecker,
    after: TestChecker,
    executable: String,
    arguments: Vec<String>,
    action: ExecveAction,
) -> bool {
    match action {
        ExecveAction::Unmocked => (exists|i: int|
            0 <= i < before.unmocked_commands.len() && #[trigger] same_executable(
                before.unmocked_commands@[i]@,
                executable@,
                true,
            )) && after == before,
        ExecveAction::Mock(config) => (forall|i: int|
            0 <= i < before.unmocked_commands.len() ==> #[trigger] same_executable(
                before.unmocked_commands@[i]@,
                executable@,
                false,
            )) && stepped(before, after, (Command { executable, arguments }).view(), config),
        ExecveAction::Wrap => false,
    }
}

/// Checks a test that ends with a hole, and records what the script does
/// once the steps before the hole are done.
#[derive(Debug)]
pub enum HoleRecorder {
    Checker { checker: TestChecker, original_test: Test },
    Recorder { recorder: Recorder },
}

/// The outcome of running a script against a test: the test and how the
/// script did against it, or the test with a recorded hole.
#[derive(Debug)]
pub enum RecorderResult {
    Checked(Test, CheckerResult),
    Recorded(Test),
}

/// The recorded test of a test whose hole is filled: the test without its
/// hole, with the exit code of the script.
pub open spec fn filled_test(test: TestView, exitcode: i32) -> TestView {
    with_exitcode(TestView { ends_with_hole: false, ..test }, exitcode)
}

/// Filling the hole of a test whose steps all passed records the exit code
/// of the script, unless it is 0, and keeps everything else of the test
/// but its hole.
pub proof fn lemma_filled_test_records_exit_code(test: TestView, exitcode: i32)
    ensures
        filled_test(test, exitcode).exitcode == if exitcode != 0 {
            Some(exitcode)
        } else {
            test.exitcode
        },
        !filled_test(test, exitcode).ends_with_hole,
        filled_test(test, exitcode).steps == test.steps,
        filled_test(test, exitcode) == (TestView {
            exitcode: filled_test(test, exitcode).exitcode,
            ends_with_hole: false,
            ..test
        }),
{
}

/// The end of a recording records the exit code of the script, unless it
/// is 0, and keeps everything else of the recorded test.
pub proof fn lemma_end_records_exit_code(test: TestView, exitcode: i32)
    ensures
        with_exitcode(test, exitcode).exitcode == if exitcode != 0 {
            Some(exitcode)
        } else {
            test.exitcode
        },
        with_exitcode(test, exitcode) == (TestView { exitcode: with_exitcode(test, exitcode).exitcode, ..test }),
{
}

/// When a wrapped command exits, the recorder appends one step for it:
/// that command, with no output and the exit code it exited with, whatever
/// that code is; the steps before it and the rest of the test stay.
pub proof fn lemma_exit_records_command(before: Recorder, after: Recorder, exitcode: i32)
    requires
        recorder_exited(before, after, exitcode),
        before.command is Some,
    ensures
        after.command is None,
        after.test.view().steps.len() == before.test.view().steps.len() + 1,
        after.test.view().steps.drop_last() == before.test.view().steps,
        after.test.view().steps.last().matcher == MatcherView::Exact(before.command->Some_0.view()),
        after.test.view().steps.last().stdout.len() == 0,
        after.test.view().steps.last().exitcode == exitcode,
        after.test.view() == (TestView { steps: after.test.view().steps, ..before.test.view() }),
{
    assert(before.test.view().steps.push(recorded_step(before.command->Some_0.view(), exitcode)).drop_last()
        =~= before.test.view().steps);
}

/// A process that exits while no wrapped command is pending leaves the
/// recorder as it is.
pub proof fn lemma_exit_without_command(before: Recorder, after: Recorder, exitcode: i32)
    requires
        recorder_exited(before, after, exitcode),
        before.command is None,
    ensures
        after == before,
{
}

impl HoleRecorder {
    /// Starts by checking the steps of the test before its hole.
    pub fn new(unmocked_commands: &Vec<String>, test: Test) -> (result: HoleRecorder)
        ensures
            result matches HoleRecorder::Checker { checker, original_test } && checker.test.view()
                == test.view() && original_test == test && checker.unmocked_commands@
                == unmocked_commands@ && checker.result == CheckerResult::Pass,
    {
        let copy = test.clone();
        HoleRecorder::Checker { checker: TestChecker::new(copy, unmocked_commands), original_test: test }
    }

    /// Handles a script that is about to run a command. While steps are
    /// left, or once a step failed, the command is checked; once all steps
    /// passed, recording starts, from the original test, and the command is
    /// the first one recorded.
    pub fn handle_execve_enter(&mut self, executable: String, arguments: Vec<String>) -> (result: ExecveAction)
        ensures
            match *old(self) {
                HoleRecorder::Checker { checker, original_test } => if checker.test.steps@.len() > 0
                    || checker.result is Failure {
                    *final(self) matches HoleRecorder::Checker { checker: after, original_test: kept }
                        && kept == original_test && checker_entered(checker, after, executable, arguments, result)
                } else {
                    *final(self) matches HoleRecorder::Recorder { recorder } && (result is Unmocked
                        || result is Wrap) && recorder_entered(
                        original_test.view(),
                        strings_view(checker.unmocked_commands@),
                        None,
                        recorder,
                        executable@,
                        strings_view(arguments@),
                        result is Wrap,
                    )
                },
                HoleRecorder::Recorder { recorder } => *final(self) matches HoleRecorder::Recorder {
                    recorder: after,
                } && (result is Unmocked || result is Wrap) && recorder_entered(
                    recorder.test.view(),
                    strings_view(recorder.unmocked_commands@),
                    command_view(recorder.command),
                    after,
                    executable@,
                    strings_view(arguments@),
                    result is Wrap,
                ),
            },
    {
        match self {
            HoleRecorder::Checker { checker, original_test } => {
                if checker.test.steps.len() > 0 || !checker.result.is_pass() {
                    match checker.handle_execve_enter(executable, arguments) {
                        None => ExecveAction::Unmocked,
                        Some(config) => ExecveAction::Mock(config),
                    }
                } else {
                    let mut recorder = Recorder::new(original_test.clone(), &checker.unmocked_commands);
                    let wrapped = recorder.handle_execve_enter(executable, arguments);
                    *self = HoleRecorder::Recorder { recorder };
                    if wrapped {
                        ExecveAction::Wrap
                    } else {
                        ExecveAction::Unmocked
                    }
                }
            },
            HoleRecorder::Recorder { recorder } => {
                if recorder.handle_execve_enter(executable, arguments) {
                    ExecveAction::Wrap
                } else {
                    ExecveAction::Unmocked
                }
            },
        }
    }

    /// Handles the exit of a process; only a recorder takes note of it.
    pub fn handle_exited(&mut self, exitcode: i32)
        ensures
            match *old(self) {
                HoleRecorder::Checker { .. } => *final(self) == *old(self),
                HoleRecorder::Recorder { recorder } => *final(self) matches HoleRecorder::Recorder {
                    recorder: after,
                } && recorder_exited(recorder, after, exitcode),
            },
    {
        match self {
            HoleRecorder::Checker { .. } => {},
            HoleRecorder::Recorder { recorder } => recorder.handle_exited(exitcode),
        }
    }

    /// The outcome once the script has ended with `exitcode`: a failed check
    /// gives the original test and the failure; a passed check fills the
    /// hole with nothing; a recorder gives what it recorded.
    pub fn handle_end(self, exitcode: i32) -> (result: RecorderResult)
        ensures
            match self {
                HoleRecorder::Checker { checker, original_test } => match checker.result {
                    CheckerResult::Pass => result matches RecorderResult::Recorded(test) && test.view()
                        == filled_test(original_test.view(), exitcode) && test.view().exitcode == (if exitcode
                        != 0 {
                        Some(exitcode)
                    } else {
                        original_test.view().exitcode
                    }) && test.view() == (TestView {
                        exitcode: test.view().exitcode,
                        ends_with_hole: false,
                        ..original_test.view()
                    }),
                    CheckerResult::Failure(message) => result matches RecorderResult::Checked(
                        test,
                        failure,
                    ) && test == original_test && failure == checker.result,
                },
                HoleRecorder::Recorder { recorder } => result matches RecorderResult::Recorded(test)
                    && test.view() == with_exitcode(recorder.test.view(), exitcode) && test.view().exitcode == (
                    if exitcode != 0 {
                        Some(exitcode)
                    } else {
                        recorder.test.view().exitcode
                    }) && test.view() == (TestView { exitcode: test.view().exitcode, ..recorder.test.view() }),
            },
    {
        match self {
            HoleRecorder::Checker { checker, original_test } => match checker.result {
                CheckerResult::Pass => {
                    let mut test = original_test;
                    test.ends_with_hole = false;
                    let recorder = Recorder::new(test, &checker.unmocked_commands);
                    RecorderResult::Recorded(recorder.handle_end(exitcode))
                },
                failure => RecorderResult::Checked(original_test, failure),
            },
            HoleRecorder::Recorder { recorder } => RecorderResult::Recorded(recorder.handle_end(exitcode)),
        }
    }
}

impl RecorderResult {
    /// Whether the outcome is a recorded test.
    pub fn is_recorded(&self) -> (result: bool)
        ensures
            result == self is Recorded,
    {
        match self {
            RecorderResult::Recorded(_) => true,
            RecorderResult::Checked(_, _) => false,
        }
    }

    /// The test of the outcome.
    pub open spec fn test(&self) -> Test {
        match self {
            RecorderResult::Checked(test, _) => *test,
            RecorderResult::Recorded(test) => *test,
        }
    }

    /// A copy of the test of the outcome.
    pub fn get_test(&self) -> (result: Test)
        ensures
            result.view() == self.test().view(),
    {
        match self {
            RecorderResult::Checked(test, _) => test.clone(),
            RecorderResult::Recorded(test) => test.clone(),
        }
    }

    /// How the script did against the test; nothing for a recorded test.
    pub fn get_test_result(&self) -> (result: Option<CheckerResult>)
        ensures
            match self {
                RecorderResult::Checked(_, r) => result == Some(*r),
                RecorderResult::Recorded(_) => result is None,
            },
    {
        match self {
            RecorderResult::Checked(_, test_result) => Some(test_result.clone()),
            RecorderResult::Recorded(_) => None,
        }
    }
}

/// The results of the tests that were checked, in order.
pub open spec fn checked_results(results: Seq<RecorderResult>) -> Seq<CheckerResult>
    decreases results.len(),
{
    if results.len() == 0 {
        seq![]
    } else {
        let rest = checked_results(results.drop_last());
        match results.last() {
            RecorderResult::Checked(_, result) => rest.push(result),
            RecorderResult::Recorded(_) => rest,
        }
    }
}

/// Whether some test had its hole filled.
pub open spec fn any_recorded(results: Seq<RecorderResult>) -> bool {
    exists|i: int| 0 <= i < results.len() && #[trigger] results[i] is Recorded
}

/// The tests to write back to the test file once holes are filled: the
/// test of each outcome, the unmocked commands, and no interpreter.
pub open spec fn rewritten_tests(results: Seq<RecorderResult>, unmocked_commands: Seq<String>) -> TestsView {
    TestsView {
        tests: results.map_values(|r: RecorderResult| r.test().view()),
        unmocked_commands: strings_view(unmocked_commands),
        interpreter: None,
    }
}

/// The line that says that the holes of a test file were filled.
pub open spec fn holes_filled_message(test_file: Seq<char>) -> Seq<char> {
    "Test holes filled in "@ + test_file + ".\n"@
}

/// What a run of the tests of a test file comes to.
#[derive(Debug)]
pub struct RunReport {
    /// The new content of the test file, when holes were filled.
    pub test_file_contents: Option<Vec<u8>>,
    /// What to write to stdout.
    pub output: String,
    /// The exit code of the run.
    pub exitcode: ExitCode,
}

impl RecorderResult {
    /// Reports the outcomes of a run. When every checked test passed and
    /// some hole was filled, the test file is written anew (see
    /// `rewritten_tests`) and that is said first; then comes the report of
    /// the checked tests (see `results_report`). The exit code is 0 when
    /// every checked test passed, else 1. Writing the YAML may fail.
    pub fn handle_results(test_file: &str, unmocked_commands: Vec<String>, results: &Vec<RecorderResult>) -> (result:
        Result<RunReport, String>)
        ensures
            ({
                let checked = checked_results(results@);
                let filled = all_pass(checked) && any_recorded(results@);
                match result {
                    Err(message) => filled && exists|y: Yaml|
                        #[trigger] yaml_output(y) == Err::<Seq<u8>, Seq<char>>(message@),
                    Ok(report) => {
                        &&& report.exitcode.0 == (if all_pass(checked) { 0i32 } else { 1i32 })
                        &&& report.output@ == (if filled {
                            holes_filled_message(test_file@)
                        } else {
                            Seq::empty()
                        }) + results_report(checked)
                        &&& (report.test_file_contents is Some <==> filled)
                        &&& (report.test_file_contents matches Some(bytes) ==> exists|y: Yaml|
                            #[trigger] yaml_output(y) == Ok::<Seq<u8>, Seq<char>>(bytes@) && (
                            representable_tests(rewritten_tests(results@, unmocked_commands@))
                                ==> exists|shown: TestsView|
                                #[trigger] shown_tests(rewritten_tests(results@, unmocked_commands@), shown)
                                    && tests_from_yaml(y) == Ok::<TestsView, Seq<char>>(shown)))
                    },
                }
            }),
    {
        let mut checked: Vec<CheckerResult> = Vec::new();
        let mut recorded = false;
        let mut tests: Vec<Test> = Vec::new();
        let mut i: usize = 0;
        while i < results.len()
            invariant
                i <= results.len(),
                checked@ == checked_results(results@.take(i as int)),
                recorded == any_recorded(results@.take(i as int)),
                tests@.map_values(|t: Test| t.view()) == results@.take(i as int).map_values(
                    |r: RecorderResult| r.test().view(),
                ),
            decreases results.len() - i,
        {
            let ghost before_tests = tests@;
            assert(results@.take(i + 1).drop_last() =~= results@.take(i as int));
            assert(results@.take(i + 1).last() == results@[i as int]);
            if let Some(result) = results[i].get_test_result() {
                checked.push(result);
            }
            if results[i].is_recorded() {
                recorded = true;
                assert(results@.take(i + 1)[i as int] is Recorded);
            } else {
                assert forall|j: int| 0 <= j < i + 1 && #[trigger] results@.take(i + 1)[j] is Recorded implies j < i by {}
                assert forall|j: int| 0 <= j < i && #[trigger] results@.take(i + 1)[j] is Recorded implies results@.take(
                    i as int,
                )[j] is Recorded by {}
            }
            let test = results[i].get_test();
            tests.push(test);
            assert(tests@.map_values(|t: Test| t.view()) =~= results@.take(i + 1).map_values(
                |r: RecorderResult| r.test().view(),
            )) by {
                assert(tests@.map_values(|t: Test| t.view()) =~= before_tests.map_values(|t: Test| t.view()).push(
                    test.view(),
                ));
            }
            i += 1;
        }
        assert(results@.take(results.len() as int) =~= results@);
        let checker_results = CheckerResults(checked);
        let pass = checker_results.is_pass();
        let mut out: Vec<char> = Vec::new();
        let mut test_file_contents: Option<Vec<u8>> = None;
        if pass && recorded {
            let ghost unmocked_view = unmocked_commands@;
            let rewritten = Tests { tests, unmocked_commands, interpreter: None };
            assert(rewritten.view() == rewritten_tests(results@, unmocked_view));
            let yaml = rewritten.serialize();
            match write_yaml(&yaml) {
                Ok(bytes) => {
                    test_file_contents = Some(bytes);
                },
                Err(message) => {
                    return Err(message);
                },
            }
            push_str(&mut out, "Test holes filled in ");
            push_str(&mut out, test_file);
            push_str(&mut out, ".\n");
            proof {
                reveal_strlit("Test holes filled in ");
                reveal_strlit(".\n");
            }
        }
        let report = checker_results.format();
        push_str(&mut out, report.as_str());
        let exitcode = checker_results.exitcode();
        Ok(RunReport { test_file_contents, output: string_from_chars(&out), exitcode })
    }
}

} // verus!
