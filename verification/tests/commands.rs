//! Command lines, what matches them, the command line of scriptkeeper
//! itself, and the bookkeeping of system calls.

use scriptkeeper::cli::{parse_args_safe, Args};
use scriptkeeper::command::Command;
use scriptkeeper::command_matcher::{AnchoredRegex, CommandMatcher};
use scriptkeeper::syscall::{syscall_event, Syscall, SyscallEvent, SyscallStop, SyscallTracker};
use scriptkeeper::tracer::{execve_params, format_execve_error};
use scriptkeeper::test_checker::TestChecker;
use scriptkeeper::test_spec::Tests;
use scriptkeeper::utils::parse_hashbang;

fn command(line: &str) -> Command {
    Command::new(line).unwrap()
}

fn words(executable: &str, arguments: &[&str]) -> Command {
    Command {
        executable: executable.to_string(),
        arguments: arguments.iter().map(|a| a.to_string()).collect(),
    }
}

#[test]
fn splits_words() {
    assert_eq!(command("foo bar"), words("foo", &["bar"]));
}

#[test]
fn honors_quotes() {
    assert_eq!(command(r#"foo "bar baz""#), words("foo", &["bar baz"]));
}

#[test]
fn honors_escaped_quotes_outside_quotes() {
    assert_eq!(command(r#"foo\" bar baz"#), words("foo\"", &["bar", "baz"]));
    assert_eq!(command(r#"foo\" "bar baz""#), words("foo\"", &["bar baz"]));
}

#[test]
fn honors_escaped_quotes_inside_quotes() {
    assert_eq!(command(r#"foo "bar\" baz""#), words("foo", &["bar\" baz"]));
}

#[test]
fn quotes_next_to_letters_1() {
    assert_eq!(
        Command::new(r#"foo"bar""#).unwrap_err(),
        r#"opening quotes must be preceeded by a space ("foo\"bar\"")"#
    );
}

#[test]
fn quotes_next_to_letters_2() {
    assert_eq!(
        Command::new(r#""foo"bar"#).unwrap_err(),
        r#"closing quotes must be followed by a space ("\"foo\"bar")"#
    );
}

#[test]
fn nonmatching_quotes() {
    assert_eq!(Command::new(r#"foo "bar"#).unwrap_err(), r#"unmatched quotes ("foo \"bar")"#);
}

#[test]
fn double_leading_and_trailing_spaces() {
    assert_eq!(command("foo  bar"), words("foo", &["bar"]));
    assert_eq!(command(" foo bar"), words("foo", &["bar"]));
    assert_eq!(command("foo bar "), words("foo", &["bar"]));
}

#[test]
fn escapes() {
    assert_eq!(command(r#"foo "bar\nbaz""#), words("foo", &["bar\nbaz"]));
    assert_eq!(command(r#"foo bar\ baz"#), words("foo", &["bar baz"]));
    assert_eq!(command(r#"foo bar\\baz"#), words("foo", &[r"bar\baz"]));
}

#[test]
fn an_empty_command_line_is_no_command() {
    assert_eq!(
        Command::new("  ").unwrap_err(),
        r#"expected: space-separated command and arguments ("  ")"#
    );
}

#[test]
fn formatting_gives_back_the_command_line() {
    for line in ["foo", "foo bar baz", r#"foo "bar baz""#, r#"foo bar\""#, r"foo bar\nbaz", r"foo bar\\baz"] {
        assert_eq!(command(line).format(), line);
    }
    assert_eq!(command(r#"foo "bar""#).format(), "foo bar");
    assert_eq!(command(r#"foo "bar\"""#).format(), r#"foo bar\""#);
    assert_eq!(command(r"foo bar\ baz").format(), r#"foo "bar baz""#);
}

fn matches(matcher: CommandMatcher, line: &str) -> bool {
    matcher.matches(&command(line))
}

fn exact(line: &str) -> CommandMatcher {
    CommandMatcher::ExactMatch(command(line))
}

fn regex(pattern: &str) -> CommandMatcher {
    CommandMatcher::RegexMatch(AnchoredRegex::new(pattern).unwrap())
}

#[test]
fn matches_command_executable() {
    assert!(matches(exact("true"), "true"));
}

#[test]
fn matches_command_with_arguments() {
    assert!(matches(exact("echo 1"), "echo 1"));
}

#[test]
fn matches_command_even_if_it_doesnt_exist() {
    assert!(matches(exact("foo"), "foo"));
}

#[test]
fn matches_command_with_full_path() {
    assert!(matches(exact("/bin/true"), "/bin/true"));
}

#[test]
fn doesnt_match_a_different_command() {
    assert!(!matches(exact("foo"), "bar"));
}

#[test]
fn exact_command_matches_received() {
    assert!(matches(exact("cp ./"), "cp ./"));
}

#[test]
fn exact_command_doesnt_match_different_command() {
    assert!(!matches(exact("cp ./"), "bar"));
}

#[test]
fn matches_a_command() {
    assert!(matches(regex("cp"), "cp"));
}

#[test]
fn doesnt_match_a_command_if_regex_doesnt_match() {
    assert!(!matches(regex("foo"), "bar"));
}

#[test]
fn only_matches_if_entire_command_is_a_match() {
    assert!(!matches(regex("cp \\d"), "cp 1 2"));
}

#[test]
fn regex_matches_received() {
    assert!(matches(regex("cp \\w"), "cp a"));
}

#[test]
fn regex_doesnt_match_received_if_regex_doesnt_match() {
    assert!(!matches(regex("cp \\d"), "cp a"));
}

#[test]
fn regex_only_matches_if_entire_command_is_a_match() {
    assert!(!matches(regex("cp \\d"), "cp 1 2"));
}

#[test]
fn matches_if_both_anchors_are_included() {
    assert!(matches(regex("^cp$"), "cp"));
}

#[test]
fn matches_if_front_anchor_is_included() {
    assert!(matches(regex("^cp"), "cp"));
}

#[test]
fn matches_if_end_anchor_is_included() {
    assert!(matches(regex("cp$"), "cp"));
}

#[test]
fn regexes_are_shown_as_written() {
    assert_eq!(regex("cp \\d").format(), "cp \\d");
    assert_eq!(AnchoredRegex::new("^cp$").unwrap().original_string(), "^cp$");
    assert!(AnchoredRegex::new("(").is_err());
}

fn args(words: &[&str]) -> Vec<String> {
    words.iter().map(|w| w.to_string()).collect()
}

#[test]
fn returns_the_given_script() {
    assert_eq!(
        parse_args_safe(args(&["program", "file"])).unwrap(),
        Args::Scriptkeeper { script_path: "file".to_string(), record: false }
    );
}

#[test]
fn errors_on_additional_arguments() {
    assert!(parse_args_safe(args(&["program", "file", "foo"])).is_err());
}

#[test]
fn respects_the_record_flag() {
    assert_eq!(
        parse_args_safe(args(&["program", "--record", "file"])).unwrap(),
        Args::Scriptkeeper { script_path: "file".to_string(), record: true }
    );
}

#[test]
fn returns_the_executable_mock_file() {
    assert_eq!(
        parse_args_safe(args(&["program", "--executable-mock", "file"])).unwrap(),
        Args::ExecutableMock { executable_mock_path: "file".to_string() }
    );
}

#[test]
fn allows_arbitrary_arguments() {
    assert_eq!(
        parse_args_safe(args(&["program", "--executable-mock", "file", "foo", "bar"])).unwrap(),
        Args::ExecutableMock { executable_mock_path: "file".to_string() }
    );
}

#[test]
fn errors_without_a_program() {
    assert!(parse_args_safe(args(&["program"])).is_err());
}

#[test]
fn mod_returns_entry_for_new_syscalls() {
    let mut tracker = SyscallTracker::new();
    assert_eq!(tracker.update_syscall_state(2, Syscall::Unknown(23)), Ok(SyscallStop::Enter));
}

#[test]
fn mod_tracks_entry_and_exit_for_multiple_syscalls() {
    let mut tracker = SyscallTracker::new();
    tracker.update_syscall_state(2, Syscall::Unknown(23)).unwrap();
    assert_eq!(tracker.update_syscall_state(2, Syscall::Unknown(23)), Ok(SyscallStop::Exit));
    assert_eq!(tracker.update_syscall_state(2, Syscall::Unknown(23)), Ok(SyscallStop::Enter));
    assert_eq!(tracker.update_syscall_state(2, Syscall::Unknown(23)), Ok(SyscallStop::Exit));

    let mut tracker = SyscallTracker::new();
    tracker.update_syscall_state(42, Syscall::Unknown(23)).unwrap();
    assert_eq!(tracker.update_syscall_state(2, Syscall::Unknown(23)), Ok(SyscallStop::Enter));
    assert_eq!(tracker.update_syscall_state(2, Syscall::Unknown(23)), Ok(SyscallStop::Exit));
    assert_eq!(tracker.update_syscall_state(2, Syscall::Unknown(23)), Ok(SyscallStop::Enter));
    assert_eq!(tracker.update_syscall_state(2, Syscall::Unknown(23)), Ok(SyscallStop::Exit));
}

#[test]
fn mod_complains_when_exiting_with_a_different_syscall() {
    let mut tracker = SyscallTracker::new();
    tracker.update_syscall_state(2, Syscall::Unknown(1)).unwrap();
    assert_eq!(
        tracker.update_syscall_state(2, Syscall::Unknown(2)),
        Err("update_syscall_state: exiting with the wrong syscall".to_string())
    );
}

#[test]
fn syscall_numbers_are_those_of_linux() {
    assert_eq!(Syscall::from_number(59), Syscall::Execve);
    assert_eq!(Syscall::from_number(79), Syscall::Getcwd);
    assert_eq!(Syscall::from_number(4), Syscall::Stat);
    assert_eq!(Syscall::from_number(23), Syscall::Unknown(23));
}

#[test]
fn only_some_stops_concern_the_mock() {
    assert_eq!(syscall_event(Syscall::Execve, SyscallStop::Enter, 2, 1), SyscallEvent::ExecveEnter);
    assert_eq!(syscall_event(Syscall::Execve, SyscallStop::Enter, 1, 1), SyscallEvent::Other);
    assert_eq!(syscall_event(Syscall::Execve, SyscallStop::Exit, 2, 1), SyscallEvent::Other);
    assert_eq!(syscall_event(Syscall::Getcwd, SyscallStop::Exit, 1, 1), SyscallEvent::GetcwdExit);
    assert_eq!(syscall_event(Syscall::Getcwd, SyscallStop::Enter, 1, 1), SyscallEvent::Other);
    assert_eq!(syscall_event(Syscall::Stat, SyscallStop::Exit, 1, 1), SyscallEvent::StatExit);
    assert_eq!(syscall_event(Syscall::Unknown(3), SyscallStop::Exit, 1, 1), SyscallEvent::Other);
}

#[test]
fn run_nice_error_when_hashbang_refers_to_missing_interpreter() {
    let hashbang = parse_hashbang(&b"#!/usr/bin/foo\ncp\n".to_vec());
    assert_eq!(hashbang, Some("#!/usr/bin/foo".to_string()));
    assert_eq!(
        format_execve_error("ENOENT: No such file or directory", "/tmp/script", &None, hashbang),
        "execve'ing /tmp/script failed with error: ENOENT: No such file or directory\nDoes #!/usr/bin/foo exist?"
    );
}

#[test]
fn run_nice_error_when_hashbang_missing() {
    let hashbang = parse_hashbang(&b"cp\n".to_vec());
    assert_eq!(hashbang, None);
    assert_eq!(
        format_execve_error("ENOEXEC: Exec format error", "/tmp/script", &None, hashbang),
        "execve'ing /tmp/script failed with error: ENOEXEC: Exec format error\nDoes your interpreter exist?"
    );
}

#[test]
fn run_nice_error_when_yaml_refers_to_missing_interpreter() {
    let hashbang = parse_hashbang(&b"`true`\n".to_vec());
    assert_eq!(
        format_execve_error(
            "ENOENT: No such file or directory",
            "/tmp/script",
            &Some("/usr/bin/foo".to_string()),
            hashbang
        ),
        "execve'ing /tmp/script failed with error: ENOENT: No such file or directory\nDoes /usr/bin/foo exist?"
    );
}

#[test]
fn the_script_runs_with_its_arguments_and_environment() {
    let env = vec![("FOO".to_string(), "bar".to_string())];
    let params = execve_params(&None, "/tmp/script", &args(&["a", "b c"]), &env);
    assert_eq!(params.executable, b"/tmp/script");
    assert_eq!(params.arguments, vec![b"/tmp/script".to_vec(), b"a".to_vec(), b"b c".to_vec()]);
    assert_eq!(params.environment, vec![b"FOO=bar".to_vec()]);

    let params = execve_params(&Some("/usr/bin/ruby".to_string()), "/tmp/script", &args(&["a"]), &vec![]);
    assert_eq!(params.executable, b"/usr/bin/ruby");
    assert_eq!(
        params.arguments,
        vec![b"/usr/bin/ruby".to_vec(), b"/tmp/script".to_vec(), b"a".to_vec()]
    );
    assert!(params.environment.is_empty());
}

#[test]
fn mocked_files_are_regular_files_and_directories() {
    let tests = Tests::load_from_text("t", "steps: []\nmockedFiles: [/foo, /bar/]").unwrap();
    let checker = TestChecker::new(tests.tests.into_iter().next().unwrap(), &vec![]);
    assert_eq!(checker.handle_stat_exit("/foo"), Some(libc::S_IFREG));
    assert_eq!(checker.handle_stat_exit("/bar/"), Some(libc::S_IFDIR));
    assert_eq!(checker.handle_stat_exit("/baz"), None);
}
