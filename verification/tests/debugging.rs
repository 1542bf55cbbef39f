//! The log of system calls that `DEBUG` turns on.

use scriptkeeper::debugging::{
    argument_kinds, enter_message, fcntl_command, format_return_value, render_number, render_text, render_text_array,
    syscall_name, ArgumentKind, Debugger,
};

#[test]
fn system_calls_are_logged_with_their_arguments() {
    let names = |number: u64| {
        argument_kinds(number).into_iter().map(|(name, kind)| (name, kind)).collect::<Vec<_>>()
    };
    assert_eq!(names(0), vec![("fd".to_string(), ArgumentKind::Number(0))]);
    assert_eq!(
        names(1),
        vec![
            ("fd".to_string(), ArgumentKind::Number(0)),
            ("buf".to_string(), ArgumentKind::Text(1)),
            ("count".to_string(), ArgumentKind::Number(2)),
        ]
    );
    assert_eq!(
        names(59),
        vec![
            ("filename".to_string(), ArgumentKind::Text(0)),
            ("argv".to_string(), ArgumentKind::TextArray(1)),
            ("envp".to_string(), ArgumentKind::TextArray(2)),
        ]
    );
    assert_eq!(names(72)[1], ("cmd".to_string(), ArgumentKind::FcntlCommand(1)));
    assert_eq!(names(257), vec![("filename".to_string(), ArgumentKind::Text(1))]);
    assert!(names(79).is_empty());
    assert!(names(12345).is_empty());
    assert_eq!(syscall_name(59), "Execve");
    assert_eq!(syscall_name(33), "Dup2");
    assert_eq!(syscall_name(12345), "Unknown(12345)");
}

#[test]
fn arguments_are_rendered() {
    assert_eq!(render_text(&Ok(b"a \"b\"".to_vec())), r#""a \"b\"""#);
    assert_eq!(render_text(&Err("EFAULT".to_string())), "EFAULT");
    assert_eq!(render_text_array(&None), "NULL");
    assert_eq!(render_text_array(&Some(Ok(vec![]))), "[]");
    assert_eq!(render_text_array(&Some(Ok(vec![b"foo".to_vec(), b"bar".to_vec()]))), r#"["foo", "bar"]"#);
    assert_eq!(fcntl_command(1), "F_GETFD");
    assert_eq!(fcntl_command(9), "Unknown(9)");
    assert_eq!(
        enter_message("Write", &vec![("fd".to_string(), "1".to_string()), ("buf".to_string(), "\"x\"".to_string())]),
        "Write(fd: 1, buf: \"x\")"
    );
    assert_eq!(enter_message("Getcwd", &vec![]), "Getcwd()");
}

#[test]
fn return_values_are_numbers_or_errors() {
    assert_eq!(format_return_value(3), "3");
    assert_eq!(format_return_value(-2i64 as u64), "ENOENT: No such file or directory");
}

#[test]
fn an_exit_is_logged_with_its_entry() {
    let mut debugger = Debugger::new(true);
    assert!(debugger.is_enabled());
    debugger.log_enter(7, "Close(fd: 3)".to_string());
    assert_eq!(debugger.log_exit(7, "0"), Some("Close(fd: 3) -> 0".to_string()));
    assert_eq!(debugger.log_exit(7, "0"), Some("error: exit without enter".to_string()));

    let mut disabled = Debugger::new(false);
    assert!(!disabled.is_enabled());
    disabled.log_enter(7, "Close(fd: 3)".to_string());
    assert_eq!(disabled.log_exit(7, "0"), None);
}

#[test]
fn numeric_arguments_are_logged_in_decimal() {
    assert_eq!(render_number(0), "0");
    assert_eq!(render_number(1234), "1234");
    assert_eq!(render_number(u64::MAX), "18446744073709551615");
}
