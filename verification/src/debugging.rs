use vstd::prelude::*;

use crate::syscall::{
    close_number, dup2_number, execve_number, fcntl_number, fstat_number, getcwd_number, open_number,
    openat_number, read_number, stat_number, write_number,
};
use crate::text::{
    debug_quoted, debug_string, decimal_digits, push_chars, push_decimal_u64, push_str,
    string_from_chars, utf8_lossy, utf8_lossy_string,
};
use std::collections::HashMap;

verus! {

broadcast use vstd::std_specs::hash::group_hash_axioms;

/// Where an argument of a system call is and how it is shown: a number in
/// a register, or a register that points to a string, to a NULL-terminated
/// array of strings, or holds an `fcntl` command.
#[derive(Debug, Clone, Copy, PartialEq, Eq, Structural)]
pub enum ArgumentKind {
    Number(usize),
    Text(usize),
    TextArray(usize),
    FcntlCommand(usize),
}

/// The name under which a system call is logged.
pub open spec fn syscall_label(number: u64) -> Seq<char> {
    if number == 0 {
        "Read"@
    } else if number == 1 {
        "Write"@
    } else if number == 2 {
        "Open"@
    } else if number == 3 {
        "Close"@
    } else if number == 4 {
        "Stat"@
    } else if number == 5 {
        "Fstat"@
    } else if number == 33 {
        "Dup2"@
    } else if number == 59 {
        "Execve"@
    } else if number == 72 {
        "Fcntl"@
    } else if number == 79 {
        "Getcwd"@
    } else if number == 257 {
        "Openat"@
    } else {
        "Unknown("@ + decimal_digits(number as nat) + ")"@
    }
}

/// The arguments that are logged for a system call, by name.
pub open spec fn argument_kinds_of(number: u64) -> Seq<(Seq<char>, ArgumentKind)> {
    if number == 0 || number == 3 || number == 5 {
        seq![("fd"@, ArgumentKind::Number(0))]
    } else if number == 1 {
        seq![("fd"@, ArgumentKind::Number(0)), ("buf"@, ArgumentKind::Text(1)), ("count"@, ArgumentKind::Number(2))]
    } else if number == 2 || number == 4 {
        seq![("filename"@, ArgumentKind::Text(0))]
    } else if number == 33 {
        seq![("oldfd"@, ArgumentKind::Number(0)), ("newfd"@, ArgumentKind::Number(1))]
    } else if number == 59 {
        seq![
            ("filename"@, ArgumentKind::Text(0)),
            ("argv"@, ArgumentKind::TextArray(1)),
            ("envp"@, ArgumentKind::TextArray(2)),
        ]
    } else if number == 72 {
        seq![("fd"@, ArgumentKind::Number(0)), ("cmd"@, ArgumentKind::FcntlCommand(1))]
    } else if number == 257 {
        seq![("filename"@, ArgumentKind::Text(1))]
    } else {
        seq![]
    }
}

fn named(name: &str, kind: ArgumentKind) -> (result: (String, ArgumentKind))
    ensures
        result.0@ == name@,
        result.1 == kind,
{
    (String::from_str(name), kind)
}

/// The names of some arguments and where they are.
pub open spec fn kinds_view(kinds: Seq<(String, ArgumentKind)>) -> Seq<(Seq<char>, ArgumentKind)> {
    kinds.map_values(|k: (String, ArgumentKind)| (k.0@, k.1))
}

/// The arguments that are logged for the system call `number` (see
/// `argument_kinds_of`).
pub fn argument_kinds(number: u64) -> (result: Vec<(String, ArgumentKind)>)
    ensures
        kinds_view(result@) == argument_kinds_of(number),
{
    let mut result: Vec<(String, ArgumentKind)> = Vec::new();
    if number == read_number() as u64 || number == close_number() as u64 || number == fstat_number() as u64 {
        result.push(named("fd", ArgumentKind::Number(0)));
    } else if number == write_number() as u64 {
        result.push(named("fd", ArgumentKind::Number(0)));
        result.push(named("buf", ArgumentKind::Text(1)));
        result.push(named("count", ArgumentKind::Number(2)));
    } else if number == open_number() as u64 || number == stat_number() as u64 {
        result.push(named("filename", ArgumentKind::Text(0)));
    } else if number == dup2_number() as u64 {
        result.push(named("oldfd", ArgumentKind::Number(0)));
        result.push(named("newfd", ArgumentKind::Number(1)));
    } else if number == execve_number() as u64 {
        result.push(named("filename", ArgumentKind::Text(0)));
        result.push(named("argv", ArgumentKind::TextArray(1)));
        result.push(named("envp", ArgumentKind::TextArray(2)));
    } else if number == fcntl_number() as u64 {
        result.push(named("fd", ArgumentKind::Number(0)));
        result.push(named("cmd", ArgumentKind::FcntlCommand(1)));
    } else if number == openat_number() as u64 {
        result.push(named("filename", ArgumentKind::Text(1)));
    }
    assert(kinds_view(result@) =~= argument_kinds_of(number));
    result
}

/// The name under which the system call `number` is logged (see
/// `syscall_label`).
pub fn syscall_name(number: u64) -> (result: String)
    ensures
        result@ == syscall_label(number),
{
    let mut out: Vec<char> = Vec::new();
    if number == read_number() as u64 {
        push_str(&mut out, "Read");
    } else if number == write_number() as u64 {
        push_str(&mut out, "Write");
    } else if number == open_number() as u64 {
        push_str(&mut out, "Open");
    } else if number == close_number() as u64 {
        push_str(&mut out, "Close");
    } else if number == stat_number() as u64 {
        push_str(&mut out, "Stat");
    } else if number == fstat_number() as u64 {
        push_str(&mut out, "Fstat");
    } else if number == dup2_number() as u64 {
        push_str(&mut out, "Dup2");
    } else if number == execve_number() as u64 {
        push_str(&mut out, "Execve");
    } else if number == fcntl_number() as u64 {
        push_str(&mut out, "Fcntl");
    } else if number == getcwd_number() as u64 {
        push_str(&mut out, "Getcwd");
    } else if number == openat_number() as u64 {
        push_str(&mut out, "Openat");
    } else {
        push_str(&mut out, "Unknown(");
        push_decimal_u64(&mut out, number);
        push_str(&mut out, ")");
        proof {
            reveal_strlit("Unknown(");
            reveal_strlit(")");
        }
    }
    string_from_chars(&out)
}

/// How an `fcntl` command is logged.
pub open spec fn fcntl_label(command: u64) -> Seq<char> {
    if command == 0 {
        "F_DUPFD"@
    } else if command == 1 {
        "F_GETFD"@
    } else if command == 2 {
        "F_SETFD"@
    } else if command == 3 {
        "F_GETFL"@
    } else if command == 4 {
        "F_SETFL"@
    } else {
        "Unknown("@ + decimal_digits(command as nat) + ")"@
    }
}

/// How an `fcntl` command is logged (see `fcntl_label`).
pub fn fcntl_command(command: u64) -> (result: String)
    ensures
        result@ == fcntl_label(command),
{
    if command == 0 {
        String::from_str("F_DUPFD")
    } else if command == 1 {
        String::from_str("F_GETFD")
    } else if command == 2 {
        String::from_str("F_SETFD")
    } else if command == 3 {
        String::from_str("F_GETFL")
    } else if command == 4 {
        String::from_str("F_SETFL")
    } else {
        let mut out: Vec<char> = Vec::new();
        push_str(&mut out, "Unknown(");
        push_decimal_u64(&mut out, command);
        push_str(&mut out, ")");
        proof {
            reveal_strlit("Unknown(");
            reveal_strlit(")");
        }
        string_from_chars(&out)
    }
}

/// Texts separated by `, `.
pub open spec fn comma_separated(items: Seq<Seq<char>>) -> Seq<char>
    decreases items.len(),
{
    if items.len() == 0 {
        seq![]
    } else if items.len() == 1 {
        items[0]
    } else {
        comma_separated(items.drop_last()) + ", "@ + items.last()
    }
}

/// The texts of some strings, separated by `, `.
fn join_with_commas(items: &Vec<String>) -> (result: Vec<char>)
    ensures
        result@ == comma_separated(items@.map_values(|s: String| s@)),
{
    let ghost all = items@.map_values(|s: String| s@);
    let mut out: Vec<char> = Vec::new();
    let mut i: usize = 0;
    while i < items.len()
        invariant
            i <= items.len(),
            all == items@.map_values(|s: String| s@),
            out@ == comma_separated(all.take(i as int)),
        decreases items.len() - i,
    {
        if i > 0 {
            push_str(&mut out, ", ");
        }
        push_str(&mut out, items[i].as_str());
        proof {
            reveal_strlit(", ");
            let next = all.take(i + 1);
            assert(next.drop_last() =~= all.take(i as int));
            assert(next.last() == items@[i as int]@);
            if i == 0 {
                assert(next.len() == 1);
                assert(comma_separated(all.take(0)) =~= Seq::<char>::empty());
            }
        }
        i += 1;
    }
    assert(all.take(items.len() as int) =~= all);
    out
}

/// How a string argument is logged: the string, decoded and quoted, or the
/// message of the error that reading it gave.
pub open spec fn text_label(peeked: Result<Seq<u8>, Seq<char>>) -> Seq<char> {
    match peeked {
        Ok(bytes) => debug_quoted(utf8_lossy(bytes)),
        Err(message) => message,
    }
}

/// How a string argument is logged (see `text_label`).
pub fn render_text(peeked: &Result<Vec<u8>, String>) -> (result: String)
    ensures
        result@ == text_label(
            match peeked {
                Ok(bytes) => Ok(bytes@),
                Err(message) => Err(message@),
            },
        ),
{
    match peeked {
        Ok(bytes) => {
            let text = utf8_lossy_string(bytes);
            debug_string(text.as_str())
        },
        Err(message) => message.clone(),
    }
}

/// How an array of strings is logged: `NULL` for a NULL pointer, the
/// message of the error that reading it gave, or the strings, decoded and
/// quoted, in square brackets.
pub open spec fn text_array_label(peeked: Option<Result<Seq<Seq<u8>>, Seq<char>>>) -> Seq<char> {
    match peeked {
        None => "NULL"@,
        Some(Err(message)) => message,
        Some(Ok(items)) => "["@ + comma_separated(items.map_values(|b: Seq<u8>| debug_quoted(utf8_lossy(b))))
            + "]"@,
    }
}

/// How an array of strings is logged (see `text_array_label`).
pub fn render_text_array(peeked: &Option<Result<Vec<Vec<u8>>, String>>) -> (result: String)
    ensures
        result@ == text_array_label(
            match peeked {
                None => None,
                Some(Ok(items)) => Some(Ok(items@.map_values(|b: Vec<u8>| b@))),
                Some(Err(message)) => Some(Err(message@)),
            },
        ),
{
    proof {
        reveal_strlit("NULL");
        reveal_strlit("[");
        reveal_strlit("]");
    }
    match peeked {
        None => String::from_str("NULL"),
        Some(Err(message)) => message.clone(),
        Some(Ok(items)) => {
            let mut quoted: Vec<String> = Vec::new();
            let mut i: usize = 0;
            while i < items.len()
                invariant
                    i <= items.len(),
                    quoted.len() == i,
                    forall|j: int|
                        0 <= j < i ==> #[trigger] quoted@[j]@ == debug_quoted(utf8_lossy(items@[j]@)),
                decreases items.len() - i,
            {
                let text = utf8_lossy_string(&items[i]);
                quoted.push(debug_string(text.as_str()));
                i += 1;
            }
            assert(quoted@.map_values(|s: String| s@) =~= items@.map_values(|b: Vec<u8>| b@).map_values(
                |b: Seq<u8>| debug_quoted(utf8_lossy(b)),
            ));
            let mut out: Vec<char> = Vec::new();
            out.push('[');
            let joined = join_with_commas(&quoted);
            push_chars(&mut out, &joined);
            out.push(']');
            string_from_chars(&out)
        },
    }
}

/// The log message on entering a system call: its name and its arguments,
/// each as `name: value`, in brackets.
pub open spec fn enter_label(name: Seq<char>, arguments: Seq<(Seq<char>, Seq<char>)>) -> Seq<char> {
    name + "("@ + comma_separated(arguments.map_values(|a: (Seq<char>, Seq<char>)| a.0 + ": "@ + a.1)) + ")"@
}

/// The log message on entering a system call (see `enter_label`).
pub fn enter_message(name: &str, arguments: &Vec<(String, String)>) -> (result: String)
    ensures
        result@ == enter_label(name@, arguments@.map_values(|a: (String, String)| (a.0@, a.1@))),
{
    let mut parts: Vec<String> = Vec::new();
    let mut i: usize = 0;
    while i < arguments.len()
        invariant
            i <= arguments.len(),
            parts.len() == i,
            forall|j: int|
                0 <= j < i ==> #[trigger] parts@[j]@ == arguments@[j].0@ + ": "@ + arguments@[j].1@,
        decreases arguments.len() - i,
    {
        let mut part: Vec<char> = Vec::new();
        push_str(&mut part, arguments[i].0.as_str());
        push_str(&mut part, ": ");
        push_str(&mut part, arguments[i].1.as_str());
        parts.push(string_from_chars(&part));
        i += 1;
    }
    assert(parts@.map_values(|s: String| s@) =~= arguments@.map_values(|a: (String, String)| (a.0@, a.1@)).map_values(
        |a: (Seq<char>, Seq<char>)| a.0 + ": "@ + a.1,
    ));
    let mut out: Vec<char> = Vec::new();
    push_str(&mut out, name);
    out.push('(');
    let joined = join_with_commas(&parts);
    push_chars(&mut out, &joined);
    out.push(')');
    proof {
        reveal_strlit("(");
        reveal_strlit(")");
    }
    string_from_chars(&out)
}

/// What `nix::errno::Errno` displays for an error number: its name, `: `
/// and its description.
pub uninterp spec fn errno_label(code: i32) -> Seq<char>;

/// Describes an error number.
/// Calls `nix::errno::Errno::from_raw` and displays the error; the contract
/// names the text (`errno_label`).
#[verifier::external_body]
fn errno_text(code: i32) -> (result: String)
    ensures
        result@ == errno_label(code),
{
    nix::errno::Errno::from_raw(code).to_string()
}

/// How the value that a system call returned is logged: a negative value
/// is an error number, described; any other is written in decimal.
pub open spec fn return_label(value: u64) -> Seq<char> {
    if (value as i64) < 0 {
        errno_label(-((value as i32) as int) as i32)
    } else {
        decimal_digits(value as nat)
    }
}

/// How a numeric argument of a system call is logged: the value of its
/// register in decimal.
pub fn render_number(value: u64) -> (result: String)
    ensures
        result@ == decimal_digits(value as nat),
{
    let mut out: Vec<char> = Vec::new();
    push_decimal_u64(&mut out, value);
    string_from_chars(&out)
}

/// How the value that a system call returned is logged (see
/// `return_label`).
pub fn format_return_value(value: u64) -> (result: String)
    requires
        (value as i64) < 0 ==> (value as i32) != i32::MIN,
    ensures
        result@ == return_label(value),
{
    if (value as i64) < 0 {
        let low = value as i32;
        errno_text(-low)
    } else {
        let mut out: Vec<char> = Vec::new();
        push_decimal_u64(&mut out, value);
        string_from_chars(&out)
    }
}

/// The line that says that a process left a system call that it was not
/// seen entering.
pub open spec fn exit_without_enter() -> Seq<char> {
    "error: exit without enter"@
}

/// A log of system calls: when enabled, the message of each entry is kept
/// until the process leaves the system call, and then logged with the
/// value it returned.
#[derive(Debug)]
pub enum Debugger {
    Disabled,
    Debugger { enter_log_messages: HashMap<i32, String> },
}

impl Debugger {
    /// The messages of the system calls that processes are inside, by
    /// process id; nothing when the log is disabled.
    pub open spec fn pending(&self) -> Option<Map<i32, Seq<char>>> {
        match self {
            Debugger::Disabled => None,
            Debugger::Debugger { enter_log_messages } => Some(
                enter_log_messages@.map_values(|m: String| m@),
            ),
        }
    }

    /// A log that is enabled or not.
    pub fn new(enabled: bool) -> (result: Debugger)
        ensures
            enabled ==> result.pending() == Some(Map::<i32, Seq<char>>::empty()),
            !enabled ==> result.pending() is None,
    {
        if enabled {
            let result = Debugger::Debugger { enter_log_messages: HashMap::new() };
            assert(result.pending().unwrap() =~= Map::<i32, Seq<char>>::empty());
            result
        } else {
            Debugger::Disabled
        }
    }

    /// Whether the log is enabled.
    pub fn is_enabled(&self) -> (result: bool)
        ensures
            result == self.pending() is Some,
    {
        match self {
            Debugger::Disabled => false,
            Debugger::Debugger { .. } => true,
        }
    }

    /// Keeps the message of a system call that process `pid` enters.
    pub fn log_enter(&mut self, pid: i32, message: String)
        ensures
            match old(self).pending() {
                None => final(self).pending() is None,
                Some(pending) => final(self).pending() == Some(pending.insert(pid, message@)),
            },
    {
        match self {
            Debugger::Disabled => {},
            Debugger::Debugger { enter_log_messages } => {
                let ghost before = enter_log_messages@;
                enter_log_messages.insert(pid, message);
                assert(enter_log_messages@.map_values(|m: String| m@) =~= before.map_values(|m: String| m@).insert(
                    pid,
                    message@,
                ));
            },
        }
    }

    /// The line to log when process `pid` leaves a system call with the
    /// return value shown as `returned`: the message of its entry, ` -> `
    /// and `returned`, or that no entry was seen; nothing when the log is
    /// disabled. The message of the entry is dropped.
    pub fn log_exit(&mut self, pid: i32, returned: &str) -> (result: Option<String>)
        ensures
            match old(self).pending() {
                None => result is None && final(self).pending() is None,
                Some(pending) => final(self).pending() == Some(pending.remove(pid)) && if pending.contains_key(
                    pid,
                ) {
                    result matches Some(line) && line@ == pending[pid] + " -> "@ + returned@
                } else {
                    result matches Some(line) && line@ == exit_without_enter()
                },
            },
    {
        match self {
            Debugger::Disabled => None,
            Debugger::Debugger { enter_log_messages } => {
                let ghost before = enter_log_messages@;
                proof {
                    reveal_strlit(" -> ");
                    reveal_strlit("error: exit without enter");
                }
                let line = match enter_log_messages.get(&pid) {
                    None => String::from_str("error: exit without enter"),
                    Some(message) => {
                        let mut out: Vec<char> = Vec::new();
                        push_str(&mut out, message.as_str());
                        push_str(&mut out, " -> ");
                        push_str(&mut out, returned);
                        string_from_chars(&out)
                    },
                };
                enter_log_messages.remove(&pid);
                assert(enter_log_messages@.map_values(|m: String| m@) =~= before.map_values(|m: String| m@).remove(
                    pid,
                ));
                Some(line)
            },
        }
    }
}

/// A process that enters a system call and leaves it is logged with the
/// message of its entry and what it returned, and the log is left as it
/// was before the entry.
pub proof fn lemma_entry_then_exit(pending: Map<i32, Seq<char>>, pid: i32, message: Seq<char>)
    requires
        !pending.contains_key(pid),
    ensures
        pending.insert(pid, message).contains_key(pid),
        pending.insert(pid, message)[pid] == message,
        pending.insert(pid, message).remove(pid) == pending,
{
    assert(pending.insert(pid, message).remove(pid) =~= pending);
}

} // verus!
