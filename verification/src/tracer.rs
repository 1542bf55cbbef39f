use vstd::prelude::*;

use crate::text::{push_str, str_bytes, string_from_chars};
use crate::test_spec::pairs_view;

verus! {

/// What the tested program is run with: the executable to run, its
/// arguments (the first naming the executable) and its environment, as
/// byte strings.
#[derive(Debug)]
pub struct ExecveParams {
    pub executable: Vec<u8>,
    pub arguments: Vec<Vec<u8>>,
    pub environment: Vec<Vec<u8>>,
}

/// The UTF-8 bytes of a text.
pub open spec fn bytes_of(text: Seq<char>) -> Seq<u8> {
    vstd::utf8::encode_utf8(text)
}

/// An environment entry: the key, `=` and the value.
pub open spec fn environment_entry(key: Seq<char>, value: Seq<char>) -> Seq<u8> {
    bytes_of(key + "="@ + value)
}

/// Runs the program with its arguments and environment; with an
/// interpreter, the interpreter runs it, with the program as its first
/// argument.
pub fn execve_params(
    interpreter: &Option<String>,
    program: &str,
    args: &Vec<String>,
    env: &Vec<(String, String)>,
) -> (result: ExecveParams)
    ensures
        result.environment@.len() == env@.len(),
        forall|i: int|
            0 <= i < env@.len() ==> #[trigger] result.environment@[i]@ == environment_entry(
                env@[i].0@,
                env@[i].1@,
            ),
        match interpreter {
            None => {
                &&& result.executable@ == bytes_of(program@)
                &&& result.arguments@.len() == args@.len() + 1
                &&& result.arguments@[0]@ == bytes_of(program@)
                &&& forall|i: int| 0 <= i < args@.len() ==> #[trigger] result.arguments@[i + 1]@ == bytes_of(args@[i]@)
            },
            Some(interpreter) => {
                &&& result.executable@ == bytes_of(interpreter@)
                &&& result.arguments@.len() == args@.len() + 2
                &&& result.arguments@[0]@ == bytes_of(interpreter@)
                &&& result.arguments@[1]@ == bytes_of(program@)
                &&& forall|i: int| 0 <= i < args@.len() ==> #[trigger] result.arguments@[i + 2]@ == bytes_of(args@[i]@)
            },
        },
{
    let mut arguments: Vec<Vec<u8>> = Vec::new();
    let offset: usize = match interpreter {
        Some(interpreter) => {
            arguments.push(str_bytes(interpreter.as_str()));
            1
        },
        None => 0,
    };
    arguments.push(str_bytes(program));
    let mut i: usize = 0;
    while i < args.len()
        invariant
            i <= args.len(),
            offset == (if interpreter is Some { 1usize } else { 0usize }),
            arguments@.len() == offset + 1 + i,
            interpreter matches Some(s) ==> arguments@[0]@ == bytes_of(s@),
            arguments@[offset as int]@ == bytes_of(program@),
            forall|j: int| 0 <= j < i ==> #[trigger] arguments@[offset + 1 + j]@ == bytes_of(args@[j]@),
        decreases args.len() - i,
    {
        arguments.push(str_bytes(args[i].as_str()));
        i += 1;
    }
    assert forall|j: int| 0 <= j < args@.len() implies #[trigger] arguments@[offset + 1 + j]@ == bytes_of(args@[j]@) by {}
    if offset == 0 {
        assert forall|j: int| 0 <= j < args@.len() implies #[trigger] arguments@[j + 1]@ == bytes_of(args@[j]@) by {
            assert(arguments@[offset + 1 + j] == arguments@[j + 1]);
        }
    } else {
        assert forall|j: int| 0 <= j < args@.len() implies #[trigger] arguments@[j + 2]@ == bytes_of(args@[j]@) by {
            assert(arguments@[offset + 1 + j] == arguments@[j + 2]);
        }
    }
    let mut environment: Vec<Vec<u8>> = Vec::new();
    let mut k: usize = 0;
    while k < env.len()
        invariant
            k <= env.len(),
            environment@.len() == k,
            forall|j: int| 0 <= j < k ==> #[trigger] environment@[j]@ == environment_entry(env@[j].0@, env@[j].1@),
        decreases env.len() - k,
    {
        let mut entry: Vec<char> = Vec::new();
        push_str(&mut entry, env[k].0.as_str());
        push_str(&mut entry, "=");
        push_str(&mut entry, env[k].1.as_str());
        let text = string_from_chars(&entry);
        environment.push(str_bytes(text.as_str()));
        k += 1;
    }
    let executable = match interpreter {
        Some(interpreter) => str_bytes(interpreter.as_str()),
        None => str_bytes(program),
    };
    ExecveParams { executable, arguments, environment }
}

/// What names the interpreter in the message for a failed `execve`: the
/// interpreter of the test file, else the hashbang line of the program,
/// else the words `your interpreter`.
pub open spec fn interpreter_hint(interpreter: Option<Seq<char>>, hashbang: Option<Seq<char>>) -> Seq<char> {
    match interpreter {
        Some(i) => i,
        None => match hashbang {
            Some(h) => h,
            None => "your interpreter"@,
        },
    }
}

/// The message for a failed `execve` of the tested program.
pub open spec fn execve_error_message(
    error: Seq<char>,
    program: Seq<char>,
    interpreter: Option<Seq<char>>,
    hashbang: Option<Seq<char>>,
) -> Seq<char> {
    "execve'ing "@ + program + " failed with error: "@ + error + "\nDoes "@ + interpreter_hint(interpreter, hashbang)
        + " exist?"@
}

/// The message for a failed `execve` of the tested program (see
/// `execve_error_message`), given the error, the interpreter of the test
/// file and the hashbang line of the program.
pub fn format_execve_error(error: &str, program: &str, interpreter: &Option<String>, hashbang: Option<String>) -> (result:
    String)
    ensures
        result@ == execve_error_message(
            error@,
            program@,
            match interpreter {
                Some(i) => Some(i@),
                None => None,
            },
            match hashbang {
                Some(h) => Some(h@),
                None => None,
            },
        ),
{
    let mut out: Vec<char> = Vec::new();
    push_str(&mut out, "execve'ing ");
    push_str(&mut out, program);
    push_str(&mut out, " failed with error: ");
    push_str(&mut out, error);
    push_str(&mut out, "\nDoes ");
    match interpreter {
        Some(interpreter) => push_str(&mut out, interpreter.as_str()),
        None => match hashbang {
            Some(line) => push_str(&mut out, line.as_str()),
            None => push_str(&mut out, "your interpreter"),
        },
    }
    push_str(&mut out, " exist?");
    proof {
        reveal_strlit("execve'ing ");
        reveal_strlit(" failed with error: ");
        reveal_strlit("\nDoes ");
        reveal_strlit(" exist?");
        reveal_strlit("your interpreter");
    }
    string_from_chars(&out)
}

} // verus!
