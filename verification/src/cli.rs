use vstd::prelude::*;

verus! {

/// What the command line asks for: to act as a mock executable, or to run
/// the tests of a script (or record one).
#[derive(Debug, PartialEq, Eq)]
pub enum Args {
    ExecutableMock { executable_mock_path: String },
    Scriptkeeper { script_path: String, record: bool },
}

/// The error that the command-line parser reports.
#[verifier::external_type_specification]
#[verifier::external_body]
pub struct ExClapError(clap::Error);

/// What the command-line parser gives for the arguments of a test run: the
/// program to test and whether `--record` (or `-r`) was given; `None` when
/// it rejects them.
pub uninterp spec fn scriptkeeper_command_line(args: Seq<Seq<char>>) -> Option<(Seq<char>, bool)>;

/// The arguments as values.
pub open spec fn arguments_view(args: Seq<String>) -> Seq<Seq<char>> {
    args.map_values(|a: String| a@)
}

/// Parses the command line of a test run.
/// Calls `clap::App::get_matches_from_safe` on an app named `scriptkeeper`
/// with a flag `record` (`-r`, `--record`) and a required positional
/// argument `program`; the contract names the outcome
/// (`scriptkeeper_command_line`), the error kept as clap's own.
#[verifier::external_body]
fn parse_scriptkeeper_args(args: &Vec<String>) -> (result: Result<(String, bool), clap::Error>)
    ensures
        match result {
            Ok((program, record)) => scriptkeeper_command_line(arguments_view(args@)) == Some((program@, record)),
            Err(_) => scriptkeeper_command_line(arguments_view(args@)) is None,
        },
{
    let record = clap::Arg::with_name("record").short("r").long("record").help(
        "[EXPERIMENTAL] Runs the script (without mocking out anything), records a test case and prints it to stdout",
    );
    let program = clap::Arg::with_name("program").help("the program to test").required(true).index(1);
    let matches = clap::App::new("scriptkeeper").arg(record).arg(program).get_matches_from_safe(args)?;
    Ok((matches.value_of("program").unwrap_or("").to_string(), matches.is_present("record")))
}

/// Parses the command line (the program name first). With
/// `--executable-mock` as the first argument, the next one is the path of
/// the mock executable, and what follows is ignored.
pub fn parse_args_safe(args: Vec<String>) -> (result: Result<Args, clap::Error>)
    requires
        args.len() > 1 && args[1]@ == "--executable-mock"@ ==> args.len() > 2,
    ensures
        args.len() > 1 && args[1]@ == "--executable-mock"@ ==> (result matches Ok(
            Args::ExecutableMock { executable_mock_path },
        ) && executable_mock_path@ == args[2]@),
        !(args.len() > 1 && args[1]@ == "--executable-mock"@) ==> match scriptkeeper_command_line(
            arguments_view(args@),
        ) {
            Some((program, record)) => result matches Ok(Args::Scriptkeeper { script_path, record: r })
                && script_path@ == program && r == record,
            None => result is Err,
        },
{
    let flag = String::from_str("--executable-mock");
    if args.len() > 1 && args[1] == flag {
        return Ok(Args::ExecutableMock { executable_mock_path: args[2].clone() });
    }
    match parse_scriptkeeper_args(&args) {
        Ok((script_path, record)) => Ok(Args::Scriptkeeper { script_path, record }),
        Err(error) => Err(error),
    }
}

} // verus!
