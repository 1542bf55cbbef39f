use vstd::prelude::*;

pub mod argument;
pub mod argument_parser;
pub mod checker_result;
pub mod cli;
pub mod command;
pub mod command_matcher;
pub mod context;
pub mod debugging;
pub mod marker;
pub mod recorder;
pub mod serialization;
pub mod short_temp_files;
pub mod stdio;
pub mod syscall;
pub mod directory_entry;
pub mod executable_mock;
pub mod executable_path;
pub mod test_checker;
pub mod test_result;
pub mod test_spec;
pub mod text;
pub mod tracee_memory;
pub mod tracer;
pub mod utils;
pub mod words;
pub mod yaml;

verus! {

/// The exit code that the program ends with.
#[derive(Debug, PartialEq, Eq, Structural, Clone, Copy)]
pub struct ExitCode(pub i32);

} // verus!
