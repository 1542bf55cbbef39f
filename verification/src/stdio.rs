use vstd::prelude::*;

verus! {

/// One of the two output streams of the tested script.
#[derive(Debug, Clone, Copy, PartialEq, Eq, Structural)]
pub enum StreamType {
    Stdout,
    Stderr,
}

/// The name of a stream.
pub open spec fn stream_name(stream: StreamType) -> Seq<char> {
    match stream {
        StreamType::Stdout => "stdout"@,
        StreamType::Stderr => "stderr"@,
    }
}

impl StreamType {
    /// The name of the stream: `stdout` or `stderr`.
    pub fn name(&self) -> (result: String)
        ensures
            result@ == stream_name(*self),
    {
        match self {
            StreamType::Stdout => String::from_str("stdout"),
            StreamType::Stderr => String::from_str("stderr"),
        }
    }
}

/// Which output streams of the tested script are captured, besides being
/// relayed to the user.
#[derive(Debug, Clone, Copy, PartialEq, Eq, Structural)]
pub struct Capture {
    pub stdout: bool,
    pub stderr: bool,
}

impl Capture {
    /// Captures the streams whose output a test expects.
    pub fn for_test(test: &crate::test_spec::Test) -> (result: Capture)
        ensures
            result.stdout == test.stdout is Some,
            result.stderr == test.stderr is Some,
    {
        Capture { stdout: test.stdout.is_some(), stderr: test.stderr.is_some() }
    }
}

} // verus!
