use vstd::prelude::*;

use crate::text::{decimal_digits, push_decimal_u64, push_str, string_from_chars, chars_of, push_chars};
use crate::ExitCode;

verus! {

/// The outcome of checking a script against one protocol.
#[derive(Debug, PartialEq)]
pub enum TestResult {
    Pass,
    Failure(String),
}

impl Clone for TestResult {
    /// A copy of the result.
    fn clone(&self) -> (result: TestResult)
        ensures
            result == *self,
    {
        match self {
            TestResult::Pass => TestResult::Pass,
            TestResult::Failure(message) => TestResult::Failure(message.clone()),
        }
    }
}

/// The report line that a step error adds: what was expected and what was
/// received.
pub open spec fn protocol_step_error_message(expected: Seq<char>, received: Seq<char>) -> Seq<char> {
    "  expected: "@ + expected + "\n  received: "@ + received + "\n"@
}

/// The report of one protocol: its header, then its error, or that it passed.
/// Without a number, the report of a failure has the header `error`.
pub open spec fn protocol_report(result: TestResult, number: Option<nat>) -> Seq<char> {
    match result {
        TestResult::Failure(error) => match number {
            None => "error:\n"@ + error@,
            Some(n) => "error in protocol "@ + decimal_digits(n) + ":\n"@ + error@,
        },
        TestResult::Pass => match number {
            None => seq![],
            Some(n) => "protocol "@ + decimal_digits(n) + ":\n  Tests passed.\n"@,
        },
    }
}

/// The reports of the first `n` protocols, each with its number.
pub open spec fn numbered_protocol_reports(results: Seq<TestResult>, n: nat) -> Seq<char>
    decreases n,
{
    if n == 0 {
        seq![]
    } else {
        numbered_protocol_reports(results, (n - 1) as nat) + protocol_report(results[n - 1], Some(n))
    }
}

/// Whether every protocol passed.
pub open spec fn all_protocols_pass(results: Seq<TestResult>) -> bool {
    forall|i: int| 0 <= i < results.len() ==> results[i] is Pass
}

/// The report of a run: `All tests passed.` when every protocol passed; the
/// error alone when there is one protocol; else the numbered report of each
/// protocol.
pub open spec fn protocol_results_report(results: Seq<TestResult>) -> Seq<char> {
    if all_protocols_pass(results) {
        "All tests passed.\n"@
    } else if results.len() == 1 {
        protocol_report(results[0], None)
    } else {
        numbered_protocol_reports(results, results.len())
    }
}

impl TestResult {
    /// Whether the protocol passed.
    pub fn is_pass(&self) -> (result: bool)
        ensures
            result == self is Pass,
    {
        match self {
            TestResult::Pass => true,
            TestResult::Failure(_) => false,
        }
    }

    /// Records an error; only the first error of a protocol is kept.
    pub fn register_error(&mut self, message: String)
        ensures
            *old(self) is Pass ==> *final(self) == TestResult::Failure(message),
            *old(self) is Failure ==> *final(self) == *old(self),
    {
        match self {
            TestResult::Pass => {
                *self = TestResult::Failure(message);
            },
            TestResult::Failure(_) => {},
        }
    }

    /// Records that `received` came where `expected` was due; only the first
    /// error of a protocol is kept.
    pub fn register_step_error(&mut self, expected: &str, received: &str)
        ensures
            *old(self) is Pass ==> (*final(self) matches TestResult::Failure(m) && m@
                == protocol_step_error_message(expected@, received@)),
            *old(self) is Failure ==> *final(self) == *old(self),
    {
        let mut out: Vec<char> = Vec::new();
        push_str(&mut out, "  expected: ");
        push_str(&mut out, expected);
        push_str(&mut out, "\n  received: ");
        push_str(&mut out, received);
        push_str(&mut out, "\n");
        proof {
            reveal_strlit("  expected: ");
            reveal_strlit("\n  received: ");
            reveal_strlit("\n");
        }
        let message = string_from_chars(&out);
        assert(message@ == protocol_step_error_message(expected@, received@));
        self.register_error(message);
    }

    /// The report of the protocol (see `protocol_report`); a passed protocol is only
    /// reported with its number.
    pub fn format(&self, number: Option<usize>) -> (result: String)
        requires
            self is Failure || number is Some,
        ensures
            result@ == protocol_report(
                *self,
                match number {
                    Some(n) => Some(n as nat),
                    None => None,
                },
            ),
    {
        let mut out: Vec<char> = Vec::new();
        proof {
            reveal_strlit("error:\n");
            reveal_strlit("error in protocol ");
            reveal_strlit(":\n");
            reveal_strlit("protocol ");
            reveal_strlit(":\n  Tests passed.\n");
        }
        match self {
            TestResult::Failure(error) => {
                match number {
                    None => push_str(&mut out, "error:\n"),
                    Some(n) => {
                        push_str(&mut out, "error in protocol ");
                        push_decimal_u64(&mut out, n as u64);
                        push_str(&mut out, ":\n");
                    },
                }
                push_str(&mut out, error.as_str());
            },
            TestResult::Pass => {
                let n = number.unwrap();
                push_str(&mut out, "protocol ");
                push_decimal_u64(&mut out, n as u64);
                push_str(&mut out, ":\n  Tests passed.\n");
            },
        }
        string_from_chars(&out)
    }
}

/// The outcomes of checking a script against each of its protocols.
pub struct TestResults(pub Vec<TestResult>);

impl TestResults {
    /// Whether every protocol passed.
    pub fn is_pass(&self) -> (result: bool)
        ensures
            result == all_protocols_pass(self.0@),
    {
        let mut i: usize = 0;
        while i < self.0.len()
            invariant
                i <= self.0.len(),
                forall|j: int| 0 <= j < i ==> self.0@[j] is Pass,
            decreases self.0.len() - i,
        {
            if !self.0[i].is_pass() {
                return false;
            }
            i += 1;
        }
        true
    }

    /// The report of the run (see `protocol_results_report`).
    pub fn format_test_results(&self) -> (result: String)
        ensures
            result@ == protocol_results_report(self.0@),
    {
        proof {
            reveal_strlit("All tests passed.\n");
        }
        if self.is_pass() {
            return String::from_str("All tests passed.\n");
        }
        if self.0.len() == 1 {
            return self.0[0].format(None);
        }
        let mut out: Vec<char> = Vec::new();
        let mut i: usize = 0;
        while i < self.0.len()
            invariant
                i <= self.0.len(),
                out@ == numbered_protocol_reports(self.0@, i as nat),
            decreases self.0.len() - i,
        {
            let report = self.0[i].format(Some(i + 1));
            let report_chars = chars_of(report.as_str());
            push_chars(&mut out, &report_chars);
            i += 1;
        }
        string_from_chars(&out)
    }

    /// The exit code of the run: 0 when every protocol passed, else 1.
    pub fn exitcode(&self) -> (result: ExitCode)
        ensures
            result.0 == (if all_protocols_pass(self.0@) { 0i32 } else { 1i32 }),
    {
        if self.is_pass() {
            ExitCode(0)
        } else {
            ExitCode(1)
        }
    }
}

} // verus!
