use vstd::prelude::*;

use crate::text::{decimal_digits, push_decimal_u64, push_str, string_from_chars, chars_of, push_chars};
use crate::ExitCode;

verus! {

/// The outcome of checking a script against one test.
#[derive(Debug, PartialEq)]
pub enum CheckerResult {
    Pass,
    Failure(String),
}

impl Clone for CheckerResult {
    /// A copy of the result.
    fn clone(&self) -> (result: CheckerResult)
        ensures
            result == *self,
    {
        match self {
            CheckerResult::Pass => CheckerResult::Pass,
            CheckerResult::Failure(message) => CheckerResult::Failure(message.clone()),
        }
    }
}

/// The report line that a step error adds: what was expected and what was
/// received.
pub open spec fn step_error_message(expected: Seq<char>, received: Seq<char>) -> Seq<char> {
    "  expected: "@ + expected + "\n  received: "@ + received + "\n"@
}

/// The report of one test: its header, then its error, or that it passed.
/// Without a number, the report of a failure has the header `error`.
pub open spec fn result_report(result: CheckerResult, number: Option<nat>) -> Seq<char> {
    match result {
        CheckerResult::Failure(error) => match number {
            None => "error:\n"@ + error@,
            Some(n) => "error in test "@ + decimal_digits(n) + ":\n"@ + error@,
        },
        CheckerResult::Pass => match number {
            None => seq![],
            Some(n) => "test "@ + decimal_digits(n) + ":\n  Tests passed.\n"@,
        },
    }
}

/// The reports of the first `n` tests, each with its number.
pub open spec fn numbered_reports(results: Seq<CheckerResult>, n: nat) -> Seq<char>
    decreases n,
{
    if n == 0 {
        seq![]
    } else {
        numbered_reports(results, (n - 1) as nat) + result_report(results[n - 1], Some(n))
    }
}

/// Whether every test passed.
pub open spec fn all_pass(results: Seq<CheckerResult>) -> bool {
    forall|i: int| 0 <= i < results.len() ==> results[i] is Pass
}

/// The report of a run: `All tests passed.` when every test passed; the
/// error alone when there is one test; else the numbered report of each test.
pub open spec fn results_report(results: Seq<CheckerResult>) -> Seq<char> {
    if all_pass(results) {
        "All tests passed.\n"@
    } else if results.len() == 1 {
        result_report(results[0], None)
    } else {
        numbered_reports(results, results.len())
    }
}

impl CheckerResult {
    /// Whether the test passed.
    pub fn is_pass(&self) -> (result: bool)
        ensures
            result == self is Pass,
    {
        match self {
            CheckerResult::Pass => true,
            CheckerResult::Failure(_) => false,
        }
    }

    /// Records an error; only the first error of a test is kept.
    pub fn register_error(&mut self, message: String)
        ensures
            *old(self) is Pass ==> *final(self) == CheckerResult::Failure(message),
            *old(self) is Failure ==> *final(self) == *old(self),
    {
        match self {
            CheckerResult::Pass => {
                *self = CheckerResult::Failure(message);
            },
            CheckerResult::Failure(_) => {},
        }
    }

    /// Records that `received` came where `expected` was due; only the first
    /// error of a test is kept.
    pub fn register_step_error(&mut self, expected: &str, received: &str)
        ensures
            *old(self) is Pass ==> (*final(self) matches CheckerResult::Failure(m) && m@
                == step_error_message(expected@, received@)),
            *old(self) is Failure ==> *final(self) == *old(self),
    {
        let mut out: Vec<char> = Vec::new();
        push_str(&mut out, "  expected: ");
        push_str(&mut out, expected);
        push_str(&mut out, "\n  received: ");
        push_str(&mut out, received);
        push_str(&mut out, "\n");
        proof {
            reveal_strlit("  expected: ");
            reveal_strlit("\n  received: ");
            reveal_strlit("\n");
        }
        let message = string_from_chars(&out);
        assert(message@ == step_error_message(expected@, received@));
        self.register_error(message);
    }

    /// The report of the test (see `result_report`); a passed test is only
    /// reported with its number.
    pub fn format(&self, number: Option<usize>) -> (result: String)
        requires
            self is Failure || number is Some,
        ensures
            result@ == result_report(
                *self,
                match number {
                    Some(n) => Some(n as nat),
                    None => None,
                },
            ),
    {
        let mut out: Vec<char> = Vec::new();
        proof {
            reveal_strlit("error:\n");
            reveal_strlit("error in test ");
            reveal_strlit(":\n");
            reveal_strlit("test ");
            reveal_strlit(":\n  Tests passed.\n");
        }
        match self {
            CheckerResult::Failure(error) => {
                match number {
                    None => push_str(&mut out, "error:\n"),
                    Some(n) => {
                        push_str(&mut out, "error in test ");
                        push_decimal_u64(&mut out, n as u64);
                        push_str(&mut out, ":\n");
                    },
                }
                push_str(&mut out, error.as_str());
            },
            CheckerResult::Pass => {
                let n = number.unwrap();
                push_str(&mut out, "test ");
                push_decimal_u64(&mut out, n as u64);
                push_str(&mut out, ":\n  Tests passed.\n");
            },
        }
        string_from_chars(&out)
    }
}

/// The outcomes of checking a script against each of its tests.
pub struct CheckerResults(pub Vec<CheckerResult>);

impl CheckerResults {
    /// Whether every test passed.
    pub fn is_pass(&self) -> (result: bool)
        ensures
            result == all_pass(self.0@),
    {
        let mut i: usize = 0;
        while i < self.0.len()
            invariant
                i <= self.0.len(),
                forall|j: int| 0 <= j < i ==> self.0@[j] is Pass,
            decreases self.0.len() - i,
        {
            if !self.0[i].is_pass() {
                return false;
            }
            i += 1;
        }
        true
    }

    /// The report of the run (see `results_report`).
    pub fn format(&self) -> (result: String)
        ensures
            result@ == results_report(self.0@),
    {
        proof {
            reveal_strlit("All tests passed.\n");
        }
        if self.is_pass() {
            return String::from_str("All tests passed.\n");
        }
        if self.0.len() == 1 {
            return self.0[0].format(None);
        }
        let mut out: Vec<char> = Vec::new();
        let mut i: usize = 0;
        while i < self.0.len()
            invariant
                i <= self.0.len(),
                out@ == numbered_reports(self.0@, i as nat),
            decreases self.0.len() - i,
        {
            let report = self.0[i].format(Some(i + 1));
            let report_chars = chars_of(report.as_str());
            push_chars(&mut out, &report_chars);
            i += 1;
        }
        string_from_chars(&out)
    }

    /// The exit code of the run: 0 when every test passed, else 1.
    pub fn exitcode(&self) -> (result: ExitCode)
        ensures
            result.0 == (if all_pass(self.0@) { 0i32 } else { 1i32 }),
    {
        if self.is_pass() {
            ExitCode(0)
        } else {
            ExitCode(1)
        }
    }
}

/// A run passes exactly when its exit code is 0, and then its report is
/// `All tests passed.`; otherwise the report is something else.
pub proof fn lemma_report_agrees_with_exitcode(results: Seq<CheckerResult>)
    ensures
        all_pass(results) <==> results_report(results) == "All tests passed.\n"@,
{
    reveal_strlit("All tests passed.\n");
    reveal_strlit("error:\n");
    reveal_strlit("error in test ");
    reveal_strlit("test ");
    if !all_pass(results) {
        let expected = "All tests passed.\n"@;
        if results.len() == 1 {
            let report = results_report(results);
            assert(results[0] is Failure);
            assert(report[0] == 'e');
            assert(expected[0] == 'A');
        } else {
            lemma_numbered_reports_start(results, results.len());
            let report = results_report(results);
            assert(report.len() > 0 && (report[0] == 'e' || report[0] == 't'));
            assert(expected[0] == 'A');
        }
    }
}

proof fn lemma_numbered_reports_start(results: Seq<CheckerResult>, n: nat)
    requires
        n <= results.len(),
        exists|i: int| 0 <= i < n && results[i] is Failure,
    ensures
        numbered_reports(results, n).len() > 0,
        numbered_reports(results, n)[0] == 'e' || numbered_reports(results, n)[0] == 't',
    decreases n,
{
    reveal_strlit("error in test ");
    reveal_strlit("test ");
    if n == 1 || numbered_reports(results, (n - 1) as nat).len() == 0 {
        let r = result_report(results[n - 1], Some(n));
        assert(r.len() > 0 && (r[0] == 'e' || r[0] == 't'));
        assert(numbered_reports(results, n) == numbered_reports(results, (n - 1) as nat) + r);
        if numbered_reports(results, (n - 1) as nat).len() == 0 {
            assert(numbered_reports(results, n) =~= r);
        }
    } else {
        lemma_numbered_reports_nonempty_start(results, (n - 1) as nat);
        assert(numbered_reports(results, n)[0] == numbered_reports(results, (n - 1) as nat)[0]);
    }
}

proof fn lemma_numbered_reports_nonempty_start(results: Seq<CheckerResult>, n: nat)
    requires
        n <= results.len(),
        numbered_reports(results, n).len() > 0,
    ensures
        numbered_reports(results, n)[0] == 'e' || numbered_reports(results, n)[0] == 't',
    decreases n,
{
    reveal_strlit("error in test ");
    reveal_strlit("test ");
    if n > 0 {
        if numbered_reports(results, (n - 1) as nat).len() == 0 {
            let r = result_report(results[n - 1], Some(n));
            assert(numbered_reports(results, n) =~= r);
        } else {
            lemma_numbered_reports_nonempty_start(results, (n - 1) as nat);
            assert(numbered_reports(results, n)[0] == numbered_reports(results, (n - 1) as nat)[0]);
        }
    }
}

} // verus!
