use vstd::prelude::*;

use crate::command::{format_command, Command, CommandView};
use crate::executable_path::{compare_executables, same_path, shown_form};
use crate::text::{push_str, string_from_chars};

verus! {

/// What `regex::Regex::new` reports for a pattern: `None` when the pattern
/// compiles, else the message of the error.
pub uninterp spec fn regex_error(pattern: Seq<char>) -> Option<Seq<char>>;

/// What `regex::Regex::is_match` answers for a compiled pattern and a text.
pub uninterp spec fn regex_matches(pattern: Seq<char>, text: Seq<char>) -> bool;

/// Compiles a pattern and reports the error, if any.
/// Calls `regex::Regex::new`; the contract names the outcome (`regex_error`).
#[verifier::external_body]
fn compile_regex(pattern: &str) -> (result: Option<String>)
    ensures
        match result {
            None => regex_error(pattern@) is None,
            Some(message) => regex_error(pattern@) == Some(message@),
        },
{
    match regex::Regex::new(pattern) {
        Ok(_) => None,
        Err(error) => Some(error.to_string()),
    }
}

/// Whether a compiled pattern matches somewhere in a text.
/// Calls `regex::Regex::new` and then `regex::Regex::is_match`; the contract
/// names the answer (`regex_matches`) for a pattern that compiles.
#[verifier::external_body]
fn regex_is_match(pattern: &str, text: &str) -> (result: bool)
    requires
        regex_error(pattern@) is None,
    ensures
        result == regex_matches(pattern@, text@),
{
    match regex::Regex::new(pattern) {
        Ok(regex) => regex.is_match(text),
        Err(_) => false,
    }
}

/// A pattern anchored at both ends, so that it matches only whole texts.
pub open spec fn anchored(pattern: Seq<char>) -> Seq<char> {
    seq!['^'] + pattern + seq!['$']
}

/// A regular expression that has to match a whole command line.
#[derive(Debug)]
pub struct AnchoredRegex {
    original_string: String,
    anchored_string: String,
}

impl AnchoredRegex {
    #[verifier::type_invariant]
    spec fn well_formed(self) -> bool {
        &&& self.anchored_string@ == anchored(self.original_string@)
        &&& regex_error(self.anchored_string@) is None
    }

    /// The pattern as written in the test file.
    pub closed spec fn source(&self) -> Seq<char> {
        self.original_string@
    }

    /// Compiles the pattern, anchored at both ends; gives the message of the
    /// error when the anchored pattern does not compile.
    pub fn new(raw_regex: &str) -> (result: Result<AnchoredRegex, String>)
        ensures
            match regex_error(anchored(raw_regex@)) {
                None => result matches Ok(r) && r.source() == raw_regex@,
                Some(message) => result matches Err(m) && m@ == message,
            },
    {
        let mut out: Vec<char> = Vec::new();
        out.push('^');
        push_str(&mut out, raw_regex);
        out.push('$');
        assert(out@ =~= anchored(raw_regex@));
        let anchored_string = string_from_chars(&out);
        match compile_regex(anchored_string.as_str()) {
            None => Ok(AnchoredRegex { original_string: String::from_str(raw_regex), anchored_string }),
            Some(message) => Err(message),
        }
    }

    /// The pattern as written in the test file.
    pub fn original_string(&self) -> (result: String)
        ensures
            result@ == self.source(),
            regex_error(anchored(result@)) is None,
    {
        proof {
            use_type_invariant(self);
        }
        self.original_string.clone()
    }

    /// Whether the anchored pattern matches the text.
    pub fn is_match(&self, other: &str) -> (result: bool)
        ensures
            result == regex_matches(anchored(self.source()), other@),
    {
        proof {
            use_type_invariant(self);
        }
        regex_is_match(self.anchored_string.as_str(), other)
    }

    /// Two regexes are equal when they are written the same.
    pub fn eq(&self, other: &AnchoredRegex) -> (result: bool)
        ensures
            result == (self.source() == other.source()),
    {
        self.original_string == other.original_string
    }
}

impl Clone for AnchoredRegex {
    /// A copy of the regex.
    fn clone(&self) -> (result: AnchoredRegex)
        ensures
            result.source() == self.source(),
    {
        proof {
            use_type_invariant(self);
        }
        AnchoredRegex {
            original_string: self.original_string.clone(),
            anchored_string: self.anchored_string.clone(),
        }
    }
}

impl Clone for CommandMatcher {
    /// A copy of the matcher.
    fn clone(&self) -> (result: CommandMatcher)
        ensures
            match (self, result) {
                (CommandMatcher::ExactMatch(a), CommandMatcher::ExactMatch(b)) => a.view() == b.view(),
                (CommandMatcher::RegexMatch(a), CommandMatcher::RegexMatch(b)) => a.source() == b.source(),
                _ => false,
            },
    {
        match self {
            CommandMatcher::ExactMatch(command) => CommandMatcher::ExactMatch(command.clone()),
            CommandMatcher::RegexMatch(regex) => CommandMatcher::RegexMatch(regex.clone()),
        }
    }
}

/// What a step of a test expects of a command: the command itself, or a
/// command line that a regular expression matches.
#[derive(Debug)]
pub enum CommandMatcher {
    ExactMatch(Command),
    RegexMatch(AnchoredRegex),
}

/// Whether two argument lists are the same.
pub fn same_arguments(a: &Vec<String>, b: &Vec<String>) -> (result: bool)
    ensures
        result == (a@.map_values(|s: String| s@) == b@.map_values(|s: String| s@)),
{
    if a.len() != b.len() {
        assert(a@.map_values(|s: String| s@).len() != b@.map_values(|s: String| s@).len());
        return false;
    }
    let mut i: usize = 0;
    while i < a.len()
        invariant
            a.len() == b.len(),
            i <= a.len(),
            forall|j: int| 0 <= j < i ==> a[j]@ == b[j]@,
        decreases a.len() - i,
    {
        if a[i] != b[i] {
            assert(a@.map_values(|s: String| s@)[i as int] != b@.map_values(|s: String| s@)[i as int]);
            return false;
        }
        i += 1;
    }
    assert(a@.map_values(|s: String| s@) =~= b@.map_values(|s: String| s@));
    true
}

impl Command {
    /// Whether two commands are the same: the executables are the same once
    /// put in the form in which they are shown, and the arguments are equal.
    pub fn compare(&self, other: &Command) -> (result: bool)
        ensures
            exists|ca: Seq<char>, cb: Seq<char>|
                #![trigger shown_form(Seq::empty(), self.executable@, ca), shown_form(Seq::empty(), other.executable@, cb)]
                shown_form(Seq::empty(), self.executable@, ca) && shown_form(
                    Seq::empty(),
                    other.executable@,
                    cb,
                ) && result == (same_path(ca, cb) && self.view().arguments
                    == other.view().arguments),
    {
        let no_mocks: Vec<String> = Vec::new();
        assert(no_mocks@ == Seq::<String>::empty());
        let same_executable = compare_executables(
            &no_mocks,
            self.executable.as_str(),
            other.executable.as_str(),
        );
        same_executable && same_arguments(&self.arguments, &other.arguments)
    }
}

/// Whether a matcher accepts a command, given the form in which the
/// expected executable and the received one are shown.
pub open spec fn matcher_accepts(
    matcher: &CommandMatcher,
    received: CommandView,
    expected_shown: Seq<char>,
    received_shown: Seq<char>,
) -> bool {
    match matcher {
        CommandMatcher::ExactMatch(command) => same_path(expected_shown, received_shown)
            && command.view().arguments == received.arguments,
        CommandMatcher::RegexMatch(regex) => regex_matches(
            anchored(regex.source()),
            format_command(received_shown, received.arguments),
        ),
    }
}

/// How a matcher is shown in a report.
pub open spec fn matcher_shown(matcher: &CommandMatcher, shown: Seq<char>) -> Seq<char> {
    match matcher {
        CommandMatcher::ExactMatch(command) => format_command(shown, command.view().arguments),
        CommandMatcher::RegexMatch(regex) => regex.source(),
    }
}

impl CommandMatcher {
    /// Whether the matcher accepts the received command.
    pub fn matches(&self, other: &Command) -> (result: bool)
        ensures
            exists|ca: Seq<char>, cb: Seq<char>|
                #![trigger shown_form(Seq::empty(), expected_executable(self), ca), shown_form(Seq::empty(), other.executable@, cb)]
                shown_form(Seq::empty(), expected_executable(self), ca) && shown_form(
                    Seq::empty(),
                    other.executable@,
                    cb,
                ) && result == matcher_accepts(self, other.view(), ca, cb),
    {
        match self {
            CommandMatcher::ExactMatch(command) => command.compare(other),
            CommandMatcher::RegexMatch(regex) => {
                let line = other.format();
                let result = regex.is_match(line.as_str());
                let ghost cb = choose|cb: Seq<char>|
                    shown_form(Seq::empty(), other.executable@, cb) && #[trigger] format_command(
                        cb,
                        other.view().arguments,
                    ) == line@;
                assert(shown_form(Seq::empty(), expected_executable(self), seq![]));
                assert(shown_form(Seq::empty(), other.executable@, cb));
                result
            },
        }
    }

    /// How the matcher is shown in a report: the command line of an exact
    /// command, the pattern of a regex.
    pub fn format(&self) -> (result: String)
        ensures
            exists|shown: Seq<char>|
                shown_form(Seq::empty(), expected_executable(self), shown) && result@
                    == #[trigger] matcher_shown(self, shown),
    {
        match self {
            CommandMatcher::ExactMatch(command) => {
                let result = command.format();
                let ghost shown = choose|shown: Seq<char>|
                    shown_form(Seq::empty(), command.executable@, shown) && #[trigger] format_command(
                        shown,
                        command.view().arguments,
                    ) == result@;
                assert(matcher_shown(self, shown) == result@);
                result
            },
            CommandMatcher::RegexMatch(regex) => {
                let result = regex.original_string();
                assert(shown_form(Seq::empty(), expected_executable(self), seq![]));
                assert(matcher_shown(self, seq![]) == result@);
                result
            },
        }
    }
}

/// The expected executable of an exact matcher; nothing for a regex.
pub open spec fn expected_executable(matcher: &CommandMatcher) -> Seq<char> {
    match matcher {
        CommandMatcher::ExactMatch(command) => command.executable@,
        CommandMatcher::RegexMatch(_) => seq![],
    }
}

} // verus!
