use vstd::prelude::*;

use crate::argument::{Argument, ArgumentView};
use crate::text::{chars_of, debug_quoted, debug_string, push_chars, push_str, string_from_chars};

verus! {

/// What can go wrong when splitting a command line into words.
#[derive(Debug, Clone, Copy, PartialEq, Eq)]
pub enum ArgumentError {
    /// The input ends with a backslash.
    TrailingBackslash,
    /// A backslash is followed by a character that cannot be escaped.
    UnknownEscape(char),
    /// A quoted word is never closed.
    UnmatchedQuotes,
    /// A closing quote is followed by something other than a space.
    ClosingQuotesNotFollowedBySpace,
    /// An opening quote follows a word without a space in between.
    OpeningQuotesNotPrecededBySpace,
}

/// The character that an escape sequence `\c` stands for, if any.
pub open spec fn decode_escape(c: char) -> Option<char> {
    if c == '"' {
        Some('"')
    } else if c == 'n' {
        Some('\n')
    } else if c == ' ' {
        Some(' ')
    } else if c == '\\' {
        Some('\\')
    } else {
        None
    }
}

/// The position of the first character at or after `pos` that is not a space.
pub open spec fn spaces_end(s: Seq<char>, pos: int) -> int
    decreases s.len() - pos,
{
    if 0 <= pos < s.len() && s[pos] == ' ' {
        spaces_end(s, pos + 1)
    } else {
        pos
    }
}

/// Reads characters from `pos` up to the end of the input or up to an
/// unescaped character of `excluded`, decoding escape sequences.
/// Gives the characters read and the position where reading stopped.
pub open spec fn chars_until(s: Seq<char>, pos: int, excluded: Seq<char>) -> Result<
    (Seq<char>, int),
    ArgumentError,
>
    decreases s.len() - pos,
{
    if pos < 0 || pos >= s.len() {
        Ok((seq![], pos))
    } else if s[pos] == '\\' {
        if pos + 1 >= s.len() {
            Err(ArgumentError::TrailingBackslash)
        } else {
            match decode_escape(s[pos + 1]) {
                None => Err(ArgumentError::UnknownEscape(s[pos + 1])),
                Some(c) => match chars_until(s, pos + 2, excluded) {
                    Ok((word, end)) => Ok((seq![c] + word, end)),
                    Err(e) => Err(e),
                },
            }
        }
    } else if excluded.contains(s[pos]) {
        Ok((seq![], pos))
    } else {
        match chars_until(s, pos + 1, excluded) {
            Ok((word, end)) => Ok((seq![s[pos]] + word, end)),
            Err(e) => Err(e),
        }
    }
}

/// The next character at `pos`, decoding an escape sequence, and the
/// position after it; `None` at the end of the input or at an unescaped
/// character of `excluded`.
pub open spec fn char_at(s: Seq<char>, pos: int, excluded: Seq<char>) -> Result<
    Option<(char, int)>,
    ArgumentError,
> {
    if pos < 0 || pos >= s.len() {
        Ok(None)
    } else if s[pos] == '\\' {
        if pos + 1 >= s.len() {
            Err(ArgumentError::TrailingBackslash)
        } else {
            match decode_escape(s[pos + 1]) {
                None => Err(ArgumentError::UnknownEscape(s[pos + 1])),
                Some(c) => Ok(Some((c, pos + 2))),
            }
        }
    } else if excluded.contains(s[pos]) {
        Ok(None)
    } else {
        Ok(Some((s[pos], pos + 1)))
    }
}

/// The word that starts at or after `pos` (after spaces), and the position
/// after it; `None` when only spaces are left.
pub open spec fn word_at(s: Seq<char>, pos: int) -> Result<Option<(Seq<char>, int)>, ArgumentError> {
    let start = spaces_end(s, pos);
    if start < 0 || start >= s.len() {
        Ok(None)
    } else if s[start] == '"' {
        match chars_until(s, start + 1, seq!['"']) {
            Err(e) => Err(e),
            Ok((word, end)) => {
                if end >= s.len() || s[end] != '"' {
                    Err(ArgumentError::UnmatchedQuotes)
                } else if end + 1 < s.len() && s[end + 1] != ' ' {
                    Err(ArgumentError::ClosingQuotesNotFollowedBySpace)
                } else {
                    Ok(Some((word, end + 1)))
                }
            },
        }
    } else {
        match chars_until(s, start, seq![' ', '"']) {
            Err(e) => Err(e),
            Ok((word, end)) => {
                if end < s.len() && s[end] != ' ' {
                    Err(ArgumentError::OpeningQuotesNotPrecededBySpace)
                } else {
                    Ok(Some((word, end)))
                }
            },
        }
    }
}

/// All words from `pos` to the end of the input, or the first error.
pub open spec fn words_from(s: Seq<char>, pos: int) -> Result<Seq<Seq<char>>, ArgumentError>
    decreases s.len() - pos,
{
    match word_at(s, pos) {
        Err(e) => Err(e),
        Ok(None) => Ok(seq![]),
        Ok(Some((word, next))) => {
            proof {
                lemma_word_at_advances(s, pos);
            }
            match words_from(s, next) {
                Ok(rest) => Ok(seq![word] + rest),
                Err(e) => Err(e),
            }
        },
    }
}

/// The words of a command line: words are separated by spaces, may be put
/// in double quotes, and `\"`, `\n`, `\ ` and `\\` stand for a quote, a
/// newline, a space and a backslash.
pub open spec fn split_words(s: Seq<char>) -> Result<Seq<Seq<char>>, ArgumentError> {
    words_from(s, 0)
}

/// The text that describes an error.
pub open spec fn error_description(e: ArgumentError) -> Seq<char> {
    match e {
        ArgumentError::TrailingBackslash => "a backslash must be followed by a character"@,
        ArgumentError::UnknownEscape(c) => "unknown escaped character "@ + seq![c],
        ArgumentError::UnmatchedQuotes => "unmatched quotes"@,
        ArgumentError::ClosingQuotesNotFollowedBySpace => "closing quotes must be followed by a space"@,
        ArgumentError::OpeningQuotesNotPrecededBySpace => "opening quotes must be preceeded by a space"@,
    }
}

/// The message for an error in the command line `original`: the
/// description, then the command line in quotes and brackets.
pub open spec fn error_message(e: ArgumentError, original: Seq<char>) -> Seq<char> {
    error_description(e) + " ("@ + debug_quoted(original) + ")"@
}

pub proof fn lemma_spaces_end(s: Seq<char>, pos: int)
    requires
        0 <= pos,
    ensures
        pos <= spaces_end(s, pos),
        spaces_end(s, pos) <= pos || spaces_end(s, pos) <= s.len(),
        spaces_end(s, pos) < s.len() ==> s[spaces_end(s, pos)] != ' ',
        forall|i: int| pos <= i < spaces_end(s, pos) ==> s[i] == ' ',
    decreases s.len() - pos,
{
    if 0 <= pos < s.len() && s[pos] == ' ' {
        lemma_spaces_end(s, pos + 1);
    }
}

pub proof fn lemma_chars_until(s: Seq<char>, pos: int, excluded: Seq<char>)
    requires
        0 <= pos,
    ensures
        chars_until(s, pos, excluded) matches Ok((word, end)) ==> {
            &&& pos <= end
            &&& (pos < s.len() ==> end <= s.len())
            &&& (end < s.len() ==> excluded.contains(s[end]))
            &&& (pos < s.len() && !excluded.contains(s[pos]) ==> pos < end)
        },
    decreases s.len() - pos,
{
    if pos < s.len() {
        if s[pos] == '\\' {
            if pos + 1 < s.len() {
                lemma_chars_until(s, pos + 2, excluded);
            }
        } else if !excluded.contains(s[pos]) {
            lemma_chars_until(s, pos + 1, excluded);
        }
    }
}

pub proof fn lemma_word_at_advances(s: Seq<char>, pos: int)
    ensures
        word_at(s, pos) matches Ok(Some((word, next))) ==> 0 <= pos < next <= s.len(),
{
    if 0 <= pos {
        let start = spaces_end(s, pos);
        lemma_spaces_end(s, pos);
        if 0 <= start < s.len() {
            if s[start] == '"' {
                lemma_chars_until(s, start + 1, seq!['"']);
            } else {
                lemma_chars_until(s, start, seq![' ', '"']);
            }
        }
    } else {
        let start = spaces_end(s, pos);
        if 0 <= start < s.len() {
            if s[start] == '"' {
                lemma_chars_until(s, start + 1, seq!['"']);
            } else {
                lemma_chars_until(s, start, seq![' ', '"']);
            }
        }
    }
}

/// Each word read at a position is one of the words from there on, the
/// first, whatever it holds (an empty quoted word too), and the words after
/// it follow.
pub proof fn lemma_every_word_kept(s: Seq<char>, pos: int)
    requires
        word_at(s, pos) is Ok,
        word_at(s, pos)->Ok_0 is Some,
        words_from(s, word_at(s, pos)->Ok_0->Some_0.1) is Ok,
    ensures
        words_from(s, pos) == Ok::<Seq<Seq<char>>, ArgumentError>(
            seq![word_at(s, pos)->Ok_0->Some_0.0] + words_from(s, word_at(s, pos)->Ok_0->Some_0.1)->Ok_0,
        ),
{
}

/// A splitter of command lines into words.
pub struct Parser {
    pub original: String,
    pub input: Vec<char>,
    pub pos: usize,
}

impl Parser {
    /// The message for an error found in the command line of this parser.
    pub fn parse_error(&self, error: ArgumentError) -> (result: String)
        ensures
            result@ == error_message(error, self.original@),
    {
        let mut out: Vec<char> = Vec::new();
        match error {
            ArgumentError::TrailingBackslash => push_str(&mut out, "a backslash must be followed by a character"),
            ArgumentError::UnknownEscape(c) => {
                push_str(&mut out, "unknown escaped character ");
                out.push(c);
            },
            ArgumentError::UnmatchedQuotes => push_str(&mut out, "unmatched quotes"),
            ArgumentError::ClosingQuotesNotFollowedBySpace => push_str(
                &mut out,
                "closing quotes must be followed by a space",
            ),
            ArgumentError::OpeningQuotesNotPrecededBySpace => push_str(
                &mut out,
                "opening quotes must be preceeded by a space",
            ),
        }
        proof {
            reveal_strlit("a backslash must be followed by a character");
            reveal_strlit("unknown escaped character ");
            reveal_strlit("unmatched quotes");
            reveal_strlit("closing quotes must be followed by a space");
            reveal_strlit("opening quotes must be preceeded by a space");
        }
        assert(out@ == error_description(error));
        push_str(&mut out, " (");
        let quoted = debug_string(self.original.as_str());
        push_str(&mut out, quoted.as_str());
        push_str(&mut out, ")");
        string_from_chars(&out)
    }

    /// Moves past the spaces at the current position.
    pub fn skip_spaces(&mut self)
        requires
            old(self).pos <= old(self).input.len(),
        ensures
            final(self).input == old(self).input,
            final(self).original == old(self).original,
            final(self).pos == spaces_end(old(self).input@, old(self).pos as int),
    {
        proof {
            lemma_spaces_end(self.input@, self.pos as int);
        }
        while self.pos < self.input.len() && self.input[self.pos] == ' '
            invariant
                self.input == old(self).input,
                self.original == old(self).original,
                old(self).pos <= self.pos <= self.input.len(),
                spaces_end(self.input@, self.pos as int) == spaces_end(
                    old(self).input@,
                    old(self).pos as int,
                ),
            decreases self.input.len() - self.pos,
        {
            self.pos = self.pos + 1;
        }
    }

    /// Reads one character, decoding an escape sequence; `None` at the end
    /// of the input or at an unescaped character of `excluded`, which is
    /// then left in place.
    pub fn parse_char(&mut self, excluded: &Vec<char>) -> (result: Result<Option<char>, ArgumentError>)
        requires
            old(self).pos <= old(self).input.len(),
        ensures
            final(self).input == old(self).input,
            final(self).original == old(self).original,
            final(self).pos <= final(self).input.len(),
            match char_at(old(self).input@, old(self).pos as int, excluded@) {
                Err(e) => result == Err::<Option<char>, ArgumentError>(e),
                Ok(None) => result == Ok::<Option<char>, ArgumentError>(None) && final(self).pos
                    == old(self).pos,
                Ok(Some((c, next))) => result == Ok::<Option<char>, ArgumentError>(Some(c))
                    && final(self).pos == next,
            },
    {
        if self.pos >= self.input.len() {
            return Ok(None);
        }
        let c = self.input[self.pos];
        if c == '\\' {
            if self.pos + 1 >= self.input.len() {
                return Err(ArgumentError::TrailingBackslash);
            }
            let escaped = self.input[self.pos + 1];
            let decoded = if escaped == '"' {
                '"'
            } else if escaped == 'n' {
                '\n'
            } else if escaped == ' ' {
                ' '
            } else if escaped == '\\' {
                '\\'
            } else {
                return Err(ArgumentError::UnknownEscape(escaped));
            };
            self.pos = self.pos + 2;
            Ok(Some(decoded))
        } else {
            if contains_char(excluded, c) {
                return Ok(None);
            }
            self.pos = self.pos + 1;
            Ok(Some(c))
        }
    }

    /// Reads characters up to the end of the input or up to an unescaped
    /// character of `excluded`.
    pub fn collect_chars_until(&mut self, excluded: &Vec<char>) -> (result: Result<Vec<char>, ArgumentError>)
        requires
            old(self).pos <= old(self).input.len(),
        ensures
            final(self).input == old(self).input,
            final(self).original == old(self).original,
            final(self).pos <= final(self).input.len(),
            match chars_until(old(self).input@, old(self).pos as int, excluded@) {
                Ok((word, end)) => result matches Ok(w) && w@ == word && final(self).pos == end,
                Err(e) => result == Err::<Vec<char>, ArgumentError>(e),
            },
    {
        let ghost s = self.input@;
        let ghost start = self.pos as int;
        let mut result: Vec<char> = Vec::new();
        loop
            invariant
                self.input@ == s,
                self.input == old(self).input,
                self.original == old(self).original,
                s == old(self).input@,
                start == old(self).pos,
                start <= self.pos <= self.input.len(),
                chars_until(s, start, excluded@) == match chars_until(s, self.pos as int, excluded@) {
                    Ok((word, end)) => Ok((result@ + word, end)),
                    Err(e) => Err(e),
                },
            decreases self.input.len() - self.pos,
        {
            let ghost before = self.pos as int;
            let ghost previous = result@;
            match self.parse_char(excluded) {
                Err(e) => {
                    return Err(e);
                },
                Ok(None) => {
                    assert(result@ + seq![] == result@);
                    return Ok(result);
                },
                Ok(Some(c)) => {
                    result.push(c);
                    assert forall|word: Seq<char>|
                        #[trigger] (previous + (seq![c] + word)) == result@ + word by {
                        assert(previous + (seq![c] + word) =~= result@ + word);
                    }
                },
            }
        }
    }

    /// Reads the next word, after any spaces; `None` when only spaces are left.
    pub fn parse_word(&mut self) -> (result: Result<Option<Argument>, ArgumentError>)
        requires
            old(self).pos <= old(self).input.len(),
        ensures
            final(self).input == old(self).input,
            final(self).original == old(self).original,
            final(self).pos <= final(self).input.len(),
            match word_at(old(self).input@, old(self).pos as int) {
                Err(e) => result == Err::<Option<Argument>, ArgumentError>(e),
                Ok(None) => result matches Ok(None),
                Ok(Some((word, next))) => result matches Ok(Some(a)) && a.view()
                    == ArgumentView::Word(word) && final(self).pos == next,
            },
    {
        self.skip_spaces();
        let ghost s = self.input@;
        proof {
            lemma_spaces_end(s, old(self).pos as int);
        }
        if self.pos >= self.input.len() {
            return Ok(None);
        }
        if self.input[self.pos] == '"' {
            self.pos = self.pos + 1;
            let quote: Vec<char> = vec!['"'];
            assert(quote@ == seq!['"']);
            let word = self.collect_chars_until(&quote)?;
            if self.pos >= self.input.len() || self.input[self.pos] != '"' {
                return Err(ArgumentError::UnmatchedQuotes);
            }
            self.pos = self.pos + 1;
            if self.pos < self.input.len() && self.input[self.pos] != ' ' {
                return Err(ArgumentError::ClosingQuotesNotFollowedBySpace);
            }
            Ok(Some(Argument::word_from_chars(&word)))
        } else {
            let separators: Vec<char> = vec![' ', '"'];
            assert(separators@ == seq![' ', '"']);
            let word = self.collect_chars_until(&separators)?;
            if self.pos < self.input.len() && self.input[self.pos] != ' ' {
                return Err(ArgumentError::OpeningQuotesNotPrecededBySpace);
            }
            Ok(Some(Argument::word_from_chars(&word)))
        }
    }

    /// A parser positioned at the start of the given command line.
    pub fn new(arguments: &str) -> (result: Parser)
        ensures
            result.original@ == arguments@,
            result.input@ == arguments@,
            result.pos == 0,
    {
        Parser { original: String::from_str(arguments), input: chars_of(arguments), pos: 0 }
    }

    /// Splits a command line into words.
    pub fn parse_arguments(arguments: &str) -> (result: Result<Vec<Argument>, String>)
        ensures
            match split_words(arguments@) {
                Ok(words) => result matches Ok(args) && args.len() == words.len() && forall|i: int|
                    0 <= i < args.len() ==> #[trigger] args[i].view() == ArgumentView::Word(words[i]),
                Err(e) => result matches Err(m) && m@ == error_message(e, arguments@),
            },
    {
        let mut parser = Parser::new(arguments);
        let ghost s = arguments@;
        let mut result: Vec<Argument> = Vec::new();
        loop
            invariant
                s == arguments@,
                parser.input@ == s,
                parser.original@ == s,
                parser.pos <= parser.input.len(),
                forall|i: int| 0 <= i < result.len() ==> #[trigger] result[i].view() is Word,
                split_words(s) == match words_from(s, parser.pos as int) {
                    Ok(rest) => Ok(words_of(result@) + rest),
                    Err(e) => Err(e),
                },
            decreases parser.input.len() - parser.pos,
        {
            let ghost before = parser.pos as int;
            proof {
                lemma_word_at_advances(s, before);
            }
            match parser.parse_word() {
                Err(e) => {
                    assert(words_from(s, before) == Err::<Seq<Seq<char>>, ArgumentError>(e));
                    assert(split_words(s) == Err::<Seq<Seq<char>>, ArgumentError>(e));
                    let message = parser.parse_error(e);
                    assert(message@ == error_message(e, arguments@));
                    return Err(message);
                },
                Ok(None) => {
                    assert(words_from(s, before) == Ok::<Seq<Seq<char>>, ArgumentError>(seq![]));
                    assert(words_of(result@) + seq![] == words_of(result@));
                    proof {
                        lemma_words_of_index(result@);
                    }
                    assert forall|i: int| 0 <= i < result.len() implies #[trigger] result[i].view()
                        == ArgumentView::Word(words_of(result@)[i]) by {
                        assert(result[i].view() is Word);
                    }
                    return Ok(result);
                },
                Ok(Some(argument)) => {
                    let ghost previous = result@;
                    let ghost word = argument.inner_view();
                    proof {
                        lemma_words_of_push(previous, argument);
                    }
                    result.push(argument);
                    assert(result@ == previous.push(argument));
                    assert forall|rest: Seq<Seq<char>>|
                        #[trigger] (words_of(previous) + (seq![word] + rest)) == words_of(result@) + rest by {
                        assert(words_of(previous) + (seq![word] + rest) =~= words_of(result@) + rest);
                    }
                },
            }
        }
    }

    /// Splits a command line into words, giving the strings of the words.
    pub fn parse_argument_strings(arguments: &str) -> (result: Result<Vec<String>, String>)
        ensures
            match split_words(arguments@) {
                Ok(words) => result matches Ok(strings) && strings.len() == words.len() && forall|
                    i: int,
                | 0 <= i < strings.len() ==> #[trigger] strings[i]@ == words[i],
                Err(e) => result matches Err(m) && m@ == error_message(e, arguments@),
            },
    {
        let arguments = match Parser::parse_arguments(arguments) {
            Ok(arguments) => arguments,
            Err(message) => {
                return Err(message);
            },
        };
        let mut strings: Vec<String> = Vec::new();
        let mut i: usize = 0;
        while i < arguments.len()
            invariant
                i <= arguments.len(),
                strings.len() == i,
                forall|j: int| 0 <= j < i ==> #[trigger] strings[j]@ == arguments[j].inner_view(),
            decreases arguments.len() - i,
        {
            strings.push(arguments[i].inner_string().clone());
            i += 1;
        }
        assert forall|j: int| 0 <= j < arguments.len() implies arguments[j].view() matches ArgumentView::Word(w)
            && w == #[trigger] strings[j]@ by {}
        Ok(strings)
    }

    /// Reads the next word; `None` when only spaces are left.
    pub fn next(&mut self) -> (result: Option<Result<Argument, ArgumentError>>)
        requires
            old(self).pos <= old(self).input.len(),
        ensures
            final(self).input == old(self).input,
            final(self).pos <= final(self).input.len(),
            match word_at(old(self).input@, old(self).pos as int) {
                Err(e) => result == Some(Err::<Argument, ArgumentError>(e)),
                Ok(None) => result is None,
                Ok(Some((word, next))) => result matches Some(Ok(a)) && a.view()
                    == ArgumentView::Word(word) && final(self).pos == next,
            },
    {
        match self.parse_word() {
            Ok(Some(word)) => Some(Ok(word)),
            Ok(None) => None,
            Err(error) => Some(Err(error)),
        }
    }
}

/// Whether `c` is one of the characters of `chars`.
pub fn contains_char(chars: &Vec<char>, c: char) -> (result: bool)
    ensures
        result == chars@.contains(c),
{
    let mut i: usize = 0;
    while i < chars.len()
        invariant
            i <= chars.len(),
            forall|j: int| 0 <= j < i ==> chars@[j] != c,
        decreases chars.len() - i,
    {
        if chars[i] == c {
            assert(chars@[i as int] == c);
            return true;
        }
        i += 1;
    }
    false
}

/// The characters of each argument of a sequence.
pub open spec fn words_of(arguments: Seq<Argument>) -> Seq<Seq<char>> {
    arguments.map_values(|a: Argument| a.inner_view())
}

proof fn lemma_words_of_push(arguments: Seq<Argument>, argument: Argument)
    ensures
        words_of(arguments.push(argument)) == words_of(arguments).push(argument.inner_view()),
{
    assert(words_of(arguments.push(argument)) =~= words_of(arguments).push(argument.inner_view()));
}

proof fn lemma_words_of_index(arguments: Seq<Argument>)
    ensures
        words_of(arguments).len() == arguments.len(),
        forall|i: int| 0 <= i < arguments.len() ==> #[trigger] words_of(arguments)[i] == arguments[i].inner_view(),
{
}

} // verus!
