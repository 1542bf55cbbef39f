use vstd::prelude::*;

use crate::text::{string_from_chars, utf8_lossy, utf8_lossy_string};

verus! {

/// One argument of a command as written in a test file: either a literal
/// word or a regular expression.
#[derive(Debug, PartialEq, Eq)]
pub enum Argument {
    Word(String),
    Regex(String),
}

impl Clone for Argument {
    /// A copy of the argument.
    fn clone(&self) -> (result: Argument)
        ensures
            result == *self,
    {
        match self {
            Argument::Word(s) => Argument::Word(s.clone()),
            Argument::Regex(s) => Argument::Regex(s.clone()),
        }
    }
}

/// The abstract value of an argument: its kind and its characters.
pub enum ArgumentView {
    Word(Seq<char>),
    Regex(Seq<char>),
}

impl Argument {
    pub open spec fn view(&self) -> ArgumentView {
        match self {
            Argument::Word(s) => ArgumentView::Word(s@),
            Argument::Regex(s) => ArgumentView::Regex(s@),
        }
    }

    /// The characters inside the argument, whatever its kind.
    pub open spec fn inner_view(&self) -> Seq<char> {
        match self {
            Argument::Word(s) => s@,
            Argument::Regex(s) => s@,
        }
    }

    /// Wraps each byte string as a word, decoding it as UTF-8 and replacing
    /// invalid sequences.
    pub fn wrap_words(words: Vec<Vec<u8>>) -> (result: Vec<Argument>)
        ensures
            result.len() == words.len(),
            forall|i: int|
                0 <= i < words.len() ==> #[trigger] result[i].view() == ArgumentView::Word(
                    utf8_lossy(words[i]@),
                ),
            forall|i: int|
                0 <= i < words.len() && vstd::utf8::valid_utf8(words[i]@) ==> #[trigger] result[i].view()
                    == ArgumentView::Word(vstd::utf8::decode_utf8(words[i]@)),
    {
        let mut result: Vec<Argument> = Vec::new();
        let mut i: usize = 0;
        while i < words.len()
            invariant
                i <= words.len(),
                result.len() == i,
                forall|j: int|
                    0 <= j < i ==> #[trigger] result[j].view() == ArgumentView::Word(
                        utf8_lossy(words[j]@),
                    ),
                forall|j: int|
                    0 <= j < i && vstd::utf8::valid_utf8(words[j]@) ==> #[trigger] result[j].view()
                        == ArgumentView::Word(vstd::utf8::decode_utf8(words[j]@)),
            decreases words.len() - i,
        {
            let word = utf8_lossy_string(&words[i]);
            result.push(Argument::Word(word));
            i += 1;
        }
        result
    }

    /// The string inside the argument, whatever its kind.
    pub fn inner_string(&self) -> (result: &String)
        ensures
            result@ == self.inner_view(),
    {
        match self {
            Argument::Word(string) => string,
            Argument::Regex(string) => string,
        }
    }

    /// A word argument made of the given characters.
    pub fn word_from_chars(chars: &Vec<char>) -> (result: Argument)
        ensures
            result.view() == ArgumentView::Word(chars@),
    {
        Argument::Word(string_from_chars(chars))
    }
}

} // verus!
