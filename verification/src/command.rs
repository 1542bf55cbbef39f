use vstd::prelude::*;

use crate::argument::ArgumentView;
use crate::argument_parser::{
    decode_escape, chars_until, error_message, spaces_end, split_words, word_at, words_from, ArgumentError, Parser,
};
use crate::executable_path::{canonicalize, shown_form};
use crate::text::{chars_of, debug_quoted, debug_string, push_chars, push_str, string_from_chars};

verus! {

/// A command: an executable and its arguments.
#[derive(Debug, PartialEq, Eq)]
pub struct Command {
    pub executable: String,
    pub arguments: Vec<String>,
}

impl Clone for Command {
    /// A copy of the command.
    fn clone(&self) -> (result: Command)
        ensures
            result.view() == self.view(),
    {
        let mut arguments: Vec<String> = Vec::new();
        let mut i: usize = 0;
        while i < self.arguments.len()
            invariant
                i <= self.arguments.len(),
                arguments@.len() == i,
                forall|j: int| 0 <= j < i ==> #[trigger] arguments@[j]@ == self.arguments@[j]@,
            decreases self.arguments.len() - i,
        {
            arguments.push(self.arguments[i].clone());
            i += 1;
        }
        let result = Command { executable: self.executable.clone(), arguments };
        assert(result.view().arguments =~= self.view().arguments);
        result
    }
}

/// The abstract value of a command.
pub struct CommandView {
    pub executable: Seq<char>,
    pub arguments: Seq<Seq<char>>,
}

impl Command {
    pub open spec fn view(&self) -> CommandView {
        CommandView {
            executable: self.executable@,
            arguments: self.arguments@.map_values(|a: String| a@),
        }
    }
}

/// How a character is written in a formatted argument.
pub open spec fn escape_char(c: char) -> Seq<char> {
    if c == '"' {
        seq!['\\', '"']
    } else if c == '\n' {
        seq!['\\', 'n']
    } else if c == '\\' {
        seq!['\\', '\\']
    } else {
        seq![c]
    }
}

/// How a word is written in a formatted argument: each quote, newline and
/// backslash escaped with a backslash.
pub open spec fn escape_word(w: Seq<char>) -> Seq<char>
    decreases w.len(),
{
    if w.len() == 0 {
        seq![]
    } else {
        escape_word(w.drop_last()) + escape_char(w.last())
    }
}

/// A word put in double quotes when it holds a space.
pub open spec fn quote_if_needed(w: Seq<char>) -> Seq<char> {
    if w.contains(' ') {
        seq!['"'] + w + seq!['"']
    } else {
        w
    }
}

/// How an argument is written when a command is formatted.
pub open spec fn format_argument(a: Seq<char>) -> Seq<char> {
    quote_if_needed(escape_word(a))
}

/// The formatted arguments, separated by single spaces.
pub open spec fn joined_arguments(args: Seq<Seq<char>>) -> Seq<char>
    decreases args.len(),
{
    if args.len() == 0 {
        seq![]
    } else if args.len() == 1 {
        format_argument(args[0])
    } else {
        format_argument(args[0]) + seq![' '] + joined_arguments(args.drop_first())
    }
}

/// A command line: the executable as shown, then the formatted arguments,
/// each after a space.
pub open spec fn format_command(executable: Seq<char>, args: Seq<Seq<char>>) -> Seq<char> {
    if args.len() == 0 {
        executable
    } else {
        executable + seq![' '] + joined_arguments(args)
    }
}

/// The description of a command line that holds no word.
pub open spec fn empty_command_message(command: Seq<char>) -> Seq<char> {
    "expected: space-separated command and arguments ("@ + debug_quoted(command) + ")"@
}

/// The command that a command line describes: its first word is the
/// executable, the others are the arguments.
pub open spec fn parse_command(command: Seq<char>) -> Result<CommandView, Seq<char>> {
    match split_words(command) {
        Err(e) => Err(error_message(e, command)),
        Ok(words) => if words.len() == 0 {
            Err(empty_command_message(command))
        } else {
            Ok(CommandView { executable: words[0], arguments: words.drop_first() })
        },
    }
}

/// Escapes the quotes, newlines and backslashes of a word.
pub fn escape(word: &str) -> (result: Vec<char>)
    ensures
        result@ == escape_word(word@),
{
    let chars = chars_of(word);
    let mut out: Vec<char> = Vec::new();
    let mut i: usize = 0;
    while i < chars.len()
        invariant
            i <= chars.len(),
            chars@ == word@,
            out@ == escape_word(chars@.subrange(0, i as int)),
        decreases chars.len() - i,
    {
        let c = chars[i];
        if c == '"' {
            out.push('\\');
            out.push('"');
        } else if c == '\n' {
            out.push('\\');
            out.push('n');
        } else if c == '\\' {
            out.push('\\');
            out.push('\\');
        } else {
            out.push(c);
        }
        let ghost next = chars@.subrange(0, i + 1);
        assert(next.drop_last() == chars@.subrange(0, i as int));
        assert(out@ == escape_word(next));
        i += 1;
    }
    assert(chars@.subrange(0, chars@.len() as int) == chars@);
    out
}

/// Puts a word in double quotes when it holds a space.
pub fn add_quotes_if_needed(word: Vec<char>) -> (result: Vec<char>)
    ensures
        result@ == quote_if_needed(word@),
{
    if crate::argument_parser::contains_char(&word, ' ') {
        let mut out: Vec<char> = Vec::new();
        out.push('"');
        push_chars(&mut out, &word);
        out.push('"');
        out
    } else {
        word
    }
}

/// Formats arguments so that splitting the result into words gives them back.
pub fn format_arguments(arguments: &Vec<String>) -> (result: String)
    ensures
        result@ == joined_arguments(arguments@.map_values(|a: String| a@)),
{
    let out = format_arguments_chars(arguments);
    string_from_chars(&out)
}

fn format_arguments_chars(arguments: &Vec<String>) -> (result: Vec<char>)
    ensures
        result@ == joined_arguments(arguments@.map_values(|a: String| a@)),
{
    let ghost args = arguments@.map_values(|a: String| a@);
    let mut out: Vec<char> = Vec::new();
    let mut i: usize = 0;
    while i < arguments.len()
        invariant
            i <= arguments.len(),
            args == arguments@.map_values(|a: String| a@),
            out@ == joined_arguments(args.subrange(0, i as int)),
        decreases arguments.len() - i,
    {
        let formatted = add_quotes_if_needed(escape(arguments[i].as_str()));
        proof {
            lemma_joined_push(args.subrange(0, i as int), args[i as int]);
            assert(args.subrange(0, i as int).push(args[i as int]) == args.subrange(0, i + 1));
        }
        if i > 0 {
            out.push(' ');
        }
        push_chars(&mut out, &formatted);
        i += 1;
    }
    assert(args.subrange(0, args.len() as int) == args);
    out
}

/// Joining one more argument appends a space and its formatted form.
pub proof fn lemma_joined_push(args: Seq<Seq<char>>, a: Seq<char>)
    ensures
        joined_arguments(args.push(a)) == if args.len() == 0 {
            format_argument(a)
        } else {
            joined_arguments(args) + seq![' '] + format_argument(a)
        },
    decreases args.len(),
{
    if args.len() == 0 {
        assert(args.push(a).len() == 1);
        assert(args.push(a)[0] == a);
    } else if args.len() == 1 {
        assert(args.push(a).drop_first() == seq![a]);
        assert(args.push(a)[0] == args[0]);
        assert(seq![a][0] == a);
        assert(joined_arguments(seq![a]) == format_argument(a));
    } else {
        lemma_joined_push(args.drop_first(), a);
        assert(args.push(a).drop_first() == args.drop_first().push(a));
        assert(args.push(a)[0] == args[0]);
        assert(format_argument(args[0]) + seq![' '] + (joined_arguments(args.drop_first()) + seq![' ']
            + format_argument(a)) =~= format_argument(args[0]) + seq![' '] + joined_arguments(
            args.drop_first(),
        ) + seq![' '] + format_argument(a));
    }
}

/// The arguments, each written after a space.
pub open spec fn prefixed_arguments(args: Seq<Seq<char>>) -> Seq<char>
    decreases args.len(),
{
    if args.len() == 0 {
        seq![]
    } else {
        seq![' '] + format_argument(args[0]) + prefixed_arguments(args.drop_first())
    }
}

/// Whether `shown` is a part of `executable` that is not empty unless the
/// executable is.
pub open spec fn shown_part(executable: Seq<char>, shown: Seq<char>) -> bool {
    crate::executable_path::part_of(executable, shown) && (executable.len() > 0 ==> shown.len() > 0)
}

/// A part of an executable that is written as it is is written as it is.
pub proof fn lemma_plain_part(executable: Seq<char>, shown: Seq<char>)
    requires
        plain_word(executable),
        shown_part(executable, shown),
    ensures
        plain_word(shown),
{
    let i = choose|i: int|
        0 <= i && i + shown.len() <= executable.len() && #[trigger] executable.subrange(i, i + shown.len()) == shown;
    assert forall|c: char| shown.contains(c) implies executable.contains(c) by {
        let k = choose|k: int| 0 <= k < shown.len() && shown[k] == c;
        assert(executable[i + k] == executable.subrange(i, i + shown.len())[k]);
    }
}

/// An executable that is written as it is: not empty, and without spaces,
/// quotes, backslashes or newlines.
pub open spec fn plain_word(w: Seq<char>) -> bool {
    w.len() > 0 && !w.contains(' ') && !w.contains('"') && !w.contains('\\') && !w.contains('\n')
}

proof fn lemma_format_command_prefixed(executable: Seq<char>, args: Seq<Seq<char>>)
    ensures
        format_command(executable, args) == executable + prefixed_arguments(args),
{
    if args.len() > 0 {
        lemma_joined_prefixed(args);
        assert(executable + seq![' '] + joined_arguments(args) =~= executable + (seq![' ']
            + joined_arguments(args)));
    } else {
        assert(executable + seq![] == executable);
    }
}

proof fn lemma_joined_prefixed(args: Seq<Seq<char>>)
    requires
        args.len() > 0,
    ensures
        seq![' '] + joined_arguments(args) == prefixed_arguments(args),
    decreases args.len(),
{
    if args.len() == 1 {
        assert(args.drop_first().len() == 0);
        assert(prefixed_arguments(args.drop_first()) == Seq::<char>::empty());
        assert(joined_arguments(args) == format_argument(args[0]));
        assert(seq![' '] + format_argument(args[0]) + seq![] =~= seq![' '] + format_argument(args[0]));
    } else {
        lemma_joined_prefixed(args.drop_first());
        assert(joined_arguments(args) == format_argument(args[0]) + seq![' '] + joined_arguments(args.drop_first()));
        assert(prefixed_arguments(args) == seq![' '] + format_argument(args[0]) + prefixed_arguments(args.drop_first()));
        assert(seq![' '] + (format_argument(args[0]) + seq![' '] + joined_arguments(args.drop_first()))
            =~= seq![' '] + format_argument(args[0]) + (seq![' '] + joined_arguments(args.drop_first())));
    }
}

proof fn lemma_escape_front(w: Seq<char>)
    requires
        w.len() > 0,
    ensures
        escape_word(w) == escape_char(w[0]) + escape_word(w.drop_first()),
    decreases w.len(),
{
    if w.len() == 1 {
        assert(w.drop_last().len() == 0);
        assert(w.drop_first().len() == 0);
        assert(escape_word(w.drop_first()) == Seq::<char>::empty());
        assert(escape_word(w.drop_last()) == Seq::<char>::empty());
        assert(seq![] + escape_char(w.last()) =~= escape_char(w.last()));
        assert(escape_char(w[0]) + seq![] =~= escape_char(w[0]));
        assert(w.last() == w[0]);
    } else {
        lemma_escape_front(w.drop_last());
        assert(w.drop_last().drop_first() == w.drop_first().drop_last());
        assert(w.drop_first().last() == w.last());
        assert(w.drop_last()[0] == w[0]);
        assert(escape_word(w) == escape_word(w.drop_last()) + escape_char(w.last()));
        assert(escape_word(w.drop_first()) == escape_word(w.drop_first().drop_last()) + escape_char(
            w.drop_first().last(),
        ));
        assert(escape_char(w[0]) + escape_word(w.drop_first().drop_last()) + escape_char(w.last())
            =~= escape_char(w[0]) + (escape_word(w.drop_first().drop_last()) + escape_char(w.last())));
    }
}

proof fn lemma_escape_spaces(w: Seq<char>)
    ensures
        escape_word(w).contains(' ') <==> w.contains(' '),
        w.len() > 0 ==> escape_word(w).len() > 0,
    decreases w.len(),
{
    if w.len() > 0 {
        lemma_escape_spaces(w.drop_last());
        let e = escape_word(w.drop_last());
        let c = escape_char(w.last());
        if w.contains(' ') {
            let i = choose|i: int| 0 <= i < w.len() && w[i] == ' ';
            if i == w.len() - 1 {
                assert((e + c)[e.len() as int] == ' ');
            } else {
                assert(w.drop_last()[i] == ' ');
                let j = choose|j: int| 0 <= j < e.len() && e[j] == ' ';
                assert((e + c)[j] == ' ');
            }
        }
        if (e + c).contains(' ') {
            let j = choose|j: int| 0 <= j < (e + c).len() && (e + c)[j] == ' ';
            if j < e.len() {
                assert(e[j] == ' ');
                let i = choose|i: int| 0 <= i < w.drop_last().len() && w.drop_last()[i] == ' ';
                assert(w[i] == ' ');
            } else {
                assert(c[j - e.len()] == ' ');
                assert(w[w.len() - 1] == ' ');
            }
        }
    }
}

proof fn lemma_escape_plain(w: Seq<char>)
    requires
        !w.contains('"'),
        !w.contains('\\'),
        !w.contains('\n'),
    ensures
        escape_word(w) == w,
    decreases w.len(),
{
    if w.len() > 0 {
        assert(!w.drop_last().contains('"')) by {
            if w.drop_last().contains('"') {
                let i = choose|i: int| 0 <= i < w.drop_last().len() && w.drop_last()[i] == '"';
                assert(w[i] == '"');
            }
        }
        assert(!w.drop_last().contains('\\')) by {
            if w.drop_last().contains('\\') {
                let i = choose|i: int| 0 <= i < w.drop_last().len() && w.drop_last()[i] == '\\';
                assert(w[i] == '\\');
            }
        }
        assert(!w.drop_last().contains('\n')) by {
            if w.drop_last().contains('\n') {
                let i = choose|i: int| 0 <= i < w.drop_last().len() && w.drop_last()[i] == '\n';
                assert(w[i] == '\n');
            }
        }
        lemma_escape_plain(w.drop_last());
        assert(w[w.len() - 1] != '"');
        assert(w[w.len() - 1] != '\\');
        assert(w[w.len() - 1] != '\n');
        assert(w.drop_last() + seq![w.last()] =~= w);
    }
}

/// Reading an escaped word back decodes it: `chars_until` from the start of
/// `escape_word(w)` gives `w` when what follows is the end of the input or
/// an excluded character, and no character that is written as it is is
/// excluded.
proof fn lemma_chars_until_escaped(s: Seq<char>, pos: int, w: Seq<char>, excluded: Seq<char>)
    requires
        0 <= pos,
        pos + escape_word(w).len() <= s.len(),
        s.subrange(pos, pos + escape_word(w).len()) == escape_word(w),
        pos + escape_word(w).len() == s.len() || excluded.contains(s[pos + escape_word(w).len()]),
        !excluded.contains('\\'),
        forall|i: int| 0 <= i < w.len() && escape_char(w[i]) == seq![w[i]] ==> !excluded.contains(#[trigger] w[i]),
    ensures
        chars_until(s, pos, excluded) == Ok::<(Seq<char>, int), ArgumentError>((w, pos + escape_word(w).len())),
    decreases w.len(),
{
    let e = escape_word(w);
    if w.len() == 0 {
        assert(w =~= seq![]);
        assert(e.len() == 0);
        if pos < s.len() {
            assert(excluded.contains(s[pos]));
            assert(s[pos] != '\\');
            assert(chars_until(s, pos, excluded) == Ok::<(Seq<char>, int), ArgumentError>((seq![], pos)));
        }
    } else {
        lemma_escape_front(w);
        let c = w[0];
        let ec = escape_char(c);
        let rest = w.drop_first();
        let er = escape_word(rest);
        assert(e == ec + er);
        assert forall|i: int| 0 <= i < rest.len() && escape_char(rest[i]) == seq![rest[i]] implies !excluded.contains(#[trigger] rest[i]) by {
            assert(rest[i] == w[i + 1]);
        }
        assert(s.subrange(pos + ec.len(), pos + ec.len() + er.len()) =~= er) by {
            assert forall|k: int| 0 <= k < er.len() implies s[pos + ec.len() + k] == er[k] by {
                assert(s.subrange(pos, pos + e.len())[ec.len() + k] == e[ec.len() + k]);
            }
        }
        assert(s[pos] == e[0]) by {
            assert(s.subrange(pos, pos + e.len())[0] == e[0]);
        }
        if ec.len() == 2 {
            assert(s[pos + 1] == e[1]) by {
                assert(s.subrange(pos, pos + e.len())[1] == e[1]);
            }
            assert(e[1] == ec[1]);
        }
        assert(e[0] == ec[0]);
        lemma_chars_until_escaped(s, pos + ec.len(), rest, excluded);
        assert(e.len() == ec.len() + er.len());
        if c == '"' || c == '\n' || c == '\\' {
            assert(s[pos] == '\\');
            assert(pos + 1 < s.len());
            assert(decode_escape(s[pos + 1]) == Some(c));
            assert(chars_until(s, pos, excluded) == match chars_until(s, pos + 2, excluded) {
                Ok((word, end)) => Ok((seq![c] + word, end)),
                Err(err) => Err(err),
            });
        } else {
            assert(escape_char(w[0]) == seq![w[0]]);
            assert(!excluded.contains(c));
            assert(s[pos] == c);
            assert(chars_until(s, pos, excluded) == match chars_until(s, pos + 1, excluded) {
                Ok((word, end)) => Ok((seq![c] + word, end)),
                Err(err) => Err(err),
            });
        }
        assert(seq![c] + rest =~= w);
    }
}

proof fn lemma_spaces_end_at(s: Seq<char>, pos: int)
    requires
        0 <= pos < s.len(),
        s[pos] != ' ',
    ensures
        spaces_end(s, pos) == pos,
{
}

/// A formatted argument is read back as the argument.
proof fn lemma_word_at_formatted(s: Seq<char>, pos: int, a: Seq<char>)
    requires
        0 <= pos,
        a.len() > 0,
        pos + format_argument(a).len() <= s.len(),
        s.subrange(pos, pos + format_argument(a).len()) == format_argument(a),
        pos + format_argument(a).len() == s.len() || s[pos + format_argument(a).len()] == ' ',
    ensures
        word_at(s, pos) == Ok::<Option<(Seq<char>, int)>, ArgumentError>(
            Some((a, pos + format_argument(a).len())),
        ),
{
    let e = escape_word(a);
    let f = format_argument(a);
    lemma_escape_spaces(a);
    lemma_escape_front(a);
    assert(s[pos] == f[0]) by {
        assert(s.subrange(pos, pos + f.len())[0] == f[0]);
    }
    if e.contains(' ') {
        assert(f == seq!['"'] + e + seq!['"']);
        assert(s[pos] == '"');
        lemma_spaces_end_at(s, pos);
        let quote = seq!['"'];
        assert(quote.contains('"'));
        assert(!quote.contains('\\'));
        assert forall|i: int| 0 <= i < a.len() && escape_char(a[i]) == seq![a[i]] implies !quote.contains(#[trigger] a[i]) by {
            if quote.contains(a[i]) {
                assert(quote[0] == a[i]);
            }
        }
        assert(s.subrange(pos + 1, pos + 1 + e.len()) =~= e) by {
            assert forall|k: int| 0 <= k < e.len() implies s[pos + 1 + k] == e[k] by {
                assert(s.subrange(pos, pos + f.len())[1 + k] == f[1 + k]);
            }
        }
        assert(s[pos + 1 + e.len()] == '"') by {
            assert(s.subrange(pos, pos + f.len())[1 + e.len() as int] == f[1 + e.len() as int]);
        }
        lemma_chars_until_escaped(s, pos + 1, a, quote);
    } else {
        assert(f == e);
        assert(e[0] != ' ') by {
            assert(e.contains(e[0]) || e.len() == 0);
        }
        assert(e[0] != '"') by {
            assert(escape_char(a[0])[0] == e[0]);
        }
        lemma_spaces_end_at(s, pos);
        let separators = seq![' ', '"'];
        assert(!separators.contains('\\'));
        assert forall|i: int| 0 <= i < a.len() && escape_char(a[i]) == seq![a[i]] implies !separators.contains(#[trigger] a[i]) by {
            if separators.contains(a[i]) {
                if a[i] == ' ' {
                    assert(a.contains(' '));
                }
            }
        }
        if pos + e.len() < s.len() {
            assert(separators.contains(s[pos + e.len()])) by {
                assert(separators[0] == ' ');
            }
        }
        lemma_chars_until_escaped(s, pos, a, separators);
    }
}

proof fn lemma_words_from_prefixed(s: Seq<char>, pos: int, args: Seq<Seq<char>>)
    requires
        0 <= pos <= s.len(),
        forall|i: int| 0 <= i < args.len() ==> (#[trigger] args[i]).len() > 0,
        s.subrange(pos, s.len() as int) == prefixed_arguments(args),
    ensures
        words_from(s, pos) == Ok::<Seq<Seq<char>>, ArgumentError>(args),
    decreases args.len(),
{
    if args.len() == 0 {
        assert(s.subrange(pos, s.len() as int).len() == 0);
        assert(args =~= seq![]);
    } else {
        let a = args[0];
        let f = format_argument(a);
        let rest = args.drop_first();
        let tail = prefixed_arguments(rest);
        assert(prefixed_arguments(args) == seq![' '] + f + tail);
        lemma_escape_spaces(a);
        lemma_escape_front(a);
        assert(f.len() > 0);
        assert(s[pos] == ' ') by {
            assert(s.subrange(pos, s.len() as int)[0] == ' ');
        }
        assert(s[pos + 1] == f[0]) by {
            assert(s.subrange(pos, s.len() as int)[1] == f[0]);
        }
        assert(f[0] != ' ') by {
            if escape_word(a).contains(' ') {
            } else {
                assert(escape_word(a).contains(escape_word(a)[0]));
            }
        }
        assert(spaces_end(s, pos) == pos + 1);
        assert(s.subrange(pos + 1, pos + 1 + f.len()) =~= f) by {
            assert forall|k: int| 0 <= k < f.len() implies s[pos + 1 + k] == f[k] by {
                assert(s.subrange(pos, s.len() as int)[1 + k] == (seq![' '] + f + tail)[1 + k]);
            }
        }
        if pos + 1 + f.len() < s.len() {
            assert(tail.len() > 0);
            assert(s[pos + 1 + f.len()] == ' ') by {
                assert(s.subrange(pos, s.len() as int)[1 + f.len() as int] == (seq![' '] + f + tail)[1 + f.len() as int]);
            }
        }
        lemma_word_at_formatted(s, pos + 1, a);
        assert(word_at(s, pos) == word_at(s, pos + 1));
        assert forall|i: int| 0 <= i < rest.len() implies (#[trigger] rest[i]).len() > 0 by {
            assert(rest[i] == args[i + 1]);
        }
        assert(s.subrange(pos + 1 + f.len(), s.len() as int) =~= tail) by {
            assert forall|k: int| 0 <= k < tail.len() implies s[pos + 1 + f.len() + k] == tail[k] by {
                assert(s.subrange(pos, s.len() as int)[1 + f.len() + k] == (seq![' '] + f + tail)[1 + f.len() + k]);
            }
        }
        lemma_words_from_prefixed(s, pos + 1 + f.len(), rest);
        assert(seq![a] + rest =~= args);
    }
}

/// Formatting a command and splitting the result into words gives the
/// command back: the executable and then each argument, for an executable
/// that is written as it is and arguments that are not empty.
pub proof fn lemma_format_parse_roundtrip(executable: Seq<char>, args: Seq<Seq<char>>)
    requires
        plain_word(executable),
        forall|i: int| 0 <= i < args.len() ==> (#[trigger] args[i]).len() > 0,
    ensures
        split_words(format_command(executable, args)) == Ok::<Seq<Seq<char>>, ArgumentError>(
            seq![executable] + args,
        ),
        parse_command(format_command(executable, args)) == Ok::<CommandView, Seq<char>>(
            CommandView { executable, arguments: args },
        ),
{
    let s = format_command(executable, args);
    lemma_format_command_prefixed(executable, args);
    lemma_escape_plain(executable);
    lemma_escape_spaces(executable);
    assert(format_argument(executable) == executable);
    assert(s.subrange(0, executable.len() as int) =~= executable);
    if executable.len() < s.len() {
        assert(s[executable.len() as int] == prefixed_arguments(args)[0]);
    }
    lemma_word_at_formatted(s, 0, executable);
    assert(s.subrange(executable.len() as int, s.len() as int) =~= prefixed_arguments(args));
    lemma_words_from_prefixed(s, executable.len() as int, args);
    assert((seq![executable] + args).drop_first() =~= args);
}

/// Formatting arguments and splitting the result into words gives the
/// arguments back, when none of them is empty.
pub proof fn lemma_arguments_roundtrip(args: Seq<Seq<char>>)
    requires
        forall|i: int| 0 <= i < args.len() ==> (#[trigger] args[i]).len() > 0,
    ensures
        split_words(joined_arguments(args)) == Ok::<Seq<Seq<char>>, ArgumentError>(args),
{
    let s = joined_arguments(args);
    if args.len() == 0 {
        assert(s.len() == 0);
        assert(word_at(s, 0) == Ok::<Option<(Seq<char>, int)>, ArgumentError>(None));
        assert(args =~= Seq::<Seq<char>>::empty());
        assert(words_from(s, 0) == Ok::<Seq<Seq<char>>, ArgumentError>(seq![]));
    } else {
        let a = args[0];
        let f = format_argument(a);
        let rest = args.drop_first();
        if args.len() == 1 {
            assert(rest.len() == 0);
            assert(prefixed_arguments(rest) == Seq::<char>::empty());
            assert(s =~= f + prefixed_arguments(rest));
        } else {
            lemma_joined_prefixed(rest);
            assert(s =~= f + prefixed_arguments(rest));
            assert(prefixed_arguments(rest)[0] == ' ');
        }
        assert(s.subrange(0, f.len() as int) =~= f);
        if f.len() < s.len() {
            assert(s[f.len() as int] == prefixed_arguments(rest)[0]);
        }
        lemma_word_at_formatted(s, 0, a);
        assert(s.subrange(f.len() as int, s.len() as int) =~= prefixed_arguments(rest));
        assert forall|i: int| 0 <= i < rest.len() implies (#[trigger] rest[i]).len() > 0 by {
            assert(rest[i] == args[i + 1]);
        }
        lemma_words_from_prefixed(s, f.len() as int, rest);
        assert(seq![a] + rest =~= args);
        assert(words_from(s, 0) == Ok::<Seq<Seq<char>>, ArgumentError>(seq![a] + rest));
    }
}

/// A word in double quotes, with its quotes, newlines and backslashes
/// escaped.
pub open spec fn quoted_word(w: Seq<char>) -> Seq<char> {
    seq!['"'] + escape_word(w) + seq!['"']
}

/// Words, each in double quotes after a space.
pub open spec fn quoted_line(args: Seq<Seq<char>>) -> Seq<char>
    decreases args.len(),
{
    if args.len() == 0 {
        seq![]
    } else {
        seq![' '] + quoted_word(args[0]) + quoted_line(args.drop_first())
    }
}

/// A word in double quotes is read back as the word, empty or not.
proof fn lemma_word_at_quoted(s: Seq<char>, pos: int, a: Seq<char>)
    requires
        0 <= pos,
        pos + quoted_word(a).len() <= s.len(),
        s.subrange(pos, pos + quoted_word(a).len()) == quoted_word(a),
        pos + quoted_word(a).len() == s.len() || s[pos + quoted_word(a).len()] == ' ',
    ensures
        word_at(s, pos) == Ok::<Option<(Seq<char>, int)>, ArgumentError>(Some((a, pos + quoted_word(a).len()))),
{
    let e = escape_word(a);
    let q = quoted_word(a);
    assert(q.len() == e.len() + 2);
    assert(s[pos] == '"') by {
        assert(s.subrange(pos, pos + q.len())[0] == q[0]);
    }
    lemma_spaces_end_at(s, pos);
    let quote = seq!['"'];
    assert(quote.contains('"')) by {
        assert(quote[0] == '"');
    }
    assert(!quote.contains('\\')) by {
        if quote.contains('\\') {
            let k = choose|k: int| 0 <= k < quote.len() && quote[k] == '\\';
            assert(quote[0] == '"');
        }
    }
    assert forall|i: int| 0 <= i < a.len() && escape_char(a[i]) == seq![a[i]] implies !quote.contains(
        #[trigger] a[i],
    ) by {
        if quote.contains(a[i]) {
            let k = choose|k: int| 0 <= k < quote.len() && quote[k] == a[i];
            assert(a[i] == '"');
            assert(escape_char(a[i]).len() == 2);
        }
    }
    assert(s.subrange(pos + 1, pos + 1 + e.len()) =~= e) by {
        assert forall|k: int| 0 <= k < e.len() implies s[pos + 1 + k] == e[k] by {
            assert(s.subrange(pos, pos + q.len())[1 + k] == q[1 + k]);
        }
    }
    assert(s[pos + 1 + e.len()] == '"') by {
        assert(s.subrange(pos, pos + q.len())[1 + e.len() as int] == q[1 + e.len() as int]);
    }
    lemma_chars_until_escaped(s, pos + 1, a, quote);
}

proof fn lemma_words_from_quoted(s: Seq<char>, pos: int, args: Seq<Seq<char>>)
    requires
        0 <= pos <= s.len(),
        s.subrange(pos, s.len() as int) == quoted_line(args),
    ensures
        words_from(s, pos) == Ok::<Seq<Seq<char>>, ArgumentError>(args),
    decreases args.len(),
{
    if args.len() == 0 {
        assert(s.subrange(pos, s.len() as int).len() == 0);
        assert(args =~= seq![]);
    } else {
        let a = args[0];
        let q = quoted_word(a);
        let rest = args.drop_first();
        let tail = quoted_line(rest);
        assert(quoted_line(args) == seq![' '] + q + tail);
        assert(s[pos] == ' ') by {
            assert(s.subrange(pos, s.len() as int)[0] == ' ');
        }
        assert(s[pos + 1] == '"') by {
            assert(s.subrange(pos, s.len() as int)[1] == (seq![' '] + q + tail)[1]);
        }
        assert(spaces_end(s, pos + 1) == pos + 1);
        assert(spaces_end(s, pos) == pos + 1);
        assert(s.subrange(pos + 1, pos + 1 + q.len()) =~= q) by {
            assert forall|k: int| 0 <= k < q.len() implies s[pos + 1 + k] == q[k] by {
                assert(s.subrange(pos, s.len() as int)[1 + k] == (seq![' '] + q + tail)[1 + k]);
            }
        }
        if pos + 1 + q.len() < s.len() {
            assert(tail.len() > 0);
            assert(s[pos + 1 + q.len()] == ' ') by {
                assert(s.subrange(pos, s.len() as int)[1 + q.len() as int] == (seq![' '] + q + tail)[1
                    + q.len() as int]);
            }
        }
        lemma_word_at_quoted(s, pos + 1, a);
        assert(word_at(s, pos) == word_at(s, pos + 1));
        assert(s.subrange(pos + 1 + q.len(), s.len() as int) =~= tail) by {
            assert forall|k: int| 0 <= k < tail.len() implies s[pos + 1 + q.len() + k] == tail[k] by {
                assert(s.subrange(pos, s.len() as int)[1 + q.len() + k] == (seq![' '] + q + tail)[1 + q.len()
                    + k]);
            }
        }
        lemma_words_from_quoted(s, pos + 1 + q.len(), rest);
        assert(seq![a] + rest =~= args);
    }
}

/// Splitting a line of words that are each in double quotes gives each of
/// the words back, in order, an empty one (`""`) included.
pub proof fn lemma_quoted_words_roundtrip(args: Seq<Seq<char>>)
    ensures
        split_words(quoted_line(args)) == Ok::<Seq<Seq<char>>, ArgumentError>(args),
{
    let s = quoted_line(args);
    assert(s.subrange(0, s.len() as int) =~= s);
    lemma_words_from_quoted(s, 0, args);
}

impl Command {
    /// The command that a command line describes (see `parse_command`).
    pub fn new(command: &str) -> (result: Result<Command, String>)
        ensures
            match parse_command(command@) {
                Ok(view) => result matches Ok(c) && c.view() == view,
                Err(message) => result matches Err(m) && m@ == message,
            },
    {
        let words = match Parser::parse_argument_strings(command) {
            Ok(words) => words,
            Err(message) => {
                return Err(message);
            },
        };
        if words.len() == 0 {
            let mut out: Vec<char> = Vec::new();
            push_str(&mut out, "expected: space-separated command and arguments (");
            let quoted = debug_string(command);
            push_str(&mut out, quoted.as_str());
            push_str(&mut out, ")");
            return Err(string_from_chars(&out));
        }
        let ghost all = words@.map_values(|w: String| w@);
        let mut arguments: Vec<String> = Vec::new();
        let mut i: usize = 1;
        while i < words.len()
            invariant
                1 <= i <= words.len(),
                arguments.len() == i - 1,
                forall|j: int| 0 <= j < arguments.len() ==> #[trigger] arguments[j]@ == words[j + 1]@,
            decreases words.len() - i,
        {
            arguments.push(words[i].clone());
            i += 1;
        }
        let result = Command { executable: words[0].clone(), arguments };
        assert(result.view().arguments =~= split_words(command@)->Ok_0.drop_first());
        Ok(result)
    }

    /// The command line of the command with the executable shown as
    /// `executable` (see `format_command`).
    pub fn format_with_executable(&self, executable: &str) -> (result: String)
        ensures
            result@ == format_command(executable@, self.view().arguments),
    {
        let mut out = chars_of(executable);
        if self.arguments.len() > 0 {
            out.push(' ');
            let formatted = format_arguments_chars(&self.arguments);
            push_chars(&mut out, &formatted);
        }
        string_from_chars(&out)
    }

    /// The command line of the command, with the executable in the form in
    /// which it is shown (see `canonicalize`).
    pub fn format(&self) -> (result: String)
        ensures
            exists|shown: Seq<char>|
                shown_form(Seq::empty(), self.executable@, shown) && shown_part(self.executable@, shown)
                    && #[trigger] format_command(shown, self.view().arguments) == result@,
    {
        let no_mocks: Vec<String> = Vec::new();
        let shown = canonicalize(&no_mocks, self.executable.as_str());
        assert(no_mocks@ == Seq::<String>::empty());
        assert(shown_form(Seq::empty(), self.executable@, shown@));
        assert(shown_part(self.executable@, shown@));
        self.format_with_executable(shown.as_str())
    }
}

} // verus!
