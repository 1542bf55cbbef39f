use vstd::prelude::*;

use crate::text::{push_chars, push_str, string_from_chars, utf8_lossy, utf8_lossy_string};

verus! {

/// Pairs each element with whether more elements follow it.
pub fn with_has_more<T>(items: Vec<T>) -> (result: Vec<(T, bool)>)
    ensures
        result@.len() == items@.len(),
        forall|i: int| 0 <= i < items@.len() ==> #[trigger] result@[i] == (items@[i], i + 1 < items@.len()),
{
    let ghost all = items@;
    let mut rest = items;
    let mut result: Vec<(T, bool)> = Vec::new();
    while rest.len() > 0
        invariant
            result@.len() + rest@.len() == all.len(),
            rest@ == all.subrange(result@.len() as int, all.len() as int),
            forall|j: int| 0 <= j < result@.len() ==> #[trigger] result@[j] == (all[j], j + 1 < all.len()),
        decreases rest@.len(),
    {
        let item = rest.remove(0);
        let more = rest.len() > 0;
        result.push((item, more));
    }
    result
}

/// The first line of a file that starts with `#!`, decoded as UTF-8 with
/// invalid sequences replaced; nothing for another file.
pub open spec fn hashbang_of(contents: Seq<u8>) -> Option<Seq<char>> {
    if contents.len() >= 2 && contents[0] == 35 && contents[1] == 33 {
        Some(utf8_lossy(first_line(contents)))
    } else {
        None
    }
}

/// The bytes before the first line break.
pub open spec fn first_line(contents: Seq<u8>) -> Seq<u8>
    decreases contents.len(),
{
    if contents.len() == 0 || contents[0] == 10 {
        seq![]
    } else {
        seq![contents[0]] + first_line(contents.drop_first())
    }
}

/// The hashbang line of a program, given its content (see `hashbang_of`).
pub fn parse_hashbang(contents: &Vec<u8>) -> (result: Option<String>)
    ensures
        match hashbang_of(contents@) {
            Some(line) => result matches Some(r) && r@ == line,
            None => result is None,
        },
        hashbang_of(contents@) is Some && vstd::utf8::valid_utf8(first_line(contents@)) ==> (result matches Some(
            r,
        ) && r@ == vstd::utf8::decode_utf8(first_line(contents@))),
{
    if contents.len() >= 2 && contents[0] == 35 && contents[1] == 33 {
        let mut line: Vec<u8> = Vec::new();
        let mut i: usize = 0;
        assert(contents@.skip(0) =~= contents@);
        while i < contents.len() && contents[i] != 10
            invariant
                i <= contents.len(),
                line@ == contents@.subrange(0, i as int),
                first_line(contents@) == line@ + first_line(contents@.skip(i as int)),
            decreases contents.len() - i,
        {
            assert(contents@.skip(i as int).drop_first() =~= contents@.skip(i + 1));
            assert(contents@.skip(i as int)[0] == contents@[i as int]);
            line.push(contents[i]);
            assert(line@ =~= contents@.subrange(0, i + 1));
            assert(line@ + first_line(contents@.skip(i + 1)) =~= contents@.subrange(0, i as int) + (seq![
                contents@[i as int],
            ] + first_line(contents@.skip(i + 1))));
            i += 1;
        }
        if i < contents.len() {
            assert(contents@.skip(i as int)[0] == 10);
        }
        assert(first_line(contents@.skip(i as int)) =~= Seq::<u8>::empty());
        assert(line@ + Seq::<u8>::empty() =~= line@);
        Some(utf8_lossy_string(&line))
    } else {
        None
    }
}

/// Whether a text holds a line break.
pub open spec fn has_line_break(text: Seq<char>) -> bool {
    text.contains('\n')
}

/// What `trim_margin::MarginTrimmable::trim_margin` gives for a text: the
/// lines without their leading blanks and the margin prefix `|`, without a
/// blank first and last line; `None` when a line lacks the prefix.
pub uninterp spec fn margin_trimmed(text: Seq<char>) -> Option<Seq<char>>;

/// Removes the margin of a multi-line text.
/// Calls `trim_margin::MarginTrimmable::trim_margin`; the contract names the
/// outcome (`margin_trimmed`) and claims, as the crate's documentation says,
/// that a text without a line break is left as it is.
#[verifier::external_body]
fn trim_margin_of(text: &str) -> (result: Option<String>)
    ensures
        match result {
            Some(t) => margin_trimmed(text@) == Some(t@) && (!has_line_break(text@) ==> t@ == text@),
            None => margin_trimmed(text@) is None && has_line_break(text@),
        },
{
    trim_margin::MarginTrimmable::trim_margin(&text)
}

/// The message for a text that lacks the margin prefix.
pub open spec fn margin_message() -> Seq<char> {
    "include a margin prefix '|'"@
}

/// A multi-line text without its margin (see `margin_trimmed`), ended by a
/// line break.
pub fn trim_margin(text: &str) -> (result: Result<String, String>)
    ensures
        match margin_trimmed(text@) {
            Some(trimmed) => result matches Ok(r) && r@ == trimmed + seq!['\n'],
            None => result matches Err(m) && m@ == margin_message(),
        },
{
    match trim_margin_of(text) {
        Some(trimmed) => {
            let mut out = crate::text::chars_of(trimmed.as_str());
            out.push('\n');
            Ok(string_from_chars(&out))
        },
        None => Err(String::from_str("include a margin prefix '|'")),
    }
}

} // verus!
