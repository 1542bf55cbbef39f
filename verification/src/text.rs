use vstd::prelude::*;

verus! {

/// Collects the characters of a string slice.
pub(crate) fn chars_of(s: &str) -> (result: Vec<char>)
    ensures
        result@ == s@,
{
    broadcast use vstd::string::axiom_spec_iter;

    let mut result: Vec<char> = Vec::new();
    for c in it: s.chars()
        invariant
            it.seq() == s@,
            result@ == it.seq().take(it.index() as int),
    {
        result.push(c);
        assert(result@ =~= it.seq().take(it.index() + 1));
    }
    assert(result@ =~= s@);
    result
}

/// Builds a `String` from a sequence of characters.
/// Calls `String::from_iter`; the contract claims that the string holds
/// exactly the given characters, in order.
#[verifier::external_body]
pub(crate) fn string_from_chars(chars: &Vec<char>) -> (result: String)
    ensures
        result@ == chars@,
{
    chars.iter().collect()
}

/// What `String::from_utf8_lossy` gives for a byte string: the decoded
/// characters, with each invalid sequence replaced by U+FFFD.
pub uninterp spec fn utf8_lossy(bytes: Seq<u8>) -> Seq<char>;

/// Decodes bytes as UTF-8, replacing invalid sequences.
/// Calls `String::from_utf8_lossy`; the contract names its result
/// (`utf8_lossy`) and claims, as the documentation of the function says,
/// that valid UTF-8 is decoded unchanged.
#[verifier::external_body]
pub(crate) fn utf8_lossy_string(bytes: &Vec<u8>) -> (result: String)
    ensures
        result@ == utf8_lossy(bytes@),
        vstd::utf8::valid_utf8(bytes@) ==> result@ == vstd::utf8::decode_utf8(bytes@),
{
    String::from_utf8_lossy(bytes).into_owned()
}

/// What `{:?}` renders for a string: the characters of `s` in double
/// quotes, with quotes, backslashes and control characters escaped.
pub uninterp spec fn debug_quoted(s: Seq<char>) -> Seq<char>;

/// Renders a string the way `{:?}` does.
/// Calls `format!("{:?}", s)`; the contract claims only that the result
/// is a function of the characters of `s` (named `debug_quoted`).
#[verifier::external_body]
pub(crate) fn debug_string(s: &str) -> (result: String)
    ensures
        result@ == debug_quoted(s@),
{
    format!("{:?}", s)
}

/// Appends the characters of `s` to `out`.
pub fn push_str(out: &mut Vec<char>, s: &str)
    ensures
        final(out)@ == old(out)@ + s@,
{
    let chars = chars_of(s);
    push_chars(out, &chars);
}

/// Appends the characters of `chars` to `out`.
pub fn push_chars(out: &mut Vec<char>, chars: &Vec<char>)
    ensures
        final(out)@ == old(out)@ + chars@,
{
    let mut i: usize = 0;
    while i < chars.len()
        invariant
            i <= chars.len(),
            out@ == old(out)@ + chars@.subrange(0, i as int),
        decreases chars.len() - i,
    {
        out.push(chars[i]);
        i += 1;
        assert(chars@.subrange(0, i as int) == chars@.subrange(0, i - 1) + seq![chars@[i - 1]]);
    }
    assert(chars@.subrange(0, chars@.len() as int) == chars@);
}

/// The decimal digits of a natural number, most significant first.
pub open spec fn decimal_digits(n: nat) -> Seq<char>
    decreases n,
{
    if n < 10 {
        seq![digit_char(n)]
    } else {
        decimal_digits(n / 10) + seq![digit_char(n % 10)]
    }
}

/// The character of a decimal digit.
pub open spec fn digit_char(d: nat) -> char {
    if d == 0 { '0' } else if d == 1 { '1' } else if d == 2 { '2' } else if d == 3 { '3' }
    else if d == 4 { '4' } else if d == 5 { '5' } else if d == 6 { '6' } else if d == 7 { '7' }
    else if d == 8 { '8' } else { '9' }
}

/// The decimal rendering of an integer, with a leading `-` when it is negative.
pub open spec fn decimal(n: int) -> Seq<char> {
    if n < 0 {
        seq!['-'] + decimal_digits((-n) as nat)
    } else {
        decimal_digits(n as nat)
    }
}

fn digit(d: u64) -> (c: char)
    requires
        d < 10,
    ensures
        c == digit_char(d as nat),
{
    if d == 0 { '0' } else if d == 1 { '1' } else if d == 2 { '2' } else if d == 3 { '3' }
    else if d == 4 { '4' } else if d == 5 { '5' } else if d == 6 { '6' } else if d == 7 { '7' }
    else if d == 8 { '8' } else { '9' }
}

/// Appends the decimal digits of `n` to `out`.
pub fn push_decimal_u64(out: &mut Vec<char>, n: u64)
    ensures
        final(out)@ == old(out)@ + decimal_digits(n as nat),
    decreases n,
{
    if n < 10 {
        out.push(digit(n));
    } else {
        push_decimal_u64(out, n / 10);
        out.push(digit(n % 10));
        assert(old(out)@ + decimal_digits((n / 10) as nat) + seq![digit_char((n % 10) as nat)]
            == old(out)@ + decimal_digits(n as nat));
    }
}

/// Appends the decimal rendering of `n` to `out`.
pub fn push_decimal_i64(out: &mut Vec<char>, n: i64)
    ensures
        final(out)@ == old(out)@ + decimal(n as int),
{
    if n < 0 {
        out.push('-');
        let magnitude: u64 = if n == i64::MIN {
            9223372036854775808u64
        } else {
            (-n) as u64
        };
        push_decimal_u64(out, magnitude);
        assert(old(out)@ + seq!['-'] + decimal_digits(magnitude as nat) == old(out)@ + decimal(n as int));
    } else {
        push_decimal_u64(out, n as u64);
    }
}

/// The decimal rendering of an integer.
pub fn decimal_string(n: i64) -> (result: String)
    ensures
        result@ == decimal(n as int),
{
    let mut out: Vec<char> = Vec::new();
    push_decimal_i64(&mut out, n);
    assert(out@ == decimal(n as int));
    string_from_chars(&out)
}

/// The UTF-8 bytes of a string.
pub fn str_bytes(s: &str) -> (result: Vec<u8>)
    ensures
        result@ == vstd::utf8::encode_utf8(s@),
{
    let bytes = s.as_bytes();
    let mut buffer: Vec<u8> = Vec::new();
    let mut i: usize = 0;
    while i < bytes.len()
        invariant
            i <= bytes@.len(),
            buffer@ == bytes@.subrange(0, i as int),
        decreases bytes@.len() - i,
    {
        buffer.push(bytes[i]);
        i += 1;
        assert(bytes@.subrange(0, i as int) == bytes@.subrange(0, i - 1).push(bytes@[i - 1]));
    }
    assert(bytes@.subrange(0, bytes@.len() as int) == bytes@);
    buffer
}

} // verus!
