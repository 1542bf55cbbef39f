use vstd::prelude::*;

use crate::words::{cast_to_eight_byte_array, cast_to_eight_byte_word, le_bytes, le_word, lemma_bytes_word_roundtrip};

verus! {

/// The message for a string that does not fit into the space given.
pub open spec fn too_long_message() -> Seq<char> {
    "string_to_data: string too long"@
}

/// The bytes of a string followed by NUL bytes up to eight bytes.
pub open spec fn padded_to_word(s: Seq<u8>) -> Seq<u8> {
    Seq::new(8, |i: int| if i < s.len() { s[i] } else { 0u8 })
}

/// The bytes of a string that is shorter than eight bytes, padded with NUL
/// bytes to one word; an error for a longer string, which would leave no
/// room for the final NUL byte.
pub fn string_to_data(string: &str) -> (result: Result<[u8; 8], String>)
    ensures
        vstd::utf8::encode_utf8(string@).len() >= 8 ==> (result matches Err(m) && m@ == too_long_message()),
        vstd::utf8::encode_utf8(string@).len() < 8 ==> (result matches Ok(word) && word@ == padded_to_word(
            vstd::utf8::encode_utf8(string@),
        )),
{
    let bytes = string.as_bytes();
    if bytes.len() >= 8 {
        return Err(String::from_str("string_to_data: string too long"));
    }
    let mut result: [u8; 8] = [0, 0, 0, 0, 0, 0, 0, 0];
    let mut i: usize = 0;
    while i < bytes.len()
        invariant
            i <= bytes@.len() < 8,
            result@.len() == 8,
            forall|j: int| 0 <= j < i ==> result@[j] == bytes@[j],
            forall|j: int| i <= j < 8 ==> result@[j] == 0u8,
        decreases bytes@.len() - i,
    {
        result[i] = bytes[i];
        i += 1;
    }
    assert(result@ =~= padded_to_word(bytes@));
    Ok(result)
}

/// The bytes of a string followed by NUL bytes, up to a whole number of
/// words with at least one NUL byte.
pub open spec fn padded_string(s: Seq<u8>) -> Seq<u8> {
    Seq::new(((s.len() / 8 + 1) * 8) as nat, |i: int| if i < s.len() { s[i] } else { 0u8 })
}

/// The words that hold a string followed by NUL bytes (see `padded_string`).
pub open spec fn string_words(s: Seq<u8>) -> Seq<u64> {
    Seq::new((s.len() / 8 + 1) as nat, |w: int| le_word(padded_string(s).subrange(w * 8, w * 8 + 8)))
}

/// The bytes of some words, each least significant byte first.
pub open spec fn words_bytes(words: Seq<u64>) -> Seq<u8>
    decreases words.len(),
{
    if words.len() == 0 {
        seq![]
    } else {
        words_bytes(words.drop_last()) + le_bytes(words.last())
    }
}

/// The bytes before the first NUL byte.
pub open spec fn until_nul(bytes: Seq<u8>) -> Seq<u8>
    decreases bytes.len(),
{
    if bytes.len() == 0 {
        seq![]
    } else if bytes[0] == 0 {
        seq![]
    } else {
        seq![bytes[0]] + until_nul(bytes.drop_first())
    }
}

/// The words to write for a string into a buffer of `max_size` bytes: the
/// string and a NUL byte, padded to whole words; an error when the string
/// with its NUL byte does not fit.
pub fn string_to_words(string: &Vec<u8>, max_size: u64) -> (result: Result<Vec<u64>, String>)
    ensures
        string@.len() >= max_size ==> (result matches Err(m) && m@ == too_long_message()),
        string@.len() < max_size ==> (result matches Ok(words) && words@ == string_words(string@)),
{
    if string.len() as u64 >= max_size {
        return Err(String::from_str("string_to_data: string too long"));
    }
    let ghost padded = padded_string(string@);
    let length = string.len();
    let number_of_words = length / 8 + 1;
    let mut result: Vec<u64> = Vec::new();
    let mut w: usize = 0;
    while w < number_of_words
        invariant
            length == string@.len(),
            number_of_words == string@.len() / 8 + 1,
            w <= number_of_words,
            padded == padded_string(string@),
            result@.len() == w,
            forall|k: int| 0 <= k < w ==> result@[k] == string_words(string@)[k],
        decreases number_of_words - w,
    {
        let mut word: [u8; 8] = [0, 0, 0, 0, 0, 0, 0, 0];
        let mut i: usize = 0;
        while i < 8
            invariant
                length == string@.len(),
                w < number_of_words,
                number_of_words == string@.len() / 8 + 1,
                i <= 8,
                word@.len() == 8,
                padded == padded_string(string@),
                forall|j: int| 0 <= j < i ==> word@[j] == padded[w * 8 + j],
            decreases 8 - i,
        {
            assert(w * 8 + i < padded.len() && w * 8 <= string@.len()) by (nonlinear_arith)
                requires
                    w < number_of_words,
                    number_of_words == string@.len() / 8 + 1,
                    i < 8,
                    padded.len() == number_of_words * 8,
            ;
            assert(w * 8 <= length);
            let base = w * 8;
            if i < length - base {
                word[i] = string[base + i];
            } else {
                word[i] = 0;
            }
            i += 1;
        }
        assert(word@ =~= padded.subrange(w * 8, w * 8 + 8));
        result.push(cast_to_eight_byte_word(word));
        w += 1;
    }
    assert(result@ =~= string_words(string@));
    Ok(result)
}

/// Whether a word read from a string holds a NUL byte, so that the string
/// ends in it and no further word is to be read.
pub fn ends_string(word: u64) -> (result: bool)
    ensures
        result == le_bytes(word).contains(0u8),
{
    let bytes = cast_to_eight_byte_array(word);
    let mut i: usize = 0;
    while i < 8
        invariant
            i <= 8,
            bytes@ == le_bytes(word),
            forall|j: int| 0 <= j < i ==> bytes@[j] != 0u8,
        decreases 8 - i,
    {
        if bytes[i] == 0 {
            assert(le_bytes(word)[i as int] == 0u8);
            return true;
        }
        i += 1;
    }
    assert(!le_bytes(word).contains(0u8)) by {
        if le_bytes(word).contains(0u8) {
            let j = choose|j: int| 0 <= j < le_bytes(word).len() && le_bytes(word)[j] == 0u8;
            assert(bytes@[j] != 0u8);
        }
    }
    false
}

/// The bytes of some words up to the first NUL byte: the string that the
/// words hold.
pub fn data_to_string(words: &Vec<u64>) -> (result: Vec<u8>)
    ensures
        result@ == until_nul(words_bytes(words@)),
{
    let mut result: Vec<u8> = Vec::new();
    let mut w: usize = 0;
    let mut done = false;
    assert(words_bytes(words@).skip(0) =~= words_bytes(words@));
    assert(Seq::<u8>::empty() + until_nul(words_bytes(words@)) =~= until_nul(words_bytes(words@)));
    assert(words@.take(0) =~= Seq::<u64>::empty());
    while w < words.len() && !done
        invariant
            w <= words.len(),
            !done ==> until_nul(words_bytes(words@)) == result@ + until_nul(words_bytes(words@).skip(result@.len() as int)),
            !done ==> result@.len() == w * 8,
            !done ==> words_bytes(words@.take(w as int)) == result@,
            done ==> until_nul(words_bytes(words@)) == result@,
        decreases 2 * (words.len() - w) + (if done { 0int } else { 1int }),
    {
        let bytes = cast_to_eight_byte_array(words[w]);
        let mut i: usize = 0;
        while i < 8 && !done
            invariant
                w < words.len(),
                i <= 8,
                bytes@ == le_bytes(words@[w as int]),
                !done ==> until_nul(words_bytes(words@)) == result@ + until_nul(words_bytes(words@).skip(result@.len() as int)),
                !done ==> result@ == words_bytes(words@.take(w as int)) + bytes@.take(i as int),
                done ==> until_nul(words_bytes(words@)) == result@,
            decreases 2 * (8 - i) + (if done { 0int } else { 1int }),
        {
            proof {
                lemma_words_bytes_take(words@, w as int);
            }
            let ghost all = words_bytes(words@);
            let ghost at = result@.len() as int;
            assert(all[at] == bytes@[i as int]);
            if bytes[i] == 0 {
                assert(until_nul(all.skip(at)) == Seq::<u8>::empty());
                assert(result@ + Seq::<u8>::empty() == result@);
                done = true;
            } else {
                assert(all.skip(at).drop_first() =~= all.skip(at + 1));
                result.push(bytes[i]);
                assert(result@ =~= words_bytes(words@.take(w as int)) + bytes@.take(i + 1));
                i += 1;
            }
        }
        if !done {
            assert(words@.take(w + 1).drop_last() =~= words@.take(w as int));
            assert(bytes@.take(8) =~= bytes@);
            w += 1;
        }
    }
    if !done {
        assert(words@.take(words@.len() as int) =~= words@);
        assert(words_bytes(words@).skip(result@.len() as int) =~= Seq::<u8>::empty());
        assert(result@ + Seq::<u8>::empty() == result@);
    }
    result
}

/// The bytes of the first `w` words are a prefix of the bytes of all, and
/// the next eight bytes are those of word `w`.
proof fn lemma_words_bytes_take(words: Seq<u64>, w: int)
    requires
        0 <= w < words.len(),
    ensures
        words_bytes(words.take(w)).len() == w * 8,
        words_bytes(words).len() == words.len() * 8,
        forall|i: int| 0 <= i < 8 ==> #[trigger] words_bytes(words)[w * 8 + i] == le_bytes(words[w])[i],
        words_bytes(words.take(w)) == words_bytes(words).take(w * 8),
    decreases words.len(),
{
    lemma_words_bytes_len(words);
    lemma_words_bytes_len(words.take(w));
    if w == words.len() - 1 {
        assert(words.drop_last() =~= words.take(w));
    } else {
        lemma_words_bytes_take(words.drop_last(), w);
        assert(words.drop_last().take(w) =~= words.take(w));
        lemma_words_bytes_len(words.drop_last());
        assert forall|i: int| 0 <= i < 8 implies #[trigger] words_bytes(words)[w * 8 + i] == le_bytes(words[w])[i] by {
            assert(words_bytes(words)[w * 8 + i] == words_bytes(words.drop_last())[w * 8 + i]);
        }
        assert(words_bytes(words).take(w * 8) =~= words_bytes(words.drop_last()).take(w * 8));
    }
}

proof fn lemma_words_bytes_len(words: Seq<u64>)
    ensures
        words_bytes(words).len() == words.len() * 8,
    decreases words.len(),
{
    if words.len() > 0 {
        lemma_words_bytes_len(words.drop_last());
    }
}

proof fn lemma_words_bytes_of_string(s: Seq<u8>, k: int)
    requires
        0 <= k <= s.len() / 8 + 1,
    ensures
        words_bytes(string_words(s).take(k)) == padded_string(s).take(k * 8),
    decreases k,
{
    let padded = padded_string(s);
    assert(padded.len() == (s.len() / 8 + 1) * 8);
    if k == 0 {
        assert(string_words(s).take(0) =~= Seq::<u64>::empty());
        assert(padded.take(0) =~= Seq::<u8>::empty());
    } else {
        lemma_words_bytes_of_string(s, k - 1);
        let words = string_words(s).take(k);
        assert(words.drop_last() =~= string_words(s).take(k - 1));
        assert(k * 8 <= padded.len()) by (nonlinear_arith)
            requires
                k <= s.len() / 8 + 1,
                padded.len() == (s.len() / 8 + 1) * 8,
        ;
        let chunk = padded.subrange((k - 1) * 8, (k - 1) * 8 + 8);
        assert(words.last() == le_word(chunk));
        lemma_bytes_word_roundtrip(chunk);
        assert(padded.take((k - 1) * 8) + chunk =~= padded.take(k * 8));
    }
}

/// The bytes before a NUL byte, or before the end, are all there is before
/// the first NUL byte.
pub proof fn lemma_until_nul_prefix(s: Seq<u8>, rest: Seq<u8>)
    requires
        forall|i: int| 0 <= i < s.len() ==> s[i] != 0,
        rest.len() == 0 || rest[0] == 0,
    ensures
        until_nul(s + rest) == s,
    decreases s.len(),
{
    if s.len() == 0 {
        assert(s + rest =~= rest);
    } else {
        lemma_until_nul_prefix(s.drop_first(), rest);
        assert((s + rest).drop_first() =~= s.drop_first() + rest);
        assert(seq![s[0]] + s.drop_first() =~= s);
    }
}

/// Reading back the words written for a string gives the string, when it
/// holds no NUL byte.
pub proof fn lemma_string_words_roundtrip(s: Seq<u8>)
    requires
        forall|i: int| 0 <= i < s.len() ==> s[i] != 0,
    ensures
        until_nul(words_bytes(string_words(s))) == s,
{
    let n: int = (s.len() / 8 + 1) as int;
    lemma_words_bytes_of_string(s, n);
    assert(string_words(s).take(n) =~= string_words(s));
    let padded = padded_string(s);
    assert(padded.take(n * 8) =~= padded);
    assert(s.len() < padded.len()) by (nonlinear_arith)
        requires
            padded.len() == (s.len() / 8 + 1) * 8,
    ;
    let rest = padded.skip(s.len() as int);
    assert(s + rest =~= padded);
    lemma_until_nul_prefix(s, rest);
}

/// The bytes before the first NUL byte are a prefix without NUL bytes,
/// followed by a NUL byte or by nothing.
pub proof fn lemma_until_nul_is_prefix(s: Seq<u8>)
    ensures
        until_nul(s).len() <= s.len(),
        until_nul(s) == s.take(until_nul(s).len() as int),
        forall|i: int| 0 <= i < until_nul(s).len() ==> #[trigger] until_nul(s)[i] != 0,
        until_nul(s).len() < s.len() ==> s[until_nul(s).len() as int] == 0,
    decreases s.len(),
{
    if s.len() > 0 && s[0] != 0 {
        lemma_until_nul_is_prefix(s.drop_first());
        let rest = until_nul(s.drop_first());
        assert(until_nul(s) == seq![s[0]] + rest);
        assert(seq![s[0]] + s.drop_first().take(rest.len() as int) =~= s.take(rest.len() + 1 as int));
        assert forall|i: int| 0 <= i < until_nul(s).len() implies #[trigger] until_nul(s)[i] != 0 by {
            if i > 0 {
                assert(until_nul(s)[i] == rest[i - 1]);
            }
        }
        if until_nul(s).len() < s.len() {
            assert(s[until_nul(s).len() as int] == s.drop_first()[rest.len() as int]);
        }
    } else {
        assert(s.take(0) =~= Seq::<u8>::empty());
    }
}

} // verus!
