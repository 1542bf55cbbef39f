use vstd::prelude::*;

verus! {

/// The bytes of an 8-byte word, least significant first.
pub open spec fn le_bytes(x: u64) -> Seq<u8> {
    seq![
        (x & 0xff) as u8,
        ((x >> 8) & 0xff) as u8,
        ((x >> 16) & 0xff) as u8,
        ((x >> 24) & 0xff) as u8,
        ((x >> 32) & 0xff) as u8,
        ((x >> 40) & 0xff) as u8,
        ((x >> 48) & 0xff) as u8,
        ((x >> 56) & 0xff) as u8,
    ]
}

/// The 8-byte word of eight bytes, the first the least significant.
pub open spec fn le_word(b: Seq<u8>) -> u64
    recommends
        b.len() == 8,
{
    (b[0] as u64) | ((b[1] as u64) << 8) | ((b[2] as u64) << 16) | ((b[3] as u64) << 24) | ((b[4] as u64)
        << 32) | ((b[5] as u64) << 40) | ((b[6] as u64) << 48) | ((b[7] as u64) << 56)
}

/// The bytes of a 4-byte word, least significant first.
pub open spec fn le_bytes4(x: u32) -> Seq<u8> {
    seq![(x & 0xff) as u8, ((x >> 8) & 0xff) as u8, ((x >> 16) & 0xff) as u8, ((x >> 24) & 0xff) as u8]
}

/// The bytes of a 2-byte word, least significant first.
pub open spec fn le_bytes2(x: u16) -> Seq<u8> {
    seq![(x & 0xff) as u8, ((x >> 8) & 0xff) as u8]
}

/// The 2-byte word of two bytes, the first the least significant.
pub open spec fn le_word2(b: Seq<u8>) -> u16
    recommends
        b.len() == 2,
{
    (b[0] as u16) | ((b[1] as u16) << 8)
}

/// Splits an 8-byte word into its bytes, least significant first.
pub fn cast_to_eight_byte_array(x: u64) -> (result: [u8; 8])
    ensures
        result@ == le_bytes(x),
{
    let result = [
        (x & 0xff) as u8,
        ((x >> 8) & 0xff) as u8,
        ((x >> 16) & 0xff) as u8,
        ((x >> 24) & 0xff) as u8,
        ((x >> 32) & 0xff) as u8,
        ((x >> 40) & 0xff) as u8,
        ((x >> 48) & 0xff) as u8,
        ((x >> 56) & 0xff) as u8,
    ];
    assert(result@ =~= le_bytes(x));
    result
}

/// Joins eight bytes, the first the least significant, into a word.
pub fn cast_to_eight_byte_word(bytes: [u8; 8]) -> (result: u64)
    ensures
        result == le_word(bytes@),
{
    (bytes[0] as u64) | ((bytes[1] as u64) << 8) | ((bytes[2] as u64) << 16) | ((bytes[3] as u64) << 24)
        | ((bytes[4] as u64) << 32) | ((bytes[5] as u64) << 40) | ((bytes[6] as u64) << 48) | ((
    bytes[7] as u64) << 56)
}

/// Splits a 4-byte word into its bytes, least significant first.
pub fn cast_to_four_byte_array(x: u32) -> (result: [u8; 4])
    ensures
        result@ == le_bytes4(x),
{
    let result = [(x & 0xff) as u8, ((x >> 8) & 0xff) as u8, ((x >> 16) & 0xff) as u8, ((x >> 24) & 0xff) as u8];
    assert(result@ =~= le_bytes4(x));
    result
}

/// Splits a 2-byte word into its bytes, least significant first.
pub fn cast_to_two_byte_array(x: u16) -> (result: [u8; 2])
    ensures
        result@ == le_bytes2(x),
{
    let result = [(x & 0xff) as u8, ((x >> 8) & 0xff) as u8];
    assert(result@ =~= le_bytes2(x));
    result
}

/// Joins two bytes, the first the least significant, into a word.
pub fn cast_to_two_byte_word(bytes: [u8; 2]) -> (result: u16)
    ensures
        result == le_word2(bytes@),
{
    (bytes[0] as u16) | ((bytes[1] as u16) << 8)
}

/// Splitting a word into bytes and joining them gives the word back.
pub proof fn lemma_word_bytes_roundtrip(x: u64)
    ensures
        le_word(le_bytes(x)) == x,
{
    let b = le_bytes(x);
    assert(b[0] == (x & 0xff) as u8);
    assert(b[7] == ((x >> 56) & 0xff) as u8);
    assert(((x & 0xff) as u8 as u64) | ((((x >> 8) & 0xff) as u8 as u64) << 8) | ((((x >> 16) & 0xff) as u8
        as u64) << 16) | ((((x >> 24) & 0xff) as u8 as u64) << 24) | ((((x >> 32) & 0xff) as u8 as u64)
        << 32) | ((((x >> 40) & 0xff) as u8 as u64) << 40) | ((((x >> 48) & 0xff) as u8 as u64) << 48) | ((
    ((x >> 56) & 0xff) as u8 as u64) << 56) == x) by (bit_vector);
}

/// Joining eight bytes into a word and splitting it gives the bytes back.
pub proof fn lemma_bytes_word_roundtrip(b: Seq<u8>)
    requires
        b.len() == 8,
    ensures
        le_bytes(le_word(b)) == b,
{
    let (b0, b1, b2, b3, b4, b5, b6, b7) = (b[0], b[1], b[2], b[3], b[4], b[5], b[6], b[7]);
    let x = le_word(b);
    assert(x == (b0 as u64) | ((b1 as u64) << 8) | ((b2 as u64) << 16) | ((b3 as u64) << 24) | ((b4 as u64)
        << 32) | ((b5 as u64) << 40) | ((b6 as u64) << 48) | ((b7 as u64) << 56));
    assert((x & 0xff) as u8 == b0 && ((x >> 8) & 0xff) as u8 == b1 && ((x >> 16) & 0xff) as u8 == b2 && ((
    x >> 24) & 0xff) as u8 == b3 && ((x >> 32) & 0xff) as u8 == b4 && ((x >> 40) & 0xff) as u8 == b5 && ((x
        >> 48) & 0xff) as u8 == b6 && ((x >> 56) & 0xff) as u8 == b7) by (bit_vector)
        requires
            x == (b0 as u64) | ((b1 as u64) << 8) | ((b2 as u64) << 16) | ((b3 as u64) << 24) | ((b4 as u64)
                << 32) | ((b5 as u64) << 40) | ((b6 as u64) << 48) | ((b7 as u64) << 56),
    ;
    assert(le_bytes(x) =~= b);
}

/// Splitting a 2-byte word into bytes and joining them gives it back.
pub proof fn lemma_word2_bytes_roundtrip(x: u16)
    ensures
        le_word2(le_bytes2(x)) == x,
{
    assert(((x & 0xff) as u8 as u16) | ((((x >> 8) & 0xff) as u8 as u16) << 8) == x) by (bit_vector);
}

/// Joining two bytes into a word and splitting it gives the bytes back.
pub proof fn lemma_bytes_word2_roundtrip(b: Seq<u8>)
    requires
        b.len() == 2,
    ensures
        le_bytes2(le_word2(b)) == b,
{
    let (b0, b1) = (b[0], b[1]);
    let x = le_word2(b);
    assert((x & 0xff) as u8 == b0 && ((x >> 8) & 0xff) as u8 == b1) by (bit_vector)
        requires
            x == (b0 as u16) | ((b1 as u16) << 8),
    ;
    assert(le_bytes2(x) =~= b);
}

/// The word in which the first four bytes (in memory order) of `existing`
/// are replaced by the bytes of `small`.
pub open spec fn merged_word(existing: u64, small: u32) -> u64 {
    le_word(le_bytes4(small) + le_bytes(existing).skip(4))
}

/// Replaces the first four bytes (in memory order) of a word by the bytes
/// of a 4-byte word, keeping the other four.
pub fn merge_four_bytes(existing: u64, small: u32) -> (result: u64)
    ensures
        result == merged_word(existing, small),
        le_bytes(result) == le_bytes4(small) + le_bytes(existing).skip(4),
{
    let mut overlapping: [u8; 8] = cast_to_eight_byte_array(existing);
    let first_four: [u8; 4] = cast_to_four_byte_array(small);
    let mut i: usize = 0;
    while i < 4
        invariant
            i <= 4,
            overlapping@.len() == 8,
            forall|j: int| 0 <= j < i ==> overlapping@[j] == first_four@[j],
            forall|j: int| i <= j < 8 ==> overlapping@[j] == le_bytes(existing)[j],
        decreases 4 - i,
    {
        overlapping[i] = first_four[i];
        i += 1;
    }
    assert(overlapping@ =~= le_bytes4(small) + le_bytes(existing).skip(4));
    let result = cast_to_eight_byte_word(overlapping);
    proof {
        lemma_bytes_word_roundtrip(overlapping@);
    }
    result
}

} // verus!
