//! Short names, strings written into and read from tracee memory, words.

use scriptkeeper::short_temp_files::Names;
use scriptkeeper::tracee_memory::{data_to_string, ends_string, string_to_data, string_to_words};
use scriptkeeper::words::{
    cast_to_eight_byte_array, cast_to_eight_byte_word, cast_to_four_byte_array,
    cast_to_two_byte_array, cast_to_two_byte_word, merge_four_bytes,
};
use std::collections::HashSet;

fn all_names() -> Vec<String> {
    let mut names = Names::new();
    let mut result = vec![];
    while let Some(name) = names.next() {
        result.push(name);
    }
    result
}

#[test]
fn generates_a_lot_of_names() {
    assert_eq!(all_names().len(), 4356);
}

#[test]
fn generates_unique_names() {
    let mut set = HashSet::new();
    for name in all_names() {
        set.insert(name);
    }
    assert_eq!(set.len(), all_names().len());
}

#[test]
fn generates_names_below_three_characters() {
    for name in all_names() {
        assert!(name.len() < 3);
    }
}

#[test]
fn names_start_with_aa_and_stop_after_the_last() {
    let mut names = Names::new();
    assert_eq!(names.next(), Some("aa".to_string()));
    assert_eq!(names.next(), Some("ab".to_string()));
    let all = all_names();
    assert_eq!(all[66], "ba");
    assert_eq!(all[4355], "==");
    for _ in 2..4356 {
        names.next();
    }
    assert_eq!(names.next(), None);
    assert_eq!(names.next(), None);
}

#[test]
fn tracee_memory_converts_strings_to_bytes() {
    assert_eq!(string_to_data("foo").unwrap(), [102, 111, 111, 0, 0, 0, 0, 0]);
    assert_eq!(
        string_to_words(&b"foo".to_vec(), 8).unwrap(),
        vec![cast_to_eight_byte_word([102, 111, 111, 0, 0, 0, 0, 0])]
    );
}

#[test]
fn tracee_memory_errors_on_too_long_strings() {
    assert_eq!(
        string_to_data("1234567890").unwrap_err(),
        "string_to_data: string too long"
    );
    assert_eq!(
        string_to_data("12345678").unwrap_err(),
        "string_to_data: string too long"
    );
    assert_eq!(string_to_data("1234567").unwrap(), [49, 50, 51, 52, 53, 54, 55, 0]);
    assert_eq!(
        string_to_words(&b"123456781234567890".to_vec(), 16).unwrap_err(),
        "string_to_data: string too long"
    );
    assert_eq!(
        string_to_words(&b"1234567812345678".to_vec(), 16).unwrap_err(),
        "string_to_data: string too long"
    );
    assert_eq!(
        string_to_words(&b"123456781234567".to_vec(), 16).unwrap(),
        vec![
            cast_to_eight_byte_word([49, 50, 51, 52, 53, 54, 55, 56]),
            cast_to_eight_byte_word([49, 50, 51, 52, 53, 54, 55, 0])
        ]
    );
}

#[test]
fn tracee_memory_works_for_longer_strings() {
    assert_eq!(
        string_to_words(&b"foo_foo_foo".to_vec(), 16).unwrap(),
        vec![
            cast_to_eight_byte_word([102, 111, 111, 95, 102, 111, 111, 95]),
            cast_to_eight_byte_word([102, 111, 111, 0, 0, 0, 0, 0]),
        ]
    );
}

#[test]
fn tracee_memory_adds_another_word_for_null_termination_if_necessary() {
    assert_eq!(
        string_to_words(&b"12345678".to_vec(), 16).unwrap(),
        vec![
            cast_to_eight_byte_word([49, 50, 51, 52, 53, 54, 55, 56]),
            cast_to_eight_byte_word([0, 0, 0, 0, 0, 0, 0, 0])
        ]
    );
}

fn words(data: Vec<[u8; 8]>) -> Vec<u64> {
    data.into_iter().map(cast_to_eight_byte_word).collect()
}

#[test]
fn tracee_memory_reads_null_terminated_strings_from_one_word() {
    let data = words(vec![[102, 111, 111, 0, 0, 0, 0, 0]]);
    assert_eq!(data_to_string(&data), b"foo");
}

#[test]
fn tracee_memory_works_for_multiple_words() {
    let data = words(vec![
        [97, 98, 99, 100, 101, 102, 103, 104],
        [105, 0, 0, 0, 0, 0, 0, 0],
    ]);
    assert_eq!(data_to_string(&data), b"abcdefghi");
}

#[test]
fn tracee_memory_works_when_null_is_on_the_edge() {
    let data = words(vec![
        [97, 98, 99, 100, 101, 102, 103, 104],
        [0, 0, 0, 0, 0, 0, 0, 0],
    ]);
    assert_eq!(data_to_string(&data), b"abcdefgh");
}

#[test]
fn roundtrip_for_multiple_words() {
    let written = string_to_words(&b"foo_bar_baz".to_vec(), 16).unwrap();
    assert_eq!(data_to_string(&written), b"foo_bar_baz");
}

#[test]
fn roundtrip_for_a_single_word() {
    let written = string_to_words(&b"foo".to_vec(), 8).unwrap();
    assert_eq!(data_to_string(&written), b"foo");
}

#[test]
fn roundtrip_for_four_byte_word_doesnt_clobber_adjacent_four_bytes() {
    let existing = cast_to_eight_byte_word([1, 2, 3, 4, 5, 6, 7, 8]);
    let merged = merge_four_bytes(existing, u32::from_le_bytes([9, 10, 11, 12]));
    assert_eq!(cast_to_eight_byte_array(merged), [9, 10, 11, 12, 5, 6, 7, 8]);
}

#[test]
fn words_are_little_endian() {
    assert_eq!(cast_to_eight_byte_word([1, 0, 0, 0, 0, 0, 0, 0]), 1);
    assert_eq!(cast_to_eight_byte_word([0, 1, 0, 0, 0, 0, 0, 0]), 256);
    assert_eq!(cast_to_eight_byte_array(0x0807060504030201), [1, 2, 3, 4, 5, 6, 7, 8]);
    assert_eq!(cast_to_four_byte_array(0x04030201), [1, 2, 3, 4]);
    assert_eq!(cast_to_two_byte_array(0x0201), [1, 2]);
    assert_eq!(cast_to_two_byte_word([1, 2]), 0x0201);
}

#[test]
fn data_to_string_without_a_nul_byte_takes_all_bytes() {
    let data = words(vec![[97, 98, 99, 100, 101, 102, 103, 104]]);
    assert_eq!(data_to_string(&data), b"abcdefgh");
    assert_eq!(data_to_string(&vec![]), b"");
}

#[test]
fn a_string_ends_in_the_first_word_with_a_nul_byte() {
    assert!(!ends_string(u64::from_le_bytes(*b"abcdefgh")));
    assert!(ends_string(u64::from_le_bytes(*b"abc\0defg")));
    assert!(ends_string(u64::from_le_bytes(*b"abcdefg\0")));
    assert!(ends_string(0));
    assert!(!ends_string(u64::MAX));
}
