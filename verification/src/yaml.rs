use vstd::prelude::*;

use yaml_rust::Yaml as RawYaml;

use crate::text::{chars_of, decimal, push_chars, push_decimal_i64, push_str, string_from_chars};

verus! {

/// A YAML document, as the YAML loader gives it: a hash holds its entries
/// in the order of the document, each key once.
#[derive(Debug)]
pub enum Yaml {
    Real(String),
    Integer(i64),
    String(String),
    Boolean(bool),
    Array(Vec<Yaml>),
    Hash(Vec<(Yaml, Yaml)>),
    Alias(usize),
    Null,
    BadValue,
}

/// What `yaml_rust::YamlLoader::load_from_str` gives for a text: the
/// documents, or the message of the error.
pub uninterp spec fn yaml_load(source: Seq<char>) -> Result<Seq<Yaml>, Seq<char>>;

/// What `{:?}` renders for a YAML value, as `yaml_rust::Yaml` derives it.
pub uninterp spec fn yaml_debug_text(value: Yaml) -> Seq<char>;

/// What `{:?}` renders for the entries of a YAML hash, as
/// `linked_hash_map::LinkedHashMap` renders them.
pub uninterp spec fn yaml_map_debug_text(entries: Seq<(Yaml, Yaml)>) -> Seq<char>;

/// What `yaml_rust::YamlEmitter::dump` writes for a YAML value, or the
/// message of the error.
pub uninterp spec fn yaml_dump(value: Yaml) -> Result<Seq<char>, Seq<char>>;

/// The loader's own YAML value, carried through opaque.
#[verifier::external_type_specification]
#[verifier::external_body]
pub struct ExRawYaml(RawYaml);

/// Turns the loader's YAML value into the library's, variant for variant.
#[verifier::external_body]
fn from_raw(value: RawYaml) -> Yaml {
    match value {
        RawYaml::Real(s) => Yaml::Real(s),
        RawYaml::Integer(i) => Yaml::Integer(i),
        RawYaml::String(s) => Yaml::String(s),
        RawYaml::Boolean(b) => Yaml::Boolean(b),
        RawYaml::Array(a) => Yaml::Array(a.into_iter().map(from_raw).collect()),
        RawYaml::Hash(h) => Yaml::Hash(h.into_iter().map(|(k, v)| (from_raw(k), from_raw(v))).collect()),
        RawYaml::Alias(n) => Yaml::Alias(n),
        RawYaml::Null => Yaml::Null,
        RawYaml::BadValue => Yaml::BadValue,
    }
}

/// Turns the library's YAML value into the loader's, variant for variant.
#[verifier::external_body]
fn to_raw(value: &Yaml) -> RawYaml {
    match value {
        Yaml::Real(s) => RawYaml::Real(s.clone()),
        Yaml::Integer(i) => RawYaml::Integer(*i),
        Yaml::String(s) => RawYaml::String(s.clone()),
        Yaml::Boolean(b) => RawYaml::Boolean(*b),
        Yaml::Array(a) => RawYaml::Array(a.iter().map(to_raw).collect()),
        Yaml::Hash(h) => RawYaml::Hash(h.iter().map(|(k, v)| (to_raw(k), to_raw(v))).collect()),
        Yaml::Alias(n) => RawYaml::Alias(*n),
        Yaml::Null => RawYaml::Null,
        Yaml::BadValue => RawYaml::BadValue,
    }
}

/// Loads the YAML documents of a text.
/// Calls `yaml_rust::YamlLoader::load_from_str`; the contract names the
/// outcome (`yaml_load`), the error taken by its message.
#[verifier::external_body]
pub(crate) fn load_yaml(source: &str) -> (result: Result<Vec<Yaml>, String>)
    ensures
        match result {
            Ok(documents) => yaml_load(source@) == Ok::<Seq<Yaml>, Seq<char>>(documents@),
            Err(message) => yaml_load(source@) == Err::<Seq<Yaml>, Seq<char>>(message@),
        },
{
    match yaml_rust::YamlLoader::load_from_str(source) {
        Ok(documents) => Ok(documents.into_iter().map(from_raw).collect()),
        Err(error) => Err(error.to_string()),
    }
}

/// Renders a YAML value the way `{:?}` does.
/// Calls `format!("{:?}", ..)` on the `yaml_rust::Yaml` value; the contract
/// names the result (`yaml_debug_text`).
#[verifier::external_body]
pub(crate) fn debug_yaml(value: &Yaml) -> (result: String)
    ensures
        result@ == yaml_debug_text(*value),
{
    format!("{:?}", to_raw(value))
}

/// Renders the entries of a YAML hash the way `{:?}` does.
/// Calls `format!("{:?}", ..)` on the `linked_hash_map::LinkedHashMap`; the
/// contract names the result (`yaml_map_debug_text`).
#[verifier::external_body]
pub(crate) fn debug_yaml_map(entries: &Vec<(Yaml, Yaml)>) -> (result: String)
    ensures
        result@ == yaml_map_debug_text(entries@),
{
    let map: linked_hash_map::LinkedHashMap<RawYaml, RawYaml> =
        entries.iter().map(|(k, v)| (to_raw(k), to_raw(v))).collect();
    format!("{:?}", map)
}

/// Writes a YAML value as text.
/// Calls `yaml_rust::YamlEmitter::dump`; the contract names the outcome
/// (`yaml_dump`) and claims, as the source of `dump` shows, that the text
/// starts with the document marker `---` and a newline.
#[verifier::external_body]
pub(crate) fn dump_yaml(value: &Yaml) -> (result: Result<String, String>)
    ensures
        match result {
            Ok(text) => yaml_dump(*value) == Ok::<Seq<char>, Seq<char>>(text@) && text@.len() >= 4
                && text@.subrange(0, 4) == "---\n"@,
            Err(message) => yaml_dump(*value) == Err::<Seq<char>, Seq<char>>(message@),
        },
{
    let mut text = String::new();
    let converted = to_raw(value);
    match yaml_rust::YamlEmitter::new(&mut text).dump(&converted) {
        Ok(()) => Ok(text),
        Err(error) => Err(error.to_string()),
    }
}

/// The emitted text of a document without its leading `---` line, ended by
/// a newline.
pub open spec fn adjusted_output(input: Seq<u8>) -> Seq<u8> {
    if input.len() <= 4 {
        seq![10u8]
    } else {
        input.skip(4).push(10u8)
    }
}

/// Drops the document marker line that the emitter writes first, and adds a
/// final newline.
pub fn adjust_yaml_output(input: Vec<u8>) -> (result: Vec<u8>)
    ensures
        result@ == adjusted_output(input@),
{
    let mut result: Vec<u8> = Vec::new();
    let mut i: usize = 4;
    while i < input.len()
        invariant
            4 <= i <= input.len() || input.len() < 4 && i == 4,
            input.len() >= 4 ==> result@ == input@.subrange(4, i as int),
            input.len() < 4 ==> result@.len() == 0,
        decreases input.len() - i,
    {
        result.push(input[i]);
        i += 1;
        assert(input@.subrange(4, i as int) == input@.subrange(4, i - 1).push(input@[i - 1]));
    }
    result.push(10u8);
    if input.len() > 4 {
        assert(result@ =~= input@.skip(4).push(10u8));
    } else {
        assert(result@.len() == 1);
        assert(result@ =~= seq![10u8]);
    }
    result
}

/// The bytes of a YAML value as written to a file or to the output: the
/// emitted text without its `---` line, ended by a newline.
pub open spec fn yaml_output(value: Yaml) -> Result<Seq<u8>, Seq<char>> {
    match yaml_dump(value) {
        Ok(text) => Ok(adjusted_output(vstd::utf8::encode_utf8(text))),
        Err(message) => Err(message),
    }
}

/// Renders a YAML value as the bytes to write (see `yaml_output`).
pub fn write_yaml(value: &Yaml) -> (result: Result<Vec<u8>, String>)
    ensures
        match yaml_output(*value) {
            Ok(bytes) => result matches Ok(b) && b@ == bytes,
            Err(message) => result matches Err(m) && m@ == message,
        },
{
    match dump_yaml(value) {
        Ok(text) => {
            let bytes = text.as_str().as_bytes();
            let mut buffer: Vec<u8> = Vec::new();
            let mut i: usize = 0;
            while i < bytes.len()
                invariant
                    i <= bytes@.len(),
                    buffer@ == bytes@.subrange(0, i as int),
                decreases bytes@.len() - i,
            {
                buffer.push(bytes[i]);
                i += 1;
                assert(bytes@.subrange(0, i as int) == bytes@.subrange(0, i - 1).push(bytes@[i - 1]));
            }
            assert(bytes@.subrange(0, bytes@.len() as int) == bytes@);
            Ok(adjust_yaml_output(buffer))
        },
        Err(message) => Err(message),
    }
}

/// The message for a value of an unexpected kind.
pub open spec fn unexpected_message(expected: Seq<char>, value: Yaml) -> Seq<char> {
    "expected: "@ + expected + ", got: "@ + yaml_debug_text(value)
}

fn unexpected(expected: &str, value: &Yaml) -> (result: String)
    ensures
        result@ == unexpected_message(expected@, *value),
{
    let mut out: Vec<char> = Vec::new();
    push_str(&mut out, "expected: ");
    push_str(&mut out, expected);
    push_str(&mut out, ", got: ");
    let rendered = debug_yaml(value);
    push_str(&mut out, rendered.as_str());
    proof {
        reveal_strlit("expected: ");
        reveal_strlit(", got: ");
    }
    string_from_chars(&out)
}

/// The string of a YAML string value.
pub fn expect_str(value: &Yaml) -> (result: Result<&String, String>)
    ensures
        match value {
            Yaml::String(s) => result == Ok::<&String, String>(s),
            _ => result matches Err(m) && m@ == unexpected_message("string"@, *value),
        },
{
    match value {
        Yaml::String(s) => Ok(s),
        _ => Err(unexpected("string", value)),
    }
}

/// The elements of a YAML array value.
pub fn expect_array(value: &Yaml) -> (result: Result<&Vec<Yaml>, String>)
    ensures
        match value {
            Yaml::Array(a) => result == Ok::<&Vec<Yaml>, String>(a),
            _ => result matches Err(m) && m@ == unexpected_message("array"@, *value),
        },
{
    match value {
        Yaml::Array(a) => Ok(a),
        _ => Err(unexpected("array", value)),
    }
}

/// The entries of a YAML hash value.
pub fn expect_object(value: &Yaml) -> (result: Result<&Vec<(Yaml, Yaml)>, String>)
    ensures
        match value {
            Yaml::Hash(h) => result == Ok::<&Vec<(Yaml, Yaml)>, String>(h),
            _ => result matches Err(m) && m@ == unexpected_message("object"@, *value),
        },
{
    match value {
        Yaml::Hash(h) => Ok(h),
        _ => Err(unexpected("object", value)),
    }
}

/// The largest value of an `i32`.
pub open spec fn i32_max() -> int {
    2147483647
}

/// The value of a YAML integer that is at most the largest `i32`.
pub open spec fn integer_message(value: Yaml) -> Seq<char> {
    "expected: integer below "@ + decimal(i32_max()) + ", got: "@ + yaml_debug_text(value)
}

/// The value of a YAML integer, which has to be at most the largest `i32`.
/// Values below the smallest `i32` are cut to their low 32 bits.
pub fn expect_integer(value: &Yaml) -> (result: Result<i32, String>)
    ensures
        match value {
            Yaml::Integer(i) => if *i > i32_max() {
                result matches Err(m) && m@ == integer_message(*value)
            } else {
                result matches Ok(n) && n == *i as i32
            },
            _ => result matches Err(m) && m@ == unexpected_message("integer"@, *value),
        },
{
    match value {
        Yaml::Integer(i) => {
            if *i > 2147483647i64 {
                let mut out: Vec<char> = Vec::new();
                push_str(&mut out, "expected: integer below ");
                push_decimal_i64(&mut out, 2147483647i64);
                push_str(&mut out, ", got: ");
                let rendered = debug_yaml(value);
                push_str(&mut out, rendered.as_str());
                proof {
                    reveal_strlit("expected: integer below ");
                    reveal_strlit(", got: ");
                }
                Err(string_from_chars(&out))
            } else {
                #[verifier::truncate]
                let n = *i as i32;
                Ok(n)
            }
        },
        _ => Err(unexpected("integer", value)),
    }
}

/// Whether a YAML value is the string `key`.
pub open spec fn is_key(value: Yaml, key: Seq<char>) -> bool {
    value matches Yaml::String(s) && s@ == key
}

/// The value of the first entry whose key is the string `key`.
pub open spec fn field_value(entries: Seq<(Yaml, Yaml)>, key: Seq<char>) -> Option<Yaml>
    decreases entries.len(),
{
    if entries.len() == 0 {
        None
    } else if is_key(entries[0].0, key) {
        Some(entries[0].1)
    } else {
        field_value(entries.drop_first(), key)
    }
}

/// Past entries whose keys are not `key`, the first entry with that key is
/// the same.
proof fn lemma_field_value_skip(entries: Seq<(Yaml, Yaml)>, key: Seq<char>, i: int)
    requires
        0 <= i <= entries.len(),
        forall|j: int| 0 <= j < i ==> !is_key(#[trigger] entries[j].0, key),
    ensures
        field_value(entries, key) == field_value(entries.skip(i), key),
    decreases i,
{
    if i > 0 {
        assert(entries.drop_first().skip(i - 1) =~= entries.skip(i));
        assert forall|j: int| 0 <= j < i - 1 implies !is_key(#[trigger] entries.drop_first()[j].0, key) by {
            assert(entries.drop_first()[j] == entries[j + 1]);
        }
        lemma_field_value_skip(entries.drop_first(), key, i - 1);
    } else {
        assert(entries.skip(0) =~= entries);
    }
}

/// The message for a missing field.
pub open spec fn missing_field_message(field: Seq<char>, entries: Seq<(Yaml, Yaml)>) -> Seq<char> {
    "expected field '"@ + field + "', got: "@ + yaml_map_debug_text(entries)
}

/// The value of the field `field` of a YAML hash: the value of the first
/// entry whose key is that string.
pub fn expect_field<'a>(entries: &'a Vec<(Yaml, Yaml)>, field: &str) -> (result: Result<&'a Yaml, String>)
    ensures
        match field_value(entries@, field@) {
            Some(v) => result matches Ok(r) && *r == v,
            None => result matches Err(m) && m@ == missing_field_message(field@, entries@),
        },
{
    let key: String = field.to_owned();
    let mut i: usize = 0;
    while i < entries.len()
        invariant
            i <= entries.len(),
            key@ == field@,
            forall|j: int| 0 <= j < i ==> !is_key(#[trigger] entries@[j].0, field@),
        decreases entries.len() - i,
    {
        proof {
            lemma_field_value_skip(entries@, field@, i as int);
        }
        match &entries[i].0 {
            Yaml::String(s) => {
                if *s == key {
                    assert(entries@.skip(i as int)[0] == entries@[i as int]);
                    return Ok(&entries[i].1);
                }
            },
            _ => {},
        }
        i += 1;
    }
    proof {
        lemma_field_value_skip(entries@, field@, i as int);
        assert(entries@.skip(i as int).len() == 0);
    }
    let mut out: Vec<char> = Vec::new();
    push_str(&mut out, "expected field '");
    push_str(&mut out, field);
    push_str(&mut out, "', got: ");
    let rendered = debug_yaml_map(entries);
    push_str(&mut out, rendered.as_str());
    proof {
        reveal_strlit("expected field '");
        reveal_strlit("', got: ");
    }
    Err(string_from_chars(&out))
}

/// The string of a YAML value that has to be a string.
pub open spec fn string_of(value: Yaml) -> Result<Seq<char>, Seq<char>> {
    match value {
        Yaml::String(s) => Ok(s@),
        _ => Err(unexpected_message("string"@, value)),
    }
}

/// The integer of a YAML value that has to be an integer of at most the
/// largest `i32`; smaller integers are cut to their low 32 bits.
pub open spec fn integer_of(value: Yaml) -> Result<i32, Seq<char>> {
    match value {
        Yaml::Integer(i) => if i > i32_max() {
            Err(integer_message(value))
        } else {
            Ok(i as i32)
        },
        _ => Err(unexpected_message("integer"@, value)),
    }
}

} // verus!
