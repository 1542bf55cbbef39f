use vstd::prelude::*;

use crate::short_temp_files::ShortTempFile;
use crate::text::str_bytes;

verus! {

/// What a mock executable does: write some output and exit with an exit
/// code, or run an executable (and thereby have it recorded).
#[derive(Debug, PartialEq, Eq)]
pub enum Config {
    Config { stdout: Vec<u8>, exitcode: i32 },
    Wrapper { executable: String },
}

/// The content of a mock executable: a hashbang line that runs the
/// scriptkeeper executable in its mock mode, then the encoded
/// configuration.
pub open spec fn mock_contents(scriptkeeper_executable: Seq<char>, config: Seq<u8>) -> Seq<u8> {
    "#!"@.map_values(|c: char| c as u8) + vstd::utf8::encode_utf8(scriptkeeper_executable) + " --executable-mock\n"@.map_values(
        |c: char| c as u8,
    ) + config
}

/// The bytes after the first line; nothing when there is no line break.
pub open spec fn after_first_line(input: Seq<u8>) -> Seq<u8>
    decreases input.len(),
{
    if input.len() == 0 {
        seq![]
    } else if input[0] == 10 {
        input.drop_first()
    } else {
        after_first_line(input.drop_first())
    }
}

/// The content of a mock executable (see `mock_contents`), for an encoded
/// configuration.
pub fn create_mock_executable(scriptkeeper_executable: &str, config: &Vec<u8>) -> (result: Vec<u8>)
    ensures
        result@ == mock_contents(scriptkeeper_executable@, config@),
{
    let mut result: Vec<u8> = Vec::new();
    result.push(35);
    result.push(33);
    let executable = str_bytes(scriptkeeper_executable);
    append(&mut result, &executable);
    let flag = str_bytes(" --executable-mock\n");
    append(&mut result, &flag);
    append(&mut result, config);
    proof {
        reveal_strlit("#!");
        reveal_strlit(" --executable-mock\n");
        vstd::utf8::is_ascii_chars_encode_utf8(" --executable-mock\n"@);
        assert(vstd::utf8::is_ascii_chars(" --executable-mock\n"@));
        assert(" --executable-mock\n"@.map_values(|c: char| c as u8) =~= flag@);
        assert("#!"@.map_values(|c: char| c as u8) =~= seq![35u8, 33u8]);
    }
    assert(result@ =~= mock_contents(scriptkeeper_executable@, config@));
    result
}

fn append(out: &mut Vec<u8>, bytes: &Vec<u8>)
    ensures
        final(out)@ == old(out)@ + bytes@,
{
    let mut i: usize = 0;
    while i < bytes.len()
        invariant
            i <= bytes.len(),
            out@ == old(out)@ + bytes@.subrange(0, i as int),
        decreases bytes.len() - i,
    {
        out.push(bytes[i]);
        i += 1;
        assert(out@ =~= old(out)@ + bytes@.subrange(0, i as int));
    }
    assert(bytes@.subrange(0, bytes@.len() as int) =~= bytes@);
}

/// The encoded configuration of a mock executable: what follows its first
/// line.
pub fn skip_hashbang_line(input: &Vec<u8>) -> (result: Vec<u8>)
    ensures
        result@ == after_first_line(input@),
{
    let mut i: usize = 0;
    assert(input@.skip(0) =~= input@);
    while i < input.len() && input[i] != 10
        invariant
            i <= input.len(),
            after_first_line(input@) == after_first_line(input@.skip(i as int)),
        decreases input.len() - i,
    {
        assert(input@.skip(i as int).drop_first() =~= input@.skip(i + 1));
        i += 1;
    }
    let mut result: Vec<u8> = Vec::new();
    if i < input.len() {
        assert(input@.skip(i as int)[0] == 10);
        assert(input@.skip(i as int).drop_first() =~= input@.skip(i + 1));
        let mut j: usize = i + 1;
        while j < input.len()
            invariant
                i < j <= input.len(),
                result@ == input@.subrange(i + 1, j as int),
            decreases input.len() - j,
        {
            result.push(input[j]);
            j += 1;
            assert(result@ =~= input@.subrange(i + 1, j as int));
        }
        assert(input@.skip(i + 1) =~= input@.subrange(i + 1, input.len() as int));
    } else {
        assert(input@.skip(i as int).len() == 0);
    }
    result
}

/// The configuration of a mock executable is what follows its hashbang
/// line, when the path of the scriptkeeper executable holds no line break.
pub proof fn lemma_mock_contents_roundtrip(scriptkeeper_executable: Seq<char>, config: Seq<u8>)
    requires
        !scriptkeeper_executable.contains('\n'),
    ensures
        after_first_line(mock_contents(scriptkeeper_executable, config)) == config,
{
    reveal_strlit("#!");
    reveal_strlit(" --executable-mock\n");
    let head = "#!"@.map_values(|c: char| c as u8) + vstd::utf8::encode_utf8(scriptkeeper_executable)
        + " --executable-mock"@.map_values(|c: char| c as u8);
    reveal_strlit(" --executable-mock");
    lemma_no_newline_encoded(scriptkeeper_executable);
    assert(" --executable-mock\n"@.map_values(|c: char| c as u8) =~= " --executable-mock"@.map_values(
        |c: char| c as u8,
    ).push(10u8));
    assert(mock_contents(scriptkeeper_executable, config) =~= head + (seq![10u8] + config));
    assert forall|i: int| 0 <= i < head.len() implies #[trigger] head[i] != 10 by {
        let prefix = "#!"@.map_values(|c: char| c as u8);
        let encoded = vstd::utf8::encode_utf8(scriptkeeper_executable);
        if i >= prefix.len() && i < prefix.len() + encoded.len() {
            assert(head[i] == encoded[i - prefix.len()]);
        }
    }
    lemma_after_first_line(head, seq![10u8] + config);
    assert((seq![10u8] + config).drop_first() =~= config);
}

/// What follows the first line break, when it is at the end of `head`.
proof fn lemma_after_first_line(head: Seq<u8>, rest: Seq<u8>)
    requires
        forall|i: int| 0 <= i < head.len() ==> #[trigger] head[i] != 10,
        rest.len() > 0,
        rest[0] == 10,
    ensures
        after_first_line(head + rest) == rest.drop_first(),
    decreases head.len(),
{
    if head.len() == 0 {
        assert(head + rest =~= rest);
    } else {
        lemma_after_first_line(head.drop_first(), rest);
        assert((head + rest).drop_first() =~= head.drop_first() + rest);
    }
}

/// The UTF-8 encoding of a character other than a line break holds no
/// line-break byte.
proof fn lemma_scalar_no_newline(v: u32)
    requires
        v != 10,
    ensures
        forall|i: int| 0 <= i < vstd::utf8::encode_scalar(v).len() ==> #[trigger] vstd::utf8::encode_scalar(v)[i] != 10,
{
    let e = vstd::utf8::encode_scalar(v);
    assert(v <= 0x7f ==> ((v & 0x7f) as u8) != 10u8) by (bit_vector)
        requires
            v != 10,
    ;
    assert(forall|x: u8| #[trigger] (0xC0u8 | x) != 10u8) by (bit_vector);
    assert(forall|x: u8| #[trigger] (0xE0u8 | x) != 10u8) by (bit_vector);
    assert(forall|x: u8| #[trigger] (0xF0u8 | x) != 10u8) by (bit_vector);
    assert(forall|x: u8| #[trigger] (0x80u8 | x) != 10u8) by (bit_vector);
}

/// The UTF-8 encoding of text without a line break holds no line-break
/// byte.
proof fn lemma_no_newline_encoded(text: Seq<char>)
    requires
        !text.contains('\n'),
    ensures
        forall|i: int| 0 <= i < vstd::utf8::encode_utf8(text).len() ==> #[trigger] vstd::utf8::encode_utf8(text)[i] != 10,
    decreases text.len(),
{
    if text.len() > 0 {
        assert(!text.drop_first().contains('\n')) by {
            if text.drop_first().contains('\n') {
                let k = choose|k: int| 0 <= k < text.drop_first().len() && text.drop_first()[k] == '\n';
                assert(text[k + 1] == '\n');
            }
        }
        lemma_no_newline_encoded(text.drop_first());
        assert(text[0] != '\n');
        let v = text[0] as u32;
        vstd::utf8::char_u32_cast(text[0], v);
        if v == 10 {
            assert(v as char == '\n');
        }
        lemma_scalar_no_newline(v);
        let head = vstd::utf8::encode_scalar(text[0] as u32);
        let tail = vstd::utf8::encode_utf8(text.drop_first());
        assert(vstd::utf8::encode_utf8(text) == head + tail);
        assert forall|i: int| 0 <= i < (head + tail).len() implies #[trigger] (head + tail)[i] != 10 by {
            if i >= head.len() {
                assert((head + tail)[i] == tail[i - head.len()]);
            }
        }
    }
}

/// A mock executable in a temporary file.
#[derive(Debug)]
pub struct ExecutableMock {
    pub temp_file: ShortTempFile,
}

impl ExecutableMock {
    /// The path of the mock executable.
    pub fn path(&self) -> (result: String)
        ensures
            result@ == self.temp_file.path@,
    {
        self.temp_file.path()
    }
}

} // verus!
