use vstd::prelude::*;

use crate::text::{push_decimal_u64, push_str, string_from_chars, utf8_lossy, utf8_lossy_string};
use crate::tracee_memory::until_nul;
use crate::words::{
    cast_to_eight_byte_array, cast_to_eight_byte_word, cast_to_two_byte_array, cast_to_two_byte_word, le_bytes,
    le_bytes2, le_word, le_word2, lemma_bytes_word2_roundtrip, lemma_bytes_word_roundtrip,
    lemma_word2_bytes_roundtrip, lemma_word_bytes_roundtrip,
};

verus! {

/// The fields of a directory entry as values.
pub struct DirentView {
    pub ino: u64,
    pub off: u64,
    pub reclen: u16,
    pub kind: u8,
    pub name: Seq<u8>,
}

/// The 8-byte word at `offset`, least significant byte first.
pub open spec fn word_at(bytes: Seq<u8>, offset: int) -> u64 {
    le_word(bytes.subrange(offset, offset + 8))
}

/// The 2-byte word at `offset`, least significant byte first.
pub open spec fn short_at(bytes: Seq<u8>, offset: int) -> u16 {
    le_word2(bytes.subrange(offset, offset + 2))
}

/// The record length that a directory entry's bytes give.
pub open spec fn record_length(bytes: Seq<u8>) -> u16 {
    short_at(bytes, 16)
}

/// The fields of a new-style directory entry (`linux_dirent64`): inode,
/// offset and record length, then the file type and the name, which ends
/// at the first NUL byte.
pub open spec fn new_dirent_of(bytes: Seq<u8>) -> DirentView {
    DirentView {
        ino: word_at(bytes, 0),
        off: word_at(bytes, 8),
        reclen: record_length(bytes),
        kind: bytes[18],
        name: until_nul(bytes.skip(19)),
    }
}

/// The fields of an old-style directory entry (`linux_dirent`): inode,
/// offset and record length, then the name, which ends at the first NUL
/// byte, and the file type in the last byte.
pub open spec fn old_dirent_of(bytes: Seq<u8>) -> DirentView {
    DirentView {
        ino: word_at(bytes, 0),
        off: word_at(bytes, 8),
        reclen: record_length(bytes),
        kind: bytes.last(),
        name: until_nul(bytes.skip(18)),
    }
}

/// NUL bytes.
pub open spec fn zeros(n: int) -> Seq<u8> {
    Seq::new(n as nat, |i: int| 0u8)
}

/// The bytes of a new-style directory entry: the record is padded with NUL
/// bytes after the name up to its length.
pub open spec fn new_dirent_bytes(d: DirentView) -> Seq<u8> {
    le_bytes(d.ino) + le_bytes(d.off) + le_bytes2(d.reclen) + seq![d.kind] + d.name + zeros(d.reclen - 19 - d.name.len())
}

/// The bytes of an old-style directory entry: the name is padded with NUL
/// bytes, and the record ends with a NUL byte and the file type.
pub open spec fn old_dirent_bytes(d: DirentView) -> Seq<u8> {
    le_bytes(d.ino) + le_bytes(d.off) + le_bytes2(d.reclen) + d.name + zeros(d.reclen - 20 - d.name.len()) + seq![
        0u8,
        d.kind,
    ]
}

/// The record length of a new-style entry for a name: 24 bytes, and 8 more
/// for each started 8 bytes of the name beyond its first 5.
pub open spec fn new_record_length(name_length: int) -> int {
    if name_length <= 5 {
        24
    } else {
        (name_length + 2) / 8 * 8 + 24
    }
}

/// The record length of an old-style entry for a name: 24 bytes, and 8 more
/// for each started 8 bytes of the name beyond its first 4.
pub open spec fn old_record_length(name_length: int) -> int {
    if name_length <= 4 {
        24
    } else {
        (name_length + 3) / 8 * 8 + 24
    }
}

/// The file type of a regular file.
/// Returns `libc::DT_REG`, which the source of `libc` defines as 8.
#[verifier::external_body]
fn regular_file_type() -> (kind: u8)
    ensures
        kind == 8,
{
    libc::DT_REG
}

/// A new-style directory entry (`linux_dirent64`).
#[derive(Debug, PartialEq, Eq)]
pub struct NewDirent {
    d_ino: u64,
    d_off: u64,
    d_reclen: u16,
    d_type: u8,
    d_name: Vec<u8>,
}

/// An old-style directory entry (`linux_dirent`).
#[derive(Debug, PartialEq, Eq)]
pub struct OldDirent {
    d_ino: u64,
    d_off: u64,
    d_reclen: u16,
    d_name: Vec<u8>,
    pad: u8,
    d_type: u8,
}

/// A directory entry of either style.
#[derive(Debug, PartialEq, Eq)]
pub enum DirectoryEntry {
    Old(OldDirent),
    New(NewDirent),
}

/// The 8-byte word at `offset` of a byte string.
fn read_word(bytes: &Vec<u8>, offset: usize) -> (result: u64)
    requires
        offset + 8 <= bytes.len(),
    ensures
        result == word_at(bytes@, offset as int),
{
    let mut word: [u8; 8] = [0, 0, 0, 0, 0, 0, 0, 0];
    let mut i: usize = 0;
    while i < 8
        invariant
            offset + 8 <= bytes.len(),
            i <= 8,
            word@.len() == 8,
            forall|j: int| 0 <= j < i ==> word@[j] == bytes@[offset + j],
        decreases 8 - i,
    {
        word[i] = bytes[offset + i];
        i += 1;
    }
    assert(word@ =~= bytes@.subrange(offset as int, offset + 8));
    cast_to_eight_byte_word(word)
}

/// The record length, in bytes 16 and 17.
fn read_record_length(bytes: &Vec<u8>) -> (result: u16)
    requires
        18 <= bytes.len(),
    ensures
        result == record_length(bytes@),
{
    let pair: [u8; 2] = [bytes[16], bytes[17]];
    assert(pair@ =~= bytes@.subrange(16, 18));
    cast_to_two_byte_word(pair)
}

/// The bytes from `offset` up to the first NUL byte.
fn name_from(bytes: &Vec<u8>, offset: usize) -> (result: Vec<u8>)
    requires
        offset <= bytes.len(),
    ensures
        result@ == until_nul(bytes@.skip(offset as int)),
        result@.len() <= bytes.len() - offset,
        forall|i: int| 0 <= i < result@.len() ==> result@[i] != 0 && result@[i] == bytes@[offset + i],
        offset + result@.len() < bytes.len() ==> bytes@[offset + result@.len()] == 0,
{
    let mut result: Vec<u8> = Vec::new();
    let mut i: usize = offset;
    while i < bytes.len() && bytes[i] != 0
        invariant
            offset <= i <= bytes.len(),
            result@ == bytes@.subrange(offset as int, i as int),
            forall|k: int| 0 <= k < result@.len() ==> result@[k] != 0,
            until_nul(bytes@.skip(offset as int)) == result@ + until_nul(bytes@.skip(i as int)),
        decreases bytes.len() - i,
    {
        assert(bytes@.skip(i as int).drop_first() =~= bytes@.skip(i + 1));
        assert(bytes@.skip(i as int)[0] == bytes@[i as int]);
        result.push(bytes[i]);
        assert(result@ =~= bytes@.subrange(offset as int, i + 1));
        assert(result@ + until_nul(bytes@.skip(i + 1)) =~= bytes@.subrange(offset as int, i as int) + (seq![
            bytes@[i as int],
        ] + until_nul(bytes@.skip(i + 1))));
        i += 1;
    }
    if i < bytes.len() {
        assert(bytes@.skip(i as int)[0] == 0);
    }
    assert(until_nul(bytes@.skip(i as int)) =~= Seq::<u8>::empty());
    assert(result@ + Seq::<u8>::empty() =~= result@);
    result
}

/// Zero bytes.
fn zero_bytes(n: usize) -> (result: Vec<u8>)
    ensures
        result@ == zeros(n as int),
{
    let mut result: Vec<u8> = Vec::new();
    let mut i: usize = 0;
    while i < n
        invariant
            i <= n,
            result@ == zeros(i as int),
        decreases n - i,
    {
        result.push(0);
        i += 1;
        assert(result@ =~= zeros(i as int));
    }
    result
}

/// Appends the bytes of an array.
fn append_array<const N: usize>(out: &mut Vec<u8>, bytes: [u8; N])
    ensures
        final(out)@ == old(out)@ + bytes@,
{
    let mut i: usize = 0;
    while i < N
        invariant
            i <= N,
            bytes@.len() == N,
            out@ == old(out)@ + bytes@.subrange(0, i as int),
        decreases N - i,
    {
        out.push(bytes[i]);
        i += 1;
        assert(out@ =~= old(out)@ + bytes@.subrange(0, i as int));
    }
    assert(bytes@.subrange(0, N as int) =~= bytes@);
}

/// Appends the bytes of a vector.
fn append_bytes(out: &mut Vec<u8>, bytes: &Vec<u8>)
    ensures
        final(out)@ == old(out)@ + bytes@,
{
    let mut i: usize = 0;
    while i < bytes.len()
        invariant
            i <= bytes.len(),
            out@ == old(out)@ + bytes@.subrange(0, i as int),
        decreases bytes.len() - i,
    {
        out.push(bytes[i]);
        i += 1;
        assert(out@ =~= old(out)@ + bytes@.subrange(0, i as int));
    }
    assert(bytes@.subrange(0, bytes@.len() as int) =~= bytes@);
}

impl NewDirent {
    /// The fields of the entry.
    pub closed spec fn view(&self) -> DirentView {
        DirentView { ino: self.d_ino, off: self.d_off, reclen: self.d_reclen, kind: self.d_type, name: self.d_name@ }
    }

    /// Whether the name and the header fit into the record.
    pub open spec fn fits(&self) -> bool {
        19 + self.view().name.len() <= self.view().reclen
    }

    /// Reads a new-style entry from the bytes of its record, whose length
    /// they have to give.
    pub fn new(bytes: Vec<u8>) -> (result: Result<NewDirent, String>)
        requires
            19 <= bytes.len(),
            record_length(bytes@) == bytes.len(),
        ensures
            result matches Ok(d) && d.view() == new_dirent_of(bytes@),
    {
        let d_ino = read_word(&bytes, 0);
        let d_off = read_word(&bytes, 8);
        let d_reclen = read_record_length(&bytes);
        let d_type = bytes[18];
        let d_name = name_from(&bytes, 19);
        Ok(NewDirent { d_ino, d_off, d_reclen, d_type, d_name })
    }

    /// An entry for a regular file with the given name, with the record
    /// length that fits it (see `new_record_length`).
    pub fn new_with_name(name: Vec<u8>) -> (result: NewDirent)
        requires
            name.len() <= 65509,
        ensures
            result.view() == (DirentView {
                ino: 0,
                off: 0,
                reclen: new_record_length(name@.len() as int) as u16,
                kind: 8,
                name: name@,
            }),
            result.fits(),
    {
        let length = name.len();
        let d_reclen: u16 = if length <= 5 {
            24
        } else {
            assert((length + 2) / 8 * 8 + 24 <= 65535) by (nonlinear_arith)
                requires
                    length <= 65509,
            ;
            assert((length + 2) / 8 * 8 + 24 >= 19 + length) by (nonlinear_arith)
                requires
                    length > 5,
            ;
            ((length + 2) / 8 * 8 + 24) as u16
        };
        NewDirent { d_ino: 0, d_off: 0, d_reclen, d_type: regular_file_type(), d_name: name }
    }

    /// The bytes of the entry (see `new_dirent_bytes`).
    pub fn to_bytes(&self) -> (result: Vec<u8>)
        requires
            self.fits(),
        ensures
            result@ == new_dirent_bytes(self.view()),
    {
        let padding_size: usize = self.d_reclen as usize - 19 - self.d_name.len();
        let mut out: Vec<u8> = Vec::new();
        append_array(&mut out, cast_to_eight_byte_array(self.d_ino));
        append_array(&mut out, cast_to_eight_byte_array(self.d_off));
        append_array(&mut out, cast_to_two_byte_array(self.d_reclen));
        out.push(self.d_type);
        append_bytes(&mut out, &self.d_name);
        let padding = zero_bytes(padding_size);
        append_bytes(&mut out, &padding);
        assert(out@ =~= new_dirent_bytes(self.view()));
        out
    }
}

impl OldDirent {
    /// The fields of the entry.
    pub closed spec fn view(&self) -> DirentView {
        DirentView { ino: self.d_ino, off: self.d_off, reclen: self.d_reclen, kind: self.d_type, name: self.d_name@ }
    }

    /// The padding byte that the entry holds beside its fields.
    pub closed spec fn padding(&self) -> u8 {
        self.pad
    }

    /// Whether the name and the header fit into the record.
    pub open spec fn fits(&self) -> bool {
        20 + self.view().name.len() <= self.view().reclen
    }

    /// Reads an old-style entry from the bytes of its record, whose length
    /// they have to give.
    pub fn new(bytes: Vec<u8>) -> (result: Result<OldDirent, String>)
        requires
            18 <= bytes.len(),
            record_length(bytes@) == bytes.len(),
        ensures
            result matches Ok(d) && d.view() == old_dirent_of(bytes@) && d.padding() == 0,
    {
        let d_ino = read_word(&bytes, 0);
        let d_off = read_word(&bytes, 8);
        let d_reclen = read_record_length(&bytes);
        let d_name = name_from(&bytes, 18);
        let d_type = bytes[bytes.len() - 1];
        Ok(OldDirent { d_ino, d_off, d_reclen, d_name, pad: 0, d_type })
    }

    /// An entry for a regular file with the given name, with the record
    /// length that fits it (see `old_record_length`).
    pub fn new_with_name(name: Vec<u8>) -> (result: OldDirent)
        requires
            name.len() <= 65508,
        ensures
            result.view() == (DirentView {
                ino: 0,
                off: 0,
                reclen: old_record_length(name@.len() as int) as u16,
                kind: 8,
                name: name@,
            }),
            result.padding() == 0,
            result.fits(),
    {
        let length = name.len();
        let d_reclen: u16 = if length <= 4 {
            24
        } else {
            assert((length + 3) / 8 * 8 + 24 <= 65535) by (nonlinear_arith)
                requires
                    length <= 65508,
            ;
            assert((length + 3) / 8 * 8 + 24 >= 20 + length) by (nonlinear_arith)
                requires
                    length > 4,
            ;
            ((length + 3) / 8 * 8 + 24) as u16
        };
        OldDirent { d_ino: 0, d_off: 0, d_reclen, d_name: name, pad: 0, d_type: regular_file_type() }
    }

    /// The bytes of the entry (see `old_dirent_bytes`).
    pub fn to_bytes(&self) -> (result: Vec<u8>)
        requires
            self.fits(),
        ensures
            result@ == old_dirent_bytes(self.view()),
    {
        let padding_size: usize = self.d_reclen as usize - 20 - self.d_name.len();
        let mut out: Vec<u8> = Vec::new();
        append_array(&mut out, cast_to_eight_byte_array(self.d_ino));
        append_array(&mut out, cast_to_eight_byte_array(self.d_off));
        append_array(&mut out, cast_to_two_byte_array(self.d_reclen));
        append_bytes(&mut out, &self.d_name);
        let padding = zero_bytes(padding_size);
        append_bytes(&mut out, &padding);
        out.push(0);
        out.push(self.d_type);
        assert(out@ =~= old_dirent_bytes(self.view()));
        out
    }
}

/// A directory entry of either style, as values.
pub enum EntryView {
    Old(DirentView),
    New(DirentView),
}

/// The message for bytes too few to hold an entry.
pub open spec fn too_small_message(length: nat) -> Seq<char> {
    "the smallest valid 'dirent' struct is 24 bytes, only "@ + crate::text::decimal(length as int) + " bytes given"@
}

/// The entry that the bytes of a record hold: an old-style entry when byte
/// 18 is above 12 (no file type is), else a new-style one.
pub open spec fn entry_of(bytes: Seq<u8>) -> Result<EntryView, Seq<char>> {
    if bytes.len() < 19 {
        Err(too_small_message(bytes.len()))
    } else if bytes[18] > 12 {
        Ok(EntryView::Old(old_dirent_of(bytes)))
    } else {
        Ok(EntryView::New(new_dirent_of(bytes)))
    }
}

/// The old-style entries of a buffer of records from `start` on, each
/// record as long as its byte 16 says; `None` when a record does not fit
/// or is too short to hold its header.
pub open spec fn records_from(buffer: Seq<u8>, start: nat) -> Option<Seq<DirentView>>
    decreases buffer.len() - start,
{
    if start + 16 >= buffer.len() {
        Some(seq![])
    } else {
        let length = buffer[start + 16 as int] as nat;
        if length < 18 || start + length > buffer.len() || buffer[start + 17 as int] != 0 {
            None
        } else {
            match records_from(buffer, start + length) {
                Some(rest) => Some(seq![old_dirent_of(buffer.subrange(start as int, (start + length) as int))] + rest),
                None => None,
            }
        }
    }
}

/// A byte and a NUL byte, least significant first, are the byte.
proof fn lemma_low_byte(b: u8)
    ensures
        le_word2(seq![b, 0u8]) == b as u16,
{
    assert((b as u16) | ((0u8 as u16) << 8) == b as u16) by (bit_vector);
}

/// Copies the bytes from `from` to `to`.
fn slice_of(bytes: &Vec<u8>, from: usize, to: usize) -> (result: Vec<u8>)
    requires
        from <= to <= bytes.len(),
    ensures
        result@ == bytes@.subrange(from as int, to as int),
{
    let mut result: Vec<u8> = Vec::new();
    let mut i: usize = from;
    while i < to
        invariant
            from <= i <= to <= bytes.len(),
            result@ == bytes@.subrange(from as int, i as int),
        decreases to - i,
    {
        result.push(bytes[i]);
        i += 1;
        assert(result@ =~= bytes@.subrange(from as int, i as int));
    }
    result
}

impl DirectoryEntry {
    /// The fields of the entry, with its style.
    pub open spec fn view(&self) -> EntryView {
        match self {
            DirectoryEntry::Old(d) => EntryView::Old(d.view()),
            DirectoryEntry::New(d) => EntryView::New(d.view()),
        }
    }

    /// Whether the name and the header fit into the record.
    pub open spec fn fits(&self) -> bool {
        match self {
            DirectoryEntry::Old(d) => d.fits(),
            DirectoryEntry::New(d) => d.fits(),
        }
    }

    /// Reads an entry from the bytes of its record (see `entry_of`), whose
    /// length they have to give.
    pub fn new(bytes: Vec<u8>) -> (result: Result<DirectoryEntry, String>)
        requires
            bytes.len() >= 19 ==> record_length(bytes@) == bytes.len(),
        ensures
            match entry_of(bytes@) {
                Ok(view) => result matches Ok(entry) && entry.view() == view,
                Err(message) => result matches Err(m) && m@ == message,
            },
    {
        let length = bytes.len();
        if length < 19 {
            let mut out: Vec<char> = Vec::new();
            push_str(&mut out, "the smallest valid 'dirent' struct is 24 bytes, only ");
            push_decimal_u64(&mut out, length as u64);
            push_str(&mut out, " bytes given");
            proof {
                reveal_strlit("the smallest valid 'dirent' struct is 24 bytes, only ");
                reveal_strlit(" bytes given");
            }
            return Err(string_from_chars(&out));
        }
        if bytes[18] > 12 {
            match OldDirent::new(bytes) {
                Ok(d) => Ok(DirectoryEntry::Old(d)),
                Err(message) => Err(message),
            }
        } else {
            match NewDirent::new(bytes) {
                Ok(d) => Ok(DirectoryEntry::New(d)),
                Err(message) => Err(message),
            }
        }
    }

    /// Splits a buffer of old-style records into entries (see
    /// `records_from`).
    pub fn new_collection_from_buffer(buffer: &Vec<u8>) -> (result: Result<Vec<DirectoryEntry>, String>)
        requires
            records_from(buffer@, 0) is Some,
        ensures
            result matches Ok(entries) && entries@.map_values(|e: DirectoryEntry| e.view())
                == records_from(buffer@, 0)->Some_0.map_values(|d: DirentView| EntryView::Old(d)),
    {
        let mut output: Vec<DirectoryEntry> = Vec::new();
        let mut start: usize = 0;
        let ghost all = records_from(buffer@, 0)->Some_0;
        while buffer.len() - start > 16
            invariant
                start <= buffer.len(),
                records_from(buffer@, start as nat) is Some,
                all == records_from(buffer@, 0)->Some_0,
                all == output@.map_values(|e: DirectoryEntry| match e.view() {
                    EntryView::Old(d) => d,
                    EntryView::New(d) => d,
                }) + records_from(buffer@, start as nat)->Some_0,
                forall|i: int| 0 <= i < output@.len() ==> #[trigger] output@[i].view() is Old,
            decreases buffer.len() - start,
        {
            let ghost before = output@;
            let record_length = buffer[start + 16] as usize;
            let endpoint = start + record_length;
            let record = slice_of(buffer, start, endpoint);
            proof {
                assert(record@.subrange(16, 18) =~= seq![buffer@[start + 16], 0u8]);
                lemma_low_byte(buffer@[start + 16]);
            }
            let dirent = match OldDirent::new(record) {
                Ok(d) => d,
                Err(message) => {
                    return Err(message);
                },
            };
            let entry = DirectoryEntry::Old(dirent);
            output.push(entry);
            assert(output@.map_values(|e: DirectoryEntry| match e.view() {
                EntryView::Old(d) => d,
                EntryView::New(d) => d,
            }) =~= before.map_values(|e: DirectoryEntry| match e.view() {
                EntryView::Old(d) => d,
                EntryView::New(d) => d,
            }).push(dirent.view()));
            start = endpoint;
        }
        let ghost flat = output@.map_values(|e: DirectoryEntry| match e.view() {
            EntryView::Old(d) => d,
            EntryView::New(d) => d,
        });
        assert(flat + Seq::<DirentView>::empty() =~= flat);
        assert(output@.map_values(|e: DirectoryEntry| e.view()) =~= all.map_values(|d: DirentView| EntryView::Old(d))) by {
            assert forall|i: int| #![trigger output@[i]] 0 <= i < output@.len() implies output@.map_values(
                |e: DirectoryEntry| e.view(),
            )[i] == all.map_values(|d: DirentView| EntryView::Old(d))[i] by {
                assert(output@[i].view() is Old);
                assert(flat[i] == all[i]);
            }
        }
        Ok(output)
    }

    /// The record length of the entry.
    pub fn size(&self) -> (result: u16)
        ensures
            result == match self.view() {
                EntryView::Old(d) => d.reclen,
                EntryView::New(d) => d.reclen,
            },
    {
        match self {
            DirectoryEntry::Old(dirent) => dirent.d_reclen,
            DirectoryEntry::New(dirent) => dirent.d_reclen,
        }
    }

    /// The name of the entry, decoded as UTF-8 with invalid sequences
    /// replaced.
    pub fn name(&self) -> (result: String)
        ensures
            result@ == utf8_lossy(
                match self.view() {
                    EntryView::Old(d) => d.name,
                    EntryView::New(d) => d.name,
                },
            ),
            ({
                let name = match self.view() {
                    EntryView::Old(d) => d.name,
                    EntryView::New(d) => d.name,
                };
                vstd::utf8::valid_utf8(name) ==> result@ == vstd::utf8::decode_utf8(name)
            }),
    {
        match self {
            DirectoryEntry::Old(dirent) => utf8_lossy_string(&dirent.d_name),
            DirectoryEntry::New(dirent) => utf8_lossy_string(&dirent.d_name),
        }
    }

    /// The bytes of the entry (see `old_dirent_bytes` and
    /// `new_dirent_bytes`).
    pub fn to_bytes(&self) -> (result: Vec<u8>)
        requires
            self.fits(),
        ensures
            result@ == match self.view() {
                EntryView::Old(d) => old_dirent_bytes(d),
                EntryView::New(d) => new_dirent_bytes(d),
            },
    {
        match self {
            DirectoryEntry::Old(dirent) => dirent.to_bytes(),
            DirectoryEntry::New(dirent) => dirent.to_bytes(),
        }
    }
}

/// Reading an old-style entry and writing it gives its bytes back, when the
/// bytes after the name up to the last one are NUL bytes and the name
/// leaves room for two of them.
pub proof fn lemma_old_dirent_bytes_roundtrip(bytes: Seq<u8>)
    requires
        18 <= bytes.len(),
        record_length(bytes) == bytes.len(),
        20 + until_nul(bytes.skip(18)).len() <= bytes.len(),
        forall|i: int| 18 + until_nul(bytes.skip(18)).len() <= i < bytes.len() - 1 ==> #[trigger] bytes[i] == 0,
    ensures
        old_dirent_bytes(old_dirent_of(bytes)) == bytes,
{
    let d = old_dirent_of(bytes);
    let n = d.name.len() as int;
    crate::tracee_memory::lemma_until_nul_is_prefix(bytes.skip(18));
    lemma_bytes_word_roundtrip(bytes.subrange(0, 8));
    lemma_bytes_word_roundtrip(bytes.subrange(8, 16));
    lemma_bytes_word2_roundtrip(bytes.subrange(16, 18));
    let len = bytes.len() as int;
    assert(zeros(d.reclen - 20 - n) =~= bytes.subrange(18 + n, len - 2));
    assert(d.name =~= bytes.subrange(18, 18 + n));
    assert(seq![0u8, d.kind] =~= bytes.subrange(len - 2, len));
    assert(old_dirent_bytes(d) =~= bytes);
}

/// Writing an old-style entry and reading it gives the entry back, when its
/// name has no NUL byte and fits into the record.
pub proof fn lemma_old_dirent_view_roundtrip(d: DirentView)
    requires
        forall|i: int| 0 <= i < d.name.len() ==> #[trigger] d.name[i] != 0,
        20 + d.name.len() <= d.reclen,
    ensures
        old_dirent_of(old_dirent_bytes(d)) == d,
{
    let bytes = old_dirent_bytes(d);
    lemma_word_bytes_roundtrip(d.ino);
    lemma_word_bytes_roundtrip(d.off);
    lemma_word2_bytes_roundtrip(d.reclen);
    assert(bytes.subrange(0, 8) =~= le_bytes(d.ino));
    assert(bytes.subrange(8, 16) =~= le_bytes(d.off));
    assert(bytes.subrange(16, 18) =~= le_bytes2(d.reclen));
    let rest = zeros(d.reclen - 20 - d.name.len()) + seq![0u8, d.kind];
    assert(bytes.skip(18) =~= d.name + rest);
    crate::tracee_memory::lemma_until_nul_prefix(d.name, rest);
}

/// Reading a new-style entry and writing it gives its bytes back, when the
/// bytes after the name are NUL bytes.
pub proof fn lemma_new_dirent_bytes_roundtrip(bytes: Seq<u8>)
    requires
        19 <= bytes.len(),
        record_length(bytes) == bytes.len(),
        forall|i: int| 19 + until_nul(bytes.skip(19)).len() <= i < bytes.len() ==> #[trigger] bytes[i] == 0,
    ensures
        new_dirent_bytes(new_dirent_of(bytes)) == bytes,
{
    let d = new_dirent_of(bytes);
    let n = d.name.len() as int;
    crate::tracee_memory::lemma_until_nul_is_prefix(bytes.skip(19));
    lemma_bytes_word_roundtrip(bytes.subrange(0, 8));
    lemma_bytes_word_roundtrip(bytes.subrange(8, 16));
    lemma_bytes_word2_roundtrip(bytes.subrange(16, 18));
    let len = bytes.len() as int;
    assert(zeros(d.reclen - 19 - n) =~= bytes.subrange(19 + n, len));
    assert(d.name =~= bytes.subrange(19, 19 + n));
    assert(new_dirent_bytes(d) =~= bytes);
}

/// Writing a new-style entry and reading it gives the entry back, when its
/// name has no NUL byte and fits into the record.
pub proof fn lemma_new_dirent_view_roundtrip(d: DirentView)
    requires
        forall|i: int| 0 <= i < d.name.len() ==> #[trigger] d.name[i] != 0,
        19 + d.name.len() <= d.reclen,
    ensures
        new_dirent_of(new_dirent_bytes(d)) == d,
{
    let bytes = new_dirent_bytes(d);
    lemma_word_bytes_roundtrip(d.ino);
    lemma_word_bytes_roundtrip(d.off);
    lemma_word2_bytes_roundtrip(d.reclen);
    assert(bytes.subrange(0, 8) =~= le_bytes(d.ino));
    assert(bytes.subrange(8, 16) =~= le_bytes(d.off));
    assert(bytes.subrange(16, 18) =~= le_bytes2(d.reclen));
    let rest = zeros(d.reclen - 19 - d.name.len());
    assert(bytes.skip(19) =~= d.name + rest);
    crate::tracee_memory::lemma_until_nul_prefix(d.name, rest);
}

} // verus!
