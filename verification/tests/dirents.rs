//! Directory entries as `getdents` writes them.

use scriptkeeper::directory_entry::{DirectoryEntry, NewDirent, OldDirent};

const FULL_BUFFER: [u8; 344] = [
    176, 2, 0, 0, 0, 0, 0, 0, 16, 0, 0, 0, 0, 0, 0, 0, 24, 0, 108, 111, 103, 0, 0, 4, 177, 2,
    0, 0, 0, 0, 0, 0, 32, 0, 0, 0, 0, 0, 0, 0, 32, 0, 99, 97, 99, 104, 101, 0, 0, 0, 0, 0, 0,
    0, 0, 4, 2, 0, 0, 0, 0, 0, 0, 0, 48, 0, 0, 0, 0, 0, 0, 0, 24, 0, 46, 46, 0, 0, 0, 4, 35, 0,
    0, 0, 0, 0, 0, 0, 64, 0, 0, 0, 0, 0, 0, 0, 24, 0, 46, 0, 0, 0, 0, 4, 178, 2, 0, 0, 0, 0, 0,
    0, 80, 0, 0, 0, 0, 0, 0, 0, 24, 0, 108, 105, 98, 0, 0, 4, 179, 2, 0, 0, 0, 0, 0, 0, 96, 0,
    0, 0, 0, 0, 0, 0, 32, 0, 115, 112, 111, 111, 108, 0, 0, 0, 0, 0, 0, 0, 0, 4, 180, 2, 0, 0,
    0, 0, 0, 0, 112, 0, 0, 0, 0, 0, 0, 0, 24, 0, 109, 97, 105, 108, 0, 4, 181, 2, 0, 0, 0, 0,
    0, 0, 128, 0, 0, 0, 0, 0, 0, 0, 24, 0, 116, 109, 112, 0, 0, 4, 182, 2, 0, 0, 0, 0, 0, 0,
    144, 0, 0, 0, 0, 0, 0, 0, 32, 0, 108, 111, 99, 97, 108, 0, 0, 0, 0, 0, 0, 0, 0, 4, 183, 2,
    0, 0, 0, 0, 0, 0, 160, 0, 0, 0, 0, 0, 0, 0, 24, 0, 111, 112, 116, 0, 0, 4, 36, 0, 0, 0, 0,
    0, 0, 0, 176, 0, 0, 0, 0, 0, 0, 0, 24, 0, 114, 117, 110, 0, 0, 10, 184, 2, 0, 0, 0, 0, 0,
    0, 192, 0, 0, 0, 0, 0, 0, 0, 24, 0, 108, 111, 99, 107, 0, 10, 185, 2, 0, 0, 0, 0, 0, 0,
    216, 0, 0, 0, 0, 0, 0, 0, 32, 0, 98, 97, 99, 107, 117, 112, 115, 0, 0, 0, 0, 0, 0, 4,
];

const NEW_BUFFER: [u8; 24] = [
    230, 5, 0, 0, 0, 0, 0, 0, 16, 0, 0, 0, 0, 0, 0, 0, 24, 0, 4, 108, 111, 103, 0, 4,
];

const OLD_BUFFER: [u8; 24] = [
    176, 2, 0, 0, 0, 0, 0, 0, 16, 0, 0, 0, 0, 0, 0, 0, 24, 0, 108, 111, 103, 0, 0, 4,
];

#[test]
fn splits_buffer_into_pieces() {
    assert!(DirectoryEntry::new_collection_from_buffer(&FULL_BUFFER.to_vec()).unwrap().len() == 13);
}

#[test]
fn splits_into_the_right_sizes() {
    assert_eq!(
        DirectoryEntry::new_collection_from_buffer(&FULL_BUFFER.to_vec())
            .unwrap()
            .iter()
            .map(|dirent| dirent.size())
            .collect::<Vec<u16>>(),
        vec![24, 32, 24, 24, 24, 32, 24, 24, 32, 24, 24, 24, 32],
    );
}

#[test]
fn splits_into_the_right_named_files() {
    assert_eq!(
        DirectoryEntry::new_collection_from_buffer(&FULL_BUFFER.to_vec())
            .unwrap()
            .iter()
            .map(|dirent| dirent.name())
            .collect::<Vec<String>>(),
        vec![
            "log", "cache", "..", ".", "lib", "spool", "mail", "tmp", "local", "opt", "run",
            "lock", "backups",
        ],
    );
}

#[test]
fn a_buffer_split_and_joined_again_is_the_buffer() {
    let entries = DirectoryEntry::new_collection_from_buffer(&FULL_BUFFER.to_vec()).unwrap();
    let joined: Vec<u8> = entries.iter().flat_map(|entry| entry.to_bytes()).collect();
    assert_eq!(joined, FULL_BUFFER.to_vec());
}

fn round_trip(buffer: [u8; 24]) {
    assert_eq!(DirectoryEntry::new(buffer.to_vec()).unwrap().to_bytes(), buffer.to_vec());
}

#[test]
fn an_old_dirent_to_buffer() {
    round_trip(OLD_BUFFER)
}

#[test]
fn a_new_dirent_to_buffer() {
    let mut non_tainted_buffer = NEW_BUFFER;
    non_tainted_buffer[23] = 0;
    round_trip(non_tainted_buffer)
}

#[test]
fn an_old_buffer() {
    match DirectoryEntry::new(OLD_BUFFER.to_vec()).unwrap() {
        DirectoryEntry::Old(_) => {}
        DirectoryEntry::New(_) => panic!("expected an old style buffer"),
    }
}

#[test]
fn a_new_buffer() {
    match DirectoryEntry::new(NEW_BUFFER.to_vec()).unwrap() {
        DirectoryEntry::New(_) => {}
        DirectoryEntry::Old(_) => panic!("expected a newfangled buffer"),
    }
}

#[test]
fn gives_a_nice_error_when_provided_buffer_is_too_small() {
    assert_eq!(
        DirectoryEntry::new(vec![]),
        Err("the smallest valid 'dirent' struct is 24 bytes, only 0 bytes given".to_string()),
    );
}

#[test]
fn directory_entry_converts_a_byte_array_to_struct() {
    let new = NewDirent::new(NEW_BUFFER.to_vec()).unwrap();
    let entry = DirectoryEntry::New(new);
    assert_eq!(entry.size(), 24);
    assert_eq!(entry.name(), "log");
    let mut expected = NEW_BUFFER.to_vec();
    expected[23] = 0;
    assert_eq!(entry.to_bytes(), expected);

    let old = OldDirent::new(OLD_BUFFER.to_vec()).unwrap();
    let entry = DirectoryEntry::Old(old);
    assert_eq!(entry.size(), 24);
    assert_eq!(entry.name(), "log");
    assert_eq!(entry.to_bytes(), OLD_BUFFER.to_vec());
}

fn reclen(entry: DirectoryEntry) -> u16 {
    entry.size()
}

#[test]
fn directory_entry_sets_record_length_in_increments_of_eight_based_on_name_length() {
    let new = |name: &str| reclen(DirectoryEntry::New(NewDirent::new_with_name(name.as_bytes().to_vec())));
    assert_eq!(new("asdfa"), 24);
    assert_eq!(new("asdfas"), 32);
    assert_eq!(new("asdfasdfasdfa"), 32);
    assert_eq!(new("asdfasdfasdfas"), 40);

    let old = |name: &str| reclen(DirectoryEntry::Old(OldDirent::new_with_name(name.as_bytes().to_vec())));
    assert_eq!(old("asdf"), 24);
    assert_eq!(old("asdfa"), 32);
    assert_eq!(old("asdfasdfasdf"), 32);
    assert_eq!(old("asdfasdfasdfa"), 40);
}

#[test]
fn entries_made_with_a_name_read_back_the_name() {
    let entry = DirectoryEntry::New(NewDirent::new_with_name(b"scriptkeeper".to_vec()));
    let bytes = entry.to_bytes();
    assert_eq!(bytes.len(), entry.size() as usize);
    assert_eq!(bytes[18], libc::DT_REG);
    let read = DirectoryEntry::new(bytes).unwrap();
    assert_eq!(read.name(), "scriptkeeper");
    assert_eq!(read, entry);

    let entry = DirectoryEntry::Old(OldDirent::new_with_name(b"scriptkeeper".to_vec()));
    let read = DirectoryEntry::new(entry.to_bytes()).unwrap();
    assert_eq!(read.name(), "scriptkeeper");
    assert_eq!(read, entry);
}
