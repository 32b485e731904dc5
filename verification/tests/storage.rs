use std::io::{Read, Write};

use pwasm_contract::eth_state::{EthStateReader, EthStateWriter};
use pwasm_contract::getter::{key_for, Getter};
use pwasm_contract::keys::{increment, H256};
use pwasm_contract::marker::{BorrowMarker, Immut, Mut};
use pwasm_contract::shim::{read, Storage};

fn key(last: u8) -> H256 {
    let mut bytes = [0u8; 32];
    bytes[31] = last;
    H256(bytes)
}

fn key_behind(start: H256, steps: usize) -> H256 {
    let mut at = start;
    for _ in 0..steps {
        increment(&mut at);
    }
    at
}

#[test]
fn increments() {
    let mut hash = H256([0; 32]);
    increment(&mut hash);
    let mut one = [0u8; 32];
    one[0] = 1;
    assert_eq!(hash.0, one);

    let mut carried = [0u8; 32];
    carried[0] = 0xff;
    carried[1] = 0xff;
    carried[2] = 6;
    let mut hash = H256(carried);
    increment(&mut hash);
    let mut expected = [0u8; 32];
    expected[2] = 7;
    assert_eq!(hash.0, expected);
}

#[test]
fn increment_of_the_greatest_key_carries_round() {
    let mut hash = H256([0xff; 32]);
    increment(&mut hash);
    let mut one = [0u8; 32];
    one[0] = 1;
    assert_eq!(hash.0, one);
}

#[test]
fn keys_in_a_run_differ() {
    let mut seen = std::collections::HashSet::new();
    let mut at = H256([0xfe; 32]);
    for _ in 0..2000 {
        assert!(seen.insert(at.0));
        increment(&mut at);
    }
}

#[test]
fn blocks_are_written_and_read() {
    let mut storage = Storage::new();
    assert_eq!(read(&storage, &key(1)), [0; 32]);
    pwasm_contract::shim::write(&mut storage, &key(1), &[7; 32]);
    pwasm_contract::shim::write(&mut storage, &key(2), &[8; 32]);
    assert_eq!(read(&storage, &key(1)), [7; 32]);
    pwasm_contract::shim::write(&mut storage, &key(1), &[9; 32]);
    assert_eq!(read(&storage, &key(1)), [9; 32]);
    assert_eq!(read(&storage, &key(2)), [8; 32]);
    assert_eq!(read(&storage, &key(3)), [0; 32]);
}

#[test]
fn what_was_written_is_read_back() {
    for len in [0usize, 1, 31, 32, 33, 63, 64, 65, 200] {
        let bytes: Vec<u8> = (0..len).map(|i| (i * 7 + 1) as u8).collect();
        let mut writer = EthStateWriter::new(Storage::new(), key(5));
        let (first, second) = bytes.split_at(len / 3);
        assert_eq!(writer.write(first).unwrap(), first.len());
        assert_eq!(writer.write(second).unwrap(), second.len());
        writer.flush().unwrap();
        let storage = writer.into_storage();
        let mut reader = EthStateReader::new(&storage, key(5));
        let mut found = vec![0u8; len];
        let (first, second) = found.split_at_mut(len / 2);
        assert_eq!(reader.read(first).unwrap(), first.len());
        assert_eq!(reader.read(second).unwrap(), second.len());
        assert_eq!(found, bytes);
    }
}

#[test]
fn readers_and_writers_serve_std_io() {
    let mut writer = EthStateWriter::new(Storage::new(), key(5));
    writer.write_all(&[3; 40]).unwrap();
    writer.flush().unwrap();
    let storage = writer.into_storage();
    let mut found = [0u8; 40];
    let mut reader = EthStateReader::new(&storage, key(5));
    reader.read_exact(&mut found).unwrap();
    assert_eq!(found, [3; 40]);
}

#[test]
fn reads_run_on_from_block_to_block() {
    let mut storage = Storage::new();
    for slot in 0..3u8 {
        let mut at = [0u8; 32];
        at[0] = slot;
        let mut block = [0u8; 32];
        for i in 0..32u8 {
            block[i as usize] = 32 * slot + i;
        }
        pwasm_contract::shim::write(&mut storage, &H256(at), &block);
    }
    let mut reader = EthStateReader::new(&storage, H256([0; 32]));
    assert_eq!(reader.read(&mut [0u8; 30]).unwrap(), 30);
    assert_eq!(reader.read(&mut []).unwrap(), 0);
    let mut found = [0u8; 36];
    assert_eq!(reader.read(&mut found).unwrap(), 36);
    for j in 0..36 {
        assert_eq!(found[j], 30 + j as u8);
    }
    let mut next = [0u8; 1];
    assert_eq!(reader.read(&mut next).unwrap(), 1);
    assert_eq!(next, [66]);

    let mut reader = EthStateReader::new(&storage, H256([0; 32]));
    let mut whole = [0u8; 66];
    assert_eq!(reader.read(&mut whole).unwrap(), 66);
    assert_eq!(whole[30..], found);
}

#[test]
fn an_empty_store_reads_as_zeros_round_the_greatest_key() {
    let storage = Storage::new();
    let mut reader = EthStateReader::new(&storage, H256([0xff; 32]));
    let mut found = [9u8; 40];
    assert_eq!(reader.read(&mut found).unwrap(), 40);
    assert_eq!(found, [0u8; 40]);
}

#[test]
fn texts_and_options_are_stored_and_found() {
    let mut storage = Storage::new();
    let text = "h\u{e9}".repeat(50);
    let mut getter: Getter<Mut, (String, Option<char>)> = Getter::new("text");
    getter.set((text.clone(), Some('\u{20ac}')));
    getter.drop(&mut storage);
    let mut getter: Getter<Immut, (String, Option<char>)> = Getter::new("text");
    assert_eq!(*getter.deref(&storage), (text, Some('\u{20ac}')));
}

#[test]
fn bytes_that_are_no_text_are_not_loaded() {
    let mut storage = Storage::new();
    let mut getter: Getter<Mut, Vec<u8>> = Getter::at_key(key(5));
    getter.set(vec![0x61, 0xff]);
    getter.drop(&mut storage);
    let mut getter: Getter<Immut, String> = Getter::at_key(key(5));
    assert!(!getter.load(&storage));
    let mut getter: Getter<Immut, Option<u8>> = Getter::at_key(key(5));
    assert!(!getter.load(&storage));
}

#[test]
fn selectors_are_the_start_of_keys() {
    let pieces = vec!["cur", "rent"];
    let selector = pwasm_contract::message::make_selector(&pieces);
    assert_eq!(key_for("current").0[..4], selector);
}

#[test]
fn blocks_follow_the_key() {
    let mut writer = EthStateWriter::new(Storage::new(), key(5));
    writer.write_all(&[1; 32]).unwrap();
    writer.write_all(&[2; 32]).unwrap();
    writer.write_all(&[3; 4]).unwrap();
    writer.flush().unwrap();
    let storage = writer.into_storage();
    assert_eq!(read(&storage, &key(5)), [1; 32]);
    assert_eq!(read(&storage, &key_behind(key(5), 1)), [2; 32]);
    let mut last = [2u8; 32];
    last[..4].copy_from_slice(&[3; 4]);
    assert_eq!(read(&storage, &key_behind(key(5), 2)), last);
    assert_eq!(read(&storage, &key_behind(key(5), 3)), [0; 32]);
    assert_eq!(read(&storage, &key(6)), [0; 32]);
}

#[test]
fn a_flush_between_writes_changes_nothing_of_the_end() {
    for len in [0usize, 5, 32, 33, 64, 70] {
        for cut in [0, len / 2, len] {
            let bytes: Vec<u8> = (0..len).map(|i| (i * 5 + 3) as u8).collect();
            let mut plain = EthStateWriter::new(Storage::new(), key(5));
            plain.write_all(&bytes).unwrap();
            plain.flush().unwrap();
            let plain = plain.into_storage();
            let mut flushed = EthStateWriter::new(Storage::new(), key(5));
            flushed.write_all(&bytes[..cut]).unwrap();
            flushed.flush().unwrap();
            flushed.write_all(&bytes[cut..]).unwrap();
            flushed.flush().unwrap();
            let flushed = flushed.into_storage();
            for steps in 0..4 {
                let at = key_behind(key(5), steps);
                assert_eq!(read(&plain, &at), read(&flushed, &at));
            }
        }
    }
}

#[test]
fn one_block_ends_in_zeros() {
    let mut storage = Storage::new();
    pwasm_contract::shim::write(&mut storage, &key(5), &[9; 32]);
    let mut writer = EthStateWriter::new(storage, key(5));
    writer.write_all(&[1, 2]).unwrap();
    writer.flush().unwrap();
    let storage = writer.into_storage();
    let mut block = [0u8; 32];
    block[..2].copy_from_slice(&[1, 2]);
    assert_eq!(read(&storage, &key(5)), block);
}

#[test]
fn nothing_written_is_a_block_of_zeros() {
    let mut storage = Storage::new();
    pwasm_contract::shim::write(&mut storage, &key(5), &[9; 32]);
    let mut writer = EthStateWriter::new(storage, key(5));
    writer.flush().unwrap();
    let storage = writer.into_storage();
    assert_eq!(read(&storage, &key(5)), [0; 32]);
}

#[test]
fn a_full_block_is_stored_once_the_next_begins() {
    let mut writer = EthStateWriter::new(Storage::new(), key(5));
    writer.write_all(&[1; 33]).unwrap();
    let storage = writer.into_storage();
    assert_eq!(read(&storage, &key(5)), [1; 32]);
    assert_eq!(read(&storage, &key_behind(key(5), 1)), [0; 32]);
}

#[test]
fn a_value_is_stored_under_the_hash_of_its_name() {
    let mut storage = Storage::new();
    let mut getter: Getter<Mut, u32> = Getter::new("current");
    getter.set(0x0102_0304);
    getter.drop(&mut storage);
    let name: [u8; 32] = [
        0xf9, 0xb9, 0x1b, 0xf9, 0xa9, 0xcc, 0xc3, 0x52, 0x96, 0x9f, 0x6a, 0xe0, 0xd1, 0x3f, 0xed,
        0x55, 0x59, 0x3d, 0x59, 0x67, 0x82, 0xdc, 0x14, 0xe3, 0x41, 0x15, 0x11, 0x3e, 0xc3, 0xe3,
        0xdd, 0x0c,
    ];
    let mut block = [0u8; 32];
    block[..4].copy_from_slice(&[4, 3, 2, 1]);
    assert_eq!(read(&storage, &H256(name)), block);

    let mut other: Getter<Immut, u32> = Getter::at_key(H256(name));
    assert_eq!(*other.deref(&storage), 0x0102_0304);
}

#[test]
fn long_values_are_stored_and_found() {
    let mut storage = Storage::new();
    let list: Vec<usize> = (0..1024).collect();
    let mut getter: Getter<Mut, Vec<usize>> = Getter::new("vec");
    getter.set(list.clone());
    getter.drop(&mut storage);
    let mut getter: Getter<Mut, Vec<usize>> = Getter::new("vec");
    assert_eq!(*getter.deref(&storage), list);
    getter.deref_mut(&storage).push(7);
    getter.drop(&mut storage);
    let mut getter: Getter<Immut, Vec<usize>> = Getter::new("vec");
    assert_eq!(getter.deref(&storage).len(), 1025);
    assert_eq!(getter.deref(&storage)[1024], 7);
}

#[test]
fn changes_are_written_only_on_drop() {
    let mut storage = Storage::new();
    let mut first: Getter<Mut, u16> = Getter::new("x");
    *first.deref_mut(&storage) += 5;
    assert_eq!(*first.deref(&storage), 5);
    let mut second: Getter<Immut, u16> = Getter::new("x");
    assert_eq!(*second.deref(&storage), 0);
    first.drop(&mut storage);
    assert_eq!(*second.deref(&storage), 0);
    second.drop(&mut storage);
    let mut third: Getter<Immut, u16> = Getter::new("x");
    assert_eq!(*third.deref(&storage), 5);
}

#[test]
fn a_look_writes_nothing() {
    let mut storage = Storage::new();
    let mut getter: Getter<Mut, u16> = Getter::at_key(key(5));
    assert_eq!(*getter.deref(&storage), 0);
    pwasm_contract::shim::write(&mut storage, &key(5), &[1; 32]);
    getter.drop(&mut storage);
    assert_eq!(read(&storage, &key(5)), [1; 32]);
}

#[test]
fn a_value_that_is_none_is_not_loaded() {
    let mut storage = Storage::new();
    pwasm_contract::shim::write(&mut storage, &key(5), &[2; 32]);
    let mut getter: Getter<Mut, bool> = Getter::at_key(key(5));
    assert!(!getter.load(&storage));
    getter.set(true);
    assert!(getter.load(&storage));
    getter.drop(&mut storage);
    let mut getter: Getter<Immut, bool> = Getter::at_key(key(5));
    assert!(getter.load(&storage));
    assert!(*getter.deref(&storage));
}

#[test]
fn a_value_under_another_key_stays() {
    let mut storage = Storage::new();
    let mut one: Getter<Mut, [u64; 8]> = Getter::new("one");
    one.set([1; 8]);
    one.drop(&mut storage);
    let mut two: Getter<Mut, [u64; 8]> = Getter::new("two");
    two.set([2; 8]);
    two.drop(&mut storage);
    let mut one: Getter<Immut, [u64; 8]> = Getter::new("one");
    assert_eq!(*one.deref(&storage), [1; 8]);
}

#[test]
fn markers_note_changes() {
    let mut store = false;
    assert!(!Mut::is_changed(&store));
    Mut::mark_changed(&mut store);
    assert!(Mut::is_changed(&store));
    Immut::mark_changed(&mut ());
    assert!(!Immut::is_changed(&()));
}
