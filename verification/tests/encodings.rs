use pwasm_contract::wire::Wire;
use pwasm_contract::wire_text::byte_count;

fn bytes_of<T: Wire>(value: &T) -> Vec<u8> {
    let mut out = vec![];
    value.encode(&mut out);
    out
}

fn there_and_back<T: Wire + PartialEq + std::fmt::Debug>(value: T, bytes: &[u8]) {
    assert_eq!(bytes_of(&value), bytes);
    let mut longer = vec![0xaa];
    longer.extend_from_slice(bytes);
    longer.push(0xbb);
    let end = 1 + bytes.len();
    let (found, at) = T::decode(&longer, 1).unwrap();
    assert_eq!(found, value);
    assert_eq!(at, end);
    if !bytes.is_empty() {
        assert!(T::decode(&bytes[..bytes.len() - 1], 0).is_none());
    }
}

#[test]
fn plain_values() {
    there_and_back((), &[]);
    there_and_back(true, &[1]);
    there_and_back(false, &[0]);
    there_and_back(0xfeu8, &[0xfe]);
    there_and_back(-1i8, &[0xff]);
    there_and_back(0x0102u16, &[2, 1]);
    there_and_back(-2i16, &[0xfe, 0xff]);
    there_and_back(0x0102_0304u32, &[4, 3, 2, 1]);
    there_and_back(i32::MIN, &[0, 0, 0, 0x80]);
    there_and_back(0x0102_0304_0506_0708u64, &[8, 7, 6, 5, 4, 3, 2, 1]);
    there_and_back(-256i64, &[0, 0xff, 0xff, 0xff, 0xff, 0xff, 0xff, 0xff]);
    there_and_back(513usize, &[1, 2, 0, 0, 0, 0, 0, 0]);
}

#[test]
fn wide_and_machine_numbers() {
    there_and_back(
        0x0102_0304_0506_0708_090a_0b0c_0d0e_0f10u128,
        &[16, 15, 14, 13, 12, 11, 10, 9, 8, 7, 6, 5, 4, 3, 2, 1],
    );
    there_and_back(-2i128, &[0xfe, 255, 255, 255, 255, 255, 255, 255, 255, 255, 255, 255, 255, 255, 255, 255]);
    there_and_back(-1isize, &[0xff; 8]);
    there_and_back(258isize, &[2, 1, 0, 0, 0, 0, 0, 0]);
}

#[test]
fn characters() {
    there_and_back('a', &[0x61]);
    there_and_back('\u{e9}', &[0xc3, 0xa9]);
    there_and_back('\u{20ac}', &[0xe2, 0x82, 0xac]);
    there_and_back('\u{1f600}', &[0xf0, 0x9f, 0x98, 0x80]);
    assert!(char::decode(&[0x80, 0x80, 0x80, 0x80], 0).is_none());
    assert!(char::decode(&[0xc0, 0x80], 0).is_none());
    assert!(char::decode(&[0xed, 0xa0, 0x80], 0).is_none());
    assert!(char::decode(&[0xff, 0, 0, 0], 0).is_none());
    assert!(char::decode(&[], 0).is_none());
}

#[test]
fn strings() {
    there_and_back(String::new(), &[0; 8]);
    there_and_back(String::from("h\u{e9}"), &[3, 0, 0, 0, 0, 0, 0, 0, 0x68, 0xc3, 0xa9]);
    assert!(String::decode(&[1, 0, 0, 0, 0, 0, 0, 0, 0xff], 0).is_none());
    assert!(String::decode(&[0xff; 9], 0).is_none());
}

#[test]
fn bytes_of_strings_are_counted() {
    assert_eq!(byte_count(&String::new()), 0);
    assert_eq!(byte_count(&String::from("h\u{e9}\u{20ac}")), 6);
}

#[test]
fn options() {
    there_and_back(None::<u16>, &[0]);
    there_and_back(Some(0x0102u16), &[1, 2, 1]);
    there_and_back(Some(Some(true)), &[1, 1, 1]);
    assert!(Option::<u16>::decode(&[2, 0, 0], 0).is_none());
}

#[test]
fn lists() {
    there_and_back(Vec::<u8>::new(), &[0; 8]);
    there_and_back(vec![0x0102u16, 3], &[2, 0, 0, 0, 0, 0, 0, 0, 2, 1, 3, 0]);
    there_and_back([5u8, 6, 7], &[5, 6, 7]);
    there_and_back([0u32; 0], &[]);
    there_and_back(
        vec![vec![true], vec![]],
        &[2, 0, 0, 0, 0, 0, 0, 0, 1, 0, 0, 0, 0, 0, 0, 0, 1, 0, 0, 0, 0, 0, 0, 0, 0],
    );
}

#[test]
fn tuples() {
    there_and_back((1u8,), &[1]);
    there_and_back((1u8, 2u16, true), &[1, 2, 0, 1]);
    there_and_back(
        (1u8, 2u8, 3u8, 4u8, 5u8, 6u8, 7u8, 8u8, 9u8, 10u8, 11u8, 12u8),
        &[1, 2, 3, 4, 5, 6, 7, 8, 9, 10, 11, 12],
    );
}

#[test]
fn bytes_that_are_no_value() {
    assert!(bool::decode(&[2], 0).is_none());
    assert!(<[bool; 2]>::decode(&[1, 2], 0).is_none());
    assert!(Vec::<bool>::decode(&[1, 0, 0, 0, 0, 0, 0, 0, 7], 0).is_none());
    assert!(u32::decode(&[1, 2, 3, 4], 1).is_none());
}

#[test]
fn encodings_agree_with_bincode() {
    assert_eq!(
        bytes_of(&(7u8, vec![1u64, 2], [true, false])),
        bincode::serialize(&(7u8, vec![1u64, 2], [true, false])).unwrap()
    );
    let many = (Some('x'), None::<u8>, String::from("abc"), -5isize, 7u128, -7i128);
    assert_eq!(bytes_of(&many), bincode::serialize(&many).unwrap());
    assert_eq!(
        bytes_of(&vec![(1i32, -1i64)]),
        bincode::serialize(&vec![(1i32, -1i64)]).unwrap()
    );
}
