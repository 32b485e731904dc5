#![allow(non_camel_case_types)]

use pwasm_contract::handlers::{decode_input, find_selector};
use pwasm_contract::message::{Message, MessageExt, Request};
use pwasm_contract::response::{Either, Response, Void};
use pwasm_contract::wire::Wire;

struct foo;

impl Message for foo {
    type Input = (u32, u64, u16);
    type Output = ();
    const NAME: &'static str = "foo";
}

struct Flags;

impl Message for Flags {
    type Input = ([bool; 2], Vec<i16>);
    type Output = u32;
    const NAME: &'static str = "Flags";
}

#[test]
fn request() {
    let _request = Request::new::<foo>((0, 1, 2));
}

#[test]
fn request_bytes() {
    let request = Request::new::<foo>((0, 1, 2));
    assert_eq!(request.function_selector, foo::selector());
    assert_eq!(request.function_selector, [53, 8, 92, 234]);
    assert_eq!(request.value, vec![0, 0, 0, 0, 1, 0, 0, 0, 0, 0, 0, 0, 2, 0]);
}

#[test]
fn request_bytes_of_lists() {
    let request = Request::new::<Flags>(([true, false], vec![-2, 0x102]));
    assert_eq!(
        request.value,
        vec![1, 0, 2, 0, 0, 0, 0, 0, 0, 0, 0xfe, 0xff, 0x02, 0x01]
    );
}

#[test]
fn request_under_a_given_selector() {
    let request = Request::addressed([9, 8, 7, 6], 0x0102_0304u32);
    assert_eq!(request.function_selector, [9, 8, 7, 6]);
    assert_eq!(request.value, vec![4, 3, 2, 1]);
}

#[test]
fn arguments_come_back_from_a_request() {
    let request = Request::new::<foo>((7, u64::MAX, 9));
    assert_eq!(decode_input::<foo>(&request.value), Some((7, u64::MAX, 9)));
    let request = Request::new::<Flags>(([true, false], vec![-2, 3]));
    assert_eq!(
        decode_input::<Flags>(&request.value),
        Some(([true, false], vec![-2, 3]))
    );
}

#[test]
fn arguments_are_missing_or_wrong() {
    assert_eq!(decode_input::<foo>(&vec![0; 13]), None);
    assert_eq!(decode_input::<foo>(&vec![0; 15]), Some((0, 0, 0)));
    assert_eq!(decode_input::<Flags>(&vec![2, 0, 0, 0, 0, 0, 0, 0, 0, 0]), None);
    assert_eq!(decode_input::<Flags>(&vec![1, 0, 1, 0, 0, 0, 0, 0, 0, 0]), None);
    assert_eq!(
        decode_input::<Flags>(&vec![1, 0, 0, 0, 0, 0, 0, 0, 0, 0]),
        Some(([true, false], vec![]))
    );
}

#[test]
fn selectors_are_found_at_their_first_place() {
    let selectors = vec![[1, 2, 3, 4], [1, 2, 3, 5], [1, 2, 3, 4]];
    assert_eq!(find_selector(&selectors, &[1, 2, 3, 4]), Some(0));
    assert_eq!(find_selector(&selectors, &[1, 2, 3, 5]), Some(1));
    assert_eq!(find_selector(&selectors, &[0, 2, 3, 4]), None);
    assert_eq!(find_selector(&vec![], &[0, 0, 0, 0]), None);
}

#[test]
fn outputs_are_taken_out_of_answers() {
    let left: Either<u32, Either<(), Void>> = Either::Left(5);
    assert_eq!(left.output_for::<Flags>(), Some(5));
    let left: Either<u32, Either<(), Void>> = Either::Left(5);
    assert_eq!(left.output_for::<foo>(), None);
    let right: Either<u32, Either<(), Void>> = Either::Right(Either::Left(()));
    assert_eq!(right.output_for::<foo>(), Some(()));
    let right: Either<u32, Either<(), Void>> = Either::Right(Either::Left(()));
    assert_eq!(right.output_for::<Flags>(), None);
}

struct Listing;

impl Message for Listing {
    type Input = ();
    type Output = Vec<u8>;
    const NAME: &'static str = "Listing";
}

#[test]
fn outputs_are_moved_out_of_answers() {
    let mut list: Vec<u8> = Vec::with_capacity(100);
    list.extend_from_slice(&[1, 2, 3]);
    let place = list.as_ptr();
    let answer: Either<u32, Either<Vec<u8>, Void>> = Either::Right(Either::Left(list));
    let output = answer.output_for::<Listing>().unwrap();
    assert_eq!(output, vec![1, 2, 3]);
    assert_eq!(output.as_ptr(), place);
    assert!(output.capacity() >= 100);
}

#[test]
fn codes_tell_types_of_one_width_apart() {
    assert_ne!(u32::type_code(), i32::type_code());
    assert_ne!(u64::type_code(), usize::type_code());
    assert_ne!(bool::type_code(), u8::type_code());
    assert_ne!(<(u8, u16)>::type_code(), <(u16, u8)>::type_code());
    assert_ne!(<((u8, u8), u8)>::type_code(), <(u8, (u8, u8))>::type_code());
    assert_ne!(<((u8, u8), u8)>::type_code(), <((u8, u8, u8),)>::type_code());
    assert_ne!(<[u8; 2]>::type_code(), <[u8; 3]>::type_code());
    assert_ne!(<[u8; 2]>::type_code(), <(u8, u8)>::type_code());
    assert_ne!(Vec::<u8>::type_code(), Vec::<Vec<u8>>::type_code());
    assert_ne!(Option::<u8>::type_code(), Vec::<u8>::type_code());
    assert_ne!(char::type_code(), String::type_code());
    assert_ne!(u128::type_code(), i128::type_code());
    assert_ne!(i64::type_code(), isize::type_code());
    assert_ne!(<(u8,)>::type_code(), u8::type_code());
    assert_eq!(<(u8, Vec<bool>)>::type_code(), <(u8, Vec<bool>)>::type_code());
}
