use pwasm_contract::message::{make_selector, Message, MessageExt};
use pwasm_contract::signature::{ArgSignature, SolidityType};

struct Foo;

impl Message for Foo {
    type Input = (u32, u64, u16);
    type Output = ();
    const NAME: &'static str = "Foo";
}

struct UseArray;

impl Message for UseArray {
    type Input = ([u32; 5], Vec<bool>);
    type Output = ();
    const NAME: &'static str = "UseArray";
}

struct Get;

impl Message for Get {
    type Input = ();
    type Output = usize;
    const NAME: &'static str = "Get";
}

struct OneArg;

impl Message for OneArg {
    type Input = u64;
    type Output = ();
    const NAME: &'static str = "OneArg";
}

#[test]
fn tuple_sigs() {
    assert_eq!(
        <(u8, u16, u32)>::arg_sig().into_iter().collect::<String>(),
        "(uint8,uint16,uint32)"
    );
}

#[test]
fn message_sigs() {
    assert_eq!(
        Foo::signature().into_iter().collect::<String>(),
        "Foo(uint32,uint64,uint16)"
    );
    assert_eq!(
        UseArray::signature().into_iter().collect::<String>(),
        "UseArray(uint32[5],bool[])"
    );
    assert_eq!(Get::signature().into_iter().collect::<String>(), "Get()");
    assert_eq!(
        OneArg::signature().into_iter().collect::<String>(),
        "OneArg(uint64)"
    );
}

#[test]
fn names_of_all_plain_types() {
    assert_eq!(bool::solname(), vec!["bool"]);
    assert_eq!(u8::solname(), vec!["uint8"]);
    assert_eq!(u16::solname(), vec!["uint16"]);
    assert_eq!(u32::solname(), vec!["uint32"]);
    assert_eq!(u64::solname(), vec!["uint64"]);
    assert_eq!(i8::solname(), vec!["int8"]);
    assert_eq!(i16::solname(), vec!["int16"]);
    assert_eq!(i32::solname(), vec!["int32"]);
    assert_eq!(i64::solname(), vec!["int64"]);
}

#[test]
fn names_of_nested_lists() {
    assert_eq!(<[Vec<u8>; 0]>::solname().concat(), "uint8[][0]");
    assert_eq!(<[[i64; 1024]; 16]>::solname().concat(), "int64[1024][16]");
    assert_eq!(Vec::<Vec<bool>>::solname().concat(), "bool[][]");
    assert_eq!(<[u8; 512]>::solname().concat(), "uint8[512]");
}

#[test]
fn signatures_of_no_one_and_seventeen_arguments() {
    assert_eq!(<()>::arg_sig().concat(), "()");
    assert_eq!(<u8>::arg_sig().concat(), "(uint8)");
    assert_eq!(<(u8,)>::arg_sig().concat(), "(uint8)");
    assert_eq!(
        <(u8, u8, u8, u8, u8, u8, u8, u8, u8, u8, u8, u8, u8, u8, u8, u8, bool)>::arg_sig().concat(),
        "(uint8,uint8,uint8,uint8,uint8,uint8,uint8,uint8,uint8,uint8,uint8,uint8,uint8,uint8,uint8,uint8,bool)"
    );
}

#[test]
fn selectors_are_the_first_bytes_of_the_hash() {
    assert_eq!(make_selector(&vec!["abc"]), [0x3a, 0x98, 0x5d, 0xa7]);
    assert_eq!(make_selector(&vec![]), [0xa7, 0xff, 0xc6, 0xf8]);
}

#[test]
fn selectors_do_not_depend_on_how_the_text_is_cut() {
    assert_eq!(make_selector(&vec!["a", "", "bc"]), make_selector(&vec!["abc"]));
    assert_eq!(make_selector(&vec!["Foo(", "uint32,uint64", ",uint16)"]), Foo::selector());
    assert_ne!(make_selector(&vec!["acb"]), make_selector(&vec!["abc"]));
}
