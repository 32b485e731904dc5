//! The names of types, and the texts of signatures, written out.

use vstd::prelude::*;

use crate::signature::{joined, lemma_joined_add, lemma_joined_one, texts, SolidityType};

verus! {

/// Pieces make up the text that is all of them, one after the other.
pub proof fn law_joined(pieces: Seq<Seq<char>>)
    ensures
        joined(pieces) == pieces.flatten(),
    decreases pieces.len(),
{
    pieces.lemma_flatten_and_flatten_alt_are_equivalent();
    if pieces.len() > 0 {
        law_joined(pieces.drop_last());
        pieces.drop_last().lemma_flatten_and_flatten_alt_are_equivalent();
    }
}

/// What pieces say is what each of them says.
pub proof fn law_texts(pieces: Seq<&'static str>)
    ensures
        texts(pieces).len() == pieces.len(),
        forall|i: int| 0 <= i < pieces.len() ==> #[trigger] texts(pieces)[i] == pieces[i]@,
{
}

/// The decimal digit of a number below ten.
pub open spec fn digit(n: nat) -> char {
    (0x30 + n) as char
}

/// The decimal digits of a number.
pub open spec fn decimal(n: nat) -> Seq<char>
    decreases n,
{
    if n < 10 {
        seq![digit(n)]
    } else {
        decimal(n / 10).push(digit(n % 10))
    }
}

/// The digits of a number are digits, make up the number to the base ten, and do not begin
/// with a zero but for zero itself.
pub proof fn law_decimal(n: nat)
    ensures
        decimal(n).len() > 0,
        forall|i: int| 0 <= i < decimal(n).len() ==> '0' <= #[trigger] decimal(n)[i] <= '9',
        decimal(n).fold_left(0int, |value: int, c: char| 10 * value + (c as int - 0x30)) == n,
        n > 0 ==> decimal(n)[0] != '0',
    decreases n,
{
    let f = |value: int, c: char| 10 * value + (c as int - 0x30);
    if n < 10 {
        let one = seq![digit(n)];
        assert(one.drop_last() =~= Seq::empty());
        assert(one.drop_last().fold_left(0int, f) == 0);
        assert(one.fold_left(0int, f) == f(0, one.last()));
    } else {
        law_decimal(n / 10);
        let all = decimal(n);
        assert(all.drop_last() =~= decimal(n / 10));
        assert(all.fold_left(0int, f) == f(decimal(n / 10).fold_left(0int, f), all.last()));
    }
}

/// The names of the plain types.
pub proof fn law_plain_names()
    ensures
        joined(bool::sol_pieces()) == "bool"@,
        joined(u8::sol_pieces()) == "uint8"@,
        joined(u16::sol_pieces()) == "uint16"@,
        joined(u32::sol_pieces()) == "uint32"@,
        joined(u64::sol_pieces()) == "uint64"@,
        joined(i8::sol_pieces()) == "int8"@,
        joined(i16::sol_pieces()) == "int16"@,
        joined(i32::sol_pieces()) == "int32"@,
        joined(i64::sol_pieces()) == "int64"@,
{
    lemma_joined_one("bool"@);
    lemma_joined_one("uint8"@);
    lemma_joined_one("uint16"@);
    lemma_joined_one("uint32"@);
    lemma_joined_one("uint64"@);
    lemma_joined_one("int8"@);
    lemma_joined_one("int16"@);
    lemma_joined_one("int32"@);
    lemma_joined_one("int64"@);
}

/// The length of an array in brackets.
pub open spec fn bracketed(n: nat) -> Seq<char> {
    seq!['['] + decimal(n) + seq![']']
}

/// The text of pieces with one more behind them.
proof fn lemma_one_more(pieces: Seq<Seq<char>>, piece: Seq<char>)
    ensures
        joined(pieces + seq![piece]) == joined(pieces) + piece,
{
    lemma_joined_add(pieces, seq![piece]);
    lemma_joined_one(piece);
}

/// The name of an array type of length 0 is that of its elements, and then the length in
/// brackets.
pub proof fn law_array_0_name<T: SolidityType>()
    ensures
        joined(<[T; 0]>::sol_pieces()) == joined(T::sol_pieces()) + seq!['['] + decimal(0)
            + seq![']'],
        joined(<[T; 0]>::sol_pieces()) == joined(T::sol_pieces()) + "[0]"@,
{
    lemma_one_more(T::sol_pieces(), "[0]"@);
    reveal_strlit("[0]");
    reveal_with_fuel(decimal, 2);
    assert(decimal(0) =~= seq!['0']);
    assert("[0]"@ =~= bracketed(0));
    assert(joined(T::sol_pieces()) + bracketed(0) =~= joined(T::sol_pieces()) + seq!['[']
        + decimal(0) + seq![']']);
}

/// The name of an array type of length 1 is that of its elements, and then the length in
/// brackets.
pub proof fn law_array_1_name<T: SolidityType>()
    ensures
        joined(<[T; 1]>::sol_pieces()) == joined(T::sol_pieces()) + seq!['['] + decimal(1)
            + seq![']'],
        joined(<[T; 1]>::sol_pieces()) == joined(T::sol_pieces()) + "[1]"@,
{
    lemma_one_more(T::sol_pieces(), "[1]"@);
    reveal_strlit("[1]");
    reveal_with_fuel(decimal, 2);
    assert(decimal(1) =~= seq!['1']);
    assert("[1]"@ =~= bracketed(1));
    assert(joined(T::sol_pieces()) + bracketed(1) =~= joined(T::sol_pieces()) + seq!['[']
        + decimal(1) + seq![']']);
}

/// The name of an array type of length 2 is that of its elements, and then the length in
/// brackets.
pub proof fn law_array_2_name<T: SolidityType>()
    ensures
        joined(<[T; 2]>::sol_pieces()) == joined(T::sol_pieces()) + seq!['['] + decimal(2)
            + seq![']'],
        joined(<[T; 2]>::sol_pieces()) == joined(T::sol_pieces()) + "[2]"@,
{
    lemma_one_more(T::sol_pieces(), "[2]"@);
    reveal_strlit("[2]");
    reveal_with_fuel(decimal, 2);
    assert(decimal(2) =~= seq!['2']);
    assert("[2]"@ =~= bracketed(2));
    assert(joined(T::sol_pieces()) + bracketed(2) =~= joined(T::sol_pieces()) + seq!['[']
        + decimal(2) + seq![']']);
}

/// The name of an array type of length 3 is that of its elements, and then the length in
/// brackets.
pub proof fn law_array_3_name<T: SolidityType>()
    ensures
        joined(<[T; 3]>::sol_pieces()) == joined(T::sol_pieces()) + seq!['['] + decimal(3)
            + seq![']'],
        joined(<[T; 3]>::sol_pieces()) == joined(T::sol_pieces()) + "[3]"@,
{
    lemma_one_more(T::sol_pieces(), "[3]"@);
    reveal_strlit("[3]");
    reveal_with_fuel(decimal, 2);
    assert(decimal(3) =~= seq!['3']);
    assert("[3]"@ =~= bracketed(3));
    assert(joined(T::sol_pieces()) + bracketed(3) =~= joined(T::sol_pieces()) + seq!['[']
        + decimal(3) + seq![']']);
}

/// The name of an array type of length 4 is that of its elements, and then the length in
/// brackets.
pub proof fn law_array_4_name<T: SolidityType>()
    ensures
        joined(<[T; 4]>::sol_pieces()) == joined(T::sol_pieces()) + seq!['['] + decimal(4)
            + seq![']'],
        joined(<[T; 4]>::sol_pieces()) == joined(T::sol_pieces()) + "[4]"@,
{
    lemma_one_more(T::sol_pieces(), "[4]"@);
    reveal_strlit("[4]");
    reveal_with_fuel(decimal, 2);
    assert(decimal(4) =~= seq!['4']);
    assert("[4]"@ =~= bracketed(4));
    assert(joined(T::sol_pieces()) + bracketed(4) =~= joined(T::sol_pieces()) + seq!['[']
        + decimal(4) + seq![']']);
}

/// The name of an array type of length 5 is that of its elements, and then the length in
/// brackets.
pub proof fn law_array_5_name<T: SolidityType>()
    ensures
        joined(<[T; 5]>::sol_pieces()) == joined(T::sol_pieces()) + seq!['['] + decimal(5)
            + seq![']'],
        joined(<[T; 5]>::sol_pieces()) == joined(T::sol_pieces()) + "[5]"@,
{
    lemma_one_more(T::sol_pieces(), "[5]"@);
    reveal_strlit("[5]");
    reveal_with_fuel(decimal, 2);
    assert(decimal(5) =~= seq!['5']);
    assert("[5]"@ =~= bracketed(5));
    assert(joined(T::sol_pieces()) + bracketed(5) =~= joined(T::sol_pieces()) + seq!['[']
        + decimal(5) + seq![']']);
}

/// The name of an array type of length 6 is that of its elements, and then the length in
/// brackets.
pub proof fn law_array_6_name<T: SolidityType>()
    ensures
        joined(<[T; 6]>::sol_pieces()) == joined(T::sol_pieces()) + seq!['['] + decimal(6)
            + seq![']'],
        joined(<[T; 6]>::sol_pieces()) == joined(T::sol_pieces()) + "[6]"@,
{
    lemma_one_more(T::sol_pieces(), "[6]"@);
    reveal_strlit("[6]");
    reveal_with_fuel(decimal, 2);
    assert(decimal(6) =~= seq!['6']);
    assert("[6]"@ =~= bracketed(6));
    assert(joined(T::sol_pieces()) + bracketed(6) =~= joined(T::sol_pieces()) + seq!['[']
        + decimal(6) + seq![']']);
}

/// The name of an array type of length 7 is that of its elements, and then the length in
/// brackets.
pub proof fn law_array_7_name<T: SolidityType>()
    ensures
        joined(<[T; 7]>::sol_pieces()) == joined(T::sol_pieces()) + seq!['['] + decimal(7)
            + seq![']'],
        joined(<[T; 7]>::sol_pieces()) == joined(T::sol_pieces()) + "[7]"@,
{
    lemma_one_more(T::sol_pieces(), "[7]"@);
    reveal_strlit("[7]");
    reveal_with_fuel(decimal, 2);
    assert(decimal(7) =~= seq!['7']);
    assert("[7]"@ =~= bracketed(7));
    assert(joined(T::sol_pieces()) + bracketed(7) =~= joined(T::sol_pieces()) + seq!['[']
        + decimal(7) + seq![']']);
}

/// The name of an array type of length 8 is that of its elements, and then the length in
/// brackets.
pub proof fn law_array_8_name<T: SolidityType>()
    ensures
        joined(<[T; 8]>::sol_pieces()) == joined(T::sol_pieces()) + seq!['['] + decimal(8)
            + seq![']'],
        joined(<[T; 8]>::sol_pieces()) == joined(T::sol_pieces()) + "[8]"@,
{
    lemma_one_more(T::sol_pieces(), "[8]"@);
    reveal_strlit("[8]");
    reveal_with_fuel(decimal, 2);
    assert(decimal(8) =~= seq!['8']);
    assert("[8]"@ =~= bracketed(8));
    assert(joined(T::sol_pieces()) + bracketed(8) =~= joined(T::sol_pieces()) + seq!['[']
        + decimal(8) + seq![']']);
}

/// The name of an array type of length 9 is that of its elements, and then the length in
/// brackets.
pub proof fn law_array_9_name<T: SolidityType>()
    ensures
        joined(<[T; 9]>::sol_pieces()) == joined(T::sol_pieces()) + seq!['['] + decimal(9)
            + seq![']'],
        joined(<[T; 9]>::sol_pieces()) == joined(T::sol_pieces()) + "[9]"@,
{
    lemma_one_more(T::sol_pieces(), "[9]"@);
    reveal_strlit("[9]");
    reveal_with_fuel(decimal, 2);
    assert(decimal(9) =~= seq!['9']);
    assert("[9]"@ =~= bracketed(9));
    assert(joined(T::sol_pieces()) + bracketed(9) =~= joined(T::sol_pieces()) + seq!['[']
        + decimal(9) + seq![']']);
}

/// The name of an array type of length 10 is that of its elements, and then the length in
/// brackets.
pub proof fn law_array_10_name<T: SolidityType>()
    ensures
        joined(<[T; 10]>::sol_pieces()) == joined(T::sol_pieces()) + seq!['['] + decimal(10)
            + seq![']'],
        joined(<[T; 10]>::sol_pieces()) == joined(T::sol_pieces()) + "[10]"@,
{
    lemma_one_more(T::sol_pieces(), "[10]"@);
    reveal_strlit("[10]");
    reveal_with_fuel(decimal, 3);
    assert(decimal(10) =~= seq!['1', '0']);
    assert("[10]"@ =~= bracketed(10));
    assert(joined(T::sol_pieces()) + bracketed(10) =~= joined(T::sol_pieces()) + seq!['[']
        + decimal(10) + seq![']']);
}

/// The name of an array type of length 11 is that of its elements, and then the length in
/// brackets.
pub proof fn law_array_11_name<T: SolidityType>()
    ensures
        joined(<[T; 11]>::sol_pieces()) == joined(T::sol_pieces()) + seq!['['] + decimal(11)
            + seq![']'],
        joined(<[T; 11]>::sol_pieces()) == joined(T::sol_pieces()) + "[11]"@,
{
    lemma_one_more(T::sol_pieces(), "[11]"@);
    reveal_strlit("[11]");
    reveal_with_fuel(decimal, 3);
    assert(decimal(11) =~= seq!['1', '1']);
    assert("[11]"@ =~= bracketed(11));
    assert(joined(T::sol_pieces()) + bracketed(11) =~= joined(T::sol_pieces()) + seq!['[']
        + decimal(11) + seq![']']);
}

/// The name of an array type of length 12 is that of its elements, and then the length in
/// brackets.
pub proof fn law_array_12_name<T: SolidityType>()
    ensures
        joined(<[T; 12]>::sol_pieces()) == joined(T::sol_pieces()) + seq!['['] + decimal(12)
            + seq![']'],
        joined(<[T; 12]>::sol_pieces()) == joined(T::sol_pieces()) + "[12]"@,
{
    lemma_one_more(T::sol_pieces(), "[12]"@);
    reveal_strlit("[12]");
    reveal_with_fuel(decimal, 3);
    assert(decimal(12) =~= seq!['1', '2']);
    assert("[12]"@ =~= bracketed(12));
    assert(joined(T::sol_pieces()) + bracketed(12) =~= joined(T::sol_pieces()) + seq!['[']
        + decimal(12) + seq![']']);
}

/// The name of an array type of length 13 is that of its elements, and then the length in
/// brackets.
pub proof fn law_array_13_name<T: SolidityType>()
    ensures
        joined(<[T; 13]>::sol_pieces()) == joined(T::sol_pieces()) + seq!['['] + decimal(13)
            + seq![']'],
        joined(<[T; 13]>::sol_pieces()) == joined(T::sol_pieces()) + "[13]"@,
{
    lemma_one_more(T::sol_pieces(), "[13]"@);
    reveal_strlit("[13]");
    reveal_with_fuel(decimal, 3);
    assert(decimal(13) =~= seq!['1', '3']);
    assert("[13]"@ =~= bracketed(13));
    assert(joined(T::sol_pieces()) + bracketed(13) =~= joined(T::sol_pieces()) + seq!['[']
        + decimal(13) + seq![']']);
}

/// The name of an array type of length 14 is that of its elements, and then the length in
/// brackets.
pub proof fn law_array_14_name<T: SolidityType>()
    ensures
        joined(<[T; 14]>::sol_pieces()) == joined(T::sol_pieces()) + seq!['['] + decimal(14)
            + seq![']'],
        joined(<[T; 14]>::sol_pieces()) == joined(T::sol_pieces()) + "[14]"@,
{
    lemma_one_more(T::sol_pieces(), "[14]"@);
    reveal_strlit("[14]");
    reveal_with_fuel(decimal, 3);
    assert(decimal(14) =~= seq!['1', '4']);
    assert("[14]"@ =~= bracketed(14));
    assert(joined(T::sol_pieces()) + bracketed(14) =~= joined(T::sol_pieces()) + seq!['[']
        + decimal(14) + seq![']']);
}

/// The name of an array type of length 15 is that of its elements, and then the length in
/// brackets.
pub proof fn law_array_15_name<T: SolidityType>()
    ensures
        joined(<[T; 15]>::sol_pieces()) == joined(T::sol_pieces()) + seq!['['] + decimal(15)
            + seq![']'],
        joined(<[T; 15]>::sol_pieces()) == joined(T::sol_pieces()) + "[15]"@,
{
    lemma_one_more(T::sol_pieces(), "[15]"@);
    reveal_strlit("[15]");
    reveal_with_fuel(decimal, 3);
    assert(decimal(15) =~= seq!['1', '5']);
    assert("[15]"@ =~= bracketed(15));
    assert(joined(T::sol_pieces()) + bracketed(15) =~= joined(T::sol_pieces()) + seq!['[']
        + decimal(15) + seq![']']);
}

/// The name of an array type of length 16 is that of its elements, and then the length in
/// brackets.
pub proof fn law_array_16_name<T: SolidityType>()
    ensures
        joined(<[T; 16]>::sol_pieces()) == joined(T::sol_pieces()) + seq!['['] + decimal(16)
            + seq![']'],
        joined(<[T; 16]>::sol_pieces()) == joined(T::sol_pieces()) + "[16]"@,
{
    lemma_one_more(T::sol_pieces(), "[16]"@);
    reveal_strlit("[16]");
    reveal_with_fuel(decimal, 3);
    assert(decimal(16) =~= seq!['1', '6']);
    assert("[16]"@ =~= bracketed(16));
    assert(joined(T::sol_pieces()) + bracketed(16) =~= joined(T::sol_pieces()) + seq!['[']
        + decimal(16) + seq![']']);
}

/// The name of an array type of length 32 is that of its elements, and then the length in
/// brackets.
pub proof fn law_array_32_name<T: SolidityType>()
    ensures
        joined(<[T; 32]>::sol_pieces()) == joined(T::sol_pieces()) + seq!['['] + decimal(32)
            + seq![']'],
        joined(<[T; 32]>::sol_pieces()) == joined(T::sol_pieces()) + "[32]"@,
{
    lemma_one_more(T::sol_pieces(), "[32]"@);
    reveal_strlit("[32]");
    reveal_with_fuel(decimal, 3);
    assert(decimal(32) =~= seq!['3', '2']);
    assert("[32]"@ =~= bracketed(32));
    assert(joined(T::sol_pieces()) + bracketed(32) =~= joined(T::sol_pieces()) + seq!['[']
        + decimal(32) + seq![']']);
}

/// The name of an array type of length 64 is that of its elements, and then the length in
/// brackets.
pub proof fn law_array_64_name<T: SolidityType>()
    ensures
        joined(<[T; 64]>::sol_pieces()) == joined(T::sol_pieces()) + seq!['['] + decimal(64)
            + seq![']'],
        joined(<[T; 64]>::sol_pieces()) == joined(T::sol_pieces()) + "[64]"@,
{
    lemma_one_more(T::sol_pieces(), "[64]"@);
    reveal_strlit("[64]");
    reveal_with_fuel(decimal, 3);
    assert(decimal(64) =~= seq!['6', '4']);
    assert("[64]"@ =~= bracketed(64));
    assert(joined(T::sol_pieces()) + bracketed(64) =~= joined(T::sol_pieces()) + seq!['[']
        + decimal(64) + seq![']']);
}

/// The name of an array type of length 128 is that of its elements, and then the length in
/// brackets.
pub proof fn law_array_128_name<T: SolidityType>()
    ensures
        joined(<[T; 128]>::sol_pieces()) == joined(T::sol_pieces()) + seq!['['] + decimal(128)
            + seq![']'],
        joined(<[T; 128]>::sol_pieces()) == joined(T::sol_pieces()) + "[128]"@,
{
    lemma_one_more(T::sol_pieces(), "[128]"@);
    reveal_strlit("[128]");
    reveal_with_fuel(decimal, 4);
    assert(decimal(128) =~= seq!['1', '2', '8']);
    assert("[128]"@ =~= bracketed(128));
    assert(joined(T::sol_pieces()) + bracketed(128) =~= joined(T::sol_pieces()) + seq!['[']
        + decimal(128) + seq![']']);
}

/// The name of an array type of length 256 is that of its elements, and then the length in
/// brackets.
pub proof fn law_array_256_name<T: SolidityType>()
    ensures
        joined(<[T; 256]>::sol_pieces()) == joined(T::sol_pieces()) + seq!['['] + decimal(256)
            + seq![']'],
        joined(<[T; 256]>::sol_pieces()) == joined(T::sol_pieces()) + "[256]"@,
{
    lemma_one_more(T::sol_pieces(), "[256]"@);
    reveal_strlit("[256]");
    reveal_with_fuel(decimal, 4);
    assert(decimal(256) =~= seq!['2', '5', '6']);
    assert("[256]"@ =~= bracketed(256));
    assert(joined(T::sol_pieces()) + bracketed(256) =~= joined(T::sol_pieces()) + seq!['[']
        + decimal(256) + seq![']']);
}

/// The name of an array type of length 512 is that of its elements, and then the length in
/// brackets.
pub proof fn law_array_512_name<T: SolidityType>()
    ensures
        joined(<[T; 512]>::sol_pieces()) == joined(T::sol_pieces()) + seq!['['] + decimal(512)
            + seq![']'],
        joined(<[T; 512]>::sol_pieces()) == joined(T::sol_pieces()) + "[512]"@,
{
    lemma_one_more(T::sol_pieces(), "[512]"@);
    reveal_strlit("[512]");
    reveal_with_fuel(decimal, 4);
    assert(decimal(512) =~= seq!['5', '1', '2']);
    assert("[512]"@ =~= bracketed(512));
    assert(joined(T::sol_pieces()) + bracketed(512) =~= joined(T::sol_pieces()) + seq!['[']
        + decimal(512) + seq![']']);
}

/// The name of an array type of length 1024 is that of its elements, and then the length in
/// brackets.
pub proof fn law_array_1024_name<T: SolidityType>()
    ensures
        joined(<[T; 1024]>::sol_pieces()) == joined(T::sol_pieces()) + seq!['['] + decimal(1024)
            + seq![']'],
        joined(<[T; 1024]>::sol_pieces()) == joined(T::sol_pieces()) + "[1024]"@,
{
    lemma_one_more(T::sol_pieces(), "[1024]"@);
    reveal_strlit("[1024]");
    reveal_with_fuel(decimal, 5);
    assert(decimal(1024) =~= seq!['1', '0', '2', '4']);
    assert("[1024]"@ =~= bracketed(1024));
    assert(joined(T::sol_pieces()) + bracketed(1024) =~= joined(T::sol_pieces()) + seq!['[']
        + decimal(1024) + seq![']']);
}

/// Names of array types of different lengths differ, and so do those of array and vector
/// types.
pub proof fn law_lengths_in_names(name: Seq<char>, n: nat, other: nat)
    ensures
        name + seq!['['] + decimal(n) + seq![']'] == name + seq!['['] + decimal(other) + seq![']']
            ==> n == other,
        name + seq!['['] + decimal(n) + seq![']'] != name + "[]"@,
{
    law_decimal(n);
    law_decimal(other);
    reveal_strlit("[]");
    let a = name + seq!['['] + decimal(n) + seq![']'];
    let b = name + seq!['['] + decimal(other) + seq![']'];
    let from = name.len() as int + 1;
    assert(a.subrange(from, a.len() - 1) =~= decimal(n));
    assert(b.subrange(from, b.len() - 1) =~= decimal(other));
    assert(a.len() == name.len() + 2 + decimal(n).len());
}

} // verus!
