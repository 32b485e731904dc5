//! What is encoded of the values of each type, and as which bytes.

use vstd::arithmetic::power::pow;
use vstd::prelude::*;
use vstd::utf8::encode_utf8;

use crate::digits::{lemma_le_bytes_digit, lemma_le_bytes_len};
use crate::eth_laws::fits;
use crate::eth_state::stored;
use crate::getter::{law_written_is_read, value_at};
use crate::plain::Plain;
use crate::source::{lemma_skip_seq, ByteSource};
use crate::wire::Wire;
use crate::wire_lists::{list_encoding, models};

verus! {

/// Bytes that hold the encoding of a value from a place on are decoded to the value there,
/// whatever stands around it.
pub proof fn law_decode_back<T: Wire>(value: T, bytes: Seq<u8>, at: int)
    requires
        0 <= at,
        at + T::encoding(value.model()).len() <= bytes.len(),
        bytes.subrange(at, at + T::encoding(value.model()).len()) == T::encoding(value.model()),
    ensures
        T::parse(ByteSource::of_seq(bytes).skip(at as nat)) == Some(
            (value.model(), T::encoding(value.model()).len()),
        ),
{
    let code = T::encoding(value.model());
    lemma_skip_seq(bytes, at as nat);
    let source = ByteSource::of_seq(bytes.skip(at));
    assert forall|i: int| 0 <= i < code.len() implies source.take(code.len())[i] == code[i] by {
        assert(bytes.subrange(at, at + code.len())[i] == bytes[at + i]);
    }
    assert(source.take(code.len()) =~= code);
    T::law_parse_back(value, source);
}

/// Bytes that are decoded to something hold the encoding of it, and end no earlier.
pub proof fn law_decode_exact<T: Wire>(bytes: Seq<u8>, at: int)
    requires
        0 <= at <= bytes.len(),
    ensures
        T::parse(ByteSource::of_seq(bytes).skip(at as nat)) matches Some((m, n)) ==> at + n
            <= bytes.len() && bytes.subrange(at, at + n) == T::encoding(m),
{
    lemma_skip_seq(bytes, at as nat);
    let source = ByteSource::of_seq(bytes.skip(at));
    T::law_parse_within(source);
    T::law_parse_exact(source);
    if let Some((m, n)) = T::parse(source) {
        assert(bytes.subrange(at, at + n) =~= source.take(n));
    }
}

/// Nothing is encoded of the value without content, as no bytes.
pub proof fn law_unit(value: ())
    ensures
        value.model() == value,
        <()>::encoding(value) == Seq::<u8>::empty(),
{
}

/// A `bool` is encoded as it is, as a byte of one or zero.
pub proof fn law_bool(value: bool)
    ensures
        value.model() == value,
        bool::encoding(value) == seq![
            (if value {
                1u8
            } else {
                0u8
            }),
        ],
{
    reveal_with_fuel(crate::digits::le_bytes, 2);
}

/// An `u8` is encoded as it is, as its 1 byte.
pub proof fn law_u8(value: u8)
    ensures
        value.model() == value,
        u8::encoding(value).len() == 1,
        forall|i: int|
            0 <= i < 1 ==> #[trigger] u8::encoding(value)[i] as int == (value as int) / pow(256, i as nat)
                % 256,
{
    let number: nat = (value as int) as nat;
    lemma_le_bytes_len(number, 1);
    assert forall|i: int| 0 <= i < 1 implies #[trigger] u8::encoding(value)[i] as int == (value as int)
        / pow(256, i as nat) % 256 by {
        lemma_le_bytes_digit(number, 1, i as nat);
    }
}

/// The 1 byte of an `u8`, wherever they stand, are decoded to the value itself.
pub proof fn law_u8_back(value: u8, bytes: Seq<u8>, at: int)
    requires
        0 <= at,
        at + 1 <= bytes.len(),
        forall|i: int|
            0 <= i < 1 ==> #[trigger] bytes[at + i] as int == (value as int) / pow(256, i as nat) % 256,
    ensures
        u8::parse(ByteSource::of_seq(bytes).skip(at as nat)) == Some((value, 1nat)),
{
    law_u8(value);
    let code = u8::encoding(value);
    assert forall|i: int| 0 <= i < 1 implies bytes.subrange(at, at + 1)[i] == code[i] by {
        assert(bytes[at + i] as int == (value as int) / pow(256, i as nat) % 256);
        assert(code[i] as int == (value as int) / pow(256, i as nat) % 256);
    }
    assert(bytes.subrange(at, at + 1) =~= code);
    law_decode_back(value, bytes, at);
}

/// An `u16` is encoded as it is, as its 2 bytes, least significant first.
pub proof fn law_u16(value: u16)
    ensures
        value.model() == value,
        u16::encoding(value).len() == 2,
        forall|i: int|
            0 <= i < 2 ==> #[trigger] u16::encoding(value)[i] as int == (value as int) / pow(256, i as nat)
                % 256,
{
    let number: nat = (value as int) as nat;
    lemma_le_bytes_len(number, 2);
    assert forall|i: int| 0 <= i < 2 implies #[trigger] u16::encoding(value)[i] as int == (value as int)
        / pow(256, i as nat) % 256 by {
        lemma_le_bytes_digit(number, 2, i as nat);
    }
}

/// The 2 bytes of an `u16`, wherever they stand, are decoded to the value itself.
pub proof fn law_u16_back(value: u16, bytes: Seq<u8>, at: int)
    requires
        0 <= at,
        at + 2 <= bytes.len(),
        forall|i: int|
            0 <= i < 2 ==> #[trigger] bytes[at + i] as int == (value as int) / pow(256, i as nat) % 256,
    ensures
        u16::parse(ByteSource::of_seq(bytes).skip(at as nat)) == Some((value, 2nat)),
{
    law_u16(value);
    let code = u16::encoding(value);
    assert forall|i: int| 0 <= i < 2 implies bytes.subrange(at, at + 2)[i] == code[i] by {
        assert(bytes[at + i] as int == (value as int) / pow(256, i as nat) % 256);
        assert(code[i] as int == (value as int) / pow(256, i as nat) % 256);
    }
    assert(bytes.subrange(at, at + 2) =~= code);
    law_decode_back(value, bytes, at);
}

/// An `u32` is encoded as it is, as its 4 bytes, least significant first.
pub proof fn law_u32(value: u32)
    ensures
        value.model() == value,
        u32::encoding(value).len() == 4,
        forall|i: int|
            0 <= i < 4 ==> #[trigger] u32::encoding(value)[i] as int == (value as int) / pow(256, i as nat)
                % 256,
{
    let number: nat = (value as int) as nat;
    lemma_le_bytes_len(number, 4);
    assert forall|i: int| 0 <= i < 4 implies #[trigger] u32::encoding(value)[i] as int == (value as int)
        / pow(256, i as nat) % 256 by {
        lemma_le_bytes_digit(number, 4, i as nat);
    }
}

/// The 4 bytes of an `u32`, wherever they stand, are decoded to the value itself.
pub proof fn law_u32_back(value: u32, bytes: Seq<u8>, at: int)
    requires
        0 <= at,
        at + 4 <= bytes.len(),
        forall|i: int|
            0 <= i < 4 ==> #[trigger] bytes[at + i] as int == (value as int) / pow(256, i as nat) % 256,
    ensures
        u32::parse(ByteSource::of_seq(bytes).skip(at as nat)) == Some((value, 4nat)),
{
    law_u32(value);
    let code = u32::encoding(value);
    assert forall|i: int| 0 <= i < 4 implies bytes.subrange(at, at + 4)[i] == code[i] by {
        assert(bytes[at + i] as int == (value as int) / pow(256, i as nat) % 256);
        assert(code[i] as int == (value as int) / pow(256, i as nat) % 256);
    }
    assert(bytes.subrange(at, at + 4) =~= code);
    law_decode_back(value, bytes, at);
}

/// An `u64` is encoded as it is, as its 8 bytes, least significant first.
pub proof fn law_u64(value: u64)
    ensures
        value.model() == value,
        u64::encoding(value).len() == 8,
        forall|i: int|
            0 <= i < 8 ==> #[trigger] u64::encoding(value)[i] as int == (value as int) / pow(256, i as nat)
                % 256,
{
    let number: nat = (value as int) as nat;
    lemma_le_bytes_len(number, 8);
    assert forall|i: int| 0 <= i < 8 implies #[trigger] u64::encoding(value)[i] as int == (value as int)
        / pow(256, i as nat) % 256 by {
        lemma_le_bytes_digit(number, 8, i as nat);
    }
}

/// The 8 bytes of an `u64`, wherever they stand, are decoded to the value itself.
pub proof fn law_u64_back(value: u64, bytes: Seq<u8>, at: int)
    requires
        0 <= at,
        at + 8 <= bytes.len(),
        forall|i: int|
            0 <= i < 8 ==> #[trigger] bytes[at + i] as int == (value as int) / pow(256, i as nat) % 256,
    ensures
        u64::parse(ByteSource::of_seq(bytes).skip(at as nat)) == Some((value, 8nat)),
{
    law_u64(value);
    let code = u64::encoding(value);
    assert forall|i: int| 0 <= i < 8 implies bytes.subrange(at, at + 8)[i] == code[i] by {
        assert(bytes[at + i] as int == (value as int) / pow(256, i as nat) % 256);
        assert(code[i] as int == (value as int) / pow(256, i as nat) % 256);
    }
    assert(bytes.subrange(at, at + 8) =~= code);
    law_decode_back(value, bytes, at);
}

/// An `i8` is encoded as it is, as its 1 byte in two's complement.
pub proof fn law_i8(value: i8)
    ensures
        value.model() == value,
        i8::encoding(value).len() == 1,
        forall|i: int|
            0 <= i < 1 ==> #[trigger] i8::encoding(value)[i] as int == (if value < 0 { value + 0x100 } else { value as int }) / pow(256, i as nat)
                % 256,
{
    let number: nat = (if value < 0 { value + 0x100 } else { value as int }) as nat;
    lemma_le_bytes_len(number, 1);
    assert forall|i: int| 0 <= i < 1 implies #[trigger] i8::encoding(value)[i] as int == (if value < 0 { value + 0x100 } else { value as int })
        / pow(256, i as nat) % 256 by {
        lemma_le_bytes_digit(number, 1, i as nat);
    }
}

/// The 1 byte of an `i8`, wherever they stand, are decoded to the value itself.
pub proof fn law_i8_back(value: i8, bytes: Seq<u8>, at: int)
    requires
        0 <= at,
        at + 1 <= bytes.len(),
        forall|i: int|
            0 <= i < 1 ==> #[trigger] bytes[at + i] as int == (if value < 0 { value + 0x100 } else { value as int }) / pow(256, i as nat) % 256,
    ensures
        i8::parse(ByteSource::of_seq(bytes).skip(at as nat)) == Some((value, 1nat)),
{
    law_i8(value);
    let code = i8::encoding(value);
    assert forall|i: int| 0 <= i < 1 implies bytes.subrange(at, at + 1)[i] == code[i] by {
        assert(bytes[at + i] as int == (if value < 0 { value + 0x100 } else { value as int }) / pow(256, i as nat) % 256);
        assert(code[i] as int == (if value < 0 { value + 0x100 } else { value as int }) / pow(256, i as nat) % 256);
    }
    assert(bytes.subrange(at, at + 1) =~= code);
    law_decode_back(value, bytes, at);
}

/// An `i16` is encoded as it is, as its 2 bytes, in two's complement, least significant first.
pub proof fn law_i16(value: i16)
    ensures
        value.model() == value,
        i16::encoding(value).len() == 2,
        forall|i: int|
            0 <= i < 2 ==> #[trigger] i16::encoding(value)[i] as int == (if value < 0 { value + 0x1_0000 } else { value as int }) / pow(256, i as nat)
                % 256,
{
    let number: nat = (if value < 0 { value + 0x1_0000 } else { value as int }) as nat;
    lemma_le_bytes_len(number, 2);
    assert forall|i: int| 0 <= i < 2 implies #[trigger] i16::encoding(value)[i] as int == (if value < 0 { value + 0x1_0000 } else { value as int })
        / pow(256, i as nat) % 256 by {
        lemma_le_bytes_digit(number, 2, i as nat);
    }
}

/// The 2 bytes of an `i16`, wherever they stand, are decoded to the value itself.
pub proof fn law_i16_back(value: i16, bytes: Seq<u8>, at: int)
    requires
        0 <= at,
        at + 2 <= bytes.len(),
        forall|i: int|
            0 <= i < 2 ==> #[trigger] bytes[at + i] as int == (if value < 0 { value + 0x1_0000 } else { value as int }) / pow(256, i as nat) % 256,
    ensures
        i16::parse(ByteSource::of_seq(bytes).skip(at as nat)) == Some((value, 2nat)),
{
    law_i16(value);
    let code = i16::encoding(value);
    assert forall|i: int| 0 <= i < 2 implies bytes.subrange(at, at + 2)[i] == code[i] by {
        assert(bytes[at + i] as int == (if value < 0 { value + 0x1_0000 } else { value as int }) / pow(256, i as nat) % 256);
        assert(code[i] as int == (if value < 0 { value + 0x1_0000 } else { value as int }) / pow(256, i as nat) % 256);
    }
    assert(bytes.subrange(at, at + 2) =~= code);
    law_decode_back(value, bytes, at);
}

/// An `i32` is encoded as it is, as its 4 bytes, in two's complement, least significant first.
pub proof fn law_i32(value: i32)
    ensures
        value.model() == value,
        i32::encoding(value).len() == 4,
        forall|i: int|
            0 <= i < 4 ==> #[trigger] i32::encoding(value)[i] as int == (if value < 0 { value + 0x1_0000_0000 } else { value as int }) / pow(256, i as nat)
                % 256,
{
    let number: nat = (if value < 0 { value + 0x1_0000_0000 } else { value as int }) as nat;
    lemma_le_bytes_len(number, 4);
    assert forall|i: int| 0 <= i < 4 implies #[trigger] i32::encoding(value)[i] as int == (if value < 0 { value + 0x1_0000_0000 } else { value as int })
        / pow(256, i as nat) % 256 by {
        lemma_le_bytes_digit(number, 4, i as nat);
    }
}

/// The 4 bytes of an `i32`, wherever they stand, are decoded to the value itself.
pub proof fn law_i32_back(value: i32, bytes: Seq<u8>, at: int)
    requires
        0 <= at,
        at + 4 <= bytes.len(),
        forall|i: int|
            0 <= i < 4 ==> #[trigger] bytes[at + i] as int == (if value < 0 { value + 0x1_0000_0000 } else { value as int }) / pow(256, i as nat) % 256,
    ensures
        i32::parse(ByteSource::of_seq(bytes).skip(at as nat)) == Some((value, 4nat)),
{
    law_i32(value);
    let code = i32::encoding(value);
    assert forall|i: int| 0 <= i < 4 implies bytes.subrange(at, at + 4)[i] == code[i] by {
        assert(bytes[at + i] as int == (if value < 0 { value + 0x1_0000_0000 } else { value as int }) / pow(256, i as nat) % 256);
        assert(code[i] as int == (if value < 0 { value + 0x1_0000_0000 } else { value as int }) / pow(256, i as nat) % 256);
    }
    assert(bytes.subrange(at, at + 4) =~= code);
    law_decode_back(value, bytes, at);
}

/// An `i64` is encoded as it is, as its 8 bytes, in two's complement, least significant first.
pub proof fn law_i64(value: i64)
    ensures
        value.model() == value,
        i64::encoding(value).len() == 8,
        forall|i: int|
            0 <= i < 8 ==> #[trigger] i64::encoding(value)[i] as int == (if value < 0 { value + 0x1_0000_0000_0000_0000 } else { value as int }) / pow(256, i as nat)
                % 256,
{
    let number: nat = (if value < 0 { value + 0x1_0000_0000_0000_0000 } else { value as int }) as nat;
    lemma_le_bytes_len(number, 8);
    assert forall|i: int| 0 <= i < 8 implies #[trigger] i64::encoding(value)[i] as int == (if value < 0 { value + 0x1_0000_0000_0000_0000 } else { value as int })
        / pow(256, i as nat) % 256 by {
        lemma_le_bytes_digit(number, 8, i as nat);
    }
}

/// The 8 bytes of an `i64`, wherever they stand, are decoded to the value itself.
pub proof fn law_i64_back(value: i64, bytes: Seq<u8>, at: int)
    requires
        0 <= at,
        at + 8 <= bytes.len(),
        forall|i: int|
            0 <= i < 8 ==> #[trigger] bytes[at + i] as int == (if value < 0 { value + 0x1_0000_0000_0000_0000 } else { value as int }) / pow(256, i as nat) % 256,
    ensures
        i64::parse(ByteSource::of_seq(bytes).skip(at as nat)) == Some((value, 8nat)),
{
    law_i64(value);
    let code = i64::encoding(value);
    assert forall|i: int| 0 <= i < 8 implies bytes.subrange(at, at + 8)[i] == code[i] by {
        assert(bytes[at + i] as int == (if value < 0 { value + 0x1_0000_0000_0000_0000 } else { value as int }) / pow(256, i as nat) % 256);
        assert(code[i] as int == (if value < 0 { value + 0x1_0000_0000_0000_0000 } else { value as int }) / pow(256, i as nat) % 256);
    }
    assert(bytes.subrange(at, at + 8) =~= code);
    law_decode_back(value, bytes, at);
}

/// An `usize` is encoded as it is, as its 8 bytes, least significant first.
pub proof fn law_usize(value: usize)
    ensures
        value.model() == value,
        usize::encoding(value).len() == 8,
        forall|i: int|
            0 <= i < 8 ==> #[trigger] usize::encoding(value)[i] as int == (value as int) / pow(256, i as nat)
                % 256,
{
    let number: nat = (value as int) as nat;
    lemma_le_bytes_len(number, 8);
    assert forall|i: int| 0 <= i < 8 implies #[trigger] usize::encoding(value)[i] as int == (value as int)
        / pow(256, i as nat) % 256 by {
        lemma_le_bytes_digit(number, 8, i as nat);
    }
}

/// The 8 bytes of an `usize`, wherever they stand, are decoded to the value itself.
pub proof fn law_usize_back(value: usize, bytes: Seq<u8>, at: int)
    requires
        0 <= at,
        at + 8 <= bytes.len(),
        forall|i: int|
            0 <= i < 8 ==> #[trigger] bytes[at + i] as int == (value as int) / pow(256, i as nat) % 256,
    ensures
        usize::parse(ByteSource::of_seq(bytes).skip(at as nat)) == Some((value, 8nat)),
{
    law_usize(value);
    let code = usize::encoding(value);
    assert forall|i: int| 0 <= i < 8 implies bytes.subrange(at, at + 8)[i] == code[i] by {
        assert(bytes[at + i] as int == (value as int) / pow(256, i as nat) % 256);
        assert(code[i] as int == (value as int) / pow(256, i as nat) % 256);
    }
    assert(bytes.subrange(at, at + 8) =~= code);
    law_decode_back(value, bytes, at);
}

/// An `isize` is encoded as it is, as its 8 bytes, in two's complement, least significant first.
pub proof fn law_isize(value: isize)
    ensures
        value.model() == value,
        isize::encoding(value).len() == 8,
        forall|i: int|
            0 <= i < 8 ==> #[trigger] isize::encoding(value)[i] as int == (if value < 0 { value + 0x1_0000_0000_0000_0000 } else { value as int }) / pow(256, i as nat)
                % 256,
{
    let number: nat = (if value < 0 { value + 0x1_0000_0000_0000_0000 } else { value as int }) as nat;
    lemma_le_bytes_len(number, 8);
    assert forall|i: int| 0 <= i < 8 implies #[trigger] isize::encoding(value)[i] as int == (if value < 0 { value + 0x1_0000_0000_0000_0000 } else { value as int })
        / pow(256, i as nat) % 256 by {
        lemma_le_bytes_digit(number, 8, i as nat);
    }
}

/// The 8 bytes of an `isize`, wherever they stand, are decoded to the value itself.
pub proof fn law_isize_back(value: isize, bytes: Seq<u8>, at: int)
    requires
        0 <= at,
        at + 8 <= bytes.len(),
        forall|i: int|
            0 <= i < 8 ==> #[trigger] bytes[at + i] as int == (if value < 0 { value + 0x1_0000_0000_0000_0000 } else { value as int }) / pow(256, i as nat) % 256,
    ensures
        isize::parse(ByteSource::of_seq(bytes).skip(at as nat)) == Some((value, 8nat)),
{
    law_isize(value);
    let code = isize::encoding(value);
    assert forall|i: int| 0 <= i < 8 implies bytes.subrange(at, at + 8)[i] == code[i] by {
        assert(bytes[at + i] as int == (if value < 0 { value + 0x1_0000_0000_0000_0000 } else { value as int }) / pow(256, i as nat) % 256);
        assert(code[i] as int == (if value < 0 { value + 0x1_0000_0000_0000_0000 } else { value as int }) / pow(256, i as nat) % 256);
    }
    assert(bytes.subrange(at, at + 8) =~= code);
    law_decode_back(value, bytes, at);
}

/// An `u128` is encoded as it is, as its 16 bytes, least significant first.
pub proof fn law_u128(value: u128)
    ensures
        value.model() == value,
        u128::encoding(value).len() == 16,
        forall|i: int|
            0 <= i < 16 ==> #[trigger] u128::encoding(value)[i] as int == (value as int) / pow(256, i as nat)
                % 256,
{
    let number: nat = (value as int) as nat;
    lemma_le_bytes_len(number, 16);
    assert forall|i: int| 0 <= i < 16 implies #[trigger] u128::encoding(value)[i] as int == (value as int)
        / pow(256, i as nat) % 256 by {
        lemma_le_bytes_digit(number, 16, i as nat);
    }
}

/// The 16 bytes of an `u128`, wherever they stand, are decoded to the value itself.
pub proof fn law_u128_back(value: u128, bytes: Seq<u8>, at: int)
    requires
        0 <= at,
        at + 16 <= bytes.len(),
        forall|i: int|
            0 <= i < 16 ==> #[trigger] bytes[at + i] as int == (value as int) / pow(256, i as nat) % 256,
    ensures
        u128::parse(ByteSource::of_seq(bytes).skip(at as nat)) == Some((value, 16nat)),
{
    law_u128(value);
    let code = u128::encoding(value);
    assert forall|i: int| 0 <= i < 16 implies bytes.subrange(at, at + 16)[i] == code[i] by {
        assert(bytes[at + i] as int == (value as int) / pow(256, i as nat) % 256);
        assert(code[i] as int == (value as int) / pow(256, i as nat) % 256);
    }
    assert(bytes.subrange(at, at + 16) =~= code);
    law_decode_back(value, bytes, at);
}

/// An `i128` is encoded as it is, as its 16 bytes, in two's complement, least significant first.
pub proof fn law_i128(value: i128)
    ensures
        value.model() == value,
        i128::encoding(value).len() == 16,
        forall|i: int|
            0 <= i < 16 ==> #[trigger] i128::encoding(value)[i] as int == (if value < 0 { value + 0x1_0000_0000_0000_0000_0000_0000_0000_0000int } else { value as int }) / pow(256, i as nat)
                % 256,
{
    let number: nat = (if value < 0 { value + 0x1_0000_0000_0000_0000_0000_0000_0000_0000int } else { value as int }) as nat;
    lemma_le_bytes_len(number, 16);
    assert forall|i: int| 0 <= i < 16 implies #[trigger] i128::encoding(value)[i] as int == (if value < 0 { value + 0x1_0000_0000_0000_0000_0000_0000_0000_0000int } else { value as int })
        / pow(256, i as nat) % 256 by {
        lemma_le_bytes_digit(number, 16, i as nat);
    }
}

/// The 16 bytes of an `i128`, wherever they stand, are decoded to the value itself.
pub proof fn law_i128_back(value: i128, bytes: Seq<u8>, at: int)
    requires
        0 <= at,
        at + 16 <= bytes.len(),
        forall|i: int|
            0 <= i < 16 ==> #[trigger] bytes[at + i] as int == (if value < 0 { value + 0x1_0000_0000_0000_0000_0000_0000_0000_0000int } else { value as int }) / pow(256, i as nat) % 256,
    ensures
        i128::parse(ByteSource::of_seq(bytes).skip(at as nat)) == Some((value, 16nat)),
{
    law_i128(value);
    let code = i128::encoding(value);
    assert forall|i: int| 0 <= i < 16 implies bytes.subrange(at, at + 16)[i] == code[i] by {
        assert(bytes[at + i] as int == (if value < 0 { value + 0x1_0000_0000_0000_0000_0000_0000_0000_0000int } else { value as int }) / pow(256, i as nat) % 256);
        assert(code[i] as int == (if value < 0 { value + 0x1_0000_0000_0000_0000_0000_0000_0000_0000int } else { value as int }) / pow(256, i as nat) % 256);
    }
    assert(bytes.subrange(at, at + 16) =~= code);
    law_decode_back(value, bytes, at);
}

/// A `char` is encoded as it is, as its bytes in UTF-8.
pub proof fn law_char(value: char)
    ensures
        value.model() == value,
        char::encoding(value) == encode_utf8(seq![value]),
{
    reveal_with_fuel(encode_utf8, 2);
    assert(char::encoding(value) =~= encode_utf8(seq![value]));
}

/// The text of a `String` is encoded, as the number of its bytes in UTF-8 and the bytes. Its
/// bytes are never more than a `usize` counts.
pub proof fn law_string(value: String)
    requires
        encode_utf8(value@).len() <= usize::MAX,
    ensures
        value.model() == value@,
        String::encoding(value@) == u64::encoding(encode_utf8(value@).len() as u64) + encode_utf8(
            value@,
        ),
{
}

/// What is encoded of an option is whether there is a value, as a byte of one or zero, and
/// what is encoded of the value.
pub proof fn law_option<T: Wire>(value: Option<T>)
    ensures
        value is None ==> value.model() == None::<T::Model> && Option::<T>::encoding(value.model())
            == seq![0u8],
        value matches Some(inner) ==> value.model() == Some(inner.model())
            && Option::<T>::encoding(value.model()) == seq![1u8] + T::encoding(inner.model()),
{
    reveal_with_fuel(crate::digits::le_bytes, 2);
    assert(u8::encoding(0) =~= seq![0u8]);
    assert(u8::encoding(1) =~= seq![1u8]);
}

/// The bytes of values in a row are the bytes of all of them, one after the other.
proof fn lemma_list_flat<T: Wire>(list: Seq<T::Model>)
    ensures
        list_encoding::<T>(list) == list.map_values(|m: T::Model| T::encoding(m)).flatten(),
    decreases list.len(),
{
    let parts = list.map_values(|m: T::Model| T::encoding(m));
    parts.lemma_flatten_and_flatten_alt_are_equivalent();
    if list.len() > 0 {
        let init = list.drop_last();
        lemma_list_flat::<T>(init);
        let fewer = init.map_values(|m: T::Model| T::encoding(m));
        fewer.lemma_flatten_and_flatten_alt_are_equivalent();
        assert(parts.drop_last() =~= fewer);
    }
}

/// What is encoded of values in a row is what is encoded of each of them.
proof fn lemma_values_flat<T: Wire>(values: Seq<T>)
    ensures
        list_encoding::<T>(models(values)) == values.map_values(
            |value: T| T::encoding(value.model()),
        ).flatten(),
{
    lemma_list_flat::<T>(models(values));
    assert(models(values).map_values(|m: T::Model| T::encoding(m)) =~= values.map_values(
        |value: T| T::encoding(value.model()),
    ));
}

/// What is encoded of a vector is what is encoded of each of its elements: their number, as
/// a `u64`, and then the bytes of all of them, one after the other.
pub proof fn law_vec<T: Wire>(value: Vec<T>)
    ensures
        value.model().len() == value@.len(),
        forall|i: int| 0 <= i < value@.len() ==> #[trigger] value.model()[i] == value@[i].model(),
        Vec::<T>::encoding(value.model()) == u64::encoding(value@.len() as u64)
            + value@.map_values(|item: T| T::encoding(item.model())).flatten(),
{
    lemma_values_flat(value@);
}

/// What is encoded of an array is what is encoded of each of its elements: the bytes of all
/// of them, one after the other.
pub proof fn law_array<T: Wire, const N: usize>(value: [T; N])
    ensures
        value.model().len() == value@.len(),
        forall|i: int| 0 <= i < value@.len() ==> #[trigger] value.model()[i] == value@[i].model(),
        <[T; N]>::encoding(value.model()) == value@.map_values(
            |item: T| T::encoding(item.model()),
        ).flatten(),
{
    lemma_values_flat(value@);
}

/// A vector that is found where another was stored has as many elements as it, and of each
/// the same is encoded.
pub proof fn law_vec_stored<T: Wire>(
    blocks: Map<Seq<u8>, Seq<u8>>,
    key: Seq<u8>,
    put: Vec<T>,
    found: Vec<T>,
)
    requires
        key.len() == 32,
        fits(Vec::<T>::encoding(put.model()).len()),
        value_at::<Vec<T>>(stored(blocks, key, Vec::<T>::encoding(put.model())), key) == Some(
            found.model(),
        ),
    ensures
        found@.len() == put@.len(),
        forall|i: int| 0 <= i < put@.len() ==> #[trigger] found@[i].model() == put@[i].model(),
{
    law_written_is_read(blocks, key, put);
    law_vec(put);
    law_vec(found);
    assert forall|i: int| 0 <= i < put@.len() implies #[trigger] found@[i].model()
        == put@[i].model() by {
        assert(found.model()[i] == put.model()[i]);
    }
}

/// The codes of the types without parts are one number each, all different, and different
/// from the numbers that the codes of types with parts begin with.
pub proof fn law_leaf_codes<A: Wire, B: Wire, C: Wire, D: Wire, E: Wire, F: Wire, const N: usize>()
    ensures
        <()>::code().len() == 1,
        bool::code().len() == 1,
        u8::code().len() == 1,
        u16::code().len() == 1,
        u32::code().len() == 1,
        u64::code().len() == 1,
        i8::code().len() == 1,
        i16::code().len() == 1,
        i32::code().len() == 1,
        i64::code().len() == 1,
        usize::code().len() == 1,
        isize::code().len() == 1,
        u128::code().len() == 1,
        i128::code().len() == 1,
        char::code().len() == 1,
        String::code().len() == 1,
        seq![
            <()>::code()[0],
            bool::code()[0],
            u8::code()[0],
            u16::code()[0],
            u32::code()[0],
            u64::code()[0],
            i8::code()[0],
            i16::code()[0],
            i32::code()[0],
            i64::code()[0],
            usize::code()[0],
            isize::code()[0],
            u128::code()[0],
            i128::code()[0],
            char::code()[0],
            String::code()[0],
            Vec::<A>::code()[0],
            <[B; N]>::code()[0],
            Option::<C>::code()[0],
            <(D,)>::code()[0],
            <(E, F)>::code()[0],
        ].no_duplicates(),
{
}

/// Tuples of one field have one code just where their fields do.
pub proof fn law_single_code<A: Wire, B: Wire>()
    ensures
        <(A,)>::code() == <(B,)>::code() <==> A::code() == B::code(),
{
    assert(<(A,)>::code().skip(1) =~= A::code());
    assert(<(B,)>::code().skip(1) =~= B::code());
}

/// What `bincode` is taken to lay out of values, and to read, is what is encoded of them here.
pub proof fn law_laid_out(
    v0: (),
    v1: bool,
    v2: u8,
    v3: u16,
    v4: u32,
    v5: u64,
    v6: i8,
    v7: i16,
    v8: i32,
    v9: i64,
    v10: usize,
    v11: isize,
    v12: u128,
    v13: i128,
    v14: char,
    v15: String,
    source: ByteSource,
)
    ensures
        v0.content() == v0.model(),
        <() as Plain>::layout(v0.model()) == <() as Wire>::encoding(v0.model()),
        <() as Plain>::read_off(source) == <() as Wire>::parse(source),
        v1.content() == v1.model(),
        <bool as Plain>::layout(v1.model()) == <bool as Wire>::encoding(v1.model()),
        <bool as Plain>::read_off(source) == <bool as Wire>::parse(source),
        v2.content() == v2.model(),
        <u8 as Plain>::layout(v2.model()) == <u8 as Wire>::encoding(v2.model()),
        <u8 as Plain>::read_off(source) == <u8 as Wire>::parse(source),
        v3.content() == v3.model(),
        <u16 as Plain>::layout(v3.model()) == <u16 as Wire>::encoding(v3.model()),
        <u16 as Plain>::read_off(source) == <u16 as Wire>::parse(source),
        v4.content() == v4.model(),
        <u32 as Plain>::layout(v4.model()) == <u32 as Wire>::encoding(v4.model()),
        <u32 as Plain>::read_off(source) == <u32 as Wire>::parse(source),
        v5.content() == v5.model(),
        <u64 as Plain>::layout(v5.model()) == <u64 as Wire>::encoding(v5.model()),
        <u64 as Plain>::read_off(source) == <u64 as Wire>::parse(source),
        v6.content() == v6.model(),
        <i8 as Plain>::layout(v6.model()) == <i8 as Wire>::encoding(v6.model()),
        <i8 as Plain>::read_off(source) == <i8 as Wire>::parse(source),
        v7.content() == v7.model(),
        <i16 as Plain>::layout(v7.model()) == <i16 as Wire>::encoding(v7.model()),
        <i16 as Plain>::read_off(source) == <i16 as Wire>::parse(source),
        v8.content() == v8.model(),
        <i32 as Plain>::layout(v8.model()) == <i32 as Wire>::encoding(v8.model()),
        <i32 as Plain>::read_off(source) == <i32 as Wire>::parse(source),
        v9.content() == v9.model(),
        <i64 as Plain>::layout(v9.model()) == <i64 as Wire>::encoding(v9.model()),
        <i64 as Plain>::read_off(source) == <i64 as Wire>::parse(source),
        v10.content() == v10.model(),
        <usize as Plain>::layout(v10.model()) == <usize as Wire>::encoding(v10.model()),
        <usize as Plain>::read_off(source) == <usize as Wire>::parse(source),
        v11.content() == v11.model(),
        <isize as Plain>::layout(v11.model()) == <isize as Wire>::encoding(v11.model()),
        <isize as Plain>::read_off(source) == <isize as Wire>::parse(source),
        v12.content() == v12.model(),
        <u128 as Plain>::layout(v12.model()) == <u128 as Wire>::encoding(v12.model()),
        <u128 as Plain>::read_off(source) == <u128 as Wire>::parse(source),
        v13.content() == v13.model(),
        <i128 as Plain>::layout(v13.model()) == <i128 as Wire>::encoding(v13.model()),
        <i128 as Plain>::read_off(source) == <i128 as Wire>::parse(source),
        v14.content() == v14.model(),
        <char as Plain>::layout(v14.model()) == <char as Wire>::encoding(v14.model()),
        <char as Plain>::read_off(source) == <char as Wire>::parse(source),
        v15.content() == v15.model(),
        <String as Plain>::layout(v15.model()) == <String as Wire>::encoding(v15.model()),
        <String as Plain>::read_off(source) == <String as Wire>::parse(source),
{
}

} // verus!
