//! The values whose bytes `bincode` lays out and reads in one piece.

use vstd::prelude::*;
use vstd::utf8::{
    decode_first_scalar, decode_utf8, encode_scalar, encode_utf8, length_of_first_scalar,
    valid_first_scalar, valid_utf8,
};

use crate::digits::{
    le_bytes, le_value, lemma_bytes_of_value, lemma_le_value_bound, lemma_spans,
    lemma_value_of_bytes, span,
};
use crate::eth_state::{EthStateReader, EthStateWriter};
use crate::seal::Sealed;
use crate::source::ByteSource;

verus! {

/// A value that stands for a number of fixed width.
pub trait Number: Sized {
    /// How many bytes the number takes.
    spec fn width() -> nat;

    /// The number that stands for the value.
    spec fn number(self) -> nat;

    /// The value that a number stands for, if it stands for one.
    spec fn from_number(n: nat) -> Option<Self>;

    /// The number of a value fits its width, and stands for the value.
    proof fn lemma_number(self)
        ensures
            self.number() < span(Self::width()),
            Self::from_number(self.number()) == Some(self),
    ;

    /// A value that a number stands for has that number.
    proof fn lemma_from_number(n: nat)
        requires
            n < span(Self::width()),
        ensures
            Self::from_number(n) matches Some(value) ==> value.number() == n,
    ;
}

/// The little-endian bytes of a number.
pub open spec fn number_encoding<T: Number>(value: T) -> Seq<u8> {
    le_bytes(value.number(), T::width())
}

/// The number that comes first in a source, and how many bytes it took.
pub open spec fn number_parse<T: Number>(source: ByteSource) -> Option<(T, nat)> {
    if source.has(T::width()) {
        match T::from_number(le_value(source.take(T::width()))) {
            Some(value) => Some((value, T::width())),
            None => None,
        }
    } else {
        None
    }
}

/// A source that starts with the bytes of a number gives the number.
pub proof fn lemma_number_back<T: Number>(value: T, source: ByteSource)
    requires
        source.starts_with(number_encoding(value)),
    ensures
        number_parse::<T>(source) == Some((value, number_encoding(value).len())),
{
    value.lemma_number();
    lemma_value_of_bytes(value.number(), T::width());
}

/// The bytes that a number was read from are its bytes.
pub proof fn lemma_number_exact<T: Number>(source: ByteSource)
    ensures
        number_parse::<T>(source) matches Some((value, n)) ==> source.take(n) == number_encoding(
            value,
        ) && n == T::width(),
{
    let bytes = source.take(T::width());
    lemma_le_value_bound(bytes);
    lemma_bytes_of_value(bytes);
    T::lemma_from_number(le_value(bytes));
}

/// A value that `bincode` lays out and reads in one piece.
pub trait Plain: Sealed + Sized {
    type Content;

    /// What of the value is laid out.
    spec fn content(&self) -> Self::Content;

    /// Its bytes.
    spec fn layout(content: Self::Content) -> Seq<u8>;

    /// The value that comes first in a source, and how many bytes it took; `None` where
    /// no value comes first.
    spec fn read_off(source: ByteSource) -> Option<(Self::Content, nat)>;
}

/// A plain value of which a few bytes are read at most.
pub trait Streamed: Plain {

}

/// The errors of `bincode`. Only that there is one is looked at.
#[verifier::external_type_specification]
#[verifier::external_body]
pub struct ExErrorKind(bincode::ErrorKind);

/// `bincode::serialize`: the bytes of the value, and no error, since nothing limits the
/// size of the output.
#[verifier::external_body]
pub(crate) fn serialize<T: Plain + serde::Serialize>(
    value: &T,
) -> (bytes: Result<Vec<u8>, bincode::Error>)
    ensures
        bytes is Ok && bytes->Ok_0@ == T::layout(value.content()),
{
    bincode::serialize(value)
}

/// `bincode::deserialize`: the value whose bytes come first in `bytes`. What follows them
/// is let pass, and the error comes where they are too few or stand for no value.
#[verifier::external_body]
pub(crate) fn deserialize<T: Plain + serde::de::DeserializeOwned>(
    bytes: &[u8],
) -> (value: Result<T, bincode::Error>)
    ensures
        match T::read_off(ByteSource::of_seq(bytes@)) {
            Some((content, _)) => value is Ok && value->Ok_0.content() == content,
            None => value is Err,
        },
{
    bincode::deserialize(bytes)
}

/// `bincode::serialize_into`: hands the bytes of the value to the writer, which takes
/// them all, so that no error comes.
#[verifier::external_body]
pub(crate) fn serialize_into<T: Plain + serde::Serialize>(
    writer: &mut EthStateWriter,
    value: &T,
) -> (done: Result<(), bincode::Error>)
    ensures
        done is Ok,
        final(writer)@ == old(writer)@.push_all(T::layout(value.content())),
{
    bincode::serialize_into(writer, value)
}

/// `bincode::deserialize_from`: the value that the reader meets first, which is then
/// behind its bytes, or an error where it meets none.
#[verifier::external_body]
pub(crate) fn deserialize_from<'a, T: Streamed + serde::de::DeserializeOwned>(
    reader: &mut EthStateReader<'a>,
) -> (value: Result<T, bincode::Error>)
    ensures
        match T::read_off(old(reader)@) {
            Some((content, n)) => {
                &&& value is Ok && value->Ok_0.content() == content
                &&& final(reader)@ == old(reader)@.skip(n)
            },
            None => value is Err,
        },
{
    bincode::deserialize_from(reader)
}

impl Number for () {
    open spec fn width() -> nat {
        0
    }

    open spec fn number(self) -> nat {
        0
    }

    open spec fn from_number(n: nat) -> Option<()> {
        Some(())
    }

    proof fn lemma_number(self) {
        lemma_spans();
    }

    proof fn lemma_from_number(n: nat) {
        lemma_spans();
    }
}

impl Number for bool {
    open spec fn width() -> nat {
        1
    }

    open spec fn number(self) -> nat {
        if self {
            1
        } else {
            0
        }
    }

    /// Numbers above 1 stand for no value.
    open spec fn from_number(n: nat) -> Option<bool> {
        if n == 0 {
            Some(false)
        } else if n == 1 {
            Some(true)
        } else {
            None
        }
    }

    proof fn lemma_number(self) {
        lemma_spans();
    }

    proof fn lemma_from_number(n: nat) {
        lemma_spans();
    }
}

impl Number for u8 {
    open spec fn width() -> nat {
        1
    }

    open spec fn number(self) -> nat {
        self as nat
    }

    open spec fn from_number(n: nat) -> Option<u8> {
        if n < 0x100 {
            Some(n as u8)
        } else {
            None
        }
    }

    proof fn lemma_number(self) {
        lemma_spans();
    }

    proof fn lemma_from_number(n: nat) {
        lemma_spans();
    }
}

impl Number for u16 {
    open spec fn width() -> nat {
        2
    }

    open spec fn number(self) -> nat {
        self as nat
    }

    open spec fn from_number(n: nat) -> Option<u16> {
        if n < 0x1_0000 {
            Some(n as u16)
        } else {
            None
        }
    }

    proof fn lemma_number(self) {
        lemma_spans();
    }

    proof fn lemma_from_number(n: nat) {
        lemma_spans();
    }
}

impl Number for u32 {
    open spec fn width() -> nat {
        4
    }

    open spec fn number(self) -> nat {
        self as nat
    }

    open spec fn from_number(n: nat) -> Option<u32> {
        if n < 0x1_0000_0000 {
            Some(n as u32)
        } else {
            None
        }
    }

    proof fn lemma_number(self) {
        lemma_spans();
    }

    proof fn lemma_from_number(n: nat) {
        lemma_spans();
    }
}

impl Number for u64 {
    open spec fn width() -> nat {
        8
    }

    open spec fn number(self) -> nat {
        self as nat
    }

    open spec fn from_number(n: nat) -> Option<u64> {
        if n < 0x1_0000_0000_0000_0000 {
            Some(n as u64)
        } else {
            None
        }
    }

    proof fn lemma_number(self) {
        lemma_spans();
    }

    proof fn lemma_from_number(n: nat) {
        lemma_spans();
    }
}

impl Number for i8 {
    open spec fn width() -> nat {
        1
    }

    /// Two's complement.
    open spec fn number(self) -> nat {
        if self < 0 {
            (self + 0x100) as nat
        } else {
            self as nat
        }
    }

    open spec fn from_number(n: nat) -> Option<i8> {
        if n < 0x80 {
            Some(n as i8)
        } else if n < 0x100 {
            Some((n - 0x100) as i8)
        } else {
            None
        }
    }

    proof fn lemma_number(self) {
        lemma_spans();
    }

    proof fn lemma_from_number(n: nat) {
        lemma_spans();
    }
}

impl Number for i16 {
    open spec fn width() -> nat {
        2
    }

    /// Two's complement.
    open spec fn number(self) -> nat {
        if self < 0 {
            (self + 0x1_0000) as nat
        } else {
            self as nat
        }
    }

    open spec fn from_number(n: nat) -> Option<i16> {
        if n < 0x8000 {
            Some(n as i16)
        } else if n < 0x1_0000 {
            Some((n - 0x1_0000) as i16)
        } else {
            None
        }
    }

    proof fn lemma_number(self) {
        lemma_spans();
    }

    proof fn lemma_from_number(n: nat) {
        lemma_spans();
    }
}

impl Number for i32 {
    open spec fn width() -> nat {
        4
    }

    /// Two's complement.
    open spec fn number(self) -> nat {
        if self < 0 {
            (self + 0x1_0000_0000) as nat
        } else {
            self as nat
        }
    }

    open spec fn from_number(n: nat) -> Option<i32> {
        if n < 0x8000_0000 {
            Some(n as i32)
        } else if n < 0x1_0000_0000 {
            Some((n - 0x1_0000_0000) as i32)
        } else {
            None
        }
    }

    proof fn lemma_number(self) {
        lemma_spans();
    }

    proof fn lemma_from_number(n: nat) {
        lemma_spans();
    }
}

impl Number for i64 {
    open spec fn width() -> nat {
        8
    }

    /// Two's complement.
    open spec fn number(self) -> nat {
        if self < 0 {
            (self + 0x1_0000_0000_0000_0000) as nat
        } else {
            self as nat
        }
    }

    open spec fn from_number(n: nat) -> Option<i64> {
        if n < 0x8000_0000_0000_0000 {
            Some(n as i64)
        } else if n < 0x1_0000_0000_0000_0000 {
            Some((n - 0x1_0000_0000_0000_0000) as i64)
        } else {
            None
        }
    }

    proof fn lemma_number(self) {
        lemma_spans();
    }

    proof fn lemma_from_number(n: nat) {
        lemma_spans();
    }
}

impl Number for u128 {
    open spec fn width() -> nat {
        16
    }

    open spec fn number(self) -> nat {
        self as nat
    }

    open spec fn from_number(n: nat) -> Option<u128> {
        if n < 0x1_0000_0000_0000_0000_0000_0000_0000_0000int {
            Some(n as u128)
        } else {
            None
        }
    }

    proof fn lemma_number(self) {
        lemma_spans();
    }

    proof fn lemma_from_number(n: nat) {
        lemma_spans();
    }
}

impl Number for i128 {
    open spec fn width() -> nat {
        16
    }

    /// Two's complement.
    open spec fn number(self) -> nat {
        if self < 0 {
            (self + 0x1_0000_0000_0000_0000_0000_0000_0000_0000int) as nat
        } else {
            self as nat
        }
    }

    open spec fn from_number(n: nat) -> Option<i128> {
        if n < 0x8000_0000_0000_0000_0000_0000_0000_0000int {
            Some(n as i128)
        } else if n < 0x1_0000_0000_0000_0000_0000_0000_0000_0000int {
            Some((n - 0x1_0000_0000_0000_0000_0000_0000_0000_0000int) as i128)
        } else {
            None
        }
    }

    proof fn lemma_number(self) {
        lemma_spans();
    }

    proof fn lemma_from_number(n: nat) {
        lemma_spans();
    }
}

impl Number for usize {
    /// Eight bytes on every machine.
    open spec fn width() -> nat {
        8
    }

    open spec fn number(self) -> nat {
        self as nat
    }

    /// Numbers that the machine's `usize` does not hold stand for no value.
    open spec fn from_number(n: nat) -> Option<usize> {
        if n <= usize::MAX {
            Some(n as usize)
        } else {
            None
        }
    }

    proof fn lemma_number(self) {
        lemma_spans();
    }

    proof fn lemma_from_number(n: nat) {
        lemma_spans();
    }
}

impl Number for isize {
    /// Eight bytes on every machine.
    open spec fn width() -> nat {
        8
    }

    /// Two's complement.
    open spec fn number(self) -> nat {
        if self < 0 {
            (self + 0x1_0000_0000_0000_0000) as nat
        } else {
            self as nat
        }
    }

    /// Numbers that the machine's `isize` does not hold stand for no value.
    open spec fn from_number(n: nat) -> Option<isize> {
        if n < 0x8000_0000_0000_0000 && n <= isize::MAX {
            Some(n as isize)
        } else if 0x8000_0000_0000_0000 <= n < 0x1_0000_0000_0000_0000 && n
            - 0x1_0000_0000_0000_0000 >= isize::MIN {
            Some((n - 0x1_0000_0000_0000_0000) as isize)
        } else {
            None
        }
    }

    proof fn lemma_number(self) {
        lemma_spans();
    }

    proof fn lemma_from_number(n: nat) {
        lemma_spans();
    }
}

impl Sealed for () {

}

impl Plain for () {
    type Content = ();

    open spec fn content(&self) -> () {
        *self
    }

    open spec fn layout(content: ()) -> Seq<u8> {
        number_encoding(content)
    }

    open spec fn read_off(source: ByteSource) -> Option<((), nat)> {
        number_parse(source)
    }
}

impl Streamed for () {

}

impl Sealed for bool {

}

impl Plain for bool {
    type Content = bool;

    open spec fn content(&self) -> bool {
        *self
    }

    open spec fn layout(content: bool) -> Seq<u8> {
        number_encoding(content)
    }

    open spec fn read_off(source: ByteSource) -> Option<(bool, nat)> {
        number_parse(source)
    }
}

impl Streamed for bool {

}

impl Sealed for u8 {

}

impl Plain for u8 {
    type Content = u8;

    open spec fn content(&self) -> u8 {
        *self
    }

    open spec fn layout(content: u8) -> Seq<u8> {
        number_encoding(content)
    }

    open spec fn read_off(source: ByteSource) -> Option<(u8, nat)> {
        number_parse(source)
    }
}

impl Streamed for u8 {

}

impl Sealed for u16 {

}

impl Plain for u16 {
    type Content = u16;

    open spec fn content(&self) -> u16 {
        *self
    }

    open spec fn layout(content: u16) -> Seq<u8> {
        number_encoding(content)
    }

    open spec fn read_off(source: ByteSource) -> Option<(u16, nat)> {
        number_parse(source)
    }
}

impl Streamed for u16 {

}

impl Sealed for u32 {

}

impl Plain for u32 {
    type Content = u32;

    open spec fn content(&self) -> u32 {
        *self
    }

    open spec fn layout(content: u32) -> Seq<u8> {
        number_encoding(content)
    }

    open spec fn read_off(source: ByteSource) -> Option<(u32, nat)> {
        number_parse(source)
    }
}

impl Streamed for u32 {

}

impl Sealed for u64 {

}

impl Plain for u64 {
    type Content = u64;

    open spec fn content(&self) -> u64 {
        *self
    }

    open spec fn layout(content: u64) -> Seq<u8> {
        number_encoding(content)
    }

    open spec fn read_off(source: ByteSource) -> Option<(u64, nat)> {
        number_parse(source)
    }
}

impl Streamed for u64 {

}

impl Sealed for i8 {

}

impl Plain for i8 {
    type Content = i8;

    open spec fn content(&self) -> i8 {
        *self
    }

    open spec fn layout(content: i8) -> Seq<u8> {
        number_encoding(content)
    }

    open spec fn read_off(source: ByteSource) -> Option<(i8, nat)> {
        number_parse(source)
    }
}

impl Streamed for i8 {

}

impl Sealed for i16 {

}

impl Plain for i16 {
    type Content = i16;

    open spec fn content(&self) -> i16 {
        *self
    }

    open spec fn layout(content: i16) -> Seq<u8> {
        number_encoding(content)
    }

    open spec fn read_off(source: ByteSource) -> Option<(i16, nat)> {
        number_parse(source)
    }
}

impl Streamed for i16 {

}

impl Sealed for i32 {

}

impl Plain for i32 {
    type Content = i32;

    open spec fn content(&self) -> i32 {
        *self
    }

    open spec fn layout(content: i32) -> Seq<u8> {
        number_encoding(content)
    }

    open spec fn read_off(source: ByteSource) -> Option<(i32, nat)> {
        number_parse(source)
    }
}

impl Streamed for i32 {

}

impl Sealed for i64 {

}

impl Plain for i64 {
    type Content = i64;

    open spec fn content(&self) -> i64 {
        *self
    }

    open spec fn layout(content: i64) -> Seq<u8> {
        number_encoding(content)
    }

    open spec fn read_off(source: ByteSource) -> Option<(i64, nat)> {
        number_parse(source)
    }
}

impl Streamed for i64 {

}

impl Sealed for u128 {

}

impl Plain for u128 {
    type Content = u128;

    open spec fn content(&self) -> u128 {
        *self
    }

    open spec fn layout(content: u128) -> Seq<u8> {
        number_encoding(content)
    }

    open spec fn read_off(source: ByteSource) -> Option<(u128, nat)> {
        number_parse(source)
    }
}

impl Streamed for u128 {

}

impl Sealed for i128 {

}

impl Plain for i128 {
    type Content = i128;

    open spec fn content(&self) -> i128 {
        *self
    }

    open spec fn layout(content: i128) -> Seq<u8> {
        number_encoding(content)
    }

    open spec fn read_off(source: ByteSource) -> Option<(i128, nat)> {
        number_parse(source)
    }
}

impl Streamed for i128 {

}

impl Sealed for usize {

}

impl Plain for usize {
    type Content = usize;

    open spec fn content(&self) -> usize {
        *self
    }

    open spec fn layout(content: usize) -> Seq<u8> {
        number_encoding(content)
    }

    open spec fn read_off(source: ByteSource) -> Option<(usize, nat)> {
        number_parse(source)
    }
}

impl Streamed for usize {

}

impl Sealed for isize {

}

impl Plain for isize {
    type Content = isize;

    open spec fn content(&self) -> isize {
        *self
    }

    open spec fn layout(content: isize) -> Seq<u8> {
        number_encoding(content)
    }

    open spec fn read_off(source: ByteSource) -> Option<(isize, nat)> {
        number_parse(source)
    }
}

impl Streamed for isize {

}

impl Sealed for char {

}

impl Plain for char {
    type Content = char;

    open spec fn content(&self) -> char {
        *self
    }

    /// The bytes of the character in UTF-8.
    open spec fn layout(content: char) -> Seq<u8> {
        encode_scalar(content as u32)
    }

    /// The first byte tells how many there are.
    open spec fn read_off(source: ByteSource) -> Option<(char, nat)> {
        let width = length_of_first_scalar(source.take(1)) as nat;
        if source.has(1) && source.has(width) && valid_first_scalar(source.take(width)) {
            Some((decode_first_scalar(source.take(width)) as char, width))
        } else {
            None
        }
    }
}

impl Streamed for char {

}

impl Sealed for String {

}

impl Plain for String {
    type Content = Seq<char>;

    /// The characters. No string has more bytes than a `usize` counts.
    open spec fn content(&self) -> Seq<char> {
        if encode_utf8(self@).len() <= usize::MAX {
            self@
        } else {
            Seq::empty()
        }
    }

    /// The number of bytes in UTF-8, and then the bytes.
    open spec fn layout(content: Seq<char>) -> Seq<u8> {
        let bytes = encode_utf8(content);
        number_encoding(bytes.len() as usize) + bytes
    }

    open spec fn read_off(source: ByteSource) -> Option<(Seq<char>, nat)> {
        match number_parse::<usize>(source) {
            Some((count, n)) => {
                let bytes = source.skip(n).take(count as nat);
                if source.skip(n).has(count as nat) && valid_utf8(bytes) {
                    Some((decode_utf8(bytes), n + count as nat))
                } else {
                    None
                }
            },
            None => None,
        }
    }
}

} // verus!
