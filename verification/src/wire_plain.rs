//! The encodings of the values of fixed width, which `bincode` makes and reads.

use vstd::prelude::*;

use crate::eth_state::{EthStateReader, EthStateWriter};
use crate::plain::{
    deserialize, deserialize_from, lemma_number_back, lemma_number_exact, number_encoding, number_parse, serialize,
    serialize_into,
};
use crate::source::{lemma_skip_seq, ByteSource};
use crate::wire::Wire;

verus! {

/// Puts the bytes that came out of the serialiser behind those in `out`.
pub(crate) fn put(out: &mut Vec<u8>, bytes: Result<Vec<u8>, bincode::Error>)
    requires
        bytes is Ok,
    ensures
        final(out)@ == old(out)@ + bytes->Ok_0@,
{
    match bytes {
        Ok(b) => {
            let mut b = b;
            out.append(&mut b);
        },
        Err(_) => {},
    }
}

/// The bytes from place `at` on.
pub(crate) fn tail(bytes: &[u8], at: usize) -> (rest: &[u8])
    requires
        at <= bytes@.len(),
    ensures
        at + rest@.len() == bytes@.len() <= usize::MAX,
        ByteSource::of_seq(rest@) == ByteSource::of_seq(bytes@).skip(at as nat),
{
    proof {
        lemma_skip_seq(bytes@, at as nat);
        assert(bytes@.subrange(at as int, bytes@.len() as int) =~= bytes@.skip(at as int));
    }
    vstd::slice::slice_subrange(bytes, at, bytes.len())
}

pub const CODE_UNIT: u64 = 1;

pub const CODE_BOOL: u64 = 2;

pub const CODE_U8: u64 = 3;

pub const CODE_U16: u64 = 4;

pub const CODE_U32: u64 = 5;

pub const CODE_U64: u64 = 6;

pub const CODE_I8: u64 = 7;

pub const CODE_I16: u64 = 8;

pub const CODE_I32: u64 = 9;

pub const CODE_I64: u64 = 10;

pub const CODE_USIZE: u64 = 11;

pub const CODE_ISIZE: u64 = 12;

pub const CODE_U128: u64 = 13;

pub const CODE_I128: u64 = 14;

impl Wire for () {
    type Model = ();

    open spec fn model(&self) -> () {
        *self
    }

    open spec fn encoding(model: ()) -> Seq<u8> {
        number_encoding(model)
    }

    open spec fn parse(source: ByteSource) -> Option<((), nat)> {
        number_parse(source)
    }

    open spec fn code() -> Seq<u64> {
        seq![CODE_UNIT]
    }

    proof fn law_code(rest: Seq<u64>) {
    }

    proof fn law_parse_within(source: ByteSource) {
    }

    proof fn law_parse_back(value: (), source: ByteSource) {
        lemma_number_back(value, source);
    }

    proof fn law_parse_exact(source: ByteSource) {
        lemma_number_exact::<()>(source);
    }

    proof fn law_parse_local(source: ByteSource, other: ByteSource) {
    }

    fn encode(&self, out: &mut Vec<u8>) {
        put(out, serialize(self));
    }

    fn decode(bytes: &[u8], at: usize) -> Option<((), usize)> {
        let rest = tail(bytes, at);
        match deserialize::<()>(rest) {
            Ok(value) => {
                assert(rest@.len() >= 0);
                Some((value, at + 0))
            },
            Err(_) => None,
        }
    }

    fn store(&self, writer: &mut EthStateWriter) {
        let _ = serialize_into(writer, self);
    }

    fn load<'a>(reader: &mut EthStateReader<'a>) -> Option<()> {
        match deserialize_from::<()>(reader) {
            Ok(value) => Some(value),
            Err(_) => None,
        }
    }

    fn type_code() -> Vec<u64> {
        vec![CODE_UNIT]
    }
}

impl Wire for bool {
    type Model = bool;

    open spec fn model(&self) -> bool {
        *self
    }

    open spec fn encoding(model: bool) -> Seq<u8> {
        number_encoding(model)
    }

    open spec fn parse(source: ByteSource) -> Option<(bool, nat)> {
        number_parse(source)
    }

    open spec fn code() -> Seq<u64> {
        seq![CODE_BOOL]
    }

    proof fn law_code(rest: Seq<u64>) {
    }

    proof fn law_parse_within(source: ByteSource) {
    }

    proof fn law_parse_back(value: bool, source: ByteSource) {
        lemma_number_back(value, source);
    }

    proof fn law_parse_exact(source: ByteSource) {
        lemma_number_exact::<bool>(source);
    }

    proof fn law_parse_local(source: ByteSource, other: ByteSource) {
    }

    fn encode(&self, out: &mut Vec<u8>) {
        put(out, serialize(self));
    }

    fn decode(bytes: &[u8], at: usize) -> Option<(bool, usize)> {
        let rest = tail(bytes, at);
        match deserialize::<bool>(rest) {
            Ok(value) => {
                assert(rest@.len() >= 1);
                Some((value, at + 1))
            },
            Err(_) => None,
        }
    }

    fn store(&self, writer: &mut EthStateWriter) {
        let _ = serialize_into(writer, self);
    }

    fn load<'a>(reader: &mut EthStateReader<'a>) -> Option<bool> {
        match deserialize_from::<bool>(reader) {
            Ok(value) => Some(value),
            Err(_) => None,
        }
    }

    fn type_code() -> Vec<u64> {
        vec![CODE_BOOL]
    }
}

impl Wire for u8 {
    type Model = u8;

    open spec fn model(&self) -> u8 {
        *self
    }

    open spec fn encoding(model: u8) -> Seq<u8> {
        number_encoding(model)
    }

    open spec fn parse(source: ByteSource) -> Option<(u8, nat)> {
        number_parse(source)
    }

    open spec fn code() -> Seq<u64> {
        seq![CODE_U8]
    }

    proof fn law_code(rest: Seq<u64>) {
    }

    proof fn law_parse_within(source: ByteSource) {
    }

    proof fn law_parse_back(value: u8, source: ByteSource) {
        lemma_number_back(value, source);
    }

    proof fn law_parse_exact(source: ByteSource) {
        lemma_number_exact::<u8>(source);
    }

    proof fn law_parse_local(source: ByteSource, other: ByteSource) {
    }

    fn encode(&self, out: &mut Vec<u8>) {
        put(out, serialize(self));
    }

    fn decode(bytes: &[u8], at: usize) -> Option<(u8, usize)> {
        let rest = tail(bytes, at);
        match deserialize::<u8>(rest) {
            Ok(value) => {
                assert(rest@.len() >= 1);
                Some((value, at + 1))
            },
            Err(_) => None,
        }
    }

    fn store(&self, writer: &mut EthStateWriter) {
        let _ = serialize_into(writer, self);
    }

    fn load<'a>(reader: &mut EthStateReader<'a>) -> Option<u8> {
        match deserialize_from::<u8>(reader) {
            Ok(value) => Some(value),
            Err(_) => None,
        }
    }

    fn type_code() -> Vec<u64> {
        vec![CODE_U8]
    }
}

impl Wire for u16 {
    type Model = u16;

    open spec fn model(&self) -> u16 {
        *self
    }

    open spec fn encoding(model: u16) -> Seq<u8> {
        number_encoding(model)
    }

    open spec fn parse(source: ByteSource) -> Option<(u16, nat)> {
        number_parse(source)
    }

    open spec fn code() -> Seq<u64> {
        seq![CODE_U16]
    }

    proof fn law_code(rest: Seq<u64>) {
    }

    proof fn law_parse_within(source: ByteSource) {
    }

    proof fn law_parse_back(value: u16, source: ByteSource) {
        lemma_number_back(value, source);
    }

    proof fn law_parse_exact(source: ByteSource) {
        lemma_number_exact::<u16>(source);
    }

    proof fn law_parse_local(source: ByteSource, other: ByteSource) {
    }

    fn encode(&self, out: &mut Vec<u8>) {
        put(out, serialize(self));
    }

    fn decode(bytes: &[u8], at: usize) -> Option<(u16, usize)> {
        let rest = tail(bytes, at);
        match deserialize::<u16>(rest) {
            Ok(value) => {
                assert(rest@.len() >= 2);
                Some((value, at + 2))
            },
            Err(_) => None,
        }
    }

    fn store(&self, writer: &mut EthStateWriter) {
        let _ = serialize_into(writer, self);
    }

    fn load<'a>(reader: &mut EthStateReader<'a>) -> Option<u16> {
        match deserialize_from::<u16>(reader) {
            Ok(value) => Some(value),
            Err(_) => None,
        }
    }

    fn type_code() -> Vec<u64> {
        vec![CODE_U16]
    }
}

impl Wire for u32 {
    type Model = u32;

    open spec fn model(&self) -> u32 {
        *self
    }

    open spec fn encoding(model: u32) -> Seq<u8> {
        number_encoding(model)
    }

    open spec fn parse(source: ByteSource) -> Option<(u32, nat)> {
        number_parse(source)
    }

    open spec fn code() -> Seq<u64> {
        seq![CODE_U32]
    }

    proof fn law_code(rest: Seq<u64>) {
    }

    proof fn law_parse_within(source: ByteSource) {
    }

    proof fn law_parse_back(value: u32, source: ByteSource) {
        lemma_number_back(value, source);
    }

    proof fn law_parse_exact(source: ByteSource) {
        lemma_number_exact::<u32>(source);
    }

    proof fn law_parse_local(source: ByteSource, other: ByteSource) {
    }

    fn encode(&self, out: &mut Vec<u8>) {
        put(out, serialize(self));
    }

    fn decode(bytes: &[u8], at: usize) -> Option<(u32, usize)> {
        let rest = tail(bytes, at);
        match deserialize::<u32>(rest) {
            Ok(value) => {
                assert(rest@.len() >= 4);
                Some((value, at + 4))
            },
            Err(_) => None,
        }
    }

    fn store(&self, writer: &mut EthStateWriter) {
        let _ = serialize_into(writer, self);
    }

    fn load<'a>(reader: &mut EthStateReader<'a>) -> Option<u32> {
        match deserialize_from::<u32>(reader) {
            Ok(value) => Some(value),
            Err(_) => None,
        }
    }

    fn type_code() -> Vec<u64> {
        vec![CODE_U32]
    }
}

impl Wire for u64 {
    type Model = u64;

    open spec fn model(&self) -> u64 {
        *self
    }

    open spec fn encoding(model: u64) -> Seq<u8> {
        number_encoding(model)
    }

    open spec fn parse(source: ByteSource) -> Option<(u64, nat)> {
        number_parse(source)
    }

    open spec fn code() -> Seq<u64> {
        seq![CODE_U64]
    }

    proof fn law_code(rest: Seq<u64>) {
    }

    proof fn law_parse_within(source: ByteSource) {
    }

    proof fn law_parse_back(value: u64, source: ByteSource) {
        lemma_number_back(value, source);
    }

    proof fn law_parse_exact(source: ByteSource) {
        lemma_number_exact::<u64>(source);
    }

    proof fn law_parse_local(source: ByteSource, other: ByteSource) {
    }

    fn encode(&self, out: &mut Vec<u8>) {
        put(out, serialize(self));
    }

    fn decode(bytes: &[u8], at: usize) -> Option<(u64, usize)> {
        let rest = tail(bytes, at);
        match deserialize::<u64>(rest) {
            Ok(value) => {
                assert(rest@.len() >= 8);
                Some((value, at + 8))
            },
            Err(_) => None,
        }
    }

    fn store(&self, writer: &mut EthStateWriter) {
        let _ = serialize_into(writer, self);
    }

    fn load<'a>(reader: &mut EthStateReader<'a>) -> Option<u64> {
        match deserialize_from::<u64>(reader) {
            Ok(value) => Some(value),
            Err(_) => None,
        }
    }

    fn type_code() -> Vec<u64> {
        vec![CODE_U64]
    }
}

impl Wire for i8 {
    type Model = i8;

    open spec fn model(&self) -> i8 {
        *self
    }

    open spec fn encoding(model: i8) -> Seq<u8> {
        number_encoding(model)
    }

    open spec fn parse(source: ByteSource) -> Option<(i8, nat)> {
        number_parse(source)
    }

    open spec fn code() -> Seq<u64> {
        seq![CODE_I8]
    }

    proof fn law_code(rest: Seq<u64>) {
    }

    proof fn law_parse_within(source: ByteSource) {
    }

    proof fn law_parse_back(value: i8, source: ByteSource) {
        lemma_number_back(value, source);
    }

    proof fn law_parse_exact(source: ByteSource) {
        lemma_number_exact::<i8>(source);
    }

    proof fn law_parse_local(source: ByteSource, other: ByteSource) {
    }

    fn encode(&self, out: &mut Vec<u8>) {
        put(out, serialize(self));
    }

    fn decode(bytes: &[u8], at: usize) -> Option<(i8, usize)> {
        let rest = tail(bytes, at);
        match deserialize::<i8>(rest) {
            Ok(value) => {
                assert(rest@.len() >= 1);
                Some((value, at + 1))
            },
            Err(_) => None,
        }
    }

    fn store(&self, writer: &mut EthStateWriter) {
        let _ = serialize_into(writer, self);
    }

    fn load<'a>(reader: &mut EthStateReader<'a>) -> Option<i8> {
        match deserialize_from::<i8>(reader) {
            Ok(value) => Some(value),
            Err(_) => None,
        }
    }

    fn type_code() -> Vec<u64> {
        vec![CODE_I8]
    }
}

impl Wire for i16 {
    type Model = i16;

    open spec fn model(&self) -> i16 {
        *self
    }

    open spec fn encoding(model: i16) -> Seq<u8> {
        number_encoding(model)
    }

    open spec fn parse(source: ByteSource) -> Option<(i16, nat)> {
        number_parse(source)
    }

    open spec fn code() -> Seq<u64> {
        seq![CODE_I16]
    }

    proof fn law_code(rest: Seq<u64>) {
    }

    proof fn law_parse_within(source: ByteSource) {
    }

    proof fn law_parse_back(value: i16, source: ByteSource) {
        lemma_number_back(value, source);
    }

    proof fn law_parse_exact(source: ByteSource) {
        lemma_number_exact::<i16>(source);
    }

    proof fn law_parse_local(source: ByteSource, other: ByteSource) {
    }

    fn encode(&self, out: &mut Vec<u8>) {
        put(out, serialize(self));
    }

    fn decode(bytes: &[u8], at: usize) -> Option<(i16, usize)> {
        let rest = tail(bytes, at);
        match deserialize::<i16>(rest) {
            Ok(value) => {
                assert(rest@.len() >= 2);
                Some((value, at + 2))
            },
            Err(_) => None,
        }
    }

    fn store(&self, writer: &mut EthStateWriter) {
        let _ = serialize_into(writer, self);
    }

    fn load<'a>(reader: &mut EthStateReader<'a>) -> Option<i16> {
        match deserialize_from::<i16>(reader) {
            Ok(value) => Some(value),
            Err(_) => None,
        }
    }

    fn type_code() -> Vec<u64> {
        vec![CODE_I16]
    }
}

impl Wire for i32 {
    type Model = i32;

    open spec fn model(&self) -> i32 {
        *self
    }

    open spec fn encoding(model: i32) -> Seq<u8> {
        number_encoding(model)
    }

    open spec fn parse(source: ByteSource) -> Option<(i32, nat)> {
        number_parse(source)
    }

    open spec fn code() -> Seq<u64> {
        seq![CODE_I32]
    }

    proof fn law_code(rest: Seq<u64>) {
    }

    proof fn law_parse_within(source: ByteSource) {
    }

    proof fn law_parse_back(value: i32, source: ByteSource) {
        lemma_number_back(value, source);
    }

    proof fn law_parse_exact(source: ByteSource) {
        lemma_number_exact::<i32>(source);
    }

    proof fn law_parse_local(source: ByteSource, other: ByteSource) {
    }

    fn encode(&self, out: &mut Vec<u8>) {
        put(out, serialize(self));
    }

    fn decode(bytes: &[u8], at: usize) -> Option<(i32, usize)> {
        let rest = tail(bytes, at);
        match deserialize::<i32>(rest) {
            Ok(value) => {
                assert(rest@.len() >= 4);
                Some((value, at + 4))
            },
            Err(_) => None,
        }
    }

    fn store(&self, writer: &mut EthStateWriter) {
        let _ = serialize_into(writer, self);
    }

    fn load<'a>(reader: &mut EthStateReader<'a>) -> Option<i32> {
        match deserialize_from::<i32>(reader) {
            Ok(value) => Some(value),
            Err(_) => None,
        }
    }

    fn type_code() -> Vec<u64> {
        vec![CODE_I32]
    }
}

impl Wire for i64 {
    type Model = i64;

    open spec fn model(&self) -> i64 {
        *self
    }

    open spec fn encoding(model: i64) -> Seq<u8> {
        number_encoding(model)
    }

    open spec fn parse(source: ByteSource) -> Option<(i64, nat)> {
        number_parse(source)
    }

    open spec fn code() -> Seq<u64> {
        seq![CODE_I64]
    }

    proof fn law_code(rest: Seq<u64>) {
    }

    proof fn law_parse_within(source: ByteSource) {
    }

    proof fn law_parse_back(value: i64, source: ByteSource) {
        lemma_number_back(value, source);
    }

    proof fn law_parse_exact(source: ByteSource) {
        lemma_number_exact::<i64>(source);
    }

    proof fn law_parse_local(source: ByteSource, other: ByteSource) {
    }

    fn encode(&self, out: &mut Vec<u8>) {
        put(out, serialize(self));
    }

    fn decode(bytes: &[u8], at: usize) -> Option<(i64, usize)> {
        let rest = tail(bytes, at);
        match deserialize::<i64>(rest) {
            Ok(value) => {
                assert(rest@.len() >= 8);
                Some((value, at + 8))
            },
            Err(_) => None,
        }
    }

    fn store(&self, writer: &mut EthStateWriter) {
        let _ = serialize_into(writer, self);
    }

    fn load<'a>(reader: &mut EthStateReader<'a>) -> Option<i64> {
        match deserialize_from::<i64>(reader) {
            Ok(value) => Some(value),
            Err(_) => None,
        }
    }

    fn type_code() -> Vec<u64> {
        vec![CODE_I64]
    }
}

impl Wire for usize {
    type Model = usize;

    open spec fn model(&self) -> usize {
        *self
    }

    open spec fn encoding(model: usize) -> Seq<u8> {
        number_encoding(model)
    }

    open spec fn parse(source: ByteSource) -> Option<(usize, nat)> {
        number_parse(source)
    }

    open spec fn code() -> Seq<u64> {
        seq![CODE_USIZE]
    }

    proof fn law_code(rest: Seq<u64>) {
    }

    proof fn law_parse_within(source: ByteSource) {
    }

    proof fn law_parse_back(value: usize, source: ByteSource) {
        lemma_number_back(value, source);
    }

    proof fn law_parse_exact(source: ByteSource) {
        lemma_number_exact::<usize>(source);
    }

    proof fn law_parse_local(source: ByteSource, other: ByteSource) {
    }

    fn encode(&self, out: &mut Vec<u8>) {
        put(out, serialize(self));
    }

    fn decode(bytes: &[u8], at: usize) -> Option<(usize, usize)> {
        let rest = tail(bytes, at);
        match deserialize::<usize>(rest) {
            Ok(value) => {
                assert(rest@.len() >= 8);
                Some((value, at + 8))
            },
            Err(_) => None,
        }
    }

    fn store(&self, writer: &mut EthStateWriter) {
        let _ = serialize_into(writer, self);
    }

    fn load<'a>(reader: &mut EthStateReader<'a>) -> Option<usize> {
        match deserialize_from::<usize>(reader) {
            Ok(value) => Some(value),
            Err(_) => None,
        }
    }

    fn type_code() -> Vec<u64> {
        vec![CODE_USIZE]
    }
}

impl Wire for isize {
    type Model = isize;

    open spec fn model(&self) -> isize {
        *self
    }

    open spec fn encoding(model: isize) -> Seq<u8> {
        number_encoding(model)
    }

    open spec fn parse(source: ByteSource) -> Option<(isize, nat)> {
        number_parse(source)
    }

    open spec fn code() -> Seq<u64> {
        seq![CODE_ISIZE]
    }

    proof fn law_code(rest: Seq<u64>) {
    }

    proof fn law_parse_within(source: ByteSource) {
    }

    proof fn law_parse_back(value: isize, source: ByteSource) {
        lemma_number_back(value, source);
    }

    proof fn law_parse_exact(source: ByteSource) {
        lemma_number_exact::<isize>(source);
    }

    proof fn law_parse_local(source: ByteSource, other: ByteSource) {
    }

    fn encode(&self, out: &mut Vec<u8>) {
        put(out, serialize(self));
    }

    fn decode(bytes: &[u8], at: usize) -> Option<(isize, usize)> {
        let rest = tail(bytes, at);
        match deserialize::<isize>(rest) {
            Ok(value) => {
                assert(rest@.len() >= 8);
                Some((value, at + 8))
            },
            Err(_) => None,
        }
    }

    fn store(&self, writer: &mut EthStateWriter) {
        let _ = serialize_into(writer, self);
    }

    fn load<'a>(reader: &mut EthStateReader<'a>) -> Option<isize> {
        match deserialize_from::<isize>(reader) {
            Ok(value) => Some(value),
            Err(_) => None,
        }
    }

    fn type_code() -> Vec<u64> {
        vec![CODE_ISIZE]
    }
}

impl Wire for u128 {
    type Model = u128;

    open spec fn model(&self) -> u128 {
        *self
    }

    open spec fn encoding(model: u128) -> Seq<u8> {
        number_encoding(model)
    }

    open spec fn parse(source: ByteSource) -> Option<(u128, nat)> {
        number_parse(source)
    }

    open spec fn code() -> Seq<u64> {
        seq![CODE_U128]
    }

    proof fn law_code(rest: Seq<u64>) {
    }

    proof fn law_parse_within(source: ByteSource) {
    }

    proof fn law_parse_back(value: u128, source: ByteSource) {
        lemma_number_back(value, source);
    }

    proof fn law_parse_exact(source: ByteSource) {
        lemma_number_exact::<u128>(source);
    }

    proof fn law_parse_local(source: ByteSource, other: ByteSource) {
    }

    fn encode(&self, out: &mut Vec<u8>) {
        put(out, serialize(self));
    }

    fn decode(bytes: &[u8], at: usize) -> Option<(u128, usize)> {
        let rest = tail(bytes, at);
        match deserialize::<u128>(rest) {
            Ok(value) => {
                assert(rest@.len() >= 16);
                Some((value, at + 16))
            },
            Err(_) => None,
        }
    }

    fn store(&self, writer: &mut EthStateWriter) {
        let _ = serialize_into(writer, self);
    }

    fn load<'a>(reader: &mut EthStateReader<'a>) -> Option<u128> {
        match deserialize_from::<u128>(reader) {
            Ok(value) => Some(value),
            Err(_) => None,
        }
    }

    fn type_code() -> Vec<u64> {
        vec![CODE_U128]
    }
}

impl Wire for i128 {
    type Model = i128;

    open spec fn model(&self) -> i128 {
        *self
    }

    open spec fn encoding(model: i128) -> Seq<u8> {
        number_encoding(model)
    }

    open spec fn parse(source: ByteSource) -> Option<(i128, nat)> {
        number_parse(source)
    }

    open spec fn code() -> Seq<u64> {
        seq![CODE_I128]
    }

    proof fn law_code(rest: Seq<u64>) {
    }

    proof fn law_parse_within(source: ByteSource) {
    }

    proof fn law_parse_back(value: i128, source: ByteSource) {
        lemma_number_back(value, source);
    }

    proof fn law_parse_exact(source: ByteSource) {
        lemma_number_exact::<i128>(source);
    }

    proof fn law_parse_local(source: ByteSource, other: ByteSource) {
    }

    fn encode(&self, out: &mut Vec<u8>) {
        put(out, serialize(self));
    }

    fn decode(bytes: &[u8], at: usize) -> Option<(i128, usize)> {
        let rest = tail(bytes, at);
        match deserialize::<i128>(rest) {
            Ok(value) => {
                assert(rest@.len() >= 16);
                Some((value, at + 16))
            },
            Err(_) => None,
        }
    }

    fn store(&self, writer: &mut EthStateWriter) {
        let _ = serialize_into(writer, self);
    }

    fn load<'a>(reader: &mut EthStateReader<'a>) -> Option<i128> {
        match deserialize_from::<i128>(reader) {
            Ok(value) => Some(value),
            Err(_) => None,
        }
    }

    fn type_code() -> Vec<u64> {
        vec![CODE_I128]
    }
}

} // verus!
