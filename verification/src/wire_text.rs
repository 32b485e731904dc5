//! The encodings of characters and strings.

use vstd::prelude::*;
use vstd::utf8::{
    char_u32_cast, decode_utf8, decode_utf8_encode_utf8, decode_utf8_first_scalar, encode_scalar,
    encode_utf8,
    encode_utf8_decode_utf8, encode_utf8_first_scalar, encode_utf8_valid_utf8,
    length_of_first_scalar, take_first_scalar, valid_utf8,
};

use crate::digits::{le_value, lemma_spans};
use crate::eth_state::{EthStateReader, EthStateWriter};
use crate::plain::{
    deserialize, deserialize_from, lemma_number_back, lemma_number_exact, number_encoding, number_parse, serialize,
    serialize_into, Plain,
};
use crate::source::{
    lemma_same_start, lemma_skip_skip, lemma_starts_with_both, lemma_take_both, ByteSource,
};
use crate::wire::Wire;
use crate::wire_lists::{list_parse, load_all, models};
use crate::wire_plain::{put, tail};

verus! {

pub const CODE_CHAR: u64 = 15;

pub const CODE_STRING: u64 = 16;

/// How many bytes a character has whose first byte is `first`.
fn width_from(first: u8) -> (width: usize)
    ensures
        forall|bytes: Seq<u8>|
            #![trigger length_of_first_scalar(bytes)]
            bytes[0] == first ==> width == length_of_first_scalar(bytes),
        1 <= width <= 4,
{
    if first <= 0x7f {
        1
    } else if 0xc0 <= first && first <= 0xdf {
        2
    } else if 0xe0 <= first && first <= 0xef {
        3
    } else {
        4
    }
}

impl Wire for char {
    type Model = char;

    open spec fn model(&self) -> char {
        *self
    }

    open spec fn encoding(model: char) -> Seq<u8> {
        char::layout(model)
    }

    open spec fn parse(source: ByteSource) -> Option<(char, nat)> {
        char::read_off(source)
    }

    open spec fn code() -> Seq<u64> {
        seq![CODE_CHAR]
    }

    proof fn law_code(rest: Seq<u64>) {
    }

    proof fn law_parse_within(source: ByteSource) {
    }

    proof fn law_parse_back(value: char, source: ByteSource) {
        let bytes = encode_scalar(value as u32);
        assert(encode_utf8(seq![value]) =~= bytes) by {
            reveal_with_fuel(encode_utf8, 2);
        }
        encode_utf8_first_scalar(seq![value]);
        assert(source.take(1)[0] == source.take(bytes.len())[0]);
        char_u32_cast(value, value as u32);
    }

    proof fn law_parse_exact(source: ByteSource) {
        if let Some((_, width)) = char::parse(source) {
            let bytes = source.take(width);
            assert(bytes[0] == source.take(1)[0]);
            assert(valid_utf8(bytes)) by {
                reveal_with_fuel(valid_utf8, 2);
            }
            decode_utf8_first_scalar(bytes);
            assert(take_first_scalar(bytes) =~= bytes);
        }
    }

    proof fn law_parse_local(source: ByteSource, other: ByteSource) {
        let (_, width) = char::parse(source).unwrap();
        assert(source.take(1)[0] == source.take(width)[0]);
        assert(other.take(1)[0] == other.take(width)[0]);
    }

    fn encode(&self, out: &mut Vec<u8>) {
        put(out, serialize(self));
    }

    fn decode(bytes: &[u8], at: usize) -> Option<(char, usize)> {
        let rest = tail(bytes, at);
        match deserialize::<char>(rest) {
            Ok(value) => {
                let width: usize = width_from(rest[0]);
                assert(ByteSource::of_seq(rest@).take(1)[0] == rest@[0]);
                Some((value, at + width))
            },
            Err(_) => None,
        }
    }

    fn store(&self, writer: &mut EthStateWriter) {
        let _ = serialize_into(writer, self);
    }

    fn load<'a>(reader: &mut EthStateReader<'a>) -> Option<char> {
        match deserialize_from::<char>(reader) {
            Ok(value) => Some(value),
            Err(_) => None,
        }
    }

    fn type_code() -> Vec<u64> {
        vec![CODE_CHAR]
    }
}

/// `String::from_utf8` of std: the string with these bytes, where they are UTF-8.
#[verifier::external_body]
fn string_from(bytes: Vec<u8>) -> (text: Option<String>)
    ensures
        valid_utf8(bytes@) ==> text is Some && text.unwrap()@ == decode_utf8(bytes@),
        !valid_utf8(bytes@) ==> text is None,
{
    String::from_utf8(bytes).ok()
}

/// Bytes in a row are the bytes that come first.
proof fn lemma_bytes_in_a_row(source: ByteSource, count: nat)
    requires
        source.len is None,
    ensures
        list_parse::<u8>(source, count) == Some((source.take(count), count)),
    decreases count,
{
    if count == 0 {
        assert(source.take(0) =~= Seq::empty());
    } else {
        let fewer = (count - 1) as nat;
        lemma_bytes_in_a_row(source, fewer);
        lemma_spans();
        let rest = source.skip(fewer);
        assert(rest.take(1).drop_first() =~= Seq::empty());
        assert(rest.take(1)[0] == (source.at)(fewer));
        assert(le_value(rest.take(1)) == (source.at)(fewer) as nat) by {
            reveal_with_fuel(le_value, 2);
        }
        assert(source.take(fewer).push((source.at)(fewer)) =~= source.take(count));
    }
}

/// How many bytes a string has. A `usize` counts them, so what is encoded of the string is
/// its text.
pub fn byte_count(text: &String) -> (count: usize)
    ensures
        count == encode_utf8(text@).len(),
        text.model() == text@,
{
    text.as_str().as_bytes().len()
}

impl Wire for String {
    type Model = Seq<char>;

    open spec fn model(&self) -> Seq<char> {
        self.content()
    }

    open spec fn encoding(model: Seq<char>) -> Seq<u8> {
        String::layout(model)
    }

    open spec fn parse(source: ByteSource) -> Option<(Seq<char>, nat)> {
        String::read_off(source)
    }

    open spec fn code() -> Seq<u64> {
        seq![CODE_STRING]
    }

    proof fn law_code(rest: Seq<u64>) {
    }

    proof fn law_parse_within(source: ByteSource) {
    }

    proof fn law_parse_back(value: String, source: ByteSource) {
        let bytes = encode_utf8(value.model());
        let count = bytes.len() as usize;
        assert(encode_utf8(Seq::<char>::empty()).len() == 0);
        lemma_starts_with_both(source, number_encoding(count), bytes);
        lemma_number_back(count, source);
        encode_utf8_valid_utf8(value.model());
        encode_utf8_decode_utf8(value.model());
    }

    proof fn law_parse_exact(source: ByteSource) {
        lemma_number_exact::<usize>(source);
        if let Some((count, n)) = number_parse::<usize>(source) {
            lemma_take_both(source, n, count as nat);
            if valid_utf8(source.skip(n).take(count as nat)) {
                decode_utf8_encode_utf8(source.skip(n).take(count as nat));
            }
        }
    }

    proof fn law_parse_local(source: ByteSource, other: ByteSource) {
        let (count, n) = number_parse::<usize>(source).unwrap();
        lemma_same_start(source, other, n, count as nat);
    }

    fn encode(&self, out: &mut Vec<u8>)
        ensures
            self.model() == self@,
    {
        let _ = byte_count(self);
        put(out, serialize(self));
    }

    fn decode(bytes: &[u8], at: usize) -> (found: Option<(String, usize)>)
        ensures
            found matches Some((text, _)) ==> text.model() == text@,
    {
        let rest = tail(bytes, at);
        match deserialize::<String>(rest) {
            Ok(text) => {
                let count: usize = byte_count(&text);
                proof {
                    let source = ByteSource::of_seq(rest@);
                    let (len, n) = number_parse::<usize>(source).unwrap();
                    decode_utf8_encode_utf8(source.skip(n).take(len as nat));
                }
                Some((text, at + 8 + count))
            },
            Err(_) => None,
        }
    }

    fn store(&self, writer: &mut EthStateWriter)
        ensures
            self.model() == self@,
    {
        let _ = byte_count(self);
        let _ = serialize_into(writer, self);
    }

    /// The bytes are read one by one: `bincode` would set memory aside for as many as the count
    /// says before it reads the first.
    fn load<'a>(reader: &mut EthStateReader<'a>) -> (loaded: Option<String>)
        ensures
            loaded matches Some(text) ==> text.model() == text@,
    {
        let ghost source = reader@;
        proof {
            reader.lemma_endless();
        }
        match usize::load(reader) {
            Some(count) => {
                proof {
                    lemma_bytes_in_a_row(source.skip(8), count as nat);
                    lemma_skip_skip(source, 8, count as nat);
                }
                match load_all::<u8>(reader, count) {
                    Some(bytes) => {
                        assert(models(bytes@) =~= bytes@);
                        let found = string_from(bytes);
                        proof {
                            if valid_utf8(bytes@) {
                                decode_utf8_encode_utf8(bytes@);
                                assert(bytes@.len() == count);
                            }
                        }
                        found
                    },
                    None => None,
                }
            },
            None => None,
        }
    }

    fn type_code() -> Vec<u64> {
        vec![CODE_STRING]
    }
}

} // verus!
