//! Values that travel as bytes: in requests, and in the blocks of a store.

use vstd::prelude::*;

use crate::eth_state::{EthStateReader, EthStateWriter};
use crate::source::ByteSource;

verus! {

/// First in the code of a vector type; the code of its elements follows.
pub const CODE_VEC: u64 = 32;

/// First in the code of an array type; its length and the code of its elements follow.
pub const CODE_ARRAY: u64 = 33;

/// First in the code of a tuple type with more than one field; the code of the tuple of
/// all fields but the last follows, and then the code of the last.
pub const CODE_TUPLE: u64 = 34;

/// First in the code of a tuple type with one field; the code of the field follows.
pub const CODE_SINGLE: u64 = 35;

/// First in the code of an option type; the code of its content follows.
pub const CODE_OPTION: u64 = 36;

/// How long the code is that comes first in `code`. A number that is first in no longer
/// code is a code by itself.
pub open spec fn code_len(code: Seq<u64>) -> nat
    decreases code.len(),
{
    if code.len() == 0 {
        0
    } else if code[0] == CODE_VEC || code[0] == CODE_SINGLE || code[0] == CODE_OPTION {
        1 + code_len(code.skip(1))
    } else if code[0] == CODE_ARRAY && code.len() >= 2 {
        2 + code_len(code.skip(2))
    } else if code[0] == CODE_TUPLE {
        let first = code_len(code.skip(1));
        if 1 + first <= code.len() {
            1 + first + code_len(code.skip(1 + first as int))
        } else {
            1
        }
    } else {
        1
    }
}

/// The code of the tuple type with the fields of the tuple type coded `init` and one more.
pub open spec fn tuple_code(init: Seq<u64>, last: Seq<u64>) -> Seq<u64> {
    seq![CODE_TUPLE] + init + last
}

/// A value with an encoding as bytes, from which it can be told where it ends.
///
/// `Model` is what of the value is encoded. Types with different codes are told from each
/// other; a type of one's own takes a number as its code that no other type takes.
pub trait Wire: Sized + 'static {
    type Model;

    /// What of the value is encoded.
    spec fn model(&self) -> Self::Model;

    /// The bytes of a value.
    spec fn encoding(model: Self::Model) -> Seq<u8>;

    /// The value that comes first in a source, and how many bytes it took; `None` where
    /// no value comes first.
    spec fn parse(source: ByteSource) -> Option<(Self::Model, nat)>;

    /// What the type is told from others by.
    spec fn code() -> Seq<u64>;

    /// It can be told where the code ends.
    proof fn law_code(rest: Seq<u64>)
        ensures
            code_len(Self::code() + rest) == Self::code().len(),
    ;

    /// A value takes no more bytes than there are.
    proof fn law_parse_within(source: ByteSource)
        ensures
            Self::parse(source) matches Some((_, n)) ==> source.has(n),
    ;

    /// A source that starts with the bytes of a value gives the value, and takes just
    /// these bytes.
    proof fn law_parse_back(value: Self, source: ByteSource)
        requires
            source.starts_with(Self::encoding(value.model())),
        ensures
            Self::parse(source) == Some((value.model(), Self::encoding(value.model()).len())),
    ;

    /// The bytes that a value took are the bytes of the value.
    proof fn law_parse_exact(source: ByteSource)
        ensures
            Self::parse(source) matches Some((m, n)) ==> source.take(n) == Self::encoding(m),
    ;

    /// Sources that share the bytes that a value took give the same value.
    proof fn law_parse_local(source: ByteSource, other: ByteSource)
        requires
            Self::parse(source) is Some,
            other.has(Self::parse(source).unwrap().1),
            other.take(Self::parse(source).unwrap().1) == source.take(
                Self::parse(source).unwrap().1,
            ),
        ensures
            Self::parse(other) == Self::parse(source),
    ;

    /// Puts the bytes of the value behind those in `out`.
    fn encode(&self, out: &mut Vec<u8>)
        ensures
            final(out)@ == old(out)@ + Self::encoding(self.model()),
    ;

    /// The value that comes first in `bytes` from place `at` on, and the place behind it.
    fn decode(bytes: &[u8], at: usize) -> (found: Option<(Self, usize)>)
        requires
            at <= bytes@.len(),
        ensures
            match Self::parse(ByteSource::of_seq(bytes@).skip(at as nat)) {
                Some((m, n)) => found matches Some((v, end)) && v.model() == m && end == at + n
                    && end <= bytes@.len(),
                None => found is None,
            },
    ;

    /// Hands the bytes of the value to the writer.
    fn store(&self, writer: &mut EthStateWriter)
        ensures
            final(writer)@ == old(writer)@.push_all(Self::encoding(self.model())),
    ;

    /// The value that the reader meets first. It is then behind the value.
    fn load<'a>(reader: &mut EthStateReader<'a>) -> (found: Option<Self>)
        ensures
            match Self::parse(old(reader)@) {
                Some((m, n)) => found matches Some(v) && v.model() == m && final(reader)@ == old(
                    reader,
                )@.skip(n),
                None => found is None,
            },
    ;

    /// What the type is told from others by.
    fn type_code() -> (code: Vec<u64>)
        ensures
            code@ == Self::code(),
    ;
}

/// No code is the start of another: what begins with the codes of two types begins with one
/// code.
pub proof fn law_code_prefix_free<A: Wire, B: Wire>(a_rest: Seq<u64>, b_rest: Seq<u64>)
    requires
        A::code() + a_rest == B::code() + b_rest,
    ensures
        A::code() == B::code(),
        a_rest == b_rest,
{
    A::law_code(a_rest);
    B::law_code(b_rest);
    let all = A::code() + a_rest;
    let len = A::code().len() as int;
    assert(all.take(len) =~= A::code());
    assert((B::code() + b_rest).take(len) =~= B::code());
    assert(all.skip(len) =~= a_rest);
    assert((B::code() + b_rest).skip(len) =~= b_rest);
}

/// Tuple types have one code just where they agree in the codes of the last field and of
/// the tuple of the others.
pub proof fn law_tuple_code<A: Wire, B: Wire, C: Wire, D: Wire>()
    ensures
        tuple_code(A::code(), B::code()) == tuple_code(C::code(), D::code()) <==> A::code()
            == C::code() && B::code() == D::code(),
{
    if tuple_code(A::code(), B::code()) == tuple_code(C::code(), D::code()) {
        assert(tuple_code(A::code(), B::code()).skip(1) =~= A::code() + B::code());
        assert(tuple_code(C::code(), D::code()).skip(1) =~= C::code() + D::code());
        law_code_prefix_free::<A, C>(B::code(), D::code());
    }
}

/// The code of a tuple type can be told where it ends, where those of its parts can.
pub proof fn lemma_tuple_code<A: Wire, B: Wire>(rest: Seq<u64>)
    ensures
        code_len(tuple_code(A::code(), B::code()) + rest) == tuple_code(
            A::code(),
            B::code(),
        ).len(),
{
    let all = tuple_code(A::code(), B::code()) + rest;
    A::law_code(B::code() + rest);
    B::law_code(rest);
    assert(all.skip(1) =~= A::code() + (B::code() + rest));
    assert(all.skip(1 + A::code().len() as int) =~= B::code() + rest);
}

/// A code behind a number that stands first in longer codes.
pub proof fn lemma_inner_code<T: Wire>(first: u64, rest: Seq<u64>)
    requires
        first == CODE_VEC || first == CODE_SINGLE || first == CODE_OPTION,
    ensures
        code_len(seq![first] + T::code() + rest) == 1 + T::code().len(),
{
    let all = seq![first] + T::code() + rest;
    T::law_code(rest);
    assert(all.skip(1) =~= T::code() + rest);
}

} // verus!
