//! The encodings of values that may be missing.

use vstd::prelude::*;

use crate::eth_state::{lemma_push_all_add, EthStateReader, EthStateWriter};
use crate::source::{
    lemma_same_start, lemma_skip_skip, lemma_starts_with_both, lemma_take_both, ByteSource,
};
use crate::wire::{lemma_inner_code, Wire, CODE_OPTION};

verus! {

impl<T: Wire> Wire for Option<T> {
    type Model = Option<T::Model>;

    open spec fn model(&self) -> Option<T::Model> {
        match *self {
            Some(value) => Some(value.model()),
            None => None,
        }
    }

    /// A zero, or a one and then the value.
    open spec fn encoding(model: Option<T::Model>) -> Seq<u8> {
        match model {
            Some(m) => u8::encoding(1) + T::encoding(m),
            None => u8::encoding(0),
        }
    }

    /// Another first byte starts no value.
    open spec fn parse(source: ByteSource) -> Option<(Option<T::Model>, nat)> {
        match u8::parse(source) {
            Some((tag, n)) => if tag == 0 {
                Some((None, n))
            } else if tag == 1 {
                match T::parse(source.skip(n)) {
                    Some((m, k)) => Some((Some(m), n + k)),
                    None => None,
                }
            } else {
                None
            },
            None => None,
        }
    }

    open spec fn code() -> Seq<u64> {
        seq![CODE_OPTION] + T::code()
    }

    proof fn law_code(rest: Seq<u64>) {
        lemma_inner_code::<T>(CODE_OPTION, rest);
    }

    proof fn law_parse_within(source: ByteSource) {
        u8::law_parse_within(source);
        if let Some((_, n)) = u8::parse(source) {
            T::law_parse_within(source.skip(n));
        }
    }

    proof fn law_parse_back(value: Option<T>, source: ByteSource) {
        match value {
            Some(v) => {
                lemma_starts_with_both(source, u8::encoding(1), T::encoding(v.model()));
                u8::law_parse_back(1, source);
                T::law_parse_back(v, source.skip(u8::encoding(1).len()));
            },
            None => {
                u8::law_parse_back(0, source);
            },
        }
    }

    proof fn law_parse_exact(source: ByteSource) {
        u8::law_parse_exact(source);
        if let Some((_, n)) = u8::parse(source) {
            T::law_parse_exact(source.skip(n));
            if let Some((_, k)) = T::parse(source.skip(n)) {
                lemma_take_both(source, n, k);
            }
        }
    }

    proof fn law_parse_local(source: ByteSource, other: ByteSource) {
        let (tag, n) = u8::parse(source).unwrap();
        if tag == 1 {
            let (_, k) = T::parse(source.skip(n)).unwrap();
            lemma_same_start(source, other, n, k);
            u8::law_parse_local(source, other);
            T::law_parse_local(source.skip(n), other.skip(n));
        } else {
            u8::law_parse_local(source, other);
        }
    }

    fn encode(&self, out: &mut Vec<u8>) {
        let ghost before = out@;
        match self {
            Some(value) => {
                1u8.encode(out);
                value.encode(out);
            },
            None => {
                0u8.encode(out);
            },
        }
        assert(out@ =~= before + Self::encoding(self.model()));
    }

    fn decode(bytes: &[u8], at: usize) -> Option<(Option<T>, usize)> {
        proof {
            let all = ByteSource::of_seq(bytes@);
            if let Some((_, n)) = u8::parse(all.skip(at as nat)) {
                u8::law_parse_within(all.skip(at as nat));
                lemma_skip_skip(all, at as nat, n);
            }
        }
        match u8::decode(bytes, at) {
            Some((tag, place)) => if tag == 0 {
                Some((None, place))
            } else if tag == 1 {
                match T::decode(bytes, place) {
                    Some((value, end)) => Some((Some(value), end)),
                    None => None,
                }
            } else {
                None
            },
            None => None,
        }
    }

    fn store(&self, writer: &mut EthStateWriter) {
        match self {
            Some(value) => {
                proof {
                    lemma_push_all_add(writer@, u8::encoding(1), T::encoding(value.model()));
                }
                1u8.store(writer);
                value.store(writer);
            },
            None => {
                0u8.store(writer);
            },
        }
    }

    fn load<'a>(reader: &mut EthStateReader<'a>) -> Option<Option<T>> {
        proof {
            reader.lemma_endless();
            let source = reader@;
            if let Some((_, n)) = u8::parse(source) {
                if let Some((_, k)) = T::parse(source.skip(n)) {
                    lemma_skip_skip(source, n, k);
                }
            }
        }
        match u8::load(reader) {
            Some(tag) => if tag == 0 {
                Some(None)
            } else if tag == 1 {
                match T::load(reader) {
                    Some(value) => Some(Some(value)),
                    None => None,
                }
            } else {
                None
            },
            None => None,
        }
    }

    fn type_code() -> Vec<u64> {
        let mut code: Vec<u64> = vec![CODE_OPTION];
        let mut inner: Vec<u64> = T::type_code();
        code.append(&mut inner);
        code
    }
}

/// Option types have one code just where their contents do.
pub proof fn law_option_code<A: Wire, B: Wire>()
    ensures
        Option::<A>::code() == Option::<B>::code() <==> A::code() == B::code(),
{
    assert(Option::<A>::code().skip(1) =~= A::code());
    assert(Option::<B>::code().skip(1) =~= B::code());
}

} // verus!
