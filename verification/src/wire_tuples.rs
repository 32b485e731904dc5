//! The encodings of tuples: their fields, one after the other.

use vstd::prelude::*;

use crate::eth_state::{lemma_push_all_add, EthStateReader, EthStateWriter, WriterState};
use crate::source::{
    lemma_same_start, lemma_skip_skip, lemma_starts_with_both, lemma_take_both, ByteSource,
};
use crate::wire::{
    lemma_inner_code, lemma_tuple_code, tuple_code, Wire, CODE_SINGLE, CODE_TUPLE,
};

verus! {

/// The code of the tuple type with the fields of `P` and one more, of type `Z`.
fn longer_code<P: Wire, Z: Wire>() -> (code: Vec<u64>)
    ensures
        code@ == tuple_code(P::code(), Z::code()),
{
    let mut code: Vec<u64> = vec![CODE_TUPLE];
    let mut init: Vec<u64> = P::type_code();
    let mut last: Vec<u64> = Z::type_code();
    code.append(&mut init);
    code.append(&mut last);
    code
}

/// Hands the bytes of one more field to a writer that began at `before` and took in
/// `done`, and gives all that it took in.
fn store_field<T: Wire>(
    field: &T,
    writer: &mut EthStateWriter,
    Ghost(before): Ghost<WriterState>,
    Ghost(done): Ghost<Seq<u8>>,
) -> (all: Ghost<Seq<u8>>)
    requires
        old(writer)@ == before.push_all(done),
    ensures
        all@ == done + T::encoding(field.model()),
        final(writer)@ == before.push_all(all@),
{
    proof {
        lemma_push_all_add(before, done, T::encoding(field.model()));
    }
    field.store(writer);
    Ghost(done + T::encoding(field.model()))
}

impl<A: Wire> Wire for (A,) {
    type Model = (A::Model,);

    open spec fn model(&self) -> (A::Model,) {
        (self.0.model(),)
    }

    open spec fn encoding(model: (A::Model,)) -> Seq<u8> {
        A::encoding(model.0)
    }

    open spec fn parse(source: ByteSource) -> Option<((A::Model,), nat)> {
        match A::parse(source) {
            Some((a, n)) => Some(((a,), n)),
            None => None,
        }
    }

    open spec fn code() -> Seq<u64> {
        seq![CODE_SINGLE] + A::code()
    }

    proof fn law_code(rest: Seq<u64>) {
        lemma_inner_code::<A>(CODE_SINGLE, rest);
    }

    proof fn law_parse_within(source: ByteSource) {
        A::law_parse_within(source);
    }

    proof fn law_parse_back(value: (A,), source: ByteSource) {
        A::law_parse_back(value.0, source);
    }

    proof fn law_parse_exact(source: ByteSource) {
        A::law_parse_exact(source);
    }

    proof fn law_parse_local(source: ByteSource, other: ByteSource) {
        A::law_parse_local(source, other);
    }

    fn encode(&self, out: &mut Vec<u8>) {
        self.0.encode(out);
    }

    fn decode(bytes: &[u8], at: usize) -> Option<((A,), usize)> {
        match A::decode(bytes, at) {
            Some((a, place)) => Some(((a,), place)),
            None => None,
        }
    }

    fn store(&self, writer: &mut EthStateWriter) {
        self.0.store(writer);
    }

    fn load<'r>(reader: &mut EthStateReader<'r>) -> Option<(A,)> {
        match A::load(reader) {
            Some(a) => Some((a,)),
            None => None,
        }
    }

    fn type_code() -> Vec<u64> {
        let mut code: Vec<u64> = vec![CODE_SINGLE];
        let mut inner: Vec<u64> = A::type_code();
        code.append(&mut inner);
        code
    }
}

impl<A: Wire, B: Wire> Wire for (A, B) {
    type Model = (A::Model, B::Model);

    open spec fn model(&self) -> (A::Model, B::Model) {
        (self.0.model(), self.1.model())
    }

    open spec fn encoding(model: (A::Model, B::Model)) -> Seq<u8> {
        <(A,)>::encoding((model.0,)) + B::encoding(model.1)
    }

    open spec fn parse(source: ByteSource) -> Option<((A::Model, B::Model), nat)> {
        match <(A,)>::parse(source) {
            Some(((a,), len)) => match B::parse(source.skip(len)) {
                Some((b, more)) => Some(((a, b), len + more)),
                None => None,
            },
            None => None,
        }
    }

    open spec fn code() -> Seq<u64> {
        tuple_code(<(A,)>::code(), B::code())
    }

    proof fn law_code(rest: Seq<u64>) {
        lemma_tuple_code::<(A,), B>(rest);
    }

    proof fn law_parse_within(source: ByteSource) {
        <(A,)>::law_parse_within(source);
        if let Some((_, n)) = <(A,)>::parse(source) {
            B::law_parse_within(source.skip(n));
        }
    }

    proof fn law_parse_back(value: (A, B), source: ByteSource) {
        let init = (value.0,);
        let bytes = <(A,)>::encoding(init.model());
        lemma_starts_with_both(source, bytes, B::encoding(value.1.model()));
        <(A,)>::law_parse_back(init, source);
        B::law_parse_back(value.1, source.skip(bytes.len()));
    }

    proof fn law_parse_exact(source: ByteSource) {
        if let Some((_, len)) = <(A,)>::parse(source) {
            <(A,)>::law_parse_exact(source);
            B::law_parse_exact(source.skip(len));
            if let Some((_, more)) = B::parse(source.skip(len)) {
                lemma_take_both(source, len, more);
            }
        }
    }

    proof fn law_parse_local(source: ByteSource, other: ByteSource) {
        let (_, len) = <(A,)>::parse(source).unwrap();
        let (_, more) = B::parse(source.skip(len)).unwrap();
        lemma_same_start(source, other, len, more);
        <(A,)>::law_parse_local(source, other);
        B::law_parse_local(source.skip(len), other.skip(len));
    }

    fn encode(&self, out: &mut Vec<u8>) {
        let ghost before = out@;
        self.0.encode(out);
        self.1.encode(out);
        assert(out@ =~= before + Self::encoding(self.model()));
    }

    fn decode(bytes: &[u8], at: usize) -> Option<((A, B), usize)> {
        proof {
            let source = ByteSource::of_seq(bytes@);
            <(A,)>::law_parse_within(source.skip(at as nat));
            if let Some((_, n)) = <(A,)>::parse(source.skip(at as nat)) {
                lemma_skip_skip(source, at as nat, n);
            }
        }
        match <(A,)>::decode(bytes, at) {
            Some(((a,), place)) => match B::decode(bytes, place) {
                Some((b, end)) => Some(((a, b), end)),
                None => None,
            },
            None => None,
        }
    }

    fn store(&self, writer: &mut EthStateWriter) {
        let ghost before = writer@;
        self.0.store(writer);
        let done: Ghost<Seq<u8>> = Ghost(A::encoding(self.0.model()));
        let _ = store_field(&self.1, writer, Ghost(before), done);
    }

    fn load<'r>(reader: &mut EthStateReader<'r>) -> Option<(A, B)> {
        proof {
            reader.lemma_endless();
            let source = reader@;
            if let Some((_, n)) = <(A,)>::parse(source) {
                if let Some((_, m)) = B::parse(source.skip(n)) {
                    lemma_skip_skip(source, n, m);
                }
            }
        }
        match <(A,)>::load(reader) {
            Some((a,)) => match B::load(reader) {
                Some(b) => Some((a, b)),
                None => None,
            },
            None => None,
        }
    }

    fn type_code() -> Vec<u64> {
        longer_code::<(A,), B>()
    }
}

impl<A: Wire, B: Wire, C: Wire> Wire for (A, B, C) {
    type Model = (A::Model, B::Model, C::Model);

    open spec fn model(&self) -> (A::Model, B::Model, C::Model) {
        (self.0.model(), self.1.model(), self.2.model())
    }

    open spec fn encoding(model: (A::Model, B::Model, C::Model)) -> Seq<u8> {
        <(A, B)>::encoding((model.0, model.1)) + C::encoding(model.2)
    }

    open spec fn parse(source: ByteSource) -> Option<((A::Model, B::Model, C::Model), nat)> {
        match <(A, B)>::parse(source) {
            Some(((a, b), len)) => match C::parse(source.skip(len)) {
                Some((c, more)) => Some(((a, b, c), len + more)),
                None => None,
            },
            None => None,
        }
    }

    open spec fn code() -> Seq<u64> {
        tuple_code(<(A, B)>::code(), C::code())
    }

    proof fn law_code(rest: Seq<u64>) {
        lemma_tuple_code::<(A, B), C>(rest);
    }

    proof fn law_parse_within(source: ByteSource) {
        <(A, B)>::law_parse_within(source);
        if let Some((_, n)) = <(A, B)>::parse(source) {
            C::law_parse_within(source.skip(n));
        }
    }

    proof fn law_parse_back(value: (A, B, C), source: ByteSource) {
        let init = (value.0, value.1);
        let bytes = <(A, B)>::encoding(init.model());
        lemma_starts_with_both(source, bytes, C::encoding(value.2.model()));
        <(A, B)>::law_parse_back(init, source);
        C::law_parse_back(value.2, source.skip(bytes.len()));
    }

    proof fn law_parse_exact(source: ByteSource) {
        if let Some((_, len)) = <(A, B)>::parse(source) {
            <(A, B)>::law_parse_exact(source);
            C::law_parse_exact(source.skip(len));
            if let Some((_, more)) = C::parse(source.skip(len)) {
                lemma_take_both(source, len, more);
            }
        }
    }

    proof fn law_parse_local(source: ByteSource, other: ByteSource) {
        let (_, len) = <(A, B)>::parse(source).unwrap();
        let (_, more) = C::parse(source.skip(len)).unwrap();
        lemma_same_start(source, other, len, more);
        <(A, B)>::law_parse_local(source, other);
        C::law_parse_local(source.skip(len), other.skip(len));
    }

    fn encode(&self, out: &mut Vec<u8>) {
        let ghost before = out@;
        self.0.encode(out);
        self.1.encode(out);
        self.2.encode(out);
        assert(out@ =~= before + Self::encoding(self.model()));
    }

    fn decode(bytes: &[u8], at: usize) -> Option<((A, B, C), usize)> {
        proof {
            let source = ByteSource::of_seq(bytes@);
            <(A, B)>::law_parse_within(source.skip(at as nat));
            if let Some((_, n)) = <(A, B)>::parse(source.skip(at as nat)) {
                lemma_skip_skip(source, at as nat, n);
            }
        }
        match <(A, B)>::decode(bytes, at) {
            Some(((a, b), place)) => match C::decode(bytes, place) {
                Some((c, end)) => Some(((a, b, c), end)),
                None => None,
            },
            None => None,
        }
    }

    fn store(&self, writer: &mut EthStateWriter) {
        let ghost before = writer@;
        self.0.store(writer);
        let done: Ghost<Seq<u8>> = Ghost(A::encoding(self.0.model()));
        let done = store_field(&self.1, writer, Ghost(before), done);
        let _ = store_field(&self.2, writer, Ghost(before), done);
    }

    fn load<'r>(reader: &mut EthStateReader<'r>) -> Option<(A, B, C)> {
        proof {
            reader.lemma_endless();
            let source = reader@;
            if let Some((_, n)) = <(A, B)>::parse(source) {
                if let Some((_, m)) = C::parse(source.skip(n)) {
                    lemma_skip_skip(source, n, m);
                }
            }
        }
        match <(A, B)>::load(reader) {
            Some((a, b)) => match C::load(reader) {
                Some(c) => Some((a, b, c)),
                None => None,
            },
            None => None,
        }
    }

    fn type_code() -> Vec<u64> {
        longer_code::<(A, B), C>()
    }
}

impl<A: Wire, B: Wire, C: Wire, D: Wire> Wire for (A, B, C, D) {
    type Model = (A::Model, B::Model, C::Model, D::Model);

    open spec fn model(&self) -> (A::Model, B::Model, C::Model, D::Model) {
        (self.0.model(), self.1.model(), self.2.model(), self.3.model())
    }

    open spec fn encoding(model: (A::Model, B::Model, C::Model, D::Model)) -> Seq<u8> {
        <(A, B, C)>::encoding((model.0, model.1, model.2)) + D::encoding(model.3)
    }

    open spec fn parse(source: ByteSource) -> Option<((A::Model, B::Model, C::Model, D::Model), nat)> {
        match <(A, B, C)>::parse(source) {
            Some(((a, b, c), len)) => match D::parse(source.skip(len)) {
                Some((d, more)) => Some(((a, b, c, d), len + more)),
                None => None,
            },
            None => None,
        }
    }

    open spec fn code() -> Seq<u64> {
        tuple_code(<(A, B, C)>::code(), D::code())
    }

    proof fn law_code(rest: Seq<u64>) {
        lemma_tuple_code::<(A, B, C), D>(rest);
    }

    proof fn law_parse_within(source: ByteSource) {
        <(A, B, C)>::law_parse_within(source);
        if let Some((_, n)) = <(A, B, C)>::parse(source) {
            D::law_parse_within(source.skip(n));
        }
    }

    proof fn law_parse_back(value: (A, B, C, D), source: ByteSource) {
        let init = (value.0, value.1, value.2);
        let bytes = <(A, B, C)>::encoding(init.model());
        lemma_starts_with_both(source, bytes, D::encoding(value.3.model()));
        <(A, B, C)>::law_parse_back(init, source);
        D::law_parse_back(value.3, source.skip(bytes.len()));
    }

    proof fn law_parse_exact(source: ByteSource) {
        if let Some((_, len)) = <(A, B, C)>::parse(source) {
            <(A, B, C)>::law_parse_exact(source);
            D::law_parse_exact(source.skip(len));
            if let Some((_, more)) = D::parse(source.skip(len)) {
                lemma_take_both(source, len, more);
            }
        }
    }

    proof fn law_parse_local(source: ByteSource, other: ByteSource) {
        let (_, len) = <(A, B, C)>::parse(source).unwrap();
        let (_, more) = D::parse(source.skip(len)).unwrap();
        lemma_same_start(source, other, len, more);
        <(A, B, C)>::law_parse_local(source, other);
        D::law_parse_local(source.skip(len), other.skip(len));
    }

    fn encode(&self, out: &mut Vec<u8>) {
        let ghost before = out@;
        self.0.encode(out);
        self.1.encode(out);
        self.2.encode(out);
        self.3.encode(out);
        assert(out@ =~= before + Self::encoding(self.model()));
    }

    fn decode(bytes: &[u8], at: usize) -> Option<((A, B, C, D), usize)> {
        proof {
            let source = ByteSource::of_seq(bytes@);
            <(A, B, C)>::law_parse_within(source.skip(at as nat));
            if let Some((_, n)) = <(A, B, C)>::parse(source.skip(at as nat)) {
                lemma_skip_skip(source, at as nat, n);
            }
        }
        match <(A, B, C)>::decode(bytes, at) {
            Some(((a, b, c), place)) => match D::decode(bytes, place) {
                Some((d, end)) => Some(((a, b, c, d), end)),
                None => None,
            },
            None => None,
        }
    }

    fn store(&self, writer: &mut EthStateWriter) {
        let ghost before = writer@;
        self.0.store(writer);
        let done: Ghost<Seq<u8>> = Ghost(A::encoding(self.0.model()));
        let done = store_field(&self.1, writer, Ghost(before), done);
        let done = store_field(&self.2, writer, Ghost(before), done);
        let _ = store_field(&self.3, writer, Ghost(before), done);
    }

    fn load<'r>(reader: &mut EthStateReader<'r>) -> Option<(A, B, C, D)> {
        proof {
            reader.lemma_endless();
            let source = reader@;
            if let Some((_, n)) = <(A, B, C)>::parse(source) {
                if let Some((_, m)) = D::parse(source.skip(n)) {
                    lemma_skip_skip(source, n, m);
                }
            }
        }
        match <(A, B, C)>::load(reader) {
            Some((a, b, c)) => match D::load(reader) {
                Some(d) => Some((a, b, c, d)),
                None => None,
            },
            None => None,
        }
    }

    fn type_code() -> Vec<u64> {
        longer_code::<(A, B, C), D>()
    }
}

impl<A: Wire, B: Wire, C: Wire, D: Wire, E: Wire> Wire for (A, B, C, D, E) {
    type Model = (A::Model, B::Model, C::Model, D::Model, E::Model);

    open spec fn model(&self) -> (A::Model, B::Model, C::Model, D::Model, E::Model) {
        (self.0.model(), self.1.model(), self.2.model(), self.3.model(), self.4.model())
    }

    open spec fn encoding(model: (A::Model, B::Model, C::Model, D::Model, E::Model)) -> Seq<u8> {
        <(A, B, C, D)>::encoding((model.0, model.1, model.2, model.3)) + E::encoding(model.4)
    }

    open spec fn parse(source: ByteSource) -> Option<((A::Model, B::Model, C::Model, D::Model, E::Model), nat)> {
        match <(A, B, C, D)>::parse(source) {
            Some(((a, b, c, d), len)) => match E::parse(source.skip(len)) {
                Some((e, more)) => Some(((a, b, c, d, e), len + more)),
                None => None,
            },
            None => None,
        }
    }

    open spec fn code() -> Seq<u64> {
        tuple_code(<(A, B, C, D)>::code(), E::code())
    }

    proof fn law_code(rest: Seq<u64>) {
        lemma_tuple_code::<(A, B, C, D), E>(rest);
    }

    proof fn law_parse_within(source: ByteSource) {
        <(A, B, C, D)>::law_parse_within(source);
        if let Some((_, n)) = <(A, B, C, D)>::parse(source) {
            E::law_parse_within(source.skip(n));
        }
    }

    proof fn law_parse_back(value: (A, B, C, D, E), source: ByteSource) {
        let init = (value.0, value.1, value.2, value.3);
        let bytes = <(A, B, C, D)>::encoding(init.model());
        lemma_starts_with_both(source, bytes, E::encoding(value.4.model()));
        <(A, B, C, D)>::law_parse_back(init, source);
        E::law_parse_back(value.4, source.skip(bytes.len()));
    }

    proof fn law_parse_exact(source: ByteSource) {
        if let Some((_, len)) = <(A, B, C, D)>::parse(source) {
            <(A, B, C, D)>::law_parse_exact(source);
            E::law_parse_exact(source.skip(len));
            if let Some((_, more)) = E::parse(source.skip(len)) {
                lemma_take_both(source, len, more);
            }
        }
    }

    proof fn law_parse_local(source: ByteSource, other: ByteSource) {
        let (_, len) = <(A, B, C, D)>::parse(source).unwrap();
        let (_, more) = E::parse(source.skip(len)).unwrap();
        lemma_same_start(source, other, len, more);
        <(A, B, C, D)>::law_parse_local(source, other);
        E::law_parse_local(source.skip(len), other.skip(len));
    }

    fn encode(&self, out: &mut Vec<u8>) {
        let ghost before = out@;
        self.0.encode(out);
        self.1.encode(out);
        self.2.encode(out);
        self.3.encode(out);
        self.4.encode(out);
        assert(out@ =~= before + Self::encoding(self.model()));
    }

    fn decode(bytes: &[u8], at: usize) -> Option<((A, B, C, D, E), usize)> {
        proof {
            let source = ByteSource::of_seq(bytes@);
            <(A, B, C, D)>::law_parse_within(source.skip(at as nat));
            if let Some((_, n)) = <(A, B, C, D)>::parse(source.skip(at as nat)) {
                lemma_skip_skip(source, at as nat, n);
            }
        }
        match <(A, B, C, D)>::decode(bytes, at) {
            Some(((a, b, c, d), place)) => match E::decode(bytes, place) {
                Some((e, end)) => Some(((a, b, c, d, e), end)),
                None => None,
            },
            None => None,
        }
    }

    fn store(&self, writer: &mut EthStateWriter) {
        let ghost before = writer@;
        self.0.store(writer);
        let done: Ghost<Seq<u8>> = Ghost(A::encoding(self.0.model()));
        let done = store_field(&self.1, writer, Ghost(before), done);
        let done = store_field(&self.2, writer, Ghost(before), done);
        let done = store_field(&self.3, writer, Ghost(before), done);
        let _ = store_field(&self.4, writer, Ghost(before), done);
    }

    fn load<'r>(reader: &mut EthStateReader<'r>) -> Option<(A, B, C, D, E)> {
        proof {
            reader.lemma_endless();
            let source = reader@;
            if let Some((_, n)) = <(A, B, C, D)>::parse(source) {
                if let Some((_, m)) = E::parse(source.skip(n)) {
                    lemma_skip_skip(source, n, m);
                }
            }
        }
        match <(A, B, C, D)>::load(reader) {
            Some((a, b, c, d)) => match E::load(reader) {
                Some(e) => Some((a, b, c, d, e)),
                None => None,
            },
            None => None,
        }
    }

    fn type_code() -> Vec<u64> {
        longer_code::<(A, B, C, D), E>()
    }
}

impl<A: Wire, B: Wire, C: Wire, D: Wire, E: Wire, F: Wire> Wire for (A, B, C, D, E, F) {
    type Model = (A::Model, B::Model, C::Model, D::Model, E::Model, F::Model);

    open spec fn model(&self) -> (A::Model, B::Model, C::Model, D::Model, E::Model, F::Model) {
        (self.0.model(), self.1.model(), self.2.model(), self.3.model(), self.4.model(), self.5.model())
    }

    open spec fn encoding(model: (A::Model, B::Model, C::Model, D::Model, E::Model, F::Model)) -> Seq<u8> {
        <(A, B, C, D, E)>::encoding((model.0, model.1, model.2, model.3, model.4)) + F::encoding(model.5)
    }

    open spec fn parse(source: ByteSource) -> Option<((A::Model, B::Model, C::Model, D::Model, E::Model, F::Model), nat)> {
        match <(A, B, C, D, E)>::parse(source) {
            Some(((a, b, c, d, e), len)) => match F::parse(source.skip(len)) {
                Some((f, more)) => Some(((a, b, c, d, e, f), len + more)),
                None => None,
            },
            None => None,
        }
    }

    open spec fn code() -> Seq<u64> {
        tuple_code(<(A, B, C, D, E)>::code(), F::code())
    }

    proof fn law_code(rest: Seq<u64>) {
        lemma_tuple_code::<(A, B, C, D, E), F>(rest);
    }

    proof fn law_parse_within(source: ByteSource) {
        <(A, B, C, D, E)>::law_parse_within(source);
        if let Some((_, n)) = <(A, B, C, D, E)>::parse(source) {
            F::law_parse_within(source.skip(n));
        }
    }

    proof fn law_parse_back(value: (A, B, C, D, E, F), source: ByteSource) {
        let init = (value.0, value.1, value.2, value.3, value.4);
        let bytes = <(A, B, C, D, E)>::encoding(init.model());
        lemma_starts_with_both(source, bytes, F::encoding(value.5.model()));
        <(A, B, C, D, E)>::law_parse_back(init, source);
        F::law_parse_back(value.5, source.skip(bytes.len()));
    }

    proof fn law_parse_exact(source: ByteSource) {
        if let Some((_, len)) = <(A, B, C, D, E)>::parse(source) {
            <(A, B, C, D, E)>::law_parse_exact(source);
            F::law_parse_exact(source.skip(len));
            if let Some((_, more)) = F::parse(source.skip(len)) {
                lemma_take_both(source, len, more);
            }
        }
    }

    proof fn law_parse_local(source: ByteSource, other: ByteSource) {
        let (_, len) = <(A, B, C, D, E)>::parse(source).unwrap();
        let (_, more) = F::parse(source.skip(len)).unwrap();
        lemma_same_start(source, other, len, more);
        <(A, B, C, D, E)>::law_parse_local(source, other);
        F::law_parse_local(source.skip(len), other.skip(len));
    }

    fn encode(&self, out: &mut Vec<u8>) {
        let ghost before = out@;
        self.0.encode(out);
        self.1.encode(out);
        self.2.encode(out);
        self.3.encode(out);
        self.4.encode(out);
        self.5.encode(out);
        assert(out@ =~= before + Self::encoding(self.model()));
    }

    fn decode(bytes: &[u8], at: usize) -> Option<((A, B, C, D, E, F), usize)> {
        proof {
            let source = ByteSource::of_seq(bytes@);
            <(A, B, C, D, E)>::law_parse_within(source.skip(at as nat));
            if let Some((_, n)) = <(A, B, C, D, E)>::parse(source.skip(at as nat)) {
                lemma_skip_skip(source, at as nat, n);
            }
        }
        match <(A, B, C, D, E)>::decode(bytes, at) {
            Some(((a, b, c, d, e), place)) => match F::decode(bytes, place) {
                Some((f, end)) => Some(((a, b, c, d, e, f), end)),
                None => None,
            },
            None => None,
        }
    }

    fn store(&self, writer: &mut EthStateWriter) {
        let ghost before = writer@;
        self.0.store(writer);
        let done: Ghost<Seq<u8>> = Ghost(A::encoding(self.0.model()));
        let done = store_field(&self.1, writer, Ghost(before), done);
        let done = store_field(&self.2, writer, Ghost(before), done);
        let done = store_field(&self.3, writer, Ghost(before), done);
        let done = store_field(&self.4, writer, Ghost(before), done);
        let _ = store_field(&self.5, writer, Ghost(before), done);
    }

    fn load<'r>(reader: &mut EthStateReader<'r>) -> Option<(A, B, C, D, E, F)> {
        proof {
            reader.lemma_endless();
            let source = reader@;
            if let Some((_, n)) = <(A, B, C, D, E)>::parse(source) {
                if let Some((_, m)) = F::parse(source.skip(n)) {
                    lemma_skip_skip(source, n, m);
                }
            }
        }
        match <(A, B, C, D, E)>::load(reader) {
            Some((a, b, c, d, e)) => match F::load(reader) {
                Some(f) => Some((a, b, c, d, e, f)),
                None => None,
            },
            None => None,
        }
    }

    fn type_code() -> Vec<u64> {
        longer_code::<(A, B, C, D, E), F>()
    }
}

impl<A: Wire, B: Wire, C: Wire, D: Wire, E: Wire, F: Wire, G: Wire> Wire for (A, B, C, D, E, F, G) {
    type Model = (A::Model, B::Model, C::Model, D::Model, E::Model, F::Model, G::Model);

    open spec fn model(&self) -> (A::Model, B::Model, C::Model, D::Model, E::Model, F::Model, G::Model) {
        (self.0.model(), self.1.model(), self.2.model(), self.3.model(), self.4.model(), self.5.model(), self.6.model())
    }

    open spec fn encoding(model: (A::Model, B::Model, C::Model, D::Model, E::Model, F::Model, G::Model)) -> Seq<u8> {
        <(A, B, C, D, E, F)>::encoding((model.0, model.1, model.2, model.3, model.4, model.5)) + G::encoding(model.6)
    }

    open spec fn parse(source: ByteSource) -> Option<((A::Model, B::Model, C::Model, D::Model, E::Model, F::Model, G::Model), nat)> {
        match <(A, B, C, D, E, F)>::parse(source) {
            Some(((a, b, c, d, e, f), len)) => match G::parse(source.skip(len)) {
                Some((g, more)) => Some(((a, b, c, d, e, f, g), len + more)),
                None => None,
            },
            None => None,
        }
    }

    open spec fn code() -> Seq<u64> {
        tuple_code(<(A, B, C, D, E, F)>::code(), G::code())
    }

    proof fn law_code(rest: Seq<u64>) {
        lemma_tuple_code::<(A, B, C, D, E, F), G>(rest);
    }

    proof fn law_parse_within(source: ByteSource) {
        <(A, B, C, D, E, F)>::law_parse_within(source);
        if let Some((_, n)) = <(A, B, C, D, E, F)>::parse(source) {
            G::law_parse_within(source.skip(n));
        }
    }

    proof fn law_parse_back(value: (A, B, C, D, E, F, G), source: ByteSource) {
        let init = (value.0, value.1, value.2, value.3, value.4, value.5);
        let bytes = <(A, B, C, D, E, F)>::encoding(init.model());
        lemma_starts_with_both(source, bytes, G::encoding(value.6.model()));
        <(A, B, C, D, E, F)>::law_parse_back(init, source);
        G::law_parse_back(value.6, source.skip(bytes.len()));
    }

    proof fn law_parse_exact(source: ByteSource) {
        if let Some((_, len)) = <(A, B, C, D, E, F)>::parse(source) {
            <(A, B, C, D, E, F)>::law_parse_exact(source);
            G::law_parse_exact(source.skip(len));
            if let Some((_, more)) = G::parse(source.skip(len)) {
                lemma_take_both(source, len, more);
            }
        }
    }

    proof fn law_parse_local(source: ByteSource, other: ByteSource) {
        let (_, len) = <(A, B, C, D, E, F)>::parse(source).unwrap();
        let (_, more) = G::parse(source.skip(len)).unwrap();
        lemma_same_start(source, other, len, more);
        <(A, B, C, D, E, F)>::law_parse_local(source, other);
        G::law_parse_local(source.skip(len), other.skip(len));
    }

    fn encode(&self, out: &mut Vec<u8>) {
        let ghost before = out@;
        self.0.encode(out);
        self.1.encode(out);
        self.2.encode(out);
        self.3.encode(out);
        self.4.encode(out);
        self.5.encode(out);
        self.6.encode(out);
        assert(out@ =~= before + Self::encoding(self.model()));
    }

    fn decode(bytes: &[u8], at: usize) -> Option<((A, B, C, D, E, F, G), usize)> {
        proof {
            let source = ByteSource::of_seq(bytes@);
            <(A, B, C, D, E, F)>::law_parse_within(source.skip(at as nat));
            if let Some((_, n)) = <(A, B, C, D, E, F)>::parse(source.skip(at as nat)) {
                lemma_skip_skip(source, at as nat, n);
            }
        }
        match <(A, B, C, D, E, F)>::decode(bytes, at) {
            Some(((a, b, c, d, e, f), place)) => match G::decode(bytes, place) {
                Some((g, end)) => Some(((a, b, c, d, e, f, g), end)),
                None => None,
            },
            None => None,
        }
    }

    fn store(&self, writer: &mut EthStateWriter) {
        let ghost before = writer@;
        self.0.store(writer);
        let done: Ghost<Seq<u8>> = Ghost(A::encoding(self.0.model()));
        let done = store_field(&self.1, writer, Ghost(before), done);
        let done = store_field(&self.2, writer, Ghost(before), done);
        let done = store_field(&self.3, writer, Ghost(before), done);
        let done = store_field(&self.4, writer, Ghost(before), done);
        let done = store_field(&self.5, writer, Ghost(before), done);
        let _ = store_field(&self.6, writer, Ghost(before), done);
    }

    fn load<'r>(reader: &mut EthStateReader<'r>) -> Option<(A, B, C, D, E, F, G)> {
        proof {
            reader.lemma_endless();
            let source = reader@;
            if let Some((_, n)) = <(A, B, C, D, E, F)>::parse(source) {
                if let Some((_, m)) = G::parse(source.skip(n)) {
                    lemma_skip_skip(source, n, m);
                }
            }
        }
        match <(A, B, C, D, E, F)>::load(reader) {
            Some((a, b, c, d, e, f)) => match G::load(reader) {
                Some(g) => Some((a, b, c, d, e, f, g)),
                None => None,
            },
            None => None,
        }
    }

    fn type_code() -> Vec<u64> {
        longer_code::<(A, B, C, D, E, F), G>()
    }
}

impl<A: Wire, B: Wire, C: Wire, D: Wire, E: Wire, F: Wire, G: Wire, H: Wire> Wire for (A, B, C, D, E, F, G, H) {
    type Model = (A::Model, B::Model, C::Model, D::Model, E::Model, F::Model, G::Model, H::Model);

    open spec fn model(&self) -> (A::Model, B::Model, C::Model, D::Model, E::Model, F::Model, G::Model, H::Model) {
        (self.0.model(), self.1.model(), self.2.model(), self.3.model(), self.4.model(), self.5.model(), self.6.model(), self.7.model())
    }

    open spec fn encoding(model: (A::Model, B::Model, C::Model, D::Model, E::Model, F::Model, G::Model, H::Model)) -> Seq<u8> {
        <(A, B, C, D, E, F, G)>::encoding((model.0, model.1, model.2, model.3, model.4, model.5, model.6)) + H::encoding(model.7)
    }

    open spec fn parse(source: ByteSource) -> Option<((A::Model, B::Model, C::Model, D::Model, E::Model, F::Model, G::Model, H::Model), nat)> {
        match <(A, B, C, D, E, F, G)>::parse(source) {
            Some(((a, b, c, d, e, f, g), len)) => match H::parse(source.skip(len)) {
                Some((h, more)) => Some(((a, b, c, d, e, f, g, h), len + more)),
                None => None,
            },
            None => None,
        }
    }

    open spec fn code() -> Seq<u64> {
        tuple_code(<(A, B, C, D, E, F, G)>::code(), H::code())
    }

    proof fn law_code(rest: Seq<u64>) {
        lemma_tuple_code::<(A, B, C, D, E, F, G), H>(rest);
    }

    proof fn law_parse_within(source: ByteSource) {
        <(A, B, C, D, E, F, G)>::law_parse_within(source);
        if let Some((_, n)) = <(A, B, C, D, E, F, G)>::parse(source) {
            H::law_parse_within(source.skip(n));
        }
    }

    proof fn law_parse_back(value: (A, B, C, D, E, F, G, H), source: ByteSource) {
        let init = (value.0, value.1, value.2, value.3, value.4, value.5, value.6);
        let bytes = <(A, B, C, D, E, F, G)>::encoding(init.model());
        lemma_starts_with_both(source, bytes, H::encoding(value.7.model()));
        <(A, B, C, D, E, F, G)>::law_parse_back(init, source);
        H::law_parse_back(value.7, source.skip(bytes.len()));
    }

    proof fn law_parse_exact(source: ByteSource) {
        if let Some((_, len)) = <(A, B, C, D, E, F, G)>::parse(source) {
            <(A, B, C, D, E, F, G)>::law_parse_exact(source);
            H::law_parse_exact(source.skip(len));
            if let Some((_, more)) = H::parse(source.skip(len)) {
                lemma_take_both(source, len, more);
            }
        }
    }

    proof fn law_parse_local(source: ByteSource, other: ByteSource) {
        let (_, len) = <(A, B, C, D, E, F, G)>::parse(source).unwrap();
        let (_, more) = H::parse(source.skip(len)).unwrap();
        lemma_same_start(source, other, len, more);
        <(A, B, C, D, E, F, G)>::law_parse_local(source, other);
        H::law_parse_local(source.skip(len), other.skip(len));
    }

    fn encode(&self, out: &mut Vec<u8>) {
        let ghost before = out@;
        self.0.encode(out);
        self.1.encode(out);
        self.2.encode(out);
        self.3.encode(out);
        self.4.encode(out);
        self.5.encode(out);
        self.6.encode(out);
        self.7.encode(out);
        assert(out@ =~= before + Self::encoding(self.model()));
    }

    fn decode(bytes: &[u8], at: usize) -> Option<((A, B, C, D, E, F, G, H), usize)> {
        proof {
            let source = ByteSource::of_seq(bytes@);
            <(A, B, C, D, E, F, G)>::law_parse_within(source.skip(at as nat));
            if let Some((_, n)) = <(A, B, C, D, E, F, G)>::parse(source.skip(at as nat)) {
                lemma_skip_skip(source, at as nat, n);
            }
        }
        match <(A, B, C, D, E, F, G)>::decode(bytes, at) {
            Some(((a, b, c, d, e, f, g), place)) => match H::decode(bytes, place) {
                Some((h, end)) => Some(((a, b, c, d, e, f, g, h), end)),
                None => None,
            },
            None => None,
        }
    }

    fn store(&self, writer: &mut EthStateWriter) {
        let ghost before = writer@;
        self.0.store(writer);
        let done: Ghost<Seq<u8>> = Ghost(A::encoding(self.0.model()));
        let done = store_field(&self.1, writer, Ghost(before), done);
        let done = store_field(&self.2, writer, Ghost(before), done);
        let done = store_field(&self.3, writer, Ghost(before), done);
        let done = store_field(&self.4, writer, Ghost(before), done);
        let done = store_field(&self.5, writer, Ghost(before), done);
        let done = store_field(&self.6, writer, Ghost(before), done);
        let _ = store_field(&self.7, writer, Ghost(before), done);
    }

    fn load<'r>(reader: &mut EthStateReader<'r>) -> Option<(A, B, C, D, E, F, G, H)> {
        proof {
            reader.lemma_endless();
            let source = reader@;
            if let Some((_, n)) = <(A, B, C, D, E, F, G)>::parse(source) {
                if let Some((_, m)) = H::parse(source.skip(n)) {
                    lemma_skip_skip(source, n, m);
                }
            }
        }
        match <(A, B, C, D, E, F, G)>::load(reader) {
            Some((a, b, c, d, e, f, g)) => match H::load(reader) {
                Some(h) => Some((a, b, c, d, e, f, g, h)),
                None => None,
            },
            None => None,
        }
    }

    fn type_code() -> Vec<u64> {
        longer_code::<(A, B, C, D, E, F, G), H>()
    }
}

impl<A: Wire, B: Wire, C: Wire, D: Wire, E: Wire, F: Wire, G: Wire, H: Wire, I: Wire> Wire for (A, B, C, D, E, F, G, H, I) {
    type Model = (A::Model, B::Model, C::Model, D::Model, E::Model, F::Model, G::Model, H::Model, I::Model);

    open spec fn model(&self) -> (A::Model, B::Model, C::Model, D::Model, E::Model, F::Model, G::Model, H::Model, I::Model) {
        (self.0.model(), self.1.model(), self.2.model(), self.3.model(), self.4.model(), self.5.model(), self.6.model(), self.7.model(), self.8.model())
    }

    open spec fn encoding(model: (A::Model, B::Model, C::Model, D::Model, E::Model, F::Model, G::Model, H::Model, I::Model)) -> Seq<u8> {
        <(A, B, C, D, E, F, G, H)>::encoding((model.0, model.1, model.2, model.3, model.4, model.5, model.6, model.7)) + I::encoding(model.8)
    }

    open spec fn parse(source: ByteSource) -> Option<((A::Model, B::Model, C::Model, D::Model, E::Model, F::Model, G::Model, H::Model, I::Model), nat)> {
        match <(A, B, C, D, E, F, G, H)>::parse(source) {
            Some(((a, b, c, d, e, f, g, h), len)) => match I::parse(source.skip(len)) {
                Some((i, more)) => Some(((a, b, c, d, e, f, g, h, i), len + more)),
                None => None,
            },
            None => None,
        }
    }

    open spec fn code() -> Seq<u64> {
        tuple_code(<(A, B, C, D, E, F, G, H)>::code(), I::code())
    }

    proof fn law_code(rest: Seq<u64>) {
        lemma_tuple_code::<(A, B, C, D, E, F, G, H), I>(rest);
    }

    proof fn law_parse_within(source: ByteSource) {
        <(A, B, C, D, E, F, G, H)>::law_parse_within(source);
        if let Some((_, n)) = <(A, B, C, D, E, F, G, H)>::parse(source) {
            I::law_parse_within(source.skip(n));
        }
    }

    proof fn law_parse_back(value: (A, B, C, D, E, F, G, H, I), source: ByteSource) {
        let init = (value.0, value.1, value.2, value.3, value.4, value.5, value.6, value.7);
        let bytes = <(A, B, C, D, E, F, G, H)>::encoding(init.model());
        lemma_starts_with_both(source, bytes, I::encoding(value.8.model()));
        <(A, B, C, D, E, F, G, H)>::law_parse_back(init, source);
        I::law_parse_back(value.8, source.skip(bytes.len()));
    }

    proof fn law_parse_exact(source: ByteSource) {
        if let Some((_, len)) = <(A, B, C, D, E, F, G, H)>::parse(source) {
            <(A, B, C, D, E, F, G, H)>::law_parse_exact(source);
            I::law_parse_exact(source.skip(len));
            if let Some((_, more)) = I::parse(source.skip(len)) {
                lemma_take_both(source, len, more);
            }
        }
    }

    proof fn law_parse_local(source: ByteSource, other: ByteSource) {
        let (_, len) = <(A, B, C, D, E, F, G, H)>::parse(source).unwrap();
        let (_, more) = I::parse(source.skip(len)).unwrap();
        lemma_same_start(source, other, len, more);
        <(A, B, C, D, E, F, G, H)>::law_parse_local(source, other);
        I::law_parse_local(source.skip(len), other.skip(len));
    }

    fn encode(&self, out: &mut Vec<u8>) {
        let ghost before = out@;
        self.0.encode(out);
        self.1.encode(out);
        self.2.encode(out);
        self.3.encode(out);
        self.4.encode(out);
        self.5.encode(out);
        self.6.encode(out);
        self.7.encode(out);
        self.8.encode(out);
        assert(out@ =~= before + Self::encoding(self.model()));
    }

    fn decode(bytes: &[u8], at: usize) -> Option<((A, B, C, D, E, F, G, H, I), usize)> {
        proof {
            let source = ByteSource::of_seq(bytes@);
            <(A, B, C, D, E, F, G, H)>::law_parse_within(source.skip(at as nat));
            if let Some((_, n)) = <(A, B, C, D, E, F, G, H)>::parse(source.skip(at as nat)) {
                lemma_skip_skip(source, at as nat, n);
            }
        }
        match <(A, B, C, D, E, F, G, H)>::decode(bytes, at) {
            Some(((a, b, c, d, e, f, g, h), place)) => match I::decode(bytes, place) {
                Some((i, end)) => Some(((a, b, c, d, e, f, g, h, i), end)),
                None => None,
            },
            None => None,
        }
    }

    fn store(&self, writer: &mut EthStateWriter) {
        let ghost before = writer@;
        self.0.store(writer);
        let done: Ghost<Seq<u8>> = Ghost(A::encoding(self.0.model()));
        let done = store_field(&self.1, writer, Ghost(before), done);
        let done = store_field(&self.2, writer, Ghost(before), done);
        let done = store_field(&self.3, writer, Ghost(before), done);
        let done = store_field(&self.4, writer, Ghost(before), done);
        let done = store_field(&self.5, writer, Ghost(before), done);
        let done = store_field(&self.6, writer, Ghost(before), done);
        let done = store_field(&self.7, writer, Ghost(before), done);
        let _ = store_field(&self.8, writer, Ghost(before), done);
    }

    fn load<'r>(reader: &mut EthStateReader<'r>) -> Option<(A, B, C, D, E, F, G, H, I)> {
        proof {
            reader.lemma_endless();
            let source = reader@;
            if let Some((_, n)) = <(A, B, C, D, E, F, G, H)>::parse(source) {
                if let Some((_, m)) = I::parse(source.skip(n)) {
                    lemma_skip_skip(source, n, m);
                }
            }
        }
        match <(A, B, C, D, E, F, G, H)>::load(reader) {
            Some((a, b, c, d, e, f, g, h)) => match I::load(reader) {
                Some(i) => Some((a, b, c, d, e, f, g, h, i)),
                None => None,
            },
            None => None,
        }
    }

    fn type_code() -> Vec<u64> {
        longer_code::<(A, B, C, D, E, F, G, H), I>()
    }
}

impl<A: Wire, B: Wire, C: Wire, D: Wire, E: Wire, F: Wire, G: Wire, H: Wire, I: Wire, J: Wire> Wire for (A, B, C, D, E, F, G, H, I, J) {
    type Model = (A::Model, B::Model, C::Model, D::Model, E::Model, F::Model, G::Model, H::Model, I::Model, J::Model);

    open spec fn model(&self) -> (A::Model, B::Model, C::Model, D::Model, E::Model, F::Model, G::Model, H::Model, I::Model, J::Model) {
        (self.0.model(), self.1.model(), self.2.model(), self.3.model(), self.4.model(), self.5.model(), self.6.model(), self.7.model(), self.8.model(), self.9.model())
    }

    open spec fn encoding(model: (A::Model, B::Model, C::Model, D::Model, E::Model, F::Model, G::Model, H::Model, I::Model, J::Model)) -> Seq<u8> {
        <(A, B, C, D, E, F, G, H, I)>::encoding((model.0, model.1, model.2, model.3, model.4, model.5, model.6, model.7, model.8)) + J::encoding(model.9)
    }

    open spec fn parse(source: ByteSource) -> Option<((A::Model, B::Model, C::Model, D::Model, E::Model, F::Model, G::Model, H::Model, I::Model, J::Model), nat)> {
        match <(A, B, C, D, E, F, G, H, I)>::parse(source) {
            Some(((a, b, c, d, e, f, g, h, i), len)) => match J::parse(source.skip(len)) {
                Some((j, more)) => Some(((a, b, c, d, e, f, g, h, i, j), len + more)),
                None => None,
            },
            None => None,
        }
    }

    open spec fn code() -> Seq<u64> {
        tuple_code(<(A, B, C, D, E, F, G, H, I)>::code(), J::code())
    }

    proof fn law_code(rest: Seq<u64>) {
        lemma_tuple_code::<(A, B, C, D, E, F, G, H, I), J>(rest);
    }

    proof fn law_parse_within(source: ByteSource) {
        <(A, B, C, D, E, F, G, H, I)>::law_parse_within(source);
        if let Some((_, n)) = <(A, B, C, D, E, F, G, H, I)>::parse(source) {
            J::law_parse_within(source.skip(n));
        }
    }

    proof fn law_parse_back(value: (A, B, C, D, E, F, G, H, I, J), source: ByteSource) {
        let init = (value.0, value.1, value.2, value.3, value.4, value.5, value.6, value.7, value.8);
        let bytes = <(A, B, C, D, E, F, G, H, I)>::encoding(init.model());
        lemma_starts_with_both(source, bytes, J::encoding(value.9.model()));
        <(A, B, C, D, E, F, G, H, I)>::law_parse_back(init, source);
        J::law_parse_back(value.9, source.skip(bytes.len()));
    }

    proof fn law_parse_exact(source: ByteSource) {
        if let Some((_, len)) = <(A, B, C, D, E, F, G, H, I)>::parse(source) {
            <(A, B, C, D, E, F, G, H, I)>::law_parse_exact(source);
            J::law_parse_exact(source.skip(len));
            if let Some((_, more)) = J::parse(source.skip(len)) {
                lemma_take_both(source, len, more);
            }
        }
    }

    proof fn law_parse_local(source: ByteSource, other: ByteSource) {
        let (_, len) = <(A, B, C, D, E, F, G, H, I)>::parse(source).unwrap();
        let (_, more) = J::parse(source.skip(len)).unwrap();
        lemma_same_start(source, other, len, more);
        <(A, B, C, D, E, F, G, H, I)>::law_parse_local(source, other);
        J::law_parse_local(source.skip(len), other.skip(len));
    }

    fn encode(&self, out: &mut Vec<u8>) {
        let ghost before = out@;
        self.0.encode(out);
        self.1.encode(out);
        self.2.encode(out);
        self.3.encode(out);
        self.4.encode(out);
        self.5.encode(out);
        self.6.encode(out);
        self.7.encode(out);
        self.8.encode(out);
        self.9.encode(out);
        assert(out@ =~= before + Self::encoding(self.model()));
    }

    fn decode(bytes: &[u8], at: usize) -> Option<((A, B, C, D, E, F, G, H, I, J), usize)> {
        proof {
            let source = ByteSource::of_seq(bytes@);
            <(A, B, C, D, E, F, G, H, I)>::law_parse_within(source.skip(at as nat));
            if let Some((_, n)) = <(A, B, C, D, E, F, G, H, I)>::parse(source.skip(at as nat)) {
                lemma_skip_skip(source, at as nat, n);
            }
        }
        match <(A, B, C, D, E, F, G, H, I)>::decode(bytes, at) {
            Some(((a, b, c, d, e, f, g, h, i), place)) => match J::decode(bytes, place) {
                Some((j, end)) => Some(((a, b, c, d, e, f, g, h, i, j), end)),
                None => None,
            },
            None => None,
        }
    }

    fn store(&self, writer: &mut EthStateWriter) {
        let ghost before = writer@;
        self.0.store(writer);
        let done: Ghost<Seq<u8>> = Ghost(A::encoding(self.0.model()));
        let done = store_field(&self.1, writer, Ghost(before), done);
        let done = store_field(&self.2, writer, Ghost(before), done);
        let done = store_field(&self.3, writer, Ghost(before), done);
        let done = store_field(&self.4, writer, Ghost(before), done);
        let done = store_field(&self.5, writer, Ghost(before), done);
        let done = store_field(&self.6, writer, Ghost(before), done);
        let done = store_field(&self.7, writer, Ghost(before), done);
        let done = store_field(&self.8, writer, Ghost(before), done);
        let _ = store_field(&self.9, writer, Ghost(before), done);
    }

    fn load<'r>(reader: &mut EthStateReader<'r>) -> Option<(A, B, C, D, E, F, G, H, I, J)> {
        proof {
            reader.lemma_endless();
            let source = reader@;
            if let Some((_, n)) = <(A, B, C, D, E, F, G, H, I)>::parse(source) {
                if let Some((_, m)) = J::parse(source.skip(n)) {
                    lemma_skip_skip(source, n, m);
                }
            }
        }
        match <(A, B, C, D, E, F, G, H, I)>::load(reader) {
            Some((a, b, c, d, e, f, g, h, i)) => match J::load(reader) {
                Some(j) => Some((a, b, c, d, e, f, g, h, i, j)),
                None => None,
            },
            None => None,
        }
    }

    fn type_code() -> Vec<u64> {
        longer_code::<(A, B, C, D, E, F, G, H, I), J>()
    }
}

impl<A: Wire, B: Wire, C: Wire, D: Wire, E: Wire, F: Wire, G: Wire, H: Wire, I: Wire, J: Wire, K: Wire> Wire for (A, B, C, D, E, F, G, H, I, J, K) {
    type Model = (A::Model, B::Model, C::Model, D::Model, E::Model, F::Model, G::Model, H::Model, I::Model, J::Model, K::Model);

    open spec fn model(&self) -> (A::Model, B::Model, C::Model, D::Model, E::Model, F::Model, G::Model, H::Model, I::Model, J::Model, K::Model) {
        (self.0.model(), self.1.model(), self.2.model(), self.3.model(), self.4.model(), self.5.model(), self.6.model(), self.7.model(), self.8.model(), self.9.model(), self.10.model())
    }

    open spec fn encoding(model: (A::Model, B::Model, C::Model, D::Model, E::Model, F::Model, G::Model, H::Model, I::Model, J::Model, K::Model)) -> Seq<u8> {
        <(A, B, C, D, E, F, G, H, I, J)>::encoding((model.0, model.1, model.2, model.3, model.4, model.5, model.6, model.7, model.8, model.9)) + K::encoding(model.10)
    }

    open spec fn parse(source: ByteSource) -> Option<((A::Model, B::Model, C::Model, D::Model, E::Model, F::Model, G::Model, H::Model, I::Model, J::Model, K::Model), nat)> {
        match <(A, B, C, D, E, F, G, H, I, J)>::parse(source) {
            Some(((a, b, c, d, e, f, g, h, i, j), len)) => match K::parse(source.skip(len)) {
                Some((k, more)) => Some(((a, b, c, d, e, f, g, h, i, j, k), len + more)),
                None => None,
            },
            None => None,
        }
    }

    open spec fn code() -> Seq<u64> {
        tuple_code(<(A, B, C, D, E, F, G, H, I, J)>::code(), K::code())
    }

    proof fn law_code(rest: Seq<u64>) {
        lemma_tuple_code::<(A, B, C, D, E, F, G, H, I, J), K>(rest);
    }

    proof fn law_parse_within(source: ByteSource) {
        <(A, B, C, D, E, F, G, H, I, J)>::law_parse_within(source);
        if let Some((_, n)) = <(A, B, C, D, E, F, G, H, I, J)>::parse(source) {
            K::law_parse_within(source.skip(n));
        }
    }

    proof fn law_parse_back(value: (A, B, C, D, E, F, G, H, I, J, K), source: ByteSource) {
        let init = (value.0, value.1, value.2, value.3, value.4, value.5, value.6, value.7, value.8, value.9);
        let bytes = <(A, B, C, D, E, F, G, H, I, J)>::encoding(init.model());
        lemma_starts_with_both(source, bytes, K::encoding(value.10.model()));
        <(A, B, C, D, E, F, G, H, I, J)>::law_parse_back(init, source);
        K::law_parse_back(value.10, source.skip(bytes.len()));
    }

    proof fn law_parse_exact(source: ByteSource) {
        if let Some((_, len)) = <(A, B, C, D, E, F, G, H, I, J)>::parse(source) {
            <(A, B, C, D, E, F, G, H, I, J)>::law_parse_exact(source);
            K::law_parse_exact(source.skip(len));
            if let Some((_, more)) = K::parse(source.skip(len)) {
                lemma_take_both(source, len, more);
            }
        }
    }

    proof fn law_parse_local(source: ByteSource, other: ByteSource) {
        let (_, len) = <(A, B, C, D, E, F, G, H, I, J)>::parse(source).unwrap();
        let (_, more) = K::parse(source.skip(len)).unwrap();
        lemma_same_start(source, other, len, more);
        <(A, B, C, D, E, F, G, H, I, J)>::law_parse_local(source, other);
        K::law_parse_local(source.skip(len), other.skip(len));
    }

    fn encode(&self, out: &mut Vec<u8>) {
        let ghost before = out@;
        self.0.encode(out);
        self.1.encode(out);
        self.2.encode(out);
        self.3.encode(out);
        self.4.encode(out);
        self.5.encode(out);
        self.6.encode(out);
        self.7.encode(out);
        self.8.encode(out);
        self.9.encode(out);
        self.10.encode(out);
        assert(out@ =~= before + Self::encoding(self.model()));
    }

    fn decode(bytes: &[u8], at: usize) -> Option<((A, B, C, D, E, F, G, H, I, J, K), usize)> {
        proof {
            let source = ByteSource::of_seq(bytes@);
            <(A, B, C, D, E, F, G, H, I, J)>::law_parse_within(source.skip(at as nat));
            if let Some((_, n)) = <(A, B, C, D, E, F, G, H, I, J)>::parse(source.skip(at as nat)) {
                lemma_skip_skip(source, at as nat, n);
            }
        }
        match <(A, B, C, D, E, F, G, H, I, J)>::decode(bytes, at) {
            Some(((a, b, c, d, e, f, g, h, i, j), place)) => match K::decode(bytes, place) {
                Some((k, end)) => Some(((a, b, c, d, e, f, g, h, i, j, k), end)),
                None => None,
            },
            None => None,
        }
    }

    fn store(&self, writer: &mut EthStateWriter) {
        let ghost before = writer@;
        self.0.store(writer);
        let done: Ghost<Seq<u8>> = Ghost(A::encoding(self.0.model()));
        let done = store_field(&self.1, writer, Ghost(before), done);
        let done = store_field(&self.2, writer, Ghost(before), done);
        let done = store_field(&self.3, writer, Ghost(before), done);
        let done = store_field(&self.4, writer, Ghost(before), done);
        let done = store_field(&self.5, writer, Ghost(before), done);
        let done = store_field(&self.6, writer, Ghost(before), done);
        let done = store_field(&self.7, writer, Ghost(before), done);
        let done = store_field(&self.8, writer, Ghost(before), done);
        let done = store_field(&self.9, writer, Ghost(before), done);
        let _ = store_field(&self.10, writer, Ghost(before), done);
    }

    fn load<'r>(reader: &mut EthStateReader<'r>) -> Option<(A, B, C, D, E, F, G, H, I, J, K)> {
        proof {
            reader.lemma_endless();
            let source = reader@;
            if let Some((_, n)) = <(A, B, C, D, E, F, G, H, I, J)>::parse(source) {
                if let Some((_, m)) = K::parse(source.skip(n)) {
                    lemma_skip_skip(source, n, m);
                }
            }
        }
        match <(A, B, C, D, E, F, G, H, I, J)>::load(reader) {
            Some((a, b, c, d, e, f, g, h, i, j)) => match K::load(reader) {
                Some(k) => Some((a, b, c, d, e, f, g, h, i, j, k)),
                None => None,
            },
            None => None,
        }
    }

    fn type_code() -> Vec<u64> {
        longer_code::<(A, B, C, D, E, F, G, H, I, J), K>()
    }
}

impl<A: Wire, B: Wire, C: Wire, D: Wire, E: Wire, F: Wire, G: Wire, H: Wire, I: Wire, J: Wire, K: Wire, L: Wire> Wire for (A, B, C, D, E, F, G, H, I, J, K, L) {
    type Model = (A::Model, B::Model, C::Model, D::Model, E::Model, F::Model, G::Model, H::Model, I::Model, J::Model, K::Model, L::Model);

    open spec fn model(&self) -> (A::Model, B::Model, C::Model, D::Model, E::Model, F::Model, G::Model, H::Model, I::Model, J::Model, K::Model, L::Model) {
        (self.0.model(), self.1.model(), self.2.model(), self.3.model(), self.4.model(), self.5.model(), self.6.model(), self.7.model(), self.8.model(), self.9.model(), self.10.model(), self.11.model())
    }

    open spec fn encoding(model: (A::Model, B::Model, C::Model, D::Model, E::Model, F::Model, G::Model, H::Model, I::Model, J::Model, K::Model, L::Model)) -> Seq<u8> {
        <(A, B, C, D, E, F, G, H, I, J, K)>::encoding((model.0, model.1, model.2, model.3, model.4, model.5, model.6, model.7, model.8, model.9, model.10)) + L::encoding(model.11)
    }

    open spec fn parse(source: ByteSource) -> Option<((A::Model, B::Model, C::Model, D::Model, E::Model, F::Model, G::Model, H::Model, I::Model, J::Model, K::Model, L::Model), nat)> {
        match <(A, B, C, D, E, F, G, H, I, J, K)>::parse(source) {
            Some(((a, b, c, d, e, f, g, h, i, j, k), len)) => match L::parse(source.skip(len)) {
                Some((l, more)) => Some(((a, b, c, d, e, f, g, h, i, j, k, l), len + more)),
                None => None,
            },
            None => None,
        }
    }

    open spec fn code() -> Seq<u64> {
        tuple_code(<(A, B, C, D, E, F, G, H, I, J, K)>::code(), L::code())
    }

    proof fn law_code(rest: Seq<u64>) {
        lemma_tuple_code::<(A, B, C, D, E, F, G, H, I, J, K), L>(rest);
    }

    proof fn law_parse_within(source: ByteSource) {
        <(A, B, C, D, E, F, G, H, I, J, K)>::law_parse_within(source);
        if let Some((_, n)) = <(A, B, C, D, E, F, G, H, I, J, K)>::parse(source) {
            L::law_parse_within(source.skip(n));
        }
    }

    proof fn law_parse_back(value: (A, B, C, D, E, F, G, H, I, J, K, L), source: ByteSource) {
        let init = (value.0, value.1, value.2, value.3, value.4, value.5, value.6, value.7, value.8, value.9, value.10);
        let bytes = <(A, B, C, D, E, F, G, H, I, J, K)>::encoding(init.model());
        lemma_starts_with_both(source, bytes, L::encoding(value.11.model()));
        <(A, B, C, D, E, F, G, H, I, J, K)>::law_parse_back(init, source);
        L::law_parse_back(value.11, source.skip(bytes.len()));
    }

    proof fn law_parse_exact(source: ByteSource) {
        if let Some((_, len)) = <(A, B, C, D, E, F, G, H, I, J, K)>::parse(source) {
            <(A, B, C, D, E, F, G, H, I, J, K)>::law_parse_exact(source);
            L::law_parse_exact(source.skip(len));
            if let Some((_, more)) = L::parse(source.skip(len)) {
                lemma_take_both(source, len, more);
            }
        }
    }

    proof fn law_parse_local(source: ByteSource, other: ByteSource) {
        let (_, len) = <(A, B, C, D, E, F, G, H, I, J, K)>::parse(source).unwrap();
        let (_, more) = L::parse(source.skip(len)).unwrap();
        lemma_same_start(source, other, len, more);
        <(A, B, C, D, E, F, G, H, I, J, K)>::law_parse_local(source, other);
        L::law_parse_local(source.skip(len), other.skip(len));
    }

    fn encode(&self, out: &mut Vec<u8>) {
        let ghost before = out@;
        self.0.encode(out);
        self.1.encode(out);
        self.2.encode(out);
        self.3.encode(out);
        self.4.encode(out);
        self.5.encode(out);
        self.6.encode(out);
        self.7.encode(out);
        self.8.encode(out);
        self.9.encode(out);
        self.10.encode(out);
        self.11.encode(out);
        assert(out@ =~= before + Self::encoding(self.model()));
    }

    fn decode(bytes: &[u8], at: usize) -> Option<((A, B, C, D, E, F, G, H, I, J, K, L), usize)> {
        proof {
            let source = ByteSource::of_seq(bytes@);
            <(A, B, C, D, E, F, G, H, I, J, K)>::law_parse_within(source.skip(at as nat));
            if let Some((_, n)) = <(A, B, C, D, E, F, G, H, I, J, K)>::parse(source.skip(at as nat)) {
                lemma_skip_skip(source, at as nat, n);
            }
        }
        match <(A, B, C, D, E, F, G, H, I, J, K)>::decode(bytes, at) {
            Some(((a, b, c, d, e, f, g, h, i, j, k), place)) => match L::decode(bytes, place) {
                Some((l, end)) => Some(((a, b, c, d, e, f, g, h, i, j, k, l), end)),
                None => None,
            },
            None => None,
        }
    }

    fn store(&self, writer: &mut EthStateWriter) {
        let ghost before = writer@;
        self.0.store(writer);
        let done: Ghost<Seq<u8>> = Ghost(A::encoding(self.0.model()));
        let done = store_field(&self.1, writer, Ghost(before), done);
        let done = store_field(&self.2, writer, Ghost(before), done);
        let done = store_field(&self.3, writer, Ghost(before), done);
        let done = store_field(&self.4, writer, Ghost(before), done);
        let done = store_field(&self.5, writer, Ghost(before), done);
        let done = store_field(&self.6, writer, Ghost(before), done);
        let done = store_field(&self.7, writer, Ghost(before), done);
        let done = store_field(&self.8, writer, Ghost(before), done);
        let done = store_field(&self.9, writer, Ghost(before), done);
        let done = store_field(&self.10, writer, Ghost(before), done);
        let _ = store_field(&self.11, writer, Ghost(before), done);
    }

    fn load<'r>(reader: &mut EthStateReader<'r>) -> Option<(A, B, C, D, E, F, G, H, I, J, K, L)> {
        proof {
            reader.lemma_endless();
            let source = reader@;
            if let Some((_, n)) = <(A, B, C, D, E, F, G, H, I, J, K)>::parse(source) {
                if let Some((_, m)) = L::parse(source.skip(n)) {
                    lemma_skip_skip(source, n, m);
                }
            }
        }
        match <(A, B, C, D, E, F, G, H, I, J, K)>::load(reader) {
            Some((a, b, c, d, e, f, g, h, i, j, k)) => match L::load(reader) {
                Some(l) => Some((a, b, c, d, e, f, g, h, i, j, k, l)),
                None => None,
            },
            None => None,
        }
    }

    fn type_code() -> Vec<u64> {
        longer_code::<(A, B, C, D, E, F, G, H, I, J, K), L>()
    }
}

impl<A: Wire, B: Wire, C: Wire, D: Wire, E: Wire, F: Wire, G: Wire, H: Wire, I: Wire, J: Wire, K: Wire, L: Wire, M: Wire> Wire for (A, B, C, D, E, F, G, H, I, J, K, L, M) {
    type Model = (A::Model, B::Model, C::Model, D::Model, E::Model, F::Model, G::Model, H::Model, I::Model, J::Model, K::Model, L::Model, M::Model);

    open spec fn model(&self) -> (A::Model, B::Model, C::Model, D::Model, E::Model, F::Model, G::Model, H::Model, I::Model, J::Model, K::Model, L::Model, M::Model) {
        (self.0.model(), self.1.model(), self.2.model(), self.3.model(), self.4.model(), self.5.model(), self.6.model(), self.7.model(), self.8.model(), self.9.model(), self.10.model(), self.11.model(), self.12.model())
    }

    open spec fn encoding(model: (A::Model, B::Model, C::Model, D::Model, E::Model, F::Model, G::Model, H::Model, I::Model, J::Model, K::Model, L::Model, M::Model)) -> Seq<u8> {
        <(A, B, C, D, E, F, G, H, I, J, K, L)>::encoding((model.0, model.1, model.2, model.3, model.4, model.5, model.6, model.7, model.8, model.9, model.10, model.11)) + M::encoding(model.12)
    }

    open spec fn parse(source: ByteSource) -> Option<((A::Model, B::Model, C::Model, D::Model, E::Model, F::Model, G::Model, H::Model, I::Model, J::Model, K::Model, L::Model, M::Model), nat)> {
        match <(A, B, C, D, E, F, G, H, I, J, K, L)>::parse(source) {
            Some(((a, b, c, d, e, f, g, h, i, j, k, l), len)) => match M::parse(source.skip(len)) {
                Some((m, more)) => Some(((a, b, c, d, e, f, g, h, i, j, k, l, m), len + more)),
                None => None,
            },
            None => None,
        }
    }

    open spec fn code() -> Seq<u64> {
        tuple_code(<(A, B, C, D, E, F, G, H, I, J, K, L)>::code(), M::code())
    }

    proof fn law_code(rest: Seq<u64>) {
        lemma_tuple_code::<(A, B, C, D, E, F, G, H, I, J, K, L), M>(rest);
    }

    proof fn law_parse_within(source: ByteSource) {
        <(A, B, C, D, E, F, G, H, I, J, K, L)>::law_parse_within(source);
        if let Some((_, n)) = <(A, B, C, D, E, F, G, H, I, J, K, L)>::parse(source) {
            M::law_parse_within(source.skip(n));
        }
    }

    proof fn law_parse_back(value: (A, B, C, D, E, F, G, H, I, J, K, L, M), source: ByteSource) {
        let init = (value.0, value.1, value.2, value.3, value.4, value.5, value.6, value.7, value.8, value.9, value.10, value.11);
        let bytes = <(A, B, C, D, E, F, G, H, I, J, K, L)>::encoding(init.model());
        lemma_starts_with_both(source, bytes, M::encoding(value.12.model()));
        <(A, B, C, D, E, F, G, H, I, J, K, L)>::law_parse_back(init, source);
        M::law_parse_back(value.12, source.skip(bytes.len()));
    }

    proof fn law_parse_exact(source: ByteSource) {
        if let Some((_, len)) = <(A, B, C, D, E, F, G, H, I, J, K, L)>::parse(source) {
            <(A, B, C, D, E, F, G, H, I, J, K, L)>::law_parse_exact(source);
            M::law_parse_exact(source.skip(len));
            if let Some((_, more)) = M::parse(source.skip(len)) {
                lemma_take_both(source, len, more);
            }
        }
    }

    proof fn law_parse_local(source: ByteSource, other: ByteSource) {
        let (_, len) = <(A, B, C, D, E, F, G, H, I, J, K, L)>::parse(source).unwrap();
        let (_, more) = M::parse(source.skip(len)).unwrap();
        lemma_same_start(source, other, len, more);
        <(A, B, C, D, E, F, G, H, I, J, K, L)>::law_parse_local(source, other);
        M::law_parse_local(source.skip(len), other.skip(len));
    }

    fn encode(&self, out: &mut Vec<u8>) {
        let ghost before = out@;
        self.0.encode(out);
        self.1.encode(out);
        self.2.encode(out);
        self.3.encode(out);
        self.4.encode(out);
        self.5.encode(out);
        self.6.encode(out);
        self.7.encode(out);
        self.8.encode(out);
        self.9.encode(out);
        self.10.encode(out);
        self.11.encode(out);
        self.12.encode(out);
        assert(out@ =~= before + Self::encoding(self.model()));
    }

    fn decode(bytes: &[u8], at: usize) -> Option<((A, B, C, D, E, F, G, H, I, J, K, L, M), usize)> {
        proof {
            let source = ByteSource::of_seq(bytes@);
            <(A, B, C, D, E, F, G, H, I, J, K, L)>::law_parse_within(source.skip(at as nat));
            if let Some((_, n)) = <(A, B, C, D, E, F, G, H, I, J, K, L)>::parse(source.skip(at as nat)) {
                lemma_skip_skip(source, at as nat, n);
            }
        }
        match <(A, B, C, D, E, F, G, H, I, J, K, L)>::decode(bytes, at) {
            Some(((a, b, c, d, e, f, g, h, i, j, k, l), place)) => match M::decode(bytes, place) {
                Some((m, end)) => Some(((a, b, c, d, e, f, g, h, i, j, k, l, m), end)),
                None => None,
            },
            None => None,
        }
    }

    fn store(&self, writer: &mut EthStateWriter) {
        let ghost before = writer@;
        self.0.store(writer);
        let done: Ghost<Seq<u8>> = Ghost(A::encoding(self.0.model()));
        let done = store_field(&self.1, writer, Ghost(before), done);
        let done = store_field(&self.2, writer, Ghost(before), done);
        let done = store_field(&self.3, writer, Ghost(before), done);
        let done = store_field(&self.4, writer, Ghost(before), done);
        let done = store_field(&self.5, writer, Ghost(before), done);
        let done = store_field(&self.6, writer, Ghost(before), done);
        let done = store_field(&self.7, writer, Ghost(before), done);
        let done = store_field(&self.8, writer, Ghost(before), done);
        let done = store_field(&self.9, writer, Ghost(before), done);
        let done = store_field(&self.10, writer, Ghost(before), done);
        let done = store_field(&self.11, writer, Ghost(before), done);
        let _ = store_field(&self.12, writer, Ghost(before), done);
    }

    fn load<'r>(reader: &mut EthStateReader<'r>) -> Option<(A, B, C, D, E, F, G, H, I, J, K, L, M)> {
        proof {
            reader.lemma_endless();
            let source = reader@;
            if let Some((_, n)) = <(A, B, C, D, E, F, G, H, I, J, K, L)>::parse(source) {
                if let Some((_, m)) = M::parse(source.skip(n)) {
                    lemma_skip_skip(source, n, m);
                }
            }
        }
        match <(A, B, C, D, E, F, G, H, I, J, K, L)>::load(reader) {
            Some((a, b, c, d, e, f, g, h, i, j, k, l)) => match M::load(reader) {
                Some(m) => Some((a, b, c, d, e, f, g, h, i, j, k, l, m)),
                None => None,
            },
            None => None,
        }
    }

    fn type_code() -> Vec<u64> {
        longer_code::<(A, B, C, D, E, F, G, H, I, J, K, L), M>()
    }
}

impl<A: Wire, B: Wire, C: Wire, D: Wire, E: Wire, F: Wire, G: Wire, H: Wire, I: Wire, J: Wire, K: Wire, L: Wire, M: Wire, N: Wire> Wire for (A, B, C, D, E, F, G, H, I, J, K, L, M, N) {
    type Model = (A::Model, B::Model, C::Model, D::Model, E::Model, F::Model, G::Model, H::Model, I::Model, J::Model, K::Model, L::Model, M::Model, N::Model);

    open spec fn model(&self) -> (A::Model, B::Model, C::Model, D::Model, E::Model, F::Model, G::Model, H::Model, I::Model, J::Model, K::Model, L::Model, M::Model, N::Model) {
        (self.0.model(), self.1.model(), self.2.model(), self.3.model(), self.4.model(), self.5.model(), self.6.model(), self.7.model(), self.8.model(), self.9.model(), self.10.model(), self.11.model(), self.12.model(), self.13.model())
    }

    open spec fn encoding(model: (A::Model, B::Model, C::Model, D::Model, E::Model, F::Model, G::Model, H::Model, I::Model, J::Model, K::Model, L::Model, M::Model, N::Model)) -> Seq<u8> {
        <(A, B, C, D, E, F, G, H, I, J, K, L, M)>::encoding((model.0, model.1, model.2, model.3, model.4, model.5, model.6, model.7, model.8, model.9, model.10, model.11, model.12)) + N::encoding(model.13)
    }

    open spec fn parse(source: ByteSource) -> Option<((A::Model, B::Model, C::Model, D::Model, E::Model, F::Model, G::Model, H::Model, I::Model, J::Model, K::Model, L::Model, M::Model, N::Model), nat)> {
        match <(A, B, C, D, E, F, G, H, I, J, K, L, M)>::parse(source) {
            Some(((a, b, c, d, e, f, g, h, i, j, k, l, m), len)) => match N::parse(source.skip(len)) {
                Some((n, more)) => Some(((a, b, c, d, e, f, g, h, i, j, k, l, m, n), len + more)),
                None => None,
            },
            None => None,
        }
    }

    open spec fn code() -> Seq<u64> {
        tuple_code(<(A, B, C, D, E, F, G, H, I, J, K, L, M)>::code(), N::code())
    }

    proof fn law_code(rest: Seq<u64>) {
        lemma_tuple_code::<(A, B, C, D, E, F, G, H, I, J, K, L, M), N>(rest);
    }

    proof fn law_parse_within(source: ByteSource) {
        <(A, B, C, D, E, F, G, H, I, J, K, L, M)>::law_parse_within(source);
        if let Some((_, n)) = <(A, B, C, D, E, F, G, H, I, J, K, L, M)>::parse(source) {
            N::law_parse_within(source.skip(n));
        }
    }

    proof fn law_parse_back(value: (A, B, C, D, E, F, G, H, I, J, K, L, M, N), source: ByteSource) {
        let init = (value.0, value.1, value.2, value.3, value.4, value.5, value.6, value.7, value.8, value.9, value.10, value.11, value.12);
        let bytes = <(A, B, C, D, E, F, G, H, I, J, K, L, M)>::encoding(init.model());
        lemma_starts_with_both(source, bytes, N::encoding(value.13.model()));
        <(A, B, C, D, E, F, G, H, I, J, K, L, M)>::law_parse_back(init, source);
        N::law_parse_back(value.13, source.skip(bytes.len()));
    }

    proof fn law_parse_exact(source: ByteSource) {
        if let Some((_, len)) = <(A, B, C, D, E, F, G, H, I, J, K, L, M)>::parse(source) {
            <(A, B, C, D, E, F, G, H, I, J, K, L, M)>::law_parse_exact(source);
            N::law_parse_exact(source.skip(len));
            if let Some((_, more)) = N::parse(source.skip(len)) {
                lemma_take_both(source, len, more);
            }
        }
    }

    proof fn law_parse_local(source: ByteSource, other: ByteSource) {
        let (_, len) = <(A, B, C, D, E, F, G, H, I, J, K, L, M)>::parse(source).unwrap();
        let (_, more) = N::parse(source.skip(len)).unwrap();
        lemma_same_start(source, other, len, more);
        <(A, B, C, D, E, F, G, H, I, J, K, L, M)>::law_parse_local(source, other);
        N::law_parse_local(source.skip(len), other.skip(len));
    }

    fn encode(&self, out: &mut Vec<u8>) {
        let ghost before = out@;
        self.0.encode(out);
        self.1.encode(out);
        self.2.encode(out);
        self.3.encode(out);
        self.4.encode(out);
        self.5.encode(out);
        self.6.encode(out);
        self.7.encode(out);
        self.8.encode(out);
        self.9.encode(out);
        self.10.encode(out);
        self.11.encode(out);
        self.12.encode(out);
        self.13.encode(out);
        assert(out@ =~= before + Self::encoding(self.model()));
    }

    fn decode(bytes: &[u8], at: usize) -> Option<((A, B, C, D, E, F, G, H, I, J, K, L, M, N), usize)> {
        proof {
            let source = ByteSource::of_seq(bytes@);
            <(A, B, C, D, E, F, G, H, I, J, K, L, M)>::law_parse_within(source.skip(at as nat));
            if let Some((_, n)) = <(A, B, C, D, E, F, G, H, I, J, K, L, M)>::parse(source.skip(at as nat)) {
                lemma_skip_skip(source, at as nat, n);
            }
        }
        match <(A, B, C, D, E, F, G, H, I, J, K, L, M)>::decode(bytes, at) {
            Some(((a, b, c, d, e, f, g, h, i, j, k, l, m), place)) => match N::decode(bytes, place) {
                Some((n, end)) => Some(((a, b, c, d, e, f, g, h, i, j, k, l, m, n), end)),
                None => None,
            },
            None => None,
        }
    }

    fn store(&self, writer: &mut EthStateWriter) {
        let ghost before = writer@;
        self.0.store(writer);
        let done: Ghost<Seq<u8>> = Ghost(A::encoding(self.0.model()));
        let done = store_field(&self.1, writer, Ghost(before), done);
        let done = store_field(&self.2, writer, Ghost(before), done);
        let done = store_field(&self.3, writer, Ghost(before), done);
        let done = store_field(&self.4, writer, Ghost(before), done);
        let done = store_field(&self.5, writer, Ghost(before), done);
        let done = store_field(&self.6, writer, Ghost(before), done);
        let done = store_field(&self.7, writer, Ghost(before), done);
        let done = store_field(&self.8, writer, Ghost(before), done);
        let done = store_field(&self.9, writer, Ghost(before), done);
        let done = store_field(&self.10, writer, Ghost(before), done);
        let done = store_field(&self.11, writer, Ghost(before), done);
        let done = store_field(&self.12, writer, Ghost(before), done);
        let _ = store_field(&self.13, writer, Ghost(before), done);
    }

    fn load<'r>(reader: &mut EthStateReader<'r>) -> Option<(A, B, C, D, E, F, G, H, I, J, K, L, M, N)> {
        proof {
            reader.lemma_endless();
            let source = reader@;
            if let Some((_, n)) = <(A, B, C, D, E, F, G, H, I, J, K, L, M)>::parse(source) {
                if let Some((_, m)) = N::parse(source.skip(n)) {
                    lemma_skip_skip(source, n, m);
                }
            }
        }
        match <(A, B, C, D, E, F, G, H, I, J, K, L, M)>::load(reader) {
            Some((a, b, c, d, e, f, g, h, i, j, k, l, m)) => match N::load(reader) {
                Some(n) => Some((a, b, c, d, e, f, g, h, i, j, k, l, m, n)),
                None => None,
            },
            None => None,
        }
    }

    fn type_code() -> Vec<u64> {
        longer_code::<(A, B, C, D, E, F, G, H, I, J, K, L, M), N>()
    }
}

impl<A: Wire, B: Wire, C: Wire, D: Wire, E: Wire, F: Wire, G: Wire, H: Wire, I: Wire, J: Wire, K: Wire, L: Wire, M: Wire, N: Wire, O: Wire> Wire for (A, B, C, D, E, F, G, H, I, J, K, L, M, N, O) {
    type Model = (A::Model, B::Model, C::Model, D::Model, E::Model, F::Model, G::Model, H::Model, I::Model, J::Model, K::Model, L::Model, M::Model, N::Model, O::Model);

    open spec fn model(&self) -> (A::Model, B::Model, C::Model, D::Model, E::Model, F::Model, G::Model, H::Model, I::Model, J::Model, K::Model, L::Model, M::Model, N::Model, O::Model) {
        (self.0.model(), self.1.model(), self.2.model(), self.3.model(), self.4.model(), self.5.model(), self.6.model(), self.7.model(), self.8.model(), self.9.model(), self.10.model(), self.11.model(), self.12.model(), self.13.model(), self.14.model())
    }

    open spec fn encoding(model: (A::Model, B::Model, C::Model, D::Model, E::Model, F::Model, G::Model, H::Model, I::Model, J::Model, K::Model, L::Model, M::Model, N::Model, O::Model)) -> Seq<u8> {
        <(A, B, C, D, E, F, G, H, I, J, K, L, M, N)>::encoding((model.0, model.1, model.2, model.3, model.4, model.5, model.6, model.7, model.8, model.9, model.10, model.11, model.12, model.13)) + O::encoding(model.14)
    }

    open spec fn parse(source: ByteSource) -> Option<((A::Model, B::Model, C::Model, D::Model, E::Model, F::Model, G::Model, H::Model, I::Model, J::Model, K::Model, L::Model, M::Model, N::Model, O::Model), nat)> {
        match <(A, B, C, D, E, F, G, H, I, J, K, L, M, N)>::parse(source) {
            Some(((a, b, c, d, e, f, g, h, i, j, k, l, m, n), len)) => match O::parse(source.skip(len)) {
                Some((o, more)) => Some(((a, b, c, d, e, f, g, h, i, j, k, l, m, n, o), len + more)),
                None => None,
            },
            None => None,
        }
    }

    open spec fn code() -> Seq<u64> {
        tuple_code(<(A, B, C, D, E, F, G, H, I, J, K, L, M, N)>::code(), O::code())
    }

    proof fn law_code(rest: Seq<u64>) {
        lemma_tuple_code::<(A, B, C, D, E, F, G, H, I, J, K, L, M, N), O>(rest);
    }

    proof fn law_parse_within(source: ByteSource) {
        <(A, B, C, D, E, F, G, H, I, J, K, L, M, N)>::law_parse_within(source);
        if let Some((_, n)) = <(A, B, C, D, E, F, G, H, I, J, K, L, M, N)>::parse(source) {
            O::law_parse_within(source.skip(n));
        }
    }

    proof fn law_parse_back(value: (A, B, C, D, E, F, G, H, I, J, K, L, M, N, O), source: ByteSource) {
        let init = (value.0, value.1, value.2, value.3, value.4, value.5, value.6, value.7, value.8, value.9, value.10, value.11, value.12, value.13);
        let bytes = <(A, B, C, D, E, F, G, H, I, J, K, L, M, N)>::encoding(init.model());
        lemma_starts_with_both(source, bytes, O::encoding(value.14.model()));
        <(A, B, C, D, E, F, G, H, I, J, K, L, M, N)>::law_parse_back(init, source);
        O::law_parse_back(value.14, source.skip(bytes.len()));
    }

    proof fn law_parse_exact(source: ByteSource) {
        if let Some((_, len)) = <(A, B, C, D, E, F, G, H, I, J, K, L, M, N)>::parse(source) {
            <(A, B, C, D, E, F, G, H, I, J, K, L, M, N)>::law_parse_exact(source);
            O::law_parse_exact(source.skip(len));
            if let Some((_, more)) = O::parse(source.skip(len)) {
                lemma_take_both(source, len, more);
            }
        }
    }

    proof fn law_parse_local(source: ByteSource, other: ByteSource) {
        let (_, len) = <(A, B, C, D, E, F, G, H, I, J, K, L, M, N)>::parse(source).unwrap();
        let (_, more) = O::parse(source.skip(len)).unwrap();
        lemma_same_start(source, other, len, more);
        <(A, B, C, D, E, F, G, H, I, J, K, L, M, N)>::law_parse_local(source, other);
        O::law_parse_local(source.skip(len), other.skip(len));
    }

    fn encode(&self, out: &mut Vec<u8>) {
        let ghost before = out@;
        self.0.encode(out);
        self.1.encode(out);
        self.2.encode(out);
        self.3.encode(out);
        self.4.encode(out);
        self.5.encode(out);
        self.6.encode(out);
        self.7.encode(out);
        self.8.encode(out);
        self.9.encode(out);
        self.10.encode(out);
        self.11.encode(out);
        self.12.encode(out);
        self.13.encode(out);
        self.14.encode(out);
        assert(out@ =~= before + Self::encoding(self.model()));
    }

    fn decode(bytes: &[u8], at: usize) -> Option<((A, B, C, D, E, F, G, H, I, J, K, L, M, N, O), usize)> {
        proof {
            let source = ByteSource::of_seq(bytes@);
            <(A, B, C, D, E, F, G, H, I, J, K, L, M, N)>::law_parse_within(source.skip(at as nat));
            if let Some((_, n)) = <(A, B, C, D, E, F, G, H, I, J, K, L, M, N)>::parse(source.skip(at as nat)) {
                lemma_skip_skip(source, at as nat, n);
            }
        }
        match <(A, B, C, D, E, F, G, H, I, J, K, L, M, N)>::decode(bytes, at) {
            Some(((a, b, c, d, e, f, g, h, i, j, k, l, m, n), place)) => match O::decode(bytes, place) {
                Some((o, end)) => Some(((a, b, c, d, e, f, g, h, i, j, k, l, m, n, o), end)),
                None => None,
            },
            None => None,
        }
    }

    fn store(&self, writer: &mut EthStateWriter) {
        let ghost before = writer@;
        self.0.store(writer);
        let done: Ghost<Seq<u8>> = Ghost(A::encoding(self.0.model()));
        let done = store_field(&self.1, writer, Ghost(before), done);
        let done = store_field(&self.2, writer, Ghost(before), done);
        let done = store_field(&self.3, writer, Ghost(before), done);
        let done = store_field(&self.4, writer, Ghost(before), done);
        let done = store_field(&self.5, writer, Ghost(before), done);
        let done = store_field(&self.6, writer, Ghost(before), done);
        let done = store_field(&self.7, writer, Ghost(before), done);
        let done = store_field(&self.8, writer, Ghost(before), done);
        let done = store_field(&self.9, writer, Ghost(before), done);
        let done = store_field(&self.10, writer, Ghost(before), done);
        let done = store_field(&self.11, writer, Ghost(before), done);
        let done = store_field(&self.12, writer, Ghost(before), done);
        let done = store_field(&self.13, writer, Ghost(before), done);
        let _ = store_field(&self.14, writer, Ghost(before), done);
    }

    fn load<'r>(reader: &mut EthStateReader<'r>) -> Option<(A, B, C, D, E, F, G, H, I, J, K, L, M, N, O)> {
        proof {
            reader.lemma_endless();
            let source = reader@;
            if let Some((_, n)) = <(A, B, C, D, E, F, G, H, I, J, K, L, M, N)>::parse(source) {
                if let Some((_, m)) = O::parse(source.skip(n)) {
                    lemma_skip_skip(source, n, m);
                }
            }
        }
        match <(A, B, C, D, E, F, G, H, I, J, K, L, M, N)>::load(reader) {
            Some((a, b, c, d, e, f, g, h, i, j, k, l, m, n)) => match O::load(reader) {
                Some(o) => Some((a, b, c, d, e, f, g, h, i, j, k, l, m, n, o)),
                None => None,
            },
            None => None,
        }
    }

    fn type_code() -> Vec<u64> {
        longer_code::<(A, B, C, D, E, F, G, H, I, J, K, L, M, N), O>()
    }
}

impl<A: Wire, B: Wire, C: Wire, D: Wire, E: Wire, F: Wire, G: Wire, H: Wire, I: Wire, J: Wire, K: Wire, L: Wire, M: Wire, N: Wire, O: Wire, P: Wire> Wire for (A, B, C, D, E, F, G, H, I, J, K, L, M, N, O, P) {
    type Model = (A::Model, B::Model, C::Model, D::Model, E::Model, F::Model, G::Model, H::Model, I::Model, J::Model, K::Model, L::Model, M::Model, N::Model, O::Model, P::Model);

    open spec fn model(&self) -> (A::Model, B::Model, C::Model, D::Model, E::Model, F::Model, G::Model, H::Model, I::Model, J::Model, K::Model, L::Model, M::Model, N::Model, O::Model, P::Model) {
        (self.0.model(), self.1.model(), self.2.model(), self.3.model(), self.4.model(), self.5.model(), self.6.model(), self.7.model(), self.8.model(), self.9.model(), self.10.model(), self.11.model(), self.12.model(), self.13.model(), self.14.model(), self.15.model())
    }

    open spec fn encoding(model: (A::Model, B::Model, C::Model, D::Model, E::Model, F::Model, G::Model, H::Model, I::Model, J::Model, K::Model, L::Model, M::Model, N::Model, O::Model, P::Model)) -> Seq<u8> {
        <(A, B, C, D, E, F, G, H, I, J, K, L, M, N, O)>::encoding((model.0, model.1, model.2, model.3, model.4, model.5, model.6, model.7, model.8, model.9, model.10, model.11, model.12, model.13, model.14)) + P::encoding(model.15)
    }

    open spec fn parse(source: ByteSource) -> Option<((A::Model, B::Model, C::Model, D::Model, E::Model, F::Model, G::Model, H::Model, I::Model, J::Model, K::Model, L::Model, M::Model, N::Model, O::Model, P::Model), nat)> {
        match <(A, B, C, D, E, F, G, H, I, J, K, L, M, N, O)>::parse(source) {
            Some(((a, b, c, d, e, f, g, h, i, j, k, l, m, n, o), len)) => match P::parse(source.skip(len)) {
                Some((p, more)) => Some(((a, b, c, d, e, f, g, h, i, j, k, l, m, n, o, p), len + more)),
                None => None,
            },
            None => None,
        }
    }

    open spec fn code() -> Seq<u64> {
        tuple_code(<(A, B, C, D, E, F, G, H, I, J, K, L, M, N, O)>::code(), P::code())
    }

    proof fn law_code(rest: Seq<u64>) {
        lemma_tuple_code::<(A, B, C, D, E, F, G, H, I, J, K, L, M, N, O), P>(rest);
    }

    proof fn law_parse_within(source: ByteSource) {
        <(A, B, C, D, E, F, G, H, I, J, K, L, M, N, O)>::law_parse_within(source);
        if let Some((_, n)) = <(A, B, C, D, E, F, G, H, I, J, K, L, M, N, O)>::parse(source) {
            P::law_parse_within(source.skip(n));
        }
    }

    proof fn law_parse_back(value: (A, B, C, D, E, F, G, H, I, J, K, L, M, N, O, P), source: ByteSource) {
        let init = (value.0, value.1, value.2, value.3, value.4, value.5, value.6, value.7, value.8, value.9, value.10, value.11, value.12, value.13, value.14);
        let bytes = <(A, B, C, D, E, F, G, H, I, J, K, L, M, N, O)>::encoding(init.model());
        lemma_starts_with_both(source, bytes, P::encoding(value.15.model()));
        <(A, B, C, D, E, F, G, H, I, J, K, L, M, N, O)>::law_parse_back(init, source);
        P::law_parse_back(value.15, source.skip(bytes.len()));
    }

    proof fn law_parse_exact(source: ByteSource) {
        if let Some((_, len)) = <(A, B, C, D, E, F, G, H, I, J, K, L, M, N, O)>::parse(source) {
            <(A, B, C, D, E, F, G, H, I, J, K, L, M, N, O)>::law_parse_exact(source);
            P::law_parse_exact(source.skip(len));
            if let Some((_, more)) = P::parse(source.skip(len)) {
                lemma_take_both(source, len, more);
            }
        }
    }

    proof fn law_parse_local(source: ByteSource, other: ByteSource) {
        let (_, len) = <(A, B, C, D, E, F, G, H, I, J, K, L, M, N, O)>::parse(source).unwrap();
        let (_, more) = P::parse(source.skip(len)).unwrap();
        lemma_same_start(source, other, len, more);
        <(A, B, C, D, E, F, G, H, I, J, K, L, M, N, O)>::law_parse_local(source, other);
        P::law_parse_local(source.skip(len), other.skip(len));
    }

    fn encode(&self, out: &mut Vec<u8>) {
        let ghost before = out@;
        self.0.encode(out);
        self.1.encode(out);
        self.2.encode(out);
        self.3.encode(out);
        self.4.encode(out);
        self.5.encode(out);
        self.6.encode(out);
        self.7.encode(out);
        self.8.encode(out);
        self.9.encode(out);
        self.10.encode(out);
        self.11.encode(out);
        self.12.encode(out);
        self.13.encode(out);
        self.14.encode(out);
        self.15.encode(out);
        assert(out@ =~= before + Self::encoding(self.model()));
    }

    fn decode(bytes: &[u8], at: usize) -> Option<((A, B, C, D, E, F, G, H, I, J, K, L, M, N, O, P), usize)> {
        proof {
            let source = ByteSource::of_seq(bytes@);
            <(A, B, C, D, E, F, G, H, I, J, K, L, M, N, O)>::law_parse_within(source.skip(at as nat));
            if let Some((_, n)) = <(A, B, C, D, E, F, G, H, I, J, K, L, M, N, O)>::parse(source.skip(at as nat)) {
                lemma_skip_skip(source, at as nat, n);
            }
        }
        match <(A, B, C, D, E, F, G, H, I, J, K, L, M, N, O)>::decode(bytes, at) {
            Some(((a, b, c, d, e, f, g, h, i, j, k, l, m, n, o), place)) => match P::decode(bytes, place) {
                Some((p, end)) => Some(((a, b, c, d, e, f, g, h, i, j, k, l, m, n, o, p), end)),
                None => None,
            },
            None => None,
        }
    }

    fn store(&self, writer: &mut EthStateWriter) {
        let ghost before = writer@;
        self.0.store(writer);
        let done: Ghost<Seq<u8>> = Ghost(A::encoding(self.0.model()));
        let done = store_field(&self.1, writer, Ghost(before), done);
        let done = store_field(&self.2, writer, Ghost(before), done);
        let done = store_field(&self.3, writer, Ghost(before), done);
        let done = store_field(&self.4, writer, Ghost(before), done);
        let done = store_field(&self.5, writer, Ghost(before), done);
        let done = store_field(&self.6, writer, Ghost(before), done);
        let done = store_field(&self.7, writer, Ghost(before), done);
        let done = store_field(&self.8, writer, Ghost(before), done);
        let done = store_field(&self.9, writer, Ghost(before), done);
        let done = store_field(&self.10, writer, Ghost(before), done);
        let done = store_field(&self.11, writer, Ghost(before), done);
        let done = store_field(&self.12, writer, Ghost(before), done);
        let done = store_field(&self.13, writer, Ghost(before), done);
        let done = store_field(&self.14, writer, Ghost(before), done);
        let _ = store_field(&self.15, writer, Ghost(before), done);
    }

    fn load<'r>(reader: &mut EthStateReader<'r>) -> Option<(A, B, C, D, E, F, G, H, I, J, K, L, M, N, O, P)> {
        proof {
            reader.lemma_endless();
            let source = reader@;
            if let Some((_, n)) = <(A, B, C, D, E, F, G, H, I, J, K, L, M, N, O)>::parse(source) {
                if let Some((_, m)) = P::parse(source.skip(n)) {
                    lemma_skip_skip(source, n, m);
                }
            }
        }
        match <(A, B, C, D, E, F, G, H, I, J, K, L, M, N, O)>::load(reader) {
            Some((a, b, c, d, e, f, g, h, i, j, k, l, m, n, o)) => match P::load(reader) {
                Some(p) => Some((a, b, c, d, e, f, g, h, i, j, k, l, m, n, o, p)),
                None => None,
            },
            None => None,
        }
    }

    fn type_code() -> Vec<u64> {
        longer_code::<(A, B, C, D, E, F, G, H, I, J, K, L, M, N, O), P>()
    }
}

} // verus!
