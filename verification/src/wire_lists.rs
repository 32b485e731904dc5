//! The encodings of vectors and arrays.

use vstd::prelude::*;

use crate::eth_state::{lemma_push_all_add, EthStateReader, EthStateWriter};
use crate::source::{
    lemma_same_start, lemma_skip_skip, lemma_skip_zero, lemma_starts_with_both, lemma_take_both,
    ByteSource,
};
use crate::wire::{
    lemma_inner_code, Wire, CODE_ARRAY, CODE_VEC,
};

verus! {

/// What of some values is encoded.
pub open spec fn models<T: Wire>(values: Seq<T>) -> Seq<T::Model> {
    values.map_values(|value: T| value.model())
}

/// The bytes of some values, one after the other.
pub open spec fn list_encoding<T: Wire>(list: Seq<T::Model>) -> Seq<u8>
    decreases list.len(),
{
    if list.len() == 0 {
        Seq::empty()
    } else {
        list_encoding::<T>(list.drop_last()) + T::encoding(list.last())
    }
}

/// The `count` values that come first in a source, and how many bytes they took.
pub open spec fn list_parse<T: Wire>(source: ByteSource, count: nat) -> Option<
    (Seq<T::Model>, nat),
>
    decreases count,
{
    if count == 0 {
        Some((Seq::empty(), 0))
    } else {
        match list_parse::<T>(source, (count - 1) as nat) {
            Some((list, n)) => match T::parse(source.skip(n)) {
                Some((model, k)) => Some((list.push(model), n + k)),
                None => None,
            },
            None => None,
        }
    }
}

/// Values in a row take no more bytes than there are.
proof fn lemma_list_within<T: Wire>(source: ByteSource, count: nat)
    ensures
        list_parse::<T>(source, count) matches Some((list, n)) ==> source.has(n) && list.len()
            == count,
    decreases count,
{
    if count > 0 {
        lemma_list_within::<T>(source, (count - 1) as nat);
        if let Some((_, n)) = list_parse::<T>(source, (count - 1) as nat) {
            T::law_parse_within(source.skip(n));
        }
    }
}

/// Where some values are not there, no more of them are.
proof fn lemma_list_stops<T: Wire>(source: ByteSource, fewer: nat, count: nat)
    requires
        fewer <= count,
        list_parse::<T>(source, fewer) is None,
    ensures
        list_parse::<T>(source, count) is None,
    decreases count,
{
    if fewer < count {
        lemma_list_stops::<T>(source, fewer, (count - 1) as nat);
    }
}

/// A source that starts with the bytes of some values gives them.
proof fn lemma_list_back<T: Wire>(values: Seq<T>, source: ByteSource)
    requires
        source.starts_with(list_encoding::<T>(models(values))),
    ensures
        list_parse::<T>(source, values.len()) == Some(
            (models(values), list_encoding::<T>(models(values)).len()),
        ),
    decreases values.len(),
{
    let list = models(values);
    if values.len() == 0 {
        assert(list =~= Seq::empty());
    } else {
        let init = values.drop_last();
        assert(models(init) =~= list.drop_last());
        lemma_starts_with_both(
            source,
            list_encoding::<T>(models(init)),
            T::encoding(list.last()),
        );
        lemma_list_back(init, source);
        T::law_parse_back(values.last(), source.skip(list_encoding::<T>(models(init)).len()));
        assert(models(init).push(values.last().model()) =~= list);
    }
}

/// The bytes that values in a row took are their bytes.
proof fn lemma_list_exact<T: Wire>(source: ByteSource, count: nat)
    ensures
        list_parse::<T>(source, count) matches Some((list, n)) ==> list.len() == count
            && source.take(n) == list_encoding::<T>(list),
    decreases count,
{
    if count == 0 {
        assert(source.take(0) =~= Seq::empty());
    } else {
        lemma_list_exact::<T>(source, (count - 1) as nat);
        if let Some((list, n)) = list_parse::<T>(source, (count - 1) as nat) {
            T::law_parse_exact(source.skip(n));
            if let Some((m, k)) = T::parse(source.skip(n)) {
                lemma_take_both(source, n, k);
                assert(list.push(m).drop_last() =~= list);
            }
        }
    }
}

/// Sources that share the bytes that some values took give the same values.
proof fn lemma_list_local<T: Wire>(source: ByteSource, other: ByteSource, count: nat)
    requires
        list_parse::<T>(source, count) is Some,
        other.has(list_parse::<T>(source, count).unwrap().1),
        other.take(list_parse::<T>(source, count).unwrap().1) == source.take(
            list_parse::<T>(source, count).unwrap().1,
        ),
    ensures
        list_parse::<T>(other, count) == list_parse::<T>(source, count),
    decreases count,
{
    if count > 0 {
        let (_, n) = list_parse::<T>(source, (count - 1) as nat).unwrap();
        let (_, k) = T::parse(source.skip(n)).unwrap();
        lemma_same_start(source, other, n, k);
        lemma_list_local::<T>(source, other, (count - 1) as nat);
        T::law_parse_local(source.skip(n), other.skip(n));
    }
}

/// The bytes of the first values of a row, and those of the next one.
proof fn lemma_list_next<T: Wire>(values: Seq<T>, i: int)
    requires
        0 <= i < values.len(),
    ensures
        list_encoding::<T>(models(values.take(i + 1))) == list_encoding::<T>(
            models(values.take(i)),
        ) + T::encoding(values[i].model()),
{
    let next = models(values.take(i + 1));
    assert(next.drop_last() =~= models(values.take(i)));
}

/// Puts the bytes of `values` behind those in `out`.
fn encode_all<T: Wire>(values: &[T], out: &mut Vec<u8>)
    ensures
        final(out)@ == old(out)@ + list_encoding::<T>(models(values@)),
{
    let ghost before = out@;
    let mut i: usize = 0;
    proof {
        assert(models(values@.take(0)) =~= Seq::empty());
        assert(before + list_encoding::<T>(Seq::empty()) =~= before);
    }
    while i < values.len()
        invariant
            i <= values@.len(),
            out@ == before + list_encoding::<T>(models(values@.take(i as int))),
        decreases values@.len() - i,
    {
        proof {
            lemma_list_next(values@, i as int);
        }
        let ghost so_far = out@;
        values[i].encode(out);
        i = i + 1;
        assert(out@ =~= before + list_encoding::<T>(models(values@.take(i as int))));
    }
    assert(values@.take(i as int) =~= values@);
}

/// Hands the bytes of `values` to the writer.
fn store_all<T: Wire>(values: &[T], writer: &mut EthStateWriter)
    ensures
        final(writer)@ == old(writer)@.push_all(list_encoding::<T>(models(values@))),
{
    let ghost before = writer@;
    let mut i: usize = 0;
    proof {
        assert(models(values@.take(0)) =~= Seq::empty());
    }
    while i < values.len()
        invariant
            i <= values@.len(),
            writer@ == before.push_all(list_encoding::<T>(models(values@.take(i as int)))),
        decreases values@.len() - i,
    {
        proof {
            lemma_list_next(values@, i as int);
            lemma_push_all_add(
                before,
                list_encoding::<T>(models(values@.take(i as int))),
                T::encoding(values@[i as int].model()),
            );
        }
        values[i].store(writer);
        i = i + 1;
    }
    assert(values@.take(i as int) =~= values@);
}

/// The `count` values that come first in `bytes` from place `at` on, and the place behind
/// them.
fn decode_all<T: Wire>(bytes: &[u8], at: usize, count: usize) -> (found: Option<(Vec<T>, usize)>)
    requires
        at <= bytes@.len(),
    ensures
        match list_parse::<T>(ByteSource::of_seq(bytes@).skip(at as nat), count as nat) {
            Some((list, n)) => found matches Some((v, end)) && models(v@) == list && end == at + n
                && end <= bytes@.len(),
            None => found is None,
        },
{
    let ghost all = ByteSource::of_seq(bytes@);
    let ghost source = all.skip(at as nat);
    let mut values: Vec<T> = Vec::new();
    let mut place: usize = at;
    let mut i: usize = 0;
    assert(models(values@) =~= Seq::empty());
    while i < count
        invariant
            i <= count,
            at <= place <= bytes@.len(),
            all == ByteSource::of_seq(bytes@),
            source == all.skip(at as nat),
            list_parse::<T>(source, i as nat) == Some((models(values@), (place - at) as nat)),
        decreases count - i,
    {
        let ghost before = values@;
        proof {
            lemma_skip_skip(all, at as nat, (place - at) as nat);
        }
        match T::decode(bytes, place) {
            Some((value, end)) => {
                values.push(value);
                place = end;
                assert(models(values@) =~= models(before).push(value.model()));
            },
            None => {
                proof {
                    lemma_list_stops::<T>(source, (i + 1) as nat, count as nat);
                }
                return None;
            },
        }
        i = i + 1;
    }
    Some((values, place))
}

/// The `count` values that the reader meets first. It is then behind them.
pub(crate) fn load_all<'a, T: Wire>(reader: &mut EthStateReader<'a>, count: usize) -> (found: Option<Vec<T>>)
    ensures
        match list_parse::<T>(old(reader)@, count as nat) {
            Some((list, n)) => found matches Some(v) && models(v@) == list && final(reader)@ == old(
                reader,
            )@.skip(n),
            None => found is None,
        },
{
    let ghost source = reader@;
    let mut values: Vec<T> = Vec::new();
    let mut i: usize = 0;
    let ghost mut taken: nat = 0;
    proof {
        reader.lemma_endless();
        lemma_skip_zero(source);
        assert(models(values@) =~= Seq::empty());
    }
    while i < count
        invariant
            i <= count,
            source == old(reader)@,
            source.len is None,
            reader@ == source.skip(taken),
            list_parse::<T>(source, i as nat) == Some((models(values@), taken)),
        decreases count - i,
    {
        let ghost before = values@;
        match T::load(reader) {
            Some(value) => {
                proof {
                    let (_, n) = T::parse(source.skip(taken)).unwrap();
                    lemma_skip_skip(source, taken, n);
                    taken = taken + n;
                }
                values.push(value);
                assert(models(values@) =~= models(before).push(value.model()));
            },
            None => {
                proof {
                    lemma_list_stops::<T>(source, (i + 1) as nat, count as nat);
                }
                return None;
            },
        }
        i = i + 1;
    }
    Some(values)
}

impl<T: Wire> Wire for Vec<T> {
    type Model = Seq<T::Model>;

    open spec fn model(&self) -> Seq<T::Model> {
        models(self@)
    }

    /// The number of elements as a `u64`, and then the elements.
    open spec fn encoding(model: Seq<T::Model>) -> Seq<u8> {
        u64::encoding(model.len() as u64) + list_encoding::<T>(model)
    }

    open spec fn parse(source: ByteSource) -> Option<(Seq<T::Model>, nat)> {
        match usize::parse(source) {
            Some((count, n)) => match list_parse::<T>(source.skip(n), count as nat) {
                Some((list, k)) => Some((list, n + k)),
                None => None,
            },
            None => None,
        }
    }

    open spec fn code() -> Seq<u64> {
        seq![CODE_VEC] + T::code()
    }

    proof fn law_code(rest: Seq<u64>) {
        lemma_inner_code::<T>(CODE_VEC, rest);
    }

    proof fn law_parse_within(source: ByteSource) {
        usize::law_parse_within(source);
        if let Some((count, n)) = usize::parse(source) {
            lemma_list_within::<T>(source.skip(n), count as nat);
        }
    }

    proof fn law_parse_back(value: Vec<T>, source: ByteSource) {
        let count = value@.len() as usize;
        assert(value@.len() == count) by {
            assert(value.len() == value@.len());
        }
        let list = models(value@);
        lemma_starts_with_both(source, usize::encoding(count), list_encoding::<T>(list));
        usize::law_parse_back(count, source);
        lemma_list_back(value@, source.skip(usize::encoding(count).len()));
    }

    proof fn law_parse_exact(source: ByteSource) {
        usize::law_parse_exact(source);
        if let Some((count, n)) = usize::parse(source) {
            lemma_list_exact::<T>(source.skip(n), count as nat);
            if let Some((_, k)) = list_parse::<T>(source.skip(n), count as nat) {
                lemma_take_both(source, n, k);
            }
        }
    }

    proof fn law_parse_local(source: ByteSource, other: ByteSource) {
        let (count, n) = usize::parse(source).unwrap();
        let (_, k) = list_parse::<T>(source.skip(n), count as nat).unwrap();
        lemma_same_start(source, other, n, k);
        usize::law_parse_local(source, other);
        lemma_list_local::<T>(source.skip(n), other.skip(n), count as nat);
    }

    fn encode(&self, out: &mut Vec<u8>) {
        let ghost before = out@;
        let count: usize = self.len();
        count.encode(out);
        encode_all(self.as_slice(), out);
        assert(out@ =~= before + Self::encoding(self.model()));
    }

    fn decode(bytes: &[u8], at: usize) -> Option<(Vec<T>, usize)> {
        proof {
            let all = ByteSource::of_seq(bytes@);
            if let Some((_, n)) = usize::parse(all.skip(at as nat)) {
                usize::law_parse_within(all.skip(at as nat));
                lemma_skip_skip(all, at as nat, n);
            }
        }
        match usize::decode(bytes, at) {
            Some((count, place)) => decode_all(bytes, place, count),
            None => None,
        }
    }

    fn store(&self, writer: &mut EthStateWriter) {
        proof {
            lemma_push_all_add(
                writer@,
                usize::encoding(self@.len() as usize),
                list_encoding::<T>(models(self@)),
            );
        }
        let count: usize = self.len();
        count.store(writer);
        store_all(self.as_slice(), writer);
    }

    fn load<'a>(reader: &mut EthStateReader<'a>) -> Option<Vec<T>> {
        let ghost source = reader@;
        proof {
            reader.lemma_endless();
        }
        match usize::load(reader) {
            Some(count) => {
                proof {
                    let (_, n) = usize::parse(source).unwrap();
                    if let Some((_, k)) = list_parse::<T>(source.skip(n), count as nat) {
                        lemma_skip_skip(source, n, k);
                    }
                }
                load_all(reader, count)
            },
            None => None,
        }
    }

    fn type_code() -> Vec<u64> {
        let mut code: Vec<u64> = vec![CODE_VEC];
        let mut inner: Vec<u64> = T::type_code();
        code.append(&mut inner);
        code
    }
}

/// `TryFrom<Vec<T>>` of std for arrays: the elements in their places, where they are as
/// many as the array has.
#[verifier::external_body]
fn array_of<T, const N: usize>(values: Vec<T>) -> (array: Result<[T; N], Vec<T>>)
    ensures
        values@.len() == N ==> array is Ok && array->Ok_0@ == values@,
        values@.len() != N ==> array is Err,
{
    <[T; N]>::try_from(values)
}

impl<T: Wire, const N: usize> Wire for [T; N] {
    type Model = Seq<T::Model>;

    open spec fn model(&self) -> Seq<T::Model> {
        models(self@)
    }

    /// The elements; their number is in the type.
    open spec fn encoding(model: Seq<T::Model>) -> Seq<u8> {
        list_encoding::<T>(model)
    }

    open spec fn parse(source: ByteSource) -> Option<(Seq<T::Model>, nat)> {
        list_parse::<T>(source, N as nat)
    }

    open spec fn code() -> Seq<u64> {
        seq![CODE_ARRAY, N as u64] + T::code()
    }

    proof fn law_code(rest: Seq<u64>) {
        let all = Self::code() + rest;
        T::law_code(rest);
        assert(all.skip(2) =~= T::code() + rest);
    }

    proof fn law_parse_within(source: ByteSource) {
        lemma_list_within::<T>(source, N as nat);
    }

    proof fn law_parse_back(value: [T; N], source: ByteSource) {
        lemma_list_back(value@, source);
    }

    proof fn law_parse_exact(source: ByteSource) {
        lemma_list_exact::<T>(source, N as nat);
    }

    proof fn law_parse_local(source: ByteSource, other: ByteSource) {
        lemma_list_local::<T>(source, other, N as nat);
    }

    fn encode(&self, out: &mut Vec<u8>) {
        encode_all(self.as_slice(), out);
    }

    fn decode(bytes: &[u8], at: usize) -> Option<([T; N], usize)> {
        proof {
            lemma_list_within::<T>(ByteSource::of_seq(bytes@).skip(at as nat), N as nat);
        }
        match decode_all::<T>(bytes, at, N) {
            Some((values, place)) => match array_of(values) {
                Ok(array) => Some((array, place)),
                Err(_) => None,
            },
            None => None,
        }
    }

    fn store(&self, writer: &mut EthStateWriter) {
        store_all(self.as_slice(), writer);
    }

    fn load<'a>(reader: &mut EthStateReader<'a>) -> Option<[T; N]> {
        proof {
            lemma_list_within::<T>(reader@, N as nat);
        }
        match load_all::<T>(reader, N) {
            Some(values) => match array_of(values) {
                Ok(array) => Some(array),
                Err(_) => None,
            },
            None => None,
        }
    }

    fn type_code() -> Vec<u64> {
        let mut code: Vec<u64> = vec![CODE_ARRAY, N as u64];
        let mut inner: Vec<u64> = T::type_code();
        code.append(&mut inner);
        code
    }
}

/// Vector types have one code just where their elements do.
pub proof fn law_vec_code<A: Wire, B: Wire>()
    ensures
        Vec::<A>::code() == Vec::<B>::code() <==> A::code() == B::code(),
{
    assert(Vec::<A>::code().skip(1) =~= A::code());
    assert(Vec::<B>::code().skip(1) =~= B::code());
}

/// Array types have one code just where they have one length and their elements one code.
pub proof fn law_array_code<A: Wire, B: Wire, const N: usize, const M: usize>()
    ensures
        <[A; N]>::code() == <[B; M]>::code() <==> N == M && A::code() == B::code(),
{
    assert(<[A; N]>::code()[1] == N as u64);
    assert(<[B; M]>::code()[1] == M as u64);
    assert(<[A; N]>::code().skip(2) =~= A::code());
    assert(<[B; M]>::code().skip(2) =~= B::code());
}

} // verus!
