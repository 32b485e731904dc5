//! One value of the state: read from the store when it is first looked at, and written
//! back if it was changed.

use core::marker::PhantomData;

use vstd::prelude::*;

use crate::eth_laws::{fits, law_other_blocks_stay, law_read_back, touches};
use crate::eth_state::{stored, stream, EthStateReader, EthStateWriter};
use crate::keccak::{sha3_256, sha3_256_byte, sha3_256_output};
use crate::keys::{nth_key, H256};
use crate::marker::{BorrowMarker, BorrowMut, Immut};
use crate::shim::Storage;
use crate::wire::Wire;

verus! {

/// The key under which the value called `name` begins.
pub open spec fn key_of(name: Seq<char>) -> Seq<u8> {
    sha3_256_output(vstd::utf8::encode_utf8(name), 32)
}

/// The key under which the value called `name` begins.
pub fn key_for(name: &'static str) -> (key: H256)
    ensures
        key@ == key_of(name@),
        forall|i: int|
            0 <= i < 32 ==> #[trigger] key.0@[i] == sha3_256_byte(
                vstd::utf8::encode_utf8(name@),
                i as nat,
            ),
{
    let mut out: [u8; 32] = [0u8; 32];
    sha3_256(name.as_bytes(), &mut out);
    assert(out@ =~= key_of(name@));
    H256(out)
}

/// The value that is stored from `key` on, if there is one.
pub open spec fn value_at<T: Wire>(blocks: Map<Seq<u8>, Seq<u8>>, key: Seq<u8>) -> Option<
    T::Model,
> {
    match T::parse(stream(blocks, key, 0)) {
        Some((model, _)) => Some(model),
        None => None,
    }
}

/// A value of the state. What was changed of it is written back by `drop` alone.
#[must_use]
pub struct Getter<Marker: BorrowMarker, T: Wire> {
    key: H256,
    _marker: PhantomData<(Marker, T)>,
    current: Option<T>,
    changes: Marker::Store,
}

impl<M: BorrowMarker, T: Wire> Getter<M, T> {
    /// The key under which the value begins.
    pub closed spec fn key(&self) -> Seq<u8> {
        self.key@
    }

    /// The value as far as it is in memory.
    pub closed spec fn current(&self) -> Option<T> {
        self.current
    }

    /// Whether the value is to be written back.
    pub closed spec fn changed(&self) -> bool {
        M::changed(self.changes)
    }

    /// A value that is to be written back is in memory.
    pub open spec fn wf(&self) -> bool {
        self.changed() ==> self.current() is Some
    }

    /// What a look at the value shows: the one in memory, or else the stored one.
    pub open spec fn seen(&self, blocks: Map<Seq<u8>, Seq<u8>>) -> Option<T::Model> {
        match self.current() {
            Some(value) => Some(value.model()),
            None => value_at::<T>(blocks, self.key()),
        }
    }

    /// The value that begins under `key`, with nothing of it in memory.
    pub fn at_key(key: H256) -> (getter: Getter<M, T>)
        ensures
            getter.key() == key@,
            getter.key() == key.0@,
            getter.key().len() == 32,
            getter.current() is None,
            !getter.changed(),
            getter.wf(),
    {
        let changes: M::Store = Default::default();
        proof {
            M::lemma_default(changes);
        }
        Getter { key, _marker: PhantomData, current: None, changes }
    }

    /// The value called `name`, with nothing of it in memory.
    pub fn new(name: &'static str) -> (getter: Getter<M, T>)
        ensures
            getter.key() == key_of(name@),
            getter.key().len() == 32,
            forall|i: int|
                0 <= i < 32 ==> #[trigger] getter.key()[i] == sha3_256_byte(
                    vstd::utf8::encode_utf8(name@),
                    i as nat,
                ),
            getter.current() is None,
            !getter.changed(),
            getter.wf(),
    {
        Getter::at_key(key_for(name))
    }

    /// Brings the stored value into memory, unless a value is there. `false` where what
    /// is stored is no value; nothing is changed then.
    pub fn load(&mut self, storage: &Storage) -> (loaded: bool)
        ensures
            loaded == (old(self).seen(storage@) is Some),
            final(self).key() == old(self).key(),
            final(self).changed() == old(self).changed(),
            loaded ==> final(self).current() is Some && final(self).current().unwrap().model()
                == old(self).seen(storage@).unwrap(),
            old(self).current() is Some ==> final(self).current() == old(self).current(),
            !loaded ==> final(self).current() is None,
            old(self).wf() ==> final(self).wf(),
    {
        if self.current.is_none() {
            let mut reader = EthStateReader::new(storage, self.key);
            self.current = T::load(&mut reader);
        }
        self.current.is_some()
    }

    /// Brings the stored value into memory, unless a value is there.
    pub fn populate(&mut self, storage: &Storage)
        requires
            old(self).seen(storage@) is Some,
        ensures
            final(self).key() == old(self).key(),
            final(self).changed() == old(self).changed(),
            final(self).current() is Some,
            final(self).current().unwrap().model() == old(self).seen(storage@).unwrap(),
            old(self).current() is Some ==> final(self).current() == old(self).current(),
            final(self).wf(),
    {
        self.load(storage);
    }

    /// Looks at the value.
    pub fn deref(&mut self, storage: &Storage) -> (value: &T)
        requires
            old(self).seen(storage@) is Some,
        ensures
            value.model() == old(self).seen(storage@).unwrap(),
            final(self).key() == old(self).key(),
            final(self).changed() == old(self).changed(),
            final(self).current() == Some(*value),
            old(self).current() is Some ==> final(self).current() == old(self).current(),
            final(self).wf(),
    {
        self.populate(storage);
        self.current.as_ref().unwrap()
    }

    /// Gives the value up, and writes it back if it was changed.
    pub fn drop(self, storage: &mut Storage)
        requires
            self.wf(),
        ensures
            final(storage)@ == (if self.changed() {
                stored(old(storage)@, self.key(), T::encoding(self.current().unwrap().model()))
            } else {
                old(storage)@
            }),
    {
        if M::is_changed(&self.changes) {
            match self.current {
                Some(value) => {
                    let mut taken = Storage::new();
                    core::mem::swap(storage, &mut taken);
                    let mut writer = EthStateWriter::new(taken, self.key);
                    value.store(&mut writer);
                    writer.store_block();
                    *storage = writer.into_storage();
                },
                None => {},
            }
        }
    }
}

impl<M: BorrowMut, T: Wire> Getter<M, T> {
    /// Puts `val` in place of the value.
    pub fn set(&mut self, val: T)
        ensures
            final(self).key() == old(self).key(),
            final(self).current() == Some(val),
            final(self).changed(),
            final(self).wf(),
    {
        proof {
            M::lemma_tracks();
        }
        M::mark_changed(&mut self.changes);
        self.current = Some(val);
    }

    /// Takes the value in hand to be changed.
    pub fn deref_mut(&mut self, storage: &Storage) -> (value: &mut T)
        requires
            old(self).seen(storage@) is Some,
        ensures
            (*value).model() == old(self).seen(storage@).unwrap(),
            old(self).current() is Some ==> old(self).current() == Some(*value),
            final(self).key() == old(self).key(),
            final(self).current() == Some(*final(value)),
            final(self).changed(),
            final(self).wf(),
    {
        self.populate(storage);
        proof {
            M::lemma_tracks();
        }
        M::mark_changed(&mut self.changes);
        self.current.as_mut().unwrap()
    }
}

/// The key of a name is the hash of all of its text.
pub proof fn law_key_of(name: Seq<char>)
    ensures
        key_of(name).len() == 32,
        forall|i: int|
            0 <= i < 32 ==> #[trigger] key_of(name)[i] == sha3_256_byte(
                vstd::utf8::encode_utf8(name),
                i as nat,
            ),
{
}

/// Two names have one key just where the hashes of their whole texts are the same.
pub proof fn law_same_key(name: Seq<char>, other: Seq<char>)
    ensures
        key_of(name) == key_of(other) <==> forall|i: nat|
            i < 32 ==> #[trigger] sha3_256_byte(vstd::utf8::encode_utf8(name), i)
                == sha3_256_byte(vstd::utf8::encode_utf8(other), i),
{
    law_key_of(name);
    law_key_of(other);
    if key_of(name) == key_of(other) {
        assert forall|i: nat| i < 32 implies #[trigger] sha3_256_byte(
            vstd::utf8::encode_utf8(name),
            i,
        ) == sha3_256_byte(vstd::utf8::encode_utf8(other), i) by {
            assert(key_of(name)[i as int] == key_of(other)[i as int]);
        }
    }
    if forall|i: nat|
        i < 32 ==> #[trigger] sha3_256_byte(vstd::utf8::encode_utf8(name), i) == sha3_256_byte(
            vstd::utf8::encode_utf8(other),
            i,
        ) {
        assert(key_of(name) =~= key_of(other));
    }
}

/// What a look shows is the value in memory, where there is one, and else the one whose
/// bytes are stored.
pub proof fn law_seen<M: BorrowMarker, T: Wire>(
    getter: Getter<M, T>,
    blocks: Map<Seq<u8>, Seq<u8>>,
    value: T,
)
    ensures
        getter.current() == Some(value) ==> getter.seen(blocks) == Some(value.model()),
        getter.current() is None && stream(blocks, getter.key(), 0).starts_with(
            T::encoding(value.model()),
        ) ==> getter.seen(blocks) == Some(value.model()),
        getter.current() is None ==> getter.seen(blocks) == value_at::<T>(blocks, getter.key()),
{
    if stream(blocks, getter.key(), 0).starts_with(T::encoding(value.model())) {
        T::law_parse_back(value, stream(blocks, getter.key(), 0));
    }
}

/// A value is found under a key only where its bytes are stored from the key on.
pub proof fn law_value_at<T: Wire>(blocks: Map<Seq<u8>, Seq<u8>>, key: Seq<u8>)
    ensures
        value_at::<T>(blocks, key) matches Some(m) ==> stream(blocks, key, 0).starts_with(
            T::encoding(m),
        ),
{
    let source = stream(blocks, key, 0);
    T::law_parse_exact(source);
}

/// A value that was borrowed to be looked at is never to be written back.
pub proof fn law_immut_unchanged<T: Wire>(getter: Getter<Immut, T>)
    ensures
        !getter.changed(),
{
}

/// A value that was written back under a key is the value that is stored there.
pub proof fn law_written_is_read<T: Wire>(
    blocks: Map<Seq<u8>, Seq<u8>>,
    key: Seq<u8>,
    value: T,
)
    requires
        key.len() == 32,
        fits(T::encoding(value.model()).len()),
    ensures
        value_at::<T>(stored(blocks, key, T::encoding(value.model())), key) == Some(value.model()),
{
    let bytes = T::encoding(value.model());
    law_read_back(blocks, key, bytes);
    T::law_parse_back(value, stream(stored(blocks, key, bytes), key, 0));
}

/// Storing bytes under one key leaves a value under another alone, as long as none of the
/// blocks that the value takes up is among those that are stored.
pub proof fn law_other_value_stays<T: Wire>(
    blocks: Map<Seq<u8>, Seq<u8>>,
    key: Seq<u8>,
    bytes: Seq<u8>,
    other: Seq<u8>,
)
    requires
        key.len() == 32,
        fits(bytes.len()),
        T::parse(stream(blocks, other, 0)) is Some,
        forall|j: nat|
            32 * j < T::parse(stream(blocks, other, 0)).unwrap().1 ==> !touches(
                key,
                bytes.len(),
                #[trigger] nth_key(other, j),
            ),
    ensures
        value_at::<T>(stored(blocks, key, bytes), other) == value_at::<T>(blocks, other),
{
    let before = stream(blocks, other, 0);
    let after = stream(stored(blocks, key, bytes), other, 0);
    let (_, len) = T::parse(before).unwrap();
    assert forall|i: int| 0 <= i < len implies after.take(len)[i] == before.take(len)[i] by {
        let j = (i / 32) as nat;
        law_other_blocks_stay(blocks, key, bytes, nth_key(other, j));
    }
    assert(after.take(len) =~= before.take(len));
    T::law_parse_local(before, after);
}

/// A value is sound where it is in memory, or is not to be written back.
pub proof fn law_wf<M: BorrowMarker, T: Wire>(getter: Getter<M, T>)
    ensures
        getter.wf() <==> !getter.changed() || getter.current() is Some,
{
}

} // verus!
