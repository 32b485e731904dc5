//! Reading and writing runs of bytes that are spread over consecutive blocks of a store.

use vstd::prelude::*;

use crate::keys::{increment, lemma_nth_key_add, next_key, nth_key, H256};
use crate::shim::{block_of, zero_block, Storage};
use crate::source::ByteSource;

verus! {

/// The byte at place `at` of the blocks that begin at `key`.
pub open spec fn stream_byte(blocks: Map<Seq<u8>, Seq<u8>>, key: Seq<u8>, at: nat) -> u8 {
    block_of(blocks, nth_key(key, at / 32))[(at % 32) as int]
}

/// The bytes of the blocks that begin at `key`, from place `from` on. They do not end.
pub open spec fn stream(blocks: Map<Seq<u8>, Seq<u8>>, key: Seq<u8>, from: nat) -> ByteSource {
    ByteSource { at: |i: nat| stream_byte(blocks, key, from + i), len: None }
}

/// Places behind a whole number of blocks are places of the block that is so far away.
proof fn lemma_stream_rebase(blocks: Map<Seq<u8>, Seq<u8>>, key: Seq<u8>, whole: nat, rest: nat)
    ensures
        stream(blocks, key, 32 * whole + rest) == stream(blocks, nth_key(key, whole), rest),
{
    let a = stream(blocks, key, 32 * whole + rest);
    let b = stream(blocks, nth_key(key, whole), rest);
    assert forall|i: nat| #[trigger] (a.at)(i) == (b.at)(i) by {
        let at = 32 * whole + rest + i;
        assert(at / 32 == whole + (rest + i) / 32);
        assert(at % 32 == (rest + i) % 32);
        lemma_nth_key_add(key, whole, (rest + i) / 32);
    }
    assert(a.at =~= b.at);
}

/// Where a reader stands: the blocks that it reads, the key of the block in hand, its
/// bytes, and how many of these were read.
#[verifier::ext_equal]
pub struct ReaderState {
    pub blocks: Map<Seq<u8>, Seq<u8>>,
    pub key: Seq<u8>,
    pub val: Seq<u8>,
    pub index: nat,
}

impl ReaderState {
    /// A reader that stands at byte `index` of the block under `key`.
    pub open spec fn at(
        blocks: Map<Seq<u8>, Seq<u8>>,
        key: Seq<u8>,
        index: nat,
    ) -> ReaderState {
        ReaderState { blocks, key, val: block_of(blocks, key), index }
    }

    /// A block that was read to its end is not in hand any more, and the one in hand is the
    /// one under the key.
    pub open spec fn wf(self) -> bool {
        self.index < 32 && self.val == block_of(self.blocks, self.key)
    }

    /// The bytes that are still to be read.
    pub open spec fn source(self) -> ByteSource {
        stream(self.blocks, self.key, self.index)
    }

    /// The reader after `n` bytes more.
    pub open spec fn after(self, n: nat) -> ReaderState {
        ReaderState::at(
            self.blocks,
            nth_key(self.key, (self.index + n) / 32),
            (self.index + n) % 32,
        )
    }
}

/// A reader that read nothing stands where it stood, and one that read on is as sound as it
/// was: its place is in the block in hand, and the block in hand is the one under its key.
pub proof fn law_reader_stays_sound(state: ReaderState, n: nat)
    requires
        state.wf(),
    ensures
        state.after(0) == state,
        state.after(n).wf(),
        state.after(n).blocks == state.blocks,
{
}

/// How bytes are cut into reads does not matter: two reads give the bytes of one read of
/// both lengths, and leave the reader where that leaves it.
pub proof fn law_reads_compose(state: ReaderState, first: nat, second: nat)
    ensures
        state.source().take(first) + state.after(first).source().take(second)
            == state.source().take(first + second),
        state.after(first).after(second) == state.after(first + second),
        state.after(first).source() == state.source().skip(first),
{
    let at = state.index + first;
    lemma_nth_key_add(state.key, at / 32, (at % 32 + second) / 32);
    assert(at / 32 + (at % 32 + second) / 32 == (at + second) / 32);
    assert((at % 32 + second) % 32 == (at + second) % 32);
    lemma_stream_rebase(state.blocks, state.key, at / 32, at % 32);
    let rest = state.after(first).source();
    assert(rest.at =~= state.source().skip(first).at);
    assert(state.source().take(first) + rest.take(second) =~= state.source().take(
        first + second,
    ));
}

/// Reads bytes out of a store, block after block, from a key on.
pub struct EthStateReader<'a> {
    storage: &'a Storage,
    key: H256,
    val: [u8; 32],
    index: usize,
}

impl<'a> EthStateReader<'a> {
    #[verifier::type_invariant]
    spec fn inv(self) -> bool {
        self.index < 32 && self.val@ == block_of(self.storage@, self.key@)
    }

    /// Where the reader stands.
    pub closed spec fn state(&self) -> ReaderState {
        ReaderState {
            blocks: self.storage@,
            key: self.key@,
            val: self.val@,
            index: self.index as nat,
        }
    }

    /// The bytes that are still to be read.
    pub open spec fn view(&self) -> ByteSource {
        self.state().source()
    }

    /// What a reader reads does not end.
    pub proof fn lemma_endless(&self)
        ensures
            self@.len is None,
    {
    }

    /// A reader at the first byte of the block under `key`.
    pub fn new(storage: &'a Storage, key: H256) -> (reader: EthStateReader<'a>)
        ensures
            reader.state() == ReaderState::at(storage@, key@, 0),
            reader.state().wf(),
            reader.state().blocks == storage@,
            reader.state().key == key.0@,
            reader.state().index == 0,
            reader@ == stream(storage@, key@, 0),
    {
        EthStateReader { storage, key, val: crate::shim::read(storage, &key), index: 0 }
    }

    /// Fills `buf` with the bytes that come next, and says how many they are: all of it.
    pub fn fill(&mut self, buf: &mut [u8]) -> (count: usize)
        ensures
            count == old(buf)@.len(),
            final(buf)@ == old(self)@.take(old(buf)@.len()),
            old(self).state().wf(),
            final(self).state().wf(),
            final(self).state() == old(self).state().after(old(buf)@.len()),
            final(self).state().blocks == old(self).state().blocks,
            final(self).state().key == nth_key(
                old(self).state().key,
                (old(self).state().index + old(buf)@.len()) / 32,
            ),
            final(self).state().index == (old(self).state().index + old(buf)@.len()) % 32,
            forall|i: int|
                0 <= i < old(buf)@.len() ==> #[trigger] final(buf)@[i] == block_of(
                    old(self).state().blocks,
                    nth_key(old(self).state().key, (old(self).state().index + i as nat) / 32),
                )[((old(self).state().index + i) % 32) as int],
            final(self)@ == old(self)@.skip(old(buf)@.len()),
    {
        proof {
            use_type_invariant(&*self);
        }
        let ghost source = self@;
        let ghost start = self.state();
        let len: usize = buf.len();
        let storage: &'a Storage = self.storage;
        let mut key: H256 = self.key;
        let mut val: [u8; 32] = self.val;
        let mut index: usize = self.index;
        let mut done: usize = 0;
        assert(source.skip(0) =~= source);
        while done < len
            invariant
                done <= len == buf@.len() == old(buf)@.len(),
                index < 32,
                val@ == block_of(storage@, key@),
                stream(storage@, key@, index as nat) == source.skip(done as nat),
                ReaderState::at(storage@, key@, index as nat) == start.after(done as nat),
                start.blocks == storage@,
                forall|i: int| 0 <= i < done ==> buf@[i] == (source.at)(i as nat),
            decreases len - done,
        {
            let ghost here = stream(storage@, key@, index as nat);
            proof {
                assert((here.at)(0) == val@[index as int]);
                assert((here.at)(0) == (source.skip(done as nat).at)(0));
            }
            buf[done] = val[index];
            index = index + 1;
            done = done + 1;
            proof {
                assert(stream(storage@, key@, index as nat).at =~= here.skip(1).at);
                assert(here.skip(1).at =~= source.skip(done as nat).at);
            }
            if index == 32 {
                proof {
                    lemma_stream_rebase(storage@, key@, 1, 0);
                    reveal_with_fuel(nth_key, 2);
                }
                increment(&mut key);
                val = crate::shim::read(storage, &key);
                index = 0;
            }
        }
        *self = EthStateReader { storage, key, val, index };
        assert(buf@ =~= source.take(len as nat));
        len
    }
}

/// The error type of `std::io`, which readers and writers here never give.
#[verifier::external_type_specification]
#[verifier::external_body]
pub struct ExIoError(std::io::Error);

impl<'a> std::io::Read for EthStateReader<'a> {
    /// Fills `buf`, as a read of all its bytes does.
    fn read(&mut self, buf: &mut [u8]) -> (outcome: std::io::Result<usize>)
        ensures
            outcome matches Ok(taken) && taken == old(buf)@.len(),
            final(buf)@ == old(self)@.take(old(buf)@.len()),
            old(self).state().wf(),
            final(self).state().wf(),
            final(self).state() == old(self).state().after(old(buf)@.len()),
            final(self)@ == old(self)@.skip(old(buf)@.len()),
    {
        let count: usize = self.fill(buf);
        Ok(count)
    }
}

/// Where a writer stands: the blocks that are stored, the key of the block in hand, its
/// bytes, and how many of these were written.
#[verifier::ext_equal]
pub struct WriterState {
    pub blocks: Map<Seq<u8>, Seq<u8>>,
    pub key: Seq<u8>,
    pub val: Seq<u8>,
    pub index: nat,
}

impl WriterState {
    /// A writer that wrote nothing yet.
    pub open spec fn fresh(blocks: Map<Seq<u8>, Seq<u8>>, key: Seq<u8>) -> WriterState {
        WriterState { blocks, key, val: zero_block(), index: 0 }
    }

    /// The writer once the block in hand is stored.
    pub open spec fn flushed(self) -> WriterState {
        WriterState { blocks: self.blocks.insert(self.key, self.val), ..self }
    }

    /// The writer after one byte more. A full block is stored when the next byte comes,
    /// and the bytes of it that this one does not replace stay in hand.
    pub open spec fn push(self, byte: u8) -> WriterState {
        if self.index < 32 {
            WriterState {
                val: self.val.update(self.index as int, byte),
                index: self.index + 1,
                ..self
            }
        } else {
            WriterState {
                blocks: self.flushed().blocks,
                key: next_key(self.key),
                val: self.val.update(0, byte),
                index: 1,
            }
        }
    }

    /// The writer after all of `bytes`.
    pub open spec fn push_all(self, bytes: Seq<u8>) -> WriterState
        decreases bytes.len(),
    {
        if bytes.len() == 0 {
            self
        } else {
            self.push_all(bytes.drop_last()).push(bytes.last())
        }
    }
}

/// What is stored once `bytes` are written from `key` on and the last block is flushed.
pub open spec fn stored(
    blocks: Map<Seq<u8>, Seq<u8>>,
    key: Seq<u8>,
    bytes: Seq<u8>,
) -> Map<Seq<u8>, Seq<u8>> {
    WriterState::fresh(blocks, key).push_all(bytes).flushed().blocks
}

/// Writing one run of bytes and then another is writing both as one run.
pub proof fn lemma_push_all_add(state: WriterState, first: Seq<u8>, second: Seq<u8>)
    ensures
        state.push_all(first).push_all(second) == state.push_all(first + second),
    decreases second.len(),
{
    if second.len() == 0 {
        assert(first + second =~= first);
    } else {
        lemma_push_all_add(state, first, second.drop_last());
        assert((first + second).drop_last() =~= first + second.drop_last());
    }
}

/// Writes bytes into a store, block after block, from a key on.
pub struct EthStateWriter {
    storage: Storage,
    key: H256,
    val: [u8; 32],
    index: usize,
}

impl EthStateWriter {
    /// Where the writer stands.
    pub closed spec fn view(&self) -> WriterState {
        WriterState {
            blocks: self.storage@,
            key: self.key@,
            val: self.val@,
            index: self.index as nat,
        }
    }

    /// A writer into `storage`, at the first byte of the block under `key`.
    pub fn new(storage: Storage, key: H256) -> (writer: EthStateWriter)
        ensures
            writer@ == WriterState::fresh(storage@, key@),
            writer@.blocks == storage@,
            writer@.key == key.0@,
            writer@.val == Seq::new(32, |i: int| 0u8),
            writer@.index == 0,
    {
        let writer = EthStateWriter { storage, key, val: [0u8; 32], index: 0 };
        assert(writer@.val =~= zero_block());
        writer
    }

    /// Takes `val` in, and says how many bytes that was: all of them.
    pub fn put(&mut self, val: &[u8]) -> (count: usize)
        ensures
            count == val@.len(),
            final(self)@ == old(self)@.push_all(val@),
    {
        let ghost before = self@;
        let len: usize = val.len();
        let mut done: usize = 0;
        assert(val@.take(0) =~= Seq::<u8>::empty());
        while done < len
            invariant
                done <= len == val@.len(),
                self@ == before.push_all(val@.take(done as int)),
            decreases len - done,
        {
            proof {
                assert(val@.take(done + 1).drop_last() =~= val@.take(done as int));
            }
            if self.index >= 32 {
                self.store_block();
                increment(&mut self.key);
                self.index = 0;
            }
            self.val[self.index] = val[done];
            self.index = self.index + 1;
            done = done + 1;
        }
        assert(val@.take(len as int) =~= val@);
        len
    }

    /// Stores the block in hand.
    pub fn store_block(&mut self)
        ensures
            final(self)@ == old(self)@.flushed(),
            final(self)@.blocks == old(self)@.blocks.insert(old(self)@.key, old(self)@.val),
            final(self)@.key == old(self)@.key,
            final(self)@.val == old(self)@.val,
            final(self)@.index == old(self)@.index,
    {
        crate::shim::write(&mut self.storage, &self.key, &self.val);
    }

    /// Gives the store back. What was not flushed is lost.
    pub fn into_storage(self) -> (storage: Storage)
        ensures
            storage@ == self@.blocks,
    {
        self.storage
    }
}

impl std::io::Write for EthStateWriter {
    /// Takes all of `val` in.
    fn write(&mut self, val: &[u8]) -> (outcome: std::io::Result<usize>)
        ensures
            outcome matches Ok(taken) && taken == val@.len(),
            final(self)@ == old(self)@.push_all(val@),
    {
        let count: usize = self.put(val);
        Ok(count)
    }

    /// Stores the block in hand.
    fn flush(&mut self) -> (outcome: std::io::Result<()>)
        ensures
            outcome is Ok,
            final(self)@ == old(self)@.flushed(),
    {
        self.store_block();
        Ok(())
    }
}

/// The bytes of the blocks from a key on are those of the block under it, of the one under
/// the key that follows, and so on, and zeros where there is no block.
pub proof fn law_stream(blocks: Map<Seq<u8>, Seq<u8>>, key: Seq<u8>, from: nat, i: nat)
    ensures
        stream(blocks, key, from).len is None,
        blocks.dom().contains(nth_key(key, (from + i) / 32)) ==> (stream(blocks, key, from).at)(i)
            == blocks[nth_key(key, (from + i) / 32)][((from + i) % 32) as int],
        !blocks.dom().contains(nth_key(key, (from + i) / 32)) ==> (stream(blocks, key, from).at)(i)
            == 0,
{
}

/// A writer takes bytes in one by one. While the block in hand has room, a byte goes into it
/// behind the others; a full block is stored first, and the byte goes to the start of the
/// block under the key that follows.
pub proof fn law_writer_step(state: WriterState, bytes: Seq<u8>, byte: u8)
    requires
        state.val.len() == 32,
    ensures
        state.push_all(Seq::empty()) == state,
        state.push_all(bytes.push(byte)) == state.push_all(bytes).push(byte),
        state.index < 32 ==> {
            &&& state.push(byte).blocks == state.blocks
            &&& state.push(byte).key == state.key
            &&& state.push(byte).val == state.val.update(state.index as int, byte)
            &&& state.push(byte).index == state.index + 1
        },
        state.index >= 32 ==> {
            &&& state.push(byte).blocks == state.blocks.insert(state.key, state.val)
            &&& state.push(byte).key == next_key(state.key)
            &&& state.push(byte).val == state.val.update(0, byte)
            &&& state.push(byte).index == 1
        },
        state.flushed().blocks == state.blocks.insert(state.key, state.val),
        state.flushed().key == state.key,
        state.flushed().val == state.val,
        state.flushed().index == state.index,
{
    assert(bytes.push(byte).drop_last() =~= bytes);
}

/// A reader is sound where its place is in the block in hand and that is the one under its
/// key. It then stands `n` bytes further on in the block that these bytes end in, of the same
/// blocks, and what it reads is what the blocks hold from its place on.
pub proof fn law_reader_state(state: ReaderState, n: nat)
    ensures
        state.wf() <==> state.index < 32 && state.val == block_of(state.blocks, state.key),
        state.after(n).blocks == state.blocks,
        state.after(n).key == nth_key(state.key, (state.index + n) / 32),
        state.after(n).index == (state.index + n) % 32,
        state.after(n).val == block_of(state.blocks, state.after(n).key),
        state.source() == stream(state.blocks, state.key, state.index),
        ReaderState::at(state.blocks, state.key, state.index).key == state.key,
        ReaderState::at(state.blocks, state.key, state.index).index == state.index,
{
}

/// A writer that wrote nothing has a block of zeros in hand, and what is stored once bytes
/// are written is what a writer leaves that takes them all in and is flushed.
pub proof fn law_stored(blocks: Map<Seq<u8>, Seq<u8>>, key: Seq<u8>, bytes: Seq<u8>)
    ensures
        WriterState::fresh(blocks, key).blocks == blocks,
        WriterState::fresh(blocks, key).key == key,
        WriterState::fresh(blocks, key).val == Seq::new(32, |i: int| 0u8),
        WriterState::fresh(blocks, key).index == 0,
        stored(blocks, key, bytes) == WriterState::fresh(blocks, key).push_all(bytes).blocks.insert(
            WriterState::fresh(blocks, key).push_all(bytes).key,
            WriterState::fresh(blocks, key).push_all(bytes).val,
        ),
{
}

} // verus!
