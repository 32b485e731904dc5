//! What is stored by a writer, and what a reader gets back of it.

use vstd::arithmetic::power::pow;
use vstd::prelude::*;

use crate::digits::{lemma_span_pow, span};
use crate::eth_state::{lemma_push_all_add, stored, stream, stream_byte, WriterState};
use crate::keys::{law_keys_distinct, nth_key};
use crate::shim::block_of;

verus! {

/// Whether bytes so many fit into the blocks behind a key without coming round to a key
/// that is already in use for them.
pub open spec fn fits(len: nat) -> bool {
    len <= 32 * (span(32) - 1)
}

/// Whether the block under `other` is one of those that a run of `len` bytes from `key`
/// on is stored in. A run of no bytes takes one block too.
pub open spec fn touches(key: Seq<u8>, len: nat, other: Seq<u8>) -> bool {
    exists|j: nat| (j == 0 || 32 * j < len) && other == #[trigger] nth_key(key, j)
}

/// The bytes that go into the block at place `j` of a run.
pub open spec fn part(bytes: Seq<u8>, j: nat) -> Seq<u8> {
    bytes.subrange((32 * j) as int, (32 * j + 32) as int)
}

/// Where a writer stands that began at `key` in `blocks` and took in `bytes`, and flushed
/// nothing since: the block in hand is the last that bytes went into. The blocks before it
/// are stored, each with its part of the bytes, and no other block was touched. The tail of
/// the block in hand, behind the bytes, is that of the block before it, or zeros.
pub open spec fn stands(
    blocks: Map<Seq<u8>, Seq<u8>>,
    key: Seq<u8>,
    bytes: Seq<u8>,
    w: WriterState,
) -> bool {
    let last = ((bytes.len() - 1) / 32) as nat;
    &&& w.val.len() == 32
    &&& bytes.len() == 0 ==> w == WriterState::fresh(blocks, key)
    &&& bytes.len() > 0 ==> {
        &&& w.index == (bytes.len() - 1) % 32 + 1
        &&& w.key == nth_key(key, last)
        &&& forall|i: int| 0 <= i < w.index ==> #[trigger] w.val[i] == bytes[32 * last + i]
        &&& forall|i: int|
            w.index <= i < 32 ==> #[trigger] w.val[i] == (if last > 0 {
                bytes[32 * (last - 1) + i]
            } else {
                0
            })
        &&& forall|j: nat|
            j < last ==> w.blocks.dom().contains(#[trigger] nth_key(key, j)) && w.blocks[nth_key(
                key,
                j,
            )] == part(bytes, j)
        &&& forall|k: Seq<u8>|
            (forall|j: nat| j < last ==> k != #[trigger] nth_key(key, j)) ==> (
            #[trigger] w.blocks.dom().contains(k) <==> blocks.dom().contains(k)) && w.blocks[k]
                == blocks[k]
    }
}

/// What a writer stored before it is flushed, and what it has in hand.
pub proof fn law_before_flush(blocks: Map<Seq<u8>, Seq<u8>>, key: Seq<u8>, bytes: Seq<u8>)
    requires
        key.len() == 32,
        fits(bytes.len()),
    ensures
        stands(blocks, key, bytes, WriterState::fresh(blocks, key).push_all(bytes)),
    decreases bytes.len(),
{
    let fresh = WriterState::fresh(blocks, key);
    if bytes.len() > 0 {
        let init = bytes.drop_last();
        law_before_flush(blocks, key, init);
        let v = fresh.push_all(init);
        let w = fresh.push_all(bytes);
        assert(w == v.push(bytes.last()));
        let last = ((bytes.len() - 1) / 32) as nat;
        if v.index < 32 {
            if init.len() > 0 {
                assert((init.len() - 1) / 32 == last);
                assert forall|j: nat| j < last implies w.blocks.dom().contains(
                    #[trigger] nth_key(key, j),
                ) && w.blocks[nth_key(key, j)] == part(bytes, j) by {
                    assert(part(init, j) =~= part(bytes, j));
                }
            }
        } else {
            let full = ((init.len() - 1) / 32) as nat;
            assert(last == full + 1);
            assert(bytes.len() == 32 * last + 1);
            reveal_with_fuel(nth_key, 2);
            assert(v.val =~= part(bytes, full));
            assert forall|j: nat| j < last implies w.blocks.dom().contains(
                #[trigger] nth_key(key, j),
            ) && w.blocks[nth_key(key, j)] == part(bytes, j) by {
                if j < full {
                    law_keys_distinct(key, j, full);
                    assert(part(init, j) =~= part(bytes, j));
                }
            }
            assert forall|k: Seq<u8>|
                (forall|j: nat| j < last ==> k != #[trigger] nth_key(key, j)) implies (
            #[trigger] w.blocks.dom().contains(k) <==> blocks.dom().contains(k)) && w.blocks[k]
                == blocks[k] by {
                assert(k != nth_key(key, full));
                assert(v.blocks.dom().contains(k) <==> blocks.dom().contains(k));
            }
        }
    }
}

/// Writers that agree but for what is stored under the key of the block in hand agree in all
/// that is stored, once they took in the same bytes and were flushed.
proof fn lemma_same_end(w: WriterState, v: WriterState, bytes: Seq<u8>)
    requires
        v == (WriterState { blocks: v.blocks, ..w }),
        forall|val: Seq<u8>| #[trigger]
            v.blocks.insert(w.key, val) == w.blocks.insert(w.key, val),
    ensures
        ({
            let (w, v) = (w.push_all(bytes), v.push_all(bytes));
            &&& v == (WriterState { blocks: v.blocks, ..w })
            &&& forall|val: Seq<u8>| #[trigger]
                v.blocks.insert(w.key, val) == w.blocks.insert(w.key, val)
        }),
    decreases bytes.len(),
{
    if bytes.len() > 0 {
        lemma_same_end(w, v, bytes.drop_last());
    }
}

/// A flush between writes changes nothing of what is stored in the end.
pub proof fn law_flush_between(
    blocks: Map<Seq<u8>, Seq<u8>>,
    key: Seq<u8>,
    first: Seq<u8>,
    second: Seq<u8>,
)
    ensures
        WriterState::fresh(blocks, key).push_all(first).flushed().push_all(second).flushed().blocks
            == stored(blocks, key, first + second),
{
    let w = WriterState::fresh(blocks, key).push_all(first);
    assert forall|val: Seq<u8>| #[trigger]
        w.flushed().blocks.insert(w.key, val) == w.blocks.insert(w.key, val) by {
        assert(w.flushed().blocks.insert(w.key, val) =~= w.blocks.insert(w.key, val));
    }
    lemma_same_end(w, w.flushed(), second);
    lemma_push_all_add(WriterState::fresh(blocks, key), first, second);
}

/// What a writer stored from a key on, a reader that begins at the key gets back, byte
/// for byte.
pub proof fn law_read_back(blocks: Map<Seq<u8>, Seq<u8>>, key: Seq<u8>, bytes: Seq<u8>)
    requires
        key.len() == 32,
        fits(bytes.len()),
    ensures
        stream(stored(blocks, key, bytes), key, 0).starts_with(bytes),
{
    law_before_flush(blocks, key, bytes);
    let w = WriterState::fresh(blocks, key).push_all(bytes);
    let after = stored(blocks, key, bytes);
    let source = stream(after, key, 0);
    assert forall|i: int| 0 <= i < bytes.len() implies source.take(bytes.len())[i] == bytes[i] by {
        let last = ((bytes.len() - 1) / 32) as nat;
        let j = (i / 32) as nat;
        assert(source.take(bytes.len())[i] == stream_byte(after, key, i as nat));
        if j < last {
            law_keys_distinct(key, j, last);
            assert(w.blocks.dom().contains(nth_key(key, j)));
        }
    }
    assert(source.take(bytes.len()) =~= bytes);
}

/// Storing bytes from a key on leaves every block alone that is not one of theirs.
pub proof fn law_other_blocks_stay(
    blocks: Map<Seq<u8>, Seq<u8>>,
    key: Seq<u8>,
    bytes: Seq<u8>,
    other: Seq<u8>,
)
    requires
        key.len() == 32,
        fits(bytes.len()),
        !touches(key, bytes.len(), other),
    ensures
        stored(blocks, key, bytes).dom().contains(other) <==> blocks.dom().contains(other),
        stored(blocks, key, bytes)[other] == blocks[other],
        block_of(stored(blocks, key, bytes), other) == block_of(blocks, other),
{
    law_before_flush(blocks, key, bytes);
    let w = WriterState::fresh(blocks, key).push_all(bytes);
    assert(nth_key(key, 0) == key);
    if bytes.len() > 0 {
        let last = ((bytes.len() - 1) / 32) as nat;
        assert forall|j: nat| j <= last implies other != #[trigger] nth_key(key, j) by {
            assert(j == 0 || 32 * j < bytes.len());
        }
        assert(w.blocks.dom().contains(other) <==> blocks.dom().contains(other));
    }
}

/// The tail of the last block, behind the bytes that were written, holds the bytes of the
/// block before it, or zeros where the run has one block only.
pub proof fn law_tail_is_stale(
    blocks: Map<Seq<u8>, Seq<u8>>,
    key: Seq<u8>,
    bytes: Seq<u8>,
    at: nat,
)
    requires
        key.len() == 32,
        fits(bytes.len()),
        bytes.len() <= at,
        at / 32 == (if bytes.len() == 0 {
            0
        } else {
            (bytes.len() - 1) / 32
        }),
    ensures
        stream_byte(stored(blocks, key, bytes), key, at) == (if at < 32 {
            0
        } else {
            bytes[at - 32]
        }),
{
    law_before_flush(blocks, key, bytes);
    let w = WriterState::fresh(blocks, key).push_all(bytes);
    assert(nth_key(key, 0) == key);
    assert(w.key == nth_key(key, at / 32));
    assert(stream_byte(stored(blocks, key, bytes), key, at) == w.val[(at % 32) as int]);
}

/// Bytes fit that are no more than the blocks under all keys but one hold.
pub proof fn law_fits(len: nat)
    ensures
        fits(len) <==> len <= 32 * (pow(256, 32) - 1),
{
    lemma_span_pow(32);
}

/// Each byte that was written from a key on is stored in its place: in blocks of 32, the
/// first under the key itself, the next under the key that follows, and so on.
pub proof fn law_stored_bytes(
    blocks: Map<Seq<u8>, Seq<u8>>,
    key: Seq<u8>,
    bytes: Seq<u8>,
    i: int,
)
    requires
        key.len() == 32,
        bytes.len() <= 32 * (pow(256, 32) - 1),
        0 <= i < bytes.len(),
    ensures
        stored(blocks, key, bytes).dom().contains(nth_key(key, (i / 32) as nat)),
        stored(blocks, key, bytes)[nth_key(key, (i / 32) as nat)].len() == 32,
        stored(blocks, key, bytes)[nth_key(key, (i / 32) as nat)][i % 32] == bytes[i],
{
    law_fits(bytes.len());
    law_before_flush(blocks, key, bytes);
    let w = WriterState::fresh(blocks, key).push_all(bytes);
    let last = ((bytes.len() - 1) / 32) as nat;
    let j = (i / 32) as nat;
    if j < last {
        law_keys_distinct(key, j, last);
        assert(w.blocks.dom().contains(nth_key(key, j)));
        assert(w.blocks[nth_key(key, j)] == part(bytes, j));
    } else {
        assert(j == last);
    }
}

/// The block in which written bytes end holds, behind them, the bytes that stand a block
/// before, or zeros where the bytes take one block only.
pub proof fn law_stored_tail(
    blocks: Map<Seq<u8>, Seq<u8>>,
    key: Seq<u8>,
    bytes: Seq<u8>,
    i: int,
)
    requires
        key.len() == 32,
        bytes.len() <= 32 * (pow(256, 32) - 1),
        bytes.len() <= i,
        i / 32 == (if bytes.len() == 0 {
            0
        } else {
            (bytes.len() - 1) / 32
        }),
    ensures
        stored(blocks, key, bytes).dom().contains(nth_key(key, (i / 32) as nat)),
        stored(blocks, key, bytes)[nth_key(key, (i / 32) as nat)].len() == 32,
        stored(blocks, key, bytes)[nth_key(key, (i / 32) as nat)][i % 32] == (if i < 32 {
            0
        } else {
            bytes[i - 32]
        }),
{
    law_fits(bytes.len());
    law_before_flush(blocks, key, bytes);
    let w = WriterState::fresh(blocks, key).push_all(bytes);
    assert(nth_key(key, 0) == key);
    assert(w.key == nth_key(key, (i / 32) as nat));
}

/// Blocks that no written byte belongs to stay as they were.
pub proof fn law_stored_elsewhere(
    blocks: Map<Seq<u8>, Seq<u8>>,
    key: Seq<u8>,
    bytes: Seq<u8>,
    other: Seq<u8>,
)
    requires
        key.len() == 32,
        bytes.len() <= 32 * (pow(256, 32) - 1),
        other != key,
        forall|i: int|
            0 <= i < bytes.len() ==> other != nth_key(key, (#[trigger] (i / 32)) as nat),
    ensures
        stored(blocks, key, bytes).dom().contains(other) <==> blocks.dom().contains(other),
        stored(blocks, key, bytes)[other] == blocks[other],
{
    law_fits(bytes.len());
    assert forall|j: nat| (j == 0 || 32 * j < bytes.len()) implies other != #[trigger] nth_key(
        key,
        j,
    ) by {
        if j > 0 {
            let i: int = 32 * j as int;
            assert(i / 32 == j);
        }
    }
    assert(!touches(key, bytes.len(), other));
    law_other_blocks_stay(blocks, key, bytes, other);
}

} // verus!
