//! Storage keys, and the order in which consecutive blocks of one value follow
//! each other.

use vstd::prelude::*;

use crate::digits::{
    le_bytes, le_value, lemma_bytes_of_value, lemma_le_value_bound, lemma_span_grows, lemma_spans,
    lemma_value_of_bytes, span,
};

verus! {

/// A storage key: 256 bits of unformatted data.
#[derive(Clone, Copy, Debug)]
pub struct H256(pub [u8; 32]);

impl View for H256 {
    type V = Seq<u8>;

    open spec fn view(&self) -> Seq<u8> {
        self.0@
    }
}

impl Default for H256 {
    /// The key of all zeros.
    fn default() -> (key: H256)
        ensures
            key@ == Seq::new(32, |i: int| 0u8),
    {
        let key = H256([0u8; 32]);
        assert(key@ =~= Seq::new(32, |i: int| 0u8));
        key
    }
}

/// The number that follows `n` among the key numbers: the one above it, and 1 after
/// the greatest.
pub open spec fn successor(n: nat) -> nat {
    if n + 1 < span(32) {
        n + 1
    } else {
        1
    }
}

/// The key that follows `key`, both read as little-endian numbers.
pub open spec fn next_key(key: Seq<u8>) -> Seq<u8> {
    le_bytes(successor(le_value(key)), 32)
}

/// The key that is `n` places behind `key`.
pub open spec fn nth_key(key: Seq<u8>, n: nat) -> Seq<u8>
    decreases n,
{
    if n == 0 {
        key
    } else {
        next_key(nth_key(key, (n - 1) as nat))
    }
}

/// A carry that runs through a prefix of bytes at 255 and stops at `at` adds one.
proof fn lemma_carry(before: Seq<u8>, after: Seq<u8>, at: int)
    requires
        before.len() == after.len(),
        0 <= at < before.len(),
        forall|j: int| 0 <= j < at ==> before[j] == 255 && after[j] == 0,
        before[at] < 255,
        after[at] == before[at] + 1,
        forall|j: int| at < j < before.len() ==> after[j] == before[j],
    ensures
        le_value(after) == le_value(before) + 1,
    decreases before.len(),
{
    if at == 0 {
        assert(after.drop_first() =~= before.drop_first());
    } else {
        lemma_carry(before.drop_first(), after.drop_first(), at - 1);
    }
}

/// Bytes that are all 255 denote the greatest number of their length.
proof fn lemma_all_ones(bytes: Seq<u8>)
    requires
        forall|j: int| 0 <= j < bytes.len() ==> bytes[j] == 255,
    ensures
        le_value(bytes) + 1 == span(bytes.len()),
    decreases bytes.len(),
{
    if bytes.len() > 0 {
        lemma_all_ones(bytes.drop_first());
    }
}

/// Bytes that are all zero denote zero.
proof fn lemma_all_zeros(bytes: Seq<u8>)
    requires
        forall|j: int| 0 <= j < bytes.len() ==> bytes[j] == 0,
    ensures
        le_value(bytes) == 0,
    decreases bytes.len(),
{
    if bytes.len() > 0 {
        lemma_all_zeros(bytes.drop_first());
    }
}

/// Moves `hash` on to the key that follows it.
pub fn increment(hash: &mut H256)
    ensures
        final(hash)@ == next_key(old(hash)@),
{
    let ghost before = hash@;
    let mut overflow: bool = true;
    let mut i: usize = 0;
    while i < 32 && overflow
        invariant
            i <= 32,
            before.len() == 32,
            before == old(hash)@,
            overflow ==> forall|j: int| 0 <= j < i ==> #[trigger] before[j] == 255,
            overflow ==> forall|j: int| 0 <= j < i ==> #[trigger] hash@[j] == 0,
            overflow ==> forall|j: int| i <= j < 32 ==> hash@[j] == before[j],
            !overflow ==> le_value(hash@) == le_value(before) + 1,
        decreases 32 - i,
    {
        let ghost carried = hash@;
        let byte: u8 = hash.0[i];
        if byte == 255 {
            hash.0[i] = 0;
        } else {
            hash.0[i] = byte + 1;
            overflow = false;
            proof {
                assert(hash@ =~= carried.update(i as int, (byte + 1) as u8));
                assert forall|j: int| 0 <= j < i implies before[j] == 255 && hash@[j] == 0 by {
                    assert(carried[j] == 0);
                }
                lemma_carry(before, hash@, i as int);
            }
        }
        i = i + 1;
    }
    if overflow {
        let ghost cleared = hash@;
        hash.0[0] = 1;
        proof {
            assert(hash@ =~= cleared.update(0, 1u8));
            assert forall|j: int| 0 < j < 32 implies hash@[j] == 0 by {
                assert(cleared[j] == 0);
            }
            lemma_all_ones(before);
            lemma_all_zeros(hash@.drop_first());
        }
    }
    proof {
        lemma_le_value_bound(hash@);
        lemma_bytes_of_value(hash@);
    }
}

/// The key number `n` places behind the number `k`, for fewer places than there are
/// keys in the cycle.
pub open spec fn advanced(k: nat, n: nat) -> nat {
    if k + n < span(32) {
        k + n
    } else {
        (k + n - (span(32) - 1)) as nat
    }
}

/// The number of the key that is `n` places behind a key.
pub proof fn law_nth_key_value(key: Seq<u8>, n: nat)
    requires
        key.len() == 32,
        n < span(32),
    ensures
        nth_key(key, n).len() == 32,
        le_value(nth_key(key, n)) == advanced(le_value(key), n),
    decreases n,
{
    lemma_le_value_bound(key);
    lemma_span_grows(1, 32);
    lemma_spans();
    if n > 0 {
        let prev = (n - 1) as nat;
        law_nth_key_value(key, prev);
        lemma_value_of_bytes(successor(le_value(nth_key(key, prev))), 32);
    }
}

/// A key at `a + b` places is `b` places behind the one at `a` places.
pub proof fn lemma_nth_key_add(key: Seq<u8>, a: nat, b: nat)
    ensures
        nth_key(nth_key(key, a), b) == nth_key(key, a + b),
    decreases b,
{
    if b > 0 {
        lemma_nth_key_add(key, a, (b - 1) as nat);
    }
}

/// The run of keys behind a key does not come back to a key that it has left, for as
/// many places as there are keys above zero.
pub proof fn law_keys_distinct(key: Seq<u8>, i: nat, j: nat)
    requires
        key.len() == 32,
        i < j < span(32) - 1,
    ensures
        nth_key(key, i) != nth_key(key, j),
{
    law_nth_key_value(key, i);
    law_nth_key_value(key, j);
    lemma_le_value_bound(key);
}

/// The bytes of a key are those that it holds.
pub proof fn law_key_bytes(key: H256)
    ensures
        key@ == key.0@,
{
}

/// In the key that follows a key, one is added to the first byte that is not at its
/// greatest, the bytes before it are zero, and those behind it stay.
pub proof fn law_next_key_carries(key: Seq<u8>, at: int)
    requires
        key.len() == 32,
        0 <= at < 32,
        forall|j: int| 0 <= j < at ==> key[j] == 255,
        key[at] < 255,
    ensures
        next_key(key) == Seq::new(
            32,
            |j: int|
                if j < at {
                    0u8
                } else if j == at {
                    (key[at] + 1) as u8
                } else {
                    key[j]
                },
        ),
{
    let next = Seq::new(
        32,
        |j: int|
            if j < at {
                0u8
            } else if j == at {
                (key[at] + 1) as u8
            } else {
                key[j]
            },
    );
    lemma_carry(key, next, at);
    lemma_le_value_bound(next);
    lemma_bytes_of_value(next);
}

/// The greatest key is followed by the one that is one in its first byte and zero in all
/// others.
pub proof fn law_next_key_wraps(key: Seq<u8>)
    requires
        key.len() == 32,
        forall|j: int| 0 <= j < 32 ==> key[j] == 255,
    ensures
        next_key(key) == Seq::new(
            32,
            |j: int|
                if j == 0 {
                    1u8
                } else {
                    0u8
                },
        ),
{
    let one = Seq::new(
        32,
        |j: int|
            if j == 0 {
                1u8
            } else {
                0u8
            },
    );
    lemma_all_ones(key);
    lemma_all_zeros(one.drop_first());
    lemma_bytes_of_value(one);
}

/// Keys follow each other one by one.
pub proof fn law_nth_key_steps(key: Seq<u8>, n: nat)
    ensures
        nth_key(key, 0) == key,
        nth_key(key, n + 1) == next_key(nth_key(key, n)),
{
}

} // verus!
