//! The block store that the runtime supplies: 32-byte blocks under 32-byte keys.

use vstd::prelude::*;

use crate::keys::H256;

verus! {

/// What a key holds under which nothing was written.
pub open spec fn zero_block() -> Seq<u8> {
    Seq::new(32, |i: int| 0u8)
}

/// The block under `key`: the one that was written last, or zeros.
pub open spec fn block_of(blocks: Map<Seq<u8>, Seq<u8>>, key: Seq<u8>) -> Seq<u8> {
    if blocks.dom().contains(key) {
        blocks[key]
    } else {
        zero_block()
    }
}

struct Entry {
    key: [u8; 32],
    block: [u8; 32],
}

/// A store of blocks. No key occurs in it twice.
pub struct Storage {
    entries: Vec<Entry>,
}

spec fn holds(entries: Seq<Entry>, key: Seq<u8>, at: int) -> bool {
    0 <= at < entries.len() && entries[at].key@ == key
}

spec fn contents(entries: Seq<Entry>) -> Map<Seq<u8>, Seq<u8>> {
    Map::new(
        |key: Seq<u8>| exists|at: int| holds(entries, key, at),
        |key: Seq<u8>| entries[choose|at: int| holds(entries, key, at)].block@,
    )
}

spec fn keys_differ(entries: Seq<Entry>) -> bool {
    forall|a: int, b: int|
        0 <= a < entries.len() && 0 <= b < entries.len() && entries[a].key@ == entries[b].key@
            ==> a == b
}

/// Whether the two keys are the same.
pub(crate) fn same_key(a: &[u8; 32], b: &[u8; 32]) -> (same: bool)
    ensures
        same == (a@ == b@),
{
    let mut i: usize = 0;
    while i < 32
        invariant
            i <= 32,
            forall|j: int| 0 <= j < i ==> a@[j] == b@[j],
        decreases 32 - i,
    {
        if a[i] != b[i] {
            return false;
        }
        i = i + 1;
    }
    assert(a@ =~= b@);
    true
}

impl View for Storage {
    type V = Map<Seq<u8>, Seq<u8>>;

    closed spec fn view(&self) -> Map<Seq<u8>, Seq<u8>> {
        contents(self.entries@)
    }
}

impl Storage {
    #[verifier::type_invariant]
    spec fn inv(self) -> bool {
        keys_differ(self.entries@)
    }

    /// A store in which nothing was written.
    pub fn new() -> (storage: Storage)
        ensures
            storage@ == Map::<Seq<u8>, Seq<u8>>::empty(),
    {
        let storage = Storage { entries: Vec::new() };
        assert(storage@ =~= Map::<Seq<u8>, Seq<u8>>::empty());
        storage
    }

    /// The place of `key` among the entries.
    fn find(&self, key: &[u8; 32]) -> (found: Option<usize>)
        ensures
            match found {
                Some(at) => holds(self.entries@, key@, at as int),
                None => forall|at: int| !holds(self.entries@, key@, at),
            },
    {
        let mut i: usize = 0;
        while i < self.entries.len()
            invariant
                i <= self.entries.len(),
                forall|at: int| 0 <= at < i ==> !holds(self.entries@, key@, at),
            decreases self.entries.len() - i,
        {
            if same_key(&self.entries[i].key, key) {
                return Some(i);
            }
            i = i + 1;
        }
        None
    }
}

impl Default for Storage {
    fn default() -> (storage: Storage)
        ensures
            storage@ == Map::<Seq<u8>, Seq<u8>>::empty(),
    {
        Storage::new()
    }
}

proof fn lemma_contents(entries: Seq<Entry>, at: int)
    requires
        keys_differ(entries),
        0 <= at < entries.len(),
    ensures
        contents(entries).dom().contains(entries[at].key@),
        contents(entries)[entries[at].key@] == entries[at].block@,
{
    assert(holds(entries, entries[at].key@, at));
}

/// Replacing the entry of a key, or adding one for a key that has none, writes it.
proof fn lemma_written(before: Seq<Entry>, after: Seq<Entry>, key: [u8; 32], block: [u8; 32])
    requires
        keys_differ(before),
        ({
            ||| exists|at: int|
                #![trigger before[at]]
                holds(before, key@, at) && after == before.update(at, Entry { key, block })
            ||| (forall|at: int| !holds(before, key@, at)) && after == before.push(
                Entry { key, block },
            )
        }),
    ensures
        keys_differ(after),
        contents(after) == contents(before).insert(key@, block@),
{
    assert(keys_differ(after)) by {
        assert forall|a: int, b: int|
            0 <= a < after.len() && 0 <= b < after.len() && after[a].key@ == after[b].key@ implies a
            == b by {
            if a < before.len() && b < before.len() {
                assert(before[a].key@ == after[a].key@);
                assert(before[b].key@ == after[b].key@);
            } else if a < before.len() {
                assert(!holds(before, key@, a));
            } else if b < before.len() {
                assert(!holds(before, key@, b));
            }
        }
    }
    let written = contents(before).insert(key@, block@);
    assert forall|k: Seq<u8>| contents(after).dom().contains(k) == written.dom().contains(k) by {
        if exists|at: int| holds(after, k, at) {
            let at = choose|at: int| holds(after, k, at);
            if k != key@ {
                assert(holds(before, k, at));
            }
        }
        if exists|at: int| holds(before, k, at) {
            let at = choose|at: int| holds(before, k, at);
            assert(holds(after, k, at));
        }
        if k == key@ {
            if exists|at: int| holds(before, k, at) {
                let at = choose|at: int| holds(before, k, at);
                assert(holds(after, k, at));
            } else {
                assert(holds(after, k, before.len() as int));
            }
        }
    }
    assert forall|k: Seq<u8>| contents(after).dom().contains(k) implies contents(after)[k]
        == written[k] by {
        let at = choose|at: int| holds(after, k, at);
        lemma_contents(after, at);
        if k != key@ {
            assert(holds(before, k, at));
            lemma_contents(before, at);
        } else if after.len() == before.len() {
            let there = choose|there: int|
                #![trigger before[there]]
                holds(before, key@, there) && after == before.update(there, Entry { key, block });
            assert(after[there].key@ == key@);
            assert(at == there);
        } else {
            assert(at < before.len() ==> !holds(before, key@, at));
        }
    }
    assert(contents(after) =~= written);
}

/// Puts the block `val` under `key`, in place of what was there.
pub fn write(storage: &mut Storage, key: &H256, val: &[u8; 32])
    ensures
        final(storage)@ == old(storage)@.insert(key@, val@),
{
    proof {
        use_type_invariant(&*storage);
    }
    let ghost before = storage.entries@;
    let found = storage.find(&key.0);
    let mut entries: Vec<Entry> = Vec::new();
    core::mem::swap(&mut entries, &mut storage.entries);
    match found {
        Some(at) => {
            entries.set(at, Entry { key: key.0, block: *val });
        },
        None => {
            entries.push(Entry { key: key.0, block: *val });
        },
    }
    let ghost after = entries@;
    proof {
        lemma_written(before, after, key.0, *val);
    }
    storage.entries = entries;
}

/// The block under `key`, or zeros where nothing was written.
pub fn read(storage: &Storage, key: &H256) -> (block: [u8; 32])
    ensures
        block@ == block_of(storage@, key@),
        storage@.dom().contains(key.0@) ==> block@ == storage@[key.0@],
        !storage@.dom().contains(key.0@) ==> forall|i: int| 0 <= i < 32 ==> block@[i] == 0,
{
    proof {
        use_type_invariant(storage);
    }
    match storage.find(&key.0) {
        Some(at) => storage.entries[at].block,
        None => [0u8; 32],
    }
}

/// The block under a key is the one that is there, and 32 zeros where none is.
pub proof fn law_block_of(blocks: Map<Seq<u8>, Seq<u8>>, key: Seq<u8>)
    ensures
        blocks.dom().contains(key) ==> block_of(blocks, key) == blocks[key],
        !blocks.dom().contains(key) ==> block_of(blocks, key) == Seq::new(32, |i: int| 0u8),
{
}

} // verus!
