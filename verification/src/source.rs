//! What a decoder reads from: bytes one after the other, with or without an end.

use vstd::prelude::*;

verus! {

/// Bytes that are still to be read. `len` is how many there are; where it is `None`
/// they do not end.
#[verifier::ext_equal]
pub struct ByteSource {
    pub at: spec_fn(nat) -> u8,
    pub len: Option<nat>,
}

impl ByteSource {
    /// The bytes of `bytes`, and then the end.
    pub open spec fn of_seq(bytes: Seq<u8>) -> ByteSource {
        ByteSource {
            at: |i: nat|
                if i < bytes.len() {
                    bytes[i as int]
                } else {
                    0u8
                },
            len: Some(bytes.len()),
        }
    }

    /// Whether at least `n` bytes are left.
    pub open spec fn has(self, n: nat) -> bool {
        match self.len {
            Some(len) => n <= len,
            None => true,
        }
    }

    /// The first `n` bytes.
    pub open spec fn take(self, n: nat) -> Seq<u8> {
        Seq::new(n, |i: int| (self.at)(i as nat))
    }

    /// What is left behind the first `n` bytes.
    pub open spec fn skip(self, n: nat) -> ByteSource {
        ByteSource {
            at: |i: nat| (self.at)(i + n),
            len: match self.len {
                Some(len) => Some((len - n) as nat),
                None => None,
            },
        }
    }

    /// Whether `bytes` come first.
    pub open spec fn starts_with(self, bytes: Seq<u8>) -> bool {
        self.has(bytes.len()) && self.take(bytes.len()) == bytes
    }
}

/// Skipping nothing changes nothing.
pub proof fn lemma_skip_zero(source: ByteSource)
    ensures
        source.skip(0) == source,
{
    assert(source.skip(0) =~= source);
}

/// Skipping twice is skipping once by the sum.
pub proof fn lemma_skip_skip(source: ByteSource, a: nat, b: nat)
    requires
        source.has(a + b),
    ensures
        source.skip(a).skip(b) == source.skip(a + b),
        source.skip(a).has(b),
{
    assert(source.skip(a).skip(b).at =~= source.skip(a + b).at);
}

/// Skipping in a finite source is skipping in its bytes.
pub proof fn lemma_skip_seq(bytes: Seq<u8>, n: nat)
    requires
        n <= bytes.len(),
    ensures
        ByteSource::of_seq(bytes).skip(n) == ByteSource::of_seq(bytes.skip(n as int)),
{
    assert(ByteSource::of_seq(bytes).skip(n).at =~= ByteSource::of_seq(bytes.skip(n as int)).at);
}

/// The first bytes of a source are those of a first part, and then those behind it.
pub proof fn lemma_take_both(source: ByteSource, first: nat, second: nat)
    ensures
        source.take(first + second) == source.take(first) + source.skip(first).take(second),
{
    assert(source.take(first + second) =~= source.take(first) + source.skip(first).take(second));
}

/// A source that starts with two runs of bytes starts with the first, and what is left
/// behind it starts with the second.
pub proof fn lemma_starts_with_both(source: ByteSource, first: Seq<u8>, second: Seq<u8>)
    requires
        source.starts_with(first + second),
    ensures
        source.starts_with(first),
        source.skip(first.len()).starts_with(second),
{
    let both = first + second;
    let taken = source.take(both.len());
    assert(source.take(first.len()) =~= first) by {
        assert forall|i: int| 0 <= i < first.len() implies source.take(first.len())[i] == first[i]
            by {
            assert(taken[i] == both[i]);
        }
    }
    let rest = source.skip(first.len());
    assert(rest.take(second.len()) =~= second) by {
        assert forall|i: int| 0 <= i < second.len() implies rest.take(second.len())[i]
            == second[i] by {
            assert(taken[i + first.len()] == both[i + first.len()]);
        }
    }
}

/// Two sources that share their first bytes share the first of these, and behind them the
/// others.
pub proof fn lemma_same_start(source: ByteSource, other: ByteSource, first: nat, second: nat)
    requires
        source.take(first + second) == other.take(first + second),
        other.has(first + second),
    ensures
        source.take(first) == other.take(first),
        other.has(first),
        source.skip(first).take(second) == other.skip(first).take(second),
        other.skip(first).has(second),
{
    let s = source.take(first + second);
    let o = other.take(first + second);
    assert forall|i: int| 0 <= i < first implies source.take(first)[i] == other.take(first)[i] by {
        assert(s[i] == o[i]);
    }
    assert(source.take(first) =~= other.take(first));
    assert forall|i: int| 0 <= i < second implies source.skip(first).take(second)[i]
        == other.skip(first).take(second)[i] by {
        assert(s[i + first] == o[i + first]);
    }
    assert(source.skip(first).take(second) =~= other.skip(first).take(second));
}

/// What a finite source holds is its bytes, and nothing behind them.
pub proof fn law_finite(bytes: Seq<u8>, at: nat, n: nat)
    requires
        at <= bytes.len(),
    ensures
        ByteSource::of_seq(bytes).skip(at).has(n) <==> at + n <= bytes.len(),
        at + n <= bytes.len() ==> ByteSource::of_seq(bytes).skip(at).take(n) == bytes.subrange(
            at as int,
            (at + n) as int,
        ),
{
    if at + n <= bytes.len() {
        assert(ByteSource::of_seq(bytes).skip(at).take(n) =~= bytes.subrange(
            at as int,
            (at + n) as int,
        ));
    }
}

/// A finite source starts with the bytes that its bytes start with.
pub proof fn law_starts_with(bytes: Seq<u8>, start: Seq<u8>)
    ensures
        ByteSource::of_seq(bytes).starts_with(start) <==> start.is_prefix_of(bytes),
{
    let source = ByteSource::of_seq(bytes);
    if start.len() <= bytes.len() {
        assert(source.take(start.len()) =~= bytes.subrange(0, start.len() as int));
    }
}

/// A source starts with bytes just where it has as many, and they are the same.
pub proof fn law_starts_byte_by_byte(source: ByteSource, start: Seq<u8>)
    ensures
        source.starts_with(start) <==> (source.len matches Some(len) ==> start.len() <= len)
            && forall|i: int| 0 <= i < start.len() ==> (source.at)(i as nat) == #[trigger] start[i],
{
    if source.starts_with(start) {
        assert forall|i: int| 0 <= i < start.len() implies (source.at)(i as nat)
            == #[trigger] start[i] by {
            assert(source.take(start.len())[i] == start[i]);
        }
    } else if forall|i: int| 0 <= i < start.len() ==> (source.at)(i as nat) == #[trigger] start[i] {
        assert(source.take(start.len()) =~= start);
    }
}

} // verus!
