//! The hash that names are turned into keys and selectors with.

use vstd::prelude::*;

verus! {

/// The byte at place `at` of what SHA3-256 gives for `data`.
pub uninterp spec fn sha3_256_byte(data: Seq<u8>, at: nat) -> u8;

/// The first `len` bytes that SHA3-256 gives for `data`.
pub open spec fn sha3_256_output(data: Seq<u8>, len: nat) -> Seq<u8> {
    Seq::new(len, |at: int| sha3_256_byte(data, at as nat))
}

/// The bytes of an output.
pub proof fn law_output_bytes(data: Seq<u8>, len: nat)
    ensures
        sha3_256_output(data, len).len() == len,
        forall|i: int|
            0 <= i < len ==> #[trigger] sha3_256_output(data, len)[i] == sha3_256_byte(
                data,
                i as nat,
            ),
{
}

/// A shorter output is the start of a longer one.
pub proof fn law_output_prefix(data: Seq<u8>, len: nat, longer: nat)
    requires
        len <= longer,
    ensures
        sha3_256_output(data, len) == sha3_256_output(data, longer).take(len as int),
{
    assert(sha3_256_output(data, len) =~= sha3_256_output(data, longer).take(len as int));
}

/// `tiny_keccak::Keccak::sha3_256`: absorbs `data`, and fills `out` with what is squeezed
/// from it, byte after byte, however many are asked for. The hash itself is not spelled out
/// here: its bytes are given a name.
#[verifier::external_body]
pub(crate) fn sha3_256(data: &[u8], out: &mut [u8])
    ensures
        final(out)@.len() == old(out)@.len(),
        forall|at: int|
            0 <= at < old(out)@.len() ==> #[trigger] final(out)@[at] == sha3_256_byte(
                data@,
                at as nat,
            ),
{
    tiny_keccak::Keccak::sha3_256(data, out)
}

} // verus!
