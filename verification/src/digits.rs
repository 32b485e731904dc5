//! Little-endian base-256 numbers: how a run of bytes denotes a natural number.

use vstd::arithmetic::div_mod::lemma_div_denominator;
use vstd::arithmetic::power::{lemma_pow_positive, pow};
use vstd::prelude::*;

verus! {

/// The number of values that `width` bytes can hold.
pub open spec fn span(width: nat) -> nat
    decreases width,
{
    if width == 0 {
        1
    } else {
        256 * span((width - 1) as nat)
    }
}

/// The number that `bytes` denotes, least significant byte first.
pub open spec fn le_value(bytes: Seq<u8>) -> nat
    decreases bytes.len(),
{
    if bytes.len() == 0 {
        0
    } else {
        bytes[0] as nat + 256 * le_value(bytes.drop_first())
    }
}

/// The `width` low bytes of `n`, least significant byte first.
pub open spec fn le_bytes(n: nat, width: nat) -> Seq<u8>
    decreases width,
{
    if width == 0 {
        Seq::empty()
    } else {
        seq![(n % 256) as u8] + le_bytes(n / 256, (width - 1) as nat)
    }
}

/// `bytes` denotes a number below the span of its length.
pub proof fn lemma_le_value_bound(bytes: Seq<u8>)
    ensures
        le_value(bytes) < span(bytes.len()),
    decreases bytes.len(),
{
    if bytes.len() > 0 {
        lemma_le_value_bound(bytes.drop_first());
    }
}

/// The bytes of a number are as many as asked for.
pub proof fn lemma_le_bytes_len(n: nat, width: nat)
    ensures
        le_bytes(n, width).len() == width,
    decreases width,
{
    if width > 0 {
        lemma_le_bytes_len(n / 256, (width - 1) as nat);
    }
}

/// As many bytes hold as many values as they have digits to the base 256.
pub proof fn lemma_span_pow(width: nat)
    ensures
        span(width) == pow(256, width),
    decreases width,
{
    reveal(pow);
    if width > 0 {
        lemma_span_pow((width - 1) as nat);
    }
}

/// The bytes of a number are its digits to the base 256.
pub proof fn lemma_le_bytes_digit(n: nat, width: nat, i: nat)
    requires
        i < width,
    ensures
        le_bytes(n, width)[i as int] as int == n as int / pow(256, i) % 256,
    decreases width,
{
    reveal(pow);
    if i > 0 {
        let prev = (i - 1) as nat;
        lemma_le_bytes_digit(n / 256, (width - 1) as nat, prev);
        lemma_le_bytes_len(n / 256, (width - 1) as nat);
        lemma_pow_positive(256, prev);
        lemma_div_denominator(n as int, 256, pow(256, prev));
        assert(le_bytes(n, width)[i as int] == le_bytes(n / 256, (width - 1) as nat)[prev as int]);
        assert(pow(256, i) == 256 * pow(256, prev));
    } else {
        assert(pow(256, 0) == 1);
    }
}

/// A number that fits comes back from its bytes.
pub proof fn lemma_value_of_bytes(n: nat, width: nat)
    requires
        n < span(width),
    ensures
        le_value(le_bytes(n, width)) == n,
        le_bytes(n, width).len() == width,
    decreases width,
{
    if width > 0 {
        lemma_value_of_bytes(n / 256, (width - 1) as nat);
        let all = le_bytes(n, width);
        assert(all.drop_first() =~= le_bytes(n / 256, (width - 1) as nat));
        assert(all[0] as nat == n % 256);
    }
}

/// Bytes come back from the number that they denote.
pub proof fn lemma_bytes_of_value(bytes: Seq<u8>)
    ensures
        le_bytes(le_value(bytes), bytes.len()) == bytes,
    decreases bytes.len(),
{
    if bytes.len() > 0 {
        let rest = bytes.drop_first();
        lemma_bytes_of_value(rest);
        let n = le_value(bytes);
        assert(n % 256 == bytes[0] as nat);
        assert(n / 256 == le_value(rest));
        assert(seq![bytes[0]] + rest =~= bytes);
    } else {
        assert(le_bytes(0, 0) =~= bytes);
    }
}

/// The spans that the fixed-width integers use.
pub proof fn lemma_spans()
    ensures
        span(0) == 1,
        span(1) == 0x100,
        span(2) == 0x1_0000,
        span(4) == 0x1_0000_0000,
        span(8) == 0x1_0000_0000_0000_0000,
        span(16) == 0x1_0000_0000_0000_0000_0000_0000_0000_0000nat,
{
    reveal_with_fuel(span, 17);
}

/// A wider run of bytes holds at least as many values.
pub proof fn lemma_span_grows(a: nat, b: nat)
    requires
        a <= b,
    ensures
        0 < span(a) <= span(b),
    decreases b,
{
    if a < b {
        lemma_span_grows(a, (b - 1) as nat);
    } else if a > 0 {
        lemma_span_grows((a - 1) as nat, (a - 1) as nat);
    }
}

} // verus!
