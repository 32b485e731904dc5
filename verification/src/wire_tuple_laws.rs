//! What is encoded of tuples, and as which bytes.

use vstd::prelude::*;

use crate::wire::{tuple_code, Wire};

verus! {

/// What is encoded of a tuple of one is what is encoded of its field.
pub proof fn law_one_field<A: Wire>(value: (A,))
    ensures
        value.model().0 == value.0.model(),
        <(A,)>::encoding(value.model()) == A::encoding(value.0.model()),
{
}

/// What is encoded of a tuple of two is what is encoded of each field, and the bytes are theirs in turn.
pub proof fn law_two_fields<A: Wire, B: Wire>(value: (A, B))
    ensures
        value.model().0 == value.0.model(),
        value.model().1 == value.1.model(),
        <(A, B)>::encoding(value.model()) == A::encoding(value.0.model())
            + B::encoding(value.1.model()),
        <(A, B)>::code() == tuple_code(<(A,)>::code(), B::code()),
{
}

/// What is encoded of a tuple of three is what is encoded of each field, and the bytes are theirs in turn.
pub proof fn law_three_fields<A: Wire, B: Wire, C: Wire>(value: (A, B, C))
    ensures
        value.model().0 == value.0.model(),
        value.model().1 == value.1.model(),
        value.model().2 == value.2.model(),
        <(A, B, C)>::encoding(value.model()) == A::encoding(value.0.model())
            + B::encoding(value.1.model())
            + C::encoding(value.2.model()),
        <(A, B, C)>::code() == tuple_code(<(A, B)>::code(), C::code()),
{
}

/// What is encoded of a tuple of four is what is encoded of each field, and the bytes are theirs in turn.
pub proof fn law_four_fields<A: Wire, B: Wire, C: Wire, D: Wire>(value: (A, B, C, D))
    ensures
        value.model().0 == value.0.model(),
        value.model().1 == value.1.model(),
        value.model().2 == value.2.model(),
        value.model().3 == value.3.model(),
        <(A, B, C, D)>::encoding(value.model()) == A::encoding(value.0.model())
            + B::encoding(value.1.model())
            + C::encoding(value.2.model())
            + D::encoding(value.3.model()),
        <(A, B, C, D)>::code() == tuple_code(<(A, B, C)>::code(), D::code()),
{
}

/// What is encoded of a tuple of five is what is encoded of each field, and the bytes are theirs in turn.
pub proof fn law_five_fields<A: Wire, B: Wire, C: Wire, D: Wire, E: Wire>(value: (A, B, C, D, E))
    ensures
        value.model().0 == value.0.model(),
        value.model().1 == value.1.model(),
        value.model().2 == value.2.model(),
        value.model().3 == value.3.model(),
        value.model().4 == value.4.model(),
        <(A, B, C, D, E)>::encoding(value.model()) == A::encoding(value.0.model())
            + B::encoding(value.1.model())
            + C::encoding(value.2.model())
            + D::encoding(value.3.model())
            + E::encoding(value.4.model()),
        <(A, B, C, D, E)>::code() == tuple_code(<(A, B, C, D)>::code(), E::code()),
{
}

/// What is encoded of a tuple of six is what is encoded of each field, and the bytes are theirs in turn.
pub proof fn law_six_fields<A: Wire, B: Wire, C: Wire, D: Wire, E: Wire, F: Wire>(value: (A, B, C, D, E, F))
    ensures
        value.model().0 == value.0.model(),
        value.model().1 == value.1.model(),
        value.model().2 == value.2.model(),
        value.model().3 == value.3.model(),
        value.model().4 == value.4.model(),
        value.model().5 == value.5.model(),
        <(A, B, C, D, E, F)>::encoding(value.model()) == A::encoding(value.0.model())
            + B::encoding(value.1.model())
            + C::encoding(value.2.model())
            + D::encoding(value.3.model())
            + E::encoding(value.4.model())
            + F::encoding(value.5.model()),
        <(A, B, C, D, E, F)>::code() == tuple_code(<(A, B, C, D, E)>::code(), F::code()),
{
}

/// What is encoded of a tuple of seven is what is encoded of each field, and the bytes are theirs in turn.
pub proof fn law_seven_fields<A: Wire, B: Wire, C: Wire, D: Wire, E: Wire, F: Wire, G: Wire>(value: (A, B, C, D, E, F, G))
    ensures
        value.model().0 == value.0.model(),
        value.model().1 == value.1.model(),
        value.model().2 == value.2.model(),
        value.model().3 == value.3.model(),
        value.model().4 == value.4.model(),
        value.model().5 == value.5.model(),
        value.model().6 == value.6.model(),
        <(A, B, C, D, E, F, G)>::encoding(value.model()) == A::encoding(value.0.model())
            + B::encoding(value.1.model())
            + C::encoding(value.2.model())
            + D::encoding(value.3.model())
            + E::encoding(value.4.model())
            + F::encoding(value.5.model())
            + G::encoding(value.6.model()),
        <(A, B, C, D, E, F, G)>::code() == tuple_code(<(A, B, C, D, E, F)>::code(), G::code()),
{
}

/// What is encoded of a tuple of eight is what is encoded of each field, and the bytes are theirs in turn.
pub proof fn law_eight_fields<A: Wire, B: Wire, C: Wire, D: Wire, E: Wire, F: Wire, G: Wire, H: Wire>(value: (A, B, C, D, E, F, G, H))
    ensures
        value.model().0 == value.0.model(),
        value.model().1 == value.1.model(),
        value.model().2 == value.2.model(),
        value.model().3 == value.3.model(),
        value.model().4 == value.4.model(),
        value.model().5 == value.5.model(),
        value.model().6 == value.6.model(),
        value.model().7 == value.7.model(),
        <(A, B, C, D, E, F, G, H)>::encoding(value.model()) == A::encoding(value.0.model())
            + B::encoding(value.1.model())
            + C::encoding(value.2.model())
            + D::encoding(value.3.model())
            + E::encoding(value.4.model())
            + F::encoding(value.5.model())
            + G::encoding(value.6.model())
            + H::encoding(value.7.model()),
        <(A, B, C, D, E, F, G, H)>::code() == tuple_code(<(A, B, C, D, E, F, G)>::code(), H::code()),
{
}

/// What is encoded of a tuple of nine is what is encoded of each field, and the bytes are theirs in turn.
pub proof fn law_nine_fields<A: Wire, B: Wire, C: Wire, D: Wire, E: Wire, F: Wire, G: Wire, H: Wire, I: Wire>(value: (A, B, C, D, E, F, G, H, I))
    ensures
        value.model().0 == value.0.model(),
        value.model().1 == value.1.model(),
        value.model().2 == value.2.model(),
        value.model().3 == value.3.model(),
        value.model().4 == value.4.model(),
        value.model().5 == value.5.model(),
        value.model().6 == value.6.model(),
        value.model().7 == value.7.model(),
        value.model().8 == value.8.model(),
        <(A, B, C, D, E, F, G, H, I)>::encoding(value.model()) == A::encoding(value.0.model())
            + B::encoding(value.1.model())
            + C::encoding(value.2.model())
            + D::encoding(value.3.model())
            + E::encoding(value.4.model())
            + F::encoding(value.5.model())
            + G::encoding(value.6.model())
            + H::encoding(value.7.model())
            + I::encoding(value.8.model()),
        <(A, B, C, D, E, F, G, H, I)>::code() == tuple_code(<(A, B, C, D, E, F, G, H)>::code(), I::code()),
{
}

/// What is encoded of a tuple of ten is what is encoded of each field, and the bytes are theirs in turn.
pub proof fn law_ten_fields<A: Wire, B: Wire, C: Wire, D: Wire, E: Wire, F: Wire, G: Wire, H: Wire, I: Wire, J: Wire>(value: (A, B, C, D, E, F, G, H, I, J))
    ensures
        value.model().0 == value.0.model(),
        value.model().1 == value.1.model(),
        value.model().2 == value.2.model(),
        value.model().3 == value.3.model(),
        value.model().4 == value.4.model(),
        value.model().5 == value.5.model(),
        value.model().6 == value.6.model(),
        value.model().7 == value.7.model(),
        value.model().8 == value.8.model(),
        value.model().9 == value.9.model(),
        <(A, B, C, D, E, F, G, H, I, J)>::encoding(value.model()) == A::encoding(value.0.model())
            + B::encoding(value.1.model())
            + C::encoding(value.2.model())
            + D::encoding(value.3.model())
            + E::encoding(value.4.model())
            + F::encoding(value.5.model())
            + G::encoding(value.6.model())
            + H::encoding(value.7.model())
            + I::encoding(value.8.model())
            + J::encoding(value.9.model()),
        <(A, B, C, D, E, F, G, H, I, J)>::code() == tuple_code(<(A, B, C, D, E, F, G, H, I)>::code(), J::code()),
{
}

/// What is encoded of a tuple of eleven is what is encoded of each field, and the bytes are theirs in turn.
pub proof fn law_eleven_fields<A: Wire, B: Wire, C: Wire, D: Wire, E: Wire, F: Wire, G: Wire, H: Wire, I: Wire, J: Wire, K: Wire>(value: (A, B, C, D, E, F, G, H, I, J, K))
    ensures
        value.model().0 == value.0.model(),
        value.model().1 == value.1.model(),
        value.model().2 == value.2.model(),
        value.model().3 == value.3.model(),
        value.model().4 == value.4.model(),
        value.model().5 == value.5.model(),
        value.model().6 == value.6.model(),
        value.model().7 == value.7.model(),
        value.model().8 == value.8.model(),
        value.model().9 == value.9.model(),
        value.model().10 == value.10.model(),
        <(A, B, C, D, E, F, G, H, I, J, K)>::encoding(value.model()) == A::encoding(value.0.model())
            + B::encoding(value.1.model())
            + C::encoding(value.2.model())
            + D::encoding(value.3.model())
            + E::encoding(value.4.model())
            + F::encoding(value.5.model())
            + G::encoding(value.6.model())
            + H::encoding(value.7.model())
            + I::encoding(value.8.model())
            + J::encoding(value.9.model())
            + K::encoding(value.10.model()),
        <(A, B, C, D, E, F, G, H, I, J, K)>::code() == tuple_code(<(A, B, C, D, E, F, G, H, I, J)>::code(), K::code()),
{
}

/// What is encoded of a tuple of twelve is what is encoded of each field, and the bytes are theirs in turn.
pub proof fn law_twelve_fields<A: Wire, B: Wire, C: Wire, D: Wire, E: Wire, F: Wire, G: Wire, H: Wire, I: Wire, J: Wire, K: Wire, L: Wire>(value: (A, B, C, D, E, F, G, H, I, J, K, L))
    ensures
        value.model().0 == value.0.model(),
        value.model().1 == value.1.model(),
        value.model().2 == value.2.model(),
        value.model().3 == value.3.model(),
        value.model().4 == value.4.model(),
        value.model().5 == value.5.model(),
        value.model().6 == value.6.model(),
        value.model().7 == value.7.model(),
        value.model().8 == value.8.model(),
        value.model().9 == value.9.model(),
        value.model().10 == value.10.model(),
        value.model().11 == value.11.model(),
        <(A, B, C, D, E, F, G, H, I, J, K, L)>::encoding(value.model()) == A::encoding(value.0.model())
            + B::encoding(value.1.model())
            + C::encoding(value.2.model())
            + D::encoding(value.3.model())
            + E::encoding(value.4.model())
            + F::encoding(value.5.model())
            + G::encoding(value.6.model())
            + H::encoding(value.7.model())
            + I::encoding(value.8.model())
            + J::encoding(value.9.model())
            + K::encoding(value.10.model())
            + L::encoding(value.11.model()),
        <(A, B, C, D, E, F, G, H, I, J, K, L)>::code() == tuple_code(<(A, B, C, D, E, F, G, H, I, J, K)>::code(), L::code()),
{
}

/// What is encoded of a tuple of thirteen is what is encoded of each field, and the bytes are theirs in turn.
pub proof fn law_thirteen_fields<A: Wire, B: Wire, C: Wire, D: Wire, E: Wire, F: Wire, G: Wire, H: Wire, I: Wire, J: Wire, K: Wire, L: Wire, M: Wire>(value: (A, B, C, D, E, F, G, H, I, J, K, L, M))
    ensures
        value.model().0 == value.0.model(),
        value.model().1 == value.1.model(),
        value.model().2 == value.2.model(),
        value.model().3 == value.3.model(),
        value.model().4 == value.4.model(),
        value.model().5 == value.5.model(),
        value.model().6 == value.6.model(),
        value.model().7 == value.7.model(),
        value.model().8 == value.8.model(),
        value.model().9 == value.9.model(),
        value.model().10 == value.10.model(),
        value.model().11 == value.11.model(),
        value.model().12 == value.12.model(),
        <(A, B, C, D, E, F, G, H, I, J, K, L, M)>::encoding(value.model()) == A::encoding(value.0.model())
            + B::encoding(value.1.model())
            + C::encoding(value.2.model())
            + D::encoding(value.3.model())
            + E::encoding(value.4.model())
            + F::encoding(value.5.model())
            + G::encoding(value.6.model())
            + H::encoding(value.7.model())
            + I::encoding(value.8.model())
            + J::encoding(value.9.model())
            + K::encoding(value.10.model())
            + L::encoding(value.11.model())
            + M::encoding(value.12.model()),
        <(A, B, C, D, E, F, G, H, I, J, K, L, M)>::code() == tuple_code(<(A, B, C, D, E, F, G, H, I, J, K, L)>::code(), M::code()),
{
}

/// What is encoded of a tuple of fourteen is what is encoded of each field, and the bytes are theirs in turn.
pub proof fn law_fourteen_fields<A: Wire, B: Wire, C: Wire, D: Wire, E: Wire, F: Wire, G: Wire, H: Wire, I: Wire, J: Wire, K: Wire, L: Wire, M: Wire, N: Wire>(value: (A, B, C, D, E, F, G, H, I, J, K, L, M, N))
    ensures
        value.model().0 == value.0.model(),
        value.model().1 == value.1.model(),
        value.model().2 == value.2.model(),
        value.model().3 == value.3.model(),
        value.model().4 == value.4.model(),
        value.model().5 == value.5.model(),
        value.model().6 == value.6.model(),
        value.model().7 == value.7.model(),
        value.model().8 == value.8.model(),
        value.model().9 == value.9.model(),
        value.model().10 == value.10.model(),
        value.model().11 == value.11.model(),
        value.model().12 == value.12.model(),
        value.model().13 == value.13.model(),
        <(A, B, C, D, E, F, G, H, I, J, K, L, M, N)>::encoding(value.model()) == A::encoding(value.0.model())
            + B::encoding(value.1.model())
            + C::encoding(value.2.model())
            + D::encoding(value.3.model())
            + E::encoding(value.4.model())
            + F::encoding(value.5.model())
            + G::encoding(value.6.model())
            + H::encoding(value.7.model())
            + I::encoding(value.8.model())
            + J::encoding(value.9.model())
            + K::encoding(value.10.model())
            + L::encoding(value.11.model())
            + M::encoding(value.12.model())
            + N::encoding(value.13.model()),
        <(A, B, C, D, E, F, G, H, I, J, K, L, M, N)>::code() == tuple_code(<(A, B, C, D, E, F, G, H, I, J, K, L, M)>::code(), N::code()),
{
}

/// What is encoded of a tuple of fifteen is what is encoded of each field, and the bytes are theirs in turn.
pub proof fn law_fifteen_fields<A: Wire, B: Wire, C: Wire, D: Wire, E: Wire, F: Wire, G: Wire, H: Wire, I: Wire, J: Wire, K: Wire, L: Wire, M: Wire, N: Wire, O: Wire>(value: (A, B, C, D, E, F, G, H, I, J, K, L, M, N, O))
    ensures
        value.model().0 == value.0.model(),
        value.model().1 == value.1.model(),
        value.model().2 == value.2.model(),
        value.model().3 == value.3.model(),
        value.model().4 == value.4.model(),
        value.model().5 == value.5.model(),
        value.model().6 == value.6.model(),
        value.model().7 == value.7.model(),
        value.model().8 == value.8.model(),
        value.model().9 == value.9.model(),
        value.model().10 == value.10.model(),
        value.model().11 == value.11.model(),
        value.model().12 == value.12.model(),
        value.model().13 == value.13.model(),
        value.model().14 == value.14.model(),
        <(A, B, C, D, E, F, G, H, I, J, K, L, M, N, O)>::encoding(value.model()) == A::encoding(value.0.model())
            + B::encoding(value.1.model())
            + C::encoding(value.2.model())
            + D::encoding(value.3.model())
            + E::encoding(value.4.model())
            + F::encoding(value.5.model())
            + G::encoding(value.6.model())
            + H::encoding(value.7.model())
            + I::encoding(value.8.model())
            + J::encoding(value.9.model())
            + K::encoding(value.10.model())
            + L::encoding(value.11.model())
            + M::encoding(value.12.model())
            + N::encoding(value.13.model())
            + O::encoding(value.14.model()),
        <(A, B, C, D, E, F, G, H, I, J, K, L, M, N, O)>::code() == tuple_code(<(A, B, C, D, E, F, G, H, I, J, K, L, M, N)>::code(), O::code()),
{
}

/// What is encoded of a tuple of sixteen is what is encoded of each field, and the bytes are theirs in turn.
pub proof fn law_sixteen_fields<A: Wire, B: Wire, C: Wire, D: Wire, E: Wire, F: Wire, G: Wire, H: Wire, I: Wire, J: Wire, K: Wire, L: Wire, M: Wire, N: Wire, O: Wire, P: Wire>(value: (A, B, C, D, E, F, G, H, I, J, K, L, M, N, O, P))
    ensures
        value.model().0 == value.0.model(),
        value.model().1 == value.1.model(),
        value.model().2 == value.2.model(),
        value.model().3 == value.3.model(),
        value.model().4 == value.4.model(),
        value.model().5 == value.5.model(),
        value.model().6 == value.6.model(),
        value.model().7 == value.7.model(),
        value.model().8 == value.8.model(),
        value.model().9 == value.9.model(),
        value.model().10 == value.10.model(),
        value.model().11 == value.11.model(),
        value.model().12 == value.12.model(),
        value.model().13 == value.13.model(),
        value.model().14 == value.14.model(),
        value.model().15 == value.15.model(),
        <(A, B, C, D, E, F, G, H, I, J, K, L, M, N, O, P)>::encoding(value.model()) == A::encoding(value.0.model())
            + B::encoding(value.1.model())
            + C::encoding(value.2.model())
            + D::encoding(value.3.model())
            + E::encoding(value.4.model())
            + F::encoding(value.5.model())
            + G::encoding(value.6.model())
            + H::encoding(value.7.model())
            + I::encoding(value.8.model())
            + J::encoding(value.9.model())
            + K::encoding(value.10.model())
            + L::encoding(value.11.model())
            + M::encoding(value.12.model())
            + N::encoding(value.13.model())
            + O::encoding(value.14.model())
            + P::encoding(value.15.model()),
        <(A, B, C, D, E, F, G, H, I, J, K, L, M, N, O, P)>::code() == tuple_code(<(A, B, C, D, E, F, G, H, I, J, K, L, M, N, O)>::code(), P::code()),
{
}

} // verus!
