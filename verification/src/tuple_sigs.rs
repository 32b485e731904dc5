//! The signatures of argument lists with several arguments, or with none.

use vstd::prelude::*;

use crate::signature::{one_piece, put_piece, put_pieces, ArgSignature, SolidityType};

verus! {

impl ArgSignature for () {
    open spec fn arg_pieces() -> Seq<Seq<char>> {
        seq!["()"@]
    }

    fn arg_sig() -> Vec<&'static str> {
        one_piece("()")
    }
}

impl<A: SolidityType> ArgSignature for (A,) {
    open spec fn arg_pieces() -> Seq<Seq<char>> {
        seq!["("@] + A::sol_pieces()
            + seq![")"@]
    }

    fn arg_sig() -> Vec<&'static str> {
        let mut pieces = one_piece("(");
        put_pieces(&mut pieces, A::solname());
        put_piece(&mut pieces, ")");
        pieces
    }
}

impl<A: SolidityType, B: SolidityType> ArgSignature for (A, B) {
    open spec fn arg_pieces() -> Seq<Seq<char>> {
        seq!["("@] + A::sol_pieces()
            + seq![","@] + B::sol_pieces()
            + seq![")"@]
    }

    fn arg_sig() -> Vec<&'static str> {
        let mut pieces = one_piece("(");
        put_pieces(&mut pieces, A::solname());
        put_piece(&mut pieces, ",");
        put_pieces(&mut pieces, B::solname());
        put_piece(&mut pieces, ")");
        pieces
    }
}

impl<A: SolidityType, B: SolidityType, C: SolidityType> ArgSignature for (A, B, C) {
    open spec fn arg_pieces() -> Seq<Seq<char>> {
        seq!["("@] + A::sol_pieces()
            + seq![","@] + B::sol_pieces()
            + seq![","@] + C::sol_pieces()
            + seq![")"@]
    }

    fn arg_sig() -> Vec<&'static str> {
        let mut pieces = one_piece("(");
        put_pieces(&mut pieces, A::solname());
        put_piece(&mut pieces, ",");
        put_pieces(&mut pieces, B::solname());
        put_piece(&mut pieces, ",");
        put_pieces(&mut pieces, C::solname());
        put_piece(&mut pieces, ")");
        pieces
    }
}

impl<A: SolidityType, B: SolidityType, C: SolidityType, D: SolidityType> ArgSignature for (A, B, C, D) {
    open spec fn arg_pieces() -> Seq<Seq<char>> {
        seq!["("@] + A::sol_pieces()
            + seq![","@] + B::sol_pieces()
            + seq![","@] + C::sol_pieces()
            + seq![","@] + D::sol_pieces()
            + seq![")"@]
    }

    fn arg_sig() -> Vec<&'static str> {
        let mut pieces = one_piece("(");
        put_pieces(&mut pieces, A::solname());
        put_piece(&mut pieces, ",");
        put_pieces(&mut pieces, B::solname());
        put_piece(&mut pieces, ",");
        put_pieces(&mut pieces, C::solname());
        put_piece(&mut pieces, ",");
        put_pieces(&mut pieces, D::solname());
        put_piece(&mut pieces, ")");
        pieces
    }
}

impl<A: SolidityType, B: SolidityType, C: SolidityType, D: SolidityType, E: SolidityType> ArgSignature for (A, B, C, D, E) {
    open spec fn arg_pieces() -> Seq<Seq<char>> {
        seq!["("@] + A::sol_pieces()
            + seq![","@] + B::sol_pieces()
            + seq![","@] + C::sol_pieces()
            + seq![","@] + D::sol_pieces()
            + seq![","@] + E::sol_pieces()
            + seq![")"@]
    }

    fn arg_sig() -> Vec<&'static str> {
        let mut pieces = one_piece("(");
        put_pieces(&mut pieces, A::solname());
        put_piece(&mut pieces, ",");
        put_pieces(&mut pieces, B::solname());
        put_piece(&mut pieces, ",");
        put_pieces(&mut pieces, C::solname());
        put_piece(&mut pieces, ",");
        put_pieces(&mut pieces, D::solname());
        put_piece(&mut pieces, ",");
        put_pieces(&mut pieces, E::solname());
        put_piece(&mut pieces, ")");
        pieces
    }
}

impl<A: SolidityType, B: SolidityType, C: SolidityType, D: SolidityType, E: SolidityType, F: SolidityType> ArgSignature for (A, B, C, D, E, F) {
    open spec fn arg_pieces() -> Seq<Seq<char>> {
        seq!["("@] + A::sol_pieces()
            + seq![","@] + B::sol_pieces()
            + seq![","@] + C::sol_pieces()
            + seq![","@] + D::sol_pieces()
            + seq![","@] + E::sol_pieces()
            + seq![","@] + F::sol_pieces()
            + seq![")"@]
    }

    fn arg_sig() -> Vec<&'static str> {
        let mut pieces = one_piece("(");
        put_pieces(&mut pieces, A::solname());
        put_piece(&mut pieces, ",");
        put_pieces(&mut pieces, B::solname());
        put_piece(&mut pieces, ",");
        put_pieces(&mut pieces, C::solname());
        put_piece(&mut pieces, ",");
        put_pieces(&mut pieces, D::solname());
        put_piece(&mut pieces, ",");
        put_pieces(&mut pieces, E::solname());
        put_piece(&mut pieces, ",");
        put_pieces(&mut pieces, F::solname());
        put_piece(&mut pieces, ")");
        pieces
    }
}

impl<A: SolidityType, B: SolidityType, C: SolidityType, D: SolidityType, E: SolidityType, F: SolidityType, G: SolidityType> ArgSignature for (A, B, C, D, E, F, G) {
    open spec fn arg_pieces() -> Seq<Seq<char>> {
        seq!["("@] + A::sol_pieces()
            + seq![","@] + B::sol_pieces()
            + seq![","@] + C::sol_pieces()
            + seq![","@] + D::sol_pieces()
            + seq![","@] + E::sol_pieces()
            + seq![","@] + F::sol_pieces()
            + seq![","@] + G::sol_pieces()
            + seq![")"@]
    }

    fn arg_sig() -> Vec<&'static str> {
        let mut pieces = one_piece("(");
        put_pieces(&mut pieces, A::solname());
        put_piece(&mut pieces, ",");
        put_pieces(&mut pieces, B::solname());
        put_piece(&mut pieces, ",");
        put_pieces(&mut pieces, C::solname());
        put_piece(&mut pieces, ",");
        put_pieces(&mut pieces, D::solname());
        put_piece(&mut pieces, ",");
        put_pieces(&mut pieces, E::solname());
        put_piece(&mut pieces, ",");
        put_pieces(&mut pieces, F::solname());
        put_piece(&mut pieces, ",");
        put_pieces(&mut pieces, G::solname());
        put_piece(&mut pieces, ")");
        pieces
    }
}

impl<A: SolidityType, B: SolidityType, C: SolidityType, D: SolidityType, E: SolidityType, F: SolidityType, G: SolidityType, H: SolidityType> ArgSignature for (A, B, C, D, E, F, G, H) {
    open spec fn arg_pieces() -> Seq<Seq<char>> {
        seq!["("@] + A::sol_pieces()
            + seq![","@] + B::sol_pieces()
            + seq![","@] + C::sol_pieces()
            + seq![","@] + D::sol_pieces()
            + seq![","@] + E::sol_pieces()
            + seq![","@] + F::sol_pieces()
            + seq![","@] + G::sol_pieces()
            + seq![","@] + H::sol_pieces()
            + seq![")"@]
    }

    fn arg_sig() -> Vec<&'static str> {
        let mut pieces = one_piece("(");
        put_pieces(&mut pieces, A::solname());
        put_piece(&mut pieces, ",");
        put_pieces(&mut pieces, B::solname());
        put_piece(&mut pieces, ",");
        put_pieces(&mut pieces, C::solname());
        put_piece(&mut pieces, ",");
        put_pieces(&mut pieces, D::solname());
        put_piece(&mut pieces, ",");
        put_pieces(&mut pieces, E::solname());
        put_piece(&mut pieces, ",");
        put_pieces(&mut pieces, F::solname());
        put_piece(&mut pieces, ",");
        put_pieces(&mut pieces, G::solname());
        put_piece(&mut pieces, ",");
        put_pieces(&mut pieces, H::solname());
        put_piece(&mut pieces, ")");
        pieces
    }
}

impl<A: SolidityType, B: SolidityType, C: SolidityType, D: SolidityType, E: SolidityType, F: SolidityType, G: SolidityType, H: SolidityType, I: SolidityType> ArgSignature for (A, B, C, D, E, F, G, H, I) {
    open spec fn arg_pieces() -> Seq<Seq<char>> {
        seq!["("@] + A::sol_pieces()
            + seq![","@] + B::sol_pieces()
            + seq![","@] + C::sol_pieces()
            + seq![","@] + D::sol_pieces()
            + seq![","@] + E::sol_pieces()
            + seq![","@] + F::sol_pieces()
            + seq![","@] + G::sol_pieces()
            + seq![","@] + H::sol_pieces()
            + seq![","@] + I::sol_pieces()
            + seq![")"@]
    }

    fn arg_sig() -> Vec<&'static str> {
        let mut pieces = one_piece("(");
        put_pieces(&mut pieces, A::solname());
        put_piece(&mut pieces, ",");
        put_pieces(&mut pieces, B::solname());
        put_piece(&mut pieces, ",");
        put_pieces(&mut pieces, C::solname());
        put_piece(&mut pieces, ",");
        put_pieces(&mut pieces, D::solname());
        put_piece(&mut pieces, ",");
        put_pieces(&mut pieces, E::solname());
        put_piece(&mut pieces, ",");
        put_pieces(&mut pieces, F::solname());
        put_piece(&mut pieces, ",");
        put_pieces(&mut pieces, G::solname());
        put_piece(&mut pieces, ",");
        put_pieces(&mut pieces, H::solname());
        put_piece(&mut pieces, ",");
        put_pieces(&mut pieces, I::solname());
        put_piece(&mut pieces, ")");
        pieces
    }
}

impl<A: SolidityType, B: SolidityType, C: SolidityType, D: SolidityType, E: SolidityType, F: SolidityType, G: SolidityType, H: SolidityType, I: SolidityType, J: SolidityType> ArgSignature for (A, B, C, D, E, F, G, H, I, J) {
    open spec fn arg_pieces() -> Seq<Seq<char>> {
        seq!["("@] + A::sol_pieces()
            + seq![","@] + B::sol_pieces()
            + seq![","@] + C::sol_pieces()
            + seq![","@] + D::sol_pieces()
            + seq![","@] + E::sol_pieces()
            + seq![","@] + F::sol_pieces()
            + seq![","@] + G::sol_pieces()
            + seq![","@] + H::sol_pieces()
            + seq![","@] + I::sol_pieces()
            + seq![","@] + J::sol_pieces()
            + seq![")"@]
    }

    fn arg_sig() -> Vec<&'static str> {
        let mut pieces = one_piece("(");
        put_pieces(&mut pieces, A::solname());
        put_piece(&mut pieces, ",");
        put_pieces(&mut pieces, B::solname());
        put_piece(&mut pieces, ",");
        put_pieces(&mut pieces, C::solname());
        put_piece(&mut pieces, ",");
        put_pieces(&mut pieces, D::solname());
        put_piece(&mut pieces, ",");
        put_pieces(&mut pieces, E::solname());
        put_piece(&mut pieces, ",");
        put_pieces(&mut pieces, F::solname());
        put_piece(&mut pieces, ",");
        put_pieces(&mut pieces, G::solname());
        put_piece(&mut pieces, ",");
        put_pieces(&mut pieces, H::solname());
        put_piece(&mut pieces, ",");
        put_pieces(&mut pieces, I::solname());
        put_piece(&mut pieces, ",");
        put_pieces(&mut pieces, J::solname());
        put_piece(&mut pieces, ")");
        pieces
    }
}

impl<A: SolidityType, B: SolidityType, C: SolidityType, D: SolidityType, E: SolidityType, F: SolidityType, G: SolidityType, H: SolidityType, I: SolidityType, J: SolidityType, K: SolidityType> ArgSignature for (A, B, C, D, E, F, G, H, I, J, K) {
    open spec fn arg_pieces() -> Seq<Seq<char>> {
        seq!["("@] + A::sol_pieces()
            + seq![","@] + B::sol_pieces()
            + seq![","@] + C::sol_pieces()
            + seq![","@] + D::sol_pieces()
            + seq![","@] + E::sol_pieces()
            + seq![","@] + F::sol_pieces()
            + seq![","@] + G::sol_pieces()
            + seq![","@] + H::sol_pieces()
            + seq![","@] + I::sol_pieces()
            + seq![","@] + J::sol_pieces()
            + seq![","@] + K::sol_pieces()
            + seq![")"@]
    }

    fn arg_sig() -> Vec<&'static str> {
        let mut pieces = one_piece("(");
        put_pieces(&mut pieces, A::solname());
        put_piece(&mut pieces, ",");
        put_pieces(&mut pieces, B::solname());
        put_piece(&mut pieces, ",");
        put_pieces(&mut pieces, C::solname());
        put_piece(&mut pieces, ",");
        put_pieces(&mut pieces, D::solname());
        put_piece(&mut pieces, ",");
        put_pieces(&mut pieces, E::solname());
        put_piece(&mut pieces, ",");
        put_pieces(&mut pieces, F::solname());
        put_piece(&mut pieces, ",");
        put_pieces(&mut pieces, G::solname());
        put_piece(&mut pieces, ",");
        put_pieces(&mut pieces, H::solname());
        put_piece(&mut pieces, ",");
        put_pieces(&mut pieces, I::solname());
        put_piece(&mut pieces, ",");
        put_pieces(&mut pieces, J::solname());
        put_piece(&mut pieces, ",");
        put_pieces(&mut pieces, K::solname());
        put_piece(&mut pieces, ")");
        pieces
    }
}

impl<A: SolidityType, B: SolidityType, C: SolidityType, D: SolidityType, E: SolidityType, F: SolidityType, G: SolidityType, H: SolidityType, I: SolidityType, J: SolidityType, K: SolidityType, L: SolidityType> ArgSignature for (A, B, C, D, E, F, G, H, I, J, K, L) {
    open spec fn arg_pieces() -> Seq<Seq<char>> {
        seq!["("@] + A::sol_pieces()
            + seq![","@] + B::sol_pieces()
            + seq![","@] + C::sol_pieces()
            + seq![","@] + D::sol_pieces()
            + seq![","@] + E::sol_pieces()
            + seq![","@] + F::sol_pieces()
            + seq![","@] + G::sol_pieces()
            + seq![","@] + H::sol_pieces()
            + seq![","@] + I::sol_pieces()
            + seq![","@] + J::sol_pieces()
            + seq![","@] + K::sol_pieces()
            + seq![","@] + L::sol_pieces()
            + seq![")"@]
    }

    fn arg_sig() -> Vec<&'static str> {
        let mut pieces = one_piece("(");
        put_pieces(&mut pieces, A::solname());
        put_piece(&mut pieces, ",");
        put_pieces(&mut pieces, B::solname());
        put_piece(&mut pieces, ",");
        put_pieces(&mut pieces, C::solname());
        put_piece(&mut pieces, ",");
        put_pieces(&mut pieces, D::solname());
        put_piece(&mut pieces, ",");
        put_pieces(&mut pieces, E::solname());
        put_piece(&mut pieces, ",");
        put_pieces(&mut pieces, F::solname());
        put_piece(&mut pieces, ",");
        put_pieces(&mut pieces, G::solname());
        put_piece(&mut pieces, ",");
        put_pieces(&mut pieces, H::solname());
        put_piece(&mut pieces, ",");
        put_pieces(&mut pieces, I::solname());
        put_piece(&mut pieces, ",");
        put_pieces(&mut pieces, J::solname());
        put_piece(&mut pieces, ",");
        put_pieces(&mut pieces, K::solname());
        put_piece(&mut pieces, ",");
        put_pieces(&mut pieces, L::solname());
        put_piece(&mut pieces, ")");
        pieces
    }
}

impl<A: SolidityType, B: SolidityType, C: SolidityType, D: SolidityType, E: SolidityType, F: SolidityType, G: SolidityType, H: SolidityType, I: SolidityType, J: SolidityType, K: SolidityType, L: SolidityType, M: SolidityType> ArgSignature for (A, B, C, D, E, F, G, H, I, J, K, L, M) {
    open spec fn arg_pieces() -> Seq<Seq<char>> {
        seq!["("@] + A::sol_pieces()
            + seq![","@] + B::sol_pieces()
            + seq![","@] + C::sol_pieces()
            + seq![","@] + D::sol_pieces()
            + seq![","@] + E::sol_pieces()
            + seq![","@] + F::sol_pieces()
            + seq![","@] + G::sol_pieces()
            + seq![","@] + H::sol_pieces()
            + seq![","@] + I::sol_pieces()
            + seq![","@] + J::sol_pieces()
            + seq![","@] + K::sol_pieces()
            + seq![","@] + L::sol_pieces()
            + seq![","@] + M::sol_pieces()
            + seq![")"@]
    }

    fn arg_sig() -> Vec<&'static str> {
        let mut pieces = one_piece("(");
        put_pieces(&mut pieces, A::solname());
        put_piece(&mut pieces, ",");
        put_pieces(&mut pieces, B::solname());
        put_piece(&mut pieces, ",");
        put_pieces(&mut pieces, C::solname());
        put_piece(&mut pieces, ",");
        put_pieces(&mut pieces, D::solname());
        put_piece(&mut pieces, ",");
        put_pieces(&mut pieces, E::solname());
        put_piece(&mut pieces, ",");
        put_pieces(&mut pieces, F::solname());
        put_piece(&mut pieces, ",");
        put_pieces(&mut pieces, G::solname());
        put_piece(&mut pieces, ",");
        put_pieces(&mut pieces, H::solname());
        put_piece(&mut pieces, ",");
        put_pieces(&mut pieces, I::solname());
        put_piece(&mut pieces, ",");
        put_pieces(&mut pieces, J::solname());
        put_piece(&mut pieces, ",");
        put_pieces(&mut pieces, K::solname());
        put_piece(&mut pieces, ",");
        put_pieces(&mut pieces, L::solname());
        put_piece(&mut pieces, ",");
        put_pieces(&mut pieces, M::solname());
        put_piece(&mut pieces, ")");
        pieces
    }
}

impl<A: SolidityType, B: SolidityType, C: SolidityType, D: SolidityType, E: SolidityType, F: SolidityType, G: SolidityType, H: SolidityType, I: SolidityType, J: SolidityType, K: SolidityType, L: SolidityType, M: SolidityType, N: SolidityType> ArgSignature for (A, B, C, D, E, F, G, H, I, J, K, L, M, N) {
    open spec fn arg_pieces() -> Seq<Seq<char>> {
        seq!["("@] + A::sol_pieces()
            + seq![","@] + B::sol_pieces()
            + seq![","@] + C::sol_pieces()
            + seq![","@] + D::sol_pieces()
            + seq![","@] + E::sol_pieces()
            + seq![","@] + F::sol_pieces()
            + seq![","@] + G::sol_pieces()
            + seq![","@] + H::sol_pieces()
            + seq![","@] + I::sol_pieces()
            + seq![","@] + J::sol_pieces()
            + seq![","@] + K::sol_pieces()
            + seq![","@] + L::sol_pieces()
            + seq![","@] + M::sol_pieces()
            + seq![","@] + N::sol_pieces()
            + seq![")"@]
    }

    fn arg_sig() -> Vec<&'static str> {
        let mut pieces = one_piece("(");
        put_pieces(&mut pieces, A::solname());
        put_piece(&mut pieces, ",");
        put_pieces(&mut pieces, B::solname());
        put_piece(&mut pieces, ",");
        put_pieces(&mut pieces, C::solname());
        put_piece(&mut pieces, ",");
        put_pieces(&mut pieces, D::solname());
        put_piece(&mut pieces, ",");
        put_pieces(&mut pieces, E::solname());
        put_piece(&mut pieces, ",");
        put_pieces(&mut pieces, F::solname());
        put_piece(&mut pieces, ",");
        put_pieces(&mut pieces, G::solname());
        put_piece(&mut pieces, ",");
        put_pieces(&mut pieces, H::solname());
        put_piece(&mut pieces, ",");
        put_pieces(&mut pieces, I::solname());
        put_piece(&mut pieces, ",");
        put_pieces(&mut pieces, J::solname());
        put_piece(&mut pieces, ",");
        put_pieces(&mut pieces, K::solname());
        put_piece(&mut pieces, ",");
        put_pieces(&mut pieces, L::solname());
        put_piece(&mut pieces, ",");
        put_pieces(&mut pieces, M::solname());
        put_piece(&mut pieces, ",");
        put_pieces(&mut pieces, N::solname());
        put_piece(&mut pieces, ")");
        pieces
    }
}

impl<A: SolidityType, B: SolidityType, C: SolidityType, D: SolidityType, E: SolidityType, F: SolidityType, G: SolidityType, H: SolidityType, I: SolidityType, J: SolidityType, K: SolidityType, L: SolidityType, M: SolidityType, N: SolidityType, O: SolidityType> ArgSignature for (A, B, C, D, E, F, G, H, I, J, K, L, M, N, O) {
    open spec fn arg_pieces() -> Seq<Seq<char>> {
        seq!["("@] + A::sol_pieces()
            + seq![","@] + B::sol_pieces()
            + seq![","@] + C::sol_pieces()
            + seq![","@] + D::sol_pieces()
            + seq![","@] + E::sol_pieces()
            + seq![","@] + F::sol_pieces()
            + seq![","@] + G::sol_pieces()
            + seq![","@] + H::sol_pieces()
            + seq![","@] + I::sol_pieces()
            + seq![","@] + J::sol_pieces()
            + seq![","@] + K::sol_pieces()
            + seq![","@] + L::sol_pieces()
            + seq![","@] + M::sol_pieces()
            + seq![","@] + N::sol_pieces()
            + seq![","@] + O::sol_pieces()
            + seq![")"@]
    }

    fn arg_sig() -> Vec<&'static str> {
        let mut pieces = one_piece("(");
        put_pieces(&mut pieces, A::solname());
        put_piece(&mut pieces, ",");
        put_pieces(&mut pieces, B::solname());
        put_piece(&mut pieces, ",");
        put_pieces(&mut pieces, C::solname());
        put_piece(&mut pieces, ",");
        put_pieces(&mut pieces, D::solname());
        put_piece(&mut pieces, ",");
        put_pieces(&mut pieces, E::solname());
        put_piece(&mut pieces, ",");
        put_pieces(&mut pieces, F::solname());
        put_piece(&mut pieces, ",");
        put_pieces(&mut pieces, G::solname());
        put_piece(&mut pieces, ",");
        put_pieces(&mut pieces, H::solname());
        put_piece(&mut pieces, ",");
        put_pieces(&mut pieces, I::solname());
        put_piece(&mut pieces, ",");
        put_pieces(&mut pieces, J::solname());
        put_piece(&mut pieces, ",");
        put_pieces(&mut pieces, K::solname());
        put_piece(&mut pieces, ",");
        put_pieces(&mut pieces, L::solname());
        put_piece(&mut pieces, ",");
        put_pieces(&mut pieces, M::solname());
        put_piece(&mut pieces, ",");
        put_pieces(&mut pieces, N::solname());
        put_piece(&mut pieces, ",");
        put_pieces(&mut pieces, O::solname());
        put_piece(&mut pieces, ")");
        pieces
    }
}

impl<A: SolidityType, B: SolidityType, C: SolidityType, D: SolidityType, E: SolidityType, F: SolidityType, G: SolidityType, H: SolidityType, I: SolidityType, J: SolidityType, K: SolidityType, L: SolidityType, M: SolidityType, N: SolidityType, O: SolidityType, P: SolidityType> ArgSignature for (A, B, C, D, E, F, G, H, I, J, K, L, M, N, O, P) {
    open spec fn arg_pieces() -> Seq<Seq<char>> {
        seq!["("@] + A::sol_pieces()
            + seq![","@] + B::sol_pieces()
            + seq![","@] + C::sol_pieces()
            + seq![","@] + D::sol_pieces()
            + seq![","@] + E::sol_pieces()
            + seq![","@] + F::sol_pieces()
            + seq![","@] + G::sol_pieces()
            + seq![","@] + H::sol_pieces()
            + seq![","@] + I::sol_pieces()
            + seq![","@] + J::sol_pieces()
            + seq![","@] + K::sol_pieces()
            + seq![","@] + L::sol_pieces()
            + seq![","@] + M::sol_pieces()
            + seq![","@] + N::sol_pieces()
            + seq![","@] + O::sol_pieces()
            + seq![","@] + P::sol_pieces()
            + seq![")"@]
    }

    fn arg_sig() -> Vec<&'static str> {
        let mut pieces = one_piece("(");
        put_pieces(&mut pieces, A::solname());
        put_piece(&mut pieces, ",");
        put_pieces(&mut pieces, B::solname());
        put_piece(&mut pieces, ",");
        put_pieces(&mut pieces, C::solname());
        put_piece(&mut pieces, ",");
        put_pieces(&mut pieces, D::solname());
        put_piece(&mut pieces, ",");
        put_pieces(&mut pieces, E::solname());
        put_piece(&mut pieces, ",");
        put_pieces(&mut pieces, F::solname());
        put_piece(&mut pieces, ",");
        put_pieces(&mut pieces, G::solname());
        put_piece(&mut pieces, ",");
        put_pieces(&mut pieces, H::solname());
        put_piece(&mut pieces, ",");
        put_pieces(&mut pieces, I::solname());
        put_piece(&mut pieces, ",");
        put_pieces(&mut pieces, J::solname());
        put_piece(&mut pieces, ",");
        put_pieces(&mut pieces, K::solname());
        put_piece(&mut pieces, ",");
        put_pieces(&mut pieces, L::solname());
        put_piece(&mut pieces, ",");
        put_pieces(&mut pieces, M::solname());
        put_piece(&mut pieces, ",");
        put_pieces(&mut pieces, N::solname());
        put_piece(&mut pieces, ",");
        put_pieces(&mut pieces, O::solname());
        put_piece(&mut pieces, ",");
        put_pieces(&mut pieces, P::solname());
        put_piece(&mut pieces, ")");
        pieces
    }
}

impl<A: SolidityType, B: SolidityType, C: SolidityType, D: SolidityType, E: SolidityType, F: SolidityType, G: SolidityType, H: SolidityType, I: SolidityType, J: SolidityType, K: SolidityType, L: SolidityType, M: SolidityType, N: SolidityType, O: SolidityType, P: SolidityType, Q: SolidityType> ArgSignature for (A, B, C, D, E, F, G, H, I, J, K, L, M, N, O, P, Q) {
    open spec fn arg_pieces() -> Seq<Seq<char>> {
        seq!["("@] + A::sol_pieces()
            + seq![","@] + B::sol_pieces()
            + seq![","@] + C::sol_pieces()
            + seq![","@] + D::sol_pieces()
            + seq![","@] + E::sol_pieces()
            + seq![","@] + F::sol_pieces()
            + seq![","@] + G::sol_pieces()
            + seq![","@] + H::sol_pieces()
            + seq![","@] + I::sol_pieces()
            + seq![","@] + J::sol_pieces()
            + seq![","@] + K::sol_pieces()
            + seq![","@] + L::sol_pieces()
            + seq![","@] + M::sol_pieces()
            + seq![","@] + N::sol_pieces()
            + seq![","@] + O::sol_pieces()
            + seq![","@] + P::sol_pieces()
            + seq![","@] + Q::sol_pieces()
            + seq![")"@]
    }

    fn arg_sig() -> Vec<&'static str> {
        let mut pieces = one_piece("(");
        put_pieces(&mut pieces, A::solname());
        put_piece(&mut pieces, ",");
        put_pieces(&mut pieces, B::solname());
        put_piece(&mut pieces, ",");
        put_pieces(&mut pieces, C::solname());
        put_piece(&mut pieces, ",");
        put_pieces(&mut pieces, D::solname());
        put_piece(&mut pieces, ",");
        put_pieces(&mut pieces, E::solname());
        put_piece(&mut pieces, ",");
        put_pieces(&mut pieces, F::solname());
        put_piece(&mut pieces, ",");
        put_pieces(&mut pieces, G::solname());
        put_piece(&mut pieces, ",");
        put_pieces(&mut pieces, H::solname());
        put_piece(&mut pieces, ",");
        put_pieces(&mut pieces, I::solname());
        put_piece(&mut pieces, ",");
        put_pieces(&mut pieces, J::solname());
        put_piece(&mut pieces, ",");
        put_pieces(&mut pieces, K::solname());
        put_piece(&mut pieces, ",");
        put_pieces(&mut pieces, L::solname());
        put_piece(&mut pieces, ",");
        put_pieces(&mut pieces, M::solname());
        put_piece(&mut pieces, ",");
        put_pieces(&mut pieces, N::solname());
        put_piece(&mut pieces, ",");
        put_pieces(&mut pieces, O::solname());
        put_piece(&mut pieces, ",");
        put_pieces(&mut pieces, P::solname());
        put_piece(&mut pieces, ",");
        put_pieces(&mut pieces, Q::solname());
        put_piece(&mut pieces, ")");
        pieces
    }
}

} // verus!
