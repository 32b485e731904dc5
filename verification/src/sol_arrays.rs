//! The names of array types.

use vstd::prelude::*;

use crate::signature::{put_piece, SolidityType};

verus! {

impl<T: SolidityType> SolidityType for [T; 0] {
    open spec fn sol_pieces() -> Seq<Seq<char>> {
        T::sol_pieces() + seq!["[0]"@]
    }

    fn solname() -> Vec<&'static str> {
        let mut pieces = T::solname();
        put_piece(&mut pieces, "[0]");
        pieces
    }
}

impl<T: SolidityType> SolidityType for [T; 1] {
    open spec fn sol_pieces() -> Seq<Seq<char>> {
        T::sol_pieces() + seq!["[1]"@]
    }

    fn solname() -> Vec<&'static str> {
        let mut pieces = T::solname();
        put_piece(&mut pieces, "[1]");
        pieces
    }
}

impl<T: SolidityType> SolidityType for [T; 2] {
    open spec fn sol_pieces() -> Seq<Seq<char>> {
        T::sol_pieces() + seq!["[2]"@]
    }

    fn solname() -> Vec<&'static str> {
        let mut pieces = T::solname();
        put_piece(&mut pieces, "[2]");
        pieces
    }
}

impl<T: SolidityType> SolidityType for [T; 3] {
    open spec fn sol_pieces() -> Seq<Seq<char>> {
        T::sol_pieces() + seq!["[3]"@]
    }

    fn solname() -> Vec<&'static str> {
        let mut pieces = T::solname();
        put_piece(&mut pieces, "[3]");
        pieces
    }
}

impl<T: SolidityType> SolidityType for [T; 4] {
    open spec fn sol_pieces() -> Seq<Seq<char>> {
        T::sol_pieces() + seq!["[4]"@]
    }

    fn solname() -> Vec<&'static str> {
        let mut pieces = T::solname();
        put_piece(&mut pieces, "[4]");
        pieces
    }
}

impl<T: SolidityType> SolidityType for [T; 5] {
    open spec fn sol_pieces() -> Seq<Seq<char>> {
        T::sol_pieces() + seq!["[5]"@]
    }

    fn solname() -> Vec<&'static str> {
        let mut pieces = T::solname();
        put_piece(&mut pieces, "[5]");
        pieces
    }
}

impl<T: SolidityType> SolidityType for [T; 6] {
    open spec fn sol_pieces() -> Seq<Seq<char>> {
        T::sol_pieces() + seq!["[6]"@]
    }

    fn solname() -> Vec<&'static str> {
        let mut pieces = T::solname();
        put_piece(&mut pieces, "[6]");
        pieces
    }
}

impl<T: SolidityType> SolidityType for [T; 7] {
    open spec fn sol_pieces() -> Seq<Seq<char>> {
        T::sol_pieces() + seq!["[7]"@]
    }

    fn solname() -> Vec<&'static str> {
        let mut pieces = T::solname();
        put_piece(&mut pieces, "[7]");
        pieces
    }
}

impl<T: SolidityType> SolidityType for [T; 8] {
    open spec fn sol_pieces() -> Seq<Seq<char>> {
        T::sol_pieces() + seq!["[8]"@]
    }

    fn solname() -> Vec<&'static str> {
        let mut pieces = T::solname();
        put_piece(&mut pieces, "[8]");
        pieces
    }
}

impl<T: SolidityType> SolidityType for [T; 9] {
    open spec fn sol_pieces() -> Seq<Seq<char>> {
        T::sol_pieces() + seq!["[9]"@]
    }

    fn solname() -> Vec<&'static str> {
        let mut pieces = T::solname();
        put_piece(&mut pieces, "[9]");
        pieces
    }
}

impl<T: SolidityType> SolidityType for [T; 10] {
    open spec fn sol_pieces() -> Seq<Seq<char>> {
        T::sol_pieces() + seq!["[10]"@]
    }

    fn solname() -> Vec<&'static str> {
        let mut pieces = T::solname();
        put_piece(&mut pieces, "[10]");
        pieces
    }
}

impl<T: SolidityType> SolidityType for [T; 11] {
    open spec fn sol_pieces() -> Seq<Seq<char>> {
        T::sol_pieces() + seq!["[11]"@]
    }

    fn solname() -> Vec<&'static str> {
        let mut pieces = T::solname();
        put_piece(&mut pieces, "[11]");
        pieces
    }
}

impl<T: SolidityType> SolidityType for [T; 12] {
    open spec fn sol_pieces() -> Seq<Seq<char>> {
        T::sol_pieces() + seq!["[12]"@]
    }

    fn solname() -> Vec<&'static str> {
        let mut pieces = T::solname();
        put_piece(&mut pieces, "[12]");
        pieces
    }
}

impl<T: SolidityType> SolidityType for [T; 13] {
    open spec fn sol_pieces() -> Seq<Seq<char>> {
        T::sol_pieces() + seq!["[13]"@]
    }

    fn solname() -> Vec<&'static str> {
        let mut pieces = T::solname();
        put_piece(&mut pieces, "[13]");
        pieces
    }
}

impl<T: SolidityType> SolidityType for [T; 14] {
    open spec fn sol_pieces() -> Seq<Seq<char>> {
        T::sol_pieces() + seq!["[14]"@]
    }

    fn solname() -> Vec<&'static str> {
        let mut pieces = T::solname();
        put_piece(&mut pieces, "[14]");
        pieces
    }
}

impl<T: SolidityType> SolidityType for [T; 15] {
    open spec fn sol_pieces() -> Seq<Seq<char>> {
        T::sol_pieces() + seq!["[15]"@]
    }

    fn solname() -> Vec<&'static str> {
        let mut pieces = T::solname();
        put_piece(&mut pieces, "[15]");
        pieces
    }
}

impl<T: SolidityType> SolidityType for [T; 16] {
    open spec fn sol_pieces() -> Seq<Seq<char>> {
        T::sol_pieces() + seq!["[16]"@]
    }

    fn solname() -> Vec<&'static str> {
        let mut pieces = T::solname();
        put_piece(&mut pieces, "[16]");
        pieces
    }
}

impl<T: SolidityType> SolidityType for [T; 32] {
    open spec fn sol_pieces() -> Seq<Seq<char>> {
        T::sol_pieces() + seq!["[32]"@]
    }

    fn solname() -> Vec<&'static str> {
        let mut pieces = T::solname();
        put_piece(&mut pieces, "[32]");
        pieces
    }
}

impl<T: SolidityType> SolidityType for [T; 64] {
    open spec fn sol_pieces() -> Seq<Seq<char>> {
        T::sol_pieces() + seq!["[64]"@]
    }

    fn solname() -> Vec<&'static str> {
        let mut pieces = T::solname();
        put_piece(&mut pieces, "[64]");
        pieces
    }
}

impl<T: SolidityType> SolidityType for [T; 128] {
    open spec fn sol_pieces() -> Seq<Seq<char>> {
        T::sol_pieces() + seq!["[128]"@]
    }

    fn solname() -> Vec<&'static str> {
        let mut pieces = T::solname();
        put_piece(&mut pieces, "[128]");
        pieces
    }
}

impl<T: SolidityType> SolidityType for [T; 256] {
    open spec fn sol_pieces() -> Seq<Seq<char>> {
        T::sol_pieces() + seq!["[256]"@]
    }

    fn solname() -> Vec<&'static str> {
        let mut pieces = T::solname();
        put_piece(&mut pieces, "[256]");
        pieces
    }
}

impl<T: SolidityType> SolidityType for [T; 512] {
    open spec fn sol_pieces() -> Seq<Seq<char>> {
        T::sol_pieces() + seq!["[512]"@]
    }

    fn solname() -> Vec<&'static str> {
        let mut pieces = T::solname();
        put_piece(&mut pieces, "[512]");
        pieces
    }
}

impl<T: SolidityType> SolidityType for [T; 1024] {
    open spec fn sol_pieces() -> Seq<Seq<char>> {
        T::sol_pieces() + seq!["[1024]"@]
    }

    fn solname() -> Vec<&'static str> {
        let mut pieces = T::solname();
        put_piece(&mut pieces, "[1024]");
        pieces
    }
}

} // verus!
