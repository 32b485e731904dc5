//! The names that types and argument lists have in contract signatures.

use vstd::prelude::*;

verus! {

/// What the pieces of a text say.
pub open spec fn texts(pieces: Seq<&'static str>) -> Seq<Seq<char>> {
    pieces.map_values(|piece: &'static str| piece@)
}

/// The text that pieces make up.
pub open spec fn joined(pieces: Seq<Seq<char>>) -> Seq<char>
    decreases pieces.len(),
{
    if pieces.len() == 0 {
        Seq::empty()
    } else {
        joined(pieces.drop_last()) + pieces.last()
    }
}

/// The text of two runs of pieces is the text of the first and then that of the second.
pub proof fn lemma_joined_add(first: Seq<Seq<char>>, second: Seq<Seq<char>>)
    ensures
        joined(first + second) == joined(first) + joined(second),
    decreases second.len(),
{
    if second.len() == 0 {
        assert(first + second =~= first);
        assert(joined(first) + joined(second) =~= joined(first));
    } else {
        lemma_joined_add(first, second.drop_last());
        assert((first + second).drop_last() =~= first + second.drop_last());
        assert((first + second).last() == second.last());
        assert(joined(first) + (joined(second.drop_last()) + second.last()) =~= (joined(first)
            + joined(second.drop_last())) + second.last());
    }
}

/// The text of one piece is the piece.
pub proof fn lemma_joined_one(piece: Seq<char>)
    ensures
        joined(seq![piece]) == piece,
{
    assert(seq![piece].drop_last() =~= Seq::<Seq<char>>::empty());
    assert(joined(Seq::<Seq<char>>::empty()) + piece =~= piece);
}

/// Puts one more piece behind `pieces`.
pub(crate) fn put_piece(pieces: &mut Vec<&'static str>, piece: &'static str)
    ensures
        texts(final(pieces)@) == texts(old(pieces)@) + seq![piece@],
{
    let ghost before = pieces@;
    pieces.push(piece);
    assert(texts(pieces@) =~= texts(before) + seq![piece@]);
}

/// Puts `more` behind `pieces`.
pub(crate) fn put_pieces(pieces: &mut Vec<&'static str>, more: Vec<&'static str>)
    ensures
        texts(final(pieces)@) == texts(old(pieces)@) + texts(more@),
{
    let ghost before = pieces@;
    let ghost added = more@;
    let mut more = more;
    pieces.append(&mut more);
    assert(texts(pieces@) =~= texts(before) + texts(added));
}

/// One piece alone.
pub(crate) fn one_piece(piece: &'static str) -> (pieces: Vec<&'static str>)
    ensures
        texts(pieces@) == seq![piece@],
{
    let pieces: Vec<&'static str> = vec![piece];
    assert(texts(pieces@) =~= seq![piece@]);
    pieces
}

/// A type of values that a contract takes, with the name that it has in signatures.
pub trait SolidityType {
    /// The name, in pieces.
    spec fn sol_pieces() -> Seq<Seq<char>>;

    /// The name, in pieces.
    fn solname() -> (pieces: Vec<&'static str>)
        ensures
            texts(pieces@) == Self::sol_pieces(),
    ;
}

/// The arguments of a message, with their list as it stands in signatures.
pub trait ArgSignature {
    /// The list, in pieces.
    spec fn arg_pieces() -> Seq<Seq<char>>;

    /// The list, in pieces.
    fn arg_sig() -> (pieces: Vec<&'static str>)
        ensures
            texts(pieces@) == Self::arg_pieces(),
    ;
}

impl SolidityType for bool {
    open spec fn sol_pieces() -> Seq<Seq<char>> {
        seq!["bool"@]
    }

    fn solname() -> Vec<&'static str> {
        one_piece("bool")
    }
}

impl SolidityType for u8 {
    open spec fn sol_pieces() -> Seq<Seq<char>> {
        seq!["uint8"@]
    }

    fn solname() -> Vec<&'static str> {
        one_piece("uint8")
    }
}

impl SolidityType for u16 {
    open spec fn sol_pieces() -> Seq<Seq<char>> {
        seq!["uint16"@]
    }

    fn solname() -> Vec<&'static str> {
        one_piece("uint16")
    }
}

impl SolidityType for u32 {
    open spec fn sol_pieces() -> Seq<Seq<char>> {
        seq!["uint32"@]
    }

    fn solname() -> Vec<&'static str> {
        one_piece("uint32")
    }
}

impl SolidityType for u64 {
    open spec fn sol_pieces() -> Seq<Seq<char>> {
        seq!["uint64"@]
    }

    fn solname() -> Vec<&'static str> {
        one_piece("uint64")
    }
}

impl SolidityType for i8 {
    open spec fn sol_pieces() -> Seq<Seq<char>> {
        seq!["int8"@]
    }

    fn solname() -> Vec<&'static str> {
        one_piece("int8")
    }
}

impl SolidityType for i16 {
    open spec fn sol_pieces() -> Seq<Seq<char>> {
        seq!["int16"@]
    }

    fn solname() -> Vec<&'static str> {
        one_piece("int16")
    }
}

impl SolidityType for i32 {
    open spec fn sol_pieces() -> Seq<Seq<char>> {
        seq!["int32"@]
    }

    fn solname() -> Vec<&'static str> {
        one_piece("int32")
    }
}

impl SolidityType for i64 {
    open spec fn sol_pieces() -> Seq<Seq<char>> {
        seq!["int64"@]
    }

    fn solname() -> Vec<&'static str> {
        one_piece("int64")
    }
}

impl<T: SolidityType> SolidityType for Vec<T> {
    open spec fn sol_pieces() -> Seq<Seq<char>> {
        T::sol_pieces() + seq!["[]"@]
    }

    fn solname() -> Vec<&'static str> {
        let mut pieces = T::solname();
        put_piece(&mut pieces, "[]");
        pieces
    }
}

/// A single argument needs no tuple.
impl<T: SolidityType> ArgSignature for T {
    open spec fn arg_pieces() -> Seq<Seq<char>> {
        seq!["("@] + T::sol_pieces() + seq![")"@]
    }

    fn arg_sig() -> Vec<&'static str> {
        let mut pieces = one_piece("(");
        put_pieces(&mut pieces, T::solname());
        put_piece(&mut pieces, ")");
        pieces
    }
}

/// The name of a vector type is that of its elements and then brackets.
pub proof fn law_vec_name<T: SolidityType>()
    ensures
        joined(Vec::<T>::sol_pieces()) == joined(T::sol_pieces()) + "[]"@,
{
    lemma_joined_add(T::sol_pieces(), seq!["[]"@]);
    lemma_joined_one("[]"@);
}

/// The list of a single argument is its name in parentheses.
pub proof fn law_single_argument<T: SolidityType>()
    ensures
        joined(<T as ArgSignature>::arg_pieces()) == "("@ + joined(T::sol_pieces()) + ")"@,
{
    lemma_joined_add(seq!["("@] + T::sol_pieces(), seq![")"@]);
    lemma_joined_add(seq!["("@], T::sol_pieces());
    lemma_joined_one("("@);
    lemma_joined_one(")"@);
}

} // verus!
