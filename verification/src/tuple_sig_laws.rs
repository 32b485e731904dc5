//! The texts of argument lists.

use vstd::prelude::*;

use crate::signature::{
    joined, lemma_joined_add, lemma_joined_one, ArgSignature, SolidityType,
};

verus! {

/// The text of a list of names: they stand in parentheses, with commas between.
pub open spec fn list_text(names: Seq<Seq<char>>) -> Seq<char> {
    "("@ + separated(names) + ")"@
}

/// Names with commas between.
pub open spec fn separated(names: Seq<Seq<char>>) -> Seq<char>
    decreases names.len(),
{
    if names.len() == 0 {
        Seq::empty()
    } else if names.len() == 1 {
        names[0]
    } else {
        separated(names.drop_last()) + ","@ + names.last()
    }
}

/// The pieces of one more name behind those of a list, and their text.
proof fn lemma_next_name(pieces: Seq<Seq<char>>, names: Seq<Seq<char>>, next: Seq<Seq<char>>)
    requires
        names.len() > 0,
        joined(pieces) == "("@ + separated(names),
    ensures
        joined(pieces + seq![","@] + next) == "("@ + separated(names.push(joined(next))),
{
    lemma_joined_add(pieces + seq![","@], next);
    lemma_joined_add(pieces, seq![","@]);
    lemma_joined_one(","@);
    assert(names.push(joined(next)).drop_last() =~= names);
    assert("("@ + separated(names) + ","@ + joined(next) =~= "("@ + (separated(names) + ","@
        + joined(next)));
}

/// The text of pieces with one more name behind them.
proof fn lemma_next_text(pieces: Seq<Seq<char>>, next: Seq<Seq<char>>)
    ensures
        joined(pieces + seq![","@] + next) == joined(pieces) + ","@ + joined(next),
{
    lemma_joined_add(pieces + seq![","@], next);
    lemma_joined_add(pieces, seq![","@]);
    lemma_joined_one(","@);
}

/// The text of the pieces of a first name.
proof fn lemma_first_text(first: Seq<Seq<char>>)
    ensures
        joined(seq!["("@] + first) == "("@ + joined(first),
{
    lemma_joined_add(seq!["("@], first);
    lemma_joined_one("("@);
}

/// The text of pieces with the end of a list behind them.
proof fn lemma_end_text(pieces: Seq<Seq<char>>)
    ensures
        joined(pieces + seq![")"@]) == joined(pieces) + ")"@,
{
    lemma_joined_add(pieces, seq![")"@]);
    lemma_joined_one(")"@);
}

/// The pieces of the first name of a list, and their text.
proof fn lemma_first_name(first: Seq<Seq<char>>)
    ensures
        joined(seq!["("@] + first) == "("@ + separated(seq![joined(first)]),
{
    lemma_joined_add(seq!["("@], first);
    lemma_joined_one("("@);
}

/// The pieces of a list with its end, and their text.
proof fn lemma_list_end(pieces: Seq<Seq<char>>, names: Seq<Seq<char>>)
    requires
        joined(pieces) == "("@ + separated(names),
    ensures
        joined(pieces + seq![")"@]) == list_text(names),
{
    lemma_joined_add(pieces, seq![")"@]);
    lemma_joined_one(")"@);
}

/// The list without arguments is a pair of parentheses.
pub proof fn law_no_arguments()
    ensures
        joined(<() as ArgSignature>::arg_pieces()) == list_text(Seq::empty()),
        joined(<() as ArgSignature>::arg_pieces()) == "()"@,
{
    lemma_joined_one("()"@);
    reveal_strlit("()");
    reveal_strlit("(");
    reveal_strlit(")");
    assert("()"@ =~= list_text(Seq::empty()));
}

/// A single argument has the same list, in a tuple or without one.
pub proof fn law_tuple_of_one<T: SolidityType>()
    ensures
        <(T,) as ArgSignature>::arg_pieces() == <T as ArgSignature>::arg_pieces(),
{
}

/// The text of a list of one argument.
pub proof fn law_one_argument<A: SolidityType>()
    ensures
        joined(<(A,) as ArgSignature>::arg_pieces()) == list_text(
            seq![
                joined(A::sol_pieces()),
            ],
        ),
        joined(<(A,) as ArgSignature>::arg_pieces()) == "("@ + joined(A::sol_pieces()) + ")"@,
{
    let names = seq![joined(A::sol_pieces())];
    let pieces = seq!["("@] + A::sol_pieces();
    lemma_first_name(A::sol_pieces());
    lemma_first_text(A::sol_pieces());
    lemma_list_end(pieces, names);
    lemma_end_text(pieces);
    assert(names =~= seq![
        joined(A::sol_pieces()),
    ]);
}

/// The text of a list of two arguments.
pub proof fn law_two_arguments<A: SolidityType, B: SolidityType>()
    ensures
        joined(<(A, B) as ArgSignature>::arg_pieces()) == list_text(
            seq![
                joined(A::sol_pieces()),
                joined(B::sol_pieces()),
            ],
        ),
        joined(<(A, B) as ArgSignature>::arg_pieces()) == "("@ + joined(A::sol_pieces())
            + ","@ + joined(B::sol_pieces()) + ")"@,
{
    let names = seq![joined(A::sol_pieces())];
    let pieces = seq!["("@] + A::sol_pieces();
    lemma_first_name(A::sol_pieces());
    lemma_first_text(A::sol_pieces());
    lemma_next_name(pieces, names, B::sol_pieces());
    lemma_next_text(pieces, B::sol_pieces());
    let names = names.push(joined(B::sol_pieces()));
    let pieces = pieces + seq![","@] + B::sol_pieces();
    lemma_list_end(pieces, names);
    lemma_end_text(pieces);
    assert(names =~= seq![
        joined(A::sol_pieces()),
        joined(B::sol_pieces()),
    ]);
}

/// The text of a list of three arguments.
pub proof fn law_three_arguments<A: SolidityType, B: SolidityType, C: SolidityType>()
    ensures
        joined(<(A, B, C) as ArgSignature>::arg_pieces()) == list_text(
            seq![
                joined(A::sol_pieces()),
                joined(B::sol_pieces()),
                joined(C::sol_pieces()),
            ],
        ),
        joined(<(A, B, C) as ArgSignature>::arg_pieces()) == "("@ + joined(A::sol_pieces())
            + ","@ + joined(B::sol_pieces())
            + ","@ + joined(C::sol_pieces()) + ")"@,
{
    let names = seq![joined(A::sol_pieces())];
    let pieces = seq!["("@] + A::sol_pieces();
    lemma_first_name(A::sol_pieces());
    lemma_first_text(A::sol_pieces());
    lemma_next_name(pieces, names, B::sol_pieces());
    lemma_next_text(pieces, B::sol_pieces());
    let names = names.push(joined(B::sol_pieces()));
    let pieces = pieces + seq![","@] + B::sol_pieces();
    lemma_next_name(pieces, names, C::sol_pieces());
    lemma_next_text(pieces, C::sol_pieces());
    let names = names.push(joined(C::sol_pieces()));
    let pieces = pieces + seq![","@] + C::sol_pieces();
    lemma_list_end(pieces, names);
    lemma_end_text(pieces);
    assert(names =~= seq![
        joined(A::sol_pieces()),
        joined(B::sol_pieces()),
        joined(C::sol_pieces()),
    ]);
}

/// The text of a list of four arguments.
pub proof fn law_four_arguments<A: SolidityType, B: SolidityType, C: SolidityType, D: SolidityType>()
    ensures
        joined(<(A, B, C, D) as ArgSignature>::arg_pieces()) == list_text(
            seq![
                joined(A::sol_pieces()),
                joined(B::sol_pieces()),
                joined(C::sol_pieces()),
                joined(D::sol_pieces()),
            ],
        ),
        joined(<(A, B, C, D) as ArgSignature>::arg_pieces()) == "("@ + joined(A::sol_pieces())
            + ","@ + joined(B::sol_pieces())
            + ","@ + joined(C::sol_pieces())
            + ","@ + joined(D::sol_pieces()) + ")"@,
{
    let names = seq![joined(A::sol_pieces())];
    let pieces = seq!["("@] + A::sol_pieces();
    lemma_first_name(A::sol_pieces());
    lemma_first_text(A::sol_pieces());
    lemma_next_name(pieces, names, B::sol_pieces());
    lemma_next_text(pieces, B::sol_pieces());
    let names = names.push(joined(B::sol_pieces()));
    let pieces = pieces + seq![","@] + B::sol_pieces();
    lemma_next_name(pieces, names, C::sol_pieces());
    lemma_next_text(pieces, C::sol_pieces());
    let names = names.push(joined(C::sol_pieces()));
    let pieces = pieces + seq![","@] + C::sol_pieces();
    lemma_next_name(pieces, names, D::sol_pieces());
    lemma_next_text(pieces, D::sol_pieces());
    let names = names.push(joined(D::sol_pieces()));
    let pieces = pieces + seq![","@] + D::sol_pieces();
    lemma_list_end(pieces, names);
    lemma_end_text(pieces);
    assert(names =~= seq![
        joined(A::sol_pieces()),
        joined(B::sol_pieces()),
        joined(C::sol_pieces()),
        joined(D::sol_pieces()),
    ]);
}

/// The text of a list of five arguments.
pub proof fn law_five_arguments<A: SolidityType, B: SolidityType, C: SolidityType, D: SolidityType, E: SolidityType>()
    ensures
        joined(<(A, B, C, D, E) as ArgSignature>::arg_pieces()) == list_text(
            seq![
                joined(A::sol_pieces()),
                joined(B::sol_pieces()),
                joined(C::sol_pieces()),
                joined(D::sol_pieces()),
                joined(E::sol_pieces()),
            ],
        ),
        joined(<(A, B, C, D, E) as ArgSignature>::arg_pieces()) == "("@ + joined(A::sol_pieces())
            + ","@ + joined(B::sol_pieces())
            + ","@ + joined(C::sol_pieces())
            + ","@ + joined(D::sol_pieces())
            + ","@ + joined(E::sol_pieces()) + ")"@,
{
    let names = seq![joined(A::sol_pieces())];
    let pieces = seq!["("@] + A::sol_pieces();
    lemma_first_name(A::sol_pieces());
    lemma_first_text(A::sol_pieces());
    lemma_next_name(pieces, names, B::sol_pieces());
    lemma_next_text(pieces, B::sol_pieces());
    let names = names.push(joined(B::sol_pieces()));
    let pieces = pieces + seq![","@] + B::sol_pieces();
    lemma_next_name(pieces, names, C::sol_pieces());
    lemma_next_text(pieces, C::sol_pieces());
    let names = names.push(joined(C::sol_pieces()));
    let pieces = pieces + seq![","@] + C::sol_pieces();
    lemma_next_name(pieces, names, D::sol_pieces());
    lemma_next_text(pieces, D::sol_pieces());
    let names = names.push(joined(D::sol_pieces()));
    let pieces = pieces + seq![","@] + D::sol_pieces();
    lemma_next_name(pieces, names, E::sol_pieces());
    lemma_next_text(pieces, E::sol_pieces());
    let names = names.push(joined(E::sol_pieces()));
    let pieces = pieces + seq![","@] + E::sol_pieces();
    lemma_list_end(pieces, names);
    lemma_end_text(pieces);
    assert(names =~= seq![
        joined(A::sol_pieces()),
        joined(B::sol_pieces()),
        joined(C::sol_pieces()),
        joined(D::sol_pieces()),
        joined(E::sol_pieces()),
    ]);
}

/// The text of a list of six arguments.
pub proof fn law_six_arguments<A: SolidityType, B: SolidityType, C: SolidityType, D: SolidityType, E: SolidityType, F: SolidityType>()
    ensures
        joined(<(A, B, C, D, E, F) as ArgSignature>::arg_pieces()) == list_text(
            seq![
                joined(A::sol_pieces()),
                joined(B::sol_pieces()),
                joined(C::sol_pieces()),
                joined(D::sol_pieces()),
                joined(E::sol_pieces()),
                joined(F::sol_pieces()),
            ],
        ),
        joined(<(A, B, C, D, E, F) as ArgSignature>::arg_pieces()) == "("@ + joined(A::sol_pieces())
            + ","@ + joined(B::sol_pieces())
            + ","@ + joined(C::sol_pieces())
            + ","@ + joined(D::sol_pieces())
            + ","@ + joined(E::sol_pieces())
            + ","@ + joined(F::sol_pieces()) + ")"@,
{
    let names = seq![joined(A::sol_pieces())];
    let pieces = seq!["("@] + A::sol_pieces();
    lemma_first_name(A::sol_pieces());
    lemma_first_text(A::sol_pieces());
    lemma_next_name(pieces, names, B::sol_pieces());
    lemma_next_text(pieces, B::sol_pieces());
    let names = names.push(joined(B::sol_pieces()));
    let pieces = pieces + seq![","@] + B::sol_pieces();
    lemma_next_name(pieces, names, C::sol_pieces());
    lemma_next_text(pieces, C::sol_pieces());
    let names = names.push(joined(C::sol_pieces()));
    let pieces = pieces + seq![","@] + C::sol_pieces();
    lemma_next_name(pieces, names, D::sol_pieces());
    lemma_next_text(pieces, D::sol_pieces());
    let names = names.push(joined(D::sol_pieces()));
    let pieces = pieces + seq![","@] + D::sol_pieces();
    lemma_next_name(pieces, names, E::sol_pieces());
    lemma_next_text(pieces, E::sol_pieces());
    let names = names.push(joined(E::sol_pieces()));
    let pieces = pieces + seq![","@] + E::sol_pieces();
    lemma_next_name(pieces, names, F::sol_pieces());
    lemma_next_text(pieces, F::sol_pieces());
    let names = names.push(joined(F::sol_pieces()));
    let pieces = pieces + seq![","@] + F::sol_pieces();
    lemma_list_end(pieces, names);
    lemma_end_text(pieces);
    assert(names =~= seq![
        joined(A::sol_pieces()),
        joined(B::sol_pieces()),
        joined(C::sol_pieces()),
        joined(D::sol_pieces()),
        joined(E::sol_pieces()),
        joined(F::sol_pieces()),
    ]);
}

/// The text of a list of seven arguments.
pub proof fn law_seven_arguments<A: SolidityType, B: SolidityType, C: SolidityType, D: SolidityType, E: SolidityType, F: SolidityType, G: SolidityType>()
    ensures
        joined(<(A, B, C, D, E, F, G) as ArgSignature>::arg_pieces()) == list_text(
            seq![
                joined(A::sol_pieces()),
                joined(B::sol_pieces()),
                joined(C::sol_pieces()),
                joined(D::sol_pieces()),
                joined(E::sol_pieces()),
                joined(F::sol_pieces()),
                joined(G::sol_pieces()),
            ],
        ),
        joined(<(A, B, C, D, E, F, G) as ArgSignature>::arg_pieces()) == "("@ + joined(A::sol_pieces())
            + ","@ + joined(B::sol_pieces())
            + ","@ + joined(C::sol_pieces())
            + ","@ + joined(D::sol_pieces())
            + ","@ + joined(E::sol_pieces())
            + ","@ + joined(F::sol_pieces())
            + ","@ + joined(G::sol_pieces()) + ")"@,
{
    let names = seq![joined(A::sol_pieces())];
    let pieces = seq!["("@] + A::sol_pieces();
    lemma_first_name(A::sol_pieces());
    lemma_first_text(A::sol_pieces());
    lemma_next_name(pieces, names, B::sol_pieces());
    lemma_next_text(pieces, B::sol_pieces());
    let names = names.push(joined(B::sol_pieces()));
    let pieces = pieces + seq![","@] + B::sol_pieces();
    lemma_next_name(pieces, names, C::sol_pieces());
    lemma_next_text(pieces, C::sol_pieces());
    let names = names.push(joined(C::sol_pieces()));
    let pieces = pieces + seq![","@] + C::sol_pieces();
    lemma_next_name(pieces, names, D::sol_pieces());
    lemma_next_text(pieces, D::sol_pieces());
    let names = names.push(joined(D::sol_pieces()));
    let pieces = pieces + seq![","@] + D::sol_pieces();
    lemma_next_name(pieces, names, E::sol_pieces());
    lemma_next_text(pieces, E::sol_pieces());
    let names = names.push(joined(E::sol_pieces()));
    let pieces = pieces + seq![","@] + E::sol_pieces();
    lemma_next_name(pieces, names, F::sol_pieces());
    lemma_next_text(pieces, F::sol_pieces());
    let names = names.push(joined(F::sol_pieces()));
    let pieces = pieces + seq![","@] + F::sol_pieces();
    lemma_next_name(pieces, names, G::sol_pieces());
    lemma_next_text(pieces, G::sol_pieces());
    let names = names.push(joined(G::sol_pieces()));
    let pieces = pieces + seq![","@] + G::sol_pieces();
    lemma_list_end(pieces, names);
    lemma_end_text(pieces);
    assert(names =~= seq![
        joined(A::sol_pieces()),
        joined(B::sol_pieces()),
        joined(C::sol_pieces()),
        joined(D::sol_pieces()),
        joined(E::sol_pieces()),
        joined(F::sol_pieces()),
        joined(G::sol_pieces()),
    ]);
}

/// The text of a list of eight arguments.
pub proof fn law_eight_arguments<A: SolidityType, B: SolidityType, C: SolidityType, D: SolidityType, E: SolidityType, F: SolidityType, G: SolidityType, H: SolidityType>()
    ensures
        joined(<(A, B, C, D, E, F, G, H) as ArgSignature>::arg_pieces()) == list_text(
            seq![
                joined(A::sol_pieces()),
                joined(B::sol_pieces()),
                joined(C::sol_pieces()),
                joined(D::sol_pieces()),
                joined(E::sol_pieces()),
                joined(F::sol_pieces()),
                joined(G::sol_pieces()),
                joined(H::sol_pieces()),
            ],
        ),
        joined(<(A, B, C, D, E, F, G, H) as ArgSignature>::arg_pieces()) == "("@ + joined(A::sol_pieces())
            + ","@ + joined(B::sol_pieces())
            + ","@ + joined(C::sol_pieces())
            + ","@ + joined(D::sol_pieces())
            + ","@ + joined(E::sol_pieces())
            + ","@ + joined(F::sol_pieces())
            + ","@ + joined(G::sol_pieces())
            + ","@ + joined(H::sol_pieces()) + ")"@,
{
    let names = seq![joined(A::sol_pieces())];
    let pieces = seq!["("@] + A::sol_pieces();
    lemma_first_name(A::sol_pieces());
    lemma_first_text(A::sol_pieces());
    lemma_next_name(pieces, names, B::sol_pieces());
    lemma_next_text(pieces, B::sol_pieces());
    let names = names.push(joined(B::sol_pieces()));
    let pieces = pieces + seq![","@] + B::sol_pieces();
    lemma_next_name(pieces, names, C::sol_pieces());
    lemma_next_text(pieces, C::sol_pieces());
    let names = names.push(joined(C::sol_pieces()));
    let pieces = pieces + seq![","@] + C::sol_pieces();
    lemma_next_name(pieces, names, D::sol_pieces());
    lemma_next_text(pieces, D::sol_pieces());
    let names = names.push(joined(D::sol_pieces()));
    let pieces = pieces + seq![","@] + D::sol_pieces();
    lemma_next_name(pieces, names, E::sol_pieces());
    lemma_next_text(pieces, E::sol_pieces());
    let names = names.push(joined(E::sol_pieces()));
    let pieces = pieces + seq![","@] + E::sol_pieces();
    lemma_next_name(pieces, names, F::sol_pieces());
    lemma_next_text(pieces, F::sol_pieces());
    let names = names.push(joined(F::sol_pieces()));
    let pieces = pieces + seq![","@] + F::sol_pieces();
    lemma_next_name(pieces, names, G::sol_pieces());
    lemma_next_text(pieces, G::sol_pieces());
    let names = names.push(joined(G::sol_pieces()));
    let pieces = pieces + seq![","@] + G::sol_pieces();
    lemma_next_name(pieces, names, H::sol_pieces());
    lemma_next_text(pieces, H::sol_pieces());
    let names = names.push(joined(H::sol_pieces()));
    let pieces = pieces + seq![","@] + H::sol_pieces();
    lemma_list_end(pieces, names);
    lemma_end_text(pieces);
    assert(names =~= seq![
        joined(A::sol_pieces()),
        joined(B::sol_pieces()),
        joined(C::sol_pieces()),
        joined(D::sol_pieces()),
        joined(E::sol_pieces()),
        joined(F::sol_pieces()),
        joined(G::sol_pieces()),
        joined(H::sol_pieces()),
    ]);
}

/// The text of a list of nine arguments.
pub proof fn law_nine_arguments<A: SolidityType, B: SolidityType, C: SolidityType, D: SolidityType, E: SolidityType, F: SolidityType, G: SolidityType, H: SolidityType, I: SolidityType>()
    ensures
        joined(<(A, B, C, D, E, F, G, H, I) as ArgSignature>::arg_pieces()) == list_text(
            seq![
                joined(A::sol_pieces()),
                joined(B::sol_pieces()),
                joined(C::sol_pieces()),
                joined(D::sol_pieces()),
                joined(E::sol_pieces()),
                joined(F::sol_pieces()),
                joined(G::sol_pieces()),
                joined(H::sol_pieces()),
                joined(I::sol_pieces()),
            ],
        ),
        joined(<(A, B, C, D, E, F, G, H, I) as ArgSignature>::arg_pieces()) == "("@ + joined(A::sol_pieces())
            + ","@ + joined(B::sol_pieces())
            + ","@ + joined(C::sol_pieces())
            + ","@ + joined(D::sol_pieces())
            + ","@ + joined(E::sol_pieces())
            + ","@ + joined(F::sol_pieces())
            + ","@ + joined(G::sol_pieces())
            + ","@ + joined(H::sol_pieces())
            + ","@ + joined(I::sol_pieces()) + ")"@,
{
    let names = seq![joined(A::sol_pieces())];
    let pieces = seq!["("@] + A::sol_pieces();
    lemma_first_name(A::sol_pieces());
    lemma_first_text(A::sol_pieces());
    lemma_next_name(pieces, names, B::sol_pieces());
    lemma_next_text(pieces, B::sol_pieces());
    let names = names.push(joined(B::sol_pieces()));
    let pieces = pieces + seq![","@] + B::sol_pieces();
    lemma_next_name(pieces, names, C::sol_pieces());
    lemma_next_text(pieces, C::sol_pieces());
    let names = names.push(joined(C::sol_pieces()));
    let pieces = pieces + seq![","@] + C::sol_pieces();
    lemma_next_name(pieces, names, D::sol_pieces());
    lemma_next_text(pieces, D::sol_pieces());
    let names = names.push(joined(D::sol_pieces()));
    let pieces = pieces + seq![","@] + D::sol_pieces();
    lemma_next_name(pieces, names, E::sol_pieces());
    lemma_next_text(pieces, E::sol_pieces());
    let names = names.push(joined(E::sol_pieces()));
    let pieces = pieces + seq![","@] + E::sol_pieces();
    lemma_next_name(pieces, names, F::sol_pieces());
    lemma_next_text(pieces, F::sol_pieces());
    let names = names.push(joined(F::sol_pieces()));
    let pieces = pieces + seq![","@] + F::sol_pieces();
    lemma_next_name(pieces, names, G::sol_pieces());
    lemma_next_text(pieces, G::sol_pieces());
    let names = names.push(joined(G::sol_pieces()));
    let pieces = pieces + seq![","@] + G::sol_pieces();
    lemma_next_name(pieces, names, H::sol_pieces());
    lemma_next_text(pieces, H::sol_pieces());
    let names = names.push(joined(H::sol_pieces()));
    let pieces = pieces + seq![","@] + H::sol_pieces();
    lemma_next_name(pieces, names, I::sol_pieces());
    lemma_next_text(pieces, I::sol_pieces());
    let names = names.push(joined(I::sol_pieces()));
    let pieces = pieces + seq![","@] + I::sol_pieces();
    lemma_list_end(pieces, names);
    lemma_end_text(pieces);
    assert(names =~= seq![
        joined(A::sol_pieces()),
        joined(B::sol_pieces()),
        joined(C::sol_pieces()),
        joined(D::sol_pieces()),
        joined(E::sol_pieces()),
        joined(F::sol_pieces()),
        joined(G::sol_pieces()),
        joined(H::sol_pieces()),
        joined(I::sol_pieces()),
    ]);
}

/// The text of a list of ten arguments.
pub proof fn law_ten_arguments<A: SolidityType, B: SolidityType, C: SolidityType, D: SolidityType, E: SolidityType, F: SolidityType, G: SolidityType, H: SolidityType, I: SolidityType, J: SolidityType>()
    ensures
        joined(<(A, B, C, D, E, F, G, H, I, J) as ArgSignature>::arg_pieces()) == list_text(
            seq![
                joined(A::sol_pieces()),
                joined(B::sol_pieces()),
                joined(C::sol_pieces()),
                joined(D::sol_pieces()),
                joined(E::sol_pieces()),
                joined(F::sol_pieces()),
                joined(G::sol_pieces()),
                joined(H::sol_pieces()),
                joined(I::sol_pieces()),
                joined(J::sol_pieces()),
            ],
        ),
        joined(<(A, B, C, D, E, F, G, H, I, J) as ArgSignature>::arg_pieces()) == "("@ + joined(A::sol_pieces())
            + ","@ + joined(B::sol_pieces())
            + ","@ + joined(C::sol_pieces())
            + ","@ + joined(D::sol_pieces())
            + ","@ + joined(E::sol_pieces())
            + ","@ + joined(F::sol_pieces())
            + ","@ + joined(G::sol_pieces())
            + ","@ + joined(H::sol_pieces())
            + ","@ + joined(I::sol_pieces())
            + ","@ + joined(J::sol_pieces()) + ")"@,
{
    let names = seq![joined(A::sol_pieces())];
    let pieces = seq!["("@] + A::sol_pieces();
    lemma_first_name(A::sol_pieces());
    lemma_first_text(A::sol_pieces());
    lemma_next_name(pieces, names, B::sol_pieces());
    lemma_next_text(pieces, B::sol_pieces());
    let names = names.push(joined(B::sol_pieces()));
    let pieces = pieces + seq![","@] + B::sol_pieces();
    lemma_next_name(pieces, names, C::sol_pieces());
    lemma_next_text(pieces, C::sol_pieces());
    let names = names.push(joined(C::sol_pieces()));
    let pieces = pieces + seq![","@] + C::sol_pieces();
    lemma_next_name(pieces, names, D::sol_pieces());
    lemma_next_text(pieces, D::sol_pieces());
    let names = names.push(joined(D::sol_pieces()));
    let pieces = pieces + seq![","@] + D::sol_pieces();
    lemma_next_name(pieces, names, E::sol_pieces());
    lemma_next_text(pieces, E::sol_pieces());
    let names = names.push(joined(E::sol_pieces()));
    let pieces = pieces + seq![","@] + E::sol_pieces();
    lemma_next_name(pieces, names, F::sol_pieces());
    lemma_next_text(pieces, F::sol_pieces());
    let names = names.push(joined(F::sol_pieces()));
    let pieces = pieces + seq![","@] + F::sol_pieces();
    lemma_next_name(pieces, names, G::sol_pieces());
    lemma_next_text(pieces, G::sol_pieces());
    let names = names.push(joined(G::sol_pieces()));
    let pieces = pieces + seq![","@] + G::sol_pieces();
    lemma_next_name(pieces, names, H::sol_pieces());
    lemma_next_text(pieces, H::sol_pieces());
    let names = names.push(joined(H::sol_pieces()));
    let pieces = pieces + seq![","@] + H::sol_pieces();
    lemma_next_name(pieces, names, I::sol_pieces());
    lemma_next_text(pieces, I::sol_pieces());
    let names = names.push(joined(I::sol_pieces()));
    let pieces = pieces + seq![","@] + I::sol_pieces();
    lemma_next_name(pieces, names, J::sol_pieces());
    lemma_next_text(pieces, J::sol_pieces());
    let names = names.push(joined(J::sol_pieces()));
    let pieces = pieces + seq![","@] + J::sol_pieces();
    lemma_list_end(pieces, names);
    lemma_end_text(pieces);
    assert(names =~= seq![
        joined(A::sol_pieces()),
        joined(B::sol_pieces()),
        joined(C::sol_pieces()),
        joined(D::sol_pieces()),
        joined(E::sol_pieces()),
        joined(F::sol_pieces()),
        joined(G::sol_pieces()),
        joined(H::sol_pieces()),
        joined(I::sol_pieces()),
        joined(J::sol_pieces()),
    ]);
}

/// The text of a list of eleven arguments.
pub proof fn law_eleven_arguments<A: SolidityType, B: SolidityType, C: SolidityType, D: SolidityType, E: SolidityType, F: SolidityType, G: SolidityType, H: SolidityType, I: SolidityType, J: SolidityType, K: SolidityType>()
    ensures
        joined(<(A, B, C, D, E, F, G, H, I, J, K) as ArgSignature>::arg_pieces()) == list_text(
            seq![
                joined(A::sol_pieces()),
                joined(B::sol_pieces()),
                joined(C::sol_pieces()),
                joined(D::sol_pieces()),
                joined(E::sol_pieces()),
                joined(F::sol_pieces()),
                joined(G::sol_pieces()),
                joined(H::sol_pieces()),
                joined(I::sol_pieces()),
                joined(J::sol_pieces()),
                joined(K::sol_pieces()),
            ],
        ),
        joined(<(A, B, C, D, E, F, G, H, I, J, K) as ArgSignature>::arg_pieces()) == "("@ + joined(A::sol_pieces())
            + ","@ + joined(B::sol_pieces())
            + ","@ + joined(C::sol_pieces())
            + ","@ + joined(D::sol_pieces())
            + ","@ + joined(E::sol_pieces())
            + ","@ + joined(F::sol_pieces())
            + ","@ + joined(G::sol_pieces())
            + ","@ + joined(H::sol_pieces())
            + ","@ + joined(I::sol_pieces())
            + ","@ + joined(J::sol_pieces())
            + ","@ + joined(K::sol_pieces()) + ")"@,
{
    let names = seq![joined(A::sol_pieces())];
    let pieces = seq!["("@] + A::sol_pieces();
    lemma_first_name(A::sol_pieces());
    lemma_first_text(A::sol_pieces());
    lemma_next_name(pieces, names, B::sol_pieces());
    lemma_next_text(pieces, B::sol_pieces());
    let names = names.push(joined(B::sol_pieces()));
    let pieces = pieces + seq![","@] + B::sol_pieces();
    lemma_next_name(pieces, names, C::sol_pieces());
    lemma_next_text(pieces, C::sol_pieces());
    let names = names.push(joined(C::sol_pieces()));
    let pieces = pieces + seq![","@] + C::sol_pieces();
    lemma_next_name(pieces, names, D::sol_pieces());
    lemma_next_text(pieces, D::sol_pieces());
    let names = names.push(joined(D::sol_pieces()));
    let pieces = pieces + seq![","@] + D::sol_pieces();
    lemma_next_name(pieces, names, E::sol_pieces());
    lemma_next_text(pieces, E::sol_pieces());
    let names = names.push(joined(E::sol_pieces()));
    let pieces = pieces + seq![","@] + E::sol_pieces();
    lemma_next_name(pieces, names, F::sol_pieces());
    lemma_next_text(pieces, F::sol_pieces());
    let names = names.push(joined(F::sol_pieces()));
    let pieces = pieces + seq![","@] + F::sol_pieces();
    lemma_next_name(pieces, names, G::sol_pieces());
    lemma_next_text(pieces, G::sol_pieces());
    let names = names.push(joined(G::sol_pieces()));
    let pieces = pieces + seq![","@] + G::sol_pieces();
    lemma_next_name(pieces, names, H::sol_pieces());
    lemma_next_text(pieces, H::sol_pieces());
    let names = names.push(joined(H::sol_pieces()));
    let pieces = pieces + seq![","@] + H::sol_pieces();
    lemma_next_name(pieces, names, I::sol_pieces());
    lemma_next_text(pieces, I::sol_pieces());
    let names = names.push(joined(I::sol_pieces()));
    let pieces = pieces + seq![","@] + I::sol_pieces();
    lemma_next_name(pieces, names, J::sol_pieces());
    lemma_next_text(pieces, J::sol_pieces());
    let names = names.push(joined(J::sol_pieces()));
    let pieces = pieces + seq![","@] + J::sol_pieces();
    lemma_next_name(pieces, names, K::sol_pieces());
    lemma_next_text(pieces, K::sol_pieces());
    let names = names.push(joined(K::sol_pieces()));
    let pieces = pieces + seq![","@] + K::sol_pieces();
    lemma_list_end(pieces, names);
    lemma_end_text(pieces);
    assert(names =~= seq![
        joined(A::sol_pieces()),
        joined(B::sol_pieces()),
        joined(C::sol_pieces()),
        joined(D::sol_pieces()),
        joined(E::sol_pieces()),
        joined(F::sol_pieces()),
        joined(G::sol_pieces()),
        joined(H::sol_pieces()),
        joined(I::sol_pieces()),
        joined(J::sol_pieces()),
        joined(K::sol_pieces()),
    ]);
}

/// The text of a list of twelve arguments.
pub proof fn law_twelve_arguments<A: SolidityType, B: SolidityType, C: SolidityType, D: SolidityType, E: SolidityType, F: SolidityType, G: SolidityType, H: SolidityType, I: SolidityType, J: SolidityType, K: SolidityType, L: SolidityType>()
    ensures
        joined(<(A, B, C, D, E, F, G, H, I, J, K, L) as ArgSignature>::arg_pieces()) == list_text(
            seq![
                joined(A::sol_pieces()),
                joined(B::sol_pieces()),
                joined(C::sol_pieces()),
                joined(D::sol_pieces()),
                joined(E::sol_pieces()),
                joined(F::sol_pieces()),
                joined(G::sol_pieces()),
                joined(H::sol_pieces()),
                joined(I::sol_pieces()),
                joined(J::sol_pieces()),
                joined(K::sol_pieces()),
                joined(L::sol_pieces()),
            ],
        ),
        joined(<(A, B, C, D, E, F, G, H, I, J, K, L) as ArgSignature>::arg_pieces()) == "("@ + joined(A::sol_pieces())
            + ","@ + joined(B::sol_pieces())
            + ","@ + joined(C::sol_pieces())
            + ","@ + joined(D::sol_pieces())
            + ","@ + joined(E::sol_pieces())
            + ","@ + joined(F::sol_pieces())
            + ","@ + joined(G::sol_pieces())
            + ","@ + joined(H::sol_pieces())
            + ","@ + joined(I::sol_pieces())
            + ","@ + joined(J::sol_pieces())
            + ","@ + joined(K::sol_pieces())
            + ","@ + joined(L::sol_pieces()) + ")"@,
{
    let names = seq![joined(A::sol_pieces())];
    let pieces = seq!["("@] + A::sol_pieces();
    lemma_first_name(A::sol_pieces());
    lemma_first_text(A::sol_pieces());
    lemma_next_name(pieces, names, B::sol_pieces());
    lemma_next_text(pieces, B::sol_pieces());
    let names = names.push(joined(B::sol_pieces()));
    let pieces = pieces + seq![","@] + B::sol_pieces();
    lemma_next_name(pieces, names, C::sol_pieces());
    lemma_next_text(pieces, C::sol_pieces());
    let names = names.push(joined(C::sol_pieces()));
    let pieces = pieces + seq![","@] + C::sol_pieces();
    lemma_next_name(pieces, names, D::sol_pieces());
    lemma_next_text(pieces, D::sol_pieces());
    let names = names.push(joined(D::sol_pieces()));
    let pieces = pieces + seq![","@] + D::sol_pieces();
    lemma_next_name(pieces, names, E::sol_pieces());
    lemma_next_text(pieces, E::sol_pieces());
    let names = names.push(joined(E::sol_pieces()));
    let pieces = pieces + seq![","@] + E::sol_pieces();
    lemma_next_name(pieces, names, F::sol_pieces());
    lemma_next_text(pieces, F::sol_pieces());
    let names = names.push(joined(F::sol_pieces()));
    let pieces = pieces + seq![","@] + F::sol_pieces();
    lemma_next_name(pieces, names, G::sol_pieces());
    lemma_next_text(pieces, G::sol_pieces());
    let names = names.push(joined(G::sol_pieces()));
    let pieces = pieces + seq![","@] + G::sol_pieces();
    lemma_next_name(pieces, names, H::sol_pieces());
    lemma_next_text(pieces, H::sol_pieces());
    let names = names.push(joined(H::sol_pieces()));
    let pieces = pieces + seq![","@] + H::sol_pieces();
    lemma_next_name(pieces, names, I::sol_pieces());
    lemma_next_text(pieces, I::sol_pieces());
    let names = names.push(joined(I::sol_pieces()));
    let pieces = pieces + seq![","@] + I::sol_pieces();
    lemma_next_name(pieces, names, J::sol_pieces());
    lemma_next_text(pieces, J::sol_pieces());
    let names = names.push(joined(J::sol_pieces()));
    let pieces = pieces + seq![","@] + J::sol_pieces();
    lemma_next_name(pieces, names, K::sol_pieces());
    lemma_next_text(pieces, K::sol_pieces());
    let names = names.push(joined(K::sol_pieces()));
    let pieces = pieces + seq![","@] + K::sol_pieces();
    lemma_next_name(pieces, names, L::sol_pieces());
    lemma_next_text(pieces, L::sol_pieces());
    let names = names.push(joined(L::sol_pieces()));
    let pieces = pieces + seq![","@] + L::sol_pieces();
    lemma_list_end(pieces, names);
    lemma_end_text(pieces);
    assert(names =~= seq![
        joined(A::sol_pieces()),
        joined(B::sol_pieces()),
        joined(C::sol_pieces()),
        joined(D::sol_pieces()),
        joined(E::sol_pieces()),
        joined(F::sol_pieces()),
        joined(G::sol_pieces()),
        joined(H::sol_pieces()),
        joined(I::sol_pieces()),
        joined(J::sol_pieces()),
        joined(K::sol_pieces()),
        joined(L::sol_pieces()),
    ]);
}

/// The text of a list of thirteen arguments.
pub proof fn law_thirteen_arguments<A: SolidityType, B: SolidityType, C: SolidityType, D: SolidityType, E: SolidityType, F: SolidityType, G: SolidityType, H: SolidityType, I: SolidityType, J: SolidityType, K: SolidityType, L: SolidityType, M: SolidityType>()
    ensures
        joined(<(A, B, C, D, E, F, G, H, I, J, K, L, M) as ArgSignature>::arg_pieces()) == list_text(
            seq![
                joined(A::sol_pieces()),
                joined(B::sol_pieces()),
                joined(C::sol_pieces()),
                joined(D::sol_pieces()),
                joined(E::sol_pieces()),
                joined(F::sol_pieces()),
                joined(G::sol_pieces()),
                joined(H::sol_pieces()),
                joined(I::sol_pieces()),
                joined(J::sol_pieces()),
                joined(K::sol_pieces()),
                joined(L::sol_pieces()),
                joined(M::sol_pieces()),
            ],
        ),
        joined(<(A, B, C, D, E, F, G, H, I, J, K, L, M) as ArgSignature>::arg_pieces()) == "("@ + joined(A::sol_pieces())
            + ","@ + joined(B::sol_pieces())
            + ","@ + joined(C::sol_pieces())
            + ","@ + joined(D::sol_pieces())
            + ","@ + joined(E::sol_pieces())
            + ","@ + joined(F::sol_pieces())
            + ","@ + joined(G::sol_pieces())
            + ","@ + joined(H::sol_pieces())
            + ","@ + joined(I::sol_pieces())
            + ","@ + joined(J::sol_pieces())
            + ","@ + joined(K::sol_pieces())
            + ","@ + joined(L::sol_pieces())
            + ","@ + joined(M::sol_pieces()) + ")"@,
{
    let names = seq![joined(A::sol_pieces())];
    let pieces = seq!["("@] + A::sol_pieces();
    lemma_first_name(A::sol_pieces());
    lemma_first_text(A::sol_pieces());
    lemma_next_name(pieces, names, B::sol_pieces());
    lemma_next_text(pieces, B::sol_pieces());
    let names = names.push(joined(B::sol_pieces()));
    let pieces = pieces + seq![","@] + B::sol_pieces();
    lemma_next_name(pieces, names, C::sol_pieces());
    lemma_next_text(pieces, C::sol_pieces());
    let names = names.push(joined(C::sol_pieces()));
    let pieces = pieces + seq![","@] + C::sol_pieces();
    lemma_next_name(pieces, names, D::sol_pieces());
    lemma_next_text(pieces, D::sol_pieces());
    let names = names.push(joined(D::sol_pieces()));
    let pieces = pieces + seq![","@] + D::sol_pieces();
    lemma_next_name(pieces, names, E::sol_pieces());
    lemma_next_text(pieces, E::sol_pieces());
    let names = names.push(joined(E::sol_pieces()));
    let pieces = pieces + seq![","@] + E::sol_pieces();
    lemma_next_name(pieces, names, F::sol_pieces());
    lemma_next_text(pieces, F::sol_pieces());
    let names = names.push(joined(F::sol_pieces()));
    let pieces = pieces + seq![","@] + F::sol_pieces();
    lemma_next_name(pieces, names, G::sol_pieces());
    lemma_next_text(pieces, G::sol_pieces());
    let names = names.push(joined(G::sol_pieces()));
    let pieces = pieces + seq![","@] + G::sol_pieces();
    lemma_next_name(pieces, names, H::sol_pieces());
    lemma_next_text(pieces, H::sol_pieces());
    let names = names.push(joined(H::sol_pieces()));
    let pieces = pieces + seq![","@] + H::sol_pieces();
    lemma_next_name(pieces, names, I::sol_pieces());
    lemma_next_text(pieces, I::sol_pieces());
    let names = names.push(joined(I::sol_pieces()));
    let pieces = pieces + seq![","@] + I::sol_pieces();
    lemma_next_name(pieces, names, J::sol_pieces());
    lemma_next_text(pieces, J::sol_pieces());
    let names = names.push(joined(J::sol_pieces()));
    let pieces = pieces + seq![","@] + J::sol_pieces();
    lemma_next_name(pieces, names, K::sol_pieces());
    lemma_next_text(pieces, K::sol_pieces());
    let names = names.push(joined(K::sol_pieces()));
    let pieces = pieces + seq![","@] + K::sol_pieces();
    lemma_next_name(pieces, names, L::sol_pieces());
    lemma_next_text(pieces, L::sol_pieces());
    let names = names.push(joined(L::sol_pieces()));
    let pieces = pieces + seq![","@] + L::sol_pieces();
    lemma_next_name(pieces, names, M::sol_pieces());
    lemma_next_text(pieces, M::sol_pieces());
    let names = names.push(joined(M::sol_pieces()));
    let pieces = pieces + seq![","@] + M::sol_pieces();
    lemma_list_end(pieces, names);
    lemma_end_text(pieces);
    assert(names =~= seq![
        joined(A::sol_pieces()),
        joined(B::sol_pieces()),
        joined(C::sol_pieces()),
        joined(D::sol_pieces()),
        joined(E::sol_pieces()),
        joined(F::sol_pieces()),
        joined(G::sol_pieces()),
        joined(H::sol_pieces()),
        joined(I::sol_pieces()),
        joined(J::sol_pieces()),
        joined(K::sol_pieces()),
        joined(L::sol_pieces()),
        joined(M::sol_pieces()),
    ]);
}

/// The text of a list of fourteen arguments.
pub proof fn law_fourteen_arguments<A: SolidityType, B: SolidityType, C: SolidityType, D: SolidityType, E: SolidityType, F: SolidityType, G: SolidityType, H: SolidityType, I: SolidityType, J: SolidityType, K: SolidityType, L: SolidityType, M: SolidityType, N: SolidityType>()
    ensures
        joined(<(A, B, C, D, E, F, G, H, I, J, K, L, M, N) as ArgSignature>::arg_pieces()) == list_text(
            seq![
                joined(A::sol_pieces()),
                joined(B::sol_pieces()),
                joined(C::sol_pieces()),
                joined(D::sol_pieces()),
                joined(E::sol_pieces()),
                joined(F::sol_pieces()),
                joined(G::sol_pieces()),
                joined(H::sol_pieces()),
                joined(I::sol_pieces()),
                joined(J::sol_pieces()),
                joined(K::sol_pieces()),
                joined(L::sol_pieces()),
                joined(M::sol_pieces()),
                joined(N::sol_pieces()),
            ],
        ),
        joined(<(A, B, C, D, E, F, G, H, I, J, K, L, M, N) as ArgSignature>::arg_pieces()) == "("@ + joined(A::sol_pieces())
            + ","@ + joined(B::sol_pieces())
            + ","@ + joined(C::sol_pieces())
            + ","@ + joined(D::sol_pieces())
            + ","@ + joined(E::sol_pieces())
            + ","@ + joined(F::sol_pieces())
            + ","@ + joined(G::sol_pieces())
            + ","@ + joined(H::sol_pieces())
            + ","@ + joined(I::sol_pieces())
            + ","@ + joined(J::sol_pieces())
            + ","@ + joined(K::sol_pieces())
            + ","@ + joined(L::sol_pieces())
            + ","@ + joined(M::sol_pieces())
            + ","@ + joined(N::sol_pieces()) + ")"@,
{
    let names = seq![joined(A::sol_pieces())];
    let pieces = seq!["("@] + A::sol_pieces();
    lemma_first_name(A::sol_pieces());
    lemma_first_text(A::sol_pieces());
    lemma_next_name(pieces, names, B::sol_pieces());
    lemma_next_text(pieces, B::sol_pieces());
    let names = names.push(joined(B::sol_pieces()));
    let pieces = pieces + seq![","@] + B::sol_pieces();
    lemma_next_name(pieces, names, C::sol_pieces());
    lemma_next_text(pieces, C::sol_pieces());
    let names = names.push(joined(C::sol_pieces()));
    let pieces = pieces + seq![","@] + C::sol_pieces();
    lemma_next_name(pieces, names, D::sol_pieces());
    lemma_next_text(pieces, D::sol_pieces());
    let names = names.push(joined(D::sol_pieces()));
    let pieces = pieces + seq![","@] + D::sol_pieces();
    lemma_next_name(pieces, names, E::sol_pieces());
    lemma_next_text(pieces, E::sol_pieces());
    let names = names.push(joined(E::sol_pieces()));
    let pieces = pieces + seq![","@] + E::sol_pieces();
    lemma_next_name(pieces, names, F::sol_pieces());
    lemma_next_text(pieces, F::sol_pieces());
    let names = names.push(joined(F::sol_pieces()));
    let pieces = pieces + seq![","@] + F::sol_pieces();
    lemma_next_name(pieces, names, G::sol_pieces());
    lemma_next_text(pieces, G::sol_pieces());
    let names = names.push(joined(G::sol_pieces()));
    let pieces = pieces + seq![","@] + G::sol_pieces();
    lemma_next_name(pieces, names, H::sol_pieces());
    lemma_next_text(pieces, H::sol_pieces());
    let names = names.push(joined(H::sol_pieces()));
    let pieces = pieces + seq![","@] + H::sol_pieces();
    lemma_next_name(pieces, names, I::sol_pieces());
    lemma_next_text(pieces, I::sol_pieces());
    let names = names.push(joined(I::sol_pieces()));
    let pieces = pieces + seq![","@] + I::sol_pieces();
    lemma_next_name(pieces, names, J::sol_pieces());
    lemma_next_text(pieces, J::sol_pieces());
    let names = names.push(joined(J::sol_pieces()));
    let pieces = pieces + seq![","@] + J::sol_pieces();
    lemma_next_name(pieces, names, K::sol_pieces());
    lemma_next_text(pieces, K::sol_pieces());
    let names = names.push(joined(K::sol_pieces()));
    let pieces = pieces + seq![","@] + K::sol_pieces();
    lemma_next_name(pieces, names, L::sol_pieces());
    lemma_next_text(pieces, L::sol_pieces());
    let names = names.push(joined(L::sol_pieces()));
    let pieces = pieces + seq![","@] + L::sol_pieces();
    lemma_next_name(pieces, names, M::sol_pieces());
    lemma_next_text(pieces, M::sol_pieces());
    let names = names.push(joined(M::sol_pieces()));
    let pieces = pieces + seq![","@] + M::sol_pieces();
    lemma_next_name(pieces, names, N::sol_pieces());
    lemma_next_text(pieces, N::sol_pieces());
    let names = names.push(joined(N::sol_pieces()));
    let pieces = pieces + seq![","@] + N::sol_pieces();
    lemma_list_end(pieces, names);
    lemma_end_text(pieces);
    assert(names =~= seq![
        joined(A::sol_pieces()),
        joined(B::sol_pieces()),
        joined(C::sol_pieces()),
        joined(D::sol_pieces()),
        joined(E::sol_pieces()),
        joined(F::sol_pieces()),
        joined(G::sol_pieces()),
        joined(H::sol_pieces()),
        joined(I::sol_pieces()),
        joined(J::sol_pieces()),
        joined(K::sol_pieces()),
        joined(L::sol_pieces()),
        joined(M::sol_pieces()),
        joined(N::sol_pieces()),
    ]);
}

/// The text of a list of fifteen arguments.
pub proof fn law_fifteen_arguments<A: SolidityType, B: SolidityType, C: SolidityType, D: SolidityType, E: SolidityType, F: SolidityType, G: SolidityType, H: SolidityType, I: SolidityType, J: SolidityType, K: SolidityType, L: SolidityType, M: SolidityType, N: SolidityType, O: SolidityType>()
    ensures
        joined(<(A, B, C, D, E, F, G, H, I, J, K, L, M, N, O) as ArgSignature>::arg_pieces()) == list_text(
            seq![
                joined(A::sol_pieces()),
                joined(B::sol_pieces()),
                joined(C::sol_pieces()),
                joined(D::sol_pieces()),
                joined(E::sol_pieces()),
                joined(F::sol_pieces()),
                joined(G::sol_pieces()),
                joined(H::sol_pieces()),
                joined(I::sol_pieces()),
                joined(J::sol_pieces()),
                joined(K::sol_pieces()),
                joined(L::sol_pieces()),
                joined(M::sol_pieces()),
                joined(N::sol_pieces()),
                joined(O::sol_pieces()),
            ],
        ),
        joined(<(A, B, C, D, E, F, G, H, I, J, K, L, M, N, O) as ArgSignature>::arg_pieces()) == "("@ + joined(A::sol_pieces())
            + ","@ + joined(B::sol_pieces())
            + ","@ + joined(C::sol_pieces())
            + ","@ + joined(D::sol_pieces())
            + ","@ + joined(E::sol_pieces())
            + ","@ + joined(F::sol_pieces())
            + ","@ + joined(G::sol_pieces())
            + ","@ + joined(H::sol_pieces())
            + ","@ + joined(I::sol_pieces())
            + ","@ + joined(J::sol_pieces())
            + ","@ + joined(K::sol_pieces())
            + ","@ + joined(L::sol_pieces())
            + ","@ + joined(M::sol_pieces())
            + ","@ + joined(N::sol_pieces())
            + ","@ + joined(O::sol_pieces()) + ")"@,
{
    let names = seq![joined(A::sol_pieces())];
    let pieces = seq!["("@] + A::sol_pieces();
    lemma_first_name(A::sol_pieces());
    lemma_first_text(A::sol_pieces());
    lemma_next_name(pieces, names, B::sol_pieces());
    lemma_next_text(pieces, B::sol_pieces());
    let names = names.push(joined(B::sol_pieces()));
    let pieces = pieces + seq![","@] + B::sol_pieces();
    lemma_next_name(pieces, names, C::sol_pieces());
    lemma_next_text(pieces, C::sol_pieces());
    let names = names.push(joined(C::sol_pieces()));
    let pieces = pieces + seq![","@] + C::sol_pieces();
    lemma_next_name(pieces, names, D::sol_pieces());
    lemma_next_text(pieces, D::sol_pieces());
    let names = names.push(joined(D::sol_pieces()));
    let pieces = pieces + seq![","@] + D::sol_pieces();
    lemma_next_name(pieces, names, E::sol_pieces());
    lemma_next_text(pieces, E::sol_pieces());
    let names = names.push(joined(E::sol_pieces()));
    let pieces = pieces + seq![","@] + E::sol_pieces();
    lemma_next_name(pieces, names, F::sol_pieces());
    lemma_next_text(pieces, F::sol_pieces());
    let names = names.push(joined(F::sol_pieces()));
    let pieces = pieces + seq![","@] + F::sol_pieces();
    lemma_next_name(pieces, names, G::sol_pieces());
    lemma_next_text(pieces, G::sol_pieces());
    let names = names.push(joined(G::sol_pieces()));
    let pieces = pieces + seq![","@] + G::sol_pieces();
    lemma_next_name(pieces, names, H::sol_pieces());
    lemma_next_text(pieces, H::sol_pieces());
    let names = names.push(joined(H::sol_pieces()));
    let pieces = pieces + seq![","@] + H::sol_pieces();
    lemma_next_name(pieces, names, I::sol_pieces());
    lemma_next_text(pieces, I::sol_pieces());
    let names = names.push(joined(I::sol_pieces()));
    let pieces = pieces + seq![","@] + I::sol_pieces();
    lemma_next_name(pieces, names, J::sol_pieces());
    lemma_next_text(pieces, J::sol_pieces());
    let names = names.push(joined(J::sol_pieces()));
    let pieces = pieces + seq![","@] + J::sol_pieces();
    lemma_next_name(pieces, names, K::sol_pieces());
    lemma_next_text(pieces, K::sol_pieces());
    let names = names.push(joined(K::sol_pieces()));
    let pieces = pieces + seq![","@] + K::sol_pieces();
    lemma_next_name(pieces, names, L::sol_pieces());
    lemma_next_text(pieces, L::sol_pieces());
    let names = names.push(joined(L::sol_pieces()));
    let pieces = pieces + seq![","@] + L::sol_pieces();
    lemma_next_name(pieces, names, M::sol_pieces());
    lemma_next_text(pieces, M::sol_pieces());
    let names = names.push(joined(M::sol_pieces()));
    let pieces = pieces + seq![","@] + M::sol_pieces();
    lemma_next_name(pieces, names, N::sol_pieces());
    lemma_next_text(pieces, N::sol_pieces());
    let names = names.push(joined(N::sol_pieces()));
    let pieces = pieces + seq![","@] + N::sol_pieces();
    lemma_next_name(pieces, names, O::sol_pieces());
    lemma_next_text(pieces, O::sol_pieces());
    let names = names.push(joined(O::sol_pieces()));
    let pieces = pieces + seq![","@] + O::sol_pieces();
    lemma_list_end(pieces, names);
    lemma_end_text(pieces);
    assert(names =~= seq![
        joined(A::sol_pieces()),
        joined(B::sol_pieces()),
        joined(C::sol_pieces()),
        joined(D::sol_pieces()),
        joined(E::sol_pieces()),
        joined(F::sol_pieces()),
        joined(G::sol_pieces()),
        joined(H::sol_pieces()),
        joined(I::sol_pieces()),
        joined(J::sol_pieces()),
        joined(K::sol_pieces()),
        joined(L::sol_pieces()),
        joined(M::sol_pieces()),
        joined(N::sol_pieces()),
        joined(O::sol_pieces()),
    ]);
}

/// The text of a list of sixteen arguments.
pub proof fn law_sixteen_arguments<A: SolidityType, B: SolidityType, C: SolidityType, D: SolidityType, E: SolidityType, F: SolidityType, G: SolidityType, H: SolidityType, I: SolidityType, J: SolidityType, K: SolidityType, L: SolidityType, M: SolidityType, N: SolidityType, O: SolidityType, P: SolidityType>()
    ensures
        joined(<(A, B, C, D, E, F, G, H, I, J, K, L, M, N, O, P) as ArgSignature>::arg_pieces()) == list_text(
            seq![
                joined(A::sol_pieces()),
                joined(B::sol_pieces()),
                joined(C::sol_pieces()),
                joined(D::sol_pieces()),
                joined(E::sol_pieces()),
                joined(F::sol_pieces()),
                joined(G::sol_pieces()),
                joined(H::sol_pieces()),
                joined(I::sol_pieces()),
                joined(J::sol_pieces()),
                joined(K::sol_pieces()),
                joined(L::sol_pieces()),
                joined(M::sol_pieces()),
                joined(N::sol_pieces()),
                joined(O::sol_pieces()),
                joined(P::sol_pieces()),
            ],
        ),
        joined(<(A, B, C, D, E, F, G, H, I, J, K, L, M, N, O, P) as ArgSignature>::arg_pieces()) == "("@ + joined(A::sol_pieces())
            + ","@ + joined(B::sol_pieces())
            + ","@ + joined(C::sol_pieces())
            + ","@ + joined(D::sol_pieces())
            + ","@ + joined(E::sol_pieces())
            + ","@ + joined(F::sol_pieces())
            + ","@ + joined(G::sol_pieces())
            + ","@ + joined(H::sol_pieces())
            + ","@ + joined(I::sol_pieces())
            + ","@ + joined(J::sol_pieces())
            + ","@ + joined(K::sol_pieces())
            + ","@ + joined(L::sol_pieces())
            + ","@ + joined(M::sol_pieces())
            + ","@ + joined(N::sol_pieces())
            + ","@ + joined(O::sol_pieces())
            + ","@ + joined(P::sol_pieces()) + ")"@,
{
    let names = seq![joined(A::sol_pieces())];
    let pieces = seq!["("@] + A::sol_pieces();
    lemma_first_name(A::sol_pieces());
    lemma_first_text(A::sol_pieces());
    lemma_next_name(pieces, names, B::sol_pieces());
    lemma_next_text(pieces, B::sol_pieces());
    let names = names.push(joined(B::sol_pieces()));
    let pieces = pieces + seq![","@] + B::sol_pieces();
    lemma_next_name(pieces, names, C::sol_pieces());
    lemma_next_text(pieces, C::sol_pieces());
    let names = names.push(joined(C::sol_pieces()));
    let pieces = pieces + seq![","@] + C::sol_pieces();
    lemma_next_name(pieces, names, D::sol_pieces());
    lemma_next_text(pieces, D::sol_pieces());
    let names = names.push(joined(D::sol_pieces()));
    let pieces = pieces + seq![","@] + D::sol_pieces();
    lemma_next_name(pieces, names, E::sol_pieces());
    lemma_next_text(pieces, E::sol_pieces());
    let names = names.push(joined(E::sol_pieces()));
    let pieces = pieces + seq![","@] + E::sol_pieces();
    lemma_next_name(pieces, names, F::sol_pieces());
    lemma_next_text(pieces, F::sol_pieces());
    let names = names.push(joined(F::sol_pieces()));
    let pieces = pieces + seq![","@] + F::sol_pieces();
    lemma_next_name(pieces, names, G::sol_pieces());
    lemma_next_text(pieces, G::sol_pieces());
    let names = names.push(joined(G::sol_pieces()));
    let pieces = pieces + seq![","@] + G::sol_pieces();
    lemma_next_name(pieces, names, H::sol_pieces());
    lemma_next_text(pieces, H::sol_pieces());
    let names = names.push(joined(H::sol_pieces()));
    let pieces = pieces + seq![","@] + H::sol_pieces();
    lemma_next_name(pieces, names, I::sol_pieces());
    lemma_next_text(pieces, I::sol_pieces());
    let names = names.push(joined(I::sol_pieces()));
    let pieces = pieces + seq![","@] + I::sol_pieces();
    lemma_next_name(pieces, names, J::sol_pieces());
    lemma_next_text(pieces, J::sol_pieces());
    let names = names.push(joined(J::sol_pieces()));
    let pieces = pieces + seq![","@] + J::sol_pieces();
    lemma_next_name(pieces, names, K::sol_pieces());
    lemma_next_text(pieces, K::sol_pieces());
    let names = names.push(joined(K::sol_pieces()));
    let pieces = pieces + seq![","@] + K::sol_pieces();
    lemma_next_name(pieces, names, L::sol_pieces());
    lemma_next_text(pieces, L::sol_pieces());
    let names = names.push(joined(L::sol_pieces()));
    let pieces = pieces + seq![","@] + L::sol_pieces();
    lemma_next_name(pieces, names, M::sol_pieces());
    lemma_next_text(pieces, M::sol_pieces());
    let names = names.push(joined(M::sol_pieces()));
    let pieces = pieces + seq![","@] + M::sol_pieces();
    lemma_next_name(pieces, names, N::sol_pieces());
    lemma_next_text(pieces, N::sol_pieces());
    let names = names.push(joined(N::sol_pieces()));
    let pieces = pieces + seq![","@] + N::sol_pieces();
    lemma_next_name(pieces, names, O::sol_pieces());
    lemma_next_text(pieces, O::sol_pieces());
    let names = names.push(joined(O::sol_pieces()));
    let pieces = pieces + seq![","@] + O::sol_pieces();
    lemma_next_name(pieces, names, P::sol_pieces());
    lemma_next_text(pieces, P::sol_pieces());
    let names = names.push(joined(P::sol_pieces()));
    let pieces = pieces + seq![","@] + P::sol_pieces();
    lemma_list_end(pieces, names);
    lemma_end_text(pieces);
    assert(names =~= seq![
        joined(A::sol_pieces()),
        joined(B::sol_pieces()),
        joined(C::sol_pieces()),
        joined(D::sol_pieces()),
        joined(E::sol_pieces()),
        joined(F::sol_pieces()),
        joined(G::sol_pieces()),
        joined(H::sol_pieces()),
        joined(I::sol_pieces()),
        joined(J::sol_pieces()),
        joined(K::sol_pieces()),
        joined(L::sol_pieces()),
        joined(M::sol_pieces()),
        joined(N::sol_pieces()),
        joined(O::sol_pieces()),
        joined(P::sol_pieces()),
    ]);
}

/// The text of a list of seventeen arguments.
pub proof fn law_seventeen_arguments<A: SolidityType, B: SolidityType, C: SolidityType, D: SolidityType, E: SolidityType, F: SolidityType, G: SolidityType, H: SolidityType, I: SolidityType, J: SolidityType, K: SolidityType, L: SolidityType, M: SolidityType, N: SolidityType, O: SolidityType, P: SolidityType, Q: SolidityType>()
    ensures
        joined(<(A, B, C, D, E, F, G, H, I, J, K, L, M, N, O, P, Q) as ArgSignature>::arg_pieces()) == list_text(
            seq![
                joined(A::sol_pieces()),
                joined(B::sol_pieces()),
                joined(C::sol_pieces()),
                joined(D::sol_pieces()),
                joined(E::sol_pieces()),
                joined(F::sol_pieces()),
                joined(G::sol_pieces()),
                joined(H::sol_pieces()),
                joined(I::sol_pieces()),
                joined(J::sol_pieces()),
                joined(K::sol_pieces()),
                joined(L::sol_pieces()),
                joined(M::sol_pieces()),
                joined(N::sol_pieces()),
                joined(O::sol_pieces()),
                joined(P::sol_pieces()),
                joined(Q::sol_pieces()),
            ],
        ),
        joined(<(A, B, C, D, E, F, G, H, I, J, K, L, M, N, O, P, Q) as ArgSignature>::arg_pieces()) == "("@ + joined(A::sol_pieces())
            + ","@ + joined(B::sol_pieces())
            + ","@ + joined(C::sol_pieces())
            + ","@ + joined(D::sol_pieces())
            + ","@ + joined(E::sol_pieces())
            + ","@ + joined(F::sol_pieces())
            + ","@ + joined(G::sol_pieces())
            + ","@ + joined(H::sol_pieces())
            + ","@ + joined(I::sol_pieces())
            + ","@ + joined(J::sol_pieces())
            + ","@ + joined(K::sol_pieces())
            + ","@ + joined(L::sol_pieces())
            + ","@ + joined(M::sol_pieces())
            + ","@ + joined(N::sol_pieces())
            + ","@ + joined(O::sol_pieces())
            + ","@ + joined(P::sol_pieces())
            + ","@ + joined(Q::sol_pieces()) + ")"@,
{
    let names = seq![joined(A::sol_pieces())];
    let pieces = seq!["("@] + A::sol_pieces();
    lemma_first_name(A::sol_pieces());
    lemma_first_text(A::sol_pieces());
    lemma_next_name(pieces, names, B::sol_pieces());
    lemma_next_text(pieces, B::sol_pieces());
    let names = names.push(joined(B::sol_pieces()));
    let pieces = pieces + seq![","@] + B::sol_pieces();
    lemma_next_name(pieces, names, C::sol_pieces());
    lemma_next_text(pieces, C::sol_pieces());
    let names = names.push(joined(C::sol_pieces()));
    let pieces = pieces + seq![","@] + C::sol_pieces();
    lemma_next_name(pieces, names, D::sol_pieces());
    lemma_next_text(pieces, D::sol_pieces());
    let names = names.push(joined(D::sol_pieces()));
    let pieces = pieces + seq![","@] + D::sol_pieces();
    lemma_next_name(pieces, names, E::sol_pieces());
    lemma_next_text(pieces, E::sol_pieces());
    let names = names.push(joined(E::sol_pieces()));
    let pieces = pieces + seq![","@] + E::sol_pieces();
    lemma_next_name(pieces, names, F::sol_pieces());
    lemma_next_text(pieces, F::sol_pieces());
    let names = names.push(joined(F::sol_pieces()));
    let pieces = pieces + seq![","@] + F::sol_pieces();
    lemma_next_name(pieces, names, G::sol_pieces());
    lemma_next_text(pieces, G::sol_pieces());
    let names = names.push(joined(G::sol_pieces()));
    let pieces = pieces + seq![","@] + G::sol_pieces();
    lemma_next_name(pieces, names, H::sol_pieces());
    lemma_next_text(pieces, H::sol_pieces());
    let names = names.push(joined(H::sol_pieces()));
    let pieces = pieces + seq![","@] + H::sol_pieces();
    lemma_next_name(pieces, names, I::sol_pieces());
    lemma_next_text(pieces, I::sol_pieces());
    let names = names.push(joined(I::sol_pieces()));
    let pieces = pieces + seq![","@] + I::sol_pieces();
    lemma_next_name(pieces, names, J::sol_pieces());
    lemma_next_text(pieces, J::sol_pieces());
    let names = names.push(joined(J::sol_pieces()));
    let pieces = pieces + seq![","@] + J::sol_pieces();
    lemma_next_name(pieces, names, K::sol_pieces());
    lemma_next_text(pieces, K::sol_pieces());
    let names = names.push(joined(K::sol_pieces()));
    let pieces = pieces + seq![","@] + K::sol_pieces();
    lemma_next_name(pieces, names, L::sol_pieces());
    lemma_next_text(pieces, L::sol_pieces());
    let names = names.push(joined(L::sol_pieces()));
    let pieces = pieces + seq![","@] + L::sol_pieces();
    lemma_next_name(pieces, names, M::sol_pieces());
    lemma_next_text(pieces, M::sol_pieces());
    let names = names.push(joined(M::sol_pieces()));
    let pieces = pieces + seq![","@] + M::sol_pieces();
    lemma_next_name(pieces, names, N::sol_pieces());
    lemma_next_text(pieces, N::sol_pieces());
    let names = names.push(joined(N::sol_pieces()));
    let pieces = pieces + seq![","@] + N::sol_pieces();
    lemma_next_name(pieces, names, O::sol_pieces());
    lemma_next_text(pieces, O::sol_pieces());
    let names = names.push(joined(O::sol_pieces()));
    let pieces = pieces + seq![","@] + O::sol_pieces();
    lemma_next_name(pieces, names, P::sol_pieces());
    lemma_next_text(pieces, P::sol_pieces());
    let names = names.push(joined(P::sol_pieces()));
    let pieces = pieces + seq![","@] + P::sol_pieces();
    lemma_next_name(pieces, names, Q::sol_pieces());
    lemma_next_text(pieces, Q::sol_pieces());
    let names = names.push(joined(Q::sol_pieces()));
    let pieces = pieces + seq![","@] + Q::sol_pieces();
    lemma_list_end(pieces, names);
    lemma_end_text(pieces);
    assert(names =~= seq![
        joined(A::sol_pieces()),
        joined(B::sol_pieces()),
        joined(C::sol_pieces()),
        joined(D::sol_pieces()),
        joined(E::sol_pieces()),
        joined(F::sol_pieces()),
        joined(G::sol_pieces()),
        joined(H::sol_pieces()),
        joined(I::sol_pieces()),
        joined(J::sol_pieces()),
        joined(K::sol_pieces()),
        joined(L::sol_pieces()),
        joined(M::sol_pieces()),
        joined(N::sol_pieces()),
        joined(O::sol_pieces()),
        joined(P::sol_pieces()),
        joined(Q::sol_pieces()),
    ]);
}

} // verus!
