//! What a contract answers with: one out of the outputs of its messages.

use vstd::prelude::*;

use crate::message::Message;
use crate::source::{lemma_skip_zero, ByteSource};
use crate::wire::Wire;

verus! {

/// One of two values.
pub enum Either<L, R> {
    Left(L),
    Right(R),
}

/// A type without values.
pub enum Void {
    Never(core::convert::Infallible),
}

/// The output that an answer holds: the code of its type, and its encoding.
pub struct Held {
    pub code: Seq<u64>,
    pub bytes: Seq<u8>,
}

impl Held {
    /// A value of type `T`, held.
    pub open spec fn of<T: Wire>(model: T::Model) -> Held {
        Held { code: T::code(), bytes: T::encoding(model) }
    }

    /// What is held, as a value of type `T`: there is one only where `T` is its type.
    pub open spec fn as_type<T: Wire>(self) -> Option<T::Model> {
        if self.code == T::code() {
            match T::parse(ByteSource::of_seq(self.bytes)) {
                Some((model, _)) => Some(model),
                None => None,
            }
        } else {
            None
        }
    }
}

/// A held value, taken as one of its own type, is the value.
pub proof fn law_held_value<T: Wire>(value: T)
    ensures
        Held::of::<T>(value.model()).as_type::<T>() == Some(value.model()),
{
    let bytes = T::encoding(value.model());
    let source = ByteSource::of_seq(bytes);
    assert(source.take(bytes.len()) =~= bytes);
    T::law_parse_back(value, source);
}

/// A held value is none of any type with another code.
pub proof fn law_held_as_other<A: Wire, B: Wire>(value: A)
    requires
        A::code() != B::code(),
    ensures
        Held::of::<A>(value.model()).as_type::<B>() is None,
{
}

/// Whether two codes are the same.
fn same_code(a: &Vec<u64>, b: &Vec<u64>) -> (same: bool)
    ensures
        same == (a@ == b@),
{
    if a.len() != b.len() {
        return false;
    }
    let mut i: usize = 0;
    while i < a.len()
        invariant
            i <= a@.len() == b@.len(),
            forall|j: int| 0 <= j < i ==> a@[j] == b@[j],
        decreases a@.len() - i,
    {
        if a[i] != b[i] {
            return false;
        }
        i = i + 1;
    }
    assert(a@ =~= b@);
    true
}

/// `Box<dyn Any>::downcast` of std: the value itself, where the two types are one; then it
/// has the code and the bytes that it had. Where they are two, the value is given back.
/// That it comes back as one of type `B` just where `B` is `A` is not stated: there is no
/// clause that says that two types are one.
#[verifier::external_body]
fn downcast<A: Wire, B: Wire>(value: A) -> (same: Result<B, A>)
    ensures
        same is Ok ==> Held::of::<B>(same->Ok_0.model()) == Held::of::<A>(value.model()),
        same is Err ==> same->Err_0 == value,
{
    let boxed: Box<dyn std::any::Any> = Box::new(value);
    match boxed.downcast::<B>() {
        Ok(moved) => Ok(*moved),
        Err(kept) => Err(*kept.downcast::<A>().unwrap()),
    }
}

/// Takes a value as one of another type, where the types are the same by their codes. It is
/// moved where they are one type.
fn recast<A: Wire, B: Wire>(value: A) -> (same: Option<B>)
    ensures
        match Held::of::<A>(value.model()).as_type::<B>() {
            Some(m) => same is Some && same.unwrap().model() == m,
            None => same is None,
        },
{
    match downcast::<A, B>(value) {
        Ok(moved) => {
            proof {
                law_held_value::<B>(moved);
            }
            Some(moved)
        },
        Err(kept) => {
            if same_code(&A::type_code(), &B::type_code()) {
                let mut bytes: Vec<u8> = Vec::new();
                kept.encode(&mut bytes);
                proof {
                    assert(bytes@ =~= A::encoding(kept.model()));
                    lemma_skip_zero(ByteSource::of_seq(bytes@));
                }
                match B::decode(bytes.as_slice(), 0) {
                    Some((found, _)) => Some(found),
                    None => None,
                }
            } else {
                None
            }
        },
    }
}

/// The output of `M`, if that is what an answer holds.
pub open spec fn output_of<M: Message>(held: Option<Held>) -> Option<<M::Output as Wire>::Model> {
    match held {
        Some(held) => held.as_type::<M::Output>(),
        None => None,
    }
}

/// An answer, out of which the output of a message can be taken.
pub trait Response: Sized {
    /// The output that the answer holds.
    spec fn held(self) -> Option<Held>;

    /// The output of `M`, if that is what the answer holds.
    fn output_for<M: Message>(self) -> (output: Option<M::Output>)
        ensures
            match output_of::<M>(self.held()) {
                Some(m) => output is Some && output.unwrap().model() == m,
                None => output is None,
            },
    ;
}

impl<Head: Wire, Rest: Response> Response for Either<Head, Rest> {
    open spec fn held(self) -> Option<Held> {
        match self {
            Either::Left(left) => Some(Held::of::<Head>(left.model())),
            Either::Right(right) => right.held(),
        }
    }

    fn output_for<M: Message>(self) -> Option<M::Output> {
        match self {
            Either::Left(left) => recast::<Head, M::Output>(left),
            Either::Right(right) => right.output_for::<M>(),
        }
    }
}

impl Response for Void {
    open spec fn held(self) -> Option<Held> {
        None
    }

    fn output_for<M: Message>(self) -> Option<M::Output> {
        None
    }
}

/// Out of an answer that is the output of a message, that output is taken.
pub proof fn law_left_output<M: Message, Rest: Response>(output: M::Output)
    ensures
        output_of::<M>(Either::<M::Output, Rest>::Left(output).held()) == Some(output.model()),
{
    law_held_value::<M::Output>(output);
}

/// Out of an answer of a type with another code, no output of a message is taken.
pub proof fn law_left_other<Head: Wire, Rest: Response, M: Message>(other: Head)
    requires
        Head::code() != M::Output::code(),
    ensures
        output_of::<M>(Either::<Head, Rest>::Left(other).held()) is None,
{
}

/// What is taken out of an answer that another handler gave is what is taken out of that.
pub proof fn law_right_output<Head: Wire, Rest: Response, M: Message>(answer: Rest)
    ensures
        output_of::<M>(Either::<Head, Rest>::Right(answer).held()) == output_of::<M>(
            answer.held(),
        ),
{
}

} // verus!
