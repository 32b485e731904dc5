//! Messages, the selectors that requests name them by, and the requests themselves.

use vstd::prelude::*;
use vstd::utf8::{encode_scalar, encode_utf8};

use crate::keccak::{sha3_256, sha3_256_byte, sha3_256_output};
use crate::name_laws::law_joined;
use crate::signature::{
    joined, lemma_joined_add, lemma_joined_one, one_piece, put_pieces, texts, ArgSignature,
};
use crate::wire::Wire;

verus! {

/// A message that a contract may answer.
pub trait Message {
    type Input: Wire + ArgSignature;

    type Output: Wire;

    const NAME: &'static str;
}

/// The selector of the message with the signature `text`.
pub open spec fn selector_for(text: Seq<char>) -> Seq<u8> {
    sha3_256_output(encode_utf8(text), 4)
}

/// The bytes of two texts in a row are those of the first and then those of the second.
proof fn lemma_utf8_add(first: Seq<char>, second: Seq<char>)
    ensures
        encode_utf8(first + second) == encode_utf8(first) + encode_utf8(second),
    decreases first.len(),
{
    if first.len() == 0 {
        assert(first + second =~= second);
        assert(encode_utf8(first) + encode_utf8(second) =~= encode_utf8(second));
    } else {
        lemma_utf8_add(first.drop_first(), second);
        assert((first + second).drop_first() =~= first.drop_first() + second);
        assert((first + second)[0] == first[0]);
        let head = encode_scalar(first[0] as u32);
        assert(head + (encode_utf8(first.drop_first()) + encode_utf8(second)) =~= (head
            + encode_utf8(first.drop_first())) + encode_utf8(second));
    }
}

/// The selector of the message whose signature is made up of `pieces`.
pub fn make_selector(pieces: &Vec<&'static str>) -> (selector: [u8; 4])
    ensures
        selector@ == selector_for(joined(texts(pieces@))),
        forall|i: int|
            0 <= i < 4 ==> #[trigger] selector@[i] == sha3_256_byte(
                encode_utf8(joined(texts(pieces@))),
                i as nat,
            ),
        forall|i: int|
            0 <= i < 4 ==> #[trigger] selector@[i] == sha3_256_byte(
                encode_utf8(pieces@.map_values(|piece: &'static str| piece@).flatten()),
                i as nat,
            ),
{
    let mut bytes: Vec<u8> = Vec::new();
    let mut i: usize = 0;
    assert(texts(pieces@.take(0)) =~= Seq::empty());
    while i < pieces.len()
        invariant
            i <= pieces@.len(),
            bytes@ == encode_utf8(joined(texts(pieces@.take(i as int)))),
        decreases pieces@.len() - i,
    {
        proof {
            let next = texts(pieces@.take(i + 1));
            assert(next.drop_last() =~= texts(pieces@.take(i as int)));
            assert(next.last() == pieces@[i as int]@);
            lemma_utf8_add(joined(texts(pieces@.take(i as int))), pieces@[i as int]@);
        }
        bytes.extend_from_slice(pieces[i].as_bytes());
        i = i + 1;
    }
    assert(pieces@.take(i as int) =~= pieces@);
    proof {
        law_joined(texts(pieces@));
        assert(texts(pieces@) =~= pieces@.map_values(|piece: &'static str| piece@));
    }
    let mut out: [u8; 4] = [0u8; 4];
    sha3_256(bytes.as_slice(), &mut out);
    assert(out@ =~= sha3_256_output(bytes@, 4));
    out
}

/// What follows from the name and the arguments of a message.
pub trait MessageExt {
    /// The signature, in pieces.
    spec fn signature_pieces() -> Seq<Seq<char>>;

    /// The signature, in pieces.
    fn signature() -> (pieces: Vec<&'static str>)
        ensures
            texts(pieces@) == Self::signature_pieces(),
    ;

    /// The selector by which requests name the message.
    fn selector() -> (selector: [u8; 4])
        ensures
            selector@ == selector_for(joined(Self::signature_pieces())),
            forall|i: int|
                0 <= i < 4 ==> #[trigger] selector@[i] == sha3_256_byte(
                    encode_utf8(joined(Self::signature_pieces())),
                    i as nat,
                ),
    {
        make_selector(&Self::signature())
    }
}

impl<T: Message> MessageExt for T {
    open spec fn signature_pieces() -> Seq<Seq<char>> {
        seq![T::NAME@] + T::Input::arg_pieces()
    }

    fn signature() -> Vec<&'static str> {
        let mut pieces = one_piece(T::NAME);
        put_pieces(&mut pieces, T::Input::arg_sig());
        pieces
    }
}

/// The text of a signature is the name of the message and then the list of its arguments.
pub proof fn law_signature_text<M: Message>()
    ensures
        joined(M::signature_pieces()) == M::NAME@ + joined(M::Input::arg_pieces()),
{
    lemma_joined_add(seq![M::NAME@], M::Input::arg_pieces());
    lemma_joined_one(M::NAME@);
}

/// The selector of the message `M`.
pub open spec fn selector_of<M: Message>() -> Seq<u8> {
    selector_for(joined(M::signature_pieces()))
}

/// The selector of a signature is the first four bytes of the hash of all of its text.
pub proof fn law_selector_for(text: Seq<char>)
    ensures
        selector_for(text).len() == 4,
        forall|i: int|
            0 <= i < 4 ==> #[trigger] selector_for(text)[i] == sha3_256_byte(
                encode_utf8(text),
                i as nat,
            ),
{
}

/// The selector of a message is the first four bytes of the hash of its name and the list of
/// its arguments.
pub proof fn law_selector_of<M: Message>()
    ensures
        selector_of::<M>().len() == 4,
        forall|i: int|
            0 <= i < 4 ==> #[trigger] selector_of::<M>()[i] == sha3_256_byte(
                encode_utf8(M::NAME@ + M::Input::arg_pieces().flatten()),
                i as nat,
            ),
{
    law_signature_text::<M>();
    law_joined(M::Input::arg_pieces());
}

/// A request to a contract: which message it is, and the bytes of its arguments.
pub struct Request {
    pub function_selector: [u8; 4],
    pub value: Vec<u8>,
}

/// What a request says.
#[verifier::ext_equal]
pub struct RequestView {
    pub selector: Seq<u8>,
    pub value: Seq<u8>,
}

impl View for Request {
    type V = RequestView;

    open spec fn view(&self) -> RequestView {
        RequestView { selector: self.function_selector@, value: self.value@ }
    }
}

/// What a request for the message `M` with the arguments `input` says.
pub open spec fn request_for<M: Message>(input: <M::Input as Wire>::Model) -> RequestView {
    RequestView { selector: selector_of::<M>(), value: M::Input::encoding(input) }
}

impl Request {
    /// A request under a given selector.
    pub fn addressed<I: Wire>(function_selector: [u8; 4], input: I) -> (request: Request)
        ensures
            request@ == (RequestView {
                selector: function_selector@,
                value: I::encoding(input.model()),
            }),
    {
        let mut value: Vec<u8> = Vec::new();
        input.encode(&mut value);
        let request = Request { function_selector, value };
        assert(request@.value =~= I::encoding(input.model()));
        request
    }

    /// A request for the message `M`.
    pub fn new<M: Message>(input: M::Input) -> (request: Request)
        ensures
            request@ == request_for::<M>(input.model()),
    {
        Request::addressed(M::selector(), input)
    }
}

/// What a request says is its selector and its value.
pub proof fn law_request_view(request: Request)
    ensures
        request@.selector == request.function_selector@,
        request@.value == request.value@,
{
}

/// A request for a message has the first four bytes of the hash of its signature as its
/// selector, and the bytes of the arguments, and no others, as its value.
pub proof fn law_request_for<M: Message>(input: M::Input)
    ensures
        request_for::<M>(input.model()).value == M::Input::encoding(input.model()),
        request_for::<M>(input.model()).selector.len() == 4,
        forall|i: int|
            0 <= i < 4 ==> #[trigger] request_for::<M>(input.model()).selector[i] == sha3_256_byte(
                encode_utf8(M::NAME@ + M::Input::arg_pieces().flatten()),
                i as nat,
            ),
{
    law_selector_of::<M>();
}

} // verus!
