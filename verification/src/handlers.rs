//! The handlers of a contract, and which of them answers a request.

use core::marker::PhantomData;

use vstd::prelude::*;

use crate::env::EthEnv;
use crate::message::{selector_of, Message, MessageExt, Request};
use crate::response::{Either, Response, Void};
use crate::source::{law_starts_with, lemma_skip_zero, ByteSource};
use crate::wire::Wire;

verus! {

/// No handler answers the message that a request names.
#[derive(Debug, Copy, Clone, Default)]
pub struct NoMethodError;

/// A handler of the message `M` that looks at the state `St`.
pub trait Handler<M: Message, St> {
    /// Whether the handler can be called. It always can, unless it says otherwise.
    open spec fn accepts(&self, env: EthEnv, state: St, input: <M::Input as Wire>::Model) -> bool {
        true
    }

    /// What the handler returns. It promises nothing, unless it says otherwise.
    open spec fn answers(
        &self,
        env: EthEnv,
        state: St,
        input: <M::Input as Wire>::Model,
        output: <M::Output as Wire>::Model,
    ) -> bool {
        true
    }

    fn call(&self, env: &EthEnv, state: &St, input: M::Input) -> (output: M::Output)
        requires
            self.accepts(*env, *state, input.model()),
        ensures
            self.answers(*env, *state, input.model(), output.model()),
    ;
}

/// A handler of the message `M` that may change the state `St`.
pub trait HandlerMut<M: Message, St> {
    /// Whether the handler can be called. It always can, unless it says otherwise.
    open spec fn accepts(&self, env: EthEnv, state: St, input: <M::Input as Wire>::Model) -> bool {
        true
    }

    /// What the handler makes of the state, and what it returns. It promises nothing,
    /// unless it says otherwise.
    open spec fn answers(
        &self,
        env: EthEnv,
        before: St,
        input: <M::Input as Wire>::Model,
        after: St,
        output: <M::Output as Wire>::Model,
    ) -> bool {
        true
    }

    fn call(&self, env: &EthEnv, state: &mut St, input: M::Input) -> (output: M::Output)
        requires
            self.accepts(*env, *old(state), input.model()),
        ensures
            self.answers(*env, *old(state), input.model(), *final(state), output.model()),
    ;
}

/// An entry of the list of handlers: a handler that looks at the state.
pub struct OnMsg<M, H> {
    pub message: PhantomData<M>,
    pub handler: H,
}

/// An entry of the list of handlers: a handler that may change the state.
pub struct OnMsgMut<M, H> {
    pub message: PhantomData<M>,
    pub handler: H,
}

/// The first place at which `selector` stands in a list of selectors.
pub open spec fn position(selectors: Seq<Seq<u8>>, selector: Seq<u8>) -> Option<nat>
    decreases selectors.len(),
{
    if selectors.len() == 0 {
        None
    } else if selectors[0] == selector {
        Some(0)
    } else {
        match position(selectors.drop_first(), selector) {
            Some(at) => Some(at + 1),
            None => None,
        }
    }
}

/// A selector that is found stands at the place found, and at none before it; one that is
/// not found stands nowhere.
pub proof fn law_position(selectors: Seq<Seq<u8>>, selector: Seq<u8>)
    ensures
        match position(selectors, selector) {
            Some(at) => at < selectors.len() && selectors[at as int] == selector && (forall|i: int|
                0 <= i < at ==> selectors[i] != selector),
            None => forall|i: int| 0 <= i < selectors.len() ==> selectors[i] != selector,
        },
    decreases selectors.len(),
{
    if selectors.len() > 0 && selectors[0] != selector {
        let rest = selectors.drop_first();
        law_position(rest, selector);
        assert forall|i: int| 0 < i < selectors.len() implies selectors[i] == rest[i - 1] by {}
    }
}

/// The bytes of the selectors in a list.
pub open spec fn views(selectors: Seq<[u8; 4]>) -> Seq<Seq<u8>> {
    selectors.map_values(|s: [u8; 4]| s@)
}

/// Whether two selectors are the same.
pub(crate) fn same_selector(a: &[u8; 4], b: &[u8; 4]) -> (same: bool)
    ensures
        same == (a@ == b@),
{
    let same = a[0] == b[0] && a[1] == b[1] && a[2] == b[2] && a[3] == b[3];
    assert(same ==> a@ =~= b@);
    same
}

/// The first place at which `selector` stands in a list of selectors.
pub fn find_selector(selectors: &Vec<[u8; 4]>, selector: &[u8; 4]) -> (found: Option<usize>)
    ensures
        match position(views(selectors@), selector@) {
            Some(at) => found is Some && found.unwrap() == at && at < selectors@.len(),
            None => found is None,
        },
{
    let mut i: usize = 0;
    proof {
        law_position(views(selectors@), selector@);
    }
    while i < selectors.len()
        invariant
            i <= selectors@.len(),
            forall|j: int| 0 <= j < i ==> selectors@[j]@ != selector@,
        decreases selectors@.len() - i,
    {
        if same_selector(&selectors[i], selector) {
            proof {
                law_position(views(selectors@), selector@);
                assert(views(selectors@)[i as int] == selector@);
                let at = position(views(selectors@), selector@).unwrap();
                if at < i {
                    assert(views(selectors@)[at as int] == selectors@[at as int]@);
                }
            }
            return Some(i);
        }
        i = i + 1;
    }
    proof {
        law_position(views(selectors@), selector@);
        if position(views(selectors@), selector@) is Some {
            let at = position(views(selectors@), selector@).unwrap();
            assert(views(selectors@)[at as int] == selectors@[at as int]@);
        }
    }
    None
}

/// The handlers of a contract, the newest first.
pub trait Handlers<State> {
    type Output: Response;

    /// The selectors of their messages.
    spec fn selectors() -> Seq<Seq<u8>>;

    /// Whether there is a handler at a place, and `value` holds arguments for it.
    spec fn decodes(at: nat, value: Seq<u8>) -> bool;

    /// Whether the handler at a place can be called with the arguments in `value`.
    spec fn accepts(&self, at: nat, env: EthEnv, state: State, value: Seq<u8>) -> bool;

    /// What the handler at a place makes of the state, and what it answers, for the
    /// arguments in `value`.
    spec fn answers(
        &self,
        at: nat,
        env: EthEnv,
        before: State,
        value: Seq<u8>,
        after: State,
        output: Self::Output,
    ) -> bool;

    /// Whether every handler can be called with all arguments.
    spec fn total(&self, env: EthEnv, state: State) -> bool;

    /// Where every handler can be called with all arguments, each can with those given.
    proof fn lemma_total(&self, at: nat, env: EthEnv, state: State, value: Seq<u8>)
        requires
            self.total(env, state),
        ensures
            self.accepts(at, env, state, value),
    ;

    /// The selectors of the messages.
    fn list_selectors() -> (selectors: Vec<[u8; 4]>)
        ensures
            views(selectors@) == Self::selectors(),
    ;

    /// Whether there is a handler at a place, and `value` holds arguments for it.
    fn can_decode(at: usize, value: &Vec<u8>) -> (decodes: bool)
        ensures
            decodes == Self::decodes(at as nat, value@),
    ;

    /// Calls the handler at a place with the arguments in `value`. `None` where it holds
    /// none; nothing is changed then.
    fn run(&self, at: usize, env: &EthEnv, state: &mut State, value: &Vec<u8>) -> (output: Option<
        Self::Output,
    >)
        requires
            Self::decodes(at as nat, value@) ==> self.accepts(
                at as nat,
                *env,
                *old(state),
                value@,
            ),
        ensures
            if Self::decodes(at as nat, value@) {
                output is Some && self.answers(
                    at as nat,
                    *env,
                    *old(state),
                    value@,
                    *final(state),
                    output.unwrap(),
                )
            } else {
                output is None && *final(state) == *old(state)
            },
    ;

    /// Answers a request with the first handler whose message has its selector, going by
    /// a given list of the selectors.
    fn handle_by(
        &self,
        selectors: &Vec<[u8; 4]>,
        env: &EthEnv,
        state: &mut State,
        request: Request,
    ) -> (answer: Result<Self::Output, NoMethodError>)
        requires
            position(views(selectors@), request@.selector) matches Some(at) ==> Self::decodes(
                at,
                request@.value,
            ) && self.accepts(at, *env, *old(state), request@.value),
        ensures
            match position(views(selectors@), request@.selector) {
                Some(at) => answer is Ok && self.answers(
                    at,
                    *env,
                    *old(state),
                    request@.value,
                    *final(state),
                    answer->Ok_0,
                ),
                None => answer is Err && *final(state) == *old(state),
            },
    {
        match find_selector(selectors, &request.function_selector) {
            Some(at) => Ok(self.run(at, env, state, &request.value).unwrap()),
            None => Err(NoMethodError),
        }
    }

    /// Answers a request with the newest handler of the message that it names.
    fn handle(&self, env: &EthEnv, state: &mut State, request: Request) -> (answer: Result<
        Self::Output,
        NoMethodError,
    >)
        requires
            position(Self::selectors(), request@.selector) matches Some(at) ==> Self::decodes(
                at,
                request@.value,
            ) && self.accepts(at, *env, *old(state), request@.value),
        ensures
            match position(Self::selectors(), request@.selector) {
                Some(at) => answer is Ok && self.answers(
                    at,
                    *env,
                    *old(state),
                    request@.value,
                    *final(state),
                    answer->Ok_0,
                ),
                None => answer is Err && *final(state) == *old(state),
            },
    {
        let selectors = Self::list_selectors();
        self.handle_by(&selectors, env, state, request)
    }
}

impl<State> Handlers<State> for () {
    type Output = Void;

    open spec fn selectors() -> Seq<Seq<u8>> {
        Seq::empty()
    }

    open spec fn decodes(at: nat, value: Seq<u8>) -> bool {
        false
    }

    open spec fn accepts(&self, at: nat, env: EthEnv, state: State, value: Seq<u8>) -> bool {
        true
    }

    open spec fn answers(
        &self,
        at: nat,
        env: EthEnv,
        before: State,
        value: Seq<u8>,
        after: State,
        output: Void,
    ) -> bool {
        false
    }

    open spec fn total(&self, env: EthEnv, state: State) -> bool {
        true
    }

    proof fn lemma_total(&self, at: nat, env: EthEnv, state: State, value: Seq<u8>) {
    }

    fn list_selectors() -> Vec<[u8; 4]> {
        let selectors: Vec<[u8; 4]> = Vec::new();
        assert(views(selectors@) =~= Seq::empty());
        selectors
    }

    fn can_decode(at: usize, value: &Vec<u8>) -> bool {
        false
    }

    fn run(&self, at: usize, env: &EthEnv, state: &mut State, value: &Vec<u8>) -> Option<
        Void,
    > {
        None
    }
}

/// The arguments for `M` that `value` holds.
pub open spec fn input_in<M: Message>(value: Seq<u8>) -> Option<<M::Input as Wire>::Model> {
    match M::Input::parse(ByteSource::of_seq(value)) {
        Some((input, _)) => Some(input),
        None => None,
    }
}

/// The arguments for `M` that `value` holds.
pub fn decode_input<M: Message>(value: &Vec<u8>) -> (input: Option<M::Input>)
    ensures
        match input_in::<M>(value@) {
            Some(m) => input is Some && input.unwrap().model() == m,
            None => input is None,
        },
{
    proof {
        lemma_skip_zero(ByteSource::of_seq(value@));
    }
    match M::Input::decode(value.as_slice(), 0) {
        Some((input, _)) => Some(input),
        None => None,
    }
}

impl<M: Message, H: Handler<M, State>, Rest: Handlers<State>, State> Handlers<State> for (
    OnMsg<M, H>,
    Rest,
) {
    type Output = Either<M::Output, Rest::Output>;

    open spec fn selectors() -> Seq<Seq<u8>> {
        seq![selector_of::<M>()] + Rest::selectors()
    }

    open spec fn decodes(at: nat, value: Seq<u8>) -> bool {
        if at == 0 {
            input_in::<M>(value) is Some
        } else {
            Rest::decodes((at - 1) as nat, value)
        }
    }

    open spec fn accepts(&self, at: nat, env: EthEnv, state: State, value: Seq<u8>) -> bool {
        if at == 0 {
            input_in::<M>(value) matches Some(input) ==> self.0.handler.accepts(env, state, input)
        } else {
            self.1.accepts((at - 1) as nat, env, state, value)
        }
    }

    open spec fn answers(
        &self,
        at: nat,
        env: EthEnv,
        before: State,
        value: Seq<u8>,
        after: State,
        output: Either<M::Output, Rest::Output>,
    ) -> bool {
        if at == 0 {
            &&& input_in::<M>(value) matches Some(input)
            &&& output matches Either::Left(left)
            &&& self.0.handler.answers(env, before, input, left.model())
            &&& after == before
        } else {
            &&& output matches Either::Right(right)
            &&& self.1.answers((at - 1) as nat, env, before, value, after, right)
        }
    }

    open spec fn total(&self, env: EthEnv, state: State) -> bool {
        &&& forall|input: <M::Input as Wire>::Model| #[trigger]
            self.0.handler.accepts(env, state, input)
        &&& self.1.total(env, state)
    }

    proof fn lemma_total(&self, at: nat, env: EthEnv, state: State, value: Seq<u8>) {
        if at > 0 {
            self.1.lemma_total((at - 1) as nat, env, state, value);
        }
    }

    fn list_selectors() -> Vec<[u8; 4]> {
        let mut selectors: Vec<[u8; 4]> = Vec::new();
        selectors.push(M::selector());
        let mut rest = Rest::list_selectors();
        let ghost behind = rest@;
        selectors.append(&mut rest);
        assert(views(selectors@) =~= seq![selector_of::<M>()] + views(behind));
        selectors
    }

    fn can_decode(at: usize, value: &Vec<u8>) -> bool {
        if at == 0 {
            decode_input::<M>(value).is_some()
        } else {
            Rest::can_decode(at - 1, value)
        }
    }

    fn run(&self, at: usize, env: &EthEnv, state: &mut State, value: &Vec<u8>) -> Option<
        Either<M::Output, Rest::Output>,
    > {
        if at == 0 {
            match decode_input::<M>(value) {
                Some(input) => Some(Either::Left(self.0.handler.call(env, state, input))),
                None => None,
            }
        } else {
            match self.1.run(at - 1, env, state, value) {
                Some(output) => Some(Either::Right(output)),
                None => None,
            }
        }
    }
}

impl<M: Message, H: HandlerMut<M, State>, Rest: Handlers<State>, State> Handlers<State> for (
    OnMsgMut<M, H>,
    Rest,
) {
    type Output = Either<M::Output, Rest::Output>;

    open spec fn selectors() -> Seq<Seq<u8>> {
        seq![selector_of::<M>()] + Rest::selectors()
    }

    open spec fn decodes(at: nat, value: Seq<u8>) -> bool {
        if at == 0 {
            input_in::<M>(value) is Some
        } else {
            Rest::decodes((at - 1) as nat, value)
        }
    }

    open spec fn accepts(&self, at: nat, env: EthEnv, state: State, value: Seq<u8>) -> bool {
        if at == 0 {
            input_in::<M>(value) matches Some(input) ==> self.0.handler.accepts(env, state, input)
        } else {
            self.1.accepts((at - 1) as nat, env, state, value)
        }
    }

    open spec fn answers(
        &self,
        at: nat,
        env: EthEnv,
        before: State,
        value: Seq<u8>,
        after: State,
        output: Either<M::Output, Rest::Output>,
    ) -> bool {
        if at == 0 {
            &&& input_in::<M>(value) matches Some(input)
            &&& output matches Either::Left(left)
            &&& self.0.handler.answers(env, before, input, after, left.model())
        } else {
            &&& output matches Either::Right(right)
            &&& self.1.answers((at - 1) as nat, env, before, value, after, right)
        }
    }

    open spec fn total(&self, env: EthEnv, state: State) -> bool {
        &&& forall|input: <M::Input as Wire>::Model| #[trigger]
            self.0.handler.accepts(env, state, input)
        &&& self.1.total(env, state)
    }

    proof fn lemma_total(&self, at: nat, env: EthEnv, state: State, value: Seq<u8>) {
        if at > 0 {
            self.1.lemma_total((at - 1) as nat, env, state, value);
        }
    }

    fn list_selectors() -> Vec<[u8; 4]> {
        let mut selectors: Vec<[u8; 4]> = Vec::new();
        selectors.push(M::selector());
        let mut rest = Rest::list_selectors();
        let ghost behind = rest@;
        selectors.append(&mut rest);
        assert(views(selectors@) =~= seq![selector_of::<M>()] + views(behind));
        selectors
    }

    fn can_decode(at: usize, value: &Vec<u8>) -> bool {
        if at == 0 {
            decode_input::<M>(value).is_some()
        } else {
            Rest::can_decode(at - 1, value)
        }
    }

    fn run(&self, at: usize, env: &EthEnv, state: &mut State, value: &Vec<u8>) -> Option<
        Either<M::Output, Rest::Output>,
    > {
        if at == 0 {
            match decode_input::<M>(value) {
                Some(input) => Some(Either::Left(self.0.handler.call(env, state, input))),
                None => None,
            }
        } else {
            match self.1.run(at - 1, env, state, value) {
                Some(output) => Some(Either::Right(output)),
                None => None,
            }
        }
    }
}

/// The bytes of the selectors in a list are those of each of them.
pub proof fn law_views(selectors: Seq<[u8; 4]>)
    ensures
        views(selectors).len() == selectors.len(),
        forall|i: int| 0 <= i < selectors.len() ==> #[trigger] views(selectors)[i] == selectors[i]@,
{
}

/// A value holds arguments for a message just where it starts with their bytes.
pub proof fn law_input_in<M: Message>(value: Seq<u8>, input: M::Input)
    ensures
        M::Input::encoding(input.model()).is_prefix_of(value) ==> input_in::<M>(value) == Some(
            input.model(),
        ),
        input_in::<M>(value) matches Some(m) ==> M::Input::encoding(m).is_prefix_of(value),
{
    let source = ByteSource::of_seq(value);
    law_starts_with(value, M::Input::encoding(input.model()));
    if M::Input::encoding(input.model()).is_prefix_of(value) {
        M::Input::law_parse_back(input, source);
    }
    if let Some((m, n)) = M::Input::parse(source) {
        M::Input::law_parse_within(source);
        M::Input::law_parse_exact(source);
        law_starts_with(value, M::Input::encoding(m));
        assert(source.take(n).len() == n);
    }
}

/// The selectors of handlers are that of the newest and those of the others.
pub proof fn law_selectors<M, H, N, I, Rest, State>()
    where
    M: Message,
    H: Handler<M, State>,
    N: Message,
    I: HandlerMut<N, State>,
    Rest: Handlers<State>,

    ensures
        <() as Handlers<State>>::selectors() == Seq::<Seq<u8>>::empty(),
        <(OnMsg<M, H>, Rest) as Handlers<State>>::selectors() == seq![selector_of::<M>()]
            + Rest::selectors(),
        <(OnMsgMut<N, I>, Rest) as Handlers<State>>::selectors() == seq![selector_of::<N>()]
            + Rest::selectors(),
{
}

/// The newest of some handlers is the one at place zero: it answers with the arguments that
/// the value holds. The others stand one place further on, and go as they do by themselves.
pub proof fn law_entry<M, H, Rest, State>(
    entries: (OnMsg<M, H>, Rest),
    at: nat,
    env: EthEnv,
    before: State,
    value: Seq<u8>,
    after: State,
    output: Either<M::Output, Rest::Output>,
) where M: Message, H: Handler<M, State>, Rest: Handlers<State>
    ensures
        <(OnMsg<M, H>, Rest) as Handlers<State>>::decodes(0, value) == input_in::<M>(value) is Some,
        <(OnMsg<M, H>, Rest) as Handlers<State>>::decodes(at + 1, value) == Rest::decodes(at, value),
        input_in::<M>(value) matches Some(input) ==> entries.accepts(0, env, before, value)
            == entries.0.handler.accepts(env, before, input),
        entries.accepts(at + 1, env, before, value) == entries.1.accepts(at, env, before, value),
        input_in::<M>(value) matches Some(input) ==> (entries.answers(
            0,
            env,
            before,
            value,
            after,
            output,
        ) <==> output is Left && entries.0.handler.answers(env, before, input, output->Left_0.model())
            && after == before),
        input_in::<M>(value) is None ==> !entries.answers(0, env, before, value, after, output),
        entries.answers(at + 1, env, before, value, after, output) <==> output is Right
            && entries.1.answers(at, env, before, value, after, output->Right_0),
        entries.total(env, before) <==> entries.1.total(env, before) && forall|
            input: <M::Input as Wire>::Model,
        | #[trigger] entries.0.handler.accepts(env, before, input),
{
}

/// The newest of some handlers is the one at place zero: it answers with the arguments that
/// the value holds. The others stand one place further on, and go as they do by themselves.
pub proof fn law_entry_mut<M, H, Rest, State>(
    entries: (OnMsgMut<M, H>, Rest),
    at: nat,
    env: EthEnv,
    before: State,
    value: Seq<u8>,
    after: State,
    output: Either<M::Output, Rest::Output>,
) where M: Message, H: HandlerMut<M, State>, Rest: Handlers<State>
    ensures
        <(OnMsgMut<M, H>, Rest) as Handlers<State>>::decodes(0, value) == input_in::<M>(value) is Some,
        <(OnMsgMut<M, H>, Rest) as Handlers<State>>::decodes(at + 1, value) == Rest::decodes(at, value),
        input_in::<M>(value) matches Some(input) ==> entries.accepts(0, env, before, value)
            == entries.0.handler.accepts(env, before, input),
        entries.accepts(at + 1, env, before, value) == entries.1.accepts(at, env, before, value),
        input_in::<M>(value) matches Some(input) ==> (entries.answers(
            0,
            env,
            before,
            value,
            after,
            output,
        ) <==> output is Left && entries.0.handler.answers(
            env,
            before,
            input,
            after,
            output->Left_0.model(),
        )),
        input_in::<M>(value) is None ==> !entries.answers(0, env, before, value, after, output),
        entries.answers(at + 1, env, before, value, after, output) <==> output is Right
            && entries.1.answers(at, env, before, value, after, output->Right_0),
        entries.total(env, before) <==> entries.1.total(env, before) && forall|
            input: <M::Input as Wire>::Model,
        | #[trigger] entries.0.handler.accepts(env, before, input),
{
}

/// Without handlers there is no place at which one answers.
pub proof fn law_no_entry<State>(
    at: nat,
    env: EthEnv,
    before: State,
    value: Seq<u8>,
    after: State,
    output: Void,
)
    ensures
        !<() as Handlers<State>>::decodes(at, value),
        !<() as Handlers<State>>::answers(&(), at, env, before, value, after, output),
        <() as Handlers<State>>::total(&(), env, before),
{
}

} // verus!
