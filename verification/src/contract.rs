//! Contracts: a constructor and handlers, deployed and called.

use core::marker::PhantomData;

use vstd::prelude::*;

use crate::env::EthEnv;
use crate::handlers::{
    find_selector, position, Handler, HandlerMut, Handlers, OnMsg, OnMsgMut,
};
use crate::message::{request_for, Message, Request, RequestView};
use crate::response::{output_of, Response};
use crate::wire::Wire;

verus! {

/// What is known of the transaction at hand.
pub struct TxInfo(());

/// There is nothing by which one transaction differs from another.
pub proof fn law_one_tx_info(txinfo: TxInfo, other: TxInfo)
    ensures
        txinfo == other,
{
}

impl TxInfo {
    /// A transaction to deploy a contract with, without a chain.
    pub fn new() -> (txinfo: TxInfo) {
        TxInfo(())
    }
}

/// Sets up the state of a contract when it is deployed.
pub trait Constructor {
    type State;

    /// Whether the constructor can be called. It always can, unless it says otherwise.
    open spec fn accepts(&self, before: Self::State, txinfo: TxInfo) -> bool {
        true
    }

    /// What the constructor makes of the state. It promises nothing, unless it says
    /// otherwise.
    open spec fn sets_up(&self, before: Self::State, txinfo: TxInfo, after: Self::State) -> bool {
        true
    }

    fn call(&self, state: &mut Self::State, txinfo: TxInfo)
        requires
            self.accepts(*old(state), txinfo),
        ensures
            self.sets_up(*old(state), txinfo, *final(state)),
    ;
}

/// A contract: its constructor and its handlers.
pub struct Contract<Cons, Handle> {
    constructor: Cons,
    handlers: Handle,
}

impl<Cons, Handle> Contract<Cons, Handle> {
    /// The constructor.
    pub closed spec fn start(&self) -> Cons {
        self.constructor
    }

    /// The handlers, the newest first.
    pub closed spec fn entries(&self) -> Handle {
        self.handlers
    }
}

impl Contract<(), ()> {
    /// A contract that has no constructor yet, nor handlers.
    pub fn new() -> (contract: Contract<(), ()>)
        ensures
            contract.start() == (),
            contract.entries() == (),
    {
        Contract { constructor: (), handlers: () }
    }

    /// Gives the contract its constructor.
    pub fn constructor<C: Constructor>(self, constructor: C) -> (contract: Contract<C, ()>)
        where C::State: Default
        ensures
            contract.start() == constructor,
            contract.entries() == self.entries(),
    {
        Contract { constructor, handlers: self.handlers }
    }
}

impl<Cons: Constructor, Handle: Handlers<Cons::State>> Contract<Cons, Handle> {
    /// Puts an entry before the handlers.
    fn with_handler<Entry>(self, entry: Entry) -> (contract: Contract<Cons, (Entry, Handle)>)
        ensures
            contract.start() == self.start(),
            contract.entries() == (entry, self.entries()),
    {
        Contract { constructor: self.constructor, handlers: (entry, self.handlers) }
    }

    /// Adds a handler of `M` that looks at the state.
    pub fn on_msg<M: Message, H: Handler<M, Cons::State>>(self, handler: H) -> (contract: Contract<
        Cons,
        (OnMsg<M, H>, Handle),
    >)
        ensures
            contract.start() == self.start(),
            contract.entries().0.handler == handler,
            contract.entries().1 == self.entries(),
    {
        self.with_handler(OnMsg { message: PhantomData, handler })
    }

    /// Adds a handler of `M` that may change the state.
    pub fn on_msg_mut<M: Message, H: HandlerMut<M, Cons::State>>(self, handler: H) -> (contract:
        Contract<Cons, (OnMsgMut<M, H>, Handle)>)
        ensures
            contract.start() == self.start(),
            contract.entries().0.handler == handler,
            contract.entries().1 == self.entries(),
    {
        self.with_handler(OnMsgMut { message: PhantomData, handler })
    }
}

/// Why a request cannot be answered.
#[derive(Debug, Copy, Clone, PartialEq, Eq, Structural)]
pub enum Refusal {
    /// No handler answers the message that the request names.
    NoMethod,
    /// The value of the request holds no arguments for the message.
    NoArguments,
}

/// A contract as it is seen from outside.
pub trait ContractDef<State: Default>: Sized {
    type Output: Response;

    /// Why the request cannot be answered, if it cannot.
    spec fn refusal(&self, request: RequestView) -> Option<Refusal>;

    /// Whether the request can be answered in the state.
    spec fn ready(&self, env: EthEnv, state: State, request: RequestView) -> bool;

    /// What a request makes of the state, and what is answered.
    spec fn replies(
        &self,
        env: EthEnv,
        before: State,
        request: RequestView,
        after: State,
        output: Self::Output,
    ) -> bool;

    /// Whether every request can be answered in the state that is not refused.
    spec fn total(&self, env: EthEnv, state: State) -> bool;

    /// Whether the constructor can be called.
    spec fn constructible(&self, before: State, txdata: TxInfo) -> bool;

    /// What the constructor makes of the state.
    spec fn constructs(&self, before: State, txdata: TxInfo, after: State) -> bool;

    /// Where every request can be answered that is not refused, each such request can.
    proof fn lemma_total(&self, env: EthEnv, state: State, request: RequestView)
        requires
            self.total(env, state),
            self.refusal(request) is None,
        ensures
            self.ready(env, state, request),
    ;

    /// Why the request cannot be answered, if it cannot.
    fn check(&self, request: &Request) -> (refusal: Option<Refusal>)
        ensures
            refusal == self.refusal(request@),
    ;

    /// Answers a request.
    fn send_request(&self, env: &EthEnv, state: &mut State, input: Request) -> (output:
        Self::Output)
        requires
            self.ready(*env, *old(state), input@),
        ensures
            self.replies(*env, *old(state), input@, *final(state), output),
    ;

    /// Sets up the state.
    fn construct(&self, state: &mut State, txdata: TxInfo)
        requires
            self.constructible(*old(state), txdata),
        ensures
            self.constructs(*old(state), txdata, *final(state)),
    ;

    /// Sets up the contract in a state that is there, which may hold what an earlier
    /// contract left behind.
    fn deploy_on<'a>(&'a self, env: &'a EthEnv, state: State, txdata: TxInfo) -> (instance:
        ContractInstance<'a, State, Self>)
        requires
            self.constructible(state, txdata),
        ensures
            *instance.env == *env,
            *instance.contract == *self,
            self.constructs(state, txdata, instance.state),
    {
        let mut state: State = state;
        self.construct(&mut state, txdata);
        ContractInstance { env, state, contract: self }
    }

    /// Sets up a state of its own for the contract, which can then be called.
    fn deploy<'a>(&'a self, env: &'a EthEnv, txdata: TxInfo) -> (instance: ContractInstance<
        'a,
        State,
        Self,
    >)
        requires
            call_requires(State::default, ()),
            forall|state: State| #[trigger]
                call_ensures(State::default, (), state) ==> self.constructible(state, txdata),
        ensures
            *instance.env == *env,
            *instance.contract == *self,
            exists|state: State| #[trigger]
                call_ensures(State::default, (), state) && self.constructs(
                    state,
                    txdata,
                    instance.state,
                ),
    {
        let state: State = State::default();
        assert(call_ensures(State::default, (), state));
        self.deploy_on(env, state, txdata)
    }

    /// Calls the contract with the message `M`. `None` where what is answered is no output
    /// of `M`.
    fn call<M: Message>(&self, env: &EthEnv, state: &mut State, input: M::Input) -> (output: Option<
        M::Output,
    >)
        requires
            self.ready(*env, *old(state), request_for::<M>(input.model())),
        ensures
            exists|answer: Self::Output| #[trigger]
                self.replies(
                    *env,
                    *old(state),
                    request_for::<M>(input.model()),
                    *final(state),
                    answer,
                ) && match output_of::<M>(answer.held()) {
                    Some(m) => output is Some && output.unwrap().model() == m,
                    None => output is None,
                },
    {
        let answer = self.send_request(env, state, Request::new::<M>(input));
        answer.output_for::<M>()
    }
}

/// A contract that was deployed, with its state.
pub struct ContractInstance<'a, S, T> {
    pub env: &'a EthEnv,
    pub state: S,
    pub contract: &'a T,
}

impl<C: Constructor, H: Handlers<C::State>> ContractDef<C::State> for Contract<C, H> where
    C::State: Default,
 {
    type Output = H::Output;

    open spec fn refusal(&self, request: RequestView) -> Option<Refusal> {
        match position(H::selectors(), request.selector) {
            Some(at) => if H::decodes(at, request.value) {
                None
            } else {
                Some(Refusal::NoArguments)
            },
            None => Some(Refusal::NoMethod),
        }
    }

    open spec fn ready(&self, env: EthEnv, state: C::State, request: RequestView) -> bool {
        &&& position(H::selectors(), request.selector) matches Some(at)
        &&& H::decodes(at, request.value)
        &&& self.entries().accepts(at, env, state, request.value)
    }

    open spec fn replies(
        &self,
        env: EthEnv,
        before: C::State,
        request: RequestView,
        after: C::State,
        output: H::Output,
    ) -> bool {
        &&& position(H::selectors(), request.selector) matches Some(at)
        &&& self.entries().answers(at, env, before, request.value, after, output)
    }

    open spec fn total(&self, env: EthEnv, state: C::State) -> bool {
        self.entries().total(env, state)
    }

    open spec fn constructible(&self, before: C::State, txdata: TxInfo) -> bool {
        self.start().accepts(before, txdata)
    }

    open spec fn constructs(&self, before: C::State, txdata: TxInfo, after: C::State) -> bool {
        self.start().sets_up(before, txdata, after)
    }

    proof fn lemma_total(&self, env: EthEnv, state: C::State, request: RequestView) {
        let at = position(H::selectors(), request.selector).unwrap();
        self.entries().lemma_total(at, env, state, request.value);
    }

    fn check(&self, request: &Request) -> Option<Refusal> {
        let selectors = H::list_selectors();
        match find_selector(&selectors, &request.function_selector) {
            Some(at) => if H::can_decode(at, &request.value) {
                None
            } else {
                Some(Refusal::NoArguments)
            },
            None => Some(Refusal::NoMethod),
        }
    }

    fn send_request(&self, env: &EthEnv, state: &mut C::State, input: Request) -> H::Output {
        self.handlers.handle(env, state, input).unwrap()
    }

    fn construct(&self, state: &mut C::State, txdata: TxInfo) {
        self.constructor.call(state, txdata)
    }
}

impl<'a, S: Default, T: ContractDef<S>> ContractInstance<'a, S, T> {
    /// Calls the contract with the message `M`.
    pub fn call<M: Message>(&mut self, input: M::Input) -> (output: M::Output)
        requires
            old(self).contract.ready(
                *old(self).env,
                old(self).state,
                request_for::<M>(input.model()),
            ),
            forall|after: S, answer: T::Output| #[trigger]
                old(self).contract.replies(
                    *old(self).env,
                    old(self).state,
                    request_for::<M>(input.model()),
                    after,
                    answer,
                ) ==> output_of::<M>(answer.held()) is Some,
        ensures
            *final(self).env == *old(self).env,
            *final(self).contract == *old(self).contract,
            exists|answer: T::Output| #[trigger]
                old(self).contract.replies(
                    *old(self).env,
                    old(self).state,
                    request_for::<M>(input.model()),
                    final(self).state,
                    answer,
                ) && output_of::<M>(answer.held()) == Some(output.model()),
    {
        let answer = self.contract.send_request(
            self.env,
            &mut self.state,
            Request::new::<M>(input),
        );
        assert(old(self).contract.replies(
            *old(self).env,
            old(self).state,
            request_for::<M>(input.model()),
            self.state,
            answer,
        ));
        answer.output_for::<M>().unwrap()
    }

    /// Calls the contract with the message `M`, unless the request is refused; nothing is
    /// changed then. `None` where what is answered is no output of `M`.
    pub fn try_call<M: Message>(&mut self, input: M::Input) -> (output: Result<
        Option<M::Output>,
        Refusal,
    >)
        requires
            old(self).contract.total(*old(self).env, old(self).state),
        ensures
            *final(self).env == *old(self).env,
            *final(self).contract == *old(self).contract,
            match old(self).contract.refusal(request_for::<M>(input.model())) {
                Some(refusal) => {
                    &&& output == Err::<Option<M::Output>, Refusal>(refusal)
                    &&& final(self).state == old(self).state
                },
                None => exists|answer: T::Output| #[trigger]
                    old(self).contract.replies(
                        *old(self).env,
                        old(self).state,
                        request_for::<M>(input.model()),
                        final(self).state,
                        answer,
                    ) && match output_of::<M>(answer.held()) {
                        Some(m) => output matches Ok(Some(value)) && value.model() == m,
                        None => output matches Ok(None),
                    },
            },
    {
        let request = Request::new::<M>(input);
        match self.contract.check(&request) {
            Some(refusal) => Err(refusal),
            None => {
                proof {
                    self.contract.lemma_total(*self.env, self.state, request@);
                }
                let answer = self.contract.send_request(self.env, &mut self.state, request);
                assert(old(self).contract.replies(
                    *old(self).env,
                    old(self).state,
                    request_for::<M>(input.model()),
                    self.state,
                    answer,
                ));
                Ok(answer.output_for::<M>())
            },
        }
    }
}

} // verus!
