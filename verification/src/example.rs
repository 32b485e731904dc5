//! A contract with a running sum: `Add` adds to it, and `Get` looks at it.

use vstd::prelude::*;

use crate::contract::{Constructor, Contract, ContractDef, ContractInstance, TxInfo};
use crate::contract_laws::{law_newest_answers, law_request_input};
use crate::digits::{lemma_le_bytes_len, lemma_le_value_bound, lemma_span_grows, lemma_spans};
use crate::env::EthEnv;
use crate::eth_state::{stored, stream};
use crate::getter::{
    key_for, key_of, law_other_value_stays, law_written_is_read, value_at, Getter,
};
use crate::handlers::{
    position, same_selector, Handler, HandlerMut, Handlers, OnMsg, OnMsgMut,
};
use crate::keys::nth_key;
use crate::marker::{BorrowMarker, Immut, Mut};
use crate::message::{request_for, selector_of, Message, MessageExt};
use crate::response::{law_held_value, output_of, Either, Response, Void};
use crate::shim::{same_key, Storage};
use crate::wire::Wire;

verus! {

/// Adds to the sum.
pub struct Add;

impl Message for Add {
    type Input = u32;

    type Output = ();

    const NAME: &'static str = "Add";
}

/// Looks at the sum.
pub struct Get;

impl Message for Get {
    type Input = ();

    type Output = u32;

    const NAME: &'static str = "Get";
}

/// The state: the sum so far, and how often something was added to it.
pub struct State {
    pub storage: Storage,
}

impl Default for State {
    fn default() -> (state: State)
        ensures
            state.storage@ == Map::<Seq<u8>, Seq<u8>>::empty(),
    {
        State { storage: Storage::new() }
    }
}

/// The key under which the sum is stored.
pub open spec fn current_key() -> Seq<u8> {
    key_of("current"@)
}

/// The key under which the number of additions is stored.
pub open spec fn calls_key() -> Seq<u8> {
    key_of("calls_to_add"@)
}

impl State {
    /// The sum.
    pub open spec fn sum(&self) -> Option<u32> {
        value_at::<u32>(self.storage@, current_key())
    }

    /// The number of additions.
    pub open spec fn calls(&self) -> Option<usize> {
        value_at::<usize>(self.storage@, calls_key())
    }

    /// Whether `input` can be added and counted.
    pub open spec fn has_room(&self, input: u32) -> bool {
        &&& self.calls() matches Some(calls)
        &&& calls < usize::MAX
        &&& self.sum() matches Some(sum)
        &&& sum + input <= u32::MAX
    }

    /// Whether `input` can be added and counted.
    pub fn room_for(&self, input: u32) -> (room: bool)
        ensures
            room == self.has_room(input),
    {
        let mut calls_to_add = self.calls_to_add::<Immut>();
        let mut current = self.current::<Immut>();
        if calls_to_add.load(&self.storage) && current.load(&self.storage) {
            let calls: usize = *calls_to_add.deref(&self.storage);
            let sum: u32 = *current.deref(&self.storage);
            calls < usize::MAX && sum <= u32::MAX - input
        } else {
            false
        }
    }

    /// Takes the sum in hand.
    pub fn current<M: BorrowMarker>(&self) -> (getter: Getter<M, u32>)
        ensures
            getter.key() == current_key(),
            getter.current() is None,
            !getter.changed(),
    {
        Getter::new("current")
    }

    /// Takes the number of additions in hand.
    pub fn calls_to_add<M: BorrowMarker>(&self) -> (getter: Getter<M, usize>)
        ensures
            getter.key() == calls_key(),
            getter.current() is None,
            !getter.changed(),
    {
        Getter::new("calls_to_add")
    }
}

/// The store once a sum was written to it.
pub open spec fn with_sum(blocks: Map<Seq<u8>, Seq<u8>>, sum: u32) -> Map<Seq<u8>, Seq<u8>> {
    stored(blocks, current_key(), u32::encoding(sum))
}

/// The store once a number of additions was written to it.
pub open spec fn with_calls(blocks: Map<Seq<u8>, Seq<u8>>, calls: usize) -> Map<Seq<u8>, Seq<u8>> {
    stored(blocks, calls_key(), usize::encoding(calls))
}

/// The constructor: the sum is one at first, and nothing was added.
pub struct Setup;

impl Constructor for Setup {
    type State = State;

    open spec fn accepts(&self, before: State, txinfo: TxInfo) -> bool {
        true
    }

    open spec fn sets_up(&self, before: State, txinfo: TxInfo, after: State) -> bool {
        after.storage@ == with_calls(with_sum(before.storage@, 1), 0)
    }

    fn call(&self, state: &mut State, _txinfo: TxInfo) {
        let mut current = state.current::<Mut>();
        current.set(1);
        current.drop(&mut state.storage);
        let mut calls_to_add = state.calls_to_add::<Mut>();
        calls_to_add.set(0);
        calls_to_add.drop(&mut state.storage);
    }
}

/// The handler of `Add`.
pub struct AddHandler;

impl HandlerMut<Add, State> for AddHandler {
    open spec fn accepts(&self, env: EthEnv, state: State, input: u32) -> bool {
        &&& state.calls() matches Some(calls)
        &&& calls < usize::MAX
        &&& value_at::<u32>(
            with_calls(state.storage@, (calls + 1) as usize),
            current_key(),
        ) matches Some(sum)
        &&& sum + input <= u32::MAX
    }

    open spec fn answers(
        &self,
        env: EthEnv,
        before: State,
        input: u32,
        after: State,
        output: (),
    ) -> bool {
        let counted = with_calls(before.storage@, (before.calls().unwrap() + 1) as usize);
        let sum = value_at::<u32>(counted, current_key()).unwrap();
        after.storage@ == with_sum(counted, (sum + input) as u32)
    }

    fn call(&self, _env: &EthEnv, state: &mut State, input: u32) {
        let mut calls_to_add = state.calls_to_add::<Mut>();
        let calls = calls_to_add.deref_mut(&state.storage);
        *calls = *calls + 1;
        calls_to_add.drop(&mut state.storage);
        let mut current = state.current::<Mut>();
        let sum = current.deref_mut(&state.storage);
        *sum = *sum + input;
        current.drop(&mut state.storage);
    }
}

/// The handler of `Get`.
pub struct GetHandler;

impl Handler<Get, State> for GetHandler {
    open spec fn accepts(&self, env: EthEnv, state: State, input: ()) -> bool {
        state.sum() is Some
    }

    open spec fn answers(&self, env: EthEnv, state: State, input: (), output: u32) -> bool {
        state.sum() == Some(output)
    }

    fn call(&self, _env: &EthEnv, state: &State, _input: ()) -> u32 {
        let mut current = state.current::<Immut>();
        *current.deref(&state.storage)
    }
}

/// The names of the messages.
pub proof fn law_names()
    ensures
        Add::NAME@ == "Add"@,
        Get::NAME@ == "Get"@,
{
}

/// The type of the contract: its constructor, and its handlers, the newest first.
pub type Example = Contract<Setup, (OnMsg<Get, GetHandler>, (OnMsgMut<Add, AddHandler>, ()))>;

/// The contract.
pub fn contract() -> (contract: Example)
    ensures
        contract.start() == Setup,
        contract.entries().0.handler == GetHandler,
        contract.entries().1.0.handler == AddHandler,
{
    Contract::new().constructor(Setup).on_msg_mut::<Add, AddHandler>(AddHandler).on_msg::<
        Get,
        GetHandler,
    >(GetHandler)
}

/// Whether the two values of the state are stored apart.
pub open spec fn apart() -> bool {
    current_key() != calls_key()
}

/// Whether the two values of the state are stored apart.
pub fn stored_apart() -> (stored_apart: bool)
    ensures
        stored_apart == apart(),
{
    !same_key(&key_for("current").0, &key_for("calls_to_add").0)
}

/// Whether requests for the two messages are told apart.
pub open spec fn distinct() -> bool {
    selector_of::<Add>() != selector_of::<Get>()
}

/// Whether requests for the two messages are told apart.
pub fn told_apart() -> (told_apart: bool)
    ensures
        told_apart == distinct(),
{
    !same_selector(&Add::selector(), &Get::selector())
}

/// Writing the sum makes it what was written, and leaves the number of additions alone.
proof fn lemma_with_sum(blocks: Map<Seq<u8>, Seq<u8>>, sum: u32)
    requires
        apart(),
    ensures
        value_at::<u32>(with_sum(blocks, sum), current_key()) == Some(sum),
        value_at::<usize>(blocks, calls_key()) is Some ==> value_at::<usize>(
            with_sum(blocks, sum),
            calls_key(),
        ) == value_at::<usize>(blocks, calls_key()),
{
    lemma_spans();
    lemma_span_grows(1, 32);
    lemma_le_bytes_len(sum as nat, 4);
    law_written_is_read::<u32>(blocks, current_key(), sum);
    if value_at::<usize>(blocks, calls_key()) is Some {
        assert(nth_key(calls_key(), 0) == calls_key());
        assert(nth_key(current_key(), 0) == current_key());
        law_other_value_stays::<usize>(blocks, current_key(), u32::encoding(sum), calls_key());
    }
}

/// Every store holds a sum.
pub proof fn law_sum(blocks: Map<Seq<u8>, Seq<u8>>)
    ensures
        value_at::<u32>(blocks, current_key()) is Some,
{
    lemma_spans();
    lemma_le_value_bound(stream(blocks, current_key(), 0).take(4));
}

/// Writing the number of additions makes it what was written, and leaves the sum alone.
proof fn lemma_with_calls(blocks: Map<Seq<u8>, Seq<u8>>, calls: usize)
    requires
        apart(),
    ensures
        value_at::<usize>(with_calls(blocks, calls), calls_key()) == Some(calls),
        value_at::<u32>(with_calls(blocks, calls), current_key()) == value_at::<u32>(
            blocks,
            current_key(),
        ),
{
    lemma_spans();
    lemma_span_grows(1, 32);
    lemma_le_bytes_len(calls as nat, 8);
    law_written_is_read::<usize>(blocks, calls_key(), calls);
    law_sum(blocks);
    assert(nth_key(calls_key(), 0) == calls_key());
    assert(nth_key(current_key(), 0) == current_key());
    law_other_value_stays::<u32>(blocks, calls_key(), usize::encoding(calls), current_key());
}

/// Once the contract was set up, the sum is one and nothing was added.
pub proof fn law_set_up(before: State, txinfo: TxInfo, after: State)
    requires
        apart(),
        Setup.sets_up(before, txinfo, after),
    ensures
        after.sum() == Some(1u32),
        after.calls() == Some(0usize),
{
    lemma_with_sum(before.storage@, 1);
    lemma_with_calls(with_sum(before.storage@, 1), 0);
}

/// `Add` can be called just where neither the sum nor the number of additions gets too
/// large by it. It adds its argument to the one and one to the other.
pub proof fn law_add(env: EthEnv, before: State, input: u32, after: State)
    requires
        apart(),
    ensures
        AddHandler.accepts(env, before, input) == before.has_room(input),
        AddHandler.accepts(env, before, input) && AddHandler.answers(
            env,
            before,
            input,
            after,
            (),
        ) ==> {
            &&& after.sum() == Some((before.sum().unwrap() + input) as u32)
            &&& after.calls() == Some((before.calls().unwrap() + 1) as usize)
        },
{
    if before.calls() is Some {
        let calls = (before.calls().unwrap() + 1) as usize;
        lemma_with_calls(before.storage@, calls);
        let counted = with_calls(before.storage@, calls);
        if before.sum() is Some {
            lemma_with_sum(counted, (before.sum().unwrap() + input) as u32);
        }
    }
}

/// A call of `Add` can be made just where there is room for its argument. It is answered,
/// adds the argument to the sum and one to the number of additions.
pub proof fn law_add_call(
    contract: Example,
    env: EthEnv,
    before: State,
    input: u32,
    after: State,
    answer: Either<u32, Either<(), Void>>,
)
    requires
        apart(),
        distinct(),
    ensures
        contract.ready(env, before, request_for::<Add>(input)) == before.has_room(input),
        before.has_room(input) && contract.replies(
            env,
            before,
            request_for::<Add>(input),
            after,
            answer,
        ) ==> {
            &&& output_of::<Add>(answer.held()) == Some(())
            &&& after.sum() == Some((before.sum().unwrap() + input) as u32)
            &&& after.calls() == Some((before.calls().unwrap() + 1) as usize)
        },
{
    law_add(env, before, input, after);
    let request = request_for::<Add>(input);
    let older = <(OnMsgMut<Add, AddHandler>, ()) as Handlers<State>>::selectors();
    let all = <(OnMsg<Get, GetHandler>, (OnMsgMut<Add, AddHandler>, ())) as Handlers<
        State,
    >>::selectors();
    assert(all.drop_first() =~= older);
    assert(position(older, request.selector) == Some(0nat));
    assert(position(all, request.selector) == Some(1nat));
    law_request_input::<Add>(input);
    law_held_value::<()>(());
}

/// A call of `Get` can be made in every state. It returns the sum and changes nothing.
pub proof fn law_get_call(
    contract: Example,
    env: EthEnv,
    before: State,
    after: State,
    answer: Either<u32, Either<(), Void>>,
)
    ensures
        contract.ready(env, before, request_for::<Get>(())),
        contract.replies(env, before, request_for::<Get>(()), after, answer) ==> {
            &&& output_of::<Get>(answer.held()) == before.sum()
            &&& after == before
        },
{
    law_sum(before.storage@);
    law_newest_answers(contract, env, before, (), after, answer);
}

/// The sum of some arguments.
pub open spec fn sum_of(inputs: Seq<u32>) -> nat
    decreases inputs.len(),
{
    if inputs.len() == 0 {
        0
    } else {
        sum_of(inputs.drop_last()) + inputs.last() as nat
    }
}

/// After calls of `Add` that led through `states`, one after the other, the sum is what it
/// was and all that was added, and the number of additions has grown by the number of calls.
/// There was room for each of them.
proof fn lemma_adds(
    contract: Example,
    env: EthEnv,
    states: Seq<State>,
    inputs: Seq<u32>,
    answers: Seq<Either<u32, Either<(), Void>>>,
)
    requires
        apart(),
        distinct(),
        states.len() == inputs.len() + 1,
        forall|i: int|
            #![trigger inputs[i]]
            0 <= i < inputs.len() ==> contract.replies(
                env,
                states[i],
                request_for::<Add>(inputs[i]),
                states[i + 1],
                answers[i],
            ),
        states[0].sum() is Some,
        states[0].calls() is Some,
        states[0].sum().unwrap() + sum_of(inputs) <= u32::MAX,
        states[0].calls().unwrap() + inputs.len() <= usize::MAX,
    ensures
        states.last().sum() == Some((states[0].sum().unwrap() + sum_of(inputs)) as u32),
        states.last().calls() == Some((states[0].calls().unwrap() + inputs.len()) as usize),
        forall|i: int| 0 <= i < inputs.len() ==> states[i].has_room(#[trigger] inputs[i]),
    decreases inputs.len(),
{
    if inputs.len() > 0 {
        let fewer = inputs.drop_last();
        let earlier = states.drop_last();
        assert forall|i: int| 0 <= i < fewer.len() implies contract.replies(
            env,
            earlier[i],
            request_for::<Add>(#[trigger] fewer[i]),
            earlier[i + 1],
            answers[i],
        ) by {
            assert(fewer[i] == inputs[i]);
        }
        lemma_adds(contract, env, earlier, fewer, answers);
        let last = inputs.len() - 1;
        assert forall|i: int| 0 <= i < inputs.len() implies states[i].has_room(
            #[trigger] inputs[i],
        ) by {
            if i < last {
                assert(earlier[i].has_room(fewer[i]));
            }
        }
        law_add_call(contract, env, states[last], inputs[last], states[last + 1], answers[last]);
    }
}

/// After the contract was set up, whatever was stored before, and `Add` was called any
/// number of times, `Get` returns one and all that was added, each time that it is called,
/// and the number of additions is the number of calls. Each of the calls could be made and
/// was answered.
pub proof fn law_get_after_adds(
    contract: Example,
    env: EthEnv,
    txinfo: TxInfo,
    blank: State,
    states: Seq<State>,
    inputs: Seq<u32>,
    answers: Seq<Either<u32, Either<(), Void>>>,
    seen: State,
    answer: Either<u32, Either<(), Void>>,
)
    requires
        apart(),
        distinct(),
        1 + sum_of(inputs) <= u32::MAX,
        inputs.len() <= usize::MAX,
        contract.constructs(blank, txinfo, states[0]),
        states.len() == inputs.len() + 1,
        forall|i: int|
            #![trigger inputs[i]]
            0 <= i < inputs.len() ==> contract.replies(
                env,
                states[i],
                request_for::<Add>(inputs[i]),
                states[i + 1],
                answers[i],
            ),
        contract.replies(env, states.last(), request_for::<Get>(()), seen, answer),
    ensures
        forall|i: int|
            0 <= i < inputs.len() ==> contract.ready(
                env,
                states[i],
                request_for::<Add>(#[trigger] inputs[i]),
            ),
        forall|i: int|
            0 <= i < inputs.len() ==> output_of::<Add>((#[trigger] answers[i]).held()) == Some(()),
        contract.ready(env, states.last(), request_for::<Get>(())),
        output_of::<Get>(answer.held()) == Some((1 + sum_of(inputs)) as u32),
        seen == states.last(),
        seen.calls() == Some(inputs.len() as usize),
{
    law_set_up(blank, txinfo, states[0]);
    lemma_adds(contract, env, states, inputs, answers);
    assert forall|i: int| 0 <= i < inputs.len() implies contract.ready(
        env,
        states[i],
        request_for::<Add>(#[trigger] inputs[i]),
    ) by {
        law_add_call(contract, env, states[i], inputs[i], states[i + 1], answers[i]);
    }
    assert forall|i: int| 0 <= i < inputs.len() implies output_of::<Add>(
        (#[trigger] answers[i]).held(),
    ) == Some(()) by {
        assert(states[i].has_room(inputs[i]));
        law_add_call(contract, env, states[i], inputs[i], states[i + 1], answers[i]);
    }
    law_get_call(contract, env, states.last(), seen, answer);
}

/// Calls `Add`, where its argument can be added and counted, the values of the state are
/// stored apart and the messages are told apart. Nothing is changed otherwise.
pub fn try_add(instance: &mut ContractInstance<'_, State, Example>, input: u32) -> (added: bool)
    ensures
        *final(instance).env == *old(instance).env,
        *final(instance).contract == *old(instance).contract,
        added == (apart() && distinct() && old(instance).state.has_room(input)),
        added ==> {
            &&& final(instance).state.sum() == Some(
                (old(instance).state.sum().unwrap() + input) as u32,
            )
            &&& final(instance).state.calls() == Some(
                (old(instance).state.calls().unwrap() + 1) as usize,
            )
        },
        !added ==> final(instance).state == old(instance).state,
{
    if stored_apart() && told_apart() && instance.state.room_for(input) {
        let ghost contract = *instance.contract;
        let ghost env = *instance.env;
        let ghost before = instance.state;
        proof {
            law_add_call(contract, env, before, input, before, Either::Left(0u32));
            assert forall|after: State, answer: Either<u32, Either<(), Void>>| #[trigger]
                contract.replies(
                    env,
                    before,
                    request_for::<Add>(input),
                    after,
                    answer,
                ) implies output_of::<Add>(answer.held()) is Some by {
                law_add_call(contract, env, before, input, after, answer);
            }
        }
        instance.call::<Add>(input);
        proof {
            let answer = choose|answer: Either<u32, Either<(), Void>>| #[trigger]
                contract.replies(
                    env,
                    before,
                    request_for::<Add>(input),
                    instance.state,
                    answer,
                );
            law_add_call(contract, env, before, input, instance.state, answer);
        }
        true
    } else {
        false
    }
}

/// Calls `Get`.
pub fn sum_now(instance: &mut ContractInstance<'_, State, Example>) -> (sum: u32)
    ensures
        *final(instance).env == *old(instance).env,
        *final(instance).contract == *old(instance).contract,
        final(instance).state == old(instance).state,
        old(instance).state.sum() == Some(sum),
{
    let ghost contract = *instance.contract;
    let ghost env = *instance.env;
    let ghost before = instance.state;
    proof {
        law_get_call(contract, env, before, before, Either::Left(0u32));
        law_sum(before.storage@);
        assert forall|after: State, answer: Either<u32, Either<(), Void>>| #[trigger]
            contract.replies(
                env,
                before,
                request_for::<Get>(()),
                after,
                answer,
            ) implies output_of::<Get>(answer.held()) is Some by {
            law_get_call(contract, env, before, after, answer);
        }
    }
    let sum: u32 = instance.call::<Get>(());
    proof {
        let answer = choose|answer: Either<u32, Either<(), Void>>| #[trigger]
            contract.replies(
                env,
                before,
                request_for::<Get>(()),
                instance.state,
                answer,
            ) && output_of::<Get>(answer.held()) == Some(sum);
        law_get_call(contract, env, before, instance.state, answer);
    }
    sum
}

/// The first of some arguments have no larger sum than all of them.
proof fn lemma_sum_grows(inputs: Seq<u32>, n: int)
    requires
        0 <= n <= inputs.len(),
    ensures
        sum_of(inputs.take(n)) <= sum_of(inputs),
    decreases inputs.len(),
{
    if n < inputs.len() {
        lemma_sum_grows(inputs.drop_last(), n);
        assert(inputs.drop_last().take(n) =~= inputs.take(n));
    } else {
        assert(inputs.take(n) =~= inputs);
    }
}

/// Deploys the contract, calls `Add` with each of `inputs` and then `Get`: one and all that
/// was added. `None` where that does not fit, the values of the state are not stored apart
/// or the messages not told apart.
pub fn sum_after(inputs: &Vec<u32>) -> (sum: Option<u32>)
    ensures
        sum == (if apart() && distinct() && 1 + sum_of(inputs@) <= u32::MAX {
            Some((1 + sum_of(inputs@)) as u32)
        } else {
            None
        }),
{
    if !stored_apart() || !told_apart() {
        return None;
    }
    let env = EthEnv::new();
    let definition = contract();
    let mut instance = definition.deploy(&env, TxInfo::new());
    proof {
        let (blank, txinfo) = choose|blank: State, txinfo: TxInfo| #[trigger]
            definition.constructs(blank, txinfo, instance.state);
        law_set_up(blank, txinfo, instance.state);
        assert(inputs@.take(0) =~= Seq::empty());
    }
    let mut i: usize = 0;
    while i < inputs.len()
        invariant
            apart(),
            distinct(),
            i <= inputs@.len(),
            instance.state.sum() == Some((1 + sum_of(inputs@.take(i as int))) as u32),
            1 + sum_of(inputs@.take(i as int)) <= u32::MAX,
            instance.state.calls() == Some(i),
        decreases inputs@.len() - i,
    {
        proof {
            let next = inputs@.take(i + 1);
            assert(next.drop_last() =~= inputs@.take(i as int));
            assert(next.last() == inputs@[i as int]);
            lemma_sum_grows(inputs@, i + 1);
        }
        if !try_add(&mut instance, inputs[i]) {
            return None;
        }
        i = i + 1;
    }
    assert(inputs@.take(i as int) =~= inputs@);
    Some(sum_now(&mut instance))
}

/// The sum is the value called `current`, the number of additions the one called
/// `calls_to_add`.
pub proof fn law_fields(state: State)
    ensures
        current_key() == key_of("current"@),
        calls_key() == key_of("calls_to_add"@),
        state.sum() == value_at::<u32>(state.storage@, key_of("current"@)),
        state.calls() == value_at::<usize>(state.storage@, key_of("calls_to_add"@)),
{
}

/// There is room for an argument where neither the sum nor the number of additions gets too
/// large by it.
pub proof fn law_has_room(state: State, input: u32, sum: u32, calls: usize)
    requires
        state.sum() == Some(sum),
        state.calls() == Some(calls),
    ensures
        state.has_room(input) <==> sum + input <= u32::MAX && calls + 1 <= usize::MAX,
{
}

/// The sum of arguments is all of them, added up.
pub proof fn law_sum_of(inputs: Seq<u32>)
    ensures
        sum_of(inputs) == inputs.fold_left(0int, |sum: int, input: u32| sum + input),
    decreases inputs.len(),
{
    if inputs.len() > 0 {
        law_sum_of(inputs.drop_last());
    }
}

/// The keys are apart, and the messages distinct, just where the hashes differ.
pub proof fn law_apart()
    ensures
        apart() <==> key_of("current"@) != key_of("calls_to_add"@),
        distinct() <==> selector_of::<Add>() != selector_of::<Get>(),
{
}

/// What the constructor stores: one as the sum and then zero as the number of additions, and
/// nothing else. It can always be called.
pub proof fn law_set_up_store(before: State, txinfo: TxInfo, after: State)
    ensures
        Setup.accepts(before, txinfo),
        Setup.sets_up(before, txinfo, after) <==> after.storage@ == stored(
            stored(before.storage@, key_of("current"@), u32::encoding(1)),
            key_of("calls_to_add"@),
            usize::encoding(0),
        ),
{
}

/// What `Add` stores: the number of additions and then the sum, and nothing else.
pub proof fn law_add_store(env: EthEnv, before: State, input: u32, after: State)
    requires
        apart(),
        before.has_room(input),
        AddHandler.answers(env, before, input, after, ()),
    ensures
        after.storage@ == stored(
            stored(
                before.storage@,
                key_of("calls_to_add"@),
                usize::encoding((before.calls().unwrap() + 1) as usize),
            ),
            key_of("current"@),
            u32::encoding((before.sum().unwrap() + input) as u32),
        ),
{
    lemma_with_calls(before.storage@, (before.calls().unwrap() + 1) as usize);
}

/// `Get` can be called in every state, and returns the sum.
pub proof fn law_get(env: EthEnv, state: State, output: u32)
    ensures
        GetHandler.accepts(env, state, ()),
        GetHandler.answers(env, state, (), output) <==> state.sum() == Some(output),
{
    law_sum(state.storage@);
}

} // verus!
