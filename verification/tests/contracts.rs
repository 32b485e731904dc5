use pwasm_contract::contract::{Constructor, Contract, ContractDef, Refusal, TxInfo};
use pwasm_contract::env::{deploy_data, EthEnv, U256};
use pwasm_contract::example;
use pwasm_contract::getter::Getter;
use pwasm_contract::handlers::{Handler, HandlerMut, Handlers, NoMethodError, OnMsg};
use pwasm_contract::marker::{BorrowMarker, Immut, Mut};
use pwasm_contract::message::{Message, MessageExt, Request};
use pwasm_contract::response::{Either, Response};
use pwasm_contract::shim::Storage;

struct Add;

impl Message for Add {
    type Input = u32;
    type Output = ();
    const NAME: &'static str = "Add";
}

struct Get;

impl Message for Get {
    type Input = ();
    type Output = u32;
    const NAME: &'static str = "Get";
}

struct AssertVec;

impl Message for AssertVec {
    type Input = ();
    type Output = ();
    const NAME: &'static str = "AssertVec";
}

struct Unused;

impl Message for Unused {
    type Input = ();
    type Output = ();
    const NAME: &'static str = "Unused";
}

/// The message `Get`, with an output of another type.
struct GetWide;

impl Message for GetWide {
    type Input = ();
    type Output = u64;
    const NAME: &'static str = "Get";
}

/// The message `Add`, with an output of another type.
struct AddNamed;

impl Message for AddNamed {
    type Input = u32;
    type Output = u32;
    const NAME: &'static str = "Add";
}

struct State {
    storage: Storage,
}

impl Default for State {
    fn default() -> Self {
        State { storage: Storage::new() }
    }
}

impl State {
    fn current<M: BorrowMarker>(&self) -> Getter<M, u32> {
        Getter::new("current")
    }

    fn calls_to_add<M: BorrowMarker>(&self) -> Getter<M, usize> {
        Getter::new("calls_to_add")
    }

    fn vec<M: BorrowMarker>(&self) -> Getter<M, Vec<usize>> {
        Getter::new("vec")
    }
}

struct Start(fn(&mut State, TxInfo));

impl Constructor for Start {
    type State = State;

    fn call(&self, state: &mut State, txinfo: TxInfo) {
        (self.0)(state, txinfo)
    }
}

struct Look<M: Message>(fn(&EthEnv, &State, M::Input) -> M::Output);

impl<M: Message> Handler<M, State> for Look<M> {
    fn call(&self, env: &EthEnv, state: &State, input: M::Input) -> M::Output {
        (self.0)(env, state, input)
    }
}

struct Change<M: Message>(fn(&EthEnv, &mut State, M::Input) -> M::Output);

impl<M: Message> HandlerMut<M, State> for Change<M> {
    fn call(&self, env: &EthEnv, state: &mut State, input: M::Input) -> M::Output {
        (self.0)(env, state, input)
    }
}

fn start(state: &mut State, _txdata: TxInfo) {
    let mut current = state.current::<Mut>();
    current.set(1);
    current.drop(&mut state.storage);
    let mut calls_to_add = state.calls_to_add::<Mut>();
    calls_to_add.set(0);
    calls_to_add.drop(&mut state.storage);
    let mut vec = state.vec::<Mut>();
    vec.set((0..1024usize).collect::<Vec<_>>());
    vec.drop(&mut state.storage);
}

fn add(_env: &EthEnv, state: &mut State, to_add: u32) {
    let mut calls_to_add = state.calls_to_add::<Mut>();
    *calls_to_add.deref_mut(&state.storage) += 1;
    calls_to_add.drop(&mut state.storage);
    let mut current = state.current::<Mut>();
    *current.deref_mut(&state.storage) += to_add;
    current.drop(&mut state.storage);
}

fn get(_env: &EthEnv, state: &State, _input: ()) -> u32 {
    *state.current::<Immut>().deref(&state.storage)
}

fn assert_vec(_env: &EthEnv, state: &State, _input: ()) {
    assert_eq!(
        *state.vec::<Immut>().deref(&state.storage),
        (0..1024usize).collect::<Vec<_>>()
    );
}

#[test]
fn contract() {
    let env = EthEnv::new();

    let definition = Contract::new()
        .constructor(Start(start))
        .on_msg_mut::<Add, _>(Change::<Add>(add))
        .on_msg::<Get, _>(Look::<Get>(get))
        .on_msg::<AssertVec, _>(Look::<AssertVec>(assert_vec));

    let mut contract = definition.deploy(&env, TxInfo::new());

    let _: () = contract.call::<Add>(1);
    let val: u32 = contract.call::<Get>(());
    let _: () = contract.call::<AssertVec>(());

    assert_eq!(val, 2);
    assert_eq!(*contract.state.current::<Immut>().deref(&contract.state.storage), 2);
    assert_eq!(*contract.state.calls_to_add::<Immut>().deref(&contract.state.storage), 1);
}

#[test]
fn unknown_messages_are_refused() {
    let env = EthEnv::new();
    let definition =
        Contract::new().constructor(Start(start)).on_msg_mut::<Add, _>(Change::<Add>(add));
    let mut contract = definition.deploy(&env, TxInfo::new());
    assert!(matches!(contract.try_call::<Unused>(()), Err(Refusal::NoMethod)));
    assert!(matches!(contract.try_call::<Get>(()), Err(Refusal::NoMethod)));
    assert!(matches!(contract.try_call::<Add>(4), Ok(Some(()))));
    assert_eq!(*contract.state.current::<Immut>().deref(&contract.state.storage), 5);
}

#[test]
fn requests_without_arguments_are_refused() {
    let definition =
        Contract::new().constructor(Start(start)).on_msg_mut::<Add, _>(Change::<Add>(add));
    let short = Request { function_selector: Add::selector(), value: vec![1, 0, 0] };
    assert_eq!(definition.check(&short), Some(Refusal::NoArguments));
    let long = Request { function_selector: Add::selector(), value: vec![1, 0, 0, 0, 9] };
    assert_eq!(definition.check(&long), None);
    let other = Request { function_selector: Get::selector(), value: vec![] };
    assert_eq!(definition.check(&other), Some(Refusal::NoMethod));
}

#[test]
fn handlers_answer_or_report_that_there_is_no_method() {
    let env = EthEnv::new();
    let mut state = State::default();
    let answer = ().handle(&env, &mut state, Request::new::<Add>(1));
    assert!(matches!(answer, Err(NoMethodError)));

    let entry = OnMsg { message: std::marker::PhantomData::<Get>, handler: Look::<Get>(get) };
    let entries = (entry, ());
    let answer = entries.handle(&env, &mut state, Request::new::<Add>(1));
    assert!(matches!(answer, Err(NoMethodError)));
    let answer = entries.handle(&env, &mut state, Request::new::<Get>(()));
    assert!(matches!(answer, Ok(Either::Left(0))));
}

#[test]
fn handlers_go_by_the_selectors_given() {
    let env = EthEnv::new();
    let mut state = State::default();
    let one = OnMsg { message: std::marker::PhantomData::<Get>, handler: Look::<Get>(|_, _, _| 1) };
    let two = OnMsg { message: std::marker::PhantomData::<Get>, handler: Look::<Get>(|_, _, _| 2) };
    let entries = (one, (two, ()));
    let selectors = vec![[1, 1, 1, 1], [2, 2, 2, 2]];
    let request = Request::addressed([2, 2, 2, 2], ());
    let answer = entries.handle_by(&selectors, &env, &mut state, request);
    assert!(matches!(answer, Ok(Either::Right(Either::Left(2)))));
    let request = Request::addressed([1, 1, 1, 1], ());
    let answer = entries.handle_by(&selectors, &env, &mut state, request);
    assert!(matches!(answer, Ok(Either::Left(1))));
    let request = Request::addressed([3, 3, 3, 3], ());
    let answer = entries.handle_by(&selectors, &env, &mut state, request);
    assert!(matches!(answer, Err(NoMethodError)));
}

#[test]
fn the_newest_handler_answers() {
    let env = EthEnv::new();
    let mut state = State::default();
    let definition = Contract::new()
        .constructor(Start(start))
        .on_msg::<Get, _>(Look::<Get>(|_, _, _| 1))
        .on_msg::<Get, _>(Look::<Get>(|_, _, _| 2));
    assert_eq!(definition.call::<Get>(&env, &mut state, ()), Some(2));
}

#[test]
fn an_answer_of_another_type_is_none() {
    let env = EthEnv::new();
    let mut state = State::default();
    let definition = Contract::new()
        .constructor(Start(start))
        .on_msg_mut::<Add, _>(Change::<Add>(add))
        .on_msg::<Get, _>(Look::<Get>(get));
    assert_eq!(definition.call::<GetWide>(&env, &mut state, ()), None);
    assert_eq!(definition.call::<AddNamed>(&env, &mut state, 3), None);
    assert_eq!(definition.call::<Get>(&env, &mut state, ()), Some(3));
}

#[test]
fn requests_reach_their_handlers() {
    let env = EthEnv::new();
    let mut state = State::default();
    let definition = Contract::new()
        .constructor(Start(start))
        .on_msg_mut::<Add, _>(Change::<Add>(add))
        .on_msg::<Get, _>(Look::<Get>(get));
    definition.construct(&mut state, TxInfo::new());
    let answer = definition.send_request(&env, &mut state, Request::new::<Add>(6));
    assert_eq!(answer.output_for::<Add>(), Some(()));
    let answer = definition.send_request(&env, &mut state, Request::new::<Get>(()));
    assert_eq!(answer.output_for::<Get>(), Some(7));
}

#[test]
fn example_adds_up() {
    let env = EthEnv::new();
    let definition = example::contract();
    let mut contract = definition.deploy(&env, TxInfo::new());
    assert_eq!(contract.call::<example::Get>(()), 1);
    contract.call::<example::Add>(1);
    contract.call::<example::Add>(40);
    assert_eq!(contract.call::<example::Get>(()), 42);
    let calls = *contract.state.calls_to_add::<Immut>().deref(&contract.state.storage);
    assert_eq!(calls, 2);
}

#[test]
fn the_deployer_is_account_zero() {
    assert_eq!(deploy_data().deployer, U256([0, 0, 0, 0]));
    assert_eq!(U256::from_word(5), U256([5, 0, 0, 0]));
}

#[test]
fn contracts_are_found_everywhere() {
    let env = EthEnv::new();
    assert!(env.contract_at(U256::from_word(5)).is_ok());
    assert!(env.current_contract().is_ok());
}

#[test]
fn deploying_again_sets_the_state_up_again() {
    let env = EthEnv::new();
    let definition = example::contract();
    let mut first = definition.deploy(&env, TxInfo::new());
    first.call::<example::Add>(8);
    let mut left = first.state;
    let mut extra: Getter<Mut, u64> = Getter::new("extra");
    extra.set(77);
    extra.drop(&mut left.storage);
    let mut second = definition.deploy_on(&env, left, TxInfo::new());
    assert_eq!(second.call::<example::Get>(()), 1);
    assert_eq!(*second.state.calls_to_add::<Immut>().deref(&second.state.storage), 0);
    let mut extra: Getter<Immut, u64> = Getter::new("extra");
    assert_eq!(*extra.deref(&second.state.storage), 77);
}

#[test]
fn example_adds_only_what_fits() {
    let env = EthEnv::new();
    let definition = example::contract();
    let mut contract = definition.deploy(&env, TxInfo::new());
    assert!(example::stored_apart());
    assert!(example::told_apart());
    assert!(contract.state.room_for(u32::MAX - 1));
    assert!(!contract.state.room_for(u32::MAX));
    assert!(!example::try_add(&mut contract, u32::MAX));
    assert_eq!(example::sum_now(&mut contract), 1);
    assert!(example::try_add(&mut contract, 4));
    assert!(example::try_add(&mut contract, u32::MAX - 5));
    assert_eq!(example::sum_now(&mut contract), u32::MAX);
    assert_eq!(example::sum_now(&mut contract), u32::MAX);
    assert!(!example::try_add(&mut contract, 1));
    assert!(example::try_add(&mut contract, 0));
    assert_eq!(*contract.state.calls_to_add::<Immut>().deref(&contract.state.storage), 3);
}

#[test]
fn example_counts_no_further_than_it_can() {
    let env = EthEnv::new();
    let definition = example::contract();
    let mut contract = definition.deploy(&env, TxInfo::new());
    let mut calls = contract.state.calls_to_add::<Mut>();
    calls.set(usize::MAX);
    calls.drop(&mut contract.state.storage);
    assert!(!example::try_add(&mut contract, 1));
    assert_eq!(example::sum_now(&mut contract), 1);
}

#[test]
fn example_signatures() {
    assert_eq!(example::Add::signature().concat(), "Add(uint32)");
    assert_eq!(example::Get::signature().concat(), "Get()");
}

#[test]
fn example_sums() {
    assert_eq!(example::sum_after(&vec![]), Some(1));
    assert_eq!(example::sum_after(&vec![1, 2, 3]), Some(7));
    assert_eq!(example::sum_after(&vec![u32::MAX - 1]), Some(u32::MAX));
    assert_eq!(example::sum_after(&vec![5, u32::MAX - 5]), None);
}
