//! What holds of every contract: which handler answers, with what, and what is refused.

use vstd::prelude::*;

use crate::contract::{Constructor, Contract, ContractDef, Refusal, TxInfo};
use crate::env::EthEnv;
use crate::handlers::{
    input_in, law_position, Handler, HandlerMut, Handlers, OnMsg, OnMsgMut,
};
use crate::message::{request_for, selector_of, Message, RequestView};
use crate::response::{law_held_value, output_of, Either, Response};
use crate::source::ByteSource;
use crate::wire::Wire;

verus! {

/// The arguments in a request for a message are those that it was made with.
pub proof fn law_request_input<M: Message>(input: M::Input)
    ensures
        input_in::<M>(request_for::<M>(input.model()).value) == Some(input.model()),
{
    let bytes = M::Input::encoding(input.model());
    let source = ByteSource::of_seq(bytes);
    assert(source.take(bytes.len()) =~= bytes);
    M::Input::law_parse_back(input, source);
}

/// A call with the message of the newest handler is never refused, can be made just where
/// that handler can be called with the same arguments, and returns what that handler
/// returns. The state is as before.
pub proof fn law_newest_answers<C, M, H, Rest>(
    contract: Contract<C, (OnMsg<M, H>, Rest)>,
    env: EthEnv,
    before: C::State,
    input: M::Input,
    after: C::State,
    answer: Either<M::Output, Rest::Output>,
) where
    C: Constructor,
    C::State: Default,
    M: Message,
    H: Handler<M, C::State>,
    Rest: Handlers<C::State>,

    ensures
        contract.refusal(request_for::<M>(input.model())) is None,
        contract.ready(env, before, request_for::<M>(input.model()))
            == contract.entries().0.handler.accepts(env, before, input.model()),
        contract.replies(env, before, request_for::<M>(input.model()), after, answer) == (answer
            matches Either::Left(output) && contract.entries().0.handler.answers(
            env,
            before,
            input.model(),
            output.model(),
        ) && after == before),
        answer matches Either::Left(output) ==> output_of::<M>(answer.held()) == Some(
            output.model(),
        ),
{
    law_request_input::<M>(input);
    if let Either::Left(output) = answer {
        law_held_value::<M::Output>(output);
    }
}

/// A call with the message of the newest handler is never refused, can be made just where
/// that handler can be called with the same arguments, returns what that handler returns
/// and makes of the state what that handler makes of it.
pub proof fn law_newest_mut_answers<C, M, H, Rest>(
    contract: Contract<C, (OnMsgMut<M, H>, Rest)>,
    env: EthEnv,
    before: C::State,
    input: M::Input,
    after: C::State,
    answer: Either<M::Output, Rest::Output>,
) where
    C: Constructor,
    C::State: Default,
    M: Message,
    H: HandlerMut<M, C::State>,
    Rest: Handlers<C::State>,

    ensures
        contract.refusal(request_for::<M>(input.model())) is None,
        contract.ready(env, before, request_for::<M>(input.model()))
            == contract.entries().0.handler.accepts(env, before, input.model()),
        contract.replies(env, before, request_for::<M>(input.model()), after, answer) == (answer
            matches Either::Left(output) && contract.entries().0.handler.answers(
            env,
            before,
            input.model(),
            after,
            output.model(),
        )),
        answer matches Either::Left(output) ==> output_of::<M>(answer.held()) == Some(
            output.model(),
        ),
{
    law_request_input::<M>(input);
    if let Either::Left(output) = answer {
        law_held_value::<M::Output>(output);
    }
}

/// A handler that looks at the state is passed over by requests for other messages: they
/// go as they would without it.
pub proof fn law_older_answer<C, M, H, Rest>(
    contract: Contract<C, (OnMsg<M, H>, Rest)>,
    older: Contract<C, Rest>,
    env: EthEnv,
    before: C::State,
    request: RequestView,
    after: C::State,
    answer: Either<M::Output, Rest::Output>,
) where
    C: Constructor,
    C::State: Default,
    M: Message,
    H: Handler<M, C::State>,
    Rest: Handlers<C::State>,

    requires
        older.entries() == contract.entries().1,
        request.selector != selector_of::<M>(),
    ensures
        contract.refusal(request) == older.refusal(request),
        contract.ready(env, before, request) == older.ready(env, before, request),
        contract.replies(env, before, request, after, answer) == (answer matches Either::Right(
            output,
        ) && older.replies(env, before, request, after, output)),
        answer matches Either::Right(output) ==> answer.held() == output.held(),
{
    let selectors = <(OnMsg<M, H>, Rest) as Handlers<C::State>>::selectors();
    assert(selectors.drop_first() =~= Rest::selectors());
}

/// A handler that may change the state is passed over by requests for other messages: they
/// go as they would without it.
pub proof fn law_older_mut_answer<C, M, H, Rest>(
    contract: Contract<C, (OnMsgMut<M, H>, Rest)>,
    older: Contract<C, Rest>,
    env: EthEnv,
    before: C::State,
    request: RequestView,
    after: C::State,
    answer: Either<M::Output, Rest::Output>,
) where
    C: Constructor,
    C::State: Default,
    M: Message,
    H: HandlerMut<M, C::State>,
    Rest: Handlers<C::State>,

    requires
        older.entries() == contract.entries().1,
        request.selector != selector_of::<M>(),
    ensures
        contract.refusal(request) == older.refusal(request),
        contract.ready(env, before, request) == older.ready(env, before, request),
        contract.replies(env, before, request, after, answer) == (answer matches Either::Right(
            output,
        ) && older.replies(env, before, request, after, output)),
        answer matches Either::Right(output) ==> answer.held() == output.held(),
{
    let selectors = <(OnMsgMut<M, H>, Rest) as Handlers<C::State>>::selectors();
    assert(selectors.drop_first() =~= Rest::selectors());
}

/// A request is refused for want of a method just where no handler's message has its
/// selector.
pub proof fn law_no_method<C: Constructor, H: Handlers<C::State>>(
    contract: Contract<C, H>,
    request: RequestView,
) where C::State: Default
    ensures
        contract.refusal(request) == Some(Refusal::NoMethod) <==> !H::selectors().contains(
            request.selector,
        ),
{
    law_position(H::selectors(), request.selector);
}

/// A contract without handlers refuses every request.
pub proof fn law_no_handlers<C: Constructor>(contract: Contract<C, ()>, request: RequestView)
    where C::State: Default
    ensures
        contract.refusal(request) == Some(Refusal::NoMethod),
{
}

/// Handlers have no part in how a contract is set up.
pub proof fn law_constructor<C: Constructor, H: Handlers<C::State>, I: Handlers<C::State>>(
    contract: Contract<C, H>,
    other: Contract<C, I>,
    before: C::State,
    txdata: TxInfo,
    after: C::State,
) where C::State: Default
    requires
        contract.start() == other.start(),
    ensures
        contract.constructible(before, txdata) == other.constructible(before, txdata),
        contract.constructs(before, txdata, after) == other.constructs(before, txdata, after),
{
}

/// A request can be answered only where it is not refused.
pub proof fn law_ready<C: Constructor, H: Handlers<C::State>>(
    contract: Contract<C, H>,
    env: EthEnv,
    state: C::State,
    request: RequestView,
) where C::State: Default
    requires
        contract.ready(env, state, request),
    ensures
        contract.refusal(request) is None,
{
}

/// A request with the selector of the newest handler's message is refused only where its
/// value holds no arguments for it, and is answered by that handler with the arguments that
/// the value holds.
pub proof fn law_newest_request<C, M, H, Rest>(
    contract: Contract<C, (OnMsg<M, H>, Rest)>,
    env: EthEnv,
    before: C::State,
    request: RequestView,
    after: C::State,
    answer: Either<M::Output, Rest::Output>,
) where
    C: Constructor,
    C::State: Default,
    M: Message,
    H: Handler<M, C::State>,
    Rest: Handlers<C::State>,

    requires
        request.selector == selector_of::<M>(),
    ensures
        input_in::<M>(request.value) is None ==> contract.refusal(request) == Some(
            Refusal::NoArguments,
        ) && !contract.ready(env, before, request) && !contract.replies(
            env,
            before,
            request,
            after,
            answer,
        ),
        input_in::<M>(request.value) matches Some(input) ==> {
            &&& contract.refusal(request) is None
            &&& contract.ready(env, before, request) == contract.entries().0.handler.accepts(
                env,
                before,
                input,
            )
            &&& contract.replies(env, before, request, after, answer) <==> answer is Left
                && contract.entries().0.handler.answers(
                env,
                before,
                input,
                answer->Left_0.model(),
            ) && after == before
        },
{
}

/// A request with the selector of the newest handler's message is refused only where its
/// value holds no arguments for it, and is answered by that handler with the arguments that
/// the value holds.
pub proof fn law_newest_mut_request<C, M, H, Rest>(
    contract: Contract<C, (OnMsgMut<M, H>, Rest)>,
    env: EthEnv,
    before: C::State,
    request: RequestView,
    after: C::State,
    answer: Either<M::Output, Rest::Output>,
) where
    C: Constructor,
    C::State: Default,
    M: Message,
    H: HandlerMut<M, C::State>,
    Rest: Handlers<C::State>,

    requires
        request.selector == selector_of::<M>(),
    ensures
        input_in::<M>(request.value) is None ==> contract.refusal(request) == Some(
            Refusal::NoArguments,
        ) && !contract.ready(env, before, request) && !contract.replies(
            env,
            before,
            request,
            after,
            answer,
        ),
        input_in::<M>(request.value) matches Some(input) ==> {
            &&& contract.refusal(request) is None
            &&& contract.ready(env, before, request) == contract.entries().0.handler.accepts(
                env,
                before,
                input,
            )
            &&& contract.replies(env, before, request, after, answer) <==> answer is Left
                && contract.entries().0.handler.answers(
                env,
                before,
                input,
                after,
                answer->Left_0.model(),
            )
        },
{
}

/// Every request can be answered that is not refused just where the newest handler can be
/// called with all arguments and that holds of the contract without it.
pub proof fn law_total<C, M, H, Rest>(
    contract: Contract<C, (OnMsg<M, H>, Rest)>,
    older: Contract<C, Rest>,
    env: EthEnv,
    state: C::State,
) where
    C: Constructor,
    C::State: Default,
    M: Message,
    H: Handler<M, C::State>,
    Rest: Handlers<C::State>,

    requires
        older.entries() == contract.entries().1,
    ensures
        contract.total(env, state) <==> older.total(env, state) && forall|
            input: <M::Input as Wire>::Model,
        | #[trigger] contract.entries().0.handler.accepts(env, state, input),
{
}

/// Every request can be answered that is not refused just where the newest handler can be
/// called with all arguments and that holds of the contract without it.
pub proof fn law_total_mut<C, M, H, Rest>(
    contract: Contract<C, (OnMsgMut<M, H>, Rest)>,
    older: Contract<C, Rest>,
    env: EthEnv,
    state: C::State,
) where
    C: Constructor,
    C::State: Default,
    M: Message,
    H: HandlerMut<M, C::State>,
    Rest: Handlers<C::State>,

    requires
        older.entries() == contract.entries().1,
    ensures
        contract.total(env, state) <==> older.total(env, state) && forall|
            input: <M::Input as Wire>::Model,
        | #[trigger] contract.entries().0.handler.accepts(env, state, input),
{
}

/// A contract is set up by its constructor.
pub proof fn law_constructs<C: Constructor, H: Handlers<C::State>>(
    contract: Contract<C, H>,
    before: C::State,
    txdata: TxInfo,
    after: C::State,
) where C::State: Default
    ensures
        contract.constructible(before, txdata) == contract.start().accepts(before, txdata),
        contract.constructs(before, txdata, after) == contract.start().sets_up(
            before,
            txdata,
            after,
        ),
{
}

} // verus!
