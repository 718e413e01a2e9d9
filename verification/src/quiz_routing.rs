//! Authority resolution and forwarding: a write entering a peer context is
//! wrapped into a one-way message to the authority; on the authority it is
//! applied directly. The caller dispatches the returned message.

use vstd::prelude::*;

use crate::quiz_abi::Message;
use crate::quiz_abi::Operation;
use crate::ChainId;

verus! {

/// Whether the current context is the authority for the quiz ledger.
pub fn is_main_chain(current_chain_id: ChainId, main_chain_id: ChainId) -> (r: bool)
    ensures
        r == (current_chain_id == main_chain_id),
{
    current_chain_id == main_chain_id
}

/// The message that forwards `op` from the context `from` to the authority.
pub open spec fn wrapped_message(op: Operation, from: ChainId) -> Message {
    match op {
        Operation::SetNickname(params) => Message::SetNickname { from_chain_id: from, params },
        Operation::CreateQuiz(params) => Message::CreateQuiz { from_chain_id: from, params },
        Operation::SubmitAnswers(params) => Message::SubmitAnswers { from_chain_id: from, params },
        Operation::StartQuiz(quiz_id) => Message::StartQuiz { from_chain_id: from, quiz_id },
        Operation::RegisterForQuiz(quiz_id) => Message::RegisterForQuiz {
            from_chain_id: from,
            quiz_id,
        },
    }
}

/// Wrap an operation for the authority. The forwarding context performs no
/// validation and does not wait for the authority's outcome.
pub fn forward_to_main_chain(operation: Operation, current_chain_id: ChainId) -> (m: Message)
    ensures
        m == wrapped_message(operation, current_chain_id),
{
    match operation {
        Operation::SetNickname(params) => Message::SetNickname {
            from_chain_id: current_chain_id,
            params,
        },
        Operation::CreateQuiz(params) => Message::CreateQuiz {
            from_chain_id: current_chain_id,
            params,
        },
        Operation::SubmitAnswers(params) => Message::SubmitAnswers {
            from_chain_id: current_chain_id,
            params,
        },
        Operation::StartQuiz(quiz_id) => Message::StartQuiz {
            from_chain_id: current_chain_id,
            quiz_id,
        },
        Operation::RegisterForQuiz(quiz_id) => Message::RegisterForQuiz {
            from_chain_id: current_chain_id,
            quiz_id,
        },
    }
}

/// What a context does with an incoming write.
pub enum RouteAction {
    /// This context is the authority: apply the operation here.
    ApplyLocally(Operation),
    /// Forward the operation to the named context, as the given message.
    Forward(ChainId, Message),
}

/// Route a write: the authority applies it, a peer forwards it to the
/// authority and reports success at once.
pub fn route(operation: Operation, current_chain_id: ChainId, main_chain_id: ChainId) -> (action:
    RouteAction)
    ensures
        current_chain_id == main_chain_id ==> action == RouteAction::ApplyLocally(operation),
        current_chain_id != main_chain_id ==> action == RouteAction::Forward(
            main_chain_id,
            wrapped_message(operation, current_chain_id),
        ),
{
    if is_main_chain(current_chain_id, main_chain_id) {
        RouteAction::ApplyLocally(operation)
    } else {
        RouteAction::Forward(main_chain_id, forward_to_main_chain(operation, current_chain_id))
    }
}

} // verus!
