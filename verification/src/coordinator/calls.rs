//! The calls to the app-server that actions stand for.

use crate::codex::list_threads_call;
use crate::codex::start_thread_call;
use crate::codex::CallModel;
use crate::codex::ClientCall;
use crate::codex::MAX_LISTED_THREADS;
use super::model::Action;
use super::model::ActionModel;
use crate::protocol::InputModel;
use vstd::prelude::*;

verus! {

/// The call that an action stands for, where it is one to the app-server. A message
/// carries its identity, by which it is found again in the thread.
pub open spec fn call_of(action: ActionModel) -> Option<CallModel> {
    match action {
        ActionModel::StartThread => Some(CallModel::ThreadStart { ephemeral: false }),
        ActionModel::ResumeThread { thread_id } => Some(CallModel::ThreadResume { thread_id }),
        ActionModel::ListThreads => Some(CallModel::ThreadList { limit: MAX_LISTED_THREADS }),
        ActionModel::StartTurn { thread_id, message_id, inputs } => Some(
            CallModel::TurnStart { thread_id, client_user_message_id: message_id, input: inputs },
        ),
        ActionModel::SteerTurn { thread_id, turn_id, message_id, inputs } => Some(
            CallModel::TurnSteer {
                thread_id,
                client_user_message_id: message_id,
                input: inputs,
                expected_turn_id: turn_id,
            },
        ),
        ActionModel::InterruptTurn { thread_id, turn_id } => Some(
            CallModel::TurnInterrupt { thread_id, turn_id },
        ),
        _ => None,
    }
}

impl Action {
    /// The call that the action stands for, where it is one to the app-server.
    pub fn into_call(self) -> (call: Option<ClientCall>)
        ensures
            match call {
                Some(call) => call_of(self@) == Some(call@),
                None => call_of(self@) is None,
            },
    {
        match self {
            Action::StartThread => Some(start_thread_call()),
            Action::ResumeThread { thread_id } => Some(ClientCall::ThreadResume { thread_id }),
            Action::ListThreads => Some(list_threads_call()),
            Action::StartTurn { thread_id, message_id, inputs } => Some(
                ClientCall::TurnStart {
                    thread_id,
                    client_user_message_id: message_id,
                    input: inputs,
                },
            ),
            Action::SteerTurn { thread_id, turn_id, message_id, inputs } => Some(
                ClientCall::TurnSteer {
                    thread_id,
                    client_user_message_id: message_id,
                    input: inputs,
                    expected_turn_id: turn_id,
                },
            ),
            Action::InterruptTurn { thread_id, turn_id } => Some(
                ClientCall::TurnInterrupt { thread_id, turn_id },
            ),
            _ => None,
        }
    }
}

/// What the app-server is called with is what the action carries: the message with its own
/// identity and input, for its own thread and turn. A thread that is started is kept.
pub proof fn calls_carry_their_action(
    thread_id: Seq<char>,
    turn_id: Seq<char>,
    message_id: Seq<char>,
    inputs: Seq<InputModel>,
)
    ensures
        call_of(ActionModel::StartTurn { thread_id, message_id, inputs }) matches Some(
            CallModel::TurnStart { thread_id: thread, client_user_message_id, input },
        ) && thread == thread_id && client_user_message_id == message_id && input == inputs,
        call_of(ActionModel::SteerTurn { thread_id, turn_id, message_id, inputs }) matches Some(
            CallModel::TurnSteer {
                thread_id: thread,
                client_user_message_id,
                input,
                expected_turn_id,
            },
        ) && thread == thread_id && client_user_message_id == message_id && input == inputs
            && expected_turn_id == turn_id,
        call_of(ActionModel::InterruptTurn { thread_id, turn_id }) matches Some(
            CallModel::TurnInterrupt { thread_id: thread, turn_id: turn },
        ) && thread == thread_id && turn == turn_id,
        call_of(ActionModel::ResumeThread { thread_id }) matches Some(
            CallModel::ThreadResume { thread_id: thread },
        ) && thread == thread_id,
        call_of(ActionModel::StartThread) matches Some(CallModel::ThreadStart { ephemeral })
            && !ephemeral,
{
}

} // verus!
