//! Acceptance of messages: what a message becomes, before anything is done for it.

use crate::attachment::InboundAttachment;
use crate::commands::parse_command;
use crate::commands::parsed;
use crate::commands::BridgeCommand;
use crate::commands::CommandModel;
use crate::ledger::is_recorded;
use crate::ledger::noted;
use crate::state::prompt_models;
use crate::state::state_pruned;
use crate::state::steer_models;
use crate::state::PendingSteer;
use crate::state::PromptModel;
use crate::state::QueuedPrompt;
use crate::state::StateModel;
use crate::state::SteerModel;
use crate::text::all_digits;
use crate::text::chars_of;
use crate::text::number_of;
use crate::text::parse_decimal;
use crate::text::trim;
use crate::text::trimmed;
use crate::transport_webhook::InboundMessage;
use super::model::AcceptedAction;
use super::model::AcceptedModel;
use super::model::AfterSave;
use super::model::AfterSaveModel;
use super::model::Coordinator;
use super::model::CoordinatorModel;
use super::model::Effect;
use super::model::EffectModel;
use super::model::MAX_PROMPT_BYTES;
use vstd::prelude::*;
use vstd::utf8::encode_utf8;

verus! {

/// The length of a text in bytes of UTF-8.
pub open spec fn utf8_len(text: Seq<char>) -> usize {
    encode_utf8(text).len() as usize
}

/// The number of a choice that a reply names.
pub open spec fn approval_choice(body: Seq<char>) -> Option<int> {
    let reply = trimmed(body);
    if all_digits(reply) && 0 < number_of(reply) <= usize::MAX {
        Some(number_of(reply) as int)
    } else {
        None
    }
}

/// The number of a choice that a reply names.
pub fn parse_approval_choice(body: &str) -> (choice: Option<usize>)
    ensures
        match choice {
            Some(choice) => approval_choice(body@) == Some(choice as int),
            None => approval_choice(body@) is None,
        },
{
    let reply = trim(body);
    let chars = chars_of(reply.as_str());
    match parse_decimal(&chars) {
        Some(choice) => if choice > 0 {
            Some(choice)
        } else {
            None
        },
        None => None,
    }
}

/// What a message asks for. An attachment without a caption is a prompt.
pub open spec fn asked_for(message: InboundMessage) -> CommandModel {
    if message.attachment is Some && trimmed(message.body@).len() == 0 {
        CommandModel::Prompt(message.body@)
    } else {
        parsed(message.body@)
    }
}

/// A message as input for the running turn.
pub open spec fn steer_of(
    message: InboundMessage,
    thread_id: Seq<char>,
    turn_id: Seq<char>,
    now: u64,
) -> SteerModel {
    SteerModel {
        idempotency_key: message.idempotency_key@,
        message_id: message.message_id@,
        body: message.body@,
        attachment: message.attachment,
        thread_id,
        expected_turn_id: turn_id,
        accepted_at: now,
        submission_uncertain: false,
    }
}

/// A message as a prompt for a turn of its own.
pub open spec fn prompt_of(message: InboundMessage, now: u64) -> PromptModel {
    PromptModel {
        idempotency_key: message.idempotency_key@,
        message_id: message.message_id@,
        body: message.body@,
        attachment: message.attachment,
        accepted_at: now,
        submission_uncertain: false,
        failure_notified: false,
    }
}

/// What becomes of a prompt, and of the state with it.
pub open spec fn placed_prompt(
    m: CoordinatorModel,
    state: StateModel,
    message: InboundMessage,
    now: u64,
) -> (StateModel, AcceptedModel) {
    let limit = m.settings.max_queued_prompts;
    if utf8_len(message.body@) > MAX_PROMPT_BYTES {
        (state, AcceptedModel::PromptTooLong)
    } else if m.pending_approvals.len() > 0 {
        match approval_choice(message.body@) {
            Some(choice) => (state, AcceptedModel::ApprovalChoice(choice)),
            None => (state, AcceptedModel::ApprovalInputBlocked),
        }
    } else if state.pending_steers.len() >= limit {
        (state, AcceptedModel::QueueFull)
    } else {
        match state.active_turn {
            Some(turn) => {
                let steer = steer_of(message, turn.thread_id, turn.codex_turn_id, now);
                (
                    StateModel { pending_steers: state.pending_steers.push(steer), ..state },
                    AcceptedModel::Steer(steer),
                )
            },
            None => if state.queued_prompts.len() >= limit {
                (state, AcceptedModel::QueueFull)
            } else {
                (
                    StateModel {
                        queued_prompts: state.queued_prompts.push(prompt_of(message, now)),
                        ..state
                    },
                    AcceptedModel::StartQueuedPrompt,
                )
            },
        }
    }
}

/// What becomes of a message, and of the state with it.
pub open spec fn placed(
    m: CoordinatorModel,
    state: StateModel,
    message: InboundMessage,
    now: u64,
) -> (StateModel, AcceptedModel) {
    match message.attachment {
        Some(InboundAttachment::Unsupported { kind }) => (
            state,
            AcceptedModel::UnsupportedAttachment(kind@),
        ),
        _ => match asked_for(message) {
            CommandModel::Prompt(_) => placed_prompt(m, state, message, now),
            command => (state, AcceptedModel::Command(command)),
        },
    }
}

/// The state after a message was noted as processed.
pub open spec fn noting(m: CoordinatorModel, message: InboundMessage, now: u64) -> StateModel {
    state_pruned(
        StateModel {
            processed_events: noted(m.state.processed_events, message.idempotency_key@, now),
            ..m.state
        },
        now,
        m.settings.dedupe_ttl_hours,
        m.settings.dedupe_capacity as nat,
    )
}

/// Whether a message was processed before, or sent by the bridge itself.
pub open spec fn is_known(state: StateModel, message: InboundMessage) -> bool {
    is_recorded(state.processed_events, message.idempotency_key@) || is_recorded(
        state.outbound_message_ids,
        message.message_id@,
    )
}

impl CoordinatorModel {
    /// The coordinator after a message came in. A known message is confirmed and
    /// ignored; a new one is noted and placed, and that is saved before anything
    /// else happens.
    pub open spec fn accepting(self, message: InboundMessage, now: u64) -> CoordinatorModel {
        if !self.state_healthy {
            self.doing(EffectModel::Accepted(false))
        } else if is_known(self.state, message) {
            self.doing(EffectModel::Accepted(true))
        } else {
            let (state, action) = placed(self, noting(self, message, now), message, now);
            CoordinatorModel {
                state,
                previous_state: Some(self.state),
                accepted: Some(action),
                ..self
            }.saving(AfterSaveModel::Accepted)
        }
    }
}

impl Coordinator {
    /// Places a prompt.
    fn place_prompt(&mut self, message: InboundMessage, now: u64) -> (action: AcceptedAction)
        ensures
            (final(self)@.state, action@) == placed_prompt(
                old(self)@,
                old(self)@.state,
                message,
                now,
            ),
            final(self)@ == old(self)@.with_state(final(self)@.state),
    {
        if message.body.as_str().len() > MAX_PROMPT_BYTES {
            return AcceptedAction::PromptTooLong;
        }
        if self.pending_approvals.len() > 0 {
            return match parse_approval_choice(message.body.as_str()) {
                Some(choice) => AcceptedAction::ApprovalChoice(choice),
                None => AcceptedAction::ApprovalInputBlocked,
            };
        }
        if self.state.pending_steers.len() >= self.settings.max_queued_prompts {
            return AcceptedAction::QueueFull;
        }
        match &self.state.active_turn {
            Some(turn) => {
                let steer = PendingSteer {
                    idempotency_key: message.idempotency_key,
                    message_id: message.message_id,
                    body: message.body,
                    attachment: message.attachment,
                    thread_id: turn.thread_id.clone(),
                    expected_turn_id: turn.codex_turn_id.clone(),
                    accepted_at: now,
                    submission_uncertain: false,
                };
                let copy = steer.clone();
                self.state.pending_steers.push(copy);
                assert(steer_models(self.state.pending_steers@) =~= steer_models(
                    old(self).state.pending_steers@,
                ).push(steer@));
                AcceptedAction::Steer(steer)
            },
            None => {
                if self.state.queued_prompts.len() >= self.settings.max_queued_prompts {
                    return AcceptedAction::QueueFull;
                }
                let prompt = QueuedPrompt {
                    idempotency_key: message.idempotency_key,
                    message_id: message.message_id,
                    body: message.body,
                    attachment: message.attachment,
                    accepted_at: now,
                    submission_uncertain: false,
                    failure_notified: false,
                };
                let ghost model = prompt@;
                self.state.queued_prompts.push(prompt);
                assert(prompt_models(self.state.queued_prompts@) =~= prompt_models(
                    old(self).state.queued_prompts@,
                ).push(model));
                AcceptedAction::StartQueuedPrompt
            },
        }
    }

    /// Places a message.
    fn place(&mut self, message: InboundMessage, now: u64) -> (action: AcceptedAction)
        ensures
            (final(self)@.state, action@) == placed(old(self)@, old(self)@.state, message, now),
            final(self)@ == old(self)@.with_state(final(self)@.state),
    {
        match &message.attachment {
            Some(InboundAttachment::Unsupported { kind }) => {
                return AcceptedAction::UnsupportedAttachment(kind.clone());
            },
            _ => {},
        }
        let caption = trim(message.body.as_str());
        if message.attachment.is_some() && caption.as_str().is_empty() {
            return self.place_prompt(message, now);
        }
        match parse_command(message.body.as_str()) {
            BridgeCommand::Prompt(_) => self.place_prompt(message, now),
            command => AcceptedAction::Command(command),
        }
    }

    /// Takes a message in. The answer to whoever handed it in is an effect: at
    /// once for a message that is known or cannot be kept, else once its
    /// acceptance is saved.
    pub fn accept_inbound(&mut self, message: InboundMessage, now: u64)
        requires
            old(self).wait is None,
        ensures
            final(self)@ == old(self)@.accepting(message, now),
    {
        if !self.state_healthy {
            self.push_effect(Effect::Accepted(false));
            return;
        }
        if self.state.was_processed(message.idempotency_key.as_str())
            || self.state.was_sent_by_bridge(message.message_id.as_str()) {
            self.push_effect(Effect::Accepted(true));
            return;
        }
        let previous = self.state.clone();
        self.state.mark_processed(message.idempotency_key.clone(), now);
        self.state.prune(now, self.settings.dedupe_ttl_hours, self.settings.dedupe_capacity);
        assert(self@ =~= old(self)@.with_state(noting(old(self)@, message, now)));
        let ghost middle = self@;
        let action = self.place(message, now);
        proof {
            assert(placed(middle, middle.state, message, now) == placed(
                old(self)@,
                middle.state,
                message,
                now,
            ));
        }
        self.previous_state = Some(previous);
        self.accepted = Some(action);
        self.save_then(AfterSave::Accepted);
    }
}

} // verus!
