//! What holds of the coordinator as a whole.

use crate::attachment::InboundAttachment;
use crate::commands::CommandModel;
use crate::ledger::in_order;
use crate::ledger::is_recorded;
use crate::ledger::noted;
use crate::ledger::noting_keeps_others;
use crate::ledger::noting_records;
use crate::ledger::pruning_keeps_what_has_few_rivals;
use crate::ledger::rivals;
use crate::notifications::request_id_of;
use crate::notifications::ServerRequest;
use crate::protocol::ServerNotification;
use crate::protocol::Turn;
use crate::state::earliest_kept;
use crate::state::marked_events_are_known;
use crate::state::StateModel;
use crate::state::SteerModel;
use crate::transcript::projector::error_notice;
use crate::transport_webhook::InboundMessage;
use super::inbound::approval_choice;
use super::inbound::asked_for;
use super::inbound::is_known;
use super::inbound::noting;
use super::inbound::placed;
use super::inbound::prompt_of;
use super::inbound::steer_of;
use super::inbound::utf8_len;
use super::lifecycle::next_delay;
use super::lifecycle::with_outbound;
use super::lifecycle::FIRST_RECONNECT_DELAY_MS;
use super::lifecycle::LONGEST_RECONNECT_DELAY_MS;
use super::model::AcceptedModel;
use super::model::ActionModel;
use super::model::AfterSaveModel;
use super::model::BindPurpose;
use super::model::CoordinatorModel;
use super::model::EffectModel;
use super::model::TaskModel;
use super::model::MAX_PENDING_REQUESTS;
use super::model::MAX_PROMPT_BYTES;
use super::notices::was_shown;
use super::notices::StatusKind;
use super::prompts::is_uncertain;
use super::prompts::turn_has_message;
use super::prompts::turn_with_message;
use super::resume::failure_text;
use super::steering::all_requeued;
use super::steering::as_prompt;
use super::steering::fate_of;
use super::steering::is_meant_for;
use super::steering::steer_from;
use super::steering::steers_reconciled;
use super::steering::turn_from;
use super::steering::without_message;
use super::steering::Refusal;
use super::steering::SteerFate;
use vstd::prelude::*;

verus! {

/// Placing a message leaves what is recorded alone.
proof fn lemma_placed_keeps_records(
    m: CoordinatorModel,
    state: StateModel,
    message: InboundMessage,
    now: u64,
)
    ensures
        placed(m, state, message, now).0.processed_events == state.processed_events,
        placed(m, state, message, now).0.outbound_message_ids == state.outbound_message_ids,
{
}

/// A webhook that is delivered again starts nothing: once a message is accepted, a
/// message under the same key is confirmed and otherwise ignored. The record has to
/// have room for the key.
pub proof fn replayed_messages_start_nothing(
    m: CoordinatorModel,
    message: InboundMessage,
    again: InboundMessage,
    now: u64,
    later: u64,
)
    requires
        in_order(m.state.processed_events),
        m.state_healthy,
        again.idempotency_key@ == message.idempotency_key@,
        is_known(m.state, message) || rivals(
            m.state.processed_events,
            message.idempotency_key@,
            now,
        ) < m.settings.dedupe_capacity,
    ensures
        ({
            let accepted = m.accepting(message, now);
            &&& is_recorded(accepted.state.processed_events, message.idempotency_key@)
                || is_recorded(m.state.outbound_message_ids, message.message_id@)
            &&& is_recorded(accepted.state.processed_events, message.idempotency_key@)
                ==> accepted.accepting(again, later) == accepted.doing(EffectModel::Accepted(true))
        }),
{
    let accepted = m.accepting(message, now);
    if !is_known(m.state, message) {
        marked_events_are_known(
            m.state.processed_events,
            message.idempotency_key@,
            now,
            m.settings.dedupe_ttl_hours,
            m.settings.dedupe_capacity as nat,
        );
        lemma_placed_keeps_records(m, noting(m, message, now), message, now);
    }
}

/// A processed message is remembered while others come in: after another one, it
/// is still known exactly where it is not older than the lifetime and the record
/// has room for it; a message under its key is then confirmed and ignored.
pub proof fn processed_messages_are_remembered(
    m: CoordinatorModel,
    key: Seq<char>,
    seen: u64,
    other: InboundMessage,
    again: InboundMessage,
    now: u64,
    later: u64,
)
    requires
        in_order(m.state.processed_events),
        m.state.processed_events.contains((key, seen)),
        m.state_healthy,
        !is_known(m.state, other),
        again.idempotency_key@ == key,
    ensures
        ({
            let after = m.accepting(other, now);
            &&& is_recorded(after.state.processed_events, key) == (earliest_kept(
                now,
                m.settings.dedupe_ttl_hours,
            ) <= seen && rivals(
                noted(m.state.processed_events, other.idempotency_key@, now),
                key,
                seen,
            ) < m.settings.dedupe_capacity)
            &&& is_recorded(after.state.processed_events, key) ==> after.accepting(again, later)
                == after.doing(EffectModel::Accepted(true))
        }),
{
    let before = m.state.processed_events;
    let at = choose|at: int| 0 <= at < before.len() && before[at] == (key, seen);
    assert(before[at].0 == key);
    noting_records(before, other.idempotency_key@, now, key);
    noting_keeps_others(before, other.idempotency_key@, now, (key, seen));
    pruning_keeps_what_has_few_rivals(
        noted(before, other.idempotency_key@, now),
        key,
        seen,
        earliest_kept(now, m.settings.dedupe_ttl_hours),
        m.settings.dedupe_capacity as nat,
    );
    lemma_placed_keeps_records(m, noting(m, other, now), other, now);
}

/// A message that the bridge has sent is not taken for one of the user. The record
/// has to have room for it.
pub proof fn bridge_messages_are_ignored(
    m: CoordinatorModel,
    echo: InboundMessage,
    now: u64,
    later: u64,
)
    requires
        in_order(m.state.outbound_message_ids),
        m.state_healthy,
        rivals(m.state.outbound_message_ids, echo.message_id@, now) < m.settings.dedupe_capacity,
    ensures
        ({
            let sent = m.with_state(with_outbound(m.state, m.settings, echo.message_id@, now));
            sent.accepting(echo, later) == sent.doing(EffectModel::Accepted(true))
        }),
{
    marked_events_are_known(
        m.state.outbound_message_ids,
        echo.message_id@,
        now,
        m.settings.dedupe_ttl_hours,
        m.settings.dedupe_capacity as nat,
    );
}

/// A message that could not be saved leaves the state as it was, and is not
/// confirmed. After that, nothing is accepted until the state can be saved.
pub proof fn unsaved_messages_leave_no_trace(m: CoordinatorModel, message: InboundMessage, now: u64)
    requires
        m.state_healthy,
        m.wait is None,
        m.previous_state is None,
        m.accepted is None,
        !is_known(m.state, message),
    ensures
        ({
            let after = m.accepting(message, now).resting().saved_as(
                AfterSaveModel::Accepted,
                false,
            );
            &&& after == m.unsaved().doing(EffectModel::Accepted(false))
            &&& after.accepting(message, now) == after.doing(EffectModel::Accepted(false))
        }),
{
    let after = m.accepting(message, now).resting().saved_as(AfterSaveModel::Accepted, false);
    assert(after =~= m.unsaved().doing(EffectModel::Accepted(false)));
}

/// Plain text while a turn runs is submitted to that turn, and starts no other:
/// where nothing waits for approval and not too much is pending, it becomes a steer
/// for the running turn.
pub proof fn text_during_a_turn_steers_it(m: CoordinatorModel, message: InboundMessage, now: u64)
    requires
        m.state_healthy,
        !is_known(m.state, message),
        m.state.active_turn is Some,
        m.pending_approvals.len() == 0,
        m.state.pending_steers.len() < m.settings.max_queued_prompts,
        !(message.attachment matches Some(InboundAttachment::Unsupported { .. })),
        asked_for(message) is Prompt,
        utf8_len(message.body@) <= MAX_PROMPT_BYTES,
    ensures
        ({
            let turn = m.state.active_turn->0;
            let steer = steer_of(message, turn.thread_id, turn.codex_turn_id, now);
            let accepted = m.accepting(message, now);
            &&& accepted.state.queued_prompts == m.state.queued_prompts
            &&& accepted.state.pending_steers == m.state.pending_steers.push(steer)
            &&& accepted.state.active_turn == m.state.active_turn
            &&& accepted.accepted == Some(AcceptedModel::Steer(steer))
        }),
{
}

/// Plain text while no turn runs becomes the last prompt of the queue, where there
/// is room.
pub proof fn text_without_a_turn_is_queued(m: CoordinatorModel, message: InboundMessage, now: u64)
    requires
        m.state_healthy,
        !is_known(m.state, message),
        m.state.active_turn is None,
        m.pending_approvals.len() == 0,
        m.state.pending_steers.len() < m.settings.max_queued_prompts,
        m.state.queued_prompts.len() < m.settings.max_queued_prompts,
        !(message.attachment matches Some(InboundAttachment::Unsupported { .. })),
        asked_for(message) is Prompt,
        utf8_len(message.body@) <= MAX_PROMPT_BYTES,
    ensures
        ({
            let accepted = m.accepting(message, now);
            &&& accepted.state.queued_prompts == m.state.queued_prompts.push(
                prompt_of(message, now),
            )
            &&& accepted.state.pending_steers == m.state.pending_steers
            &&& accepted.accepted == Some(AcceptedModel::StartQueuedPrompt)
        }),
{
}

/// Text that is no number decides on no approval: while an approval is shown, it
/// changes neither the approvals nor the queue, and is not submitted either.
pub proof fn plain_text_decides_nothing(m: CoordinatorModel, message: InboundMessage, now: u64)
    requires
        m.state_healthy,
        m.wait is None,
        !is_known(m.state, message),
        m.pending_approvals.len() > 0,
        !(message.attachment matches Some(InboundAttachment::Unsupported { .. })),
        asked_for(message) is Prompt,
        approval_choice(message.body@) is None,
    ensures
        ({
            let after = m.accepting(message, now).resting().saved_as(
                AfterSaveModel::Accepted,
                true,
            );
            &&& after.pending_approvals == m.pending_approvals
            &&& after.state.queued_prompts == m.state.queued_prompts
            &&& after.state.pending_steers == m.state.pending_steers
            &&& after.wait is None
            &&& after.tasks == m.tasks
        }),
{
}

/// A stop interrupts the running turn, also while an approval is shown: once the
/// approval is dealt with, the interrupt comes next.
pub proof fn stopping_interrupts_the_turn(m: CoordinatorModel)
    ensures
        ({
            let stopped = m.commanded(CommandModel::Stop);
            &&& stopped.tasks == m.tasks.push(TaskModel::InterruptActive)
            &&& m.state.active_turn matches Some(turn) ==> stopped.resting().advanced().wanted()
                == (ActionModel::InterruptTurn {
                thread_id: turn.thread_id,
                turn_id: turn.codex_turn_id,
            })
        }),
{
    let stopped = m.commanded(CommandModel::Stop);
    assert(stopped.tasks.last() == TaskModel::InterruptActive);
}

/// A steer that Codex did not take for sure is not lost: it is still pending, or
/// it stands in the queue.
pub proof fn refused_steers_are_not_lost(
    m: CoordinatorModel,
    steer: SteerModel,
    thread_id: Seq<char>,
    retried: bool,
    refusal: Refusal,
)
    requires
        steer_from(m.state.pending_steers, steer.message_id, 0) is Some,
    ensures
        ({
            let after = m.steered(steer, thread_id, retried, Some(refusal));
            ||| steer_from(after.state.pending_steers, steer.message_id, 0) is Some
            ||| after.state.queued_prompts == m.state.queued_prompts.push(as_prompt(steer))
        }),
{
    match refusal {
        Refusal::OtherTurn(turn_id) => {
            lemma_steer_from(m.state.pending_steers, steer.message_id, 0);
            let index = steer_from(m.state.pending_steers, steer.message_id, 0)->0;
            let changed = m.state.pending_steers.update(
                index,
                SteerModel { expected_turn_id: turn_id, ..m.state.pending_steers[index] },
            );
            lemma_steer_found(changed, steer.message_id, 0, index);
        },
        _ => {},
    }
}

/// A steer that is found has the message.
proof fn lemma_steer_from(steers: Seq<SteerModel>, message_id: Seq<char>, from: int)
    requires
        0 <= from,
    ensures
        steer_from(steers, message_id, from) matches Some(index) ==> from <= index < steers.len()
            && steers[index].message_id == message_id,
    decreases steers.len() - from,
{
    if from < steers.len() && steers[from].message_id != message_id {
        lemma_steer_from(steers, message_id, from + 1);
    }
}

/// A steer that is there is found.
proof fn lemma_steer_found(steers: Seq<SteerModel>, message_id: Seq<char>, from: int, at: int)
    requires
        0 <= from <= at < steers.len(),
        steers[at].message_id == message_id,
    ensures
        steer_from(steers, message_id, from) is Some,
    decreases steers.len() - from,
{
    if steers[from].message_id != message_id {
        lemma_steer_found(steers, message_id, from + 1, at);
    }
}

/// What is left without a message comes from the steers, and does not have it.
proof fn lemma_without_message(steers: Seq<SteerModel>, message_id: Seq<char>)
    ensures
        forall|i: int|
            0 <= i < without_message(steers, message_id).len() ==> steers.contains(
                #[trigger] without_message(steers, message_id)[i],
            ) && without_message(steers, message_id)[i].message_id != message_id,
    decreases steers.len(),
{
    if steers.len() > 0 {
        let init = steers.drop_last();
        lemma_without_message(init, message_id);
        let left = without_message(steers, message_id);
        assert forall|i: int| 0 <= i < left.len() implies steers.contains(#[trigger] left[i])
            && left[i].message_id != message_id by {
            let earlier = without_message(init, message_id);
            if i < earlier.len() {
                assert(left[i] == earlier[i]);
                assert(init.contains(earlier[i]));
                let at = choose|at: int| 0 <= at < init.len() && init[at] == earlier[i];
                assert(steers[at] == left[i]);
            } else {
                assert(left[i] == steers[steers.len() - 1]);
            }
        }
    }
}

/// What is pending after some steers were requeued was pending before, and does not
/// have the message of one that was.
proof fn lemma_requeued_are_gone(
    state: StateModel,
    steers: Seq<SteerModel>,
    thread_id: Seq<char>,
    turn_id: Seq<char>,
)
    ensures
        ({
            let after = all_requeued(state, steers, thread_id, turn_id);
            &&& forall|i: int|
                0 <= i < after.pending_steers.len() ==> state.pending_steers.contains(
                    #[trigger] after.pending_steers[i],
                )
            &&& forall|i: int, k: int|
                0 <= i < after.pending_steers.len() && 0 <= k < steers.len() && is_meant_for(
                    #[trigger] steers[k],
                    thread_id,
                    turn_id,
                ) ==> (#[trigger] after.pending_steers[i]).message_id != steers[k].message_id
        }),
    decreases steers.len(),
{
    let after = all_requeued(state, steers, thread_id, turn_id);
    if steers.len() > 0 {
        let init = steers.drop_last();
        lemma_requeued_are_gone(state, init, thread_id, turn_id);
        let earlier = all_requeued(state, init, thread_id, turn_id);
        lemma_without_message(earlier.pending_steers, steers.last().message_id);
        assert forall|i: int| 0 <= i < after.pending_steers.len() implies earlier
            .pending_steers.contains(#[trigger] after.pending_steers[i]) by {
            if !is_meant_for(steers.last(), thread_id, turn_id) {
                assert(earlier.pending_steers[i] == after.pending_steers[i]);
            }
        }
        assert forall|i: int| 0 <= i < after.pending_steers.len() implies state
            .pending_steers.contains(#[trigger] after.pending_steers[i]) by {
            assert(earlier.pending_steers.contains(after.pending_steers[i]));
            let at = choose|at: int|
                0 <= at < earlier.pending_steers.len() && earlier.pending_steers[at]
                    == after.pending_steers[i];
            assert(state.pending_steers.contains(earlier.pending_steers[at]));
        }
        assert forall|i: int, k: int|
            0 <= i < after.pending_steers.len() && 0 <= k < steers.len() && is_meant_for(
                #[trigger] steers[k],
                thread_id,
                turn_id,
            ) implies (#[trigger] after.pending_steers[i]).message_id != steers[k].message_id by {
            assert(earlier.pending_steers.contains(after.pending_steers[i]));
            if k < init.len() {
                assert(init[k] == steers[k]);
                let at = choose|at: int|
                    0 <= at < earlier.pending_steers.len() && earlier.pending_steers[at]
                        == after.pending_steers[i];
                assert(earlier.pending_steers[at].message_id != init[k].message_id);
            }
        }
    } else {
        assert forall|i: int| 0 <= i < after.pending_steers.len() implies state
            .pending_steers.contains(#[trigger] after.pending_steers[i]) by {
            assert(state.pending_steers[i] == after.pending_steers[i]);
        }
    }
}

/// Whether a message is pending for a turn.
pub open spec fn is_pending(state: StateModel, message_id: Seq<char>) -> bool {
    exists|i: int|
        0 <= i < state.pending_steers.len() && (#[trigger] state.pending_steers[i]).message_id
            == message_id
}

/// Whether a message stands in the queue.
pub open spec fn is_queued(state: StateModel, message_id: Seq<char>) -> bool {
    exists|i: int|
        0 <= i < state.queued_prompts.len() && (#[trigger] state.queued_prompts[i]).message_id
            == message_id
}

/// Whether the turn that a steer is meant for has its message.
pub open spec fn was_received(steer: SteerModel, turns: Seq<Turn>) -> bool {
    turn_from(turns, steer.expected_turn_id, 0) matches Some(index) && turn_has_message(
        turns[index],
        steer.message_id,
    )
}

/// Dropping one message leaves the others.
proof fn lemma_others_stay(steers: Seq<SteerModel>, message_id: Seq<char>, at: int)
    requires
        0 <= at < steers.len(),
        steers[at].message_id != message_id,
    ensures
        without_message(steers, message_id).contains(steers[at]),
    decreases steers.len(),
{
    let init = steers.drop_last();
    let left = without_message(steers, message_id);
    if at == steers.len() - 1 {
        assert(left.last() == steers[at]);
        assert(left[left.len() - 1] == steers[at]);
    } else {
        lemma_others_stay(init, message_id, at);
        let earlier = without_message(init, message_id);
        let k = choose|k: int| 0 <= k < earlier.len() && earlier[k] == init[at];
        assert(left[k] == steers[at]);
    }
}

/// Comparing pending messages with the thread loses none of them: each is still
/// pending, or stands in the queue, or was received by its turn.
pub proof fn reconciled_messages_are_not_lost(
    state: StateModel,
    steers: Seq<SteerModel>,
    turns: Seq<Turn>,
    message_id: Seq<char>,
)
    requires
        is_pending(state, message_id) || is_queued(state, message_id),
    ensures
        ({
            let after = steers_reconciled(state, steers, turns).0;
            ||| is_pending(after, message_id)
            ||| is_queued(after, message_id)
            ||| exists|k: int|
                0 <= k < steers.len() && (#[trigger] steers[k]).message_id == message_id
                    && was_received(steers[k], turns)
        }),
    decreases steers.len(),
{
    if steers.len() > 0 {
        let init = steers.drop_last();
        reconciled_messages_are_not_lost(state, init, turns, message_id);
        let earlier = steers_reconciled(state, init, turns).0;
        let steer = steers.last();
        let after = steers_reconciled(state, steers, turns).0;
        if exists|k: int|
            0 <= k < init.len() && (#[trigger] init[k]).message_id == message_id && was_received(
                init[k],
                turns,
            ) {
            let k = choose|k: int|
                0 <= k < init.len() && (#[trigger] init[k]).message_id == message_id
                    && was_received(init[k], turns);
            assert(steers[k] == init[k]);
        } else if is_queued(earlier, message_id) {
            let i = choose|i: int|
                0 <= i < earlier.queued_prompts.len() && (
                #[trigger] earlier.queued_prompts[i]).message_id == message_id;
            assert(after.queued_prompts[i] == earlier.queued_prompts[i]);
        } else {
            let i = choose|i: int|
                0 <= i < earlier.pending_steers.len() && (
                #[trigger] earlier.pending_steers[i]).message_id == message_id;
            if steer.message_id == message_id {
                match fate_of(earlier, steer, turns) {
                    SteerFate::Open => {
                        assert(after.pending_steers[i].message_id == message_id);
                    },
                    SteerFate::Received => {
                        assert(steers[steers.len() - 1] == steer);
                        assert(was_received(steer, turns));
                    },
                    SteerFate::Missed => {
                        let last = after.queued_prompts.len() - 1;
                        assert(after.queued_prompts[last].message_id == message_id);
                    },
                }
            } else if fate_of(earlier, steer, turns) is Open {
                assert(after.pending_steers[i].message_id == message_id);
            } else {
                lemma_others_stay(earlier.pending_steers, steer.message_id, i);
                let k = choose|k: int|
                    0 <= k < after.pending_steers.len() && after.pending_steers[k]
                        == earlier.pending_steers[i];
                assert(after.pending_steers[k].message_id == message_id);
            }
        }
    }
}

/// A turn that has ended leaves nothing open: no turn runs, no question and no
/// approval waits, and no message is pending for that turn.
pub proof fn ended_turns_leave_nothing_open(
    m: CoordinatorModel,
    thread_id: Seq<char>,
    turn: Turn,
)
    ensures
        ({
            let after = m.completing(thread_id, turn);
            &&& after.state.active_turn is None
            &&& after.pending_requests.len() == 0
            &&& after.pending_approvals.len() == 0
            &&& !after.stream_degraded
            &&& forall|i: int|
                0 <= i < after.state.pending_steers.len() ==> !is_meant_for(
                    #[trigger] after.state.pending_steers[i],
                    thread_id,
                    turn.id@,
                )
        }),
{
    let after = m.completing(thread_id, turn);
    let steers = m.state.pending_steers;
    assert(m.concluding(thread_id, turn).releasing().state == m.state);
    lemma_requeued_are_gone(m.state, steers, thread_id, turn.id@);
    assert forall|i: int| 0 <= i < after.state.pending_steers.len() implies !is_meant_for(
        #[trigger] after.state.pending_steers[i],
        thread_id,
        turn.id@,
    ) by {
        let steer = after.state.pending_steers[i];
        assert(all_requeued(m.state, steers, thread_id, turn.id@).pending_steers[i] == steer);
        assert(steers.contains(steer));
        let k = choose|k: int| 0 <= k < steers.len() && steers[k] == steer;
        if is_meant_for(steers[k], thread_id, turn.id@) {
            assert(steer.message_id != steers[k].message_id);
        }
    }
}

/// What was queued stays in its order; what is moved into the queue comes after it.
pub proof fn requeuing_extends_the_queue(
    state: StateModel,
    steers: Seq<SteerModel>,
    thread_id: Seq<char>,
    turn_id: Seq<char>,
)
    ensures
        state.queued_prompts.is_prefix_of(
            all_requeued(state, steers, thread_id, turn_id).queued_prompts,
        ),
        all_requeued(state, steers, thread_id, turn_id).queued_prompts.skip(
            state.queued_prompts.len() as int,
        ) == steers.filter(|steer: SteerModel| is_meant_for(steer, thread_id, turn_id)).map_values(
            |steer: SteerModel| as_prompt(steer),
        ),
    decreases steers.len(),
{
    let meant = |steer: SteerModel| is_meant_for(steer, thread_id, turn_id);
    let prompted = |steer: SteerModel| as_prompt(steer);
    reveal_with_fuel(Seq::filter, 2);
    let count = state.queued_prompts.len() as int;
    let after = all_requeued(state, steers, thread_id, turn_id).queued_prompts;
    if steers.len() == 0 {
        assert(after.skip(count) =~= steers.filter(meant).map_values(prompted));
    } else {
        let init = steers.drop_last();
        requeuing_extends_the_queue(state, init, thread_id, turn_id);
        let earlier = all_requeued(state, init, thread_id, turn_id).queued_prompts;
        if is_meant_for(steers.last(), thread_id, turn_id) {
            assert(steers.filter(meant) == init.filter(meant).push(steers.last()));
            assert(after == earlier.push(as_prompt(steers.last())));
            assert(after.skip(count) =~= earlier.skip(count).push(as_prompt(steers.last())));
            assert(steers.filter(meant).map_values(prompted) =~= init.filter(meant).map_values(
                prompted,
            ).push(as_prompt(steers.last())));
        } else {
            assert(steers.filter(meant) == init.filter(meant));
            assert(after == earlier);
        }
    }
}

/// A status is shown at most once: where it was shown, it being due again changes
/// nothing.
pub proof fn statuses_are_shown_once(m: CoordinatorModel, kind: StatusKind)
    ensures
        m.showing(kind).showing(kind) == m.showing(kind),
        was_shown(m.showing(kind).shown_statuses, kind),
{
}

/// A status that was shown stays so while its turn runs: neither notifications nor
/// lost connections nor resuming the thread make it due again.
pub proof fn statuses_stay_shown(
    m: CoordinatorModel,
    notification: ServerNotification,
    turns: Seq<Turn>,
    reconnect: bool,
    kind: StatusKind,
)
    requires
        was_shown(m.shown_statuses, kind),
    ensures
        was_shown(m.notified(notification).shown_statuses, kind),
        m.disconnected().shown_statuses == m.shown_statuses,
        m.resuming(reconnect).shown_statuses == m.shown_statuses,
        m.resumed(turns, reconnect).shown_statuses == m.shown_statuses,
        m.not_resumed(reconnect).shown_statuses == m.shown_statuses,
        m.active_resumed(turns, reconnect).shown_statuses == m.shown_statuses,
        m.resume_finished(true, reconnect).shown_statuses == m.shown_statuses,
{
}

/// An outage is reported at most once for a prompt: however often a thread cannot
/// be started for it, only the first failure leads to a message.
pub proof fn outages_are_reported_once(m: CoordinatorModel)
    requires
        m.state.queued_prompts.len() > 0,
    ensures
        ({
            let failed = m.thread_started(BindPurpose::Prompt, None);
            &&& failed.state.queued_prompts[0].failure_notified
            &&& failed.effects == m.effects
            &&& failed.thread_started(BindPurpose::Prompt, None) == failed.resting().cut_off()
            &&& m.state.queued_prompts[0].failure_notified ==> failed == m.resting().cut_off()
        }),
{
}

/// A prompt is submitted only after it is saved that Codex may have it.
pub proof fn submissions_are_recorded_first(m: CoordinatorModel, thread_id: Seq<char>)
    requires
        m.state.queued_prompts.len() > 0,
    ensures
        ({
            let marked = m.marking(thread_id);
            &&& marked.wanted() is Save
            &&& marked.state.queued_prompts[0].submission_uncertain
            &&& marked.resting().saved_as(marked.wait->0->Saving_0, true).wanted() is StartTurn
            &&& !(marked.resting().saved_as(marked.wait->0->Saving_0, false).wanted() is StartTurn)
        }),
{
}

/// A prompt that Codex may have is looked up in the thread before anything else;
/// where the thread has it, it leaves the queue and is not submitted again.
pub proof fn received_prompts_are_not_submitted_again(
    m: CoordinatorModel,
    thread_id: Seq<char>,
    turns: Seq<Turn>,
)
    requires
        is_uncertain(m.state),
        m.state.binding is Some,
    ensures
        m.advancing().wanted() == (ActionModel::ResumeThread {
            thread_id: m.state.binding->0.codex_thread_id,
        }),
        turn_with_message(turns, m.state.queued_prompts[0].message_id, 0) is Some ==> m.looked_up(
            thread_id,
            Some(turns),
        ).state.queued_prompts == m.state.queued_prompts.remove(0),
{
}

/// An approval request for a command or a file change is refused where such notices
/// are switched off; it is not left waiting for an answer that cannot come.
pub proof fn hidden_approvals_are_refused(
    m: CoordinatorModel,
    request: ServerRequest,
    token: Seq<char>,
    now: u64,
)
    requires
        !m.settings.include_approval_notices,
        request is CommandExecutionRequestApproval || request is FileChangeRequestApproval,
    ensures
        ({
            let after = m.requested(request, token, now);
            &&& after.pending_approvals == m.pending_approvals
            &&& after.effects.len() > m.effects.len()
            &&& after.effects[m.effects.len() as int] == EffectModel::Reject(
                request_id_of(request)@,
            )
        }),
{
}

/// A permission request of the running turn is shown whatever the notices are set
/// to, where not too much is pending.
pub proof fn permission_requests_stay_available(
    m: CoordinatorModel,
    request: ServerRequest,
    token: Seq<char>,
    now: u64,
)
    requires
        request matches ServerRequest::PermissionsRequestApproval { params, .. } && m.runs(
            params.thread_id@,
            params.turn_id@,
        ),
        m.pending_requests.len() + m.pending_approvals.len() < MAX_PENDING_REQUESTS,
    ensures
        ({
            let after = m.requested(request, token, now);
            &&& after.pending_approvals.len() == m.pending_approvals.len() + 1
            &&& after.pending_approvals.last().request_id == request_id_of(request)@
        }),
{
}

/// What belongs to another turn than the running one reaches nobody.
pub proof fn other_turns_are_silent(m: CoordinatorModel, notification: ServerNotification)
    requires
        !m.concerns(notification),
    ensures
        m.notified(notification) == m,
{
}

/// While the state cannot be saved, the user is told nothing.
pub proof fn nothing_is_said_unsaved(m: CoordinatorModel, text: Seq<char>)
    requires
        !m.state_healthy,
    ensures
        m.telling(text) == m,
{
}

/// The pause between attempts to connect never gets shorter, and stays bounded.
pub proof fn pauses_grow_and_are_bounded(delay_ms: u64)
    requires
        FIRST_RECONNECT_DELAY_MS <= delay_ms <= LONGEST_RECONNECT_DELAY_MS,
    ensures
        delay_ms <= next_delay(delay_ms) <= LONGEST_RECONNECT_DELAY_MS,
        delay_ms < LONGEST_RECONNECT_DELAY_MS ==> delay_ms < next_delay(delay_ms),
{
}

/// An error of a turn is said once: neither its repetition nor the end of the turn
/// brings it up again.
pub proof fn errors_are_said_once(m: CoordinatorModel, thread_id: Seq<char>, turn: Turn)
    requires
        m.state_healthy,
        turn.error is Some,
    ensures
        ({
            let message = turn.error->0.message@;
            let erred = m.erring(thread_id, turn.id@, message);
            &&& erred.erring(thread_id, turn.id@, message) == erred
            &&& failure_text(erred.projector, thread_id, turn) is None
        }),
{
    let notice = error_notice(thread_id, turn.id@, turn.error->0.message@);
    if !m.projector.errors.contains(notice) {
        let errors = m.projector.errors.push(notice);
        assert(errors[m.projector.errors.len() as int] == notice);
    }
}

} // verus!
