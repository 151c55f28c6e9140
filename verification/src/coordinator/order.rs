//! In which order messages are handed to Codex, and with what in them: pending messages
//! and queued prompts are taken up first come, first served, and as they were written.

use crate::attachment::inputs_for;
use crate::attachment::InboundAttachment;
use crate::protocol::ThreadItem;
use crate::protocol::Turn;
use crate::state::SteerModel;
use crate::transport_webhook::InboundMessage;
use super::inbound::asked_for;
use super::inbound::is_known;
use super::inbound::steer_of;
use super::inbound::utf8_len;

use super::laws::text_during_a_turn_steers_it;
use super::model::ActionModel;
use super::model::CoordinatorModel;
use super::model::EffectModel;
use super::model::MAX_PROMPT_BYTES;
use super::model::TaskModel;
use super::model::WaitModel;
use super::prompts::turn_has_message;
use super::steering::as_prompt;
use super::steering::fate_of;
use super::steering::requeued;
use super::steering::retargeted;
use super::steering::retries;
use super::steering::steer_from;
use super::steering::steer_marked;
use super::steering::turn_from;
use super::steering::without_message;
use super::steps::after_step;
use super::steps::Step;
use vstd::prelude::*;

verus! {

/// The pending messages for the running turn, in their order.
pub open spec fn pending_for(
    steers: Seq<SteerModel>,
    thread_id: Seq<char>,
    turn_id: Seq<char>,
) -> Seq<SteerModel> {
    steers.filter(
        |steer: SteerModel| steer.thread_id == thread_id && steer.expected_turn_id == turn_id,
    )
}

proof fn lemma_filter_from_the_front(
    steers: Seq<SteerModel>,
    thread_id: Seq<char>,
    turn_id: Seq<char>,
)
    requires
        steers.len() > 0,
    ensures
        pending_for(steers, thread_id, turn_id) == if steers[0].thread_id == thread_id
            && steers[0].expected_turn_id == turn_id {
            seq![steers[0]] + pending_for(steers.skip(1), thread_id, turn_id)
        } else {
            pending_for(steers.skip(1), thread_id, turn_id)
        },
    decreases steers.len(),
{
    reveal(Seq::filter);
    let meant = |steer: SteerModel|
        steer.thread_id == thread_id && steer.expected_turn_id == turn_id;
    if steers.len() == 1 {
        assert(steers.drop_last().filter(meant) =~= Seq::empty());
        assert(steers.skip(1).filter(meant) =~= Seq::empty());
        assert(steers.filter(meant) =~= if meant(steers[0]) {
            seq![steers[0]]
        } else {
            Seq::empty()
        });
    } else {
        let shorter = steers.drop_last();
        lemma_filter_from_the_front(shorter, thread_id, turn_id);
        assert(shorter.skip(1) =~= steers.skip(1).drop_last());
        assert(shorter[0] == steers[0]);
        assert(steers.skip(1).last() == steers.last());
        assert(steers.filter(meant) =~= if meant(steers[0]) {
            seq![steers[0]] + steers.skip(1).filter(meant)
        } else {
            steers.skip(1).filter(meant)
        });
    }
}

proof fn lemma_retries_are_reversed(steers: Seq<SteerModel>, thread_id: Seq<char>, turn_id: Seq<char>)
    ensures
        ({
            let pending = pending_for(steers, thread_id, turn_id);
            let tasks = retries(steers, thread_id, turn_id);
            &&& tasks.len() == pending.len()
            &&& forall|i: int|
                0 <= i < pending.len() ==> tasks[pending.len() - 1 - i] == TaskModel::SubmitSteer(
                    #[trigger] pending[i],
                )
        }),
    decreases steers.len(),
{
    reveal(Seq::filter);
    if steers.len() > 0 {
        lemma_filter_from_the_front(steers, thread_id, turn_id);
        lemma_retries_are_reversed(steers.skip(1), thread_id, turn_id);
        let pending = pending_for(steers, thread_id, turn_id);
        let later = pending_for(steers.skip(1), thread_id, turn_id);
        let tasks = retries(steers, thread_id, turn_id);
        if steers[0].thread_id == thread_id && steers[0].expected_turn_id == turn_id {
            assert forall|i: int| 0 <= i < pending.len() implies tasks[pending.len() - 1 - i]
                == TaskModel::SubmitSteer(#[trigger] pending[i]) by {
                if i > 0 {
                    assert(pending[i] == later[i - 1]);
                }
            }
        }
    }
}

/// Pending messages are submitted again in the order in which they were accepted: one task
/// is added for each message that is meant for the running turn, and as tasks are taken
/// from the end, the earliest message stands last. Nothing else changes.
pub proof fn pending_messages_are_submitted_in_order(m: CoordinatorModel)
    requires
        m.state.active_turn is Some,
    ensures
        ({
            let turn = m.state.active_turn->0;
            let pending = pending_for(
                m.state.pending_steers,
                turn.thread_id,
                turn.codex_turn_id,
            );
            let after = m.retrying();
            let count = after.tasks.len();
            &&& count == m.tasks.len() + pending.len()
            &&& forall|i: int| 0 <= i < m.tasks.len() ==> after.tasks[i] == #[trigger] m.tasks[i]
            &&& forall|i: int|
                0 <= i < pending.len() ==> after.tasks[count - 1 - i] == TaskModel::SubmitSteer(
                    #[trigger] pending[i],
                )
            &&& after == (CoordinatorModel { tasks: after.tasks, ..m })
        }),
{
    let turn = m.state.active_turn->0;
    lemma_retries_are_reversed(m.state.pending_steers, turn.thread_id, turn.codex_turn_id);
}

/// Of two pending messages for the running turn, the earlier one is submitted first: its
/// task stands behind that of the later one.
pub proof fn earlier_messages_are_submitted_first(m: CoordinatorModel, i: int, j: int)
    requires
        0 <= i < j < m.state.pending_steers.len(),
        m.state.active_turn is Some,
        m.runs(
            m.state.pending_steers[i].thread_id,
            m.state.pending_steers[i].expected_turn_id,
        ),
        m.runs(
            m.state.pending_steers[j].thread_id,
            m.state.pending_steers[j].expected_turn_id,
        ),
    ensures
        exists|p: int, q: int|
            #![trigger m.retrying().tasks[p], m.retrying().tasks[q]]
            m.tasks.len() <= q < p < m.retrying().tasks.len() && m.retrying().tasks[p]
                == TaskModel::SubmitSteer(m.state.pending_steers[i]) && m.retrying().tasks[q]
                == TaskModel::SubmitSteer(m.state.pending_steers[j]),
{
    let turn = m.state.active_turn->0;
    let (p, q) = lemma_earlier_first(
        m.state.pending_steers,
        turn.thread_id,
        turn.codex_turn_id,
        i,
        j,
    );
    let base = m.tasks.len() as int;
    assert(m.retrying().tasks[base + p] == TaskModel::SubmitSteer(m.state.pending_steers[i]));
    assert(m.retrying().tasks[base + q] == TaskModel::SubmitSteer(m.state.pending_steers[j]));
}

proof fn lemma_retry_of(
    steers: Seq<SteerModel>,
    thread_id: Seq<char>,
    turn_id: Seq<char>,
    i: int,
) -> (p: int)
    requires
        0 <= i < steers.len(),
        steers[i].thread_id == thread_id,
        steers[i].expected_turn_id == turn_id,
    ensures
        0 <= p < retries(steers, thread_id, turn_id).len(),
        retries(steers, thread_id, turn_id)[p] == TaskModel::SubmitSteer(steers[i]),
    decreases steers.len(),
{
    if i == 0 {
        retries(steers, thread_id, turn_id).len() - 1
    } else {
        lemma_retry_of(steers.skip(1), thread_id, turn_id, i - 1)
    }
}

proof fn lemma_earlier_first(
    steers: Seq<SteerModel>,
    thread_id: Seq<char>,
    turn_id: Seq<char>,
    i: int,
    j: int,
) -> (places: (int, int))
    requires
        0 <= i < j < steers.len(),
        steers[i].thread_id == thread_id,
        steers[i].expected_turn_id == turn_id,
        steers[j].thread_id == thread_id,
        steers[j].expected_turn_id == turn_id,
    ensures
        0 <= places.1 < places.0 < retries(steers, thread_id, turn_id).len(),
        retries(steers, thread_id, turn_id)[places.0] == TaskModel::SubmitSteer(steers[i]),
        retries(steers, thread_id, turn_id)[places.1] == TaskModel::SubmitSteer(steers[j]),
    decreases steers.len(),
{
    let later = steers.skip(1);
    if i == 0 {
        let q = lemma_retry_of(later, thread_id, turn_id, j - 1);
        (retries(steers, thread_id, turn_id).len() - 1, q)
    } else {
        lemma_earlier_first(later, thread_id, turn_id, i - 1, j - 1)
    }
}

/// A pending message whose turn it is gets handed to Codex: once the attempt is saved, its
/// own text goes to the turn that it was written to, and the other tasks stay.
pub proof fn submitted_messages_reach_their_turn(m: CoordinatorModel, steer: SteerModel)
    requires
        m.wait is None,
        m.tasks.len() > 0,
        m.tasks.last() == TaskModel::SubmitSteer(steer),
        m.state.active_turn is Some,
    ensures
        ({
            let marked = after_step(m, Step::Advance);
            let handed = after_step(marked, Step::Saved(true));
            &&& marked.wanted() == ActionModel::Save
            &&& handed.wanted() == (ActionModel::SteerTurn {
                thread_id: m.state.active_turn->0.thread_id,
                turn_id: steer.expected_turn_id,
                message_id: steer.message_id,
                inputs: inputs_for(steer.body, steer.attachment),
            })
            &&& handed.tasks == m.tasks.drop_last()
            &&& handed.effects == m.effects
            &&& handed.state.queued_prompts == m.state.queued_prompts
        }),
{
}

/// Whether a message is a prompt that can be taken.
pub open spec fn can_be_taken(m: CoordinatorModel, message: InboundMessage) -> bool {
    &&& m.state_healthy
    &&& m.wait is None
    &&& !is_known(m.state, message)
    &&& m.pending_approvals.len() == 0
    &&& m.state.pending_steers.len() < m.settings.max_queued_prompts
    &&& !(message.attachment matches Some(InboundAttachment::Unsupported { .. }))
    &&& asked_for(message) is Prompt
    &&& utf8_len(message.body@) <= MAX_PROMPT_BYTES
}

proof fn lemma_text_becomes_a_submission(m: CoordinatorModel, message: InboundMessage, now: u64)
    requires
        can_be_taken(m, message),
        m.state.active_turn is Some,
    ensures
        ({
            let turn = m.state.active_turn->0;
            let steer = steer_of(message, turn.thread_id, turn.codex_turn_id, now);
            let accepted = after_step(m, Step::Inbound(message, now));
            let settled = CoordinatorModel {
                previous_state: None,
                accepted: None,
                ..accepted.resting()
            }.doing(EffectModel::Accepted(true));
            &&& accepted.wanted() == ActionModel::Save
            &&& accepted.effects == m.effects
            &&& accepted.state.queued_prompts == m.state.queued_prompts
            &&& accepted.state.pending_steers == m.state.pending_steers.push(steer)
            &&& accepted.state.active_turn == m.state.active_turn
            &&& after_step(accepted, Step::Saved(true)) == settled.steering(steer)
        }),
{
    text_during_a_turn_steers_it(m, message, now);
}

proof fn lemma_submission_is_handed_over(m: CoordinatorModel, steer: SteerModel)
    requires
        m.wait is None,
        m.state.active_turn is Some,
    ensures
        ({
            let handed = after_step(m.steering(steer), Step::Saved(true));
            &&& handed.wanted() == (ActionModel::SteerTurn {
                thread_id: m.state.active_turn->0.thread_id,
                turn_id: steer.expected_turn_id,
                message_id: steer.message_id,
                inputs: inputs_for(steer.body, steer.attachment),
            })
            &&& handed.state.queued_prompts == m.state.queued_prompts
        }),
{
    let task = TaskModel::SubmitSteer(steer);
    let due = m.then_doing(task);
    assert(due.tasks.drop_last() =~= m.tasks);
    assert(CoordinatorModel { tasks: due.tasks.drop_last(), ..due } == m);
    assert(due.advanced() == m.doing_task(task));
    submitted_messages_reach_their_turn(due, steer);
}

/// What a text that is sent while a turn runs comes to once it and the attempt are saved.
pub open spec fn text_handed_over(m: CoordinatorModel, message: InboundMessage, now: u64) ->
    CoordinatorModel {
    after_step(
        after_step(after_step(m, Step::Inbound(message, now)), Step::Saved(true)),
        Step::Saved(true),
    )
}

/// Text that is sent while a turn runs reaches that turn, letter for letter: once it and
/// the attempt are saved, Codex is handed this message for the running turn.
#[verifier::rlimit(40)]
#[verifier::spinoff_prover]
pub proof fn text_during_a_turn_reaches_it(m: CoordinatorModel, message: InboundMessage, now: u64)
    requires
        can_be_taken(m, message),
        m.state.active_turn is Some,
    ensures
        text_handed_over(m, message, now).wanted() == (ActionModel::SteerTurn {
            thread_id: m.state.active_turn->0.thread_id,
            turn_id: m.state.active_turn->0.codex_turn_id,
            message_id: message.message_id@,
            inputs: inputs_for(message.body@, message.attachment),
        }),
        text_handed_over(m, message, now).state.queued_prompts == m.state.queued_prompts,
{
    let turn = m.state.active_turn->0;
    let steer = steer_of(message, turn.thread_id, turn.codex_turn_id, now);
    let accepted = after_step(m, Step::Inbound(message, now));
    let settled = CoordinatorModel {
        previous_state: None,
        accepted: None,
        ..accepted.resting()
    }.doing(EffectModel::Accepted(true));
    lemma_text_becomes_a_submission(m, message, now);
    lemma_submission_is_handed_over(settled, steer);
}

/// Text that is sent while no turn runs starts one in the bound thread, letter for letter,
/// where no other prompt is before it; else the first prompt of the queue is submitted, and
/// the new one comes last.
pub proof fn text_without_a_turn_starts_one(m: CoordinatorModel, message: InboundMessage, now: u64)
    requires
        can_be_taken(m, message),
        m.state.active_turn is None,
        m.state.queued_prompts.len() < m.settings.max_queued_prompts,
        m.state.binding is Some,
    ensures
        ({
            let queue = m.state.queued_prompts;
            let accepted = after_step(m, Step::Inbound(message, now));
            let marked = after_step(accepted, Step::Saved(true));
            let handed = after_step(marked, Step::Saved(true));
            &&& accepted.wanted() == ActionModel::Save
            &&& accepted.effects == m.effects
            &&& marked.wanted() == ActionModel::Save
            &&& marked.effects == m.effects.push(EffectModel::Accepted(true))
            &&& handed.wanted() == if queue.len() == 0 {
                ActionModel::StartTurn {
                    thread_id: m.state.binding->0.codex_thread_id,
                    message_id: message.message_id@,
                    inputs: inputs_for(message.body@, message.attachment),
                }
            } else {
                ActionModel::StartTurn {
                    thread_id: m.state.binding->0.codex_thread_id,
                    message_id: queue[0].message_id,
                    inputs: inputs_for(queue[0].body, queue[0].attachment),
                }
            }
            &&& handed.state.queued_prompts.len() == queue.len() + 1
            &&& handed.state.queued_prompts.last().message_id == message.message_id@
            &&& handed.state.queued_prompts.last().body == message.body@
            &&& handed.state.queued_prompts.last().attachment == message.attachment
            &&& forall|i: int|
                0 < i < queue.len() ==> handed.state.queued_prompts[i] == #[trigger] queue[i]
            &&& handed.state.queued_prompts[0].submission_uncertain
        }),
{
}

/// A turn that was started runs for the first prompt of the queue, which leaves the queue;
/// the others keep their order.
pub proof fn started_turns_take_the_first_prompt(
    m: CoordinatorModel,
    thread_id: Seq<char>,
    turn_id: Seq<char>,
)
    requires
        m.wait == Some(WaitModel::StartingTurn { thread_id }),
        m.state.queued_prompts.len() > 0,
    ensures
        ({
            let first = m.state.queued_prompts[0];
            let after = after_step(m, Step::TurnStarted(Some(turn_id)));
            &&& after.wanted() == ActionModel::Save
            &&& after.state.active_turn is Some
            &&& after.state.active_turn->0.inbound_message_id == first.message_id
            &&& after.state.active_turn->0.thread_id == thread_id
            &&& after.state.active_turn->0.codex_turn_id == turn_id
            &&& after.state.active_turn->0.attachment_paths == match first.attachment {
                Some(InboundAttachment::Document { path, .. }) => seq![path@],
                _ => Seq::empty(),
            }
            &&& after.state.queued_prompts == m.state.queued_prompts.skip(1)
            &&& after.state.pending_steers == m.state.pending_steers
            &&& after.state.binding == m.state.binding
            &&& !after.shown_statuses.working && !after.shown_statuses.reasoning
                && !after.shown_statuses.tooling
        }),
{
    assert(m.state.queued_prompts.remove(0) =~= m.state.queued_prompts.skip(1));
}

/// A turn that could not be started leaves the queue as it is: the prompt stays first, with
/// the mark that Codex may have it, and no turn runs.
pub proof fn failed_starts_keep_the_prompt(m: CoordinatorModel, thread_id: Seq<char>)
    requires
        m.wait == Some(WaitModel::StartingTurn { thread_id }),
    ensures
        ({
            let after = after_step(m, Step::TurnStarted(None));
            &&& after.state == m.state
            &&& after.wait is None
            &&& !after.app_server_connected
        }),
{
}

/// After a turn the queue goes on: once its end is saved, the prompt that came first is
/// submitted next.
pub proof fn the_queue_goes_on_after_a_turn(m: CoordinatorModel)
    requires
        m.wait is None,
        m.state.queued_prompts.len() > 0,
        m.state.binding is Some,
    ensures
        ({
            let first = m.state.queued_prompts[0];
            let marked = after_step(m.turn_finished(true), Step::Advance);
            let handed = after_step(marked, Step::Saved(true));
            &&& marked.wanted() == ActionModel::Save
            &&& marked.state.queued_prompts[0].submission_uncertain
            &&& handed.wanted() == (ActionModel::StartTurn {
                thread_id: m.state.binding->0.codex_thread_id,
                message_id: first.message_id,
                inputs: inputs_for(first.body, first.attachment),
            })
            &&& handed.tasks == m.tasks
        }),
{
    let going = m.turn_finished(true);
    assert(going.tasks.drop_last() =~= m.tasks);
}

/// A message that moves into the queue keeps its identity, its text, its attachment and
/// its time, and comes last; it is pending no more. Every other message stays where it is.
pub proof fn requeued_messages_stay_what_they_are(
    m: CoordinatorModel,
    steer: SteerModel,
)
    ensures
        ({
            let after = requeued(m.state, steer);
            let last = after.queued_prompts.last();
            &&& after.queued_prompts.drop_last() == m.state.queued_prompts
            &&& last.message_id == steer.message_id
            &&& last.idempotency_key == steer.idempotency_key
            &&& last.body == steer.body
            &&& last.attachment == steer.attachment
            &&& last.accepted_at == steer.accepted_at
            &&& !last.submission_uncertain && !last.failure_notified
            &&& after.pending_steers == m.state.pending_steers.filter(
                |other: SteerModel| other.message_id != steer.message_id,
            )
            &&& after.active_turn == m.state.active_turn
            &&& after.binding == m.state.binding
            &&& after.processed_events == m.state.processed_events
            &&& after.outbound_message_ids == m.state.outbound_message_ids
            &&& after.legacy_outbox == m.state.legacy_outbox
        }),
{
    messages_are_dropped_by_identity(m.state.pending_steers, steer.message_id);
    assert(m.state.queued_prompts.push(as_prompt(steer)).drop_last() =~= m.state.queued_prompts);
}

/// Dropping a message drops those with its identity and keeps all others in their order.
pub proof fn messages_are_dropped_by_identity(steers: Seq<SteerModel>, message_id: Seq<char>)
    ensures
        without_message(steers, message_id) == steers.filter(
            |steer: SteerModel| steer.message_id != message_id,
        ),
    decreases steers.len(),
{
    reveal(Seq::filter);
    if steers.len() > 0 {
        messages_are_dropped_by_identity(steers.drop_last(), message_id);
    } else {
        assert(without_message(steers, message_id) =~= steers.filter(
            |steer: SteerModel| steer.message_id != message_id,
        ));
    }
}

/// Marking or aiming a pending message changes nothing but the mark or the aim, of no
/// message but the first under its identity.
pub proof fn marks_change_one_message(
    m: CoordinatorModel,
    message_id: Seq<char>,
    turn_id: Seq<char>,
    index: int,
)
    requires
        0 <= index < m.state.pending_steers.len(),
    ensures
        ({
            let before = m.state.pending_steers;
            let marked = steer_marked(m.state, message_id).pending_steers;
            let aimed = retargeted(m.state, message_id, turn_id).pending_steers;
            let is_it = before[index].message_id == message_id && forall|i: int|
                0 <= i < index ==> (#[trigger] before[i]).message_id != message_id;
            &&& marked.len() == before.len() && aimed.len() == before.len()
            &&& !is_it ==> marked[index] == before[index] && aimed[index] == before[index]
            &&& is_it ==> marked[index] == (SteerModel {
                submission_uncertain: true,
                ..before[index]
            }) && aimed[index] == (SteerModel { expected_turn_id: turn_id, ..before[index] })
        }),
{
    lemma_first_steer(m.state.pending_steers, message_id, 0);
}

proof fn lemma_first_steer(steers: Seq<SteerModel>, message_id: Seq<char>, from: int)
    requires
        0 <= from,
    ensures
        match steer_from(steers, message_id, from) {
            Some(index) => from <= index < steers.len() && steers[index].message_id == message_id
                && forall|i: int|
                from <= i < index ==> (#[trigger] steers[i]).message_id != message_id,
            None => forall|i: int|
                from <= i < steers.len() ==> (#[trigger] steers[i]).message_id != message_id,
        },
    decreases steers.len() - from,
{
    if from < steers.len() && steers[from].message_id != message_id {
        lemma_first_steer(steers, message_id, from + 1);
    }
}

proof fn lemma_first_turn(turns: Seq<Turn>, turn_id: Seq<char>, from: int)
    requires
        0 <= from,
    ensures
        match turn_from(turns, turn_id, from) {
            Some(index) => from <= index < turns.len() && turns[index].id@ == turn_id
                && forall|i: int| from <= i < index ==> (#[trigger] turns[i]).id@ != turn_id,
            None => forall|i: int|
                from <= i < turns.len() ==> (#[trigger] turns[i]).id@ != turn_id,
        },
    decreases turns.len() - from,
{
    if from < turns.len() && turns[from].id@ != turn_id {
        lemma_first_turn(turns, turn_id, from + 1);
    }
}

/// What becomes of a pending message is read from its turn: it was received where the turn
/// holds it, is still open where the turn goes on without it, and was missed where the turn
/// has ended without it. Where the thread does not know the turn, the message is open while
/// the turn runs, and was missed otherwise.
pub proof fn fates_are_read_from_the_turn(
    m: CoordinatorModel,
    steer: SteerModel,
    turns: Seq<Turn>,
    index: int,
)
    ensures
        ({
            let fate = fate_of(m.state, steer, turns);
            &&& 0 <= index < turns.len() && turns[index].id@ == steer.expected_turn_id && (forall|
                i: int,
            |
                0 <= i < index ==> (#[trigger] turns[i]).id@ != steer.expected_turn_id) ==> {
                let held = exists|k: int|
                    0 <= k < turns[index].items@.len() && match #[trigger] turns[index].items@[k] {
                        ThreadItem::UserMessage { client_id: Some(id), .. } => id@
                            == steer.message_id,
                        _ => false,
                    };
                &&& held <==> fate is Received
                &&& !held && turns[index].status is InProgress ==> fate is Open
                &&& !held && !(turns[index].status is InProgress) ==> fate is Missed
            }
            &&& (forall|i: int|
                0 <= i < turns.len() ==> (#[trigger] turns[i]).id@ != steer.expected_turn_id) ==> (
            fate is Open <==> m.runs(steer.thread_id, steer.expected_turn_id)) && !(
            fate is Received)
        }),
{
    lemma_first_turn(turns, steer.expected_turn_id, 0);
    if 0 <= index < turns.len() {
        let held = exists|k: int|
            0 <= k < turns[index].items@.len() && match #[trigger] turns[index].items@[k] {
                ThreadItem::UserMessage { client_id: Some(id), .. } => id@ == steer.message_id,
                _ => false,
            };
        assert(turn_has_message(turns[index], steer.message_id) == held);
    }
}

/// A prompt that is too long is not taken: it joins no queue and is not submitted.
pub proof fn long_prompts_are_not_taken(m: CoordinatorModel, message: InboundMessage, now: u64)
    requires
        m.state_healthy,
        !is_known(m.state, message),
        !(message.attachment matches Some(InboundAttachment::Unsupported { .. })),
        asked_for(message) is Prompt,
        utf8_len(message.body@) > 10_000,
    ensures
        ({
            let accepted = m.accepting(message, now);
            &&& accepted.state.queued_prompts == m.state.queued_prompts
            &&& accepted.state.pending_steers == m.state.pending_steers
            &&& accepted.accepted == Some(super::model::AcceptedModel::PromptTooLong)
        }),
{
}

/// A message that finds no room is not taken, and displaces nothing.
pub proof fn full_queues_take_nothing(m: CoordinatorModel, message: InboundMessage, now: u64)
    requires
        m.state_healthy,
        !is_known(m.state, message),
        m.pending_approvals.len() == 0,
        !(message.attachment matches Some(InboundAttachment::Unsupported { .. })),
        asked_for(message) is Prompt,
        utf8_len(message.body@) <= 10_000,
        m.state.pending_steers.len() >= m.settings.max_queued_prompts || (m.state.active_turn
            is None && m.state.queued_prompts.len() >= m.settings.max_queued_prompts),
    ensures
        ({
            let accepted = m.accepting(message, now);
            &&& accepted.state.queued_prompts == m.state.queued_prompts
            &&& accepted.state.pending_steers == m.state.pending_steers
            &&& accepted.accepted == Some(super::model::AcceptedModel::QueueFull)
        }),
{
}

/// An attachment that cannot be used is refused with its message.
pub proof fn unusable_attachments_are_refused(m: CoordinatorModel, message: InboundMessage, now: u64)
    requires
        m.state_healthy,
        !is_known(m.state, message),
        message.attachment is Some,
        message.attachment->0 is Unsupported,
    ensures
        ({
            let accepted = m.accepting(message, now);
            &&& accepted.state.queued_prompts == m.state.queued_prompts
            &&& accepted.state.pending_steers == m.state.pending_steers
            &&& accepted.accepted is Some
            &&& accepted.accepted->0 is UnsupportedAttachment
        }),
{
}

} // verus!
