//! What the coordinator has taken in stays in its hands until Codex has it.

use crate::notifications::AppServerEvent;
use crate::protocol::ServerNotification;
use crate::protocol::Turn;
use crate::state::BindingModel;
use crate::state::StateModel;
use crate::state::SteerModel;
use crate::transport_webhook::InboundMessage;
use super::inbound::noting;
use super::inbound::placed;
use super::laws::is_pending;
use super::laws::is_queued;
use super::laws::reconciled_messages_are_not_lost;
use super::laws::was_received;
use super::lifecycle::without_outages;
use super::model::AcceptedModel;
use super::model::AfterSaveModel;
use super::model::BindPurpose;
use super::model::CoordinatorModel;
use super::model::EffectModel;
use super::model::PendingRequestModel;
use super::model::ResumePurposeModel;
use super::model::TaskModel;
use super::model::WaitModel;
use super::prompts::first_dropped;
use super::prompts::first_marked;
use super::prompts::first_notified;
use super::prompts::first_running;
use super::prompts::turn_has_message;
use super::prompts::turn_with_message;
use super::steering::all_requeued;
use super::steering::requeued;
use super::steering::retargeted;
use super::steering::steer_dropped;
use super::steering::steer_from;
use super::steering::steer_marked;
use super::steering::steers_reconciled;
use super::steering::turn_from;
use super::steering::without_message;
use super::steering::Refusal;
use super::steps::after_step;
use super::steps::can_happen;
use super::steps::thread_read;
use super::steps::Step;
use vstd::prelude::*;

verus! {

/// Whether a message waits to be submitted: it is pending for a turn, or stands in
/// the queue.
pub open spec fn is_held(state: StateModel, message_id: Seq<char>) -> bool {
    is_pending(state, message_id) || is_queued(state, message_id)
}

/// Whether some turn has a message.
pub open spec fn some_turn_has(turns: Seq<Turn>, message_id: Seq<char>) -> bool {
    exists|i: int| 0 <= i < turns.len() && turn_has_message(#[trigger] turns[i], message_id)
}

/// Whether a step gives a message out of the coordinator's hands: Codex started a
/// turn with it, took it for the running turn, or turned out to have it; or it was
/// refused to whoever handed it in, because it could not be saved.
pub open spec fn gives_out(m: CoordinatorModel, step: Step, message_id: Seq<char>) -> bool {
    match step {
        Step::TurnStarted(Some(_)) => m.state.queued_prompts.len() > 0
            && m.state.queued_prompts[0].message_id == message_id,
        Step::Steered(None) => m.wait->0->Steering_steer.message_id == message_id,
        Step::ThreadResumed(Some(turns)) => some_turn_has(turns, message_id),
        Step::Saved(saved) => !saved && m.wait == Some(
            WaitModel::Saving(AfterSaveModel::Accepted),
        ) && m.previous_state is Some && !is_held(m.previous_state->0, message_id),
        _ => false,
    }
}

/// Everything that is held before is held after.
spec fn keeps(before: StateModel, after: StateModel) -> bool {
    forall|message_id: Seq<char>| #[trigger]
        is_held(before, message_id) ==> is_held(after, message_id)
}

/// Everything but one message that is held before is held after.
spec fn keeps_but(before: StateModel, after: StateModel, gone: Seq<char>) -> bool {
    forall|message_id: Seq<char>| #[trigger]
        is_held(before, message_id) && message_id != gone ==> is_held(after, message_id)
}

proof fn lemma_untouched(before: StateModel, after: StateModel)
    requires
        after.queued_prompts == before.queued_prompts,
        after.pending_steers == before.pending_steers,
    ensures
        keeps(before, after),
{
}

proof fn lemma_extended(before: StateModel, after: StateModel)
    requires
        before.queued_prompts.is_prefix_of(after.queued_prompts),
        before.pending_steers.is_prefix_of(after.pending_steers),
    ensures
        keeps(before, after),
{
    assert forall|message_id: Seq<char>| #[trigger] is_held(before, message_id) implies is_held(
        after,
        message_id,
    ) by {
        if is_pending(before, message_id) {
            let i = choose|i: int|
                0 <= i < before.pending_steers.len() && (
                #[trigger] before.pending_steers[i]).message_id == message_id;
            assert(after.pending_steers[i] == before.pending_steers[i]);
        } else {
            let i = choose|i: int|
                0 <= i < before.queued_prompts.len() && (
                #[trigger] before.queued_prompts[i]).message_id == message_id;
            assert(after.queued_prompts[i] == before.queued_prompts[i]);
        }
    }
}

proof fn lemma_first_changed(state: StateModel, uncertain: bool)
    ensures
        keeps(state, first_marked(state, uncertain)),
        keeps(state, first_notified(state)),
{
    let marked = first_marked(state, uncertain);
    let notified = first_notified(state);
    assert forall|message_id: Seq<char>| #[trigger] is_held(state, message_id) implies is_held(
        marked,
        message_id,
    ) && is_held(notified, message_id) by {
        if is_queued(state, message_id) {
            let i = choose|i: int|
                0 <= i < state.queued_prompts.len() && (
                #[trigger] state.queued_prompts[i]).message_id == message_id;
            assert(marked.queued_prompts[i].message_id == message_id);
            assert(notified.queued_prompts[i].message_id == message_id);
        } else {
            let i = choose|i: int|
                0 <= i < state.pending_steers.len() && (
                #[trigger] state.pending_steers[i]).message_id == message_id;
            assert(marked.pending_steers[i].message_id == message_id);
            assert(notified.pending_steers[i].message_id == message_id);
        }
    }
}

proof fn lemma_first_gone(state: StateModel, thread_id: Seq<char>, turn_id: Seq<char>)
    requires
        state.queued_prompts.len() > 0,
    ensures
        keeps_but(
            state,
            first_running(state, thread_id, turn_id),
            state.queued_prompts[0].message_id,
        ),
        keeps_but(state, first_dropped(state), state.queued_prompts[0].message_id),
{
    let running = first_running(state, thread_id, turn_id);
    let dropped = first_dropped(state);
    assert forall|message_id: Seq<char>| #[trigger]
        is_held(state, message_id) && message_id != state.queued_prompts[0].message_id implies is_held(
        running,
        message_id,
    ) && is_held(dropped, message_id) by {
        if is_queued(state, message_id) {
            let i = choose|i: int|
                0 <= i < state.queued_prompts.len() && (
                #[trigger] state.queued_prompts[i]).message_id == message_id;
            assert(running.queued_prompts[i - 1] == state.queued_prompts[i]);
            assert(dropped.queued_prompts[i - 1] == state.queued_prompts[i]);
        } else {
            let i = choose|i: int|
                0 <= i < state.pending_steers.len() && (
                #[trigger] state.pending_steers[i]).message_id == message_id;
            assert(running.pending_steers[i].message_id == message_id);
            assert(dropped.pending_steers[i].message_id == message_id);
        }
    }
}

proof fn lemma_others_stay(steers: Seq<SteerModel>, message_id: Seq<char>, at: int)
    requires
        0 <= at < steers.len(),
        steers[at].message_id != message_id,
    ensures
        without_message(steers, message_id).contains(steers[at]),
    decreases steers.len(),
{
    let init = steers.drop_last();
    let left = without_message(steers, message_id);
    if at == steers.len() - 1 {
        assert(left[left.len() - 1] == steers[at]);
    } else {
        lemma_others_stay(init, message_id, at);
        let earlier = without_message(init, message_id);
        let k = choose|k: int| 0 <= k < earlier.len() && earlier[k] == init[at];
        assert(left[k] == steers[at]);
    }
}

proof fn lemma_steer_dropped(state: StateModel, gone: Seq<char>)
    ensures
        keeps_but(state, steer_dropped(state, gone), gone),
{
    let after = steer_dropped(state, gone);
    assert forall|message_id: Seq<char>| #[trigger]
        is_held(state, message_id) && message_id != gone implies is_held(after, message_id) by {
        if is_pending(state, message_id) {
            let i = choose|i: int|
                0 <= i < state.pending_steers.len() && (
                #[trigger] state.pending_steers[i]).message_id == message_id;
            lemma_others_stay(state.pending_steers, gone, i);
            let k = choose|k: int|
                0 <= k < after.pending_steers.len() && after.pending_steers[k]
                    == state.pending_steers[i];
            assert(after.pending_steers[k].message_id == message_id);
        } else {
            let i = choose|i: int|
                0 <= i < state.queued_prompts.len() && (
                #[trigger] state.queued_prompts[i]).message_id == message_id;
            assert(after.queued_prompts[i].message_id == message_id);
        }
    }
}

proof fn lemma_requeued(state: StateModel, steer: SteerModel)
    ensures
        keeps(state, requeued(state, steer)),
        is_held(requeued(state, steer), steer.message_id),
{
    let dropped = steer_dropped(state, steer.message_id);
    let after = requeued(state, steer);
    lemma_steer_dropped(state, steer.message_id);
    lemma_extended(dropped, after);
    let last = after.queued_prompts.len() - 1;
    assert(after.queued_prompts[last].message_id == steer.message_id);
    assert(is_queued(after, steer.message_id));
    assert forall|message_id: Seq<char>| #[trigger] is_held(state, message_id) implies is_held(
        after,
        message_id,
    ) by {
        if message_id != steer.message_id {
            assert(is_held(dropped, message_id));
        }
    }
}

proof fn lemma_all_requeued(
    state: StateModel,
    steers: Seq<SteerModel>,
    thread_id: Seq<char>,
    turn_id: Seq<char>,
)
    ensures
        keeps(state, all_requeued(state, steers, thread_id, turn_id)),
    decreases steers.len(),
{
    if steers.len() > 0 {
        lemma_all_requeued(state, steers.drop_last(), thread_id, turn_id);
        lemma_requeued(
            all_requeued(state, steers.drop_last(), thread_id, turn_id),
            steers.last(),
        );
    }
}

pub proof fn lemma_steer_place(steers: Seq<SteerModel>, message_id: Seq<char>, from: int)
    requires
        0 <= from,
    ensures
        steer_from(steers, message_id, from) matches Some(place) ==> from <= place < steers.len(),
    decreases steers.len() - from,
{
    if from < steers.len() && steers[from].message_id != message_id {
        lemma_steer_place(steers, message_id, from + 1);
    }
}

proof fn lemma_steer_changed(state: StateModel, changed: Seq<char>, turn_id: Seq<char>)
    ensures
        keeps(state, steer_marked(state, changed)),
        keeps(state, retargeted(state, changed, turn_id)),
{
    lemma_steer_place(state.pending_steers, changed, 0);
    let marked = steer_marked(state, changed);
    let moved = retargeted(state, changed, turn_id);
    assert forall|message_id: Seq<char>| #[trigger] is_held(state, message_id) implies is_held(
        marked,
        message_id,
    ) && is_held(moved, message_id) by {
        if is_pending(state, message_id) {
            let i = choose|i: int|
                0 <= i < state.pending_steers.len() && (
                #[trigger] state.pending_steers[i]).message_id == message_id;
            assert(marked.pending_steers[i].message_id == message_id);
            assert(moved.pending_steers[i].message_id == message_id);
        } else {
            let i = choose|i: int|
                0 <= i < state.queued_prompts.len() && (
                #[trigger] state.queued_prompts[i]).message_id == message_id;
            assert(marked.queued_prompts[i].message_id == message_id);
            assert(moved.queued_prompts[i].message_id == message_id);
        }
    }
}

proof fn lemma_turn_place(turns: Seq<Turn>, message_id: Seq<char>, from: int)
    requires
        0 <= from,
    ensures
        turn_with_message(turns, message_id, from) matches Some(place) ==> from <= place
            < turns.len() && turn_has_message(turns[place], message_id),
    decreases turns.len() - from,
{
    if from < turns.len() && !turn_has_message(turns[from], message_id) {
        lemma_turn_place(turns, message_id, from + 1);
    }
}

proof fn lemma_turn_found(turns: Seq<Turn>, turn_id: Seq<char>, from: int)
    requires
        0 <= from,
    ensures
        turn_from(turns, turn_id, from) matches Some(place) ==> from <= place < turns.len(),
    decreases turns.len() - from,
{
    if from < turns.len() && turns[from].id@ != turn_id {
        lemma_turn_found(turns, turn_id, from + 1);
    }
}

proof fn lemma_reconciled(state: StateModel, turns: Seq<Turn>, message_id: Seq<char>)
    requires
        is_held(state, message_id),
    ensures
        is_held(steers_reconciled(state, state.pending_steers, turns).0, message_id)
            || some_turn_has(turns, message_id),
{
    let steers = state.pending_steers;
    reconciled_messages_are_not_lost(state, steers, turns, message_id);
    if !is_held(steers_reconciled(state, steers, turns).0, message_id) {
        let k = choose|k: int|
            0 <= k < steers.len() && (#[trigger] steers[k]).message_id == message_id
                && was_received(steers[k], turns);
        lemma_turn_found(turns, steers[k].expected_turn_id, 0);
        let place = turn_from(turns, steers[k].expected_turn_id, 0)->0;
        assert(turn_has_message(turns[place], message_id));
    }
}

proof fn lemma_prompting(m: CoordinatorModel)
    ensures
        keeps(m.state, m.prompting().state),
        keeps(m.state, m.advancing().state),
        keeps(m.state, m.going_on().state),
{
    lemma_first_changed(m.state, true);
    lemma_untouched(m.state, m.state);
}

proof fn lemma_steering(m: CoordinatorModel, steer: SteerModel)
    ensures
        keeps(m.state, m.steering(steer).state),
{
    lemma_steer_changed(m.state, steer.message_id, steer.expected_turn_id);
    lemma_requeued(m.state, steer);
}

proof fn lemma_acting(m: CoordinatorModel, action: AcceptedModel)
    ensures
        keeps(m.state, m.acting(action).state),
{
    lemma_untouched(m.state, m.state);
    match action {
        AcceptedModel::StartQueuedPrompt => lemma_prompting(m),
        AcceptedModel::Steer(steer) => lemma_steering(m, steer),
        AcceptedModel::Command(command) => {
            assert(m.commanded(command).state == m.state);
        },
        _ => {},
    }
}

proof fn lemma_accepting(m: CoordinatorModel, message: InboundMessage, now: u64)
    ensures
        keeps(m.state, m.accepting(message, now).state),
{
    lemma_untouched(m.state, m.state);
    let state = noting(m, message, now);
    lemma_extended(m.state, placed(m, state, message, now).0);
}

proof fn lemma_completing(m: CoordinatorModel, thread_id: Seq<char>, turn: Turn)
    ensures
        keeps(m.state, m.completing(thread_id, turn).state),
{
    let closed = m.concluding(thread_id, turn).releasing();
    assert(closed.state == m.state);
    lemma_all_requeued(m.state, m.state.pending_steers, thread_id, turn.id@);
    let after = m.completing(thread_id, turn).state;
    lemma_untouched(
        all_requeued(m.state, m.state.pending_steers, thread_id, turn.id@),
        after,
    );
}

proof fn lemma_notified(m: CoordinatorModel, notification: ServerNotification)
    ensures
        keeps(m.state, m.notified(notification).state),
{
    lemma_untouched(m.state, m.state);
    match notification {
        ServerNotification::TurnCompleted(n) => lemma_completing(m, n.thread_id@, n.turn),
        _ => {
            assert(m.notified(notification).state == m.state);
        },
    }
}

proof fn lemma_evented(m: CoordinatorModel, event: AppServerEvent, token: Seq<char>, now: u64)
    ensures
        keeps(m.state, m.evented(event, token, now).state),
{
    lemma_untouched(m.state, m.state);
    let later = m.then_doing(TaskModel::GoOn);
    match event {
        AppServerEvent::ServerNotification(notification) => lemma_notified(later, notification),
        AppServerEvent::ServerRequest(request) => {
            assert(later.requested(request, token, now).state == m.state);
        },
        _ => {},
    }
}

proof fn lemma_active_resumed(m: CoordinatorModel, turns: Seq<Turn>, reconnect: bool)
    ensures
        keeps(m.state, m.active_resumed(turns, reconnect).state),
{
    lemma_untouched(m.state, m.active_resumed(turns, reconnect).state);
}

proof fn lemma_advanced(m: CoordinatorModel)
    ensures
        keeps(m.state, m.advanced().state),
{
    lemma_untouched(m.state, m.state);
    if m.tasks.len() > 0 {
        let rest = CoordinatorModel { tasks: m.tasks.drop_last(), ..m };
        match m.tasks.last() {
            TaskModel::StartNextPrompt => lemma_prompting(rest),
            TaskModel::AdvanceQueue => lemma_prompting(rest),
            TaskModel::GoOn => lemma_prompting(rest),
            TaskModel::SubmitSteer(steer) => lemma_steering(rest, steer),
            TaskModel::ResumeActive { turns, reconnect } => lemma_active_resumed(
                rest,
                turns,
                reconnect,
            ),
            _ => {},
        }
    }
}

proof fn lemma_bound(
    m: CoordinatorModel,
    previous: Option<BindingModel>,
    thread_id: Seq<char>,
    purpose: BindPurpose,
    saved: bool,
)
    ensures
        keeps(m.state, m.bound(previous, thread_id, purpose, saved).state),
{
    lemma_first_changed(m.state, true);
    lemma_untouched(m.state, m.state);
    lemma_untouched(m.state, StateModel { binding: previous, ..m.state });
}

proof fn lemma_saved(m: CoordinatorModel, next: AfterSaveModel, saved: bool)
    requires
        !(next is Accepted),
    ensures
        keeps(m.state, m.saved_as(next, saved).state),
{
    lemma_untouched(m.state, m.state);
    match next {
        AfterSaveModel::Bound { previous, thread_id, purpose } => lemma_bound(
            m,
            previous,
            thread_id,
            purpose,
            saved,
        ),
        _ => {
            assert(m.saved_as(next, saved).state == m.state);
        },
    }
}

proof fn lemma_thread_started(m: CoordinatorModel, outcome: Option<Seq<char>>)
    requires
        m.wait matches Some(WaitModel::StartingThread(_)),
    ensures
        keeps(m.state, m.thread_started(m.wait->0->StartingThread_0, outcome).state),
{
    let after = m.thread_started(m.wait->0->StartingThread_0, outcome).state;
    lemma_first_changed(m.state, true);
    lemma_untouched(m.state, m.state);
    match outcome {
        Some(_) => lemma_untouched(m.state, after),
        None => {},
    }
}

proof fn lemma_turn_started(m: CoordinatorModel, outcome: Option<Seq<char>>, message_id: Seq<char>)
    requires
        m.wait matches Some(WaitModel::StartingTurn { .. }),
        is_held(m.state, message_id),
    ensures
        is_held(
            m.turn_started(m.wait->0->StartingTurn_thread_id, outcome).state,
            message_id,
        ) || gives_out(m, Step::TurnStarted(outcome), message_id),
{
    match outcome {
        Some(turn_id) => {
            if m.state.queued_prompts.len() > 0 {
                lemma_first_gone(m.state, m.wait->0->StartingTurn_thread_id, turn_id);
            }
        },
        None => {},
    }
}

proof fn lemma_steered(m: CoordinatorModel, outcome: Option<Refusal>, message_id: Seq<char>)
    requires
        m.wait matches Some(WaitModel::Steering { .. }),
        is_held(m.state, message_id),
    ensures
        is_held(after_step(m, Step::Steered(outcome)).state, message_id) || gives_out(
            m,
            Step::Steered(outcome),
            message_id,
        ),
{
    let steer = m.wait->0->Steering_steer;
    let after = after_step(m, Step::Steered(outcome)).state;
    match outcome {
        None => {
            lemma_steer_dropped(m.state, steer.message_id);
            lemma_untouched(steer_dropped(m.state, steer.message_id), after);
        },
        Some(Refusal::NoActiveTurn) => {
            let idle = StateModel { active_turn: None, ..m.state };
            lemma_untouched(m.state, idle);
            lemma_requeued(idle, steer);
        },
        Some(Refusal::OtherTurn(turn_id)) => {
            lemma_steer_changed(m.state, steer.message_id, turn_id);
            lemma_requeued(m.state, steer);
        },
        _ => lemma_requeued(m.state, steer),
    }
}

proof fn lemma_looked_up(
    m: CoordinatorModel,
    thread_id: Seq<char>,
    outcome: Option<Seq<Turn>>,
    message_id: Seq<char>,
)
    requires
        is_held(m.state, message_id),
    ensures
        is_held(m.looked_up(thread_id, outcome).state, message_id) || (outcome is Some
            && some_turn_has(outcome->0, message_id)),
{
    lemma_first_changed(m.state, false);
    if m.state.queued_prompts.len() > 0 && outcome is Some {
        let turns = outcome->0;
        let first = m.state.queued_prompts[0].message_id;
        lemma_turn_place(turns, first, 0);
        match turn_with_message(turns, first, 0) {
            Some(place) => {
                lemma_first_gone(m.state, thread_id, turns[place].id@);
                assert(turn_has_message(turns[place], first));
            },
            None => {},
        }
    }
}

proof fn lemma_thread_read(m: CoordinatorModel, outcome: Option<Seq<Turn>>, message_id: Seq<char>)
    requires
        m.wait matches Some(WaitModel::ResumingThread(_)),
        is_held(m.state, message_id),
    ensures
        is_held(thread_read(m, m.wait->0->ResumingThread_0, outcome).state, message_id) || (
        outcome is Some && some_turn_has(outcome->0, message_id)),
{
    let purpose = m.wait->0->ResumingThread_0;
    match purpose {
        ResumePurposeModel::Uncertain { thread_id } => lemma_looked_up(
            m,
            thread_id,
            outcome,
            message_id,
        ),
        ResumePurposeModel::Attach { .. } => {
            lemma_untouched(m.state, thread_read(m, purpose, outcome).state);
        },
        _ => {
            match outcome {
                Some(turns) => lemma_reconciled(m.state, turns, message_id),
                None => lemma_untouched(m.state, thread_read(m, purpose, outcome).state),
            }
        },
    }
}

proof fn lemma_start(m: CoordinatorModel)
    ensures
        keeps(m.state, m.starting().state),
{
    let cleared = StateModel {
        legacy_outbox: without_outages(m.state.legacy_outbox),
        ..m.state
    };
    lemma_untouched(m.state, m.state);
    lemma_untouched(m.state, cleared);
    lemma_first_changed(cleared, false);
}

pub proof fn lemma_expiry(m: CoordinatorModel, requests: Seq<PendingRequestModel>, now: u64)
    ensures
        m.expiring(requests, now).0.state == m.state,
        m.expiring(requests, now).0.previous_state == m.previous_state,
    decreases requests.len(),
{
    if requests.len() > 0 {
        lemma_expiry(m, requests.drop_last(), now);
    }
}

proof fn lemma_ticked(m: CoordinatorModel, now: u64)
    ensures
        keeps(m.state, m.ticked(now).state),
{
    lemma_expiry(m, m.pending_requests, now);
    lemma_untouched(m.state, m.ticked(now).state);
}

proof fn lemma_legacy_sent(m: CoordinatorModel, sent: Option<Seq<char>>, now: u64)
    requires
        m.wait matches Some(WaitModel::SendingLegacy { .. }),
    ensures
        keeps(
            m.state,
            m.legacy_settled(m.wait->0->SendingLegacy_delivered, sent, now).state,
        ),
{
    lemma_untouched(
        m.state,
        m.legacy_settled(m.wait->0->SendingLegacy_delivered, sent, now).state,
    );
}

proof fn lemma_resolved(m: CoordinatorModel, delivered: bool)
    requires
        can_happen(m, Step::Resolved(delivered)),
    ensures
        keeps(m.state, after_step(m, Step::Resolved(delivered)).state),
{
    lemma_untouched(m.state, after_step(m, Step::Resolved(delivered)).state);
}

proof fn lemma_others(m: CoordinatorModel, step: Step)
    requires
        can_happen(m, step),
        match step {
            Step::Reconnected => true,
            Step::Delivered(..) => true,
            Step::TransportChecked(_) => true,
            Step::ShutDown => true,
            Step::EffectsTaken => true,
            Step::ThreadsListed(_) => true,
            Step::Interrupted(_) => true,
            Step::CatalogLoaded(_) => true,
            _ => false,
        },
    ensures
        keeps(m.state, after_step(m, step).state),
{
    lemma_untouched(m.state, after_step(m, step).state);
}

/// No message is lost: what waits to be submitted still does so after every step,
/// unless that step gave it to Codex, found that Codex has it, or refused it because
/// it could not be saved.
pub proof fn messages_are_not_lost(m: CoordinatorModel, step: Step, message_id: Seq<char>)
    requires
        can_happen(m, step),
        is_held(m.state, message_id),
    ensures
        is_held(after_step(m, step).state, message_id) || gives_out(m, step, message_id),
{
    lemma_untouched(m.state, m.state);
    match step {
        Step::Inbound(message, now) => lemma_accepting(m, message, now),
        Step::Event(event, token, now) => lemma_evented(m, event, token, now),
        Step::Advance => lemma_advanced(m),
        Step::Saved(saved) => {
            let next = m.wait->0->Saving_0;
            let resting = m.resting();
            if !(next is Accepted) {
                lemma_saved(resting, next, saved);
            } else if saved {
                let settled = CoordinatorModel { previous_state: None, accepted: None, ..resting };
                let confirmed = settled.doing(EffectModel::Accepted(true));
                match m.accepted {
                    Some(action) => lemma_acting(confirmed, action),
                    None => {},
                }
            }
        },
        Step::ThreadStarted(outcome) => lemma_thread_started(m, outcome),
        Step::ThreadResumed(outcome) => lemma_thread_read(m, outcome, message_id),
        Step::TurnStarted(outcome) => lemma_turn_started(m, outcome, message_id),
        Step::Steered(outcome) => lemma_steered(m, outcome, message_id),
        Step::Start => lemma_start(m),
        Step::Tick(now) => lemma_ticked(m, now),
        Step::LegacySent(sent, now) => lemma_legacy_sent(m, sent, now),
        Step::Resolved(delivered) => lemma_resolved(m, delivered),
        _ => lemma_others(m, step),
    }
}

} // verus!
