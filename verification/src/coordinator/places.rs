//! A message waits in one place: for the running turn, or in the queue.

use crate::notifications::AppServerEvent;
use crate::protocol::ServerNotification;
use crate::protocol::Turn;
use crate::state::BindingModel;
use crate::state::StateModel;
use crate::state::SteerModel;
use crate::transport_webhook::InboundMessage;
use super::custody::is_held;
use super::custody::lemma_expiry;
use super::custody::lemma_steer_place;
use super::inbound::noting;
use super::inbound::placed;
use super::laws::is_pending;
use super::laws::is_queued;
use super::lifecycle::without_outages;
use super::model::AcceptedModel;
use super::model::AfterSaveModel;
use super::model::BindPurpose;
use super::model::CoordinatorModel;
use super::model::EffectModel;
use super::model::ResumePurposeModel;
use super::model::TaskModel;
use super::model::WaitModel;
use super::prompts::first_dropped;
use super::prompts::first_marked;
use super::prompts::first_notified;
use super::prompts::first_running;
use super::prompts::turn_with_message;
use super::steering::all_requeued;
use super::steering::requeued;
use super::steering::retargeted;
use super::steering::steer_dropped;
use super::steering::steer_marked;
use super::steering::steers_reconciled;
use super::steering::without_message;
use super::steering::Refusal;
use super::steps::after_step;
use super::steps::can_happen;
use super::steps::thread_read;
use super::steps::Step;
use vstd::prelude::*;

verus! {

/// Whether no message both is pending for a turn and stands in the queue.
pub open spec fn is_apart(state: StateModel) -> bool {
    forall|message_id: Seq<char>|
        !(#[trigger] is_pending(state, message_id) && is_queued(state, message_id))
}

/// Whether that holds of a coordinator, also of what it may go back to.
pub open spec fn keeps_apart(m: CoordinatorModel) -> bool {
    is_apart(m.state) && (m.previous_state matches Some(state) ==> is_apart(state))
}

/// Whether a step brings no message under an identity that another message waits with.
pub open spec fn brings_new(m: CoordinatorModel, step: Step) -> bool {
    step matches Step::Inbound(message, _) ==> !is_held(m.state, message.message_id@)
}

/// A change that brings no message into both places: nothing becomes pending, and what
/// comes into the queue is not pending.
spec fn moves(before: StateModel, after: StateModel) -> bool {
    forall|message_id: Seq<char>| #[trigger] moves_one(before, after, message_id)
}

spec fn moves_one(before: StateModel, after: StateModel, message_id: Seq<char>) -> bool {
    &&& is_pending(after, message_id) ==> is_pending(before, message_id)
    &&& is_queued(after, message_id) ==> is_queued(before, message_id) || !is_pending(
        after,
        message_id,
    )
}

proof fn lemma_moves_apart(before: StateModel, after: StateModel)
    requires
        is_apart(before),
        moves(before, after),
    ensures
        is_apart(after),
{
    assert forall|message_id: Seq<char>|
        !(#[trigger] is_pending(after, message_id) && is_queued(after, message_id)) by {
        assert(moves_one(before, after, message_id));
        assert(!(is_pending(before, message_id) && is_queued(before, message_id)));
    }
}

proof fn lemma_moves_add_up(before: StateModel, middle: StateModel, after: StateModel)
    requires
        moves(before, middle),
        moves(middle, after),
    ensures
        moves(before, after),
{
    assert forall|message_id: Seq<char>| #[trigger] moves_one(before, after, message_id) by {
        assert(moves_one(before, middle, message_id));
        assert(moves_one(middle, after, message_id));
    }
}

proof fn lemma_untouched(before: StateModel, after: StateModel)
    requires
        after.queued_prompts == before.queued_prompts,
        after.pending_steers == before.pending_steers,
    ensures
        moves(before, after),
{
}

proof fn lemma_first_changed(state: StateModel, uncertain: bool)
    ensures
        moves(state, first_marked(state, uncertain)),
        moves(state, first_notified(state)),
{
    let marked = first_marked(state, uncertain);
    let notified = first_notified(state);
    assert forall|message_id: Seq<char>| is_queued(marked, message_id) implies is_queued(
        state,
        message_id,
    ) by {
        let i = choose|i: int|
            0 <= i < marked.queued_prompts.len() && (
            #[trigger] marked.queued_prompts[i]).message_id == message_id;
        assert(state.queued_prompts[i].message_id == message_id);
    }
    assert forall|message_id: Seq<char>| is_queued(notified, message_id) implies is_queued(
        state,
        message_id,
    ) by {
        let i = choose|i: int|
            0 <= i < notified.queued_prompts.len() && (
            #[trigger] notified.queued_prompts[i]).message_id == message_id;
        assert(state.queued_prompts[i].message_id == message_id);
    }
    assert(marked.pending_steers == state.pending_steers);
    assert(notified.pending_steers == state.pending_steers);
}

proof fn lemma_first_gone(state: StateModel, thread_id: Seq<char>, turn_id: Seq<char>)
    ensures
        moves(state, first_running(state, thread_id, turn_id)),
        moves(state, first_dropped(state)),
{
    let running = first_running(state, thread_id, turn_id);
    let dropped = first_dropped(state);
    assert(running.queued_prompts == dropped.queued_prompts);
    assert forall|message_id: Seq<char>| is_queued(dropped, message_id) implies is_queued(
        state,
        message_id,
    ) by {
        let i = choose|i: int|
            0 <= i < dropped.queued_prompts.len() && (
            #[trigger] dropped.queued_prompts[i]).message_id == message_id;
        if state.queued_prompts.len() > 0 {
            assert(state.queued_prompts[i + 1].message_id == message_id);
        }
    }
    assert forall|message_id: Seq<char>| is_queued(running, message_id) implies is_queued(
        state,
        message_id,
    ) by {
        let i = choose|i: int|
            0 <= i < running.queued_prompts.len() && (
            #[trigger] running.queued_prompts[i]).message_id == message_id;
        assert(dropped.queued_prompts[i].message_id == message_id);
        assert(is_queued(dropped, message_id));
    }
}

proof fn lemma_without(steers: Seq<SteerModel>, gone: Seq<char>, at: int)
    requires
        0 <= at < without_message(steers, gone).len(),
    ensures
        without_message(steers, gone)[at].message_id != gone,
        exists|i: int|
            0 <= i < steers.len() && #[trigger] steers[i] == without_message(steers, gone)[at],
    decreases steers.len(),
{
    if steers.len() > 0 {
        let shorter = steers.drop_last();
        let earlier = without_message(shorter, gone);
        if at < earlier.len() {
            lemma_without(shorter, gone, at);
            let i = choose|i: int| 0 <= i < shorter.len() && #[trigger] shorter[i] == earlier[at];
            assert(steers[i] == earlier[at]);
        } else {
            assert(steers[steers.len() - 1] == without_message(steers, gone)[at]);
        }
    }
}

proof fn lemma_dropped(state: StateModel, gone: Seq<char>)
    ensures
        moves(state, steer_dropped(state, gone)),
        !is_pending(steer_dropped(state, gone), gone),
{
    let after = steer_dropped(state, gone);
    assert forall|message_id: Seq<char>| is_pending(after, message_id) implies is_pending(
        state,
        message_id,
    ) && message_id != gone by {
        let at = choose|at: int|
            0 <= at < after.pending_steers.len() && (
            #[trigger] after.pending_steers[at]).message_id == message_id;
        lemma_without(state.pending_steers, gone, at);
        let i = choose|i: int|
            0 <= i < state.pending_steers.len() && #[trigger] state.pending_steers[i]
                == after.pending_steers[at];
        assert(state.pending_steers[i].message_id == message_id);
    }
}

proof fn lemma_requeued(state: StateModel, steer: SteerModel)
    ensures
        moves(state, requeued(state, steer)),
{
    let dropped = steer_dropped(state, steer.message_id);
    let after = requeued(state, steer);
    lemma_dropped(state, steer.message_id);
    assert(after.pending_steers == dropped.pending_steers);
    assert forall|message_id: Seq<char>| #[trigger] moves_one(state, after, message_id) by {
        assert(moves_one(state, dropped, message_id));
        assert(is_pending(after, message_id) == is_pending(dropped, message_id));
        if is_queued(after, message_id) && message_id != steer.message_id {
            let i = choose|i: int|
                0 <= i < after.queued_prompts.len() && (
                #[trigger] after.queued_prompts[i]).message_id == message_id;
            assert(state.queued_prompts[i].message_id == message_id);
        }
    }
}

proof fn lemma_all_requeued(
    state: StateModel,
    steers: Seq<SteerModel>,
    thread_id: Seq<char>,
    turn_id: Seq<char>,
)
    ensures
        moves(state, all_requeued(state, steers, thread_id, turn_id)),
    decreases steers.len(),
{
    lemma_untouched(state, state);
    if steers.len() > 0 {
        let earlier = all_requeued(state, steers.drop_last(), thread_id, turn_id);
        lemma_all_requeued(state, steers.drop_last(), thread_id, turn_id);
        lemma_requeued(earlier, steers.last());
        lemma_moves_add_up(state, earlier, requeued(earlier, steers.last()));
    }
}

proof fn lemma_reconciled(state: StateModel, steers: Seq<SteerModel>, turns: Seq<Turn>)
    ensures
        moves(state, steers_reconciled(state, steers, turns).0),
    decreases steers.len(),
{
    lemma_untouched(state, state);
    if steers.len() > 0 {
        let earlier = steers_reconciled(state, steers.drop_last(), turns).0;
        let steer = steers.last();
        lemma_reconciled(state, steers.drop_last(), turns);
        lemma_requeued(earlier, steer);
        lemma_dropped(earlier, steer.message_id);
        lemma_moves_add_up(state, earlier, requeued(earlier, steer));
        lemma_moves_add_up(state, earlier, steer_dropped(earlier, steer.message_id));
    }
}

proof fn lemma_steer_changed(state: StateModel, changed: Seq<char>, turn_id: Seq<char>)
    ensures
        moves(state, steer_marked(state, changed)),
        moves(state, retargeted(state, changed, turn_id)),
{
    lemma_steer_place(state.pending_steers, changed, 0);
    let marked = steer_marked(state, changed);
    let moved = retargeted(state, changed, turn_id);
    assert forall|message_id: Seq<char>| is_pending(marked, message_id) implies is_pending(
        state,
        message_id,
    ) by {
        let i = choose|i: int|
            0 <= i < marked.pending_steers.len() && (
            #[trigger] marked.pending_steers[i]).message_id == message_id;
        assert(state.pending_steers[i].message_id == message_id);
    }
    assert forall|message_id: Seq<char>| is_pending(moved, message_id) implies is_pending(
        state,
        message_id,
    ) by {
        let i = choose|i: int|
            0 <= i < moved.pending_steers.len() && (
            #[trigger] moved.pending_steers[i]).message_id == message_id;
        assert(state.pending_steers[i].message_id == message_id);
    }
    assert(marked.queued_prompts == state.queued_prompts);
    assert(moved.queued_prompts == state.queued_prompts);
}

proof fn lemma_prompting(m: CoordinatorModel)
    ensures
        moves(m.state, m.prompting().state),
        moves(m.state, m.advancing().state),
        moves(m.state, m.going_on().state),
{
    lemma_first_changed(m.state, true);
    lemma_untouched(m.state, m.state);
}

proof fn lemma_steering(m: CoordinatorModel, steer: SteerModel)
    ensures
        moves(m.state, m.steering(steer).state),
{
    lemma_steer_changed(m.state, steer.message_id, steer.expected_turn_id);
    lemma_requeued(m.state, steer);
}

proof fn lemma_acting(m: CoordinatorModel, action: AcceptedModel)
    ensures
        moves(m.state, m.acting(action).state),
        m.acting(action).previous_state == m.previous_state,
{
    lemma_untouched(m.state, m.state);
    match action {
        AcceptedModel::StartQueuedPrompt => lemma_prompting(m),
        AcceptedModel::Steer(steer) => lemma_steering(m, steer),
        AcceptedModel::Command(command) => {
            assert(m.commanded(command).state == m.state);
            assert(m.commanded(command).previous_state == m.previous_state);
        },
        _ => {},
    }
}

proof fn lemma_accepting(m: CoordinatorModel, message: InboundMessage, now: u64)
    requires
        keeps_apart(m),
        !is_held(m.state, message.message_id@),
    ensures
        keeps_apart(m.accepting(message, now)),
{
    let state = noting(m, message, now);
    let after = placed(m, state, message, now).0;
    lemma_untouched(m.state, state);
    lemma_moves_apart(m.state, state);
    assert forall|message_id: Seq<char>|
        !(#[trigger] is_pending(after, message_id) && is_queued(after, message_id)) by {
        if is_pending(after, message_id) && is_queued(after, message_id) {
            let i = choose|i: int|
                0 <= i < after.pending_steers.len() && (
                #[trigger] after.pending_steers[i]).message_id == message_id;
            let j = choose|j: int|
                0 <= j < after.queued_prompts.len() && (
                #[trigger] after.queued_prompts[j]).message_id == message_id;
            if i < state.pending_steers.len() {
                assert(m.state.pending_steers[i].message_id == message_id);
                assert(is_pending(m.state, message_id));
            } else {
                assert(message_id == message.message_id@);
            }
            if j < state.queued_prompts.len() {
                assert(m.state.queued_prompts[j].message_id == message_id);
                assert(is_queued(m.state, message_id));
            } else {
                assert(message_id == message.message_id@);
            }
        }
    }
}

proof fn lemma_completing(m: CoordinatorModel, thread_id: Seq<char>, turn: Turn)
    ensures
        moves(m.state, m.completing(thread_id, turn).state),
        m.completing(thread_id, turn).previous_state == m.previous_state,
{
    let closed = m.concluding(thread_id, turn).releasing();
    assert(closed.state == m.state);
    assert(closed.previous_state == m.previous_state);
    let middle = all_requeued(m.state, m.state.pending_steers, thread_id, turn.id@);
    lemma_all_requeued(m.state, m.state.pending_steers, thread_id, turn.id@);
    let after = m.completing(thread_id, turn).state;
    lemma_untouched(middle, after);
    lemma_moves_add_up(m.state, middle, after);
}

proof fn lemma_notified(m: CoordinatorModel, notification: ServerNotification)
    ensures
        moves(m.state, m.notified(notification).state),
        m.notified(notification).previous_state == m.previous_state,
{
    lemma_untouched(m.state, m.state);
    match notification {
        ServerNotification::TurnCompleted(n) => lemma_completing(m, n.thread_id@, n.turn),
        _ => {
            assert(m.notified(notification).state == m.state);
        },
    }
}

proof fn lemma_evented(m: CoordinatorModel, event: AppServerEvent, token: Seq<char>, now: u64)
    ensures
        moves(m.state, m.evented(event, token, now).state),
        m.evented(event, token, now).previous_state == m.previous_state,
{
    lemma_untouched(m.state, m.state);
    let later = m.then_doing(TaskModel::GoOn);
    match event {
        AppServerEvent::ServerNotification(notification) => lemma_notified(later, notification),
        AppServerEvent::ServerRequest(request) => {
            assert(later.requested(request, token, now).state == m.state);
        },
        _ => {},
    }
}

proof fn lemma_active_resumed(m: CoordinatorModel, turns: Seq<Turn>, reconnect: bool)
    ensures
        moves(m.state, m.active_resumed(turns, reconnect).state),
        m.active_resumed(turns, reconnect).previous_state == m.previous_state,
{
    lemma_untouched(m.state, m.active_resumed(turns, reconnect).state);
}

proof fn lemma_advanced(m: CoordinatorModel)
    ensures
        moves(m.state, m.advanced().state),
        m.advanced().previous_state == m.previous_state,
{
    lemma_untouched(m.state, m.state);
    if m.tasks.len() > 0 {
        let rest = CoordinatorModel { tasks: m.tasks.drop_last(), ..m };
        match m.tasks.last() {
            TaskModel::StartNextPrompt => lemma_prompting(rest),
            TaskModel::AdvanceQueue => lemma_prompting(rest),
            TaskModel::GoOn => lemma_prompting(rest),
            TaskModel::SubmitSteer(steer) => lemma_steering(rest, steer),
            TaskModel::ResumeActive { turns, reconnect } => lemma_active_resumed(
                rest,
                turns,
                reconnect,
            ),
            _ => {},
        }
    }
}

proof fn lemma_bound(
    m: CoordinatorModel,
    previous: Option<BindingModel>,
    thread_id: Seq<char>,
    purpose: BindPurpose,
    saved: bool,
)
    ensures
        moves(m.state, m.bound(previous, thread_id, purpose, saved).state),
        m.bound(previous, thread_id, purpose, saved).previous_state == m.previous_state,
{
    lemma_first_changed(m.state, true);
    lemma_untouched(m.state, m.state);
    lemma_untouched(m.state, StateModel { binding: previous, ..m.state });
}

proof fn lemma_concluding(m: CoordinatorModel, thread_id: Seq<char>, turn: Turn)
    ensures
        m.concluding(thread_id, turn).state == m.state,
        m.concluding(thread_id, turn).previous_state == m.previous_state,
{
}

proof fn lemma_turn_recovered(
    m: CoordinatorModel,
    thread_id: Seq<char>,
    turn: Option<Turn>,
    reconnect: bool,
    saved: bool,
)
    ensures
        m.turn_recovered(thread_id, turn, reconnect, saved).state == m.state,
        m.turn_recovered(thread_id, turn, reconnect, saved).previous_state == m.previous_state,
{
    match turn {
        Some(turn) => lemma_concluding(m, thread_id, turn),
        None => {},
    }
}

proof fn lemma_uncertain_finished(
    m: CoordinatorModel,
    thread_id: Seq<char>,
    turn: Turn,
    saved: bool,
)
    ensures
        m.uncertain_finished(thread_id, turn, saved).state == m.state,
        m.uncertain_finished(thread_id, turn, saved).previous_state == m.previous_state,
{
    lemma_concluding(m, thread_id, turn);
}

proof fn lemma_saved_plainly(m: CoordinatorModel, next: AfterSaveModel, saved: bool)
    requires
        !(next is Accepted),
        !(next is Bound),
        !(next is TurnRecovered),
        !(next is UncertainFinished),
    ensures
        m.saved_as(next, saved).state == m.state,
        m.saved_as(next, saved).previous_state == m.previous_state,
{
}

proof fn lemma_saved_otherwise(m: CoordinatorModel, next: AfterSaveModel, saved: bool)
    requires
        !(next is Accepted),
        !(next is Bound),
    ensures
        m.saved_as(next, saved).state == m.state,
        m.saved_as(next, saved).previous_state == m.previous_state,
{
    match next {
        AfterSaveModel::TurnRecovered { thread_id, turn, reconnect } => lemma_turn_recovered(
            m,
            thread_id,
            turn,
            reconnect,
            saved,
        ),
        AfterSaveModel::UncertainFinished { thread_id, turn } => lemma_uncertain_finished(
            m,
            thread_id,
            turn,
            saved,
        ),
        _ => lemma_saved_plainly(m, next, saved),
    }
}

proof fn lemma_saved(m: CoordinatorModel, next: AfterSaveModel, saved: bool)
    requires
        !(next is Accepted),
    ensures
        moves(m.state, m.saved_as(next, saved).state),
        m.saved_as(next, saved).previous_state == m.previous_state,
{
    match next {
        AfterSaveModel::Bound { previous, thread_id, purpose } => {
            lemma_bound(m, previous, thread_id, purpose, saved);
        },
        _ => {
            lemma_saved_otherwise(m, next, saved);
            lemma_untouched(m.state, m.state);
        },
    }
}

proof fn lemma_thread_started(m: CoordinatorModel, outcome: Option<Seq<char>>)
    requires
        m.wait matches Some(WaitModel::StartingThread(_)),
    ensures
        moves(m.state, after_step(m, Step::ThreadStarted(outcome)).state),
{
    let after = m.thread_started(m.wait->0->StartingThread_0, outcome).state;
    lemma_first_changed(m.state, true);
    lemma_untouched(m.state, m.state);
    match outcome {
        Some(_) => lemma_untouched(m.state, after),
        None => {},
    }
}

proof fn lemma_turn_started(m: CoordinatorModel, outcome: Option<Seq<char>>)
    requires
        m.wait matches Some(WaitModel::StartingTurn { .. }),
    ensures
        moves(m.state, after_step(m, Step::TurnStarted(outcome)).state),
{
    lemma_untouched(m.state, m.state);
    match outcome {
        Some(turn_id) => lemma_first_gone(
            m.state,
            m.wait->0->StartingTurn_thread_id,
            turn_id,
        ),
        None => {},
    }
}

proof fn lemma_steered(m: CoordinatorModel, outcome: Option<Refusal>)
    requires
        m.wait matches Some(WaitModel::Steering { .. }),
    ensures
        moves(m.state, after_step(m, Step::Steered(outcome)).state),
{
    let steer = m.wait->0->Steering_steer;
    let after = after_step(m, Step::Steered(outcome)).state;
    lemma_untouched(m.state, m.state);
    match outcome {
        None => {
            let dropped = steer_dropped(m.state, steer.message_id);
            lemma_dropped(m.state, steer.message_id);
            lemma_untouched(dropped, after);
            lemma_moves_add_up(m.state, dropped, after);
        },
        Some(Refusal::NoActiveTurn) => {
            let idle = StateModel { active_turn: None, ..m.state };
            lemma_untouched(m.state, idle);
            lemma_requeued(idle, steer);
            lemma_moves_add_up(m.state, idle, after);
        },
        Some(Refusal::OtherTurn(turn_id)) => {
            lemma_steer_changed(m.state, steer.message_id, turn_id);
            lemma_requeued(m.state, steer);
        },
        _ => lemma_requeued(m.state, steer),
    }
}

proof fn lemma_thread_read(m: CoordinatorModel, outcome: Option<Seq<Turn>>)
    requires
        m.wait matches Some(WaitModel::ResumingThread(_)),
    ensures
        moves(m.state, thread_read(m, m.wait->0->ResumingThread_0, outcome).state),
{
    let purpose = m.wait->0->ResumingThread_0;
    let after = thread_read(m, purpose, outcome).state;
    lemma_untouched(m.state, m.state);
    match purpose {
        ResumePurposeModel::Uncertain { thread_id } => {
            lemma_first_changed(m.state, false);
            match outcome {
                Some(turns) => {
                    let found = turn_with_message(
                        turns,
                        m.state.queued_prompts[0].message_id,
                        0,
                    );
                    lemma_first_gone(m.state, thread_id, turns[found->0].id@);
                },
                None => {},
            }
        },
        ResumePurposeModel::Attach { .. } => lemma_untouched(m.state, after),
        _ => match outcome {
            Some(turns) => lemma_reconciled(m.state, m.state.pending_steers, turns),
            None => lemma_untouched(m.state, after),
        },
    }
}

proof fn lemma_start(m: CoordinatorModel)
    ensures
        moves(m.state, m.starting().state),
{
    let cleared = StateModel {
        legacy_outbox: without_outages(m.state.legacy_outbox),
        ..m.state
    };
    lemma_untouched(m.state, m.state);
    lemma_untouched(m.state, cleared);
    lemma_first_changed(cleared, false);
    lemma_moves_add_up(m.state, cleared, first_notified(cleared));
}

proof fn lemma_ticked(m: CoordinatorModel, now: u64)
    ensures
        moves(m.state, m.ticked(now).state),
        m.ticked(now).previous_state == m.previous_state,
{
    lemma_expiry(m, m.pending_requests, now);
    lemma_untouched(m.state, m.ticked(now).state);
}

proof fn lemma_legacy_sent(m: CoordinatorModel, sent: Option<Seq<char>>, now: u64)
    requires
        m.wait matches Some(WaitModel::SendingLegacy { .. }),
    ensures
        moves(m.state, after_step(m, Step::LegacySent(sent, now)).state),
{
    lemma_untouched(m.state, after_step(m, Step::LegacySent(sent, now)).state);
}

proof fn lemma_others(m: CoordinatorModel, step: Step)
    requires
        can_happen(m, step),
        match step {
            Step::Reconnected => true,
            Step::Delivered(..) => true,
            Step::TransportChecked(_) => true,
            Step::ShutDown => true,
            Step::EffectsTaken => true,
            Step::ThreadsListed(_) => true,
            Step::Interrupted(_) => true,
            Step::CatalogLoaded(_) => true,
            Step::Resolved(_) => true,
            _ => false,
        },
    ensures
        moves(m.state, after_step(m, step).state),
        after_step(m, step).previous_state == m.previous_state,
{
    lemma_untouched(m.state, after_step(m, step).state);
}

/// A message that waits to be submitted does so in one place: every step leaves no
/// message both pending for a turn and in the queue, unless a message arrives under an
/// identity that another one still waits with.
pub proof fn messages_wait_in_one_place(m: CoordinatorModel, step: Step)
    requires
        can_happen(m, step),
        keeps_apart(m),
        brings_new(m, step),
    ensures
        keeps_apart(after_step(m, step)),
{
    let after = after_step(m, step);
    match step {
        Step::Inbound(message, now) => {
            lemma_accepting(m, message, now);
        },
        Step::Saved(saved) => {
            let next = m.wait->0->Saving_0;
            let resting = m.resting();
            if !(next is Accepted) {
                lemma_saved(resting, next, saved);
                lemma_moves_apart(m.state, after.state);
            } else if saved {
                let settled = CoordinatorModel { previous_state: None, accepted: None, ..resting };
                let confirmed = settled.doing(EffectModel::Accepted(true));
                match m.accepted {
                    Some(action) => {
                        lemma_acting(confirmed, action);
                        lemma_moves_apart(m.state, after.state);
                    },
                    None => {},
                }
            }
        },
        _ => {
            lemma_step_moves(m, step);
            lemma_moves_apart(m.state, after.state);
        },
    }
}

proof fn lemma_step_moves(m: CoordinatorModel, step: Step)
    requires
        can_happen(m, step),
        !(step is Inbound),
        !(step is Saved),
    ensures
        moves(m.state, after_step(m, step).state),
        after_step(m, step).previous_state == m.previous_state,
{
    match step {
        Step::Event(event, token, now) => lemma_evented(m, event, token, now),
        Step::Advance => lemma_advanced(m),
        Step::ThreadStarted(outcome) => lemma_thread_started(m, outcome),
        Step::ThreadResumed(outcome) => lemma_thread_read(m, outcome),
        Step::TurnStarted(outcome) => lemma_turn_started(m, outcome),
        Step::Steered(outcome) => lemma_steered(m, outcome),
        Step::Start => lemma_start(m),
        Step::Tick(now) => lemma_ticked(m, now),
        Step::LegacySent(sent, now) => lemma_legacy_sent(m, sent, now),
        _ => lemma_others(m, step),
    }
}

} // verus!
