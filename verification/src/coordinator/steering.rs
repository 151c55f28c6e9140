//! Messages for the running turn: submitting them, and putting them into the queue
//! where the turn does not take them.

use crate::attachment::InboundAttachment;
use crate::codex::named_turn;
use crate::codex::CodexError;
use crate::protocol::Turn;
use crate::protocol::TurnStatus;
use crate::state::copy_attachment;
use crate::state::prompt_models;
use crate::state::steer_models;
use crate::state::BridgeState;
use crate::state::PendingSteer;
use crate::state::PromptModel;
use crate::state::QueuedPrompt;
use crate::state::StateModel;
use crate::state::SteerModel;
use crate::state::TurnModel;
use crate::text::same_text;
use crate::text::texts;
use super::model::AfterRequeue;
use super::model::AfterSave;
use super::model::AfterSaveModel;
use super::model::Coordinator;
use super::model::CoordinatorModel;
use super::model::Task;
use super::model::TaskModel;
use super::model::Wait;
use super::model::WaitModel;
use super::prompts::files_of;
use super::prompts::has_message;
use super::prompts::turn_has_message;
use vstd::prelude::*;

verus! {

/// The steers with another message.
pub open spec fn without_message(steers: Seq<SteerModel>, message_id: Seq<char>) -> Seq<SteerModel>
    decreases steers.len(),
{
    if steers.len() == 0 {
        Seq::empty()
    } else {
        let earlier = without_message(steers.drop_last(), message_id);
        if steers.last().message_id == message_id {
            earlier
        } else {
            earlier.push(steers.last())
        }
    }
}

/// A steer as a prompt for a turn of its own.
pub open spec fn as_prompt(steer: SteerModel) -> PromptModel {
    PromptModel {
        idempotency_key: steer.idempotency_key,
        message_id: steer.message_id,
        body: steer.body,
        attachment: steer.attachment,
        accepted_at: steer.accepted_at,
        submission_uncertain: false,
        failure_notified: false,
    }
}

/// The state with a steer moved to the end of the queue.
pub open spec fn requeued(state: StateModel, steer: SteerModel) -> StateModel {
    StateModel {
        pending_steers: without_message(state.pending_steers, steer.message_id),
        queued_prompts: state.queued_prompts.push(as_prompt(steer)),
        ..state
    }
}

/// The state with a steer that Codex has accepted.
pub open spec fn steer_dropped(state: StateModel, message_id: Seq<char>) -> StateModel {
    StateModel { pending_steers: without_message(state.pending_steers, message_id), ..state }
}

/// The first steer from `from` on with the given message.
pub open spec fn steer_from(steers: Seq<SteerModel>, message_id: Seq<char>, from: int) -> Option<
    int,
>
    decreases steers.len() - from,
{
    if from < 0 || from >= steers.len() {
        None
    } else if steers[from].message_id == message_id {
        Some(from)
    } else {
        steer_from(steers, message_id, from + 1)
    }
}

/// The state with a steer marked as possibly received.
pub open spec fn steer_marked(state: StateModel, message_id: Seq<char>) -> StateModel {
    match steer_from(state.pending_steers, message_id, 0) {
        Some(index) => StateModel {
            pending_steers: state.pending_steers.update(
                index,
                SteerModel { submission_uncertain: true, ..state.pending_steers[index] },
            ),
            ..state
        },
        None => state,
    }
}

/// The state with a steer aimed at another turn, which is the running one.
pub open spec fn retargeted(state: StateModel, message_id: Seq<char>, turn_id: Seq<char>) ->
    StateModel {
    StateModel {
        pending_steers: match steer_from(state.pending_steers, message_id, 0) {
            Some(index) => state.pending_steers.update(
                index,
                SteerModel { expected_turn_id: turn_id, ..state.pending_steers[index] },
            ),
            None => state.pending_steers,
        },
        active_turn: match state.active_turn {
            Some(turn) => Some(TurnModel { codex_turn_id: turn_id, ..turn }),
            None => None,
        },
        ..state
    }
}

/// The state with the files of a steer kept for the running turn.
pub open spec fn with_files(state: StateModel, attachment: Option<InboundAttachment>) -> StateModel {
    StateModel {
        active_turn: match state.active_turn {
            Some(turn) => Some(
                TurnModel {
                    attachment_paths: turn.attachment_paths + files_of(attachment),
                    ..turn
                },
            ),
            None => None,
        },
        ..state
    }
}

/// Why a steer was not taken.
pub enum Refusal {
    NoActiveTurn,
    NotSteerable,
    Lost,
    OtherTurn(Seq<char>),
    Other,
}

/// Why a steer was not taken, by the error.
pub open spec fn refusal_of(error: CodexError) -> Refusal {
    match error {
        CodexError::Transport(_) => Refusal::Lost,
        CodexError::Server { message, not_steerable } => if message@
            == "no active turn to steer"@ {
            Refusal::NoActiveTurn
        } else if not_steerable {
            Refusal::NotSteerable
        } else {
            match named_turn(message@) {
                Some(turn_id) => Refusal::OtherTurn(turn_id),
                None => Refusal::Other,
            }
        },
    }
}

impl CoordinatorModel {
    /// The coordinator about to move a steer into the queue.
    pub open spec fn requeuing(self, steer: SteerModel, next: AfterRequeue) -> CoordinatorModel {
        self.with_state(requeued(self.state, steer)).saving(
            AfterSaveModel::SteerRequeued { next },
        )
    }

    /// The coordinator about to submit a steer: the attempt is saved before it is
    /// made. Where no turn runs, the message becomes a prompt.
    pub open spec fn steering(self, steer: SteerModel) -> CoordinatorModel {
        match self.state.active_turn {
            None => self.requeuing(steer, AfterRequeue::Nothing),
            Some(turn) => self.with_state(steer_marked(self.state, steer.message_id)).saving(
                AfterSaveModel::SteerMarked {
                    steer,
                    thread_id: turn.thread_id,
                    turn_id: steer.expected_turn_id,
                    retried: false,
                },
            ),
        }
    }

    /// The coordinator after a steer was taken, or not. One that was not taken for
    /// sure becomes a prompt; one whose fate is unknown stays pending; one that was
    /// aimed at another turn is aimed again, once.
    pub open spec fn steered(
        self,
        steer: SteerModel,
        thread_id: Seq<char>,
        retried: bool,
        outcome: Option<Refusal>,
    ) -> CoordinatorModel {
        let m = self.resting();
        match outcome {
            None => m.with_state(
                with_files(steer_dropped(m.state, steer.message_id), steer.attachment),
            ).saving(AfterSaveModel::SteerAccepted),
            Some(Refusal::NoActiveTurn) => m.with_state(
                StateModel { active_turn: None, ..m.state },
            ).requeuing(steer, AfterRequeue::StartNextPrompt),
            Some(Refusal::NotSteerable) => m.requeuing(steer, AfterRequeue::TellNotSteerable),
            Some(Refusal::Lost) => m.cut_off().telling(
                "[codex] Steer submission is uncertain; it will be reconciled after reconnecting."@,
            ),
            Some(Refusal::OtherTurn(turn_id)) => if retried {
                m.requeuing(steer, AfterRequeue::TellNotSteered)
            } else {
                m.with_state(retargeted(m.state, steer.message_id, turn_id)).saving(
                    AfterSaveModel::SteerMarked { steer, thread_id, turn_id, retried: true },
                )
            },
            Some(Refusal::Other) => m.requeuing(steer, AfterRequeue::TellNotSteered),
        }
    }

    /// The coordinator after the attempt to submit a steer was saved.
    pub open spec fn steer_prepared(
        self,
        steer: SteerModel,
        thread_id: Seq<char>,
        turn_id: Seq<char>,
        retried: bool,
        saved: bool,
    ) -> CoordinatorModel {
        if saved {
            self.awaiting(WaitModel::Steering { steer, thread_id, turn_id, retried })
        } else {
            self.unsaved()
        }
    }

    /// The coordinator after a steer was moved into the queue.
    pub open spec fn steer_requeued(self, next: AfterRequeue, saved: bool) -> CoordinatorModel {
        let m = if saved {
            self
        } else {
            self.unsaved()
        };
        match next {
            AfterRequeue::Nothing => m,
            AfterRequeue::StartNextPrompt => m.then_doing(TaskModel::StartNextPrompt),
            AfterRequeue::TellNotSteerable => m.telling(
                "[codex] This turn cannot be steered; your message was queued for the next turn."@,
            ),
            AfterRequeue::TellNotSteered => m.telling(
                "[codex] The message could not be steered; it was queued for the next turn."@,
            ),
        }
    }
}

impl BridgeState {
    /// Drops the steers with the given message.
    fn remove_pending_steer(&mut self, message_id: &str)
        ensures
            final(self)@ == steer_dropped(old(self)@, message_id@),
    {
        let mut kept: Vec<PendingSteer> = Vec::new();
        let ghost models = steer_models(self.pending_steers@);
        let mut index: usize = 0;
        assert(models.take(0) =~= Seq::<SteerModel>::empty());
        assert(steer_models(kept@) =~= Seq::<SteerModel>::empty());
        while index < self.pending_steers.len()
            invariant
                *self == *old(self),
                models == steer_models(self.pending_steers@),
                index <= self.pending_steers@.len(),
                steer_models(kept@) == without_message(models.take(index as int), message_id@),
            decreases self.pending_steers@.len() - index,
        {
            let steer = &self.pending_steers[index];
            proof {
                let longer = models.take(index + 1);
                assert(longer.drop_last() =~= models.take(index as int));
                assert(longer.last() == steer@);
            }
            if !same_text(steer.message_id.as_str(), message_id) {
                let ghost before = kept@;
                let copy = steer.clone();
                kept.push(copy);
                assert(steer_models(kept@) =~= steer_models(before).push(copy@));
            }
            index += 1;
        }
        assert(models.take(index as int) =~= models);
        self.pending_steers = kept;
    }

    /// Moves a steer to the end of the queue.
    pub fn requeue_steer(&mut self, steer: &PendingSteer)
        ensures
            final(self)@ == requeued(old(self)@, steer@),
    {
        self.remove_pending_steer(steer.message_id.as_str());
        let ghost before = self.queued_prompts@;
        let prompt = QueuedPrompt {
            idempotency_key: steer.idempotency_key.clone(),
            message_id: steer.message_id.clone(),
            body: steer.body.clone(),
            attachment: copy_attachment(&steer.attachment),
            accepted_at: steer.accepted_at,
            submission_uncertain: false,
            failure_notified: false,
        };
        let ghost model = prompt@;
        self.queued_prompts.push(prompt);
        assert(prompt_models(self.queued_prompts@) =~= prompt_models(before).push(model));
    }

    /// Where the first steer with the given message stands.
    fn steer_index(&self, message_id: &str) -> (found: Option<usize>)
        ensures
            match found {
                Some(index) => steer_from(self@.pending_steers, message_id@, 0) == Some(
                    index as int,
                ) && index < self.pending_steers@.len(),
                None => steer_from(self@.pending_steers, message_id@, 0) is None,
            },
    {
        let mut index: usize = 0;
        while index < self.pending_steers.len()
            invariant
                index <= self.pending_steers@.len(),
                steer_from(self@.pending_steers, message_id@, 0) == steer_from(
                    self@.pending_steers,
                    message_id@,
                    index as int,
                ),
            decreases self.pending_steers@.len() - index,
        {
            assert(self@.pending_steers[index as int] == self.pending_steers@[index as int]@);
            if same_text(self.pending_steers[index].message_id.as_str(), message_id) {
                return Some(index);
            }
            index += 1;
        }
        None
    }

    /// Marks a steer as possibly received.
    fn mark_steer(&mut self, message_id: &str)
        ensures
            final(self)@ == steer_marked(old(self)@, message_id@),
    {
        match self.steer_index(message_id) {
            Some(index) => {
                assert(self@.pending_steers[index as int] == self.pending_steers@[index as int]@);
                let mut steer = self.pending_steers[index].clone();
                steer.submission_uncertain = true;
                let ghost model = steer@;
                self.pending_steers.set(index, steer);
                assert(steer_models(self.pending_steers@) =~= steer_models(
                    old(self).pending_steers@,
                ).update(index as int, model));
            },
            None => {},
        }
    }

    /// Aims a steer at another turn, which is the running one.
    fn retarget(&mut self, message_id: &str, turn_id: &String)
        ensures
            final(self)@ == retargeted(old(self)@, message_id@, turn_id@),
    {
        match self.steer_index(message_id) {
            Some(index) => {
                assert(self@.pending_steers[index as int] == self.pending_steers@[index as int]@);
                let mut steer = self.pending_steers[index].clone();
                steer.expected_turn_id = turn_id.clone();
                let ghost model = steer@;
                self.pending_steers.set(index, steer);
                assert(steer_models(self.pending_steers@) =~= steer_models(
                    old(self).pending_steers@,
                ).update(index as int, model));
            },
            None => {},
        }
        match &self.active_turn {
            Some(turn) => {
                let mut changed = turn.clone();
                changed.codex_turn_id = turn_id.clone();
                self.active_turn = Some(changed);
            },
            None => {},
        }
    }

    /// Keeps the files of a steer for the running turn.
    fn keep_files(&mut self, attachment: &Option<InboundAttachment>)
        ensures
            final(self)@ == with_files(old(self)@, *attachment),
    {
        match &self.active_turn {
            Some(turn) => {
                let mut changed = turn.clone();
                let ghost before = texts(changed.attachment_paths@);
                match attachment {
                    Some(attachment) => match attachment.path() {
                        Some(path) => {
                            changed.attachment_paths.push(path.to_owned());
                        },
                        None => {},
                    },
                    None => {},
                }
                assert(texts(changed.attachment_paths@) =~= before + files_of(*attachment));
                self.active_turn = Some(changed);
            },
            None => {},
        }
    }
}

impl Coordinator {
    /// Moves a steer into the queue.
    fn queue_steer_for_next_turn(&mut self, steer: &PendingSteer, next: AfterRequeue)
        ensures
            final(self)@ == old(self)@.requeuing(steer@, next),
    {
        self.state.requeue_steer(steer);
        self.save_then(AfterSave::SteerRequeued { next });
    }

    /// Submits a steer.
    pub fn submit_steer(&mut self, steer: PendingSteer)
        ensures
            final(self)@ == old(self)@.steering(steer@),
    {
        let thread_id = match &self.state.active_turn {
            Some(turn) => turn.thread_id.clone(),
            None => {
                self.queue_steer_for_next_turn(&steer, AfterRequeue::Nothing);
                return;
            },
        };
        self.state.mark_steer(steer.message_id.as_str());
        let turn_id = steer.expected_turn_id.clone();
        self.save_then(AfterSave::SteerMarked { steer, thread_id, turn_id, retried: false });
    }

    /// Goes on after the attempt to submit a steer was saved, or not.
    pub fn after_steer_marked(
        &mut self,
        steer: PendingSteer,
        thread_id: String,
        turn_id: String,
        retried: bool,
        saved: bool,
    )
        ensures
            final(self)@ == old(self)@.steer_prepared(
                steer@,
                thread_id@,
                turn_id@,
                retried,
                saved,
            ),
    {
        if saved {
            self.wait = Some(Wait::Steering { steer, thread_id, turn_id, retried });
        } else {
            self.state_healthy = false;
        }
    }

    /// Goes on after a steer was moved into the queue.
    pub fn after_requeue(&mut self, next: AfterRequeue, saved: bool)
        ensures
            final(self)@ == old(self)@.steer_requeued(next, saved),
    {
        if !saved {
            self.state_healthy = false;
        }
        match next {
            AfterRequeue::Nothing => {},
            AfterRequeue::StartNextPrompt => self.push_task(Task::StartNextPrompt),
            AfterRequeue::TellNotSteerable => self.tell(
                "[codex] This turn cannot be steered; your message was queued for the next turn.",
            ),
            AfterRequeue::TellNotSteered => self.tell(
                "[codex] The message could not be steered; it was queued for the next turn.",
            ),
        }
    }

    /// Takes the outcome of submitting a steer.
    pub fn on_steered(&mut self, outcome: Result<(), CodexError>)
        requires
            old(self).wait matches Some(Wait::Steering { .. }),
        ensures
            ({
                let wait = old(self)@.wait->0;
                final(self)@ == old(self)@.steered(
                    wait->Steering_steer,
                    wait->Steering_thread_id,
                    wait->Steering_retried,
                    match outcome {
                        Ok(_) => None,
                        Err(error) => Some(refusal_of(error)),
                    },
                )
            }),
    {
        let mut wait: Option<Wait> = None;
        std::mem::swap(&mut wait, &mut self.wait);
        let (steer, thread_id, retried) = match wait {
            Some(Wait::Steering { steer, thread_id, retried, .. }) => (steer, thread_id, retried),
            _ => {
                return;
            },
        };
        let error = match outcome {
            Ok(_) => {
                self.state.remove_pending_steer(steer.message_id.as_str());
                self.state.keep_files(&steer.attachment);
                self.save_then(AfterSave::SteerAccepted);
                return;
            },
            Err(error) => error,
        };
        if error.is_no_active_turn() {
            self.state.active_turn = None;
            self.queue_steer_for_next_turn(&steer, AfterRequeue::StartNextPrompt);
            return;
        }
        if error.is_non_steerable() {
            self.queue_steer_for_next_turn(&steer, AfterRequeue::TellNotSteerable);
            return;
        }
        match &error {
            CodexError::Transport(_) => {
                self.app_server_connected = false;
                self.tell(
                    "[codex] Steer submission is uncertain; it will be reconciled after reconnecting.",
                );
                return;
            },
            CodexError::Server { .. } => {},
        }
        match error.actual_turn_id() {
            Some(turn_id) => {
                if retried {
                    self.queue_steer_for_next_turn(&steer, AfterRequeue::TellNotSteered);
                } else {
                    self.state.retarget(steer.message_id.as_str(), &turn_id);
                    self.save_then(
                        AfterSave::SteerMarked { steer, thread_id, turn_id, retried: true },
                    );
                }
            },
            None => self.queue_steer_for_next_turn(&steer, AfterRequeue::TellNotSteered),
        }
    }
}

/// Whether a steer is meant for a turn.
pub open spec fn is_meant_for(steer: SteerModel, thread_id: Seq<char>, turn_id: Seq<char>) -> bool {
    steer.thread_id == thread_id && steer.expected_turn_id == turn_id
}

/// The state with the steers for an ended turn moved into the queue, in their
/// order.
pub open spec fn all_requeued(
    state: StateModel,
    steers: Seq<SteerModel>,
    thread_id: Seq<char>,
    turn_id: Seq<char>,
) -> StateModel
    decreases steers.len(),
{
    if steers.len() == 0 {
        state
    } else {
        let earlier = all_requeued(state, steers.drop_last(), thread_id, turn_id);
        if is_meant_for(steers.last(), thread_id, turn_id) {
            requeued(earlier, steers.last())
        } else {
            earlier
        }
    }
}

impl BridgeState {
    /// A copy of the pending steers.
    fn copy_steers(&self) -> (steers: Vec<PendingSteer>)
        ensures
            steer_models(steers@) == self@.pending_steers,
    {
        let steers = self.pending_steers.clone();
        assert(steers@ =~= self.pending_steers@);
        steers
    }

    /// Moves the steers for an ended turn into the queue, in their order.
    pub fn requeue_steers_for(&mut self, thread_id: &str, turn_id: &str)
        ensures
            final(self)@ == all_requeued(
                old(self)@,
                old(self)@.pending_steers,
                thread_id@,
                turn_id@,
            ),
    {
        let steers = self.copy_steers();
        let ghost models = self@.pending_steers;
        let mut index: usize = 0;
        assert(models.take(0) =~= Seq::<SteerModel>::empty());
        while index < steers.len()
            invariant
                index <= steers@.len(),
                models == steer_models(steers@),
                self@ == all_requeued(
                    old(self)@,
                    models.take(index as int),
                    thread_id@,
                    turn_id@,
                ),
            decreases steers@.len() - index,
        {
            let steer = &steers[index];
            proof {
                let longer = models.take(index + 1);
                assert(longer.drop_last() =~= models.take(index as int));
                assert(longer.last() == steer@);
            }
            if same_text(steer.thread_id.as_str(), thread_id) && same_text(
                steer.expected_turn_id.as_str(),
                turn_id,
            ) {
                self.requeue_steer(steer);
            }
            index += 1;
        }
        assert(models.take(index as int) =~= models);
    }
}

/// The first turn from `from` on with the given identity.
pub open spec fn turn_from(turns: Seq<Turn>, turn_id: Seq<char>, from: int) -> Option<int>
    decreases turns.len() - from,
{
    if from < 0 || from >= turns.len() {
        None
    } else if turns[from].id@ == turn_id {
        Some(from)
    } else {
        turn_from(turns, turn_id, from + 1)
    }
}

/// The first turn with the given identity.
pub fn find_turn(turns: &Vec<Turn>, turn_id: &str) -> (found: Option<usize>)
    ensures
        match found {
            Some(index) => turn_from(turns@, turn_id@, 0) == Some(index as int) && index
                < turns@.len(),
            None => turn_from(turns@, turn_id@, 0) is None,
        },
{
    let mut index: usize = 0;
    while index < turns.len()
        invariant
            index <= turns@.len(),
            turn_from(turns@, turn_id@, 0) == turn_from(turns@, turn_id@, index as int),
        decreases turns@.len() - index,
    {
        if same_text(turns[index].id.as_str(), turn_id) {
            return Some(index);
        }
        index += 1;
    }
    None
}

/// What the thread says of a pending steer.
pub enum SteerFate {
    Open,
    Received,
    Missed,
}

/// What the thread says of a pending steer: a turn that has its message received
/// it; one that has ended without it, or that the thread does not know and that is
/// not running, missed it.
pub open spec fn fate_of(state: StateModel, steer: SteerModel, turns: Seq<Turn>) -> SteerFate {
    match turn_from(turns, steer.expected_turn_id, 0) {
        Some(index) => if turn_has_message(turns[index], steer.message_id) {
            SteerFate::Received
        } else if turns[index].status is InProgress {
            SteerFate::Open
        } else {
            SteerFate::Missed
        },
        None => if state.active_turn matches Some(turn) && is_meant_for(
            steer,
            turn.thread_id,
            turn.codex_turn_id,
        ) {
            SteerFate::Open
        } else {
            SteerFate::Missed
        },
    }
}

/// The state after pending steers were compared with the thread, and whether it
/// changed.
pub open spec fn steers_reconciled(
    state: StateModel,
    steers: Seq<SteerModel>,
    turns: Seq<Turn>,
) -> (StateModel, bool)
    decreases steers.len(),
{
    if steers.len() == 0 {
        (state, false)
    } else {
        let (earlier, changed) = steers_reconciled(state, steers.drop_last(), turns);
        let steer = steers.last();
        match fate_of(earlier, steer, turns) {
            SteerFate::Open => (earlier, changed),
            SteerFate::Received => (steer_dropped(earlier, steer.message_id), true),
            SteerFate::Missed => (requeued(earlier, steer), true),
        }
    }
}

impl BridgeState {
    /// Compares the pending steers with the thread. Returns whether anything
    /// changed.
    pub fn reconcile_steers(&mut self, turns: &Vec<Turn>) -> (changed: bool)
        ensures
            (final(self)@, changed) == steers_reconciled(
                old(self)@,
                old(self)@.pending_steers,
                turns@,
            ),
    {
        let steers = self.copy_steers();
        let ghost models = self@.pending_steers;
        let mut changed = false;
        let mut index: usize = 0;
        assert(models.take(0) =~= Seq::<SteerModel>::empty());
        while index < steers.len()
            invariant
                index <= steers@.len(),
                models == steer_models(steers@),
                (self@, changed) == steers_reconciled(
                    old(self)@,
                    models.take(index as int),
                    turns@,
                ),
            decreases steers@.len() - index,
        {
            let steer = &steers[index];
            proof {
                let longer = models.take(index + 1);
                assert(longer.drop_last() =~= models.take(index as int));
                assert(longer.last() == steer@);
            }
            match find_turn(turns, steer.expected_turn_id.as_str()) {
                Some(at) => {
                    if has_message(&turns[at], steer.message_id.as_str()) {
                        self.remove_pending_steer(steer.message_id.as_str());
                        changed = true;
                    } else if turns[at].status != TurnStatus::InProgress {
                        self.requeue_steer(steer);
                        changed = true;
                    }
                },
                None => {
                    let running = match &self.active_turn {
                        Some(turn) => same_text(
                            turn.thread_id.as_str(),
                            steer.thread_id.as_str(),
                        ) && same_text(
                            turn.codex_turn_id.as_str(),
                            steer.expected_turn_id.as_str(),
                        ),
                        None => false,
                    };
                    if !running {
                        self.requeue_steer(steer);
                        changed = true;
                    }
                },
            }
            index += 1;
        }
        assert(models.take(index as int) =~= models);
        changed
    }
}

/// The tasks that submit the steers for a turn again, the first last.
pub open spec fn retries(steers: Seq<SteerModel>, thread_id: Seq<char>, turn_id: Seq<char>) -> Seq<
    TaskModel,
>
    decreases steers.len(),
{
    if steers.len() == 0 {
        Seq::empty()
    } else {
        let later = retries(steers.skip(1), thread_id, turn_id);
        if is_meant_for(steers[0], thread_id, turn_id) {
            later.push(TaskModel::SubmitSteer(steers[0]))
        } else {
            later
        }
    }
}

impl CoordinatorModel {
    /// The coordinator about to submit again what is pending for the running turn,
    /// in the order of arrival.
    pub open spec fn retrying(self) -> CoordinatorModel {
        match self.state.active_turn {
            Some(turn) => CoordinatorModel {
                tasks: self.tasks + retries(
                    self.state.pending_steers,
                    turn.thread_id,
                    turn.codex_turn_id,
                ),
                ..self
            },
            None => self,
        }
    }
}

impl Coordinator {
    /// Submits again what is pending for the running turn.
    pub fn retry_pending_steers(&mut self)
        ensures
            final(self)@ == old(self)@.retrying(),
    {
        let (thread_id, turn_id) = match &self.state.active_turn {
            Some(turn) => (turn.thread_id.clone(), turn.codex_turn_id.clone()),
            None => {
                return;
            },
        };
        let steers = self.state.copy_steers();
        let ghost models = self@.state.pending_steers;
        let mut index: usize = steers.len();
        assert(models.skip(index as int) =~= Seq::<SteerModel>::empty());
        assert(self@.tasks =~= self@.tasks + retries(
            models.skip(index as int),
            thread_id@,
            turn_id@,
        ));
        while index > 0
            invariant
                index <= steers@.len(),
                models == steer_models(steers@),
                self@ == (CoordinatorModel {
                    tasks: old(self)@.tasks + retries(
                        models.skip(index as int),
                        thread_id@,
                        turn_id@,
                    ),
                    ..old(self)@
                }),
            decreases index,
        {
            index -= 1;
            let steer = &steers[index];
            let ghost before = self@.tasks;
            proof {
                let longer = models.skip(index as int);
                assert(longer.skip(1) =~= models.skip(index + 1));
                assert(longer[0] == steer@);
            }
            if same_text(steer.thread_id.as_str(), thread_id.as_str()) && same_text(
                steer.expected_turn_id.as_str(),
                turn_id.as_str(),
            ) {
                self.push_task(Task::SubmitSteer(steer.clone()));
                assert(self@.tasks =~= old(self)@.tasks + retries(
                    models.skip(index as int),
                    thread_id@,
                    turn_id@,
                ));
            }
        }
        assert(models.skip(0) =~= models);
    }
}

} // verus!
