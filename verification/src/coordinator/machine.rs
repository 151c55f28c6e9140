//! The machine: what is to be done next, and how its outcome is taken.
//!
//! The owner of a `Coordinator` performs the `Effect`s that it has gathered and
//! the `Action` that it names, and hands back the outcome; while the action is
//! `Proceed`, it calls `advance`.

use crate::attachment::inputs_for;
use crate::attachment::user_inputs;
use crate::protocol::Turn;
use crate::state::copy_attachment;
use super::model::answer_models;
use super::model::effect_models;
use super::model::task_models;
use super::model::Action;
use super::model::ActionModel;
use super::model::AfterSave;
use super::model::AfterSaveModel;
use super::model::Answer;
use super::model::Coordinator;
use super::model::CoordinatorModel;
use super::model::Effect;
use super::model::EffectModel;
use super::model::RequestResponse;
use super::model::ResponseModel;
use super::model::ResumePurpose;
use super::model::ResumePurposeModel;
use super::model::Task;
use super::model::TaskModel;
use super::model::Wait;
use super::model::WaitModel;
use super::notices::StatusKind;
use super::requests::request_with;
use super::resume::room_for_turns;
use vstd::prelude::*;

verus! {

impl CoordinatorModel {
    /// What is to be done next.
    pub open spec fn wanted(self) -> ActionModel {
        match self.wait {
            None => if self.tasks.len() == 0 {
                ActionModel::Rest
            } else {
                ActionModel::Proceed
            },
            Some(WaitModel::Saving(_)) => ActionModel::Save,
            Some(WaitModel::StartingThread(_)) => ActionModel::StartThread,
            Some(WaitModel::ResumingThread(purpose)) => ActionModel::ResumeThread {
                thread_id: match purpose {
                    ResumePurposeModel::Reconnect { thread_id } => thread_id,
                    ResumePurposeModel::Lagged { thread_id } => thread_id,
                    ResumePurposeModel::Attach { thread_id } => thread_id,
                    ResumePurposeModel::Uncertain { thread_id } => thread_id,
                },
            },
            Some(WaitModel::ListingThreads) => ActionModel::ListThreads,
            Some(WaitModel::StartingTurn { thread_id }) => if self.state.queued_prompts.len()
                == 0 {
                ActionModel::Rest
            } else {
                let prompt = self.state.queued_prompts[0];
                ActionModel::StartTurn {
                    thread_id,
                    message_id: prompt.message_id,
                    inputs: inputs_for(prompt.body, prompt.attachment),
                }
            },
            Some(WaitModel::Steering { steer, thread_id, turn_id, .. }) =>
                ActionModel::SteerTurn {
                thread_id,
                turn_id,
                message_id: steer.message_id,
                inputs: inputs_for(steer.body, steer.attachment),
            },
            Some(WaitModel::Interrupting { thread_id, turn_id }) => ActionModel::InterruptTurn {
                thread_id,
                turn_id,
            },
            Some(WaitModel::ResolvingApproval { request_id, decision, .. }) =>
                ActionModel::Resolve {
                request_id,
                response: ResponseModel::Approval(decision),
            },
            Some(WaitModel::ResolvingAnswers { token }) => match request_with(
                self.pending_requests,
                token,
                0,
            ) {
                Some(index) => ActionModel::Resolve {
                    request_id: self.pending_requests[index].request_id,
                    response: ResponseModel::Answers(self.pending_requests[index].answers),
                },
                None => ActionModel::Rest,
            },
            Some(WaitModel::LoadingCatalog) => ActionModel::LoadCatalog,
            Some(WaitModel::SendingLegacy { .. }) => if self.state.legacy_outbox.len() == 0 {
                ActionModel::Rest
            } else {
                ActionModel::SendLegacy {
                    chat_id: self.state.legacy_outbox[0].chat_id,
                    body: self.state.legacy_outbox[0].body,
                }
            },
        }
    }

    /// The coordinator after it was saved that a message was accepted, or not. The
    /// message is confirmed before anything is done for it; where it could not be
    /// saved, all is as before.
    pub open spec fn acceptance_saved(self, saved: bool) -> CoordinatorModel {
        let settled = CoordinatorModel { previous_state: None, accepted: None, ..self };
        if saved {
            let confirmed = settled.doing(EffectModel::Accepted(true));
            match self.accepted {
                Some(action) => confirmed.acting(action),
                None => confirmed,
            }
        } else {
            CoordinatorModel {
                state: match self.previous_state {
                    Some(state) => state,
                    None => self.state,
                },
                ..settled
            }.unsaved().doing(EffectModel::Accepted(false))
        }
    }

    /// The coordinator after a finished prompt was taken out of the queue, or not.
    pub open spec fn uncertain_finished(
        self,
        thread_id: Seq<char>,
        turn: Turn,
        saved: bool,
    ) -> CoordinatorModel {
        if saved {
            let told = self.concluding(thread_id, turn);
            if told.state.queued_prompts.len() > 0 {
                told.then_doing(TaskModel::StartNextPrompt)
            } else {
                told
            }
        } else {
            self.unsaved()
        }
    }

    /// The coordinator after a save, or a failure to save.
    pub open spec fn saved_as(self, next: AfterSaveModel, saved: bool) -> CoordinatorModel {
        let kept = if saved {
            self
        } else {
            self.unsaved()
        };
        match next {
            AfterSaveModel::Accepted => self.acceptance_saved(saved),
            AfterSaveModel::Bound { previous, thread_id, purpose } => self.bound(
                previous,
                thread_id,
                purpose,
                saved,
            ),
            AfterSaveModel::Unavailable => kept.telling(
                "[codex] Codex app-server is unavailable; your prompt is queued and will retry automatically."@,
            ),
            AfterSaveModel::PromptMarked { thread_id } => self.prompt_marked(thread_id, saved),
            AfterSaveModel::TurnStarted => if saved {
                self.showing(StatusKind::Working)
            } else {
                kept
            },
            AfterSaveModel::SteerMarked { steer, thread_id, turn_id, retried } =>
                self.steer_prepared(steer, thread_id, turn_id, retried, saved),
            AfterSaveModel::SteerAccepted => self,
            AfterSaveModel::SteerRequeued { next } => self.steer_requeued(next, saved),
            AfterSaveModel::SteersReconciled => kept,
            AfterSaveModel::TurnRecovered { thread_id, turn, reconnect } => self.turn_recovered(
                thread_id,
                turn,
                reconnect,
                saved,
            ),
            AfterSaveModel::Orphaned { reconnect } => self.orphaned(reconnect, saved),
            AfterSaveModel::TurnFinished => self.turn_finished(saved),
            AfterSaveModel::UncertainFinished { thread_id, turn } => self.uncertain_finished(
                thread_id,
                turn,
                saved,
            ),
            AfterSaveModel::UncertainCleared => if saved {
                CoordinatorModel { app_server_connected: true, ..self }.then_doing(
                    TaskModel::StartNextPrompt,
                )
            } else {
                kept
            },
            AfterSaveModel::LegacySettled { sent } => if saved && sent {
                self.then_doing(TaskModel::FlushLegacy { delivered: true })
            } else {
                kept
            },
            AfterSaveModel::Recovered => if saved {
                CoordinatorModel { state_healthy: true, ..self }
            } else {
                self
            },
            AfterSaveModel::Nothing => kept,
        }
    }

    /// The coordinator about to send what its outbox holds.
    pub open spec fn flushing(self, delivered: bool) -> CoordinatorModel {
        if self.state.legacy_outbox.len() == 0 {
            self
        } else {
            self.awaiting(WaitModel::SendingLegacy { delivered })
        }
    }

    /// The coordinator about to go on with its queue, where it is connected and no
    /// turn runs.
    pub open spec fn going_on(self) -> CoordinatorModel {
        if self.app_server_connected && self.state.active_turn is None
            && self.state.queued_prompts.len() > 0 {
            self.advancing()
        } else {
            self
        }
    }

    /// The coordinator after it took up a task.
    pub open spec fn doing_task(self, task: TaskModel) -> CoordinatorModel {
        match task {
            TaskModel::StartNextPrompt => self.prompting(),
            TaskModel::AdvanceQueue => self.advancing(),
            TaskModel::SubmitSteer(steer) => self.steering(steer),
            TaskModel::RetrySteers => self.retrying(),
            TaskModel::ResumeActive { turns, reconnect } => self.active_resumed(turns, reconnect),
            TaskModel::FinishResume { resumed, reconnect } => self.resume_finished(
                resumed,
                reconnect,
            ),
            TaskModel::InterruptActive => self.interrupting(),
            TaskModel::FlushLegacy { delivered } => self.flushing(delivered),
            TaskModel::Resume { reconnect } => self.resuming(reconnect),
            TaskModel::Recover => self.saving(AfterSaveModel::Recovered),
            TaskModel::GoOn => self.going_on(),
        }
    }

    /// The coordinator after it took up its next task.
    pub open spec fn advanced(self) -> CoordinatorModel {
        if self.tasks.len() == 0 {
            self
        } else {
            CoordinatorModel { tasks: self.tasks.drop_last(), ..self }.doing_task(
                self.tasks.last(),
            )
        }
    }
}

/// Whether the projection can take up the turns that a task holds.
pub open spec fn room_for_task(next_revision: u64, task: Task) -> bool {
    task matches Task::ResumeActive { turns, .. } ==> room_for_turns(next_revision, turns@)
}

/// Whether the projection can take up the turn that a save is waited for.
pub open spec fn room_for_wait(next_revision: u64, wait: Option<Wait>) -> bool {
    match wait {
        Some(Wait::Saving(AfterSave::TurnRecovered { turn: Some(turn), .. })) => next_revision
            + turn.items@.len() <= u64::MAX,
        Some(Wait::Saving(AfterSave::UncertainFinished { turn, .. })) => next_revision
            + turn.items@.len() <= u64::MAX,
        _ => true,
    }
}

/// Whether the projection can take up one more turn.
fn fits(next_revision: u64, turn: &Turn) -> (room: bool)
    ensures
        room == (next_revision + turn.items@.len() <= u64::MAX),
{
    turn.items.len() as u64 <= u64::MAX - next_revision
}

impl Coordinator {
    /// Whether the numbering of transcript revisions has room for the next step.
    pub open spec fn can_go_on(self) -> bool {
        &&& room_for_wait(self.projector.next_revision, self.wait)
        &&& self.tasks@.len() > 0 ==> room_for_task(
            self.projector.next_revision,
            self.tasks@.last(),
        )
    }

    /// Whether the numbering of transcript revisions has room for the next step.
    pub fn has_room(&self) -> (room: bool)
        ensures
            room == self.can_go_on(),
    {
        let next: u64 = self.projector.next_revision;
        match &self.wait {
            Some(Wait::Saving(AfterSave::TurnRecovered { turn: Some(turn), .. })) => {
                if !fits(next, turn) {
                    return false;
                }
            },
            Some(Wait::Saving(AfterSave::UncertainFinished { turn, .. })) => {
                if !fits(next, turn) {
                    return false;
                }
            },
            _ => {},
        }
        if self.tasks.len() == 0 {
            return true;
        }
        match &self.tasks[self.tasks.len() - 1] {
            Task::ResumeActive { turns, .. } => {
                let mut index: usize = 0;
                while index < turns.len()
                    invariant
                        index <= turns@.len(),
                        next == self.projector.next_revision,
                        self.tasks@.len() > 0,
                        self.tasks@.last() matches Task::ResumeActive { turns: own, .. } && own
                            == *turns,
                        forall|i: int|
                            0 <= i < index ==> next + (#[trigger] turns@[i]).items@.len()
                                <= u64::MAX,
                    decreases turns@.len() - index,
                {
                    if !fits(next, &turns[index]) {
                        return false;
                    }
                    index += 1;
                }
                true
            },
            _ => true,
        }
    }

    /// The effects that were gathered, in their order. They are handed out once.
    pub fn take_effects(&mut self) -> (effects: Vec<Effect>)
        ensures
            effect_models(effects@) == old(self)@.effects,
            final(self)@ == (CoordinatorModel { effects: Seq::empty(), ..old(self)@ }),
    {
        let mut effects: Vec<Effect> = Vec::new();
        std::mem::swap(&mut effects, &mut self.effects);
        assert(effect_models(self.effects@) =~= Seq::<EffectModel>::empty());
        effects
    }

    /// The answers that go back for a request.
    fn gathered_answers(&self, token: &str) -> (action: Action)
        ensures
            action@ == match request_with(self@.pending_requests, token@, 0) {
                Some(index) => ActionModel::Resolve {
                    request_id: self@.pending_requests[index].request_id,
                    response: ResponseModel::Answers(self@.pending_requests[index].answers),
                },
                None => ActionModel::Rest,
            },
    {
        match self.request_index(token) {
            Some(index) => {
                let request = &self.pending_requests[index];
                assert(self@.pending_requests[index as int] == request@);
                let answers: Vec<Answer> = request.copy_answers();
                assert(answer_models(answers@) == request@.answers);
                Action::Resolve {
                    request_id: request.request_id.clone(),
                    response: RequestResponse::Answers(answers),
                }
            },
            None => Action::Rest,
        }
    }

    /// What is to be done next.
    pub fn action(&self) -> (action: Action)
        ensures
            action@ == self@.wanted(),
    {
        let wait = match &self.wait {
            Some(wait) => wait,
            None => {
                return if self.tasks.len() == 0 {
                    Action::Rest
                } else {
                    Action::Proceed
                };
            },
        };
        match wait {
            Wait::Saving(_) => Action::Save,
            Wait::StartingThread(_) => Action::StartThread,
            Wait::ResumingThread(purpose) => Action::ResumeThread {
                thread_id: match purpose {
                    ResumePurpose::Reconnect { thread_id } => thread_id.clone(),
                    ResumePurpose::Lagged { thread_id } => thread_id.clone(),
                    ResumePurpose::Attach { thread_id } => thread_id.clone(),
                    ResumePurpose::Uncertain { thread_id } => thread_id.clone(),
                },
            },
            Wait::ListingThreads => Action::ListThreads,
            Wait::StartingTurn { thread_id } => {
                if self.state.queued_prompts.len() == 0 {
                    return Action::Rest;
                }
                let prompt = &self.state.queued_prompts[0];
                assert(self@.state.queued_prompts[0] == prompt@);
                let inputs = user_inputs(prompt.body.clone(), copy_attachment(&prompt.attachment));
                Action::StartTurn {
                    thread_id: thread_id.clone(),
                    message_id: prompt.message_id.clone(),
                    inputs,
                }
            },
            Wait::Steering { steer, thread_id, turn_id, .. } => {
                let inputs = user_inputs(steer.body.clone(), copy_attachment(&steer.attachment));
                Action::SteerTurn {
                    thread_id: thread_id.clone(),
                    turn_id: turn_id.clone(),
                    message_id: steer.message_id.clone(),
                    inputs,
                }
            },
            Wait::Interrupting { thread_id, turn_id } => Action::InterruptTurn {
                thread_id: thread_id.clone(),
                turn_id: turn_id.clone(),
            },
            Wait::ResolvingApproval { request_id, decision, .. } => Action::Resolve {
                request_id: request_id.clone(),
                response: RequestResponse::Approval(decision.clone()),
            },
            Wait::ResolvingAnswers { token } => self.gathered_answers(token.as_str()),
            Wait::LoadingCatalog => Action::LoadCatalog,
            Wait::SendingLegacy { .. } => {
                if self.state.legacy_outbox.len() == 0 {
                    return Action::Rest;
                }
                let message = &self.state.legacy_outbox[0];
                assert(self@.state.legacy_outbox[0] == message@);
                Action::SendLegacy {
                    chat_id: message.chat_id.clone(),
                    body: message.body.clone(),
                }
            },
        }
    }

    /// Goes on after a message was accepted, or not.
    fn after_acceptance(&mut self, saved: bool)
        ensures
            final(self)@ == old(self)@.acceptance_saved(saved),
    {
        let mut previous: Option<crate::state::BridgeState> = None;
        let mut accepted: Option<super::model::AcceptedAction> = None;
        std::mem::swap(&mut previous, &mut self.previous_state);
        std::mem::swap(&mut accepted, &mut self.accepted);
        if saved {
            self.push_effect(Effect::Accepted(true));
            match accepted {
                Some(action) => self.handle_accepted_action(action),
                None => {},
            }
        } else {
            match previous {
                Some(state) => {
                    self.state = state;
                },
                None => {},
            }
            self.state_healthy = false;
            self.push_effect(Effect::Accepted(false));
        }
    }

    /// Goes on after a finished prompt was taken out of the queue, or not.
    fn after_uncertain_end(&mut self, thread_id: String, turn: Turn, saved: bool)
        requires
            old(self).projector.next_revision + turn.items@.len() <= u64::MAX,
        ensures
            final(self)@ == old(self)@.uncertain_finished(thread_id@, turn, saved),
    {
        if !saved {
            self.state_healthy = false;
            return;
        }
        self.conclude_turn(thread_id.as_str(), &turn);
        if self.state.queued_prompts.len() > 0 {
            self.push_task(Task::StartNextPrompt);
        }
    }

    /// Goes on after a save that little depends on.
    fn after_plain_save(&mut self, next: AfterSave, saved: bool)
        requires
            next is Unavailable || next is TurnStarted || next is SteerAccepted || next
                is SteersReconciled || next is UncertainCleared || next is LegacySettled || next
                is Recovered || next is Nothing,
        ensures
            final(self)@ == old(self)@.saved_as(next@, saved),
    {
        match next {
            AfterSave::Recovered => {
                if saved {
                    self.state_healthy = true;
                }
                return;
            },
            AfterSave::SteerAccepted => {
                return;
            },
            _ => {},
        }
        if !saved {
            self.state_healthy = false;
        }
        match next {
            AfterSave::Unavailable => self.tell(
                "[codex] Codex app-server is unavailable; your prompt is queued and will retry automatically.",
            ),
            AfterSave::TurnStarted => {
                if saved {
                    self.show_status(StatusKind::Working);
                }
            },
            AfterSave::UncertainCleared => {
                if saved {
                    self.app_server_connected = true;
                    self.push_task(Task::StartNextPrompt);
                }
            },
            AfterSave::LegacySettled { sent } => {
                if saved && sent {
                    self.push_task(Task::FlushLegacy { delivered: true });
                }
            },
            _ => {},
        }
    }

    /// Goes on after a save that concerns messages for a turn, or the thread.
    fn after_turn_save(&mut self, next: AfterSave, saved: bool)
        requires
            next is SteerMarked || next is SteerRequeued || next is TurnRecovered || next
                is Orphaned || next is TurnFinished || next is UncertainFinished,
            room_for_wait(old(self).projector.next_revision, Some(Wait::Saving(next))),
        ensures
            final(self)@ == old(self)@.saved_as(next@, saved),
    {
        match next {
            AfterSave::SteerMarked { steer, thread_id, turn_id, retried } =>
                self.after_steer_marked(steer, thread_id, turn_id, retried, saved),
            AfterSave::SteerRequeued { next } => self.after_requeue(next, saved),
            AfterSave::TurnRecovered { thread_id, turn, reconnect } => self.after_recovery(
                thread_id,
                turn,
                reconnect,
                saved,
            ),
            AfterSave::Orphaned { reconnect } => self.after_orphaning(reconnect, saved),
            AfterSave::TurnFinished => self.after_turn(saved),
            AfterSave::UncertainFinished { thread_id, turn } => self.after_uncertain_end(
                thread_id,
                turn,
                saved,
            ),
            _ => {},
        }
    }

    /// Goes on after a save.
    fn after_save(&mut self, next: AfterSave, saved: bool)
        requires
            room_for_wait(old(self).projector.next_revision, Some(Wait::Saving(next))),
        ensures
            final(self)@ == old(self)@.saved_as(next@, saved),
    {
        match next {
            AfterSave::Accepted => self.after_acceptance(saved),
            AfterSave::Bound { previous, thread_id, purpose } => self.after_binding(
                previous,
                thread_id,
                purpose,
                saved,
            ),
            AfterSave::PromptMarked { thread_id } => self.after_marking(thread_id, saved),
            AfterSave::SteerMarked { .. } => self.after_turn_save(next, saved),
            AfterSave::SteerRequeued { .. } => self.after_turn_save(next, saved),
            AfterSave::TurnRecovered { .. } => self.after_turn_save(next, saved),
            AfterSave::Orphaned { .. } => self.after_turn_save(next, saved),
            AfterSave::TurnFinished => self.after_turn_save(next, saved),
            AfterSave::UncertainFinished { .. } => self.after_turn_save(next, saved),
            _ => self.after_plain_save(next, saved),
        }
    }

    /// Takes the outcome of a save.
    pub fn on_saved(&mut self, saved: bool)
        requires
            old(self).wait matches Some(Wait::Saving(_)),
            old(self).can_go_on(),
        ensures
            final(self)@ == old(self)@.resting().saved_as(old(self)@.wait->0->Saving_0, saved),
    {
        let mut wait: Option<Wait> = None;
        std::mem::swap(&mut wait, &mut self.wait);
        match wait {
            Some(Wait::Saving(next)) => self.after_save(next, saved),
            _ => {},
        }
    }

    /// Takes up a task.
    fn do_task(&mut self, task: Task)
        requires
            room_for_task(old(self).projector.next_revision, task),
        ensures
            final(self)@ == old(self)@.doing_task(task@),
    {
        match task {
            Task::StartNextPrompt => self.start_next_prompt(),
            Task::AdvanceQueue => self.advance_queue(),
            Task::SubmitSteer(steer) => self.submit_steer(steer),
            Task::RetrySteers => self.retry_pending_steers(),
            Task::ResumeActive { turns, reconnect } => self.resume_active(turns, reconnect),
            Task::FinishResume { resumed, reconnect } => self.finish_resume(resumed, reconnect),
            Task::InterruptActive => self.interrupt_active(),
            Task::FlushLegacy { delivered } => {
                if self.state.legacy_outbox.len() > 0 {
                    self.wait = Some(Wait::SendingLegacy { delivered });
                }
            },
            Task::Resume { reconnect } => self.resume(reconnect),
            Task::Recover => self.save_then(AfterSave::Recovered),
            Task::GoOn => {
                if self.app_server_connected && self.state.active_turn.is_none()
                    && self.state.queued_prompts.len() > 0 {
                    self.advance_queue();
                }
            },
        }
    }

    /// Takes up the next task, where there is one.
    pub fn advance(&mut self)
        requires
            old(self).wait is None,
            old(self).can_go_on(),
        ensures
            final(self)@ == old(self)@.advanced(),
    {
        let ghost before = self.tasks@;
        match self.tasks.pop() {
            Some(task) => {
                assert(task == before.last());
                assert(task_models(self.tasks@) =~= task_models(before).drop_last());
                self.do_task(task);
            },
            None => {},
        }
    }
}

} // verus!
