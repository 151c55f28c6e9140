//! Taking up a thread again: after a connection was made, after notifications were
//! lost, or by the user's choice.

use crate::codex::CodexError;
use crate::protocol::item_models;
use crate::protocol::ItemModel;
use crate::protocol::Turn;
use crate::protocol::TurnStatus;
use crate::state::StateModel;
use crate::text::joined;
use crate::text::texts;
use crate::transcript::projector::error_notice;
use crate::transcript::projector::reconciled;
use crate::transcript::projector::turn_applied;
use crate::transcript::ProjectorModel;
use super::model::request_models;
use super::model::AfterSave;
use super::model::AfterSaveModel;
use super::model::BindPurpose;
use super::model::Coordinator;
use super::model::CoordinatorModel;
use super::model::Effect;
use super::model::EffectModel;
use super::model::PendingRequestModel;
use super::model::ResumePurpose;
use super::model::ResumePurposeModel;
use super::model::Task;
use super::model::TaskModel;
use super::model::Wait;
use super::model::WaitModel;
use super::model::MAX_RESUME_FAILURES;
use super::steering::find_turn;
use super::steering::steers_reconciled;
use super::steering::turn_from;
use vstd::prelude::*;

verus! {

/// Whether the projection can take up each of the turns.
pub open spec fn room_for_turns(next_revision: u64, turns: Seq<Turn>) -> bool {
    forall|i: int|
        0 <= i < turns.len() ==> next_revision + (#[trigger] turns[i]).items@.len() <= u64::MAX
}

/// The removals of files that are no longer needed.
pub open spec fn removals(paths: Seq<Seq<char>>) -> Seq<EffectModel> {
    paths.map_values(|path: Seq<char>| EffectModel::RemoveAttachment(path))
}

/// What there is to say of the failure of a turn: its error, unless that was said before.
pub open spec fn failure_text(before: ProjectorModel, thread_id: Seq<char>, turn: Turn) -> Option<
    Seq<char>,
> {
    match turn.error {
        Some(error) => if before.errors.contains(
            error_notice(thread_id, turn.id@, error.message@),
        ) {
            None
        } else {
            Some("[codex] Turn failed: "@ + error.message@)
        },
        None => Some("[codex] Turn failed: unknown error"@),
    }
}

impl CoordinatorModel {
    /// The coordinator after it brought the transcript of an ended turn up to date
    /// and closed the turn.
    pub open spec fn concluding(self, thread_id: Seq<char>, turn: Turn) -> CoordinatorModel {
        let events = reconciled(
            self.projector,
            thread_id,
            turn.id@,
            item_models(turn.items@),
        ).1;
        CoordinatorModel {
            projector: turn_applied(self.projector, thread_id, turn).0,
            ..self
        }.delivering(events).closing(
            thread_id,
            turn.id@,
            turn.status,
            failure_text(self.projector, thread_id, turn),
        )
    }

    /// The coordinator after the files of the running turn were given up.
    pub open spec fn releasing(self) -> CoordinatorModel {
        match self.state.active_turn {
            Some(turn) => CoordinatorModel {
                effects: self.effects + removals(turn.attachment_paths),
                ..self
            },
            None => self,
        }
    }

    /// The coordinator about to take up its thread.
    pub open spec fn resuming(self, reconnect: bool) -> CoordinatorModel {
        match self.state.binding {
            Some(binding) => {
                let thread_id = binding.codex_thread_id;
                self.awaiting(
                    WaitModel::ResumingThread(
                        if reconnect {
                            ResumePurposeModel::Reconnect { thread_id }
                        } else {
                            ResumePurposeModel::Lagged { thread_id }
                        },
                    ),
                )
            },
            None => self.then_doing(TaskModel::FinishResume { resumed: true, reconnect }),
        }
    }

    /// The coordinator after its thread was read: messages for turns are compared
    /// with it, and then the running turn is.
    pub open spec fn resumed(self, turns: Seq<Turn>, reconnect: bool) -> CoordinatorModel {
        let (state, changed) = steers_reconciled(self.state, self.state.pending_steers, turns);
        let m = CoordinatorModel { state, resume_failures: 0, ..self.resting() }.then_doing(
            TaskModel::ResumeActive { turns, reconnect },
        ).then_doing(TaskModel::RetrySteers);
        if changed {
            m.saving(AfterSaveModel::SteersReconciled)
        } else {
            m
        }
    }

    /// The coordinator after its thread could not be read: it is given up after
    /// several failures.
    pub open spec fn not_resumed(self, reconnect: bool) -> CoordinatorModel {
        let m = self.resting();
        let failures = if m.resume_failures < u8::MAX {
            (m.resume_failures + 1) as u8
        } else {
            m.resume_failures
        };
        let counted = CoordinatorModel { resume_failures: failures, ..m };
        if failures < MAX_RESUME_FAILURES {
            counted.then_doing(TaskModel::FinishResume { resumed: false, reconnect })
        } else {
            counted.with_state(
                StateModel {
                    orphaned_thread_id: match m.state.binding {
                        Some(binding) => Some(binding.codex_thread_id),
                        None => None,
                    },
                    binding: None,
                    active_turn: None,
                    ..m.state
                },
            ).saving(AfterSaveModel::Orphaned { reconnect })
        }
    }

    /// The coordinator after it gave its thread up.
    pub open spec fn orphaned(self, reconnect: bool, saved: bool) -> CoordinatorModel {
        if saved {
            CoordinatorModel {
                resume_failures: 0,
                ..self.telling(
                    "[codex] The previous Codex thread could not be resumed; the next prompt will create a new context."@,
                )
            }.then_doing(TaskModel::FinishResume { resumed: true, reconnect })
        } else {
            self.unsaved().then_doing(TaskModel::FinishResume { resumed: false, reconnect })
        }
    }

    /// The coordinator after the running turn turned out to have ended.
    pub open spec fn ended_unseen(
        self,
        thread_id: Seq<char>,
        turn: Option<Turn>,
        reconnect: bool,
    ) -> CoordinatorModel {
        CoordinatorModel {
            state: StateModel { active_turn: None, ..self.state },
            pending_requests: Seq::empty(),
            ..self.releasing()
        }.saving(AfterSaveModel::TurnRecovered { thread_id, turn, reconnect })
    }

    /// The coordinator after the running turn was compared with the thread: a turn
    /// that still runs is brought up to date, any other has ended.
    pub open spec fn active_resumed(self, turns: Seq<Turn>, reconnect: bool) -> CoordinatorModel {
        let finish = TaskModel::FinishResume { resumed: true, reconnect };
        match self.state.active_turn {
            None => self.then_doing(finish),
            Some(active) => {
                let found = turn_from(turns, active.codex_turn_id, 0);
                if found is Some && turns[found->0].status is InProgress {
                    let (projector, events) = reconciled(
                        self.projector,
                        active.thread_id,
                        active.codex_turn_id,
                        item_models(turns[found->0].items@),
                    );
                    CoordinatorModel { projector, ..self }.delivering(events).then_doing(finish)
                } else {
                    self.ended_unseen(
                        active.thread_id,
                        match found {
                            Some(index) => Some(turns[index]),
                            None => None,
                        },
                        reconnect,
                    )
                }
            },
        }
    }

    /// The coordinator after it recorded that the running turn has ended.
    pub open spec fn turn_recovered(
        self,
        thread_id: Seq<char>,
        turn: Option<Turn>,
        reconnect: bool,
        saved: bool,
    ) -> CoordinatorModel {
        if saved {
            let told = match turn {
                Some(turn) => self.concluding(thread_id, turn),
                None => self.telling(
                    "[codex] The previous turn ended while the bridge was disconnected; its final response could not be reconstructed."@,
                ),
            };
            told.then_doing(TaskModel::FinishResume { resumed: true, reconnect })
        } else {
            self.unsaved().then_doing(TaskModel::FinishResume { resumed: false, reconnect })
        }
    }

    /// The coordinator once its thread is taken up, or not. After a reconnection the
    /// queue then goes on; after lost notifications it does once the event is dealt
    /// with.
    pub open spec fn resume_finished(self, resumed: bool, reconnect: bool) -> CoordinatorModel {
        let m = CoordinatorModel {
            app_server_connected: if reconnect {
                resumed
            } else {
                self.app_server_connected && resumed
            },
            ..self
        };
        if reconnect && m.app_server_connected && m.state.active_turn is None
            && m.state.queued_prompts.len() > 0 {
            m.then_doing(TaskModel::AdvanceQueue)
        } else {
            m
        }
    }
}

proof fn lemma_reconciling_shows_no_error(
    before: ProjectorModel,
    thread_id: Seq<char>,
    turn_id: Seq<char>,
    items: Seq<ItemModel>,
)
    ensures
        reconciled(before, thread_id, turn_id, items).0.errors == before.errors,
    decreases items.len(),
{
    if items.len() > 0 {
        lemma_reconciling_shows_no_error(before, thread_id, turn_id, items.drop_last());
    }
}

impl Coordinator {
    /// Brings the transcript of an ended turn up to date and closes the turn.
    pub fn conclude_turn(&mut self, thread_id: &str, turn: &Turn)
        requires
            old(self).projector.next_revision + turn.items@.len() <= u64::MAX,
        ensures
            final(self)@ == old(self)@.concluding(thread_id@, *turn),
    {
        proof {
            lemma_reconciling_shows_no_error(
                self@.projector,
                thread_id@,
                turn.id@,
                item_models(turn.items@),
            );
        }
        let events = self.projector.reconcile_items(thread_id, turn.id.as_str(), &turn.items);
        self.enqueue_projection(&events);
        let failure = match &turn.error {
            Some(error) => match self.projector.record_turn_error(
                thread_id,
                turn.id.as_str(),
                error.message.as_str(),
            ) {
                Some(_) => Some(joined("[codex] Turn failed: ", error.message.as_str())),
                None => None,
            },
            None => Some("[codex] Turn failed: unknown error".to_owned()),
        };
        self.close_turn(thread_id, turn.id.as_str(), turn.status, &failure);
    }

    /// Gives up the files of the running turn.
    pub fn release_files(&mut self)
        ensures
            final(self)@ == old(self)@.releasing(),
    {
        let mut files: Vec<String> = Vec::new();
        match &self.state.active_turn {
            Some(turn) => {
                files = crate::text::copy_texts(&turn.attachment_paths);
            },
            None => {
                return;
            },
        }
        let ghost paths = self@.state.active_turn->0.attachment_paths;
        let mut index: usize = 0;
        assert(self@.effects =~= self@.effects + removals(paths.take(0)));
        while index < files.len()
            invariant
                index <= files@.len(),
                texts(files@) == paths,
                self@ == (CoordinatorModel {
                    effects: old(self)@.effects + removals(paths.take(index as int)),
                    ..old(self)@
                }),
            decreases files@.len() - index,
        {
            assert(paths[index as int] == files@[index as int]@);
            self.push_effect(Effect::RemoveAttachment(files[index].clone()));
            assert(self@.effects =~= old(self)@.effects + removals(paths.take(index + 1)));
            index += 1;
        }
        assert(paths.take(index as int) =~= paths);
    }

    /// Takes up the thread.
    pub fn resume(&mut self, reconnect: bool)
        ensures
            final(self)@ == old(self)@.resuming(reconnect),
    {
        match &self.state.binding {
            Some(binding) => {
                let thread_id = binding.codex_thread_id.clone();
                let purpose = if reconnect {
                    ResumePurpose::Reconnect { thread_id }
                } else {
                    ResumePurpose::Lagged { thread_id }
                };
                self.wait = Some(Wait::ResumingThread(purpose));
            },
            None => self.push_task(Task::FinishResume { resumed: true, reconnect }),
        }
    }

    /// Takes the turns of the thread.
    fn take_turns(&mut self, turns: Vec<Turn>, reconnect: bool)
        ensures
            final(self)@ == old(self)@.resumed(turns@, reconnect),
    {
        self.wait = None;
        self.resume_failures = 0;
        let changed = self.state.reconcile_steers(&turns);
        self.push_task(Task::ResumeActive { turns, reconnect });
        self.push_task(Task::RetrySteers);
        if changed {
            self.save_then(AfterSave::SteersReconciled);
        }
    }

    /// Counts a failure to take up the thread.
    fn count_failure(&mut self, reconnect: bool)
        ensures
            final(self)@ == old(self)@.not_resumed(reconnect),
    {
        self.wait = None;
        self.resume_failures = self.resume_failures.saturating_add(1);
        if self.resume_failures < MAX_RESUME_FAILURES {
            self.push_task(Task::FinishResume { resumed: false, reconnect });
            return;
        }
        self.state.orphaned_thread_id = match &self.state.binding {
            Some(binding) => Some(binding.codex_thread_id.clone()),
            None => None,
        };
        self.state.binding = None;
        self.state.active_turn = None;
        self.save_then(AfterSave::Orphaned { reconnect });
    }

    /// Takes the outcome of resuming a thread.
    pub fn on_thread_resumed(&mut self, outcome: Result<Vec<Turn>, CodexError>)
        requires
            old(self).wait matches Some(Wait::ResumingThread(_)),
        ensures
            final(self)@ == match old(self)@.wait->0->ResumingThread_0 {
                ResumePurposeModel::Reconnect { .. } => match outcome {
                    Ok(turns) => old(self)@.resumed(turns@, true),
                    Err(_) => old(self)@.not_resumed(true),
                },
                ResumePurposeModel::Lagged { .. } => match outcome {
                    Ok(turns) => old(self)@.resumed(turns@, false),
                    Err(_) => old(self)@.not_resumed(false),
                },
                ResumePurposeModel::Attach { thread_id } => match outcome {
                    Ok(_) => old(self)@.resting().binding(thread_id, BindPurpose::Attach),
                    Err(_) => old(self)@.resting().telling(
                        "[codex] Could not resume that Codex thread."@,
                    ),
                },
                ResumePurposeModel::Uncertain { thread_id } => old(self)@.looked_up(
                    thread_id,
                    match outcome {
                        Ok(turns) => Some(turns@),
                        Err(_) => None,
                    },
                ),
            },
    {
        let mut wait: Option<Wait> = None;
        std::mem::swap(&mut wait, &mut self.wait);
        let purpose = match wait {
            Some(Wait::ResumingThread(purpose)) => purpose,
            _ => {
                return;
            },
        };
        match purpose {
            ResumePurpose::Reconnect { .. } => match outcome {
                Ok(turns) => self.take_turns(turns, true),
                Err(_) => self.count_failure(true),
            },
            ResumePurpose::Lagged { .. } => match outcome {
                Ok(turns) => self.take_turns(turns, false),
                Err(_) => self.count_failure(false),
            },
            ResumePurpose::Attach { thread_id } => match outcome {
                Ok(_) => self.bind_thread(thread_id, BindPurpose::Attach),
                Err(_) => self.tell("[codex] Could not resume that Codex thread."),
            },
            ResumePurpose::Uncertain { thread_id } => self.on_looked_up(thread_id, outcome),
        }
    }

    /// Records that the running turn turned out to have ended.
    fn end_unseen(&mut self, thread_id: String, turn: Option<Turn>, reconnect: bool)
        ensures
            final(self)@ == old(self)@.ended_unseen(thread_id@, turn, reconnect),
    {
        self.release_files();
        self.state.active_turn = None;
        self.pending_requests = Vec::new();
        assert(request_models(self.pending_requests@) =~= Seq::<PendingRequestModel>::empty());
        self.save_then(AfterSave::TurnRecovered { thread_id, turn, reconnect });
    }

    /// Compares the running turn with the thread.
    pub fn resume_active(&mut self, turns: Vec<Turn>, reconnect: bool)
        requires
            room_for_turns(old(self).projector.next_revision, turns@),
        ensures
            final(self)@ == old(self)@.active_resumed(turns@, reconnect),
    {
        let (thread_id, turn_id) = match &self.state.active_turn {
            Some(turn) => (turn.thread_id.clone(), turn.codex_turn_id.clone()),
            None => {
                self.push_task(Task::FinishResume { resumed: true, reconnect });
                return;
            },
        };
        let mut turns = turns;
        let ghost all = turns@;
        let found = find_turn(&turns, turn_id.as_str());
        match found {
            Some(index) => {
                if turns[index].status == TurnStatus::InProgress {
                    let events = self.projector.reconcile_items(
                        thread_id.as_str(),
                        turn_id.as_str(),
                        &turns[index].items,
                    );
                    self.enqueue_projection(&events);
                    self.push_task(Task::FinishResume { resumed: true, reconnect });
                    return;
                }
            },
            None => {},
        }
        let turn = match found {
            Some(index) => Some(turns.remove(index)),
            None => None,
        };
        self.end_unseen(thread_id, turn, reconnect);
    }

    /// Goes on after it was recorded that the running turn has ended, or not.
    pub fn after_recovery(
        &mut self,
        thread_id: String,
        turn: Option<Turn>,
        reconnect: bool,
        saved: bool,
    )
        requires
            turn matches Some(turn) ==> old(self).projector.next_revision + turn.items@.len()
                <= u64::MAX,
        ensures
            final(self)@ == old(self)@.turn_recovered(thread_id@, turn, reconnect, saved),
    {
        if !saved {
            self.state_healthy = false;
            self.push_task(Task::FinishResume { resumed: false, reconnect });
            return;
        }
        match &turn {
            Some(turn) => self.conclude_turn(thread_id.as_str(), turn),
            None => self.tell(
                "[codex] The previous turn ended while the bridge was disconnected; its final response could not be reconstructed.",
            ),
        }
        self.push_task(Task::FinishResume { resumed: true, reconnect });
    }

    /// Goes on after a thread was given up, or not.
    pub fn after_orphaning(&mut self, reconnect: bool, saved: bool)
        ensures
            final(self)@ == old(self)@.orphaned(reconnect, saved),
    {
        if !saved {
            self.state_healthy = false;
            self.push_task(Task::FinishResume { resumed: false, reconnect });
            return;
        }
        self.tell(
            "[codex] The previous Codex thread could not be resumed; the next prompt will create a new context.",
        );
        self.resume_failures = 0;
        self.push_task(Task::FinishResume { resumed: true, reconnect });
    }

    /// Finishes taking up the thread, and goes on with the queue.
    pub fn finish_resume(&mut self, resumed: bool, reconnect: bool)
        ensures
            final(self)@ == old(self)@.resume_finished(resumed, reconnect),
    {
        if reconnect {
            self.app_server_connected = resumed;
        } else if !resumed {
            self.app_server_connected = false;
        }
        if reconnect && self.app_server_connected && self.state.active_turn.is_none()
            && self.state.queued_prompts.len() > 0 {
            self.push_task(Task::AdvanceQueue);
        }
    }
}

} // verus!
