//! The prompt queue: binding a thread, starting a turn, and finding out about a
//! prompt that may have been received.

use crate::attachment::stored_at;
use crate::attachment::InboundAttachment;
use crate::codex::CodexError;
use crate::protocol::ThreadItem;
use crate::protocol::Turn;
use crate::protocol::TurnStatus;
use crate::state::binding_model;
use crate::state::prompt_models;
use crate::state::ActiveTurn;
use crate::state::BindingModel;
use crate::state::BridgeState;
use crate::state::PromptModel;
use crate::state::StateModel;
use crate::state::ThreadBinding;
use crate::state::TurnModel;
use crate::text::same_text;
use crate::text::texts;
use super::model::AfterSave;
use super::model::AfterSaveModel;
use super::model::BindPurpose;
use super::model::Coordinator;
use super::model::CoordinatorModel;
use super::model::ResumePurpose;
use super::model::ResumePurposeModel;
use super::model::ShownStatuses;
use super::model::Task;
use super::model::TaskModel;
use super::model::Wait;
use super::model::WaitModel;
use super::notices::none_shown;
use vstd::prelude::*;

verus! {

/// The files that an attachment refers to.
pub open spec fn files_of(attachment: Option<InboundAttachment>) -> Seq<Seq<char>> {
    match attachment {
        Some(attachment) => match stored_at(attachment) {
            Some(path) => seq![path],
            None => Seq::empty(),
        },
        None => Seq::empty(),
    }
}

/// The turn that a prompt has started.
pub open spec fn turn_for(prompt: PromptModel, thread_id: Seq<char>, turn_id: Seq<char>) ->
    TurnModel {
    TurnModel {
        inbound_message_id: prompt.message_id,
        thread_id,
        codex_turn_id: turn_id,
        legacy_working_output_message_id: None,
        attachment_paths: files_of(prompt.attachment),
    }
}

/// The state with the first prompt marked as possibly received, or as not received.
pub open spec fn first_marked(state: StateModel, uncertain: bool) -> StateModel {
    if state.queued_prompts.len() == 0 {
        state
    } else {
        StateModel {
            queued_prompts: state.queued_prompts.update(
                0,
                PromptModel { submission_uncertain: uncertain, ..state.queued_prompts[0] },
            ),
            ..state
        }
    }
}

/// The state once the user of the first prompt is told of the outage.
pub open spec fn first_notified(state: StateModel) -> StateModel {
    if state.queued_prompts.len() == 0 {
        state
    } else {
        StateModel {
            queued_prompts: state.queued_prompts.update(
                0,
                PromptModel { failure_notified: true, ..state.queued_prompts[0] },
            ),
            ..state
        }
    }
}

/// The state once the first prompt runs as a turn.
pub open spec fn first_running(state: StateModel, thread_id: Seq<char>, turn_id: Seq<char>) ->
    StateModel {
    if state.queued_prompts.len() == 0 {
        state
    } else {
        StateModel {
            queued_prompts: state.queued_prompts.remove(0),
            active_turn: Some(turn_for(state.queued_prompts[0], thread_id, turn_id)),
            ..state
        }
    }
}

/// The state without its first prompt.
pub open spec fn first_dropped(state: StateModel) -> StateModel {
    if state.queued_prompts.len() == 0 {
        state
    } else {
        StateModel { queued_prompts: state.queued_prompts.remove(0), ..state }
    }
}

/// Whether the first prompt may have been received while no turn runs.
pub open spec fn is_uncertain(state: StateModel) -> bool {
    state.active_turn is None && state.queued_prompts.len() > 0
        && state.queued_prompts[0].submission_uncertain
}

/// Whether an item is the user message with the given identity.
pub open spec fn is_message(item: ThreadItem, message_id: Seq<char>) -> bool {
    item matches ThreadItem::UserMessage { client_id: Some(id), .. } && id@ == message_id
}

/// Whether a turn has the user message with the given identity.
pub open spec fn turn_has_message(turn: Turn, message_id: Seq<char>) -> bool {
    exists|i: int| 0 <= i < turn.items@.len() && is_message(#[trigger] turn.items@[i], message_id)
}

/// The first turn from `from` on that has the user message.
pub open spec fn turn_with_message(turns: Seq<Turn>, message_id: Seq<char>, from: int) -> Option<
    int,
>
    decreases turns.len() - from,
{
    if from < 0 || from >= turns.len() {
        None
    } else if turn_has_message(turns[from], message_id) {
        Some(from)
    } else {
        turn_with_message(turns, message_id, from + 1)
    }
}

impl CoordinatorModel {
    /// The coordinator about to submit its first prompt to a thread: the attempt is
    /// saved before it is made.
    pub open spec fn marking(self, thread_id: Seq<char>) -> CoordinatorModel {
        if self.state.queued_prompts.len() == 0 {
            self
        } else {
            self.with_state(first_marked(self.state, true)).saving(
                AfterSaveModel::PromptMarked { thread_id },
            )
        }
    }

    /// The coordinator about to start its first prompt.
    pub open spec fn prompting(self) -> CoordinatorModel {
        if self.state.queued_prompts.len() == 0 {
            self
        } else {
            match self.state.binding {
                Some(binding) => self.marking(binding.codex_thread_id),
                None => self.awaiting(WaitModel::StartingThread(BindPurpose::Prompt)),
            }
        }
    }

    /// The coordinator about to go on with its queue: a prompt that may have been
    /// received is looked up before it is submitted again.
    pub open spec fn advancing(self) -> CoordinatorModel {
        if is_uncertain(self.state) {
            match self.state.binding {
                Some(binding) => self.awaiting(
                    WaitModel::ResumingThread(
                        ResumePurposeModel::Uncertain { thread_id: binding.codex_thread_id },
                    ),
                ),
                None => self,
            }
        } else {
            self.prompting()
        }
    }

    /// The coordinator about to talk to another thread.
    pub open spec fn binding(self, thread_id: Seq<char>, purpose: BindPurpose) -> CoordinatorModel {
        self.with_state(
            StateModel {
                binding: Some(
                    BindingModel {
                        self_chat_id: self.settings.self_chat_id@,
                        codex_thread_id: thread_id,
                    },
                ),
                ..self.state
            },
        ).saving(AfterSaveModel::Bound { previous: self.state.binding, thread_id, purpose })
    }

    /// The coordinator after a thread was started, or not. An outage is reported
    /// once for the prompt that it affects.
    pub open spec fn thread_started(
        self,
        purpose: BindPurpose,
        outcome: Option<Seq<char>>,
    ) -> CoordinatorModel {
        match outcome {
            Some(thread_id) => self.resting().binding(thread_id, purpose),
            None => {
                let cut = self.resting().cut_off();
                match purpose {
                    BindPurpose::Prompt => if cut.state.queued_prompts.len() > 0
                        && !cut.state.queued_prompts[0].failure_notified {
                        cut.with_state(first_notified(cut.state)).saving(
                            AfterSaveModel::Unavailable,
                        )
                    } else {
                        cut
                    },
                    _ => cut.telling("[codex] Could not start a new thread."@),
                }
            },
        }
    }

    /// The coordinator after the binding was saved.
    pub open spec fn bound(
        self,
        previous: Option<BindingModel>,
        thread_id: Seq<char>,
        purpose: BindPurpose,
        saved: bool,
    ) -> CoordinatorModel {
        if saved {
            match purpose {
                BindPurpose::Prompt => self.marking(thread_id),
                BindPurpose::New => {
                    let told = self.telling("[codex] Started a new thread."@);
                    if told.state.queued_prompts.len() > 0 {
                        told.then_doing(TaskModel::AdvanceQueue)
                    } else {
                        told
                    }
                },
                BindPurpose::Attach => self.telling("[codex] Attached the selected Codex thread."@),
            }
        } else {
            self.with_state(StateModel { binding: previous, ..self.state }).unsaved()
        }
    }

    /// The coordinator after the first prompt was marked.
    pub open spec fn prompt_marked(self, thread_id: Seq<char>, saved: bool) -> CoordinatorModel {
        if !saved {
            self.unsaved()
        } else if self.state.queued_prompts.len() == 0 {
            self
        } else {
            self.awaiting(WaitModel::StartingTurn { thread_id })
        }
    }

    /// The coordinator after its first prompt was submitted, or not.
    pub open spec fn turn_started(
        self,
        thread_id: Seq<char>,
        outcome: Option<Seq<char>>,
    ) -> CoordinatorModel {
        match outcome {
            Some(turn_id) => CoordinatorModel {
                state: first_running(self.state, thread_id, turn_id),
                shown_statuses: none_shown(),
                ..self
            }.saving(AfterSaveModel::TurnStarted),
            None => self.resting().cut_off().telling(
                "[codex] Turn submission was interrupted; Codex will reconcile it before retrying."@,
            ),
        }
    }

    /// The coordinator after a thread was looked up for a prompt that may have been
    /// received.
    pub open spec fn looked_up(
        self,
        thread_id: Seq<char>,
        outcome: Option<Seq<Turn>>,
    ) -> CoordinatorModel {
        let m = self.resting();
        if m.state.queued_prompts.len() == 0 {
            m
        } else {
            match outcome {
                None => m,
                Some(turns) => match turn_with_message(
                    turns,
                    m.state.queued_prompts[0].message_id,
                    0,
                ) {
                    Some(index) => if turns[index].status is InProgress {
                        CoordinatorModel {
                            state: first_running(m.state, thread_id, turns[index].id@),
                            shown_statuses: none_shown(),
                            ..m
                        }.saving(AfterSaveModel::TurnStarted)
                    } else {
                        m.with_state(first_dropped(m.state)).saving(
                            AfterSaveModel::UncertainFinished { thread_id, turn: turns[index] },
                        )
                    },
                    None => m.with_state(first_marked(m.state, false)).saving(
                        AfterSaveModel::UncertainCleared,
                    ),
                },
            }
        }
    }
}

impl BridgeState {
    /// Marks the first prompt as possibly received, or as not received.
    fn mark_first(&mut self, uncertain: bool)
        ensures
            final(self)@ == first_marked(old(self)@, uncertain),
    {
        if self.queued_prompts.len() > 0 {
            let mut prompt = self.queued_prompts[0].clone();
            prompt.submission_uncertain = uncertain;
            let ghost model = prompt@;
            self.queued_prompts.set(0, prompt);
            assert(prompt_models(self.queued_prompts@) =~= prompt_models(
                old(self).queued_prompts@,
            ).update(0, model));
        }
    }

    /// Records that the user of the first prompt is told of the outage.
    pub fn notify_first(&mut self)
        ensures
            final(self)@ == first_notified(old(self)@),
    {
        if self.queued_prompts.len() > 0 {
            let mut prompt = self.queued_prompts[0].clone();
            prompt.failure_notified = true;
            let ghost model = prompt@;
            self.queued_prompts.set(0, prompt);
            assert(prompt_models(self.queued_prompts@) =~= prompt_models(
                old(self).queued_prompts@,
            ).update(0, model));
        }
    }

    /// Drops the first prompt.
    fn drop_first(&mut self)
        ensures
            final(self)@ == first_dropped(old(self)@),
    {
        if self.queued_prompts.len() > 0 {
            self.queued_prompts.remove(0);
            assert(prompt_models(self.queued_prompts@) =~= prompt_models(
                old(self).queued_prompts@,
            ).remove(0));
        }
    }

    /// Records that the first prompt runs as a turn.
    fn run_first(&mut self, thread_id: String, turn_id: String)
        ensures
            final(self)@ == first_running(old(self)@, thread_id@, turn_id@),
    {
        if self.queued_prompts.len() > 0 {
            let prompt = self.queued_prompts.remove(0);
            let mut attachment_paths: Vec<String> = Vec::new();
            match &prompt.attachment {
                Some(attachment) => match attachment.path() {
                    Some(path) => {
                        attachment_paths.push(path.to_owned());
                    },
                    None => {},
                },
                None => {},
            }
            assert(texts(attachment_paths@) =~= files_of(prompt.attachment));
            self.active_turn = Some(
                ActiveTurn {
                    inbound_message_id: prompt.message_id,
                    thread_id,
                    codex_turn_id: turn_id,
                    legacy_working_output_message_id: None,
                    attachment_paths,
                },
            );
            assert(prompt_models(self.queued_prompts@) =~= prompt_models(
                old(self).queued_prompts@,
            ).remove(0));
        }
    }
}

/// Whether a turn has the user message with the given identity.
pub fn has_message(turn: &Turn, message_id: &str) -> (found: bool)
    ensures
        found == turn_has_message(*turn, message_id@),
{
    let mut index: usize = 0;
    while index < turn.items.len()
        invariant
            index <= turn.items@.len(),
            forall|i: int| 0 <= i < index ==> !is_message(#[trigger] turn.items@[i], message_id@),
        decreases turn.items@.len() - index,
    {
        match &turn.items[index] {
            ThreadItem::UserMessage { client_id: Some(id), .. } => {
                if same_text(id.as_str(), message_id) {
                    assert(is_message(turn.items@[index as int], message_id@));
                    return true;
                }
            },
            _ => {},
        }
        index += 1;
    }
    false
}

/// The first turn that has the user message with the given identity.
fn find_turn_with(turns: &Vec<Turn>, message_id: &str) -> (found: Option<usize>)
    ensures
        match found {
            Some(index) => turn_with_message(turns@, message_id@, 0) == Some(index as int) && index
                < turns@.len(),
            None => turn_with_message(turns@, message_id@, 0) is None,
        },
{
    let mut index: usize = 0;
    while index < turns.len()
        invariant
            index <= turns@.len(),
            turn_with_message(turns@, message_id@, 0) == turn_with_message(
                turns@,
                message_id@,
                index as int,
            ),
        decreases turns@.len() - index,
    {
        if has_message(&turns[index], message_id) {
            return Some(index);
        }
        index += 1;
    }
    None
}

impl Coordinator {
    /// Marks the first prompt before it is submitted to a thread.
    fn mark_prompt(&mut self, thread_id: String)
        ensures
            final(self)@ == old(self)@.marking(thread_id@),
    {
        if self.state.queued_prompts.len() == 0 {
            return;
        }
        self.state.mark_first(true);
        self.save_then(AfterSave::PromptMarked { thread_id });
    }

    /// Starts the first prompt.
    pub fn start_next_prompt(&mut self)
        ensures
            final(self)@ == old(self)@.prompting(),
    {
        if self.state.queued_prompts.len() == 0 {
            return;
        }
        let thread_id = match &self.state.binding {
            Some(binding) => binding.codex_thread_id.clone(),
            None => {
                self.wait = Some(Wait::StartingThread(BindPurpose::Prompt));
                return;
            },
        };
        self.mark_prompt(thread_id);
    }

    /// Whether the first prompt may have been received while no turn runs.
    pub fn has_uncertain_turn_start(&self) -> (uncertain: bool)
        ensures
            uncertain == is_uncertain(self@.state),
    {
        self.state.active_turn.is_none() && self.state.queued_prompts.len() > 0
            && self.state.queued_prompts[0].submission_uncertain
    }

    /// Goes on with the queue.
    pub fn advance_queue(&mut self)
        ensures
            final(self)@ == old(self)@.advancing(),
    {
        if self.has_uncertain_turn_start() {
            match &self.state.binding {
                Some(binding) => {
                    let thread_id = binding.codex_thread_id.clone();
                    self.wait = Some(
                        Wait::ResumingThread(ResumePurpose::Uncertain { thread_id }),
                    );
                },
                None => {},
            }
        } else {
            self.start_next_prompt();
        }
    }

    /// Talks to another thread from now on.
    pub fn bind_thread(&mut self, thread_id: String, purpose: BindPurpose)
        ensures
            final(self)@ == old(self)@.binding(thread_id@, purpose),
    {
        let mut previous: Option<ThreadBinding> = Some(
            ThreadBinding {
                self_chat_id: self.settings.self_chat_id.clone(),
                codex_thread_id: thread_id.clone(),
            },
        );
        std::mem::swap(&mut previous, &mut self.state.binding);
        self.save_then(AfterSave::Bound { previous, thread_id, purpose });
    }

    /// Takes the outcome of starting a thread.
    pub fn on_thread_started(&mut self, outcome: Result<String, CodexError>)
        requires
            old(self).wait matches Some(Wait::StartingThread(_)),
        ensures
            ({
                let purpose = old(self)@.wait->0->StartingThread_0;
                final(self)@ == old(self)@.thread_started(
                    purpose,
                    match outcome {
                        Ok(thread_id) => Some(thread_id@),
                        Err(_) => None,
                    },
                )
            }),
    {
        let purpose = match self.wait {
            Some(Wait::StartingThread(purpose)) => purpose,
            _ => {
                return;
            },
        };
        self.wait = None;
        match outcome {
            Ok(thread_id) => self.bind_thread(thread_id, purpose),
            Err(_) => {
                self.app_server_connected = false;
                match purpose {
                    BindPurpose::Prompt => {
                        if self.state.queued_prompts.len() > 0
                            && !self.state.queued_prompts[0].failure_notified {
                            self.state.notify_first();
                            self.save_then(AfterSave::Unavailable);
                        }
                    },
                    _ => self.tell("[codex] Could not start a new thread."),
                }
            },
        }
    }

    /// Goes on after a binding was saved, or not.
    pub fn after_binding(
        &mut self,
        previous: Option<ThreadBinding>,
        thread_id: String,
        purpose: BindPurpose,
        saved: bool,
    )
        ensures
            final(self)@ == old(self)@.bound(
                binding_model(previous),
                thread_id@,
                purpose,
                saved,
            ),
    {
        if !saved {
            self.state.binding = previous;
            self.state_healthy = false;
            return;
        }
        match purpose {
            BindPurpose::Prompt => self.mark_prompt(thread_id),
            BindPurpose::New => {
                self.tell("[codex] Started a new thread.");
                if self.state.queued_prompts.len() > 0 {
                    self.push_task(Task::AdvanceQueue);
                }
            },
            BindPurpose::Attach => self.tell("[codex] Attached the selected Codex thread."),
        }
    }

    /// Goes on after the first prompt was marked, or not.
    pub fn after_marking(&mut self, thread_id: String, saved: bool)
        ensures
            final(self)@ == old(self)@.prompt_marked(thread_id@, saved),
    {
        if !saved {
            self.state_healthy = false;
            return;
        }
        if self.state.queued_prompts.len() > 0 {
            self.wait = Some(Wait::StartingTurn { thread_id });
        }
    }

    /// Takes the outcome of starting a turn.
    pub fn on_turn_started(&mut self, outcome: Result<String, CodexError>)
        requires
            old(self).wait matches Some(Wait::StartingTurn { .. }),
        ensures
            ({
                let thread_id = old(self)@.wait->0->StartingTurn_thread_id;
                final(self)@ == old(self)@.turn_started(
                    thread_id,
                    match outcome {
                        Ok(turn_id) => Some(turn_id@),
                        Err(_) => None,
                    },
                )
            }),
    {
        let mut wait: Option<Wait> = None;
        std::mem::swap(&mut wait, &mut self.wait);
        let thread_id = match wait {
            Some(Wait::StartingTurn { thread_id }) => thread_id,
            _ => {
                return;
            },
        };
        match outcome {
            Ok(turn_id) => {
                self.state.run_first(thread_id, turn_id);
                self.shown_statuses = ShownStatuses {
                    working: false,
                    reasoning: false,
                    tooling: false,
                };
                self.save_then(AfterSave::TurnStarted);
            },
            Err(_) => {
                self.app_server_connected = false;
                self.tell(
                    "[codex] Turn submission was interrupted; Codex will reconcile it before retrying.",
                );
            },
        }
    }

    /// Takes the outcome of looking a prompt up that may have been received.
    pub fn on_looked_up(&mut self, thread_id: String, outcome: Result<Vec<Turn>, CodexError>)
        ensures
            final(self)@ == old(self)@.looked_up(
                thread_id@,
                match outcome {
                    Ok(turns) => Some(turns@),
                    Err(_) => None,
                },
            ),
    {
        self.wait = None;
        if self.state.queued_prompts.len() == 0 {
            return;
        }
        let mut turns = match outcome {
            Ok(turns) => turns,
            Err(_) => {
                return;
            },
        };
        let ghost all = turns@;
        match find_turn_with(&turns, self.state.queued_prompts[0].message_id.as_str()) {
            Some(index) => {
                let turn = turns.remove(index);
                assert(turn == all[index as int]);
                if turn.status == TurnStatus::InProgress {
                    self.state.run_first(thread_id, turn.id);
                    self.shown_statuses = ShownStatuses {
                        working: false,
                        reasoning: false,
                        tooling: false,
                    };
                    self.save_then(AfterSave::TurnStarted);
                } else {
                    self.state.drop_first();
                    self.save_then(AfterSave::UncertainFinished { thread_id, turn });
                }
            },
            None => {
                self.state.mark_first(false);
                self.save_then(AfterSave::UncertainCleared);
            },
        }
    }
}

} // verus!
