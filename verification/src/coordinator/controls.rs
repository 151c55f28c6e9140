//! Commands of the user: bridge controls and what a message asks for.

use crate::attachment::unsupported_notice;
use crate::attachment::unsupported_text;
use crate::codex::CodexError;
use crate::codex::ThreadSummary;
use crate::command_catalog::catalog_error_text;
use crate::command_catalog::help_text;
use crate::command_catalog::CommandCatalog;
use crate::command_catalog::CommandCatalogError;
use crate::commands::BridgeCommand;
use crate::commands::CommandModel;
use crate::text::decimal;
use crate::text::decimal_of;
use crate::text::join;
use crate::text::join_of;
use crate::text::joined;
use crate::text::joined3;
use crate::text::texts;
use super::inbound::utf8_len;
use super::model::AcceptedAction;
use super::model::AcceptedModel;
use super::model::BindPurpose;
use super::model::Coordinator;
use super::model::CoordinatorModel;
use super::model::ResumePurpose;
use super::model::ResumePurposeModel;
use super::model::Task;
use super::model::TaskModel;
use super::model::Wait;
use super::model::WaitModel;
use super::model::MAX_PROMPT_BYTES;
use crate::text::mentions;
use crate::text::occurs_at;
use crate::text::lemma_mentions_itself;
use crate::text::lemma_mentions_within;
use crate::text::joined_texts_mention_each;
use vstd::prelude::*;

verus! {

/// The lines of a list of threads.
pub open spec fn thread_lines(threads: Seq<ThreadSummary>) -> Seq<Seq<char>> {
    threads.map_values(
        |thread: ThreadSummary| "• `"@ + thread.id@ + "` — "@ + thread.preview@,
    )
}

/// A list of threads, as the user sees it.
pub open spec fn thread_list(threads: Seq<ThreadSummary>) -> Seq<char> {
    if threads.len() == 0 {
        "[codex] No resumable Codex threads are available."@
    } else {
        "[codex] Recent threads:\n"@ + join_of(thread_lines(threads), "\n"@)
            + "\nAttach one with `/whatsapp attach <thread-id>`."@
    }
}

/// What waits for the user, in words.
pub open spec fn pending_text(approvals: nat, requests: nat) -> Seq<char> {
    if approvals == 0 && requests == 0 {
        "none"@
    } else if requests == 0 {
        decimal_of(approvals) + " approval"@
    } else if approvals == 0 {
        decimal_of(requests) + " user input"@
    } else {
        decimal_of(approvals) + " approval"@ + ", "@ + (decimal_of(requests) + " user input"@)
    }
}

impl CoordinatorModel {
    /// The status of the bridge, in words.
    pub open spec fn status_line(self) -> Seq<char> {
        "[codex] app-server: "@ + (if self.app_server_connected {
            "connected"@
        } else {
            "disconnected"@
        }) + "; transport: "@ + (if self.transport_healthy {
            "ready"@
        } else {
            "degraded"@
        }) + "; state: "@ + (if self.state_healthy {
            "durable"@
        } else {
            "failed"@
        }) + "; thread: "@ + (match self.state.binding {
            Some(binding) => binding.codex_thread_id,
            None => "none"@,
        }) + "; active turn: "@ + (match self.state.active_turn {
            Some(turn) => turn.codex_turn_id,
            None => "none"@,
        }) + "; queued: "@ + decimal_of(self.state.queued_prompts.len()) + "; pending: "@
            + pending_text(self.pending_approvals.len(), self.pending_requests.len())
    }

    /// The coordinator after the user sent a command.
    pub open spec fn commanded(self, command: CommandModel) -> CoordinatorModel {
        match command {
            CommandModel::Prompt(_) => self,
            CommandModel::New => if self.state.active_turn is Some {
                self.telling(
                    "[codex] Stop or wait for the active turn before starting a new thread."@,
                )
            } else {
                self.awaiting(WaitModel::StartingThread(BindPurpose::New))
            },
            CommandModel::Status => self.telling(self.status_line()),
            CommandModel::Stop => self.dismissing().then_doing(TaskModel::InterruptActive),
            CommandModel::WhatsAppListThreads => self.awaiting(WaitModel::ListingThreads),
            CommandModel::WhatsAppAttach(thread_id) => if self.state.active_turn is Some {
                self.telling(
                    "[codex] Stop or wait for the active turn before attaching another thread."@,
                )
            } else {
                self.awaiting(WaitModel::ResumingThread(ResumePurposeModel::Attach { thread_id }))
            },
            CommandModel::Answer { token, answer } => if utf8_len(answer) > MAX_PROMPT_BYTES {
                self.telling(
                    "[codex] That answer is too long; keep it under 10,000 UTF-8 bytes."@,
                )
            } else {
                self.answering(token, answer)
            },
            CommandModel::Help => self.awaiting(WaitModel::LoadingCatalog),
            CommandModel::Approve { .. } => self.awaiting(WaitModel::LoadingCatalog),
            CommandModel::Deny { .. } => self.awaiting(WaitModel::LoadingCatalog),
        }
    }

    /// The coordinator about to interrupt the running turn.
    pub open spec fn interrupting(self) -> CoordinatorModel {
        match self.state.active_turn {
            Some(turn) => self.awaiting(
                WaitModel::Interrupting {
                    thread_id: turn.thread_id,
                    turn_id: turn.codex_turn_id,
                },
            ),
            None => self.telling("[codex] No turn is running."@),
        }
    }

    /// The coordinator after an interrupt was requested, or not.
    pub open spec fn interrupted(self, requested: bool) -> CoordinatorModel {
        if requested {
            self.resting().telling("[codex] Interrupt requested."@)
        } else {
            self.resting().cut_off().telling("[codex] Could not interrupt the turn."@)
        }
    }

    /// The coordinator after threads were listed, or not.
    pub open spec fn listed(self, threads: Option<Seq<ThreadSummary>>) -> CoordinatorModel {
        match threads {
            Some(threads) => self.resting().telling(thread_list(threads)),
            None => self.resting().telling("[codex] Could not list Codex threads."@),
        }
    }

    /// The coordinator after the catalogue was read again, or not.
    pub open spec fn catalog_loaded(
        self,
        outcome: Result<CommandCatalog, CommandCatalogError>,
    ) -> CoordinatorModel {
        match outcome {
            Ok(catalog) => CoordinatorModel {
                command_catalog: catalog,
                ..self.resting()
            }.telling("[codex] "@ + help_text(catalog)),
            Err(error) => self.resting().telling(
                "[codex] Could not load the command catalogue at `"@
                    + self.settings.command_catalog_path@ + "`: "@ + catalog_error_text(error)
                    + "."@,
            ),
        }
    }

    /// The coordinator about to do what an accepted message asks for.
    pub open spec fn acting(self, action: AcceptedModel) -> CoordinatorModel {
        match action {
            AcceptedModel::StartQueuedPrompt => self.prompting(),
            AcceptedModel::Steer(steer) => self.steering(steer),
            AcceptedModel::ApprovalChoice(choice) => self.choosing(choice),
            AcceptedModel::ApprovalInputBlocked => self.telling(
                "[codex] An approval is displayed. Reply with one of its numbers, or /stop."@,
            ),
            AcceptedModel::QueueFull => self.telling(
                "[codex] Queue is full; try again after the current turn."@,
            ),
            AcceptedModel::PromptTooLong => self.telling(
                "[codex] That prompt is too long; keep it under 10,000 UTF-8 bytes."@,
            ),
            AcceptedModel::UnsupportedAttachment(kind) => self.telling(unsupported_text(kind)),
            AcceptedModel::Command(command) => self.commanded(command),
        }
    }
}

/// A list of threads, as the user sees it.
fn render_threads(threads: &Vec<ThreadSummary>) -> (text: String)
    ensures
        text@ == thread_list(threads@),
{
    if threads.len() == 0 {
        return "[codex] No resumable Codex threads are available.".to_owned();
    }
    let mut lines: Vec<String> = Vec::new();
    let mut index: usize = 0;
    while index < threads.len()
        invariant
            index <= threads@.len(),
            lines@.len() == index,
            forall|i: int| 0 <= i < index ==> (#[trigger] lines@[i])@ == thread_lines(threads@)[i],
        decreases threads@.len() - index,
    {
        let mut line = joined3("• `", threads[index].id.as_str(), "` — ");
        line.append(threads[index].preview.as_str());
        lines.push(line);
        index += 1;
    }
    assert(texts(lines@) =~= thread_lines(threads@));
    let list = join(&lines, "\n");
    joined3(
        "[codex] Recent threads:\n",
        list.as_str(),
        "\nAttach one with `/whatsapp attach <thread-id>`.",
    )
}

/// What waits for the user, in words.
fn render_pending(approvals: usize, requests: usize) -> (text: String)
    ensures
        text@ == pending_text(approvals as nat, requests as nat),
{
    if approvals == 0 && requests == 0 {
        return "none".to_owned();
    }
    let shown = decimal(approvals as u64);
    let asked = decimal(requests as u64);
    let first = joined(shown.as_str(), " approval");
    let second = joined(asked.as_str(), " user input");
    if requests == 0 {
        first
    } else if approvals == 0 {
        second
    } else {
        joined3(first.as_str(), ", ", second.as_str())
    }
}

impl Coordinator {
    /// The status of the bridge, in words.
    pub fn status_message(&self) -> (text: String)
        ensures
            text@ == self@.status_line(),
    {
        let mut text = "[codex] app-server: ".to_owned();
        text.append(
            if self.app_server_connected {
                "connected"
            } else {
                "disconnected"
            },
        );
        text.append("; transport: ");
        text.append(
            if self.transport_healthy {
                "ready"
            } else {
                "degraded"
            },
        );
        text.append("; state: ");
        text.append(
            if self.state_healthy {
                "durable"
            } else {
                "failed"
            },
        );
        text.append("; thread: ");
        match &self.state.binding {
            Some(binding) => text.append(binding.codex_thread_id.as_str()),
            None => text.append("none"),
        }
        text.append("; active turn: ");
        match &self.state.active_turn {
            Some(turn) => text.append(turn.codex_turn_id.as_str()),
            None => text.append("none"),
        }
        text.append("; queued: ");
        let queued = decimal(self.state.queued_prompts.len() as u64);
        text.append(queued.as_str());
        text.append("; pending: ");
        let pending = render_pending(self.pending_approvals.len(), self.pending_requests.len());
        text.append(pending.as_str());
        text
    }

    /// Does what a command asks for.
    pub fn handle_bridge_command(&mut self, command: BridgeCommand)
        ensures
            final(self)@ == old(self)@.commanded(command@),
    {
        match command {
            BridgeCommand::Prompt(_) => {},
            BridgeCommand::New => {
                if self.state.active_turn.is_some() {
                    self.tell(
                        "[codex] Stop or wait for the active turn before starting a new thread.",
                    );
                } else {
                    self.wait = Some(Wait::StartingThread(BindPurpose::New));
                }
            },
            BridgeCommand::Status => {
                let text = self.status_message();
                self.tell(text.as_str());
            },
            BridgeCommand::Stop => {
                self.resolve_current_approval_for_stop();
                self.push_task(Task::InterruptActive);
            },
            BridgeCommand::WhatsAppListThreads => {
                self.wait = Some(Wait::ListingThreads);
            },
            BridgeCommand::WhatsAppAttach(thread_id) => {
                if self.state.active_turn.is_some() {
                    self.tell(
                        "[codex] Stop or wait for the active turn before attaching another thread.",
                    );
                } else {
                    self.wait = Some(Wait::ResumingThread(ResumePurpose::Attach { thread_id }));
                }
            },
            BridgeCommand::Answer { token, answer } => {
                if answer.as_str().len() > MAX_PROMPT_BYTES {
                    self.tell("[codex] That answer is too long; keep it under 10,000 UTF-8 bytes.");
                } else {
                    self.answer_request(token.as_str(), answer);
                }
            },
            BridgeCommand::Help => {
                self.wait = Some(Wait::LoadingCatalog);
            },
            BridgeCommand::Approve { .. } => {
                self.wait = Some(Wait::LoadingCatalog);
            },
            BridgeCommand::Deny { .. } => {
                self.wait = Some(Wait::LoadingCatalog);
            },
        }
    }

    /// Interrupts the running turn.
    pub fn interrupt_active(&mut self)
        ensures
            final(self)@ == old(self)@.interrupting(),
    {
        match &self.state.active_turn {
            Some(turn) => {
                self.wait = Some(
                    Wait::Interrupting {
                        thread_id: turn.thread_id.clone(),
                        turn_id: turn.codex_turn_id.clone(),
                    },
                );
            },
            None => self.tell("[codex] No turn is running."),
        }
    }

    /// Takes the outcome of an interrupt.
    pub fn on_interrupted(&mut self, outcome: Result<(), CodexError>)
        requires
            old(self).wait matches Some(Wait::Interrupting { .. }),
        ensures
            final(self)@ == old(self)@.interrupted(outcome is Ok),
    {
        self.wait = None;
        if outcome.is_ok() {
            self.tell("[codex] Interrupt requested.");
        } else {
            self.app_server_connected = false;
            self.tell("[codex] Could not interrupt the turn.");
        }
    }

    /// Takes the threads that can be resumed.
    pub fn on_threads_listed(&mut self, outcome: Result<Vec<ThreadSummary>, CodexError>)
        requires
            old(self).wait matches Some(Wait::ListingThreads),
        ensures
            final(self)@ == old(self)@.listed(
                match outcome {
                    Ok(threads) => Some(threads@),
                    Err(_) => None,
                },
            ),
    {
        self.wait = None;
        match outcome {
            Ok(threads) => {
                let text = render_threads(&threads);
                self.tell(text.as_str());
            },
            Err(_) => self.tell("[codex] Could not list Codex threads."),
        }
    }

    /// Takes the command catalogue, and shows the help.
    pub fn on_catalog_loaded(&mut self, outcome: Result<CommandCatalog, CommandCatalogError>)
        requires
            old(self).wait matches Some(Wait::LoadingCatalog),
        ensures
            final(self)@ == old(self)@.catalog_loaded(outcome),
    {
        self.wait = None;
        match outcome {
            Ok(catalog) => {
                self.command_catalog = catalog;
                let help = self.command_catalog.render_help();
                let text = joined("[codex] ", help.as_str());
                self.tell(text.as_str());
            },
            Err(error) => {
                let mut text = joined3(
                    "[codex] Could not load the command catalogue at `",
                    self.settings.command_catalog_path.as_str(),
                    "`: ",
                );
                text.append(error.message());
                text.append(".");
                self.tell(text.as_str());
            },
        }
    }

    /// Does what an accepted message asks for.
    pub fn handle_accepted_action(&mut self, action: AcceptedAction)
        ensures
            final(self)@ == old(self)@.acting(action@),
    {
        match action {
            AcceptedAction::StartQueuedPrompt => self.start_next_prompt(),
            AcceptedAction::Steer(steer) => self.submit_steer(steer),
            AcceptedAction::ApprovalChoice(choice) => self.resolve_approval_choice(choice),
            AcceptedAction::ApprovalInputBlocked => self.tell(
                "[codex] An approval is displayed. Reply with one of its numbers, or /stop.",
            ),
            AcceptedAction::QueueFull => self.tell(
                "[codex] Queue is full; try again after the current turn.",
            ),
            AcceptedAction::PromptTooLong => self.tell(
                "[codex] That prompt is too long; keep it under 10,000 UTF-8 bytes.",
            ),
            AcceptedAction::UnsupportedAttachment(kind) => {
                let text = unsupported_notice(kind.as_str());
                self.tell(text.as_str());
            },
            AcceptedAction::Command(command) => self.handle_bridge_command(command),
        }
    }
}

proof fn lemma_thread_line(thread: ThreadSummary)
    ensures
        mentions("• `"@ + thread.id@ + "` — "@ + thread.preview@, thread.id@),
        mentions("• `"@ + thread.id@ + "` — "@ + thread.preview@, thread.preview@),
{
    let line = "• `"@ + thread.id@ + "` — "@ + thread.preview@;
    lemma_mentions_itself(thread.id@);
    lemma_mentions_within("• `"@, thread.id@, "` — "@ + thread.preview@, thread.id@);
    assert("• `"@ + thread.id@ + ("` — "@ + thread.preview@) =~= line);
    lemma_mentions_itself(thread.preview@);
    let before = "• `"@ + thread.id@ + "` — "@;
    lemma_mentions_within(before, thread.preview@, Seq::empty(), thread.preview@);
    assert(before + thread.preview@ + Seq::<char>::empty() =~= line);
}

proof fn lemma_mentions_on(whole: Seq<char>, part: Seq<char>, inner: Seq<char>)
    requires
        mentions(whole, part),
        mentions(part, inner),
    ensures
        mentions(whole, inner),
{
    let at = choose|at: int| #[trigger] occurs_at(whole, part, at);
    let before = whole.take(at);
    let after = whole.skip(at + part.len());
    assert(before + part + after =~= whole) by {
        assert forall|k: int| 0 <= k < whole.len() implies (before + part + after)[k]
            == whole[k] by {
            if at <= k < at + part.len() {
                assert(whole.subrange(at, at + part.len())[k - at] == whole[k]);
            }
        }
    }
    lemma_mentions_within(before, part, after, inner);
}

/// The list of threads has every thread in it, by its name and by what it begins with.
pub proof fn thread_lists_have_every_thread(threads: Seq<ThreadSummary>, index: int)
    requires
        0 <= index < threads.len(),
    ensures
        mentions(thread_list(threads), threads[index].id@),
        mentions(thread_list(threads), threads[index].preview@),
{
    let lines = thread_lines(threads);
    let list = join_of(lines, "\n"@);
    let whole = thread_list(threads);
    joined_texts_mention_each(lines, "\n"@, index);
    lemma_thread_line(threads[index]);
    let line = "• `"@ + threads[index].id@ + "` — "@ + threads[index].preview@;
    assert(lines[index] == line);
    let after = "\nAttach one with `/whatsapp attach <thread-id>`."@;
    lemma_mentions_within("[codex] Recent threads:\n"@, list, after, line);
    assert("[codex] Recent threads:\n"@ + list + after =~= whole);
    lemma_mentions_on(whole, line, threads[index].id@);
    lemma_mentions_on(whole, line, threads[index].preview@);
}

} // verus!
