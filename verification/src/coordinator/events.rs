//! Events of the app-server: how notifications reach the user.

use crate::protocol::FileUpdateChange;
use crate::protocol::ItemStartedNotification;
use crate::protocol::ServerNotification;
use crate::protocol::ThreadItem;
use crate::protocol::Turn;
use crate::state::StateModel;
use crate::text::chars_of;
use crate::text::joined;
use crate::text::same_text;
use crate::text::text_between;
use crate::text::texts;
use crate::transcript::projector::applied;
use crate::transcript::projector::error_notice;
use crate::transcript::projector::indexable;
use crate::transcript::projector::revisions_used;
use crate::transcript::projector::with_error;
use crate::transcript::KeyModel;
use super::model::path_models;
use super::model::AfterSave;
use super::model::AfterSaveModel;
use super::model::Coordinator;
use super::model::CoordinatorModel;
use super::model::FileChangePaths;
use super::model::FileChangePathsModel;
use super::model::Task;
use super::model::TaskModel;
use super::model::MAX_FILE_CHANGE_ITEMS;
use super::model::MAX_FILE_CHANGE_PATHS;
use super::model::MAX_FILE_CHANGE_PATH_CHARS;
use super::notices::StatusKind;
use super::steering::all_requeued;
use vstd::prelude::*;

verus! {

/// The status that an item is a sign of.
pub open spec fn status_of_item(item: ThreadItem) -> Option<StatusKind> {
    match item {
        ThreadItem::Reasoning { .. } => Some(StatusKind::Reasoning),
        ThreadItem::CommandExecution { .. } => Some(StatusKind::Tooling),
        ThreadItem::FileChange { .. } => Some(StatusKind::Tooling),
        ThreadItem::ToolCall { .. } => Some(StatusKind::Tooling),
        _ => None,
    }
}

/// The status that a notification is a sign of.
pub open spec fn status_of(notification: ServerNotification) -> Option<StatusKind> {
    match notification {
        ServerNotification::ItemStarted(n) => status_of_item(n.item),
        ServerNotification::ItemCompleted(n) => status_of_item(n.item),
        ServerNotification::ReasoningSummaryTextDelta(_) => Some(StatusKind::Reasoning),
        ServerNotification::ReasoningTextDelta(_) => Some(StatusKind::Reasoning),
        ServerNotification::CommandExecutionOutputDelta(_) => Some(StatusKind::Tooling),
        ServerNotification::FileChangeOutputDelta(_) => Some(StatusKind::Tooling),
        ServerNotification::FileChangePatchUpdated(_) => Some(StatusKind::Tooling),
        _ => None,
    }
}

/// A path, cut to the length that is kept.
pub open spec fn kept_path(path: Seq<char>) -> Seq<char> {
    if path.len() <= MAX_FILE_CHANGE_PATH_CHARS {
        path
    } else {
        path.take(MAX_FILE_CHANGE_PATH_CHARS as int)
    }
}

/// The paths of a file change, as many as are kept.
pub open spec fn kept_paths(changes: Seq<FileUpdateChange>) -> Seq<Seq<char>> {
    let count = if changes.len() <= MAX_FILE_CHANGE_PATHS {
        changes.len() as int
    } else {
        MAX_FILE_CHANGE_PATHS as int
    };
    changes.take(count).map_values(|change: FileUpdateChange| kept_path(change.path@))
}

/// Where the paths of an item are recorded, from `from` on.
pub open spec fn recorded_from(recorded: Seq<FileChangePathsModel>, key: KeyModel, from: int) ->
    Option<int>
    decreases recorded.len() - from,
{
    if from < 0 || from >= recorded.len() {
        None
    } else if recorded[from].key == key {
        Some(from)
    } else {
        recorded_from(recorded, key, from + 1)
    }
}

/// The recorded paths without those of a turn.
pub open spec fn without_turn(
    recorded: Seq<FileChangePathsModel>,
    thread_id: Seq<char>,
    turn_id: Seq<char>,
) -> Seq<FileChangePathsModel>
    decreases recorded.len(),
{
    if recorded.len() == 0 {
        Seq::empty()
    } else {
        let earlier = without_turn(recorded.drop_last(), thread_id, turn_id);
        let last = recorded.last();
        if last.key.thread_id == thread_id && last.key.turn_id == turn_id {
            earlier
        } else {
            earlier.push(last)
        }
    }
}

impl CoordinatorModel {
    /// Whether the bridge talks to a thread.
    pub open spec fn is_bound_to(self, thread_id: Seq<char>) -> bool {
        self.state.binding matches Some(binding) && binding.codex_thread_id == thread_id
    }

    /// Whether a notification is for the user of this bridge: what belongs to a turn
    /// has to belong to the running one, what belongs to a thread to the bound one.
    pub open spec fn concerns(self, notification: ServerNotification) -> bool {
        match notification {
            ServerNotification::ItemStarted(n) => self.runs(n.thread_id@, n.turn_id@),
            ServerNotification::ItemCompleted(n) => self.runs(n.thread_id@, n.turn_id@),
            ServerNotification::AgentMessageDelta(n) => self.runs(n.thread_id@, n.turn_id@),
            ServerNotification::PlanDelta(n) => self.runs(n.thread_id@, n.turn_id@),
            ServerNotification::ReasoningSummaryTextDelta(n) => self.runs(n.thread_id@, n.turn_id@),
            ServerNotification::ReasoningTextDelta(n) => self.runs(n.thread_id@, n.turn_id@),
            ServerNotification::CommandExecutionOutputDelta(n) => self.runs(
                n.thread_id@,
                n.turn_id@,
            ),
            ServerNotification::FileChangeOutputDelta(n) => self.runs(n.thread_id@, n.turn_id@),
            ServerNotification::FileChangePatchUpdated(n) => self.runs(n.thread_id@, n.turn_id@),
            ServerNotification::TurnCompleted(n) => self.runs(n.thread_id@, n.turn.id@),
            ServerNotification::Error(n) => !n.will_retry && self.runs(n.thread_id@, n.turn_id@),
            ServerNotification::Warning(n) => match n.thread_id {
                Some(thread_id) => self.is_bound_to(thread_id@),
                None => true,
            },
            ServerNotification::GuardianWarning(n) => self.is_bound_to(n.thread_id@),
            ServerNotification::ConfigWarning(_) => true,
            ServerNotification::DeprecationNotice(_) => true,
            ServerNotification::ServerRequestResolved(_) => true,
            _ => false,
        }
    }

    /// The coordinator after a file change has started: the paths are recorded, for
    /// the approval that may follow.
    pub open spec fn recording(self, started: ItemStartedNotification) -> CoordinatorModel {
        match started.item {
            ThreadItem::FileChange { id, changes, .. } => if self.file_change_paths.len()
                < MAX_FILE_CHANGE_ITEMS {
                let key = KeyModel {
                    thread_id: started.thread_id@,
                    turn_id: started.turn_id@,
                    item_id: id@,
                };
                let entry = FileChangePathsModel { key, paths: kept_paths(changes@) };
                CoordinatorModel {
                    file_change_paths: match recorded_from(self.file_change_paths, key, 0) {
                        Some(index) => self.file_change_paths.update(index, entry),
                        None => self.file_change_paths.push(entry),
                    },
                    ..self
                }
            } else {
                self
            },
            _ => self,
        }
    }

    /// The coordinator after a notification was projected into the transcript and
    /// its events were handed on.
    pub open spec fn projecting(self, notification: ServerNotification) -> CoordinatorModel {
        let (projector, events) = applied(self.projector, notification);
        CoordinatorModel { projector, ..self }.delivering(events)
    }

    /// The coordinator after an error of the running turn that Codex does not retry. It
    /// is said once; nothing is said, nor taken for said, while the state cannot be
    /// saved.
    pub open spec fn erring(
        self,
        thread_id: Seq<char>,
        turn_id: Seq<char>,
        message: Seq<char>,
    ) -> CoordinatorModel {
        let notice = error_notice(thread_id, turn_id, message);
        if !self.state_healthy || self.projector.errors.contains(notice) {
            self
        } else {
            CoordinatorModel {
                projector: with_error(self.projector, notice).0,
                ..self
            }.telling("[codex] Codex error: "@ + message)
        }
    }

    /// The coordinator after the running turn has ended: nothing of it stays open,
    /// and what was meant for it goes into the queue.
    pub open spec fn completing(self, thread_id: Seq<char>, turn: Turn) -> CoordinatorModel {
        let m = self.concluding(thread_id, turn).releasing();
        CoordinatorModel {
            state: StateModel {
                active_turn: None,
                ..all_requeued(m.state, m.state.pending_steers, thread_id, turn.id@)
            },
            pending_requests: Seq::empty(),
            pending_approvals: Seq::empty(),
            file_change_paths: without_turn(m.file_change_paths, thread_id, turn.id@),
            stream_degraded: false,
            ..m
        }.saving(AfterSaveModel::TurnFinished)
    }

    /// The coordinator after a notification.
    pub open spec fn notified(self, notification: ServerNotification) -> CoordinatorModel {
        if !self.concerns(notification) {
            self
        } else {
            match notification {
                ServerNotification::ServerRequestResolved(n) => self.settled_elsewhere(
                    n.request_id@,
                ),
                ServerNotification::TurnCompleted(n) => self.completing(n.thread_id@, n.turn),
                ServerNotification::Error(n) => self.erring(
                    n.thread_id@,
                    n.turn_id@,
                    n.error.message@,
                ),
                _ => {
                    let shown = match status_of(notification) {
                        Some(kind) => self.showing(kind),
                        None => self,
                    };
                    let recorded = match notification {
                        ServerNotification::ItemStarted(n) => shown.recording(n),
                        _ => shown,
                    };
                    recorded.projecting(notification)
                },
            }
        }
    }

    /// The coordinator after the running turn was taken for finished.
    pub open spec fn turn_finished(self, saved: bool) -> CoordinatorModel {
        if !saved {
            self.unsaved()
        } else if self.state.queued_prompts.len() > 0 {
            self.then_doing(TaskModel::StartNextPrompt)
        } else {
            self
        }
    }
}

/// The status that an item is a sign of.
fn item_status(item: &ThreadItem) -> (status: Option<StatusKind>)
    ensures
        status == status_of_item(*item),
{
    match item {
        ThreadItem::Reasoning { .. } => Some(StatusKind::Reasoning),
        ThreadItem::CommandExecution { .. } => Some(StatusKind::Tooling),
        ThreadItem::FileChange { .. } => Some(StatusKind::Tooling),
        ThreadItem::ToolCall { .. } => Some(StatusKind::Tooling),
        _ => None,
    }
}

/// The status that a notification is a sign of.
fn notification_status(notification: &ServerNotification) -> (status: Option<StatusKind>)
    ensures
        status == status_of(*notification),
{
    match notification {
        ServerNotification::ItemStarted(n) => item_status(&n.item),
        ServerNotification::ItemCompleted(n) => item_status(&n.item),
        ServerNotification::ReasoningSummaryTextDelta(_) => Some(StatusKind::Reasoning),
        ServerNotification::ReasoningTextDelta(_) => Some(StatusKind::Reasoning),
        ServerNotification::CommandExecutionOutputDelta(_) => Some(StatusKind::Tooling),
        ServerNotification::FileChangeOutputDelta(_) => Some(StatusKind::Tooling),
        ServerNotification::FileChangePatchUpdated(_) => Some(StatusKind::Tooling),
        _ => None,
    }
}

/// A path, cut to the length that is kept.
fn cut_path(path: &str) -> (kept: String)
    ensures
        kept@ == kept_path(path@),
{
    let chars = chars_of(path);
    let end: usize = if chars.len() <= MAX_FILE_CHANGE_PATH_CHARS {
        chars.len()
    } else {
        MAX_FILE_CHANGE_PATH_CHARS
    };
    let kept = text_between(&chars, 0, end);
    assert(kept@ =~= kept_path(path@));
    kept
}

/// The paths of a file change, as many as are kept.
fn cut_paths(changes: &Vec<FileUpdateChange>) -> (paths: Vec<String>)
    ensures
        texts(paths@) == kept_paths(changes@),
{
    let mut paths: Vec<String> = Vec::new();
    let mut index: usize = 0;
    while index < changes.len() && index < MAX_FILE_CHANGE_PATHS
        invariant
            index <= changes@.len(),
            index <= MAX_FILE_CHANGE_PATHS,
            paths@.len() == index,
            forall|i: int|
                0 <= i < index ==> (#[trigger] paths@[i])@ == kept_path(changes@[i].path@),
        decreases changes@.len() - index,
    {
        paths.push(cut_path(changes[index].path.as_str()));
        index += 1;
    }
    assert(texts(paths@) =~= kept_paths(changes@));
    paths
}

impl Coordinator {
    /// Whether the bridge talks to a thread.
    fn talks_to(&self, thread_id: &str) -> (yes: bool)
        ensures
            yes == self@.is_bound_to(thread_id@),
    {
        match &self.state.binding {
            Some(binding) => same_text(binding.codex_thread_id.as_str(), thread_id),
            None => false,
        }
    }

    /// Whether a notification is for the user of this bridge.
    fn is_concerned(&self, notification: &ServerNotification) -> (yes: bool)
        ensures
            yes == self@.concerns(*notification),
    {
        match notification {
            ServerNotification::ItemStarted(n) => self.is_active_request(
                n.thread_id.as_str(),
                n.turn_id.as_str(),
            ),
            ServerNotification::ItemCompleted(n) => self.is_active_request(
                n.thread_id.as_str(),
                n.turn_id.as_str(),
            ),
            ServerNotification::AgentMessageDelta(n) => self.is_active_request(
                n.thread_id.as_str(),
                n.turn_id.as_str(),
            ),
            ServerNotification::PlanDelta(n) => self.is_active_request(
                n.thread_id.as_str(),
                n.turn_id.as_str(),
            ),
            ServerNotification::ReasoningSummaryTextDelta(n) => self.is_active_request(
                n.thread_id.as_str(),
                n.turn_id.as_str(),
            ),
            ServerNotification::ReasoningTextDelta(n) => self.is_active_request(
                n.thread_id.as_str(),
                n.turn_id.as_str(),
            ),
            ServerNotification::CommandExecutionOutputDelta(n) => self.is_active_request(
                n.thread_id.as_str(),
                n.turn_id.as_str(),
            ),
            ServerNotification::FileChangeOutputDelta(n) => self.is_active_request(
                n.thread_id.as_str(),
                n.turn_id.as_str(),
            ),
            ServerNotification::FileChangePatchUpdated(n) => self.is_active_request(
                n.thread_id.as_str(),
                n.turn_id.as_str(),
            ),
            ServerNotification::TurnCompleted(n) => self.is_active_request(
                n.thread_id.as_str(),
                n.turn.id.as_str(),
            ),
            ServerNotification::Error(n) => !n.will_retry && self.is_active_request(
                n.thread_id.as_str(),
                n.turn_id.as_str(),
            ),
            ServerNotification::Warning(n) => match &n.thread_id {
                Some(thread_id) => self.talks_to(thread_id.as_str()),
                None => true,
            },
            ServerNotification::GuardianWarning(n) => self.talks_to(n.thread_id.as_str()),
            ServerNotification::ConfigWarning(_) => true,
            ServerNotification::DeprecationNotice(_) => true,
            ServerNotification::ServerRequestResolved(_) => true,
            _ => false,
        }
    }

    /// Records the paths of a file change that has started.
    fn record_paths(&mut self, started: &ItemStartedNotification)
        ensures
            final(self)@ == old(self)@.recording(*started),
    {
        let (id, changes) = match &started.item {
            ThreadItem::FileChange { id, changes, .. } => (id, changes),
            _ => {
                return;
            },
        };
        let total: usize = self.file_change_paths.len();
        if total >= MAX_FILE_CHANGE_ITEMS {
            return;
        }
        let ghost key = KeyModel {
            thread_id: started.thread_id@,
            turn_id: started.turn_id@,
            item_id: id@,
        };
        let entry = FileChangePaths {
            thread_id: started.thread_id.clone(),
            turn_id: started.turn_id.clone(),
            item_id: id.clone(),
            paths: cut_paths(changes),
        };
        let ghost model = entry@;
        let ghost before = self.file_change_paths@;
        let mut index: usize = 0;
        while index < total
            invariant
                index <= total == self.file_change_paths@.len(),
                self == old(self),
                key == (KeyModel {
                    thread_id: started.thread_id@,
                    turn_id: started.turn_id@,
                    item_id: id@,
                }),
                model == entry@,
                entry@.key == key,
                before == self.file_change_paths@,
                total < MAX_FILE_CHANGE_ITEMS,
                started.item matches ThreadItem::FileChange { id: own, changes: list, .. }
                    && own == *id && model.paths == kept_paths(list@),
                recorded_from(self@.file_change_paths, key, 0) == recorded_from(
                    self@.file_change_paths,
                    key,
                    index as int,
                ),
            decreases total - index,
        {
            let recorded = &self.file_change_paths[index];
            assert(self@.file_change_paths[index as int] == recorded@);
            if same_text(recorded.thread_id.as_str(), started.thread_id.as_str()) && same_text(
                recorded.turn_id.as_str(),
                started.turn_id.as_str(),
            ) && same_text(recorded.item_id.as_str(), id.as_str()) {
                self.file_change_paths.set(index, entry);
                assert(path_models(self.file_change_paths@) =~= path_models(before).update(
                    index as int,
                    model,
                ));
                return;
            }
            index += 1;
        }
        self.file_change_paths.push(entry);
        assert(path_models(self.file_change_paths@) =~= path_models(before).push(model));
    }

    /// Drops the recorded paths of a turn.
    fn drop_paths(&mut self, thread_id: &str, turn_id: &str)
        ensures
            final(self)@ == (CoordinatorModel {
                file_change_paths: without_turn(
                    old(self)@.file_change_paths,
                    thread_id@,
                    turn_id@,
                ),
                ..old(self)@
            }),
    {
        let ghost models = path_models(self.file_change_paths@);
        let mut kept: Vec<FileChangePaths> = Vec::new();
        let mut rest: Vec<FileChangePaths> = Vec::new();
        std::mem::swap(&mut rest, &mut self.file_change_paths);
        let ghost mut done: int = 0;
        assert(models.take(0) =~= Seq::<FileChangePathsModel>::empty());
        assert(path_models(kept@) =~= Seq::<FileChangePathsModel>::empty());
        assert(models.skip(0) =~= models);
        while rest.len() > 0
            invariant
                0 <= done <= models.len(),
                path_models(rest@) == models.skip(done),
                path_models(kept@) == without_turn(models.take(done), thread_id@, turn_id@),
            decreases rest@.len(),
        {
            let ghost before = kept@;
            let ghost waiting = rest@;
            let recorded = rest.remove(0);
            let ghost model = recorded@;
            proof {
                assert(path_models(waiting).len() == models.skip(done).len());
                assert(path_models(waiting)[0] == models.skip(done)[0]);
                assert(model == models[done]);
                let longer = models.take(done + 1);
                assert(longer.drop_last() =~= models.take(done));
                assert(longer.last() == model);
                assert(path_models(rest@) =~= path_models(waiting).skip(1));
                assert(models.skip(done).skip(1) =~= models.skip(done + 1));
            }
            if !(same_text(recorded.thread_id.as_str(), thread_id) && same_text(
                recorded.turn_id.as_str(),
                turn_id,
            )) {
                kept.push(recorded);
                assert(path_models(kept@) =~= path_models(before).push(model));
            }
            proof {
                done = done + 1;
            }
        }
        proof {
            assert(models.skip(done).len() == 0);
            assert(models.take(done) =~= models);
        }
        self.file_change_paths = kept;
    }

    /// Ends the running turn.
    fn complete_turn(&mut self, thread_id: &str, turn: &Turn)
        requires
            old(self).projector.next_revision + turn.items@.len() <= u64::MAX,
        ensures
            final(self)@ == old(self)@.completing(thread_id@, *turn),
    {
        self.conclude_turn(thread_id, turn);
        self.release_files();
        self.state.requeue_steers_for(thread_id, turn.id.as_str());
        self.state.active_turn = None;
        self.pending_requests = Vec::new();
        self.pending_approvals = Vec::new();
        self.drop_paths(thread_id, turn.id.as_str());
        self.stream_degraded = false;
        self.save_then(AfterSave::TurnFinished);
        proof {
            let m = old(self)@.concluding(thread_id@, *turn).releasing();
            assert(self@.pending_requests =~= Seq::empty());
            assert(self@.pending_approvals =~= Seq::empty());
        }
    }

    /// Reports an error of the running turn, once.
    fn report_error(&mut self, thread_id: &str, turn_id: &str, message: &str)
        ensures
            final(self)@ == old(self)@.erring(thread_id@, turn_id@, message@),
    {
        if !self.state_healthy {
            return;
        }
        proof {
            let notice = error_notice(thread_id@, turn_id@, message@);
            assert(with_error(self@.projector, notice).1.len() == if self@.projector.errors.contains(
                notice,
            ) {
                0nat
            } else {
                1nat
            });
        }
        match self.projector.record_turn_error(thread_id, turn_id, message) {
            Some(_) => {
                let text = joined("[codex] Codex error: ", message);
                self.tell(text.as_str());
            },
            None => {},
        }
    }

    /// Takes a notification.
    pub fn handle_notification(&mut self, notification: &ServerNotification)
        requires
            old(self).wait is None,
            old(self).projector.next_revision + revisions_used(*notification) <= u64::MAX,
            indexable(*notification),
        ensures
            final(self)@ == old(self)@.notified(*notification),
    {
        if !self.is_concerned(notification) {
            return;
        }
        match notification {
            ServerNotification::ServerRequestResolved(n) => {
                self.settle_elsewhere(&n.request_id);
                return;
            },
            ServerNotification::TurnCompleted(n) => {
                self.complete_turn(n.thread_id.as_str(), &n.turn);
                return;
            },
            ServerNotification::Error(n) => {
                self.report_error(
                    n.thread_id.as_str(),
                    n.turn_id.as_str(),
                    n.error.message.as_str(),
                );
                return;
            },
            _ => {},
        }
        match notification_status(notification) {
            Some(kind) => self.show_status(kind),
            None => {},
        }
        match notification {
            ServerNotification::ItemStarted(n) => self.record_paths(n),
            _ => {},
        }
        let events = self.projector.apply(notification);
        self.enqueue_projection(&events);
    }

    /// Goes on after a turn was taken for finished, or not.
    pub fn after_turn(&mut self, saved: bool)
        ensures
            final(self)@ == old(self)@.turn_finished(saved),
    {
        if !saved {
            self.state_healthy = false;
            return;
        }
        if self.state.queued_prompts.len() > 0 {
            self.push_task(Task::StartNextPrompt);
        }
    }
}

} // verus!
