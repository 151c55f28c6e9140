//! Item-keyed, append-ordered projection of a Codex thread.

use crate::protocol::change_models;
use crate::protocol::copy_changes;
use crate::protocol::item_models;
use crate::protocol::ChangeModel;
use crate::protocol::FileUpdateChange;
use crate::protocol::ItemModel;
use crate::protocol::RequestId;
use crate::protocol::ServerNotification;
use crate::protocol::ThreadItem;
use crate::protocol::ToolRequestUserInputParams;
use crate::protocol::Turn;
use crate::text::copy_texts;
use crate::text::joined;
use crate::text::joined3;
use crate::text::same_text;
use crate::text::text_or_empty;
use crate::text::texts;
use super::model::entry_models;
use super::model::event_models;
use super::model::presented;
use super::model::EntryModel;
use super::model::EntryOrigin;
use super::model::EventModel;
use super::model::KeyModel;
use super::model::NoticeModel;
use super::model::ProjectionEvent;
use super::model::RequestModel;
use super::model::TranscriptEntry;
use super::model::TranscriptKey;
use super::model::TranscriptNotice;
use super::model::UserInputPresentation;
use vstd::prelude::*;

verus! {

/// Which optional categories of output are projected.
#[derive(Debug, Clone, Copy, PartialEq, Eq, Structural)]
pub struct TranscriptProjectionOptions {
    /// Reasoning summaries and raw reasoning content.
    pub include_reasoning: bool,
    /// Tool calls and tool activity.
    pub include_tool_calls: bool,
    /// Notices about automatic approval reviews.
    pub include_automatic_approval_reviews: bool,
}

impl Default for TranscriptProjectionOptions {
    fn default() -> (options: Self)
        ensures
            !options.include_reasoning,
            !options.include_tool_calls,
            !options.include_automatic_approval_reviews,
    {
        TranscriptProjectionOptions {
            include_reasoning: false,
            include_tool_calls: false,
            include_automatic_approval_reviews: false,
        }
    }
}

/// Item-keyed, append-ordered projection of a Codex thread.
#[derive(Debug)]
pub struct TranscriptProjector {
    pub options: TranscriptProjectionOptions,
    pub entries: Vec<TranscriptEntry>,
    pub user_input_requests: Vec<UserInputPresentation>,
    /// The terminal errors that were shown, each once.
    pub shown_errors: Vec<TranscriptNotice>,
    pub next_revision: u64,
}

/// What a projector holds.
#[verifier::ext_equal]
pub struct ProjectorModel {
    pub options: TranscriptProjectionOptions,
    pub entries: Seq<EntryModel>,
    pub requests: Seq<RequestModel>,
    pub errors: Seq<NoticeModel>,
    pub next_revision: int,
}

impl View for TranscriptProjector {
    type V = ProjectorModel;

    open spec fn view(&self) -> ProjectorModel {
        ProjectorModel {
            options: self.options,
            entries: entry_models(self.entries@),
            requests: self.user_input_requests@.map_values(|request: UserInputPresentation| request@),
            errors: self.shown_errors@.map_values(|notice: TranscriptNotice| notice@),
            next_revision: self.next_revision as int,
        }
    }
}

/// The first entry from `from` on that has `key`.
pub open spec fn entry_from(entries: Seq<EntryModel>, key: KeyModel, from: int) -> Option<int>
    decreases entries.len() - from,
{
    if from < 0 || from >= entries.len() {
        None
    } else if entries[from].key == key {
        Some(from)
    } else {
        entry_from(entries, key, from + 1)
    }
}

/// The entry that has `key`.
pub open spec fn entry_of(entries: Seq<EntryModel>, key: KeyModel) -> Option<int> {
    entry_from(entries, key, 0)
}

/// Whether an item belongs to a category that the options let through.
pub open spec fn shown(options: TranscriptProjectionOptions, item: ItemModel) -> bool {
    match item {
        ItemModel::Reasoning { .. } => options.include_reasoning,
        ItemModel::CommandExecution { .. } => options.include_tool_calls,
        ItemModel::FileChange { .. } => options.include_tool_calls,
        ItemModel::ToolCall { .. } => options.include_tool_calls,
        _ => true,
    }
}

/// A projector after `item` arrived for `key`, and the entry that changed by it.
///
/// A committed entry takes no uncommitted update, and nothing changes where the
/// entry already holds the item in at least the commitment that arrives.
pub open spec fn upserted(
    before: ProjectorModel,
    key: KeyModel,
    item: ItemModel,
    committed: bool,
) -> (ProjectorModel, Option<EntryModel>) {
    match entry_of(before.entries, key) {
        Some(index) => {
            let entry = before.entries[index];
            if (entry.committed && !committed) || (entry.item == item && (!committed
                || entry.committed)) {
                (before, None)
            } else {
                let changed = EntryModel {
                    item,
                    committed: entry.committed || committed,
                    revision: before.next_revision + 1,
                    ..entry
                };
                (
                    ProjectorModel {
                        entries: before.entries.update(index, changed),
                        next_revision: before.next_revision + 1,
                        ..before
                    },
                    Some(changed),
                )
            }
        },
        None => {
            let created = EntryModel {
                key,
                item,
                origin: EntryOrigin::CodexTranscript,
                revision: before.next_revision + 1,
                committed,
            };
            (
                ProjectorModel {
                    entries: before.entries.push(created),
                    next_revision: before.next_revision + 1,
                    ..before
                },
                Some(created),
            )
        },
    }
}

/// The events for an entry that may have changed.
pub open spec fn entry_events(changed: Option<EntryModel>) -> Seq<EventModel> {
    match changed {
        Some(entry) => seq![EventModel::Entry(entry)],
        None => Seq::empty(),
    }
}

/// As `upserted`, except that an item of a category that is left out changes nothing.
pub open spec fn recorded(
    before: ProjectorModel,
    key: KeyModel,
    item: ItemModel,
    committed: bool,
) -> (ProjectorModel, Seq<EventModel>) {
    if shown(before.options, item) {
        let (after, changed) = upserted(before, key, item, committed);
        (after, entry_events(changed))
    } else {
        (before, Seq::empty())
    }
}

/// As `recorded`, with an internal-only event for a category that is left out.
pub open spec fn classified(
    before: ProjectorModel,
    key: KeyModel,
    item: ItemModel,
    committed: bool,
) -> (ProjectorModel, Seq<EventModel>) {
    if shown(before.options, item) {
        recorded(before, key, item, committed)
    } else {
        (before, seq![EventModel::Suppressed])
    }
}

/// What an item holds when it starts after some of its content has streamed:
/// content that the start leaves empty is kept as streamed.
pub open spec fn started_over(streamed: ItemModel, started: ItemModel) -> ItemModel {
    match (streamed, started) {
        (
            ItemModel::AgentMessage { text: kept, .. },
            ItemModel::AgentMessage { id, text, phase, memory_citation },
        ) => if text.len() == 0 {
            ItemModel::AgentMessage { id, text: kept, phase, memory_citation }
        } else {
            started
        },
        (ItemModel::Plan { text: kept, .. }, ItemModel::Plan { id, text }) => if text.len() == 0 {
            ItemModel::Plan { id, text: kept }
        } else {
            started
        },
        (
            ItemModel::Reasoning { summary: kept_summary, content: kept_content, .. },
            ItemModel::Reasoning { id, summary, content },
        ) => ItemModel::Reasoning {
            id,
            summary: if summary.len() == 0 {
                kept_summary
            } else {
                summary
            },
            content: if content.len() == 0 {
                kept_content
            } else {
                content
            },
        },
        (
            ItemModel::CommandExecution { aggregated_output: kept, .. },
            ItemModel::CommandExecution {
                id,
                command,
                status,
                aggregated_output,
                exit_code,
                duration_ms,
                details,
            },
        ) => ItemModel::CommandExecution {
            id,
            command,
            status,
            aggregated_output: if aggregated_output is None {
                kept
            } else {
                aggregated_output
            },
            exit_code,
            duration_ms,
            details,
        },
        (
            ItemModel::FileChange { changes: kept, .. },
            ItemModel::FileChange { id, changes, status },
        ) => ItemModel::FileChange {
            id,
            changes: if changes.len() == 0 {
                kept
            } else {
                changes
            },
            status,
        },
        _ => started,
    }
}

/// What `started` amounts to for `key`, given what has streamed for it.
pub open spec fn started_item(
    before: ProjectorModel,
    key: KeyModel,
    started: ItemModel,
) -> ItemModel {
    match entry_of(before.entries, key) {
        Some(index) => started_over(before.entries[index].item, started),
        None => started,
    }
}

/// The key of an item of a turn.
pub open spec fn key_of(thread_id: Seq<char>, turn_id: Seq<char>, item_id: Seq<char>) -> KeyModel {
    KeyModel { thread_id, turn_id, item_id }
}

/// A projector after the authoritative items of a turn were applied in order.
pub open spec fn reconciled(
    before: ProjectorModel,
    thread_id: Seq<char>,
    turn_id: Seq<char>,
    items: Seq<ItemModel>,
) -> (ProjectorModel, Seq<EventModel>)
    decreases items.len(),
{
    if items.len() == 0 {
        (before, Seq::empty())
    } else {
        let (middle, events) = reconciled(before, thread_id, turn_id, items.drop_last());
        let item = items.last();
        let (after, more) = recorded(middle, key_of(thread_id, turn_id, item.id()), item, true);
        (after, events + more)
    }
}

/// The notice of a turn's terminal error.
pub open spec fn error_notice(
    thread_id: Seq<char>,
    turn_id: Seq<char>,
    message: Seq<char>,
) -> NoticeModel {
    NoticeModel { origin: EntryOrigin::CodexTranscript, thread_id, turn_id, text: message }
}

/// A projector after a terminal error, which is shown once.
pub open spec fn with_error(before: ProjectorModel, notice: NoticeModel) -> (
    ProjectorModel,
    Seq<EventModel>,
) {
    if before.errors.contains(notice) {
        (before, Seq::empty())
    } else {
        (
            ProjectorModel { errors: before.errors.push(notice), ..before },
            seq![EventModel::Notice(notice)],
        )
    }
}

/// The item kinds whose text streams in deltas.
#[derive(Debug, Clone, Copy, PartialEq, Eq, Structural)]
pub enum StreamedItem {
    AgentMessage,
    Plan,
}

/// The item that results from a text delta, or none where the delta does not apply.
pub open spec fn streamed_item(
    entry: Option<ItemModel>,
    item_id: Seq<char>,
    delta: Seq<char>,
    kind: StreamedItem,
) -> Option<ItemModel> {
    match (entry, kind) {
        (Some(ItemModel::AgentMessage { text, phase, .. }), StreamedItem::AgentMessage) => Some(
            ItemModel::AgentMessage {
                id: item_id,
                text: text + delta,
                phase,
                memory_citation: None,
            },
        ),
        (Some(ItemModel::Plan { text, .. }), StreamedItem::Plan) => Some(
            ItemModel::Plan { id: item_id, text: text + delta },
        ),
        (Some(_), _) => None,
        (None, StreamedItem::AgentMessage) => Some(
            ItemModel::AgentMessage {
                id: item_id,
                text: delta,
                phase: None,
                memory_citation: None,
            },
        ),
        (None, StreamedItem::Plan) => Some(ItemModel::Plan { id: item_id, text: delta }),
    }
}

/// A projector after a text delta.
pub open spec fn text_streamed(
    before: ProjectorModel,
    key: KeyModel,
    delta: Seq<char>,
    kind: StreamedItem,
) -> (ProjectorModel, Seq<EventModel>) {
    let entry = match entry_of(before.entries, key) {
        Some(index) => Some(before.entries[index].item),
        None => None,
    };
    match streamed_item(entry, key.item_id, delta, kind) {
        Some(item) => recorded(before, key, item, false),
        None => (before, Seq::empty()),
    }
}

/// Which list of a reasoning item a delta belongs to.
#[derive(Debug, Clone, Copy, PartialEq, Eq, Structural)]
pub enum ReasoningPart {
    Summary,
    Content,
}

/// `list` with `delta` added to its entry at `index`; missing entries are empty.
pub open spec fn extended_at(list: Seq<Seq<char>>, index: int, delta: Seq<char>) -> Seq<Seq<char>> {
    let length = if list.len() > index {
        list.len() as int
    } else {
        index + 1
    };
    Seq::new(
        length as nat,
        |i: int|
            (if i < list.len() {
                list[i]
            } else {
                Seq::empty()
            }) + (if i == index {
                delta
            } else {
                Seq::empty()
            }),
    )
}

/// A projector after a reasoning delta.
pub open spec fn reasoning_streamed(
    before: ProjectorModel,
    key: KeyModel,
    delta: Seq<char>,
    index: int,
    part: ReasoningPart,
) -> (ProjectorModel, Seq<EventModel>) {
    let (summary, content) = match entry_of(before.entries, key) {
        Some(at) => match before.entries[at].item {
            ItemModel::Reasoning { summary, content, .. } => (summary, content),
            _ => (Seq::empty(), Seq::empty()),
        },
        None => (Seq::empty(), Seq::empty()),
    };
    let item = match part {
        ReasoningPart::Summary => ItemModel::Reasoning {
            id: key.item_id,
            summary: extended_at(summary, index, delta),
            content,
        },
        ReasoningPart::Content => ItemModel::Reasoning {
            id: key.item_id,
            summary,
            content: extended_at(content, index, delta),
        },
    };
    classified(before, key, item, false)
}

/// A projector after a piece of command output.
pub open spec fn output_streamed(before: ProjectorModel, key: KeyModel, delta: Seq<char>) -> (
    ProjectorModel,
    Seq<EventModel>,
) {
    if !before.options.include_tool_calls {
        (before, seq![EventModel::Suppressed])
    } else {
        match entry_of(before.entries, key) {
            Some(at) => match before.entries[at].item {
                ItemModel::CommandExecution {
                    id,
                    command,
                    status,
                    aggregated_output,
                    exit_code,
                    duration_ms,
                    details,
                } => recorded(
                    before,
                    key,
                    ItemModel::CommandExecution {
                        id,
                        command,
                        status,
                        aggregated_output: Some(
                            match aggregated_output {
                                Some(output) => output + delta,
                                None => delta,
                            },
                        ),
                        exit_code,
                        duration_ms,
                        details,
                    },
                    false,
                ),
                _ => (before, Seq::empty()),
            },
            None => (before, Seq::empty()),
        }
    }
}

/// A projector after the patch of a file change was replaced.
pub open spec fn patch_replaced(
    before: ProjectorModel,
    key: KeyModel,
    changes: Seq<ChangeModel>,
) -> (ProjectorModel, Seq<EventModel>) {
    if !before.options.include_tool_calls {
        (before, seq![EventModel::Suppressed])
    } else {
        match entry_of(before.entries, key) {
            Some(at) => match before.entries[at].item {
                ItemModel::FileChange { id, status, .. } => recorded(
                    before,
                    key,
                    ItemModel::FileChange { id, changes, status },
                    false,
                ),
                _ => (before, Seq::empty()),
            },
            None => (before, Seq::empty()),
        }
    }
}

/// A notice that Codex authored, outside any item.
pub open spec fn codex_notice(thread_id: Seq<char>, text: Seq<char>) -> EventModel {
    EventModel::Notice(
        NoticeModel {
            origin: EntryOrigin::CodexTranscript,
            thread_id,
            turn_id: Seq::empty(),
            text,
        },
    )
}

/// A summary, with its details after `separator` where it has any.
pub open spec fn with_details(
    summary: Seq<char>,
    separator: Seq<char>,
    details: Option<String>,
) -> Seq<char> {
    match details {
        Some(more) => summary + separator + more@,
        None => summary,
    }
}

/// A projector after a turn with its authoritative items and its error, which is
/// shown once.
pub open spec fn turn_applied(before: ProjectorModel, thread_id: Seq<char>, turn: Turn) -> (
    ProjectorModel,
    Seq<EventModel>,
) {
    let (middle, events) = reconciled(before, thread_id, turn.id@, item_models(turn.items@));
    match turn.error {
        Some(error) => {
            let (after, more) = with_error(
                middle,
                error_notice(thread_id, turn.id@, error.message@),
            );
            (after, events + more)
        },
        None => (middle, events),
    }
}

/// A projector after a notification, and the events that it gives rise to.
pub open spec fn applied(before: ProjectorModel, notification: ServerNotification) -> (
    ProjectorModel,
    Seq<EventModel>,
) {
    match notification {
        ServerNotification::ItemStarted(started) => {
            let key = key_of(started.thread_id@, started.turn_id@, started.item@.id());
            classified(before, key, started_item(before, key, started.item@), false)
        },
        ServerNotification::ItemCompleted(completed) => classified(
            before,
            key_of(completed.thread_id@, completed.turn_id@, completed.item@.id()),
            completed.item@,
            true,
        ),
        ServerNotification::AgentMessageDelta(delta) => text_streamed(
            before,
            key_of(delta.thread_id@, delta.turn_id@, delta.item_id@),
            delta.delta@,
            StreamedItem::AgentMessage,
        ),
        ServerNotification::PlanDelta(delta) => text_streamed(
            before,
            key_of(delta.thread_id@, delta.turn_id@, delta.item_id@),
            delta.delta@,
            StreamedItem::Plan,
        ),
        ServerNotification::ReasoningSummaryTextDelta(delta) => reasoning_streamed(
            before,
            key_of(delta.thread_id@, delta.turn_id@, delta.item_id@),
            delta.delta@,
            delta.summary_index as int,
            ReasoningPart::Summary,
        ),
        ServerNotification::ReasoningTextDelta(delta) => reasoning_streamed(
            before,
            key_of(delta.thread_id@, delta.turn_id@, delta.item_id@),
            delta.delta@,
            delta.content_index as int,
            ReasoningPart::Content,
        ),
        ServerNotification::CommandExecutionOutputDelta(delta) => output_streamed(
            before,
            key_of(delta.thread_id@, delta.turn_id@, delta.item_id@),
            delta.delta@,
        ),
        ServerNotification::FileChangePatchUpdated(update) => patch_replaced(
            before,
            key_of(update.thread_id@, update.turn_id@, update.item_id@),
            change_models(update.changes@),
        ),
        ServerNotification::TurnCompleted(completed) => turn_applied(
            before,
            completed.thread_id@,
            completed.turn,
        ),
        ServerNotification::Error(error) => if error.will_retry {
            (before, seq![EventModel::Suppressed])
        } else {
            with_error(
                before,
                error_notice(error.thread_id@, error.turn_id@, error.error.message@),
            )
        },
        ServerNotification::Warning(warning) => (
            before,
            seq![codex_notice(text_or_empty(warning.thread_id), warning.message@)],
        ),
        ServerNotification::GuardianWarning(warning) => (
            before,
            if before.options.include_automatic_approval_reviews {
                seq![codex_notice(warning.thread_id@, warning.message@)]
            } else {
                seq![EventModel::Suppressed]
            },
        ),
        ServerNotification::ConfigWarning(warning) => (
            before,
            seq![
                codex_notice(
                    Seq::empty(),
                    with_details(warning.summary@, ": "@, warning.details),
                ),
            ],
        ),
        ServerNotification::DeprecationNotice(notice) => (
            before,
            seq![
                codex_notice(Seq::empty(), with_details(notice.summary@, "\n"@, notice.details)),
            ],
        ),
        // This is an explicit output allowlist: what is not classified above is
        // never serialized as a provider message.
        _ => (before, seq![EventModel::Suppressed]),
    }
}

/// How many revisions a notification can use up.
pub open spec fn revisions_used(notification: ServerNotification) -> int {
    match notification {
        ServerNotification::TurnCompleted(completed) => completed.turn.items@.len() as int,
        _ => 1,
    }
}

/// Requests with `request` under its key: in place of an earlier one, or at the end.
pub open spec fn with_request(requests: Seq<RequestModel>, request: RequestModel) -> Seq<
    RequestModel,
> {
    match request_from(requests, request.key, 0) {
        Some(index) => requests.update(index, request),
        None => requests.push(request),
    }
}

/// The first request from `from` on that has `key`.
pub open spec fn request_from(requests: Seq<RequestModel>, key: KeyModel, from: int) -> Option<int>
    decreases requests.len() - from,
{
    if from < 0 || from >= requests.len() {
        None
    } else if requests[from].key == key {
        Some(from)
    } else {
        request_from(requests, key, from + 1)
    }
}

impl ProjectorModel {
    /// No two entries have the same key.
    pub open spec fn unique_keys(self) -> bool {
        forall|i: int, j: int|
            0 <= i < j < self.entries.len() ==> (#[trigger] self.entries[i]).key != (
            #[trigger] self.entries[j]).key
    }

    /// No entry is newer than the projector itself.
    pub open spec fn revisions_bounded(self) -> bool {
        forall|i: int|
            0 <= i < self.entries.len() ==> (#[trigger] self.entries[i]).revision
                <= self.next_revision
    }

    /// What every operation keeps.
    pub open spec fn wf(self) -> bool {
        self.unique_keys() && self.revisions_bounded()
    }

    /// The keys of the entries, in order.
    pub open spec fn keys(self) -> Seq<KeyModel> {
        self.entries.map_values(|entry: EntryModel| entry.key)
    }
}

/// The delta of a reasoning item names a part that can be held in memory.
pub open spec fn indexable(notification: ServerNotification) -> bool {
    match notification {
        ServerNotification::ReasoningSummaryTextDelta(delta) => delta.summary_index < usize::MAX,
        ServerNotification::ReasoningTextDelta(delta) => delta.content_index < usize::MAX,
        _ => true,
    }
}

/// What an optional entry holds.
pub open spec fn option_entry(entry: Option<TranscriptEntry>) -> Option<EntryModel> {
    match entry {
        Some(entry) => Some(entry@),
        None => None,
    }
}

/// An entry that is found has the key and comes first.
pub proof fn lemma_entry_from(entries: Seq<EntryModel>, key: KeyModel, from: int)
    requires
        0 <= from,
    ensures
        match entry_from(entries, key, from) {
            Some(index) => from <= index < entries.len() && entries[index].key == key && forall|
                i: int,
            |
                from <= i < index ==> (#[trigger] entries[i]).key != key,
            None => forall|i: int| from <= i < entries.len() ==> (#[trigger] entries[i]).key != key,
        },
    decreases entries.len() - from,
{
    if from < entries.len() && entries[from].key != key {
        lemma_entry_from(entries, key, from + 1);
    }
}

/// The events for a changed entry.
fn events_of(changed: Option<TranscriptEntry>) -> (events: Vec<ProjectionEvent>)
    ensures
        event_models(events@) == entry_events(option_entry(changed)),
{
    let mut events: Vec<ProjectionEvent> = Vec::new();
    match changed {
        Some(entry) => {
            events.push(ProjectionEvent::Entry(Box::new(entry)));
        },
        None => {},
    }
    assert(event_models(events@) =~= entry_events(option_entry(changed)));
    events
}

/// The internal-only event.
fn suppressed() -> (events: Vec<ProjectionEvent>)
    ensures
        event_models(events@) == seq![EventModel::Suppressed],
{
    let events = vec![ProjectionEvent::Suppressed];
    assert(event_models(events@) =~= seq![EventModel::Suppressed]);
    events
}

/// No event.
fn nothing() -> (events: Vec<ProjectionEvent>)
    ensures
        event_models(events@) == Seq::<EventModel>::empty(),
{
    let events: Vec<ProjectionEvent> = Vec::new();
    assert(event_models(events@) =~= Seq::<EventModel>::empty());
    events
}

/// One notice that Codex authored.
fn noticed(thread_id: String, text: String) -> (events: Vec<ProjectionEvent>)
    ensures
        event_models(events@) == seq![codex_notice(thread_id@, text@)],
{
    let ghost expected = seq![codex_notice(thread_id@, text@)];
    let notice = TranscriptNotice {
        origin: EntryOrigin::CodexTranscript,
        thread_id,
        turn_id: String::new(),
        text,
    };
    let events = vec![ProjectionEvent::Notice(notice)];
    assert(notice.turn_id@ =~= Seq::<char>::empty());
    assert(event_models(events@) =~= expected);
    events
}

/// `summary`, with its details after `separator` where there are any.
fn with_details_text(summary: &str, separator: &str, details: &Option<String>) -> (text: String)
    ensures
        text@ == with_details(summary@, separator@, *details),
{
    match details {
        Some(more) => joined3(summary, separator, more.as_str()),
        None => summary.to_owned(),
    }
}

/// Whether an item belongs to a category that the options let through.
fn is_shown(options: TranscriptProjectionOptions, item: &ThreadItem) -> (yes: bool)
    ensures
        yes == shown(options, item@),
{
    match item {
        ThreadItem::Reasoning { .. } => options.include_reasoning,
        ThreadItem::CommandExecution { .. } => options.include_tool_calls,
        ThreadItem::FileChange { .. } => options.include_tool_calls,
        ThreadItem::ToolCall { .. } => options.include_tool_calls,
        _ => true,
    }
}

/// The item that starts, with the content that has streamed where it brings none.
fn start_over(streamed: &ThreadItem, started: ThreadItem) -> (item: ThreadItem)
    ensures
        item@ == started_over(streamed@, started@),
{
    match (streamed, started) {
        (
            ThreadItem::AgentMessage { text: kept, .. },
            ThreadItem::AgentMessage { id, text, phase, memory_citation },
        ) => {
            let text = if text.as_str().is_empty() {
                kept.clone()
            } else {
                text
            };
            ThreadItem::AgentMessage { id, text, phase, memory_citation }
        },
        (ThreadItem::Plan { text: kept, .. }, ThreadItem::Plan { id, text }) => {
            let text = if text.as_str().is_empty() {
                kept.clone()
            } else {
                text
            };
            ThreadItem::Plan { id, text }
        },
        (
            ThreadItem::Reasoning { summary: kept_summary, content: kept_content, .. },
            ThreadItem::Reasoning { id, summary, content },
        ) => {
            let summary = if summary.len() == 0 {
                copy_texts(kept_summary)
            } else {
                summary
            };
            let content = if content.len() == 0 {
                copy_texts(kept_content)
            } else {
                content
            };
            ThreadItem::Reasoning { id, summary, content }
        },
        (
            ThreadItem::CommandExecution { aggregated_output: kept, .. },
            ThreadItem::CommandExecution {
                id,
                command,
                status,
                aggregated_output,
                exit_code,
                duration_ms,
                details,
            },
        ) => {
            let aggregated_output = match aggregated_output {
                Some(output) => Some(output),
                None => kept.clone(),
            };
            ThreadItem::CommandExecution {
                id,
                command,
                status,
                aggregated_output,
                exit_code,
                duration_ms,
                details,
            }
        },
        (
            ThreadItem::FileChange { changes: kept, .. },
            ThreadItem::FileChange { id, changes, status },
        ) => {
            let changes = if changes.len() == 0 {
                copy_changes(kept)
            } else {
                changes
            };
            ThreadItem::FileChange { id, changes, status }
        },
        (_, started) => started,
    }
}

/// Adds `delta` to the entry of `list` at `index`; missing entries are empty.
fn extend_at(list: &mut Vec<String>, index: usize, delta: &str)
    requires
        index < usize::MAX,
    ensures
        texts(final(list)@) == extended_at(texts(old(list)@), index as int, delta@),
{
    while list.len() <= index
        invariant
            index < usize::MAX,
            list@.len() >= old(list)@.len(),
            list@.len() == old(list)@.len() || list@.len() <= index + 1,
            forall|i: int| 0 <= i < old(list)@.len() ==> #[trigger] list@[i] == old(list)@[i],
            forall|i: int|
                old(list)@.len() <= i < list@.len() ==> (#[trigger] list@[i])@ == Seq::<
                    char,
                >::empty(),
        decreases index + 1 - list@.len(),
    {
        list.push(String::new());
    }
    let ghost grown = list@;
    let text = joined(list[index].as_str(), delta);
    list.set(index, text);
    proof {
        let model = extended_at(texts(old(list)@), index as int, delta@);
        assert forall|i: int| 0 <= i < model.len() implies texts(list@)[i] == model[i] by {
            assert(list@[i] == grown[i] || i == index);
            if i == index {
                assert(model[i] =~= grown[i]@ + delta@);
            } else {
                assert(model[i] =~= grown[i]@);
            }
        }
        assert(texts(list@) =~= model);
    }
}

impl Default for TranscriptProjector {
    fn default() -> (projector: Self)
        ensures
            projector@ == (ProjectorModel {
                options: TranscriptProjectionOptions {
                    include_reasoning: false,
                    include_tool_calls: false,
                    include_automatic_approval_reviews: false,
                },
                entries: Seq::empty(),
                requests: Seq::empty(),
                errors: Seq::empty(),
                next_revision: 0,
            }),
    {
        TranscriptProjector::new(TranscriptProjectionOptions::default())
    }
}

impl TranscriptProjector {
    /// A projector that has seen nothing yet.
    pub fn new(options: TranscriptProjectionOptions) -> (projector: Self)
        ensures
            projector@ == (ProjectorModel {
                options,
                entries: Seq::empty(),
                requests: Seq::empty(),
                errors: Seq::empty(),
                next_revision: 0,
            }),
            projector@.wf(),
    {
        let projector = TranscriptProjector {
            options,
            entries: Vec::new(),
            user_input_requests: Vec::new(),
            shown_errors: Vec::new(),
            next_revision: 0,
        };
        proof {
            assert(projector@.entries =~= Seq::empty());
            assert(projector@.requests =~= Seq::empty());
            assert(projector@.errors =~= Seq::empty());
        }
        projector
    }

    /// Where the entry with `key` stands.
    fn position(&self, key: &TranscriptKey) -> (found: Option<usize>)
        ensures
            match found {
                Some(index) => entry_of(self@.entries, key@) == Some(index as int) && index
                    < self.entries@.len() && self.entries@[index as int].key@ == key@,
                None => entry_of(self@.entries, key@) is None,
            },
    {
        let mut index: usize = 0;
        while index < self.entries.len()
            invariant
                index <= self.entries@.len(),
                entry_of(self@.entries, key@) == entry_from(self@.entries, key@, index as int),
            decreases self.entries@.len() - index,
        {
            assert(self@.entries[index as int] == self.entries@[index as int]@);
            if self.entries[index].key.same(key) {
                return Some(index);
            }
            index += 1;
        }
        None
    }

    /// The item of the entry with `key`.
    fn item_at(&self, key: &TranscriptKey) -> (found: Option<&ThreadItem>)
        ensures
            match found {
                Some(item) => entry_of(self@.entries, key@) matches Some(index) && 0 <= index
                    < self@.entries.len() && self@.entries[index].item == item@,
                None => entry_of(self@.entries, key@) is None,
            },
    {
        match self.position(key) {
            Some(index) => {
                assert(self@.entries[index as int] == self.entries@[index as int]@);
                Some(&self.entries[index].item)
            },
            None => None,
        }
    }

    /// Records `item` under `key`, unless the entry is committed and the update is not.
    fn upsert(&mut self, key: TranscriptKey, item: ThreadItem, committed: bool) -> (changed: Option<
        TranscriptEntry,
    >)
        requires
            old(self).next_revision < u64::MAX,
        ensures
            (final(self)@, option_entry(changed)) == upserted(old(self)@, key@, item@, committed),
    {
        match self.position(&key) {
            Some(index) => {
                proof {
                    assert(self@.entries[index as int] == self.entries@[index as int]@);
                }
                let entry = &self.entries[index];
                if entry.committed && !committed {
                    return None;
                }
                if entry.item.same(&item) && (!committed || entry.committed) {
                    return None;
                }
                let revision: u64 = self.next_revision + 1;
                let changed = TranscriptEntry {
                    key: entry.key.clone(),
                    item,
                    origin: entry.origin,
                    revision,
                    committed: entry.committed || committed,
                };
                let event = changed.clone();
                self.next_revision = revision;
                self.entries.set(index, changed);
                proof {
                    assert(self@.entries =~= old(self)@.entries.update(index as int, changed@));
                }
                Some(event)
            },
            None => {
                let revision: u64 = self.next_revision + 1;
                let created = TranscriptEntry {
                    key,
                    item,
                    origin: EntryOrigin::CodexTranscript,
                    revision,
                    committed,
                };
                let event = created.clone();
                self.next_revision = revision;
                self.entries.push(created);
                proof {
                    assert(self@.entries =~= old(self)@.entries.push(created@));
                }
                Some(event)
            },
        }
    }

    /// Records an item of a category that is let through.
    fn record(&mut self, key: TranscriptKey, item: ThreadItem, committed: bool) -> (events: Vec<
        ProjectionEvent,
    >)
        requires
            old(self).next_revision < u64::MAX,
        ensures
            (final(self)@, event_models(events@)) == recorded(
                old(self)@,
                key@,
                item@,
                committed,
            ),
    {
        if is_shown(self.options, &item) {
            let changed = self.upsert(key, item, committed);
            events_of(changed)
        } else {
            nothing()
        }
    }

    /// Records an item of a category that is let through, or notes that it was left out.
    fn classify(&mut self, key: TranscriptKey, item: ThreadItem, committed: bool) -> (events: Vec<
        ProjectionEvent,
    >)
        requires
            old(self).next_revision < u64::MAX,
        ensures
            (final(self)@, event_models(events@)) == classified(
                old(self)@,
                key@,
                item@,
                committed,
            ),
    {
        if is_shown(self.options, &item) {
            self.record(key, item, committed)
        } else {
            suppressed()
        }
    }

    /// Applies a started item, keeping what has streamed for it.
    fn apply_item_started(&mut self, thread_id: &str, turn_id: &str, item: &ThreadItem) -> (events:
        Vec<ProjectionEvent>)
        requires
            old(self).next_revision < u64::MAX,
        ensures
            ({
                let key = key_of(thread_id@, turn_id@, item@.id());
                (final(self)@, event_models(events@)) == classified(
                    old(self)@,
                    key,
                    started_item(old(self)@, key, item@),
                    false,
                )
            }),
    {
        let key = TranscriptKey::new(thread_id, turn_id, item.id());
        let item = match self.item_at(&key) {
            Some(streamed) => start_over(streamed, item.clone()),
            None => item.clone(),
        };
        self.classify(key, item, false)
    }

    /// Applies a piece of streamed text.
    fn apply_text_delta(
        &mut self,
        thread_id: &str,
        turn_id: &str,
        item_id: &str,
        delta: &str,
        kind: StreamedItem,
    ) -> (events: Vec<ProjectionEvent>)
        requires
            old(self).next_revision < u64::MAX,
        ensures
            (final(self)@, event_models(events@)) == text_streamed(
                old(self)@,
                key_of(thread_id@, turn_id@, item_id@),
                delta@,
                kind,
            ),
    {
        let key = TranscriptKey::new(thread_id, turn_id, item_id);
        let item = match (self.item_at(&key), kind) {
            (Some(ThreadItem::AgentMessage { text, phase, .. }), StreamedItem::AgentMessage) =>
                ThreadItem::AgentMessage {
                id: item_id.to_owned(),
                text: joined(text.as_str(), delta),
                phase: *phase,
                memory_citation: None,
            },
            (Some(ThreadItem::Plan { text, .. }), StreamedItem::Plan) => ThreadItem::Plan {
                id: item_id.to_owned(),
                text: joined(text.as_str(), delta),
            },
            (Some(_), _) => {
                return nothing();
            },
            (None, StreamedItem::AgentMessage) => ThreadItem::AgentMessage {
                id: item_id.to_owned(),
                text: delta.to_owned(),
                phase: None,
                memory_citation: None,
            },
            (None, StreamedItem::Plan) => ThreadItem::Plan {
                id: item_id.to_owned(),
                text: delta.to_owned(),
            },
        };
        self.record(key, item, false)
    }

    /// Applies a piece of streamed reasoning.
    fn apply_reasoning_delta(
        &mut self,
        thread_id: &str,
        turn_id: &str,
        item_id: &str,
        delta: &str,
        index: u32,
        part: ReasoningPart,
    ) -> (events: Vec<ProjectionEvent>)
        requires
            old(self).next_revision < u64::MAX,
            index < usize::MAX,
        ensures
            (final(self)@, event_models(events@)) == reasoning_streamed(
                old(self)@,
                key_of(thread_id@, turn_id@, item_id@),
                delta@,
                index as int,
                part,
            ),
    {
        let key = TranscriptKey::new(thread_id, turn_id, item_id);
        let (mut summary, mut content) = match self.item_at(&key) {
            Some(ThreadItem::Reasoning { summary, content, .. }) => (
                copy_texts(summary),
                copy_texts(content),
            ),
            _ => (Vec::new(), Vec::new()),
        };
        proof {
            let held = match entry_of(self@.entries, key@) {
                Some(at) => match self@.entries[at].item {
                    ItemModel::Reasoning { summary, content, .. } => (summary, content),
                    _ => (Seq::empty(), Seq::empty()),
                },
                None => (Seq::empty(), Seq::empty()),
            };
            assert(texts(summary@) =~= held.0);
            assert(texts(content@) =~= held.1);
        }
        match part {
            ReasoningPart::Summary => extend_at(&mut summary, index as usize, delta),
            ReasoningPart::Content => extend_at(&mut content, index as usize, delta),
        }
        self.classify(
            key,
            ThreadItem::Reasoning { id: item_id.to_owned(), summary, content },
            false,
        )
    }

    /// Applies a piece of command output.
    fn apply_command_output_delta(
        &mut self,
        thread_id: &str,
        turn_id: &str,
        item_id: &str,
        delta: &str,
    ) -> (events: Vec<ProjectionEvent>)
        requires
            old(self).next_revision < u64::MAX,
        ensures
            (final(self)@, event_models(events@)) == output_streamed(
                old(self)@,
                key_of(thread_id@, turn_id@, item_id@),
                delta@,
            ),
    {
        if !self.options.include_tool_calls {
            return suppressed();
        }
        let key = TranscriptKey::new(thread_id, turn_id, item_id);
        let item = match self.item_at(&key) {
            Some(
                ThreadItem::CommandExecution {
                    id,
                    command,
                    status,
                    aggregated_output,
                    exit_code,
                    duration_ms,
                    details,
                },
            ) => {
                let output = match aggregated_output {
                    Some(output) => joined(output.as_str(), delta),
                    None => delta.to_owned(),
                };
                ThreadItem::CommandExecution {
                    id: id.clone(),
                    command: command.clone(),
                    status: *status,
                    aggregated_output: Some(output),
                    exit_code: *exit_code,
                    duration_ms: *duration_ms,
                    details: details.clone(),
                }
            },
            _ => {
                return nothing();
            },
        };
        self.record(key, item, false)
    }

    /// Applies the replacement of a file change's patch.
    fn apply_file_change_patch_updated(
        &mut self,
        thread_id: &str,
        turn_id: &str,
        item_id: &str,
        changes: &Vec<FileUpdateChange>,
    ) -> (events: Vec<ProjectionEvent>)
        requires
            old(self).next_revision < u64::MAX,
        ensures
            (final(self)@, event_models(events@)) == patch_replaced(
                old(self)@,
                key_of(thread_id@, turn_id@, item_id@),
                change_models(changes@),
            ),
    {
        if !self.options.include_tool_calls {
            return suppressed();
        }
        let key = TranscriptKey::new(thread_id, turn_id, item_id);
        let item = match self.item_at(&key) {
            Some(ThreadItem::FileChange { id, status, .. }) => ThreadItem::FileChange {
                id: id.clone(),
                changes: copy_changes(changes),
                status: *status,
            },
            _ => {
                return nothing();
            },
        };
        self.record(key, item, false)
    }

    /// Whether a terminal error was shown before.
    fn error_was_shown(&self, notice: &TranscriptNotice) -> (yes: bool)
        ensures
            yes == self@.errors.contains(notice@),
    {
        let mut index: usize = 0;
        while index < self.shown_errors.len()
            invariant
                index <= self.shown_errors@.len(),
                forall|i: int| 0 <= i < index ==> (#[trigger] self@.errors[i]) != notice@,
            decreases self.shown_errors@.len() - index,
        {
            let shown = &self.shown_errors[index];
            assert(self@.errors[index as int] == shown@);
            if shown.origin == notice.origin && same_text(
                shown.thread_id.as_str(),
                notice.thread_id.as_str(),
            ) && same_text(shown.turn_id.as_str(), notice.turn_id.as_str()) && same_text(
                shown.text.as_str(),
                notice.text.as_str(),
            ) {
                return true;
            }
            index += 1;
        }
        false
    }

    /// Shows the terminal error of a turn, unless it was shown before.
    pub fn record_turn_error(&mut self, thread_id: &str, turn_id: &str, message: &str) -> (shown:
        Option<ProjectionEvent>)
        ensures
            ({
                let (after, events) = with_error(
                    old(self)@,
                    error_notice(thread_id@, turn_id@, message@),
                );
                &&& final(self)@ == after
                &&& events == match shown {
                    Some(event) => seq![event@],
                    None => Seq::empty(),
                }
            }),
            old(self)@.wf() ==> final(self)@.wf(),
    {
        let notice = TranscriptNotice {
            origin: EntryOrigin::CodexTranscript,
            thread_id: thread_id.to_owned(),
            turn_id: turn_id.to_owned(),
            text: message.to_owned(),
        };
        if self.error_was_shown(&notice) {
            return None;
        }
        let copy = notice.clone();
        self.shown_errors.push(copy);
        proof {
            assert(self@.errors =~= old(self)@.errors.push(notice@));
        }
        Some(ProjectionEvent::Notice(notice))
    }

    /// The events for the terminal error of a turn.
    fn apply_error(&mut self, thread_id: &str, turn_id: &str, message: &str) -> (events: Vec<
        ProjectionEvent,
    >)
        ensures
            (final(self)@, event_models(events@)) == with_error(
                old(self)@,
                error_notice(thread_id@, turn_id@, message@),
            ),
    {
        let mut events: Vec<ProjectionEvent> = Vec::new();
        match self.record_turn_error(thread_id, turn_id, message) {
            Some(event) => {
                events.push(event);
                assert(event_models(events@) =~= seq![event@]);
            },
            None => {
                assert(event_models(events@) =~= Seq::<EventModel>::empty());
            },
        }
        events
    }

    /// Reconciles a resumed turn from its authoritative item list.
    pub fn reconcile_items(&mut self, thread_id: &str, turn_id: &str, items: &Vec<ThreadItem>) -> (
    events: Vec<ProjectionEvent>)
        requires
            old(self).next_revision + items@.len() <= u64::MAX,
        ensures
            (final(self)@, event_models(events@)) == reconciled(
                old(self)@,
                thread_id@,
                turn_id@,
                item_models(items@),
            ),
            old(self)@.wf() ==> final(self)@.wf(),
            final(self).next_revision <= old(self).next_revision + items@.len(),
    {
        let mut events: Vec<ProjectionEvent> = Vec::new();
        let mut index: usize = 0;
        assert(event_models(events@) =~= Seq::<EventModel>::empty());
        assert(item_models(items@).take(0) =~= Seq::<ItemModel>::empty());
        while index < items.len()
            invariant
                index <= items@.len(),
                old(self).next_revision + items@.len() <= u64::MAX,
                self.next_revision <= old(self).next_revision + index,
                old(self)@.wf() ==> self@.wf(),
                (self@, event_models(events@)) == reconciled(
                    old(self)@,
                    thread_id@,
                    turn_id@,
                    item_models(items@).take(index as int),
                ),
            decreases items@.len() - index,
        {
            let ghost before = self@;
            let ghost seen = events@;
            let item = &items[index];
            let key = TranscriptKey::new(thread_id, turn_id, item.id());
            let mut more = self.record(key, item.clone(), true);
            let ghost added = more@;
            events.append(&mut more);
            proof {
                let models = item_models(items@);
                assert(models.take(index + 1).drop_last() =~= models.take(index as int));
                assert(models.take(index + 1).last() == item@);
                assert(event_models(events@) =~= event_models(seen) + event_models(added));
                lemma_recorded_keeps_wf(before, key@, item@, true);
            }
            index += 1;
        }
        assert(item_models(items@).take(index as int) =~= item_models(items@));
        events
    }

    /// The entries, in the order in which their items first appeared.
    pub fn entries(&self) -> (entries: &Vec<TranscriptEntry>)
        ensures
            entry_models(entries@) == self@.entries,
    {
        &self.entries
    }

    /// Where the request with `key` stands.
    fn request_position(&self, key: &TranscriptKey) -> (found: Option<usize>)
        ensures
            match found {
                Some(index) => request_from(self@.requests, key@, 0) == Some(index as int) && index
                    < self.user_input_requests@.len(),
                None => request_from(self@.requests, key@, 0) is None,
            },
    {
        let mut index: usize = 0;
        while index < self.user_input_requests.len()
            invariant
                index <= self.user_input_requests@.len(),
                request_from(self@.requests, key@, 0) == request_from(
                    self@.requests,
                    key@,
                    index as int,
                ),
            decreases self.user_input_requests@.len() - index,
        {
            assert(self@.requests[index as int] == self.user_input_requests@[index as int]@);
            if self.user_input_requests[index].key.same(key) {
                return Some(index);
            }
            index += 1;
        }
        None
    }

    /// Registers an interactive request using the shared semantic shape.
    /// Provider surfaces own reply tokens, persistence, and input controls.
    pub fn apply_user_input_request(
        &mut self,
        request_id: &RequestId,
        params: &ToolRequestUserInputParams,
    ) -> (event: ProjectionEvent)
        ensures
            event@ == EventModel::Request(presented(*request_id, *params)),
            final(self)@ == (ProjectorModel {
                requests: with_request(old(self)@.requests, presented(*request_id, *params)),
                ..old(self)@
            }),
            old(self)@.wf() ==> final(self)@.wf(),
    {
        let presentation = UserInputPresentation::from_request(request_id, params);
        let kept = presentation.clone();
        match self.request_position(&presentation.key) {
            Some(index) => {
                self.user_input_requests.set(index, kept);
                assert(self@.requests =~= old(self)@.requests.update(
                    index as int,
                    presentation@,
                ));
            },
            None => {
                self.user_input_requests.push(kept);
                assert(self@.requests =~= old(self)@.requests.push(presentation@));
            },
        }
        ProjectionEvent::Request(Box::new(presentation))
    }

    /// Applies a turn with its authoritative items and its error.
    pub fn apply_turn(&mut self, thread_id: &str, turn: &Turn) -> (events: Vec<ProjectionEvent>)
        requires
            old(self).next_revision + turn.items@.len() <= u64::MAX,
        ensures
            (final(self)@, event_models(events@)) == turn_applied(old(self)@, thread_id@, *turn),
            old(self)@.wf() ==> final(self)@.wf(),
            final(self).next_revision <= old(self).next_revision + turn.items@.len(),
    {
        let mut events = self.reconcile_items(thread_id, turn.id.as_str(), &turn.items);
        match &turn.error {
            Some(error) => {
                let ghost seen = events@;
                let mut more = self.apply_error(
                    thread_id,
                    turn.id.as_str(),
                    error.message.as_str(),
                );
                let ghost added = more@;
                events.append(&mut more);
                assert(event_models(events@) =~= event_models(seen) + event_models(added));
            },
            None => {},
        }
        events
    }

    /// Applies one app-server notification and returns only newly-created or
    /// changed user-visible projection events.
    pub fn apply(&mut self, notification: &ServerNotification) -> (events: Vec<ProjectionEvent>)
        requires
            old(self).next_revision + revisions_used(*notification) <= u64::MAX,
            indexable(*notification),
        ensures
            (final(self)@, event_models(events@)) == applied(old(self)@, *notification),
            old(self)@.wf() ==> final(self)@.wf(),
            final(self).next_revision <= old(self).next_revision + revisions_used(*notification),
    {
        proof {
            lemma_applied_keeps_wf(self@, *notification);
        }
        match notification {
            ServerNotification::ItemStarted(started) => self.apply_item_started(
                started.thread_id.as_str(),
                started.turn_id.as_str(),
                &started.item,
            ),
            ServerNotification::ItemCompleted(completed) => {
                let key = TranscriptKey::new(
                    completed.thread_id.as_str(),
                    completed.turn_id.as_str(),
                    completed.item.id(),
                );
                self.classify(key, completed.item.clone(), true)
            },
            ServerNotification::AgentMessageDelta(delta) => self.apply_text_delta(
                delta.thread_id.as_str(),
                delta.turn_id.as_str(),
                delta.item_id.as_str(),
                delta.delta.as_str(),
                StreamedItem::AgentMessage,
            ),
            ServerNotification::PlanDelta(delta) => self.apply_text_delta(
                delta.thread_id.as_str(),
                delta.turn_id.as_str(),
                delta.item_id.as_str(),
                delta.delta.as_str(),
                StreamedItem::Plan,
            ),
            ServerNotification::ReasoningSummaryTextDelta(delta) => self.apply_reasoning_delta(
                delta.thread_id.as_str(),
                delta.turn_id.as_str(),
                delta.item_id.as_str(),
                delta.delta.as_str(),
                delta.summary_index,
                ReasoningPart::Summary,
            ),
            ServerNotification::ReasoningTextDelta(delta) => self.apply_reasoning_delta(
                delta.thread_id.as_str(),
                delta.turn_id.as_str(),
                delta.item_id.as_str(),
                delta.delta.as_str(),
                delta.content_index,
                ReasoningPart::Content,
            ),
            ServerNotification::CommandExecutionOutputDelta(delta) =>
                self.apply_command_output_delta(
                delta.thread_id.as_str(),
                delta.turn_id.as_str(),
                delta.item_id.as_str(),
                delta.delta.as_str(),
            ),
            ServerNotification::FileChangePatchUpdated(update) =>
                self.apply_file_change_patch_updated(
                update.thread_id.as_str(),
                update.turn_id.as_str(),
                update.item_id.as_str(),
                &update.changes,
            ),
            ServerNotification::TurnCompleted(completed) => self.apply_turn(
                completed.thread_id.as_str(),
                &completed.turn,
            ),
            ServerNotification::Error(error) => if error.will_retry {
                suppressed()
            } else {
                self.apply_error(
                    error.thread_id.as_str(),
                    error.turn_id.as_str(),
                    error.error.message.as_str(),
                )
            },
            ServerNotification::Warning(warning) => {
                let thread_id = match &warning.thread_id {
                    Some(thread_id) => thread_id.clone(),
                    None => String::new(),
                };
                assert(thread_id@ =~= text_or_empty(warning.thread_id));
                noticed(thread_id, warning.message.clone())
            },
            ServerNotification::GuardianWarning(warning) => if self.options.include_automatic_approval_reviews {
                noticed(warning.thread_id.clone(), warning.message.clone())
            } else {
                suppressed()
            },
            ServerNotification::ConfigWarning(warning) => {
                let text = with_details_text(warning.summary.as_str(), ": ", &warning.details);
                let thread_id = String::new();
                assert(thread_id@ =~= Seq::<char>::empty());
                noticed(thread_id, text)
            },
            ServerNotification::DeprecationNotice(notice) => {
                let text = with_details_text(notice.summary.as_str(), "\n", &notice.details);
                let thread_id = String::new();
                assert(thread_id@ =~= Seq::<char>::empty());
                noticed(thread_id, text)
            },
            _ => suppressed(),
        }
    }
}

/// Recording an item keeps keys unique and revisions bounded, and uses up at
/// most one revision.
pub proof fn lemma_recorded_keeps_wf(
    before: ProjectorModel,
    key: KeyModel,
    item: ItemModel,
    committed: bool,
)
    ensures
        before.wf() ==> recorded(before, key, item, committed).0.wf(),
        before.next_revision <= recorded(before, key, item, committed).0.next_revision
            <= before.next_revision + 1,
{
    lemma_entry_from(before.entries, key, 0);
}

/// Reconciling keeps keys unique and revisions bounded, and uses up at most one
/// revision per item.
pub proof fn lemma_reconciled_keeps_wf(
    before: ProjectorModel,
    thread_id: Seq<char>,
    turn_id: Seq<char>,
    items: Seq<ItemModel>,
)
    ensures
        before.wf() ==> reconciled(before, thread_id, turn_id, items).0.wf(),
        before.next_revision <= reconciled(before, thread_id, turn_id, items).0.next_revision
            <= before.next_revision + items.len(),
    decreases items.len(),
{
    if items.len() > 0 {
        lemma_reconciled_keeps_wf(before, thread_id, turn_id, items.drop_last());
        let middle = reconciled(before, thread_id, turn_id, items.drop_last()).0;
        let item = items.last();
        lemma_recorded_keeps_wf(middle, key_of(thread_id, turn_id, item.id()), item, true);
    }
}

/// Every notification keeps keys unique and revisions bounded.
pub proof fn lemma_applied_keeps_wf(before: ProjectorModel, notification: ServerNotification)
    ensures
        before.wf() ==> applied(before, notification).0.wf(),
        before.next_revision <= applied(before, notification).0.next_revision
            <= before.next_revision + revisions_used(notification),
{
    lemma_recorded_from_any_key(before);
    match notification {
        ServerNotification::TurnCompleted(completed) => {
            lemma_reconciled_keeps_wf(
                before,
                completed.thread_id@,
                completed.turn.id@,
                item_models(completed.turn.items@),
            );
        },
        _ => {},
    }
}

/// `lemma_recorded_keeps_wf`, for whatever is recorded.
proof fn lemma_recorded_from_any_key(before: ProjectorModel)
    ensures
        forall|key: KeyModel, item: ItemModel, committed: bool|
            {
                let after = (#[trigger] recorded(before, key, item, committed)).0;
                &&& before.wf() ==> after.wf()
                &&& before.next_revision <= after.next_revision <= before.next_revision + 1
            },
{
    assert forall|key: KeyModel, item: ItemModel, committed: bool|
        {
            let after = (#[trigger] recorded(before, key, item, committed)).0;
            &&& before.wf() ==> after.wf()
            &&& before.next_revision <= after.next_revision <= before.next_revision + 1
        } by {
        lemma_recorded_keeps_wf(before, key, item, committed);
    }
}

} // verus!
