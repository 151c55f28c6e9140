//! The app-server values that the bridge reads: conversation items, turns,
//! notifications, and the parameters of interactive requests.

use crate::text::copy_texts;
use crate::text::option_text;
use crate::text::same_text;
use crate::text::texts;
use vstd::prelude::*;

verus! {

/// Which part of a turn an assistant message belongs to.
#[derive(Debug, Clone, Copy, PartialEq, Eq, Structural)]
pub enum MessagePhase {
    Commentary,
    FinalAnswer,
}

/// Progress of a file-change item.
#[derive(Debug, Clone, Copy, PartialEq, Eq, Structural)]
pub enum PatchApplyStatus {
    InProgress,
    Completed,
    Failed,
    Declined,
}

/// Progress of a command-execution item.
#[derive(Debug, Clone, Copy, PartialEq, Eq, Structural)]
pub enum CommandExecutionStatus {
    InProgress,
    Completed,
    Failed,
    Declined,
}

/// Progress of a turn.
#[derive(Debug, Clone, Copy, PartialEq, Eq, Structural)]
pub enum TurnStatus {
    Completed,
    Interrupted,
    Failed,
    InProgress,
}

/// One changed file of a file-change item.
#[derive(Debug, PartialEq, Eq)]
pub struct FileUpdateChange {
    pub path: String,
    pub diff: String,
}

impl Clone for FileUpdateChange {
    fn clone(&self) -> (copy: Self)
        ensures
            copy == *self,
    {
        FileUpdateChange { path: self.path.clone(), diff: self.diff.clone() }
    }
}

/// One item of a Codex turn. Fields that the bridge only carries along are kept
/// in their serialized form under `details`.
#[derive(Debug, PartialEq, Eq)]
pub enum ThreadItem {
    UserMessage { id: String, client_id: Option<String>, details: String },
    AgentMessage {
        id: String,
        text: String,
        phase: Option<MessagePhase>,
        memory_citation: Option<String>,
    },
    Plan { id: String, text: String },
    Reasoning { id: String, summary: Vec<String>, content: Vec<String> },
    CommandExecution {
        id: String,
        command: String,
        status: CommandExecutionStatus,
        aggregated_output: Option<String>,
        exit_code: Option<i32>,
        duration_ms: Option<i64>,
        details: String,
    },
    FileChange { id: String, changes: Vec<FileUpdateChange>, status: PatchApplyStatus },
    /// Any other tool activity, under the name of the tool.
    ToolCall { id: String, tool: String, details: String },
    /// An item that is neither conversation text nor tool activity.
    Other { id: String, details: String },
}

/// What a `FileUpdateChange` holds.
#[verifier::ext_equal]
pub struct ChangeModel {
    pub path: Seq<char>,
    pub diff: Seq<char>,
}

/// What a `ThreadItem` holds.
#[verifier::ext_equal]
pub enum ItemModel {
    UserMessage { id: Seq<char>, client_id: Option<Seq<char>>, details: Seq<char> },
    AgentMessage {
        id: Seq<char>,
        text: Seq<char>,
        phase: Option<MessagePhase>,
        memory_citation: Option<Seq<char>>,
    },
    Plan { id: Seq<char>, text: Seq<char> },
    Reasoning { id: Seq<char>, summary: Seq<Seq<char>>, content: Seq<Seq<char>> },
    CommandExecution {
        id: Seq<char>,
        command: Seq<char>,
        status: CommandExecutionStatus,
        aggregated_output: Option<Seq<char>>,
        exit_code: Option<i32>,
        duration_ms: Option<i64>,
        details: Seq<char>,
    },
    FileChange { id: Seq<char>, changes: Seq<ChangeModel>, status: PatchApplyStatus },
    ToolCall { id: Seq<char>, tool: Seq<char>, details: Seq<char> },
    Other { id: Seq<char>, details: Seq<char> },
}

impl View for FileUpdateChange {
    type V = ChangeModel;

    open spec fn view(&self) -> ChangeModel {
        ChangeModel { path: self.path@, diff: self.diff@ }
    }
}

/// What a list of file changes holds.
pub open spec fn change_models(changes: Seq<FileUpdateChange>) -> Seq<ChangeModel> {
    changes.map_values(|change: FileUpdateChange| change@)
}

impl View for ThreadItem {
    type V = ItemModel;

    open spec fn view(&self) -> ItemModel {
        match *self {
            ThreadItem::UserMessage { id, client_id, details } => ItemModel::UserMessage {
                id: id@,
                client_id: option_text(client_id),
                details: details@,
            },
            ThreadItem::AgentMessage { id, text, phase, memory_citation } =>
                ItemModel::AgentMessage {
                id: id@,
                text: text@,
                phase,
                memory_citation: option_text(memory_citation),
            },
            ThreadItem::Plan { id, text } => ItemModel::Plan { id: id@, text: text@ },
            ThreadItem::Reasoning { id, summary, content } => ItemModel::Reasoning {
                id: id@,
                summary: texts(summary@),
                content: texts(content@),
            },
            ThreadItem::CommandExecution {
                id,
                command,
                status,
                aggregated_output,
                exit_code,
                duration_ms,
                details,
            } => ItemModel::CommandExecution {
                id: id@,
                command: command@,
                status,
                aggregated_output: option_text(aggregated_output),
                exit_code,
                duration_ms,
                details: details@,
            },
            ThreadItem::FileChange { id, changes, status } => ItemModel::FileChange {
                id: id@,
                changes: change_models(changes@),
                status,
            },
            ThreadItem::ToolCall { id, tool, details } => ItemModel::ToolCall {
                id: id@,
                tool: tool@,
                details: details@,
            },
            ThreadItem::Other { id, details } => ItemModel::Other { id: id@, details: details@ },
        }
    }
}

impl ItemModel {
    /// The item's identity within its turn.
    pub open spec fn id(self) -> Seq<char> {
        match self {
            ItemModel::UserMessage { id, .. } => id,
            ItemModel::AgentMessage { id, .. } => id,
            ItemModel::Plan { id, .. } => id,
            ItemModel::Reasoning { id, .. } => id,
            ItemModel::CommandExecution { id, .. } => id,
            ItemModel::FileChange { id, .. } => id,
            ItemModel::ToolCall { id, .. } => id,
            ItemModel::Other { id, .. } => id,
        }
    }
}

/// Whether two lists of strings hold the same texts.
fn same_texts(left: &Vec<String>, right: &Vec<String>) -> (same: bool)
    ensures
        same == (texts(left@) == texts(right@)),
{
    if left.len() != right.len() {
        assert(texts(left@).len() != texts(right@).len());
        return false;
    }
    let mut index: usize = 0;
    while index < left.len()
        invariant
            index <= left@.len() == right@.len(),
            forall|i: int| 0 <= i < index ==> (#[trigger] left@[i])@ == right@[i]@,
        decreases left@.len() - index,
    {
        if !same_text(left[index].as_str(), right[index].as_str()) {
            assert(texts(left@)[index as int] != texts(right@)[index as int]);
            return false;
        }
        index += 1;
    }
    assert(texts(left@) =~= texts(right@));
    true
}

/// Whether two optional strings hold the same text.
pub fn same_option_text(left: &Option<String>, right: &Option<String>) -> (same: bool)
    ensures
        same == (option_text(*left) == option_text(*right)),
{
    match (left, right) {
        (Some(one), Some(other)) => same_text(one.as_str(), other.as_str()),
        (None, None) => true,
        _ => false,
    }
}

/// Whether two lists of file changes hold the same changes.
fn same_changes(left: &Vec<FileUpdateChange>, right: &Vec<FileUpdateChange>) -> (same: bool)
    ensures
        same == (change_models(left@) == change_models(right@)),
{
    if left.len() != right.len() {
        assert(change_models(left@).len() != change_models(right@).len());
        return false;
    }
    let mut index: usize = 0;
    while index < left.len()
        invariant
            index <= left@.len() == right@.len(),
            forall|i: int| 0 <= i < index ==> (#[trigger] left@[i])@ == right@[i]@,
        decreases left@.len() - index,
    {
        if !same_text(left[index].path.as_str(), right[index].path.as_str()) || !same_text(
            left[index].diff.as_str(),
            right[index].diff.as_str(),
        ) {
            assert(change_models(left@)[index as int] != change_models(right@)[index as int]);
            return false;
        }
        index += 1;
    }
    assert(change_models(left@) =~= change_models(right@));
    true
}

/// A copy of a list of file changes.
pub fn copy_changes(changes: &Vec<FileUpdateChange>) -> (copy: Vec<FileUpdateChange>)
    ensures
        copy@ == changes@,
{
    let copy = changes.clone();
    assert(copy@ =~= changes@);
    copy
}

fn same_option_i32(left: Option<i32>, right: Option<i32>) -> (same: bool)
    ensures
        same == (left == right),
{
    match (left, right) {
        (Some(one), Some(other)) => one == other,
        (None, None) => true,
        _ => false,
    }
}

fn same_option_i64(left: Option<i64>, right: Option<i64>) -> (same: bool)
    ensures
        same == (left == right),
{
    match (left, right) {
        (Some(one), Some(other)) => one == other,
        (None, None) => true,
        _ => false,
    }
}

fn same_phase(left: Option<MessagePhase>, right: Option<MessagePhase>) -> (same: bool)
    ensures
        same == (left == right),
{
    match (left, right) {
        (Some(one), Some(other)) => one == other,
        (None, None) => true,
        _ => false,
    }
}

impl Clone for ThreadItem {
    fn clone(&self) -> (copy: Self)
        ensures
            copy@ == self@,
    {
        match self {
            ThreadItem::UserMessage { id, client_id, details } => ThreadItem::UserMessage {
                id: id.clone(),
                client_id: client_id.clone(),
                details: details.clone(),
            },
            ThreadItem::AgentMessage { id, text, phase, memory_citation } =>
                ThreadItem::AgentMessage {
                id: id.clone(),
                text: text.clone(),
                phase: *phase,
                memory_citation: memory_citation.clone(),
            },
            ThreadItem::Plan { id, text } => ThreadItem::Plan {
                id: id.clone(),
                text: text.clone(),
            },
            ThreadItem::Reasoning { id, summary, content } => ThreadItem::Reasoning {
                id: id.clone(),
                summary: copy_texts(summary),
                content: copy_texts(content),
            },
            ThreadItem::CommandExecution {
                id,
                command,
                status,
                aggregated_output,
                exit_code,
                duration_ms,
                details,
            } => ThreadItem::CommandExecution {
                id: id.clone(),
                command: command.clone(),
                status: *status,
                aggregated_output: aggregated_output.clone(),
                exit_code: *exit_code,
                duration_ms: *duration_ms,
                details: details.clone(),
            },
            ThreadItem::FileChange { id, changes, status } => ThreadItem::FileChange {
                id: id.clone(),
                changes: copy_changes(changes),
                status: *status,
            },
            ThreadItem::ToolCall { id, tool, details } => ThreadItem::ToolCall {
                id: id.clone(),
                tool: tool.clone(),
                details: details.clone(),
            },
            ThreadItem::Other { id, details } => ThreadItem::Other {
                id: id.clone(),
                details: details.clone(),
            },
        }
    }
}

impl ThreadItem {
    /// The item's identity within its turn.
    pub fn id(&self) -> (id: &str)
        ensures
            id@ == self@.id(),
    {
        match self {
            ThreadItem::UserMessage { id, .. } => id.as_str(),
            ThreadItem::AgentMessage { id, .. } => id.as_str(),
            ThreadItem::Plan { id, .. } => id.as_str(),
            ThreadItem::Reasoning { id, .. } => id.as_str(),
            ThreadItem::CommandExecution { id, .. } => id.as_str(),
            ThreadItem::FileChange { id, .. } => id.as_str(),
            ThreadItem::ToolCall { id, .. } => id.as_str(),
            ThreadItem::Other { id, .. } => id.as_str(),
        }
    }

    /// Whether two items hold the same values.
    pub fn same(&self, other: &ThreadItem) -> (same: bool)
        ensures
            same == (self@ == other@),
    {
        match (self, other) {
            (
                ThreadItem::UserMessage { id, client_id, details },
                ThreadItem::UserMessage { id: id2, client_id: client_id2, details: details2 },
            ) => same_text(id.as_str(), id2.as_str()) && same_option_text(client_id, client_id2)
                && same_text(details.as_str(), details2.as_str()),
            (
                ThreadItem::AgentMessage { id, text, phase, memory_citation },
                ThreadItem::AgentMessage {
                    id: id2,
                    text: text2,
                    phase: phase2,
                    memory_citation: citation2,
                },
            ) => same_text(id.as_str(), id2.as_str()) && same_text(text.as_str(), text2.as_str())
                && same_phase(*phase, *phase2) && same_option_text(memory_citation, citation2),
            (ThreadItem::Plan { id, text }, ThreadItem::Plan { id: id2, text: text2 }) => same_text(
                id.as_str(),
                id2.as_str(),
            ) && same_text(text.as_str(), text2.as_str()),
            (
                ThreadItem::Reasoning { id, summary, content },
                ThreadItem::Reasoning { id: id2, summary: summary2, content: content2 },
            ) => same_text(id.as_str(), id2.as_str()) && same_texts(summary, summary2)
                && same_texts(content, content2),
            (
                ThreadItem::CommandExecution {
                    id,
                    command,
                    status,
                    aggregated_output,
                    exit_code,
                    duration_ms,
                    details,
                },
                ThreadItem::CommandExecution {
                    id: id2,
                    command: command2,
                    status: status2,
                    aggregated_output: output2,
                    exit_code: exit_code2,
                    duration_ms: duration_ms2,
                    details: details2,
                },
            ) => same_text(id.as_str(), id2.as_str()) && same_text(
                command.as_str(),
                command2.as_str(),
            ) && *status == *status2 && same_option_text(aggregated_output, output2)
                && same_option_i32(*exit_code, *exit_code2) && same_option_i64(
                *duration_ms,
                *duration_ms2,
            ) && same_text(details.as_str(), details2.as_str()),
            (
                ThreadItem::FileChange { id, changes, status },
                ThreadItem::FileChange { id: id2, changes: changes2, status: status2 },
            ) => same_text(id.as_str(), id2.as_str()) && same_changes(changes, changes2) && *status
                == *status2,
            (
                ThreadItem::ToolCall { id, tool, details },
                ThreadItem::ToolCall { id: id2, tool: tool2, details: details2 },
            ) => same_text(id.as_str(), id2.as_str()) && same_text(tool.as_str(), tool2.as_str())
                && same_text(details.as_str(), details2.as_str()),
            (
                ThreadItem::Other { id, details },
                ThreadItem::Other { id: id2, details: details2 },
            ) => same_text(id.as_str(), id2.as_str()) && same_text(
                details.as_str(),
                details2.as_str(),
            ),
            _ => false,
        }
    }
}

/// What a list of items holds.
pub open spec fn item_models(items: Seq<ThreadItem>) -> Seq<ItemModel> {
    items.map_values(|item: ThreadItem| item@)
}

/// The failure that ended a turn.
#[derive(Debug, Clone, PartialEq, Eq)]
pub struct TurnError {
    pub message: String,
}

/// A turn with its authoritative items.
#[derive(Debug, Clone, PartialEq, Eq)]
pub struct Turn {
    pub id: String,
    pub items: Vec<ThreadItem>,
    pub status: TurnStatus,
    pub error: Option<TurnError>,
}

/// The identity of a request that the app-server sent to the bridge.
#[derive(Debug, PartialEq, Eq)]
pub enum RequestId {
    String(String),
    Integer(i64),
}

/// What a `RequestId` holds.
pub enum RequestIdModel {
    String(Seq<char>),
    Integer(i64),
}

impl View for RequestId {
    type V = RequestIdModel;

    open spec fn view(&self) -> RequestIdModel {
        match *self {
            RequestId::String(text) => RequestIdModel::String(text@),
            RequestId::Integer(number) => RequestIdModel::Integer(number),
        }
    }
}

impl Clone for RequestId {
    fn clone(&self) -> (copy: Self)
        ensures
            copy == *self,
    {
        match self {
            RequestId::String(text) => RequestId::String(text.clone()),
            RequestId::Integer(number) => RequestId::Integer(*number),
        }
    }
}

impl RequestId {
    /// Whether two request identities are the same.
    pub fn same(&self, other: &RequestId) -> (same: bool)
        ensures
            same == (self@ == other@),
    {
        match (self, other) {
            (RequestId::String(one), RequestId::String(two)) => same_text(
                one.as_str(),
                two.as_str(),
            ),
            (RequestId::Integer(one), RequestId::Integer(two)) => *one == *two,
            _ => false,
        }
    }
}

#[derive(Debug, Clone, PartialEq, Eq)]
pub struct ItemStartedNotification {
    pub thread_id: String,
    pub turn_id: String,
    pub item: ThreadItem,
    pub started_at_ms: i64,
}

#[derive(Debug, Clone, PartialEq, Eq)]
pub struct ItemCompletedNotification {
    pub thread_id: String,
    pub turn_id: String,
    pub item: ThreadItem,
    pub completed_at_ms: i64,
}

#[derive(Debug, Clone, PartialEq, Eq)]
pub struct AgentMessageDeltaNotification {
    pub thread_id: String,
    pub turn_id: String,
    pub item_id: String,
    pub delta: String,
}

#[derive(Debug, Clone, PartialEq, Eq)]
pub struct PlanDeltaNotification {
    pub thread_id: String,
    pub turn_id: String,
    pub item_id: String,
    pub delta: String,
}

#[derive(Debug, Clone, PartialEq, Eq)]
pub struct ReasoningSummaryTextDeltaNotification {
    pub thread_id: String,
    pub turn_id: String,
    pub item_id: String,
    pub delta: String,
    pub summary_index: u32,
}

#[derive(Debug, Clone, PartialEq, Eq)]
pub struct ReasoningTextDeltaNotification {
    pub thread_id: String,
    pub turn_id: String,
    pub item_id: String,
    pub delta: String,
    pub content_index: u32,
}

#[derive(Debug, Clone, PartialEq, Eq)]
pub struct CommandExecutionOutputDeltaNotification {
    pub thread_id: String,
    pub turn_id: String,
    pub item_id: String,
    pub delta: String,
}

#[derive(Debug, Clone, PartialEq, Eq)]
pub struct FileChangeOutputDeltaNotification {
    pub thread_id: String,
    pub turn_id: String,
    pub item_id: String,
    pub delta: String,
}

#[derive(Debug, Clone, PartialEq, Eq)]
pub struct FileChangePatchUpdatedNotification {
    pub thread_id: String,
    pub turn_id: String,
    pub item_id: String,
    pub changes: Vec<FileUpdateChange>,
}

#[derive(Debug, Clone, PartialEq, Eq)]
pub struct TurnCompletedNotification {
    pub thread_id: String,
    pub turn: Turn,
}

#[derive(Debug, Clone, PartialEq, Eq)]
pub struct ErrorNotification {
    pub error: TurnError,
    pub will_retry: bool,
    pub thread_id: String,
    pub turn_id: String,
}

#[derive(Debug, Clone, PartialEq, Eq)]
pub struct WarningNotification {
    pub thread_id: Option<String>,
    pub message: String,
}

#[derive(Debug, Clone, PartialEq, Eq)]
pub struct GuardianWarningNotification {
    pub thread_id: String,
    pub message: String,
}

#[derive(Debug, Clone, PartialEq, Eq)]
pub struct ConfigWarningNotification {
    pub summary: String,
    pub details: Option<String>,
}

#[derive(Debug, Clone, PartialEq, Eq)]
pub struct DeprecationNoticeNotification {
    pub summary: String,
    pub details: Option<String>,
}

#[derive(Debug, Clone, PartialEq, Eq)]
pub struct ServerRequestResolvedNotification {
    pub thread_id: String,
    pub request_id: RequestId,
}

#[derive(Debug, Clone, PartialEq, Eq)]
pub struct ThreadClosedNotification {
    pub thread_id: String,
}

#[derive(Debug, Clone, PartialEq, Eq)]
pub struct ThreadDeletedNotification {
    pub thread_id: String,
}

/// A notification of the app-server. Those that the bridge does not interpret
/// arrive as `Unclassified`, with the thread they name where they name one.
#[derive(Debug, Clone, PartialEq, Eq)]
pub enum ServerNotification {
    ItemStarted(ItemStartedNotification),
    ItemCompleted(ItemCompletedNotification),
    AgentMessageDelta(AgentMessageDeltaNotification),
    PlanDelta(PlanDeltaNotification),
    ReasoningSummaryTextDelta(ReasoningSummaryTextDeltaNotification),
    ReasoningTextDelta(ReasoningTextDeltaNotification),
    CommandExecutionOutputDelta(CommandExecutionOutputDeltaNotification),
    FileChangeOutputDelta(FileChangeOutputDeltaNotification),
    FileChangePatchUpdated(FileChangePatchUpdatedNotification),
    TurnCompleted(TurnCompletedNotification),
    Error(ErrorNotification),
    Warning(WarningNotification),
    GuardianWarning(GuardianWarningNotification),
    ConfigWarning(ConfigWarningNotification),
    DeprecationNotice(DeprecationNoticeNotification),
    ServerRequestResolved(ServerRequestResolvedNotification),
    ThreadClosed(ThreadClosedNotification),
    ThreadDeleted(ThreadDeletedNotification),
    Unclassified { thread_id: Option<String> },
}

/// One selectable answer of a question.
#[derive(Debug, PartialEq, Eq)]
pub struct ToolRequestUserInputOption {
    pub label: String,
    pub description: String,
}

impl Clone for ToolRequestUserInputOption {
    fn clone(&self) -> (copy: Self)
        ensures
            copy == *self,
    {
        ToolRequestUserInputOption {
            label: self.label.clone(),
            description: self.description.clone(),
        }
    }
}

/// One question of a tool.
#[derive(Debug, Clone, PartialEq, Eq)]
pub struct ToolRequestUserInputQuestion {
    pub id: String,
    pub header: String,
    pub question: String,
    pub is_other: bool,
    pub is_secret: bool,
    pub options: Option<Vec<ToolRequestUserInputOption>>,
}

/// The questions that a tool asks the user.
#[derive(Debug, Clone, PartialEq, Eq)]
pub struct ToolRequestUserInputParams {
    pub thread_id: String,
    pub turn_id: String,
    pub item_id: String,
    pub questions: Vec<ToolRequestUserInputQuestion>,
    pub auto_resolution_ms: Option<u64>,
}

/// One piece of input of a turn.
#[derive(Debug, Clone, PartialEq, Eq)]
pub enum UserInput {
    Text { text: String, text_elements: Vec<String> },
    Image { detail: Option<String>, url: String },
}

/// What a `UserInput` holds.
#[verifier::ext_equal]
pub enum InputModel {
    Text { text: Seq<char>, text_elements: Seq<Seq<char>> },
    Image { detail: Option<Seq<char>>, url: Seq<char> },
}

impl View for UserInput {
    type V = InputModel;

    open spec fn view(&self) -> InputModel {
        match *self {
            UserInput::Text { text, text_elements } => InputModel::Text {
                text: text@,
                text_elements: texts(text_elements@),
            },
            UserInput::Image { detail, url } => InputModel::Image {
                detail: option_text(detail),
                url: url@,
            },
        }
    }
}

/// What a list of inputs holds.
pub open spec fn input_models(inputs: Seq<UserInput>) -> Seq<InputModel> {
    inputs.map_values(|input: UserInput| input@)
}

} // verus!
