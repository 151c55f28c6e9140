//! The values of the projection: keys, entries, notices, requests and events.

use crate::protocol::CommandExecutionStatus;
use crate::protocol::ItemModel;
use crate::protocol::PatchApplyStatus;
use crate::protocol::RequestId;
use crate::protocol::ThreadItem;
use crate::protocol::ToolRequestUserInputOption;
use crate::protocol::ToolRequestUserInputParams;
use crate::protocol::ToolRequestUserInputQuestion;
use crate::text::copy_texts;
use crate::text::decimal;
use crate::text::decimal_of;
use crate::text::join;
use crate::text::join_of;
use crate::text::same_text;
use crate::text::texts;
use vstd::prelude::*;

verus! {

/// Stable identity for one item in one Codex turn.
#[derive(Debug, PartialEq, Eq, Hash)]
pub struct TranscriptKey {
    pub thread_id: String,
    pub turn_id: String,
    pub item_id: String,
}

/// What a `TranscriptKey` holds.
#[verifier::ext_equal]
pub struct KeyModel {
    pub thread_id: Seq<char>,
    pub turn_id: Seq<char>,
    pub item_id: Seq<char>,
}

impl View for TranscriptKey {
    type V = KeyModel;

    open spec fn view(&self) -> KeyModel {
        KeyModel { thread_id: self.thread_id@, turn_id: self.turn_id@, item_id: self.item_id@ }
    }
}

impl Clone for TranscriptKey {
    fn clone(&self) -> (copy: Self)
        ensures
            copy == *self,
    {
        TranscriptKey {
            thread_id: self.thread_id.clone(),
            turn_id: self.turn_id.clone(),
            item_id: self.item_id.clone(),
        }
    }
}

impl TranscriptKey {
    pub fn new(thread_id: &str, turn_id: &str, item_id: &str) -> (key: Self)
        ensures
            key@ == (KeyModel { thread_id: thread_id@, turn_id: turn_id@, item_id: item_id@ }),
    {
        TranscriptKey {
            thread_id: thread_id.to_owned(),
            turn_id: turn_id.to_owned(),
            item_id: item_id.to_owned(),
        }
    }

    /// Whether two keys name the same item.
    pub fn same(&self, other: &TranscriptKey) -> (same: bool)
        ensures
            same == (self@ == other@),
    {
        same_text(self.thread_id.as_str(), other.thread_id.as_str()) && same_text(
            self.turn_id.as_str(),
            other.turn_id.as_str(),
        ) && same_text(self.item_id.as_str(), other.item_id.as_str())
    }
}

/// Origin classification used by downstream delivery policy.
#[derive(Debug, Clone, Copy, PartialEq, Eq, Structural)]
pub enum EntryOrigin {
    /// A user-visible item or warning authored by Codex.
    CodexTranscript,
    /// A serious bridge condition explicitly approved for provider display.
    BridgeNotice,
    /// Diagnostics and operational state that must never reach a provider.
    Internal,
}

/// One ordered semantic transcript entry.
#[derive(Debug, PartialEq, Eq)]
pub struct TranscriptEntry {
    pub key: TranscriptKey,
    pub item: ThreadItem,
    pub origin: EntryOrigin,
    pub revision: u64,
    pub committed: bool,
}

/// What a `TranscriptEntry` holds.
#[verifier::ext_equal]
pub struct EntryModel {
    pub key: KeyModel,
    pub item: ItemModel,
    pub origin: EntryOrigin,
    pub revision: int,
    pub committed: bool,
}

impl View for TranscriptEntry {
    type V = EntryModel;

    open spec fn view(&self) -> EntryModel {
        EntryModel {
            key: self.key@,
            item: self.item@,
            origin: self.origin,
            revision: self.revision as int,
            committed: self.committed,
        }
    }
}

impl Clone for TranscriptEntry {
    fn clone(&self) -> (copy: Self)
        ensures
            copy@ == self@,
    {
        TranscriptEntry {
            key: self.key.clone(),
            item: self.item.clone(),
            origin: self.origin,
            revision: self.revision,
            committed: self.committed,
        }
    }
}

/// The name of a file-change status.
pub open spec fn patch_status_name(status: PatchApplyStatus) -> Seq<char> {
    match status {
        PatchApplyStatus::InProgress => "InProgress"@,
        PatchApplyStatus::Completed => "Completed"@,
        PatchApplyStatus::Failed => "Failed"@,
        PatchApplyStatus::Declined => "Declined"@,
    }
}

/// The name of a command status.
pub open spec fn command_status_name(status: CommandExecutionStatus) -> Seq<char> {
    match status {
        CommandExecutionStatus::InProgress => "InProgress"@,
        CommandExecutionStatus::Completed => "Completed"@,
        CommandExecutionStatus::Failed => "Failed"@,
        CommandExecutionStatus::Declined => "Declined"@,
    }
}

/// The plain text of an item: none for what is not shown to a provider.
pub open spec fn plain_text_of(item: ItemModel) -> Option<Seq<char>> {
    match item {
        ItemModel::AgentMessage { text, .. } => Some(text),
        ItemModel::Plan { text, .. } => Some(text),
        ItemModel::Reasoning { summary, content, .. } => Some(
            join_of(summary + content, "\n\n"@),
        ),
        ItemModel::CommandExecution { command, status, aggregated_output, .. } => {
            let head = "command: "@ + command_status_name(status) + " · "@ + command;
            match aggregated_output {
                Some(output) => Some(head + "\n"@ + output),
                None => Some(head),
            }
        },
        ItemModel::FileChange { changes, status, .. } => Some(
            "file changes: "@ + patch_status_name(status) + " · "@ + decimal_of(changes.len())
                + " changes"@,
        ),
        ItemModel::ToolCall { tool, .. } => Some("tool: "@ + tool),
        ItemModel::UserMessage { .. } => None,
        ItemModel::Other { .. } => None,
    }
}

fn patch_status_text(status: PatchApplyStatus) -> (name: &'static str)
    ensures
        name@ == patch_status_name(status),
{
    match status {
        PatchApplyStatus::InProgress => "InProgress",
        PatchApplyStatus::Completed => "Completed",
        PatchApplyStatus::Failed => "Failed",
        PatchApplyStatus::Declined => "Declined",
    }
}

fn command_status_text(status: CommandExecutionStatus) -> (name: &'static str)
    ensures
        name@ == command_status_name(status),
{
    match status {
        CommandExecutionStatus::InProgress => "InProgress",
        CommandExecutionStatus::Completed => "Completed",
        CommandExecutionStatus::Failed => "Failed",
        CommandExecutionStatus::Declined => "Declined",
    }
}

impl TranscriptEntry {
    /// The plain text of the entry's item, for providers without rich layout.
    pub fn plain_text(&self) -> (text: Option<String>)
        ensures
            crate::text::option_text(text) == plain_text_of(self@.item),
    {
        match &self.item {
            ThreadItem::AgentMessage { text, .. } => Some(text.clone()),
            ThreadItem::Plan { text, .. } => Some(text.clone()),
            ThreadItem::Reasoning { summary, content, .. } => {
                let mut parts = copy_texts(summary);
                let mut rest = copy_texts(content);
                parts.append(&mut rest);
                proof {
                    assert(texts(parts@) =~= texts(summary@) + texts(content@));
                }
                Some(join(&parts, "\n\n"))
            },
            ThreadItem::CommandExecution { command, status, aggregated_output, .. } => {
                let mut text = "command: ".to_owned();
                text.append(command_status_text(*status));
                text.append(" · ");
                text.append(command.as_str());
                match aggregated_output {
                    Some(output) => {
                        text.append("\n");
                        text.append(output.as_str());
                    },
                    None => {},
                }
                Some(text)
            },
            ThreadItem::FileChange { changes, status, .. } => {
                let mut text = "file changes: ".to_owned();
                text.append(patch_status_text(*status));
                text.append(" · ");
                let count = decimal(changes.len() as u64);
                text.append(count.as_str());
                text.append(" changes");
                Some(text)
            },
            ThreadItem::ToolCall { tool, .. } => {
                let mut text = "tool: ".to_owned();
                text.append(tool.as_str());
                Some(text)
            },
            ThreadItem::UserMessage { .. } => None,
            ThreadItem::Other { .. } => None,
        }
    }
}

/// A user-visible notification which is not represented by a `ThreadItem`.
#[derive(Debug, PartialEq, Eq)]
pub struct TranscriptNotice {
    pub origin: EntryOrigin,
    pub thread_id: String,
    pub turn_id: String,
    pub text: String,
}

/// What a `TranscriptNotice` holds.
#[verifier::ext_equal]
pub struct NoticeModel {
    pub origin: EntryOrigin,
    pub thread_id: Seq<char>,
    pub turn_id: Seq<char>,
    pub text: Seq<char>,
}

impl View for TranscriptNotice {
    type V = NoticeModel;

    open spec fn view(&self) -> NoticeModel {
        NoticeModel {
            origin: self.origin,
            thread_id: self.thread_id@,
            turn_id: self.turn_id@,
            text: self.text@,
        }
    }
}

impl Clone for TranscriptNotice {
    fn clone(&self) -> (copy: Self)
        ensures
            copy == *self,
    {
        TranscriptNotice {
            origin: self.origin,
            thread_id: self.thread_id.clone(),
            turn_id: self.turn_id.clone(),
            text: self.text.clone(),
        }
    }
}

/// One selectable answer, as shown to the user.
#[derive(Debug, PartialEq, Eq)]
pub struct UserInputOptionPresentation {
    pub label: String,
    pub description: String,
}

impl Clone for UserInputOptionPresentation {
    fn clone(&self) -> (copy: Self)
        ensures
            copy == *self,
    {
        UserInputOptionPresentation {
            label: self.label.clone(),
            description: self.description.clone(),
        }
    }
}

/// One question, as shown to the user.
#[derive(Debug, PartialEq, Eq)]
pub struct UserInputQuestionPresentation {
    pub id: String,
    pub header: String,
    pub question: String,
    pub is_other: bool,
    pub is_secret: bool,
    pub options: Option<Vec<UserInputOptionPresentation>>,
}

/// An interactive request, as shown to the user.
#[derive(Debug, PartialEq, Eq)]
pub struct UserInputPresentation {
    pub request_id: String,
    pub key: TranscriptKey,
    pub questions: Vec<UserInputQuestionPresentation>,
}

/// What a selectable answer holds.
#[verifier::ext_equal]
pub struct OptionModel {
    pub label: Seq<char>,
    pub description: Seq<char>,
}

/// What a question holds.
#[verifier::ext_equal]
pub struct QuestionModel {
    pub id: Seq<char>,
    pub header: Seq<char>,
    pub question: Seq<char>,
    pub is_other: bool,
    pub is_secret: bool,
    pub options: Option<Seq<OptionModel>>,
}

/// What an interactive request holds.
#[verifier::ext_equal]
pub struct RequestModel {
    pub request_id: Seq<char>,
    pub key: KeyModel,
    pub questions: Seq<QuestionModel>,
}

/// What a list of presented answers holds.
pub open spec fn option_models(options: Seq<UserInputOptionPresentation>) -> Seq<OptionModel> {
    options.map_values(
        |option: UserInputOptionPresentation|
            OptionModel { label: option.label@, description: option.description@ },
    )
}

impl View for UserInputQuestionPresentation {
    type V = QuestionModel;

    open spec fn view(&self) -> QuestionModel {
        QuestionModel {
            id: self.id@,
            header: self.header@,
            question: self.question@,
            is_other: self.is_other,
            is_secret: self.is_secret,
            options: match self.options {
                Some(options) => Some(option_models(options@)),
                None => None,
            },
        }
    }
}

/// What a list of presented questions holds.
pub open spec fn question_models(
    questions: Seq<UserInputQuestionPresentation>,
) -> Seq<QuestionModel> {
    questions.map_values(|question: UserInputQuestionPresentation| question@)
}

impl View for UserInputPresentation {
    type V = RequestModel;

    open spec fn view(&self) -> RequestModel {
        RequestModel {
            request_id: self.request_id@,
            key: self.key@,
            questions: question_models(self.questions@),
        }
    }
}

/// The text of a request identity: a string as it is, a number in decimal.
pub open spec fn request_id_text(request_id: RequestId) -> Seq<char> {
    match request_id {
        RequestId::String(text) => text@,
        RequestId::Integer(number) => if number < 0 {
            "-"@ + decimal_of((-number) as nat)
        } else {
            decimal_of(number as nat)
        },
    }
}

/// What a question of a tool is shown as.
pub open spec fn asked(question: ToolRequestUserInputQuestion) -> QuestionModel {
    QuestionModel {
        id: question.id@,
        header: question.header@,
        question: question.question@,
        is_other: question.is_other,
        is_secret: question.is_secret,
        options: match question.options {
            Some(options) => Some(
                options@.map_values(
                    |option: ToolRequestUserInputOption|
                        OptionModel { label: option.label@, description: option.description@ },
                ),
            ),
            None => None,
        },
    }
}

/// What a request of a tool is shown as.
pub open spec fn presented(
    request_id: RequestId,
    params: ToolRequestUserInputParams,
) -> RequestModel {
    RequestModel {
        request_id: request_id_text(request_id),
        key: KeyModel {
            thread_id: params.thread_id@,
            turn_id: params.turn_id@,
            item_id: params.item_id@,
        },
        questions: params.questions@.map_values(|question: ToolRequestUserInputQuestion|
            asked(question)),
    }
}

fn request_text(request_id: &RequestId) -> (text: String)
    ensures
        text@ == request_id_text(*request_id),
{
    match request_id {
        RequestId::String(text) => text.clone(),
        RequestId::Integer(number) => {
            if *number < 0 {
                let magnitude: u64 = if *number == i64::MIN {
                    0x8000_0000_0000_0000
                } else {
                    (-*number) as u64
                };
                crate::text::joined("-", decimal(magnitude).as_str())
            } else {
                decimal(*number as u64)
            }
        },
    }
}

fn present_options(
    options: &Vec<ToolRequestUserInputOption>,
) -> (shown: Vec<UserInputOptionPresentation>)
    ensures
        option_models(shown@) == options@.map_values(
            |option: ToolRequestUserInputOption|
                OptionModel { label: option.label@, description: option.description@ },
        ),
{
    let mut shown: Vec<UserInputOptionPresentation> = Vec::new();
    let mut index: usize = 0;
    while index < options.len()
        invariant
            index <= options@.len(),
            shown@.len() == index,
            forall|i: int|
                0 <= i < index ==> (#[trigger] shown@[i]).label@ == options@[i].label@
                    && shown@[i].description@ == options@[i].description@,
        decreases options@.len() - index,
    {
        shown.push(
            UserInputOptionPresentation {
                label: options[index].label.clone(),
                description: options[index].description.clone(),
            },
        );
        index += 1;
    }
    assert(option_models(shown@) =~= options@.map_values(
        |option: ToolRequestUserInputOption|
            OptionModel { label: option.label@, description: option.description@ },
    ));
    shown
}

impl UserInputQuestionPresentation {
    fn from_question(question: &ToolRequestUserInputQuestion) -> (shown: Self)
        ensures
            shown@ == asked(*question),
    {
        UserInputQuestionPresentation {
            id: question.id.clone(),
            header: question.header.clone(),
            question: question.question.clone(),
            is_other: question.is_other,
            is_secret: question.is_secret,
            options: match &question.options {
                Some(options) => Some(present_options(options)),
                None => None,
            },
        }
    }
}

impl Clone for UserInputQuestionPresentation {
    fn clone(&self) -> (copy: Self)
        ensures
            copy@ == self@,
    {
        UserInputQuestionPresentation {
            id: self.id.clone(),
            header: self.header.clone(),
            question: self.question.clone(),
            is_other: self.is_other,
            is_secret: self.is_secret,
            options: match &self.options {
                Some(options) => {
                    let copied = options.clone();
                    assert(copied@ =~= options@);
                    Some(copied)
                },
                None => None,
            },
        }
    }
}

impl Clone for UserInputPresentation {
    fn clone(&self) -> (copy: Self)
        ensures
            copy@ == self@,
    {
        let questions = self.questions.clone();
        assert(question_models(questions@) =~= question_models(self.questions@));
        UserInputPresentation {
            request_id: self.request_id.clone(),
            key: self.key.clone(),
            questions,
        }
    }
}

impl UserInputPresentation {
    /// The shared presentation of a tool's questions.
    pub fn from_request(
        request_id: &RequestId,
        params: &ToolRequestUserInputParams,
    ) -> (shown: Self)
        ensures
            shown@ == presented(*request_id, *params),
    {
        let mut questions: Vec<UserInputQuestionPresentation> = Vec::new();
        let mut index: usize = 0;
        while index < params.questions.len()
            invariant
                index <= params.questions@.len(),
                questions@.len() == index,
                forall|i: int|
                    0 <= i < index ==> (#[trigger] questions@[i])@ == asked(params.questions@[i]),
            decreases params.questions@.len() - index,
        {
            questions.push(UserInputQuestionPresentation::from_question(&params.questions[index]));
            index += 1;
        }
        assert(question_models(questions@) =~= presented(*request_id, *params).questions);
        UserInputPresentation {
            request_id: request_text(request_id),
            key: TranscriptKey::new(
                params.thread_id.as_str(),
                params.turn_id.as_str(),
                params.item_id.as_str(),
            ),
            questions,
        }
    }
}

/// The result of classifying an app-server notification.
#[derive(Debug, PartialEq, Eq)]
pub enum ProjectionEvent {
    Entry(Box<TranscriptEntry>),
    Notice(TranscriptNotice),
    Request(Box<UserInputPresentation>),
    /// The event is deliberately internal-only. It lets callers count and
    /// trace suppressed protocol additions without serializing them.
    Suppressed,
}

/// What a `ProjectionEvent` holds.
#[verifier::ext_equal]
pub enum EventModel {
    Entry(EntryModel),
    Notice(NoticeModel),
    Request(RequestModel),
    Suppressed,
}

impl View for ProjectionEvent {
    type V = EventModel;

    open spec fn view(&self) -> EventModel {
        match *self {
            ProjectionEvent::Entry(entry) => EventModel::Entry(entry@),
            ProjectionEvent::Notice(notice) => EventModel::Notice(notice@),
            ProjectionEvent::Request(request) => EventModel::Request(request@),
            ProjectionEvent::Suppressed => EventModel::Suppressed,
        }
    }
}

/// What a list of events holds.
pub open spec fn event_models(events: Seq<ProjectionEvent>) -> Seq<EventModel> {
    events.map_values(|event: ProjectionEvent| event@)
}

/// What a list of entries holds.
pub open spec fn entry_models(entries: Seq<TranscriptEntry>) -> Seq<EntryModel> {
    entries.map_values(|entry: TranscriptEntry| entry@)
}

} // verus!
