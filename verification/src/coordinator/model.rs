//! The values of the coordinator: what it holds, what it wants done, and what it
//! is waiting for.

use crate::approval::ApprovalDecision;
use crate::approval::ApprovalPresentation;
use crate::approval::DecisionModel;
use crate::approval::PresentationModel;
use crate::command_catalog::rewritten;
use crate::command_catalog::CommandCatalog;
use crate::commands::BridgeCommand;
use crate::commands::CommandModel;
use crate::messaging::DeliveryIntent;
use crate::output::labelled;
use crate::output::MESSAGE_LIMIT;
use crate::protocol::input_models;
use crate::protocol::InputModel;
use crate::protocol::RequestId;
use crate::protocol::RequestIdModel;
use crate::protocol::Turn;
use crate::protocol::UserInput;
use crate::state::BindingModel;
use crate::state::BridgeState;
use crate::state::PendingSteer;
use crate::state::StateModel;
use crate::state::SteerModel;
use crate::state::ThreadBinding;
use crate::text::after_prefix;
use crate::text::texts;
use crate::transcript::EntryOrigin;
use crate::transcript::KeyModel;
use crate::transcript::ProjectorModel;
use crate::transcript::TranscriptProjector;
use vstd::prelude::*;

verus! {

/// The longest prompt or answer, in bytes of UTF-8.
pub const MAX_PROMPT_BYTES: usize = 10_000;

pub const MAX_PENDING_REQUESTS: usize = 32;

pub const USER_INPUT_TIMEOUT_SECONDS: u64 = 300;

pub const MAX_FILE_CHANGE_ITEMS: usize = 128;

pub const MAX_FILE_CHANGE_PATHS: usize = 128;

pub const MAX_FILE_CHANGE_PATH_CHARS: usize = 512;

/// How often a thread may fail to resume before it is given up.
pub const MAX_RESUME_FAILURES: u8 = 3;

/// What the coordinator is configured with.
#[derive(Debug, PartialEq, Eq)]
pub struct Settings {
    /// The digits of the account's phone number.
    pub configured_phone: String,
    pub self_chat_id: String,
    pub output_chunk_chars: usize,
    pub max_queued_prompts: usize,
    pub dedupe_capacity: usize,
    pub dedupe_ttl_hours: u64,
    /// Whether command and file-change approvals are shown at all.
    pub include_approval_notices: bool,
    pub command_catalog_path: String,
}

/// What is to be done with a message once its acceptance is durable.
#[derive(Debug, PartialEq, Eq)]
pub enum AcceptedAction {
    Command(BridgeCommand),
    PromptTooLong,
    QueueFull,
    StartQueuedPrompt,
    Steer(PendingSteer),
    ApprovalChoice(usize),
    ApprovalInputBlocked,
    UnsupportedAttachment(String),
}

/// What an `AcceptedAction` holds.
pub enum AcceptedModel {
    Command(CommandModel),
    PromptTooLong,
    QueueFull,
    StartQueuedPrompt,
    Steer(SteerModel),
    ApprovalChoice(int),
    ApprovalInputBlocked,
    UnsupportedAttachment(Seq<char>),
}

impl View for AcceptedAction {
    type V = AcceptedModel;

    open spec fn view(&self) -> AcceptedModel {
        match *self {
            AcceptedAction::Command(command) => AcceptedModel::Command(command@),
            AcceptedAction::PromptTooLong => AcceptedModel::PromptTooLong,
            AcceptedAction::QueueFull => AcceptedModel::QueueFull,
            AcceptedAction::StartQueuedPrompt => AcceptedModel::StartQueuedPrompt,
            AcceptedAction::Steer(steer) => AcceptedModel::Steer(steer@),
            AcceptedAction::ApprovalChoice(choice) => AcceptedModel::ApprovalChoice(choice as int),
            AcceptedAction::ApprovalInputBlocked => AcceptedModel::ApprovalInputBlocked,
            AcceptedAction::UnsupportedAttachment(kind) => AcceptedModel::UnsupportedAttachment(
                kind@,
            ),
        }
    }
}

/// One question of a tool, as far as it is asked and answered here.
#[derive(Debug, PartialEq, Eq)]
pub struct PendingQuestion {
    pub id: String,
    pub text: String,
}

/// An answer to a question.
#[derive(Debug, PartialEq, Eq)]
pub struct Answer {
    pub question_id: String,
    pub answer: String,
}

/// Questions of a tool that the user answers one after the other.
#[derive(Debug, PartialEq, Eq)]
pub struct PendingRequest {
    pub token: String,
    pub request_id: RequestId,
    pub questions: Vec<PendingQuestion>,
    pub answers: Vec<Answer>,
    pub expires_at: u64,
}

/// What a `PendingQuestion` holds.
#[verifier::ext_equal]
pub struct PendingQuestionModel {
    pub id: Seq<char>,
    pub text: Seq<char>,
}

/// What an `Answer` holds.
#[verifier::ext_equal]
pub struct AnswerModel {
    pub question_id: Seq<char>,
    pub answer: Seq<char>,
}

/// What a `PendingRequest` holds.
#[verifier::ext_equal]
pub struct PendingRequestModel {
    pub token: Seq<char>,
    pub request_id: RequestIdModel,
    pub questions: Seq<PendingQuestionModel>,
    pub answers: Seq<AnswerModel>,
    pub expires_at: int,
}

impl View for PendingQuestion {
    type V = PendingQuestionModel;

    open spec fn view(&self) -> PendingQuestionModel {
        PendingQuestionModel { id: self.id@, text: self.text@ }
    }
}

impl View for Answer {
    type V = AnswerModel;

    open spec fn view(&self) -> AnswerModel {
        AnswerModel { question_id: self.question_id@, answer: self.answer@ }
    }
}

impl Clone for Answer {
    fn clone(&self) -> (copy: Self)
        ensures
            copy == *self,
    {
        Answer { question_id: self.question_id.clone(), answer: self.answer.clone() }
    }
}

/// What a list of questions holds.
pub open spec fn pending_question_models(questions: Seq<PendingQuestion>) -> Seq<
    PendingQuestionModel,
> {
    questions.map_values(|question: PendingQuestion| question@)
}

/// What a list of answers holds.
pub open spec fn answer_models(answers: Seq<Answer>) -> Seq<AnswerModel> {
    answers.map_values(|answer: Answer| answer@)
}

impl View for PendingRequest {
    type V = PendingRequestModel;

    open spec fn view(&self) -> PendingRequestModel {
        PendingRequestModel {
            token: self.token@,
            request_id: self.request_id@,
            questions: pending_question_models(self.questions@),
            answers: answer_models(self.answers@),
            expires_at: self.expires_at as int,
        }
    }
}

/// What is asked for approval.
#[derive(Debug, Clone, Copy, PartialEq, Eq, Structural)]
pub enum ApprovalKind {
    Command,
    FileChange,
    Permissions,
}

/// An approval request that waits for the user.
#[derive(Debug, PartialEq, Eq)]
pub struct PendingApproval {
    pub kind: ApprovalKind,
    pub request_id: RequestId,
    pub presentation: ApprovalPresentation,
}

/// What a `PendingApproval` holds.
#[verifier::ext_equal]
pub struct PendingApprovalModel {
    pub kind: ApprovalKind,
    pub request_id: RequestIdModel,
    pub presentation: PresentationModel,
}

impl View for PendingApproval {
    type V = PendingApprovalModel;

    open spec fn view(&self) -> PendingApprovalModel {
        PendingApprovalModel {
            kind: self.kind,
            request_id: self.request_id@,
            presentation: self.presentation@,
        }
    }
}

/// The paths of a file change that has started.
#[derive(Debug, PartialEq, Eq)]
pub struct FileChangePaths {
    pub thread_id: String,
    pub turn_id: String,
    pub item_id: String,
    pub paths: Vec<String>,
}

/// What `FileChangePaths` hold.
#[verifier::ext_equal]
pub struct FileChangePathsModel {
    pub key: KeyModel,
    pub paths: Seq<Seq<char>>,
}

impl View for FileChangePaths {
    type V = FileChangePathsModel;

    open spec fn view(&self) -> FileChangePathsModel {
        FileChangePathsModel {
            key: KeyModel {
                thread_id: self.thread_id@,
                turn_id: self.turn_id@,
                item_id: self.item_id@,
            },
            paths: texts(self.paths@),
        }
    }
}

/// Which statuses the running turn has shown.
#[derive(Debug, Clone, Copy, PartialEq, Eq, Structural)]
pub struct ShownStatuses {
    pub working: bool,
    pub reasoning: bool,
    pub tooling: bool,
}

/// The answer to a request of the app-server.
#[derive(Debug, PartialEq, Eq)]
pub enum RequestResponse {
    Approval(ApprovalDecision),
    Answers(Vec<Answer>),
}

/// What a `RequestResponse` holds.
#[verifier::ext_equal]
pub enum ResponseModel {
    Approval(DecisionModel),
    Answers(Seq<AnswerModel>),
}

impl View for RequestResponse {
    type V = ResponseModel;

    open spec fn view(&self) -> ResponseModel {
        match *self {
            RequestResponse::Approval(decision) => ResponseModel::Approval(decision@),
            RequestResponse::Answers(answers) => ResponseModel::Answers(answer_models(answers@)),
        }
    }
}

/// Something that is done without waiting for its outcome.
#[derive(Debug, PartialEq, Eq)]
pub enum Effect {
    /// A message of the bridge, or of Codex outside any item.
    Notice { origin: EntryOrigin, thread_id: String, turn_id: String, text: String },
    /// A revision of a transcript item.
    Deliver(DeliveryIntent),
    /// A refusal of a request of the app-server.
    Reject(RequestId),
    /// The removal of an attachment file that is no longer needed.
    RemoveAttachment(String),
    /// The answer to whoever handed a message in: whether it is kept.
    Accepted(bool),
}

/// What a `DeliveryIntent` holds.
#[verifier::ext_equal]
pub struct IntentModel {
    pub conversation_id: Seq<char>,
    pub generation: int,
    pub key: KeyModel,
    pub origin: EntryOrigin,
    pub text: Seq<char>,
    pub revision: int,
    pub committed: bool,
}

/// What an intent holds.
pub open spec fn intent_model(intent: DeliveryIntent) -> IntentModel {
    IntentModel {
        conversation_id: intent.conversation_id@,
        generation: intent.generation as int,
        key: intent.key@,
        origin: intent.origin,
        text: intent.text@,
        revision: intent.revision as int,
        committed: intent.committed,
    }
}

/// What an `Effect` holds.
#[verifier::ext_equal]
pub enum EffectModel {
    Notice { origin: EntryOrigin, thread_id: Seq<char>, turn_id: Seq<char>, text: Seq<char> },
    Deliver(IntentModel),
    Reject(RequestIdModel),
    RemoveAttachment(Seq<char>),
    Accepted(bool),
}

impl View for Effect {
    type V = EffectModel;

    open spec fn view(&self) -> EffectModel {
        match *self {
            Effect::Notice { origin, thread_id, turn_id, text } => EffectModel::Notice {
                origin,
                thread_id: thread_id@,
                turn_id: turn_id@,
                text: text@,
            },
            Effect::Deliver(intent) => EffectModel::Deliver(intent_model(intent)),
            Effect::Reject(request_id) => EffectModel::Reject(request_id@),
            Effect::RemoveAttachment(path) => EffectModel::RemoveAttachment(path@),
            Effect::Accepted(kept) => EffectModel::Accepted(kept),
        }
    }
}

/// What a list of effects holds.
pub open spec fn effect_models(effects: Seq<Effect>) -> Seq<EffectModel> {
    effects.map_values(|effect: Effect| effect@)
}

/// Something that is done next, and whose outcome the coordinator takes.
#[derive(Debug, PartialEq, Eq)]
pub enum Action {
    /// Nothing, until something happens.
    Rest,
    /// A step was made; there may be more to do.
    Proceed,
    /// Save the state; `on_saved` takes the outcome.
    Save,
    /// Start a thread; `on_thread_started` takes the outcome.
    StartThread,
    /// Resume a thread; `on_thread_resumed` takes the outcome.
    ResumeThread { thread_id: String },
    /// List threads; `on_threads_listed` takes the outcome.
    ListThreads,
    /// Start a turn; `on_turn_started` takes the outcome.
    StartTurn { thread_id: String, message_id: String, inputs: Vec<UserInput> },
    /// Add input to a turn; `on_steered` takes the outcome.
    SteerTurn { thread_id: String, turn_id: String, message_id: String, inputs: Vec<UserInput> },
    /// Interrupt a turn; `on_interrupted` takes the outcome.
    InterruptTurn { thread_id: String, turn_id: String },
    /// Answer a request of the app-server; `on_resolved` takes the outcome.
    Resolve { request_id: RequestId, response: RequestResponse },
    /// Load the command catalogue; `on_catalog_loaded` takes the outcome.
    LoadCatalog,
    /// Send a message of the old outbox; `on_legacy_sent` takes the outcome.
    SendLegacy { chat_id: String, body: String },
}

/// What an `Action` holds.
#[verifier::ext_equal]
pub enum ActionModel {
    Rest,
    Proceed,
    Save,
    StartThread,
    ResumeThread { thread_id: Seq<char> },
    ListThreads,
    StartTurn { thread_id: Seq<char>, message_id: Seq<char>, inputs: Seq<InputModel> },
    SteerTurn {
        thread_id: Seq<char>,
        turn_id: Seq<char>,
        message_id: Seq<char>,
        inputs: Seq<InputModel>,
    },
    InterruptTurn { thread_id: Seq<char>, turn_id: Seq<char> },
    Resolve { request_id: RequestIdModel, response: ResponseModel },
    LoadCatalog,
    SendLegacy { chat_id: Seq<char>, body: Seq<char> },
}

impl View for Action {
    type V = ActionModel;

    open spec fn view(&self) -> ActionModel {
        match *self {
            Action::Rest => ActionModel::Rest,
            Action::Proceed => ActionModel::Proceed,
            Action::Save => ActionModel::Save,
            Action::StartThread => ActionModel::StartThread,
            Action::ResumeThread { thread_id } => ActionModel::ResumeThread {
                thread_id: thread_id@,
            },
            Action::ListThreads => ActionModel::ListThreads,
            Action::StartTurn { thread_id, message_id, inputs } => ActionModel::StartTurn {
                thread_id: thread_id@,
                message_id: message_id@,
                inputs: input_models(inputs@),
            },
            Action::SteerTurn { thread_id, turn_id, message_id, inputs } =>
                ActionModel::SteerTurn {
                thread_id: thread_id@,
                turn_id: turn_id@,
                message_id: message_id@,
                inputs: input_models(inputs@),
            },
            Action::InterruptTurn { thread_id, turn_id } => ActionModel::InterruptTurn {
                thread_id: thread_id@,
                turn_id: turn_id@,
            },
            Action::Resolve { request_id, response } => ActionModel::Resolve {
                request_id: request_id@,
                response: response@,
            },
            Action::LoadCatalog => ActionModel::LoadCatalog,
            Action::SendLegacy { chat_id, body } => ActionModel::SendLegacy {
                chat_id: chat_id@,
                body: body@,
            },
        }
    }
}

/// Why a thread is bound.
#[derive(Debug, Clone, Copy, PartialEq, Eq, Structural)]
pub enum BindPurpose {
    /// A prompt waits for it.
    Prompt,
    /// The user asked for a new thread.
    New,
    /// The user chose an existing thread.
    Attach,
}

/// Why a thread is resumed.
#[derive(Debug, PartialEq, Eq)]
pub enum ResumePurpose {
    /// The connection was made; it counts once the thread is resumed.
    Reconnect { thread_id: String },
    /// Notifications were lost on a connection that stands.
    Lagged { thread_id: String },
    /// The user chose the thread.
    Attach { thread_id: String },
    /// A prompt may have been received.
    Uncertain { thread_id: String },
}

/// What follows once a message for the running turn stands in the queue.
#[derive(Debug, Clone, Copy, PartialEq, Eq, Structural)]
pub enum AfterRequeue {
    Nothing,
    StartNextPrompt,
    TellNotSteerable,
    TellNotSteered,
}

/// What follows a save.
#[derive(Debug, PartialEq, Eq)]
pub enum AfterSave {
    /// A message was accepted.
    Accepted,
    /// A thread was bound.
    Bound { previous: Option<ThreadBinding>, thread_id: String, purpose: BindPurpose },
    /// The user is told that Codex is unavailable.
    Unavailable,
    /// The first prompt was marked, and is submitted.
    PromptMarked { thread_id: String },
    /// A turn runs.
    TurnStarted,
    /// A message for the running turn was marked, and is submitted.
    SteerMarked { steer: PendingSteer, thread_id: String, turn_id: String, retried: bool },
    /// A message for the running turn was accepted by Codex.
    SteerAccepted,
    /// A message for the running turn was put into the queue.
    SteerRequeued { next: AfterRequeue },
    /// Messages for the running turn were compared with the thread.
    SteersReconciled,
    /// A turn ended while the bridge was disconnected.
    TurnRecovered { thread_id: String, turn: Option<Turn>, reconnect: bool },
    /// A thread was given up.
    Orphaned { reconnect: bool },
    /// A turn ended.
    TurnFinished,
    /// A prompt that may have been received was, and has ended.
    UncertainFinished { thread_id: String, turn: Turn },
    /// A prompt that may have been received was not.
    UncertainCleared,
    /// A message of the outbox was sent, or not.
    LegacySettled { sent: bool },
    /// The state, which could not be saved before.
    Recovered,
    /// Nothing in particular.
    Nothing,
}

/// What the coordinator is waiting for.
#[derive(Debug, PartialEq, Eq)]
pub enum Wait {
    Saving(AfterSave),
    StartingThread(BindPurpose),
    ResumingThread(ResumePurpose),
    ListingThreads,
    StartingTurn { thread_id: String },
    Steering { steer: PendingSteer, thread_id: String, turn_id: String, retried: bool },
    Interrupting { thread_id: String, turn_id: String },
    ResolvingApproval { request_id: RequestId, decision: ApprovalDecision, label: String },
    ResolvingAnswers { token: String },
    LoadingCatalog,
    SendingLegacy { delivered: bool },
}

/// What an `AfterSave` holds.
#[verifier::ext_equal]
pub enum AfterSaveModel {
    Accepted,
    Bound { previous: Option<BindingModel>, thread_id: Seq<char>, purpose: BindPurpose },
    Unavailable,
    PromptMarked { thread_id: Seq<char> },
    TurnStarted,
    SteerMarked { steer: SteerModel, thread_id: Seq<char>, turn_id: Seq<char>, retried: bool },
    SteerAccepted,
    SteerRequeued { next: AfterRequeue },
    SteersReconciled,
    TurnRecovered { thread_id: Seq<char>, turn: Option<Turn>, reconnect: bool },
    Orphaned { reconnect: bool },
    TurnFinished,
    UncertainFinished { thread_id: Seq<char>, turn: Turn },
    UncertainCleared,
    LegacySettled { sent: bool },
    Recovered,
    Nothing,
}

/// What a `ResumePurpose` holds.
#[verifier::ext_equal]
pub enum ResumePurposeModel {
    Reconnect { thread_id: Seq<char> },
    Lagged { thread_id: Seq<char> },
    Attach { thread_id: Seq<char> },
    Uncertain { thread_id: Seq<char> },
}

/// What a `Wait` holds.
#[verifier::ext_equal]
pub enum WaitModel {
    Saving(AfterSaveModel),
    StartingThread(BindPurpose),
    ResumingThread(ResumePurposeModel),
    ListingThreads,
    StartingTurn { thread_id: Seq<char> },
    Steering { steer: SteerModel, thread_id: Seq<char>, turn_id: Seq<char>, retried: bool },
    Interrupting { thread_id: Seq<char>, turn_id: Seq<char> },
    ResolvingApproval { request_id: RequestIdModel, decision: DecisionModel, label: Seq<char> },
    ResolvingAnswers { token: Seq<char> },
    LoadingCatalog,
    SendingLegacy { delivered: bool },
}

impl View for AfterSave {
    type V = AfterSaveModel;

    open spec fn view(&self) -> AfterSaveModel {
        match *self {
            AfterSave::Accepted => AfterSaveModel::Accepted,
            AfterSave::Bound { previous, thread_id, purpose } => AfterSaveModel::Bound {
                previous: crate::state::binding_model(previous),
                thread_id: thread_id@,
                purpose,
            },
            AfterSave::Unavailable => AfterSaveModel::Unavailable,
            AfterSave::PromptMarked { thread_id } => AfterSaveModel::PromptMarked {
                thread_id: thread_id@,
            },
            AfterSave::TurnStarted => AfterSaveModel::TurnStarted,
            AfterSave::SteerMarked { steer, thread_id, turn_id, retried } =>
                AfterSaveModel::SteerMarked {
                steer: steer@,
                thread_id: thread_id@,
                turn_id: turn_id@,
                retried,
            },
            AfterSave::SteerAccepted => AfterSaveModel::SteerAccepted,
            AfterSave::SteerRequeued { next } => AfterSaveModel::SteerRequeued { next },
            AfterSave::SteersReconciled => AfterSaveModel::SteersReconciled,
            AfterSave::TurnRecovered { thread_id, turn, reconnect } =>
                AfterSaveModel::TurnRecovered { thread_id: thread_id@, turn, reconnect },
            AfterSave::Orphaned { reconnect } => AfterSaveModel::Orphaned { reconnect },
            AfterSave::TurnFinished => AfterSaveModel::TurnFinished,
            AfterSave::UncertainFinished { thread_id, turn } => AfterSaveModel::UncertainFinished {
                thread_id: thread_id@,
                turn,
            },
            AfterSave::UncertainCleared => AfterSaveModel::UncertainCleared,
            AfterSave::LegacySettled { sent } => AfterSaveModel::LegacySettled { sent },
            AfterSave::Recovered => AfterSaveModel::Recovered,
            AfterSave::Nothing => AfterSaveModel::Nothing,
        }
    }
}

impl View for ResumePurpose {
    type V = ResumePurposeModel;

    open spec fn view(&self) -> ResumePurposeModel {
        match *self {
            ResumePurpose::Reconnect { thread_id } => ResumePurposeModel::Reconnect {
                thread_id: thread_id@,
            },
            ResumePurpose::Lagged { thread_id } => ResumePurposeModel::Lagged {
                thread_id: thread_id@,
            },
            ResumePurpose::Attach { thread_id } => ResumePurposeModel::Attach {
                thread_id: thread_id@,
            },
            ResumePurpose::Uncertain { thread_id } => ResumePurposeModel::Uncertain {
                thread_id: thread_id@,
            },
        }
    }
}

impl View for Wait {
    type V = WaitModel;

    open spec fn view(&self) -> WaitModel {
        match *self {
            Wait::Saving(next) => WaitModel::Saving(next@),
            Wait::StartingThread(purpose) => WaitModel::StartingThread(purpose),
            Wait::ResumingThread(purpose) => WaitModel::ResumingThread(purpose@),
            Wait::ListingThreads => WaitModel::ListingThreads,
            Wait::StartingTurn { thread_id } => WaitModel::StartingTurn { thread_id: thread_id@ },
            Wait::Steering { steer, thread_id, turn_id, retried } => WaitModel::Steering {
                steer: steer@,
                thread_id: thread_id@,
                turn_id: turn_id@,
                retried,
            },
            Wait::Interrupting { thread_id, turn_id } => WaitModel::Interrupting {
                thread_id: thread_id@,
                turn_id: turn_id@,
            },
            Wait::ResolvingApproval { request_id, decision, label } =>
                WaitModel::ResolvingApproval {
                request_id: request_id@,
                decision: decision@,
                label: label@,
            },
            Wait::ResolvingAnswers { token } => WaitModel::ResolvingAnswers { token: token@ },
            Wait::LoadingCatalog => WaitModel::LoadingCatalog,
            Wait::SendingLegacy { delivered } => WaitModel::SendingLegacy { delivered },
        }
    }
}

/// What is left to do once nothing is waited for; the last comes first.
#[derive(Debug, PartialEq, Eq)]
pub enum Task {
    StartNextPrompt,
    AdvanceQueue,
    SubmitSteer(PendingSteer),
    RetrySteers,
    ResumeActive { turns: Vec<Turn>, reconnect: bool },
    FinishResume { resumed: bool, reconnect: bool },
    InterruptActive,
    /// Send what the outbox holds; `delivered` where some of it was sent already.
    FlushLegacy { delivered: bool },
    Resume { reconnect: bool },
    /// Try to save the state again.
    Recover,
    /// Go on with the queue where no turn runs.
    GoOn,
}

/// What a `Task` holds.
#[verifier::ext_equal]
pub enum TaskModel {
    StartNextPrompt,
    AdvanceQueue,
    SubmitSteer(SteerModel),
    RetrySteers,
    ResumeActive { turns: Seq<Turn>, reconnect: bool },
    FinishResume { resumed: bool, reconnect: bool },
    InterruptActive,
    FlushLegacy { delivered: bool },
    Resume { reconnect: bool },
    Recover,
    GoOn,
}

impl View for Task {
    type V = TaskModel;

    open spec fn view(&self) -> TaskModel {
        match *self {
            Task::StartNextPrompt => TaskModel::StartNextPrompt,
            Task::AdvanceQueue => TaskModel::AdvanceQueue,
            Task::SubmitSteer(steer) => TaskModel::SubmitSteer(steer@),
            Task::RetrySteers => TaskModel::RetrySteers,
            Task::ResumeActive { turns, reconnect } => TaskModel::ResumeActive {
                turns: turns@,
                reconnect,
            },
            Task::FinishResume { resumed, reconnect } => TaskModel::FinishResume {
                resumed,
                reconnect,
            },
            Task::InterruptActive => TaskModel::InterruptActive,
            Task::FlushLegacy { delivered } => TaskModel::FlushLegacy { delivered },
            Task::Resume { reconnect } => TaskModel::Resume { reconnect },
            Task::Recover => TaskModel::Recover,
            Task::GoOn => TaskModel::GoOn,
        }
    }
}

/// What a list of tasks holds.
pub open spec fn task_models(tasks: Seq<Task>) -> Seq<TaskModel> {
    tasks.map_values(|task: Task| task@)
}

/// The single owner of the conversation. It decides; its surroundings perform each
/// action and report the outcome.
#[derive(Debug)]
pub struct Coordinator {
    pub settings: Settings,
    pub state: BridgeState,
    /// The state before the message that is being accepted.
    pub previous_state: Option<BridgeState>,
    /// What the message that is being accepted asks for.
    pub accepted: Option<AcceptedAction>,
    pub command_catalog: CommandCatalog,
    pub projector: TranscriptProjector,
    pub shown_statuses: ShownStatuses,
    pub file_change_paths: Vec<FileChangePaths>,
    pub pending_requests: Vec<PendingRequest>,
    pub pending_approvals: Vec<PendingApproval>,
    pub state_healthy: bool,
    pub app_server_connected: bool,
    pub transport_healthy: bool,
    pub stream_degraded: bool,
    pub resume_failures: u8,
    pub effects: Vec<Effect>,
    pub tasks: Vec<Task>,
    pub wait: Option<Wait>,
}

/// What a `Coordinator` holds.
#[verifier::ext_equal]
pub struct CoordinatorModel {
    pub settings: Settings,
    pub state: StateModel,
    pub previous_state: Option<StateModel>,
    pub accepted: Option<AcceptedModel>,
    pub command_catalog: CommandCatalog,
    pub projector: ProjectorModel,
    pub shown_statuses: ShownStatuses,
    pub file_change_paths: Seq<FileChangePathsModel>,
    pub pending_requests: Seq<PendingRequestModel>,
    pub pending_approvals: Seq<PendingApprovalModel>,
    pub state_healthy: bool,
    pub app_server_connected: bool,
    pub transport_healthy: bool,
    pub stream_degraded: bool,
    pub resume_failures: u8,
    pub effects: Seq<EffectModel>,
    pub tasks: Seq<TaskModel>,
    pub wait: Option<WaitModel>,
}

/// What a list of pending requests holds.
pub open spec fn request_models(requests: Seq<PendingRequest>) -> Seq<PendingRequestModel> {
    requests.map_values(|request: PendingRequest| request@)
}

/// What a list of pending approvals holds.
pub open spec fn approval_models(approvals: Seq<PendingApproval>) -> Seq<PendingApprovalModel> {
    approvals.map_values(|approval: PendingApproval| approval@)
}

/// What a list of file-change paths holds.
pub open spec fn path_models(paths: Seq<FileChangePaths>) -> Seq<FileChangePathsModel> {
    paths.map_values(|paths: FileChangePaths| paths@)
}

impl View for Coordinator {
    type V = CoordinatorModel;

    open spec fn view(&self) -> CoordinatorModel {
        CoordinatorModel {
            settings: self.settings,
            state: self.state@,
            previous_state: match self.previous_state {
                Some(state) => Some(state@),
                None => None,
            },
            accepted: match self.accepted {
                Some(action) => Some(action@),
                None => None,
            },
            command_catalog: self.command_catalog,
            projector: self.projector@,
            shown_statuses: self.shown_statuses,
            file_change_paths: path_models(self.file_change_paths@),
            pending_requests: request_models(self.pending_requests@),
            pending_approvals: approval_models(self.pending_approvals@),
            state_healthy: self.state_healthy,
            app_server_connected: self.app_server_connected,
            transport_healthy: self.transport_healthy,
            stream_degraded: self.stream_degraded,
            resume_failures: self.resume_failures,
            effects: effect_models(self.effects@),
            tasks: task_models(self.tasks@),
            wait: match self.wait {
                Some(wait) => Some(wait@),
                None => None,
            },
        }
    }
}

/// A message of the bridge.
pub open spec fn bridge_notice(text: Seq<char>) -> EffectModel {
    EffectModel::Notice {
        origin: EntryOrigin::BridgeNotice,
        thread_id: Seq::empty(),
        turn_id: Seq::empty(),
        text,
    }
}

/// The messages that a text is sent as: one where it fits, else labelled chunks,
/// each with the configured prefix.
pub open spec fn messages_for(prefix: Seq<char>, chunk_chars: int, text: Seq<char>) -> Seq<
    EffectModel,
> {
    if text.len() <= MESSAGE_LIMIT {
        seq![bridge_notice(rewritten(prefix, text))]
    } else {
        let content = match after_prefix(text, "[codex] "@) {
            Some(rest) => rest,
            None => text,
        };
        labelled(content, chunk_chars).map_values(
            |chunk: Seq<char>| bridge_notice(rewritten(prefix, chunk)),
        )
    }
}

impl CoordinatorModel {
    /// The coordinator after it told the user something. Nothing is sent while the
    /// state cannot be saved.
    pub open spec fn telling(self, text: Seq<char>) -> CoordinatorModel {
        if self.state_healthy {
            CoordinatorModel {
                effects: self.effects + messages_for(
                    self.command_catalog.response_prefix@,
                    self.settings.output_chunk_chars as int,
                    text,
                ),
                ..self
            }
        } else {
            self
        }
    }

    /// The coordinator with one more task, which comes before the others.
    pub open spec fn then_doing(self, task: TaskModel) -> CoordinatorModel {
        CoordinatorModel { tasks: self.tasks.push(task), ..self }
    }

    /// The coordinator, waiting.
    pub open spec fn awaiting(self, wait: WaitModel) -> CoordinatorModel {
        CoordinatorModel { wait: Some(wait), ..self }
    }

    /// The coordinator, waiting for a save.
    pub open spec fn saving(self, next: AfterSaveModel) -> CoordinatorModel {
        self.awaiting(WaitModel::Saving(next))
    }

    /// The coordinator, waiting for nothing.
    pub open spec fn resting(self) -> CoordinatorModel {
        CoordinatorModel { wait: None, ..self }
    }

    /// The coordinator after a save failed.
    pub open spec fn unsaved(self) -> CoordinatorModel {
        CoordinatorModel { state_healthy: false, ..self }
    }

    /// The coordinator after the app-server could not be reached.
    pub open spec fn cut_off(self) -> CoordinatorModel {
        CoordinatorModel { app_server_connected: false, ..self }
    }

    /// The coordinator with another durable state.
    pub open spec fn with_state(self, state: StateModel) -> CoordinatorModel {
        CoordinatorModel { state, ..self }
    }

    /// The coordinator with one more effect.
    pub open spec fn doing(self, effect: EffectModel) -> CoordinatorModel {
        CoordinatorModel { effects: self.effects.push(effect), ..self }
    }

    /// Whether a turn is the running one.
    pub open spec fn runs(self, thread_id: Seq<char>, turn_id: Seq<char>) -> bool {
        self.state.active_turn matches Some(turn) && turn.thread_id == thread_id
            && turn.codex_turn_id == turn_id
    }
}

} // verus!
