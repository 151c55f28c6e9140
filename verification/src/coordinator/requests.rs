//! Requests of the app-server: approvals, questions, and their answers.

use crate::approval::change_presentation;
use crate::approval::choice_models;
use crate::approval::command_execution_presentation;
use crate::approval::command_presentation;
use crate::approval::file_change_presentation;
use crate::approval::grant_presentation;
use crate::approval::no_permissions;
use crate::approval::permissions_presentation;
use crate::approval::ApprovalChoice;
use crate::approval::ApprovalDecision;
use crate::approval::ApprovalPresentation;
use crate::approval::ChoiceModel;
use crate::approval::CommandDecisionModel;
use crate::approval::CommandExecutionApprovalDecision;
use crate::approval::DecisionModel;
use crate::approval::FileChangeApprovalDecision;
use crate::approval::PermissionGrantScope;
use crate::approval::PermissionProfile;
use crate::approval::PresentationModel;
use crate::codex::CodexError;
use crate::ids::fresh_token;
use crate::ids::is_lower_hex;
use crate::notifications::request_id_of;
use crate::notifications::ServerRequest;
use crate::protocol::RequestId;
use crate::protocol::RequestIdModel;
use crate::protocol::ToolRequestUserInputOption;
use crate::protocol::ToolRequestUserInputParams;
use crate::protocol::ToolRequestUserInputQuestion;
use crate::text::copy_texts;
use crate::text::decimal;
use crate::text::decimal_of;
use crate::text::join;
use crate::text::join_of;
use crate::text::joined;
use crate::text::joined3;
use crate::text::same_text;
use crate::text::texts;
use crate::transcript::model::presented;
use crate::transcript::projector::with_request;
use crate::transcript::KeyModel;
use crate::transcript::ProjectorModel;
use super::model::answer_models;
use super::model::approval_models;
use super::model::pending_question_models;
use super::model::request_models;
use super::model::Answer;
use super::model::AnswerModel;
use super::model::ApprovalKind;
use super::model::Coordinator;
use super::model::CoordinatorModel;
use super::model::Effect;
use super::model::EffectModel;
use super::model::FileChangePathsModel;
use super::model::PendingApproval;
use super::model::PendingApprovalModel;
use super::model::PendingQuestion;
use super::model::PendingQuestionModel;
use super::model::PendingRequest;
use super::model::PendingRequestModel;
use super::model::Wait;
use super::model::WaitModel;
use super::model::MAX_PENDING_REQUESTS;
use super::model::USER_INPUT_TIMEOUT_SECONDS;
use vstd::prelude::*;

verus! {

/// The numbered lines of some choices.
pub open spec fn choice_lines(choices: Seq<ChoiceModel>) -> Seq<Seq<char>> {
    Seq::new(
        choices.len(),
        |i: int| decimal_of((i + 1) as nat) + ". "@ + choices[i].label,
    )
}

/// The text of an approval: title, details, numbered choices, and how to reply.
pub open spec fn approval_text(shown: PresentationModel) -> Seq<char> {
    let head = seq!["[codex] "@ + shown.title, Seq::<char>::empty()];
    let details = if shown.details.len() == 0 {
        shown.details
    } else {
        shown.details.push(Seq::<char>::empty())
    };
    let tail = seq![
        Seq::<char>::empty(),
        "Reply with 1-"@ + decimal_of(shown.choices.len()) + ", or /stop."@,
    ];
    join_of(head + details + choice_lines(shown.choices) + tail, "\n"@)
}

/// The options of a question, as they are shown.
pub open spec fn option_lines(options: Seq<ToolRequestUserInputOption>) -> Seq<Seq<char>> {
    options.map_values(
        |option: ToolRequestUserInputOption| "• "@ + option.label@ + " — "@ + option.description@,
    )
}

/// A question with its options.
pub open spec fn question_text(question: ToolRequestUserInputQuestion) -> Seq<char> {
    match question.options {
        Some(options) => question.question@ + "\nOptions:\n"@ + join_of(
            option_lines(options@),
            "\n"@,
        ),
        None => question.question@,
    }
}

/// The questions of a request, as they are asked.
pub open spec fn questions_of(questions: Seq<ToolRequestUserInputQuestion>) -> Seq<
    PendingQuestionModel,
> {
    questions.map_values(
        |question: ToolRequestUserInputQuestion|
            PendingQuestionModel { id: question.id@, text: question_text(question) },
    )
}

/// Whether any question asks for a secret.
pub open spec fn asks_for_secret(questions: Seq<ToolRequestUserInputQuestion>) -> bool {
    exists|i: int| 0 <= i < questions.len() && (#[trigger] questions[i]).is_secret
}

/// How a question is put: which one it is, its token, and how to answer.
pub open spec fn asking_text(request: PendingRequestModel, index: int) -> Seq<char> {
    "[codex] Question "@ + decimal_of((index + 1) as nat) + "/"@ + decimal_of(
        request.questions.len(),
    ) + " ("@ + request.token + "): "@ + request.questions[index].text + "\nReply `/answer "@
        + request.token + " <your answer>`."@
}

/// The first paths from `from` on that were recorded for an item.
pub open spec fn paths_from(recorded: Seq<FileChangePathsModel>, key: KeyModel, from: int) -> Seq<
    Seq<char>,
>
    decreases recorded.len() - from,
{
    if from < 0 || from >= recorded.len() {
        Seq::empty()
    } else if recorded[from].key == key {
        recorded[from].paths
    } else {
        paths_from(recorded, key, from + 1)
    }
}

/// The end of a question's time, within a `u64`.
pub open spec fn expiry(now: u64) -> int {
    if now + USER_INPUT_TIMEOUT_SECONDS <= u64::MAX {
        now + USER_INPUT_TIMEOUT_SECONDS
    } else {
        u64::MAX as int
    }
}

impl CoordinatorModel {
    /// The coordinator after it showed the approval that comes next.
    pub open spec fn showing_front(self) -> CoordinatorModel {
        if self.pending_approvals.len() == 0 {
            self
        } else {
            self.telling(approval_text(self.pending_approvals[0].presentation))
        }
    }

    /// The coordinator with one more approval; it is shown where no other is.
    pub open spec fn enqueuing(self, approval: PendingApprovalModel) -> CoordinatorModel {
        let m = CoordinatorModel {
            pending_approvals: self.pending_approvals.push(approval),
            ..self
        };
        if self.pending_approvals.len() == 0 {
            m.showing_front()
        } else {
            m
        }
    }

    /// The coordinator after questions came in under a token.
    pub open spec fn questioned(
        self,
        request_id: RequestId,
        params: ToolRequestUserInputParams,
        token: Seq<char>,
        now: u64,
    ) -> CoordinatorModel {
        let refused = self.doing(EffectModel::Reject(request_id@));
        if !self.runs(params.thread_id@, params.turn_id@) {
            refused
        } else if params.questions@.len() == 0 {
            refused.telling(
                "[codex] This tool asked multiple questions, which WhatsApp v1 cannot render."@,
            )
        } else if asks_for_secret(params.questions@) {
            refused.telling(
                "[codex] A secret answer was requested and cannot be sent over WhatsApp."@,
            )
        } else {
            let request = PendingRequestModel {
                token,
                request_id: request_id@,
                questions: questions_of(params.questions@),
                answers: Seq::empty(),
                expires_at: expiry(now),
            };
            CoordinatorModel {
                pending_requests: self.pending_requests.push(request),
                projector: ProjectorModel {
                    requests: with_request(
                        self.projector.requests,
                        presented(request_id, params),
                    ),
                    ..self.projector
                },
                ..self
            }.telling(asking_text(request, 0))
        }
    }

    /// The coordinator after the app-server requested something. `token` is for
    /// questions.
    pub open spec fn requested(
        self,
        request: ServerRequest,
        token: Seq<char>,
        now: u64,
    ) -> CoordinatorModel {
        let refused = self.doing(EffectModel::Reject(request_id_of(request)@));
        if self.pending_requests.len() + self.pending_approvals.len() >= MAX_PENDING_REQUESTS {
            refused.telling(
                "[codex] Too many approval requests are pending; the newest request was rejected."@,
            )
        } else {
            match request {
                ServerRequest::CommandExecutionRequestApproval { request_id, params } =>
                    if self.runs(params.thread_id@, params.turn_id@)
                        && self.settings.include_approval_notices {
                        self.enqueuing(
                            PendingApprovalModel {
                                kind: ApprovalKind::Command,
                                request_id: request_id@,
                                presentation: command_presentation(params),
                            },
                        )
                    } else {
                        refused
                    },
                ServerRequest::FileChangeRequestApproval { request_id, params } => if self.runs(
                    params.thread_id@,
                    params.turn_id@,
                ) && self.settings.include_approval_notices {
                    let key = KeyModel {
                        thread_id: params.thread_id@,
                        turn_id: params.turn_id@,
                        item_id: params.item_id@,
                    };
                    self.enqueuing(
                        PendingApprovalModel {
                            kind: ApprovalKind::FileChange,
                            request_id: request_id@,
                            presentation: change_presentation(
                                params,
                                paths_from(self.file_change_paths, key, 0),
                            ),
                        },
                    )
                } else {
                    refused
                },
                ServerRequest::PermissionsRequestApproval { request_id, params } => if self.runs(
                    params.thread_id@,
                    params.turn_id@,
                ) {
                    self.enqueuing(
                        PendingApprovalModel {
                            kind: ApprovalKind::Permissions,
                            request_id: request_id@,
                            presentation: grant_presentation(params),
                        },
                    )
                } else {
                    refused
                },
                ServerRequest::ToolRequestUserInput { request_id, params } => self.questioned(
                    request_id,
                    params,
                    token,
                    now,
                ),
                ServerRequest::Unsupported { .. } => refused.telling(
                    "[codex] Codex requested an unsupported approval."@,
                ),
            }
        }
    }
}

/// The first choice from `from` on with the given decision.
pub open spec fn choice_with(choices: Seq<ChoiceModel>, decision: DecisionModel, from: int) -> Option<
    int,
>
    decreases choices.len() - from,
{
    if from < 0 || from >= choices.len() {
        None
    } else if choices[from].decision == decision {
        Some(from)
    } else {
        choice_with(choices, decision, from + 1)
    }
}

/// The first choice from `from` on that cancels a command.
pub open spec fn cancelling(choices: Seq<ChoiceModel>, from: int) -> Option<int>
    decreases choices.len() - from,
{
    if from < 0 || from >= choices.len() {
        None
    } else if choices[from].decision == DecisionModel::Command(CommandDecisionModel::Cancel) {
        Some(from)
    } else {
        cancelling(choices, from + 1)
    }
}

/// What a decision is called: as the first choice that stands for it.
pub open spec fn decision_label(choices: Seq<ChoiceModel>, decision: DecisionModel) -> Seq<char> {
    match choice_with(choices, decision, 0) {
        Some(index) => choices[index].label,
        None => "the selected option"@,
    }
}

/// The decision that a stop amounts to.
pub open spec fn stop_decision(approval: PendingApprovalModel) -> Option<DecisionModel> {
    match approval.kind {
        ApprovalKind::Command => match cancelling(approval.presentation.choices, 0) {
            Some(_) => Some(DecisionModel::Command(CommandDecisionModel::Cancel)),
            None => None,
        },
        ApprovalKind::FileChange => Some(
            DecisionModel::FileChange(FileChangeApprovalDecision::Cancel),
        ),
        ApprovalKind::Permissions => Some(
            DecisionModel::Permissions {
                permissions: no_permissions(),
                scope: PermissionGrantScope::Turn,
                strict_auto_review: None,
            },
        ),
    }
}

/// The approvals of other requests.
pub open spec fn without_approval(
    approvals: Seq<PendingApprovalModel>,
    request_id: RequestIdModel,
) -> Seq<PendingApprovalModel>
    decreases approvals.len(),
{
    if approvals.len() == 0 {
        Seq::empty()
    } else {
        let earlier = without_approval(approvals.drop_last(), request_id);
        if approvals.last().request_id == request_id {
            earlier
        } else {
            earlier.push(approvals.last())
        }
    }
}

/// The questions of other requests.
pub open spec fn without_request(
    requests: Seq<PendingRequestModel>,
    request_id: RequestIdModel,
) -> Seq<PendingRequestModel>
    decreases requests.len(),
{
    if requests.len() == 0 {
        Seq::empty()
    } else {
        let earlier = without_request(requests.drop_last(), request_id);
        if requests.last().request_id == request_id {
            earlier
        } else {
            earlier.push(requests.last())
        }
    }
}

/// The first request from `from` on with the given token.
pub open spec fn request_with(requests: Seq<PendingRequestModel>, token: Seq<char>, from: int) -> Option<
    int,
>
    decreases requests.len() - from,
{
    if from < 0 || from >= requests.len() {
        None
    } else if requests[from].token == token {
        Some(from)
    } else {
        request_with(requests, token, from + 1)
    }
}

impl CoordinatorModel {
    /// The coordinator about to deliver a decision on an approval.
    pub open spec fn resolving(
        self,
        approval: PendingApprovalModel,
        decision: DecisionModel,
    ) -> CoordinatorModel {
        self.awaiting(
            WaitModel::ResolvingApproval {
                request_id: approval.request_id,
                decision,
                label: decision_label(approval.presentation.choices, decision),
            },
        )
    }

    /// The coordinator after the user named the number of a choice.
    pub open spec fn choosing(self, choice: int) -> CoordinatorModel {
        if self.pending_approvals.len() == 0 {
            self
        } else {
            let approval = self.pending_approvals[0];
            let choices = approval.presentation.choices;
            if 1 <= choice <= choices.len() {
                self.resolving(approval, choices[choice - 1].decision)
            } else {
                self.telling(
                    "[codex] That approval number is not available. Reply with one of the displayed numbers, or /stop."@,
                )
            }
        }
    }

    /// The coordinator about to resolve the approval that is shown, for a stop.
    pub open spec fn dismissing(self) -> CoordinatorModel {
        if self.pending_approvals.len() == 0 {
            self
        } else {
            match stop_decision(self.pending_approvals[0]) {
                Some(decision) => self.resolving(self.pending_approvals[0], decision),
                None => self,
            }
        }
    }

    /// The coordinator after a decision was delivered, or not.
    pub open spec fn decided(
        self,
        request_id: RequestIdModel,
        label: Seq<char>,
        delivered: bool,
    ) -> CoordinatorModel {
        let m = self.resting();
        if delivered {
            CoordinatorModel {
                pending_approvals: without_approval(m.pending_approvals, request_id),
                ..m
            }.telling("[codex] Selected: "@ + label + "."@).showing_front()
        } else {
            m.telling("[codex] Could not deliver that approval decision."@)
        }
    }

    /// The coordinator after the user answered a question: the next one is asked,
    /// or all answers are delivered together.
    pub open spec fn answering(self, token: Seq<char>, answer: Seq<char>) -> CoordinatorModel {
        match request_with(self.pending_requests, token, 0) {
            None => self.telling("[codex] That question token is unknown or expired."@),
            Some(index) => {
                let request = self.pending_requests[index];
                let place = request.answers.len() as int;
                if place >= request.questions.len() {
                    self
                } else {
                    let answered = PendingRequestModel {
                        answers: request.answers.push(
                            AnswerModel { question_id: request.questions[place].id, answer },
                        ),
                        ..request
                    };
                    let m = CoordinatorModel {
                        pending_requests: self.pending_requests.update(index, answered),
                        ..self
                    };
                    if place + 1 < request.questions.len() {
                        m.telling(asking_text(answered, place + 1))
                    } else {
                        m.awaiting(WaitModel::ResolvingAnswers { token })
                    }
                }
            },
        }
    }

    /// The coordinator after answers were delivered, or not: the last one can then
    /// be given again.
    pub open spec fn answered(self, token: Seq<char>, delivered: bool) -> CoordinatorModel {
        let m = self.resting();
        match request_with(m.pending_requests, token, 0) {
            None => m,
            Some(index) => if delivered {
                CoordinatorModel {
                    pending_requests: m.pending_requests.remove(index),
                    ..m
                }.telling("[codex] Answer sent."@)
            } else {
                let request = m.pending_requests[index];
                CoordinatorModel {
                    pending_requests: m.pending_requests.update(
                        index,
                        PendingRequestModel {
                            answers: if request.answers.len() > 0 {
                                request.answers.drop_last()
                            } else {
                                request.answers
                            },
                            ..request
                        },
                    ),
                    ..m
                }.telling("[codex] Could not deliver that answer."@)
            },
        }
    }

    /// The coordinator after the first `count` requests were held against the
    /// clock; `kept` is what it then keeps of them.
    pub open spec fn expiring(self, requests: Seq<PendingRequestModel>, now: u64) -> (
        CoordinatorModel,
        Seq<PendingRequestModel>,
    )
        decreases requests.len(),
    {
        if requests.len() == 0 {
            (self, Seq::empty())
        } else {
            let (m, kept) = self.expiring(requests.drop_last(), now);
            let request = requests.last();
            if request.expires_at <= now {
                (
                    m.doing(EffectModel::Reject(request.request_id)).telling(
                        "[codex] Question token "@ + request.token + " expired."@,
                    ),
                    kept,
                )
            } else {
                (m, kept.push(request))
            }
        }
    }

    /// The coordinator after a request was settled elsewhere.
    pub open spec fn settled_elsewhere(self, request_id: RequestIdModel) -> CoordinatorModel {
        let was_front = self.pending_approvals.len() > 0 && self.pending_approvals[0].request_id
            == request_id;
        let m = CoordinatorModel {
            pending_approvals: without_approval(self.pending_approvals, request_id),
            pending_requests: without_request(self.pending_requests, request_id),
            ..self
        };
        if was_front {
            m.showing_front()
        } else {
            m
        }
    }
}

/// The text of an approval.
fn render_approval(shown: &ApprovalPresentation) -> (text: String)
    ensures
        text@ == approval_text(shown@),
{
    let mut lines: Vec<String> = Vec::new();
    lines.push(joined("[codex] ", shown.title.as_str()));
    lines.push(String::new());
    let ghost head = seq!["[codex] "@ + shown@.title, Seq::<char>::empty()];
    proof {
        assert(lines@[1]@ =~= Seq::<char>::empty());
        assert(texts(lines@) =~= head);
    }
    let mut details = copy_texts(&shown.details);
    if details.len() > 0 {
        details.push(String::new());
    }
    let ghost detail_lines = if shown@.details.len() == 0 {
        shown@.details
    } else {
        shown@.details.push(Seq::<char>::empty())
    };
    proof {
        if shown.details@.len() > 0 {
            assert(details@.last()@ =~= Seq::<char>::empty());
        }
        assert(texts(details@) =~= detail_lines);
    }
    lines.append(&mut details);
    assert(texts(lines@) =~= head + detail_lines);
    let total: usize = shown.choices.len();
    let ghost start = lines@;
    let mut index: usize = 0;
    while index < total
        invariant
            index <= total == shown.choices@.len(),
            lines@.len() == start.len() + index,
            forall|i: int| 0 <= i < start.len() ==> #[trigger] lines@[i] == start[i],
            forall|i: int|
                0 <= i < index ==> (#[trigger] lines@[start.len() + i])@ == choice_lines(
                    shown@.choices,
                )[i],
        decreases total - index,
    {
        let number = decimal((index + 1) as u64);
        assert(shown@.choices[index as int] == shown.choices@[index as int]@);
        let line = joined3(number.as_str(), ". ", shown.choices[index].label.as_str());
        let ghost before = lines@;
        lines.push(line);
        proof {
            assert forall|i: int| 0 <= i < index + 1 implies (#[trigger] lines@[start.len()
                + i])@ == choice_lines(shown@.choices)[i] by {
                if i < index {
                    assert(lines@[start.len() + i] == before[start.len() + i]);
                }
            }
        }
        index += 1;
    }
    proof {
        let middle = head + detail_lines + choice_lines(shown@.choices);
        assert forall|i: int| 0 <= i < middle.len() implies texts(lines@)[i] == middle[i] by {
            if i < start.len() {
                assert(lines@[i] == start[i]);
                assert(texts(start)[i] == middle[i]);
            } else {
                assert(lines@[start.len() + (i - start.len())]@ == choice_lines(
                    shown@.choices,
                )[i - start.len()]);
            }
        }
        assert(texts(lines@) =~= middle);
    }
    let ghost middle = texts(lines@);
    lines.push(String::new());
    let count = decimal(total as u64);
    let reply = joined3("Reply with 1-", count.as_str(), ", or /stop.");
    lines.push(reply);
    proof {
        assert(lines@[lines@.len() - 2]@ =~= Seq::<char>::empty());
        assert(texts(lines@) =~= middle + seq![Seq::<char>::empty(), reply@]);
    }
    join(&lines, "\n")
}

/// A question with its options.
fn render_question(question: &ToolRequestUserInputQuestion) -> (text: String)
    ensures
        text@ == question_text(*question),
{
    match &question.options {
        Some(options) => {
            let mut lines: Vec<String> = Vec::new();
            let mut index: usize = 0;
            while index < options.len()
                invariant
                    index <= options@.len(),
                    lines@.len() == index,
                    forall|i: int|
                        0 <= i < index ==> (#[trigger] lines@[i])@ == option_lines(options@)[i],
                decreases options@.len() - index,
            {
                let mut line = joined3("• ", options[index].label.as_str(), " — ");
                line.append(options[index].description.as_str());
                lines.push(line);
                index += 1;
            }
            assert(texts(lines@) =~= option_lines(options@));
            let list = join(&lines, "\n");
            joined3(question.question.as_str(), "\nOptions:\n", list.as_str())
        },
        None => question.question.clone(),
    }
}

/// The questions of a request, as they are asked.
fn render_questions(questions: &Vec<ToolRequestUserInputQuestion>) -> (asked: Vec<PendingQuestion>)
    ensures
        pending_question_models(asked@) == questions_of(questions@),
{
    let mut asked: Vec<PendingQuestion> = Vec::new();
    let mut index: usize = 0;
    while index < questions.len()
        invariant
            index <= questions@.len(),
            asked@.len() == index,
            forall|i: int| 0 <= i < index ==> (#[trigger] asked@[i])@ == questions_of(questions@)[i],
        decreases questions@.len() - index,
    {
        let question = &questions[index];
        asked.push(PendingQuestion { id: question.id.clone(), text: render_question(question) });
        index += 1;
    }
    assert(pending_question_models(asked@) =~= questions_of(questions@));
    asked
}

/// Whether any question asks for a secret.
fn has_secret(questions: &Vec<ToolRequestUserInputQuestion>) -> (yes: bool)
    ensures
        yes == asks_for_secret(questions@),
{
    let mut index: usize = 0;
    while index < questions.len()
        invariant
            index <= questions@.len(),
            forall|i: int| 0 <= i < index ==> !(#[trigger] questions@[i]).is_secret,
        decreases questions@.len() - index,
    {
        if questions[index].is_secret {
            return true;
        }
        index += 1;
    }
    false
}

impl PendingRequest {
    /// How a question is put.
    fn render_asking(&self, index: usize) -> (text: String)
        requires
            index < self.questions@.len(),
        ensures
            text@ == asking_text(self@, index as int),
    {
        assert(self@.questions[index as int] == self.questions@[index as int]@);
        let count: usize = self.questions.len();
        let mut text = "[codex] Question ".to_owned();
        let number = decimal((index + 1) as u64);
        text.append(number.as_str());
        text.append("/");
        let total = decimal(count as u64);
        text.append(total.as_str());
        text.append(" (");
        text.append(self.token.as_str());
        text.append("): ");
        text.append(self.questions[index].text.as_str());
        text.append("\nReply `/answer ");
        text.append(self.token.as_str());
        text.append(" <your answer>`.");
        text
    }

    /// A copy of the answers so far.
    pub(crate) fn copy_answers(&self) -> (answers: Vec<Answer>)
        ensures
            answer_models(answers@) == self@.answers,
    {
        let answers = self.answers.clone();
        assert(answers@ =~= self.answers@);
        answers
    }
}

impl Coordinator {
    /// Whether a turn is the running one.
    pub fn is_active_request(&self, thread_id: &str, turn_id: &str) -> (yes: bool)
        ensures
            yes == self@.runs(thread_id@, turn_id@),
    {
        match &self.state.active_turn {
            Some(turn) => same_text(turn.thread_id.as_str(), thread_id) && same_text(
                turn.codex_turn_id.as_str(),
                turn_id,
            ),
            None => false,
        }
    }

    /// Shows the approval that comes next.
    fn send_front_approval(&mut self)
        ensures
            final(self)@ == old(self)@.showing_front(),
    {
        if self.pending_approvals.len() > 0 {
            assert(self@.pending_approvals[0] == self.pending_approvals@[0]@);
            let text = render_approval(&self.pending_approvals[0].presentation);
            self.tell(text.as_str());
        }
    }

    /// Adds an approval; it is shown where no other is.
    fn enqueue_approval(&mut self, approval: PendingApproval)
        ensures
            final(self)@ == old(self)@.enqueuing(approval@),
    {
        let display = self.pending_approvals.len() == 0;
        let ghost model = approval@;
        self.pending_approvals.push(approval);
        assert(approval_models(self.pending_approvals@) =~= approval_models(
            old(self).pending_approvals@,
        ).push(model));
        if display {
            self.send_front_approval();
        }
    }

    /// The paths that were recorded for an item.
    fn recorded_paths(&self, thread_id: &str, turn_id: &str, item_id: &str) -> (paths: Vec<String>)
        ensures
            texts(paths@) == paths_from(
                self@.file_change_paths,
                KeyModel { thread_id: thread_id@, turn_id: turn_id@, item_id: item_id@ },
                0,
            ),
    {
        let ghost key = KeyModel { thread_id: thread_id@, turn_id: turn_id@, item_id: item_id@ };
        let mut index: usize = 0;
        while index < self.file_change_paths.len()
            invariant
                index <= self.file_change_paths@.len(),
                key == (KeyModel {
                    thread_id: thread_id@,
                    turn_id: turn_id@,
                    item_id: item_id@,
                }),
                paths_from(self@.file_change_paths, key, 0) == paths_from(
                    self@.file_change_paths,
                    key,
                    index as int,
                ),
            decreases self.file_change_paths@.len() - index,
        {
            let recorded = &self.file_change_paths[index];
            assert(self@.file_change_paths[index as int] == recorded@);
            if same_text(recorded.thread_id.as_str(), thread_id) && same_text(
                recorded.turn_id.as_str(),
                turn_id,
            ) && same_text(recorded.item_id.as_str(), item_id) {
                return copy_texts(&recorded.paths);
            }
            index += 1;
        }
        let none: Vec<String> = Vec::new();
        assert(texts(none@) =~= Seq::<Seq<char>>::empty());
        none
    }

    /// Puts the questions of a tool under a token.
    pub fn ask_questions(
        &mut self,
        request_id: RequestId,
        params: &ToolRequestUserInputParams,
        token: String,
        now: u64,
    )
        ensures
            final(self)@ == old(self)@.questioned(request_id, *params, token@, now),
    {
        if !self.is_active_request(params.thread_id.as_str(), params.turn_id.as_str()) {
            self.push_effect(Effect::Reject(request_id));
            return;
        }
        if params.questions.len() == 0 {
            self.push_effect(Effect::Reject(request_id));
            self.tell(
                "[codex] This tool asked multiple questions, which WhatsApp v1 cannot render.",
            );
            return;
        }
        if has_secret(&params.questions) {
            self.push_effect(Effect::Reject(request_id));
            self.tell("[codex] A secret answer was requested and cannot be sent over WhatsApp.");
            return;
        }
        self.projector.apply_user_input_request(&request_id, params);
        let request = PendingRequest {
            token,
            request_id,
            questions: render_questions(&params.questions),
            answers: Vec::new(),
            expires_at: now.saturating_add(USER_INPUT_TIMEOUT_SECONDS),
        };
        assert(request@.answers =~= Seq::<AnswerModel>::empty());
        let text = request.render_asking(0);
        let ghost model = request@;
        self.pending_requests.push(request);
        assert(request_models(self.pending_requests@) =~= request_models(
            old(self).pending_requests@,
        ).push(model));
        self.tell(text.as_str());
    }

    /// Takes a request of the app-server; `token` is for questions.
    pub fn take_request(&mut self, request: ServerRequest, token: String, now: u64)
        ensures
            final(self)@ == old(self)@.requested(request, token@, now),
    {
        let asked: usize = self.pending_requests.len();
        let shown: usize = self.pending_approvals.len();
        if asked >= MAX_PENDING_REQUESTS || shown >= MAX_PENDING_REQUESTS - asked {
            let request_id = request.id().clone();
            self.push_effect(Effect::Reject(request_id));
            self.tell(
                "[codex] Too many approval requests are pending; the newest request was rejected.",
            );
            return;
        }
        match request {
            ServerRequest::CommandExecutionRequestApproval { request_id, params } => {
                if self.is_active_request(params.thread_id.as_str(), params.turn_id.as_str())
                    && self.settings.include_approval_notices {
                    let presentation = command_execution_presentation(&params);
                    self.enqueue_approval(
                        PendingApproval { kind: ApprovalKind::Command, request_id, presentation },
                    );
                } else {
                    self.push_effect(Effect::Reject(request_id));
                }
            },
            ServerRequest::FileChangeRequestApproval { request_id, params } => {
                if self.is_active_request(params.thread_id.as_str(), params.turn_id.as_str())
                    && self.settings.include_approval_notices {
                    let paths = self.recorded_paths(
                        params.thread_id.as_str(),
                        params.turn_id.as_str(),
                        params.item_id.as_str(),
                    );
                    let presentation = file_change_presentation(&params, &paths);
                    self.enqueue_approval(
                        PendingApproval {
                            kind: ApprovalKind::FileChange,
                            request_id,
                            presentation,
                        },
                    );
                } else {
                    self.push_effect(Effect::Reject(request_id));
                }
            },
            ServerRequest::PermissionsRequestApproval { request_id, params } => {
                if self.is_active_request(params.thread_id.as_str(), params.turn_id.as_str()) {
                    let presentation = permissions_presentation(&params);
                    self.enqueue_approval(
                        PendingApproval {
                            kind: ApprovalKind::Permissions,
                            request_id,
                            presentation,
                        },
                    );
                } else {
                    self.push_effect(Effect::Reject(request_id));
                }
            },
            ServerRequest::ToolRequestUserInput { request_id, params } => {
                self.ask_questions(request_id, &params, token, now);
            },
            ServerRequest::Unsupported { request_id, .. } => {
                self.push_effect(Effect::Reject(request_id));
                self.tell("[codex] Codex requested an unsupported approval.");
            },
        }
    }

    /// Takes a request of the app-server. Questions are put under a random token.
    pub fn handle_server_request(&mut self, request: ServerRequest, now: u64)
        requires
            old(self).wait is None,
        ensures
            exists|token: Seq<char>|
                token.len() == 8 && is_lower_hex(token) && final(self)@ == #[trigger] old(
                    self,
                )@.requested(request, token, now),
    {
        let token = fresh_token();
        self.take_request(request, token, now);
    }

    /// What a decision is called.
    fn label_of(choices: &Vec<ApprovalChoice>, decision: &ApprovalDecision) -> (label: String)
        ensures
            label@ == decision_label(choice_models(choices@), decision@),
    {
        let ghost models = choice_models(choices@);
        let mut index: usize = 0;
        while index < choices.len()
            invariant
                index <= choices@.len(),
                models == choice_models(choices@),
                choice_with(models, decision@, 0) == choice_with(
                    models,
                    decision@,
                    index as int,
                ),
            decreases choices@.len() - index,
        {
            assert(models[index as int] == choices@[index as int]@);
            if choices[index].decision.same(decision) {
                return choices[index].label.clone();
            }
            index += 1;
        }
        "the selected option".to_owned()
    }

    /// Delivers a decision on the approval that is shown.
    fn resolve_approval(&mut self, decision: ApprovalDecision)
        requires
            old(self).pending_approvals@.len() > 0,
        ensures
            final(self)@ == old(self)@.resolving(old(self)@.pending_approvals[0], decision@),
    {
        let approval = &self.pending_approvals[0];
        assert(self@.pending_approvals[0] == approval@);
        let label = Coordinator::label_of(&approval.presentation.choices, &decision);
        let request_id = approval.request_id.clone();
        self.wait = Some(Wait::ResolvingApproval { request_id, decision, label });
    }

    /// Takes the number of a choice.
    pub fn resolve_approval_choice(&mut self, choice: usize)
        ensures
            final(self)@ == old(self)@.choosing(choice as int),
    {
        if self.pending_approvals.len() == 0 {
            return;
        }
        assert(self@.pending_approvals[0] == self.pending_approvals@[0]@);
        let choices = &self.pending_approvals[0].presentation.choices;
        if choice >= 1 && choice <= choices.len() {
            assert(choice_models(choices@)[choice - 1] == choices@[choice - 1]@);
            let decision = choices[choice - 1].decision.clone();
            self.resolve_approval(decision);
        } else {
            self.tell(
                "[codex] That approval number is not available. Reply with one of the displayed numbers, or /stop.",
            );
        }
    }

    /// Resolves the approval that is shown, for a stop.
    pub fn resolve_current_approval_for_stop(&mut self)
        ensures
            final(self)@ == old(self)@.dismissing(),
    {
        if self.pending_approvals.len() == 0 {
            return;
        }
        assert(self@.pending_approvals[0] == self.pending_approvals@[0]@);
        match self.pending_approvals[0].kind {
            ApprovalKind::Command => {
                let cancel = ApprovalDecision::Command(CommandExecutionApprovalDecision::Cancel);
                let choices = &self.pending_approvals[0].presentation.choices;
                let ghost models = choice_models(choices@);
                let mut index: usize = 0;
                let mut found = false;
                while index < choices.len() && !found
                    invariant
                        index <= choices@.len(),
                        models == choice_models(choices@),
                        cancel@ == DecisionModel::Command(CommandDecisionModel::Cancel),
                        !found ==> cancelling(models, 0) == cancelling(models, index as int),
                        found ==> cancelling(models, 0) is Some,
                    decreases choices@.len() - index,
                {
                    assert(models[index as int] == choices@[index as int]@);
                    if choices[index].decision.same(&cancel) {
                        found = true;
                    }
                    index += 1;
                }
                if found {
                    self.resolve_approval(cancel);
                }
            },
            ApprovalKind::FileChange => self.resolve_approval(
                ApprovalDecision::FileChange(FileChangeApprovalDecision::Cancel),
            ),
            ApprovalKind::Permissions => self.resolve_approval(
                ApprovalDecision::Permissions {
                    permissions: PermissionProfile::default(),
                    scope: PermissionGrantScope::Turn,
                    strict_auto_review: None,
                },
            ),
        }
    }

    /// Drops the approvals of a request.
    fn drop_approval(&mut self, request_id: &RequestId)
        ensures
            final(self)@ == (CoordinatorModel {
                pending_approvals: without_approval(
                    old(self)@.pending_approvals,
                    request_id@,
                ),
                ..old(self)@
            }),
    {
        let ghost models = approval_models(self.pending_approvals@);
        let mut kept: Vec<PendingApproval> = Vec::new();
        let mut rest: Vec<PendingApproval> = Vec::new();
        std::mem::swap(&mut rest, &mut self.pending_approvals);
        let ghost mut done: int = 0;
        assert(models.take(0) =~= Seq::<PendingApprovalModel>::empty());
        assert(approval_models(kept@) =~= Seq::<PendingApprovalModel>::empty());
        assert(models.skip(0) =~= models);
        while rest.len() > 0
            invariant
                0 <= done <= models.len(),
                approval_models(rest@) == models.skip(done),
                approval_models(kept@) == without_approval(models.take(done), request_id@),
            decreases rest@.len(),
        {
            let ghost before = kept@;
            let ghost waiting = rest@;
            let approval = rest.remove(0);
            let ghost model = approval@;
            proof {
                assert(approval_models(waiting).len() == models.skip(done).len());
                assert(approval_models(waiting)[0] == models.skip(done)[0]);
                assert(model == models[done]);
                let longer = models.take(done + 1);
                assert(longer.drop_last() =~= models.take(done));
                assert(longer.last() == model);
                assert(approval_models(rest@) =~= approval_models(waiting).skip(1));
                assert(models.skip(done).skip(1) =~= models.skip(done + 1));
            }
            if !approval.request_id.same(request_id) {
                kept.push(approval);
                assert(approval_models(kept@) =~= approval_models(before).push(model));
            }
            proof {
                done = done + 1;
            }
        }
        proof {
            assert(models.skip(done).len() == 0);
            assert(models.take(done) =~= models);
        }
        self.pending_approvals = kept;
    }

    /// Drops the questions of a request.
    fn drop_request(&mut self, request_id: &RequestId)
        ensures
            final(self)@ == (CoordinatorModel {
                pending_requests: without_request(old(self)@.pending_requests, request_id@),
                ..old(self)@
            }),
    {
        let ghost models = request_models(self.pending_requests@);
        let mut kept: Vec<PendingRequest> = Vec::new();
        let mut rest: Vec<PendingRequest> = Vec::new();
        std::mem::swap(&mut rest, &mut self.pending_requests);
        let ghost mut done: int = 0;
        assert(models.take(0) =~= Seq::<PendingRequestModel>::empty());
        assert(request_models(kept@) =~= Seq::<PendingRequestModel>::empty());
        assert(models.skip(0) =~= models);
        while rest.len() > 0
            invariant
                0 <= done <= models.len(),
                request_models(rest@) == models.skip(done),
                request_models(kept@) == without_request(models.take(done), request_id@),
            decreases rest@.len(),
        {
            let ghost before = kept@;
            let ghost waiting = rest@;
            let request = rest.remove(0);
            let ghost model = request@;
            proof {
                assert(request_models(waiting).len() == models.skip(done).len());
                assert(request_models(waiting)[0] == models.skip(done)[0]);
                assert(model == models[done]);
                let longer = models.take(done + 1);
                assert(longer.drop_last() =~= models.take(done));
                assert(longer.last() == model);
                assert(request_models(rest@) =~= request_models(waiting).skip(1));
                assert(models.skip(done).skip(1) =~= models.skip(done + 1));
            }
            if !request.request_id.same(request_id) {
                kept.push(request);
                assert(request_models(kept@) =~= request_models(before).push(model));
            }
            proof {
                done = done + 1;
            }
        }
        proof {
            assert(models.skip(done).len() == 0);
            assert(models.take(done) =~= models);
        }
        self.pending_requests = kept;
    }

    /// Takes note that a request was settled elsewhere.
    pub fn settle_elsewhere(&mut self, request_id: &RequestId)
        ensures
            final(self)@ == old(self)@.settled_elsewhere(request_id@),
    {
        let was_front = if self.pending_approvals.len() > 0 {
            assert(self@.pending_approvals[0] == self.pending_approvals@[0]@);
            self.pending_approvals[0].request_id.same(request_id)
        } else {
            false
        };
        self.drop_approval(request_id);
        self.drop_request(request_id);
        if was_front {
            self.send_front_approval();
        }
    }

    /// Where the request with a token stands.
    pub(crate) fn request_index(&self, token: &str) -> (found: Option<usize>)
        ensures
            match found {
                Some(index) => request_with(self@.pending_requests, token@, 0) == Some(
                    index as int,
                ) && index < self.pending_requests@.len(),
                None => request_with(self@.pending_requests, token@, 0) is None,
            },
    {
        let mut index: usize = 0;
        while index < self.pending_requests.len()
            invariant
                index <= self.pending_requests@.len(),
                request_with(self@.pending_requests, token@, 0) == request_with(
                    self@.pending_requests,
                    token@,
                    index as int,
                ),
            decreases self.pending_requests@.len() - index,
        {
            assert(self@.pending_requests[index as int] == self.pending_requests@[index as int]@);
            if same_text(self.pending_requests[index].token.as_str(), token) {
                return Some(index);
            }
            index += 1;
        }
        None
    }

    /// Replaces a request.
    fn put_request(&mut self, index: usize, request: PendingRequest)
        requires
            index < old(self).pending_requests@.len(),
        ensures
            final(self)@ == (CoordinatorModel {
                pending_requests: old(self)@.pending_requests.update(index as int, request@),
                ..old(self)@
            }),
    {
        let ghost model = request@;
        self.pending_requests.set(index, request);
        assert(request_models(self.pending_requests@) =~= request_models(
            old(self).pending_requests@,
        ).update(index as int, model));
    }

    /// Takes an answer to a question.
    pub fn answer_request(&mut self, token: &str, answer: String)
        ensures
            final(self)@ == old(self)@.answering(token@, answer@),
    {
        let index = match self.request_index(token) {
            Some(index) => index,
            None => {
                self.tell("[codex] That question token is unknown or expired.");
                return;
            },
        };
        let request = &self.pending_requests[index];
        assert(self@.pending_requests[index as int] == request@);
        let place: usize = request.answers.len();
        let total: usize = request.questions.len();
        if place >= total {
            return;
        }
        let mut answers = request.copy_answers();
        let ghost before = answers@;
        assert(request@.questions[place as int] == request.questions@[place as int]@);
        let given = Answer { question_id: request.questions[place].id.clone(), answer };
        let ghost model = given@;
        answers.push(given);
        assert(answer_models(answers@) =~= answer_models(before).push(model));
        let mut questions: Vec<PendingQuestion> = Vec::new();
        let mut at: usize = 0;
        while at < total
            invariant
                at <= total == request.questions@.len(),
                questions@.len() == at,
                forall|i: int|
                    0 <= i < at ==> (#[trigger] questions@[i])@ == request.questions@[i]@,
            decreases total - at,
        {
            questions.push(
                PendingQuestion {
                    id: request.questions[at].id.clone(),
                    text: request.questions[at].text.clone(),
                },
            );
            at += 1;
        }
        assert(pending_question_models(questions@) =~= pending_question_models(
            request.questions@,
        ));
        let answered = PendingRequest {
            token: request.token.clone(),
            request_id: request.request_id.clone(),
            questions,
            answers,
            expires_at: request.expires_at,
        };
        if place + 1 < total {
            let text = answered.render_asking(place + 1);
            self.put_request(index, answered);
            self.tell(text.as_str());
        } else {
            self.put_request(index, answered);
            self.wait = Some(Wait::ResolvingAnswers { token: token.to_owned() });
        }
    }

    /// Takes the outcome of answering a request.
    pub fn on_resolved(&mut self, outcome: Result<(), CodexError>)
        requires
            old(self).wait matches Some(Wait::ResolvingApproval { .. }) || old(
                self,
            ).wait matches Some(Wait::ResolvingAnswers { .. }),
        ensures
            final(self)@ == match old(self)@.wait->0 {
                WaitModel::ResolvingApproval { request_id, label, .. } => old(self)@.decided(
                    request_id,
                    label,
                    outcome is Ok,
                ),
                WaitModel::ResolvingAnswers { token } => old(self)@.answered(
                    token,
                    outcome is Ok,
                ),
                _ => old(self)@,
            },
    {
        let mut wait: Option<Wait> = None;
        std::mem::swap(&mut wait, &mut self.wait);
        match wait {
            Some(Wait::ResolvingApproval { request_id, label, .. }) => {
                if outcome.is_ok() {
                    self.drop_approval(&request_id);
                    let text = joined3("[codex] Selected: ", label.as_str(), ".");
                    self.tell(text.as_str());
                    self.send_front_approval();
                } else {
                    self.tell("[codex] Could not deliver that approval decision.");
                }
            },
            Some(Wait::ResolvingAnswers { token }) => self.finish_answers(
                token.as_str(),
                outcome.is_ok(),
            ),
            _ => {},
        }
    }

    /// Goes on after answers were delivered, or not.
    fn finish_answers(&mut self, token: &str, delivered: bool)
        requires
            old(self).wait is None,
        ensures
            final(self)@ == old(self)@.answered(token@, delivered),
    {
        match self.request_index(token) {
            None => {},
            Some(index) => {
                if delivered {
                    self.pending_requests.remove(index);
                    assert(request_models(self.pending_requests@) =~= request_models(
                        old(self).pending_requests@,
                    ).remove(index as int));
                    self.tell("[codex] Answer sent.");
                } else {
                    assert(self@.pending_requests[index as int]
                        == self.pending_requests@[index as int]@);
                    let mut request = self.pending_requests.remove(index);
                    let ghost given = request.answers@;
                    request.answers.pop();
                    proof {
                        if given.len() > 0 {
                            assert(answer_models(request.answers@) =~= answer_models(
                                given,
                            ).drop_last());
                        } else {
                            assert(answer_models(request.answers@) =~= answer_models(given));
                        }
                    }
                    let ghost model = request@;
                    self.pending_requests.insert(index, request);
                    assert(request_models(self.pending_requests@) =~= request_models(
                        old(self).pending_requests@,
                    ).update(index as int, model));
                    self.tell("[codex] Could not deliver that answer.");
                }
            },
        }
    }

    /// Gives up questions whose time has passed.
    pub fn expire_pending_requests(&mut self, now: u64)
        ensures
            ({
                let (m, kept) = old(self)@.expiring(old(self)@.pending_requests, now);
                final(self)@ == (CoordinatorModel { pending_requests: kept, ..m })
            }),
    {
        let ghost models = request_models(self.pending_requests@);
        let mut kept: Vec<PendingRequest> = Vec::new();
        let mut rest: Vec<PendingRequest> = Vec::new();
        std::mem::swap(&mut rest, &mut self.pending_requests);
        let ghost mut done: int = 0;
        assert(models.take(0) =~= Seq::<PendingRequestModel>::empty());
        assert(request_models(kept@) =~= Seq::<PendingRequestModel>::empty());
        assert(models.skip(0) =~= models);
        assert(request_models(self.pending_requests@) =~= Seq::<PendingRequestModel>::empty());
        while rest.len() > 0
            invariant
                0 <= done <= models.len(),
                request_models(rest@) == models.skip(done),
                ({
                    let (m, list) = old(self)@.expiring(models.take(done), now);
                    request_models(kept@) == list && self@ == (CoordinatorModel {
                        pending_requests: Seq::empty(),
                        ..m
                    })
                }),
            decreases rest@.len(),
        {
            let ghost before = kept@;
            let ghost waiting = rest@;
            let ghost (m, list) = old(self)@.expiring(models.take(done), now);
            let request = rest.remove(0);
            let ghost model = request@;
            proof {
                assert(request_models(waiting).len() == models.skip(done).len());
                assert(request_models(waiting)[0] == models.skip(done)[0]);
                assert(model == models[done]);
                let longer = models.take(done + 1);
                assert(longer.drop_last() =~= models.take(done));
                assert(longer.last() == model);
                assert(request_models(rest@) =~= request_models(waiting).skip(1));
                assert(models.skip(done).skip(1) =~= models.skip(done + 1));
            }
            if request.expires_at <= now {
                self.push_effect(Effect::Reject(request.request_id));
                let text = joined3(
                    "[codex] Question token ",
                    request.token.as_str(),
                    " expired.",
                );
                self.tell(text.as_str());
            } else {
                kept.push(request);
                assert(request_models(kept@) =~= request_models(before).push(model));
            }
            proof {
                done = done + 1;
            }
        }
        proof {
            assert(models.skip(done).len() == 0);
            assert(models.take(done) =~= models);
        }
        self.pending_requests = kept;
    }
}

} // verus!
