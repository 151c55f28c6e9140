//! What becomes of approvals and questions: a number stands for the choice that was shown
//! under it, a stop never approves, and what has expired is refused.

use crate::approval::ChoiceModel;
use crate::approval::CommandDecisionModel;
use crate::approval::DecisionModel;
use crate::approval::PresentationModel;
use crate::attachment::InboundAttachment;
use crate::notifications::ServerRequest;
use crate::protocol::RequestId;
use crate::protocol::RequestIdModel;
use crate::protocol::ToolRequestUserInputParams;
use crate::text::decimal_of;
use crate::text::joined_texts_mention_each;
use crate::text::lemma_decimal_reads_back;
use crate::text::lemma_mentions_itself;
use crate::text::lemma_mentions_within;
use crate::text::mentions;
use crate::text::trimmed;
use crate::transport_webhook::InboundMessage;
use super::inbound::approval_choice;
use super::inbound::asked_for;
use super::inbound::is_known;
use super::inbound::utf8_len;
use super::model::AcceptedModel;
use super::model::ActionModel;
use super::model::AfterSaveModel;
use super::model::CoordinatorModel;
use super::model::EffectModel;
use super::model::PendingApprovalModel;
use super::model::PendingRequestModel;
use super::model::ResponseModel;
use super::model::WaitModel;
use super::model::MAX_PENDING_REQUESTS;
use super::model::MAX_PROMPT_BYTES;
use super::requests::approval_text;
use super::requests::asking_text;
use super::requests::asks_for_secret;
use super::requests::cancelling;
use super::requests::choice_lines;
use super::requests::choice_with;
use super::requests::decision_label;
use super::requests::request_with;
use super::requests::without_approval;
use super::requests::without_request;
use super::steps::after_step;
use super::steps::Step;
use vstd::prelude::*;

verus! {

/// An approval is shown with its title, its details and every choice under its number.
pub proof fn approvals_are_shown_whole(shown: PresentationModel)
    ensures
        mentions(approval_text(shown), shown.title),
        forall|i: int|
            0 <= i < shown.details.len() ==> mentions(
                approval_text(shown),
                #[trigger] shown.details[i],
            ),
        forall|i: int|
            0 <= i < shown.choices.len() ==> mentions(
                approval_text(shown),
                decimal_of((i + 1) as nat) + ". "@ + (#[trigger] shown.choices[i]).label,
            ),
{
    let head = seq!["[codex] "@ + shown.title, Seq::<char>::empty()];
    let details = if shown.details.len() == 0 {
        shown.details
    } else {
        shown.details.push(Seq::<char>::empty())
    };
    let lines = choice_lines(shown.choices);
    let tail = seq![
        Seq::<char>::empty(),
        "Reply with 1-"@ + decimal_of(shown.choices.len()) + ", or /stop."@,
    ];
    let all = head + details + lines + tail;
    let text = approval_text(shown);
    assert(text == crate::text::join_of(all, "\n"@));
    assert(mentions(text, shown.title)) by {
        joined_texts_mention_each(all, "\n"@, 0);
        assert(all[0] == "[codex] "@ + shown.title);
        lemma_mentions_itself(shown.title);
        lemma_mentions_within("[codex] "@, shown.title, Seq::empty(), shown.title);
        assert("[codex] "@ + shown.title + Seq::<char>::empty() =~= all[0]);
        lemma_mentioned_further(text, all[0], shown.title);
    }
    assert forall|i: int| 0 <= i < shown.details.len() implies mentions(
        text,
        #[trigger] shown.details[i],
    ) by {
        joined_texts_mention_each(all, "\n"@, 2 + i);
        assert(all[2 + i] == shown.details[i]);
    }
    assert forall|i: int| 0 <= i < shown.choices.len() implies mentions(
        text,
        decimal_of((i + 1) as nat) + ". "@ + (#[trigger] shown.choices[i]).label,
    ) by {
        joined_texts_mention_each(all, "\n"@, 2 + details.len() + i);
        assert(all[2 + details.len() + i] == lines[i]);
    }
}

proof fn lemma_mentioned_further(whole: Seq<char>, part: Seq<char>, inner: Seq<char>)
    requires
        mentions(whole, part),
        mentions(part, inner),
    ensures
        mentions(whole, inner),
{
    let at = choose|at: int| #[trigger] crate::text::occurs_at(whole, part, at);
    let before = whole.take(at);
    let after = whole.skip(at + part.len());
    assert(before + part + after =~= whole) by {
        assert forall|k: int| 0 <= k < whole.len() implies (before + part + after)[k]
            == whole[k] by {
            if at <= k < at + part.len() {
                assert(whole.subrange(at, at + part.len())[k - at] == whole[k]);
            }
        }
    }
    lemma_mentions_within(before, part, after, inner);
}

/// A number decides on the approval that is shown, with the choice that stands under it,
/// and Codex is handed exactly that decision for that request; a number under which nothing
/// stands decides nothing.
pub proof fn numbers_choose_what_is_shown(m: CoordinatorModel, number: int)
    requires
        m.wait is None,
        m.pending_approvals.len() > 0,
    ensures
        ({
            let front = m.pending_approvals[0];
            let choices = front.presentation.choices;
            let after = m.choosing(number);
            &&& 1 <= number <= choices.len() ==> after.wanted() == (ActionModel::Resolve {
                request_id: front.request_id,
                response: ResponseModel::Approval(choices[number - 1].decision),
            }) && after.effects == m.effects
            &&& !(1 <= number <= choices.len()) ==> after.wait is None
            &&& after.pending_approvals == m.pending_approvals
            &&& after.state == m.state
            &&& after.tasks == m.tasks
        }),
{
}

/// A message that is nothing but a number is taken for that number while an approval is
/// shown, and for nothing else: it joins no queue.
pub proof fn number_messages_are_choices(
    m: CoordinatorModel,
    message: InboundMessage,
    now: u64,
    number: nat,
)
    requires
        m.state_healthy,
        m.wait is None,
        !is_known(m.state, message),
        m.pending_approvals.len() > 0,
        !(message.attachment matches Some(InboundAttachment::Unsupported { .. })),
        asked_for(message) is Prompt,
        utf8_len(message.body@) <= MAX_PROMPT_BYTES,
        trimmed(message.body@) == decimal_of(number),
        0 < number <= usize::MAX,
    ensures
        ({
            let accepted = after_step(m, Step::Inbound(message, now));
            &&& accepted.accepted == Some(AcceptedModel::ApprovalChoice(number as int))
            &&& accepted.state.queued_prompts == m.state.queued_prompts
            &&& accepted.state.pending_steers == m.state.pending_steers
            &&& accepted.pending_approvals == m.pending_approvals
            &&& accepted.wait == Some(WaitModel::Saving(AfterSaveModel::Accepted))
        }),
{
    lemma_decimal_reads_back(number);
    assert(approval_choice(message.body@) == Some(number as int));
}

/// Once a chosen number is saved, the decision under it is handed to Codex.
pub proof fn chosen_numbers_are_handed_over(m: CoordinatorModel, number: int)
    requires
        m.wait == Some(WaitModel::Saving(AfterSaveModel::Accepted)),
        m.accepted == Some(AcceptedModel::ApprovalChoice(number)),
        m.pending_approvals.len() > 0,
        1 <= number <= m.pending_approvals[0].presentation.choices.len(),
    ensures
        ({
            let front = m.pending_approvals[0];
            let after = after_step(m, Step::Saved(true));
            &&& after.wanted() == (ActionModel::Resolve {
                request_id: front.request_id,
                response: ResponseModel::Approval(
                    front.presentation.choices[number - 1].decision,
                ),
            })
            &&& after.effects == m.effects.push(EffectModel::Accepted(true))
        }),
{
}

proof fn lemma_choice_with(choices: Seq<ChoiceModel>, decision: DecisionModel, from: int)
    requires
        0 <= from,
    ensures
        match choice_with(choices, decision, from) {
            Some(index) => from <= index < choices.len() && choices[index].decision == decision,
            None => forall|i: int|
                from <= i < choices.len() ==> (#[trigger] choices[i]).decision != decision,
        },
    decreases choices.len() - from,
{
    if from < choices.len() && choices[from].decision != decision {
        lemma_choice_with(choices, decision, from + 1);
    }
}

/// The label that a decision is reported under is that of a choice with this decision.
pub proof fn decisions_are_reported_by_their_label(choices: Seq<ChoiceModel>, index: int)
    requires
        0 <= index < choices.len(),
    ensures
        exists|i: int|
            0 <= i < choices.len() && (#[trigger] choices[i]).decision == choices[index].decision
                && decision_label(choices, choices[index].decision) == choices[i].label,
{
    lemma_choice_with(choices, choices[index].decision, 0);
    let found = choice_with(choices, choices[index].decision, 0);
    assert(choices[index].decision == choices[index].decision);
    assert(choices[found->0].decision == choices[index].decision);
}

/// Whether a decision approves nothing.
pub open spec fn approves_nothing(decision: DecisionModel) -> bool {
    match decision {
        DecisionModel::Command(answer) => answer is Cancel || answer is Decline,
        DecisionModel::FileChange(answer) => answer is Cancel || answer is Decline,
        DecisionModel::Permissions { permissions, scope, strict_auto_review } =>
            permissions.network is None && permissions.file_system is None && scope is Turn
                && strict_auto_review is None,
    }
}

proof fn lemma_cancelling(choices: Seq<ChoiceModel>, from: int)
    requires
        0 <= from,
    ensures
        cancelling(choices, from) is Some <==> exists|i: int|
            from <= i < choices.len() && (#[trigger] choices[i]).decision
                == DecisionModel::Command(CommandDecisionModel::Cancel),
    decreases choices.len() - from,
{
    if from < choices.len() {
        if choices[from].decision != DecisionModel::Command(CommandDecisionModel::Cancel) {
            lemma_cancelling(choices, from + 1);
        }
    }
}

/// A stop approves nothing: what it hands to Codex for the approval that is shown is a
/// cancellation, or the grant of nothing. A command is cancelled exactly where that is
/// among its choices.
pub proof fn stopping_approves_nothing(m: CoordinatorModel)
    requires
        m.wait is None,
        m.pending_approvals.len() > 0,
    ensures
        ({
            let front = m.pending_approvals[0];
            let after = m.dismissing();
            &&& after.wait is Some ==> after.wait->0 is ResolvingApproval && approves_nothing(
                after.wait->0->ResolvingApproval_decision,
            ) && after.wait->0->ResolvingApproval_request_id == front.request_id
            &&& after.wait is None <==> front.kind is Command && forall|i: int|
                0 <= i < front.presentation.choices.len() ==> (
                #[trigger] front.presentation.choices[i]).decision != DecisionModel::Command(
                    CommandDecisionModel::Cancel,
                )
            &&& after.pending_approvals == m.pending_approvals
        }),
{
    lemma_cancelling(m.pending_approvals[0].presentation.choices, 0);
}

/// A settled approval leaves, and no other: those left keep their order.
pub proof fn approvals_leave_by_request(
    approvals: Seq<PendingApprovalModel>,
    request_id: RequestIdModel,
)
    ensures
        without_approval(approvals, request_id) == approvals.filter(
            |approval: PendingApprovalModel| approval.request_id != request_id,
        ),
    decreases approvals.len(),
{
    reveal(Seq::filter);
    if approvals.len() > 0 {
        approvals_leave_by_request(approvals.drop_last(), request_id);
    } else {
        assert(without_approval(approvals, request_id) =~= approvals.filter(
            |approval: PendingApprovalModel| approval.request_id != request_id,
        ));
    }
}

/// A settled question leaves, and no other: those left keep their order.
pub proof fn questions_leave_by_request(
    requests: Seq<PendingRequestModel>,
    request_id: RequestIdModel,
)
    ensures
        without_request(requests, request_id) == requests.filter(
            |request: PendingRequestModel| request.request_id != request_id,
        ),
    decreases requests.len(),
{
    reveal(Seq::filter);
    if requests.len() > 0 {
        questions_leave_by_request(requests.drop_last(), request_id);
    } else {
        assert(without_request(requests, request_id) =~= requests.filter(
            |request: PendingRequestModel| request.request_id != request_id,
        ));
    }
}

/// A decision that reached Codex settles its approval and no other, and the next one is
/// shown; one that did not leaves them all waiting.
pub proof fn delivered_decisions_settle_their_approval(
    m: CoordinatorModel,
    request_id: RequestIdModel,
    decision: DecisionModel,
    label: Seq<char>,
)
    requires
        m.wait == Some(WaitModel::ResolvingApproval { request_id, decision, label }),
    ensures
        ({
            let left = m.pending_approvals.filter(
                |approval: PendingApprovalModel| approval.request_id != request_id,
            );
            let settled = after_step(m, Step::Resolved(true));
            let failed = after_step(m, Step::Resolved(false));
            let told = m.resting().telling("[codex] Selected: "@ + label + "."@);
            &&& settled.pending_approvals == left
            &&& settled.wait is None
            &&& settled.effects == if left.len() == 0 {
                told.effects
            } else {
                told.telling(approval_text(left[0].presentation)).effects
            }
            &&& failed.pending_approvals == m.pending_approvals
            &&& failed.wait is None
        }),
{
    approvals_leave_by_request(m.pending_approvals, request_id);
}

/// Approvals wait in the order in which they came: a new one of the running turn comes
/// last, under its own request, and is shown at once exactly where it is the only one.
pub proof fn approvals_wait_in_order(
    m: CoordinatorModel,
    request: ServerRequest,
    token: Seq<char>,
    now: u64,
)
    requires
        m.pending_requests.len() + m.pending_approvals.len() < MAX_PENDING_REQUESTS,
        match request {
            ServerRequest::CommandExecutionRequestApproval { params, .. } => m.runs(
                params.thread_id@,
                params.turn_id@,
            ) && m.settings.include_approval_notices,
            ServerRequest::FileChangeRequestApproval { params, .. } => m.runs(
                params.thread_id@,
                params.turn_id@,
            ) && m.settings.include_approval_notices,
            ServerRequest::PermissionsRequestApproval { params, .. } => m.runs(
                params.thread_id@,
                params.turn_id@,
            ),
            _ => false,
        },
    ensures
        ({
            let after = m.requested(request, token, now);
            let last = after.pending_approvals.last();
            &&& after.pending_approvals == m.pending_approvals.push(last)
            &&& after.pending_requests == m.pending_requests
            &&& after.state == m.state
            &&& match request {
                ServerRequest::CommandExecutionRequestApproval { request_id, params } =>
                    last.request_id == request_id@ && last.kind is Command
                        && last.presentation == crate::approval::command_presentation(params),
                ServerRequest::FileChangeRequestApproval { request_id, params } =>
                    last.request_id == request_id@ && last.kind is FileChange,
                ServerRequest::PermissionsRequestApproval { request_id, params } =>
                    last.request_id == request_id@ && last.kind is Permissions
                        && last.presentation == crate::approval::grant_presentation(params),
                _ => false,
            }
            &&& after.effects == if m.pending_approvals.len() == 0 {
                m.telling(approval_text(last.presentation)).effects
            } else {
                m.effects
            }
        }),
{
    let after = m.requested(request, token, now);
    assert(after.pending_approvals =~= m.pending_approvals.push(after.pending_approvals.last()));
}

/// An approval that belongs to another turn than the running one is refused, and waits for
/// nobody.
pub proof fn approvals_of_other_turns_are_refused(
    m: CoordinatorModel,
    request: ServerRequest,
    token: Seq<char>,
    now: u64,
)
    requires
        m.pending_requests.len() + m.pending_approvals.len() < MAX_PENDING_REQUESTS,
        match request {
            ServerRequest::CommandExecutionRequestApproval { params, .. } => !m.runs(
                params.thread_id@,
                params.turn_id@,
            ),
            ServerRequest::FileChangeRequestApproval { params, .. } => !m.runs(
                params.thread_id@,
                params.turn_id@,
            ),
            ServerRequest::PermissionsRequestApproval { params, .. } => !m.runs(
                params.thread_id@,
                params.turn_id@,
            ),
            ServerRequest::ToolRequestUserInput { params, .. } => !m.runs(
                params.thread_id@,
                params.turn_id@,
            ),
            _ => false,
        },
    ensures
        ({
            let id = match request {
                ServerRequest::CommandExecutionRequestApproval { request_id, .. } => request_id@,
                ServerRequest::FileChangeRequestApproval { request_id, .. } => request_id@,
                ServerRequest::PermissionsRequestApproval { request_id, .. } => request_id@,
                ServerRequest::ToolRequestUserInput { request_id, .. } => request_id@,
                ServerRequest::Unsupported { request_id, .. } => request_id@,
            };
            m.requested(request, token, now) == (CoordinatorModel {
                effects: m.effects.push(EffectModel::Reject(id)),
                ..m
            })
        }),
{
}

/// A question names itself, its place among the others, and the token to answer it with.
pub proof fn questions_are_shown_whole(request: PendingRequestModel, index: int)
    requires
        0 <= index < request.questions.len(),
    ensures
        mentions(asking_text(request, index), request.questions[index].text),
        mentions(
            asking_text(request, index),
            decimal_of((index + 1) as nat) + "/"@ + decimal_of(request.questions.len()),
        ),
        mentions(asking_text(request, index), "`/answer "@ + request.token + " "@),
{
    let number = decimal_of((index + 1) as nat);
    let total = decimal_of(request.questions.len());
    let text = request.questions[index].text;
    lemma_question_in_its_line(number, total, request.token, text);
    lemma_place_in_its_line(number, total, request.token, text);
    lemma_token_in_its_line(number, total, request.token, text);
}

/// The line that a question is put with, by its parts.
spec fn question_line(number: Seq<char>, total: Seq<char>, token: Seq<char>, text: Seq<char>) -> Seq<
    char,
> {
    "[codex] Question "@ + number + "/"@ + total + " ("@ + token + "): "@ + text
        + "\nReply `/answer "@ + token + " <your answer>`."@
}

proof fn lemma_question_in_its_line(
    number: Seq<char>,
    total: Seq<char>,
    token: Seq<char>,
    text: Seq<char>,
)
    ensures
        mentions(question_line(number, total, token, text), text),
{
    let before = "[codex] Question "@ + number + "/"@ + total + " ("@ + token + "): "@;
    let after = "\nReply `/answer "@ + token + " <your answer>`."@;
    lemma_mentions_itself(text);
    lemma_mentions_within(before, text, after, text);
    assert(before + text + after =~= question_line(number, total, token, text));
}

proof fn lemma_place_in_its_line(
    number: Seq<char>,
    total: Seq<char>,
    token: Seq<char>,
    text: Seq<char>,
)
    ensures
        mentions(question_line(number, total, token, text), number + "/"@ + total),
{
    let place = number + "/"@ + total;
    let rest = " ("@ + token + "): "@ + text + "\nReply `/answer "@ + token
        + " <your answer>`."@;
    lemma_mentions_itself(place);
    lemma_mentions_within("[codex] Question "@, place, rest, place);
    assert("[codex] Question "@ + place + rest =~= question_line(number, total, token, text));
}

proof fn lemma_hint_by_its_parts()
    ensures
        "\nReply `/answer "@ == "\nReply "@ + "`/answer "@,
        " <your answer>`."@ == " "@ + "<your answer>`."@,
{
    reveal_strlit("\nReply `/answer ");
    reveal_strlit("`/answer ");
    reveal_strlit("\nReply ");
    reveal_strlit(" <your answer>`.");
    reveal_strlit(" ");
    reveal_strlit("<your answer>`.");
    assert("\nReply `/answer "@ =~= "\nReply "@ + "`/answer "@);
    assert(" <your answer>`."@ =~= " "@ + "<your answer>`."@);
}

proof fn lemma_mentions_the_middle(
    before: Seq<char>,
    opening: Seq<char>,
    command: Seq<char>,
    token: Seq<char>,
    space: Seq<char>,
    closing: Seq<char>,
)
    ensures
        mentions(
            before + (opening + command) + token + (space + closing),
            command + token + space,
        ),
{
    let hint = command + token + space;
    lemma_mentions_itself(hint);
    lemma_mentions_within(before + opening, hint, closing, hint);
    assert((before + opening) + hint + closing =~= before + (opening + command) + token + (space
        + closing));
}

proof fn lemma_token_in_its_line(
    number: Seq<char>,
    total: Seq<char>,
    token: Seq<char>,
    text: Seq<char>,
)
    ensures
        mentions(question_line(number, total, token, text), "`/answer "@ + token + " "@),
{
    lemma_hint_by_its_parts();
    lemma_mentions_the_middle(
        "[codex] Question "@ + number + "/"@ + total + " ("@ + token + "): "@ + text,
        "\nReply "@,
        "`/answer "@,
        token,
        " "@,
        "<your answer>`."@,
    );
}

/// A question for a secret is refused and never put to the user: nothing waits for its
/// answer.
pub proof fn secrets_are_never_asked_for(
    m: CoordinatorModel,
    request_id: RequestId,
    params: ToolRequestUserInputParams,
    token: Seq<char>,
    now: u64,
    index: int,
)
    requires
        0 <= index < params.questions@.len(),
        params.questions@[index].is_secret,
    ensures
        ({
            let after = m.questioned(request_id, params, token, now);
            &&& after.pending_requests == m.pending_requests
            &&& after.effects.len() > m.effects.len()
            &&& after.effects[m.effects.len() as int] == EffectModel::Reject(request_id@)
            &&& after.projector == m.projector
        }),
{
    assert(asks_for_secret(params.questions@));
}

/// Questions of the running turn wait under their token, each as it was asked, until their
/// time is up.
pub proof fn asked_questions_wait_under_their_token(
    m: CoordinatorModel,
    request_id: RequestId,
    params: ToolRequestUserInputParams,
    token: Seq<char>,
    now: u64,
)
    requires
        m.runs(params.thread_id@, params.turn_id@),
        params.questions@.len() > 0,
        forall|i: int|
            0 <= i < params.questions@.len() ==> !(#[trigger] params.questions@[i]).is_secret,
    ensures
        ({
            let after = m.questioned(request_id, params, token, now);
            let request = after.pending_requests.last();
            &&& after.pending_requests == m.pending_requests.push(request)
            &&& request.token == token
            &&& request.request_id == request_id@
            &&& request.answers.len() == 0
            &&& request.questions.len() == params.questions@.len()
            &&& forall|i: int|
                0 <= i < request.questions.len() ==> (#[trigger] request.questions[i]).id
                    == params.questions@[i].id@ && request.questions[i].text.take(
                    params.questions@[i].question@.len() as int,
                ) == params.questions@[i].question@
            &&& request.expires_at >= now
            &&& request.expires_at == now + 300 || request.expires_at == u64::MAX
            &&& after.effects == m.telling(asking_text(request, 0)).effects
            &&& after.state == m.state
        }),
{
    assert(!asks_for_secret(params.questions@));
    let after = m.questioned(request_id, params, token, now);
    let request = after.pending_requests.last();
    assert(after.pending_requests =~= m.pending_requests.push(request));
    assert forall|i: int| 0 <= i < request.questions.len() implies (
    #[trigger] request.questions[i]).id == params.questions@[i].id@
        && request.questions[i].text.take(params.questions@[i].question@.len() as int)
        == params.questions@[i].question@ by {
        let question = params.questions@[i];
        assert(request.questions[i].text == super::requests::question_text(question));
        assert(request.questions[i].text.take(question.question@.len() as int)
            =~= question.question@);
    }
}

/// An answer reaches the question that its token stands for, and no other.
pub proof fn answers_reach_their_question(
    m: CoordinatorModel,
    token: Seq<char>,
    answer: Seq<char>,
    index: int,
)
    requires
        0 <= index < m.pending_requests.len(),
        m.pending_requests[index].token == token,
        forall|i: int| 0 <= i < index ==> (#[trigger] m.pending_requests[i]).token != token,
        m.pending_requests[index].answers.len() < m.pending_requests[index].questions.len(),
    ensures
        ({
            let before = m.pending_requests[index];
            let after = m.answering(token, answer);
            let given = after.pending_requests[index];
            &&& after.pending_requests.len() == m.pending_requests.len()
            &&& forall|i: int|
                0 <= i < m.pending_requests.len() && i != index ==> after.pending_requests[i]
                    == #[trigger] m.pending_requests[i]
            &&& given.answers.len() == before.answers.len() + 1
            &&& given.answers.drop_last() == before.answers
            &&& given.answers.last().answer == answer
            &&& given.answers.last().question_id == before.questions[before.answers.len() as int].id
            &&& given.request_id == before.request_id && given.token == before.token
            &&& given.questions == before.questions && given.expires_at == before.expires_at
        }),
{
    lemma_request_with(m.pending_requests, token, 0);
    assert(request_with(m.pending_requests, token, 0) == Some(index));
    let before = m.pending_requests[index];
    let given = m.answering(token, answer).pending_requests[index];
    assert(given.answers.drop_last() =~= before.answers);
}

proof fn lemma_request_with(requests: Seq<PendingRequestModel>, token: Seq<char>, from: int)
    requires
        0 <= from,
    ensures
        match request_with(requests, token, from) {
            Some(index) => from <= index < requests.len() && requests[index].token == token
                && forall|i: int| from <= i < index ==> (#[trigger] requests[i]).token != token,
            None => forall|i: int|
                from <= i < requests.len() ==> (#[trigger] requests[i]).token != token,
        },
    decreases requests.len() - from,
{
    if from < requests.len() && requests[from].token != token {
        lemma_request_with(requests, token, from + 1);
    }
}

/// An answer under a token that nothing waits under changes nothing that waits.
pub proof fn stray_answers_change_nothing(m: CoordinatorModel, token: Seq<char>, answer: Seq<char>)
    requires
        m.wait is None,
        forall|i: int|
            0 <= i < m.pending_requests.len() ==> (#[trigger] m.pending_requests[i]).token != token,
    ensures
        m.answering(token, answer) == m.telling(
            "[codex] That question token is unknown or expired."@,
        ),
{
    lemma_request_with(m.pending_requests, token, 0);
}

/// Questions whose time is up leave and are refused to Codex, each of them; all others stay
/// in their order, and nothing else changes but for what is said.
pub proof fn expired_questions_are_refused(
    m: CoordinatorModel,
    requests: Seq<PendingRequestModel>,
    now: u64,
)
    ensures
        ({
            let (after, kept) = m.expiring(requests, now);
            &&& kept == requests.filter(|request: PendingRequestModel| request.expires_at > now)
            &&& after == (CoordinatorModel { effects: after.effects, ..m })
            &&& m.effects.is_prefix_of(after.effects)
            &&& forall|i: int|
                0 <= i < requests.len() && (#[trigger] requests[i]).expires_at <= now
                    ==> after.effects.contains(EffectModel::Reject(requests[i].request_id))
            &&& forall|k: int|
                m.effects.len() <= k < after.effects.len() && (#[trigger] after.effects[k])
                    is Reject ==> exists|i: int|
                    0 <= i < requests.len() && (#[trigger] requests[i]).expires_at <= now
                        && after.effects[k] == EffectModel::Reject(requests[i].request_id)
        }),
    decreases requests.len(),
{
    reveal(Seq::filter);
    if requests.len() > 0 {
        let shorter = requests.drop_last();
        let request = requests.last();
        expired_questions_are_refused(m, shorter, now);
        let (middle, kept) = m.expiring(shorter, now);
        let (after, left) = m.expiring(requests, now);
        if request.expires_at <= now {
            let refused = middle.doing(EffectModel::Reject(request.request_id));
            let text = "[codex] Question token "@ + request.token + " expired."@;
            assert(after == refused.telling(text));
            lemma_telling_only_adds_notices(refused, text);
            let place = middle.effects.len() as int;
            assert(refused.effects[place] == EffectModel::Reject(request.request_id));
            assert(after.effects[place] == refused.effects[place]);
            assert forall|i: int|
                0 <= i < requests.len() && (#[trigger] requests[i]).expires_at
                    <= now implies after.effects.contains(
                EffectModel::Reject(requests[i].request_id),
            ) by {
                if i < shorter.len() {
                    assert(shorter[i] == requests[i]);
                    let effect = EffectModel::Reject(shorter[i].request_id);
                    assert(middle.effects.contains(effect));
                    let k = choose|k: int|
                        0 <= k < middle.effects.len() && middle.effects[k] == effect;
                    assert(refused.effects[k] == effect);
                    assert(after.effects[k] == effect);
                }
            }
            assert forall|k: int|
                m.effects.len() <= k < after.effects.len() && (#[trigger] after.effects[k])
                    is Reject implies exists|i: int|
                0 <= i < requests.len() && (#[trigger] requests[i]).expires_at <= now
                    && after.effects[k] == EffectModel::Reject(requests[i].request_id) by {
                if k < place {
                    assert(after.effects[k] == refused.effects[k]);
                    assert(refused.effects[k] == middle.effects[k]);
                    let i = choose|i: int|
                        0 <= i < shorter.len() && (#[trigger] shorter[i]).expires_at <= now
                            && middle.effects[k] == EffectModel::Reject(shorter[i].request_id);
                    assert(requests[i] == shorter[i]);
                } else if k == place {
                    assert(requests[requests.len() - 1] == request);
                }
            }
            assert(m.effects.is_prefix_of(after.effects)) by {
                assert(m.effects =~= after.effects.subrange(0, m.effects.len() as int)) by {
                    assert forall|k: int| 0 <= k < m.effects.len() implies m.effects[k]
                        == after.effects[k] by {
                        assert(m.effects[k] == middle.effects[k]);
                        assert(middle.effects[k] == refused.effects[k]);
                        assert(refused.effects[k] == after.effects[k]);
                    }
                }
            }
        } else {
            assert forall|i: int|
                0 <= i < requests.len() && (#[trigger] requests[i]).expires_at
                    <= now implies after.effects.contains(
                EffectModel::Reject(requests[i].request_id),
            ) by {
                assert(shorter[i] == requests[i]);
            }
            assert forall|k: int|
                m.effects.len() <= k < after.effects.len() && (#[trigger] after.effects[k])
                    is Reject implies exists|i: int|
                0 <= i < requests.len() && (#[trigger] requests[i]).expires_at <= now
                    && after.effects[k] == EffectModel::Reject(requests[i].request_id) by {
                let i = choose|i: int|
                    0 <= i < shorter.len() && (#[trigger] shorter[i]).expires_at <= now
                        && middle.effects[k] == EffectModel::Reject(shorter[i].request_id);
                assert(requests[i] == shorter[i]);
            }
        }
    } else {
        assert(m.expiring(requests, now).1 =~= requests.filter(
            |request: PendingRequestModel| request.expires_at > now,
        ));
    }
}

proof fn lemma_telling_only_adds_notices(m: CoordinatorModel, text: Seq<char>)
    ensures
        ({
            let after = m.telling(text);
            &&& after == (CoordinatorModel { effects: after.effects, ..m })
            &&& after.effects.len() >= m.effects.len()
            &&& forall|k: int|
                0 <= k < m.effects.len() ==> after.effects[k] == #[trigger] m.effects[k]
            &&& forall|k: int|
                m.effects.len() <= k < after.effects.len() ==> (#[trigger] after.effects[k])
                    is Notice
        }),
{
}

} // verus!
