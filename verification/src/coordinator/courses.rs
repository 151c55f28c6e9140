//! What holds of the coordinator over several steps.

use crate::attachment::InboundAttachment;
use crate::protocol::RequestId;
use crate::protocol::ToolRequestUserInputParams;
use crate::state::PromptModel;
use crate::state::SteerModel;
use crate::transport_webhook::InboundMessage;
use super::inbound::asked_for;
use super::inbound::is_known;
use super::inbound::prompt_of;
use super::inbound::utf8_len;
use super::laws::text_without_a_turn_is_queued;
use super::lifecycle::refusals;
use super::model::messages_for;
use super::model::ActionModel;
use super::model::AfterSaveModel;
use super::model::AnswerModel;
use super::model::CoordinatorModel;
use super::model::EffectModel;
use super::model::PendingQuestionModel;
use super::model::PendingRequestModel;
use super::model::ResponseModel;
use super::model::TaskModel;
use super::model::WaitModel;
use super::model::MAX_PROMPT_BYTES;
use super::requests::asking_text;
use super::requests::asks_for_secret;
use super::requests::questions_of;
use super::requests::request_with;
use super::steering::Refusal;
use super::steps::after_step;
use super::steps::can_happen;
use super::steps::lemma_request_place;
use super::steps::lemma_request_stays;
use super::steps::Step;
use vstd::prelude::*;

verus! {

/// Whether steps lead from each coordinator of a list to the next.
#[verifier::opaque]
pub open spec fn is_course(models: Seq<CoordinatorModel>, steps: Seq<Step>) -> bool {
    &&& models.len() == steps.len() + 1
    &&& forall|i: int|
        0 <= i < steps.len() ==> can_happen(models[i], #[trigger] steps[i]) && models[i + 1]
            == after_step(models[i], steps[i])
}

/// The effects that a step adds.
#[verifier::opaque]
pub open spec fn added(m: CoordinatorModel, step: Step) -> Seq<EffectModel> {
    if step is EffectsTaken {
        Seq::empty()
    } else {
        after_step(m, step).effects.skip(m.effects.len() as int)
    }
}

/// The effects that the first `count` steps of a course add, in order.
pub open spec fn all_added(models: Seq<CoordinatorModel>, steps: Seq<Step>, count: int) -> Seq<
    EffectModel,
>
    decreases count,
{
    if count <= 0 {
        Seq::empty()
    } else {
        all_added(models, steps, count - 1) + added(models[count - 1], steps[count - 1])
    }
}

/// What the user is told of an outage.
pub open spec fn outage_report(m: CoordinatorModel) -> Seq<EffectModel> {
    messages_for(
        m.command_catalog.response_prefix@,
        m.settings.output_chunk_chars as int,
        "[codex] Codex app-server is unavailable; your prompt is queued and will retry automatically."@,
    )
}

/// Whether a step belongs to an outage: no thread can be started, however often it is
/// tried, while the state can be saved.
pub open spec fn is_outage_step(step: Step) -> bool {
    match step {
        Step::Start => true,
        Step::Reconnected => true,
        Step::Delivered(event, _) => !(event is StoreFailed),
        Step::TransportChecked(_) => true,
        Step::Tick(_) => true,
        Step::ShutDown => true,
        Step::Advance => true,
        Step::EffectsTaken => true,
        Step::Saved(saved) => saved,
        Step::ThreadStarted(outcome) => outcome is None,
        _ => false,
    }
}

/// Whether a task has to do with nothing but the queue.
pub open spec fn is_queue_task(task: TaskModel) -> bool {
    match task {
        TaskModel::StartNextPrompt => true,
        TaskModel::AdvanceQueue => true,
        TaskModel::GoOn => true,
        TaskModel::FinishResume { .. } => true,
        TaskModel::Resume { .. } => true,
        TaskModel::FlushLegacy { .. } => true,
        TaskModel::Recover => true,
        _ => false,
    }
}

/// Whether a coordinator without a thread has a prompt to submit and nothing else to
/// attend to.
pub open spec fn is_stuck(m: CoordinatorModel, prompt: PromptModel) -> bool {
    &&& m.state.binding is None
    &&& m.state.active_turn is None
    &&& m.state.legacy_outbox.len() == 0
    &&& m.state.queued_prompts.len() > 0
    &&& m.state.queued_prompts[0] == PromptModel {
        failure_notified: m.state.queued_prompts[0].failure_notified,
        ..prompt
    }
    &&& !prompt.submission_uncertain
    &&& m.pending_requests.len() == 0
    &&& m.pending_approvals.len() == 0
    &&& m.state_healthy
    &&& match m.wait {
        None => true,
        Some(WaitModel::StartingThread(purpose)) => purpose is Prompt,
        Some(WaitModel::Saving(next)) => next is Unavailable || next is Recovered || next
            is Nothing,
        _ => false,
    }
    &&& forall|i: int| 0 <= i < m.tasks.len() ==> is_queue_task(#[trigger] m.tasks[i])
}

/// Whether the user was told of the outage, or is about to be.
pub open spec fn is_notified(m: CoordinatorModel) -> bool {
    m.state.queued_prompts[0].failure_notified
}

/// Whether the user is about to be told of the outage.
pub open spec fn is_notifying(m: CoordinatorModel) -> bool {
    m.wait == Some(WaitModel::Saving(AfterSaveModel::Unavailable))
}

/// One step of an outage, and what it adds.
spec fn stays_stuck(
    m: CoordinatorModel,
    step: Step,
    after: CoordinatorModel,
    said: Seq<EffectModel>,
    prompt: PromptModel,
) -> bool {
    &&& is_stuck(after, prompt)
    &&& after.settings == m.settings
    &&& after.command_catalog == m.command_catalog
    &&& said == if step is Saved && is_notifying(m) {
        outage_report(m)
    } else {
        Seq::empty()
    }
    &&& is_notifying(m) ==> step is Saved || step is EffectsTaken
    &&& is_notified(after) == (is_notified(m) || step is ThreadStarted)
    &&& is_notifying(after) == ((step is ThreadStarted && !is_notified(m)) || (step is EffectsTaken
        && is_notifying(m)))
}

proof fn lemma_tasks_pushed(m: CoordinatorModel, task: TaskModel)
    requires
        forall|i: int| 0 <= i < m.tasks.len() ==> is_queue_task(#[trigger] m.tasks[i]),
        is_queue_task(task),
    ensures
        ({
            let after = m.then_doing(task);
            forall|i: int| 0 <= i < after.tasks.len() ==> is_queue_task(#[trigger] after.tasks[i])
        }),
{
}

proof fn lemma_stuck_advance(m: CoordinatorModel, prompt: PromptModel)
    requires
        is_stuck(m, prompt),
        m.wait is None,
    ensures
        stays_stuck(m, Step::Advance, after_step(m, Step::Advance), added(m, Step::Advance), prompt),
{
    reveal(added);
    let after = after_step(m, Step::Advance);
    assert(m.effects.skip(m.effects.len() as int) =~= Seq::<EffectModel>::empty());
    if m.tasks.len() > 0 {
        let rest = CoordinatorModel { tasks: m.tasks.drop_last(), ..m };
        assert forall|i: int| 0 <= i < rest.tasks.len() implies is_queue_task(
            #[trigger] rest.tasks[i],
        ) by {
            assert(rest.tasks[i] == m.tasks[i]);
        }
        assert(is_queue_task(m.tasks[m.tasks.len() - 1]));
        assert(after == rest.doing_task(m.tasks.last()));
        match m.tasks.last() {
            TaskModel::FinishResume { .. } => {
                lemma_tasks_pushed(rest, TaskModel::AdvanceQueue);
            },
            TaskModel::Resume { reconnect } => {
                lemma_tasks_pushed(rest, TaskModel::FinishResume { resumed: true, reconnect });
            },
            _ => {},
        }
    }
}

proof fn lemma_stuck_saved(m: CoordinatorModel, prompt: PromptModel)
    requires
        is_stuck(m, prompt),
        m.wait matches Some(WaitModel::Saving(_)),
    ensures
        stays_stuck(m, Step::Saved(true), after_step(m, Step::Saved(true)), added(m, Step::Saved(true)), prompt),
{
    reveal(added);
    let report = outage_report(m);
    assert((m.effects + report).skip(m.effects.len() as int) =~= report);
    assert(m.effects.skip(m.effects.len() as int) =~= Seq::<EffectModel>::empty());
}

proof fn lemma_stuck_outside(m: CoordinatorModel, step: Step, prompt: PromptModel)
    requires
        is_stuck(m, prompt),
        can_happen(m, step),
        is_outage_step(step),
        !(step is Advance),
        !(step is Saved),
    ensures
        stays_stuck(m, step, after_step(m, step), added(m, step), prompt),
{
    reveal(added);
    assert(m.effects.skip(m.effects.len() as int) =~= Seq::<EffectModel>::empty());
    match step {
        Step::Start => {
            lemma_tasks_pushed(m, TaskModel::Resume { reconnect: true });
            let resumed = if m.app_server_connected {
                m.then_doing(TaskModel::Resume { reconnect: true })
            } else {
                m
            };
            lemma_tasks_pushed(resumed, TaskModel::FlushLegacy { delivered: false });
        },
        Step::Reconnected => {
            lemma_tasks_pushed(m, TaskModel::FinishResume { resumed: true, reconnect: true });
        },
        Step::ShutDown => {
            let refused = refusals(m.pending_requests, m.pending_approvals);
            assert(refused =~= Seq::<EffectModel>::empty());
            assert(m.effects + refused =~= m.effects);
            lemma_tasks_pushed(m, TaskModel::FlushLegacy { delivered: false });
        },
        Step::Tick(now) => {
            assert(m.expiring(m.pending_requests, now).1.len() == 0);
        },
        _ => {},
    }
}

proof fn lemma_outage_step(
    models: Seq<CoordinatorModel>,
    steps: Seq<Step>,
    prompt: PromptModel,
    at: int,
)
    requires
        is_course(models, steps),
        0 <= at < steps.len(),
        is_stuck(models[at], prompt),
        is_outage_step(steps[at]),
    ensures
        stays_stuck(
            models[at],
            steps[at],
            models[at + 1],
            added(models[at], steps[at]),
            prompt,
        ),
{
    reveal(is_course);
    let m = models[at];
    let step = steps[at];
    assert(can_happen(m, step) && models[at + 1] == after_step(m, step));
    match step {
        Step::Advance => lemma_stuck_advance(m, prompt),
        Step::Saved(_) => lemma_stuck_saved(m, prompt),
        _ => lemma_stuck_outside(m, step, prompt),
    }
}

/// However often a thread cannot be started for a prompt, the user is told once: over a
/// whole outage nothing else is said, the report comes with the first failure, and the
/// prompt stays first in the queue with that recorded.
pub proof fn one_outage_is_reported_for_a_prompt(
    models: Seq<CoordinatorModel>,
    steps: Seq<Step>,
    prompt: PromptModel,
    count: int,
)
    requires
        is_course(models, steps),
        0 <= count <= steps.len(),
        is_stuck(models[0], prompt),
        !is_notified(models[0]),
        !is_notifying(models[0]),
        forall|i: int| 0 <= i < count ==> is_outage_step(#[trigger] steps[i]),
    ensures
        is_stuck(models[count], prompt),
        is_notified(models[count]) <==> exists|i: int|
            0 <= i < count && (#[trigger] steps[i]) is ThreadStarted,
        all_added(models, steps, count) == if is_notified(models[count]) && !is_notifying(
            models[count],
        ) {
            outage_report(models[0])
        } else {
            Seq::empty()
        },
{
    lemma_outage(models, steps, prompt, count);
}

proof fn lemma_outage(
    models: Seq<CoordinatorModel>,
    steps: Seq<Step>,
    prompt: PromptModel,
    count: int,
)
    requires
        is_course(models, steps),
        0 <= count <= steps.len(),
        is_stuck(models[0], prompt),
        !is_notified(models[0]),
        !is_notifying(models[0]),
        forall|i: int| 0 <= i < count ==> is_outage_step(#[trigger] steps[i]),
    ensures
        is_stuck(models[count], prompt),
        models[count].settings == models[0].settings,
        models[count].command_catalog == models[0].command_catalog,
        is_notifying(models[count]) ==> is_notified(models[count]),
        is_notified(models[count]) <==> exists|i: int|
            0 <= i < count && (#[trigger] steps[i]) is ThreadStarted,
        all_added(models, steps, count) == if is_notified(models[count]) && !is_notifying(
            models[count],
        ) {
            outage_report(models[0])
        } else {
            Seq::empty()
        },
    decreases count,
{
    if count > 0 {
        let last = count - 1;
        lemma_outage(models, steps, prompt, last);
        let m = models[last];
        let step = steps[last];
        lemma_outage_step(models, steps, prompt, last);
        assert(models[last + 1] == models[count]);
        let earlier = all_added(models, steps, last);
        assert(earlier + Seq::<EffectModel>::empty() =~= earlier);
        assert(Seq::<EffectModel>::empty() + outage_report(m) =~= outage_report(m));
        if is_notified(models[count]) {
            if step is ThreadStarted {
                assert(steps[last] is ThreadStarted);
            } else {
                let i = choose|i: int| 0 <= i < last && (#[trigger] steps[i]) is ThreadStarted;
                assert(steps[i] is ThreadStarted);
            }
        }
    }
}

/// A prompt that is accepted without a thread waits for one: it is confirmed, a thread is
/// asked for, and an outage from there on is one of that prompt.
pub proof fn accepted_prompts_wait_for_a_thread(
    m: CoordinatorModel,
    message: InboundMessage,
    now: u64,
)
    requires
        m.wait is None,
        m.tasks.len() == 0,
        m.state_healthy,
        m.state.binding is None,
        m.state.active_turn is None,
        m.state.legacy_outbox.len() == 0,
        m.state.queued_prompts.len() == 0,
        m.pending_requests.len() == 0,
        m.pending_approvals.len() == 0,
        m.state.pending_steers.len() < m.settings.max_queued_prompts,
        !is_known(m.state, message),
        !(message.attachment matches Some(InboundAttachment::Unsupported { .. })),
        asked_for(message) is Prompt,
        utf8_len(message.body@) <= MAX_PROMPT_BYTES,
    ensures
        ({
            let received = after_step(m, Step::Inbound(message, now));
            let after = after_step(received, Step::Saved(true));
            &&& received.wanted() is Save
            &&& after.wanted() is StartThread
            &&& after.effects == m.effects.push(EffectModel::Accepted(true))
            &&& is_stuck(after, prompt_of(message, now))
            &&& !is_notified(after)
            &&& !is_notifying(after)
        }),
{
    text_without_a_turn_is_queued(m, message, now);
    let received = m.accepting(message, now);
    assert(received.state.queued_prompts[0] == prompt_of(message, now));
}

/// The coordinator after several answers to the questions of a token.
pub open spec fn after_answers(m: CoordinatorModel, token: Seq<char>, answers: Seq<Seq<char>>) ->
    CoordinatorModel
    decreases answers.len(),
{
    if answers.len() == 0 {
        m
    } else {
        after_answers(m, token, answers.drop_last()).answering(token, answers.last())
    }
}

/// The answers to the first questions, each with the question that it belongs to.
pub open spec fn paired(questions: Seq<PendingQuestionModel>, answers: Seq<Seq<char>>) -> Seq<
    AnswerModel,
> {
    Seq::new(
        answers.len(),
        |i: int| AnswerModel { question_id: questions[i].id, answer: answers[i] },
    )
}

/// Questions are answered in order: after each answer but the last the next question is
/// put and nothing is handed to Codex, and after the last all answers are handed over at
/// once, each with its question. Once that is done, the request is gone.
pub proof fn questions_are_answered_in_order(
    m: CoordinatorModel,
    token: Seq<char>,
    place: int,
    answers: Seq<Seq<char>>,
)
    requires
        m.wait is None,
        request_with(m.pending_requests, token, 0) == Some(place),
        m.pending_requests[place].answers.len() == 0,
        answers.len() <= m.pending_requests[place].questions.len(),
    ensures
        ({
            let request = m.pending_requests[place];
            let held = PendingRequestModel {
                answers: paired(request.questions, answers),
                ..request
            };
            let after = after_answers(m, token, answers);
            &&& 0 <= place < m.pending_requests.len()
            &&& after.pending_requests == m.pending_requests.update(place, held)
            &&& answers.len() < request.questions.len() ==> {
                &&& after.wait is None
                &&& !(after.wanted() is Resolve)
                &&& answers.len() > 0 ==> after.effects == after_answers(
                    m,
                    token,
                    answers.drop_last(),
                ).telling(asking_text(held, answers.len() as int)).effects
            }
            &&& answers.len() == request.questions.len() && answers.len() > 0 ==> {
                &&& after.wanted() == (ActionModel::Resolve {
                    request_id: request.request_id,
                    response: ResponseModel::Answers(paired(request.questions, answers)),
                })
                &&& after.effects == after_answers(m, token, answers.drop_last()).effects
                &&& after.answered(token, true).pending_requests == m.pending_requests.remove(place)
                &&& after.answered(token, true).wait is None
            }
        }),
    decreases answers.len(),
{
    let request = m.pending_requests[place];
    lemma_request_place(m.pending_requests, token, 0);
    let held = PendingRequestModel { answers: paired(request.questions, answers), ..request };
    if answers.len() == 0 {
        assert(held.answers =~= request.answers);
        assert(m.pending_requests.update(place, held) =~= m.pending_requests);
    } else {
        let fewer = answers.drop_last();
        questions_are_answered_in_order(m, token, place, fewer);
        let before = after_answers(m, token, fewer);
        let nearly = PendingRequestModel { answers: paired(request.questions, fewer), ..request };
        lemma_request_stays(m.pending_requests, token, place, nearly, 0);
        lemma_request_stays(m.pending_requests, token, place, held, 0);
        assert(held.answers =~= nearly.answers.push(
            AnswerModel {
                question_id: request.questions[fewer.len() as int].id,
                answer: answers.last(),
            },
        ));
        assert(m.pending_requests.update(place, nearly).update(place, held)
            =~= m.pending_requests.update(place, held));
        assert(m.pending_requests.update(place, held).remove(place)
            =~= m.pending_requests.remove(place));
    }
}

proof fn lemma_request_added(
    requests: Seq<PendingRequestModel>,
    request: PendingRequestModel,
    from: int,
)
    requires
        0 <= from <= requests.len(),
        request_with(requests, request.token, from) is None,
    ensures
        request_with(requests.push(request), request.token, from) == Some(requests.len() as int),
    decreases requests.len() - from,
{
    if from < requests.len() {
        assert(requests.push(request)[from] == requests[from]);
        lemma_request_added(requests, request, from + 1);
    }
}

/// Questions of the running turn are answered together: once the user has answered each
/// of them under the token, Codex is handed all answers to that request at once, and
/// before that none.
pub proof fn asked_questions_are_answered_together(
    m: CoordinatorModel,
    request_id: RequestId,
    params: ToolRequestUserInputParams,
    token: Seq<char>,
    now: u64,
    answers: Seq<Seq<char>>,
)
    requires
        m.wait is None,
        m.runs(params.thread_id@, params.turn_id@),
        !asks_for_secret(params.questions@),
        request_with(m.pending_requests, token, 0) is None,
        0 < params.questions@.len(),
        answers.len() <= params.questions@.len(),
    ensures
        ({
            let asked = m.questioned(request_id, params, token, now);
            let after = after_answers(asked, token, answers);
            &&& answers.len() < params.questions@.len() ==> !(after.wanted() is Resolve)
            &&& answers.len() == params.questions@.len() ==> after.wanted()
                == (ActionModel::Resolve {
                request_id: request_id@,
                response: ResponseModel::Answers(paired(questions_of(params.questions@), answers)),
            })
        }),
{
    let asked = m.questioned(request_id, params, token, now);
    let place = m.pending_requests.len() as int;
    let request = asked.pending_requests[place];
    lemma_request_added(m.pending_requests, request, 0);
    questions_are_answered_in_order(asked, token, place, answers);
}

/// Whether a steer is being submitted.
pub open spec fn is_submitting(m: CoordinatorModel, steer: SteerModel) -> bool {
    match m.wait {
        Some(WaitModel::Saving(AfterSaveModel::SteerMarked { steer: own, .. })) => own == steer,
        Some(WaitModel::Steering { steer: own, .. }) => own == steer,
        _ => false,
    }
}

/// The turn that a steer that is being submitted is aimed at, and whether it is aimed
/// for the second time.
pub open spec fn aim(m: CoordinatorModel) -> (Seq<char>, bool) {
    match m.wait {
        Some(WaitModel::Saving(AfterSaveModel::SteerMarked { turn_id, retried, .. })) => (
            turn_id,
            retried,
        ),
        Some(WaitModel::Steering { turn_id, retried, .. }) => (turn_id, retried),
        _ => (Seq::empty(), false),
    }
}

/// How often a steer was handed to Codex within the first `count` steps.
pub open spec fn handovers(steps: Seq<Step>, count: int) -> int
    decreases count,
{
    if count <= 0 {
        0
    } else {
        handovers(steps, count - 1) + if steps[count - 1] is Steered {
            1int
        } else {
            0
        }
    }
}

/// The turn that the answer to a handover names as the running one.
pub open spec fn named_turn(step: Step) -> Option<Seq<char>> {
    match step {
        Step::Steered(Some(Refusal::OtherTurn(turn_id))) => Some(turn_id),
        _ => None,
    }
}

/// Whether the aim of a submission goes by what was answered so far: at first the turn
/// that the steer was written to, then the one that the first answer named.
pub open spec fn is_fresh_aim(
    m: CoordinatorModel,
    steer: SteerModel,
    steps: Seq<Step>,
    count: int,
) -> bool {
    if aim(m).1 {
        &&& handovers(steps, count) == 1
        &&& exists|i: int| 0 <= i < count && named_turn(#[trigger] steps[i]) == Some(aim(m).0)
    } else {
        &&& handovers(steps, count) == 0
        &&& aim(m).0 == steer.expected_turn_id
    }
}

/// One step of a submission that goes on.
spec fn goes_on_submitting(before: CoordinatorModel, step: Step, after: CoordinatorModel) -> bool {
    match step {
        Step::EffectsTaken => aim(after) == aim(before),
        Step::Saved(_) => aim(after) == aim(before),
        Step::Steered(_) => !aim(before).1 && aim(after).1 && named_turn(step) == Some(
            aim(after).0,
        ),
        _ => false,
    }
}

proof fn lemma_submission_prepared(m: CoordinatorModel, steer: SteerModel, saved: bool)
    requires
        m.wait matches Some(WaitModel::Saving(next)) && next is SteerMarked,
    ensures
        ({
            let after = after_step(m, Step::Saved(saved));
            is_submitting(after, steer) ==> aim(after) == aim(m)
        }),
{
    let next = m.wait->0->Saving_0;
    assert(after_step(m, Step::Saved(saved)) == m.resting().saved_as(next, saved));
    match next {
        AfterSaveModel::SteerMarked { steer: own, thread_id, turn_id, retried } => {
            let rest = m.resting();
            assert(rest.saved_as(next, saved) == rest.steer_prepared(
                own,
                thread_id,
                turn_id,
                retried,
                saved,
            ));
        },
        _ => {},
    }
}

proof fn lemma_submission_answered(m: CoordinatorModel, steer: SteerModel, outcome: Option<Refusal>)
    requires
        m.wait matches Some(WaitModel::Steering { .. }),
    ensures
        ({
            let after = after_step(m, Step::Steered(outcome));
            is_submitting(after, steer) ==> goes_on_submitting(m, Step::Steered(outcome), after)
        }),
{
    match m.wait {
        Some(WaitModel::Steering { steer: own, thread_id, turn_id, retried }) => {
            assert(after_step(m, Step::Steered(outcome)) == m.steered(
                own,
                thread_id,
                retried,
                outcome,
            ));
        },
        _ => {},
    }
}

proof fn lemma_submission_step(m: CoordinatorModel, step: Step, steer: SteerModel)
    requires
        is_submitting(m, steer),
        can_happen(m, step),
    ensures
        is_submitting(after_step(m, step), steer) ==> goes_on_submitting(
            m,
            step,
            after_step(m, step),
        ),
{
    match step {
        Step::EffectsTaken => {},
        Step::Saved(saved) => lemma_submission_prepared(m, steer, saved),
        Step::Steered(outcome) => lemma_submission_answered(m, steer, outcome),
        _ => {
            assert(false);
        },
    }
}

/// A steer is handed to Codex at most twice per submission: first for the turn that it
/// was written to, and again only for the turn that the first answer names.
pub proof fn steers_are_handed_over_at_most_twice(
    m: CoordinatorModel,
    steer: SteerModel,
    models: Seq<CoordinatorModel>,
    steps: Seq<Step>,
    count: int,
)
    requires
        is_course(models, steps),
        models[0] == m.steering(steer),
        0 <= count <= steps.len(),
        forall|i: int| 0 <= i < count ==> is_submitting(#[trigger] models[i], steer),
    ensures
        handovers(steps, count) <= 2,
        is_submitting(models[count], steer) ==> is_fresh_aim(models[count], steer, steps, count),
    decreases count,
{
    reveal(is_course);
    if count > 0 {
        let last = count - 1;
        steers_are_handed_over_at_most_twice(m, steer, models, steps, last);
        let before = models[last];
        let step = steps[last];
        let after = models[last + 1];
        assert(can_happen(before, step) && after == after_step(before, step));
        assert(is_submitting(before, steer));
        lemma_submission_step(before, step, steer);
        if is_submitting(after, steer) {
            if step is Steered {
                assert(named_turn(steps[last]) == Some(aim(after).0));
            } else if aim(before).1 {
                let i = choose|i: int|
                    0 <= i < last && named_turn(#[trigger] steps[i]) == Some(aim(before).0);
                assert(named_turn(steps[i]) == Some(aim(after).0));
            }
        }
    } else {
        lemma_submission_begins(m, steer);
    }
}

proof fn lemma_submission_begins(m: CoordinatorModel, steer: SteerModel)
    ensures
        ({
            let after = m.steering(steer);
            is_submitting(after, steer) ==> aim(after) == (steer.expected_turn_id, false)
        }),
{
}

} // verus!
