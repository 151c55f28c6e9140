//! The steps of the coordinator, and what every one of them keeps.

use crate::codex::ThreadSummary;
use crate::command_catalog::CommandCatalog;
use crate::command_catalog::CommandCatalogError;
use crate::commands::CommandModel;
use crate::ledger::in_order;
use crate::ledger::noted;
use crate::ledger::noting_records;
use crate::ledger::pruning_keeps_the_newest;
use crate::messaging::DeliveryWorkerEvent;
use crate::notifications::AppServerEvent;
use crate::notifications::ServerRequest;
use crate::protocol::ItemStartedNotification;
use crate::protocol::RequestIdModel;
use crate::protocol::ServerNotification;
use crate::protocol::Turn;
use crate::state::earliest_kept;
use crate::state::BindingModel;
use crate::state::StateModel;
use crate::state::SteerModel;
use crate::transcript::KeyModel;
use crate::transport::TransportStatus;
use crate::transport_webhook::InboundMessage;
use super::events::recorded_from;
use super::events::status_of;
use super::events::without_turn;
use super::inbound::noting;
use super::inbound::placed;
use super::lifecycle::with_outbound;
use super::model::AcceptedModel;
use super::model::AfterRequeue;
use super::model::AfterSaveModel;
use super::model::BindPurpose;
use super::model::CoordinatorModel;
use super::model::EffectModel;
use super::model::FileChangePathsModel;
use super::model::PendingApprovalModel;
use super::model::PendingRequestModel;
use super::model::ResumePurposeModel;
use super::model::TaskModel;
use super::model::WaitModel;
use super::model::MAX_FILE_CHANGE_ITEMS;
use super::model::MAX_PENDING_REQUESTS;
use super::notices::StatusKind;
use super::requests::request_with;
use super::requests::without_approval;
use super::requests::without_request;
use super::steering::all_requeued;
use super::steering::steers_reconciled;
use super::steering::Refusal;
use vstd::prelude::*;

verus! {

/// Something that happens to the coordinator: it begins or ends, something comes
/// from outside, or the outcome of what it waits for is handed back.
pub enum Step {
    Start,
    Inbound(InboundMessage, u64),
    Event(AppServerEvent, Seq<char>, u64),
    Reconnected,
    Delivered(DeliveryWorkerEvent, u64),
    TransportChecked(Option<TransportStatus>),
    Tick(u64),
    ShutDown,
    Advance,
    EffectsTaken,
    Saved(bool),
    ThreadStarted(Option<Seq<char>>),
    ThreadResumed(Option<Seq<Turn>>),
    ThreadsListed(Option<Seq<ThreadSummary>>),
    TurnStarted(Option<Seq<char>>),
    Steered(Option<Refusal>),
    Interrupted(bool),
    Resolved(bool),
    CatalogLoaded(Result<CommandCatalog, CommandCatalogError>),
    LegacySent(Option<Seq<char>>, u64),
}

/// Whether a step can happen: an outcome only where it is waited for, anything from
/// outside only where nothing is.
pub open spec fn can_happen(m: CoordinatorModel, step: Step) -> bool {
    match step {
        Step::EffectsTaken => true,
        Step::Saved(_) => m.wait matches Some(WaitModel::Saving(_)),
        Step::ThreadStarted(_) => m.wait matches Some(WaitModel::StartingThread(_)),
        Step::ThreadResumed(_) => m.wait matches Some(WaitModel::ResumingThread(_)),
        Step::ThreadsListed(_) => m.wait matches Some(WaitModel::ListingThreads),
        Step::TurnStarted(_) => m.wait matches Some(WaitModel::StartingTurn { .. }),
        Step::Steered(_) => m.wait matches Some(WaitModel::Steering { .. }),
        Step::Interrupted(_) => m.wait matches Some(WaitModel::Interrupting { .. }),
        Step::Resolved(_) => m.wait matches Some(WaitModel::ResolvingApproval { .. })
            || m.wait matches Some(WaitModel::ResolvingAnswers { .. }),
        Step::CatalogLoaded(_) => m.wait matches Some(WaitModel::LoadingCatalog),
        Step::LegacySent(..) => m.wait matches Some(WaitModel::SendingLegacy { .. }),
        _ => m.wait is None,
    }
}

/// The coordinator after its thread was read, for whatever purpose, or not.
pub open spec fn thread_read(
    m: CoordinatorModel,
    purpose: ResumePurposeModel,
    outcome: Option<Seq<Turn>>,
) -> CoordinatorModel {
    match purpose {
        ResumePurposeModel::Reconnect { .. } => match outcome {
            Some(turns) => m.resumed(turns, true),
            None => m.not_resumed(true),
        },
        ResumePurposeModel::Lagged { .. } => match outcome {
            Some(turns) => m.resumed(turns, false),
            None => m.not_resumed(false),
        },
        ResumePurposeModel::Attach { thread_id } => match outcome {
            Some(_) => m.resting().binding(thread_id, BindPurpose::Attach),
            None => m.resting().telling("[codex] Could not resume that Codex thread."@),
        },
        ResumePurposeModel::Uncertain { thread_id } => m.looked_up(thread_id, outcome),
    }
}

/// The coordinator after a step.
pub open spec fn after_step(m: CoordinatorModel, step: Step) -> CoordinatorModel {
    match step {
        Step::Start => m.starting(),
        Step::Inbound(message, now) => m.accepting(message, now),
        Step::Event(event, token, now) => m.evented(event, token, now),
        Step::Reconnected => m.resuming(true),
        Step::Delivered(event, now) => m.delivery_reported(event, now),
        Step::TransportChecked(status) => m.transport_checked(status),
        Step::Tick(now) => m.ticked(now),
        Step::ShutDown => m.shutting_down(),
        Step::Advance => m.advanced(),
        Step::EffectsTaken => CoordinatorModel { effects: Seq::empty(), ..m },
        Step::Saved(saved) => m.resting().saved_as(m.wait->0->Saving_0, saved),
        Step::ThreadStarted(outcome) => m.thread_started(m.wait->0->StartingThread_0, outcome),
        Step::ThreadResumed(outcome) => thread_read(m, m.wait->0->ResumingThread_0, outcome),
        Step::ThreadsListed(threads) => m.listed(threads),
        Step::TurnStarted(outcome) => m.turn_started(m.wait->0->StartingTurn_thread_id, outcome),
        Step::Steered(outcome) => m.steered(
            m.wait->0->Steering_steer,
            m.wait->0->Steering_thread_id,
            m.wait->0->Steering_retried,
            outcome,
        ),
        Step::Interrupted(requested) => m.interrupted(requested),
        Step::Resolved(delivered) => match m.wait->0 {
            WaitModel::ResolvingApproval { request_id, label, .. } => m.decided(
                request_id,
                label,
                delivered,
            ),
            WaitModel::ResolvingAnswers { token } => m.answered(token, delivered),
            _ => m,
        },
        Step::CatalogLoaded(outcome) => m.catalog_loaded(outcome),
        Step::LegacySent(sent, now) => m.legacy_settled(
            m.wait->0->SendingLegacy_delivered,
            sent,
            now,
        ),
    }
}

/// The records of identifiers of a state are in order.
pub open spec fn records_in_order(state: StateModel) -> bool {
    in_order(state.processed_events) && in_order(state.outbound_message_ids)
}

/// A request with at least one question that is not answered yet.
pub open spec fn is_open(request: PendingRequestModel) -> bool {
    request.answers.len() < request.questions.len()
}

/// Every request has a question that is not answered yet, but for the one whose
/// answers are on their way.
pub open spec fn requests_are_open(m: CoordinatorModel) -> bool {
    match m.wait {
        Some(WaitModel::ResolvingAnswers { token }) => match request_with(
            m.pending_requests,
            token,
            0,
        ) {
            Some(place) => {
                &&& 0 <= place < m.pending_requests.len()
                &&& m.pending_requests[place].answers.len() > 0
                &&& m.pending_requests[place].answers.len()
                    <= m.pending_requests[place].questions.len()
                &&& forall|i: int|
                    0 <= i < m.pending_requests.len() && i != place ==> is_open(
                        #[trigger] m.pending_requests[i],
                    )
            },
            None => false,
        },
        _ => forall|i: int|
            0 <= i < m.pending_requests.len() ==> is_open(#[trigger] m.pending_requests[i]),
    }
}

/// What is waited for is there: a prompt to submit, a message to send, and for a
/// message that is being accepted, what to go back to.
pub open spec fn wait_is_sound(m: CoordinatorModel) -> bool {
    &&& m.wait matches Some(WaitModel::StartingTurn { .. }) ==> m.state.queued_prompts.len() > 0
    &&& m.wait matches Some(WaitModel::SendingLegacy { .. }) ==> m.state.legacy_outbox.len() > 0
    &&& if m.wait == Some(WaitModel::Saving(AfterSaveModel::Accepted)) {
        m.accepted is Some && m.previous_state is Some
    } else {
        m.accepted is None && m.previous_state is None
    }
}

/// What every step keeps: the bounds on what waits for the user and on recorded
/// paths, the order of the records, and that what is waited for is there.
pub open spec fn is_sound(m: CoordinatorModel) -> bool {
    &&& m.pending_requests.len() + m.pending_approvals.len() <= MAX_PENDING_REQUESTS
    &&& m.file_change_paths.len() <= MAX_FILE_CHANGE_ITEMS
    &&& records_in_order(m.state)
    &&& m.previous_state matches Some(state) ==> records_in_order(state)
    &&& requests_are_open(m)
    &&& wait_is_sound(m)
}

/// A coordinator at rest waits for nothing and has nothing left to do.
pub proof fn rest_is_idle(m: CoordinatorModel)
    requires
        is_sound(m),
        m.wanted() is Rest,
    ensures
        m.wait is None,
        m.tasks.len() == 0,
{
}

proof fn lemma_fewer_approvals(approvals: Seq<PendingApprovalModel>, request_id: RequestIdModel)
    ensures
        without_approval(approvals, request_id).len() <= approvals.len(),
    decreases approvals.len(),
{
    if approvals.len() > 0 {
        lemma_fewer_approvals(approvals.drop_last(), request_id);
    }
}

proof fn lemma_fewer_requests(requests: Seq<PendingRequestModel>, request_id: RequestIdModel)
    ensures
        without_request(requests, request_id).len() <= requests.len(),
        (forall|i: int| 0 <= i < requests.len() ==> is_open(#[trigger] requests[i])) ==> forall|
            i: int,
        |
            0 <= i < without_request(requests, request_id).len() ==> is_open(
                #[trigger] without_request(requests, request_id)[i],
            ),
    decreases requests.len(),
{
    if requests.len() > 0 {
        let shorter = requests.drop_last();
        lemma_fewer_requests(shorter, request_id);
        if forall|i: int| 0 <= i < requests.len() ==> is_open(#[trigger] requests[i]) {
            assert forall|i: int| 0 <= i < shorter.len() implies is_open(#[trigger] shorter[i]) by {
                assert(shorter[i] == requests[i]);
            }
            assert(is_open(requests[requests.len() - 1]));
        }
    }
}

proof fn lemma_fewer_paths(
    recorded: Seq<FileChangePathsModel>,
    thread_id: Seq<char>,
    turn_id: Seq<char>,
)
    ensures
        without_turn(recorded, thread_id, turn_id).len() <= recorded.len(),
    decreases recorded.len(),
{
    if recorded.len() > 0 {
        lemma_fewer_paths(recorded.drop_last(), thread_id, turn_id);
    }
}

proof fn lemma_expiry(m: CoordinatorModel, requests: Seq<PendingRequestModel>, now: u64)
    ensures
        ({
            let (after, kept) = m.expiring(requests, now);
            &&& after == (CoordinatorModel { effects: after.effects, ..m })
            &&& kept.len() <= requests.len()
            &&& (forall|i: int| 0 <= i < requests.len() ==> is_open(#[trigger] requests[i]))
                ==> forall|i: int| 0 <= i < kept.len() ==> is_open(#[trigger] kept[i])
        }),
    decreases requests.len(),
{
    if requests.len() > 0 {
        let shorter = requests.drop_last();
        lemma_expiry(m, shorter, now);
        if forall|i: int| 0 <= i < requests.len() ==> is_open(#[trigger] requests[i]) {
            assert forall|i: int| 0 <= i < shorter.len() implies is_open(#[trigger] shorter[i]) by {
                assert(shorter[i] == requests[i]);
            }
            assert(is_open(requests[requests.len() - 1]));
        }
    }
}

pub proof fn lemma_request_place(requests: Seq<PendingRequestModel>, token: Seq<char>, from: int)
    requires
        0 <= from,
    ensures
        request_with(requests, token, from) matches Some(place) ==> {
            &&& from <= place < requests.len()
            &&& requests[place].token == token
            &&& forall|i: int| from <= i < place ==> (#[trigger] requests[i]).token != token
        },
    decreases requests.len() - from,
{
    if from < requests.len() && requests[from].token != token {
        lemma_request_place(requests, token, from + 1);
    }
}

pub proof fn lemma_request_stays(
    requests: Seq<PendingRequestModel>,
    token: Seq<char>,
    place: int,
    request: PendingRequestModel,
    from: int,
)
    requires
        0 <= from <= place < requests.len(),
        requests[place].token == token,
        request.token == token,
        forall|i: int| from <= i < place ==> (#[trigger] requests[i]).token != token,
    ensures
        request_with(requests.update(place, request), token, from) == Some(place),
    decreases place - from,
{
    if from < place {
        assert(requests[from].token != token);
        lemma_request_stays(requests, token, place, request, from + 1);
    }
}

proof fn lemma_requeued_keeps(
    state: StateModel,
    steers: Seq<SteerModel>,
    thread_id: Seq<char>,
    turn_id: Seq<char>,
)
    ensures
        ({
            let after = all_requeued(state, steers, thread_id, turn_id);
            after == (StateModel {
                pending_steers: after.pending_steers,
                queued_prompts: after.queued_prompts,
                ..state
            })
        }),
    decreases steers.len(),
{
    if steers.len() > 0 {
        lemma_requeued_keeps(state, steers.drop_last(), thread_id, turn_id);
    }
}

proof fn lemma_reconciled_keeps(state: StateModel, steers: Seq<SteerModel>, turns: Seq<Turn>)
    ensures
        ({
            let after = steers_reconciled(state, steers, turns).0;
            after == (StateModel {
                pending_steers: after.pending_steers,
                queued_prompts: after.queued_prompts,
                ..state
            })
        }),
    decreases steers.len(),
{
    if steers.len() > 0 {
        lemma_reconciled_keeps(state, steers.drop_last(), turns);
    }
}

proof fn lemma_noting_keeps_order(m: CoordinatorModel, message: InboundMessage, now: u64)
    requires
        records_in_order(m.state),
    ensures
        records_in_order(noting(m, message, now)),
        records_in_order(placed(m, noting(m, message, now), message, now).0),
{
    let minimum = earliest_kept(now, m.settings.dedupe_ttl_hours);
    let capacity = m.settings.dedupe_capacity as nat;
    let key = message.idempotency_key@;
    let events = noted(m.state.processed_events, key, now);
    noting_records(m.state.processed_events, key, now, key);
    pruning_keeps_the_newest(events, minimum, capacity);
    pruning_keeps_the_newest(m.state.outbound_message_ids, minimum, capacity);
}

proof fn lemma_outbound_keeps_order(
    m: CoordinatorModel,
    state: StateModel,
    message_id: Seq<char>,
    now: u64,
)
    requires
        records_in_order(state),
    ensures
        records_in_order(with_outbound(state, m.settings, message_id, now)),
{
    let minimum = earliest_kept(now, m.settings.dedupe_ttl_hours);
    let capacity = m.settings.dedupe_capacity as nat;
    let ids = noted(state.outbound_message_ids, message_id, now);
    noting_records(state.outbound_message_ids, message_id, now, message_id);
    pruning_keeps_the_newest(ids, minimum, capacity);
    pruning_keeps_the_newest(state.processed_events, minimum, capacity);
}

/// A coordinator that waits for nothing and is sound.
spec fn is_quiet(m: CoordinatorModel) -> bool {
    m.wait is None && is_sound(m)
}

proof fn lemma_answering(m: CoordinatorModel, token: Seq<char>, answer: Seq<char>)
    requires
        is_quiet(m),
    ensures
        is_sound(m.answering(token, answer)),
{
    lemma_request_place(m.pending_requests, token, 0);
    match request_with(m.pending_requests, token, 0) {
        None => {},
        Some(place) => {
            let request = m.pending_requests[place];
            assert(is_open(request));
            let after = m.answering(token, answer);
            lemma_request_stays(m.pending_requests, token, place, after.pending_requests[place], 0);
            assert forall|i: int|
                0 <= i < after.pending_requests.len() && i != place implies is_open(
                #[trigger] after.pending_requests[i],
            ) by {
                assert(after.pending_requests[i] == m.pending_requests[i]);
            }
        },
    }
}

proof fn lemma_acting(m: CoordinatorModel, action: AcceptedModel)
    requires
        is_quiet(m),
    ensures
        is_sound(m.acting(action)),
{
    match action {
        AcceptedModel::Command(
            CommandModel::Answer { token, answer },
        ) => {
            lemma_answering(m, token, answer);
        },
        _ => {},
    }
}

proof fn lemma_concluding(m: CoordinatorModel, thread_id: Seq<char>, turn: Turn)
    ensures
        ({
            let after = m.concluding(thread_id, turn);
            after == (CoordinatorModel {
                projector: after.projector,
                effects: after.effects,
                ..m
            })
        }),
{
}

proof fn lemma_recorded_from(recorded: Seq<FileChangePathsModel>, key: KeyModel, from: int)
    requires
        0 <= from,
    ensures
        recorded_from(recorded, key, from) matches Some(place) ==> from <= place < recorded.len(),
    decreases recorded.len() - from,
{
    if from < recorded.len() && recorded[from].key != key {
        lemma_recorded_from(recorded, key, from + 1);
    }
}

proof fn lemma_recording(m: CoordinatorModel, started: ItemStartedNotification)
    ensures
        ({
            let after = m.recording(started);
            &&& after == (CoordinatorModel { file_change_paths: after.file_change_paths, ..m })
            &&& m.file_change_paths.len() <= MAX_FILE_CHANGE_ITEMS
                ==> after.file_change_paths.len() <= MAX_FILE_CHANGE_ITEMS
        }),
{
    let key = KeyModel {
        thread_id: started.thread_id@,
        turn_id: started.turn_id@,
        item_id: started.item@.id(),
    };
    lemma_recorded_from(m.file_change_paths, key, 0);
}

proof fn lemma_projecting(m: CoordinatorModel, notification: ServerNotification)
    ensures
        ({
            let after = m.projecting(notification);
            after == (CoordinatorModel {
                projector: after.projector,
                effects: after.effects,
                ..m
            })
        }),
{
}

proof fn lemma_showing(m: CoordinatorModel, kind: StatusKind)
    ensures
        ({
            let after = m.showing(kind);
            after == (CoordinatorModel {
                shown_statuses: after.shown_statuses,
                effects: after.effects,
                ..m
            })
        }),
{
}

proof fn lemma_completing(m: CoordinatorModel, thread_id: Seq<char>, turn: Turn)
    requires
        is_quiet(m),
    ensures
        is_sound(m.completing(thread_id, turn)),
{
    let closed = m.concluding(thread_id, turn).releasing();
    lemma_concluding(m, thread_id, turn);
    assert(closed.state == m.state);
    assert(closed.file_change_paths == m.file_change_paths);
    assert(closed.accepted == m.accepted);
    assert(closed.previous_state == m.previous_state);
    lemma_requeued_keeps(closed.state, closed.state.pending_steers, thread_id, turn.id@);
    lemma_fewer_paths(closed.file_change_paths, thread_id, turn.id@);
}

proof fn lemma_settled_elsewhere(m: CoordinatorModel, request_id: RequestIdModel)
    requires
        is_quiet(m),
    ensures
        is_sound(m.settled_elsewhere(request_id)),
{
    lemma_fewer_approvals(m.pending_approvals, request_id);
    lemma_fewer_requests(m.pending_requests, request_id);
}

proof fn lemma_notified(m: CoordinatorModel, notification: ServerNotification)
    requires
        is_quiet(m),
    ensures
        is_sound(m.notified(notification)),
{
    if m.concerns(notification) {
        match notification {
            ServerNotification::ServerRequestResolved(n) => lemma_settled_elsewhere(
                m,
                n.request_id@,
            ),
            ServerNotification::TurnCompleted(n) => lemma_completing(m, n.thread_id@, n.turn),
            ServerNotification::Error(n) => {
                assert(m.notified(notification) == m.erring(
                    n.thread_id@,
                    n.turn_id@,
                    n.error.message@,
                ));
            },
            _ => {
                let shown = match status_of(notification) {
                    Some(kind) => m.showing(kind),
                    None => m,
                };
                if status_of(notification) is Some {
                    lemma_showing(m, status_of(notification)->0);
                }
                let recorded = match notification {
                    ServerNotification::ItemStarted(n) => shown.recording(n),
                    _ => shown,
                };
                if let ServerNotification::ItemStarted(n) = notification {
                    lemma_recording(shown, n);
                }
                lemma_projecting(recorded, notification);
                assert(m.notified(notification) == recorded.projecting(notification));
            },
        }
    }
}

proof fn lemma_requested(m: CoordinatorModel, request: ServerRequest, token: Seq<char>, now: u64)
    requires
        is_quiet(m),
    ensures
        is_sound(m.requested(request, token, now)),
{
    let after = m.requested(request, token, now);
    if m.pending_requests.len() + m.pending_approvals.len() < MAX_PENDING_REQUESTS {
        assert forall|i: int| 0 <= i < after.pending_requests.len() implies is_open(
            #[trigger] after.pending_requests[i],
        ) by {
            if i < m.pending_requests.len() {
                assert(after.pending_requests[i] == m.pending_requests[i]);
            }
        }
    }
}

proof fn lemma_evented(m: CoordinatorModel, event: AppServerEvent, token: Seq<char>, now: u64)
    requires
        is_quiet(m),
    ensures
        is_sound(m.evented(event, token, now)),
{
    let later = m.then_doing(TaskModel::GoOn);
    match event {
        AppServerEvent::ServerNotification(notification) => lemma_notified(later, notification),
        AppServerEvent::ServerRequest(request) => lemma_requested(later, request, token, now),
        _ => {},
    }
}

proof fn lemma_ticked(m: CoordinatorModel, now: u64)
    requires
        is_quiet(m),
    ensures
        is_sound(m.ticked(now)),
{
    lemma_expiry(m, m.pending_requests, now);
}

proof fn lemma_prompting(m: CoordinatorModel)
    requires
        is_quiet(m),
    ensures
        is_sound(m.prompting()),
        is_sound(m.advancing()),
        is_sound(m.going_on()),
{
}

proof fn lemma_steering(m: CoordinatorModel, steer: SteerModel)
    requires
        is_quiet(m),
    ensures
        is_sound(m.steering(steer)),
{
}

proof fn lemma_active_resumed(m: CoordinatorModel, turns: Seq<Turn>, reconnect: bool)
    requires
        is_quiet(m),
    ensures
        is_sound(m.active_resumed(turns, reconnect)),
{
}

proof fn lemma_resuming(m: CoordinatorModel, resumed: bool, reconnect: bool)
    requires
        is_quiet(m),
    ensures
        is_sound(m.resuming(reconnect)),
        is_sound(m.resume_finished(resumed, reconnect)),
{
}

proof fn lemma_small_tasks(m: CoordinatorModel, delivered: bool)
    requires
        is_quiet(m),
    ensures
        is_sound(m.retrying()),
        is_sound(m.interrupting()),
        is_sound(m.flushing(delivered)),
        is_sound(m.saving(AfterSaveModel::Recovered)),
{
}

#[verifier::rlimit(60)]
proof fn lemma_doing_task(m: CoordinatorModel, task: TaskModel)
    requires
        is_quiet(m),
    ensures
        is_sound(m.doing_task(task)),
{
    match task {
        TaskModel::StartNextPrompt => lemma_prompting(m),
        TaskModel::AdvanceQueue => lemma_prompting(m),
        TaskModel::GoOn => lemma_prompting(m),
        TaskModel::SubmitSteer(steer) => lemma_steering(m, steer),
        TaskModel::RetrySteers => lemma_small_tasks(m, false),
        TaskModel::InterruptActive => lemma_small_tasks(m, false),
        TaskModel::FlushLegacy { delivered } => lemma_small_tasks(m, delivered),
        TaskModel::Recover => lemma_small_tasks(m, false),
        TaskModel::ResumeActive { turns, reconnect } => lemma_active_resumed(m, turns, reconnect),
        TaskModel::FinishResume { resumed, reconnect } => lemma_resuming(m, resumed, reconnect),
        TaskModel::Resume { reconnect } => lemma_resuming(m, false, reconnect),
    }
}

proof fn lemma_advanced(m: CoordinatorModel)
    requires
        is_quiet(m),
    ensures
        is_sound(m.advanced()),
{
    if m.tasks.len() > 0 {
        let rest = CoordinatorModel { tasks: m.tasks.drop_last(), ..m };
        assert(is_quiet(rest));
        lemma_doing_task(rest, m.tasks.last());
    }
}

proof fn lemma_bound(
    m: CoordinatorModel,
    previous: Option<BindingModel>,
    thread_id: Seq<char>,
    purpose: BindPurpose,
    saved: bool,
)
    requires
        is_quiet(m),
    ensures
        is_sound(m.bound(previous, thread_id, purpose, saved)),
{
}

proof fn lemma_submission_saved(
    m: CoordinatorModel,
    steer: SteerModel,
    thread_id: Seq<char>,
    turn_id: Seq<char>,
    retried: bool,
    next: AfterRequeue,
    saved: bool,
)
    requires
        is_quiet(m),
    ensures
        is_sound(m.prompt_marked(thread_id, saved)),
        is_sound(m.steer_prepared(steer, thread_id, turn_id, retried, saved)),
        is_sound(m.steer_requeued(next, saved)),
        is_sound(m.turn_finished(saved)),
{
}

proof fn lemma_turn_saved(
    m: CoordinatorModel,
    thread_id: Seq<char>,
    turn: Option<Turn>,
    reconnect: bool,
    saved: bool,
)
    requires
        is_quiet(m),
    ensures
        is_sound(m.turn_recovered(thread_id, turn, reconnect, saved)),
        is_sound(m.orphaned(reconnect, saved)),
        turn matches Some(turn) ==> is_sound(m.uncertain_finished(thread_id, turn, saved)),
{
    if let Some(turn) = turn {
        lemma_concluding(m, thread_id, turn);
    }
}

proof fn lemma_acceptance_saved(m: CoordinatorModel, saved: bool)
    requires
        is_sound(m.saving(AfterSaveModel::Accepted)),
        m.wait is None,
    ensures
        is_sound(m.acceptance_saved(saved)),
{
    if saved {
        let settled = CoordinatorModel { previous_state: None, accepted: None, ..m };
        let confirmed = settled.doing(EffectModel::Accepted(true));
        assert(is_quiet(confirmed));
        lemma_acting(confirmed, m.accepted->0);
    }
}

#[verifier::rlimit(60)]
proof fn lemma_saved(m: CoordinatorModel, next: AfterSaveModel, saved: bool)
    requires
        is_quiet(m),
        !(next is Accepted),
    ensures
        is_sound(m.saved_as(next, saved)),
{
    match next {
        AfterSaveModel::Bound { previous, thread_id, purpose } => lemma_bound(
            m,
            previous,
            thread_id,
            purpose,
            saved,
        ),
        AfterSaveModel::PromptMarked { thread_id } => lemma_submission_saved(
            m,
            arbitrary(),
            thread_id,
            arbitrary(),
            false,
            AfterRequeue::Nothing,
            saved,
        ),
        AfterSaveModel::TurnStarted => lemma_showing(m, StatusKind::Working),
        AfterSaveModel::SteerMarked { steer, thread_id, turn_id, retried } =>
            lemma_submission_saved(
            m,
            steer,
            thread_id,
            turn_id,
            retried,
            AfterRequeue::Nothing,
            saved,
        ),
        AfterSaveModel::SteerRequeued { next } => lemma_submission_saved(
            m,
            arbitrary(),
            arbitrary(),
            arbitrary(),
            false,
            next,
            saved,
        ),
        AfterSaveModel::TurnFinished => lemma_submission_saved(
            m,
            arbitrary(),
            arbitrary(),
            arbitrary(),
            false,
            AfterRequeue::Nothing,
            saved,
        ),
        AfterSaveModel::TurnRecovered { thread_id, turn, reconnect } => lemma_turn_saved(
            m,
            thread_id,
            turn,
            reconnect,
            saved,
        ),
        AfterSaveModel::Orphaned { reconnect } => lemma_turn_saved(
            m,
            arbitrary(),
            None,
            reconnect,
            saved,
        ),
        AfterSaveModel::UncertainFinished { thread_id, turn } => lemma_turn_saved(
            m,
            thread_id,
            Some(turn),
            false,
            saved,
        ),
        _ => {},
    }
}

proof fn lemma_accepting(m: CoordinatorModel, message: InboundMessage, now: u64)
    requires
        is_quiet(m),
    ensures
        is_sound(m.accepting(message, now)),
{
    lemma_noting_keeps_order(m, message, now);
}

proof fn lemma_delivered(m: CoordinatorModel, event: DeliveryWorkerEvent, now: u64)
    requires
        is_quiet(m),
    ensures
        is_sound(m.delivery_reported(event, now)),
{
    match event {
        DeliveryWorkerEvent::Sent { provider_message_id, .. } => {
            lemma_outbound_keeps_order(m, m.state, provider_message_id@, now);
        },
        _ => {},
    }
}

proof fn lemma_from_outside(m: CoordinatorModel, status: Option<TransportStatus>)
    requires
        is_quiet(m),
    ensures
        is_sound(m.starting()),
        is_sound(m.resuming(true)),
        is_sound(m.transport_checked(status)),
        is_sound(m.shutting_down()),
{
}

proof fn lemma_thread_started(m: CoordinatorModel, outcome: Option<Seq<char>>)
    requires
        is_sound(m),
        m.wait matches Some(WaitModel::StartingThread(_)),
    ensures
        is_sound(m.thread_started(m.wait->0->StartingThread_0, outcome)),
{
}

proof fn lemma_turn_started(m: CoordinatorModel, outcome: Option<Seq<char>>)
    requires
        is_sound(m),
        m.wait matches Some(WaitModel::StartingTurn { .. }),
    ensures
        is_sound(m.turn_started(m.wait->0->StartingTurn_thread_id, outcome)),
{
}

proof fn lemma_steered(m: CoordinatorModel, outcome: Option<Refusal>)
    requires
        is_sound(m),
        m.wait matches Some(WaitModel::Steering { .. }),
    ensures
        is_sound(
            m.steered(
                m.wait->0->Steering_steer,
                m.wait->0->Steering_thread_id,
                m.wait->0->Steering_retried,
                outcome,
            ),
        ),
{
}

proof fn lemma_told(
    m: CoordinatorModel,
    threads: Option<Seq<ThreadSummary>>,
    requested: bool,
    catalog: Result<CommandCatalog, CommandCatalogError>,
)
    requires
        is_sound(m),
        m.wait matches Some(WaitModel::ListingThreads) || m.wait matches Some(
            WaitModel::Interrupting { .. },
        ) || m.wait matches Some(WaitModel::LoadingCatalog),
    ensures
        is_sound(m.listed(threads)),
        is_sound(m.interrupted(requested)),
        is_sound(m.catalog_loaded(catalog)),
{
}

proof fn lemma_thread_read(m: CoordinatorModel, outcome: Option<Seq<Turn>>)
    requires
        is_sound(m),
        m.wait matches Some(WaitModel::ResumingThread(_)),
    ensures
        is_sound(thread_read(m, m.wait->0->ResumingThread_0, outcome)),
{
    match outcome {
        Some(turns) => lemma_reconciled_keeps(m.state, m.state.pending_steers, turns),
        None => {},
    }
}

proof fn lemma_resolved(m: CoordinatorModel, delivered: bool)
    requires
        is_sound(m),
        can_happen(m, Step::Resolved(delivered)),
    ensures
        is_sound(after_step(m, Step::Resolved(delivered))),
{
    match m.wait->0 {
        WaitModel::ResolvingApproval { request_id, .. } => {
            lemma_fewer_approvals(m.pending_approvals, request_id);
        },
        WaitModel::ResolvingAnswers { token } => {
            let place = request_with(m.pending_requests, token, 0)->0;
            let after = m.answered(token, delivered);
            assert forall|i: int| 0 <= i < after.pending_requests.len() implies is_open(
                #[trigger] after.pending_requests[i],
            ) by {
                if delivered {
                    let from = if i < place {
                        i
                    } else {
                        i + 1
                    };
                    assert(after.pending_requests[i] == m.pending_requests[from]);
                } else if i != place {
                    assert(after.pending_requests[i] == m.pending_requests[i]);
                }
            }
        },
        _ => {},
    }
}

proof fn lemma_legacy_sent(m: CoordinatorModel, sent: Option<Seq<char>>, now: u64)
    requires
        is_sound(m),
        m.wait matches Some(WaitModel::SendingLegacy { .. }),
    ensures
        is_sound(m.legacy_settled(m.wait->0->SendingLegacy_delivered, sent, now)),
{
    match sent {
        Some(message_id) => {
            let state = StateModel {
                legacy_outbox: m.state.legacy_outbox.remove(0),
                ..m.state
            };
            lemma_outbound_keeps_order(m, state, message_id, now);
        },
        None => {},
    }
}

/// Every step keeps the coordinator sound: what waits for the user and what is
/// recorded of file changes stays bounded, the records of identifiers stay in order,
/// every question can be answered, and what is waited for is there.
#[verifier::rlimit(60)]
pub proof fn every_step_is_sound(m: CoordinatorModel, step: Step)
    requires
        is_sound(m),
        can_happen(m, step),
    ensures
        is_sound(after_step(m, step)),
{
    match step {
        Step::Start => lemma_from_outside(m, None),
        Step::Inbound(message, now) => lemma_accepting(m, message, now),
        Step::Event(event, token, now) => lemma_evented(m, event, token, now),
        Step::Reconnected => lemma_from_outside(m, None),
        Step::Delivered(event, now) => lemma_delivered(m, event, now),
        Step::TransportChecked(status) => lemma_from_outside(m, status),
        Step::Tick(now) => lemma_ticked(m, now),
        Step::ShutDown => lemma_from_outside(m, None),
        Step::Advance => lemma_advanced(m),
        Step::EffectsTaken => {},
        Step::Saved(saved) => {
            let next = m.wait->0->Saving_0;
            if next is Accepted {
                assert(m.resting().saving(AfterSaveModel::Accepted) == m);
                lemma_acceptance_saved(m.resting(), saved);
            } else {
                assert(is_quiet(m.resting()));
                lemma_saved(m.resting(), next, saved);
            }
        },
        Step::ThreadStarted(outcome) => lemma_thread_started(m, outcome),
        Step::ThreadResumed(outcome) => lemma_thread_read(m, outcome),
        Step::ThreadsListed(threads) => lemma_told(m, threads, false, arbitrary()),
        Step::TurnStarted(outcome) => lemma_turn_started(m, outcome),
        Step::Steered(outcome) => lemma_steered(m, outcome),
        Step::Interrupted(requested) => lemma_told(m, None, requested, arbitrary()),
        Step::Resolved(delivered) => lemma_resolved(m, delivered),
        Step::CatalogLoaded(outcome) => lemma_told(m, None, false, outcome),
        Step::LegacySent(sent, now) => lemma_legacy_sent(m, sent, now),
    }
}

} // verus!
