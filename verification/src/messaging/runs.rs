//! What holds of the delivery worker over several steps and whole runs.

use super::journal::intent_applied;
use super::journal::is_waiting;
use super::journal::JournalModel;
use super::model::DeliveryIntent;
use super::model::ProviderError;
use super::model::ProviderMessageId;
use super::worker::has_acknowledged;
use super::worker::has_edited;
use super::worker::has_saved;
use super::worker::has_sent;
use super::worker::has_ticked;
use super::worker::has_turned;
use super::worker::is_called_for;
use super::worker::took_up;
use super::worker::DeliveryAction;
use super::worker::DeliveryPhase;
use super::worker::DeliveryWorker;
use super::worker::DeliveryWorkerEvent;
use vstd::prelude::*;

verus! {

/// One thing that happens to a worker.
pub enum DeliveryStep {
    Apply { intent: DeliveryIntent },
    Tick,
    Turn { now_ms: int },
    Saved { saved: bool, event: Option<DeliveryWorkerEvent> },
    Sent { outcome: Result<ProviderMessageId, ProviderError>, now_ms: int },
    Edited { outcome: Result<(), ProviderError>, now_ms: int },
    Acknowledged { acknowledged: bool },
}

/// Whether the worker waits for its journal to be saved.
pub open spec fn is_saving(phase: DeliveryPhase) -> bool {
    phase is SavingIntent || phase is SavingIdentity || phase is SavingSent || phase
        is SavingFailure
}

/// Whether a step leads from one worker to another.
pub open spec fn happens(before: DeliveryWorker, step: DeliveryStep, after: DeliveryWorker) -> bool {
    &&& before.wf()
    &&& after.wf()
    &&& match step {
        DeliveryStep::Apply { intent } => before.phase is Resting && took_up(before, intent, after),
        DeliveryStep::Tick => has_ticked(before, after),
        DeliveryStep::Turn { now_ms } => has_turned(before, now_ms, after),
        DeliveryStep::Saved { saved, event } => is_saving(before.phase) && has_saved(
            before,
            saved,
            after,
            event,
        ),
        DeliveryStep::Sent { outcome, now_ms } => before.phase is Sending && has_sent(
            before,
            outcome,
            now_ms,
            after,
        ),
        DeliveryStep::Edited { outcome, now_ms } => before.phase is Editing && has_edited(
            before,
            outcome,
            now_ms,
            after,
        ),
        DeliveryStep::Acknowledged { acknowledged } => before.phase is Acknowledging
            && has_acknowledged(before, acknowledged, after),
    }
}

/// Whether steps lead from each worker of a list to the next.
pub open spec fn is_run(workers: Seq<DeliveryWorker>, steps: Seq<DeliveryStep>) -> bool {
    &&& workers.len() == steps.len() + 1
    &&& forall|i: int|
        0 <= i < steps.len() ==> happens(workers[i], #[trigger] steps[i], workers[i + 1])
}

/// The journal that was saved last within the first `count` steps: at first the one
/// that was loaded.
pub open spec fn last_saved(
    workers: Seq<DeliveryWorker>,
    steps: Seq<DeliveryStep>,
    count: int,
) -> JournalModel
    decreases count,
{
    if count <= 0 {
        workers[0].journal@
    } else if steps[count - 1] matches DeliveryStep::Saved { saved, .. } && saved {
        workers[count - 1].journal@
    } else {
        last_saved(workers, steps, count - 1)
    }
}

/// Whether a step is a save that failed.
pub open spec fn is_failed_save(step: DeliveryStep) -> bool {
    step matches DeliveryStep::Saved { saved, .. } && !saved
}

/// As long as saves succeed, the provider is called only with the journal saved as it
/// stands: an intent before it is delivered, an identity before it is used, and what
/// was sent before anything else is.
pub proof fn provider_calls_follow_saves(
    workers: Seq<DeliveryWorker>,
    steps: Seq<DeliveryStep>,
    count: int,
)
    requires
        is_run(workers, steps),
        workers[0].phase is Resting,
        0 <= count <= steps.len(),
        forall|i: int| 0 <= i < count ==> !is_failed_save(#[trigger] steps[i]),
    ensures
        !is_saving(workers[count].phase) ==> workers[count].journal@ == last_saved(
            workers,
            steps,
            count,
        ),
    decreases count,
{
    if count > 0 {
        provider_calls_follow_saves(workers, steps, count - 1);
        let step = steps[count - 1];
        assert(happens(workers[count - 1], step, workers[count - 1 + 1]));
        assert(!is_failed_save(step));
    }
}

/// A command is saved before anything is delivered for it. Until the save is answered
/// nothing else is asked for; one that succeeded is reported with the journal that
/// holds the intent, and one that failed ends the command without a provider call.
pub proof fn commands_are_saved_first(
    before: DeliveryWorker,
    intent: DeliveryIntent,
    taken: DeliveryWorker,
    step: DeliveryStep,
    after: DeliveryWorker,
)
    requires
        happens(before, DeliveryStep::Apply { intent }, taken),
        happens(taken, step, after),
    ensures
        taken.journal@ == intent_applied(
            before.journal@,
            intent,
            before.capabilities.message_limit as int,
        ).0,
        forall|action: DeliveryAction|
            #[trigger] is_called_for(taken, action) ==> action is Save,
        after.journal@ == taken.journal@,
        match step {
            DeliveryStep::Saved { saved, event } => if saved {
                &&& after.phase is Ready
                &&& event == Some(
                    DeliveryWorkerEvent::Enqueued {
                        key: intent.key,
                        queue_depth: taken.journal.records.len(),
                    },
                )
            } else {
                &&& event == Some(DeliveryWorkerEvent::StoreFailed)
                &&& forall|action: DeliveryAction|
                    #[trigger] is_called_for(after, action) ==> action is Rest
            },
            _ => after.phase == taken.phase,
        },
{
}

/// What was sent is saved before anything else is asked for: the record then is sent
/// and holds the id that the provider gave it.
pub proof fn sent_messages_are_saved_next(
    before: DeliveryWorker,
    message_id: ProviderMessageId,
    now_ms: int,
    sent: DeliveryWorker,
    step: DeliveryStep,
    after: DeliveryWorker,
)
    requires
        happens(before, DeliveryStep::Sent { outcome: Ok(message_id), now_ms }, sent),
        happens(sent, step, after),
    ensures
        ({
            let record = sent.journal@.records[before.phase->Sending_index as int];
            &&& record.state is Sent
            &&& record.provider_message_id == Some(message_id@)
        }),
        forall|action: DeliveryAction| #[trigger] is_called_for(sent, action) ==> action is Save,
        after.journal@ == sent.journal@,
        !(step is Saved) ==> after.phase == sent.phase,
        is_failed_save(step) ==> forall|action: DeliveryAction|
            #[trigger] is_called_for(after, action) ==> action is Rest,
{
}

/// What is internal never reaches the provider, nor does what was sent already: each
/// send and each edit is of a record that waits and is not internal.
pub proof fn internal_records_stay_inside(worker: DeliveryWorker, action: DeliveryAction)
    requires
        worker.wf(),
        is_called_for(worker, action),
    ensures
        action is Send ==> worker.phase is Sending && is_waiting(
            worker.journal@.records[worker.phase->Sending_index as int],
        ),
        action is Edit ==> worker.phase is Editing && is_waiting(
            worker.journal@.records[worker.phase->Editing_index as int],
        ),
        forall|i: int|
            0 <= i < worker.journal@.records.len() && (#[trigger] worker.journal@.records[i]).origin
                is Internal ==> !(worker.phase matches DeliveryPhase::Sending { index } && index
                == i) && !(worker.phase matches DeliveryPhase::Editing { index } && index == i),
{
    match worker.phase {
        DeliveryPhase::Sending { index } => {
            assert(worker.journal@.records[index as int] == worker.journal.records@[index as int]@);
        },
        DeliveryPhase::Editing { index } => {
            assert(worker.journal@.records[index as int] == worker.journal.records@[index as int]@);
        },
        _ => {},
    }
}

} // verus!
