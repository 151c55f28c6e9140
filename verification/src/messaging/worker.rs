//! The delivery worker: it decides what is saved, sent, edited and acknowledged,
//! and in which order. Its surroundings perform each action and report back.

use crate::transcript::TranscriptKey;
use super::journal::delivery_id_of;
use super::journal::intent_applied;
use super::journal::is_waiting;
use super::journal::lemma_waiting_from;
use super::journal::next_pending;
use super::journal::numbered_delivery_id;
use super::journal::DeliveryJournal;
use super::journal::DeliveryRecord;
use super::journal::DeliveryState;
use super::journal::JournalModel;
use super::journal::RecordModel;
use super::model::segments_of;
use super::model::DeliveryIntent;
use super::model::ProviderCapabilities;
use super::model::ProviderConversationId;
use super::model::ProviderDeliveryId;
use super::model::ProviderError;
use super::model::ProviderMessageId;
use vstd::prelude::*;

verus! {

/// Commands accepted by the independent delivery worker.
#[derive(Debug)]
pub enum DeliveryWorkerCommand {
    Apply(DeliveryIntent),
    Shutdown,
}

/// Observable worker events contain no message body or credentials.
#[derive(Debug, PartialEq, Eq)]
pub enum DeliveryWorkerEvent {
    Enqueued { key: TranscriptKey, queue_depth: usize },
    Sent { key: TranscriptKey, segment: usize, provider_message_id: ProviderMessageId },
    Edited { key: TranscriptKey, segment: usize, revisions: u64 },
    Failed { key: TranscriptKey, segment: usize, error: ProviderError },
    StoreFailed,
}

/// A delivery that the provider need no longer remember.
#[derive(Debug, PartialEq, Eq)]
pub struct Acknowledgement {
    pub delivery_id: ProviderDeliveryId,
    pub message_id: ProviderMessageId,
}

impl Clone for Acknowledgement {
    fn clone(&self) -> (copy: Self)
        ensures
            copy == *self,
    {
        Acknowledgement {
            delivery_id: self.delivery_id.clone(),
            message_id: self.message_id.clone(),
        }
    }
}

/// What the worker wants done.
#[derive(Debug, PartialEq, Eq)]
pub enum DeliveryAction {
    /// Nothing, until a command arrives or the retry delay has passed.
    Rest,
    /// Save the journal; `on_saved` takes the outcome.
    Save,
    /// Send a new message; `on_sent` takes the outcome.
    Send {
        delivery_id: ProviderDeliveryId,
        conversation_id: ProviderConversationId,
        text: String,
    },
    /// Edit an earlier message; `on_edited` takes the outcome.
    Edit {
        conversation_id: ProviderConversationId,
        message_id: ProviderMessageId,
        text: String,
    },
    /// Acknowledge a delivery; `on_acknowledged` takes the outcome.
    Acknowledge { delivery_id: ProviderDeliveryId, message_id: ProviderMessageId },
}

/// What the worker is doing.
#[derive(Debug, PartialEq, Eq)]
pub enum DeliveryPhase {
    Resting,
    /// The acknowledgements from `position` on come next, then deliveries.
    Ready { position: usize },
    SavingIntent { key: TranscriptKey },
    SavingIdentity { index: usize },
    Sending { index: usize },
    Editing { index: usize },
    SavingSent { event: DeliveryWorkerEvent, acknowledgement: Option<Acknowledgement> },
    SavingFailure { event: DeliveryWorkerEvent },
    Acknowledging { position: usize },
}

/// Decides what a provider is called for. It is the only component that does.
#[derive(Debug, PartialEq, Eq)]
pub struct DeliveryWorker {
    pub journal: DeliveryJournal,
    pub capabilities: ProviderCapabilities,
    pub retry_delay_ms: u64,
    /// Sent deliveries that the provider has not acknowledged yet.
    pub unacknowledged: Vec<Acknowledgement>,
    pub phase: DeliveryPhase,
}

impl DeliveryWorker {
    /// What every operation keeps: the phase points at records and
    /// acknowledgements that exist.
    pub open spec fn wf(self) -> bool {
        &&& self.capabilities.message_limit > 0
        &&& match self.phase {
            DeliveryPhase::SavingIdentity { index } => self.may_send(index as int),
            DeliveryPhase::Sending { index } => self.may_send(index as int),
            DeliveryPhase::Editing { index } => self.is_up(index as int)
                && self.journal.records@[index as int].provider_message_id is Some,
            DeliveryPhase::Acknowledging { position } => position < self.unacknowledged@.len(),
            _ => true,
        }
    }

    /// Whether the record at `index` exists and waits for the provider.
    pub open spec fn is_up(self, index: int) -> bool {
        0 <= index < self.journal.records@.len() && is_waiting(self.journal.records@[index]@)
    }

    /// Whether the record at `index` waits and has an identity to be sent under.
    pub open spec fn may_send(self, index: int) -> bool {
        self.is_up(index) && self.journal.records@[index].delivery_id is Some
    }
}

/// The acknowledgement that a sent record calls for.
pub open spec fn owed(record: DeliveryRecord) -> Option<Acknowledgement> {
    match (record.state, record.delivery_id, record.provider_message_id) {
        (DeliveryState::Sent, Some(delivery_id), Some(message_id)) => Some(
            Acknowledgement { delivery_id, message_id },
        ),
        _ => None,
    }
}

/// The acknowledgements that sent records call for, in order.
pub open spec fn all_owed(records: Seq<DeliveryRecord>) -> Seq<Acknowledgement>
    decreases records.len(),
{
    if records.len() == 0 {
        Seq::empty()
    } else {
        let earlier = all_owed(records.drop_last());
        match owed(records.last()) {
            Some(acknowledgement) => earlier.push(acknowledgement),
            None => earlier,
        }
    }
}

/// A journal whose record at `index` was given an identity.
pub open spec fn identified(before: JournalModel, index: int) -> JournalModel {
    let record = before.records[index];
    JournalModel {
        records: before.records.update(
            index,
            RecordModel {
                delivery_id: Some(
                    delivery_id_of(
                        before.next_delivery as nat,
                        record.key,
                        record.segment as nat,
                    ),
                ),
                ..record
            },
        ),
        next_delivery: before.next_delivery + 1,
    }
}

/// What the worker turns to, and the journal that it then holds.
pub open spec fn turned_to(before: DeliveryWorker, now_ms: int) -> (DeliveryPhase, JournalModel) {
    let journal = before.journal@;
    match before.phase {
        DeliveryPhase::Ready { position } => if position < before.unacknowledged@.len() {
            (DeliveryPhase::Acknowledging { position }, journal)
        } else {
            match next_pending(journal.records, now_ms) {
                None => (DeliveryPhase::Resting, journal),
                Some(index) => {
                    let record = journal.records[index];
                    if record.provider_message_id is Some && before.capabilities.edit_support {
                        (DeliveryPhase::Editing { index: index as usize }, journal)
                    } else if record.delivery_id is Some {
                        (DeliveryPhase::Sending { index: index as usize }, journal)
                    } else {
                        (
                            DeliveryPhase::SavingIdentity { index: index as usize },
                            identified(journal, index),
                        )
                    }
                },
            }
        },
        phase => (phase, journal),
    }
}

/// Whether an action is the one that the worker's phase calls for.
pub open spec fn is_called_for(worker: DeliveryWorker, action: DeliveryAction) -> bool {
    let records = worker.journal@.records;
    match worker.phase {
        DeliveryPhase::Resting => action is Rest,
        DeliveryPhase::Ready { .. } => action is Rest,
        DeliveryPhase::SavingIntent { .. } => action is Save,
        DeliveryPhase::SavingIdentity { .. } => action is Save,
        DeliveryPhase::SavingSent { .. } => action is Save,
        DeliveryPhase::SavingFailure { .. } => action is Save,
        DeliveryPhase::Sending { index } => action matches DeliveryAction::Send {
            delivery_id,
            conversation_id,
            text,
        } && records[index as int].delivery_id == Some(delivery_id@)
            && records[index as int].conversation_id == conversation_id@
            && records[index as int].text == text@,
        DeliveryPhase::Editing { index } => action matches DeliveryAction::Edit {
            conversation_id,
            message_id,
            text,
        } && records[index as int].provider_message_id == Some(message_id@)
            && records[index as int].conversation_id == conversation_id@
            && records[index as int].text == text@,
        DeliveryPhase::Acknowledging { position } => action matches DeliveryAction::Acknowledge {
            delivery_id,
            message_id,
        } && worker.unacknowledged@[position as int] == (Acknowledgement {
            delivery_id,
            message_id,
        }),
    }
}

/// The phase after a save, the acknowledgements that it adds, and the event.
pub open spec fn after_saving(before: DeliveryWorker, saved: bool) -> (
    DeliveryPhase,
    Seq<Acknowledgement>,
    Option<DeliveryWorkerEvent>,
) {
    let unacknowledged = before.unacknowledged@;
    match before.phase {
        DeliveryPhase::SavingIntent { key } if saved => (
            DeliveryPhase::Ready { position: before.unacknowledged.len() },
            unacknowledged,
            Some(
                DeliveryWorkerEvent::Enqueued { key, queue_depth: before.journal.records.len() },
            ),
        ),
        DeliveryPhase::SavingIdentity { index } if saved => (
            DeliveryPhase::Sending { index },
            unacknowledged,
            None,
        ),
        DeliveryPhase::SavingSent { event, acknowledgement } if saved => (
            DeliveryPhase::Ready { position: before.unacknowledged.len() },
            match acknowledgement {
                Some(owed) => unacknowledged.push(owed),
                None => unacknowledged,
            },
            Some(event),
        ),
        DeliveryPhase::SavingFailure { event } => (
            DeliveryPhase::Resting,
            unacknowledged,
            Some(event),
        ),
        _ => (DeliveryPhase::Resting, unacknowledged, Some(DeliveryWorkerEvent::StoreFailed)),
    }
}

/// One more attempt, within a `u32`.
pub open spec fn one_more_attempt(attempts: int) -> int {
    if attempts < u32::MAX {
        attempts + 1
    } else {
        attempts
    }
}

/// `delay` after `now`, within a `u64`.
pub open spec fn deadline(now_ms: int, delay_ms: int) -> int {
    if now_ms + delay_ms <= u64::MAX {
        now_ms + delay_ms
    } else {
        u64::MAX as int
    }
}

/// A record after the provider refused it: a conflict is final, everything else is
/// tried again later under the same identity.
pub open spec fn refused(
    record: RecordModel,
    error: ProviderError,
    now_ms: int,
    delay_ms: int,
) -> RecordModel {
    RecordModel {
        attempts: one_more_attempt(record.attempts),
        state: if error is IdempotencyConflict {
            DeliveryState::FailedPermanent
        } else {
            record.state
        },
        next_attempt_at_ms: if error is IdempotencyConflict {
            record.next_attempt_at_ms
        } else {
            Some(deadline(now_ms, delay_ms))
        },
        ..record
    }
}

/// A worker that has taken up an intent, and saves it first.
pub open spec fn took_up(
    before: DeliveryWorker,
    intent: DeliveryIntent,
    after: DeliveryWorker,
) -> bool {
    &&& after.journal@ == intent_applied(
        before.journal@,
        intent,
        before.capabilities.message_limit as int,
    ).0
    &&& after == (DeliveryWorker {
        journal: after.journal,
        phase: DeliveryPhase::SavingIntent { key: intent.key },
        ..before
    })
}

/// A worker that has begun a round, where it was at rest.
pub open spec fn has_ticked(before: DeliveryWorker, after: DeliveryWorker) -> bool {
    after == (DeliveryWorker {
        phase: if before.phase is Resting {
            DeliveryPhase::Ready { position: 0 }
        } else {
            before.phase
        },
        ..before
    })
}

/// A worker that has turned to what comes next.
pub open spec fn has_turned(before: DeliveryWorker, now_ms: int, after: DeliveryWorker) -> bool {
    &&& (after.phase, after.journal@) == turned_to(before, now_ms)
    &&& after == (DeliveryWorker { journal: after.journal, phase: after.phase, ..before })
}

/// A worker after a save, and what it reports.
pub open spec fn has_saved(
    before: DeliveryWorker,
    saved: bool,
    after: DeliveryWorker,
    event: Option<DeliveryWorkerEvent>,
) -> bool {
    &&& (after.phase, after.unacknowledged@, event) == after_saving(before, saved)
    &&& after == (DeliveryWorker {
        unacknowledged: after.unacknowledged,
        phase: after.phase,
        ..before
    })
}

/// A worker after a send: the outcome is recorded, and saved next.
pub open spec fn has_sent(
    before: DeliveryWorker,
    outcome: Result<ProviderMessageId, ProviderError>,
    now_ms: int,
    after: DeliveryWorker,
) -> bool {
    let index = before.phase->Sending_index as int;
    let record = before.journal.records@[index];
    &&& after == (DeliveryWorker {
        journal: after.journal,
        phase: match outcome {
            Ok(message_id) => DeliveryPhase::SavingSent {
                event: DeliveryWorkerEvent::Sent {
                    key: record.key,
                    segment: record.segment,
                    provider_message_id: message_id,
                },
                acknowledgement: Some(
                    Acknowledgement {
                        delivery_id: record.delivery_id->0,
                        message_id,
                    },
                ),
            },
            Err(error) => DeliveryPhase::SavingFailure {
                event: DeliveryWorkerEvent::Failed {
                    key: record.key,
                    segment: record.segment,
                    error,
                },
            },
        },
        ..before
    })
    &&& after.journal@ == (JournalModel {
        records: before.journal@.records.update(
            index,
            match outcome {
                Ok(message_id) => RecordModel {
                    provider_message_id: Some(message_id@),
                    state: DeliveryState::Sent,
                    ..record@
                },
                Err(error) => refused(
                    record@,
                    error,
                    now_ms,
                    before.retry_delay_ms as int,
                ),
            },
        ),
        ..before.journal@
    })
}

/// A worker after an edit: the outcome is recorded, and saved next.
pub open spec fn has_edited(
    before: DeliveryWorker,
    outcome: Result<(), ProviderError>,
    now_ms: int,
    after: DeliveryWorker,
) -> bool {
    let index = before.phase->Editing_index as int;
    let record = before.journal.records@[index];
    &&& after == (DeliveryWorker {
        journal: after.journal,
        phase: match outcome {
            Ok(_) => DeliveryPhase::SavingSent {
                event: DeliveryWorkerEvent::Edited {
                    key: record.key,
                    segment: record.segment,
                    revisions: record.revision,
                },
                acknowledgement: None,
            },
            Err(error) => DeliveryPhase::SavingFailure {
                event: DeliveryWorkerEvent::Failed {
                    key: record.key,
                    segment: record.segment,
                    error,
                },
            },
        },
        ..before
    })
    &&& after.journal@ == (JournalModel {
        records: before.journal@.records.update(
            index,
            match outcome {
                Ok(_) => RecordModel { state: DeliveryState::Sent, ..record@ },
                Err(error) => refused(
                    record@,
                    error,
                    now_ms,
                    before.retry_delay_ms as int,
                ),
            },
        ),
        ..before.journal@
    })
}

/// A worker after an acknowledgement: one that failed is kept for the next round.
pub open spec fn has_acknowledged(
    before: DeliveryWorker,
    acknowledged: bool,
    after: DeliveryWorker,
) -> bool {
    let position = before.phase->Acknowledging_position;
    &&& after.unacknowledged@ == if acknowledged {
        before.unacknowledged@.remove(position as int)
    } else {
        before.unacknowledged@
    }
    &&& after == (DeliveryWorker {
        unacknowledged: after.unacknowledged,
        phase: DeliveryPhase::Ready {
            position: if acknowledged {
                position
            } else {
                (position + 1) as usize
            },
        },
        ..before
    })
}

impl DeliveryWorker {
    /// A worker that takes up a loaded journal: deliveries that were sent before
    /// are acknowledged again, and never sent again.
    pub fn new(
        journal: DeliveryJournal,
        capabilities: ProviderCapabilities,
        retry_delay_ms: u64,
    ) -> (worker: Self)
        requires
            capabilities.message_limit > 0,
        ensures
            worker.wf(),
            worker.journal == journal,
            worker.capabilities == capabilities,
            worker.retry_delay_ms == retry_delay_ms,
            worker.unacknowledged@ == all_owed(journal.records@),
            worker.phase is Resting,
    {
        let mut unacknowledged: Vec<Acknowledgement> = Vec::new();
        let mut index: usize = 0;
        assert(journal.records@.take(0) =~= Seq::<DeliveryRecord>::empty());
        while index < journal.records.len()
            invariant
                index <= journal.records@.len(),
                unacknowledged@ == all_owed(journal.records@.take(index as int)),
            decreases journal.records@.len() - index,
        {
            let record = &journal.records[index];
            proof {
                let longer = journal.records@.take(index + 1);
                assert(longer.drop_last() =~= journal.records@.take(index as int));
                assert(longer.last() == *record);
            }
            if record.state == DeliveryState::Sent {
                match (&record.delivery_id, &record.provider_message_id) {
                    (Some(delivery_id), Some(message_id)) => {
                        unacknowledged.push(
                            Acknowledgement {
                                delivery_id: delivery_id.clone(),
                                message_id: message_id.clone(),
                            },
                        );
                    },
                    _ => {},
                }
            }
            index += 1;
        }
        assert(journal.records@.take(index as int) =~= journal.records@);
        DeliveryWorker {
            journal,
            capabilities,
            retry_delay_ms,
            unacknowledged,
            phase: DeliveryPhase::Resting,
        }
    }

    /// Takes up an intent; the journal is saved before anything is delivered.
    pub fn apply(&mut self, intent: DeliveryIntent)
        requires
            old(self).wf(),
            old(self).phase is Resting,
            old(self).journal.next_delivery + segments_of(
                intent.text@,
                old(self).capabilities.message_limit as int,
            ).len() <= u64::MAX,
            old(self).journal.records@.len() + segments_of(
                intent.text@,
                old(self).capabilities.message_limit as int,
            ).len() <= usize::MAX,
        ensures
            final(self).wf(),
            took_up(*old(self), intent, *final(self)),
    {
        let key = intent.key.clone();
        self.journal.apply(intent, self.capabilities.message_limit);
        self.phase = DeliveryPhase::SavingIntent { key };
    }

    /// Starts a round: pending acknowledgements first, then pending deliveries.
    pub fn tick(&mut self)
        requires
            old(self).wf(),
        ensures
            final(self).wf(),
            has_ticked(*old(self), *final(self)),
    {
        match self.phase {
            DeliveryPhase::Resting => {
                self.phase = DeliveryPhase::Ready { position: 0 };
            },
            _ => {},
        }
    }

    /// Turns to what comes next.
    fn turn(&mut self, now_ms: u64)
        requires
            old(self).wf(),
            old(self).journal.next_delivery < u64::MAX,
        ensures
            final(self).wf(),
            has_turned(*old(self), now_ms as int, *final(self)),
    {
        let position: usize = match self.phase {
            DeliveryPhase::Ready { position } => position,
            _ => {
                return;
            },
        };
        if position < self.unacknowledged.len() {
            self.phase = DeliveryPhase::Acknowledging { position };
            return;
        }
        proof {
            lemma_waiting_from(self.journal@.records, 0);
        }
        match self.journal.next_pending_index(now_ms) {
            None => {
                self.phase = DeliveryPhase::Resting;
            },
            Some(index) => {
                let record = &self.journal.records[index];
                assert(self.journal@.records[index as int] == record@);
                if record.provider_message_id.is_some() && self.capabilities.edit_support {
                    self.phase = DeliveryPhase::Editing { index };
                } else if record.delivery_id.is_some() {
                    self.phase = DeliveryPhase::Sending { index };
                } else {
                    let number: u64 = self.journal.next_delivery;
                    let mut changed = record.clone();
                    changed.delivery_id = Some(
                        numbered_delivery_id(number, &changed.key, changed.segment),
                    );
                    let ghost model = changed@;
                    self.journal.records.set(index, changed);
                    self.journal.next_delivery = number + 1;
                    proof {
                        assert(self.journal@.records =~= old(self).journal@.records.update(
                            index as int,
                            model,
                        ));
                        assert(self.journal@ =~= identified(old(self).journal@, index as int));
                    }
                    self.phase = DeliveryPhase::SavingIdentity { index };
                }
            },
        }
    }

    /// The action that the phase calls for.
    fn action(&self) -> (action: DeliveryAction)
        requires
            self.wf(),
        ensures
            is_called_for(*self, action),
    {
        match &self.phase {
            DeliveryPhase::Resting => DeliveryAction::Rest,
            DeliveryPhase::Ready { .. } => DeliveryAction::Rest,
            DeliveryPhase::SavingIntent { .. } => DeliveryAction::Save,
            DeliveryPhase::SavingIdentity { .. } => DeliveryAction::Save,
            DeliveryPhase::SavingSent { .. } => DeliveryAction::Save,
            DeliveryPhase::SavingFailure { .. } => DeliveryAction::Save,
            DeliveryPhase::Sending { index } => {
                let record = &self.journal.records[*index];
                assert(self.journal@.records[*index as int] == record@);
                match &record.delivery_id {
                    Some(delivery_id) => DeliveryAction::Send {
                        delivery_id: delivery_id.clone(),
                        conversation_id: record.conversation_id.clone(),
                        text: record.text.clone(),
                    },
                    None => DeliveryAction::Rest,
                }
            },
            DeliveryPhase::Editing { index } => {
                let record = &self.journal.records[*index];
                assert(self.journal@.records[*index as int] == record@);
                match &record.provider_message_id {
                    Some(message_id) => DeliveryAction::Edit {
                        conversation_id: record.conversation_id.clone(),
                        message_id: message_id.clone(),
                        text: record.text.clone(),
                    },
                    None => DeliveryAction::Rest,
                }
            },
            DeliveryPhase::Acknowledging { position } => {
                let acknowledgement = self.unacknowledged[*position].clone();
                DeliveryAction::Acknowledge {
                    delivery_id: acknowledgement.delivery_id,
                    message_id: acknowledgement.message_id,
                }
            },
        }
    }

    /// Turns to what comes next and says what is to be done for it.
    pub fn next_action(&mut self, now_ms: u64) -> (action: DeliveryAction)
        requires
            old(self).wf(),
            old(self).journal.next_delivery < u64::MAX,
        ensures
            final(self).wf(),
            has_turned(*old(self), now_ms as int, *final(self)),
            is_called_for(*final(self), action),
    {
        self.turn(now_ms);
        self.action()
    }

    /// Takes the outcome of a save.
    pub fn on_saved(&mut self, saved: bool) -> (event: Option<DeliveryWorkerEvent>)
        requires
            old(self).wf(),
            old(self).phase is SavingIntent || old(self).phase is SavingIdentity || old(self).phase
                is SavingSent || old(self).phase is SavingFailure,
        ensures
            final(self).wf(),
            has_saved(*old(self), saved, *final(self), event),
    {
        let mut phase = DeliveryPhase::Resting;
        std::mem::swap(&mut phase, &mut self.phase);
        match phase {
            DeliveryPhase::SavingIntent { key } => {
                if saved {
                    self.phase = DeliveryPhase::Ready { position: self.unacknowledged.len() };
                    return Some(
                        DeliveryWorkerEvent::Enqueued {
                            key,
                            queue_depth: self.journal.records.len(),
                        },
                    );
                }
            },
            DeliveryPhase::SavingIdentity { index } => {
                if saved {
                    self.phase = DeliveryPhase::Sending { index };
                    return None;
                }
            },
            DeliveryPhase::SavingSent { event, acknowledgement } => {
                if saved {
                    self.phase = DeliveryPhase::Ready { position: self.unacknowledged.len() };
                    match acknowledgement {
                        Some(owed) => {
                            self.unacknowledged.push(owed);
                        },
                        None => {},
                    }
                    return Some(event);
                }
            },
            DeliveryPhase::SavingFailure { event } => {
                return Some(event);
            },
            _ => {},
        }
        Some(DeliveryWorkerEvent::StoreFailed)
    }

    /// Records that the provider refused the record at `index`.
    fn fail(&mut self, index: usize, error: ProviderError, now_ms: u64)
        requires
            old(self).capabilities.message_limit > 0,
            index < old(self).journal.records@.len(),
        ensures
            final(self).wf(),
            final(self).journal@ == (JournalModel {
                records: old(self).journal@.records.update(
                    index as int,
                    refused(
                        old(self).journal@.records[index as int],
                        error,
                        now_ms as int,
                        old(self).retry_delay_ms as int,
                    ),
                ),
                ..old(self).journal@
            }),
            *final(self) == (DeliveryWorker {
                journal: final(self).journal,
                phase: DeliveryPhase::SavingFailure {
                    event: DeliveryWorkerEvent::Failed {
                        key: old(self).journal.records@[index as int].key,
                        segment: old(self).journal.records@[index as int].segment,
                        error,
                    },
                },
                ..*old(self)
            }),
    {
        let record = &self.journal.records[index];
        assert(self.journal@.records[index as int] == record@);
        let key = record.key.clone();
        let segment: usize = record.segment;
        let mut changed = record.clone();
        changed.attempts = changed.attempts.saturating_add(1);
        if error == ProviderError::IdempotencyConflict {
            changed.state = DeliveryState::FailedPermanent;
        } else {
            changed.next_attempt_at_ms = Some(now_ms.saturating_add(self.retry_delay_ms));
        }
        let ghost model = changed@;
        self.journal.records.set(index, changed);
        proof {
            assert(model =~= refused(
                old(self).journal@.records[index as int],
                error,
                now_ms as int,
                old(self).retry_delay_ms as int,
            ));
            assert(self.journal@.records =~= old(self).journal@.records.update(
                index as int,
                model,
            ));
        }
        self.phase = DeliveryPhase::SavingFailure {
            event: DeliveryWorkerEvent::Failed { key, segment, error },
        };
    }

    /// Takes the outcome of a send.
    pub fn on_sent(&mut self, outcome: Result<ProviderMessageId, ProviderError>, now_ms: u64)
        requires
            old(self).wf(),
            old(self).phase is Sending,
        ensures
            final(self).wf(),
            has_sent(*old(self), outcome, now_ms as int, *final(self)),
    {
        let index: usize = match self.phase {
            DeliveryPhase::Sending { index } => index,
            _ => {
                return;
            },
        };
        assert(self.journal@.records[index as int] == self.journal.records@[index as int]@);
        match outcome {
            Ok(message_id) => {
                let record = &self.journal.records[index];
                let key = record.key.clone();
                let segment: usize = record.segment;
                let acknowledgement = match &record.delivery_id {
                    Some(delivery_id) => Some(
                        Acknowledgement {
                            delivery_id: delivery_id.clone(),
                            message_id: message_id.clone(),
                        },
                    ),
                    None => None,
                };
                let mut changed = record.clone();
                changed.provider_message_id = Some(message_id.clone());
                changed.state = DeliveryState::Sent;
                let ghost model = changed@;
                self.journal.records.set(index, changed);
                proof {
                    assert(self.journal@.records =~= old(self).journal@.records.update(
                        index as int,
                        model,
                    ));
                }
                self.phase = DeliveryPhase::SavingSent {
                    event: DeliveryWorkerEvent::Sent {
                        key,
                        segment,
                        provider_message_id: message_id,
                    },
                    acknowledgement,
                };
            },
            Err(error) => {
                self.fail(index, error, now_ms);
            },
        }
    }

    /// Takes the outcome of an edit.
    pub fn on_edited(&mut self, outcome: Result<(), ProviderError>, now_ms: u64)
        requires
            old(self).wf(),
            old(self).phase is Editing,
        ensures
            final(self).wf(),
            has_edited(*old(self), outcome, now_ms as int, *final(self)),
    {
        let index: usize = match self.phase {
            DeliveryPhase::Editing { index } => index,
            _ => {
                return;
            },
        };
        assert(self.journal@.records[index as int] == self.journal.records@[index as int]@);
        match outcome {
            Ok(_) => {
                let record = &self.journal.records[index];
                let key = record.key.clone();
                let segment: usize = record.segment;
                let revisions: u64 = record.revision;
                let mut changed = record.clone();
                changed.state = DeliveryState::Sent;
                let ghost model = changed@;
                self.journal.records.set(index, changed);
                proof {
                    assert(self.journal@.records =~= old(self).journal@.records.update(
                        index as int,
                        model,
                    ));
                }
                self.phase = DeliveryPhase::SavingSent {
                    event: DeliveryWorkerEvent::Edited { key, segment, revisions },
                    acknowledgement: None,
                };
            },
            Err(error) => {
                self.fail(index, error, now_ms);
            },
        }
    }

    /// Takes the outcome of an acknowledgement: one that failed is tried again in
    /// the next round, and nothing is sent again for it.
    pub fn on_acknowledged(&mut self, acknowledged: bool)
        requires
            old(self).wf(),
            old(self).phase is Acknowledging,
        ensures
            final(self).wf(),
            has_acknowledged(*old(self), acknowledged, *final(self)),
    {
        let position: usize = match self.phase {
            DeliveryPhase::Acknowledging { position } => position,
            _ => {
                return;
            },
        };
        let total: usize = self.unacknowledged.len();
        if acknowledged {
            self.unacknowledged.remove(position);
            self.phase = DeliveryPhase::Ready { position };
        } else {
            assert(position < total);
            self.phase = DeliveryPhase::Ready { position: position + 1 };
        }
    }
}

} // verus!
