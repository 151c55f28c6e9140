//! What becomes of single records: new ones stand in the order of their text, a changed one
//! goes out as it should, and what failed is tried again.

use super::journal::all_superseded;
use super::journal::intent_applied;
use super::journal::is_segment;
use super::journal::revised;
use super::journal::segments_applied;
use super::journal::DeliveryRecord;
use super::journal::JournalModel;
use super::journal::RecordModel;
use super::laws::lemma_record_from;
use super::model::segments_of;
use super::model::DeliveryIntent;
use super::model::ProviderError;
use super::worker::all_owed;
use super::worker::has_acknowledged;
use super::worker::has_edited;
use super::worker::has_sent;
use super::worker::refused;
use super::worker::turned_to;
use super::worker::Acknowledgement;
use super::worker::DeliveryPhase;
use super::worker::DeliveryWorker;
use vstd::prelude::*;

verus! {

/// Whether a journal holds nothing of an item.
pub open spec fn is_new_item(records: Seq<RecordModel>, intent: DeliveryIntent) -> bool {
    forall|i: int|
        0 <= i < records.len() ==> (#[trigger] records[i]).key != intent.key@
            || records[i].conversation_id != intent.conversation_id@
}

/// Whether a record is fresh: it waits, with its own piece of the text, and was never sent.
pub open spec fn is_fresh_piece(
    record: RecordModel,
    intent: DeliveryIntent,
    segment: int,
    text: Seq<char>,
) -> bool {
    &&& record.key == intent.key@
    &&& record.conversation_id == intent.conversation_id@
    &&& record.origin == intent.origin
    &&& record.segment == segment
    &&& record.text == text
    &&& record.revision == intent.revision
    &&& record.committed == intent.committed
    &&& record.state is Pending
    &&& record.provider_message_id is None
    &&& record.attempts == 0
    &&& record.next_attempt_at_ms is None
    &&& record.delivery_id is Some
}

proof fn lemma_nothing_is_superseded(records: Seq<RecordModel>, intent: DeliveryIntent, count: int)
    requires
        is_new_item(records, intent),
    ensures
        all_superseded(records, intent, count) == (records, 0int),
    decreases records.len(),
{
    if records.len() > 0 {
        let shorter = records.drop_last();
        assert forall|i: int| 0 <= i < shorter.len() implies (#[trigger] shorter[i]).key
            != intent.key@ || shorter[i].conversation_id != intent.conversation_id@ by {
            assert(shorter[i] == records[i]);
        }
        lemma_nothing_is_superseded(shorter, intent, count);
        assert(records[records.len() - 1] == records.last());
        assert(shorter.push(records.last()) =~= records);
    }
}

proof fn lemma_pieces_are_appended(
    before: JournalModel,
    intent: DeliveryIntent,
    segments: Seq<Seq<char>>,
)
    requires
        is_new_item(before.records, intent),
    ensures
        ({
            let after = segments_applied(before, intent, segments).0.records;
            let count = before.records.len() as int;
            &&& after.len() == count + segments.len()
            &&& forall|i: int| 0 <= i < count ==> after[i] == #[trigger] before.records[i]
            &&& forall|i: int|
                0 <= i < segments.len() ==> is_fresh_piece(
                    after[count + i],
                    intent,
                    i,
                    #[trigger] segments[i],
                )
        }),
    decreases segments.len(),
{
    if segments.len() > 0 {
        let shorter = segments.drop_last();
        lemma_pieces_are_appended(before, intent, shorter);
        let middle = segments_applied(before, intent, shorter).0;
        let count = before.records.len() as int;
        let segment = segments.len() - 1;
        lemma_record_from(middle.records, intent.conversation_id@, intent.key@, segment, 0);
        assert forall|i: int| 0 <= i < middle.records.len() implies !is_segment(
            #[trigger] middle.records[i],
            intent.conversation_id@,
            intent.key@,
            segment,
        ) by {
            if i < count {
                assert(middle.records[i] == before.records[i]);
            } else {
                let place = i - count;
                assert(is_fresh_piece(
                    middle.records[count + place],
                    intent,
                    place,
                    shorter[place],
                ));
            }
        }
        let after = segments_applied(before, intent, segments).0.records;
        assert forall|i: int| 0 <= i < segments.len() implies is_fresh_piece(
            after[count + i],
            intent,
            i,
            #[trigger] segments[i],
        ) by {
            if i < segment {
                assert(shorter[i] == segments[i]);
                assert(after[count + i] == middle.records[count + i]);
            }
        }
        assert forall|i: int| 0 <= i < count implies after[i] == #[trigger] before.records[i] by {
            assert(middle.records[i] == before.records[i]);
            assert(after[i] == middle.records[i]);
        }
    }
}

/// The pieces of a new item are recorded in the order of its text, behind all that waits
/// already, each of them once and none of them sent yet. What is internal is not recorded.
pub proof fn new_items_are_recorded_in_order(
    before: JournalModel,
    intent: DeliveryIntent,
    limit: int,
)
    requires
        is_new_item(before.records, intent),
    ensures
        ({
            let after = intent_applied(before, intent, limit).0.records;
            let segments = segments_of(intent.text@, limit);
            let count = before.records.len() as int;
            if intent.origin is Internal {
                after == before.records
            } else {
                &&& after.len() == count + segments.len()
                &&& forall|i: int| 0 <= i < count ==> after[i] == #[trigger] before.records[i]
                &&& forall|i: int|
                    0 <= i < segments.len() ==> is_fresh_piece(
                        after[count + i],
                        intent,
                        i,
                        #[trigger] segments[i],
                    )
            }
        }),
{
    let segments = segments_of(intent.text@, limit);
    lemma_nothing_is_superseded(before.records, intent, segments.len() as int);
    lemma_pieces_are_appended(before, intent, segments);
    assert(JournalModel { records: before.records, ..before } == before);
}

/// A changed record waits with the new text at once, for the same message of the provider.
/// One that has not gone out keeps its identity; one that has gone out, or will never be
/// taken as it was, gets another.
pub proof fn changed_records_wait_anew(
    record: RecordModel,
    intent: DeliveryIntent,
    text: Seq<char>,
)
    ensures
        ({
            let after = revised(record, intent, text);
            &&& after.text == text
            &&& after.revision == intent.revision
            &&& after.committed == intent.committed
            &&& after.state is Pending
            &&& after.next_attempt_at_ms is None
            &&& after.provider_message_id == record.provider_message_id
            &&& after.key == record.key && after.segment == record.segment
            &&& after.conversation_id == record.conversation_id
            &&& after.attempts == record.attempts
            &&& record.state is Pending ==> after.delivery_id == record.delivery_id
            &&& record.state is Superseded && record.provider_message_id is None
                ==> after.delivery_id == record.delivery_id
            &&& record.state is Sent ==> after.delivery_id is None
            &&& record.state is FailedPermanent ==> after.delivery_id is None
            &&& record.state is Superseded && record.provider_message_id is Some
                ==> after.delivery_id is None
        }),
{
}

/// A failed delivery counts as one more attempt and waits for exactly the delay; nothing
/// else of it changes, unless the provider will never take it.
pub proof fn failed_deliveries_wait_for_the_delay(
    record: RecordModel,
    error: ProviderError,
    now_ms: int,
    delay_ms: int,
)
    requires
        record.attempts < u32::MAX,
        0 <= now_ms,
        0 <= delay_ms,
        now_ms + delay_ms <= u64::MAX,
    ensures
        ({
            let after = refused(record, error, now_ms, delay_ms);
            &&& after.attempts == record.attempts + 1
            &&& after.provider_message_id == record.provider_message_id
            &&& after.revision == record.revision
            &&& if error is IdempotencyConflict {
                after.state is FailedPermanent
            } else {
                after.state == record.state && after.next_attempt_at_ms == Some(now_ms + delay_ms)
            }
        }),
{
}

/// Whether the first record that waits stands at an index.
pub open spec fn waits_first(worker: DeliveryWorker, index: int) -> bool {
    let records = worker.journal@.records;
    &&& 0 <= index < records.len()
    &&& records[index].state is Pending && !(records[index].origin is Internal)
    &&& forall|i: int|
        0 <= i < index ==> !((#[trigger] records[i]).state is Pending) || records[i].origin
            is Internal
}

/// The record that waits first is the one that is turned to, and only once its time has
/// come; until then no other goes out before it. A message that the provider has is edited
/// where it can be; otherwise the record is sent, under an identity of its own.
pub proof fn the_first_record_goes_out_first(worker: DeliveryWorker, now_ms: int, index: int)
    requires
        worker.phase matches DeliveryPhase::Ready { position } && position
            >= worker.unacknowledged@.len(),
        waits_first(worker, index),
        index <= usize::MAX,
    ensures
        ({
            let record = worker.journal@.records[index];
            let (phase, journal) = turned_to(worker, now_ms);
            let due = record.next_attempt_at_ms matches Some(time) ==> time <= now_ms;
            &&& !due ==> phase is Resting && journal == worker.journal@
            &&& due && record.provider_message_id is Some && worker.capabilities.edit_support
                ==> phase == (DeliveryPhase::Editing { index: index as usize }) && journal
                == worker.journal@
            &&& due && !(record.provider_message_id is Some && worker.capabilities.edit_support)
                && record.delivery_id is Some ==> phase == (DeliveryPhase::Sending {
                index: index as usize,
            }) && journal == worker.journal@
            &&& due && !(record.provider_message_id is Some && worker.capabilities.edit_support)
                && record.delivery_id is None ==> {
                &&& phase == (DeliveryPhase::SavingIdentity { index: index as usize })
                &&& journal.records.len() == worker.journal@.records.len()
                &&& journal.records[index].delivery_id is Some
                &&& journal.records[index].text == record.text
                &&& forall|i: int|
                    0 <= i < journal.records.len() && i != index ==> journal.records[i]
                        == #[trigger] worker.journal@.records[i]
            }
        }),
{
    lemma_waits_from(worker.journal@.records, 0, index);
}

proof fn lemma_waits_from(records: Seq<RecordModel>, from: int, index: int)
    requires
        0 <= from <= index < records.len(),
        records[index].state is Pending && !(records[index].origin is Internal),
        forall|i: int|
            0 <= i < index ==> !((#[trigger] records[i]).state is Pending) || records[i].origin
                is Internal,
    ensures
        super::journal::waiting_from(records, from) == Some(index),
    decreases index - from,
{
    if from < index {
        lemma_waits_from(records, from + 1, index);
    }
}

/// What the provider took is sent, under the id that it gave; what it edited stays under
/// its id. No other record changes.
pub proof fn answers_settle_one_record(
    before: DeliveryWorker,
    after: DeliveryWorker,
    now_ms: int,
    index: int,
)
    requires
        before.wf(),
    ensures
        before.phase is Sending && index == before.phase->Sending_index ==> forall|
            message_id: super::model::ProviderMessageId,
        |
            #[trigger] has_sent(before, Ok(message_id), now_ms, after) ==> {
                &&& after.journal@.records.len() == before.journal@.records.len()
                &&& after.journal@.records[index].state is Sent
                &&& after.journal@.records[index].provider_message_id == Some(message_id@)
                &&& after.journal@.records[index].text == before.journal@.records[index].text
                &&& others_stay(before, after, index)
            },
        before.phase is Editing && index == before.phase->Editing_index && has_edited(
            before,
            Ok(()),
            now_ms,
            after,
        ) ==> {
            &&& after.journal@.records.len() == before.journal@.records.len()
            &&& after.journal@.records[index].state is Sent
            &&& after.journal@.records[index].provider_message_id
                == before.journal@.records[index].provider_message_id
            &&& after.journal@.records[index].text == before.journal@.records[index].text
            &&& others_stay(before, after, index)
        },
{
}

/// Whether all records but the one at an index stay as they are.
pub open spec fn others_stay(before: DeliveryWorker, after: DeliveryWorker, index: int) -> bool {
    forall|i: int|
        0 <= i < before.journal@.records.len() && i != index ==> after.journal@.records[i]
            == #[trigger] before.journal@.records[i]
}

/// What the provider has acknowledged is not mentioned again; what it has not is kept, and
/// so are all others, in their order.
pub proof fn acknowledged_deliveries_leave(
    before: DeliveryWorker,
    acknowledged: bool,
    after: DeliveryWorker,
    position: int,
)
    requires
        before.wf(),
        before.phase is Acknowledging,
        position == before.phase->Acknowledging_position,
        has_acknowledged(before, acknowledged, after),
    ensures
        acknowledged ==> after.unacknowledged@ == before.unacknowledged@.take(position)
            + before.unacknowledged@.skip(position + 1),
        !acknowledged ==> after.unacknowledged@ == before.unacknowledged@,
        after.phase is Ready,
        after.phase->Ready_position == if acknowledged {
            position
        } else {
            position + 1
        },
        after.journal == before.journal,
{
    let all = before.unacknowledged@;
    assert(all.len() == before.unacknowledged.len());
    assert(all.remove(position) =~= all.take(position) + all.skip(position + 1));
}

/// Whether the provider is owed an acknowledgement for a record.
pub open spec fn is_owed(record: DeliveryRecord) -> bool {
    record.state is Sent && record.delivery_id is Some && record.provider_message_id is Some
}

/// After a restart, an acknowledgement is owed for each record that was sent, in their
/// order, with the ids that it was sent and taken under.
pub proof fn sent_records_are_owed(records: Seq<DeliveryRecord>)
    ensures
        all_owed(records) == records.filter(|record: DeliveryRecord| is_owed(record)).map_values(
            |record: DeliveryRecord|
                Acknowledgement {
                    delivery_id: record.delivery_id->0,
                    message_id: record.provider_message_id->0,
                },
        ),
    decreases records.len(),
{
    reveal(Seq::filter);
    let kept = |record: DeliveryRecord| is_owed(record);
    let owing = |record: DeliveryRecord|
        Acknowledgement {
            delivery_id: record.delivery_id->0,
            message_id: record.provider_message_id->0,
        };
    if records.len() > 0 {
        let shorter = records.drop_last();
        sent_records_are_owed(shorter);
        let last = records.last();
        if is_owed(last) {
            assert(shorter.filter(kept).push(last).map_values(owing) =~= shorter.filter(
                kept,
            ).map_values(owing).push(owing(last)));
            assert(super::worker::owed(last) == Some(owing(last)));
        } else {
            assert(super::worker::owed(last) is None);
        }
    } else {
        assert(all_owed(records) =~= records.filter(kept).map_values(owing));
    }
}

} // verus!
