//! What holds of the delivery journal, whatever intents arrive.

use crate::text::decimal_of;
use crate::text::lemma_decimal_reads_back;
use crate::transcript::KeyModel;
use super::journal::all_superseded;
use super::journal::delivery_id_of;
use super::journal::intent_applied;
use super::journal::is_segment;
use super::journal::is_stale;
use super::journal::is_waiting;
use super::journal::lemma_waiting_from;
use super::journal::next_pending;
use super::journal::record_from;
use super::journal::segment_applied;
use super::journal::segments_applied;
use super::journal::superseded;
use super::journal::waiting_from;
use super::journal::JournalModel;
use super::journal::RecordModel;
use super::model::segments_of;
use super::model::DeliveryIntent;
use super::model::ProviderError;
use super::worker::after_saving;
use super::worker::deadline;
use super::worker::identified;
use super::worker::refused;
use super::worker::turned_to;
use super::worker::DeliveryPhase;
use super::worker::DeliveryWorker;
use vstd::prelude::*;

verus! {

/// Whether a delivery id was given out before the number `next`.
pub open spec fn is_issued(id: Seq<char>, next: int) -> bool {
    exists|number: nat, key: KeyModel, segment: nat|
        number < next && id == #[trigger] delivery_id_of(number, key, segment)
}

impl JournalModel {
    /// No two records stand for the same segment.
    pub open spec fn unique_segments(self) -> bool {
        forall|i: int, j: int|
            0 <= i < j < self.records.len() ==> !is_segment(
                #[trigger] self.records[i],
                (#[trigger] self.records[j]).conversation_id,
                self.records[j].key,
                self.records[j].segment,
            )
    }

    /// No two records go out under the same delivery id.
    pub open spec fn distinct_deliveries(self) -> bool {
        forall|i: int, j: int|
            0 <= i < j < self.records.len() && (#[trigger] self.records[i]).delivery_id is Some ==> (
            #[trigger] self.records[j]).delivery_id != self.records[i].delivery_id
    }

    /// What every operation keeps.
    pub open spec fn wf(self) -> bool {
        &&& 0 <= self.next_delivery
        &&& self.unique_segments()
        &&& self.distinct_deliveries()
        &&& forall|i: int|
            0 <= i < self.records.len() && (#[trigger] self.records[i]).delivery_id is Some
                ==> is_issued(self.records[i].delivery_id->0, self.next_delivery)
    }
}

/// Two delivery ids that are the same carry the same number: an id is never given
/// out twice.
pub proof fn delivery_ids_carry_their_number(
    number: nat,
    key: KeyModel,
    segment: nat,
    other: nat,
    other_key: KeyModel,
    other_segment: nat,
)
    ensures
        delivery_id_of(number, key, segment) == delivery_id_of(other, other_key, other_segment)
            ==> number == other,
{
    reveal_strlit(":");
    lemma_decimal_reads_back(number);
    lemma_decimal_reads_back(other);
    let id = delivery_id_of(number, key, segment);
    let other_id = delivery_id_of(other, other_key, other_segment);
    let length = decimal_of(number).len() as int;
    let other_length = decimal_of(other).len() as int;
    assert(id[length] == ':');
    assert(other_id[other_length] == ':');
    assert(id.take(length) =~= decimal_of(number));
    assert(other_id.take(other_length) =~= decimal_of(other));
    if id == other_id {
        if length < other_length {
            assert(other_id.take(other_length)[length] == ':');
        }
        if other_length < length {
            assert(id.take(length)[other_length] == ':');
        }
    }
}

proof fn lemma_new_id_is_fresh(before: JournalModel, key: KeyModel, segment: nat)
    requires
        before.wf(),
    ensures
        forall|i: int|
            0 <= i < before.records.len() ==> (#[trigger] before.records[i]).delivery_id != Some(
                delivery_id_of(before.next_delivery as nat, key, segment),
            ),
        is_issued(
            delivery_id_of(before.next_delivery as nat, key, segment),
            before.next_delivery + 1,
        ),
{
    let number = before.next_delivery as nat;
    let fresh = delivery_id_of(number, key, segment);
    assert forall|i: int| 0 <= i < before.records.len() implies (
    #[trigger] before.records[i]).delivery_id != Some(fresh) by {
        if before.records[i].delivery_id is Some {
            let id = before.records[i].delivery_id->0;
            let (other, other_key, other_segment) = choose|
                other: nat,
                other_key: KeyModel,
                other_segment: nat,
            |
                other < before.next_delivery && id == #[trigger] delivery_id_of(
                    other,
                    other_key,
                    other_segment,
                );
            delivery_ids_carry_their_number(
                number,
                key,
                segment,
                other,
                other_key,
                other_segment,
            );
        }
    }
}

/// A record that is found stands for the segment and comes first.
pub proof fn lemma_record_from(
    records: Seq<RecordModel>,
    conversation_id: Seq<char>,
    key: KeyModel,
    segment: int,
    from: int,
)
    requires
        0 <= from,
    ensures
        match record_from(records, conversation_id, key, segment, from) {
            Some(index) => from <= index < records.len() && is_segment(
                records[index],
                conversation_id,
                key,
                segment,
            ) && forall|i: int|
                from <= i < index ==> !is_segment(
                    #[trigger] records[i],
                    conversation_id,
                    key,
                    segment,
                ),
            None => forall|i: int|
                from <= i < records.len() ==> !is_segment(
                    #[trigger] records[i],
                    conversation_id,
                    key,
                    segment,
                ),
        },
    decreases records.len() - from,
{
    if from < records.len() && !is_segment(records[from], conversation_id, key, segment) {
        lemma_record_from(records, conversation_id, key, segment, from + 1);
    }
}

/// Whether a record goes on from an earlier one: it stands for the same segment, and
/// what the provider has answered so far is not forgotten.
pub open spec fn continues(earlier: RecordModel, later: RecordModel) -> bool {
    &&& is_segment(later, earlier.conversation_id, earlier.key, earlier.segment)
    &&& later.origin == earlier.origin
    &&& later.delivery_id == earlier.delivery_id || later.delivery_id is None
    &&& later.revision >= earlier.revision
    &&& later.provider_message_id == earlier.provider_message_id
    &&& later.attempts == earlier.attempts
}

/// Whether one list of records goes on from another: each record keeps its place.
pub open spec fn keeps_places(before: Seq<RecordModel>, after: Seq<RecordModel>) -> bool {
    &&& before.len() <= after.len()
    &&& forall|i: int| 0 <= i < before.len() ==> continues(#[trigger] before[i], after[i])
}

/// Whether a record belongs to the item of an intent, and is no newer.
pub open spec fn is_concerned(record: RecordModel, intent: DeliveryIntent) -> bool {
    record.key == intent.key@ && record.conversation_id == intent.conversation_id@
        && record.revision <= intent.revision
}

/// Whether two lists of records differ only in what an intent concerns: other records
/// are the same, and what is new was appended for its item.
pub open spec fn differ_only_by(
    before: Seq<RecordModel>,
    after: Seq<RecordModel>,
    intent: DeliveryIntent,
) -> bool {
    &&& before.len() <= after.len()
    &&& forall|i: int|
        0 <= i < before.len() && !is_concerned(#[trigger] before[i], intent) ==> after[i]
            == before[i]
    &&& forall|i: int|
        before.len() <= i < after.len() ==> (#[trigger] after[i]).key == intent.key@
            && after[i].conversation_id == intent.conversation_id@
}

proof fn lemma_superseded(records: Seq<RecordModel>, intent: DeliveryIntent, count: int)
    ensures
        all_superseded(records, intent, count).0.len() == records.len(),
        forall|i: int|
            0 <= i < records.len() ==> #[trigger] all_superseded(records, intent, count).0[i]
                == superseded(records[i], intent, count),
        keeps_places(records, all_superseded(records, intent, count).0),
        differ_only_by(records, all_superseded(records, intent, count).0, intent),
    decreases records.len(),
{
    let after = all_superseded(records, intent, count).0;
    if records.len() > 0 {
        lemma_superseded(records.drop_last(), intent, count);
        assert forall|i: int| 0 <= i < records.len() implies #[trigger] after[i] == superseded(
            records[i],
            intent,
            count,
        ) by {
            if i < records.len() - 1 {
                assert(records.drop_last()[i] == records[i]);
                assert(after[i] == all_superseded(records.drop_last(), intent, count).0[i]);
            }
        }
    }
    assert forall|i: int| 0 <= i < records.len() implies continues(
            #[trigger] records[i],
            after[i],
        ) by {
        assert(after[i] == superseded(records[i], intent, count));
    }
}

proof fn lemma_keeps_places_keeps_wf(before: JournalModel, after: JournalModel)
    requires
        before.wf(),
        keeps_places(before.records, after.records),
        before.records.len() == after.records.len(),
        before.next_delivery == after.next_delivery,
    ensures
        after.wf(),
{
    assert forall|i: int, j: int| 0 <= i < j < after.records.len() implies !is_segment(
        #[trigger] after.records[i],
        (#[trigger] after.records[j]).conversation_id,
        after.records[j].key,
        after.records[j].segment,
    ) by {
        assert(before.records[i].key == after.records[i].key);
        assert(before.records[j].key == after.records[j].key);
    }
    assert forall|i: int, j: int|
        0 <= i < j < after.records.len() && (#[trigger] after.records[i]).delivery_id is Some implies (
    #[trigger] after.records[j]).delivery_id != after.records[i].delivery_id by {
        assert(before.records[i].key == after.records[i].key);
        assert(before.records[j].key == after.records[j].key);
    }
    assert forall|i: int|
        0 <= i < after.records.len() && (#[trigger] after.records[i]).delivery_id is Some implies is_issued(
    after.records[i].delivery_id->0, after.next_delivery) by {
        assert(before.records[i].key == after.records[i].key);
    }
}

proof fn lemma_segment_keeps(
    before: JournalModel,
    intent: DeliveryIntent,
    segment: nat,
    text: Seq<char>,
)
    ensures
        keeps_places(before.records, segment_applied(before, intent, segment, text).0.records),
        differ_only_by(
            before.records,
            segment_applied(before, intent, segment, text).0.records,
            intent,
        ),
        before.wf() ==> segment_applied(before, intent, segment, text).0.wf(),
{
    let after = segment_applied(before, intent, segment, text).0;
    lemma_record_from(before.records, intent.conversation_id@, intent.key@, segment as int, 0);
    if before.wf() {
        if after.records.len() == before.records.len() {
            lemma_keeps_places_keeps_wf(before, after);
        } else {
            lemma_new_id_is_fresh(before, intent.key@, segment);
            let last = before.records.len() as int;
            assert forall|i: int|
                0 <= i < after.records.len() && (#[trigger] after.records[i]).delivery_id
                    is Some implies is_issued(
                after.records[i].delivery_id->0,
                after.next_delivery,
            ) by {
                if i < last {
                    let id = before.records[i].delivery_id->0;
                    assert(is_issued(id, before.next_delivery));
                    let (number, key, other) = choose|number: nat, key: KeyModel, other: nat|
                        number < before.next_delivery && id == #[trigger] delivery_id_of(
                            number,
                            key,
                            other,
                        );
                    assert(id == delivery_id_of(number, key, other));
                }
            }
        }
    }
}

proof fn lemma_differences_add_up(
    before: Seq<RecordModel>,
    middle: Seq<RecordModel>,
    after: Seq<RecordModel>,
    intent: DeliveryIntent,
)
    requires
        differ_only_by(before, middle, intent),
        differ_only_by(middle, after, intent),
        keeps_places(middle, after),
    ensures
        differ_only_by(before, after, intent),
{
    assert forall|i: int|
        before.len() <= i < after.len() implies (#[trigger] after[i]).key == intent.key@
        && after[i].conversation_id == intent.conversation_id@ by {
        if i < middle.len() {
            assert(continues(middle[i], after[i]));
        }
    }
    assert forall|i: int|
        0 <= i < before.len() && !is_concerned(#[trigger] before[i], intent) implies after[i]
        == before[i] by {
        assert(middle[i] == before[i]);
    }
}

proof fn lemma_segments_keep(
    before: JournalModel,
    intent: DeliveryIntent,
    segments: Seq<Seq<char>>,
)
    ensures
        keeps_places(before.records, segments_applied(before, intent, segments).0.records),
        differ_only_by(
            before.records,
            segments_applied(before, intent, segments).0.records,
            intent,
        ),
        before.wf() ==> segments_applied(before, intent, segments).0.wf(),
    decreases segments.len(),
{
    if segments.len() > 0 {
        lemma_segments_keep(before, intent, segments.drop_last());
        let middle = segments_applied(before, intent, segments.drop_last()).0;
        let last = (segments.len() - 1) as nat;
        lemma_segment_keeps(middle, intent, last, segments.last());
        let after = segments_applied(before, intent, segments).0;
        assert forall|i: int| 0 <= i < before.records.len() implies continues(
            #[trigger] before.records[i],
            after.records[i],
        ) by {
            assert(middle.records[i].key == before.records[i].key);
        }
        lemma_differences_add_up(before.records, middle.records, after.records, intent);
    }
}

/// Whatever intent arrives, records keep their order, the segments that they stand
/// for and what the provider has answered, no segment is recorded twice, no revision
/// goes back, and no two records go out under the same delivery id. Records of other
/// items and of newer revisions stay as they are, and new ones are appended.
pub proof fn intents_keep_the_journal(before: JournalModel, intent: DeliveryIntent, limit: int)
    ensures
        keeps_places(before.records, intent_applied(before, intent, limit).0.records),
        differ_only_by(before.records, intent_applied(before, intent, limit).0.records, intent),
        before.wf() ==> intent_applied(before, intent, limit).0.wf(),
{
    if !(intent.origin is Internal) {
        let segments = segments_of(intent.text@, limit);
        lemma_superseded(before.records, intent, segments.len() as int);
        let records = all_superseded(before.records, intent, segments.len() as int).0;
        let middle = JournalModel { records, ..before };
        if before.wf() {
            lemma_keeps_places_keeps_wf(before, middle);
        }
        lemma_segments_keep(middle, intent, segments);
        let after = intent_applied(before, intent, limit).0;
        assert forall|i: int| 0 <= i < before.records.len() implies continues(
            #[trigger] before.records[i],
            after.records[i],
        ) by {
            assert(middle.records[i].key == before.records[i].key);
        }
        lemma_differences_add_up(before.records, middle.records, after.records, intent);
    }
}

/// Whether nothing that the journal holds for the item is newer than the intent.
pub open spec fn is_newest(records: Seq<RecordModel>, intent: DeliveryIntent) -> bool {
    forall|i: int|
        0 <= i < records.len() && (#[trigger] records[i]).key == intent.key@
            && records[i].conversation_id == intent.conversation_id@ ==> records[i].revision
            <= intent.revision
}

/// Whether the journal shows `text` as a segment of the intent's item.
pub open spec fn shows_segment(
    records: Seq<RecordModel>,
    intent: DeliveryIntent,
    segment: int,
    text: Seq<char>,
) -> bool {
    let found = record_from(records, intent.conversation_id@, intent.key@, segment, 0);
    &&& found is Some
    &&& records[found->0].text == text
    &&& records[found->0].revision == intent.revision
    &&& records[found->0].committed == intent.committed
    &&& records[found->0].state !is Superseded
}

proof fn lemma_segment_shows(
    before: JournalModel,
    intent: DeliveryIntent,
    segment: nat,
    text: Seq<char>,
    other: int,
    other_text: Seq<char>,
)
    requires
        is_newest(before.records, intent),
    ensures
        ({
            let after = segment_applied(before, intent, segment, text).0;
            &&& is_newest(after.records, intent)
            &&& shows_segment(after.records, intent, segment as int, text)
            &&& other != segment && shows_segment(before.records, intent, other, other_text)
                ==> shows_segment(after.records, intent, other, other_text)
        }),
{
    let conversation_id = intent.conversation_id@;
    let key = intent.key@;
    let after = segment_applied(before, intent, segment, text).0;
    lemma_record_from(before.records, conversation_id, key, segment as int, 0);
    lemma_record_from(after.records, conversation_id, key, segment as int, 0);
    lemma_record_from(before.records, conversation_id, key, other, 0);
    lemma_record_from(after.records, conversation_id, key, other, 0);
    match record_from(before.records, conversation_id, key, segment as int, 0) {
        Some(index) => {
            assert(is_segment(after.records[index], conversation_id, key, segment as int));
            let found = record_from(after.records, conversation_id, key, segment as int, 0)->0;
            if found < index {
                assert(is_segment(before.records[found], conversation_id, key, segment as int));
            }
        },
        None => {
            let last = before.records.len() as int;
            assert(is_segment(after.records[last], conversation_id, key, segment as int));
            let found = record_from(after.records, conversation_id, key, segment as int, 0)->0;
            if found < last {
                assert(is_segment(before.records[found], conversation_id, key, segment as int));
            }
        },
    }
    if other != segment && shows_segment(before.records, intent, other, other_text) {
        let index = record_from(before.records, conversation_id, key, other, 0)->0;
        assert(is_segment(after.records[index], conversation_id, key, other));
        let found = record_from(after.records, conversation_id, key, other, 0)->0;
        if found < index {
            assert(is_segment(before.records[found], conversation_id, key, other));
        }
    }
}

proof fn lemma_segments_show(
    before: JournalModel,
    intent: DeliveryIntent,
    segments: Seq<Seq<char>>,
)
    requires
        is_newest(before.records, intent),
    ensures
        ({
            let after = segments_applied(before, intent, segments).0;
            &&& is_newest(after.records, intent)
            &&& forall|s: int|
                0 <= s < segments.len() ==> shows_segment(
                    after.records,
                    intent,
                    s,
                    #[trigger] segments[s],
                )
        }),
    decreases segments.len(),
{
    if segments.len() > 0 {
        let earlier = segments.drop_last();
        lemma_segments_show(before, intent, earlier);
        let middle = segments_applied(before, intent, earlier).0;
        let last = (segments.len() - 1) as nat;
        let after = segments_applied(before, intent, segments).0;
        lemma_segment_shows(middle, intent, last, segments.last(), last as int, segments.last());
        assert forall|s: int| 0 <= s < segments.len() implies shows_segment(
            after.records,
            intent,
            s,
            #[trigger] segments[s],
        ) by {
            if s < last {
                assert(earlier[s] == segments[s]);
                lemma_segment_shows(middle, intent, last, segments.last(), s, segments[s]);
            }
        }
    }
}

proof fn lemma_segments_leave_others(
    before: JournalModel,
    intent: DeliveryIntent,
    segments: Seq<Seq<char>>,
    index: int,
)
    requires
        0 <= index < before.records.len(),
        !(0 <= before.records[index].segment < segments.len()),
    ensures
        segments_applied(before, intent, segments).0.records.len() >= before.records.len(),
        segments_applied(before, intent, segments).0.records[index] == before.records[index],
    decreases segments.len(),
{
    if segments.len() > 0 {
        lemma_segments_leave_others(before, intent, segments.drop_last(), index);
        let middle = segments_applied(before, intent, segments.drop_last()).0;
        lemma_record_from(
            middle.records,
            intent.conversation_id@,
            intent.key@,
            segments.len() - 1,
            0,
        );
    }
}

/// The newest revision of an item wins: the journal then shows each of its
/// segments, and what the item had beyond them is superseded.
pub proof fn newest_revision_is_shown(before: JournalModel, intent: DeliveryIntent, limit: int)
    requires
        limit > 0,
        !(intent.origin is Internal),
        is_newest(before.records, intent),
    ensures
        ({
            let after = intent_applied(before, intent, limit).0;
            let segments = segments_of(intent.text@, limit);
            &&& forall|s: int|
                0 <= s < segments.len() ==> shows_segment(
                    after.records,
                    intent,
                    s,
                    #[trigger] segments[s],
                )
            &&& forall|i: int|
                0 <= i < before.records.len() && (#[trigger] before.records[i]).key == intent.key@
                    && before.records[i].conversation_id == intent.conversation_id@
                    && before.records[i].segment >= segments.len()
                    ==> after.records[i].state is Superseded
        }),
{
    let segments = segments_of(intent.text@, limit);
    lemma_superseded(before.records, intent, segments.len() as int);
    let records = all_superseded(before.records, intent, segments.len() as int).0;
    let middle = JournalModel { records, ..before };
    assert forall|i: int|
        0 <= i < records.len() && (#[trigger] records[i]).key == intent.key@
            && records[i].conversation_id == intent.conversation_id@ implies records[i].revision
        <= intent.revision by {
        assert(records[i] == superseded(before.records[i], intent, segments.len() as int));
    }
    lemma_segments_show(middle, intent, segments);
    let after = intent_applied(before, intent, limit).0;
    assert forall|i: int|
        0 <= i < before.records.len() && (#[trigger] before.records[i]).key == intent.key@
            && before.records[i].conversation_id == intent.conversation_id@
            && before.records[i].segment >= segments.len() implies after.records[i].state
        is Superseded by {
        assert(records[i] == superseded(before.records[i], intent, segments.len() as int));
        lemma_segments_leave_others(middle, intent, segments, i);
    }
}

/// A revision that is older than everything the journal holds for the item
/// changes nothing.
pub proof fn older_revisions_change_nothing(
    before: JournalModel,
    intent: DeliveryIntent,
    limit: int,
)
    requires
        forall|i: int|
            0 <= i < before.records.len() && (#[trigger] before.records[i]).key == intent.key@
                && before.records[i].conversation_id == intent.conversation_id@
                ==> before.records[i].revision > intent.revision,
        forall|s: int|
            0 <= s < segments_of(intent.text@, limit).len() ==> #[trigger] record_from(
                before.records,
                intent.conversation_id@,
                intent.key@,
                s,
                0,
            ) is Some,
    ensures
        intent_applied(before, intent, limit) == (before, 0int),
{
    let segments = segments_of(intent.text@, limit);
    lemma_none_is_stale(before.records, intent, segments.len() as int);
    assert(JournalModel { records: before.records, ..before } == before);
    lemma_older_segments_change_nothing(before, intent, segments);
}

proof fn lemma_older_segments_change_nothing(
    before: JournalModel,
    intent: DeliveryIntent,
    segments: Seq<Seq<char>>,
)
    requires
        forall|i: int|
            0 <= i < before.records.len() && (#[trigger] before.records[i]).key == intent.key@
                && before.records[i].conversation_id == intent.conversation_id@
                ==> before.records[i].revision > intent.revision,
        forall|s: int|
            0 <= s < segments.len() ==> #[trigger] record_from(
                before.records,
                intent.conversation_id@,
                intent.key@,
                s,
                0,
            ) is Some,
    ensures
        segments_applied(before, intent, segments) == (before, 0int),
    decreases segments.len(),
{
    if segments.len() > 0 {
        lemma_older_segments_change_nothing(before, intent, segments.drop_last());
        lemma_record_from(
            before.records,
            intent.conversation_id@,
            intent.key@,
            segments.len() - 1,
            0,
        );
    }
}

/// Deliveries keep their order: what is delivered next waits, is not internal, and
/// nothing that waits stands before it.
pub proof fn deliveries_keep_their_order(records: Seq<RecordModel>, now_ms: int)
    ensures
        next_pending(records, now_ms) matches Some(index) ==> {
            &&& 0 <= index < records.len()
            &&& records[index].state is Pending
            &&& !(records[index].origin is Internal)
            &&& forall|i: int| 0 <= i < index ==> !is_waiting(#[trigger] records[i])
        },
        next_pending(records, now_ms) is None ==> {
            ||| forall|i: int| 0 <= i < records.len() ==> !is_waiting(#[trigger] records[i])
            ||| exists|i: int|
                0 <= i < records.len() && is_waiting(#[trigger] records[i])
                    && records[i].next_attempt_at_ms is Some && records[i].next_attempt_at_ms->0
                    > now_ms
        },
{
    lemma_waiting_from(records, 0);
    if waiting_from(records, 0) is Some {
        assert(is_waiting(records[waiting_from(records, 0)->0]));
    }
}

/// A delivery that failed waits for its next attempt under the same identity and
/// with the same text, unless the provider has seen the identity with other
/// content: that is final.
pub proof fn failed_deliveries_keep_their_identity(
    record: RecordModel,
    error: ProviderError,
    now_ms: int,
    delay_ms: int,
)
    ensures
        ({
            let after = refused(record, error, now_ms, delay_ms);
            &&& after.delivery_id == record.delivery_id
            &&& after.text == record.text
            &&& error is IdempotencyConflict ==> !is_waiting(after)
            &&& !(error is IdempotencyConflict) ==> is_waiting(after) == is_waiting(record)
                && after.next_attempt_at_ms == Some(deadline(now_ms, delay_ms))
        }),
{
}

/// Giving a record its identity keeps the journal valid.
pub proof fn identifying_keeps_the_journal(before: JournalModel, index: int)
    requires
        before.wf(),
        0 <= index < before.records.len(),
        before.records[index].segment >= 0,
    ensures
        identified(before, index).wf(),
{
    let record = before.records[index];
    let after = identified(before, index);
    lemma_new_id_is_fresh(before, record.key, record.segment as nat);
    assert forall|i: int|
        0 <= i < after.records.len() && (#[trigger] after.records[i]).delivery_id
            is Some implies is_issued(after.records[i].delivery_id->0, after.next_delivery) by {
        if i != index {
            let id = before.records[i].delivery_id->0;
            assert(is_issued(id, before.next_delivery));
            let (number, key, other) = choose|number: nat, key: KeyModel, other: nat|
                number < before.next_delivery && id == #[trigger] delivery_id_of(
                    number,
                    key,
                    other,
                );
            assert(id == delivery_id_of(number, key, other));
        }
    }
    assert forall|i: int, j: int| 0 <= i < j < after.records.len() implies !is_segment(
        #[trigger] after.records[i],
        (#[trigger] after.records[j]).conversation_id,
        after.records[j].key,
        after.records[j].segment,
    ) by {
        assert(before.records[i].key == after.records[i].key);
        assert(before.records[j].key == after.records[j].key);
    }
    assert forall|i: int, j: int|
        0 <= i < j < after.records.len() && (#[trigger] after.records[i]).delivery_id is Some implies (
    #[trigger] after.records[j]).delivery_id != after.records[i].delivery_id by {
        assert(before.records[i].key == after.records[i].key);
        assert(before.records[j].key == after.records[j].key);
    }
}

/// A new identity is saved before it is used: turning to a record without one gives
/// it one and asks for a save, and only a save that succeeded leads on from there to
/// the provider. A record that has one is sent with the journal as it stands. What
/// was sent is acknowledged only once that is saved.
pub proof fn new_identities_are_saved_first(before: DeliveryWorker, now_ms: int, saved: bool)
    requires
        before.wf(),
    ensures
        turned_to(before, now_ms) matches (DeliveryPhase::Sending { index }, journal) ==> {
            &&& journal == before.journal@
            &&& 0 <= index < journal.records.len()
            &&& journal.records[index as int].delivery_id is Some
        },
        turned_to(before, now_ms).1 != before.journal@ ==> turned_to(before, now_ms).0
            is SavingIdentity,
        after_saving(before, saved).0 is Sending ==> saved && before.phase is SavingIdentity,
        after_saving(before, saved).1 != before.unacknowledged@ ==> saved && before.phase
            is SavingSent,
{
    lemma_waiting_from(before.journal@.records, 0);
}

/// Whether applying a segment of an intent changes nothing: the journal holds it as it
/// is, or something newer.
pub open spec fn is_settled_segment(
    records: Seq<RecordModel>,
    intent: DeliveryIntent,
    segment: int,
    text: Seq<char>,
) -> bool {
    let found = record_from(records, intent.conversation_id@, intent.key@, segment, 0);
    &&& found is Some
    &&& intent.revision < records[found->0].revision || shows_segment(
        records,
        intent,
        segment,
        text,
    )
}

proof fn lemma_segment_settles(
    before: JournalModel,
    intent: DeliveryIntent,
    segment: nat,
    text: Seq<char>,
    other: int,
    other_text: Seq<char>,
)
    ensures
        ({
            let after = segment_applied(before, intent, segment, text).0;
            &&& is_settled_segment(after.records, intent, segment as int, text)
            &&& other != segment && is_settled_segment(before.records, intent, other, other_text)
                ==> is_settled_segment(after.records, intent, other, other_text)
        }),
{
    let conversation_id = intent.conversation_id@;
    let key = intent.key@;
    let after = segment_applied(before, intent, segment, text).0;
    lemma_record_from(before.records, conversation_id, key, segment as int, 0);
    lemma_record_from(after.records, conversation_id, key, segment as int, 0);
    lemma_record_from(before.records, conversation_id, key, other, 0);
    lemma_record_from(after.records, conversation_id, key, other, 0);
    let index = match record_from(before.records, conversation_id, key, segment as int, 0) {
        Some(index) => index,
        None => before.records.len() as int,
    };
    assert(is_segment(after.records[index], conversation_id, key, segment as int));
    let found = record_from(after.records, conversation_id, key, segment as int, 0)->0;
    if found < index {
        assert(is_segment(before.records[found], conversation_id, key, segment as int));
    }
    if other != segment && is_settled_segment(before.records, intent, other, other_text) {
        let place = record_from(before.records, conversation_id, key, other, 0)->0;
        assert(is_segment(after.records[place], conversation_id, key, other));
        let at = record_from(after.records, conversation_id, key, other, 0)->0;
        if at < place {
            assert(is_segment(before.records[at], conversation_id, key, other));
        }
    }
}

proof fn lemma_segments_settle(
    before: JournalModel,
    intent: DeliveryIntent,
    segments: Seq<Seq<char>>,
)
    ensures
        forall|s: int|
            0 <= s < segments.len() ==> is_settled_segment(
                segments_applied(before, intent, segments).0.records,
                intent,
                s,
                #[trigger] segments[s],
            ),
    decreases segments.len(),
{
    if segments.len() > 0 {
        let earlier = segments.drop_last();
        lemma_segments_settle(before, intent, earlier);
        let middle = segments_applied(before, intent, earlier).0;
        let last = (segments.len() - 1) as nat;
        let after = segments_applied(before, intent, segments).0;
        lemma_segment_settles(middle, intent, last, segments.last(), last as int, segments.last());
        assert forall|s: int| 0 <= s < segments.len() implies is_settled_segment(
            after.records,
            intent,
            s,
            #[trigger] segments[s],
        ) by {
            if s < last {
                assert(earlier[s] == segments[s]);
                lemma_segment_settles(middle, intent, last, segments.last(), s, segments[s]);
            }
        }
    }
}

proof fn lemma_settled_segments_stay(
    before: JournalModel,
    intent: DeliveryIntent,
    segments: Seq<Seq<char>>,
)
    requires
        forall|s: int|
            0 <= s < segments.len() ==> is_settled_segment(
                before.records,
                intent,
                s,
                #[trigger] segments[s],
            ),
    ensures
        segments_applied(before, intent, segments) == (before, 0int),
    decreases segments.len(),
{
    if segments.len() > 0 {
        let earlier = segments.drop_last();
        assert forall|s: int| 0 <= s < earlier.len() implies is_settled_segment(
            before.records,
            intent,
            s,
            #[trigger] earlier[s],
        ) by {
            assert(earlier[s] == segments[s]);
        }
        lemma_settled_segments_stay(before, intent, earlier);
        let last = segments.len() - 1;
        assert(is_settled_segment(before.records, intent, last, segments[last]));
    }
}

proof fn lemma_none_is_stale(records: Seq<RecordModel>, intent: DeliveryIntent, count: int)
    requires
        forall|i: int| 0 <= i < records.len() ==> !is_stale(#[trigger] records[i], intent, count),
    ensures
        all_superseded(records, intent, count) == (records, 0int),
    decreases records.len(),
{
    if records.len() > 0 {
        let earlier = records.drop_last();
        assert forall|i: int| 0 <= i < earlier.len() implies !is_stale(
            #[trigger] earlier[i],
            intent,
            count,
        ) by {
            assert(earlier[i] == records[i]);
        }
        lemma_none_is_stale(earlier, intent, count);
        assert(records.last() == records[records.len() - 1]);
        assert(earlier.push(records.last()) =~= records);
    }
}

proof fn lemma_segments_are_not_stale(
    before: JournalModel,
    intent: DeliveryIntent,
    segments: Seq<Seq<char>>,
    count: int,
)
    requires
        segments.len() <= count,
        forall|i: int|
            0 <= i < before.records.len() ==> !is_stale(
                #[trigger] before.records[i],
                intent,
                count,
            ),
    ensures
        ({
            let after = segments_applied(before, intent, segments).0;
            forall|i: int|
                0 <= i < after.records.len() ==> !is_stale(
                    #[trigger] after.records[i],
                    intent,
                    count,
                )
        }),
    decreases segments.len(),
{
    if segments.len() > 0 {
        lemma_segments_are_not_stale(before, intent, segments.drop_last(), count);
        let middle = segments_applied(before, intent, segments.drop_last()).0;
        lemma_record_from(
            middle.records,
            intent.conversation_id@,
            intent.key@,
            segments.len() - 1,
            0,
        );
    }
}

/// An intent that arrives again changes nothing more.
pub proof fn repeated_intents_change_nothing(
    before: JournalModel,
    intent: DeliveryIntent,
    limit: int,
)
    ensures
        ({
            let after = intent_applied(before, intent, limit).0;
            intent_applied(after, intent, limit) == (after, 0int)
        }),
{
    if !(intent.origin is Internal) {
        let segments = segments_of(intent.text@, limit);
        let count = segments.len() as int;
        lemma_superseded(before.records, intent, count);
        let records = all_superseded(before.records, intent, count).0;
        let middle = JournalModel { records, ..before };
        assert forall|i: int| 0 <= i < records.len() implies !is_stale(
            #[trigger] records[i],
            intent,
            count,
        ) by {
            assert(records[i] == superseded(before.records[i], intent, count));
        }
        lemma_segments_are_not_stale(middle, intent, segments, count);
        lemma_segments_settle(middle, intent, segments);
        let after = intent_applied(before, intent, limit).0;
        lemma_none_is_stale(after.records, intent, count);
        assert(JournalModel { records: after.records, ..after } == after);
        lemma_settled_segments_stay(after, intent, segments);
    }
}

} // verus!
