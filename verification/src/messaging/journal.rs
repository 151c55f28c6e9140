//! The durable queue of what a provider is to show.

use crate::text::decimal;
use crate::text::decimal_of;
use crate::text::same_text;
use crate::text::texts;
use crate::transcript::EntryOrigin;
use crate::transcript::KeyModel;
use crate::transcript::TranscriptKey;
use super::model::segment_text;
use super::model::segments_of;
use super::model::DeliveryIntent;
use super::model::ProviderConversationId;
use super::model::ProviderDeliveryId;
use super::model::ProviderMessageId;
use vstd::prelude::*;

verus! {

/// Delivery state persisted for a segment.
#[derive(Debug, Clone, Copy, PartialEq, Eq, Structural)]
pub enum DeliveryState {
    Pending,
    Sent,
    /// A newer revision of the item no longer has the segment.
    Superseded,
    /// The provider will never accept the segment in this form.
    FailedPermanent,
}

/// Durable state for one provider segment.
#[derive(Debug, PartialEq, Eq)]
pub struct DeliveryRecord {
    pub conversation_id: ProviderConversationId,
    pub generation: u64,
    pub key: TranscriptKey,
    pub origin: EntryOrigin,
    pub segment: usize,
    pub text: String,
    pub revision: u64,
    pub committed: bool,
    pub state: DeliveryState,
    pub provider_message_id: Option<ProviderMessageId>,
    pub attempts: u32,
    /// How many revisions were folded into the segment after its first one.
    pub coalesced_revisions: u64,
    /// The segment waits until this time, where it is set.
    pub next_attempt_at_ms: Option<u64>,
    /// The identity under which the segment is sent.
    pub delivery_id: Option<ProviderDeliveryId>,
}

/// What a `DeliveryRecord` holds.
#[verifier::ext_equal]
pub struct RecordModel {
    pub conversation_id: Seq<char>,
    pub generation: int,
    pub key: KeyModel,
    pub origin: EntryOrigin,
    pub segment: int,
    pub text: Seq<char>,
    pub revision: int,
    pub committed: bool,
    pub state: DeliveryState,
    pub provider_message_id: Option<Seq<char>>,
    pub attempts: int,
    pub coalesced_revisions: int,
    pub next_attempt_at_ms: Option<int>,
    pub delivery_id: Option<Seq<char>>,
}

/// A record as it is read. What old journals do not have may be missing.
#[derive(Debug, PartialEq, Eq)]
pub struct StoredRecord {
    pub conversation_id: ProviderConversationId,
    pub generation: Option<u64>,
    pub key: TranscriptKey,
    pub origin: EntryOrigin,
    pub segment: usize,
    pub text: String,
    pub revision: u64,
    pub committed: bool,
    pub state: DeliveryState,
    pub provider_message_id: Option<ProviderMessageId>,
    pub attempts: u32,
    pub coalesced_revisions: Option<u64>,
    pub next_attempt_at_ms: Option<u64>,
    pub delivery_id: Option<ProviderDeliveryId>,
}

/// The count of an optional field: none where it is missing.
pub open spec fn or_none(count: Option<u64>) -> int {
    match count {
        Some(count) => count as int,
        None => 0,
    }
}

impl StoredRecord {
    /// What the record holds, with the defaults for what is missing.
    pub open spec fn model(self) -> RecordModel {
        RecordModel {
            conversation_id: self.conversation_id@,
            generation: or_none(self.generation),
            key: self.key@,
            origin: self.origin,
            segment: self.segment as int,
            text: self.text@,
            revision: self.revision as int,
            committed: self.committed,
            state: self.state,
            provider_message_id: message_id_text(self.provider_message_id),
            attempts: self.attempts as int,
            coalesced_revisions: or_none(self.coalesced_revisions),
            next_attempt_at_ms: match self.next_attempt_at_ms {
                Some(time) => Some(time as int),
                None => None,
            },
            delivery_id: delivery_id_text(self.delivery_id),
        }
    }

    /// The record, with the defaults for what is missing.
    pub fn restore(self) -> (record: DeliveryRecord)
        ensures
            record@ == self.model(),
    {
        DeliveryRecord {
            conversation_id: self.conversation_id,
            generation: match self.generation {
                Some(count) => count,
                None => 0,
            },
            key: self.key,
            origin: self.origin,
            segment: self.segment,
            text: self.text,
            revision: self.revision,
            committed: self.committed,
            state: self.state,
            provider_message_id: self.provider_message_id,
            attempts: self.attempts,
            coalesced_revisions: match self.coalesced_revisions {
                Some(count) => count,
                None => 0,
            },
            next_attempt_at_ms: self.next_attempt_at_ms,
            delivery_id: self.delivery_id,
        }
    }
}

/// What an optional provider message id holds.
pub open spec fn message_id_text(id: Option<ProviderMessageId>) -> Option<Seq<char>> {
    match id {
        Some(id) => Some(id@),
        None => None,
    }
}

/// What an optional delivery id holds.
pub open spec fn delivery_id_text(id: Option<ProviderDeliveryId>) -> Option<Seq<char>> {
    match id {
        Some(id) => Some(id@),
        None => None,
    }
}

impl View for DeliveryRecord {
    type V = RecordModel;

    open spec fn view(&self) -> RecordModel {
        RecordModel {
            conversation_id: self.conversation_id@,
            generation: self.generation as int,
            key: self.key@,
            origin: self.origin,
            segment: self.segment as int,
            text: self.text@,
            revision: self.revision as int,
            committed: self.committed,
            state: self.state,
            provider_message_id: message_id_text(self.provider_message_id),
            attempts: self.attempts as int,
            coalesced_revisions: self.coalesced_revisions as int,
            next_attempt_at_ms: match self.next_attempt_at_ms {
                Some(time) => Some(time as int),
                None => None,
            },
            delivery_id: delivery_id_text(self.delivery_id),
        }
    }
}

impl Clone for DeliveryRecord {
    fn clone(&self) -> (copy: Self)
        ensures
            copy@ == self@,
    {
        DeliveryRecord {
            conversation_id: self.conversation_id.clone(),
            generation: self.generation,
            key: self.key.clone(),
            origin: self.origin,
            segment: self.segment,
            text: self.text.clone(),
            revision: self.revision,
            committed: self.committed,
            state: self.state,
            provider_message_id: match &self.provider_message_id {
                Some(id) => Some(id.clone()),
                None => None,
            },
            attempts: self.attempts,
            coalesced_revisions: self.coalesced_revisions,
            next_attempt_at_ms: self.next_attempt_at_ms,
            delivery_id: match &self.delivery_id {
                Some(id) => Some(id.clone()),
                None => None,
            },
        }
    }
}

/// A bounded, serializable delivery journal.
#[derive(Debug, PartialEq, Eq)]
pub struct DeliveryJournal {
    pub records: Vec<DeliveryRecord>,
    /// The number that the next delivery id gets.
    pub next_delivery: u64,
}

/// What a `DeliveryJournal` holds.
#[verifier::ext_equal]
pub struct JournalModel {
    pub records: Seq<RecordModel>,
    pub next_delivery: int,
}

/// What a list of records holds.
pub open spec fn record_models(records: Seq<DeliveryRecord>) -> Seq<RecordModel> {
    records.map_values(|record: DeliveryRecord| record@)
}

impl View for DeliveryJournal {
    type V = JournalModel;

    open spec fn view(&self) -> JournalModel {
        JournalModel {
            records: record_models(self.records@),
            next_delivery: self.next_delivery as int,
        }
    }
}

impl Clone for DeliveryJournal {
    fn clone(&self) -> (copy: Self)
        ensures
            copy@ == self@,
    {
        let mut records: Vec<DeliveryRecord> = Vec::new();
        let mut index: usize = 0;
        while index < self.records.len()
            invariant
                index <= self.records@.len(),
                records@.len() == index,
                forall|i: int| 0 <= i < index ==> (#[trigger] records@[i])@ == self.records@[i]@,
            decreases self.records@.len() - index,
        {
            let record = self.records[index].clone();
            records.push(record);
            index += 1;
        }
        assert(record_models(records@) =~= record_models(self.records@));
        DeliveryJournal { records, next_delivery: self.next_delivery }
    }
}

impl Default for DeliveryJournal {
    fn default() -> (journal: Self)
        ensures
            journal@ == (JournalModel { records: Seq::empty(), next_delivery: 0 }),
    {
        let journal = DeliveryJournal { records: Vec::new(), next_delivery: 0 };
        assert(journal@.records =~= Seq::empty());
        journal
    }
}

/// Whether a record stands for a segment of an item in a conversation.
pub open spec fn is_segment(
    record: RecordModel,
    conversation_id: Seq<char>,
    key: KeyModel,
    segment: int,
) -> bool {
    record.key == key && record.segment == segment && record.conversation_id == conversation_id
}

/// The first record from `from` on that stands for the segment.
pub open spec fn record_from(
    records: Seq<RecordModel>,
    conversation_id: Seq<char>,
    key: KeyModel,
    segment: int,
    from: int,
) -> Option<int>
    decreases records.len() - from,
{
    if from < 0 || from >= records.len() {
        None
    } else if is_segment(records[from], conversation_id, key, segment) {
        Some(from)
    } else {
        record_from(records, conversation_id, key, segment, from + 1)
    }
}

/// A delivery id: a number of its own, then the segment that it was given to.
pub open spec fn delivery_id_of(number: nat, key: KeyModel, segment: nat) -> Seq<char> {
    decimal_of(number) + ":"@ + key.thread_id + "/"@ + key.turn_id + "/"@ + key.item_id + "/"@
        + decimal_of(segment)
}

/// One more, within a `u64`.
pub open spec fn one_more(count: int) -> int {
    if count < u64::MAX {
        count + 1
    } else {
        count
    }
}

/// Whether a changed record is still the delivery that it was: a send that the
/// provider has answered is not.
pub open spec fn still_same_delivery(record: RecordModel) -> bool {
    record.state is Pending || (record.state is Superseded && record.provider_message_id is None)
}

/// A record with the content of a newer revision.
pub open spec fn revised(
    record: RecordModel,
    intent: DeliveryIntent,
    text: Seq<char>,
) -> RecordModel {
    RecordModel {
        text,
        revision: intent.revision as int,
        committed: intent.committed,
        generation: intent.generation as int,
        state: DeliveryState::Pending,
        coalesced_revisions: one_more(record.coalesced_revisions),
        next_attempt_at_ms: None,
        delivery_id: if still_same_delivery(record) {
            record.delivery_id
        } else {
            None
        },
        ..record
    }
}

/// A record for a segment that appears for the first time.
pub open spec fn created(
    intent: DeliveryIntent,
    segment: nat,
    text: Seq<char>,
    number: nat,
) -> RecordModel {
    RecordModel {
        conversation_id: intent.conversation_id@,
        generation: intent.generation as int,
        key: intent.key@,
        origin: intent.origin,
        segment: segment as int,
        text,
        revision: intent.revision as int,
        committed: intent.committed,
        state: DeliveryState::Pending,
        provider_message_id: None,
        attempts: 0,
        coalesced_revisions: 0,
        next_attempt_at_ms: None,
        delivery_id: Some(delivery_id_of(number, intent.key@, segment)),
    }
}

/// A journal after one segment of an intent, and how many records changed.
pub open spec fn segment_applied(
    before: JournalModel,
    intent: DeliveryIntent,
    segment: nat,
    text: Seq<char>,
) -> (JournalModel, int) {
    match record_from(before.records, intent.conversation_id@, intent.key@, segment as int, 0) {
        Some(index) => {
            let record = before.records[index];
            if intent.revision < record.revision || (record.text == text && record.revision
                == intent.revision && record.committed == intent.committed
                && record.state !is Superseded) {
                (before, 0)
            } else {
                (
                    JournalModel {
                        records: before.records.update(index, revised(record, intent, text)),
                        ..before
                    },
                    1,
                )
            }
        },
        None => (
            JournalModel {
                records: before.records.push(
                    created(intent, segment, text, before.next_delivery as nat),
                ),
                next_delivery: before.next_delivery + 1,
            },
            1,
        ),
    }
}

/// A journal after the segments of an intent, in order.
pub open spec fn segments_applied(
    before: JournalModel,
    intent: DeliveryIntent,
    segments: Seq<Seq<char>>,
) -> (JournalModel, int)
    decreases segments.len(),
{
    if segments.len() == 0 {
        (before, 0)
    } else {
        let (middle, changed) = segments_applied(before, intent, segments.drop_last());
        let (after, more) = segment_applied(
            middle,
            intent,
            (segments.len() - 1) as nat,
            segments.last(),
        );
        (after, changed + more)
    }
}

/// Whether a record stands for a segment that a revision with `count` segments no
/// longer has.
pub open spec fn is_stale(record: RecordModel, intent: DeliveryIntent, count: int) -> bool {
    record.key == intent.key@ && record.conversation_id == intent.conversation_id@ && record.segment
        >= count && record.revision <= intent.revision && record.state !is Superseded
}

/// A record after a revision with `count` segments.
pub open spec fn superseded(record: RecordModel, intent: DeliveryIntent, count: int) -> RecordModel {
    if is_stale(record, intent, count) {
        RecordModel {
            state: DeliveryState::Superseded,
            revision: intent.revision as int,
            ..record
        }
    } else {
        record
    }
}

/// The records after a revision with `count` segments, and how many changed.
pub open spec fn all_superseded(
    records: Seq<RecordModel>,
    intent: DeliveryIntent,
    count: int,
) -> (Seq<RecordModel>, int)
    decreases records.len(),
{
    if records.len() == 0 {
        (records, 0)
    } else {
        let (earlier, changed) = all_superseded(records.drop_last(), intent, count);
        (
            earlier.push(superseded(records.last(), intent, count)),
            changed + if is_stale(records.last(), intent, count) {
                1int
            } else {
                0
            },
        )
    }
}

/// A journal after an intent, and how many records changed. What is internal is
/// never taken up.
pub open spec fn intent_applied(before: JournalModel, intent: DeliveryIntent, limit: int) -> (
    JournalModel,
    int,
) {
    if intent.origin is Internal {
        (before, 0)
    } else {
        let segments = segments_of(intent.text@, limit);
        let (records, stale) = all_superseded(before.records, intent, segments.len() as int);
        let (after, changed) = segments_applied(
            JournalModel { records, ..before },
            intent,
            segments,
        );
        (after, stale + changed)
    }
}

/// Whether a record is waiting for the provider.
pub open spec fn is_waiting(record: RecordModel) -> bool {
    record.state is Pending && record.origin !is Internal
}

/// The first record from `from` on that is waiting for the provider.
pub open spec fn waiting_from(records: Seq<RecordModel>, from: int) -> Option<int>
    decreases records.len() - from,
{
    if from < 0 || from >= records.len() {
        None
    } else if is_waiting(records[from]) {
        Some(from)
    } else {
        waiting_from(records, from + 1)
    }
}

/// What is found waits, and nothing before it does.
pub proof fn lemma_waiting_from(records: Seq<RecordModel>, from: int)
    requires
        0 <= from,
    ensures
        match waiting_from(records, from) {
            Some(index) => from <= index < records.len() && is_waiting(records[index]) && forall|
                i: int,
            |
                from <= i < index ==> !is_waiting(#[trigger] records[i]),
            None => forall|i: int| from <= i < records.len() ==> !is_waiting(#[trigger] records[i]),
        },
    decreases records.len() - from,
{
    if from < records.len() && !is_waiting(records[from]) {
        lemma_waiting_from(records, from + 1);
    }
}

/// The record to deliver next: the first that waits, once its time has come. What
/// stands behind it waits for it.
pub open spec fn next_pending(records: Seq<RecordModel>, now_ms: int) -> Option<int> {
    match waiting_from(records, 0) {
        Some(index) => match records[index].next_attempt_at_ms {
            Some(time) => if time <= now_ms {
                Some(index)
            } else {
                None
            },
            None => Some(index),
        },
        None => None,
    }
}

/// The delivery id with the given number for a segment.
pub fn numbered_delivery_id(number: u64, key: &TranscriptKey, segment: usize) -> (id:
    ProviderDeliveryId)
    ensures
        id@ == delivery_id_of(number as nat, key@, segment as nat),
{
    let mut value = decimal(number);
    value.append(":");
    value.append(key.thread_id.as_str());
    value.append("/");
    value.append(key.turn_id.as_str());
    value.append("/");
    value.append(key.item_id.as_str());
    value.append("/");
    let digits = decimal(segment as u64);
    value.append(digits.as_str());
    ProviderDeliveryId { value }
}

impl DeliveryJournal {
    /// Where the record of a segment stands.
    fn position(
        &self,
        conversation_id: &ProviderConversationId,
        key: &TranscriptKey,
        segment: usize,
    ) -> (found: Option<usize>)
        ensures
            match found {
                Some(index) => record_from(
                    self@.records,
                    conversation_id@,
                    key@,
                    segment as int,
                    0,
                ) == Some(index as int) && index < self.records@.len(),
                None => record_from(
                    self@.records,
                    conversation_id@,
                    key@,
                    segment as int,
                    0,
                ) is None,
            },
    {
        let mut index: usize = 0;
        while index < self.records.len()
            invariant
                index <= self.records@.len(),
                record_from(self@.records, conversation_id@, key@, segment as int, 0)
                    == record_from(
                    self@.records,
                    conversation_id@,
                    key@,
                    segment as int,
                    index as int,
                ),
            decreases self.records@.len() - index,
        {
            let record = &self.records[index];
            assert(self@.records[index as int] == record@);
            if record.key.same(key) && record.segment == segment && same_text(
                record.conversation_id.as_str(),
                conversation_id.as_str(),
            ) {
                return Some(index);
            }
            index += 1;
        }
        None
    }

    /// Takes up one segment of an intent.
    fn apply_segment(&mut self, intent: &DeliveryIntent, segment: usize, text: String) -> (changed:
        usize)
        requires
            old(self).next_delivery < u64::MAX,
        ensures
            (final(self)@, changed as int) == segment_applied(
                old(self)@,
                *intent,
                segment as nat,
                text@,
            ),
            changed <= 1,
    {
        match self.position(&intent.conversation_id, &intent.key, segment) {
            Some(index) => {
                let record = &self.records[index];
                assert(self@.records[index as int] == record@);
                if intent.revision < record.revision {
                    return 0;
                }
                if same_text(record.text.as_str(), text.as_str()) && record.revision
                    == intent.revision && record.committed == intent.committed && record.state
                    != DeliveryState::Superseded {
                    return 0;
                }
                let mut changed = record.clone();
                let keeps_id = record.state == DeliveryState::Pending || (record.state
                    == DeliveryState::Superseded && record.provider_message_id.is_none());
                if !keeps_id {
                    changed.delivery_id = None;
                }
                changed.text = text;
                changed.revision = intent.revision;
                changed.committed = intent.committed;
                changed.generation = intent.generation;
                changed.state = DeliveryState::Pending;
                changed.coalesced_revisions = changed.coalesced_revisions.saturating_add(1);
                changed.next_attempt_at_ms = None;
                let ghost revision = changed@;
                self.records.set(index, changed);
                proof {
                    assert(revision =~= revised(
                        old(self)@.records[index as int],
                        *intent,
                        text@,
                    ));
                    assert(self@.records =~= old(self)@.records.update(index as int, revision));
                }
                1
            },
            None => {
                let record = DeliveryRecord {
                    conversation_id: intent.conversation_id.clone(),
                    generation: intent.generation,
                    key: intent.key.clone(),
                    origin: intent.origin,
                    segment,
                    text,
                    revision: intent.revision,
                    committed: intent.committed,
                    state: DeliveryState::Pending,
                    provider_message_id: None,
                    attempts: 0,
                    coalesced_revisions: 0,
                    next_attempt_at_ms: None,
                    delivery_id: Some(
                        numbered_delivery_id(self.next_delivery, &intent.key, segment),
                    ),
                };
                self.next_delivery = self.next_delivery + 1;
                self.records.push(record);
                proof {
                    assert(self@.records =~= old(self)@.records.push(record@));
                }
                1
            },
        }
    }

    /// Marks the segments that a revision with `count` segments no longer has.
    fn supersede(&mut self, intent: &DeliveryIntent, count: usize) -> (changed: usize)
        ensures
            final(self).next_delivery == old(self).next_delivery,
            (final(self)@.records, changed as int) == all_superseded(
                old(self)@.records,
                *intent,
                count as int,
            ),
            final(self).records@.len() == old(self).records@.len(),
            changed <= old(self).records@.len(),
    {
        let mut changed: usize = 0;
        let mut index: usize = 0;
        let total: usize = self.records.len();
        let ghost models = self@.records;
        assert(models.take(0) =~= Seq::<RecordModel>::empty());
        assert(self@.records.take(0) =~= Seq::<RecordModel>::empty());
        while index < total
            invariant
                models == old(self)@.records,
                index <= total == self.records@.len() == models.len(),
                changed <= index,
                self.next_delivery == old(self).next_delivery,
                (self@.records.take(index as int), changed as int) == all_superseded(
                    models.take(index as int),
                    *intent,
                    count as int,
                ),
                forall|i: int| index <= i < total ==> #[trigger] self@.records[i] == models[i],
            decreases total - index,
        {
            let ghost before = self@.records;
            let record = &self.records[index];
            assert(self@.records[index as int] == record@);
            if record.key.same(&intent.key) && same_text(
                record.conversation_id.as_str(),
                intent.conversation_id.as_str(),
            ) && record.segment >= count && record.revision <= intent.revision && record.state
                != DeliveryState::Superseded {
                let mut stale = record.clone();
                stale.state = DeliveryState::Superseded;
                stale.revision = intent.revision;
                self.records.set(index, stale);
                assert(self@.records =~= before.update(index as int, stale@));
                changed += 1;
            }
            proof {
                let longer = models.take(index + 1);
                assert(longer.drop_last() =~= models.take(index as int));
                assert(longer.last() == models[index as int]);
                assert(self@.records.take(index + 1) =~= before.take(index as int).push(
                    superseded(models[index as int], *intent, count as int),
                ));
            }
            index += 1;
        }
        assert(models.take(total as int) =~= models);
        assert(self@.records.take(total as int) =~= self@.records);
        changed
    }

    /// Takes up a revision of an item: its segments replace what the journal holds
    /// for the item, unless that is newer. Returns how many records changed.
    pub fn apply(&mut self, intent: DeliveryIntent, message_limit: usize) -> (changed: usize)
        requires
            message_limit > 0,
            old(self).next_delivery + segments_of(intent.text@, message_limit as int).len()
                <= u64::MAX,
            old(self).records@.len() + segments_of(intent.text@, message_limit as int).len()
                <= usize::MAX,
        ensures
            (final(self)@, changed as int) == intent_applied(
                old(self)@,
                intent,
                message_limit as int,
            ),
    {
        if intent.origin == EntryOrigin::Internal {
            return 0;
        }
        let segments = segment_text(intent.text.as_str(), message_limit);
        let total: usize = segments.len();
        assert(texts(segments@).len() == total);
        let mut changed: usize = self.supersede(&intent, total);
        let ghost stale = changed as int;
        let ghost middle = self@;
        assert(middle =~= (JournalModel { records: middle.records, ..old(self)@ }));
        assert(texts(segments@).take(0) =~= Seq::<Seq<char>>::empty());
        let mut index: usize = 0;
        while index < total
            invariant
                index <= total == segments@.len(),
                changed <= old(self).records@.len() + index,
                old(self).records@.len() + total <= usize::MAX,
                old(self).next_delivery + total <= u64::MAX,
                self.next_delivery <= old(self).next_delivery + index,
                (self@, changed - stale) == segments_applied(
                    middle,
                    intent,
                    texts(segments@).take(index as int),
                ),
            decreases total - index,
        {
            let text = segments[index].clone();
            let more: usize = self.apply_segment(&intent, index, text);
            proof {
                let longer = texts(segments@).take(index + 1);
                assert(longer.drop_last() =~= texts(segments@).take(index as int));
                assert(longer.last() == text@);
            }
            changed += more;
            index += 1;
        }
        assert(texts(segments@).take(total as int) =~= texts(segments@));
        changed
    }

    /// The record to deliver next, if its time has come.
    pub fn next_pending_index(&self, now_ms: u64) -> (found: Option<usize>)
        ensures
            match found {
                Some(index) => next_pending(self@.records, now_ms as int) == Some(index as int)
                    && index < self.records@.len(),
                None => next_pending(self@.records, now_ms as int) is None,
            },
    {
        let mut index: usize = 0;
        while index < self.records.len()
            invariant
                index <= self.records@.len(),
                waiting_from(self@.records, 0) == waiting_from(self@.records, index as int),
            decreases self.records@.len() - index,
        {
            let record = &self.records[index];
            assert(self@.records[index as int] == record@);
            if record.state == DeliveryState::Pending && record.origin != EntryOrigin::Internal {
                match record.next_attempt_at_ms {
                    Some(time) => {
                        if time <= now_ms {
                            return Some(index);
                        }
                        return None;
                    },
                    None => {
                        return Some(index);
                    },
                }
            }
            index += 1;
        }
        None
    }
}

} // verus!
