//! What holds of a projection, whatever notifications arrive.

use crate::protocol::item_models;
use crate::protocol::ItemModel;
use crate::protocol::ServerNotification;
use super::model::EntryModel;
use super::model::EntryOrigin;
use super::model::EventModel;
use super::model::KeyModel;
use super::model::NoticeModel;
use super::projector::applied;
use super::projector::classified;
use super::projector::entry_of;
use super::projector::error_notice;
use super::projector::key_of;
use super::projector::lemma_entry_from;
use super::projector::reconciled;
use super::projector::recorded;
use super::projector::shown;
use super::projector::started_item;
use super::projector::with_error;
use super::projector::ProjectorModel;
use vstd::prelude::*;

verus! {

/// How one state of a projection may follow another: entries keep their place,
/// their key and their origin, a committed entry stays committed, no revision goes
/// back, and the options stand.
pub open spec fn continues(before: ProjectorModel, after: ProjectorModel) -> bool {
    &&& after.options == before.options
    &&& before.next_revision <= after.next_revision
    &&& before.entries.len() <= after.entries.len()
    &&& forall|i: int|
        0 <= i < before.entries.len() ==> {
            let earlier = #[trigger] before.entries[i];
            let later = after.entries[i];
            &&& later.key == earlier.key
            &&& later.origin == earlier.origin
            &&& earlier.committed ==> later.committed
            &&& later == earlier || later.revision > before.next_revision
        }
}

/// An event shows nothing of a category that is left out, and an entry that it
/// carries has a revision between the two states.
pub open spec fn fresh(before: ProjectorModel, after: ProjectorModel, event: EventModel) -> bool {
    match event {
        EventModel::Entry(entry) => shown(before.options, entry.item) && before.next_revision
            < entry.revision <= after.next_revision,
        _ => true,
    }
}

/// Whether each of the events is fresh.
pub open spec fn all_fresh(
    before: ProjectorModel,
    after: ProjectorModel,
    events: Seq<EventModel>,
) -> bool {
    forall|i: int| 0 <= i < events.len() ==> fresh(before, after, #[trigger] events[i])
}

proof fn lemma_recorded_continues(
    before: ProjectorModel,
    key: KeyModel,
    item: ItemModel,
    committed: bool,
)
    ensures
        ({
            let (after, events) = recorded(before, key, item, committed);
            continues(before, after) && all_fresh(before, after, events)
        }),
{
    lemma_entry_from(before.entries, key, 0);
}

proof fn lemma_reconciled_continues(
    before: ProjectorModel,
    thread_id: Seq<char>,
    turn_id: Seq<char>,
    items: Seq<ItemModel>,
)
    ensures
        ({
            let (after, events) = reconciled(before, thread_id, turn_id, items);
            continues(before, after) && all_fresh(before, after, events)
        }),
    decreases items.len(),
{
    if items.len() > 0 {
        let earlier = items.drop_last();
        lemma_reconciled_continues(before, thread_id, turn_id, earlier);
        let (middle, events) = reconciled(before, thread_id, turn_id, earlier);
        let item = items.last();
        let key = key_of(thread_id, turn_id, item.id());
        lemma_recorded_continues(middle, key, item, true);
        let (after, more) = recorded(middle, key, item, true);
        assert forall|i: int| 0 <= i < (events + more).len() implies fresh(
            before,
            after,
            #[trigger] (events + more)[i],
        ) by {
            if i < events.len() {
                assert(fresh(before, middle, events[i]));
            } else {
                assert(fresh(middle, after, more[i - events.len()]));
            }
        }
        assert forall|i: int| 0 <= i < before.entries.len() implies {
            let earlier = #[trigger] before.entries[i];
            let later = after.entries[i];
            &&& later.key == earlier.key
            &&& later.origin == earlier.origin
            &&& earlier.committed ==> later.committed
            &&& later == earlier || later.revision > before.next_revision
        } by {
            assert(middle.entries[i].key == before.entries[i].key);
        }
    }
}

/// Whatever notification arrives, entries stay in the order in which their items
/// first appeared, a committed entry stays committed, and every entry that is
/// handed on carries a fresh revision and belongs to a category that is let
/// through.
pub proof fn notifications_continue_the_transcript(
    before: ProjectorModel,
    notification: ServerNotification,
)
    ensures
        ({
            let (after, events) = applied(before, notification);
            continues(before, after) && all_fresh(before, after, events)
        }),
{
    assert forall|key: KeyModel, item: ItemModel, committed: bool|
        {
            let (after, events) = #[trigger] recorded(before, key, item, committed);
            continues(before, after) && all_fresh(before, after, events)
        } by {
        lemma_recorded_continues(before, key, item, committed);
    }
    match notification {
        ServerNotification::TurnCompleted(completed) => {
            lemma_reconciled_continues(
                before,
                completed.thread_id@,
                completed.turn.id@,
                item_models(completed.turn.items@),
            );
            let (middle, events) = reconciled(
                before,
                completed.thread_id@,
                completed.turn.id@,
                item_models(completed.turn.items@),
            );
            match completed.turn.error {
                Some(error) => {
                    let notice = error_notice(
                        completed.thread_id@,
                        completed.turn.id@,
                        error.message@,
                    );
                    let (after, more) = with_error(middle, notice);
                    assert forall|i: int| 0 <= i < (events + more).len() implies fresh(
                        before,
                        after,
                        #[trigger] (events + more)[i],
                    ) by {
                        if i < events.len() {
                            assert(fresh(before, middle, events[i]));
                        } else {
                            assert(more[i - events.len()] is Notice);
                        }
                    }
                },
                None => {},
            }
        },
        _ => {},
    }
}

/// An update that is not final never changes a committed entry: what streams late
/// is dropped.
pub proof fn late_updates_leave_committed_entries(
    before: ProjectorModel,
    key: KeyModel,
    item: ItemModel,
)
    requires
        entry_of(before.entries, key) is Some,
        before.entries[entry_of(before.entries, key)->0].committed,
    ensures
        recorded(before, key, item, false) == (before, Seq::<EventModel>::empty()),
{
}

/// A late start leaves what has streamed for an assistant message: only the phase
/// can change by it.
pub proof fn starting_keeps_streamed_text(
    before: ProjectorModel,
    key: KeyModel,
    started: ItemModel,
)
    requires
        entry_of(before.entries, key) matches Some(index) && before.entries[index].item
            is AgentMessage,
        started matches ItemModel::AgentMessage { text, .. } && text.len() == 0,
    ensures
        ({
            let held = before.entries[entry_of(before.entries, key)->0].item;
            let item = started_item(before, key, started);
            &&& item is AgentMessage
            &&& item->AgentMessage_text == held->AgentMessage_text
            &&& item->AgentMessage_phase == started->AgentMessage_phase
        }),
{
}

/// Whether an item already stands in a projection in its final form.
pub open spec fn settled(
    state: ProjectorModel,
    thread_id: Seq<char>,
    turn_id: Seq<char>,
    item: ItemModel,
) -> bool {
    shown(state.options, item) ==> {
        let found = entry_of(state.entries, key_of(thread_id, turn_id, item.id()));
        &&& found is Some
        &&& state.entries[found->0].item == item
        &&& state.entries[found->0].committed
    }
}

proof fn lemma_recording_settles(
    before: ProjectorModel,
    thread_id: Seq<char>,
    turn_id: Seq<char>,
    item: ItemModel,
    other: ItemModel,
)
    requires
        item.id() == other.id() ==> item == other,
    ensures
        ({
            let after = recorded(before, key_of(thread_id, turn_id, item.id()), item, true).0;
            &&& settled(after, thread_id, turn_id, item)
            &&& settled(before, thread_id, turn_id, other) ==> settled(
                after,
                thread_id,
                turn_id,
                other,
            )
        }),
{
    let key = key_of(thread_id, turn_id, item.id());
    let other_key = key_of(thread_id, turn_id, other.id());
    let after = recorded(before, key, item, true).0;
    lemma_entry_from(before.entries, key, 0);
    lemma_entry_from(before.entries, other_key, 0);
    lemma_entry_from(after.entries, key, 0);
    lemma_entry_from(after.entries, other_key, 0);
    if shown(before.options, item) {
        match entry_of(before.entries, key) {
            Some(index) => {
                assert(after.entries[index].key == key);
                let found = entry_of(after.entries, key)->0;
                if found < index {
                    assert(before.entries[found].key == key);
                }
            },
            None => {
                let last = before.entries.len() as int;
                assert(after.entries[last].key == key);
                let found = entry_of(after.entries, key)->0;
                if found < last {
                    assert(before.entries[found].key == key);
                }
            },
        }
    }
    if shown(before.options, other) && entry_of(before.entries, other_key) is Some {
        let index = entry_of(before.entries, other_key)->0;
        assert(after.entries[index].key == other_key);
        let found = entry_of(after.entries, other_key)->0;
        if found < index {
            assert(before.entries[found].key == other_key);
        }
        assert(other_key == key ==> other.id() == item.id());
    }
}

/// The items of a turn have identities of their own.
pub open spec fn distinct_ids(items: Seq<ItemModel>) -> bool {
    forall|i: int, j: int|
        0 <= i < j < items.len() ==> (#[trigger] items[i]).id() != (#[trigger] items[j]).id()
}

proof fn lemma_reconciling_settles(
    before: ProjectorModel,
    thread_id: Seq<char>,
    turn_id: Seq<char>,
    items: Seq<ItemModel>,
)
    requires
        distinct_ids(items),
    ensures
        forall|i: int|
            0 <= i < items.len() ==> settled(
                reconciled(before, thread_id, turn_id, items).0,
                thread_id,
                turn_id,
                #[trigger] items[i],
            ),
    decreases items.len(),
{
    if items.len() > 0 {
        let earlier = items.drop_last();
        lemma_reconciling_settles(before, thread_id, turn_id, earlier);
        let middle = reconciled(before, thread_id, turn_id, earlier).0;
        let last = items.last();
        assert forall|i: int| 0 <= i < items.len() implies settled(
            reconciled(before, thread_id, turn_id, items).0,
            thread_id,
            turn_id,
            #[trigger] items[i],
        ) by {
            if i < earlier.len() {
                assert(earlier[i] == items[i]);
            }
            lemma_recording_settles(middle, thread_id, turn_id, last, items[i]);
        }
    }
}

proof fn lemma_settled_items_change_nothing(
    state: ProjectorModel,
    thread_id: Seq<char>,
    turn_id: Seq<char>,
    items: Seq<ItemModel>,
)
    requires
        forall|i: int|
            0 <= i < items.len() ==> settled(state, thread_id, turn_id, #[trigger] items[i]),
    ensures
        reconciled(state, thread_id, turn_id, items) == (state, Seq::<EventModel>::empty()),
    decreases items.len(),
{
    if items.len() > 0 {
        let earlier = items.drop_last();
        assert forall|i: int| 0 <= i < earlier.len() implies settled(
            state,
            thread_id,
            turn_id,
            #[trigger] earlier[i],
        ) by {
            assert(earlier[i] == items[i]);
        }
        lemma_settled_items_change_nothing(state, thread_id, turn_id, earlier);
        assert(settled(state, thread_id, turn_id, items[items.len() - 1]));
        assert(Seq::<EventModel>::empty() + Seq::<EventModel>::empty() =~= Seq::<
            EventModel,
        >::empty());
    }
}

/// Reconciling is idempotent: the same authoritative items once more change
/// nothing and give no event.
pub proof fn reconciling_again_changes_nothing(
    before: ProjectorModel,
    thread_id: Seq<char>,
    turn_id: Seq<char>,
    items: Seq<ItemModel>,
)
    requires
        distinct_ids(items),
    ensures
        ({
            let after = reconciled(before, thread_id, turn_id, items).0;
            reconciled(after, thread_id, turn_id, items) == (after, Seq::<EventModel>::empty())
        }),
{
    lemma_reconciling_settles(before, thread_id, turn_id, items);
    lemma_settled_items_change_nothing(
        reconciled(before, thread_id, turn_id, items).0,
        thread_id,
        turn_id,
        items,
    );
}

/// A terminal error is shown at most once, however it is reported.
pub proof fn terminal_errors_are_shown_once(before: ProjectorModel, notice: NoticeModel)
    ensures
        ({
            let after = with_error(before, notice).0;
            with_error(after, notice) == (after, Seq::<EventModel>::empty())
        }),
{
    let after = with_error(before, notice).0;
    if !before.errors.contains(notice) {
        assert(after.errors[before.errors.len() as int] == notice);
    }
}

/// A completed item stands in the projection in its final form, where its
/// category is let through.
pub proof fn completed_items_are_settled(
    before: ProjectorModel,
    thread_id: Seq<char>,
    turn_id: Seq<char>,
    item: ItemModel,
)
    ensures
        settled(
            classified(before, key_of(thread_id, turn_id, item.id()), item, true).0,
            thread_id,
            turn_id,
            item,
        ),
{
    lemma_recording_settles(before, thread_id, turn_id, item, item);
}

/// Whether a projection holds an entry under its key.
pub open spec fn is_stored(state: ProjectorModel, entry: EntryModel) -> bool {
    entry_of(state.entries, entry.key) matches Some(index) && state.entries[index] == entry
}

/// Whether one of two events hands on an entry that the other replaces.
pub open spec fn is_replaced(earlier: EventModel, later: EventModel) -> bool {
    earlier is Entry && later is Entry && later->Entry_0.key == earlier->Entry_0.key
}

/// Whether events hand on what a projection holds: each entry is the one that is stored
/// under its key, unless a later event hands on its successor.
pub open spec fn hands_on(state: ProjectorModel, events: Seq<EventModel>) -> bool {
    forall|i: int|
        0 <= i < events.len() && (#[trigger] events[i]) is Entry ==> is_stored(
            state,
            events[i]->Entry_0,
        ) || exists|j: int| i < j < events.len() && #[trigger] is_replaced(events[i], events[j])
}

/// Whether the entries among events carry ever newer revisions.
pub open spec fn grows_newer(events: Seq<EventModel>) -> bool {
    forall|i: int, j: int|
        0 <= i < j < events.len() && (#[trigger] events[i]) is Entry && (#[trigger] events[j])
            is Entry ==> events[i]->Entry_0.revision < events[j]->Entry_0.revision
}

/// An entry that is handed on for an item is the one that the projection then holds
/// under its key, and what is held under other keys stays.
pub proof fn recorded_entries_are_stored(
    before: ProjectorModel,
    key: KeyModel,
    item: ItemModel,
    committed: bool,
    other: EntryModel,
)
    ensures
        ({
            let (after, events) = recorded(before, key, item, committed);
            &&& events.len() <= 1
            &&& events.len() == 0 ==> after == before
            &&& events.len() == 1 ==> events[0] is Entry && events[0]->Entry_0.key == key
                && is_stored(after, events[0]->Entry_0)
            &&& other.key != key && is_stored(before, other) ==> is_stored(after, other)
        }),
{
    let after = recorded(before, key, item, committed).0;
    lemma_entry_from(before.entries, key, 0);
    lemma_entry_from(after.entries, key, 0);
    lemma_entry_from(before.entries, other.key, 0);
    lemma_entry_from(after.entries, other.key, 0);
    if after != before {
        let index = match entry_of(before.entries, key) {
            Some(index) => index,
            None => before.entries.len() as int,
        };
        assert(after.entries[index].key == key);
        let found = entry_of(after.entries, key)->0;
        if found < index {
            assert(before.entries[found].key == key);
        }
        if other.key != key && is_stored(before, other) {
            let place = entry_of(before.entries, other.key)->0;
            assert(after.entries[place].key == other.key);
            let at = entry_of(after.entries, other.key)->0;
            if at < place {
                assert(before.entries[at].key == other.key);
            }
        }
    }
}

proof fn lemma_recorded_hands_on(
    before: ProjectorModel,
    key: KeyModel,
    item: ItemModel,
    committed: bool,
)
    ensures
        ({
            let (after, events) = recorded(before, key, item, committed);
            hands_on(after, events) && grows_newer(events)
        }),
{
    let entry = EntryModel {
        key,
        item,
        origin: EntryOrigin::CodexTranscript,
        revision: 0,
        committed,
    };
    recorded_entries_are_stored(before, key, item, committed, entry);
}

proof fn lemma_reconciled_hands_on(
    before: ProjectorModel,
    thread_id: Seq<char>,
    turn_id: Seq<char>,
    items: Seq<ItemModel>,
)
    ensures
        ({
            let (after, events) = reconciled(before, thread_id, turn_id, items);
            hands_on(after, events) && grows_newer(events)
        }),
    decreases items.len(),
{
    if items.len() > 0 {
        let shorter = items.drop_last();
        lemma_reconciled_hands_on(before, thread_id, turn_id, shorter);
        lemma_reconciled_continues(before, thread_id, turn_id, shorter);
        let (middle, events) = reconciled(before, thread_id, turn_id, shorter);
        let item = items.last();
        let key = key_of(thread_id, turn_id, item.id());
        let (after, more) = recorded(middle, key, item, true);
        lemma_recorded_continues(middle, key, item, true);
        lemma_recorded_hands_on(middle, key, item, true);
        let all = events + more;
        assert forall|i: int| 0 <= i < all.len() && (#[trigger] all[i]) is Entry implies is_stored(
            after,
            all[i]->Entry_0,
        ) || exists|j: int| i < j < all.len() && #[trigger] is_replaced(all[i], all[j]) by {
            if i < events.len() {
                assert(all[i] == events[i]);
                recorded_entries_are_stored(middle, key, item, true, events[i]->Entry_0);
                if is_stored(middle, events[i]->Entry_0) {
                    if events[i]->Entry_0.key == key && more.len() == 1 {
                        assert(all[events.len() as int] == more[0]);
                        assert(is_replaced(all[i], all[events.len() as int]));
                    }
                } else {
                    let j = choose|j: int|
                        i < j < events.len() && #[trigger] is_replaced(events[i], events[j]);
                    assert(all[j] == events[j]);
                    assert(is_replaced(all[i], all[j]));
                }
            } else {
                let entry = more[i - events.len()]->Entry_0;
                assert(all[i] == more[i - events.len()]);
                recorded_entries_are_stored(middle, key, item, true, entry);
            }
        }
        assert forall|i: int, j: int|
            0 <= i < j < all.len() && (#[trigger] all[i]) is Entry && (#[trigger] all[j])
                is Entry implies all[i]->Entry_0.revision < all[j]->Entry_0.revision by {
            if j < events.len() {
                assert(all[i] == events[i] && all[j] == events[j]);
            } else if i < events.len() {
                assert(all[i] == events[i] && all[j] == more[j - events.len()]);
                assert(fresh(before, middle, events[i]));
                assert(fresh(middle, after, more[j - events.len()]));
            }
        }
    }
}

/// Every entry that a notification hands on is the one that is stored under its key,
/// unless the same notification hands on its successor, and each carries a newer
/// revision than those before it.
pub proof fn handed_entries_are_stored(before: ProjectorModel, notification: ServerNotification)
    ensures
        ({
            let (after, events) = applied(before, notification);
            hands_on(after, events) && grows_newer(events)
        }),
{
    assert forall|key: KeyModel, item: ItemModel, committed: bool|
        {
            let (after, events) = #[trigger] recorded(before, key, item, committed);
            hands_on(after, events) && grows_newer(events)
        } by {
        lemma_recorded_hands_on(before, key, item, committed);
    }
    match notification {
        ServerNotification::TurnCompleted(completed) => {
            let items = item_models(completed.turn.items@);
            lemma_reconciled_hands_on(before, completed.thread_id@, completed.turn.id@, items);
            let (middle, events) = reconciled(
                before,
                completed.thread_id@,
                completed.turn.id@,
                items,
            );
            match completed.turn.error {
                Some(error) => {
                    let notice = error_notice(
                        completed.thread_id@,
                        completed.turn.id@,
                        error.message@,
                    );
                    let (after, more) = with_error(middle, notice);
                    lemma_notices_add_no_entry(middle, after, events, more);
                },
                None => {},
            }
        },
        _ => {},
    }
}

proof fn lemma_notices_add_no_entry(
    middle: ProjectorModel,
    after: ProjectorModel,
    events: Seq<EventModel>,
    more: Seq<EventModel>,
)
    requires
        hands_on(middle, events),
        grows_newer(events),
        after.entries == middle.entries,
        forall|i: int| 0 <= i < more.len() ==> (#[trigger] more[i]) is Notice,
    ensures
        hands_on(after, events + more),
        grows_newer(events + more),
{
    let all = events + more;
    assert forall|i: int| 0 <= i < all.len() && (#[trigger] all[i]) is Entry implies is_stored(
        after,
        all[i]->Entry_0,
    ) || exists|j: int| i < j < all.len() && #[trigger] is_replaced(all[i], all[j]) by {
        if i < events.len() {
            assert(all[i] == events[i]);
            if !is_stored(middle, events[i]->Entry_0) {
                let j = choose|j: int|
                    i < j < events.len() && #[trigger] is_replaced(events[i], events[j]);
                assert(all[j] == events[j]);
                assert(is_replaced(all[i], all[j]));
            }
        } else {
            assert(more[i - events.len()] is Notice);
        }
    }
    assert forall|i: int, j: int|
        0 <= i < j < all.len() && (#[trigger] all[i]) is Entry && (#[trigger] all[j])
            is Entry implies all[i]->Entry_0.revision < all[j]->Entry_0.revision by {
        if j < events.len() {
            assert(all[i] == events[i] && all[j] == events[j]);
        } else {
            assert(more[j - events.len()] is Notice);
        }
    }
}

proof fn lemma_reconciled_in_parts(
    before: ProjectorModel,
    thread_id: Seq<char>,
    turn_id: Seq<char>,
    first: Seq<ItemModel>,
    second: Seq<ItemModel>,
)
    ensures
        ({
            let (middle, events) = reconciled(before, thread_id, turn_id, first);
            let (after, more) = reconciled(middle, thread_id, turn_id, second);
            reconciled(before, thread_id, turn_id, first + second) == (after, events + more)
        }),
    decreases second.len(),
{
    let (middle, events) = reconciled(before, thread_id, turn_id, first);
    if second.len() == 0 {
        assert(first + second =~= first);
        assert(events + Seq::<EventModel>::empty() =~= events);
    } else {
        lemma_reconciled_in_parts(before, thread_id, turn_id, first, second.drop_last());
        assert((first + second).drop_last() =~= first + second.drop_last());
        let (nearly, some) = reconciled(middle, thread_id, turn_id, second.drop_last());
        let item = second.last();
        let more = recorded(nearly, key_of(thread_id, turn_id, item.id()), item, true).1;
        assert((events + some) + more =~= events + (some + more));
    }
}

proof fn lemma_one_item_among_settled(
    state: ProjectorModel,
    thread_id: Seq<char>,
    turn_id: Seq<char>,
    first: Seq<ItemModel>,
    item: ItemModel,
    second: Seq<ItemModel>,
)
    requires
        forall|i: int|
            0 <= i < first.len() ==> settled(state, thread_id, turn_id, #[trigger] first[i]),
        forall|i: int|
            0 <= i < second.len() ==> settled(state, thread_id, turn_id, #[trigger] second[i])
                && second[i].id() != item.id(),
    ensures
        reconciled(state, thread_id, turn_id, first + seq![item] + second) == recorded(
            state,
            key_of(thread_id, turn_id, item.id()),
            item,
            true,
        ),
{
    let key = key_of(thread_id, turn_id, item.id());
    let (after, events) = recorded(state, key, item, true);
    lemma_reconciled_in_parts(state, thread_id, turn_id, first + seq![item], second);
    lemma_reconciled_in_parts(state, thread_id, turn_id, first, seq![item]);
    lemma_settled_items_change_nothing(state, thread_id, turn_id, first);
    let one = seq![item];
    assert(one.drop_last() =~= Seq::<ItemModel>::empty());
    assert(reconciled(state, thread_id, turn_id, one.drop_last()) == (
        state,
        Seq::<EventModel>::empty(),
    ));
    assert(Seq::<EventModel>::empty() + events =~= events);
    assert(reconciled(state, thread_id, turn_id, one) == (after, events));
    assert forall|i: int| 0 <= i < second.len() implies settled(
        after,
        thread_id,
        turn_id,
        #[trigger] second[i],
    ) by {
        lemma_recording_settles(state, thread_id, turn_id, item, second[i]);
    }
    lemma_settled_items_change_nothing(after, thread_id, turn_id, second);
    assert(events + Seq::<EventModel>::empty() =~= events);
}

/// Reconciling with one item changed hands on exactly its entry, in its place: no entry
/// is added, and the others stay.
pub proof fn changed_items_change_their_entry(
    before: ProjectorModel,
    thread_id: Seq<char>,
    turn_id: Seq<char>,
    items: Seq<ItemModel>,
    at: int,
    item: ItemModel,
)
    requires
        distinct_ids(items),
        0 <= at < items.len(),
        item.id() == items[at].id(),
        item != items[at],
        shown(before.options, item),
        shown(before.options, items[at]),
    ensures
        ({
            let held = reconciled(before, thread_id, turn_id, items).0;
            let (after, events) = reconciled(held, thread_id, turn_id, items.update(at, item));
            let place = entry_of(held.entries, key_of(thread_id, turn_id, item.id()))->0;
            let changed = EntryModel {
                item,
                revision: held.next_revision + 1,
                ..held.entries[place]
            };
            &&& 0 <= place < held.entries.len()
            &&& held.entries[place].key == key_of(thread_id, turn_id, item.id())
            &&& events == seq![EventModel::Entry(changed)]
            &&& after.entries == held.entries.update(place, changed)
        }),
{
    let held = reconciled(before, thread_id, turn_id, items).0;
    lemma_reconciling_settles(before, thread_id, turn_id, items);
    lemma_reconciled_continues(before, thread_id, turn_id, items);
    let first = items.take(at);
    let second = items.skip(at + 1);
    assert forall|i: int| 0 <= i < first.len() implies settled(
        held,
        thread_id,
        turn_id,
        #[trigger] first[i],
    ) by {
        assert(first[i] == items[i]);
    }
    assert forall|i: int| 0 <= i < second.len() implies settled(
        held,
        thread_id,
        turn_id,
        #[trigger] second[i],
    ) && second[i].id() != item.id() by {
        assert(second[i] == items[at + 1 + i]);
    }
    lemma_one_item_among_settled(held, thread_id, turn_id, first, item, second);
    assert(items.update(at, item) =~= first + seq![item] + second);
    assert(settled(held, thread_id, turn_id, items[at]));
    lemma_entry_from(held.entries, key_of(thread_id, turn_id, item.id()), 0);
}

/// Reconciling with one more item, under an identity of its own, appends an entry for
/// it, whatever it says: what others say is never taken for it.
pub proof fn new_items_get_their_own_entry(
    before: ProjectorModel,
    thread_id: Seq<char>,
    turn_id: Seq<char>,
    items: Seq<ItemModel>,
    item: ItemModel,
)
    requires
        distinct_ids(items),
        shown(before.options, item),
        entry_of(
            reconciled(before, thread_id, turn_id, items).0.entries,
            key_of(thread_id, turn_id, item.id()),
        ) is None,
    ensures
        ({
            let held = reconciled(before, thread_id, turn_id, items).0;
            let (after, events) = reconciled(held, thread_id, turn_id, items.push(item));
            let created = EntryModel {
                key: key_of(thread_id, turn_id, item.id()),
                item,
                origin: EntryOrigin::CodexTranscript,
                revision: held.next_revision + 1,
                committed: true,
            };
            &&& events == seq![EventModel::Entry(created)]
            &&& after.entries == held.entries.push(created)
        }),
{
    let held = reconciled(before, thread_id, turn_id, items).0;
    lemma_reconciling_settles(before, thread_id, turn_id, items);
    lemma_reconciled_continues(before, thread_id, turn_id, items);
    lemma_one_item_among_settled(held, thread_id, turn_id, items, item, Seq::empty());
    assert(items.push(item) =~= items + seq![item] + Seq::<ItemModel>::empty());
}

} // verus!
