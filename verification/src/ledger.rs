//! A bounded record of identifiers, each with the time it was seen.

use crate::text::comes_before;
use crate::text::lemma_text_order_is_total;
use crate::text::lemma_text_order_is_transitive;
use crate::text::same_text;
use crate::text::text_less;
use crate::text::texts;
use vstd::prelude::*;

verus! {

/// One identifier of a ledger.
#[derive(Debug, PartialEq, Eq)]
pub struct LedgerEntry {
    pub key: String,
    pub timestamp: u64,
}

/// Identifiers and the times at which they were seen, in the order of the
/// identifiers.
#[derive(Debug, PartialEq, Eq)]
pub struct Ledger {
    pub entries: Vec<LedgerEntry>,
}

/// What a ledger holds.
pub type LedgerModel = Seq<(Seq<char>, u64)>;

impl View for Ledger {
    type V = LedgerModel;

    open spec fn view(&self) -> LedgerModel {
        self.entries@.map_values(|entry: LedgerEntry| (entry.key@, entry.timestamp))
    }
}

impl Clone for LedgerEntry {
    fn clone(&self) -> (copy: Self)
        ensures
            copy == *self,
    {
        LedgerEntry { key: self.key.clone(), timestamp: self.timestamp }
    }
}

impl Clone for Ledger {
    fn clone(&self) -> (copy: Self)
        ensures
            copy@ == self@,
    {
        let entries = self.entries.clone();
        assert(entries@ =~= self.entries@);
        Ledger { entries }
    }
}

impl Default for Ledger {
    fn default() -> (ledger: Self)
        ensures
            ledger@ == Seq::<(Seq<char>, u64)>::empty(),
    {
        let ledger = Ledger { entries: Vec::new() };
        assert(ledger@ =~= Seq::<(Seq<char>, u64)>::empty());
        ledger
    }
}

/// The identifiers stand in order, so none occurs twice.
pub open spec fn in_order(ledger: LedgerModel) -> bool {
    forall|i: int, j: int|
        0 <= i < j < ledger.len() ==> text_less(
            (#[trigger] ledger[i]).0,
            (#[trigger] ledger[j]).0,
        )
}

/// Whether an identifier is recorded.
pub open spec fn is_recorded(ledger: LedgerModel, key: Seq<char>) -> bool {
    exists|i: int| 0 <= i < ledger.len() && (#[trigger] ledger[i]).0 == key
}

/// The place of an identifier: behind those that come before it.
pub open spec fn place_from(ledger: LedgerModel, key: Seq<char>, from: int) -> int
    decreases ledger.len() - from,
{
    if 0 <= from < ledger.len() && text_less(ledger[from].0, key) {
        place_from(ledger, key, from + 1)
    } else {
        from
    }
}

/// A ledger with an identifier seen at `timestamp`.
pub open spec fn noted(ledger: LedgerModel, key: Seq<char>, timestamp: u64) -> LedgerModel {
    let place = place_from(ledger, key, 0);
    if place < ledger.len() && ledger[place].0 == key {
        ledger.update(place, (key, timestamp))
    } else {
        ledger.insert(place, (key, timestamp))
    }
}

/// The entries that were seen at `minimum` or later.
pub open spec fn since(ledger: LedgerModel, minimum: u64) -> LedgerModel
    decreases ledger.len(),
{
    if ledger.len() == 0 {
        ledger
    } else {
        let earlier = since(ledger.drop_last(), minimum);
        if ledger.last().1 >= minimum {
            earlier.push(ledger.last())
        } else {
            earlier
        }
    }
}

/// The oldest entry: of several that are equally old, the first.
pub open spec fn oldest(ledger: LedgerModel) -> int
    decreases ledger.len(),
{
    if ledger.len() <= 1 {
        0
    } else {
        let earlier = oldest(ledger.drop_last());
        if ledger.last().1 < ledger[earlier].1 {
            ledger.len() - 1
        } else {
            earlier
        }
    }
}

/// A ledger without its oldest entries, down to `capacity`.
pub open spec fn within(ledger: LedgerModel, capacity: nat) -> LedgerModel
    decreases ledger.len(),
{
    if ledger.len() <= capacity {
        ledger
    } else if 0 <= oldest(ledger) < ledger.len() {
        within(ledger.remove(oldest(ledger)), capacity)
    } else {
        ledger
    }
}

/// A ledger after expiry: entries before `minimum` go, then the oldest, down to
/// `capacity`.
pub open spec fn pruned(ledger: LedgerModel, minimum: u64, capacity: nat) -> LedgerModel {
    within(since(ledger, minimum), capacity)
}

proof fn lemma_place(ledger: LedgerModel, key: Seq<char>, from: int)
    requires
        0 <= from <= ledger.len(),
    ensures
        from <= place_from(ledger, key, from) <= ledger.len(),
        forall|i: int|
            from <= i < place_from(ledger, key, from) ==> text_less((#[trigger] ledger[i]).0, key),
        place_from(ledger, key, from) < ledger.len() ==> !text_less(
            ledger[place_from(ledger, key, from)].0,
            key,
        ),
    decreases ledger.len() - from,
{
    if from < ledger.len() && text_less(ledger[from].0, key) {
        lemma_place(ledger, key, from + 1);
    }
}

/// Noting an identifier keeps the order; afterwards it is recorded, and so is what
/// was recorded before, and nothing else.
pub proof fn noting_records(ledger: LedgerModel, key: Seq<char>, timestamp: u64, other: Seq<char>)
    requires
        in_order(ledger),
    ensures
        in_order(noted(ledger, key, timestamp)),
        is_recorded(noted(ledger, key, timestamp), other) == (other == key || is_recorded(
            ledger,
            other,
        )),
{
    let place = place_from(ledger, key, 0);
    lemma_place(ledger, key, 0);
    let after = noted(ledger, key, timestamp);
    if place < ledger.len() {
        lemma_text_order_is_total(ledger[place].0, key);
    }
    if !(place < ledger.len() && ledger[place].0 == key) {
        assert forall|i: int, j: int| 0 <= i < j < after.len() implies text_less(
            (#[trigger] after[i]).0,
            (#[trigger] after[j]).0,
        ) by {
            if i == place {
                assert(after[j] == ledger[j - 1]);
                if j - 1 > place {
                    lemma_text_order_is_transitive(key, ledger[place].0, ledger[j - 1].0);
                }
            } else if j == place {
                assert(after[i] == ledger[i]);
            } else {
                let from = if i < place {
                    i
                } else {
                    i - 1
                };
                let to = if j < place {
                    j
                } else {
                    j - 1
                };
                assert(after[i] == ledger[from]);
                assert(after[j] == ledger[to]);
            }
        }
    }
    assert(after[place].0 == key);
    if is_recorded(ledger, other) {
        let i = choose|i: int| 0 <= i < ledger.len() && (#[trigger] ledger[i]).0 == other;
        if place < ledger.len() && ledger[place].0 == key {
            assert(after[i].0 == other);
        } else if i < place {
            assert(after[i].0 == other);
        } else {
            assert(after[i + 1].0 == other);
        }
    }
    if is_recorded(after, other) && other != key {
        let i = choose|i: int| 0 <= i < after.len() && (#[trigger] after[i]).0 == other;
        if place < ledger.len() && ledger[place].0 == key {
            assert(ledger[i].0 == other);
        } else if i < place {
            assert(ledger[i].0 == other);
        } else {
            assert(ledger[i - 1].0 == other);
        }
    }
}

proof fn lemma_oldest(ledger: LedgerModel)
    requires
        ledger.len() > 0,
    ensures
        0 <= oldest(ledger) < ledger.len(),
        forall|i: int|
            0 <= i < ledger.len() ==> ledger[oldest(ledger)].1 <= (#[trigger] ledger[i]).1,
        forall|i: int|
            0 <= i < oldest(ledger) ==> ledger[oldest(ledger)].1 < (#[trigger] ledger[i]).1,
    decreases ledger.len(),
{
    if ledger.len() > 1 {
        lemma_oldest(ledger.drop_last());
        let earlier = oldest(ledger.drop_last());
        assert(ledger.drop_last()[earlier] == ledger[earlier]);
        assert forall|i: int| 0 <= i < oldest(ledger) implies ledger[oldest(ledger)].1 < (
        #[trigger] ledger[i]).1 by {
            assert(ledger.drop_last()[i] == ledger[i]);
        }
        assert forall|i: int| 0 <= i < ledger.len() implies ledger[oldest(ledger)].1 <= (
        #[trigger] ledger[i]).1 by {
            if i < ledger.len() - 1 {
                assert(ledger.drop_last()[i] == ledger[i]);
            }
        }
    }
}

proof fn lemma_since(ledger: LedgerModel, minimum: u64)
    ensures
        since(ledger, minimum).len() <= ledger.len(),
        in_order(ledger) ==> in_order(since(ledger, minimum)),
        forall|i: int|
            0 <= i < since(ledger, minimum).len() ==> (#[trigger] since(ledger, minimum)[i]).1
                >= minimum && ledger.contains(since(ledger, minimum)[i]),
        forall|i: int|
            0 <= i < ledger.len() && (#[trigger] ledger[i]).1 >= minimum ==> since(
                ledger,
                minimum,
            ).contains(ledger[i]),
    decreases ledger.len(),
{
    if ledger.len() > 0 {
        let shorter = ledger.drop_last();
        let last = ledger.last();
        lemma_since(shorter, minimum);
        let kept = since(shorter, minimum);
        let after = since(ledger, minimum);
        assert forall|i: int| 0 <= i < after.len() implies (#[trigger] after[i]).1 >= minimum
            && ledger.contains(after[i]) by {
            if i < kept.len() {
                assert(after[i] == kept[i]);
                let at = choose|at: int| 0 <= at < shorter.len() && shorter[at] == kept[i];
                assert(ledger[at] == kept[i]);
            } else {
                assert(ledger[ledger.len() - 1] == last);
            }
        }
        assert forall|i: int|
            0 <= i < ledger.len() && (#[trigger] ledger[i]).1 >= minimum implies after.contains(
            ledger[i],
        ) by {
            if i < shorter.len() {
                assert(shorter[i] == ledger[i]);
                let at = choose|at: int| 0 <= at < kept.len() && kept[at] == shorter[i];
                assert(after[at] == ledger[i]);
            } else {
                assert(after[kept.len() as int] == last);
            }
        }
        if in_order(ledger) {
            assert forall|i: int, j: int| 0 <= i < j < after.len() implies text_less(
                (#[trigger] after[i]).0,
                (#[trigger] after[j]).0,
            ) by {
                if j < kept.len() {
                    assert(after[i] == kept[i]);
                    assert(after[j] == kept[j]);
                } else {
                    assert(shorter.contains(kept[i]));
                    let at = choose|at: int| 0 <= at < shorter.len() && shorter[at] == kept[i];
                    assert(ledger[at] == kept[i]);
                    assert(ledger[ledger.len() - 1] == last);
                }
            }
        }
    }
}

proof fn lemma_removing_keeps_order(ledger: LedgerModel, place: int)
    requires
        in_order(ledger),
        0 <= place < ledger.len(),
    ensures
        in_order(ledger.remove(place)),
{
    let shorter = ledger.remove(place);
    assert forall|i: int, j: int| 0 <= i < j < shorter.len() implies text_less(
        (#[trigger] shorter[i]).0,
        (#[trigger] shorter[j]).0,
    ) by {
        let from = if i < place {
            i
        } else {
            i + 1
        };
        let to = if j < place {
            j
        } else {
            j + 1
        };
        assert(shorter[i] == ledger[from]);
        assert(shorter[j] == ledger[to]);
    }
}

proof fn lemma_within(ledger: LedgerModel, capacity: nat)
    ensures
        within(ledger, capacity).len() == if ledger.len() <= capacity {
            ledger.len()
        } else {
            capacity
        },
        in_order(ledger) ==> in_order(within(ledger, capacity)),
        forall|i: int|
            0 <= i < within(ledger, capacity).len() ==> ledger.contains(
                #[trigger] within(ledger, capacity)[i],
            ),
        forall|i: int, j: int|
            0 <= i < ledger.len() && 0 <= j < within(ledger, capacity).len() && !within(
                ledger,
                capacity,
            ).contains(#[trigger] ledger[i]) ==> ledger[i].1 <= (#[trigger] within(
                ledger,
                capacity,
            )[j]).1,
    decreases ledger.len(),
{
    if ledger.len() > capacity {
        lemma_oldest(ledger);
        let place = oldest(ledger);
        let shorter = ledger.remove(place);
        lemma_within(shorter, capacity);
        let after = within(ledger, capacity);
        if in_order(ledger) {
            lemma_removing_keeps_order(ledger, place);
        }
        assert forall|i: int| 0 <= i < after.len() implies ledger.contains(#[trigger] after[i]) by {
            assert(shorter.contains(after[i]));
            let at = choose|at: int| 0 <= at < shorter.len() && shorter[at] == after[i];
            let from = if at < place {
                at
            } else {
                at + 1
            };
            assert(ledger[from] == after[i]);
        }
        assert forall|i: int, j: int|
            0 <= i < ledger.len() && 0 <= j < after.len() && !after.contains(
                #[trigger] ledger[i],
            ) implies ledger[i].1 <= (#[trigger] after[j]).1 by {
            if i == place {
                assert(ledger.contains(after[j]));
                let at = choose|at: int| 0 <= at < ledger.len() && ledger[at] == after[j];
                assert(ledger[place].1 <= ledger[at].1);
            } else {
                let at = if i < place {
                    i
                } else {
                    i - 1
                };
                assert(shorter[at] == ledger[i]);
            }
        }
    } else {
        assert forall|i: int, j: int|
            0 <= i < ledger.len() && 0 <= j < ledger.len() && !ledger.contains(
                #[trigger] ledger[i],
            ) implies ledger[i].1 <= (#[trigger] ledger[j]).1 by {
            assert(ledger.contains(ledger[i]));
        }
    }
}

/// Pruning keeps the order and adds nothing; it leaves as many of the entries since
/// `minimum` as there is room for, and what it drops for want of room is no newer
/// than what stays.
pub proof fn pruning_keeps_the_newest(ledger: LedgerModel, minimum: u64, capacity: nat)
    ensures
        pruned(ledger, minimum, capacity).len() == if since(ledger, minimum).len() <= capacity {
            since(ledger, minimum).len()
        } else {
            capacity
        },
        in_order(ledger) ==> in_order(pruned(ledger, minimum, capacity)),
        forall|i: int|
            0 <= i < pruned(ledger, minimum, capacity).len() ==> (#[trigger] pruned(
                ledger,
                minimum,
                capacity,
            )[i]).1 >= minimum && ledger.contains(pruned(ledger, minimum, capacity)[i]),
        forall|i: int, j: int|
            0 <= i < ledger.len() && 0 <= j < pruned(ledger, minimum, capacity).len() && !pruned(
                ledger,
                minimum,
                capacity,
            ).contains(#[trigger] ledger[i]) ==> ledger[i].1 <= (#[trigger] pruned(
                ledger,
                minimum,
                capacity,
            )[j]).1,
        since(ledger, minimum).len() <= capacity ==> pruned(ledger, minimum, capacity) == since(
            ledger,
            minimum,
        ),
{
    let kept = since(ledger, minimum);
    lemma_since(ledger, minimum);
    lemma_within(kept, capacity);
    let after = pruned(ledger, minimum, capacity);
    assert forall|i: int| 0 <= i < after.len() implies (#[trigger] after[i]).1 >= minimum
        && ledger.contains(after[i]) by {
        assert(kept.contains(after[i]));
        let at = choose|at: int| 0 <= at < kept.len() && kept[at] == after[i];
        assert(kept[at].1 >= minimum);
    }
    assert forall|i: int, j: int|
        0 <= i < ledger.len() && 0 <= j < after.len() && !after.contains(
            #[trigger] ledger[i],
        ) implies ledger[i].1 <= (#[trigger] after[j]).1 by {
        if ledger[i].1 >= minimum {
            assert(kept.contains(ledger[i]));
            let at = choose|at: int| 0 <= at < kept.len() && kept[at] == ledger[i];
            assert(kept[at].1 <= after[j].1);
        }
    }
}

/// Whether an entry is kept rather than an identifier seen at `timestamp`, where
/// there is no room for both: a newer one is, and of equally old ones the one whose
/// identifier comes later.
pub open spec fn outlasts(entry: (Seq<char>, u64), key: Seq<char>, timestamp: u64) -> bool {
    entry.0 != key && (entry.1 > timestamp || entry.1 == timestamp && text_less(key, entry.0))
}

/// How many entries are kept rather than an identifier seen at `timestamp`.
pub open spec fn rivals(ledger: LedgerModel, key: Seq<char>, timestamp: u64) -> nat
    decreases ledger.len(),
{
    if ledger.len() == 0 {
        0
    } else {
        rivals(ledger.drop_last(), key, timestamp) + if outlasts(ledger.last(), key, timestamp) {
            1nat
        } else {
            0nat
        }
    }
}

proof fn lemma_rivals_without(ledger: LedgerModel, place: int, key: Seq<char>, timestamp: u64)
    requires
        0 <= place < ledger.len(),
    ensures
        rivals(ledger, key, timestamp) == rivals(ledger.remove(place), key, timestamp) + if outlasts(
            ledger[place],
            key,
            timestamp,
        ) {
            1nat
        } else {
            0nat
        },
    decreases ledger.len(),
{
    let shorter = ledger.remove(place);
    if place == ledger.len() - 1 {
        assert(shorter =~= ledger.drop_last());
    } else {
        lemma_rivals_without(ledger.drop_last(), place, key, timestamp);
        assert(shorter.drop_last() =~= ledger.drop_last().remove(place));
        assert(shorter.last() == ledger.last());
        assert(ledger.drop_last()[place] == ledger[place]);
    }
}

proof fn lemma_rivals_are_entries(ledger: LedgerModel, key: Seq<char>, timestamp: u64)
    ensures
        rivals(ledger, key, timestamp) <= ledger.len(),
        is_recorded(ledger, key) ==> rivals(ledger, key, timestamp) < ledger.len(),
        (forall|i: int|
            0 <= i < ledger.len() ==> outlasts(#[trigger] ledger[i], key, timestamp)) ==> rivals(
            ledger,
            key,
            timestamp,
        ) == ledger.len(),
    decreases ledger.len(),
{
    if ledger.len() > 0 {
        let shorter = ledger.drop_last();
        lemma_rivals_are_entries(shorter, key, timestamp);
        if is_recorded(ledger, key) {
            let at = choose|at: int| 0 <= at < ledger.len() && (#[trigger] ledger[at]).0 == key;
            if at < shorter.len() {
                assert(shorter[at].0 == key);
            }
        }
        if forall|i: int| 0 <= i < ledger.len() ==> outlasts(#[trigger] ledger[i], key, timestamp) {
            assert forall|i: int| 0 <= i < shorter.len() implies outlasts(
                #[trigger] shorter[i],
                key,
                timestamp,
            ) by {
                assert(shorter[i] == ledger[i]);
            }
        }
    }
}

proof fn lemma_rivals_since(ledger: LedgerModel, minimum: u64, key: Seq<char>, timestamp: u64)
    requires
        minimum <= timestamp,
    ensures
        rivals(since(ledger, minimum), key, timestamp) == rivals(ledger, key, timestamp),
    decreases ledger.len(),
{
    if ledger.len() > 0 {
        let kept = since(ledger.drop_last(), minimum);
        lemma_rivals_since(ledger.drop_last(), minimum, key, timestamp);
        if ledger.last().1 >= minimum {
            assert(kept.push(ledger.last()).drop_last() =~= kept);
        }
    }
}

proof fn lemma_within_keeps(ledger: LedgerModel, capacity: nat, at: int)
    requires
        in_order(ledger),
        0 <= at < ledger.len(),
    ensures
        is_recorded(within(ledger, capacity), ledger[at].0) == (rivals(
            ledger,
            ledger[at].0,
            ledger[at].1,
        ) < capacity),
    decreases ledger.len(),
{
    let (key, timestamp) = ledger[at];
    assert(ledger[at].0 == key);
    if ledger.len() <= capacity {
        lemma_rivals_are_entries(ledger, key, timestamp);
    } else {
        lemma_oldest(ledger);
        let place = oldest(ledger);
        let shorter = ledger.remove(place);
        lemma_removing_keeps_order(ledger, place);
        lemma_rivals_without(ledger, place, key, timestamp);
        if at == place {
            assert forall|i: int| 0 <= i < shorter.len() implies outlasts(
                #[trigger] shorter[i],
                key,
                timestamp,
            ) by {
                let from = if i < place {
                    i
                } else {
                    i + 1
                };
                assert(shorter[i] == ledger[from]);
                if from < place {
                    assert(text_less(ledger[from].0, ledger[place].0));
                    lemma_text_order_is_total(ledger[from].0, ledger[place].0);
                } else {
                    assert(text_less(ledger[place].0, ledger[from].0));
                    lemma_text_order_is_total(ledger[place].0, ledger[from].0);
                }
            }
            lemma_rivals_are_entries(shorter, key, timestamp);
            assert(rivals(ledger, key, timestamp) >= capacity);
            lemma_within(shorter, capacity);
            if is_recorded(within(shorter, capacity), key) {
                let kept = within(shorter, capacity);
                let i = choose|i: int| 0 <= i < kept.len() && (#[trigger] kept[i]).0 == key;
                assert(shorter.contains(kept[i]));
                let j = choose|j: int| 0 <= j < shorter.len() && shorter[j] == kept[i];
                assert(outlasts(shorter[j], key, timestamp));
            }
        } else {
            let to = if at < place {
                at
            } else {
                at - 1
            };
            assert(shorter[to] == ledger[at]);
            lemma_within_keeps(shorter, capacity, to);
            if at < place {
                assert(ledger[place].1 < ledger[at].1);
            } else {
                assert(ledger[place].1 <= ledger[at].1);
                assert(text_less(ledger[place].0, ledger[at].0));
                lemma_text_order_is_total(ledger[place].0, ledger[at].0);
            }
            assert(!outlasts(ledger[place], key, timestamp));
        }
    }
}

/// What is recorded stays so through pruning exactly where it is not from before
/// `minimum` and fewer than `capacity` others are kept rather than it.
pub proof fn pruning_keeps_what_has_few_rivals(
    ledger: LedgerModel,
    key: Seq<char>,
    timestamp: u64,
    minimum: u64,
    capacity: nat,
)
    requires
        in_order(ledger),
        ledger.contains((key, timestamp)),
    ensures
        is_recorded(pruned(ledger, minimum, capacity), key) == (minimum <= timestamp && rivals(
            ledger,
            key,
            timestamp,
        ) < capacity),
{
    let kept = since(ledger, minimum);
    let place = choose|place: int| 0 <= place < ledger.len() && ledger[place] == (key, timestamp);
    lemma_since(ledger, minimum);
    assert(ledger[place].1 == timestamp);
    if minimum <= timestamp {
        assert(kept.contains(ledger[place]));
        let at = choose|at: int| 0 <= at < kept.len() && kept[at] == (key, timestamp);
        lemma_within_keeps(kept, capacity, at);
        lemma_rivals_since(ledger, minimum, key, timestamp);
    } else {
        pruning_keeps_the_newest(ledger, minimum, capacity);
        let after = pruned(ledger, minimum, capacity);
        if is_recorded(after, key) {
            let i = choose|i: int| 0 <= i < after.len() && (#[trigger] after[i]).0 == key;
            assert(ledger.contains(after[i]));
            let at = choose|at: int| 0 <= at < ledger.len() && ledger[at] == after[i];
            if at < place {
                lemma_text_order_is_total(ledger[at].0, ledger[place].0);
            } else if at > place {
                lemma_text_order_is_total(ledger[place].0, ledger[at].0);
            }
            assert(false);
        }
    }
}

/// Noting an identifier leaves the others as they were.
pub proof fn noting_keeps_others(
    ledger: LedgerModel,
    key: Seq<char>,
    timestamp: u64,
    entry: (Seq<char>, u64),
)
    requires
        ledger.contains(entry),
        entry.0 != key,
    ensures
        noted(ledger, key, timestamp).contains(entry),
{
    lemma_place(ledger, key, 0);
    let place = place_from(ledger, key, 0);
    let after = noted(ledger, key, timestamp);
    let at = choose|at: int| 0 <= at < ledger.len() && ledger[at] == entry;
    if place < ledger.len() && ledger[place].0 == key || at < place {
        assert(after[at] == entry);
    } else {
        assert(after[at + 1] == entry);
    }
}

/// An identifier that is noted has the rivals that it had before.
pub proof fn noting_adds_no_rival(ledger: LedgerModel, key: Seq<char>, timestamp: u64)
    ensures
        noted(ledger, key, timestamp).contains((key, timestamp)),
        rivals(noted(ledger, key, timestamp), key, timestamp) == rivals(ledger, key, timestamp),
{
    lemma_place(ledger, key, 0);
    let place = place_from(ledger, key, 0);
    let after = noted(ledger, key, timestamp);
    assert(after[place] == (key, timestamp));
    lemma_rivals_without(after, place, key, timestamp);
    if place < ledger.len() && ledger[place].0 == key {
        lemma_rivals_without(ledger, place, key, timestamp);
        assert(after.remove(place) =~= ledger.remove(place));
    } else {
        assert(after.remove(place) =~= ledger);
    }
}

impl Ledger {
    /// Whether an identifier is recorded.
    pub fn contains_key(&self, key: &str) -> (yes: bool)
        ensures
            yes == is_recorded(self@, key@),
    {
        let mut index: usize = 0;
        while index < self.entries.len()
            invariant
                index <= self.entries@.len(),
                forall|i: int| 0 <= i < index ==> (#[trigger] self@[i]).0 != key@,
            decreases self.entries@.len() - index,
        {
            assert(self@[index as int].0 == self.entries@[index as int].key@);
            if same_text(self.entries[index].key.as_str(), key) {
                return true;
            }
            index += 1;
        }
        false
    }

    /// Notes an identifier as seen at `timestamp`.
    pub fn insert(&mut self, key: String, timestamp: u64)
        ensures
            final(self)@ == noted(old(self)@, key@, timestamp),
            in_order(old(self)@) ==> in_order(final(self)@),
    {
        let mut index: usize = 0;
        while index < self.entries.len() && comes_before(
            self.entries[index].key.as_str(),
            key.as_str(),
        )
            invariant
                *self == *old(self),
                index <= self.entries@.len(),
                place_from(self@, key@, 0) == place_from(self@, key@, index as int),
            decreases self.entries@.len() - index,
        {
            assert(self@[index as int].0 == self.entries@[index as int].key@);
            index += 1;
        }
        let ghost entry = (key@, timestamp);
        proof {
            if index < self.entries@.len() {
                assert(self@[index as int].0 == self.entries@[index as int].key@);
            }
            if in_order(self@) {
                noting_records(self@, key@, timestamp, key@);
            }
        }
        if index < self.entries.len() && same_text(
            self.entries[index].key.as_str(),
            key.as_str(),
        ) {
            self.entries.set(index, LedgerEntry { key, timestamp });
            assert(self@ =~= old(self)@.update(index as int, entry));
        } else {
            self.entries.insert(index, LedgerEntry { key, timestamp });
            assert(self@ =~= old(self)@.insert(index as int, entry));
        }
    }

    /// Drops what was seen before `minimum`.
    fn retain_since(&mut self, minimum: u64)
        ensures
            final(self)@ == since(old(self)@, minimum),
    {
        let mut kept: Vec<LedgerEntry> = Vec::new();
        let mut index: usize = 0;
        let ghost mut kept_model: LedgerModel = Seq::empty();
        assert(self@.take(0) =~= Seq::<(Seq<char>, u64)>::empty());
        while index < self.entries.len()
            invariant
                *self == *old(self),
                index <= self.entries@.len(),
                kept_model == kept@.map_values(|entry: LedgerEntry| (entry.key@, entry.timestamp)),
                kept_model == since(self@.take(index as int), minimum),
            decreases self.entries@.len() - index,
        {
            let entry = self.entries[index].clone();
            proof {
                let longer = self@.take(index + 1);
                assert(longer.drop_last() =~= self@.take(index as int));
                assert(longer.last() == (entry.key@, entry.timestamp));
            }
            if entry.timestamp >= minimum {
                let ghost before = kept@;
                proof {
                    kept_model = kept_model.push((entry.key@, entry.timestamp));
                }
                kept.push(entry);
                assert(kept_model =~= kept@.map_values(
                    |entry: LedgerEntry| (entry.key@, entry.timestamp),
                ));
            }
            index += 1;
        }
        assert(self@.take(index as int) =~= self@);
        self.entries = kept;
    }

    /// Where the oldest entry stands.
    fn oldest_index(&self) -> (index: usize)
        requires
            self.entries@.len() > 0,
        ensures
            index < self.entries@.len(),
            index == oldest(self@),
    {
        let mut best: usize = 0;
        let mut index: usize = 1;
        while index < self.entries.len()
            invariant
                1 <= index <= self.entries@.len(),
                best < index,
                best == oldest(self@.take(index as int)),
            decreases self.entries@.len() - index,
        {
            proof {
                let longer = self@.take(index + 1);
                assert(longer.drop_last() =~= self@.take(index as int));
                assert(longer.last() == self@[index as int]);
                assert(longer[best as int] == self@[best as int]);
            }
            if self.entries[index].timestamp < self.entries[best].timestamp {
                best = index;
            }
            index += 1;
        }
        assert(self@.take(index as int) =~= self@);
        best
    }

    /// Drops what was seen before `minimum`, then the oldest, down to `capacity`.
    pub fn prune(&mut self, minimum: u64, capacity: usize)
        ensures
            final(self)@ == pruned(old(self)@, minimum, capacity as nat),
            in_order(old(self)@) ==> in_order(final(self)@),
    {
        proof {
            pruning_keeps_the_newest(self@, minimum, capacity as nat);
        }
        self.retain_since(minimum);
        while self.entries.len() > capacity
            invariant
                within(self@, capacity as nat) == pruned(old(self)@, minimum, capacity as nat),
            decreases self.entries@.len(),
        {
            let ghost before = self@;
            let index: usize = self.oldest_index();
            self.entries.remove(index);
            assert(self@ =~= before.remove(index as int));
        }
    }

    /// The identifiers, in order.
    pub fn keys(&self) -> (keys: Vec<String>)
        ensures
            texts(keys@) == self@.map_values(|entry: (Seq<char>, u64)| entry.0),
    {
        let mut keys: Vec<String> = Vec::new();
        let mut index: usize = 0;
        while index < self.entries.len()
            invariant
                index <= self.entries@.len(),
                keys@.len() == index,
                forall|i: int|
                    0 <= i < index ==> (#[trigger] keys@[i])@ == self.entries@[i].key@,
            decreases self.entries@.len() - index,
        {
            keys.push(self.entries[index].key.clone());
            index += 1;
        }
        assert(texts(keys@) =~= self@.map_values(|entry: (Seq<char>, u64)| entry.0));
        keys
    }
}

/// What is noted carries the time at which it was noted, also where it was recorded before.
pub proof fn noting_sets_the_time(ledger: LedgerModel, key: Seq<char>, timestamp: u64)
    ensures
        noted(ledger, key, timestamp).contains((key, timestamp)),
        noted(ledger, key, timestamp).len() <= ledger.len() + 1,
{
    lemma_place(ledger, key, 0);
    let place = place_from(ledger, key, 0);
    assert(noted(ledger, key, timestamp)[place] == (key, timestamp));
}

/// Expiry drops exactly what is from before the given time; the rest keeps its order.
pub proof fn expiry_goes_by_time(ledger: LedgerModel, minimum: u64)
    ensures
        since(ledger, minimum) == ledger.filter(|entry: (Seq<char>, u64)| entry.1 >= minimum),
    decreases ledger.len(),
{
    reveal(Seq::filter);
    if ledger.len() > 0 {
        expiry_goes_by_time(ledger.drop_last(), minimum);
    } else {
        assert(since(ledger, minimum) =~= ledger.filter(
            |entry: (Seq<char>, u64)| entry.1 >= minimum,
        ));
    }
}

} // verus!
