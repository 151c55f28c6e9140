//! WhatsApp-safe assistant-output aggregation and chunking.

use crate::text::chars_of;
use crate::text::decimal;
use crate::text::decimal_of;
use crate::text::ends;
use crate::text::ends_with;
use crate::text::is_white;
use crate::text::is_whitespace;
use crate::text::joined;
use crate::text::same_text;
use crate::text::skip_white;
use crate::text::skip_white_back;
use crate::text::text_between;
use crate::text::texts;
use crate::text::trimmed;
use crate::text::trimmed_end;
use crate::text::trimmed_start;
use crate::text::is_blank;
use crate::text::trimming_the_end_drops_only_space;
use crate::text::trimming_the_start_drops_only_space;
use vstd::prelude::*;

verus! {

pub const MAX_ASSISTANT_OUTPUT_CHARS: usize = 100_000;

pub const MAX_ASSISTANT_ITEMS_PER_TURN: usize = 64;

pub const TRUNCATION_NOTICE: &'static str = "\n\n[codex] Output truncated at 100,000 characters.";

/// The most characters of a message that the transport takes.
pub const MESSAGE_LIMIT: usize = 4_096;

/// The room that is kept for the label of a chunk.
pub const LABEL_RESERVE: usize = 32;

/// The text of one assistant item.
#[derive(Debug, PartialEq, Eq)]
pub struct OutputItem {
    pub thread_id: String,
    pub turn_id: String,
    pub item_id: String,
    pub text: String,
}

/// Collects the assistant items of turns in the order in which they appear.
#[derive(Debug, PartialEq, Eq)]
pub struct OutputAggregator {
    pub items: Vec<OutputItem>,
}

/// What an `OutputItem` holds.
#[verifier::ext_equal]
pub struct OutputItemModel {
    pub thread_id: Seq<char>,
    pub turn_id: Seq<char>,
    pub item_id: Seq<char>,
    pub text: Seq<char>,
}

impl View for OutputItem {
    type V = OutputItemModel;

    open spec fn view(&self) -> OutputItemModel {
        OutputItemModel {
            thread_id: self.thread_id@,
            turn_id: self.turn_id@,
            item_id: self.item_id@,
            text: self.text@,
        }
    }
}

impl View for OutputAggregator {
    type V = Seq<OutputItemModel>;

    open spec fn view(&self) -> Seq<OutputItemModel> {
        self.items@.map_values(|item: OutputItem| item@)
    }
}

/// How many characters of content a truncated output keeps.
pub open spec fn kept_chars() -> int {
    MAX_ASSISTANT_OUTPUT_CHARS - TRUNCATION_NOTICE@.len()
}

/// An output that ends with the truncation notice.
pub open spec fn forced(output: Seq<char>) -> Seq<char> {
    if ends(output, TRUNCATION_NOTICE@) {
        output
    } else if output.len() > kept_chars() {
        output.take(kept_chars()) + TRUNCATION_NOTICE@
    } else {
        output + TRUNCATION_NOTICE@
    }
}

/// An output after a piece of text, within the limit.
pub open spec fn appended(output: Seq<char>, delta: Seq<char>) -> Seq<char> {
    if ends(output, TRUNCATION_NOTICE@) {
        output
    } else if output.len() + delta.len() <= MAX_ASSISTANT_OUTPUT_CHARS {
        output + delta
    } else if output.len() <= kept_chars() {
        forced(output + delta.take(kept_chars() - output.len()))
    } else {
        forced(output)
    }
}

/// A complete output, within the limit.
pub open spec fn truncated(output: Seq<char>) -> Seq<char> {
    if output.len() <= MAX_ASSISTANT_OUTPUT_CHARS {
        output
    } else {
        output.take(kept_chars()) + TRUNCATION_NOTICE@
    }
}

/// Whether an item belongs to a turn.
pub open spec fn of_turn(item: OutputItemModel, thread_id: Seq<char>, turn_id: Seq<char>) -> bool {
    item.thread_id == thread_id && item.turn_id == turn_id
}

/// The first item from `from` on with the given identity.
pub open spec fn output_item_from(
    items: Seq<OutputItemModel>,
    thread_id: Seq<char>,
    turn_id: Seq<char>,
    item_id: Seq<char>,
    from: int,
) -> Option<int>
    decreases items.len() - from,
{
    if from < 0 || from >= items.len() {
        None
    } else if of_turn(items[from], thread_id, turn_id) && items[from].item_id == item_id {
        Some(from)
    } else {
        output_item_from(items, thread_id, turn_id, item_id, from + 1)
    }
}

/// How many items a turn has.
pub open spec fn turn_count(
    items: Seq<OutputItemModel>,
    thread_id: Seq<char>,
    turn_id: Seq<char>,
) -> nat
    decreases items.len(),
{
    if items.len() == 0 {
        0
    } else {
        turn_count(items.drop_last(), thread_id, turn_id) + if of_turn(
            items.last(),
            thread_id,
            turn_id,
        ) {
            1nat
        } else {
            0
        }
    }
}

/// The last item of a turn.
pub open spec fn last_of_turn(
    items: Seq<OutputItemModel>,
    thread_id: Seq<char>,
    turn_id: Seq<char>,
) -> Option<int>
    decreases items.len(),
{
    if items.len() == 0 {
        None
    } else if of_turn(items.last(), thread_id, turn_id) {
        Some(items.len() - 1)
    } else {
        last_of_turn(items.drop_last(), thread_id, turn_id)
    }
}

/// The items with the text of one replaced.
pub open spec fn with_text(items: Seq<OutputItemModel>, index: int, text: Seq<char>) -> Seq<
    OutputItemModel,
> {
    items.update(index, OutputItemModel { text, ..items[index] })
}

/// The items with a new one at the end, or with a notice on the turn's last item
/// where the turn has as many as it may have.
pub open spec fn with_item(items: Seq<OutputItemModel>, item: OutputItemModel) -> Seq<
    OutputItemModel,
> {
    if turn_count(items, item.thread_id, item.turn_id) < MAX_ASSISTANT_ITEMS_PER_TURN {
        items.push(item)
    } else {
        match last_of_turn(items, item.thread_id, item.turn_id) {
            Some(index) => with_text(items, index, forced(items[index].text)),
            None => items,
        }
    }
}

/// The texts of a turn's items, one after the other.
pub open spec fn turn_content(
    items: Seq<OutputItemModel>,
    thread_id: Seq<char>,
    turn_id: Seq<char>,
) -> Seq<char>
    decreases items.len(),
{
    if items.len() == 0 {
        Seq::empty()
    } else {
        let earlier = turn_content(items.drop_last(), thread_id, turn_id);
        if of_turn(items.last(), thread_id, turn_id) {
            earlier + items.last().text
        } else {
            earlier
        }
    }
}

/// The items that belong to other turns.
pub open spec fn other_turns(
    items: Seq<OutputItemModel>,
    thread_id: Seq<char>,
    turn_id: Seq<char>,
) -> Seq<OutputItemModel>
    decreases items.len(),
{
    if items.len() == 0 {
        Seq::empty()
    } else {
        let earlier = other_turns(items.drop_last(), thread_id, turn_id);
        if of_turn(items.last(), thread_id, turn_id) {
            earlier
        } else {
            earlier.push(items.last())
        }
    }
}

/// The notice is shorter than the limit, so that some content is always kept.
proof fn lemma_notice_fits()
    ensures
        0 < TRUNCATION_NOTICE@.len() < 100,
{
    reveal_strlit("\n\n[codex] Output truncated at 100,000 characters.");
}

fn force_truncation_notice(output: &str) -> (result: String)
    ensures
        result@ == forced(output@),
{
    if ends_with(output, TRUNCATION_NOTICE) {
        return output.to_owned();
    }
    proof {
        lemma_notice_fits();
    }
    let chars = chars_of(output);
    let keep: usize = MAX_ASSISTANT_OUTPUT_CHARS - chars_of(TRUNCATION_NOTICE).len();
    if chars.len() > keep {
        let content = text_between(&chars, 0, keep);
        assert(content@ =~= output@.take(kept_chars()));
        joined(content.as_str(), TRUNCATION_NOTICE)
    } else {
        joined(output, TRUNCATION_NOTICE)
    }
}

fn append_bounded(output: &str, delta: &str) -> (result: String)
    ensures
        result@ == appended(output@, delta@),
{
    if ends_with(output, TRUNCATION_NOTICE) {
        return output.to_owned();
    }
    proof {
        lemma_notice_fits();
    }
    let current: usize = chars_of(output).len();
    let incoming = chars_of(delta);
    if current <= MAX_ASSISTANT_OUTPUT_CHARS && incoming.len() <= MAX_ASSISTANT_OUTPUT_CHARS
        - current {
        return joined(output, delta);
    }
    let keep: usize = MAX_ASSISTANT_OUTPUT_CHARS - chars_of(TRUNCATION_NOTICE).len();
    if current <= keep {
        let content = text_between(&incoming, 0, keep - current);
        assert(content@ =~= delta@.take(kept_chars() - output@.len()));
        let kept = joined(output, content.as_str());
        force_truncation_notice(kept.as_str())
    } else {
        force_truncation_notice(output)
    }
}

fn truncate_output(output: String) -> (result: String)
    ensures
        result@ == truncated(output@),
{
    let chars = chars_of(output.as_str());
    if chars.len() <= MAX_ASSISTANT_OUTPUT_CHARS {
        return output;
    }
    proof {
        lemma_notice_fits();
    }
    let keep: usize = MAX_ASSISTANT_OUTPUT_CHARS - chars_of(TRUNCATION_NOTICE).len();
    let content = text_between(&chars, 0, keep);
    assert(content@ =~= output@.take(kept_chars()));
    joined(content.as_str(), TRUNCATION_NOTICE)
}

impl Default for OutputAggregator {
    fn default() -> (output: Self)
        ensures
            output@ == Seq::<OutputItemModel>::empty(),
    {
        let output = OutputAggregator { items: Vec::new() };
        assert(output@ =~= Seq::<OutputItemModel>::empty());
        output
    }
}

/// The items after a piece of streamed text for one of them.
pub open spec fn delta_pushed(
    items: Seq<OutputItemModel>,
    thread_id: Seq<char>,
    turn_id: Seq<char>,
    item_id: Seq<char>,
    delta: Seq<char>,
) -> Seq<OutputItemModel> {
    match output_item_from(items, thread_id, turn_id, item_id, 0) {
        Some(index) => with_text(items, index, appended(items[index].text, delta)),
        None => with_item(
            items,
            OutputItemModel {
                thread_id,
                turn_id,
                item_id,
                text: appended(Seq::empty(), delta),
            },
        ),
    }
}

/// Whether an item stands at an index, and there first.
pub open spec fn is_item_at(
    items: Seq<OutputItemModel>,
    thread_id: Seq<char>,
    turn_id: Seq<char>,
    item_id: Seq<char>,
    index: int,
) -> bool {
    &&& 0 <= index < items.len()
    &&& items[index].thread_id == thread_id && items[index].turn_id == turn_id
        && items[index].item_id == item_id
    &&& forall|i: int|
        0 <= i < index ==> !((#[trigger] items[i]).thread_id == thread_id && items[i].turn_id
            == turn_id && items[i].item_id == item_id)
}

/// Whether nothing has changed but that the item at an index has a given text.
pub open spec fn is_retold_at(
    before: Seq<OutputItemModel>,
    after: Seq<OutputItemModel>,
    index: int,
    text: Seq<char>,
) -> bool {
    &&& after.len() == before.len()
    &&& after[index].text == text
    &&& after[index].thread_id == before[index].thread_id
    &&& after[index].turn_id == before[index].turn_id
    &&& after[index].item_id == before[index].item_id
    &&& forall|i: int|
        0 <= i < before.len() && i != index ==> after[i] == #[trigger] before[i]
}

proof fn lemma_item_at(
    items: Seq<OutputItemModel>,
    thread_id: Seq<char>,
    turn_id: Seq<char>,
    item_id: Seq<char>,
    index: int,
    from: int,
)
    requires
        is_item_at(items, thread_id, turn_id, item_id, index),
        0 <= from <= index,
    ensures
        output_item_from(items, thread_id, turn_id, item_id, from) == Some(index),
    decreases index - from,
{
    if from < index {
        assert(!(items[from].thread_id == thread_id && items[from].turn_id == turn_id
            && items[from].item_id == item_id));
        lemma_item_at(items, thread_id, turn_id, item_id, index, from + 1);
    }
}

impl OutputAggregator {
    fn item_index(&self, thread_id: &str, turn_id: &str, item_id: &str) -> (found: Option<usize>)
        ensures
            match found {
                Some(index) => output_item_from(self@, thread_id@, turn_id@, item_id@, 0) == Some(
                    index as int,
                ) && index < self.items@.len(),
                None => output_item_from(self@, thread_id@, turn_id@, item_id@, 0) is None,
            },
    {
        let mut index: usize = 0;
        while index < self.items.len()
            invariant
                index <= self.items@.len(),
                output_item_from(self@, thread_id@, turn_id@, item_id@, 0) == output_item_from(
                    self@,
                    thread_id@,
                    turn_id@,
                    item_id@,
                    index as int,
                ),
            decreases self.items@.len() - index,
        {
            let item = &self.items[index];
            assert(self@[index as int] == item@);
            if same_text(item.thread_id.as_str(), thread_id) && same_text(
                item.turn_id.as_str(),
                turn_id,
            ) && same_text(item.item_id.as_str(), item_id) {
                return Some(index);
            }
            index += 1;
        }
        None
    }

    /// How many items a turn has, and where its last one stands.
    fn turn_items(&self, thread_id: &str, turn_id: &str) -> (found: (usize, Option<usize>))
        ensures
            found.0 == turn_count(self@, thread_id@, turn_id@),
            match found.1 {
                Some(index) => last_of_turn(self@, thread_id@, turn_id@) == Some(index as int)
                    && index < self.items@.len(),
                None => last_of_turn(self@, thread_id@, turn_id@) is None,
            },
    {
        let mut count: usize = 0;
        let mut last: Option<usize> = None;
        let mut index: usize = 0;
        assert(self@.take(0) =~= Seq::<OutputItemModel>::empty());
        while index < self.items.len()
            invariant
                index <= self.items@.len(),
                count <= index,
                count == turn_count(self@.take(index as int), thread_id@, turn_id@),
                match last {
                    Some(at) => last_of_turn(self@.take(index as int), thread_id@, turn_id@)
                        == Some(at as int) && at < index,
                    None => last_of_turn(self@.take(index as int), thread_id@, turn_id@) is None,
                },
            decreases self.items@.len() - index,
        {
            let item = &self.items[index];
            proof {
                let longer = self@.take(index + 1);
                assert(longer.drop_last() =~= self@.take(index as int));
                assert(longer.last() == item@);
            }
            if same_text(item.thread_id.as_str(), thread_id) && same_text(
                item.turn_id.as_str(),
                turn_id,
            ) {
                count += 1;
                last = Some(index);
            }
            index += 1;
        }
        assert(self@.take(index as int) =~= self@);
        (count, last)
    }

    /// Replaces the text of an item.
    fn set_text(&mut self, index: usize, text: String)
        requires
            index < old(self).items@.len(),
        ensures
            final(self)@ == with_text(old(self)@, index as int, text@),
    {
        let item = &self.items[index];
        let changed = OutputItem {
            thread_id: item.thread_id.clone(),
            turn_id: item.turn_id.clone(),
            item_id: item.item_id.clone(),
            text,
        };
        let ghost model = changed@;
        self.items.set(index, changed);
        assert(self@ =~= old(self)@.update(index as int, model));
    }

    /// Adds an item, within the number that a turn may have.
    fn add_item(&mut self, item: OutputItem)
        ensures
            final(self)@ == with_item(old(self)@, item@),
    {
        let (count, last) = self.turn_items(item.thread_id.as_str(), item.turn_id.as_str());
        if count < MAX_ASSISTANT_ITEMS_PER_TURN {
            let ghost model = item@;
            self.items.push(item);
            assert(self@ =~= old(self)@.push(model));
        } else {
            match last {
                Some(index) => {
                    assert(self@[index as int] == self.items@[index as int]@);
                    let text = force_truncation_notice(self.items[index].text.as_str());
                    self.set_text(index, text);
                },
                None => {},
            }
        }
    }

    /// Adds a piece of streamed text to an item.
    pub fn push_delta(&mut self, thread_id: String, turn_id: String, item_id: String, delta: &str)
        ensures
            final(self)@ == delta_pushed(
                old(self)@,
                thread_id@,
                turn_id@,
                item_id@,
                delta@,
            ),
            forall|index: int|
                #[trigger] is_item_at(old(self)@, thread_id@, turn_id@, item_id@, index)
                    && old(self)@[index].text.len() + delta@.len() <= 100_000 && !ends(
                    old(self)@[index].text,
                    TRUNCATION_NOTICE@,
                ) ==> is_retold_at(
                    old(self)@,
                    final(self)@,
                    index,
                    old(self)@[index].text + delta@,
                ),
    {
        proof {
            assert forall|index: int|
                #[trigger] is_item_at(self@, thread_id@, turn_id@, item_id@, index) implies
                output_item_from(self@, thread_id@, turn_id@, item_id@, 0) == Some(index) by {
                lemma_item_at(self@, thread_id@, turn_id@, item_id@, index, 0);
            }
        }
        match self.item_index(thread_id.as_str(), turn_id.as_str(), item_id.as_str()) {
            Some(index) => {
                assert(self@[index as int] == self.items@[index as int]@);
                let text = append_bounded(self.items[index].text.as_str(), delta);
                self.set_text(index, text);
            },
            None => {
                let empty = String::new();
                assert(empty@ =~= Seq::<char>::empty());
                let text = append_bounded(empty.as_str(), delta);
                self.add_item(OutputItem { thread_id, turn_id, item_id, text });
            },
        }
    }

    /// Replaces what has streamed for an item by its complete text.
    pub fn complete_item(
        &mut self,
        thread_id: String,
        turn_id: String,
        item_id: String,
        text: String,
    )
        ensures
            final(self)@ == match output_item_from(
                old(self)@,
                thread_id@,
                turn_id@,
                item_id@,
                0,
            ) {
                Some(index) => with_text(old(self)@, index, truncated(text@)),
                None => with_item(
                    old(self)@,
                    OutputItemModel {
                        thread_id: thread_id@,
                        turn_id: turn_id@,
                        item_id: item_id@,
                        text: truncated(text@),
                    },
                ),
            },
            forall|index: int|
                #[trigger] is_item_at(old(self)@, thread_id@, turn_id@, item_id@, index)
                    && text@.len() <= 100_000 ==> is_retold_at(
                    old(self)@,
                    final(self)@,
                    index,
                    text@,
                ),
    {
        proof {
            assert forall|index: int|
                #[trigger] is_item_at(self@, thread_id@, turn_id@, item_id@, index) implies
                output_item_from(self@, thread_id@, turn_id@, item_id@, 0) == Some(index) by {
                lemma_item_at(self@, thread_id@, turn_id@, item_id@, index, 0);
            }
        }
        let text = truncate_output(text);
        match self.item_index(thread_id.as_str(), turn_id.as_str(), item_id.as_str()) {
            Some(index) => self.set_text(index, text),
            None => self.add_item(OutputItem { thread_id, turn_id, item_id, text }),
        }
    }

    /// The text of a turn so far.
    pub fn turn_text(&self, thread_id: &str, turn_id: &str) -> (text: String)
        ensures
            text@ == truncated(turn_content(self@, thread_id@, turn_id@)),
    {
        let mut text = String::new();
        let mut index: usize = 0;
        assert(self@.take(0) =~= Seq::<OutputItemModel>::empty());
        assert(text@ =~= Seq::<char>::empty());
        while index < self.items.len()
            invariant
                index <= self.items@.len(),
                text@ == turn_content(self@.take(index as int), thread_id@, turn_id@),
            decreases self.items@.len() - index,
        {
            let item = &self.items[index];
            proof {
                let longer = self@.take(index + 1);
                assert(longer.drop_last() =~= self@.take(index as int));
                assert(longer.last() == item@);
            }
            if same_text(item.thread_id.as_str(), thread_id) && same_text(
                item.turn_id.as_str(),
                turn_id,
            ) {
                text.append(item.text.as_str());
            }
            index += 1;
        }
        assert(self@.take(index as int) =~= self@);
        truncate_output(text)
    }

    /// Takes the text of a turn out of the collection.
    pub fn finish_turn(&mut self, thread_id: &str, turn_id: &str) -> (text: String)
        ensures
            text@ == truncated(turn_content(old(self)@, thread_id@, turn_id@)),
            final(self)@ == other_turns(old(self)@, thread_id@, turn_id@),
    {
        let text = self.turn_text(thread_id, turn_id);
        let mut kept: Vec<OutputItem> = Vec::new();
        let mut index: usize = 0;
        let ghost mut kept_model: Seq<OutputItemModel> = Seq::empty();
        assert(self@.take(0) =~= Seq::<OutputItemModel>::empty());
        while index < self.items.len()
            invariant
                *self == *old(self),
                index <= self.items@.len(),
                kept_model == kept@.map_values(|item: OutputItem| item@),
                kept_model == other_turns(self@.take(index as int), thread_id@, turn_id@),
            decreases self.items@.len() - index,
        {
            let item = &self.items[index];
            proof {
                let longer = self@.take(index + 1);
                assert(longer.drop_last() =~= self@.take(index as int));
                assert(longer.last() == item@);
            }
            if !(same_text(item.thread_id.as_str(), thread_id) && same_text(
                item.turn_id.as_str(),
                turn_id,
            )) {
                let copy = OutputItem {
                    thread_id: item.thread_id.clone(),
                    turn_id: item.turn_id.clone(),
                    item_id: item.item_id.clone(),
                    text: item.text.clone(),
                };
                proof {
                    kept_model = kept_model.push(copy@);
                }
                kept.push(copy);
                assert(kept_model =~= kept@.map_values(|item: OutputItem| item@));
            }
            index += 1;
        }
        assert(self@.take(index as int) =~= self@);
        self.items = kept;
        text
    }
}

/// Behind the last blank line that ends at or before `end`.
pub open spec fn after_paragraph(text: Seq<char>, end: int) -> Option<int>
    decreases end,
{
    if end < 2 || end > text.len() {
        None
    } else if text[end - 2] == '\n' && text[end - 1] == '\n' {
        Some(end)
    } else {
        after_paragraph(text, end - 1)
    }
}

/// Behind the last line break that ends at or before `end`.
pub open spec fn after_line(text: Seq<char>, end: int) -> Option<int>
    decreases end,
{
    if end < 1 || end > text.len() {
        None
    } else if text[end - 1] == '\n' {
        Some(end)
    } else {
        after_line(text, end - 1)
    }
}

/// Behind the last whitespace that ends at or before `end`.
pub open spec fn after_space(text: Seq<char>, end: int) -> Option<int>
    decreases end,
{
    if end < 1 || end > text.len() {
        None
    } else if is_white(text[end - 1]) {
        Some(end)
    } else {
        after_space(text, end - 1)
    }
}

/// Where a text that is longer than `target` is split: behind a paragraph, a line
/// or a word, whichever comes first in this order, else at `target`.
pub open spec fn split_point(text: Seq<char>, target: int) -> int {
    match after_paragraph(text, target) {
        Some(end) => end,
        None => match after_line(text, target) {
            Some(end) => end,
            None => match after_space(text, target) {
                Some(end) => end,
                None => target,
            },
        },
    }
}

/// A split point lies within the target.
pub proof fn lemma_split_point(text: Seq<char>, target: int)
    requires
        0 < target <= text.len(),
    ensures
        1 <= split_point(text, target) <= target,
{
    lemma_after_paragraph(text, target);
    lemma_after_line(text, target);
    lemma_after_space(text, target);
}

proof fn lemma_after_paragraph(text: Seq<char>, end: int)
    ensures
        after_paragraph(text, end) matches Some(at) ==> 2 <= at <= end,
    decreases end,
{
    if 2 <= end <= text.len() {
        lemma_after_paragraph(text, end - 1);
    }
}

proof fn lemma_after_line(text: Seq<char>, end: int)
    ensures
        after_line(text, end) matches Some(at) ==> 1 <= at <= end,
    decreases end,
{
    if 1 <= end <= text.len() {
        lemma_after_line(text, end - 1);
    }
}

proof fn lemma_after_space(text: Seq<char>, end: int)
    ensures
        after_space(text, end) matches Some(at) ==> 1 <= at <= end,
    decreases end,
{
    if 1 <= end <= text.len() {
        lemma_after_space(text, end - 1);
    }
}

/// Dropping leading whitespace keeps everything else.
pub proof fn lemma_trimmed_start(text: Seq<char>)
    ensures
        trimmed_start(text).len() <= text.len(),
        inked(trimmed_start(text)) == inked(text),
    decreases text.len(),
{
    if text.len() > 0 && is_white(text[0]) {
        lemma_trimmed_start(text.skip(1));
        assert(text =~= seq![text[0]] + text.skip(1));
        lemma_inked_add(seq![text[0]], text.skip(1));
        assert(inked(seq![text[0]]) =~= Seq::<char>::empty()) by {
            assert(seq![text[0]].drop_last() =~= Seq::<char>::empty());
            assert(inked(Seq::<char>::empty()) =~= Seq::<char>::empty());
        }
        assert(inked(text) =~= inked(text.skip(1)));
    }
}

proof fn lemma_trimmed_end(text: Seq<char>)
    ensures
        trimmed_end(text).len() <= text.len(),
        inked(trimmed_end(text)) == inked(text),
    decreases text.len(),
{
    if text.len() > 0 && is_white(text.last()) {
        lemma_trimmed_end(text.drop_last());
    }
}

/// The characters of a text that are not whitespace.
pub open spec fn inked(text: Seq<char>) -> Seq<char>
    decreases text.len(),
{
    if text.len() == 0 {
        Seq::empty()
    } else if is_white(text.last()) {
        inked(text.drop_last())
    } else {
        inked(text.drop_last()).push(text.last())
    }
}

proof fn lemma_inked_add(left: Seq<char>, right: Seq<char>)
    ensures
        inked(left + right) == inked(left) + inked(right),
    decreases right.len(),
{
    if right.len() == 0 {
        assert(left + right =~= left);
        assert(inked(left) + inked(right) =~= inked(left));
    } else {
        lemma_inked_add(left, right.drop_last());
        assert((left + right).drop_last() =~= left + right.drop_last());
        assert((left + right).last() == right.last());
        assert(inked(left + right) =~= inked(left) + inked(right));
    }
}

/// The pieces of a text that begins with no whitespace.
pub open spec fn pieces_of(text: Seq<char>, target: int) -> Seq<Seq<char>>
    decreases text.len(),
{
    if text.len() == 0 || target <= 0 {
        Seq::empty()
    } else if text.len() <= target {
        seq![text]
    } else {
        let split = split_point(text, target);
        let rest = trimmed_start(text.skip(split));
        proof {
            lemma_split_point(text, target);
            lemma_trimmed_start(text.skip(split));
        }
        seq![trimmed_end(text.take(split))] + pieces_of(rest, target)
    }
}

/// The chunks of a text.
pub open spec fn chunks_of(text: Seq<char>, target: int) -> Seq<Seq<char>> {
    pieces_of(trimmed(text), target)
}

/// Where a text that is longer than `target` is split.
fn find_split(chars: &Vec<char>, from: usize, target: usize) -> (split: usize)
    requires
        0 < target,
        from + target <= chars@.len(),
    ensures
        split == split_point(chars@.skip(from as int), target as int),
        1 <= split <= target,
{
    let ghost text = chars@.skip(from as int);
    proof {
        lemma_split_point(text, target as int);
    }
    let total: usize = chars.len();
    let mut end: usize = target;
    while end >= 2
        invariant
            text == chars@.skip(from as int),
            from + target <= total == chars@.len(),
            end <= target,
            after_paragraph(text, end as int) == after_paragraph(text, target as int),
        decreases end,
    {
        assert(text[end - 2] == chars@[from + end - 2]);
        assert(text[end - 1] == chars@[from + end - 1]);
        if chars[from + end - 2] == '\n' && chars[from + end - 1] == '\n' {
            return end;
        }
        end -= 1;
    }
    end = target;
    while end >= 1
        invariant
            text == chars@.skip(from as int),
            from + target <= total == chars@.len(),
            end <= target,
            after_paragraph(text, target as int) is None,
            after_line(text, end as int) == after_line(text, target as int),
        decreases end,
    {
        assert(text[end - 1] == chars@[from + end - 1]);
        if chars[from + end - 1] == '\n' {
            return end;
        }
        end -= 1;
    }
    end = target;
    while end >= 1
        invariant
            text == chars@.skip(from as int),
            from + target <= total == chars@.len(),
            end <= target,
            after_paragraph(text, target as int) is None,
            after_line(text, target as int) is None,
            after_space(text, end as int) == after_space(text, target as int),
        decreases end,
    {
        assert(text[end - 1] == chars@[from + end - 1]);
        if is_whitespace(chars[from + end - 1]) {
            return end;
        }
        end -= 1;
    }
    target
}

/// Splits text by Unicode scalar values, preferring paragraph, line, then word boundaries.
pub fn chunk_text(text: &str, target_chars: usize) -> (chunks: Vec<String>)
    ensures
        texts(chunks@) == chunks_of(text@, target_chars as int),
{
    let all = chars_of(text);
    let mut chunks: Vec<String> = Vec::new();
    let start: usize = skip_white(&all, 0, all.len());
    let total: usize = skip_white_back(&all, start, all.len());
    let inner = text_between(&all, start, total);
    let chars = chars_of(inner.as_str());
    proof {
        assert(all@.subrange(0, all@.len() as int) =~= text@);
        assert(chars@ == trimmed(text@));
    }
    if target_chars == 0 {
        assert(texts(chunks@) =~= chunks_of(text@, 0));
        return chunks;
    }
    let length: usize = chars.len();
    let mut from: usize = 0;
    proof {
        assert(chars@.skip(0) =~= chars@);
        assert(texts(chunks@) + pieces_of(chars@, target_chars as int) =~= pieces_of(
            chars@,
            target_chars as int,
        ));
    }
    while length - from > target_chars
        invariant
            0 < target_chars,
            from <= length == chars@.len(),
            texts(chunks@) + pieces_of(chars@.skip(from as int), target_chars as int)
                == pieces_of(chars@, target_chars as int),
        decreases length - from,
    {
        let ghost before = chunks@;
        let split: usize = find_split(&chars, from, target_chars);
        let end: usize = skip_white_back(&chars, from, from + split);
        let chunk = text_between(&chars, from, end);
        chunks.push(chunk);
        let next: usize = skip_white(&chars, from + split, length);
        proof {
            let rest = chars@.skip(from as int);
            assert(rest.take(split as int) =~= chars@.subrange(from as int, from + split));
            assert(rest.skip(split as int) =~= chars@.subrange(from + split, length as int));
            assert(chars@.subrange(next as int, length as int) =~= chars@.skip(next as int));
            assert(texts(chunks@) =~= texts(before) + seq![chunk@]);
            assert(texts(before) + pieces_of(rest, target_chars as int) =~= texts(chunks@)
                + pieces_of(chars@.skip(next as int), target_chars as int));
        }
        from = next;
    }
    if from < length {
        let ghost before = chunks@;
        let chunk = text_between(&chars, from, length);
        chunks.push(chunk);
        proof {
            assert(chars@.skip(from as int) =~= chunk@);
            assert(texts(chunks@) =~= texts(before) + seq![chunk@]);
        }
    } else {
        proof {
            assert(chars@.skip(from as int) =~= Seq::<char>::empty());
            assert(texts(chunks@) =~= texts(chunks@) + pieces_of(
                chars@.skip(from as int),
                target_chars as int,
            ));
        }
    }
    chunks
}

/// The label of a chunk.
pub open spec fn chunk_label(index: nat, total: nat) -> Seq<char> {
    if total <= 1 {
        "[codex] "@
    } else {
        "[codex "@ + decimal_of(index + 1) + "/"@ + decimal_of(total) + "] "@
    }
}

/// The smaller of the target and what a message can hold beside its label.
pub open spec fn chunk_room(target: int) -> int {
    if target < MESSAGE_LIMIT - LABEL_RESERVE {
        target
    } else {
        MESSAGE_LIMIT - LABEL_RESERVE
    }
}

/// The chunks of a text, each with its label.
pub open spec fn labelled(text: Seq<char>, target: int) -> Seq<Seq<char>> {
    let chunks = chunks_of(text, chunk_room(target));
    Seq::new(
        chunks.len(),
        |i: int| chunk_label(i as nat, chunks.len()) + chunks[i],
    )
}

/// Splits text into chunks that each say which part they are.
pub fn labelled_chunks(text: &str, target_chars: usize) -> (chunks: Vec<String>)
    ensures
        texts(chunks@) == labelled(text@, target_chars as int),
{
    let room: usize = if target_chars < MESSAGE_LIMIT - LABEL_RESERVE {
        target_chars
    } else {
        MESSAGE_LIMIT - LABEL_RESERVE
    };
    let plain = chunk_text(text, room);
    let total: usize = plain.len();
    let mut chunks: Vec<String> = Vec::new();
    let mut index: usize = 0;
    let ghost pieces = chunks_of(text@, chunk_room(target_chars as int));
    while index < total
        invariant
            index <= total == plain@.len(),
            texts(plain@) == pieces,
            pieces.len() == total,
            chunks@.len() == index,
            forall|i: int|
                0 <= i < index ==> (#[trigger] chunks@[i])@ == chunk_label(i as nat, total as nat)
                    + pieces[i],
        decreases total - index,
    {
        assert(pieces[index as int] == plain@[index as int]@);
        let mut chunk = if total <= 1 {
            "[codex] ".to_owned()
        } else {
            let mut label = "[codex ".to_owned();
            let number = decimal((index + 1) as u64);
            label.append(number.as_str());
            label.append("/");
            let count = decimal(total as u64);
            label.append(count.as_str());
            label.append("] ");
            label
        };
        chunk.append(plain[index].as_str());
        chunks.push(chunk);
        index += 1;
    }
    assert(texts(chunks@) =~= labelled(text@, target_chars as int));
    chunks
}

/// The chunks one after the other.
pub open spec fn run_together(chunks: Seq<Seq<char>>) -> Seq<char>
    decreases chunks.len(),
{
    if chunks.len() == 0 {
        Seq::empty()
    } else {
        chunks[0] + run_together(chunks.skip(1))
    }
}

proof fn lemma_pieces(text: Seq<char>, target: int)
    requires
        target > 0,
    ensures
        inked(run_together(pieces_of(text, target))) == inked(text),
        forall|i: int|
            0 <= i < pieces_of(text, target).len() ==> (#[trigger] pieces_of(
                text,
                target,
            )[i]).len() <= target,
        pieces_of(text, target).len() <= text.len(),
    decreases text.len(),
{
    let pieces = pieces_of(text, target);
    if text.len() == 0 {
        assert(run_together(pieces) =~= text);
    } else if text.len() <= target {
        assert(pieces.skip(1) =~= Seq::<Seq<char>>::empty());
        assert(run_together(Seq::<Seq<char>>::empty()) =~= Seq::<char>::empty());
        assert(run_together(pieces) =~= text);
    } else {
        let split = split_point(text, target);
        let rest = trimmed_start(text.skip(split));
        lemma_split_point(text, target);
        lemma_trimmed_start(text.skip(split));
        lemma_trimmed_end(text.take(split));
        lemma_pieces(rest, target);
        assert(pieces.skip(1) =~= pieces_of(rest, target));
        lemma_inked_add(trimmed_end(text.take(split)), run_together(pieces_of(rest, target)));
        lemma_inked_add(text.take(split), text.skip(split));
        assert(text.take(split) + text.skip(split) =~= text);
        assert forall|i: int| 0 <= i < pieces.len() implies (#[trigger] pieces[i]).len()
            <= target by {
            if i > 0 {
                assert(pieces[i] == pieces_of(rest, target)[i - 1]);
            }
        }
    }
}

/// Chunking loses nothing but whitespace, and no chunk is longer than the target.
pub proof fn chunking_keeps_the_text(text: Seq<char>, target: int)
    requires
        target > 0,
    ensures
        inked(run_together(chunks_of(text, target))) == inked(text),
        forall|i: int|
            0 <= i < chunks_of(text, target).len() ==> (#[trigger] chunks_of(
                text,
                target,
            )[i]).len() <= target,
{
    lemma_trimmed_start(text);
    lemma_trimmed_end(trimmed_start(text));
    lemma_pieces(trimmed(text), target);
}

/// Ten to the power of `digits`.
pub open spec fn ten_to(digits: nat) -> nat
    decreases digits,
{
    if digits == 0 {
        1
    } else {
        10 * ten_to((digits - 1) as nat)
    }
}

proof fn lemma_decimal_length(number: nat, digits: nat)
    requires
        number < ten_to(digits),
        digits >= 1,
    ensures
        decimal_of(number).len() <= digits,
    decreases number,
{
    if number >= 10 {
        assert(ten_to(0) == 1);
        assert(digits > 1);
        lemma_decimal_length(number / 10, (digits - 1) as nat);
    }
}

/// A labelled chunk fits into a message, as long as there are fewer than ten
/// billion of them.
pub proof fn labels_fit_within_the_limit(text: Seq<char>, target: int)
    requires
        target > 0,
        labelled(text, target).len() < 10_000_000_000,
    ensures
        forall|i: int|
            0 <= i < labelled(text, target).len() ==> (#[trigger] labelled(text, target)[i]).len()
                <= MESSAGE_LIMIT,
{
    let room = chunk_room(target);
    let chunks = chunks_of(text, room);
    chunking_keeps_the_text(text, room);
    reveal_strlit("[codex] ");
    reveal_strlit("[codex ");
    reveal_strlit("/");
    reveal_strlit("] ");
    assert(ten_to(11) == 100_000_000_000) by {
        reveal_with_fuel(ten_to, 12);
    }
    assert forall|i: int| 0 <= i < chunks.len() implies (#[trigger] labelled(
        text,
        target,
    )[i]).len() <= MESSAGE_LIMIT by {
        lemma_decimal_length((i + 1) as nat, 11);
        lemma_decimal_length(chunks.len(), 11);
        assert(chunks[i].len() <= room);
    }
}

/// The items after several pieces of streamed text for one of them, in order.
pub open spec fn deltas_pushed(
    items: Seq<OutputItemModel>,
    thread_id: Seq<char>,
    turn_id: Seq<char>,
    item_id: Seq<char>,
    deltas: Seq<Seq<char>>,
) -> Seq<OutputItemModel>
    decreases deltas.len(),
{
    if deltas.len() == 0 {
        items
    } else {
        delta_pushed(
            deltas_pushed(items, thread_id, turn_id, item_id, deltas.drop_last()),
            thread_id,
            turn_id,
            item_id,
            deltas.last(),
        )
    }
}

/// Pieces of text, put together again.
pub open spec fn whole(deltas: Seq<Seq<char>>) -> Seq<char>
    decreases deltas.len(),
{
    if deltas.len() == 0 {
        Seq::empty()
    } else {
        whole(deltas.drop_last()) + deltas.last()
    }
}

/// Whether the notice of a truncation occurs nowhere in a text before its end.
pub open spec fn is_unmarked(text: Seq<char>) -> bool {
    forall|k: int| 0 <= k < text.len() ==> !ends(#[trigger] text.take(k), TRUNCATION_NOTICE@)
}

/// Whether a turn has no item.
pub open spec fn is_new_turn(
    items: Seq<OutputItemModel>,
    thread_id: Seq<char>,
    turn_id: Seq<char>,
) -> bool {
    forall|i: int| 0 <= i < items.len() ==> !of_turn(#[trigger] items[i], thread_id, turn_id)
}

proof fn lemma_new_turn(
    items: Seq<OutputItemModel>,
    thread_id: Seq<char>,
    turn_id: Seq<char>,
    item: OutputItemModel,
)
    requires
        is_new_turn(items, thread_id, turn_id),
        of_turn(item, thread_id, turn_id),
    ensures
        turn_count(items, thread_id, turn_id) == 0,
        turn_content(items, thread_id, turn_id) == Seq::<char>::empty(),
        output_item_from(items, thread_id, turn_id, item.item_id, 0) is None,
        output_item_from(items.push(item), thread_id, turn_id, item.item_id, 0) == Some(
            items.len() as int,
        ),
{
    lemma_new_turn_is_empty(items, thread_id, turn_id);
    lemma_search_in_new_turn(items, thread_id, turn_id, item, 0);
}

proof fn lemma_new_turn_is_empty(
    items: Seq<OutputItemModel>,
    thread_id: Seq<char>,
    turn_id: Seq<char>,
)
    requires
        is_new_turn(items, thread_id, turn_id),
    ensures
        turn_count(items, thread_id, turn_id) == 0,
        turn_content(items, thread_id, turn_id) == Seq::<char>::empty(),
    decreases items.len(),
{
    if items.len() > 0 {
        let shorter = items.drop_last();
        assert forall|i: int| 0 <= i < shorter.len() implies !of_turn(
            #[trigger] shorter[i],
            thread_id,
            turn_id,
        ) by {
            assert(shorter[i] == items[i]);
        }
        assert(!of_turn(items[items.len() - 1], thread_id, turn_id));
        lemma_new_turn_is_empty(shorter, thread_id, turn_id);
    }
}

proof fn lemma_search_in_new_turn(
    items: Seq<OutputItemModel>,
    thread_id: Seq<char>,
    turn_id: Seq<char>,
    item: OutputItemModel,
    from: int,
)
    requires
        is_new_turn(items, thread_id, turn_id),
        of_turn(item, thread_id, turn_id),
        0 <= from <= items.len(),
    ensures
        output_item_from(items, thread_id, turn_id, item.item_id, from) is None,
        output_item_from(items.push(item), thread_id, turn_id, item.item_id, from) == Some(
            items.len() as int,
        ),
    decreases items.len() - from,
{
    if from < items.len() {
        assert(!of_turn(items[from], thread_id, turn_id));
        assert(items.push(item)[from] == items[from]);
        lemma_search_in_new_turn(items, thread_id, turn_id, item, from + 1);
    }
}

proof fn lemma_notice_ends(text: Seq<char>)
    ensures
        ends(text + TRUNCATION_NOTICE@, TRUNCATION_NOTICE@),
{
    let marked = text + TRUNCATION_NOTICE@;
    assert(marked.skip(marked.len() - TRUNCATION_NOTICE@.len()) =~= TRUNCATION_NOTICE@);
    assert(marked.subrange(
        marked.len() - TRUNCATION_NOTICE@.len(),
        marked.len() as int,
    ) =~= TRUNCATION_NOTICE@);
}

proof fn lemma_appended_is_truncated(text: Seq<char>, delta: Seq<char>)
    requires
        is_unmarked(text + delta),
    ensures
        appended(truncated(text), delta) == truncated(text + delta),
{
    lemma_notice_fits();
    let all = text + delta;
    let kept = kept_chars();
    if text.len() > MAX_ASSISTANT_OUTPUT_CHARS {
        lemma_notice_ends(text.take(kept));
        assert(all.take(kept) =~= text.take(kept));
    } else if delta.len() == 0 {
        assert(all =~= text);
    } else {
        assert(all.take(text.len() as int) =~= text);
        assert(!ends(text, TRUNCATION_NOTICE@));
        if all.len() > MAX_ASSISTANT_OUTPUT_CHARS {
            assert(!ends(all.take(kept), TRUNCATION_NOTICE@));
            if text.len() <= kept {
                assert(text + delta.take(kept - text.len()) =~= all.take(kept));
            } else {
                assert(all.take(kept) =~= text.take(kept));
            }
        }
    }
}

proof fn lemma_unmarked_start(text: Seq<char>, delta: Seq<char>)
    requires
        is_unmarked(text + delta),
    ensures
        is_unmarked(text),
{
    assert forall|k: int| 0 <= k < text.len() implies !ends(
        #[trigger] text.take(k),
        TRUNCATION_NOTICE@,
    ) by {
        assert((text + delta).take(k) =~= text.take(k));
    }
}

proof fn lemma_deltas_pushed(
    items: Seq<OutputItemModel>,
    thread_id: Seq<char>,
    turn_id: Seq<char>,
    item_id: Seq<char>,
    deltas: Seq<Seq<char>>,
)
    requires
        is_new_turn(items, thread_id, turn_id),
        is_unmarked(whole(deltas)),
        deltas.len() > 0,
    ensures
        deltas_pushed(items, thread_id, turn_id, item_id, deltas) == items.push(
            OutputItemModel { thread_id, turn_id, item_id, text: truncated(whole(deltas)) },
        ),
    decreases deltas.len(),
{
    let fewer = deltas.drop_last();
    let before = OutputItemModel { thread_id, turn_id, item_id, text: truncated(whole(fewer)) };
    let after = OutputItemModel { thread_id, turn_id, item_id, text: truncated(whole(deltas)) };
    lemma_unmarked_start(whole(fewer), deltas.last());
    lemma_appended_is_truncated(whole(fewer), deltas.last());
    lemma_new_turn(items, thread_id, turn_id, before);
    if fewer.len() > 0 {
        lemma_deltas_pushed(items, thread_id, turn_id, item_id, fewer);
        let held = items.push(before);
        assert(held.update(items.len() as int, after) =~= items.push(after));
    } else {
        assert(truncated(whole(fewer)) =~= Seq::<char>::empty());
    }
}

/// However a text is cut into pieces, a turn whose only item receives them comes to that
/// text, within the limit, and the text of every other turn stays. Left out are texts
/// that have the notice of a truncation before their end: what follows it is taken for
/// truncated already.
pub proof fn pieces_come_to_the_whole(
    items: Seq<OutputItemModel>,
    thread_id: Seq<char>,
    turn_id: Seq<char>,
    item_id: Seq<char>,
    deltas: Seq<Seq<char>>,
)
    requires
        is_new_turn(items, thread_id, turn_id),
        is_unmarked(whole(deltas)),
    ensures
        ({
            let after = deltas_pushed(items, thread_id, turn_id, item_id, deltas);
            &&& truncated(turn_content(after, thread_id, turn_id)) == truncated(whole(deltas))
            &&& forall|thread: Seq<char>, turn: Seq<char>|
                thread != thread_id || turn != turn_id ==> #[trigger] turn_content(
                    after,
                    thread,
                    turn,
                ) == turn_content(items, thread, turn)
        }),
{
    lemma_notice_fits();
    lemma_new_turn_is_empty(items, thread_id, turn_id);
    if deltas.len() > 0 {
        lemma_deltas_pushed(items, thread_id, turn_id, item_id, deltas);
        let item = OutputItemModel {
            thread_id,
            turn_id,
            item_id,
            text: truncated(whole(deltas)),
        };
        let after = items.push(item);
        assert(after.drop_last() =~= items);
        assert(after.last() == item);
        assert(turn_content(after, thread_id, turn_id) =~= item.text);
        assert forall|thread: Seq<char>, turn: Seq<char>|
            thread != thread_id || turn != turn_id implies #[trigger] turn_content(
            after,
            thread,
            turn,
        ) == turn_content(items, thread, turn) by {
            assert(!of_turn(item, thread, turn));
        }
    }
}

/// Whether a blank line ends at a position.
pub open spec fn ends_paragraph(text: Seq<char>, at: int) -> bool {
    2 <= at <= text.len() && text[at - 2] == '\n' && text[at - 1] == '\n'
}

/// Whether a line ends at a position.
pub open spec fn ends_line(text: Seq<char>, at: int) -> bool {
    1 <= at <= text.len() && text[at - 1] == '\n'
}

/// Whether whitespace ends at a position.
pub open spec fn ends_space(text: Seq<char>, at: int) -> bool {
    1 <= at <= text.len() && is_white(text[at - 1])
}

/// Whether a split is the best one within `target`: behind the last blank line, where
/// there is none behind the last line, where there is none behind the last whitespace,
/// and only where there is none of these within a word.
pub open spec fn is_best_split(text: Seq<char>, target: int, split: int) -> bool {
    &&& 1 <= split <= target
    &&& ends_paragraph(text, split) || forall|at: int|
        at <= target ==> !(#[trigger] ends_paragraph(text, at))
    &&& ends_paragraph(text, split) || ends_line(text, split) || forall|at: int|
        at <= target ==> !(#[trigger] ends_line(text, at))
    &&& ends_space(text, split) || (split == target && forall|at: int|
        at <= target ==> !(#[trigger] ends_space(text, at)))
    &&& ends_paragraph(text, split) ==> forall|at: int|
        split < at <= target ==> !(#[trigger] ends_paragraph(text, at))
    &&& !ends_paragraph(text, split) && ends_line(text, split) ==> forall|at: int|
        split < at <= target ==> !(#[trigger] ends_line(text, at))
    &&& !ends_paragraph(text, split) && !ends_line(text, split) && ends_space(text, split)
        ==> forall|at: int| split < at <= target ==> !(#[trigger] ends_space(text, at))
}

proof fn lemma_last_paragraph(text: Seq<char>, end: int)
    requires
        end <= text.len(),
    ensures
        match after_paragraph(text, end) {
            Some(at) => at <= end && ends_paragraph(text, at) && forall|k: int|
                at < k <= end ==> !(#[trigger] ends_paragraph(text, k)),
            None => forall|k: int| k <= end ==> !(#[trigger] ends_paragraph(text, k)),
        },
    decreases end,
{
    if end >= 2 && !ends_paragraph(text, end) {
        lemma_last_paragraph(text, end - 1);
    }
}

proof fn lemma_last_line(text: Seq<char>, end: int)
    requires
        end <= text.len(),
    ensures
        match after_line(text, end) {
            Some(at) => at <= end && ends_line(text, at) && forall|k: int|
                at < k <= end ==> !(#[trigger] ends_line(text, k)),
            None => forall|k: int| k <= end ==> !(#[trigger] ends_line(text, k)),
        },
    decreases end,
{
    if end >= 1 && !ends_line(text, end) {
        lemma_last_line(text, end - 1);
    }
}

proof fn lemma_last_space(text: Seq<char>, end: int)
    requires
        end <= text.len(),
    ensures
        match after_space(text, end) {
            Some(at) => at <= end && ends_space(text, at) && forall|k: int|
                at < k <= end ==> !(#[trigger] ends_space(text, k)),
            None => forall|k: int| k <= end ==> !(#[trigger] ends_space(text, k)),
        },
    decreases end,
{
    if end >= 1 && !ends_space(text, end) {
        lemma_last_space(text, end - 1);
    }
}

/// A text is split behind a blank line where there is one within the target, else behind
/// a line, else behind whitespace; a word is cut only where it fills the target.
pub proof fn splits_are_at_boundaries(text: Seq<char>, target: int)
    requires
        0 < target <= text.len(),
    ensures
        is_best_split(text, target, split_point(text, target)),
{
    lemma_last_paragraph(text, target);
    lemma_last_line(text, target);
    lemma_last_space(text, target);
    let split = split_point(text, target);
    if ends_paragraph(text, split) {
        assert(ends_line(text, split));
    }
    if ends_line(text, split) {
        assert(is_white('\n'));
        assert(ends_space(text, split));
    }
}

/// Whether a chunk is cut out of a text at an offset, with the next one, if any, at
/// another: the text stands there as it is, nothing but whitespace lies between the two,
/// the chunk neither begins nor ends with any, and one is followed by another only where
/// the rest did not fit, at the best split.
pub open spec fn is_cut_at(
    text: Seq<char>,
    target: int,
    chunk: Seq<char>,
    from: int,
    next: Option<int>,
) -> bool {
    let end = from + chunk.len();
    &&& 0 <= from < end <= text.len()
    &&& chunk.len() <= target
    &&& chunk == text.subrange(from, end)
    &&& !is_white(chunk[0])
    &&& !is_white(chunk.last())
    &&& match next {
        Some(other) => {
            &&& end <= other < text.len()
            &&& is_blank(text.subrange(end, other))
            &&& text.len() - from > target
            &&& exists|split: int|
                #[trigger] is_best_split(text.skip(from), target, split) && end <= from + split
                    <= other
            &&& end == other ==> chunk.len() == target && forall|k: int|
                0 <= k < chunk.len() ==> !is_white(#[trigger] chunk[k])
        },
        None => end == text.len(),
    }
}

/// Where the next chunk begins, if there is one.
pub open spec fn next_offset(offsets: Seq<int>, index: int) -> Option<int> {
    if index + 1 < offsets.len() {
        Some(offsets[index + 1])
    } else {
        None
    }
}

/// Whether chunks are cut out of a text in order, the first one at its beginning.
pub open spec fn are_cut_out(
    text: Seq<char>,
    target: int,
    chunks: Seq<Seq<char>>,
    offsets: Seq<int>,
) -> bool {
    &&& offsets.len() == chunks.len()
    &&& text.len() == 0 <==> chunks.len() == 0
    &&& chunks.len() > 0 ==> offsets[0] == 0
    &&& forall|i: int|
        0 <= i < chunks.len() ==> is_cut_at(
            text,
            target,
            #[trigger] chunks[i],
            offsets[i],
            next_offset(offsets, i),
        )
}

proof fn lemma_cut_further_on(
    text: Seq<char>,
    start: int,
    target: int,
    chunk: Seq<char>,
    from: int,
    next: Option<int>,
)
    requires
        0 <= start <= text.len(),
        is_cut_at(text.skip(start), target, chunk, from, next),
    ensures
        is_cut_at(
            text,
            target,
            chunk,
            from + start,
            match next {
                Some(other) => Some(other + start),
                None => None,
            },
        ),
{
    let rest = text.skip(start);
    let end = from + chunk.len();
    assert(text.subrange(from + start, end + start) =~= rest.subrange(from, end));
    assert(text.skip(from + start) =~= rest.skip(from));
    if let Some(other) = next {
        assert(text.subrange(end + start, other + start) =~= rest.subrange(end, other));
        let split = choose|split: int|
            #[trigger] is_best_split(rest.skip(from), target, split) && end <= from + split
                <= other;
        assert(is_best_split(text.skip(from + start), target, split));
    }
}

proof fn lemma_pieces_are_cut_out(text: Seq<char>, target: int) -> (offsets: Seq<int>)
    requires
        target > 0,
        text.len() > 0 ==> !is_white(text[0]) && !is_white(text.last()),
    ensures
        are_cut_out(text, target, pieces_of(text, target), offsets),
    decreases text.len(),
{
    if text.len() == 0 {
        Seq::empty()
    } else if text.len() <= target {
        assert(text.subrange(0, text.len() as int) =~= text);
        seq![0int]
    } else {
        let left = text.skip(split_point(text, target));
        let rest = trimmed_start(left);
        let start = text.len() - rest.len();
        lemma_first_piece(text, target);
        let chunk = trimmed_end(text.take(split_point(text, target)));
        let shifted = lemma_pieces_are_cut_out(rest, target);
        let pieces = pieces_of(rest, target);
        let all = seq![chunk] + pieces;
        assert(pieces_of(text, target) == all);
        let offsets = seq![0int] + Seq::new(shifted.len(), |i: int| shifted[i] + start);
        assert(offsets[1] == start);
        assert forall|i: int| 0 <= i < all.len() implies is_cut_at(
            text,
            target,
            #[trigger] all[i],
            offsets[i],
            next_offset(offsets, i),
        ) by {
            if i > 0 {
                assert(all[i] == pieces[i - 1]);
                assert(offsets[i] == shifted[i - 1] + start);
                lemma_cut_further_on(
                    text,
                    start,
                    target,
                    pieces[i - 1],
                    shifted[i - 1],
                    next_offset(shifted, i - 1),
                );
            }
        }
        offsets
    }
}

proof fn lemma_first_piece(text: Seq<char>, target: int)
    requires
        0 < target < text.len(),
        !is_white(text[0]),
        !is_white(text.last()),
    ensures
        ({
            let split = split_point(text, target);
            let rest = trimmed_start(text.skip(split));
            let start = text.len() - rest.len();
            &&& 0 < start < text.len()
            &&& rest == text.skip(start)
            &&& !is_white(rest[0])
            &&& !is_white(rest.last())
            &&& is_cut_at(text, target, trimmed_end(text.take(split)), 0, Some(start))
        }),
{
    let split = split_point(text, target);
    splits_are_at_boundaries(text, target);
    let head = text.take(split);
    let chunk = trimmed_end(head);
    let left = text.skip(split);
    let rest = trimmed_start(left);
    trimming_the_end_drops_only_space(head);
    trimming_the_start_drops_only_space(left);
    let start = text.len() - rest.len();
    let end = chunk.len() as int;
    assert(rest =~= text.skip(start));
    if rest.len() == 0 {
        assert(left.take(left.len() as int)[left.len() - 1] == text.last());
    }
    assert(rest.last() == text.last());
    if end == 0 {
        assert(head.skip(0)[0] == text[0]);
    }
    assert(chunk =~= text.subrange(0, end));
    assert(chunk[0] == text[0]);
    assert(text.skip(0) =~= text);
    assert forall|i: int| 0 <= i < start - end implies is_white(
        #[trigger] text.subrange(end, start)[i],
    ) by {
        if end + i < split {
            assert(head.skip(end)[i] == text[end + i]);
        } else {
            assert(left.take(start - split)[end + i - split] == text[end + i]);
        }
    }
    assert(is_best_split(text.skip(0), target, split));
    if end == start {
        assert(split == end);
        assert(chunk.last() == text[split - 1]);
        assert(!ends_space(text, split));
        assert forall|k: int| 0 <= k < end implies !is_white(#[trigger] chunk[k]) by {
            assert(!ends_space(text, k + 1));
        }
    }
}

/// A text is cut into chunks in order, at paragraph, line and word boundaries: within the
/// chunks nothing changes, between them nothing but whitespace is dropped, and a text
/// that fits stays whole.
pub proof fn chunks_are_cut_out_of_the_text(text: Seq<char>, target: int)
    requires
        target > 0,
    ensures
        exists|offsets: Seq<int>|
            #[trigger] are_cut_out(trimmed(text), target, chunks_of(text, target), offsets),
        0 < trimmed(text).len() <= target ==> chunks_of(text, target) == seq![trimmed(text)],
{
    trimming_the_start_drops_only_space(text);
    trimming_the_end_drops_only_space(trimmed_start(text));
    let inner = trimmed(text);
    if inner.len() > 0 {
        assert(inner[0] == trimmed_start(text)[0]);
    }
    let offsets = lemma_pieces_are_cut_out(inner, target);
    assert(are_cut_out(inner, target, chunks_of(text, target), offsets));
}

/// A chunk says which part it is of how many, and then nothing but the chunk; a single
/// one has no number.
pub proof fn labels_number_the_chunks(text: Seq<char>, target: int, index: int)
    requires
        0 <= index < labelled(text, target).len(),
    ensures
        ({
            let total = labelled(text, target).len();
            let room = if target < 4_064 {
                target
            } else {
                4_064
            };
            let chunks = chunks_of(text, room);
            &&& total == chunks.len()
            &&& labelled(text, target)[index] == if total == 1 {
                "[codex] "@ + chunks[index]
            } else {
                "[codex "@ + decimal_of((index + 1) as nat) + "/"@ + decimal_of(total) + "] "@
                    + chunks[index]
            }
        }),
{
}

/// A finished turn is forgotten, and the text of every other turn stays.
pub proof fn finished_turns_are_forgotten(
    items: Seq<OutputItemModel>,
    thread_id: Seq<char>,
    turn_id: Seq<char>,
    thread: Seq<char>,
    turn: Seq<char>,
)
    ensures
        ({
            let left = other_turns(items, thread_id, turn_id);
            &&& is_new_turn(left, thread_id, turn_id)
            &&& thread != thread_id || turn != turn_id ==> turn_content(left, thread, turn)
                == turn_content(items, thread, turn)
        }),
    decreases items.len(),
{
    if items.len() > 0 {
        let shorter = items.drop_last();
        finished_turns_are_forgotten(shorter, thread_id, turn_id, thread, turn);
        let earlier = other_turns(shorter, thread_id, turn_id);
        if !of_turn(items.last(), thread_id, turn_id) {
            let left = earlier.push(items.last());
            assert(left.drop_last() =~= earlier);
            assert forall|i: int| 0 <= i < left.len() implies !of_turn(
                #[trigger] left[i],
                thread_id,
                turn_id,
            ) by {
                if i < earlier.len() {
                    assert(left[i] == earlier[i]);
                }
            }
        }
    }
}

/// The text of a turn goes by the order in which its items first appeared: a new item
/// stands behind all others.
pub proof fn new_items_follow_the_others(
    items: Seq<OutputItemModel>,
    thread_id: Seq<char>,
    turn_id: Seq<char>,
    item_id: Seq<char>,
    delta: Seq<char>,
)
    requires
        forall|i: int|
            0 <= i < items.len() ==> !((#[trigger] items[i]).thread_id == thread_id
                && items[i].turn_id == turn_id && items[i].item_id == item_id),
        turn_count(items, thread_id, turn_id) < 64,
        delta.len() <= 100_000,
    ensures
        turn_content(
            delta_pushed(items, thread_id, turn_id, item_id, delta),
            thread_id,
            turn_id,
        ) == turn_content(items, thread_id, turn_id) + delta,
{
    lemma_no_such_item(items, thread_id, turn_id, item_id, 0);
    lemma_notice_fits();
    let item = OutputItemModel { thread_id, turn_id, item_id, text: delta };
    assert(!ends(Seq::<char>::empty(), TRUNCATION_NOTICE@));
    assert(Seq::<char>::empty() + delta =~= delta);
    let after = delta_pushed(items, thread_id, turn_id, item_id, delta);
    assert(after == items.push(item));
    assert(after.drop_last() =~= items);
}

proof fn lemma_no_such_item(
    items: Seq<OutputItemModel>,
    thread_id: Seq<char>,
    turn_id: Seq<char>,
    item_id: Seq<char>,
    from: int,
)
    requires
        0 <= from,
        forall|i: int|
            0 <= i < items.len() ==> !((#[trigger] items[i]).thread_id == thread_id
                && items[i].turn_id == turn_id && items[i].item_id == item_id),
    ensures
        output_item_from(items, thread_id, turn_id, item_id, from) is None,
    decreases items.len() - from,
{
    if from < items.len() {
        assert(!(items[from].item_id == item_id && of_turn(items[from], thread_id, turn_id)));
        lemma_no_such_item(items, thread_id, turn_id, item_id, from + 1);
    }
}

/// An output that is too long keeps its beginning and says so, within the limit; any
/// other stays as it is.
pub proof fn long_outputs_keep_their_beginning(output: Seq<char>)
    ensures
        ({
            let shown = truncated(output);
            &&& shown.len() <= 100_000
            &&& output.len() <= 100_000 ==> shown == output
            &&& output.len() > 100_000 ==> shown.len() == 100_000 && ends(
                shown,
                "\n\n[codex] Output truncated at 100,000 characters."@,
            ) && shown.take(99_900) == output.take(99_900)
        }),
{
    lemma_notice_fits();
    if output.len() > 100_000 {
        lemma_notice_ends(output.take(kept_chars()));
        assert(truncated(output).take(99_900) =~= output.take(99_900));
    }
}

} // verus!
