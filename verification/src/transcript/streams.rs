//! What streams into a projection: pieces of text come together in their order, and what
//! belongs to one item reaches no other.

use crate::protocol::change_models;
use crate::protocol::ItemModel;
use crate::protocol::ServerNotification;
use super::model::EventModel;
use super::model::KeyModel;
use super::projector::applied;
use super::projector::entry_of;
use super::projector::lemma_entry_from;
use super::projector::started_over;
use super::projector::ProjectorModel;
use crate::text::ends;
use crate::text::mentions;
use crate::text::joined_texts_mention_each;
use super::model::plain_text_of;
use vstd::prelude::*;

verus! {

/// What streams in as text: an assistant message or a plan.
pub enum TextKind {
    Message,
    Plan,
}

/// The piece of text that a notification carries for an item.
pub open spec fn piece_for(
    notification: ServerNotification,
    key: KeyModel,
    kind: TextKind,
) -> Option<Seq<char>> {
    match (notification, kind) {
        (ServerNotification::AgentMessageDelta(delta), TextKind::Message) => if delta.thread_id@
            == key.thread_id && delta.turn_id@ == key.turn_id && delta.item_id@ == key.item_id {
            Some(delta.delta@)
        } else {
            None
        },
        (ServerNotification::PlanDelta(delta), TextKind::Plan) => if delta.thread_id@
            == key.thread_id && delta.turn_id@ == key.turn_id && delta.item_id@ == key.item_id {
            Some(delta.delta@)
        } else {
            None
        },
        _ => None,
    }
}

/// The text of an item of a kind.
pub open spec fn text_held(item: ItemModel, kind: TextKind) -> Option<Seq<char>> {
    match (item, kind) {
        (ItemModel::AgentMessage { text, .. }, TextKind::Message) => Some(text),
        (ItemModel::Plan { text, .. }, TextKind::Plan) => Some(text),
        _ => None,
    }
}

/// Whether a projection holds nothing under a key.
pub open spec fn is_free(state: ProjectorModel, key: KeyModel) -> bool {
    forall|i: int| 0 <= i < state.entries.len() ==> (#[trigger] state.entries[i]).key != key
}

/// Whether a projection holds an entry under a key at an index, and there first.
pub open spec fn is_held_at(state: ProjectorModel, key: KeyModel, index: int) -> bool {
    0 <= index < state.entries.len() && state.entries[index].key == key && forall|i: int|
        0 <= i < index ==> (#[trigger] state.entries[i]).key != key
}

/// Whether two projections hold the same entries but for the one at an index, which keeps
/// its key.
pub open spec fn differ_at_most_at(
    before: ProjectorModel,
    after: ProjectorModel,
    index: int,
) -> bool {
    &&& after.entries.len() == before.entries.len()
    &&& after.entries[index].key == before.entries[index].key
    &&& after.entries[index].origin == before.entries[index].origin
    &&& forall|i: int|
        0 <= i < before.entries.len() && i != index ==> after.entries[i]
            == #[trigger] before.entries[i]
}

/// The first piece of a text makes a new entry with exactly this text, which is not yet
/// final.
pub proof fn first_pieces_make_an_entry(
    before: ProjectorModel,
    notification: ServerNotification,
    key: KeyModel,
    kind: TextKind,
)
    requires
        piece_for(notification, key, kind) is Some,
        is_free(before, key),
    ensures
        ({
            let (after, events) = applied(before, notification);
            let entry = after.entries.last();
            &&& after.entries == before.entries.push(entry)
            &&& entry.key == key
            &&& !entry.committed
            &&& text_held(entry.item, kind) == piece_for(notification, key, kind)
            &&& events == seq![EventModel::Entry(entry)]
        }),
{
    lemma_entry_from(before.entries, key, 0);
    let (after, events) = applied(before, notification);
    assert(after.entries =~= before.entries.push(after.entries.last()));
}

/// A piece of text is appended to what its item holds: the entry then has the text that it
/// had, followed by the piece, and no other entry changes.
pub proof fn later_pieces_are_appended(
    before: ProjectorModel,
    notification: ServerNotification,
    key: KeyModel,
    kind: TextKind,
    index: int,
)
    requires
        piece_for(notification, key, kind) is Some,
        is_held_at(before, key, index),
        !before.entries[index].committed,
        text_held(before.entries[index].item, kind) is Some,
    ensures
        ({
            let (after, events) = applied(before, notification);
            let entry = after.entries[index];
            &&& differ_at_most_at(before, after, index)
            &&& !entry.committed
            &&& text_held(entry.item, kind) == Some(
                text_held(before.entries[index].item, kind)->0 + piece_for(
                    notification,
                    key,
                    kind,
                )->0,
            )
            &&& events == seq![EventModel::Entry(entry)] || (events.len() == 0 && after == before)
        }),
{
    lemma_entry_from(before.entries, key, 0);
    assert(entry_of(before.entries, key) == Some(index));
}

/// A piece of text for an item that is final, or of another kind, changes nothing and says
/// nothing.
pub proof fn stray_pieces_change_nothing(
    before: ProjectorModel,
    notification: ServerNotification,
    key: KeyModel,
    kind: TextKind,
    index: int,
)
    requires
        piece_for(notification, key, kind) is Some,
        is_held_at(before, key, index),
        before.entries[index].committed || text_held(before.entries[index].item, kind) is None,
    ensures
        applied(before, notification) == (before, Seq::<EventModel>::empty()),
{
    lemma_entry_from(before.entries, key, 0);
    assert(entry_of(before.entries, key) == Some(index));
}

/// The projection after several notifications, one after the other.
pub open spec fn all_applied(
    before: ProjectorModel,
    notifications: Seq<ServerNotification>,
) -> ProjectorModel
    decreases notifications.len(),
{
    if notifications.len() == 0 {
        before
    } else {
        applied(all_applied(before, notifications.drop_last()), notifications.last()).0
    }
}

/// The pieces that notifications carry for an item, one after the other.
pub open spec fn pieces_together(
    notifications: Seq<ServerNotification>,
    key: KeyModel,
    kind: TextKind,
) -> Seq<char> {
    notifications.map_values(
        |notification: ServerNotification| piece_for(notification, key, kind)->0,
    ).flatten()
}

/// However the text of an assistant message or a plan is cut into pieces, a new item holds
/// exactly their concatenation after they have streamed in, is not yet final, and stands
/// behind the entries that were there, which stay as they were.
pub proof fn streamed_pieces_come_together(
    before: ProjectorModel,
    notifications: Seq<ServerNotification>,
    key: KeyModel,
    kind: TextKind,
)
    requires
        is_free(before, key),
        notifications.len() > 0,
        forall|i: int|
            0 <= i < notifications.len() ==> piece_for(#[trigger] notifications[i], key, kind)
                is Some,
    ensures
        ({
            let after = all_applied(before, notifications);
            let entry = after.entries.last();
            &&& after.entries == before.entries.push(entry)
            &&& entry.key == key
            &&& !entry.committed
            &&& text_held(entry.item, kind) == Some(pieces_together(notifications, key, kind))
        }),
    decreases notifications.len(),
{
    let piece = |notification: ServerNotification| piece_for(notification, key, kind)->0;
    let shorter = notifications.drop_last();
    let last = notifications.last();
    let pieces = notifications.map_values(piece);
    assert(piece_for(notifications[notifications.len() - 1], key, kind) is Some);
    pieces.lemma_flatten_and_flatten_alt_are_equivalent();
    pieces.drop_last().lemma_flatten_and_flatten_alt_are_equivalent();
    assert(pieces.drop_last() =~= shorter.map_values(piece));
    if shorter.len() == 0 {
        assert(all_applied(before, shorter) == before);
        first_pieces_make_an_entry(before, last, key, kind);
        assert(pieces.drop_last().flatten_alt() =~= Seq::<char>::empty());
        assert(pieces.flatten_alt() =~= piece(last));
    } else {
        assert forall|i: int| 0 <= i < shorter.len() implies piece_for(
            #[trigger] shorter[i],
            key,
            kind,
        ) is Some by {
            assert(shorter[i] == notifications[i]);
        }
        streamed_pieces_come_together(before, shorter, key, kind);
        let middle = all_applied(before, shorter);
        let index = before.entries.len() as int;
        assert forall|i: int| 0 <= i < index implies (#[trigger] middle.entries[i]).key
            != key by {
            assert(middle.entries[i] == before.entries[i]);
        }
        later_pieces_are_appended(middle, last, key, kind, index);
        let after = all_applied(before, notifications);
        assert(after.entries =~= before.entries.push(after.entries.last())) by {
            assert forall|i: int| 0 <= i < index implies after.entries[i]
                == #[trigger] before.entries[i] by {
                assert(middle.entries[i] == before.entries[i]);
            }
        }
    }
}

/// Pieces of reasoning come together by part and paragraph: a piece is appended to its own
/// paragraph, every other paragraph stays, and paragraphs that are skipped are empty.
pub proof fn reasoning_comes_together(
    before: ProjectorModel,
    notification: ServerNotification,
    index: int,
)
    requires
        before.options.include_reasoning,
        0 <= index < before.entries.len(),
        !before.entries[index].committed,
        before.entries[index].item is Reasoning,
        match notification {
            ServerNotification::ReasoningSummaryTextDelta(delta) => is_held_at(
                before,
                KeyModel {
                    thread_id: delta.thread_id@,
                    turn_id: delta.turn_id@,
                    item_id: delta.item_id@,
                },
                index,
            ) && delta.summary_index >= 0,
            ServerNotification::ReasoningTextDelta(delta) => is_held_at(
                before,
                KeyModel {
                    thread_id: delta.thread_id@,
                    turn_id: delta.turn_id@,
                    item_id: delta.item_id@,
                },
                index,
            ) && delta.content_index >= 0,
            _ => false,
        },
    ensures
        ({
            let held = before.entries[index].item;
            let after = applied(before, notification).0;
            let item = after.entries[index].item;
            &&& differ_at_most_at(before, after, index)
            &&& !after.entries[index].committed
            &&& item is Reasoning
            &&& match notification {
                ServerNotification::ReasoningSummaryTextDelta(delta) => {
                    &&& item->Reasoning_content == held->Reasoning_content
                    &&& is_extended(
                        held->Reasoning_summary,
                        item->Reasoning_summary,
                        delta.summary_index as int,
                        delta.delta@,
                    )
                },
                ServerNotification::ReasoningTextDelta(delta) => {
                    &&& item->Reasoning_summary == held->Reasoning_summary
                    &&& is_extended(
                        held->Reasoning_content,
                        item->Reasoning_content,
                        delta.content_index as int,
                        delta.delta@,
                    )
                },
                _ => false,
            }
        }),
{
    match notification {
        ServerNotification::ReasoningSummaryTextDelta(delta) => {
            let key = KeyModel {
                thread_id: delta.thread_id@,
                turn_id: delta.turn_id@,
                item_id: delta.item_id@,
            };
            lemma_entry_from(before.entries, key, 0);
            assert(entry_of(before.entries, key) == Some(index));
            lemma_extended(
                before.entries[index].item->Reasoning_summary,
                delta.summary_index as int,
                delta.delta@,
            );
        },
        ServerNotification::ReasoningTextDelta(delta) => {
            let key = KeyModel {
                thread_id: delta.thread_id@,
                turn_id: delta.turn_id@,
                item_id: delta.item_id@,
            };
            lemma_entry_from(before.entries, key, 0);
            assert(entry_of(before.entries, key) == Some(index));
            lemma_extended(
                before.entries[index].item->Reasoning_content,
                delta.content_index as int,
                delta.delta@,
            );
        },
        _ => {},
    }
}

/// Whether a list has a piece appended to the text at an index, and nothing else changed
/// but for empty texts that lead up to it.
pub open spec fn is_extended(
    before: Seq<Seq<char>>,
    after: Seq<Seq<char>>,
    index: int,
    piece: Seq<char>,
) -> bool {
    &&& after.len() == if index < before.len() {
        before.len() as int
    } else {
        index + 1
    }
    &&& after[index] == if index < before.len() {
        before[index] + piece
    } else {
        piece
    }
    &&& forall|i: int|
        0 <= i < before.len() && i != index ==> #[trigger] after[i] == before[i]
    &&& forall|i: int|
        before.len() <= i < after.len() && i != index ==> (#[trigger] after[i]).len() == 0
}

proof fn lemma_extended(before: Seq<Seq<char>>, index: int, piece: Seq<char>)
    requires
        0 <= index,
    ensures
        is_extended(
            before,
            super::projector::extended_at(before, index, piece),
            index,
            piece,
        ),
{
    let after = super::projector::extended_at(before, index, piece);
    assert(Seq::<char>::empty() + piece =~= piece);
    assert forall|i: int| 0 <= i < before.len() && i != index implies #[trigger] after[i]
        == before[i] by {
        assert(before[i] + Seq::<char>::empty() =~= before[i]);
    }
}

/// Output of a command is appended to what its item holds; nothing else of the item
/// changes, and no other entry.
pub proof fn command_output_comes_together(
    before: ProjectorModel,
    notification: ServerNotification,
    index: int,
)
    requires
        before.options.include_tool_calls,
        0 <= index < before.entries.len(),
        !before.entries[index].committed,
        before.entries[index].item is CommandExecution,
        match notification {
            ServerNotification::CommandExecutionOutputDelta(delta) => is_held_at(
                before,
                KeyModel {
                    thread_id: delta.thread_id@,
                    turn_id: delta.turn_id@,
                    item_id: delta.item_id@,
                },
                index,
            ),
            _ => false,
        },
    ensures
        ({
            let held = before.entries[index].item;
            let after = applied(before, notification).0;
            let item = after.entries[index].item;
            let piece = notification->CommandExecutionOutputDelta_0.delta@;
            &&& differ_at_most_at(before, after, index)
            &&& !after.entries[index].committed
            &&& item is CommandExecution
            &&& item->CommandExecution_aggregated_output == Some(
                match held->CommandExecution_aggregated_output {
                    Some(output) => output + piece,
                    None => piece,
                },
            )
            &&& item->CommandExecution_command == held->CommandExecution_command
            &&& item->CommandExecution_status == held->CommandExecution_status
            &&& item->CommandExecution_exit_code == held->CommandExecution_exit_code
        }),
{
    let delta = notification->CommandExecutionOutputDelta_0;
    let key = KeyModel {
        thread_id: delta.thread_id@,
        turn_id: delta.turn_id@,
        item_id: delta.item_id@,
    };
    lemma_entry_from(before.entries, key, 0);
    assert(entry_of(before.entries, key) == Some(index));
}

/// An updated patch takes the place of the changes that its item holds; its status stays,
/// and no other entry changes.
pub proof fn patches_are_replaced(
    before: ProjectorModel,
    notification: ServerNotification,
    index: int,
)
    requires
        before.options.include_tool_calls,
        0 <= index < before.entries.len(),
        !before.entries[index].committed,
        before.entries[index].item is FileChange,
        match notification {
            ServerNotification::FileChangePatchUpdated(update) => is_held_at(
                before,
                KeyModel {
                    thread_id: update.thread_id@,
                    turn_id: update.turn_id@,
                    item_id: update.item_id@,
                },
                index,
            ),
            _ => false,
        },
    ensures
        ({
            let held = before.entries[index].item;
            let after = applied(before, notification).0;
            let item = after.entries[index].item;
            &&& differ_at_most_at(before, after, index)
            &&& !after.entries[index].committed
            &&& item is FileChange
            &&& item->FileChange_changes == change_models(
                notification->FileChangePatchUpdated_0.changes@,
            )
            &&& item->FileChange_status == held->FileChange_status
        }),
{
    let update = notification->FileChangePatchUpdated_0;
    let key = KeyModel {
        thread_id: update.thread_id@,
        turn_id: update.turn_id@,
        item_id: update.item_id@,
    };
    lemma_entry_from(before.entries, key, 0);
    assert(entry_of(before.entries, key) == Some(index));
}

/// An item that is announced as started keeps what has streamed for it, wherever the
/// announcement itself says nothing; what the announcement says counts.
pub proof fn starting_keeps_what_has_streamed(streamed: ItemModel, started: ItemModel)
    ensures
        ({
            let item = started_over(streamed, started);
            &&& streamed is Plan && started is Plan ==> item is Plan && item->Plan_text == if
                started->Plan_text.len() == 0 {
                streamed->Plan_text
            } else {
                started->Plan_text
            }
            &&& streamed is AgentMessage && started is AgentMessage ==> item is AgentMessage
                && item->AgentMessage_text == if started->AgentMessage_text.len() == 0 {
                streamed->AgentMessage_text
            } else {
                started->AgentMessage_text
            }
            &&& streamed is Reasoning && started is Reasoning ==> item is Reasoning
                && item->Reasoning_summary == (if started->Reasoning_summary.len() == 0 {
                streamed->Reasoning_summary
            } else {
                started->Reasoning_summary
            }) && item->Reasoning_content == if started->Reasoning_content.len() == 0 {
                streamed->Reasoning_content
            } else {
                started->Reasoning_content
            }
            &&& streamed is CommandExecution && started is CommandExecution ==> item
                is CommandExecution && item->CommandExecution_command
                == started->CommandExecution_command && item->CommandExecution_status
                == started->CommandExecution_status && item->CommandExecution_aggregated_output
                == if started->CommandExecution_aggregated_output is None {
                streamed->CommandExecution_aggregated_output
            } else {
                started->CommandExecution_aggregated_output
            }
            &&& streamed is FileChange && started is FileChange ==> item is FileChange
                && item->FileChange_status == started->FileChange_status
                && item->FileChange_changes == if started->FileChange_changes.len() == 0 {
                streamed->FileChange_changes
            } else {
                started->FileChange_changes
            }
        }),
{
}

/// Whether an item belongs to a category that the options leave out.
pub open spec fn is_left_out(state: ProjectorModel, item: ItemModel) -> bool {
    ||| item is Reasoning && !state.options.include_reasoning
    ||| (item is CommandExecution || item is FileChange || item is ToolCall)
        && !state.options.include_tool_calls
}

/// What the options leave out reaches nobody: neither an item that starts or completes nor
/// a piece of one changes the projection or is handed on.
pub proof fn what_is_left_out_stays_out(before: ProjectorModel, notification: ServerNotification)
    requires
        match notification {
            ServerNotification::ItemStarted(started) => is_left_out(before, started.item@),
            ServerNotification::ItemCompleted(completed) => is_left_out(before, completed.item@),
            ServerNotification::ReasoningSummaryTextDelta(_) => !before.options.include_reasoning,
            ServerNotification::ReasoningTextDelta(_) => !before.options.include_reasoning,
            ServerNotification::CommandExecutionOutputDelta(_) =>
                !before.options.include_tool_calls,
            ServerNotification::FileChangePatchUpdated(_) => !before.options.include_tool_calls,
            _ => false,
        },
    ensures
        applied(before, notification) == (before, seq![EventModel::Suppressed]),
{
}

/// A completed item stands in the projection as it was completed, and is final: where it
/// was held before in its place, otherwise behind all others. No other entry changes.
pub proof fn completed_items_stand_as_completed(
    before: ProjectorModel,
    notification: ServerNotification,
    key: KeyModel,
    index: int,
)
    requires
        match notification {
            ServerNotification::ItemCompleted(completed) => key == (KeyModel {
                thread_id: completed.thread_id@,
                turn_id: completed.turn_id@,
                item_id: completed.item@.id(),
            }) && !is_left_out(before, completed.item@),
            _ => false,
        },
        is_held_at(before, key, index) || (is_free(before, key) && index == before.entries.len()),
    ensures
        ({
            let after = applied(before, notification).0;
            &&& after.entries.len() == if index < before.entries.len() {
                before.entries.len()
            } else {
                before.entries.len() + 1
            }
            &&& after.entries[index].key == key
            &&& after.entries[index].committed
            &&& after.entries[index].item == notification->ItemCompleted_0.item@
            &&& forall|i: int|
                0 <= i < before.entries.len() && i != index ==> after.entries[i]
                    == #[trigger] before.entries[i]
        }),
{
    lemma_entry_from(before.entries, key, 0);
    if index < before.entries.len() {
        assert(entry_of(before.entries, key) == Some(index));
    }
}

/// What an item is shown as says what it holds: a message and a plan their text and nothing
/// else, reasoning each of its paragraphs, a command the command and its output.
pub proof fn items_say_what_they_hold(item: ItemModel)
    ensures
        item matches ItemModel::AgentMessage { text, .. } ==> plain_text_of(item) == Some(text),
        item matches ItemModel::Plan { text, .. } ==> plain_text_of(item) == Some(text),
        item matches ItemModel::Reasoning { summary, content, .. } ==> plain_text_of(item) is Some
            && (forall|i: int|
            0 <= i < summary.len() ==> mentions(plain_text_of(item)->0, #[trigger] summary[i]))
            && forall|i: int|
            0 <= i < content.len() ==> mentions(plain_text_of(item)->0, #[trigger] content[i]),
        item matches ItemModel::CommandExecution { command, aggregated_output, .. }
            ==> plain_text_of(item) is Some && (aggregated_output is None ==> ends(
            plain_text_of(item)->0,
            command,
        )) && (aggregated_output is Some ==> ends(
            plain_text_of(item)->0,
            command + "\n"@ + aggregated_output->0,
        )),
        item is UserMessage ==> plain_text_of(item) is None,
{
    match item {
        ItemModel::Reasoning { summary, content, .. } => {
            let all = summary + content;
            assert forall|i: int| 0 <= i < summary.len() implies mentions(
                plain_text_of(item)->0,
                #[trigger] summary[i],
            ) by {
                joined_texts_mention_each(all, "\n\n"@, i);
                assert(all[i] == summary[i]);
            }
            assert forall|i: int| 0 <= i < content.len() implies mentions(
                plain_text_of(item)->0,
                #[trigger] content[i],
            ) by {
                joined_texts_mention_each(all, "\n\n"@, summary.len() + i);
                assert(all[summary.len() + i] == content[i]);
            }
        },
        ItemModel::CommandExecution { command, status, aggregated_output, .. } => {
            let start = "command: "@ + super::model::command_status_name(status) + " · "@;
            let whole = plain_text_of(item)->0;
            match aggregated_output {
                Some(output) => {
                    let tail = command + "\n"@ + output;
                    assert(whole =~= start + tail);
                    assert(whole.subrange(whole.len() - tail.len(), whole.len() as int) =~= tail);
                },
                None => {
                    assert(whole =~= start + command);
                    assert(whole.subrange(whole.len() - command.len(), whole.len() as int)
                        =~= command);
                },
            }
        },
        _ => {},
    }
}

} // verus!
