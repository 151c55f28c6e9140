//! How the bridge conducts itself: what reaches it, which thread it is bound to, what it
//! says, and what it leaves behind.

use crate::notifications::AppServerEvent;
use crate::protocol::ItemStartedNotification;
use crate::protocol::ServerNotification;
use crate::protocol::ThreadItem;
use crate::protocol::Turn;
use crate::state::BindingModel;
use crate::state::OutboundModel;
use crate::state::StateModel;
use crate::text::digits_of;
use crate::text::lowered;
use crate::transcript::EntryModel;
use crate::transcript::EntryOrigin;
use crate::transcript::EventModel;
use crate::transcript::KeyModel;
use crate::transport::TransportStatus;
use super::events::recorded_from;
use super::lifecycle::without_outages;
use super::model::ActionModel;
use super::model::BindPurpose;
use super::model::CoordinatorModel;
use super::model::EffectModel;
use super::model::FileChangePathsModel;
use super::model::ResumePurposeModel;
use super::model::TaskModel;
use super::model::WaitModel;
use super::notices::deliveries;
use super::requests::paths_from;
use super::steps::after_step;
use super::steps::Step;
use vstd::prelude::*;

verus! {

/// The turn that a notification belongs to.
pub open spec fn turn_named(notification: ServerNotification) -> Option<(Seq<char>, Seq<char>)> {
    match notification {
        ServerNotification::ItemStarted(n) => Some((n.thread_id@, n.turn_id@)),
        ServerNotification::ItemCompleted(n) => Some((n.thread_id@, n.turn_id@)),
        ServerNotification::AgentMessageDelta(n) => Some((n.thread_id@, n.turn_id@)),
        ServerNotification::PlanDelta(n) => Some((n.thread_id@, n.turn_id@)),
        ServerNotification::ReasoningSummaryTextDelta(n) => Some((n.thread_id@, n.turn_id@)),
        ServerNotification::ReasoningTextDelta(n) => Some((n.thread_id@, n.turn_id@)),
        ServerNotification::CommandExecutionOutputDelta(n) => Some((n.thread_id@, n.turn_id@)),
        ServerNotification::FileChangeOutputDelta(n) => Some((n.thread_id@, n.turn_id@)),
        ServerNotification::FileChangePatchUpdated(n) => Some((n.thread_id@, n.turn_id@)),
        ServerNotification::TurnCompleted(n) => Some((n.thread_id@, n.turn.id@)),
        ServerNotification::Error(n) => Some((n.thread_id@, n.turn_id@)),
        _ => None,
    }
}

/// What belongs to another thread or turn than the running one changes nothing and says
/// nothing; nor does an error after which Codex tries again.
pub proof fn only_the_running_turn_is_heard(
    m: CoordinatorModel,
    notification: ServerNotification,
)
    requires
        (turn_named(notification) matches Some(named) && (m.state.active_turn matches Some(turn)
            ==> turn.thread_id != named.0 || turn.codex_turn_id != named.1)) || (
        notification matches ServerNotification::Error(error) && error.will_retry),
    ensures
        m.notified(notification) == m,
{
}

/// A warning about another thread than the bound one is not passed on.
pub proof fn only_the_bound_thread_is_heard(
    m: CoordinatorModel,
    notification: ServerNotification,
    thread_id: Seq<char>,
)
    requires
        match notification {
            ServerNotification::Warning(warning) => warning.thread_id matches Some(id) && id@
                == thread_id,
            ServerNotification::GuardianWarning(warning) => warning.thread_id@ == thread_id,
            _ => false,
        },
        m.state.binding matches Some(binding) ==> binding.codex_thread_id != thread_id,
    ensures
        m.notified(notification) == m,
{
}

/// While a turn runs, neither a new thread nor another one is taken up; otherwise a new one
/// is asked for, or exactly the one that was named.
pub proof fn threads_change_only_between_turns(m: CoordinatorModel, thread_id: Seq<char>)
    requires
        m.wait is None,
    ensures
        ({
            let new = m.commanded(crate::commands::CommandModel::New);
            let attach = m.commanded(crate::commands::CommandModel::WhatsAppAttach(thread_id));
            &&& m.state.active_turn is Some ==> new.wait is None && attach.wait is None
            &&& m.state.active_turn is None ==> new.wanted() == ActionModel::StartThread
                && attach.wanted() == (ActionModel::ResumeThread { thread_id })
            &&& new.state == m.state && attach.state == m.state
            &&& new.tasks == m.tasks && attach.tasks == m.tasks
        }),
{
}

/// A thread that was attached, or started, is the one that the bridge is bound to, for the
/// account's own chat. Where this cannot be saved, the bridge stays bound as it was.
pub proof fn bindings_follow_the_thread(
    m: CoordinatorModel,
    thread_id: Seq<char>,
    turns: Seq<Turn>,
)
    requires
        m.wait == Some(
            WaitModel::ResumingThread(ResumePurposeModel::Attach { thread_id }),
        ),
    ensures
        ({
            let bound = after_step(m, Step::ThreadResumed(Some(turns)));
            let kept = after_step(bound, Step::Saved(true));
            let lost = after_step(bound, Step::Saved(false));
            let failed = after_step(m, Step::ThreadResumed(None));
            let binding = Some(
                BindingModel {
                    self_chat_id: m.settings.self_chat_id@,
                    codex_thread_id: thread_id,
                },
            );
            &&& bound.wanted() == ActionModel::Save
            &&& kept.state == (StateModel { binding, ..m.state })
            &&& kept.wait is None
            &&& lost.state == m.state
            &&& !lost.state_healthy
            &&& failed.state == m.state
            &&& failed.wait is None
        }),
{
}

/// A new thread that was started is the one that the bridge is bound to, whatever it was
/// started for; where none could be started, the bridge stays bound as it was.
pub proof fn started_threads_are_bound(
    m: CoordinatorModel,
    purpose: BindPurpose,
    thread_id: Seq<char>,
)
    requires
        m.wait == Some(WaitModel::StartingThread(purpose)),
    ensures
        ({
            let bound = after_step(m, Step::ThreadStarted(Some(thread_id)));
            let lost = after_step(bound, Step::Saved(false));
            let failed = after_step(m, Step::ThreadStarted(None));
            &&& bound.wanted() == ActionModel::Save
            &&& bound.state == (StateModel {
                binding: Some(
                    BindingModel {
                        self_chat_id: m.settings.self_chat_id@,
                        codex_thread_id: thread_id,
                    },
                ),
                ..m.state
            })
            &&& lost.state == m.state
            &&& failed.state.binding == m.state.binding
            &&& failed.state.queued_prompts.len() == m.state.queued_prompts.len()
            &&& !failed.app_server_connected
        }),
{
}

/// A thread that cannot be resumed is given up only at the third failure in a row: until
/// then the bridge stays bound to it, and then it is remembered as left behind. No message
/// is dropped by this.
pub proof fn threads_are_given_up_after_repeated_failures(m: CoordinatorModel, reconnect: bool)
    ensures
        ({
            let after = m.not_resumed(reconnect);
            &&& m.resume_failures < 2 ==> after.state == m.state && after.resume_failures
                == m.resume_failures + 1 && after.wait is None
            &&& m.resume_failures >= 2 ==> {
                &&& after.wanted() == ActionModel::Save
                &&& after.state.binding is None
                &&& after.state.active_turn is None
                &&& m.state.binding matches Some(binding) ==> after.state.orphaned_thread_id
                    == Some(binding.codex_thread_id)
            }
            &&& after.state.queued_prompts == m.state.queued_prompts
            &&& after.state.pending_steers == m.state.pending_steers
        }),
{
}

/// A thread that was read is compared with what is pending first, then pending messages are
/// submitted again, and then its running turn is looked at.
pub proof fn pending_messages_come_before_the_turn(
    m: CoordinatorModel,
    turns: Seq<Turn>,
    reconnect: bool,
)
    ensures
        ({
            let after = m.resumed(turns, reconnect);
            let count = m.tasks.len() as int;
            &&& after.tasks.len() == count + 2
            &&& after.tasks.take(count) == m.tasks
            &&& after.tasks[count + 1] == TaskModel::RetrySteers
            &&& after.tasks[count] == (TaskModel::ResumeActive { turns, reconnect })
            &&& after.resume_failures == 0
            &&& after.wait matches Some(wait) ==> wait is Saving
        }),
{
    let after = m.resumed(turns, reconnect);
    assert(after.tasks.take(m.tasks.len() as int) =~= m.tasks);
}

/// A prompt that Codex turned out not to have is submitted anew: the mark is taken off, and
/// once that is saved, the prompt is the next thing to do.
pub proof fn unreceived_prompts_are_submitted_anew(
    m: CoordinatorModel,
    thread_id: Seq<char>,
    turns: Seq<Turn>,
)
    requires
        m.wait == Some(
            WaitModel::ResumingThread(ResumePurposeModel::Uncertain { thread_id }),
        ),
        m.state.queued_prompts.len() > 0,
        forall|i: int, k: int|
            0 <= i < turns.len() && 0 <= k < (#[trigger] turns[i]).items@.len() ==> (match (
            #[trigger] turns[i].items@[k]) {
                ThreadItem::UserMessage { client_id: Some(id), .. } => id@
                    != m.state.queued_prompts[0].message_id,
                _ => true,
            }),
    ensures
        ({
            let first = m.state.queued_prompts[0];
            let cleared = after_step(m, Step::ThreadResumed(Some(turns)));
            let after = after_step(cleared, Step::Saved(true));
            &&& cleared.wanted() == ActionModel::Save
            &&& !cleared.state.queued_prompts[0].submission_uncertain
            &&& cleared.state.queued_prompts[0].message_id == first.message_id
            &&& cleared.state.queued_prompts[0].body == first.body
            &&& cleared.state.queued_prompts.skip(1) == m.state.queued_prompts.skip(1)
            &&& after.app_server_connected
            &&& after.tasks == m.tasks.push(TaskModel::StartNextPrompt)
        }),
{
    lemma_no_turn_has_it(turns, m.state.queued_prompts[0].message_id, 0);
    let cleared = after_step(m, Step::ThreadResumed(Some(turns)));
    assert(cleared.state.queued_prompts.skip(1) =~= m.state.queued_prompts.skip(1));
}

proof fn lemma_no_turn_has_it(turns: Seq<Turn>, message_id: Seq<char>, from: int)
    requires
        0 <= from,
        forall|i: int, k: int|
            0 <= i < turns.len() && 0 <= k < (#[trigger] turns[i]).items@.len() ==> (match (
            #[trigger] turns[i].items@[k]) {
                ThreadItem::UserMessage { client_id: Some(id), .. } => id@ != message_id,
                _ => true,
            }),
    ensures
        super::prompts::turn_with_message(turns, message_id, from) is None,
    decreases turns.len() - from,
{
    if from < turns.len() {
        assert(!super::prompts::turn_has_message(turns[from], message_id)) by {
            assert forall|k: int| 0 <= k < turns[from].items@.len() implies !(
            super::prompts::is_message(#[trigger] turns[from].items@[k], message_id)) by {}
        }
        lemma_no_turn_has_it(turns, message_id, from + 1);
    }
}

/// The files of an ended turn are removed, each of them once and no others.
pub proof fn ended_turns_release_their_files(m: CoordinatorModel)
    ensures
        ({
            let after = m.releasing();
            let paths = match m.state.active_turn {
                Some(turn) => turn.attachment_paths,
                None => Seq::empty(),
            };
            &&& after.effects.len() == m.effects.len() + paths.len()
            &&& after.effects.take(m.effects.len() as int) == m.effects
            &&& forall|i: int|
                0 <= i < paths.len() ==> after.effects[m.effects.len() + i]
                    == EffectModel::RemoveAttachment(#[trigger] paths[i])
            &&& after == (CoordinatorModel { effects: after.effects, ..m })
        }),
{
    let after = m.releasing();
    assert(after.effects.take(m.effects.len() as int) =~= m.effects);
}

/// What is left from before is sent in its order, one at a time: what was sent leaves, what
/// was not stays first, unchanged but for the count of attempts.
pub proof fn leftovers_are_sent_in_order(
    m: CoordinatorModel,
    delivered: bool,
    message_id: Seq<char>,
    now: u64,
)
    requires
        m.wait == Some(WaitModel::SendingLegacy { delivered }),
        m.state.legacy_outbox.len() > 0,
    ensures
        ({
            let first = m.state.legacy_outbox[0];
            let sent = after_step(m, Step::LegacySent(Some(message_id), now));
            let kept = after_step(m, Step::LegacySent(None, now));
            &&& m.wanted() == (ActionModel::SendLegacy { chat_id: first.chat_id, body: first.body })
            &&& sent.state.legacy_outbox == m.state.legacy_outbox.skip(1)
            &&& sent.transport_healthy
            &&& sent.wanted() == ActionModel::Save
            &&& kept.state.legacy_outbox.len() == m.state.legacy_outbox.len()
            &&& kept.state.legacy_outbox.skip(1) == m.state.legacy_outbox.skip(1)
            &&& kept.state.legacy_outbox[0].body == first.body
            &&& kept.state.legacy_outbox[0].chat_id == first.chat_id
            &&& kept.state.legacy_outbox[0].response_id == first.response_id
            &&& first.attempts < u32::MAX ==> kept.state.legacy_outbox[0].attempts
                == first.attempts + 1
            &&& kept.wanted() == ActionModel::Save
        }),
{
    assert(m.state.legacy_outbox.remove(0) =~= m.state.legacy_outbox.skip(1));
    let kept = after_step(m, Step::LegacySent(None, now));
    assert(kept.state.legacy_outbox.skip(1) =~= m.state.legacy_outbox.skip(1));
}

/// Stale reports of an outage leave the outbox, and nothing else does.
pub proof fn only_outages_leave_the_outbox(outbox: Seq<OutboundModel>)
    ensures
        without_outages(outbox) == outbox.filter(
            |message: OutboundModel|
                message.body != "[codex] Codex app-server is unavailable."@,
        ),
    decreases outbox.len(),
{
    reveal(Seq::filter);
    if outbox.len() > 0 {
        only_outages_leave_the_outbox(outbox.drop_last());
    } else {
        assert(without_outages(outbox) =~= outbox.filter(
            |message: OutboundModel|
                message.body != "[codex] Codex app-server is unavailable."@,
        ));
    }
}

/// The bridge is ready exactly where its state is kept, Codex is connected and the
/// transport works.
pub proof fn readiness_needs_everything(m: CoordinatorModel)
    ensures
        m.readiness().ready <==> m.state_healthy && m.app_server_connected && m.transport_healthy,
        m.readiness().state_healthy == m.state_healthy,
        m.readiness().app_server_connected == m.app_server_connected,
        m.readiness().transport_healthy == m.transport_healthy,
{
}

/// The transport works exactly where it says that it is ready, in whatever case, and is
/// linked to no other account than the configured one.
pub proof fn transports_are_checked_by_account(m: CoordinatorModel, status: Option<TransportStatus>)
    ensures
        m.transport_checked(status).transport_healthy <==> (status matches Some(status) && {
            &&& status.status@.len() == 5
            &&& lowered(status.status@[0]) == 'r'
            &&& lowered(status.status@[1]) == 'e'
            &&& lowered(status.status@[2]) == 'a'
            &&& lowered(status.status@[3]) == 'd'
            &&& lowered(status.status@[4]) == 'y'
            &&& status.account matches Some(account) ==> digits_of(account@)
                == m.settings.configured_phone@
        }),
        m.transport_checked(status).state == m.state,
        m.transport_checked(status).effects == m.effects,
{
    reveal_strlit("ready");
}

/// On the way out everything that waits for an answer is refused to Codex, each request
/// once and in its order, and nothing waits any more.
pub proof fn shutting_down_refuses_what_waits(m: CoordinatorModel)
    ensures
        ({
            let after = m.shutting_down();
            let start = m.effects.len() as int;
            let questions = m.pending_requests.len() as int;
            &&& after.effects.len() == start + questions + m.pending_approvals.len()
            &&& after.effects.take(start) == m.effects
            &&& forall|i: int|
                0 <= i < questions ==> after.effects[start + i] == EffectModel::Reject(
                    (#[trigger] m.pending_requests[i]).request_id,
                )
            &&& forall|i: int|
                0 <= i < m.pending_approvals.len() ==> after.effects[start + questions + i]
                    == EffectModel::Reject((#[trigger] m.pending_approvals[i]).request_id)
            &&& after.pending_requests.len() == 0
            &&& after.pending_approvals.len() == 0
            &&& after.state == m.state
            &&& after.wanted() == ActionModel::Save
        }),
{
    let after = m.shutting_down();
    assert(after.effects.take(m.effects.len() as int) =~= m.effects);
}

/// A lost connection leaves no question and no approval open, and loses no message.
pub proof fn lost_connections_lose_no_message(m: CoordinatorModel, token: Seq<char>, now: u64)
    ensures
        ({
            let after = m.evented(AppServerEvent::Disconnected, token, now);
            &&& after.state == m.state
            &&& after.pending_requests.len() == 0
            &&& after.pending_approvals.len() == 0
            &&& !after.app_server_connected
            &&& after.stream_degraded
            &&& after.tasks == m.tasks
            &&& after.wait == m.wait
        }),
{
}

proof fn lemma_recorded_place(recorded: Seq<FileChangePathsModel>, key: KeyModel, from: int)
    requires
        0 <= from,
    ensures
        match recorded_from(recorded, key, from) {
            Some(index) => from <= index < recorded.len() && recorded[index].key == key && forall|
                i: int,
            |
                from <= i < index ==> (#[trigger] recorded[i]).key != key,
            None => forall|i: int|
                from <= i < recorded.len() ==> (#[trigger] recorded[i]).key != key,
        },
    decreases recorded.len() - from,
{
    if from < recorded.len() && recorded[from].key != key {
        lemma_recorded_place(recorded, key, from + 1);
    }
}

proof fn lemma_paths_at(
    recorded: Seq<FileChangePathsModel>,
    key: KeyModel,
    from: int,
    index: int,
)
    requires
        0 <= from <= index < recorded.len(),
        recorded[index].key == key,
        forall|i: int| from <= i < index ==> (#[trigger] recorded[i]).key != key,
    ensures
        paths_from(recorded, key, from) == recorded[index].paths,
    decreases index - from,
{
    if from < index {
        lemma_paths_at(recorded, key, from + 1, index);
    }
}

/// The files that a change was announced with are the ones that its approval shows, where
/// they are not too many and their names not too long.
pub proof fn approvals_show_the_announced_files(
    m: CoordinatorModel,
    started: ItemStartedNotification,
    index: int,
)
    requires
        started.item is FileChange,
        m.file_change_paths.len() < 128,
        started.item->FileChange_changes@.len() <= 128,
        0 <= index < started.item->FileChange_changes@.len(),
        started.item->FileChange_changes@[index].path@.len() <= 512,
    ensures
        ({
            let key = KeyModel {
                thread_id: started.thread_id@,
                turn_id: started.turn_id@,
                item_id: started.item->FileChange_id@,
            };
            let shown = paths_from(m.recording(started).file_change_paths, key, 0);
            &&& shown.len() == started.item->FileChange_changes@.len()
            &&& shown[index] == started.item->FileChange_changes@[index].path@
        }),
{
    let key = KeyModel {
        thread_id: started.thread_id@,
        turn_id: started.turn_id@,
        item_id: started.item->FileChange_id@,
    };
    lemma_recorded_place(m.file_change_paths, key, 0);
    let after = m.recording(started).file_change_paths;
    match recorded_from(m.file_change_paths, key, 0) {
        Some(place) => {
            assert forall|i: int| 0 <= i < place implies (#[trigger] after[i]).key != key by {
                assert(after[i] == m.file_change_paths[i]);
            }
            lemma_paths_at(after, key, 0, place);
        },
        None => {
            assert forall|i: int| 0 <= i < m.file_change_paths.len() implies (
            #[trigger] after[i]).key != key by {
                assert(after[i] == m.file_change_paths[i]);
            }
            lemma_paths_at(after, key, 0, m.file_change_paths.len() as int);
        },
    }
}

/// What the transcript hands on is delivered in its order: what comes of some events, then
/// of others, is what comes of all of them.
pub proof fn deliveries_keep_the_order(
    chat_id: Seq<char>,
    earlier: Seq<EventModel>,
    later: Seq<EventModel>,
)
    ensures
        deliveries(chat_id, earlier + later) == deliveries(chat_id, earlier) + deliveries(
            chat_id,
            later,
        ),
    decreases later.len(),
{
    if later.len() == 0 {
        assert(earlier + later =~= earlier);
        assert(deliveries(chat_id, earlier) + deliveries(chat_id, later) =~= deliveries(
            chat_id,
            earlier,
        ));
    } else {
        deliveries_keep_the_order(chat_id, earlier, later.drop_last());
        assert((earlier + later).drop_last() =~= earlier + later.drop_last());
        assert((earlier + later).last() == later.last());
        assert(deliveries(chat_id, earlier + later) =~= deliveries(chat_id, earlier)
            + deliveries(chat_id, later));
    }
}

/// An assistant message is delivered once for each of its versions: with its own text and
/// identity, to the chat, as final exactly where it is.
pub proof fn messages_are_delivered_as_they_stand(chat_id: Seq<char>, entry: EntryModel)
    requires
        entry.item matches crate::protocol::ItemModel::AgentMessage { text, .. } && text.len() > 0,
    ensures
        ({
            let effects = deliveries(chat_id, seq![EventModel::Entry(entry)]);
            &&& effects.len() == 1
            &&& effects[0] is Deliver
            &&& effects[0]->Deliver_0.conversation_id == chat_id
            &&& effects[0]->Deliver_0.key == entry.key
            &&& effects[0]->Deliver_0.text == entry.item->AgentMessage_text
            &&& effects[0]->Deliver_0.revision == entry.revision
            &&& effects[0]->Deliver_0.committed == entry.committed
            &&& effects[0]->Deliver_0.origin == entry.origin
        }),
{
    let events = seq![EventModel::Entry(entry)];
    assert(events.drop_last() =~= Seq::<EventModel>::empty());
    assert(deliveries(chat_id, events.drop_last()) =~= Seq::<EffectModel>::empty());
    assert(events.last() == EventModel::Entry(entry));
}

/// A message of the bridge that fits is sent once and whole; one that does not begin with
/// the label of the bridge is sent as it is.
pub proof fn short_messages_are_sent_whole(m: CoordinatorModel, text: Seq<char>)
    requires
        m.state_healthy,
        text.len() <= 4_096,
        text.len() == 0 || text[0] != '[',
    ensures
        m.telling(text).effects == m.effects.push(
            EffectModel::Notice {
                origin: EntryOrigin::BridgeNotice,
                thread_id: Seq::empty(),
                turn_id: Seq::empty(),
                text,
            },
        ),
{
    reveal_strlit("[codex");
    if text.len() >= 6 {
        assert(text.subrange(0, 6)[0] == text[0]);
    }
    assert(crate::text::after_prefix(text, "[codex"@) is None);
    assert(m.telling(text).effects =~= m.effects.push(super::model::bridge_notice(text)));
}

/// A turn that ended is reported by how it ended, and not at all where it was completed and
/// has spoken.
pub proof fn endings_are_reported(
    m: CoordinatorModel,
    thread_id: Seq<char>,
    turn_id: Seq<char>,
    failure: Option<Seq<char>>,
)
    requires
        !m.stream_degraded,
    ensures
        ({
            let spoken = exists|i: int|
                0 <= i < m.projector.entries.len() && (#[trigger] m.projector.entries[i])
                    .key.thread_id == thread_id && m.projector.entries[i].key.turn_id == turn_id
                    && m.projector.entries[i].item is AgentMessage
                    && m.projector.entries[i].item->AgentMessage_text.len() > 0;
            &&& m.closing(thread_id, turn_id, crate::protocol::TurnStatus::Completed, failure)
                == if spoken {
                m
            } else {
                m.telling("[codex] Turn completed."@)
            }
            &&& m.closing(thread_id, turn_id, crate::protocol::TurnStatus::Interrupted, failure)
                == m.telling("[codex] Turn interrupted."@)
            &&& m.closing(thread_id, turn_id, crate::protocol::TurnStatus::Failed, failure)
                == match failure {
                Some(text) => m.telling(text),
                None => m,
            }
        }),
{
    let spoken = super::notices::has_spoken(m.projector.entries, thread_id, turn_id);
    if spoken {
        let i = choose|i: int|
            0 <= i < m.projector.entries.len() && super::notices::speaks_for(
                #[trigger] m.projector.entries[i],
                thread_id,
                turn_id,
            );
        assert(m.projector.entries[i].key.thread_id == thread_id);
    } else {
        assert forall|i: int| 0 <= i < m.projector.entries.len() implies !((
        #[trigger] m.projector.entries[i]).key.thread_id == thread_id
            && m.projector.entries[i].key.turn_id == turn_id && m.projector.entries[i].item
            is AgentMessage && m.projector.entries[i].item->AgentMessage_text.len() > 0) by {
            assert(!super::notices::speaks_for(m.projector.entries[i], thread_id, turn_id));
        }
    }
}

} // verus!
