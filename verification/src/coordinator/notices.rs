//! What the user is told: bridge notices, statuses, and transcript deliveries.

use crate::command_catalog::rewritten;
use crate::ids::fresh_id;
use crate::ids::is_lower_hex;
use crate::messaging::DeliveryIntent;
use crate::messaging::ProviderConversationId;
use crate::output::labelled;
use crate::output::labelled_chunks;
use crate::output::MESSAGE_LIMIT;
use crate::protocol::ItemModel;
use crate::protocol::ThreadItem;
use crate::protocol::TurnStatus;
use crate::text::chars_of;
use crate::text::option_text;
use crate::text::same_text;
use crate::text::strip_prefix;
use crate::text::texts;
use crate::transcript::model::event_models;
use crate::transcript::model::plain_text_of;
use crate::transcript::EntryModel;
use crate::transcript::EntryOrigin;
use crate::transcript::EventModel;
use crate::transcript::KeyModel;
use crate::transcript::ProjectionEvent;
use crate::transcript::TranscriptKey;
use super::model::bridge_notice;
use super::model::effect_models;
use super::model::intent_model;
use super::model::task_models;
use super::model::AfterSave;
use super::model::Coordinator;
use super::model::CoordinatorModel;
use super::model::Effect;
use super::model::EffectModel;
use super::model::IntentModel;
use super::model::ShownStatuses;
use super::model::Task;
use super::model::Wait;
use vstd::prelude::*;

verus! {

impl Coordinator {
    /// Adds one message of the bridge.
    fn push_notice(&mut self, text: &str)
        ensures
            final(self)@ == old(self)@.doing(
                bridge_notice(rewritten(old(self)@.command_catalog.response_prefix@, text@)),
            ),
    {
        let message = self.command_catalog.rewrite_legacy_prefix(text);
        let effect = Effect::Notice {
            origin: EntryOrigin::BridgeNotice,
            thread_id: String::new(),
            turn_id: String::new(),
            text: message,
        };
        let ghost model = effect@;
        assert(model =~= bridge_notice(
            rewritten(old(self)@.command_catalog.response_prefix@, text@),
        )) by {
            assert(effect->Notice_thread_id@ =~= Seq::<char>::empty());
            assert(effect->Notice_turn_id@ =~= Seq::<char>::empty());
        }
        self.effects.push(effect);
        assert(effect_models(self.effects@) =~= effect_models(old(self).effects@).push(model));
    }

    /// Tells the user something, unless the state cannot be saved.
    pub fn tell(&mut self, text: &str)
        ensures
            final(self)@ == old(self)@.telling(text@),
    {
        if !self.state_healthy {
            return;
        }
        if chars_of(text).len() <= MESSAGE_LIMIT {
            self.push_notice(text);
            assert(self@.effects =~= old(self)@.telling(text@).effects);
            return;
        }
        let content = match strip_prefix(text, "[codex] ") {
            Some(rest) => rest,
            None => text.to_owned(),
        };
        let chunks = labelled_chunks(content.as_str(), self.settings.output_chunk_chars);
        let ghost pieces = labelled(content@, self.settings.output_chunk_chars as int);
        let ghost prefix = self@.command_catalog.response_prefix@;
        let ghost added = pieces.map_values(
            |chunk: Seq<char>| bridge_notice(rewritten(prefix, chunk)),
        );
        let mut index: usize = 0;
        assert(self@.effects + added.take(0) =~= self@.effects);
        while index < chunks.len()
            invariant
                index <= chunks@.len(),
                texts(chunks@) == pieces,
                prefix == old(self)@.command_catalog.response_prefix@,
                added == pieces.map_values(
                    |chunk: Seq<char>| bridge_notice(rewritten(prefix, chunk)),
                ),
                self@ == (CoordinatorModel {
                    effects: old(self)@.effects + added.take(index as int),
                    ..old(self)@
                }),
            decreases chunks@.len() - index,
        {
            assert(pieces[index as int] == chunks@[index as int]@);
            self.push_notice(chunks[index].as_str());
            assert(old(self)@.effects + added.take(index as int).push(added[index as int])
                =~= self@.effects);
            assert(added.take(index as int).push(added[index as int]) =~= added.take(index + 1));
            index += 1;
        }
        assert(added.take(index as int) =~= added);
        assert(self@.effects =~= old(self)@.telling(text@).effects);
    }

    /// Adds a task, which comes before the others.
    pub fn push_task(&mut self, task: Task)
        ensures
            final(self)@ == old(self)@.then_doing(task@),
    {
        let ghost model = task@;
        self.tasks.push(task);
        assert(task_models(self.tasks@) =~= task_models(old(self).tasks@).push(model));
    }

    /// Waits for a save.
    pub fn save_then(&mut self, next: AfterSave)
        ensures
            final(self)@ == old(self)@.saving(next@),
    {
        self.wait = Some(Wait::Saving(next));
    }

    /// Adds an effect.
    pub fn push_effect(&mut self, effect: Effect)
        ensures
            final(self)@ == old(self)@.doing(effect@),
    {
        let ghost model = effect@;
        self.effects.push(effect);
        assert(effect_models(self.effects@) =~= effect_models(old(self).effects@).push(model));
    }
}

/// The kinds of status that a turn shows.
#[derive(Debug, Clone, Copy, PartialEq, Eq, Structural)]
pub enum StatusKind {
    Working,
    Reasoning,
    Tooling,
}

/// A status, as it is shown.
pub open spec fn status_text(kind: StatusKind) -> Seq<char> {
    match kind {
        StatusKind::Working => "[codex working...]"@,
        StatusKind::Reasoning => "[codex reasoning...]"@,
        StatusKind::Tooling => "[codex tooling]"@,
    }
}

/// Whether a status was shown.
pub open spec fn was_shown(statuses: ShownStatuses, kind: StatusKind) -> bool {
    match kind {
        StatusKind::Working => statuses.working,
        StatusKind::Reasoning => statuses.reasoning,
        StatusKind::Tooling => statuses.tooling,
    }
}

/// The statuses after one was shown.
pub open spec fn with_shown(statuses: ShownStatuses, kind: StatusKind) -> ShownStatuses {
    match kind {
        StatusKind::Working => ShownStatuses { working: true, ..statuses },
        StatusKind::Reasoning => ShownStatuses { reasoning: true, ..statuses },
        StatusKind::Tooling => ShownStatuses { tooling: true, ..statuses },
    }
}

/// The statuses of a turn that has shown none.
pub open spec fn none_shown() -> ShownStatuses {
    ShownStatuses { working: false, reasoning: false, tooling: false }
}

impl CoordinatorModel {
    /// The coordinator after a status was due: it is shown at most once per turn.
    pub open spec fn showing(self, kind: StatusKind) -> CoordinatorModel {
        if was_shown(self.shown_statuses, kind) {
            self
        } else {
            CoordinatorModel {
                shown_statuses: with_shown(self.shown_statuses, kind),
                ..self
            }.telling(status_text(kind))
        }
    }
}

impl Coordinator {
    /// Shows a status of the running turn, at most once.
    pub fn show_status(&mut self, kind: StatusKind)
        ensures
            final(self)@ == old(self)@.showing(kind),
    {
        match kind {
            StatusKind::Working => {
                if !self.shown_statuses.working {
                    self.shown_statuses.working = true;
                    self.tell("[codex working...]");
                }
            },
            StatusKind::Reasoning => {
                if !self.shown_statuses.reasoning {
                    self.shown_statuses.reasoning = true;
                    self.tell("[codex reasoning...]");
                }
            },
            StatusKind::Tooling => {
                if !self.shown_statuses.tooling {
                    self.shown_statuses.tooling = true;
                    self.tell("[codex tooling]");
                }
            },
        }
    }
}

/// The delivery of a transcript entry: its plain text, where it has any, without
/// prefix or label.
pub open spec fn entry_delivery(self_chat_id: Seq<char>, entry: EntryModel) -> Seq<EffectModel> {
    match plain_text_of(entry.item) {
        Some(text) => if text.len() == 0 {
            Seq::empty()
        } else {
            seq![
                EffectModel::Deliver(
                    IntentModel {
                        conversation_id: self_chat_id,
                        generation: 0,
                        key: entry.key,
                        origin: entry.origin,
                        text,
                        revision: entry.revision,
                        committed: entry.committed,
                    },
                ),
            ]
        },
        None => Seq::empty(),
    }
}

/// The deliveries for one event of the projection.
pub open spec fn event_delivery(self_chat_id: Seq<char>, event: EventModel) -> Seq<EffectModel> {
    match event {
        EventModel::Entry(entry) => entry_delivery(self_chat_id, entry),
        EventModel::Notice(notice) => seq![
            EffectModel::Notice {
                origin: notice.origin,
                thread_id: notice.thread_id,
                turn_id: notice.turn_id,
                text: notice.text,
            },
        ],
        _ => Seq::empty(),
    }
}

/// The deliveries for the events of the projection, in their order.
pub open spec fn deliveries(self_chat_id: Seq<char>, events: Seq<EventModel>) -> Seq<EffectModel>
    decreases events.len(),
{
    if events.len() == 0 {
        Seq::empty()
    } else {
        deliveries(self_chat_id, events.drop_last()) + event_delivery(self_chat_id, events.last())
    }
}

impl CoordinatorModel {
    /// The coordinator after it handed on the events of the projection.
    pub open spec fn delivering(self, events: Seq<EventModel>) -> CoordinatorModel {
        CoordinatorModel {
            effects: self.effects + deliveries(self.settings.self_chat_id@, events),
            ..self
        }
    }
}

impl Coordinator {
    /// Hands on one event of the projection.
    fn deliver_event(&mut self, event: &ProjectionEvent)
        ensures
            final(self)@ == (CoordinatorModel {
                effects: old(self)@.effects + event_delivery(
                    old(self)@.settings.self_chat_id@,
                    event@,
                ),
                ..old(self)@
            }),
    {
        match event {
            ProjectionEvent::Entry(entry) => {
                match entry.plain_text() {
                    Some(text) => {
                        if !text.as_str().is_empty() {
                            let intent = DeliveryIntent {
                                conversation_id: ProviderConversationId {
                                    value: self.settings.self_chat_id.clone(),
                                },
                                generation: 0,
                                key: entry.key.clone(),
                                origin: entry.origin,
                                text,
                                revision: entry.revision,
                                committed: entry.committed,
                            };
                            let ghost model = intent_model(intent);
                            self.push_effect(Effect::Deliver(intent));
                            assert(self@.effects =~= old(self)@.effects + seq![
                                EffectModel::Deliver(model),
                            ]);
                            return;
                        }
                    },
                    None => {},
                }
                assert(self@.effects =~= old(self)@.effects + Seq::<EffectModel>::empty());
            },
            ProjectionEvent::Notice(notice) => {
                let effect = Effect::Notice {
                    origin: notice.origin,
                    thread_id: notice.thread_id.clone(),
                    turn_id: notice.turn_id.clone(),
                    text: notice.text.clone(),
                };
                let ghost model = effect@;
                self.push_effect(effect);
                assert(self@.effects =~= old(self)@.effects + seq![model]);
            },
            ProjectionEvent::Request(_) => {
                assert(self@.effects =~= old(self)@.effects + Seq::<EffectModel>::empty());
            },
            ProjectionEvent::Suppressed => {
                assert(self@.effects =~= old(self)@.effects + Seq::<EffectModel>::empty());
            },
        }
    }

    /// Hands on the events of the projection, in their order.
    pub fn enqueue_projection(&mut self, events: &Vec<ProjectionEvent>)
        ensures
            final(self)@ == old(self)@.delivering(event_models(events@)),
    {
        let mut index: usize = 0;
        let ghost models = event_models(events@);
        let ghost chat = self@.settings.self_chat_id@;
        assert(models.take(0) =~= Seq::<EventModel>::empty());
        assert(self@.effects =~= self@.effects + deliveries(chat, models.take(0)));
        while index < events.len()
            invariant
                index <= events@.len(),
                models == event_models(events@),
                chat == old(self)@.settings.self_chat_id@,
                self@ == (CoordinatorModel {
                    effects: old(self)@.effects + deliveries(chat, models.take(index as int)),
                    ..old(self)@
                }),
            decreases events@.len() - index,
        {
            let event = &events[index];
            proof {
                let longer = models.take(index + 1);
                assert(longer.drop_last() =~= models.take(index as int));
                assert(longer.last() == event@);
            }
            self.deliver_event(event);
            assert(self@.effects =~= old(self)@.effects + deliveries(
                chat,
                models.take(index + 1),
            ));
            index += 1;
        }
        assert(models.take(index as int) =~= models);
    }
}

/// Whether an item is an assistant message that says something.
pub open spec fn says_something(item: ItemModel) -> bool {
    item matches ItemModel::AgentMessage { text, .. } && text.len() > 0
}

/// Whether an entry of a turn is an assistant message that says something.
pub open spec fn speaks_for(entry: EntryModel, thread_id: Seq<char>, turn_id: Seq<char>) -> bool {
    entry.key.thread_id == thread_id && entry.key.turn_id == turn_id && says_something(entry.item)
}

/// Whether a turn has brought any assistant text.
pub open spec fn has_spoken(
    entries: Seq<EntryModel>,
    thread_id: Seq<char>,
    turn_id: Seq<char>,
) -> bool {
    exists|i: int| 0 <= i < entries.len() && speaks_for(#[trigger] entries[i], thread_id, turn_id)
}

/// What is said at the end of a turn, beside what the transcript shows. `failure` is
/// what there is to say of a failed one.
pub open spec fn closing_text(
    status: TurnStatus,
    failure: Option<Seq<char>>,
    spoken: bool,
) -> Option<Seq<char>> {
    match status {
        TurnStatus::Completed => if spoken {
            None
        } else {
            Some("[codex] Turn completed."@)
        },
        TurnStatus::Interrupted => Some("[codex] Turn interrupted."@),
        TurnStatus::Failed => failure,
        TurnStatus::InProgress => Some("[codex] Turn ended with an invalid status."@),
    }
}

/// What is said where notifications were lost during a turn.
pub open spec fn degraded_text() -> Seq<char> {
    "[codex] Some streaming events were missed; completed output was reconstructed from authoritative events."@
}

impl CoordinatorModel {
    /// The coordinator after it closed a turn.
    pub open spec fn closing(
        self,
        thread_id: Seq<char>,
        turn_id: Seq<char>,
        status: TurnStatus,
        failure: Option<Seq<char>>,
    ) -> CoordinatorModel {
        let spoken = has_spoken(self.projector.entries, thread_id, turn_id);
        let told = match closing_text(status, failure, spoken) {
            Some(text) => self.telling(text),
            None => self,
        };
        if self.stream_degraded {
            told.telling(degraded_text())
        } else {
            told
        }
    }
}

impl Coordinator {
    /// Whether a turn has brought any assistant text.
    fn turn_has_spoken(&self, thread_id: &str, turn_id: &str) -> (spoken: bool)
        ensures
            spoken == has_spoken(self@.projector.entries, thread_id@, turn_id@),
    {
        let mut index: usize = 0;
        let entries = self.projector.entries();
        while index < entries.len()
            invariant
                index <= entries@.len(),
                crate::transcript::model::entry_models(entries@) == self@.projector.entries,
                forall|i: int|
                    0 <= i < index ==> !speaks_for(
                        #[trigger] self@.projector.entries[i],
                        thread_id@,
                        turn_id@,
                    ),
            decreases entries@.len() - index,
        {
            let entry = &entries[index];
            assert(self@.projector.entries[index as int] == entry@);
            if same_text(entry.key.thread_id.as_str(), thread_id) && same_text(
                entry.key.turn_id.as_str(),
                turn_id,
            ) {
                match &entry.item {
                    ThreadItem::AgentMessage { text, .. } => {
                        if !text.as_str().is_empty() {
                            assert(speaks_for(
                                self@.projector.entries[index as int],
                                thread_id@,
                                turn_id@,
                            ));
                            return true;
                        }
                    },
                    _ => {},
                }
            }
            index += 1;
        }
        false
    }

    /// Closes a turn towards the user.
    pub fn close_turn(
        &mut self,
        thread_id: &str,
        turn_id: &str,
        status: TurnStatus,
        failure: &Option<String>,
    )
        ensures
            final(self)@ == old(self)@.closing(
                thread_id@,
                turn_id@,
                status,
                option_text(*failure),
            ),
    {
        let degraded = self.stream_degraded;
        match status {
            TurnStatus::Completed => {
                if !self.turn_has_spoken(thread_id, turn_id) {
                    self.tell("[codex] Turn completed.");
                }
            },
            TurnStatus::Interrupted => self.tell("[codex] Turn interrupted."),
            TurnStatus::Failed => match failure {
                Some(text) => self.tell(text.as_str()),
                None => {},
            },
            TurnStatus::InProgress => self.tell("[codex] Turn ended with an invalid status."),
        }
        if degraded {
            self.tell(
                "[codex] Some streaming events were missed; completed output was reconstructed from authoritative events.",
            );
        }
    }
}

/// The intent for an effect that reaches the user, under an identity of its own
/// for a notice.
pub open spec fn is_intent_for(
    intent: DeliveryIntent,
    effect: EffectModel,
    self_chat_id: Seq<char>,
) -> bool {
    match effect {
        EffectModel::Deliver(model) => intent_model(intent) == model,
        EffectModel::Notice { origin, thread_id, turn_id, text } => {
            &&& intent_model(intent) == (IntentModel {
                conversation_id: self_chat_id,
                generation: 0,
                key: KeyModel { thread_id, turn_id, item_id: intent.key.item_id@ },
                origin,
                text,
                revision: 1,
                committed: true,
            })
            &&& intent.key.item_id@.len() == 32
            &&& is_lower_hex(intent.key.item_id@)
        },
        _ => false,
    }
}

/// The intent for an effect that reaches the user. A notice gets a random item id,
/// so that it never replaces another message.
pub fn delivery_intent(effect: &Effect, self_chat_id: &str) -> (intent: Option<DeliveryIntent>)
    ensures
        match intent {
            Some(intent) => is_intent_for(intent, effect@, self_chat_id@),
            None => !(effect@ is Deliver) && !(effect@ is Notice),
        },
{
    match effect {
        Effect::Deliver(intent) => Some(intent.clone()),
        Effect::Notice { origin, thread_id, turn_id, text } => {
            let item_id = fresh_id();
            Some(
                DeliveryIntent {
                    conversation_id: ProviderConversationId::new(self_chat_id),
                    generation: 0,
                    key: TranscriptKey::new(
                        thread_id.as_str(),
                        turn_id.as_str(),
                        item_id.as_str(),
                    ),
                    origin: *origin,
                    text: text.clone(),
                    revision: 1,
                    committed: true,
                },
            )
        },
        _ => None,
    }
}

} // verus!
