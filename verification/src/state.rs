//! Durable, bounded bridge state.

use crate::attachment::InboundAttachment;
use crate::ledger::in_order;
use crate::ledger::is_recorded;
use crate::ledger::noted;
use crate::ledger::noting_adds_no_rival;
use crate::ledger::noting_records;
use crate::ledger::pruned;
use crate::ledger::pruning_keeps_what_has_few_rivals;
use crate::ledger::rivals;
use crate::ledger::Ledger;
use crate::ledger::LedgerModel;
use crate::text::copy_texts;
use crate::text::option_text;
use crate::text::texts;
use vstd::prelude::*;

verus! {

pub const STATE_SCHEMA_VERSION: u32 = 3;

/// The Codex thread that the self-chat talks to.
#[derive(Debug, PartialEq, Eq)]
pub struct ThreadBinding {
    pub self_chat_id: String,
    pub codex_thread_id: String,
}

impl Clone for ThreadBinding {
    fn clone(&self) -> (copy: Self)
        ensures
            copy == *self,
    {
        ThreadBinding {
            self_chat_id: self.self_chat_id.clone(),
            codex_thread_id: self.codex_thread_id.clone(),
        }
    }
}

/// The turn that is running.
#[derive(Debug, PartialEq, Eq)]
pub struct ActiveTurn {
    pub inbound_message_id: String,
    pub thread_id: String,
    pub codex_turn_id: String,
    /// Read from old state files, and not written.
    pub legacy_working_output_message_id: Option<String>,
    /// The attachment files that the turn refers to.
    pub attachment_paths: Vec<String>,
}

/// What an `ActiveTurn` holds.
#[verifier::ext_equal]
pub struct TurnModel {
    pub inbound_message_id: Seq<char>,
    pub thread_id: Seq<char>,
    pub codex_turn_id: Seq<char>,
    pub legacy_working_output_message_id: Option<Seq<char>>,
    pub attachment_paths: Seq<Seq<char>>,
}

impl View for ActiveTurn {
    type V = TurnModel;

    open spec fn view(&self) -> TurnModel {
        TurnModel {
            inbound_message_id: self.inbound_message_id@,
            thread_id: self.thread_id@,
            codex_turn_id: self.codex_turn_id@,
            legacy_working_output_message_id: option_text(self.legacy_working_output_message_id),
            attachment_paths: texts(self.attachment_paths@),
        }
    }
}

impl Clone for ActiveTurn {
    fn clone(&self) -> (copy: Self)
        ensures
            copy@ == self@,
    {
        ActiveTurn {
            inbound_message_id: self.inbound_message_id.clone(),
            thread_id: self.thread_id.clone(),
            codex_turn_id: self.codex_turn_id.clone(),
            legacy_working_output_message_id: self.legacy_working_output_message_id.clone(),
            attachment_paths: copy_texts(&self.attachment_paths),
        }
    }
}

/// A prompt that waits for its turn.
#[derive(Debug, PartialEq, Eq)]
pub struct QueuedPrompt {
    pub idempotency_key: String,
    pub message_id: String,
    pub body: String,
    pub attachment: Option<InboundAttachment>,
    pub accepted_at: u64,
    /// Whether Codex may have received the prompt.
    pub submission_uncertain: bool,
    /// Whether the user was told that Codex is unavailable.
    pub failure_notified: bool,
}

/// A message for the running turn that Codex has not accepted yet.
#[derive(Debug, PartialEq, Eq)]
pub struct PendingSteer {
    pub idempotency_key: String,
    pub message_id: String,
    pub body: String,
    pub attachment: Option<InboundAttachment>,
    pub thread_id: String,
    pub expected_turn_id: String,
    pub accepted_at: u64,
    /// Whether Codex may have received the message.
    pub submission_uncertain: bool,
}

/// A message of the old outbox that was not delivered yet.
#[derive(Debug, PartialEq, Eq)]
pub struct OutboundMessage {
    pub response_id: String,
    pub chat_id: String,
    pub body: String,
    pub attempts: u32,
}

/// A copy of an optional attachment.
pub fn copy_attachment(attachment: &Option<InboundAttachment>) -> (copy: Option<InboundAttachment>)
    ensures
        copy == *attachment,
{
    match attachment {
        Some(attachment) => Some(attachment.clone()),
        None => None,
    }
}

impl Clone for QueuedPrompt {
    fn clone(&self) -> (copy: Self)
        ensures
            copy == *self,
    {
        QueuedPrompt {
            idempotency_key: self.idempotency_key.clone(),
            message_id: self.message_id.clone(),
            body: self.body.clone(),
            attachment: copy_attachment(&self.attachment),
            accepted_at: self.accepted_at,
            submission_uncertain: self.submission_uncertain,
            failure_notified: self.failure_notified,
        }
    }
}

impl Clone for PendingSteer {
    fn clone(&self) -> (copy: Self)
        ensures
            copy == *self,
    {
        PendingSteer {
            idempotency_key: self.idempotency_key.clone(),
            message_id: self.message_id.clone(),
            body: self.body.clone(),
            attachment: copy_attachment(&self.attachment),
            thread_id: self.thread_id.clone(),
            expected_turn_id: self.expected_turn_id.clone(),
            accepted_at: self.accepted_at,
            submission_uncertain: self.submission_uncertain,
        }
    }
}

impl Clone for OutboundMessage {
    fn clone(&self) -> (copy: Self)
        ensures
            copy == *self,
    {
        OutboundMessage {
            response_id: self.response_id.clone(),
            chat_id: self.chat_id.clone(),
            body: self.body.clone(),
            attempts: self.attempts,
        }
    }
}

/// What a `ThreadBinding` holds.
#[verifier::ext_equal]
pub struct BindingModel {
    pub self_chat_id: Seq<char>,
    pub codex_thread_id: Seq<char>,
}

/// What a `QueuedPrompt` holds.
#[verifier::ext_equal]
pub struct PromptModel {
    pub idempotency_key: Seq<char>,
    pub message_id: Seq<char>,
    pub body: Seq<char>,
    pub attachment: Option<InboundAttachment>,
    pub accepted_at: u64,
    pub submission_uncertain: bool,
    pub failure_notified: bool,
}

/// What a `PendingSteer` holds.
#[verifier::ext_equal]
pub struct SteerModel {
    pub idempotency_key: Seq<char>,
    pub message_id: Seq<char>,
    pub body: Seq<char>,
    pub attachment: Option<InboundAttachment>,
    pub thread_id: Seq<char>,
    pub expected_turn_id: Seq<char>,
    pub accepted_at: u64,
    pub submission_uncertain: bool,
}

/// What an `OutboundMessage` holds.
#[verifier::ext_equal]
pub struct OutboundModel {
    pub response_id: Seq<char>,
    pub chat_id: Seq<char>,
    pub body: Seq<char>,
    pub attempts: u32,
}

impl View for ThreadBinding {
    type V = BindingModel;

    open spec fn view(&self) -> BindingModel {
        BindingModel {
            self_chat_id: self.self_chat_id@,
            codex_thread_id: self.codex_thread_id@,
        }
    }
}

impl View for QueuedPrompt {
    type V = PromptModel;

    open spec fn view(&self) -> PromptModel {
        PromptModel {
            idempotency_key: self.idempotency_key@,
            message_id: self.message_id@,
            body: self.body@,
            attachment: self.attachment,
            accepted_at: self.accepted_at,
            submission_uncertain: self.submission_uncertain,
            failure_notified: self.failure_notified,
        }
    }
}

impl View for PendingSteer {
    type V = SteerModel;

    open spec fn view(&self) -> SteerModel {
        SteerModel {
            idempotency_key: self.idempotency_key@,
            message_id: self.message_id@,
            body: self.body@,
            attachment: self.attachment,
            thread_id: self.thread_id@,
            expected_turn_id: self.expected_turn_id@,
            accepted_at: self.accepted_at,
            submission_uncertain: self.submission_uncertain,
        }
    }
}

impl View for OutboundMessage {
    type V = OutboundModel;

    open spec fn view(&self) -> OutboundModel {
        OutboundModel {
            response_id: self.response_id@,
            chat_id: self.chat_id@,
            body: self.body@,
            attempts: self.attempts,
        }
    }
}

/// What a list of prompts holds.
pub open spec fn prompt_models(prompts: Seq<QueuedPrompt>) -> Seq<PromptModel> {
    prompts.map_values(|prompt: QueuedPrompt| prompt@)
}

/// What a list of steers holds.
pub open spec fn steer_models(steers: Seq<PendingSteer>) -> Seq<SteerModel> {
    steers.map_values(|steer: PendingSteer| steer@)
}

/// What a list of outbound messages holds.
pub open spec fn outbound_models(messages: Seq<OutboundMessage>) -> Seq<OutboundModel> {
    messages.map_values(|message: OutboundMessage| message@)
}

/// What an optional binding holds.
pub open spec fn binding_model(binding: Option<ThreadBinding>) -> Option<BindingModel> {
    match binding {
        Some(binding) => Some(binding@),
        None => None,
    }
}

/// Everything that the bridge keeps across restarts.
#[derive(Debug, PartialEq, Eq)]
pub struct BridgeState {
    pub schema_version: u32,
    pub binding: Option<ThreadBinding>,
    pub orphaned_thread_id: Option<String>,
    pub active_turn: Option<ActiveTurn>,
    pub queued_prompts: Vec<QueuedPrompt>,
    pub pending_steers: Vec<PendingSteer>,
    /// Read from old state files, and not written.
    pub legacy_outbox: Vec<OutboundMessage>,
    pub processed_events: Ledger,
    pub outbound_message_ids: Ledger,
}

/// What a `BridgeState` holds.
#[verifier::ext_equal]
pub struct StateModel {
    pub schema_version: u32,
    pub binding: Option<BindingModel>,
    pub orphaned_thread_id: Option<Seq<char>>,
    pub active_turn: Option<TurnModel>,
    pub queued_prompts: Seq<PromptModel>,
    pub pending_steers: Seq<SteerModel>,
    pub legacy_outbox: Seq<OutboundModel>,
    pub processed_events: LedgerModel,
    pub outbound_message_ids: LedgerModel,
}

/// What an optional turn holds.
pub open spec fn turn_model(turn: Option<ActiveTurn>) -> Option<TurnModel> {
    match turn {
        Some(turn) => Some(turn@),
        None => None,
    }
}

impl View for BridgeState {
    type V = StateModel;

    open spec fn view(&self) -> StateModel {
        StateModel {
            schema_version: self.schema_version,
            binding: binding_model(self.binding),
            orphaned_thread_id: option_text(self.orphaned_thread_id),
            active_turn: turn_model(self.active_turn),
            queued_prompts: prompt_models(self.queued_prompts@),
            pending_steers: steer_models(self.pending_steers@),
            legacy_outbox: outbound_models(self.legacy_outbox@),
            processed_events: self.processed_events@,
            outbound_message_ids: self.outbound_message_ids@,
        }
    }
}

impl Clone for BridgeState {
    fn clone(&self) -> (copy: Self)
        ensures
            copy@ == self@,
    {
        let queued_prompts = self.queued_prompts.clone();
        assert(queued_prompts@ =~= self.queued_prompts@);
        let pending_steers = self.pending_steers.clone();
        assert(pending_steers@ =~= self.pending_steers@);
        let legacy_outbox = self.legacy_outbox.clone();
        assert(legacy_outbox@ =~= self.legacy_outbox@);
        BridgeState {
            schema_version: self.schema_version,
            binding: match &self.binding {
                Some(binding) => Some(binding.clone()),
                None => None,
            },
            orphaned_thread_id: self.orphaned_thread_id.clone(),
            active_turn: match &self.active_turn {
                Some(turn) => Some(turn.clone()),
                None => None,
            },
            queued_prompts,
            pending_steers,
            legacy_outbox,
            processed_events: self.processed_events.clone(),
            outbound_message_ids: self.outbound_message_ids.clone(),
        }
    }
}

/// A state that holds nothing, under a given schema.
pub open spec fn blank(schema_version: u32) -> StateModel {
    StateModel {
        schema_version,
        binding: None,
        orphaned_thread_id: None,
        active_turn: None,
        queued_prompts: Seq::empty(),
        pending_steers: Seq::empty(),
        legacy_outbox: Seq::empty(),
        processed_events: Seq::empty(),
        outbound_message_ids: Seq::empty(),
    }
}

#[derive(Debug, Clone, Copy, PartialEq, Eq, Structural)]
pub enum StateError {
    UnsupportedSchema,
    Read,
    Parse,
    Write,
}

impl StateError {
    /// The error in words.
    pub fn message(self) -> (text: &'static str)
        ensures
            text@ == match self {
                StateError::UnsupportedSchema => "unsupported bridge state schema"@,
                StateError::Read => "failed to read bridge state"@,
                StateError::Parse => "failed to parse bridge state"@,
                StateError::Write => "failed to persist bridge state"@,
            },
    {
        match self {
            StateError::UnsupportedSchema => "unsupported bridge state schema",
            StateError::Read => "failed to read bridge state",
            StateError::Parse => "failed to parse bridge state",
            StateError::Write => "failed to persist bridge state",
        }
    }
}

/// The earliest time that is kept at `now`, for a lifetime in hours.
pub open spec fn earliest_kept(now: u64, ttl_hours: u64) -> u64 {
    let ttl = if ttl_hours * 3600 <= u64::MAX {
        (ttl_hours * 3600) as u64
    } else {
        u64::MAX
    };
    if now >= ttl {
        (now - ttl) as u64
    } else {
        0
    }
}

/// The earliest time that is kept at `now`, for a lifetime in hours.
pub fn earliest_time(now: u64, ttl_hours: u64) -> (earliest: u64)
    ensures
        earliest == earliest_kept(now, ttl_hours),
{
    let ttl: u64 = match ttl_hours.checked_mul(3600) {
        Some(seconds) => seconds,
        None => u64::MAX,
    };
    now.saturating_sub(ttl)
}

/// A state after expiry of what it has recorded.
pub open spec fn state_pruned(
    before: StateModel,
    now: u64,
    ttl_hours: u64,
    capacity: nat,
) -> StateModel {
    let minimum = earliest_kept(now, ttl_hours);
    StateModel {
        processed_events: pruned(before.processed_events, minimum, capacity),
        outbound_message_ids: pruned(before.outbound_message_ids, minimum, capacity),
        ..before
    }
}

/// A turn as it is written: without the message that only old state files name.
pub open spec fn turn_written(turn: Option<TurnModel>) -> Option<TurnModel> {
    match turn {
        Some(turn) => Some(TurnModel { legacy_working_output_message_id: None, ..turn }),
        None => None,
    }
}

/// A state as it is written: without what is only read from old state files.
pub open spec fn state_written(state: StateModel) -> StateModel {
    StateModel {
        active_turn: turn_written(state.active_turn),
        legacy_outbox: Seq::empty(),
        ..state
    }
}

/// What was found where the state is kept.
#[derive(Debug, PartialEq, Eq)]
pub enum StateFile {
    /// There is no file.
    Missing,
    /// The file could not be read, or not be made private.
    Unreadable,
    /// The file holds no state.
    Malformed,
    Parsed(BridgeState),
}

/// Whether a state of a schema can be taken up: the current one, or the one before.
pub open spec fn is_supported(schema_version: u32) -> bool {
    schema_version == STATE_SCHEMA_VERSION || schema_version == 2
}

/// What is wrong with a state file, if anything.
pub open spec fn load_error(file: StateFile) -> Option<StateError> {
    match file {
        StateFile::Missing => None,
        StateFile::Unreadable => Some(StateError::Read),
        StateFile::Malformed => Some(StateError::Parse),
        StateFile::Parsed(state) => if is_supported(state.schema_version) {
            None
        } else {
            Some(StateError::UnsupportedSchema)
        },
    }
}

impl BridgeState {
    /// A valid state: the two records of identifiers are in order.
    pub open spec fn wf(self) -> bool {
        in_order(self.processed_events@) && in_order(self.outbound_message_ids@)
    }

    /// A state that holds nothing.
    pub fn empty() -> (state: Self)
        ensures
            state@ == blank(STATE_SCHEMA_VERSION),
            state.wf(),
    {
        let state = BridgeState {
            schema_version: STATE_SCHEMA_VERSION,
            binding: None,
            orphaned_thread_id: None,
            active_turn: None,
            queued_prompts: Vec::new(),
            pending_steers: Vec::new(),
            legacy_outbox: Vec::new(),
            processed_events: Ledger::default(),
            outbound_message_ids: Ledger::default(),
        };
        assert(state@ =~= blank(STATE_SCHEMA_VERSION));
        state
    }

    /// Decides on a state that was read: the current schema is taken as it is, the
    /// one before is migrated, and any other is refused.
    pub fn migrate(self) -> (state: Result<Self, StateError>)
        ensures
            match state {
                Ok(state) => is_supported(self.schema_version) && state == (BridgeState {
                    schema_version: STATE_SCHEMA_VERSION,
                    ..self
                }),
                Err(error) => error is UnsupportedSchema && !is_supported(self.schema_version),
            },
    {
        if self.schema_version == STATE_SCHEMA_VERSION {
            return Ok(self);
        }
        if self.schema_version == 2 {
            let mut state = self;
            state.schema_version = STATE_SCHEMA_VERSION;
            return Ok(state);
        }
        Err(StateError::UnsupportedSchema)
    }

    /// The state to begin with, by what was found where it is kept: an empty one where
    /// there is no file.
    pub fn loaded(file: StateFile) -> (state: Result<Self, StateError>)
        ensures
            match state {
                Ok(state) => load_error(file) is None && match file {
                    StateFile::Parsed(read) => state == (BridgeState {
                        schema_version: STATE_SCHEMA_VERSION,
                        ..read
                    }),
                    _ => state@ == blank(STATE_SCHEMA_VERSION) && state.wf(),
                },
                Err(error) => load_error(file) == Some(error),
            },
    {
        match file {
            StateFile::Missing => Ok(BridgeState::empty()),
            StateFile::Unreadable => Err(StateError::Read),
            StateFile::Malformed => Err(StateError::Parse),
            StateFile::Parsed(state) => state.migrate(),
        }
    }

    /// The state as it is written: what is only read from old state files is left
    /// out.
    pub fn persisted(&self) -> (written: Self)
        ensures
            written@ == state_written(self@),
            self.wf() ==> written.wf(),
    {
        let mut written = self.clone();
        written.legacy_outbox = Vec::new();
        if let Some(turn) = written.active_turn {
            let mut turn = turn;
            turn.legacy_working_output_message_id = None;
            written.active_turn = Some(turn);
        }
        assert(written@ =~= state_written(self@));
        written
    }

    /// Records that an event was processed.
    pub fn mark_processed(&mut self, key: String, timestamp: u64)
        ensures
            final(self)@ == (StateModel {
                processed_events: noted(old(self)@.processed_events, key@, timestamp),
                ..old(self)@
            }),
            *final(self) == (BridgeState {
                processed_events: final(self).processed_events,
                ..*old(self)
            }),
            old(self).wf() ==> final(self).wf(),
    {
        self.processed_events.insert(key, timestamp);
    }

    /// Whether an event was processed.
    pub fn was_processed(&self, key: &str) -> (yes: bool)
        ensures
            yes == is_recorded(self@.processed_events, key@),
    {
        self.processed_events.contains_key(key)
    }

    /// Whether the bridge itself sent a message.
    pub fn was_sent_by_bridge(&self, message_id: &str) -> (yes: bool)
        ensures
            yes == is_recorded(self@.outbound_message_ids, message_id@),
    {
        self.outbound_message_ids.contains_key(message_id)
    }

    /// Records that the bridge sent a message.
    pub fn mark_outbound(&mut self, message_id: String, timestamp: u64)
        ensures
            final(self)@ == (StateModel {
                outbound_message_ids: noted(
                    old(self)@.outbound_message_ids,
                    message_id@,
                    timestamp,
                ),
                ..old(self)@
            }),
            *final(self) == (BridgeState {
                outbound_message_ids: final(self).outbound_message_ids,
                ..*old(self)
            }),
            old(self).wf() ==> final(self).wf(),
    {
        self.outbound_message_ids.insert(message_id, timestamp);
    }

    /// Forgets identifiers that are older than the lifetime or beyond the capacity.
    pub fn prune(&mut self, now: u64, ttl_hours: u64, capacity: usize)
        ensures
            final(self)@ == state_pruned(old(self)@, now, ttl_hours, capacity as nat),
            *final(self) == (BridgeState {
                processed_events: final(self).processed_events,
                outbound_message_ids: final(self).outbound_message_ids,
                ..*old(self)
            }),
            old(self).wf() ==> final(self).wf(),
    {
        let minimum: u64 = earliest_time(now, ttl_hours);
        self.processed_events.prune(minimum, capacity);
        self.outbound_message_ids.prune(minimum, capacity);
    }
}

/// A state that was written is read back as it was, but for what is only read
/// from old state files, and is written again without a change.
pub proof fn written_states_are_kept(state: StateModel)
    ensures
        state_written(state) == (StateModel {
            active_turn: state_written(state).active_turn,
            legacy_outbox: Seq::empty(),
            ..state
        }),
        state_written(state).active_turn is Some <==> state.active_turn is Some,
        state.active_turn matches Some(turn) ==> state_written(state).active_turn == Some(
            TurnModel { legacy_working_output_message_id: None, ..turn },
        ),
        state_written(state_written(state)) == state_written(state),
{
}

/// An event that was just marked is known, also after expiry at that moment,
/// exactly where the record has room for it: where fewer others than the record
/// holds are newer, or as new with a later key.
pub proof fn marked_events_are_known(
    before: LedgerModel,
    key: Seq<char>,
    now: u64,
    ttl_hours: u64,
    capacity: nat,
)
    requires
        in_order(before),
    ensures
        is_recorded(
            pruned(noted(before, key, now), earliest_kept(now, ttl_hours), capacity),
            key,
        ) == (rivals(before, key, now) < capacity),
{
    noting_records(before, key, now, key);
    noting_adds_no_rival(before, key, now);
    pruning_keeps_what_has_few_rivals(
        noted(before, key, now),
        key,
        now,
        earliest_kept(now, ttl_hours),
        capacity,
    );
}

/// What is kept reaches back exactly the given number of hours, as far as time does.
pub proof fn records_reach_back_for_their_lifetime(now: u64, ttl_hours: u64)
    ensures
        ttl_hours * 3600 <= now ==> now - earliest_kept(now, ttl_hours) == ttl_hours * 3600,
        ttl_hours * 3600 > now ==> earliest_kept(now, ttl_hours) == 0,
{
}

} // verus!
