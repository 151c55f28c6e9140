//! The life of the coordinator: its start, what happens from outside, and its end.

use crate::command_catalog::CommandCatalog;
use crate::health::readiness_of;
use crate::health::BridgeReadinessSnapshot;
use crate::ids::fresh_token;
use crate::ids::is_lower_hex;
use crate::ledger::noted;
use crate::messaging::DeliveryWorkerEvent;
use crate::notifications::AppServerEvent;
use crate::state::outbound_models;
use crate::state::state_pruned;
use crate::state::BridgeState;
use crate::state::OutboundMessage;
use crate::state::OutboundModel;
use crate::state::StateModel;
use crate::text::same_text;
use crate::transcript::projector::indexable;
use crate::transcript::projector::revisions_used;
use crate::transcript::ProjectorModel;
use crate::transcript::TranscriptProjectionOptions;
use crate::transcript::TranscriptProjector;
use crate::transport::is_account;
use crate::transport::says_ready;
use crate::transport::TransportStatus;
use super::model::approval_models;
use super::model::effect_models;
use super::model::path_models;
use super::model::request_models;
use super::model::task_models;
use super::model::AfterSave;
use super::model::AfterSaveModel;
use super::model::Coordinator;
use super::model::CoordinatorModel;
use super::model::Effect;
use super::model::EffectModel;
use super::model::PendingApprovalModel;
use super::model::PendingRequestModel;
use super::model::Settings;
use super::model::ShownStatuses;
use super::model::Task;
use super::model::TaskModel;
use super::model::Wait;
use super::notices::none_shown;
use super::prompts::first_notified;
use super::prompts::is_uncertain;
use super::steps::is_sound;
use vstd::prelude::*;

verus! {

/// The pause after which a connection is tried again, at first.
pub const FIRST_RECONNECT_DELAY_MS: u64 = 1_000;

/// The longest pause before a connection is tried again.
pub const LONGEST_RECONNECT_DELAY_MS: u64 = 5_000;

/// What the outbox says of an outage.
pub open spec fn outage_text() -> Seq<char> {
    "[codex] Codex app-server is unavailable."@
}

/// Whether a message of the outbox speaks of an outage.
pub open spec fn speaks_of_outage(outbox: Seq<OutboundModel>) -> bool {
    exists|i: int| 0 <= i < outbox.len() && (#[trigger] outbox[i]).body == outage_text()
}

/// The outbox without the messages that speak of an outage.
pub open spec fn without_outages(outbox: Seq<OutboundModel>) -> Seq<OutboundModel>
    decreases outbox.len(),
{
    if outbox.len() == 0 {
        Seq::empty()
    } else {
        let earlier = without_outages(outbox.drop_last());
        if outbox.last().body == outage_text() {
            earlier
        } else {
            earlier.push(outbox.last())
        }
    }
}

/// The state after a message of the bridge was sent: its identity is noted, so that
/// the message is not taken for one of the user.
pub open spec fn with_outbound(
    state: StateModel,
    settings: Settings,
    message_id: Seq<char>,
    now: u64,
) -> StateModel {
    state_pruned(
        StateModel {
            outbound_message_ids: noted(state.outbound_message_ids, message_id, now),
            ..state
        },
        now,
        settings.dedupe_ttl_hours,
        settings.dedupe_capacity as nat,
    )
}

/// The refusals of pending requests and approvals.
pub open spec fn refusals(
    requests: Seq<PendingRequestModel>,
    approvals: Seq<PendingApprovalModel>,
) -> Seq<EffectModel> {
    requests.map_values(
        |request: PendingRequestModel| EffectModel::Reject(request.request_id),
    ) + approvals.map_values(
        |approval: PendingApprovalModel| EffectModel::Reject(approval.request_id),
    )
}

impl CoordinatorModel {
    /// The coordinator about to begin: what the outbox says of an outage is dropped,
    /// for the first prompt will be reported on anew; the rest is sent, and then the
    /// thread is taken up.
    pub open spec fn starting(self) -> CoordinatorModel {
        let resumed = if self.app_server_connected {
            self.then_doing(TaskModel::Resume { reconnect: true })
        } else {
            self
        };
        let m = resumed.then_doing(TaskModel::FlushLegacy { delivered: false });
        if speaks_of_outage(m.state.legacy_outbox) {
            m.with_state(
                first_notified(
                    StateModel {
                        legacy_outbox: without_outages(m.state.legacy_outbox),
                        ..m.state
                    },
                ),
            ).saving(AfterSaveModel::Nothing)
        } else {
            m
        }
    }

    /// The coordinator after the connection to the app-server was lost.
    pub open spec fn disconnected(self) -> CoordinatorModel {
        CoordinatorModel {
            pending_requests: Seq::empty(),
            pending_approvals: Seq::empty(),
            stream_degraded: true,
            ..self.cut_off()
        }.telling(
            "[codex] Codex app-server disconnected; queued prompts will resume after reconnection."@,
        )
    }

    /// The coordinator after an event of the app-server; `token` is for questions.
    /// Once it is dealt with, the queue goes on.
    pub open spec fn evented(self, event: AppServerEvent, token: Seq<char>, now: u64) ->
        CoordinatorModel {
        let m = self.then_doing(TaskModel::GoOn);
        match event {
            AppServerEvent::ServerNotification(notification) => m.notified(notification),
            AppServerEvent::ServerRequest(request) => m.requested(request, token, now),
            AppServerEvent::Lagged { .. } => CoordinatorModel {
                stream_degraded: true,
                ..m
            }.resuming(false),
            AppServerEvent::Disconnected => self.disconnected(),
        }
    }

    /// The coordinator after a message of its outbox was sent, or not.
    pub open spec fn legacy_settled(
        self,
        delivered: bool,
        sent: Option<Seq<char>>,
        now: u64,
    ) -> CoordinatorModel {
        let m = self.resting();
        if m.state.legacy_outbox.len() == 0 {
            m
        } else {
            match sent {
                Some(message_id) => CoordinatorModel {
                    transport_healthy: true,
                    ..m.with_state(
                        with_outbound(
                            StateModel {
                                legacy_outbox: m.state.legacy_outbox.remove(0),
                                ..m.state
                            },
                            m.settings,
                            message_id,
                            now,
                        ),
                    )
                }.saving(AfterSaveModel::LegacySettled { sent: true }),
                None => {
                    let first = m.state.legacy_outbox[0];
                    let attempts = if first.attempts < u32::MAX {
                        (first.attempts + 1) as u32
                    } else {
                        first.attempts
                    };
                    CoordinatorModel {
                        transport_healthy: delivered,
                        ..m.with_state(
                            StateModel {
                                legacy_outbox: m.state.legacy_outbox.update(
                                    0,
                                    OutboundModel { attempts, ..first },
                                ),
                                ..m.state
                            },
                        )
                    }.saving(AfterSaveModel::LegacySettled { sent: false })
                },
            }
        }
    }

    /// The coordinator after the delivery worker reported.
    pub open spec fn delivery_reported(self, event: DeliveryWorkerEvent, now: u64) ->
        CoordinatorModel {
        match event {
            DeliveryWorkerEvent::Enqueued { .. } => self,
            DeliveryWorkerEvent::Sent { provider_message_id, .. } => CoordinatorModel {
                transport_healthy: true,
                ..self.with_state(
                    with_outbound(self.state, self.settings, provider_message_id@, now),
                )
            }.saving(AfterSaveModel::Nothing),
            DeliveryWorkerEvent::Edited { .. } => CoordinatorModel {
                transport_healthy: true,
                ..self
            },
            DeliveryWorkerEvent::Failed { .. } => CoordinatorModel {
                transport_healthy: false,
                ..self
            },
            DeliveryWorkerEvent::StoreFailed => self.unsaved(),
        }
    }

    /// The coordinator after the transport was asked how it is.
    pub open spec fn transport_checked(self, status: Option<TransportStatus>) -> CoordinatorModel {
        let healthy = match status {
            Some(status) => says_ready(status) && is_account(
                status,
                self.settings.configured_phone@,
            ),
            None => false,
        };
        let m = CoordinatorModel { transport_healthy: healthy, ..self };
        if healthy && m.state.legacy_outbox.len() > 0 {
            m.then_doing(TaskModel::FlushLegacy { delivered: false })
        } else {
            m
        }
    }

    /// The coordinator after some time has passed.
    pub open spec fn ticked(self, now: u64) -> CoordinatorModel {
        let expired = if self.app_server_connected {
            let (m, kept) = self.expiring(self.pending_requests, now);
            CoordinatorModel { pending_requests: kept, ..m }
        } else {
            self
        };
        let asked = if expired.app_server_connected && is_uncertain(expired.state) {
            expired.then_doing(TaskModel::AdvanceQueue)
        } else {
            expired
        };
        let flushed = if asked.state.legacy_outbox.len() > 0 {
            asked.then_doing(TaskModel::FlushLegacy { delivered: false })
        } else {
            asked
        };
        if flushed.state_healthy {
            flushed
        } else {
            flushed.then_doing(TaskModel::Recover)
        }
    }

    /// The coordinator about to end: what waits for an answer is refused, the state
    /// is saved a last time, and what the outbox still holds is sent.
    pub open spec fn shutting_down(self) -> CoordinatorModel {
        CoordinatorModel {
            effects: self.effects + refusals(self.pending_requests, self.pending_approvals),
            pending_requests: Seq::empty(),
            pending_approvals: Seq::empty(),
            ..self
        }.then_doing(TaskModel::FlushLegacy { delivered: false }).saving(AfterSaveModel::Nothing)
    }

    /// The readiness of the bridge.
    pub open spec fn readiness(self) -> BridgeReadinessSnapshot {
        readiness_of(self.state_healthy, self.app_server_connected, self.transport_healthy)
    }
}

/// The pause after a failed attempt to connect: twice as long, up to a limit.
pub open spec fn next_delay(delay_ms: u64) -> u64 {
    if delay_ms * 2 <= LONGEST_RECONNECT_DELAY_MS {
        (delay_ms * 2) as u64
    } else {
        LONGEST_RECONNECT_DELAY_MS
    }
}

/// The pause after a failed attempt to connect.
pub fn longer_delay(delay_ms: u64) -> (next: u64)
    ensures
        next == next_delay(delay_ms),
{
    match delay_ms.checked_mul(2) {
        Some(doubled) => if doubled <= LONGEST_RECONNECT_DELAY_MS {
            doubled
        } else {
            LONGEST_RECONNECT_DELAY_MS
        },
        None => LONGEST_RECONNECT_DELAY_MS,
    }
}

/// A pause with a jitter of less than a quarter of a second, by the milliseconds of
/// the clock.
pub fn reconnect_delay_with_jitter(base_ms: u64, subsec_millis: u32) -> (delay_ms: u64)
    ensures
        delay_ms == if base_ms + subsec_millis % 250 <= u64::MAX {
            base_ms + subsec_millis % 250
        } else {
            u64::MAX as int
        },
{
    base_ms.saturating_add((subsec_millis % 250) as u64)
}

/// How the connection to the app-server is kept up: whether it stands, and how long
/// to pause before it is tried again.
#[derive(Debug, Clone, Copy, PartialEq, Eq, Structural)]
pub struct Reconnection {
    pub connected: bool,
    pub delay_ms: u64,
}

impl Reconnection {
    /// A connection as it is at the start.
    pub fn new(connected: bool) -> (reconnection: Self)
        ensures
            reconnection == (Reconnection { connected, delay_ms: FIRST_RECONNECT_DELAY_MS }),
    {
        Reconnection { connected, delay_ms: FIRST_RECONNECT_DELAY_MS }
    }

    /// Takes note of whether the coordinator still takes the connection to stand.
    pub fn after_step(&mut self, app_server_connected: bool)
        ensures
            *final(self) == (Reconnection {
                connected: old(self).connected && app_server_connected,
                ..*old(self)
            }),
    {
        if !app_server_connected {
            self.connected = false;
        }
    }

    /// Takes the outcome of an attempt to connect: it has worked once the thread is
    /// taken up too. After a failure, the pause gets longer.
    pub fn after_attempt(&mut self, resumed: bool)
        ensures
            *final(self) == if resumed {
                Reconnection { connected: true, delay_ms: FIRST_RECONNECT_DELAY_MS }
            } else {
                Reconnection { delay_ms: next_delay(old(self).delay_ms), ..*old(self) }
            },
    {
        if resumed {
            self.connected = true;
            self.delay_ms = FIRST_RECONNECT_DELAY_MS;
        } else {
            self.delay_ms = longer_delay(self.delay_ms);
        }
    }
}

impl BridgeState {
    /// Drops what the outbox says of an outage. Returns whether there was anything.
    fn drop_outages(&mut self) -> (found: bool)
        ensures
            found == speaks_of_outage(old(self)@.legacy_outbox),
            final(self)@ == (StateModel {
                legacy_outbox: without_outages(old(self)@.legacy_outbox),
                ..old(self)@
            }),
    {
        let ghost models = outbound_models(self.legacy_outbox@);
        let mut kept: Vec<OutboundMessage> = Vec::new();
        let mut rest: Vec<OutboundMessage> = Vec::new();
        std::mem::swap(&mut rest, &mut self.legacy_outbox);
        let ghost mut done: int = 0;
        let mut found = false;
        assert(models.take(0) =~= Seq::<OutboundModel>::empty());
        assert(outbound_models(kept@) =~= Seq::<OutboundModel>::empty());
        assert(models.skip(0) =~= models);
        while rest.len() > 0
            invariant
                0 <= done <= models.len(),
                outbound_models(rest@) == models.skip(done),
                outbound_models(kept@) == without_outages(models.take(done)),
                found == speaks_of_outage(models.take(done)),
            decreases rest@.len(),
        {
            let ghost before = kept@;
            let ghost waiting = rest@;
            let message = rest.remove(0);
            let ghost model = message@;
            let ghost longer = models.take(done + 1);
            proof {
                assert(outbound_models(waiting).len() == models.skip(done).len());
                assert(outbound_models(waiting)[0] == models.skip(done)[0]);
                assert(model == models[done]);
                assert(longer.drop_last() =~= models.take(done));
                assert(longer.last() == model);
                assert(outbound_models(rest@) =~= outbound_models(waiting).skip(1));
                assert(models.skip(done).skip(1) =~= models.skip(done + 1));
            }
            if same_text(message.body.as_str(), "[codex] Codex app-server is unavailable.") {
                found = true;
                assert(longer[done].body == outage_text());
            } else {
                kept.push(message);
                proof {
                    assert(outbound_models(kept@) =~= outbound_models(before).push(model));
                    if found {
                        let i = choose|i: int|
                            0 <= i < models.take(done).len() && (#[trigger] models.take(
                                done,
                            )[i]).body == outage_text();
                        assert(longer[i] == models.take(done)[i]);
                    }
                    if speaks_of_outage(longer) {
                        let i = choose|i: int|
                            0 <= i < longer.len() && (#[trigger] longer[i]).body == outage_text();
                        assert(models.take(done)[i] == longer[i]);
                    }
                }
            }
            proof {
                done = done + 1;
            }
        }
        proof {
            assert(models.skip(done).len() == 0);
            assert(models.take(done) =~= models);
        }
        self.legacy_outbox = kept;
        found
    }
}

impl Coordinator {
    /// A coordinator that has not begun yet.
    pub fn new(
        settings: Settings,
        state: BridgeState,
        command_catalog: CommandCatalog,
        options: TranscriptProjectionOptions,
        app_server_connected: bool,
        transport_healthy: bool,
    ) -> (coordinator: Self)
        ensures
            coordinator@ == (CoordinatorModel {
                settings,
                state: state@,
                previous_state: None,
                accepted: None,
                command_catalog,
                projector: ProjectorModel {
                    options,
                    entries: Seq::empty(),
                    requests: Seq::empty(),
                    errors: Seq::empty(),
                    next_revision: 0,
                },
                shown_statuses: none_shown(),
                file_change_paths: Seq::empty(),
                pending_requests: Seq::empty(),
                pending_approvals: Seq::empty(),
                state_healthy: true,
                app_server_connected,
                transport_healthy,
                stream_degraded: false,
                resume_failures: 0,
                effects: Seq::empty(),
                tasks: Seq::empty(),
                wait: None,
            }),
            state.wf() ==> is_sound(coordinator@),
    {
        let coordinator = Coordinator {
            settings,
            state,
            previous_state: None,
            accepted: None,
            command_catalog,
            projector: TranscriptProjector::new(options),
            shown_statuses: ShownStatuses { working: false, reasoning: false, tooling: false },
            file_change_paths: Vec::new(),
            pending_requests: Vec::new(),
            pending_approvals: Vec::new(),
            state_healthy: true,
            app_server_connected,
            transport_healthy,
            stream_degraded: false,
            resume_failures: 0,
            effects: Vec::new(),
            tasks: Vec::new(),
            wait: None,
        };
        proof {
            assert(path_models(coordinator.file_change_paths@) =~= Seq::empty());
            assert(request_models(coordinator.pending_requests@) =~= Seq::empty());
            assert(approval_models(coordinator.pending_approvals@) =~= Seq::empty());
            assert(effect_models(coordinator.effects@) =~= Seq::empty());
            assert(task_models(coordinator.tasks@) =~= Seq::empty());
        }
        coordinator
    }

    /// Begins.
    pub fn start(&mut self)
        requires
            old(self).wait is None,
        ensures
            final(self)@ == old(self)@.starting(),
    {
        if self.app_server_connected {
            self.push_task(Task::Resume { reconnect: true });
        }
        self.push_task(Task::FlushLegacy { delivered: false });
        let ghost before = self@;
        if self.state.drop_outages() {
            self.state.notify_first();
            self.save_then(AfterSave::Nothing);
        } else {
            proof {
                lemma_without_outages(before.state.legacy_outbox);
            }
        }
    }

    /// Takes note that the connection to the app-server was lost.
    pub fn mark_disconnected(&mut self)
        ensures
            final(self)@ == old(self)@.disconnected(),
    {
        self.app_server_connected = false;
        self.pending_requests = Vec::new();
        self.pending_approvals = Vec::new();
        self.stream_degraded = true;
        assert(request_models(self.pending_requests@) =~= Seq::empty());
        assert(approval_models(self.pending_approvals@) =~= Seq::empty());
        self.tell(
            "[codex] Codex app-server disconnected; queued prompts will resume after reconnection.",
        );
    }

    /// Takes note that the connection to the app-server was made. It counts once
    /// the thread is taken up.
    pub fn on_reconnected(&mut self)
        requires
            old(self).wait is None,
        ensures
            final(self)@ == old(self)@.resuming(true),
    {
        self.resume(true);
    }

    /// Takes an event of the app-server; `token` is for questions.
    pub fn take_event(&mut self, event: AppServerEvent, token: String, now: u64)
        requires
            old(self).wait is None,
            event matches AppServerEvent::ServerNotification(notification) ==> old(
                self,
            ).projector.next_revision + revisions_used(notification) <= u64::MAX && indexable(
                notification,
            ),
        ensures
            final(self)@ == old(self)@.evented(event, token@, now),
    {
        match event {
            AppServerEvent::Disconnected => {
                self.mark_disconnected();
                return;
            },
            _ => {},
        }
        self.push_task(Task::GoOn);
        match event {
            AppServerEvent::ServerNotification(notification) => self.handle_notification(
                &notification,
            ),
            AppServerEvent::ServerRequest(request) => self.take_request(request, token, now),
            AppServerEvent::Lagged { .. } => {
                self.stream_degraded = true;
                self.resume(false);
            },
            AppServerEvent::Disconnected => {},
        }
    }

    /// Takes an event of the app-server. Questions are put under a random token.
    pub fn handle_event(&mut self, event: AppServerEvent, now: u64)
        requires
            old(self).wait is None,
            event matches AppServerEvent::ServerNotification(notification) ==> old(
                self,
            ).projector.next_revision + revisions_used(notification) <= u64::MAX && indexable(
                notification,
            ),
        ensures
            exists|token: Seq<char>|
                token.len() == 8 && is_lower_hex(token) && final(self)@ == #[trigger] old(
                    self,
                )@.evented(event, token, now),
    {
        let token = fresh_token();
        self.take_event(event, token, now);
    }

    /// Notes that a message of the bridge was sent.
    fn note_outbound(&mut self, message_id: String, now: u64)
        ensures
            final(self)@ == old(self)@.with_state(
                with_outbound(old(self)@.state, old(self)@.settings, message_id@, now),
            ),
    {
        self.state.mark_outbound(message_id, now);
        self.state.prune(now, self.settings.dedupe_ttl_hours, self.settings.dedupe_capacity);
    }

    /// Takes the outcome of sending a message of the outbox: the identity that it
    /// was sent under, or none.
    pub fn on_legacy_sent(&mut self, sent: Option<String>, now: u64)
        requires
            old(self).wait matches Some(Wait::SendingLegacy { .. }),
        ensures
            final(self)@ == old(self)@.legacy_settled(
                old(self)@.wait->0->SendingLegacy_delivered,
                match sent {
                    Some(message_id) => Some(message_id@),
                    None => None,
                },
                now,
            ),
    {
        let delivered = match self.wait {
            Some(Wait::SendingLegacy { delivered }) => delivered,
            _ => {
                return;
            },
        };
        self.wait = None;
        if self.state.legacy_outbox.len() == 0 {
            return;
        }
        let ghost models = outbound_models(self.state.legacy_outbox@);
        let mut message = self.state.legacy_outbox.remove(0);
        assert(outbound_models(self.state.legacy_outbox@) =~= models.remove(0));
        assert(models[0] == message@);
        match sent {
            Some(message_id) => {
                self.note_outbound(message_id, now);
                self.transport_healthy = true;
                self.save_then(AfterSave::LegacySettled { sent: true });
            },
            None => {
                message.attempts = message.attempts.saturating_add(1);
                let ghost model = message@;
                self.state.legacy_outbox.insert(0, message);
                assert(outbound_models(self.state.legacy_outbox@) =~= models.update(0, model));
                self.transport_healthy = delivered;
                self.save_then(AfterSave::LegacySettled { sent: false });
            },
        }
    }

    /// Takes a report of the delivery worker.
    pub fn on_delivery_event(&mut self, event: DeliveryWorkerEvent, now: u64)
        requires
            old(self).wait is None,
        ensures
            final(self)@ == old(self)@.delivery_reported(event, now),
    {
        match event {
            DeliveryWorkerEvent::Enqueued { .. } => {},
            DeliveryWorkerEvent::Sent { provider_message_id, .. } => {
                let message_id = provider_message_id.as_str().to_owned();
                self.note_outbound(message_id, now);
                self.transport_healthy = true;
                self.save_then(AfterSave::Nothing);
            },
            DeliveryWorkerEvent::Edited { .. } => {
                self.transport_healthy = true;
            },
            DeliveryWorkerEvent::Failed { .. } => {
                self.transport_healthy = false;
            },
            DeliveryWorkerEvent::StoreFailed => {
                self.state_healthy = false;
            },
        }
    }

    /// Takes the state of the transport; none where it could not be had.
    pub fn check_transport(&mut self, status: Option<TransportStatus>)
        requires
            old(self).wait is None,
        ensures
            final(self)@ == old(self)@.transport_checked(status),
    {
        let healthy = match &status {
            Some(status) => status.is_ready() && status.belongs_to(
                self.settings.configured_phone.as_str(),
            ),
            None => false,
        };
        self.transport_healthy = healthy;
        if healthy && self.state.legacy_outbox.len() > 0 {
            self.push_task(Task::FlushLegacy { delivered: false });
        }
    }

    /// Does what is due after some time.
    pub fn tick(&mut self, now: u64)
        requires
            old(self).wait is None,
        ensures
            final(self)@ == old(self)@.ticked(now),
    {
        if self.app_server_connected {
            self.expire_pending_requests(now);
        }
        if self.app_server_connected && self.has_uncertain_turn_start() {
            self.push_task(Task::AdvanceQueue);
        }
        if self.state.legacy_outbox.len() > 0 {
            self.push_task(Task::FlushLegacy { delivered: false });
        }
        if !self.state_healthy {
            self.push_task(Task::Recover);
        }
    }

    /// Ends.
    pub fn shut_down(&mut self)
        requires
            old(self).wait is None,
        ensures
            final(self)@ == old(self)@.shutting_down(),
    {
        let ghost requests = self@.pending_requests;
        let ghost approvals = self@.pending_approvals;
        let ghost none = Seq::<PendingApprovalModel>::empty();
        let total: usize = self.pending_requests.len();
        let count: usize = self.pending_approvals.len();
        let mut index: usize = 0;
        assert(self@.effects =~= self@.effects + refusals(requests.take(0), none));
        while index < total
            invariant
                index <= total == requests.len(),
                requests == old(self)@.pending_requests,
                none == Seq::<PendingApprovalModel>::empty(),
                self@ == (CoordinatorModel {
                    effects: old(self)@.effects + refusals(requests.take(index as int), none),
                    ..old(self)@
                }),
            decreases total - index,
        {
            assert(request_models(self.pending_requests@).len() == total);
            assert(requests[index as int] == self.pending_requests@[index as int]@);
            let request_id = self.pending_requests[index].request_id.clone();
            self.push_effect(Effect::Reject(request_id));
            assert(self@.effects =~= old(self)@.effects + refusals(
                requests.take(index + 1),
                none,
            ));
            index += 1;
        }
        assert(requests.take(index as int) =~= requests);
        let mut place: usize = 0;
        assert(approvals.take(0) =~= none);
        while place < count
            invariant
                place <= count == approvals.len(),
                requests == old(self)@.pending_requests,
                approvals == old(self)@.pending_approvals,
                self@ == (CoordinatorModel {
                    effects: old(self)@.effects + refusals(
                        requests,
                        approvals.take(place as int),
                    ),
                    ..old(self)@
                }),
            decreases count - place,
        {
            assert(approval_models(self.pending_approvals@).len() == count);
            assert(approvals[place as int] == self.pending_approvals@[place as int]@);
            let request_id = self.pending_approvals[place].request_id.clone();
            self.push_effect(Effect::Reject(request_id));
            assert(self@.effects =~= old(self)@.effects + refusals(
                requests,
                approvals.take(place + 1),
            ));
            place += 1;
        }
        assert(approvals.take(place as int) =~= approvals);
        self.pending_requests = Vec::new();
        self.pending_approvals = Vec::new();
        assert(request_models(self.pending_requests@) =~= Seq::empty());
        assert(approval_models(self.pending_approvals@) =~= Seq::empty());
        self.push_task(Task::FlushLegacy { delivered: false });
        self.save_then(AfterSave::Nothing);
    }

    /// The readiness of the bridge.
    pub fn readiness(&self) -> (snapshot: BridgeReadinessSnapshot)
        ensures
            snapshot == self@.readiness(),
    {
        BridgeReadinessSnapshot::of(
            self.state_healthy,
            self.app_server_connected,
            self.transport_healthy,
        )
    }
}

/// An outbox that says nothing of an outage loses nothing.
proof fn lemma_without_outages(outbox: Seq<OutboundModel>)
    requires
        !speaks_of_outage(outbox),
    ensures
        without_outages(outbox) == outbox,
    decreases outbox.len(),
{
    if outbox.len() > 0 {
        let earlier = outbox.drop_last();
        if speaks_of_outage(earlier) {
            let i = choose|i: int|
                0 <= i < earlier.len() && (#[trigger] earlier[i]).body == outage_text();
            assert(outbox[i] == earlier[i]);
        }
        lemma_without_outages(earlier);
        assert(outbox[outbox.len() - 1] == outbox.last());
        assert(without_outages(outbox) =~= outbox);
    } else {
        assert(without_outages(outbox) =~= outbox);
    }
}

} // verus!
