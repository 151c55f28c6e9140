//! The coordinator, with an app-server, a transport and a disk that are played.

use codex_whatsapp_bridge::approval::ApprovalDecision;
use codex_whatsapp_bridge::approval::CommandExecutionApprovalDecision;
use codex_whatsapp_bridge::approval::CommandExecutionRequestApprovalParams;
use codex_whatsapp_bridge::approval::FileChangeRequestApprovalParams;
use codex_whatsapp_bridge::approval::PermissionProfile;
use codex_whatsapp_bridge::approval::PermissionsRequestApprovalParams;
use codex_whatsapp_bridge::attachment::InboundAttachment;
use codex_whatsapp_bridge::codex::CodexError;
use codex_whatsapp_bridge::codex::ThreadSummary;
use codex_whatsapp_bridge::command_catalog::CommandCatalog;
use codex_whatsapp_bridge::command_catalog::CommandCatalogError;
use codex_whatsapp_bridge::command_catalog::CommandEntry;
use codex_whatsapp_bridge::command_catalog::CommandGroup;
use codex_whatsapp_bridge::coordinator::files::StoredFile;
use codex_whatsapp_bridge::coordinator::lifecycle::reconnect_delay_with_jitter;
use codex_whatsapp_bridge::coordinator::lifecycle::Reconnection;
use codex_whatsapp_bridge::coordinator::model::RequestResponse;
use codex_whatsapp_bridge::coordinator::notices::delivery_intent;
use codex_whatsapp_bridge::coordinator::Action;
use codex_whatsapp_bridge::coordinator::Coordinator;
use codex_whatsapp_bridge::coordinator::Effect;
use codex_whatsapp_bridge::coordinator::Settings;
use codex_whatsapp_bridge::health::BridgeReadiness;
use codex_whatsapp_bridge::health::BridgeReadinessSnapshot;
use codex_whatsapp_bridge::messaging::DeliveryAction;
use codex_whatsapp_bridge::messaging::DeliveryJournal;
use codex_whatsapp_bridge::messaging::DeliveryWorker;
use codex_whatsapp_bridge::messaging::DeliveryWorkerEvent;
use codex_whatsapp_bridge::messaging::ProviderCapabilities;
use codex_whatsapp_bridge::messaging::ProviderMessageId;
use codex_whatsapp_bridge::notifications::AppServerEvent;
use codex_whatsapp_bridge::notifications::ServerRequest;
use codex_whatsapp_bridge::protocol::AgentMessageDeltaNotification;
use codex_whatsapp_bridge::protocol::ErrorNotification;
use codex_whatsapp_bridge::protocol::FileUpdateChange;
use codex_whatsapp_bridge::protocol::ItemCompletedNotification;
use codex_whatsapp_bridge::protocol::ItemStartedNotification;
use codex_whatsapp_bridge::protocol::PatchApplyStatus;
use codex_whatsapp_bridge::protocol::ReasoningTextDeltaNotification;
use codex_whatsapp_bridge::protocol::RequestId;
use codex_whatsapp_bridge::protocol::ServerNotification;
use codex_whatsapp_bridge::protocol::ServerRequestResolvedNotification;
use codex_whatsapp_bridge::protocol::ThreadItem;
use codex_whatsapp_bridge::protocol::ToolRequestUserInputParams;
use codex_whatsapp_bridge::protocol::ToolRequestUserInputQuestion;
use codex_whatsapp_bridge::protocol::Turn;
use codex_whatsapp_bridge::protocol::TurnCompletedNotification;
use codex_whatsapp_bridge::protocol::TurnError;
use codex_whatsapp_bridge::protocol::TurnStatus;
use codex_whatsapp_bridge::protocol::UserInput;
use codex_whatsapp_bridge::state::ActiveTurn;
use codex_whatsapp_bridge::state::BridgeState;
use codex_whatsapp_bridge::state::OutboundMessage;
use codex_whatsapp_bridge::state::QueuedPrompt;
use codex_whatsapp_bridge::state::ThreadBinding;
use codex_whatsapp_bridge::transcript::EntryOrigin;
use codex_whatsapp_bridge::transcript::ProjectionEvent;
use codex_whatsapp_bridge::transcript::TranscriptEntry;
use codex_whatsapp_bridge::transcript::TranscriptKey;
use codex_whatsapp_bridge::transcript::TranscriptProjectionOptions;
use codex_whatsapp_bridge::transport::TransportStatus;
use codex_whatsapp_bridge::transport_webhook::InboundMessage;

const CHAT: &str = "447700900000@c.us";

/// Everything around a coordinator, and what it was asked for.
struct Surroundings {
    turns: Vec<(String, String, String)>,
    steers: Vec<(String, String, String, String)>,
    resolves: Vec<(RequestId, RequestResponse)>,
    interrupts: Vec<(String, String)>,
    rejected: Vec<RequestId>,
    removed: Vec<String>,
    accepted: Vec<bool>,
    sent: Vec<String>,
    start_thread_fails: bool,
    start_turn_fails: bool,
    save_fails: bool,
    steer_outcome: Option<CodexError>,
    threads: Vec<ThreadSummary>,
    thread_turns: Option<Vec<Turn>>,
    catalog: Result<CommandCatalog, CommandCatalogError>,
    saved: BridgeState,
    delivery: DeliveryWorker,
}

impl Surroundings {
    fn new() -> Self {
        Surroundings {
            turns: Vec::new(),
            steers: Vec::new(),
            resolves: Vec::new(),
            interrupts: Vec::new(),
            rejected: Vec::new(),
            removed: Vec::new(),
            accepted: Vec::new(),
            sent: Vec::new(),
            start_thread_fails: false,
            start_turn_fails: false,
            save_fails: false,
            steer_outcome: None,
            threads: Vec::new(),
            thread_turns: None,
            catalog: Ok(CommandCatalog::default_catalog()),
            saved: BridgeState::empty(),
            delivery: DeliveryWorker::new(
                DeliveryJournal::default(),
                ProviderCapabilities {
                    message_limit: 4_096,
                    edit_support: true,
                    attachment_support: true,
                    supports_markdown: false,
                    rich_interaction_support: false,
                },
                1,
            ),
        }
    }

    fn prompt(inputs: Vec<UserInput>) -> String {
        inputs
            .into_iter()
            .find_map(|input| match input {
                UserInput::Text { text, .. } => Some(text),
                _ => None,
            })
            .unwrap_or_default()
    }

    /// Delivers what the worker wants delivered.
    fn deliver(&mut self, coordinator: &mut Coordinator) {
        for _ in 0..200 {
            match self.delivery.next_action(0) {
                DeliveryAction::Rest => return,
                DeliveryAction::Save => {
                    if let Some(event) = self.delivery.on_saved(true) {
                        let was_sent = matches!(event, DeliveryWorkerEvent::Sent { .. });
                        coordinator.on_delivery_event(event, 1);
                        if was_sent {
                            coordinator.on_saved(!self.save_fails);
                        }
                    }
                }
                DeliveryAction::Send { text, .. } => {
                    self.sent.push(text);
                    let id = format!("wa-{}", self.sent.len());
                    self.delivery.on_sent(Ok(ProviderMessageId::new(&id)), 0);
                }
                DeliveryAction::Edit { text, .. } => {
                    self.sent.push(format!("edit: {text}"));
                    self.delivery.on_edited(Ok(()), 0);
                }
                DeliveryAction::Acknowledge { .. } => self.delivery.on_acknowledged(true),
            }
        }
        panic!("the delivery worker does not come to rest");
    }

    /// Does what the coordinator wants, until it rests.
    fn settle(&mut self, coordinator: &mut Coordinator) {
        for _ in 0..200 {
            for effect in coordinator.take_effects() {
                if let Some(intent) = delivery_intent(&effect, CHAT) {
                    self.delivery.apply(intent);
                }
                match effect {
                    Effect::Reject(request_id) => self.rejected.push(request_id),
                    Effect::RemoveAttachment(path) => self.removed.push(path),
                    Effect::Accepted(kept) => self.accepted.push(kept),
                    _ => {
                        if coordinator.wait.is_none() {
                            self.deliver(coordinator);
                        } else {
                            self.deliver_aside();
                        }
                    }
                }
            }
            assert!(coordinator.has_room());
            match coordinator.action() {
                Action::Rest => {
                    assert!(coordinator.wait.is_none() && coordinator.tasks.is_empty());
                    return;
                }
                Action::Proceed => coordinator.advance(),
                Action::Save => {
                    if !self.save_fails {
                        self.saved = coordinator.state.clone();
                    }
                    coordinator.on_saved(!self.save_fails);
                }
                Action::StartThread => coordinator.on_thread_started(if self.start_thread_fails {
                    Err(CodexError::Transport("test failure".to_string()))
                } else {
                    Ok("thread-1".to_string())
                }),
                Action::ResumeThread { .. } => {
                    let outcome = match &self.thread_turns {
                        Some(turns) => Ok(turns.clone()),
                        None => Err(CodexError::Transport("test failure".to_string())),
                    };
                    coordinator.on_thread_resumed(outcome);
                }
                Action::ListThreads => coordinator.on_threads_listed(Ok(self.threads.clone())),
                Action::StartTurn {
                    thread_id,
                    message_id,
                    inputs,
                } => {
                    self.turns
                        .push((thread_id, message_id, Self::prompt(inputs)));
                    coordinator.on_turn_started(if self.start_turn_fails {
                        Err(CodexError::Transport("test failure".to_string()))
                    } else {
                        Ok("turn-1".to_string())
                    });
                }
                Action::SteerTurn {
                    thread_id,
                    turn_id,
                    message_id,
                    inputs,
                } => {
                    self.steers
                        .push((thread_id, turn_id, message_id, Self::prompt(inputs)));
                    coordinator.on_steered(match self.steer_outcome.take() {
                        Some(error) => Err(error),
                        None => Ok(()),
                    });
                }
                Action::InterruptTurn { thread_id, turn_id } => {
                    self.interrupts.push((thread_id, turn_id));
                    coordinator.on_interrupted(Ok(()));
                }
                Action::Resolve {
                    request_id,
                    response,
                } => {
                    self.resolves.push((request_id, response));
                    coordinator.on_resolved(Ok(()));
                }
                Action::LoadCatalog => coordinator.on_catalog_loaded(self.catalog.clone()),
                Action::SendLegacy { body, .. } => {
                    self.sent.push(body);
                    coordinator.on_legacy_sent(Some("legacy-1".to_string()), 1);
                }
            }
        }
        panic!("the coordinator does not come to rest");
    }

    /// Delivers while the coordinator waits for something else.
    fn deliver_aside(&mut self) {
        for _ in 0..200 {
            match self.delivery.next_action(0) {
                DeliveryAction::Rest => return,
                DeliveryAction::Save => {
                    self.delivery.on_saved(true);
                }
                DeliveryAction::Send { text, .. } => {
                    self.sent.push(text);
                    let id = format!("wa-{}", self.sent.len());
                    self.delivery.on_sent(Ok(ProviderMessageId::new(&id)), 0);
                }
                DeliveryAction::Edit { text, .. } => {
                    self.sent.push(format!("edit: {text}"));
                    self.delivery.on_edited(Ok(()), 0);
                }
                DeliveryAction::Acknowledge { .. } => self.delivery.on_acknowledged(true),
            }
        }
    }

    fn receive(&mut self, coordinator: &mut Coordinator, key: &str, id: &str, body: &str) {
        coordinator.accept_inbound(message(key, id, body), 10);
        self.settle(coordinator);
    }

    fn notify(&mut self, coordinator: &mut Coordinator, notification: ServerNotification) {
        coordinator.handle_event(AppServerEvent::ServerNotification(notification), 10);
        self.settle(coordinator);
    }

    fn request(&mut self, coordinator: &mut Coordinator, request: ServerRequest) {
        coordinator.handle_event(AppServerEvent::ServerRequest(request), 10);
        self.settle(coordinator);
    }
}

fn settings() -> Settings {
    Settings {
        configured_phone: "447700900000".to_string(),
        self_chat_id: CHAT.to_string(),
        output_chunk_chars: 3_500,
        max_queued_prompts: 20,
        dedupe_capacity: 100,
        dedupe_ttl_hours: 24,
        include_approval_notices: true,
        command_catalog_path: "/home/codex/whatsapp/commands.json".to_string(),
    }
}

fn coordinator_with(state: BridgeState, settings: Settings) -> Coordinator {
    Coordinator::new(
        settings,
        state,
        CommandCatalog::default_catalog(),
        TranscriptProjectionOptions {
            include_reasoning: false,
            include_tool_calls: false,
            include_automatic_approval_reviews: false,
        },
        true,
        true,
    )
}

fn coordinator(state: BridgeState) -> Coordinator {
    coordinator_with(state, settings())
}

fn busy_state() -> BridgeState {
    let mut state = BridgeState::empty();
    state.binding = Some(ThreadBinding {
        self_chat_id: CHAT.to_string(),
        codex_thread_id: "thread-1".to_string(),
    });
    state.active_turn = Some(ActiveTurn {
        inbound_message_id: "message-1".to_string(),
        thread_id: "thread-1".to_string(),
        codex_turn_id: "turn-1".to_string(),
        legacy_working_output_message_id: None,
        attachment_paths: Vec::new(),
    });
    state
}

fn message(key: &str, id: &str, body: &str) -> InboundMessage {
    InboundMessage {
        idempotency_key: key.to_string(),
        message_id: id.to_string(),
        chat_id: CHAT.to_string(),
        body: body.to_string(),
        attachment: None,
    }
}

fn agent_message(id: &str, text: &str) -> ThreadItem {
    ThreadItem::AgentMessage {
        id: id.to_string(),
        text: text.to_string(),
        phase: None,
        memory_citation: None,
    }
}

fn finished(turn_id: &str, items: Vec<ThreadItem>) -> ServerNotification {
    ServerNotification::TurnCompleted(TurnCompletedNotification {
        thread_id: "thread-1".to_string(),
        turn: Turn {
            id: turn_id.to_string(),
            items,
            status: TurnStatus::Completed,
            error: None,
        },
    })
}

fn question(id: &str, text: &str) -> ToolRequestUserInputQuestion {
    ToolRequestUserInputQuestion {
        id: id.to_string(),
        header: id.to_string(),
        question: text.to_string(),
        is_other: false,
        is_secret: false,
        options: None,
    }
}

fn questions(request: &str, list: Vec<ToolRequestUserInputQuestion>) -> ServerRequest {
    ServerRequest::ToolRequestUserInput {
        request_id: RequestId::String(request.to_string()),
        params: ToolRequestUserInputParams {
            thread_id: "thread-1".to_string(),
            turn_id: "turn-1".to_string(),
            item_id: "item-1".to_string(),
            questions: list,
            auto_resolution_ms: None,
        },
    }
}

fn command_approval(request: &str) -> ServerRequest {
    ServerRequest::CommandExecutionRequestApproval {
        request_id: RequestId::String(request.to_string()),
        params: CommandExecutionRequestApprovalParams {
            thread_id: "thread-1".to_string(),
            turn_id: "turn-1".to_string(),
            item_id: "item-1".to_string(),
            environment_id: None,
            reason: None,
            command: Some("ls".to_string()),
            network_approval_context: None,
            additional_permissions: None,
            proposed_execpolicy_amendment: None,
            proposed_network_policy_amendments: None,
            available_decisions: None,
        },
    }
}

#[test]
fn audio_attachment_is_rejected_with_session_message() {
    let mut around = Surroundings::new();
    let mut coordinator = coordinator(BridgeState::empty());
    coordinator.accept_inbound(
        InboundMessage {
            idempotency_key: "event-audio".to_string(),
            message_id: "message-audio".to_string(),
            chat_id: CHAT.to_string(),
            body: String::new(),
            attachment: Some(InboundAttachment::Unsupported {
                kind: "audio attachment".to_string(),
            }),
        },
        10,
    );
    around.settle(&mut coordinator);

    assert!(around.turns.is_empty());
    assert_eq!(
        around.sent,
        vec!["[codex] Audio attachments are unsupported in this session".to_string()]
    );
}

#[test]
fn lagged_app_server_events_do_not_emit_recovery_narration() {
    let mut around = Surroundings::new();
    let mut coordinator = coordinator(BridgeState::empty());
    coordinator.handle_event(AppServerEvent::Lagged { skipped: 4 }, 10);
    around.settle(&mut coordinator);

    assert!(around.sent.is_empty());
}

#[test]
fn user_input_questions_are_collected_in_order() {
    let mut around = Surroundings::new();
    let mut coordinator = coordinator(busy_state());
    around.request(
        &mut coordinator,
        questions(
            "request-1",
            vec![
                question("first", "First answer?"),
                question("second", "Second answer?"),
            ],
        ),
    );
    assert_eq!(around.sent.len(), 1);
    let first = around.sent[0].clone();
    let token = first
        .split_once('(')
        .and_then(|(_, value)| value.split_once(')'))
        .map(|(token, _)| token)
        .unwrap()
        .to_string();
    coordinator.answer_request(&token, "one".to_string());
    around.settle(&mut coordinator);
    assert_eq!(around.sent.len(), 2);
    assert!(around.sent[1].contains("Question 2/2"));
    coordinator.answer_request(&token, "two".to_string());
    around.settle(&mut coordinator);
    assert_eq!(around.sent.len(), 3);
    assert_eq!(around.resolves.len(), 1);
    let RequestResponse::Answers(answers) = &around.resolves[0].1 else {
        panic!("expected answers");
    };
    assert_eq!(answers[0].question_id, "first");
    assert_eq!(answers[0].answer, "one");
    assert_eq!(answers[1].question_id, "second");
    assert_eq!(answers[1].answer, "two");
    assert!(coordinator.pending_requests.is_empty());
}

#[test]
fn projected_codex_text_is_delivered_without_bridge_prefix() {
    let mut around = Surroundings::new();
    let mut coordinator = coordinator(BridgeState::empty());
    coordinator.enqueue_projection(&vec![ProjectionEvent::Entry(Box::new(TranscriptEntry {
        key: TranscriptKey::new("thread-1", "turn-1", "item-1"),
        item: agent_message("item-1", "plain Codex output"),
        origin: EntryOrigin::CodexTranscript,
        revision: 1,
        committed: true,
    }))]);
    around.settle(&mut coordinator);

    assert_eq!(around.sent, vec!["plain Codex output".to_string()]);
}

#[test]
fn durable_deduplication_starts_one_turn_for_a_replayed_webhook() {
    let mut around = Surroundings::new();
    let mut coordinator = coordinator(BridgeState::empty());
    coordinator.start();
    around.settle(&mut coordinator);
    for _ in 0..2 {
        around.receive(
            &mut coordinator,
            "event-1",
            "message-1",
            "inspect the current project",
        );
        let _ = coordinator.status_message();
    }
    assert_eq!(around.accepted, vec![true, true]);

    coordinator.shut_down();
    around.settle(&mut coordinator);
    let mut readiness = BridgeReadiness::new(coordinator.readiness());
    readiness.mark_stopped();
    assert_eq!(
        readiness.snapshot(),
        BridgeReadinessSnapshot {
            ready: false,
            state_healthy: true,
            app_server_connected: false,
            transport_healthy: true,
        }
    );
    assert_eq!(around.turns.len(), 1);
    assert!(around.saved.was_processed("event-1"));
    assert_eq!(
        around
            .saved
            .active_turn
            .as_ref()
            .map(|turn| turn.codex_turn_id.as_str()),
        Some("turn-1")
    );
}

#[test]
fn message_during_active_turn_uses_steer_without_queueing_a_second_turn() {
    let mut around = Surroundings::new();
    let mut coordinator = coordinator(busy_state());
    around.receive(
        &mut coordinator,
        "event-steer",
        "message-steer",
        "keep checking",
    );
    assert_eq!(around.accepted, vec![true]);
    coordinator.shut_down();
    around.settle(&mut coordinator);

    assert_eq!(
        around.steers,
        vec![(
            "thread-1".to_string(),
            "turn-1".to_string(),
            "message-steer".to_string(),
            "keep checking".to_string(),
        )]
    );
    assert!(around.saved.pending_steers.is_empty());
    assert!(around.saved.queued_prompts.is_empty());
}

#[test]
fn help_reloads_the_user_command_catalog() {
    let mut around = Surroundings::new();
    around.catalog = Ok(CommandCatalog {
        schema_version: 1,
        response_prefix: "[remote]".to_string(),
        help_heading: "My commands".to_string(),
        help_footer: "Configured on disk.".to_string(),
        groups: vec![CommandGroup {
            heading: "Session".to_string(),
            commands: vec![CommandEntry {
                usage: "/status".to_string(),
                description: "show status".to_string(),
            }],
        }],
    });
    let mut coordinator = coordinator(BridgeState::empty());
    around.receive(&mut coordinator, "event-help", "message-help", "/help");
    assert_eq!(around.accepted, vec![true]);

    assert_eq!(
        around.sent,
        vec![
            "[remote] My commands\n\nSession\n• `/status` — show status\n\nConfigured on disk."
                .to_string()
        ]
    );
}

#[test]
fn app_server_retries_notify_once_for_a_queued_prompt() {
    let mut around = Surroundings::new();
    around.start_thread_fails = true;
    let mut coordinator = coordinator(BridgeState::empty());
    coordinator.start();
    around.settle(&mut coordinator);
    around.receive(
        &mut coordinator,
        "event-1",
        "message-1",
        "inspect the current project",
    );
    assert_eq!(around.accepted, vec![true]);
    for _ in 0..30 {
        coordinator.on_reconnected();
        around.settle(&mut coordinator);
        assert!(!coordinator.app_server_connected);
    }
    coordinator.shut_down();
    around.settle(&mut coordinator);

    assert_eq!(
        around
            .sent
            .iter()
            .filter(|message| message.contains("app-server is unavailable"))
            .count(),
        1
    );
    assert!(around.saved.queued_prompts[0].failure_notified);
}

#[test]
fn messages_of_the_bridge_are_ignored() {
    let mut around = Surroundings::new();
    let mut coordinator = coordinator(BridgeState::empty());
    around.receive(&mut coordinator, "event-1", "message-1", "/status");
    assert_eq!(around.sent.len(), 1);
    coordinator.on_delivery_event(
        DeliveryWorkerEvent::Sent {
            key: TranscriptKey::new("", "", ""),
            segment: 0,
            provider_message_id: ProviderMessageId::new("wa-echo"),
        },
        11,
    );
    around.settle(&mut coordinator);
    around.receive(&mut coordinator, "event-2", "wa-echo", "start something");
    assert_eq!(around.accepted, vec![true, true]);
    assert!(around.turns.is_empty());
}

#[test]
fn a_message_that_cannot_be_saved_is_refused() {
    let mut around = Surroundings::new();
    around.save_fails = true;
    let mut coordinator = coordinator(BridgeState::empty());
    around.receive(&mut coordinator, "event-1", "message-1", "hello");
    assert_eq!(around.accepted, vec![false]);
    assert!(coordinator.state.queued_prompts.is_empty());
    assert!(!coordinator.readiness().ready);
    around.receive(&mut coordinator, "event-1", "message-1", "hello");
    assert_eq!(around.accepted, vec![false, false]);
    assert!(around.sent.is_empty());

    around.save_fails = false;
    coordinator.tick(20);
    around.settle(&mut coordinator);
    assert!(coordinator.readiness().ready);
    around.receive(&mut coordinator, "event-1", "message-1", "hello");
    assert_eq!(around.accepted, vec![false, false, true]);
    assert_eq!(around.turns.len(), 1);
}

#[test]
fn statuses_are_shown_once_per_turn() {
    let mut around = Surroundings::new();
    let mut coordinator = coordinator(BridgeState::empty());
    around.receive(&mut coordinator, "event-1", "message-1", "hello");
    let reasoning = || {
        ServerNotification::ReasoningTextDelta(ReasoningTextDeltaNotification {
            thread_id: "thread-1".to_string(),
            turn_id: "turn-1".to_string(),
            item_id: "r".to_string(),
            delta: "hmm".to_string(),
            content_index: 0,
        })
    };
    let tool = |id: &str| {
        ServerNotification::ItemCompleted(ItemCompletedNotification {
            thread_id: "thread-1".to_string(),
            turn_id: "turn-1".to_string(),
            completed_at_ms: 1,
            item: ThreadItem::ToolCall {
                id: id.to_string(),
                tool: "search".to_string(),
                details: String::new(),
            },
        })
    };
    around.notify(&mut coordinator, reasoning());
    around.notify(&mut coordinator, reasoning());
    around.notify(&mut coordinator, tool("a"));
    around.notify(&mut coordinator, tool("b"));
    assert_eq!(
        around.sent,
        vec![
            "[codex working...]",
            "[codex reasoning...]",
            "[codex tooling]"
        ]
    );
}

#[test]
fn a_turn_is_delivered_and_the_next_prompt_follows() {
    let mut around = Surroundings::new();
    let mut state = busy_state();
    state.active_turn.as_mut().unwrap().attachment_paths = vec!["/tmp/file".to_string()];
    let mut coordinator = coordinator(state);
    around.steer_outcome = Some(CodexError::Server {
        message: "not now".to_string(),
        not_steerable: true,
    });
    around.receive(&mut coordinator, "event-2", "message-2", "and then this");
    assert_eq!(
        around.sent,
        vec!["[codex] This turn cannot be steered; your message was queued for the next turn."]
    );
    around.notify(
        &mut coordinator,
        ServerNotification::AgentMessageDelta(AgentMessageDeltaNotification {
            thread_id: "thread-1".to_string(),
            turn_id: "turn-1".to_string(),
            item_id: "answer".to_string(),
            delta: "done".to_string(),
        }),
    );
    around.notify(
        &mut coordinator,
        finished("turn-1", vec![agent_message("answer", "done")]),
    );
    assert_eq!(around.removed, vec!["/tmp/file"]);
    assert_eq!(
        around.turns,
        vec![(
            "thread-1".to_string(),
            "message-2".to_string(),
            "and then this".to_string()
        )]
    );
    assert!(around.sent.contains(&"done".to_string()));
    assert!(!around.sent.contains(&"[codex] Turn completed.".to_string()));
}

#[test]
fn a_silent_turn_is_closed_in_words() {
    let mut around = Surroundings::new();
    let mut coordinator = coordinator(busy_state());
    around.notify(&mut coordinator, finished("turn-1", Vec::new()));
    assert_eq!(around.sent, vec!["[codex] Turn completed."]);
    around.notify(&mut coordinator, finished("turn-1", Vec::new()));
    assert_eq!(around.sent.len(), 1);
}

#[test]
fn steers_follow_the_turn_that_codex_names() {
    let mut around = Surroundings::new();
    let mut coordinator = coordinator(busy_state());
    around.steer_outcome = Some(CodexError::Server {
        message: "expected active turn id `turn-1` but found `turn-2`".to_string(),
        not_steerable: false,
    });
    around.receive(&mut coordinator, "event-2", "message-2", "go on");
    assert_eq!(around.steers.len(), 2);
    assert_eq!(around.steers[1].1, "turn-2");
    assert_eq!(
        coordinator.state.active_turn.as_ref().unwrap().codex_turn_id,
        "turn-2"
    );
    assert!(coordinator.state.pending_steers.is_empty());

    around.steer_outcome = Some(CodexError::Server {
        message: "no active turn to steer".to_string(),
        not_steerable: false,
    });
    around.receive(&mut coordinator, "event-3", "message-3", "and on");
    assert_eq!(around.turns.len(), 1);
    assert_eq!(around.turns[0].1, "message-3");
}

#[test]
fn an_uncertain_steer_is_reconciled_after_reconnecting() {
    let mut around = Surroundings::new();
    let mut coordinator = coordinator(busy_state());
    around.steer_outcome = Some(CodexError::Transport("lost".to_string()));
    around.receive(&mut coordinator, "event-2", "message-2", "go on");
    assert!(!coordinator.app_server_connected);
    assert_eq!(coordinator.state.pending_steers.len(), 1);
    around.thread_turns = Some(vec![Turn {
        id: "turn-1".to_string(),
        items: vec![ThreadItem::UserMessage {
            id: "u".to_string(),
            client_id: Some("message-2".to_string()),
            details: String::new(),
        }],
        status: TurnStatus::InProgress,
        error: None,
    }]);
    coordinator.on_reconnected();
    around.settle(&mut coordinator);
    assert!(coordinator.app_server_connected);
    assert!(coordinator.state.pending_steers.is_empty());
    assert_eq!(around.steers.len(), 1);
}

#[test]
fn an_uncertain_prompt_is_looked_up_before_it_is_submitted_again() {
    let mut around = Surroundings::new();
    around.start_turn_fails = true;
    let mut coordinator = coordinator(BridgeState::empty());
    around.receive(&mut coordinator, "event-1", "message-1", "hello");
    assert_eq!(around.turns.len(), 1);
    assert!(coordinator.state.queued_prompts[0].submission_uncertain);
    around.start_turn_fails = false;
    around.thread_turns = Some(vec![Turn {
        id: "turn-9".to_string(),
        items: vec![ThreadItem::UserMessage {
            id: "u".to_string(),
            client_id: Some("message-1".to_string()),
            details: String::new(),
        }],
        status: TurnStatus::InProgress,
        error: None,
    }]);
    coordinator.on_reconnected();
    around.settle(&mut coordinator);
    assert_eq!(around.turns.len(), 1);
    assert!(coordinator.state.queued_prompts.is_empty());
    assert_eq!(
        coordinator.state.active_turn.as_ref().unwrap().codex_turn_id,
        "turn-9"
    );
}

#[test]
fn a_prompt_that_was_not_received_is_submitted_again() {
    let mut around = Surroundings::new();
    around.start_turn_fails = true;
    let mut coordinator = coordinator(BridgeState::empty());
    around.receive(&mut coordinator, "event-1", "message-1", "hello");
    around.start_turn_fails = false;
    around.thread_turns = Some(Vec::new());
    coordinator.on_reconnected();
    around.settle(&mut coordinator);
    assert_eq!(around.turns.len(), 2);
    assert_eq!(around.turns[1].1, "message-1");
    assert!(coordinator.state.active_turn.is_some());
}

#[test]
fn a_turn_that_ended_unseen_is_recovered() {
    let mut around = Surroundings::new();
    let mut coordinator = coordinator(busy_state());
    coordinator.handle_event(AppServerEvent::Disconnected, 10);
    around.settle(&mut coordinator);
    assert_eq!(
        around.sent,
        vec!["[codex] Codex app-server disconnected; queued prompts will resume after reconnection."]
    );
    around.thread_turns = Some(vec![Turn {
        id: "turn-1".to_string(),
        items: vec![agent_message("answer", "done meanwhile")],
        status: TurnStatus::Completed,
        error: None,
    }]);
    coordinator.on_reconnected();
    around.settle(&mut coordinator);
    assert!(coordinator.state.active_turn.is_none());
    assert!(around.sent.contains(&"done meanwhile".to_string()));
}

#[test]
fn a_thread_is_given_up_after_several_failures() {
    let mut around = Surroundings::new();
    let mut coordinator = coordinator(busy_state());
    for _ in 0..3 {
        coordinator.on_reconnected();
        around.settle(&mut coordinator);
    }
    assert_eq!(
        coordinator.state.orphaned_thread_id.as_deref(),
        Some("thread-1")
    );
    assert!(coordinator.state.binding.is_none());
    assert!(coordinator.app_server_connected);
    assert_eq!(
        around.sent,
        vec!["[codex] The previous Codex thread could not be resumed; the next prompt will create a new context."]
    );
}

#[test]
fn approvals_are_decided_by_number() {
    let mut around = Surroundings::new();
    let mut coordinator = coordinator(busy_state());
    around.request(&mut coordinator, command_approval("request-1"));
    around.request(&mut coordinator, command_approval("request-2"));
    assert_eq!(around.sent.len(), 1);
    assert!(around.sent[0].contains("\n1. Yes, proceed\n"));
    around.receive(&mut coordinator, "event-1", "message-1", "yes please");
    assert_eq!(
        around.sent[1],
        "[codex] An approval is displayed. Reply with one of its numbers, or /stop."
    );
    around.receive(&mut coordinator, "event-2", "message-2", "99");
    assert!(around.sent[2].starts_with("[codex] That approval number is not available."));
    around.receive(&mut coordinator, "event-3", "message-3", " 1 ");
    assert_eq!(
        around.resolves,
        vec![(
            RequestId::String("request-1".to_string()),
            RequestResponse::Approval(ApprovalDecision::Command(
                CommandExecutionApprovalDecision::Accept
            ))
        )]
    );
    assert_eq!(around.sent[3], "[codex] Selected: Yes, proceed.");
    assert_eq!(around.sent[4], around.sent[0]);
    assert_eq!(coordinator.pending_approvals.len(), 1);
}

#[test]
fn approvals_are_refused_where_notices_are_off() {
    let mut around = Surroundings::new();
    let mut off = settings();
    off.include_approval_notices = false;
    let mut coordinator = coordinator_with(busy_state(), off);
    around.request(&mut coordinator, command_approval("request-1"));
    around.request(
        &mut coordinator,
        ServerRequest::FileChangeRequestApproval {
            request_id: RequestId::Integer(2),
            params: FileChangeRequestApprovalParams {
                thread_id: "thread-1".to_string(),
                turn_id: "turn-1".to_string(),
                item_id: "item-1".to_string(),
                reason: None,
                grant_root: None,
            },
        },
    );
    assert_eq!(
        around.rejected,
        vec![
            RequestId::String("request-1".to_string()),
            RequestId::Integer(2)
        ]
    );
    around.request(
        &mut coordinator,
        ServerRequest::PermissionsRequestApproval {
            request_id: RequestId::Integer(3),
            params: PermissionsRequestApprovalParams {
                thread_id: "thread-1".to_string(),
                turn_id: "turn-1".to_string(),
                item_id: "item-1".to_string(),
                environment_id: None,
                reason: None,
                permissions: PermissionProfile::default(),
            },
        },
    );
    assert_eq!(coordinator.pending_approvals.len(), 1);
    assert_eq!(around.sent.len(), 1);
}

#[test]
fn a_stop_cancels_the_approval_and_interrupts_the_turn() {
    let mut around = Surroundings::new();
    let mut coordinator = coordinator(busy_state());
    around.request(&mut coordinator, command_approval("request-1"));
    around.receive(&mut coordinator, "event-1", "message-1", "/stop");
    assert_eq!(
        around.resolves,
        vec![(
            RequestId::String("request-1".to_string()),
            RequestResponse::Approval(ApprovalDecision::Command(
                CommandExecutionApprovalDecision::Cancel
            ))
        )]
    );
    assert_eq!(
        around.interrupts,
        vec![("thread-1".to_string(), "turn-1".to_string())]
    );
    assert_eq!(
        around.sent.last().unwrap(),
        "[codex] Interrupt requested."
    );
    let mut idle = coordinator_with(BridgeState::empty(), settings());
    around.receive(&mut idle, "event-2", "message-2", "/stop");
    assert_eq!(around.sent.last().unwrap(), "[codex] No turn is running.");
}

#[test]
fn approvals_of_file_changes_name_the_recorded_paths() {
    let mut around = Surroundings::new();
    let mut coordinator = coordinator(busy_state());
    around.notify(
        &mut coordinator,
        ServerNotification::ItemStarted(ItemStartedNotification {
            thread_id: "thread-1".to_string(),
            turn_id: "turn-1".to_string(),
            started_at_ms: 1,
            item: ThreadItem::FileChange {
                id: "item-1".to_string(),
                changes: vec![FileUpdateChange {
                    path: "src/lib.rs".to_string(),
                    diff: String::new(),
                }],
                status: PatchApplyStatus::InProgress,
            },
        }),
    );
    around.request(
        &mut coordinator,
        ServerRequest::FileChangeRequestApproval {
            request_id: RequestId::Integer(1),
            params: FileChangeRequestApprovalParams {
                thread_id: "thread-1".to_string(),
                turn_id: "turn-1".to_string(),
                item_id: "item-1".to_string(),
                reason: None,
                grant_root: None,
            },
        },
    );
    assert!(around.sent.last().unwrap().contains("src/lib.rs"));
    around.notify(
        &mut coordinator,
        ServerNotification::ServerRequestResolved(ServerRequestResolvedNotification {
            thread_id: "thread-1".to_string(),
            request_id: RequestId::Integer(1),
        }),
    );
    assert!(coordinator.pending_approvals.is_empty());
}

#[test]
fn questions_expire_and_secrets_are_refused() {
    let mut around = Surroundings::new();
    let mut coordinator = coordinator(busy_state());
    let mut secret = question("pin", "Your PIN?");
    secret.is_secret = true;
    around.request(&mut coordinator, questions("request-1", vec![secret]));
    assert_eq!(
        around.sent,
        vec!["[codex] A secret answer was requested and cannot be sent over WhatsApp."]
    );
    around.request(
        &mut coordinator,
        questions("request-2", vec![question("a", "A?")]),
    );
    coordinator.tick(309);
    around.settle(&mut coordinator);
    assert_eq!(coordinator.pending_requests.len(), 1);
    coordinator.tick(310);
    around.settle(&mut coordinator);
    assert!(coordinator.pending_requests.is_empty());
    assert!(around.sent.last().unwrap().ends_with(" expired."));
    assert_eq!(around.rejected.len(), 2);
    around.receive(&mut coordinator, "event-1", "message-1", "/answer abc yes");
    assert_eq!(
        around.sent.last().unwrap(),
        "[codex] That question token is unknown or expired."
    );
}

#[test]
fn only_so_many_requests_wait_for_the_user() {
    let mut around = Surroundings::new();
    let mut coordinator = coordinator(busy_state());
    for index in 0..33 {
        around.request(&mut coordinator, command_approval(&format!("request-{index}")));
    }
    assert_eq!(coordinator.pending_approvals.len(), 32);
    assert_eq!(
        around.rejected,
        vec![RequestId::String("request-32".to_string())]
    );
    coordinator.shut_down();
    around.settle(&mut coordinator);
    assert_eq!(around.rejected.len(), 33);
}

#[test]
fn threads_are_listed_attached_and_started() {
    let mut around = Surroundings::new();
    let mut coordinator = coordinator(BridgeState::empty());
    around.receive(&mut coordinator, "e-1", "m-1", "/whatsapp list-threads");
    assert_eq!(
        around.sent[0],
        "[codex] No resumable Codex threads are available."
    );
    around.threads = vec![ThreadSummary {
        id: "thread-7".to_string(),
        preview: "fix the build".to_string(),
    }];
    around.receive(&mut coordinator, "e-2", "m-2", "/whatsapp list-threads");
    assert_eq!(
        around.sent[1],
        "[codex] Recent threads:\n• `thread-7` — fix the build\nAttach one with `/whatsapp attach <thread-id>`."
    );
    around.receive(&mut coordinator, "e-3", "m-3", "/whatsapp attach thread-7");
    assert_eq!(around.sent[2], "[codex] Could not resume that Codex thread.");
    around.thread_turns = Some(Vec::new());
    around.receive(&mut coordinator, "e-4", "m-4", "/whatsapp attach thread-7");
    assert_eq!(
        around.sent[3],
        "[codex] Attached the selected Codex thread."
    );
    assert_eq!(
        coordinator.state.binding.as_ref().unwrap().codex_thread_id,
        "thread-7"
    );
    around.receive(&mut coordinator, "e-5", "m-5", "/new");
    assert_eq!(around.sent[4], "[codex] Started a new thread.");
    let mut busy = coordinator_with(busy_state(), settings());
    around.receive(&mut busy, "e-6", "m-6", "/new");
    assert_eq!(
        around.sent[5],
        "[codex] Stop or wait for the active turn before starting a new thread."
    );
}

#[test]
fn the_status_names_every_component() {
    let mut coordinator = coordinator(busy_state());
    coordinator.transport_healthy = false;
    assert_eq!(
        coordinator.status_message(),
        "[codex] app-server: connected; transport: degraded; state: durable; thread: thread-1; active turn: turn-1; queued: 0; pending: none"
    );
}

#[test]
fn long_prompts_and_a_full_queue_are_refused() {
    let mut around = Surroundings::new();
    let mut small = settings();
    small.max_queued_prompts = 1;
    let mut coordinator = coordinator_with(BridgeState::empty(), small);
    coordinator.app_server_connected = false;
    around.start_thread_fails = true;
    around.receive(&mut coordinator, "e-1", "m-1", &"é".repeat(5_001));
    assert_eq!(
        around.sent[0],
        "[codex] That prompt is too long; keep it under 10,000 UTF-8 bytes."
    );
    around.receive(&mut coordinator, "e-2", "m-2", "first");
    around.receive(&mut coordinator, "e-3", "m-3", "second");
    assert_eq!(
        around.sent.last().unwrap(),
        "[codex] Queue is full; try again after the current turn."
    );
    assert_eq!(coordinator.state.queued_prompts.len(), 1);
}

#[test]
fn the_outbox_is_sent_at_the_start() {
    let outbound = |body: &str| OutboundMessage {
        response_id: "r".to_string(),
        chat_id: CHAT.to_string(),
        body: body.to_string(),
        attempts: 0,
    };
    let mut state = BridgeState::empty();
    state.legacy_outbox = vec![
        outbound("[codex] Codex app-server is unavailable."),
        outbound("[codex] Ready."),
    ];
    let mut around = Surroundings::new();
    let mut coordinator = coordinator(state);
    coordinator.start();
    around.settle(&mut coordinator);
    assert_eq!(around.sent, vec!["[codex] Ready."]);
    assert!(coordinator.state.legacy_outbox.is_empty());
    assert!(coordinator.state.was_sent_by_bridge("legacy-1"));
}

#[test]
fn the_transport_has_to_be_ready_for_the_account() {
    let mut coordinator = coordinator(BridgeState::empty());
    let status = |name: &str, account: &str| {
        Some(TransportStatus {
            status: name.to_string(),
            account: Some(account.to_string()),
        })
    };
    coordinator.check_transport(None);
    assert!(!coordinator.readiness().transport_healthy);
    coordinator.check_transport(status("Ready", "+44 7700 900000"));
    assert!(coordinator.readiness().transport_healthy);
    coordinator.check_transport(status("ready", "1"));
    assert!(!coordinator.readiness().transport_healthy);
}

#[test]
fn pauses_between_attempts_grow() {
    let mut reconnection = Reconnection::new(true);
    reconnection.after_step(false);
    assert!(!reconnection.connected);
    let mut pauses = Vec::new();
    for _ in 0..4 {
        pauses.push(reconnection.delay_ms);
        reconnection.after_attempt(false);
    }
    assert_eq!(pauses, vec![1_000, 2_000, 4_000, 5_000]);
    reconnection.after_attempt(true);
    assert_eq!(reconnection, Reconnection::new(true));
    assert_eq!(reconnect_delay_with_jitter(1_000, 999), 1_249);
}

#[test]
fn actions_become_calls_that_carry_the_message() {
    let call = Action::SteerTurn {
        thread_id: "thread-1".to_string(),
        turn_id: "turn-1".to_string(),
        message_id: "message-1".to_string(),
        inputs: Vec::new(),
    }
    .into_call()
    .unwrap();
    assert_eq!(
        call,
        codex_whatsapp_bridge::codex::ClientCall::TurnSteer {
            thread_id: "thread-1".to_string(),
            client_user_message_id: "message-1".to_string(),
            input: Vec::new(),
            expected_turn_id: "turn-1".to_string(),
        }
    );
    assert_eq!(Action::Save.into_call(), None);
}

#[test]
fn messages_are_remembered_while_there_is_room() {
    let mut around = Surroundings::new();
    let mut small = settings();
    small.dedupe_capacity = 2;
    let mut coordinator = coordinator_with(BridgeState::empty(), small);
    for (time, key) in [(10, "event-b"), (11, "event-a"), (12, "event-c")] {
        coordinator.accept_inbound(message(key, key, "/status"), time);
        around.settle(&mut coordinator);
    }
    assert!(!coordinator.state.was_processed("event-b"));
    assert!(coordinator.state.was_processed("event-a"));
    assert!(coordinator.state.was_processed("event-c"));
    let answers = around.sent.len();
    coordinator.accept_inbound(message("event-a", "event-a", "/status"), 13);
    around.settle(&mut coordinator);
    assert_eq!(around.sent.len(), answers);
    coordinator.accept_inbound(message("event-b", "event-b", "/status"), 14);
    around.settle(&mut coordinator);
    assert_eq!(around.sent.len(), answers + 1);
}

#[test]
fn requests_are_told_from_other_turns() {
    let mut around = Surroundings::new();
    let mut coordinator = coordinator(BridgeState::empty());
    coordinator.handle_server_request(command_approval("request-1"), 10);
    around.settle(&mut coordinator);
    assert_eq!(
        around.rejected,
        vec![RequestId::String("request-1".to_string())]
    );
    assert_eq!(
        codex_whatsapp_bridge::notifications::server_request_thread_id(&command_approval("r")),
        Some("thread-1".to_string())
    );
}

#[test]
fn a_lagged_stream_advances_the_queue_once() {
    let mut state = busy_state();
    state.active_turn = None;
    state.queued_prompts.push(QueuedPrompt {
        idempotency_key: "key-1".to_string(),
        message_id: "message-1".to_string(),
        body: "hello".to_string(),
        attachment: None,
        accepted_at: 1,
        submission_uncertain: false,
        failure_notified: false,
    });
    let mut coordinator = coordinator(state);
    coordinator.handle_event(AppServerEvent::Lagged { skipped: 4 }, 10);
    let mut saves = 0;
    loop {
        match coordinator.action() {
            Action::Rest => break,
            Action::Proceed => coordinator.advance(),
            Action::ResumeThread { .. } => coordinator.on_thread_resumed(Ok(Vec::new())),
            Action::Save => {
                saves += 1;
                coordinator.on_saved(false);
            }
            _ => panic!("the prompt was not marked"),
        }
    }
    assert_eq!(saves, 1);
}

#[test]
fn a_steer_is_handed_over_at_most_twice() {
    let mut coordinator = coordinator(busy_state());
    coordinator.accept_inbound(message("key-2", "message-2", "more"), 10);
    coordinator.on_saved(true);
    let mut aims = Vec::new();
    loop {
        coordinator.take_effects();
        match coordinator.action() {
            Action::Rest => break,
            Action::Proceed => coordinator.advance(),
            Action::Save => coordinator.on_saved(true),
            Action::SteerTurn { turn_id, .. } => {
                aims.push(turn_id);
                coordinator.on_steered(Err(CodexError::Server {
                    message: format!(
                        "expected active turn id `old` but found `turn-{}`",
                        aims.len() + 1
                    ),
                    not_steerable: false,
                }));
            }
            _ => panic!("only the steer is submitted"),
        }
    }
    assert_eq!(aims, vec!["turn-1", "turn-2"]);
    assert!(coordinator.state.pending_steers.is_empty());
    assert_eq!(coordinator.state.queued_prompts.len(), 1);
    assert_eq!(coordinator.state.queued_prompts[0].message_id, "message-2");
}

#[test]
fn attachment_files_are_stale_once_nothing_refers_to_them() {
    let mut state = busy_state();
    state.active_turn.as_mut().unwrap().attachment_paths = vec!["/files/turn".to_string()];
    let mut coordinator = coordinator(state);
    let mut inbound = message("key-2", "message-2", "read this");
    inbound.attachment = Some(InboundAttachment::Document {
        path: "/files/steer".to_string(),
        file_name: None,
        mime_type: None,
    });
    coordinator.accept_inbound(inbound, 10);
    let stored = |path: &str, modified_at: u64| StoredFile {
        path: path.to_string(),
        modified_at,
    };
    let now = 1_000_000;
    let files = vec![
        stored("/files/turn", 0),
        stored("/files/steer", 0),
        stored("/files/old", now - 24 * 3_600 - 1),
        stored("/files/recent", now - 24 * 3_600),
    ];
    assert_eq!(
        coordinator.stale_attachments(&files, now),
        vec!["/files/old"]
    );
}

fn failed(message: Option<&str>) -> ServerNotification {
    ServerNotification::TurnCompleted(TurnCompletedNotification {
        thread_id: "thread-1".to_string(),
        turn: Turn {
            id: "turn-1".to_string(),
            items: Vec::new(),
            status: TurnStatus::Failed,
            error: message.map(|message| TurnError {
                message: message.to_string(),
            }),
        },
    })
}

fn error(message: &str, will_retry: bool) -> ServerNotification {
    ServerNotification::Error(ErrorNotification {
        error: TurnError {
            message: message.to_string(),
        },
        will_retry,
        thread_id: "thread-1".to_string(),
        turn_id: "turn-1".to_string(),
    })
}

#[test]
fn a_failed_turn_is_reported_with_its_error() {
    for (message, expected) in [
        (Some("out of tokens"), "[codex] Turn failed: out of tokens"),
        (None, "[codex] Turn failed: unknown error"),
    ] {
        let mut around = Surroundings::new();
        let mut coordinator = coordinator(busy_state());
        around.notify(&mut coordinator, failed(message));
        assert_eq!(around.sent, vec![expected]);
        assert_eq!(coordinator.state.active_turn, None);
    }
}

#[test]
fn an_error_is_said_once() {
    let mut around = Surroundings::new();
    let mut coordinator = coordinator(busy_state());
    around.notify(&mut coordinator, error("overloaded", true));
    assert!(around.sent.is_empty());
    around.notify(&mut coordinator, error("overloaded", false));
    around.notify(&mut coordinator, error("overloaded", false));
    assert_eq!(around.sent, vec!["[codex] Codex error: overloaded"]);
    around.notify(&mut coordinator, failed(Some("overloaded")));
    assert_eq!(around.sent.len(), 1);
}

#[test]
fn an_interrupted_turn_does_not_report_its_error() {
    let mut around = Surroundings::new();
    let mut coordinator = coordinator(busy_state());
    let ServerNotification::TurnCompleted(mut ended) = failed(Some("stopped")) else {
        panic!("expected the end of a turn");
    };
    ended.turn.status = TurnStatus::Interrupted;
    around.notify(
        &mut coordinator,
        ServerNotification::TurnCompleted(ended),
    );
    assert_eq!(around.sent, vec!["[codex] Turn interrupted."]);
}

#[test]
fn a_request_without_questions_is_refused_in_words() {
    let mut around = Surroundings::new();
    let mut coordinator = coordinator(busy_state());
    around.request(&mut coordinator, questions("request-1", Vec::new()));
    assert_eq!(
        around.rejected,
        vec![RequestId::String("request-1".to_string())]
    );
    assert_eq!(
        around.sent,
        vec!["[codex] This tool asked multiple questions, which WhatsApp v1 cannot render."]
    );
    assert!(coordinator.pending_requests.is_empty());
}
