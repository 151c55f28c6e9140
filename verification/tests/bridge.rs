//! Commands, output, the catalogue, kept state, webhooks, and presentations.

use codex_whatsapp_bridge::approval::command_execution_choices;
use codex_whatsapp_bridge::approval::command_execution_presentation;
use codex_whatsapp_bridge::approval::default_command_execution_decisions;
use codex_whatsapp_bridge::approval::file_change_presentation;
use codex_whatsapp_bridge::approval::render_command;
use codex_whatsapp_bridge::approval::ApprovalDecision;
use codex_whatsapp_bridge::approval::CommandExecutionApprovalDecision;
use codex_whatsapp_bridge::approval::CommandExecutionRequestApprovalParams;
use codex_whatsapp_bridge::approval::ExecPolicyAmendment;
use codex_whatsapp_bridge::approval::FileChangeRequestApprovalParams;
use codex_whatsapp_bridge::attachment::unsupported_notice;
use codex_whatsapp_bridge::attachment::user_inputs;
use codex_whatsapp_bridge::attachment::InboundAttachment;
use codex_whatsapp_bridge::codex::list_threads_call;
use codex_whatsapp_bridge::codex::start_thread_call;
use codex_whatsapp_bridge::codex::ClientCall;
use codex_whatsapp_bridge::codex::CodexError;
use codex_whatsapp_bridge::codex::CodexSession;
use codex_whatsapp_bridge::command_catalog::command_catalog_path;
use codex_whatsapp_bridge::command_catalog::CommandCatalog;
use codex_whatsapp_bridge::command_catalog::CommandCatalogError;
use codex_whatsapp_bridge::command_catalog::CommandEntry;
use codex_whatsapp_bridge::command_catalog::CommandGroup;
use codex_whatsapp_bridge::commands::parse_command;
use codex_whatsapp_bridge::commands::BridgeCommand;
use codex_whatsapp_bridge::health::BridgeReadiness;
use codex_whatsapp_bridge::health::BridgeReadinessSnapshot;
use codex_whatsapp_bridge::ids::fresh_token;
use codex_whatsapp_bridge::ids::short_token;
use codex_whatsapp_bridge::notifications::notification_thread_id;
use codex_whatsapp_bridge::notifications::render_notification;
use codex_whatsapp_bridge::output::chunk_text;
use codex_whatsapp_bridge::output::labelled_chunks;
use codex_whatsapp_bridge::output::OutputAggregator;
use codex_whatsapp_bridge::output::MAX_ASSISTANT_ITEMS_PER_TURN;
use codex_whatsapp_bridge::output::TRUNCATION_NOTICE;
use codex_whatsapp_bridge::protocol::ErrorNotification;
use codex_whatsapp_bridge::protocol::ServerNotification;
use codex_whatsapp_bridge::protocol::ThreadDeletedNotification;
use codex_whatsapp_bridge::protocol::TurnError;
use codex_whatsapp_bridge::protocol::UserInput;
use codex_whatsapp_bridge::signature::verify_tag;
use codex_whatsapp_bridge::state::ActiveTurn;
use codex_whatsapp_bridge::state::BridgeState;
use codex_whatsapp_bridge::state::OutboundMessage;
use codex_whatsapp_bridge::state::QueuedPrompt;
use codex_whatsapp_bridge::state::StateError;
use codex_whatsapp_bridge::state::StateFile;
use codex_whatsapp_bridge::state::STATE_SCHEMA_VERSION;
use codex_whatsapp_bridge::transport_webhook;
use codex_whatsapp_bridge::transport_webhook::TransportEvent;
use codex_whatsapp_bridge::transport_webhook::TransportMessage;
use codex_whatsapp_bridge::webhook;
use codex_whatsapp_bridge::webhook::OpenWaMessage;
use codex_whatsapp_bridge::webhook::OpenWaWebhook;
use hmac::Mac;

fn text_of(value: &serde_json::Value, name: &str) -> Option<String> {
    value
        .get(name)
        .and_then(|member| member.as_str())
        .map(|text| text.to_string())
}

/// Reads a webhook the way the service does.
fn decode_webhook(body: &[u8]) -> Option<OpenWaWebhook> {
    let value: serde_json::Value = serde_json::from_slice(body).ok()?;
    let data = value.get("data")?;
    let message = match (text_of(data, "id"), text_of(data, "from"), text_of(data, "to")) {
        (Some(id), Some(from), Some(to)) => Some(OpenWaMessage {
            id,
            from,
            to,
            body: text_of(data, "body")?,
            message_type: text_of(data, "type")?,
            is_group: data.get("isGroup")?.as_bool()?,
        }),
        _ => None,
    };
    Some(OpenWaWebhook {
        event: text_of(&value, "event")?,
        session_id: text_of(&value, "sessionId")?,
        idempotency_key: text_of(&value, "idempotencyKey"),
        data: message,
    })
}

fn sign(secret: &[u8], body: &[u8]) -> String {
    let mut mac = hmac::Hmac::<sha2::Sha256>::new_from_slice(secret).unwrap();
    mac.update(body);
    mac.finalize()
        .into_bytes()
        .iter()
        .map(|byte| format!("{byte:02x}"))
        .collect::<String>()
}

fn sent_message(id: &str, to: &str) -> OpenWaMessage {
    OpenWaMessage {
        id: id.to_string(),
        from: "447700900000@c.us".to_string(),
        to: to.to_string(),
        body: "!codex should not run".to_string(),
        message_type: "chat".to_string(),
        is_group: false,
    }
}

#[test]
fn plain_messages_are_prompts_and_standard_controls_are_recognized() {
    assert_eq!(
        parse_command("inspect the current project"),
        BridgeCommand::Prompt("inspect the current project".to_string())
    );
    assert_eq!(parse_command("/status"), BridgeCommand::Status);
    assert_eq!(parse_command("/"), BridgeCommand::Help);
    assert_eq!(
        parse_command("/approve abc"),
        BridgeCommand::Approve {
            token: "abc".to_string(),
            session: false
        }
    );
}

#[test]
fn parses_whatsapp_thread_controls() {
    assert_eq!(
        parse_command("/whatsapp list-threads"),
        BridgeCommand::WhatsAppListThreads
    );
    assert_eq!(
        parse_command("/whatsapp attach thread-123"),
        BridgeCommand::WhatsAppAttach("thread-123".to_string())
    );
}

#[test]
fn answers_keep_their_text() {
    assert_eq!(
        parse_command("/answer abc the second one"),
        BridgeCommand::Answer {
            token: "abc".to_string(),
            answer: "the second one".to_string()
        }
    );
    assert_eq!(parse_command("/stop"), BridgeCommand::Stop);
    assert_eq!(parse_command("/new"), BridgeCommand::New);
    assert_eq!(parse_command("/help"), BridgeCommand::Help);
}

#[test]
fn chunks_unicode_without_exceeding_limit() {
    let chunks = chunk_text("one 😀 two\n\nthree four", 8);
    assert!(chunks.iter().all(|chunk| chunk.chars().count() <= 8));
    assert_eq!(chunks.concat().replace(' ', ""), "one😀twothreefour");
}

#[test]
fn completed_items_preserve_arrival_order_and_replace_deltas() {
    let mut output = OutputAggregator::default();
    output.push_delta("thread".into(), "turn".into(), "first".into(), "stale");
    output.push_delta("thread".into(), "turn".into(), "second".into(), "two");
    output.complete_item("thread".into(), "turn".into(), "first".into(), "one".into());

    assert_eq!(output.finish_turn("thread", "turn"), "onetwo");
}

#[test]
fn labels_fit_within_the_openwa_limit() {
    let output = "x".repeat(8_500);
    let chunks = labelled_chunks(&output, 4_000);

    assert!(chunks.iter().all(|chunk| chunk.chars().count() <= 4_096));
    assert_eq!(chunks.len(), 3);
}

#[test]
fn items_beyond_the_cap_become_a_visible_notice() {
    let mut output = OutputAggregator::default();
    for index in 0..=MAX_ASSISTANT_ITEMS_PER_TURN {
        output.complete_item(
            "thread".into(),
            "turn".into(),
            format!("item-{index}"),
            format!("<{index}>"),
        );
    }

    let completed = output.finish_turn("thread", "turn");
    assert!(completed.ends_with(TRUNCATION_NOTICE));
    assert!(completed.contains("<63>"));
    assert!(!completed.contains(&format!("<{MAX_ASSISTANT_ITEMS_PER_TURN}>")));
}

#[test]
fn a_single_chunk_has_a_label_too() {
    assert_eq!(labelled_chunks("hello", 100), vec!["[codex] hello"]);
    let parts = labelled_chunks("one two three four", 8);
    assert!(parts[0].starts_with(&format!("[codex 1/{}] ", parts.len())));
}

#[test]
fn a_finished_turn_is_forgotten() {
    let mut output = OutputAggregator::default();
    output.push_delta("thread".into(), "turn".into(), "item".into(), "text");
    output.push_delta("thread".into(), "other".into(), "item".into(), "kept");
    assert_eq!(output.turn_text("thread", "turn"), "text");
    assert_eq!(output.finish_turn("thread", "turn"), "text");
    assert_eq!(output.turn_text("thread", "turn"), "");
    assert_eq!(output.turn_text("thread", "other"), "kept");
}

#[test]
fn default_catalog_is_valid_and_contains_both_command_surfaces() {
    let catalog = CommandCatalog::default_catalog();
    catalog.validate().unwrap();

    let help = catalog.render_help();
    assert!(help.contains("`/whatsapp list-threads`"));
    assert!(help.contains("`/answer <token> <answer>`"));
    assert!(help.contains("displayed number"));
    assert!(!help.contains("/approve"));
    assert!(!help.contains("/deny"));
}

#[test]
fn creates_and_loads_a_user_editable_default_catalog() {
    assert_eq!(
        command_catalog_path("/home/codex"),
        "/home/codex/whatsapp/commands.json"
    );
    assert!(CommandCatalog::creates_default(
        CommandCatalogError::Read,
        false
    ));
    assert!(!CommandCatalog::creates_default(
        CommandCatalogError::Read,
        true
    ));
    assert_eq!(
        CommandCatalog::accept(512, Some(CommandCatalog::default_catalog())).unwrap(),
        CommandCatalog::default_catalog()
    );
}

#[test]
fn catalogues_that_cannot_be_used_are_told_apart() {
    assert_eq!(
        CommandCatalog::accept(1_000_000, Some(CommandCatalog::default_catalog())),
        Err(CommandCatalogError::TooLarge)
    );
    assert_eq!(
        CommandCatalog::accept(10, None),
        Err(CommandCatalogError::Parse)
    );
    let mut newer = CommandCatalog::default_catalog();
    newer.schema_version = 99;
    assert_eq!(
        CommandCatalog::accept(10, Some(newer)),
        Err(CommandCatalogError::UnsupportedSchema)
    );
    let mut empty = CommandCatalog::default_catalog();
    empty.help_heading = String::new();
    assert_eq!(
        CommandCatalog::accept(10, Some(empty)),
        Err(CommandCatalogError::Invalid)
    );
    assert_eq!(
        CommandCatalogError::Invalid.message(),
        "invalid WhatsApp command catalogue"
    );
}

#[test]
fn renders_custom_help_and_prefix_from_disk() {
    let catalog = CommandCatalog::accept(
        300,
        Some(CommandCatalog {
            schema_version: 1,
            response_prefix: "[remote]".to_string(),
            help_heading: "Remote controls".to_string(),
            help_footer: "Edit this file to change help.".to_string(),
            groups: vec![CommandGroup {
                heading: "Session".to_string(),
                commands: vec![CommandEntry {
                    usage: "/status".to_string(),
                    description: "show status".to_string(),
                }],
            }],
        }),
    )
    .unwrap();
    assert_eq!(
        catalog.render_help(),
        "Remote controls\n\nSession\n• `/status` — show status\n\nEdit this file to change help."
    );
    assert_eq!(
        catalog.rewrite_legacy_prefix("[codex] Ready."),
        "[remote] Ready."
    );
    assert_eq!(
        catalog.rewrite_legacy_prefix("[codex 2/3] More."),
        "[remote 2/3] More."
    );
}

#[test]
fn verifies_raw_body_and_filters_a_self_chat_message() {
    let body = br#"{"event":"message.received","sessionId":"s","idempotencyKey":"key","data":{"id":"m","from":"447700900000@c.us","to":"447700900000@c.us","body":"!codex hello","type":"chat","isGroup":false}}"#;
    let signature = sign(b"secret", body);
    let received =
        webhook::parse_verified_webhook(b"secret", &signature, body, decode_webhook).unwrap();
    let inbound =
        webhook::filter_inbound(received, "s", "447700900000@c.us", "!codex ", |_: &str| false)
            .unwrap();
    assert_eq!(inbound.idempotency_key, "key");
    assert!(webhook::parse_verified_webhook(b"secret", "00", body, decode_webhook).is_err());
}

#[test]
fn rejects_a_sent_message_to_another_chat() {
    let received = OpenWaWebhook {
        event: "message.sent".to_string(),
        session_id: "s".to_string(),
        idempotency_key: None,
        data: Some(sent_message("m", "447700900001@c.us")),
    };

    assert_eq!(
        webhook::filter_inbound(received, "s", "447700900000@c.us", "!codex ", |_: &str| false),
        None
    );
}

#[test]
fn rejects_a_message_already_recorded_in_the_outbound_ledger() {
    let received = OpenWaWebhook {
        event: "message.sent".to_string(),
        session_id: "s".to_string(),
        idempotency_key: Some("key".to_string()),
        data: Some(sent_message("bridge-message", "447700900000@c.us")),
    };

    assert_eq!(
        webhook::filter_inbound(
            received,
            "s",
            "447700900000@c.us",
            "!codex ",
            |message_id: &str| message_id == "bridge-message",
        ),
        None
    );
}

#[test]
fn safely_ignores_a_signed_session_status_event() {
    let body = br#"{"event":"session.status","sessionId":"s","idempotencyKey":"status-key","data":{"status":"ready","phone":"447700900000"}}"#;
    let signature = sign(b"secret", body);
    let received =
        webhook::parse_verified_webhook(b"secret", &signature, body, decode_webhook).unwrap();

    assert_eq!(
        webhook::filter_inbound(received, "s", "447700900000@c.us", "!codex ", |_: &str| false),
        None
    );
}

#[test]
fn signatures_of_the_transport_name_their_scheme() {
    let body = b"{}";
    let signature = sign(b"secret", body);
    let named = format!("sha256={signature}");
    assert!(transport_webhook::verify_signature(b"secret", body, &named));
    assert!(!transport_webhook::verify_signature(b"secret", body, &signature));
    assert!(!transport_webhook::verify_signature(b"other", body, &named));
    assert!(!transport_webhook::verify_signature(b"secret", b"[]", &named));
    assert!(webhook::verify_signature(b"secret", body, &signature));
    assert!(webhook::verify_signature(b"secret", body, &named));
    assert!(!webhook::verify_signature(b"secret", body, "zz"));
}

#[test]
fn events_that_are_not_signed_are_not_decoded() {
    let outcome = transport_webhook::parse_verified_event(
        b"secret",
        "sha256=00",
        b"{}",
        |_: &[u8]| -> Option<TransportEvent> { panic!("decoded an unsigned body") },
    );
    assert_eq!(
        outcome,
        Err(transport_webhook::WebhookError::InvalidSignature)
    );
    let signature = format!("sha256={}", sign(b"secret", b"{}"));
    assert_eq!(
        transport_webhook::parse_verified_event(b"secret", &signature, b"{}", |_: &[u8]| None),
        Err(transport_webhook::WebhookError::InvalidBody)
    );
}

#[test]
fn image_message_without_text_is_forwarded_with_attachment() {
    let attachment = InboundAttachment::Image {
        mime_type: "image/jpeg".to_string(),
        data_base64: "aW1hZ2U=".to_string(),
    };
    let event = TransportEvent {
        event: "message".to_string(),
        idempotency_key: "event-1".to_string(),
        data: TransportMessage {
            body: String::new(),
            chat_id: "447700900000@c.us".to_string(),
            from_me: true,
            id: "message-1".to_string(),
            is_group: false,
            is_self_chat: true,
            attachment: Some(attachment.clone()),
        },
    };

    assert_eq!(
        transport_webhook::filter_inbound(event, "447700900000@c.us", |_: &str| false),
        Some(transport_webhook::InboundMessage {
            idempotency_key: "event-1".to_string(),
            message_id: "message-1".to_string(),
            chat_id: "447700900000@c.us".to_string(),
            body: String::new(),
            attachment: Some(attachment),
        })
    );
}

#[test]
fn image_attachment_is_encoded_as_codex_image_input() {
    assert_eq!(
        user_inputs(
            "describe this".to_string(),
            Some(InboundAttachment::Image {
                mime_type: "image/png".to_string(),
                data_base64: "aW1hZ2U=".to_string(),
            }),
        ),
        vec![
            UserInput::Image {
                detail: None,
                url: "data:image/png;base64,aW1hZ2U=".to_string(),
            },
            UserInput::Text {
                text: "describe this".to_string(),
                text_elements: Vec::new(),
            },
        ]
    );
    assert_eq!(
        unsupported_notice("audio attachment"),
        "[codex] Audio attachments are unsupported in this session"
    );
}

#[test]
fn lifecycle_notifications_are_suppressed() {
    let notification = ServerNotification::ThreadDeleted(ThreadDeletedNotification {
        thread_id: "thread-1".to_string(),
    });

    assert_eq!(render_notification(&notification), None);
    assert_eq!(
        notification_thread_id(&notification),
        Some("thread-1".to_string())
    );
}

#[test]
fn retry_errors_are_suppressed() {
    let notification = ServerNotification::Error(ErrorNotification {
        error: TurnError {
            message: "temporary failure".to_string(),
        },
        will_retry: true,
        thread_id: "thread-1".to_string(),
        turn_id: "turn-1".to_string(),
    });

    assert_eq!(render_notification(&notification), None);
}

#[test]
fn persists_and_prunes_deduplication_records() {
    let mut state = BridgeState::empty();
    state.mark_processed("old".to_string(), 1);
    state.mark_processed("new".to_string(), 100);
    state.prune(100, 1, 1);

    let loaded = state.migrate().unwrap();
    assert_eq!(loaded.processed_events.keys(), vec!["new".to_string()]);
    assert!(loaded.was_processed("new"));
    assert!(!loaded.was_processed("old"));
}

#[test]
fn records_expire_with_their_lifetime() {
    let mut state = BridgeState::empty();
    state.mark_outbound("early".to_string(), 10);
    state.mark_outbound("late".to_string(), 5_000);
    state.prune(7_200, 1, 100);
    assert!(!state.was_sent_by_bridge("early"));
    assert!(state.was_sent_by_bridge("late"));
}

#[test]
fn rejects_unknown_state_schema_and_unknown_fields() {
    let mut state = BridgeState::empty();
    state.schema_version = STATE_SCHEMA_VERSION + 1;
    assert!(matches!(
        state.migrate(),
        Err(StateError::UnsupportedSchema)
    ));
    assert_eq!(StateError::Parse.message(), "failed to parse bridge state");
}

#[test]
fn migrates_schema_two_without_changing_queued_prompt_meaning() {
    let mut state = BridgeState::empty();
    state.schema_version = 2;
    state.queued_prompts.push(QueuedPrompt {
        idempotency_key: "event-1".to_string(),
        message_id: "message-1".to_string(),
        body: "next turn".to_string(),
        attachment: None,
        accepted_at: 10,
        submission_uncertain: false,
        failure_notified: false,
    });

    let state = state.migrate().unwrap();
    assert_eq!(state.schema_version, STATE_SCHEMA_VERSION);
    assert_eq!(state.queued_prompts[0].body, "next turn");
    assert!(state.pending_steers.is_empty());
}

#[test]
fn command_choices_preserve_standard_order_and_labels() {
    let decisions = vec![
        CommandExecutionApprovalDecision::Accept,
        CommandExecutionApprovalDecision::AcceptWithExecpolicyAmendment {
            execpolicy_amendment: ExecPolicyAmendment {
                command: vec!["git".to_string(), "push".to_string()],
            },
        },
        CommandExecutionApprovalDecision::AcceptForSession,
        CommandExecutionApprovalDecision::Cancel,
    ];
    let choices = command_execution_choices(&decisions, None, None);
    assert_eq!(
        choices
            .iter()
            .map(|choice| choice.label.as_str())
            .collect::<Vec<_>>(),
        vec![
            "Yes, proceed",
            "Yes, and don't ask again for commands that start with `git push`",
            "Yes, and don't ask again for this command in this session",
            "No, and tell Codex what to do differently",
        ]
    );
    assert_eq!(
        choices.last().unwrap().decision,
        ApprovalDecision::Command(CommandExecutionApprovalDecision::Cancel)
    );
}

#[test]
fn a_command_can_always_be_accepted_or_cancelled() {
    let decisions = default_command_execution_decisions(None, None, None, None);
    assert_eq!(
        decisions.first(),
        Some(&CommandExecutionApprovalDecision::Accept)
    );
    assert_eq!(
        decisions.last(),
        Some(&CommandExecutionApprovalDecision::Cancel)
    );
    assert_eq!(
        render_command(&vec![
            "/bin/bash".to_string(),
            "-lc".to_string(),
            "ls -l".to_string()
        ]),
        "'ls -l'"
    );
}

#[test]
fn presentations_name_what_is_asked_for() {
    let shown = command_execution_presentation(&CommandExecutionRequestApprovalParams {
        thread_id: "thread".to_string(),
        turn_id: "turn".to_string(),
        item_id: "item".to_string(),
        environment_id: None,
        reason: Some("to look around".to_string()),
        command: Some("ls".to_string()),
        network_approval_context: None,
        additional_permissions: None,
        proposed_execpolicy_amendment: None,
        proposed_network_policy_amendments: None,
        available_decisions: None,
    });
    assert!(shown.details.iter().any(|line| line.contains("to look around")));
    assert!(shown.details.iter().any(|line| line.contains("ls")));
    assert!(!shown.choices.is_empty());

    let shown = file_change_presentation(
        &FileChangeRequestApprovalParams {
            thread_id: "thread".to_string(),
            turn_id: "turn".to_string(),
            item_id: "item".to_string(),
            reason: None,
            grant_root: None,
        },
        &vec!["src/lib.rs".to_string()],
    );
    assert!(shown.details.iter().any(|line| line.contains("src/lib.rs")));
}

#[test]
fn refusals_name_the_active_turn() {
    let refusal = |message: &str| CodexError::Server {
        message: message.to_string(),
        not_steerable: false,
    };
    assert_eq!(
        refusal("expected active turn id `turn-1` but found `turn-2`").actual_turn_id(),
        Some("turn-2".to_string())
    );
    assert_eq!(
        refusal("expected active turn id turn-1 but found turn-2").actual_turn_id(),
        Some("turn-2".to_string())
    );
    assert_eq!(refusal("something else").actual_turn_id(), None);
    assert!(refusal("no active turn to steer").is_no_active_turn());
    assert!(!CodexError::Transport("gone".to_string()).is_no_active_turn());
    assert_eq!(
        CodexError::Transport("gone".to_string()).message(),
        "failed to communicate with Codex app-server: gone"
    );
    assert_eq!(
        refusal("no").message(),
        "Codex app-server rejected the request: no"
    );
}

#[test]
fn requests_are_numbered_on_a_connection_that_stands() {
    let mut session = CodexSession::connected();
    let first = session.request(start_thread_call()).unwrap();
    let second = session.request(list_threads_call()).unwrap();
    assert_eq!((first.request_id, second.request_id), (1, 2));
    assert_eq!(first.call, ClientCall::ThreadStart { ephemeral: false });
    assert_eq!(second.call, ClientCall::ThreadList { limit: 20 });
    assert!(session.shutdown());
    assert_eq!(
        session.request(start_thread_call()),
        Err(CodexError::Transport("client is disconnected".to_string()))
    );
    session.reconnect();
    assert_eq!(
        session.request(start_thread_call()).unwrap().request_id,
        3
    );
}

#[test]
fn readiness_is_updated_as_a_whole() {
    let mut readiness = BridgeReadiness::new(BridgeReadinessSnapshot::of(true, true, true));
    assert!(readiness.snapshot().ready);
    assert_eq!(readiness.snapshot().http_status(), 200);
    readiness.update(BridgeReadinessSnapshot::of(true, true, false));
    assert!(!readiness.snapshot().ready);
    assert_eq!(readiness.snapshot().http_status(), 503);
    readiness.update(BridgeReadinessSnapshot::of(true, true, true));
    readiness.mark_stopped();
    assert_eq!(
        readiness.snapshot(),
        BridgeReadinessSnapshot {
            ready: false,
            state_healthy: true,
            app_server_connected: false,
            transport_healthy: true,
        }
    );
}

#[test]
fn tokens_are_short_and_hexadecimal() {
    assert_eq!(short_token("0123456789abcdef"), "01234567");
    let token = fresh_token();
    assert_eq!(token.len(), 8);
    assert!(token.chars().all(|digit| digit.is_ascii_hexdigit()));
    assert_ne!(token, fresh_token());
}

#[test]
fn legacy_delivery_fields_are_read_but_not_written() {
    let mut state = BridgeState::empty();
    state.legacy_outbox.push(OutboundMessage {
        response_id: "response-1".to_string(),
        chat_id: "chat".to_string(),
        body: "legacy".to_string(),
        attempts: 0,
    });
    state.active_turn = Some(ActiveTurn {
        inbound_message_id: "message-1".to_string(),
        thread_id: "thread-1".to_string(),
        codex_turn_id: "turn-1".to_string(),
        legacy_working_output_message_id: Some("message-1".to_string()),
        attachment_paths: Vec::new(),
    });
    let written = state.persisted();
    assert!(written.legacy_outbox.is_empty());
    let turn = written.active_turn.as_ref().unwrap();
    assert_eq!(turn.legacy_working_output_message_id, None);
    assert_eq!(turn.codex_turn_id, "turn-1");
    assert_eq!(written.persisted(), written);
}

#[test]
fn authentication_codes_have_one_length() {
    let signature = sign(b"secret", b"body");
    let encoded = signature.trim_start_matches("sha256=");
    assert_eq!(encoded.len(), 64);
    assert!(verify_tag(b"secret", b"body", encoded));
    assert!(!verify_tag(b"secret", b"body", &encoded[..62]));
    assert!(!verify_tag(b"secret", b"body", &format!("{encoded}00")));
    assert!(!verify_tag(b"secret", b"body", ""));
}

#[test]
fn pieces_of_an_item_come_to_the_whole() {
    let long = "0123456789".repeat(10_001);
    for size in [1_000, 33_333, 99_990, 100_010] {
        let mut output = OutputAggregator::default();
        output.push_delta("thread".into(), "other".into(), "item".into(), "kept");
        let mut rest = long.as_str();
        while !rest.is_empty() {
            let (piece, left) = rest.split_at(size.min(rest.len()));
            output.push_delta("thread".into(), "turn".into(), "item".into(), piece);
            rest = left;
        }
        let text = output.turn_text("thread", "turn");
        assert_eq!(text, format!("{}{TRUNCATION_NOTICE}", &long[..99_951]));
        assert_eq!(text.len(), 100_000);
        assert_eq!(output.turn_text("thread", "other"), "kept");
    }
}

#[test]
fn state_files_are_told_apart() {
    assert_eq!(
        BridgeState::loaded(StateFile::Missing),
        Ok(BridgeState::empty())
    );
    assert_eq!(
        BridgeState::loaded(StateFile::Unreadable),
        Err(StateError::Read)
    );
    assert_eq!(
        BridgeState::loaded(StateFile::Malformed),
        Err(StateError::Parse)
    );
    let mut old = BridgeState::empty();
    old.schema_version = 2;
    assert_eq!(
        BridgeState::loaded(StateFile::Parsed(old)),
        Ok(BridgeState::empty())
    );
    let mut unknown = BridgeState::empty();
    unknown.schema_version = 1;
    assert_eq!(
        BridgeState::loaded(StateFile::Parsed(unknown)),
        Err(StateError::UnsupportedSchema)
    );
}
