//! Configuration, launch, HTTP interfaces, and onboarding.

use codex_whatsapp_bridge::config::canonical_e164;
use codex_whatsapp_bridge::config::default_bridge_name;
use codex_whatsapp_bridge::config::phone_digits;
use codex_whatsapp_bridge::config::whatsapp_runtime_path;
use codex_whatsapp_bridge::config::BridgeConfigError;
use codex_whatsapp_bridge::config::BridgeConfigToml;
use codex_whatsapp_bridge::config::LoadedTable;
use codex_whatsapp_bridge::config::WhatsAppConfigError;
use codex_whatsapp_bridge::config::WhatsAppConfigToml;
use codex_whatsapp_bridge::config::WhatsAppRuntimeConfig;
use codex_whatsapp_bridge::http::HttpMethod;
use codex_whatsapp_bridge::http::HttpRequest;
use codex_whatsapp_bridge::http::JsonField;
use codex_whatsapp_bridge::messaging::ProviderError;
use codex_whatsapp_bridge::messaging::ProviderStatus;
use codex_whatsapp_bridge::onboarding::GatewayFacts;
use codex_whatsapp_bridge::onboarding::SetupAction;
use codex_whatsapp_bridge::onboarding::SetupChoice;
use codex_whatsapp_bridge::onboarding::SetupKey;
use codex_whatsapp_bridge::onboarding::SetupStage;
use codex_whatsapp_bridge::onboarding::WhatsAppWidget;
use codex_whatsapp_bridge::onboarding::WorkspaceFacts;
use codex_whatsapp_bridge::openwa;
use codex_whatsapp_bridge::openwa::HttpOpenWaClient;
use codex_whatsapp_bridge::openwa::OpenWaError;
use codex_whatsapp_bridge::openwa::ProvisionStep;
use codex_whatsapp_bridge::openwa::ProvisionedSession;
use codex_whatsapp_bridge::openwa::Provisioning;
use codex_whatsapp_bridge::openwa::Registration;
use codex_whatsapp_bridge::openwa::RegistrationStep;
use codex_whatsapp_bridge::openwa::SessionSummary;
use codex_whatsapp_bridge::openwa::WebhookSummary;
use codex_whatsapp_bridge::secret::generate_webhook_secret;
use codex_whatsapp_bridge::secret::secret_of;
use codex_whatsapp_bridge::service::adopt_state;
use codex_whatsapp_bridge::service::initial_transport;
use codex_whatsapp_bridge::service::needs_code;
use codex_whatsapp_bridge::service::pairing_page;
use codex_whatsapp_bridge::service::parse_config_path;
use codex_whatsapp_bridge::service::webhook_answer;
use codex_whatsapp_bridge::service::webhook_message;
use codex_whatsapp_bridge::service::Launch;
use codex_whatsapp_bridge::service::LaunchError;
use codex_whatsapp_bridge::service::StartError;
use codex_whatsapp_bridge::setup_view::GatewayDefaults;
use codex_whatsapp_bridge::setup_view::SetupLine;
use codex_whatsapp_bridge::state::ActiveTurn;
use codex_whatsapp_bridge::state::BridgeState;
use codex_whatsapp_bridge::state::ThreadBinding;
use codex_whatsapp_bridge::transport;
use codex_whatsapp_bridge::transport::HttpTransportClient;
use codex_whatsapp_bridge::transport::TransportError;
use codex_whatsapp_bridge::transport::TransportStatus;
use codex_whatsapp_bridge::transport::MAX_TEXT_CHARS;

fn status(name: &str, account: Option<&str>) -> TransportStatus {
    TransportStatus {
        status: name.to_string(),
        account: account.map(|digits| digits.to_string()),
    }
}

fn openwa_client() -> HttpOpenWaClient {
    HttpOpenWaClient::new(
        "http://gateway/api".to_string(),
        "personal".to_string(),
        "operator-key".to_string(),
    )
}

fn openwa_request(
    method: HttpMethod,
    path: &str,
    key: &str,
    body: Option<Vec<JsonField>>,
) -> HttpRequest {
    HttpRequest {
        method,
        url: format!("http://gateway/api{path}"),
        header: "X-API-Key".to_string(),
        credential: key.to_string(),
        body,
    }
}

fn texts_of(list: &[&str]) -> Vec<String> {
    list.iter().map(|text| text.to_string()).collect()
}

#[test]
fn bridge_output_categories_default_to_off() {
    assert_eq!(
        BridgeConfigToml::default(),
        BridgeConfigToml {
            include_reasoning: false,
            include_tool_calls: false,
            include_approval_notices: false,
            include_automatic_approval_reviews: false,
        }
    );
}

#[test]
fn settings_are_loaded_or_the_reason_is_given() {
    let config = BridgeConfigToml::default();
    assert_eq!(
        BridgeConfigToml::loaded(LoadedTable::Table(config)),
        Ok(Some(config))
    );
    assert_eq!(BridgeConfigToml::loaded(LoadedTable::Absent), Ok(None));
    assert_eq!(
        BridgeConfigToml::loaded(LoadedTable::Unreadable),
        Err(BridgeConfigError::Read)
    );
    assert_eq!(
        BridgeConfigToml::loaded(LoadedTable::Malformed),
        Err(BridgeConfigError::Parse)
    );
    assert_eq!(
        WhatsAppConfigToml::loaded(LoadedTable::Unreadable),
        Err(WhatsAppConfigError::Read)
    );
    assert_eq!(
        WhatsAppConfigToml::loaded(LoadedTable::Malformed),
        Err(WhatsAppConfigError::Parse)
    );
    assert_eq!(WhatsAppConfigToml::loaded(LoadedTable::Absent), Ok(None));
    assert_eq!(default_bridge_name(), "WhatsApp");
    assert_eq!(
        WhatsAppConfigError::Write.message(),
        "failed to persist WhatsApp runtime state"
    );
}

#[test]
fn canonical_e164_derives_self_chat_jid() {
    let config = WhatsAppConfigToml {
        account_phone_number: Some("+447700900000".to_string()),
        ..Default::default()
    };

    assert_eq!(config.self_chat_jid().unwrap(), "447700900000@c.us");
    assert_eq!(canonical_e164("447700900000"), None);
    assert_eq!(canonical_e164("+0447700900000"), None);
}

#[test]
fn phone_numbers_have_eight_to_fifteen_digits() {
    assert_eq!(canonical_e164("+1234567"), None);
    assert_eq!(canonical_e164("+12345678"), Some("+12345678"));
    assert_eq!(canonical_e164("+123456789012345"), Some("+123456789012345"));
    assert_eq!(canonical_e164("+1234567890123456"), None);
    assert_eq!(canonical_e164("+44770090000x"), None);
    assert_eq!(canonical_e164("+٤٤٧٧٠٠٩٠٠٠٠٠"), None);
    assert_eq!(phone_digits("+447700900000"), "447700900000");
    let mut config = WhatsAppConfigToml::default();
    assert_eq!(config.self_chat_jid(), Err(WhatsAppConfigError::Incomplete));
    config.account_phone_number = Some("12".to_string());
    assert_eq!(
        config.self_chat_jid(),
        Err(WhatsAppConfigError::InvalidPhoneNumber)
    );
}

#[test]
fn enabled_configuration_requires_an_owner_number() {
    assert_eq!(WhatsAppConfigToml::default().validate(), Ok(()));
    assert!(!WhatsAppConfigToml::default().is_complete());
    assert_eq!(
        WhatsAppConfigToml {
            onboarding_complete: true,
            enabled: true,
            ..Default::default()
        }
        .validate(),
        Err(WhatsAppConfigError::Incomplete)
    );
}

#[test]
fn redacted_user_configuration_preserves_the_owner_setting() {
    let config = WhatsAppConfigToml {
        onboarding_complete: true,
        enabled: true,
        account_phone_number: Some("+447700900000".to_string()),
    };

    assert_eq!(config.redacted(), config);
    assert!(config.is_complete());
}

#[test]
fn runtime_state_lies_under_the_home_directory() {
    assert_eq!(
        whatsapp_runtime_path("/home/codex"),
        "/home/codex/whatsapp/runtime.json"
    );
}

#[test]
fn arguments_choose_what_is_launched() {
    assert_eq!(
        parse_config_path(&Vec::new()),
        Ok(Launch::Serve("/codex-home/config.toml".to_string()))
    );
    assert_eq!(
        parse_config_path(&texts_of(&["--config", "/etc/codex.toml"])),
        Ok(Launch::Serve("/etc/codex.toml".to_string()))
    );
    assert_eq!(
        parse_config_path(&texts_of(&["--config"])),
        Err(LaunchError::MissingPath)
    );
    assert_eq!(
        parse_config_path(&texts_of(&["--healthcheck"])),
        Ok(Launch::HealthCheck)
    );
    assert_eq!(
        parse_config_path(&texts_of(&["--healthcheck", "now"])),
        Err(LaunchError::Usage)
    );
    assert_eq!(
        LaunchError::MissingPath.message(),
        "--config requires a path"
    );
}

#[test]
fn a_kept_state_has_to_belong_to_the_account() {
    let mut state = BridgeState::empty();
    assert_eq!(adopt_state(&mut state, "chat"), Ok(false));
    state.binding = Some(ThreadBinding {
        self_chat_id: "chat".to_string(),
        codex_thread_id: "thread-1".to_string(),
    });
    state.active_turn = Some(ActiveTurn {
        inbound_message_id: "message-1".to_string(),
        thread_id: String::new(),
        codex_turn_id: "turn-1".to_string(),
        legacy_working_output_message_id: None,
        attachment_paths: Vec::new(),
    });
    assert_eq!(
        adopt_state(&mut state, "other"),
        Err(StartError::OtherBinding)
    );
    assert_eq!(adopt_state(&mut state, "chat"), Ok(true));
    assert_eq!(state.active_turn.as_ref().unwrap().thread_id, "thread-1");
    assert_eq!(adopt_state(&mut state, "chat"), Ok(false));
}

#[test]
fn a_ready_transport_has_to_be_linked_to_the_account() {
    let phone = "447700900000";
    assert_eq!(
        initial_transport(&Some(status("READY", Some("+44 7700 900000"))), phone),
        Ok(true)
    );
    assert_eq!(
        initial_transport(&Some(status("ready", Some("1"))), phone),
        Err(StartError::OtherAccount)
    );
    assert_eq!(
        initial_transport(&Some(status("pairing", Some("1"))), phone),
        Ok(false)
    );
    assert_eq!(initial_transport(&None, phone), Ok(false));
}

#[test]
fn the_pairing_page_follows_the_gateway() {
    let ready = Some(status("ready", None));
    assert!(!needs_code(&ready));
    assert!(pairing_page("WhatsApp", &ready, &None).contains(
        "Pairing complete. WhatsApp Codex is connected. You may now close this page."
    ));
    let waiting = Some(status("qr", None));
    assert!(needs_code(&waiting));
    let page = pairing_page(
        "WhatsApp",
        &waiting,
        &Some(Some("data:image/png;base64,AA==".to_string())),
    );
    assert!(page.contains("<img src=\"data:image/png;base64,AA==\""));
    assert!(page.contains("content=\"20\""));
    assert_eq!(
        pairing_page("WhatsApp", &waiting, &Some(None)),
        "<!doctype html><meta http-equiv=\"refresh\" content=\"5\"><title>Preparing WhatsApp</title><h1>Preparing WhatsApp</h1><p>The gateway is qr. This page will refresh automatically.</p>"
    );
    assert!(pairing_page("WhatsApp", &None, &None).contains("WhatsApp is starting"));
    assert!(pairing_page("WhatsApp", &waiting, &None).contains("WhatsApp is starting"));
}

#[test]
fn webhooks_are_answered_by_what_became_of_them() {
    assert_eq!(webhook_message(false, None), Err(401));
    assert_eq!(webhook_message(true, None), Err(204));
    assert_eq!(webhook_answer(Some(true)), 202);
    assert_eq!(webhook_answer(Some(false)), 503);
    assert_eq!(webhook_answer(None), 503);
}

#[test]
fn http_adapter_matches_gateway_contract() {
    let client = HttpTransportClient::new("http://gateway/".to_string(), "test-token".to_string());
    assert_eq!(client.capabilities().message_limit, MAX_TEXT_CHARS);
    assert!(client.capabilities().edit_support);
    let request = |method: HttpMethod, path: &str, body: Option<Vec<JsonField>>| HttpRequest {
        method,
        url: format!("http://gateway{path}"),
        header: "Authorization".to_string(),
        credential: "Bearer test-token".to_string(),
        body,
    };
    assert_eq!(
        client.status_request(),
        request(HttpMethod::Get, "/v1/status", None)
    );
    assert_eq!(
        transport::provider_status(transport::read_reply(
            Some(200),
            Some(status("ready", Some("447700900000")))
        )),
        Ok(ProviderStatus {
            ready: true,
            account: Some("447700900000".to_string()),
        })
    );
    assert_eq!(
        client.send_request("447700900000@c.us", "hello"),
        Ok(request(
            HttpMethod::Post,
            "/v1/messages",
            Some(vec![
                JsonField::text("chatId", "447700900000@c.us"),
                JsonField::text("text", "hello"),
            ])
        ))
    );
    assert_eq!(
        transport::read_reply(Some(200), Some("message-1".to_string())),
        Ok("message-1".to_string())
    );
    assert_eq!(
        client.edit_request("447700900000@c.us", "message-1", "updated"),
        Ok(request(
            HttpMethod::Post,
            "/v1/messages/edit",
            Some(vec![
                JsonField::text("chatId", "447700900000@c.us"),
                JsonField::text("messageId", "message-1"),
                JsonField::text("text", "updated"),
            ])
        ))
    );
    assert_eq!(
        client.pairing_request(),
        request(HttpMethod::Get, "/v1/pairing", None)
    );
}

#[test]
fn errors_of_the_transport_are_told_apart() {
    let client = HttpTransportClient::new("http://gateway".to_string(), "t".to_string());
    assert_eq!(
        client.send_request("chat", &"x".repeat(4_097)),
        Err(TransportError::TextTooLong)
    );
    assert!(client.send_request("chat", &"🙂".repeat(4_096)).is_ok());
    assert_eq!(
        client.edit_request("chat", "m", &"x".repeat(4_097)),
        Err(TransportError::TextTooLong)
    );
    for (code, error) in [
        (401, TransportError::Unauthorized),
        (403, TransportError::Unauthorized),
        (409, TransportError::Unavailable),
        (503, TransportError::Unavailable),
        (404, TransportError::InvalidResponse),
        (500, TransportError::InvalidResponse),
    ] {
        assert_eq!(transport::ensure_success(code), Err(error));
    }
    assert_eq!(transport::ensure_success(204), Ok(()));
    assert_eq!(
        transport::read_reply::<String>(None, None),
        Err(TransportError::Transport)
    );
    assert_eq!(
        transport::read_reply::<String>(Some(200), None),
        Err(TransportError::InvalidResponse)
    );
    assert_eq!(
        transport::provider_error(TransportError::TextTooLong),
        ProviderError::Transport
    );
    assert_eq!(
        transport::provider_error(TransportError::Unavailable),
        ProviderError::Unavailable
    );
    assert_eq!(
        TransportError::Unavailable.message(),
        "remote transport is unavailable"
    );
}

#[test]
fn provisions_with_a_valid_name_and_uses_the_returned_session_id() {
    let id = "4ba3b15b-7966-41db-9ac7-25b1827acb75";
    let mut provisioning = Provisioning::new(
        "http://gateway/api/",
        "codex-token_with-symbols",
        "administrator-key",
    );
    assert_eq!(
        provisioning.request(),
        Some(openwa_request(
            HttpMethod::Get,
            "/sessions",
            "administrator-key",
            None
        ))
    );
    provisioning.on_listed(Some(200), Some(Vec::new()));
    assert_eq!(
        provisioning.request(),
        Some(openwa_request(
            HttpMethod::Post,
            "/sessions",
            "administrator-key",
            Some(vec![JsonField::text("name", "codex-token-with-symbols")])
        ))
    );
    provisioning.on_created(
        Some(201),
        Some(SessionSummary {
            id: id.to_string(),
            name: "codex-token-with-symbols".to_string(),
            status: "created".to_string(),
        }),
    );
    assert_eq!(
        provisioning.request(),
        Some(openwa_request(
            HttpMethod::Post,
            "/sessions/4ba3b15b-7966-41db-9ac7-25b1827acb75/start",
            "administrator-key",
            None
        ))
    );
    provisioning.on_started(Some(202));
    assert_eq!(
        provisioning.request(),
        Some(openwa_request(
            HttpMethod::Post,
            "/auth/api-keys",
            "administrator-key",
            Some(vec![
                JsonField::text("name", "WhatsApp Codex bridge"),
                JsonField::text("role", "operator"),
                JsonField::texts("allowedSessions", vec![id.to_string()]),
            ])
        ))
    );
    provisioning.on_key_issued(Some(201), Some("session-operator-key".to_string()));
    assert_eq!(provisioning.request(), None);
    assert_eq!(
        provisioning.step,
        ProvisionStep::Done(ProvisionedSession {
            session_id: id.to_string(),
            api_key: "session-operator-key".to_string(),
        })
    );
}

#[test]
fn reuses_an_existing_started_session() {
    let id = "4ba3b15b-7966-41db-9ac7-25b1827acb75";
    let mut provisioning = Provisioning::new(
        "http://gateway/api",
        "codex-existing-session",
        "administrator-key",
    );
    provisioning.on_listed(
        Some(200),
        Some(vec![SessionSummary {
            id: id.to_string(),
            name: "codex-existing-session".to_string(),
            status: "qr_ready".to_string(),
        }]),
    );
    assert_eq!(
        provisioning.step,
        ProvisionStep::IssuingKey {
            session_id: id.to_string()
        }
    );
    provisioning.on_key_issued(Some(201), Some("session-operator-key".to_string()));
    assert_eq!(
        provisioning.step,
        ProvisionStep::Done(ProvisionedSession {
            session_id: id.to_string(),
            api_key: "session-operator-key".to_string(),
        })
    );
}

#[test]
fn provisioning_stops_at_the_first_error() {
    let mut provisioning = Provisioning::new("http://gateway/api", "name", "key");
    provisioning.on_listed(Some(401), None);
    assert_eq!(
        provisioning.step,
        ProvisionStep::Failed(OpenWaError::Unauthorized)
    );
    assert_eq!(provisioning.request(), None);

    let mut provisioning = Provisioning::new("http://gateway/api", "name", "key");
    provisioning.on_listed(Some(200), Some(Vec::new()));
    provisioning.on_created(Some(409), None);
    assert_eq!(
        provisioning.step,
        ProvisionStep::Starting {
            session_id: "name".to_string()
        }
    );
    provisioning.on_started(Some(409));
    provisioning.on_key_issued(None, None);
    assert_eq!(
        provisioning.step,
        ProvisionStep::Failed(OpenWaError::Transport)
    );
}

#[test]
fn sends_text_with_the_api_key_and_reads_message_id() {
    assert_eq!(
        openwa_client().send_text("447700900000@c.us", "hello"),
        Ok(openwa_request(
            HttpMethod::Post,
            "/sessions/personal/messages/send-text",
            "operator-key",
            Some(vec![
                JsonField::text("chatId", "447700900000@c.us"),
                JsonField::text("text", "hello"),
            ])
        ))
    );
    assert_eq!(
        openwa::read_reply(Some(201), Some("wa-1".to_string())),
        Ok("wa-1".to_string())
    );
}

#[test]
fn resolves_a_lid_to_its_phone_number() {
    assert_eq!(
        openwa_client().resolve_phone("172662718488742@lid"),
        openwa_request(
            HttpMethod::Get,
            "/sessions/personal/contacts/172662718488742@lid/phone",
            "operator-key",
            None
        )
    );
    assert_eq!(
        openwa::read_reply(Some(200), Some(Some("447700900000".to_string()))),
        Ok(Some("447700900000".to_string()))
    );
}

#[test]
fn edits_text_using_the_documented_request_shape() {
    assert_eq!(
        openwa_client().edit_text("447700900000@c.us", "wa-1", "final"),
        Ok(openwa_request(
            HttpMethod::Post,
            "/sessions/personal/messages/edit",
            "operator-key",
            Some(vec![
                JsonField::text("chatId", "447700900000@c.us"),
                JsonField::text("messageId", "wa-1"),
                JsonField::text("body", "final"),
            ])
        ))
    );
    assert_eq!(openwa::ensure_success(204), Ok(()));
}

#[test]
fn updates_an_existing_webhook_instead_of_creating_duplicates() {
    let webhook_url = "http://bridge/webhooks/openwa";
    assert_eq!(
        openwa_client().list_webhooks(),
        openwa_request(
            HttpMethod::Get,
            "/sessions/personal/webhooks",
            "operator-key",
            None
        )
    );
    let body = || {
        Some(vec![
            JsonField::text("url", webhook_url),
            JsonField::texts(
                "events",
                texts_of(&["message.received", "message.sent", "session.status"]),
            ),
            JsonField::text("secret", "signing-secret"),
        ])
    };
    assert_eq!(
        openwa_client().register_webhook(
            &vec![WebhookSummary {
                id: "webhook-1".to_string(),
                url: webhook_url.to_string(),
            }],
            webhook_url,
            "signing-secret"
        ),
        openwa_request(
            HttpMethod::Put,
            "/sessions/personal/webhooks/webhook-1",
            "operator-key",
            body()
        )
    );
    assert_eq!(
        openwa_client().register_webhook(&Vec::new(), webhook_url, "signing-secret"),
        openwa_request(
            HttpMethod::Post,
            "/sessions/personal/webhooks",
            "operator-key",
            body()
        )
    );
}

#[test]
fn maps_auth_rate_limit_server_and_malformed_responses() {
    for (status, expected) in [
        (401, OpenWaError::Unauthorized),
        (429, OpenWaError::RateLimited),
        (500, OpenWaError::Server),
    ] {
        assert_eq!(
            openwa::read_reply::<String>(Some(status), None),
            Err(expected)
        );
    }
    assert_eq!(
        openwa::read_reply::<String>(Some(201), None),
        Err(OpenWaError::InvalidResponse)
    );
    assert_eq!(
        openwa::ensure_success(404),
        Err(OpenWaError::InvalidResponse)
    );
    assert_eq!(
        openwa_client().send_text("chat", &"x".repeat(4_097)),
        Err(OpenWaError::TextTooLong)
    );
}

#[test]
fn times_out_slow_requests() {
    assert_eq!(
        openwa::read_reply::<String>(None, None),
        Err(OpenWaError::Transport)
    );
    assert_eq!(openwa::retry_delay(None, 0), None);
}

#[test]
fn requests_are_repeated_with_growing_pauses() {
    assert_eq!(openwa::retry_delay(Some(429), 0), Some(250));
    assert_eq!(openwa::retry_delay(Some(503), 1), Some(500));
    assert_eq!(openwa::retry_delay(Some(503), 2), None);
    assert_eq!(openwa::retry_delay(Some(401), 0), None);
    assert_eq!(openwa::retry_delay(Some(200), 0), None);
}

#[test]
fn secrets_are_url_safe() {
    let mut bytes = [0_u8; 32];
    assert_eq!(secret_of(&bytes), "A".repeat(43));
    bytes[0] = 0xfb;
    bytes[1] = 0xff;
    assert_eq!(secret_of(&bytes), format!("-_8{}", "A".repeat(40)));
    let secret = generate_webhook_secret();
    assert_eq!(secret.len(), 43);
    assert_ne!(secret, generate_webhook_secret());
}

fn defaults() -> GatewayDefaults {
    GatewayDefaults {
        api_base_url: "http://openwa/api".to_string(),
        webhook_url: "http://bridge/webhooks".to_string(),
        app_server_endpoint: "unix:///run/codex.sock".to_string(),
        state_path: "/state.json".to_string(),
        max_queued_prompts: 20,
        output_chunk_chars: 3_500,
    }
}

/// What the step shows, as plain text.
fn render(widget: &WhatsAppWidget) -> String {
    widget
        .render(&defaults())
        .iter()
        .map(|line| match line {
            SetupLine::Text(spans) => spans.iter().map(|span| span.text.as_str()).collect(),
            SetupLine::Paragraph(span) => format!("  {}", span.text),
            SetupLine::Framed(text) => format!("  [{text}]"),
            SetupLine::Choice {
                index,
                label,
                highlighted,
            } => format!(
                "{} {}. {label}",
                if *highlighted { ">" } else { " " },
                index + 1
            ),
        })
        .collect::<Vec<String>>()
        .join("\n")
}

fn all_well() -> GatewayFacts {
    GatewayFacts {
        docker_cli: true,
        docker_daemon: true,
        compose: true,
        codex_home_writable: true,
        workspace_is_dir: true,
    }
}

fn existing() -> WorkspaceFacts {
    WorkspaceFacts {
        is_absolute: true,
        is_directory: true,
    }
}

fn new_widget() -> WhatsAppWidget {
    WhatsAppWidget::new("/home/codex/project".to_string(), None)
}

#[test]
fn renders_setup_choice() {
    assert_eq!(
        render(&new_widget()),
        "> WhatsApp remote access\n\n  Connect one private WhatsApp self-chat to this workspace through your self-hosted OpenWA service.\n\n> 1. Configure WhatsApp\n  2. Not now\n\n  Press Enter to continue"
    );
}

#[test]
fn renders_validation_error() {
    let mut widget = new_widget();
    assert_eq!(
        widget.handle_key_event(SetupKey::Confirm, existing()),
        SetupAction::RunPreflight
    );
    widget.on_preflight(all_well());
    assert_eq!(
        widget.handle_key_event(SetupKey::Confirm, existing()),
        SetupAction::RunPreflight
    );
    widget.on_preflight(all_well());
    assert_eq!(widget.stage, SetupStage::Field(0));
    widget.handle_key_event(SetupKey::Confirm, existing());
    assert!(render(&widget).contains("Enter a canonical E.164 number such as +447700900000."));
    assert!(widget.is_text_entry_active());
}

#[test]
fn failed_checks_keep_the_step_from_going_on() {
    let mut widget = new_widget();
    let mut facts = all_well();
    facts.docker_cli = false;
    widget.handle_key_event(SetupKey::Confirm, existing());
    widget.on_preflight(facts);
    assert_eq!(widget.stage, SetupStage::Preflight);
    assert!(render(&widget).contains("Docker Compose: needs attention — Docker Compose v2 is required"));
    widget.handle_key_event(SetupKey::Confirm, existing());
    widget.on_preflight(facts);
    assert_eq!(widget.stage, SetupStage::Preflight);
    assert!(widget.error.is_some());
    widget.handle_key_event(SetupKey::Cancel, existing());
    assert_eq!(widget.stage, SetupStage::Choice);
    assert_eq!(widget.error, None);
}

#[test]
fn fields_are_entered_one_after_another() {
    let mut widget = new_widget();
    widget.stage = SetupStage::Field(0);
    widget.handle_paste("  +44770090000x ".to_string());
    widget.handle_key_event(SetupKey::Backspace, existing());
    widget.handle_key_event(SetupKey::Char('0', true), existing());
    widget.handle_key_event(SetupKey::Char('0', false), existing());
    assert_eq!(widget.phone_number, "+447700900000");
    widget.handle_key_event(SetupKey::Confirm, existing());
    assert_eq!(widget.stage, SetupStage::Field(1));
    for (is_absolute, is_directory) in [(true, false), (false, true), (false, false)] {
        widget.handle_key_event(
            SetupKey::Confirm,
            WorkspaceFacts {
                is_absolute,
                is_directory,
            },
        );
        assert_eq!(widget.stage, SetupStage::Field(1));
        assert_eq!(
            widget.error.as_deref(),
            Some("Workspace must be an absolute existing directory.")
        );
    }
    widget.handle_key_event(SetupKey::Confirm, existing());
    widget.handle_key_event(SetupKey::Confirm, existing());
    assert_eq!(widget.error.as_deref(), Some("Session ID cannot be empty."));
    widget.handle_paste("personal".to_string());
    widget.handle_key_event(SetupKey::Confirm, existing());
    widget.handle_key_event(SetupKey::Confirm, existing());
    assert_eq!(widget.error.as_deref(), Some("API key cannot be empty."));
    widget.handle_paste("operator-secret".to_string());
    assert!(render(&widget).contains(&"•".repeat(15)));
    widget.handle_key_event(SetupKey::Confirm, existing());
    assert_eq!(widget.stage, SetupStage::Review);
    widget.handle_key_event(SetupKey::Confirm, existing());
    let setup = widget.take_save_request().unwrap();
    assert!(setup.enabled);
    assert_eq!(
        setup.openwa.unwrap().api_key.as_deref(),
        Some("operator-secret")
    );
    widget.mark_save_failed("disk full".to_string());
    assert_eq!(widget.stage, SetupStage::Review);
    assert!(render(&widget).contains("disk full"));
}

#[test]
fn renders_redacted_review() {
    let mut widget = new_widget();
    widget.phone_number = "+447700900000".to_string();
    widget.session_id = "personal".to_string();
    widget.api_key = "operator-secret".to_string();
    widget.stage = SetupStage::Review;
    let rendered = render(&widget);
    assert!(!rendered.contains("operator-secret"));
    assert!(rendered.contains("  Account: +447700900000"));
    assert!(rendered.contains("  Queue/output: 20 prompts, 3500 chars per part"));
}

#[test]
fn renders_saved_state() {
    let mut widget = new_widget();
    widget.mark_saved();
    assert!(widget.is_complete());
    assert_eq!(
        render(&widget),
        "> WhatsApp remote access\n\n  WhatsApp configuration saved."
    );
}

#[test]
fn renders_skipped_state_and_persists_opt_out() {
    let mut widget = new_widget();
    widget.highlighted = SetupChoice::NotNow;
    widget.handle_key_event(SetupKey::Confirm, existing());
    let config = widget.take_save_request().unwrap();
    assert_eq!(config.onboarding_complete, true);
    assert_eq!(config.enabled, false);
    widget.mark_saved();
    assert!(render(&widget).contains("WhatsApp setup skipped."));
}

#[test]
fn legacy_runtime_delivery_knobs_are_read_but_not_written() {
    let runtime = WhatsAppRuntimeConfig {
        bridge_name: "WhatsApp".to_string(),
        transport_base_url: "http://gateway".to_string(),
        transport_api_token: "token".to_string(),
        webhook_signing_secret: "secret".to_string(),
        webhook_url: "http://bridge/webhook".to_string(),
        bridge_listen: "127.0.0.1:8787".to_string(),
        state_path: "/tmp/state.json".to_string(),
        max_queued_prompts: 20,
        output_chunk_chars: 3500,
        edit_interval_ms: 1500,
        dedupe_capacity: 100,
        dedupe_ttl_hours: 24,
    };

    assert_eq!(runtime.output_chunk_chars, 3500);
    assert_eq!(runtime.edit_interval_ms, 1500);
    let written = runtime.persisted();
    assert_eq!(
        written,
        WhatsAppRuntimeConfig {
            output_chunk_chars: 0,
            edit_interval_ms: 0,
            ..runtime
        }
    );
}

#[test]
fn a_webhook_is_listed_then_registered() {
    let url = "http://bridge/webhooks/openwa";
    let mut registration = Registration::new(openwa_client(), url, "signing-secret");
    assert_eq!(
        registration.request(),
        Some(openwa_client().list_webhooks())
    );
    registration.on_listed(
        Some(200),
        Some(vec![WebhookSummary {
            id: "webhook-1".to_string(),
            url: url.to_string(),
        }]),
    );
    let request = registration.request().unwrap();
    assert_eq!(request.method, HttpMethod::Put);
    assert!(request.url.ends_with("/sessions/personal/webhooks/webhook-1"));
    registration.on_registered(Some(200));
    assert_eq!(registration.step, RegistrationStep::Done);
    assert_eq!(registration.request(), None);
}

#[test]
fn a_busy_gateway_is_asked_again_from_the_start() {
    let mut registration = Registration::new(openwa_client(), "http://bridge", "secret");
    registration.on_listed(Some(429), None);
    assert_eq!(
        registration.step,
        RegistrationStep::Pausing { pause_ms: 250 }
    );
    assert_eq!(registration.request(), None);
    registration.on_paused();
    registration.on_listed(Some(200), Some(Vec::new()));
    assert_eq!(registration.request().unwrap().method, HttpMethod::Post);
    registration.on_registered(Some(503));
    assert_eq!(
        registration.step,
        RegistrationStep::Pausing { pause_ms: 500 }
    );
    registration.on_paused();
    assert_eq!(registration.step, RegistrationStep::Listing);
    assert_eq!(registration.attempt, 2);
    registration.on_listed(Some(503), None);
    assert_eq!(
        registration.step,
        RegistrationStep::Failed(OpenWaError::Server)
    );
}

#[test]
fn a_registration_ends_where_the_gateway_refuses_it() {
    for (status, webhooks, expected) in [
        (None, None, OpenWaError::Transport),
        (Some(200), None, OpenWaError::InvalidResponse),
        (Some(401), None, OpenWaError::Unauthorized),
    ] {
        let mut registration = Registration::new(openwa_client(), "http://bridge", "secret");
        registration.on_listed(status, webhooks);
        assert_eq!(registration.step, RegistrationStep::Failed(expected));
    }
    let mut registration = Registration::new(openwa_client(), "http://bridge", "secret");
    registration.on_listed(Some(200), Some(Vec::new()));
    registration.on_registered(None);
    assert_eq!(
        registration.step,
        RegistrationStep::Failed(OpenWaError::Transport)
    );
}
