//! The projection of notifications into a transcript.

use codex_whatsapp_bridge::protocol::AgentMessageDeltaNotification;
use codex_whatsapp_bridge::protocol::CommandExecutionOutputDeltaNotification;
use codex_whatsapp_bridge::protocol::CommandExecutionStatus;
use codex_whatsapp_bridge::protocol::ConfigWarningNotification;
use codex_whatsapp_bridge::protocol::ErrorNotification;
use codex_whatsapp_bridge::protocol::GuardianWarningNotification;
use codex_whatsapp_bridge::protocol::ItemCompletedNotification;
use codex_whatsapp_bridge::protocol::ItemStartedNotification;
use codex_whatsapp_bridge::protocol::MessagePhase;
use codex_whatsapp_bridge::protocol::PatchApplyStatus;
use codex_whatsapp_bridge::protocol::ReasoningSummaryTextDeltaNotification;
use codex_whatsapp_bridge::protocol::RequestId;
use codex_whatsapp_bridge::protocol::ServerNotification;
use codex_whatsapp_bridge::protocol::ThreadClosedNotification;
use codex_whatsapp_bridge::protocol::ThreadItem;
use codex_whatsapp_bridge::protocol::ToolRequestUserInputOption;
use codex_whatsapp_bridge::protocol::ToolRequestUserInputParams;
use codex_whatsapp_bridge::protocol::ToolRequestUserInputQuestion;
use codex_whatsapp_bridge::protocol::Turn;
use codex_whatsapp_bridge::protocol::TurnCompletedNotification;
use codex_whatsapp_bridge::protocol::TurnError;
use codex_whatsapp_bridge::protocol::TurnStatus;
use codex_whatsapp_bridge::transcript::ProjectionEvent;
use codex_whatsapp_bridge::transcript::TranscriptKey;
use codex_whatsapp_bridge::transcript::TranscriptProjectionOptions;
use codex_whatsapp_bridge::transcript::TranscriptProjector;

fn delta(item_id: &str, text: &str) -> ServerNotification {
    ServerNotification::AgentMessageDelta(AgentMessageDeltaNotification {
        thread_id: "thread-1".to_owned(),
        turn_id: "turn-1".to_owned(),
        item_id: item_id.to_owned(),
        delta: text.to_owned(),
    })
}

fn message(id: &str, text: &str, phase: MessagePhase) -> ThreadItem {
    ThreadItem::AgentMessage {
        id: id.to_owned(),
        text: text.to_owned(),
        phase: Some(phase),
        memory_citation: None,
    }
}

fn completed(item: ThreadItem) -> ServerNotification {
    ServerNotification::ItemCompleted(ItemCompletedNotification {
        thread_id: "thread-1".to_owned(),
        turn_id: "turn-1".to_owned(),
        item,
        completed_at_ms: 1,
    })
}

fn item_ids(projector: &TranscriptProjector) -> Vec<&str> {
    projector
        .entries()
        .iter()
        .map(|entry| entry.key.item_id.as_str())
        .collect::<Vec<_>>()
}

#[test]
fn assistant_items_are_keyed_and_commentary_is_preserved() {
    let mut projector = TranscriptProjector::default();

    let events = projector.apply(&delta("commentary", "thinking aloud"));
    assert!(matches!(events.as_slice(), [ProjectionEvent::Entry(_)]));

    let events = projector.apply(&delta("final", "answer"));
    assert!(matches!(events.as_slice(), [ProjectionEvent::Entry(_)]));

    assert_eq!(item_ids(&projector), vec!["commentary", "final"]);
}

#[test]
fn completed_item_replaces_partial_text_and_commits_it() {
    let mut projector = TranscriptProjector::default();
    projector.apply(&delta("item-1", "partial"));

    let events = projector.apply(&completed(message(
        "item-1",
        "authoritative",
        MessagePhase::Commentary,
    )));

    let [ProjectionEvent::Entry(entry)] = events.as_slice() else {
        panic!("expected one committed entry");
    };
    assert_eq!(
        entry.item,
        message("item-1", "authoritative", MessagePhase::Commentary)
    );
    assert!(entry.committed);

    assert!(projector.apply(&delta("item-1", " stale")).is_empty());
}

#[test]
fn canonical_ids_make_reconciliation_idempotent_and_distinct() {
    let mut projector = TranscriptProjector::default();
    let first = message("msg-1", "same text", MessagePhase::FinalAnswer);
    let events = projector.apply(&completed(first.clone()));
    assert!(matches!(events.as_slice(), [ProjectionEvent::Entry(_)]));
    assert!(projector
        .reconcile_items("thread-1", "turn-1", &vec![first])
        .is_empty());

    let revised = message("msg-1", "revised text", MessagePhase::FinalAnswer);
    let events = projector.reconcile_items("thread-1", "turn-1", &vec![revised.clone()]);
    assert!(matches!(events.as_slice(), [ProjectionEvent::Entry(_)]));

    let second = message("msg-2", "revised text", MessagePhase::FinalAnswer);
    let events = projector.reconcile_items("thread-1", "turn-1", &vec![revised, second]);
    assert!(matches!(events.as_slice(), [ProjectionEvent::Entry(_)]));
    assert_eq!(item_ids(&projector), vec!["msg-1", "msg-2"]);
}

#[test]
fn late_item_start_does_not_erase_streamed_content() {
    let mut projector = TranscriptProjector::default();
    projector.apply(&delta("item-1", "already streamed"));

    let events = projector.apply(&ServerNotification::ItemStarted(ItemStartedNotification {
        thread_id: "thread-1".to_owned(),
        turn_id: "turn-1".to_owned(),
        started_at_ms: 1,
        item: message("item-1", "", MessagePhase::Commentary),
    }));
    let [ProjectionEvent::Entry(entry)] = events.as_slice() else {
        panic!("expected the partial item to be retained");
    };
    assert_eq!(entry.plain_text().as_deref(), Some("already streamed"));
}

#[test]
fn retryable_errors_and_internal_lifecycle_are_suppressed() {
    let mut projector = TranscriptProjector::default();
    let retryable = projector.apply(&ServerNotification::Error(ErrorNotification {
        error: TurnError {
            message: "temporary".to_owned(),
        },
        will_retry: true,
        thread_id: "thread-1".to_owned(),
        turn_id: "turn-1".to_owned(),
    }));
    assert_eq!(retryable, vec![ProjectionEvent::Suppressed]);

    let lifecycle = projector.apply(&ServerNotification::ThreadClosed(ThreadClosedNotification {
        thread_id: "thread-1".to_owned(),
    }));
    assert_eq!(lifecycle, vec![ProjectionEvent::Suppressed]);
}

#[test]
fn reasoning_is_allowlisted_but_disabled_by_default() {
    let notification =
        ServerNotification::ReasoningSummaryTextDelta(ReasoningSummaryTextDeltaNotification {
            thread_id: "thread-1".to_owned(),
            turn_id: "turn-1".to_owned(),
            item_id: "reasoning-1".to_owned(),
            delta: "summary".to_owned(),
            summary_index: 0,
        });
    assert_eq!(
        TranscriptProjector::default().apply(&notification),
        vec![ProjectionEvent::Suppressed]
    );

    let mut projector = TranscriptProjector::new(TranscriptProjectionOptions {
        include_reasoning: true,
        include_tool_calls: false,
        include_automatic_approval_reviews: false,
    });
    let events = projector.apply(&notification);
    assert!(matches!(events.as_slice(), [ProjectionEvent::Entry(_)]));
    assert_eq!(
        projector.entries()[0].plain_text().as_deref(),
        Some("summary")
    );
}

#[test]
fn tool_calls_are_allowlisted_but_disabled_by_default() {
    let tool_call = ThreadItem::FileChange {
        id: "file-change-1".to_owned(),
        changes: Vec::new(),
        status: PatchApplyStatus::InProgress,
    };
    assert!(TranscriptProjector::default()
        .reconcile_items("thread-1", "turn-1", &vec![tool_call.clone()])
        .is_empty());

    let mut projector = TranscriptProjector::new(TranscriptProjectionOptions {
        include_reasoning: false,
        include_tool_calls: true,
        include_automatic_approval_reviews: false,
    });
    let events = projector.reconcile_items("thread-1", "turn-1", &vec![tool_call]);
    assert!(matches!(events.as_slice(), [ProjectionEvent::Entry(_)]));
    assert_eq!(
        projector.entries()[0].plain_text().as_deref(),
        Some("file changes: InProgress · 0 changes")
    );
}

#[test]
fn automatic_approval_reviews_are_allowlisted_but_disabled_by_default() {
    let notification = ServerNotification::GuardianWarning(GuardianWarningNotification {
        thread_id: "thread-1".to_owned(),
        message: "Automatic approval review approved the requested action.".to_owned(),
    });
    assert_eq!(
        TranscriptProjector::default().apply(&notification),
        vec![ProjectionEvent::Suppressed]
    );

    let mut projector = TranscriptProjector::new(TranscriptProjectionOptions {
        include_reasoning: false,
        include_tool_calls: false,
        include_automatic_approval_reviews: true,
    });
    let events = projector.apply(&notification);
    assert!(matches!(events.as_slice(), [ProjectionEvent::Notice(_)]));
    assert_eq!(
        match &events[0] {
            ProjectionEvent::Notice(notice) => notice.text.as_str(),
            _ => unreachable!(),
        },
        "Automatic approval review approved the requested action."
    );
}

#[test]
fn terminal_turn_error_is_not_projected_twice() {
    let mut projector = TranscriptProjector::default();
    let error = TurnError {
        message: "turn failed".to_owned(),
    };
    let first = projector.apply(&ServerNotification::Error(ErrorNotification {
        error: error.clone(),
        will_retry: false,
        thread_id: "thread-1".to_owned(),
        turn_id: "turn-1".to_owned(),
    }));
    assert!(matches!(first.as_slice(), [ProjectionEvent::Notice(_)]));

    let second = projector.apply(&ServerNotification::TurnCompleted(
        TurnCompletedNotification {
            thread_id: "thread-1".to_owned(),
            turn: Turn {
                id: "turn-1".to_owned(),
                items: Vec::new(),
                status: TurnStatus::Failed,
                error: Some(error),
            },
        },
    ));
    assert!(second.is_empty());

    let replay = projector.record_turn_error("thread-1", "turn-1", "turn failed");
    assert!(replay.is_none());
}

#[test]
fn user_input_requests_use_a_shared_semantic_presentation() {
    let mut projector = TranscriptProjector::default();
    let event = projector.apply_user_input_request(
        &RequestId::String("request-1".to_owned()),
        &ToolRequestUserInputParams {
            thread_id: "thread-1".to_owned(),
            turn_id: "turn-1".to_owned(),
            item_id: "item-1".to_owned(),
            questions: vec![ToolRequestUserInputQuestion {
                id: "mode".to_owned(),
                header: "Mode".to_owned(),
                question: "Which mode?".to_owned(),
                is_other: true,
                is_secret: false,
                options: Some(vec![ToolRequestUserInputOption {
                    label: "Fast".to_owned(),
                    description: "Use the fast mode".to_owned(),
                }]),
            }],
            auto_resolution_ms: None,
        },
    );

    let ProjectionEvent::Request(presentation) = event else {
        panic!("expected a shared request presentation");
    };
    assert_eq!(presentation.request_id, "request-1");
    assert_eq!(
        presentation.key,
        TranscriptKey::new("thread-1", "turn-1", "item-1")
    );
    assert_eq!(presentation.questions[0].id, "mode");
    assert_eq!(
        presentation.questions[0].options.as_ref().unwrap()[0].label,
        "Fast"
    );
}

#[test]
fn deltas_are_appended_and_revisions_grow() {
    let mut projector = TranscriptProjector::default();
    projector.apply(&delta("item-1", "one "));
    projector.apply(&delta("item-1", "two"));
    assert_eq!(projector.entries().len(), 1);
    assert_eq!(
        projector.entries()[0].plain_text().as_deref(),
        Some("one two")
    );
    let first = projector.entries()[0].revision;
    projector.apply(&delta("item-1", "!"));
    assert!(projector.entries()[0].revision > first);
}

#[test]
fn reconciling_twice_says_nothing_new() {
    let items = vec![
        message("a", "one", MessagePhase::Commentary),
        message("b", "two", MessagePhase::FinalAnswer),
    ];
    let mut projector = TranscriptProjector::default();
    assert_eq!(
        projector.reconcile_items("thread-1", "turn-1", &items).len(),
        2
    );
    assert!(projector
        .reconcile_items("thread-1", "turn-1", &items)
        .is_empty());
}

#[test]
fn command_output_is_collected_where_tools_are_shown() {
    let mut projector = TranscriptProjector::new(TranscriptProjectionOptions {
        include_reasoning: false,
        include_tool_calls: true,
        include_automatic_approval_reviews: false,
    });
    projector.apply(&ServerNotification::ItemStarted(ItemStartedNotification {
        thread_id: "thread-1".to_owned(),
        turn_id: "turn-1".to_owned(),
        started_at_ms: 1,
        item: ThreadItem::CommandExecution {
            id: "run".to_owned(),
            command: "ls".to_owned(),
            status: CommandExecutionStatus::InProgress,
            aggregated_output: None,
            exit_code: None,
            duration_ms: None,
            details: String::new(),
        },
    }));
    projector.apply(&ServerNotification::CommandExecutionOutputDelta(
        CommandExecutionOutputDeltaNotification {
            thread_id: "thread-1".to_owned(),
            turn_id: "turn-1".to_owned(),
            item_id: "run".to_owned(),
            delta: "src\n".to_owned(),
        },
    ));
    assert_eq!(projector.entries().len(), 1);
    match &projector.entries()[0].item {
        ThreadItem::CommandExecution {
            aggregated_output, ..
        } => assert_eq!(aggregated_output.as_deref(), Some("src\n")),
        other => panic!("unexpected item {other:?}"),
    }
}

#[test]
fn warnings_of_the_configuration_carry_their_details() {
    let mut projector = TranscriptProjector::default();
    let events = projector.apply(&ServerNotification::ConfigWarning(
        ConfigWarningNotification {
            summary: "unknown key".to_owned(),
            details: Some("line 3".to_owned()),
        },
    ));
    let [ProjectionEvent::Notice(notice)] = events.as_slice() else {
        panic!("expected a notice");
    };
    assert_eq!(notice.text, "unknown key: line 3");
}

#[test]
fn entries_that_are_handed_on_are_the_stored_ones() {
    let mut projector = TranscriptProjector::default();
    for notification in [
        delta("one", "a"),
        delta("two", "b"),
        delta("one", "c"),
        completed(message("two", "done", MessagePhase::FinalAnswer)),
    ] {
        let mut newest = projector.next_revision;
        for event in projector.apply(&notification) {
            let ProjectionEvent::Entry(entry) = event else {
                panic!("expected an entry");
            };
            assert!(entry.revision > newest);
            newest = entry.revision;
            let stored = projector
                .entries()
                .iter()
                .find(|stored| stored.key == entry.key);
            assert_eq!(stored, Some(entry.as_ref()));
        }
    }
    assert_eq!(item_ids(&projector), vec!["one", "two"]);
}

#[test]
fn one_changed_item_gives_one_entry() {
    let mut projector = TranscriptProjector::default();
    let items = |text: &str| {
        vec![
            message("one", "same", MessagePhase::FinalAnswer),
            message("two", text, MessagePhase::FinalAnswer),
            message("three", "same", MessagePhase::FinalAnswer),
        ]
    };
    assert_eq!(projector.reconcile_items("thread", "turn", &items("old")).len(), 3);
    let events = projector.reconcile_items("thread", "turn", &items("new"));
    assert_eq!(events.len(), 1);
    let ProjectionEvent::Entry(entry) = &events[0] else {
        panic!("expected an entry");
    };
    assert_eq!(entry.key.item_id, "two");
    assert_eq!(projector.entries().len(), 3);
    let mut more = items("new");
    more.push(message("four", "same", MessagePhase::FinalAnswer));
    assert_eq!(projector.reconcile_items("thread", "turn", &more).len(), 1);
    assert_eq!(item_ids(&projector), vec!["one", "two", "three", "four"]);
}
