//! Durable delivery: segments, the journal, and the worker.

use codex_whatsapp_bridge::messaging::segment_text;
use codex_whatsapp_bridge::messaging::DeliveryAction;
use codex_whatsapp_bridge::messaging::DeliveryIntent;
use codex_whatsapp_bridge::messaging::DeliveryJournal;
use codex_whatsapp_bridge::messaging::DeliveryState;
use codex_whatsapp_bridge::messaging::DeliveryWorker;
use codex_whatsapp_bridge::messaging::DeliveryWorkerEvent;
use codex_whatsapp_bridge::messaging::ProviderCapabilities;
use codex_whatsapp_bridge::messaging::ProviderConversationId;
use codex_whatsapp_bridge::messaging::ProviderDeliveryId;
use codex_whatsapp_bridge::messaging::ProviderError;
use codex_whatsapp_bridge::messaging::ProviderMessageId;
use codex_whatsapp_bridge::messaging::StoredRecord;
use codex_whatsapp_bridge::transcript::EntryOrigin;
use codex_whatsapp_bridge::transcript::TranscriptKey;

fn intent(item: &str, text: &str, generation: u64, revision: u64, committed: bool) -> DeliveryIntent {
    DeliveryIntent {
        conversation_id: ProviderConversationId::new("chat"),
        generation,
        key: TranscriptKey::new("thread", "turn", item),
        origin: EntryOrigin::CodexTranscript,
        text: text.to_string(),
        revision,
        committed,
    }
}

fn test_intent(item: &str, text: &str) -> DeliveryIntent {
    intent(item, text, 0, 1, true)
}

fn capabilities(message_limit: usize, edit_support: bool) -> ProviderCapabilities {
    ProviderCapabilities {
        message_limit,
        edit_support,
        attachment_support: false,
        supports_markdown: false,
        rich_interaction_support: false,
    }
}

/// A provider and a store, and what they were asked for.
struct Surroundings {
    calls: Vec<&'static str>,
    sends: Vec<(ProviderDeliveryId, String)>,
    edits: Vec<String>,
    acknowledgements: Vec<(ProviderDeliveryId, ProviderMessageId)>,
    events: Vec<DeliveryWorkerEvent>,
    saved_ids: Vec<Option<ProviderDeliveryId>>,
    send_failures: usize,
    acknowledgement_failures: usize,
    conflict: bool,
    now_ms: u64,
}

impl Surroundings {
    fn new() -> Self {
        Surroundings {
            calls: Vec::new(),
            sends: Vec::new(),
            edits: Vec::new(),
            acknowledgements: Vec::new(),
            events: Vec::new(),
            saved_ids: Vec::new(),
            send_failures: 0,
            acknowledgement_failures: 0,
            conflict: false,
            now_ms: 0,
        }
    }

    fn texts(&self) -> Vec<&str> {
        self.sends.iter().map(|(_, text)| text.as_str()).collect()
    }

    /// Does what the worker wants, until it rests.
    fn settle(&mut self, worker: &mut DeliveryWorker) {
        for _ in 0..100 {
            match worker.next_action(self.now_ms) {
                DeliveryAction::Rest => return,
                DeliveryAction::Save => {
                    self.calls.push("store");
                    self.saved_ids = worker
                        .journal
                        .records
                        .iter()
                        .map(|record| record.delivery_id.clone())
                        .collect();
                    if let Some(event) = worker.on_saved(true) {
                        self.events.push(event);
                    }
                }
                DeliveryAction::Send {
                    delivery_id, text, ..
                } => {
                    self.calls.push("send");
                    self.sends.push((delivery_id, text));
                    let outcome = if self.conflict {
                        Err(ProviderError::IdempotencyConflict)
                    } else if self.send_failures > 0 {
                        self.send_failures -= 1;
                        Err(ProviderError::Unavailable)
                    } else {
                        let id = format!("message-{}", self.sends.len());
                        Ok(ProviderMessageId::new(&id))
                    };
                    worker.on_sent(outcome, self.now_ms);
                }
                DeliveryAction::Edit { text, .. } => {
                    self.calls.push("edit");
                    self.edits.push(text);
                    worker.on_edited(Ok(()), self.now_ms);
                }
                DeliveryAction::Acknowledge {
                    delivery_id,
                    message_id,
                } => {
                    self.calls.push("ack");
                    self.acknowledgements.push((delivery_id, message_id));
                    let acknowledged = self.acknowledgement_failures == 0;
                    if !acknowledged {
                        self.acknowledgement_failures -= 1;
                    }
                    worker.on_acknowledged(acknowledged);
                }
            }
        }
        panic!("the worker does not come to rest");
    }

    /// Lets the retry delay pass.
    fn wait(&mut self, worker: &mut DeliveryWorker, milliseconds: u64) {
        self.now_ms += milliseconds;
        worker.tick();
        self.settle(worker);
    }
}

#[test]
fn segmentation_is_lossless_and_unicode_safe() {
    let text = "a🙂b\ncd";
    let parts = segment_text(text, 2);
    assert_eq!(parts, vec!["a🙂", "b\n", "cd"]);
    assert_eq!(parts.concat(), text);
}

#[test]
fn journal_preserves_order_and_coalesces_revisions() {
    let mut journal = DeliveryJournal::default();
    assert_eq!(journal.apply(intent("item", "abcdef", 0, 1, false), 3), 2);
    assert_eq!(journal.records[0].text, "abc");
    assert_eq!(journal.records[1].text, "def");
    assert_eq!(journal.apply(intent("item", "abcdefgh", 0, 2, true), 3), 3);
    assert_eq!(journal.records.len(), 3);
    assert!(journal.records.iter().all(|record| record.committed));
}

#[test]
fn worker_sends_segments_before_commit_and_persists_provider_ids() {
    let mut around = Surroundings::new();
    let mut worker = DeliveryWorker::new(DeliveryJournal::default(), capabilities(3, true), 1);
    around.settle(&mut worker);
    worker.apply(intent("item", "abcdef", 0, 1, false));
    around.settle(&mut worker);
    let key = TranscriptKey::new("thread", "turn", "item");
    assert_eq!(
        around.events,
        vec![
            DeliveryWorkerEvent::Enqueued {
                key: key.clone(),
                queue_depth: 2,
            },
            DeliveryWorkerEvent::Sent {
                key: key.clone(),
                segment: 0,
                provider_message_id: ProviderMessageId::new("message-1"),
            },
            DeliveryWorkerEvent::Sent {
                key,
                segment: 1,
                provider_message_id: ProviderMessageId::new("message-2"),
            },
        ]
    );
    assert_eq!(around.texts(), vec!["abc", "def"]);
}

#[test]
fn worker_sends_uncommitted_revisions_without_edit_support() {
    let mut around = Surroundings::new();
    let mut worker = DeliveryWorker::new(DeliveryJournal::default(), capabilities(3, false), 1);
    around.settle(&mut worker);
    worker.apply(intent("item", "one", 7, 1, false));
    around.settle(&mut worker);
    worker.apply(intent("item", "two", 7, 2, false));
    around.settle(&mut worker);
    assert_eq!(around.texts(), vec!["one", "two"]);
    assert!(around.edits.is_empty());
}

#[test]
fn worker_edits_later_revisions_where_it_can() {
    let mut around = Surroundings::new();
    let mut worker = DeliveryWorker::new(DeliveryJournal::default(), capabilities(3, true), 1);
    around.settle(&mut worker);
    worker.apply(intent("item", "one", 7, 1, false));
    around.settle(&mut worker);
    worker.apply(intent("item", "two", 7, 2, true));
    around.settle(&mut worker);
    assert_eq!(around.texts(), vec!["one"]);
    assert_eq!(around.edits, vec!["two"]);
}

#[test]
fn worker_does_not_send_internal_intents() {
    let mut around = Surroundings::new();
    let mut worker = DeliveryWorker::new(DeliveryJournal::default(), capabilities(3, true), 1);
    around.settle(&mut worker);
    worker.apply(DeliveryIntent {
        conversation_id: ProviderConversationId::new("chat"),
        generation: 0,
        key: TranscriptKey::new("thread", "turn", "internal"),
        origin: EntryOrigin::Internal,
        text: "diagnostic".to_string(),
        revision: 1,
        committed: true,
    });
    around.settle(&mut worker);
    around.wait(&mut worker, 10);
    assert!(around.sends.is_empty());
}

#[test]
fn journal_records_generation_and_coalesced_revision_count() {
    let mut journal = DeliveryJournal::default();
    journal.apply(intent("item", "old", 3, 1, false), 10);
    journal.records[0].provider_message_id = Some(ProviderMessageId::new("message"));
    journal.records[0].state = DeliveryState::Sent;
    journal.apply(intent("item", "new", 4, 2, true), 10);
    assert_eq!(journal.records[0].generation, 4);
    assert_eq!(journal.records[0].coalesced_revisions, 1);
    assert_eq!(journal.records[0].state, DeliveryState::Pending);
}

#[test]
fn authoritative_shorter_revision_supersedes_stale_segments() {
    let mut journal = DeliveryJournal::default();
    journal.apply(intent("item", "abcdef", 0, 1, false), 3);
    journal.apply(intent("item", "a", 0, 2, true), 3);
    assert_eq!(journal.records[1].state, DeliveryState::Superseded);

    journal.apply(intent("item", "abcdef", 0, 3, true), 3);
    assert_eq!(journal.records[1].state, DeliveryState::Pending);
}

#[test]
fn retry_deadline_hides_pending_record_until_backoff_expires() {
    let mut journal = DeliveryJournal::default();
    journal.apply(intent("item", "hello", 0, 1, true), 100);
    journal.records[0].next_attempt_at_ms = Some(10);
    assert_eq!(journal.next_pending_index(9), None);
    assert_eq!(journal.next_pending_index(10), Some(0));

    journal.records[0].next_attempt_at_ms = Some(10);
    journal.apply(intent("item", "updated", 0, 2, true), 100);
    assert_eq!(journal.records[0].next_attempt_at_ms, None);
}

#[test]
fn older_revisions_are_ignored() {
    let mut journal = DeliveryJournal::default();
    journal.apply(intent("item", "new", 0, 5, true), 100);
    journal.apply(intent("item", "old", 0, 4, true), 100);
    assert_eq!(journal.records.len(), 1);
    assert_eq!(journal.records[0].text, "new");
}

#[test]
fn new_records_get_distinct_stable_delivery_ids() {
    let mut journal = DeliveryJournal::default();
    journal.apply(test_intent("first", "same text"), 4096);
    journal.apply(test_intent("second", "same text"), 4096);

    let first_id = journal.records[0].delivery_id.clone().unwrap();
    let second_id = journal.records[1].delivery_id.clone().unwrap();
    assert_ne!(first_id, second_id);

    journal.apply(test_intent("first", "updated text"), 4096);
    assert_eq!(journal.records[0].delivery_id, Some(first_id));
}

#[test]
fn worker_persists_delivery_id_before_send_and_acknowledges_after_sent() {
    let mut around = Surroundings::new();
    let mut worker = DeliveryWorker::new(DeliveryJournal::default(), capabilities(4096, false), 1);
    around.settle(&mut worker);
    worker.apply(test_intent("item", "hello"));
    around.settle(&mut worker);

    let delivery_id = around.sends[0].0.clone();
    assert_eq!(
        worker.journal.records[0].delivery_id,
        Some(delivery_id.clone())
    );
    assert_eq!(around.saved_ids, vec![Some(delivery_id.clone())]);
    assert_eq!(around.acknowledgements[0].0, delivery_id);
    assert_eq!(around.calls, vec!["store", "send", "store", "ack"]);
    assert!(matches!(
        around.events[0],
        DeliveryWorkerEvent::Enqueued { .. }
    ));
}

#[test]
fn worker_retries_with_the_same_delivery_id() {
    let mut around = Surroundings::new();
    around.send_failures = 1;
    let mut worker = DeliveryWorker::new(DeliveryJournal::default(), capabilities(4096, false), 1);
    around.settle(&mut worker);
    worker.apply(test_intent("item", "hello"));
    around.settle(&mut worker);
    assert_eq!(around.sends.len(), 1);
    around.wait(&mut worker, 1);
    assert_eq!(around.sends.len(), 2);
    assert!(around.sends[0].0 == around.sends[1].0);
    assert_eq!(worker.journal.records[0].state, DeliveryState::Sent);
}

#[test]
fn worker_sends_identical_text_for_distinct_transcript_keys() {
    let mut around = Surroundings::new();
    let mut worker = DeliveryWorker::new(DeliveryJournal::default(), capabilities(4096, false), 1);
    around.settle(&mut worker);
    worker.apply(test_intent("first", "same text"));
    around.settle(&mut worker);
    worker.apply(test_intent("second", "same text"));
    around.settle(&mut worker);
    assert_eq!(around.sends.len(), 2);
    assert!(around.sends[0].0 != around.sends[1].0);
}

#[test]
fn worker_migrates_legacy_pending_record_before_provider_call() {
    let mut journal = DeliveryJournal::default();
    journal.apply(test_intent("item", "hello"), 4096);
    journal.records[0].delivery_id = None;
    let mut around = Surroundings::new();
    let mut worker = DeliveryWorker::new(journal, capabilities(4096, false), 1);
    around.wait(&mut worker, 0);
    assert_eq!(around.sends.len(), 1);
    assert!(worker.journal.records[0].delivery_id.is_some());
    assert_eq!(around.calls.first().copied(), Some("store"));
}

#[test]
fn acknowledgement_failure_keeps_sent_record_without_resending() {
    let mut around = Surroundings::new();
    around.acknowledgement_failures = usize::MAX;
    let mut worker = DeliveryWorker::new(DeliveryJournal::default(), capabilities(4096, false), 1);
    around.settle(&mut worker);
    worker.apply(test_intent("item", "hello"));
    around.settle(&mut worker);
    for _ in 0..5 {
        around.wait(&mut worker, 4);
    }
    assert_eq!(around.sends.len(), 1);
    assert!(around.acknowledgements.len() > 1);
    assert_eq!(worker.journal.records[0].state, DeliveryState::Sent);
}

#[test]
fn startup_acknowledges_sent_records_without_sending_again() {
    let mut journal = DeliveryJournal::default();
    journal.apply(test_intent("item", "hello"), 4096);
    journal.records[0].provider_message_id = Some(ProviderMessageId::new("message-1"));
    journal.records[0].state = DeliveryState::Sent;
    let mut around = Surroundings::new();
    let mut worker = DeliveryWorker::new(journal, capabilities(4096, false), 1);
    around.wait(&mut worker, 0);
    assert_eq!(around.acknowledgements.len(), 1);
    assert!(around.sends.is_empty());
}

#[test]
fn idempotency_conflict_is_permanent_and_degrades_delivery() {
    let mut around = Surroundings::new();
    around.conflict = true;
    let mut worker = DeliveryWorker::new(DeliveryJournal::default(), capabilities(4096, false), 1);
    around.settle(&mut worker);
    worker.apply(test_intent("item", "hello"));
    around.settle(&mut worker);
    assert_eq!(
        worker.journal.records[0].state,
        DeliveryState::FailedPermanent
    );
    around.wait(&mut worker, 20);
    assert_eq!(around.sends.len(), 1);
    assert!(matches!(
        around.events[0],
        DeliveryWorkerEvent::Enqueued { .. }
    ));
}

#[test]
fn a_journal_that_cannot_be_saved_sends_nothing() {
    let mut worker = DeliveryWorker::new(DeliveryJournal::default(), capabilities(4096, false), 1);
    while worker.next_action(0) != DeliveryAction::Rest {}
    worker.apply(test_intent("item", "hello"));
    assert_eq!(worker.next_action(0), DeliveryAction::Save);
    assert_eq!(
        worker.on_saved(false),
        Some(DeliveryWorkerEvent::StoreFailed)
    );
    assert_eq!(worker.next_action(0), DeliveryAction::Rest);
}

#[test]
fn legacy_delivery_records_load_with_new_metadata_defaults() {
    let record = StoredRecord {
        conversation_id: ProviderConversationId::new("chat"),
        generation: None,
        key: TranscriptKey::new("thread", "turn", "item"),
        origin: EntryOrigin::CodexTranscript,
        segment: 0,
        text: "hello".to_string(),
        revision: 1,
        committed: true,
        state: DeliveryState::Sent,
        provider_message_id: Some(ProviderMessageId::new("message")),
        attempts: 0,
        coalesced_revisions: None,
        next_attempt_at_ms: None,
        delivery_id: None,
    }
    .restore();
    assert_eq!(record.generation, 0);
    assert_eq!(record.coalesced_revisions, 0);
    assert_eq!(record.next_attempt_at_ms, None);
    assert_eq!(record.text, "hello");
}

#[test]
fn repeated_intents_change_nothing() {
    let mut journal = DeliveryJournal::default();
    journal.apply(intent("other", "xyz", 0, 1, true), 3);
    journal.apply(intent("item", "abcdef", 0, 1, false), 3);
    journal.records[1].provider_message_id = Some(ProviderMessageId::new("message-1"));
    journal.records[1].attempts = 2;
    assert_eq!(journal.apply(intent("item", "abc", 0, 2, true), 3), 2);
    assert_eq!(journal.records[1].attempts, 2);
    assert_eq!(
        journal.records[1].provider_message_id,
        Some(ProviderMessageId::new("message-1"))
    );
    let held = journal.clone();
    assert_eq!(journal.apply(intent("item", "abc", 0, 2, true), 3), 0);
    assert_eq!(journal, held);
    assert_eq!(journal.records[0].text, "xyz");
    assert_eq!(journal.records[0].revision, 1);
}

#[test]
fn a_command_that_cannot_be_saved_calls_no_provider() {
    let mut worker = DeliveryWorker::new(DeliveryJournal::default(), capabilities(100, true), 1);
    worker.apply(test_intent("item", "hello"));
    assert_eq!(worker.next_action(0), DeliveryAction::Save);
    assert_eq!(
        worker.on_saved(false),
        Some(DeliveryWorkerEvent::StoreFailed)
    );
    assert_eq!(worker.next_action(0), DeliveryAction::Rest);
}

#[test]
fn what_was_sent_is_saved_before_the_next_send() {
    let mut worker = DeliveryWorker::new(DeliveryJournal::default(), capabilities(3, true), 1);
    worker.apply(test_intent("item", "abcdef"));
    assert_eq!(worker.next_action(0), DeliveryAction::Save);
    worker.on_saved(true);
    assert!(matches!(worker.next_action(0), DeliveryAction::Send { .. }));
    worker.on_sent(Ok(ProviderMessageId::new("message-1")), 0);
    assert_eq!(worker.next_action(0), DeliveryAction::Save);
    assert_eq!(worker.journal.records[0].state, DeliveryState::Sent);
    assert_eq!(
        worker.journal.records[0].provider_message_id,
        Some(ProviderMessageId::new("message-1"))
    );
}

#[test]
fn internal_records_of_a_loaded_journal_are_not_sent() {
    let mut journal = DeliveryJournal::default();
    journal.apply(test_intent("item", "hello"), 100);
    journal.records[0].origin = EntryOrigin::Internal;
    let mut worker = DeliveryWorker::new(journal, capabilities(100, true), 1);
    worker.tick();
    assert_eq!(worker.next_action(0), DeliveryAction::Rest);
}
