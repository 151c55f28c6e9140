//! The values that the delivery worker and provider adapters exchange.

use crate::text::chars_of;
use crate::text::text_between;
use crate::text::texts;
use crate::transcript::EntryOrigin;
use crate::transcript::TranscriptKey;
use vstd::prelude::*;

verus! {

/// An opaque provider conversation identifier.
#[derive(Debug, PartialEq, Eq, Hash)]
pub struct ProviderConversationId {
    pub value: String,
}

impl View for ProviderConversationId {
    type V = Seq<char>;

    open spec fn view(&self) -> Seq<char> {
        self.value@
    }
}

impl Clone for ProviderConversationId {
    fn clone(&self) -> (copy: Self)
        ensures
            copy == *self,
    {
        ProviderConversationId { value: self.value.clone() }
    }
}

impl ProviderConversationId {
    pub fn new(value: &str) -> (id: Self)
        ensures
            id@ == value@,
    {
        ProviderConversationId { value: value.to_owned() }
    }

    pub fn as_str(&self) -> (value: &str)
        ensures
            value@ == self@,
    {
        self.value.as_str()
    }
}

/// An opaque provider message identifier returned after a send.
#[derive(Debug, PartialEq, Eq, Hash)]
pub struct ProviderMessageId {
    pub value: String,
}

impl View for ProviderMessageId {
    type V = Seq<char>;

    open spec fn view(&self) -> Seq<char> {
        self.value@
    }
}

impl Clone for ProviderMessageId {
    fn clone(&self) -> (copy: Self)
        ensures
            copy == *self,
    {
        ProviderMessageId { value: self.value.clone() }
    }
}

impl ProviderMessageId {
    pub fn new(value: &str) -> (id: Self)
        ensures
            id@ == value@,
    {
        ProviderMessageId { value: value.to_owned() }
    }

    pub fn as_str(&self) -> (value: &str)
        ensures
            value@ == self@,
    {
        self.value.as_str()
    }
}

/// The identity of one delivery, by which a provider recognises a repeated send.
#[derive(Debug, PartialEq, Eq, Hash)]
pub struct ProviderDeliveryId {
    pub value: String,
}

impl View for ProviderDeliveryId {
    type V = Seq<char>;

    open spec fn view(&self) -> Seq<char> {
        self.value@
    }
}

impl Clone for ProviderDeliveryId {
    fn clone(&self) -> (copy: Self)
        ensures
            copy == *self,
    {
        ProviderDeliveryId { value: self.value.clone() }
    }
}

impl ProviderDeliveryId {
    pub fn new(value: &str) -> (id: Self)
        ensures
            id@ == value@,
    {
        ProviderDeliveryId { value: value.to_owned() }
    }

    pub fn as_str(&self) -> (value: &str)
        ensures
            value@ == self@,
    {
        self.value.as_str()
    }
}

/// A provider-owned reference to an inbound attachment.
#[derive(Debug, PartialEq, Eq, Hash)]
pub struct ProviderAttachment {
    pub value: String,
}

impl View for ProviderAttachment {
    type V = Seq<char>;

    open spec fn view(&self) -> Seq<char> {
        self.value@
    }
}

impl Clone for ProviderAttachment {
    fn clone(&self) -> (copy: Self)
        ensures
            copy == *self,
    {
        ProviderAttachment { value: self.value.clone() }
    }
}

impl ProviderAttachment {
    pub fn new(value: &str) -> (id: Self)
        ensures
            id@ == value@,
    {
        ProviderAttachment { value: value.to_owned() }
    }

    pub fn as_str(&self) -> (value: &str)
        ensures
            value@ == self@,
    {
        self.value.as_str()
    }
}

/// Inbound content after a provider has verified its identity and authenticity.
#[derive(Debug, Clone, PartialEq, Eq)]
pub struct InboundEnvelope {
    pub idempotency_key: String,
    pub provider_message_id: ProviderMessageId,
    pub conversation_id: ProviderConversationId,
    pub sender_id: String,
    pub body: String,
    pub attachments: Vec<ProviderAttachment>,
}

/// Capabilities that affect delivery scheduling, not provider authentication.
#[derive(Debug, Clone, Copy, PartialEq, Eq, Structural)]
pub struct ProviderCapabilities {
    pub message_limit: usize,
    pub edit_support: bool,
    pub attachment_support: bool,
    pub supports_markdown: bool,
    pub rich_interaction_support: bool,
}

/// A provider health snapshot.
#[derive(Debug, Clone, PartialEq, Eq)]
pub struct ProviderStatus {
    pub ready: bool,
    pub account: Option<String>,
}

/// Errors that can be surfaced by an adapter without exposing SDK details.
#[derive(Debug, Clone, Copy, PartialEq, Eq, Structural)]
pub enum ProviderError {
    Transport,
    Unauthorized,
    Unavailable,
    InvalidResponse,
    /// The provider has seen the delivery id with other content.
    IdempotencyConflict,
}

impl ProviderError {
    /// The error in words.
    pub fn message(self) -> (text: &'static str)
        ensures
            text@ == match self {
                ProviderError::Transport => "provider transport failed"@,
                ProviderError::Unauthorized => "provider rejected the request"@,
                ProviderError::Unavailable => "provider is unavailable"@,
                ProviderError::InvalidResponse => "provider returned an invalid response"@,
                ProviderError::IdempotencyConflict =>
                    "provider saw the delivery id with other content"@,
            },
    {
        match self {
            ProviderError::Transport => "provider transport failed",
            ProviderError::Unauthorized => "provider rejected the request",
            ProviderError::Unavailable => "provider is unavailable",
            ProviderError::InvalidResponse => "provider returned an invalid response",
            ProviderError::IdempotencyConflict => "provider saw the delivery id with other content",
        }
    }
}

/// A visible transcript revision waiting for provider delivery.
#[derive(Debug, PartialEq, Eq)]
pub struct DeliveryIntent {
    pub conversation_id: ProviderConversationId,
    pub generation: u64,
    pub key: TranscriptKey,
    pub origin: EntryOrigin,
    pub text: String,
    pub revision: u64,
    pub committed: bool,
}

impl Clone for DeliveryIntent {
    fn clone(&self) -> (copy: Self)
        ensures
            copy == *self,
    {
        DeliveryIntent {
            conversation_id: self.conversation_id.clone(),
            generation: self.generation,
            key: self.key.clone(),
            origin: self.origin,
            text: self.text.clone(),
            revision: self.revision,
            committed: self.committed,
        }
    }
}

/// `text` cut into pieces of `limit` characters; the last piece may be shorter.
pub open spec fn segments_of(text: Seq<char>, limit: int) -> Seq<Seq<char>>
    decreases text.len(),
{
    if limit <= 0 || text.len() <= limit {
        seq![text]
    } else {
        seq![text.take(limit)] + segments_of(text.skip(limit), limit)
    }
}

/// Splits text by Unicode scalar values without changing its contents.
pub fn segment_text(text: &str, limit: usize) -> (segments: Vec<String>)
    requires
        limit > 0,
    ensures
        texts(segments@) == segments_of(text@, limit as int),
{
    let chars = chars_of(text);
    let total: usize = chars.len();
    let mut segments: Vec<String> = Vec::new();
    let mut from: usize = 0;
    assert(chars@.skip(0) =~= text@);
    assert(texts(segments@) + segments_of(text@, limit as int) =~= segments_of(
        text@,
        limit as int,
    ));
    while total - from > limit
        invariant
            limit > 0,
            chars@ == text@,
            from <= total == chars@.len(),
            texts(segments@) + segments_of(text@.skip(from as int), limit as int) == segments_of(
                text@,
                limit as int,
            ),
        decreases total - from,
    {
        let ghost before = segments@;
        let segment = text_between(&chars, from, from + limit);
        segments.push(segment);
        proof {
            let rest = text@.skip(from as int);
            assert(rest.take(limit as int) =~= segment@);
            assert(rest.skip(limit as int) =~= text@.skip(from + limit));
            assert(texts(segments@) =~= texts(before) + seq![segment@]);
            assert(texts(before) + segments_of(rest, limit as int) =~= texts(segments@)
                + segments_of(text@.skip(from + limit), limit as int));
        }
        from += limit;
    }
    let ghost before = segments@;
    let segment = text_between(&chars, from, total);
    segments.push(segment);
    proof {
        assert(text@.skip(from as int) =~= segment@);
        assert(texts(segments@) =~= texts(before) + seq![segment@]);
    }
    segments
}

/// The pieces one after the other.
pub open spec fn concatenated(pieces: Seq<Seq<char>>) -> Seq<char>
    decreases pieces.len(),
{
    if pieces.len() == 0 {
        Seq::empty()
    } else {
        pieces[0] + concatenated(pieces.skip(1))
    }
}

/// Segmentation is lossless, and no segment is longer than the limit.
pub proof fn segmentation_is_lossless(text: Seq<char>, limit: int)
    requires
        limit > 0,
    ensures
        concatenated(segments_of(text, limit)) == text,
        segments_of(text, limit).len() >= 1,
        forall|i: int|
            0 <= i < segments_of(text, limit).len() ==> (#[trigger] segments_of(
                text,
                limit,
            )[i]).len() <= limit,
        text.len() > 0 ==> forall|i: int|
            0 <= i < segments_of(text, limit).len() ==> (#[trigger] segments_of(
                text,
                limit,
            )[i]).len() > 0,
    decreases text.len(),
{
    let segments = segments_of(text, limit);
    if text.len() <= limit {
        assert(segments.skip(1) =~= Seq::<Seq<char>>::empty());
        assert(concatenated(segments.skip(1)) =~= Seq::<char>::empty());
        assert(text + Seq::<char>::empty() =~= text);
    } else {
        let rest = text.skip(limit);
        segmentation_is_lossless(rest, limit);
        assert(segments.skip(1) =~= segments_of(rest, limit));
        assert(text.take(limit) + rest =~= text);
        assert forall|i: int| 0 <= i < segments.len() implies (#[trigger] segments[i]).len()
            <= limit && segments[i].len() > 0 by {
            if i > 0 {
                assert(segments[i] == segments_of(rest, limit)[i - 1]);
            }
        }
    }
}

/// The number of segments does not exceed the number of characters, or one.
pub proof fn lemma_segment_count(text: Seq<char>, limit: int)
    requires
        limit > 0,
    ensures
        1 <= segments_of(text, limit).len() <= text.len() + 1,
    decreases text.len(),
{
    if text.len() > limit {
        lemma_segment_count(text.skip(limit), limit);
    }
}

} // verus!
