//! Signed, transport-neutral inbound event handling.

use crate::attachment::InboundAttachment;
use crate::signature::hex_decoded;
use crate::signature::hmac_sha256;
use crate::signature::is_signed;
use crate::signature::verify_tag;
use crate::text::after_prefix;
use crate::text::same_text;
use crate::text::strip_prefix;
use vstd::prelude::*;

verus! {

/// A message that the transport reports.
#[derive(Debug, Clone, PartialEq, Eq)]
pub struct TransportMessage {
    pub body: String,
    pub chat_id: String,
    pub from_me: bool,
    pub id: String,
    pub is_group: bool,
    pub is_self_chat: bool,
    pub attachment: Option<InboundAttachment>,
}

/// An event that the transport reports.
#[derive(Debug, Clone, PartialEq, Eq)]
pub struct TransportEvent {
    pub event: String,
    pub idempotency_key: String,
    pub data: TransportMessage,
}

/// A message of the user to the bridge.
#[derive(Debug, Clone, PartialEq, Eq)]
pub struct InboundMessage {
    pub idempotency_key: String,
    pub message_id: String,
    pub chat_id: String,
    pub body: String,
    pub attachment: Option<InboundAttachment>,
}

#[derive(Debug, Clone, Copy, PartialEq, Eq, Structural)]
pub enum WebhookError {
    InvalidSignature,
    InvalidBody,
}

impl WebhookError {
    /// The error in words.
    pub fn message(self) -> (text: &'static str)
        ensures
            text@ == match self {
                WebhookError::InvalidSignature => "invalid transport event signature"@,
                WebhookError::InvalidBody => "invalid transport event body"@,
            },
    {
        match self {
            WebhookError::InvalidSignature => "invalid transport event signature",
            WebhookError::InvalidBody => "invalid transport event body",
        }
    }
}

/// Whether the signature of a body is valid. The scheme must be named.
pub fn verify_signature(secret: &[u8], body: &[u8], signature: &str) -> (valid: bool)
    ensures
        valid == is_signed(secret@, body@, signature@),
        valid ==> hex_decoded(signature@.skip(7)) == Some(hmac_sha256(secret@, body@))
            && signature@ == "sha256="@ + signature@.skip(7),
        signature@ == "sha256="@ + signature@.skip(7) && hex_decoded(signature@.skip(7)) == Some(
            hmac_sha256(secret@, body@),
        ) ==> valid,
{
    proof {
        reveal_strlit("sha256=");
        if after_prefix(signature@, "sha256="@) is Some {
            assert(signature@ =~= "sha256="@ + signature@.skip(7));
        } else if signature@ == "sha256="@ + signature@.skip(7) {
            assert(signature@.subrange(0, 7) =~= "sha256="@);
        }
    }
    match strip_prefix(signature, "sha256=") {
        Some(encoded) => verify_tag(secret, body, encoded.as_str()),
        None => false,
    }
}

/// What a signed body comes to, given what it decodes to.
pub open spec fn event_verdict(signed: bool, decoded: Option<TransportEvent>) -> Result<
    TransportEvent,
    WebhookError,
> {
    if !signed {
        Err(WebhookError::InvalidSignature)
    } else {
        match decoded {
            Some(event) => Ok(event),
            None => Err(WebhookError::InvalidBody),
        }
    }
}

/// Decodes an event whose signature is valid. Nothing else is decoded.
pub fn parse_verified_event<D: Fn(&[u8]) -> Option<TransportEvent>>(
    secret: &[u8],
    signature: &str,
    body: &[u8],
    decode: D,
) -> (event: Result<TransportEvent, WebhookError>)
    requires
        call_requires(decode, (body,)),
    ensures
        !is_signed(secret@, body@, signature@) ==> event == event_verdict(false, None),
        hex_decoded(signature@.skip(7)) != Some(hmac_sha256(secret@, body@)) ==> event == Err::<
            TransportEvent,
            WebhookError,
        >(WebhookError::InvalidSignature),
        event matches Ok(read) ==> call_ensures(decode, (body,), Some(read)),
        is_signed(secret@, body@, signature@) ==> exists|decoded: Option<TransportEvent>|
            #[trigger] call_ensures(decode, (body,), decoded) && event == event_verdict(
                true,
                decoded,
            ),
{
    if !verify_signature(secret, body, signature) {
        return Err(WebhookError::InvalidSignature);
    }
    let decoded = decode(body);
    let ghost outcome = decoded;
    match decoded {
        Some(event) => {
            assert(call_ensures(decode, (body,), outcome));
            Ok(event)
        },
        None => {
            assert(call_ensures(decode, (body,), outcome));
            Err(WebhookError::InvalidBody)
        },
    }
}

/// Whether an event is a message of the user in the self-chat that says something.
pub open spec fn is_self_message(event: TransportEvent, self_chat_id: Seq<char>) -> bool {
    &&& event.event@ == "message"@
    &&& !event.data.is_group
    &&& event.data.from_me
    &&& event.data.is_self_chat || event.data.chat_id@ == self_chat_id
    &&& event.data.body@.len() > 0 || event.data.attachment is Some
}

/// The message that an event brings.
pub open spec fn inbound_of(event: TransportEvent) -> InboundMessage {
    InboundMessage {
        idempotency_key: event.idempotency_key,
        message_id: event.data.id,
        chat_id: event.data.chat_id,
        body: event.data.body,
        attachment: event.data.attachment,
    }
}

/// Takes a message of the user in the self-chat, unless the bridge itself sent it.
pub fn filter_inbound<F: Fn(&str) -> bool>(
    event: TransportEvent,
    self_chat_id: &str,
    outbound_message_ids: F,
) -> (message: Option<InboundMessage>)
    requires
        forall|id: &str| id@ == event.data.id@ ==> call_requires(outbound_message_ids, (id,)),
    ensures
        !is_self_message(event, self_chat_id@) ==> message is None,
        is_self_message(event, self_chat_id@) ==> exists|id: &str, sent: bool|
            id@ == event.data.id@ && #[trigger] call_ensures(outbound_message_ids, (id,), sent)
                && message == if sent {
                None
            } else {
                Some(inbound_of(event))
            },
        message matches Some(taken) ==> {
            &&& event.event@ == "message"@
            &&& event.data.from_me
            &&& !event.data.is_group
            &&& event.data.is_self_chat || event.data.chat_id@ == self_chat_id@
            &&& event.data.body@.len() > 0 || event.data.attachment is Some
            &&& taken.idempotency_key == event.idempotency_key
            &&& taken.message_id == event.data.id
            &&& taken.chat_id == event.data.chat_id
            &&& taken.body == event.data.body
            &&& taken.attachment == event.data.attachment
            &&& exists|id: &str|
                id@ == event.data.id@ && #[trigger] call_ensures(
                    outbound_message_ids,
                    (id,),
                    false,
                )
        },
        message is None && event.event@ == "message"@ && event.data.from_me && !event.data.is_group
            && (event.data.is_self_chat || event.data.chat_id@ == self_chat_id@) && (
        event.data.body@.len() > 0 || event.data.attachment is Some) ==> exists|id: &str|
            id@ == event.data.id@ && #[trigger] call_ensures(outbound_message_ids, (id,), true),
{
    let data = event.data;
    if !same_text(event.event.as_str(), "message") || data.is_group || !data.from_me || (
    !data.is_self_chat && !same_text(data.chat_id.as_str(), self_chat_id)) || (
    data.body.as_str().is_empty() && data.attachment.is_none()) {
        return None;
    }
    let id = data.id.as_str();
    let sent = outbound_message_ids(id);
    assert(id@ == event.data.id@ && call_ensures(outbound_message_ids, (id,), sent));
    if sent {
        return None;
    }
    Some(
        InboundMessage {
            idempotency_key: event.idempotency_key,
            message_id: data.id,
            chat_id: data.chat_id,
            body: data.body,
            attachment: data.attachment,
        },
    )
}

} // verus!
