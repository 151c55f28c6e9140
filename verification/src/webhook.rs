//! OpenWA webhook verification, normalization, and allowlist filtering.

use crate::signature::hex_decoded;
use crate::signature::hmac_sha256;
use crate::signature::is_signed_plainly;
use crate::signature::verify_tag;
use crate::text::after_prefix;
use crate::text::ends;
use crate::text::ends_with;
use crate::text::same_text;
use crate::text::strip_prefix;
use vstd::prelude::*;

verus! {

/// A message that OpenWA reports.
#[derive(Debug, Clone, PartialEq, Eq)]
pub struct OpenWaMessage {
    pub id: String,
    pub from: String,
    pub to: String,
    pub body: String,
    pub message_type: String,
    pub is_group: bool,
}

/// A webhook of OpenWA.
#[derive(Debug, Clone, PartialEq, Eq)]
pub struct OpenWaWebhook {
    pub event: String,
    pub session_id: String,
    pub idempotency_key: Option<String>,
    /// The data of the event, where it is a message.
    pub data: Option<OpenWaMessage>,
}

/// A message of the user to the bridge.
#[derive(Debug, Clone, PartialEq, Eq)]
pub struct InboundMessage {
    pub idempotency_key: String,
    pub message_id: String,
    pub chat_id: String,
    pub body: String,
}

#[derive(Debug, Clone, Copy, PartialEq, Eq, Structural)]
pub enum WebhookError {
    InvalidSignature,
    InvalidBody,
}

impl WebhookError {
    /// The error in words.
    pub fn message(self) -> (text: &'static str)
        ensures
            text@ == match self {
                WebhookError::InvalidSignature => "invalid webhook signature"@,
                WebhookError::InvalidBody => "invalid webhook body"@,
            },
    {
        match self {
            WebhookError::InvalidSignature => "invalid webhook signature",
            WebhookError::InvalidBody => "invalid webhook body",
        }
    }
}

/// Whether the signature of a body is valid. The scheme `sha256=` may be left out.
pub fn verify_signature(secret: &[u8], body: &[u8], signature: &str) -> (valid: bool)
    ensures
        valid == is_signed_plainly(secret@, body@, signature@),
        valid == (hex_decoded(
            if signature@.len() >= 7 && signature@.take(7) == "sha256="@ {
                signature@.skip(7)
            } else {
                signature@
            },
        ) == Some(hmac_sha256(secret@, body@))),
{
    proof {
        reveal_strlit("sha256=");
        if signature@.len() >= 7 {
            assert(signature@.subrange(0, 7) =~= signature@.take(7));
        }
    }
    match strip_prefix(signature, "sha256=") {
        Some(encoded) => verify_tag(secret, body, encoded.as_str()),
        None => verify_tag(secret, body, signature),
    }
}

/// What a signed body comes to, given what it decodes to.
pub open spec fn webhook_verdict(signed: bool, decoded: Option<OpenWaWebhook>) -> Result<
    OpenWaWebhook,
    WebhookError,
> {
    if !signed {
        Err(WebhookError::InvalidSignature)
    } else {
        match decoded {
            Some(webhook) => Ok(webhook),
            None => Err(WebhookError::InvalidBody),
        }
    }
}

/// Decodes a webhook whose signature is valid. Nothing else is decoded.
pub fn parse_verified_webhook<D: Fn(&[u8]) -> Option<OpenWaWebhook>>(
    secret: &[u8],
    signature: &str,
    body: &[u8],
    decode: D,
) -> (webhook: Result<OpenWaWebhook, WebhookError>)
    requires
        call_requires(decode, (body,)),
    ensures
        !is_signed_plainly(secret@, body@, signature@) ==> webhook == webhook_verdict(false, None),
        hex_decoded(signature@) != Some(hmac_sha256(secret@, body@)) && hex_decoded(
            signature@.skip(7),
        ) != Some(hmac_sha256(secret@, body@)) ==> webhook == Err::<OpenWaWebhook, WebhookError>(
            WebhookError::InvalidSignature,
        ),
        webhook matches Ok(read) ==> call_ensures(decode, (body,), Some(read)),
        is_signed_plainly(secret@, body@, signature@) ==> exists|decoded: Option<OpenWaWebhook>|
            #[trigger] call_ensures(decode, (body,), decoded) && webhook == webhook_verdict(
                true,
                decoded,
            ),
{
    if !verify_signature(secret, body, signature) {
        return Err(WebhookError::InvalidSignature);
    }
    match decode(body) {
        Some(webhook) => Ok(webhook),
        None => Err(WebhookError::InvalidBody),
    }
}

/// Whether a webhook reports a chat message in the self-chat of the session.
pub open spec fn is_self_chat(
    webhook: OpenWaWebhook,
    session_id: Seq<char>,
    self_chat_id: Seq<char>,
) -> bool {
    &&& webhook.event@ == "message.received"@ || webhook.event@ == "message.sent"@
    &&& webhook.session_id@ == session_id
    &&& webhook.data matches Some(message) && {
        &&& message.message_type@ == "chat"@
        &&& !message.is_group
        &&& message.from@ == message.to@
        &&& ends(message.from@, "@c.us"@)
        &&& message.from@ == self_chat_id
    }
}

/// What a message says, without the trigger prefix where it has one.
pub open spec fn untriggered(body: Seq<char>, trigger_prefix: Seq<char>) -> Seq<char> {
    match after_prefix(body, trigger_prefix) {
        Some(rest) => rest,
        None => body,
    }
}

/// Whether a message is the one that a webhook brings.
pub open spec fn is_inbound_of(
    message: InboundMessage,
    webhook: OpenWaWebhook,
    trigger_prefix: Seq<char>,
) -> bool {
    let data = webhook.data->0;
    &&& message.idempotency_key@ == match webhook.idempotency_key {
        Some(key) => key@,
        None => data.id@,
    }
    &&& message.message_id@ == data.id@
    &&& message.chat_id@ == data.from@
    &&& message.body@ == untriggered(data.body@, trigger_prefix)
}

/// Takes a message of the user in the self-chat, unless the bridge itself sent it.
pub fn filter_inbound<F: Fn(&str) -> bool>(
    webhook: OpenWaWebhook,
    session_id: &str,
    self_chat_id: &str,
    trigger_prefix: &str,
    outbound_message_ids: F,
) -> (message: Option<InboundMessage>)
    requires
        webhook.data matches Some(data) ==> forall|id: &str|
            id@ == data.id@ ==> call_requires(outbound_message_ids, (id,)),
    ensures
        !is_self_chat(webhook, session_id@, self_chat_id@) ==> message is None,
        is_self_chat(webhook, session_id@, self_chat_id@) ==> exists|id: &str, sent: bool|
            id@ == webhook.data->0.id@ && #[trigger] call_ensures(
                outbound_message_ids,
                (id,),
                sent,
            ) && match message {
                Some(message) => !sent && is_inbound_of(message, webhook, trigger_prefix@),
                None => sent,
            },
        message matches Some(taken) ==> {
            &&& webhook.event@ == "message.received"@ || webhook.event@ == "message.sent"@
            &&& webhook.session_id@ == session_id@
            &&& webhook.data matches Some(data) && {
                &&& data.message_type@ == "chat"@
                &&& !data.is_group
                &&& data.from@ == self_chat_id@
                &&& data.to@ == self_chat_id@
                &&& taken.message_id@ == data.id@
                &&& taken.chat_id@ == data.from@
                &&& taken.idempotency_key@ == if webhook.idempotency_key is Some {
                    webhook.idempotency_key->0@
                } else {
                    data.id@
                }
                &&& if data.body@.len() >= trigger_prefix@.len() && data.body@.take(
                    trigger_prefix@.len() as int,
                ) == trigger_prefix@ {
                    data.body@ == trigger_prefix@ + taken.body@
                } else {
                    taken.body@ == data.body@
                }
                &&& exists|id: &str|
                    id@ == data.id@ && #[trigger] call_ensures(
                        outbound_message_ids,
                        (id,),
                        false,
                    )
            }
        },
{
    if !(same_text(webhook.event.as_str(), "message.received") || same_text(
        webhook.event.as_str(),
        "message.sent",
    )) || !same_text(webhook.session_id.as_str(), session_id) {
        return None;
    }
    let data = match webhook.data {
        Some(data) => data,
        None => {
            return None;
        },
    };
    if !same_text(data.message_type.as_str(), "chat") || data.is_group {
        return None;
    }
    if !same_text(data.from.as_str(), data.to.as_str()) || !ends_with(
        data.from.as_str(),
        "@c.us",
    ) || !same_text(data.from.as_str(), self_chat_id) {
        return None;
    }
    let id = data.id.as_str();
    let sent = outbound_message_ids(id);
    assert(id@ == webhook.data->0.id@ && call_ensures(outbound_message_ids, (id,), sent));
    if sent {
        return None;
    }
    let idempotency_key = match webhook.idempotency_key {
        Some(key) => key,
        None => data.id.clone(),
    };
    proof {
        let length = trigger_prefix@.len() as int;
        if data.body@.len() >= length {
            assert(data.body@.subrange(0, length) =~= data.body@.take(length));
            assert(data.body@ =~= data.body@.take(length) + data.body@.skip(length));
        }
    }
    let body = match strip_prefix(data.body.as_str(), trigger_prefix) {
        Some(rest) => rest,
        None => data.body,
    };
    Some(InboundMessage { idempotency_key, message_id: data.id, chat_id: data.from, body })
}

} // verus!
