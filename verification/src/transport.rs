//! Transport-neutral client for a private remote-input plugin: what it asks for,
//! and how it reads the answers.

use crate::http::field_models;
use crate::http::is_success;
use crate::http::trim_slashes;
use crate::http::without_slashes;
use crate::http::HttpMethod;
use crate::http::HttpRequest;
use crate::http::JsonField;
use crate::http::RequestShape;
use crate::http::ValueModel;
use crate::messaging::ProviderCapabilities;
use crate::messaging::ProviderError;
use crate::messaging::ProviderStatus;
use crate::text::alike;
use crate::text::chars_of;
use crate::text::digits_of;
use crate::text::joined;
use crate::text::keep_digits;
use crate::text::option_text;
use crate::text::same_ignoring_case;
use crate::text::same_text;
use vstd::prelude::*;

verus! {

/// The most characters that one message can hold.
pub const MAX_TEXT_CHARS: usize = 4096;

/// Why a request to the transport failed.
#[derive(Debug, Clone, Copy, PartialEq, Eq, Structural)]
pub enum TransportError {
    Transport,
    Unauthorized,
    Unavailable,
    InvalidResponse,
    TextTooLong,
}

impl TransportError {
    /// The error in words.
    pub fn message(self) -> (text: &'static str)
        ensures
            text@ == match self {
                TransportError::Transport => "remote transport request failed"@,
                TransportError::Unauthorized => "remote transport rejected the request"@,
                TransportError::Unavailable => "remote transport is unavailable"@,
                TransportError::InvalidResponse =>
                    "remote transport returned an invalid response"@,
                TransportError::TextTooLong => "remote transport text is too long"@,
            },
    {
        match self {
            TransportError::Transport => "remote transport request failed",
            TransportError::Unauthorized => "remote transport rejected the request",
            TransportError::Unavailable => "remote transport is unavailable",
            TransportError::InvalidResponse => "remote transport returned an invalid response",
            TransportError::TextTooLong => "remote transport text is too long",
        }
    }
}

/// The state of the transport, with the account that it is linked to.
#[derive(Debug, Clone, PartialEq, Eq)]
pub struct TransportStatus {
    pub status: String,
    pub account: Option<String>,
}

/// Whether the transport says that it is ready.
pub open spec fn says_ready(status: TransportStatus) -> bool {
    alike(status.status@, "ready"@)
}

/// Whether the transport is linked to an account, as far as it names one.
pub open spec fn is_account(status: TransportStatus, phone: Seq<char>) -> bool {
    status.account matches Some(account) ==> digits_of(account@) == phone
}

impl TransportStatus {
    /// Whether the transport says that it is ready.
    pub fn is_ready(&self) -> (ready: bool)
        ensures
            ready == says_ready(*self),
    {
        same_ignoring_case(self.status.as_str(), "ready")
    }

    /// Whether the transport is linked to the account with the given digits, as far
    /// as it names one.
    pub fn belongs_to(&self, phone: &str) -> (yes: bool)
        ensures
            yes == is_account(*self, phone@),
    {
        match &self.account {
            Some(account) => {
                let digits = keep_digits(account.as_str());
                same_text(digits.as_str(), phone)
            },
            None => true,
        }
    }
}

/// What a status code says.
pub open spec fn verdict_of(status: u16) -> Result<(), TransportError> {
    if status == 401 || status == 403 {
        Err(TransportError::Unauthorized)
    } else if status == 409 || status == 503 {
        Err(TransportError::Unavailable)
    } else if is_success(status) {
        Ok(())
    } else {
        Err(TransportError::InvalidResponse)
    }
}

/// What a status code says.
pub fn ensure_success(status: u16) -> (verdict: Result<(), TransportError>)
    ensures
        verdict == verdict_of(status),
{
    if status == 401 || status == 403 {
        Err(TransportError::Unauthorized)
    } else if status == 409 || status == 503 {
        Err(TransportError::Unavailable)
    } else if 200 <= status && status <= 299 {
        Ok(())
    } else {
        Err(TransportError::InvalidResponse)
    }
}

/// How an error of the transport looks to the delivery worker.
pub open spec fn provider_error_of(error: TransportError) -> ProviderError {
    match error {
        TransportError::Transport => ProviderError::Transport,
        TransportError::TextTooLong => ProviderError::Transport,
        TransportError::Unauthorized => ProviderError::Unauthorized,
        TransportError::Unavailable => ProviderError::Unavailable,
        TransportError::InvalidResponse => ProviderError::InvalidResponse,
    }
}

/// How an error of the transport looks to the delivery worker.
pub fn provider_error(error: TransportError) -> (seen: ProviderError)
    ensures
        seen == provider_error_of(error),
{
    match error {
        TransportError::Transport => ProviderError::Transport,
        TransportError::TextTooLong => ProviderError::Transport,
        TransportError::Unauthorized => ProviderError::Unauthorized,
        TransportError::Unavailable => ProviderError::Unavailable,
        TransportError::InvalidResponse => ProviderError::InvalidResponse,
    }
}

/// What comes of a reply: `status` is none where no reply came, and `body` is none
/// where it could not be read.
pub open spec fn reply_of<T>(status: Option<u16>, body: Option<T>) -> Result<T, TransportError> {
    match status {
        None => Err(TransportError::Transport),
        Some(status) => match verdict_of(status) {
            Err(error) => Err(error),
            Ok(_) => match body {
                Some(value) => Ok(value),
                None => Err(TransportError::InvalidResponse),
            },
        },
    }
}

/// What comes of a reply: `status` is none where no reply came, and `body` is none
/// where it could not be read.
pub fn read_reply<T>(status: Option<u16>, body: Option<T>) -> (outcome: Result<T, TransportError>)
    ensures
        outcome == reply_of(status, body),
{
    match status {
        None => Err(TransportError::Transport),
        Some(status) => match ensure_success(status) {
            Err(error) => Err(error),
            Ok(_) => match body {
                Some(value) => Ok(value),
                None => Err(TransportError::InvalidResponse),
            },
        },
    }
}

/// How the transport's state looks to the delivery worker.
pub fn provider_status(outcome: Result<TransportStatus, TransportError>) -> (seen: Result<
    ProviderStatus,
    ProviderError,
>)
    ensures
        match outcome {
            Ok(status) => seen matches Ok(shown) && shown.ready == says_ready(status)
                && option_text(shown.account) == option_text(status.account),
            Err(error) => seen == Err::<ProviderStatus, ProviderError>(provider_error_of(error)),
        },
{
    match outcome {
        Ok(status) => {
            let ready = status.is_ready();
            Ok(ProviderStatus { ready, account: status.account })
        },
        Err(error) => Err(provider_error(error)),
    }
}

/// A client of the transport's HTTP interface.
#[derive(Debug, Clone, PartialEq, Eq)]
pub struct HttpTransportClient {
    pub base_url: String,
    pub token: String,
}

impl HttpTransportClient {
    /// An authenticated request to the interface.
    pub open spec fn shape(
        self,
        method: HttpMethod,
        path: Seq<char>,
        body: Option<Seq<(Seq<char>, ValueModel)>>,
    ) -> RequestShape {
        RequestShape {
            method,
            url: self.base_url@ + path,
            header: "Authorization"@,
            credential: "Bearer "@ + self.token@,
            body,
        }
    }

    pub fn new(base_url: String, token: String) -> (client: Self)
        ensures
            client.base_url@ == without_slashes(base_url@),
            client.token@ == token@,
    {
        HttpTransportClient { base_url: trim_slashes(base_url.as_str()), token }
    }

    /// An authenticated request to the interface.
    fn request(&self, method: HttpMethod, path: &str, body: Option<Vec<JsonField>>) -> (request:
        HttpRequest)
        ensures
            request@ == self.shape(
                method,
                path@,
                match body {
                    Some(fields) => Some(field_models(fields@)),
                    None => None,
                },
            ),
    {
        HttpRequest {
            method,
            url: joined(self.base_url.as_str(), path),
            header: "Authorization".to_owned(),
            credential: joined("Bearer ", self.token.as_str()),
            body,
        }
    }

    /// Asks for the state of the transport.
    pub fn status_request(&self) -> (request: HttpRequest)
        ensures
            request@ == self.shape(HttpMethod::Get, "/v1/status"@, None),
    {
        self.request(HttpMethod::Get, "/v1/status", None)
    }

    /// Asks for the code by which an account is linked.
    pub fn pairing_request(&self) -> (request: HttpRequest)
        ensures
            request@ == self.shape(HttpMethod::Get, "/v1/pairing"@, None),
    {
        self.request(HttpMethod::Get, "/v1/pairing", None)
    }

    /// Sends a text, unless it is too long.
    pub fn send_request(&self, chat_id: &str, text: &str) -> (request: Result<
        HttpRequest,
        TransportError,
    >)
        ensures
            text@.len() > MAX_TEXT_CHARS <==> request is Err,
            request matches Err(error) ==> error == TransportError::TextTooLong,
            request matches Ok(request) ==> request@ == self.shape(
                HttpMethod::Post,
                "/v1/messages"@,
                Some(
                    seq![
                        ("chatId"@, ValueModel::Text(chat_id@)),
                        ("text"@, ValueModel::Text(text@)),
                    ],
                ),
            ),
    {
        if chars_of(text).len() > MAX_TEXT_CHARS {
            return Err(TransportError::TextTooLong);
        }
        let mut fields: Vec<JsonField> = Vec::new();
        fields.push(JsonField::text("chatId", chat_id));
        fields.push(JsonField::text("text", text));
        assert(field_models(fields@) =~= seq![
            ("chatId"@, ValueModel::Text(chat_id@)),
            ("text"@, ValueModel::Text(text@)),
        ]);
        Ok(self.request(HttpMethod::Post, "/v1/messages", Some(fields)))
    }

    /// Replaces the text of a message, unless it is too long.
    pub fn edit_request(&self, chat_id: &str, message_id: &str, text: &str) -> (request: Result<
        HttpRequest,
        TransportError,
    >)
        ensures
            text@.len() > MAX_TEXT_CHARS <==> request is Err,
            request matches Err(error) ==> error == TransportError::TextTooLong,
            request matches Ok(request) ==> request@ == self.shape(
                HttpMethod::Post,
                "/v1/messages/edit"@,
                Some(
                    seq![
                        ("chatId"@, ValueModel::Text(chat_id@)),
                        ("messageId"@, ValueModel::Text(message_id@)),
                        ("text"@, ValueModel::Text(text@)),
                    ],
                ),
            ),
    {
        if chars_of(text).len() > MAX_TEXT_CHARS {
            return Err(TransportError::TextTooLong);
        }
        let mut fields: Vec<JsonField> = Vec::new();
        fields.push(JsonField::text("chatId", chat_id));
        fields.push(JsonField::text("messageId", message_id));
        fields.push(JsonField::text("text", text));
        assert(field_models(fields@) =~= seq![
            ("chatId"@, ValueModel::Text(chat_id@)),
            ("messageId"@, ValueModel::Text(message_id@)),
            ("text"@, ValueModel::Text(text@)),
        ]);
        Ok(self.request(HttpMethod::Post, "/v1/messages/edit", Some(fields)))
    }

    /// What the transport can do.
    pub fn capabilities(&self) -> (capabilities: ProviderCapabilities)
        ensures
            capabilities == (ProviderCapabilities {
                message_limit: MAX_TEXT_CHARS,
                edit_support: true,
                attachment_support: true,
                supports_markdown: false,
                rich_interaction_support: false,
            }),
    {
        ProviderCapabilities {
            message_limit: MAX_TEXT_CHARS,
            edit_support: true,
            attachment_support: true,
            supports_markdown: false,
            rich_interaction_support: false,
        }
    }
}

/// A reply counts as success exactly by its status: credentials that are refused, a
/// transport that is not available and anything else are told apart.
pub proof fn replies_are_told_apart(status: u16)
    ensures
        verdict_of(status) is Ok <==> 200 <= status <= 299,
        verdict_of(status) == Err::<(), _>(TransportError::Unauthorized) <==> status == 401
            || status == 403,
        verdict_of(status) == Err::<(), _>(TransportError::Unavailable) <==> status == 409
            || status == 503,
        verdict_of(status) is Ok || verdict_of(status) == Err::<(), _>(
            TransportError::Unauthorized,
        ) || verdict_of(status) == Err::<(), _>(TransportError::Unavailable) || verdict_of(status)
            == Err::<(), _>(TransportError::InvalidResponse),
{
}

/// A value is taken from a reply exactly where the reply came, counts as success and holds
/// one.
pub proof fn values_come_from_successful_replies<T>(status: Option<u16>, body: Option<T>)
    ensures
        reply_of(status, body) matches Ok(value) ==> body == Some(value),
        reply_of(status, body) is Ok <==> (status matches Some(code) && 200 <= code <= 299)
            && body is Some,
        status is None ==> reply_of(status, body) == Err::<T, _>(TransportError::Transport),
{
}

/// Every request carries the token and goes to the address of the transport.
pub proof fn requests_carry_the_token(
    client: HttpTransportClient,
    method: HttpMethod,
    path: Seq<char>,
    body: Option<Seq<(Seq<char>, ValueModel)>>,
)
    ensures
        ({
            let request = client.shape(method, path, body);
            &&& request.method == method
            &&& request.url == client.base_url@ + path
            &&& request.header == "Authorization"@
            &&& request.credential == "Bearer "@ + client.token@
            &&& request.body == body
        }),
{
}

/// The delivery worker sees an error as what it is; only a text that is too long looks like
/// a failed transmission.
pub proof fn errors_keep_their_meaning(error: TransportError)
    ensures
        provider_error_of(error) is Unauthorized <==> error is Unauthorized,
        provider_error_of(error) is Unavailable <==> error is Unavailable,
        provider_error_of(error) is InvalidResponse <==> error is InvalidResponse,
        provider_error_of(error) is Transport <==> error is Transport || error is TextTooLong,
{
}

} // verus!
