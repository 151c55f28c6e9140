//! Small OpenWA REST adapter: what it asks for, in which order, and how it reads
//! the answers.

use crate::http::field_models;
use crate::http::is_server_error;
use crate::http::is_success;
use crate::http::trim_slashes;
use crate::http::without_slashes;
use crate::http::HttpMethod;
use crate::http::HttpRequest;
use crate::http::JsonField;
use crate::http::RequestShape;
use crate::http::ValueModel;
use crate::text::chars_of;
use crate::text::is_digit;
use crate::text::joined;
use crate::text::joined3;
use crate::text::same_text;
use crate::text::texts;
use crate::transport::MAX_TEXT_CHARS;
use vstd::prelude::*;

verus! {

/// How often a request is made at most.
pub const MAX_ATTEMPTS: u32 = 3;

/// Why a request to OpenWA failed.
#[derive(Debug, Clone, Copy, PartialEq, Eq, Structural)]
pub enum OpenWaError {
    Transport,
    Unauthorized,
    RateLimited,
    Server,
    InvalidResponse,
    TextTooLong,
}

impl OpenWaError {
    /// The error in words.
    pub fn message(self) -> (text: &'static str)
        ensures
            text@ == match self {
                OpenWaError::Transport => "OpenWA request failed"@,
                OpenWaError::Unauthorized => "OpenWA rejected the request"@,
                OpenWaError::RateLimited => "OpenWA is rate limiting requests"@,
                OpenWaError::Server => "OpenWA server failed"@,
                OpenWaError::InvalidResponse => "OpenWA returned an invalid response"@,
                OpenWaError::TextTooLong => "WhatsApp text is too long"@,
            },
    {
        match self {
            OpenWaError::Transport => "OpenWA request failed",
            OpenWaError::Unauthorized => "OpenWA rejected the request",
            OpenWaError::RateLimited => "OpenWA is rate limiting requests",
            OpenWaError::Server => "OpenWA server failed",
            OpenWaError::InvalidResponse => "OpenWA returned an invalid response",
            OpenWaError::TextTooLong => "WhatsApp text is too long",
        }
    }
}

/// The state of a session, with the account that it is linked to.
#[derive(Debug, Clone, PartialEq, Eq)]
pub struct OpenWaSession {
    pub status: String,
    pub phone: Option<String>,
}

/// What a status code says.
pub open spec fn verdict_of(status: u16) -> Result<(), OpenWaError> {
    if status == 401 || status == 403 {
        Err(OpenWaError::Unauthorized)
    } else if status == 429 {
        Err(OpenWaError::RateLimited)
    } else if is_server_error(status) {
        Err(OpenWaError::Server)
    } else if !is_success(status) {
        Err(OpenWaError::InvalidResponse)
    } else {
        Ok(())
    }
}

/// What a status code says.
pub fn ensure_success(status: u16) -> (verdict: Result<(), OpenWaError>)
    ensures
        verdict == verdict_of(status),
{
    if status == 401 || status == 403 {
        Err(OpenWaError::Unauthorized)
    } else if status == 429 {
        Err(OpenWaError::RateLimited)
    } else if 500 <= status && status <= 599 {
        Err(OpenWaError::Server)
    } else if status < 200 || status > 299 {
        Err(OpenWaError::InvalidResponse)
    } else {
        Ok(())
    }
}

/// What comes of a reply: `status` is none where no reply came, and `body` is none
/// where it could not be read.
pub open spec fn reply_of<T>(status: Option<u16>, body: Option<T>) -> Result<T, OpenWaError> {
    match status {
        None => Err(OpenWaError::Transport),
        Some(status) => match verdict_of(status) {
            Err(error) => Err(error),
            Ok(_) => match body {
                Some(value) => Ok(value),
                None => Err(OpenWaError::InvalidResponse),
            },
        },
    }
}

/// What comes of a reply: `status` is none where no reply came, and `body` is none
/// where it could not be read.
pub fn read_reply<T>(status: Option<u16>, body: Option<T>) -> (outcome: Result<T, OpenWaError>)
    ensures
        outcome == reply_of(status, body),
{
    match status {
        None => Err(OpenWaError::Transport),
        Some(status) => match ensure_success(status) {
            Err(error) => Err(error),
            Ok(_) => match body {
                Some(value) => Ok(value),
                None => Err(OpenWaError::InvalidResponse),
            },
        },
    }
}

/// How long to wait before a request is made again; `attempt` counts from zero. A
/// request is made again only where OpenWA asks for patience or has failed itself,
/// and only so often.
pub open spec fn pause_before_retry(status: Option<u16>, attempt: u32) -> Option<u64> {
    match status {
        Some(status) => if attempt + 1 < MAX_ATTEMPTS && (verdict_of(status) == Err::<
            (),
            OpenWaError,
        >(OpenWaError::RateLimited) || verdict_of(status) == Err::<(), OpenWaError>(
            OpenWaError::Server,
        )) {
            Some(
                if attempt == 0 {
                    250u64
                } else {
                    500u64
                },
            )
        } else {
            None
        },
        None => None,
    }
}

/// How long to wait before a request is made again, in milliseconds; none where it
/// is not.
pub fn retry_delay(status: Option<u16>, attempt: u32) -> (pause_ms: Option<u64>)
    ensures
        pause_ms == pause_before_retry(status, attempt),
{
    if attempt >= MAX_ATTEMPTS - 1 {
        return None;
    }
    match status {
        Some(status) => match ensure_success(status) {
            Err(OpenWaError::RateLimited) | Err(OpenWaError::Server) => Some(
                if attempt == 0 {
                    250
                } else {
                    500
                },
            ),
            _ => None,
        },
        None => None,
    }
}

/// A request is made no more often than it may be.
pub proof fn attempts_are_bounded(status: Option<u16>, attempt: u32)
    ensures
        pause_before_retry(status, attempt) is Some ==> attempt < MAX_ATTEMPTS - 1,
{
}

/// A webhook that is registered.
#[derive(Debug, PartialEq, Eq)]
pub struct WebhookSummary {
    pub id: String,
    pub url: String,
}

/// The first webhook from `from` on with an address.
pub open spec fn webhook_from(webhooks: Seq<WebhookSummary>, url: Seq<char>, from: int) -> Option<
    int,
>
    decreases webhooks.len() - from,
{
    if from < 0 || from >= webhooks.len() {
        None
    } else if webhooks[from].url@ == url {
        Some(from)
    } else {
        webhook_from(webhooks, url, from + 1)
    }
}

/// The events that a webhook is called for.
pub open spec fn webhook_events() -> Seq<Seq<char>> {
    seq!["message.received"@, "message.sent"@, "session.status"@]
}

/// A client of one OpenWA session.
#[derive(Debug, Clone, PartialEq, Eq)]
pub struct HttpOpenWaClient {
    pub api_base_url: String,
    pub session_id: String,
    pub api_key: String,
}

/// An authenticated request to OpenWA.
pub open spec fn shape_of(
    method: HttpMethod,
    url: Seq<char>,
    key: Seq<char>,
    body: Option<Seq<(Seq<char>, ValueModel)>>,
) -> RequestShape {
    RequestShape { method, url, header: "X-API-Key"@, credential: key, body }
}

/// An authenticated request to OpenWA.
fn request_to(method: HttpMethod, url: String, key: &str, body: Option<Vec<JsonField>>) -> (request:
    HttpRequest)
    ensures
        request@ == shape_of(
            method,
            url@,
            key@,
            match body {
                Some(fields) => Some(field_models(fields@)),
                None => None,
            },
        ),
{
    HttpRequest {
        method,
        url,
        header: "X-API-Key".to_owned(),
        credential: key.to_owned(),
        body,
    }
}

impl HttpOpenWaClient {
    /// An address of the session.
    pub open spec fn address(self, path: Seq<char>) -> Seq<char> {
        self.api_base_url@ + "/sessions/"@ + self.session_id@ + path
    }

    pub fn new(api_base_url: String, session_id: String, api_key: String) -> (client: Self)
        ensures
            client.api_base_url@ == without_slashes(api_base_url@),
            client.session_id@ == session_id@,
            client.api_key@ == api_key@,
    {
        HttpOpenWaClient { api_base_url: trim_slashes(api_base_url.as_str()), session_id, api_key }
    }

    /// An address of the session.
    fn url(&self, path: &str) -> (url: String)
        ensures
            url@ == self.address(path@),
    {
        let mut url = joined3(
            self.api_base_url.as_str(),
            "/sessions/",
            self.session_id.as_str(),
        );
        url.append(path);
        url
    }

    /// Asks for the state of the session.
    pub fn session_status(&self) -> (request: HttpRequest)
        ensures
            request@ == shape_of(
                HttpMethod::Get,
                self.address(Seq::empty()),
                self.api_key@,
                None,
            ),
    {
        let url = self.url("");
        proof {
            reveal_strlit("");
            assert(""@ =~= Seq::<char>::empty());
        }
        request_to(HttpMethod::Get, url, self.api_key.as_str(), None)
    }

    /// Asks for the code by which an account is linked.
    pub fn pairing_qr(&self) -> (request: HttpRequest)
        ensures
            request@ == shape_of(HttpMethod::Get, self.address("/qr"@), self.api_key@, None),
    {
        request_to(HttpMethod::Get, self.url("/qr"), self.api_key.as_str(), None)
    }

    /// Asks for the phone number of a contact.
    pub fn resolve_phone(&self, contact_id: &str) -> (request: HttpRequest)
        ensures
            request@ == shape_of(
                HttpMethod::Get,
                self.address("/contacts/"@ + contact_id@ + "/phone"@),
                self.api_key@,
                None,
            ),
    {
        let path = joined3("/contacts/", contact_id, "/phone");
        request_to(HttpMethod::Get, self.url(path.as_str()), self.api_key.as_str(), None)
    }

    /// Sends a text, unless it is too long.
    pub fn send_text(&self, chat_id: &str, text: &str) -> (request: Result<
        HttpRequest,
        OpenWaError,
    >)
        ensures
            text@.len() > MAX_TEXT_CHARS <==> request is Err,
            request matches Err(error) ==> error == OpenWaError::TextTooLong,
            request matches Ok(request) ==> request@ == shape_of(
                HttpMethod::Post,
                self.address("/messages/send-text"@),
                self.api_key@,
                Some(
                    seq![
                        ("chatId"@, ValueModel::Text(chat_id@)),
                        ("text"@, ValueModel::Text(text@)),
                    ],
                ),
            ),
    {
        if chars_of(text).len() > MAX_TEXT_CHARS {
            return Err(OpenWaError::TextTooLong);
        }
        let mut fields: Vec<JsonField> = Vec::new();
        fields.push(JsonField::text("chatId", chat_id));
        fields.push(JsonField::text("text", text));
        assert(field_models(fields@) =~= seq![
            ("chatId"@, ValueModel::Text(chat_id@)),
            ("text"@, ValueModel::Text(text@)),
        ]);
        Ok(
            request_to(
                HttpMethod::Post,
                self.url("/messages/send-text"),
                self.api_key.as_str(),
                Some(fields),
            ),
        )
    }

    /// Replaces the text of a message, unless it is too long.
    pub fn edit_text(&self, chat_id: &str, message_id: &str, text: &str) -> (request: Result<
        HttpRequest,
        OpenWaError,
    >)
        ensures
            text@.len() > MAX_TEXT_CHARS <==> request is Err,
            request matches Err(error) ==> error == OpenWaError::TextTooLong,
            request matches Ok(request) ==> request@ == shape_of(
                HttpMethod::Post,
                self.address("/messages/edit"@),
                self.api_key@,
                Some(
                    seq![
                        ("chatId"@, ValueModel::Text(chat_id@)),
                        ("messageId"@, ValueModel::Text(message_id@)),
                        ("body"@, ValueModel::Text(text@)),
                    ],
                ),
            ),
    {
        if chars_of(text).len() > MAX_TEXT_CHARS {
            return Err(OpenWaError::TextTooLong);
        }
        let mut fields: Vec<JsonField> = Vec::new();
        fields.push(JsonField::text("chatId", chat_id));
        fields.push(JsonField::text("messageId", message_id));
        fields.push(JsonField::text("body", text));
        assert(field_models(fields@) =~= seq![
            ("chatId"@, ValueModel::Text(chat_id@)),
            ("messageId"@, ValueModel::Text(message_id@)),
            ("body"@, ValueModel::Text(text@)),
        ]);
        Ok(
            request_to(
                HttpMethod::Post,
                self.url("/messages/edit"),
                self.api_key.as_str(),
                Some(fields),
            ),
        )
    }

    /// Asks for the webhooks of the session.
    pub fn list_webhooks(&self) -> (request: HttpRequest)
        ensures
            request@ == shape_of(HttpMethod::Get, self.address("/webhooks"@), self.api_key@, None),
    {
        request_to(HttpMethod::Get, self.url("/webhooks"), self.api_key.as_str(), None)
    }

    /// The request that registers a webhook, given those that there are.
    pub open spec fn registering(
        self,
        webhooks: Seq<WebhookSummary>,
        url: Seq<char>,
        secret: Seq<char>,
    ) -> RequestShape {
        let body = Some(
            seq![
                ("url"@, ValueModel::Text(url)),
                ("events"@, ValueModel::Texts(webhook_events())),
                ("secret"@, ValueModel::Text(secret)),
            ],
        );
        match webhook_from(webhooks, url, 0) {
            Some(index) => shape_of(
                HttpMethod::Put,
                self.address("/webhooks/"@ + webhooks[index].id@),
                self.api_key@,
                body,
            ),
            None => shape_of(HttpMethod::Post, self.address("/webhooks"@), self.api_key@, body),
        }
    }

    /// Registers a webhook, given those that there are: one with the same address is
    /// updated, so that none is there twice.
    pub fn register_webhook(
        &self,
        webhooks: &Vec<WebhookSummary>,
        url: &str,
        secret: &str,
    ) -> (request: HttpRequest)
        ensures
            request@ == self.registering(webhooks@, url@, secret@),
    {
        let mut events: Vec<String> = Vec::new();
        events.push("message.received".to_owned());
        events.push("message.sent".to_owned());
        events.push("session.status".to_owned());
        assert(texts(events@) =~= webhook_events());
        let mut fields: Vec<JsonField> = Vec::new();
        fields.push(JsonField::text("url", url));
        fields.push(JsonField::texts("events", events));
        fields.push(JsonField::text("secret", secret));
        assert(field_models(fields@) =~= seq![
            ("url"@, ValueModel::Text(url@)),
            ("events"@, ValueModel::Texts(webhook_events())),
            ("secret"@, ValueModel::Text(secret@)),
        ]);
        let mut index: usize = 0;
        while index < webhooks.len()
            invariant
                index <= webhooks@.len(),
                webhook_from(webhooks@, url@, 0) == webhook_from(webhooks@, url@, index as int),
                field_models(fields@) == seq![
                    ("url"@, ValueModel::Text(url@)),
                    ("events"@, ValueModel::Texts(webhook_events())),
                    ("secret"@, ValueModel::Text(secret@)),
                ],
            decreases webhooks@.len() - index,
        {
            if same_text(webhooks[index].url.as_str(), url) {
                let path = joined("/webhooks/", webhooks[index].id.as_str());
                return request_to(
                    HttpMethod::Put,
                    self.url(path.as_str()),
                    self.api_key.as_str(),
                    Some(fields),
                );
            }
            index += 1;
        }
        request_to(
            HttpMethod::Post,
            self.url("/webhooks"),
            self.api_key.as_str(),
            Some(fields),
        )
    }
}

/// A session that OpenWA knows.
#[derive(Debug, PartialEq, Eq)]
pub struct SessionSummary {
    pub id: String,
    pub name: String,
    pub status: String,
}

/// A session that can be used, with the key for it.
#[derive(Debug, PartialEq, Eq)]
pub struct ProvisionedSession {
    pub session_id: String,
    pub api_key: String,
}

/// Whether a character may stand in the name of a session.
pub open spec fn is_name_char(character: char) -> bool {
    ('a' <= character <= 'z') || ('A' <= character <= 'Z') || is_digit(character) || character
        == '-'
}

/// The name that a session gets: every other character becomes a hyphen.
pub open spec fn session_name(wanted: Seq<char>) -> Seq<char> {
    wanted.map_values(
        |character: char|
            if is_name_char(character) {
                character
            } else {
                '-'
            },
    )
}

/// The name that a session gets.
pub fn normalize_name(wanted: &str) -> (name: String)
    ensures
        name@ == session_name(wanted@),
{
    let chars = chars_of(wanted);
    let mut name = String::new();
    let mut index: usize = 0;
    assert(name@ =~= session_name(wanted@.take(0)));
    while index < chars.len()
        invariant
            index <= chars@.len(),
            chars@ == wanted@,
            name@ == session_name(wanted@.take(index as int)),
        decreases chars@.len() - index,
    {
        let character = chars[index];
        let kept = ('a' <= character && character <= 'z') || ('A' <= character && character
            <= 'Z') || ('0' <= character && character <= '9') || character == '-';
        name.push(
            if kept {
                character
            } else {
                '-'
            },
        );
        assert(name@ =~= session_name(wanted@.take(index + 1)));
        index += 1;
    }
    assert(wanted@.take(index as int) =~= wanted@);
    name
}

/// The name of a session is valid, as long as the wanted one, and fixed once it is.
pub proof fn session_names_are_valid(wanted: Seq<char>)
    ensures
        session_name(wanted).len() == wanted.len(),
        forall|i: int|
            0 <= i < wanted.len() ==> is_name_char(#[trigger] session_name(wanted)[i]),
        session_name(session_name(wanted)) == session_name(wanted),
{
    assert(session_name(session_name(wanted)) =~= session_name(wanted));
}

/// Whether a session runs: it is connected, or on the way to it.
pub open spec fn is_started(status: Seq<char>) -> bool {
    status == "initializing"@ || status == "connecting"@ || status == "qr_ready"@ || status
        == "authenticating"@ || status == "ready"@
}

/// Whether a session runs.
fn has_started(status: &str) -> (started: bool)
    ensures
        started == is_started(status@),
{
    same_text(status, "initializing") || same_text(status, "connecting") || same_text(
        status,
        "qr_ready",
    ) || same_text(status, "authenticating") || same_text(status, "ready")
}

/// The first session from `from` on with a name.
pub open spec fn session_from(sessions: Seq<SessionSummary>, name: Seq<char>, from: int) -> Option<
    int,
>
    decreases sessions.len() - from,
{
    if from < 0 || from >= sessions.len() {
        None
    } else if sessions[from].name@ == name {
        Some(from)
    } else {
        session_from(sessions, name, from + 1)
    }
}

/// How far the provisioning of a session has come.
#[derive(Debug, PartialEq, Eq)]
pub enum ProvisionStep {
    /// The sessions are listed.
    Listing,
    /// The session is created.
    Creating,
    /// The session is started.
    Starting { session_id: String },
    /// A key for the session is issued.
    IssuingKey { session_id: String },
    /// The session can be used.
    Done(ProvisionedSession),
    /// It cannot.
    Failed(OpenWaError),
}

/// What a `ProvisionStep` holds.
#[verifier::ext_equal]
pub enum StepModel {
    Listing,
    Creating,
    Starting { session_id: Seq<char> },
    IssuingKey { session_id: Seq<char> },
    Done { session_id: Seq<char>, api_key: Seq<char> },
    Failed(OpenWaError),
}

impl View for ProvisionStep {
    type V = StepModel;

    open spec fn view(&self) -> StepModel {
        match *self {
            ProvisionStep::Listing => StepModel::Listing,
            ProvisionStep::Creating => StepModel::Creating,
            ProvisionStep::Starting { session_id } => StepModel::Starting {
                session_id: session_id@,
            },
            ProvisionStep::IssuingKey { session_id } => StepModel::IssuingKey {
                session_id: session_id@,
            },
            ProvisionStep::Done(session) => StepModel::Done {
                session_id: session.session_id@,
                api_key: session.api_key@,
            },
            ProvisionStep::Failed(error) => StepModel::Failed(error),
        }
    }
}

/// Creates and starts the private OpenWA session, and obtains a key that is good
/// for this session alone. The administrator's key is used for nothing else.
#[derive(Debug, PartialEq, Eq)]
pub struct Provisioning {
    pub api_base_url: String,
    pub name: String,
    pub administrator_key: String,
    pub step: ProvisionStep,
}

/// The step after the sessions were listed.
pub open spec fn after_listing(name: Seq<char>, outcome: Result<Seq<SessionSummary>, OpenWaError>) ->
    StepModel {
    match outcome {
        Ok(sessions) => match session_from(sessions, name, 0) {
            Some(index) => if is_started(sessions[index].status@) {
                StepModel::IssuingKey { session_id: sessions[index].id@ }
            } else {
                StepModel::Starting { session_id: sessions[index].id@ }
            },
            None => StepModel::Creating,
        },
        Err(error) => StepModel::Failed(error),
    }
}

/// The step after the session was created. Where it was there already, its name
/// stands for it.
pub open spec fn after_creating(
    name: Seq<char>,
    status: Option<u16>,
    created: Option<SessionSummary>,
) -> StepModel {
    if status == Some(409u16) {
        StepModel::Starting { session_id: name }
    } else {
        match reply_of(status, created) {
            Ok(session) => if is_started(session.status@) {
                StepModel::IssuingKey { session_id: session.id@ }
            } else {
                StepModel::Starting { session_id: session.id@ }
            },
            Err(error) => StepModel::Failed(error),
        }
    }
}

/// The step after the session was started; it may have been before.
pub open spec fn after_starting(session_id: Seq<char>, status: Option<u16>) -> StepModel {
    match status {
        None => StepModel::Failed(OpenWaError::Transport),
        Some(status) => if status == 409 || is_success(status) {
            StepModel::IssuingKey { session_id }
        } else {
            StepModel::Failed(verdict_of(status)->Err_0)
        },
    }
}

impl Provisioning {
    /// Begins with a session of the given name.
    pub fn new(api_base_url: &str, session_name: &str, administrator_key: &str) -> (provisioning:
        Self)
        ensures
            provisioning.api_base_url@ == without_slashes(api_base_url@),
            provisioning.name@ == self::session_name(session_name@),
            provisioning.administrator_key@ == administrator_key@,
            provisioning.step@ == StepModel::Listing,
    {
        Provisioning {
            api_base_url: trim_slashes(api_base_url),
            name: normalize_name(session_name),
            administrator_key: administrator_key.to_owned(),
            step: ProvisionStep::Listing,
        }
    }

    /// The request of a step; none once the session can be used, or cannot.
    pub open spec fn wanted(self) -> Option<RequestShape> {
        let base = self.api_base_url@;
        let key = self.administrator_key@;
        match self.step@ {
            StepModel::Listing => Some(
                shape_of(HttpMethod::Get, base + "/sessions"@, key, None),
            ),
            StepModel::Creating => Some(
                shape_of(
                    HttpMethod::Post,
                    base + "/sessions"@,
                    key,
                    Some(seq![("name"@, ValueModel::Text(self.name@))]),
                ),
            ),
            StepModel::Starting { session_id } => Some(
                shape_of(
                    HttpMethod::Post,
                    base + "/sessions/"@ + session_id + "/start"@,
                    key,
                    None,
                ),
            ),
            StepModel::IssuingKey { session_id } => Some(
                shape_of(
                    HttpMethod::Post,
                    base + "/auth/api-keys"@,
                    key,
                    Some(
                        seq![
                            ("name"@, ValueModel::Text("WhatsApp Codex bridge"@)),
                            ("role"@, ValueModel::Text("operator"@)),
                            ("allowedSessions"@, ValueModel::Texts(seq![session_id])),
                        ],
                    ),
                ),
            ),
            _ => None,
        }
    }

    /// The request of the step.
    pub fn request(&self) -> (request: Option<HttpRequest>)
        ensures
            match request {
                Some(request) => self.wanted() == Some(request@),
                None => self.wanted() is None,
            },
    {
        let base = self.api_base_url.as_str();
        let key = self.administrator_key.as_str();
        match &self.step {
            ProvisionStep::Listing => Some(
                request_to(HttpMethod::Get, joined(base, "/sessions"), key, None),
            ),
            ProvisionStep::Creating => {
                let mut fields: Vec<JsonField> = Vec::new();
                fields.push(JsonField::text("name", self.name.as_str()));
                assert(field_models(fields@) =~= seq![("name"@, ValueModel::Text(self.name@))]);
                Some(
                    request_to(HttpMethod::Post, joined(base, "/sessions"), key, Some(fields)),
                )
            },
            ProvisionStep::Starting { session_id } => {
                let mut url = joined3(base, "/sessions/", session_id.as_str());
                url.append("/start");
                Some(request_to(HttpMethod::Post, url, key, None))
            },
            ProvisionStep::IssuingKey { session_id } => {
                let mut allowed: Vec<String> = Vec::new();
                allowed.push(session_id.clone());
                assert(texts(allowed@) =~= seq![session_id@]);
                let mut fields: Vec<JsonField> = Vec::new();
                fields.push(JsonField::text("name", "WhatsApp Codex bridge"));
                fields.push(JsonField::text("role", "operator"));
                fields.push(JsonField::texts("allowedSessions", allowed));
                assert(field_models(fields@) =~= seq![
                    ("name"@, ValueModel::Text("WhatsApp Codex bridge"@)),
                    ("role"@, ValueModel::Text("operator"@)),
                    ("allowedSessions"@, ValueModel::Texts(seq![session_id@])),
                ]);
                Some(
                    request_to(
                        HttpMethod::Post,
                        joined(base, "/auth/api-keys"),
                        key,
                        Some(fields),
                    ),
                )
            },
            _ => None,
        }
    }

    /// Takes the sessions that there are.
    pub fn on_listed(&mut self, status: Option<u16>, sessions: Option<Vec<SessionSummary>>)
        requires
            old(self).step is Listing,
        ensures
            final(self).step@ == after_listing(
                old(self).name@,
                match reply_of(status, sessions) {
                    Ok(sessions) => Ok(sessions@),
                    Err(error) => Err(error),
                },
            ),
            *final(self) == (Provisioning { step: final(self).step, ..*old(self) }),
    {
        let ghost reply = reply_of(status, sessions);
        let list = match read_reply(status, sessions) {
            Ok(list) => list,
            Err(error) => {
                self.step = ProvisionStep::Failed(error);
                return;
            },
        };
        let mut index: usize = 0;
        while index < list.len()
            invariant
                index <= list@.len(),
                *self == *old(self),
                reply == Ok::<Vec<SessionSummary>, OpenWaError>(list),
                reply == reply_of(status, sessions),
                session_from(list@, self.name@, 0) == session_from(
                    list@,
                    self.name@,
                    index as int,
                ),
            decreases list@.len() - index,
        {
            let session = &list[index];
            if same_text(session.name.as_str(), self.name.as_str()) {
                let session_id = session.id.clone();
                self.step = if has_started(session.status.as_str()) {
                    ProvisionStep::IssuingKey { session_id }
                } else {
                    ProvisionStep::Starting { session_id }
                };
                return;
            }
            index += 1;
        }
        self.step = ProvisionStep::Creating;
    }

    /// Takes the session that was created.
    pub fn on_created(&mut self, status: Option<u16>, created: Option<SessionSummary>)
        requires
            old(self).step is Creating,
        ensures
            final(self).step@ == after_creating(old(self).name@, status, created),
            *final(self) == (Provisioning { step: final(self).step, ..*old(self) }),
    {
        match status {
            Some(status) => {
                if status == 409 {
                    self.step = ProvisionStep::Starting { session_id: self.name.clone() };
                    return;
                }
            },
            None => {},
        }
        match read_reply(status, created) {
            Ok(session) => {
                self.step = if has_started(session.status.as_str()) {
                    ProvisionStep::IssuingKey { session_id: session.id }
                } else {
                    ProvisionStep::Starting { session_id: session.id }
                };
            },
            Err(error) => {
                self.step = ProvisionStep::Failed(error);
            },
        }
    }

    /// Takes the outcome of starting the session.
    pub fn on_started(&mut self, status: Option<u16>)
        requires
            old(self).step is Starting,
        ensures
            final(self).step@ == after_starting(old(self).step@->Starting_session_id, status),
            *final(self) == (Provisioning { step: final(self).step, ..*old(self) }),
    {
        let session_id = match &self.step {
            ProvisionStep::Starting { session_id } => session_id.clone(),
            _ => String::new(),
        };
        match status {
            None => {
                self.step = ProvisionStep::Failed(OpenWaError::Transport);
            },
            Some(status) => {
                if status == 409 {
                    self.step = ProvisionStep::IssuingKey { session_id };
                } else {
                    match ensure_success(status) {
                        Ok(_) => {
                            self.step = ProvisionStep::IssuingKey { session_id };
                        },
                        Err(error) => {
                            self.step = ProvisionStep::Failed(error);
                        },
                    }
                }
            },
        }
    }

    /// Takes the key for the session.
    pub fn on_key_issued(&mut self, status: Option<u16>, api_key: Option<String>)
        requires
            old(self).step is IssuingKey,
        ensures
            final(self).step@ == match reply_of(status, api_key) {
                Ok(api_key) => StepModel::Done {
                    session_id: old(self).step@->IssuingKey_session_id,
                    api_key: api_key@,
                },
                Err(error) => StepModel::Failed(error),
            },
            *final(self) == (Provisioning { step: final(self).step, ..*old(self) }),
    {
        let session_id = match &self.step {
            ProvisionStep::IssuingKey { session_id } => session_id.clone(),
            _ => String::new(),
        };
        match read_reply(status, api_key) {
            Ok(api_key) => {
                self.step = ProvisionStep::Done(ProvisionedSession { session_id, api_key });
            },
            Err(error) => {
                self.step = ProvisionStep::Failed(error);
            },
        }
    }
}

/// A session that runs already is neither created nor started again.
pub proof fn running_sessions_are_reused(name: Seq<char>, sessions: Seq<SessionSummary>, index: int)
    requires
        session_from(sessions, name, 0) == Some(index),
        is_started(sessions[index].status@),
    ensures
        after_listing(name, Ok(sessions)) == (StepModel::IssuingKey {
            session_id: sessions[index].id@,
        }),
{
}

/// Where the registration of a webhook stands.
#[derive(Debug, PartialEq, Eq)]
pub enum RegistrationStep {
    /// The webhooks that there are come first.
    Listing,
    /// Then the webhook is registered, or the one with its address updated.
    Registering { webhooks: Vec<WebhookSummary> },
    /// OpenWA asked for patience: all of it is done again after a pause.
    Pausing { pause_ms: u64 },
    Done,
    Failed(OpenWaError),
}

/// Registers the webhook of a session, with patience for a gateway that is busy.
#[derive(Debug, PartialEq, Eq)]
pub struct Registration {
    pub client: HttpOpenWaClient,
    pub url: String,
    pub secret: String,
    /// How often it was begun again.
    pub attempt: u32,
    pub step: RegistrationStep,
}

/// The step after the webhooks were listed.
pub open spec fn after_webhooks(
    attempt: u32,
    status: Option<u16>,
    webhooks: Option<Vec<WebhookSummary>>,
) -> RegistrationStep {
    match pause_before_retry(status, attempt) {
        Some(pause_ms) => RegistrationStep::Pausing { pause_ms },
        None => match reply_of(status, webhooks) {
            Ok(webhooks) => RegistrationStep::Registering { webhooks },
            Err(error) => RegistrationStep::Failed(error),
        },
    }
}

/// The step after the webhook was to be registered.
pub open spec fn after_registering(attempt: u32, status: Option<u16>) -> RegistrationStep {
    match pause_before_retry(status, attempt) {
        Some(pause_ms) => RegistrationStep::Pausing { pause_ms },
        None => match reply_of(status, Some(())) {
            Ok(_) => RegistrationStep::Done,
            Err(error) => RegistrationStep::Failed(error),
        },
    }
}

impl Registration {
    /// What every step keeps: it is not begun more often than a request may be made.
    pub open spec fn wf(self) -> bool {
        &&& self.attempt < MAX_ATTEMPTS
        &&& self.step is Pausing ==> self.attempt + 1 < MAX_ATTEMPTS
    }

    /// Begins with the webhooks that there are.
    pub fn new(client: HttpOpenWaClient, url: &str, secret: &str) -> (registration: Self)
        ensures
            registration.wf(),
            registration.client == client,
            registration.url@ == url@,
            registration.secret@ == secret@,
            registration.attempt == 0,
            registration.step is Listing,
    {
        Registration {
            client,
            url: url.to_owned(),
            secret: secret.to_owned(),
            attempt: 0,
            step: RegistrationStep::Listing,
        }
    }

    /// The request of a step; none in a pause, and none at the end.
    pub open spec fn wanted(self) -> Option<RequestShape> {
        match self.step {
            RegistrationStep::Listing => Some(
                shape_of(
                    HttpMethod::Get,
                    self.client.address("/webhooks"@),
                    self.client.api_key@,
                    None,
                ),
            ),
            RegistrationStep::Registering { webhooks } => Some(
                self.client.registering(webhooks@, self.url@, self.secret@),
            ),
            _ => None,
        }
    }

    /// The request of the step.
    pub fn request(&self) -> (request: Option<HttpRequest>)
        ensures
            match request {
                Some(request) => self.wanted() == Some(request@),
                None => self.wanted() is None,
            },
    {
        match &self.step {
            RegistrationStep::Listing => Some(self.client.list_webhooks()),
            RegistrationStep::Registering { webhooks } => Some(
                self.client.register_webhook(webhooks, self.url.as_str(), self.secret.as_str()),
            ),
            _ => None,
        }
    }

    /// Takes the webhooks that there are.
    pub fn on_listed(&mut self, status: Option<u16>, webhooks: Option<Vec<WebhookSummary>>)
        requires
            old(self).wf(),
            old(self).step is Listing,
        ensures
            final(self).wf(),
            *final(self) == (Registration {
                step: after_webhooks(old(self).attempt, status, webhooks),
                ..*old(self)
            }),
    {
        self.step = match retry_delay(status, self.attempt) {
            Some(pause_ms) => RegistrationStep::Pausing { pause_ms },
            None => match read_reply(status, webhooks) {
                Ok(webhooks) => RegistrationStep::Registering { webhooks },
                Err(error) => RegistrationStep::Failed(error),
            },
        };
    }

    /// Takes the outcome of registering the webhook.
    pub fn on_registered(&mut self, status: Option<u16>)
        requires
            old(self).wf(),
            old(self).step is Registering,
        ensures
            final(self).wf(),
            *final(self) == (Registration {
                step: after_registering(old(self).attempt, status),
                ..*old(self)
            }),
    {
        self.step = match retry_delay(status, self.attempt) {
            Some(pause_ms) => RegistrationStep::Pausing { pause_ms },
            None => match read_reply(status, Some(())) {
                Ok(_) => RegistrationStep::Done,
                Err(error) => RegistrationStep::Failed(error),
            },
        };
    }

    /// Begins again after a pause.
    pub fn on_paused(&mut self)
        requires
            old(self).wf(),
            old(self).step is Pausing,
        ensures
            final(self).wf(),
            *final(self) == (Registration {
                attempt: (old(self).attempt + 1) as u32,
                step: RegistrationStep::Listing,
                ..*old(self)
            }),
    {
        self.attempt = self.attempt + 1;
        self.step = RegistrationStep::Listing;
    }
}

/// A webhook is registered only where its own request succeeded, and a webhook that
/// has the address already is updated in its place.
pub proof fn webhooks_are_registered_once(
    registration: Registration,
    webhooks: Seq<WebhookSummary>,
    status: Option<u16>,
)
    ensures
        after_registering(registration.attempt, status) is Done <==> status is Some && is_success(
            status->0,
        ),
        forall|i: int|
            0 <= i < webhooks.len() && (#[trigger] webhooks[i]).url@ == registration.url@
                ==> registration.client.registering(
                webhooks,
                registration.url@,
                registration.secret@,
            ).method is Put,
{
    assert forall|i: int|
        0 <= i < webhooks.len() && (#[trigger] webhooks[i]).url@ == registration.url@ implies
        webhook_from(webhooks, registration.url@, 0) is Some by {
        lemma_webhook_from(webhooks, registration.url@, 0, i);
    }
}

proof fn lemma_webhook_from(webhooks: Seq<WebhookSummary>, url: Seq<char>, from: int, index: int)
    requires
        0 <= from <= index < webhooks.len(),
        webhooks[index].url@ == url,
    ensures
        webhook_from(webhooks, url, from) is Some,
    decreases index - from,
{
    if webhooks[from].url@ != url {
        lemma_webhook_from(webhooks, url, from + 1, index);
    }
}

/// Replies are told apart by their status, each status by one rule.
pub proof fn statuses_are_told_apart(status: u16)
    ensures
        verdict_of(status) is Ok <==> 200 <= status <= 299,
        verdict_of(status) == Err::<(), _>(OpenWaError::Unauthorized) <==> status == 401 || status
            == 403,
        verdict_of(status) == Err::<(), _>(OpenWaError::RateLimited) <==> status == 429,
        verdict_of(status) == Err::<(), _>(OpenWaError::Server) <==> 500 <= status <= 599,
        !(verdict_of(status) is Ok) && !(400 <= status <= 599) ==> verdict_of(status) == Err::<
            (),
            _,
        >(OpenWaError::InvalidResponse),
{
}

/// A request is made again exactly where the gateway is busy or broken and it was not made
/// too often yet; the pause before it does not get shorter.
pub proof fn only_passing_trouble_is_retried(status: Option<u16>, attempt: u32)
    ensures
        pause_before_retry(status, attempt) is Some <==> attempt < 2 && (status matches Some(code)
            && (code == 429 || 500 <= code <= 599)),
        pause_before_retry(status, 0) is Some ==> 0 < pause_before_retry(status, 0)->0
            <= pause_before_retry(status, 1)->0,
{
}

/// The name of a session keeps every letter, digit and hyphen in its place, and has a
/// hyphen wherever anything else was wanted.
pub proof fn session_names_follow_the_wanted_name(wanted: Seq<char>, index: int)
    requires
        0 <= index < wanted.len(),
    ensures
        ({
            let character = wanted[index];
            let kept = 'a' <= character <= 'z' || 'A' <= character <= 'Z' || '0' <= character
                <= '9';
            session_name(wanted)[index] == if kept {
                character
            } else {
                '-'
            }
        }),
{
}

proof fn lemma_session_from(sessions: Seq<SessionSummary>, name: Seq<char>, from: int)
    requires
        0 <= from,
    ensures
        match session_from(sessions, name, from) {
            Some(index) => from <= index < sessions.len() && sessions[index].name@ == name
                && forall|i: int| from <= i < index ==> (#[trigger] sessions[i]).name@ != name,
            None => forall|i: int|
                from <= i < sessions.len() ==> (#[trigger] sessions[i]).name@ != name,
        },
    decreases sessions.len() - from,
{
    if from < sessions.len() && sessions[from].name@ != name {
        lemma_session_from(sessions, name, from + 1);
    }
}

/// A session is created only where none has the name, and started only where the one with
/// the name does not run.
pub proof fn sessions_are_found_by_name(name: Seq<char>, sessions: Seq<SessionSummary>, index: int)
    ensures
        ({
            let step = after_listing(name, Ok(sessions));
            &&& step is Creating <==> forall|i: int|
                0 <= i < sessions.len() ==> (#[trigger] sessions[i]).name@ != name
            &&& 0 <= index < sessions.len() && sessions[index].name@ == name && (forall|i: int|
                0 <= i < index ==> (#[trigger] sessions[i]).name@ != name) ==> step == (if
                is_started(sessions[index].status@) {
                StepModel::IssuingKey { session_id: sessions[index].id@ }
            } else {
                StepModel::Starting { session_id: sessions[index].id@ }
            })
        }),
{
    lemma_session_from(sessions, name, 0);
}

/// The key that is issued is good for the session that was provisioned and for no other,
/// and is no administrator's.
pub proof fn keys_are_issued_for_one_session(provisioning: Provisioning, session_id: Seq<char>)
    requires
        provisioning.step@ == (StepModel::IssuingKey { session_id }),
    ensures
        provisioning.wanted() matches Some(request) && {
            &&& request.method is Post
            &&& request.credential == provisioning.administrator_key@
            &&& request.body matches Some(fields) && fields.contains(
                ("allowedSessions"@, ValueModel::Texts(seq![session_id])),
            ) && fields.contains(("role"@, ValueModel::Text("operator"@)))
        },
{
    let fields = provisioning.wanted()->0.body->0;
    assert(fields[1] == ("role"@, ValueModel::Text("operator"@)));
    assert(fields[2] == ("allowedSessions"@, ValueModel::Texts(seq![session_id])));
}

/// A webhook is registered with its address and its secret, for messages that were received
/// or sent and for the status of the session.
pub proof fn webhooks_carry_address_and_secret(
    client: HttpOpenWaClient,
    webhooks: Seq<WebhookSummary>,
    url: Seq<char>,
    secret: Seq<char>,
)
    ensures
        ({
            let request = client.registering(webhooks, url, secret);
            &&& request.credential == client.api_key@
            &&& request.body matches Some(fields) && {
                &&& fields.len() == 3
                &&& fields[0] == ("url"@, ValueModel::Text(url))
                &&& fields[1] == (
                    "events"@,
                    ValueModel::Texts(
                        seq!["message.received"@, "message.sent"@, "session.status"@],
                    ),
                )
                &&& fields[2] == ("secret"@, ValueModel::Text(secret))
            }
            &&& request.method is Post <==> forall|i: int|
                0 <= i < webhooks.len() ==> (#[trigger] webhooks[i]).url@ != url
            &&& request.method is Put ==> exists|i: int|
                0 <= i < webhooks.len() && (#[trigger] webhooks[i]).url@ == url && request.url
                    == client.api_base_url@ + "/sessions/"@ + client.session_id@ + ("/webhooks/"@
                    + webhooks[i].id@)
        }),
{
    lemma_first_webhook(webhooks, url, 0);
    if let Some(index) = webhook_from(webhooks, url, 0) {
        assert(webhooks[index].url@ == url);
    }
}

proof fn lemma_first_webhook(webhooks: Seq<WebhookSummary>, url: Seq<char>, from: int)
    requires
        0 <= from,
    ensures
        match webhook_from(webhooks, url, from) {
            Some(index) => from <= index < webhooks.len() && webhooks[index].url@ == url,
            None => forall|i: int|
                from <= i < webhooks.len() ==> (#[trigger] webhooks[i]).url@ != url,
        },
    decreases webhooks.len() - from,
{
    if from < webhooks.len() && webhooks[from].url@ != url {
        lemma_first_webhook(webhooks, url, from + 1);
    }
}

} // verus!
