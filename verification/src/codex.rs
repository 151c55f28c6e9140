//! The outcomes of Codex's app-server requests, as far as the bridge acts on them.

use crate::protocol::input_models;
use crate::protocol::InputModel;
use crate::protocol::UserInput;
use crate::text::after_prefix;
use crate::text::before_suffix;
use crate::text::joined;
use crate::text::option_text;
use crate::text::parted;
use crate::text::same_text;
use crate::text::split_once;
use crate::text::strip_prefix;
use crate::text::strip_suffix;
use crate::text::lemma_parted_behind;
use crate::text::starts;
use vstd::prelude::*;

verus! {

/// Why a request to the app-server failed.
#[derive(Debug, Clone, PartialEq, Eq)]
pub enum CodexError {
    /// The app-server could not be reached, or its answer was lost.
    Transport(String),
    /// The app-server refused the request.
    Server {
        message: String,
        /// Whether the refusal says that the active turn takes no further input.
        not_steerable: bool,
    },
}

/// One thread that can be resumed.
#[derive(Debug, Clone, PartialEq, Eq)]
pub struct ThreadSummary {
    pub id: String,
    pub preview: String,
}

/// The turn that a refusal names as the active one.
pub open spec fn named_turn(message: Seq<char>) -> Option<Seq<char>> {
    let quoted = match after_prefix(message, "expected active turn id `"@) {
        Some(rest) => match parted(rest, "` but found `"@) {
            Some((_, actual)) => before_suffix(actual, "`"@),
            None => None,
        },
        None => None,
    };
    match quoted {
        Some(actual) => Some(actual),
        None => match after_prefix(message, "expected active turn id "@) {
            Some(rest) => match parted(rest, " but found "@) {
                Some((_, actual)) => Some(actual),
                None => None,
            },
            None => None,
        },
    }
}

/// The turn that a quoted refusal names as the active one.
fn quoted_turn(message: &str) -> (turn: Option<String>)
    ensures
        option_text(turn) == match after_prefix(message@, "expected active turn id `"@) {
            Some(rest) => match parted(rest, "` but found `"@) {
                Some((_, actual)) => before_suffix(actual, "`"@),
                None => None,
            },
            None => None,
        },
{
    match strip_prefix(message, "expected active turn id `") {
        Some(rest) => match split_once(rest.as_str(), "` but found `") {
            Some((_, actual)) => strip_suffix(actual.as_str(), "`"),
            None => None,
        },
        None => None,
    }
}

impl CodexError {
    /// The error in words.
    pub fn message(&self) -> (text: String)
        ensures
            text@ == match *self {
                CodexError::Transport(error) => "failed to communicate with Codex app-server: "@
                    + error@,
                CodexError::Server { message, .. } => "Codex app-server rejected the request: "@
                    + message@,
            },
    {
        match self {
            CodexError::Transport(error) => joined(
                "failed to communicate with Codex app-server: ",
                error.as_str(),
            ),
            CodexError::Server { message, .. } => joined(
                "Codex app-server rejected the request: ",
                message.as_str(),
            ),
        }
    }

    /// Whether the app-server says that no turn is running.
    pub fn is_no_active_turn(&self) -> (yes: bool)
        ensures
            yes == (self matches CodexError::Server { message, .. } && message@
                == "no active turn to steer"@),
    {
        match self {
            CodexError::Server { message, .. } => same_text(
                message.as_str(),
                "no active turn to steer",
            ),
            CodexError::Transport(_) => false,
        }
    }

    /// The turn that the app-server names as the active one.
    pub fn actual_turn_id(&self) -> (turn: Option<String>)
        ensures
            option_text(turn) == match *self {
                CodexError::Server { message, .. } => named_turn(message@),
                CodexError::Transport(_) => None,
            },
    {
        let message = match self {
            CodexError::Server { message, .. } => message,
            CodexError::Transport(_) => {
                return None;
            },
        };
        match quoted_turn(message.as_str()) {
            Some(actual) => {
                return Some(actual);
            },
            None => {},
        }
        match strip_prefix(message.as_str(), "expected active turn id ") {
            Some(rest) => match split_once(rest.as_str(), " but found ") {
                Some((_, actual)) => Some(actual),
                None => None,
            },
            None => None,
        }
    }

    /// Whether the active turn takes no further input.
    pub fn is_non_steerable(&self) -> (yes: bool)
        ensures
            yes == (*self matches CodexError::Server { not_steerable, .. } && not_steerable),
    {
        match self {
            CodexError::Server { not_steerable, .. } => *not_steerable,
            CodexError::Transport(_) => false,
        }
    }
}

/// How many threads are listed at most.
pub const MAX_LISTED_THREADS: u32 = 20;

/// The code by which the bridge refuses a request of the app-server.
pub const REFUSAL_CODE: i64 = -32000;

/// What the bridge says when it refuses a request of the app-server.
pub fn refusal_message() -> (text: &'static str)
    ensures
        text@ == "WhatsApp bridge does not support this request"@,
{
    "WhatsApp bridge does not support this request"
}

/// What the bridge requests of the app-server.
#[derive(Debug, PartialEq, Eq)]
pub enum ClientCall {
    ThreadStart { ephemeral: bool },
    ThreadResume { thread_id: String },
    ThreadList { limit: u32 },
    TurnStart { thread_id: String, client_user_message_id: String, input: Vec<UserInput> },
    TurnSteer {
        thread_id: String,
        client_user_message_id: String,
        input: Vec<UserInput>,
        expected_turn_id: String,
    },
    TurnInterrupt { thread_id: String, turn_id: String },
}

/// A request to the app-server, with its number.
#[derive(Debug, PartialEq, Eq)]
pub struct ClientRequest {
    pub request_id: i64,
    pub call: ClientCall,
}

/// What a `ClientCall` holds.
#[verifier::ext_equal]
pub enum CallModel {
    ThreadStart { ephemeral: bool },
    ThreadResume { thread_id: Seq<char> },
    ThreadList { limit: u32 },
    TurnStart {
        thread_id: Seq<char>,
        client_user_message_id: Seq<char>,
        input: Seq<InputModel>,
    },
    TurnSteer {
        thread_id: Seq<char>,
        client_user_message_id: Seq<char>,
        input: Seq<InputModel>,
        expected_turn_id: Seq<char>,
    },
    TurnInterrupt { thread_id: Seq<char>, turn_id: Seq<char> },
}

impl View for ClientCall {
    type V = CallModel;

    open spec fn view(&self) -> CallModel {
        match *self {
            ClientCall::ThreadStart { ephemeral } => CallModel::ThreadStart { ephemeral },
            ClientCall::ThreadResume { thread_id } => CallModel::ThreadResume {
                thread_id: thread_id@,
            },
            ClientCall::ThreadList { limit } => CallModel::ThreadList { limit },
            ClientCall::TurnStart { thread_id, client_user_message_id, input } =>
                CallModel::TurnStart {
                thread_id: thread_id@,
                client_user_message_id: client_user_message_id@,
                input: input_models(input@),
            },
            ClientCall::TurnSteer { thread_id, client_user_message_id, input, expected_turn_id } =>
                CallModel::TurnSteer {
                thread_id: thread_id@,
                client_user_message_id: client_user_message_id@,
                input: input_models(input@),
                expected_turn_id: expected_turn_id@,
            },
            ClientCall::TurnInterrupt { thread_id, turn_id } => CallModel::TurnInterrupt {
                thread_id: thread_id@,
                turn_id: turn_id@,
            },
        }
    }
}

/// The side of the bridge in a connection to the app-server: whether it stands, and
/// the number of the next request.
#[derive(Debug, PartialEq, Eq)]
pub struct CodexSession {
    pub connected: bool,
    pub next_request_id: i64,
}

/// The number after another; the numbers start over at the end.
pub open spec fn number_after(number: i64) -> i64 {
    if number == i64::MAX {
        i64::MIN
    } else {
        (number + 1) as i64
    }
}

impl CodexSession {
    /// A session on a connection that stands.
    pub fn connected() -> (session: Self)
        ensures
            session == (CodexSession { connected: true, next_request_id: 1 }),
    {
        CodexSession { connected: true, next_request_id: 1 }
    }

    /// A session without connection.
    pub fn disconnected() -> (session: Self)
        ensures
            session == (CodexSession { connected: false, next_request_id: 1 }),
    {
        CodexSession { connected: false, next_request_id: 1 }
    }

    /// Whether the connection stands.
    pub fn is_connected(&self) -> (yes: bool)
        ensures
            yes == self.connected,
    {
        self.connected
    }

    /// Takes note that the connection was replaced. Requests are numbered on.
    pub fn reconnect(&mut self)
        ensures
            *final(self) == (CodexSession { connected: true, ..*old(self) }),
    {
        self.connected = true;
    }

    /// Gives the connection up. Returns whether there was one.
    pub fn shutdown(&mut self) -> (stood: bool)
        ensures
            stood == old(self).connected,
            *final(self) == (CodexSession { connected: false, ..*old(self) }),
    {
        let stood = self.connected;
        self.connected = false;
        stood
    }

    /// The number of the next request.
    fn request_id(&mut self) -> (number: i64)
        ensures
            number == old(self).next_request_id,
            *final(self) == (CodexSession {
                next_request_id: number_after(old(self).next_request_id),
                ..*old(self)
            }),
    {
        let number: i64 = self.next_request_id;
        self.next_request_id = if number == i64::MAX {
            i64::MIN
        } else {
            number + 1
        };
        number
    }

    /// A request for a call, numbered; an error where there is no connection.
    pub fn request(&mut self, call: ClientCall) -> (request: Result<ClientRequest, CodexError>)
        ensures
            match request {
                Ok(request) => old(self).connected && request == (ClientRequest {
                    request_id: old(self).next_request_id,
                    call,
                }) && *final(self) == (CodexSession {
                    next_request_id: number_after(old(self).next_request_id),
                    ..*old(self)
                }),
                Err(error) => !old(self).connected && (error matches CodexError::Transport(text)
                    && text@ == "client is disconnected"@) && *final(self) == *old(self),
            },
    {
        if !self.connected {
            return Err(CodexError::Transport("client is disconnected".to_owned()));
        }
        let request_id: i64 = self.request_id();
        Ok(ClientRequest { request_id, call })
    }
}

/// The call for starting a thread that is kept.
pub fn start_thread_call() -> (call: ClientCall)
    ensures
        call@ == (CallModel::ThreadStart { ephemeral: false }),
{
    ClientCall::ThreadStart { ephemeral: false }
}

/// The call for listing threads.
pub fn list_threads_call() -> (call: ClientCall)
    ensures
        call@ == (CallModel::ThreadList { limit: MAX_LISTED_THREADS }),
{
    ClientCall::ThreadList { limit: MAX_LISTED_THREADS }
}

/// Two requests in a row have different numbers.
pub proof fn requests_are_told_apart(number: i64)
    ensures
        number_after(number) != number,
        number < i64::MAX ==> number_after(number) > number,
{
}

/// The turn that runs in place of the expected one is read from the message of Codex, with
/// its quotes.
pub proof fn quoted_turns_are_named(message: Seq<char>, expected: Seq<char>, actual: Seq<char>)
    requires
        message == "expected active turn id `"@ + (expected + "` but found `"@ + (actual + "`"@)),
        forall|i: int| 0 <= i < expected.len() ==> #[trigger] expected[i] != '`',
    ensures
        named_turn(message) == Some(actual),
{
    reveal_strlit("expected active turn id `");
    reveal_strlit("` but found `");
    reveal_strlit("`");
    let prefix = "expected active turn id `"@;
    let rest = expected + "` but found `"@ + (actual + "`"@);
    assert(message.subrange(0, prefix.len() as int) =~= prefix);
    assert(message.skip(prefix.len() as int) =~= rest);
    lemma_parted_behind(expected, "` but found `"@, actual + "`"@);
    let quoted = actual + "`"@;
    assert(quoted.subrange(actual.len() as int, quoted.len() as int) =~= "`"@);
    assert(quoted.take(actual.len() as int) =~= actual);
}

/// The turn that runs in place of the expected one is read from the message of Codex, also
/// without quotes.
pub proof fn bare_turns_are_named(message: Seq<char>, expected: Seq<char>, actual: Seq<char>)
    requires
        message == "expected active turn id "@ + (expected + " but found "@ + actual),
        expected.len() > 0,
        expected[0] != '`',
        forall|i: int| 0 <= i < expected.len() ==> #[trigger] expected[i] != ' ',
    ensures
        named_turn(message) == Some(actual),
{
    reveal_strlit("expected active turn id ");
    reveal_strlit("expected active turn id `");
    reveal_strlit(" but found ");
    let prefix = "expected active turn id "@;
    let rest = expected + " but found "@ + actual;
    assert(message.subrange(0, prefix.len() as int) =~= prefix);
    assert(message.skip(prefix.len() as int) =~= rest);
    let quoted = "expected active turn id `"@;
    if after_prefix(message, quoted) is Some {
        assert(message.subrange(0, quoted.len() as int)[24] == '`');
        assert(message[24] == expected[0]);
    }
    lemma_parted_behind(expected, " but found "@, actual);
}

/// A message that does not speak of another turn names none.
pub proof fn other_messages_name_no_turn(message: Seq<char>)
    requires
        !starts(message, "expected active turn id "@),
    ensures
        named_turn(message) is None,
{
    reveal_strlit("expected active turn id ");
    reveal_strlit("expected active turn id `");
    let quoted = "expected active turn id `"@;
    let bare = "expected active turn id "@;
    if after_prefix(message, quoted) is Some {
        assert(message.subrange(0, quoted.len() as int) == quoted);
        assert(message.subrange(0, bare.len() as int) =~= message.subrange(
            0,
            quoted.len() as int,
        ).subrange(0, bare.len() as int));
        assert(quoted.subrange(0, bare.len() as int) =~= bare);
    }
}

} // verus!
