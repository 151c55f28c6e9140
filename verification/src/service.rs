//! The bridge as a service: how it is launched, what it starts from, and what its
//! HTTP routes answer.

use crate::state::BridgeState;
use crate::state::StateModel;
use crate::state::TurnModel;
use crate::text::joined3;
use crate::text::same_text;
use crate::text::texts;
use crate::transport::is_account;
use crate::transport::says_ready;
use crate::transport::TransportStatus;
use crate::transport_webhook::InboundMessage;
use crate::text::mentions;
use crate::text::lemma_mentions_itself;
use crate::text::lemma_mentions_within;
use crate::text::alike;
use vstd::prelude::*;

verus! {

/// The most bytes that the body of a webhook may have.
pub const MAX_WEBHOOK_BODY_BYTES: usize = 75_497_472;

/// What the program is asked to do.
#[derive(Debug, PartialEq, Eq)]
pub enum Launch {
    /// Run the bridge with the given config file.
    Serve(String),
    /// Ask a running bridge whether it is ready.
    HealthCheck,
}

/// Why the arguments of the program cannot be followed.
#[derive(Debug, Clone, Copy, PartialEq, Eq, Structural)]
pub enum LaunchError {
    MissingPath,
    Usage,
}

/// What a `Launch` holds.
pub enum LaunchModel {
    Serve(Seq<char>),
    HealthCheck,
}

impl View for Launch {
    type V = LaunchModel;

    open spec fn view(&self) -> LaunchModel {
        match *self {
            Launch::Serve(path) => LaunchModel::Serve(path@),
            Launch::HealthCheck => LaunchModel::HealthCheck,
        }
    }
}

impl LaunchError {
    /// The error in words.
    pub fn message(self) -> (text: &'static str)
        ensures
            text@ == match self {
                LaunchError::MissingPath => "--config requires a path"@,
                LaunchError::Usage =>
                    "usage: codex-whatsapp-bridge [--config PATH | --healthcheck]"@,
            },
    {
        match self {
            LaunchError::MissingPath => "--config requires a path",
            LaunchError::Usage => "usage: codex-whatsapp-bridge [--config PATH | --healthcheck]",
        }
    }
}

/// What arguments ask for.
pub open spec fn launch_of(arguments: Seq<Seq<char>>) -> Result<LaunchModel, LaunchError> {
    if arguments.len() == 0 {
        Ok(LaunchModel::Serve("/codex-home/config.toml"@))
    } else if arguments[0] == "--config"@ {
        if arguments.len() > 1 {
            Ok(LaunchModel::Serve(arguments[1]))
        } else {
            Err(LaunchError::MissingPath)
        }
    } else if arguments[0] == "--healthcheck"@ && arguments.len() == 1 {
        Ok(LaunchModel::HealthCheck)
    } else {
        Err(LaunchError::Usage)
    }
}

/// What the arguments of the program, without its name, ask for.
pub fn parse_config_path(arguments: &Vec<String>) -> (launch: Result<Launch, LaunchError>)
    ensures
        match launch {
            Ok(launch) => launch_of(texts(arguments@)) == Ok::<LaunchModel, LaunchError>(launch@),
            Err(error) => launch_of(texts(arguments@)) == Err::<LaunchModel, LaunchError>(error),
        },
{
    if arguments.len() == 0 {
        return Ok(Launch::Serve("/codex-home/config.toml".to_owned()));
    }
    assert(texts(arguments@)[0] == arguments@[0]@);
    if same_text(arguments[0].as_str(), "--config") {
        if arguments.len() > 1 {
            return Ok(Launch::Serve(arguments[1].clone()));
        }
        return Err(LaunchError::MissingPath);
    }
    if same_text(arguments[0].as_str(), "--healthcheck") && arguments.len() == 1 {
        return Ok(Launch::HealthCheck);
    }
    Err(LaunchError::Usage)
}

/// Why the bridge cannot start.
#[derive(Debug, Clone, Copy, PartialEq, Eq, Structural)]
pub enum StartError {
    OtherBinding,
    OtherAccount,
}

impl StartError {
    /// The error in words.
    pub fn message(self) -> (text: &'static str)
        ensures
            text@ == match self {
                StartError::OtherBinding =>
                    "persisted WhatsApp binding does not match the configured account"@,
                StartError::OtherAccount =>
                    "paired WhatsApp account does not match the configured phone number"@,
            },
    {
        match self {
            StartError::OtherBinding =>
                "persisted WhatsApp binding does not match the configured account",
            StartError::OtherAccount =>
                "paired WhatsApp account does not match the configured phone number",
        }
    }
}

/// Whether the running turn of a state lacks its thread, and the binding has it.
pub open spec fn lacks_thread(state: StateModel) -> bool {
    state.binding is Some && (state.active_turn matches Some(turn) && turn.thread_id.len() == 0)
}

/// A state with the thread of its running turn filled in from the binding, where it
/// is missing.
pub open spec fn completed_state(state: StateModel) -> StateModel {
    if lacks_thread(state) {
        StateModel {
            active_turn: Some(
                TurnModel {
                    thread_id: state.binding->0.codex_thread_id,
                    ..state.active_turn->0
                },
            ),
            ..state
        }
    } else {
        state
    }
}

/// Whether a state belongs to the chat of another account.
pub open spec fn is_foreign(state: StateModel, self_chat_id: Seq<char>) -> bool {
    state.binding matches Some(binding) && binding.self_chat_id != self_chat_id
}

/// Takes up a state that was kept. Returns whether it was changed and has to be
/// saved.
pub fn adopt_state(state: &mut BridgeState, self_chat_id: &str) -> (changed: Result<
    bool,
    StartError,
>)
    ensures
        match changed {
            Ok(changed) => !is_foreign(old(state)@, self_chat_id@) && final(state)@
                == completed_state(old(state)@) && changed == lacks_thread(old(state)@),
            Err(error) => is_foreign(old(state)@, self_chat_id@) && error
                == StartError::OtherBinding && *final(state) == *old(state),
        },
{
    let thread_id = match &state.binding {
        Some(binding) => {
            if !same_text(binding.self_chat_id.as_str(), self_chat_id) {
                return Err(StartError::OtherBinding);
            }
            binding.codex_thread_id.clone()
        },
        None => {
            return Ok(false);
        },
    };
    let mut active: Option<crate::state::ActiveTurn> = None;
    std::mem::swap(&mut active, &mut state.active_turn);
    match active {
        Some(turn) => {
            let mut turn = turn;
            if turn.thread_id.as_str().is_empty() {
                turn.thread_id = thread_id;
                state.active_turn = Some(turn);
                Ok(true)
            } else {
                state.active_turn = Some(turn);
                Ok(false)
            }
        },
        None => Ok(false),
    }
}

/// Whether the transport is healthy when the bridge starts. A transport that is
/// ready under another account stops the bridge.
pub fn initial_transport(status: &Option<TransportStatus>, phone: &str) -> (healthy: Result<
    bool,
    StartError,
>)
    ensures
        match *status {
            Some(status) => if says_ready(status) {
                healthy == if is_account(status, phone@) {
                    Ok::<bool, StartError>(true)
                } else {
                    Err::<bool, StartError>(StartError::OtherAccount)
                }
            } else {
                healthy == Ok::<bool, StartError>(false)
            },
            None => healthy == Ok::<bool, StartError>(false),
        },
{
    match status {
        Some(status) => {
            if !status.is_ready() {
                return Ok(false);
            }
            if status.belongs_to(phone) {
                Ok(true)
            } else {
                Err(StartError::OtherAccount)
            }
        },
        None => Ok(false),
    }
}

/// What is known of the pairing.
pub enum PairingModel {
    /// The account is linked.
    Paired,
    /// There is a code to link it by.
    Code(Seq<char>),
    /// There is no code yet.
    Preparing(Seq<char>),
    /// The gateway does not answer.
    Unavailable,
}

/// What is known of the pairing, by the state of the transport and the code: none
/// where the code could not be asked for, and none inside where there is no code.
pub open spec fn pairing_of(
    status: Option<TransportStatus>,
    code: Option<Option<String>>,
) -> PairingModel {
    match status {
        None => PairingModel::Unavailable,
        Some(status) => if says_ready(status) {
            PairingModel::Paired
        } else {
            match code {
                None => PairingModel::Unavailable,
                Some(None) => PairingModel::Preparing(status.status@),
                Some(Some(code)) => PairingModel::Code(code@),
            }
        },
    }
}

/// The page that shows how the pairing stands.
pub open spec fn pairing_html(name: Seq<char>, pairing: PairingModel) -> Seq<char> {
    match pairing {
        PairingModel::Paired => "<!doctype html><title>"@ + name + " connected</title><h1>"@ + name
            + " connected</h1><p>Pairing complete. WhatsApp Codex is connected. You may now close this page.</p>"@,
        PairingModel::Code(code) =>
            "<!doctype html><meta http-equiv=\"refresh\" content=\"20\"><title>Pair "@ + name
            + "</title><h1>Pair "@ + name
            + "</h1><p>Open the transport's linked devices screen and scan this code.</p><img src=\""@
            + code + "\" alt=\""@ + name + " pairing QR code\">"@,
        PairingModel::Preparing(status) =>
            "<!doctype html><meta http-equiv=\"refresh\" content=\"5\"><title>Preparing "@ + name
            + "</title><h1>Preparing "@ + name + "</h1><p>The gateway is "@ + status
            + ". This page will refresh automatically.</p>"@,
        PairingModel::Unavailable =>
            "<!doctype html><meta http-equiv=\"refresh\" content=\"5\"><title>"@ + name
            + " unavailable</title><h1>"@ + name
            + " is starting</h1><p>The gateway is temporarily unavailable. This page will retry automatically; leave it open.</p>"@,
    }
}

/// Whether the page needs the code by which an account is linked.
pub fn needs_code(status: &Option<TransportStatus>) -> (yes: bool)
    ensures
        yes == (*status matches Some(status) && !says_ready(status)),
{
    match status {
        Some(status) => !status.is_ready(),
        None => false,
    }
}

/// The page while the gateway does not answer.
fn pairing_retry_page(bridge_name: &str) -> (page: String)
    ensures
        page@ == pairing_html(bridge_name@, PairingModel::Unavailable),
{
    let mut page = joined3(
        "<!doctype html><meta http-equiv=\"refresh\" content=\"5\"><title>",
        bridge_name,
        " unavailable</title><h1>",
    );
    page.append(bridge_name);
    page.append(
        " is starting</h1><p>The gateway is temporarily unavailable. This page will retry automatically; leave it open.</p>",
    );
    page
}

/// The page that shows how the pairing stands.
pub fn pairing_page(
    bridge_name: &str,
    status: &Option<TransportStatus>,
    code: &Option<Option<String>>,
) -> (page: String)
    ensures
        page@ == pairing_html(bridge_name@, pairing_of(*status, *code)),
{
    let status = match status {
        Some(status) => status,
        None => {
            return pairing_retry_page(bridge_name);
        },
    };
    if status.is_ready() {
        let mut page = joined3(
            "<!doctype html><title>",
            bridge_name,
            " connected</title><h1>",
        );
        page.append(bridge_name);
        page.append(
            " connected</h1><p>Pairing complete. WhatsApp Codex is connected. You may now close this page.</p>",
        );
        return page;
    }
    match code {
        None => pairing_retry_page(bridge_name),
        Some(None) => {
            let mut page = joined3(
                "<!doctype html><meta http-equiv=\"refresh\" content=\"5\"><title>Preparing ",
                bridge_name,
                "</title><h1>Preparing ",
            );
            page.append(bridge_name);
            page.append("</h1><p>The gateway is ");
            page.append(status.status.as_str());
            page.append(". This page will refresh automatically.</p>");
            page
        },
        Some(Some(code)) => {
            let mut page = joined3(
                "<!doctype html><meta http-equiv=\"refresh\" content=\"20\"><title>Pair ",
                bridge_name,
                "</title><h1>Pair ",
            );
            page.append(bridge_name);
            page.append(
                "</h1><p>Open the transport's linked devices screen and scan this code.</p><img src=\"",
            );
            page.append(code.as_str());
            page.append("\" alt=\"");
            page.append(bridge_name);
            page.append(" pairing QR code\">");
            page
        },
    }
}

/// The message that a webhook brings, or the HTTP status that it is answered with:
/// one for a webhook whose event could not be verified, another for one that brings
/// no message for the bridge.
pub fn webhook_message(verified: bool, message: Option<InboundMessage>) -> (outcome: Result<
    InboundMessage,
    u16,
>)
    ensures
        outcome == if !verified {
            Err::<InboundMessage, u16>(401u16)
        } else {
            match message {
                Some(message) => Ok(message),
                None => Err(204u16),
            }
        },
{
    if !verified {
        return Err(401);
    }
    match message {
        Some(message) => Ok(message),
        None => Err(204),
    }
}

/// What is answered to a webhook whose message was handed on: whether it was
/// accepted, and none where that could not be told in time.
pub fn webhook_answer(accepted: Option<bool>) -> (status: u16)
    ensures
        status == if accepted == Some(true) {
            202u16
        } else {
            503u16
        },
{
    match accepted {
        Some(true) => 202,
        _ => 503,
    }
}

/// Taking up a state that was taken up before changes nothing.
pub proof fn adopting_again_changes_nothing(state: StateModel)
    requires
        state.binding matches Some(binding) && binding.codex_thread_id.len() > 0,
    ensures
        completed_state(completed_state(state)) == completed_state(state),
        completed_state(state).active_turn matches Some(turn) ==> turn.thread_id.len() > 0,
{
}

/// A code is shown for pairing only while the transport is not ready, and the page holds
/// exactly that code.
pub proof fn pairing_ends_with_readiness(
    name: Seq<char>,
    status: Option<TransportStatus>,
    code: Option<Option<String>>,
)
    ensures
        pairing_of(status, code) is Paired <==> (status matches Some(status) && alike(
            status.status@,
            "ready"@,
        )),
        pairing_of(status, code) matches PairingModel::Code(shown) ==> {
            &&& code matches Some(Some(given)) && given@ == shown
            &&& mentions(pairing_html(name, pairing_of(status, code)), shown)
        },
{
    if let PairingModel::Code(shown) = pairing_of(status, code) {
        let before = "<!doctype html><meta http-equiv=\"refresh\" content=\"20\"><title>Pair "@
            + name + "</title><h1>Pair "@ + name
            + "</h1><p>Open the transport's linked devices screen and scan this code.</p><img src=\""@;
        let after = "\" alt=\""@ + name + " pairing QR code\">"@;
        lemma_mentions_itself(shown);
        lemma_mentions_within(before, shown, after, shown);
        assert(before + shown + after =~= pairing_html(name, pairing_of(status, code)));
    }
}

/// A state belongs to another account exactly where it is bound to another chat.
pub proof fn other_accounts_are_recognised(state: StateModel, self_chat_id: Seq<char>)
    ensures
        is_foreign(state, self_chat_id) <==> state.binding is Some
            && state.binding->0.self_chat_id != self_chat_id,
{
}

/// The bridge serves the configuration that it is told, and checks its health only where
/// that is all it is asked.
pub proof fn launches_follow_the_arguments(arguments: Seq<Seq<char>>)
    ensures
        launch_of(arguments) matches Ok(LaunchModel::Serve(path)) ==> if arguments.len() == 0 {
            path == "/codex-home/config.toml"@
        } else {
            arguments.len() > 1 && arguments[0] == "--config"@ && path == arguments[1]
        },
        launch_of(arguments) matches Ok(LaunchModel::HealthCheck) ==> arguments
            == seq!["--healthcheck"@],
        arguments.len() > 1 && arguments[0] == "--config"@ ==> launch_of(arguments) is Ok,
        arguments == seq!["--healthcheck"@] ==> launch_of(arguments) matches Ok(
            LaunchModel::HealthCheck,
        ),
{
    reveal_strlit("--healthcheck");
    reveal_strlit("--config");
    assert("--healthcheck"@.len() != "--config"@.len());
    if launch_of(arguments) matches Ok(LaunchModel::HealthCheck) {
        assert(arguments =~= seq!["--healthcheck"@]);
    }
}

} // verus!
