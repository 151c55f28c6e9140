//! User-facing configuration of the bridge and of WhatsApp.
//!
//! WhatsApp is an optional Codex input transport. The user config records only
//! that choice and the private account that may send it input. Gateway credentials
//! and container details are runtime state owned by Codex.

use crate::text::chars_of;
use crate::text::is_ascii_digit;
use crate::text::is_digit;
use crate::text::joined;
use crate::text::joined_path;
use crate::text::path_under;
use crate::text::text_between;
use vstd::prelude::*;

verus! {

/// Top-level `[bridge]` settings shared by every remote provider adapter.
#[derive(Debug, Clone, Copy, PartialEq, Eq, Structural)]
pub struct BridgeConfigToml {
    /// Include reasoning summaries and raw reasoning content in remote output.
    pub include_reasoning: bool,
    /// Include tool calls and tool activity in remote output.
    pub include_tool_calls: bool,
    /// Include command and file-change approval notices in remote output.
    /// Permission requests are not controlled by this setting.
    pub include_approval_notices: bool,
    /// Include reports of automatic approval reviews in remote output.
    pub include_automatic_approval_reviews: bool,
}

impl Default for BridgeConfigToml {
    fn default() -> (config: Self)
        ensures
            config == (BridgeConfigToml {
                include_reasoning: false,
                include_tool_calls: false,
                include_approval_notices: false,
                include_automatic_approval_reviews: false,
            }),
    {
        BridgeConfigToml {
            include_reasoning: false,
            include_tool_calls: false,
            include_approval_notices: false,
            include_automatic_approval_reviews: false,
        }
    }
}

/// Why the bridge settings could not be loaded.
#[derive(Debug, Clone, Copy, PartialEq, Eq, Structural)]
pub enum BridgeConfigError {
    Read,
    Parse,
}

impl BridgeConfigError {
    /// The error in words.
    pub fn message(self) -> (text: &'static str)
        ensures
            text@ == match self {
                BridgeConfigError::Read => "failed to read bridge configuration"@,
                BridgeConfigError::Parse => "failed to parse bridge configuration"@,
            },
    {
        match self {
            BridgeConfigError::Read => "failed to read bridge configuration",
            BridgeConfigError::Parse => "failed to parse bridge configuration",
        }
    }
}

/// One table of the user's config file, as far as it could be had.
#[derive(Debug, PartialEq, Eq)]
pub enum LoadedTable<T> {
    /// The file could not be read.
    Unreadable,
    /// The file, or the table in it, could not be parsed.
    Malformed,
    /// The file has no such table.
    Absent,
    Table(T),
}

impl BridgeConfigToml {
    /// What comes of loading exactly the `[bridge]` table.
    pub fn loaded(table: LoadedTable<BridgeConfigToml>) -> (outcome: Result<
        Option<BridgeConfigToml>,
        BridgeConfigError,
    >)
        ensures
            outcome == match table {
                LoadedTable::Unreadable => Err::<Option<BridgeConfigToml>, BridgeConfigError>(
                    BridgeConfigError::Read,
                ),
                LoadedTable::Malformed => Err(BridgeConfigError::Parse),
                LoadedTable::Absent => Ok(None),
                LoadedTable::Table(config) => Ok(Some(config)),
            },
    {
        match table {
            LoadedTable::Unreadable => Err(BridgeConfigError::Read),
            LoadedTable::Malformed => Err(BridgeConfigError::Parse),
            LoadedTable::Absent => Ok(None),
            LoadedTable::Table(config) => Ok(Some(config)),
        }
    }
}

/// Top-level `[whatsapp]` settings stored in the base user configuration.
#[derive(Debug, PartialEq, Eq)]
pub struct WhatsAppConfigToml {
    pub onboarding_complete: bool,
    pub enabled: bool,
    pub account_phone_number: Option<String>,
}

impl Clone for WhatsAppConfigToml {
    fn clone(&self) -> (copy: Self)
        ensures
            copy == *self,
    {
        WhatsAppConfigToml {
            onboarding_complete: self.onboarding_complete,
            enabled: self.enabled,
            account_phone_number: match &self.account_phone_number {
                Some(number) => Some(number.clone()),
                None => None,
            },
        }
    }
}

impl Default for WhatsAppConfigToml {
    fn default() -> (config: Self)
        ensures
            config == (WhatsAppConfigToml {
                onboarding_complete: false,
                enabled: false,
                account_phone_number: None,
            }),
    {
        WhatsAppConfigToml {
            onboarding_complete: false,
            enabled: false,
            account_phone_number: None,
        }
    }
}

/// Private local gateway state. This is deliberately stored outside
/// `config.toml`; users neither enter nor edit these values.
#[derive(Debug, Clone, PartialEq, Eq)]
pub struct WhatsAppRuntimeConfig {
    pub bridge_name: String,
    pub transport_base_url: String,
    pub transport_api_token: String,
    pub webhook_signing_secret: String,
    pub webhook_url: String,
    pub bridge_listen: String,
    pub state_path: String,
    pub max_queued_prompts: usize,
    /// Read for compatibility, and not written. Delivery uses provider capabilities.
    pub output_chunk_chars: usize,
    /// Read for compatibility, and not written. Edit scheduling belongs to the
    /// delivery worker.
    pub edit_interval_ms: u64,
    pub dedupe_capacity: usize,
    pub dedupe_ttl_hours: u64,
}

impl WhatsAppRuntimeConfig {
    /// The settings as they are written: without what is only read for
    /// compatibility.
    pub fn persisted(&self) -> (written: Self)
        ensures
            written.bridge_name@ == self.bridge_name@,
            written.transport_base_url@ == self.transport_base_url@,
            written.transport_api_token@ == self.transport_api_token@,
            written.webhook_signing_secret@ == self.webhook_signing_secret@,
            written.webhook_url@ == self.webhook_url@,
            written.bridge_listen@ == self.bridge_listen@,
            written.state_path@ == self.state_path@,
            written.max_queued_prompts == self.max_queued_prompts,
            written.output_chunk_chars == 0,
            written.edit_interval_ms == 0,
            written.dedupe_capacity == self.dedupe_capacity,
            written.dedupe_ttl_hours == self.dedupe_ttl_hours,
    {
        WhatsAppRuntimeConfig {
            bridge_name: self.bridge_name.clone(),
            transport_base_url: self.transport_base_url.clone(),
            transport_api_token: self.transport_api_token.clone(),
            webhook_signing_secret: self.webhook_signing_secret.clone(),
            webhook_url: self.webhook_url.clone(),
            bridge_listen: self.bridge_listen.clone(),
            state_path: self.state_path.clone(),
            max_queued_prompts: self.max_queued_prompts,
            output_chunk_chars: 0,
            edit_interval_ms: 0,
            dedupe_capacity: self.dedupe_capacity,
            dedupe_ttl_hours: self.dedupe_ttl_hours,
        }
    }
}

/// The name that a bridge has where none is given.
pub fn default_bridge_name() -> (name: String)
    ensures
        name@ == "WhatsApp"@,
{
    "WhatsApp".to_owned()
}

/// Why the WhatsApp settings cannot be used.
#[derive(Debug, Clone, Copy, PartialEq, Eq, Structural)]
pub enum WhatsAppConfigError {
    Incomplete,
    InvalidPhoneNumber,
    Read,
    Parse,
    Write,
}

impl WhatsAppConfigError {
    /// The error in words.
    pub fn message(self) -> (text: &'static str)
        ensures
            text@ == match self {
                WhatsAppConfigError::Incomplete => "WhatsApp configuration is incomplete"@,
                WhatsAppConfigError::InvalidPhoneNumber =>
                    "WhatsApp account phone number must be canonical E.164"@,
                WhatsAppConfigError::Read => "failed to read WhatsApp configuration"@,
                WhatsAppConfigError::Parse => "failed to parse WhatsApp configuration"@,
                WhatsAppConfigError::Write => "failed to persist WhatsApp runtime state"@,
            },
    {
        match self {
            WhatsAppConfigError::Incomplete => "WhatsApp configuration is incomplete",
            WhatsAppConfigError::InvalidPhoneNumber =>
                "WhatsApp account phone number must be canonical E.164",
            WhatsAppConfigError::Read => "failed to read WhatsApp configuration",
            WhatsAppConfigError::Parse => "failed to parse WhatsApp configuration",
            WhatsAppConfigError::Write => "failed to persist WhatsApp runtime state",
        }
    }
}

/// Whether a text is a canonical E.164 phone number: a plus and 8 to 15 digits, the
/// first of them no zero.
pub open spec fn is_e164(value: Seq<char>) -> bool {
    &&& value.len() >= 9
    &&& value.len() <= 16
    &&& value[0] == '+'
    &&& value[1] != '0'
    &&& forall|i: int| 1 <= i < value.len() ==> is_digit(#[trigger] value[i])
}

/// Parses a canonical E.164 phone number and returns its normalized form.
pub fn canonical_e164(value: &str) -> (number: Option<&str>)
    ensures
        match number {
            Some(number) => is_e164(value@) && number@ == value@,
            None => !is_e164(value@),
        },
{
    let chars = chars_of(value);
    if chars.len() < 9 || chars.len() > 16 || chars[0] != '+' || chars[1] == '0' {
        return None;
    }
    let mut index: usize = 1;
    while index < chars.len()
        invariant
            1 <= index <= chars@.len(),
            chars@ == value@,
            forall|i: int| 1 <= i < index ==> is_digit(#[trigger] value@[i]),
        decreases chars@.len() - index,
    {
        if !is_ascii_digit(chars[index]) {
            return None;
        }
        index += 1;
    }
    Some(value)
}

/// The identity of the chat with oneself, by the phone number.
pub open spec fn jid_of(number: Seq<char>) -> Seq<char> {
    number.skip(1) + "@c.us"@
}

/// The digits of a canonical phone number.
pub fn phone_digits(number: &str) -> (digits: String)
    requires
        number@.len() > 0,
    ensures
        digits@ == number@.skip(1),
{
    let chars = chars_of(number);
    let digits = text_between(&chars, 1, chars.len());
    assert(digits@ =~= number@.skip(1));
    digits
}

/// Whether the settings can be used.
pub open spec fn config_verdict(config: WhatsAppConfigToml) -> Result<(), WhatsAppConfigError> {
    if !config.enabled {
        Ok(())
    } else {
        match config.account_phone_number {
            None => Err(WhatsAppConfigError::Incomplete),
            Some(number) => if is_e164(number@) {
                Ok(())
            } else {
                Err(WhatsAppConfigError::InvalidPhoneNumber)
            },
        }
    }
}

impl WhatsAppConfigToml {
    /// Whether onboarding is done, and the settings can be used.
    pub fn is_complete(&self) -> (complete: bool)
        ensures
            complete == (self.onboarding_complete && config_verdict(*self) is Ok),
    {
        self.onboarding_complete && self.validate().is_ok()
    }

    /// Validates the small user-owned portion of the integration.
    pub fn validate(&self) -> (verdict: Result<(), WhatsAppConfigError>)
        ensures
            verdict == config_verdict(*self),
    {
        if !self.enabled {
            return Ok(());
        }
        match &self.account_phone_number {
            None => Err(WhatsAppConfigError::Incomplete),
            Some(number) => match canonical_e164(number.as_str()) {
                Some(_) => Ok(()),
                None => Err(WhatsAppConfigError::InvalidPhoneNumber),
            },
        }
    }

    /// The identity of the user's chat with themselves.
    pub fn self_chat_jid(&self) -> (jid: Result<String, WhatsAppConfigError>)
        ensures
            match self.account_phone_number {
                None => jid == Err::<String, WhatsAppConfigError>(WhatsAppConfigError::Incomplete),
                Some(number) => if is_e164(number@) {
                    jid matches Ok(jid) && jid@ == jid_of(number@)
                } else {
                    jid == Err::<String, WhatsAppConfigError>(
                        WhatsAppConfigError::InvalidPhoneNumber,
                    )
                },
            },
    {
        match &self.account_phone_number {
            None => Err(WhatsAppConfigError::Incomplete),
            Some(number) => match canonical_e164(number.as_str()) {
                Some(number) => {
                    let digits = phone_digits(number);
                    Ok(joined(digits.as_str(), "@c.us"))
                },
                None => Err(WhatsAppConfigError::InvalidPhoneNumber),
            },
        }
    }

    /// Returns the user-owned configuration safe for config RPC responses.
    /// Gateway credentials live only in private runtime state, so this value
    /// contains no secret material to replace.
    pub fn redacted(&self) -> (shown: Self)
        ensures
            shown == *self,
    {
        self.clone()
    }

    /// What comes of loading exactly the `[whatsapp]` table.
    pub fn loaded(table: LoadedTable<WhatsAppConfigToml>) -> (outcome: Result<
        Option<WhatsAppConfigToml>,
        WhatsAppConfigError,
    >)
        ensures
            outcome == match table {
                LoadedTable::Unreadable => Err::<Option<WhatsAppConfigToml>, WhatsAppConfigError>(
                    WhatsAppConfigError::Read,
                ),
                LoadedTable::Malformed => Err(WhatsAppConfigError::Parse),
                LoadedTable::Absent => Ok(None),
                LoadedTable::Table(config) => Ok(Some(config)),
            },
    {
        match table {
            LoadedTable::Unreadable => Err(WhatsAppConfigError::Read),
            LoadedTable::Malformed => Err(WhatsAppConfigError::Parse),
            LoadedTable::Absent => Ok(None),
            LoadedTable::Table(config) => Ok(Some(config)),
        }
    }
}

/// Where the private gateway state is kept.
pub open spec fn runtime_path_under(codex_home: Seq<char>) -> Seq<char> {
    path_under(path_under(codex_home, "whatsapp"@), "runtime.json"@)
}

/// Where the private gateway state is kept.
pub fn whatsapp_runtime_path(codex_home: &str) -> (path: String)
    ensures
        path@ == runtime_path_under(codex_home@),
{
    let directory = joined_path(codex_home, "whatsapp");
    joined_path(directory.as_str(), "runtime.json")
}

/// Settings that are enabled and can be used name an account to talk to.
pub proof fn usable_settings_name_an_account(config: WhatsAppConfigToml)
    requires
        config.enabled,
        config_verdict(config) is Ok,
    ensures
        config.account_phone_number matches Some(number) && is_e164(number@),
{
}

/// Two accounts with the same chat are the same account.
pub proof fn chats_identify_accounts(left: Seq<char>, right: Seq<char>)
    requires
        is_e164(left),
        is_e164(right),
        jid_of(left) == jid_of(right),
    ensures
        left == right,
{
    let suffix = "@c.us"@;
    assert(jid_of(left).len() == left.len() - 1 + suffix.len());
    assert(jid_of(right).len() == right.len() - 1 + suffix.len());
    assert forall|i: int| 0 <= i < left.len() implies left[i] == right[i] by {
        if i > 0 {
            assert(jid_of(left)[i - 1] == left[i]);
            assert(jid_of(right)[i - 1] == right[i]);
        }
    }
    assert(left =~= right);
}

/// A phone number is taken exactly where it is written in the international form: a plus,
/// then eight to fifteen digits that do not begin with a zero.
pub proof fn numbers_are_international(config: WhatsAppConfigToml, number: String)
    requires
        config.enabled,
        config.account_phone_number == Some(number),
    ensures
        config_verdict(config) is Ok <==> {
            &&& 9 <= number@.len() <= 16
            &&& number@[0] == '+'
            &&& '1' <= number@[1] <= '9'
            &&& forall|i: int| 1 <= i < number@.len() ==> '0' <= #[trigger] number@[i] <= '9'
        },
{
    if is_e164(number@) {
        assert(is_digit(number@[1]));
    }
}

/// The chat of an account is named by the digits of its number and the host of the network.
pub proof fn chats_are_named_by_the_number(number: Seq<char>)
    requires
        is_e164(number),
    ensures
        jid_of(number).len() == number.len() + 4,
        forall|i: int| 1 <= i < number.len() ==> jid_of(number)[i - 1] == #[trigger] number[i],
        jid_of(number).skip(number.len() - 1) == "@c.us"@,
{
    reveal_strlit("@c.us");
    assert(jid_of(number).skip(number.len() - 1) =~= "@c.us"@);
}

} // verus!
