//! User-editable help and display configuration for the WhatsApp bridge.

use crate::text::after_prefix;
use crate::text::before_suffix;
use crate::text::chars_of;
use crate::text::joined;
use crate::text::joined3;
use crate::text::joined_path;
use crate::text::parted;
use crate::text::path_under;
use crate::text::split_once;
use crate::text::starts;
use crate::text::starts_with;
use crate::text::strip_prefix;
use crate::text::strip_suffix;
use crate::text::trim;
use crate::text::trimmed;
use crate::text::ends;
use crate::text::mentions;
use crate::text::lemma_mentions_itself;
use crate::text::lemma_mentions_within;
use crate::text::occurs_at;
use crate::text::parting_is_at_the_first_separator;
use crate::text::is_white;
use crate::text::trimmed_start;
use vstd::prelude::*;

verus! {

pub const COMMAND_CATALOG_SCHEMA_VERSION: u32 = 1;

pub const MAX_CATALOG_BYTES: u64 = 65_536;

pub const MAX_GROUPS: usize = 16;

pub const MAX_COMMANDS_PER_GROUP: usize = 128;

pub const MAX_FIELD_CHARS: usize = 512;

pub const MAX_RESPONSE_PREFIX_CHARS: usize = 64;

/// One command of the help text.
#[derive(Debug, Clone, PartialEq, Eq)]
pub struct CommandEntry {
    pub usage: String,
    pub description: String,
}

/// Commands under a common heading.
#[derive(Debug, Clone, PartialEq, Eq)]
pub struct CommandGroup {
    pub heading: String,
    pub commands: Vec<CommandEntry>,
}

/// The help text and the prefix of bridge messages.
#[derive(Debug, Clone, PartialEq, Eq)]
pub struct CommandCatalog {
    pub schema_version: u32,
    pub response_prefix: String,
    pub help_heading: String,
    pub help_footer: String,
    pub groups: Vec<CommandGroup>,
}

#[derive(Debug, Clone, Copy, PartialEq, Eq, Structural)]
pub enum CommandCatalogError {
    Read,
    TooLarge,
    Parse,
    UnsupportedSchema,
    Invalid,
    Write,
}

/// An error of the catalogue, in words.
pub open spec fn catalog_error_text(error: CommandCatalogError) -> Seq<char> {
    match error {
        CommandCatalogError::Read => "failed to read WhatsApp command catalogue"@,
        CommandCatalogError::TooLarge => "WhatsApp command catalogue exceeds 64 KiB"@,
        CommandCatalogError::Parse => "failed to parse WhatsApp command catalogue"@,
        CommandCatalogError::UnsupportedSchema =>
            "unsupported WhatsApp command catalogue schema"@,
        CommandCatalogError::Invalid => "invalid WhatsApp command catalogue"@,
        CommandCatalogError::Write => "failed to create the default WhatsApp command catalogue"@,
    }
}

impl CommandCatalogError {
    /// The error in words.
    pub fn message(self) -> (text: &'static str)
        ensures
            text@ == catalog_error_text(self),
    {
        match self {
            CommandCatalogError::Read => "failed to read WhatsApp command catalogue",
            CommandCatalogError::TooLarge => "WhatsApp command catalogue exceeds 64 KiB",
            CommandCatalogError::Parse => "failed to parse WhatsApp command catalogue",
            CommandCatalogError::UnsupportedSchema =>
                "unsupported WhatsApp command catalogue schema",
            CommandCatalogError::Invalid => "invalid WhatsApp command catalogue",
            CommandCatalogError::Write => "failed to create the default WhatsApp command catalogue",
        }
    }
}

/// Whether a field holds some text, and not too much.
pub open spec fn is_valid_field(value: Seq<char>) -> bool {
    trimmed(value).len() > 0 && value.len() <= MAX_FIELD_CHARS
}

/// Whether a group has a heading and some commands, each with its texts.
pub open spec fn is_valid_group(group: CommandGroup) -> bool {
    &&& is_valid_field(group.heading@)
    &&& 0 < group.commands@.len() <= MAX_COMMANDS_PER_GROUP
    &&& forall|i: int|
        0 <= i < group.commands@.len() ==> is_valid_field(
            (#[trigger] group.commands@[i]).usage@,
        ) && is_valid_field(group.commands@[i].description@)
}

/// Whether the contents of a catalogue keep to the limits.
pub open spec fn is_valid_catalog(catalog: CommandCatalog) -> bool {
    &&& catalog.response_prefix@.len() <= MAX_RESPONSE_PREFIX_CHARS
    &&& is_valid_field(catalog.help_heading@)
    &&& 0 < catalog.groups@.len() <= MAX_GROUPS
    &&& forall|i: int| 0 <= i < catalog.groups@.len() ==> is_valid_group(
        #[trigger] catalog.groups@[i],
    )
    &&& catalog.help_footer@.len() <= MAX_FIELD_CHARS
}

/// The verdict on a catalogue.
pub open spec fn catalog_verdict(catalog: CommandCatalog) -> Result<(), CommandCatalogError> {
    if catalog.schema_version != COMMAND_CATALOG_SCHEMA_VERSION {
        Err(CommandCatalogError::UnsupportedSchema)
    } else if is_valid_catalog(catalog) {
        Ok(())
    } else {
        Err(CommandCatalogError::Invalid)
    }
}

/// The lines of the help text for some commands.
pub open spec fn command_lines(commands: Seq<CommandEntry>) -> Seq<char>
    decreases commands.len(),
{
    if commands.len() == 0 {
        Seq::empty()
    } else {
        let command = commands.last();
        command_lines(commands.drop_last()) + "\n• `"@ + command.usage@ + "` — "@
            + command.description@
    }
}

/// The part of the help text for some groups.
pub open spec fn group_lines(groups: Seq<CommandGroup>) -> Seq<char>
    decreases groups.len(),
{
    if groups.len() == 0 {
        Seq::empty()
    } else {
        let group = groups.last();
        group_lines(groups.drop_last()) + "\n\n"@ + group.heading@ + command_lines(group.commands@)
    }
}

/// The help text of a catalogue.
pub open spec fn help_text(catalog: CommandCatalog) -> Seq<char> {
    let body = catalog.help_heading@ + group_lines(catalog.groups@);
    if catalog.help_footer@.len() == 0 {
        body
    } else {
        body + "\n\n"@ + catalog.help_footer@
    }
}

/// A message with the label `[codex]`, possibly numbered, replaced by the
/// configured prefix; other messages stay as they are.
pub open spec fn rewritten(prefix: Seq<char>, text: Seq<char>) -> Seq<char> {
    match after_prefix(text, "[codex"@) {
        None => text,
        Some(labelled) => match parted(labelled, "] "@) {
            None => text,
            Some((suffix, content)) => if suffix.len() > 0 && !starts(suffix, " "@) {
                text
            } else if prefix.len() == 0 {
                content
            } else {
                let number = trimmed(suffix);
                let label = if number.len() == 0 {
                    prefix
                } else {
                    match before_suffix(prefix, "]"@) {
                        Some(open) => open + " "@ + number + "]"@,
                        None => prefix + " "@ + number,
                    }
                };
                label + " "@ + content
            },
        },
    }
}

fn valid_field(value: &str) -> (valid: bool)
    ensures
        valid == is_valid_field(value@),
{
    let inner = trim(value);
    !inner.as_str().is_empty() && chars_of(value).len() <= MAX_FIELD_CHARS
}

fn valid_group(group: &CommandGroup) -> (valid: bool)
    ensures
        valid == is_valid_group(*group),
{
    if !valid_field(group.heading.as_str()) || group.commands.len() == 0 || group.commands.len()
        > MAX_COMMANDS_PER_GROUP {
        return false;
    }
    let mut index: usize = 0;
    while index < group.commands.len()
        invariant
            index <= group.commands@.len(),
            forall|i: int|
                0 <= i < index ==> is_valid_field((#[trigger] group.commands@[i]).usage@)
                    && is_valid_field(group.commands@[i].description@),
        decreases group.commands@.len() - index,
    {
        let command = &group.commands[index];
        if !valid_field(command.usage.as_str()) || !valid_field(command.description.as_str()) {
            return false;
        }
        index += 1;
    }
    true
}

/// Where the catalogue stands under the Codex home directory.
pub open spec fn catalog_path_under(codex_home: Seq<char>) -> Seq<char> {
    path_under(path_under(codex_home, "whatsapp"@), "commands.json"@)
}

/// Where the catalogue stands under the Codex home directory.
pub fn command_catalog_path(codex_home: &str) -> (path: String)
    ensures
        path@ == catalog_path_under(codex_home@),
{
    let directory = joined_path(codex_home, "whatsapp");
    joined_path(directory.as_str(), "commands.json")
}

fn entry(usage: &str, description: &str) -> (entry: CommandEntry)
    ensures
        entry.usage@ == usage@,
        entry.description@ == description@,
{
    CommandEntry { usage: usage.to_owned(), description: description.to_owned() }
}

/// What a group holds: its heading, and the usage and description of each command.
pub struct GroupModel {
    pub heading: Seq<char>,
    pub commands: Seq<(Seq<char>, Seq<char>)>,
}

impl View for CommandGroup {
    type V = GroupModel;

    open spec fn view(&self) -> GroupModel {
        GroupModel {
            heading: self.heading@,
            commands: self.commands@.map_values(
                |command: CommandEntry| (command.usage@, command.description@),
            ),
        }
    }
}

/// The commands that act on the conversation with Codex.
pub open spec fn conversation_commands() -> GroupModel {
    GroupModel {
        heading: "Conversation"@,
        commands: seq![
            ("/new"@, "start a new Codex thread"@),
            ("/stop"@, "interrupt the active turn"@),
            ("/answer <token> <answer>"@, "answer a question that Codex asked"@),
            ("<number>"@, "reply with the displayed number to resolve an approval"@),
        ],
    }
}

/// The commands that the bridge answers itself.
pub open spec fn bridge_commands() -> GroupModel {
    GroupModel {
        heading: "Bridge"@,
        commands: seq![
            ("/status"@, "show bridge, app-server, and transport health"@),
            ("/help"@, "show this help"@),
            ("/whatsapp list-threads"@, "list recent Codex threads"@),
            ("/whatsapp attach <thread-id>"@, "continue an existing Codex thread"@),
        ],
    }
}

impl CommandCatalog {
    /// The catalogue that is written on first start. It lists both command surfaces,
    /// and approvals are resolved by the displayed number.
    pub fn default_catalog() -> (catalog: Self)
        ensures
            catalog_verdict(catalog) == Ok::<(), CommandCatalogError>(()),
            catalog.schema_version == COMMAND_CATALOG_SCHEMA_VERSION,
            catalog.response_prefix@ == "[codex]"@,
            catalog.help_heading@ == "WhatsApp controls"@,
            catalog.help_footer@ == "Any other text is sent to Codex."@,
            catalog.groups@.map_values(|group: CommandGroup| group@) == seq![
                conversation_commands(),
                bridge_commands(),
            ],
    {
        let conversation = CommandGroup {
            heading: "Conversation".to_owned(),
            commands: vec![
                entry("/new", "start a new Codex thread"),
                entry("/stop", "interrupt the active turn"),
                entry("/answer <token> <answer>", "answer a question that Codex asked"),
                entry("<number>", "reply with the displayed number to resolve an approval"),
            ],
        };
        let bridge = CommandGroup {
            heading: "Bridge".to_owned(),
            commands: vec![
                entry("/status", "show bridge, app-server, and transport health"),
                entry("/help", "show this help"),
                entry("/whatsapp list-threads", "list recent Codex threads"),
                entry("/whatsapp attach <thread-id>", "continue an existing Codex thread"),
            ],
        };
        let catalog = CommandCatalog {
            schema_version: COMMAND_CATALOG_SCHEMA_VERSION,
            response_prefix: "[codex]".to_owned(),
            help_heading: "WhatsApp controls".to_owned(),
            help_footer: "Any other text is sent to Codex.".to_owned(),
            groups: vec![conversation, bridge],
        };
        proof {
            lemma_default_texts();
            assert forall|i: int|
                0 <= i < conversation.commands@.len() implies is_valid_field(
                (#[trigger] conversation.commands@[i]).usage@,
            ) && is_valid_field(conversation.commands@[i].description@) by {
                assert(i == 0 || i == 1 || i == 2 || i == 3);
            }
            assert forall|i: int| 0 <= i < bridge.commands@.len() implies is_valid_field(
                (#[trigger] bridge.commands@[i]).usage@,
            ) && is_valid_field(bridge.commands@[i].description@) by {
                assert(i == 0 || i == 1 || i == 2 || i == 3);
            }
            assert(is_valid_group(catalog.groups@[0]));
            assert(is_valid_group(catalog.groups@[1]));
            assert(conversation@.commands =~= conversation_commands().commands);
            assert(bridge@.commands =~= bridge_commands().commands);
            assert(catalog.groups@.map_values(|group: CommandGroup| group@) =~= seq![
                conversation_commands(),
                bridge_commands(),
            ]);
            assert forall|i: int| 0 <= i < catalog.groups@.len() implies is_valid_group(
                #[trigger] catalog.groups@[i],
            ) by {
                assert(i == 0 || i == 1);
            }
        }
        catalog
    }

    /// Checks the catalogue against its schema and limits.
    pub fn validate(&self) -> (verdict: Result<(), CommandCatalogError>)
        ensures
            verdict == catalog_verdict(*self),
    {
        if self.schema_version != COMMAND_CATALOG_SCHEMA_VERSION {
            return Err(CommandCatalogError::UnsupportedSchema);
        }
        if chars_of(self.response_prefix.as_str()).len() > MAX_RESPONSE_PREFIX_CHARS
            || !valid_field(self.help_heading.as_str()) || self.groups.len() == 0
            || self.groups.len() > MAX_GROUPS {
            return Err(CommandCatalogError::Invalid);
        }
        let mut index: usize = 0;
        while index < self.groups.len()
            invariant
                self.schema_version == COMMAND_CATALOG_SCHEMA_VERSION,
                index <= self.groups@.len(),
                forall|i: int| 0 <= i < index ==> is_valid_group(#[trigger] self.groups@[i]),
            decreases self.groups@.len() - index,
        {
            if !valid_group(&self.groups[index]) {
                return Err(CommandCatalogError::Invalid);
            }
            index += 1;
        }
        if chars_of(self.help_footer.as_str()).len() > MAX_FIELD_CHARS {
            return Err(CommandCatalogError::Invalid);
        }
        Ok(())
    }

    /// Decides on a catalogue file of `size` bytes that was read and parsed; `None`
    /// stands for a file that could not be parsed.
    pub fn accept(size: u64, parsed: Option<CommandCatalog>) -> (catalog: Result<
        Self,
        CommandCatalogError,
    >)
        ensures
            catalog == if size > MAX_CATALOG_BYTES {
                Err(CommandCatalogError::TooLarge)
            } else {
                match parsed {
                    None => Err(CommandCatalogError::Parse),
                    Some(candidate) => match catalog_verdict(candidate) {
                        Ok(_) => Ok(candidate),
                        Err(error) => Err(error),
                    },
                }
            },
    {
        if size > MAX_CATALOG_BYTES {
            return Err(CommandCatalogError::TooLarge);
        }
        match parsed {
            None => Err(CommandCatalogError::Parse),
            Some(candidate) => match candidate.validate() {
                Ok(_) => Ok(candidate),
                Err(error) => Err(error),
            },
        }
    }

    /// Whether a failed load is answered by writing the default catalogue.
    pub fn creates_default(error: CommandCatalogError, exists: bool) -> (creates: bool)
        ensures
            creates == (error is Read && !exists),
    {
        error == CommandCatalogError::Read && !exists
    }

    /// The help text.
    pub fn render_help(&self) -> (help: String)
        ensures
            help@ == help_text(*self),
    {
        let mut output = self.help_heading.clone();
        let mut index: usize = 0;
        assert(self.groups@.take(0) =~= Seq::<CommandGroup>::empty());
        assert(output@ =~= self.help_heading@ + group_lines(Seq::<CommandGroup>::empty()));
        while index < self.groups.len()
            invariant
                index <= self.groups@.len(),
                output@ == self.help_heading@ + group_lines(self.groups@.take(index as int)),
            decreases self.groups@.len() - index,
        {
            let group = &self.groups[index];
            let ghost before = output@;
            output.append("\n\n");
            output.append(group.heading.as_str());
            let ghost head = output@;
            let mut at: usize = 0;
            assert(group.commands@.take(0) =~= Seq::<CommandEntry>::empty());
            assert(output@ =~= head + command_lines(Seq::<CommandEntry>::empty()));
            while at < group.commands.len()
                invariant
                    at <= group.commands@.len(),
                    output@ == head + command_lines(group.commands@.take(at as int)),
                decreases group.commands@.len() - at,
            {
                let command = &group.commands[at];
                proof {
                    let longer = group.commands@.take(at + 1);
                    assert(longer.drop_last() =~= group.commands@.take(at as int));
                    assert(longer.last() == *command);
                }
                output.append("\n• `");
                output.append(command.usage.as_str());
                output.append("` — ");
                output.append(command.description.as_str());
                assert(output@ =~= head + command_lines(group.commands@.take(at + 1)));
                at += 1;
            }
            proof {
                assert(group.commands@.take(at as int) =~= group.commands@);
                let longer = self.groups@.take(index + 1);
                assert(longer.drop_last() =~= self.groups@.take(index as int));
                assert(longer.last() == *group);
                assert(output@ =~= self.help_heading@ + group_lines(longer));
            }
            index += 1;
        }
        assert(self.groups@.take(index as int) =~= self.groups@);
        if !self.help_footer.as_str().is_empty() {
            output.append("\n\n");
            output.append(self.help_footer.as_str());
        }
        output
    }

    /// Replaces the label of a bridge message by the configured prefix.
    pub fn rewrite_legacy_prefix(&self, text: &str) -> (message: String)
        ensures
            message@ == rewritten(self.response_prefix@, text@),
    {
        let labelled = match strip_prefix(text, "[codex") {
            Some(labelled) => labelled,
            None => {
                return text.to_owned();
            },
        };
        let (suffix, content) = match split_once(labelled.as_str(), "] ") {
            Some(sides) => sides,
            None => {
                return text.to_owned();
            },
        };
        if !suffix.as_str().is_empty() && !starts_with(suffix.as_str(), " ") {
            return text.to_owned();
        }
        if self.response_prefix.as_str().is_empty() {
            return content;
        }
        let number = trim(suffix.as_str());
        let label = if number.as_str().is_empty() {
            self.response_prefix.clone()
        } else {
            match strip_suffix(self.response_prefix.as_str(), "]") {
                Some(open) => {
                    let numbered = joined3(open.as_str(), " ", number.as_str());
                    joined(numbered.as_str(), "]")
                },
                None => joined3(self.response_prefix.as_str(), " ", number.as_str()),
            }
        };
        joined3(label.as_str(), " ", content.as_str())
    }
}

proof fn lemma_plain_field(value: Seq<char>)
    requires
        0 < value.len() <= MAX_FIELD_CHARS,
        !crate::text::is_white(value[0]),
    ensures
        is_valid_field(value),
{
    lemma_keeps_first(value);
}

proof fn lemma_keeps_first(value: Seq<char>)
    requires
        value.len() > 0,
        !crate::text::is_white(value[0]),
    ensures
        crate::text::trimmed_end(value).len() > 0,
    decreases value.len(),
{
    if crate::text::is_white(value.last()) {
        assert(value.len() > 1);
        assert(value.drop_last()[0] == value[0]);
        lemma_keeps_first(value.drop_last());
    }
}

proof fn lemma_default_texts()
    ensures
        is_valid_field("Conversation"@),
        is_valid_field("Bridge"@),
        is_valid_field("WhatsApp controls"@),
        "Any other text is sent to Codex."@.len() <= MAX_FIELD_CHARS,
        "[codex]"@.len() <= MAX_RESPONSE_PREFIX_CHARS,
        is_valid_field("/new"@),
        is_valid_field("start a new Codex thread"@),
        is_valid_field("/stop"@),
        is_valid_field("interrupt the active turn"@),
        is_valid_field("/answer <token> <answer>"@),
        is_valid_field("answer a question that Codex asked"@),
        is_valid_field("<number>"@),
        is_valid_field("reply with the displayed number to resolve an approval"@),
        is_valid_field("/status"@),
        is_valid_field("show bridge, app-server, and transport health"@),
        is_valid_field("/help"@),
        is_valid_field("show this help"@),
        is_valid_field("/whatsapp list-threads"@),
        is_valid_field("list recent Codex threads"@),
        is_valid_field("/whatsapp attach <thread-id>"@),
        is_valid_field("continue an existing Codex thread"@),
{
    reveal_strlit("Conversation");
    lemma_plain_field("Conversation"@);
    reveal_strlit("Bridge");
    lemma_plain_field("Bridge"@);
    reveal_strlit("WhatsApp controls");
    lemma_plain_field("WhatsApp controls"@);
    reveal_strlit("Any other text is sent to Codex.");
    reveal_strlit("[codex]");
    reveal_strlit("/new");
    lemma_plain_field("/new"@);
    reveal_strlit("start a new Codex thread");
    lemma_plain_field("start a new Codex thread"@);
    reveal_strlit("/stop");
    lemma_plain_field("/stop"@);
    reveal_strlit("interrupt the active turn");
    lemma_plain_field("interrupt the active turn"@);
    reveal_strlit("/answer <token> <answer>");
    lemma_plain_field("/answer <token> <answer>"@);
    reveal_strlit("answer a question that Codex asked");
    lemma_plain_field("answer a question that Codex asked"@);
    reveal_strlit("<number>");
    lemma_plain_field("<number>"@);
    reveal_strlit("reply with the displayed number to resolve an approval");
    lemma_plain_field("reply with the displayed number to resolve an approval"@);
    reveal_strlit("/status");
    lemma_plain_field("/status"@);
    reveal_strlit("show bridge, app-server, and transport health");
    lemma_plain_field("show bridge, app-server, and transport health"@);
    reveal_strlit("/help");
    lemma_plain_field("/help"@);
    reveal_strlit("show this help");
    lemma_plain_field("show this help"@);
    reveal_strlit("/whatsapp list-threads");
    lemma_plain_field("/whatsapp list-threads"@);
    reveal_strlit("list recent Codex threads");
    lemma_plain_field("list recent Codex threads"@);
    reveal_strlit("/whatsapp attach <thread-id>");
    lemma_plain_field("/whatsapp attach <thread-id>"@);
    reveal_strlit("continue an existing Codex thread");
    lemma_plain_field("continue an existing Codex thread"@);
}

/// The help lists every command of every group with what it does, under the heading of its
/// group, and says what the catalogue says first and last.
pub proof fn help_lists_every_command(catalog: CommandCatalog, group: int, command: int)
    requires
        0 <= group < catalog.groups@.len(),
        0 <= command < catalog.groups@[group].commands@.len(),
    ensures
        mentions(
            help_text(catalog),
            "`"@ + catalog.groups@[group].commands@[command].usage@ + "` — "@
                + catalog.groups@[group].commands@[command].description@,
        ),
        mentions(help_text(catalog), catalog.groups@[group].heading@),
        starts(help_text(catalog), catalog.help_heading@),
        ends(help_text(catalog), catalog.help_footer@),
{
    let entry = catalog.groups@[group].commands@[command];
    let line = "`"@ + entry.usage@ + "` — "@ + entry.description@;
    let heading = catalog.groups@[group].heading@;
    let lines = group_lines(catalog.groups@);
    lemma_group_is_listed(catalog.groups@, group, command);
    let footer = if catalog.help_footer@.len() == 0 {
        Seq::empty()
    } else {
        "\n\n"@ + catalog.help_footer@
    };
    let whole = help_text(catalog);
    lemma_mentions_within(catalog.help_heading@, lines, footer, line);
    lemma_mentions_within(catalog.help_heading@, lines, footer, heading);
    assert(catalog.help_heading@ + lines + footer =~= whole);
    assert(whole.subrange(0, catalog.help_heading@.len() as int) =~= catalog.help_heading@);
    assert(whole.subrange(
        whole.len() - catalog.help_footer@.len(),
        whole.len() as int,
    ) =~= catalog.help_footer@);
}

proof fn lemma_bullet_by_its_parts()
    ensures
        "\n• `"@ == "\n• "@ + "`"@,
{
    reveal_strlit("\n• `");
    reveal_strlit("\n• ");
    reveal_strlit("`");
    assert("\n• `"@ =~= "\n• "@ + "`"@);
}

proof fn lemma_mentions_the_end(
    earlier: Seq<char>,
    bullet: Seq<char>,
    quote: Seq<char>,
    usage: Seq<char>,
    dash: Seq<char>,
    description: Seq<char>,
)
    ensures
        mentions(
            earlier + (bullet + quote) + usage + dash + description,
            quote + usage + dash + description,
        ),
{
    let line = quote + usage + dash + description;
    lemma_mentions_itself(line);
    lemma_mentions_within(earlier + bullet, line, Seq::empty(), line);
    let start = earlier + bullet;
    assert(earlier + (bullet + quote) =~= start + quote);
    assert(start + quote + usage =~= start + (quote + usage));
    let named = quote + usage;
    assert(start + named + dash =~= start + (named + dash));
    let dashed = named + dash;
    assert(start + dashed + description =~= start + (dashed + description));
    assert(start + line + Seq::<char>::empty() =~= start + line);
}

proof fn lemma_command_is_listed(commands: Seq<CommandEntry>, index: int)
    requires
        0 <= index < commands.len(),
    ensures
        mentions(
            command_lines(commands),
            "`"@ + commands[index].usage@ + "` — "@ + commands[index].description@,
        ),
    decreases commands.len(),
{
    let line = "`"@ + commands[index].usage@ + "` — "@ + commands[index].description@;
    let earlier = command_lines(commands.drop_last());
    let last = commands.last();
    let whole = command_lines(commands);
    if index == commands.len() - 1 {
        lemma_bullet_by_its_parts();
        lemma_mentions_the_end(
            earlier,
            "\n• "@,
            "`"@,
            last.usage@,
            "` — "@,
            last.description@,
        );
    } else {
        lemma_command_is_listed(commands.drop_last(), index);
        let rest = "\n• `"@ + last.usage@ + "` — "@ + last.description@;
        lemma_mentions_within(Seq::empty(), earlier, rest, line);
        assert(Seq::<char>::empty() + earlier + rest =~= whole);
    }
}

proof fn lemma_group_is_listed(groups: Seq<CommandGroup>, group: int, command: int)
    requires
        0 <= group < groups.len(),
        0 <= command < groups[group].commands@.len(),
    ensures
        mentions(
            group_lines(groups),
            "`"@ + groups[group].commands@[command].usage@ + "` — "@
                + groups[group].commands@[command].description@,
        ),
        mentions(group_lines(groups), groups[group].heading@),
    decreases groups.len(),
{
    let entry = groups[group].commands@[command];
    let line = "`"@ + entry.usage@ + "` — "@ + entry.description@;
    let heading = groups[group].heading@;
    let earlier = group_lines(groups.drop_last());
    let last = groups.last();
    let inner = command_lines(last.commands@);
    let whole = group_lines(groups);
    if group == groups.len() - 1 {
        lemma_command_is_listed(last.commands@, command);
        lemma_mentions_itself(heading);
        let before = earlier + "\n\n"@ + heading;
        lemma_mentions_within(before, inner, Seq::empty(), line);
        assert(before + inner + Seq::<char>::empty() =~= whole);
        lemma_mentions_within(earlier + "\n\n"@, heading, inner, heading);
        assert((earlier + "\n\n"@) + heading + inner =~= whole);
    } else {
        lemma_group_is_listed(groups.drop_last(), group, command);
        let rest = "\n\n"@ + last.heading@ + inner;
        lemma_mentions_within(Seq::empty(), earlier, rest, line);
        lemma_mentions_within(Seq::empty(), earlier, rest, heading);
        assert(Seq::<char>::empty() + earlier + rest =~= whole);
    }
}

/// A message without the label of the bridge stays as it is, whatever the prefix.
pub proof fn unlabelled_messages_stay(prefix: Seq<char>, text: Seq<char>)
    requires
        !starts(text, "[codex"@),
    ensures
        rewritten(prefix, text) == text,
{
}

/// The label of the bridge is replaced by the prefix, and nothing else of the message
/// changes; where the prefix is empty, the label is dropped.
pub proof fn labels_become_the_prefix(prefix: Seq<char>, content: Seq<char>)
    ensures
        rewritten(prefix, "[codex] "@ + content) == if prefix.len() == 0 {
            content
        } else {
            prefix + " "@ + content
        },
{
    reveal_strlit("[codex] ");
    reveal_strlit("[codex");
    reveal_strlit("] ");
    let text = "[codex] "@ + content;
    assert(text.subrange(0, 6) =~= "[codex"@);
    let labelled = text.skip(6);
    assert(labelled =~= "] "@ + content);
    lemma_parted_after(Seq::empty(), content);
    assert(Seq::<char>::empty() + "] "@ + content =~= labelled);
    assert(trimmed(Seq::<char>::empty()) =~= Seq::<char>::empty());
}

proof fn lemma_parted_after(head: Seq<char>, content: Seq<char>)
    requires
        forall|i: int| 0 <= i < head.len() ==> #[trigger] head[i] != ']',
    ensures
        parted(head + "] "@ + content, "] "@) == Some((head, content)),
{
    reveal_strlit("] ");
    let text = head + "] "@ + content;
    let at = head.len() as int;
    parting_is_at_the_first_separator(text, "] "@);
    assert(text.subrange(at, at + 2) =~= "] "@);
    assert(occurs_at(text, "] "@, at));
    let (left, right) = parted(text, "] "@)->0;
    assert(text[left.len() as int] == (left + "] "@ + right)[left.len() as int]);
    assert((left + "] "@ + right)[left.len() as int] == ']');
    if left.len() < at {
        assert(head[left.len() as int] == text[left.len() as int]);
    }
    assert(left.len() == at);
    assert(left =~= head) by {
        assert forall|i: int| 0 <= i < at implies left[i] == head[i] by {
            assert((left + "] "@ + right)[i] == left[i]);
            assert(text[i] == head[i]);
        }
    }
    assert(right =~= content) by {
        assert forall|i: int| 0 <= i < content.len() implies right[i] == content[i] by {
            assert((left + "] "@ + right)[at + 2 + i] == right[i]);
            assert(text[at + 2 + i] == content[i]);
        }
    }
}

/// The number of a chunk is kept within the prefix: inside its closing bracket where it has
/// one, behind it otherwise.
pub proof fn numbers_are_kept_in_the_prefix(
    prefix: Seq<char>,
    number: Seq<char>,
    content: Seq<char>,
)
    requires
        number.len() > 0,
        forall|i: int|
            0 <= i < number.len() ==> !is_white(#[trigger] number[i]) && number[i] != ']',
        prefix.len() > 0,
    ensures
        rewritten(prefix, "[codex "@ + number + "] "@ + content) == if prefix.last() == ']' {
            prefix.drop_last() + " "@ + number + "] "@ + content
        } else {
            prefix + " "@ + number + " "@ + content
        },
{
    reveal_strlit("[codex ");
    reveal_strlit("[codex");
    reveal_strlit("] ");
    reveal_strlit("]");
    reveal_strlit(" ");
    let text = "[codex "@ + number + "] "@ + content;
    assert(text.subrange(0, 6) =~= "[codex"@);
    let suffix = " "@ + number;
    let labelled = text.skip(6);
    assert(labelled =~= suffix + "] "@ + content);
    assert forall|i: int| 0 <= i < suffix.len() implies #[trigger] suffix[i] != ']' by {
        if i > 0 {
            assert(suffix[i] == number[i - 1]);
        }
    }
    lemma_parted_after(suffix, content);
    assert(suffix.subrange(0, 1) =~= " "@);
    assert(is_white(' '));
    assert(suffix.skip(1) =~= number);
    assert(!is_white(number[0]) && !is_white(number[number.len() - 1]));
    assert(trimmed_start(number) == number);
    assert(trimmed(suffix) == number);
    if prefix.last() == ']' {
        assert(prefix.subrange(prefix.len() - 1, prefix.len() as int) =~= "]"@);
        let open = prefix.take(prefix.len() - 1);
        assert(open =~= prefix.drop_last());
        assert(open + " "@ + number + "]"@ + " "@ + content =~= prefix.drop_last() + " "@ + number
            + "] "@ + content);
    } else {
        assert(prefix.subrange(prefix.len() - 1, prefix.len() as int)[0] == prefix.last());
    }
}

} // verus!
