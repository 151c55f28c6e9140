//! Parsing for WhatsApp bridge commands. Parsing deliberately performs no I/O.

use crate::text::after_prefix;
use crate::text::chars_of;
use crate::text::is_white;
use crate::text::is_whitespace;
use crate::text::parted;
use crate::text::same_text;
use crate::text::split_once;
use crate::text::starts;
use crate::text::strip_prefix;
use crate::text::text_between;
use crate::text::trim;
use crate::text::trimmed;
use crate::text::occurs_at;
use crate::text::parting_is_at_the_first_separator;
use vstd::prelude::*;

verus! {

/// What a message asks for.
#[derive(Debug, Clone, PartialEq, Eq)]
pub enum BridgeCommand {
    Prompt(String),
    New,
    Status,
    Stop,
    WhatsAppAttach(String),
    WhatsAppListThreads,
    Approve { token: String, session: bool },
    Deny { token: String },
    Answer { token: String, answer: String },
    Help,
}

/// What a `BridgeCommand` holds.
pub enum CommandModel {
    Prompt(Seq<char>),
    New,
    Status,
    Stop,
    WhatsAppAttach(Seq<char>),
    WhatsAppListThreads,
    Approve { token: Seq<char>, session: bool },
    Deny { token: Seq<char> },
    Answer { token: Seq<char>, answer: Seq<char> },
    Help,
}

impl View for BridgeCommand {
    type V = CommandModel;

    open spec fn view(&self) -> CommandModel {
        match *self {
            BridgeCommand::Prompt(body) => CommandModel::Prompt(body@),
            BridgeCommand::New => CommandModel::New,
            BridgeCommand::Status => CommandModel::Status,
            BridgeCommand::Stop => CommandModel::Stop,
            BridgeCommand::WhatsAppAttach(thread_id) => CommandModel::WhatsAppAttach(thread_id@),
            BridgeCommand::WhatsAppListThreads => CommandModel::WhatsAppListThreads,
            BridgeCommand::Approve { token, session } => CommandModel::Approve {
                token: token@,
                session,
            },
            BridgeCommand::Deny { token } => CommandModel::Deny { token: token@ },
            BridgeCommand::Answer { token, answer } => CommandModel::Answer {
                token: token@,
                answer: answer@,
            },
            BridgeCommand::Help => CommandModel::Help,
        }
    }
}

/// The text up to its first whitespace.
pub open spec fn first_word(text: Seq<char>) -> Seq<char>
    decreases text.len(),
{
    if text.len() == 0 || is_white(text[0]) {
        Seq::empty()
    } else {
        seq![text[0]] + first_word(text.skip(1))
    }
}

/// Whether a name is kept for bridge commands.
pub open spec fn is_reserved(name: Seq<char>) -> bool {
    ||| name == "/approve"@
    ||| name == "/approve-session"@
    ||| name == "/deny"@
    ||| name == "/answer"@
    ||| name == "/help"@
    ||| name == "/new"@
    ||| name == "/status"@
    ||| name == "/stop"@
    ||| name == "/whatsapp"@
}

/// What a reserved command with its arguments means; help where it is incomplete.
pub open spec fn reserved_command(command: Seq<char>) -> CommandModel {
    match parted(command, " "@) {
        None => CommandModel::Help,
        Some((name, arguments)) => {
            let (token, answer) = match parted(arguments, " "@) {
                Some((token, answer)) => (token, Some(answer)),
                None => (arguments, None),
            };
            if name == "/approve"@ {
                CommandModel::Approve { token, session: false }
            } else if name == "/approve-session"@ {
                CommandModel::Approve { token, session: true }
            } else if name == "/deny"@ {
                CommandModel::Deny { token }
            } else if name == "/answer"@ && answer is Some {
                CommandModel::Answer { token, answer: answer->0 }
            } else {
                CommandModel::Help
            }
        },
    }
}

/// What a message asks for: a control where it is one, else a prompt.
pub open spec fn parsed(message: Seq<char>) -> CommandModel {
    let command = trimmed(message);
    if command.len() == 0 {
        CommandModel::Help
    } else if command == "/new"@ {
        CommandModel::New
    } else if command == "/status"@ {
        CommandModel::Status
    } else if command == "/stop"@ {
        CommandModel::Stop
    } else if command == "/"@ || command == "/help"@ {
        CommandModel::Help
    } else if command == "/whatsapp list-threads"@ {
        CommandModel::WhatsAppListThreads
    } else if after_prefix(command, "/whatsapp attach "@) is Some {
        let thread_id = after_prefix(command, "/whatsapp attach "@)->0;
        if thread_id.len() == 0 {
            CommandModel::Help
        } else {
            CommandModel::WhatsAppAttach(thread_id)
        }
    } else if is_reserved(first_word(command)) {
        reserved_command(command)
    } else {
        CommandModel::Prompt(message)
    }
}

/// The text up to its first whitespace.
fn leading_word(text: &str) -> (word: String)
    ensures
        word@ == first_word(text@),
{
    let chars = chars_of(text);
    let mut end: usize = 0;
    assert(chars@.skip(0) =~= text@);
    assert(chars@.take(0) + first_word(text@) =~= first_word(text@));
    while end < chars.len() && !is_whitespace(chars[end])
        invariant
            end <= chars@.len(),
            chars@ == text@,
            chars@.take(end as int) + first_word(chars@.skip(end as int)) == first_word(text@),
        decreases chars@.len() - end,
    {
        proof {
            let rest = chars@.skip(end as int);
            assert(rest.skip(1) =~= chars@.skip(end + 1));
            assert(chars@.take(end as int) + (seq![rest[0]] + first_word(rest.skip(1)))
                =~= chars@.take(end + 1) + first_word(rest.skip(1)));
        }
        end += 1;
    }
    let word = text_between(&chars, 0, end);
    assert(word@ =~= first_word(text@));
    word
}

fn is_reserved_name(name: &str) -> (yes: bool)
    ensures
        yes == is_reserved(name@),
{
    same_text(name, "/approve") || same_text(name, "/approve-session") || same_text(name, "/deny")
        || same_text(name, "/answer") || same_text(name, "/help") || same_text(name, "/new")
        || same_text(name, "/status") || same_text(name, "/stop") || same_text(name, "/whatsapp")
}

fn parse_reserved(command: &str) -> (parsed: BridgeCommand)
    ensures
        parsed@ == reserved_command(command@),
{
    match split_once(command, " ") {
        None => BridgeCommand::Help,
        Some((name, arguments)) => {
            let (token, answer) = match split_once(arguments.as_str(), " ") {
                Some((token, answer)) => (token, Some(answer)),
                None => (arguments, None),
            };
            if same_text(name.as_str(), "/approve") {
                return BridgeCommand::Approve { token, session: false };
            }
            if same_text(name.as_str(), "/approve-session") {
                return BridgeCommand::Approve { token, session: true };
            }
            if same_text(name.as_str(), "/deny") {
                return BridgeCommand::Deny { token };
            }
            match answer {
                Some(answer) => if same_text(name.as_str(), "/answer") {
                    BridgeCommand::Answer { token, answer }
                } else {
                    BridgeCommand::Help
                },
                None => BridgeCommand::Help,
            }
        },
    }
}

/// Parses a first-class WhatsApp input message.
pub fn parse_command(message: &str) -> (command: BridgeCommand)
    ensures
        command@ == parsed(message@),
{
    let command = trim(message);
    if command.as_str().is_empty() {
        return BridgeCommand::Help;
    }
    if same_text(command.as_str(), "/new") {
        return BridgeCommand::New;
    }
    if same_text(command.as_str(), "/status") {
        return BridgeCommand::Status;
    }
    if same_text(command.as_str(), "/stop") {
        return BridgeCommand::Stop;
    }
    if same_text(command.as_str(), "/") || same_text(command.as_str(), "/help") {
        return BridgeCommand::Help;
    }
    if same_text(command.as_str(), "/whatsapp list-threads") {
        return BridgeCommand::WhatsAppListThreads;
    }
    match strip_prefix(command.as_str(), "/whatsapp attach ") {
        Some(thread_id) => {
            if thread_id.as_str().is_empty() {
                return BridgeCommand::Help;
            }
            return BridgeCommand::WhatsAppAttach(thread_id);
        },
        None => {},
    }
    let word = leading_word(command.as_str());
    if is_reserved_name(word.as_str()) {
        parse_reserved(command.as_str())
    } else {
        BridgeCommand::Prompt(message.to_owned())
    }
}

/// Text that does not begin with a slash is a prompt, and it is handed on
/// unchanged.
pub proof fn plain_text_is_a_prompt(message: Seq<char>)
    requires
        trimmed(message).len() > 0,
        trimmed(message)[0] != '/',
    ensures
        parsed(message) == CommandModel::Prompt(message),
{
    let command = trimmed(message);
    let word = first_word(command);
    reveal_strlit("/new");
    reveal_strlit("/status");
    reveal_strlit("/stop");
    reveal_strlit("/");
    reveal_strlit("/help");
    reveal_strlit("/whatsapp list-threads");
    reveal_strlit("/whatsapp attach ");
    reveal_strlit("/approve");
    reveal_strlit("/approve-session");
    reveal_strlit("/deny");
    reveal_strlit("/answer");
    reveal_strlit("/whatsapp");
    if word.len() > 0 {
        assert(word[0] == command[0]);
    }
    if after_prefix(command, "/whatsapp attach "@) is Some {
        assert(starts(command, "/whatsapp attach "@));
        assert(command[0] == "/whatsapp attach "@[0]);
    }
}

proof fn lemma_parted_at_space(head: Seq<char>, rest: Seq<char>)
    requires
        forall|i: int| 0 <= i < head.len() ==> #[trigger] head[i] != ' ',
    ensures
        parted(head + " "@ + rest, " "@) == Some((head, rest)),
{
    reveal_strlit(" ");
    let text = head + " "@ + rest;
    let at = head.len() as int;
    parting_is_at_the_first_separator(text, " "@);
    assert(text.subrange(at, at + 1) =~= " "@);
    assert(occurs_at(text, " "@, at));
    let (left, right) = parted(text, " "@)->0;
    assert(text[left.len() as int] == (left + " "@ + right)[left.len() as int]);
    assert((left + " "@ + right)[left.len() as int] == ' ');
    if left.len() < at {
        assert(head[left.len() as int] == text[left.len() as int]);
    }
    assert(left.len() == at);
    assert(left =~= head) by {
        assert forall|i: int| 0 <= i < at implies left[i] == head[i] by {
            assert((left + " "@ + right)[i] == left[i]);
            assert(text[i] == head[i]);
        }
    }
    assert(right =~= rest) by {
        assert forall|i: int| 0 <= i < rest.len() implies right[i] == rest[i] by {
            assert((left + " "@ + right)[at + 1 + i] == right[i]);
            assert(text[at + 1 + i] == rest[i]);
        }
    }
}

proof fn lemma_first_word_of(head: Seq<char>, rest: Seq<char>)
    requires
        forall|i: int| 0 <= i < head.len() ==> !is_white(#[trigger] head[i]),
    ensures
        first_word(head + " "@ + rest) == head,
    decreases head.len(),
{
    reveal_strlit(" ");
    let text = head + " "@ + rest;
    if head.len() > 0 {
        assert(text[0] == head[0]);
        assert(text.skip(1) =~= head.skip(1) + " "@ + rest);
        lemma_first_word_of(head.skip(1), rest);
        assert(seq![head[0]] + head.skip(1) =~= head);
    } else {
        assert(text[0] == ' ');
        assert(is_white(' '));
        assert(head =~= Seq::<char>::empty());
    }
}

/// A command that is written out with its arguments is none of those without any.
proof fn lemma_has_arguments(name: Seq<char>, rest: Seq<char>)
    requires
        name == "/answer"@ || name == "/approve"@ || name == "/approve-session"@ || name
            == "/deny"@,
    ensures
        ({
            let command = name + " "@ + rest;
            &&& command != "/new"@ && command != "/status"@ && command != "/stop"@
            &&& command != "/"@ && command != "/help"@ && command != "/whatsapp list-threads"@
            &&& after_prefix(command, "/whatsapp attach "@) is None
            &&& first_word(command) == name
            &&& parted(command, " "@) == Some((name, rest))
        }),
{
    reveal_strlit("/answer");
    reveal_strlit("/approve");
    reveal_strlit("/approve-session");
    reveal_strlit("/deny");
    reveal_strlit("/new");
    reveal_strlit("/status");
    reveal_strlit("/stop");
    reveal_strlit("/");
    reveal_strlit("/help");
    reveal_strlit("/whatsapp list-threads");
    reveal_strlit("/whatsapp attach ");
    let command = name + " "@ + rest;
    assert(command[1] == name[1]);
    assert(command[1] == 'a' || command[1] == 'd');
    assert("/new"@[1] == 'n' && "/status"@[1] == 's' && "/stop"@[1] == 's' && "/help"@[1] == 'h');
    assert("/whatsapp list-threads"@[1] == 'w');
    if after_prefix(command, "/whatsapp attach "@) is Some {
        assert(command.subrange(0, "/whatsapp attach "@.len() as int)[1] == 'w');
    }
    lemma_first_word_of(name, rest);
    lemma_parted_at_space(name, rest);
}

/// An answer is read from its command, letter for letter: the word after the command is the
/// token, and all that follows it is the answer, spaces included.
pub proof fn answers_are_read_whole(message: Seq<char>, token: Seq<char>, answer: Seq<char>)
    requires
        trimmed(message) == "/answer"@ + " "@ + (token + " "@ + answer),
        forall|i: int| 0 <= i < token.len() ==> #[trigger] token[i] != ' ',
    ensures
        parsed(message) == (CommandModel::Answer { token, answer }),
{
    lemma_has_arguments("/answer"@, token + " "@ + answer);
    lemma_parted_at_space(token, answer);
    lemma_names_differ();
    reveal_strlit(" ");
}

proof fn lemma_names_differ()
    ensures
        "/answer"@ != "/approve"@,
        "/answer"@ != "/approve-session"@,
        "/answer"@ != "/deny"@,
        "/deny"@ != "/approve"@,
        "/deny"@ != "/approve-session"@,
        "/approve-session"@ != "/approve"@,
{
    reveal_strlit("/answer");
    reveal_strlit("/approve");
    reveal_strlit("/approve-session");
    reveal_strlit("/deny");
    assert("/answer"@.len() == 7);
    assert("/approve"@.len() == 8);
    assert("/approve-session"@.len() == 16);
    assert("/deny"@.len() == 5);
}

/// An approval or a denial is read from its command with its token; only the command that
/// says so holds for the session.
pub proof fn verdicts_are_read_with_their_token(message: Seq<char>, token: Seq<char>)
    requires
        forall|i: int| 0 <= i < token.len() ==> #[trigger] token[i] != ' ',
    ensures
        trimmed(message) == "/approve"@ + " "@ + token ==> parsed(message)
            == (CommandModel::Approve { token, session: false }),
        trimmed(message) == "/approve-session"@ + " "@ + token ==> parsed(message)
            == (CommandModel::Approve { token, session: true }),
        trimmed(message) == "/deny"@ + " "@ + token ==> parsed(message) == (CommandModel::Deny {
            token,
        }),
{
    lemma_has_arguments("/approve"@, token);
    lemma_has_arguments("/approve-session"@, token);
    lemma_has_arguments("/deny"@, token);
    lemma_names_differ();
    reveal_strlit(" ");
    parting_is_at_the_first_separator(token, " "@);
    if let Some((left, right)) = parted(token, " "@) {
        assert(token[left.len() as int] == (left + " "@ + right)[left.len() as int]);
    }
}

/// A thread is attached by its name, letter for letter.
pub proof fn attached_threads_are_named(message: Seq<char>, thread_id: Seq<char>)
    requires
        trimmed(message) == "/whatsapp attach "@ + thread_id,
        thread_id.len() > 0,
        "/whatsapp attach "@ + thread_id != "/whatsapp list-threads"@,
    ensures
        parsed(message) == CommandModel::WhatsAppAttach(thread_id),
{
    reveal_strlit("/new");
    reveal_strlit("/status");
    reveal_strlit("/stop");
    reveal_strlit("/");
    reveal_strlit("/help");
    reveal_strlit("/whatsapp attach ");
    let prefix = "/whatsapp attach "@;
    let command = prefix + thread_id;
    assert(command[1] == 'w');
    assert("/new"@[1] == 'n' && "/status"@[1] == 's' && "/stop"@[1] == 's' && "/help"@[1] == 'h');
    assert(command.subrange(0, prefix.len() as int) =~= prefix);
    assert(command.skip(prefix.len() as int) =~= thread_id);
}

/// A message that is one of the plain commands, whatever space stands around it, is that
/// command.
pub proof fn plain_commands_are_read(message: Seq<char>)
    ensures
        trimmed(message) == "/new"@ ==> parsed(message) == CommandModel::New,
        trimmed(message) == "/status"@ ==> parsed(message) == CommandModel::Status,
        trimmed(message) == "/stop"@ ==> parsed(message) == CommandModel::Stop,
        trimmed(message) == "/help"@ ==> parsed(message) == CommandModel::Help,
        trimmed(message).len() == 0 ==> parsed(message) == CommandModel::Help,
        trimmed(message) == "/whatsapp list-threads"@ ==> parsed(message)
            == CommandModel::WhatsAppListThreads,
{
    reveal_strlit("/new");
    reveal_strlit("/status");
    reveal_strlit("/stop");
    reveal_strlit("/");
    reveal_strlit("/help");
    reveal_strlit("/whatsapp list-threads");
    assert("/new"@[1] == 'n' && "/status"@[2] == 't' && "/stop"@[3] == 'o' && "/status"@[3] == 'a');
    assert("/new"@.len() == 4 && "/status"@.len() == 7 && "/stop"@.len() == 5 && "/help"@.len() == 5);
    assert("/help"@[1] == 'h' && "/stop"@[1] == 's');
    assert("/whatsapp list-threads"@.len() == 22);
}

/// A message that is a prompt is handed on letter for letter, and a message that does
/// anything else is a command: it begins with a slash, or says nothing.
pub proof fn prompts_are_not_changed(message: Seq<char>)
    ensures
        parsed(message) matches CommandModel::Prompt(text) ==> text == message,
        !(parsed(message) is Prompt) ==> trimmed(message).len() == 0 || trimmed(message)[0] == '/',
{
    if trimmed(message).len() > 0 && trimmed(message)[0] != '/' {
        plain_text_is_a_prompt(message);
    }
}

/// A slash that begins a word other than those of the bridge begins a prompt: it is meant
/// for Codex.
pub proof fn other_slashes_are_prompts(message: Seq<char>)
    requires
        trimmed(message).len() > 1,
        forall|i: int|
            0 <= i < trimmed(message).len() ==> !is_white(#[trigger] trimmed(message)[i]),
        trimmed(message) != "/new"@,
        trimmed(message) != "/status"@,
        trimmed(message) != "/stop"@,
        trimmed(message) != "/help"@,
        trimmed(message) != "/answer"@,
        trimmed(message) != "/approve"@,
        trimmed(message) != "/approve-session"@,
        trimmed(message) != "/deny"@,
        trimmed(message) != "/whatsapp"@,
    ensures
        parsed(message) == CommandModel::Prompt(message),
{
    let command = trimmed(message);
    reveal_strlit("/");
    reveal_strlit("/whatsapp list-threads");
    reveal_strlit("/whatsapp attach ");
    assert("/"@.len() == 1);
    assert(is_white(' '));
    if command == "/whatsapp list-threads"@ {
        assert(command[9] == ' ');
    }
    if after_prefix(command, "/whatsapp attach "@) is Some {
        assert(command.subrange(0, "/whatsapp attach "@.len() as int)[9] == ' ');
        assert(command[9] == ' ');
    }
    lemma_single_word(command);
}

proof fn lemma_single_word(text: Seq<char>)
    requires
        forall|i: int| 0 <= i < text.len() ==> !is_white(#[trigger] text[i]),
    ensures
        first_word(text) == text,
    decreases text.len(),
{
    if text.len() > 0 {
        lemma_single_word(text.skip(1));
        assert(seq![text[0]] + text.skip(1) =~= text);
    } else {
        assert(text =~= Seq::<char>::empty());
    }
}

} // verus!
