//! Transport-neutral presentation of Codex approval requests.

use crate::protocol::same_option_text;
use crate::text::chars_of;
use crate::text::contains_char;
use crate::text::copy_texts;
use crate::text::ends;
use crate::text::ends_with;
use crate::text::has_char;
use crate::text::join;
use crate::text::join_of;
use crate::text::joined;
use crate::text::joined3;
use crate::text::option_text;
use crate::text::same_text;
use crate::text::texts;
use vstd::prelude::*;

verus! {

/// What a network rule does with a host.
#[derive(Debug, Clone, Copy, PartialEq, Eq, Structural)]
pub enum NetworkPolicyRuleAction {
    Allow,
    Deny,
}

/// A network rule that may be added.
#[derive(Debug, PartialEq, Eq)]
pub struct NetworkPolicyAmendment {
    pub host: String,
    pub action: NetworkPolicyRuleAction,
}

impl Clone for NetworkPolicyAmendment {
    fn clone(&self) -> (copy: Self)
        ensures
            copy == *self,
    {
        NetworkPolicyAmendment { host: self.host.clone(), action: self.action }
    }
}

/// A command prefix that may be allowed from now on.
#[derive(Debug, PartialEq, Eq)]
pub struct ExecPolicyAmendment {
    pub command: Vec<String>,
}

/// The network access that a command asks for.
#[derive(Debug, Clone, PartialEq, Eq)]
pub struct NetworkApprovalContext {
    pub host: String,
}

/// How a path may be used.
#[derive(Debug, Clone, Copy, PartialEq, Eq, Structural)]
pub enum FileSystemAccessMode {
    Read,
    Write,
    Deny,
}

/// A path with a meaning of its own.
#[derive(Debug, PartialEq, Eq)]
pub enum FileSystemSpecialPath {
    Root,
    Minimal,
    ProjectRoots { subpath: Option<String> },
    Tmpdir,
    SlashTmp,
    Unknown { path: String, subpath: Option<String> },
}

/// A path of a permission.
#[derive(Debug, PartialEq, Eq)]
pub enum FileSystemPath {
    Path { path: String },
    GlobPattern { pattern: String },
    Special { value: FileSystemSpecialPath },
}

/// A path and how it may be used.
#[derive(Debug, PartialEq, Eq)]
pub struct FileSystemEntry {
    pub path: FileSystemPath,
    pub access: FileSystemAccessMode,
}

impl Clone for FileSystemSpecialPath {
    fn clone(&self) -> (copy: Self)
        ensures
            copy == *self,
    {
        match self {
            FileSystemSpecialPath::Root => FileSystemSpecialPath::Root,
            FileSystemSpecialPath::Minimal => FileSystemSpecialPath::Minimal,
            FileSystemSpecialPath::ProjectRoots { subpath } =>
                FileSystemSpecialPath::ProjectRoots { subpath: subpath.clone() },
            FileSystemSpecialPath::Tmpdir => FileSystemSpecialPath::Tmpdir,
            FileSystemSpecialPath::SlashTmp => FileSystemSpecialPath::SlashTmp,
            FileSystemSpecialPath::Unknown { path, subpath } => FileSystemSpecialPath::Unknown {
                path: path.clone(),
                subpath: subpath.clone(),
            },
        }
    }
}

impl Clone for FileSystemPath {
    fn clone(&self) -> (copy: Self)
        ensures
            copy == *self,
    {
        match self {
            FileSystemPath::Path { path } => FileSystemPath::Path { path: path.clone() },
            FileSystemPath::GlobPattern { pattern } => FileSystemPath::GlobPattern {
                pattern: pattern.clone(),
            },
            FileSystemPath::Special { value } => FileSystemPath::Special { value: value.clone() },
        }
    }
}

impl Clone for FileSystemEntry {
    fn clone(&self) -> (copy: Self)
        ensures
            copy == *self,
    {
        FileSystemEntry { path: self.path.clone(), access: self.access }
    }
}

/// What a `FileSystemSpecialPath` holds.
#[verifier::ext_equal]
pub enum SpecialPathModel {
    Root,
    Minimal,
    ProjectRoots { subpath: Option<Seq<char>> },
    Tmpdir,
    SlashTmp,
    Unknown { path: Seq<char>, subpath: Option<Seq<char>> },
}

/// What a `FileSystemPath` holds.
#[verifier::ext_equal]
pub enum PathModel {
    Path { path: Seq<char> },
    GlobPattern { pattern: Seq<char> },
    Special { value: SpecialPathModel },
}

/// What a `FileSystemEntry` holds.
#[verifier::ext_equal]
pub struct FileSystemEntryModel {
    pub path: PathModel,
    pub access: FileSystemAccessMode,
}

impl View for FileSystemSpecialPath {
    type V = SpecialPathModel;

    open spec fn view(&self) -> SpecialPathModel {
        match *self {
            FileSystemSpecialPath::Root => SpecialPathModel::Root,
            FileSystemSpecialPath::Minimal => SpecialPathModel::Minimal,
            FileSystemSpecialPath::ProjectRoots { subpath } => SpecialPathModel::ProjectRoots {
                subpath: option_text(subpath),
            },
            FileSystemSpecialPath::Tmpdir => SpecialPathModel::Tmpdir,
            FileSystemSpecialPath::SlashTmp => SpecialPathModel::SlashTmp,
            FileSystemSpecialPath::Unknown { path, subpath } => SpecialPathModel::Unknown {
                path: path@,
                subpath: option_text(subpath),
            },
        }
    }
}

impl View for FileSystemPath {
    type V = PathModel;

    open spec fn view(&self) -> PathModel {
        match *self {
            FileSystemPath::Path { path } => PathModel::Path { path: path@ },
            FileSystemPath::GlobPattern { pattern } => PathModel::GlobPattern {
                pattern: pattern@,
            },
            FileSystemPath::Special { value } => PathModel::Special { value: value@ },
        }
    }
}

impl View for FileSystemEntry {
    type V = FileSystemEntryModel;

    open spec fn view(&self) -> FileSystemEntryModel {
        FileSystemEntryModel { path: self.path@, access: self.access }
    }
}

/// What a list of entries holds.
pub open spec fn fs_entry_models(entries: Seq<FileSystemEntry>) -> Seq<FileSystemEntryModel> {
    entries.map_values(|entry: FileSystemEntry| entry@)
}

/// Network permissions.
#[derive(Debug, Clone, Copy, PartialEq, Eq, Structural)]
pub struct NetworkPermissions {
    pub enabled: Option<bool>,
}

/// File-system permissions. What is only carried along is kept in its serialized
/// form under `details`.
#[derive(Debug, PartialEq, Eq)]
pub struct FileSystemPermissions {
    pub entries: Option<Vec<FileSystemEntry>>,
    pub details: String,
}

/// Permissions that are asked for or granted.
#[derive(Debug, PartialEq, Eq)]
pub struct PermissionProfile {
    pub network: Option<NetworkPermissions>,
    pub file_system: Option<FileSystemPermissions>,
}

/// What `FileSystemPermissions` hold.
#[verifier::ext_equal]
pub struct FileSystemModel {
    pub entries: Option<Seq<FileSystemEntryModel>>,
    pub details: Seq<char>,
}

/// What a `PermissionProfile` holds.
#[verifier::ext_equal]
pub struct ProfileModel {
    pub network: Option<NetworkPermissions>,
    pub file_system: Option<FileSystemModel>,
}

impl View for FileSystemPermissions {
    type V = FileSystemModel;

    open spec fn view(&self) -> FileSystemModel {
        FileSystemModel {
            entries: match self.entries {
                Some(entries) => Some(fs_entry_models(entries@)),
                None => None,
            },
            details: self.details@,
        }
    }
}

impl View for PermissionProfile {
    type V = ProfileModel;

    open spec fn view(&self) -> ProfileModel {
        ProfileModel {
            network: self.network,
            file_system: match self.file_system {
                Some(file_system) => Some(file_system@),
                None => None,
            },
        }
    }
}

impl Clone for FileSystemPermissions {
    fn clone(&self) -> (copy: Self)
        ensures
            copy@ == self@,
    {
        let entries = match &self.entries {
            Some(entries) => {
                let list = entries.clone();
                assert(list@ =~= entries@);
                Some(list)
            },
            None => None,
        };
        FileSystemPermissions { entries, details: self.details.clone() }
    }
}

impl Clone for PermissionProfile {
    fn clone(&self) -> (copy: Self)
        ensures
            copy@ == self@,
    {
        PermissionProfile {
            network: self.network,
            file_system: match &self.file_system {
                Some(file_system) => Some(file_system.clone()),
                None => None,
            },
        }
    }
}

/// No permissions at all.
pub open spec fn no_permissions() -> ProfileModel {
    ProfileModel { network: None, file_system: None }
}

impl Default for PermissionProfile {
    fn default() -> (profile: Self)
        ensures
            profile@ == no_permissions(),
    {
        PermissionProfile { network: None, file_system: None }
    }
}

/// How long a permission lasts.
#[derive(Debug, Clone, Copy, PartialEq, Eq, Structural)]
pub enum PermissionGrantScope {
    Turn,
    Session,
}

/// An answer to a request to run a command.
#[derive(Debug, PartialEq, Eq)]
pub enum CommandExecutionApprovalDecision {
    Accept,
    AcceptForSession,
    AcceptWithExecpolicyAmendment { execpolicy_amendment: ExecPolicyAmendment },
    ApplyNetworkPolicyAmendment { network_policy_amendment: NetworkPolicyAmendment },
    Decline,
    Cancel,
}

/// An answer to a request to change files.
#[derive(Debug, Clone, Copy, PartialEq, Eq, Structural)]
pub enum FileChangeApprovalDecision {
    Accept,
    AcceptForSession,
    Decline,
    Cancel,
}

/// An answer to an approval request.
#[derive(Debug, PartialEq, Eq)]
pub enum ApprovalDecision {
    Command(CommandExecutionApprovalDecision),
    FileChange(FileChangeApprovalDecision),
    Permissions {
        permissions: PermissionProfile,
        scope: PermissionGrantScope,
        strict_auto_review: Option<bool>,
    },
}

/// What a `CommandExecutionApprovalDecision` holds.
#[verifier::ext_equal]
pub enum CommandDecisionModel {
    Accept,
    AcceptForSession,
    AcceptWithExecpolicyAmendment { command: Seq<Seq<char>> },
    ApplyNetworkPolicyAmendment { host: Seq<char>, action: NetworkPolicyRuleAction },
    Decline,
    Cancel,
}

/// What an `ApprovalDecision` holds.
#[verifier::ext_equal]
pub enum DecisionModel {
    Command(CommandDecisionModel),
    FileChange(FileChangeApprovalDecision),
    Permissions {
        permissions: ProfileModel,
        scope: PermissionGrantScope,
        strict_auto_review: Option<bool>,
    },
}

impl View for CommandExecutionApprovalDecision {
    type V = CommandDecisionModel;

    open spec fn view(&self) -> CommandDecisionModel {
        match *self {
            CommandExecutionApprovalDecision::Accept => CommandDecisionModel::Accept,
            CommandExecutionApprovalDecision::AcceptForSession =>
                CommandDecisionModel::AcceptForSession,
            CommandExecutionApprovalDecision::AcceptWithExecpolicyAmendment {
                execpolicy_amendment,
            } => CommandDecisionModel::AcceptWithExecpolicyAmendment {
                command: texts(execpolicy_amendment.command@),
            },
            CommandExecutionApprovalDecision::ApplyNetworkPolicyAmendment {
                network_policy_amendment,
            } => CommandDecisionModel::ApplyNetworkPolicyAmendment {
                host: network_policy_amendment.host@,
                action: network_policy_amendment.action,
            },
            CommandExecutionApprovalDecision::Decline => CommandDecisionModel::Decline,
            CommandExecutionApprovalDecision::Cancel => CommandDecisionModel::Cancel,
        }
    }
}

impl View for ApprovalDecision {
    type V = DecisionModel;

    open spec fn view(&self) -> DecisionModel {
        match *self {
            ApprovalDecision::Command(decision) => DecisionModel::Command(decision@),
            ApprovalDecision::FileChange(decision) => DecisionModel::FileChange(decision),
            ApprovalDecision::Permissions { permissions, scope, strict_auto_review } =>
                DecisionModel::Permissions {
                permissions: permissions@,
                scope,
                strict_auto_review,
            },
        }
    }
}

impl Clone for CommandExecutionApprovalDecision {
    fn clone(&self) -> (copy: Self)
        ensures
            copy@ == self@,
    {
        match self {
            CommandExecutionApprovalDecision::Accept => CommandExecutionApprovalDecision::Accept,
            CommandExecutionApprovalDecision::AcceptForSession =>
                CommandExecutionApprovalDecision::AcceptForSession,
            CommandExecutionApprovalDecision::AcceptWithExecpolicyAmendment {
                execpolicy_amendment,
            } => CommandExecutionApprovalDecision::AcceptWithExecpolicyAmendment {
                execpolicy_amendment: ExecPolicyAmendment {
                    command: copy_texts(&execpolicy_amendment.command),
                },
            },
            CommandExecutionApprovalDecision::ApplyNetworkPolicyAmendment {
                network_policy_amendment,
            } => CommandExecutionApprovalDecision::ApplyNetworkPolicyAmendment {
                network_policy_amendment: network_policy_amendment.clone(),
            },
            CommandExecutionApprovalDecision::Decline => CommandExecutionApprovalDecision::Decline,
            CommandExecutionApprovalDecision::Cancel => CommandExecutionApprovalDecision::Cancel,
        }
    }
}

impl Clone for ApprovalDecision {
    fn clone(&self) -> (copy: Self)
        ensures
            copy@ == self@,
    {
        match self {
            ApprovalDecision::Command(decision) => ApprovalDecision::Command(decision.clone()),
            ApprovalDecision::FileChange(decision) => ApprovalDecision::FileChange(*decision),
            ApprovalDecision::Permissions { permissions, scope, strict_auto_review } =>
                ApprovalDecision::Permissions {
                permissions: permissions.clone(),
                scope: *scope,
                strict_auto_review: *strict_auto_review,
            },
        }
    }
}

/// One answer that can be chosen.
#[derive(Debug, PartialEq, Eq)]
pub struct ApprovalChoice {
    pub label: String,
    pub decision: ApprovalDecision,
}

/// What is shown for an approval request.
#[derive(Debug, PartialEq, Eq)]
pub struct ApprovalPresentation {
    pub title: String,
    pub details: Vec<String>,
    pub choices: Vec<ApprovalChoice>,
}

/// What an `ApprovalChoice` holds.
#[verifier::ext_equal]
pub struct ChoiceModel {
    pub label: Seq<char>,
    pub decision: DecisionModel,
}

/// What an `ApprovalPresentation` holds.
#[verifier::ext_equal]
pub struct PresentationModel {
    pub title: Seq<char>,
    pub details: Seq<Seq<char>>,
    pub choices: Seq<ChoiceModel>,
}

impl View for ApprovalChoice {
    type V = ChoiceModel;

    open spec fn view(&self) -> ChoiceModel {
        ChoiceModel { label: self.label@, decision: self.decision@ }
    }
}

/// What a list of choices holds.
pub open spec fn choice_models(choices: Seq<ApprovalChoice>) -> Seq<ChoiceModel> {
    choices.map_values(|choice: ApprovalChoice| choice@)
}

impl View for ApprovalPresentation {
    type V = PresentationModel;

    open spec fn view(&self) -> PresentationModel {
        PresentationModel {
            title: self.title@,
            details: texts(self.details@),
            choices: choice_models(self.choices@),
        }
    }
}

impl Clone for ApprovalChoice {
    fn clone(&self) -> (copy: Self)
        ensures
            copy@ == self@,
    {
        ApprovalChoice { label: self.label.clone(), decision: self.decision.clone() }
    }
}

impl Clone for ApprovalPresentation {
    fn clone(&self) -> (copy: Self)
        ensures
            copy@ == self@,
    {
        let mut choices: Vec<ApprovalChoice> = Vec::new();
        let mut index: usize = 0;
        while index < self.choices.len()
            invariant
                index <= self.choices@.len(),
                choices@.len() == index,
                forall|i: int| 0 <= i < index ==> (#[trigger] choices@[i])@ == self.choices@[i]@,
            decreases self.choices@.len() - index,
        {
            choices.push(self.choices[index].clone());
            index += 1;
        }
        assert(choice_models(choices@) =~= choice_models(self.choices@));
        ApprovalPresentation {
            title: self.title.clone(),
            details: copy_texts(&self.details),
            choices,
        }
    }
}

/// A request to run a command.
#[derive(Debug, PartialEq, Eq)]
pub struct CommandExecutionRequestApprovalParams {
    pub thread_id: String,
    pub turn_id: String,
    pub item_id: String,
    pub environment_id: Option<String>,
    pub reason: Option<String>,
    pub command: Option<String>,
    pub network_approval_context: Option<NetworkApprovalContext>,
    pub additional_permissions: Option<PermissionProfile>,
    pub proposed_execpolicy_amendment: Option<ExecPolicyAmendment>,
    pub proposed_network_policy_amendments: Option<Vec<NetworkPolicyAmendment>>,
    pub available_decisions: Option<Vec<CommandExecutionApprovalDecision>>,
}

/// A request to change files.
#[derive(Debug, PartialEq, Eq)]
pub struct FileChangeRequestApprovalParams {
    pub thread_id: String,
    pub turn_id: String,
    pub item_id: String,
    pub reason: Option<String>,
    pub grant_root: Option<String>,
}

/// A request for permissions.
#[derive(Debug, PartialEq, Eq)]
pub struct PermissionsRequestApprovalParams {
    pub thread_id: String,
    pub turn_id: String,
    pub item_id: String,
    pub environment_id: Option<String>,
    pub reason: Option<String>,
    pub permissions: PermissionProfile,
}

/// What a list of command decisions holds.
pub open spec fn decision_models(decisions: Seq<CommandExecutionApprovalDecision>) -> Seq<
    CommandDecisionModel,
> {
    decisions.map_values(|decision: CommandExecutionApprovalDecision| decision@)
}

/// The first amendment from `from` on that allows its host.
pub open spec fn first_allowing(amendments: Seq<NetworkPolicyAmendment>, from: int) -> Option<int>
    decreases amendments.len() - from,
{
    if from < 0 || from >= amendments.len() {
        None
    } else if amendments[from].action is Allow {
        Some(from)
    } else {
        first_allowing(amendments, from + 1)
    }
}

/// The decisions that are offered where Codex names none.
pub open spec fn default_decisions(
    network: bool,
    execpolicy: Option<ExecPolicyAmendment>,
    amendments: Option<Seq<NetworkPolicyAmendment>>,
    additional_permissions: bool,
) -> Seq<CommandDecisionModel> {
    if network {
        let head = seq![CommandDecisionModel::Accept, CommandDecisionModel::AcceptForSession];
        let allowing = match amendments {
            Some(list) => match first_allowing(list, 0) {
                Some(index) => seq![
                    CommandDecisionModel::ApplyNetworkPolicyAmendment {
                        host: list[index].host@,
                        action: list[index].action,
                    },
                ],
                None => Seq::empty(),
            },
            None => Seq::empty(),
        };
        head + allowing + seq![CommandDecisionModel::Cancel]
    } else if additional_permissions {
        seq![CommandDecisionModel::Accept, CommandDecisionModel::Cancel]
    } else {
        match execpolicy {
            Some(amendment) => seq![
                CommandDecisionModel::Accept,
                CommandDecisionModel::AcceptWithExecpolicyAmendment {
                    command: texts(amendment.command@),
                },
                CommandDecisionModel::Cancel,
            ],
            None => seq![CommandDecisionModel::Accept, CommandDecisionModel::Cancel],
        }
    }
}

/// Whether a character needs no quotes in a shell command.
pub open spec fn is_plain(character: char) -> bool {
    ||| 'a' <= character <= 'z'
    ||| 'A' <= character <= 'Z'
    ||| '0' <= character <= '9'
    ||| character == '_'
    ||| character == '.'
    ||| character == '/'
    ||| character == ':'
    ||| character == '-'
}

/// A text with each single quote closed, escaped and opened again.
pub open spec fn escaped(text: Seq<char>) -> Seq<char>
    decreases text.len(),
{
    if text.len() == 0 {
        Seq::empty()
    } else if text.last() == '\'' {
        escaped(text.drop_last()) + "'\\''"@
    } else {
        escaped(text.drop_last()).push(text.last())
    }
}

/// One word of a shell command, quoted where it needs quotes.
pub open spec fn shell_word(word: Seq<char>) -> Seq<char> {
    if forall|i: int| 0 <= i < word.len() ==> is_plain(#[trigger] word[i]) {
        word
    } else {
        "'"@ + escaped(word) + "'"@
    }
}

/// The words of a command that a shell is asked to run, without the shell.
pub open spec fn unwrapped(command: Seq<Seq<char>>) -> Seq<Seq<char>> {
    if command.len() >= 3 && command[1] == "-lc"@ && (ends(command[0], "bash"@) || ends(
        command[0],
        "zsh"@,
    )) {
        command.skip(2)
    } else {
        command
    }
}

/// A command as it is shown.
pub open spec fn rendered(command: Seq<Seq<char>>) -> Seq<char> {
    join_of(unwrapped(command).map_values(|word: Seq<char>| shell_word(word)), " "@)
}

/// The label of a decision; none for one that cannot be shown on a line.
pub open spec fn choice_label(
    decision: CommandDecisionModel,
    network: bool,
    additional_permissions: bool,
) -> Option<Seq<char>> {
    match decision {
        CommandDecisionModel::Accept => Some(
            if network {
                "Yes, just this once"@
            } else {
                "Yes, proceed"@
            },
        ),
        CommandDecisionModel::AcceptWithExecpolicyAmendment { command } => {
            let prefix = rendered(command);
            if has_char(prefix, '\n') || has_char(prefix, '\r') {
                None
            } else {
                Some(
                    "Yes, and don't ask again for commands that start with `"@ + prefix + "`"@,
                )
            }
        },
        CommandDecisionModel::AcceptForSession => Some(
            if network {
                "Yes, and allow this host for this conversation"@
            } else if additional_permissions {
                "Yes, and allow these permissions for this session"@
            } else {
                "Yes, and don't ask again for this command in this session"@
            },
        ),
        CommandDecisionModel::ApplyNetworkPolicyAmendment { action, .. } => Some(
            match action {
                NetworkPolicyRuleAction::Allow => "Yes, and allow this host in the future"@,
                NetworkPolicyRuleAction::Deny => "No, and block this host in the future"@,
            },
        ),
        CommandDecisionModel::Decline => Some("No, continue without running it"@),
        CommandDecisionModel::Cancel => Some("No, and tell Codex what to do differently"@),
    }
}

/// The choices for the decisions that are available, in their order.
pub open spec fn choices_for(
    decisions: Seq<CommandDecisionModel>,
    network: bool,
    additional_permissions: bool,
) -> Seq<ChoiceModel>
    decreases decisions.len(),
{
    if decisions.len() == 0 {
        Seq::empty()
    } else {
        let earlier = choices_for(decisions.drop_last(), network, additional_permissions);
        match choice_label(decisions.last(), network, additional_permissions) {
            Some(label) => earlier.push(
                ChoiceModel { label, decision: DecisionModel::Command(decisions.last()) },
            ),
            None => earlier,
        }
    }
}

/// A path with a meaning of its own, in words.
pub open spec fn special_path_text(path: SpecialPathModel) -> Seq<char> {
    match path {
        SpecialPathModel::Root => ":root"@,
        SpecialPathModel::Minimal => ":minimal"@,
        SpecialPathModel::ProjectRoots { subpath } => match subpath {
            Some(below) => ":workspace_roots/"@ + below,
            None => ":workspace_roots"@,
        },
        SpecialPathModel::Tmpdir => ":tmpdir"@,
        SpecialPathModel::SlashTmp => "/tmp"@,
        SpecialPathModel::Unknown { path, subpath } => match subpath {
            Some(below) => path + "/"@ + below,
            None => path,
        },
    }
}

/// A path of a permission, in words.
pub open spec fn path_text(path: PathModel) -> Seq<char> {
    match path {
        PathModel::Path { path } => "`"@ + path + "`"@,
        PathModel::GlobPattern { pattern } => "glob `"@ + pattern + "`"@,
        PathModel::Special { value } => "`"@ + special_path_text(value) + "`"@,
    }
}

/// The paths with a given access, in words.
pub open spec fn path_texts(entries: Seq<FileSystemEntryModel>, access: FileSystemAccessMode) -> Seq<
    Seq<char>,
>
    decreases entries.len(),
{
    if entries.len() == 0 {
        Seq::empty()
    } else {
        let earlier = path_texts(entries.drop_last(), access);
        if entries.last().access == access {
            earlier.push(path_text(entries.last().path))
        } else {
            earlier
        }
    }
}

/// The part of a rule for one kind of access; empty where there is none.
pub open spec fn access_part(
    entries: Seq<FileSystemEntryModel>,
    access: FileSystemAccessMode,
    label: Seq<char>,
) -> Seq<Seq<char>> {
    let paths = join_of(path_texts(entries, access), ", "@);
    if paths.len() == 0 {
        Seq::empty()
    } else {
        seq![label + " "@ + paths]
    }
}

/// The parts of the rule for a permission profile.
pub open spec fn rule_parts(profile: ProfileModel) -> Seq<Seq<char>> {
    let network = match profile.network {
        Some(NetworkPermissions { enabled: Some(true) }) => seq!["network"@],
        _ => Seq::empty(),
    };
    match profile.file_system {
        Some(FileSystemModel { entries: Some(entries), .. }) => network + access_part(
            entries,
            FileSystemAccessMode::Read,
            "read"@,
        ) + access_part(entries, FileSystemAccessMode::Write, "write"@) + access_part(
            entries,
            FileSystemAccessMode::Deny,
            "deny read"@,
        ),
        _ => network,
    }
}

/// The rule for a permission profile, in words.
pub open spec fn rule_text(profile: ProfileModel) -> Option<Seq<char>> {
    let parts = rule_parts(profile);
    if parts.len() == 0 {
        None
    } else {
        Some(join_of(parts, "; "@))
    }
}

/// One detail line, where there is a value for it.
pub open spec fn detail(prefix: Seq<char>, value: Option<Seq<char>>) -> Seq<Seq<char>> {
    match value {
        Some(text) => seq![prefix + text],
        None => Seq::empty(),
    }
}

/// What is shown for a request to run a command.
pub open spec fn command_presentation(params: CommandExecutionRequestApprovalParams) ->
    PresentationModel {
    let network = params.network_approval_context is Some;
    let additional = params.additional_permissions is Some;
    let decisions = match params.available_decisions {
        Some(list) => decision_models(list@),
        None => default_decisions(
            network,
            params.proposed_execpolicy_amendment,
            match params.proposed_network_policy_amendments {
                Some(list) => Some(list@),
                None => None,
            },
            additional,
        ),
    };
    PresentationModel {
        title: match params.network_approval_context {
            Some(context) => "Do you want to approve network access to \""@ + context.host@
                + "\"?"@,
            None => "Would you like to run the following command?"@,
        },
        details: detail("Environment: "@, option_text(params.environment_id)) + detail(
            "Reason: "@,
            option_text(params.reason),
        ) + detail(
            "Permission rule: "@,
            match params.additional_permissions {
                Some(profile) => rule_text(profile@),
                None => None,
            },
        ) + (if network {
            Seq::empty()
        } else {
            detail("$ "@, option_text(params.command))
        }),
        choices: choices_for(decisions, network, additional),
    }
}

/// The choices for a request to change files.
pub open spec fn file_change_choices() -> Seq<ChoiceModel> {
    seq![
        ChoiceModel {
            label: "Yes, proceed"@,
            decision: DecisionModel::FileChange(FileChangeApprovalDecision::Accept),
        },
        ChoiceModel {
            label: "Yes, and don't ask again for these files"@,
            decision: DecisionModel::FileChange(FileChangeApprovalDecision::AcceptForSession),
        },
        ChoiceModel {
            label: "No, and tell Codex what to do differently"@,
            decision: DecisionModel::FileChange(FileChangeApprovalDecision::Cancel),
        },
    ]
}

/// What is shown for a request to change files.
pub open spec fn change_presentation(
    params: FileChangeRequestApprovalParams,
    paths: Seq<Seq<char>>,
) -> PresentationModel {
    PresentationModel {
        title: "Would you like to make the following edits?"@,
        details: detail("Reason: "@, option_text(params.reason)) + (if paths.len() == 0 {
            Seq::empty()
        } else {
            seq!["Files: "@ + join_of(paths, ", "@)]
        }) + (match params.grant_root {
            Some(root) => seq!["Permission rule: write under `"@ + root@ + "`"@],
            None => Seq::empty(),
        }),
        choices: file_change_choices(),
    }
}

/// The choices for a request for permissions.
pub open spec fn permission_choices(granted: ProfileModel) -> Seq<ChoiceModel> {
    seq![
        ChoiceModel {
            label: "Yes, grant these permissions for this turn"@,
            decision: DecisionModel::Permissions {
                permissions: granted,
                scope: PermissionGrantScope::Turn,
                strict_auto_review: None,
            },
        },
        ChoiceModel {
            label: "Yes, grant for this turn with strict auto review"@,
            decision: DecisionModel::Permissions {
                permissions: granted,
                scope: PermissionGrantScope::Turn,
                strict_auto_review: Some(true),
            },
        },
        ChoiceModel {
            label: "Yes, grant these permissions for this session"@,
            decision: DecisionModel::Permissions {
                permissions: granted,
                scope: PermissionGrantScope::Session,
                strict_auto_review: None,
            },
        },
        ChoiceModel {
            label: "No, continue without permissions"@,
            decision: DecisionModel::Permissions {
                permissions: no_permissions(),
                scope: PermissionGrantScope::Turn,
                strict_auto_review: None,
            },
        },
    ]
}

/// What is shown for a request for permissions.
pub open spec fn grant_presentation(params: PermissionsRequestApprovalParams) -> PresentationModel {
    PresentationModel {
        title: "Would you like to grant these permissions?"@,
        details: detail("Environment: "@, option_text(params.environment_id)) + detail(
            "Reason: "@,
            option_text(params.reason),
        ) + detail("Permission rule: "@, rule_text(params.permissions@)),
        choices: permission_choices(params.permissions@),
    }
}

/// The decisions that are offered where Codex names none.
pub fn default_command_execution_decisions(
    network_approval_context: Option<&NetworkApprovalContext>,
    proposed_execpolicy_amendment: Option<&ExecPolicyAmendment>,
    proposed_network_policy_amendments: Option<&Vec<NetworkPolicyAmendment>>,
    additional_permissions: Option<&PermissionProfile>,
) -> (decisions: Vec<CommandExecutionApprovalDecision>)
    ensures
        decision_models(decisions@) == default_decisions(
            network_approval_context is Some,
            match proposed_execpolicy_amendment {
                Some(amendment) => Some(*amendment),
                None => None,
            },
            match proposed_network_policy_amendments {
                Some(list) => Some(list@),
                None => None,
            },
            additional_permissions is Some,
        ),
{
    let ghost expected = default_decisions(
        network_approval_context is Some,
        match proposed_execpolicy_amendment {
            Some(amendment) => Some(*amendment),
            None => None,
        },
        match proposed_network_policy_amendments {
            Some(list) => Some(list@),
            None => None,
        },
        additional_permissions is Some,
    );
    let mut decisions: Vec<CommandExecutionApprovalDecision> = Vec::new();
    decisions.push(CommandExecutionApprovalDecision::Accept);
    if network_approval_context.is_some() {
        decisions.push(CommandExecutionApprovalDecision::AcceptForSession);
        match proposed_network_policy_amendments {
            Some(amendments) => {
                let mut index: usize = 0;
                while index < amendments.len() && amendments[index].action
                    != NetworkPolicyRuleAction::Allow
                    invariant
                        index <= amendments@.len(),
                        first_allowing(amendments@, 0) == first_allowing(
                            amendments@,
                            index as int,
                        ),
                    decreases amendments@.len() - index,
                {
                    index += 1;
                }
                if index < amendments.len() {
                    decisions.push(
                        CommandExecutionApprovalDecision::ApplyNetworkPolicyAmendment {
                            network_policy_amendment: amendments[index].clone(),
                        },
                    );
                }
            },
            None => {},
        }
        decisions.push(CommandExecutionApprovalDecision::Cancel);
        assert(decision_models(decisions@) =~= expected);
        return decisions;
    }
    if additional_permissions.is_none() {
        match proposed_execpolicy_amendment {
            Some(amendment) => {
                decisions.push(
                    CommandExecutionApprovalDecision::AcceptWithExecpolicyAmendment {
                        execpolicy_amendment: ExecPolicyAmendment {
                            command: copy_texts(&amendment.command),
                        },
                    },
                );
            },
            None => {},
        }
    }
    decisions.push(CommandExecutionApprovalDecision::Cancel);
    assert(decision_models(decisions@) =~= expected);
    decisions
}

fn is_plain_character(character: char) -> (yes: bool)
    ensures
        yes == is_plain(character),
{
    ('a' <= character && character <= 'z') || ('A' <= character && character <= 'Z') || ('0'
        <= character && character <= '9') || character == '_' || character == '.' || character
        == '/' || character == ':' || character == '-'
}

/// One word of a shell command, quoted where it needs quotes.
fn quote_word(word: &str) -> (quoted: String)
    ensures
        quoted@ == shell_word(word@),
{
    let chars = chars_of(word);
    let mut index: usize = 0;
    while index < chars.len() && is_plain_character(chars[index])
        invariant
            chars@ == word@,
            index <= chars@.len(),
            forall|i: int| 0 <= i < index ==> is_plain(#[trigger] word@[i]),
        decreases chars@.len() - index,
    {
        index += 1;
    }
    if index == chars.len() {
        return word.to_owned();
    }
    assert(!is_plain(word@[index as int]));
    let mut text = "'".to_owned();
    let mut at: usize = 0;
    assert(word@.take(0) =~= Seq::<char>::empty());
    assert(text@ =~= "'"@ + escaped(word@.take(0)));
    while at < chars.len()
        invariant
            chars@ == word@,
            at <= chars@.len(),
            text@ == "'"@ + escaped(word@.take(at as int)),
        decreases chars@.len() - at,
    {
        proof {
            let longer = word@.take(at + 1);
            assert(longer.drop_last() =~= word@.take(at as int));
            assert(longer.last() == word@[at as int]);
        }
        if chars[at] == '\'' {
            text.append("'\\''");
        } else {
            text.push(chars[at]);
        }
        assert(text@ =~= "'"@ + escaped(word@.take(at + 1)));
        at += 1;
    }
    assert(word@.take(at as int) =~= word@);
    text.append("'");
    text
}

/// A command as it is shown: words quoted where they need quotes, without the
/// shell that runs it.
pub fn render_command(command: &Vec<String>) -> (text: String)
    ensures
        text@ == rendered(texts(command@)),
{
    let ghost all = texts(command@);
    let start: usize = if command.len() >= 3 && same_text(command[1].as_str(), "-lc") && (ends_with(
        command[0].as_str(),
        "bash",
    ) || ends_with(command[0].as_str(), "zsh")) {
        2
    } else {
        0
    };
    proof {
        if command@.len() >= 3 {
            assert(all[1] == command@[1]@);
            assert(all[0] == command@[0]@);
        }
        assert(unwrapped(all) =~= all.skip(start as int));
    }
    let mut words: Vec<String> = Vec::new();
    let mut index: usize = start;
    while index < command.len()
        invariant
            start <= index <= command@.len(),
            words@.len() == index - start,
            forall|i: int|
                0 <= i < words@.len() ==> (#[trigger] words@[i])@ == shell_word(
                    command@[start + i]@,
                ),
        decreases command@.len() - index,
    {
        let word = quote_word(command[index].as_str());
        words.push(word);
        index += 1;
    }
    assert(texts(words@) =~= unwrapped(all).map_values(|word: Seq<char>| shell_word(word)));
    join(&words, " ")
}

/// The label of a decision; none for one that cannot be shown on a line.
fn label_for(
    decision: &CommandExecutionApprovalDecision,
    network: bool,
    additional_permissions: bool,
) -> (label: Option<String>)
    ensures
        option_text(label) == choice_label(decision@, network, additional_permissions),
{
    match decision {
        CommandExecutionApprovalDecision::Accept => Some(
            if network {
                "Yes, just this once".to_owned()
            } else {
                "Yes, proceed".to_owned()
            },
        ),
        CommandExecutionApprovalDecision::AcceptWithExecpolicyAmendment {
            execpolicy_amendment,
        } => {
            let prefix = render_command(&execpolicy_amendment.command);
            if contains_char(prefix.as_str(), '\n') || contains_char(prefix.as_str(), '\r') {
                None
            } else {
                Some(
                    joined3(
                        "Yes, and don't ask again for commands that start with `",
                        prefix.as_str(),
                        "`",
                    ),
                )
            }
        },
        CommandExecutionApprovalDecision::AcceptForSession => Some(
            if network {
                "Yes, and allow this host for this conversation".to_owned()
            } else if additional_permissions {
                "Yes, and allow these permissions for this session".to_owned()
            } else {
                "Yes, and don't ask again for this command in this session".to_owned()
            },
        ),
        CommandExecutionApprovalDecision::ApplyNetworkPolicyAmendment {
            network_policy_amendment,
        } => Some(
            match network_policy_amendment.action {
                NetworkPolicyRuleAction::Allow => {
                    "Yes, and allow this host in the future".to_owned()
                },
                NetworkPolicyRuleAction::Deny => "No, and block this host in the future".to_owned(),
            },
        ),
        CommandExecutionApprovalDecision::Decline => Some(
            "No, continue without running it".to_owned(),
        ),
        CommandExecutionApprovalDecision::Cancel => Some(
            "No, and tell Codex what to do differently".to_owned(),
        ),
    }
}

/// Returns the standard TUI wording and decision order for command approval.
pub fn command_execution_choices(
    available_decisions: &Vec<CommandExecutionApprovalDecision>,
    network_approval_context: Option<&NetworkApprovalContext>,
    additional_permissions: Option<&PermissionProfile>,
) -> (choices: Vec<ApprovalChoice>)
    ensures
        choice_models(choices@) == choices_for(
            decision_models(available_decisions@),
            network_approval_context is Some,
            additional_permissions is Some,
        ),
{
    let network = network_approval_context.is_some();
    let additional = additional_permissions.is_some();
    let ghost decisions = decision_models(available_decisions@);
    let mut choices: Vec<ApprovalChoice> = Vec::new();
    let mut index: usize = 0;
    assert(decisions.take(0) =~= Seq::<CommandDecisionModel>::empty());
    assert(choice_models(choices@) =~= Seq::<ChoiceModel>::empty());
    while index < available_decisions.len()
        invariant
            decisions == decision_models(available_decisions@),
            index <= available_decisions@.len(),
            choice_models(choices@) == choices_for(
                decisions.take(index as int),
                network,
                additional,
            ),
        decreases available_decisions@.len() - index,
    {
        let decision = &available_decisions[index];
        let ghost before = choices@;
        proof {
            let longer = decisions.take(index + 1);
            assert(longer.drop_last() =~= decisions.take(index as int));
            assert(longer.last() == decision@);
        }
        match label_for(decision, network, additional) {
            Some(label) => {
                let choice = ApprovalChoice {
                    label,
                    decision: ApprovalDecision::Command(decision.clone()),
                };
                choices.push(choice);
                assert(choice_models(choices@) =~= choice_models(before).push(choice@));
            },
            None => {},
        }
        index += 1;
    }
    assert(decisions.take(index as int) =~= decisions);
    choices
}

fn special_path(path: &FileSystemSpecialPath) -> (text: String)
    ensures
        text@ == special_path_text(path@),
{
    match path {
        FileSystemSpecialPath::Root => ":root".to_owned(),
        FileSystemSpecialPath::Minimal => ":minimal".to_owned(),
        FileSystemSpecialPath::ProjectRoots { subpath } => match subpath {
            Some(below) => joined(":workspace_roots/", below.as_str()),
            None => ":workspace_roots".to_owned(),
        },
        FileSystemSpecialPath::Tmpdir => ":tmpdir".to_owned(),
        FileSystemSpecialPath::SlashTmp => "/tmp".to_owned(),
        FileSystemSpecialPath::Unknown { path, subpath } => match subpath {
            Some(below) => joined3(path.as_str(), "/", below.as_str()),
            None => path.clone(),
        },
    }
}

fn file_system_path(path: &FileSystemPath) -> (text: String)
    ensures
        text@ == path_text(path@),
{
    match path {
        FileSystemPath::Path { path } => joined3("`", path.as_str(), "`"),
        FileSystemPath::GlobPattern { pattern } => joined3("glob `", pattern.as_str(), "`"),
        FileSystemPath::Special { value } => {
            let inner = special_path(value);
            joined3("`", inner.as_str(), "`")
        },
    }
}

/// Adds the part of a rule for one kind of access.
fn push_access_part(
    parts: &mut Vec<String>,
    entries: &Vec<FileSystemEntry>,
    access: FileSystemAccessMode,
    label: &str,
)
    ensures
        texts(final(parts)@) == texts(old(parts)@) + access_part(
            fs_entry_models(entries@),
            access,
            label@,
        ),
{
    let mut paths: Vec<String> = Vec::new();
    let mut index: usize = 0;
    let ghost models = fs_entry_models(entries@);
    assert(models.take(0) =~= Seq::<FileSystemEntryModel>::empty());
    assert(texts(paths@) =~= Seq::<Seq<char>>::empty());
    while index < entries.len()
        invariant
            index <= entries@.len(),
            models == fs_entry_models(entries@),
            texts(paths@) == path_texts(models.take(index as int), access),
        decreases entries@.len() - index,
    {
        let entry = &entries[index];
        let ghost before = paths@;
        proof {
            let longer = models.take(index + 1);
            assert(longer.drop_last() =~= models.take(index as int));
            assert(longer.last() == entry@);
        }
        if entry.access == access {
            let text = file_system_path(&entry.path);
            paths.push(text);
            assert(texts(paths@) =~= texts(before).push(text@));
        }
        index += 1;
    }
    assert(models.take(index as int) =~= models);
    let list = join(&paths, ", ");
    if !list.as_str().is_empty() {
        let part = joined3(label, " ", list.as_str());
        parts.push(part);
        assert(texts(parts@) =~= texts(old(parts)@) + seq![part@]);
    } else {
        assert(texts(parts@) =~= texts(old(parts)@) + Seq::<Seq<char>>::empty());
    }
}

/// The rule for a permission profile, in words.
fn permissions_rule(profile: &PermissionProfile) -> (rule: Option<String>)
    ensures
        option_text(rule) == rule_text(profile@),
{
    let mut parts: Vec<String> = Vec::new();
    match profile.network {
        Some(network) => match network.enabled {
            Some(enabled) => {
                if enabled {
                    parts.push("network".to_owned());
                }
            },
            None => {},
        },
        None => {},
    }
    proof {
        let network = match profile.network {
            Some(NetworkPermissions { enabled: Some(true) }) => seq!["network"@],
            _ => Seq::empty(),
        };
        assert(texts(parts@) =~= network);
    }
    match &profile.file_system {
        Some(file_system) => match &file_system.entries {
            Some(entries) => {
                push_access_part(&mut parts, entries, FileSystemAccessMode::Read, "read");
                push_access_part(&mut parts, entries, FileSystemAccessMode::Write, "write");
                push_access_part(&mut parts, entries, FileSystemAccessMode::Deny, "deny read");
            },
            None => {},
        },
        None => {},
    }
    assert(texts(parts@) =~= rule_parts(profile@));
    if parts.len() == 0 {
        None
    } else {
        Some(join(&parts, "; "))
    }
}

/// Adds a detail line, where there is a value for it.
fn push_detail(details: &mut Vec<String>, prefix: &str, value: &Option<String>)
    ensures
        texts(final(details)@) == texts(old(details)@) + detail(prefix@, option_text(*value)),
{
    match value {
        Some(text) => {
            let line = joined(prefix, text.as_str());
            details.push(line);
            assert(texts(details@) =~= texts(old(details)@) + seq![line@]);
        },
        None => {
            assert(texts(details@) =~= texts(old(details)@) + Seq::<Seq<char>>::empty());
        },
    }
}

/// What is shown for a request to run a command.
pub fn command_execution_presentation(params: &CommandExecutionRequestApprovalParams) -> (shown:
    ApprovalPresentation)
    ensures
        shown@ == command_presentation(*params),
{
    let title = match &params.network_approval_context {
        Some(context) => joined3(
            "Do you want to approve network access to \"",
            context.host.as_str(),
            "\"?",
        ),
        None => "Would you like to run the following command?".to_owned(),
    };
    let mut details: Vec<String> = Vec::new();
    assert(texts(details@) =~= Seq::<Seq<char>>::empty());
    push_detail(&mut details, "Environment: ", &params.environment_id);
    push_detail(&mut details, "Reason: ", &params.reason);
    let rule = match &params.additional_permissions {
        Some(profile) => permissions_rule(profile),
        None => None,
    };
    push_detail(&mut details, "Permission rule: ", &rule);
    if params.network_approval_context.is_none() {
        push_detail(&mut details, "$ ", &params.command);
    }
    let choices = match &params.available_decisions {
        Some(decisions) => command_execution_choices(
            decisions,
            params.network_approval_context.as_ref(),
            params.additional_permissions.as_ref(),
        ),
        None => {
            let decisions = default_command_execution_decisions(
                params.network_approval_context.as_ref(),
                params.proposed_execpolicy_amendment.as_ref(),
                params.proposed_network_policy_amendments.as_ref(),
                params.additional_permissions.as_ref(),
            );
            command_execution_choices(
                &decisions,
                params.network_approval_context.as_ref(),
                params.additional_permissions.as_ref(),
            )
        },
    };
    let shown = ApprovalPresentation { title, details, choices };
    assert(shown@.details =~= command_presentation(*params).details);
    shown
}

fn choice(label: &str, decision: ApprovalDecision) -> (choice: ApprovalChoice)
    ensures
        choice@ == (ChoiceModel { label: label@, decision: decision@ }),
{
    ApprovalChoice { label: label.to_owned(), decision }
}

/// What is shown for a request to change files.
pub fn file_change_presentation(
    params: &FileChangeRequestApprovalParams,
    paths: &Vec<String>,
) -> (shown: ApprovalPresentation)
    ensures
        shown@ == change_presentation(*params, texts(paths@)),
{
    let mut details: Vec<String> = Vec::new();
    assert(texts(details@) =~= Seq::<Seq<char>>::empty());
    push_detail(&mut details, "Reason: ", &params.reason);
    let files = if paths.len() == 0 {
        None
    } else {
        Some(join(paths, ", "))
    };
    push_detail(&mut details, "Files: ", &files);
    let root = match &params.grant_root {
        Some(root) => Some(joined(root.as_str(), "`")),
        None => None,
    };
    push_detail(&mut details, "Permission rule: write under `", &root);
    let choices = vec![
        choice("Yes, proceed", ApprovalDecision::FileChange(FileChangeApprovalDecision::Accept)),
        choice(
            "Yes, and don't ask again for these files",
            ApprovalDecision::FileChange(FileChangeApprovalDecision::AcceptForSession),
        ),
        choice(
            "No, and tell Codex what to do differently",
            ApprovalDecision::FileChange(FileChangeApprovalDecision::Cancel),
        ),
    ];
    let shown = ApprovalPresentation {
        title: "Would you like to make the following edits?".to_owned(),
        details,
        choices,
    };
    proof {
        let expected = change_presentation(*params, texts(paths@));
        match &params.grant_root {
            Some(root) => {
                assert("Permission rule: write under `"@ + (root@ + "`"@)
                    =~= "Permission rule: write under `"@ + root@ + "`"@);
            },
            None => {},
        }
        assert(shown@.details =~= expected.details);
        assert(shown@.choices =~= file_change_choices());
    }
    shown
}

/// What is shown for a request for permissions.
pub fn permissions_presentation(params: &PermissionsRequestApprovalParams) -> (shown:
    ApprovalPresentation)
    ensures
        shown@ == grant_presentation(*params),
{
    let mut details: Vec<String> = Vec::new();
    assert(texts(details@) =~= Seq::<Seq<char>>::empty());
    push_detail(&mut details, "Environment: ", &params.environment_id);
    push_detail(&mut details, "Reason: ", &params.reason);
    let rule = permissions_rule(&params.permissions);
    push_detail(&mut details, "Permission rule: ", &rule);
    let choices = vec![
        choice(
            "Yes, grant these permissions for this turn",
            ApprovalDecision::Permissions {
                permissions: params.permissions.clone(),
                scope: PermissionGrantScope::Turn,
                strict_auto_review: None,
            },
        ),
        choice(
            "Yes, grant for this turn with strict auto review",
            ApprovalDecision::Permissions {
                permissions: params.permissions.clone(),
                scope: PermissionGrantScope::Turn,
                strict_auto_review: Some(true),
            },
        ),
        choice(
            "Yes, grant these permissions for this session",
            ApprovalDecision::Permissions {
                permissions: params.permissions.clone(),
                scope: PermissionGrantScope::Session,
                strict_auto_review: None,
            },
        ),
        choice(
            "No, continue without permissions",
            ApprovalDecision::Permissions {
                permissions: PermissionProfile::default(),
                scope: PermissionGrantScope::Turn,
                strict_auto_review: None,
            },
        ),
    ];
    let shown = ApprovalPresentation {
        title: "Would you like to grant these permissions?".to_owned(),
        details,
        choices,
    };
    proof {
        assert(shown@.details =~= grant_presentation(*params).details);
        assert(shown@.choices =~= permission_choices(params.permissions@));
    }
    shown
}

/// Where Codex names no decisions, a command can always be accepted first and
/// cancelled last.
pub proof fn default_decisions_accept_and_cancel(
    network: bool,
    execpolicy: Option<ExecPolicyAmendment>,
    amendments: Option<Seq<NetworkPolicyAmendment>>,
    additional_permissions: bool,
)
    ensures
        ({
            let decisions = default_decisions(
                network,
                execpolicy,
                amendments,
                additional_permissions,
            );
            &&& decisions.len() >= 2
            &&& decisions[0] == CommandDecisionModel::Accept
            &&& decisions.last() == CommandDecisionModel::Cancel
        }),
{
}

/// The choices are those that Codex supplied, in their order: each choice carries
/// a supplied decision, and only what cannot be shown on a line is left out.
pub proof fn choices_are_those_supplied(
    decisions: Seq<CommandDecisionModel>,
    network: bool,
    additional_permissions: bool,
)
    ensures
        ({
            let choices = choices_for(decisions, network, additional_permissions);
            &&& choices.len() <= decisions.len()
            &&& forall|i: int|
                0 <= i < choices.len() ==> exists|j: int|
                    i <= j < decisions.len() && (#[trigger] choices[i]).decision
                        == DecisionModel::Command(#[trigger] decisions[j])
            &&& (forall|j: int|
                0 <= j < decisions.len() ==> choice_label(
                    #[trigger] decisions[j],
                    network,
                    additional_permissions,
                ) is Some) ==> choices.len() == decisions.len()
        }),
    decreases decisions.len(),
{
    if decisions.len() > 0 {
        let earlier = decisions.drop_last();
        choices_are_those_supplied(earlier, network, additional_permissions);
        let shorter = choices_for(earlier, network, additional_permissions);
        let choices = choices_for(decisions, network, additional_permissions);
        assert forall|i: int| 0 <= i < choices.len() implies exists|j: int|
            i <= j < decisions.len() && (#[trigger] choices[i]).decision == DecisionModel::Command(
                #[trigger] decisions[j],
            ) by {
            if i < shorter.len() {
                assert(choices[i] == shorter[i]);
                let j = choose|j: int|
                    i <= j < earlier.len() && shorter[i].decision == DecisionModel::Command(
                        #[trigger] earlier[j],
                    );
                assert(decisions[j] == earlier[j]);
            } else {
                assert(decisions[decisions.len() - 1] == decisions.last());
            }
        }
        if forall|j: int|
            0 <= j < decisions.len() ==> choice_label(
                #[trigger] decisions[j],
                network,
                additional_permissions,
            ) is Some {
            assert forall|j: int| 0 <= j < earlier.len() implies choice_label(
                #[trigger] earlier[j],
                network,
                additional_permissions,
            ) is Some by {
                assert(earlier[j] == decisions[j]);
            }
            assert(decisions[decisions.len() - 1] == decisions.last());
        }
    }
}

fn same_special_path(left: &FileSystemSpecialPath, right: &FileSystemSpecialPath) -> (same: bool)
    ensures
        same == (left@ == right@),
{
    match (left, right) {
        (FileSystemSpecialPath::Root, FileSystemSpecialPath::Root) => true,
        (FileSystemSpecialPath::Minimal, FileSystemSpecialPath::Minimal) => true,
        (
            FileSystemSpecialPath::ProjectRoots { subpath },
            FileSystemSpecialPath::ProjectRoots { subpath: other },
        ) => same_option_text(subpath, other),
        (FileSystemSpecialPath::Tmpdir, FileSystemSpecialPath::Tmpdir) => true,
        (FileSystemSpecialPath::SlashTmp, FileSystemSpecialPath::SlashTmp) => true,
        (
            FileSystemSpecialPath::Unknown { path, subpath },
            FileSystemSpecialPath::Unknown { path: other_path, subpath: other },
        ) => same_text(path.as_str(), other_path.as_str()) && same_option_text(subpath, other),
        _ => false,
    }
}

fn same_path(left: &FileSystemPath, right: &FileSystemPath) -> (same: bool)
    ensures
        same == (left@ == right@),
{
    match (left, right) {
        (FileSystemPath::Path { path }, FileSystemPath::Path { path: other }) => same_text(
            path.as_str(),
            other.as_str(),
        ),
        (
            FileSystemPath::GlobPattern { pattern },
            FileSystemPath::GlobPattern { pattern: other },
        ) => same_text(pattern.as_str(), other.as_str()),
        (FileSystemPath::Special { value }, FileSystemPath::Special { value: other }) =>
            same_special_path(value, other),
        _ => false,
    }
}

fn same_entries(left: &Vec<FileSystemEntry>, right: &Vec<FileSystemEntry>) -> (same: bool)
    ensures
        same == (fs_entry_models(left@) == fs_entry_models(right@)),
{
    if left.len() != right.len() {
        assert(fs_entry_models(left@).len() != fs_entry_models(right@).len());
        return false;
    }
    let mut index: usize = 0;
    while index < left.len()
        invariant
            index <= left@.len() == right@.len(),
            forall|i: int| 0 <= i < index ==> (#[trigger] left@[i])@ == right@[i]@,
        decreases left@.len() - index,
    {
        if left[index].access != right[index].access || !same_path(
            &left[index].path,
            &right[index].path,
        ) {
            assert(fs_entry_models(left@)[index as int] != fs_entry_models(right@)[index as int]);
            return false;
        }
        index += 1;
    }
    assert(fs_entry_models(left@) =~= fs_entry_models(right@));
    true
}

fn same_profile(left: &PermissionProfile, right: &PermissionProfile) -> (same: bool)
    ensures
        same == (left@ == right@),
{
    let same_network = match (left.network, right.network) {
        (Some(one), Some(other)) => match (one.enabled, other.enabled) {
            (Some(first), Some(second)) => first == second,
            (None, None) => true,
            _ => false,
        },
        (None, None) => true,
        _ => false,
    };
    let same_files = match (&left.file_system, &right.file_system) {
        (Some(one), Some(other)) => same_text(one.details.as_str(), other.details.as_str()) && match (
            &one.entries,
            &other.entries,
        ) {
            (Some(first), Some(second)) => same_entries(first, second),
            (None, None) => true,
            _ => false,
        },
        (None, None) => true,
        _ => false,
    };
    same_network && same_files
}

fn same_words(left: &Vec<String>, right: &Vec<String>) -> (same: bool)
    ensures
        same == (texts(left@) == texts(right@)),
{
    if left.len() != right.len() {
        assert(texts(left@).len() != texts(right@).len());
        return false;
    }
    let mut index: usize = 0;
    while index < left.len()
        invariant
            index <= left@.len() == right@.len(),
            forall|i: int| 0 <= i < index ==> (#[trigger] left@[i])@ == right@[i]@,
        decreases left@.len() - index,
    {
        if !same_text(left[index].as_str(), right[index].as_str()) {
            assert(texts(left@)[index as int] != texts(right@)[index as int]);
            return false;
        }
        index += 1;
    }
    assert(texts(left@) =~= texts(right@));
    true
}

fn same_command_decision(
    left: &CommandExecutionApprovalDecision,
    right: &CommandExecutionApprovalDecision,
) -> (same: bool)
    ensures
        same == (left@ == right@),
{
    match (left, right) {
        (
            CommandExecutionApprovalDecision::Accept,
            CommandExecutionApprovalDecision::Accept,
        ) => true,
        (
            CommandExecutionApprovalDecision::AcceptForSession,
            CommandExecutionApprovalDecision::AcceptForSession,
        ) => true,
        (
            CommandExecutionApprovalDecision::AcceptWithExecpolicyAmendment {
                execpolicy_amendment,
            },
            CommandExecutionApprovalDecision::AcceptWithExecpolicyAmendment {
                execpolicy_amendment: other,
            },
        ) => same_words(&execpolicy_amendment.command, &other.command),
        (
            CommandExecutionApprovalDecision::ApplyNetworkPolicyAmendment {
                network_policy_amendment,
            },
            CommandExecutionApprovalDecision::ApplyNetworkPolicyAmendment {
                network_policy_amendment: other,
            },
        ) => network_policy_amendment.action == other.action && same_text(
            network_policy_amendment.host.as_str(),
            other.host.as_str(),
        ),
        (
            CommandExecutionApprovalDecision::Decline,
            CommandExecutionApprovalDecision::Decline,
        ) => true,
        (
            CommandExecutionApprovalDecision::Cancel,
            CommandExecutionApprovalDecision::Cancel,
        ) => true,
        _ => false,
    }
}

impl ApprovalDecision {
    /// Whether two decisions are the same.
    pub fn same(&self, other: &ApprovalDecision) -> (same: bool)
        ensures
            same == (self@ == other@),
    {
        match (self, other) {
            (ApprovalDecision::Command(one), ApprovalDecision::Command(two)) =>
                same_command_decision(one, two),
            (ApprovalDecision::FileChange(one), ApprovalDecision::FileChange(two)) => *one == *two,
            (
                ApprovalDecision::Permissions { permissions, scope, strict_auto_review },
                ApprovalDecision::Permissions {
                    permissions: other_permissions,
                    scope: other_scope,
                    strict_auto_review: other_review,
                },
            ) => *scope == *other_scope && (match (*strict_auto_review, *other_review) {
                (Some(first), Some(second)) => first == second,
                (None, None) => true,
                _ => false,
            }) && same_profile(permissions, other_permissions),
            _ => false,
        }
    }
}

} // verus!
