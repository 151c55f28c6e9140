//! What holds of every approval that is shown: a choice does what its label says.

use crate::approval::access_part;
use crate::approval::change_presentation;
use crate::approval::choice_label;
use crate::approval::choices_for;
use crate::approval::command_presentation;
use crate::approval::default_decisions;
use crate::approval::detail;
use crate::approval::escaped;
use crate::approval::first_allowing;
use crate::approval::grant_presentation;
use crate::approval::is_plain;
use crate::approval::path_text;
use crate::approval::path_texts;
use crate::approval::rendered;
use crate::approval::rule_parts;
use crate::approval::rule_text;
use crate::approval::shell_word;
use crate::approval::unwrapped;
use crate::approval::ChoiceModel;
use crate::approval::CommandDecisionModel;
use crate::approval::CommandExecutionRequestApprovalParams;
use crate::approval::DecisionModel;
use crate::approval::ExecPolicyAmendment;
use crate::approval::FileChangeApprovalDecision;
use crate::approval::FileChangeRequestApprovalParams;
use crate::approval::FileSystemAccessMode;
use crate::approval::FileSystemEntryModel;
use crate::approval::NetworkPolicyAmendment;
use crate::approval::NetworkPolicyRuleAction;
use crate::approval::PathModel;
use crate::approval::PermissionsRequestApprovalParams;
use crate::approval::ProfileModel;
use crate::text::ends;
use crate::text::joined_texts_mention_each;
use crate::text::lemma_mentions_itself;
use crate::text::lemma_mentions_within;
use crate::text::mentions;
use crate::text::occurs_at;
use crate::text::option_text;
use crate::text::starts;
use crate::text::texts;
use vstd::prelude::*;

verus! {

/// Whether a label says no.
pub open spec fn says_no(label: Seq<char>) -> bool {
    label.len() > 2 && label[0] == 'N' && label[1] == 'o' && label[2] == ','
}

/// Whether a label says yes.
pub open spec fn says_yes(label: Seq<char>) -> bool {
    label.len() > 3 && label[0] == 'Y' && label[1] == 'e' && label[2] == 's' && label[3] == ','
}

/// Whether a label says yes to more than this one request.
pub open spec fn says_from_now_on(label: Seq<char>) -> bool {
    says_yes(label) && label.len() > 8 && label[5] == 'a' && label[6] == 'n' && label[7] == 'd'
}

/// Whether a label ends with the word `session`.
pub open spec fn names_the_session(label: Seq<char>) -> bool {
    label.len() > 7 && label[label.len() - 7] == 's' && label[label.len() - 6] == 'e'
        && label[label.len() - 5] == 's' && label[label.len() - 4] == 's'
        && label[label.len() - 3] == 'i' && label[label.len() - 2] == 'o'
        && label[label.len() - 1] == 'n'
}

/// Whether a label ends with the word `review`.
pub open spec fn names_the_review(label: Seq<char>) -> bool {
    label.len() > 6 && label[label.len() - 6] == 'r' && label[label.len() - 5] == 'e'
        && label[label.len() - 4] == 'v' && label[label.len() - 3] == 'i'
        && label[label.len() - 2] == 'e' && label[label.len() - 1] == 'w'
}

/// Whether a choice on permissions does what its label says: a no grants nothing, a yes
/// exactly what was asked for, for the session where the label names the session, and
/// under review where it names the review.
pub open spec fn grants_what_it_says(choice: ChoiceModel, asked: ProfileModel) -> bool {
    match choice.decision {
        DecisionModel::Permissions { permissions, scope, strict_auto_review } => {
            &&& says_no(choice.label) || says_yes(choice.label)
            &&& says_no(choice.label) ==> permissions.network is None
                && permissions.file_system is None && scope is Turn
            &&& says_yes(choice.label) ==> permissions.network == asked.network
                && permissions.file_system == asked.file_system
            &&& scope is Session <==> names_the_session(choice.label)
            &&& strict_auto_review == if names_the_review(choice.label) {
                Some(true)
            } else {
                None
            }
        },
        _ => false,
    }
}

/// Every choice on permissions does what its label says; one of them says no, one yes for
/// the turn, one yes for the session, and one yes under review.
pub proof fn grants_follow_their_labels(params: PermissionsRequestApprovalParams)
    ensures
        ({
            let choices = grant_presentation(params).choices;
            &&& forall|i: int|
                0 <= i < choices.len() ==> grants_what_it_says(
                    #[trigger] choices[i],
                    params.permissions@,
                )
            &&& choices.len() == 4
            &&& says_yes(choices[0].label) && !names_the_session(choices[0].label)
                && !names_the_review(choices[0].label)
            &&& says_yes(choices[1].label) && names_the_review(choices[1].label)
            &&& says_yes(choices[2].label) && names_the_session(choices[2].label)
            &&& says_no(choices[3].label)
        }),
{
    reveal_strlit("Yes, grant these permissions for this turn");
    reveal_strlit("Yes, grant for this turn with strict auto review");
    reveal_strlit("Yes, grant these permissions for this session");
    reveal_strlit("No, continue without permissions");
}

/// Whether a choice on file changes does what its label says: a no accepts nothing, a yes
/// accepts, from now on where the label says so.
pub open spec fn changes_what_it_says(choice: ChoiceModel) -> bool {
    match choice.decision {
        DecisionModel::FileChange(decision) => {
            &&& says_no(choice.label) || says_yes(choice.label)
            &&& says_no(choice.label) ==> decision is Decline || decision is Cancel
            &&& says_yes(choice.label) ==> decision is Accept || decision is AcceptForSession
            &&& decision is AcceptForSession <==> says_from_now_on(choice.label)
        },
        _ => false,
    }
}

/// Every choice on file changes does what its label says, whatever the request: once, from
/// now on, or not at all.
pub proof fn changes_follow_their_labels(
    params: FileChangeRequestApprovalParams,
    paths: Seq<Seq<char>>,
)
    ensures
        ({
            let choices = change_presentation(params, paths).choices;
            &&& forall|i: int|
                0 <= i < choices.len() ==> changes_what_it_says(#[trigger] choices[i])
            &&& choices.len() == 3
            &&& says_yes(choices[0].label) && !says_from_now_on(choices[0].label)
            &&& says_from_now_on(choices[1].label)
            &&& says_no(choices[2].label) && choices[2].decision == DecisionModel::FileChange(
                FileChangeApprovalDecision::Cancel,
            )
        }),
{
    reveal_strlit("Yes, proceed");
    reveal_strlit("Yes, and don't ask again for these files");
    reveal_strlit("No, and tell Codex what to do differently");
}

/// Whether a decision lets the command run.
pub open spec fn lets_it_run(decision: CommandDecisionModel) -> bool {
    match decision {
        CommandDecisionModel::Accept => true,
        CommandDecisionModel::AcceptForSession => true,
        CommandDecisionModel::AcceptWithExecpolicyAmendment { .. } => true,
        CommandDecisionModel::ApplyNetworkPolicyAmendment { action, .. } => action is Allow,
        CommandDecisionModel::Decline => false,
        CommandDecisionModel::Cancel => false,
    }
}

/// A decision on a command says yes where it lets the command run, no where it does not,
/// and says where it holds from now on. It says no more than one thing on a line.
pub proof fn command_labels_say_what_they_do(
    decision: CommandDecisionModel,
    network: bool,
    additional_permissions: bool,
)
    ensures
        match choice_label(decision, network, additional_permissions) {
            Some(label) => {
                &&& says_yes(label) == lets_it_run(decision)
                &&& says_no(label) == !lets_it_run(decision)
                &&& says_from_now_on(label) == (lets_it_run(decision) && !(decision is Accept))
                &&& decision is AcceptForSession && !network ==> names_the_session(label)
                &&& decision is ApplyNetworkPolicyAmendment ==> ends(label, "in the future"@)
                &&& decision is Decline <==> label == "No, continue without running it"@
                &&& decision is Cancel <==> label == "No, and tell Codex what to do differently"@
                &&& decision matches CommandDecisionModel::AcceptWithExecpolicyAmendment {
                    command,
                } ==> mentions(label, rendered(command))
            },
            None => decision matches CommandDecisionModel::AcceptWithExecpolicyAmendment {
                command,
            } && exists|i: int|
                0 <= i < rendered(command).len() && (#[trigger] rendered(command)[i] == '\n'
                    || rendered(command)[i] == '\r'),
        },
{
    if let CommandDecisionModel::AcceptWithExecpolicyAmendment { command } = decision {
        reveal_strlit("Yes, and don't ask again for commands that start with `");
        reveal_strlit("No, continue without running it");
        reveal_strlit("No, and tell Codex what to do differently");
        lemma_mentions_itself(rendered(command));
        lemma_mentions_within(
            "Yes, and don't ask again for commands that start with `"@,
            rendered(command),
            "`"@,
            rendered(command),
        );
        let whole = "Yes, and don't ask again for commands that start with `"@ + rendered(command)
            + "`"@;
        assert(whole[0] == 'Y');
    } else {
        lemma_plain_labels(decision, network, additional_permissions);
    }
}

proof fn lemma_plain_labels(
    decision: CommandDecisionModel,
    network: bool,
    additional_permissions: bool,
)
    requires
        !(decision is AcceptWithExecpolicyAmendment),
    ensures
        choice_label(decision, network, additional_permissions) matches Some(label) && {
            &&& says_yes(label) == lets_it_run(decision)
            &&& says_no(label) == !lets_it_run(decision)
            &&& says_from_now_on(label) == (lets_it_run(decision) && !(decision is Accept))
            &&& decision is AcceptForSession && !network ==> names_the_session(label)
            &&& decision is ApplyNetworkPolicyAmendment ==> ends(label, "in the future"@)
            &&& decision is Decline <==> label == "No, continue without running it"@
            &&& decision is Cancel <==> label == "No, and tell Codex what to do differently"@
        },
{
    reveal_strlit("Yes, just this once");
    reveal_strlit("Yes, proceed");
    reveal_strlit("Yes, and allow this host for this conversation");
    reveal_strlit("Yes, and allow these permissions for this session");
    reveal_strlit("Yes, and don't ask again for this command in this session");
    reveal_strlit("Yes, and allow this host in the future");
    reveal_strlit("No, and block this host in the future");
    reveal_strlit("No, continue without running it");
    reveal_strlit("No, and tell Codex what to do differently");
    reveal_strlit("in the future");
    assert("Yes, and allow this host in the future"@.subrange(25, 38) =~= "in the future"@);
    assert("No, and block this host in the future"@.subrange(24, 37) =~= "in the future"@);
    assert("No, and block this host in the future"@.len() == 37);
    assert("No, and tell Codex what to do differently"@[4] == 'a');
    assert("No, continue without running it"@[4] == 'c');
    assert("No, and block this host in the future"@[8] == 'b');
    assert("No, and tell Codex what to do differently"@[8] == 't');
}

/// The choices are the decisions that can be shown on a line, each exactly once and in
/// the order in which they were supplied, under their own labels.
pub proof fn choices_keep_the_order(
    decisions: Seq<CommandDecisionModel>,
    network: bool,
    additional: bool,
)
    ensures
        ({
            let choices = choices_for(decisions, network, additional);
            let shown = decisions.filter(
                |decision: CommandDecisionModel|
                    choice_label(decision, network, additional) is Some,
            );
            &&& choices.len() == shown.len()
            &&& forall|i: int|
                0 <= i < choices.len() ==> (#[trigger] choices[i]).decision
                    == DecisionModel::Command(shown[i]) && Some(choices[i].label) == choice_label(
                    shown[i],
                    network,
                    additional,
                )
        }),
    decreases decisions.len(),
{
    reveal(Seq::filter);
    if decisions.len() > 0 {
        choices_keep_the_order(decisions.drop_last(), network, additional);
    }
}

/// Where Codex names no decisions, the network is allowed for the conversation, or for the
/// future under the first proposed rule that allows the host, and nothing else is offered;
/// a command is allowed once, or with the proposed prefix where no permissions come with
/// it.
#[verifier::rlimit(40)]
pub proof fn default_decisions_offer_what_was_proposed(
    network: bool,
    execpolicy: Option<ExecPolicyAmendment>,
    amendments: Option<Seq<NetworkPolicyAmendment>>,
    additional: bool,
)
    ensures
        ({
            let decisions = default_decisions(network, execpolicy, amendments, additional);
            let allows = amendments matches Some(list) && exists|i: int|
                0 <= i < list.len() && (#[trigger] list[i]).action is Allow;
            let prefixed = !network && !additional && execpolicy is Some;
            &&& decisions.len() == if network && allows {
                4int
            } else if network || prefixed {
                3
            } else {
                2
            }
            &&& network ==> decisions[1] == CommandDecisionModel::AcceptForSession
            &&& network && allows ==> exists|k: int|
                0 <= k < amendments->0.len() && (#[trigger] amendments->0[k]).action is Allow
                    && decisions[2] == (CommandDecisionModel::ApplyNetworkPolicyAmendment {
                    host: amendments->0[k].host@,
                    action: NetworkPolicyRuleAction::Allow,
                }) && forall|i: int| 0 <= i < k ==> !((#[trigger] amendments->0[i]).action is Allow)
            &&& prefixed ==> decisions[1]
                == (CommandDecisionModel::AcceptWithExecpolicyAmendment {
                command: texts(execpolicy->0.command@),
            })
        }),
{
    if let Some(list) = amendments {
        lemma_first_allowing(list, 0);
        if let Some(k) = first_allowing(list, 0) {
            assert(list[k].action is Allow);
        }
    }
}

proof fn lemma_first_allowing(list: Seq<NetworkPolicyAmendment>, from: int)
    requires
        0 <= from,
    ensures
        match first_allowing(list, from) {
            Some(k) => from <= k < list.len() && list[k].action is Allow && forall|i: int|
                from <= i < k ==> !((#[trigger] list[i]).action is Allow),
            None => forall|i: int|
                from <= i < list.len() ==> !((#[trigger] list[i]).action is Allow),
        },
    decreases list.len() - from,
{
    if from < list.len() && !(list[from].action is Allow) {
        lemma_first_allowing(list, from + 1);
    }
}

/// A request to run a command is shown with its command, its reason and its environment,
/// and one for the network with the host in place of the command; nothing else is shown
/// but the rule for its permissions.
pub proof fn command_requests_show_what_is_asked(params: CommandExecutionRequestApprovalParams)
    ensures
        ({
            let shown = command_presentation(params);
            &&& params.environment_id matches Some(id) ==> shown.details.contains(
                "Environment: "@ + id@,
            )
            &&& params.reason matches Some(reason) ==> shown.details.contains(
                "Reason: "@ + reason@,
            )
            &&& params.command matches Some(command) ==> params.network_approval_context is None
                ==> shown.details.last() == "$ "@ + command@
            &&& params.network_approval_context matches Some(context) ==> mentions(
                shown.title,
                context.host@,
            )
            &&& params.additional_permissions matches Some(profile) ==> rule_text(
                profile@,
            ) matches Some(rule) ==> shown.details.contains("Permission rule: "@ + rule)
            &&& params.environment_id is None && params.reason is None
                && params.additional_permissions is None && (params.command is None
                || params.network_approval_context is Some) ==> shown.details.len() == 0
        }),
{
    let shown = command_presentation(params);
    let environment = detail("Environment: "@, option_text(params.environment_id));
    let reason = detail("Reason: "@, option_text(params.reason));
    let rule = detail(
        "Permission rule: "@,
        match params.additional_permissions {
            Some(profile) => rule_text(profile@),
            None => None,
        },
    );
    if params.environment_id is Some {
        assert(shown.details[0] == environment[0]);
    }
    if params.reason is Some {
        assert(shown.details[environment.len() as int] == reason[0]);
    }
    if rule.len() > 0 {
        assert(shown.details[(environment.len() + reason.len()) as int] == rule[0]);
    }
    if let Some(context) = params.network_approval_context {
        lemma_mentions_itself(context.host@);
        lemma_mentions_within(
            "Do you want to approve network access to \""@,
            context.host@,
            "\"?"@,
            context.host@,
        );
    }
}

/// A request to change files is shown with its reason, every file and the place that is
/// to be granted.
pub proof fn change_requests_show_what_is_asked(
    params: FileChangeRequestApprovalParams,
    paths: Seq<Seq<char>>,
)
    ensures
        ({
            let shown = change_presentation(params, paths);
            &&& params.reason matches Some(reason) ==> shown.details.contains(
                "Reason: "@ + reason@,
            )
            &&& params.grant_root matches Some(root) ==> mentions(shown.details.last(), root@)
            &&& forall|i: int|
                0 <= i < paths.len() ==> exists|k: int|
                    0 <= k < shown.details.len() && mentions(
                        #[trigger] shown.details[k],
                        #[trigger] paths[i],
                    )
            &&& params.reason is None && params.grant_root is None && paths.len() == 0
                ==> shown.details.len() == 0
        }),
{
    let shown = change_presentation(params, paths);
    let reason = detail("Reason: "@, option_text(params.reason));
    if params.reason is Some {
        assert(shown.details[0] == reason[0]);
    }
    if let Some(root) = params.grant_root {
        lemma_mentions_itself(root@);
        lemma_mentions_within("Permission rule: write under `"@, root@, "`"@, root@);
    }
    assert forall|i: int| 0 <= i < paths.len() implies exists|k: int|
        0 <= k < shown.details.len() && mentions(#[trigger] shown.details[k], #[trigger] paths[i])
        by {
        let list = crate::text::join_of(paths, ", "@);
        joined_texts_mention_each(paths, ", "@, i);
        lemma_mentions_within("Files: "@, list, Seq::empty(), paths[i]);
        assert("Files: "@ + list + Seq::<char>::empty() =~= "Files: "@ + list);
        assert(shown.details[reason.len() as int] == "Files: "@ + list);
    }
}

/// A request for permissions is shown with its reason, its environment and the rule.
pub proof fn permission_requests_show_what_is_asked(params: PermissionsRequestApprovalParams)
    ensures
        ({
            let shown = grant_presentation(params);
            &&& params.environment_id matches Some(id) ==> shown.details.contains(
                "Environment: "@ + id@,
            )
            &&& params.reason matches Some(reason) ==> shown.details.contains(
                "Reason: "@ + reason@,
            )
            &&& rule_text(params.permissions@) matches Some(rule) ==> shown.details.last()
                == "Permission rule: "@ + rule
        }),
{
    let shown = grant_presentation(params);
    let environment = detail("Environment: "@, option_text(params.environment_id));
    let reason = detail("Reason: "@, option_text(params.reason));
    if params.environment_id is Some {
        assert(shown.details[0] == environment[0]);
    }
    if params.reason is Some {
        assert(shown.details[environment.len() as int] == reason[0]);
    }
}

/// The word under which a rule lists the paths with an access.
pub open spec fn access_word(access: FileSystemAccessMode) -> Seq<char> {
    match access {
        FileSystemAccessMode::Read => "read "@,
        FileSystemAccessMode::Write => "write "@,
        FileSystemAccessMode::Deny => "deny read "@,
    }
}

/// The text that a path is written with.
pub open spec fn path_name(path: PathModel) -> Seq<char> {
    match path {
        PathModel::Path { path } => path,
        PathModel::GlobPattern { pattern } => pattern,
        PathModel::Special { value } => crate::approval::special_path_text(value),
    }
}

/// A rule lists for an access exactly the paths that have it, in their order.
pub proof fn paths_are_listed_by_access(
    entries: Seq<FileSystemEntryModel>,
    access: FileSystemAccessMode,
)
    ensures
        path_texts(entries, access) == entries.filter(
            |entry: FileSystemEntryModel| entry.access == access,
        ).map_values(|entry: FileSystemEntryModel| path_text(entry.path)),
    decreases entries.len(),
{
    reveal(Seq::filter);
    let has = |entry: FileSystemEntryModel| entry.access == access;
    let text = |entry: FileSystemEntryModel| path_text(entry.path);
    if entries.len() > 0 {
        let shorter = entries.drop_last();
        paths_are_listed_by_access(shorter, access);
        if entries.last().access == access {
            assert(shorter.filter(has).push(entries.last()).map_values(text) =~= shorter.filter(
                has,
            ).map_values(text).push(path_text(entries.last().path)));
        }
    } else {
        assert(entries.filter(has).map_values(text) =~= Seq::empty());
    }
}

proof fn lemma_path_is_named(path: PathModel)
    ensures
        mentions(path_text(path), path_name(path)),
        path_text(path).len() > 0,
{
    lemma_mentions_itself(path_name(path));
    reveal_strlit("`");
    match path {
        PathModel::GlobPattern { pattern } => {
            lemma_mentions_within("glob `"@, pattern, "`"@, pattern);
        },
        _ => {
            lemma_mentions_within("`"@, path_name(path), "`"@, path_name(path));
        },
    }
}

proof fn lemma_entry_is_listed(
    entries: Seq<FileSystemEntryModel>,
    index: int,
    access: FileSystemAccessMode,
) -> (place: int)
    requires
        0 <= index < entries.len(),
        entries[index].access == access,
    ensures
        0 <= place < path_texts(entries, access).len(),
        path_texts(entries, access)[place] == path_text(entries[index].path),
    decreases entries.len(),
{
    if index == entries.len() - 1 {
        path_texts(entries, access).len() - 1
    } else {
        lemma_entry_is_listed(entries.drop_last(), index, access)
    }
}

proof fn lemma_access_part(
    entries: Seq<FileSystemEntryModel>,
    index: int,
    access: FileSystemAccessMode,
    label: Seq<char>,
)
    requires
        0 <= index < entries.len(),
        entries[index].access == access,
    ensures
        ({
            let parts = access_part(entries, access, label);
            &&& parts.len() == 1
            &&& starts(parts[0], label + " "@)
            &&& mentions(parts[0], path_name(entries[index].path))
        }),
{
    let list = path_texts(entries, access);
    let place = lemma_entry_is_listed(entries, index, access);
    let name = path_name(entries[index].path);
    lemma_path_is_named(entries[index].path);
    joined_texts_mention_each(list, ", "@, place);
    let paths = crate::text::join_of(list, ", "@);
    let at = choose|at: int| #[trigger] occurs_at(paths, list[place], at);
    assert(paths.subrange(at, at + list[place].len()) == list[place]);
    let before = paths.take(at);
    let after = paths.skip(at + list[place].len());
    assert(before + list[place] + after =~= paths) by {
        assert forall|k: int| 0 <= k < paths.len() implies (before + list[place] + after)[k]
            == paths[k] by {
            if at <= k < at + list[place].len() {
                assert(paths.subrange(at, at + list[place].len())[k - at] == paths[k]);
            }
        }
    }
    lemma_mentions_within(before, list[place], after, name);
    lemma_mentions_within(label + " "@, paths, Seq::empty(), name);
    assert((label + " "@) + paths + Seq::<char>::empty() =~= label + " "@ + paths);
    let whole = label + " "@ + paths;
    assert(whole.subrange(0, (label + " "@).len() as int) =~= label + " "@);
}

/// The rule for permissions says whether the network is asked for, and names every path
/// under the access that is asked for it.
pub proof fn rules_name_what_is_asked(profile: ProfileModel)
    ensures
        rule_parts(profile).contains("network"@) <==> (profile.network matches Some(network)
            && network.enabled == Some(true)),
        profile.file_system matches Some(file_system) ==> file_system.entries matches Some(
            entries,
        ) ==> forall|i: int|
            0 <= i < entries.len() ==> exists|k: int|
                0 <= k < rule_parts(profile).len() && starts(
                    #[trigger] rule_parts(profile)[k],
                    access_word(#[trigger] entries[i].access),
                ) && mentions(rule_parts(profile)[k], path_name(entries[i].path)),
{
    reveal_strlit("network");
    reveal_strlit("read");
    reveal_strlit("write");
    reveal_strlit("deny read");
    reveal_strlit(" ");
    reveal_strlit("read ");
    reveal_strlit("write ");
    reveal_strlit("deny read ");
    assert("read"@ + " "@ =~= "read "@);
    assert("write"@ + " "@ =~= "write "@);
    assert("deny read"@ + " "@ =~= "deny read "@);
    let parts = rule_parts(profile);
    let network = match profile.network {
        Some(crate::approval::NetworkPermissions { enabled: Some(true) }) => seq!["network"@],
        _ => Seq::empty(),
    };
    if network.len() > 0 {
        assert(parts[0] == "network"@);
    }
    if profile.file_system matches Some(file_system) && file_system.entries is Some {
        let entries = profile.file_system->0.entries->0;
        let reads = access_part(entries, FileSystemAccessMode::Read, "read"@);
        let writes = access_part(entries, FileSystemAccessMode::Write, "write"@);
        let denies = access_part(entries, FileSystemAccessMode::Deny, "deny read"@);
        assert(parts == network + reads + writes + denies);
        if reads.len() > 0 {
            assert(reads[0][0] == 'r');
        }
        if writes.len() > 0 {
            assert(writes[0][0] == 'w');
        }
        if denies.len() > 0 {
            assert(denies[0][0] == 'd');
        }
        assert forall|k: int| network.len() <= k < parts.len() implies #[trigger] parts[k]
            != "network"@ by {
            assert(parts[k][0] != 'n');
        }
        assert forall|i: int| 0 <= i < entries.len() implies exists|k: int|
            0 <= k < parts.len() && starts(
                #[trigger] parts[k],
                access_word(#[trigger] entries[i].access),
            ) && mentions(parts[k], path_name(entries[i].path)) by {
            match entries[i].access {
                FileSystemAccessMode::Read => {
                    lemma_access_part(entries, i, FileSystemAccessMode::Read, "read"@);
                    assert(parts[network.len() as int] == reads[0]);
                },
                FileSystemAccessMode::Write => {
                    lemma_access_part(entries, i, FileSystemAccessMode::Write, "write"@);
                    assert(parts[(network.len() + reads.len()) as int] == writes[0]);
                },
                FileSystemAccessMode::Deny => {
                    lemma_access_part(entries, i, FileSystemAccessMode::Deny, "deny read"@);
                    assert(parts[(network.len() + reads.len() + writes.len()) as int]
                        == denies[0]);
                },
            }
        }
    }
}

/// Where a shell stands while it reads a word.
pub enum Reading {
    Plain,
    Quoted,
    Escape,
    Beyond,
}

/// Where a shell stands after a text, and the word that it has read. What would end the
/// word or mean something else to a shell leads beyond it.
pub open spec fn shell_reads(text: Seq<char>) -> (Reading, Seq<char>)
    decreases text.len(),
{
    if text.len() == 0 {
        (Reading::Plain, Seq::empty())
    } else {
        let (place, word) = shell_reads(text.drop_last());
        let next = text.last();
        match place {
            Reading::Plain => if next == '\'' {
                (Reading::Quoted, word)
            } else if next == '\\' {
                (Reading::Escape, word)
            } else if is_plain(next) {
                (Reading::Plain, word.push(next))
            } else {
                (Reading::Beyond, word)
            },
            Reading::Quoted => if next == '\'' {
                (Reading::Plain, word)
            } else {
                (Reading::Quoted, word.push(next))
            },
            Reading::Escape => (Reading::Plain, word.push(next)),
            Reading::Beyond => (Reading::Beyond, word),
        }
    }
}

proof fn lemma_escaped_reads_back(word: Seq<char>)
    ensures
        shell_reads("'"@ + escaped(word)) == (Reading::Quoted, word),
    decreases word.len(),
{
    reveal_strlit("'");
    reveal_strlit("'\\''");
    if word.len() == 0 {
        let text = "'"@ + escaped(word);
        assert(text.len() == 1);
        assert(text.drop_last() =~= Seq::<char>::empty());
        assert(text.last() == '\'');
        assert(shell_reads(text.drop_last()) == (Reading::Plain, Seq::<char>::empty()));
        assert(word =~= Seq::<char>::empty());
    } else {
        let shorter = word.drop_last();
        lemma_escaped_reads_back(shorter);
        let before = "'"@ + escaped(shorter);
        let text = "'"@ + escaped(word);
        assert(shorter.push(word.last()) =~= word);
        if word.last() == '\'' {
            let first = before.push('\'');
            let second = first.push('\\');
            let third = second.push('\'');
            let fourth = third.push('\'');
            assert(first.drop_last() =~= before);
            assert(second.drop_last() =~= first);
            assert(third.drop_last() =~= second);
            assert(fourth.drop_last() =~= third);
            assert(shell_reads(first) == (Reading::Plain, shorter));
            assert(shell_reads(second) == (Reading::Escape, shorter));
            assert(shell_reads(third) == (Reading::Plain, word));
            assert(shell_reads(fourth) == (Reading::Quoted, word));
            assert(text =~= fourth);
        } else {
            assert(text =~= before.push(word.last()));
            assert(text.drop_last() =~= before);
            assert(shell_reads(text) == (Reading::Quoted, shorter.push(word.last())));
        }
    }
}

proof fn lemma_plain_reads_back(word: Seq<char>)
    requires
        forall|i: int| 0 <= i < word.len() ==> is_plain(#[trigger] word[i]),
    ensures
        shell_reads(word) == (Reading::Plain, word),
    decreases word.len(),
{
    if word.len() > 0 {
        let shorter = word.drop_last();
        assert forall|i: int| 0 <= i < shorter.len() implies is_plain(#[trigger] shorter[i]) by {
            assert(shorter[i] == word[i]);
        }
        lemma_plain_reads_back(shorter);
        assert(is_plain(word[word.len() - 1]));
        assert(shorter.push(word.last()) =~= word);
    } else {
        assert(word =~= Seq::<char>::empty());
    }
}

/// A word is shown as a shell would read it back: as this one word, and no other. A word
/// of plain characters is shown as it is.
pub proof fn shown_words_read_back(word: Seq<char>)
    ensures
        shell_reads(shell_word(word)) == (Reading::Plain, word),
        (forall|i: int| 0 <= i < word.len() ==> is_plain(#[trigger] word[i])) ==> shell_word(word)
            == word,
{
    if forall|i: int| 0 <= i < word.len() ==> is_plain(#[trigger] word[i]) {
        lemma_plain_reads_back(word);
    } else {
        reveal_strlit("'");
        lemma_escaped_reads_back(word);
        let before = "'"@ + escaped(word);
        assert(shell_word(word) =~= before.push('\''));
        assert(before.push('\'').drop_last() =~= before);
    }
}

/// A command is shown with every word but those of the shell that runs it; a shell is
/// left out only where it is followed by its flag and a script.
pub proof fn shown_commands_have_every_word(command: Seq<Seq<char>>, index: int)
    requires
        0 <= index < command.len(),
        index >= 2 || !(command.len() >= 3 && command[1] == "-lc"@ && (ends(command[0], "bash"@)
            || ends(command[0], "zsh"@))),
    ensures
        mentions(rendered(command), shell_word(command[index])),
{
    let words = unwrapped(command);
    let place = index - (command.len() - words.len());
    assert(words[place] == command[index]);
    let shown = words.map_values(|word: Seq<char>| shell_word(word));
    joined_texts_mention_each(shown, " "@, place);
    assert(shown[place] == shell_word(command[index]));
}

} // verus!
