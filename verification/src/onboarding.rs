//! The onboarding step for WhatsApp: what it asks, what it shows, and what it
//! hands over to be saved.

use crate::config::canonical_e164;
use crate::config::is_e164;
use crate::secret::base64_url;
use crate::secret::generate_webhook_secret;
use crate::text::chars_of;
use crate::text::joined;
use crate::text::option_text;
use crate::text::text_between;
use crate::text::trim;
use crate::text::trimmed;
use vstd::prelude::*;

verus! {

/// The most characters that a field holds.
pub const MAX_FIELD_CHARS: usize = 4096;

/// How many fields there are.
pub const FIELD_COUNT: usize = 4;

#[derive(Debug, Clone, Copy, PartialEq, Eq, Structural)]
pub enum SetupChoice {
    Configure,
    NotNow,
}

#[derive(Debug, Clone, Copy, PartialEq, Eq, Structural)]
pub enum SetupStage {
    Choice,
    Preflight,
    Field(usize),
    Review,
    Saving,
    Saved,
}

/// What was found out about the machine.
#[derive(Debug, Clone, Copy, PartialEq, Eq, Structural)]
pub struct GatewayFacts {
    pub docker_cli: bool,
    pub docker_daemon: bool,
    pub compose: bool,
    pub codex_home_writable: bool,
    pub workspace_is_dir: bool,
}

/// One check, with what it found.
#[derive(Debug, PartialEq, Eq)]
pub struct GatewayCheck {
    pub label: String,
    pub detail: String,
    pub passed: bool,
}

/// The checks before WhatsApp can be configured.
#[derive(Debug, PartialEq, Eq)]
pub struct GatewayPreflight {
    pub checks: Vec<GatewayCheck>,
}

/// What a `GatewayCheck` holds.
#[verifier::ext_equal]
pub struct CheckModel {
    pub label: Seq<char>,
    pub detail: Seq<char>,
    pub passed: bool,
}

impl View for GatewayCheck {
    type V = CheckModel;

    open spec fn view(&self) -> CheckModel {
        CheckModel { label: self.label@, detail: self.detail@, passed: self.passed }
    }
}

/// What a list of checks holds.
pub open spec fn check_models(checks: Seq<GatewayCheck>) -> Seq<CheckModel> {
    checks.map_values(|check: GatewayCheck| check@)
}

/// One check, with the detail for either finding.
pub open spec fn check_of(label: Seq<char>, passed: bool, good: Seq<char>, bad: Seq<char>) ->
    CheckModel {
    CheckModel {
        label,
        detail: if passed {
            good
        } else {
            bad
        },
        passed,
    }
}

/// The checks, by what was found out. Nothing of Docker can work without its
/// command.
pub open spec fn checks_of(facts: GatewayFacts) -> Seq<CheckModel> {
    seq![
        check_of("Docker"@, facts.docker_cli, "available"@, "not installed or not on PATH"@),
        check_of(
            "Docker daemon"@,
            facts.docker_cli && facts.docker_daemon,
            "running and accessible"@,
            "not running or current user cannot access it"@,
        ),
        check_of(
            "Docker Compose"@,
            facts.docker_cli && facts.compose,
            "v2 available"@,
            "Docker Compose v2 is required"@,
        ),
        check_of("Codex home"@, facts.codex_home_writable, "writable"@, "must be writable"@),
        check_of(
            "Workspace"@,
            facts.workspace_is_dir,
            "valid"@,
            "must be an existing directory"@,
        ),
    ]
}

/// Whether all checks have passed.
pub open spec fn all_passed(checks: Seq<CheckModel>) -> bool {
    forall|i: int| 0 <= i < checks.len() ==> (#[trigger] checks[i]).passed
}

/// One check, with the detail for either finding.
fn make_check(label: &str, passed: bool, good: &str, bad: &str) -> (check: GatewayCheck)
    ensures
        check@ == check_of(label@, passed, good@, bad@),
{
    GatewayCheck {
        label: label.to_owned(),
        detail: if passed {
            good.to_owned()
        } else {
            bad.to_owned()
        },
        passed,
    }
}

impl GatewayPreflight {
    /// The checks, by what was found out.
    pub fn check(facts: GatewayFacts) -> (preflight: Self)
        ensures
            check_models(preflight.checks@) == checks_of(facts),
    {
        let mut checks: Vec<GatewayCheck> = Vec::new();
        checks.push(
            make_check("Docker", facts.docker_cli, "available", "not installed or not on PATH"),
        );
        checks.push(
            make_check(
                "Docker daemon",
                facts.docker_cli && facts.docker_daemon,
                "running and accessible",
                "not running or current user cannot access it",
            ),
        );
        checks.push(
            make_check(
                "Docker Compose",
                facts.docker_cli && facts.compose,
                "v2 available",
                "Docker Compose v2 is required",
            ),
        );
        checks.push(
            make_check("Codex home", facts.codex_home_writable, "writable", "must be writable"),
        );
        checks.push(
            make_check(
                "Workspace",
                facts.workspace_is_dir,
                "valid",
                "must be an existing directory",
            ),
        );
        assert(check_models(checks@) =~= checks_of(facts));
        GatewayPreflight { checks }
    }

    /// Whether all checks have passed.
    pub fn is_ready(&self) -> (ready: bool)
        ensures
            ready == all_passed(check_models(self.checks@)),
    {
        let ghost models = check_models(self.checks@);
        let mut index: usize = 0;
        while index < self.checks.len()
            invariant
                index <= self.checks@.len(),
                models == check_models(self.checks@),
                forall|i: int| 0 <= i < index ==> (#[trigger] models[i]).passed,
            decreases self.checks@.len() - index,
        {
            assert(models[index as int] == self.checks@[index as int]@);
            if !self.checks[index].passed {
                return false;
            }
            index += 1;
        }
        true
    }
}

/// All checks pass exactly where everything was found in order.
pub proof fn checks_pass_where_all_is_well(facts: GatewayFacts)
    ensures
        all_passed(checks_of(facts)) == (facts.docker_cli && facts.docker_daemon && facts.compose
            && facts.codex_home_writable && facts.workspace_is_dir),
{
    let checks = checks_of(facts);
    assert(checks.len() == 5);
    assert(checks[0].passed == facts.docker_cli);
    assert(checks[1].passed == (facts.docker_cli && facts.docker_daemon));
    assert(checks[2].passed == (facts.docker_cli && facts.compose));
    assert(checks[3].passed == facts.codex_home_writable);
    assert(checks[4].passed == facts.workspace_is_dir);
}

/// The OpenWA settings that onboarding asks for.
#[derive(Debug, PartialEq, Eq)]
pub struct OpenWaConfigToml {
    pub session_id: Option<String>,
    pub api_key: Option<String>,
    pub webhook_signing_secret: Option<String>,
}

/// The settings that onboarding starts from, and hands over to be saved.
#[derive(Debug, PartialEq, Eq)]
pub struct WhatsAppSetup {
    pub onboarding_complete: bool,
    pub enabled: bool,
    pub account_phone_number: Option<String>,
    pub workspace: Option<String>,
    pub openwa: Option<OpenWaConfigToml>,
}

/// What an `OpenWaConfigToml` holds.
#[verifier::ext_equal]
pub struct OpenWaModel {
    pub session_id: Option<Seq<char>>,
    pub api_key: Option<Seq<char>>,
    pub webhook_signing_secret: Option<Seq<char>>,
}

/// What a `WhatsAppSetup` holds.
#[verifier::ext_equal]
pub struct SetupModel {
    pub onboarding_complete: bool,
    pub enabled: bool,
    pub account_phone_number: Option<Seq<char>>,
    pub workspace: Option<Seq<char>>,
    pub openwa: Option<OpenWaModel>,
}

impl View for OpenWaConfigToml {
    type V = OpenWaModel;

    open spec fn view(&self) -> OpenWaModel {
        OpenWaModel {
            session_id: option_text(self.session_id),
            api_key: option_text(self.api_key),
            webhook_signing_secret: option_text(self.webhook_signing_secret),
        }
    }
}

impl View for WhatsAppSetup {
    type V = SetupModel;

    open spec fn view(&self) -> SetupModel {
        SetupModel {
            onboarding_complete: self.onboarding_complete,
            enabled: self.enabled,
            account_phone_number: option_text(self.account_phone_number),
            workspace: option_text(self.workspace),
            openwa: match self.openwa {
                Some(openwa) => Some(openwa@),
                None => None,
            },
        }
    }
}

/// What a key asks for.
#[derive(Debug, Clone, Copy, PartialEq, Eq, Structural)]
pub enum SetupKey {
    Up,
    Down,
    Confirm,
    Cancel,
    Backspace,
    /// A character, with whether Control or Alt is held.
    Char(char, bool),
    Other,
}

/// What is to be done after a key.
#[derive(Debug, Clone, Copy, PartialEq, Eq, Structural)]
pub enum SetupAction {
    Nothing,
    /// Find out about the machine; `on_preflight` takes what was found.
    RunPreflight,
}

/// The onboarding step for WhatsApp.
#[derive(Debug, PartialEq, Eq)]
pub struct WhatsAppWidget {
    pub stage: SetupStage,
    pub highlighted: SetupChoice,
    pub phone_number: String,
    pub workspace: String,
    pub session_id: String,
    pub api_key: String,
    pub webhook_secret: String,
    pub preflight: Option<GatewayPreflight>,
    pub save_request: Option<WhatsAppSetup>,
    pub skipped: bool,
    pub error: Option<String>,
}

/// What a `WhatsAppWidget` holds.
#[verifier::ext_equal]
pub struct WidgetModel {
    pub stage: SetupStage,
    pub highlighted: SetupChoice,
    pub phone_number: Seq<char>,
    pub workspace: Seq<char>,
    pub session_id: Seq<char>,
    pub api_key: Seq<char>,
    pub webhook_secret: Seq<char>,
    pub preflight: Option<Seq<CheckModel>>,
    pub save_request: Option<SetupModel>,
    pub skipped: bool,
    pub error: Option<Seq<char>>,
}

impl View for WhatsAppWidget {
    type V = WidgetModel;

    open spec fn view(&self) -> WidgetModel {
        WidgetModel {
            stage: self.stage,
            highlighted: self.highlighted,
            phone_number: self.phone_number@,
            workspace: self.workspace@,
            session_id: self.session_id@,
            api_key: self.api_key@,
            webhook_secret: self.webhook_secret@,
            preflight: match self.preflight {
                Some(preflight) => Some(check_models(preflight.checks@)),
                None => None,
            },
            save_request: match self.save_request {
                Some(request) => Some(request@),
                None => None,
            },
            skipped: self.skipped,
            error: option_text(self.error),
        }
    }
}

/// A step that starts from existing settings, or from none.
pub open spec fn begun(workspace: Seq<char>, existing: Option<SetupModel>, secret: Seq<char>) ->
    WidgetModel {
    let known = match existing {
        Some(setup) => setup,
        None => SetupModel {
            onboarding_complete: false,
            enabled: false,
            account_phone_number: None,
            workspace: None,
            openwa: None,
        },
    };
    let openwa = match known.openwa {
        Some(openwa) => openwa,
        None => OpenWaModel { session_id: None, api_key: None, webhook_signing_secret: None },
    };
    WidgetModel {
        stage: SetupStage::Choice,
        highlighted: SetupChoice::Configure,
        phone_number: match known.account_phone_number {
            Some(number) => number,
            None => Seq::empty(),
        },
        workspace: match known.workspace {
            Some(workspace) => workspace,
            None => workspace,
        },
        session_id: match openwa.session_id {
            Some(session_id) => session_id,
            None => Seq::empty(),
        },
        api_key: match openwa.api_key {
            Some(api_key) => api_key,
            None => Seq::empty(),
        },
        webhook_secret: secret,
        preflight: None,
        save_request: None,
        skipped: false,
        error: None,
    }
}

/// What the machine says of the path that stands in the workspace field.
#[derive(Debug, Clone, Copy, PartialEq, Eq)]
pub struct WorkspaceFacts {
    pub is_absolute: bool,
    pub is_directory: bool,
}

/// What is wrong with a field, if anything.
pub open spec fn field_error(widget: WidgetModel, index: int, workspace: WorkspaceFacts) -> Option<
    Seq<char>,
> {
    if index == 0 && !is_e164(widget.phone_number) {
        Some("Enter a canonical E.164 number such as +447700900000."@)
    } else if index == 1 && !(workspace.is_absolute && workspace.is_directory) {
        Some("Workspace must be an absolute existing directory."@)
    } else if index == 2 && trimmed(widget.session_id).len() == 0 {
        Some("Session ID cannot be empty."@)
    } else if index == 3 && trimmed(widget.api_key).len() == 0 {
        Some("API key cannot be empty."@)
    } else {
        None
    }
}

/// What stands in a field.
pub open spec fn field_of(widget: WidgetModel, index: int) -> Seq<char> {
    if index == 0 {
        widget.phone_number
    } else if index == 1 {
        widget.workspace
    } else if index == 2 {
        widget.session_id
    } else if index == 3 {
        widget.api_key
    } else {
        Seq::empty()
    }
}

/// The step with another text in a field.
pub open spec fn with_field(widget: WidgetModel, index: int, text: Seq<char>) -> WidgetModel {
    if index == 0 {
        WidgetModel { phone_number: text, ..widget }
    } else if index == 1 {
        WidgetModel { workspace: text, ..widget }
    } else if index == 2 {
        WidgetModel { session_id: text, ..widget }
    } else if index == 3 {
        WidgetModel { api_key: text, ..widget }
    } else {
        widget
    }
}

/// The settings that were entered.
pub open spec fn configured(widget: WidgetModel) -> SetupModel {
    SetupModel {
        onboarding_complete: true,
        enabled: true,
        account_phone_number: Some(widget.phone_number),
        workspace: Some(widget.workspace),
        openwa: Some(
            OpenWaModel {
                session_id: Some(widget.session_id),
                api_key: Some(widget.api_key),
                webhook_signing_secret: Some(widget.webhook_secret),
            },
        ),
    }
}

/// The settings of a user who does not want WhatsApp.
pub open spec fn disabled() -> SetupModel {
    SetupModel {
        onboarding_complete: true,
        enabled: false,
        account_phone_number: None,
        workspace: None,
        openwa: None,
    }
}

impl WidgetModel {
    /// The step with settings that are to be saved.
    pub open spec fn saving(self, setup: SetupModel, skipped: bool) -> WidgetModel {
        WidgetModel {
            stage: SetupStage::Saving,
            save_request: Some(setup),
            skipped,
            error: None,
            ..self
        }
    }

    /// The step at another stage, without error.
    pub open spec fn moved_to(self, stage: SetupStage) -> WidgetModel {
        WidgetModel { stage, error: None, ..self }
    }

    /// The step after a key while a field is edited.
    pub open spec fn edited(self, index: int, key: SetupKey, workspace: WorkspaceFacts) -> WidgetModel {
        match key {
            SetupKey::Cancel => self.moved_to(SetupStage::Choice),
            SetupKey::Confirm => match field_error(self, index, workspace) {
                Some(error) => WidgetModel { error: Some(error), ..self },
                None => if index + 1 >= FIELD_COUNT {
                    self.moved_to(SetupStage::Review)
                } else {
                    self.moved_to(SetupStage::Field((index + 1) as usize))
                },
            },
            SetupKey::Backspace => if index < FIELD_COUNT && field_of(self, index).len() > 0 {
                with_field(self, index, field_of(self, index).drop_last())
            } else {
                self
            },
            SetupKey::Char(character, modified) => if !modified && index < FIELD_COUNT && field_of(
                self,
                index,
            ).len() < MAX_FIELD_CHARS {
                with_field(self, index, field_of(self, index).push(character))
            } else {
                self
            },
            _ => self,
        }
    }

    /// The step after a key was pressed.
    pub open spec fn keyed(self, key: SetupKey, workspace: WorkspaceFacts) -> WidgetModel {
        match self.stage {
            SetupStage::Choice => match key {
                SetupKey::Up => WidgetModel { highlighted: SetupChoice::Configure, ..self },
                SetupKey::Down => WidgetModel { highlighted: SetupChoice::NotNow, ..self },
                SetupKey::Confirm => match self.highlighted {
                    SetupChoice::Configure => self,
                    SetupChoice::NotNow => self.saving(disabled(), true),
                },
                _ => self,
            },
            SetupStage::Preflight => if key == SetupKey::Cancel {
                self.moved_to(SetupStage::Choice)
            } else {
                self
            },
            SetupStage::Field(index) => self.edited(index as int, key, workspace),
            SetupStage::Review => match key {
                SetupKey::Cancel => WidgetModel {
                    stage: SetupStage::Field((FIELD_COUNT - 1) as usize),
                    ..self
                },
                SetupKey::Confirm => self.saving(configured(self), false),
                _ => self,
            },
            SetupStage::Saving => self,
            SetupStage::Saved => self,
        }
    }

    /// Whether a key asks for the checks.
    pub open spec fn asks_for_checks(self, key: SetupKey) -> bool {
        key == SetupKey::Confirm && (self.stage == SetupStage::Preflight || (self.stage
            == SetupStage::Choice && self.highlighted == SetupChoice::Configure))
    }

    /// The step after the checks were made. The first time they are only shown;
    /// after that they decide whether the step goes on.
    pub open spec fn checked(self, facts: GatewayFacts) -> WidgetModel {
        let shown = WidgetModel { preflight: Some(checks_of(facts)), ..self };
        match self.stage {
            SetupStage::Choice => WidgetModel { stage: SetupStage::Preflight, ..shown },
            SetupStage::Preflight => if all_passed(checks_of(facts)) {
                shown.moved_to(SetupStage::Field(0))
            } else {
                WidgetModel {
                    error: Some(
                        "WhatsApp needs the failed checks above. Fix them and press Enter to retry, or press Esc to continue without WhatsApp."@,
                    ),
                    ..shown
                }
            },
            _ => shown,
        }
    }

    /// The step after a text was pasted.
    pub open spec fn pasted(self, text: Seq<char>) -> WidgetModel {
        match self.stage {
            SetupStage::Field(index) => {
                let field = field_of(self, index as int);
                let room = if field.len() < MAX_FIELD_CHARS {
                    MAX_FIELD_CHARS - field.len()
                } else {
                    0
                };
                let inner = trimmed(text);
                with_field(
                    self,
                    index as int,
                    field + if inner.len() <= room {
                        inner
                    } else {
                        inner.take(room)
                    },
                )
            },
            _ => self,
        }
    }
}

impl WhatsAppWidget {
    /// A step that starts from existing settings, or from none, with the given
    /// secret for webhooks.
    pub fn with_secret(
        current_workspace: String,
        existing: Option<WhatsAppSetup>,
        webhook_secret: String,
    ) -> (widget: Self)
        ensures
            widget@ == begun(
                current_workspace@,
                match existing {
                    Some(setup) => Some(setup@),
                    None => None,
                },
                webhook_secret@,
            ),
    {
        let mut widget = WhatsAppWidget {
            stage: SetupStage::Choice,
            highlighted: SetupChoice::Configure,
            phone_number: String::new(),
            workspace: current_workspace,
            session_id: String::new(),
            api_key: String::new(),
            webhook_secret,
            preflight: None,
            save_request: None,
            skipped: false,
            error: None,
        };
        proof {
            assert(widget.phone_number@ =~= Seq::<char>::empty());
            assert(widget.session_id@ =~= Seq::<char>::empty());
            assert(widget.api_key@ =~= Seq::<char>::empty());
        }
        let setup = match existing {
            Some(setup) => setup,
            None => {
                return widget;
            },
        };
        match setup.account_phone_number {
            Some(number) => {
                widget.phone_number = number;
            },
            None => {},
        }
        match setup.workspace {
            Some(workspace) => {
                widget.workspace = workspace;
            },
            None => {},
        }
        match setup.openwa {
            Some(openwa) => {
                match openwa.session_id {
                    Some(session_id) => {
                        widget.session_id = session_id;
                    },
                    None => {},
                }
                match openwa.api_key {
                    Some(api_key) => {
                        widget.api_key = api_key;
                    },
                    None => {},
                }
            },
            None => {},
        }
        widget
    }

    /// A step that starts from existing settings, or from none. The secret for
    /// webhooks is new.
    pub fn new(current_workspace: String, existing: Option<WhatsAppSetup>) -> (widget: Self)
        ensures
            widget@ == begun(
                current_workspace@,
                match existing {
                    Some(setup) => Some(setup@),
                    None => None,
                },
                widget@.webhook_secret,
            ),
            exists|bytes: Seq<u8>|
                bytes.len() == 32 && widget@.webhook_secret == #[trigger] base64_url(bytes),
    {
        let secret = generate_webhook_secret();
        WhatsAppWidget::with_secret(current_workspace, existing, secret)
    }

    /// The settings that are to be saved; they are handed out once.
    pub fn take_save_request(&mut self) -> (request: Option<WhatsAppSetup>)
        ensures
            match request {
                Some(request) => old(self)@.save_request == Some(request@),
                None => old(self)@.save_request is None,
            },
            final(self)@ == (WidgetModel { save_request: None, ..old(self)@ }),
    {
        let mut request: Option<WhatsAppSetup> = None;
        std::mem::swap(&mut request, &mut self.save_request);
        request
    }

    /// Takes note that the settings were saved.
    pub fn mark_saved(&mut self)
        ensures
            final(self)@ == old(self)@.moved_to(SetupStage::Saved),
    {
        self.error = None;
        self.stage = SetupStage::Saved;
    }

    /// Takes note that the settings could not be saved.
    pub fn mark_save_failed(&mut self, error: String)
        ensures
            final(self)@ == (WidgetModel {
                error: Some(error@),
                stage: if old(self)@.skipped {
                    SetupStage::Choice
                } else {
                    SetupStage::Review
                },
                ..old(self)@
            }),
    {
        self.error = Some(error);
        self.stage = if self.skipped {
            SetupStage::Choice
        } else {
            SetupStage::Review
        };
    }

    /// Whether a text is entered.
    pub fn is_text_entry_active(&self) -> (active: bool)
        ensures
            active == (self.stage is Field),
    {
        match self.stage {
            SetupStage::Field(_) => true,
            _ => false,
        }
    }

    /// Whether the step is done.
    pub fn is_complete(&self) -> (complete: bool)
        ensures
            complete == (self.stage is Saved),
    {
        match self.stage {
            SetupStage::Saved => true,
            _ => false,
        }
    }

    /// Hands settings over to be saved.
    fn begin_save(&mut self, setup: WhatsAppSetup, skipped: bool)
        ensures
            final(self)@ == old(self)@.saving(setup@, skipped),
    {
        self.skipped = skipped;
        self.save_request = Some(setup);
        self.error = None;
        self.stage = SetupStage::Saving;
    }

    /// The settings that were entered.
    fn configured_value(&self) -> (setup: WhatsAppSetup)
        ensures
            setup@ == configured(self@),
    {
        WhatsAppSetup {
            onboarding_complete: true,
            enabled: true,
            account_phone_number: Some(self.phone_number.clone()),
            workspace: Some(self.workspace.clone()),
            openwa: Some(
                OpenWaConfigToml {
                    session_id: Some(self.session_id.clone()),
                    api_key: Some(self.api_key.clone()),
                    webhook_signing_secret: Some(self.webhook_secret.clone()),
                },
            ),
        }
    }

    /// The settings of a user who does not want WhatsApp.
    fn disabled_value() -> (setup: WhatsAppSetup)
        ensures
            setup@ == disabled(),
    {
        WhatsAppSetup {
            onboarding_complete: true,
            enabled: false,
            account_phone_number: None,
            workspace: None,
            openwa: None,
        }
    }

    /// What stands in a field.
    pub(crate) fn field(&self, index: usize) -> (text: String)
        ensures
            text@ == field_of(self@, index as int),
    {
        if index == 0 {
            self.phone_number.clone()
        } else if index == 1 {
            self.workspace.clone()
        } else if index == 2 {
            self.session_id.clone()
        } else if index == 3 {
            self.api_key.clone()
        } else {
            let none = String::new();
            assert(none@ =~= Seq::<char>::empty());
            none
        }
    }

    /// Puts another text into a field.
    fn set_field(&mut self, index: usize, text: String)
        ensures
            final(self)@ == with_field(old(self)@, index as int, text@),
    {
        if index == 0 {
            self.phone_number = text;
        } else if index == 1 {
            self.workspace = text;
        } else if index == 2 {
            self.session_id = text;
        } else if index == 3 {
            self.api_key = text;
        }
    }

    /// What is wrong with a field, if anything. What the workspace is on this
    /// machine is for the caller to say.
    pub fn validate_field(&self, index: usize, workspace: WorkspaceFacts) -> (verdict: Result<
        (),
        &'static str,
    >)
        ensures
            match verdict {
                Ok(_) => field_error(self@, index as int, workspace) is None,
                Err(error) => field_error(self@, index as int, workspace) == Some(error@),
            },
    {
        if index == 0 && canonical_e164(self.phone_number.as_str()).is_none() {
            return Err("Enter a canonical E.164 number such as +447700900000.");
        }
        if index == 1 && !(workspace.is_absolute && workspace.is_directory) {
            return Err("Workspace must be an absolute existing directory.");
        }
        let session_id = trim(self.session_id.as_str());
        if index == 2 && chars_of(session_id.as_str()).len() == 0 {
            return Err("Session ID cannot be empty.");
        }
        let api_key = trim(self.api_key.as_str());
        if index == 3 && chars_of(api_key.as_str()).len() == 0 {
            return Err("API key cannot be empty.");
        }
        Ok(())
    }

    /// Takes a key while a field is edited.
    fn edit_field(&mut self, index: usize, key: SetupKey, workspace: WorkspaceFacts)
        ensures
            final(self)@ == old(self)@.edited(index as int, key, workspace),
    {
        match key {
            SetupKey::Cancel => {
                self.error = None;
                self.stage = SetupStage::Choice;
            },
            SetupKey::Confirm => match self.validate_field(index, workspace) {
                Ok(_) => {
                    self.error = None;
                    self.stage = if index >= FIELD_COUNT - 1 {
                        SetupStage::Review
                    } else {
                        SetupStage::Field(index + 1)
                    };
                },
                Err(error) => {
                    self.error = Some(error.to_owned());
                },
            },
            SetupKey::Backspace => {
                let field = self.field(index);
                let chars = chars_of(field.as_str());
                if index < FIELD_COUNT && chars.len() > 0 {
                    let shorter = text_between(&chars, 0, chars.len() - 1);
                    assert(shorter@ =~= field@.drop_last());
                    self.set_field(index, shorter);
                }
            },
            SetupKey::Char(character, modified) => {
                let mut field = self.field(index);
                if !modified && index < FIELD_COUNT && chars_of(field.as_str()).len()
                    < MAX_FIELD_CHARS {
                    field.push(character);
                    self.set_field(index, field);
                }
            },
            _ => {},
        }
    }

    /// Takes a key that was pressed. What the workspace is on this machine is
    /// for the caller to say.
    pub fn handle_key_event(&mut self, key: SetupKey, workspace: WorkspaceFacts) -> (action:
        SetupAction)
        ensures
            final(self)@ == old(self)@.keyed(key, workspace),
            action == if old(self)@.asks_for_checks(key) {
                SetupAction::RunPreflight
            } else {
                SetupAction::Nothing
            },
    {
        match self.stage {
            SetupStage::Choice => match key {
                SetupKey::Up => {
                    self.highlighted = SetupChoice::Configure;
                },
                SetupKey::Down => {
                    self.highlighted = SetupChoice::NotNow;
                },
                SetupKey::Confirm => match self.highlighted {
                    SetupChoice::Configure => {
                        return SetupAction::RunPreflight;
                    },
                    SetupChoice::NotNow => {
                        self.begin_save(WhatsAppWidget::disabled_value(), true);
                    },
                },
                _ => {},
            },
            SetupStage::Preflight => match key {
                SetupKey::Cancel => {
                    self.error = None;
                    self.stage = SetupStage::Choice;
                },
                SetupKey::Confirm => {
                    return SetupAction::RunPreflight;
                },
                _ => {},
            },
            SetupStage::Field(index) => {
                self.edit_field(index, key, workspace);
            },
            SetupStage::Review => match key {
                SetupKey::Cancel => {
                    self.stage = SetupStage::Field(FIELD_COUNT - 1);
                },
                SetupKey::Confirm => {
                    let setup = self.configured_value();
                    self.begin_save(setup, false);
                },
                _ => {},
            },
            SetupStage::Saving => {},
            SetupStage::Saved => {},
        }
        SetupAction::Nothing
    }

    /// Takes what was found out about the machine.
    pub fn on_preflight(&mut self, facts: GatewayFacts)
        ensures
            final(self)@ == old(self)@.checked(facts),
    {
        let preflight = GatewayPreflight::check(facts);
        let ready = preflight.is_ready();
        self.preflight = Some(preflight);
        match self.stage {
            SetupStage::Choice => {
                self.stage = SetupStage::Preflight;
            },
            SetupStage::Preflight => {
                if ready {
                    self.error = None;
                    self.stage = SetupStage::Field(0);
                } else {
                    self.error = Some(
                        "WhatsApp needs the failed checks above. Fix them and press Enter to retry, or press Esc to continue without WhatsApp.".to_owned(),
                    );
                }
            },
            _ => {},
        }
    }

    /// Takes a text that was pasted.
    pub fn handle_paste(&mut self, pasted: String)
        ensures
            final(self)@ == old(self)@.pasted(pasted@),
    {
        let index: usize = match self.stage {
            SetupStage::Field(index) => index,
            _ => {
                return;
            },
        };
        let field = self.field(index);
        let held: usize = chars_of(field.as_str()).len();
        let room: usize = if held < MAX_FIELD_CHARS {
            MAX_FIELD_CHARS - held
        } else {
            0
        };
        let inner = trim(pasted.as_str());
        let chars = chars_of(inner.as_str());
        let end: usize = if chars.len() <= room {
            chars.len()
        } else {
            room
        };
        let added = text_between(&chars, 0, end);
        proof {
            if inner@.len() <= room {
                assert(added@ =~= inner@);
            } else {
                assert(added@ =~= inner@.take(room as int));
            }
        }
        let text = joined(field.as_str(), added.as_str());
        self.set_field(index, text);
    }
}

/// A field never holds more than it may, whatever is typed or pasted.
pub proof fn fields_are_bounded(
    widget: WidgetModel,
    key: SetupKey,
    workspace: WorkspaceFacts,
    text: Seq<char>,
    index: int,
)
    requires
        field_of(widget, index).len() <= MAX_FIELD_CHARS,
    ensures
        field_of(widget.keyed(key, workspace), index).len() <= MAX_FIELD_CHARS,
        field_of(widget.pasted(text), index).len() <= MAX_FIELD_CHARS,
{
}

/// Settings are handed over only from the review, after every field was found in
/// order, or where the user declines.
pub proof fn settings_are_saved_after_review(
    widget: WidgetModel,
    key: SetupKey,
    workspace: WorkspaceFacts,
)
    requires
        widget.save_request is None,
        widget.keyed(key, workspace).save_request is Some,
    ensures
        key == SetupKey::Confirm,
        widget.stage == SetupStage::Review || (widget.stage == SetupStage::Choice
            && widget.highlighted == SetupChoice::NotNow),
        widget.keyed(key, workspace).save_request == Some(
            if widget.stage == SetupStage::Review {
                configured(widget)
            } else {
                disabled()
            },
        ),
{
}

/// A field is left for the next one only where nothing is wrong with it.
pub proof fn fields_are_valid_when_left(
    widget: WidgetModel,
    index: usize,
    key: SetupKey,
    workspace: WorkspaceFacts,
)
    requires
        widget.stage == SetupStage::Field(index),
        index < FIELD_COUNT,
    ensures
        ({
            let after = widget.keyed(key, workspace);
            after.stage == SetupStage::Review || after.stage == SetupStage::Field(
                (index + 1) as usize,
            ) ==> field_error(widget, index as int, workspace) is None
        }),
{
}

/// Whether two widgets agree in everything but one of the fields that are typed in.
pub open spec fn agree_but_for(left: WidgetModel, right: WidgetModel, index: int) -> bool {
    &&& index != 0 ==> left.phone_number == right.phone_number
    &&& index != 1 ==> left.workspace == right.workspace
    &&& index != 2 ==> left.session_id == right.session_id
    &&& index != 3 ==> left.api_key == right.api_key
    &&& left.webhook_secret == right.webhook_secret
    &&& left.stage == right.stage
    &&& left.highlighted == right.highlighted
    &&& left.preflight == right.preflight
    &&& left.save_request == right.save_request
    &&& left.skipped == right.skipped
    &&& left.error == right.error
}

/// The text of a field that is typed in.
pub open spec fn typed_text(widget: WidgetModel, index: int) -> Seq<char> {
    if index == 0 {
        widget.phone_number
    } else if index == 1 {
        widget.workspace
    } else if index == 2 {
        widget.session_id
    } else {
        widget.api_key
    }
}

/// A character that is typed comes last in the field that is shown, and in no other; a
/// character that comes with a modifier is no text.
pub proof fn typing_extends_the_field(
    widget: WidgetModel,
    index: usize,
    character: char,
    workspace: WorkspaceFacts,
)
    requires
        widget.stage == SetupStage::Field(index),
        index < 4,
        typed_text(widget, index as int).len() < 4_096,
    ensures
        ({
            let after = widget.keyed(SetupKey::Char(character, false), workspace);
            &&& typed_text(after, index as int) == typed_text(widget, index as int).push(character)
            &&& agree_but_for(widget, after, index as int)
            &&& widget.keyed(SetupKey::Char(character, true), workspace) == widget
        }),
{
}

/// Deleting takes back what was typed last.
pub proof fn deleting_undoes_typing(
    widget: WidgetModel,
    index: usize,
    character: char,
    workspace: WorkspaceFacts,
)
    requires
        widget.stage == SetupStage::Field(index),
        index < 4,
        typed_text(widget, index as int).len() < 4_096,
    ensures
        widget.keyed(SetupKey::Char(character, false), workspace).keyed(
            SetupKey::Backspace,
            workspace,
        ) == widget,
        typed_text(widget, index as int).len() == 0 ==> widget.keyed(
            SetupKey::Backspace,
            workspace,
        ) == widget,
{
    let field = typed_text(widget, index as int);
    assert(field.push(character).drop_last() =~= field);
}

/// A widget after a text was typed, one character after the other.
pub open spec fn all_typed(widget: WidgetModel, text: Seq<char>, workspace: WorkspaceFacts) ->
    WidgetModel
    decreases text.len(),
{
    if text.len() == 0 {
        widget
    } else {
        all_typed(widget, text.drop_last(), workspace).keyed(
            SetupKey::Char(text.last(), false),
            workspace,
        )
    }
}

proof fn lemma_typing_appends(
    widget: WidgetModel,
    index: usize,
    text: Seq<char>,
    workspace: WorkspaceFacts,
)
    requires
        widget.stage == SetupStage::Field(index),
        index < 4,
        typed_text(widget, index as int).len() + text.len() <= 4_096,
    ensures
        ({
            let after = all_typed(widget, text, workspace);
            &&& typed_text(after, index as int) == typed_text(widget, index as int) + text
            &&& agree_but_for(widget, after, index as int)
        }),
    decreases text.len(),
{
    let field = typed_text(widget, index as int);
    if text.len() == 0 {
        assert(field + text =~= field);
    } else {
        lemma_typing_appends(widget, index, text.drop_last(), workspace);
        let middle = all_typed(widget, text.drop_last(), workspace);
        typing_extends_the_field(middle, index, text.last(), workspace);
        assert((field + text.drop_last()).push(text.last()) =~= field + text);
    }
}

/// Pasting a text comes to the same as typing it, where it fits and has no space around it.
pub proof fn pasting_is_typing(
    widget: WidgetModel,
    index: usize,
    text: Seq<char>,
    workspace: WorkspaceFacts,
)
    requires
        widget.stage == SetupStage::Field(index),
        index < 4,
        typed_text(widget, index as int).len() + text.len() <= 4_096,
        trimmed(text) == text,
    ensures
        widget.pasted(text) == all_typed(widget, text, workspace),
{
    lemma_typing_appends(widget, index, text, workspace);
}

/// What is handed over at the end is what was entered, each in its place; declining hands
/// over that nothing is wanted, and nothing else.
pub proof fn settings_are_those_entered(widget: WidgetModel, workspace: WorkspaceFacts)
    ensures
        ({
            let after = widget.keyed(SetupKey::Confirm, workspace);
            &&& widget.stage == SetupStage::Review ==> {
                &&& after.stage == SetupStage::Saving && !after.skipped
                &&& after.save_request matches Some(setup) && {
                    &&& setup.enabled && setup.onboarding_complete
                    &&& setup.account_phone_number == Some(widget.phone_number)
                    &&& setup.workspace == Some(widget.workspace)
                    &&& setup.openwa matches Some(openwa) && {
                        &&& openwa.session_id == Some(widget.session_id)
                        &&& openwa.api_key == Some(widget.api_key)
                        &&& openwa.webhook_signing_secret == Some(widget.webhook_secret)
                    }
                }
            }
            &&& widget.stage == SetupStage::Choice && widget.highlighted == SetupChoice::NotNow
                ==> {
                &&& after.stage == SetupStage::Saving && after.skipped
                &&& after.save_request matches Some(setup) && {
                    &&& !setup.enabled && setup.onboarding_complete
                    &&& setup.account_phone_number is None && setup.workspace is None
                    &&& setup.openwa is None
                }
            }
        }),
{
}

/// What was set before is there to begin with, but for the secret, which is always new.
pub proof fn earlier_settings_are_offered(
    workspace: Seq<char>,
    existing: Option<SetupModel>,
    secret: Seq<char>,
)
    ensures
        ({
            let widget = begun(workspace, existing, secret);
            &&& widget.stage == SetupStage::Choice
            &&& widget.webhook_secret == secret
            &&& widget.save_request is None
            &&& existing matches Some(setup) ==> {
                &&& setup.account_phone_number matches Some(number) ==> widget.phone_number
                    == number
                &&& setup.workspace matches Some(known) ==> widget.workspace == known
                &&& setup.workspace is None ==> widget.workspace == workspace
                &&& setup.openwa matches Some(openwa) ==> {
                    &&& openwa.session_id matches Some(session_id) ==> widget.session_id
                        == session_id
                    &&& openwa.api_key matches Some(api_key) ==> widget.api_key == api_key
                }
            }
            &&& existing is None ==> widget.phone_number.len() == 0 && widget.workspace == workspace
                && widget.session_id.len() == 0 && widget.api_key.len() == 0
        }),
{
}

/// A field that is in order leads to the next one, the last one to the review; going back
/// loses nothing that was typed.
pub proof fn fields_come_in_order(widget: WidgetModel, index: usize, workspace: WorkspaceFacts)
    requires
        widget.stage == SetupStage::Field(index),
        index < 4,
    ensures
        ({
            let on = widget.keyed(SetupKey::Confirm, workspace);
            let back = widget.keyed(SetupKey::Cancel, workspace);
            let valid = if index == 0 {
                is_e164(widget.phone_number)
            } else if index == 1 {
                workspace.is_absolute && workspace.is_directory
            } else if index == 2 {
                trimmed(widget.session_id).len() > 0
            } else {
                trimmed(widget.api_key).len() > 0
            };
            &&& valid && index < 3 ==> on.stage == SetupStage::Field((index + 1) as usize)
            &&& valid && index == 3 ==> on.stage == SetupStage::Review
            &&& !valid ==> on.stage == widget.stage && on.error is Some
            &&& valid ==> on.error is None
            &&& on.phone_number == widget.phone_number && on.workspace == widget.workspace
            &&& on.session_id == widget.session_id && on.api_key == widget.api_key
            &&& back.stage == SetupStage::Choice
            &&& back.phone_number == widget.phone_number && back.workspace == widget.workspace
            &&& back.session_id == widget.session_id && back.api_key == widget.api_key
        }),
{
}

/// Each check passes exactly where what it is about was found in order; nothing about
/// containers passes without their command.
pub proof fn checks_go_by_what_was_found(facts: GatewayFacts)
    ensures
        ({
            let checks = checks_of(facts);
            &&& checks.len() == 5
            &&& checks[0].passed == facts.docker_cli
            &&& checks[1].passed == (facts.docker_cli && facts.docker_daemon)
            &&& checks[2].passed == (facts.docker_cli && facts.compose)
            &&& checks[3].passed == facts.codex_home_writable
            &&& checks[4].passed == facts.workspace_is_dir
        }),
{
}

} // verus!
