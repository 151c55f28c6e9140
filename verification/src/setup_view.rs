//! What the onboarding step for WhatsApp shows, line by line.

use crate::onboarding::all_passed;
use crate::onboarding::check_models;
use crate::onboarding::field_of;
use crate::onboarding::CheckModel;
use crate::onboarding::GatewayCheck;
use crate::onboarding::GatewayPreflight;
use crate::onboarding::SetupChoice;
use crate::onboarding::SetupStage;
use crate::onboarding::WhatsAppWidget;
use crate::onboarding::WidgetModel;
use crate::text::chars_of;
use crate::text::decimal;
use crate::text::decimal_of;
use crate::text::joined;
use crate::text::joined3;
use vstd::prelude::*;

verus! {

/// How a piece of text looks.
#[derive(Debug, Clone, Copy, PartialEq, Eq, Structural)]
pub enum SpanStyle {
    Plain,
    Bold,
    Dim,
    Green,
    Red,
}

/// A piece of text in one style.
#[derive(Debug, PartialEq, Eq)]
pub struct StyledSpan {
    pub text: String,
    pub style: SpanStyle,
}

/// One line of the step.
#[derive(Debug, PartialEq, Eq)]
pub enum SetupLine {
    /// Text as it stands.
    Text(Vec<StyledSpan>),
    /// Text that is indented and broken to the width.
    Paragraph(StyledSpan),
    /// Text in a frame.
    Framed(String),
    /// A choice, with its place and whether it is highlighted.
    Choice { index: usize, label: String, highlighted: bool },
}

/// The settings that the user does not enter, as the review shows them.
#[derive(Debug, PartialEq, Eq)]
pub struct GatewayDefaults {
    pub api_base_url: String,
    pub webhook_url: String,
    pub app_server_endpoint: String,
    pub state_path: String,
    pub max_queued_prompts: u64,
    pub output_chunk_chars: u64,
}

/// What a `SetupLine` holds.
#[verifier::ext_equal]
pub enum LineModel {
    Text(Seq<(Seq<char>, SpanStyle)>),
    Paragraph(Seq<char>, SpanStyle),
    Framed(Seq<char>),
    Choice { index: int, label: Seq<char>, highlighted: bool },
}

impl View for StyledSpan {
    type V = (Seq<char>, SpanStyle);

    open spec fn view(&self) -> (Seq<char>, SpanStyle) {
        (self.text@, self.style)
    }
}

/// What a list of pieces holds.
pub open spec fn span_models(spans: Seq<StyledSpan>) -> Seq<(Seq<char>, SpanStyle)> {
    spans.map_values(|span: StyledSpan| span@)
}

impl View for SetupLine {
    type V = LineModel;

    open spec fn view(&self) -> LineModel {
        match *self {
            SetupLine::Text(spans) => LineModel::Text(span_models(spans@)),
            SetupLine::Paragraph(span) => LineModel::Paragraph(span@.0, span@.1),
            SetupLine::Framed(text) => LineModel::Framed(text@),
            SetupLine::Choice { index, label, highlighted } => LineModel::Choice {
                index: index as int,
                label: label@,
                highlighted,
            },
        }
    }
}

/// What a list of lines holds.
pub open spec fn line_models(lines: Seq<SetupLine>) -> Seq<LineModel> {
    lines.map_values(|line: SetupLine| line@)
}

/// A line of one piece.
pub open spec fn line_of(text: Seq<char>, style: SpanStyle) -> LineModel {
    LineModel::Text(seq![(text, style)])
}

/// A plain line.
pub open spec fn plain(text: Seq<char>) -> LineModel {
    line_of(text, SpanStyle::Plain)
}

/// What the user sees in place of a secret.
pub open spec fn masked(text: Seq<char>) -> Seq<char> {
    Seq::new(text.len(), |i: int| '•')
}

/// The label of a field.
pub open spec fn label_of(index: int) -> Seq<char> {
    if index == 0 {
        "WhatsApp account number (E.164)"@
    } else if index == 1 {
        "Host workspace"@
    } else if index == 2 {
        "OpenWA session ID"@
    } else if index == 3 {
        "OpenWA API key"@
    } else {
        ""@
    }
}

/// The line of one check.
pub open spec fn check_line(check: CheckModel) -> LineModel {
    LineModel::Text(
        seq![
            ("  "@ + check.label + ": "@, SpanStyle::Plain),
            if check.passed {
                ("ok"@, SpanStyle::Green)
            } else {
                ("needs attention"@, SpanStyle::Red)
            },
            (" — "@ + check.detail, SpanStyle::Dim),
        ],
    )
}

/// The lines of the choice.
pub open spec fn choice_page(highlighted: SetupChoice) -> Seq<LineModel> {
    seq![
        LineModel::Paragraph(
            "Connect one private WhatsApp self-chat to this workspace through your self-hosted OpenWA service."@,
            SpanStyle::Plain,
        ),
        plain(""@),
        LineModel::Choice {
            index: 0,
            label: "Configure WhatsApp"@,
            highlighted: highlighted == SetupChoice::Configure,
        },
        LineModel::Choice {
            index: 1,
            label: "Not now"@,
            highlighted: highlighted == SetupChoice::NotNow,
        },
    ]
}

/// The lines of the checks.
pub open spec fn preflight_page(preflight: Option<Seq<CheckModel>>) -> Seq<LineModel> {
    let head = seq![line_of("  Gateway preflight"@, SpanStyle::Bold), plain(""@)];
    match preflight {
        Some(checks) => {
            let listed = head + checks.map_values(|check: CheckModel| check_line(check));
            if all_passed(checks) {
                listed + seq![
                    plain(""@),
                    line_of("  All checks passed. Press Enter to continue."@, SpanStyle::Green),
                ]
            } else {
                listed
            }
        },
        None => head,
    }
}

/// The lines of a field. The key of the API is not shown.
pub open spec fn field_page(widget: WidgetModel, index: int) -> Seq<LineModel> {
    seq![
        LineModel::Paragraph(label_of(index), SpanStyle::Bold),
        LineModel::Framed(
            if index == 3 {
                masked(field_of(widget, index))
            } else {
                field_of(widget, index)
            },
        ),
    ]
}

/// The lines of the review. Neither the key of the API nor the secret for webhooks
/// is shown.
pub open spec fn review_page(widget: WidgetModel, defaults: GatewayDefaults) -> Seq<LineModel> {
    seq![
        plain("  Review"@),
        plain("  Account: "@ + widget.phone_number),
        plain("  Workspace: "@ + widget.workspace),
        plain("  OpenWA session: "@ + widget.session_id),
        plain("  OpenWA API key: [redacted]"@),
        plain("  Webhook signing secret: [generated and redacted]"@),
        plain("  Trigger prefix: !codex "@),
        plain("  OpenWA API: "@ + defaults.api_base_url@),
        plain("  Webhook URL: "@ + defaults.webhook_url@),
        plain("  App-server: "@ + defaults.app_server_endpoint@),
        plain("  State: "@ + defaults.state_path@),
        plain(
            "  Queue/output: "@ + decimal_of(defaults.max_queued_prompts as nat) + " prompts, "@
                + decimal_of(defaults.output_chunk_chars as nat) + " chars per part"@,
        ),
    ]
}

/// The lines of a stage.
pub open spec fn stage_page(widget: WidgetModel, defaults: GatewayDefaults) -> Seq<LineModel> {
    match widget.stage {
        SetupStage::Choice => choice_page(widget.highlighted),
        SetupStage::Preflight => preflight_page(widget.preflight),
        SetupStage::Field(index) => field_page(widget, index as int),
        SetupStage::Review => review_page(widget, defaults),
        SetupStage::Saving => seq![
            line_of("  Saving WhatsApp configuration…"@, SpanStyle::Dim),
        ],
        SetupStage::Saved => if widget.skipped {
            seq![
                plain("  WhatsApp setup skipped. You can enable it later in config.toml."@),
            ]
        } else {
            seq![line_of("  WhatsApp configuration saved."@, SpanStyle::Green)]
        },
    }
}

/// All lines of the step: its title, the stage, what is wrong, and what to press.
pub open spec fn page(widget: WidgetModel, defaults: GatewayDefaults) -> Seq<LineModel> {
    let title = seq![
        LineModel::Text(
            seq![
                ("> "@, SpanStyle::Plain),
                ("WhatsApp remote access"@, SpanStyle::Bold),
            ],
        ),
        plain(""@),
    ];
    let told = match widget.error {
        Some(error) => seq![plain(""@), LineModel::Paragraph(error, SpanStyle::Red)],
        None => Seq::empty(),
    };
    let hint = match widget.stage {
        SetupStage::Saving => Seq::empty(),
        SetupStage::Saved => Seq::empty(),
        _ => seq![plain(""@), line_of("  Press Enter to continue"@, SpanStyle::Dim)],
    };
    title + stage_page(widget, defaults) + told + hint
}

/// A line of one piece.
fn styled(text: &str, style: SpanStyle) -> (line: SetupLine)
    ensures
        line@ == line_of(text@, style),
{
    let mut spans: Vec<StyledSpan> = Vec::new();
    spans.push(StyledSpan { text: text.to_owned(), style });
    assert(span_models(spans@) =~= seq![(text@, style)]);
    SetupLine::Text(spans)
}

/// A plain line with a label.
fn labelled(label: &str, value: &str) -> (line: SetupLine)
    ensures
        line@ == plain(label@ + value@),
{
    let text = joined(label, value);
    styled(text.as_str(), SpanStyle::Plain)
}

/// What the user sees in place of a secret.
fn mask(text: &str) -> (shown: String)
    ensures
        shown@ == masked(text@),
{
    let total: usize = chars_of(text).len();
    let mut shown = String::new();
    let mut index: usize = 0;
    assert(shown@ =~= Seq::new(0, |i: int| '•'));
    while index < total
        invariant
            index <= total == text@.len(),
            shown@ == Seq::new(index as nat, |i: int| '•'),
        decreases total - index,
    {
        shown.push('•');
        assert(shown@ =~= Seq::new((index + 1) as nat, |i: int| '•'));
        index += 1;
    }
    shown
}

/// The line of one check.
fn check_row(check: &GatewayCheck) -> (line: SetupLine)
    ensures
        line@ == check_line(check@),
{
    let mut spans: Vec<StyledSpan> = Vec::new();
    spans.push(
        StyledSpan { text: joined3("  ", check.label.as_str(), ": "), style: SpanStyle::Plain },
    );
    if check.passed {
        spans.push(StyledSpan { text: "ok".to_owned(), style: SpanStyle::Green });
    } else {
        spans.push(StyledSpan { text: "needs attention".to_owned(), style: SpanStyle::Red });
    }
    spans.push(
        StyledSpan { text: joined(" — ", check.detail.as_str()), style: SpanStyle::Dim },
    );
    assert(span_models(spans@) =~= check_line(check@)->Text_0);
    SetupLine::Text(spans)
}

/// The lines of the choice.
fn choice_rows(highlighted: SetupChoice) -> (lines: Vec<SetupLine>)
    ensures
        line_models(lines@) == choice_page(highlighted),
{
    let mut lines: Vec<SetupLine> = Vec::new();
    lines.push(
        SetupLine::Paragraph(
            StyledSpan {
                text: "Connect one private WhatsApp self-chat to this workspace through your self-hosted OpenWA service.".to_owned(),
                style: SpanStyle::Plain,
            },
        ),
    );
    lines.push(styled("", SpanStyle::Plain));
    lines.push(
        SetupLine::Choice {
            index: 0,
            label: "Configure WhatsApp".to_owned(),
            highlighted: highlighted == SetupChoice::Configure,
        },
    );
    lines.push(
        SetupLine::Choice {
            index: 1,
            label: "Not now".to_owned(),
            highlighted: highlighted == SetupChoice::NotNow,
        },
    );
    assert(line_models(lines@) =~= choice_page(highlighted));
    lines
}

/// The lines of the checks.
fn preflight_rows(preflight: &Option<GatewayPreflight>) -> (lines: Vec<SetupLine>)
    ensures
        line_models(lines@) == preflight_page(
            match *preflight {
                Some(preflight) => Some(check_models(preflight.checks@)),
                None => None,
            },
        ),
{
    let mut lines: Vec<SetupLine> = Vec::new();
    lines.push(styled("  Gateway preflight", SpanStyle::Bold));
    lines.push(styled("", SpanStyle::Plain));
    let ghost head = seq![line_of("  Gateway preflight"@, SpanStyle::Bold), plain(""@)];
    assert(line_models(lines@) =~= head);
    let found = match preflight {
        Some(found) => found,
        None => {
            return lines;
        },
    };
    let ghost checks = check_models(found.checks@);
    let ghost shown = checks.map_values(|check: CheckModel| check_line(check));
    let mut index: usize = 0;
    assert(line_models(lines@) =~= head + shown.take(0));
    while index < found.checks.len()
        invariant
            index <= found.checks@.len(),
            checks == check_models(found.checks@),
            shown == checks.map_values(|check: CheckModel| check_line(check)),
            line_models(lines@) == head + shown.take(index as int),
        decreases found.checks@.len() - index,
    {
        assert(checks[index as int] == found.checks@[index as int]@);
        let ghost before = lines@;
        let row = check_row(&found.checks[index]);
        let ghost model = row@;
        lines.push(row);
        proof {
            assert(line_models(lines@) =~= line_models(before).push(model));
            assert(shown.take(index + 1) =~= shown.take(index as int).push(shown[index as int]));
            assert(line_models(lines@) =~= head + shown.take(index + 1));
        }
        index += 1;
    }
    assert(shown.take(index as int) =~= shown);
    if found.is_ready() {
        let ghost before = lines@;
        lines.push(styled("", SpanStyle::Plain));
        lines.push(styled("  All checks passed. Press Enter to continue.", SpanStyle::Green));
        assert(line_models(lines@) =~= line_models(before) + seq![
            plain(""@),
            line_of("  All checks passed. Press Enter to continue."@, SpanStyle::Green),
        ]);
    }
    lines
}

impl WhatsAppWidget {
    /// The label of a field.
    pub fn field_label(index: usize) -> (label: &'static str)
        ensures
            label@ == label_of(index as int),
    {
        if index == 0 {
            "WhatsApp account number (E.164)"
        } else if index == 1 {
            "Host workspace"
        } else if index == 2 {
            "OpenWA session ID"
        } else if index == 3 {
            "OpenWA API key"
        } else {
            ""
        }
    }

    /// The lines of a field.
    fn field_rows(&self, index: usize) -> (lines: Vec<SetupLine>)
        ensures
            line_models(lines@) == field_page(self@, index as int),
    {
        let value = self.field(index);
        let shown = if index == 3 {
            mask(value.as_str())
        } else {
            value
        };
        let mut lines: Vec<SetupLine> = Vec::new();
        lines.push(
            SetupLine::Paragraph(
                StyledSpan {
                    text: WhatsAppWidget::field_label(index).to_owned(),
                    style: SpanStyle::Bold,
                },
            ),
        );
        lines.push(SetupLine::Framed(shown));
        assert(line_models(lines@) =~= field_page(self@, index as int));
        lines
    }

    /// The lines of the review.
    fn review_rows(&self, defaults: &GatewayDefaults) -> (lines: Vec<SetupLine>)
        ensures
            line_models(lines@) == review_page(self@, *defaults),
    {
        let mut lines: Vec<SetupLine> = Vec::new();
        lines.push(styled("  Review", SpanStyle::Plain));
        lines.push(labelled("  Account: ", self.phone_number.as_str()));
        lines.push(labelled("  Workspace: ", self.workspace.as_str()));
        lines.push(labelled("  OpenWA session: ", self.session_id.as_str()));
        lines.push(styled("  OpenWA API key: [redacted]", SpanStyle::Plain));
        lines.push(
            styled("  Webhook signing secret: [generated and redacted]", SpanStyle::Plain),
        );
        lines.push(styled("  Trigger prefix: !codex ", SpanStyle::Plain));
        lines.push(labelled("  OpenWA API: ", defaults.api_base_url.as_str()));
        lines.push(labelled("  Webhook URL: ", defaults.webhook_url.as_str()));
        lines.push(labelled("  App-server: ", defaults.app_server_endpoint.as_str()));
        lines.push(labelled("  State: ", defaults.state_path.as_str()));
        let prompts = decimal(defaults.max_queued_prompts);
        let chars = decimal(defaults.output_chunk_chars);
        let mut limits = joined3("  Queue/output: ", prompts.as_str(), " prompts, ");
        limits.append(chars.as_str());
        limits.append(" chars per part");
        lines.push(styled(limits.as_str(), SpanStyle::Plain));
        assert(line_models(lines@) =~= review_page(self@, *defaults));
        lines
    }

    /// The lines of the stage.
    fn stage_rows(&self, defaults: &GatewayDefaults) -> (lines: Vec<SetupLine>)
        ensures
            line_models(lines@) == stage_page(self@, *defaults),
    {
        match self.stage {
            SetupStage::Choice => choice_rows(self.highlighted),
            SetupStage::Preflight => preflight_rows(&self.preflight),
            SetupStage::Field(index) => self.field_rows(index),
            SetupStage::Review => self.review_rows(defaults),
            SetupStage::Saving => {
                let mut lines: Vec<SetupLine> = Vec::new();
                lines.push(styled("  Saving WhatsApp configuration…", SpanStyle::Dim));
                assert(line_models(lines@) =~= stage_page(self@, *defaults));
                lines
            },
            SetupStage::Saved => {
                let mut lines: Vec<SetupLine> = Vec::new();
                if self.skipped {
                    lines.push(
                        styled(
                            "  WhatsApp setup skipped. You can enable it later in config.toml.",
                            SpanStyle::Plain,
                        ),
                    );
                } else {
                    lines.push(styled("  WhatsApp configuration saved.", SpanStyle::Green));
                }
                assert(line_models(lines@) =~= stage_page(self@, *defaults));
                lines
            },
        }
    }

    /// All lines of the step.
    pub fn render(&self, defaults: &GatewayDefaults) -> (lines: Vec<SetupLine>)
        ensures
            line_models(lines@) == page(self@, *defaults),
    {
        let mut spans: Vec<StyledSpan> = Vec::new();
        spans.push(StyledSpan { text: "> ".to_owned(), style: SpanStyle::Plain });
        spans.push(
            StyledSpan { text: "WhatsApp remote access".to_owned(), style: SpanStyle::Bold },
        );
        let ghost title = seq![
            LineModel::Text(
                seq![
                    ("> "@, SpanStyle::Plain),
                    ("WhatsApp remote access"@, SpanStyle::Bold),
                ],
            ),
            plain(""@),
        ];
        assert(span_models(spans@) =~= title[0]->Text_0);
        let mut lines: Vec<SetupLine> = Vec::new();
        lines.push(SetupLine::Text(spans));
        lines.push(styled("", SpanStyle::Plain));
        assert(line_models(lines@) =~= title);
        let mut stage = self.stage_rows(defaults);
        let ghost rows = stage@;
        let ghost before = lines@;
        lines.append(&mut stage);
        assert(line_models(lines@) =~= title + stage_page(self@, *defaults));
        let ghost shown = line_models(lines@);
        let ghost told = match self@.error {
            Some(error) => seq![plain(""@), LineModel::Paragraph(error, SpanStyle::Red)],
            None => Seq::empty(),
        };
        match &self.error {
            Some(error) => {
                lines.push(styled("", SpanStyle::Plain));
                lines.push(
                    SetupLine::Paragraph(
                        StyledSpan { text: error.clone(), style: SpanStyle::Red },
                    ),
                );
            },
            None => {},
        }
        assert(line_models(lines@) =~= shown + told);
        let ghost so_far = line_models(lines@);
        match self.stage {
            SetupStage::Saving => {},
            SetupStage::Saved => {},
            _ => {
                lines.push(styled("", SpanStyle::Plain));
                lines.push(styled("  Press Enter to continue", SpanStyle::Dim));
                assert(line_models(lines@) =~= so_far + seq![
                    plain(""@),
                    line_of("  Press Enter to continue"@, SpanStyle::Dim),
                ]);
            },
        }
        assert(line_models(lines@) =~= page(self@, *defaults));
        lines
    }
}

/// Secrets are not shown: what a step shows does not depend on the secret for
/// webhooks at all, and on the key of the API by its length alone.
pub proof fn secrets_are_not_shown(
    widget: WidgetModel,
    api_key: Seq<char>,
    webhook_secret: Seq<char>,
    defaults: GatewayDefaults,
)
    requires
        api_key.len() == widget.api_key.len(),
    ensures
        page(WidgetModel { api_key, webhook_secret, ..widget }, defaults) == page(
            widget,
            defaults,
        ),
{
    assert(masked(api_key) =~= masked(widget.api_key));
}

/// The review shows what was entered, but for what is secret.
pub proof fn reviews_show_what_was_entered(widget: WidgetModel, defaults: GatewayDefaults)
    requires
        widget.stage == SetupStage::Review,
    ensures
        page(widget, defaults).contains(
            LineModel::Text(seq![("  Account: "@ + widget.phone_number, SpanStyle::Plain)]),
        ),
        page(widget, defaults).contains(
            LineModel::Text(seq![("  Workspace: "@ + widget.workspace, SpanStyle::Plain)]),
        ),
        page(widget, defaults).contains(
            LineModel::Text(seq![("  OpenWA session: "@ + widget.session_id, SpanStyle::Plain)]),
        ),
{
    let shown = page(widget, defaults);
    assert(shown[3] == plain("  Account: "@ + widget.phone_number));
    assert(shown[4] == plain("  Workspace: "@ + widget.workspace));
    assert(shown[5] == plain("  OpenWA session: "@ + widget.session_id));
}

/// What is wrong is told wherever something is.
pub proof fn errors_are_shown(widget: WidgetModel, defaults: GatewayDefaults, error: Seq<char>)
    requires
        widget.error == Some(error),
    ensures
        page(widget, defaults).contains(LineModel::Paragraph(error, SpanStyle::Red)),
{
    let shown = page(widget, defaults);
    let at = 2 + stage_page(widget, defaults).len() + 1;
    assert(shown[at as int] == LineModel::Paragraph(error, SpanStyle::Red));
}

} // verus!
