//! Native WhatsApp attachment data passed through to Codex.

use crate::protocol::input_models;
use crate::protocol::InputModel;
use crate::protocol::UserInput;
use crate::text::chars_of;
use crate::text::joined3;
use crate::text::text_between;
use crate::text::mentions;
use crate::text::lemma_mentions_itself;
use crate::text::lemma_mentions_within;
use vstd::prelude::*;

verus! {

/// An attachment received from WhatsApp.
///
/// Images are represented as data URLs at the Codex boundary. Documents are
/// stored in a temporary directory shared with Codex so the normal local-input
/// path can consume them.
#[derive(Debug, PartialEq, Eq)]
pub enum InboundAttachment {
    Image { mime_type: String, data_base64: String },
    Document { path: String, file_name: Option<String>, mime_type: Option<String> },
    Unsupported { kind: String },
}

impl Clone for InboundAttachment {
    fn clone(&self) -> (copy: Self)
        ensures
            copy == *self,
    {
        match self {
            InboundAttachment::Image { mime_type, data_base64 } => InboundAttachment::Image {
                mime_type: mime_type.clone(),
                data_base64: data_base64.clone(),
            },
            InboundAttachment::Document { path, file_name, mime_type } =>
                InboundAttachment::Document {
                path: path.clone(),
                file_name: file_name.clone(),
                mime_type: mime_type.clone(),
            },
            InboundAttachment::Unsupported { kind } => InboundAttachment::Unsupported {
                kind: kind.clone(),
            },
        }
    }
}

/// Where a document is stored.
pub open spec fn stored_at(attachment: InboundAttachment) -> Option<Seq<char>> {
    match attachment {
        InboundAttachment::Document { path, .. } => Some(path@),
        _ => None,
    }
}

impl InboundAttachment {
    /// Where the attachment is stored, for a document.
    pub fn path(&self) -> (path: Option<&str>)
        ensures
            match path {
                Some(path) => stored_at(*self) == Some(path@),
                None => stored_at(*self) is None,
            },
    {
        match self {
            InboundAttachment::Document { path, .. } => Some(path.as_str()),
            InboundAttachment::Image { .. } => None,
            InboundAttachment::Unsupported { .. } => None,
        }
    }
}

/// The URL that holds an image itself.
pub open spec fn data_url(mime_type: Seq<char>, data_base64: Seq<char>) -> Seq<char> {
    "data:"@ + mime_type + ";base64,"@ + data_base64
}

/// What Codex is told of a stored document.
pub open spec fn document_note(
    path: Seq<char>,
    file_name: Option<String>,
    mime_type: Option<String>,
) -> Seq<char> {
    "The user attached a document"@ + (match file_name {
        Some(name) => " named `"@ + name@ + "`"@,
        None => Seq::empty(),
    }) + (match mime_type {
        Some(mime) => " of type "@ + mime@,
        None => Seq::empty(),
    }) + ". It is stored at `"@ + path + "`."@
}

/// A piece of text as input.
pub open spec fn text_input(text: Seq<char>) -> InputModel {
    InputModel::Text { text, text_elements: Seq::empty() }
}

/// The input for a message: its attachment first, then its text.
pub open spec fn inputs_for(body: Seq<char>, attachment: Option<InboundAttachment>) -> Seq<
    InputModel,
> {
    let caption = if body.len() == 0 {
        Seq::empty()
    } else {
        seq![text_input(body)]
    };
    match attachment {
        Some(InboundAttachment::Image { mime_type, data_base64 }) => seq![
            InputModel::Image { detail: None, url: data_url(mime_type@, data_base64@) },
        ] + caption,
        Some(InboundAttachment::Document { path, file_name, mime_type }) => seq![
            text_input(document_note(path@, file_name, mime_type)),
        ] + caption,
        _ => seq![text_input(body)],
    }
}

/// A piece of text as input.
fn text_of(text: String) -> (input: UserInput)
    ensures
        input@ == text_input(text@),
{
    let input = UserInput::Text { text, text_elements: Vec::new() };
    assert(input@ =~= text_input(text@));
    input
}

/// The input for a message: its attachment first, then its text.
pub fn user_inputs(body: String, attachment: Option<InboundAttachment>) -> (inputs: Vec<UserInput>)
    ensures
        input_models(inputs@) == inputs_for(body@, attachment),
{
    let ghost expected = inputs_for(body@, attachment);
    let mut inputs: Vec<UserInput> = Vec::new();
    let with_text = match &attachment {
        Some(InboundAttachment::Image { mime_type, data_base64 }) => {
            let head = joined3("data:", mime_type.as_str(), ";base64,");
            let mut url = head;
            url.append(data_base64.as_str());
            inputs.push(UserInput::Image { detail: None, url });
            !body.as_str().is_empty()
        },
        Some(InboundAttachment::Document { path, file_name, mime_type }) => {
            let mut note = "The user attached a document".to_owned();
            match file_name {
                Some(name) => {
                    let named = joined3(" named `", name.as_str(), "`");
                    note.append(named.as_str());
                },
                None => {},
            }
            match mime_type {
                Some(mime) => {
                    let typed = joined3(" of type ", mime.as_str(), "");
                    proof {
                        reveal_strlit("");
                        assert(typed@ =~= " of type "@ + mime@);
                    }
                    note.append(typed.as_str());
                },
                None => {},
            }
            note.append(". It is stored at `");
            note.append(path.as_str());
            note.append("`.");
            assert(note@ =~= document_note(path@, *file_name, *mime_type));
            let input = text_of(note);
            inputs.push(input);
            !body.as_str().is_empty()
        },
        _ => true,
    };
    if with_text {
        let input = text_of(body);
        inputs.push(input);
    }
    assert(input_models(inputs@) =~= expected);
    inputs
}

/// A text with its first letter in upper case.
pub open spec fn capitalized(text: Seq<char>) -> Seq<char> {
    if text.len() > 0 && 'a' <= text[0] <= 'z' {
        text.update(0, ((text[0] as u32 - 32) as char))
    } else {
        text
    }
}

/// What the user is told of an attachment that cannot be used.
pub open spec fn unsupported_text(kind: Seq<char>) -> Seq<char> {
    "[codex] "@ + capitalized(kind) + "s are unsupported in this session"@
}

/// A text with its first letter in upper case.
fn capitalize(text: &str) -> (result: String)
    ensures
        result@ == capitalized(text@),
{
    let mut chars = chars_of(text);
    if chars.len() > 0 {
        let first: char = chars[0];
        if 'a' <= first && first <= 'z' {
            let upper: u8 = first as u8 - 32;
            chars.set(0, upper as char);
        }
    }
    assert(chars@ =~= capitalized(text@));
    let result = text_between(&chars, 0, chars.len());
    assert(result@ =~= chars@);
    result
}

/// What the user is told of an attachment that cannot be used.
pub fn unsupported_notice(kind: &str) -> (text: String)
    ensures
        text@ == unsupported_text(kind@),
{
    let name = capitalize(kind);
    joined3("[codex] ", name.as_str(), "s are unsupported in this session")
}

/// A message without a usable attachment is handed to Codex as its text and nothing else.
pub proof fn plain_messages_are_their_text(body: Seq<char>)
    ensures
        inputs_for(body, None) == seq![
            InputModel::Text { text: body, text_elements: Seq::empty() },
        ],
{
}

/// An image is handed to Codex whole, before the text that came with it; a document is
/// handed over by its place, before that text. No empty text is added.
pub proof fn attachments_come_before_the_text(body: Seq<char>, attachment: InboundAttachment)
    requires
        attachment is Image || attachment is Document,
    ensures
        ({
            let inputs = inputs_for(body, Some(attachment));
            &&& inputs.len() == if body.len() == 0 {
                1int
            } else {
                2
            }
            &&& body.len() > 0 ==> inputs[1] == (InputModel::Text {
                text: body,
                text_elements: Seq::empty(),
            })
            &&& attachment matches InboundAttachment::Image { mime_type, data_base64 } ==> inputs[0]
                == (InputModel::Image {
                detail: None,
                url: "data:"@ + mime_type@ + ";base64,"@ + data_base64@,
            })
            &&& attachment matches InboundAttachment::Document { path, file_name, mime_type } ==> {
                &&& inputs[0] is Text
                &&& mentions(inputs[0]->Text_text, "`"@ + path@ + "`"@)
                &&& file_name matches Some(name) ==> mentions(
                    inputs[0]->Text_text,
                    "`"@ + name@ + "`"@,
                )
                &&& mime_type matches Some(mime) ==> mentions(inputs[0]->Text_text, mime@)
            }
        }),
{
    if let InboundAttachment::Document { path, file_name, mime_type } = attachment {
        lemma_note_has_its_parts(path@, file_name, mime_type);
    }
}

proof fn lemma_note_has_its_parts(
    path: Seq<char>,
    file_name: Option<String>,
    mime_type: Option<String>,
)
    ensures
        mentions(document_note(path, file_name, mime_type), "`"@ + path + "`"@),
        file_name matches Some(name) ==> mentions(
            document_note(path, file_name, mime_type),
            "`"@ + name@ + "`"@,
        ),
        mime_type matches Some(mime) ==> mentions(
            document_note(path, file_name, mime_type),
            mime@,
        ),
{
    let named = match file_name {
        Some(name) => " named `"@ + name@ + "`"@,
        None => Seq::empty(),
    };
    let typed = match mime_type {
        Some(mime) => " of type "@ + mime@,
        None => Seq::empty(),
    };
    let opening = "The user attached a document"@;
    let stored = ". It is stored at `"@ + path + "`."@;
    lemma_regrouped(opening + named + typed, ". It is stored at `"@, path, "`."@);
    lemma_place_is_quoted(path);
    lemma_mentioned_in_one(opening, named, typed, stored, "`"@ + path + "`"@);
    if let Some(name) = file_name {
        lemma_name_is_quoted(name@);
        lemma_mentioned_in_one(opening, named, typed, stored, "`"@ + name@ + "`"@);
    }
    if let Some(mime) = mime_type {
        lemma_mentions_itself(mime@);
        lemma_mentions_within(" of type "@, mime@, Seq::empty(), mime@);
        assert(" of type "@ + mime@ + Seq::<char>::empty() =~= typed);
        lemma_mentioned_in_one(opening, named, typed, stored, mime@);
    }
}

proof fn lemma_regrouped(start: Seq<char>, first: Seq<char>, second: Seq<char>, third: Seq<char>)
    ensures
        start + first + second + third == start + (first + second + third),
{
    assert(start + first + second + third =~= start + (first + second + third));
}

proof fn lemma_mentioned_in_one(
    first: Seq<char>,
    second: Seq<char>,
    third: Seq<char>,
    fourth: Seq<char>,
    part: Seq<char>,
)
    requires
        mentions(second, part) || mentions(third, part) || mentions(fourth, part),
    ensures
        mentions(first + second + third + fourth, part),
{
    let whole = first + second + third + fourth;
    if mentions(second, part) {
        lemma_mentions_within(first, second, third + fourth, part);
        assert(first + second + (third + fourth) =~= whole);
    } else if mentions(third, part) {
        lemma_mentions_within(first + second, third, fourth, part);
    } else {
        lemma_mentions_within(first + second + third, fourth, Seq::empty(), part);
        assert(whole + Seq::<char>::empty() =~= whole);
    }
}

proof fn lemma_quoted_within(before: Seq<char>, quote: Seq<char>, name: Seq<char>, after: Seq<char>)
    ensures
        mentions((before + quote) + name + (quote + after), quote + name + quote),
{
    let quoted = quote + name + quote;
    lemma_mentions_itself(quoted);
    lemma_mentions_within(before, quoted, after, quoted);
    assert(before + quoted + after =~= (before + quote) + name + (quote + after));
}

proof fn lemma_place_is_quoted(path: Seq<char>)
    ensures
        mentions(". It is stored at `"@ + path + "`."@, "`"@ + path + "`"@),
{
    lemma_quotes_by_their_parts();
    lemma_quoted_within(". It is stored at "@, "`"@, path, "."@);
}

proof fn lemma_name_is_quoted(name: Seq<char>)
    ensures
        mentions(" named `"@ + name + "`"@, "`"@ + name + "`"@),
{
    lemma_quotes_by_their_parts();
    lemma_quoted_within(" named "@, "`"@, name, Seq::empty());
    assert("`"@ + Seq::<char>::empty() =~= "`"@);
}

proof fn lemma_quotes_by_their_parts()
    ensures
        ". It is stored at `"@ == ". It is stored at "@ + "`"@,
        "`."@ == "`"@ + "."@,
        " named `"@ == " named "@ + "`"@,
{
    reveal_strlit(". It is stored at `");
    reveal_strlit(". It is stored at ");
    reveal_strlit("`");
    reveal_strlit("`.");
    reveal_strlit(".");
    reveal_strlit(" named `");
    reveal_strlit(" named ");
    assert(". It is stored at `"@ =~= ". It is stored at "@ + "`"@);
    assert("`."@ =~= "`"@ + "."@);
    assert(" named `"@ =~= " named "@ + "`"@);
}

} // verus!
