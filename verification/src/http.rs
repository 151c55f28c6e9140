//! Requests to the gateway's HTTP interfaces, before they are sent.

use crate::text::chars_of;
use crate::text::text_between;
use crate::text::texts;
use vstd::prelude::*;

verus! {

#[derive(Debug, Clone, Copy, PartialEq, Eq, Structural)]
pub enum HttpMethod {
    Get,
    Post,
    Put,
}

/// A value of a JSON object.
#[derive(Debug, PartialEq, Eq)]
pub enum JsonValue {
    Text(String),
    Texts(Vec<String>),
}

/// One member of a JSON object.
#[derive(Debug, PartialEq, Eq)]
pub struct JsonField {
    pub name: String,
    pub value: JsonValue,
}

/// A request with one header that authenticates it and, where there is a body, a
/// JSON object.
#[derive(Debug, PartialEq, Eq)]
pub struct HttpRequest {
    pub method: HttpMethod,
    pub url: String,
    pub header: String,
    pub credential: String,
    pub body: Option<Vec<JsonField>>,
}

/// What a `JsonValue` holds.
#[verifier::ext_equal]
pub enum ValueModel {
    Text(Seq<char>),
    Texts(Seq<Seq<char>>),
}

/// What an `HttpRequest` holds.
#[verifier::ext_equal]
pub struct RequestShape {
    pub method: HttpMethod,
    pub url: Seq<char>,
    pub header: Seq<char>,
    pub credential: Seq<char>,
    pub body: Option<Seq<(Seq<char>, ValueModel)>>,
}

impl View for JsonValue {
    type V = ValueModel;

    open spec fn view(&self) -> ValueModel {
        match *self {
            JsonValue::Text(text) => ValueModel::Text(text@),
            JsonValue::Texts(list) => ValueModel::Texts(texts(list@)),
        }
    }
}

impl View for JsonField {
    type V = (Seq<char>, ValueModel);

    open spec fn view(&self) -> (Seq<char>, ValueModel) {
        (self.name@, self.value@)
    }
}

/// What the members of an object hold.
pub open spec fn field_models(fields: Seq<JsonField>) -> Seq<(Seq<char>, ValueModel)> {
    fields.map_values(|field: JsonField| field@)
}

impl View for HttpRequest {
    type V = RequestShape;

    open spec fn view(&self) -> RequestShape {
        RequestShape {
            method: self.method,
            url: self.url@,
            header: self.header@,
            credential: self.credential@,
            body: match self.body {
                Some(fields) => Some(field_models(fields@)),
                None => None,
            },
        }
    }
}

impl JsonField {
    /// A member that is a text.
    pub fn text(name: &str, value: &str) -> (field: Self)
        ensures
            field@ == (name@, ValueModel::Text(value@)),
    {
        JsonField { name: name.to_owned(), value: JsonValue::Text(value.to_owned()) }
    }

    /// A member that is a list of texts.
    pub fn texts(name: &str, values: Vec<String>) -> (field: Self)
        ensures
            field@ == (name@, ValueModel::Texts(texts(values@))),
    {
        JsonField { name: name.to_owned(), value: JsonValue::Texts(values) }
    }
}

/// Whether a status says that a request succeeded.
pub open spec fn is_success(status: u16) -> bool {
    200 <= status <= 299
}

/// Whether a status says that the server failed.
pub open spec fn is_server_error(status: u16) -> bool {
    500 <= status <= 599
}

/// An address without the slashes at its end.
pub open spec fn without_slashes(url: Seq<char>) -> Seq<char>
    decreases url.len(),
{
    if url.len() > 0 && url.last() == '/' {
        without_slashes(url.drop_last())
    } else {
        url
    }
}

/// An address without the slashes at its end.
pub fn trim_slashes(url: &str) -> (trimmed: String)
    ensures
        trimmed@ == without_slashes(url@),
{
    let chars = chars_of(url);
    let mut end: usize = chars.len();
    assert(url@.take(end as int) =~= url@);
    while end > 0 && chars[end - 1] == '/'
        invariant
            end <= chars@.len(),
            chars@ == url@,
            without_slashes(url@) == without_slashes(url@.take(end as int)),
        decreases end,
    {
        assert(url@.take(end as int).drop_last() =~= url@.take(end - 1));
        end -= 1;
    }
    let trimmed = text_between(&chars, 0, end);
    assert(trimmed@ =~= url@.take(end as int));
    trimmed
}

/// An address without the slashes at its end has none there.
pub proof fn trimmed_addresses_end_in_no_slash(url: Seq<char>)
    ensures
        without_slashes(url).len() > 0 ==> without_slashes(url).last() != '/',
        without_slashes(without_slashes(url)) == without_slashes(url),
    decreases url.len(),
{
    if url.len() > 0 && url.last() == '/' {
        trimmed_addresses_end_in_no_slash(url.drop_last());
    }
}

/// Only slashes are trimmed from an address, and only from its end.
pub proof fn only_slashes_are_trimmed(url: Seq<char>)
    ensures
        without_slashes(url).len() <= url.len(),
        without_slashes(url) == url.take(without_slashes(url).len() as int),
        forall|i: int|
            without_slashes(url).len() <= i < url.len() ==> #[trigger] url[i] == '/',
    decreases url.len(),
{
    if url.len() > 0 && url.last() == '/' {
        only_slashes_are_trimmed(url.drop_last());
        let kept = without_slashes(url).len() as int;
        assert(url.drop_last().take(kept) =~= url.take(kept));
        assert forall|i: int| kept <= i < url.len() implies #[trigger] url[i] == '/' by {
            if i < url.len() - 1 {
                assert(url.drop_last()[i] == '/');
            }
        }
    } else {
        assert(url.take(url.len() as int) =~= url);
    }
}

} // verus!
