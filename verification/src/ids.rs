//! Random identifiers.

use crate::text::chars_of;
use crate::text::text_between;
use vstd::prelude::*;

verus! {

/// Whether a text is made of lower-case hexadecimal digits alone.
pub open spec fn is_lower_hex(text: Seq<char>) -> bool {
    forall|i: int|
        0 <= i < text.len() ==> ('0' <= #[trigger] text[i] <= '9') || ('a' <= text[i] <= 'f')
}

/// A new random identifier: `uuid::Uuid::new_v4`, written in its simple form. That
/// form is 32 lower-case hexadecimal digits; which ones is left to chance.
#[verifier::external_body]
pub(crate) fn fresh_id() -> (id: String)
    ensures
        id@.len() == 32,
        is_lower_hex(id@),
{
    uuid::Uuid::new_v4().simple().to_string()
}

/// The short form of an identifier, for a user to type.
pub fn short_token(id: &str) -> (token: String)
    requires
        id@.len() >= 8,
    ensures
        token@ == id@.take(8),
{
    let chars = chars_of(id);
    let token = text_between(&chars, 0, 8);
    assert(token@ =~= id@.take(8));
    token
}

/// A new random identifier, short enough for a user to type.
pub fn fresh_token() -> (token: String)
    ensures
        token@.len() == 8,
        is_lower_hex(token@),
{
    let id = fresh_id();
    let token = short_token(id.as_str());
    assert forall|i: int| 0 <= i < token@.len() implies ('0' <= #[trigger] token@[i] <= '9') || ('a'
        <= token@[i] <= 'f') by {
        assert(token@[i] == id@[i]);
    }
    token
}

} // verus!
