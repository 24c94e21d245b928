//! JSON text for strings.

use vstd::prelude::*;

verus! {

/// The JSON text that stands for a string.
pub uninterp spec fn json_string_of(text: Seq<char>) -> Seq<char>;

/// Whether JSON writes every character of `text` as itself: none is a double
/// quote, a backslash or a control character below U+0020.
pub open spec fn needs_no_escape(text: Seq<char>) -> bool {
    forall|i: int|
        0 <= i < text.len() ==> (#[trigger] text[i]) != '"' && text[i] != '\\' && text[i] >= ' '
}

/// `text` between two double quotes.
pub open spec fn quoted(text: Seq<char>) -> Seq<char> {
    seq!['"'] + text + seq!['"']
}

/// Calls `serde_json::to_string` on a string. Claimed of it: the call
/// succeeds, because the serializer writes a string into a buffer in memory,
/// which cannot fail; the text depends on the string alone; and a string that
/// needs no escaping comes back between two double quotes, unchanged.
#[verifier::external_body]
pub(crate) fn json_string(text: &str) -> (json: Option<String>)
    ensures
        json is Some,
        json.unwrap()@ == json_string_of(text@),
        needs_no_escape(text@) ==> json.unwrap()@ == quoted(text@),
{
    serde_json::to_string(text).ok()
}

} // verus!
