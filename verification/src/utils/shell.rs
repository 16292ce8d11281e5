//! Terminal settings for the messages of the tool.

use vstd::prelude::*;

verus! {

/// The setting that the `CARGO_TERM_UNICODE` variable gives: none where it
/// is unset, else whether it is exactly `true`.
pub open spec fn term_unicode_spec(value: Option<Seq<char>>) -> Option<bool> {
    match value {
        Some(v) => Some(v == "true"@),
        None => None,
    }
}

/// Whether messages may use Unicode decorations, from the text of the
/// `CARGO_TERM_UNICODE` variable (`None` where it is unset).
pub fn cargo_term_unicode(value: Option<&str>) -> (res: Option<bool>)
    ensures
        res == term_unicode_spec(match value {
            Some(v) => Some(v@),
            None => None,
        }),
{
    match value {
        Some(v) => Some(v.to_owned() == "true".to_owned()),
        None => None,
    }
}

} // verus!
