//! The emoji table: the records of the crate `emojis`, found by their text.
use emojis::Emoji;
use vstd::prelude::*;

verus! {

/// One record of the emoji table. The table owns its records for the whole run
/// of the process; the scanner only ever hands references to them on.
#[verifier::external_type_specification]
#[verifier::external_body]
pub struct ExEmoji(emojis::Emoji);

/// The record that the emoji table gives for a literal text, if it has one.
pub uninterp spec fn table_entry(text: Seq<char>) -> Option<&'static Emoji>;

/// `emojis::get` looks a text up in a map that is fixed when the crate is
/// built, so its answer depends on the text alone. Nothing is claimed about
/// which texts are found, nor about the text of the record that comes back:
/// the table also answers an unqualified form with the fully qualified record.
pub assume_specification[ emojis::get ](s: &str) -> (found: Option<&'static Emoji>)
    ensures
        found == table_entry(s@),
;

} // verus!
