//! Presentation of "did you mean" suggestions.

use vstd::prelude::*;
use crate::text::{join, join_text, views_of};

verus! {

/// The message that offers `suggestions` for an item of kind `item_type`.
pub open spec fn suggestions_message(suggestions: Seq<Seq<char>>, item_type: Seq<char>) -> Seq<char> {
    "🤔 Did you mean one of these "@ + item_type + "s?\n  "@ + join_text(suggestions, ", "@)
}

/// Builds the message that offers `suggestions`, or nothing when there are none.
pub fn format_suggestions(_input: &str, suggestions: &[String], item_type: &str) -> (r: Option<String>)
    ensures
        match r {
            Some(m) => suggestions@.len() > 0 && m@ == suggestions_message(views_of(suggestions@), item_type@),
            None => suggestions@.len() == 0,
        },
{
    if suggestions.len() == 0 {
        None
    } else {
        let mut m = String::from_str("🤔 Did you mean one of these ");
        m.append(item_type);
        m.append("s?\n  ");
        let joined = join(suggestions, ", ");
        m.append(joined.as_str());
        Some(m)
    }
}

} // verus!
