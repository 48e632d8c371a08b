//! Splitting rendered template text into structured message fields.
//!
//! A rendered email template is a fixed four-part pipe: an empty preamble
//! line, the sender display name, the subject, and the body. Only the first
//! three line breaks are consumed by the split; any further line breaks stay
//! inside the body. The display name later pairs with a fixed, configured
//! sender address to form the `From` header, so the template controls only
//! the display name, never the routable address.

use vstd::prelude::*;

use crate::search::{find_from, find_char_from};

verus! {

/// Why rendered template text could not be composed into a message.
#[derive(Debug, Clone, Copy, PartialEq, Eq, Structural)]
pub enum ComposeError {
    /// The text has fewer than four parts: the template produced too few
    /// lines.
    MissingField,
    /// The first line of the text is not empty. This violates the template
    /// contract and marks a broken template rather than bad user input;
    /// callers treat it as fatal for the request.
    NonEmptyPreamble,
}

/// The structured message extracted from rendered template text.
#[derive(Debug)]
pub struct ComposedMessage {
    /// Display name for the `From` header.
    pub from_display_name: String,
    /// Subject line.
    pub subject: String,
    /// Message body; keeps every line break after the third.
    pub body: String,
}

/// Index of the first line break, or `-1`.
pub open spec fn nl1(s: Seq<char>) -> int {
    find_from(s, '\n', 0)
}

/// Index of the second line break, or `-1`.
pub open spec fn nl2(s: Seq<char>) -> int {
    if nl1(s) == -1 {
        -1
    } else {
        find_from(s, '\n', nl1(s) + 1)
    }
}

/// Index of the third line break, or `-1`.
pub open spec fn nl3(s: Seq<char>) -> int {
    if nl2(s) == -1 {
        -1
    } else {
        find_from(s, '\n', nl2(s) + 1)
    }
}

/// Splits rendered template text at its first three line breaks into the
/// empty preamble, display name, subject and body, and rejects text whose
/// shape breaks the template contract.
pub fn compose(rendered: &str) -> (r: Result<ComposedMessage, ComposeError>)
    ensures
        r is Ok <==> nl3(rendered@) != -1 && nl1(rendered@) == 0,
        r matches Err(e) ==> {
            &&& (e == ComposeError::MissingField <==> nl3(rendered@) == -1)
            &&& (e == ComposeError::NonEmptyPreamble <==> nl3(rendered@) != -1 && nl1(
                rendered@,
            ) != 0)
        },
        r matches Ok(m) ==> {
            &&& m.from_display_name@ == rendered@.subrange(1, nl2(rendered@))
            &&& m.subject@ == rendered@.subrange(nl2(rendered@) + 1, nl3(rendered@))
            &&& m.body@ == rendered@.subrange(nl3(rendered@) + 1, rendered@.len() as int)
        },
{
    let i1 = match find_char_from(rendered, '\n', 0) {
        None => {
            return Err(ComposeError::MissingField);
        },
        Some(i) => i,
    };
    let i2 = match find_char_from(rendered, '\n', i1 + 1) {
        None => {
            return Err(ComposeError::MissingField);
        },
        Some(i) => i,
    };
    let i3 = match find_char_from(rendered, '\n', i2 + 1) {
        None => {
            return Err(ComposeError::MissingField);
        },
        Some(i) => i,
    };
    if i1 != 0 {
        return Err(ComposeError::NonEmptyPreamble);
    }
    let n = rendered.unicode_len();
    let from_display_name = rendered.substring_char(1, i2).to_owned();
    let subject = rendered.substring_char(i2 + 1, i3).to_owned();
    let body = rendered.substring_char(i3 + 1, n).to_owned();
    Ok(ComposedMessage { from_display_name, subject, body })
}

} // verus!
