//! Mail addresses, as the mail library reads them.

use lettre::message::Mailbox;
use vstd::prelude::*;

verus! {

/// Whether `lettre` reads `text` as a mailbox: what `str::parse::<Mailbox>`
/// accepts, an address alone or after a name.
pub uninterp spec fn is_mailbox(text: Seq<char>) -> bool;

/// `<Mailbox as FromStr>::from_str`, asked only whether it accepts the text.
/// The parser looks at the text alone, so the same text is always judged the
/// same way.
#[verifier::external_body]
pub(crate) fn parses_as_mailbox(text: &str) -> (ok: bool)
    ensures
        ok == is_mailbox(text@),
{
    text.parse::<Mailbox>().is_ok()
}

/// Whether `text` can stand as the sender or the recipient of a mail.
pub fn mailbox_ok(text: &str) -> (ok: bool)
    ensures
        ok == is_mailbox(text@),
{
    parses_as_mailbox(text)
}

} // verus!
