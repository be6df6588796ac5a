//! The announcement as an email: the rendered bodies wrapped in lettre's
//! message, addressed from the sender to the recipient.
use vstd::prelude::*;
use lettre::address::AddressError;
use lettre::message::{Mailbox, MultiPart};
use lettre::Message;
use crate::message::create_message_body;
use crate::model::{all_attributed, Movie};

verus! {

#[verifier::external_type_specification]
#[verifier::external_body]
pub struct ExMessage(lettre::Message);

#[verifier::external_type_specification]
#[verifier::external_body]
pub struct ExMailbox(lettre::message::Mailbox);

#[verifier::external_type_specification]
#[verifier::external_body]
pub struct ExMultiPart(lettre::message::MultiPart);

#[verifier::external_type_specification]
#[verifier::external_body]
pub struct ExAddressError(lettre::address::AddressError);

#[verifier::external_type_specification]
#[verifier::external_body]
pub struct ExEmailError(lettre::error::Error);

/// Whether lettre reads `s` as a mailbox (`Name <user@domain>` or `user@domain`).
pub uninterp spec fn mailbox_parses(s: Seq<char>) -> bool;

/// Whether lettre builds a message addressed from `from` to `to`.
pub uninterp spec fn message_builds(to: Seq<char>, from: Seq<char>) -> bool;

/// Why an email could not be built.
#[derive(Clone, Copy, Debug, PartialEq, Eq, Structural)]
pub enum MailError {
    /// The recipient is not a mailbox.
    Recipient,
    /// The sender is not a mailbox.
    Sender,
    /// lettre could not read an address back from the message's headers.
    Message,
}

/// Relies on `<Mailbox as FromStr>::from_str`: a pure parse of the text,
/// which succeeds or fails by the text alone.
#[verifier::external_body]
fn parse_mailbox(s: &String) -> (r: Result<Mailbox, AddressError>)
    ensures
        r is Ok == mailbox_parses(s@),
{
    s.parse::<Mailbox>()
}

/// Relies on `MultiPart::alternative_plain_html`: a plain-text and an HTML
/// alternative of one body.
#[verifier::external_body]
fn alternative_body(plain: String, html: String) -> MultiPart {
    MultiPart::alternative_plain_html(plain, html)
}

/// Relies on `<Mailbox as FromStr>::from_str` for both addresses, then on
/// `Message::builder`, `MessageBuilder::to`, `::from`, `::subject` and
/// `::multipart`. lettre writes each mailbox into its header and reads the
/// envelope back from the header text, so whether a message comes out
/// depends on the two address texts alone; it never does when either of
/// them is not a mailbox.
#[verifier::external_body]
fn build_message(to: &String, from: &String, subject: String, part: MultiPart) -> (r: Option<
    Message,
>)
    ensures
        r is Some <==> message_builds(to@, from@),
        r is Some ==> mailbox_parses(to@) && mailbox_parses(from@),
{
    let to = to.parse::<Mailbox>().ok()?;
    let from = from.parse::<Mailbox>().ok()?;
    Message::builder().to(to).from(from).subject(subject).multipart(part).ok()
}

/// The announcement of `movies` as an email from `from` to `to`, with the
/// rendered plain-text and HTML bodies as alternatives. The recipient's
/// error comes before the sender's; with both addresses mailboxes, the
/// message is built exactly when lettre can read both back from its headers.
pub fn create_email(movies: Vec<Movie>, to: String, from: String, subject: String) -> (r: Result<
    Message,
    MailError,
>)
    requires
        all_attributed(movies@),
    ensures
        (r == Err::<Message, MailError>(MailError::Recipient)) <==> !mailbox_parses(to@),
        (r == Err::<Message, MailError>(MailError::Sender)) <==> (mailbox_parses(to@)
            && !mailbox_parses(from@)),
        (r == Err::<Message, MailError>(MailError::Message)) <==> (mailbox_parses(to@)
            && mailbox_parses(from@) && !message_builds(to@, from@)),
        r is Ok <==> mailbox_parses(to@) && mailbox_parses(from@) && message_builds(to@, from@),
{
    let (plain, html) = create_message_body(movies);
    if parse_mailbox(&to).is_err() {
        return Err(MailError::Recipient);
    }
    if parse_mailbox(&from).is_err() {
        return Err(MailError::Sender);
    }
    match build_message(&to, &from, subject, alternative_body(plain, html)) {
        Some(message) => Ok(message),
        None => Err(MailError::Message),
    }
}

} // verus!
