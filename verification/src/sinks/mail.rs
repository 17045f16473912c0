//! The `lettre` values an email is made of: parsed mailboxes, MIME parts and
//! the finished message. Each call into `lettre` sits behind a small trusted
//! wrapper.

use vstd::prelude::*;

use lettre::message::header::ContentType;
use lettre::message::{Attachment, Mailbox, MultiPart, SinglePart};
use lettre::Message;

verus! {

/// `lettre`'s mailbox (an optional display name and an address).
#[verifier::external_type_specification]
#[verifier::external_body]
pub struct ExMailbox(Mailbox);

/// `lettre`'s MIME content type.
#[verifier::external_type_specification]
#[verifier::external_body]
pub struct ExContentType(ContentType);

/// `lettre`'s single-part MIME body.
#[verifier::external_type_specification]
#[verifier::external_body]
pub struct ExSinglePart(SinglePart);

/// `lettre`'s multipart MIME body.
#[verifier::external_type_specification]
#[verifier::external_body]
pub struct ExMultiPart(MultiPart);

/// `lettre`'s finished message, ready for a transport.
#[verifier::external_type_specification]
#[verifier::external_body]
pub struct ExMessage(Message);

/// Why `lettre` refuses `address` as a mailbox, as its error reads; `None`
/// when it accepts it.
pub uninterp spec fn mailbox_refusal(address: Seq<char>) -> Option<Seq<char>>;

/// A mailbox `lettre` parsed, kept with the text it was parsed from. Only
/// `parse_mailbox` makes one, so the two always belong together.
pub struct ParsedMailbox {
    address: String,
    mailbox: Mailbox,
}

impl ParsedMailbox {
    /// The text the mailbox was parsed from.
    pub closed spec fn view(&self) -> Seq<char> {
        self.address@
    }

    /// The text the mailbox was parsed from.
    pub fn address(&self) -> (r: &str)
        ensures
            r@ == self@,
    {
        self.address.as_str()
    }

    /// The parsed mailbox itself.
    pub fn into_mailbox(self) -> Mailbox {
        self.mailbox
    }
}

/// Calls `address.parse::<lettre::message::Mailbox>()` (`FromStr`) and keeps
/// the mailbox with the text it came from, or maps the `AddressError` to its
/// text. Claims that it succeeds exactly when `mailbox_refusal` has no value,
/// fails with that text otherwise, and that a success holds `address`.
#[verifier::external_body]
pub(crate) fn parse_mailbox(address: &str) -> (r: Result<ParsedMailbox, String>)
    ensures
        r is Ok <==> mailbox_refusal(address@) is None,
        r matches Err(e) ==> mailbox_refusal(address@) == Some(e@),
        r matches Ok(p) ==> p@ == address@,
{
    match address.parse::<Mailbox>() {
        Ok(mailbox) => Ok(ParsedMailbox { address: address.to_string(), mailbox }),
        Err(e) => Err(e.to_string()),
    }
}

/// Calls `ContentType::parse`. Claims it accepts the two image types the
/// library attaches (both are well-formed MIME types).
#[verifier::external_body]
fn content_type(mime: &str) -> (r: Result<ContentType, String>)
    ensures
        (mime@ == "image/png"@ || mime@ == "image/jpeg"@) ==> r is Ok,
{
    ContentType::parse(mime).map_err(|e| e.to_string())
}

/// Calls `SinglePart::plain`: a UTF-8 text part.
#[verifier::external_body]
fn plain_part(text: String) -> SinglePart {
    SinglePart::plain(text)
}

/// Calls `Attachment::new(filename).body(bytes, content_type)`: an
/// attachment part.
#[verifier::external_body]
fn attachment_part(filename: String, bytes: Vec<u8>, content_type: ContentType) -> SinglePart {
    Attachment::new(filename).body(bytes, content_type)
}

/// Calls `MultiPart::mixed().singlepart(first)`: a `multipart/mixed` body
/// starting with `first`.
#[verifier::external_body]
fn mixed_part(first: SinglePart) -> MultiPart {
    MultiPart::mixed().singlepart(first)
}

/// Calls `MultiPart::singlepart`: `body` with `part` appended.
#[verifier::external_body]
fn add_part(body: MultiPart, part: SinglePart) -> MultiPart {
    body.singlepart(part)
}

/// Calls `Message::builder().from(from).to(to).subject(subject)
/// .multipart(body)`. Claims success: with exactly one sender and one
/// recipient, the builder's checks (missing or several senders, no
/// recipient) all pass; the date header is set to the current time.
#[verifier::external_body]
fn assemble(from: Mailbox, to: Mailbox, subject: String, body: MultiPart) -> (r: Result<
    Message,
    String,
>)
    ensures
        r is Ok,
{
    Message::builder().from(from).to(to).subject(subject).multipart(body).map_err(
        |e| e.to_string(),
    )
}

/// The message to send: the plain-text body first, then one attachment per
/// screenshot, from the sender to the recipient under the subject.
pub fn mail(
    from: ParsedMailbox,
    to: ParsedMailbox,
    subject: String,
    body: String,
    attachments: Vec<(String, String, Vec<u8>)>,
) -> (r: Result<Message, String>)
    ensures
        (forall|i: int|
            0 <= i < attachments@.len() ==> (#[trigger] attachments@[i]).1@ == "image/png"@
                || attachments@[i].1@ == "image/jpeg"@) ==> r is Ok,
{
    let mut multipart = mixed_part(plain_part(body));
    let ghost all = attachments@;
    let n = attachments.len();
    let mut rest = attachments;
    let mut k: usize = 0;
    while rest.len() > 0
        invariant
            k <= all.len(),
            rest@ == all.skip(k as int),
            forall|i: int|
                0 <= i < attachments@.len() ==> (#[trigger] attachments@[i]) == all[i],
            all.len() == attachments@.len(),
            all.len() == n,
        decreases rest@.len(),
    {
        assert(rest@.len() == all.len() - k);
        let (filename, mime, bytes) = rest.remove(0);
        proof {
            assert(all.skip(k as int)[0] == all[k as int]);
            assert(all.skip(k as int).remove(0) == all.skip(k + 1));
        }
        let ct = match content_type(mime.as_str()) {
            Ok(ct) => ct,
            Err(e) => {
                assert(attachments@[k as int] == all[k as int]);
                assert(mime@ == all[k as int].1@);
                return Err(e);
            },
        };
        multipart = add_part(multipart, attachment_part(filename, bytes, ct));
        k += 1;
    }
    assemble(from.into_mailbox(), to.into_mailbox(), subject, multipart)
}

} // verus!
