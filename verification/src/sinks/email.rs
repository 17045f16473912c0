//! SMTP email sink: settings checks, the password rule, and the message a
//! batch becomes. Sending it over SMTP is the transport's job.

use vstd::prelude::*;

use crate::config::EmailConfig;
use crate::error::CoreError;
use crate::sinks::{Sink, SinkKind};
use crate::store::CaptureRow;
use crate::text::{has_suffix, int_text, owned, push_char, push_str, u64_text, i64_text};
use crate::sinks::mail::{mail, mailbox_refusal, parse_mailbox, ParsedMailbox};
use lettre::Message;

verus! {

pub struct EmailSink {
    pub config: EmailConfig,
}

/// A delivery failure reported by the email sink.
pub open spec fn email_error(e: CoreError, message: Seq<char>) -> bool {
    e matches CoreError::Delivery { sink, message: m } && sink@ == "email"@ && m@ == message
}

/// The file name an attachment gets: the capture file's own name, else
/// `capture_<id>.jpg`.
pub open spec fn attachment_name(file_name: Option<Seq<char>>, id: i64) -> Seq<char> {
    match file_name {
        Some(f) => f,
        None => "capture_"@ + int_text(id as int) + ".jpg"@,
    }
}

/// PNG files are sent as PNG, everything else as JPEG.
pub open spec fn mime_for(file_name: Seq<char>) -> Seq<char> {
    if has_suffix(file_name, ".png"@) {
        "image/png"@
    } else {
        "image/jpeg"@
    }
}

/// One attached screenshot.
pub struct EmailAttachment {
    pub filename: String,
    pub mime: String,
    pub bytes: Vec<u8>,
}

/// A message ready for the SMTP transport.
pub struct EmailMessage {
    pub from: ParsedMailbox,
    pub to: ParsedMailbox,
    pub subject: String,
    pub body: String,
    pub attachments: Vec<EmailAttachment>,
}

/// Every attachment is a PNG or a JPEG.
pub open spec fn image_attachments(a: Seq<EmailAttachment>) -> bool {
    forall|i: int|
        0 <= i < a.len() ==> (#[trigger] a[i]).mime@ == "image/png"@ || a[i].mime@
            == "image/jpeg"@
}

impl EmailMessage {
    /// The `lettre` message to send: the body text first, then the
    /// attachments in order. It is always made when every attachment is an
    /// image, as every attachment the sink makes is.
    pub fn into_mail(self) -> (r: Result<Message, CoreError>)
        ensures
            image_attachments(self.attachments@) ==> r is Ok,
            r matches Err(e) ==> (e matches CoreError::Delivery { sink, .. } && sink@ == "email"@),
    {
        let ghost all = self.attachments@;
        let n = self.attachments.len();
        let mut parts: Vec<(String, String, Vec<u8>)> = Vec::new();
        let mut rest = self.attachments;
        let mut k: usize = 0;
        while rest.len() > 0
            invariant
                k <= all.len(),
                rest@ == all.skip(k as int),
                parts@.len() == k,
                forall|i: int| 0 <= i < k ==> (#[trigger] parts@[i]).1@ == all[i].mime@,
                all.len() == n,
            decreases rest@.len(),
        {
            assert(rest@.len() == all.len() - k);
            let a = rest.remove(0);
            proof {
                assert(all.skip(k as int)[0] == all[k as int]);
                assert(all.skip(k as int).remove(0) == all.skip(k + 1));
            }
            parts.push((a.filename, a.mime, a.bytes));
            k += 1;
        }
        match mail(self.from, self.to, self.subject, self.body, parts) {
            Ok(m) => Ok(m),
            Err(e) => {
                let mut text = owned("mime: ");
                push_str(&mut text, e.as_str());
                Err(err(text.as_str()))
            },
        }
    }
}

/// The subject line: app name and time stamp, with the shot count when a
/// batch holds more than one.
pub open spec fn subject_text(stamp: Seq<char>, count: nat) -> Seq<char> {
    "Screeny — "@ + stamp + if count > 1 {
        " ("@ + int_text(count as int) + " shots)"@
    } else {
        Seq::empty()
    }
}

/// The plain-text body.
pub open spec fn body_text(stamp: Seq<char>, count: nat) -> Seq<char> {
    "Automated screen archive from Screeny.\nCaptured: "@ + stamp + "\nScreenshots attached: "@
        + int_text(count as int) + "\n"@
}

/// Subject of the message the "Send test" button sends.
pub const TEST_SUBJECT: &'static str = "Screeny test message";

/// Body of the message the "Send test" button sends.
pub const TEST_BODY: &'static str = "Screeny email delivery is configured correctly. 🎉";

fn err(message: &str) -> (e: CoreError)
    ensures
        email_error(e, message@),
{
    CoreError::Delivery { sink: owned("email"), message: owned(message) }
}

/// Whether `s` ends with `p` (`str::ends_with`).
fn ends_with(s: &str, p: &str) -> (b: bool)
    ensures
        b == has_suffix(s@, p@),
{
    let v = crate::text::chars_of(s);
    let w = crate::text::chars_of(p);
    let b = crate::text::ends_with_at(&v, 0, v.len(), &w);
    proof {
        assert(v@.subrange(0, v.len() as int) == v@);
        if w.len() <= v.len() {
            assert(v@.subrange(v.len() - w.len(), v.len() as int) == v@.skip(v.len() - w.len()));
        }
    }
    b
}

/// The name a capture's image is uploaded under: its file's own name (when
/// the path has one), else `capture_<id>.jpg`.
pub fn upload_name(file_name: Option<String>, id: i64) -> (r: String)
    ensures
        r@ == attachment_name(crate::config::opt_string_view(file_name), id),
{
    match file_name {
        Some(f) => f,
        None => {
            let mut f = owned("capture_");
            let n = i64_text(id);
            push_str(&mut f, n.as_str());
            push_str(&mut f, ".jpg");
            f
        },
    }
}

/// The attachment for one capture, given its file's name (when the path
/// has one) and its bytes.
pub fn attachment_for(file_name: Option<String>, id: i64, bytes: Vec<u8>) -> (r: EmailAttachment)
    ensures
        r.filename@ == attachment_name(crate::config::opt_string_view(file_name), id),
        r.mime@ == mime_for(r.filename@),
        r.bytes@ == bytes@,
{
    let filename = upload_name(file_name, id);
    let mime = if ends_with(filename.as_str(), ".png") {
        owned("image/png")
    } else {
        owned("image/jpeg")
    };
    EmailAttachment { filename, mime, bytes }
}

/// The sender and recipient mailboxes of the settings: the sender is checked
/// first.
pub fn addresses(config: &EmailConfig) -> (r: Result<(ParsedMailbox, ParsedMailbox), CoreError>)
    ensures
        mailbox_refusal(config.from@) matches Some(m) ==> (r matches Err(e) && email_error(
            e,
            "invalid from address: "@ + m,
        )),
        mailbox_refusal(config.from@) is None && mailbox_refusal(config.to@) is Some ==> (r matches Err(
            e,
        ) && email_error(e, "invalid to address: "@ + mailbox_refusal(config.to@)->0)),
        r is Ok <==> (mailbox_refusal(config.from@) is None && mailbox_refusal(config.to@) is None),
        r matches Ok(p) ==> p.0@ == config.from@ && p.1@ == config.to@,
{
    let from = match parse_mailbox(config.from.as_str()) {
        Ok(m) => m,
        Err(e) => {
            let mut m = owned("invalid from address: ");
            push_str(&mut m, e.as_str());
            return Err(err(m.as_str()));
        },
    };
    let to = match parse_mailbox(config.to.as_str()) {
        Ok(m) => m,
        Err(e) => {
            let mut m = owned("invalid to address: ");
            push_str(&mut m, e.as_str());
            return Err(err(m.as_str()));
        },
    };
    Ok((from, to))
}

impl EmailSink {
    pub fn new(config: EmailConfig) -> (r: EmailSink)
        ensures
            r.config == config,
    {
        EmailSink { config }
    }

    /// The settings needed to send: host, user, sender and recipient.
    pub fn validate(&self) -> (r: Result<(), CoreError>)
        ensures
            self.config.smtp_host@.len() == 0 ==> (r matches Err(e) && email_error(
                e,
                "SMTP host is empty"@,
            )),
            self.config.smtp_host@.len() > 0 && self.config.username@.len() == 0 ==> (r matches Err(
                e,
            ) && email_error(e, "SMTP username is empty"@)),
            self.config.smtp_host@.len() > 0 && self.config.username@.len() > 0 && (
            self.config.from@.len() == 0 || self.config.to@.len() == 0) ==> (r matches Err(e)
                && email_error(e, "from/to addresses must be set"@)),
            r is Ok <==> (self.config.smtp_host@.len() > 0 && self.config.username@.len() > 0
                && self.config.from@.len() > 0 && self.config.to@.len() > 0),
    {
        if self.config.smtp_host.as_str().is_empty() {
            return Err(err("SMTP host is empty"));
        }
        if self.config.username.as_str().is_empty() {
            return Err(err("SMTP username is empty"));
        }
        if self.config.from.as_str().is_empty() || self.config.to.as_str().is_empty() {
            return Err(err("from/to addresses must be set"));
        }
        Ok(())
    }

    /// The SMTP password from a keychain lookup. App passwords are often
    /// shown with spaces; those are removed. A failed lookup is passed on;
    /// a missing or blank password is an error.
    pub fn password(found: Result<Option<String>, CoreError>) -> (r: Result<String, CoreError>)
        ensures
            found matches Err(e) ==> r == Err::<String, CoreError>(e),
            found matches Ok(v) ==> match v {
                Some(p) if without_spaces(p@).len() > 0 => (r matches Ok(q) && q@ == without_spaces(
                    p@,
                )),
                _ => (r matches Err(e) && email_error(
                    e,
                    "no SMTP password saved — set one in Settings"@,
                )),
            },
    {
        match found {
            Err(e) => Err(e),
            Ok(None) => Err(err("no SMTP password saved — set one in Settings")),
            Ok(Some(p)) => {
                let q = remove_spaces(p.as_str());
                if q.as_str().is_empty() {
                    Err(err("no SMTP password saved — set one in Settings"))
                } else {
                    Ok(q)
                }
            },
        }
    }

    /// The message for a batch: sender and recipient from the settings,
    /// subject and body stamped with the capture time, and one attachment per
    /// capture that has image bytes (`parts` pairs each capture's file name
    /// with its bytes). Fails when an address does not parse.
    pub fn build_message(
        &self,
        batch: &Vec<CaptureRow>,
        parts: Vec<(Option<String>, Vec<u8>)>,
        stamp: &str,
    ) -> (r: Result<EmailMessage, CoreError>)
        ensures
            mailbox_refusal(self.config.from@) matches Some(x) ==> (r matches Err(e)
                && email_error(e, "invalid from address: "@ + x)),
            mailbox_refusal(self.config.from@) is None && mailbox_refusal(self.config.to@) is Some
                ==> (r matches Err(e) && email_error(
                e,
                "invalid to address: "@ + mailbox_refusal(self.config.to@)->0,
            )),
            r is Ok <==> (mailbox_refusal(self.config.from@) is None && mailbox_refusal(
                self.config.to@,
            ) is None),
            r matches Ok(m) ==> {
                &&& m.from@ == self.config.from@
                &&& m.to@ == self.config.to@
                &&& image_attachments(m.attachments@)
                &&& m.subject@ == subject_text(stamp@, batch@.len())
                &&& m.body@ == body_text(stamp@, batch@.len())
                &&& m.attachments@.len() == if batch@.len() < parts@.len() {
                    batch@.len()
                } else {
                    parts@.len()
                }
                &&& forall|i: int|
                    0 <= i < m.attachments@.len() ==> {
                        &&& (#[trigger] m.attachments@[i]).filename@ == attachment_name(
                            crate::config::opt_string_view(parts@[i].0),
                            batch@[i].id,
                        )
                        &&& m.attachments@[i].mime@ == mime_for(m.attachments@[i].filename@)
                        &&& m.attachments@[i].bytes@ == parts@[i].1@
                    }
            },
    {
        let (from, to) = match addresses(&self.config) {
            Ok(pair) => pair,
            Err(e) => return Err(e),
        };
        let count = batch.len();
        let count_text = u64_text(count as u64);
        let mut subject = owned("Screeny — ");
        push_str(&mut subject, stamp);
        if count > 1 {
            push_str(&mut subject, " (");
            push_str(&mut subject, count_text.as_str());
            push_str(&mut subject, " shots)");
        }
        let mut body = owned("Automated screen archive from Screeny.\nCaptured: ");
        push_str(&mut body, stamp);
        push_str(&mut body, "\nScreenshots attached: ");
        push_str(&mut body, count_text.as_str());
        push_str(&mut body, "\n");
        let n = if count < parts.len() {
            count
        } else {
            parts.len()
        };
        let ghost parts0 = parts@;
        let mut rest = parts;
        let mut attachments: Vec<EmailAttachment> = Vec::new();
        let mut i: usize = 0;
        while i < n
            invariant
                n <= batch@.len(),
                n <= parts0.len(),
                i <= n,
                rest@ == parts0.skip(i as int),
                attachments@.len() == i,
                forall|k: int|
                    0 <= k < i ==> {
                        &&& (#[trigger] attachments@[k]).filename@ == attachment_name(
                            crate::config::opt_string_view(parts0[k].0),
                            batch@[k].id,
                        )
                        &&& attachments@[k].mime@ == mime_for(attachments@[k].filename@)
                        &&& attachments@[k].bytes@ == parts0[k].1@
                    },
            decreases n - i,
        {
            let (name, bytes) = rest.remove(0);
            proof {
                assert(parts0.skip(i as int)[0] == parts0[i as int]);
                assert(parts0.skip(i as int).remove(0) == parts0.skip(i + 1));
            }
            let a = attachment_for(name, batch[i].id, bytes);
            attachments.push(a);
            i += 1;
        }
        Ok(EmailMessage { from, to, subject, body, attachments })
    }
}

impl Sink for EmailSink {
    fn kind(&self) -> (k: SinkKind)
        ensures
            k == SinkKind::Email,
    {
        SinkKind::Email
    }

    /// Screenshots bundled per email: the configured size, at least one.
    fn batch_size(&self) -> (n: usize)
        ensures
            n == if self.config.batch_size < 1 {
                1
            } else {
                self.config.batch_size as int
            },
    {
        if self.config.batch_size < 1 {
            1
        } else {
            self.config.batch_size as usize
        }
    }
}

/// `s` with every space removed.
pub open spec fn without_spaces(s: Seq<char>) -> Seq<char>
    decreases s.len(),
{
    if s.len() == 0 {
        Seq::empty()
    } else if s.last() == ' ' {
        without_spaces(s.drop_last())
    } else {
        without_spaces(s.drop_last()).push(s.last())
    }
}

fn remove_spaces(s: &str) -> (r: String)
    ensures
        r@ == without_spaces(s@),
{
    let mut r = String::new();
    for c in it: s.chars()
        invariant
            it.seq() == s@,
            r@ == without_spaces(it.seq().take(it.index() as int)),
    {
        proof {
            assert(it.seq().take(it.index() + 1).drop_last() == it.seq().take(it.index() as int));
        }
        if c != ' ' {
            push_char(&mut r, c);
        }
    }
    proof {
        assert(s@.take(s@.len() as int) == s@);
    }
    r
}

} // verus!
