//! Telegram Bot API sink: settings checks, reply handling, chat discovery,
//! and the text and photos a batch becomes. The HTTP calls are the
//! transport's job.

use vstd::prelude::*;

use crate::config::{ContentMode, TelegramConfig};
use crate::error::CoreError;
use crate::llm::Analysis;
use crate::sinks::{DeliveryItem, Sink, SinkKind};
use crate::text::{
    clock_of, clock_part, has_suffix, i64_text, int_text, owned, push_str, take_chars, trim,
    trimmed,
};

verus! {

/// Telegram rejects photos above ~10MB; larger files go as documents.
pub const PHOTO_LIMIT_BYTES: usize = 9_500_000;

/// Longest caption Telegram accepts, in characters.
pub const CAPTION_LIMIT: usize = 1024;

/// Longest message Telegram accepts, in characters.
pub const MESSAGE_LIMIT: usize = 4096;

pub const TEST_MESSAGE: &'static str = "Screeny is connected to this chat. 🎉";

pub struct TelegramSink {
    pub config: TelegramConfig,
    /// Base URL override for tests; production uses api.telegram.org.
    pub base_url: String,
}

/// A delivery failure reported by the Telegram sink.
pub open spec fn telegram_error(e: CoreError, message: Seq<char>) -> bool {
    e matches CoreError::Delivery { sink, message: m } && sink@ == "telegram"@ && m@ == message
}

fn err(message: &str) -> (e: CoreError)
    ensures
        telegram_error(e, message@),
{
    CoreError::Delivery { sink: owned("telegram"), message: owned(message) }
}

/// The envelope every Bot API reply comes in.
pub struct ApiReply<T> {
    pub ok: bool,
    pub description: Option<String>,
    pub result: Option<T>,
}

/// A chat seen in the bot's updates.
pub struct ChatInfo {
    pub id: i64,
    pub username: Option<String>,
    pub title: Option<String>,
    pub first_name: Option<String>,
}

/// A chat the bot has recently seen — used by the "detect chat ID" helper.
#[derive(Debug, Clone)]
pub struct DiscoveredChat {
    pub id: i64,
    pub label: String,
}

/// How a photo is uploaded.
pub struct PhotoRequest {
    /// `sendPhoto`, or `sendDocument` for files too large for a photo.
    pub method: String,
    /// The multipart field the file goes in.
    pub field: String,
    pub mime: String,
    /// The caption, left out when empty.
    pub caption: Option<String>,
}

/// What one capture becomes.
pub enum TelegramSend {
    /// A text message.
    Text(String),
    /// The capture's image, with a caption (possibly empty).
    Image { caption: String },
}

/// A chat's label: `@username`, else its title, else the first name, else
/// its id.
pub open spec fn chat_label(c: ChatInfo) -> Seq<char> {
    match c.username {
        Some(u) => "@"@ + u@,
        None => match c.title {
            Some(t) => t@,
            None => match c.first_name {
                Some(f) => f@,
                None => int_text(c.id as int),
            },
        },
    }
}

/// An id occurs among the chats found so far.
pub open spec fn has_chat(found: Seq<(i64, Seq<char>)>, id: i64) -> bool {
    exists|k: int| 0 <= k < found.len() && #[trigger] found[k].0 == id
}

/// The chats in a run of updates: one per chat id, in order of first
/// appearance, labelled from that first appearance; updates without a
/// message are skipped.
pub open spec fn discovered(updates: Seq<Option<ChatInfo>>) -> Seq<(i64, Seq<char>)>
    decreases updates.len(),
{
    if updates.len() == 0 {
        Seq::empty()
    } else {
        let prev = discovered(updates.drop_last());
        match updates.last() {
            None => prev,
            Some(c) => if has_chat(prev, c.id) {
                prev
            } else {
                prev.push((c.id, chat_label(c)))
            },
        }
    }
}

/// Law: chat discovery lists every chat id at most once, and every chat
/// that sent a message is listed.
pub proof fn lemma_discovered_dedupes(updates: Seq<Option<ChatInfo>>)
    ensures
        forall|a: int, b: int|
            0 <= a < b < discovered(updates).len() ==> #[trigger] discovered(updates)[a].0
                != #[trigger] discovered(updates)[b].0,
        forall|i: int|
            0 <= i < updates.len() && #[trigger] updates[i] is Some ==> has_chat(
                discovered(updates),
                updates[i]->0.id,
            ),
    decreases updates.len(),
{
    if updates.len() > 0 {
        let init = updates.drop_last();
        lemma_discovered_dedupes(init);
        let prev = discovered(init);
        let cur = discovered(updates);
        assert forall|i: int|
            0 <= i < updates.len() && #[trigger] updates[i] is Some implies has_chat(
            cur,
            updates[i]->0.id,
        ) by {
            if i < updates.len() - 1 {
                assert(init[i] == updates[i]);
                let k = choose|k: int| 0 <= k < prev.len() && #[trigger] prev[k].0 == updates[i]->0.id;
                assert(cur[k].0 == updates[i]->0.id);
            } else {
                if !has_chat(prev, updates[i]->0.id) {
                    assert(cur[prev.len() as int].0 == updates[i]->0.id);
                }
            }
        }
    }
}

/// The text sent for a capture in analysis mode: its clock time and the
/// description, plus the on-screen text when there is some.
pub open spec fn analysis_text_of(taken_at: Seq<char>, analysis: Option<Analysis>) -> Seq<char> {
    let time = clock_of(taken_at);
    match analysis {
        Some(a) => "🖥 "@ + time + " — "@ + a.description@ + if a.ocr_text@.len() > 0 {
            "\n\nOn-screen text:\n"@ + a.ocr_text@
        } else {
            Seq::empty()
        },
        None => "🖥 "@ + time + " — capture (no AI analysis available)"@,
    }
}

/// The first `n` characters of `s`, or all of it when shorter.
pub open spec fn first_chars(s: Seq<char>, n: nat) -> Seq<char> {
    if s.len() <= n {
        s
    } else {
        s.take(n as int)
    }
}

impl Sink for TelegramSink {
    fn kind(&self) -> (k: SinkKind)
        ensures
            k == SinkKind::Telegram,
    {
        SinkKind::Telegram
    }
}

impl TelegramSink {
    pub fn new(config: TelegramConfig) -> (r: TelegramSink)
        ensures
            r.config == config,
            r.base_url@ == "https://api.telegram.org"@,
    {
        TelegramSink { config, base_url: owned("https://api.telegram.org") }
    }

    pub fn with_base_url(config: TelegramConfig, base_url: String) -> (r: TelegramSink)
        ensures
            r.config == config,
            r.base_url == base_url,
    {
        TelegramSink { config, base_url }
    }

    /// The bot token from a keychain lookup, trimmed. A failed lookup is
    /// passed on; a missing or blank token is an error.
    pub fn token(found: Result<Option<String>, CoreError>) -> (r: Result<String, CoreError>)
        ensures
            found matches Err(e) ==> r == Err::<String, CoreError>(e),
            found matches Ok(v) ==> match v {
                Some(t) if trim(t@).len() > 0 => (r matches Ok(q) && q@ == trim(t@)),
                _ => (r matches Err(e) && telegram_error(
                    e,
                    "no bot token saved — set one in Settings"@,
                )),
            },
    {
        match found {
            Err(e) => Err(e),
            Ok(None) => Err(err("no bot token saved — set one in Settings")),
            Ok(Some(t)) => {
                let t = trimmed(t.as_str());
                if t.as_str().is_empty() {
                    Err(err("no bot token saved — set one in Settings"))
                } else {
                    Ok(t)
                }
            },
        }
    }

    /// A chat to send to is required.
    pub fn validate(&self) -> (r: Result<(), CoreError>)
        ensures
            self.config.chat_id@.len() == 0 ==> (r matches Err(e) && telegram_error(
                e,
                "chat ID is empty — use \"Detect chat ID\" in Settings"@,
            )),
            self.config.chat_id@.len() > 0 ==> r is Ok,
    {
        if self.config.chat_id.as_str().is_empty() {
            return Err(err("chat ID is empty — use \"Detect chat ID\" in Settings"));
        }
        Ok(())
    }

    /// The URL of a Bot API method.
    pub fn method_url(&self, token: &str, method: &str) -> (r: String)
        ensures
            r@ == self.base_url@ + "/bot"@ + token@ + "/"@ + method@,
    {
        let mut url = self.base_url.clone();
        push_str(&mut url, "/bot");
        push_str(&mut url, token);
        push_str(&mut url, "/");
        push_str(&mut url, method);
        url
    }

    /// The outcome of a Bot API call, given the HTTP status as text and the
    /// decoded reply (or why it could not be decoded): the API's own error
    /// description is surfaced when it refuses.
    pub fn check<T>(status: &str, reply: Result<ApiReply<T>, String>) -> (r: Result<T, CoreError>)
        ensures
            reply matches Err(e) ==> (r matches Err(x) && telegram_error(
                x,
                "bad response ("@ + status@ + "): "@ + e@,
            )),
            reply matches Ok(body) ==> {
                &&& !body.ok ==> (r matches Err(x) && telegram_error(
                    x,
                    match body.description {
                        Some(d) => d@,
                        None => "telegram API error ("@ + status@ + ")"@,
                    },
                ))
                &&& body.ok && body.result is None ==> (r matches Err(x) && telegram_error(
                    x,
                    "telegram API returned no result"@,
                ))
                &&& body.ok && body.result is Some ==> r == Ok::<T, CoreError>(body.result->0)
            },
    {
        match reply {
            Err(e) => {
                let mut m = owned("bad response (");
                push_str(&mut m, status);
                push_str(&mut m, "): ");
                push_str(&mut m, e.as_str());
                Err(err(m.as_str()))
            },
            Ok(body) => {
                if !body.ok {
                    let m = match body.description {
                        Some(d) => d,
                        None => {
                            let mut m = owned("telegram API error (");
                            push_str(&mut m, status);
                            push_str(&mut m, ")");
                            m
                        },
                    };
                    return Err(err(m.as_str()));
                }
                match body.result {
                    Some(v) => Ok(v),
                    None => Err(err("telegram API returned no result")),
                }
            },
        }
    }

    /// Message text, cut to the length Telegram accepts.
    pub fn message_text(text: &str) -> (r: String)
        ensures
            r@ == first_chars(text@, MESSAGE_LIMIT as nat),
    {
        take_chars(text, MESSAGE_LIMIT)
    }

    /// How an image of `byte_len` bytes named `filename` is uploaded with a
    /// caption: as a document when too large for a photo; PNG or JPEG by the
    /// name; the caption cut to the accepted length and left out when empty.
    pub fn photo_request(byte_len: usize, filename: &str, caption: &str) -> (r: PhotoRequest)
        ensures
            r.method@ == (if byte_len > PHOTO_LIMIT_BYTES {
                "sendDocument"@
            } else {
                "sendPhoto"@
            }),
            r.field@ == (if byte_len > PHOTO_LIMIT_BYTES {
                "document"@
            } else {
                "photo"@
            }),
            r.mime@ == crate::sinks::email::mime_for(filename@),
            caption@.len() == 0 ==> r.caption is None,
            caption@.len() > 0 ==> (r.caption matches Some(c) && c@ == first_chars(
                caption@,
                CAPTION_LIMIT as nat,
            )),
    {
        let large = byte_len > PHOTO_LIMIT_BYTES;
        let method = if large {
            owned("sendDocument")
        } else {
            owned("sendPhoto")
        };
        let field = if large {
            owned("document")
        } else {
            owned("photo")
        };
        let attachment = crate::sinks::email::attachment_for(Some(owned(filename)), 0, Vec::new());
        let cut = take_chars(caption, CAPTION_LIMIT);
        let caption = if cut.as_str().is_empty() {
            None
        } else {
            Some(cut)
        };
        PhotoRequest { method, field, mime: attachment.mime, caption }
    }

    /// The text sent for a capture in analysis mode.
    pub fn analysis_text(item: &DeliveryItem) -> (r: String)
        ensures
            r@ == analysis_text_of(item.capture.taken_at@, item.analysis),
    {
        let time = clock_part(item.capture.taken_at.as_str());
        let mut text = owned("🖥 ");
        push_str(&mut text, time);
        match &item.analysis {
            Some(analysis) => {
                push_str(&mut text, " — ");
                push_str(&mut text, analysis.description.as_str());
                if !analysis.ocr_text.as_str().is_empty() {
                    push_str(&mut text, "\n\nOn-screen text:\n");
                    push_str(&mut text, analysis.ocr_text.as_str());
                }
            },
            None => {
                push_str(&mut text, " — capture (no AI analysis available)");
            },
        }
        text
    }

    /// What a capture becomes under the configured content mode: a text
    /// message in analysis mode; otherwise its image, captioned with the
    /// description in "both" mode.
    pub fn item_send(&self, item: &DeliveryItem) -> (r: TelegramSend)
        ensures
            self.config.content == ContentMode::Analysis ==> (r matches TelegramSend::Text(t)
                && t@ == analysis_text_of(item.capture.taken_at@, item.analysis)),
            self.config.content == ContentMode::Image ==> (r matches TelegramSend::Image {
                caption,
            } && caption@.len() == 0),
            self.config.content == ContentMode::Both ==> (r matches TelegramSend::Image {
                caption,
            } && caption@ == match item.analysis {
                Some(a) => a.description@,
                None => Seq::<char>::empty(),
            }),
    {
        match self.config.content {
            ContentMode::Analysis => TelegramSend::Text(Self::analysis_text(item)),
            ContentMode::Image => TelegramSend::Image { caption: String::new() },
            ContentMode::Both => {
                let caption = match &item.analysis {
                    Some(a) => a.description.clone(),
                    None => String::new(),
                };
                TelegramSend::Image { caption }
            },
        }
    }

    /// List chats seen in the bot's recent updates (`None` for an update
    /// without a message). The user messages the bot once, clicks "Detect
    /// chat ID", and the id is read from there.
    pub fn discover_chats(updates: &Vec<Option<ChatInfo>>) -> (r: Vec<DiscoveredChat>)
        ensures
            r@.len() == discovered(updates@).len(),
            forall|k: int|
                0 <= k < r@.len() ==> (#[trigger] r@[k]).id == discovered(updates@)[k].0
                    && r@[k].label@ == discovered(updates@)[k].1,
    {
        let mut chats: Vec<DiscoveredChat> = Vec::new();
        let mut i: usize = 0;
        while i < updates.len()
            invariant
                i <= updates@.len(),
                chats@.len() == discovered(updates@.take(i as int)).len(),
                forall|k: int|
                    0 <= k < chats@.len() ==> (#[trigger] chats@[k]).id == discovered(
                        updates@.take(i as int),
                    )[k].0 && chats@[k].label@ == discovered(updates@.take(i as int))[k].1,
            decreases updates.len() - i,
        {
            let ghost prev = discovered(updates@.take(i as int));
            proof {
                assert(updates@.take(i + 1).drop_last() == updates@.take(i as int));
                assert(updates@.take(i + 1).last() == updates@[i as int]);
            }
            match &updates[i] {
                None => {},
                Some(chat) => {
                    let mut seen = false;
                    let mut k: usize = 0;
                    while k < chats.len()
                        invariant
                            k <= chats@.len(),
                            chats@.len() == prev.len(),
                            forall|m: int|
                                0 <= m < chats@.len() ==> (#[trigger] chats@[m]).id == prev[m].0,
                            seen <==> exists|m: int| 0 <= m < k && #[trigger] prev[m].0 == chat.id,
                        decreases chats.len() - k,
                    {
                        if chats[k].id == chat.id {
                            seen = true;
                        }
                        k += 1;
                    }
                    if !seen {
                        let label = match &chat.username {
                            Some(u) => {
                                let mut l = owned("@");
                                push_str(&mut l, u.as_str());
                                l
                            },
                            None => match &chat.title {
                                Some(t) => t.clone(),
                                None => match &chat.first_name {
                                    Some(f) => f.clone(),
                                    None => i64_text(chat.id),
                                },
                            },
                        };
                        chats.push(DiscoveredChat { id: chat.id, label });
                    }
                },
            }
            i += 1;
        }
        proof {
            assert(updates@.take(updates@.len() as int) == updates@);
        }
        chats
    }
}

} // verus!
