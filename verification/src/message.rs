//! The message that goes to the webhook: a titled post whose body is one line
//! of runs, with a signature and its timestamp where the request is signed.

use vstd::prelude::*;
use crate::decimal::{decimal_digits, decimal_string};
use crate::segment::{highlighted, process_content_with_keywords, LarkTextContent, TextContentView};
use crate::sign::{generate_sign, signature};

verus! {

/// Title and body of a post. The body is a sequence of lines, each a
/// sequence of runs.
#[derive(Debug, Clone, PartialEq, Eq)]
pub struct LarkPostContent {
    pub title: String,
    pub content: Vec<Vec<LarkTextContent>>,
}

/// A post, keyed by locale.
#[derive(Debug, Clone, PartialEq, Eq)]
pub struct LarkPost {
    pub zh_cn: LarkPostContent,
}

/// The content of a message of type `post`.
#[derive(Debug, Clone, PartialEq, Eq)]
pub struct LarkContent {
    pub post: LarkPost,
}

/// A message as the webhook takes it. `sign` and `timestamp` are there
/// together, on a signed request, or not at all.
#[derive(Debug, Clone, PartialEq, Eq)]
pub struct LarkMessage {
    pub msg_type: String,
    pub content: LarkContent,
    pub sign: Option<String>,
    pub timestamp: Option<String>,
}

/// What a message holds, as sequences of characters.
pub ghost struct MessageView {
    pub msg_type: Seq<char>,
    pub title: Seq<char>,
    pub lines: Seq<Seq<TextContentView>>,
    pub sign: Option<Seq<char>>,
    pub timestamp: Option<Seq<char>>,
}

/// The characters of a string that may be absent.
pub open spec fn text_of(field: Option<String>) -> Option<Seq<char>> {
    match field {
        Some(text) => Some(text@),
        None => None,
    }
}

impl View for LarkMessage {
    type V = MessageView;

    open spec fn view(&self) -> MessageView {
        MessageView {
            msg_type: self.msg_type@,
            title: self.content.post.zh_cn.title@,
            lines: self.content.post.zh_cn.content.deep_view(),
            sign: text_of(self.sign),
            timestamp: text_of(self.timestamp),
        }
    }
}

/// An unsigned post with the title `title` and the one line `body`.
pub open spec fn unsigned_post(title: Seq<char>, body: Seq<TextContentView>) -> MessageView {
    MessageView { msg_type: "post"@, title, lines: seq![body], sign: None, timestamp: None }
}

/// `message` with the signature `sign`, made at `timestamp`.
pub open spec fn with_signature(message: MessageView, sign: Seq<char>, timestamp: u64) -> MessageView {
    MessageView {
        sign: Some(sign),
        timestamp: Some(decimal_digits(timestamp as nat)),
        ..message
    }
}

/// The message for a notification: a post with `title`, whose body is
/// `content` with `keywords` highlighted, signed at `timestamp` where a secret
/// is given and unsigned where none is.
pub open spec fn notification(
    title: Seq<char>,
    content: Seq<char>,
    keywords: Seq<Seq<char>>,
    secret: Option<Seq<char>>,
    timestamp: u64,
) -> MessageView {
    let post = unsigned_post(title, highlighted(content, keywords));
    match secret {
        Some(secret) => with_signature(post, signature(timestamp, secret), timestamp),
        None => post,
    }
}

/// A notification carries a signature exactly where a secret is given, and a
/// timestamp exactly where it carries a signature.
pub proof fn lemma_signed_iff_secret(
    title: Seq<char>,
    content: Seq<char>,
    keywords: Seq<Seq<char>>,
    secret: Option<Seq<char>>,
    timestamp: u64,
)
    ensures
        notification(title, content, keywords, secret, timestamp).sign is Some <==> secret is Some,
        notification(title, content, keywords, secret, timestamp).timestamp is Some
            <==> secret is Some,
{
}

/// Where the secret, if one is given, is not empty: a notification carries a
/// signature and a timestamp exactly where a non-empty secret is given.
pub proof fn lemma_signed_iff_nonempty_secret(
    title: Seq<char>,
    content: Seq<char>,
    keywords: Seq<Seq<char>>,
    secret: Option<Seq<char>>,
    timestamp: u64,
)
    requires
        secret matches Some(given) ==> given.len() > 0,
    ensures
        notification(title, content, keywords, secret, timestamp).sign is Some <==> (
        secret matches Some(given) && given.len() > 0),
        notification(title, content, keywords, secret, timestamp).timestamp is Some <==> (
        secret matches Some(given) && given.len() > 0),
{
}

impl LarkMessage {
    /// An unsigned post with the title `title` and the one line `body`.
    pub fn post(title: String, body: Vec<LarkTextContent>) -> (message: LarkMessage)
        ensures
            message@ == unsigned_post(title@, body.deep_view()),
    {
        let mut lines: Vec<Vec<LarkTextContent>> = Vec::new();
        lines.push(body);
        assert(lines.deep_view() =~= seq![body.deep_view()]);
        LarkMessage {
            msg_type: "post".to_owned(),
            content: LarkContent { post: LarkPost { zh_cn: LarkPostContent { title, content: lines } } },
            sign: None,
            timestamp: None,
        }
    }

    /// Puts the signature `sign`, made at `timestamp`, on the message, with
    /// the timestamp in decimal beside it. Nothing else changes.
    pub fn attach_signature(&mut self, sign: String, timestamp: u64)
        ensures
            final(self)@ == with_signature(old(self)@, sign@, timestamp),
    {
        self.sign = Some(sign);
        self.timestamp = Some(decimal_string(timestamp));
    }
}

/// Builds the message for a notification: a post with `title`, whose body is
/// `content` with `keywords` highlighted. Where `secret` is given, the message
/// is signed under it at `timestamp`, in seconds since the epoch; where none
/// is given, it carries neither signature nor timestamp.
pub fn build_message(
    title: String,
    content: &str,
    keywords: &[String],
    secret: Option<&str>,
    timestamp: u64,
) -> (message: LarkMessage)
    ensures
        message@ == notification(
            title@,
            content@,
            keywords.deep_view(),
            match secret {
                Some(given) => Some(given@),
                None => None,
            },
            timestamp,
        ),
        message.sign is Some <==> secret is Some,
        message.timestamp is Some <==> secret is Some,
{
    let body = process_content_with_keywords(content, keywords);
    let mut message = LarkMessage::post(title, body);
    match secret {
        Some(given) => {
            let sign = generate_sign(timestamp, given);
            message.attach_signature(sign, timestamp);
        },
        None => {},
    }
    message
}

} // verus!
