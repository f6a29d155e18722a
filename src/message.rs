//! The structured messages that travel in frames.

use vstd::prelude::*;

use crate::json::json_keys;

verus! {

/// What a message carries: text, or an image by address and size.
///
/// Image sizes are kept as the IEEE 754 bit patterns of their `f64` values;
/// nothing here computes with them.
pub enum Content {
    Text(String),
    Image { url: String, width_bits: u64, height_bits: u64 },
}

pub enum ContentView {
    Text(Seq<char>),
    Image { url: Seq<char>, width_bits: u64, height_bits: u64 },
}

impl View for Content {
    type V = ContentView;

    open spec fn view(&self) -> ContentView {
        match self {
            Content::Text(t) => ContentView::Text(t@),
            Content::Image { url, width_bits, height_bits } => ContentView::Image {
                url: url@,
                width_bits: *width_bits,
                height_bits: *height_bits,
            },
        }
    }
}

impl Content {
    /// A copy that is equal to `self`.
    pub fn duplicate(&self) -> (r: Content)
        ensures
            r == *self,
    {
        match self {
            Content::Text(t) => Content::Text(t.clone()),
            Content::Image { url, width_bits, height_bits } => Content::Image {
                url: url.clone(),
                width_bits: *width_bits,
                height_bits: *height_bits,
            },
        }
    }

    /// The text shown for this content: the text itself, or the image's address.
    pub fn display_text(&self) -> (r: &String)
        ensures
            r@ == match self@ {
                ContentView::Text(t) => t,
                ContentView::Image { url, .. } => url,
            },
    {
        match self {
            Content::Text(t) => t,
            Content::Image { url, .. } => url,
        }
    }
}

/// The first message of a client: the name it asks to be known by.
pub struct Handshake {
    pub token: String,
}

impl Handshake {
    pub fn new(token: String) -> (r: Self)
        ensures
            r.token == token,
    {
        Handshake { token }
    }
}

/// The server's answer to a handshake.
pub struct HandshakeReply {
    pub success: bool,
    pub message: Option<String>,
}

pub struct ReplyView {
    pub success: bool,
    pub message: Option<Seq<char>>,
}

pub open spec fn opt_view(s: Option<String>) -> Option<Seq<char>> {
    match s {
        Some(t) => Some(t@),
        None => None,
    }
}

impl View for HandshakeReply {
    type V = ReplyView;

    open spec fn view(&self) -> ReplyView {
        ReplyView { success: self.success, message: opt_view(self.message) }
    }
}

impl HandshakeReply {
    pub fn new(success: bool, message: Option<String>) -> (r: Self)
        ensures
            r.success == success,
            r.message == message,
    {
        HandshakeReply { success, message }
    }

    pub fn success(message: Option<String>) -> (r: Self)
        ensures
            r.success,
            r.message == message,
    {
        Self::new(true, message)
    }

    pub fn failed(message: Option<String>) -> (r: Self)
        ensures
            !r.success,
            r.message == message,
    {
        Self::new(false, message)
    }

    /// A failed reply that carries the description of `err`.
    pub fn error(err: &crate::payload::Error) -> (r: Self)
        ensures
            !r.success,
            r.message matches Some(m) && m@ == err.spec_describe(),
    {
        Self::failed(Some(err.describe()))
    }
}

/// A message that a client submits for delivery to `receiver`.
pub struct ClientMessage {
    pub content: Content,
    pub receiver: String,
}

impl ClientMessage {
    pub fn new(content: Content, receiver: String) -> (r: Self)
        ensures
            r.content == content,
            r.receiver == receiver,
    {
        ClientMessage { content, receiver }
    }
}

/// A message as the server delivers it, with both ends named.
pub struct ServerMessage {
    pub content: Content,
    pub sender: String,
    pub receiver: String,
}

pub struct ServerMessageView {
    pub content: ContentView,
    pub sender: Seq<char>,
    pub receiver: Seq<char>,
}

impl View for ServerMessage {
    type V = ServerMessageView;

    open spec fn view(&self) -> ServerMessageView {
        ServerMessageView { content: self.content@, sender: self.sender@, receiver: self.receiver@ }
    }
}

impl ServerMessage {
    pub fn new(content: Content, sender: String, receiver: String) -> (r: Self)
        ensures
            r.content == content,
            r.sender == sender,
            r.receiver == receiver,
    {
        ServerMessage { content, sender, receiver }
    }

    /// A copy that is equal to `self`.
    pub fn duplicate(&self) -> (r: ServerMessage)
        ensures
            r == *self,
    {
        ServerMessage {
            content: self.content.duplicate(),
            sender: self.sender.clone(),
            receiver: self.receiver.clone(),
        }
    }
}

/// The server's answer to a submitted message, or to a frame it could not read.
pub struct MessageReply {
    pub success: bool,
    pub message: Option<String>,
    pub extra: Option<serde_json::Map<String, serde_json::Value>>,
}

pub struct MessageReplyView {
    pub success: bool,
    pub message: Option<Seq<char>>,
    /// The keys of the extra data, if there is any.
    pub extra: Option<Set<Seq<char>>>,
}

impl View for MessageReply {
    type V = MessageReplyView;

    open spec fn view(&self) -> MessageReplyView {
        MessageReplyView {
            success: self.success,
            message: opt_view(self.message),
            extra: match self.extra {
                Some(m) => Some(json_keys(m)),
                None => None,
            },
        }
    }
}

impl MessageReply {
    pub fn new(
        success: bool,
        message: Option<String>,
        extra: Option<serde_json::Map<String, serde_json::Value>>,
    ) -> (r: Self)
        ensures
            r.success == success,
            r.message == message,
            r.extra == extra,
    {
        MessageReply { success, message, extra }
    }

    pub fn success(message: Option<String>) -> (r: Self)
        ensures
            r.success,
            r.message == message,
            r.extra is None,
    {
        Self::new(true, message, None)
    }

    pub fn failed(message: Option<String>) -> (r: Self)
        ensures
            !r.success,
            r.message == message,
            r.extra is None,
    {
        Self::new(false, message, None)
    }

    /// A failed reply that carries the description of `err`.
    pub fn error(err: &crate::payload::Error) -> (r: Self)
        ensures
            !r.success,
            r.message matches Some(m) && m@ == err.spec_describe(),
            r.extra is None,
    {
        Self::failed(Some(err.describe()))
    }

    /// Adds `key` to the extra data, making the extra data first if there is none.
    pub fn put_extra(&mut self, key: String, value: serde_json::Value) -> (r: &mut Self)
        ensures
            r.success == old(self).success,
            r.message == old(self).message,
            r@.extra == Some(
                match old(self)@.extra {
                    Some(keys) => keys.insert(key@),
                    None => Set::<Seq<char>>::empty().insert(key@),
                },
            ),
            *final(self) == *final(r),
    {
        let extra = self.get_or_new_extra();
        extra.insert(key, value);
        self
    }

    fn get_or_new_extra(&mut self) -> (r: &mut serde_json::Map<String, serde_json::Value>)
        ensures
            final(self).success == old(self).success,
            final(self).message == old(self).message,
            json_keys(*r) == match old(self)@.extra {
                Some(keys) => keys,
                None => Set::<Seq<char>>::empty(),
            },
            final(self).extra == Some(*final(r)),
    {
        if self.extra.is_none() {
            self.extra = Some(serde_json::Map::new());
        }
        self.extra.as_mut().unwrap()
    }
}

/// A keepalive probe from a client.
#[derive(Clone, Copy)]
pub struct Ping;

impl Ping {
    pub fn new() -> (r: Self) {
        Ping
    }
}

impl Default for Ping {
    fn default() -> (r: Self) {
        Ping
    }
}

/// The server's answer to a `Ping`.
#[derive(Clone, Copy)]
pub struct Pong;

impl Pong {
    pub fn new() -> (r: Self) {
        Pong
    }
}

impl Default for Pong {
    fn default() -> (r: Self) {
        Pong
    }
}

} // verus!
