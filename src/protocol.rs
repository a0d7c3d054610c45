//! The closed set of values exchanged between clients and the server.
use vstd::prelude::*;

verus! {

/// The answer of the server to a login request.
#[derive(Clone, Copy, Debug, PartialEq, Eq, Structural)]
pub enum ServerResponse {
    /// The credentials were accepted.
    LoginOk,
    /// The credentials were refused.
    LoginFailed,
}

/// What a chat message carries: plain text, a PNG image, or a named file.
#[derive(Clone, Debug, PartialEq, Eq)]
pub enum ChatMessageContent {
    Text(String),
    Image(Vec<u8>),
    File(String, Vec<u8>),
}

/// A message attributed to the user that sent it.
#[derive(Clone, Debug, PartialEq, Eq)]
pub struct ChatMessage {
    pub sender: String,
    pub content: ChatMessageContent,
}

/// One complete unit of the protocol.
#[derive(Clone, Debug, PartialEq, Eq)]
pub enum Datagram {
    Login { username: String, password: String },
    ServerResponse(ServerResponse),
    Message(ChatMessage),
}

/// The ways in which reading or writing a datagram fails.
#[derive(Clone, Copy, Debug, PartialEq, Eq, Structural)]
pub enum ChatProtocolError {
    /// The transport failed or the peer closed the connection.
    IOError,
    /// A whole frame arrived but its payload is not a datagram.
    MalformedMessage,
}

/// The ways in which reading or writing a bare chat message fails: those of a
/// datagram.
pub type MessageError = ChatProtocolError;

/// Mathematical value of a `ChatMessageContent`.
pub enum ContentModel {
    Text(Seq<char>),
    Image(Seq<u8>),
    File(Seq<char>, Seq<u8>),
}

/// Mathematical value of a `ChatMessage`.
pub struct MessageModel {
    pub sender: Seq<char>,
    pub content: ContentModel,
}

/// Mathematical value of a `Datagram`.
pub enum DatagramModel {
    Login { username: Seq<char>, password: Seq<char> },
    ServerResponse(ServerResponse),
    Message(MessageModel),
}

impl View for ChatMessageContent {
    type V = ContentModel;

    open spec fn view(&self) -> ContentModel {
        match self {
            ChatMessageContent::Text(t) => ContentModel::Text(t@),
            ChatMessageContent::Image(d) => ContentModel::Image(d@),
            ChatMessageContent::File(n, d) => ContentModel::File(n@, d@),
        }
    }
}

impl View for ChatMessage {
    type V = MessageModel;

    open spec fn view(&self) -> MessageModel {
        MessageModel { sender: self.sender@, content: self.content@ }
    }
}

impl View for Datagram {
    type V = DatagramModel;

    open spec fn view(&self) -> DatagramModel {
        match self {
            Datagram::Login { username, password } => DatagramModel::Login {
                username: username@,
                password: password@,
            },
            Datagram::ServerResponse(r) => DatagramModel::ServerResponse(*r),
            Datagram::Message(m) => DatagramModel::Message(m@),
        }
    }
}

impl ChatMessage {
    /// Builds a message from its sender and content.
    pub fn new(sender: String, content: ChatMessageContent) -> (r: ChatMessage)
        ensures
            r@ == (MessageModel { sender: sender@, content: content@ }),
    {
        ChatMessage { sender, content }
    }
}

} // verus!
