//! The records and events the engine hands to its consumers.

use vstd::prelude::*;

verus! {

/// `serde_json::Value`: free-form metadata attached to a chat message. The
/// engine never looks inside; it only carries the value along.
#[verifier::external_type_specification]
#[verifier::external_body]
pub struct ExJsonValue(serde_json::Value);

#[derive(Debug, Clone, Copy, PartialEq, Eq, Structural)]
pub enum MessageKind {
    Privmsg,
    Action,
    Notice,
    Join,
    Part,
    Quit,
    Nick,
    Topic,
    Info,
    Error,
}

/// One entry of a conversation's history.
#[derive(Debug, Clone, PartialEq)]
pub struct ChatMessage {
    pub connection_id: String,
    pub target: String,
    pub sender: Option<String>,
    pub message: String,
    pub kind: MessageKind,
    pub timestamp: i64,
    pub metadata: Option<serde_json::Value>,
}

pub ghost struct ChatMessageView {
    pub connection_id: Seq<char>,
    pub target: Seq<char>,
    pub sender: Option<Seq<char>>,
    pub message: Seq<char>,
    pub kind: MessageKind,
    pub timestamp: i64,
    pub metadata: Option<serde_json::Value>,
}

impl DeepView for ChatMessage {
    type V = ChatMessageView;

    open spec fn deep_view(&self) -> ChatMessageView {
        ChatMessageView {
            connection_id: self.connection_id@,
            target: self.target@,
            sender: self.sender.deep_view(),
            message: self.message@,
            kind: self.kind,
            timestamp: self.timestamp,
            metadata: self.metadata,
        }
    }
}

impl View for ChatMessage {
    type V = ChatMessageView;

    open spec fn view(&self) -> ChatMessageView {
        self.deep_view()
    }
}

/// A channel member and the roles its name-list sigils granted.
#[derive(Debug, Clone, PartialEq, Eq)]
pub struct ChannelUserInfo {
    pub nick: String,
    pub modes: Vec<String>,
}

pub ghost struct ChannelUserView {
    pub nick: Seq<char>,
    pub modes: Seq<Seq<char>>,
}

impl DeepView for ChannelUserInfo {
    type V = ChannelUserView;

    open spec fn deep_view(&self) -> ChannelUserView {
        ChannelUserView { nick: self.nick@, modes: self.modes.deep_view() }
    }
}

impl View for ChannelUserInfo {
    type V = ChannelUserView;

    open spec fn view(&self) -> ChannelUserView {
        self.deep_view()
    }
}

/// What the engine reports to the user interface.
#[derive(Debug, Clone, PartialEq)]
pub enum IrcEvent {
    Connected { connection_id: String, nickname: String, server: String, message: Option<String> },
    Disconnected { connection_id: String, reason: Option<String> },
    Message { data: ChatMessage },
    Names { connection_id: String, channel: String, users: Vec<ChannelUserInfo> },
    Topic { connection_id: String, channel: String, topic: String, setter: Option<String> },
    Error { connection_id: String, message: String },
}

pub ghost enum IrcEventView {
    Connected {
        connection_id: Seq<char>,
        nickname: Seq<char>,
        server: Seq<char>,
        message: Option<Seq<char>>,
    },
    Disconnected { connection_id: Seq<char>, reason: Option<Seq<char>> },
    Message { data: ChatMessageView },
    Names { connection_id: Seq<char>, channel: Seq<char>, users: Seq<ChannelUserView> },
    Topic {
        connection_id: Seq<char>,
        channel: Seq<char>,
        topic: Seq<char>,
        setter: Option<Seq<char>>,
    },
    Error { connection_id: Seq<char>, message: Seq<char> },
}

impl DeepView for IrcEvent {
    type V = IrcEventView;

    open spec fn deep_view(&self) -> IrcEventView {
        match *self {
            IrcEvent::Connected { connection_id, nickname, server, message } => {
                IrcEventView::Connected {
                    connection_id: connection_id@,
                    nickname: nickname@,
                    server: server@,
                    message: message.deep_view(),
                }
            },
            IrcEvent::Disconnected { connection_id, reason } => IrcEventView::Disconnected {
                connection_id: connection_id@,
                reason: reason.deep_view(),
            },
            IrcEvent::Message { data } => IrcEventView::Message { data: data@ },
            IrcEvent::Names { connection_id, channel, users } => IrcEventView::Names {
                connection_id: connection_id@,
                channel: channel@,
                users: users.deep_view(),
            },
            IrcEvent::Topic { connection_id, channel, topic, setter } => IrcEventView::Topic {
                connection_id: connection_id@,
                channel: channel@,
                topic: topic@,
                setter: setter.deep_view(),
            },
            IrcEvent::Error { connection_id, message } => IrcEventView::Error {
                connection_id: connection_id@,
                message: message@,
            },
        }
    }
}

impl View for IrcEvent {
    type V = IrcEventView;

    open spec fn view(&self) -> IrcEventView {
        self.deep_view()
    }
}

} // verus!
