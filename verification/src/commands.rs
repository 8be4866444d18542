//! The requests of the command surface, and what each asks of the registry.

use crate::connection::{
    disconnect_outcome,
    has_id,
    outcome_view,
    position_of_id,
    routed,
    ConnectionConfig,
    ConnectionConfigView,
    ConnectionError,
    ConnectionManager,
};
use crate::messages::IrcEvent;
use crate::storage::log_path;
use vstd::prelude::*;

verus! {

/// A request to connect.
#[derive(Debug, Clone, PartialEq, Eq)]
pub struct ConnectArgs {
    pub server: String,
    pub port: u16,
    pub use_tls: bool,
    pub nickname: String,
    pub username: Option<String>,
    pub realname: Option<String>,
    pub password: Option<String>,
    pub auto_join: Vec<String>,
}

impl ConnectArgs {
    /// The configuration the request describes.
    pub open spec fn config(self) -> ConnectionConfigView {
        ConnectionConfigView {
            server: self.server@,
            port: self.port,
            use_tls: self.use_tls,
            nickname: self.nickname@,
            username: self.username.deep_view(),
            realname: self.realname.deep_view(),
            password: self.password.deep_view(),
            auto_join: self.auto_join.deep_view(),
        }
    }

    /// The configuration this request asks for, field by field.
    pub fn into_config(self) -> (config: ConnectionConfig)
        ensures
            config@ == self.config(),
    {
        ConnectionConfig {
            server: self.server,
            port: self.port,
            use_tls: self.use_tls,
            nickname: self.nickname,
            username: self.username,
            realname: self.realname,
            password: self.password,
            auto_join: self.auto_join,
        }
    }
}

/// A request to end a connection.
#[derive(Debug, Clone, PartialEq, Eq)]
pub struct DisconnectArgs {
    pub connection_id: String,
    pub reason: Option<String>,
}

impl DisconnectArgs {
    /// Ends the connection the request names; see
    /// [`ConnectionManager::disconnect`].
    pub fn run(self, manager: &mut ConnectionManager) -> (result: Result<IrcEvent, ConnectionError>)
        ensures
            !has_id(old(manager)@, self.connection_id@) ==> result == Err::<
                IrcEvent,
                ConnectionError,
            >(ConnectionError::NotFound) && final(manager)@ == old(manager)@,
            has_id(old(manager)@, self.connection_id@) ==> final(manager)@ == old(manager)@.remove(
                position_of_id(old(manager)@, self.connection_id@, 0),
            ) && exists|accepted: bool|
                outcome_view(result) == disconnect_outcome(
                    self.connection_id@,
                    self.reason.deep_view(),
                    accepted,
                ),
            final(manager).store() == old(manager).store(),
    {
        manager.disconnect(self.connection_id.as_str(), self.reason)
    }
}

/// A request to join a channel.
#[derive(Debug, Clone, PartialEq, Eq)]
pub struct JoinArgs {
    pub connection_id: String,
    pub channel: String,
}

impl JoinArgs {
    /// Routes the request to its connection.
    pub fn run(&self, manager: &ConnectionManager) -> (result: Result<(), ConnectionError>)
        ensures
            exists|accepted: bool| result == routed(manager@, self.connection_id@, accepted),
    {
        manager.join(self.connection_id.as_str(), self.channel.as_str())
    }
}

/// A request to leave a channel.
#[derive(Debug, Clone, PartialEq, Eq)]
pub struct PartArgs {
    pub connection_id: String,
    pub channel: String,
    pub reason: Option<String>,
}

impl PartArgs {
    /// Routes the request to its connection.
    pub fn run(self, manager: &ConnectionManager) -> (result: Result<(), ConnectionError>)
        ensures
            exists|accepted: bool| result == routed(manager@, self.connection_id@, accepted),
    {
        manager.part(self.connection_id.as_str(), self.channel.as_str(), self.reason)
    }
}

/// A request to send a message.
#[derive(Debug, Clone, PartialEq, Eq)]
pub struct SendMessageArgs {
    pub connection_id: String,
    pub target: String,
    pub message: String,
}

impl SendMessageArgs {
    /// Routes the request to its connection.
    pub fn run(&self, manager: &ConnectionManager) -> (result: Result<(), ConnectionError>)
        ensures
            exists|accepted: bool| result == routed(manager@, self.connection_id@, accepted),
    {
        manager.privmsg(self.connection_id.as_str(), self.target.as_str(), self.message.as_str())
    }
}

/// A request for the history of a conversation.
#[derive(Debug, Clone, PartialEq, Eq)]
pub struct ScrollbackArgs {
    pub connection_id: String,
    pub target: String,
    pub limit: Option<usize>,
}

impl ScrollbackArgs {
    /// The path of the log the request is about, one component per entry,
    /// or `NotFound` when no live connection has the identifier.
    pub fn log_file(&self, manager: &ConnectionManager) -> (result: Result<
        Vec<String>,
        ConnectionError,
    >)
        ensures
            match result {
                Ok(path) => has_id(manager@, self.connection_id@) && path.deep_view() == log_path(
                    manager.store()@,
                    manager@[position_of_id(manager@, self.connection_id@, 0)].storage_key,
                    self.target@,
                ),
                Err(error) => !has_id(manager@, self.connection_id@) && error
                    == ConnectionError::NotFound,
            },
    {
        match manager.get(self.connection_id.as_str()) {
            Some(handle) => Ok(
                manager.scrollback().target_path(handle.storage_key(), self.target.as_str()),
            ),
            None => Err(ConnectionError::NotFound),
        }
    }
}

/// A request to set or query a channel's topic.
#[derive(Debug, Clone, PartialEq, Eq)]
pub struct TopicArgs {
    pub connection_id: String,
    pub channel: String,
    pub topic: Option<String>,
}

impl TopicArgs {
    /// Routes the request to its connection.
    pub fn run(self, manager: &ConnectionManager) -> (result: Result<(), ConnectionError>)
        ensures
            exists|accepted: bool| result == routed(manager@, self.connection_id@, accepted),
    {
        manager.set_topic(self.connection_id.as_str(), self.channel.as_str(), self.topic)
    }
}

} // verus!
