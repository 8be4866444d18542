//! Connection configuration, the commands a session accepts, and the
//! registry of live connections.

use crate::messages::{IrcEvent, IrcEventView};
use crate::storage::ScrollbackStore;
use crate::text::{copy_text, decimal, push_char, push_decimal, str_equal};
use tokio::sync::mpsc::{UnboundedReceiver, UnboundedSender};
use vstd::prelude::*;

verus! {

/// Everything needed to open one session. Its identity is
/// `server:port:nickname`, compared exactly.
#[derive(Debug, Clone, PartialEq, Eq)]
pub struct ConnectionConfig {
    pub server: String,
    pub port: u16,
    pub use_tls: bool,
    pub nickname: String,
    pub username: Option<String>,
    pub realname: Option<String>,
    pub password: Option<String>,
    pub auto_join: Vec<String>,
}

pub ghost struct ConnectionConfigView {
    pub server: Seq<char>,
    pub port: u16,
    pub use_tls: bool,
    pub nickname: Seq<char>,
    pub username: Option<Seq<char>>,
    pub realname: Option<Seq<char>>,
    pub password: Option<Seq<char>>,
    pub auto_join: Seq<Seq<char>>,
}

impl ConnectionConfigView {
    /// The address to connect to: `server:port`, the port in base ten.
    pub open spec fn address(self) -> Seq<char> {
        self.server + seq![':'] + decimal(self.port as nat)
    }

    /// The identity key `server:port:nickname`, the port in base ten.
    pub open spec fn storage_key(self) -> Seq<char> {
        self.server + seq![':'] + decimal(self.port as nat) + seq![':'] + self.nickname
    }
}

impl DeepView for ConnectionConfig {
    type V = ConnectionConfigView;

    open spec fn deep_view(&self) -> ConnectionConfigView {
        ConnectionConfigView {
            server: self.server@,
            port: self.port,
            use_tls: self.use_tls,
            nickname: self.nickname@,
            username: self.username.deep_view(),
            realname: self.realname.deep_view(),
            password: self.password.deep_view(),
            auto_join: self.auto_join.deep_view(),
        }
    }
}

impl View for ConnectionConfig {
    type V = ConnectionConfigView;

    open spec fn view(&self) -> ConnectionConfigView {
        self.deep_view()
    }
}

impl ConnectionConfig {
    /// The address of the server this configuration names.
    pub fn address(&self) -> (address: String)
        ensures
            address@ == self@.address(),
    {
        let mut address = self.server.clone();
        push_char(&mut address, ':');
        push_decimal(&mut address, self.port);
        assert(address@ =~= self@.address());
        address
    }

    /// The identity key of this configuration.
    pub fn storage_key(&self) -> (key: String)
        ensures
            key@ == self@.storage_key(),
    {
        let mut key = self.server.clone();
        push_char(&mut key, ':');
        push_decimal(&mut key, self.port);
        push_char(&mut key, ':');
        key.append(self.nickname.as_str());
        assert(key@ =~= self@.storage_key());
        key
    }

    /// A copy of this configuration.
    pub fn duplicate(&self) -> (copy: ConnectionConfig)
        ensures
            copy@ == self@,
    {
        let mut auto_join: Vec<String> = Vec::new();
        let mut i: usize = 0;
        while i < self.auto_join.len()
            invariant
                i <= self.auto_join.len(),
                auto_join.deep_view() =~= self.auto_join.deep_view().take(i as int),
            decreases self.auto_join.len() - i,
        {
            let ghost before = auto_join.deep_view();
            let channel = self.auto_join[i].clone();
            auto_join.push(channel);
            assert(auto_join.deep_view() =~= before.push(channel@));
            i += 1;
        }
        assert(self.auto_join.deep_view().take(self.auto_join.len() as int)
            =~= self.auto_join.deep_view());
        ConnectionConfig {
            server: self.server.clone(),
            port: self.port,
            use_tls: self.use_tls,
            nickname: self.nickname.clone(),
            username: copy_text(&self.username),
            realname: copy_text(&self.realname),
            password: copy_text(&self.password),
            auto_join,
        }
    }
}

/// What a caller may ask of a live session.
#[derive(Debug, Clone, PartialEq, Eq)]
pub enum ConnectionCommand {
    Join(String),
    Part { channel: String, reason: Option<String> },
    Privmsg { target: String, message: String },
    Topic { channel: String, topic: Option<String> },
    Quit { reason: Option<String> },
}

pub ghost enum ConnectionCommandView {
    Join(Seq<char>),
    Part { channel: Seq<char>, reason: Option<Seq<char>> },
    Privmsg { target: Seq<char>, message: Seq<char> },
    Topic { channel: Seq<char>, topic: Option<Seq<char>> },
    Quit { reason: Option<Seq<char>> },
}

impl DeepView for ConnectionCommand {
    type V = ConnectionCommandView;

    open spec fn deep_view(&self) -> ConnectionCommandView {
        match *self {
            ConnectionCommand::Join(channel) => ConnectionCommandView::Join(channel@),
            ConnectionCommand::Part { channel, reason } => ConnectionCommandView::Part {
                channel: channel@,
                reason: reason.deep_view(),
            },
            ConnectionCommand::Privmsg { target, message } => ConnectionCommandView::Privmsg {
                target: target@,
                message: message@,
            },
            ConnectionCommand::Topic { channel, topic } => ConnectionCommandView::Topic {
                channel: channel@,
                topic: topic.deep_view(),
            },
            ConnectionCommand::Quit { reason } => ConnectionCommandView::Quit {
                reason: reason.deep_view(),
            },
        }
    }
}

impl View for ConnectionCommand {
    type V = ConnectionCommandView;

    open spec fn view(&self) -> ConnectionCommandView {
        self.deep_view()
    }
}

/// `tokio::sync::mpsc::UnboundedSender`: the sending end of a session's
/// inbox. Opaque here; commands go in through [`deliver`].
#[verifier::external_type_specification]
#[verifier::external_body]
#[verifier::reject_recursive_types(T)]
pub struct ExUnboundedSender<T>(UnboundedSender<T>);

/// `tokio::sync::mpsc::UnboundedReceiver`: the receiving end of a session's
/// inbox. Opaque here; it is handed to whoever runs the session.
#[verifier::external_type_specification]
#[verifier::external_body]
#[verifier::reject_recursive_types(T)]
pub struct ExUnboundedReceiver<T>(UnboundedReceiver<T>);

/// Opens a fresh inbox with `tokio::sync::mpsc::unbounded_channel`. Nothing
/// is claimed of the two ends.
#[verifier::external_body]
fn open_inbox() -> (ends: (UnboundedSender<ConnectionCommand>, UnboundedReceiver<ConnectionCommand>)) {
    tokio::sync::mpsc::unbounded_channel()
}

/// Places a command in an inbox with `UnboundedSender::send`, which never
/// waits. The answer is whether the inbox took it; it does not once its
/// receiving end is closed or gone, and nothing here tells which will be.
#[verifier::external_body]
fn deliver(sender: &UnboundedSender<ConnectionCommand>, command: ConnectionCommand) -> (accepted:
    bool) {
    sender.send(command).is_ok()
}

/// Draws a random identifier with `uuid::Uuid::new_v4` and writes it in the
/// hyphenated form, which is 36 characters long. Nothing else is claimed of
/// it: not even that two draws differ.
#[verifier::external_body]
fn fresh_id() -> (id: String)
    ensures
        id@.len() == 36,
{
    uuid::Uuid::new_v4().to_string()
}

/// Why a request could not be routed to a session.
#[derive(Debug, Clone, Copy, PartialEq, Eq, Structural)]
pub enum ConnectionError {
    /// No live connection has the identifier.
    NotFound,
    /// The session no longer takes commands.
    ChannelClosed,
}

impl ConnectionError {
    /// The error in words.
    pub open spec fn text(self) -> Seq<char> {
        match self {
            ConnectionError::NotFound => "connection not found"@,
            ConnectionError::ChannelClosed => "connection channel closed"@,
        }
    }

    /// The error in words.
    pub fn message(&self) -> (message: String)
        ensures
            message@ == self.text(),
    {
        match self {
            ConnectionError::NotFound => "connection not found".to_owned(),
            ConnectionError::ChannelClosed => "connection channel closed".to_owned(),
        }
    }
}

/// What sending a command comes to, given whether the inbox took it.
pub open spec fn delivery(accepted: bool) -> Result<(), ConnectionError> {
    if accepted {
        Ok(())
    } else {
        Err(ConnectionError::ChannelClosed)
    }
}

/// Turns the answer of an inbox into the result of a send.
pub fn delivery_result(accepted: bool) -> (result: Result<(), ConnectionError>)
    ensures
        result == delivery(accepted),
{
    if accepted {
        Ok(())
    } else {
        Err(ConnectionError::ChannelClosed)
    }
}

/// The command that asks a session to join `channel`.
pub fn join_command(channel: &str) -> (command: ConnectionCommand)
    ensures
        command@ == ConnectionCommandView::Join(channel@),
{
    ConnectionCommand::Join(channel.to_owned())
}

/// The command that asks a session to leave `channel`, with the reason if
/// one is given.
pub fn part_command(channel: &str, reason: Option<String>) -> (command: ConnectionCommand)
    ensures
        command@ == (ConnectionCommandView::Part {
            channel: channel@,
            reason: reason.deep_view(),
        }),
{
    ConnectionCommand::Part { channel: channel.to_owned(), reason }
}

/// The command that asks a session to send `message` to `target`.
pub fn privmsg_command(target: &str, message: &str) -> (command: ConnectionCommand)
    ensures
        command@ == (ConnectionCommandView::Privmsg { target: target@, message: message@ }),
{
    ConnectionCommand::Privmsg { target: target.to_owned(), message: message.to_owned() }
}

/// The command that asks a session to set the topic of `channel`, or to
/// query it when no topic is given.
pub fn topic_command(channel: &str, topic: Option<String>) -> (command: ConnectionCommand)
    ensures
        command@ == (ConnectionCommandView::Topic { channel: channel@, topic: topic.deep_view() }),
{
    ConnectionCommand::Topic { channel: channel.to_owned(), topic }
}

/// The command that asks a session to quit, with the reason if one is given.
pub fn quit_command(reason: Option<String>) -> (command: ConnectionCommand)
    ensures
        command@ == (ConnectionCommandView::Quit { reason: reason.deep_view() }),
{
    ConnectionCommand::Quit { reason }
}

/// A live connection as the registry holds it.
#[derive(Debug)]
pub struct ConnectionHandle {
    id: String,
    storage_key: String,
    sender: UnboundedSender<ConnectionCommand>,
}

pub ghost struct HandleView {
    pub id: Seq<char>,
    pub storage_key: Seq<char>,
    pub sender: UnboundedSender<ConnectionCommand>,
}

impl View for ConnectionHandle {
    type V = HandleView;

    closed spec fn view(&self) -> HandleView {
        HandleView { id: self.id@, storage_key: self.storage_key@, sender: self.sender }
    }
}

impl ConnectionHandle {
    /// A handle for the session that reads the other end of `sender`.
    pub fn new(id: String, storage_key: String, sender: UnboundedSender<ConnectionCommand>) -> (handle:
        ConnectionHandle)
        ensures
            handle@ == (HandleView { id: id@, storage_key: storage_key@, sender }),
    {
        ConnectionHandle { id, storage_key, sender }
    }

    /// The identifier of the connection.
    pub fn id(&self) -> (id: &str)
        ensures
            id@ == self@.id,
    {
        self.id.as_str()
    }

    /// The identity key of the configuration the connection was made for.
    pub fn storage_key(&self) -> (key: &str)
        ensures
            key@ == self@.storage_key,
    {
        self.storage_key.as_str()
    }

    /// Places a command in the session's inbox. Fails only when the session
    /// no longer takes commands.
    pub fn send_command(&self, command: ConnectionCommand) -> (result: Result<(), ConnectionError>)
        ensures
            exists|accepted: bool| result == delivery(accepted),
    {
        let accepted = deliver(&self.sender, command);
        delivery_result(accepted)
    }

    /// Asks the session to quit, with the reason given: places the
    /// command that [`quit_command`] builds in the inbox.
    pub fn disconnect(&self, reason: Option<String>) -> (result: Result<(), ConnectionError>)
        ensures
            exists|accepted: bool| result == delivery(accepted),
    {
        self.send_command(quit_command(reason))
    }
}

/// First index at or after `i` whose handle has the identifier, or the
/// length when there is none.
pub open spec fn position_of_id(entries: Seq<HandleView>, id: Seq<char>, i: int) -> int
    decreases entries.len() - i,
{
    if 0 <= i < entries.len() && entries[i].id != id {
        position_of_id(entries, id, i + 1)
    } else {
        i
    }
}

/// First index at or after `i` whose handle has the identity key, or the
/// length when there is none.
pub open spec fn position_of_key(entries: Seq<HandleView>, key: Seq<char>, i: int) -> int
    decreases entries.len() - i,
{
    if 0 <= i < entries.len() && entries[i].storage_key != key {
        position_of_key(entries, key, i + 1)
    } else {
        i
    }
}

/// Whether some handle has the identifier.
pub open spec fn has_id(entries: Seq<HandleView>, id: Seq<char>) -> bool {
    position_of_id(entries, id, 0) < entries.len()
}

/// Whether some handle has the identity key.
pub open spec fn has_key(entries: Seq<HandleView>, key: Seq<char>) -> bool {
    position_of_key(entries, key, 0) < entries.len()
}

/// No two handles share an identifier.
pub open spec fn ids_distinct(entries: Seq<HandleView>) -> bool {
    forall|i: int, j: int| 0 <= i < j < entries.len() ==> entries[i].id != entries[j].id
}

/// The registry with `handle` put in: in place of the handle that has its
/// identifier, or else at the end.
pub open spec fn with_handle(entries: Seq<HandleView>, handle: HandleView) -> Seq<HandleView> {
    let at = position_of_id(entries, handle.id, 0);
    if 0 <= at < entries.len() {
        entries.update(at, handle)
    } else {
        entries.push(handle)
    }
}

/// The registry after a connect for the identity `key`, where `fresh` is
/// the handle a new session would get: unchanged when a live handle has the
/// key already.
pub open spec fn after_connect(entries: Seq<HandleView>, key: Seq<char>, fresh: HandleView) -> Seq<
    HandleView,
> {
    if has_key(entries, key) {
        entries
    } else {
        with_handle(entries, fresh)
    }
}

/// The identifier a connect for the identity `key` returns: that of the
/// live handle with the key, or else the fresh one.
pub open spec fn connected_id(entries: Seq<HandleView>, key: Seq<char>, fresh: HandleView) -> Seq<
    char,
> {
    if has_key(entries, key) {
        entries[position_of_key(entries, key, 0)].id
    } else {
        fresh.id
    }
}

/// `position_of_id` finds the first handle with the identifier.
pub proof fn lemma_position_of_id(entries: Seq<HandleView>, id: Seq<char>, i: int)
    requires
        0 <= i <= entries.len(),
    ensures
        i <= position_of_id(entries, id, i) <= entries.len(),
        position_of_id(entries, id, i) < entries.len() ==> entries[position_of_id(
            entries,
            id,
            i,
        )].id == id,
        forall|k: int| i <= k < position_of_id(entries, id, i) ==> (#[trigger] entries[k]).id != id,
    decreases entries.len() - i,
{
    if i < entries.len() && entries[i].id != id {
        lemma_position_of_id(entries, id, i + 1);
    }
}

/// `position_of_key` finds the first handle with the identity key.
pub proof fn lemma_position_of_key(entries: Seq<HandleView>, key: Seq<char>, i: int)
    requires
        0 <= i <= entries.len(),
    ensures
        i <= position_of_key(entries, key, i) <= entries.len(),
        position_of_key(entries, key, i) < entries.len() ==> entries[position_of_key(
            entries,
            key,
            i,
        )].storage_key == key,
        forall|k: int|
            i <= k < position_of_key(entries, key, i) ==> (#[trigger] entries[k]).storage_key
                != key,
    decreases entries.len() - i,
{
    if i < entries.len() && entries[i].storage_key != key {
        lemma_position_of_key(entries, key, i + 1);
    }
}

proof fn lemma_position_of_key_is(entries: Seq<HandleView>, key: Seq<char>, i: int, at: int)
    requires
        0 <= i <= at <= entries.len(),
        forall|k: int| i <= k < at ==> (#[trigger] entries[k]).storage_key != key,
        at < entries.len() ==> entries[at].storage_key == key,
    ensures
        position_of_key(entries, key, i) == at,
    decreases at - i,
{
    if i < at {
        lemma_position_of_key_is(entries, key, i + 1, at);
    }
}

proof fn lemma_position_of_id_is(entries: Seq<HandleView>, id: Seq<char>, i: int, at: int)
    requires
        0 <= i <= at <= entries.len(),
        forall|k: int| i <= k < at ==> (#[trigger] entries[k]).id != id,
        at < entries.len() ==> entries[at].id == id,
    ensures
        position_of_id(entries, id, i) == at,
    decreases at - i,
{
    if i < at {
        lemma_position_of_id_is(entries, id, i + 1, at);
    }
}

/// Two configurations with the same server, port and nickname have the
/// same identity key.
pub proof fn lemma_same_identity_same_key(a: ConnectionConfigView, b: ConnectionConfigView)
    requires
        a.server == b.server,
        a.port == b.port,
        a.nickname == b.nickname,
    ensures
        a.storage_key() == b.storage_key(),
{
}

/// Connecting twice with the same server, port and nickname returns the
/// same identifier, and the second connect starts no session: it finds the
/// handle of the first and leaves the registry as it is.
pub proof fn lemma_connect_is_idempotent(
    entries: Seq<HandleView>,
    first: ConnectionConfigView,
    second: ConnectionConfigView,
    fresh: HandleView,
    other: HandleView,
)
    requires
        first.server == second.server,
        first.port == second.port,
        first.nickname == second.nickname,
        fresh.storage_key == first.storage_key(),
    ensures
        ({
            let after = after_connect(entries, first.storage_key(), fresh);
            &&& has_key(after, second.storage_key())
            &&& connected_id(after, second.storage_key(), other) == connected_id(
                entries,
                first.storage_key(),
                fresh,
            )
            &&& after_connect(after, second.storage_key(), other) == after
        }),
{
    let key = first.storage_key();
    lemma_same_identity_same_key(first, second);
    lemma_position_of_key(entries, key, 0);
    if !has_key(entries, key) {
        let after = with_handle(entries, fresh);
        lemma_position_of_id(entries, fresh.id, 0);
        let at = position_of_id(entries, fresh.id, 0);
        assert(after[at] == fresh);
        assert forall|k: int| 0 <= k < at implies (#[trigger] after[k]).storage_key != key by {
            assert(after[k] == entries[k]);
        }
        lemma_position_of_key_is(after, key, 0, at);
    }
}

/// What a disconnect comes to for a live connection, given whether its
/// inbox took the quit: the event that reports the end, or the failure.
pub open spec fn disconnect_outcome(id: Seq<char>, reason: Option<Seq<char>>, accepted: bool) -> Result<
    IrcEventView,
    ConnectionError,
> {
    if accepted {
        Ok(IrcEventView::Disconnected { connection_id: id, reason })
    } else {
        Err(ConnectionError::ChannelClosed)
    }
}

/// The result of a disconnect, with the event by its view.
pub open spec fn outcome_view(result: Result<IrcEvent, ConnectionError>) -> Result<
    IrcEventView,
    ConnectionError,
> {
    match result {
        Ok(event) => Ok(event@),
        Err(error) => Err(error),
    }
}

/// Turns the answer of the inbox to a quit into the result of a disconnect.
pub fn disconnect_result(id: &str, reason: Option<String>, accepted: bool) -> (result: Result<
    IrcEvent,
    ConnectionError,
>)
    ensures
        outcome_view(result) == disconnect_outcome(id@, reason.deep_view(), accepted),
{
    if accepted {
        Ok(IrcEvent::Disconnected { connection_id: id.to_owned(), reason })
    } else {
        Err(ConnectionError::ChannelClosed)
    }
}

/// What a connect returns.
#[derive(Debug)]
pub enum ConnectOutcome {
    /// A live connection has the same identity; this is its identifier.
    Existing(String),
    /// A new connection was registered. Its session is to be run on the
    /// receiving end of its inbox.
    Started { id: String, inbox: UnboundedReceiver<ConnectionCommand> },
}

impl ConnectOutcome {
    /// The identifier of the connection, as text.
    pub open spec fn id_text(&self) -> Seq<char> {
        match *self {
            ConnectOutcome::Existing(id) => id@,
            ConnectOutcome::Started { id, .. } => id@,
        }
    }

    /// The identifier of the connection.
    pub fn id(&self) -> (id: &str)
        ensures
            id@ == self.id_text(),
    {
        match self {
            ConnectOutcome::Existing(id) => id.as_str(),
            ConnectOutcome::Started { id, .. } => id.as_str(),
        }
    }
}

/// The table of live connections. No two of them share an identifier.
pub struct ConnectionManager {
    scrollback: ScrollbackStore,
    connections: Vec<ConnectionHandle>,
}

impl View for ConnectionManager {
    type V = Seq<HandleView>;

    closed spec fn view(&self) -> Seq<HandleView> {
        views(self.connections@)
    }
}

spec fn views(handles: Seq<ConnectionHandle>) -> Seq<HandleView> {
    Seq::new(handles.len(), |i: int| handles[i]@)
}

impl ConnectionManager {
    #[verifier::type_invariant]
    spec fn well_formed(self) -> bool {
        ids_distinct(self@)
    }

    /// The scrollback store of this registry.
    pub closed spec fn store(&self) -> ScrollbackStore {
        self.scrollback
    }

    /// An empty registry over the given scrollback store.
    pub fn new(scrollback: ScrollbackStore) -> (manager: ConnectionManager)
        ensures
            manager@ == Seq::<HandleView>::empty(),
            manager.store() == scrollback,
    {
        let manager = ConnectionManager { scrollback, connections: Vec::new() };
        assert(manager@ =~= Seq::<HandleView>::empty());
        manager
    }

    /// The scrollback store the sessions of this registry write to.
    pub fn scrollback(&self) -> (store: &ScrollbackStore)
        ensures
            *store == self.store(),
    {
        &self.scrollback
    }

    fn find_id(&self, id: &str) -> (at: usize)
        ensures
            at == position_of_id(self@, id@, 0),
            at <= self.connections@.len(),
            self@.len() == self.connections@.len(),
            at < self.connections@.len() ==> self@[at as int] == self.connections@[at as int]@,
    {
        let mut at: usize = 0;
        while at < self.connections.len() && !str_equal(self.connections[at].id(), id)
            invariant
                at <= self.connections@.len(),
                position_of_id(self@, id@, 0) == position_of_id(self@, id@, at as int),
            decreases self.connections@.len() - at,
        {
            at += 1;
        }
        at
    }

    fn find_key(&self, key: &str) -> (at: usize)
        ensures
            at == position_of_key(self@, key@, 0),
            at <= self.connections@.len(),
            self@.len() == self.connections@.len(),
            at < self.connections@.len() ==> self@[at as int] == self.connections@[at as int]@,
    {
        let mut at: usize = 0;
        while at < self.connections.len() && !str_equal(self.connections[at].storage_key(), key)
            invariant
                at <= self.connections@.len(),
                position_of_key(self@, key@, 0) == position_of_key(self@, key@, at as int),
            decreases self.connections@.len() - at,
        {
            at += 1;
        }
        at
    }

    /// The identifiers of all live connections, oldest registration first.
    pub fn list(&self) -> (ids: Vec<String>)
        ensures
            ids.deep_view() == Seq::new(self@.len(), |i: int| self@[i].id),
    {
        let mut ids: Vec<String> = Vec::new();
        let mut i: usize = 0;
        while i < self.connections.len()
            invariant
                i <= self.connections@.len(),
                ids.deep_view() =~= Seq::new(i as nat, |k: int| self@[k].id),
            decreases self.connections@.len() - i,
        {
            let ghost before = ids.deep_view();
            let id = self.connections[i].id().to_owned();
            ids.push(id);
            assert(ids.deep_view() =~= before.push(self@[i as int].id));
            i += 1;
        }
        ids
    }

    /// The live connection with the identifier, if there is one.
    pub fn get(&self, id: &str) -> (found: Option<&ConnectionHandle>)
        ensures
            match found {
                Some(handle) => has_id(self@, id@) && handle@ == self@[position_of_id(
                    self@,
                    id@,
                    0,
                )],
                None => !has_id(self@, id@),
            },
    {
        let at = self.find_id(id);
        if at < self.connections.len() {
            Some(&self.connections[at])
        } else {
            None
        }
    }

    /// Takes the connection with the identifier out of the registry, if
    /// there is one. Afterwards no live connection has the identifier.
    pub fn remove(&mut self, id: &str) -> (removed: Option<ConnectionHandle>)
        ensures
            match removed {
                Some(handle) => has_id(old(self)@, id@) && handle@ == old(self)@[position_of_id(
                    old(self)@,
                    id@,
                    0,
                )] && final(self)@ == old(self)@.remove(position_of_id(old(self)@, id@, 0)),
                None => !has_id(old(self)@, id@) && final(self)@ == old(self)@,
            },
            !has_id(final(self)@, id@),
            final(self).store() == old(self).store(),
            ids_distinct(final(self)@),
    {
        proof {
            use_type_invariant(&*self);
        }
        let at = self.find_id(id);
        if at < self.connections.len() {
            let ghost before = self@;
            let mut handles: Vec<ConnectionHandle> = Vec::new();
            std::mem::swap(&mut self.connections, &mut handles);
            let handle = handles.remove(at);
            proof {
                let after = views(handles@);
                assert(after =~= before.remove(at as int));
                lemma_position_of_id(before, id@, 0);
                assert forall|k: int| 0 <= k < after.len() implies (#[trigger] after[k]).id
                    != id@ by {
                    if k < at {
                        assert(after[k] == before[k]);
                    } else {
                        assert(after[k] == before[k + 1]);
                    }
                }
                lemma_position_of_id_is(after, id@, 0, after.len() as int);
                assert forall|i: int, j: int| 0 <= i < j < after.len() implies after[i].id
                    != after[j].id by {
                    let a = if i < at {
                        i
                    } else {
                        i + 1
                    };
                    let b = if j < at {
                        j
                    } else {
                        j + 1
                    };
                    assert(after[i] == before[a]);
                    assert(after[j] == before[b]);
                }
            }
            self.connections = handles;
            Some(handle)
        } else {
            None
        }
    }

    /// Puts a connection into the registry: in place of the one that has
    /// its identifier, or else as the newest.
    pub fn add(&mut self, handle: ConnectionHandle)
        ensures
            final(self)@ == with_handle(old(self)@, handle@),
            has_id(final(self)@, handle@.id),
            final(self).store() == old(self).store(),
            ids_distinct(final(self)@),
    {
        proof {
            use_type_invariant(&*self);
        }
        let ghost before = self@;
        let at = self.find_id(handle.id());
        proof {
            lemma_position_of_id(before, handle@.id, 0);
        }
        let mut handles: Vec<ConnectionHandle> = Vec::new();
        std::mem::swap(&mut self.connections, &mut handles);
        if at < handles.len() {
            handles[at] = handle;
            proof {
                assert(views(handles@) =~= before.update(at as int, handle@));
            }
        } else {
            handles.push(handle);
            proof {
                assert(views(handles@) =~= before.push(handle@));
            }
        }
        proof {
            let after = views(handles@);
            assert forall|k: int| 0 <= k < at implies (#[trigger] after[k]).id != handle@.id by {
                assert(after[k] == before[k]);
            }
            lemma_position_of_id_is(after, handle@.id, 0, at as int);
            assert forall|i: int, j: int| 0 <= i < j < after.len() implies after[i].id
                != after[j].id by {
                if i != at {
                    assert(after[i] == before[i]);
                }
                if j != at {
                    assert(after[j] == before[j]);
                }
            }
        }
        self.connections = handles;
    }

    /// The oldest live connection with the identity of `config`, if there
    /// is one.
    pub fn find_by_config(&self, config: &ConnectionConfig) -> (found: Option<&ConnectionHandle>)
        ensures
            match found {
                Some(handle) => has_key(self@, config@.storage_key()) && handle@
                    == self@[position_of_key(self@, config@.storage_key(), 0)],
                None => !has_key(self@, config@.storage_key()),
            },
    {
        let key = config.storage_key();
        let at = self.find_key(key.as_str());
        if at < self.connections.len() {
            Some(&self.connections[at])
        } else {
            None
        }
    }

    /// Connects `config`. When a live connection has the same identity,
    /// returns its identifier and changes nothing. Otherwise registers a new
    /// connection under a fresh identifier and returns that together with
    /// the inbox its session is to be run on.
    pub fn connect(&mut self, config: &ConnectionConfig) -> (outcome: ConnectOutcome)
        ensures
            outcome is Existing <==> has_key(old(self)@, config@.storage_key()),
            exists|fresh: HandleView|
                {
                    &&& fresh.storage_key == config@.storage_key()
                    &&& fresh.id.len() == 36
                    &&& final(self)@ == #[trigger] after_connect(
                        old(self)@,
                        config@.storage_key(),
                        fresh,
                    )
                    &&& outcome.id_text() == connected_id(old(self)@, config@.storage_key(), fresh)
                },
            final(self).store() == old(self).store(),
            ids_distinct(final(self)@),
    {
        proof {
            use_type_invariant(&*self);
        }
        let key = config.storage_key();
        let at = self.find_key(key.as_str());
        if at < self.connections.len() {
            let id = self.connections[at].id().to_owned();
            proof {
                let fresh = HandleView {
                    id: Seq::new(36, |i: int| ' '),
                    storage_key: key@,
                    sender: self@[at as int].sender,
                };
                assert(self@ == after_connect(old(self)@, config@.storage_key(), fresh));
            }
            ConnectOutcome::Existing(id)
        } else {
            let id = fresh_id();
            let (sender, inbox) = open_inbox();
            let handle = ConnectionHandle::new(id.clone(), key, sender);
            let ghost fresh = handle@;
            self.add(handle);
            proof {
                assert(self@ == after_connect(old(self)@, config@.storage_key(), fresh));
            }
            ConnectOutcome::Started { id, inbox }
        }
    }

    /// Ends a connection. An unknown identifier fails with `NotFound` and
    /// changes nothing. Otherwise the connection leaves the registry first;
    /// then the command that [`quit_command`] builds from the reason is
    /// placed in the inbox of the handle that left, and the result is the
    /// event that reports the end, for the caller to emit, or
    /// `ChannelClosed` when the session no longer took the command.
    pub fn disconnect(&mut self, id: &str, reason: Option<String>) -> (result: Result<
        IrcEvent,
        ConnectionError,
    >)
        ensures
            !has_id(old(self)@, id@) ==> result == Err::<IrcEvent, ConnectionError>(
                ConnectionError::NotFound,
            ) && final(self)@ == old(self)@,
            has_id(old(self)@, id@) ==> final(self)@ == old(self)@.remove(
                position_of_id(old(self)@, id@, 0),
            ) && exists|accepted: bool|
                outcome_view(result) == disconnect_outcome(id@, reason.deep_view(), accepted),
            !has_id(final(self)@, id@),
            final(self).store() == old(self).store(),
            ids_distinct(final(self)@),
    {
        match self.remove(id) {
            Some(handle) => {
                let sent = handle.send_command(quit_command(copy_text(&reason)));
                disconnect_result(id, reason, sent.is_ok())
            },
            None => Err(ConnectionError::NotFound),
        }
    }

    /// Finds where a command for connection `id` goes: the handle of that
    /// connection, together with the command as it was given, or `NotFound`
    /// when no live connection has the identifier. Nothing is sent.
    pub fn route(&self, id: &str, command: ConnectionCommand) -> (to: Result<
        (&ConnectionHandle, ConnectionCommand),
        ConnectionError,
    >)
        ensures
            match to {
                Ok((handle, handed)) => has_id(self@, id@) && handle@ == self@[position_of_id(
                    self@,
                    id@,
                    0,
                )] && handed@ == command@,
                Err(error) => !has_id(self@, id@) && error == ConnectionError::NotFound,
            },
    {
        match self.get(id) {
            Some(handle) => Ok((handle, command)),
            None => Err(ConnectionError::NotFound),
        }
    }

    /// Asks the session of connection `id` to join `channel`: routes the
    /// command that [`join_command`] builds and places it in the inbox of
    /// the handle found.
    pub fn join(&self, id: &str, channel: &str) -> (result: Result<(), ConnectionError>)
        ensures
            exists|accepted: bool| result == routed(self@, id@, accepted),
    {
        match self.route(id, join_command(channel)) {
            Ok((handle, command)) => {
                let result = handle.send_command(command);
                proof {
                    lemma_delivered_is_routed(self@, id@, result);
                }
                result
            },
            Err(error) => {
                assert(Err::<(), ConnectionError>(error) == routed(self@, id@, true));
                Err(error)
            },
        }
    }

    /// Asks the session of connection `id` to leave `channel`: routes the
    /// command that [`part_command`] builds and places it in the inbox of
    /// the handle found.
    pub fn part(&self, id: &str, channel: &str, reason: Option<String>) -> (result: Result<
        (),
        ConnectionError,
    >)
        ensures
            exists|accepted: bool| result == routed(self@, id@, accepted),
    {
        match self.route(id, part_command(channel, reason)) {
            Ok((handle, command)) => {
                let result = handle.send_command(command);
                proof {
                    lemma_delivered_is_routed(self@, id@, result);
                }
                result
            },
            Err(error) => {
                assert(Err::<(), ConnectionError>(error) == routed(self@, id@, true));
                Err(error)
            },
        }
    }

    /// Asks the session of connection `id` to send `message` to `target`:
    /// routes the command that [`privmsg_command`] builds and places it in
    /// the inbox of the handle found.
    pub fn privmsg(&self, id: &str, target: &str, message: &str) -> (result: Result<
        (),
        ConnectionError,
    >)
        ensures
            exists|accepted: bool| result == routed(self@, id@, accepted),
    {
        match self.route(id, privmsg_command(target, message)) {
            Ok((handle, command)) => {
                let result = handle.send_command(command);
                proof {
                    lemma_delivered_is_routed(self@, id@, result);
                }
                result
            },
            Err(error) => {
                assert(Err::<(), ConnectionError>(error) == routed(self@, id@, true));
                Err(error)
            },
        }
    }

    /// Asks the session of connection `id` to set the topic of `channel`,
    /// or to query it when no topic is given: routes the command that
    /// [`topic_command`] builds and places it in the inbox of the handle
    /// found.
    pub fn set_topic(&self, id: &str, channel: &str, topic: Option<String>) -> (result: Result<
        (),
        ConnectionError,
    >)
        ensures
            exists|accepted: bool| result == routed(self@, id@, accepted),
    {
        match self.route(id, topic_command(channel, topic)) {
            Ok((handle, command)) => {
                let result = handle.send_command(command);
                proof {
                    lemma_delivered_is_routed(self@, id@, result);
                }
                result
            },
            Err(error) => {
                assert(Err::<(), ConnectionError>(error) == routed(self@, id@, true));
                Err(error)
            },
        }
    }
}

/// What routing a command to connection `id` comes to: `NotFound` when no
/// live connection has the identifier, whatever the inboxes would do; else
/// what the inbox of that connection answers.
pub open spec fn routed(entries: Seq<HandleView>, id: Seq<char>, accepted: bool) -> Result<
    (),
    ConnectionError,
> {
    if has_id(entries, id) {
        delivery(accepted)
    } else {
        Err(ConnectionError::NotFound)
    }
}

/// For a connection that is found, what routing comes to is what its inbox
/// answered.
proof fn lemma_delivered_is_routed(
    entries: Seq<HandleView>,
    id: Seq<char>,
    result: Result<(), ConnectionError>,
)
    requires
        has_id(entries, id),
        exists|accepted: bool| result == delivery(accepted),
    ensures
        exists|accepted: bool| result == routed(entries, id, accepted),
{
    let accepted = choose|accepted: bool| result == delivery(accepted);
    assert(result == routed(entries, id, accepted));
}

/// A command for an identifier that no live connection has is refused with
/// `NotFound`, whatever any inbox would have answered: routing never gets as
/// far as an inbox. This is what `join`, `part`, `privmsg` and `set_topic`
/// return for such an identifier.
pub proof fn lemma_unknown_id_is_not_found(entries: Seq<HandleView>, id: Seq<char>, accepted: bool)
    requires
        !has_id(entries, id),
    ensures
        routed(entries, id, accepted) == Err::<(), ConnectionError>(ConnectionError::NotFound),
{
}

} // verus!
