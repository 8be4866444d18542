//! The per-connection session: what an inbound line or an inbox command
//! makes the worker do, and the lifecycle that ties those steps together.
//!
//! The session decides; its driver performs. Every decision is a list of
//! [`SessionAction`]s, to be carried out in order.

use crate::codec::{
    command_line,
    encode_command,
    encode_join,
    encode_pong,
    extract_nick,
    handshake_lines,
    join_line,
    names_list,
    nick_of,
    parse_line,
    parse_message,
    parse_names,
    pong_line,
    registration_lines,
    ParsedMessage,
    ParsedMessageView,
};
use crate::connection::{
    ConnectionCommand,
    ConnectionCommandView,
    ConnectionConfig,
    ConnectionConfigView,
};
use crate::messages::{ChatMessage, ChatMessageView, IrcEvent, IrcEventView, MessageKind};
use crate::text::{
    chars_equal_ignoring_case,
    chars_of,
    copy_text,
    same_ignoring_ascii_case,
    starts_with_chars,
    str_equal,
    string_of,
    strip_chars,
    stripped,
};
use vstd::prelude::*;

verus! {

/// One thing the driver of a session has to do.
#[derive(Debug, Clone, PartialEq)]
pub enum SessionAction {
    /// Write the line to the socket, terminated, and flush.
    Send(String),
    /// Hand the event to the event sink.
    Emit(IrcEvent),
    /// Append the message to the scrollback of the session's identity.
    Append(ChatMessage),
}

pub ghost enum SessionActionView {
    Send(Seq<char>),
    Emit(IrcEventView),
    Append(ChatMessageView),
}

impl DeepView for SessionAction {
    type V = SessionActionView;

    open spec fn deep_view(&self) -> SessionActionView {
        match *self {
            SessionAction::Send(line) => SessionActionView::Send(line@),
            SessionAction::Emit(event) => SessionActionView::Emit(event@),
            SessionAction::Append(message) => SessionActionView::Append(message@),
        }
    }
}

impl View for SessionAction {
    type V = SessionActionView;

    open spec fn view(&self) -> SessionActionView {
        self.deep_view()
    }
}

/// The text, or the empty text when there is none.
pub open spec fn text_or_empty(text: Option<Seq<char>>) -> Seq<char> {
    match text {
        Some(t) => t,
        None => Seq::empty(),
    }
}

/// Parameter `i` if the line has one, else the trailing argument.
pub open spec fn param_or_trailing(p: ParsedMessageView, i: int) -> Option<Seq<char>> {
    if 0 <= i < p.params.len() {
        Some(p.params[i])
    } else {
        p.trailing
    }
}

/// The trailing argument if the line has one, else parameter `i`.
pub open spec fn trailing_or_param(p: ParsedMessageView, i: int) -> Option<Seq<char>> {
    match p.trailing {
        Some(t) => Some(t),
        None => if 0 <= i < p.params.len() {
            Some(p.params[i])
        } else {
            None
        },
    }
}

/// The nickname the line's prefix names, if it names one.
pub open spec fn sender_of(p: ParsedMessageView) -> Option<Seq<char>> {
    match p.prefix {
        Some(prefix) => nick_of(prefix),
        None => None,
    }
}

/// The nickname the line's prefix names, or else our own.
pub open spec fn actor_of(p: ParsedMessageView, config: ConnectionConfigView) -> Seq<char> {
    match sender_of(p) {
        Some(nick) => nick,
        None => config.nickname,
    }
}

/// A chat message without metadata.
pub open spec fn new_message(
    id: Seq<char>,
    target: Seq<char>,
    sender: Option<Seq<char>>,
    message: Seq<char>,
    kind: MessageKind,
    now: i64,
) -> ChatMessageView {
    ChatMessageView {
        connection_id: id,
        target,
        sender,
        message,
        kind,
        timestamp: now,
        metadata: None,
    }
}

/// A chat message is first appended to the scrollback, then emitted.
pub open spec fn chat(message: ChatMessageView) -> Seq<SessionActionView> {
    seq![
        SessionActionView::Append(message),
        SessionActionView::Emit(IrcEventView::Message { data: message }),
    ]
}

/// `PING`: answer with `PONG` and the same argument; nothing is emitted.
pub open spec fn ping_actions(p: ParsedMessageView) -> Seq<SessionActionView> {
    match param_or_trailing(p, 0) {
        Some(token) => seq![SessionActionView::Send(pong_line(token))],
        None => Seq::empty(),
    }
}

/// `001`: report the welcome, then join every configured channel in order.
pub open spec fn welcome_actions(id: Seq<char>, config: ConnectionConfigView) -> Seq<
    SessionActionView,
> {
    seq![
        SessionActionView::Emit(
            IrcEventView::Connected {
                connection_id: id,
                nickname: config.nickname,
                server: config.server,
                message: Some("welcome"@),
            },
        ),
    ] + Seq::new(
        config.auto_join.len(),
        |k: int| SessionActionView::Send(join_line(config.auto_join[k])),
    )
}

/// `353`: the members of the channel named by the third parameter.
pub open spec fn names_actions(id: Seq<char>, p: ParsedMessageView) -> Seq<SessionActionView> {
    if p.params.len() >= 3 {
        seq![
            SessionActionView::Emit(
                IrcEventView::Names {
                    connection_id: id,
                    channel: p.params[2],
                    users: names_list(text_or_empty(p.trailing)),
                },
            ),
        ]
    } else {
        Seq::empty()
    }
}

/// `332`: the topic of the channel named by the second parameter, as an
/// event and as an informational chat message.
pub open spec fn topic_actions(id: Seq<char>, p: ParsedMessageView, now: i64) -> Seq<
    SessionActionView,
> {
    if p.params.len() >= 2 {
        let topic = text_or_empty(p.trailing);
        seq![
            SessionActionView::Emit(
                IrcEventView::Topic {
                    connection_id: id,
                    channel: p.params[1],
                    topic,
                    setter: None,
                },
            ),
        ] + chat(new_message(id, p.params[1], None, "Topic: "@ + topic, MessageKind::Info, now))
    } else {
        Seq::empty()
    }
}

/// The text of a CTCP ACTION: the message starts and ends with the control
/// character 0x01 and, between those, starts with `ACTION `.
pub open spec fn ctcp_action(message: Seq<char>) -> Option<Seq<char>> {
    let body = stripped(message, '\u{1}');
    if message.len() > 0 && message[0] == '\u{1}' && message.last() == '\u{1}'
        && "ACTION "@.is_prefix_of(body) {
        Some(body.subrange("ACTION "@.len() as int, body.len() as int))
    } else {
        None
    }
}

/// Where an incoming message is filed: under its sender when it was
/// addressed to our own nickname, else under the target it names.
pub open spec fn filed_under(
    target: Seq<char>,
    sender: Option<Seq<char>>,
    nickname: Seq<char>,
) -> Seq<char> {
    match sender {
        Some(nick) => if same_ignoring_ascii_case(target, nickname) {
            nick
        } else {
            target
        },
        None => target,
    }
}

/// `PRIVMSG`: a chat message or, with CTCP ACTION framing, an action.
pub open spec fn privmsg_actions(
    id: Seq<char>,
    config: ConnectionConfigView,
    p: ParsedMessageView,
    now: i64,
) -> Seq<SessionActionView> {
    if p.params.len() > 0 {
        let raw = text_or_empty(trailing_or_param(p, 1));
        let sender = sender_of(p);
        let target = filed_under(p.params[0], sender, config.nickname);
        match ctcp_action(raw) {
            Some(text) => chat(new_message(id, target, sender, text, MessageKind::Action, now)),
            None => chat(new_message(id, target, sender, raw, MessageKind::Privmsg, now)),
        }
    } else {
        Seq::empty()
    }
}

/// `NOTICE`: a notice for the target named by the first parameter.
pub open spec fn notice_actions(id: Seq<char>, p: ParsedMessageView, now: i64) -> Seq<
    SessionActionView,
> {
    if p.params.len() > 0 {
        chat(
            new_message(
                id,
                p.params[0],
                sender_of(p),
                text_or_empty(trailing_or_param(p, 1)),
                MessageKind::Notice,
                now,
            ),
        )
    } else {
        Seq::empty()
    }
}

/// `JOIN`: `{nick} joined {channel}`.
pub open spec fn join_actions(
    id: Seq<char>,
    config: ConnectionConfigView,
    p: ParsedMessageView,
    now: i64,
) -> Seq<SessionActionView> {
    let channel = text_or_empty(param_or_trailing(p, 0));
    let nick = actor_of(p, config);
    chat(
        new_message(
            id,
            channel,
            Some(nick),
            nick + " joined "@ + channel,
            MessageKind::Join,
            now,
        ),
    )
}

/// The text of a part notice: `{nick} left {channel}`, then ` ({reason})`
/// when the reason is not empty.
pub open spec fn part_text(nick: Seq<char>, channel: Seq<char>, reason: Seq<char>) -> Seq<char> {
    if reason.len() == 0 {
        nick + " left "@ + channel
    } else {
        nick + " left "@ + channel + " ("@ + reason + ")"@
    }
}

/// `PART`: a part notice for the channel named by the first parameter.
pub open spec fn part_actions(
    id: Seq<char>,
    config: ConnectionConfigView,
    p: ParsedMessageView,
    now: i64,
) -> Seq<SessionActionView> {
    if p.params.len() > 0 {
        let nick = actor_of(p, config);
        chat(
            new_message(
                id,
                p.params[0],
                Some(nick),
                part_text(nick, p.params[0], text_or_empty(param_or_trailing(p, 1))),
                MessageKind::Part,
                now,
            ),
        )
    } else {
        Seq::empty()
    }
}

/// The text of a quit notice: `{nick} quit`, or `{nick} quit: {reason}`
/// when the reason is not empty.
pub open spec fn quit_text(nick: Seq<char>, reason: Seq<char>) -> Seq<char> {
    if reason.len() == 0 {
        nick + " quit"@
    } else {
        nick + " quit: "@ + reason
    }
}

/// `QUIT`: a quit notice, filed under the nickname that quit.
pub open spec fn quit_actions(
    id: Seq<char>,
    config: ConnectionConfigView,
    p: ParsedMessageView,
    now: i64,
) -> Seq<SessionActionView> {
    let nick = actor_of(p, config);
    chat(
        new_message(
            id,
            nick,
            Some(nick),
            quit_text(nick, text_or_empty(param_or_trailing(p, 0))),
            MessageKind::Quit,
            now,
        ),
    )
}

/// `433`: the nickname is taken.
pub open spec fn nick_in_use_actions(id: Seq<char>) -> Seq<SessionActionView> {
    seq![
        SessionActionView::Emit(
            IrcEventView::Error { connection_id: id, message: "nickname already in use"@ },
        ),
    ]
}

/// What a parsed inbound line makes the worker do, by its command token.
/// Any other token is ignored.
pub open spec fn line_actions(
    id: Seq<char>,
    config: ConnectionConfigView,
    p: ParsedMessageView,
    now: i64,
) -> Seq<SessionActionView> {
    if p.command == "PING"@ {
        ping_actions(p)
    } else if p.command == "001"@ {
        welcome_actions(id, config)
    } else if p.command == "353"@ {
        names_actions(id, p)
    } else if p.command == "332"@ {
        topic_actions(id, p, now)
    } else if p.command == "PRIVMSG"@ {
        privmsg_actions(id, config, p, now)
    } else if p.command == "NOTICE"@ {
        notice_actions(id, p, now)
    } else if p.command == "JOIN"@ {
        join_actions(id, config, p, now)
    } else if p.command == "PART"@ {
        part_actions(id, config, p, now)
    } else if p.command == "QUIT"@ {
        quit_actions(id, config, p, now)
    } else if p.command == "433"@ {
        nick_in_use_actions(id)
    } else {
        Seq::empty()
    }
}

fn or_empty(text: Option<String>) -> (r: String)
    ensures
        r@ == text_or_empty(text.deep_view()),
{
    match text {
        Some(t) => t,
        None => String::new(),
    }
}

fn get_param_or_trailing(p: &ParsedMessage, i: usize) -> (r: Option<String>)
    ensures
        r.deep_view() == param_or_trailing(p@, i as int),
{
    if i < p.params.len() {
        Some(p.params[i].clone())
    } else {
        copy_text(&p.trailing)
    }
}

fn get_trailing_or_param(p: &ParsedMessage, i: usize) -> (r: Option<String>)
    ensures
        r.deep_view() == trailing_or_param(p@, i as int),
{
    match &p.trailing {
        Some(t) => Some(t.clone()),
        None => if i < p.params.len() {
            Some(p.params[i].clone())
        } else {
            None
        },
    }
}

fn get_sender(p: &ParsedMessage) -> (r: Option<String>)
    ensures
        r.deep_view() == sender_of(p@),
{
    match &p.prefix {
        Some(prefix) => extract_nick(prefix.clone()),
        None => None,
    }
}

fn get_actor(p: &ParsedMessage, config: &ConnectionConfig) -> (r: String)
    ensures
        r@ == actor_of(p@, config@),
{
    match get_sender(p) {
        Some(nick) => nick,
        None => config.nickname.clone(),
    }
}

fn chat_actions(
    id: &str,
    target: &String,
    sender: &Option<String>,
    message: &String,
    kind: MessageKind,
    now: i64,
) -> (actions: Vec<SessionAction>)
    ensures
        actions.deep_view() == chat(
            new_message(id@, target@, sender.deep_view(), message@, kind, now),
        ),
{
    let stored = ChatMessage {
        connection_id: id.to_owned(),
        target: target.clone(),
        sender: copy_text(sender),
        message: message.clone(),
        kind,
        timestamp: now,
        metadata: None,
    };
    let shown = ChatMessage {
        connection_id: id.to_owned(),
        target: target.clone(),
        sender: copy_text(sender),
        message: message.clone(),
        kind,
        timestamp: now,
        metadata: None,
    };
    let mut actions: Vec<SessionAction> = Vec::new();
    actions.push(SessionAction::Append(stored));
    actions.push(SessionAction::Emit(IrcEvent::Message { data: shown }));
    actions
}

fn no_actions() -> (actions: Vec<SessionAction>)
    ensures
        actions.deep_view() == Seq::<SessionActionView>::empty(),
{
    let actions: Vec<SessionAction> = Vec::new();
    actions
}

fn one_action(action: SessionAction) -> (actions: Vec<SessionAction>)
    ensures
        actions.deep_view() == seq![action@],
{
    let mut actions: Vec<SessionAction> = Vec::new();
    actions.push(action);
    actions
}

fn on_ping(p: &ParsedMessage) -> (actions: Vec<SessionAction>)
    ensures
        actions.deep_view() == ping_actions(p@),
{
    match get_param_or_trailing(p, 0) {
        Some(token) => one_action(SessionAction::Send(encode_pong(token.as_str()))),
        None => no_actions(),
    }
}

fn on_welcome(id: &str, config: &ConnectionConfig) -> (actions: Vec<SessionAction>)
    ensures
        actions.deep_view() == welcome_actions(id@, config@),
{
    let mut actions: Vec<SessionAction> = Vec::new();
    actions.push(
        SessionAction::Emit(
            IrcEvent::Connected {
                connection_id: id.to_owned(),
                nickname: config.nickname.clone(),
                server: config.server.clone(),
                message: Some("welcome".to_owned()),
            },
        ),
    );
    let ghost head = actions.deep_view();
    let mut i: usize = 0;
    while i < config.auto_join.len()
        invariant
            i <= config.auto_join.len(),
            actions.deep_view() =~= head + Seq::new(
                i as nat,
                |k: int| SessionActionView::Send(join_line(config@.auto_join[k])),
            ),
        decreases config.auto_join.len() - i,
    {
        let ghost before = actions.deep_view();
        let line = encode_join(config.auto_join[i].as_str());
        actions.push(SessionAction::Send(line));
        assert(actions.deep_view() =~= before.push(SessionActionView::Send(line@)));
        i += 1;
    }
    actions
}

fn on_names(id: &str, p: &ParsedMessage) -> (actions: Vec<SessionAction>)
    ensures
        actions.deep_view() == names_actions(id@, p@),
{
    if p.params.len() >= 3 {
        let list = or_empty(copy_text(&p.trailing));
        one_action(
            SessionAction::Emit(
                IrcEvent::Names {
                    connection_id: id.to_owned(),
                    channel: p.params[2].clone(),
                    users: parse_names(list.as_str()),
                },
            ),
        )
    } else {
        no_actions()
    }
}

fn on_topic(id: &str, p: &ParsedMessage, now: i64) -> (actions: Vec<SessionAction>)
    ensures
        actions.deep_view() == topic_actions(id@, p@, now),
{
    if p.params.len() >= 2 {
        let topic = or_empty(copy_text(&p.trailing));
        let mut text = "Topic: ".to_owned();
        text.append(topic.as_str());
        let mut actions = one_action(
            SessionAction::Emit(
                IrcEvent::Topic {
                    connection_id: id.to_owned(),
                    channel: p.params[1].clone(),
                    topic,
                    setter: None,
                },
            ),
        );
        let mut tail = chat_actions(id, &p.params[1], &None, &text, MessageKind::Info, now);
        actions.append(&mut tail);
        actions
    } else {
        no_actions()
    }
}

/// Recognizes CTCP ACTION framing and takes the action's text out of it.
pub fn decode_action(message: &str) -> (text: Option<String>)
    ensures
        text.deep_view() == ctcp_action(message@),
{
    let chars = chars_of(message);
    let n = chars.len();
    if n > 0 && chars[0] == '\u{1}' && chars[n - 1] == '\u{1}' {
        let body = strip_chars(&chars, '\u{1}');
        let marker = chars_of("ACTION ");
        if starts_with_chars(&body, &marker) {
            Some(string_of(&body, marker.len(), body.len()))
        } else {
            None
        }
    } else {
        None
    }
}

fn file_under(target: &String, sender: &Option<String>, nickname: &String) -> (r: String)
    ensures
        r@ == filed_under(target@, sender.deep_view(), nickname@),
{
    match sender {
        Some(nick) => {
            let a = chars_of(target.as_str());
            let b = chars_of(nickname.as_str());
            if chars_equal_ignoring_case(&a, &b) {
                nick.clone()
            } else {
                target.clone()
            }
        },
        None => target.clone(),
    }
}

fn on_privmsg(id: &str, config: &ConnectionConfig, p: &ParsedMessage, now: i64) -> (actions: Vec<
    SessionAction,
>)
    ensures
        actions.deep_view() == privmsg_actions(id@, config@, p@, now),
{
    if p.params.len() > 0 {
        let raw = or_empty(get_trailing_or_param(p, 1));
        let sender = get_sender(p);
        let target = file_under(&p.params[0], &sender, &config.nickname);
        match decode_action(raw.as_str()) {
            Some(text) => chat_actions(id, &target, &sender, &text, MessageKind::Action, now),
            None => chat_actions(id, &target, &sender, &raw, MessageKind::Privmsg, now),
        }
    } else {
        no_actions()
    }
}

fn on_notice(id: &str, p: &ParsedMessage, now: i64) -> (actions: Vec<SessionAction>)
    ensures
        actions.deep_view() == notice_actions(id@, p@, now),
{
    if p.params.len() > 0 {
        let message = or_empty(get_trailing_or_param(p, 1));
        let sender = get_sender(p);
        chat_actions(id, &p.params[0], &sender, &message, MessageKind::Notice, now)
    } else {
        no_actions()
    }
}

fn on_join(id: &str, config: &ConnectionConfig, p: &ParsedMessage, now: i64) -> (actions: Vec<
    SessionAction,
>)
    ensures
        actions.deep_view() == join_actions(id@, config@, p@, now),
{
    let channel = or_empty(get_param_or_trailing(p, 0));
    let nick = get_actor(p, config);
    let mut text = nick.clone();
    text.append(" joined ");
    text.append(channel.as_str());
    chat_actions(id, &channel, &Some(nick), &text, MessageKind::Join, now)
}

fn on_part(id: &str, config: &ConnectionConfig, p: &ParsedMessage, now: i64) -> (actions: Vec<
    SessionAction,
>)
    ensures
        actions.deep_view() == part_actions(id@, config@, p@, now),
{
    if p.params.len() > 0 {
        let nick = get_actor(p, config);
        let reason = or_empty(get_param_or_trailing(p, 1));
        let mut text = nick.clone();
        text.append(" left ");
        text.append(p.params[0].as_str());
        if reason.as_str().unicode_len() != 0 {
            text.append(" (");
            text.append(reason.as_str());
            text.append(")");
        }
        chat_actions(id, &p.params[0], &Some(nick), &text, MessageKind::Part, now)
    } else {
        no_actions()
    }
}

fn on_quit(id: &str, config: &ConnectionConfig, p: &ParsedMessage, now: i64) -> (actions: Vec<
    SessionAction,
>)
    ensures
        actions.deep_view() == quit_actions(id@, config@, p@, now),
{
    let nick = get_actor(p, config);
    let reason = or_empty(get_param_or_trailing(p, 0));
    let mut text = nick.clone();
    if reason.as_str().unicode_len() == 0 {
        text.append(" quit");
    } else {
        text.append(" quit: ");
        text.append(reason.as_str());
    }
    chat_actions(id, &nick, &Some(nick.clone()), &text, MessageKind::Quit, now)
}

fn on_nick_in_use(id: &str) -> (actions: Vec<SessionAction>)
    ensures
        actions.deep_view() == nick_in_use_actions(id@),
{
    one_action(
        SessionAction::Emit(
            IrcEvent::Error {
                connection_id: id.to_owned(),
                message: "nickname already in use".to_owned(),
            },
        ),
    )
}

/// Decides what a parsed inbound line makes the worker do at time `now`.
pub fn dispatch_line(id: &str, config: &ConnectionConfig, p: &ParsedMessage, now: i64) -> (actions:
    Vec<SessionAction>)
    ensures
        actions.deep_view() == line_actions(id@, config@, p@, now),
{
    let command = p.command.as_str();
    if str_equal(command, "PING") {
        on_ping(p)
    } else if str_equal(command, "001") {
        on_welcome(id, config)
    } else if str_equal(command, "353") {
        on_names(id, p)
    } else if str_equal(command, "332") {
        on_topic(id, p, now)
    } else if str_equal(command, "PRIVMSG") {
        on_privmsg(id, config, p, now)
    } else if str_equal(command, "NOTICE") {
        on_notice(id, p, now)
    } else if str_equal(command, "JOIN") {
        on_join(id, config, p, now)
    } else if str_equal(command, "PART") {
        on_part(id, config, p, now)
    } else if str_equal(command, "QUIT") {
        on_quit(id, config, p, now)
    } else if str_equal(command, "433") {
        on_nick_in_use(id)
    } else {
        no_actions()
    }
}

/// Parses one inbound line and decides what it makes the worker do at
/// time `now`.
pub fn handle_line(id: &str, config: &ConnectionConfig, line: &str, now: i64) -> (actions: Vec<
    SessionAction,
>)
    ensures
        actions.deep_view() == line_actions(id@, config@, parse_line(line@), now),
{
    let parsed = parse_message(line);
    dispatch_line(id, config, &parsed, now)
}

/// Where a session stands in its life.
#[derive(Debug, Clone, Copy, PartialEq, Eq, Structural)]
pub enum SessionState {
    Connecting,
    Handshaking,
    Ready,
    Closing,
    Closed,
}

/// What the driver of a session reports to it.
#[derive(Debug, Clone, PartialEq, Eq)]
pub enum SessionEvent {
    /// The transport is up, TLS included where configured.
    TransportReady,
    /// The transport could not be set up.
    ConnectFailed(String),
    /// Every registration line was written.
    Registered,
    /// A registration line could not be written.
    HandshakeFailed(String),
    /// The server sent a line.
    Line(String),
    /// The server closed its side.
    PeerClosed,
    /// Reading from the server failed.
    ReadFailed(String),
    /// A command arrived on the inbox.
    Command(ConnectionCommand),
    /// Neither the server nor the inbox will deliver anything more.
    SourcesClosed,
    /// The closing actions were carried out.
    Finished,
}

pub ghost enum SessionEventView {
    TransportReady,
    ConnectFailed(Seq<char>),
    Registered,
    HandshakeFailed(Seq<char>),
    Line(Seq<char>),
    PeerClosed,
    ReadFailed(Seq<char>),
    Command(ConnectionCommandView),
    SourcesClosed,
    Finished,
}

impl DeepView for SessionEvent {
    type V = SessionEventView;

    open spec fn deep_view(&self) -> SessionEventView {
        match *self {
            SessionEvent::TransportReady => SessionEventView::TransportReady,
            SessionEvent::ConnectFailed(error) => SessionEventView::ConnectFailed(error@),
            SessionEvent::Registered => SessionEventView::Registered,
            SessionEvent::HandshakeFailed(error) => SessionEventView::HandshakeFailed(error@),
            SessionEvent::Line(line) => SessionEventView::Line(line@),
            SessionEvent::PeerClosed => SessionEventView::PeerClosed,
            SessionEvent::ReadFailed(error) => SessionEventView::ReadFailed(error@),
            SessionEvent::Command(command) => SessionEventView::Command(command@),
            SessionEvent::SourcesClosed => SessionEventView::SourcesClosed,
            SessionEvent::Finished => SessionEventView::Finished,
        }
    }
}

impl View for SessionEvent {
    type V = SessionEventView;

    open spec fn view(&self) -> SessionEventView {
        self.deep_view()
    }
}

/// Whether the event ends the steady state of a session.
pub open spec fn ends_session(event: SessionEventView) -> bool {
    match event {
        SessionEventView::PeerClosed => true,
        SessionEventView::ReadFailed(_) => true,
        SessionEventView::SourcesClosed => true,
        SessionEventView::Command(ConnectionCommandView::Quit { .. }) => true,
        _ => false,
    }
}

/// The lifecycle. A session connects, registers, serves, and closes; any
/// event that does not belong to its state leaves the state alone, and a
/// closing session is closed by whatever comes next.
pub open spec fn next_state(state: SessionState, event: SessionEventView) -> SessionState {
    match state {
        SessionState::Connecting => match event {
            SessionEventView::TransportReady => SessionState::Handshaking,
            SessionEventView::ConnectFailed(_) => SessionState::Closed,
            _ => SessionState::Connecting,
        },
        SessionState::Handshaking => match event {
            SessionEventView::Registered => SessionState::Ready,
            SessionEventView::HandshakeFailed(_) => SessionState::Closed,
            _ => SessionState::Handshaking,
        },
        SessionState::Ready => if ends_session(event) {
            SessionState::Closing
        } else {
            SessionState::Ready
        },
        SessionState::Closing => SessionState::Closed,
        SessionState::Closed => SessionState::Closed,
    }
}

/// One write per line, in order.
pub open spec fn send_each(lines: Seq<Seq<char>>) -> Seq<SessionActionView> {
    Seq::new(lines.len(), |k: int| SessionActionView::Send(lines[k]))
}

/// One error event for the user interface.
pub open spec fn report_error(id: Seq<char>, message: Seq<char>) -> Seq<SessionActionView> {
    seq![SessionActionView::Emit(IrcEventView::Error { connection_id: id, message })]
}

/// One event that reports the end of the session.
pub open spec fn report_end(id: Seq<char>, reason: Option<Seq<char>>) -> Seq<SessionActionView> {
    seq![SessionActionView::Emit(IrcEventView::Disconnected { connection_id: id, reason })]
}

/// What a command from the inbox makes a ready session do: write its wire
/// line; for a message also file and show our own copy, which the server
/// does not send back; for a quit also report the end, with the reason given.
pub open spec fn command_actions(
    id: Seq<char>,
    config: ConnectionConfigView,
    command: ConnectionCommandView,
    now: i64,
) -> Seq<SessionActionView> {
    let sent = seq![SessionActionView::Send(command_line(command))];
    match command {
        ConnectionCommandView::Privmsg { target, message } => sent + chat(
            new_message(id, target, Some(config.nickname), message, MessageKind::Privmsg, now),
        ),
        ConnectionCommandView::Quit { reason } => sent + report_end(id, reason),
        _ => sent,
    }
}

/// What an event makes the session do in a given state.
pub open spec fn step_actions(
    id: Seq<char>,
    config: ConnectionConfigView,
    state: SessionState,
    event: SessionEventView,
    now: i64,
) -> Seq<SessionActionView> {
    match state {
        SessionState::Connecting => match event {
            SessionEventView::TransportReady => send_each(registration_lines(config)),
            SessionEventView::ConnectFailed(error) => report_error(
                id,
                "failed to connect: "@ + error,
            ),
            _ => Seq::empty(),
        },
        SessionState::Handshaking => match event {
            SessionEventView::Registered => seq![
                SessionActionView::Emit(
                    IrcEventView::Connected {
                        connection_id: id,
                        nickname: config.nickname,
                        server: config.server,
                        message: Some("connected"@),
                    },
                ),
            ],
            SessionEventView::HandshakeFailed(error) => report_error(
                id,
                "handshake failed: "@ + error,
            ),
            _ => Seq::empty(),
        },
        SessionState::Ready => match event {
            SessionEventView::Line(line) => line_actions(id, config, parse_line(line), now),
            SessionEventView::Command(command) => command_actions(id, config, command, now),
            SessionEventView::PeerClosed => report_end(id, Some("connection closed"@)),
            SessionEventView::ReadFailed(error) => report_end(id, Some("read error: "@ + error)),
            SessionEventView::SourcesClosed => report_end(id, Some("connection closed"@)),
            _ => Seq::empty(),
        },
        SessionState::Closing => Seq::empty(),
        SessionState::Closed => Seq::empty(),
    }
}

/// One connection's worker, as a state machine.
pub struct Session {
    id: String,
    config: ConnectionConfig,
    state: SessionState,
}

pub ghost struct SessionView {
    pub id: Seq<char>,
    pub config: ConnectionConfigView,
    pub state: SessionState,
}

impl View for Session {
    type V = SessionView;

    closed spec fn view(&self) -> SessionView {
        SessionView { id: self.id@, config: self.config@, state: self.state }
    }
}

/// Reads the system clock: the time of `SystemTime::now`, measured from the
/// Unix epoch with `SystemTime::duration_since` and counted in milliseconds
/// with `Duration::as_millis`; `None` when the clock stands before the
/// epoch. Nothing is promised of the value.
#[verifier::external_body]
fn millis_since_epoch() -> (elapsed: Option<u128>) {
    match std::time::SystemTime::now().duration_since(std::time::UNIX_EPOCH) {
        Ok(elapsed) => Some(elapsed.as_millis()),
        Err(_) => None,
    }
}

/// The timestamp for a clock reading in milliseconds since the epoch: the
/// reading itself, cut to 64 bits, or 0 when there is no reading.
pub open spec fn timestamp_of(elapsed: Option<u128>) -> i64 {
    match elapsed {
        Some(millis) => millis as i64,
        None => 0,
    }
}

/// Turns a clock reading into the timestamp that messages carry.
pub fn timestamp_from(elapsed: Option<u128>) -> (now: i64)
    ensures
        now == timestamp_of(elapsed),
        elapsed is None ==> now == 0,
        elapsed is Some && elapsed->0 <= i64::MAX ==> now == elapsed->0,
{
    match elapsed {
        Some(millis) => #[verifier::truncate]
        (millis as i64),
        None => 0,
    }
}

/// The timestamp of this moment, by the system clock.
fn current_timestamp() -> (now: i64)
    ensures
        exists|elapsed: Option<u128>| now == timestamp_of(elapsed),
{
    timestamp_from(millis_since_epoch())
}

fn send_all(lines: Vec<String>) -> (actions: Vec<SessionAction>)
    ensures
        actions.deep_view() == send_each(lines.deep_view()),
{
    let mut actions: Vec<SessionAction> = Vec::new();
    let mut i: usize = 0;
    while i < lines.len()
        invariant
            i <= lines.len(),
            actions.deep_view() =~= Seq::new(
                i as nat,
                |k: int| SessionActionView::Send(lines.deep_view()[k]),
            ),
        decreases lines.len() - i,
    {
        let ghost before = actions.deep_view();
        let line = lines[i].clone();
        actions.push(SessionAction::Send(line));
        assert(actions.deep_view() =~= before.push(SessionActionView::Send(line@)));
        i += 1;
    }
    actions
}

fn error_report(id: &str, what: &str, error: &str) -> (actions: Vec<SessionAction>)
    ensures
        actions.deep_view() == report_error(id@, what@ + error@),
{
    let mut message = what.to_owned();
    message.append(error);
    one_action(SessionAction::Emit(IrcEvent::Error { connection_id: id.to_owned(), message }))
}

fn end_report(id: &str, reason: Option<String>) -> (actions: Vec<SessionAction>)
    ensures
        actions.deep_view() == report_end(id@, reason.deep_view()),
{
    one_action(
        SessionAction::Emit(IrcEvent::Disconnected { connection_id: id.to_owned(), reason }),
    )
}

/// Decides what a command from the inbox makes a ready session do at time
/// `now`.
pub fn dispatch_command(
    id: &str,
    config: &ConnectionConfig,
    command: &ConnectionCommand,
    now: i64,
) -> (actions: Vec<SessionAction>)
    ensures
        actions.deep_view() == command_actions(id@, config@, command@, now),
{
    let mut actions = one_action(SessionAction::Send(encode_command(command)));
    match command {
        ConnectionCommand::Privmsg { target, message } => {
            let mut echo = chat_actions(
                id,
                target,
                &Some(config.nickname.clone()),
                message,
                MessageKind::Privmsg,
                now,
            );
            actions.append(&mut echo);
        },
        ConnectionCommand::Quit { reason } => {
            let mut end = end_report(id, copy_text(reason));
            actions.append(&mut end);
        },
        _ => {},
    }
    actions
}

fn event_ends_session(event: &SessionEvent) -> (r: bool)
    ensures
        r == ends_session(event@),
{
    match event {
        SessionEvent::PeerClosed => true,
        SessionEvent::ReadFailed(_) => true,
        SessionEvent::SourcesClosed => true,
        SessionEvent::Command(ConnectionCommand::Quit { .. }) => true,
        _ => false,
    }
}

fn state_after(state: SessionState, event: &SessionEvent) -> (next: SessionState)
    ensures
        next == next_state(state, event@),
{
    match state {
        SessionState::Connecting => match event {
            SessionEvent::TransportReady => SessionState::Handshaking,
            SessionEvent::ConnectFailed(_) => SessionState::Closed,
            _ => SessionState::Connecting,
        },
        SessionState::Handshaking => match event {
            SessionEvent::Registered => SessionState::Ready,
            SessionEvent::HandshakeFailed(_) => SessionState::Closed,
            _ => SessionState::Handshaking,
        },
        SessionState::Ready => if event_ends_session(event) {
            SessionState::Closing
        } else {
            SessionState::Ready
        },
        SessionState::Closing => SessionState::Closed,
        SessionState::Closed => SessionState::Closed,
    }
}

impl Session {
    /// A session for `config` under the identifier `id`, not yet connected.
    pub fn new(id: String, config: ConnectionConfig) -> (session: Session)
        ensures
            session@ == (SessionView { id: id@, config: config@, state: SessionState::Connecting }),
    {
        Session { id, config, state: SessionState::Connecting }
    }

    /// The identifier of the connection this session serves.
    pub fn id(&self) -> (id: &String)
        ensures
            id@ == self@.id,
    {
        &self.id
    }

    /// The configuration the session was made for.
    pub fn config(&self) -> (config: &ConnectionConfig)
        ensures
            config@ == self@.config,
    {
        &self.config
    }

    /// Where the session stands in its life.
    pub fn state(&self) -> (state: SessionState)
        ensures
            state == self@.state,
    {
        self.state
    }

    /// The identity under which this session's scrollback is kept.
    pub fn storage_key(&self) -> (key: String)
        ensures
            key@ == self@.config.storage_key(),
    {
        self.config.storage_key()
    }

    /// Takes one event at time `now`: moves the session to its next state
    /// and returns what the driver has to do, in order.
    pub fn step(&mut self, event: SessionEvent, now: i64) -> (actions: Vec<SessionAction>)
        ensures
            final(self)@.id == old(self)@.id,
            final(self)@.config == old(self)@.config,
            final(self)@.state == next_state(old(self)@.state, event@),
            actions.deep_view() == step_actions(
                old(self)@.id,
                old(self)@.config,
                old(self)@.state,
                event@,
                now,
            ),
    {
        let state = self.state;
        self.state = state_after(state, &event);
        let id = self.id.as_str();
        match state {
            SessionState::Connecting => match event {
                SessionEvent::TransportReady => send_all(handshake_lines(&self.config)),
                SessionEvent::ConnectFailed(error) => error_report(
                    id,
                    "failed to connect: ",
                    error.as_str(),
                ),
                _ => no_actions(),
            },
            SessionState::Handshaking => match event {
                SessionEvent::Registered => one_action(
                    SessionAction::Emit(
                        IrcEvent::Connected {
                            connection_id: id.to_owned(),
                            nickname: self.config.nickname.clone(),
                            server: self.config.server.clone(),
                            message: Some("connected".to_owned()),
                        },
                    ),
                ),
                SessionEvent::HandshakeFailed(error) => error_report(
                    id,
                    "handshake failed: ",
                    error.as_str(),
                ),
                _ => no_actions(),
            },
            SessionState::Ready => match event {
                SessionEvent::Line(line) => handle_line(id, &self.config, line.as_str(), now),
                SessionEvent::Command(command) => dispatch_command(
                    id,
                    &self.config,
                    &command,
                    now,
                ),
                SessionEvent::PeerClosed => end_report(id, Some("connection closed".to_owned())),
                SessionEvent::ReadFailed(error) => {
                    let mut reason = "read error: ".to_owned();
                    reason.append(error.as_str());
                    end_report(id, Some(reason))
                },
                SessionEvent::SourcesClosed => end_report(
                    id,
                    Some("connection closed".to_owned()),
                ),
                _ => no_actions(),
            },
            SessionState::Closing => no_actions(),
            SessionState::Closed => no_actions(),
        }
    }

    /// Takes one event at the time the system clock shows.
    pub fn on_event(&mut self, event: SessionEvent) -> (actions: Vec<SessionAction>)
        ensures
            final(self)@.id == old(self)@.id,
            final(self)@.config == old(self)@.config,
            final(self)@.state == next_state(old(self)@.state, event@),
            exists|now: i64|
                actions.deep_view() == step_actions(
                    old(self)@.id,
                    old(self)@.config,
                    old(self)@.state,
                    event@,
                    now,
                ),
    {
        let now = current_timestamp();
        self.step(event, now)
    }
}

} // verus!
