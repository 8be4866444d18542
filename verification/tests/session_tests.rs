use irc_engine::connection::{ConnectionCommand, ConnectionConfig};
use irc_engine::messages::{ChannelUserInfo, ChatMessage, IrcEvent, MessageKind};
use irc_engine::session::{
    decode_action, dispatch_command, handle_line, timestamp_from, Session, SessionAction,
    SessionEvent, SessionState,
};

fn config() -> ConnectionConfig {
    ConnectionConfig {
        server: "irc.example.org".to_string(),
        port: 6697,
        use_tls: true,
        nickname: "Me".to_string(),
        username: None,
        realname: None,
        password: None,
        auto_join: vec!["#rust".to_string(), "#verus".to_string()],
    }
}

fn message(target: &str, sender: Option<&str>, text: &str, kind: MessageKind, now: i64) -> ChatMessage {
    ChatMessage {
        connection_id: "c1".to_string(),
        target: target.to_string(),
        sender: sender.map(|s| s.to_string()),
        message: text.to_string(),
        kind,
        timestamp: now,
        metadata: None,
    }
}

fn chat(m: ChatMessage) -> Vec<SessionAction> {
    vec![SessionAction::Append(m.clone()), SessionAction::Emit(IrcEvent::Message { data: m })]
}

fn disconnected(reason: Option<&str>) -> SessionAction {
    SessionAction::Emit(IrcEvent::Disconnected {
        connection_id: "c1".to_string(),
        reason: reason.map(|s| s.to_string()),
    })
}

fn count_disconnected(actions: &[SessionAction]) -> usize {
    actions
        .iter()
        .filter(|a| matches!(a, SessionAction::Emit(IrcEvent::Disconnected { .. })))
        .count()
}

fn ready_session() -> Session {
    let mut session = Session::new("c1".to_string(), config());
    session.step(SessionEvent::TransportReady, 0);
    session.step(SessionEvent::Registered, 0);
    assert_eq!(session.state(), SessionState::Ready);
    session
}

#[test]
fn ping_is_answered_with_pong_and_no_event() {
    let actions = handle_line("c1", &config(), "PING :abc123", 5);
    assert_eq!(actions, vec![SessionAction::Send("PONG :abc123".to_string())]);
}

#[test]
fn ping_prefers_parameter_over_trailing() {
    assert_eq!(
        handle_line("c1", &config(), "PING token :other", 5),
        vec![SessionAction::Send("PONG :token".to_string())]
    );
    assert_eq!(handle_line("c1", &config(), "PING", 5), vec![]);
}

#[test]
fn welcome_reports_and_joins_in_order() {
    let actions = handle_line("c1", &config(), ":srv 001 Me :Welcome to IRC", 5);
    assert_eq!(
        actions,
        vec![
            SessionAction::Emit(IrcEvent::Connected {
                connection_id: "c1".to_string(),
                nickname: "Me".to_string(),
                server: "irc.example.org".to_string(),
                message: Some("welcome".to_string()),
            }),
            SessionAction::Send("JOIN #rust".to_string()),
            SessionAction::Send("JOIN #verus".to_string()),
        ]
    );
}

#[test]
fn names_reply_lists_members() {
    let actions = handle_line("c1", &config(), ":srv 353 Me = #rust :@alice +bob carol", 5);
    assert_eq!(
        actions,
        vec![SessionAction::Emit(IrcEvent::Names {
            connection_id: "c1".to_string(),
            channel: "#rust".to_string(),
            users: vec![
                ChannelUserInfo { nick: "alice".to_string(), modes: vec!["op".to_string()] },
                ChannelUserInfo { nick: "bob".to_string(), modes: vec!["voice".to_string()] },
                ChannelUserInfo { nick: "carol".to_string(), modes: vec![] },
            ],
        })]
    );
}

#[test]
fn names_reply_needs_three_parameters() {
    assert_eq!(handle_line("c1", &config(), ":srv 353 Me #rust :@alice", 5), vec![]);
}

#[test]
fn topic_reply_emits_topic_and_info_message() {
    let actions = handle_line("c1", &config(), ":srv 332 Me #rust :All things Rust", 77);
    let mut expected = vec![SessionAction::Emit(IrcEvent::Topic {
        connection_id: "c1".to_string(),
        channel: "#rust".to_string(),
        topic: "All things Rust".to_string(),
        setter: None,
    })];
    expected.extend(chat(message("#rust", None, "Topic: All things Rust", MessageKind::Info, 77)));
    assert_eq!(actions, expected);
    assert_eq!(handle_line("c1", &config(), ":srv 332 Me :no channel", 77), vec![]);
}

#[test]
fn privmsg_to_channel() {
    let actions = handle_line("c1", &config(), ":bob!b@h PRIVMSG #rust :hello all", 9);
    assert_eq!(actions, chat(message("#rust", Some("bob"), "hello all", MessageKind::Privmsg, 9)));
}

#[test]
fn privmsg_action_is_unwrapped() {
    let actions = handle_line("c1", &config(), ":bob!b@h PRIVMSG #rust :\u{1}ACTION waves\u{1}", 9);
    assert_eq!(actions, chat(message("#rust", Some("bob"), "waves", MessageKind::Action, 9)));
}

#[test]
fn decode_action_cases() {
    assert_eq!(decode_action("\u{1}ACTION waves\u{1}"), Some("waves".to_string()));
    assert_eq!(decode_action("\u{1}ACTION \u{1}"), Some(String::new()));
    assert_eq!(decode_action("\u{1}\u{1}ACTION a b\u{1}\u{1}"), Some("a b".to_string()));
    assert_eq!(decode_action("\u{1}VERSION\u{1}"), None);
    assert_eq!(decode_action("\u{1}ACTION waves"), None);
    assert_eq!(decode_action("ACTION waves\u{1}"), None);
    assert_eq!(decode_action("ACTION waves"), None);
    assert_eq!(decode_action("\u{1}"), None);
    assert_eq!(decode_action(""), None);
    assert_eq!(decode_action("\u{1}ACTION\u{1}"), None);
}

#[test]
fn privmsg_other_ctcp_stays_as_it_is() {
    let actions = handle_line("c1", &config(), ":bob!b@h PRIVMSG #rust :\u{1}VERSION\u{1}", 9);
    assert_eq!(
        actions,
        chat(message("#rust", Some("bob"), "\u{1}VERSION\u{1}", MessageKind::Privmsg, 9))
    );
}

#[test]
fn direct_message_is_filed_under_sender() {
    let actions = handle_line("c1", &config(), ":bob!b@h PRIVMSG mE :psst", 9);
    assert_eq!(actions, chat(message("bob", Some("bob"), "psst", MessageKind::Privmsg, 9)));
    let actions = handle_line("c1", &config(), ":bob!b@h PRIVMSG Me :\u{1}ACTION nods\u{1}", 9);
    assert_eq!(actions, chat(message("bob", Some("bob"), "nods", MessageKind::Action, 9)));
}

#[test]
fn direct_message_without_sender_keeps_target() {
    let actions = handle_line("c1", &config(), "PRIVMSG me :psst", 9);
    assert_eq!(actions, chat(message("me", None, "psst", MessageKind::Privmsg, 9)));
}

#[test]
fn privmsg_text_falls_back_to_second_parameter() {
    let actions = handle_line("c1", &config(), ":bob!b@h PRIVMSG #rust word", 9);
    assert_eq!(actions, chat(message("#rust", Some("bob"), "word", MessageKind::Privmsg, 9)));
    let actions = handle_line("c1", &config(), ":bob!b@h PRIVMSG #rust", 9);
    assert_eq!(actions, chat(message("#rust", Some("bob"), "", MessageKind::Privmsg, 9)));
    assert_eq!(handle_line("c1", &config(), ":bob!b@h PRIVMSG", 9), vec![]);
}

#[test]
fn notice_is_not_refiled() {
    let actions = handle_line("c1", &config(), ":srv NOTICE Me :look out", 9);
    assert_eq!(actions, chat(message("Me", Some("srv"), "look out", MessageKind::Notice, 9)));
    assert_eq!(handle_line("c1", &config(), "NOTICE", 9), vec![]);
}

#[test]
fn join_part_quit_texts() {
    assert_eq!(
        handle_line("c1", &config(), ":bob!b@h JOIN #rust", 3),
        chat(message("#rust", Some("bob"), "bob joined #rust", MessageKind::Join, 3))
    );
    assert_eq!(
        handle_line("c1", &config(), ":bob!b@h JOIN :#rust", 3),
        chat(message("#rust", Some("bob"), "bob joined #rust", MessageKind::Join, 3))
    );
    assert_eq!(
        handle_line("c1", &config(), "JOIN #rust", 3),
        chat(message("#rust", Some("Me"), "Me joined #rust", MessageKind::Join, 3))
    );
    assert_eq!(
        handle_line("c1", &config(), ":bob!b@h PART #rust", 3),
        chat(message("#rust", Some("bob"), "bob left #rust", MessageKind::Part, 3))
    );
    assert_eq!(
        handle_line("c1", &config(), ":bob!b@h PART #rust :gone fishing", 3),
        chat(message("#rust", Some("bob"), "bob left #rust (gone fishing)", MessageKind::Part, 3))
    );
    assert_eq!(handle_line("c1", &config(), ":bob!b@h PART", 3), vec![]);
    assert_eq!(
        handle_line("c1", &config(), ":bob!b@h QUIT", 3),
        chat(message("bob", Some("bob"), "bob quit", MessageKind::Quit, 3))
    );
    assert_eq!(
        handle_line("c1", &config(), ":bob!b@h QUIT :Ping timeout", 3),
        chat(message("bob", Some("bob"), "bob quit: Ping timeout", MessageKind::Quit, 3))
    );
}

#[test]
fn nick_in_use_is_an_error_event() {
    assert_eq!(
        handle_line("c1", &config(), ":srv 433 * Me :Nickname is already in use", 3),
        vec![SessionAction::Emit(IrcEvent::Error {
            connection_id: "c1".to_string(),
            message: "nickname already in use".to_string(),
        })]
    );
}

#[test]
fn other_lines_are_ignored() {
    assert_eq!(handle_line("c1", &config(), ":srv 372 Me :- motd", 3), vec![]);
    assert_eq!(handle_line("c1", &config(), "", 3), vec![]);
    assert_eq!(handle_line("c1", &config(), "ping :x", 3), vec![]);
}

#[test]
fn commands_write_their_line() {
    let c = config();
    assert_eq!(
        dispatch_command("c1", &c, &ConnectionCommand::Join("#a".to_string()), 1),
        vec![SessionAction::Send("JOIN #a".to_string())]
    );
    assert_eq!(
        dispatch_command(
            "c1",
            &c,
            &ConnectionCommand::Part { channel: "#a".to_string(), reason: Some("r".to_string()) },
            1
        ),
        vec![SessionAction::Send("PART #a :r".to_string())]
    );
    assert_eq!(
        dispatch_command(
            "c1",
            &c,
            &ConnectionCommand::Topic { channel: "#a".to_string(), topic: None },
            1
        ),
        vec![SessionAction::Send("TOPIC #a".to_string())]
    );
}

#[test]
fn privmsg_command_echoes_own_message() {
    let mut expected = vec![SessionAction::Send("PRIVMSG #a :hi".to_string())];
    expected.extend(chat(message("#a", Some("Me"), "hi", MessageKind::Privmsg, 42)));
    assert_eq!(
        dispatch_command(
            "c1",
            &config(),
            &ConnectionCommand::Privmsg { target: "#a".to_string(), message: "hi".to_string() },
            42
        ),
        expected
    );
}

#[test]
fn lifecycle_connects_registers_and_serves() {
    let mut session = Session::new("c1".to_string(), config());
    assert_eq!(session.state(), SessionState::Connecting);
    assert_eq!(session.id(), "c1");
    assert_eq!(session.storage_key(), "irc.example.org:6697:Me");
    assert_eq!(session.config(), &config());
    let actions = session.step(SessionEvent::TransportReady, 0);
    assert_eq!(
        actions,
        vec![
            SessionAction::Send("NICK Me".to_string()),
            SessionAction::Send("USER Me 0 * :Me".to_string())
        ]
    );
    assert_eq!(session.state(), SessionState::Handshaking);
    let actions = session.step(SessionEvent::Registered, 0);
    assert_eq!(
        actions,
        vec![SessionAction::Emit(IrcEvent::Connected {
            connection_id: "c1".to_string(),
            nickname: "Me".to_string(),
            server: "irc.example.org".to_string(),
            message: Some("connected".to_string()),
        })]
    );
    assert_eq!(session.state(), SessionState::Ready);
    let actions = session.step(SessionEvent::Line("PING :x".to_string()), 1);
    assert_eq!(actions, vec![SessionAction::Send("PONG :x".to_string())]);
    assert_eq!(session.state(), SessionState::Ready);
}

#[test]
fn connect_failure_is_reported_as_error() {
    let mut session = Session::new("c1".to_string(), config());
    let actions = session.step(SessionEvent::ConnectFailed("refused".to_string()), 0);
    assert_eq!(
        actions,
        vec![SessionAction::Emit(IrcEvent::Error {
            connection_id: "c1".to_string(),
            message: "failed to connect: refused".to_string(),
        })]
    );
    assert_eq!(session.state(), SessionState::Closed);
    assert_eq!(session.step(SessionEvent::Line("PING :x".to_string()), 0), vec![]);
}

#[test]
fn handshake_failure_is_reported_as_error() {
    let mut session = Session::new("c1".to_string(), config());
    session.step(SessionEvent::TransportReady, 0);
    let actions = session.step(SessionEvent::HandshakeFailed("broken pipe".to_string()), 0);
    assert_eq!(
        actions,
        vec![SessionAction::Emit(IrcEvent::Error {
            connection_id: "c1".to_string(),
            message: "handshake failed: broken pipe".to_string(),
        })]
    );
    assert_eq!(session.state(), SessionState::Closed);
}

#[test]
fn quit_writes_line_and_reports_end_once() {
    let mut session = ready_session();
    let actions = session.step(
        SessionEvent::Command(ConnectionCommand::Quit { reason: Some("bye".to_string()) }),
        0,
    );
    assert_eq!(actions, vec![SessionAction::Send("QUIT :bye".to_string()), disconnected(Some("bye"))]);
    assert_eq!(session.state(), SessionState::Closing);
    assert_eq!(session.step(SessionEvent::Finished, 0), vec![]);
    assert_eq!(session.state(), SessionState::Closed);
}

#[test]
fn quit_without_reason() {
    let mut session = ready_session();
    let actions = session.step(SessionEvent::Command(ConnectionCommand::Quit { reason: None }), 0);
    assert_eq!(actions, vec![SessionAction::Send("QUIT".to_string()), disconnected(None)]);
}

#[test]
fn quit_after_peer_closed_reports_nothing_more() {
    let mut session = ready_session();
    let mut all = Vec::new();
    all.extend(session.step(SessionEvent::PeerClosed, 0));
    assert_eq!(all, vec![disconnected(Some("connection closed"))]);
    all.extend(session.step(SessionEvent::Command(ConnectionCommand::Quit { reason: None }), 0));
    all.extend(session.step(SessionEvent::Command(ConnectionCommand::Quit { reason: None }), 0));
    all.extend(session.step(SessionEvent::SourcesClosed, 0));
    assert_eq!(count_disconnected(&all), 1);
    assert_eq!(session.state(), SessionState::Closed);
}

#[test]
fn read_error_and_closed_sources_end_the_session() {
    let mut session = ready_session();
    assert_eq!(
        session.step(SessionEvent::ReadFailed("reset by peer".to_string()), 0),
        vec![disconnected(Some("read error: reset by peer"))]
    );
    assert_eq!(session.state(), SessionState::Closing);
    let mut session = ready_session();
    assert_eq!(
        session.step(SessionEvent::SourcesClosed, 0),
        vec![disconnected(Some("connection closed"))]
    );
    assert_eq!(session.state(), SessionState::Closing);
}

#[test]
fn one_end_report_over_a_long_run() {
    let mut session = Session::new("c1".to_string(), config());
    let events = vec![
        SessionEvent::Line("PING :early".to_string()),
        SessionEvent::TransportReady,
        SessionEvent::PeerClosed,
        SessionEvent::Registered,
        SessionEvent::Line(":srv 001 Me :hi".to_string()),
        SessionEvent::Command(ConnectionCommand::Join("#a".to_string())),
        SessionEvent::Line(":bob!b@h QUIT :bye".to_string()),
        SessionEvent::Command(ConnectionCommand::Quit { reason: None }),
        SessionEvent::PeerClosed,
        SessionEvent::ReadFailed("x".to_string()),
        SessionEvent::Command(ConnectionCommand::Quit { reason: None }),
    ];
    let mut all = Vec::new();
    for event in events {
        all.extend(session.step(event, 1));
    }
    assert_eq!(count_disconnected(&all), 1);
    assert_eq!(session.state(), SessionState::Closed);
}

#[test]
fn events_out_of_place_change_nothing() {
    let mut session = Session::new("c1".to_string(), config());
    assert_eq!(session.step(SessionEvent::Registered, 0), vec![]);
    assert_eq!(session.step(SessionEvent::PeerClosed, 0), vec![]);
    assert_eq!(
        session.step(SessionEvent::Command(ConnectionCommand::Quit { reason: None }), 0),
        vec![]
    );
    assert_eq!(session.state(), SessionState::Connecting);
    let mut session = ready_session();
    assert_eq!(session.step(SessionEvent::TransportReady, 0), vec![]);
    assert_eq!(session.step(SessionEvent::Finished, 0), vec![]);
    assert_eq!(session.state(), SessionState::Ready);
}

#[test]
fn timestamp_from_clock_reading() {
    assert_eq!(timestamp_from(None), 0);
    assert_eq!(timestamp_from(Some(0)), 0);
    assert_eq!(timestamp_from(Some(1_700_000_000_123)), 1_700_000_000_123);
    assert_eq!(timestamp_from(Some(i64::MAX as u128)), i64::MAX);
    assert_eq!(timestamp_from(Some(i64::MAX as u128 + 1)), i64::MIN);
    assert_eq!(timestamp_from(Some(u128::MAX)), -1);
}

#[test]
fn line_end_is_dropped_and_trailing_spaces_are_kept() {
    let actions = handle_line("c1", &config(), ":bob!b@h PRIVMSG #rust :hi  \r\n", 9);
    assert_eq!(actions, chat(message("#rust", Some("bob"), "hi  ", MessageKind::Privmsg, 9)));
}

#[test]
fn on_event_stamps_messages_with_the_clock() {
    let mut session = ready_session();
    let actions = session.on_event(SessionEvent::Line(":bob!b@h PRIVMSG #rust :hi".to_string()));
    assert_eq!(actions.len(), 2);
    match &actions[0] {
        SessionAction::Append(m) => {
            assert!(m.timestamp > 1_600_000_000_000);
            assert_eq!(m.message, "hi");
            assert_eq!(actions[1], SessionAction::Emit(IrcEvent::Message { data: m.clone() }));
        }
        other => panic!("unexpected action {:?}", other),
    }
}
