use irc_engine::commands::{
    ConnectArgs, DisconnectArgs, JoinArgs, PartArgs, ScrollbackArgs, SendMessageArgs, TopicArgs,
};
use irc_engine::connection::{
    delivery_result, disconnect_result, join_command, part_command, privmsg_command,
    quit_command, topic_command, ConnectOutcome, ConnectionCommand, ConnectionConfig,
    ConnectionError, ConnectionHandle, ConnectionManager,
};
use irc_engine::messages::IrcEvent;
use irc_engine::storage::ScrollbackStore;
use tokio::sync::mpsc::{unbounded_channel, UnboundedReceiver};

fn config(server: &str, port: u16, nickname: &str) -> ConnectionConfig {
    ConnectionConfig {
        server: server.to_string(),
        port,
        use_tls: false,
        nickname: nickname.to_string(),
        username: None,
        realname: None,
        password: None,
        auto_join: vec![],
    }
}

fn manager() -> ConnectionManager {
    ConnectionManager::new(ScrollbackStore::new("/data/scrollback".to_string()))
}

fn started(outcome: ConnectOutcome) -> (String, UnboundedReceiver<ConnectionCommand>) {
    match outcome {
        ConnectOutcome::Started { id, inbox } => (id, inbox),
        ConnectOutcome::Existing(id) => panic!("expected a new connection, found {}", id),
    }
}

#[test]
fn connect_twice_returns_same_id() {
    let mut m = manager();
    let (id, _inbox) = started(m.connect(&config("irc.example.org", 6667, "me")));
    let mut again = config("irc.example.org", 6667, "me");
    again.use_tls = true;
    again.password = Some("other".to_string());
    again.auto_join = vec!["#x".to_string()];
    match m.connect(&again) {
        ConnectOutcome::Existing(found) => assert_eq!(found, id),
        ConnectOutcome::Started { .. } => panic!("a second session was started"),
    }
    assert_eq!(m.list(), vec![id]);
}

#[test]
fn connect_identity_is_exact() {
    let mut m = manager();
    let (a, _ia) = started(m.connect(&config("irc.example.org", 6667, "me")));
    let (b, _ib) = started(m.connect(&config("irc.example.org", 6667, "Me")));
    let (c, _ic) = started(m.connect(&config("irc.example.org", 6697, "me")));
    let (d, _id) = started(m.connect(&config("IRC.example.org", 6667, "me")));
    assert_eq!(m.list(), vec![a.clone(), b.clone(), c.clone(), d.clone()]);
    assert!(a != b && a != c && a != d && b != c && b != d && c != d);
}

#[test]
fn fresh_ids_are_hyphenated_uuids() {
    let mut m = manager();
    let outcome = m.connect(&config("irc.example.org", 6667, "me"));
    assert_eq!(outcome.id().len(), 36);
    let id = outcome.id().to_string();
    let bytes = id.as_bytes();
    assert_eq!(bytes[8], b'-');
    assert_eq!(bytes[13], b'-');
    assert_eq!(bytes[18], b'-');
    assert_eq!(bytes[23], b'-');
    assert_eq!(bytes[14], b'4');
}

#[test]
fn find_by_config_matches_identity_key() {
    let mut m = manager();
    assert!(m.find_by_config(&config("a", 1, "n")).is_none());
    let (id, _inbox) = started(m.connect(&config("a", 1, "n")));
    let found = m.find_by_config(&config("a", 1, "n")).unwrap();
    assert_eq!(found.id(), id);
    assert_eq!(found.storage_key(), "a:1:n");
    assert!(m.find_by_config(&config("a", 2, "n")).is_none());
}

#[test]
fn unknown_id_is_not_found_and_nothing_is_sent() {
    let mut m = manager();
    let (_id, mut inbox) = started(m.connect(&config("a", 1, "n")));
    assert_eq!(m.join("nope", "#a"), Err(ConnectionError::NotFound));
    assert_eq!(m.part("nope", "#a", None), Err(ConnectionError::NotFound));
    assert_eq!(m.privmsg("nope", "#a", "hi"), Err(ConnectionError::NotFound));
    assert_eq!(m.set_topic("nope", "#a", Some("t".to_string())), Err(ConnectionError::NotFound));
    assert_eq!(m.join("", "#a"), Err(ConnectionError::NotFound));
    assert!(inbox.try_recv().is_err());
    assert_eq!(m.list().len(), 1);
}

#[test]
fn commands_reach_the_inbox_in_send_order() {
    let mut m = manager();
    let (id, mut inbox) = started(m.connect(&config("a", 1, "n")));
    assert_eq!(m.join(&id, "#a"), Ok(()));
    assert_eq!(m.privmsg(&id, "#a", "hello"), Ok(()));
    assert_eq!(m.set_topic(&id, "#a", None), Ok(()));
    assert_eq!(m.part(&id, "#a", Some("bye".to_string())), Ok(()));
    assert_eq!(inbox.try_recv().unwrap(), ConnectionCommand::Join("#a".to_string()));
    assert_eq!(
        inbox.try_recv().unwrap(),
        ConnectionCommand::Privmsg { target: "#a".to_string(), message: "hello".to_string() }
    );
    assert_eq!(
        inbox.try_recv().unwrap(),
        ConnectionCommand::Topic { channel: "#a".to_string(), topic: None }
    );
    assert_eq!(
        inbox.try_recv().unwrap(),
        ConnectionCommand::Part { channel: "#a".to_string(), reason: Some("bye".to_string()) }
    );
    assert!(inbox.try_recv().is_err());
}

#[test]
fn commands_go_to_the_named_connection_only() {
    let mut m = manager();
    let (a, mut inbox_a) = started(m.connect(&config("a", 1, "n")));
    let (b, mut inbox_b) = started(m.connect(&config("b", 1, "n")));
    assert_eq!(m.join(&b, "#b"), Ok(()));
    assert!(inbox_a.try_recv().is_err());
    assert_eq!(inbox_b.try_recv().unwrap(), ConnectionCommand::Join("#b".to_string()));
    assert_eq!(m.join(&a, "#a"), Ok(()));
    assert_eq!(inbox_a.try_recv().unwrap(), ConnectionCommand::Join("#a".to_string()));
    assert!(inbox_b.try_recv().is_err());
}

#[test]
fn closed_inbox_fails_with_channel_closed() {
    let mut m = manager();
    let (id, inbox) = started(m.connect(&config("a", 1, "n")));
    drop(inbox);
    assert_eq!(m.join(&id, "#a"), Err(ConnectionError::ChannelClosed));
    assert_eq!(m.privmsg(&id, "#a", "x"), Err(ConnectionError::ChannelClosed));
    assert_eq!(m.list(), vec![id]);
}

#[test]
fn command_constructors() {
    assert_eq!(join_command("#a"), ConnectionCommand::Join("#a".to_string()));
    assert_eq!(
        part_command("#a", Some("r".to_string())),
        ConnectionCommand::Part { channel: "#a".to_string(), reason: Some("r".to_string()) }
    );
    assert_eq!(
        part_command("#a", None),
        ConnectionCommand::Part { channel: "#a".to_string(), reason: None }
    );
    assert_eq!(
        privmsg_command("bob", "hi"),
        ConnectionCommand::Privmsg { target: "bob".to_string(), message: "hi".to_string() }
    );
    assert_eq!(
        topic_command("#a", Some("t".to_string())),
        ConnectionCommand::Topic { channel: "#a".to_string(), topic: Some("t".to_string()) }
    );
    assert_eq!(
        topic_command("#a", None),
        ConnectionCommand::Topic { channel: "#a".to_string(), topic: None }
    );
    assert_eq!(
        quit_command(Some("bye".to_string())),
        ConnectionCommand::Quit { reason: Some("bye".to_string()) }
    );
    assert_eq!(quit_command(None), ConnectionCommand::Quit { reason: None });
}

#[test]
fn route_finds_the_handle_and_sends_nothing() {
    let mut m = manager();
    let (a, mut inbox_a) = started(m.connect(&config("a", 1, "n")));
    let (b, mut inbox_b) = started(m.connect(&config("b", 1, "n")));
    match m.route(&b, join_command("#x")) {
        Ok((handle, command)) => {
            assert_eq!(handle.id(), b);
            assert_eq!(handle.storage_key(), "b:1:n");
            assert_eq!(command, ConnectionCommand::Join("#x".to_string()));
        }
        Err(error) => panic!("unexpected error {:?}", error),
    }
    match m.route("nope", quit_command(None)) {
        Ok(_) => panic!("an unknown identifier was routed"),
        Err(error) => assert_eq!(error, ConnectionError::NotFound),
    }
    assert!(inbox_a.try_recv().is_err());
    assert!(inbox_b.try_recv().is_err());
    assert_eq!(m.list(), vec![a, b]);
}

#[test]
fn delivery_result_maps_both_answers() {
    assert_eq!(delivery_result(true), Ok(()));
    assert_eq!(delivery_result(false), Err(ConnectionError::ChannelClosed));
}

#[test]
fn disconnect_result_maps_both_answers() {
    assert_eq!(
        disconnect_result("c1", Some("bye".to_string()), true),
        Ok(IrcEvent::Disconnected {
            connection_id: "c1".to_string(),
            reason: Some("bye".to_string())
        })
    );
    assert_eq!(
        disconnect_result("c1", None, true),
        Ok(IrcEvent::Disconnected { connection_id: "c1".to_string(), reason: None })
    );
    assert_eq!(disconnect_result("c1", None, false), Err(ConnectionError::ChannelClosed));
}

#[test]
fn disconnect_removes_then_quits_and_reports() {
    let mut m = manager();
    let (id, mut inbox) = started(m.connect(&config("a", 1, "n")));
    let result = m.disconnect(&id, Some("bye".to_string()));
    assert_eq!(
        result,
        Ok(IrcEvent::Disconnected { connection_id: id.clone(), reason: Some("bye".to_string()) })
    );
    assert!(m.list().is_empty());
    assert!(m.get(&id).is_none());
    assert_eq!(
        inbox.try_recv().unwrap(),
        ConnectionCommand::Quit { reason: Some("bye".to_string()) }
    );
    assert_eq!(m.join(&id, "#a"), Err(ConnectionError::NotFound));
    assert_eq!(m.disconnect(&id, None), Err(ConnectionError::NotFound));
}

#[test]
fn disconnect_unknown_id_is_not_found() {
    let mut m = manager();
    let (id, mut inbox) = started(m.connect(&config("a", 1, "n")));
    assert_eq!(m.disconnect("nope", None), Err(ConnectionError::NotFound));
    assert_eq!(m.list(), vec![id]);
    assert!(inbox.try_recv().is_err());
}

#[test]
fn disconnect_with_closed_inbox_still_removes() {
    let mut m = manager();
    let (id, inbox) = started(m.connect(&config("a", 1, "n")));
    drop(inbox);
    assert_eq!(m.disconnect(&id, None), Err(ConnectionError::ChannelClosed));
    assert!(m.list().is_empty());
}

#[test]
fn reconnect_after_disconnect_gets_a_new_id() {
    let mut m = manager();
    let (first, _i1) = started(m.connect(&config("a", 1, "n")));
    m.disconnect(&first, None).unwrap();
    let (second, _i2) = started(m.connect(&config("a", 1, "n")));
    assert!(first != second);
}

#[test]
fn add_get_remove_by_id() {
    let mut m = manager();
    let (tx1, mut rx1) = unbounded_channel();
    let (tx2, mut rx2) = unbounded_channel();
    let (tx3, mut rx3) = unbounded_channel();
    m.add(ConnectionHandle::new("one".to_string(), "k1".to_string(), tx1));
    m.add(ConnectionHandle::new("two".to_string(), "k2".to_string(), tx2));
    assert_eq!(m.list(), vec!["one".to_string(), "two".to_string()]);
    assert_eq!(m.get("two").unwrap().storage_key(), "k2");
    assert!(m.get("three").is_none());
    m.add(ConnectionHandle::new("one".to_string(), "k3".to_string(), tx3));
    assert_eq!(m.list(), vec!["one".to_string(), "two".to_string()]);
    assert_eq!(m.get("one").unwrap().storage_key(), "k3");
    assert_eq!(m.join("one", "#a"), Ok(()));
    assert!(rx3.try_recv().is_ok());
    assert!(rx1.try_recv().is_err());
    let removed = m.remove("one").unwrap();
    assert_eq!(removed.id(), "one");
    assert_eq!(removed.storage_key(), "k3");
    assert!(m.remove("one").is_none());
    assert_eq!(m.list(), vec!["two".to_string()]);
    assert_eq!(removed.send_command(ConnectionCommand::Join("#b".to_string())), Ok(()));
    assert_eq!(rx3.try_recv().unwrap(), ConnectionCommand::Join("#b".to_string()));
    assert_eq!(removed.disconnect(Some("r".to_string())), Ok(()));
    assert_eq!(rx3.try_recv().unwrap(), ConnectionCommand::Quit { reason: Some("r".to_string()) });
    assert!(rx2.try_recv().is_err());
}

#[test]
fn handle_reports_closed_channel() {
    let (tx, rx) = unbounded_channel();
    let handle = ConnectionHandle::new("one".to_string(), "k".to_string(), tx);
    drop(rx);
    assert_eq!(
        handle.send_command(ConnectionCommand::Join("#a".to_string())),
        Err(ConnectionError::ChannelClosed)
    );
    assert_eq!(handle.disconnect(None), Err(ConnectionError::ChannelClosed));
}

#[test]
fn error_messages() {
    assert_eq!(ConnectionError::NotFound.message(), "connection not found");
    assert_eq!(ConnectionError::ChannelClosed.message(), "connection channel closed");
}

#[test]
fn manager_keeps_its_scrollback_store() {
    let m = manager();
    assert_eq!(m.scrollback().base_dir(), "/data/scrollback");
    assert!(m.list().is_empty());
}

#[test]
fn connect_args_become_a_config() {
    let args = ConnectArgs {
        server: "irc.example.org".to_string(),
        port: 6697,
        use_tls: true,
        nickname: "me".to_string(),
        username: Some("u".to_string()),
        realname: None,
        password: Some("p".to_string()),
        auto_join: vec!["#a".to_string()],
    };
    let mut expected = config("irc.example.org", 6697, "me");
    expected.use_tls = true;
    expected.username = Some("u".to_string());
    expected.password = Some("p".to_string());
    expected.auto_join = vec!["#a".to_string()];
    assert_eq!(args.into_config(), expected);
}

#[test]
fn requests_are_routed_by_connection_id() {
    let mut m = manager();
    let (id, mut inbox) = started(m.connect(&config("a", 1, "n")));
    let join = JoinArgs { connection_id: id.clone(), channel: "#a".to_string() };
    assert_eq!(join.run(&m), Ok(()));
    let send = SendMessageArgs {
        connection_id: id.clone(),
        target: "#a".to_string(),
        message: "hi".to_string(),
    };
    assert_eq!(send.run(&m), Ok(()));
    let topic = TopicArgs {
        connection_id: id.clone(),
        channel: "#a".to_string(),
        topic: Some("t".to_string()),
    };
    assert_eq!(topic.run(&m), Ok(()));
    let part = PartArgs { connection_id: id.clone(), channel: "#a".to_string(), reason: None };
    assert_eq!(part.run(&m), Ok(()));
    assert_eq!(inbox.try_recv().unwrap(), ConnectionCommand::Join("#a".to_string()));
    assert_eq!(
        inbox.try_recv().unwrap(),
        ConnectionCommand::Privmsg { target: "#a".to_string(), message: "hi".to_string() }
    );
    assert_eq!(
        inbox.try_recv().unwrap(),
        ConnectionCommand::Topic { channel: "#a".to_string(), topic: Some("t".to_string()) }
    );
    assert_eq!(
        inbox.try_recv().unwrap(),
        ConnectionCommand::Part { channel: "#a".to_string(), reason: None }
    );
    let gone = DisconnectArgs { connection_id: id.clone(), reason: None };
    assert_eq!(
        gone.run(&mut m),
        Ok(IrcEvent::Disconnected { connection_id: id.clone(), reason: None })
    );
    assert_eq!(inbox.try_recv().unwrap(), ConnectionCommand::Quit { reason: None });
    let join = JoinArgs { connection_id: id, channel: "#a".to_string() };
    assert_eq!(join.run(&m), Err(ConnectionError::NotFound));
}

#[test]
fn scrollback_request_names_the_log_file() {
    let mut m = manager();
    let (id, _inbox) = started(m.connect(&config("irc.example.org", 6667, "me")));
    let args = ScrollbackArgs { connection_id: id, target: "#rust".to_string(), limit: Some(5) };
    assert_eq!(
        args.log_file(&m),
        Ok(vec![
            "/data/scrollback".to_string(),
            "irc.example.org_6667_me".to_string(),
            "_rust.jsonl".to_string()
        ])
    );
    let args = ScrollbackArgs { connection_id: "nope".to_string(), target: "x".to_string(), limit: None };
    assert_eq!(args.log_file(&m), Err(ConnectionError::NotFound));
}
