//! The IRC wire codec: lenient parsing of inbound lines and the canonical
//! text of every outbound line.

use crate::connection::{
    ConnectionCommand,
    ConnectionCommandView,
    ConnectionConfig,
    ConnectionConfigView,
};
use crate::messages::{ChannelUserInfo, ChannelUserView};
use crate::text::{
    chars_equal_ignoring_case,
    chars_of,
    chop_line_end,
    find_char,
    find_first,
    find_first_pair,
    find_pair,
    same_ignoring_ascii_case,
    slice_of,
    split_tokens,
    string_of,
    tokens,
    without_line_end,
};
use vstd::prelude::*;

verus! {

/// One inbound line, taken apart.
#[derive(Debug, Clone, PartialEq, Eq)]
pub struct ParsedMessage {
    pub prefix: Option<String>,
    pub command: String,
    pub params: Vec<String>,
    pub trailing: Option<String>,
}

pub ghost struct ParsedMessageView {
    pub prefix: Option<Seq<char>>,
    pub command: Seq<char>,
    pub params: Seq<Seq<char>>,
    pub trailing: Option<Seq<char>>,
}

impl DeepView for ParsedMessage {
    type V = ParsedMessageView;

    open spec fn deep_view(&self) -> ParsedMessageView {
        ParsedMessageView {
            prefix: self.prefix.deep_view(),
            command: self.command@,
            params: self.params.deep_view(),
            trailing: self.trailing.deep_view(),
        }
    }
}

impl View for ParsedMessage {
    type V = ParsedMessageView;

    open spec fn view(&self) -> ParsedMessageView {
        self.deep_view()
    }
}

/// What a line means once any prefix has been taken off: the text after the
/// first `" :"` is the trailing argument; the words before it are the
/// command and its parameters.
pub open spec fn parse_body(prefix: Option<Seq<char>>, rest: Seq<char>) -> ParsedMessageView {
    let cut = find_pair(rest, ' ', ':', 0);
    let words = tokens(rest.subrange(0, cut));
    ParsedMessageView {
        prefix,
        command: if words.len() > 0 {
            words[0]
        } else {
            Seq::empty()
        },
        params: if words.len() > 0 {
            words.subrange(1, words.len() as int)
        } else {
            Seq::empty()
        },
        trailing: if cut < rest.len() {
            Some(rest.subrange(cut + 2, rest.len() as int))
        } else {
            None
        },
    }
}

/// What a raw line means. The carriage returns and line feeds that end the
/// line do not count; every other character does, white space included. A
/// line that starts with `:` carries a prefix up to its first space; when no
/// space follows, the whole line is the command.
pub open spec fn parse_line(line: Seq<char>) -> ParsedMessageView {
    let t = without_line_end(line);
    if t.len() > 0 && t[0] == ':' {
        let sp = find_char(t, ' ', 0);
        if sp < t.len() {
            parse_body(Some(t.subrange(1, sp)), t.subrange(sp + 1, t.len() as int))
        } else {
            ParsedMessageView {
                prefix: None,
                command: t,
                params: Seq::empty(),
                trailing: None,
            }
        }
    } else {
        parse_body(None, t)
    }
}

fn parse_rest(prefix: Option<String>, rest: &Vec<char>) -> (parsed: ParsedMessage)
    ensures
        parsed@ == parse_body(prefix.deep_view(), rest@),
{
    let cut = find_first_pair(rest, ' ', ':');
    let head = slice_of(rest, 0, cut);
    let mut words = split_tokens(&head);
    let trailing = if cut < rest.len() {
        Some(string_of(rest, cut + 2, rest.len()))
    } else {
        None
    };
    let ghost all = words.deep_view();
    if words.len() > 0 {
        let command = words.remove(0);
        assert(words.deep_view() =~= all.subrange(1, all.len() as int));
        ParsedMessage { prefix, command, params: words, trailing }
    } else {
        ParsedMessage { prefix, command: String::new(), params: words, trailing }
    }
}

/// Parses one inbound line. Never fails: what cannot be read comes out as
/// empty fields.
pub fn parse_message(line: &str) -> (parsed: ParsedMessage)
    ensures
        parsed@ == parse_line(line@),
{
    let all = chars_of(line);
    let t = chop_line_end(&all);
    if t.len() > 0 && t[0] == ':' {
        let sp = find_first(&t, ' ');
        if sp < t.len() {
            let prefix = string_of(&t, 1, sp);
            let rest = slice_of(&t, sp + 1, t.len());
            parse_rest(Some(prefix), &rest)
        } else {
            let command = string_of(&t, 0, t.len());
            assert(t@.subrange(0, t@.len() as int) =~= t@);
            let parsed = ParsedMessage {
                prefix: None,
                command,
                params: Vec::new(),
                trailing: None,
            };
            assert(parsed.params.deep_view() =~= Seq::<Seq<char>>::empty());
            parsed
        }
    } else {
        parse_rest(None, &t)
    }
}

/// The nickname in a `nick!user@host` prefix: the text before the first
/// `!`, if there is any.
pub open spec fn nick_of(prefix: Seq<char>) -> Option<Seq<char>> {
    let n = find_char(prefix, '!', 0);
    if n == 0 {
        None
    } else {
        Some(prefix.subrange(0, n))
    }
}

/// The nickname a prefix names, if it names one.
pub fn extract_nick(prefix: String) -> (nick: Option<String>)
    ensures
        nick.deep_view() == nick_of(prefix@),
{
    let chars = chars_of(prefix.as_str());
    let n = find_first(&chars, '!');
    if n == 0 {
        None
    } else {
        Some(string_of(&chars, 0, n))
    }
}

/// Whether two names are the same up to the case of ASCII letters.
pub fn equals_ignore_case(a: &str, b: &str) -> (same: bool)
    ensures
        same == same_ignoring_ascii_case(a@, b@),
{
    let x = chars_of(a);
    let y = chars_of(b);
    chars_equal_ignoring_case(&x, &y)
}

/// The role a name-list sigil stands for.
pub open spec fn role_of(c: char) -> Option<Seq<char>> {
    if c == '~' {
        Some("owner"@)
    } else if c == '&' {
        Some("admin"@)
    } else if c == '@' {
        Some("op"@)
    } else if c == '%' {
        Some("halfop"@)
    } else if c == '+' {
        Some("voice"@)
    } else {
        None
    }
}

/// First index at or after `i` that holds no sigil, or the length.
pub open spec fn sigil_end(s: Seq<char>, i: int) -> int
    decreases s.len() - i,
{
    if 0 <= i < s.len() && role_of(s[i]) is Some {
        sigil_end(s, i + 1)
    } else {
        i
    }
}

/// A name-list entry: its leading sigils give the roles, in order; the
/// nickname starts at the first character that is no sigil.
pub open spec fn names_entry(entry: Seq<char>) -> ChannelUserView {
    let n = sigil_end(entry, 0);
    ChannelUserView {
        nick: entry.subrange(n, entry.len() as int),
        modes: Seq::new(n as nat, |k: int| role_of(entry[k]).unwrap()),
    }
}

/// A name list: one entry per white-space separated word.
pub open spec fn names_list(list: Seq<char>) -> Seq<ChannelUserView> {
    let words = tokens(list);
    Seq::new(words.len(), |k: int| names_entry(words[k]))
}

fn role_name(c: char) -> (role: Option<String>)
    ensures
        role.deep_view() == role_of(c),
{
    if c == '~' {
        Some("owner".to_owned())
    } else if c == '&' {
        Some("admin".to_owned())
    } else if c == '@' {
        Some("op".to_owned())
    } else if c == '%' {
        Some("halfop".to_owned())
    } else if c == '+' {
        Some("voice".to_owned())
    } else {
        None
    }
}

/// Decodes one entry of a name list.
pub fn parse_channel_user(entry: &str) -> (user: ChannelUserInfo)
    ensures
        user@ == names_entry(entry@),
{
    let chars = chars_of(entry);
    let mut modes: Vec<String> = Vec::new();
    let mut i: usize = 0;
    loop
        invariant
            i <= chars.len(),
            sigil_end(chars@, 0) == sigil_end(chars@, i as int),
            modes.deep_view() =~= Seq::new(i as nat, |k: int| role_of(chars@[k]).unwrap()),
        ensures
            i <= chars.len(),
            i == sigil_end(chars@, 0),
            modes.deep_view() =~= Seq::new(i as nat, |k: int| role_of(chars@[k]).unwrap()),
        decreases chars.len() - i,
    {
        if i >= chars.len() {
            break;
        }
        match role_name(chars[i]) {
            Some(role) => {
                let ghost before = modes.deep_view();
                modes.push(role);
                assert(modes.deep_view() =~= before.push(role@));
                i += 1;
            },
            None => {
                break;
            },
        }
    }
    let nick = string_of(&chars, i, chars.len());
    ChannelUserInfo { nick, modes }
}

/// Decodes the member list of a names reply.
pub fn parse_names(list: &str) -> (users: Vec<ChannelUserInfo>)
    ensures
        users.deep_view() == names_list(list@),
{
    let chars = chars_of(list);
    let words = split_tokens(&chars);
    let mut users: Vec<ChannelUserInfo> = Vec::new();
    let mut i: usize = 0;
    while i < words.len()
        invariant
            i <= words.len(),
            words.deep_view() == tokens(list@),
            users.deep_view() =~= Seq::new(i as nat, |k: int| names_entry(tokens(list@)[k])),
        decreases words.len() - i,
    {
        let user = parse_channel_user(words[i].as_str());
        let ghost before = users.deep_view();
        users.push(user);
        assert(users.deep_view() =~= before.push(user@));
        i += 1;
    }
    users
}

/// `PASS {password}`.
pub open spec fn pass_line(password: Seq<char>) -> Seq<char> {
    "PASS "@ + password
}

/// `NICK {nickname}`.
pub open spec fn nick_line(nickname: Seq<char>) -> Seq<char> {
    "NICK "@ + nickname
}

/// `USER {username} 0 * :{realname}`.
pub open spec fn user_line(username: Seq<char>, realname: Seq<char>) -> Seq<char> {
    "USER "@ + username + " 0 * :"@ + realname
}

/// `JOIN {channel}`.
pub open spec fn join_line(channel: Seq<char>) -> Seq<char> {
    "JOIN "@ + channel
}

/// `PART {channel}`, followed by ` :{reason}` when a reason is given.
pub open spec fn part_line(channel: Seq<char>, reason: Option<Seq<char>>) -> Seq<char> {
    match reason {
        Some(text) => "PART "@ + channel + " :"@ + text,
        None => "PART "@ + channel,
    }
}

/// `PRIVMSG {target} :{message}`.
pub open spec fn privmsg_line(target: Seq<char>, message: Seq<char>) -> Seq<char> {
    "PRIVMSG "@ + target + " :"@ + message
}

/// `TOPIC {channel}`, followed by ` :{topic}` when a topic is given.
pub open spec fn topic_line(channel: Seq<char>, topic: Option<Seq<char>>) -> Seq<char> {
    match topic {
        Some(text) => "TOPIC "@ + channel + " :"@ + text,
        None => "TOPIC "@ + channel,
    }
}

/// `QUIT`, followed by ` :{reason}` when a reason is given.
pub open spec fn quit_line(reason: Option<Seq<char>>) -> Seq<char> {
    match reason {
        Some(text) => "QUIT :"@ + text,
        None => "QUIT"@,
    }
}

/// `PONG :{token}`.
pub open spec fn pong_line(token: Seq<char>) -> Seq<char> {
    "PONG :"@ + token
}

/// The wire text of a command from the inbox.
pub open spec fn command_line(command: ConnectionCommandView) -> Seq<char> {
    match command {
        ConnectionCommandView::Join(channel) => join_line(channel),
        ConnectionCommandView::Part { channel, reason } => part_line(channel, reason),
        ConnectionCommandView::Privmsg { target, message } => privmsg_line(target, message),
        ConnectionCommandView::Topic { channel, topic } => topic_line(channel, topic),
        ConnectionCommandView::Quit { reason } => quit_line(reason),
    }
}

/// The registration lines, in sending order: `PASS` only when a password is
/// set, then `NICK`, then `USER`, where the nickname stands in for a missing
/// user name or real name.
pub open spec fn registration_lines(config: ConnectionConfigView) -> Seq<Seq<char>> {
    let nick = nick_line(config.nickname);
    let user = user_line(
        match config.username {
            Some(name) => name,
            None => config.nickname,
        },
        match config.realname {
            Some(name) => name,
            None => config.nickname,
        },
    );
    match config.password {
        Some(password) => seq![pass_line(password), nick, user],
        None => seq![nick, user],
    }
}

/// A line as it goes onto the wire: followed by CR LF.
pub open spec fn framed(line: Seq<char>) -> Seq<char> {
    line + "\r\n"@
}

fn join2(a: &str, b: &str) -> (r: String)
    ensures
        r@ == a@ + b@,
{
    let mut r = a.to_owned();
    r.append(b);
    r
}

fn join4(a: &str, b: &str, c: &str, d: &str) -> (r: String)
    ensures
        r@ == a@ + b@ + c@ + d@,
{
    let mut r = a.to_owned();
    r.append(b);
    r.append(c);
    r.append(d);
    r
}

/// The line that joins `channel`.
pub fn encode_join(channel: &str) -> (line: String)
    ensures
        line@ == join_line(channel@),
{
    join2("JOIN ", channel)
}

/// The line that leaves `channel`, with the reason if one is given.
pub fn encode_part(channel: &str, reason: &Option<String>) -> (line: String)
    ensures
        line@ == part_line(channel@, reason.deep_view()),
{
    match reason {
        Some(text) => join4("PART ", channel, " :", text.as_str()),
        None => join2("PART ", channel),
    }
}

/// The line that sends `message` to `target`.
pub fn encode_privmsg(target: &str, message: &str) -> (line: String)
    ensures
        line@ == privmsg_line(target@, message@),
{
    join4("PRIVMSG ", target, " :", message)
}

/// The line that sets the topic of `channel`, or asks for it when none
/// is given.
pub fn encode_topic(channel: &str, topic: &Option<String>) -> (line: String)
    ensures
        line@ == topic_line(channel@, topic.deep_view()),
{
    match topic {
        Some(text) => join4("TOPIC ", channel, " :", text.as_str()),
        None => join2("TOPIC ", channel),
    }
}

/// The line that ends the session, with the reason if one is given.
pub fn encode_quit(reason: &Option<String>) -> (line: String)
    ensures
        line@ == quit_line(reason.deep_view()),
{
    match reason {
        Some(text) => join2("QUIT :", text.as_str()),
        None => "QUIT".to_owned(),
    }
}

/// The line that answers a ping carrying `token`.
pub fn encode_pong(token: &str) -> (line: String)
    ensures
        line@ == pong_line(token@),
{
    join2("PONG :", token)
}

/// The wire text of a command from the inbox.
pub fn encode_command(command: &ConnectionCommand) -> (line: String)
    ensures
        line@ == command_line(command@),
{
    match command {
        ConnectionCommand::Join(channel) => encode_join(channel.as_str()),
        ConnectionCommand::Part { channel, reason } => encode_part(channel.as_str(), reason),
        ConnectionCommand::Privmsg { target, message } => encode_privmsg(
            target.as_str(),
            message.as_str(),
        ),
        ConnectionCommand::Topic { channel, topic } => encode_topic(channel.as_str(), topic),
        ConnectionCommand::Quit { reason } => encode_quit(reason),
    }
}

/// The lines that register a session with its server.
pub fn handshake_lines(config: &ConnectionConfig) -> (lines: Vec<String>)
    ensures
        lines.deep_view() == registration_lines(config@),
{
    let mut lines: Vec<String> = Vec::new();
    match &config.password {
        Some(password) => {
            lines.push(join2("PASS ", password.as_str()));
        },
        None => {},
    }
    lines.push(join2("NICK ", config.nickname.as_str()));
    let username = match &config.username {
        Some(name) => name.as_str(),
        None => config.nickname.as_str(),
    };
    let realname = match &config.realname {
        Some(name) => name.as_str(),
        None => config.nickname.as_str(),
    };
    lines.push(join4("USER ", username, " 0 * :", realname));
    lines
}

/// A line as it goes onto the wire.
pub fn wire_line(line: &str) -> (bytes: String)
    ensures
        bytes@ == framed(line@),
{
    join2(line, "\r\n")
}

} // verus!
