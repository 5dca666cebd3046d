use vstd::prelude::*;

use crate::forth::{evaluates, HostCall};

verus! {

/// Address of the chat room's plugin interface when none is configured.
pub open spec fn default_host() -> Seq<char> {
    "https://devzat.hackclub.com:5556"@
}

/// Room where the bot announces itself when none is configured.
pub open spec fn default_login_room() -> Seq<char> {
    "#bots"@
}

/// User told of the bot's login when none is configured.
pub open spec fn default_dev_nick() -> Seq<char> {
    "Arkaeriit"@
}

/// File whose age tells when the bot last ran a command, when none is
/// configured.
pub open spec fn default_last_action_file() -> Seq<char> {
    "/tmp/devzat_forth"@
}

/// Name the bot speaks under when none is configured.
pub open spec fn default_bot_name() -> Seq<char> {
    "Forth"@
}

/// The main room of the chat.
pub open spec fn main_room() -> Seq<char> {
    "#main"@
}

/// A configured value, or the default when it is not set.
pub open spec fn value_or(value: Option<String>, default: Seq<char>) -> Seq<char> {
    match value {
        Some(v) => v@,
        None => default,
    }
}

/// A configured value is always kept as it is, whatever it holds and
/// whatever the default.
pub proof fn lemma_configured_value_is_kept(v: String, default: Seq<char>)
    ensures
        value_or(Some(v), default) == v@,
{
}

/// Without a configured value, the default is used.
pub proof fn lemma_default_when_unset(default: Seq<char>)
    ensures
        value_or(None, default) == default,
{
}

/// A message states its room, sender, text and private recipient exactly.
pub proof fn lemma_is_message_fields(
    m: ChatMessage,
    room: Seq<char>,
    from: Option<Seq<char>>,
    text: Seq<char>,
    to: Option<Seq<char>>,
)
    requires
        is_message(m, room, from, text, to),
    ensures
        m.room@ == room,
        m.text@ == text,
        m.from is Some <==> from is Some,
        m.from matches Some(f) ==> f@ == from->0,
        m.ephemeral_to is Some <==> to is Some,
        m.ephemeral_to matches Some(t) ==> t@ == to->0,
{
}

fn or_default(value: Option<String>, default: &str) -> (res: String)
    ensures
        res@ == value_or(value, default@),
        value matches Some(v) ==> res@ == v@,
        value is None ==> res@ == default@,
{
    match value {
        Some(v) => v,
        None => default.to_owned(),
    }
}

/// The plugin's settings, each either configured or defaulted.
pub struct Settings {
    pub host: String,
    pub token: String,
    pub login_room: String,
    pub dev_nick: String,
    pub last_action_file: String,
}

impl Settings {
    /// Settings from the configured values (`PLUGIN_HOST`, `PLUGIN_TOKEN`,
    /// `LOGIN_ROOM`, `DEV_NICK`, `LAST_ACTION_FILE`). The token has no
    /// default: without it there are no settings.
    pub fn from_values(
        host: Option<String>,
        token: Option<String>,
        login_room: Option<String>,
        dev_nick: Option<String>,
        last_action_file: Option<String>,
    ) -> (res: Option<Settings>)
        ensures
            res is Some <==> token is Some,
            res matches Some(s) ==> {
                &&& s.host@ == value_or(host, default_host())
                &&& s.token@ == token->0@
                &&& s.login_room@ == value_or(login_room, default_login_room())
                &&& s.dev_nick@ == value_or(dev_nick, default_dev_nick())
                &&& s.last_action_file@ == value_or(last_action_file, default_last_action_file())
            },
            res matches Some(s) ==> {
                &&& (host matches Some(v) ==> s.host@ == v@)
                &&& (host is None ==> s.host@ == default_host())
                &&& (login_room matches Some(v) ==> s.login_room@ == v@)
                &&& (login_room is None ==> s.login_room@ == default_login_room())
                &&& (dev_nick matches Some(v) ==> s.dev_nick@ == v@)
                &&& (dev_nick is None ==> s.dev_nick@ == default_dev_nick())
                &&& (last_action_file matches Some(v) ==> s.last_action_file@ == v@)
                &&& (last_action_file is None ==> s.last_action_file@ == default_last_action_file())
            },
    {
        match token {
            None => None,
            Some(token) => Some(
                Settings {
                    host: or_default(host, "https://devzat.hackclub.com:5556"),
                    token,
                    login_room: or_default(login_room, "#bots"),
                    dev_nick: or_default(dev_nick, "Arkaeriit"),
                    last_action_file: or_default(last_action_file, "/tmp/devzat_forth"),
                },
            ),
        }
    }
}

/// The evaluations run for one `forth` command: the user's code, then a
/// single space, which ends a word left open at the end of the code.
pub fn forth_command(args: &str) -> (res: Vec<HostCall>)
    ensures
        res@.len() == 2,
        evaluates(res@[0], args@),
        evaluates(res@[1], " "@),
{
    let mut calls: Vec<HostCall> = Vec::new();
    calls.push(HostCall::Evaluate(args.to_owned()));
    calls.push(HostCall::Evaluate(" ".to_owned()));
    calls
}

/// The bot's name: the configured `BOT_NAME`, or `Forth`.
pub fn get_bot_name(configured: Option<String>) -> (res: String)
    ensures
        res@ == value_or(configured, default_bot_name()),
        configured matches Some(v) ==> res@ == v@,
        configured is None ==> res@ == default_bot_name(),
{
    or_default(configured, "Forth")
}

/// A message for the chat room.
pub struct ChatMessage {
    /// Room the message goes to.
    pub room: String,
    /// User the message is sent as.
    pub from: Option<String>,
    /// The text.
    pub text: String,
    /// The only user who sees the message, if it is private.
    pub ephemeral_to: Option<String>,
}

/// `m` is the message `text` from `from` in `room`, seen by `to` alone when
/// `to` is set.
pub open spec fn is_message(
    m: ChatMessage,
    room: Seq<char>,
    from: Option<Seq<char>>,
    text: Seq<char>,
    to: Option<Seq<char>>,
) -> bool {
    &&& m.room@ == room
    &&& match (m.from, from) {
        (Some(a), Some(b)) => a@ == b,
        (None, None) => true,
        _ => false,
    }
    &&& m.text@ == text
    &&& match (m.ephemeral_to, to) {
        (Some(a), Some(b)) => a@ == b,
        (None, None) => true,
        _ => false,
    }
}

/// The messages of the login notice, in the order they are sent: `msg` to
/// the login room, then `msg` in the main room for `login_msg_target` alone.
/// Both are sent as `name`; a failed send is ignored.
pub fn login_notify(name: &str, msg: &str, login_msg_room: &str, login_msg_target: &str) -> (res:
    Vec<ChatMessage>)
    ensures
        res@.len() == 2,
        is_message(res@[0], login_msg_room@, Some(name@), msg@, None),
        is_message(res@[1], main_room(), Some(name@), msg@, Some(login_msg_target@)),
{
    let mut messages: Vec<ChatMessage> = Vec::new();
    messages.push(
        ChatMessage {
            room: login_msg_room.to_owned(),
            from: Some(name.to_owned()),
            text: msg.to_owned(),
            ephemeral_to: None,
        },
    );
    messages.push(
        ChatMessage {
            room: "#main".to_owned(),
            from: Some(name.to_owned()),
            text: msg.to_owned(),
            ephemeral_to: Some(login_msg_target.to_owned()),
        },
    );
    messages
}

/// The message by which the bot says `msg` in the main room, as
/// `bot_name`, for everyone.
pub fn speak_up(bot_name: String, msg: &str) -> (res: ChatMessage)
    ensures
        is_message(res, main_room(), Some(bot_name@), msg@, None),
{
    ChatMessage { room: "#main".to_owned(), from: Some(bot_name), text: msg.to_owned(), ephemeral_to: None }
}

/// How recent, in seconds, the last action must be for the bot to speak up.
pub const LAST_ACTION_MAX_AGE_SECS: u64 = 40;

/// Whether the last action is recent enough, given the age of the last
/// action file in seconds, or `None` when that age could not be read.
pub fn is_last_action_up_to_date(age_secs: Option<u64>) -> (res: bool)
    ensures
        res <==> (age_secs matches Some(a) && a < LAST_ACTION_MAX_AGE_SECS),
{
    match age_secs {
        Some(a) => a < LAST_ACTION_MAX_AGE_SECS,
        None => false,
    }
}

/// What the plugin was asked to do on its command line.
#[derive(Debug)]
pub enum Invocation {
    /// `help`: print that there is no help, and stop.
    Help,
    /// `login-notify <message>`: say the message if the bot was active
    /// lately, and stop.
    LoginNotify(String),
    /// `login-notify` without a message: ask for one, and stop.
    MissingNotification,
    /// Anything else: serve the `forth` command.
    Serve,
}

/// Reads the command line, whose first element is the program's name.
pub fn parse_invocation(args: &Vec<String>) -> (res: Invocation)
    ensures
        res is Help <==> args@.len() > 1 && args@[1]@ == "help"@,
        res is LoginNotify <==> args@.len() > 2 && args@[1]@ == "login-notify"@,
        res matches Invocation::LoginNotify(m) ==> m@ == args@[2]@,
        res is MissingNotification <==> args@.len() == 2 && args@[1]@ == "login-notify"@,
        res is Serve <==> args@.len() <= 1 || (args@[1]@ != "help"@ && args@[1]@
            != "login-notify"@),
{
    if args.len() > 1 {
        let help = "help".to_owned();
        let notify = "login-notify".to_owned();
        proof {
            reveal_strlit("help");
            reveal_strlit("login-notify");
            assert("help"@ != "login-notify"@) by {
                assert("help"@.len() != "login-notify"@.len());
            }
        }
        if args[1] == help {
            Invocation::Help
        } else if args[1] == notify {
            if args.len() > 2 {
                Invocation::LoginNotify(args[2].clone())
            } else {
                Invocation::MissingNotification
            }
        } else {
            Invocation::Serve
        }
    } else {
        Invocation::Serve
    }
}

} // verus!
