//! Messages as the bot sees them, what it sends back, and how a command is
//! recognised in a message.
use vstd::prelude::*;
use crate::text::{
    before_char, cat3, chars_of, contains, contains_exec, split_at_char, string_of, trim_start_char,
    trim_start_char_exec,
};

verus! {

broadcast use vstd::string::group_string_axioms;

/// A message the bot received, as plain values.
pub struct Incoming {
    /// The message as the IRC protocol writes it, prefix and line ending
    /// included.
    pub text: String,
    /// The nickname (or server name) of the message's source, where it has
    /// one.
    pub nickname: Option<String>,
    /// Whether the message is a `NOTICE`.
    pub is_notice: bool,
}

/// The two kinds of message the bot sends to a channel.
#[derive(Clone, Copy, PartialEq, Eq, Structural, Debug)]
pub enum SendKind {
    Notice,
    Ctcp,
}

/// One message the bot sends.
pub struct Send {
    pub kind: SendKind,
    pub target: String,
    pub text: String,
}

/// Why a command stopped early.
#[derive(Clone, Copy, PartialEq, Eq, Structural, Debug)]
pub enum BotError {
    /// A number in the command did not parse as a `usize`.
    BadNumber,
    /// The database could not write its file.
    NotSaved,
    /// `rmword` was given fewer than two words; the number of words it got.
    TooFewArguments(usize),
    /// The template did not render.
    Render,
    /// An item picked from a list was not a string.
    NotAString,
    /// Searching the link for an article number failed.
    Search,
}

/// What a command did: the messages to send, in order, and the error it
/// stopped with after them, if any.
pub struct Outcome {
    pub sends: Vec<Send>,
    pub error: Option<BotError>,
}

/// A message to send, as plain values: kind, target and text.
pub type SendView = (SendKind, Seq<char>, Seq<char>);

pub open spec fn send_view(s: Send) -> SendView {
    (s.kind, s.target@, s.text@)
}

pub open spec fn sends_view(v: Seq<Send>) -> Seq<SendView> {
    v.map_values(|s: Send| send_view(s))
}

/// A notice to `target`.
pub open spec fn notice(target: Seq<char>, text: Seq<char>) -> SendView {
    (SendKind::Notice, target, text)
}

/// The outcome sends exactly `sends` and ends with `error`.
pub open spec fn outcome_is(out: Outcome, sends: Seq<SendView>, error: Option<BotError>) -> bool {
    sends_view(out.sends@) == sends && out.error == error
}

/// The channels the bot joins.
pub open spec fn channels() -> Seq<Seq<char>> {
    seq!["#bot"@]
}

/// The first joined channel named anywhere in `text`, else the empty name.
pub open spec fn channel_from(text: Seq<char>, chans: Seq<Seq<char>>) -> Seq<char>
    decreases chans.len(),
{
    if chans.len() == 0 {
        Seq::empty()
    } else if contains(text, chans[0]) {
        chans[0]
    } else {
        channel_from(text, chans.drop_first())
    }
}

/// The channel a message is about: the first joined channel its text names,
/// else the empty name.
pub open spec fn channel(text: Seq<char>) -> Seq<char> {
    channel_from(text, channels())
}

/// The text that starts a command in a message to `chan`:
/// `PRIVMSG <chan><rest>`.
pub open spec fn command(chan: Seq<char>, rest: Seq<char>) -> Seq<char> {
    "PRIVMSG "@ + chan + rest
}

/// The command `rest` in the message's own channel.
pub open spec fn channel_command(text: Seq<char>, rest: Seq<char>) -> Seq<char> {
    command(channel(text), rest)
}

/// The sender's name as the bot reads it: the text before the first `!`,
/// without leading colons.
pub open spec fn username(text: Seq<char>) -> Seq<char> {
    trim_start_char(before_char(text, '!'), ':')
}

/// The characters of a string literal.
pub fn lit(s: &str) -> (v: Vec<char>)
    ensures
        v@ == s@,
{
    chars_of(s)
}

/// The characters of a message's text.
pub fn text_of(m: &Incoming) -> (v: Vec<char>)
    ensures
        v@ == m.text@,
{
    chars_of(m.text.as_str())
}

/// The channel a message's text is about.
pub fn channel_exec(text: &[char]) -> (r: Vec<char>)
    ensures
        r@ == channel(text@),
{
    let bot = lit("#bot");
    assert(channels()[0] == bot@);
    assert(channels().drop_first().len() == 0);
    assert(channel_from(text@, channels().drop_first()) == Seq::<char>::empty());
    if contains_exec(text, bot.as_slice()) {
        bot
    } else {
        Vec::new()
    }
}

/// `get_channel`: the channel a message is about, the first joined channel
/// its text names, else the empty name.
pub fn get_channel(m: &Incoming) -> (r: String)
    ensures
        r@ == channel(m.text@),
{
    let t = text_of(m);
    string_of(channel_exec(&t).as_slice())
}

/// The command text `PRIVMSG <chan><rest>`.
pub fn command_exec(chan: &[char], rest: &str) -> (r: Vec<char>)
    ensures
        r@ == command(chan@, rest@),
{
    cat3(lit("PRIVMSG ").as_slice(), chan, lit(rest).as_slice())
}

/// The sender's name as the bot reads it.
pub fn username_exec(text: &[char]) -> (r: Vec<char>)
    ensures
        r@ == username(text@),
{
    let (before, _, _) = split_at_char(text, '!');
    trim_start_char_exec(before.as_slice(), ':')
}

/// A notice to `target`.
pub fn notice_exec(target: &[char], text: &[char]) -> (s: Send)
    ensures
        send_view(s) == notice(target@, text@),
{
    Send { kind: SendKind::Notice, target: string_of(target), text: string_of(text) }
}

/// An outcome that sends nothing and ends without error.
pub fn quiet() -> (out: Outcome)
    ensures
        outcome_is(out, Seq::empty(), None),
{
    let v: Vec<Send> = Vec::new();
    assert(sends_view(v@) == Seq::<SendView>::empty());
    Outcome { sends: v, error: None }
}

/// An outcome that sends nothing and ends with `e`.
pub fn failed(e: BotError) -> (out: Outcome)
    ensures
        outcome_is(out, Seq::empty(), Some(e)),
{
    let v: Vec<Send> = Vec::new();
    assert(sends_view(v@) == Seq::<SendView>::empty());
    Outcome { sends: v, error: Some(e) }
}

/// An outcome that sends one message and ends without error.
pub fn just(s: Send) -> (out: Outcome)
    ensures
        outcome_is(out, seq![send_view(s)], None),
{
    let v: Vec<Send> = vec![s];
    assert(sends_view(v@) == seq![send_view(s)]);
    Outcome { sends: v, error: None }
}

/// An outcome that sends two messages and ends with `error`.
pub fn two(a: Send, b: Send, error: Option<BotError>) -> (out: Outcome)
    ensures
        outcome_is(out, seq![send_view(a), send_view(b)], error),
{
    let v: Vec<Send> = vec![a, b];
    assert(sends_view(v@) == seq![send_view(a), send_view(b)]);
    Outcome { sends: v, error }
}

} // verus!
