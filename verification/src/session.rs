//! The bot's session: signing in over SASL, reacting to being kicked, passing
//! the other bot's notices on, the order in which commands run, and how often
//! the bot reconnects.
use vstd::prelude::*;
use crate::message::{lit, text_of, Incoming};
use crate::outside::{base64, base64_encode};
use crate::text::{cat3, contains, contains_exec, same, string_of};
use vstd::string::StringSliceAdditionalSpecFns;
use vstd::utf8::encode_utf8;

verus! {

broadcast use vstd::string::group_string_axioms;

/// The bot's nickname.
pub const NICKNAME: &'static str = "hydrangea";

/// The bot's password.
pub const PASSWORD: &'static str = "yourmom";

/// The SASL PLAIN credentials: authorization name, NUL, user name, NUL,
/// password.
pub open spec fn sasl_credentials() -> Seq<char> {
    "hydrangea"@ + seq!['\0'] + "hydrangea"@ + seq!['\0'] + "yourmom"@
}

/// One step of signing in.
pub enum AuthStep {
    /// Ask the server for SASL PLAIN.
    RequestSaslPlain,
    /// Send the base64-encoded credentials.
    SendSasl(String),
    /// Remember that the server accepted the credentials.
    MarkAuthenticated,
    /// Identify to the network's services.
    Identify,
}

/// A sign-in step as plain values.
pub enum AuthView {
    RequestSaslPlain,
    SendSasl(Seq<char>),
    MarkAuthenticated,
    Identify,
}

pub open spec fn auth_view(s: AuthStep) -> AuthView {
    match s {
        AuthStep::RequestSaslPlain => AuthView::RequestSaslPlain,
        AuthStep::SendSasl(t) => AuthView::SendSasl(t@),
        AuthStep::MarkAuthenticated => AuthView::MarkAuthenticated,
        AuthStep::Identify => AuthView::Identify,
    }
}

/// The sign-in steps for a message, in order, while not yet signed in: SASL
/// PLAIN where the server offers it, the credentials where the server asks
/// for them, and identifying where the server accepted them. None once
/// signed in.
pub open spec fn auth_steps(t: Seq<char>, authenticated: bool) -> Seq<AuthView> {
    if authenticated {
        seq![]
    } else {
        (if contains(t, "sasl=PLAIN"@) {
            seq![AuthView::RequestSaslPlain]
        } else {
            seq![]
        }) + (if contains(t, "AUTHENTICATE +"@) {
            seq![AuthView::SendSasl(base64(encode_utf8(sasl_credentials())))]
        } else {
            seq![]
        }) + (if contains(t, "Authentication successful"@) {
            seq![AuthView::MarkAuthenticated, AuthView::Identify]
        } else {
            seq![]
        })
    }
}

/// `authenticate`: the steps to take for a message, in order; the caller
/// stops at the first step that fails.
pub fn authenticate(msg: &Incoming, authenticated: bool) -> (steps: Vec<AuthStep>)
    ensures
        steps@.map_values(|s: AuthStep| auth_view(s)) == auth_steps(msg.text@, authenticated),
{
    let mut steps: Vec<AuthStep> = Vec::new();
    if authenticated {
        assert(steps@.map_values(|s: AuthStep| auth_view(s)) =~= Seq::<AuthView>::empty());
        return steps;
    }
    let t = text_of(msg);
    let ghost a = if contains(t@, "sasl=PLAIN"@) {
        seq![AuthView::RequestSaslPlain]
    } else {
        seq![]
    };
    let ghost b = if contains(t@, "AUTHENTICATE +"@) {
        seq![AuthView::SendSasl(base64(encode_utf8(sasl_credentials())))]
    } else {
        seq![]
    };
    let ghost c = if contains(t@, "Authentication successful"@) {
        seq![AuthView::MarkAuthenticated, AuthView::Identify]
    } else {
        seq![]
    };
    if contains_exec(t.as_slice(), lit("sasl=PLAIN").as_slice()) {
        steps.push(AuthStep::RequestSaslPlain);
    }
    assert(steps@.map_values(|s: AuthStep| auth_view(s)) =~= a);
    if contains_exec(t.as_slice(), lit("AUTHENTICATE +").as_slice()) {
        let mut nul: Vec<char> = Vec::new();
        nul.push('\0');
        let name = lit("hydrangea");
        let creds = cat3(
            cat3(name.as_slice(), nul.as_slice(), name.as_slice()).as_slice(),
            nul.as_slice(),
            lit("yourmom").as_slice(),
        );
        let creds_s = string_of(creds.as_slice());
        let encoded = base64_encode(creds_s.as_str());
        steps.push(AuthStep::SendSasl(encoded));
    }
    assert(steps@.map_values(|s: AuthStep| auth_view(s)) =~= a + b);
    if contains_exec(t.as_slice(), lit("Authentication successful").as_slice()) {
        steps.push(AuthStep::MarkAuthenticated);
        steps.push(AuthStep::Identify);
    }
    assert(steps@.map_values(|s: AuthStep| auth_view(s)) =~= a + b + c);
    steps
}

/// How the session reacts to a message.
pub struct Reaction {
    /// Say goodbye and quit.
    pub send_quit: bool,
    /// Whether the bot has quit, after this message.
    pub quit: bool,
    /// Whether the message goes on to sign-in and the commands.
    pub dispatch: bool,
}

/// The message kicks the bot from a channel.
pub open spec fn kicked(t: Seq<char>) -> bool {
    contains(t, "KICK #"@) && contains(t, "hydrangea"@)
}

/// The session's reaction to a message, having quit before or not: a kick
/// makes the bot say goodbye and quit; once quit, no message is handled.
pub fn react(quit: bool, msg: &Incoming) -> (r: Reaction)
    ensures
        r.send_quit == kicked(msg.text@),
        r.quit == (quit || kicked(msg.text@)),
        r.dispatch == !r.quit,
{
    let t = text_of(msg);
    let kick = contains_exec(t.as_slice(), lit("KICK #").as_slice()) && contains_exec(
        t.as_slice(),
        lit("hydrangea").as_slice(),
    );
    let q = quit || kick;
    Reaction { send_quit: kick, quit: q, dispatch: !q }
}

/// What the bot says when it quits.
pub fn quit_message() -> (s: String)
    ensures
        s@ == "GOODBYE FOREVER"@,
{
    string_of(lit("GOODBYE FOREVER").as_slice())
}

/// A notice from the other bot, `buttbot`, is passed on (its text) to the
/// link-title command, which compares titles with it.
pub open spec fn forwarded(m: Incoming) -> Option<Seq<char>> {
    if m.is_notice && (m.nickname matches Some(n) && n@ == "buttbot"@) {
        Some(m.text@)
    } else {
        None
    }
}

/// The text to pass on to the link-title command, where the message is a
/// notice from `buttbot`.
pub fn forward_notice(msg: &Incoming) -> (r: Option<String>)
    requires
        msg.is_notice ==> msg.nickname is Some,
    ensures
        crate::store::opt_chars(r) == forwarded(*msg),
{
    if !msg.is_notice {
        return None;
    }
    match &msg.nickname {
        Some(n) => if same(lit(n.as_str()).as_slice(), lit("buttbot").as_slice()) {
            Some(string_of(text_of(msg).as_slice()))
        } else {
            None
        },
        None => None,
    }
}

/// The commands, in the order in which each message goes through them.
#[derive(Clone, Copy, PartialEq, Eq, Structural, Debug)]
pub enum Handler {
    Smoke,
    Smoko,
    Mktpl,
    Mkword,
    Rmword,
    Lstpl,
    Rmtpl,
    Showtpl,
    Cbctitle,
    Theo,
    Help,
    Abuse,
    Lasttpl,
    Define,
    Rmbot,
}

/// The order of the commands.
pub open spec fn handler_order() -> Seq<Handler> {
    seq![
        Handler::Smoke,
        Handler::Smoko,
        Handler::Mktpl,
        Handler::Mkword,
        Handler::Rmword,
        Handler::Lstpl,
        Handler::Rmtpl,
        Handler::Showtpl,
        Handler::Cbctitle,
        Handler::Theo,
        Handler::Help,
        Handler::Abuse,
        Handler::Lasttpl,
        Handler::Define,
        Handler::Rmbot,
    ]
}

/// The commands each message goes through, in order; the first that fails
/// ends the message's handling.
pub fn handlers() -> (v: Vec<Handler>)
    ensures
        v@ == handler_order(),
{
    let v = vec![
        Handler::Smoke,
        Handler::Smoko,
        Handler::Mktpl,
        Handler::Mkword,
        Handler::Rmword,
        Handler::Lstpl,
        Handler::Rmtpl,
        Handler::Showtpl,
        Handler::Cbctitle,
        Handler::Theo,
        Handler::Help,
        Handler::Abuse,
        Handler::Lasttpl,
        Handler::Define,
        Handler::Rmbot,
    ];
    assert(v@ =~= handler_order());
    v
}

/// The command to run after command `index` (in `handler_order`): the
/// next one where `index` succeeded and is not the last; none where it
/// failed, which ends the message's handling, or was the last.
pub open spec fn next_handler(index: nat, succeeded: bool) -> Option<nat> {
    if succeeded && index + 1 < handler_order().len() {
        Some(index + 1)
    } else {
        None
    }
}

/// The index of the command to run after command `index` succeeded or
/// failed.
pub fn after_handler(index: usize, succeeded: bool) -> (next: Option<usize>)
    requires
        index < handler_order().len(),
    ensures
        match next {
            Some(j) => next_handler(index as nat, succeeded) == Some(j as nat),
            None => next_handler(index as nat, succeeded) is None,
        },
{
    if succeeded && index + 1 < 15 {
        Some(index + 1)
    } else {
        None
    }
}

/// How many times the bot connects before it gives up.
pub const CONNECTION_ATTEMPTS: u32 = 69420;

/// The attempts left after one more attempt: `None` once none are left.
pub fn after_attempt(left: u32) -> (r: Option<u32>)
    requires
        left > 0,
    ensures
        left == 1 ==> r is None,
        left > 1 ==> r == Some((left - 1) as u32),
{
    let next = left - 1;
    if next == 0 {
        None
    } else {
        Some(next)
    }
}

} // verus!
