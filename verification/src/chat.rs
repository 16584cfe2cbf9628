//! The commands that need no template database: `help`, `rmbot`, `theo`,
//! `smoke`, `smoko`, `define`, CBC link titles and link titles.
//!
//! Where a command needs something from outside (a file, a web page, the
//! clock, a stored record), it is split: one function decides what to fetch,
//! another what to reply once it is fetched.
use vstd::prelude::*;
use crate::message::{
    channel, channel_command, channel_exec, command_exec, failed, just, lit, notice, notice_exec,
    outcome_is, quiet, send_view, sends_view, text_of, two, username, username_exec, BotError,
    Incoming, Outcome, Send, SendKind, SendView,
};
use crate::outside::{
    article_number, article_number_in, article_search_fails, found_links, links_in, netloc_and_path, random_line,
    url_parts, Search,
};
use crate::text::{
    cat, cat3, contains, contains_exec, second_piece, second_piece_exec, signed_decimal,
    signed_decimal_exec, string_of, same, trim, trim_exec,
};

verus! {

broadcast use vstd::string::group_string_axioms;

// ---------------------------------------------------------------------------
// help
// ---------------------------------------------------------------------------

/// `hydrangea: help`: how to use the word commands.
pub fn help(msg: &Incoming) -> (out: Outcome)
    ensures
        contains(msg.text@, channel_command(msg.text@, " :hydrangea: help"@)) ==> outcome_is(
            out,
            seq![
                notice(
                    channel(msg.text@),
                    "help: \"mkword type word\", \"rmword type word\", etc"@,
                ),
            ],
            None,
        ),
        !contains(msg.text@, channel_command(msg.text@, " :hydrangea: help"@)) ==> outcome_is(
            out,
            seq![],
            None,
        ),
{
    let t = text_of(msg);
    let ch = channel_exec(t.as_slice());
    let pat = command_exec(ch.as_slice(), " :hydrangea: help");
    if !contains_exec(t.as_slice(), pat.as_slice()) {
        return quiet();
    }
    just(
        notice_exec(
            ch.as_slice(),
            lit("help: \"mkword type word\", \"rmword type word\", etc").as_slice(),
        ),
    )
}

// ---------------------------------------------------------------------------
// rmbot
// ---------------------------------------------------------------------------

/// What `rmbot` sends for a message: nothing without the command; a refusal
/// where the message names the bot itself or its fellow bot; else the
/// sender's mock removal.
pub open spec fn rmbot_sends(t: Seq<char>) -> Seq<SendView> {
    let ch = channel(t);
    if !contains(t, channel_command(t, " :rmbot"@)) {
        seq![]
    } else if contains(t, "hydrangea"@) {
        seq![notice(ch, "I am programmed to live! LIVVE!!!! LIIIII11VVV!!!!E!!!!!!!"@)]
    } else if contains(t, "buttbot"@) {
        seq![
            notice(ch, "I will not harm my brethren"@),
            (SendKind::Ctcp, ch, "hydrangea orders a drone strike on shivaram"@),
        ]
    } else {
        seq![notice(ch, "REMOVIVG HUMAN "@ + username(t) + " BEEP BOOP"@)]
    }
}

/// `rmbot`.
pub fn rmbot(msg: &Incoming) -> (out: Outcome)
    ensures
        outcome_is(out, rmbot_sends(msg.text@), None),
{
    let t = text_of(msg);
    let ch = channel_exec(t.as_slice());
    let pat = command_exec(ch.as_slice(), " :rmbot");
    if !contains_exec(t.as_slice(), pat.as_slice()) {
        return quiet();
    }
    if contains_exec(t.as_slice(), lit("hydrangea").as_slice()) {
        just(
            notice_exec(
                ch.as_slice(),
                lit("I am programmed to live! LIVVE!!!! LIIIII11VVV!!!!E!!!!!!!").as_slice(),
            ),
        )
    } else if contains_exec(t.as_slice(), lit("buttbot").as_slice()) {
        let strike = Send {
            kind: SendKind::Ctcp,
            target: string_of(ch.as_slice()),
            text: string_of(lit("hydrangea orders a drone strike on shivaram").as_slice()),
        };
        two(
            notice_exec(ch.as_slice(), lit("I will not harm my brethren").as_slice()),
            strike,
            None,
        )
    } else {
        let name = username_exec(t.as_slice());
        let text = cat3(lit("REMOVIVG HUMAN ").as_slice(), name.as_slice(), lit(" BEEP BOOP").as_slice());
        just(notice_exec(ch.as_slice(), text.as_slice()))
    }
}

// ---------------------------------------------------------------------------
// theo
// ---------------------------------------------------------------------------

/// The message asks for a fortune (`theo`).
pub open spec fn theo_wanted(t: Seq<char>) -> bool {
    contains(t, channel_command(t, " theo"@))
}

/// Whether the message asks for a fortune, so that the fortune file is read.
pub fn theo_asked(msg: &Incoming) -> (r: bool)
    ensures
        r == theo_wanted(msg.text@),
{
    let t = text_of(msg);
    let ch = channel_exec(t.as_slice());
    contains_exec(t.as_slice(), command_exec(ch.as_slice(), " theo").as_slice())
}

/// One line of the fortune file, picked at random; `None` where the file has
/// no lines.
pub fn pick_fortune(lines: Vec<String>) -> (r: Option<String>)
    ensures
        lines.len() > 0 <==> r is Some,
        r matches Some(line) ==> exists|i: int| 0 <= i < lines.len() && #[trigger] lines@[i] == line,
{
    random_line(lines)
}

/// The reply to `theo`, given the fortune read from the file (`None` where
/// the file could not be read).
pub open spec fn theo_text(fortune: Option<Seq<char>>) -> Seq<char> {
    match fortune {
        Some(f) => "theo: "@ + f,
        None => "theo: You didn't even add the fortune file, so how could you expect to use our software?"@,
    }
}

/// `theo`: the fortune, or a complaint about the missing file.
pub fn theo(msg: &Incoming, fortune: Option<String>) -> (out: Outcome)
    ensures
        theo_wanted(msg.text@) ==> outcome_is(
            out,
            seq![notice(channel(msg.text@), theo_text(crate::store::opt_chars(fortune)))],
            None,
        ),
        !theo_wanted(msg.text@) ==> outcome_is(out, seq![], None),
{
    if !theo_asked(msg) {
        return quiet();
    }
    let t = text_of(msg);
    let ch = channel_exec(t.as_slice());
    let text = match fortune {
        Some(f) => cat(lit("theo: ").as_slice(), lit(f.as_str()).as_slice()),
        None => lit(
            "theo: You didn't even add the fortune file, so how could you expect to use our software?",
        ),
    };
    just(notice_exec(ch.as_slice(), text.as_slice()))
}

// ---------------------------------------------------------------------------
// smoke and smoko
// ---------------------------------------------------------------------------

/// A smoker's record: how many smokes, and when the last one was (seconds
/// since the Unix epoch).
#[derive(Clone, Copy, PartialEq, Eq, Structural, Debug)]
pub struct Smoker {
    pub smokes: i32,
    pub last: u64,
}

/// The smoker a command is about, where the message holds `PRIVMSG <chan>
/// <word>`: the sender's name.
pub open spec fn smoker_named(t: Seq<char>, word: Seq<char>) -> Option<Seq<char>> {
    if contains(t, channel_command(t, word)) {
        Some(username(t))
    } else {
        None
    }
}

fn smoker_for(msg: &Incoming, word: &str) -> (r: Option<String>)
    ensures
        crate::store::opt_chars(r) == smoker_named(msg.text@, word@),
{
    let t = text_of(msg);
    let ch = channel_exec(t.as_slice());
    if contains_exec(t.as_slice(), command_exec(ch.as_slice(), word).as_slice()) {
        Some(string_of(username_exec(t.as_slice()).as_slice()))
    } else {
        None
    }
}

/// `smoke`: the sender whose smoke to count, where the message asks.
pub fn smoke_user(msg: &Incoming) -> (r: Option<String>)
    ensures
        crate::store::opt_chars(r) == smoker_named(msg.text@, " smoke"@),
{
    smoker_for(msg, " smoke")
}

/// `smoko`: the sender whose smoke break to count, where the message asks.
pub fn smoko_user(msg: &Incoming) -> (r: Option<String>)
    ensures
        crate::store::opt_chars(r) == smoker_named(msg.text@, " smoko"@),
{
    smoker_for(msg, " smoko")
}

/// The record after one more smoke at time `now`: the first one where there
/// was no record.
pub open spec fn smoked(prev: Option<Smoker>, now: u64) -> Smoker {
    match prev {
        Some(s) => Smoker { smokes: (s.smokes + 1) as i32, last: now },
        None => Smoker { smokes: 1, last: now },
    }
}

/// The record after one more smoke.
pub fn next_smoker(prev: Option<Smoker>, now: u64) -> (r: Smoker)
    requires
        prev matches Some(s) ==> s.smokes < i32::MAX,
    ensures
        r == smoked(prev, now),
        prev matches Some(s) ==> r.smokes == s.smokes + 1,
{
    match prev {
        Some(s) => Smoker { smokes: s.smokes + 1, last: now },
        None => Smoker { smokes: 1, last: now },
    }
}

/// The reply to `smoke` for `user` with the new record.
pub open spec fn smoke_text(user: Seq<char>, s: Smoker) -> Seq<char> {
    "That's smoke #"@ + signed_decimal(s.smokes as int) + " for "@ + user
        + " so far today... This brings you to a grand total of "@ + signed_decimal(s.smokes as int)
        + " smoke"@ + "s"@ + ". Keep up killing yourself with cancer!"@
}

/// The reply to `smoko` for `user` with the new record.
pub open spec fn smoko_text(user: Seq<char>, s: Smoker) -> Seq<char> {
    user + " is on smoko "@ + signed_decimal(s.smokes as int) + ", leave em alone"@
}

/// The notice announcing a smoke.
pub fn smoke_notice(msg: &Incoming, user: &str, s: Smoker) -> (r: Send)
    ensures
        send_view(r) == notice(channel(msg.text@), smoke_text(user@, s)),
{
    let t = text_of(msg);
    let ch = channel_exec(t.as_slice());
    let n = signed_decimal_exec(s.smokes);
    let a = cat3(lit("That's smoke #").as_slice(), n.as_slice(), lit(" for ").as_slice());
    let b = cat3(
        lit(user).as_slice(),
        lit(" so far today... This brings you to a grand total of ").as_slice(),
        n.as_slice(),
    );
    let c = cat3(
        lit(" smoke").as_slice(),
        lit("s").as_slice(),
        lit(". Keep up killing yourself with cancer!").as_slice(),
    );
    let text = cat3(a.as_slice(), b.as_slice(), c.as_slice());
    assert(text@ == smoke_text(user@, s));
    notice_exec(ch.as_slice(), text.as_slice())
}

/// The notice announcing a smoke break.
pub fn smoko_notice(msg: &Incoming, user: &str, s: Smoker) -> (r: Send)
    ensures
        send_view(r) == notice(channel(msg.text@), smoko_text(user@, s)),
{
    let t = text_of(msg);
    let ch = channel_exec(t.as_slice());
    let n = signed_decimal_exec(s.smokes);
    let text = cat(
        cat3(lit(user).as_slice(), lit(" is on smoko ").as_slice(), n.as_slice()).as_slice(),
        lit(", leave em alone").as_slice(),
    );
    notice_exec(ch.as_slice(), text.as_slice())
}

// ---------------------------------------------------------------------------
// define
// ---------------------------------------------------------------------------

/// One definition of the Urban Dictionary answer.
pub struct List {
    pub definition: String,
    pub permalink: String,
    pub thumbs_up: i64,
    pub sound_urls: Vec<String>,
    pub author: String,
    pub word: String,
    pub defid: i64,
    pub current_vote: String,
    pub written_on: String,
    pub example: String,
    pub thumbs_down: i64,
}

/// The Urban Dictionary answer: its definitions, best first.
pub struct Root {
    pub list: Vec<List>,
}

impl Default for List {
    fn default() -> (r: Self)
        ensures
            r.definition@.len() == 0 && r.permalink@.len() == 0 && r.thumbs_up == 0
                && r.sound_urls@.len() == 0 && r.author@.len() == 0 && r.word@.len() == 0
                && r.defid == 0 && r.current_vote@.len() == 0 && r.written_on@.len() == 0
                && r.example@.len() == 0 && r.thumbs_down == 0,
    {
        List {
            definition: String::new(),
            permalink: String::new(),
            thumbs_up: 0,
            sound_urls: Vec::new(),
            author: String::new(),
            word: String::new(),
            defid: 0,
            current_vote: String::new(),
            written_on: String::new(),
            example: String::new(),
            thumbs_down: 0,
        }
    }
}

impl Default for Root {
    fn default() -> (r: Self)
        ensures
            r.list@.len() == 0,
    {
        Root { list: Vec::new() }
    }
}

/// The term to define: what follows `define` in the message.
pub open spec fn define_term(t: Seq<char>) -> Option<Seq<char>> {
    second_piece(t, channel_command(t, " :define "@))
}

/// The Urban Dictionary query for a term.
pub open spec fn define_url(term: Seq<char>) -> Seq<char> {
    "https://api.urbandictionary.com/v0/define?term="@ + term
}

fn define_term_exec(msg: &Incoming) -> (r: Option<Vec<char>>)
    ensures
        match r {
            Some(v) => define_term(msg.text@) == Some(v@),
            None => define_term(msg.text@) is None,
        },
{
    let t = text_of(msg);
    let ch = channel_exec(t.as_slice());
    second_piece_exec(t.as_slice(), command_exec(ch.as_slice(), " :define ").as_slice())
}

/// `define <term>`: the URL to ask, where the message asks.
pub fn define_query(msg: &Incoming) -> (r: Option<String>)
    ensures
        match define_term(msg.text@) {
            Some(term) => crate::store::opt_chars(r) == Some(define_url(term)),
            None => r is None,
        },
        second_piece(msg.text@, "PRIVMSG "@ + channel(msg.text@) + " :define "@) is None ==> r is None,
        second_piece(msg.text@, "PRIVMSG "@ + channel(msg.text@) + " :define "@) matches Some(term)
            ==> (r matches Some(u) && u@ == "https://api.urbandictionary.com/v0/define?term="@ + term),
{
    match define_term_exec(msg) {
        Some(term) => Some(
            string_of(
                cat(
                    lit("https://api.urbandictionary.com/v0/define?term=").as_slice(),
                    term.as_slice(),
                ).as_slice(),
            ),
        ),
        None => None,
    }
}

/// The reply to `define <term>` with the answer: the first definition,
/// trimmed, or that nothing was found.
pub open spec fn define_text(term: Seq<char>, definitions: Seq<List>) -> Seq<char> {
    if definitions.len() > 0 {
        "define: "@ + trim(term) + ": "@ + trim(definitions[0].definition@)
    } else {
        "define: found nothing for "@ + term
    }
}

/// `define <term>`: the reply once the answer is in.
pub fn define_reply(msg: &Incoming, answer: &Root) -> (out: Outcome)
    ensures
        match define_term(msg.text@) {
            Some(term) => outcome_is(
                out,
                seq![notice(channel(msg.text@), define_text(term, answer.list@))],
                None,
            ),
            None => outcome_is(out, seq![], None),
        },
{
    let term = match define_term_exec(msg) {
        Some(term) => term,
        None => return quiet(),
    };
    let t = text_of(msg);
    let ch = channel_exec(t.as_slice());
    let text = if answer.list.len() > 0 {
        let def = trim_exec(lit(answer.list[0].definition.as_str()).as_slice());
        cat(
            cat3(lit("define: ").as_slice(), trim_exec(term.as_slice()).as_slice(), lit(": ").as_slice()).as_slice(),
            def.as_slice(),
        )
    } else {
        cat(lit("define: found nothing for ").as_slice(), term.as_slice())
    };
    just(notice_exec(ch.as_slice(), text.as_slice()))
}

// ---------------------------------------------------------------------------
// CBC links
// ---------------------------------------------------------------------------

/// The first link that mentions `cbc.ca`.
pub open spec fn first_cbc_link(links: Seq<Seq<char>>) -> Option<Seq<char>>
    decreases links.len(),
{
    if links.len() == 0 {
        None
    } else if contains(links[0], "cbc.ca"@) {
        Some(links[0])
    } else {
        first_cbc_link(links.drop_first())
    }
}

/// The link the CBC title lookup reads: the first CBC link, else nothing.
pub open spec fn cbc_link(t: Seq<char>) -> Seq<char> {
    match first_cbc_link(found_links(t)) {
        Some(l) => l,
        None => Seq::empty(),
    }
}

/// The CBC link is about sports.
pub open spec fn cbc_sports(t: Seq<char>) -> bool {
    match first_cbc_link(found_links(t)) {
        Some(l) => contains(l, "sports"@),
        None => false,
    }
}

/// The message holds links, and the chosen one is at a CBC address.
pub open spec fn cbc_wanted(t: Seq<char>) -> bool {
    found_links(t).len() > 0 && contains(url_parts(cbc_link(t)).0, "cbc.ca"@)
}

/// The CBC JSON address for an article number.
pub open spec fn cbc_json_url(number: Seq<char>) -> Seq<char> {
    "http://www.cbc.ca/json/cmlink/1."@ + number
}

/// What to do about a message's links for CBC titles.
pub enum CbcPlan {
    /// Nothing to do.
    Skip,
    /// Fetch the article's JSON from `url`, then reply with `cbc_reply`.
    Fetch { url: String, sports: bool },
    /// Reply at once.
    Done(Outcome),
}

/// The index of the first link that mentions `cbc.ca`.
fn first_cbc_index(links: &Vec<String>) -> (r: Option<usize>)
    ensures
        match r {
            Some(k) => k < links.len() && first_cbc_link(links.deep_view()) == Some(
                links[k as int]@,
            ),
            None => first_cbc_link(links.deep_view()) is None,
        },
{
    let ghost lv = links.deep_view();
    assert(lv.skip(0) == lv);
    let mut i: usize = 0;
    while i < links.len()
        invariant
            i <= links.len(),
            lv == links.deep_view(),
            first_cbc_link(lv) == first_cbc_link(lv.skip(i as int)),
        decreases links.len() - i,
    {
        assert(lv.skip(i as int)[0] == links[i as int]@);
        assert(lv.skip(i as int).drop_first() == lv.skip(i + 1));
        if contains_exec(lit(links[i].as_str()).as_slice(), lit("cbc.ca").as_slice()) {
            return Some(i);
        }
        i = i + 1;
    }
    assert(lv.skip(i as int).len() == 0);
    None
}

/// The CBC title lookup: where the message links to a CBC page, the JSON
/// address of its article, or the reply where the link has no article
/// number.
pub fn cbctitle(msg: &Incoming) -> (plan: CbcPlan)
    ensures
        ({
            let t = msg.text@;
            let path = url_parts(cbc_link(t)).1;
            if !cbc_wanted(t) {
                plan is Skip
            } else if article_search_fails(path) {
                plan matches CbcPlan::Done(o) && outcome_is(o, seq![], Some(BotError::Search))
            } else {
                match article_number(path) {
                    Some(number) => plan matches CbcPlan::Fetch { url, sports } && url@
                        == cbc_json_url(number) && sports == cbc_sports(t),
                    None => plan matches CbcPlan::Done(o) && outcome_is(
                        o,
                        seq![
                            notice(channel(t), "It ain't workin for this one | CBC Yeah I dunno mate"@),
                        ],
                        None,
                    ),
                }
            }
        }),
{
    let links = links_in(msg.text.as_str());
    let ghost lv = links.deep_view();
    if links.len() == 0 {
        return CbcPlan::Skip;
    }
    let (link, sports) = match first_cbc_index(&links) {
        Some(k) => {
            let l = lit(links[k].as_str());
            let sp = contains_exec(l.as_slice(), lit("sports").as_slice());
            (l, sp)
        },
        None => (Vec::new(), false),
    };
    let (netloc, path) = netloc_and_path(string_of(link.as_slice()).as_str());
    if !contains_exec(lit(netloc.as_str()).as_slice(), lit("cbc.ca").as_slice()) {
        return CbcPlan::Skip;
    }
    let t = text_of(msg);
    let ch = channel_exec(t.as_slice());
    match article_number_in(path.as_str()) {
        Search::Found(number) => CbcPlan::Fetch {
            url: string_of(
                cat(lit("http://www.cbc.ca/json/cmlink/1.").as_slice(), lit(number.as_str()).as_slice()).as_slice(),
            ),
            sports,
        },
        Search::NotFound => CbcPlan::Done(
            just(
                notice_exec(
                    ch.as_slice(),
                    lit("It ain't workin for this one | CBC Yeah I dunno mate").as_slice(),
                ),
            ),
        ),
        Search::Failed => CbcPlan::Done(failed(BotError::Search)),
    }
}

/// A CBC article's JSON: its headline.
pub struct CbcTitle {
    pub headline: String,
}

/// The reply with a CBC headline.
pub open spec fn cbc_text(headline: Seq<char>, sports: bool) -> Seq<char> {
    if sports {
        headline + " | CBC Sports"@
    } else {
        headline + " | CBC News"@
    }
}

/// The reply once the CBC article's JSON is in.
pub fn cbc_reply(msg: &Incoming, title: &CbcTitle, sports: bool) -> (out: Outcome)
    ensures
        outcome_is(out, seq![notice(channel(msg.text@), cbc_text(title.headline@, sports))], None),
{
    let t = text_of(msg);
    let ch = channel_exec(t.as_slice());
    let suffix = if sports {
        lit(" | CBC Sports")
    } else {
        lit(" | CBC News")
    };
    let text = cat(lit(title.headline.as_str()).as_slice(), suffix.as_slice());
    just(notice_exec(ch.as_slice(), text.as_slice()))
}

// ---------------------------------------------------------------------------
// Link titles
// ---------------------------------------------------------------------------

/// The links in a message whose pages' titles to announce, in order.
pub fn link_candidates(msg: &Incoming) -> (v: Vec<String>)
    ensures
        v.deep_view() == found_links(msg.text@),
{
    links_in(msg.text.as_str())
}

/// What to do once the page of link `i` has been fetched.
pub enum LinkStep {
    /// Fetch the page of the link with this index.
    Next(usize),
    /// The page has this title: announce it, and look at no more links.
    Title(String),
    /// No link's page had a title.
    Done,
}

/// The link-title loop: the page of link `i` had `title`. A title is
/// announced and ends the loop; without one the next link is tried, and
/// after the last link the loop ends.
pub fn link_next(links: &Vec<String>, i: usize, title: Option<String>) -> (step: LinkStep)
    requires
        i < links.len(),
    ensures
        match title {
            Some(t) => step matches LinkStep::Title(x) && x@ == t@,
            None => if i + 1 < links.len() {
                step matches LinkStep::Next(j) && j == i + 1
            } else {
                step is Done
            },
        },
{
    match title {
        Some(t) => LinkStep::Title(t),
        None => if i + 1 < links.len() {
            LinkStep::Next(i + 1)
        } else {
            LinkStep::Done
        },
    }
}

/// A page's title to announce: `None` where the other bot announced the same
/// title meanwhile.
pub fn link_announce(msg: &Incoming, title: &str, other_bot: Option<String>) -> (r: Option<Send>)
    ensures
        match other_bot {
            Some(b) => if b@ == title@ {
                r is None
            } else {
                r matches Some(s) && send_view(s) == notice(channel(msg.text@), title@)
            },
            None => r matches Some(s) && send_view(s) == notice(channel(msg.text@), title@),
        },
{
    let tl = lit(title);
    let duplicate = match &other_bot {
        Some(b) => same(lit(b.as_str()).as_slice(), tl.as_slice()),
        None => false,
    };
    if duplicate {
        return None;
    }
    let t = text_of(msg);
    let ch = channel_exec(t.as_slice());
    Some(notice_exec(ch.as_slice(), tl.as_slice()))
}

} // verus!
