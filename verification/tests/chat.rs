use hydrangea::chat::{
    cbc_reply, cbctitle, define_query, define_reply, help, link_announce, link_candidates, link_next, LinkStep,
    next_smoker, pick_fortune, rmbot, smoke_notice, smoke_user, smoko_notice, smoko_user, theo,
    theo_asked, CbcPlan, CbcTitle, List, Root, Smoker,
};
use hydrangea::message::{Incoming, Outcome, SendKind};

fn line(text: &str) -> Incoming {
    let colon = if text.is_empty() || text.contains(' ') { ":" } else { "" };
    Incoming {
        text: format!(":dave!dave@host PRIVMSG #bot {}{}\r\n", colon, text),
        nickname: Some("dave".to_string()),
        is_notice: false,
    }
}

fn texts(out: &Outcome) -> Vec<String> {
    out.sends.iter().map(|s| s.text.clone()).collect()
}

#[test]
fn help_explains_the_word_commands() {
    let out = help(&line("hydrangea: help"));
    assert_eq!(texts(&out), vec!["help: \"mkword type word\", \"rmword type word\", etc".to_string()]);
    assert_eq!(out.sends[0].target, "#bot");
    assert!(help(&line("help")).sends.is_empty());
}

#[test]
fn rmbot_removes_humans() {
    let out = rmbot(&line("rmbot someone"));
    assert_eq!(texts(&out), vec!["REMOVIVG HUMAN dave BEEP BOOP".to_string()]);
}

#[test]
fn rmbot_spares_itself() {
    let out = rmbot(&line("rmbot hydrangea"));
    assert_eq!(
        texts(&out),
        vec!["I am programmed to live! LIVVE!!!! LIIIII11VVV!!!!E!!!!!!!".to_string()]
    );
}

#[test]
fn rmbot_spares_its_brethren() {
    let out = rmbot(&line("rmbot buttbot"));
    assert_eq!(out.sends.len(), 2);
    assert_eq!(out.sends[0].kind, SendKind::Notice);
    assert_eq!(out.sends[0].text, "I will not harm my brethren");
    assert_eq!(out.sends[1].kind, SendKind::Ctcp);
    assert_eq!(out.sends[1].text, "hydrangea orders a drone strike on shivaram");
    assert_eq!(out.sends[1].target, "#bot");
}

#[test]
fn rmbot_needs_its_command() {
    assert!(rmbot(&line("hello there")).sends.is_empty());
}

#[test]
fn theo_replies_with_the_fortune() {
    let msg = line("theo");
    assert!(theo_asked(&msg));
    let out = theo(&msg, Some("Security is a process".to_string()));
    assert_eq!(texts(&out), vec!["theo: Security is a process".to_string()]);
    let out = theo(&msg, None);
    assert_eq!(
        texts(&out),
        vec!["theo: You didn't even add the fortune file, so how could you expect to use our software?".to_string()]
    );
    assert!(!theo_asked(&line("theo is great")));
}

#[test]
fn pick_fortune_picks_a_line() {
    let lines = vec!["one".to_string(), "two".to_string()];
    let picked = pick_fortune(lines.clone()).unwrap();
    assert!(lines.contains(&picked));
    assert_eq!(pick_fortune(Vec::new()), None);
}

#[test]
fn smoke_counts_up() {
    let msg = line("smoke");
    assert_eq!(smoke_user(&msg), Some("dave".to_string()));
    assert_eq!(smoko_user(&msg), None);
    let first = next_smoker(None, 100);
    assert_eq!(first, Smoker { smokes: 1, last: 100 });
    let second = next_smoker(Some(first), 200);
    assert_eq!(second, Smoker { smokes: 2, last: 200 });
    let notice = smoke_notice(&msg, "dave", second);
    assert_eq!(
        notice.text,
        "That's smoke #2 for dave so far today... This brings you to a grand total of 2 smokes. Keep up killing yourself with cancer!"
    );
    assert_eq!(notice.target, "#bot");
}

#[test]
fn smoko_reports_the_break() {
    let msg = line("smoko");
    assert_eq!(smoko_user(&msg), Some("dave".to_string()));
    let notice = smoko_notice(&msg, "dave", Smoker { smokes: 3, last: 5 });
    assert_eq!(notice.text, "dave is on smoko 3, leave em alone");
    let odd = smoko_notice(&msg, "dave", Smoker { smokes: -4, last: 5 });
    assert_eq!(odd.text, "dave is on smoko -4, leave em alone");
}

#[test]
fn define_builds_the_query_and_the_reply() {
    let msg = line("define yeet");
    assert_eq!(
        define_query(&msg),
        Some("https://api.urbandictionary.com/v0/define?term=yeet\r\n".to_string())
    );
    let mut first = List::default();
    first.definition = "  to throw  ".to_string();
    let answer = Root { list: vec![first, List::default()] };
    let out = define_reply(&msg, &answer);
    assert_eq!(texts(&out), vec!["define: yeet: to throw".to_string()]);
    let out = define_reply(&msg, &Root::default());
    assert_eq!(texts(&out), vec!["define: found nothing for yeet\r\n".to_string()]);
    assert_eq!(define_query(&line("undefine")), None);
}

#[test]
fn cbctitle_finds_the_article_number() {
    let msg = line("look https://www.cbc.ca/news/canada/some-story-1.6789012 wow");
    match cbctitle(&msg) {
        CbcPlan::Fetch { url, sports } => {
            assert_eq!(url, "http://www.cbc.ca/json/cmlink/1.6789012");
            assert!(!sports);
        },
        _ => panic!("expected a fetch"),
    }
    let msg = line("https://www.cbc.ca/sports/hockey/nhl/game-1.7001?x=1");
    match cbctitle(&msg) {
        CbcPlan::Fetch { url, sports } => {
            assert_eq!(url, "http://www.cbc.ca/json/cmlink/1.7001");
            assert!(sports);
        },
        _ => panic!("expected a fetch"),
    }
}

#[test]
fn cbctitle_without_article_number() {
    let msg = line("https://www.cbc.ca/news");
    match cbctitle(&msg) {
        CbcPlan::Done(out) => {
            assert_eq!(texts(&out), vec!["It ain't workin for this one | CBC Yeah I dunno mate".to_string()]);
            assert!(out.error.is_none());
        },
        _ => panic!("expected a reply"),
    }
}

#[test]
fn cbctitle_ignores_other_sites() {
    assert!(matches!(cbctitle(&line("see https://example.com/1.234")), CbcPlan::Skip));
    assert!(matches!(cbctitle(&line("no links here")), CbcPlan::Skip));
    assert!(matches!(cbctitle(&line("https://example.com/cbc.ca/1.234")), CbcPlan::Skip));
}

#[test]
fn cbc_reply_names_the_section() {
    let title = CbcTitle { headline: "Big news".to_string() };
    let msg = line("x");
    assert_eq!(texts(&cbc_reply(&msg, &title, true)), vec!["Big news | CBC Sports".to_string()]);
    assert_eq!(texts(&cbc_reply(&msg, &title, false)), vec!["Big news | CBC News".to_string()]);
}

#[test]
fn link_titles_skip_what_the_other_bot_said() {
    let msg = line("see https://example.com/page");
    assert!(link_candidates(&msg).contains(&"https://example.com/page".to_string()));
    assert!(link_announce(&msg, "A page", Some("A page".to_string())).is_none());
    let s = link_announce(&msg, "A page", Some("Another".to_string())).unwrap();
    assert_eq!(s.text, "A page");
    assert_eq!(s.target, "#bot");
    assert!(link_announce(&msg, "A page", None).is_some());
}

#[test]
fn link_titles_stop_at_the_first_title() {
    let links = vec!["https://a.example/".to_string(), "https://b.example/".to_string()];
    assert!(matches!(link_next(&links, 0, None), LinkStep::Next(1)));
    assert!(matches!(link_next(&links, 1, None), LinkStep::Done));
    match link_next(&links, 0, Some("A page".to_string())) {
        LinkStep::Title(t) => assert_eq!(t, "A page"),
        _ => panic!("expected the title"),
    }
}
