use hydrangea::abuse::{abuse, abuse_checked};
use hydrangea::message::{get_channel, BotError, Incoming, Outcome, SendKind};
use hydrangea::templates::{lasttpl, lasttpl_checked, lstpl, mktpl, rmtpl, showtpl};
use hydrangea::words::{mkword, rmword};
use hydrangea::store::{empty_db, stored_db};
use pickledb::{PickleDb, PickleDbDumpPolicy};

fn memory_db() -> PickleDb {
    empty_db("unused.db", PickleDbDumpPolicy::NeverDump)
}

fn failing_db() -> PickleDb {
    empty_db("/nonexistent-directory/for/this/test.db", PickleDbDumpPolicy::AutoDump)
}

/// A message from alice to #bot, written as the IRC protocol writes it: the
/// last argument takes a colon only where it is empty or holds a space.
fn say(text: &str) -> Incoming {
    let colon = if text.is_empty() || text.contains(' ') { ":" } else { "" };
    Incoming {
        text: format!(":alice!alice@host PRIVMSG #bot {}{}\r\n", colon, text),
        nickname: Some("alice".to_string()),
        is_notice: false,
    }
}

fn texts(out: &Outcome) -> Vec<String> {
    out.sends.iter().map(|s| s.text.clone()).collect()
}

fn assert_notices_to_bot(out: &Outcome) {
    for s in &out.sends {
        assert_eq!(s.kind, SendKind::Notice);
        assert_eq!(s.target, "#bot");
    }
}

#[test]
fn channel_is_bot_when_named() {
    assert_eq!(get_channel(&say("hello")), "#bot");
    let elsewhere = Incoming {
        text: ":alice!a@h PRIVMSG #other :hello\r\n".to_string(),
        nickname: Some("alice".to_string()),
        is_notice: false,
    };
    assert_eq!(get_channel(&elsewhere), "");
}

#[test]
fn mktpl_then_showtpl_gives_the_template_back() {
    let mut db = memory_db();
    let out = mktpl(&mut db, &say("mktpl {{name}} is great"));
    assert_eq!(texts(&out), vec!["mktpl added: 0:{{name}} is great\r\n".to_string()]);
    assert!(out.error.is_none());
    assert_notices_to_bot(&out);
    let out = mktpl(&mut db, &say("mktpl second one"));
    assert_eq!(texts(&out), vec!["mktpl added: 1:second one\r\n".to_string()]);
    let shown = showtpl(&db, &say("showtpl 0"));
    assert_eq!(texts(&shown), vec!["showtpl: 0:{{name}} is great".to_string()]);
    let shown = showtpl(&db, &say("showtpl 1"));
    assert_eq!(texts(&shown), vec!["showtpl: 1:second one".to_string()]);
}

#[test]
fn lstpl_counts_templates() {
    let mut db = memory_db();
    let out = lstpl(&db, &say("lstpl"));
    assert_eq!(texts(&out), vec!["lstpl: 0 templates (zero indexed)".to_string()]);
    mktpl(&mut db, &say("mktpl a"));
    mktpl(&mut db, &say("mktpl b"));
    let out = lstpl(&db, &say("lstpl"));
    assert_eq!(texts(&out), vec!["lstpl: 2 templates (zero indexed)".to_string()]);
}

#[test]
fn lstpl_needs_its_command() {
    let db = memory_db();
    let out = lstpl(&db, &say("hello"));
    assert!(out.sends.is_empty());
    assert!(out.error.is_none());
}

#[test]
fn showtpl_of_missing_template() {
    let mut db = memory_db();
    let out = showtpl(&db, &say("showtpl 3"));
    assert!(out.sends.is_empty(), "no templates, no reply");
    mktpl(&mut db, &say("mktpl a"));
    let out = showtpl(&db, &say("showtpl 3"));
    assert_eq!(texts(&out), vec!["showtpl: 3:that template doesn't exist you dipshit".to_string()]);
}

#[test]
fn showtpl_with_a_bad_number_fails() {
    let mut db = memory_db();
    mktpl(&mut db, &say("mktpl a"));
    let out = showtpl(&db, &say("showtpl zero"));
    assert!(out.sends.is_empty());
    assert_eq!(out.error, Some(BotError::BadNumber));
    let out = showtpl(&db, &say("showtpl +0"));
    assert_eq!(texts(&out), vec!["showtpl: 0:a".to_string()]);
    let out = showtpl(&db, &say("showtpl -0"));
    assert_eq!(out.error, Some(BotError::BadNumber));
    let out = showtpl(&db, &say("showtpl 99999999999999999999999"));
    assert_eq!(out.error, Some(BotError::BadNumber));
}

#[test]
fn rmtpl_removes_and_shifts() {
    let mut db = memory_db();
    mktpl(&mut db, &say("mktpl a"));
    mktpl(&mut db, &say("mktpl b"));
    mktpl(&mut db, &say("mktpl c"));
    let out = rmtpl(&mut db, &say("rmtpl 1"));
    assert_eq!(texts(&out), vec!["rmtpl: 1\r\n".to_string()]);
    assert_eq!(db.llen("tpl"), 2);
    let shown = showtpl(&db, &say("showtpl 1"));
    assert_eq!(texts(&shown), vec!["showtpl: 1:c".to_string()]);
    let out = rmtpl(&mut db, &say("rmtpl 7"));
    assert_eq!(texts(&out), vec!["rmtpl: 7\r\n".to_string()]);
    assert_eq!(db.llen("tpl"), 2);
}

#[test]
fn rmtpl_creates_the_list_first() {
    let mut db = memory_db();
    let out = rmtpl(&mut db, &say("rmtpl 0"));
    assert!(out.sends.is_empty());
    assert!(out.error.is_none());
    assert!(db.lexists("tpl"));
    let out = rmtpl(&mut db, &say("rmtpl x"));
    assert_eq!(out.error, Some(BotError::BadNumber));
}

#[test]
fn mktpl_reports_a_database_that_cannot_save() {
    let mut db = failing_db();
    let out = mktpl(&mut db, &say("mktpl a"));
    assert_eq!(out.error, Some(BotError::NotSaved));
    assert!(out.sends.is_empty());
    assert!(db.lexists("tpl"), "the list stays created in memory");
    assert_eq!(db.llen("tpl"), 0);
}

#[test]
fn mkword_then_rmword() {
    let mut db = memory_db();
    let out = mkword(&mut db, &say("mkword adj very big"));
    assert_eq!(texts(&out), vec!["mkword added: adj:very big".to_string()]);
    assert_eq!(db.llen("adj"), 1);
    let out = rmword(&mut db, &say("rmword adj very big"));
    assert_eq!(texts(&out), vec!["rmword: adj:very big".to_string()]);
    assert_eq!(db.llen("adj"), 0);
    let out = rmword(&mut db, &say("rmword adj very big"));
    assert_eq!(
        texts(&out),
        vec!["rmword: adj:very big doesn't exist".to_string(), "rmword: adj:very big".to_string()]
    );
}

#[test]
fn mkword_without_a_word() {
    let mut db = memory_db();
    let out = mkword(&mut db, &say("mkword adj"));
    assert_eq!(texts(&out), vec!["you used mkword wrong dipshit: adj\r\n:".to_string()]);
    assert!(!db.lexists("adj\r\n"));
}

#[test]
fn rmword_without_a_word_fails() {
    let mut db = memory_db();
    mkword(&mut db, &say("mkword adj big"));
    let msg = Incoming {
        text: ":alice!a@h PRIVMSG #bot :rmword adj".to_string(),
        nickname: Some("alice".to_string()),
        is_notice: false,
    };
    let out = rmword(&mut db, &msg);
    assert_eq!(texts(&out), vec!["rmword: invalid_arguments: arg length 1".to_string()]);
    assert_eq!(out.error, Some(BotError::TooFewArguments(1)));
}

#[test]
fn rmword_of_unknown_kind_is_silent() {
    let mut db = memory_db();
    let out = rmword(&mut db, &say("rmword noun cat"));
    assert!(out.sends.is_empty());
    assert!(out.error.is_none());
}

#[test]
fn abuse_fills_the_template() {
    let mut db = memory_db();
    mktpl(&mut db, &say("mktpl {{name}} is a {{adj}} {{noun}}"));
    mkword(&mut db, &say("mkword adj smelly"));
    let out = abuse(&mut db, &say("abuse bob 0"));
    assert_eq!(out.error, None);
    assert_eq!(texts(&out), vec!["bob is a smelly [missing: noun]".to_string()]);
    assert_notices_to_bot(&out);
    let last = lasttpl(&db, &say("lasttpl"));
    assert_eq!(texts(&last), vec!["lasttpl: 0".to_string()]);
}

#[test]
fn abuse_picks_a_template_at_random() {
    let mut db = memory_db();
    mktpl(&mut db, &say("mktpl hey {{name}}"));
    let msg = Incoming {
        text: ":alice!a@h PRIVMSG #bot :abuse carol".to_string(),
        nickname: Some("alice".to_string()),
        is_notice: false,
    };
    let out = abuse(&mut db, &msg);
    assert_eq!(texts(&out), vec!["hey carol".to_string()]);
    let last = lasttpl_checked(&db, &say("lasttpl")).unwrap();
    assert_eq!(texts(&last), vec!["lasttpl: 0".to_string()]);
}

#[test]
fn abuse_of_missing_template_names_the_sender() {
    let mut db = memory_db();
    mktpl(&mut db, &say("mktpl hey {{name}}"));
    let out = abuse(&mut db, &say("abuse bob 5"));
    assert_eq!(texts(&out), vec!["that template 5 doesn't exist, alice you dipshit".to_string()]);
    assert!(!db.exists("lasttpl"));
}

#[test]
fn abuse_without_templates_is_silent() {
    let mut db = memory_db();
    let out = abuse(&mut db, &say("abuse bob"));
    assert!(out.sends.is_empty());
    assert!(out.error.is_none());
}

#[test]
fn abuse_with_a_bad_number_fails() {
    let mut db = memory_db();
    let out = abuse(&mut db, &say("abuse bob x"));
    assert_eq!(out.error, Some(BotError::BadNumber));
}

#[test]
fn bare_abuse_is_ignored() {
    let mut db = memory_db();
    mktpl(&mut db, &say("mktpl hey {{name}}"));
    let out = abuse(&mut db, &say("abuse "));
    assert!(out.sends.is_empty());
    assert!(out.error.is_none());
}

#[test]
fn abuse_template_that_does_not_render() {
    let mut db = memory_db();
    mktpl(&mut db, &say("mktpl broken {{#if}}"));
    let out = abuse(&mut db, &say("abuse bob 0"));
    assert_eq!(out.error, Some(BotError::Render));
    assert!(out.sends.is_empty());
}

#[test]
fn abuse_with_a_stored_item_that_is_no_string() {
    let mut db = memory_db();
    db.lcreate("tpl").unwrap();
    db.ladd("tpl", &5u32).unwrap();
    let out = abuse(&mut db, &say("abuse bob"));
    assert_eq!(out.error, Some(BotError::NotAString));
}

#[test]
fn abuse_checked_refuses_where_no_nickname() {
    let mut db = memory_db();
    mktpl(&mut db, &say("mktpl hey {{name}}"));
    let msg = Incoming {
        text: "PRIVMSG #bot :abuse bob 4\r\n".to_string(),
        nickname: None,
        is_notice: false,
    };
    assert!(abuse_checked(&mut db, &msg).is_none());
    let ok = Incoming { text: "PRIVMSG #bot :abuse bob 0\r\n".to_string(), nickname: None, is_notice: false };
    let out = abuse_checked(&mut db, &ok).unwrap();
    assert_eq!(texts(&out), vec!["hey bob".to_string()]);
}

#[test]
fn lasttpl_checked_refuses_a_list_named_lasttpl() {
    let mut db = memory_db();
    mkword(&mut db, &say("mkword lasttpl x"));
    assert!(lasttpl_checked(&db, &say("lasttpl")).is_none());
    let out = lasttpl_checked(&db, &say("hello")).unwrap();
    assert!(out.sends.is_empty());
}

#[test]
fn stored_db_reads_back_what_was_written() {
    let path = "/tmp/hydrangea-stored-db-test.db";
    assert!(stored_db("/nonexistent-directory/stored.db", PickleDbDumpPolicy::NeverDump).is_none());
    let mut db = empty_db(path, PickleDbDumpPolicy::AutoDump);
    mktpl(&mut db, &say("mktpl hey {{name}}"));
    let loaded = stored_db(path, PickleDbDumpPolicy::NeverDump).unwrap();
    let out = showtpl(&loaded, &say("showtpl 0"));
    assert_eq!(texts(&out), vec!["showtpl: 0:hey {{name}}".to_string()]);
}

#[test]
fn rmword_undoes_mkword() {
    let mut db = memory_db();
    mkword(&mut db, &say("mkword noun dog"));
    mkword(&mut db, &say("mkword noun cat"));
    let out = rmword(&mut db, &say("rmword noun cat"));
    assert_eq!(texts(&out), vec!["rmword: noun:cat".to_string()]);
    assert_eq!(db.llen("noun"), 1);
    assert_eq!(db.lget::<String>("noun", 0), Some("dog".to_string()));
}
