//! The word commands: `mkword <kind> <word>` adds a word to the database list
//! `<kind>`, `rmword <kind> <word>` takes it out again. Templates name these
//! lists in their placeholders.
use vstd::prelude::*;
use pickledb::PickleDb;
use crate::message::{
    channel, channel_command, channel_exec, command_exec, failed, just, lit, notice, notice_exec,
    outcome_is, quiet, text_of, two, BotError, Incoming, Outcome,
};
use crate::store::{
    db_file_path, db_path_is_text,
    db_lists, items, item_index_from, json_string, list_add_string, list_create, list_exists,
    list_remove_string, pushed, removed, state, string_from_json, with_list, DbState,
};
use crate::text::{
    after_char, before_char, cat, cat3, decimal, decimal_exec, index_of, second_piece,
    second_piece_exec, split_at_char, string_of, trim, trim_exec,
};

verus! {

broadcast use vstd::string::group_string_axioms;

/// The kind a word command names: its argument up to the first space.
pub open spec fn word_kind(arg: Seq<char>) -> Seq<char> {
    before_char(arg, ' ')
}

/// The word a word command names: the rest of its argument after the first
/// space, trimmed (`split(' ')` and `join(" ")` give back that rest).
pub open spec fn word_of(arg: Seq<char>) -> Seq<char> {
    trim(after_char(arg, ' '))
}

/// `"<kind>:<word>"`, as the replies write a word.
pub open spec fn kind_word(kind: Seq<char>, word: Seq<char>) -> Seq<char> {
    kind + ":"@ + word
}

/// Makes the database's state `with_list(st, name)`.
fn ensure_list(db: &mut PickleDb, name: &str) -> (saved: bool)
    requires
        db_path_is_text(*old(db)),
    ensures
        db_path_is_text(*final(db)),
        db_file_path(*final(db)) == db_file_path(*old(db)),
        state(*final(db)) == with_list(state(*old(db)), name@),
        db_lists(*old(db)).contains_key(name@) ==> saved,
{
    if list_exists(db, name) {
        true
    } else {
        let saved = list_create(db, name);
        assert(state(*db) =~= with_list(state(*old(db)), name@));
        saved
    }
}

/// What `mkword` does to the database (from `st0` to `st`) and replies, for
/// a message with text `t`.
pub open spec fn mkword_result(st0: DbState, t: Seq<char>, st: DbState, out: Outcome) -> bool {
    match second_piece(t, channel_command(t, " :mkword "@)) {
        None => st == st0 && outcome_is(out, seq![], None),
        Some(arg) => {
            let kind = word_kind(arg);
            let word = word_of(arg);
            if index_of(arg, ' ') is None {
                st == st0 && outcome_is(
                    out,
                    seq![
                        notice(
                            channel(t),
                            "you used mkword wrong dipshit: "@ + kind_word(kind, word),
                        ),
                    ],
                    None,
                )
            } else {
                let st1 = with_list(st0, kind);
                ||| (outcome_is(out, seq![], Some(BotError::NotSaved)) && st == st1)
                ||| (outcome_is(out, seq![], None) && st == st1)
                ||| (outcome_is(
                    out,
                    seq![notice(channel(t), "mkword added: "@ + kind_word(kind, word))],
                    None,
                ) && st == pushed(st1, kind, json_string(word))
                    && string_from_json(json_string(word)) == Some(word))
            }
        },
    }
}

/// `mkword <kind> <word>`: appends the word to the list `<kind>`, creating
/// the list where it is missing. Without a word it only tells the user off.
pub fn mkword(db: &mut PickleDb, msg: &Incoming) -> (out: Outcome)
    requires
        db_path_is_text(*old(db)),
    ensures
        db_path_is_text(*final(db)),
        db_file_path(*final(db)) == db_file_path(*old(db)),
        mkword_result(state(*old(db)), msg.text@, state(*final(db)), out),
{
    let t = text_of(msg);
    let ch = channel_exec(t.as_slice());
    let pat = command_exec(ch.as_slice(), " :mkword ");
    let arg = match second_piece_exec(t.as_slice(), pat.as_slice()) {
        None => return quiet(),
        Some(a) => a,
    };
    let (kind, has_word, rest) = split_at_char(arg.as_slice(), ' ');
    let word = trim_exec(rest.as_slice());
    if !has_word {
        let text = cat(
            lit("you used mkword wrong dipshit: ").as_slice(),
            cat3(kind.as_slice(), lit(":").as_slice(), word.as_slice()).as_slice(),
        );
        return just(notice_exec(ch.as_slice(), text.as_slice()));
    }
    let kind_s = string_of(kind.as_slice());
    if !ensure_list(db, kind_s.as_str()) {
        return failed(BotError::NotSaved);
    }
    let ghost st1 = state(*db);
    let word_s = string_of(word.as_slice());
    if list_add_string(db, kind_s.as_str(), word_s.as_str()) {
        assert(state(*db) =~= pushed(st1, kind@, json_string(word@)));
        let text = cat(
            lit("mkword added: ").as_slice(),
            cat3(kind.as_slice(), lit(":").as_slice(), word.as_slice()).as_slice(),
        );
        just(notice_exec(ch.as_slice(), text.as_slice()))
    } else {
        quiet()
    }
}

/// What `rmword` does to the database (from `st0` to `st`) and replies, for
/// a message with text `t`.
pub open spec fn rmword_result(st0: DbState, t: Seq<char>, st: DbState, out: Outcome) -> bool {
    match second_piece(t, channel_command(t, " :rmword "@)) {
        None => st == st0 && outcome_is(out, seq![], None),
        Some(arg) => {
            let kind = word_kind(arg);
            let word = word_of(arg);
            let said = "rmword: "@ + kind_word(kind, word);
            if !st0.lists.contains_key(kind) {
                st == st0 && outcome_is(out, seq![], None)
            } else if index_of(arg, ' ') is None {
                st == st0 && outcome_is(
                    out,
                    seq![
                        notice(
                            channel(t),
                            "rmword: invalid_arguments: arg length "@ + decimal(1),
                        ),
                    ],
                    Some(BotError::TooFewArguments(1)),
                )
            } else {
                match item_index_from(items(st0, kind), json_string(word), 0) {
                    None => st == st0 && outcome_is(
                        out,
                        seq![
                            notice(channel(t), said + " doesn't exist"@),
                            notice(channel(t), said),
                        ],
                        None,
                    ),
                    Some(i) => (st == removed(st0, kind, i) && outcome_is(
                        out,
                        seq![notice(channel(t), said)],
                        None,
                    )) || (st == st0 && outcome_is(
                        out,
                        seq![],
                        Some(BotError::NotSaved),
                    )),
                }
            }
        },
    }
}

/// `rmword <kind> <word>`: takes the first equal word out of the list
/// `<kind>`. Where the list does not exist nothing happens; without a word the
/// command reports the wrong number of arguments and fails.
pub fn rmword(db: &mut PickleDb, msg: &Incoming) -> (out: Outcome)
    requires
        db_path_is_text(*old(db)),
    ensures
        db_path_is_text(*final(db)),
        db_file_path(*final(db)) == db_file_path(*old(db)),
        rmword_result(state(*old(db)), msg.text@, state(*final(db)), out),
{
    let t = text_of(msg);
    let ch = channel_exec(t.as_slice());
    let pat = command_exec(ch.as_slice(), " :rmword ");
    let arg = match second_piece_exec(t.as_slice(), pat.as_slice()) {
        None => return quiet(),
        Some(a) => a,
    };
    let (kind, has_word, rest) = split_at_char(arg.as_slice(), ' ');
    let kind_s = string_of(kind.as_slice());
    if !list_exists(db, kind_s.as_str()) {
        return quiet();
    }
    if !has_word {
        let text = cat(
            lit("rmword: invalid_arguments: arg length ").as_slice(),
            decimal_exec(1).as_slice(),
        );
        let v = vec![notice_exec(ch.as_slice(), text.as_slice())];
        let out = Outcome { sends: v, error: Some(BotError::TooFewArguments(1)) };
        assert(crate::message::sends_view(out.sends@) == seq![
            notice(channel(t@), "rmword: invalid_arguments: arg length "@ + decimal(1)),
        ]);
        return out;
    }
    let word = trim_exec(rest.as_slice());
    let word_s = string_of(word.as_slice());
    let said = cat(
        lit("rmword: ").as_slice(),
        cat3(kind.as_slice(), lit(":").as_slice(), word.as_slice()).as_slice(),
    );
    match list_remove_string(db, kind_s.as_str(), word_s.as_str()) {
        None => failed(BotError::NotSaved),
        Some(true) => {
            proof {
                let i = item_index_from(items(state(*old(db)), kind@), json_string(word@), 0)->0;
                assert(state(*db) =~= removed(state(*old(db)), kind@, i));
            }
            just(notice_exec(ch.as_slice(), said.as_slice()))
        },
        Some(false) => {
            let missing = cat(said.as_slice(), lit(" doesn't exist").as_slice());
            two(
                notice_exec(ch.as_slice(), missing.as_slice()),
                notice_exec(ch.as_slice(), said.as_slice()),
                None,
            )
        },
    }
}

} // verus!
