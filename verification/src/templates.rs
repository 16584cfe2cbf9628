//! The template commands: `mktpl`, `lstpl`, `showtpl`, `rmtpl` and
//! `lasttpl`. Templates are the items of the database list `tpl`, numbered
//! from zero.
use vstd::prelude::*;
use pickledb::PickleDb;
use crate::message::{
    channel, channel_command, channel_exec, command_exec, failed, just, lit, notice, notice_exec,
    outcome_is, quiet, text_of, BotError, Incoming, Outcome,
};
use crate::store::{
    db_file_path, db_path_is_text,
    db_lists, db_values, items, json_string, key_exists, list_create, list_exists,
    list_get_string, list_len, list_add_string, list_pop_string, opt_chars, pushed, removed,
    state, string_from_json, u64_from_json, unchanged, value_get_u64, with_list, DbState,
};
use crate::text::{
    cat, cat3, contains, contains_exec, decimal, decimal_exec, parse_usize, parse_usize_exec,
    second_piece, second_piece_exec, string_of, trim, trim_exec,
};

verus! {

broadcast use vstd::string::group_string_axioms;

/// The template at `n` in `st`, read as a string, where there is one.
pub open spec fn template_at(st: DbState, n: nat) -> Option<Seq<char>> {
    if n < items(st, "tpl"@).len() {
        string_from_json(items(st, "tpl"@)[n as int])
    } else {
        None
    }
}

/// The reply to `showtpl n` where the list holds templates.
pub open spec fn shown_template(st: DbState, n: nat) -> Seq<char> {
    match template_at(st, n) {
        Some(s) => s,
        None => "that template doesn't exist you dipshit"@,
    }
}

/// Makes the database's state `with_list(st, name)` where it was `st`:
/// creates the list where it is missing.
fn ensure_list(db: &mut PickleDb, name: &str) -> (saved: bool)
    requires
        db_path_is_text(*old(db)),
    ensures
        db_path_is_text(*final(db)),
        db_file_path(*final(db)) == db_file_path(*old(db)),
        state(*final(db)) == with_list(state(*old(db)), name@),
        db_lists(*old(db)).contains_key(name@) ==> saved,
{
    if list_exists(db, name) {
        true
    } else {
        let saved = list_create(db, name);
        assert(state(*db) =~= with_list(state(*old(db)), name@));
        saved
    }
}

/// `mktpl <template>`: appends the trimmed template to the list `tpl`
/// (creating the list where it is missing) and announces its number, which
/// is the list's length before the append.
pub fn mktpl(db: &mut PickleDb, msg: &Incoming) -> (out: Outcome)
    requires
        db_path_is_text(*old(db)),
    ensures
        db_path_is_text(*final(db)),
        db_file_path(*final(db)) == db_file_path(*old(db)),
        ({
            let t = msg.text@;
            match second_piece(t, channel_command(t, " :mktpl "@)) {
                None => unchanged(*old(db), *final(db)) && outcome_is(out, seq![], None),
                Some(arg) => {
                    let st1 = with_list(state(*old(db)), "tpl"@);
                    let n = items(st1, "tpl"@).len();
                    ||| (outcome_is(out, seq![], Some(BotError::NotSaved)) && state(*final(db))
                        == st1)
                    ||| (outcome_is(
                        out,
                        seq![
                            notice(
                                channel(t),
                                "mktpl added: "@ + decimal(n) + ":"@ + arg,
                            ),
                        ],
                        None,
                    ) && state(*final(db)) == pushed(st1, "tpl"@, json_string(trim(arg)))
                        && string_from_json(json_string(trim(arg))) == Some(trim(arg)))
                },
            }
        }),
{
    let t = text_of(msg);
    let ch = channel_exec(t.as_slice());
    let pat = command_exec(ch.as_slice(), " :mktpl ");
    let arg = match second_piece_exec(t.as_slice(), pat.as_slice()) {
        None => return quiet(),
        Some(a) => a,
    };
    if !ensure_list(db, "tpl") {
        return failed(BotError::NotSaved);
    }
    let ghost st1 = state(*db);
    let item = string_of(trim_exec(arg.as_slice()).as_slice());
    if !list_add_string(db, "tpl", item.as_str()) {
        return failed(BotError::NotSaved);
    }
    assert(state(*db) =~= pushed(st1, "tpl"@, json_string(trim(arg@))));
    let n = list_len(db, "tpl") - 1;
    let text = cat(
        cat3(lit("mktpl added: ").as_slice(), decimal_exec(n as u64).as_slice(), lit(":").as_slice()).as_slice(),
        arg.as_slice(),
    );
    just(notice_exec(ch.as_slice(), text.as_slice()))
}

/// `lstpl`: announces how many templates there are.
pub fn lstpl(db: &PickleDb, msg: &Incoming) -> (out: Outcome)
    ensures
        ({
            let t = msg.text@;
            if contains(t, channel_command(t, " lstpl"@)) {
                outcome_is(
                    out,
                    seq![
                        notice(
                            channel(t),
                            "lstpl: "@ + decimal(items(state(*db), "tpl"@).len())
                                + " templates (zero indexed)"@,
                        ),
                    ],
                    None,
                )
            } else {
                outcome_is(out, seq![], None)
            }
        }),
{
    let t = text_of(msg);
    let ch = channel_exec(t.as_slice());
    let pat = command_exec(ch.as_slice(), " lstpl");
    if !contains_exec(t.as_slice(), pat.as_slice()) {
        return quiet();
    }
    let n = list_len(db, "tpl");
    let text = cat3(
        lit("lstpl: ").as_slice(),
        decimal_exec(n as u64).as_slice(),
        lit(" templates (zero indexed)").as_slice(),
    );
    just(notice_exec(ch.as_slice(), text.as_slice()))
}

/// `showtpl <n>`: shows template `n`, where the list holds any templates.
pub fn showtpl(db: &PickleDb, msg: &Incoming) -> (out: Outcome)
    ensures
        ({
            let t = msg.text@;
            let st = state(*db);
            match second_piece(t, channel_command(t, " :showtpl "@)) {
                None => outcome_is(out, seq![], None),
                Some(arg) => match parse_usize(trim(arg)) {
                    None => outcome_is(out, seq![], Some(BotError::BadNumber)),
                    Some(n) => if items(st, "tpl"@).len() == 0 {
                        outcome_is(out, seq![], None)
                    } else {
                        outcome_is(
                            out,
                            seq![
                                notice(
                                    channel(t),
                                    "showtpl: "@ + decimal(n) + ":"@ + shown_template(st, n),
                                ),
                            ],
                            None,
                        )
                    },
                },
            }
        }),
{
    let t = text_of(msg);
    let ch = channel_exec(t.as_slice());
    let pat = command_exec(ch.as_slice(), " :showtpl ");
    let arg = match second_piece_exec(t.as_slice(), pat.as_slice()) {
        None => return quiet(),
        Some(a) => a,
    };
    let n = match parse_usize_exec(trim_exec(arg.as_slice()).as_slice()) {
        None => return failed(BotError::BadNumber),
        Some(n) => n,
    };
    if list_len(db, "tpl") == 0 {
        return quiet();
    }
    let shown = match list_get_string(db, "tpl", n) {
        Some(s) => lit(s.as_str()),
        None => lit("that template doesn't exist you dipshit"),
    };
    let text = cat(
        cat3(lit("showtpl: ").as_slice(), decimal_exec(n as u64).as_slice(), lit(":").as_slice()).as_slice(),
        shown.as_slice(),
    );
    just(notice_exec(ch.as_slice(), text.as_slice()))
}

/// `rmtpl <n>`: removes template `n`. Where there is no template list it is
/// created and nothing else happens; where there is no template `n` the
/// list stays as it was. The reply repeats the argument as given.
pub fn rmtpl(db: &mut PickleDb, msg: &Incoming) -> (out: Outcome)
    requires
        db_path_is_text(*old(db)),
    ensures
        db_path_is_text(*final(db)),
        db_file_path(*final(db)) == db_file_path(*old(db)),
        ({
            let t = msg.text@;
            let st0 = state(*old(db));
            match second_piece(t, channel_command(t, " :rmtpl "@)) {
                None => unchanged(*old(db), *final(db)) && outcome_is(out, seq![], None),
                Some(arg) => if !st0.lists.contains_key("tpl"@) {
                    state(*final(db)) == with_list(st0, "tpl"@) && (outcome_is(out, seq![], None)
                        || outcome_is(out, seq![], Some(BotError::NotSaved)))
                } else {
                    match parse_usize(trim(arg)) {
                        None => unchanged(*old(db), *final(db)) && outcome_is(
                            out,
                            seq![],
                            Some(BotError::BadNumber),
                        ),
                        Some(n) => outcome_is(
                            out,
                            seq![notice(channel(t), "rmtpl: "@ + arg)],
                            None,
                        ) && (if n < items(st0, "tpl"@).len() {
                            state(*final(db)) == removed(st0, "tpl"@, n as int) || unchanged(
                                *old(db),
                                *final(db),
                            )
                        } else {
                            unchanged(*old(db), *final(db))
                        }),
                    }
                },
            }
        }),
{
    let t = text_of(msg);
    let ch = channel_exec(t.as_slice());
    let pat = command_exec(ch.as_slice(), " :rmtpl ");
    let arg = match second_piece_exec(t.as_slice(), pat.as_slice()) {
        None => return quiet(),
        Some(a) => a,
    };
    if !list_exists(db, "tpl") {
        if list_create(db, "tpl") {
            assert(state(*db) =~= with_list(state(*old(db)), "tpl"@));
            return quiet();
        } else {
            assert(state(*db) =~= with_list(state(*old(db)), "tpl"@));
            return failed(BotError::NotSaved);
        }
    }
    let n = match parse_usize_exec(trim_exec(arg.as_slice()).as_slice()) {
        None => return failed(BotError::BadNumber),
        Some(n) => n,
    };
    let _ = list_pop_string(db, "tpl", n);
    proof {
        if n < items(state(*old(db)), "tpl"@).len() && !unchanged(*old(db), *db) {
            assert(state(*db) =~= removed(state(*old(db)), "tpl"@, n as int));
        }
    }
    let text = cat(lit("rmtpl: ").as_slice(), arg.as_slice());
    just(notice_exec(ch.as_slice(), text.as_slice()))
}

/// `lasttpl` in a message to the channel, while the database holds a value
/// or list of that name: the case in which the command reads the value.
pub open spec fn lasttpl_reads(st: DbState, t: Seq<char>) -> bool {
    contains(t, channel_command(t, " lasttpl"@)) && (st.values.contains_key("lasttpl"@)
        || st.lists.contains_key("lasttpl"@))
}

/// The stored value `lasttpl` read as a number, where it is one.
pub open spec fn last_template(st: DbState) -> Option<u64> {
    if st.values.contains_key("lasttpl"@) {
        u64_from_json(st.values["lasttpl"@])
    } else {
        None
    }
}

/// `lasttpl`: announces the number of the template `abuse` used last.
pub fn lasttpl(db: &PickleDb, msg: &Incoming) -> (out: Outcome)
    requires
        lasttpl_reads(state(*db), msg.text@) ==> last_template(state(*db)) is Some,
    ensures
        lasttpl_reads(state(*db), msg.text@) ==> outcome_is(
            out,
            seq![
                notice(
                    channel(msg.text@),
                    "lasttpl: "@ + decimal(last_template(state(*db))->0 as nat),
                ),
            ],
            None,
        ),
        !lasttpl_reads(state(*db), msg.text@) ==> outcome_is(out, seq![], None),
{
    let t = text_of(msg);
    let ch = channel_exec(t.as_slice());
    let pat = command_exec(ch.as_slice(), " lasttpl");
    if !(contains_exec(t.as_slice(), pat.as_slice()) && key_exists(db, "lasttpl")) {
        return quiet();
    }
    let v = match value_get_u64(db, "lasttpl") {
        Some(v) => v,
        None => return quiet(),
    };
    let text = cat(lit("lasttpl: ").as_slice(), decimal_exec(v).as_slice());
    just(notice_exec(ch.as_slice(), text.as_slice()))
}

/// `lasttpl` where it can run: `None` where the message asks for the last
/// template while the stored value is missing or not a number, the case in
/// which the command cannot answer.
pub fn lasttpl_checked(db: &PickleDb, msg: &Incoming) -> (out: Option<Outcome>)
    ensures
        out is None <==> (lasttpl_reads(state(*db), msg.text@) && last_template(state(*db)) is None),
        out matches Some(o) ==> (lasttpl_reads(state(*db), msg.text@) ==> outcome_is(
            o,
            seq![
                notice(
                    channel(msg.text@),
                    "lasttpl: "@ + decimal(last_template(state(*db))->0 as nat),
                ),
            ],
            None,
        )) && (!lasttpl_reads(state(*db), msg.text@) ==> outcome_is(o, seq![], None)),
{
    let t = text_of(msg);
    let ch = channel_exec(t.as_slice());
    let pat = command_exec(ch.as_slice(), " lasttpl");
    if contains_exec(t.as_slice(), pat.as_slice()) && key_exists(db, "lasttpl") && value_get_u64(
        db,
        "lasttpl",
    ).is_none() {
        return None;
    }
    Some(lasttpl(db, msg))
}

} // verus!
