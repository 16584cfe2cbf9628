//! `abuse <name> [n]`: fills template `n` (or one picked at random) with the
//! name and with a random word for every other placeholder, and sends the
//! result.
use vstd::prelude::*;
use pickledb::PickleDb;
use crate::message::{
    channel, channel_command, channel_exec, command_exec, failed, just, lit, notice, notice_exec,
    outcome_is, quiet, sends_view, text_of, BotError, Incoming, Outcome, SendView,
};
use crate::outside::{placeholder_matches, placeholder_runs, random_below, render, rendered};
use crate::store::{
    db_file_path, db_path_is_text,
    db_lists, items, list_exists, list_get_string, list_len, list_pick_string, number_set,
    opt_chars, state, string_from_json, u64_from_json, unchanged, value_set_usize, DbState,
};
use crate::templates::template_at;
use crate::text::{
    after_char, before_char, cat, cat3, contains, contains_exec, decimal, decimal_exec, ends_with,
    ends_with_exec, index_of, parse_usize, parse_usize_exec, same, second_piece,
    second_piece_exec, split_at_char, string_of, trim, trim_braces, trim_braces_exec, trim_exec,
};

verus! {

broadcast use vstd::string::group_string_axioms;

/// The command text of `abuse` in the message's channel.
pub open spec fn abuse_command(t: Seq<char>) -> Seq<char> {
    channel_command(t, " :abuse "@)
}

/// The message asks for `abuse`: it holds the command, and does not end (once
/// trimmed) with a bare `:abuse`.
pub open spec fn abuse_asked(t: Seq<char>) -> bool {
    contains(t, abuse_command(t)) && !ends_with(trim(t), ":abuse"@)
}

/// The argument of `abuse`: what follows the command in the trimmed message.
pub open spec fn abuse_arg(t: Seq<char>) -> Option<Seq<char>> {
    second_piece(trim(t), abuse_command(t))
}

/// The name to abuse: the argument's first word, trimmed.
pub open spec fn abuse_name(arg: Seq<char>) -> Seq<char> {
    trim(before_char(arg, ' '))
}

/// The argument names a template number (it has a second word).
pub open spec fn has_number(arg: Seq<char>) -> bool {
    index_of(arg, ' ') is Some
}

/// The argument's second word, trimmed: the template number as text.
pub open spec fn number_text(arg: Seq<char>) -> Seq<char> {
    trim(before_char(after_char(arg, ' '), ' '))
}

/// The placeholder words of a template, in order: each matched run with its
/// braces trimmed, without `name`, which is filled with the name.
pub open spec fn wanted_words(runs: Seq<Seq<char>>) -> Seq<Seq<char>>
    decreases runs.len(),
{
    if runs.len() == 0 {
        Seq::empty()
    } else {
        let prev = wanted_words(runs.drop_last());
        let w = trim_braces(runs.last());
        if w == "name"@ {
            prev
        } else {
            prev.push(w)
        }
    }
}

/// `v` may fill the placeholder `w`: one of the items of the list `w`, read
/// as a string, where that list has items; else `[missing: w]`.
pub open spec fn fills(st: DbState, w: Seq<char>, v: Seq<char>) -> bool {
    if st.lists.contains_key(w) && st.lists[w].len() > 0 {
        exists|k: int|
            0 <= k < st.lists[w].len() && string_from_json(#[trigger] st.lists[w][k]) == Some(v)
    } else {
        v == "[missing: "@ + w + "]"@
    }
}

/// The values handed to the template: `name` first, then one fitting value
/// for each placeholder word, in order.
pub open spec fn bindings_fit(
    st: DbState,
    words: Seq<Seq<char>>,
    name: Seq<char>,
    b: Seq<(Seq<char>, Seq<char>)>,
) -> bool {
    &&& b.len() == words.len() + 1
    &&& b[0] == ("name"@, name)
    &&& forall|i: int|
        0 <= i < words.len() ==> (#[trigger] b[i + 1]).0 == words[i] && fills(
            st,
            words[i],
            b[i + 1].1,
        )
}

/// Some placeholder of the template names a list with an item that is not a
/// string, so a random pick may fail.
pub open spec fn pick_can_fail(st: DbState, runs: Seq<Seq<char>>) -> bool {
    exists|i: int|
        0 <= i < runs.len() && {
            let w = trim_braces(#[trigger] runs[i]);
            &&& w != "name"@
            &&& st.lists.contains_key(w)
            &&& exists|k: int|
                0 <= k < st.lists[w].len() && string_from_json(#[trigger] st.lists[w][k]) is None
        }
}

/// The reply once the template text `tpl` is chosen, the database being `st`.
pub open spec fn filled_reply(
    st: DbState,
    tpl: Seq<char>,
    name: Seq<char>,
    ch: Seq<char>,
    out: Outcome,
) -> bool {
    let runs = placeholder_runs(tpl, 0);
    ||| (outcome_is(out, seq![], Some(BotError::NotAString)) && pick_can_fail(st, runs))
    ||| exists|b: Seq<(Seq<char>, Seq<char>)>|
        #[trigger] bindings_fit(st, wanted_words(runs), name, b) && match rendered(tpl, b) {
            Some(r) => outcome_is(out, seq![notice(ch, r)], None),
            None => outcome_is(out, seq![], Some(BotError::Render)),
        }
}

/// `st` once storing `lasttpl` failed: its value stays, a list of that name
/// is gone.
pub open spec fn lasttpl_lost(st: DbState) -> DbState {
    DbState { values: st.values, lists: st.lists.remove("lasttpl"@) }
}

/// Template `n`, text `tpl`, is used: its number is stored as `lasttpl`,
/// then the template is filled.
pub open spec fn used_template(
    st0: DbState,
    n: nat,
    tpl: Seq<char>,
    name: Seq<char>,
    ch: Seq<char>,
    st: DbState,
    out: Outcome,
) -> bool {
    ||| (outcome_is(out, seq![], Some(BotError::NotSaved)) && st == lasttpl_lost(st0))
    ||| (st == number_set(st0, "lasttpl"@, n) && n <= u64::MAX && u64_from_json(decimal(n)) == Some(
        n as u64,
    ) && filled_reply(st, tpl, name, ch, out))
}

/// The reply to a template number that names no template.
pub open spec fn no_such_template(n: nat, nick: Seq<char>) -> Seq<char> {
    "that template "@ + decimal(n) + " doesn't exist, "@ + nick + " you dipshit"@
}

/// The nickname of a message, or nothing.
pub open spec fn nick_of(msg: Incoming) -> Seq<char> {
    match msg.nickname {
        Some(n) => n@,
        None => Seq::empty(),
    }
}

/// What `abuse` does to the database (from `st0` to `st`) and replies, once
/// it has a template list with items.
pub open spec fn abuse_reply(
    st0: DbState,
    t: Seq<char>,
    arg: Seq<char>,
    nick: Seq<char>,
    st: DbState,
    out: Outcome,
) -> bool {
    let name = abuse_name(arg);
    let ch = channel(t);
    if has_number(arg) {
        let n = parse_usize(number_text(arg))->0;
        match template_at(st0, n) {
            Some(tpl) => used_template(st0, n, tpl, name, ch, st, out),
            None => st == st0 && filled_reply(st0, no_such_template(n, nick), name, ch, out),
        }
    } else {
        exists|n: nat|
            n < items(st0, "tpl"@).len() && match #[trigger] template_at(st0, n) {
                None => outcome_is(out, seq![], Some(BotError::NotAString)) && st == st0,
                Some(tpl) => used_template(st0, n, tpl, name, ch, st, out),
            }
    }
}

/// `abuse` would read the nickname of a message that has none: it names a
/// template number that is not a template, while there are templates.
pub open spec fn abuse_needs_nick(st0: DbState, t: Seq<char>) -> bool {
    &&& abuse_asked(t)
    &&& abuse_arg(t) matches Some(arg)
    &&& has_number(arg)
    &&& parse_usize(number_text(arg)) matches Some(n)
    &&& items(st0, "tpl"@).len() > 0
    &&& template_at(st0, n) is None
}

/// Fills the template `tpl` for `abuse`, the database being as it is.
fn fill_template(db: &PickleDb, tpl: &[char], name: &[char], ch: &[char]) -> (out: Outcome)
    ensures
        filled_reply(state(*db), tpl@, name@, ch@, out),
{
    let st = Ghost(state(*db));
    let tpl_s = string_of(tpl);
    let runs = placeholder_matches(tpl_s.as_str());
    let ghost rv = runs.deep_view();
    let name_s = string_of(name);
    let mut bindings: Vec<(String, String)> = Vec::new();
    bindings.push((string_of(lit("name").as_slice()), name_s));
    proof {
        assert(rv.take(0) == Seq::<Seq<char>>::empty());
        assert(bindings.deep_view()[0] == ("name"@, name@));
    }
    let mut i: usize = 0;
    while i < runs.len()
        invariant
            i <= runs.len(),
            rv == runs.deep_view(),
            rv == placeholder_runs(tpl@, 0),
            st@ == state(*db),
            bindings_fit(st@, wanted_words(rv.take(i as int)), name@, bindings.deep_view()),
        decreases runs.len() - i,
    {
        assert(rv.take(i + 1).drop_last() == rv.take(i as int));
        assert(rv.take(i + 1).last() == rv[i as int]);
        assert(rv[i as int] == runs[i as int]@);
        let run = lit(runs[i].as_str());
        let w = trim_braces_exec(run.as_slice());
        if same(w.as_slice(), lit("name").as_slice()) {
            i = i + 1;
            continue;
        }
        let w_s = string_of(w.as_slice());
        let value: String;
        if list_exists(db, w_s.as_str()) && list_len(db, w_s.as_str()) > 0 {
            match list_pick_string(db, w_s.as_str()) {
                Some(Some(x)) => {
                    value = x;
                },
                _ => {
                    proof {
                        assert(trim_braces(rv[i as int]) == w@);
                        assert(w@ != "name"@);
                    }
                    return failed(BotError::NotAString);
                },
            }
        } else {
            value = string_of(cat3(lit("[missing: ").as_slice(), w.as_slice(), lit("]").as_slice()).as_slice());
        }
        let ghost old_b = bindings.deep_view();
        bindings.push((w_s, value));
        proof {
            let words = wanted_words(rv.take(i + 1));
            assert(words == wanted_words(rv.take(i as int)).push(w@));
            assert(bindings.deep_view() == old_b.push((w@, value@)));
            assert forall|j: int| 0 <= j < words.len() implies (#[trigger] bindings.deep_view()[j
                + 1]).0 == words[j] && fills(st@, words[j], bindings.deep_view()[j + 1].1) by {
                if j < words.len() - 1 {
                    assert(bindings.deep_view()[j + 1] == old_b[j + 1]);
                }
            }
        }
        i = i + 1;
    }
    assert(rv.take(runs.len() as int) == rv);
    match render(tpl_s.as_str(), &bindings) {
        Some(r) => {
            let r_chars = lit(r.as_str());
            let out = just(notice_exec(ch, r_chars.as_slice()));
            assert(bindings_fit(st@, wanted_words(rv), name@, bindings.deep_view()));
            out
        },
        None => {
            assert(bindings_fit(st@, wanted_words(rv), name@, bindings.deep_view()));
            failed(BotError::Render)
        },
    }
}

/// What `abuse` does to the database (from `st0` to `st`) and replies, for
/// the message `msg`.
pub open spec fn abuse_result(st0: DbState, msg: Incoming, st: DbState, out: Outcome) -> bool {
    let t = msg.text@;
    if !abuse_asked(t) {
        st == st0 && outcome_is(out, seq![], None)
    } else {
        match abuse_arg(t) {
            None => st == st0 && outcome_is(out, seq![], None),
            Some(arg) => if has_number(arg) && parse_usize(number_text(arg)) is None {
                st == st0 && outcome_is(out, seq![], Some(BotError::BadNumber))
            } else if items(st0, "tpl"@).len() == 0 {
                st == st0 && outcome_is(out, seq![], None)
            } else {
                abuse_reply(st0, t, arg, nick_of(msg), st, out)
            },
        }
    }
}

/// `abuse <name> [n]`.
pub fn abuse(db: &mut PickleDb, msg: &Incoming) -> (out: Outcome)
    requires
        db_path_is_text(*old(db)),
        abuse_needs_nick(state(*old(db)), msg.text@) ==> msg.nickname is Some,
    ensures
        db_path_is_text(*final(db)),
        db_file_path(*final(db)) == db_file_path(*old(db)),
        abuse_result(state(*old(db)), *msg, state(*final(db)), out),
{
    let t = text_of(msg);
    let ch = channel_exec(t.as_slice());
    let pat = command_exec(ch.as_slice(), " :abuse ");
    let tt = trim_exec(t.as_slice());
    if !(contains_exec(t.as_slice(), pat.as_slice()) && !ends_with_exec(
        tt.as_slice(),
        lit(":abuse").as_slice(),
    )) {
        return quiet();
    }
    let arg = match second_piece_exec(tt.as_slice(), pat.as_slice()) {
        None => return quiet(),
        Some(a) => a,
    };
    let (first, has_n, rest) = split_at_char(arg.as_slice(), ' ');
    let name = trim_exec(first.as_slice());
    let (second, _, _) = split_at_char(rest.as_slice(), ' ');
    let mut n: usize = 0;
    if has_n {
        n = match parse_usize_exec(trim_exec(second.as_slice()).as_slice()) {
            None => return failed(BotError::BadNumber),
            Some(k) => k,
        };
    }
    let len = list_len(db, "tpl");
    if len == 0 {
        return quiet();
    }
    let ghost st0 = state(*db);
    if has_n {
        match list_get_string(db, "tpl", n) {
            Some(tpl) => {
                if !value_set_usize(db, "lasttpl", n) {
                    assert(state(*db) =~= lasttpl_lost(st0));
                    return failed(BotError::NotSaved);
                }
                assert(state(*db) =~= number_set(st0, "lasttpl"@, n as nat));
                let out = fill_template(db, lit(tpl.as_str()).as_slice(), name.as_slice(), ch.as_slice());
                assert(template_at(st0, n as nat) == Some(tpl@));
                assert(used_template(st0, n as nat, tpl@, name@, ch@, state(*db), out));
                assert(abuse_reply(st0, t@, arg@, nick_of(*msg), state(*db), out));
                out
            },
            None => {
                let nick = match &msg.nickname {
                    Some(s) => lit(s.as_str()),
                    None => Vec::new(),
                };
                let text = cat(
                    cat3(
                        lit("that template ").as_slice(),
                        decimal_exec(n as u64).as_slice(),
                        lit(" doesn't exist, ").as_slice(),
                    ).as_slice(),
                    cat(nick.as_slice(), lit(" you dipshit").as_slice()).as_slice(),
                );
                let out = fill_template(db, text.as_slice(), name.as_slice(), ch.as_slice());
                assert(template_at(st0, n as nat) is None);
                assert(text@ == no_such_template(n as nat, nick_of(*msg)));
                assert(abuse_reply(st0, t@, arg@, nick_of(*msg), state(*db), out));
                out
            },
        }
    } else {
        let k = random_below(len);
        match list_get_string(db, "tpl", k) {
            None => {
                assert(template_at(st0, k as nat) is None);
                failed(BotError::NotAString)
            },
            Some(tpl) => {
                if !value_set_usize(db, "lasttpl", k) {
                    assert(state(*db) =~= lasttpl_lost(st0));
                    let out = failed(BotError::NotSaved);
                    assert(template_at(st0, k as nat) == Some(tpl@));
                    return out;
                }
                assert(state(*db) =~= number_set(st0, "lasttpl"@, k as nat));
                let out = fill_template(db, lit(tpl.as_str()).as_slice(), name.as_slice(), ch.as_slice());
                assert(template_at(st0, k as nat) == Some(tpl@));
                assert(abuse_reply(st0, t@, arg@, nick_of(*msg), state(*db), out));
                out
            },
        }
    }
}

/// `abuse` where it can run: `None` where the reply would need the nickname
/// of a message that has none.
pub fn abuse_checked(db: &mut PickleDb, msg: &Incoming) -> (out: Option<Outcome>)
    requires
        db_path_is_text(*old(db)),
    ensures
        db_path_is_text(*final(db)),
        db_file_path(*final(db)) == db_file_path(*old(db)),
        out is None <==> (abuse_needs_nick(state(*old(db)), msg.text@) && msg.nickname is None),
        out is None ==> unchanged(*old(db), *final(db)),
        out matches Some(o) ==> abuse_result(state(*old(db)), *msg, state(*final(db)), o),
{
    if msg.nickname.is_none() && needs_nick(db, msg) {
        return None;
    }
    Some(abuse(db, msg))
}

/// Whether `abuse` would reply to a missing template by the sender's
/// nickname.
fn needs_nick(db: &PickleDb, msg: &Incoming) -> (r: bool)
    ensures
        r == abuse_needs_nick(state(*db), msg.text@),
{
    let t = text_of(msg);
    let ch = channel_exec(t.as_slice());
    let pat = command_exec(ch.as_slice(), " :abuse ");
    let tt = trim_exec(t.as_slice());
    if !(contains_exec(t.as_slice(), pat.as_slice()) && !ends_with_exec(
        tt.as_slice(),
        lit(":abuse").as_slice(),
    )) {
        return false;
    }
    let arg = match second_piece_exec(tt.as_slice(), pat.as_slice()) {
        None => return false,
        Some(a) => a,
    };
    let (_, has_n, rest) = split_at_char(arg.as_slice(), ' ');
    if !has_n {
        return false;
    }
    let (second, _, _) = split_at_char(rest.as_slice(), ' ');
    let n = match parse_usize_exec(trim_exec(second.as_slice()).as_slice()) {
        None => return false,
        Some(k) => k,
    };
    list_len(db, "tpl") > 0 && list_get_string(db, "tpl", n).is_none()
}

} // verus!
