//! Properties of the bot that span its commands, proved over the spec
//! functions their contracts use.
use vstd::prelude::*;
use crate::abuse::{abuse_arg, abuse_asked, abuse_command, used_template};
use crate::message::{notice, outcome_is, sends_view, BotError, Outcome};
use crate::words::{kind_word, mkword_result, rmword_result, word_kind, word_of};
use crate::chat::{define_term, define_url, smoked, Smoker};
use crate::message::{channel, channel_command, channel_from, channels, command};
use crate::session::{auth_steps, handler_order, kicked, next_handler, AuthView};
use crate::store::{
    item_index_from, items, json_string, number_set, pushed, removed, string_from_json,
    u64_from_json, with_list, DbState,
};
use crate::templates::{last_template, lasttpl_reads, shown_template, template_at};
use crate::text::{
    all_digits, contains, decimal, digit_char, digit_value, digits_value, drop_ws_end, ends_with,
    find_from, is_digit, is_ws, lemma_drop_ws_end, lemma_find_from_found, lemma_skip_ws,
    index_of, matches_at, parse_usize, second_piece, skip_ws, trim, unsigned_body,
};

verus! {

broadcast use vstd::string::group_string_axioms;

// ---------------------------------------------------------------------------
// Templates
// ---------------------------------------------------------------------------

/// A template that `mktpl` added is the one `showtpl` shows under the number
/// `mktpl` announced, and the template count grows by one.
pub proof fn law_mktpl_then_showtpl(st0: DbState, tpl: Seq<char>)
    requires
        string_from_json(json_string(tpl)) == Some(tpl),
    ensures
        ({
            let st1 = with_list(st0, "tpl"@);
            let n = items(st1, "tpl"@).len();
            let st2 = pushed(st1, "tpl"@, json_string(tpl));
            &&& template_at(st2, n) == Some(tpl)
            &&& shown_template(st2, n) == tpl
            &&& items(st2, "tpl"@).len() == n + 1
            &&& forall|k: nat| k < n ==> template_at(st2, k) == template_at(st1, k)
        }),
{
    let st1 = with_list(st0, "tpl"@);
    let n = items(st1, "tpl"@).len();
    let st2 = pushed(st1, "tpl"@, json_string(tpl));
    assert(items(st2, "tpl"@) == items(st1, "tpl"@).push(json_string(tpl)));
}

/// A template added by `mktpl <r>` is read back unchanged by a `showtpl`
/// message that gives the number `mktpl` announced: that number parses back,
/// the list holds templates, and the reply shows the trimmed template.
/// (`mktpl`'s contract gives the state `pushed(with_list(st0, "tpl"),
/// "tpl", json_string(trim(r)))` and the read-back fact required here.)
pub proof fn law_mktpl_then_showtpl_messages(st0: DbState, r: Seq<char>, t2: Seq<char>)
    requires
        string_from_json(json_string(trim(r))) == Some(trim(r)),
        items(with_list(st0, "tpl"@), "tpl"@).len() <= usize::MAX,
        second_piece(t2, channel_command(t2, " :showtpl "@)) matches Some(a) && trim(a) == decimal(
            items(with_list(st0, "tpl"@), "tpl"@).len(),
        ),
    ensures
        ({
            let st1 = with_list(st0, "tpl"@);
            let n = items(st1, "tpl"@).len();
            let st2 = pushed(st1, "tpl"@, json_string(trim(r)));
            &&& second_piece(t2, channel_command(t2, " :showtpl "@)) matches Some(a) && parse_usize(
                trim(a),
            ) == Some(n)
            &&& items(st2, "tpl"@).len() > 0
            &&& "showtpl: "@ + decimal(n) + ":"@ + shown_template(st2, n) == "showtpl: "@ + decimal(
                n,
            ) + ":"@ + trim(r)
        }),
{
    let st1 = with_list(st0, "tpl"@);
    let n = items(st1, "tpl"@).len();
    law_printed_numbers_parse_back(n);
    law_mktpl_then_showtpl(st0, trim(r));
}

/// `rmtpl n` of an existing template leaves one template fewer, and moves
/// each later template down by one.
pub proof fn law_rmtpl_removes_one(st: DbState, n: nat)
    requires
        n < items(st, "tpl"@).len(),
    ensures
        ({
            let after = removed(st, "tpl"@, n as int);
            &&& items(after, "tpl"@).len() == items(st, "tpl"@).len() - 1
            &&& forall|k: nat| k < n ==> template_at(after, k) == template_at(st, k)
            &&& forall|k: nat|
                n <= k < items(after, "tpl"@).len() ==> template_at(after, k) == template_at(
                    st,
                    k + 1,
                )
        }),
{
}

/// The number `mktpl`, `lstpl`, `showtpl` and `abuse` print for a template
/// reads back, as `showtpl`, `rmtpl` and `abuse` parse it, as that number.
pub proof fn law_printed_numbers_parse_back(n: nat)
    requires
        n <= usize::MAX,
    ensures
        parse_usize(decimal(n)) == Some(n),
{
    lemma_decimal_digits(n);
    assert(unsigned_body(decimal(n)) == decimal(n)) by {
        assert(is_digit(decimal(n)[0]));
    }
}

proof fn lemma_decimal_digits(n: nat)
    ensures
        decimal(n).len() > 0,
        all_digits(decimal(n)),
        digits_value(decimal(n)) == n,
    decreases n,
{
    if n < 10 {
        assert(decimal(n) == seq![digit_char(n)]);
        assert(decimal(n).drop_last() == Seq::<char>::empty());
        assert(digit_value(digit_char(n)) == n);
        assert(decimal(n).last() == digit_char(n));
        assert(digits_value(Seq::<char>::empty()) == 0);
        assert(digits_value(decimal(n)) == digits_value(decimal(n).drop_last()) * 10 + digit_value(
            decimal(n).last(),
        ));
    } else {
        lemma_decimal_digits(n / 10);
        let prev = decimal(n / 10);
        assert(decimal(n) == prev.push(digit_char(n % 10)));
        assert(decimal(n).drop_last() == prev);
        assert(digit_value(digit_char(n % 10)) == n % 10);
        assert(digits_value(decimal(n)) == digits_value(prev) * 10 + digit_value(digit_char(n % 10)));
        assert((n / 10) * 10 + n % 10 == n) by (nonlinear_arith);
        assert forall|i: int| 0 <= i < decimal(n).len() implies is_digit(#[trigger] decimal(n)[i]) by {
            if i < prev.len() {
                assert(decimal(n)[i] == prev[i]);
            }
        }
    }
}

/// `lasttpl` names the template `abuse` used last: once `abuse` has used
/// template `n` (and stored its number), the stored value reads back as `n`,
/// and a `lasttpl` message to the channel is answered with that number.
pub proof fn law_abuse_then_lasttpl(
    st0: DbState,
    n: nat,
    tpl: Seq<char>,
    name: Seq<char>,
    ch: Seq<char>,
    st: DbState,
    out: Outcome,
    t: Seq<char>,
)
    requires
        used_template(st0, n, tpl, name, ch, st, out),
        out.error != Some(BotError::NotSaved),
    ensures
        last_template(st) == Some(n as u64),
        "lasttpl: "@ + decimal(last_template(st)->0 as nat) == "lasttpl: "@ + decimal(n),
        lasttpl_reads(st, t) == contains(t, command(channel(t), " lasttpl"@)),
{
}

// ---------------------------------------------------------------------------
// Words
// ---------------------------------------------------------------------------

/// `rmword` undoes `mkword`: a word `mkword` just added is found by
/// `rmword` (it never answers that the word doesn't exist), and where the list
/// did not hold the word before, removing it gives back the database as it
/// was once the list existed.
pub proof fn law_mkword_then_rmword(st: DbState, kind: Seq<char>, word: Seq<char>)
    ensures
        ({
            let st1 = with_list(st, kind);
            let st2 = pushed(st1, kind, json_string(word));
            let before = items(st1, kind).len();
            &&& item_index_from(items(st2, kind), json_string(word), 0) matches Some(i) && i
                <= before && items(removed(st2, kind, i), kind).len() == before
            &&& item_index_from(items(st1, kind), json_string(word), 0) is None ==> (item_index_from(
                items(st2, kind),
                json_string(word),
                0,
            ) == Some(before as int) && removed(st2, kind, before as int) == st1)
        }),
{
    let st1 = with_list(st, kind);
    let st2 = pushed(st1, kind, json_string(word));
    let l = items(st2, kind);
    let l1 = items(st1, kind);
    assert(l == l1.push(json_string(word)));
    lemma_item_found(l, json_string(word), 0, l.len() - 1);
    if item_index_from(l1, json_string(word), 0) is None {
        lemma_item_absent_then_last(l1, json_string(word), 0);
        assert(l.remove(l1.len() as int) == l1);
        assert(st1.lists.contains_key(kind));
        assert(removed(st2, kind, l1.len() as int).lists == st1.lists);
        assert(removed(st2, kind, l1.len() as int) == st1);
    }
}

/// `rmword` undoes `mkword`, message by message: where the list `k` exists
/// and does not hold the word `w`, a `mkword k w` that added the word (its
/// reply says so) followed by an `rmword k w` whose write succeeded (no
/// error) leaves the database as it was, and `rmword` answers
/// `rmword: k:w`.
pub proof fn law_mkword_then_rmword_messages(
    st0: DbState,
    t1: Seq<char>,
    st1: DbState,
    out1: Outcome,
    t2: Seq<char>,
    st2: DbState,
    out2: Outcome,
    arg1: Seq<char>,
    arg2: Seq<char>,
)
    requires
        mkword_result(st0, t1, st1, out1),
        rmword_result(st1, t2, st2, out2),
        second_piece(t1, channel_command(t1, " :mkword "@)) == Some(arg1),
        second_piece(t2, channel_command(t2, " :rmword "@)) == Some(arg2),
        index_of(arg1, ' ') is Some,
        index_of(arg2, ' ') is Some,
        word_kind(arg1) == word_kind(arg2),
        word_of(arg1) == word_of(arg2),
        st0.lists.contains_key(word_kind(arg1)),
        item_index_from(items(st0, word_kind(arg1)), json_string(word_of(arg1)), 0) is None,
        out1.sends.len() > 0,
        out1.error is None,
        out2.error is None,
    ensures
        st2 == st0,
        outcome_is(
            out2,
            seq![notice(channel(t2), "rmword: "@ + kind_word(word_kind(arg2), word_of(arg2)))],
            None,
        ),
{
    let k = word_kind(arg1);
    let w = word_of(arg1);
    assert(with_list(st0, k) == st0);
    assert(sends_view(out1.sends@).len() == out1.sends@.len());
    assert(st1 == pushed(st0, k, json_string(w)));
    law_mkword_then_rmword(st0, k, w);
    assert(item_index_from(items(st1, k), json_string(w), 0) == Some(items(st0, k).len() as int));
    assert(st1.lists.contains_key(k));
}

proof fn lemma_item_absent_then_last(l1: Seq<Seq<char>>, x: Seq<char>, i: int)
    requires
        0 <= i <= l1.len(),
        item_index_from(l1, x, i) is None,
    ensures
        item_index_from(l1.push(x), x, i) == Some(l1.len() as int),
    decreases l1.len() - i,
{
    if i < l1.len() {
        lemma_item_absent_then_last(l1, x, i + 1);
    }
}

proof fn lemma_item_found(l: Seq<Seq<char>>, x: Seq<char>, i: int, at: int)
    requires
        0 <= i <= at < l.len(),
        l[at] == x,
    ensures
        item_index_from(l, x, i) matches Some(k) && i <= k <= at,
    decreases at - i,
{
    if l[i] != x {
        lemma_item_found(l, x, i + 1, at);
    }
}

// ---------------------------------------------------------------------------
// Messages
// ---------------------------------------------------------------------------

/// The channel a message is about is `#bot` where the message names it, and
/// the empty name otherwise.
pub proof fn law_channel(t: Seq<char>)
    ensures
        contains(t, "#bot"@) ==> channel(t) == "#bot"@,
        !contains(t, "#bot"@) ==> channel(t) == Seq::<char>::empty(),
{
    assert(channels()[0] == "#bot"@);
    assert(channels().drop_first().len() == 0);
    assert(channel_from(t, channels().drop_first()) == Seq::<char>::empty());
}

/// `define` looks up everything after the command: for a message
/// `PRIVMSG #bot :define <rest>` whose rest does not repeat the command, the
/// term is the whole rest (spaces and line ending included) and the query
/// is the Urban Dictionary address followed by it.
pub proof fn law_define_takes_the_whole_rest(rest: Seq<char>)
    requires
        !contains(rest, "PRIVMSG #bot :define "@),
    ensures
        ({
            let t = "PRIVMSG #bot :define "@ + rest;
            &&& channel(t) == "#bot"@
            &&& define_term(t) == Some(rest)
            &&& define_url(rest) == "https://api.urbandictionary.com/v0/define?term="@ + rest
        }),
{
    reveal_strlit("PRIVMSG #bot :define ");
    reveal_strlit("#bot");
    reveal_strlit("PRIVMSG ");
    reveal_strlit(" :define ");
    let cmd = "PRIVMSG #bot :define "@;
    let t = cmd + rest;
    assert(t.subrange(8, 12) == "#bot"@);
    assert(matches_at(t, "#bot"@, 8));
    lemma_find_from_found(t, "#bot"@, 0);
    law_channel(t);
    assert(channel(t) == "#bot"@);
    assert(channel_command(t, " :define "@) == cmd);
    assert(t.subrange(0, cmd.len() as int) == cmd);
    assert(matches_at(t, cmd, 0));
    assert(find_from(t, cmd, 0) == Some(0int));
    let q = cmd.len() as int;
    lemma_find_from_found(t, cmd, q);
    lemma_find_from_found(rest, cmd, 0);
    if find_from(t, cmd, q) is Some {
        let i = find_from(t, cmd, q)->0;
        assert(matches_at(t, cmd, i));
        assert(t.subrange(i, i + cmd.len()) == rest.subrange(i - q, i - q + cmd.len()));
        assert(matches_at(rest, cmd, i - q));
        assert(false);
    }
    assert(t.subrange(q, t.len() as int) == rest);
}

/// `abuse` always finds its argument: where the message asks for `abuse`,
/// the command still occurs in the trimmed message.
pub proof fn law_abuse_has_argument(t: Seq<char>)
    requires
        abuse_asked(t),
    ensures
        abuse_arg(t) is Some,
{
    reveal_strlit("PRIVMSG ");
    reveal_strlit(" :abuse ");
    reveal_strlit(":abuse");
    let pat = abuse_command(t);
    let ch = channel(t);
    assert(pat == "PRIVMSG "@ + ch + " :abuse "@);
    let len = pat.len() as int;
    assert(len >= 16);
    assert(pat[0] == 'P');
    assert(pat[len - 1] == ' ');
    assert(pat[len - 2] == 'e');
    lemma_find_from_found(t, pat, 0);
    let p = find_from(t, pat, 0)->0;
    assert(matches_at(t, pat, p));
    let a = skip_ws(t, 0);
    lemma_skip_ws(t, 0);
    let b = drop_ws_end(t, a, t.len() as int);
    lemma_drop_ws_end(t, a, t.len() as int);
    let tt = trim(t);
    assert(tt == t.subrange(a, b));
    // The command starts with `P`, which is no whitespace: it starts inside.
    assert(t[p] == pat[0]);
    assert(!is_ws(t[p]));
    assert(a <= p);
    // It ends with `e ` where `e` is no whitespace: it ends inside, or else the
    // trimmed message would end with `:abuse`.
    assert(t[p + len - 2] == pat[len - 2]);
    assert(!is_ws(t[p + len - 2]));
    assert(p + len - 2 < b);
    if p + len > b {
        assert(b == p + len - 1);
        let tail = tt.subrange(tt.len() - 6, tt.len() as int);
        assert forall|k: int| 0 <= k < 6 implies tail[k] == ":abuse"@[k] by {
            assert(tail[k] == t[b - 6 + k]);
            assert(t[b - 6 + k] == pat[len - 7 + k]);
            assert(pat[len - 7 + k] == " :abuse "@[k + 1]);
        }
        assert(tail == ":abuse"@);
        assert(ends_with(tt, ":abuse"@));
        assert(false);
    }
    assert(matches_at(tt, pat, p - a)) by {
        assert(tt.subrange(p - a, p - a + len) == t.subrange(p, p + len));
    }
    lemma_find_from_found(tt, pat, 0);
    assert(second_piece(tt, pat) is Some);
}

// ---------------------------------------------------------------------------
// Session
// ---------------------------------------------------------------------------

/// Whether the bot has quit after a run of messages, having quit before or
/// not.
pub open spec fn quit_after(quit: bool, texts: Seq<Seq<char>>) -> bool
    decreases texts.len(),
{
    if texts.len() == 0 {
        quit
    } else {
        quit_after(quit, texts.drop_last()) || kicked(texts.last())
    }
}

/// Once kicked, the bot stays quit whatever messages follow.
pub proof fn law_quit_is_final(quit: bool, texts: Seq<Seq<char>>, more: Seq<Seq<char>>)
    requires
        quit_after(quit, texts),
    ensures
        quit_after(quit, texts + more),
    decreases more.len(),
{
    if more.len() > 0 {
        law_quit_is_final(quit, texts, more.drop_last());
        assert((texts + more).drop_last() == texts + more.drop_last());
    } else {
        assert(texts + more == texts);
    }
}

/// Over a stream of messages, each handled by `react` with the state the
/// messages before it left: the state after the first `j + 1` messages
/// follows from the state after `j` and message `j`, and message `j` is
/// dispatched (signed in with and handled) exactly when none of the messages
/// up to it kicked the bot.
pub proof fn law_stream_dispatch(texts: Seq<Seq<char>>, j: int)
    requires
        0 <= j < texts.len(),
    ensures
        quit_after(false, texts.take(j + 1)) == (quit_after(false, texts.take(j)) || kicked(
            texts[j],
        )),
        !quit_after(false, texts.take(j + 1)) <==> (forall|i: int|
            0 <= i <= j ==> !kicked(#[trigger] texts[i])),
    decreases j,
{
    assert(texts.take(j + 1).drop_last() == texts.take(j));
    assert(texts.take(j + 1).last() == texts[j]);
    if j > 0 {
        law_stream_dispatch(texts, j - 1);
    } else {
        assert(texts.take(0).len() == 0);
    }
}

/// The commands run for a message, from command `i` on, where command `k`
/// succeeds exactly when `oks[k]` holds.
pub open spec fn handlers_run(oks: Seq<bool>, i: nat) -> Seq<nat>
    decreases 15 - i,
{
    if i >= 15 {
        Seq::empty()
    } else {
        seq![i] + match next_handler(i, oks[i as int]) {
            Some(j) => handlers_run(oks, j),
            None => Seq::empty(),
        }
    }
}

/// The first command at or after `i` that fails, or the last command.
pub open spec fn stop_index(oks: Seq<bool>, i: nat) -> nat
    decreases 15 - i,
{
    if i + 1 >= 15 || !oks[i as int] {
        i
    } else {
        stop_index(oks, i + 1)
    }
}

/// A message's commands run in order up to and including the first that
/// fails, and none after it; where none fails, all of them run.
pub proof fn law_handlers_stop_at_first_failure(oks: Seq<bool>, i: nat)
    requires
        oks.len() == handler_order().len(),
        i < handler_order().len(),
    ensures
        i <= stop_index(oks, i) < handler_order().len(),
        forall|k: int| i <= k < stop_index(oks, i) ==> oks[k],
        stop_index(oks, i) + 1 < handler_order().len() ==> !oks[stop_index(oks, i) as int],
        handlers_run(oks, i) == Seq::new(
            (stop_index(oks, i) - i + 1) as nat,
            |k: int| (i + k) as nat,
        ),
    decreases 15 - i,
{
    assert(handler_order().len() == 15);
    let run = handlers_run(oks, i);
    if i + 1 >= 15 || !oks[i as int] {
        assert(next_handler(i, oks[i as int]) is None);
        assert(run =~= Seq::new(1, |k: int| (i + k) as nat));
    } else {
        law_handlers_stop_at_first_failure(oks, i + 1);
        assert(next_handler(i, oks[i as int]) == Some((i + 1) as nat));
        let rest = handlers_run(oks, (i + 1) as nat);
        assert(run == seq![i] + rest);
        assert(run =~= Seq::new(
            (stop_index(oks, i) - i + 1) as nat,
            |k: int| (i + k) as nat,
        ));
    }
}

/// Once signed in, the bot takes no more sign-in steps.
pub proof fn law_signed_in_is_final(t: Seq<char>)
    ensures
        auth_steps(t, true) == Seq::<AuthView>::empty(),
{
}

/// The server's acceptance is remembered: a message that reports it, before
/// the bot is signed in, yields the step that marks the bot signed in.
pub proof fn law_acceptance_marks_signed_in(t: Seq<char>)
    requires
        contains(t, "Authentication successful"@),
    ensures
        auth_steps(t, false).contains(AuthView::MarkAuthenticated),
{
    let steps = auth_steps(t, false);
    assert(steps[steps.len() - 2] == AuthView::MarkAuthenticated);
}

// ---------------------------------------------------------------------------
// Smoking
// ---------------------------------------------------------------------------

/// The record after a run of smokes at the given times.
pub open spec fn smokes_after(prev: Option<Smoker>, times: Seq<u64>) -> Option<Smoker>
    decreases times.len(),
{
    if times.len() == 0 {
        prev
    } else {
        Some(smoked(smokes_after(prev, times.drop_last()), times.last()))
    }
}

/// Counting smokes from no record counts each one: after `k` smokes the
/// record says `k`, at the time of the last one.
pub proof fn law_smokes_count(times: Seq<u64>)
    requires
        0 < times.len() <= i32::MAX,
    ensures
        smokes_after(None, times) == Some(Smoker { smokes: times.len() as i32, last: times.last() }),
    decreases times.len(),
{
    let prev = smokes_after(None, times.drop_last());
    assert(smokes_after(None, times) == Some(smoked(prev, times.last())));
    if times.len() > 1 {
        law_smokes_count(times.drop_last());
        assert(prev == Some(Smoker { smokes: (times.len() - 1) as i32, last: times.drop_last().last() }));
    } else {
        assert(times.drop_last().len() == 0);
        assert(prev is None);
    }
}

} // verus!
