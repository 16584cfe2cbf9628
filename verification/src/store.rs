//! The bot's database: a `pickledb::PickleDb` with JSON serialization.
//!
//! A `PickleDb` holds two maps: keys with a stored value, and list names with
//! a list of stored items. Every stored value and item is the JSON text that
//! `serde_json` wrote for it. The library reads the database through the two
//! names `db_values` and `db_lists`, and every method it calls has a wrapper
//! below whose contract says what the method does to those maps.
use vstd::prelude::*;
use pickledb::{PickleDb, PickleDbDumpPolicy};
use rand::seq::IteratorRandom;
use crate::text::decimal;

verus! {

#[verifier::external_type_specification]
#[verifier::external_body]
pub struct ExPickleDb(PickleDb);

#[verifier::external_type_specification]
#[verifier::external_body]
pub struct ExPickleDbDumpPolicy(PickleDbDumpPolicy);

/// Whether the path a database writes its file to is UTF-8 text. Writing the
/// file (`PickleDb::dump`, which every change runs under `AutoDump`) turns
/// the path into a `&str` and panics where it is not one; a database made
/// from a `&str` path has one, and no method changes the path. Writing also
/// names its temporary file by the clock and panics where the clock stands
/// before 1970; the contracts leave that machine state unsaid.
pub uninterp spec fn db_path_is_text(db: PickleDb) -> bool;

/// The path a database writes its file to, as text, for a database made from
/// a `&str` path. No method changes it.
pub uninterp spec fn db_file_path(db: PickleDb) -> Seq<char>;

/// The key/value part of a database: each key with the JSON text stored for it.
pub uninterp spec fn db_values(db: PickleDb) -> Map<Seq<char>, Seq<char>>;

/// The list part of a database: each list name with the JSON texts of its
/// items, in order.
pub uninterp spec fn db_lists(db: PickleDb) -> Map<Seq<char>, Seq<Seq<char>>>;

/// What `serde_json::from_str::<String>` gives for a JSON text, where it
/// gives a string.
pub uninterp spec fn string_from_json(text: Seq<char>) -> Option<Seq<char>>;

/// What `serde_json::from_str::<u64>` gives for a JSON text, where it gives a
/// number.
pub uninterp spec fn u64_from_json(text: Seq<char>) -> Option<u64>;

/// A lowercase hexadecimal digit for `n < 16`.
pub open spec fn hex_digit(n: nat) -> char {
    if n < 10 {
        (48 + n) as char
    } else {
        (87 + n) as char
    }
}

/// How `serde_json` writes one character inside a JSON string.
pub open spec fn json_escape(c: char) -> Seq<char> {
    if c == '"' {
        seq!['\\', '"']
    } else if c == '\\' {
        seq!['\\', '\\']
    } else if c == '\u{8}' {
        seq!['\\', 'b']
    } else if c == '\u{c}' {
        seq!['\\', 'f']
    } else if c == '\n' {
        seq!['\\', 'n']
    } else if c == '\r' {
        seq!['\\', 'r']
    } else if c == '\t' {
        seq!['\\', 't']
    } else if (c as u32) < 32 {
        seq!['\\', 'u', '0', '0', hex_digit((c as u32 / 16) as nat), hex_digit((c as u32 % 16) as nat)]
    } else {
        seq![c]
    }
}

/// The escaped characters of a JSON string, without the quotes.
pub open spec fn json_body(s: Seq<char>) -> Seq<char>
    decreases s.len(),
{
    if s.len() == 0 {
        Seq::empty()
    } else {
        json_escape(s[0]) + json_body(s.drop_first())
    }
}

/// `serde_json::to_string(&s)` for a string `s`: the JSON text that
/// `PickleDb` stores for it.
pub open spec fn json_string(s: Seq<char>) -> Seq<char> {
    seq!['"'] + json_body(s) + seq!['"']
}

/// The items of the list `name`, or no items where there is no such list.
pub open spec fn list_items(db: PickleDb, name: Seq<char>) -> Seq<Seq<char>> {
    if db_lists(db).contains_key(name) {
        db_lists(db)[name]
    } else {
        Seq::empty()
    }
}

/// The view of an optional string.
pub open spec fn opt_chars(o: Option<String>) -> Option<Seq<char>> {
    match o {
        Some(s) => Some(s@),
        None => None,
    }
}

/// The first index at or after `i` whose item is `x`.
pub open spec fn item_index_from(items: Seq<Seq<char>>, x: Seq<char>, i: int) -> Option<int>
    decreases items.len() - i,
{
    if i < 0 || i >= items.len() {
        None
    } else if items[i] == x {
        Some(i)
    } else {
        item_index_from(items, x, i + 1)
    }
}

/// Both maps of a database, as plain values.
#[verifier::ext_equal]
pub struct DbState {
    pub values: Map<Seq<char>, Seq<char>>,
    pub lists: Map<Seq<char>, Seq<Seq<char>>>,
}

/// The state of a database.
pub open spec fn state(db: PickleDb) -> DbState {
    DbState { values: db_values(db), lists: db_lists(db) }
}

/// The items of the list `name` in `st`, or none.
pub open spec fn items(st: DbState, name: Seq<char>) -> Seq<Seq<char>> {
    if st.lists.contains_key(name) {
        st.lists[name]
    } else {
        Seq::empty()
    }
}

/// `st` once the list `name` exists: unchanged where it does, else with an
/// empty list of that name and no value of that name (`lcreate`).
pub open spec fn with_list(st: DbState, name: Seq<char>) -> DbState {
    if st.lists.contains_key(name) {
        st
    } else {
        DbState { values: st.values.remove(name), lists: st.lists.insert(name, Seq::empty()) }
    }
}

/// `st` with `item` appended to the list `name`.
pub open spec fn pushed(st: DbState, name: Seq<char>, item: Seq<char>) -> DbState {
    DbState { values: st.values, lists: st.lists.insert(name, items(st, name).push(item)) }
}

/// `st` without the item at `i` of the list `name`.
pub open spec fn removed(st: DbState, name: Seq<char>, i: int) -> DbState {
    DbState { values: st.values, lists: st.lists.insert(name, items(st, name).remove(i)) }
}

/// `st` with the number `n` stored under `key` and no list of that name.
pub open spec fn number_set(st: DbState, key: Seq<char>, n: nat) -> DbState {
    DbState { values: st.values.insert(key, decimal(n)), lists: st.lists.remove(key) }
}

/// The database leaves both of its maps as they were.
pub open spec fn unchanged(before: PickleDb, after: PickleDb) -> bool {
    db_values(after) == db_values(before) && db_lists(after) == db_lists(before)
}

/// `PickleDb::new_json`: an empty database that writes its file (as JSON) to
/// `path`, under the given dump policy.
#[verifier::external_body]
fn new_db(path: &str, policy: PickleDbDumpPolicy) -> (fresh: PickleDb)
    ensures
        db_path_is_text(fresh),
        db_file_path(fresh) == path@,
        db_values(fresh).dom() == Set::<Seq<char>>::empty(),
        db_lists(fresh).dom() == Set::<Seq<char>>::empty(),
{
    PickleDb::new_json(path, policy)
}

/// `PickleDb::load_json`: the database stored (as JSON) in the file at
/// `path`, under the given dump policy; `None` where the file cannot be read
/// or parsed. What it holds depends on the file, and is not stated.
#[verifier::external_body]
fn load_db(path: &str, policy: PickleDbDumpPolicy) -> (r: Option<PickleDb>)
    ensures
        r matches Some(db) ==> db_path_is_text(db) && db_file_path(db) == path@,
{
    PickleDb::load_json(path, policy).ok()
}

/// An empty database writing its file to `path`.
pub fn empty_db(path: &str, policy: PickleDbDumpPolicy) -> (db: PickleDb)
    ensures
        db_path_is_text(db),
        db_file_path(db) == path@,
        state(db) == (DbState { values: Map::empty(), lists: Map::empty() }),
{
    let db = new_db(path, policy);
    assert(db_values(db) =~= Map::empty());
    assert(db_lists(db) =~= Map::empty());
    db
}

/// The database stored in the file at `path`, where it can be read; its
/// contents are those of the file.
pub fn stored_db(path: &str, policy: PickleDbDumpPolicy) -> (r: Option<PickleDb>)
    ensures
        r matches Some(db) ==> db_path_is_text(db) && db_file_path(db) == path@,
{
    load_db(path, policy)
}

/// `PickleDb::lexists`: whether a list of that name exists.
#[verifier::external_body]
pub(crate) fn list_exists(db: &PickleDb, name: &str) -> (b: bool)
    ensures
        b == db_lists(*db).contains_key(name@),
{
    db.lexists(name)
}

/// `PickleDb::exists`: whether a value or a list of that name exists.
#[verifier::external_body]
pub(crate) fn key_exists(db: &PickleDb, key: &str) -> (b: bool)
    ensures
        b == (db_values(*db).contains_key(key@) || db_lists(*db).contains_key(key@)),
{
    db.exists(key)
}

/// `PickleDb::llen`: the number of items in a list, 0 where it does not exist.
#[verifier::external_body]
pub(crate) fn list_len(db: &PickleDb, name: &str) -> (n: usize)
    ensures
        n == list_items(*db, name@).len(),
{
    db.llen(name)
}

/// `PickleDb::lget::<String>`: the item at `pos` read as a string; `None`
/// where there is no such item or it is not a JSON string.
#[verifier::external_body]
pub(crate) fn list_get_string(db: &PickleDb, name: &str, pos: usize) -> (r: Option<String>)
    ensures
        opt_chars(r) == (if pos < list_items(*db, name@).len() {
            string_from_json(list_items(*db, name@)[pos as int])
        } else {
            None
        }),
{
    db.lget::<String>(name, pos)
}

/// `PickleDb::get::<u64>`: the value of `key` read as a number; `None` where
/// there is no such value or it is not a JSON number that fits a `u64`.
#[verifier::external_body]
pub(crate) fn value_get_u64(db: &PickleDb, key: &str) -> (r: Option<u64>)
    ensures
        r == (if db_values(*db).contains_key(key@) {
            u64_from_json(db_values(*db)[key@])
        } else {
            None
        }),
{
    db.get::<u64>(key)
}

/// `PickleDb::lcreate`: makes `name` an empty list and drops any value of that
/// name. The change stays in memory whether or not writing the file
/// succeeds; the result says whether it did.
#[verifier::external_body]
pub(crate) fn list_create(db: &mut PickleDb, name: &str) -> (saved: bool)
    requires
        db_path_is_text(*old(db)),
    ensures
        db_path_is_text(*final(db)),
        db_file_path(*final(db)) == db_file_path(*old(db)),
        db_lists(*final(db)) == db_lists(*old(db)).insert(name@, Seq::empty()),
        db_values(*final(db)) == db_values(*old(db)).remove(name@),
{
    db.lcreate(name).is_ok()
}

/// `PickleDb::ladd` with a string: appends the JSON text of `value` to the
/// list. Where the list does not exist, or writing the file fails, nothing
/// changes and the result is `false`.
#[verifier::external_body]
pub(crate) fn list_add_string(db: &mut PickleDb, name: &str, value: &str) -> (added: bool)
    requires
        db_path_is_text(*old(db)),
    ensures
        db_path_is_text(*final(db)),
        db_file_path(*final(db)) == db_file_path(*old(db)),
        !db_lists(*old(db)).contains_key(name@) ==> !added,
        added ==> db_lists(*final(db)) == db_lists(*old(db)).insert(
            name@,
            db_lists(*old(db))[name@].push(json_string(value@)),
        ) && db_values(*final(db)) == db_values(*old(db)),
        !added ==> unchanged(*old(db), *final(db)),
        added ==> string_from_json(json_string(value@)) == Some(value@),
{
    db.ladd(name, &value).is_some()
}

/// `PickleDb::lpop::<String>`: removes the item at `pos` and returns it read
/// as a string. Where there is no such item nothing changes and the result is
/// `None`; where writing the file fails the item stays and the result is
/// `None` too.
#[verifier::external_body]
pub(crate) fn list_pop_string(db: &mut PickleDb, name: &str, pos: usize) -> (r: Option<String>)
    requires
        db_path_is_text(*old(db)),
    ensures
        db_path_is_text(*final(db)),
        db_file_path(*final(db)) == db_file_path(*old(db)),
        !(pos < list_items(*old(db), name@).len()) ==> r is None && unchanged(
            *old(db),
            *final(db),
        ),
        pos < list_items(*old(db), name@).len() ==> (opt_chars(r) == string_from_json(
            list_items(*old(db), name@)[pos as int],
        ) && db_lists(*final(db)) == db_lists(*old(db)).insert(
            name@,
            db_lists(*old(db))[name@].remove(pos as int),
        ) && db_values(*final(db)) == db_values(*old(db))) || (r is None && unchanged(
            *old(db),
            *final(db),
        )),
{
    db.lpop::<String>(name, pos)
}

/// `PickleDb::lrem_value` with a string: removes the first item whose JSON
/// text is that of `value`. `Some(found)` where the call succeeds; `None`
/// where the item was found but writing the file failed, and then it stays.
#[verifier::external_body]
pub(crate) fn list_remove_string(db: &mut PickleDb, name: &str, value: &str) -> (r: Option<bool>)
    requires
        db_path_is_text(*old(db)),
    ensures
        db_path_is_text(*final(db)),
        db_file_path(*final(db)) == db_file_path(*old(db)),
        r == Some(false) ==> unchanged(*old(db), *final(db)) && item_index_from(
            list_items(*old(db), name@),
            json_string(value@),
            0,
        ) is None,
        r is None ==> unchanged(*old(db), *final(db)) && item_index_from(
            list_items(*old(db), name@),
            json_string(value@),
            0,
        ) is Some,
        r == Some(true) ==> (item_index_from(list_items(*old(db), name@), json_string(value@), 0)
            matches Some(i) && db_lists(*final(db)) == db_lists(*old(db)).insert(
            name@,
            db_lists(*old(db))[name@].remove(i),
        ) && db_values(*final(db)) == db_values(*old(db))),
{
    match db.lrem_value::<String>(name, &value.to_string()) {
        Ok(found) => Some(found),
        Err(_) => None,
    }
}

/// `PickleDb::set` with a `usize`: stores the number under `key` and drops any
/// list of that name. Where writing the file fails the previous value comes
/// back (the list stays dropped) and the result is `false`.
#[verifier::external_body]
pub(crate) fn value_set_usize(db: &mut PickleDb, key: &str, n: usize) -> (saved: bool)
    requires
        db_path_is_text(*old(db)),
    ensures
        db_path_is_text(*final(db)),
        db_file_path(*final(db)) == db_file_path(*old(db)),
        db_lists(*final(db)) == db_lists(*old(db)).remove(key@),
        saved ==> db_values(*final(db)) == db_values(*old(db)).insert(key@, decimal(n as nat)),
        !saved ==> db_values(*final(db)) == db_values(*old(db)),
        saved ==> u64_from_json(decimal(n as nat)) == Some(n as u64),
{
    db.set(key, &n).is_ok()
}

/// `PickleDb::liter`, `IteratorRandom::choose` and `get_item::<String>`: one
/// item of the list picked at random, read as a string. `None` where the
/// list is empty; `Some(None)` where the picked item is not a JSON string.
#[verifier::external_body]
pub(crate) fn list_pick_string(db: &PickleDb, name: &str) -> (r: Option<Option<String>>)
    requires
        db_lists(*db).contains_key(name@),
    ensures
        db_lists(*db)[name@].len() == 0 ==> r is None,
        db_lists(*db)[name@].len() > 0 ==> r is Some,
        r matches Some(item) ==> exists|i: int|
            0 <= i < db_lists(*db)[name@].len() && opt_chars(item) == string_from_json(
                #[trigger] db_lists(*db)[name@][i],
            ),
{
    match db.liter(name).choose(&mut rand::thread_rng()) {
        Some(item) => Some(item.get_item::<String>()),
        None => None,
    }
}

} // verus!
