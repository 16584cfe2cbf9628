//! The calls the library makes into outside crates (other than the database
//! in `store`): each is a small wrapper whose contract states what the crate
//! does, or names its result where that takes pages to state.
use vstd::prelude::*;
use rand::Rng;
use rand::seq::IteratorRandom;
use crate::store::opt_chars;
use vstd::string::StringSliceAdditionalSpecFns;
use crate::text::{digits_value, index_of, is_digit, parse_unsigned};

verus! {

broadcast use vstd::string::group_string_axioms;

// ---------------------------------------------------------------------------
// Template placeholders: `fancy_regex` with `([{][{][a-zA-Z]+[}][}])+`
// ---------------------------------------------------------------------------

/// An ASCII letter, `[a-zA-Z]`.
pub open spec fn is_ascii_letter(c: char) -> bool {
    ('a' <= c <= 'z') || ('A' <= c <= 'Z')
}

/// The first index at or after `i` that does not hold an ASCII letter.
pub open spec fn letters_end(s: Seq<char>, i: int) -> int
    decreases s.len() - i,
{
    if 0 <= i < s.len() && is_ascii_letter(s[i]) {
        letters_end(s, i + 1)
    } else {
        i
    }
}

pub proof fn lemma_letters_end(s: Seq<char>, i: int)
    requires
        0 <= i,
    ensures
        i <= letters_end(s, i),
        i <= s.len() ==> letters_end(s, i) <= s.len(),
        forall|k: int| i <= k < letters_end(s, i) ==> is_ascii_letter(s[k]),
    decreases s.len() - i,
{
    if 0 <= i < s.len() && is_ascii_letter(s[i]) {
        lemma_letters_end(s, i + 1);
    }
}

/// Where a placeholder `{{letters}}` starts at `i`: the index just past it.
pub open spec fn block_end(s: Seq<char>, i: int) -> Option<int> {
    if 0 <= i && i + 1 < s.len() && s[i] == '{' && s[i + 1] == '{' {
        let j = letters_end(s, i + 2);
        if j > i + 2 && j + 1 < s.len() && s[j] == '}' && s[j + 1] == '}' {
            Some(j + 2)
        } else {
            None
        }
    } else {
        None
    }
}

pub proof fn lemma_block_end(s: Seq<char>, i: int)
    ensures
        block_end(s, i) matches Some(e) ==> i < e <= s.len(),
{
    if 0 <= i && i + 1 < s.len() && s[i] == '{' && s[i + 1] == '{' {
        lemma_letters_end(s, i + 2);
    }
}

/// The end of the run of adjacent placeholders that starts at `i`.
pub open spec fn run_end(s: Seq<char>, i: int) -> int
    decreases s.len() - i,
{
    match block_end(s, i) {
        Some(e) => {
            proof {
                lemma_block_end(s, i);
            }
            run_end(s, e)
        },
        None => i,
    }
}

pub proof fn lemma_run_end(s: Seq<char>, i: int)
    requires
        0 <= i <= s.len(),
    ensures
        i <= run_end(s, i) <= s.len(),
        block_end(s, i) is Some ==> i < run_end(s, i),
    decreases s.len() - i,
{
    lemma_block_end(s, i);
    if let Some(e) = block_end(s, i) {
        lemma_run_end(s, e);
    }
}

/// The texts the placeholder pattern matches in `s` from index `from` on, in
/// order: each maximal run of adjacent placeholders, taken leftmost first.
pub open spec fn placeholder_runs(s: Seq<char>, from: int) -> Seq<Seq<char>>
    decreases s.len() - from,
{
    if from < 0 || from >= s.len() {
        Seq::empty()
    } else if block_end(s, from) is Some {
        proof {
            lemma_run_end(s, from);
        }
        let e = run_end(s, from);
        seq![s.subrange(from, e)] + placeholder_runs(s, e)
    } else {
        placeholder_runs(s, from + 1)
    }
}

/// `fancy_regex::Regex::new(r"([{][{][a-zA-Z]+[}][}])+")` and `find_iter`
/// over the template: the matched texts, in order. The pattern has no fancy
/// features, so the crate hands it to the `regex` crate, which finds
/// leftmost-first matches without backtracking limits; the matches are
/// the maximal runs of adjacent `{{letters}}` placeholders.
#[verifier::external_body]
pub(crate) fn placeholder_matches(template: &str) -> (v: Vec<String>)
    ensures
        v.deep_view() == placeholder_runs(template@, 0),
{
    let re = fancy_regex::Regex::new(r"([{][{][a-zA-Z]+[}][}])+").unwrap();
    re.find_iter(template).map(|m| m.unwrap().as_str().to_string()).collect()
}

// ---------------------------------------------------------------------------
// Rendering: `handlebars`
// ---------------------------------------------------------------------------

/// What `Handlebars::render_template` gives for `template` with the string
/// values `data` (a JSON object built by inserting the pairs in order) and no
/// HTML escaping, where rendering succeeds.
pub uninterp spec fn rendered(template: Seq<char>, data: Seq<(Seq<char>, Seq<char>)>) -> Option<
    Seq<char>,
>;

/// `Handlebars::new`, `register_escape_fn(no_escape)` and `render_template`
/// with the pairs as a JSON object: the rendered text, `None` where the
/// template does not render.
#[verifier::external_body]
pub(crate) fn render(template: &str, data: &Vec<(String, String)>) -> (r: Option<String>)
    ensures
        opt_chars(r) == rendered(template@, data.deep_view()),
{
    let mut reg = handlebars::Handlebars::new();
    reg.register_escape_fn(handlebars::no_escape);
    let map: serde_json::Map<String, serde_json::Value> = data.iter().map(
        |(k, v)| (k.clone(), serde_json::Value::String(v.clone())),
    ).collect();
    reg.render_template(template, &serde_json::Value::Object(map)).ok()
}

// ---------------------------------------------------------------------------
// Chance: `rand`
// ---------------------------------------------------------------------------

/// `rand::thread_rng().gen_range(0..n)`: a number below `n`, by chance.
#[verifier::external_body]
pub(crate) fn random_below(n: usize) -> (r: usize)
    requires
        n > 0,
    ensures
        r < n,
{
    rand::thread_rng().gen_range(0..n)
}

/// `IteratorRandom::choose` over the lines: one of them, by chance; `None`
/// where there are none.
#[verifier::external_body]
pub(crate) fn random_line(lines: Vec<String>) -> (r: Option<String>)
    ensures
        lines.len() == 0 ==> r is None,
        lines.len() > 0 ==> r is Some,
        r matches Some(line) ==> exists|i: int| 0 <= i < lines.len() && #[trigger] lines@[i] == line,
{
    lines.into_iter().choose(&mut rand::thread_rng())
}

// ---------------------------------------------------------------------------
// Links in a message: `linkify`
// ---------------------------------------------------------------------------

/// The links `linkify::LinkFinder::new().links` finds in a text, in order.
pub uninterp spec fn found_links(text: Seq<char>) -> Seq<Seq<char>>;

/// `LinkFinder::new().links(text)`: the text of every link found, in order.
#[verifier::external_body]
pub(crate) fn links_in(text: &str) -> (v: Vec<String>)
    ensures
        v.deep_view() == found_links(text@),
{
    linkify::LinkFinder::new().links(text).map(|l| l.as_str().to_string()).collect()
}

// ---------------------------------------------------------------------------
// URLs: `urlparse`
// ---------------------------------------------------------------------------

/// A character `urlparse` accepts in a scheme.
pub open spec fn is_scheme_char(c: char) -> bool {
    ('A' <= c <= 'Z') || ('a' <= c <= 'z') || ('0' <= c <= '9') || c == '+' || c == '-' || c
        == '.'
}

/// What follows the scheme: everything after the first `:` where the text
/// before it is made of scheme characters and the text after it is not a
/// `u16` (a port); else the whole text.
pub open spec fn after_scheme(s: Seq<char>) -> Seq<char> {
    match index_of(s, ':') {
        Some(p) => if (forall|i: int| 0 <= i < p ==> is_scheme_char(#[trigger] s[i])) && parse_unsigned(
            s.skip(p + 1),
            65535,
        ) is None {
            s.skip(p + 1)
        } else {
            s
        },
        None => s,
    }
}

/// `/`, `?` or `#`: where a network location ends.
pub open spec fn is_netloc_end(c: char) -> bool {
    c == '/' || c == '?' || c == '#'
}

/// The first index at or after `i` that ends a network location, else the
/// length.
pub open spec fn netloc_end(s: Seq<char>, i: int) -> int
    decreases s.len() - i,
{
    if i < 0 || i >= s.len() {
        s.len() as int
    } else if is_netloc_end(s[i]) {
        i
    } else {
        netloc_end(s, i + 1)
    }
}

/// The index of the last `c` in `s[..j]`.
pub open spec fn last_index_before(s: Seq<char>, c: char, j: int) -> Option<int>
    decreases j,
{
    if j <= 0 || j > s.len() {
        None
    } else if s[j - 1] == c {
        Some(j - 1)
    } else {
        last_index_before(s, c, j - 1)
    }
}

/// The network location and the path `urlparse::urlparse` finds in a URL:
/// after the scheme, a network location follows `//` up to the first `/`,
/// `?` or `#`; the path is what remains up to the last `#` and then up to the
/// first `?`.
pub open spec fn url_parts(s: Seq<char>) -> (Seq<char>, Seq<char>) {
    let extra = after_scheme(s);
    let has_netloc = extra.len() >= 2 && extra[0] == '/' && extra[1] == '/';
    let e = extra.skip(2);
    let netloc = if has_netloc {
        e.take(netloc_end(e, 0))
    } else {
        Seq::empty()
    };
    let rest = if has_netloc {
        e.skip(netloc_end(e, 0))
    } else {
        extra
    };
    let before_fragment = match last_index_before(rest, '#', rest.len() as int) {
        Some(p) => rest.take(p),
        None => rest,
    };
    let path = match index_of(before_fragment, '?') {
        Some(p) => before_fragment.take(p),
        None => before_fragment,
    };
    (netloc, path)
}

/// `urlparse::urlparse(s)`: its `netloc` and `path` fields.
#[verifier::external_body]
pub(crate) fn netloc_and_path(s: &str) -> (r: (String, String))
    ensures
        (r.0@, r.1@) == url_parts(s@),
{
    let url = urlparse::urlparse(s);
    (url.netloc, url.path)
}

// ---------------------------------------------------------------------------
// CBC article numbers: `fancy_regex` with `(?<=1.)[0-9]+`
// ---------------------------------------------------------------------------

/// A match of `(?<=1.)[0-9]+` can start at `p`: a digit preceded by `1` and
/// one character other than a line feed.
pub open spec fn article_start(s: Seq<char>, p: int) -> bool {
    2 <= p < s.len() && s[p - 2] == '1' && s[p - 1] != '\n' && is_digit(s[p])
}

/// The first index at or after `p` where a match can start.
pub open spec fn article_from(s: Seq<char>, p: int) -> Option<int>
    decreases s.len() - p,
{
    if p < 0 || p >= s.len() {
        None
    } else if article_start(s, p) {
        Some(p)
    } else {
        article_from(s, p + 1)
    }
}

/// The end of the run of digits that starts at `p`.
pub open spec fn digits_end(s: Seq<char>, p: int) -> int
    decreases s.len() - p,
{
    if 0 <= p < s.len() && is_digit(s[p]) {
        digits_end(s, p + 1)
    } else {
        p
    }
}

/// The first match of `(?<=1.)[0-9]+` in `s`: the leftmost start, with as many
/// digits as follow it.
pub open spec fn article_number(s: Seq<char>) -> Option<Seq<char>> {
    match article_from(s, 0) {
        Some(p) => Some(s.subrange(p, digits_end(s, p))),
        None => None,
    }
}

/// How a search for an article number ended.
pub enum Search {
    Found(String),
    NotFound,
    /// The search gave up: the crate's backtracking limit was reached.
    Failed,
}

/// Whether `fancy_regex`'s search for `(?<=1.)[0-9]+` in a path gives up
/// (exceeds the crate's backtracking limit), which depends on the path
/// alone.
pub uninterp spec fn article_search_fails(path: Seq<char>) -> bool;

/// `fancy_regex::Regex::new(r"(?<=1.)[0-9]+")` and the first item of
/// `find_iter` over the path: the first match, none, or the search giving
/// up. The pattern is fixed and compiles, so `Regex::new` does not fail.
#[verifier::external_body]
pub(crate) fn article_number_in(path: &str) -> (r: Search)
    ensures
        r is Failed <==> article_search_fails(path@),
        r matches Search::Found(m) ==> article_number(path@) == Some(m@),
        r is NotFound ==> article_number(path@) is None,
{
    match fancy_regex::Regex::new(r"(?<=1.)[0-9]+") {
        Ok(re) => match re.find_iter(path).next() {
            Some(Ok(m)) => Search::Found(m.as_str().to_string()),
            Some(Err(_)) => Search::Failed,
            None => Search::NotFound,
        },
        Err(_) => Search::Failed,
    }
}

// ---------------------------------------------------------------------------
// SASL credentials: `base64`
// ---------------------------------------------------------------------------

/// The character of the standard base64 alphabet for `n < 64`.
pub open spec fn b64_char(n: int) -> char {
    if n < 26 {
        (65 + n) as char
    } else if n < 52 {
        (97 + n - 26) as char
    } else if n < 62 {
        (48 + n - 52) as char
    } else if n == 62 {
        '+'
    } else {
        '/'
    }
}

/// Standard base64 with padding: each three bytes become four characters;
/// a last one or two bytes become four characters ending in `==` or `=`.
pub open spec fn base64(b: Seq<u8>) -> Seq<char>
    decreases b.len(),
{
    if b.len() == 0 {
        Seq::empty()
    } else if b.len() == 1 {
        let n = b[0] as int;
        seq![b64_char(n / 4), b64_char((n % 4) * 16), '=', '=']
    } else if b.len() == 2 {
        let n = b[0] as int * 256 + b[1] as int;
        seq![b64_char(n / 1024), b64_char((n / 16) % 64), b64_char((n % 16) * 4), '=']
    } else {
        let n = b[0] as int * 65536 + b[1] as int * 256 + b[2] as int;
        seq![b64_char(n / 262144), b64_char((n / 4096) % 64), b64_char((n / 64) % 64), b64_char(n % 64)]
            + base64(b.skip(3))
    }
}

/// `base64::encode` of the string's UTF-8 bytes.
#[verifier::external_body]
pub(crate) fn base64_encode(s: &str) -> (r: String)
    ensures
        r@ == base64(s.spec_bytes()),
{
    base64::encode(s)
}

} // verus!
