//! Character-level text handling: the searching, splitting, trimming, number
//! printing and number parsing that the bot's commands are built from.
//!
//! Every operation works on `Vec<char>`/`&[char]` and is specified over
//! `Seq<char>`, the view of a `String`.
use vstd::prelude::*;

verus! {

broadcast use vstd::string::group_string_axioms;

pub assume_specification[ String::push ](s: &mut String, ch: char)
    ensures
        final(s)@ == old(s)@.push(ch),
;

// ---------------------------------------------------------------------------
// Conversions between `String` and `Vec<char>`
// ---------------------------------------------------------------------------

/// The characters of a string slice, in order.
pub fn chars_of(s: &str) -> (v: Vec<char>)
    ensures
        v@ == s@,
{
    let mut v: Vec<char> = Vec::new();
    for c in it: s.chars()
        invariant
            v@ == it.seq().take(it.index() as int),
            it.seq() == s@,
    {
        v.push(c);
    }
    v
}

/// A string holding exactly the given characters.
pub fn string_of(v: &[char]) -> (s: String)
    ensures
        s@ == v@,
{
    let mut s = String::new();
    let mut i: usize = 0;
    while i < v.len()
        invariant
            i <= v.len(),
            s@ == v@.take(i as int),
        decreases v.len() - i,
    {
        s.push(v[i]);
        assert(v@.take(i + 1) == v@.take(i as int).push(v@[i as int]));
        i = i + 1;
    }
    assert(v@.take(v.len() as int) == v@);
    s
}

/// The characters `v[lo..hi]`.
pub fn slice_of(v: &[char], lo: usize, hi: usize) -> (r: Vec<char>)
    requires
        lo <= hi <= v.len(),
    ensures
        r@ == v@.subrange(lo as int, hi as int),
{
    let mut r: Vec<char> = Vec::new();
    let mut i = lo;
    while i < hi
        invariant
            lo <= i <= hi <= v.len(),
            r@ == v@.subrange(lo as int, i as int),
        decreases hi - i,
    {
        r.push(v[i]);
        assert(v@.subrange(lo as int, i + 1) == v@.subrange(lo as int, i as int).push(
            v@[i as int],
        ));
        i = i + 1;
    }
    r
}

/// `a` followed by `b`.
pub fn cat(a: &[char], b: &[char]) -> (r: Vec<char>)
    ensures
        r@ == a@ + b@,
{
    let mut r: Vec<char> = Vec::new();
    r.extend_from_slice(a);
    r.extend_from_slice(b);
    r
}

/// `a`, `b` and `c`, one after another.
pub fn cat3(a: &[char], b: &[char], c: &[char]) -> (r: Vec<char>)
    ensures
        r@ == a@ + b@ + c@,
{
    let mut r: Vec<char> = Vec::new();
    r.extend_from_slice(a);
    r.extend_from_slice(b);
    r.extend_from_slice(c);
    r
}

/// Whether two character sequences are equal.
pub fn same(a: &[char], b: &[char]) -> (r: bool)
    ensures
        r == (a@ == b@),
{
    if a.len() != b.len() {
        return false;
    }
    let mut i: usize = 0;
    while i < a.len()
        invariant
            a.len() == b.len(),
            i <= a.len(),
            a@.take(i as int) == b@.take(i as int),
        decreases a.len() - i,
    {
        if a[i] != b[i] {
            assert(a@[i as int] != b@[i as int]);
            return false;
        }
        assert(a@.take(i + 1) == a@.take(i as int).push(a@[i as int]));
        assert(b@.take(i + 1) == b@.take(i as int).push(b@[i as int]));
        i = i + 1;
    }
    assert(a@.take(a.len() as int) == a@);
    assert(b@.take(b.len() as int) == b@);
    true
}

// ---------------------------------------------------------------------------
// Substring search, as `str::contains`, `str::find` and `str::split` do it
// ---------------------------------------------------------------------------

/// `pat` occurs in `s` starting at index `i`.
pub open spec fn matches_at(s: Seq<char>, pat: Seq<char>, i: int) -> bool {
    0 <= i && i + pat.len() <= s.len() && s.subrange(i, i + pat.len()) == pat
}

/// The leftmost occurrence of `pat` in `s` that starts at or after `start`.
pub open spec fn find_from(s: Seq<char>, pat: Seq<char>, start: int) -> Option<int>
    decreases s.len() + 1 - start,
{
    if start < 0 || start + pat.len() > s.len() {
        None
    } else if matches_at(s, pat, start) {
        Some(start)
    } else {
        find_from(s, pat, start + 1)
    }
}

/// `str::contains`: `pat` occurs somewhere in `s`.
pub open spec fn contains(s: Seq<char>, pat: Seq<char>) -> bool {
    find_from(s, pat, 0) is Some
}

/// `s.split(pat).nth(1)`: the text between the first occurrence of `pat` and
/// the next one (or the end), where `pat` occurs at all.
pub open spec fn second_piece(s: Seq<char>, pat: Seq<char>) -> Option<Seq<char>> {
    match find_from(s, pat, 0) {
        Some(p) => {
            let q = p + pat.len();
            match find_from(s, pat, q) {
                Some(r) => Some(s.subrange(q, r)),
                None => Some(s.subrange(q, s.len() as int)),
            }
        },
        None => None,
    }
}

pub proof fn lemma_find_from_found(s: Seq<char>, pat: Seq<char>, start: int)
    ensures
        find_from(s, pat, start) matches Some(i) ==> start <= i && matches_at(s, pat, i) && (
        forall|j: int| start <= j < i ==> !matches_at(s, pat, j)),
        find_from(s, pat, start) is None ==> forall|j: int|
            start <= j && 0 <= start ==> !matches_at(s, pat, j),
    decreases s.len() + 1 - start,
{
    if start < 0 || start + pat.len() > s.len() {
    } else if matches_at(s, pat, start) {
    } else {
        lemma_find_from_found(s, pat, start + 1);
    }
}

/// Whether `pat` occurs in `s` at index `i`.
pub fn matches_at_exec(s: &[char], pat: &[char], i: usize) -> (r: bool)
    ensures
        r == matches_at(s@, pat@, i as int),
{
    if i > s.len() || pat.len() > s.len() - i {
        return false;
    }
    let mut k: usize = 0;
    while k < pat.len()
        invariant
            i + pat.len() <= s.len(),
            k <= pat.len(),
            s@.subrange(i as int, i + k) == pat@.take(k as int),
        decreases pat.len() - k,
    {
        if s[i + k] != pat[k] {
            assert(s@.subrange(i as int, i + pat.len())[k as int] != pat@[k as int]);
            return false;
        }
        assert(s@.subrange(i as int, i + k + 1) == s@.subrange(i as int, i + k).push(
            s@[i + k],
        ));
        assert(pat@.take(k + 1) == pat@.take(k as int).push(pat@[k as int]));
        k = k + 1;
    }
    assert(pat@.take(pat.len() as int) == pat@);
    true
}

/// The leftmost occurrence of `pat` in `s` at or after `start`.
pub fn find_from_exec(s: &[char], pat: &[char], start: usize) -> (r: Option<usize>)
    ensures
        match r {
            Some(i) => find_from(s@, pat@, start as int) == Some(i as int),
            None => find_from(s@, pat@, start as int) is None,
        },
{
    if start > s.len() {
        return None;
    }
    let mut i = start;
    loop
        invariant
            start <= i <= s.len(),
            find_from(s@, pat@, start as int) == find_from(s@, pat@, i as int),
        decreases s.len() - i,
    {
        if pat.len() > s.len() - i {
            return None;
        }
        if matches_at_exec(s, pat, i) {
            return Some(i);
        }
        if i == s.len() {
            assert(find_from(s@, pat@, i + 1) is None);
            return None;
        }
        i = i + 1;
    }
}

/// `str::contains`.
pub fn contains_exec(s: &[char], pat: &[char]) -> (r: bool)
    ensures
        r == contains(s@, pat@),
{
    find_from_exec(s, pat, 0).is_some()
}

/// `s.split(pat).nth(1)`.
pub fn second_piece_exec(s: &[char], pat: &[char]) -> (r: Option<Vec<char>>)
    ensures
        match r {
            Some(v) => second_piece(s@, pat@) == Some(v@),
            None => second_piece(s@, pat@) is None,
        },
{
    match find_from_exec(s, pat, 0) {
        None => None,
        Some(p) => {
            proof {
                lemma_find_from_found(s@, pat@, 0);
                assert(matches_at(s@, pat@, p as int));
                assert(p + pat@.len() <= s@.len());
                assert(s@.len() == s.len());
            }
            let q = p + pat.len();
            match find_from_exec(s, pat, q) {
                Some(r) => {
                    proof {
                        lemma_find_from_found(s@, pat@, q as int);
                    }
                    Some(slice_of(s, q, r))
                },
                None => Some(slice_of(s, q, s.len())),
            }
        },
    }
}

/// `str::ends_with`.
pub open spec fn ends_with(s: Seq<char>, suffix: Seq<char>) -> bool {
    suffix.len() <= s.len() && s.subrange(s.len() - suffix.len(), s.len() as int) == suffix
}

pub fn ends_with_exec(s: &[char], suffix: &[char]) -> (r: bool)
    ensures
        r == ends_with(s@, suffix@),
{
    if suffix.len() > s.len() {
        return false;
    }
    matches_at_exec(s, suffix, s.len() - suffix.len())
}

// ---------------------------------------------------------------------------
// Splitting at a single character
// ---------------------------------------------------------------------------

/// The index of the first `c` in `s`, searching from `i`.
pub open spec fn index_of_from(s: Seq<char>, c: char, i: int) -> Option<int>
    decreases s.len() - i,
{
    if i < 0 || i >= s.len() {
        None
    } else if s[i] == c {
        Some(i)
    } else {
        index_of_from(s, c, i + 1)
    }
}

/// The index of the first `c` in `s`.
pub open spec fn index_of(s: Seq<char>, c: char) -> Option<int> {
    index_of_from(s, c, 0)
}

/// `s.split(c).next()`: everything before the first `c`, or all of `s`.
pub open spec fn before_char(s: Seq<char>, c: char) -> Seq<char> {
    match index_of(s, c) {
        Some(i) => s.take(i),
        None => s,
    }
}

/// `s.split(c).skip(1)` joined back with `c`: everything after the first `c`,
/// or nothing where `s` holds no `c`.
pub open spec fn after_char(s: Seq<char>, c: char) -> Seq<char> {
    match index_of(s, c) {
        Some(i) => s.skip(i + 1),
        None => Seq::empty(),
    }
}

pub proof fn lemma_index_of_from(s: Seq<char>, c: char, i: int)
    ensures
        index_of_from(s, c, i) matches Some(k) ==> 0 <= i <= k < s.len() && s[k] == c && (forall|
            j: int,
        | i <= j < k ==> s[j] != c),
        index_of_from(s, c, i) is None ==> forall|j: int| 0 <= i <= j < s.len() ==> s[j] != c,
    decreases s.len() - i,
{
    if i < 0 || i >= s.len() {
    } else if s[i] == c {
    } else {
        lemma_index_of_from(s, c, i + 1);
    }
}

/// The index of the first `c` in `s`.
pub fn index_of_exec(s: &[char], c: char) -> (r: Option<usize>)
    ensures
        match r {
            Some(i) => index_of(s@, c) == Some(i as int),
            None => index_of(s@, c) is None,
        },
{
    let mut i: usize = 0;
    while i < s.len()
        invariant
            i <= s.len(),
            index_of(s@, c) == index_of_from(s@, c, i as int),
        decreases s.len() - i,
    {
        if s[i] == c {
            return Some(i);
        }
        i = i + 1;
    }
    None
}

/// Splits `s` at its first `c`: what comes before it, and whether a `c` was
/// there together with what comes after it.
pub fn split_at_char(s: &[char], c: char) -> (r: (Vec<char>, bool, Vec<char>))
    ensures
        r.0@ == before_char(s@, c),
        r.1 == (index_of(s@, c) is Some),
        r.2@ == after_char(s@, c),
{
    match index_of_exec(s, c) {
        Some(i) => {
            proof {
                lemma_index_of_from(s@, c, 0);
            }
            (slice_of(s, 0, i), true, slice_of(s, i + 1, s.len()))
        },
        None => (slice_of(s, 0, s.len()), false, Vec::new()),
    }
}

// ---------------------------------------------------------------------------
// Trimming
// ---------------------------------------------------------------------------

/// `char::is_whitespace`: the Unicode `White_Space` property.
pub open spec fn is_ws(c: char) -> bool {
    let n = c as u32;
    (9 <= n <= 13) || n == 32 || n == 0x85 || n == 0xa0 || n == 0x1680 || (0x2000 <= n
        <= 0x200a) || n == 0x2028 || n == 0x2029 || n == 0x202f || n == 0x205f || n == 0x3000
}

pub fn is_ws_exec(c: char) -> (r: bool)
    ensures
        r == is_ws(c),
{
    let n = c as u32;
    (9 <= n && n <= 13) || n == 32 || n == 0x85 || n == 0xa0 || n == 0x1680 || (0x2000 <= n && n
        <= 0x200a) || n == 0x2028 || n == 0x2029 || n == 0x202f || n == 0x205f || n == 0x3000
}

/// The first index at or after `i` that does not hold whitespace.
pub open spec fn skip_ws(s: Seq<char>, i: int) -> int
    decreases s.len() - i,
{
    if 0 <= i < s.len() && is_ws(s[i]) {
        skip_ws(s, i + 1)
    } else {
        i
    }
}

/// The end of `s[lo..j]` once whitespace at its end is dropped.
pub open spec fn drop_ws_end(s: Seq<char>, lo: int, j: int) -> int
    decreases j - lo,
{
    if lo < j && j <= s.len() && is_ws(s[j - 1]) {
        drop_ws_end(s, lo, j - 1)
    } else {
        j
    }
}

/// `str::trim`: `s` without whitespace at either end.
pub open spec fn trim(s: Seq<char>) -> Seq<char> {
    let a = skip_ws(s, 0);
    s.subrange(a, drop_ws_end(s, a, s.len() as int))
}

pub proof fn lemma_skip_ws(s: Seq<char>, i: int)
    requires
        0 <= i <= s.len(),
    ensures
        i <= skip_ws(s, i) <= s.len(),
        forall|j: int| i <= j < skip_ws(s, i) ==> is_ws(s[j]),
        skip_ws(s, i) < s.len() ==> !is_ws(s[skip_ws(s, i)]),
    decreases s.len() - i,
{
    if 0 <= i < s.len() && is_ws(s[i]) {
        lemma_skip_ws(s, i + 1);
    }
}

pub proof fn lemma_drop_ws_end(s: Seq<char>, lo: int, j: int)
    requires
        0 <= lo <= j <= s.len(),
    ensures
        lo <= drop_ws_end(s, lo, j) <= j,
        forall|k: int| drop_ws_end(s, lo, j) <= k < j ==> is_ws(s[k]),
        lo < drop_ws_end(s, lo, j) ==> !is_ws(s[drop_ws_end(s, lo, j) - 1]),
    decreases j - lo,
{
    if lo < j && j <= s.len() && is_ws(s[j - 1]) {
        lemma_drop_ws_end(s, lo, j - 1);
    }
}

/// The bounds `(a, b)` with `trim(s) == s[a..b]`.
pub fn trim_bounds(s: &[char]) -> (r: (usize, usize))
    ensures
        r.0 as int == skip_ws(s@, 0),
        r.1 as int == drop_ws_end(s@, r.0 as int, s@.len() as int),
        r.0 <= r.1 <= s.len(),
        trim(s@) == s@.subrange(r.0 as int, r.1 as int),
{
    let mut a: usize = 0;
    while a < s.len() && is_ws_exec(s[a])
        invariant
            a <= s.len(),
            skip_ws(s@, 0) == skip_ws(s@, a as int),
        decreases s.len() - a,
    {
        a = a + 1;
    }
    let mut b: usize = s.len();
    while a < b && is_ws_exec(s[b - 1])
        invariant
            a <= b <= s.len(),
            drop_ws_end(s@, a as int, s@.len() as int) == drop_ws_end(s@, a as int, b as int),
        decreases b - a,
    {
        b = b - 1;
    }
    (a, b)
}

/// `str::trim`.
pub fn trim_exec(s: &[char]) -> (r: Vec<char>)
    ensures
        r@ == trim(s@),
{
    let (a, b) = trim_bounds(s);
    slice_of(s, a, b)
}

/// `str::trim_start_matches(c)`: `s` without any leading `c`.
pub open spec fn trim_start_char(s: Seq<char>, c: char) -> Seq<char>
    decreases s.len(),
{
    if s.len() > 0 && s[0] == c {
        trim_start_char(s.drop_first(), c)
    } else {
        s
    }
}

pub fn trim_start_char_exec(s: &[char], c: char) -> (r: Vec<char>)
    ensures
        r@ == trim_start_char(s@, c),
{
    let mut a: usize = 0;
    assert(s@.skip(0) == s@);
    while a < s.len() && s[a] == c
        invariant
            a <= s.len(),
            trim_start_char(s@, c) == trim_start_char(s@.skip(a as int), c),
        decreases s.len() - a,
    {
        assert(s@.skip(a as int).drop_first() == s@.skip(a + 1));
        a = a + 1;
    }
    assert(s@.skip(a as int) == s@.subrange(a as int, s@.len() as int));
    slice_of(s, a, s.len())
}

/// A brace, `{` or `}`.
pub open spec fn is_brace(c: char) -> bool {
    c == '{' || c == '}'
}

/// The first index at or after `i` that does not hold a brace.
pub open spec fn skip_braces(s: Seq<char>, i: int) -> int
    decreases s.len() - i,
{
    if 0 <= i < s.len() && is_brace(s[i]) {
        skip_braces(s, i + 1)
    } else {
        i
    }
}

/// The end of `s[lo..j]` once braces at its end are dropped.
pub open spec fn drop_braces_end(s: Seq<char>, lo: int, j: int) -> int
    decreases j - lo,
{
    if lo < j && j <= s.len() && is_brace(s[j - 1]) {
        drop_braces_end(s, lo, j - 1)
    } else {
        j
    }
}

/// `str::trim_matches(|c| c == '{' || c == '}')`.
pub open spec fn trim_braces(s: Seq<char>) -> Seq<char> {
    let a = skip_braces(s, 0);
    s.subrange(a, drop_braces_end(s, a, s.len() as int))
}

pub proof fn lemma_skip_braces(s: Seq<char>, i: int)
    requires
        0 <= i <= s.len(),
    ensures
        i <= skip_braces(s, i) <= s.len(),
    decreases s.len() - i,
{
    if 0 <= i < s.len() && is_brace(s[i]) {
        lemma_skip_braces(s, i + 1);
    }
}

pub proof fn lemma_drop_braces_end(s: Seq<char>, lo: int, j: int)
    requires
        0 <= lo <= j <= s.len(),
    ensures
        lo <= drop_braces_end(s, lo, j) <= j,
    decreases j - lo,
{
    if lo < j && j <= s.len() && is_brace(s[j - 1]) {
        lemma_drop_braces_end(s, lo, j - 1);
    }
}

pub fn trim_braces_exec(s: &[char]) -> (r: Vec<char>)
    ensures
        r@ == trim_braces(s@),
{
    let mut a: usize = 0;
    while a < s.len() && (s[a] == '{' || s[a] == '}')
        invariant
            a <= s.len(),
            skip_braces(s@, 0) == skip_braces(s@, a as int),
        decreases s.len() - a,
    {
        a = a + 1;
    }
    let mut b: usize = s.len();
    while a < b && (s[b - 1] == '{' || s[b - 1] == '}')
        invariant
            a <= b <= s.len(),
            drop_braces_end(s@, a as int, s@.len() as int) == drop_braces_end(
                s@,
                a as int,
                b as int,
            ),
        decreases b - a,
    {
        b = b - 1;
    }
    slice_of(s, a, b)
}

// ---------------------------------------------------------------------------
// Numbers
// ---------------------------------------------------------------------------

/// The decimal digit character for `d < 10`.
pub open spec fn digit_char(d: nat) -> char {
    (48 + d) as char
}

/// The decimal representation of `n`, as `Display` prints an unsigned integer.
pub open spec fn decimal(n: nat) -> Seq<char>
    decreases n,
{
    if n < 10 {
        seq![digit_char(n)]
    } else {
        decimal(n / 10).push(digit_char(n % 10))
    }
}

fn digit_exec(d: u64) -> (c: char)
    requires
        d < 10,
    ensures
        c == digit_char(d as nat),
{
    if d == 0 {
        '0'
    } else if d == 1 {
        '1'
    } else if d == 2 {
        '2'
    } else if d == 3 {
        '3'
    } else if d == 4 {
        '4'
    } else if d == 5 {
        '5'
    } else if d == 6 {
        '6'
    } else if d == 7 {
        '7'
    } else if d == 8 {
        '8'
    } else {
        '9'
    }
}

/// The decimal representation of `n`.
pub fn decimal_exec(n: u64) -> (r: Vec<char>)
    ensures
        r@ == decimal(n as nat),
    decreases n,
{
    if n < 10 {
        let mut v: Vec<char> = Vec::new();
        v.push(digit_exec(n));
        v
    } else {
        let mut v = decimal_exec(n / 10);
        v.push(digit_exec(n % 10));
        v
    }
}

/// The decimal representation of a signed integer, with a leading `-` where
/// it is negative.
pub open spec fn signed_decimal(n: int) -> Seq<char> {
    if n < 0 {
        seq!['-'] + decimal((-n) as nat)
    } else {
        decimal(n as nat)
    }
}

/// The decimal representation of an `i32`.
pub fn signed_decimal_exec(n: i32) -> (r: Vec<char>)
    ensures
        r@ == signed_decimal(n as int),
{
    if n < 0 {
        let m: i64 = -(n as i64);
        let digits = decimal_exec(m as u64);
        let mut r: Vec<char> = Vec::new();
        r.push('-');
        r.extend_from_slice(digits.as_slice());
        assert(r@ == seq!['-'] + digits@);
        r
    } else {
        decimal_exec(n as u64)
    }
}

/// An ASCII decimal digit.
pub open spec fn is_digit(c: char) -> bool {
    '0' <= c <= '9'
}

/// The value of a digit character.
pub open spec fn digit_value(c: char) -> nat {
    (c as u32 - 48) as nat
}

/// The value of a string of decimal digits.
pub open spec fn digits_value(s: Seq<char>) -> nat
    decreases s.len(),
{
    if s.len() == 0 {
        0
    } else {
        digits_value(s.drop_last()) * 10 + digit_value(s.last())
    }
}

/// Every character of `s` is a decimal digit.
pub open spec fn all_digits(s: Seq<char>) -> bool {
    forall|i: int| 0 <= i < s.len() ==> is_digit(#[trigger] s[i])
}

/// The digits that `str::parse` reads for an unsigned integer: an optional
/// leading `+` is dropped.
pub open spec fn unsigned_body(s: Seq<char>) -> Seq<char> {
    if s.len() > 0 && s[0] == '+' {
        s.drop_first()
    } else {
        s
    }
}

/// `s.parse::<uN>()` for an unsigned type whose largest value is `max`: an
/// optional `+`, then at least one ASCII digit and nothing else, with a value
/// that fits.
pub open spec fn parse_unsigned(s: Seq<char>, max: nat) -> Option<nat> {
    let body = unsigned_body(s);
    if body.len() > 0 && all_digits(body) && digits_value(body) <= max {
        Some(digits_value(body))
    } else {
        None
    }
}

/// `s.parse::<usize>()`.
pub open spec fn parse_usize(s: Seq<char>) -> Option<nat> {
    parse_unsigned(s, usize::MAX as nat)
}

pub proof fn lemma_digits_value_grows(s: Seq<char>, i: int)
    requires
        0 <= i <= s.len(),
    ensures
        digits_value(s.take(i)) <= digits_value(s),
    decreases s.len() - i,
{
    if i < s.len() {
        lemma_digits_value_grows(s.drop_last(), i);
        assert(s.drop_last().take(i) == s.take(i));
    } else {
        assert(s.take(i) == s);
    }
}

/// `s.parse::<usize>()`, with the failure reduced to `None`.
pub fn parse_usize_exec(s: &[char]) -> (r: Option<usize>)
    ensures
        match r {
            Some(n) => parse_usize(s@) == Some(n as nat),
            None => parse_usize(s@) is None,
        },
{
    let start: usize = if s.len() > 0 && s[0] == '+' {
        1
    } else {
        0
    };
    let ghost body = unsigned_body(s@);
    assert(body == s@.skip(start as int));
    if start >= s.len() {
        assert(body.len() == 0);
        return None;
    }
    let mut acc: u128 = 0;
    let mut i = start;
    while i < s.len()
        invariant
            start <= i <= s.len(),
            body == s@.skip(start as int),
            body == unsigned_body(s@),
            all_digits(body.take(i - start)),
            acc as nat == digits_value(body.take(i - start)),
            acc <= usize::MAX,
        decreases s.len() - i,
    {
        let c = s[i];
        if !('0' <= c && c <= '9') {
            assert(body[i - start] == c);
            assert(!is_digit(body[i - start]));
            assert(!all_digits(body));
            return None;
        }
        let d = (c as u32 - 48) as u128;
        assert(body.take(i + 1 - start).drop_last() == body.take(i - start));
        assert(body.take(i + 1 - start).last() == c);
        assert(d as nat == digit_value(c));
        assert(digits_value(body.take(i + 1 - start)) == digits_value(body.take(i - start)) * 10
            + digit_value(c));
        acc = acc * 10 + d;
        assert(all_digits(body.take(i + 1 - start))) by {
            assert forall|k: int| 0 <= k < i + 1 - start implies is_digit(
                #[trigger] body.take(i + 1 - start)[k],
            ) by {
                if k < i - start {
                    assert(body.take(i + 1 - start)[k] == body.take(i - start)[k]);
                }
            }
        }
        if acc > usize::MAX as u128 {
            proof {
                lemma_digits_value_grows(body, i + 1 - start);
                assert(digits_value(body) > usize::MAX);
            }
            return None;
        }
        i = i + 1;
    }
    assert(body.take(s.len() - start) == body);
    Some(acc as usize)
}

} // verus!
