//! Character-level text utilities: substring search, trimming, line
//! splitting, number parsing and number rendering, each with a mathematical
//! specification over `Seq<char>`.
use vstd::prelude::*;

verus! {

// ---------------------------------------------------------------------------
// Trusted bridges to std's string handling
// ---------------------------------------------------------------------------

/// The characters of `s`, in order.
pub(crate) fn chars_of(s: &str) -> (v: Vec<char>)
    ensures
        v@ == s@,
{
    broadcast use vstd::string::axiom_spec_iter;

    let mut v: Vec<char> = Vec::new();
    for c in it: s.chars()
        invariant
            it.seq() == s@,
            v@ == it.seq().take(it.index() as int),
    {
        v.push(c);
    }
    v
}

/// `Iterator::collect::<String>()` over a slice of characters: the string
/// made of exactly those characters, in order.
#[verifier::external_body]
pub(crate) fn string_of(v: &[char]) -> (s: String)
    ensures
        s@ == v@,
{
    v.iter().collect()
}

/// What `str::to_lowercase` returns for a text (Unicode case mapping).
pub uninterp spec fn lowercase(s: Seq<char>) -> Seq<char>;

/// The text as `str::to_lowercase` returns it, with the ASCII case spelled
/// out: ASCII text is lowercased character by character, other text by the
/// Unicode mapping named [`lowercase`].
pub open spec fn lower_text(s: Seq<char>) -> Seq<char> {
    if is_ascii_text(s) {
        ascii_lower(s)
    } else {
        lowercase(s)
    }
}

/// The text is ASCII.
pub open spec fn is_ascii_text(s: Seq<char>) -> bool {
    forall|i: int| 0 <= i < s.len() ==> (#[trigger] s[i] as u32) < 128
}

/// An ASCII character lowercased: `A`-`Z` become `a`-`z`, others stay.
pub open spec fn ascii_lower_char(c: char) -> char {
    if 65 <= (c as u32) <= 90 {
        ((c as u32) + 32) as char
    } else {
        c
    }
}

/// An ASCII text lowercased character by character.
pub open spec fn ascii_lower(s: Seq<char>) -> Seq<char> {
    s.map_values(|c: char| ascii_lower_char(c))
}

/// `str::to_lowercase`: the Unicode lowercase mapping of `s`, which depends
/// on `s` alone.  For ASCII text this is the plain ASCII mapping (`A`-`Z` to
/// `a`-`z`, everything else unchanged); beyond ASCII the mapping is named,
/// not restated.
#[verifier::external_body]
pub(crate) fn to_lowercase(s: &str) -> (r: String)
    ensures
        r@ == lowercase(s@),
        is_ascii_text(s@) ==> r@ == ascii_lower(s@),
{
    s.to_lowercase()
}

/// The character has the Unicode `White_Space` property: tab through
/// carriage return, space, next line, no-break space, ogham space mark, the
/// spaces U+2000 to U+200A, line and paragraph separators, narrow no-break
/// space, medium mathematical space and ideographic space.
pub open spec fn is_whitespace(c: char) -> bool {
    let n = c as u32;
    ||| 0x09 <= n <= 0x0D
    ||| n == 0x20
    ||| n == 0x85
    ||| n == 0xA0
    ||| n == 0x1680
    ||| 0x2000 <= n <= 0x200A
    ||| n == 0x2028
    ||| n == 0x2029
    ||| n == 0x202F
    ||| n == 0x205F
    ||| n == 0x3000
}

/// Whether `c` is a whitespace character (see [`is_whitespace`]).
pub(crate) fn char_is_whitespace(c: char) -> (r: bool)
    ensures
        r == is_whitespace(c),
{
    let n = c as u32;
    (0x09 <= n && n <= 0x0D) || n == 0x20 || n == 0x85 || n == 0xA0 || n == 0x1680 || (0x2000 <= n
        && n <= 0x200A) || n == 0x2028 || n == 0x2029 || n == 0x202F || n == 0x205F || n == 0x3000
}

// ---------------------------------------------------------------------------
// Substring search
// ---------------------------------------------------------------------------

/// `t` occurs in `s` starting at position `i`.
pub open spec fn occurs_at(s: Seq<char>, t: Seq<char>, i: int) -> bool {
    0 <= i && i + t.len() <= s.len() && s.subrange(i, i + t.len()) == t
}

/// `t` occurs somewhere in `s` (the empty text occurs everywhere).
pub open spec fn contains(s: Seq<char>, t: Seq<char>) -> bool {
    exists|i: int| occurs_at(s, t, i)
}

/// Index of the first occurrence of `t` in `s` at or after `from`, if any.
pub open spec fn find_from(s: Seq<char>, t: Seq<char>, from: int) -> Option<int>
    decreases s.len() + 1 - from,
{
    if from < 0 || from + t.len() > s.len() {
        None
    } else if occurs_at(s, t, from) {
        Some(from)
    } else {
        find_from(s, t, from + 1)
    }
}

/// Index of the first occurrence of `t` in `s`, if any.
pub open spec fn find(s: Seq<char>, t: Seq<char>) -> Option<int> {
    find_from(s, t, 0)
}

proof fn lemma_find_from(s: Seq<char>, t: Seq<char>, from: int)
    requires
        0 <= from,
    ensures
        find_from(s, t, from) matches Some(k) ==> from <= k && occurs_at(s, t, k) && forall|j: int|
            from <= j < k ==> !occurs_at(s, t, j),
        find_from(s, t, from) is None ==> forall|j: int| from <= j ==> !occurs_at(s, t, j),
    decreases s.len() + 1 - from,
{
    if from + t.len() > s.len() {
    } else if occurs_at(s, t, from) {
    } else {
        lemma_find_from(s, t, from + 1);
    }
}

/// Relates `find` to `contains`: the first occurrence exists exactly when
/// `t` occurs in `s`, and nothing occurs before it.
pub proof fn lemma_find(s: Seq<char>, t: Seq<char>)
    ensures
        find(s, t) is Some <==> contains(s, t),
        find(s, t) matches Some(k) ==> occurs_at(s, t, k) && forall|j: int|
            0 <= j < k ==> !occurs_at(s, t, j),
{
    lemma_find_from(s, t, 0);
    if contains(s, t) {
        let w = choose|i: int| occurs_at(s, t, i);
        assert(occurs_at(s, t, w));
    }
}

fn matches_at(s: &[char], t: &[char], i: usize) -> (r: bool)
    requires
        i + t@.len() <= s@.len(),
    ensures
        r == occurs_at(s@, t@, i as int),
{
    let n = s.len();
    let mut k: usize = 0;
    while k < t.len()
        invariant
            n == s@.len(),
            k <= t@.len(),
            i + t@.len() <= s@.len(),
            forall|j: int| 0 <= j < k ==> s@[i + j] == t@[j],
        decreases t@.len() - k,
    {
        assert(i + k < s@.len());
        if s[i + k] != t[k] {
            proof {
                assert(s@.subrange(i as int, i + t@.len())[k as int] != t@[k as int]);
            }
            return false;
        }
        k = k + 1;
    }
    assert(s@.subrange(i as int, i + t@.len()) =~= t@);
    true
}

/// First position at or after `from` where `t` occurs in `s`.
pub fn find_slice_from(s: &[char], t: &[char], from: usize) -> (r: Option<usize>)
    ensures
        r matches Some(k) ==> find_from(s@, t@, from as int) == Some(k as int),
        r is None ==> find_from(s@, t@, from as int) is None,
{
    if t.len() > s.len() {
        proof {
            lemma_find_from(s@, t@, from as int);
        }
        return None;
    }
    if t.len() == 0 {
        if from <= s.len() {
            proof {
                assert(s@.subrange(from as int, from as int) =~= t@);
            }
            return Some(from);
        }
        return None;
    }
    let n = s.len();
    let last = n - t.len();
    let mut i = from;
    while i <= last
        invariant
            n == s@.len(),
            t@.len() >= 1,
            last == s@.len() - t@.len(),
            last <= s@.len(),
            from <= i,
            find_from(s@, t@, from as int) == find_from(s@, t@, i as int),
        decreases last + 1 - i,
    {
        if matches_at(s, t, i) {
            return Some(i);
        }
        i = i + 1;
    }
    None
}

/// First position where `t` occurs in `s`.
pub fn find_slice(s: &[char], t: &[char]) -> (r: Option<usize>)
    ensures
        r matches Some(k) ==> find(s@, t@) == Some(k as int),
        r is None ==> find(s@, t@) is None,
{
    find_slice_from(s, t, 0)
}

/// Whether `t` occurs in `s`.
pub fn contains_slice(s: &[char], t: &[char]) -> (r: bool)
    ensures
        r == contains(s@, t@),
{
    proof {
        lemma_find(s@, t@);
    }
    find_slice(s, t).is_some()
}

/// Whether the text `needle` occurs in `s`.
pub fn contains_text(s: &[char], needle: &str) -> (r: bool)
    ensures
        r == contains(s@, needle@),
{
    let t = chars_of(needle);
    contains_slice(s, t.as_slice())
}

/// Whether the text `needle` occurs in the string `s`.
pub fn str_contains(s: &str, needle: &str) -> (r: bool)
    ensures
        r == contains(s@, needle@),
{
    let v = chars_of(s);
    contains_text(v.as_slice(), needle)
}

/// Whether the lowercase form of `s` contains `needle`.
pub fn lower_contains(s: &str, needle: &str) -> (r: bool)
    ensures
        r == contains(lower_text(s@), needle@),
        is_ascii_text(s@) ==> r == contains(ascii_lower(s@), needle@),
{
    let l = to_lowercase(s);
    str_contains(l.as_str(), needle)
}

/// Whether two strings hold the same characters.
pub fn str_eq(a: &str, b: &str) -> (r: bool)
    ensures
        r == (a@ == b@),
{
    let x = chars_of(a);
    let y = chars_of(b);
    if x.len() != y.len() {
        return false;
    }
    let mut i: usize = 0;
    while i < x.len()
        invariant
            x@ == a@,
            y@ == b@,
            x@.len() == y@.len(),
            i <= x@.len(),
            forall|j: int| 0 <= j < i ==> x@[j] == y@[j],
        decreases x@.len() - i,
    {
        if x[i] != y[i] {
            return false;
        }
        i = i + 1;
    }
    assert(x@ =~= y@);
    true
}

// ---------------------------------------------------------------------------
// Prefixes, trimming, lines
// ---------------------------------------------------------------------------

/// `s` begins with the character `c`.
pub open spec fn starts_with_char(s: Seq<char>, c: char) -> bool {
    s.len() > 0 && s[0] == c
}

/// Number of leading whitespace characters of `s` from position `i` on.
pub open spec fn leading_ws_from(s: Seq<char>, i: int) -> int
    decreases s.len() - i,
{
    if i < 0 || i >= s.len() {
        0
    } else if is_whitespace(s[i]) {
        1 + leading_ws_from(s, i + 1)
    } else {
        0
    }
}

/// Number of trailing whitespace characters of `s.take(n)`.
pub open spec fn trailing_ws(s: Seq<char>, n: int) -> int
    decreases n,
{
    if n <= 0 || n > s.len() {
        0
    } else if is_whitespace(s[n - 1]) {
        1 + trailing_ws(s, n - 1)
    } else {
        0
    }
}

/// `str::trim`: `s` without its leading and trailing whitespace.
pub open spec fn trim(s: Seq<char>) -> Seq<char> {
    let a = leading_ws_from(s, 0);
    if a >= s.len() {
        Seq::empty()
    } else {
        s.subrange(a, s.len() - trailing_ws(s, s.len() as int))
    }
}

/// `str::trim_start`: `s` without its leading whitespace.
pub open spec fn trim_start(s: Seq<char>) -> Seq<char> {
    s.subrange(leading_ws_from(s, 0), s.len() as int)
}

proof fn lemma_leading_bounds(s: Seq<char>, i: int)
    requires
        0 <= i <= s.len(),
    ensures
        0 <= leading_ws_from(s, i) <= s.len() - i,
        i + leading_ws_from(s, i) < s.len() ==> !is_whitespace(s[i + leading_ws_from(s, i)]),
    decreases s.len() - i,
{
    if i < s.len() && is_whitespace(s[i]) {
        lemma_leading_bounds(s, i + 1);
    }
}

proof fn lemma_trailing_bounds(s: Seq<char>, n: int)
    requires
        0 <= n <= s.len(),
    ensures
        0 <= trailing_ws(s, n) <= n,
    decreases n,
{
    if n > 0 && is_whitespace(s[n - 1]) {
        lemma_trailing_bounds(s, n - 1);
    }
}

proof fn lemma_trailing_stops(s: Seq<char>, n: int, a: int)
    requires
        0 <= a < n <= s.len(),
        !is_whitespace(s[a]),
    ensures
        n - trailing_ws(s, n) > a,
    decreases n,
{
    if is_whitespace(s[n - 1]) {
        lemma_trailing_stops(s, n - 1, a);
    }
}

/// Index of the first non-whitespace character at or after `i`.
fn skip_leading_ws(s: &[char], i: usize) -> (r: usize)
    requires
        i <= s@.len(),
    ensures
        r as int == i + leading_ws_from(s@, i as int),
    decreases s@.len() - i,
{
    if i < s.len() && char_is_whitespace(s[i]) {
        skip_leading_ws(s, i + 1)
    } else {
        i
    }
}

/// Length of `s.take(n)` once its trailing whitespace is removed.
fn end_without_trailing_ws(s: &[char], n: usize) -> (r: usize)
    requires
        n <= s@.len(),
    ensures
        r as int == n - trailing_ws(s@, n as int),
    decreases n,
{
    if n > 0 && char_is_whitespace(s[n - 1]) {
        end_without_trailing_ws(s, n - 1)
    } else {
        n
    }
}

/// `str::trim` over characters.
pub fn trim_chars(s: &[char]) -> (r: Vec<char>)
    ensures
        r@ == trim(s@),
{
    proof {
        lemma_leading_bounds(s@, 0);
        lemma_trailing_bounds(s@, s@.len() as int);
    }
    let a = skip_leading_ws(s, 0);
    if a >= s.len() {
        return Vec::new();
    }
    proof {
        lemma_trailing_stops(s@, s@.len() as int, a as int);
    }
    let b = end_without_trailing_ws(s, s.len());
    slice_range(s, a, b)
}

/// `str::trim_start` over characters.
pub fn trim_start_chars(s: &[char]) -> (r: Vec<char>)
    ensures
        r@ == trim_start(s@),
{
    proof {
        lemma_leading_bounds(s@, 0);
    }
    let a = skip_leading_ws(s, 0);
    slice_range(s, a, s.len())
}

/// A copy of `s[a..b]`.
pub fn slice_range(s: &[char], a: usize, b: usize) -> (r: Vec<char>)
    requires
        a <= b <= s@.len(),
    ensures
        r@ == s@.subrange(a as int, b as int),
{
    let mut r: Vec<char> = Vec::new();
    let mut i = a;
    while i < b
        invariant
            a <= i <= b,
            b <= s@.len(),
            r@ == s@.subrange(a as int, i as int),
        decreases b - i,
    {
        r.push(s[i]);
        proof {
            assert(s@.subrange(a as int, i + 1) =~= s@.subrange(a as int, i as int).push(s@[i as int]));
        }
        i = i + 1;
    }
    r
}

/// Index of the first `'\n'` at or after `i`, or the length of `s`.
pub open spec fn newline_from(s: Seq<char>, i: int) -> int
    decreases s.len() - i,
{
    if i < 0 || i >= s.len() {
        s.len() as int
    } else if s[i] == '\n' {
        i
    } else {
        newline_from(s, i + 1)
    }
}

/// A line without the `'\r'` that ended it, if any.
pub open spec fn strip_cr(l: Seq<char>) -> Seq<char> {
    if l.len() > 0 && l.last() == '\r' {
        l.drop_last()
    } else {
        l
    }
}

/// `str::lines` from position `start`: pieces split at `'\n'`, with a
/// `"\r\n"` ending removed and no empty piece after a final `'\n'`.
pub open spec fn lines_from(s: Seq<char>, start: int) -> Seq<Seq<char>>
    decreases s.len() - start,
{
    if start < 0 || start >= s.len() {
        Seq::empty()
    } else {
        let e = newline_from(s, start);
        if e >= s.len() {
            seq![s.subrange(start, s.len() as int)]
        } else {
            proof {
                lemma_newline_bounds(s, start);
            }
            seq![strip_cr(s.subrange(start, e))] + lines_from(s, e + 1)
        }
    }
}

/// `str::lines`.
pub open spec fn lines(s: Seq<char>) -> Seq<Seq<char>> {
    lines_from(s, 0)
}

pub proof fn lemma_newline_bounds(s: Seq<char>, i: int)
    requires
        0 <= i <= s.len(),
    ensures
        i <= newline_from(s, i) <= s.len(),
        newline_from(s, i) < s.len() ==> s[newline_from(s, i)] == '\n',
    decreases s.len() - i,
{
    if i < s.len() && s[i] != '\n' {
        lemma_newline_bounds(s, i + 1);
    }
}

fn newline_index(s: &[char], i: usize) -> (r: usize)
    requires
        i <= s@.len(),
    ensures
        r as int == newline_from(s@, i as int),
    decreases s@.len() - i,
{
    if i < s.len() && s[i] != '\n' {
        newline_index(s, i + 1)
    } else {
        i
    }
}

/// `str::lines` over characters.
pub fn split_lines(s: &[char]) -> (r: Vec<Vec<char>>)
    ensures
        r@.len() == lines(s@).len(),
        forall|k: int| 0 <= k < r@.len() ==> #[trigger] r@[k]@ == lines(s@)[k],
{
    let mut out: Vec<Vec<char>> = Vec::new();
    let mut start: usize = 0;
    while start < s.len()
        invariant
            start <= s@.len(),
            forall|k: int| 0 <= k < out@.len() ==> #[trigger] out@[k]@ == lines(s@)[k],
            out@.len() + lines_from(s@, start as int).len() == lines(s@).len(),
            forall|k: int|
                0 <= k < lines_from(s@, start as int).len() ==> #[trigger] lines_from(
                    s@,
                    start as int,
                )[k] == lines(s@)[out@.len() + k],
        decreases s@.len() - start,
    {
        proof {
            lemma_newline_bounds(s@, start as int);
        }
        let e = newline_index(s, start);
        let ghost before = lines_from(s@, start as int);
        if e >= s.len() {
            let piece = slice_range(s, start, s.len());
            proof {
                assert(before == seq![s@.subrange(start as int, s@.len() as int)]);
                assert(before[0] == lines(s@)[out@.len() as int]);
            }
            out.push(piece);
            proof {
                assert(lines_from(s@, s@.len() as int).len() == 0);
            }
            start = s.len();
        } else {
            let mut piece = slice_range(s, start, e);
            if piece.len() > 0 && piece[piece.len() - 1] == '\r' {
                piece.pop();
            }
            proof {
                assert(piece@ == strip_cr(s@.subrange(start as int, e as int)));
                assert(before == seq![strip_cr(s@.subrange(start as int, e as int))]
                    + lines_from(s@, e + 1));
                assert(before[0] == lines(s@)[out@.len() as int]);
                assert forall|k: int| 0 <= k < lines_from(s@, e + 1).len() implies #[trigger] lines_from(
                    s@,
                    e + 1,
                )[k] == lines(s@)[out@.len() + 1 + k] by {
                    assert(lines_from(s@, e + 1)[k] == before[k + 1]);
                }
            }
            out.push(piece);
            start = e + 1;
        }
    }
    out
}

// ---------------------------------------------------------------------------
// Number parsing (`str::parse::<u64>` / `str::parse::<i64>`)
// ---------------------------------------------------------------------------

/// The ASCII digit `c`'s value, if it is one.
pub open spec fn digit_value(c: char) -> Option<int> {
    if '0' <= c && c <= '9' {
        Some(c as int - '0' as int)
    } else {
        None
    }
}

/// All characters of `s` are ASCII digits.
pub open spec fn all_digits(s: Seq<char>) -> bool {
    forall|i: int| 0 <= i < s.len() ==> #[trigger] digit_value(s[i]) is Some
}

/// The value of a string of ASCII digits.
pub open spec fn digits_value(s: Seq<char>) -> int
    decreases s.len(),
{
    if s.len() == 0 {
        0
    } else {
        digits_value(s.drop_last()) * 10 + digit_value(s.last())->0
    }
}

/// The magnitude part of an integer literal: digits after an optional sign.
pub open spec fn unsigned_body(s: Seq<char>) -> Seq<char> {
    if s.len() > 0 && s[0] == '+' {
        s.drop_first()
    } else {
        s
    }
}

/// `str::parse::<u64>`: an optional `'+'` followed by at least one ASCII
/// digit, with a value that fits in a `u64`.
pub open spec fn parse_u64_spec(s: Seq<char>) -> Option<u64> {
    let b = unsigned_body(s);
    if b.len() > 0 && all_digits(b) && digits_value(b) <= u64::MAX {
        Some(digits_value(b) as u64)
    } else {
        None
    }
}

/// `str::parse::<i64>`: an optional `'+'` or `'-'` followed by at least one
/// ASCII digit, with a value that fits in an `i64`.
pub open spec fn parse_i64_spec(s: Seq<char>) -> Option<i64> {
    if s.len() > 0 && s[0] == '-' {
        let b = s.drop_first();
        if b.len() > 0 && all_digits(b) && digits_value(b) <= 0x8000_0000_0000_0000 {
            Some((0 - digits_value(b)) as i64)
        } else {
            None
        }
    } else {
        let b = unsigned_body(s);
        if b.len() > 0 && all_digits(b) && digits_value(b) <= i64::MAX {
            Some(digits_value(b) as i64)
        } else {
            None
        }
    }
}

proof fn lemma_digits_value_nonneg(s: Seq<char>)
    requires
        all_digits(s),
    ensures
        digits_value(s) >= 0,
    decreases s.len(),
{
    if s.len() > 0 {
        assert(all_digits(s.drop_last())) by {
            assert forall|i: int| 0 <= i < s.drop_last().len() implies #[trigger] digit_value(
                s.drop_last()[i],
            ) is Some by {
                assert(s.drop_last()[i] == s[i]);
            }
        }
        lemma_digits_value_nonneg(s.drop_last());
        assert(digit_value(s[s.len() - 1]) is Some);
    }
}

/// Value of the digits `s[a..i]` (all ASCII digits), capped: `None` once it
/// exceeds `limit`.
fn digits_upto(s: &[char], a: usize, limit: u64) -> (r: Option<u64>)
    requires
        a <= s@.len(),
        limit >= 9,
    ensures
        r matches Some(v) ==> all_digits(s@.subrange(a as int, s@.len() as int)) && v
            == digits_value(s@.subrange(a as int, s@.len() as int)) && v <= limit,
        r is None ==> !(all_digits(s@.subrange(a as int, s@.len() as int)) && digits_value(
            s@.subrange(a as int, s@.len() as int),
        ) <= limit),
{
    let mut acc: u64 = 0;
    let mut i = a;
    while i < s.len()
        invariant
            a <= i <= s@.len(),
            all_digits(s@.subrange(a as int, i as int)),
            acc == digits_value(s@.subrange(a as int, i as int)),
            acc <= limit,
            limit >= 9,
        decreases s@.len() - i,
    {
        let c = s[i];
        let ghost pre = s@.subrange(a as int, i as int);
        let ghost nxt = s@.subrange(a as int, i + 1);
        proof {
            assert(nxt.drop_last() =~= pre);
            assert(nxt.last() == c);
        }
        if !('0' <= c && c <= '9') {
            proof {
                let whole = s@.subrange(a as int, s@.len() as int);
                assert(whole[i - a] == c);
                assert(digit_value(whole[i - a]) is None);
            }
            return None;
        }
        let d = (c as u32 - '0' as u32) as u64;
        proof {
            assert(all_digits(nxt)) by {
                assert forall|j: int| 0 <= j < nxt.len() implies #[trigger] digit_value(
                    nxt[j],
                ) is Some by {
                    if j < pre.len() {
                        assert(nxt[j] == pre[j]);
                    }
                }
            }
            assert(digits_value(nxt) == acc * 10 + d);
        }
        if acc > (limit - d) / 10 {
            proof {
                // the value only grows with more digits
                let whole = s@.subrange(a as int, s@.len() as int);
                assert(acc * 10 + d > limit) by (nonlinear_arith)
                    requires
                        acc > (limit - d) / 10,
                        d <= 9,
                        limit >= 9,
                ;
                if all_digits(whole) {
                    lemma_prefix_value_grows(whole, (i + 1 - a) as int);
                    assert(whole.subrange(0, (i + 1 - a) as int) =~= nxt);
                }
            }
            return None;
        }
        acc = acc * 10 + d;
        i = i + 1;
    }
    Some(acc)
}

/// Every digit string's value is at least the value of each of its prefixes.
proof fn lemma_prefix_value_grows(s: Seq<char>, k: int)
    requires
        0 <= k <= s.len(),
        all_digits(s),
    ensures
        digits_value(s) >= digits_value(s.subrange(0, k)),
    decreases s.len(),
{
    if k < s.len() {
        let t = s.drop_last();
        assert(all_digits(t)) by {
            assert forall|i: int| 0 <= i < t.len() implies #[trigger] digit_value(t[i]) is Some by {
                assert(t[i] == s[i]);
            }
        }
        lemma_prefix_value_grows(t, k);
        assert(t.subrange(0, k) =~= s.subrange(0, k));
        lemma_digits_value_nonneg(t);
        assert(digit_value(s[s.len() - 1]) is Some);
        assert(digits_value(s) >= digits_value(t)) by (nonlinear_arith)
            requires
                digits_value(s) == digits_value(t) * 10 + digit_value(s.last())->0,
                digits_value(t) >= 0,
                digit_value(s.last())->0 >= 0,
        ;
    } else {
        assert(s.subrange(0, k) =~= s);
    }
}

/// `str::parse::<u64>`.
pub fn parse_u64(s: &[char]) -> (r: Option<u64>)
    ensures
        r == parse_u64_spec(s@),
{
    let a: usize = if s.len() > 0 && s[0] == '+' {
        1
    } else {
        0
    };
    proof {
        assert(unsigned_body(s@) =~= s@.subrange(a as int, s@.len() as int));
    }
    if a >= s.len() {
        return None;
    }
    match digits_upto(s, a, u64::MAX) {
        Some(v) => Some(v),
        None => None,
    }
}

/// `str::parse::<i64>`.
pub fn parse_i64(s: &[char]) -> (r: Option<i64>)
    ensures
        r == parse_i64_spec(s@),
{
    if s.len() > 0 && s[0] == '-' {
        proof {
            assert(s@.drop_first() =~= s@.subrange(1, s@.len() as int));
        }
        if s.len() == 1 {
            return None;
        }
        match digits_upto(s, 1, 0x8000_0000_0000_0000u64) {
            Some(v) => {
                if v == 0x8000_0000_0000_0000u64 {
                    Some(i64::MIN)
                } else {
                    Some(0 - (v as i64))
                }
            },
            None => None,
        }
    } else {
        let a: usize = if s.len() > 0 && s[0] == '+' {
            1
        } else {
            0
        };
        proof {
            assert(unsigned_body(s@) =~= s@.subrange(a as int, s@.len() as int));
        }
        if a >= s.len() {
            return None;
        }
        match digits_upto(s, a, i64::MAX as u64) {
            Some(v) => Some(v as i64),
            None => None,
        }
    }
}

// ---------------------------------------------------------------------------
// Number rendering
// ---------------------------------------------------------------------------

/// The ASCII digit for `d` (taken modulo ten).
pub open spec fn digit_char(d: int) -> char {
    let d = d % 10;
    if d == 0 {
        '0'
    } else if d == 1 {
        '1'
    } else if d == 2 {
        '2'
    } else if d == 3 {
        '3'
    } else if d == 4 {
        '4'
    } else if d == 5 {
        '5'
    } else if d == 6 {
        '6'
    } else if d == 7 {
        '7'
    } else if d == 8 {
        '8'
    } else {
        '9'
    }
}

/// Decimal rendering of a natural number, as `{}` prints it.
pub open spec fn decimal(n: nat) -> Seq<char>
    decreases n,
{
    if n < 10 {
        seq![digit_char(n as int)]
    } else {
        decimal(n / 10).push(digit_char((n % 10) as int))
    }
}

fn digit(d: u64) -> (c: char)
    ensures
        c == digit_char(d as int),
{
    let d = d % 10;
    if d == 0 {
        '0'
    } else if d == 1 {
        '1'
    } else if d == 2 {
        '2'
    } else if d == 3 {
        '3'
    } else if d == 4 {
        '4'
    } else if d == 5 {
        '5'
    } else if d == 6 {
        '6'
    } else if d == 7 {
        '7'
    } else if d == 8 {
        '8'
    } else {
        '9'
    }
}

fn decimal_chars(n: u64) -> (r: Vec<char>)
    ensures
        r@ == decimal(n as nat),
    decreases n,
{
    if n < 10 {
        let mut v = Vec::new();
        v.push(digit(n));
        proof {
            assert(v@ =~= seq![digit_char(n as int)]);
        }
        v
    } else {
        let mut v = decimal_chars(n / 10);
        v.push(digit(n % 10));
        v
    }
}

/// Decimal rendering of `n`.
pub fn decimal_text(n: u64) -> (r: String)
    ensures
        r@ == decimal(n as nat),
{
    let v = decimal_chars(n);
    string_of(v.as_slice())
}

fn decimal_chars_wide(n: u128) -> (r: Vec<char>)
    ensures
        r@ == decimal(n as nat),
    decreases n,
{
    if n < 10 {
        let mut v = Vec::new();
        v.push(digit(n as u64));
        proof {
            assert(v@ =~= seq![digit_char(n as int)]);
        }
        v
    } else {
        let mut v = decimal_chars_wide(n / 10);
        v.push(digit((n % 10) as u64));
        v
    }
}

/// Decimal rendering of a wide `n`.
pub fn decimal_text_wide(n: u128) -> (r: String)
    ensures
        r@ == decimal(n as nat),
{
    let v = decimal_chars_wide(n);
    string_of(v.as_slice())
}

/// `n` zero characters.
pub open spec fn zeros(n: int) -> Seq<char>
    decreases n,
{
    if n <= 0 {
        Seq::empty()
    } else {
        zeros(n - 1).push('0')
    }
}

/// `s` padded on the left with zeros to at least `w` characters.
pub open spec fn zero_pad(s: Seq<char>, w: int) -> Seq<char> {
    zeros(w - s.len()) + s
}

/// Ten to the power `dp`, for the precisions used in reports.
pub open spec fn scale(dp: nat) -> nat {
    if dp == 0 {
        1
    } else if dp == 1 {
        10
    } else {
        100
    }
}

/// Rendering of the fixed-point value `m / 1000` with `dp` decimals
/// (`dp` up to two), rounded half up, as `{:.dp}` prints a number.
pub open spec fn fixed(m: nat, dp: nat) -> Seq<char> {
    let q = (m * scale(dp) + 500) / 1000;
    if dp == 0 {
        decimal(q)
    } else {
        decimal(q / scale(dp)) + seq!['.'] + zero_pad(decimal(q % scale(dp)), dp as int)
    }
}

fn zeros_chars(n: usize) -> (r: Vec<char>)
    ensures
        r@ == zeros(n as int),
{
    let mut v: Vec<char> = Vec::new();
    let mut i: usize = 0;
    while i < n
        invariant
            i <= n,
            v@ == zeros(i as int),
        decreases n - i,
    {
        v.push('0');
        i = i + 1;
    }
    v
}

/// Rendering of `m / 1000` with `dp` decimals, rounded half up.
pub fn fixed_text(m: u64, dp: u32) -> (r: String)
    requires
        dp <= 2,
    ensures
        r@ == fixed(m as nat, dp as nat),
{
    let sc: u64 = if dp == 0 {
        1
    } else if dp == 1 {
        10
    } else {
        100
    };
    assert(m as u128 * sc as u128 <= 0xffff_ffff_ffff_ffffu128 * 100) by (nonlinear_arith)
        requires
            sc <= 100,
            m <= 0xffff_ffff_ffff_ffffu64,
    ;
    let q128: u128 = (m as u128 * sc as u128 + 500) / 1000;
    assert(q128 <= u64::MAX) by (nonlinear_arith)
        requires
            q128 == (m as u128 * sc as u128 + 500) / 1000,
            sc <= 100,
            m <= u64::MAX,
    ;
    let q = q128 as u64;
    if dp == 0 {
        return decimal_text(q);
    }
    let mut whole = decimal_chars(q / sc);
    whole.push('.');
    let frac = decimal_chars(q % sc);
    let pad_len: usize = if frac.len() < dp as usize {
        dp as usize - frac.len()
    } else {
        0
    };
    let pad = zeros_chars(pad_len);
    let ghost w0 = whole@;
    let mut i: usize = 0;
    while i < pad.len()
        invariant
            i <= pad@.len(),
            whole@ == w0 + pad@.subrange(0, i as int),
        decreases pad@.len() - i,
    {
        whole.push(pad[i]);
        proof {
            assert(pad@.subrange(0, i + 1) =~= pad@.subrange(0, i as int).push(pad@[i as int]));
        }
        i = i + 1;
    }
    let ghost w1 = whole@;
    let mut j: usize = 0;
    while j < frac.len()
        invariant
            j <= frac@.len(),
            whole@ == w1 + frac@.subrange(0, j as int),
        decreases frac@.len() - j,
    {
        whole.push(frac[j]);
        proof {
            assert(frac@.subrange(0, j + 1) =~= frac@.subrange(0, j as int).push(frac@[j as int]));
        }
        j = j + 1;
    }
    proof {
        assert(pad@.subrange(0, pad@.len() as int) =~= pad@);
        assert(frac@.subrange(0, frac@.len() as int) =~= frac@);
        assert(zeros(dp - frac@.len()) == zeros(pad_len as int));
        assert(whole@ =~= fixed(m as nat, dp as nat));
    }
    string_of(whole.as_slice())
}

/// Concatenation of three texts.
pub fn concat3(a: &str, b: &str, c: &str) -> (r: String)
    ensures
        r@ == a@ + b@ + c@,
{
    let mut s = String::from_str(a);
    s.append(b);
    s.append(c);
    s
}

} // verus!
