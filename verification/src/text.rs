//! Character-level text utilities shared by the parsers.
//!
//! Every operation works on the `Seq<char>` view of a string, so that
//! contracts elsewhere in the library can be stated over characters.
use vstd::prelude::*;

verus! {

// ---------------------------------------------------------------------------
// Specifications
// ---------------------------------------------------------------------------

/// Unicode `White_Space`, the set that `char::is_whitespace` and `str::trim` use.
pub open spec fn is_ws(c: char) -> bool {
    let u = c as u32;
    u == 0x20 || (0x09 <= u && u <= 0x0d) || u == 0x85 || u == 0xa0 || u == 0x1680 || (0x2000 <= u
        && u <= 0x200a) || u == 0x2028 || u == 0x2029 || u == 0x202f || u == 0x205f || u == 0x3000
}

/// The characters that trimming removes: whitespace, and with `edge` also `.` and `_`.
pub open spec fn trimmed_char(edge: bool, c: char) -> bool {
    is_ws(c) || (edge && (c == '.' || c == '_'))
}

/// `s` with its leading trimmed characters removed.
pub open spec fn trim_start_by(s: Seq<char>, edge: bool) -> Seq<char>
    decreases s.len(),
{
    if s.len() > 0 && trimmed_char(edge, s[0]) {
        trim_start_by(s.drop_first(), edge)
    } else {
        s
    }
}

/// `s` with its trailing trimmed characters removed.
pub open spec fn trim_end_by(s: Seq<char>, edge: bool) -> Seq<char>
    decreases s.len(),
{
    if s.len() > 0 && trimmed_char(edge, s.last()) {
        trim_end_by(s.drop_last(), edge)
    } else {
        s
    }
}

/// `str::trim`: whitespace removed from both ends.
pub open spec fn trim_ws(s: Seq<char>) -> Seq<char> {
    trim_end_by(trim_start_by(s, false), false)
}

/// `p` occurs in `s` at position `i`.
pub open spec fn occurs_at(s: Seq<char>, p: Seq<char>, i: int) -> bool {
    0 <= i && i + p.len() <= s.len() && s.subrange(i, i + p.len()) == p
}

/// `s` begins with `p`.
pub open spec fn has_prefix(s: Seq<char>, p: Seq<char>) -> bool {
    occurs_at(s, p, 0)
}

/// `s` ends with `p`.
pub open spec fn has_suffix(s: Seq<char>, p: Seq<char>) -> bool {
    p.len() <= s.len() && occurs_at(s, p, s.len() - p.len())
}

/// The first position at or after `i` where `p` occurs in `s`.
pub open spec fn find_from(s: Seq<char>, p: Seq<char>, i: int) -> Option<int>
    decreases s.len() + 1 - i,
{
    if i < 0 || i + p.len() > s.len() {
        None
    } else if occurs_at(s, p, i) {
        Some(i)
    } else {
        find_from(s, p, i + 1)
    }
}

/// `str::find`: the first position where `p` occurs in `s`.
pub open spec fn find(s: Seq<char>, p: Seq<char>) -> Option<int> {
    find_from(s, p, 0)
}

/// `str::contains`.
pub open spec fn contains(s: Seq<char>, p: Seq<char>) -> bool {
    find(s, p) is Some
}

/// `str::replace`: every non-overlapping occurrence of `from`, scanning left to
/// right, replaced by `to`.
pub open spec fn replace_all(s: Seq<char>, from: Seq<char>, to: Seq<char>) -> Seq<char>
    decreases s.len(),
{
    if from.len() == 0 || s.len() < from.len() {
        s
    } else if has_prefix(s, from) {
        to + replace_all(s.skip(from.len() as int), from, to)
    } else {
        seq![s[0]] + replace_all(s.drop_first(), from, to)
    }
}

/// `str::trim_start_matches` with a string pattern: every leading repetition of `p` removed.
pub open spec fn strip_prefixes(s: Seq<char>, p: Seq<char>) -> Seq<char>
    decreases s.len(),
{
    if p.len() > 0 && has_prefix(s, p) {
        strip_prefixes(s.skip(p.len() as int), p)
    } else {
        s
    }
}

/// `str::trim_end_matches` with a character pattern.
pub open spec fn strip_trailing(s: Seq<char>, c: char) -> Seq<char>
    decreases s.len(),
{
    if s.len() > 0 && s.last() == c {
        strip_trailing(s.drop_last(), c)
    } else {
        s
    }
}

/// `str::split` with a non-empty string separator.
pub open spec fn split(s: Seq<char>, sep: Seq<char>) -> Seq<Seq<char>>
    decreases s.len(),
{
    if sep.len() == 0 {
        seq![s]
    } else {
        match find(s, sep) {
            Some(i) => {
                proof {
                    lemma_find_from_bounds(s, sep, 0);
                }
                seq![s.take(i)] + split(s.skip(i + sep.len()), sep)
            },
            None => seq![s],
        }
    }
}

/// `[..].join(sep)`.
pub open spec fn join(parts: Seq<Seq<char>>, sep: Seq<char>) -> Seq<char>
    decreases parts.len(),
{
    if parts.len() == 0 {
        seq![]
    } else if parts.len() == 1 {
        parts[0]
    } else {
        join(parts.drop_last(), sep) + sep + parts.last()
    }
}

/// The decimal digit character for `d < 10`.
pub open spec fn digit_char(d: nat) -> char {
    (('0' as u32) + d) as char
}

/// The decimal representation of `n` (`ToString` on an unsigned integer).
pub open spec fn decimal(n: nat) -> Seq<char>
    decreases n,
{
    if n < 10 {
        seq![digit_char(n)]
    } else {
        decimal(n / 10).push(digit_char(n % 10))
    }
}

/// The decimal representation of a signed integer.
pub open spec fn signed_decimal(n: int) -> Seq<char> {
    if n < 0 {
        seq!['-'] + decimal((-n) as nat)
    } else {
        decimal(n as nat)
    }
}

/// `c` is an ASCII decimal digit.
pub open spec fn is_digit(c: char) -> bool {
    '0' <= c && c <= '9'
}

/// The value of a string of ASCII digits.
pub open spec fn digits_value(s: Seq<char>) -> nat
    decreases s.len(),
{
    if s.len() == 0 {
        0
    } else {
        digits_value(s.drop_last()) * 10 + ((s.last() as u32) - ('0' as u32)) as nat
    }
}

/// Every character of `s` is an ASCII digit.
pub open spec fn all_digits_spec(s: Seq<char>) -> bool {
    forall|i: int| 0 <= i < s.len() ==> is_digit(#[trigger] s[i])
}

/// `s` without one leading sign character from `signs`.
pub open spec fn unsigned_part(s: Seq<char>, allow_minus: bool) -> Seq<char> {
    if s.len() > 0 && (s[0] == '+' || (allow_minus && s[0] == '-')) {
        s.drop_first()
    } else {
        s
    }
}

/// `str::parse::<u64>`: an optional `+`, then one or more ASCII digits whose value fits.
pub open spec fn parse_u64(s: Seq<char>) -> Option<u64> {
    let body = unsigned_part(s, false);
    if body.len() > 0 && all_digits_spec(body) && digits_value(body) <= u64::MAX {
        Some(digits_value(body) as u64)
    } else {
        None
    }
}

/// `str::parse::<i32>`: an optional sign, then one or more ASCII digits whose value fits.
pub open spec fn parse_i32(s: Seq<char>) -> Option<i32> {
    let body = unsigned_part(s, true);
    let v: int = if s.len() > 0 && s[0] == '-' {
        -(digits_value(body) as int)
    } else {
        digits_value(body) as int
    };
    if body.len() > 0 && all_digits_spec(body) && i32::MIN <= v && v <= i32::MAX {
        Some(v as i32)
    } else {
        None
    }
}

// ---------------------------------------------------------------------------
// Names for what std computes with Unicode tables
// ---------------------------------------------------------------------------

/// What `str::to_lowercase` returns for the given characters.
pub uninterp spec fn unicode_lowercase(s: Seq<char>) -> Seq<char>;

/// What `str::to_uppercase` returns for the given characters.
pub uninterp spec fn unicode_uppercase(s: Seq<char>) -> Seq<char>;

/// All characters are ASCII.
pub open spec fn all_ascii(s: Seq<char>) -> bool {
    forall|i: int| 0 <= i < s.len() ==> (#[trigger] s[i] as u32) < 0x80
}

/// An ASCII upper-case letter in lower case; other characters unchanged.
pub open spec fn ascii_lower(c: char) -> char {
    if 'A' <= c && c <= 'Z' {
        ((c as u32) + 32) as char
    } else {
        c
    }
}

/// An ASCII lower-case letter in upper case; other characters unchanged.
pub open spec fn ascii_upper(c: char) -> char {
    if 'a' <= c && c <= 'z' {
        ((c as u32) - 32) as char
    } else {
        c
    }
}

/// std's `str::to_lowercase`. Its result is named, not described: it follows
/// the Unicode case tables, which depend on nothing but the input. Of ASCII
/// text the contract states the result: each letter `A` to `Z` lowered, the
/// rest kept (the Unicode lower-case mapping of ASCII characters).
#[verifier::external_body]
pub(crate) fn to_lowercase(s: &str) -> (r: String)
    ensures
        r@ == unicode_lowercase(s@),
        all_ascii(s@) ==> r@ == s@.map_values(|c: char| ascii_lower(c)),
{
    s.to_lowercase()
}

/// std's `str::to_uppercase`, named in the same way as `to_lowercase`; of
/// ASCII text, each letter `a` to `z` raised and the rest kept.
#[verifier::external_body]
pub(crate) fn to_uppercase(s: &str) -> (r: String)
    ensures
        r@ == unicode_uppercase(s@),
        all_ascii(s@) ==> r@ == s@.map_values(|c: char| ascii_upper(c)),
{
    s.to_uppercase()
}

/// std's `String::push`: appends one character.
#[verifier::external_body]
pub(crate) fn push_char(s: &mut String, c: char)
    ensures
        final(s)@ == old(s)@.push(c),
{
    s.push(c);
}

// ---------------------------------------------------------------------------
// Conversions
// ---------------------------------------------------------------------------

/// The characters of `s`, in order.
pub fn chars_of(s: &str) -> (v: Vec<char>)
    ensures
        v@ == s@,
{
    let mut v: Vec<char> = Vec::new();
    for c in it: s.chars()
        invariant
            v@ == it.seq().take(it.index() as int),
    {
        v.push(c);
    }
    v
}

/// The string made of `v[from..to]`.
pub fn string_of(v: &[char], from: usize, to: usize) -> (s: String)
    requires
        from <= to <= v@.len(),
    ensures
        s@ == v@.subrange(from as int, to as int),
{
    let mut s = String::new();
    let mut i = from;
    while i < to
        invariant
            from <= i <= to <= v@.len(),
            s@ == v@.subrange(from as int, i as int),
        decreases to - i,
    {
        push_char(&mut s, v[i]);
        i += 1;
        assert(s@ =~= v@.subrange(from as int, i as int));
    }
    s
}

/// The string made of all of `v`.
pub fn string_of_all(v: &[char]) -> (s: String)
    ensures
        s@ == v@,
{
    let s = string_of(v, 0, v.len());
    assert(v@.subrange(0, v@.len() as int) =~= v@);
    s
}

/// Appends `t` to `s`.
pub fn append(s: &mut String, t: &str)
    ensures
        final(s)@ == old(s)@ + t@,
{
    let cs = chars_of(t);
    let mut i: usize = 0;
    let ghost s0 = s@;
    while i < cs.len()
        invariant
            0 <= i <= cs@.len(),
            cs@ == t@,
            s@ == s0 + cs@.take(i as int),
        decreases cs@.len() - i,
    {
        push_char(s, cs[i]);
        i += 1;
        assert(s@ =~= s0 + cs@.take(i as int));
    }
    assert(cs@.take(cs@.len() as int) =~= cs@);
}

/// `a` followed by `b`.
pub fn concat(a: &str, b: &str) -> (r: String)
    ensures
        r@ == a@ + b@,
{
    let mut r = String::new();
    append(&mut r, a);
    append(&mut r, b);
    assert(r@ =~= a@ + b@);
    r
}

/// A copy of `s`.
pub fn copy_str(s: &str) -> (r: String)
    ensures
        r@ == s@,
{
    let mut r = String::new();
    append(&mut r, s);
    assert(r@ =~= s@);
    r
}

/// Whether one of the strings of `v` equals `s`.
pub fn vec_contains(v: &Vec<String>, s: &str) -> (b: bool)
    ensures
        b == v@.map_values(|x: String| x@).contains(s@),
{
    let ghost w = v@.map_values(|x: String| x@);
    let mut i: usize = 0;
    while i < v.len()
        invariant
            0 <= i <= v.len(),
            w == v@.map_values(|x: String| x@),
            forall|k: int| 0 <= k < i ==> w[k] != s@,
        decreases v.len() - i,
    {
        if str_eq(v[i].as_str(), s) {
            assert(w[i as int] == s@);
            return true;
        }
        i += 1;
    }
    proof {
        if w.contains(s@) {
            let k = choose|k: int| 0 <= k < w.len() && w[k] == s@;
            assert(w[k] == s@);
        }
    }
    false
}

/// Character-wise equality of two strings.
pub fn str_eq(a: &str, b: &str) -> (r: bool)
    ensures
        r == (a@ == b@),
{
    let x = chars_of(a);
    let y = chars_of(b);
    if x.len() != y.len() {
        return false;
    }
    let mut i: usize = 0;
    while i < x.len()
        invariant
            x@ == a@,
            y@ == b@,
            x@.len() == y@.len(),
            0 <= i <= x@.len(),
            forall|k: int| 0 <= k < i ==> x@[k] == y@[k],
        decreases x@.len() - i,
    {
        if x[i] != y[i] {
            return false;
        }
        i += 1;
    }
    assert(x@ =~= y@);
    true
}

// ---------------------------------------------------------------------------
// Whitespace and trimming
// ---------------------------------------------------------------------------

/// `char::is_whitespace`.
pub fn is_whitespace(c: char) -> (b: bool)
    ensures
        b == is_ws(c),
{
    let u = c as u32;
    u == 0x20 || (0x09 <= u && u <= 0x0d) || u == 0x85 || u == 0xa0 || u == 0x1680 || (0x2000 <= u
        && u <= 0x200a) || u == 0x2028 || u == 0x2029 || u == 0x202f || u == 0x205f || u == 0x3000
}

pub proof fn lemma_trim_start(s: Seq<char>, i: int, edge: bool)
    requires
        0 <= i <= s.len(),
        forall|k: int| 0 <= k < i ==> trimmed_char(edge, #[trigger] s[k]),
        i == s.len() || !trimmed_char(edge, s[i]),
    ensures
        trim_start_by(s, edge) == s.subrange(i, s.len() as int),
    decreases i,
{
    if i == 0 {
        assert(s.subrange(0, s.len() as int) =~= s);
        if s.len() > 0 {
            assert(!trimmed_char(edge, s[0]));
        }
    } else {
        assert(trimmed_char(edge, s[0]));
        let t = s.drop_first();
        assert forall|k: int| 0 <= k < i - 1 implies trimmed_char(edge, #[trigger] t[k]) by {
            assert(t[k] == s[k + 1]);
        }
        if i - 1 < t.len() {
            assert(t[i - 1] == s[i]);
        }
        lemma_trim_start(t, i - 1, edge);
        assert(t.subrange(i - 1, t.len() as int) =~= s.subrange(i, s.len() as int));
    }
}

pub proof fn lemma_trim_end(s: Seq<char>, j: int, edge: bool)
    requires
        0 <= j <= s.len(),
        forall|k: int| j <= k < s.len() ==> trimmed_char(edge, #[trigger] s[k]),
        j == 0 || !trimmed_char(edge, s[j - 1]),
    ensures
        trim_end_by(s, edge) == s.subrange(0, j),
    decreases s.len() - j,
{
    if j == s.len() {
        assert(s.subrange(0, j) =~= s);
        if s.len() > 0 {
            assert(!trimmed_char(edge, s.last()));
        }
    } else {
        assert(trimmed_char(edge, s.last()));
        let t = s.drop_last();
        assert forall|k: int| j <= k < t.len() implies trimmed_char(edge, #[trigger] t[k]) by {
            assert(t[k] == s[k]);
        }
        if j > 0 {
            assert(t[j - 1] == s[j - 1]);
        }
        lemma_trim_end(t, j, edge);
        assert(t.subrange(0, j) =~= s.subrange(0, j));
    }
}

/// What trimming the start leaves does not begin with a trimmed character.
pub proof fn lemma_trim_start_first(s: Seq<char>, edge: bool)
    ensures
        trim_start_by(s, edge).len() > 0 ==> !trimmed_char(edge, trim_start_by(s, edge)[0]),
    decreases s.len(),
{
    if s.len() > 0 && trimmed_char(edge, s[0]) {
        lemma_trim_start_first(s.drop_first(), edge);
    }
}

/// Trimming the end leaves a prefix.
pub proof fn lemma_trim_end_prefix(s: Seq<char>, edge: bool)
    ensures
        trim_end_by(s, edge).len() <= s.len(),
        trim_end_by(s, edge) == s.take(trim_end_by(s, edge).len() as int),
    decreases s.len(),
{
    if s.len() > 0 && trimmed_char(edge, s.last()) {
        lemma_trim_end_prefix(s.drop_last(), edge);
        let t = trim_end_by(s.drop_last(), edge);
        assert(s.drop_last().take(t.len() as int) =~= s.take(t.len() as int));
    } else {
        assert(s.take(s.len() as int) =~= s);
    }
}

/// Whether `c` is removed by trimming (see `trimmed_char`).
pub fn is_trimmed_char(edge: bool, c: char) -> (b: bool)
    ensures
        b == trimmed_char(edge, c),
{
    is_whitespace(c) || (edge && (c == '.' || c == '_'))
}

/// The bounds `(i, j)` such that trimming `v[from..to]` leaves `v[i..j]`.
pub fn trim_bounds_by(v: &[char], from: usize, to: usize, edge: bool) -> (r: (usize, usize))
    requires
        from <= to <= v@.len(),
    ensures
        from <= r.0 <= r.1 <= to,
        trim_end_by(trim_start_by(v@.subrange(from as int, to as int), edge), edge) == v@.subrange(
            r.0 as int,
            r.1 as int,
        ),
{
    let ghost s = v@.subrange(from as int, to as int);
    let mut i = from;
    while i < to && is_trimmed_char(edge, v[i])
        invariant
            from <= i <= to <= v@.len(),
            s == v@.subrange(from as int, to as int),
            forall|k: int| from <= k < i ==> trimmed_char(edge, #[trigger] v@[k]),
        decreases to - i,
    {
        i += 1;
    }
    proof {
        assert forall|k: int| 0 <= k < i - from implies trimmed_char(edge, #[trigger] s[k]) by {
            assert(s[k] == v@[k + from]);
        }
        if i < to {
            assert(s[i - from] == v@[i as int]);
        }
        lemma_trim_start(s, i - from, edge);
    }
    let ghost t = s.subrange(i - from, s.len() as int);
    assert(t =~= v@.subrange(i as int, to as int));
    let mut j = to;
    while j > i && is_trimmed_char(edge, v[j - 1])
        invariant
            from <= i <= j <= to <= v@.len(),
            forall|k: int| j <= k < to ==> trimmed_char(edge, #[trigger] v@[k]),
        decreases j,
    {
        j -= 1;
    }
    proof {
        assert forall|k: int| j - i <= k < t.len() implies trimmed_char(edge, #[trigger] t[k]) by {
            assert(t[k] == v@[k + i]);
        }
        if j > i {
            assert(t[j - i - 1] == v@[j - 1]);
        }
        lemma_trim_end(t, j - i, edge);
        assert(t.subrange(0, j - i) =~= v@.subrange(i as int, j as int));
    }
    (i, j)
}

/// The bounds `(i, j)` such that `trim_ws(v[from..to]) == v[i..j]`.
pub fn trim_bounds(v: &[char], from: usize, to: usize) -> (r: (usize, usize))
    requires
        from <= to <= v@.len(),
    ensures
        from <= r.0 <= r.1 <= to,
        trim_ws(v@.subrange(from as int, to as int)) == v@.subrange(r.0 as int, r.1 as int),
{
    trim_bounds_by(v, from, to, false)
}

/// `str::trim` as a new string.
pub fn trim(s: &str) -> (r: String)
    ensures
        r@ == trim_ws(s@),
{
    let v = chars_of(s);
    let (i, j) = trim_bounds(&v, 0, v.len());
    assert(v@.subrange(0, v@.len() as int) =~= v@);
    string_of(&v, i, j)
}

// ---------------------------------------------------------------------------
// Searching
// ---------------------------------------------------------------------------

/// Whether `p` occurs in `v` at position `i`.
pub fn occurs_at_exec(v: &[char], p: &[char], i: usize) -> (b: bool)
    ensures
        b == occurs_at(v@, p@, i as int),
{
    if i > v.len() || p.len() > v.len() - i {
        return false;
    }
    let mut k: usize = 0;
    while k < p.len()
        invariant
            i + p@.len() <= v@.len(),
            v@.len() == v.len(),
            0 <= k <= p@.len(),
            forall|m: int| 0 <= m < k ==> v@[i + m] == p@[m],
        decreases p@.len() - k,
    {
        if v[i + k] != p[k] {
            assert(v@.subrange(i as int, i + p@.len())[k as int] != p@[k as int]);
            return false;
        }
        k += 1;
    }
    assert(v@.subrange(i as int, i + p@.len()) =~= p@);
    true
}

pub proof fn lemma_find_from_none(s: Seq<char>, p: Seq<char>, i: int)
    requires
        0 <= i,
        forall|k: int| i <= k && k + p.len() <= s.len() ==> !occurs_at(s, p, k),
    ensures
        find_from(s, p, i) is None,
    decreases s.len() + 1 - i,
{
    if i + p.len() <= s.len() {
        lemma_find_from_none(s, p, i + 1);
    }
}

pub proof fn lemma_find_from_some(s: Seq<char>, p: Seq<char>, i: int, j: int)
    requires
        0 <= i <= j,
        occurs_at(s, p, j),
        forall|k: int| i <= k < j ==> !occurs_at(s, p, k),
    ensures
        find_from(s, p, i) == Some(j),
    decreases j - i,
{
    if i < j {
        lemma_find_from_some(s, p, i + 1, j);
    }
}

/// The first position at or after `from` where `p` occurs in `v`.
pub fn find_from_exec(v: &[char], p: &[char], from: usize) -> (r: Option<usize>)
    ensures
        r matches Some(i) ==> find_from(v@, p@, from as int) == Some(i as int),
        r is None ==> find_from(v@, p@, from as int) is None,
{
    if p.len() > v.len() || from > v.len() - p.len() {
        proof {
            assert(v@.len() == v.len());
            lemma_find_from_none(v@, p@, from as int);
        }
        return None;
    }
    let last = v.len() - p.len();
    let mut i = from;
    loop
        invariant
            from <= i <= last,
            last + p@.len() == v@.len(),
            forall|k: int| from <= k < i ==> !occurs_at(v@, p@, k),
        ensures
            forall|k: int| from <= k <= last ==> !occurs_at(v@, p@, k),
            last + p@.len() == v@.len(),
        decreases last - i,
    {
        if occurs_at_exec(v, p, i) {
            proof {
                lemma_find_from_some(v@, p@, from as int, i as int);
            }
            return Some(i);
        }
        if i == last {
            break;
        }
        i += 1;
    }
    proof {
        lemma_find_from_none(v@, p@, from as int);
    }
    None
}

/// `str::find` over characters.
pub fn find_exec(v: &[char], p: &[char]) -> (r: Option<usize>)
    ensures
        r matches Some(i) ==> find(v@, p@) == Some(i as int),
        r is None ==> find(v@, p@) is None,
{
    find_from_exec(v, p, 0)
}

/// `str::contains` on strings.
pub fn str_contains(s: &str, p: &str) -> (b: bool)
    ensures
        b == contains(s@, p@),
{
    let v = chars_of(s);
    let q = chars_of(p);
    find_exec(&v, &q).is_some()
}

/// `str::starts_with` on strings.
pub fn str_starts_with(s: &str, p: &str) -> (b: bool)
    ensures
        b == has_prefix(s@, p@),
{
    let v = chars_of(s);
    let q = chars_of(p);
    occurs_at_exec(&v, &q, 0)
}

/// `str::ends_with` on strings.
pub fn str_ends_with(s: &str, p: &str) -> (b: bool)
    ensures
        b == has_suffix(s@, p@),
{
    let v = chars_of(s);
    let q = chars_of(p);
    if q.len() > v.len() {
        false
    } else {
        occurs_at_exec(&v, &q, v.len() - q.len())
    }
}

// ---------------------------------------------------------------------------
// Rewriting
// ---------------------------------------------------------------------------

pub proof fn lemma_replace_step(s: Seq<char>, from: Seq<char>, to: Seq<char>, i: int)
    requires
        from.len() > 0,
        0 <= i < s.len(),
        i + from.len() > s.len() || !occurs_at(s, from, i),
    ensures
        replace_all(s.skip(i), from, to) == seq![s[i]] + replace_all(s.skip(i + 1), from, to),
{
    let t = s.skip(i);
    assert(t.drop_first() =~= s.skip(i + 1));
    if t.len() >= from.len() {
        assert(t.subrange(0, from.len() as int) =~= s.subrange(i, i + from.len()));
    }
}

pub proof fn lemma_replace_match(s: Seq<char>, from: Seq<char>, to: Seq<char>, i: int)
    requires
        from.len() > 0,
        occurs_at(s, from, i),
    ensures
        replace_all(s.skip(i), from, to) == to + replace_all(s.skip(i + from.len()), from, to),
{
    let t = s.skip(i);
    assert(t.subrange(0, from.len() as int) =~= s.subrange(i, i + from.len()));
    assert(t.skip(from.len() as int) =~= s.skip(i + from.len()));
}

/// `str::replace` over characters, for a non-empty pattern.
pub fn replace_exec(v: &[char], from: &[char], to: &[char]) -> (r: Vec<char>)
    requires
        from@.len() > 0,
    ensures
        r@ == replace_all(v@, from@, to@),
{
    let mut out: Vec<char> = Vec::new();
    let mut i: usize = 0;
    assert(v@.skip(0) =~= v@);
    assert(out@ + v@ =~= v@);
    while i < v.len()
        invariant
            from@.len() > 0,
            0 <= i <= v@.len(),
            out@ + replace_all(v@.skip(i as int), from@, to@) == replace_all(v@, from@, to@),
        decreases v@.len() - i,
    {
        if occurs_at_exec(v, from, i) {
            proof {
                lemma_replace_match(v@, from@, to@, i as int);
            }
            let ghost o = out@;
            let mut k: usize = 0;
            while k < to.len()
                invariant
                    0 <= k <= to@.len(),
                    out@ == o + to@.take(k as int),
                decreases to@.len() - k,
            {
                out.push(to[k]);
                k += 1;
                assert(out@ =~= o + to@.take(k as int));
            }
            assert(to@.take(to@.len() as int) =~= to@);
            assert(out@ =~= o + to@);
            assert((o + to@) + replace_all(v@.skip(i + from@.len()), from@, to@) =~= o + (to@
                + replace_all(v@.skip(i + from@.len()), from@, to@)));
            i = i + from.len();
        } else {
            proof {
                lemma_replace_step(v@, from@, to@, i as int);
            }
            let ghost o = out@;
            out.push(v[i]);
            assert(out@ + replace_all(v@.skip(i + 1), from@, to@) =~= o + (seq![v@[i as int]]
                + replace_all(v@.skip(i + 1), from@, to@)));
            i += 1;
        }
    }
    assert(v@.skip(v@.len() as int) =~= Seq::<char>::empty());
    assert(out@ + Seq::<char>::empty() =~= out@);
    out
}

/// `str::replace` on strings, for a non-empty pattern.
pub fn replace(s: &str, from: &str, to: &str) -> (r: String)
    requires
        from@.len() > 0,
    ensures
        r@ == replace_all(s@, from@, to@),
{
    let v = chars_of(s);
    let f = chars_of(from);
    let t = chars_of(to);
    let out = replace_exec(&v, &f, &t);
    string_of_all(&out)
}

/// `str::trim_start_matches` with a non-empty string pattern.
pub fn strip_prefixes_exec(v: &[char], p: &[char]) -> (r: usize)
    requires
        p@.len() > 0,
    ensures
        r <= v@.len(),
        strip_prefixes(v@, p@) == v@.skip(r as int),
{
    let mut i: usize = 0;
    assert(v@.skip(0) =~= v@);
    loop
        invariant
            p@.len() > 0,
            i <= v@.len(),
            v@.len() == v.len(),
            strip_prefixes(v@, p@) == strip_prefixes(v@.skip(i as int), p@),
        ensures
            i <= v@.len(),
            strip_prefixes(v@, p@) == strip_prefixes(v@.skip(i as int), p@),
            !occurs_at(v@, p@, i as int),
        decreases v@.len() - i,
    {
        if !occurs_at_exec(v, p, i) {
            break;
        }
        proof {
            let t = v@.skip(i as int);
            assert(t.subrange(0, p@.len() as int) =~= v@.subrange(i as int, i + p@.len()));
            assert(t.skip(p@.len() as int) =~= v@.skip(i + p@.len()));
        }
        i = i + p.len();
    }
    proof {
        let t = v@.skip(i as int);
        if t.len() >= p@.len() {
            assert(t.subrange(0, p@.len() as int) =~= v@.subrange(i as int, i + p@.len()));
        }
    }
    i
}

/// `str::trim_end_matches` with a character pattern: the length that remains.
pub fn strip_trailing_exec(v: &[char], to: usize, c: char) -> (r: usize)
    requires
        to <= v@.len(),
    ensures
        r <= to,
        strip_trailing(v@.subrange(0, to as int), c) == v@.subrange(0, r as int),
{
    let mut j = to;
    while j > 0 && v[j - 1] == c
        invariant
            j <= to <= v@.len(),
            strip_trailing(v@.subrange(0, to as int), c) == strip_trailing(
                v@.subrange(0, j as int),
                c,
            ),
        decreases j,
    {
        assert(v@.subrange(0, j as int).drop_last() =~= v@.subrange(0, j - 1));
        j -= 1;
    }
    j
}

/// `s.trim_end_matches(c)` as a new string.
pub fn trim_end_char(s: &str, c: char) -> (r: String)
    ensures
        r@ == strip_trailing(s@, c),
{
    let v = chars_of(s);
    let j = strip_trailing_exec(&v, v.len(), c);
    assert(v@.subrange(0, v@.len() as int) =~= v@);
    string_of(&v, 0, j)
}

pub proof fn lemma_split_find(s: Seq<char>, sep: Seq<char>, i: int)
    requires
        sep.len() > 0,
        find(s, sep) == Some(i),
    ensures
        0 <= i,
        i + sep.len() <= s.len(),
        split(s, sep) == seq![s.take(i)] + split(s.skip(i + sep.len()), sep),
{
    lemma_find_from_bounds(s, sep, 0);
}

pub proof fn lemma_find_from_bounds(s: Seq<char>, p: Seq<char>, i: int)
    ensures
        find_from(s, p, i) matches Some(j) ==> i <= j && occurs_at(s, p, j) && (forall|k: int|
            i <= k < j ==> !occurs_at(s, p, k)),
    decreases s.len() + 1 - i,
{
    if i >= 0 && i + p.len() <= s.len() && !occurs_at(s, p, i) {
        lemma_find_from_bounds(s, p, i + 1);
    }
}

/// `str::split` with a non-empty separator; every part as a new string.
pub fn split_exec(s: &str, sep: &str) -> (r: Vec<String>)
    requires
        sep@.len() > 0,
    ensures
        r@.len() == split(s@, sep@).len(),
        forall|k: int| 0 <= k < r@.len() ==> (#[trigger] r@[k])@ == split(s@, sep@)[k],
{
    let v = chars_of(s);
    let p = chars_of(sep);
    let mut out: Vec<String> = Vec::new();
    let mut start: usize = 0;
    let ghost mut acc: Seq<Seq<char>> = seq![];
    assert(v@.skip(0) =~= v@);
    assert(acc + split(v@, p@) =~= split(v@, p@));
    loop
        invariant
            p@ == sep@,
            v@ == s@,
            v@.len() == v.len(),
            p@.len() > 0,
            start <= v@.len(),
            out@.len() == acc.len(),
            forall|k: int| 0 <= k < out@.len() ==> (#[trigger] out@[k])@ == acc[k],
            acc + split(v@.skip(start as int), p@) == split(v@, p@),
        decreases v@.len() - start,
    {
        let w = v.split_at(start).1;
        assert(w@ =~= v@.skip(start as int));
        assert(w@.len() == v@.len() - start);
        match find_exec(w, &p) {
            Some(i) => {
                proof {
                    lemma_split_find(w@, p@, i as int);
                }
                let part = string_of(w, 0, i);
                assert(part@ =~= w@.take(i as int));
                out.push(part);
                proof {
                    assert(w@.skip(i + p@.len()) =~= v@.skip(start + i + p@.len()));
                    assert(acc + (seq![w@.take(i as int)] + split(w@.skip(i + p@.len()), p@)) =~= (
                    acc.push(w@.take(i as int))) + split(w@.skip(i + p@.len()), p@));
                    acc = acc.push(w@.take(i as int));
                }
                start = start + i + p.len();
            },
            None => {
                let part = string_of_all(w);
                out.push(part);
                proof {
                    acc = acc.push(w@);
                }
                assert(acc =~= split(v@, p@));
                return out;
            },
        }
    }
}

/// `parts.join(sep)`.
pub fn join_exec(parts: &Vec<String>, sep: &str) -> (r: String)
    ensures
        r@ == join(parts@.map_values(|p: String| p@), sep@),
{
    let ghost views = parts@.map_values(|p: String| p@);
    let mut r = String::new();
    let mut i: usize = 0;
    while i < parts.len()
        invariant
            views == parts@.map_values(|p: String| p@),
            0 <= i <= parts@.len(),
            r@ == join(views.take(i as int), sep@),
        decreases parts@.len() - i,
    {
        if i > 0 {
            append(&mut r, sep);
        }
        append(&mut r, parts[i].as_str());
        proof {
            let t = views.take(i + 1);
            assert(t.drop_last() =~= views.take(i as int));
            assert(t.last() == parts@[i as int]@);
            if i == 0 {
                assert(join(views.take(0), sep@) =~= Seq::<char>::empty());
                assert(r@ =~= t[0]);
            }
        }
        i += 1;
    }
    assert(views.take(parts@.len() as int) =~= views);
    r
}

// ---------------------------------------------------------------------------
// Numbers
// ---------------------------------------------------------------------------

pub proof fn lemma_decimal_len(n: nat)
    ensures
        decimal(n).len() >= 1,
    decreases n,
{
    if n >= 10 {
        lemma_decimal_len(n / 10);
    }
}

/// `ToString` on an unsigned integer.
pub fn u64_to_decimal(n: u64) -> (s: String)
    ensures
        s@ == decimal(n as nat),
    decreases n,
{
    if n < 10 {
        let mut s = String::new();
        push_char(&mut s, char_of_digit(n));
        assert(s@ =~= decimal(n as nat));
        s
    } else {
        let mut s = u64_to_decimal(n / 10);
        push_char(&mut s, char_of_digit(n % 10));
        s
    }
}

/// The character of a decimal digit.
pub fn char_of_digit(d: u64) -> (c: char)
    requires
        d < 10,
    ensures
        c == digit_char(d as nat),
{
    if d == 0 {
        '0'
    } else if d == 1 {
        '1'
    } else if d == 2 {
        '2'
    } else if d == 3 {
        '3'
    } else if d == 4 {
        '4'
    } else if d == 5 {
        '5'
    } else if d == 6 {
        '6'
    } else if d == 7 {
        '7'
    } else if d == 8 {
        '8'
    } else {
        '9'
    }
}

/// `ToString` on a signed integer.
pub fn i64_to_decimal(n: i64) -> (s: String)
    ensures
        s@ == signed_decimal(n as int),
{
    if n < 0 {
        let m: u64 = if n == i64::MIN {
            9223372036854775808u64
        } else {
            (-n) as u64
        };
        let digits = u64_to_decimal(m);
        let mut s = String::new();
        push_char(&mut s, '-');
        append(&mut s, digits.as_str());
        s
    } else {
        u64_to_decimal(n as u64)
    }
}

/// The value of the ASCII digits `v[from..to]`, or `None` when it exceeds `u64::MAX`.
pub fn digits_to_u64(v: &[char], from: usize, to: usize) -> (r: Option<u64>)
    requires
        from <= to <= v@.len(),
        forall|k: int| from <= k < to ==> is_digit(#[trigger] v@[k]),
    ensures
        r matches Some(x) ==> x as nat == digits_value(v@.subrange(from as int, to as int)),
        r is None ==> digits_value(v@.subrange(from as int, to as int)) > u64::MAX,
{
    let mut acc: u64 = 0;
    let mut i = from;
    assert(v@.subrange(from as int, from as int) =~= Seq::<char>::empty());
    while i < to
        invariant
            from <= i <= to <= v@.len(),
            forall|k: int| from <= k < to ==> is_digit(#[trigger] v@[k]),
            acc as nat == digits_value(v@.subrange(from as int, i as int)),
        decreases to - i,
    {
        let c = v[i];
        assert(is_digit(v@[i as int]));
        let d = ((c as u32) - ('0' as u32)) as u64;
        assert(v@.subrange(from as int, i + 1).drop_last() =~= v@.subrange(from as int, i as int));
        if acc > (u64::MAX - d) / 10 {
            proof {
                assert(acc * 10 + d > u64::MAX) by (nonlinear_arith)
                    requires
                        acc > (u64::MAX - d) / 10,
                        d <= 9,
                ;
                assert(v@.subrange(from as int, to as int).take(i + 1 - from) =~= v@.subrange(
                    from as int,
                    i + 1,
                ));
                lemma_digits_grow(v@.subrange(from as int, i + 1), v@.subrange(from as int, to as int));
            }
            return None;
        }
        acc = acc * 10 + d;
        i += 1;
    }
    Some(acc)
}

/// A longer digit string never has a smaller value.
pub proof fn lemma_digits_grow(a: Seq<char>, b: Seq<char>)
    requires
        a.len() <= b.len(),
        a == b.take(a.len() as int),
        forall|k: int| 0 <= k < b.len() ==> is_digit(#[trigger] b[k]),
    ensures
        digits_value(a) <= digits_value(b),
    decreases b.len(),
{
    if a.len() < b.len() {
        assert(b.drop_last().take(a.len() as int) =~= a);
        lemma_digits_grow(a, b.drop_last());
        assert(digits_value(b) >= digits_value(b.drop_last()) * 10);
    } else {
        assert(a =~= b);
    }
}

/// Whether every character of `v[from..to]` is an ASCII digit.
pub fn all_digits(v: &[char], from: usize, to: usize) -> (b: bool)
    requires
        from <= to <= v@.len(),
    ensures
        b == (forall|k: int| from <= k < to ==> is_digit(#[trigger] v@[k])),
{
    let mut i = from;
    while i < to
        invariant
            from <= i <= to <= v@.len(),
            forall|k: int| from <= k < i ==> is_digit(#[trigger] v@[k]),
        decreases to - i,
    {
        if !('0' <= v[i] && v[i] <= '9') {
            return false;
        }
        i += 1;
    }
    true
}

/// The digits after an optional sign: where they start.
fn sign_len(v: &[char], allow_minus: bool) -> (r: usize)
    ensures
        r <= v@.len(),
        unsigned_part(v@, allow_minus) =~= v@.subrange(r as int, v@.len() as int),
{
    if v.len() > 0 && (v[0] == '+' || (allow_minus && v[0] == '-')) {
        1
    } else {
        0
    }
}

/// Checks that `v[from..]` is a non-empty run of ASCII digits.
fn digit_body(v: &[char], from: usize) -> (b: bool)
    requires
        from <= v@.len(),
    ensures
        ({
            let body = v@.subrange(from as int, v@.len() as int);
            b == (body.len() > 0 && all_digits_spec(body))
        }),
        b ==> forall|k: int| from <= k < v@.len() ==> is_digit(#[trigger] v@[k]),
{
    let ghost body = v@.subrange(from as int, v@.len() as int);
    if from == v.len() {
        return false;
    }
    let r = all_digits(v, from, v.len());
    proof {
        if r {
            assert forall|i: int| 0 <= i < body.len() implies is_digit(#[trigger] body[i]) by {
                assert(body[i] == v@[i + from]);
            }
        } else {
            let k = choose|k: int| from <= k < v@.len() && !is_digit(#[trigger] v@[k]);
            assert(body[k - from] == v@[k]);
        }
    }
    r
}

/// `str::parse::<u64>`.
pub fn parse_u64_exec(s: &str) -> (r: Option<u64>)
    ensures
        r == parse_u64(s@),
{
    let v = chars_of(s);
    let from = sign_len(&v, false);
    if !digit_body(&v, from) {
        return None;
    }
    digits_to_u64(&v, from, v.len())
}

/// `str::parse::<i32>`.
pub fn parse_i32_exec(s: &str) -> (r: Option<i32>)
    ensures
        r == parse_i32(s@),
{
    let v = chars_of(s);
    let neg = v.len() > 0 && v[0] == '-';
    let from = sign_len(&v, true);
    if !digit_body(&v, from) {
        return None;
    }
    match digits_to_u64(&v, from, v.len()) {
        None => None,
        Some(x) => {
            if neg {
                if x <= 2147483648 {
                    Some((0 - (x as i64)) as i32)
                } else {
                    None
                }
            } else if x <= 2147483647 {
                Some(x as i32)
            } else {
                None
            }
        },
    }
}

} // verus!
