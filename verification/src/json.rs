//! Reading JSON documents, done by `serde_json`.
//!
//! A document is read one value at a time: a JSON pointer names the value,
//! and what comes back describes that value alone (its kind, a string, a
//! number, the length of an array or the keys of an object).
use vstd::prelude::*;

use crate::text::{chars_of, string_of};

verus! {

/// One JSON value, described without its contents.
pub enum JsonShallow {
    Null,
    Bool(bool),
    /// A number, with its value when it is a non-negative integer that fits in `u64`.
    Number(Option<u64>),
    String(String),
    /// An array, with its length.
    Array(usize),
    /// An object, with its keys in the document's map order.
    Object(Vec<String>),
}

pub enum JsonShallowView {
    Null,
    Bool(bool),
    Number(Option<u64>),
    String(Seq<char>),
    Array(nat),
    Object(Seq<Seq<char>>),
}

impl View for JsonShallow {
    type V = JsonShallowView;

    open spec fn view(&self) -> JsonShallowView {
        match self {
            JsonShallow::Null => JsonShallowView::Null,
            JsonShallow::Bool(b) => JsonShallowView::Bool(*b),
            JsonShallow::Number(n) => JsonShallowView::Number(*n),
            JsonShallow::String(s) => JsonShallowView::String(s@),
            JsonShallow::Array(n) => JsonShallowView::Array(*n as nat),
            JsonShallow::Object(keys) => JsonShallowView::Object(keys@.map_values(|k: String| k@)),
        }
    }
}

/// What `serde_json` reads at `pointer` in the document `text`: `Err` with
/// the parser's message when `text` is not a JSON document, `Ok(None)` when
/// the pointer names no value.
pub uninterp spec fn json_query_result(text: Seq<char>, pointer: Seq<char>) -> Result<
    Option<JsonShallowView>,
    Seq<char>,
>;

/// What `serde_json` reads when `text` is parsed as a single JSON string:
/// its value, or `Err` with the parser's message.
pub uninterp spec fn json_string_result(text: Seq<char>) -> Result<Seq<char>, Seq<char>>;

/// The whitespace that `serde_json` skips around a value: space, tab, line
/// feed and carriage return.
pub open spec fn is_json_ws(c: char) -> bool {
    c == ' ' || c == '\t' || c == '\n' || c == '\r'
}

/// `s` without its leading JSON whitespace.
pub open spec fn strip_json_start(s: Seq<char>) -> Seq<char>
    decreases s.len(),
{
    if s.len() > 0 && is_json_ws(s[0]) {
        strip_json_start(s.drop_first())
    } else {
        s
    }
}

/// `s` without its trailing JSON whitespace.
pub open spec fn strip_json_end(s: Seq<char>) -> Seq<char>
    decreases s.len(),
{
    if s.len() > 0 && is_json_ws(s.last()) {
        strip_json_end(s.drop_last())
    } else {
        s
    }
}

/// `s` without the JSON whitespace at either end.
pub open spec fn strip_json_ws(s: Seq<char>) -> Seq<char> {
    strip_json_end(strip_json_start(s))
}

/// Parses `text` with `serde_json::from_str::<serde_json::Value>` and
/// describes the value that `Value::pointer(pointer)` names. The result is
/// named (`json_query_result`): it depends on the two arguments alone. Of it
/// the contract states one fact of `serde_json`: the parser skips the JSON
/// whitespace before and after the value, so the text without it reads the
/// same, and fails where the text fails.
#[verifier::external_body]
pub(crate) fn json_query(text: &str, pointer: &str) -> (r: Result<Option<JsonShallow>, String>)
    ensures
        json_query_result(text@, pointer@) == match r {
            Ok(Some(v)) => Ok(Some(v@)),
            Ok(None) => Ok(None),
            Err(e) => Err(e@),
        },
        match r {
            Ok(_) => json_query_result(strip_json_ws(text@), pointer@) == json_query_result(
                text@,
                pointer@,
            ),
            Err(_) => json_query_result(strip_json_ws(text@), pointer@) is Err,
        },
{
    let v: serde_json::Value = serde_json::from_str(text).map_err(|e| e.to_string())?;
    Ok(v.pointer(pointer).map(|x| match x {
        serde_json::Value::Null => JsonShallow::Null,
        serde_json::Value::Bool(b) => JsonShallow::Bool(*b),
        serde_json::Value::Number(n) => JsonShallow::Number(n.as_u64()),
        serde_json::Value::String(s) => JsonShallow::String(s.clone()),
        serde_json::Value::Array(a) => JsonShallow::Array(a.len()),
        serde_json::Value::Object(o) => JsonShallow::Object(o.keys().cloned().collect()),
    }))
}

/// A lower-case hexadecimal digit of `d < 16`.
pub open spec fn hex_lower(d: int) -> char {
    if d < 10 {
        (48 + d) as char
    } else {
        (87 + d) as char
    }
}

/// How `serde_json` writes one character inside a string literal: `"` and
/// `\` escaped with a backslash, backspace, tab, line feed, form feed and
/// carriage return as `\b \t \n \f \r`, other control characters as
/// `\u00` and two hexadecimal digits, everything else as it is.
pub open spec fn json_escape(c: char) -> Seq<char> {
    let u = c as u32;
    if c == '"' {
        seq!['\\', '"']
    } else if c == '\\' {
        seq!['\\', '\\']
    } else if u == 8 {
        seq!['\\', 'b']
    } else if u == 9 {
        seq!['\\', 't']
    } else if u == 10 {
        seq!['\\', 'n']
    } else if u == 12 {
        seq!['\\', 'f']
    } else if u == 13 {
        seq!['\\', 'r']
    } else if u < 0x20 {
        seq!['\\', 'u', '0', '0', hex_lower(u as int / 16), hex_lower(u as int % 16)]
    } else {
        seq![c]
    }
}

/// The characters of `s`, each as `json_escape` writes it.
pub open spec fn json_escaped(s: Seq<char>) -> Seq<char>
    decreases s.len(),
{
    if s.len() == 0 {
        seq![]
    } else {
        json_escape(s[0]) + json_escaped(s.drop_first())
    }
}

/// `s` as a JSON string literal, as `serde_json::to_string` writes it.
pub open spec fn json_quoted(s: Seq<char>) -> Seq<char> {
    seq!['"'] + json_escaped(s) + seq!['"']
}

/// Parses `text` with `serde_json::from_str::<String>`. The result is named
/// (`json_string_result`); of it the contract states one fact of
/// `serde_json`: a string literal as `serde_json` writes it reads back as the
/// string it was written from.
#[verifier::external_body]
pub(crate) fn json_string(text: &str) -> (r: Result<String, String>)
    ensures
        json_string_result(text@) == match r {
            Ok(s) => Ok(s@),
            Err(e) => Err(e@),
        },
        match r {
            Ok(v) => forall|x: Seq<char>| #[trigger] json_quoted(x) == text@ ==> v@ == x,
            Err(_) => forall|x: Seq<char>| #[trigger] json_quoted(x) != text@,
        },
{
    serde_json::from_str::<String>(text).map_err(|e| e.to_string())
}

proof fn lemma_strip_start(s: Seq<char>, i: int)
    requires
        0 <= i <= s.len(),
        forall|k: int| 0 <= k < i ==> is_json_ws(#[trigger] s[k]),
        i == s.len() || !is_json_ws(s[i]),
    ensures
        strip_json_start(s) == s.subrange(i, s.len() as int),
    decreases i,
{
    if i == 0 {
        assert(s.subrange(0, s.len() as int) =~= s);
    } else {
        let t = s.drop_first();
        assert forall|k: int| 0 <= k < i - 1 implies is_json_ws(#[trigger] t[k]) by {
            assert(t[k] == s[k + 1]);
        }
        if i - 1 < t.len() {
            assert(t[i - 1] == s[i]);
        }
        lemma_strip_start(t, i - 1);
        assert(t.subrange(i - 1, t.len() as int) =~= s.subrange(i, s.len() as int));
    }
}

proof fn lemma_strip_end(s: Seq<char>, j: int)
    requires
        0 <= j <= s.len(),
        forall|k: int| j <= k < s.len() ==> is_json_ws(#[trigger] s[k]),
        j == 0 || !is_json_ws(s[j - 1]),
    ensures
        strip_json_end(s) == s.subrange(0, j),
    decreases s.len() - j,
{
    if j == s.len() {
        assert(s.subrange(0, j) =~= s);
    } else {
        let t = s.drop_last();
        assert forall|k: int| j <= k < t.len() implies is_json_ws(#[trigger] t[k]) by {
            assert(t[k] == s[k]);
        }
        if j > 0 {
            assert(t[j - 1] == s[j - 1]);
        }
        lemma_strip_end(t, j);
        assert(t.subrange(0, j) =~= s.subrange(0, j));
    }
}

/// Whether `c` is JSON whitespace.
fn is_json_ws_exec(c: char) -> (b: bool)
    ensures
        b == is_json_ws(c),
{
    c == ' ' || c == '\t' || c == '\n' || c == '\r'
}

/// `s` without the JSON whitespace at either end.
pub fn strip_json(s: &str) -> (r: String)
    ensures
        r@ == strip_json_ws(s@),
{
    let v = chars_of(s);
    let mut i: usize = 0;
    while i < v.len() && is_json_ws_exec(v[i])
        invariant
            0 <= i <= v@.len(),
            forall|k: int| 0 <= k < i ==> is_json_ws(#[trigger] v@[k]),
        decreases v@.len() - i,
    {
        i += 1;
    }
    proof {
        lemma_strip_start(v@, i as int);
    }
    let mut j: usize = v.len();
    while j > i && is_json_ws_exec(v[j - 1])
        invariant
            i <= j <= v@.len(),
            forall|k: int| j <= k < v@.len() ==> is_json_ws(#[trigger] v@[k]),
        decreases j,
    {
        j -= 1;
    }
    proof {
        let u = v@.subrange(i as int, v@.len() as int);
        assert forall|k: int| j - i <= k < u.len() implies is_json_ws(#[trigger] u[k]) by {
            assert(u[k] == v@[i + k]);
        }
        if j > i {
            assert(u[j - i - 1] == v@[j - 1]);
        }
        lemma_strip_end(u, j - i);
        assert(u.subrange(0, j - i) =~= v@.subrange(i as int, j as int));
    }
    string_of(&v, i, j)
}

proof fn lemma_strip_start_first(s: Seq<char>)
    ensures
        strip_json_start(s).len() > 0 ==> !is_json_ws(strip_json_start(s)[0]),
    decreases s.len(),
{
    if s.len() > 0 && is_json_ws(s[0]) {
        lemma_strip_start_first(s.drop_first());
    }
}

proof fn lemma_strip_end_prefix(s: Seq<char>)
    ensures
        strip_json_end(s).len() <= s.len(),
        strip_json_end(s) == s.subrange(0, strip_json_end(s).len() as int),
        strip_json_end(s).len() > 0 ==> !is_json_ws(strip_json_end(s).last()),
    decreases s.len(),
{
    if s.len() > 0 && is_json_ws(s.last()) {
        lemma_strip_end_prefix(s.drop_last());
        let t = strip_json_end(s.drop_last());
        assert(s.drop_last().subrange(0, t.len() as int) =~= s.subrange(0, t.len() as int));
    } else {
        assert(s.subrange(0, s.len() as int) =~= s);
    }
}

/// Stripping JSON whitespace a second time changes nothing.
pub proof fn lemma_strip_json_idempotent(s: Seq<char>)
    ensures
        strip_json_ws(strip_json_ws(s)) == strip_json_ws(s),
{
    let u = strip_json_start(s);
    let t = strip_json_end(u);
    lemma_strip_start_first(s);
    lemma_strip_end_prefix(u);
    if t.len() > 0 {
        assert(t[0] == u.subrange(0, t.len() as int)[0]);
    }
    assert(strip_json_start(t) == t);
    assert(strip_json_end(t) == t);
}

} // verus!
