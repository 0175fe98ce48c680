//! Safe file names and paths for downloaded files.
use vstd::prelude::*;

use crate::text::{
    append, chars_of, copy_str, has_prefix, lemma_trim_end_prefix, lemma_trim_start_first,
    replace_all, replace_exec, string_of, string_of_all, strip_prefixes, strip_prefixes_exec, to_lowercase,
    trim_bounds_by, trim_end_by, trim_start_by, trimmed_char, unicode_lowercase, all_ascii,
    ascii_lower,
};

verus! {

/// Characters that may not appear in a file name: `< > : " / \ | ? *` and the
/// control characters U+0000 to U+001F.
pub open spec fn is_unsafe_name_char(c: char) -> bool {
    c == '<' || c == '>' || c == ':' || c == '"' || c == '/' || c == '\\' || c == '|' || c == '?'
        || c == '*' || (c as u32) <= 0x1f
}

/// Every unsafe character of `s` replaced by `_`.
pub open spec fn mask_unsafe(s: Seq<char>) -> Seq<char> {
    s.map_values(|c: char|
        if is_unsafe_name_char(c) {
            '_'
        } else {
            c
        })
}

/// The two-character sequence `..`.
pub open spec fn dot_dot() -> Seq<char> {
    seq!['.', '.']
}

/// The name used when nothing of a title survives.
pub open spec fn untitled() -> Seq<char> {
    seq!['u', 'n', 't', 'i', 't', 'l', 'e', 'd']
}

/// The longest file name, in characters, that sanitizing keeps.
pub open spec fn max_name_chars() -> nat {
    200
}

/// The file name that `sanitize_filename` makes of `name`: unsafe characters
/// replaced by `_`, every `..` replaced by `_`, whitespace, dots and
/// underscores trimmed from both ends, cut to 200 characters, and
/// `untitled` when nothing is left.
pub open spec fn sanitized(name: Seq<char>) -> Seq<char> {
    let replaced = replace_all(mask_unsafe(name), dot_dot(), seq!['_']);
    let trimmed = trim_end_by(trim_start_by(replaced, true), true);
    let cut = if trimmed.len() > max_name_chars() {
        trimmed.take(max_name_chars() as int)
    } else {
        trimmed
    };
    if cut.len() == 0 {
        untitled()
    } else {
        cut
    }
}

/// No two adjacent dots.
pub open spec fn no_dot_dot(s: Seq<char>) -> bool {
    forall|i: int| 0 <= i < s.len() - 1 ==> !(#[trigger] s[i] == '.' && s[i + 1] == '.')
}

/// No unsafe character.
pub open spec fn all_safe(s: Seq<char>) -> bool {
    forall|i: int| 0 <= i < s.len() ==> !is_unsafe_name_char(#[trigger] s[i])
}

/// Replacing `..` by `_` leaves no `..`, keeps out characters that were not
/// there, and begins with `_` exactly where the input began with `..`.
proof fn lemma_replace_dot_dot(s: Seq<char>)
    ensures
        no_dot_dot(replace_all(s, dot_dot(), seq!['_'])),
        all_safe(s) ==> all_safe(replace_all(s, dot_dot(), seq!['_'])),
        replace_all(s, dot_dot(), seq!['_']).len() == 0 <==> s.len() == 0,
        s.len() > 0 ==> replace_all(s, dot_dot(), seq!['_'])[0] == (if has_prefix(s, dot_dot()) {
            '_'
        } else {
            s[0]
        }),
    decreases s.len(),
{
    let r = replace_all(s, dot_dot(), seq!['_']);
    if s.len() < 2 {
        assert(r == s);
        if s.len() == 1 {
            assert(!has_prefix(s, dot_dot()));
        }
    } else if has_prefix(s, dot_dot()) {
        let t = s.skip(2);
        lemma_replace_dot_dot(t);
        let rt = replace_all(t, dot_dot(), seq!['_']);
        assert(r == seq!['_'] + rt);
        assert forall|i: int| 0 <= i < r.len() - 1 implies !(#[trigger] r[i] == '.' && r[i + 1]
            == '.') by {
            if i > 0 {
                assert(r[i] == rt[i - 1]);
                assert(r[i + 1] == rt[i]);
            }
        }
        if all_safe(s) {
            assert forall|i: int| 0 <= i < t.len() implies !is_unsafe_name_char(#[trigger] t[i]) by {
                assert(t[i] == s[i + 2]);
            }
            assert forall|i: int| 0 <= i < r.len() implies !is_unsafe_name_char(#[trigger] r[i]) by {
                if i > 0 {
                    assert(r[i] == rt[i - 1]);
                }
            }
        }
    } else {
        let t = s.drop_first();
        lemma_replace_dot_dot(t);
        let rt = replace_all(t, dot_dot(), seq!['_']);
        assert(r == seq![s[0]] + rt);
        if s[0] == '.' {
            assert(s[1] != '.') by {
                if s[1] == '.' {
                    assert(s.subrange(0, 2) =~= dot_dot());
                }
            }
            assert(t[0] == s[1]);
            if has_prefix(t, dot_dot()) {
                assert(t.subrange(0, 2)[0] == t[0]);
            }
        }
        assert forall|i: int| 0 <= i < r.len() - 1 implies !(#[trigger] r[i] == '.' && r[i + 1]
            == '.') by {
            if i > 0 {
                assert(r[i] == rt[i - 1]);
                assert(r[i + 1] == rt[i]);
            } else {
                assert(r[1] == rt[0]);
            }
        }
        if all_safe(s) {
            assert forall|i: int| 0 <= i < t.len() implies !is_unsafe_name_char(#[trigger] t[i]) by {
                assert(t[i] == s[i + 1]);
            }
            assert forall|i: int| 0 <= i < r.len() implies !is_unsafe_name_char(#[trigger] r[i]) by {
                if i > 0 {
                    assert(r[i] == rt[i - 1]);
                }
            }
        }
    }
}

/// The characters that may not appear in a file name, as a regular expression.
pub const UNSAFE_NAME_CHARS: &'static str = r#"[<>:"/\\|?*\x00-\x1f]"#;

/// `regex::Regex::replace_all` of the character class `UNSAFE_NAME_CHARS`
/// with `_`: each character of the class is replaced by `_` and every other
/// character is kept (a class matches one character at a time; the pattern
/// always compiles).
#[verifier::external_body]
fn mask_unsafe_chars(s: &str) -> (r: String)
    ensures
        r@ == mask_unsafe(s@),
{
    match regex::Regex::new(UNSAFE_NAME_CHARS) {
        Ok(re) => re.replace_all(s, "_").into_owned(),
        Err(_) => s.to_string(),
    }
}

/// Turns a title into a file name that is safe on common file systems and
/// cannot climb out of a folder.
pub fn sanitize_filename(filename: &str) -> (r: String)
    ensures
        r@ == sanitized(filename@),
        1 <= r@.len() <= max_name_chars(),
        all_safe(r@),
        no_dot_dot(r@),
        !trimmed_char(true, r@[0]),
{
    let masked_text = mask_unsafe_chars(filename);
    let masked = chars_of(masked_text.as_str());
    assert(masked@ =~= mask_unsafe(filename@));
    let dd = vec!['.', '.'];
    let us = vec!['_'];
    assert(dd@ =~= dot_dot());
    assert(us@ =~= seq!['_']);
    let replaced = replace_exec(&masked, &dd, &us);
    proof {
        assert forall|k: int| 0 <= k < masked@.len() implies !is_unsafe_name_char(
            #[trigger] masked@[k],
        ) by {}
        lemma_replace_dot_dot(masked@);
    }
    let (a, b) = trim_bounds_by(&replaced, 0, replaced.len(), true);
    assert(replaced@.subrange(0, replaced@.len() as int) =~= replaced@);
    let end = if b - a > 200 {
        a + 200
    } else {
        b
    };
    let ghost trimmed = replaced@.subrange(a as int, b as int);
    assert(b - a > 200 ==> trimmed.take(200) =~= replaced@.subrange(a as int, end as int));
    if a == end {
        let r = String::from_str("untitled");
        proof {
            reveal_strlit("untitled");
            assert(r@ =~= untitled());
        }
        return r;
    }
    let r = string_of(&replaced, a, end);
    proof {
        let rr = replaced@;
        assert forall|k: int| 0 <= k < r@.len() implies !is_unsafe_name_char(#[trigger] r@[k]) by {
            assert(r@[k] == rr[a + k]);
        }
        assert forall|k: int| 0 <= k < r@.len() - 1 implies !(#[trigger] r@[k] == '.' && r@[k + 1]
            == '.') by {
            assert(r@[k] == rr[a + k]);
            assert(r@[k + 1] == rr[a + k + 1]);
        }
        lemma_trim_start_first(replaced@, true);
        let ts = trim_start_by(replaced@, true);
        lemma_trim_end_prefix(ts, true);
        assert(r@[0] == trimmed[0]);
    }
    r
}


/// The extension of a saved file: the format without leading dots, in lower
/// case, with the characters that may not appear in a file name replaced by
/// `_` and every `..` replaced by `_`; `bin` when nothing is left.
pub open spec fn extension_for(format: Seq<char>) -> Seq<char> {
    let clean = replace_all(
        mask_unsafe(unicode_lowercase(strip_prefixes(format, "."@))),
        dot_dot(),
        seq!['_'],
    );
    if clean.len() == 0 {
        "bin"@
    } else {
        clean
    }
}

/// `folder` as a directory prefix: with a `/` after it unless it is empty or
/// already ends with one.
pub open spec fn dir_prefix(folder: Seq<char>) -> Seq<char> {
    if folder.len() == 0 || folder.last() == '/' {
        folder
    } else {
        folder + "/"@
    }
}

/// `Path::join` on Unix: an absolute `name` replaces the folder, a relative
/// one is appended after a separator.
pub open spec fn join_path(folder: Seq<char>, name: Seq<char>) -> Seq<char> {
    if has_prefix(name, "/"@) {
        name
    } else {
        dir_prefix(folder) + name
    }
}

/// The file name under which a download of `title` in `format` is saved.
pub open spec fn safe_file_name(title: Seq<char>, format: Seq<char>) -> Seq<char> {
    sanitized(title) + "."@ + extension_for(format)
}

/// The file name under which a download of `title` in `format` is saved: the
/// sanitized title, a dot and the extension. It is one path component: it
/// holds no `/` and does not begin with a dot.
pub fn file_name_for(title: &str, format: &str) -> (r: String)
    ensures
        r@ == safe_file_name(title@, format@),
        r@.len() > 0,
        r@[0] != '.',
        !r@.contains('/'),
        all_ascii(strip_prefixes(format@, "."@)) ==> unicode_lowercase(strip_prefixes(format@, "."@))
            == strip_prefixes(format@, "."@).map_values(|c: char| ascii_lower(c)),
{
    let safe_title = sanitize_filename(title);
    let fv = chars_of(format);
    let dot = vec!['.'];
    proof {
        reveal_strlit(".");
        assert(dot@ =~= "."@);
    }
    let k = strip_prefixes_exec(&fv, &dot);
    let stripped = string_of(&fv, k, fv.len());
    assert(stripped@ =~= strip_prefixes(format@, "."@));
    let lower = to_lowercase(stripped.as_str());
    let masked_text = mask_unsafe_chars(lower.as_str());
    let masked = chars_of(masked_text.as_str());
    let dd = vec!['.', '.'];
    let us = vec!['_'];
    assert(dd@ =~= dot_dot());
    assert(us@ =~= seq!['_']);
    let replaced = replace_exec(&masked, &dd, &us);
    proof {
        let m = masked@;
        assert forall|i: int| 0 <= i < m.len() implies !is_unsafe_name_char(#[trigger] m[i]) by {}
        lemma_replace_dot_dot(m);
    }
    let ext = if replaced.len() == 0 {
        let b = String::from_str("bin");
        proof {
            reveal_strlit("bin");
            assert forall|i: int| 0 <= i < b@.len() implies !is_unsafe_name_char(#[trigger] b@[i]) by {}
        }
        b
    } else {
        string_of_all(&replaced)
    };
    assert(all_safe(ext@));
    let mut name = copy_str(safe_title.as_str());
    append(&mut name, ".");
    append(&mut name, ext.as_str());
    let ghost t = safe_title@;
    proof {
        assert(name@[0] == t[0]);
        assert forall|i: int| 0 <= i < name@.len() implies name@[i] != '/' by {
            if i < t.len() {
                assert(name@[i] == t[i]);
                assert(!is_unsafe_name_char(t[i]));
            } else if i > t.len() {
                assert(name@[i] == ext@[i - t.len() - 1]);
                assert(!is_unsafe_name_char(ext@[i - t.len() - 1]));
            }
        }
    }
    name
}

/// Where a download of `title` in `format` is saved inside `folder`: the
/// safe file name joined to the folder. The file always lands directly inside
/// the folder: what follows the folder is one path component.
pub fn make_safe_filepath(folder: &str, title: &str, format: &str) -> (r: String)
    ensures
        r@ == join_path(folder@, safe_file_name(title@, format@)),
        r@ == dir_prefix(folder@) + safe_file_name(title@, format@),
        !safe_file_name(title@, format@).contains('/'),
        safe_file_name(title@, format@).len() > 0,
        safe_file_name(title@, format@)[0] != '.',
        all_ascii(strip_prefixes(format@, "."@)) ==> unicode_lowercase(strip_prefixes(format@, "."@))
            == strip_prefixes(format@, "."@).map_values(|c: char| ascii_lower(c)),
{
    let name = file_name_for(title, format);
    proof {
        reveal_strlit("/");
        assert(!has_prefix(name@, "/"@)) by {
            if has_prefix(name@, "/"@) {
                assert(name@.subrange(0, 1)[0] == name@[0]);
            }
        }
    }
    let fv2 = chars_of(folder);
    let mut r = copy_str(folder);
    if fv2.len() > 0 && fv2[fv2.len() - 1] != '/' {
        append(&mut r, "/");
    }
    append(&mut r, name.as_str());
    r
}

// ---------------------------------------------------------------------------
// Sanitizing twice
// ---------------------------------------------------------------------------

proof fn lemma_props_drop_first(s: Seq<char>)
    requires
        s.len() > 0,
        all_safe(s),
        no_dot_dot(s),
    ensures
        all_safe(s.drop_first()),
        no_dot_dot(s.drop_first()),
{
    let t = s.drop_first();
    assert forall|i: int| 0 <= i < t.len() implies !is_unsafe_name_char(#[trigger] t[i]) by {
        assert(t[i] == s[i + 1]);
    }
    assert forall|i: int| 0 <= i < t.len() - 1 implies !(#[trigger] t[i] == '.' && t[i + 1] == '.') by {
        assert(t[i] == s[i + 1] && t[i + 1] == s[i + 2]);
    }
}

proof fn lemma_props_take(s: Seq<char>, n: int)
    requires
        0 <= n <= s.len(),
        all_safe(s),
        no_dot_dot(s),
    ensures
        all_safe(s.take(n)),
        no_dot_dot(s.take(n)),
{
    let t = s.take(n);
    assert forall|i: int| 0 <= i < t.len() implies !is_unsafe_name_char(#[trigger] t[i]) by {
        assert(t[i] == s[i]);
    }
    assert forall|i: int| 0 <= i < t.len() - 1 implies !(#[trigger] t[i] == '.' && t[i + 1] == '.') by {
        assert(t[i] == s[i] && t[i + 1] == s[i + 1]);
    }
}

proof fn lemma_props_trim_start(s: Seq<char>)
    requires
        all_safe(s),
        no_dot_dot(s),
    ensures
        all_safe(trim_start_by(s, true)),
        no_dot_dot(trim_start_by(s, true)),
    decreases s.len(),
{
    if s.len() > 0 && trimmed_char(true, s[0]) {
        lemma_props_drop_first(s);
        lemma_props_trim_start(s.drop_first());
    }
}

/// What trimming the end leaves does not end with a trimmed character.
proof fn lemma_trim_end_last(s: Seq<char>, edge: bool)
    ensures
        trim_end_by(s, edge).len() > 0 ==> !trimmed_char(edge, trim_end_by(s, edge).last()),
    decreases s.len(),
{
    if s.len() > 0 && trimmed_char(edge, s.last()) {
        lemma_trim_end_last(s.drop_last(), edge);
    }
}

/// A sanitized name is safe, holds no `..`, has between 1 and 200
/// characters, and does not begin with a trimmed character.
proof fn lemma_sanitized_props(name: Seq<char>)
    ensures
        all_safe(sanitized(name)),
        no_dot_dot(sanitized(name)),
        1 <= sanitized(name).len() <= max_name_chars(),
        !trimmed_char(true, sanitized(name)[0]),
{
    let m = mask_unsafe(name);
    assert forall|i: int| 0 <= i < m.len() implies !is_unsafe_name_char(#[trigger] m[i]) by {}
    lemma_replace_dot_dot(m);
    let r = replace_all(m, dot_dot(), seq!['_']);
    let ts = trim_start_by(r, true);
    lemma_props_trim_start(r);
    lemma_trim_start_first(r, true);
    lemma_trim_end_prefix(ts, true);
    let t = trim_end_by(ts, true);
    lemma_props_take(ts, t.len() as int);
    if t.len() > max_name_chars() {
        lemma_props_take(t, max_name_chars() as int);
        assert(t.take(max_name_chars() as int)[0] == t[0]);
    }
    if t.len() > 0 {
        assert(t[0] == ts[0]);
    } else {
        assert(sanitized(name) == untitled());
        assert(!trimmed_char(true, untitled()[0]));
        assert forall|i: int| 0 <= i < untitled().len() implies !is_unsafe_name_char(
            #[trigger] untitled()[i],
        ) by {}
    }
}

/// Replacing `..` changes nothing in a name without `..`.
proof fn lemma_replace_without_dot_dot(s: Seq<char>)
    requires
        no_dot_dot(s),
    ensures
        replace_all(s, dot_dot(), seq!['_']) == s,
    decreases s.len(),
{
    if s.len() >= 2 {
        assert(!has_prefix(s, dot_dot())) by {
            if has_prefix(s, dot_dot()) {
                assert(s.subrange(0, 2)[0] == s[0] && s.subrange(0, 2)[1] == s[1]);
            }
        }
        let t = s.drop_first();
        assert forall|i: int| 0 <= i < t.len() - 1 implies !(#[trigger] t[i] == '.' && t[i + 1]
            == '.') by {
            assert(t[i] == s[i + 1] && t[i + 1] == s[i + 2]);
        }
        lemma_replace_without_dot_dot(t);
        assert(seq![s[0]] + t =~= s);
    }
}

/// Sanitizing a sanitized name gives it back, unless cutting it to 200
/// characters left a trailing whitespace, dot or underscore (which a second
/// pass trims).
pub proof fn lemma_sanitize_stable(name: Seq<char>)
    requires
        !trimmed_char(true, sanitized(name).last()),
    ensures
        sanitized(sanitized(name)) == sanitized(name),
{
    let s = sanitized(name);
    lemma_sanitized_props(name);
    assert(mask_unsafe(s) =~= s);
    lemma_replace_without_dot_dot(s);
    assert(trim_start_by(s, true) == s);
    assert(trim_end_by(s, true) == s);
}

} // verus!
