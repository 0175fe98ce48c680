//! Reading the Elasticsearch record of an item (`/db/aarecord_elasticsearch/md5:{md5}.json`).
use vstd::prelude::*;

use crate::domain::book::ov;
use crate::domain::metadata::{
    DownloadSource, DownloadSourceView, Identifiers, IdentifiersView, IpfsInfo, IpfsInfoView,
    ItemDetails, ItemDetailsView, ipfs_view, osvec, sources_view, svec,
};
use crate::errors::{AppError, AppErrorView};
use crate::json::{
    JsonShallow, JsonShallowView, json_query, json_query_result, json_quoted, json_string,
    json_string_result, lemma_strip_json_idempotent, strip_json, strip_json_ws,
};
use crate::text::{
    append, char_of_digit, concat, copy_str, decimal, digit_char, has_prefix, replace,
    has_suffix, replace_all, str_ends_with, str_eq, str_starts_with, to_uppercase, trim,
    trim_end_by, trim_start_by, trim_ws, u64_to_decimal, unicode_uppercase, vec_contains,
    all_ascii, ascii_upper,
};

verus! {

// ---------------------------------------------------------------------------
// JSON pointers and values
// ---------------------------------------------------------------------------

/// A key escaped for use in a JSON pointer: `~` as `~0`, `/` as `~1`.
pub open spec fn pointer_escape(key: Seq<char>) -> Seq<char> {
    replace_all(replace_all(key, "~"@, "~0"@), "/"@, "~1"@)
}

/// The pointer to member `key` of the value at `p`.
pub open spec fn child(p: Seq<char>, key: Seq<char>) -> Seq<char> {
    p + "/"@ + pointer_escape(key)
}

/// The pointer to element `i` of the array at `p`.
pub open spec fn element(p: Seq<char>, i: nat) -> Seq<char> {
    p + "/"@ + decimal(i)
}

/// The value at `p`, when the document parses and has one there.
pub open spec fn jq(text: Seq<char>, p: Seq<char>) -> Option<JsonShallowView> {
    match json_query_result(text, p) {
        Ok(o) => o,
        Err(_) => None,
    }
}

/// The string at `p`.
pub open spec fn str_at(text: Seq<char>, p: Seq<char>) -> Option<Seq<char>> {
    match jq(text, p) {
        Some(JsonShallowView::String(s)) => Some(s),
        _ => None,
    }
}

/// The string at `p` when it is not empty.
pub open spec fn nonempty_str_at(text: Seq<char>, p: Seq<char>) -> Option<Seq<char>> {
    match str_at(text, p) {
        Some(s) => if s.len() > 0 {
            Some(s)
        } else {
            None
        },
        None => None,
    }
}

/// The strings among the first `k` elements of the array at `p`.
pub open spec fn strings_in(text: Seq<char>, p: Seq<char>, k: nat) -> Seq<Seq<char>>
    decreases k,
{
    if k == 0 {
        seq![]
    } else {
        let prev = strings_in(text, p, (k - 1) as nat);
        match str_at(text, element(p, (k - 1) as nat)) {
            Some(s) => prev.push(s),
            None => prev,
        }
    }
}

/// The strings of the array at `p`, when there is an array there.
pub open spec fn str_array(text: Seq<char>, p: Seq<char>) -> Option<Seq<Seq<char>>> {
    match jq(text, p) {
        Some(JsonShallowView::Array(n)) => Some(strings_in(text, p, n)),
        _ => None,
    }
}

/// The first element of the array at `p`, when it is a string.
pub open spec fn first_str(text: Seq<char>, p: Seq<char>) -> Option<Seq<char>> {
    match jq(text, p) {
        Some(JsonShallowView::Array(n)) => if n > 0 {
            str_at(text, element(p, 0))
        } else {
            None
        },
        _ => None,
    }
}

/// The value at `p` is an object.
pub open spec fn is_object_at(text: Seq<char>, p: Seq<char>) -> bool {
    jq(text, p) matches Some(JsonShallowView::Object(_))
}

fn jq_exec(text: &str, p: &str) -> (r: Option<JsonShallow>)
    ensures
        match r {
            Some(v) => jq(text@, p@) == Some(v@),
            None => jq(text@, p@) is None,
        },
{
    match json_query(text, p) {
        Ok(o) => o,
        Err(_) => None,
    }
}

fn str_at_exec(text: &str, p: &str) -> (r: Option<String>)
    ensures
        ov(r) == str_at(text@, p@),
{
    match jq_exec(text, p) {
        Some(JsonShallow::String(s)) => Some(s),
        _ => None,
    }
}

fn nonempty_str_at_exec(text: &str, p: &str) -> (r: Option<String>)
    ensures
        ov(r) == nonempty_str_at(text@, p@),
{
    match str_at_exec(text, p) {
        Some(s) => if !s.as_str().is_empty() {
            Some(s)
        } else {
            None
        },
        None => None,
    }
}

fn child_exec(p: &str, key: &str) -> (r: String)
    ensures
        r@ == child(p@, key@),
{
    proof {
        reveal_strlit("~");
        reveal_strlit("/");
    }
    let a = replace(key, "~", "~0");
    let b = replace(a.as_str(), "/", "~1");
    let mut r = concat(p, "/");
    append(&mut r, b.as_str());
    r
}

fn element_exec(p: &str, i: usize) -> (r: String)
    ensures
        r@ == element(p@, i as nat),
{
    let d = u64_to_decimal(i as u64);
    let mut r = concat(p, "/");
    append(&mut r, d.as_str());
    r
}

fn str_array_exec(text: &str, p: &str) -> (r: Option<Vec<String>>)
    ensures
        osvec(r) == str_array(text@, p@),
{
    match jq_exec(text, p) {
        Some(JsonShallow::Array(n)) => {
            let mut out: Vec<String> = Vec::new();
            let mut i: usize = 0;
            while i < n
                invariant
                    0 <= i <= n,
                    svec(out@) == strings_in(text@, p@, i as nat),
                decreases n - i,
            {
                let e = element_exec(p, i);
                let ghost prev = svec(out@);
                match str_at_exec(text, e.as_str()) {
                    Some(s) => {
                        out.push(s);
                        assert(svec(out@) =~= prev.push(s@));
                    },
                    None => {},
                }
                i += 1;
            }
            Some(out)
        },
        _ => None,
    }
}

fn first_str_exec(text: &str, p: &str) -> (r: Option<String>)
    ensures
        ov(r) == first_str(text@, p@),
{
    match jq_exec(text, p) {
        Some(JsonShallow::Array(n)) => {
            if n > 0 {
                let e = element_exec(p, 0);
                str_at_exec(text, e.as_str())
            } else {
                None
            }
        },
        _ => None,
    }
}

fn is_object_at_exec(text: &str, p: &str) -> (b: bool)
    ensures
        b == is_object_at(text@, p@),
{
    match jq_exec(text, p) {
        Some(JsonShallow::Object(_)) => true,
        _ => false,
    }
}

// ---------------------------------------------------------------------------
// File sizes
// ---------------------------------------------------------------------------

pub open spec fn pow2(n: nat) -> nat
    decreases n,
{
    if n == 0 {
        1
    } else {
        2 * pow2((n - 1) as nat)
    }
}

/// The number of binary digits of `b`.
pub open spec fn bit_length(b: nat) -> nat
    decreases b,
{
    if b == 0 {
        0
    } else {
        1 + bit_length(b / 2)
    }
}

/// `b` rounded to the nearest value with 53 significant bits, ties to even:
/// the value of `b as f64`.
pub open spec fn as_double(b: nat) -> nat {
    let len = bit_length(b);
    if len <= 53 {
        b
    } else {
        let s = (len - 53) as nat;
        let q = b / pow2(s);
        let r = b % pow2(s);
        let half = pow2((s - 1) as nat);
        let up = r > half || (r == half && q % 2 == 1);
        (if up {
            q + 1
        } else {
            q
        }) * pow2(s)
    }
}

/// `10 * x / d` rounded to the nearest integer, ties to even.
pub open spec fn tenths(x: nat, d: nat) -> nat {
    let t = (10 * x) / d;
    let r = (10 * x) % d;
    if 2 * r > d || (2 * r == d && t % 2 == 1) {
        t + 1
    } else {
        t
    }
}

/// `x / d` written with one decimal.
pub open spec fn one_decimal(x: nat, d: nat) -> Seq<char> {
    let t = tenths(x, d);
    decimal(t / 10) + "."@ + seq![digit_char(t % 10)]
}

/// A file size as the record shows it: bytes below 1 KiB, otherwise KiB,
/// MiB, or GiB, with one decimal of the `f64` quotient.
pub open spec fn format_filesize_spec(bytes: u64) -> Seq<char> {
    let b = bytes as nat;
    if b >= pow2(30) {
        one_decimal(as_double(b), pow2(30)) + "GB"@
    } else if b >= pow2(20) {
        one_decimal(b, pow2(20)) + "MB"@
    } else if b >= pow2(10) {
        one_decimal(b, pow2(10)) + "KB"@
    } else {
        decimal(b) + "B"@
    }
}

proof fn lemma_pow2_values()
    ensures
        pow2(10) == 1024,
        pow2(20) == 1048576,
        pow2(30) == 1073741824,
{
    reveal_with_fuel(pow2, 31);
}

proof fn lemma_pow2_pos(n: nat)
    ensures
        pow2(n) >= 1,
    decreases n,
{
    if n > 0 {
        lemma_pow2_pos((n - 1) as nat);
    }
}

proof fn lemma_pow2_mono(a: nat, b: nat)
    requires
        a <= b,
    ensures
        pow2(a) <= pow2(b),
    decreases b,
{
    if a < b {
        lemma_pow2_mono(a, (b - 1) as nat);
        lemma_pow2_pos((b - 1) as nat);
    }
}

proof fn lemma_bit_length_bound(b: nat)
    ensures
        b < pow2(bit_length(b)),
        b > 0 ==> pow2((bit_length(b) - 1) as nat) <= b,
    decreases b,
{
    if b > 0 {
        lemma_bit_length_bound(b / 2);
    }
}

proof fn lemma_bit_length_u64(b: nat)
    requires
        b < pow2(64),
    ensures
        bit_length(b) <= 64,
{
    lemma_bit_length_bound(b);
    if bit_length(b) > 64 {
        lemma_pow2_mono(64, (bit_length(b) - 1) as nat);
    }
}

proof fn lemma_pow2_64()
    ensures
        pow2(64) == 0x1_0000_0000_0000_0000,
{
    reveal_with_fuel(pow2, 65);
}

/// The value of `bytes as f64`, exactly.
fn as_double_exec(bytes: u64) -> (r: u128)
    ensures
        r as nat == as_double(bytes as nat),
        r as nat <= 0x1_0000_0000_0000_0800,
{
    let ghost b = bytes as nat;
    proof {
        lemma_pow2_64();
        lemma_bit_length_u64(b);
    }
    let mut len: u32 = 0;
    let mut m: u64 = bytes;
    while m > 0
        invariant
            bit_length(b) == len + bit_length(m as nat),
            bit_length(b) <= 64,
        decreases m,
    {
        m = m / 2;
        len = len + 1;
    }
    if len <= 53 {
        return bytes as u128;
    }
    let s = len - 53;
    let mut p: u128 = 1;
    let mut k: u32 = 0;
    while k < s
        invariant
            k <= s,
            s <= 11,
            p as nat == pow2(k as nat),
            1 <= p <= 2048,
        decreases s - k,
    {
        proof {
            lemma_pow2_mono((k + 1) as nat, 11);
            reveal_with_fuel(pow2, 12);
        }
        p = p * 2;
        k = k + 1;
    }
    let q = (bytes as u128) / p;
    let r = (bytes as u128) % p;
    let half = p / 2;
    proof {
        assert(pow2(s as nat) == 2 * pow2((s - 1) as nat));
        assert(half as nat == pow2((s - 1) as nat));
        assert(bytes as int == q * p + r && 0 <= r < p) by (nonlinear_arith)
            requires
                q == (bytes as u128) / p,
                r == (bytes as u128) % p,
                p >= 1,
        ;
        assert((q + 1) * p == q * p + p) by (nonlinear_arith);
    }
    let up = r > half || (r == half && q % 2 == 1);
    let q2 = if up {
        q + 1
    } else {
        q
    };
    q2 * p
}

/// `x / d` written with one decimal, for `d` a power of two.
fn one_decimal_exec(x: u128, d: u128) -> (r: String)
    requires
        1 <= d <= 0x1_0000_0000_0000_0000,
        x <= 0x1_0000_0000_0000_0800,
    ensures
        r@ == one_decimal(x as nat, d as nat),
{
    let t0 = (10 * x) / d;
    let rem = (10 * x) % d;
    let t = if 2 * rem > d || (2 * rem == d && t0 % 2 == 1) {
        t0 + 1
    } else {
        t0
    };
    proof {
        assert(t0 <= 10 * x) by (nonlinear_arith)
            requires
                t0 as int == (10 * x as int) / (d as int),
                d > 0,
        ;
    }
    let whole = u64_to_decimal_u128(t / 10);
    let mut r = whole;
    append(&mut r, ".");
    proof {
        reveal_strlit(".");
    }
    crate::text::push_char(&mut r, char_of_digit((t % 10) as u64));
    r
}

/// `ToString` of a value that fits in `u128`.
fn u64_to_decimal_u128(n: u128) -> (s: String)
    ensures
        s@ == decimal(n as nat),
    decreases n,
{
    if n < 10 {
        let mut s = String::new();
        crate::text::push_char(&mut s, char_of_digit(n as u64));
        assert(s@ =~= decimal(n as nat));
        s
    } else {
        let mut s = u64_to_decimal_u128(n / 10);
        crate::text::push_char(&mut s, char_of_digit((n % 10) as u64));
        s
    }
}

/// Formats a file size as the record's size field shows it.
pub fn format_filesize(bytes: u64) -> (r: String)
    ensures
        r@ == format_filesize_spec(bytes),
{
    proof {
        lemma_pow2_values();
    }
    if bytes >= 1073741824 {
        let x = as_double_exec(bytes);
        let mut r = one_decimal_exec(x, 1073741824);
        append(&mut r, "GB");
        r
    } else if bytes >= 1048576 {
        let mut r = one_decimal_exec(bytes as u128, 1048576);
        append(&mut r, "MB");
        r
    } else if bytes >= 1024 {
        let mut r = one_decimal_exec(bytes as u128, 1024);
        append(&mut r, "KB");
        r
    } else {
        let mut r = u64_to_decimal(bytes);
        append(&mut r, "B");
        r
    }
}


// ---------------------------------------------------------------------------
// The record
// ---------------------------------------------------------------------------

/// `None` for an empty sequence.
pub open spec fn none_if_empty<T>(s: Seq<T>) -> Option<Seq<T>> {
    if s.len() == 0 {
        None
    } else {
        Some(s)
    }
}

/// The identifiers in the object at `p`.
pub open spec fn identifiers_at(js: Seq<char>, p: Seq<char>) -> Option<IdentifiersView> {
    if is_object_at(js, p) {
        Some(
            IdentifiersView {
                isbn10: str_array(js, child(p, "isbn10"@)),
                isbn13: str_array(js, child(p, "isbn13"@)),
                doi: str_array(js, child(p, "doi"@)),
                asin: str_array(js, child(p, "asin"@)),
                sha1: first_str(js, child(p, "sha1"@)),
                sha256: first_str(js, child(p, "sha256"@)),
                open_library: str_array(js, child(p, "ol"@)),
                google_books: str_array(js, child(p, "googlebookid"@)),
                goodreads: str_array(js, child(p, "goodreads"@)),
            },
        )
    } else {
        None
    }
}

/// A classification key whose values are categories.
pub open spec fn key_counts(k: Seq<char>) -> bool {
    k != "collection"@ && !has_prefix(k, "_"@)
}

/// The trimmed strings listed under the counting keys among `keys`, in order.
pub open spec fn category_candidates(js: Seq<char>, p: Seq<char>, keys: Seq<Seq<char>>) -> Seq<
    Seq<char>,
>
    decreases keys.len(),
{
    if keys.len() == 0 {
        seq![]
    } else {
        let prev = category_candidates(js, p, keys.drop_last());
        let k = keys.last();
        if key_counts(k) {
            match str_array(js, child(p, k)) {
                Some(items) => prev + items.map_values(|x: Seq<char>| trim_ws(x)),
                None => prev,
            }
        } else {
            prev
        }
    }
}

/// The non-empty strings of `s`, each at its first occurrence.
pub open spec fn distinct_nonempty(s: Seq<Seq<char>>) -> Seq<Seq<char>>
    decreases s.len(),
{
    if s.len() == 0 {
        seq![]
    } else {
        let prev = distinct_nonempty(s.drop_last());
        let x = s.last();
        if x.len() > 0 && !prev.contains(x) {
            prev.push(x)
        } else {
            prev
        }
    }
}

/// The categories of the classifications object at `p`.
pub open spec fn categories_at(js: Seq<char>, p: Seq<char>) -> Option<Seq<Seq<char>>> {
    match jq(js, p) {
        Some(JsonShallowView::Object(keys)) => none_if_empty(
            distinct_nonempty(category_candidates(js, p, keys)),
        ),
        _ => None,
    }
}

/// The IPFS copy described by the object at `e`, when it names a content id.
pub open spec fn ipfs_entry(js: Seq<char>, e: Seq<char>) -> Option<IpfsInfoView> {
    if is_object_at(js, e) {
        match str_at(js, child(e, "ipfs_cid"@)) {
            Some(cid) => Some(
                IpfsInfoView {
                    cid,
                    from: match str_at(js, child(e, "from"@)) {
                        Some(f) => f,
                        None => "unknown"@,
                    },
                },
            ),
            None => None,
        }
    } else {
        None
    }
}

/// The IPFS copies among the first `k` elements of the array at `p`.
pub open spec fn ipfs_entries(js: Seq<char>, p: Seq<char>, k: nat) -> Seq<IpfsInfoView>
    decreases k,
{
    if k == 0 {
        seq![]
    } else {
        let prev = ipfs_entries(js, p, (k - 1) as nat);
        match ipfs_entry(js, element(p, (k - 1) as nat)) {
            Some(x) => prev.push(x),
            None => prev,
        }
    }
}

/// The IPFS copies listed in the array at `p`.
pub open spec fn ipfs_at(js: Seq<char>, p: Seq<char>) -> Option<Seq<IpfsInfoView>> {
    match jq(js, p) {
        Some(JsonShallowView::Array(n)) => none_if_empty(ipfs_entries(js, p, n)),
        _ => None,
    }
}

/// Each URL of `urls` as a source called `name`.
pub open spec fn labelled(name: Seq<char>, urls: Option<Seq<Seq<char>>>) -> Seq<DownloadSourceView> {
    match urls {
        Some(u) => u.map_values(|x: Seq<char>| DownloadSourceView { name, url: x }),
        None => seq![],
    }
}

/// The download sources of the object at `p`: direct links, then IPFS links.
pub open spec fn sources_at(js: Seq<char>, p: Seq<char>) -> Option<Seq<DownloadSourceView>> {
    if is_object_at(js, p) {
        none_if_empty(
            labelled("direct"@, str_array(js, child(p, "download_urls"@))) + labelled(
                "ipfs"@,
                str_array(js, child(p, "ipfs_urls"@)),
            ),
        )
    } else {
        None
    }
}

/// The torrent paths of the object at `p`.
pub open spec fn torrents_at(js: Seq<char>, p: Seq<char>) -> Option<Seq<Seq<char>>> {
    if is_object_at(js, p) {
        match str_array(js, child(p, "torrent_paths"@)) {
            Some(l) => none_if_empty(l),
            None => None,
        }
    } else {
        None
    }
}

/// Where the file's fields are: `file_unified_data` when the record has it,
/// else the record itself.
pub open spec fn file_base(js: Seq<char>) -> Seq<char> {
    let fp = child(Seq::<char>::empty(), "file_unified_data"@);
    if jq(js, fp) is Some {
        fp
    } else {
        Seq::<char>::empty()
    }
}

/// The non-negative integer at `p`.
pub open spec fn u64_at(js: Seq<char>, p: Seq<char>) -> Option<u64> {
    match jq(js, p) {
        Some(JsonShallowView::Number(Some(u))) => Some(u),
        _ => None,
    }
}

/// The item that the record document `js` describes.
pub open spec fn record_details(js: Seq<char>, md5: Seq<char>) -> ItemDetailsView {
    let f = file_base(js);
    let additional = child(Seq::<char>::empty(), "additional"@);
    let size_bytes = u64_at(js, child(f, "filesize_best"@));
    ItemDetailsView {
        md5,
        title: match str_at(js, child(f, "title_best"@)) {
            Some(t) => t,
            None => "Unknown Title"@,
        },
        author: nonempty_str_at(js, child(f, "author_best"@)),
        format: match nonempty_str_at(js, child(f, "extension_best"@)) {
            Some(e) => Some(unicode_uppercase(e)),
            None => None,
        },
        size: match size_bytes {
            Some(u) => Some(format_filesize_spec(u)),
            None => None,
        },
        size_bytes,
        language: first_str(js, child(f, "language_codes"@)),
        publisher: nonempty_str_at(js, child(f, "publisher_best"@)),
        year: nonempty_str_at(js, child(f, "year_best"@)),
        description: nonempty_str_at(js, child(f, "stripped_description_best"@)),
        cover_url: nonempty_str_at(js, child(f, "cover_url_best"@)),
        content_type: nonempty_str_at(js, child(f, "content_type_best"@)),
        original_filename: nonempty_str_at(js, child(f, "original_filename_best"@)),
        pages: nonempty_str_at(js, child(f, "pages_best"@)),
        edition: nonempty_str_at(js, child(f, "edition_varia_best"@)),
        series: nonempty_str_at(js, child(f, "series_best"@)),
        identifiers: identifiers_at(js, child(f, "identifiers_unified"@)),
        categories: categories_at(js, child(f, "classifications_unified"@)),
        ipfs_cids: ipfs_at(js, child(f, "ipfs_infos"@)),
        download_sources: sources_at(js, additional),
        torrent_paths: torrents_at(js, additional),
    }
}

/// The record's JSON text: the trimmed input, unquoted first when the
/// service sent it as a JSON string.
pub open spec fn record_text(raw: Seq<char>) -> Result<Seq<char>, Seq<char>> {
    let t = trim_ws(raw);
    if has_prefix(t, "\""@) && has_suffix(t, "\""@) {
        match json_string_result(t) {
            Ok(s) => Ok(s),
            Err(e) => Err("Failed to unquote outer JSON string: "@ + e),
        }
    } else {
        Ok(t)
    }
}

/// The outcome of reading a record: the item, or an API error with the
/// parser's message or with the record's own `error` string. A record that
/// parses is read from its text without the JSON whitespace around it.
pub open spec fn record_outcome(raw: Seq<char>, md5: Seq<char>) -> Result<
    ItemDetailsView,
    AppErrorView,
> {
    match record_text(raw) {
        Err(m) => Err(AppErrorView::Api(m)),
        Ok(js) => match json_query_result(js, Seq::<char>::empty()) {
            Err(e) => Err(AppErrorView::Api("Failed to parse record JSON: "@ + e)),
            Ok(_) => {
                let d = strip_json_ws(js);
                match str_at(d, child(Seq::<char>::empty(), "error"@)) {
                    Some(m) => Err(AppErrorView::Api(m)),
                    None => Ok(record_details(d, md5)),
                }
            },
        },
    }
}

fn identifiers_exec(js: &str, p: &str) -> (r: Option<Identifiers>)
    ensures
        match r {
            Some(i) => identifiers_at(js@, p@) == Some(i@),
            None => identifiers_at(js@, p@) is None,
        },
{
    if !is_object_at_exec(js, p) {
        return None;
    }
    Some(
        Identifiers {
            isbn10: str_array_exec(js, child_exec(p, "isbn10").as_str()),
            isbn13: str_array_exec(js, child_exec(p, "isbn13").as_str()),
            doi: str_array_exec(js, child_exec(p, "doi").as_str()),
            asin: str_array_exec(js, child_exec(p, "asin").as_str()),
            sha1: first_str_exec(js, child_exec(p, "sha1").as_str()),
            sha256: first_str_exec(js, child_exec(p, "sha256").as_str()),
            open_library: str_array_exec(js, child_exec(p, "ol").as_str()),
            google_books: str_array_exec(js, child_exec(p, "googlebookid").as_str()),
            goodreads: str_array_exec(js, child_exec(p, "goodreads").as_str()),
        },
    )
}

/// Appends the trimmed strings of the array at `cp` to `out`, keeping only
/// non-empty strings not yet there.
fn add_categories(js: &str, cp: &str, n: usize, out: &mut Vec<String>, Ghost(before): Ghost<
    Seq<Seq<char>>,
>)
    requires
        jq(js@, cp@) == Some(JsonShallowView::Array(n as nat)),
        svec(old(out)@) == distinct_nonempty(before),
    ensures
        svec(final(out)@) == distinct_nonempty(
            before + strings_in(js@, cp@, n as nat).map_values(|x: Seq<char>| trim_ws(x)),
        ),
{
    let mut j: usize = 0;
    while j < n
        invariant
            0 <= j <= n,
            svec(out@) == distinct_nonempty(
                before + strings_in(js@, cp@, j as nat).map_values(|x: Seq<char>| trim_ws(x)),
            ),
        decreases n - j,
    {
        let e = element_exec(cp, j);
        let ghost cur = before + strings_in(js@, cp@, j as nat).map_values(
            |x: Seq<char>| trim_ws(x),
        );
        let ghost nxt = before + strings_in(js@, cp@, (j + 1) as nat).map_values(
            |x: Seq<char>| trim_ws(x),
        );
        match str_at_exec(js, e.as_str()) {
            Some(s) => {
                let st = trim(s.as_str());
                proof {
                    assert(nxt =~= cur.push(st@));
                    assert(nxt.drop_last() =~= cur);
                }
                if !st.as_str().is_empty() && !vec_contains(out, st.as_str()) {
                    let ghost old_out = out@;
                    out.push(st);
                    assert(svec(out@) =~= svec(old_out).push(st@));
                }
            },
            None => {
                assert(nxt =~= cur);
            },
        }
        j += 1;
    }
}

fn categories_exec(js: &str, p: &str) -> (r: Option<Vec<String>>)
    ensures
        osvec(r) == categories_at(js@, p@),
{
    let keys = match jq_exec(js, p) {
        Some(JsonShallow::Object(k)) => k,
        _ => {
            return None;
        },
    };
    let ghost kv = keys@.map_values(|k: String| k@);
    let mut out: Vec<String> = Vec::new();
    let mut i: usize = 0;
    while i < keys.len()
        invariant
            0 <= i <= keys.len(),
            kv == keys@.map_values(|k: String| k@),
            jq(js@, p@) == Some(JsonShallowView::Object(kv)),
            svec(out@) == distinct_nonempty(category_candidates(js@, p@, kv.take(i as int))),
        decreases keys.len() - i,
    {
        let k = keys[i].as_str();
        let ghost prev = category_candidates(js@, p@, kv.take(i as int));
        proof {
            assert(kv.take(i + 1).drop_last() =~= kv.take(i as int));
            assert(kv.take(i + 1).last() == k@);
        }
        if !str_eq(k, "collection") && !str_starts_with(k, "_") {
            let cp = child_exec(p, k);
            match jq_exec(js, cp.as_str()) {
                Some(JsonShallow::Array(n)) => {
                    add_categories(js, cp.as_str(), n, &mut out, Ghost(prev));
                },
                _ => {},
            }
        }
        i += 1;
    }
    assert(kv.take(keys.len() as int) =~= kv);
    if out.len() == 0 {
        None
    } else {
        Some(out)
    }
}

fn ipfs_entry_exec(js: &str, e: &str) -> (r: Option<IpfsInfo>)
    ensures
        match r {
            Some(x) => ipfs_entry(js@, e@) == Some(x@),
            None => ipfs_entry(js@, e@) is None,
        },
{
    if !is_object_at_exec(js, e) {
        return None;
    }
    match str_at_exec(js, child_exec(e, "ipfs_cid").as_str()) {
        Some(cid) => {
            let from = match str_at_exec(js, child_exec(e, "from").as_str()) {
                Some(f) => f,
                None => String::from_str("unknown"),
            };
            Some(IpfsInfo { cid, from })
        },
        None => None,
    }
}

fn ipfs_exec(js: &str, p: &str) -> (r: Option<Vec<IpfsInfo>>)
    ensures
        match r {
            Some(v) => ipfs_at(js@, p@) == Some(ipfs_view(v@)),
            None => ipfs_at(js@, p@) is None,
        },
{
    let n = match jq_exec(js, p) {
        Some(JsonShallow::Array(n)) => n,
        _ => {
            return None;
        },
    };
    let mut out: Vec<IpfsInfo> = Vec::new();
    let mut i: usize = 0;
    while i < n
        invariant
            0 <= i <= n,
            ipfs_view(out@) == ipfs_entries(js@, p@, i as nat),
        decreases n - i,
    {
        let e = element_exec(p, i);
        match ipfs_entry_exec(js, e.as_str()) {
            Some(x) => {
                let ghost old_out = out@;
                out.push(x);
                assert(ipfs_view(out@) =~= ipfs_view(old_out).push(x@));
            },
            None => {},
        }
        i += 1;
    }
    if out.len() == 0 {
        None
    } else {
        Some(out)
    }
}

/// Appends each URL of `urls` to `out` as a source called `name`.
fn push_labelled(out: &mut Vec<DownloadSource>, name: &str, urls: Option<Vec<String>>)
    ensures
        sources_view(final(out)@) == sources_view(old(out)@) + labelled(name@, osvec(urls)),
{
    let u = match urls {
        Some(u) => u,
        None => {
            assert(sources_view(old(out)@) + seq![] =~= sources_view(old(out)@));
            return;
        },
    };
    let ghost start = sources_view(out@);
    let ghost lab = labelled(name@, Some(svec(u@)));
    let mut i: usize = 0;
    while i < u.len()
        invariant
            0 <= i <= u.len(),
            lab == labelled(name@, Some(svec(u@))),
            sources_view(out@) == start + lab.take(i as int),
        decreases u.len() - i,
    {
        let ghost old_out = out@;
        out.push(DownloadSource { name: copy_str(name), url: copy_str(u[i].as_str()) });
        assert(lab.take(i + 1) =~= lab.take(i as int).push(lab[i as int]));
        assert(sources_view(out@) =~= sources_view(old_out).push(lab[i as int]));
        i += 1;
    }
    assert(lab.take(u.len() as int) =~= lab);
}

fn sources_exec(js: &str, p: &str) -> (r: Option<Vec<DownloadSource>>)
    ensures
        match r {
            Some(v) => sources_at(js@, p@) == Some(sources_view(v@)),
            None => sources_at(js@, p@) is None,
        },
{
    if !is_object_at_exec(js, p) {
        return None;
    }
    let direct = str_array_exec(js, child_exec(p, "download_urls").as_str());
    let ipfs = str_array_exec(js, child_exec(p, "ipfs_urls").as_str());
    let mut out: Vec<DownloadSource> = Vec::new();
    push_labelled(&mut out, "direct", direct);
    push_labelled(&mut out, "ipfs", ipfs);
    assert(sources_view(Seq::<DownloadSource>::empty()) =~= Seq::<DownloadSourceView>::empty());
    assert(Seq::<DownloadSourceView>::empty() + labelled("direct"@, osvec(direct)) =~= labelled(
        "direct"@,
        osvec(direct),
    ));
    if out.len() == 0 {
        None
    } else {
        Some(out)
    }
}

fn torrents_exec(js: &str, p: &str) -> (r: Option<Vec<String>>)
    ensures
        osvec(r) == torrents_at(js@, p@),
{
    if !is_object_at_exec(js, p) {
        return None;
    }
    match str_array_exec(js, child_exec(p, "torrent_paths").as_str()) {
        Some(l) => if l.len() == 0 {
            None
        } else {
            Some(l)
        },
        None => None,
    }
}

/// An ASCII extension of the record `js` is upper-cased letter by letter.
pub open spec fn ascii_format_raised(js: Seq<char>) -> bool {
    match nonempty_str_at(js, child(file_base(js), "extension_best"@)) {
        Some(e) => all_ascii(e) ==> unicode_uppercase(e) == e.map_values(|c: char| ascii_upper(c)),
        None => true,
    }
}

/// The item that the record document `js` describes, read field by field.
pub fn details_from_record(js: &str, md5: &str) -> (d: ItemDetails)
    ensures
        d@ == record_details(js@, md5@),
        ascii_format_raised(js@),
{
    let root = String::new();
    let fp = child_exec(root.as_str(), "file_unified_data");
    let f = if jq_exec(js, fp.as_str()).is_some() {
        fp
    } else {
        String::new()
    };
    let f = f.as_str();
    let additional = child_exec(root.as_str(), "additional");
    let size_bytes = match jq_exec(js, child_exec(f, "filesize_best").as_str()) {
        Some(JsonShallow::Number(Some(u))) => Some(u),
        _ => None,
    };
    let size = match size_bytes {
        Some(u) => Some(format_filesize(u)),
        None => None,
    };
    let title = match str_at_exec(js, child_exec(f, "title_best").as_str()) {
        Some(t) => t,
        None => String::from_str("Unknown Title"),
    };
    let format = match nonempty_str_at_exec(js, child_exec(f, "extension_best").as_str()) {
        Some(e) => Some(to_uppercase(e.as_str())),
        None => None,
    };
    ItemDetails {
        md5: copy_str(md5),
        title,
        author: nonempty_str_at_exec(js, child_exec(f, "author_best").as_str()),
        format,
        size,
        size_bytes,
        language: first_str_exec(js, child_exec(f, "language_codes").as_str()),
        publisher: nonempty_str_at_exec(js, child_exec(f, "publisher_best").as_str()),
        year: nonempty_str_at_exec(js, child_exec(f, "year_best").as_str()),
        description: nonempty_str_at_exec(js, child_exec(f, "stripped_description_best").as_str()),
        cover_url: nonempty_str_at_exec(js, child_exec(f, "cover_url_best").as_str()),
        content_type: nonempty_str_at_exec(js, child_exec(f, "content_type_best").as_str()),
        original_filename: nonempty_str_at_exec(
            js,
            child_exec(f, "original_filename_best").as_str(),
        ),
        pages: nonempty_str_at_exec(js, child_exec(f, "pages_best").as_str()),
        edition: nonempty_str_at_exec(js, child_exec(f, "edition_varia_best").as_str()),
        series: nonempty_str_at_exec(js, child_exec(f, "series_best").as_str()),
        identifiers: identifiers_exec(js, child_exec(f, "identifiers_unified").as_str()),
        categories: categories_exec(js, child_exec(f, "classifications_unified").as_str()),
        ipfs_cids: ipfs_exec(js, child_exec(f, "ipfs_infos").as_str()),
        download_sources: sources_exec(js, additional.as_str()),
        torrent_paths: torrents_exec(js, additional.as_str()),
    }
}

/// A record text whose only whitespace around the document is JSON
/// whitespace, and whose document begins with `{`.
pub open spec fn is_bare_record(x: Seq<char>) -> bool {
    strip_json_ws(x) == trim_ws(x) && trim_ws(x).len() > 0 && trim_ws(x)[0] == '{'
}

/// A string literal is left alone by trimming and begins and ends with a
/// quote; a bare record is read from its trimmed text.
proof fn lemma_quoted_text(x: Seq<char>)
    ensures
        trim_ws(json_quoted(x)) == json_quoted(x),
        has_prefix(json_quoted(x), "\""@),
        has_suffix(json_quoted(x), "\""@),
        is_bare_record(x) ==> record_text(x) == Ok::<Seq<char>, Seq<char>>(trim_ws(x)),
{
    reveal_strlit("\"");
    let q = json_quoted(x);
    assert(q[0] == '"');
    assert(q[q.len() - 1] == '"');
    assert(trim_start_by(q, false) == q);
    assert(trim_end_by(q, false) == q);
    assert(q.subrange(0, 1) =~= "\""@);
    assert(q.subrange(q.len() - 1, q.len() as int) =~= "\""@);
    if is_bare_record(x) {
        let t = trim_ws(x);
        assert(!has_prefix(t, "\""@)) by {
            if has_prefix(t, "\""@) {
                assert(t.subrange(0, 1)[0] == t[0]);
            }
        }
    }
}

/// Reads the Elasticsearch record of the item `md5`, as the service sent it
/// (possibly wrapped in a JSON string).
pub fn parse_elasticsearch_record(raw_json: &str, md5: &str) -> (r: Result<ItemDetails, AppError>)
    ensures
        match r {
            Ok(d) => record_outcome(raw_json@, md5@) == Ok::<ItemDetailsView, AppErrorView>(d@),
            Err(e) => record_outcome(raw_json@, md5@) == Err::<ItemDetailsView, AppErrorView>(
                e@,
            ),
        },
        r is Ok ==> (record_text(raw_json@) matches Ok(js) && ascii_format_raised(
            strip_json_ws(js),
        )),
        forall|x: Seq<char>|
            #[trigger] json_quoted(x) == raw_json@ && is_bare_record(x) ==> ((record_outcome(
                raw_json@,
                md5@,
            ) is Ok) == (record_outcome(x, md5@) is Ok) && (record_outcome(raw_json@, md5@) is Ok
                ==> record_outcome(raw_json@, md5@) == record_outcome(x, md5@))),
{
    let t = trim(raw_json);
    let quoted = str_starts_with(t.as_str(), "\"") && str_ends_with(t.as_str(), "\"");
    proof {
        assert forall|x: Seq<char>| #[trigger]
            json_quoted(x) == raw_json@ && is_bare_record(x) implies t@ == json_quoted(x) && quoted
            && record_text(x) == Ok::<Seq<char>, Seq<char>>(trim_ws(x)) by {
            lemma_quoted_text(x);
        }
    }
    let js = if quoted {
        match json_string(t.as_str()) {
            Ok(s) => s,
            Err(e) => {
                let mut m = String::from_str("Failed to unquote outer JSON string: ");
                append(&mut m, e.as_str());
                return Err(AppError::Api(m));
            },
        }
    } else {
        t
    };
    proof {
        assert forall|x: Seq<char>| #[trigger]
            json_quoted(x) == raw_json@ && is_bare_record(x) implies js@ == x && record_text(
                raw_json@,
            ) == Ok::<Seq<char>, Seq<char>>(x) by {
            assert(t@ == json_quoted(x));
        }
    }
    let root = String::new();
    match json_query(js.as_str(), root.as_str()) {
        Err(e) => {
            let mut m = String::from_str("Failed to parse record JSON: ");
            append(&mut m, e.as_str());
            return Err(AppError::Api(m));
        },
        Ok(_) => {},
    }
    let d = strip_json(js.as_str());
    proof {
        assert forall|x: Seq<char>| #[trigger]
            json_quoted(x) == raw_json@ && is_bare_record(x) implies record_outcome(raw_json@, md5@)
            == record_outcome(x, md5@) by {
            lemma_strip_json_idempotent(x);
        }
    }
    match str_at_exec(d.as_str(), child_exec(root.as_str(), "error").as_str()) {
        Some(m) => {
            return Err(AppError::Api(m));
        },
        None => {},
    }
    Ok(details_from_record(d.as_str(), md5))
}


proof fn lemma_distinct_nonempty(s: Seq<Seq<char>>)
    ensures
        distinct_nonempty(s).no_duplicates(),
        forall|k: int|
            0 <= k < distinct_nonempty(s).len() ==> (#[trigger] distinct_nonempty(s)[k]).len() > 0,
    decreases s.len(),
{
    if s.len() > 0 {
        let prev = distinct_nonempty(s.drop_last());
        lemma_distinct_nonempty(s.drop_last());
        let x = s.last();
        if x.len() > 0 && !prev.contains(x) {
            let r = prev.push(x);
            assert forall|i: int, j: int|
                0 <= i < r.len() && 0 <= j < r.len() && i != j implies r[i] != r[j] by {
                if i < prev.len() && j < prev.len() {
                    assert(r[i] == prev[i] && r[j] == prev[j]);
                } else if i < prev.len() {
                    assert(r[i] == prev[i]);
                } else if j < prev.len() {
                    assert(r[j] == prev[j]);
                }
            }
            assert forall|k: int| 0 <= k < r.len() implies (#[trigger] r[k]).len() > 0 by {
                if k < prev.len() {
                    assert(r[k] == prev[k]);
                }
            }
        }
    }
}

/// The categories of a record are each listed once, and none is empty.
pub proof fn lemma_categories_distinct(raw: Seq<char>, md5: Seq<char>)
    ensures
        record_outcome(raw, md5) matches Ok(d) ==> (d.categories matches Some(c) ==> c.no_duplicates()
            && forall|k: int| 0 <= k < c.len() ==> (#[trigger] c[k]).len() > 0),
{
    match record_text(raw) {
        Ok(t) => {
            let js = strip_json_ws(t);
            let p = child(file_base(js), "classifications_unified"@);
            match jq(js, p) {
                Some(JsonShallowView::Object(keys)) => {
                    lemma_distinct_nonempty(category_candidates(js, p, keys));
                },
                _ => {},
            }
        },
        Err(_) => {},
    }
}

} // verus!
