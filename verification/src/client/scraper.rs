//! Parsers for the HTML pages of Anna's Archive and of Sci-Hub.
use vstd::prelude::*;

use crate::domain::book::{Book, BookView, Paper, PaperView, ov};
use crate::errors::AppError;
use crate::html::{
    DomNode, DomNodeView, attr, attr_exec, dom_view, element_among_ancestors,
    element_among_ancestors_exec, element_ancestor, element_ancestor_exec, html_model, scan_html,
    select_all, select_all_exec, select_within, select_within_exec, strings_view, text_of,
    text_of_exec, visible_text_exec, visible_text_of,
};
use crate::pattern::{first_group, group, regex_all, regex_first};
use crate::text::{
    find, append, chars_of, concat, contains, copy_str, has_prefix, split, split_exec,
    str_contains, str_starts_with, string_of, strip_prefixes, strip_prefixes_exec, strip_trailing,
    trim, trim_end_char, trim_ws, unicode_uppercase, to_uppercase,
};

verus! {

// ---------------------------------------------------------------------------
// Metadata lines ("English [en] · EPUB · 4.2MB · 2023")
// ---------------------------------------------------------------------------

/// A file format named as a whole word.
pub const FORMAT_PATTERN: &'static str = "(?i)\\b(EPUB|PDF|MOBI|AZW3|AZW|DJVU|CBZ|CBR|FB2|DOCX?|TXT|RTF)\\b";

/// A file size such as `4.2MB`.
pub const SIZE_PATTERN: &'static str = "(?i)\\d+\\.?\\d*\\s*(MB|KB|GB|TB|B)\\b";

/// A year from 1900 to 2099 as a whole word.
pub const YEAR_PATTERN: &'static str = "\\b(19\\d\\d|20\\d\\d)\\b";

/// A piece of a metadata line as it is read: trimmed (twice, as the pieces
/// are trimmed when split and again when examined).
pub open spec fn twice_trimmed(p: Seq<char>) -> Seq<char> {
    trim_ws(trim_ws(p))
}

/// The pieces of a metadata line: split at `·`, each trimmed.
pub open spec fn meta_pieces(meta: Seq<char>) -> Seq<Seq<char>> {
    split(meta, seq!['\u{b7}']).map_values(|p: Seq<char>| twice_trimmed(p))
}

/// The first piece is a language: it holds both `[` and `]`.
pub open spec fn first_is_language(p: Seq<Seq<char>>) -> bool {
    p.len() > 0 && contains(p[0], seq!['[']) && contains(p[0], seq![']'])
}

/// Group `g` of the first match of `pattern` among the pieces from `k` on.
pub open spec fn first_group_from(p: Seq<Seq<char>>, pattern: Seq<char>, g: int, k: int) -> Option<
    Seq<char>,
>
    decreases p.len() - k,
{
    if k < 0 || k >= p.len() {
        None
    } else {
        match group(regex_first(pattern, p[k]), g) {
            Some(m) => Some(m),
            None => first_group_from(p, pattern, g, k + 1),
        }
    }
}

/// Language, format, size and year read from a metadata line: the language is
/// the first piece without its check mark when it names a language code; the
/// format (upper-cased), size and year come from the first of the other
/// pieces in which each is found.
pub open spec fn meta_spec(meta: Seq<char>) -> (
    Option<Seq<char>>,
    Option<Seq<char>>,
    Option<Seq<char>>,
    Option<Seq<char>>,
) {
    let p = meta_pieces(meta);
    let lang = first_is_language(p);
    let start: int = if lang {
        1
    } else {
        0
    };
    (
        if lang {
            Some(trim_ws(strip_prefixes(p[0], seq!['\u{2705}'])))
        } else {
            None
        },
        match first_group_from(p, FORMAT_PATTERN@, 1, start) {
            Some(f) => Some(unicode_uppercase(f)),
            None => None,
        },
        first_group_from(p, SIZE_PATTERN@, 0, start),
        first_group_from(p, YEAR_PATTERN@, 0, start),
    )
}

pub open spec fn strings_seq(v: Seq<String>) -> Seq<Seq<char>> {
    v.map_values(|s: String| s@)
}

/// Group `g` of the first match of `pattern` among `parts[k..]`.
fn first_group_from_exec(parts: &Vec<String>, pattern: &str, g: usize, start: usize) -> (r: Option<
    String,
>)
    ensures
        ov(r) == first_group_from(strings_seq(parts@), pattern@, g as int, start as int),
{
    let ghost p = strings_seq(parts@);
    let mut k = start;
    while k < parts.len()
        invariant
            p == strings_seq(parts@),
            start <= k,
            first_group_from(p, pattern@, g as int, start as int) == first_group_from(
                p,
                pattern@,
                g as int,
                k as int,
            ),
        decreases parts@.len() - k,
    {
        match first_group(pattern, parts[k].as_str(), g) {
            Some(m) => {
                return Some(m);
            },
            None => {},
        }
        k += 1;
    }
    None
}

/// The pieces of a metadata line.
fn meta_pieces_exec(meta: &str) -> (r: Vec<String>)
    ensures
        strings_seq(r@) == meta_pieces(meta@),
{
    proof {
        reveal_strlit("\u{b7}");
        assert("\u{b7}"@ =~= seq!['\u{b7}']);
    }
    let raw = split_exec(meta, "\u{b7}");
    let ghost sp = split(meta@, seq!['\u{b7}']);
    let mut parts: Vec<String> = Vec::new();
    let mut k: usize = 0;
    while k < raw.len()
        invariant
            sp == split(meta@, seq!['\u{b7}']),
            raw@.len() == sp.len(),
            forall|j: int| 0 <= j < raw@.len() ==> (#[trigger] raw@[j])@ == sp[j],
            0 <= k <= raw@.len(),
            parts@.len() == k,
            forall|j: int| 0 <= j < k ==> (#[trigger] parts@[j])@ == twice_trimmed(sp[j]),
        decreases raw@.len() - k,
    {
        let once = trim(raw[k].as_str());
        let piece = trim(once.as_str());
        parts.push(piece);
        k += 1;
    }
    assert(strings_seq(parts@) =~= meta_pieces(meta@));
    parts
}

/// The language of the first piece, when it names one.
fn meta_language(parts: &Vec<String>) -> (r: Option<String>)
    ensures
        ov(r) == (if first_is_language(strings_seq(parts@)) {
            Some(trim_ws(strip_prefixes(strings_seq(parts@)[0], seq!['\u{2705}'])))
        } else {
            None
        }),
{
    proof {
        reveal_strlit("[");
        reveal_strlit("]");
        assert("["@ =~= seq!['[']);
        assert("]"@ =~= seq![']']);
    }
    if parts.len() > 0 && str_contains(parts[0].as_str(), "[") && str_contains(
        parts[0].as_str(),
        "]",
    ) {
        assert(strings_seq(parts@)[0] == parts@[0]@);
        let v = chars_of(parts[0].as_str());
        let check = vec!['\u{2705}'];
        assert(check@ =~= seq!['\u{2705}']);
        let from = strip_prefixes_exec(&v, &check);
        let rest = string_of(&v, from, v.len());
        assert(rest@ =~= v@.skip(from as int));
        Some(trim(rest.as_str()))
    } else {
        proof {
            if parts@.len() > 0 {
                assert(strings_seq(parts@)[0] == parts@[0]@);
            }
        }
        None
    }
}

/// Splits a metadata line into language, format, size and year.
pub fn parse_meta_parts(meta: &str) -> (r: (Option<String>, Option<String>, Option<String>, Option<String>))
    ensures
        (ov(r.0), ov(r.1), ov(r.2), ov(r.3)) == meta_spec(meta@),
{
    let parts = meta_pieces_exec(meta);
    let language = meta_language(&parts);
    let start: usize = if language.is_some() {
        1
    } else {
        0
    };
    let format = match first_group_from_exec(&parts, FORMAT_PATTERN, 1, start) {
        Some(f) => Some(to_uppercase(f.as_str())),
        None => None,
    };
    let size = first_group_from_exec(&parts, SIZE_PATTERN, 0, start);
    let year = first_group_from_exec(&parts, YEAR_PATTERN, 0, start);
    (language, format, size, year)
}

// ---------------------------------------------------------------------------
// Search result cards
// ---------------------------------------------------------------------------

/// The CSS selectors that the card parsers ask about, by number.
pub open spec fn card_selectors() -> Seq<Seq<char>> {
    seq![
        "a[href^='/md5/']"@,
        "a.js-vim-focus"@,
        "div.max-w-full a[href^='/md5/']"@,
        "h3"@,
        "a[href^='/search']"@,
        "span.icon-\\[mdi--user-edit\\]"@,
        "span.icon-\\[mdi--company\\]"@,
        "div.text-gray-800"@,
        "div.text-gray-500"@,
        "div.line-clamp-\\[2\\]"@,
        "img"@,
    ]
}

/// The attributes that the card parsers read, by number: `href` and `src`.
pub open spec fn card_attrs() -> Seq<Seq<char>> {
    seq!["href"@, "src"@]
}

fn card_selector_list() -> (r: Vec<String>)
    ensures
        strings_view(r@) == card_selectors(),
{
    let mut r: Vec<String> = Vec::new();
    r.push(String::from_str("a[href^='/md5/']"));
    r.push(String::from_str("a.js-vim-focus"));
    r.push(String::from_str("div.max-w-full a[href^='/md5/']"));
    r.push(String::from_str("h3"));
    r.push(String::from_str("a[href^='/search']"));
    r.push(String::from_str("span.icon-\\[mdi--user-edit\\]"));
    r.push(String::from_str("span.icon-\\[mdi--company\\]"));
    r.push(String::from_str("div.text-gray-800"));
    r.push(String::from_str("div.text-gray-500"));
    r.push(String::from_str("div.line-clamp-\\[2\\]"));
    r.push(String::from_str("img"));
    assert(strings_view(r@) =~= card_selectors());
    r
}

fn card_attr_list() -> (r: Vec<String>)
    ensures
        strings_view(r@) == card_attrs(),
{
    let mut r: Vec<String> = Vec::new();
    r.push(String::from_str("href"));
    r.push(String::from_str("src"));
    assert(strings_view(r@) =~= card_attrs());
    r
}

/// The prefix of links to records.
pub open spec fn md5_prefix() -> Seq<char> {
    "/md5/"@
}

/// The position views of a list of node positions.
pub open spec fn ix(v: Seq<usize>) -> Seq<int> {
    v.map_values(|x: usize| x as int)
}

/// The first of `idx[k..]` whose trimmed text is not empty, as that text;
/// empty when there is none.
pub open spec fn first_nonempty_text(n: Seq<DomNodeView>, idx: Seq<int>, k: int) -> Seq<char>
    decreases idx.len() - k,
{
    if k < 0 || k >= idx.len() {
        seq![]
    } else if trim_ws(text_of(n, idx[k])).len() > 0 {
        trim_ws(text_of(n, idx[k]))
    } else {
        first_nonempty_text(n, idx, k + 1)
    }
}

/// The places a card's title is looked for, in order.
pub open spec fn title_candidates(n: Seq<DomNodeView>, c: int) -> Seq<int> {
    select_within(n, c, 1) + select_within(n, c, 2) + select_within(n, c, 3) + select_within(
        n,
        c,
        0,
    )
}

/// The title of the card whose container is `c`.
pub open spec fn card_title(n: Seq<DomNodeView>, c: int) -> Seq<char> {
    first_nonempty_text(n, title_candidates(n, c), 0)
}

/// The text of the first search link among `links[k..]` that holds an icon
/// matching selector `icon` and has a non-empty trimmed text.
pub open spec fn first_icon_link(n: Seq<DomNodeView>, links: Seq<int>, icon: int, k: int) -> Option<
    Seq<char>,
>
    decreases links.len() - k,
{
    if k < 0 || k >= links.len() {
        None
    } else if select_within(n, links[k], icon).len() > 0 && trim_ws(text_of(n, links[k])).len()
        > 0 {
        Some(trim_ws(text_of(n, links[k])))
    } else {
        first_icon_link(n, links, icon, k + 1)
    }
}

/// The authors of the card whose container is `c`: the first search link
/// marked with the author icon.
pub open spec fn card_authors(n: Seq<DomNodeView>, c: int) -> Option<Seq<char>> {
    first_icon_link(n, select_within(n, c, 4), 5, 0)
}

/// The publisher of the card whose container is `c`: the first search link
/// marked with the company icon.
pub open spec fn card_publisher(n: Seq<DomNodeView>, c: int) -> Option<Seq<char>> {
    first_icon_link(n, select_within(n, c, 4), 6, 0)
}

/// A text that looks like a metadata line.
pub open spec fn looks_like_meta(t: Seq<char>) -> bool {
    contains(t, seq!['\u{b7}']) || contains(t, "MB"@) || contains(t, "KB"@) || contains(t, "EPUB"@)
        || contains(t, "PDF"@)
}

/// The metadata read from the first of `cands[k..]` whose visible text looks
/// like a metadata line and yields a language, a format or a size.
pub open spec fn first_meta(n: Seq<DomNodeView>, cands: Seq<int>, k: int) -> (
    Option<Seq<char>>,
    Option<Seq<char>>,
    Option<Seq<char>>,
    Option<Seq<char>>,
)
    decreases cands.len() - k,
{
    if k < 0 || k >= cands.len() {
        (None, None, None, None)
    } else {
        let t = visible_text_of(n, cands[k]);
        let m = meta_spec(t);
        if looks_like_meta(t) && (m.0 is Some || m.1 is Some || m.2 is Some) {
            m
        } else {
            first_meta(n, cands, k + 1)
        }
    }
}

/// The places a card's metadata line is looked for, in order.
pub open spec fn meta_candidates(n: Seq<DomNodeView>, c: int) -> Seq<int> {
    select_within(n, c, 7) + select_within(n, c, 8) + select_within(n, c, 9)
}

/// The metadata of the card whose container is `c`.
pub open spec fn card_meta(n: Seq<DomNodeView>, c: int) -> (
    Option<Seq<char>>,
    Option<Seq<char>>,
    Option<Seq<char>>,
    Option<Seq<char>>,
) {
    first_meta(n, meta_candidates(n, c), 0)
}

/// `https://` and the mirror without trailing slashes.
pub open spec fn site_root(base: Seq<char>) -> Seq<char> {
    "https://"@ + strip_trailing(base, '/')
}

/// An image source that can be a cover.
pub open spec fn cover_source(s: Seq<char>) -> bool {
    contains(s, "/covers/"@) || has_prefix(s, "http"@) || has_prefix(s, "/"@)
}

/// The cover of the first image among `imgs[k..]` whose source can be a cover,
/// made absolute on the mirror.
pub open spec fn first_cover(n: Seq<DomNodeView>, imgs: Seq<int>, k: int, base: Seq<char>) -> Option<
    Seq<char>,
>
    decreases imgs.len() - k,
{
    if k < 0 || k >= imgs.len() {
        None
    } else {
        match attr(n, imgs[k], 1) {
            Some(s) => if cover_source(s) {
                if has_prefix(s, "http"@) {
                    Some(s)
                } else {
                    Some(site_root(base) + s)
                }
            } else {
                first_cover(n, imgs, k + 1, base)
            },
            None => first_cover(n, imgs, k + 1, base),
        }
    }
}

/// The cover of the card whose container is `c`.
pub open spec fn card_cover(n: Seq<DomNodeView>, c: int, base: Seq<char>) -> Option<Seq<char>> {
    first_cover(n, select_within(n, c, 10), 0, base)
}

/// Image `i` has a source that can be a cover.
pub open spec fn has_cover_source(n: Seq<DomNodeView>, i: int) -> bool {
    attr(n, i, 1) matches Some(s) && cover_source(s)
}

proof fn lemma_site_root_http(base: Seq<char>, s: Seq<char>)
    ensures
        has_prefix(site_root(base) + s, "http"@),
        site_root(base) + s == "https://"@ + strip_trailing(base, '/') + s,
{
    reveal_strlit("http");
    reveal_strlit("https://");
    assert((site_root(base) + s).subrange(0, 4) =~= "http"@);
}

/// The cover found among `imgs[k..]` is made from the first image whose
/// source can be a cover: that source itself when it begins with `http`,
/// otherwise `https://`, the mirror without trailing slashes and the source;
/// so every cover found begins with `http`.
pub proof fn lemma_first_cover(n: Seq<DomNodeView>, imgs: Seq<int>, k: int, base: Seq<char>)
    requires
        0 <= k,
    ensures
        first_cover(n, imgs, k, base) matches Some(u) ==> has_prefix(u, "http"@),
        first_cover(n, imgs, k, base) matches Some(u) ==> exists|j: int|
            #![trigger imgs[j]]
            k <= j < imgs.len() && has_cover_source(n, imgs[j]) && (forall|i: int|
                k <= i < j ==> !has_cover_source(n, #[trigger] imgs[i])) && u == (if has_prefix(
                attr(n, imgs[j], 1).unwrap(),
                "http"@,
            ) {
                attr(n, imgs[j], 1).unwrap()
            } else {
                "https://"@ + strip_trailing(base, '/') + attr(n, imgs[j], 1).unwrap()
            }),
        first_cover(n, imgs, k, base) is None ==> forall|i: int|
            k <= i < imgs.len() ==> !has_cover_source(n, #[trigger] imgs[i]),
    decreases imgs.len() - k,
{
    if k < imgs.len() {
        lemma_first_cover(n, imgs, k + 1, base);
        match attr(n, imgs[k], 1) {
            Some(s) => {
                lemma_site_root_http(base, s);
                if cover_source(s) {
                    let u = first_cover(n, imgs, k, base).unwrap();
                    assert(k <= k < imgs.len() && has_cover_source(n, imgs[k]));
                } else {
                    match first_cover(n, imgs, k + 1, base) {
                        Some(u) => {
                            let j = choose|j: int|
                                #![trigger imgs[j]]
                                k + 1 <= j < imgs.len() && has_cover_source(n, imgs[j]) && (forall|
                                    i: int,
                                | k + 1 <= i < j ==> !has_cover_source(n, #[trigger] imgs[i]))
                                    && u == (if has_prefix(attr(n, imgs[j], 1).unwrap(), "http"@) {
                                    attr(n, imgs[j], 1).unwrap()
                                } else {
                                    "https://"@ + strip_trailing(base, '/') + attr(
                                        n,
                                        imgs[j],
                                        1,
                                    ).unwrap()
                                });
                            assert(imgs[j] == imgs[j]);
                        },
                        None => {},
                    }
                }
            },
            None => {
                match first_cover(n, imgs, k + 1, base) {
                    Some(u) => {
                        let j = choose|j: int|
                            #![trigger imgs[j]]
                            k + 1 <= j < imgs.len() && has_cover_source(n, imgs[j]) && (forall|
                                i: int,
                            | k + 1 <= i < j ==> !has_cover_source(n, #[trigger] imgs[i])) && u
                                == (if has_prefix(attr(n, imgs[j], 1).unwrap(), "http"@) {
                                attr(n, imgs[j], 1).unwrap()
                            } else {
                                "https://"@ + strip_trailing(base, '/') + attr(
                                    n,
                                    imgs[j],
                                    1,
                                ).unwrap()
                            });
                        assert(imgs[j] == imgs[j]);
                    },
                    None => {},
                }
            },
        }
    }
}

/// The hash, container and title of the card around link `i`; `None` when the
/// link has no `/md5/` hash, no parent element, or the card has no title.
pub open spec fn card_core(n: Seq<DomNodeView>, i: int) -> Option<(Seq<char>, int, Seq<char>)> {
    match attr(n, i, 0) {
        None => None,
        Some(href) => if !has_prefix(href, md5_prefix()) {
            None
        } else {
            let hash = strip_prefixes(href, md5_prefix());
            if hash.len() == 0 {
                None
            } else {
                match element_ancestor(n, i) {
                    None => None,
                    Some(p) => {
                        let c = match element_among_ancestors(n, p, 3) {
                            Some(a) => a,
                            None => p,
                        };
                        let title = card_title(n, c);
                        if title.len() == 0 {
                            None
                        } else {
                            Some((hash, c, title))
                        }
                    },
                }
            }
        },
    }
}

/// The record URL of a hash on a mirror.
pub open spec fn record_url(base: Seq<char>, hash: Seq<char>) -> Seq<char> {
    site_root(base) + md5_prefix() + hash
}

/// The book described by the card around link `i`.
pub open spec fn book_card(n: Seq<DomNodeView>, i: int, base: Seq<char>) -> Option<BookView> {
    match card_core(n, i) {
        None => None,
        Some((hash, c, title)) => {
            let m = card_meta(n, c);
            Some(
                BookView {
                    hash,
                    title,
                    authors: card_authors(n, c),
                    publisher: card_publisher(n, c),
                    language: m.0,
                    format: m.1,
                    size: m.2,
                    year: m.3,
                    url: record_url(base, hash),
                    cover_url: card_cover(n, c, base),
                    description: None,
                },
            )
        },
    }
}

/// The paper described by the card around link `i`.
pub open spec fn paper_card(n: Seq<DomNodeView>, i: int, base: Seq<char>) -> Option<PaperView> {
    match card_core(n, i) {
        None => None,
        Some((hash, c, title)) => Some(
            PaperView {
                doi: seq![],
                title: Some(title),
                authors: card_authors(n, c),
                journal: card_publisher(n, c),
                size: card_meta(n, c).2,
                hash: Some(hash),
                download_url: None,
                page_url: record_url(base, hash),
                scihub_url: None,
            },
        ),
    }
}

/// The cards of `links[..k]` as books, keeping only the first card of each hash.
pub open spec fn books_upto(n: Seq<DomNodeView>, links: Seq<int>, base: Seq<char>, k: int) -> Seq<
    BookView,
>
    decreases k,
{
    if k <= 0 || k > links.len() {
        seq![]
    } else {
        let prev = books_upto(n, links, base, k - 1);
        match book_card(n, links[k - 1], base) {
            Some(b) => if exists|j: int| 0 <= j < prev.len() && (#[trigger] prev[j]).hash == b.hash {
                prev
            } else {
                prev.push(b)
            },
            None => prev,
        }
    }
}

/// The cards of `links[..k]` as papers, keeping only the first card of each hash.
pub open spec fn papers_upto(n: Seq<DomNodeView>, links: Seq<int>, base: Seq<char>, k: int) -> Seq<
    PaperView,
>
    decreases k,
{
    if k <= 0 || k > links.len() {
        seq![]
    } else {
        let prev = papers_upto(n, links, base, k - 1);
        match paper_card(n, links[k - 1], base) {
            Some(p) => if exists|j: int| 0 <= j < prev.len() && (#[trigger] prev[j]).hash == p.hash {
                prev
            } else {
                prev.push(p)
            },
            None => prev,
        }
    }
}

/// The paper that the article parser makes of a card that the book parser
/// reads as `b`: no DOI, the book's title, authors, publisher as journal,
/// size, hash and record page, and no download links.
pub open spec fn paper_of_book(b: BookView) -> PaperView {
    PaperView {
        doi: seq![],
        title: Some(b.title),
        authors: b.authors,
        journal: b.publisher,
        size: b.size,
        hash: Some(b.hash),
        download_url: None,
        page_url: b.url,
        scihub_url: None,
    }
}

/// Each of `books` as a paper.
pub open spec fn papers_of_books(books: Seq<BookView>) -> Seq<PaperView> {
    books.map_values(|b: BookView| paper_of_book(b))
}

proof fn lemma_papers_upto(n: Seq<DomNodeView>, links: Seq<int>, base: Seq<char>, k: int)
    ensures
        papers_upto(n, links, base, k) == papers_of_books(books_upto(n, links, base, k)),
    decreases k,
{
    if k <= 0 || k > links.len() {
        assert(papers_of_books(seq![]) =~= seq![]);
    } else {
        lemma_papers_upto(n, links, base, k - 1);
        let prev = books_upto(n, links, base, k - 1);
        let pprev = papers_upto(n, links, base, k - 1);
        assert(pprev.len() == prev.len());
        match book_card(n, links[k - 1], base) {
            Some(b) => {
                let p = paper_of_book(b);
                assert(paper_card(n, links[k - 1], base) == Some(p));
                if exists|j: int| 0 <= j < prev.len() && (#[trigger] prev[j]).hash == b.hash {
                    let j = choose|j: int| 0 <= j < prev.len() && (#[trigger] prev[j]).hash == b.hash;
                    assert(pprev[j] == paper_of_book(prev[j]));
                    assert(pprev[j].hash == p.hash);
                } else {
                    assert forall|j: int| 0 <= j < pprev.len() implies (#[trigger] pprev[j]).hash
                        != p.hash by {
                        assert(pprev[j] == paper_of_book(prev[j]));
                    }
                    assert(papers_of_books(prev.push(b)) =~= pprev.push(p));
                }
            },
            None => {
                assert(paper_card(n, links[k - 1], base) is None);
            },
        }
    }
}

/// The books of a search result page.
pub open spec fn books_of(n: Seq<DomNodeView>, base: Seq<char>) -> Seq<BookView> {
    books_upto(n, select_all(n, 0), base, select_all(n, 0).len() as int)
}

/// The papers of a search result page.
pub open spec fn papers_of(n: Seq<DomNodeView>, base: Seq<char>) -> Seq<PaperView> {
    papers_upto(n, select_all(n, 0), base, select_all(n, 0).len() as int)
}

/// Book `b` has no cover, or one whose address begins with `http`.
pub open spec fn cover_is_absolute(b: BookView) -> bool {
    b.cover_url matches Some(u) ==> has_prefix(u, "http"@)
}

proof fn lemma_books_upto_covers(n: Seq<DomNodeView>, links: Seq<int>, base: Seq<char>, k: int)
    ensures
        forall|j: int|
            0 <= j < books_upto(n, links, base, k).len() ==> cover_is_absolute(
                #[trigger] books_upto(n, links, base, k)[j],
            ),
    decreases k,
{
    if k > 0 && k <= links.len() {
        lemma_books_upto_covers(n, links, base, k - 1);
        let prev = books_upto(n, links, base, k - 1);
        match card_core(n, links[k - 1]) {
            Some((hash, c, title)) => {
                lemma_first_cover(n, select_within(n, c, 10), 0, base);
                let b = book_card(n, links[k - 1], base).unwrap();
                assert(cover_is_absolute(b));
                assert forall|j: int| 0 <= j < prev.push(b).len() implies cover_is_absolute(
                    #[trigger] prev.push(b)[j],
                ) by {
                    if j < prev.len() {
                        assert(prev.push(b)[j] == prev[j]);
                    }
                }
            },
            None => {},
        }
    }
}

/// The model of a search result page.
pub open spec fn card_page(html: Seq<char>) -> Option<Seq<DomNodeView>> {
    html_model(html, card_selectors(), card_attrs())
}

/// Every cover address of the books of a search result page begins with
/// `http`: a relative image source is made absolute on the mirror.
pub proof fn lemma_book_covers_absolute(html: Seq<char>, base: Seq<char>)
    ensures
        card_page(html) matches Some(n) ==> forall|j: int|
            0 <= j < books_of(n, base).len() ==> cover_is_absolute(#[trigger] books_of(n, base)[j]),
{
    match card_page(html) {
        Some(n) => {
            lemma_books_upto_covers(n, select_all(n, 0), base, select_all(n, 0).len() as int);
        },
        None => {},
    }
}

/// The articles of a search result page are its books, in the same order,
/// each as the paper `paper_of_book` makes of it.
pub proof fn lemma_articles_follow_books(html: Seq<char>, base: Seq<char>)
    ensures
        card_page(html) matches Some(n) ==> papers_of(n, base) == papers_of_books(books_of(n, base)),
{
    match card_page(html) {
        Some(n) => {
            lemma_papers_upto(n, select_all(n, 0), base, select_all(n, 0).len() as int);
        },
        None => {},
    }
}


pub open spec fn books_view(v: Seq<Book>) -> Seq<BookView> {
    v.map_values(|b: Book| b@)
}

pub open spec fn papers_view(v: Seq<Paper>) -> Seq<PaperView> {
    v.map_values(|p: Paper| p@)
}

/// The first of `idx[k..]` with a non-empty trimmed text.
fn first_nonempty_text_exec(nodes: &Vec<DomNode>, idx: &Vec<usize>) -> (r: String)
    requires
        forall|j: int| 0 <= j < idx@.len() ==> #[trigger] idx@[j] < nodes@.len(),
    ensures
        r@ == first_nonempty_text(dom_view(nodes@), ix(idx@), 0),
{
    let ghost n = dom_view(nodes@);
    let mut k: usize = 0;
    while k < idx.len()
        invariant
            n == dom_view(nodes@),
            forall|j: int| 0 <= j < idx@.len() ==> #[trigger] idx@[j] < nodes@.len(),
            first_nonempty_text(n, ix(idx@), 0) == first_nonempty_text(n, ix(idx@), k as int),
        decreases idx@.len() - k,
    {
        let t = text_of_exec(nodes, idx[k]);
        let tt = trim(t.as_str());
        assert(ix(idx@)[k as int] == idx@[k as int]);
        if !tt.as_str().is_empty() {
            return tt;
        }
        k += 1;
    }
    String::new()
}

/// Appends the positions of `b` to `a`.
fn extend_positions(a: &mut Vec<usize>, b: &Vec<usize>)
    ensures
        ix(final(a)@) == ix(old(a)@) + ix(b@),
        final(a)@ == old(a)@ + b@,
{
    let mut k: usize = 0;
    while k < b.len()
        invariant
            0 <= k <= b@.len(),
            a@ == old(a)@ + b@.take(k as int),
        decreases b@.len() - k,
    {
        a.push(b[k]);
        k += 1;
        assert(a@ =~= old(a)@ + b@.take(k as int));
    }
    assert(b@.take(b@.len() as int) =~= b@);
    assert(ix(a@) =~= ix(old(a)@) + ix(b@));
}

/// The title of the card whose container is `c`.
fn card_title_exec(nodes: &Vec<DomNode>, c: usize) -> (r: String)
    requires
        c < nodes@.len(),
    ensures
        r@ == card_title(dom_view(nodes@), c as int),
{
    let mut cands = select_within_exec(nodes, c, 1);
    let s2 = select_within_exec(nodes, c, 2);
    extend_positions(&mut cands, &s2);
    let s3 = select_within_exec(nodes, c, 3);
    extend_positions(&mut cands, &s3);
    let s0 = select_within_exec(nodes, c, 0);
    extend_positions(&mut cands, &s0);
    proof {
        assert forall|j: int| 0 <= j < cands@.len() implies #[trigger] cands@[j] < nodes@.len() by {
            let a = cands@;
        }
    }
    first_nonempty_text_exec(nodes, &cands)
}

/// The text of the first link among `links` holding an element that matches
/// selector `icon` and having a non-empty trimmed text.
fn first_icon_link_exec(nodes: &Vec<DomNode>, links: &Vec<usize>, icon: usize) -> (r: Option<String>)
    requires
        forall|j: int| 0 <= j < links@.len() ==> #[trigger] links@[j] < nodes@.len(),
    ensures
        ov(r) == first_icon_link(dom_view(nodes@), ix(links@), icon as int, 0),
{
    let ghost n = dom_view(nodes@);
    let mut k: usize = 0;
    while k < links.len()
        invariant
            n == dom_view(nodes@),
            forall|j: int| 0 <= j < links@.len() ==> #[trigger] links@[j] < nodes@.len(),
            first_icon_link(n, ix(links@), icon as int, 0) == first_icon_link(
                n,
                ix(links@),
                icon as int,
                k as int,
            ),
        decreases links@.len() - k,
    {
        let l = links[k];
        assert(ix(links@)[k as int] == l);
        let icons = select_within_exec(nodes, l, icon);
        if icons.len() > 0 {
            let t = text_of_exec(nodes, l);
            let tt = trim(t.as_str());
            if !tt.as_str().is_empty() {
                return Some(tt);
            }
        }
        k += 1;
    }
    None
}

/// Whether a text looks like a metadata line.
fn looks_like_meta_exec(t: &str) -> (b: bool)
    ensures
        b == looks_like_meta(t@),
{
    let r = str_contains(t, "\u{b7}") || str_contains(t, "MB") || str_contains(t, "KB")
        || str_contains(t, "EPUB") || str_contains(t, "PDF");
    proof {
        reveal_strlit("\u{b7}");
        assert("\u{b7}"@ =~= seq!['\u{b7}']);
    }
    r
}

/// The metadata of the card whose container is `c`.
fn card_meta_exec(nodes: &Vec<DomNode>, c: usize) -> (r: (
    Option<String>,
    Option<String>,
    Option<String>,
    Option<String>,
))
    requires
        c < nodes@.len(),
    ensures
        (ov(r.0), ov(r.1), ov(r.2), ov(r.3)) == card_meta(dom_view(nodes@), c as int),
{
    let ghost n = dom_view(nodes@);
    let mut cands = select_within_exec(nodes, c, 7);
    let s8 = select_within_exec(nodes, c, 8);
    extend_positions(&mut cands, &s8);
    let s9 = select_within_exec(nodes, c, 9);
    extend_positions(&mut cands, &s9);
    let ghost cv = ix(cands@);
    assert(cv == meta_candidates(n, c as int));
    let mut k: usize = 0;
    while k < cands.len()
        invariant
            n == dom_view(nodes@),
            cv == ix(cands@),
            cv == meta_candidates(n, c as int),
            forall|j: int| 0 <= j < cands@.len() ==> #[trigger] cands@[j] < nodes@.len(),
            first_meta(n, cv, 0) == first_meta(n, cv, k as int),
        decreases cands@.len() - k,
    {
        let e = cands[k];
        assert(cv[k as int] == e);
        let t = visible_text_exec(nodes, e);
        if looks_like_meta_exec(t.as_str()) {
            let m = parse_meta_parts(t.as_str());
            if m.0.is_some() || m.1.is_some() || m.2.is_some() {
                assert(first_meta(n, cv, k as int) == meta_spec(t@));
                return m;
            }
        }
        k += 1;
    }
    (None, None, None, None)
}

/// `https://` and the mirror without trailing slashes.
fn site_root_exec(base: &str) -> (r: String)
    ensures
        r@ == site_root(base@),
{
    let b = trim_end_char(base, '/');
    concat("https://", b.as_str())
}

/// Whether an image source can be a cover.
fn cover_source_exec(s: &str) -> (b: bool)
    ensures
        b == cover_source(s@),
{
    str_contains(s, "/covers/") || str_starts_with(s, "http") || str_starts_with(s, "/")
}

/// The cover of the card whose container is `c`.
fn card_cover_exec(nodes: &Vec<DomNode>, c: usize, base: &str) -> (r: Option<String>)
    requires
        c < nodes@.len(),
    ensures
        ov(r) == card_cover(dom_view(nodes@), c as int, base@),
{
    let ghost n = dom_view(nodes@);
    let imgs = select_within_exec(nodes, c, 10);
    let mut k: usize = 0;
    while k < imgs.len()
        invariant
            n == dom_view(nodes@),
            ix(imgs@) == select_within(n, c as int, 10),
            forall|j: int| 0 <= j < imgs@.len() ==> #[trigger] imgs@[j] < nodes@.len(),
            first_cover(n, ix(imgs@), 0, base@) == first_cover(n, ix(imgs@), k as int, base@),
        decreases imgs@.len() - k,
    {
        let img = imgs[k];
        assert(ix(imgs@)[k as int] == img);
        match attr_exec(nodes, img, 1) {
            Some(s) => {
                if cover_source_exec(s.as_str()) {
                    proof {
                        reveal_strlit("http");
                    }
                    if str_starts_with(s.as_str(), "http") {
                        assert(first_cover(n, ix(imgs@), k as int, base@) == Some(s@));
                        return Some(s);
                    } else {
                        let root = site_root_exec(base);
                        let url = concat(root.as_str(), s.as_str());
                        assert(first_cover(n, ix(imgs@), k as int, base@) == Some(url@));
                        return Some(url);
                    }
                }
            },
            None => {},
        }
        k += 1;
    }
    None
}

/// The hash, container and title of the card around link `i`.
fn card_core_exec(nodes: &Vec<DomNode>, i: usize) -> (r: Option<(String, usize, String)>)
    requires
        i < nodes@.len(),
    ensures
        match r {
            Some((h, c, t)) => card_core(dom_view(nodes@), i as int) == Some(
                (h@, c as int, t@),
            ) && c < nodes@.len(),
            None => card_core(dom_view(nodes@), i as int) is None,
        },
{
    let ghost n = dom_view(nodes@);
    let href = match attr_exec(nodes, i, 0) {
        Some(h) => h,
        None => {
            return None;
        },
    };
    proof {
        reveal_strlit("/md5/");
    }
    if !str_starts_with(href.as_str(), "/md5/") {
        return None;
    }
    let v = chars_of(href.as_str());
    let p = chars_of("/md5/");
    let from = strip_prefixes_exec(&v, &p);
    let hash = string_of(&v, from, v.len());
    assert(hash@ =~= v@.skip(from as int));
    if hash.as_str().is_empty() {
        return None;
    }
    let parent = match element_ancestor_exec(nodes, i) {
        Some(pa) => pa,
        None => {
            return None;
        },
    };
    let c = match element_among_ancestors_exec(nodes, parent, 3) {
        Some(a) => a,
        None => parent,
    };
    let title = card_title_exec(nodes, c);
    if title.as_str().is_empty() {
        return None;
    }
    Some((hash, c, title))
}

/// The record URL of a hash on a mirror.
fn record_url_exec(base: &str, hash: &str) -> (r: String)
    ensures
        r@ == record_url(base@, hash@),
{
    let mut r = site_root_exec(base);
    append(&mut r, "/md5/");
    append(&mut r, hash);
    r
}

/// Whether some book of `books` has the hash `h`.
fn has_hash(books: &Vec<Book>, h: &str) -> (b: bool)
    ensures
        b == exists|j: int| 0 <= j < books@.len() && (#[trigger] books@[j])@.hash == h@,
{
    let mut k: usize = 0;
    while k < books.len()
        invariant
            0 <= k <= books@.len(),
            forall|j: int| 0 <= j < k ==> (#[trigger] books@[j])@.hash != h@,
        decreases books@.len() - k,
    {
        if crate::text::str_eq(books[k].hash.as_str(), h) {
            return true;
        }
        k += 1;
    }
    false
}

/// Whether some paper of `papers` has the hash `h`.
fn has_paper_hash(papers: &Vec<Paper>, h: &str) -> (b: bool)
    ensures
        b == exists|j: int| 0 <= j < papers@.len() && (#[trigger] papers@[j])@.hash == Some(h@),
{
    let mut k: usize = 0;
    while k < papers.len()
        invariant
            0 <= k <= papers@.len(),
            forall|j: int| 0 <= j < k ==> (#[trigger] papers@[j])@.hash != Some(h@),
        decreases papers@.len() - k,
    {
        match &papers[k].hash {
            Some(x) => {
                if crate::text::str_eq(x.as_str(), h) {
                    return true;
                }
            },
            None => {},
        }
        k += 1;
    }
    false
}

/// The books of a parsed search result page: one per record link, in page
/// order, the first card of each hash only, cards without a title skipped.
pub fn books_from_model(nodes: &Vec<DomNode>, base_url: &str) -> (books: Vec<Book>)
    ensures
        books_view(books@) == books_of(dom_view(nodes@), base_url@),
        forall|a: int, b: int|
            0 <= a < b < books@.len() ==> (#[trigger] books@[a]).hash@ != (
            #[trigger] books@[b]).hash@,
{
    let ghost n = dom_view(nodes@);
    let links = select_all_exec(nodes, 0);
    let ghost lv = ix(links@);
    let mut books: Vec<Book> = Vec::new();
    let mut k: usize = 0;
    while k < links.len()
        invariant
            n == dom_view(nodes@),
            lv == ix(links@),
            lv == select_all(n, 0),
            forall|j: int| 0 <= j < links@.len() ==> #[trigger] links@[j] < nodes@.len(),
            0 <= k <= links@.len(),
            books_view(books@) == books_upto(n, lv, base_url@, k as int),
            forall|a: int, b: int|
                0 <= a < b < books@.len() ==> (#[trigger] books@[a]).hash@ != (
                #[trigger] books@[b]).hash@,
        decreases links@.len() - k,
    {
        let i = links[k];
        assert(lv[k as int] == i);
        let ghost prev = books_view(books@);
        match card_core_exec(nodes, i) {
            None => {},
            Some((hash, c, title)) => {
                if !has_hash(&books, hash.as_str()) {
                    let (authors, publisher) = (
                        first_icon_link_exec(nodes, &select_within_exec(nodes, c, 4), 5),
                        first_icon_link_exec(nodes, &select_within_exec(nodes, c, 4), 6),
                    );
                    let (language, format, size, year) = card_meta_exec(nodes, c);
                    let cover_url = card_cover_exec(nodes, c, base_url);
                    let url = record_url_exec(base_url, hash.as_str());
                    let book = Book {
                        hash,
                        title,
                        authors,
                        publisher,
                        language,
                        format,
                        size,
                        year,
                        url,
                        cover_url,
                        description: None,
                    };
                    proof {
                        assert(book@ == book_card(n, i as int, base_url@).unwrap());
                        assert forall|j: int| 0 <= j < prev.len() implies (#[trigger] prev[j]).hash
                            != book@.hash by {
                            assert(prev[j] == books@[j]@);
                        }
                    }
                    books.push(book);
                    assert(books_view(books@) =~= prev.push(book@));
                } else {
                    proof {
                        let j = choose|j: int|
                            0 <= j < books@.len() && (#[trigger] books@[j])@.hash == hash@;
                        assert(prev[j] == books@[j]@);
                    }
                }
            },
        }
        k += 1;
    }
    books
}

/// The papers of a parsed article search result page, chosen like the books
/// of `books_from_model`.
pub fn papers_from_model(nodes: &Vec<DomNode>, base_url: &str) -> (papers: Vec<Paper>)
    ensures
        papers_view(papers@) == papers_of(dom_view(nodes@), base_url@),
{
    let ghost n = dom_view(nodes@);
    let links = select_all_exec(nodes, 0);
    let ghost lv = ix(links@);
    let mut papers: Vec<Paper> = Vec::new();
    let mut k: usize = 0;
    while k < links.len()
        invariant
            n == dom_view(nodes@),
            lv == ix(links@),
            lv == select_all(n, 0),
            forall|j: int| 0 <= j < links@.len() ==> #[trigger] links@[j] < nodes@.len(),
            0 <= k <= links@.len(),
            papers_view(papers@) == papers_upto(n, lv, base_url@, k as int),
        decreases links@.len() - k,
    {
        let i = links[k];
        assert(lv[k as int] == i);
        let ghost prev = papers_view(papers@);
        match card_core_exec(nodes, i) {
            None => {},
            Some((hash, c, title)) => {
                if !has_paper_hash(&papers, hash.as_str()) {
                    let authors = first_icon_link_exec(
                        nodes,
                        &select_within_exec(nodes, c, 4),
                        5,
                    );
                    let journal = first_icon_link_exec(
                        nodes,
                        &select_within_exec(nodes, c, 4),
                        6,
                    );
                    let (_lang, _fmt, size, _yr) = card_meta_exec(nodes, c);
                    let page_url = record_url_exec(base_url, hash.as_str());
                    let paper = Paper {
                        doi: String::new(),
                        title: Some(title),
                        authors,
                        journal,
                        size,
                        hash: Some(hash),
                        download_url: None,
                        page_url,
                        scihub_url: None,
                    };
                    proof {
                        assert(paper@ == paper_card(n, i as int, base_url@).unwrap());
                        assert forall|j: int| 0 <= j < prev.len() implies (#[trigger] prev[j]).hash
                            != paper@.hash by {
                            assert(prev[j] == papers@[j]@);
                        }
                    }
                    papers.push(paper);
                    assert(papers_view(papers@) =~= prev.push(paper@));
                } else {
                    proof {
                        let j = choose|j: int|
                            0 <= j < papers@.len() && (#[trigger] papers@[j])@.hash == Some(
                                hash@,
                            );
                        assert(prev[j] == papers@[j]@);
                    }
                }
            },
        }
        k += 1;
    }
    papers
}

/// The parser of search result pages.
pub struct AnnaScraper;

impl AnnaScraper {
    /// The books listed on a search result page: one per record link, in page
    /// order, the first card of each hash only, cards without a title skipped.
    pub fn parse_books(html: &str, base_url: &str) -> (r: Result<Vec<Book>, AppError>)
        ensures
            match card_page(html@) {
                None => r is Err,
                Some(n) => r matches Ok(books) && books_view(books@) == books_of(n, base_url@),
            },
            r matches Ok(books) ==> forall|a: int, b: int|
                0 <= a < b < books@.len() ==> (#[trigger] books@[a]).hash@ != (
                #[trigger] books@[b]).hash@,
    {
        let sels = card_selector_list();
        let attrs = card_attr_list();
        match scan_html(html, &sels, &attrs) {
            Some(nodes) => Ok(books_from_model(&nodes, base_url)),
            None => Err(AppError::HtmlParse(String::from_str("Invalid link selector"))),
        }
    }

    /// The papers listed on an article search result page, chosen like the
    /// books of `parse_books`.
    pub fn parse_articles(html: &str, base_url: &str) -> (r: Result<Vec<Paper>, AppError>)
        ensures
            match card_page(html@) {
                None => r is Err,
                Some(n) => r matches Ok(papers) && papers_view(papers@) == papers_of(n, base_url@),
            },
    {
        let sels = card_selector_list();
        let attrs = card_attr_list();
        match scan_html(html, &sels, &attrs) {
            Some(nodes) => Ok(papers_from_model(&nodes, base_url)),
            None => Err(AppError::HtmlParse(String::from_str("Invalid link selector"))),
        }
    }
}

// ---------------------------------------------------------------------------
// SciDB pages
// ---------------------------------------------------------------------------

/// The selectors that the SciDB search parser asks about.
pub open spec fn scidb_search_selectors() -> Seq<Seq<char>> {
    seq!["a[href^='/md5/']"@]
}

/// The attributes that the SciDB parsers read: `href`.
pub open spec fn href_attr() -> Seq<Seq<char>> {
    seq!["href"@]
}

/// The hash of the first record link among `links[k..]` whose trimmed hash is not empty.
pub open spec fn first_link_hash(n: Seq<DomNodeView>, links: Seq<int>, k: int) -> Option<Seq<char>>
    decreases links.len() - k,
{
    if k < 0 || k >= links.len() {
        None
    } else {
        match attr(n, links[k], 0) {
            Some(h) => {
                let hash = trim_ws(strip_prefixes(h, md5_prefix()));
                if hash.len() > 0 {
                    Some(hash)
                } else {
                    first_link_hash(n, links, k + 1)
                }
            },
            None => first_link_hash(n, links, k + 1),
        }
    }
}

/// The MD5 hash named by the first record link of a SciDB search page.
pub open spec fn scidb_md5(html: Seq<char>) -> Option<Seq<char>> {
    match html_model(html, scidb_search_selectors(), href_attr()) {
        None => None,
        Some(n) => first_link_hash(n, select_all(n, 0), 0),
    }
}

fn one_string(s: &str) -> (r: Vec<String>)
    ensures
        strings_view(r@) == seq![s@],
{
    let mut r: Vec<String> = Vec::new();
    r.push(copy_str(s));
    assert(strings_view(r@) =~= seq![s@]);
    r
}

/// The first of `links` with a non-empty trimmed `/md5/` hash.
fn first_link_hash_exec(nodes: &Vec<DomNode>, links: &Vec<usize>) -> (r: Option<String>)
    requires
        forall|j: int| 0 <= j < links@.len() ==> #[trigger] links@[j] < nodes@.len(),
    ensures
        ov(r) == first_link_hash(dom_view(nodes@), ix(links@), 0),
{
    let ghost n = dom_view(nodes@);
    proof {
        reveal_strlit("/md5/");
    }
    let p = chars_of("/md5/");
    let mut k: usize = 0;
    while k < links.len()
        invariant
            n == dom_view(nodes@),
            p@ == md5_prefix(),
            p@.len() > 0,
            forall|j: int| 0 <= j < links@.len() ==> #[trigger] links@[j] < nodes@.len(),
            first_link_hash(n, ix(links@), 0) == first_link_hash(n, ix(links@), k as int),
        decreases links@.len() - k,
    {
        let l = links[k];
        assert(ix(links@)[k as int] == l);
        match attr_exec(nodes, l, 0) {
            Some(h) => {
                let v = chars_of(h.as_str());
                let from = strip_prefixes_exec(&v, &p);
                let rest = string_of(&v, from, v.len());
                assert(rest@ =~= v@.skip(from as int));
                let hash = trim(rest.as_str());
                if !hash.as_str().is_empty() {
                    return Some(hash);
                }
            },
            None => {},
        }
        k += 1;
    }
    None
}

impl AnnaScraper {
    /// The MD5 hash of the first record linked from a SciDB search page.
    pub fn parse_scidb_search_for_md5(html: &str) -> (r: Option<String>)
        ensures
            ov(r) == scidb_md5(html@),
    {
        let sels = one_string("a[href^='/md5/']");
        let attrs = one_string("href");
        match scan_html(html, &sels, &attrs) {
            None => None,
            Some(nodes) => {
                let links = select_all_exec(&nodes, 0);
                first_link_hash_exec(&nodes, &links)
            },
        }
    }
}

/// The selectors that the SciDB detail parser asks about, by number.
pub open spec fn detail_selectors() -> Seq<Seq<char>> {
    seq![
        "title"@,
        "meta[name='description']"@,
        "a[href^='/search']"@,
        "span.icon-\\[mdi--user-edit\\]"@,
        "div.text-gray-500, div.text-gray-800"@,
    ]
}

/// The attribute that the SciDB detail parser reads: `content`.
pub open spec fn content_attr() -> Seq<Seq<char>> {
    seq!["content"@]
}

/// A page title without its ` - Anna…` suffix, trimmed.
pub open spec fn page_title(full: Seq<char>) -> Seq<char> {
    match find(full, " - Anna"@) {
        Some(i) => trim_ws(full.take(i)),
        None => trim_ws(full),
    }
}

/// The journal line of a description: its third paragraph, else its second.
pub open spec fn description_journal(content: Seq<char>) -> Option<Seq<char>> {
    let parts = split(content, "\n\n"@);
    if parts.len() >= 3 {
        Some(trim_ws(parts[2]))
    } else if parts.len() >= 2 {
        Some(trim_ws(parts[1]))
    } else {
        None
    }
}

/// A text that names a file size unit.
pub open spec fn names_size(t: Seq<char>) -> bool {
    contains(t, "MB"@) || contains(t, "KB"@) || contains(t, "GB"@)
}

/// The trimmed text of the first of `divs[k..]` that names a size unit.
pub open spec fn first_size(n: Seq<DomNodeView>, divs: Seq<int>, k: int) -> Option<Seq<char>>
    decreases divs.len() - k,
{
    if k < 0 || k >= divs.len() {
        None
    } else if names_size(text_of(n, divs[k])) {
        Some(trim_ws(text_of(n, divs[k])))
    } else {
        first_size(n, divs, k + 1)
    }
}

/// The paper that a SciDB detail page describes, for `doi` on mirror `base`.
pub open spec fn detail_fields(n: Seq<DomNodeView>) -> (
    Option<Seq<char>>,
    Option<Seq<char>>,
    Option<Seq<char>>,
    Option<Seq<char>>,
) {
    let titles = select_all(n, 0);
    let descs = select_all(n, 1);
    (
        if titles.len() > 0 {
            Some(page_title(text_of(n, titles[0])))
        } else {
            None
        },
        if descs.len() > 0 {
            match attr(n, descs[0], 0) {
                Some(c) => description_journal(c),
                None => None,
            }
        } else {
            None
        },
        first_icon_link(n, select_all(n, 2), 3, 0),
        first_size(n, select_all(n, 4), 0),
    )
}

/// The paper of a SciDB detail page whose title, journal, authors and size
/// are `fields`.
pub open spec fn scidb_paper_view(
    fields: (Option<Seq<char>>, Option<Seq<char>>, Option<Seq<char>>, Option<Seq<char>>),
    doi: Seq<char>,
    base: Seq<char>,
) -> PaperView {
    PaperView {
        doi,
        title: fields.0,
        authors: fields.2,
        journal: fields.1,
        size: fields.3,
        hash: None,
        download_url: Some(site_root(base) + "/scidb?doi="@ + doi),
        page_url: site_root(base) + "/scidb/"@ + doi,
        scihub_url: Some("https://sci-hub.se/"@ + doi),
    }
}

/// The paper of a SciDB detail page; a page whose selectors do not parse
/// gives no field of its own.
pub open spec fn scidb_detail(html: Seq<char>, doi: Seq<char>, base: Seq<char>) -> PaperView {
    let fields = match html_model(html, detail_selectors(), content_attr()) {
        None => (None, None, None, None),
        Some(n) => detail_fields(n),
    };
    scidb_paper_view(fields, doi, base)
}

fn detail_selector_list() -> (r: Vec<String>)
    ensures
        strings_view(r@) == detail_selectors(),
{
    let mut r: Vec<String> = Vec::new();
    r.push(String::from_str("title"));
    r.push(String::from_str("meta[name='description']"));
    r.push(String::from_str("a[href^='/search']"));
    r.push(String::from_str("span.icon-\\[mdi--user-edit\\]"));
    r.push(String::from_str("div.text-gray-500, div.text-gray-800"));
    assert(strings_view(r@) =~= detail_selectors());
    r
}

/// A page title without its ` - Anna…` suffix.
fn page_title_exec(full: &str) -> (r: String)
    ensures
        r@ == page_title(full@),
{
    let v = chars_of(full);
    let pat = chars_of(" - Anna");
    match crate::text::find_exec(&v, &pat) {
        Some(i) => {
            proof {
                crate::text::lemma_find_from_bounds(v@, pat@, 0);
            }
            let head = string_of(&v, 0, i);
            assert(head@ =~= v@.take(i as int));
            trim(head.as_str())
        },
        None => trim(full),
    }
}

/// The journal line of a description.
fn description_journal_exec(content: &str) -> (r: Option<String>)
    ensures
        ov(r) == description_journal(content@),
{
    proof {
        reveal_strlit("\n\n");
        assert("\n\n"@.len() == 2);
    }
    let parts = split_exec(content, "\n\n");
    if parts.len() >= 3 {
        Some(trim(parts[2].as_str()))
    } else if parts.len() >= 2 {
        Some(trim(parts[1].as_str()))
    } else {
        None
    }
}

/// The first of `divs` whose text names a size unit.
fn first_size_exec(nodes: &Vec<DomNode>, divs: &Vec<usize>) -> (r: Option<String>)
    requires
        forall|j: int| 0 <= j < divs@.len() ==> #[trigger] divs@[j] < nodes@.len(),
    ensures
        ov(r) == first_size(dom_view(nodes@), ix(divs@), 0),
{
    let ghost n = dom_view(nodes@);
    let mut k: usize = 0;
    while k < divs.len()
        invariant
            n == dom_view(nodes@),
            forall|j: int| 0 <= j < divs@.len() ==> #[trigger] divs@[j] < nodes@.len(),
            first_size(n, ix(divs@), 0) == first_size(n, ix(divs@), k as int),
        decreases divs@.len() - k,
    {
        let d = divs[k];
        assert(ix(divs@)[k as int] == d);
        let t = text_of_exec(nodes, d);
        if str_contains(t.as_str(), "MB") || str_contains(t.as_str(), "KB") || str_contains(
            t.as_str(),
            "GB",
        ) {
            return Some(trim(t.as_str()));
        }
        k += 1;
    }
    None
}

impl AnnaScraper {
    /// The paper described by a SciDB detail page.
    pub fn parse_scidb_detail_page(html: &str, doi: &str, base_url: &str) -> (r: Paper)
        ensures
            r@ == scidb_detail(html@, doi@, base_url@),
    {
        let sels = detail_selector_list();
        let attrs = one_string("content");
        match scan_html(html, &sels, &attrs) {
            None => scidb_paper(None, None, None, None, doi, base_url),
            Some(nodes) => scidb_detail_from_model(&nodes, doi, base_url),
        }
    }
}

/// The paper of a SciDB detail page with the given fields.
fn scidb_paper(
    title: Option<String>,
    journal: Option<String>,
    authors: Option<String>,
    size: Option<String>,
    doi: &str,
    base_url: &str,
) -> (r: Paper)
    ensures
        r@ == scidb_paper_view(
            (ov(title), ov(journal), ov(authors), ov(size)),
            doi@,
            base_url@,
        ),
{
    let root = site_root_exec(base_url);
    let mut download = copy_str(root.as_str());
    append(&mut download, "/scidb?doi=");
    append(&mut download, doi);
    let mut page_url = copy_str(root.as_str());
    append(&mut page_url, "/scidb/");
    append(&mut page_url, doi);
    let scihub = concat("https://sci-hub.se/", doi);
    Paper {
        doi: copy_str(doi),
        title,
        authors,
        journal,
        size,
        hash: None,
        download_url: Some(download),
        page_url,
        scihub_url: Some(scihub),
    }
}

/// The paper of a parsed SciDB detail page: its title, journal, authors and
/// size as the page shows them, and the links made from the DOI.
pub fn scidb_detail_from_model(nodes: &Vec<DomNode>, doi: &str, base_url: &str) -> (r: Paper)
    ensures
        r@ == scidb_paper_view(detail_fields(dom_view(nodes@)), doi@, base_url@),
{
    let titles = select_all_exec(nodes, 0);
    let title = if titles.len() > 0 {
        let full = text_of_exec(nodes, titles[0]);
        Some(page_title_exec(full.as_str()))
    } else {
        None
    };
    let descs = select_all_exec(nodes, 1);
    let journal = if descs.len() > 0 {
        match attr_exec(nodes, descs[0], 0) {
            Some(c) => description_journal_exec(c.as_str()),
            None => None,
        }
    } else {
        None
    };
    let links = select_all_exec(nodes, 2);
    let authors = first_icon_link_exec(nodes, &links, 3);
    let divs = select_all_exec(nodes, 4);
    let size = first_size_exec(nodes, &divs);
    proof {
        if titles@.len() > 0 {
            assert(ix(titles@)[0] == titles@[0]);
        }
        if descs@.len() > 0 {
            assert(ix(descs@)[0] == descs@[0]);
        }
    }
    scidb_paper(title, journal, authors, size, doi, base_url)
}

// ---------------------------------------------------------------------------
// Sci-Hub pages
// ---------------------------------------------------------------------------

pub const TITLE_META_PATTERN: &'static str = r#"(?i)<meta\s+name=["']citation_title["']\s+content=["']([^"']+)["']"#;

pub const AUTHOR_META_PATTERN: &'static str = r#"(?i)<meta\s+name=["']citation_author["']\s+content=["']([^"']+)["']"#;

pub const JOURNAL_META_PATTERN: &'static str = r#"(?i)<meta\s+name=["']citation_journal_title["']\s+content=["']([^"']+)["']"#;

pub const PDF_META_PATTERN: &'static str = r#"(?i)<meta\s+name=["']citation_pdf_url["']\s+content=["']([^"']+)["']"#;

pub const PDF_EMBED_PATTERN: &'static str = r#"(?i)<(?:embed|iframe)[^>]+src=["']([^"']+\.pdf[^"']*)["']"#;

/// Group 1 of the first match of `pattern`, trimmed.
pub open spec fn trimmed_group1(pattern: Seq<char>, html: Seq<char>) -> Option<Seq<char>> {
    match group(regex_first(pattern, html), 1) {
        Some(g) => Some(trim_ws(g)),
        None => None,
    }
}

/// A name that is a real author, not an "et al." placeholder.
pub open spec fn real_author(a: Seq<char>) -> bool {
    a.len() > 0 && a != "et., al."@ && a != "et al."@
}

/// The trimmed author names of the first `k` author matches that are real authors.
pub open spec fn authors_upto(all: Seq<Seq<Option<Seq<char>>>>, k: int) -> Seq<Seq<char>>
    decreases k,
{
    if k <= 0 || k > all.len() {
        seq![]
    } else {
        let prev = authors_upto(all, k - 1);
        match group(Some(all[k - 1]), 1) {
            Some(a) => if real_author(trim_ws(a)) {
                prev.push(trim_ws(a))
            } else {
                prev
            },
            None => prev,
        }
    }
}

/// The authors of a Sci-Hub page, joined by `, `.
pub open spec fn scihub_authors(html: Seq<char>) -> Option<Seq<char>> {
    let all = regex_all(AUTHOR_META_PATTERN@, html);
    let names = authors_upto(all, all.len() as int);
    if names.len() > 0 {
        Some(crate::text::join(names, ", "@))
    } else {
        None
    }
}

/// A PDF link made absolute on `host`.
pub open spec fn absolute_pdf(u: Seq<char>, host: Seq<char>) -> Seq<char> {
    if has_prefix(u, "//"@) {
        "https:"@ + u
    } else if has_prefix(u, "/"@) {
        site_root(host) + u
    } else if !has_prefix(u, "http"@) {
        site_root(host) + "/"@ + u
    } else {
        u
    }
}

/// A PDF link found on a Sci-Hub page resolves to an absolute address: a
/// protocol-relative link (`//...`) to `https:` followed by the link, whatever
/// the host; a link from the root (`/...`) to that path on the host; an
/// absolute link to itself; any other link to a path under the host's root.
pub proof fn lemma_pdf_links_resolve(u: Seq<char>, host: Seq<char>)
    ensures
        has_prefix(absolute_pdf(u, host), "http"@),
        has_prefix(u, "//"@) ==> absolute_pdf(u, host) == "https:"@ + u,
        has_prefix(u, "/"@) && !has_prefix(u, "//"@) ==> absolute_pdf(u, host) == "https://"@
            + strip_trailing(host, '/') + u,
        has_prefix(u, "http"@) ==> absolute_pdf(u, host) == u,
        !has_prefix(u, "/"@) && !has_prefix(u, "http"@) ==> absolute_pdf(u, host) == "https://"@
            + strip_trailing(host, '/') + "/"@ + u,
{
    reveal_strlit("//");
    reveal_strlit("/");
    reveal_strlit("http");
    reveal_strlit("https:");
    reveal_strlit("https://");
    let r = absolute_pdf(u, host);
    if has_prefix(u, "http"@) {
        assert(u.subrange(0, 4)[0] == u[0]);
        assert(u[0] == 'h');
        assert(!has_prefix(u, "/"@)) by {
            if has_prefix(u, "/"@) {
                assert(u.subrange(0, 1)[0] == u[0]);
            }
        }
        assert(!has_prefix(u, "//"@)) by {
            if has_prefix(u, "//"@) {
                assert(u.subrange(0, 2)[0] == u[0]);
            }
        }
    }
    if has_prefix(u, "//"@) {
        assert(has_prefix(u, "/"@)) by {
            assert(u.subrange(0, 2)[0] == u[0]);
            assert(u.subrange(0, 1) =~= "/"@);
        }
    }
    let head = r.subrange(0, 4);
    if has_prefix(u, "//"@) {
        assert(head =~= "http"@);
    } else if !has_prefix(u, "http"@) {
        assert(head =~= "http"@);
    }
}

/// Every download address that a Sci-Hub page gives is absolute.
pub proof fn lemma_scihub_download_absolute(html: Seq<char>, doi: Seq<char>, host: Seq<char>)
    ensures
        scihub_paper(html, doi, host) matches Some(p) ==> (p.download_url matches Some(d)
            ==> has_prefix(d, "http"@)),
{
    let pdf = match trimmed_group1(PDF_META_PATTERN@, html) {
        Some(u) => Some(u),
        None => trimmed_group1(PDF_EMBED_PATTERN@, html),
    };
    match pdf {
        Some(u) => lemma_pdf_links_resolve(u, host),
        None => {},
    }
}

/// The paper that a Sci-Hub page at `host` describes for `doi`; `None` when
/// the page shows neither a title nor a PDF.
pub open spec fn scihub_paper(html: Seq<char>, doi: Seq<char>, host: Seq<char>) -> Option<PaperView> {
    let title = trimmed_group1(TITLE_META_PATTERN@, html);
    let pdf = match trimmed_group1(PDF_META_PATTERN@, html) {
        Some(u) => Some(u),
        None => trimmed_group1(PDF_EMBED_PATTERN@, html),
    };
    let resolved = match pdf {
        Some(u) => Some(absolute_pdf(u, host)),
        None => None,
    };
    if title is Some || resolved is Some {
        Some(
            PaperView {
                doi,
                title,
                authors: scihub_authors(html),
                journal: trimmed_group1(JOURNAL_META_PATTERN@, html),
                size: None,
                hash: None,
                download_url: resolved,
                page_url: site_root(host) + "/"@ + doi,
                scihub_url: Some(site_root(host) + "/"@ + doi),
            },
        )
    } else {
        None
    }
}

fn trimmed_group1_exec(pattern: &str, html: &str) -> (r: Option<String>)
    ensures
        ov(r) == trimmed_group1(pattern@, html@),
{
    match first_group(pattern, html, 1) {
        Some(g) => Some(trim(g.as_str())),
        None => None,
    }
}

fn scihub_authors_exec(html: &str) -> (r: Option<String>)
    ensures
        ov(r) == scihub_authors(html@),
{
    let all = crate::pattern::regex_captures_all(AUTHOR_META_PATTERN, html);
    let ghost av = all@.map_values(|g: Vec<Option<String>>| crate::pattern::groups_view(g@));
    let mut names: Vec<String> = Vec::new();
    let mut k: usize = 0;
    proof {
        reveal_strlit("et., al.");
        reveal_strlit("et al.");
    }
    while k < all.len()
        invariant
            av == all@.map_values(|g: Vec<Option<String>>| crate::pattern::groups_view(g@)),
            av == crate::pattern::regex_all(AUTHOR_META_PATTERN@, html@),
            0 <= k <= all@.len(),
            strings_seq(names@) == authors_upto(av, k as int),
        decreases all@.len() - k,
    {
        let ghost prev = strings_seq(names@);
        assert(av[k as int] == crate::pattern::groups_view(all@[k as int]@));
        match crate::pattern::group_exec(&all[k], 1) {
            Some(a) => {
                let t = trim(a.as_str());
                if !t.as_str().is_empty() && !crate::text::str_eq(t.as_str(), "et., al.")
                    && !crate::text::str_eq(t.as_str(), "et al.") {
                    names.push(t);
                    assert(strings_seq(names@) =~= prev.push(t@));
                }
            },
            None => {},
        }
        k += 1;
    }
    if names.len() > 0 {
        Some(crate::text::join_exec(&names, ", "))
    } else {
        None
    }
}

/// A PDF link made absolute on `host`.
fn absolute_pdf_exec(u: &str, host: &str) -> (r: String)
    ensures
        r@ == absolute_pdf(u@, host@),
{
    if str_starts_with(u, "//") {
        concat("https:", u)
    } else if str_starts_with(u, "/") {
        let root = site_root_exec(host);
        concat(root.as_str(), u)
    } else if !str_starts_with(u, "http") {
        let mut r = site_root_exec(host);
        append(&mut r, "/");
        append(&mut r, u);
        r
    } else {
        copy_str(u)
    }
}

impl AnnaScraper {
    /// The paper described by a Sci-Hub page at `host`, read from its citation
    /// metadata; `None` when the page shows neither a title nor a PDF.
    pub fn parse_scihub_page(html: &str, doi: &str, host: &str) -> (r: Option<Paper>)
        ensures
            match r {
                Some(p) => scihub_paper(html@, doi@, host@) == Some(p@),
                None => scihub_paper(html@, doi@, host@) is None,
            },
    {
        let title = trimmed_group1_exec(TITLE_META_PATTERN, html);
        let authors = scihub_authors_exec(html);
        let journal = trimmed_group1_exec(JOURNAL_META_PATTERN, html);
        let pdf = match trimmed_group1_exec(PDF_META_PATTERN, html) {
            Some(u) => Some(u),
            None => trimmed_group1_exec(PDF_EMBED_PATTERN, html),
        };
        let resolved = match pdf {
            Some(u) => Some(absolute_pdf_exec(u.as_str(), host)),
            None => None,
        };
        if title.is_some() || resolved.is_some() {
            let mut page = site_root_exec(host);
            append(&mut page, "/");
            append(&mut page, doi);
            let scihub = copy_str(page.as_str());
            Some(
                Paper {
                    doi: copy_str(doi),
                    title,
                    authors,
                    journal,
                    size: None,
                    hash: None,
                    download_url: resolved,
                    page_url: page,
                    scihub_url: Some(scihub),
                },
            )
        } else {
            None
        }
    }
}

} // verus!
