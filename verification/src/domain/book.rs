//! Books and papers as the library reports them.
use vstd::prelude::*;

use crate::text::{concat, join, join_exec};

verus! {

/// A book found in a search.
#[derive(Clone, Debug)]
pub struct Book {
    pub hash: String,
    pub title: String,
    pub authors: Option<String>,
    pub publisher: Option<String>,
    pub language: Option<String>,
    pub format: Option<String>,
    pub size: Option<String>,
    pub year: Option<String>,
    pub url: String,
    pub cover_url: Option<String>,
    pub description: Option<String>,
}

/// An academic paper.
#[derive(Clone, Debug)]
pub struct Paper {
    pub doi: String,
    pub title: Option<String>,
    pub authors: Option<String>,
    pub journal: Option<String>,
    pub size: Option<String>,
    pub hash: Option<String>,
    pub download_url: Option<String>,
    pub page_url: String,
    pub scihub_url: Option<String>,
}

pub struct BookView {
    pub hash: Seq<char>,
    pub title: Seq<char>,
    pub authors: Option<Seq<char>>,
    pub publisher: Option<Seq<char>>,
    pub language: Option<Seq<char>>,
    pub format: Option<Seq<char>>,
    pub size: Option<Seq<char>>,
    pub year: Option<Seq<char>>,
    pub url: Seq<char>,
    pub cover_url: Option<Seq<char>>,
    pub description: Option<Seq<char>>,
}

pub struct PaperView {
    pub doi: Seq<char>,
    pub title: Option<Seq<char>>,
    pub authors: Option<Seq<char>>,
    pub journal: Option<Seq<char>>,
    pub size: Option<Seq<char>>,
    pub hash: Option<Seq<char>>,
    pub download_url: Option<Seq<char>>,
    pub page_url: Seq<char>,
    pub scihub_url: Option<Seq<char>>,
}

/// The view of an optional string.
pub open spec fn ov(o: Option<String>) -> Option<Seq<char>> {
    match o {
        Some(s) => Some(s@),
        None => None,
    }
}

impl View for Book {
    type V = BookView;

    open spec fn view(&self) -> BookView {
        BookView {
            hash: self.hash@,
            title: self.title@,
            authors: ov(self.authors),
            publisher: ov(self.publisher),
            language: ov(self.language),
            format: ov(self.format),
            size: ov(self.size),
            year: ov(self.year),
            url: self.url@,
            cover_url: ov(self.cover_url),
            description: ov(self.description),
        }
    }
}

impl View for Paper {
    type V = PaperView;

    open spec fn view(&self) -> PaperView {
        PaperView {
            doi: self.doi@,
            title: ov(self.title),
            authors: ov(self.authors),
            journal: ov(self.journal),
            size: ov(self.size),
            hash: ov(self.hash),
            download_url: ov(self.download_url),
            page_url: self.page_url@,
            scihub_url: ov(self.scihub_url),
        }
    }
}

/// The line `label` + `value` when the value is present, else no line.
pub open spec fn optional_line(label: Seq<char>, value: Option<Seq<char>>) -> Seq<Seq<char>> {
    match value {
        Some(v) => seq![label + v],
        None => seq![],
    }
}

/// The lines of a book's summary: the title first, then each metadata field
/// that is present, then the URL and the MD5 hash.
pub open spec fn book_summary_lines(b: BookView) -> Seq<Seq<char>> {
    seq!["Title: "@ + b.title] + optional_line("Authors: "@, b.authors) + optional_line(
        "Publisher: "@,
        b.publisher,
    ) + optional_line("Language: "@, b.language) + optional_line("Format: "@, b.format)
        + optional_line("Size: "@, b.size) + optional_line("Year: "@, b.year) + seq![
        "URL: "@ + b.url,
        "MD5 Hash: "@ + b.hash,
    ]
}

/// The lines of a paper's summary: the DOI first, then each field that is
/// present, then the page URL.
pub open spec fn paper_summary_lines(p: PaperView) -> Seq<Seq<char>> {
    seq!["DOI: "@ + p.doi] + optional_line("Title: "@, p.title) + optional_line(
        "Authors: "@,
        p.authors,
    ) + optional_line("Journal: "@, p.journal) + optional_line("Size: "@, p.size)
        + optional_line("MD5 Hash: "@, p.hash) + optional_line("Download URL: "@, p.download_url)
        + seq!["Page: "@ + p.page_url]
}

proof fn lemma_contains_add(a: Seq<Seq<char>>, b: Seq<Seq<char>>)
    ensures
        forall|y: Seq<char>| #[trigger] (a + b).contains(y) <==> a.contains(y) || b.contains(y),
{
    assert forall|y: Seq<char>| #[trigger] (a + b).contains(y) <==> a.contains(y) || b.contains(
        y,
    ) by {
        if (a + b).contains(y) {
            let i = choose|i: int| 0 <= i < (a + b).len() && (a + b)[i] == y;
            if i < a.len() {
                assert(a[i] == y);
            } else {
                assert(b[i - a.len()] == y);
            }
        }
        if a.contains(y) {
            let i = choose|i: int| 0 <= i < a.len() && a[i] == y;
            assert((a + b)[i] == y);
        }
        if b.contains(y) {
            let i = choose|i: int| 0 <= i < b.len() && b[i] == y;
            assert((a + b)[i + a.len()] == y);
        }
    }
}

proof fn lemma_line_contains(label: Seq<char>, value: Option<Seq<char>>)
    ensures
        forall|y: Seq<char>| #[trigger]
            optional_line(label, value).contains(y) <==> (value is Some && y == label
                + value.unwrap()),
        forall|y: Seq<char>| #[trigger] seq![label + value.unwrap()].contains(y) <==> y == label
            + value.unwrap(),
{
    let one = seq![label + value.unwrap()];
    assert forall|y: Seq<char>| #[trigger] one.contains(y) <==> y == label + value.unwrap() by {
        if y == label + value.unwrap() {
            assert(one[0] == y);
        }
    }
}

/// Whether `line` is a line of `lines`.
pub open spec fn has_line(lines: Seq<Seq<char>>, line: Seq<char>) -> bool {
    lines.contains(line)
}

/// The view of a list of strings.
pub open spec fn lines_view(v: Seq<String>) -> Seq<Seq<char>> {
    v.map_values(|s: String| s@)
}

/// Appends the line `label` + `value` when the value is present.
fn push_optional_line(lines: &mut Vec<String>, label: &str, value: &Option<String>)
    ensures
        lines_view(final(lines)@) == lines_view(old(lines)@) + optional_line(label@, ov(*value)),
{
    match value {
        Some(v) => {
            let line = concat(label, v.as_str());
            lines.push(line);
            assert(lines_view(lines@) =~= lines_view(old(lines)@) + seq![label@ + v@]);
        },
        None => {
            assert(lines_view(lines@) =~= lines_view(old(lines)@) + Seq::<Seq<char>>::empty());
        },
    }
}

/// Appends the line `label` + `value`.
fn push_line(lines: &mut Vec<String>, label: &str, value: &str)
    ensures
        lines_view(final(lines)@) == lines_view(old(lines)@) + seq![label@ + value@],
{
    let line = concat(label, value);
    lines.push(line);
    assert(lines_view(lines@) =~= lines_view(old(lines)@) + seq![label@ + value@]);
}

impl Book {
    /// A multi-line, human-readable summary of the book.
    pub fn display_summary(&self) -> (r: String)
        ensures
            r@ == join(book_summary_lines(self@), "\n"@),
    {
        let mut lines: Vec<String> = Vec::new();
        push_line(&mut lines, "Title: ", self.title.as_str());
        push_optional_line(&mut lines, "Authors: ", &self.authors);
        push_optional_line(&mut lines, "Publisher: ", &self.publisher);
        push_optional_line(&mut lines, "Language: ", &self.language);
        push_optional_line(&mut lines, "Format: ", &self.format);
        push_optional_line(&mut lines, "Size: ", &self.size);
        push_optional_line(&mut lines, "Year: ", &self.year);
        push_line(&mut lines, "URL: ", self.url.as_str());
        push_line(&mut lines, "MD5 Hash: ", self.hash.as_str());
        assert(lines_view(lines@) =~= book_summary_lines(self@));
        join_exec(&lines, "\n")
    }
}

impl Paper {
    /// A multi-line, human-readable summary of the paper.
    pub fn display_summary(&self) -> (r: String)
        ensures
            r@ == join(paper_summary_lines(self@), "\n"@),
    {
        let mut lines: Vec<String> = Vec::new();
        push_line(&mut lines, "DOI: ", self.doi.as_str());
        push_optional_line(&mut lines, "Title: ", &self.title);
        push_optional_line(&mut lines, "Authors: ", &self.authors);
        push_optional_line(&mut lines, "Journal: ", &self.journal);
        push_optional_line(&mut lines, "Size: ", &self.size);
        push_optional_line(&mut lines, "MD5 Hash: ", &self.hash);
        push_optional_line(&mut lines, "Download URL: ", &self.download_url);
        push_line(&mut lines, "Page: ", self.page_url.as_str());
        assert(lines_view(lines@) =~= paper_summary_lines(self@));
        join_exec(&lines, "\n")
    }
}

proof fn lemma_label_line(t: Seq<char>, x: Seq<char>, l: Seq<char>, v: Option<Seq<char>>, d: int)
    requires
        0 <= d < t.len(),
        d < l.len(),
    ensures
        t == l ==> (optional_line(l, v).contains(t + x) <==> v == Some(x)),
        t[d] != l[d] ==> !optional_line(l, v).contains(t + x),
{
    lemma_line_contains(l, v);
    match v {
        Some(w) => {
            if t == l && t + x == l + w {
                assert((t + x).skip(t.len() as int) =~= x);
                assert((l + w).skip(l.len() as int) =~= w);
            }
            if t[d] != l[d] {
                assert((t + x)[d] == t[d]);
                assert((l + w)[d] == l[d]);
            }
        },
        None => {},
    }
}

/// A book's summary begins with its title and ends with its URL and hash,
/// and it holds the line of a label followed by `x` exactly when the book's
/// field of that label is `x`: authors, publisher, language, format, size and
/// year each under its own label.
pub proof fn lemma_book_summary_fields(b: BookView, x: Seq<char>)
    ensures
        book_summary_lines(b)[0] == "Title: "@ + b.title,
        book_summary_lines(b).last() == "MD5 Hash: "@ + b.hash,
        book_summary_lines(b)[book_summary_lines(b).len() - 2] == "URL: "@ + b.url,
        has_line(book_summary_lines(b), "Authors: "@ + x) <==> b.authors == Some(x),
        has_line(book_summary_lines(b), "Publisher: "@ + x) <==> b.publisher == Some(x),
        has_line(book_summary_lines(b), "Language: "@ + x) <==> b.language == Some(x),
        has_line(book_summary_lines(b), "Format: "@ + x) <==> b.format == Some(x),
        has_line(book_summary_lines(b), "Size: "@ + x) <==> b.size == Some(x),
        has_line(book_summary_lines(b), "Year: "@ + x) <==> b.year == Some(x),
{
    reveal_strlit("Title: ");
    reveal_strlit("Authors: ");
    reveal_strlit("Publisher: ");
    reveal_strlit("Language: ");
    reveal_strlit("Format: ");
    reveal_strlit("Size: ");
    reveal_strlit("Year: ");
    reveal_strlit("URL: ");
    reveal_strlit("MD5 Hash: ");
    let q0 = optional_line("Title: "@, Some(b.title));
    let q1 = optional_line("Authors: "@, b.authors);
    let q2 = optional_line("Publisher: "@, b.publisher);
    let q3 = optional_line("Language: "@, b.language);
    let q4 = optional_line("Format: "@, b.format);
    let q5 = optional_line("Size: "@, b.size);
    let q6 = optional_line("Year: "@, b.year);
    let q7 = optional_line("URL: "@, Some(b.url));
    let q8 = optional_line("MD5 Hash: "@, Some(b.hash));
    lemma_contains_add(q0, q1);
    lemma_contains_add(q0 + q1, q2);
    lemma_contains_add(q0 + q1 + q2, q3);
    lemma_contains_add(q0 + q1 + q2 + q3, q4);
    lemma_contains_add(q0 + q1 + q2 + q3 + q4, q5);
    lemma_contains_add(q0 + q1 + q2 + q3 + q4 + q5, q6);
    lemma_contains_add(q0 + q1 + q2 + q3 + q4 + q5 + q6, q7);
    lemma_contains_add(q0 + q1 + q2 + q3 + q4 + q5 + q6 + q7, q8);
    assert(book_summary_lines(b) =~= q0 + q1 + q2 + q3 + q4 + q5 + q6 + q7 + q8);
    lemma_label_line("Authors: "@, x, "Title: "@, Some(b.title), 0);
    lemma_label_line("Authors: "@, x, "Authors: "@, b.authors, 0);
    lemma_label_line("Authors: "@, x, "Publisher: "@, b.publisher, 0);
    lemma_label_line("Authors: "@, x, "Language: "@, b.language, 0);
    lemma_label_line("Authors: "@, x, "Format: "@, b.format, 0);
    lemma_label_line("Authors: "@, x, "Size: "@, b.size, 0);
    lemma_label_line("Authors: "@, x, "Year: "@, b.year, 0);
    lemma_label_line("Authors: "@, x, "URL: "@, Some(b.url), 0);
    lemma_label_line("Authors: "@, x, "MD5 Hash: "@, Some(b.hash), 0);
    lemma_label_line("Publisher: "@, x, "Title: "@, Some(b.title), 0);
    lemma_label_line("Publisher: "@, x, "Authors: "@, b.authors, 0);
    lemma_label_line("Publisher: "@, x, "Publisher: "@, b.publisher, 0);
    lemma_label_line("Publisher: "@, x, "Language: "@, b.language, 0);
    lemma_label_line("Publisher: "@, x, "Format: "@, b.format, 0);
    lemma_label_line("Publisher: "@, x, "Size: "@, b.size, 0);
    lemma_label_line("Publisher: "@, x, "Year: "@, b.year, 0);
    lemma_label_line("Publisher: "@, x, "URL: "@, Some(b.url), 0);
    lemma_label_line("Publisher: "@, x, "MD5 Hash: "@, Some(b.hash), 0);
    lemma_label_line("Language: "@, x, "Title: "@, Some(b.title), 0);
    lemma_label_line("Language: "@, x, "Authors: "@, b.authors, 0);
    lemma_label_line("Language: "@, x, "Publisher: "@, b.publisher, 0);
    lemma_label_line("Language: "@, x, "Language: "@, b.language, 0);
    lemma_label_line("Language: "@, x, "Format: "@, b.format, 0);
    lemma_label_line("Language: "@, x, "Size: "@, b.size, 0);
    lemma_label_line("Language: "@, x, "Year: "@, b.year, 0);
    lemma_label_line("Language: "@, x, "URL: "@, Some(b.url), 0);
    lemma_label_line("Language: "@, x, "MD5 Hash: "@, Some(b.hash), 0);
    lemma_label_line("Format: "@, x, "Title: "@, Some(b.title), 0);
    lemma_label_line("Format: "@, x, "Authors: "@, b.authors, 0);
    lemma_label_line("Format: "@, x, "Publisher: "@, b.publisher, 0);
    lemma_label_line("Format: "@, x, "Language: "@, b.language, 0);
    lemma_label_line("Format: "@, x, "Format: "@, b.format, 0);
    lemma_label_line("Format: "@, x, "Size: "@, b.size, 0);
    lemma_label_line("Format: "@, x, "Year: "@, b.year, 0);
    lemma_label_line("Format: "@, x, "URL: "@, Some(b.url), 0);
    lemma_label_line("Format: "@, x, "MD5 Hash: "@, Some(b.hash), 0);
    lemma_label_line("Size: "@, x, "Title: "@, Some(b.title), 0);
    lemma_label_line("Size: "@, x, "Authors: "@, b.authors, 0);
    lemma_label_line("Size: "@, x, "Publisher: "@, b.publisher, 0);
    lemma_label_line("Size: "@, x, "Language: "@, b.language, 0);
    lemma_label_line("Size: "@, x, "Format: "@, b.format, 0);
    lemma_label_line("Size: "@, x, "Size: "@, b.size, 0);
    lemma_label_line("Size: "@, x, "Year: "@, b.year, 0);
    lemma_label_line("Size: "@, x, "URL: "@, Some(b.url), 0);
    lemma_label_line("Size: "@, x, "MD5 Hash: "@, Some(b.hash), 0);
    lemma_label_line("Year: "@, x, "Title: "@, Some(b.title), 0);
    lemma_label_line("Year: "@, x, "Authors: "@, b.authors, 0);
    lemma_label_line("Year: "@, x, "Publisher: "@, b.publisher, 0);
    lemma_label_line("Year: "@, x, "Language: "@, b.language, 0);
    lemma_label_line("Year: "@, x, "Format: "@, b.format, 0);
    lemma_label_line("Year: "@, x, "Size: "@, b.size, 0);
    lemma_label_line("Year: "@, x, "Year: "@, b.year, 0);
    lemma_label_line("Year: "@, x, "URL: "@, Some(b.url), 0);
    lemma_label_line("Year: "@, x, "MD5 Hash: "@, Some(b.hash), 0);
}

/// A paper's summary begins with its DOI and ends with its page, and it
/// holds the line of a label followed by `x` exactly when the paper's field
/// of that label is `x`: title, authors, journal, size, hash and download URL
/// each under its own label.
pub proof fn lemma_paper_summary_fields(p: PaperView, x: Seq<char>)
    ensures
        paper_summary_lines(p)[0] == "DOI: "@ + p.doi,
        paper_summary_lines(p).last() == "Page: "@ + p.page_url,
        has_line(paper_summary_lines(p), "Title: "@ + x) <==> p.title == Some(x),
        has_line(paper_summary_lines(p), "Authors: "@ + x) <==> p.authors == Some(x),
        has_line(paper_summary_lines(p), "Journal: "@ + x) <==> p.journal == Some(x),
        has_line(paper_summary_lines(p), "Size: "@ + x) <==> p.size == Some(x),
        has_line(paper_summary_lines(p), "MD5 Hash: "@ + x) <==> p.hash == Some(x),
        has_line(paper_summary_lines(p), "Download URL: "@ + x) <==> p.download_url == Some(x),
{
    reveal_strlit("DOI: ");
    reveal_strlit("Title: ");
    reveal_strlit("Authors: ");
    reveal_strlit("Journal: ");
    reveal_strlit("Size: ");
    reveal_strlit("MD5 Hash: ");
    reveal_strlit("Download URL: ");
    reveal_strlit("Page: ");
    let q0 = optional_line("DOI: "@, Some(p.doi));
    let q1 = optional_line("Title: "@, p.title);
    let q2 = optional_line("Authors: "@, p.authors);
    let q3 = optional_line("Journal: "@, p.journal);
    let q4 = optional_line("Size: "@, p.size);
    let q5 = optional_line("MD5 Hash: "@, p.hash);
    let q6 = optional_line("Download URL: "@, p.download_url);
    let q7 = optional_line("Page: "@, Some(p.page_url));
    lemma_contains_add(q0, q1);
    lemma_contains_add(q0 + q1, q2);
    lemma_contains_add(q0 + q1 + q2, q3);
    lemma_contains_add(q0 + q1 + q2 + q3, q4);
    lemma_contains_add(q0 + q1 + q2 + q3 + q4, q5);
    lemma_contains_add(q0 + q1 + q2 + q3 + q4 + q5, q6);
    lemma_contains_add(q0 + q1 + q2 + q3 + q4 + q5 + q6, q7);
    assert(paper_summary_lines(p) =~= q0 + q1 + q2 + q3 + q4 + q5 + q6 + q7);
    lemma_label_line("Title: "@, x, "DOI: "@, Some(p.doi), 0);
    lemma_label_line("Title: "@, x, "Title: "@, p.title, 0);
    lemma_label_line("Title: "@, x, "Authors: "@, p.authors, 0);
    lemma_label_line("Title: "@, x, "Journal: "@, p.journal, 0);
    lemma_label_line("Title: "@, x, "Size: "@, p.size, 0);
    lemma_label_line("Title: "@, x, "MD5 Hash: "@, p.hash, 0);
    lemma_label_line("Title: "@, x, "Download URL: "@, p.download_url, 0);
    lemma_label_line("Title: "@, x, "Page: "@, Some(p.page_url), 0);
    lemma_label_line("Authors: "@, x, "DOI: "@, Some(p.doi), 0);
    lemma_label_line("Authors: "@, x, "Title: "@, p.title, 0);
    lemma_label_line("Authors: "@, x, "Authors: "@, p.authors, 0);
    lemma_label_line("Authors: "@, x, "Journal: "@, p.journal, 0);
    lemma_label_line("Authors: "@, x, "Size: "@, p.size, 0);
    lemma_label_line("Authors: "@, x, "MD5 Hash: "@, p.hash, 0);
    lemma_label_line("Authors: "@, x, "Download URL: "@, p.download_url, 0);
    lemma_label_line("Authors: "@, x, "Page: "@, Some(p.page_url), 0);
    lemma_label_line("Journal: "@, x, "DOI: "@, Some(p.doi), 0);
    lemma_label_line("Journal: "@, x, "Title: "@, p.title, 0);
    lemma_label_line("Journal: "@, x, "Authors: "@, p.authors, 0);
    lemma_label_line("Journal: "@, x, "Journal: "@, p.journal, 0);
    lemma_label_line("Journal: "@, x, "Size: "@, p.size, 0);
    lemma_label_line("Journal: "@, x, "MD5 Hash: "@, p.hash, 0);
    lemma_label_line("Journal: "@, x, "Download URL: "@, p.download_url, 0);
    lemma_label_line("Journal: "@, x, "Page: "@, Some(p.page_url), 0);
    lemma_label_line("Size: "@, x, "DOI: "@, Some(p.doi), 0);
    lemma_label_line("Size: "@, x, "Title: "@, p.title, 0);
    lemma_label_line("Size: "@, x, "Authors: "@, p.authors, 0);
    lemma_label_line("Size: "@, x, "Journal: "@, p.journal, 0);
    lemma_label_line("Size: "@, x, "Size: "@, p.size, 0);
    lemma_label_line("Size: "@, x, "MD5 Hash: "@, p.hash, 0);
    lemma_label_line("Size: "@, x, "Download URL: "@, p.download_url, 0);
    lemma_label_line("Size: "@, x, "Page: "@, Some(p.page_url), 0);
    lemma_label_line("MD5 Hash: "@, x, "DOI: "@, Some(p.doi), 0);
    lemma_label_line("MD5 Hash: "@, x, "Title: "@, p.title, 0);
    lemma_label_line("MD5 Hash: "@, x, "Authors: "@, p.authors, 0);
    lemma_label_line("MD5 Hash: "@, x, "Journal: "@, p.journal, 0);
    lemma_label_line("MD5 Hash: "@, x, "Size: "@, p.size, 0);
    lemma_label_line("MD5 Hash: "@, x, "MD5 Hash: "@, p.hash, 0);
    lemma_label_line("MD5 Hash: "@, x, "Download URL: "@, p.download_url, 0);
    lemma_label_line("MD5 Hash: "@, x, "Page: "@, Some(p.page_url), 0);
    lemma_label_line("Download URL: "@, x, "DOI: "@, Some(p.doi), 1);
    lemma_label_line("Download URL: "@, x, "Title: "@, p.title, 0);
    lemma_label_line("Download URL: "@, x, "Authors: "@, p.authors, 0);
    lemma_label_line("Download URL: "@, x, "Journal: "@, p.journal, 0);
    lemma_label_line("Download URL: "@, x, "Size: "@, p.size, 0);
    lemma_label_line("Download URL: "@, x, "MD5 Hash: "@, p.hash, 0);
    lemma_label_line("Download URL: "@, x, "Download URL: "@, p.download_url, 0);
    lemma_label_line("Download URL: "@, x, "Page: "@, Some(p.page_url), 0);
}

} // verus!
