//! The tools that the MCP server offers: their descriptions, how a call is
//! dispatched and checked, and the text each call answers with.
use vstd::prelude::*;

use crate::domain::book::{Book, BookView, Paper, PaperView, book_summary_lines, paper_summary_lines};
use crate::downloader::download::DownloadedFileInfo;
use crate::errors::{AppError, error_text};
use crate::text::{
    append, concat, copy_str, decimal, join, join_exec, str_eq, to_lowercase, trim, trim_ws,
    u64_to_decimal, unicode_lowercase,
};

verus! {

// ---------------------------------------------------------------------------
// Descriptions
// ---------------------------------------------------------------------------

pub const BOOK_SEARCH_DESCRIPTION: &'static str = "Search Anna's Archive for books by title, author, or topic. Returns metadata including MD5 hash for downloading.";

pub const BOOK_SEARCH_SCHEMA: &'static str = r#"{"type":"object","properties":{"query":{"type":"string","description":"Search keywords (e.g., book title, author, topic, ISBN)"},"limit":{"type":"integer","description":"Optional maximum number of results to return (default 10)"}},"required":["query"]}"#;

pub const BOOK_DOWNLOAD_DESCRIPTION: &'static str = "Download a book by its MD5 hash from search results. Requires ANNAS_SECRET_KEY in environment or configuration.";

pub const BOOK_DOWNLOAD_SCHEMA: &'static str = r#"{"type":"object","properties":{"hash":{"type":"string","description":"MD5 hash of the book from search results"},"title":{"type":"string","description":"Book title to use for the saved file name"},"format":{"type":"string","description":"File format/extension (e.g., epub, pdf, mobi)"},"download_dir":{"type":"string","description":"Optional directory path to save the downloaded file (defaults to ANNAS_DOWNLOAD_PATH)"}},"required":["hash"]}"#;

pub const ARTICLE_SEARCH_DESCRIPTION: &'static str = "Search for academic papers and journal articles by DOI or keywords. Auto-detects if input is a DOI (starts with 10.).";

pub const ARTICLE_SEARCH_SCHEMA: &'static str = r#"{"type":"object","properties":{"query":{"type":"string","description":"DOI (e.g., '10.1038/nature12373') or search keywords"},"limit":{"type":"integer","description":"Optional maximum number of results to return"}},"required":["query"]}"#;

pub const ARTICLE_DOWNLOAD_DESCRIPTION: &'static str = "Download an academic article/paper by its DOI (uses SciDB direct download, or Fast Download if key is set).";

pub const ARTICLE_DOWNLOAD_SCHEMA: &'static str = r#"{"type":"object","properties":{"doi":{"type":"string","description":"DOI of the academic paper (e.g., '10.1038/nature12373')"},"download_dir":{"type":"string","description":"Optional directory path to save the downloaded paper (defaults to ANNAS_DOWNLOAD_PATH)"}},"required":["doi"]}"#;

pub const ITEM_DETAILS_DESCRIPTION: &'static str = "Get detailed Elasticsearch metadata for an item by MD5 hash (ISBNs, DOIs, IPFS CIDs, torrent paths, classifications).";

pub const ITEM_DETAILS_SCHEMA: &'static str = r#"{"type":"object","properties":{"md5":{"type":"string","description":"MD5 hash of the item"}},"required":["md5"]}"#;

pub const SEARCH_AND_DOWNLOAD_DESCRIPTION: &'static str = "Search for a book by query and automatically download the top matching result.";

pub const SEARCH_AND_DOWNLOAD_SCHEMA: &'static str = r#"{"type":"object","properties":{"query":{"type":"string","description":"Search query for the book"},"preferred_format":{"type":"string","description":"Optional preferred format (e.g., 'epub' or 'pdf')"},"download_dir":{"type":"string","description":"Optional directory to save the file"}},"required":["query"]}"#;

pub const MIRROR_STATUS_DESCRIPTION: &'static str = "Check the active Anna's Archive mirror and SLUM health status of candidate mirrors.";

pub const MIRROR_STATUS_SCHEMA: &'static str = r#"{"type":"object","properties":{}}"#;

/// A tool as the server lists it; the input schema is JSON text.
#[derive(Clone, Debug)]
pub struct ToolDescriptor {
    pub name: String,
    pub description: String,
    pub input_schema: String,
}

pub struct ToolDescriptorView {
    pub name: Seq<char>,
    pub description: Seq<char>,
    pub input_schema: Seq<char>,
}

impl View for ToolDescriptor {
    type V = ToolDescriptorView;

    open spec fn view(&self) -> ToolDescriptorView {
        ToolDescriptorView {
            name: self.name@,
            description: self.description@,
            input_schema: self.input_schema@,
        }
    }
}

/// The tools, in the order they are listed.
pub open spec fn tool_table() -> Seq<ToolDescriptorView> {
    seq![
        ToolDescriptorView {
            name: "book_search"@,
            description: BOOK_SEARCH_DESCRIPTION@,
            input_schema: BOOK_SEARCH_SCHEMA@,
        },
        ToolDescriptorView {
            name: "book_download"@,
            description: BOOK_DOWNLOAD_DESCRIPTION@,
            input_schema: BOOK_DOWNLOAD_SCHEMA@,
        },
        ToolDescriptorView {
            name: "article_search"@,
            description: ARTICLE_SEARCH_DESCRIPTION@,
            input_schema: ARTICLE_SEARCH_SCHEMA@,
        },
        ToolDescriptorView {
            name: "article_download"@,
            description: ARTICLE_DOWNLOAD_DESCRIPTION@,
            input_schema: ARTICLE_DOWNLOAD_SCHEMA@,
        },
        ToolDescriptorView {
            name: "get_item_details"@,
            description: ITEM_DETAILS_DESCRIPTION@,
            input_schema: ITEM_DETAILS_SCHEMA@,
        },
        ToolDescriptorView {
            name: "search_and_download_book"@,
            description: SEARCH_AND_DOWNLOAD_DESCRIPTION@,
            input_schema: SEARCH_AND_DOWNLOAD_SCHEMA@,
        },
        ToolDescriptorView {
            name: "mirror_status"@,
            description: MIRROR_STATUS_DESCRIPTION@,
            input_schema: MIRROR_STATUS_SCHEMA@,
        },
    ]
}

fn descriptor(name: &str, description: &str, schema: &str) -> (r: ToolDescriptor)
    ensures
        r@ == (ToolDescriptorView {
            name: name@,
            description: description@,
            input_schema: schema@,
        }),
{
    ToolDescriptor {
        name: copy_str(name),
        description: copy_str(description),
        input_schema: copy_str(schema),
    }
}

/// The tools that the server offers.
pub fn tool_descriptors() -> (r: Vec<ToolDescriptor>)
    ensures
        r@.map_values(|d: ToolDescriptor| d@) == tool_table(),
{
    let mut r: Vec<ToolDescriptor> = Vec::new();
    r.push(descriptor("book_search", BOOK_SEARCH_DESCRIPTION, BOOK_SEARCH_SCHEMA));
    r.push(descriptor("book_download", BOOK_DOWNLOAD_DESCRIPTION, BOOK_DOWNLOAD_SCHEMA));
    r.push(descriptor("article_search", ARTICLE_SEARCH_DESCRIPTION, ARTICLE_SEARCH_SCHEMA));
    r.push(descriptor("article_download", ARTICLE_DOWNLOAD_DESCRIPTION, ARTICLE_DOWNLOAD_SCHEMA));
    r.push(descriptor("get_item_details", ITEM_DETAILS_DESCRIPTION, ITEM_DETAILS_SCHEMA));
    r.push(
        descriptor(
            "search_and_download_book",
            SEARCH_AND_DOWNLOAD_DESCRIPTION,
            SEARCH_AND_DOWNLOAD_SCHEMA,
        ),
    );
    r.push(descriptor("mirror_status", MIRROR_STATUS_DESCRIPTION, MIRROR_STATUS_SCHEMA));
    assert(r@.map_values(|d: ToolDescriptor| d@) =~= tool_table());
    r
}

// ---------------------------------------------------------------------------
// Dispatch
// ---------------------------------------------------------------------------

/// The tools that a call can name.
#[derive(Clone, Copy, Debug, PartialEq, Eq, Structural)]
pub enum ToolKind {
    BookSearch,
    BookDownload,
    ArticleSearch,
    ArticleDownload,
    GetItemDetails,
    SearchAndDownloadBook,
    MirrorStatus,
}

/// The tool a call names.
pub open spec fn kind_of(name: Seq<char>) -> Option<ToolKind> {
    if name == "book_search"@ {
        Some(ToolKind::BookSearch)
    } else if name == "book_download"@ {
        Some(ToolKind::BookDownload)
    } else if name == "article_search"@ {
        Some(ToolKind::ArticleSearch)
    } else if name == "article_download"@ {
        Some(ToolKind::ArticleDownload)
    } else if name == "get_item_details"@ {
        Some(ToolKind::GetItemDetails)
    } else if name == "search_and_download_book"@ {
        Some(ToolKind::SearchAndDownloadBook)
    } else if name == "mirror_status"@ {
        Some(ToolKind::MirrorStatus)
    } else {
        None
    }
}

/// The tool that a call names, if the server has it.
pub fn tool_kind(name: &str) -> (r: Option<ToolKind>)
    ensures
        r == kind_of(name@),
{
    if str_eq(name, "book_search") {
        Some(ToolKind::BookSearch)
    } else if str_eq(name, "book_download") {
        Some(ToolKind::BookDownload)
    } else if str_eq(name, "article_search") {
        Some(ToolKind::ArticleSearch)
    } else if str_eq(name, "article_download") {
        Some(ToolKind::ArticleDownload)
    } else if str_eq(name, "get_item_details") {
        Some(ToolKind::GetItemDetails)
    } else if str_eq(name, "search_and_download_book") {
        Some(ToolKind::SearchAndDownloadBook)
    } else if str_eq(name, "mirror_status") {
        Some(ToolKind::MirrorStatus)
    } else {
        None
    }
}

/// Every listed tool can be called by its name, and different listed tools
/// are different tools.
pub proof fn lemma_listed_tools_dispatch()
    ensures
        forall|i: int| 0 <= i < tool_table().len() ==> #[trigger] kind_of(tool_table()[i].name) is Some,
        forall|i: int, j: int|
            0 <= i < j < tool_table().len() ==> kind_of(#[trigger] tool_table()[i].name) != kind_of(
                #[trigger] tool_table()[j].name,
            ),
{
    reveal_strlit("book_search");
    reveal_strlit("book_download");
    reveal_strlit("article_search");
    reveal_strlit("article_download");
    reveal_strlit("get_item_details");
    reveal_strlit("search_and_download_book");
    reveal_strlit("mirror_status");
    let t = tool_table();
    assert("book_search"@.len() == 11);
    assert("book_download"@.len() == 13);
    assert("article_search"@.len() == 14);
    assert("article_download"@.len() == 16);
    assert("get_item_details"@.len() == 16);
    assert("search_and_download_book"@.len() == 24);
    assert("mirror_status"@.len() == 13);
    assert("mirror_status"@[0] != "book_download"@[0]);
    assert("get_item_details"@[0] != "article_download"@[0]);
    assert(kind_of(t[0].name) == Some(ToolKind::BookSearch));
    assert(kind_of(t[1].name) == Some(ToolKind::BookDownload));
    assert(kind_of(t[2].name) == Some(ToolKind::ArticleSearch));
    assert(kind_of(t[3].name) == Some(ToolKind::ArticleDownload));
    assert(kind_of(t[4].name) == Some(ToolKind::GetItemDetails));
    assert(kind_of(t[5].name) == Some(ToolKind::SearchAndDownloadBook));
    assert(kind_of(t[6].name) == Some(ToolKind::MirrorStatus));
}

// ---------------------------------------------------------------------------
// Results
// ---------------------------------------------------------------------------

/// What a tool call answers: a text, marked as an error or not.
#[derive(Clone, Debug)]
pub struct ToolCallResult {
    pub text: String,
    pub is_error: bool,
}

/// A successful answer.
pub open spec fn ok_text(t: Seq<char>) -> (Seq<char>, bool) {
    (t, false)
}

/// An error answer.
pub open spec fn error_answer(t: Seq<char>) -> (Seq<char>, bool) {
    (t, true)
}

impl ToolCallResult {
    pub open spec fn view_pair(&self) -> (Seq<char>, bool) {
        (self.text@, self.is_error)
    }

    /// A successful answer with this text.
    pub fn text(t: String) -> (r: Self)
        ensures
            r.view_pair() == ok_text(t@),
    {
        ToolCallResult { text: t, is_error: false }
    }

    /// An error answer with this text.
    pub fn error(t: String) -> (r: Self)
        ensures
            r.view_pair() == error_answer(t@),
    {
        ToolCallResult { text: t, is_error: true }
    }
}

/// The answer to a call of a tool the server does not have.
pub fn unknown_tool(name: &str) -> (r: ToolCallResult)
    ensures
        r.view_pair() == error_answer("Unknown tool: "@ + name@),
{
    ToolCallResult::error(concat("Unknown tool: ", name))
}

/// A required text argument: trimmed, present and not blank.
pub open spec fn required_arg(value: Option<Seq<char>>, name: Seq<char>) -> Result<
    Seq<char>,
    (Seq<char>, bool),
> {
    match value {
        Some(v) => if trim_ws(v).len() > 0 {
            Ok(trim_ws(v))
        } else {
            Err(error_answer("Missing or empty '"@ + name + "' parameter"@))
        },
        None => Err(error_answer("Missing or empty '"@ + name + "' parameter"@)),
    }
}

/// Checks a required text argument of a call: its trimmed value, or the
/// error answer that names it.
pub fn required_param(value: Option<&str>, name: &str) -> (r: Result<String, ToolCallResult>)
    ensures
        match required_arg(
            match value {
                Some(v) => Some(v@),
                None => None,
            },
            name@,
        ) {
            Ok(v) => r matches Ok(s) && s@ == v,
            Err(e) => r matches Err(x) && x.view_pair() == e,
        },
{
    let missing = {
        let mut m = concat("Missing or empty '", name);
        append(&mut m, "' parameter");
        m
    };
    match value {
        Some(v) => {
            let t = trim(v);
            if t.as_str().is_empty() {
                Err(ToolCallResult::error(missing))
            } else {
                Ok(t)
            }
        },
        None => Err(ToolCallResult::error(missing)),
    }
}

/// An optional text argument, with its default.
pub fn param_or(value: Option<&str>, default: &str) -> (r: String)
    ensures
        r@ == match value {
            Some(v) => v@,
            None => default@,
        },
{
    match value {
        Some(v) => copy_str(v),
        None => copy_str(default),
    }
}

/// Numbered entries, one per item, separated by blank lines.
pub open spec fn numbered(label: Seq<char>, summaries: Seq<Seq<char>>) -> Seq<char> {
    join(
        Seq::new(
            summaries.len(),
            |i: int| "--- "@ + label + " #"@ + decimal((i + 1) as nat) + " ---\n"@ + summaries[i],
        ),
        "\n\n"@,
    )
}

fn numbered_exec(label: &str, summaries: &Vec<String>) -> (r: String)
    ensures
        r@ == numbered(label@, summaries@.map_values(|s: String| s@)),
{
    let ghost sv = summaries@.map_values(|s: String| s@);
    let ghost want = Seq::new(
        sv.len(),
        |i: int| "--- "@ + label@ + " #"@ + decimal((i + 1) as nat) + " ---\n"@ + sv[i],
    );
    let mut entries: Vec<String> = Vec::new();
    let mut i: usize = 0;
    while i < summaries.len()
        invariant
            0 <= i <= summaries.len(),
            sv == summaries@.map_values(|s: String| s@),
            want == Seq::new(
                sv.len(),
                |i: int| "--- "@ + label@ + " #"@ + decimal((i + 1) as nat) + " ---\n"@ + sv[i],
            ),
            entries@.map_values(|s: String| s@) == want.take(i as int),
        decreases summaries.len() - i,
    {
        let mut e = concat("--- ", label);
        append(&mut e, " #");
        append(&mut e, u64_to_decimal((i as u64) + 1).as_str());
        append(&mut e, " ---\n");
        append(&mut e, summaries[i].as_str());
        let ghost before = entries@;
        entries.push(e);
        assert(entries@.map_values(|s: String| s@) =~= before.map_values(|s: String| s@).push(
            want[i as int],
        ));
        assert(want.take(i + 1) =~= want.take(i as int).push(want[i as int]));
        i += 1;
    }
    assert(want.take(summaries.len() as int) =~= want);
    join_exec(&entries, "\n\n")
}

/// The summaries of the books.
pub open spec fn book_summaries(books: Seq<BookView>) -> Seq<Seq<char>> {
    books.map_values(|b: BookView| join(book_summary_lines(b), "\n"@))
}

/// The summaries of the papers.
pub open spec fn paper_summaries(papers: Seq<PaperView>) -> Seq<Seq<char>> {
    papers.map_values(|p: PaperView| join(paper_summary_lines(p), "\n"@))
}

/// The answer to a book search.
pub open spec fn book_search_answer(books: Result<Seq<BookView>, Seq<char>>) -> (Seq<char>, bool) {
    match books {
        Ok(b) => if b.len() == 0 {
            ok_text("No books found matching the search query."@)
        } else {
            ok_text(numbered("Book"@, book_summaries(b)))
        },
        Err(e) => error_answer("Search failed: "@ + e),
    }
}

/// The answer to an article search.
pub open spec fn article_search_answer(papers: Result<Seq<PaperView>, Seq<char>>) -> (
    Seq<char>,
    bool,
) {
    match papers {
        Ok(p) => if p.len() == 0 {
            ok_text("No articles or papers found matching query."@)
        } else {
            ok_text(numbered("Article"@, paper_summaries(p)))
        },
        Err(e) => error_answer("Article search failed: "@ + e),
    }
}

fn book_summaries_exec(books: &Vec<Book>) -> (r: Vec<String>)
    ensures
        r@.map_values(|s: String| s@) == book_summaries(books@.map_values(|b: Book| b@)),
{
    let ghost bv = books@.map_values(|b: Book| b@);
    let mut r: Vec<String> = Vec::new();
    let mut i: usize = 0;
    while i < books.len()
        invariant
            0 <= i <= books.len(),
            bv == books@.map_values(|b: Book| b@),
            r@.map_values(|s: String| s@) == book_summaries(bv).take(i as int),
        decreases books.len() - i,
    {
        let s = books[i].display_summary();
        let ghost before = r@;
        r.push(s);
        assert(r@.map_values(|s: String| s@) =~= before.map_values(|s: String| s@).push(s@));
        assert(book_summaries(bv).take(i + 1) =~= book_summaries(bv).take(i as int).push(
            book_summaries(bv)[i as int],
        ));
        i += 1;
    }
    assert(book_summaries(bv).take(books.len() as int) =~= book_summaries(bv));
    r
}

fn paper_summaries_exec(papers: &Vec<Paper>) -> (r: Vec<String>)
    ensures
        r@.map_values(|s: String| s@) == paper_summaries(papers@.map_values(|p: Paper| p@)),
{
    let ghost pv = papers@.map_values(|p: Paper| p@);
    let mut r: Vec<String> = Vec::new();
    let mut i: usize = 0;
    while i < papers.len()
        invariant
            0 <= i <= papers.len(),
            pv == papers@.map_values(|p: Paper| p@),
            r@.map_values(|s: String| s@) == paper_summaries(pv).take(i as int),
        decreases papers.len() - i,
    {
        let s = papers[i].display_summary();
        let ghost before = r@;
        r.push(s);
        assert(r@.map_values(|s: String| s@) =~= before.map_values(|s: String| s@).push(s@));
        assert(paper_summaries(pv).take(i + 1) =~= paper_summaries(pv).take(i as int).push(
            paper_summaries(pv)[i as int],
        ));
        i += 1;
    }
    assert(paper_summaries(pv).take(papers.len() as int) =~= paper_summaries(pv));
    r
}

/// The answer to a book search, from its outcome.
pub fn book_search_result(books: &Result<Vec<Book>, AppError>) -> (r: ToolCallResult)
    ensures
        r.view_pair() == book_search_answer(
            match books {
                Ok(b) => Ok(b@.map_values(|x: Book| x@)),
                Err(e) => Err(error_text(e@)),
            },
        ),
{
    match books {
        Ok(b) => {
            if b.len() == 0 {
                ToolCallResult::text(String::from_str("No books found matching the search query."))
            } else {
                let s = book_summaries_exec(b);
                ToolCallResult::text(numbered_exec("Book", &s))
            }
        },
        Err(e) => ToolCallResult::error(concat("Search failed: ", e.message().as_str())),
    }
}

/// The answer to an article search, from its outcome.
pub fn article_search_result(papers: &Result<Vec<Paper>, AppError>) -> (r: ToolCallResult)
    ensures
        r.view_pair() == article_search_answer(
            match papers {
                Ok(p) => Ok(p@.map_values(|x: Paper| x@)),
                Err(e) => Err(error_text(e@)),
            },
        ),
{
    match papers {
        Ok(p) => {
            if p.len() == 0 {
                ToolCallResult::text(String::from_str("No articles or papers found matching query."))
            } else {
                let s = paper_summaries_exec(p);
                ToolCallResult::text(numbered_exec("Article", &s))
            }
        },
        Err(e) => ToolCallResult::error(concat("Article search failed: ", e.message().as_str())),
    }
}

/// The lines that report a saved file.
pub open spec fn saved_file_text(heading: Seq<char>, filename: Seq<char>, bytes: u64, path: Seq<char>) -> Seq<
    char,
> {
    heading + "\nFile: "@ + filename + "\nSize: "@ + decimal(bytes as nat) + " bytes\nSaved to: "@
        + path
}

/// The lines that report a saved file, under a heading.
pub fn saved_file_message(heading: &str, info: &DownloadedFileInfo) -> (r: String)
    ensures
        r@ == saved_file_text(heading@, info.filename@, info.bytes_written, info.file_path@),
{
    let mut r = concat(heading, "\nFile: ");
    append(&mut r, info.filename.as_str());
    append(&mut r, "\nSize: ");
    append(&mut r, u64_to_decimal(info.bytes_written).as_str());
    append(&mut r, " bytes\nSaved to: ");
    append(&mut r, info.file_path.as_str());
    r
}

/// The answer to a book download, from its outcome.
pub fn book_download_result(outcome: &Result<DownloadedFileInfo, AppError>) -> (r: ToolCallResult)
    ensures
        match outcome {
            Ok(i) => r.view_pair() == ok_text(
                saved_file_text(
                    "Book downloaded successfully!"@,
                    i.filename@,
                    i.bytes_written,
                    i.file_path@,
                ),
            ),
            Err(e) => r.view_pair() == error_answer("Download failed: "@ + error_text(e@)),
        },
{
    match outcome {
        Ok(i) => ToolCallResult::text(saved_file_message("Book downloaded successfully!", i)),
        Err(e) => ToolCallResult::error(concat("Download failed: ", e.message().as_str())),
    }
}

/// The answer to an article download, from its outcome.
pub fn article_download_result(outcome: &Result<DownloadedFileInfo, AppError>) -> (r: ToolCallResult)
    ensures
        match outcome {
            Ok(i) => r.view_pair() == ok_text(
                saved_file_text(
                    "Article downloaded successfully!"@,
                    i.filename@,
                    i.bytes_written,
                    i.file_path@,
                ),
            ),
            Err(e) => r.view_pair() == error_answer("Article download failed: "@ + error_text(e@)),
        },
{
    match outcome {
        Ok(i) => ToolCallResult::text(saved_file_message("Article downloaded successfully!", i)),
        Err(e) => ToolCallResult::error(concat("Article download failed: ", e.message().as_str())),
    }
}

/// The answer when the details of an item could not be retrieved.
pub fn item_details_failed(e: &AppError) -> (r: ToolCallResult)
    ensures
        r.view_pair() == error_answer("Failed to retrieve item details: "@ + error_text(e@)),
{
    ToolCallResult::error(concat("Failed to retrieve item details: ", e.message().as_str()))
}

/// The answer when the details of an item could not be written as JSON.
pub fn serialization_failed(message: &str) -> (r: ToolCallResult)
    ensures
        r.view_pair() == error_answer("Serialization error: "@ + message@),
{
    ToolCallResult::error(concat("Serialization error: ", message))
}

// ---------------------------------------------------------------------------
// Search and download
// ---------------------------------------------------------------------------

/// The number of results a search-and-download looks at.
pub const SEARCH_AND_DOWNLOAD_LIMIT: usize = 5;

/// The position of the first book from `k` on whose format, in lower case,
/// is `target`.
pub open spec fn first_in_format(books: Seq<BookView>, target: Seq<char>, k: int) -> Option<int>
    decreases books.len() - k,
{
    if k < 0 || k >= books.len() {
        None
    } else if books[k].format matches Some(f) && unicode_lowercase(f) == target {
        Some(k)
    } else {
        first_in_format(books, target, k + 1)
    }
}

/// The book that a search-and-download takes: the first in the preferred
/// format (given in lower case), else the first.
pub open spec fn chosen_book(books: Seq<BookView>, preferred: Option<Seq<char>>) -> int {
    match preferred {
        Some(t) => match first_in_format(books, t, 0) {
            Some(i) => i,
            None => 0,
        },
        None => 0,
    }
}

/// Book `b` is in the format `target`: it names a format whose lower-case
/// form is `target`.
pub open spec fn in_format(b: BookView, target: Seq<char>) -> bool {
    match b.format {
        Some(f) => unicode_lowercase(f) == target,
        None => false,
    }
}

proof fn lemma_first_in_format(books: Seq<BookView>, target: Seq<char>, k: int)
    requires
        0 <= k,
    ensures
        match first_in_format(books, target, k) {
            Some(i) => k <= i < books.len() && in_format(books[i], target) && forall|j: int|
                k <= j < i ==> !in_format(#[trigger] books[j], target),
            None => forall|j: int| k <= j < books.len() ==> !in_format(#[trigger] books[j], target),
        },
    decreases books.len() - k,
{
    if k < books.len() {
        lemma_first_in_format(books, target, k + 1);
    }
}

/// A search-and-download takes the best ranked result in the preferred
/// format: when some result is in that format, the chosen one is, and no
/// result before it is; when none is, or no format is preferred, it takes the
/// first result.
pub proof fn lemma_chosen_book_is_first_in_format(books: Seq<BookView>, target: Seq<char>)
    ensures
        books.len() > 0 ==> 0 <= chosen_book(books, Some(target)) < books.len(),
        (exists|i: int| 0 <= i < books.len() && #[trigger] in_format(books[i], target)) ==> {
            let c = chosen_book(books, Some(target));
            &&& in_format(books[c], target)
            &&& forall|j: int| 0 <= j < c ==> !in_format(#[trigger] books[j], target)
        },
        !(exists|i: int| 0 <= i < books.len() && #[trigger] in_format(books[i], target))
            ==> chosen_book(books, Some(target)) == 0,
        chosen_book(books, None) == 0,
{
    lemma_first_in_format(books, target, 0);
}

/// The position of the book to download among the search results.
pub fn select_book(books: &Vec<Book>, preferred: Option<&str>) -> (r: usize)
    requires
        books@.len() > 0,
    ensures
        r as int == chosen_book(
            books@.map_values(|b: Book| b@),
            match preferred {
                Some(p) => Some(p@),
                None => None,
            },
        ),
        r < books@.len(),
{
    let ghost bv = books@.map_values(|b: Book| b@);
    let target = match preferred {
        Some(t) => t,
        None => {
            return 0;
        },
    };
    let mut k: usize = 0;
    while k < books.len()
        invariant
            0 <= k <= books.len(),
            bv == books@.map_values(|b: Book| b@),
            preferred matches Some(p) && p@ == target@,
            first_in_format(bv, target@, 0) == first_in_format(bv, target@, k as int),
        decreases books.len() - k,
    {
        assert(bv[k as int] == books@[k as int]@);
        match &books[k].format {
            Some(f) => {
                let lf = to_lowercase(f.as_str());
                if str_eq(lf.as_str(), target) {
                    return k;
                }
            },
            None => {},
        }
        k += 1;
    }
    0
}

/// The preferred format of a search-and-download, in lower case.
pub fn preferred_format(value: Option<&str>) -> (r: Option<String>)
    ensures
        match value {
            Some(v) => r matches Some(s) && s@ == unicode_lowercase(v@),
            None => r is None,
        },
{
    match value {
        Some(v) => Some(to_lowercase(v)),
        None => None,
    }
}

/// The format a chosen book is saved in: its own, else `pdf`.
pub fn download_format(book: &Book) -> (r: String)
    ensures
        r@ == match book@.format {
            Some(f) => f,
            None => "pdf"@,
        },
{
    match &book.format {
        Some(f) => copy_str(f.as_str()),
        None => String::from_str("pdf"),
    }
}

/// The answer when a search-and-download finds nothing.
pub fn nothing_found(query: &str) -> (r: ToolCallResult)
    ensures
        r.view_pair() == ok_text("No books found matching '"@ + query@ + "'."@),
{
    let mut t = concat("No books found matching '", query);
    append(&mut t, "'.");
    ToolCallResult::text(t)
}

/// The answer when the search of a search-and-download fails.
pub fn search_failed(e: &AppError) -> (r: ToolCallResult)
    ensures
        r.view_pair() == error_answer("Search failed: "@ + error_text(e@)),
{
    ToolCallResult::error(concat("Search failed: ", e.message().as_str()))
}

/// The answer to a search-and-download, once the chosen book's download ended.
pub fn search_and_download_result(
    book: &Book,
    format: &str,
    outcome: &Result<DownloadedFileInfo, AppError>,
) -> (r: ToolCallResult)
    ensures
        match outcome {
            Ok(i) => r.view_pair() == ok_text(
                "Successfully matched and downloaded book:\nTitle: "@ + book.title@ + "\nFormat: "@
                    + format@ + "\nHash: "@ + book.hash@ + "\nFile: "@ + i.filename@ + "\nPath: "@
                    + i.file_path@,
            ),
            Err(e) => r.view_pair() == error_answer(
                "Found book '"@ + book.title@ + "' ("@ + book.hash@ + ") but download failed: "@
                    + error_text(e@),
            ),
        },
{
    match outcome {
        Ok(i) => {
            let mut t = concat("Successfully matched and downloaded book:\nTitle: ", book.title.as_str());
            append(&mut t, "\nFormat: ");
            append(&mut t, format);
            append(&mut t, "\nHash: ");
            append(&mut t, book.hash.as_str());
            append(&mut t, "\nFile: ");
            append(&mut t, i.filename.as_str());
            append(&mut t, "\nPath: ");
            append(&mut t, i.file_path.as_str());
            ToolCallResult::text(t)
        },
        Err(e) => {
            let mut t = concat("Found book '", book.title.as_str());
            append(&mut t, "' (");
            append(&mut t, book.hash.as_str());
            append(&mut t, ") but download failed: ");
            append(&mut t, e.message().as_str());
            ToolCallResult::error(t)
        },
    }
}

} // verus!
