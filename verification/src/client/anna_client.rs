//! The decisions of the Anna's Archive client: which mirror to use, the
//! addresses it requests, and what it makes of the answers.
use vstd::prelude::*;

use crate::client::scraper::{AnnaScraper, scidb_detail, scidb_md5, scihub_paper};
use crate::domain::book::{Paper, PaperView, ov};
use crate::downloader::partner::{url_encode, url_encoded};
use crate::errors::{AppError, AppErrorView};
use crate::mirror::resolver::{MirrorResolver, normalized_host};
use crate::text::{append, concat, copy_str, has_prefix, str_starts_with, trim, trim_ws};

verus! {

// ---------------------------------------------------------------------------
// The active mirror
// ---------------------------------------------------------------------------

/// The mirror in use, once one has been resolved.
pub struct MirrorCache {
    active: Option<String>,
}

impl View for MirrorCache {
    type V = Option<Seq<char>>;

    closed spec fn view(&self) -> Option<Seq<char>> {
        ov(self.active)
    }
}

/// Where the mirror to use comes from.
#[derive(Clone, Debug)]
pub enum MirrorLookup {
    /// This mirror is known.
    Known(String),
    /// A mirror must be resolved (and then stored).
    Resolve,
}

pub enum MirrorLookupView {
    Known(Seq<char>),
    Resolve,
}

impl View for MirrorLookup {
    type V = MirrorLookupView;

    open spec fn view(&self) -> MirrorLookupView {
        match self {
            MirrorLookup::Known(m) => MirrorLookupView::Known(m@),
            MirrorLookup::Resolve => MirrorLookupView::Resolve,
        }
    }
}

/// The mirror to use: a configured one (reduced to its host) before all,
/// else the stored one, else one to resolve.
pub open spec fn mirror_lookup(
    cache: Option<Seq<char>>,
    configured: Option<Seq<char>>,
) -> MirrorLookupView {
    match configured {
        Some(c) => MirrorLookupView::Known(normalized_host(c)),
        None => match cache {
            Some(m) => MirrorLookupView::Known(m),
            None => MirrorLookupView::Resolve,
        },
    }
}

impl MirrorCache {
    /// No mirror resolved yet.
    pub fn new() -> (r: Self)
        ensures
            r@ is None,
    {
        MirrorCache { active: None }
    }

    /// The mirror to use, given the configured one.
    pub fn lookup(&self, configured: Option<&str>) -> (r: MirrorLookup)
        ensures
            r@ == mirror_lookup(
                self@,
                match configured {
                    Some(c) => Some(c@),
                    None => None,
                },
            ),
    {
        match configured {
            Some(c) => MirrorLookup::Known(MirrorResolver::normalize_base_url(c)),
            None => match &self.active {
                Some(m) => MirrorLookup::Known(copy_str(m.as_str())),
                None => MirrorLookup::Resolve,
            },
        }
    }

    /// Keeps a resolved mirror.
    pub fn store(&mut self, mirror: String)
        ensures
            final(self)@ == Some(mirror@),
    {
        self.active = Some(mirror);
    }

    /// Forgets the mirror, so that the next lookup resolves one anew.
    pub fn invalidate(&mut self)
        ensures
            final(self)@ is None,
    {
        self.active = None;
    }
}

/// A stored mirror is the one used next, unless a mirror is configured.
pub proof fn lemma_lookup_after_store(mirror: Seq<char>)
    ensures
        mirror_lookup(Some(mirror), None) == MirrorLookupView::Known(mirror),
{
}

/// After the mirror is forgotten, the next lookup resolves one anew.
pub proof fn lemma_lookup_after_invalidate()
    ensures
        mirror_lookup(None, None) == MirrorLookupView::Resolve,
{
}

/// A configured mirror is always the one used, whatever is stored.
pub proof fn lemma_configured_mirror_wins(cache: Option<Seq<char>>, configured: Seq<char>)
    ensures
        mirror_lookup(cache, Some(configured)) == MirrorLookupView::Known(
            normalized_host(configured),
        ),
{
}

// ---------------------------------------------------------------------------
// Addresses
// ---------------------------------------------------------------------------

/// The Sci-Hub mirrors asked for a DOI, in order.
pub open spec fn scihub_host_list() -> Seq<Seq<char>> {
    seq!["sci-hub.ru"@, "sci-hub.st"@, "sci-hub.se"@]
}

/// `https://{host}{path}`.
pub open spec fn https_url(host: Seq<char>, path: Seq<char>) -> Seq<char> {
    "https://"@ + host + path
}

fn https_url_exec(host: &str, path: &str) -> (r: String)
    ensures
        r@ == https_url(host@, path@),
{
    let mut r = concat("https://", host);
    append(&mut r, path);
    r
}

/// The book search page for `query`.
pub fn search_books_url(mirror: &str, query: &str) -> (r: String)
    ensures
        r@ == https_url(mirror@, "/search?q="@ + url_encoded(query@) + "&content=book_any"@),
{
    let mut path = concat("/search?q=", url_encode(query).as_str());
    append(&mut path, "&content=book_any");
    https_url_exec(mirror, path.as_str())
}

/// The article search page for `query`.
pub fn search_articles_url(mirror: &str, query: &str) -> (r: String)
    ensures
        r@ == https_url(mirror@, "/search?q="@ + url_encoded(query@) + "&content=journal"@),
{
    let mut path = concat("/search?q=", url_encode(query).as_str());
    append(&mut path, "&content=journal");
    https_url_exec(mirror, path.as_str())
}

/// The Sci-Hub mirrors asked for a DOI, in order.
pub fn scihub_hosts() -> (r: Vec<String>)
    ensures
        r@.map_values(|h: String| h@) == scihub_host_list(),
{
    let mut r: Vec<String> = Vec::new();
    r.push(String::from_str("sci-hub.ru"));
    r.push(String::from_str("sci-hub.st"));
    r.push(String::from_str("sci-hub.se"));
    assert(r@.map_values(|h: String| h@) =~= scihub_host_list());
    r
}

/// The Sci-Hub page of a DOI.
pub fn scihub_url(host: &str, doi: &str) -> (r: String)
    ensures
        r@ == https_url(host@, "/"@ + doi@),
{
    https_url_exec(host, concat("/", doi).as_str())
}

/// The SciDB page of a DOI on the mirror.
pub fn scidb_url(mirror: &str, doi: &str) -> (r: String)
    ensures
        r@ == https_url(mirror@, "/scidb/"@ + doi@),
{
    https_url_exec(mirror, concat("/scidb/", doi).as_str())
}

/// The record page of a file on the mirror.
pub fn record_page_url(mirror: &str, md5: &str) -> (r: String)
    ensures
        r@ == https_url(mirror@, "/md5/"@ + md5@),
{
    https_url_exec(mirror, concat("/md5/", md5).as_str())
}

/// The fast download API request for a file.
pub fn fast_download_api_url(mirror: &str, md5: &str, key: &str) -> (r: String)
    ensures
        r@ == https_url(mirror@, "/dyn/api/fast_download.json?md5="@ + md5@ + "&key="@ + key@),
{
    let mut path = concat("/dyn/api/fast_download.json?md5=", md5);
    append(&mut path, "&key=");
    append(&mut path, key);
    https_url_exec(mirror, path.as_str())
}

/// The Elasticsearch record of a file on the mirror.
pub fn item_details_url(mirror: &str, md5: &str) -> (r: String)
    ensures
        r@ == https_url(mirror@, "/db/aarecord_elasticsearch/md5:"@ + md5@ + ".json"@),
{
    let mut path = concat("/db/aarecord_elasticsearch/md5:", md5);
    append(&mut path, ".json");
    https_url_exec(mirror, path.as_str())
}

/// The account page, where the secret key logs in.
pub fn login_url(mirror: &str) -> (r: String)
    ensures
        r@ == https_url(mirror@, "/account/"@),
{
    https_url_exec(mirror, "/account/")
}

// ---------------------------------------------------------------------------
// Answers
// ---------------------------------------------------------------------------

/// A query is looked up as a DOI when, trimmed, it begins with `10.`.
pub open spec fn is_doi(query: Seq<char>) -> bool {
    has_prefix(trim_ws(query), "10."@)
}

/// Whether an article query is a DOI.
pub fn is_doi_query(query: &str) -> (b: bool)
    ensures
        b == is_doi(query@),
{
    let t = trim(query);
    str_starts_with(t.as_str(), "10.")
}

/// At most `limit` of the results, the first ones.
pub fn apply_limit<T>(items: Vec<T>, limit: Option<usize>) -> (r: Vec<T>)
    ensures
        r@ == match limit {
            Some(max) => if items@.len() > max {
                items@.take(max as int)
            } else {
                items@
            },
            None => items@,
        },
{
    let mut v = items;
    match limit {
        Some(max) => {
            if v.len() > max {
                v.truncate(max);
            }
        },
        None => {},
    }
    v
}

/// The number of books a search returns when no limit is given.
pub const DEFAULT_SEARCH_LIMIT: usize = 10;

/// The limit of a book search: the requested one (the largest `usize` when
/// it does not fit), else 10.
pub open spec fn search_limit_spec(requested: Option<u64>) -> int {
    match requested {
        Some(n) => if n <= usize::MAX {
            n as int
        } else {
            usize::MAX as int
        },
        None => DEFAULT_SEARCH_LIMIT as int,
    }
}

/// The limit of a book search, given the one requested if any.
pub fn search_limit(requested: Option<u64>) -> (r: usize)
    ensures
        r as int == search_limit_spec(requested),
{
    match requested {
        Some(n) => if n <= usize::MAX as u64 {
            n as usize
        } else {
            usize::MAX
        },
        None => DEFAULT_SEARCH_LIMIT,
    }
}

/// The paper a Sci-Hub page describes, when it has a PDF link.
pub open spec fn usable_scihub(html: Seq<char>, doi: Seq<char>, host: Seq<char>) -> Option<
    PaperView,
> {
    match scihub_paper(html, doi, host) {
        Some(p) => if p.download_url is Some {
            Some(p)
        } else {
            None
        },
        None => None,
    }
}

/// The paper on a Sci-Hub page, kept only when it links its PDF.
pub fn usable_scihub_paper(html: &str, doi: &str, host: &str) -> (r: Option<Paper>)
    ensures
        match r {
            Some(p) => usable_scihub(html@, doi@, host@) == Some(p@),
            None => usable_scihub(html@, doi@, host@) is None,
        },
{
    match AnnaScraper::parse_scihub_page(html, doi, host) {
        Some(p) => if p.download_url.is_some() {
            Some(p)
        } else {
            None
        },
        None => None,
    }
}

/// The paper that a SciDB lookup yields: read from the record page of the
/// file found on the search page when that page could be fetched (then with
/// that file's hash), else from the search page itself, with the found hash.
pub open spec fn scidb_paper(
    search_html: Seq<char>,
    detail_html: Option<Seq<char>>,
    doi: Seq<char>,
    mirror: Seq<char>,
) -> PaperView {
    let found = scidb_md5(search_html);
    match (found, detail_html) {
        (Some(h), Some(d)) => PaperView { hash: Some(h), ..scidb_detail(d, doi, mirror) },
        _ => {
            let p = scidb_detail(search_html, doi, mirror);
            PaperView {
                hash: match p.hash {
                    Some(h) => Some(h),
                    None => found,
                },
                ..p
            }
        },
    }
}

/// The paper of a SciDB lookup, from the search page and the record page of
/// the found file when it could be fetched.
pub fn scidb_lookup_paper(search_html: &str, detail_html: Option<&str>, doi: &str, mirror: &str) -> (r: Paper)
    ensures
        r@ == scidb_paper(
            search_html@,
            match detail_html {
                Some(d) => Some(d@),
                None => None,
            },
            doi@,
            mirror@,
        ),
{
    let found = AnnaScraper::parse_scidb_search_for_md5(search_html);
    match (&found, detail_html) {
        (Some(h), Some(d)) => {
            let mut p = AnnaScraper::parse_scidb_detail_page(d, doi, mirror);
            p.hash = Some(copy_str(h.as_str()));
            return p;
        },
        _ => {},
    }
    let mut p = AnnaScraper::parse_scidb_detail_page(search_html, doi, mirror);
    if p.hash.is_none() {
        p.hash = found;
    }
    p
}

/// The error when SciDB has no page for a DOI.
pub fn doi_not_found(doi: &str) -> (e: AppError)
    ensures
        e@ == AppErrorView::NotFound("No paper found for DOI: "@ + doi@),
{
    AppError::NotFound(concat("No paper found for DOI: ", doi))
}

/// The secret key that fast downloads need.
pub fn fast_download_key(secret_key: Option<&str>) -> (r: Result<String, AppError>)
    ensures
        match secret_key {
            Some(k) => r matches Ok(s) && s@ == k@,
            None => r matches Err(e) && e@ == AppErrorView::Config(
                "ANNAS_SECRET_KEY is required for book downloads"@,
            ),
        },
{
    match secret_key {
        Some(k) => Ok(copy_str(k)),
        None => Err(AppError::Config(String::from_str("ANNAS_SECRET_KEY is required for book downloads"))),
    }
}

/// What an answer of the fast download API means: its error when it names
/// one, else its link, else an error for the missing link.
pub fn fast_download_outcome(download_url: Option<String>, error: Option<String>) -> (r: Result<String, AppError>)
    ensures
        match error {
            Some(e) => r matches Err(x) && x@ == AppErrorView::Api("Fast download error: "@ + e@),
            None => match download_url {
                Some(u) => r matches Ok(s) && s@ == u@,
                None => r matches Err(x) && x@ == AppErrorView::Api(
                    "API returned empty download URL"@,
                ),
            },
        },
{
    match error {
        Some(e) => Err(AppError::Api(concat("Fast download error: ", e.as_str()))),
        None => match download_url {
            Some(u) => Ok(u),
            None => Err(AppError::Api(String::from_str("API returned empty download URL"))),
        },
    }
}

/// The folder a download goes to: the requested one, else the configured one.
pub fn target_folder(requested: Option<&str>, configured: &str) -> (r: String)
    ensures
        r@ == match requested {
            Some(d) => d@,
            None => configured@,
        },
{
    match requested {
        Some(d) => copy_str(d),
        None => copy_str(configured),
    }
}

/// The hash to try a fast download of a paper with: the paper's hash, when
/// a secret key is configured.
pub fn paper_fast_download_hash(paper: &Paper, has_key: bool) -> (r: Option<String>)
    ensures
        ov(r) == if has_key {
            paper@.hash
        } else {
            None
        },
{
    if has_key {
        match &paper.hash {
            Some(h) => Some(copy_str(h.as_str())),
            None => None,
        }
    } else {
        None
    }
}

/// The title under which a paper is saved: its title, else its DOI.
pub fn paper_file_title(paper: &Paper, doi: &str) -> (r: String)
    ensures
        r@ == match paper@.title {
            Some(t) => t,
            None => doi@,
        },
{
    match &paper.title {
        Some(t) => copy_str(t.as_str()),
        None => copy_str(doi),
    }
}

/// The direct download link of a paper.
pub fn paper_direct_url(paper: &Paper) -> (r: Result<String, AppError>)
    ensures
        match paper@.download_url {
            Some(u) => r matches Ok(s) && s@ == u,
            None => r matches Err(e) && e@ == AppErrorView::Download(
                "No download URL available for paper"@,
            ),
        },
{
    match &paper.download_url {
        Some(u) => Ok(copy_str(u.as_str())),
        None => Err(AppError::Download(String::from_str("No download URL available for paper"))),
    }
}


// ---------------------------------------------------------------------------
// Looking up a DOI
// ---------------------------------------------------------------------------

/// Where the lookup of a DOI stands: the DOI as given and trimmed, the next
/// Sci-Hub mirror to ask, the Anna's Archive mirror once known, and the SciDB
/// page once fetched.
pub struct DoiLookup {
    doi: String,
    clean: String,
    next_host: usize,
    mirror: Option<String>,
    search_html: Option<String>,
}

pub struct DoiLookupView {
    pub doi: Seq<char>,
    pub clean: Seq<char>,
    pub next_host: nat,
    pub mirror: Option<Seq<char>>,
    pub search_html: Option<Seq<char>>,
}

impl View for DoiLookup {
    type V = DoiLookupView;

    closed spec fn view(&self) -> DoiLookupView {
        DoiLookupView {
            doi: self.doi@,
            clean: self.clean@,
            next_host: self.next_host as nat,
            mirror: ov(self.mirror),
            search_html: ov(self.search_html),
        }
    }
}

/// What a DOI lookup needs next.
pub enum DoiAction {
    /// The Sci-Hub page of the DOI on this mirror, at this address.
    FetchScihub { host: String, url: String },
    /// The Anna's Archive mirror to use.
    NeedMirror,
    /// The SciDB page at this address.
    FetchScidb(String),
    /// The record page of the found file, at this address.
    FetchRecord(String),
    /// Nothing: the lookup is over.
    Finished(Result<Paper, AppError>),
}

pub enum DoiActionView {
    FetchScihub { host: Seq<char>, url: Seq<char> },
    NeedMirror,
    FetchScidb(Seq<char>),
    FetchRecord(Seq<char>),
    Finished(Result<PaperView, AppErrorView>),
}

impl View for DoiAction {
    type V = DoiActionView;

    open spec fn view(&self) -> DoiActionView {
        match self {
            DoiAction::FetchScihub { host, url } => DoiActionView::FetchScihub {
                host: host@,
                url: url@,
            },
            DoiAction::NeedMirror => DoiActionView::NeedMirror,
            DoiAction::FetchScidb(u) => DoiActionView::FetchScidb(u@),
            DoiAction::FetchRecord(u) => DoiActionView::FetchRecord(u@),
            DoiAction::Finished(Ok(p)) => DoiActionView::Finished(Ok(p@)),
            DoiAction::Finished(Err(e)) => DoiActionView::Finished(Err(e@)),
        }
    }
}

/// The request after the Sci-Hub mirrors before `k` gave nothing usable: the
/// next Sci-Hub page, or the mirror once all were asked.
pub open spec fn scihub_request(clean: Seq<char>, k: int) -> DoiActionView {
    if 0 <= k < scihub_host_list().len() {
        DoiActionView::FetchScihub {
            host: scihub_host_list()[k],
            url: https_url(scihub_host_list()[k], "/"@ + clean),
        }
    } else {
        DoiActionView::NeedMirror
    }
}

fn scihub_request_exec(clean: &str, k: usize) -> (r: DoiAction)
    ensures
        r@ == scihub_request(clean@, k as int),
{
    let hosts = scihub_hosts();
    if k < hosts.len() {
        assert(hosts@[k as int]@ == scihub_host_list()[k as int]);
        DoiAction::FetchScihub {
            host: copy_str(hosts[k].as_str()),
            url: scihub_url(hosts[k].as_str(), clean),
        }
    } else {
        DoiAction::NeedMirror
    }
}

impl DoiLookup {
    /// Starts the lookup of `doi`: its Sci-Hub page on the first mirror.
    pub fn start(doi: &str) -> (r: (Self, DoiAction))
        ensures
            r.0@ == (DoiLookupView {
                doi: doi@,
                clean: trim_ws(doi@),
                next_host: 0,
                mirror: None,
                search_html: None,
            }),
            r.1@ == scihub_request(trim_ws(doi@), 0),
    {
        let clean = trim(doi);
        let action = scihub_request_exec(clean.as_str(), 0);
        (
            DoiLookup {
                doi: copy_str(doi),
                clean,
                next_host: 0,
                mirror: None,
                search_html: None,
            },
            action,
        )
    }

    /// The Sci-Hub page asked for last (`None` when it could not be fetched):
    /// the lookup ends with its paper when it links a PDF, else asks the
    /// next mirror.
    pub fn scihub_page(&mut self, html: Option<&str>) -> (r: DoiAction)
        ensures
            ({
                let s = old(self)@;
                let n = scihub_host_list().len();
                let usable = match html {
                    Some(h) => if s.next_host < n {
                        usable_scihub(h@, s.clean, scihub_host_list()[s.next_host as int])
                    } else {
                        None
                    },
                    None => None,
                };
                let next = if s.next_host < n {
                    s.next_host + 1
                } else {
                    s.next_host
                };
                match usable {
                    Some(p) => final(self)@ == s && r@ == DoiActionView::Finished(Ok(p)),
                    None => final(self)@ == (DoiLookupView { next_host: next as nat, ..s }) && r@
                        == scihub_request(s.clean, next as int),
                }
            }),
    {
        let hosts = scihub_hosts();
        if self.next_host < hosts.len() {
            assert(hosts@[self.next_host as int]@ == scihub_host_list()[self.next_host as int]);
            match html {
                Some(h) => match usable_scihub_paper(
                    h,
                    self.clean.as_str(),
                    hosts[self.next_host].as_str(),
                ) {
                    Some(p) => {
                        return DoiAction::Finished(Ok(p));
                    },
                    None => {},
                },
                None => {},
            }
            self.next_host = self.next_host + 1;
        }
        scihub_request_exec(self.clean.as_str(), self.next_host)
    }

    /// The Anna's Archive mirror to use: the lookup asks for its SciDB page.
    pub fn mirror_known(&mut self, mirror: &str) -> (r: DoiAction)
        ensures
            final(self)@ == (DoiLookupView { mirror: Some(mirror@), ..old(self)@ }),
            r@ == DoiActionView::FetchScidb(https_url(mirror@, "/scidb/"@ + old(self)@.clean)),
    {
        self.mirror = Some(copy_str(mirror));
        DoiAction::FetchScidb(scidb_url(mirror, self.clean.as_str()))
    }

    /// The SciDB page: the request's error ends the lookup, a page that could
    /// not be had ends it as not found, and a page that names a file asks for
    /// that file's record page; otherwise the lookup ends with the paper the
    /// page describes.
    pub fn scidb_page(&mut self, page: Result<Option<String>, AppError>) -> (r: DoiAction)
        ensures
            ({
                let s = old(self)@;
                let m = match s.mirror {
                    Some(m) => m,
                    None => Seq::<char>::empty(),
                };
                match page {
                    Err(e) => final(self)@ == s && r@ == DoiActionView::Finished(Err(e@)),
                    Ok(None) => final(self)@ == s && r@ == DoiActionView::Finished(
                        Err(AppErrorView::NotFound("No paper found for DOI: "@ + s.doi)),
                    ),
                    Ok(Some(h)) => final(self)@ == (DoiLookupView { search_html: Some(h@), ..s })
                        && match scidb_md5(h@) {
                        Some(hash) => r@ == DoiActionView::FetchRecord(
                            https_url(m, "/md5/"@ + hash),
                        ),
                        None => r@ == DoiActionView::Finished(
                            Ok(scidb_paper(h@, None, s.clean, m)),
                        ),
                    },
                }
            }),
    {
        let m = match &self.mirror {
            Some(m) => copy_str(m.as_str()),
            None => String::new(),
        };
        match page {
            Err(e) => DoiAction::Finished(Err(e)),
            Ok(None) => DoiAction::Finished(Err(doi_not_found(self.doi.as_str()))),
            Ok(Some(h)) => {
                let action = match AnnaScraper::parse_scidb_search_for_md5(h.as_str()) {
                    Some(hash) => DoiAction::FetchRecord(record_page_url(m.as_str(), hash.as_str())),
                    None => DoiAction::Finished(
                        Ok(scidb_lookup_paper(h.as_str(), None, self.clean.as_str(), m.as_str())),
                    ),
                };
                self.search_html = Some(h);
                action
            },
        }
    }

    /// The record page of the found file (`None` when it could not be
    /// fetched): the lookup ends with the paper.
    pub fn record_page(&self, html: Option<&str>) -> (r: DoiAction)
        ensures
            r@ == DoiActionView::Finished(
                Ok(
                    scidb_paper(
                        match self@.search_html {
                            Some(h) => h,
                            None => Seq::<char>::empty(),
                        },
                        match html {
                            Some(d) => Some(d@),
                            None => None,
                        },
                        self@.clean,
                        match self@.mirror {
                            Some(m) => m,
                            None => Seq::<char>::empty(),
                        },
                    ),
                ),
            ),
    {
        let search = match &self.search_html {
            Some(h) => copy_str(h.as_str()),
            None => String::new(),
        };
        let m = match &self.mirror {
            Some(m) => copy_str(m.as_str()),
            None => String::new(),
        };
        DoiAction::Finished(Ok(scidb_lookup_paper(search.as_str(), html, self.clean.as_str(), m.as_str())))
    }
}

/// A lookup asks the three Sci-Hub mirrors in order, then for the Anna's
/// Archive mirror.
pub proof fn lemma_doi_lookup_order(clean: Seq<char>)
    ensures
        scihub_request(clean, 0) == (DoiActionView::FetchScihub {
            host: "sci-hub.ru"@,
            url: https_url("sci-hub.ru"@, "/"@ + clean),
        }),
        scihub_request(clean, 1) == (DoiActionView::FetchScihub {
            host: "sci-hub.st"@,
            url: https_url("sci-hub.st"@, "/"@ + clean),
        }),
        scihub_request(clean, 2) == (DoiActionView::FetchScihub {
            host: "sci-hub.se"@,
            url: https_url("sci-hub.se"@, "/"@ + clean),
        }),
        scihub_request(clean, 3) == DoiActionView::NeedMirror,
{
}

} // verus!
