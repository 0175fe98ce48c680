//! The order in which a book download tries its sources: the fast download
//! API when a key is set, then the free IPFS gateways, the Libgen.li and
//! Library.lol mirrors, and the slow download queue.
use vstd::prelude::*;

use crate::domain::metadata::{IpfsInfo, svec};
use crate::downloader::partner::{PartnerDownloadResolver, gateway_urls};
use crate::errors::{AppError, AppErrorView};
use crate::text::{has_prefix, str_starts_with, to_lowercase, trim, trim_ws, unicode_lowercase};

verus! {

/// A source of a book download.
#[derive(Clone, Copy, Debug, PartialEq, Eq, Structural)]
pub enum DownloadRoute {
    /// The fast download API, which needs the secret key.
    FastApi,
    /// The IPFS copies of the file on the public gateways.
    IpfsGateways,
    /// The links of Libgen.li.
    LibgenLi,
    /// The links of Library.lol.
    LibraryLol,
    /// The slow download queue of the mirror.
    SlowQueue,
}

/// The sources a book download tries, in order.
pub open spec fn book_routes(has_key: bool) -> Seq<DownloadRoute> {
    let free = seq![
        DownloadRoute::IpfsGateways,
        DownloadRoute::LibgenLi,
        DownloadRoute::LibraryLol,
        DownloadRoute::SlowQueue,
    ];
    if has_key {
        seq![DownloadRoute::FastApi] + free
    } else {
        free
    }
}

/// The sources a book download tries, in order.
pub fn download_routes(has_key: bool) -> (r: Vec<DownloadRoute>)
    ensures
        r@ == book_routes(has_key),
{
    let mut r: Vec<DownloadRoute> = Vec::new();
    if has_key {
        r.push(DownloadRoute::FastApi);
    }
    r.push(DownloadRoute::IpfsGateways);
    r.push(DownloadRoute::LibgenLi);
    r.push(DownloadRoute::LibraryLol);
    r.push(DownloadRoute::SlowQueue);
    assert(r@ =~= book_routes(has_key));
    r
}

/// The fast download API is tried first when a key is set and never
/// without one, and no source is tried twice.
pub proof fn lemma_download_routes(has_key: bool)
    ensures
        has_key ==> book_routes(has_key)[0] == DownloadRoute::FastApi,
        !has_key ==> !book_routes(has_key).contains(DownloadRoute::FastApi),
        book_routes(has_key).no_duplicates(),
        book_routes(has_key).contains(DownloadRoute::SlowQueue),
{
    let r = book_routes(has_key);
    assert(r[r.len() - 1] == DownloadRoute::SlowQueue);
    if !has_key {
        assert forall|k: int| 0 <= k < r.len() implies r[k] != DownloadRoute::FastApi by {}
    }
}

/// The IPFS addresses of the copies `cids`: every gateway for each copy, the
/// copies in order, each with the file name.
pub open spec fn ipfs_addresses(cids: Seq<Seq<char>>, filename: Seq<char>) -> Seq<Seq<char>>
    decreases cids.len(),
{
    if cids.len() == 0 {
        seq![]
    } else {
        ipfs_addresses(cids.drop_last(), filename) + gateway_urls(cids.last(), Some(filename))
    }
}

/// The IPFS addresses to download a file from, given its copies.
pub fn ipfs_download_urls(copies: &Vec<IpfsInfo>, filename: &str) -> (r: Vec<String>)
    ensures
        svec(r@) == ipfs_addresses(copies@.map_values(|c: IpfsInfo| c.cid@), filename@),
{
    let ghost cids = copies@.map_values(|c: IpfsInfo| c.cid@);
    let mut r: Vec<String> = Vec::new();
    let mut i: usize = 0;
    while i < copies.len()
        invariant
            0 <= i <= copies.len(),
            cids == copies@.map_values(|c: IpfsInfo| c.cid@),
            svec(r@) == ipfs_addresses(cids.take(i as int), filename@),
        decreases copies.len() - i,
    {
        let urls = PartnerDownloadResolver::get_ipfs_gateway_urls(copies[i].cid.as_str(), Some(filename));
        let ghost before = svec(r@);
        let mut j: usize = 0;
        while j < urls.len()
            invariant
                0 <= j <= urls.len(),
                svec(r@) == before + svec(urls@).take(j as int),
            decreases urls.len() - j,
        {
            let ghost prev = r@;
            r.push(crate::text::copy_str(urls[j].as_str()));
            assert(svec(r@) =~= svec(prev).push(urls@[j as int]@));
            assert(svec(urls@).take(j + 1) =~= svec(urls@).take(j as int).push(urls@[j as int]@));
            j += 1;
        }
        proof {
            assert(svec(urls@).take(urls.len() as int) =~= svec(urls@));
            assert(cids.take(i + 1).drop_last() =~= cids.take(i as int));
            assert(cids.take(i + 1).last() == copies@[i as int].cid@);
        }
        i += 1;
    }
    assert(cids.take(copies.len() as int) =~= cids);
    r
}

/// The error of a book download that no source could serve: the fast
/// download's error when one was tried, else the missing key.
pub fn exhausted_error(fast_error: Option<AppError>) -> (r: AppError)
    ensures
        match fast_error {
            Some(e) => r@ == e@,
            None => r@ == AppErrorView::Config("ANNAS_SECRET_KEY is required for book downloads"@),
        },
{
    match fast_error {
        Some(e) => e,
        None => AppError::Config(String::from_str("ANNAS_SECRET_KEY is required for book downloads")),
    }
}

/// Where a book download stands: the sources to try, how many were taken,
/// and the last error of the fast download API.
pub struct BookDownload {
    routes: Vec<DownloadRoute>,
    next: usize,
    fast_error: Option<AppError>,
}

pub struct BookDownloadView {
    pub routes: Seq<DownloadRoute>,
    pub next: nat,
    pub fast_error: Option<AppErrorView>,
}

impl View for BookDownload {
    type V = BookDownloadView;

    closed spec fn view(&self) -> BookDownloadView {
        BookDownloadView {
            routes: self.routes@,
            next: self.next as nat,
            fast_error: match self.fast_error {
                Some(e) => Some(e@),
                None => None,
            },
        }
    }
}

/// What a book download does next.
pub enum BookDownloadStep {
    /// Gather the links of this source and try each; report each failure.
    Try(DownloadRoute),
    /// Every source failed: end with this error.
    GiveUp(AppError),
}

/// The error that ends a download whose sources all failed: the fast download
/// API's last error when it was tried, else the missing key.
pub open spec fn give_up_error(fast_error: Option<AppErrorView>) -> AppErrorView {
    match fast_error {
        Some(e) => e,
        None => AppErrorView::Config("ANNAS_SECRET_KEY is required for book downloads"@),
    }
}

impl BookDownload {
    /// A download that has tried nothing yet.
    pub fn start(has_key: bool) -> (r: Self)
        ensures
            r@ == (BookDownloadView { routes: book_routes(has_key), next: 0, fast_error: None }),
    {
        BookDownload { routes: download_routes(has_key), next: 0, fast_error: None }
    }

    /// The next source to try, in order, or the end once all were tried.
    pub fn next_step(&mut self) -> (r: BookDownloadStep)
        ensures
            ({
                let s = old(self)@;
                if s.next < s.routes.len() {
                    r == BookDownloadStep::Try(s.routes[s.next as int]) && final(self)@ == (
                    BookDownloadView { next: s.next + 1, ..s })
                } else {
                    r matches BookDownloadStep::GiveUp(e) && e@ == give_up_error(s.fast_error)
                        && final(self)@.routes == s.routes && final(self)@.next == s.next
                }
            }),
    {
        if self.next < self.routes.len() {
            let route = self.routes[self.next];
            self.next = self.next + 1;
            BookDownloadStep::Try(route)
        } else {
            let fe = self.fast_error.take();
            BookDownloadStep::GiveUp(exhausted_error(fe))
        }
    }

    /// Records that a source, or one of its links, failed with `e`; the fast
    /// download API's error is kept.
    pub fn failed(&mut self, route: DownloadRoute, e: AppError)
        ensures
            final(self)@ == (BookDownloadView {
                fast_error: if route == DownloadRoute::FastApi {
                    Some(e@)
                } else {
                    old(self)@.fast_error
                },
                ..old(self)@
            }),
    {
        if route == DownloadRoute::FastApi {
            self.fast_error = Some(e);
        }
    }
}

/// A media type that names an HTML page.
pub open spec fn is_html_media(content_type: Seq<char>) -> bool {
    has_prefix(unicode_lowercase(trim_ws(content_type)), "text/html"@)
}

/// Whether a response's `Content-Type` says it is an HTML page (a challenge
/// or an error page) rather than a file.
pub fn is_html_response(content_type: Option<&str>) -> (b: bool)
    ensures
        b == match content_type {
            Some(c) => is_html_media(c@),
            None => false,
        },
{
    match content_type {
        Some(c) => {
            let t = trim(c);
            let l = to_lowercase(t.as_str());
            str_starts_with(l.as_str(), "text/html")
        },
        None => false,
    }
}

/// The error of a download that answered with an HTML page.
pub fn html_page_error() -> (r: AppError)
    ensures
        r@ == AppErrorView::Download("Received an HTML page instead of the file"@),
{
    AppError::Download(String::from_str("Received an HTML page instead of the file"))
}

} // verus!
