//! The full metadata record of an item.
use vstd::prelude::*;

use crate::domain::book::ov;

verus! {

/// Identifiers of an item in other catalogues.
#[derive(Clone, Debug)]
pub struct Identifiers {
    pub isbn10: Option<Vec<String>>,
    pub isbn13: Option<Vec<String>>,
    pub doi: Option<Vec<String>>,
    pub asin: Option<Vec<String>>,
    pub sha1: Option<String>,
    pub sha256: Option<String>,
    pub open_library: Option<Vec<String>>,
    pub google_books: Option<Vec<String>>,
    pub goodreads: Option<Vec<String>>,
}

/// A copy of the file on IPFS.
#[derive(Clone, Debug)]
pub struct IpfsInfo {
    pub cid: String,
    pub from: String,
}

/// A place to download the file from.
#[derive(Clone, Debug)]
pub struct DownloadSource {
    pub name: String,
    pub url: String,
}

/// Everything the record of an item says about it.
#[derive(Clone, Debug)]
pub struct ItemDetails {
    pub md5: String,
    pub title: String,
    pub author: Option<String>,
    pub format: Option<String>,
    pub size: Option<String>,
    pub size_bytes: Option<u64>,
    pub language: Option<String>,
    pub publisher: Option<String>,
    pub year: Option<String>,
    pub description: Option<String>,
    pub cover_url: Option<String>,
    pub content_type: Option<String>,
    pub original_filename: Option<String>,
    pub pages: Option<String>,
    pub edition: Option<String>,
    pub series: Option<String>,
    pub identifiers: Option<Identifiers>,
    pub categories: Option<Vec<String>>,
    pub ipfs_cids: Option<Vec<IpfsInfo>>,
    pub download_sources: Option<Vec<DownloadSource>>,
    pub torrent_paths: Option<Vec<String>>,
}

pub struct IdentifiersView {
    pub isbn10: Option<Seq<Seq<char>>>,
    pub isbn13: Option<Seq<Seq<char>>>,
    pub doi: Option<Seq<Seq<char>>>,
    pub asin: Option<Seq<Seq<char>>>,
    pub sha1: Option<Seq<char>>,
    pub sha256: Option<Seq<char>>,
    pub open_library: Option<Seq<Seq<char>>>,
    pub google_books: Option<Seq<Seq<char>>>,
    pub goodreads: Option<Seq<Seq<char>>>,
}

pub struct IpfsInfoView {
    pub cid: Seq<char>,
    pub from: Seq<char>,
}

pub struct DownloadSourceView {
    pub name: Seq<char>,
    pub url: Seq<char>,
}

pub struct ItemDetailsView {
    pub md5: Seq<char>,
    pub title: Seq<char>,
    pub author: Option<Seq<char>>,
    pub format: Option<Seq<char>>,
    pub size: Option<Seq<char>>,
    pub size_bytes: Option<u64>,
    pub language: Option<Seq<char>>,
    pub publisher: Option<Seq<char>>,
    pub year: Option<Seq<char>>,
    pub description: Option<Seq<char>>,
    pub cover_url: Option<Seq<char>>,
    pub content_type: Option<Seq<char>>,
    pub original_filename: Option<Seq<char>>,
    pub pages: Option<Seq<char>>,
    pub edition: Option<Seq<char>>,
    pub series: Option<Seq<char>>,
    pub identifiers: Option<IdentifiersView>,
    pub categories: Option<Seq<Seq<char>>>,
    pub ipfs_cids: Option<Seq<IpfsInfoView>>,
    pub download_sources: Option<Seq<DownloadSourceView>>,
    pub torrent_paths: Option<Seq<Seq<char>>>,
}

/// The view of a list of strings.
pub open spec fn svec(v: Seq<String>) -> Seq<Seq<char>> {
    v.map_values(|s: String| s@)
}

/// The view of an optional list of strings.
pub open spec fn osvec(o: Option<Vec<String>>) -> Option<Seq<Seq<char>>> {
    match o {
        Some(v) => Some(svec(v@)),
        None => None,
    }
}

impl View for Identifiers {
    type V = IdentifiersView;

    open spec fn view(&self) -> IdentifiersView {
        IdentifiersView {
            isbn10: osvec(self.isbn10),
            isbn13: osvec(self.isbn13),
            doi: osvec(self.doi),
            asin: osvec(self.asin),
            sha1: ov(self.sha1),
            sha256: ov(self.sha256),
            open_library: osvec(self.open_library),
            google_books: osvec(self.google_books),
            goodreads: osvec(self.goodreads),
        }
    }
}

impl View for IpfsInfo {
    type V = IpfsInfoView;

    open spec fn view(&self) -> IpfsInfoView {
        IpfsInfoView { cid: self.cid@, from: self.from@ }
    }
}

impl View for DownloadSource {
    type V = DownloadSourceView;

    open spec fn view(&self) -> DownloadSourceView {
        DownloadSourceView { name: self.name@, url: self.url@ }
    }
}

pub open spec fn ipfs_view(v: Seq<IpfsInfo>) -> Seq<IpfsInfoView> {
    v.map_values(|x: IpfsInfo| x@)
}

pub open spec fn sources_view(v: Seq<DownloadSource>) -> Seq<DownloadSourceView> {
    v.map_values(|x: DownloadSource| x@)
}

impl View for ItemDetails {
    type V = ItemDetailsView;

    open spec fn view(&self) -> ItemDetailsView {
        ItemDetailsView {
            md5: self.md5@,
            title: self.title@,
            author: ov(self.author),
            format: ov(self.format),
            size: ov(self.size),
            size_bytes: self.size_bytes,
            language: ov(self.language),
            publisher: ov(self.publisher),
            year: ov(self.year),
            description: ov(self.description),
            cover_url: ov(self.cover_url),
            content_type: ov(self.content_type),
            original_filename: ov(self.original_filename),
            pages: ov(self.pages),
            edition: ov(self.edition),
            series: ov(self.series),
            identifiers: match self.identifiers {
                Some(i) => Some(i@),
                None => None,
            },
            categories: osvec(self.categories),
            ipfs_cids: match self.ipfs_cids {
                Some(v) => Some(ipfs_view(v@)),
                None => None,
            },
            download_sources: match self.download_sources {
                Some(v) => Some(sources_view(v@)),
                None => None,
            },
            torrent_paths: osvec(self.torrent_paths),
        }
    }
}

} // verus!
