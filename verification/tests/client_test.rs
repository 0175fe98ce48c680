use annas_mcp::client::anna_client::{
    apply_limit, doi_not_found, fast_download_api_url, fast_download_key, fast_download_outcome,
    is_doi_query, item_details_url, login_url, paper_direct_url, paper_fast_download_hash,
    paper_file_title, record_page_url, scidb_lookup_paper, scidb_url, scihub_hosts, scihub_url,
    search_articles_url, search_books_url, target_folder, usable_scihub_paper, MirrorCache,
    MirrorLookup,
};
use annas_mcp::domain::Paper;
use annas_mcp::errors::AppError;

fn known(l: MirrorLookup) -> Option<String> {
    match l {
        MirrorLookup::Known(m) => Some(m),
        MirrorLookup::Resolve => None,
    }
}

#[test]
fn mirror_cache_read_after_store_and_invalidate() {
    let mut cache = MirrorCache::new();
    assert_eq!(known(cache.lookup(None)), None);
    cache.store("annas-archive.li".to_string());
    assert_eq!(known(cache.lookup(None)), Some("annas-archive.li".to_string()));
    assert_eq!(known(cache.lookup(Some(" https://annas-archive.se/ "))), Some("annas-archive.se".to_string()));
    cache.invalidate();
    assert_eq!(known(cache.lookup(None)), None);
    assert_eq!(known(cache.lookup(Some("annas-archive.org"))), Some("annas-archive.org".to_string()));
}

#[test]
fn request_addresses() {
    assert_eq!(
        search_books_url("annas-archive.li", "rust & go"),
        "https://annas-archive.li/search?q=rust%20%26%20go&content=book_any"
    );
    assert_eq!(
        search_articles_url("annas-archive.li", "q"),
        "https://annas-archive.li/search?q=q&content=journal"
    );
    assert_eq!(scihub_hosts(), vec!["sci-hub.ru".to_string(), "sci-hub.st".to_string(), "sci-hub.se".to_string()]);
    assert_eq!(scihub_url("sci-hub.ru", "10.1/x"), "https://sci-hub.ru/10.1/x");
    assert_eq!(scidb_url("m", "10.1/x"), "https://m/scidb/10.1/x");
    assert_eq!(record_page_url("m", "abc"), "https://m/md5/abc");
    assert_eq!(
        fast_download_api_url("m", "abc", "KEY"),
        "https://m/dyn/api/fast_download.json?md5=abc&key=KEY"
    );
    assert_eq!(item_details_url("m", "abc"), "https://m/db/aarecord_elasticsearch/md5:abc.json");
    assert_eq!(login_url("m"), "https://m/account/");
}

#[test]
fn doi_queries_and_limits() {
    assert!(is_doi_query("  10.1038/nature12373 "));
    assert!(!is_doi_query("rust 10."));
    assert_eq!(apply_limit(vec![1, 2, 3], Some(2)), vec![1, 2]);
    assert_eq!(apply_limit(vec![1, 2, 3], Some(5)), vec![1, 2, 3]);
    assert_eq!(apply_limit(vec![1, 2, 3], None), vec![1, 2, 3]);
}

#[test]
fn fast_download_answers() {
    assert!(matches!(fast_download_key(None), Err(AppError::Config(m)) if m == "ANNAS_SECRET_KEY is required for book downloads"));
    assert_eq!(fast_download_key(Some("k")).unwrap(), "k");
    assert_eq!(fast_download_outcome(Some("https://dl/x".to_string()), None).unwrap(), "https://dl/x");
    assert!(matches!(
        fast_download_outcome(Some("https://dl/x".to_string()), Some("quota".to_string())),
        Err(AppError::Api(m)) if m == "Fast download error: quota"
    ));
    assert!(matches!(
        fast_download_outcome(None, None),
        Err(AppError::Api(m)) if m == "API returned empty download URL"
    ));
    assert!(matches!(doi_not_found(" 10.1/x"), AppError::NotFound(m) if m == "No paper found for DOI:  10.1/x"));
}

fn paper(title: Option<&str>, hash: Option<&str>, url: Option<&str>) -> Paper {
    Paper {
        doi: "10.1/x".to_string(),
        title: title.map(String::from),
        authors: None,
        journal: None,
        size: None,
        hash: hash.map(String::from),
        download_url: url.map(String::from),
        page_url: "p".to_string(),
        scihub_url: None,
    }
}

#[test]
fn paper_download_choices() {
    let p = paper(None, Some("h"), None);
    assert_eq!(paper_fast_download_hash(&p, true), Some("h".to_string()));
    assert_eq!(paper_fast_download_hash(&p, false), None);
    assert_eq!(paper_file_title(&p, "10.1/x"), "10.1/x");
    assert_eq!(paper_file_title(&paper(Some("T"), None, None), "d"), "T");
    assert!(matches!(paper_direct_url(&p), Err(AppError::Download(m)) if m == "No download URL available for paper"));
    assert_eq!(paper_direct_url(&paper(None, None, Some("u"))).unwrap(), "u");
    assert_eq!(target_folder(Some("/x"), "/cfg"), "/x");
    assert_eq!(target_folder(None, "/cfg"), "/cfg");
}

#[test]
fn scidb_paper_takes_the_found_hash() {
    let search = r#"<html><body><a href="/md5/0123abcd">record</a></body></html>"#;
    let p = scidb_lookup_paper(search, None, "10.1/x", "annas-archive.li");
    assert_eq!(p.hash, Some("0123abcd".to_string()));
    assert_eq!(p.page_url, "https://annas-archive.li/scidb/10.1/x");
    assert_eq!(p.download_url, Some("https://annas-archive.li/scidb?doi=10.1/x".to_string()));
    let detail = r#"<html><head><title>A Title - Anna's Archive</title></head></html>"#;
    let p = scidb_lookup_paper(search, Some(detail), "10.1/x", "annas-archive.li");
    assert_eq!(p.hash, Some("0123abcd".to_string()));
}

#[test]
fn scihub_page_without_pdf_is_not_used() {
    let html = r#"<html><head><meta name="citation_title" content="T"></head></html>"#;
    assert!(usable_scihub_paper(html, "10.1/x", "sci-hub.ru").is_none());
}

use annas_mcp::client::anna_client::search_limit;

#[test]
fn book_searches_default_to_ten_results() {
    assert_eq!(search_limit(None), 10);
    assert_eq!(search_limit(Some(3)), 3);
    assert_eq!(search_limit(Some(0)), 0);
    assert_eq!(search_limit(Some(u64::MAX)), usize::MAX);
}
