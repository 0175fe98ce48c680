use annas_mcp::client::anna_client::{DoiAction, DoiLookup};
use annas_mcp::errors::AppError;

fn fetch_scihub(a: &DoiAction) -> Option<(String, String)> {
    match a {
        DoiAction::FetchScihub { host, url } => Some((host.clone(), url.clone())),
        _ => None,
    }
}

#[test]
fn doi_lookup_asks_each_scihub_mirror_then_scidb() {
    let (mut lookup, action) = DoiLookup::start(" 10.1038/x ");
    assert_eq!(
        fetch_scihub(&action),
        Some(("sci-hub.ru".to_string(), "https://sci-hub.ru/10.1038/x".to_string()))
    );
    // a page without a PDF link does not end the lookup
    let a = lookup.scihub_page(Some(r#"<meta name="citation_title" content="T">"#));
    assert_eq!(fetch_scihub(&a), Some(("sci-hub.st".to_string(), "https://sci-hub.st/10.1038/x".to_string())));
    let a = lookup.scihub_page(None);
    assert_eq!(fetch_scihub(&a), Some(("sci-hub.se".to_string(), "https://sci-hub.se/10.1038/x".to_string())));
    let a = lookup.scihub_page(None);
    assert!(matches!(a, DoiAction::NeedMirror));
    match lookup.mirror_known("annas-archive.li") {
        DoiAction::FetchScidb(u) => assert_eq!(u, "https://annas-archive.li/scidb/10.1038/x"),
        _ => panic!("expected the SciDB page"),
    }
    match lookup.scidb_page(Ok(Some(r#"<a href="/md5/abc123">x</a>"#.to_string()))) {
        DoiAction::FetchRecord(u) => assert_eq!(u, "https://annas-archive.li/md5/abc123"),
        _ => panic!("expected the record page"),
    }
    match lookup.record_page(None) {
        DoiAction::Finished(Ok(p)) => {
            assert_eq!(p.doi, "10.1038/x");
            assert_eq!(p.hash, Some("abc123".to_string()));
        }
        _ => panic!("expected a paper"),
    }
}

#[test]
fn doi_lookup_ends_at_a_usable_scihub_page() {
    let (mut lookup, _) = DoiLookup::start("10.1/y");
    let html = r#"<meta name="citation_title" content="T"><meta name="citation_pdf_url" content="/x.pdf">"#;
    match lookup.scihub_page(Some(html)) {
        DoiAction::Finished(Ok(p)) => assert_eq!(p.download_url, Some("https://sci-hub.ru/x.pdf".to_string())),
        _ => panic!("expected the Sci-Hub paper"),
    }
}

#[test]
fn doi_lookup_not_found_and_errors() {
    let (mut lookup, _) = DoiLookup::start(" 10.1/z");
    lookup.mirror_known("m");
    match lookup.scidb_page(Ok(None)) {
        DoiAction::Finished(Err(AppError::NotFound(m))) => assert_eq!(m, "No paper found for DOI:  10.1/z"),
        _ => panic!("expected not found"),
    }
    match lookup.scidb_page(Err(AppError::Network("down".to_string()))) {
        DoiAction::Finished(Err(AppError::Network(m))) => assert_eq!(m, "down"),
        _ => panic!("expected the network error"),
    }
    match lookup.scidb_page(Ok(Some("<p>no file</p>".to_string()))) {
        DoiAction::Finished(Ok(p)) => {
            assert_eq!(p.hash, None);
            assert_eq!(p.page_url, "https://m/scidb/10.1/z");
        }
        _ => panic!("expected a paper from the search page"),
    }
}
