use annas_mcp::client::scraper::{books_from_model, papers_from_model, scidb_detail_from_model};
use annas_mcp::html::{DomKind, DomNode};

fn node(depth: usize, kind: DomKind, matched: &[usize], selectors: usize) -> DomNode {
    let mut matches = vec![false; selectors];
    for &s in matched {
        matches[s] = true;
    }
    DomNode { depth, kind, matches }
}

fn link(depth: usize, href: &str, matched: &[usize]) -> DomNode {
    node(depth, DomKind::Element("a".to_string(), vec![Some(href.to_string()), None]), matched, 11)
}

fn text(depth: usize, t: &str) -> DomNode {
    node(depth, DomKind::Text(t.to_string()), &[], 0)
}

fn card_page() -> Vec<DomNode> {
    vec![
        node(0, DomKind::Other, &[], 0),
        node(1, DomKind::Element("div".to_string(), vec![None, None]), &[], 11),
        link(2, "/md5/abc", &[0]),
        text(3, "  Dune  "),
        link(2, "/md5/abc", &[0]),
        text(3, "Dune again"),
        node(1, DomKind::Element("div".to_string(), vec![None, None]), &[], 11),
        link(2, "/md5/", &[0]),
        text(3, "No hash"),
        node(1, DomKind::Element("div".to_string(), vec![None, None]), &[], 11),
        link(2, "/md5/def", &[0]),
        text(3, "Emma"),
    ]
}

#[test]
fn books_are_read_from_a_page_model() {
    let books = books_from_model(&card_page(), "annas-archive.org/");
    assert_eq!(books.len(), 2);
    assert_eq!(books[0].hash, "abc");
    assert_eq!(books[0].title, "Dune");
    assert_eq!(books[0].url, "https://annas-archive.org/md5/abc");
    assert_eq!(books[0].authors, None);
    assert_eq!(books[1].hash, "def");
    assert_eq!(books[1].title, "Emma");
}

#[test]
fn papers_are_read_from_a_page_model() {
    let papers = papers_from_model(&card_page(), "annas-archive.org");
    assert_eq!(papers.len(), 2);
    assert_eq!(papers[0].hash.as_deref(), Some("abc"));
    assert_eq!(papers[0].title.as_deref(), Some("Dune"));
    assert_eq!(papers[0].doi, "");
    assert_eq!(papers[0].page_url, "https://annas-archive.org/md5/abc");
    assert_eq!(papers[1].hash.as_deref(), Some("def"));
}

#[test]
fn a_scidb_page_model_gives_its_title_and_links() {
    let nodes = vec![
        node(0, DomKind::Other, &[], 0),
        node(1, DomKind::Element("title".to_string(), vec![None]), &[0], 5),
        text(2, "A Study - Anna's Archive"),
    ];
    let p = scidb_detail_from_model(&nodes, "10.1/x", "annas-archive.org");
    assert_eq!(p.doi, "10.1/x");
    assert_eq!(p.journal, None);
    assert_eq!(p.page_url, "https://annas-archive.org/scidb/10.1/x");
    assert_eq!(p.download_url.as_deref(), Some("https://annas-archive.org/scidb?doi=10.1/x"));
    assert_eq!(p.scihub_url.as_deref(), Some("https://sci-hub.se/10.1/x"));
    assert_eq!(p.title.as_deref(), Some("A Study"));
}

#[test]
fn articles_of_a_page_are_its_books_as_papers() {
    let page = card_page();
    let books = books_from_model(&page, "annas-archive.org");
    let papers = papers_from_model(&page, "annas-archive.org");
    assert_eq!(books.len(), papers.len());
    for (b, p) in books.iter().zip(papers.iter()) {
        assert_eq!(p.hash.as_deref(), Some(b.hash.as_str()));
        assert_eq!(p.title.as_deref(), Some(b.title.as_str()));
        assert_eq!(p.authors, b.authors);
        assert_eq!(p.journal, b.publisher);
        assert_eq!(p.size, b.size);
        assert_eq!(p.page_url, b.url);
        assert_eq!(p.doi, "");
        assert_eq!(p.download_url, None);
        assert_eq!(p.scihub_url, None);
    }
}
