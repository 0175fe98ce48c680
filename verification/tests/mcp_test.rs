use annas_mcp::domain::Book;
use annas_mcp::downloader::DownloadedFileInfo;
use annas_mcp::errors::AppError;
use annas_mcp::mcp::server::{method_not_found_message, needs_fallback_reply, parse_error_message, route_request, RequestRoute};
use annas_mcp::mcp::tools::{
    article_search_result, book_download_result, book_search_result, download_format,
    item_details_failed, nothing_found, param_or, preferred_format, required_param,
    search_and_download_result, select_book, tool_descriptors, tool_kind, unknown_tool, ToolKind,
};

fn book(hash: &str, title: &str, format: Option<&str>) -> Book {
    Book {
        hash: hash.to_string(),
        title: title.to_string(),
        authors: None,
        publisher: None,
        language: None,
        format: format.map(String::from),
        size: None,
        year: None,
        url: format!("https://m/md5/{hash}"),
        cover_url: None,
        description: None,
    }
}

#[test]
fn every_listed_tool_dispatches() {
    let tools = tool_descriptors();
    let names: Vec<&str> = tools.iter().map(|t| t.name.as_str()).collect();
    assert_eq!(
        names,
        vec![
            "book_search",
            "book_download",
            "article_search",
            "article_download",
            "get_item_details",
            "search_and_download_book",
            "mirror_status"
        ]
    );
    for t in &tools {
        assert!(tool_kind(&t.name).is_some());
        assert!(t.input_schema.starts_with('{'));
    }
    assert_eq!(tool_kind("mirror_status"), Some(ToolKind::MirrorStatus));
    assert_eq!(tool_kind("nope"), None);
    let u = unknown_tool("nope");
    assert_eq!(u.text, "Unknown tool: nope");
    assert!(u.is_error);
}

#[test]
fn required_parameters() {
    assert_eq!(required_param(Some("  dune  "), "query").unwrap(), "dune");
    let e = required_param(Some("   "), "query").unwrap_err();
    assert_eq!(e.text, "Missing or empty 'query' parameter");
    assert!(e.is_error);
    assert_eq!(required_param(None, "hash").unwrap_err().text, "Missing or empty 'hash' parameter");
    assert_eq!(param_or(None, "untitled"), "untitled");
    assert_eq!(param_or(Some("x"), "untitled"), "x");
}

#[test]
fn search_answers() {
    let none = book_search_result(&Ok(vec![]));
    assert_eq!(none.text, "No books found matching the search query.");
    assert!(!none.is_error);
    let two = book_search_result(&Ok(vec![book("h1", "T1", None), book("h2", "T2", Some("PDF"))]));
    assert_eq!(
        two.text,
        "--- Book #1 ---\nTitle: T1\nURL: https://m/md5/h1\nMD5 Hash: h1\n\n--- Book #2 ---\nTitle: T2\nFormat: PDF\nURL: https://m/md5/h2\nMD5 Hash: h2"
    );
    let failed = book_search_result(&Err(AppError::Api("HTTP 500".to_string())));
    assert_eq!(failed.text, "Search failed: API error: HTTP 500");
    assert!(failed.is_error);
    let articles = article_search_result(&Ok(vec![]));
    assert_eq!(articles.text, "No articles or papers found matching query.");
    let failed = article_search_result(&Err(AppError::NotFound("x".to_string())));
    assert_eq!(failed.text, "Article search failed: Not found: x");
}

#[test]
fn download_answers() {
    let info = DownloadedFileInfo::finished("/d/T.pdf", 1234);
    let ok = book_download_result(&Ok(info.clone()));
    assert_eq!(ok.text, "Book downloaded successfully!\nFile: T.pdf\nSize: 1234 bytes\nSaved to: /d/T.pdf");
    let err = book_download_result(&Err(AppError::Config("k".to_string())));
    assert_eq!(err.text, "Download failed: Missing configuration: k");
    let details = item_details_failed(&AppError::Network("timeout".to_string()));
    assert_eq!(details.text, "Failed to retrieve item details: Network error: timeout");
    let b = book("h", "Dune", Some("EPUB"));
    let done = search_and_download_result(&b, "EPUB", &Ok(info));
    assert_eq!(
        done.text,
        "Successfully matched and downloaded book:\nTitle: Dune\nFormat: EPUB\nHash: h\nFile: T.pdf\nPath: /d/T.pdf"
    );
    let failed = search_and_download_result(&b, "EPUB", &Err(AppError::Download("x".to_string())));
    assert_eq!(failed.text, "Found book 'Dune' (h) but download failed: Download error: x");
    assert_eq!(nothing_found("dune").text, "No books found matching 'dune'.");
}

#[test]
fn book_choice_prefers_the_format() {
    let books = vec![book("a", "A", Some("PDF")), book("b", "B", None), book("c", "C", Some("EPUB"))];
    let pref = preferred_format(Some("ePub"));
    assert_eq!(pref.as_deref(), Some("epub"));
    assert_eq!(select_book(&books, pref.as_deref()), 2);
    assert_eq!(select_book(&books, Some("mobi")), 0);
    assert_eq!(select_book(&books, None), 0);
    assert_eq!(download_format(&books[1]), "pdf");
    assert_eq!(download_format(&books[2]), "EPUB");
}

#[test]
fn request_routes() {
    assert_eq!(route_request("initialize", true), RequestRoute::Initialize);
    assert_eq!(route_request("notifications/initialized", false), RequestRoute::NoReply);
    assert_eq!(route_request("initialized", true), RequestRoute::NoReply);
    assert_eq!(route_request("ping", false), RequestRoute::EmptyResult);
    assert_eq!(route_request("tools/list", true), RequestRoute::ListTools);
    assert_eq!(route_request("tools/call", true), RequestRoute::CallTool);
    assert_eq!(route_request("resources/list", true), RequestRoute::MethodNotFound);
    assert_eq!(route_request("resources/list", false), RequestRoute::NoReply);
    assert_eq!(method_not_found_message("x/y"), "Method not found: x/y");
    assert_eq!(parse_error_message("bad"), "Parse error: bad");
}

#[test]
fn only_unanswered_requests_with_an_id_get_the_empty_reply() {
    let initialized = route_request("initialized", true);
    assert!(needs_fallback_reply(initialized, true));
    assert!(!needs_fallback_reply(route_request("notifications/initialized", false), false));
    assert!(!needs_fallback_reply(route_request("resources/list", false), false));
    assert!(!needs_fallback_reply(route_request("ping", true), true));
    assert!(!needs_fallback_reply(route_request("resources/list", true), true));
}
