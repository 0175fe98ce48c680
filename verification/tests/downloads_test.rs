use annas_mcp::downloader::download::{file_name_of, split_stem_extension, DownloadedFileInfo};
use annas_mcp::downloader::partner::SlowDownloadStep;
use annas_mcp::downloader::sanitize::{make_safe_filepath, sanitize_filename};
use annas_mcp::downloader::PartnerDownloadResolver;

#[test]
fn sanitized_names_are_cut_to_200_characters() {
    let long = "a".repeat(250);
    let s = sanitize_filename(&long);
    assert_eq!(s.chars().count(), 200);
    let s = sanitize_filename("  ._name_. ");
    assert_eq!(s, "name");
    assert_eq!(sanitize_filename("a\u{0}b\u{1f}c"), "a_b_c");
}

#[test]
fn safe_path_joins_and_defaults_the_extension() {
    assert_eq!(make_safe_filepath("/d/", "T", "PDF"), "/d/T.pdf");
    assert_eq!(make_safe_filepath("", "T", "..."), "T.bin");
    assert_eq!(make_safe_filepath("rel", "../x", "epub"), "rel/x.epub");
}

#[test]
fn path_file_names() {
    assert_eq!(file_name_of("/a/b/"), Some("b".to_string()));
    assert_eq!(file_name_of("/a/b/."), Some("b".to_string()));
    assert_eq!(file_name_of("/"), None);
    assert_eq!(file_name_of("a/.."), None);
    assert_eq!(file_name_of(""), None);
    assert_eq!(split_stem_extension("book.tar.gz"), ("book.tar".to_string(), Some("gz".to_string())));
    assert_eq!(split_stem_extension(".bashrc"), (".bashrc".to_string(), None));
    assert_eq!(split_stem_extension("noext"), ("noext".to_string(), None));
}

#[test]
fn finished_download_reports_its_file_name() {
    let i = DownloadedFileInfo::finished("/downloads/Dune.epub", 42);
    assert_eq!(i.file_path, "/downloads/Dune.epub");
    assert_eq!(i.bytes_written, 42);
    assert_eq!(i.filename, "Dune.epub");
    assert_eq!(DownloadedFileInfo::finished("/", 0).filename, "unknown");
}

#[test]
fn gateway_urls_encode_the_file_name() {
    let urls = PartnerDownloadResolver::get_ipfs_gateway_urls(" cid ", Some("My Book (1) é.epub"));
    assert_eq!(urls[0], "https://cloudflare-ipfs.com/ipfs/cid?filename=My%20Book%20%281%29%20%C3%A9.epub");
    let plain = PartnerDownloadResolver::get_ipfs_gateway_urls("cid", None);
    assert_eq!(
        plain,
        vec![
            "https://cloudflare-ipfs.com/ipfs/cid".to_string(),
            "https://ipfs.io/ipfs/cid".to_string(),
            "https://dweb.link/ipfs/cid".to_string(),
            "https://gateway.pinata.cloud/ipfs/cid".to_string(),
            "https://w3s.link/ipfs/cid".to_string(),
        ]
    );
}

#[test]
fn library_lol_links_are_listed_once() {
    let html = r#"<div id="download"><a href=" https://download.library.lol/main/1/x/b.pdf ">GET</a>
        <a href="/relative">no</a></div>
        <h2><a href="https://download.library.lol/main/1/x/b.pdf">again</a></h2>
        <p>href="https://ipfs.io/ipfs/abc"</p>"#;
    let links = PartnerDownloadResolver::parse_library_lol_html(html);
    assert_eq!(
        links,
        vec![
            "https://download.library.lol/main/1/x/b.pdf".to_string(),
            "https://ipfs.io/ipfs/abc".to_string(),
        ]
    );
}

#[test]
fn libgen_links_are_made_absolute() {
    let html = r#"<a href="get.php?md5=ABC&key=K1">GET</a> <a href='get.php?md5=ABC&key=K1'>x</a>"#;
    assert_eq!(
        PartnerDownloadResolver::parse_libgen_li_html(html),
        vec!["https://libgen.li/get.php?md5=ABC&key=K1".to_string()]
    );
    assert!(PartnerDownloadResolver::parse_libgen_li_html("nothing").is_empty());
}

#[test]
fn partner_page_addresses() {
    assert_eq!(PartnerDownloadResolver::library_lol_url("  ABCDEF "), "https://library.lol/main/abcdef");
    assert_eq!(PartnerDownloadResolver::libgen_li_url("ABC"), "https://libgen.li/ads.php?md5=abc");
    assert_eq!(
        PartnerDownloadResolver::slow_download_urls("annas-archive.li", " ABC "),
        vec![
            "https://annas-archive.li/slow_download/abc/0/0".to_string(),
            "https://annas-archive.li/slow_download/abc/0/1".to_string(),
            "https://annas-archive.li/slow_download/abc/0/2".to_string(),
        ]
    );
}

#[test]
fn slow_download_links_come_from_the_page_text() {
    let html = r#"<p>ready: href='/slow_download_file/zz/0/1'</p>"#;
    assert_eq!(
        PartnerDownloadResolver::parse_slow_download_link(html, "annas-archive.pk//"),
        Some("https://annas-archive.pk/slow_download_file/zz/0/1".to_string())
    );
    // the anchor selector does not parse, so an absolute anchor is not found
    let html = r#"<a class="js-download-link" href="https://dl.example/file.pdf">Download now</a>"#;
    assert_eq!(PartnerDownloadResolver::parse_slow_download_link(html, "m"), None);
}

#[test]
fn slow_download_steps() {
    match PartnerDownloadResolver::slow_download_step("Please wait 15 seconds", "m") {
        SlowDownloadStep::WaitThenRetry(s) => assert_eq!(s, 16),
        _ => panic!("expected a wait"),
    }
    assert!(matches!(
        PartnerDownloadResolver::slow_download_step("Wait 40 seconds", "m"),
        SlowDownloadStep::NextSlot
    ));
    assert!(matches!(PartnerDownloadResolver::slow_download_step("<p>nothing</p>", "m"), SlowDownloadStep::NextSlot));
    match PartnerDownloadResolver::slow_download_step(r#"<a href="/slow_download_file/f">x</a> wait 5"#, "m") {
        SlowDownloadStep::Ready(l) => assert_eq!(l, "https://m/slow_download_file/f"),
        _ => panic!("expected a link"),
    }
    assert_eq!(PartnerDownloadResolver::extract_countdown_seconds("TIMER: 007 sec"), Some(7));
}

use annas_mcp::domain::IpfsInfo;
use annas_mcp::downloader::fallback::{
    download_routes, exhausted_error, html_page_error, ipfs_download_urls, is_html_response, DownloadRoute,
};
use annas_mcp::downloader::sanitize::file_name_for;
use annas_mcp::errors::AppError;

#[test]
fn download_routes_in_order() {
    assert_eq!(
        download_routes(true),
        vec![
            DownloadRoute::FastApi,
            DownloadRoute::IpfsGateways,
            DownloadRoute::LibgenLi,
            DownloadRoute::LibraryLol,
            DownloadRoute::SlowQueue,
        ]
    );
    assert_eq!(download_routes(false)[0], DownloadRoute::IpfsGateways);
    assert!(!download_routes(false).contains(&DownloadRoute::FastApi));
}

#[test]
fn ipfs_addresses_of_each_copy() {
    let copies = vec![
        IpfsInfo { cid: "c1".to_string(), from: "a".to_string() },
        IpfsInfo { cid: "c2".to_string(), from: "b".to_string() },
    ];
    let urls = ipfs_download_urls(&copies, "Dune.epub");
    assert_eq!(urls.len(), 10);
    assert_eq!(urls[0], "https://cloudflare-ipfs.com/ipfs/c1?filename=Dune.epub");
    assert_eq!(urls[5], "https://cloudflare-ipfs.com/ipfs/c2?filename=Dune.epub");
    assert!(ipfs_download_urls(&vec![], "x").is_empty());
}

#[test]
fn download_failures() {
    assert!(matches!(exhausted_error(None), AppError::Config(m) if m == "ANNAS_SECRET_KEY is required for book downloads"));
    assert!(matches!(exhausted_error(Some(AppError::Api("quota".to_string()))), AppError::Api(m) if m == "quota"));
    assert!(is_html_response(Some(" Text/HTML; charset=utf-8")));
    assert!(!is_html_response(Some("application/pdf")));
    assert!(!is_html_response(None));
    assert!(matches!(html_page_error(), AppError::Download(m) if m == "Received an HTML page instead of the file"));
    assert_eq!(file_name_for("Dune: Part 1", ".EPUB"), "Dune_ Part 1.epub");
}

use annas_mcp::downloader::fallback::{BookDownload, BookDownloadStep};
use annas_mcp::downloader::partner::{SlowQueue, SlowQueueAction};

#[test]
fn the_format_cannot_climb_out_of_the_folder() {
    let p = make_safe_filepath("/d", "T", "x/../../etc");
    assert_eq!(p, "/d/T.x_____etc");
    assert!(!p["/d/".len()..].contains('/'));
    assert_eq!(make_safe_filepath("/d", "T", ".TAR.GZ"), "/d/T.tar.gz");
    assert_eq!(make_safe_filepath("/d", "T", "a..b"), "/d/T.a_b");
    assert_eq!(make_safe_filepath("/d", "T", "p*f"), "/d/T.p_f");
}

fn step(plan: &mut BookDownload) -> Result<DownloadRoute, String> {
    match plan.next_step() {
        BookDownloadStep::Try(r) => Ok(r),
        BookDownloadStep::GiveUp(e) => Err(e.message()),
    }
}

#[test]
fn book_download_tries_every_source_then_gives_the_fast_error() {
    let mut plan = BookDownload::start(true);
    assert_eq!(step(&mut plan), Ok(DownloadRoute::FastApi));
    plan.failed(DownloadRoute::FastApi, AppError::Api("quota".to_string()));
    assert_eq!(step(&mut plan), Ok(DownloadRoute::IpfsGateways));
    plan.failed(DownloadRoute::IpfsGateways, AppError::Download("x".to_string()));
    assert_eq!(step(&mut plan), Ok(DownloadRoute::LibgenLi));
    assert_eq!(step(&mut plan), Ok(DownloadRoute::LibraryLol));
    assert_eq!(step(&mut plan), Ok(DownloadRoute::SlowQueue));
    assert_eq!(step(&mut plan), Err("API error: quota".to_string()));

    let mut free = BookDownload::start(false);
    for _ in 0..4 {
        assert!(step(&mut free).is_ok());
    }
    assert_eq!(step(&mut free), Err("Missing configuration: ANNAS_SECRET_KEY is required for book downloads".to_string()));
}

#[test]
fn slow_queue_waits_once_then_moves_on() {
    let (mut q, a) = SlowQueue::start("m", "ABC");
    assert!(matches!(a, SlowQueueAction::Fetch(ref u) if u == "https://m/slow_download/abc/0/0"));
    match q.page(Some("Please wait 15 seconds")) {
        SlowQueueAction::WaitThenFetch(s, u) => {
            assert_eq!(s, 16);
            assert_eq!(u, "https://m/slow_download/abc/0/0");
        }
        _ => panic!("expected a wait"),
    }
    // the page fetched again still waits: move to the next slot
    assert!(matches!(q.page(Some("Please wait 15 seconds")), SlowQueueAction::Fetch(ref u) if u == "https://m/slow_download/abc/0/1"));
    assert!(matches!(q.page(None), SlowQueueAction::Fetch(ref u) if u == "https://m/slow_download/abc/0/2"));
    assert!(matches!(
        q.page(Some(r#"<a href="/slow_download_file/f">x</a>"#)),
        SlowQueueAction::Found(ref l) if l == "https://m/slow_download_file/f"
    ));
    assert!(matches!(q.page(None), SlowQueueAction::NotFound));
}
