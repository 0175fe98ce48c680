use annas_mcp::client::AnnaScraper;

const CARD: &str = r#"
    <div class="flex pt-3 pb-3 border-b">
        <a href="/md5/abcdef1234567890abcdef1234567890" class="custom-a block mr-2">
            <img src="/covers/abcdef.jpg" alt="Cover" />
        </a>
        <div class="max-w-full">
            <a href="/md5/abcdef1234567890abcdef1234567890" class="js-vim-focus">
                Nanometre-scale thermometry in a living cell
            </a>
            <div class="text-xs text-gray-500">
                <a href="/search?q=Kucsko">
                    <span class="icon-[mdi--user-edit]"></span> Kucsko, G.
                </a>
                <a href="/search?q=Nature">
                    <span class="icon-[mdi--company]"></span> Nature
                </a>
            </div>
            <div class="text-gray-800 text-sm">
                English [en] · PDF · 3.1MB · 2013
            </div>
        </div>
    </div>
"#;

#[test]
fn article_cards_are_read_once_per_hash() {
    let papers = AnnaScraper::parse_articles(CARD, "annas-archive.li/").expect("papers");
    assert_eq!(papers.len(), 1);
    let p = &papers[0];
    assert_eq!(p.doi, "");
    assert_eq!(p.title, Some("Nanometre-scale thermometry in a living cell".to_string()));
    assert_eq!(p.authors, Some("Kucsko, G.".to_string()));
    assert_eq!(p.journal, Some("Nature".to_string()));
    assert_eq!(p.size, Some("3.1MB".to_string()));
    assert_eq!(p.hash, Some("abcdef1234567890abcdef1234567890".to_string()));
    assert_eq!(p.page_url, "https://annas-archive.li/md5/abcdef1234567890abcdef1234567890");
    assert_eq!(p.download_url, None);
}

#[test]
fn pages_without_cards_give_nothing() {
    assert!(AnnaScraper::parse_articles("<p>nothing</p>", "m").expect("papers").is_empty());
    assert!(AnnaScraper::parse_books("", "m").expect("books").is_empty());
    assert_eq!(AnnaScraper::parse_scidb_search_for_md5("<a href='/md5/'>x</a>"), None);
}
