use annas_mcp::cli::{download_name, listing, status_label};
use annas_mcp::config::{AppConfig, EnvSettings, DEFAULT_SLUM_STATUS_URL, DEFAULT_USER_AGENT, DEFAULT_WIKIPEDIA_URL};
use annas_mcp::errors::AppError;

fn env() -> EnvSettings {
    EnvSettings {
        secret_key: None,
        archive_api_key: None,
        download_path: None,
        user_download_dir: None,
        base_url: None,
        wiki_url: None,
        slum_url: None,
        timeout: None,
    }
}

#[test]
fn settings_from_the_environment() {
    let mut e = env();
    e.secret_key = Some("   ".to_string());
    e.archive_api_key = Some("k2".to_string());
    e.user_download_dir = Some("/home/u/Downloads".to_string());
    e.base_url = Some(" annas-archive.li ".to_string());
    e.timeout = Some("abc".to_string());
    let c = AppConfig::from_settings(e);
    assert_eq!(c.secret_key, None);
    assert_eq!(c.download_path, "/home/u/Downloads");
    assert_eq!(c.base_url, Some("annas-archive.li".to_string()));
    assert_eq!(c.timeout_secs, 60);
    assert_eq!(c.wikipedia_url, DEFAULT_WIKIPEDIA_URL);
    assert_eq!(c.slum_status_url, DEFAULT_SLUM_STATUS_URL);
    assert_eq!(c.user_agent, DEFAULT_USER_AGENT);

    let mut e = env();
    e.archive_api_key = Some(" k2 ".to_string());
    e.timeout = Some("+30".to_string());
    let c = AppConfig::from_settings(e);
    assert_eq!(c.secret_key, Some("k2".to_string()));
    assert_eq!(c.download_path, ".");
    assert_eq!(c.timeout_secs, 30);
    assert_eq!(c.base_url, None);
}

#[test]
fn command_line_overrides() {
    let c = AppConfig::from_settings(env()).with_overrides(Some(" m ".to_string()), None, Some("/x".to_string()), Some(5));
    assert_eq!(c.base_url, Some(" m ".to_string()));
    assert_eq!(c.secret_key, None);
    assert_eq!(c.download_path, "/x");
    assert_eq!(c.timeout_secs, 5);
}

#[test]
fn download_names() {
    assert_eq!(download_name("h", Some("Rust_Book.epub")), ("Rust_Book".to_string(), "epub".to_string()));
    assert_eq!(download_name("h", Some("dir/.bashrc")), (".bashrc".to_string(), "bin".to_string()));
    assert_eq!(download_name("h", Some("/")), ("untitled".to_string(), "bin".to_string()));
    assert_eq!(download_name("h", None), ("h".to_string(), "bin".to_string()));
}

#[test]
fn listings_and_labels() {
    assert_eq!(
        listing("Book", &vec!["s1".to_string(), "s2".to_string()]),
        vec![
            "Book #1:\ns1".to_string(),
            "\n----------------------------------------\n".to_string(),
            "Book #2:\ns2".to_string(),
        ]
    );
    assert!(listing("Article", &vec![]).is_empty());
    assert_eq!(status_label(1), "UP");
    assert_eq!(status_label(0), "DOWN");
    assert_eq!(status_label(-1), "UNKNOWN");
}

#[test]
fn error_messages() {
    assert_eq!(AppError::NotFound("x".to_string()).message(), "Not found: x");
    assert_eq!(AppError::InvalidParam("p".to_string()).message(), "Invalid parameter: p");
    assert_eq!(AppError::HtmlParse("h".to_string()).message(), "HTML parsing error: h");
}
