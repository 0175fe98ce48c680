use annas_mcp::client::elasticsearch::{details_from_record, format_filesize, parse_elasticsearch_record};
use annas_mcp::errors::AppError;

#[test]
fn filesize_in_bytes_kib_mib() {
    assert_eq!(format_filesize(0), "0B");
    assert_eq!(format_filesize(1023), "1023B");
    assert_eq!(format_filesize(1024), "1.0KB");
    assert_eq!(format_filesize(1536), "1.5KB");
    assert_eq!(format_filesize(1048576), "1.0MB");
    assert_eq!(format_filesize(11010048), "10.5MB");
}

#[test]
fn filesize_rounds_half_to_even() {
    // 1280 bytes are exactly 1.25 KiB
    assert_eq!(format_filesize(1280), "1.2KB");
    // 1075 bytes are about 1.0498 KiB
    assert_eq!(format_filesize(1075), "1.0KB");
}

#[test]
fn filesize_of_gibibytes_is_labelled_gb() {
    assert_eq!(format_filesize(3 * 1073741824), "3.0GB");
    assert_eq!(format_filesize(1073741824), "1.0GB");
    assert_eq!(format_filesize(1073741823), "1024.0MB");
}

const RECORD: &str = r#"{
  "file_unified_data": {
    "title_best": "Dune",
    "author_best": "Frank Herbert",
    "extension_best": "epub",
    "filesize_best": 1536,
    "language_codes": ["en", "fr"],
    "publisher_best": "",
    "year_best": "1965",
    "identifiers_unified": {"isbn13": ["9780441013593", 5], "sha1": ["abc"]},
    "classifications_unified": {
      "collection": ["x"],
      "_hidden": ["y"],
      "lcc": [" PS3558 ", "PS3558", ""],
      "ddc": ["813.54"]
    },
    "ipfs_infos": [{"ipfs_cid": "bafy1", "from": "lgli"}, {"ipfs_cid": "bafy2"}, {"from": "nope"}, 7]
  },
  "additional": {
    "download_urls": ["https://a.example/1"],
    "ipfs_urls": ["ipfs://x"],
    "torrent_paths": ["t/1.torrent"]
  }
}"#;

#[test]
fn record_fields_are_read() {
    let d = parse_elasticsearch_record(RECORD, "d41d8cd98f00b204e9800998ecf8427e").expect("record");
    assert_eq!(d.md5, "d41d8cd98f00b204e9800998ecf8427e");
    assert_eq!(d.title, "Dune");
    assert_eq!(d.author, Some("Frank Herbert".to_string()));
    assert_eq!(d.format, Some("EPUB".to_string()));
    assert_eq!(d.size_bytes, Some(1536));
    assert_eq!(d.size, Some("1.5KB".to_string()));
    assert_eq!(d.language, Some("en".to_string()));
    assert_eq!(d.publisher, None);
    assert_eq!(d.year, Some("1965".to_string()));
    assert_eq!(d.description, None);
}

#[test]
fn record_identifiers_and_lists() {
    let d = parse_elasticsearch_record(RECORD, "m").expect("record");
    let ids = d.identifiers.expect("identifiers");
    assert_eq!(ids.isbn13, Some(vec!["9780441013593".to_string()]));
    assert_eq!(ids.isbn10, None);
    assert_eq!(ids.sha1, Some("abc".to_string()));
    assert_eq!(ids.sha256, None);
    assert_eq!(d.categories, Some(vec!["813.54".to_string(), "PS3558".to_string()]));
    let ipfs = d.ipfs_cids.expect("ipfs");
    assert_eq!(ipfs.len(), 2);
    assert_eq!(ipfs[0].cid, "bafy1");
    assert_eq!(ipfs[0].from, "lgli");
    assert_eq!(ipfs[1].cid, "bafy2");
    assert_eq!(ipfs[1].from, "unknown");
    let sources = d.download_sources.expect("sources");
    assert_eq!(sources.len(), 2);
    assert_eq!((sources[0].name.as_str(), sources[0].url.as_str()), ("direct", "https://a.example/1"));
    assert_eq!((sources[1].name.as_str(), sources[1].url.as_str()), ("ipfs", "ipfs://x"));
    assert_eq!(d.torrent_paths, Some(vec!["t/1.torrent".to_string()]));
}

#[test]
fn record_without_file_data_reads_the_top_level() {
    let d = parse_elasticsearch_record(r#"{"title_best": "Top"}"#, "m").expect("record");
    assert_eq!(d.title, "Top");
    let d = parse_elasticsearch_record(r#"{"other": 1}"#, "m").expect("record");
    assert_eq!(d.title, "Unknown Title");
    assert!(d.identifiers.is_none());
    assert!(d.categories.is_none());
    assert!(d.download_sources.is_none());
}

#[test]
fn record_sent_as_a_json_string_is_unquoted() {
    let raw = r#"  "{\"file_unified_data\":{\"title_best\":\"Quoted\"}}"  "#;
    let d = parse_elasticsearch_record(raw, "m").expect("record");
    assert_eq!(d.title, "Quoted");
}

#[test]
fn record_errors() {
    match parse_elasticsearch_record(r#"{"error": "Record not found"}"#, "m") {
        Err(AppError::Api(m)) => assert_eq!(m, "Record not found"),
        other => panic!("unexpected: {:?}", other),
    }
    match parse_elasticsearch_record("not json", "m") {
        Err(AppError::Api(m)) => assert!(m.starts_with("Failed to parse record JSON: ")),
        other => panic!("unexpected: {:?}", other),
    }
    match parse_elasticsearch_record(r#""\q""#, "m") {
        Err(AppError::Api(m)) => assert!(m.starts_with("Failed to unquote outer JSON string: ")),
        other => panic!("unexpected: {:?}", other),
    }
}

#[test]
fn a_record_sent_as_a_json_string_reads_as_the_record() {
    let plain = RECORD.trim();
    let quoted = serde_json::to_string(plain).expect("quoted");
    let a = parse_elasticsearch_record(plain, "m").expect("plain");
    let b = parse_elasticsearch_record(&quoted, "m").expect("quoted");
    assert_eq!(format!("{:?}", a), format!("{:?}", b));
    let with_controls = "{\"title_best\": \"a\\tb\\u0001\"}";
    let b = parse_elasticsearch_record(&serde_json::to_string(with_controls).unwrap(), "m").expect("quoted");
    assert_eq!(b.title, "a\tb\u{1}");
}

#[test]
fn a_record_with_whitespace_inside_the_quotes_reads_as_the_record() {
    let spaced = format!(" \n\t{}\r\n ", RECORD.trim());
    let quoted = serde_json::to_string(&spaced).expect("quoted");
    let a = parse_elasticsearch_record(&spaced, "m").expect("plain");
    let b = parse_elasticsearch_record(&quoted, "m").expect("quoted");
    assert_eq!(format!("{:?}", a), format!("{:?}", b));
    assert_eq!(b.title, "Dune");
    let broken = serde_json::to_string("  {\"title_best\": ").unwrap();
    assert!(parse_elasticsearch_record(&broken, "m").is_err());
    assert!(parse_elasticsearch_record("  {\"title_best\": ", "m").is_err());
}

#[test]
fn record_document_is_read_field_by_field() {
    let d = details_from_record(
        r#"{"file_unified_data":{"title_best":"T","extension_best":"epub","filesize_best":2048}}"#,
        "abc",
    );
    assert_eq!(d.md5, "abc");
    assert_eq!(d.title, "T");
    assert_eq!(d.format.as_deref(), Some("EPUB"));
    assert_eq!(d.size.as_deref(), Some("2.0KB"));
    assert_eq!(d.size_bytes, Some(2048));
    let untitled = details_from_record(r#"{"author_best":""}"#, "x");
    assert_eq!(untitled.title, "Unknown Title");
    assert_eq!(untitled.author, None);
}
