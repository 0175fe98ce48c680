use annas_mcp::downloader::sanitize::sanitize_filename;

#[test]
fn sanitizing_twice_is_sanitizing_once() {
    for name in ["Book: Subtitle / Part 1 *special?*", "../../../etc/passwd", "...", "", "  ok  "] {
        let once = sanitize_filename(name);
        assert_eq!(sanitize_filename(&once), once);
    }
}

#[test]
fn a_cut_that_ends_in_a_space_is_trimmed_again() {
    let name = format!("{} b", "a".repeat(199));
    let once = sanitize_filename(&name);
    assert_eq!(once, format!("{} ", "a".repeat(199)));
    assert_eq!(sanitize_filename(&once), "a".repeat(199));
}
