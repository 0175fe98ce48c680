use annas_mcp::mirror::resolver::{MirrorSelection, SelectionStep};
use annas_mcp::mirror::{Candidate, Heartbeat, MirrorResolver};

fn cand(base: &str, beats: &[(i32, i64)]) -> Candidate {
    Candidate {
        monitor_id: 0,
        base_url: base.to_string(),
        source_url: format!("https://{base}/"),
        heartbeats: beats.iter().map(|&(status, ping)| Heartbeat { status, ping, time: None }).collect(),
    }
}

fn step(s: &MirrorSelection) -> (bool, String) {
    match s.step() {
        SelectionStep::Probe(m) => (true, m),
        SelectionStep::Chosen(m) => (false, m),
    }
}

#[test]
fn selection_probes_in_order_then_falls_back() {
    let mut s = MirrorSelection::start(None, Some(vec![cand("a.one", &[]), cand("a.two", &[])]));
    assert_eq!(step(&s), (true, "a.one".to_string()));
    s.probe_failed();
    assert_eq!(step(&s), (true, "a.two".to_string()));
    s.probe_failed();
    assert_eq!(step(&s), (false, "annas-archive.gl".to_string()));
    s.probe_failed();
    assert_eq!(step(&s), (false, "annas-archive.gl".to_string()));
}

#[test]
fn selection_without_candidates_uses_the_given_fallback() {
    let s = MirrorSelection::start(Some(" https://annas-archive.se/ "), None);
    assert_eq!(step(&s), (false, "annas-archive.se".to_string()));
}

#[test]
fn ranking_puts_unchecked_mirrors_last_and_breaks_ties() {
    let ranked = MirrorResolver::rank_candidates(vec![
        cand("z.unchecked", &[]),
        cand("b.half", &[(0, 10), (1, 10)]),
        cand("a.full", &[(1, 90), (1, 110)]),
        cand("c.full", &[(1, 100), (1, 100)]),
        cand("b.full", &[(1, 100), (1, 100)]),
        cand("d.down", &[(1, 1), (0, 1)]),
    ]);
    let order: Vec<&str> = ranked.iter().map(|c| c.base_url.as_str()).collect();
    assert_eq!(order, vec!["a.full", "b.full", "c.full", "b.half", "z.unchecked"]);
}

#[test]
fn scores() {
    let s = cand("x", &[(1, 100), (0, 5), (1, 201)]).score();
    assert_eq!(s.success_count, 2);
    assert_eq!(s.sample_count, 3);
    assert_eq!(s.last_status, 1);
    assert_eq!(s.average_ping, 150);
    let e = cand("x", &[]).score();
    assert_eq!((e.success_count, e.sample_count, e.last_status, e.average_ping), (0, 0, -1, 0));
}

#[test]
fn status_page_fallback_and_slug() {
    let html = "visit https://annas-archive.org/ or https://annas-archive.li and https://annas-archive.org";
    let c = MirrorResolver::parse_status_page_html(html).expect("candidates");
    let bases: Vec<&str> = c.iter().map(|c| c.base_url.as_str()).collect();
    assert_eq!(bases, vec!["annas-archive.org", "annas-archive.li"]);
    assert_eq!(c[0].source_url, "https://annas-archive.org/");
    assert_eq!(c[0].monitor_id, 0);
    assert_eq!(MirrorResolver::extract_slug(r#"{"slug":"my-status"}"#), "my-status");
    assert_eq!(MirrorResolver::extract_slug("none"), "slum");
    let r = MirrorResolver::new(None, None);
    assert_eq!(r.heartbeat_url("slum"), "https://open-slum.org/api/status-page/heartbeat/slum");
    assert_eq!(MirrorResolver::probe_url("https://annas-archive.li/"), "https://annas-archive.li/search?q=test&content=book_any");
}

#[test]
fn heartbeats_attach_by_monitor() {
    let mut c = cand("x", &[]);
    c.monitor_id = 7;
    let lists = vec![("7".to_string(), vec![Heartbeat { status: 1, ping: 3, time: None }])];
    let out = MirrorResolver::attach_heartbeats(vec![c, cand("y", &[])], &lists);
    assert_eq!(out[0].heartbeats.len(), 1);
    assert_eq!(out[1].heartbeats.len(), 0);
}
