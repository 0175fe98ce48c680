//! Discovery and ranking of Anna's Archive mirrors from the SLUM status page.
use vstd::prelude::*;

use crate::config::{DEFAULT_FALLBACK_MIRROR, DEFAULT_SLUM_STATUS_URL, DEFAULT_USER_AGENT};
use crate::pattern::{group, group_exec, groups_view, regex_all, regex_captures_all, regex_first};
use crate::text::{
    append, chars_of, concat, copy_str, find, find_exec, has_prefix,
    lemma_find_from_bounds, parse_i32, parse_i32_exec, replace, replace_all, str_eq,
    str_starts_with, string_of, strip_trailing, trim, trim_end_char, trim_ws, };

verus! {

/// One health check of a monitored mirror.
#[derive(Clone, Debug)]
pub struct Heartbeat {
    /// 1 when the mirror answered, 0 when it did not.
    pub status: i32,
    /// The answer time in milliseconds.
    pub ping: i64,
    pub time: Option<String>,
}

/// A mirror named on the status page, with its recent health checks.
#[derive(Clone, Debug)]
pub struct Candidate {
    pub monitor_id: i32,
    /// The host name, without scheme or trailing slash.
    pub base_url: String,
    pub source_url: String,
    pub heartbeats: Vec<Heartbeat>,
}

/// The health summary of a candidate. The success rate is
/// `success_count / sample_count`; callers that need it as a number divide.
#[derive(Clone, Debug)]
pub struct CandidateScore {
    pub success_count: usize,
    pub sample_count: usize,
    pub last_status: i32,
    pub average_ping: i64,
}

pub struct HeartbeatView {
    pub status: i32,
    pub ping: i64,
    pub time: Option<Seq<char>>,
}

pub struct CandidateView {
    pub monitor_id: i32,
    pub base_url: Seq<char>,
    pub source_url: Seq<char>,
    pub heartbeats: Seq<HeartbeatView>,
}

pub struct ScoreView {
    pub success_count: nat,
    pub sample_count: nat,
    pub last_status: int,
    pub average_ping: int,
}

impl View for Heartbeat {
    type V = HeartbeatView;

    open spec fn view(&self) -> HeartbeatView {
        HeartbeatView {
            status: self.status,
            ping: self.ping,
            time: match self.time {
                Some(t) => Some(t@),
                None => None,
            },
        }
    }
}

pub open spec fn heartbeats_view(v: Seq<Heartbeat>) -> Seq<HeartbeatView> {
    v.map_values(|h: Heartbeat| h@)
}

impl View for Candidate {
    type V = CandidateView;

    open spec fn view(&self) -> CandidateView {
        CandidateView {
            monitor_id: self.monitor_id,
            base_url: self.base_url@,
            source_url: self.source_url@,
            heartbeats: heartbeats_view(self.heartbeats@),
        }
    }
}

impl View for CandidateScore {
    type V = ScoreView;

    open spec fn view(&self) -> ScoreView {
        ScoreView {
            success_count: self.success_count as nat,
            sample_count: self.sample_count as nat,
            last_status: self.last_status as int,
            average_ping: self.average_ping as int,
        }
    }
}

pub open spec fn candidates_view(v: Seq<Candidate>) -> Seq<CandidateView> {
    v.map_values(|c: Candidate| c@)
}

// ---------------------------------------------------------------------------
// Scores
// ---------------------------------------------------------------------------

/// The number of successful checks.
pub open spec fn success_count(h: Seq<HeartbeatView>) -> nat
    decreases h.len(),
{
    if h.len() == 0 {
        0
    } else {
        success_count(h.drop_last()) + if h.last().status == 1 {
            1nat
        } else {
            0nat
        }
    }
}

/// The sum of the answer times of the successful checks.
pub open spec fn success_ping_sum(h: Seq<HeartbeatView>) -> int
    decreases h.len(),
{
    if h.len() == 0 {
        0
    } else {
        success_ping_sum(h.drop_last()) + if h.last().status == 1 {
            h.last().ping as int
        } else {
            0
        }
    }
}

/// Integer division rounding toward zero, as Rust's `/` does.
pub open spec fn div_toward_zero(a: int, b: int) -> int {
    if a >= 0 {
        a / b
    } else {
        -((-a) / b)
    }
}

/// The score of a list of checks: how many succeeded, how many there are,
/// the status of the last one (-1 when there is none), and the average answer
/// time of the successful ones (0 when none succeeded).
pub open spec fn score_of(h: Seq<HeartbeatView>) -> ScoreView {
    let s = success_count(h);
    ScoreView {
        success_count: s,
        sample_count: h.len(),
        last_status: if h.len() > 0 {
            h.last().status as int
        } else {
            -1
        },
        average_ping: if s > 0 {
            div_toward_zero(success_ping_sum(h), s as int)
        } else {
            0
        },
    }
}

proof fn lemma_success_bounds(h: Seq<HeartbeatView>)
    ensures
        success_count(h) <= h.len(),
        -(success_count(h) as int) * 0x8000_0000_0000_0000 <= success_ping_sum(h) <= (success_count(
            h,
        ) as int) * 0x7fff_ffff_ffff_ffff,
    decreases h.len(),
{
    if h.len() > 0 {
        lemma_success_bounds(h.drop_last());
    }
}

impl Candidate {
    /// The health summary of this candidate's checks.
    pub fn score(&self) -> (r: CandidateScore)
        ensures
            r@ == score_of(self@.heartbeats),
            r.success_count <= r.sample_count,
    {
        let ghost h = heartbeats_view(self.heartbeats@);
        let n = self.heartbeats.len();
        let mut success: usize = 0;
        let mut sum: i128 = 0;
        let mut i: usize = 0;
        while i < n
            invariant
                n == self.heartbeats@.len(),
                h == heartbeats_view(self.heartbeats@),
                0 <= i <= n,
                success as nat == success_count(h.take(i as int)),
                sum as int == success_ping_sum(h.take(i as int)),
                success <= i,
                -(success as int) * 0x8000_0000_0000_0000 <= sum <= (success as int)
                    * 0x7fff_ffff_ffff_ffff,
            decreases n - i,
        {
            let hb = &self.heartbeats[i];
            assert(h.take(i + 1).drop_last() =~= h.take(i as int));
            assert(h.take(i + 1).last() == hb@);
            if hb.status == 1 {
                assert(n <= usize::MAX);
                success = success + 1;
                sum = sum + hb.ping as i128;
            }
            i += 1;
        }
        assert(h.take(n as int) =~= h);
        let last_status = if n > 0 {
            self.heartbeats[n - 1].status
        } else {
            -1
        };
        let average_ping: i64 = if success > 0 {
            let q: i128 = if sum >= 0 {
                sum / (success as i128)
            } else {
                -((-sum) / (success as i128))
            };
            proof {
                assert(-0x8000_0000_0000_0000 <= q <= 0x7fff_ffff_ffff_ffff) by (nonlinear_arith)
                    requires
                        success > 0,
                        -(success as int) * 0x8000_0000_0000_0000 <= sum <= (success as int)
                            * 0x7fff_ffff_ffff_ffff,
                        q == (if sum >= 0 {
                            (sum as int) / (success as int)
                        } else {
                            -((-(sum as int)) / (success as int))
                        }),
                ;
            }
            q as i64
        } else {
            0
        };
        CandidateScore { success_count: success, sample_count: n, last_status, average_ping }
    }
}

// ---------------------------------------------------------------------------
// Ranking
// ---------------------------------------------------------------------------

/// A candidate that the ranking keeps: its last check succeeded, or it has no checks.
pub open spec fn is_healthy(c: CandidateView) -> bool {
    let s = score_of(c.heartbeats);
    s.last_status == 1 || s.sample_count == 0
}

/// Lexicographic order of character sequences by code point: -1, 0 or 1.
pub open spec fn seq_order(a: Seq<char>, b: Seq<char>) -> int
    decreases a.len(),
{
    if a.len() == 0 && b.len() == 0 {
        0
    } else if a.len() == 0 {
        -1
    } else if b.len() == 0 {
        1
    } else if (a[0] as u32) < (b[0] as u32) {
        -1
    } else if (a[0] as u32) > (b[0] as u32) {
        1
    } else {
        seq_order(a.drop_first(), b.drop_first())
    }
}

pub open spec fn int_order(a: int, b: int) -> int {
    if a < b {
        -1
    } else if a > b {
        1
    } else {
        0
    }
}

/// The ranking order (-1 when `a` comes first): candidates without checks come
/// after all others; otherwise a higher success rate comes first, then a lower
/// average answer time, then the smaller host name. Success rates are compared
/// exactly, as fractions.
pub open spec fn rank_order(a: CandidateView, b: CandidateView) -> int {
    let sa = score_of(a.heartbeats);
    let sb = score_of(b.heartbeats);
    if sa.sample_count == 0 || sb.sample_count == 0 {
        int_order(sb.sample_count as int, sa.sample_count as int)
    } else {
        let ra = sa.success_count * sb.sample_count;
        let rb = sb.success_count * sa.sample_count;
        if ra != rb {
            int_order(rb as int, ra as int)
        } else if sa.average_ping != sb.average_ping {
            int_order(sa.average_ping, sb.average_ping)
        } else {
            seq_order(a.base_url, b.base_url)
        }
    }
}

/// `x` inserted into `s` just after the last element that does not come after it.
pub open spec fn insert_ranked(s: Seq<CandidateView>, x: CandidateView) -> Seq<CandidateView>
    decreases s.len(),
{
    if s.len() == 0 {
        seq![x]
    } else if rank_order(x, s.last()) < 0 {
        insert_ranked(s.drop_last(), x).push(s.last())
    } else {
        s.push(x)
    }
}

/// The stable sort of `s` by the ranking order.
pub open spec fn rank_sort(s: Seq<CandidateView>) -> Seq<CandidateView>
    decreases s.len(),
{
    if s.len() == 0 {
        seq![]
    } else {
        insert_ranked(rank_sort(s.drop_last()), s.last())
    }
}

/// The healthy candidates, in their order.
pub open spec fn healthy(s: Seq<CandidateView>) -> Seq<CandidateView>
    decreases s.len(),
{
    if s.len() == 0 {
        seq![]
    } else if is_healthy(s.last()) {
        healthy(s.drop_last()).push(s.last())
    } else {
        healthy(s.drop_last())
    }
}

/// The ranking of a list of candidates.
pub open spec fn ranked(s: Seq<CandidateView>) -> Seq<CandidateView> {
    rank_sort(healthy(s))
}

/// Compares two strings by code point.
fn str_order(a: &str, b: &str) -> (r: i8)
    ensures
        r as int == seq_order(a@, b@),
{
    let x = chars_of(a);
    let y = chars_of(b);
    let mut i: usize = 0;
    assert(x@.skip(0) =~= x@);
    assert(y@.skip(0) =~= y@);
    loop
        invariant
            x@ == a@,
            y@ == b@,
            i <= x@.len(),
            i <= y@.len(),
            seq_order(a@, b@) == seq_order(x@.skip(i as int), y@.skip(i as int)),
        decreases x@.len() - i,
    {
        let ghost xs = x@.skip(i as int);
        let ghost ys = y@.skip(i as int);
        if i == x.len() && i == y.len() {
            return 0;
        }
        if i == x.len() {
            return -1;
        }
        if i == y.len() {
            return 1;
        }
        assert(xs[0] == x@[i as int]);
        assert(ys[0] == y@[i as int]);
        if (x[i] as u32) < (y[i] as u32) {
            return -1;
        }
        if (x[i] as u32) > (y[i] as u32) {
            return 1;
        }
        assert(xs.drop_first() =~= x@.skip(i + 1));
        assert(ys.drop_first() =~= y@.skip(i + 1));
        i += 1;
    }
}

/// The ranking order of two candidates, given their scores.
fn rank_order_exec(a: &Candidate, sa: &CandidateScore, b: &Candidate, sb: &CandidateScore) -> (r: i8)
    requires
        sa@ == score_of(a@.heartbeats),
        sb@ == score_of(b@.heartbeats),
    ensures
        r as int == rank_order(a@, b@),
{
    if sa.sample_count == 0 || sb.sample_count == 0 {
        if sb.sample_count < sa.sample_count {
            -1
        } else if sb.sample_count > sa.sample_count {
            1
        } else {
            0
        }
    } else {
        let a1 = sa.success_count as u128;
        let a2 = sa.sample_count as u128;
        let b1 = sb.success_count as u128;
        let b2 = sb.sample_count as u128;
        proof {
            assert(a1 * b2 <= u128::MAX && b1 * a2 <= u128::MAX) by (nonlinear_arith)
                requires
                    a1 <= 0xffff_ffff_ffff_ffff,
                    a2 <= 0xffff_ffff_ffff_ffff,
                    b1 <= 0xffff_ffff_ffff_ffff,
                    b2 <= 0xffff_ffff_ffff_ffff,
            ;
        }
        let ra: u128 = a1 * b2;
        let rb: u128 = b1 * a2;
        if ra != rb {
            if rb < ra {
                -1
            } else {
                1
            }
        } else if sa.average_ping != sb.average_ping {
            if sa.average_ping < sb.average_ping {
                -1
            } else {
                1
            }
        } else {
            str_order(a.base_url.as_str(), b.base_url.as_str())
        }
    }
}

proof fn lemma_insert_ranked_len(s: Seq<CandidateView>, x: CandidateView)
    ensures
        insert_ranked(s, x).len() == s.len() + 1,
    decreases s.len(),
{
    if s.len() > 0 && rank_order(x, s.last()) < 0 {
        lemma_insert_ranked_len(s.drop_last(), x);
    }
}

/// Inserting after position `j`: `insert_ranked` puts `x` at the first
/// position from which no element comes after it.
proof fn lemma_insert_at(s: Seq<CandidateView>, x: CandidateView, j: int)
    requires
        0 <= j <= s.len(),
        forall|k: int| j <= k < s.len() ==> rank_order(x, #[trigger] s[k]) < 0,
        j == 0 || rank_order(x, s[j - 1]) >= 0,
    ensures
        insert_ranked(s, x) == s.take(j).push(x) + s.skip(j),
    decreases s.len(),
{
    if s.len() == 0 {
        assert(s.take(j).push(x) + s.skip(j) =~= seq![x]);
    } else if j == s.len() {
        assert(s.take(j) =~= s);
        assert(s.take(j).push(x) + s.skip(j) =~= s.push(x));
    } else {
        let t = s.drop_last();
        assert forall|k: int| j <= k < t.len() implies rank_order(x, #[trigger] t[k]) < 0 by {
            assert(t[k] == s[k]);
        }
        if j > 0 {
            assert(t[j - 1] == s[j - 1]);
        }
        lemma_insert_at(t, x, j);
        assert(insert_ranked(t, x).push(s.last()) =~= s.take(j).push(x) + s.skip(j));
    }
}

/// The candidates that the ranking keeps, each with its score.
fn healthy_with_scores(candidates: Vec<Candidate>) -> (r: (Vec<Candidate>, Vec<CandidateScore>))
    ensures
        candidates_view(r.0@) == healthy(candidates_view(candidates@)),
        r.1@.len() == r.0@.len(),
        forall|k: int| 0 <= k < r.0@.len() ==> (#[trigger] r.1@[k])@ == score_of(r.0@[k]@.heartbeats),
{
    let ghost all = candidates_view(candidates@);
    let mut rest = candidates;
    let mut kept: Vec<Candidate> = Vec::new();
    let mut scores: Vec<CandidateScore> = Vec::new();
    let ghost mut done: int = 0;
    while rest.len() > 0
        invariant
            0 <= done <= all.len(),
            candidates_view(rest@) == all.skip(done),
            candidates_view(kept@) == healthy(all.take(done)),
            scores@.len() == kept@.len(),
            forall|k: int| 0 <= k < kept@.len() ==> (#[trigger] scores@[k])@ == score_of(
                kept@[k]@.heartbeats,
            ),
        decreases rest@.len(),
    {
        let ghost before = rest@;
        let c = rest.remove(0);
        proof {
            assert(candidates_view(before).len() == before.len());
            assert(done < all.len());
            assert(candidates_view(before)[0] == c@);
            assert(all.skip(done)[0] == all[done]);
            assert(all[done] == c@);
            assert forall|k: int| 0 <= k < rest@.len() implies candidates_view(rest@)[k] == all.skip(
                done + 1,
            )[k] by {
                assert(rest@[k] == before[k + 1]);
                assert(candidates_view(before)[k + 1] == all.skip(done)[k + 1]);
            }
            assert(candidates_view(rest@) =~= all.skip(done + 1));
            assert(all.take(done + 1).drop_last() =~= all.take(done));
            assert(all.take(done + 1).last() == c@);
        }
        let s = c.score();
        let ghost kv = candidates_view(kept@);
        if s.last_status == 1 || s.sample_count == 0 {
            kept.push(c);
            scores.push(s);
            assert(candidates_view(kept@) =~= kv.push(c@));
        }
        proof {
            done = done + 1;
        }
    }
    proof {
        assert(all.skip(done).len() == 0);
        assert(all.take(done) =~= all);
    }
    (kept, scores)
}

impl MirrorResolver {
    /// Keeps the healthy candidates (last check succeeded, or no checks at
    /// all) and orders them best first: candidates with checks before those
    /// without, then by success rate, answer time and host name (a stable
    /// insertion sort, `rank_sort`).
    pub fn rank_candidates(candidates: Vec<Candidate>) -> (r: Vec<Candidate>)
        ensures
            candidates_view(r@) == ranked(candidates_view(candidates@)),
    {
        let (mut items, mut scores) = healthy_with_scores(candidates);
        let ghost src = candidates_view(items@);
        // insertion sort: items[..i] is the ranking of src[..i]
        let mut i: usize = 0;
        let n = items.len();
        while i < n
            invariant
                n == items@.len(),
                n == src.len(),
                0 <= i <= n,
                scores@.len() == n,
                forall|k: int| 0 <= k < n ==> (#[trigger] scores@[k])@ == score_of(
                    items@[k]@.heartbeats,
                ),
                candidates_view(items@).take(i as int) == rank_sort(src.take(i as int)),
                candidates_view(items@).skip(i as int) == src.skip(i as int),
            decreases n - i,
        {
            let ghost before = candidates_view(items@);
            let ghost sorted = before.take(i as int);
            let x = items.remove(i);
            let sx = scores.remove(i);
            let ghost xv = x@;
            proof {
                assert(before[i as int] == xv);
                assert(src[i as int] == before.skip(i as int)[0]);
                assert(src.take(i + 1).drop_last() =~= src.take(i as int));
                assert(src.take(i + 1).last() == xv);
                assert(candidates_view(items@).take(i as int) =~= sorted);
            }
            let mut j = i;
            while j > 0 && rank_order_exec(&x, &sx, &items[j - 1], &scores[j - 1]) < 0
                invariant
                    0 <= j <= i < n,
                    items@.len() == n - 1,
                    scores@.len() == n - 1,
                    xv == x@,
                    sx@ == score_of(x@.heartbeats),
                    forall|k: int| 0 <= k < n - 1 ==> (#[trigger] scores@[k])@ == score_of(
                        items@[k]@.heartbeats,
                    ),
                    candidates_view(items@).take(i as int) == sorted,
                    forall|k: int| j <= k < i ==> rank_order(xv, #[trigger] sorted[k]) < 0,
                decreases j,
            {
                assert(sorted[j - 1] == items@[j - 1]@);
                j -= 1;
            }
            proof {
                if j > 0 {
                    assert(sorted[j - 1] == items@[j - 1]@);
                }
                lemma_insert_at(sorted, xv, j as int);
            }
            let ghost mid = candidates_view(items@);
            items.insert(j, x);
            scores.insert(j, sx);
            proof {
                let now = candidates_view(items@);
                assert(now =~= mid.insert(j as int, xv));
                assert(now.take(i + 1) =~= sorted.take(j as int).push(xv) + sorted.skip(j as int));
                assert(now.skip(i + 1) =~= before.skip(i + 1));
                assert forall|k: int| 0 <= k < n - i - 1 implies #[trigger] before.skip(i + 1)[k] == src.skip(
                    i + 1,
                )[k] by {
                    assert(before.skip(i as int)[k + 1] == src.skip(i as int)[k + 1]);
                }
                assert(before.skip(i + 1) =~= src.skip(i + 1));
                assert forall|k: int| 0 <= k < n implies (#[trigger] scores@[k])@ == score_of(
                    items@[k]@.heartbeats,
                ) by {}
            }
            i += 1;
        }
        assert(candidates_view(items@).take(n as int) =~= candidates_view(items@));
        assert(src.take(n as int) =~= src);
        items
    }
}

// ---------------------------------------------------------------------------
// Host names and URLs
// ---------------------------------------------------------------------------

/// A mirror address reduced to its host: trimmed, one trailing slash removed,
/// and an `https://` or `http://` scheme removed.
pub open spec fn normalized_host(raw: Seq<char>) -> Seq<char> {
    let t = trim_ws(raw);
    let u = if t.len() > 0 && t.last() == '/' {
        t.drop_last()
    } else {
        t
    };
    if has_prefix(u, "https://"@) {
        u.skip("https://"@.len() as int)
    } else if has_prefix(u, "http://"@) {
        u.skip("http://"@.len() as int)
    } else {
        u
    }
}

/// The mirror used when no candidate can be reached.
pub open spec fn default_mirror() -> Seq<char> {
    "annas-archive.gl"@
}

/// The URL of the heartbeat list of a status page.
pub open spec fn heartbeat_url(status_url: Seq<char>, slug: Seq<char>) -> Seq<char> {
    strip_trailing(status_url, '/') + "/api/status-page/heartbeat/"@ + slug
}

/// The URL that a probe of a mirror fetches.
pub open spec fn probe_url(base: Seq<char>) -> Seq<char> {
    "https://"@ + normalized_host(base) + "/search?q=test&content=book_any"@
}

/// `s` without its first `n` characters, as a new string.
fn drop_chars(s: &str, n: usize) -> (r: String)
    requires
        n <= s@.len(),
    ensures
        r@ == s@.skip(n as int),
{
    let v = chars_of(s);
    let r = string_of(&v, n, v.len());
    assert(r@ =~= s@.skip(n as int));
    r
}

/// Makes an HTTP client with `reqwest::Client::builder`, the given timeout in
/// seconds and user agent; the default client when building fails. Nothing is
/// stated of the client: it is only carried to the code that sends requests.
#[verifier::external_body]
pub(crate) fn http_client(timeout_secs: u64, user_agent: &str) -> reqwest::Client {
    reqwest::Client::builder().timeout(std::time::Duration::from_secs(timeout_secs)).user_agent(user_agent).build().unwrap_or_default()
}

/// `reqwest::Client`, the HTTP client that requests are sent with. It is
/// opaque here: the library only keeps it for the code that sends requests.
#[verifier::external_type_specification]
#[verifier::external_body]
pub struct ExHttpClient(reqwest::Client);

/// The mirror resolver: finds a healthy mirror from the status page.
pub struct MirrorResolver {
    pub client: reqwest::Client,
    pub status_page_url: String,
}

impl MirrorResolver {
    /// A resolver with the given client (a client with a 10 s timeout by
    /// default) and status page (SLUM's by default).
    pub fn new(client: Option<reqwest::Client>, status_page_url: Option<String>) -> (r: Self)
        ensures
            status_page_url matches Some(u) ==> r.status_page_url@ == u@,
            status_page_url is None ==> r.status_page_url@ == DEFAULT_SLUM_STATUS_URL@,
    {
        let client = match client {
            Some(c) => c,
            None => http_client(10, DEFAULT_USER_AGENT),
        };
        let status_page_url = match status_page_url {
            Some(u) => u,
            None => String::from_str(DEFAULT_SLUM_STATUS_URL),
        };
        MirrorResolver { client, status_page_url }
    }

    /// Reduces a mirror address to its host name.
    pub fn normalize_base_url(raw: &str) -> (r: String)
        ensures
            r@ == normalized_host(raw@),
    {
        let t = trim(raw);
        let v = chars_of(t.as_str());
        let end = if v.len() > 0 && v[v.len() - 1] == '/' {
            v.len() - 1
        } else {
            v.len()
        };
        let u = string_of(&v, 0, end);
        assert(end < v@.len() ==> u@ =~= t@.drop_last());
        assert(end == v@.len() ==> u@ =~= t@);
        proof {
            reveal_strlit("https://");
            reveal_strlit("http://");
        }
        if str_starts_with(u.as_str(), "https://") {
            drop_chars(u.as_str(), 8)
        } else if str_starts_with(u.as_str(), "http://") {
            drop_chars(u.as_str(), 7)
        } else {
            u
        }
    }

    /// The URL of the heartbeat list of this resolver's status page.
    pub fn heartbeat_url(&self, slug: &str) -> (r: String)
        ensures
            r@ == heartbeat_url(self.status_page_url@, slug@),
    {
        let mut r = trim_end_char(self.status_page_url.as_str(), '/');
        append(&mut r, "/api/status-page/heartbeat/");
        append(&mut r, slug);
        r
    }

    /// The URL that a probe of `base_url` fetches.
    pub fn probe_url(base_url: &str) -> (r: String)
        ensures
            r@ == probe_url(base_url@),
    {
        let h = Self::normalize_base_url(base_url);
        let mut r = concat("https://", h.as_str());
        append(&mut r, "/search?q=test&content=book_any");
        r
    }

    /// The mirror to fall back to: the given one reduced to its host, else
    /// the default mirror.
    pub fn fallback_mirror(fallback: Option<&str>) -> (r: String)
        ensures
            match fallback {
                Some(f) => r@ == normalized_host(f@),
                None => r@ == default_mirror(),
            },
    {
        match fallback {
            Some(f) => Self::normalize_base_url(f),
            None => String::from_str(DEFAULT_FALLBACK_MIRROR),
        }
    }
}

// ---------------------------------------------------------------------------
// The status page
// ---------------------------------------------------------------------------

/// A monitor entry (`{... 'id': 12, ... 'url': '...' ...}`) of the monitor list.
pub const MONITOR_PATTERN: &'static str = r#"(?s)\{[^{}]*['"]id['"]\s*:\s*([0-9]+)[^{}]*['"]url['"]\s*:\s*['"]([^'"]+)['"][^{}]*\}"#;

/// An Anna's Archive address anywhere in a page.
pub const MIRROR_ADDRESS_PATTERN: &'static str = r"https://annas-archive\.[a-z0-9-]+/?";

/// The slug of a status page.
pub const SLUG_PATTERN: &'static str = r#"['"]slug['"]\s*:\s*['"]([^'"]+)['"]"#;

/// The position of the `]` that closes the bracket opened at or after
/// position `k`, scanning with bracket depth `depth` so far.
pub open spec fn closing_bracket_from(s: Seq<char>, k: int, depth: int) -> Option<int>
    decreases s.len() - k,
{
    if k < 0 || k >= s.len() {
        None
    } else {
        let d = if s[k] == '[' {
            depth + 1
        } else if s[k] == ']' {
            depth - 1
        } else {
            depth
        };
        if s[k] == ']' && d == 0 {
            Some(k)
        } else {
            closing_bracket_from(s, k + 1, d)
        }
    }
}

/// The first `]` at or after `start` at which the brackets counted from
/// `start` balance.
pub open spec fn matching_bracket(s: Seq<char>, start: int) -> Option<int> {
    closing_bracket_from(s, start, 0)
}

/// A candidate with no checks.
pub open spec fn new_candidate(id: i32, base: Seq<char>, source: Seq<char>) -> CandidateView {
    CandidateView { monitor_id: id, base_url: base, source_url: source, heartbeats: seq![] }
}

/// `base` is the host of one of `cs`.
pub open spec fn has_base(cs: Seq<CandidateView>, base: Seq<char>) -> bool {
    exists|j: int| 0 <= j < cs.len() && (#[trigger] cs[j]).base_url == base
}

/// The candidates named by the first `k` monitor entries of a monitor list:
/// entries whose host is an Anna's Archive host, the first entry of each host.
pub open spec fn monitor_candidates(m: Seq<Seq<Option<Seq<char>>>>, k: int) -> Seq<CandidateView>
    decreases k,
{
    if k <= 0 || k > m.len() {
        seq![]
    } else {
        let prev = monitor_candidates(m, k - 1);
        let g = Some(m[k - 1]);
        match (group(g, 1), group(g, 2)) {
            (Some(id), Some(url)) => {
                let base = normalized_host(url);
                if has_prefix(base, "annas-archive."@) && !has_base(prev, base) {
                    let id_value = match parse_i32(id) {
                        Some(v) => v,
                        None => 0,
                    };
                    prev.push(new_candidate(id_value, base, url))
                } else {
                    prev
                }
            },
            _ => prev,
        }
    }
}

/// The Anna's Archive host that monitor entry `e` points at: its url's host,
/// when the entry has an id and a url and the host is an Anna's Archive one.
pub open spec fn archive_host(e: Seq<Option<Seq<char>>>) -> Option<Seq<char>> {
    match (group(Some(e), 1), group(Some(e), 2)) {
        (Some(_), Some(url)) => if has_prefix(normalized_host(url), "annas-archive."@) {
            Some(normalized_host(url))
        } else {
            None
        },
        _ => None,
    }
}

/// Entry `j` of `m` is the first that points at its Anna's Archive host.
pub open spec fn first_of_host(m: Seq<Seq<Option<Seq<char>>>>, j: int) -> bool {
    &&& archive_host(m[j]) is Some
    &&& forall|i: int| 0 <= i < j ==> #[trigger] archive_host(m[i]) != archive_host(m[j])
}

/// Candidate `c` stands for monitor entry `e`: the entry's host and url, no
/// checks yet, and the entry's id read as a decimal `i32` (0 when it does not
/// fit).
pub open spec fn made_from(c: CandidateView, e: Seq<Option<Seq<char>>>) -> bool {
    &&& archive_host(e) == Some(c.base_url)
    &&& group(Some(e), 2) == Some(c.source_url)
    &&& c.heartbeats == Seq::<HeartbeatView>::empty()
    &&& match parse_i32(group(Some(e), 1).unwrap()) {
        Some(v) => c.monitor_id == v,
        None => c.monitor_id == 0,
    }
}

proof fn lemma_first_occurrence(m: Seq<Seq<Option<Seq<char>>>>, i: int)
    requires
        0 <= i < m.len(),
        archive_host(m[i]) is Some,
    ensures
        exists|i0: int|
            0 <= i0 <= i && #[trigger] first_of_host(m, i0) && archive_host(m[i0]) == archive_host(
                m[i],
            ),
    decreases i,
{
    if !first_of_host(m, i) {
        let i1 = choose|i1: int| 0 <= i1 < i && #[trigger] archive_host(m[i1]) == archive_host(m[i]);
        lemma_first_occurrence(m, i1);
    } else {
        assert(first_of_host(m, i));
    }
}

/// Each of `cs` stands for the first entry among `m[..k]` of its host.
pub open spec fn all_made_from(m: Seq<Seq<Option<Seq<char>>>>, cs: Seq<CandidateView>, k: int) -> bool {
    forall|i: int|
        0 <= i < cs.len() ==> exists|j: int|
            0 <= j < k && first_of_host(m, j) && made_from(#[trigger] cs[i], m[j])
}

/// Every first entry of an Anna's Archive host has its candidate in `cs`.
pub open spec fn all_entries_made(m: Seq<Seq<Option<Seq<char>>>>, cs: Seq<CandidateView>, k: int) -> bool {
    forall|j: int|
        0 <= j < k && #[trigger] first_of_host(m, j) ==> exists|i: int|
            0 <= i < cs.len() && made_from(cs[i], m[j])
}

proof fn lemma_known_host(m: Seq<Seq<Option<Seq<char>>>>, prev: Seq<CandidateView>, k: int, h: Seq<char>)
    requires
        0 <= k <= m.len(),
        all_made_from(m, prev, k),
        has_base(prev, h),
    ensures
        exists|j: int| 0 <= j < k && first_of_host(m, j) && #[trigger] archive_host(m[j]) == Some(h),
{
    let i = choose|i: int| 0 <= i < prev.len() && (#[trigger] prev[i]).base_url == h;
    let j = choose|j: int| 0 <= j < k && first_of_host(m, j) && made_from(#[trigger] prev[i], m[j]);
    assert(archive_host(m[j]) == Some(h));
}

proof fn lemma_new_host_is_first(m: Seq<Seq<Option<Seq<char>>>>, prev: Seq<CandidateView>, k: int)
    requires
        0 <= k < m.len(),
        all_entries_made(m, prev, k),
        archive_host(m[k]) is Some,
        !has_base(prev, archive_host(m[k]).unwrap()),
    ensures
        first_of_host(m, k),
{
    assert forall|i: int| 0 <= i < k implies #[trigger] archive_host(m[i]) != archive_host(m[k]) by {
        if archive_host(m[i]) == archive_host(m[k]) {
            lemma_first_occurrence(m, i);
            let i0 = choose|i0: int|
                0 <= i0 <= i && #[trigger] first_of_host(m, i0) && archive_host(m[i0])
                    == archive_host(m[i]);
            let ic = choose|ic: int| 0 <= ic < prev.len() && made_from(prev[ic], m[i0]);
            assert(prev[ic].base_url == archive_host(m[k]).unwrap());
        }
    }
}

proof fn lemma_monitor_candidates(m: Seq<Seq<Option<Seq<char>>>>, k: int)
    requires
        0 <= k <= m.len(),
    ensures
        all_made_from(m, monitor_candidates(m, k), k),
        all_entries_made(m, monitor_candidates(m, k), k),
    decreases k,
{
    if k > 0 {
        lemma_monitor_candidates(m, k - 1);
        let prev = monitor_candidates(m, k - 1);
        let cur = monitor_candidates(m, k);
        let e = m[k - 1];
        let pushed = archive_host(e) is Some && !has_base(prev, archive_host(e).unwrap());
        if pushed {
            lemma_new_host_is_first(m, prev, k - 1);
            assert(cur == prev.push(cur[prev.len() as int]));
            assert(made_from(cur[prev.len() as int], e));
        } else {
            assert(cur == prev);
            if archive_host(e) is Some {
                lemma_known_host(m, prev, k - 1, archive_host(e).unwrap());
            }
        }
        assert forall|i: int| 0 <= i < cur.len() implies exists|j: int|
            0 <= j < k && first_of_host(m, j) && made_from(#[trigger] cur[i], m[j]) by {
            if i < prev.len() {
                assert(cur[i] == prev[i]);
                let j = choose|j: int|
                    0 <= j < k - 1 && first_of_host(m, j) && made_from(#[trigger] prev[i], m[j]);
            }
        }
        assert forall|j: int| 0 <= j < k && #[trigger] first_of_host(m, j) implies exists|i: int|
            0 <= i < cur.len() && made_from(cur[i], m[j]) by {
            if j < k - 1 {
                let i = choose|i: int| 0 <= i < prev.len() && made_from(prev[i], m[j]);
                assert(cur[i] == prev[i]);
            } else if !pushed {
                let j2 = choose|j2: int|
                    0 <= j2 < k - 1 && first_of_host(m, j2) && #[trigger] archive_host(m[j2]) == Some(
                        archive_host(e).unwrap(),
                    );
                assert(archive_host(m[j2]) != archive_host(m[j]));
            }
        }
    }
}

/// The candidates of a monitor list section are exactly one per Anna's
/// Archive host that its entries point at, each made from the first entry
/// that points at that host: that entry's host and url, and its id read as
/// a decimal `i32` (0 when it does not fit), so that its checks can be found
/// under that id.
pub proof fn lemma_section_candidates(section: Seq<char>)
    ensures
        all_made_from(
            regex_all(MONITOR_PATTERN@, section),
            section_candidates(section),
            regex_all(MONITOR_PATTERN@, section).len() as int,
        ),
        all_entries_made(
            regex_all(MONITOR_PATTERN@, section),
            section_candidates(section),
            regex_all(MONITOR_PATTERN@, section).len() as int,
        ),
{
    let m = regex_all(MONITOR_PATTERN@, section);
    lemma_monitor_candidates(m, m.len() as int);
}

/// The candidates named by the first `k` Anna's Archive addresses found
/// anywhere in a page, the first address of each host.
pub open spec fn address_candidates(m: Seq<Seq<Option<Seq<char>>>>, k: int) -> Seq<CandidateView>
    decreases k,
{
    if k <= 0 || k > m.len() {
        seq![]
    } else {
        let prev = address_candidates(m, k - 1);
        match group(Some(m[k - 1]), 0) {
            Some(a) => {
                let base = normalized_host(a);
                if !has_base(prev, base) {
                    prev.push(new_candidate(0, base, "https://"@ + base + "/"@))
                } else {
                    prev
                }
            },
            None => prev,
        }
    }
}

/// The candidates of a monitor list section.
pub open spec fn section_candidates(section: Seq<char>) -> Seq<CandidateView> {
    let m = regex_all(MONITOR_PATTERN@, section);
    monitor_candidates(m, m.len() as int)
}

/// The candidates of the Anna's Archive addresses anywhere in a page.
pub open spec fn fallback_candidates(page: Seq<char>) -> Seq<CandidateView> {
    let m = regex_all(MIRROR_ADDRESS_PATTERN@, page);
    address_candidates(m, m.len() as int)
}

/// The position of the monitor list after the Anna's Archive group of a page.
pub open spec fn monitor_list_start(page: Seq<char>) -> Option<int> {
    match find(page, "Anna's Archive"@) {
        None => None,
        Some(a) => {
            let sub = page.skip(a);
            let found = match find(sub, "'monitorList':["@) {
                Some(x) => Some(x),
                None => find(sub, "\"monitorList\":["@),
            };
            match found {
                Some(x) => Some(a + x + 14),
                None => None,
            }
        },
    }
}

/// The candidates that a status page names: those of the monitor list of its
/// Anna's Archive group when there are any, otherwise every Anna's Archive
/// address of the page. Escaped quotes (`\'`) are read as quotes.
pub open spec fn status_page_candidates(html: Seq<char>) -> Seq<CandidateView> {
    let page = replace_all(html, "\\'"@, "'"@);
    let primary = match monitor_list_start(page) {
        None => seq![],
        Some(ls) => match matching_bracket(page, ls) {
            None => seq![],
            Some(e) => section_candidates(page.subrange(ls, e + 1)),
        },
    };
    if primary.len() > 0 {
        primary
    } else {
        fallback_candidates(page)
    }
}

/// The slug of a status page, `slum` when none is named.
pub open spec fn status_page_slug(html: Seq<char>) -> Seq<char> {
    match group(regex_first(SLUG_PATTERN@, html), 1) {
        Some(s) => s,
        None => "slum"@,
    }
}

/// The heartbeats listed under key `key`: the first entry with that key.
pub open spec fn heartbeats_for(lists: Seq<(Seq<char>, Seq<HeartbeatView>)>, key: Seq<char>) -> Option<
    Seq<HeartbeatView>,
>
    decreases lists.len(),
{
    if lists.len() == 0 {
        None
    } else if lists[0].0 == key {
        Some(lists[0].1)
    } else {
        heartbeats_for(lists.drop_first(), key)
    }
}

/// A candidate with the heartbeats listed for its monitor, when it has one.
pub open spec fn with_heartbeats(c: CandidateView, lists: Seq<(Seq<char>, Seq<HeartbeatView>)>) -> CandidateView {
    if c.monitor_id > 0 {
        match heartbeats_for(lists, signed_decimal_i32(c.monitor_id)) {
            Some(h) => CandidateView { heartbeats: h, ..c },
            None => c,
        }
    } else {
        c
    }
}

pub open spec fn signed_decimal_i32(v: i32) -> Seq<char> {
    crate::text::signed_decimal(v as int)
}

pub open spec fn lists_view(v: Seq<(String, Vec<Heartbeat>)>) -> Seq<(Seq<char>, Seq<HeartbeatView>)> {
    v.map_values(|e: (String, Vec<Heartbeat>)| (e.0@, heartbeats_view(e.1@)))
}

/// The position of the `]` that balances the brackets counted from `start`.
fn matching_bracket_exec(s: &Vec<char>, start: usize) -> (r: Option<usize>)
    ensures
        match r {
            Some(e) => matching_bracket(s@, start as int) == Some(e as int) && start <= e < s@.len(),
            None => matching_bracket(s@, start as int) is None,
        },
{
    let mut depth: i128 = 0;
    let mut k = start;
    while k < s.len()
        invariant
            start <= k,
            s@.len() == s.len(),
            -(k as int) <= depth <= k as int,
            matching_bracket(s@, start as int) == closing_bracket_from(s@, k as int, depth as int),
        decreases s@.len() - k,
    {
        let c = s[k];
        if c == '[' {
            depth = depth + 1;
        } else if c == ']' {
            depth = depth - 1;
            if depth == 0 {
                return Some(k);
            }
        }
        k += 1;
    }
    None
}

/// Copies of a list of heartbeats.
fn copy_heartbeats(h: &Vec<Heartbeat>) -> (r: Vec<Heartbeat>)
    ensures
        heartbeats_view(r@) == heartbeats_view(h@),
{
    let mut r: Vec<Heartbeat> = Vec::new();
    let mut i: usize = 0;
    while i < h.len()
        invariant
            0 <= i <= h@.len(),
            heartbeats_view(r@) == heartbeats_view(h@).take(i as int),
        decreases h@.len() - i,
    {
        let b = &h[i];
        let time = match &b.time {
            Some(t) => Some(copy_str(t.as_str())),
            None => None,
        };
        let nb = Heartbeat { status: b.status, ping: b.ping, time };
        assert(nb@ == h@[i as int]@);
        let ghost before = r@;
        r.push(nb);
        assert(r@ == before.push(nb));
        assert(heartbeats_view(r@) =~= heartbeats_view(before).push(nb@));
        i += 1;
        assert(heartbeats_view(r@) =~= heartbeats_view(h@).take(i as int));
    }
    assert(heartbeats_view(h@).take(h@.len() as int) =~= heartbeats_view(h@));
    r
}

/// Whether one of `cs` has the host `base`.
fn has_base_exec(cs: &Vec<Candidate>, base: &str) -> (b: bool)
    ensures
        b == has_base(candidates_view(cs@), base@),
{
    let mut k: usize = 0;
    while k < cs.len()
        invariant
            0 <= k <= cs@.len(),
            forall|j: int| 0 <= j < k ==> (#[trigger] cs@[j])@.base_url != base@,
        decreases cs@.len() - k,
    {
        if str_eq(cs[k].base_url.as_str(), base) {
            assert(candidates_view(cs@)[k as int] == cs@[k as int]@);
            return true;
        }
        k += 1;
    }
    proof {
        assert forall|j: int| 0 <= j < cs@.len() implies (#[trigger] candidates_view(cs@)[j]).base_url
            != base@ by {
            assert(candidates_view(cs@)[j] == cs@[j]@);
        }
    }
    false
}

/// The candidates of a monitor list section.
fn section_candidates_exec(section: &str) -> (r: Vec<Candidate>)
    ensures
        candidates_view(r@) == section_candidates(section@),
{
    let all = regex_captures_all(MONITOR_PATTERN, section);
    let ghost m = all@.map_values(|g: Vec<Option<String>>| groups_view(g@));
    let mut out: Vec<Candidate> = Vec::new();
    let mut k: usize = 0;
    proof {
        reveal_strlit("annas-archive.");
    }
    while k < all.len()
        invariant
            m == all@.map_values(|g: Vec<Option<String>>| groups_view(g@)),
            m == regex_all(MONITOR_PATTERN@, section@),
            0 <= k <= all@.len(),
            candidates_view(out@) == monitor_candidates(m, k as int),
        decreases all@.len() - k,
    {
        assert(m[k as int] == groups_view(all@[k as int]@));
        let ghost prev = candidates_view(out@);
        let id = group_exec(&all[k], 1);
        let url = group_exec(&all[k], 2);
        match (id, url) {
            (Some(id), Some(url)) => {
                let base = MirrorResolver::normalize_base_url(url.as_str());
                if str_starts_with(base.as_str(), "annas-archive.") && !has_base_exec(
                    &out,
                    base.as_str(),
                ) {
                    let id_value = match parse_i32_exec(id.as_str()) {
                        Some(v) => v,
                        None => 0,
                    };
                    let nc = Candidate {
                        monitor_id: id_value,
                        base_url: base,
                        source_url: url,
                        heartbeats: Vec::new(),
                    };
                    assert(nc@.heartbeats =~= Seq::<HeartbeatView>::empty());
                    assert(nc@ == new_candidate(id_value, base@, url@));
                    let ghost ob = out@;
                    out.push(nc);
                    assert(candidates_view(out@) =~= candidates_view(ob).push(nc@));
                }
            },
            _ => {},
        }
        k += 1;
    }
    out
}

/// The candidates of the Anna's Archive addresses anywhere in a page.
fn fallback_candidates_exec(page: &str) -> (r: Vec<Candidate>)
    ensures
        candidates_view(r@) == fallback_candidates(page@),
{
    let all = regex_captures_all(MIRROR_ADDRESS_PATTERN, page);
    let ghost m = all@.map_values(|g: Vec<Option<String>>| groups_view(g@));
    let mut out: Vec<Candidate> = Vec::new();
    let mut k: usize = 0;
    while k < all.len()
        invariant
            m == all@.map_values(|g: Vec<Option<String>>| groups_view(g@)),
            m == regex_all(MIRROR_ADDRESS_PATTERN@, page@),
            0 <= k <= all@.len(),
            candidates_view(out@) == address_candidates(m, k as int),
        decreases all@.len() - k,
    {
        assert(m[k as int] == groups_view(all@[k as int]@));
        let ghost prev = candidates_view(out@);
        match group_exec(&all[k], 0) {
            Some(a) => {
                let base = MirrorResolver::normalize_base_url(a.as_str());
                if !has_base_exec(&out, base.as_str()) {
                    let mut source = concat("https://", base.as_str());
                    append(&mut source, "/");
                    let nc = Candidate {
                        monitor_id: 0,
                        base_url: base,
                        source_url: source,
                        heartbeats: Vec::new(),
                    };
                    assert(nc@.heartbeats =~= Seq::<HeartbeatView>::empty());
                    assert(nc@ == new_candidate(0, base@, "https://"@ + base@ + "/"@));
                    let ghost ob = out@;
                    out.push(nc);
                    assert(candidates_view(out@) =~= candidates_view(ob).push(nc@));
                }
            },
            None => {},
        }
        k += 1;
    }
    out
}

/// The position of the monitor list after the Anna's Archive group.
fn monitor_list_start_exec(page: &Vec<char>) -> (r: Option<usize>)
    ensures
        match r {
            Some(x) => monitor_list_start(page@) == Some(x as int),
            None => monitor_list_start(page@) is None,
        },
{
    let group_name = chars_of("Anna's Archive");
    let single = chars_of("'monitorList':[");
    let double = chars_of("\"monitorList\":[");
    match find_exec(page, &group_name) {
        None => None,
        Some(a) => {
            proof {
                lemma_find_from_bounds(page@, group_name@, 0);
            }
            let sub = page.split_at(a).1;
            assert(sub@ =~= page@.skip(a as int));
            let found = match find_exec(sub, &single) {
                Some(x) => Some(x),
                None => find_exec(sub, &double),
            };
            match found {
                Some(x) => {
                    proof {
                        reveal_strlit("'monitorList':[");
                        reveal_strlit("\"monitorList\":[");
                        if find(sub@, single@) is Some {
                            lemma_find_from_bounds(sub@, single@, 0);
                        } else {
                            lemma_find_from_bounds(sub@, double@, 0);
                        }
                        assert(single@.len() == 15);
                        assert(double@.len() == 15);
                        assert(sub@.len() == page@.len() - a);
                        assert(page@.len() == page.len());
                    }
                    Some(a + x + 14)
                },
                None => None,
            }
        },
    }
}

impl MirrorResolver {
    /// The mirror candidates named by a status page: those of the monitor
    /// list of its Anna's Archive group when it names any, otherwise every
    /// Anna's Archive address of the page; each host once, in page order.
    pub fn parse_status_page_html(html: &str) -> (r: Result<Vec<Candidate>, crate::errors::AppError>)
        ensures
            r matches Ok(cs) && candidates_view(cs@) == status_page_candidates(html@),
    {
        proof {
            reveal_strlit("\\'");
        }
        let page = replace(html, "\\'", "'");
        let pv = chars_of(page.as_str());
        let primary = match monitor_list_start_exec(&pv) {
            None => Vec::new(),
            Some(ls) => match matching_bracket_exec(&pv, ls) {
                None => Vec::new(),
                Some(e) => {
                    assert(pv@.len() == pv.len());
                    let section = string_of(&pv, ls, e + 1);
                    section_candidates_exec(section.as_str())
                },
            },
        };
        if primary.len() > 0 {
            Ok(primary)
        } else {
            Ok(fallback_candidates_exec(page.as_str()))
        }
    }

    /// The slug of a status page, `slum` when none is named.
    pub fn extract_slug(html: &str) -> (r: String)
        ensures
            r@ == status_page_slug(html@),
    {
        match crate::pattern::first_group(SLUG_PATTERN, html, 1) {
            Some(s) => s,
            None => String::from_str("slum"),
        }
    }

    /// Gives each candidate with a monitor the heartbeats listed under its
    /// monitor number.
    pub fn attach_heartbeats(candidates: Vec<Candidate>, lists: &Vec<(String, Vec<Heartbeat>)>) -> (r: Vec<Candidate>)
        ensures
            candidates_view(r@) == candidates_view(candidates@).map_values(
                |c: CandidateView| with_heartbeats(c, lists_view(lists@)),
            ),
    {
        let ghost src = candidates_view(candidates@);
        let ghost lv = lists_view(lists@);
        let mut rest = candidates;
        let mut out: Vec<Candidate> = Vec::new();
        let ghost mut done: int = 0;
        while rest.len() > 0
            invariant
                0 <= done <= src.len(),
                candidates_view(rest@) == src.skip(done),
                lv == lists_view(lists@),
                candidates_view(out@) == src.take(done).map_values(
                    |c: CandidateView| with_heartbeats(c, lv),
                ),
            decreases rest@.len(),
        {
            let ghost before = rest@;
            let mut c = rest.remove(0);
            proof {
                assert(candidates_view(before).len() == before.len());
                assert(src.skip(done)[0] == src[done]);
                assert(candidates_view(before)[0] == c@);
                assert forall|k: int| 0 <= k < rest@.len() implies candidates_view(rest@)[k]
                    == src.skip(done + 1)[k] by {
                    assert(rest@[k] == before[k + 1]);
                    assert(candidates_view(before)[k + 1] == src.skip(done)[k + 1]);
                }
                assert(candidates_view(rest@) =~= src.skip(done + 1));
            }
            let ghost cv = c@;
            if c.monitor_id > 0 {
                let key = crate::text::i64_to_decimal(c.monitor_id as i64);
                let mut j: usize = 0;
                let mut found: Option<usize> = None;
                assert(lv.skip(0) =~= lv);
                while j < lists.len()
                    invariant_except_break
                        found is None,
                        heartbeats_for(lv, key@) == heartbeats_for(lv.skip(j as int), key@),
                    invariant
                        lv == lists_view(lists@),
                        0 <= j <= lists@.len(),
                        key@ == signed_decimal_i32(cv.monitor_id),
                    ensures
                        match found {
                            Some(f) => f < lists@.len() && heartbeats_for(lv, key@) == Some(
                                heartbeats_view(lists@[f as int].1@),
                            ),
                            None => heartbeats_for(lv, key@) is None,
                        },
                    decreases lists@.len() - j,
                {
                    assert(lv.skip(j as int)[0] == (lists@[j as int].0@, heartbeats_view(
                        lists@[j as int].1@,
                    )));
                    assert(lv.skip(j as int).drop_first() =~= lv.skip(j + 1));
                    if str_eq(lists[j].0.as_str(), key.as_str()) {
                        found = Some(j);
                        break;
                    }
                    j += 1;
                }
                match found {
                    Some(f) => {
                        c.heartbeats = copy_heartbeats(&lists[f].1);
                    },
                    None => {},
                }
            }
            assert(c@ == with_heartbeats(cv, lv));
            let ghost ov = candidates_view(out@);
            out.push(c);
            proof {
                assert(src.take(done + 1).map_values(|c: CandidateView| with_heartbeats(c, lv))
                    =~= ov.push(with_heartbeats(cv, lv)));
                done = done + 1;
            }
        }
        proof {
            assert(src.take(done) =~= src);
        }
        out
    }
}


// ---------------------------------------------------------------------------
// Choosing a mirror
// ---------------------------------------------------------------------------

/// Where the choice of a mirror stands: the ranked candidates, how many of
/// them have been probed without answer, and the mirror to fall back to.
pub struct MirrorSelection {
    fallback: String,
    candidates: Vec<String>,
    next: usize,
}

pub struct MirrorSelectionView {
    pub fallback: Seq<char>,
    pub candidates: Seq<Seq<char>>,
    pub next: nat,
}

impl View for MirrorSelection {
    type V = MirrorSelectionView;

    closed spec fn view(&self) -> MirrorSelectionView {
        MirrorSelectionView {
            fallback: self.fallback@,
            candidates: self.candidates@.map_values(|c: String| c@),
            next: self.next as nat,
        }
    }
}

/// What to do next to choose a mirror.
#[derive(Clone, Debug)]
pub enum SelectionStep {
    /// Probe this mirror; take it if it answers.
    Probe(String),
    /// Use this mirror.
    Chosen(String),
}

pub enum SelectionStepView {
    Probe(Seq<char>),
    Chosen(Seq<char>),
}

impl View for SelectionStep {
    type V = SelectionStepView;

    open spec fn view(&self) -> SelectionStepView {
        match self {
            SelectionStep::Probe(m) => SelectionStepView::Probe(m@),
            SelectionStep::Chosen(m) => SelectionStepView::Chosen(m@),
        }
    }
}

/// The step of a selection: probe the next candidate, or fall back once all
/// of them failed.
pub open spec fn selection_step(s: MirrorSelectionView) -> SelectionStepView {
    if s.next < s.candidates.len() {
        SelectionStepView::Probe(s.candidates[s.next as int])
    } else {
        SelectionStepView::Chosen(s.fallback)
    }
}

/// The mirror that a selection ends with when `answers` tells which mirrors
/// answer their probe: the first candidate from `k` on that answers, else
/// the fallback.
pub open spec fn selection_outcome(
    s: MirrorSelectionView,
    answers: spec_fn(Seq<char>) -> bool,
    k: int,
) -> Seq<char>
    decreases s.candidates.len() - k,
{
    if k < 0 || k >= s.candidates.len() {
        s.fallback
    } else if answers(s.candidates[k]) {
        s.candidates[k]
    } else {
        selection_outcome(s, answers, k + 1)
    }
}

impl MirrorSelection {
    /// A selection over the ranked candidates (`None` when they could not be
    /// fetched), falling back to the given mirror or the default one.
    pub fn start(fallback: Option<&str>, candidates: Option<Vec<Candidate>>) -> (r: Self)
        ensures
            r@.next == 0,
            r@.fallback == match fallback {
                Some(f) => normalized_host(f@),
                None => default_mirror(),
            },
            r@.candidates == match candidates {
                Some(c) => candidates_view(c@).map_values(|c: CandidateView| c.base_url),
                None => Seq::<Seq<char>>::empty(),
            },
    {
        let fb = MirrorResolver::fallback_mirror(fallback);
        let mut urls: Vec<String> = Vec::new();
        match candidates {
            Some(c) => {
                let ghost cv = candidates_view(c@).map_values(|c: CandidateView| c.base_url);
                let mut i: usize = 0;
                while i < c.len()
                    invariant
                        0 <= i <= c.len(),
                        cv == candidates_view(c@).map_values(|c: CandidateView| c.base_url),
                        urls@.map_values(|u: String| u@) == cv.take(i as int),
                    decreases c.len() - i,
                {
                    let ghost before = urls@;
                    urls.push(copy_str(c[i].base_url.as_str()));
                    assert(urls@.map_values(|u: String| u@) =~= before.map_values(|u: String| u@).push(
                        c@[i as int].base_url@,
                    ));
                    assert(cv.take(i + 1) =~= cv.take(i as int).push(cv[i as int]));
                    i += 1;
                }
                assert(cv.take(c.len() as int) =~= cv);
            },
            None => {
                assert(urls@.map_values(|u: String| u@) =~= Seq::<Seq<char>>::empty());
            },
        }
        MirrorSelection { fallback: fb, candidates: urls, next: 0 }
    }

    /// What to do next.
    pub fn step(&self) -> (r: SelectionStep)
        ensures
            r@ == selection_step(self@),
    {
        if self.next < self.candidates.len() {
            SelectionStep::Probe(copy_str(self.candidates[self.next].as_str()))
        } else {
            SelectionStep::Chosen(copy_str(self.fallback.as_str()))
        }
    }

    /// Records that the probed candidate did not answer.
    pub fn probe_failed(&mut self)
        ensures
            final(self)@.fallback == old(self)@.fallback,
            final(self)@.candidates == old(self)@.candidates,
            final(self)@.next == if old(self)@.next < old(self)@.candidates.len() {
                old(self)@.next + 1
            } else {
                old(self)@.next
            },
    {
        if self.next < self.candidates.len() {
            self.next = self.next + 1;
        }
    }
}

/// Running a selection, probing each mirror it asks for and reporting each
/// failure, ends with the first candidate that answers, or the fallback when
/// none does; candidates after it are never probed.
pub proof fn lemma_selection_picks_first_answering(
    s: MirrorSelectionView,
    answers: spec_fn(Seq<char>) -> bool,
)
    requires
        s.next <= s.candidates.len(),
    ensures
        match selection_step(s) {
            SelectionStepView::Probe(m) => if answers(m) {
                selection_outcome(s, answers, s.next as int) == m
            } else {
                selection_outcome(s, answers, s.next as int) == selection_outcome(
                    s,
                    answers,
                    s.next as int + 1,
                )
            },
            SelectionStepView::Chosen(m) => m == s.fallback && selection_outcome(
                s,
                answers,
                s.next as int,
            ) == s.fallback,
        },
{
}

} // verus!
