//! Download links from partner mirrors: public IPFS gateways, Library.lol,
//! Libgen.li, and the slow download queue of Anna's Archive.
use vstd::prelude::*;

use crate::domain::metadata::svec;
use crate::html::{
    DomNodeView, attr, attr_exec, dom_view, html_model, scan_html, select_all,
    select_all_exec, strings_view,
};
use crate::pattern::{
    group, group_exec, groups_view, regex_all, regex_captures_all, regex_first, first_group,
};
use crate::text::{
    append, concat, copy_str, has_prefix, parse_u64, parse_u64_exec, str_starts_with,
    strip_trailing, to_lowercase, trim, trim_end_char, trim_ws, unicode_lowercase, vec_contains,
};

verus! {

// ---------------------------------------------------------------------------
// Percent-encoding
// ---------------------------------------------------------------------------

/// Characters that percent-encoding leaves as they are: ASCII letters and
/// digits, `-`, `.`, `_` and `~`.
pub open spec fn unreserved(c: char) -> bool {
    ('0' <= c && c <= '9') || ('A' <= c && c <= 'Z') || ('a' <= c && c <= 'z') || c == '-' || c
        == '.' || c == '_' || c == '~'
}

/// The upper-case hexadecimal digit of `d < 16`.
pub open spec fn hex_upper(d: int) -> char {
    if d < 10 {
        (48 + d) as char
    } else {
        (55 + d) as char
    }
}

/// Each byte as `%` and two upper-case hexadecimal digits.
pub open spec fn escape_bytes(b: Seq<u8>) -> Seq<char>
    decreases b.len(),
{
    if b.len() == 0 {
        seq![]
    } else {
        seq!['%', hex_upper(b[0] as int / 16), hex_upper(b[0] as int % 16)] + escape_bytes(b.drop_first())
    }
}

/// `s` percent-encoded: every byte of its UTF-8 encoding escaped, but for
/// unreserved characters.
pub open spec fn url_encoded(s: Seq<char>) -> Seq<char>
    decreases s.len(),
{
    if s.len() == 0 {
        seq![]
    } else {
        let c = s[0];
        (if unreserved(c) {
            seq![c]
        } else {
            escape_bytes(vstd::utf8::encode_scalar(c as u32))
        }) + url_encoded(s.drop_first())
    }
}

/// `urlencoding::encode`, which percent-encodes every byte of the UTF-8
/// encoding of `s` except ASCII letters, digits, `-`, `.`, `_` and `~`, with
/// upper-case hexadecimal digits (as its documentation and source show).
#[verifier::external_body]
pub(crate) fn url_encode(s: &str) -> (r: String)
    ensures
        r@ == url_encoded(s@),
{
    urlencoding::encode(s).into_owned()
}

// ---------------------------------------------------------------------------
// Shared helpers
// ---------------------------------------------------------------------------

/// `x` appended to `acc` unless it is already there.
pub open spec fn add_distinct(acc: Seq<Seq<char>>, x: Seq<char>) -> Seq<Seq<char>> {
    if acc.contains(x) {
        acc
    } else {
        acc.push(x)
    }
}

/// Each of `xs` in turn added to `acc` unless already there.
pub open spec fn add_all_distinct(acc: Seq<Seq<char>>, xs: Seq<Seq<char>>) -> Seq<Seq<char>>
    decreases xs.len(),
{
    if xs.len() == 0 {
        acc
    } else {
        add_distinct(add_all_distinct(acc, xs.drop_last()), xs.last())
    }
}

/// Group `g` of each match that has it, in order.
pub open spec fn captured(ms: Seq<Seq<Option<Seq<char>>>>, g: int) -> Seq<Seq<char>>
    decreases ms.len(),
{
    if ms.len() == 0 {
        seq![]
    } else {
        let prev = captured(ms.drop_last(), g);
        match group(Some(ms.last()), g) {
            Some(s) => prev.push(s),
            None => prev,
        }
    }
}

/// An absolute web address.
pub open spec fn is_http(s: Seq<char>) -> bool {
    has_prefix(s, "http://"@) || has_prefix(s, "https://"@)
}

/// A hash as the partner sites expect it: trimmed and lower-cased.
pub open spec fn clean_md5(md5: Seq<char>) -> Seq<char> {
    unicode_lowercase(trim_ws(md5))
}

fn add_distinct_exec(out: &mut Vec<String>, x: String)
    ensures
        svec(final(out)@) == add_distinct(svec(old(out)@), x@),
{
    if !vec_contains(out, x.as_str()) {
        let ghost before = out@;
        out.push(x);
        assert(svec(out@) =~= svec(before).push(x@));
    }
}

fn clean_md5_exec(md5: &str) -> (r: String)
    ensures
        r@ == clean_md5(md5@),
{
    let t = trim(md5);
    to_lowercase(t.as_str())
}

fn is_http_exec(s: &str) -> (b: bool)
    ensures
        b == is_http(s@),
{
    str_starts_with(s, "http://") || str_starts_with(s, "https://")
}

/// Adds group `g` of each match to `out`, in order, unless already there.
fn add_captured(out: &mut Vec<String>, ms: &Vec<Vec<Option<String>>>, g: usize, prefix: &str)
    ensures
        svec(final(out)@) == add_all_distinct(
            svec(old(out)@),
            captured(ms@.map_values(|m: Vec<Option<String>>| groups_view(m@)), g as int).map_values(
                |s: Seq<char>| prefix@ + s,
            ),
        ),
{
    let ghost all = ms@.map_values(|m: Vec<Option<String>>| groups_view(m@));
    let ghost start = svec(out@);
    let mut i: usize = 0;
    while i < ms.len()
        invariant
            0 <= i <= ms.len(),
            all == ms@.map_values(|m: Vec<Option<String>>| groups_view(m@)),
            svec(out@) == add_all_distinct(
                start,
                captured(all.take(i as int), g as int).map_values(|s: Seq<char>| prefix@ + s),
            ),
        decreases ms.len() - i,
    {
        let ghost cur = captured(all.take(i as int), g as int);
        proof {
            assert(all.take(i + 1).drop_last() =~= all.take(i as int));
            assert(all.take(i + 1).last() == groups_view(ms@[i as int]@));
        }
        match group_exec(&ms[i], g) {
            Some(s) => {
                let u = concat(prefix, s.as_str());
                proof {
                    let nxt = captured(all.take(i + 1), g as int);
                    assert(nxt =~= cur.push(s@));
                    let f = |x: Seq<char>| prefix@ + x;
                    assert(nxt.map_values(f) =~= cur.map_values(f).push(u@));
                    assert(nxt.map_values(f).drop_last() =~= cur.map_values(f));
                }
                add_distinct_exec(out, u);
            },
            None => {},
        }
        i += 1;
    }
    assert(all.take(ms.len() as int) =~= all);
}

fn one_string(s: &str) -> (r: Vec<String>)
    ensures
        strings_view(r@) == seq![s@],
{
    let mut r: Vec<String> = Vec::new();
    r.push(copy_str(s));
    assert(strings_view(r@) =~= seq![s@]);
    r
}

// ---------------------------------------------------------------------------
// Library.lol
// ---------------------------------------------------------------------------

/// The links of a Library.lol page: the selector finds them in page order.
pub const LIBRARY_LOL_SELECTOR: &'static str = "#info a, #download a, h2 a";

/// Download links written anywhere in a Library.lol page.
pub const LIBRARY_LOL_LINK_PATTERN: &'static str = "href=[\"'](https?://(?:download\\.library\\.lol|cloudflare-ipfs\\.com|ipfs\\.io)/[^\"']+)[\"']";

/// Links to the Libgen.li download script.
pub const LIBGEN_LI_LINK_PATTERN: &'static str = "href=[\"'](get\\.php\\?md5=[^\"']+)[\"']";

/// The link of a ready file in the slow download queue.
pub const SLOW_DOWNLOAD_SELECTOR: &'static str = "a.js-download-link, a[href*='/slow_download_file/'], a:contains('Download now')";

/// A link to a ready file written anywhere in a slow download page.
pub const SLOW_DOWNLOAD_LINK_PATTERN: &'static str = "href=[\"'](/slow_download_file/[^\"']+)[\"']";

/// A waiting time announced by a slow download page.
pub const COUNTDOWN_PATTERN: &'static str = "(?i)(?:wait|countdown|seconds?|timer)[^\\d]{0,20}(\\d{1,3})\\s*(?:s|sec|seconds)?";

/// The longest wait in the slow download queue, in seconds, that is worth it.
pub const MAX_QUEUE_WAIT_SECS: u64 = 35;

/// The absolute links among the first `k` selected anchors, trimmed, each once.
pub open spec fn selected_links(n: Seq<DomNodeView>, sel: Seq<int>, k: nat) -> Seq<Seq<char>>
    decreases k,
{
    if k == 0 || k > sel.len() {
        seq![]
    } else {
        let prev = selected_links(n, sel, (k - 1) as nat);
        match attr(n, sel[k - 1], 0) {
            Some(h) => if is_http(trim_ws(h)) {
                add_distinct(prev, trim_ws(h))
            } else {
                prev
            },
            None => prev,
        }
    }
}

/// The download links of a Library.lol page: the absolute links of its
/// anchors under `#info`, `#download` or `h2`, then the download links that
/// the page text holds, each once, in that order.
pub open spec fn library_lol_links(html: Seq<char>) -> Seq<Seq<char>> {
    let from_anchors = match html_model(html, seq![LIBRARY_LOL_SELECTOR@], seq!["href"@]) {
        Some(n) => {
            let sel = select_all(n, 0);
            selected_links(n, sel, sel.len())
        },
        None => seq![],
    };
    add_all_distinct(
        from_anchors,
        captured(regex_all(LIBRARY_LOL_LINK_PATTERN@, html), 1).map_values(
            |s: Seq<char>| Seq::<char>::empty() + s,
        ),
    )
}

/// The download links of a Libgen.li page, made absolute, each once.
pub open spec fn libgen_li_links(html: Seq<char>) -> Seq<Seq<char>> {
    add_all_distinct(
        seq![],
        captured(regex_all(LIBGEN_LI_LINK_PATTERN@, html), 1).map_values(
            |s: Seq<char>| "https://libgen.li/"@ + s,
        ),
    )
}

/// The gateways that serve IPFS content, in the order they are tried.
pub open spec fn ipfs_gateways() -> Seq<Seq<char>> {
    seq![
        "https://cloudflare-ipfs.com/ipfs/"@,
        "https://ipfs.io/ipfs/"@,
        "https://dweb.link/ipfs/"@,
        "https://gateway.pinata.cloud/ipfs/"@,
        "https://w3s.link/ipfs/"@,
    ]
}

/// The query that names the downloaded file, when there is a name.
pub open spec fn filename_param(filename: Option<Seq<char>>) -> Seq<char> {
    match filename {
        Some(f) => "?filename="@ + url_encoded(f),
        None => Seq::<char>::empty(),
    }
}

/// The address of the content `cid` on each gateway.
pub open spec fn gateway_urls(cid: Seq<char>, filename: Option<Seq<char>>) -> Seq<Seq<char>> {
    ipfs_gateways().map_values(|g: Seq<char>| g + trim_ws(cid) + filename_param(filename))
}

/// The slots of the slow download queue, in the order they are tried.
pub open spec fn slow_slots() -> Seq<Seq<char>> {
    seq!["0/0"@, "0/1"@, "0/2"@]
}

/// `https://{mirror}{path}`, the mirror without trailing slashes.
pub open spec fn on_mirror(mirror: Seq<char>, path: Seq<char>) -> Seq<char> {
    "https://"@ + strip_trailing(mirror, '/') + path
}

/// The first selected anchor from `k` on whose trimmed link is absolute or
/// rooted, as an absolute link.
pub open spec fn first_ready_link(n: Seq<DomNodeView>, sel: Seq<int>, k: int, mirror: Seq<char>) -> Option<
    Seq<char>,
>
    decreases sel.len() - k,
{
    if k < 0 || k >= sel.len() {
        None
    } else {
        match attr(n, sel[k], 0) {
            Some(h) => {
                let t = trim_ws(h);
                if is_http(t) {
                    Some(t)
                } else if has_prefix(t, "/"@) {
                    Some(on_mirror(mirror, t))
                } else {
                    first_ready_link(n, sel, k + 1, mirror)
                }
            },
            None => first_ready_link(n, sel, k + 1, mirror),
        }
    }
}

/// The link of the ready file on a slow download page: from its download
/// anchors when the selector parses, else from the first link written in
/// the page.
pub open spec fn slow_download_link(html: Seq<char>, mirror: Seq<char>) -> Option<Seq<char>> {
    let from_anchors = match html_model(html, seq![SLOW_DOWNLOAD_SELECTOR@], seq!["href"@]) {
        Some(n) => first_ready_link(n, select_all(n, 0), 0, mirror),
        None => None,
    };
    match from_anchors {
        Some(l) => Some(l),
        None => match group(regex_first(SLOW_DOWNLOAD_LINK_PATTERN@, html), 1) {
            Some(p) => Some(on_mirror(mirror, p)),
            None => None,
        },
    }
}

/// The number of seconds a slow download page asks to wait.
pub open spec fn countdown_seconds(html: Seq<char>) -> Option<u64> {
    match group(regex_first(COUNTDOWN_PATTERN@, html), 1) {
        Some(d) => parse_u64(d),
        None => None,
    }
}

/// What to do with a fetched slow download page.
#[derive(Clone, Debug)]
pub enum SlowDownloadStep {
    /// The file is ready at this link.
    Ready(String),
    /// Sleep this many seconds, then fetch the page once more.
    WaitThenRetry(u64),
    /// Give up on this slot.
    NextSlot,
}

pub enum SlowDownloadStepView {
    Ready(Seq<char>),
    WaitThenRetry(u64),
    NextSlot,
}

impl View for SlowDownloadStep {
    type V = SlowDownloadStepView;

    open spec fn view(&self) -> SlowDownloadStepView {
        match self {
            SlowDownloadStep::Ready(l) => SlowDownloadStepView::Ready(l@),
            SlowDownloadStep::WaitThenRetry(s) => SlowDownloadStepView::WaitThenRetry(*s),
            SlowDownloadStep::NextSlot => SlowDownloadStepView::NextSlot,
        }
    }
}

/// The step after a slow download page: take its link, else wait one second
/// more than a countdown of at most 35 seconds, else go on.
pub open spec fn slow_step(html: Seq<char>, mirror: Seq<char>) -> SlowDownloadStepView {
    match slow_download_link(html, mirror) {
        Some(l) => SlowDownloadStepView::Ready(l),
        None => match countdown_seconds(html) {
            Some(w) => if w <= MAX_QUEUE_WAIT_SECS {
                SlowDownloadStepView::WaitThenRetry((w + 1) as u64)
            } else {
                SlowDownloadStepView::NextSlot
            },
            None => SlowDownloadStepView::NextSlot,
        },
    }
}

/// Finds download links on partner mirrors.
pub struct PartnerDownloadResolver {
    pub client: reqwest::Client,
}

impl PartnerDownloadResolver {
    /// A resolver that sends its requests with `client`.
    pub fn new(client: reqwest::Client) -> (r: Self)
        ensures
            r.client == client,
    {
        PartnerDownloadResolver { client }
    }

    /// The addresses of the content `cid` on the public IPFS gateways, with the
    /// file name as a query when one is given.
    pub fn get_ipfs_gateway_urls(cid: &str, filename: Option<&str>) -> (r: Vec<String>)
        ensures
            svec(r@) == gateway_urls(
                cid@,
                match filename {
                    Some(f) => Some(f@),
                    None => None,
                },
            ),
    {
        let clean_cid = trim(cid);
        let param = match filename {
            Some(f) => {
                let e = url_encode(f);
                concat("?filename=", e.as_str())
            },
            None => String::new(),
        };
        let mut r: Vec<String> = Vec::new();
        let mut suffix = copy_str(clean_cid.as_str());
        append(&mut suffix, param.as_str());
        r.push(concat("https://cloudflare-ipfs.com/ipfs/", suffix.as_str()));
        r.push(concat("https://ipfs.io/ipfs/", suffix.as_str()));
        r.push(concat("https://dweb.link/ipfs/", suffix.as_str()));
        r.push(concat("https://gateway.pinata.cloud/ipfs/", suffix.as_str()));
        r.push(concat("https://w3s.link/ipfs/", suffix.as_str()));
        proof {
            let fo = match filename {
                Some(f) => Some(f@),
                None => None,
            };
            assert(param@ == filename_param(fo));
            let tail = trim_ws(cid@) + filename_param(fo);
            assert(suffix@ =~= tail);
            let g = ipfs_gateways();
            assert(svec(r@)[0] =~= g[0] + trim_ws(cid@) + filename_param(fo));
            assert(svec(r@)[1] =~= g[1] + trim_ws(cid@) + filename_param(fo));
            assert(svec(r@)[2] =~= g[2] + trim_ws(cid@) + filename_param(fo));
            assert(svec(r@)[3] =~= g[3] + trim_ws(cid@) + filename_param(fo));
            assert(svec(r@)[4] =~= g[4] + trim_ws(cid@) + filename_param(fo));
            assert(svec(r@) =~= gateway_urls(cid@, fo));
        }
        r
    }

    /// The download links of a Library.lol page.
    pub fn parse_library_lol_html(html: &str) -> (r: Vec<String>)
        ensures
            svec(r@) == library_lol_links(html@),
    {
        let mut links: Vec<String> = Vec::new();
        let sels = one_string(LIBRARY_LOL_SELECTOR);
        let attrs = one_string("href");
        match scan_html(html, &sels, &attrs) {
            Some(nodes) => {
                let sel = select_all_exec(&nodes, 0);
                let ghost n = dom_view(nodes@);
                let ghost si = sel@.map_values(|x: usize| x as int);
                let mut k: usize = 0;
                while k < sel.len()
                    invariant
                        0 <= k <= sel.len(),
                        n == dom_view(nodes@),
                        si == sel@.map_values(|x: usize| x as int),
                        si.len() == sel@.len(),
                        forall|j: int| 0 <= j < sel@.len() ==> #[trigger] sel@[j] < nodes@.len(),
                        svec(links@) == selected_links(n, si, k as nat),
                    decreases sel.len() - k,
                {
                    assert(si[k as int] == sel@[k as int] as int);
                    match attr_exec(&nodes, sel[k], 0) {
                        Some(h) => {
                            let t = trim(h.as_str());
                            if is_http_exec(t.as_str()) {
                                add_distinct_exec(&mut links, t);
                            }
                        },
                        None => {},
                    }
                    k += 1;
                }
            },
            None => {
                assert(svec(links@) =~= Seq::<Seq<char>>::empty());
            },
        }
        let ms = regex_captures_all(LIBRARY_LOL_LINK_PATTERN, html);
        let empty = String::new();
        add_captured(&mut links, &ms, 1, empty.as_str());
        links
    }

    /// The download links of a Libgen.li page, made absolute.
    pub fn parse_libgen_li_html(html: &str) -> (r: Vec<String>)
        ensures
            svec(r@) == libgen_li_links(html@),
    {
        let mut links: Vec<String> = Vec::new();
        let ms = regex_captures_all(LIBGEN_LI_LINK_PATTERN, html);
        add_captured(&mut links, &ms, 1, "https://libgen.li/");
        assert(svec(Seq::<String>::empty()) =~= Seq::<Seq<char>>::empty());
        links
    }

    /// The Library.lol page of an item.
    pub fn library_lol_url(md5: &str) -> (r: String)
        ensures
            r@ == "https://library.lol/main/"@ + clean_md5(md5@),
    {
        let m = clean_md5_exec(md5);
        concat("https://library.lol/main/", m.as_str())
    }

    /// The Libgen.li page of an item.
    pub fn libgen_li_url(md5: &str) -> (r: String)
        ensures
            r@ == "https://libgen.li/ads.php?md5="@ + clean_md5(md5@),
    {
        let m = clean_md5_exec(md5);
        concat("https://libgen.li/ads.php?md5=", m.as_str())
    }

    /// The slow download pages of an item on `mirror`, one per slot, in the
    /// order they are tried.
    pub fn slow_download_urls(mirror: &str, md5: &str) -> (r: Vec<String>)
        ensures
            svec(r@) == slow_slots().map_values(
                |slot: Seq<char>|
                    "https://"@ + mirror@ + "/slow_download/"@ + clean_md5(md5@) + "/"@ + slot,
            ),
    {
        let m = clean_md5_exec(md5);
        let mut base = concat("https://", mirror);
        append(&mut base, "/slow_download/");
        append(&mut base, m.as_str());
        append(&mut base, "/");
        let mut r: Vec<String> = Vec::new();
        r.push(concat(base.as_str(), "0/0"));
        r.push(concat(base.as_str(), "0/1"));
        r.push(concat(base.as_str(), "0/2"));
        proof {
            let f = |slot: Seq<char>|
                "https://"@ + mirror@ + "/slow_download/"@ + clean_md5(md5@) + "/"@ + slot;
            assert(f("0/0"@) =~= base@ + "0/0"@);
            assert(f("0/1"@) =~= base@ + "0/1"@);
            assert(f("0/2"@) =~= base@ + "0/2"@);
            assert(svec(r@) =~= slow_slots().map_values(f));
        }
        r
    }

    /// The link of the ready file on a slow download page, made absolute on
    /// `mirror` when it is rooted.
    pub fn parse_slow_download_link(html: &str, mirror: &str) -> (r: Option<String>)
        ensures
            match r {
                Some(l) => slow_download_link(html@, mirror@) == Some(l@),
                None => slow_download_link(html@, mirror@) is None,
            },
    {
        let sels = one_string(SLOW_DOWNLOAD_SELECTOR);
        let attrs = one_string("href");
        let host = trim_end_char(mirror, '/');
        match scan_html(html, &sels, &attrs) {
            Some(nodes) => {
                let sel = select_all_exec(&nodes, 0);
                let ghost n = dom_view(nodes@);
                let ghost si = sel@.map_values(|x: usize| x as int);
                let mut k: usize = 0;
                while k < sel.len()
                    invariant
                        0 <= k <= sel.len(),
                        n == dom_view(nodes@),
                        si == sel@.map_values(|x: usize| x as int),
                        si.len() == sel@.len(),
                        forall|j: int| 0 <= j < sel@.len() ==> #[trigger] sel@[j] < nodes@.len(),
                        host@ == strip_trailing(mirror@, '/'),
                        html_model(html@, seq![SLOW_DOWNLOAD_SELECTOR@], seq!["href"@]) == Some(n),
                        si == select_all(n, 0),
                        first_ready_link(n, si, 0, mirror@) == first_ready_link(
                            n,
                            si,
                            k as int,
                            mirror@,
                        ),
                    decreases sel.len() - k,
                {
                    assert(si[k as int] == sel@[k as int] as int);
                    match attr_exec(&nodes, sel[k], 0) {
                        Some(h) => {
                            let t = trim(h.as_str());
                            if is_http_exec(t.as_str()) {
                                return Some(t);
                            } else if str_starts_with(t.as_str(), "/") {
                                let mut u = concat("https://", host.as_str());
                                append(&mut u, t.as_str());
                                return Some(u);
                            }
                        },
                        None => {},
                    }
                    k += 1;
                }
            },
            None => {},
        }
        match first_group(SLOW_DOWNLOAD_LINK_PATTERN, html, 1) {
            Some(p) => {
                let mut u = concat("https://", host.as_str());
                append(&mut u, p.as_str());
                Some(u)
            },
            None => None,
        }
    }

    /// The number of seconds a slow download page asks to wait.
    pub fn extract_countdown_seconds(html: &str) -> (r: Option<u64>)
        ensures
            r == countdown_seconds(html@),
    {
        match first_group(COUNTDOWN_PATTERN, html, 1) {
            Some(d) => parse_u64_exec(d.as_str()),
            None => None,
        }
    }

    /// What to do after fetching a slow download page.
    pub fn slow_download_step(html: &str, mirror: &str) -> (r: SlowDownloadStep)
        ensures
            r@ == slow_step(html@, mirror@),
    {
        match Self::parse_slow_download_link(html, mirror) {
            Some(l) => SlowDownloadStep::Ready(l),
            None => match Self::extract_countdown_seconds(html) {
                Some(w) => if w <= MAX_QUEUE_WAIT_SECS {
                    SlowDownloadStep::WaitThenRetry(w + 1)
                } else {
                    SlowDownloadStep::NextSlot
                },
                None => SlowDownloadStep::NextSlot,
            },
        }
    }
}


// ---------------------------------------------------------------------------
// The slow download queue
// ---------------------------------------------------------------------------

/// Where a walk through the slow download queue stands: the pages of its
/// slots, the slot at hand, the mirror, and whether the page at hand is being
/// fetched again after a wait.
pub struct SlowQueue {
    urls: Vec<String>,
    slot: usize,
    mirror: String,
    retrying: bool,
}

pub struct SlowQueueView {
    pub urls: Seq<Seq<char>>,
    pub slot: nat,
    pub mirror: Seq<char>,
    pub retrying: bool,
}

impl View for SlowQueue {
    type V = SlowQueueView;

    closed spec fn view(&self) -> SlowQueueView {
        SlowQueueView {
            urls: svec(self.urls@),
            slot: self.slot as nat,
            mirror: self.mirror@,
            retrying: self.retrying,
        }
    }
}

/// What the walk through the slow download queue does next.
pub enum SlowQueueAction {
    /// Fetch this page (with the short timeout of a first try).
    Fetch(String),
    /// Sleep this many seconds, then fetch this page once more.
    WaitThenFetch(u64, String),
    /// The file is ready at this link.
    Found(String),
    /// No slot gave a link.
    NotFound,
}

pub enum SlowQueueActionView {
    Fetch(Seq<char>),
    WaitThenFetch(u64, Seq<char>),
    Found(Seq<char>),
    NotFound,
}

impl View for SlowQueueAction {
    type V = SlowQueueActionView;

    open spec fn view(&self) -> SlowQueueActionView {
        match self {
            SlowQueueAction::Fetch(u) => SlowQueueActionView::Fetch(u@),
            SlowQueueAction::WaitThenFetch(s, u) => SlowQueueActionView::WaitThenFetch(*s, u@),
            SlowQueueAction::Found(l) => SlowQueueActionView::Found(l@),
            SlowQueueAction::NotFound => SlowQueueActionView::NotFound,
        }
    }
}

/// The page of slot `k`, or the end once every slot was tried.
pub open spec fn slot_action(urls: Seq<Seq<char>>, k: int) -> SlowQueueActionView {
    if 0 <= k < urls.len() {
        SlowQueueActionView::Fetch(urls[k])
    } else {
        SlowQueueActionView::NotFound
    }
}

/// What follows a page of the queue: its link; after a first fetch, a wait
/// of the page's countdown and one more fetch; else the next slot. A page
/// fetched again gives its link or moves on.
pub open spec fn queue_next(q: SlowQueueView, html: Option<Seq<char>>) -> (SlowQueueView, SlowQueueActionView) {
    let k: nat = if q.slot < q.urls.len() {
        q.slot + 1
    } else {
        q.slot
    };
    let next_slot = (SlowQueueView { slot: k, retrying: false, ..q }, slot_action(q.urls, k as int));
    match html {
        None => next_slot,
        Some(h) => if q.retrying {
            match slow_download_link(h, q.mirror) {
                Some(l) => (q, SlowQueueActionView::Found(l)),
                None => next_slot,
            }
        } else {
            match slow_step(h, q.mirror) {
                SlowDownloadStepView::Ready(l) => (q, SlowQueueActionView::Found(l)),
                SlowDownloadStepView::WaitThenRetry(w) => (
                    SlowQueueView { retrying: true, ..q },
                    SlowQueueActionView::WaitThenFetch(
                        w,
                        if q.slot < q.urls.len() {
                            q.urls[q.slot as int]
                        } else {
                            Seq::<char>::empty()
                        },
                    ),
                ),
                SlowDownloadStepView::NextSlot => next_slot,
            }
        },
    }
}

fn slot_action_exec(urls: &Vec<String>, k: usize) -> (r: SlowQueueAction)
    ensures
        r@ == slot_action(svec(urls@), k as int),
{
    if k < urls.len() {
        SlowQueueAction::Fetch(copy_str(urls[k].as_str()))
    } else {
        SlowQueueAction::NotFound
    }
}

impl SlowQueue {
    /// Starts at the first slot of the queue of `md5` on `mirror`.
    pub fn start(mirror: &str, md5: &str) -> (r: (Self, SlowQueueAction))
        ensures
            r.0@ == (SlowQueueView {
                urls: slow_slots().map_values(
                    |slot: Seq<char>|
                        "https://"@ + mirror@ + "/slow_download/"@ + clean_md5(md5@) + "/"@ + slot,
                ),
                slot: 0,
                mirror: mirror@,
                retrying: false,
            }),
            r.1@ == slot_action(r.0@.urls, 0),
    {
        let urls = PartnerDownloadResolver::slow_download_urls(mirror, md5);
        let action = slot_action_exec(&urls, 0);
        (SlowQueue { urls, slot: 0, mirror: copy_str(mirror), retrying: false }, action)
    }

    /// The page last asked for (`None` when it could not be fetched).
    pub fn page(&mut self, html: Option<&str>) -> (r: SlowQueueAction)
        ensures
            (final(self)@, r@) == queue_next(
                old(self)@,
                match html {
                    Some(h) => Some(h@),
                    None => None,
                },
            ),
    {
        let h = match html {
            Some(h) => h,
            None => {
                return self.next_slot();
            },
        };
        if self.retrying {
            match PartnerDownloadResolver::parse_slow_download_link(h, self.mirror.as_str()) {
                Some(l) => SlowQueueAction::Found(l),
                None => self.next_slot(),
            }
        } else {
            match PartnerDownloadResolver::slow_download_step(h, self.mirror.as_str()) {
                SlowDownloadStep::Ready(l) => SlowQueueAction::Found(l),
                SlowDownloadStep::WaitThenRetry(w) => {
                    self.retrying = true;
                    let u = if self.slot < self.urls.len() {
                        copy_str(self.urls[self.slot].as_str())
                    } else {
                        String::new()
                    };
                    SlowQueueAction::WaitThenFetch(w, u)
                },
                SlowDownloadStep::NextSlot => self.next_slot(),
            }
        }
    }

    fn next_slot(&mut self) -> (r: SlowQueueAction)
        ensures
            ({
                let q = old(self)@;
                let k: nat = if q.slot < q.urls.len() {
                    q.slot + 1
                } else {
                    q.slot
                };
                final(self)@ == (SlowQueueView { slot: k, retrying: false, ..q }) && r@
                    == slot_action(q.urls, k as int)
            }),
    {
        if self.slot < self.urls.len() {
            self.slot = self.slot + 1;
        }
        self.retrying = false;
        slot_action_exec(&self.urls, self.slot)
    }
}

// ---------------------------------------------------------------------------
// Properties of the found links
// ---------------------------------------------------------------------------

proof fn lemma_add_distinct(acc: Seq<Seq<char>>, x: Seq<char>)
    requires
        acc.no_duplicates(),
    ensures
        add_distinct(acc, x).no_duplicates(),
        add_distinct(acc, x).contains(x),
        forall|y: Seq<char>| #[trigger] add_distinct(acc, x).contains(y) ==> y == x || acc.contains(y),
{
    if !acc.contains(x) {
        let r = acc.push(x);
        assert(r[acc.len() as int] == x);
        assert forall|y: Seq<char>| #[trigger] r.contains(y) implies y == x || acc.contains(y) by {
            let k = choose|k: int| 0 <= k < r.len() && r[k] == y;
            if k < acc.len() {
                assert(acc[k] == y);
            }
        }
    }
}

proof fn lemma_add_all_distinct(acc: Seq<Seq<char>>, xs: Seq<Seq<char>>)
    requires
        acc.no_duplicates(),
    ensures
        add_all_distinct(acc, xs).no_duplicates(),
        forall|y: Seq<char>| #[trigger]
            add_all_distinct(acc, xs).contains(y) ==> acc.contains(y) || xs.contains(y),
    decreases xs.len(),
{
    if xs.len() > 0 {
        let prev = add_all_distinct(acc, xs.drop_last());
        lemma_add_all_distinct(acc, xs.drop_last());
        lemma_add_distinct(prev, xs.last());
        assert forall|y: Seq<char>| #[trigger]
            add_all_distinct(acc, xs).contains(y) implies acc.contains(y) || xs.contains(y) by {
            if y == xs.last() {
                assert(xs[xs.len() - 1] == y);
            } else {
                assert(prev.contains(y));
                if xs.drop_last().contains(y) {
                    let k = choose|k: int| 0 <= k < xs.drop_last().len() && xs.drop_last()[k] == y;
                    assert(xs[k] == y);
                }
            }
        }
    }
}

proof fn lemma_selected_links_distinct(n: Seq<DomNodeView>, sel: Seq<int>, k: nat)
    ensures
        selected_links(n, sel, k).no_duplicates(),
    decreases k,
{
    if k > 0 && k <= sel.len() {
        lemma_selected_links_distinct(n, sel, (k - 1) as nat);
        let prev = selected_links(n, sel, (k - 1) as nat);
        match attr(n, sel[k - 1], 0) {
            Some(h) => {
                lemma_add_distinct(prev, trim_ws(h));
            },
            None => {},
        }
    }
}

/// The links found on a Library.lol or a Libgen.li page are each listed once,
/// and every Libgen.li link points to `https://libgen.li/`.
pub proof fn lemma_partner_links(html: Seq<char>)
    ensures
        library_lol_links(html).no_duplicates(),
        libgen_li_links(html).no_duplicates(),
        forall|k: int|
            0 <= k < libgen_li_links(html).len() ==> has_prefix(
                #[trigger] libgen_li_links(html)[k],
                "https://libgen.li/"@,
            ),
{
    match html_model(html, seq![LIBRARY_LOL_SELECTOR@], seq!["href"@]) {
        Some(n) => {
            let sel = select_all(n, 0);
            lemma_selected_links_distinct(n, sel, sel.len());
            lemma_add_all_distinct(
                selected_links(n, sel, sel.len()),
                captured(regex_all(LIBRARY_LOL_LINK_PATTERN@, html), 1).map_values(
                    |s: Seq<char>| Seq::<char>::empty() + s,
                ),
            );
        },
        None => {
            lemma_add_all_distinct(
                seq![],
                captured(regex_all(LIBRARY_LOL_LINK_PATTERN@, html), 1).map_values(
                    |s: Seq<char>| Seq::<char>::empty() + s,
                ),
            );
        },
    }
    let xs = captured(regex_all(LIBGEN_LI_LINK_PATTERN@, html), 1).map_values(
        |s: Seq<char>| "https://libgen.li/"@ + s,
    );
    lemma_add_all_distinct(seq![], xs);
    let r = libgen_li_links(html);
    assert forall|k: int| 0 <= k < r.len() implies has_prefix(
        #[trigger] r[k],
        "https://libgen.li/"@,
    ) by {
        assert(r.contains(r[k]));
        assert(xs.contains(r[k]));
        let m = choose|m: int| 0 <= m < xs.len() && xs[m] == r[k];
        let p = "https://libgen.li/"@;
        assert(xs[m].subrange(0, p.len() as int) =~= p);
    }
}

} // verus!
