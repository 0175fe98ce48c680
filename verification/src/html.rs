//! A flat model of a parsed HTML document, and the tree queries that the
//! page parsers make on it.
//!
//! The document is parsed by the `scraper` crate. What the parsers read of it
//! (node kinds, element names, the attributes they ask for, and which of their
//! CSS selectors each element matches) is handed back as plain values, one
//! node per entry, in document order, with the depth of every node.
use vstd::prelude::*;

use crate::text::{append, copy_str, str_eq};

verus! {

/// What a node is.
pub enum DomKind {
    /// An element: its local name, and the values of the requested attributes.
    Element(String, Vec<Option<String>>),
    /// A text node.
    Text(String),
    /// The document itself, a comment, a doctype or another kind of node.
    Other,
}

/// One node of a document, in document order.
pub struct DomNode {
    /// The number of ancestors of the node (the document node has none).
    pub depth: usize,
    pub kind: DomKind,
    /// For an element, whether it matches each requested selector.
    pub matches: Vec<bool>,
}

pub enum DomKindView {
    Element(Seq<char>, Seq<Option<Seq<char>>>),
    Text(Seq<char>),
    Other,
}

pub struct DomNodeView {
    pub depth: nat,
    pub kind: DomKindView,
    pub matches: Seq<bool>,
}

pub open spec fn opt_view(o: Option<String>) -> Option<Seq<char>> {
    match o {
        Some(s) => Some(s@),
        None => None,
    }
}

impl View for DomKind {
    type V = DomKindView;

    open spec fn view(&self) -> DomKindView {
        match self {
            DomKind::Element(name, attrs) => DomKindView::Element(
                name@,
                attrs@.map_values(|a: Option<String>| opt_view(a)),
            ),
            DomKind::Text(t) => DomKindView::Text(t@),
            DomKind::Other => DomKindView::Other,
        }
    }
}

impl View for DomNode {
    type V = DomNodeView;

    open spec fn view(&self) -> DomNodeView {
        DomNodeView { depth: self.depth as nat, kind: self.kind@, matches: self.matches@ }
    }
}

/// The views of a sequence of nodes.
pub open spec fn dom_view(nodes: Seq<DomNode>) -> Seq<DomNodeView> {
    nodes.map_values(|x: DomNode| x@)
}

/// The views of a sequence of strings.
pub open spec fn strings_view(v: Seq<String>) -> Seq<Seq<char>> {
    v.map_values(|s: String| s@)
}

/// The nodes of the document that `scraper` parses from `source`, in document
/// order, with the values of the attributes `attrs` of each element (and no
/// selector matches).
pub uninterp spec fn html_tree(source: Seq<char>, attrs: Seq<Seq<char>>) -> Seq<DomNodeView>;

/// For each node of the document that `scraper` parses from `source`, in
/// document order, whether it is an element matching each of `selectors`
/// (empty for other nodes); `None` when a selector does not parse.
pub uninterp spec fn html_matches(source: Seq<char>, selectors: Seq<Seq<char>>) -> Option<
    Seq<Seq<bool>>,
>;

/// Parses `source` with `scraper::Html::parse_document` and reports every node
/// of the tree (`descendants` of the root): its depth (`ancestors().count()`),
/// its kind, and for elements the local name and the requested attributes
/// (`Element::attr`). The result is named (`html_tree`): it depends on the
/// arguments alone.
#[verifier::external_body]
fn html_tree_nodes(source: &str, attrs: &Vec<String>) -> (r: Vec<DomNode>)
    ensures
        html_tree(source@, strings_view(attrs@)) == dom_view(r@),
{
    scraper::Html::parse_document(source).tree.root().descendants().map(|n| DomNode {
        depth: n.ancestors().count(),
        kind: match n.value() {
            scraper::Node::Element(e) => DomKind::Element(e.name().to_string(), attrs.iter().map(|a| e.attr(a).map(String::from)).collect()),
            scraper::Node::Text(t) => DomKind::Text(t.to_string()),
            _ => DomKind::Other,
        },
        matches: Vec::new(),
    }).collect()
}

/// Parses each selector with `scraper::Selector::parse` and `source` with
/// `scraper::Html::parse_document`, and reports for every node of the tree
/// which selectors it matches (`Selector::matches`). The result is named
/// (`html_matches`).
#[verifier::external_body]
fn html_selector_matches(source: &str, selectors: &Vec<String>) -> (r: Option<Vec<Vec<bool>>>)
    ensures
        html_matches(source@, strings_view(selectors@)) == match r {
            Some(v) => Some(v@.map_values(|m: Vec<bool>| m@)),
            None => None,
        },
{
    let sels: Vec<scraper::Selector> = selectors.iter().map(|s| scraper::Selector::parse(s).ok()).collect::<Option<_>>()?;
    let doc = scraper::Html::parse_document(source);
    Some(doc.tree.root().descendants().map(|n| match scraper::ElementRef::wrap(n) {
        Some(e) => sels.iter().map(|s| s.matches(&e)).collect(),
        None => Vec::new(),
    }).collect())
}

/// The document model: the tree of `html_tree` with the selector matches of
/// `html_matches` attached node by node; `None` when a selector does not parse.
pub open spec fn html_model(
    source: Seq<char>,
    selectors: Seq<Seq<char>>,
    attrs: Seq<Seq<char>>,
) -> Option<Seq<DomNodeView>> {
    match html_matches(source, selectors) {
        None => None,
        Some(m) => {
            let t = html_tree(source, attrs);
            Some(
                Seq::new(
                    t.len(),
                    |i: int|
                        DomNodeView {
                            matches: if i < m.len() {
                                m[i]
                            } else {
                                seq![]
                            },
                            ..t[i]
                        },
                ),
            )
        },
    }
}

/// A copy of a vector of flags.
fn copy_flags(v: &Vec<bool>) -> (r: Vec<bool>)
    ensures
        r@ == v@,
{
    let mut r: Vec<bool> = Vec::new();
    let mut i: usize = 0;
    while i < v.len()
        invariant
            0 <= i <= v@.len(),
            r@ == v@.take(i as int),
        decreases v@.len() - i,
    {
        r.push(v[i]);
        i += 1;
        assert(r@ =~= v@.take(i as int));
    }
    assert(v@.take(v@.len() as int) =~= v@);
    r
}

/// Parses `source` and reports, for every node, what the page parsers read.
pub fn scan_html(source: &str, selectors: &Vec<String>, attrs: &Vec<String>) -> (r: Option<
    Vec<DomNode>,
>)
    ensures
        html_model(source@, strings_view(selectors@), strings_view(attrs@)) == match r {
            Some(v) => Some(dom_view(v@)),
            None => None,
        },
{
    let m = match html_selector_matches(source, selectors) {
        Some(m) => m,
        None => {
            return None;
        },
    };
    let mut t = html_tree_nodes(source, attrs);
    let ghost t0 = dom_view(t@);
    let ghost mv = m@.map_values(|x: Vec<bool>| x@);
    let mut i: usize = 0;
    while i < t.len()
        invariant
            0 <= i <= t@.len(),
            t0.len() == t@.len(),
            mv == m@.map_values(|x: Vec<bool>| x@),
            forall|k: int|
                0 <= k < i ==> dom_view(t@)[k] == (DomNodeView {
                    matches: if k < mv.len() {
                        mv[k]
                    } else {
                        seq![]
                    },
                    ..t0[k]
                }),
            forall|k: int| i <= k < t@.len() ==> dom_view(t@)[k] == t0[k],
        decreases t@.len() - i,
    {
        let row = if i < m.len() {
            copy_flags(&m[i])
        } else {
            Vec::new()
        };
        let ghost before = t@;
        let mut node = t.remove(i);
        node.matches = row;
        t.insert(i, node);
        proof {
            assert forall|k: int| 0 <= k < t@.len() && k != i implies dom_view(t@)[k] == dom_view(
                before,
            )[k] by {
                assert(t@[k] == before[k]);
            }
            assert(dom_view(before)[i as int] == t0[i as int]);
            assert(t@[i as int].depth == before[i as int].depth);
            assert(t@[i as int].kind == before[i as int].kind);
            assert(t@[i as int].matches@ == (if i < mv.len() {
                mv[i as int]
            } else {
                seq![]
            }));
            assert(dom_view(t@)[i as int] == t@[i as int]@);
            assert(dom_view(t@)[i as int] == (DomNodeView {
                matches: if i < mv.len() {
                    mv[i as int]
                } else {
                    seq![]
                },
                ..t0[i as int]
            }));
            assert forall|k: int| 0 <= k < i + 1 implies dom_view(t@)[k] == (DomNodeView {
                matches: if k < mv.len() {
                    mv[k]
                } else {
                    seq![]
                },
                ..t0[k]
            }) by {
                if k < i {
                    assert(dom_view(t@)[k] == dom_view(before)[k]);
                }
            }
        }
        i += 1;
    }
    proof {
        let target = Seq::new(
            t0.len(),
            |k: int|
                DomNodeView {
                    matches: if k < mv.len() {
                        mv[k]
                    } else {
                        seq![]
                    },
                    ..t0[k]
                },
        );
        assert(dom_view(t@) =~= target);
    }
    Some(t)
}

// ---------------------------------------------------------------------------
// Tree structure over the flat model
// ---------------------------------------------------------------------------

/// The first position at or after `j` that is not inside the subtree of `i`.
pub open spec fn end_from(n: Seq<DomNodeView>, i: int, j: int) -> int
    decreases n.len() - j,
{
    if j >= n.len() || j < 0 {
        n.len() as int
    } else if n[j].depth <= n[i].depth {
        j
    } else {
        end_from(n, i, j + 1)
    }
}

/// The position just after the last descendant of `i`.
pub open spec fn subtree_end(n: Seq<DomNodeView>, i: int) -> int {
    end_from(n, i, i + 1)
}

/// The nearest node before position `j` that is shallower than `i`.
pub open spec fn parent_from(n: Seq<DomNodeView>, i: int, j: int) -> Option<int>
    decreases j,
{
    if j <= 0 {
        None
    } else if n[j - 1].depth < n[i].depth {
        Some(j - 1)
    } else {
        parent_from(n, i, j - 1)
    }
}

/// The parent of node `i`.
pub open spec fn parent(n: Seq<DomNodeView>, i: int) -> Option<int> {
    parent_from(n, i, i)
}

pub proof fn lemma_parent_from(n: Seq<DomNodeView>, i: int, j: int)
    ensures
        parent_from(n, i, j) matches Some(p) ==> 0 <= p < j,
    decreases j,
{
    if j > 0 && !(n[j - 1].depth < n[i].depth) {
        lemma_parent_from(n, i, j - 1);
    }
}

pub open spec fn is_element(v: DomNodeView) -> bool {
    v.kind is Element
}

/// The nearest ancestor of `i` that is an element.
pub open spec fn element_ancestor(n: Seq<DomNodeView>, i: int) -> Option<int>
    decreases i,
{
    match parent(n, i) {
        None => None,
        Some(p) => {
            proof {
                lemma_parent_from(n, i, i);
            }
            if 0 <= p < i {
                if is_element(n[p]) {
                    Some(p)
                } else {
                    element_ancestor(n, p)
                }
            } else {
                None
            }
        },
    }
}

/// Among the first `k` ancestors of `i`, the nearest that is an element.
pub open spec fn element_among_ancestors(n: Seq<DomNodeView>, i: int, k: nat) -> Option<int>
    decreases k,
{
    if k == 0 {
        None
    } else {
        match parent(n, i) {
            None => None,
            Some(p) => if is_element(n[p]) {
                Some(p)
            } else {
                element_among_ancestors(n, p, (k - 1) as nat)
            },
        }
    }
}

/// Element `j` matches selector number `s`.
pub open spec fn matches_sel(n: Seq<DomNodeView>, j: int, s: int) -> bool {
    is_element(n[j]) && 0 <= s < n[j].matches.len() && n[j].matches[s]
}

/// The elements among positions `from..to` that match selector `s`, in order.
pub open spec fn select_range(n: Seq<DomNodeView>, s: int, from: int, to: int) -> Seq<int>
    decreases to - from,
{
    if to <= from {
        seq![]
    } else {
        let r = select_range(n, s, from, to - 1);
        if matches_sel(n, to - 1, s) {
            r.push(to - 1)
        } else {
            r
        }
    }
}

/// `ElementRef::select`: the descendants of `c` that match selector `s`.
pub open spec fn select_within(n: Seq<DomNodeView>, c: int, s: int) -> Seq<int> {
    select_range(n, s, c + 1, subtree_end(n, c))
}

/// `Html::select`: the elements of the whole document that match selector `s`.
pub open spec fn select_all(n: Seq<DomNodeView>, s: int) -> Seq<int> {
    select_range(n, s, 0, n.len() as int)
}

/// The text of the text nodes among positions `from..to`, in order.
pub open spec fn text_range(n: Seq<DomNodeView>, from: int, to: int) -> Seq<char>
    decreases to - from,
{
    if to <= from {
        seq![]
    } else {
        let r = text_range(n, from, to - 1);
        match n[to - 1].kind {
            DomKindView::Text(t) => r + t,
            _ => r,
        }
    }
}

/// `ElementRef::text` collected: the text of node `i` and its descendants.
pub open spec fn text_of(n: Seq<DomNodeView>, i: int) -> Seq<char> {
    text_range(n, i, subtree_end(n, i))
}

/// Element `v` is a `script` or a `style` element.
pub open spec fn is_script_or_style(v: DomNodeView) -> bool {
    match v.kind {
        DomKindView::Element(name, _) => name == seq!['s', 'c', 'r', 'i', 'p', 't'] || name
            == seq!['s', 't', 'y', 'l', 'e'],
        _ => false,
    }
}

/// Some ancestor of `j` is a `script` or `style` element.
pub open spec fn under_script(n: Seq<DomNodeView>, j: int) -> bool
    decreases j,
{
    match parent(n, j) {
        None => false,
        Some(p) => {
            proof {
                lemma_parent_from(n, j, j);
            }
            if 0 <= p < j {
                is_script_or_style(n[p]) || under_script(n, p)
            } else {
                false
            }
        },
    }
}

/// The text of the text nodes among `from..to` that are not inside a script or style element.
pub open spec fn visible_text_range(n: Seq<DomNodeView>, from: int, to: int) -> Seq<char>
    decreases to - from,
{
    if to <= from {
        seq![]
    } else {
        let r = visible_text_range(n, from, to - 1);
        match n[to - 1].kind {
            DomKindView::Text(t) => if under_script(n, to - 1) {
                r
            } else {
                r + t
            },
            _ => r,
        }
    }
}

/// The visible text of node `i` and its descendants.
pub open spec fn visible_text_of(n: Seq<DomNodeView>, i: int) -> Seq<char> {
    visible_text_range(n, i, subtree_end(n, i))
}

/// The value of requested attribute number `a` of node `i`.
pub open spec fn attr(n: Seq<DomNodeView>, i: int, a: int) -> Option<Seq<char>> {
    match n[i].kind {
        DomKindView::Element(_, attrs) => if 0 <= a < attrs.len() {
            attrs[a]
        } else {
            None
        },
        _ => None,
    }
}

// ---------------------------------------------------------------------------
// Executable queries
// ---------------------------------------------------------------------------

/// The end of the subtree of `i`.
pub fn subtree_end_exec(nodes: &Vec<DomNode>, i: usize) -> (r: usize)
    requires
        i < nodes@.len(),
    ensures
        r as int == subtree_end(dom_view(nodes@), i as int),
        i < r <= nodes@.len(),
{
    let ghost n = dom_view(nodes@);
    let d = nodes[i].depth;
    assert(i < nodes.len());
    let mut j = i + 1;
    while j < nodes.len() && nodes[j].depth > d
        invariant
            n == dom_view(nodes@),
            d == n[i as int].depth,
            i < j <= nodes@.len(),
            end_from(n, i as int, i + 1) == end_from(n, i as int, j as int),
        decreases nodes@.len() - j,
    {
        j += 1;
    }
    j
}

/// The parent of node `i`.
pub fn parent_exec(nodes: &Vec<DomNode>, i: usize) -> (r: Option<usize>)
    requires
        i < nodes@.len(),
    ensures
        r matches Some(p) ==> parent(dom_view(nodes@), i as int) == Some(p as int) && p < i,
        r is None ==> parent(dom_view(nodes@), i as int) is None,
{
    let ghost n = dom_view(nodes@);
    let d = nodes[i].depth;
    let mut j = i;
    while j > 0
        invariant
            n == dom_view(nodes@),
            d == n[i as int].depth,
            j <= i < nodes@.len(),
            parent_from(n, i as int, i as int) == parent_from(n, i as int, j as int),
        decreases j,
    {
        if nodes[j - 1].depth < d {
            return Some(j - 1);
        }
        j -= 1;
    }
    None
}

/// Whether node `i` is an element.
pub fn is_element_exec(nodes: &Vec<DomNode>, i: usize) -> (b: bool)
    requires
        i < nodes@.len(),
    ensures
        b == is_element(dom_view(nodes@)[i as int]),
{
    match &nodes[i].kind {
        DomKind::Element(_, _) => true,
        _ => false,
    }
}

/// The nearest element ancestor of `i` (`ancestors().find_map(ElementRef::wrap)`).
pub fn element_ancestor_exec(nodes: &Vec<DomNode>, i: usize) -> (r: Option<usize>)
    requires
        i < nodes@.len(),
    ensures
        r matches Some(p) ==> element_ancestor(dom_view(nodes@), i as int) == Some(p as int) && p
            < i,
        r is None ==> element_ancestor(dom_view(nodes@), i as int) is None,
{
    let ghost n = dom_view(nodes@);
    let mut cur = i;
    loop
        invariant
            n == dom_view(nodes@),
            cur <= i < nodes@.len(),
            element_ancestor(n, i as int) == element_ancestor(n, cur as int),
        decreases cur,
    {
        match parent_exec(nodes, cur) {
            None => {
                return None;
            },
            Some(p) => {
                if is_element_exec(nodes, p) {
                    return Some(p);
                }
                cur = p;
            },
        }
    }
}

/// Among the first `k` ancestors of `i`, the nearest element.
pub fn element_among_ancestors_exec(nodes: &Vec<DomNode>, i: usize, k: usize) -> (r: Option<usize>)
    requires
        i < nodes@.len(),
    ensures
        r matches Some(p) ==> element_among_ancestors(dom_view(nodes@), i as int, k as nat) == Some(
            p as int,
        ) && p < nodes@.len(),
        r is None ==> element_among_ancestors(dom_view(nodes@), i as int, k as nat) is None,
{
    let ghost n = dom_view(nodes@);
    let mut cur = i;
    let mut left = k;
    while left > 0
        invariant
            n == dom_view(nodes@),
            cur < nodes@.len(),
            element_among_ancestors(n, i as int, k as nat) == element_among_ancestors(
                n,
                cur as int,
                left as nat,
            ),
        decreases left,
    {
        match parent_exec(nodes, cur) {
            None => {
                return None;
            },
            Some(p) => {
                if is_element_exec(nodes, p) {
                    return Some(p);
                }
                cur = p;
                left -= 1;
            },
        }
    }
    None
}

/// Whether element `j` matches selector `s`.
pub fn matches_exec(nodes: &Vec<DomNode>, j: usize, s: usize) -> (b: bool)
    requires
        j < nodes@.len(),
    ensures
        b == matches_sel(dom_view(nodes@), j as int, s as int),
{
    match &nodes[j].kind {
        DomKind::Element(_, _) => s < nodes[j].matches.len() && nodes[j].matches[s],
        _ => false,
    }
}

/// The elements among `from..to` that match selector `s`.
pub fn select_range_exec(nodes: &Vec<DomNode>, s: usize, from: usize, to: usize) -> (r: Vec<usize>)
    requires
        from <= to <= nodes@.len(),
    ensures
        r@.map_values(|x: usize| x as int) == select_range(
            dom_view(nodes@),
            s as int,
            from as int,
            to as int,
        ),
        forall|k: int| 0 <= k < r@.len() ==> from <= #[trigger] r@[k] < to,
{
    let mut r: Vec<usize> = Vec::new();
    let mut j = from;
    while j < to
        invariant
            from <= j <= to <= nodes@.len(),
            r@.map_values(|x: usize| x as int) == select_range(
                dom_view(nodes@),
                s as int,
                from as int,
                j as int,
            ),
            forall|k: int| 0 <= k < r@.len() ==> from <= #[trigger] r@[k] < j,
        decreases to - j,
    {
        let ghost before = r@;
        if matches_exec(nodes, j, s) {
            r.push(j);
            assert(r@.map_values(|x: usize| x as int) =~= before.map_values(|x: usize| x as int).push(
                j as int,
            ));
        }
        j += 1;
    }
    r
}

/// The descendants of `c` that match selector `s`.
pub fn select_within_exec(nodes: &Vec<DomNode>, c: usize, s: usize) -> (r: Vec<usize>)
    requires
        c < nodes@.len(),
    ensures
        r@.map_values(|x: usize| x as int) == select_within(dom_view(nodes@), c as int, s as int),
        forall|k: int| 0 <= k < r@.len() ==> #[trigger] r@[k] < nodes@.len(),
{
    let e = subtree_end_exec(nodes, c);
    select_range_exec(nodes, s, c + 1, e)
}

/// The elements of the document that match selector `s`.
pub fn select_all_exec(nodes: &Vec<DomNode>, s: usize) -> (r: Vec<usize>)
    ensures
        r@.map_values(|x: usize| x as int) == select_all(dom_view(nodes@), s as int),
        forall|k: int| 0 <= k < r@.len() ==> #[trigger] r@[k] < nodes@.len(),
{
    select_range_exec(nodes, s, 0, nodes.len())
}

/// The text of node `i` and its descendants.
pub fn text_of_exec(nodes: &Vec<DomNode>, i: usize) -> (r: String)
    requires
        i < nodes@.len(),
    ensures
        r@ == text_of(dom_view(nodes@), i as int),
{
    let ghost n = dom_view(nodes@);
    let e = subtree_end_exec(nodes, i);
    let mut r = String::new();
    let mut j = i;
    while j < e
        invariant
            n == dom_view(nodes@),
            i <= j <= e <= nodes@.len(),
            r@ == text_range(n, i as int, j as int),
        decreases e - j,
    {
        match &nodes[j].kind {
            DomKind::Text(t) => {
                append(&mut r, t.as_str());
            },
            _ => {},
        }
        j += 1;
    }
    r
}

/// Whether some ancestor of `j` is a script or style element.
pub fn under_script_exec(nodes: &Vec<DomNode>, j: usize) -> (b: bool)
    requires
        j < nodes@.len(),
    ensures
        b == under_script(dom_view(nodes@), j as int),
{
    let ghost n = dom_view(nodes@);
    let mut cur = j;
    loop
        invariant
            n == dom_view(nodes@),
            cur <= j < nodes@.len(),
            under_script(n, j as int) == under_script(n, cur as int),
        decreases cur,
    {
        match parent_exec(nodes, cur) {
            None => {
                return false;
            },
            Some(p) => {
                let hit = match &nodes[p].kind {
                    DomKind::Element(name, _) => {
                        let a = str_eq(name.as_str(), "script");
                        let b = str_eq(name.as_str(), "style");
                        proof {
                            reveal_strlit("script");
                            reveal_strlit("style");
                            assert("script"@ =~= seq!['s', 'c', 'r', 'i', 'p', 't']);
                            assert("style"@ =~= seq!['s', 't', 'y', 'l', 'e']);
                        }
                        a || b
                    },
                    _ => false,
                };
                if hit {
                    return true;
                }
                cur = p;
            },
        }
    }
}

/// The text of node `i` and its descendants outside script and style elements.
pub fn visible_text_exec(nodes: &Vec<DomNode>, i: usize) -> (r: String)
    requires
        i < nodes@.len(),
    ensures
        r@ == visible_text_of(dom_view(nodes@), i as int),
{
    let ghost n = dom_view(nodes@);
    let e = subtree_end_exec(nodes, i);
    let mut r = String::new();
    let mut j = i;
    while j < e
        invariant
            n == dom_view(nodes@),
            i <= j <= e <= nodes@.len(),
            r@ == visible_text_range(n, i as int, j as int),
        decreases e - j,
    {
        match &nodes[j].kind {
            DomKind::Text(t) => {
                if !under_script_exec(nodes, j) {
                    append(&mut r, t.as_str());
                }
            },
            _ => {},
        }
        j += 1;
    }
    r
}

/// The value of requested attribute `a` of node `i`.
pub fn attr_exec(nodes: &Vec<DomNode>, i: usize, a: usize) -> (r: Option<String>)
    requires
        i < nodes@.len(),
    ensures
        opt_view(r) == attr(dom_view(nodes@), i as int, a as int),
{
    match &nodes[i].kind {
        DomKind::Element(_, attrs) => {
            if a < attrs.len() {
                match &attrs[a] {
                    Some(v) => Some(copy_str(v.as_str())),
                    None => None,
                }
            } else {
                None
            }
        },
        _ => None,
    }
}

} // verus!
