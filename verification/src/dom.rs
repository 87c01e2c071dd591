//! The document model an article page parses into: the nodes of the page in
//! document (preorder) order, each with its depth in the tree, its element
//! tag and classes (for element nodes) and its text (for text nodes).
//!
//! A node's subtree is the contiguous run of deeper nodes that follows it, so
//! pruning and extraction are loops over this sequence. A node is *covered*
//! when it matches the exclusion set or lies in the subtree of a node that
//! does; covered nodes are the ones pruning detaches.
use vstd::prelude::*;

verus! {

/// One node of a parsed page, in document order: its depth in the tree, its
/// tag and classes when it is an element, and its text when it is a text
/// node.
pub struct FlatNode {
    pub depth: usize,
    pub tag: Option<String>,
    pub classes: Vec<String>,
    pub text: Option<String>,
}

/// The mathematical value of a [`FlatNode`]: depth, tag, classes, text.
pub type FlatV = (int, Option<Seq<char>>, Seq<Seq<char>>, Option<Seq<char>>);

pub open spec fn strs_view(v: Seq<String>) -> Seq<Seq<char>> {
    v.map_values(|s: String| s@)
}

impl View for FlatNode {
    type V = FlatV;

    open spec fn view(&self) -> FlatV {
        (
            self.depth as int,
            match self.tag {
                Some(t) => Some(t@),
                None => None,
            },
            strs_view(self.classes@),
            match self.text {
                Some(t) => Some(t@),
                None => None,
            },
        )
    }
}

pub open spec fn nodes_view(ns: Seq<FlatNode>) -> Seq<FlatV> {
    ns.map_values(|n: FlatNode| n@)
}

/// What parsing a page yields for a given markup text: the page's nodes in
/// document order. Permissive HTML parsing never fails, and is a pure
/// function of the text, so the result carries a name rather than a
/// definition.
pub uninterp spec fn dom_of(html: Seq<char>) -> Seq<FlatV>;

/// Relies on `scraper::Html::parse_document` (html5ever): permissive HTML
/// parsing never fails and is a pure function of the markup text; the tree's
/// preorder traversal visits the nodes in document order, each element with
/// its tag name as the parser reports it (lowercase for HTML elements) and
/// its classes (sorted and deduplicated by the parser), each text node with
/// its text.
#[verifier::external_body]
pub fn parse_html(html: &str) -> (r: Vec<FlatNode>)
    ensures
        nodes_view(r@) == dom_of(html@),
{
    let doc = scraper::Html::parse_document(html);
    doc.tree.root().descendants().map(|n| match n.value() {
        scraper::Node::Element(e) => FlatNode {
            depth: n.ancestors().count(),
            tag: Some(e.name().to_string()),
            classes: e.classes().map(|c| c.to_string()).collect(),
            text: None,
        },
        scraper::Node::Text(t) => FlatNode {
            depth: n.ancestors().count(), tag: None, classes: Vec::new(), text: Some(t.to_string()),
        },
        _ => FlatNode { depth: n.ancestors().count(), tag: None, classes: Vec::new(), text: None },
    }).collect()
}

/// The first position at or after `j` whose node is no deeper than `d`, or
/// the sequence's length when every later node is deeper.
pub open spec fn span_end_from(s: Seq<FlatV>, d: int, j: int) -> int
    decreases s.len() - j,
{
    if j >= s.len() {
        s.len() as int
    } else if s[j].0 <= d {
        j
    } else {
        span_end_from(s, d, j + 1)
    }
}

/// One past the last node of the subtree rooted at position `i`: the node's
/// subtree is exactly the positions in `(i, subtree_end(s, i))`.
pub open spec fn subtree_end(s: Seq<FlatV>, i: int) -> int {
    span_end_from(s, s[i].0, i + 1)
}

pub proof fn lemma_span_end_from(s: Seq<FlatV>, d: int, j: int)
    requires
        0 <= j <= s.len(),
    ensures
        j <= span_end_from(s, d, j) <= s.len(),
        forall|k: int| j <= k < span_end_from(s, d, j) ==> s[k].0 > d,
        span_end_from(s, d, j) < s.len() ==> s[span_end_from(s, d, j)].0 <= d,
    decreases s.len() - j,
{
    if j >= s.len() {
    } else if s[j].0 <= d {
    } else {
        lemma_span_end_from(s, d, j + 1);
    }
}

/// The end of a span is no later than any position at or after its start
/// whose node is no deeper than `d`.
pub proof fn lemma_span_end_min(s: Seq<FlatV>, d: int, j: int, m: int)
    requires
        0 <= j <= m < s.len(),
        s[m].0 <= d,
    ensures
        span_end_from(s, d, j) <= m,
    decreases m - j,
{
    if j >= s.len() {
    } else if s[j].0 <= d {
    } else {
        lemma_span_end_min(s, d, j + 1, m);
    }
}

/// Subtrees nest: the subtree of a node inside another node's subtree ends no
/// later than the outer subtree.
pub proof fn lemma_span_nesting(s: Seq<FlatV>, i: int, k: int)
    requires
        0 <= i < k < subtree_end(s, i),
        k < s.len(),
    ensures
        subtree_end(s, k) <= subtree_end(s, i),
{
    lemma_span_end_from(s, s[i].0, i + 1);
    let e = subtree_end(s, i);
    assert(s[k].0 > s[i].0);
    if e < s.len() {
        lemma_span_end_min(s, s[k].0, k + 1, e);
    } else {
        lemma_span_end_from(s, s[k].0, k + 1);
    }
}

/// Whether this node matches the exclusion set: some class of the element is
/// one of the excluded class names.
pub open spec fn is_excluded(n: FlatV, excl: Seq<Seq<char>>) -> bool {
    exists|k: int| 0 <= k < n.2.len() && excl.contains(n.2[k])
}

/// Whether the node at position `j` is detached by pruning: it matches the
/// exclusion set itself, or lies in the subtree of a node that does.
pub open spec fn covered(s: Seq<FlatV>, excl: Seq<Seq<char>>, j: int) -> bool {
    exists|k: int| 0 <= k <= j && is_excluded(s[k], excl) && j < subtree_end(s, k)
}

/// Whether some class of this node is in the exclusion set.
pub fn node_is_excluded(n: &FlatNode, excluded: &Vec<String>) -> (b: bool)
    ensures
        b == is_excluded(n@, strs_view(excluded@)),
{
    let ghost excl = strs_view(excluded@);
    let mut a: usize = 0;
    while a < n.classes.len()
        invariant
            a <= n.classes@.len(),
            excl == strs_view(excluded@),
            forall|k: int| 0 <= k < a ==> !excl.contains(n@.2[k]),
        decreases n.classes@.len() - a,
    {
        let mut x: usize = 0;
        while x < excluded.len()
            invariant
                x <= excluded@.len(),
                a < n.classes@.len(),
                excl == strs_view(excluded@),
                forall|y: int| 0 <= y < x ==> excl[y] != n@.2[a as int],
            decreases excluded@.len() - x,
        {
            if excluded[x].eq(&n.classes[a]) {
                proof {
                    assert(excl[x as int] == n@.2[a as int]);
                    assert(excl.contains(n@.2[a as int]));
                }
                return true;
            }
            x += 1;
        }
        proof {
            assert(!excl.contains(n@.2[a as int])) by {
                if excl.contains(n@.2[a as int]) {
                    let y = choose|y: int| 0 <= y < excl.len() && excl[y] == n@.2[a as int];
                    assert(excl[y] != n@.2[a as int]);
                }
            }
        }
        a += 1;
    }
    false
}

/// One past the last node of the subtree rooted at position `i`.
pub fn subtree_end_exec(nodes: &Vec<FlatNode>, i: usize) -> (e: usize)
    requires
        i < nodes@.len(),
    ensures
        e == subtree_end(nodes_view(nodes@), i as int),
{
    let ghost s = nodes_view(nodes@);
    let n = nodes.len();
    let d = nodes[i].depth;
    let mut j: usize = i + 1;
    while j < n && nodes[j].depth > d
        invariant
            n == nodes@.len(),
            i < j <= nodes@.len(),
            s == nodes_view(nodes@),
            d == nodes@[i as int].depth,
            span_end_from(s, d as int, i as int + 1) == span_end_from(s, d as int, j as int),
        decreases nodes@.len() - j,
    {
        j += 1;
    }
    j
}

/// For each position, whether pruning detaches that node: it matches the
/// exclusion set or lies in the subtree of a node that does. A single pass:
/// while inside a matched node's subtree everything is detached, and a match
/// met outside one opens a new span.
pub fn compute_removed(nodes: &Vec<FlatNode>, excluded: &Vec<String>) -> (r: Vec<bool>)
    ensures
        r@.len() == nodes@.len(),
        forall|j: int|
            0 <= j < nodes@.len() ==> r@[j] == covered(
                nodes_view(nodes@),
                strs_view(excluded@),
                j,
            ),
{
    let ghost s = nodes_view(nodes@);
    let ghost excl = strs_view(excluded@);
    let mut removed: Vec<bool> = Vec::new();
    let mut cut: usize = 0;
    let mut i: usize = 0;
    while i < nodes.len()
        invariant
            i <= nodes@.len(),
            s == nodes_view(nodes@),
            excl == strs_view(excluded@),
            removed@.len() == i,
            cut as int <= s.len(),
            forall|j: int| 0 <= j < i ==> removed@[j] == covered(s, excl, j),
            forall|k: int|
                0 <= k < i && is_excluded(s[k], excl) ==> subtree_end(s, k) <= cut as int,
            cut as int > i as int ==> exists|m: int|
                0 <= m < i && is_excluded(s[m], excl) && cut as int == subtree_end(s, m),
        decreases nodes@.len() - i,
    {
        if i < cut {
            proof {
                let m = choose|m: int|
                    0 <= m < i && is_excluded(s[m], excl) && cut as int == subtree_end(s, m);
                assert(covered(s, excl, i as int));
                if is_excluded(s[i as int], excl) {
                    lemma_span_nesting(s, m, i as int);
                }
            }
            removed.push(true);
        } else {
            let ex = node_is_excluded(&nodes[i], excluded);
            if ex {
                let e = subtree_end_exec(nodes, i);
                proof {
                    lemma_span_end_from(s, s[i as int].0, i as int + 1);
                    assert(covered(s, excl, i as int));
                }
                cut = e;
                removed.push(true);
            } else {
                proof {
                    assert(!covered(s, excl, i as int)) by {
                        if covered(s, excl, i as int) {
                            let k = choose|k: int|
                                0 <= k <= i as int && is_excluded(s[k], excl) && (i as int)
                                    < subtree_end(s, k);
                            assert(k < i as int);
                            assert(subtree_end(s, k) <= cut as int);
                        }
                    }
                }
                removed.push(false);
            }
        }
        i += 1;
    }
    removed
}

} // verus!
