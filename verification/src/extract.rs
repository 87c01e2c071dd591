//! The content extractor: prunes every node that matches the exclusion set
//! (with its whole subtree), locates the first article container in document
//! order, and linearizes the container's headings and paragraphs into an
//! ordered sequence of content blocks, each carrying the concatenated text of
//! its surviving descendants.
use vstd::prelude::*;
use vstd::string::*;

use crate::dom::FlatNode;
use crate::dom::FlatV;
use crate::dom::covered;
use crate::dom::dom_of;
use crate::dom::is_excluded;
use crate::dom::compute_removed;
use crate::dom::nodes_view;
use crate::dom::parse_html;
use crate::dom::strs_view;
use crate::dom::subtree_end;
use crate::dom::subtree_end_exec;
use crate::dom::lemma_span_end_from;

verus! {

/// The semantic kind of one extracted block: a heading of level one to three,
/// or a paragraph.
#[derive(Clone, Copy, Debug, PartialEq, Eq, Structural)]
pub enum BlockKind {
    Heading1,
    Heading2,
    Heading3,
    Paragraph,
}

/// One semantic unit of extracted article content: its kind and the
/// concatenation of all its surviving descendant text, in document order,
/// with no added separators.
#[derive(Debug, PartialEq, Eq)]
pub struct ContentBlock {
    pub kind: BlockKind,
    pub text: String,
}

/// The mathematical value of a [`ContentBlock`]: kind and text.
pub type BlockV = (BlockKind, Seq<char>);

impl View for ContentBlock {
    type V = BlockV;

    open spec fn view(&self) -> BlockV {
        (self.kind, self.text@)
    }
}

pub open spec fn blocks_view(bs: Seq<ContentBlock>) -> Seq<BlockV> {
    bs.map_values(|b: ContentBlock| b@)
}

/// The block kind an element tag qualifies as, if any: `h1`, `h2` and `h3`
/// are headings, `p` is a paragraph, every other tag yields no block.
pub open spec fn tag_kind(t: Seq<char>) -> Option<BlockKind> {
    if t == "h1"@ {
        Some(BlockKind::Heading1)
    } else if t == "h2"@ {
        Some(BlockKind::Heading2)
    } else if t == "h3"@ {
        Some(BlockKind::Heading3)
    } else if t == "p"@ {
        Some(BlockKind::Paragraph)
    } else {
        None
    }
}

pub open spec fn node_kind(n: FlatV) -> Option<BlockKind> {
    match n.1 {
        Some(t) => tag_kind(t),
        None => None,
    }
}

pub open spec fn kind_of(n: FlatV) -> BlockKind {
    match node_kind(n) {
        Some(k) => k,
        None => BlockKind::Paragraph,
    }
}

/// Whether the node at `i` yields a block: it survives pruning and is a
/// heading or paragraph element.
pub open spec fn qual(s: Seq<FlatV>, excl: Seq<Seq<char>>, i: int) -> bool {
    &&& 0 <= i < s.len()
    &&& !covered(s, excl, i)
    &&& node_kind(s[i]) is Some
}

pub open spec fn text_or_empty(n: FlatV) -> Seq<char> {
    match n.3 {
        Some(t) => t,
        None => Seq::empty(),
    }
}

/// The concatenated text of the surviving nodes in positions `[lo, hi)`, in
/// document order.
pub open spec fn text_upto(s: Seq<FlatV>, excl: Seq<Seq<char>>, lo: int, hi: int) -> Seq<char>
    decreases hi - lo,
{
    if lo >= hi {
        Seq::empty()
    } else {
        text_upto(s, excl, lo, hi - 1) + if !covered(s, excl, hi - 1) {
            text_or_empty(s[hi - 1])
        } else {
            Seq::empty()
        }
    }
}

/// The text of the block rooted at `i`: the concatenation of all surviving
/// descendant text, in document order.
pub open spec fn node_text(s: Seq<FlatV>, excl: Seq<Seq<char>>, i: int) -> Seq<char> {
    text_upto(s, excl, i + 1, subtree_end(s, i))
}

/// The blocks the positions `[lo, hi)` yield, in document order.
pub open spec fn blocks_upto(s: Seq<FlatV>, excl: Seq<Seq<char>>, lo: int, hi: int) -> Seq<
    BlockV,
>
    decreases hi - lo,
{
    if lo >= hi {
        Seq::empty()
    } else {
        blocks_upto(s, excl, lo, hi - 1) + if qual(s, excl, hi - 1) {
            seq![(kind_of(s[hi - 1]), node_text(s, excl, hi - 1))]
        } else {
            Seq::empty()
        }
    }
}

pub open spec fn is_article(n: FlatV) -> bool {
    n.1 == Some("article"@)
}

/// The first surviving article element at or after position `i`, in document
/// order.
pub open spec fn first_article_from(s: Seq<FlatV>, excl: Seq<Seq<char>>, i: int) -> Option<int>
    decreases s.len() - i,
{
    if i >= s.len() {
        None
    } else if !covered(s, excl, i) && is_article(s[i]) {
        Some(i)
    } else {
        first_article_from(s, excl, i + 1)
    }
}

/// What extraction yields for a pruned page: `None` when no article container
/// survives, else the blocks of the first surviving container, in document
/// order.
pub open spec fn spec_blocks(s: Seq<FlatV>, excl: Seq<Seq<char>>) -> Option<Seq<BlockV>> {
    match first_article_from(s, excl, 0) {
        None => None,
        Some(a) => Some(blocks_upto(s, excl, a + 1, subtree_end(s, a))),
    }
}

/// The positions in `[lo, hi)` that yield a block, in document order.
pub open spec fn qual_indices(s: Seq<FlatV>, excl: Seq<Seq<char>>, lo: int, hi: int) -> Seq<int>
    decreases hi - lo,
{
    if lo >= hi {
        Seq::empty()
    } else {
        qual_indices(s, excl, lo, hi - 1) + if qual(s, excl, hi - 1) {
            seq![hi - 1]
        } else {
            Seq::empty()
        }
    }
}

/// Document order: the extracted blocks are exactly one block per
/// qualifying surviving position, and those positions come in strictly
/// increasing document order.
pub proof fn lemma_blocks_in_document_order(
    s: Seq<FlatV>,
    excl: Seq<Seq<char>>,
    lo: int,
    hi: int,
)
    ensures
        blocks_upto(s, excl, lo, hi) == qual_indices(s, excl, lo, hi).map_values(
            |i: int| (kind_of(s[i]), node_text(s, excl, i)),
        ),
        forall|p: int, q: int|
            0 <= p < q < qual_indices(s, excl, lo, hi).len() ==> #[trigger] qual_indices(
                s,
                excl,
                lo,
                hi,
            )[p] < #[trigger] qual_indices(s, excl, lo, hi)[q],
        forall|p: int|
            0 <= p < qual_indices(s, excl, lo, hi).len() ==> lo <= #[trigger] qual_indices(
                s,
                excl,
                lo,
                hi,
            )[p] < hi && qual(s, excl, qual_indices(s, excl, lo, hi)[p]),
    decreases hi - lo,
{
    let f = |i: int| (kind_of(s[i]), node_text(s, excl, i));
    if lo >= hi {
        assert(blocks_upto(s, excl, lo, hi) =~= qual_indices(s, excl, lo, hi).map_values(f));
    } else {
        lemma_blocks_in_document_order(s, excl, lo, hi - 1);
        assert(blocks_upto(s, excl, lo, hi) =~= qual_indices(s, excl, lo, hi).map_values(f));
    }
}

/// Exclusion: a node that matches the exclusion set contributes nothing to
/// the extraction — no position in its subtree, itself included, yields a
/// block.
pub proof fn lemma_excluded_subtree_absent(
    s: Seq<FlatV>,
    excl: Seq<Seq<char>>,
    lo: int,
    hi: int,
    k: int,
)
    requires
        0 <= k < s.len(),
        is_excluded(s[k], excl),
    ensures
        forall|p: int|
            0 <= p < qual_indices(s, excl, lo, hi).len() ==> !(k <= #[trigger] qual_indices(
                s,
                excl,
                lo,
                hi,
            )[p] < subtree_end(s, k)),
{
    lemma_blocks_in_document_order(s, excl, lo, hi);
    assert forall|p: int| 0 <= p < qual_indices(s, excl, lo, hi).len() implies !(k
        <= #[trigger] qual_indices(s, excl, lo, hi)[p] < subtree_end(s, k)) by {
        let idx = qual_indices(s, excl, lo, hi)[p];
        if k <= idx < subtree_end(s, k) {
            assert(covered(s, excl, idx));
        }
    }
}

/// Preservation: a surviving heading or paragraph outside every matched
/// subtree yields its block — its position is among the extracted ones.
pub proof fn lemma_sibling_content_preserved(
    s: Seq<FlatV>,
    excl: Seq<Seq<char>>,
    lo: int,
    hi: int,
    i: int,
)
    requires
        lo <= i < hi,
        qual(s, excl, i),
    ensures
        qual_indices(s, excl, lo, hi).contains(i),
    decreases hi - lo,
{
    if i == hi - 1 {
        let pre = qual_indices(s, excl, lo, hi - 1);
        assert(qual_indices(s, excl, lo, hi)[pre.len() as int] == i);
    } else {
        lemma_sibling_content_preserved(s, excl, lo, hi - 1, i);
        let pre = qual_indices(s, excl, lo, hi - 1);
        let p = choose|p: int| 0 <= p < pre.len() && pre[p] == i;
        assert(qual_indices(s, excl, lo, hi)[p] == i);
    }
}

/// The fixed exclusion set for the targeted sites' markup conventions:
/// footer blocks, inline video wrappers, external-embed placeholders, boxed
/// asides and — deliberately, as a known simplification rather than an
/// in-place restyling — info-box callouts.
pub fn default_exclusions() -> (r: Vec<String>)
    ensures
        strs_view(r@) == seq![
            "copytext-element-wrapper"@,
            "meldungsfooter"@,
            "copytext__video"@,
            "external-embed__placeholder"@,
            "infobox"@,
        ],
{
    let mut v: Vec<String> = Vec::new();
    v.push(String::from_str("copytext-element-wrapper"));
    v.push(String::from_str("meldungsfooter"));
    v.push(String::from_str("copytext__video"));
    v.push(String::from_str("external-embed__placeholder"));
    v.push(String::from_str("infobox"));
    proof {
        assert(strs_view(v@) =~= seq![
            "copytext-element-wrapper"@,
            "meldungsfooter"@,
            "copytext__video"@,
            "external-embed__placeholder"@,
            "infobox"@,
        ]);
    }
    v
}

/// Whether this node is an element with the given tag.
fn node_tag_is(n: &FlatNode, t: &str) -> (b: bool)
    ensures
        b == (n@.1 == Some(t@)),
{
    match &n.tag {
        Some(nt) => nt.eq(&String::from_str(t)),
        None => false,
    }
}

/// The block kind this node qualifies as, if any.
fn node_kind_exec(n: &FlatNode) -> (r: Option<BlockKind>)
    ensures
        r == node_kind(n@),
{
    if node_tag_is(n, "h1") {
        Some(BlockKind::Heading1)
    } else if node_tag_is(n, "h2") {
        Some(BlockKind::Heading2)
    } else if node_tag_is(n, "h3") {
        Some(BlockKind::Heading3)
    } else if node_tag_is(n, "p") {
        Some(BlockKind::Paragraph)
    } else {
        None
    }
}

/// The concatenated text of the surviving descendants of the node at `i`.
fn collect_text(
    nodes: &Vec<FlatNode>,
    removed: &Vec<bool>,
    i: usize,
    Ghost(excl): Ghost<Seq<Seq<char>>>,
) -> (t: String)
    requires
        i < nodes@.len(),
        removed@.len() == nodes@.len(),
        forall|j: int|
            0 <= j < nodes@.len() ==> removed@[j] == covered(nodes_view(nodes@), excl, j),
    ensures
        t@ == node_text(nodes_view(nodes@), excl, i as int),
{
    let ghost s = nodes_view(nodes@);
    let e = subtree_end_exec(nodes, i);
    proof {
        lemma_span_end_from(s, s[i as int].0, i as int + 1);
    }
    let mut out = String::new();
    let mut j: usize = i + 1;
    while j < e
        invariant
            s == nodes_view(nodes@),
            removed@.len() == nodes@.len(),
            forall|k: int| 0 <= k < nodes@.len() ==> removed@[k] == covered(s, excl, k),
            i < nodes@.len(),
            e == subtree_end(s, i as int),
            i < j <= e || (j == i + 1 && e <= i + 1),
            e <= nodes@.len(),
            out@ == text_upto(s, excl, i as int + 1, j as int),
        decreases e - j,
    {
        if !removed[j] {
            match &nodes[j].text {
                Some(tx) => out.append(tx.as_str()),
                None => {},
            }
        }
        proof {
            assert(out@ =~= text_upto(s, excl, i as int + 1, j as int + 1));
        }
        j += 1;
    }
    proof {
        if e <= i + 1 {
            assert(out@ =~= text_upto(s, excl, i as int + 1, e as int));
        }
    }
    out
}

/// The content extractor. Parses the page, prunes every node matching the
/// exclusion set together with its subtree, locates the first surviving
/// article container in document order, and returns one block per surviving
/// heading (levels one to three) or paragraph within it, in document order,
/// each with the concatenated text of its surviving descendants. Returns
/// `None` exactly when no article container survives; a container without
/// qualifying content yields `Some` of an empty sequence.
pub fn extract_blocks(html: &str, excluded: &Vec<String>) -> (r: Option<Vec<ContentBlock>>)
    ensures
        match r {
            Some(bs) => spec_blocks(dom_of(html@), strs_view(excluded@)) == Some(
                blocks_view(bs@),
            ),
            None => spec_blocks(dom_of(html@), strs_view(excluded@)) is None,
        },
{
    let nodes = parse_html(html);
    let removed = compute_removed(&nodes, excluded);
    let ghost s = nodes_view(nodes@);
    let ghost excl = strs_view(excluded@);
    let n = nodes.len();
    let mut art: Option<usize> = None;
    let mut i: usize = 0;
    while i < n && art.is_none()
        invariant
            n == nodes@.len(),
            s == nodes_view(nodes@),
            excl == strs_view(excluded@),
            removed@.len() == nodes@.len(),
            forall|k: int| 0 <= k < nodes@.len() ==> removed@[k] == covered(s, excl, k),
            i <= n,
            art is None ==> first_article_from(s, excl, 0) == first_article_from(
                s,
                excl,
                i as int,
            ),
            match art {
                Some(a) => first_article_from(s, excl, 0) == Some(a as int) && a < n,
                None => true,
            },
        decreases n - i + (if art is None { 1int } else { 0int }),
    {
        if !removed[i] && node_tag_is(&nodes[i], "article") {
            art = Some(i);
        } else {
            i += 1;
        }
    }
    let a = match art {
        Some(a) => a,
        None => {
            return None;
        },
    };
    let end_c = subtree_end_exec(&nodes, a);
    proof {
        lemma_span_end_from(s, s[a as int].0, a as int + 1);
    }
    let mut blocks: Vec<ContentBlock> = Vec::new();
    let mut j: usize = a + 1;
    while j < end_c
        invariant
            n == nodes@.len(),
            s == nodes_view(nodes@),
            excl == strs_view(excluded@),
            removed@.len() == nodes@.len(),
            forall|k: int| 0 <= k < nodes@.len() ==> removed@[k] == covered(s, excl, k),
            a < n,
            end_c == subtree_end(s, a as int),
            end_c <= nodes@.len(),
            a < j <= end_c || (j == a + 1 && end_c <= a + 1),
            blocks_view(blocks@) == blocks_upto(s, excl, a as int + 1, j as int),
        decreases end_c - j,
    {
        if !removed[j] {
            match node_kind_exec(&nodes[j]) {
                Some(kind) => {
                    let text = collect_text(&nodes, &removed, j, Ghost(excl));
                    blocks.push(ContentBlock { kind, text });
                },
                None => {},
            }
        }
        proof {
            assert(blocks_view(blocks@) =~= blocks_upto(s, excl, a as int + 1, j as int + 1));
        }
        j += 1;
    }
    proof {
        if end_c <= a + 1 {
            assert(blocks_view(blocks@) =~= blocks_upto(s, excl, a as int + 1, end_c as int));
        }
    }
    Some(blocks)
}

} // verus!
