//! Document assembly: the plans and the fetched pages of a run become a
//! two-level document — one feed section per configured feed, in
//! configuration order, holding one article section per surviving article,
//! in feed order. A missing page, an absent article container or an empty
//! block sequence contributes nothing; building never fails.
use vstd::prelude::*;
use vstd::string::*;

use crate::dom::dom_of;
use crate::dom::strs_view;
use crate::extract::blocks_view;
use crate::extract::extract_blocks;
use crate::extract::spec_blocks;
use crate::feed::ArticlePlanV;
use crate::feed::FeedPlan;
use crate::feed::FeedPlanV;
use crate::feed::plans_view;
use crate::render::render_fragment;
use crate::render::render_shell;
use crate::render::rendered_fragment;
use crate::render::rendered_shell;

verus! {

/// One article's node in the output hierarchy: the index its entry had
/// within its feed, the entry's title, and the rendered fragment.
#[derive(Debug, PartialEq, Eq)]
pub struct ArticleSection {
    pub entry_index: usize,
    pub title: String,
    pub body: String,
}

/// One feed's node in the output hierarchy: its title, the rendered shell
/// holding that title, and its article sections in feed order.
#[derive(Debug, PartialEq, Eq)]
pub struct FeedSection {
    pub title: String,
    pub body: String,
    pub articles: Vec<ArticleSection>,
}

/// The assembled output document: metadata title, author, and the feed
/// sections in configuration order.
#[derive(Debug, PartialEq, Eq)]
pub struct Document {
    pub title: String,
    pub author: String,
    pub feeds: Vec<FeedSection>,
}

pub ghost struct ArticleSecV {
    pub entry_index: int,
    pub title: Seq<char>,
    pub body: Seq<char>,
}

pub ghost struct FeedSecV {
    pub title: Seq<char>,
    pub body: Seq<char>,
    pub articles: Seq<ArticleSecV>,
}

pub ghost struct DocV {
    pub title: Seq<char>,
    pub author: Seq<char>,
    pub feeds: Seq<FeedSecV>,
}

impl View for ArticleSection {
    type V = ArticleSecV;

    open spec fn view(&self) -> ArticleSecV {
        ArticleSecV { entry_index: self.entry_index as int, title: self.title@, body: self.body@ }
    }
}

impl View for FeedSection {
    type V = FeedSecV;

    open spec fn view(&self) -> FeedSecV {
        FeedSecV {
            title: self.title@,
            body: self.body@,
            articles: self.articles@.map_values(|a: ArticleSection| a@),
        }
    }
}

impl View for Document {
    type V = DocV;

    open spec fn view(&self) -> DocV {
        DocV {
            title: self.title@,
            author: self.author@,
            feeds: self.feeds@.map_values(|f: FeedSection| f@),
        }
    }
}

pub open spec fn page_view(p: Option<String>) -> Option<Seq<char>> {
    match p {
        Some(s) => Some(s@),
        None => None,
    }
}

pub open spec fn feed_pages_view(v: Seq<Option<String>>) -> Seq<Option<Seq<char>>> {
    v.map_values(|p: Option<String>| page_view(p))
}

pub open spec fn pages_view(v: Seq<Vec<Option<String>>>) -> Seq<Seq<Option<Seq<char>>>> {
    v.map_values(|w: Vec<Option<String>>| feed_pages_view(w@))
}

/// The section one planned article yields: `None` when its page was not
/// fetched, when no article container survives pruning, or when the
/// container yields no blocks; else the rendered fragment under the entry's
/// title and original index.
pub open spec fn spec_article(
    p: ArticlePlanV,
    page: Option<Seq<char>>,
    excl: Seq<Seq<char>>,
) -> Option<ArticleSecV> {
    match page {
        None => None,
        Some(html) => match spec_blocks(dom_of(html), excl) {
            None => None,
            Some(bs) => if bs.len() == 0 {
                None
            } else {
                Some(ArticleSecV { entry_index: p.0, title: p.1, body: rendered_fragment(bs) })
            },
        },
    }
}

/// The article sections the first `k` planned articles of one feed yield, in
/// feed order; skipped articles contribute nothing.
pub open spec fn spec_articles_upto(
    ps: Seq<ArticlePlanV>,
    pages: Seq<Option<Seq<char>>>,
    excl: Seq<Seq<char>>,
    k: int,
) -> Seq<ArticleSecV>
    decreases k,
{
    if k <= 0 {
        Seq::empty()
    } else {
        spec_articles_upto(ps, pages, excl, k - 1) + match spec_article(
            ps[k - 1],
            pages[k - 1],
            excl,
        ) {
            Some(a) => seq![a],
            None => Seq::empty(),
        }
    }
}

/// The section one feed yields: its title, the rendered shell, and its
/// surviving article sections.
pub open spec fn spec_feed(
    p: FeedPlanV,
    pages: Seq<Option<Seq<char>>>,
    excl: Seq<Seq<char>>,
) -> FeedSecV {
    FeedSecV {
        title: p.0,
        body: rendered_shell(p.0),
        articles: spec_articles_upto(p.1, pages, excl, p.1.len() as int),
    }
}

pub open spec fn spec_feeds_upto(
    ps: Seq<FeedPlanV>,
    pages: Seq<Seq<Option<Seq<char>>>>,
    excl: Seq<Seq<char>>,
    k: int,
) -> Seq<FeedSecV>
    decreases k,
{
    if k <= 0 {
        Seq::empty()
    } else {
        spec_feeds_upto(ps, pages, excl, k - 1).push(spec_feed(ps[k - 1], pages[k - 1], excl))
    }
}

/// The document a whole run yields: a pure function of the metadata, the
/// plans, the fetched pages and the exclusion set.
pub open spec fn spec_document(
    title: Seq<char>,
    author: Seq<char>,
    ps: Seq<FeedPlanV>,
    pages: Seq<Seq<Option<Seq<char>>>>,
    excl: Seq<Seq<char>>,
) -> DocV {
    DocV { title, author, feeds: spec_feeds_upto(ps, pages, excl, ps.len() as int) }
}

/// Assembles the document of a run: one feed section per plan, in plan
/// order, each holding one article section per surviving article, in feed
/// order. `pages` holds, for each feed, one slot per planned article — `None`
/// where the fetch failed. Building never fails; skipped articles are a
/// silent no-op.
pub fn build_document(
    title: &str,
    author: &str,
    plans: &Vec<FeedPlan>,
    pages: &Vec<Vec<Option<String>>>,
    excluded: &Vec<String>,
) -> (r: Document)
    requires
        pages@.len() == plans@.len(),
        forall|i: int|
            0 <= i < plans@.len() ==> (#[trigger] pages@[i])@.len()
                == plans@[i].articles@.len(),
    ensures
        r@ == spec_document(
            title@,
            author@,
            plans_view(plans@),
            pages_view(pages@),
            strs_view(excluded@),
        ),
{
    let ghost ps = plans_view(plans@);
    let ghost pg = pages_view(pages@);
    let ghost excl = strs_view(excluded@);
    let mut feeds: Vec<FeedSection> = Vec::new();
    let mut i: usize = 0;
    while i < plans.len()
        invariant
            ps == plans_view(plans@),
            pg == pages_view(pages@),
            excl == strs_view(excluded@),
            pages@.len() == plans@.len(),
            forall|k: int|
                0 <= k < plans@.len() ==> (#[trigger] pages@[k])@.len()
                    == plans@[k].articles@.len(),
            i <= plans@.len(),
            feeds@.map_values(|f: FeedSection| f@) == spec_feeds_upto(ps, pg, excl, i as int),
        decreases plans@.len() - i,
    {
        let plan = &plans[i];
        let feed_pages = &pages[i];
        let ghost aps = ps[i as int].1;
        let ghost apg = pg[i as int];
        let mut articles: Vec<ArticleSection> = Vec::new();
        let mut j: usize = 0;
        proof {
            assert(aps =~= plan@.1);
            assert(apg =~= feed_pages_view(feed_pages@));
        }
        while j < plan.articles.len()
            invariant
                aps == plan@.1,
                apg == feed_pages_view(feed_pages@),
                excl == strs_view(excluded@),
                feed_pages@.len() == plan.articles@.len(),
                j <= plan.articles@.len(),
                articles@.map_values(|a: ArticleSection| a@) == spec_articles_upto(
                    aps,
                    apg,
                    excl,
                    j as int,
                ),
            decreases plan.articles@.len() - j,
        {
            match &feed_pages[j] {
                None => {},
                Some(html) => {
                    match extract_blocks(html.as_str(), excluded) {
                        None => {},
                        Some(bs) => {
                            if bs.len() > 0 {
                                let ap = &plan.articles[j];
                                let body = render_fragment(&bs);
                                articles.push(
                                    ArticleSection {
                                        entry_index: ap.entry_index,
                                        title: ap.title.clone(),
                                        body,
                                    },
                                );
                            }
                        },
                    }
                },
            }
            proof {
                assert(aps[j as int] == plan.articles@[j as int]@);
                assert(apg[j as int] == page_view(feed_pages@[j as int]));
                let cur = articles@.map_values(|a: ArticleSection| a@);
                assert(cur =~= spec_articles_upto(aps, apg, excl, j as int + 1));
            }
            j += 1;
        }
        let body = render_shell(plan.title.as_str());
        let title_copy = plan.title.clone();
        feeds.push(FeedSection { title: title_copy, body, articles });
        proof {
            assert(spec_articles_upto(aps, apg, excl, plan.articles@.len() as int) =~= articles@
                .map_values(|a: ArticleSection| a@));
            assert(feeds@.map_values(|f: FeedSection| f@) =~= spec_feeds_upto(
                ps,
                pg,
                excl,
                i as int + 1,
            ));
        }
        i += 1;
    }
    let doc = Document { title: String::from_str(title), author: String::from_str(author), feeds };
    proof {
        assert(doc@ =~= spec_document(title@, author@, ps, pg, excl));
    }
    doc
}

/// A skipped article — missing page, absent container or empty block
/// sequence — contributes zero sections: the feed's article sections are
/// exactly those of the plan without it.
pub proof fn lemma_skipped_article_contributes_nothing(
    ps: Seq<ArticlePlanV>,
    pages: Seq<Option<Seq<char>>>,
    excl: Seq<Seq<char>>,
    k: int,
    j: int,
)
    requires
        0 <= j < k <= ps.len(),
        k <= pages.len(),
        spec_article(ps[j], pages[j], excl) is None,
    ensures
        spec_articles_upto(ps, pages, excl, k) == spec_articles_upto(
            ps.remove(j),
            pages.remove(j),
            excl,
            k - 1,
        ),
    decreases k,
{
    if j == k - 1 {
        assert(spec_articles_upto(ps, pages, excl, k) =~= spec_articles_upto(
            ps,
            pages,
            excl,
            k - 1,
        ));
        lemma_articles_upto_agree(ps, pages, ps.remove(j), pages.remove(j), excl, k - 1);
    } else {
        lemma_skipped_article_contributes_nothing(ps, pages, excl, k - 1, j);
        assert(ps.remove(j)[k - 2] == ps[k - 1]);
        assert(pages.remove(j)[k - 2] == pages[k - 1]);
    }
}

/// Article sections depend only on the prefix of plans and pages they read.
proof fn lemma_articles_upto_agree(
    ps1: Seq<ArticlePlanV>,
    pages1: Seq<Option<Seq<char>>>,
    ps2: Seq<ArticlePlanV>,
    pages2: Seq<Option<Seq<char>>>,
    excl: Seq<Seq<char>>,
    k: int,
)
    requires
        forall|j: int| 0 <= j < k ==> ps1[j] == ps2[j] && pages1[j] == pages2[j],
    ensures
        spec_articles_upto(ps1, pages1, excl, k) == spec_articles_upto(ps2, pages2, excl, k),
    decreases k,
{
    if k > 0 {
        lemma_articles_upto_agree(ps1, pages1, ps2, pages2, excl, k - 1);
    }
}

/// Running the pipeline twice over identical inputs yields the identical
/// document: assembly is a pure function of the metadata, the plans, the
/// pages and the exclusion set.
pub proof fn lemma_assembly_deterministic(
    title: Seq<char>,
    author: Seq<char>,
    ps: Seq<FeedPlanV>,
    pages: Seq<Seq<Option<Seq<char>>>>,
    excl: Seq<Seq<char>>,
    d1: DocV,
    d2: DocV,
)
    requires
        d1 == spec_document(title, author, ps, pages, excl),
        d2 == spec_document(title, author, ps, pages, excl),
    ensures
        d1 == d2,
{
}

} // verus!
