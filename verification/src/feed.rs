//! Feed parsing and the time filter: a feed payload becomes a sequence of
//! entries, and a closed interval `[from, to]` of Unix timestamps selects the
//! entries to keep.
use vstd::prelude::*;

use crate::Error;

verus! {

/// One entry of a parsed feed: its title and link as the feed gave them
/// (either may be missing) and its publication time in seconds since the Unix
/// epoch, if the feed gave one.
#[derive(Debug, PartialEq, Eq)]
pub struct Entry {
    pub title: Option<String>,
    pub link: Option<String>,
    pub published: Option<i64>,
}

/// The mathematical value of an [`Entry`]: title, link, publication time.
pub type EntryV = (Option<Seq<char>>, Option<Seq<char>>, Option<i64>);

impl View for Entry {
    type V = EntryV;

    open spec fn view(&self) -> EntryV {
        (
            match self.title {
                Some(t) => Some(t@),
                None => None,
            },
            match self.link {
                Some(l) => Some(l@),
                None => None,
            },
            self.published,
        )
    }
}

impl Clone for Entry {
    fn clone(&self) -> (r: Self)
        ensures
            r == *self,
    {
        Entry {
            title: match &self.title {
                Some(t) => Some(t.clone()),
                None => None,
            },
            link: match &self.link {
                Some(l) => Some(l.clone()),
                None => None,
            },
            published: self.published,
        }
    }
}

pub open spec fn entries_view(es: Seq<Entry>) -> Seq<EntryV> {
    es.map_values(|e: Entry| e@)
}

/// An entry passes the filter when its publication time lies in the closed
/// window `[from, to]`; an entry without a publication time always passes.
pub open spec fn in_window(e: EntryV, from: i64, to: i64) -> bool {
    match e.2 {
        Some(t) => from <= t && t <= to,
        None => true,
    }
}

/// The subsequence of `s` whose entries pass the window, in their original
/// order.
pub open spec fn filtered(s: Seq<EntryV>, from: i64, to: i64) -> Seq<EntryV>
    decreases s.len(),
{
    if s.len() == 0 {
        Seq::empty()
    } else {
        filtered(s.drop_last(), from, to) + if in_window(s.last(), from, to) {
            seq![s.last()]
        } else {
            Seq::empty()
        }
    }
}

/// Whether this entry's publication time lies in `[from, to]` (an entry
/// without one always does).
pub fn entry_in_window(e: &Entry, from: i64, to: i64) -> (b: bool)
    ensures
        b == in_window(e@, from, to),
{
    match e.published {
        Some(t) => from <= t && t <= to,
        None => true,
    }
}

/// The time filter: keeps exactly the entries whose publication time, if
/// present, lies in the closed window `[from, to]`, in their original order.
pub fn filter_entries(entries: &Vec<Entry>, from: i64, to: i64) -> (r: Vec<Entry>)
    ensures
        entries_view(r@) == filtered(entries_view(entries@), from, to),
{
    let ghost all = entries_view(entries@);
    let mut out: Vec<Entry> = Vec::new();
    let mut i: usize = 0;
    while i < entries.len()
        invariant
            i <= entries.len(),
            all == entries_view(entries@),
            entries_view(out@) == filtered(all.take(i as int), from, to),
        decreases entries.len() - i,
    {
        let keep = entry_in_window(&entries[i], from, to);
        let ghost prev = entries_view(out@);
        if keep {
            out.push(entries[i].clone());
        }
        proof {
            assert(all.take(i + 1 as int).drop_last() =~= all.take(i as int));
            assert(all.take(i + 1 as int).last() == entries@[i as int]@);
            if keep {
                assert(entries_view(out@) =~= prev + seq![entries@[i as int]@]);
            } else {
                assert(entries_view(out@) =~= prev + Seq::<EntryV>::empty());
            }
        }
        i += 1;
    }
    proof {
        assert(all.take(entries@.len() as int) =~= all);
    }
    out
}

/// Law of the time filter: the filtered sequence contains an entry value if
/// and only if the input contains it and it passes the window; in particular
/// an entry without a publication time always passes.
pub proof fn lemma_filter_window(s: Seq<EntryV>, from: i64, to: i64, e: EntryV)
    ensures
        filtered(s, from, to).contains(e) <==> (s.contains(e) && in_window(e, from, to)),
    decreases s.len(),
{
    if s.len() == 0 {
    } else {
        lemma_filter_window(s.drop_last(), from, to, e);
        let pre = filtered(s.drop_last(), from, to);
        let tail = if in_window(s.last(), from, to) {
            seq![s.last()]
        } else {
            Seq::<EntryV>::empty()
        };
        assert forall|x: EntryV| (pre + tail).contains(x) implies pre.contains(x)
            || tail.contains(x) by {
            let k = choose|k: int| 0 <= k < (pre + tail).len() && (pre + tail)[k] == x;
            if k < pre.len() {
                assert(pre[k] == x);
            } else {
                assert(tail[k - pre.len()] == x);
            }
        }
        if pre.contains(e) || tail.contains(e) {
            if pre.contains(e) {
                let k = choose|k: int| 0 <= k < pre.len() && pre[k] == e;
                assert((pre + tail)[k] == e);
            } else {
                let k = choose|k: int| 0 <= k < tail.len() && tail[k] == e;
                assert((pre + tail)[pre.len() + k] == e);
            }
        }
        if s.contains(e) && in_window(e, from, to) {
            let k = choose|k: int| 0 <= k < s.len() && s[k] == e;
            if k < s.len() - 1 {
                assert(s.drop_last()[k] == e);
            } else {
                assert(s.last() == e);
                assert(tail[0] == e);
            }
        }
        if s.drop_last().contains(e) {
            let k = choose|k: int| 0 <= k < s.drop_last().len() && s.drop_last()[k] == e;
            assert(s[k] == e);
        }
        if tail.contains(e) {
            assert(s[s.len() - 1] == e);
        }
    }
}

/// What feed parsing yields for a given payload: `None` when the payload is
/// not a recognizable feed, otherwise the entries in the feed's native order.
/// Parsing is a pure function of the bytes, so the result carries a name
/// rather than a definition.
pub uninterp spec fn parsed_feed(xml: Seq<u8>) -> Option<Seq<EntryV>>;

/// Relies on `feed_rs::parser::parse`: it parses an RSS/Atom payload as a pure
/// function of the bytes, yielding the entries in the feed's native order
/// (each with its optional title, first link and publication time), and fails
/// exactly when the payload is not a recognizable feed.
#[verifier::external_body]
fn parse_feed_raw(xml: &Vec<u8>) -> (r: Result<Vec<Entry>, Error>)
    ensures
        match r {
            Ok(es) => parsed_feed(xml@) == Some(entries_view(es@)),
            Err(e) => parsed_feed(xml@) is None && e == Error::Parse,
        },
{
    match feed_rs::parser::parse(xml.as_slice()) {
        Ok(feed) => Ok(
            feed.entries.into_iter().map(
                |e| Entry {
                    title: e.title.map(|t| t.content),
                    link: e.links.into_iter().next().map(|l| l.href),
                    published: e.published.map(|d| d.timestamp()),
                },
            ).collect(),
        ),
        Err(_) => Err(Error::Parse),
    }
}

/// Parses one feed payload into its entries, in the feed's native order.
/// Returns `Error::Parse` exactly when the payload is not a recognizable
/// RSS/Atom feed.
pub fn parse_feed(xml: &Vec<u8>) -> (r: Result<Vec<Entry>, Error>)
    ensures
        match r {
            Ok(es) => parsed_feed(xml@) == Some(entries_view(es@)),
            Err(e) => parsed_feed(xml@) is None && e == Error::Parse,
        },
{
    parse_feed_raw(xml)
}

/// One feed to process: its configured display title and its fetched payload.
pub struct FeedInput {
    pub title: String,
    pub xml: Vec<u8>,
}

pub type FeedInputV = (Seq<char>, Seq<u8>);

impl View for FeedInput {
    type V = FeedInputV;

    open spec fn view(&self) -> FeedInputV {
        (self.title@, self.xml@)
    }
}

/// One article the pipeline will fetch: the index its entry had within its
/// feed (before filtering), the entry's title (empty when the feed gave
/// none), and the page to fetch.
#[derive(Debug, PartialEq, Eq)]
pub struct ArticlePlan {
    pub entry_index: usize,
    pub title: String,
    pub url: String,
}

pub type ArticlePlanV = (int, Seq<char>, Seq<char>);

impl View for ArticlePlan {
    type V = ArticlePlanV;

    open spec fn view(&self) -> ArticlePlanV {
        (self.entry_index as int, self.title@, self.url@)
    }
}

/// One feed's share of a run: its display title and the articles to fetch,
/// in feed order.
#[derive(Debug, PartialEq, Eq)]
pub struct FeedPlan {
    pub title: String,
    pub articles: Vec<ArticlePlan>,
}

pub type FeedPlanV = (Seq<char>, Seq<ArticlePlanV>);

impl View for FeedPlan {
    type V = FeedPlanV;

    open spec fn view(&self) -> FeedPlanV {
        (self.title@, self.articles@.map_values(|a: ArticlePlan| a@))
    }
}

pub open spec fn inputs_view(fs: Seq<FeedInput>) -> Seq<FeedInputV> {
    fs.map_values(|f: FeedInput| f@)
}

pub open spec fn plans_view(ps: Seq<FeedPlan>) -> Seq<FeedPlanV> {
    ps.map_values(|p: FeedPlan| p@)
}

pub open spec fn title_or_empty(e: EntryV) -> Seq<char> {
    match e.0 {
        Some(t) => t,
        None => Seq::empty(),
    }
}

/// What one entry contributes to the plan: nothing when it falls outside the
/// window or has no link, else one article keyed by the entry's index within
/// its feed.
pub open spec fn plan_one(e: EntryV, idx: int, from: i64, to: i64) -> Seq<ArticlePlanV> {
    if in_window(e, from, to) && e.1 is Some {
        seq![(idx, title_or_empty(e), e.1->0)]
    } else {
        Seq::empty()
    }
}

/// The articles a feed's entries contribute, in feed order, each keyed by the
/// index its entry had before filtering (so skipped entries leave gaps).
pub open spec fn planned(s: Seq<EntryV>, from: i64, to: i64) -> Seq<ArticlePlanV>
    decreases s.len(),
{
    if s.len() == 0 {
        Seq::empty()
    } else {
        planned(s.drop_last(), from, to) + plan_one(s.last(), s.len() - 1, from, to)
    }
}

/// The plan one feed yields: `None` exactly when its payload is not a
/// recognizable feed.
pub open spec fn spec_plan(f: FeedInputV, from: i64, to: i64) -> Option<FeedPlanV> {
    match parsed_feed(f.1) {
        None => None,
        Some(es) => Some((f.0, planned(es, from, to))),
    }
}

/// The plan of a whole run: `None` exactly when some feed's payload is not a
/// recognizable feed (a feed that fails aborts the run).
pub open spec fn spec_plans(fs: Seq<FeedInputV>, from: i64, to: i64) -> Option<Seq<FeedPlanV>>
    decreases fs.len(),
{
    if fs.len() == 0 {
        Some(Seq::empty())
    } else {
        match spec_plans(fs.drop_last(), from, to) {
            None => None,
            Some(ps) => match spec_plan(fs.last(), from, to) {
                None => None,
                Some(p) => Some(ps.push(p)),
            },
        }
    }
}

/// Plans one feed: parses its payload and keeps, in feed order, each entry
/// that passes the window and has a link, keyed by the index the entry had
/// within the feed. Fails with `Error::Parse` exactly when the payload is not
/// a recognizable feed.
pub fn plan_feed(feed: &FeedInput, from: i64, to: i64) -> (r: Result<FeedPlan, Error>)
    ensures
        match r {
            Ok(p) => spec_plan(feed@, from, to) == Some(p@),
            Err(e) => spec_plan(feed@, from, to) is None && e == Error::Parse,
        },
{
    let entries = match parse_feed(&feed.xml) {
        Ok(es) => es,
        Err(e) => {
            return Err(e);
        },
    };
    let ghost es = entries_view(entries@);
    let mut articles: Vec<ArticlePlan> = Vec::new();
    let mut j: usize = 0;
    while j < entries.len()
        invariant
            j <= entries.len(),
            es == entries_view(entries@),
            articles@.map_values(|a: ArticlePlan| a@) == planned(es.take(j as int), from, to),
        decreases entries.len() - j,
    {
        let e = &entries[j];
        let ghost prev = articles@.map_values(|a: ArticlePlan| a@);
        if entry_in_window(e, from, to) {
            match &e.link {
                Some(url) => {
                    let title = match &e.title {
                        Some(t) => t.clone(),
                        None => String::new(),
                    };
                    articles.push(ArticlePlan { entry_index: j, title, url: url.clone() });
                },
                None => {},
            }
        }
        proof {
            assert(es.take(j + 1 as int).drop_last() =~= es.take(j as int));
            assert(es.take(j + 1 as int).last() == es[j as int]);
            let cur = articles@.map_values(|a: ArticlePlan| a@);
            assert(cur =~= prev + plan_one(es[j as int], j as int, from, to));
        }
        j += 1;
    }
    proof {
        assert(es.take(entries@.len() as int) =~= es);
    }
    Ok(FeedPlan { title: feed.title.clone(), articles })
}

/// Plans a whole run: one [`FeedPlan`] per configured feed, in configuration
/// order. Fails with `Error::Parse`, aborting the run, exactly when some
/// feed's payload is not a recognizable feed.
pub fn plan_feeds(feeds: &Vec<FeedInput>, from: i64, to: i64) -> (r: Result<Vec<FeedPlan>, Error>)
    ensures
        match r {
            Ok(ps) => spec_plans(inputs_view(feeds@), from, to) == Some(plans_view(ps@)),
            Err(e) => spec_plans(inputs_view(feeds@), from, to) is None && e == Error::Parse,
        },
{
    let ghost fs = inputs_view(feeds@);
    let mut plans: Vec<FeedPlan> = Vec::new();
    let mut i: usize = 0;
    while i < feeds.len()
        invariant
            i <= feeds.len(),
            fs == inputs_view(feeds@),
            spec_plans(fs.take(i as int), from, to) == Some(plans_view(plans@)),
        decreases feeds.len() - i,
    {
        let ghost prev = plans_view(plans@);
        match plan_feed(&feeds[i], from, to) {
            Ok(p) => {
                plans.push(p);
            },
            Err(e) => {
                proof {
                    lemma_spec_plans_prefix_none(fs, from, to, i as int);
                }
                return Err(e);
            },
        }
        proof {
            assert(fs.take(i + 1 as int).drop_last() =~= fs.take(i as int));
            assert(fs.take(i + 1 as int).last() == fs[i as int]);
            assert(plans_view(plans@) =~= prev.push(plans_view(plans@).last()));
        }
        i += 1;
    }
    proof {
        assert(fs.take(feeds@.len() as int) =~= fs);
    }
    Ok(plans)
}

/// The linked entries of a sequence: for each entry that has a link, its
/// title (empty when absent) and that link, in order.
pub open spec fn linked(s: Seq<EntryV>) -> Seq<(Seq<char>, Seq<char>)>
    decreases s.len(),
{
    if s.len() == 0 {
        Seq::empty()
    } else {
        linked(s.drop_last()) + match s.last().1 {
            Some(l) => seq![(title_or_empty(s.last()), l)],
            None => Seq::empty(),
        }
    }
}

/// The plan stage is the time filter followed by link selection: stripped of
/// the entry indices, a feed's planned articles are exactly its filtered
/// entries that have a link, in their original order.
pub proof fn lemma_plan_is_filter_then_link(s: Seq<EntryV>, from: i64, to: i64)
    ensures
        planned(s, from, to).map_values(|a: ArticlePlanV| (a.1, a.2)) == linked(
            filtered(s, from, to),
        ),
    decreases s.len(),
{
    let strip = |a: ArticlePlanV| (a.1, a.2);
    if s.len() == 0 {
        assert(planned(s, from, to).map_values(strip) =~= linked(filtered(s, from, to)));
    } else {
        lemma_plan_is_filter_then_link(s.drop_last(), from, to);
        let e = s.last();
        if in_window(e, from, to) {
            let pre = filtered(s.drop_last(), from, to);
            assert((pre + seq![e]).drop_last() =~= pre);
            assert((pre + seq![e]).last() == e);
            assert(planned(s, from, to).map_values(strip) =~= linked(filtered(s, from, to)));
        } else {
            assert(filtered(s, from, to) =~= filtered(s.drop_last(), from, to));
            assert(planned(s, from, to).map_values(strip) =~= linked(filtered(s, from, to)));
        }
    }
}

/// If the feed at position `i` cannot be planned, the plan of the whole run
/// is `None`, whatever the other feeds hold.
proof fn lemma_spec_plans_prefix_none(fs: Seq<FeedInputV>, from: i64, to: i64, i: int)
    requires
        0 <= i < fs.len(),
        spec_plan(fs[i], from, to) is None,
    ensures
        spec_plans(fs, from, to) is None,
    decreases fs.len(),
{
    if fs.len() == 0 {
    } else if i == fs.len() - 1 {
        assert(fs.last() == fs[i]);
    } else {
        assert(fs.drop_last()[i] == fs[i]);
        lemma_spec_plans_prefix_none(fs.drop_last(), from, to, i);
    }
}

} // verus!
