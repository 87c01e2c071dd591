//! The document's final form: an EPUB builder holds, in document order, one
//! level-1 content chapter per feed section followed by one level-2 content
//! chapter per article section, and serializes them — with an inline table
//! of contents — into the output artifact's bytes.
//!
//! The builder itself comes from an outside crate and is held behind a small
//! trusted surface; everything it is loaded with is computed and proved
//! here.
use vstd::prelude::*;
use vstd::string::*;

use crate::Error;
use crate::book::ArticleSecV;
use crate::book::DocV;
use crate::book::Document;
use crate::book::FeedSecV;
use crate::render::push_char;

verus! {

/// The state an EPUB in the making accumulates. Its mathematical content is
/// the sequence named by [`epub_chapters`] and the metadata pair named by
/// [`epub_meta`]; the concrete builder is opaque to the proofs.
#[verifier::external_body]
pub struct EpubDoc {
    inner: epub_builder::EpubBuilder<epub_builder::ZipLibrary>,
}

/// One recorded content chapter: path, title, level, body.
pub type ChapterV = (Seq<char>, Seq<char>, int, Seq<char>);

/// The content chapters recorded so far, in the order they were added.
pub uninterp spec fn epub_chapters(d: EpubDoc) -> Seq<ChapterV>;

/// The recorded metadata: document title and author.
pub uninterp spec fn epub_meta(d: EpubDoc) -> (Seq<char>, Seq<char>);

/// Relies on `epub_builder::ZipLibrary::new` and `EpubBuilder::new`: a fresh
/// builder holds no content chapters.
#[verifier::external_body]
fn epub_new() -> (r: Result<EpubDoc, Error>)
    ensures
        match r {
            Ok(d) => epub_chapters(d) == Seq::<ChapterV>::empty(),
            Err(e) => e == Error::Serialization,
        },
{
    match epub_builder::ZipLibrary::new() {
        Ok(z) => match epub_builder::EpubBuilder::new(z) {
            Ok(b) => Ok(EpubDoc { inner: b }),
            Err(_) => Err(Error::Serialization),
        },
        Err(_) => Err(Error::Serialization),
    }
}

impl EpubDoc {
    /// Relies on `EpubBuilder::metadata`: with the keys `"title"` and
    /// `"author"` it records the value and always succeeds, touching no
    /// content chapter.
    #[verifier::external_body]
    fn set_metadata(&mut self, title: &str, author: &str)
        ensures
            epub_chapters(*final(self)) == epub_chapters(*old(self)),
            epub_meta(*final(self)) == (title@, author@),
    {
        let _ = self.inner.metadata("title", title);
        let _ = self.inner.metadata("author", author);
    }

    /// Relies on `EpubBuilder::epub_version`: it only selects the output
    /// flavour, touching neither the chapters nor the metadata.
    #[verifier::external_body]
    fn use_epub_v20(&mut self)
        ensures
            epub_chapters(*final(self)) == epub_chapters(*old(self)),
            epub_meta(*final(self)) == epub_meta(*old(self)),
    {
        self.inner.epub_version(epub_builder::EpubVersion::V20);
    }

    /// Relies on `EpubBuilder::add_content` (with `EpubContent::new`,
    /// `title` and `level` building its argument): with a non-empty title —
    /// the builder keeps a chapter's title and level only in its table of
    /// contents, which drops untitled entries — on success exactly one
    /// content chapter with this path, title, level and body is appended
    /// after the existing ones; the metadata is never touched.
    #[verifier::external_body]
    fn add_chapter(&mut self, href: &str, title: &str, level: i32, body: &str) -> (r: Result<
        (),
        Error,
    >)
        requires
            title@.len() > 0,
        ensures
            match r {
                Ok(u) => epub_chapters(*final(self)) == epub_chapters(*old(self)).push(
                    (href@, title@, level as int, body@),
                ),
                Err(e) => e == Error::Serialization,
            },
            epub_meta(*final(self)) == epub_meta(*old(self)),
    {
        match self.inner.add_content(
            epub_builder::EpubContent::new(href, body.as_bytes()).title(title).level(level),
        ) {
            Ok(_) => Ok(()),
            Err(_) => Err(Error::Serialization),
        }
    }

    /// Relies on `EpubBuilder::inline_toc`: it only arranges for a generated
    /// table-of-contents page listing the chapters recorded with a non-empty
    /// title (every chapter this library records carries one); the content
    /// chapters added through `add_chapter` and the metadata are untouched.
    #[verifier::external_body]
    fn add_inline_toc(&mut self)
        ensures
            epub_chapters(*final(self)) == epub_chapters(*old(self)),
            epub_meta(*final(self)) == epub_meta(*old(self)),
    {
        self.inner.inline_toc();
    }

    /// Relies on `EpubBuilder::generate` and `ZipLibrary::new`: it
    /// serializes the whole document to the given sink — here an in-memory
    /// buffer — and fails exactly when the artifact cannot be produced. The
    /// archive opens with the stored `mimetype` entry the zip writer put
    /// first, so successful bytes begin with the zip local-header magic.
    #[verifier::external_body]
    fn generate(self) -> (r: Result<Vec<u8>, Error>)
        ensures
            r matches Err(e) ==> e == Error::Serialization,
            r matches Ok(b) ==> b@.len() > 4 && b@.subrange(0, 4) == seq![
                0x50u8,
                0x4bu8,
                0x03u8,
                0x04u8,
            ],
    {
        let mut out: Vec<u8> = Vec::new();
        match self.inner.generate(&mut out) {
            Ok(u) => Ok(out),
            Err(_) => Err(Error::Serialization),
        }
    }
}

pub open spec fn digit_char(d: int) -> char {
    if d == 0 {
        '0'
    } else if d == 1 {
        '1'
    } else if d == 2 {
        '2'
    } else if d == 3 {
        '3'
    } else if d == 4 {
        '4'
    } else if d == 5 {
        '5'
    } else if d == 6 {
        '6'
    } else if d == 7 {
        '7'
    } else if d == 8 {
        '8'
    } else {
        '9'
    }
}

/// A number written in decimal, most significant digit first.
pub open spec fn dec_str(n: nat) -> Seq<char>
    decreases n,
{
    if n < 10 {
        seq![digit_char(n as int)]
    } else {
        dec_str(n / 10).push(digit_char((n % 10) as int))
    }
}

fn digit_char_exec(d: usize) -> (c: char)
    requires
        d < 10,
    ensures
        c == digit_char(d as int),
{
    if d == 0 {
        '0'
    } else if d == 1 {
        '1'
    } else if d == 2 {
        '2'
    } else if d == 3 {
        '3'
    } else if d == 4 {
        '4'
    } else if d == 5 {
        '5'
    } else if d == 6 {
        '6'
    } else if d == 7 {
        '7'
    } else if d == 8 {
        '8'
    } else {
        '9'
    }
}

/// Writes a number in decimal, most significant digit first.
fn usize_to_string(n: usize) -> (r: String)
    ensures
        r@ == dec_str(n as nat),
    decreases n,
{
    if n < 10 {
        let mut s = String::new();
        push_char(&mut s, digit_char_exec(n));
        proof {
            assert(s@ =~= dec_str(n as nat));
        }
        s
    } else {
        let mut s = usize_to_string(n / 10);
        push_char(&mut s, digit_char_exec(n % 10));
        proof {
            assert(s@ =~= dec_str(n as nat));
        }
        s
    }
}

/// The path of the chapter holding the section of the feed at position `i`.
pub open spec fn feed_href(i: nat) -> Seq<char> {
    "chapter_"@ + dec_str(i) + ".xhtml"@
}

/// The path of the chapter holding an article section: its feed's position
/// and its entry's original index within the feed.
pub open spec fn article_href(i: nat, j: nat) -> Seq<char> {
    "chapter_"@ + dec_str(i) + "_"@ + dec_str(j) + ".xhtml"@
}

pub fn feed_href_exec(i: usize) -> (r: String)
    ensures
        r@ == feed_href(i as nat),
{
    let mut s = String::from_str("chapter_");
    let d = usize_to_string(i);
    s.append(d.as_str());
    s.append(".xhtml");
    proof {
        assert(s@ =~= feed_href(i as nat));
    }
    s
}

pub fn article_href_exec(i: usize, j: usize) -> (r: String)
    ensures
        r@ == article_href(i as nat, j as nat),
{
    let mut s = String::from_str("chapter_");
    let di = usize_to_string(i);
    s.append(di.as_str());
    s.append("_");
    let dj = usize_to_string(j);
    s.append(dj.as_str());
    s.append(".xhtml");
    proof {
        assert(s@ =~= article_href(i as nat, j as nat));
    }
    s
}

/// The title a section's chapter carries: the section's own title, or a
/// fixed placeholder when that is empty — the builder keeps a chapter's
/// title and level only in its table of contents, which drops untitled
/// entries, so every recorded chapter is given a title.
pub open spec fn toc_title(t: Seq<char>) -> Seq<char> {
    if t.len() == 0 {
        "Untitled"@
    } else {
        t
    }
}

/// The chapter title for a section: its own title, or the placeholder when
/// that is empty.
fn toc_title_exec(t: &String) -> (r: String)
    ensures
        r@ == toc_title(t@),
        r@.len() > 0,
{
    if t.as_str().is_empty() {
        proof {
            reveal_strlit("Untitled");
        }
        String::from_str("Untitled")
    } else {
        t.clone()
    }
}

/// The chapter an article section becomes: a level-2 chapter under its
/// feed's position and its entry's original index.
pub open spec fn article_chapter(a: ArticleSecV, i: nat) -> ChapterV {
    (article_href(i, a.entry_index as nat), toc_title(a.title), 2int, a.body)
}

pub open spec fn article_chapters_upto(arts: Seq<ArticleSecV>, i: nat, k: int) -> Seq<ChapterV>
    decreases k,
{
    if k <= 0 {
        Seq::empty()
    } else {
        article_chapters_upto(arts, i, k - 1).push(article_chapter(arts[k - 1], i))
    }
}

/// The chapter a feed section starts with: a level-1 chapter holding the
/// rendered shell.
pub open spec fn feed_chapter(f: FeedSecV, i: nat) -> ChapterV {
    (feed_href(i), toc_title(f.title), 1int, f.body)
}

/// The chapters one feed section contributes: its own level-1 chapter, then
/// one level-2 chapter per article section, in order.
pub open spec fn feed_chapters(f: FeedSecV, i: nat) -> Seq<ChapterV> {
    seq![feed_chapter(f, i)] + article_chapters_upto(f.articles, i, f.articles.len() as int)
}

pub open spec fn flat_upto(feeds: Seq<FeedSecV>, k: int) -> Seq<ChapterV>
    decreases k,
{
    if k <= 0 {
        Seq::empty()
    } else {
        flat_upto(feeds, k - 1) + feed_chapters(feeds[k - 1], (k - 1) as nat)
    }
}

/// The chapter sequence a document serializes as: feed sections in document
/// order, each followed by its article sections.
pub open spec fn flat_chapters(d: DocV) -> Seq<ChapterV> {
    flat_upto(d.feeds, d.feeds.len() as int)
}

/// Loads an assembled document into an EPUB builder: the metadata, then, in
/// document order, one level-1 chapter per feed section, each followed by
/// one level-2 chapter per article section; a section whose title is empty
/// has its chapter titled by the fixed placeholder, so every chapter shows
/// up in the table of contents. Fails only when the builder refuses a
/// write; on success the builder holds exactly the document's chapters and
/// metadata.
pub fn load_epub(doc: &Document) -> (r: Result<EpubDoc, Error>)
    ensures
        match r {
            Ok(d) => epub_chapters(d) == flat_chapters(doc@) && epub_meta(d) == (
                doc@.title,
                doc@.author,
            ),
            Err(e) => e == Error::Serialization,
        },
{
    let mut d = match epub_new() {
        Ok(d) => d,
        Err(e) => {
            return Err(e);
        },
    };
    d.set_metadata(doc.title.as_str(), doc.author.as_str());
    d.use_epub_v20();
    let ghost feeds = doc@.feeds;
    let mut i: usize = 0;
    while i < doc.feeds.len()
        invariant
            feeds == doc@.feeds,
            i <= doc.feeds@.len(),
            epub_chapters(d) == flat_upto(feeds, i as int),
            epub_meta(d) == (doc@.title, doc@.author),
        decreases doc.feeds@.len() - i,
    {
        let f = &doc.feeds[i];
        let href = feed_href_exec(i);
        let ftitle = toc_title_exec(&f.title);
        match d.add_chapter(href.as_str(), ftitle.as_str(), 1, f.body.as_str()) {
            Ok(u) => {},
            Err(e) => {
                return Err(e);
            },
        }
        proof {
            assert(feeds[i as int] == f@);
            assert(epub_chapters(d) =~= flat_upto(feeds, i as int) + seq![
                feed_chapter(feeds[i as int], i as nat),
            ]);
        }
        let mut j: usize = 0;
        while j < f.articles.len()
            invariant
                feeds == doc@.feeds,
                i < doc.feeds@.len(),
                feeds[i as int] == doc.feeds@[i as int]@,
                f == &doc.feeds@[i as int],
                j <= f.articles@.len(),
                epub_chapters(d) == flat_upto(feeds, i as int) + seq![
                    feed_chapter(feeds[i as int], i as nat),
                ] + article_chapters_upto(feeds[i as int].articles, i as nat, j as int),
                epub_meta(d) == (doc@.title, doc@.author),
            decreases f.articles@.len() - j,
        {
            let a = &f.articles[j];
            let ahref = article_href_exec(i, a.entry_index);
            let atitle = toc_title_exec(&a.title);
            match d.add_chapter(ahref.as_str(), atitle.as_str(), 2, a.body.as_str()) {
                Ok(u) => {},
                Err(e) => {
                    return Err(e);
                },
            }
            proof {
                assert(feeds[i as int].articles[j as int] == a@);
                assert(epub_chapters(d) =~= flat_upto(feeds, i as int) + seq![
                    feed_chapter(feeds[i as int], i as nat),
                ] + article_chapters_upto(feeds[i as int].articles, i as nat, j as int + 1));
            }
            j += 1;
        }
        proof {
            assert(article_chapters_upto(
                feeds[i as int].articles,
                i as nat,
                f.articles@.len() as int,
            ) == article_chapters_upto(
                feeds[i as int].articles,
                i as nat,
                feeds[i as int].articles.len() as int,
            ));
            assert(epub_chapters(d) =~= flat_upto(feeds, i as int + 1));
        }
        i += 1;
    }
    Ok(d)
}

/// The position of a feed section's own chapter in the flattened sequence:
/// everything the earlier feeds contributed comes first.
pub open spec fn feed_start(feeds: Seq<FeedSecV>, i: int) -> int
    decreases i,
{
    if i <= 0 {
        0
    } else {
        feed_start(feeds, i - 1) + 1 + feeds[i - 1].articles.len()
    }
}

proof fn lemma_article_chapters_len(arts: Seq<ArticleSecV>, i: nat, k: int)
    requires
        k >= 0,
    ensures
        article_chapters_upto(arts, i, k).len() == k,
    decreases k,
{
    if k > 0 {
        lemma_article_chapters_len(arts, i, k - 1);
    }
}

proof fn lemma_article_chapters_index(arts: Seq<ArticleSecV>, i: nat, k: int, j: int)
    requires
        0 <= j < k,
    ensures
        article_chapters_upto(arts, i, k)[j] == article_chapter(arts[j], i),
    decreases k,
{
    lemma_article_chapters_len(arts, i, k - 1);
    if j < k - 1 {
        lemma_article_chapters_index(arts, i, k - 1, j);
    }
}

proof fn lemma_flat_len(feeds: Seq<FeedSecV>, k: int)
    requires
        k >= 0,
    ensures
        flat_upto(feeds, k).len() == feed_start(feeds, k),
    decreases k,
{
    if k > 0 {
        lemma_flat_len(feeds, k - 1);
        lemma_article_chapters_len(
            feeds[k - 1].articles,
            (k - 1) as nat,
            feeds[k - 1].articles.len() as int,
        );
    }
}

proof fn lemma_feed_start_mono(feeds: Seq<FeedSecV>, a: int, b: int)
    requires
        0 <= a <= b,
    ensures
        feed_start(feeds, a) <= feed_start(feeds, b),
    decreases b,
{
    if a < b {
        lemma_feed_start_mono(feeds, a, b - 1);
    }
}

proof fn lemma_flat_index(feeds: Seq<FeedSecV>, k: int, i: int, j: int)
    requires
        0 <= i < k <= feeds.len(),
        0 <= j < feeds[i].articles.len(),
    ensures
        flat_upto(feeds, k)[feed_start(feeds, i)] == feed_chapter(feeds[i], i as nat),
        flat_upto(feeds, k)[feed_start(feeds, i) + 1 + j] == article_chapter(
            feeds[i].articles[j],
            i as nat,
        ),
        feed_start(feeds, i) + 1 + j < feed_start(feeds, i + 1),
    decreases k,
{
    lemma_flat_len(feeds, i);
    lemma_article_chapters_len(feeds[i].articles, i as nat, feeds[i].articles.len() as int);
    if k == i + 1 {
        lemma_article_chapters_index(
            feeds[i].articles,
            i as nat,
            feeds[i].articles.len() as int,
            j,
        );
    } else {
        lemma_flat_index(feeds, k - 1, i, j);
        lemma_flat_len(feeds, k - 1);
        lemma_feed_start_mono(feeds, i + 1, k - 1);
    }
}

/// Section nesting: in the chapter sequence a document serializes as, the
/// feed section at position `i` stands as a level-1 chapter, every one of
/// its article sections follows it as a level-2 chapter before the next feed
/// section begins, and an article chapter's level is its feed chapter's
/// level plus one.
pub proof fn lemma_section_nesting(feeds: Seq<FeedSecV>, i: int, j: int)
    requires
        0 <= i < feeds.len(),
        0 <= j < feeds[i].articles.len(),
    ensures
        flat_upto(feeds, feeds.len() as int)[feed_start(feeds, i)] == feed_chapter(
            feeds[i],
            i as nat,
        ),
        flat_upto(feeds, feeds.len() as int)[feed_start(feeds, i) + 1 + j] == article_chapter(
            feeds[i].articles[j],
            i as nat,
        ),
        feed_chapter(feeds[i], i as nat).2 == 1,
        article_chapter(feeds[i].articles[j], i as nat).2 == feed_chapter(feeds[i], i as nat).2
            + 1,
        feed_start(feeds, i) + 1 + j < feed_start(feeds, i + 1),
        feed_start(feeds, i + 1) <= flat_upto(feeds, feeds.len() as int).len(),
{
    lemma_flat_index(feeds, feeds.len() as int, i, j);
    lemma_flat_len(feeds, feeds.len() as int);
    lemma_feed_start_mono(feeds, i + 1, feeds.len() as int);
}

/// Turns an assembled document into the final artifact's bytes: loads it
/// into the EPUB builder, adds the inline table of contents listing both
/// section levels (every recorded chapter carries a non-empty title), and
/// serializes into a zip archive. Fails only with `Error::Serialization`;
/// a failed run yields no bytes at all, never a truncated artifact.
pub fn write_epub(doc: &Document) -> (r: Result<Vec<u8>, Error>)
    ensures
        r matches Err(e) ==> e == Error::Serialization,
        r matches Ok(b) ==> b@.len() > 4 && b@.subrange(0, 4) == seq![
            0x50u8,
            0x4bu8,
            0x03u8,
            0x04u8,
        ],
{
    let mut d = match load_epub(doc) {
        Ok(d) => d,
        Err(e) => {
            return Err(e);
        },
    };
    d.add_inline_toc();
    d.generate()
}

} // verus!
