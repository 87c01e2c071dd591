use feedbook::Error;
use feedbook::book::build_document;
use feedbook::epub::article_href_exec;
use feedbook::epub::feed_href_exec;
use feedbook::epub::write_epub;
use feedbook::extract::default_exclusions;
use feedbook::feed::Entry;
use feedbook::feed::FeedInput;
use feedbook::feed::filter_entries;
use feedbook::feed::parse_feed;
use feedbook::feed::plan_feeds;

// 2024-01-01 12:00:00 UTC and 12:30:00 UTC; 2020-01-01 12:00:00 UTC.
const TS_A: i64 = 1704110400;
const TS_C: i64 = 1704112200;
const TS_OLD: i64 = 1577880000;
const FROM: i64 = 1704100000;
const TO: i64 = 1704120000;

fn rss_daily() -> Vec<u8> {
    let xml = "<?xml version=\"1.0\"?><rss version=\"2.0\"><channel><title>Daily</title>\
        <item><title>A</title><link>http://example.org/a</link>\
        <pubDate>Mon, 01 Jan 2024 12:00:00 GMT</pubDate></item>\
        <item><title>B</title><link>http://example.org/b</link>\
        <pubDate>Wed, 01 Jan 2020 12:00:00 GMT</pubDate></item>\
        <item><title>C</title><link>http://example.org/c</link>\
        <pubDate>Mon, 01 Jan 2024 12:30:00 GMT</pubDate></item>\
        </channel></rss>";
    xml.as_bytes().to_vec()
}

fn rss_three_in_window() -> Vec<u8> {
    let xml = "<?xml version=\"1.0\"?><rss version=\"2.0\"><channel><title>Wire</title>\
        <item><title>One</title><link>http://example.org/1</link>\
        <pubDate>Mon, 01 Jan 2024 12:00:00 GMT</pubDate></item>\
        <item><title>Two</title><link>http://example.org/2</link>\
        <pubDate>Mon, 01 Jan 2024 12:10:00 GMT</pubDate></item>\
        <item><title>Three</title><link>http://example.org/3</link>\
        <pubDate>Mon, 01 Jan 2024 12:30:00 GMT</pubDate></item>\
        </channel></rss>";
    xml.as_bytes().to_vec()
}

fn page_two_paragraphs() -> String {
    "<html><body><article><p>First para</p><p>Second para</p></article></body></html>"
        .to_string()
}

fn page_without_container() -> String {
    "<html><body><div><p>loose</p></div></body></html>".to_string()
}

fn contains_subslice(haystack: &[u8], needle: &[u8]) -> bool {
    haystack.windows(needle.len()).any(|w| w == needle)
}

fn entry(published: Option<i64>) -> Entry {
    Entry {
        title: Some("t".to_string()),
        link: Some("http://example.org/x".to_string()),
        published,
    }
}

#[test]
fn parse_feed_reads_entries_in_order() {
    let entries = parse_feed(&rss_daily()).unwrap();
    assert_eq!(entries.len(), 3);
    assert_eq!(entries[0].title, Some("A".to_string()));
    assert_eq!(entries[0].link, Some("http://example.org/a".to_string()));
    assert_eq!(entries[0].published, Some(TS_A));
    assert_eq!(entries[1].published, Some(TS_OLD));
    assert_eq!(entries[2].published, Some(TS_C));
}

#[test]
fn parse_feed_rejects_garbage() {
    let garbage = b"this is not a feed at all".to_vec();
    assert_eq!(parse_feed(&garbage).unwrap_err(), Error::Parse);
}

#[test]
fn filter_keeps_window_and_timestampless_entries() {
    let entries = vec![
        entry(Some(TS_A)),
        entry(Some(TS_OLD)),
        entry(None),
        entry(Some(TO)),
        entry(Some(TO + 1)),
        entry(Some(FROM)),
        entry(Some(FROM - 1)),
    ];
    let kept = filter_entries(&entries, FROM, TO);
    let stamps: Vec<Option<i64>> = kept.iter().map(|e| e.published).collect();
    assert_eq!(
        stamps,
        vec![Some(TS_A), None, Some(TO), Some(FROM)]
    );
}

#[test]
fn plan_keeps_original_entry_indices() {
    let feeds = vec![FeedInput { title: "Daily".to_string(), xml: rss_daily() }];
    let plans = plan_feeds(&feeds, FROM, TO).unwrap();
    assert_eq!(plans.len(), 1);
    assert_eq!(plans[0].title, "Daily");
    assert_eq!(plans[0].articles.len(), 2);
    assert_eq!(plans[0].articles[0].entry_index, 0);
    assert_eq!(plans[0].articles[0].title, "A");
    assert_eq!(plans[0].articles[0].url, "http://example.org/a");
    assert_eq!(plans[0].articles[1].entry_index, 2);
    assert_eq!(plans[0].articles[1].title, "C");
}

#[test]
fn plan_aborts_on_unparsable_feed() {
    let feeds = vec![
        FeedInput { title: "Daily".to_string(), xml: rss_daily() },
        FeedInput { title: "Broken".to_string(), xml: b"nonsense".to_vec() },
    ];
    assert_eq!(plan_feeds(&feeds, FROM, TO).unwrap_err(), Error::Parse);
}

#[test]
fn daily_scenario_builds_one_feed_with_one_article() {
    let feeds = vec![FeedInput { title: "Daily".to_string(), xml: rss_daily() }];
    let plans = plan_feeds(&feeds, FROM, TO).unwrap();
    // Entry A is in the window with a container and two paragraphs; entry B is
    // out of the window; entry C is in the window but its page has no
    // container.
    let pages = vec![vec![Some(page_two_paragraphs()), Some(page_without_container())]];
    let doc = build_document(
        "Messages from x to y",
        "Tagesschau",
        &plans,
        &pages,
        &default_exclusions(),
    );
    assert_eq!(doc.title, "Messages from x to y");
    assert_eq!(doc.author, "Tagesschau");
    assert_eq!(doc.feeds.len(), 1);
    assert_eq!(doc.feeds[0].title, "Daily");
    assert!(doc.feeds[0].body.contains("<h1>Daily</h1>"));
    assert_eq!(doc.feeds[0].articles.len(), 1);
    let article = &doc.feeds[0].articles[0];
    assert_eq!(article.title, "A");
    assert_eq!(article.entry_index, 0);
    assert_eq!(article.body.matches("<p>").count(), 2);
    assert!(article.body.contains("<p>First para</p>"));
    assert!(article.body.contains("<p>Second para</p>"));
}

#[test]
fn failed_article_fetch_skips_only_that_entry() {
    let feeds = vec![FeedInput { title: "Wire".to_string(), xml: rss_three_in_window() }];
    let plans = plan_feeds(&feeds, FROM, TO).unwrap();
    assert_eq!(plans[0].articles.len(), 3);
    // The middle page's fetch failed; the run goes on with the other two.
    let pages = vec![vec![
        Some(page_two_paragraphs()),
        None,
        Some(page_two_paragraphs()),
    ]];
    let doc = build_document("t", "a", &plans, &pages, &default_exclusions());
    assert_eq!(doc.feeds[0].articles.len(), 2);
    assert_eq!(doc.feeds[0].articles[0].title, "One");
    assert_eq!(doc.feeds[0].articles[0].entry_index, 0);
    assert_eq!(doc.feeds[0].articles[1].title, "Three");
    assert_eq!(doc.feeds[0].articles[1].entry_index, 2);
}

#[test]
fn skipped_articles_contribute_no_sections() {
    let feeds = vec![FeedInput { title: "Wire".to_string(), xml: rss_three_in_window() }];
    let plans = plan_feeds(&feeds, FROM, TO).unwrap();
    // No page, a page without a container, a page whose container is empty:
    // every article is skipped, yet the run succeeds.
    let empty_container =
        "<html><body><article><div>nothing here</div></article></body></html>".to_string();
    let pages = vec![vec![None, Some(page_without_container()), Some(empty_container)]];
    let doc = build_document("t", "a", &plans, &pages, &default_exclusions());
    assert_eq!(doc.feeds.len(), 1);
    assert_eq!(doc.feeds[0].articles.len(), 0);
}

#[test]
fn identical_inputs_build_identical_documents() {
    let feeds = vec![FeedInput { title: "Daily".to_string(), xml: rss_daily() }];
    let plans1 = plan_feeds(&feeds, FROM, TO).unwrap();
    let plans2 = plan_feeds(&feeds, FROM, TO).unwrap();
    assert_eq!(plans1, plans2);
    let pages = vec![vec![Some(page_two_paragraphs()), Some(page_without_container())]];
    let doc1 = build_document("t", "a", &plans1, &pages, &default_exclusions());
    let doc2 = build_document("t", "a", &plans2, &pages, &default_exclusions());
    assert_eq!(doc1, doc2);
}

#[test]
fn atom_feeds_parse_too() {
    let xml = "<?xml version=\"1.0\" encoding=\"utf-8\"?>\
        <feed xmlns=\"http://www.w3.org/2005/Atom\"><title>AtomWire</title>\
        <id>urn:feed</id><updated>2024-01-01T12:00:00Z</updated>\
        <entry><title>First</title><id>urn:1</id>\
        <link href=\"http://example.org/atom1\"/>\
        <published>2024-01-01T12:00:00Z</published>\
        <updated>2024-01-01T12:00:00Z</updated></entry></feed>";
    let entries = parse_feed(&xml.as_bytes().to_vec()).unwrap();
    assert_eq!(entries.len(), 1);
    assert_eq!(entries[0].title, Some("First".to_string()));
    assert_eq!(entries[0].link, Some("http://example.org/atom1".to_string()));
    assert_eq!(entries[0].published, Some(TS_A));
}

#[test]
fn entry_without_timestamp_passes_through() {
    let xml = "<?xml version=\"1.0\"?><rss version=\"2.0\"><channel><title>Calm</title>\
        <item><title>Undated</title><link>http://example.org/u</link></item>\
        </channel></rss>";
    let feeds = vec![FeedInput { title: "Calm".to_string(), xml: xml.as_bytes().to_vec() }];
    let plans = plan_feeds(&feeds, FROM, TO).unwrap();
    assert_eq!(plans[0].articles.len(), 1);
    assert_eq!(plans[0].articles[0].title, "Undated");
}

#[test]
fn article_sections_sit_under_their_own_feed() {
    let feeds = vec![
        FeedInput { title: "Daily".to_string(), xml: rss_daily() },
        FeedInput { title: "Wire".to_string(), xml: rss_three_in_window() },
    ];
    let plans = plan_feeds(&feeds, FROM, TO).unwrap();
    let pages = vec![
        vec![Some(page_two_paragraphs()), Some(page_without_container())],
        vec![None, Some(page_two_paragraphs()), None],
    ];
    let doc = build_document("t", "a", &plans, &pages, &default_exclusions());
    // Feed sections appear in configuration order; each article section is a
    // child of the section of the feed it came from and of no other.
    assert_eq!(doc.feeds.len(), 2);
    assert_eq!(doc.feeds[0].title, "Daily");
    assert_eq!(doc.feeds[1].title, "Wire");
    assert_eq!(doc.feeds[0].articles.len(), 1);
    assert_eq!(doc.feeds[0].articles[0].title, "A");
    assert_eq!(doc.feeds[1].articles.len(), 1);
    assert_eq!(doc.feeds[1].articles[0].title, "Two");
    assert_eq!(doc.feeds[1].articles[0].entry_index, 1);
}

fn first_pos(haystack: &[u8], needle: &[u8]) -> usize {
    haystack
        .windows(needle.len())
        .position(|w| w == needle)
        .unwrap_or_else(|| panic!("missing entry name"))
}

#[test]
fn epub_chapters_follow_document_order() {
    let feeds = vec![
        FeedInput { title: "Daily".to_string(), xml: rss_daily() },
        FeedInput { title: "Wire".to_string(), xml: rss_three_in_window() },
    ];
    let plans = plan_feeds(&feeds, FROM, TO).unwrap();
    let pages = vec![
        vec![Some(page_two_paragraphs()), Some(page_without_container())],
        vec![None, Some(page_two_paragraphs()), None],
    ];
    let doc = build_document("t", "a", &plans, &pages, &default_exclusions());
    let bytes = write_epub(&doc).unwrap();
    // Each feed chapter comes before its article chapters, and the next
    // feed's chapter only after them.
    let p_feed0 = first_pos(&bytes, b"chapter_0.xhtml");
    let p_art00 = first_pos(&bytes, b"chapter_0_0.xhtml");
    let p_feed1 = first_pos(&bytes, b"chapter_1.xhtml");
    let p_art11 = first_pos(&bytes, b"chapter_1_1.xhtml");
    assert!(p_feed0 < p_art00);
    assert!(p_art00 < p_feed1);
    assert!(p_feed1 < p_art11);
}

#[test]
fn untitled_entry_still_yields_a_chaptered_artifact() {
    // RSS items may lack a title; the section keeps the empty title, and its
    // chapter is recorded under the fixed placeholder so the table of
    // contents does not drop it.
    let xml = "<?xml version=\"1.0\"?><rss version=\"2.0\"><channel><title>Calm</title>\
        <item><link>http://example.org/u</link>\
        <pubDate>Mon, 01 Jan 2024 12:00:00 GMT</pubDate></item>\
        </channel></rss>";
    let feeds = vec![FeedInput { title: "Calm".to_string(), xml: xml.as_bytes().to_vec() }];
    let plans = plan_feeds(&feeds, FROM, TO).unwrap();
    assert_eq!(plans[0].articles[0].title, "");
    let pages = vec![vec![Some(page_two_paragraphs())]];
    let doc = build_document("t", "a", &plans, &pages, &default_exclusions());
    assert_eq!(doc.feeds[0].articles[0].title, "");
    let bytes = write_epub(&doc).unwrap();
    assert_eq!(&bytes[0..4], b"PK\x03\x04");
    assert!(contains_subslice(&bytes, b"chapter_0_0.xhtml"));
}

#[test]
fn chapter_paths_are_decimal() {
    assert_eq!(feed_href_exec(0), "chapter_0.xhtml");
    assert_eq!(feed_href_exec(37), "chapter_37.xhtml");
    assert_eq!(article_href_exec(1, 12), "chapter_1_12.xhtml");
    assert_eq!(article_href_exec(10, 0), "chapter_10_0.xhtml");
}

#[test]
fn write_epub_produces_a_zip_artifact() {
    let feeds = vec![FeedInput { title: "Daily".to_string(), xml: rss_daily() }];
    let plans = plan_feeds(&feeds, FROM, TO).unwrap();
    let pages = vec![vec![Some(page_two_paragraphs()), Some(page_without_container())]];
    let doc = build_document("Messages", "Tagesschau", &plans, &pages, &default_exclusions());
    let bytes = write_epub(&doc).unwrap();
    assert!(bytes.len() > 4);
    assert_eq!(&bytes[0..2], b"PK");
    // Zip entry names are stored uncompressed: the feed chapter, the article
    // chapter (named by the entry's original index) and the inline table of
    // contents must all be present.
    assert!(contains_subslice(&bytes, b"chapter_0.xhtml"));
    assert!(contains_subslice(&bytes, b"chapter_0_0.xhtml"));
    assert!(contains_subslice(&bytes, b"toc.xhtml"));
}
