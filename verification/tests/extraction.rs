use feedbook::extract::BlockKind;
use feedbook::extract::ContentBlock;
use feedbook::extract::default_exclusions;
use feedbook::extract::extract_blocks;
use feedbook::render::escape_text;
use feedbook::render::render_fragment;
use feedbook::render::render_shell;

const SHELL_PRE: &str = "<?xml version=\"1.0\" encoding=\"UTF-8\"?>\n<html xmlns=\"http://www.w3.org/1999/xhtml\" xml:lang=\"en\" lang=\"en\">\n<head>\n</head>\n<body>\n";
const SHELL_POST: &str = "</body>\n</html>\n";

fn texts(blocks: &[ContentBlock]) -> Vec<String> {
    blocks.iter().map(|b| b.text.clone()).collect()
}

fn kinds(blocks: &[ContentBlock]) -> Vec<BlockKind> {
    blocks.iter().map(|b| b.kind).collect()
}

#[test]
fn default_exclusions_hold_the_fixed_set() {
    let ex = default_exclusions();
    assert_eq!(ex.len(), 5);
    assert!(ex.iter().any(|c| c == "infobox"));
    assert!(ex.iter().any(|c| c == "meldungsfooter"));
    assert!(ex.iter().any(|c| c == "copytext__video"));
    assert!(ex.iter().any(|c| c == "external-embed__placeholder"));
    assert!(ex.iter().any(|c| c == "copytext-element-wrapper"));
}

#[test]
fn excluded_subtree_is_absent_siblings_kept() {
    let html = "<html><body><article><p>keep one</p>\
                <div class=\"infobox\"><p>gone</p><h2>also gone</h2></div>\
                <p>keep two</p></article></body></html>";
    let blocks = extract_blocks(html, &default_exclusions()).unwrap();
    assert_eq!(texts(&blocks), vec!["keep one".to_string(), "keep two".to_string()]);
}

#[test]
fn exclusion_matches_any_of_several_classes() {
    let html = "<html><body><article><p>stay</p>\
                <div class=\"left copytext__video right\"><p>video text</p></div>\
                </article></body></html>";
    let blocks = extract_blocks(html, &default_exclusions()).unwrap();
    assert_eq!(texts(&blocks), vec!["stay".to_string()]);
}

#[test]
fn excluded_footer_outside_container_does_not_disturb_it() {
    let html = "<html><body><div class=\"meldungsfooter\"><p>footer</p></div>\
                <article><p>body text</p></article></body></html>";
    let blocks = extract_blocks(html, &default_exclusions()).unwrap();
    assert_eq!(texts(&blocks), vec!["body text".to_string()]);
}

#[test]
fn blocks_follow_document_order() {
    let html = "<html><body><article><h1>head</h1><p>one</p><h2>sub</h2>\
                <h3>subsub</h3><p>two</p></article></body></html>";
    let blocks = extract_blocks(html, &default_exclusions()).unwrap();
    assert_eq!(
        kinds(&blocks),
        vec![
            BlockKind::Heading1,
            BlockKind::Paragraph,
            BlockKind::Heading2,
            BlockKind::Heading3,
            BlockKind::Paragraph,
        ]
    );
    assert_eq!(
        texts(&blocks),
        vec![
            "head".to_string(),
            "one".to_string(),
            "sub".to_string(),
            "subsub".to_string(),
            "two".to_string(),
        ]
    );
}

#[test]
fn missing_container_yields_none() {
    let html = "<html><body><div><p>loose text</p></div></body></html>";
    assert!(extract_blocks(html, &default_exclusions()).is_none());
}

#[test]
fn container_without_qualifying_content_yields_empty() {
    let html = "<html><body><article><div>plain</div><span>inline</span></article></body></html>";
    let blocks = extract_blocks(html, &default_exclusions()).unwrap();
    assert_eq!(blocks.len(), 0);
}

#[test]
fn container_inside_excluded_subtree_is_gone() {
    let html = "<html><body><div class=\"infobox\"><article><p>x</p></article></div></body></html>";
    assert!(extract_blocks(html, &default_exclusions()).is_none());
}

#[test]
fn text_is_concatenated_without_separators() {
    let html = "<html><body><article><p>a<b>b</b>c<span>d</span></p></article></body></html>";
    let blocks = extract_blocks(html, &default_exclusions()).unwrap();
    assert_eq!(texts(&blocks), vec!["abcd".to_string()]);
}

#[test]
fn excluded_text_inside_block_is_dropped() {
    let html = "<html><body><article><p>seen \
                <span class=\"external-embed__placeholder\">hidden</span>also seen</p>\
                </article></body></html>";
    let blocks = extract_blocks(html, &default_exclusions()).unwrap();
    assert_eq!(texts(&blocks), vec!["seen also seen".to_string()]);
}

#[test]
fn escape_replaces_markup_characters() {
    let out = escape_text("Fish & <Chips> \"quoted\" 'single'");
    assert_eq!(out, "Fish &amp; &lt;Chips&gt; &quot;quoted&quot; &#39;single&#39;");
}

#[test]
fn escape_leaves_plain_text_alone() {
    assert_eq!(escape_text("Bericht zur Lage"), "Bericht zur Lage");
    assert_eq!(escape_text(""), "");
}

#[test]
fn non_ascii_text_passes_through_extraction_and_escaping() {
    assert_eq!(escape_text("Übermäßig große Störung"), "Übermäßig große Störung");
    let html = "<html><body><article><p>Größe: 5 &amp; mehr</p></article></body></html>";
    let blocks = extract_blocks(html, &default_exclusions()).unwrap();
    assert_eq!(texts(&blocks), vec!["Größe: 5 & mehr".to_string()]);
    let out = render_fragment(&blocks);
    assert!(out.contains("<p>Größe: 5 &amp; mehr</p>"));
}

#[test]
fn shell_holds_the_escaped_title() {
    let out = render_shell("News & Views");
    let expected = format!("{}<h1>News &amp; Views</h1>\n{}", SHELL_PRE, SHELL_POST);
    assert_eq!(out, expected);
}

#[test]
fn fragment_renders_one_element_per_block() {
    let blocks = vec![
        ContentBlock { kind: BlockKind::Heading2, text: "A < B".to_string() },
        ContentBlock { kind: BlockKind::Paragraph, text: "body".to_string() },
    ];
    let out = render_fragment(&blocks);
    let expected = format!(
        "{}<h2>A &lt; B</h2>\n<p>body</p>\n{}",
        SHELL_PRE, SHELL_POST
    );
    assert_eq!(out, expected);
}
