use eggie_ui::markdown::{
    document_blocks, heading_size_step, inline_text, list_marker, parse_markdown, InlineColors,
    MdBlock, MdEvent, MdSpan, SpanStyle,
};

fn plain(text: &str) -> MdSpan {
    MdSpan {
        text: text.to_string(),
        style: SpanStyle::default(),
    }
}

#[test]
fn parses_heading_levels() {
    let blocks = parse_markdown("# One\n\n## Two");
    assert_eq!(
        blocks,
        vec![
            MdBlock::Heading {
                level: 1,
                spans: vec![plain("One")]
            },
            MdBlock::Heading {
                level: 2,
                spans: vec![plain("Two")]
            },
        ]
    );
}

#[test]
fn parses_inline_styles() {
    let blocks = parse_markdown("normal **bold** *italic* ~~strike~~ `code`");
    let MdBlock::Paragraph(spans) = &blocks[0] else {
        panic!("expected paragraph, got {blocks:?}");
    };
    assert!(spans.iter().any(|s| s.style.bold && s.text == "bold"));
    assert!(spans.iter().any(|s| s.style.italic && s.text == "italic"));
    assert!(spans.iter().any(|s| s.style.strikethrough && s.text == "strike"));
    assert!(spans.iter().any(|s| s.style.code && s.text == "code"));
}

#[test]
fn parses_link_with_url() {
    let blocks = parse_markdown("see [docs](https://example.com/x)");
    let MdBlock::Paragraph(spans) = &blocks[0] else {
        panic!("expected paragraph");
    };
    let link = spans
        .iter()
        .find(|s| s.text == "docs")
        .expect("link span");
    assert_eq!(link.style.link.as_deref(), Some("https://example.com/x"));
}

#[test]
fn parses_unordered_list() {
    let blocks = parse_markdown("- a\n- b\n- c");
    let MdBlock::List { ordered, items } = &blocks[0] else {
        panic!("expected list, got {blocks:?}");
    };
    assert!(!ordered);
    assert_eq!(items.len(), 3);
    assert_eq!(
        items[0],
        vec![MdBlock::Paragraph(vec![plain("a")])]
    );
}

#[test]
fn parses_ordered_list() {
    let blocks = parse_markdown("1. first\n2. second");
    let MdBlock::List { ordered, items } = &blocks[0] else {
        panic!("expected list");
    };
    assert!(ordered);
    assert_eq!(items.len(), 2);
}

#[test]
fn parses_nested_list() {
    let blocks = parse_markdown("- outer\n  - inner");
    let MdBlock::List { items, .. } = &blocks[0] else {
        panic!("expected list");
    };
    // The first item holds a paragraph plus a nested list.
    assert!(items[0].iter().any(|b| matches!(b, MdBlock::List { .. })));
}

#[test]
fn parses_code_block() {
    let blocks = parse_markdown("```\nlet x = 1;\nlet y = 2;\n```");
    assert_eq!(
        blocks,
        vec![MdBlock::CodeBlock {
            text: "let x = 1;\nlet y = 2;".to_string()
        }]
    );
}

#[test]
fn parses_blockquote() {
    let blocks = parse_markdown("> quoted text");
    let MdBlock::Quote(inner) = &blocks[0] else {
        panic!("expected quote, got {blocks:?}");
    };
    assert_eq!(inner, &vec![MdBlock::Paragraph(vec![plain("quoted text")])]);
}

#[test]
fn parses_thematic_break() {
    let blocks = parse_markdown("above\n\n---\n\nbelow");
    assert!(blocks.contains(&MdBlock::Rule));
}

#[test]
fn preserves_block_order() {
    let blocks = parse_markdown("# Title\n\npara\n\n- item");
    assert!(matches!(blocks[0], MdBlock::Heading { .. }));
    assert!(matches!(blocks[1], MdBlock::Paragraph(_)));
    assert!(matches!(blocks[2], MdBlock::List { .. }));
}

#[test]
fn empty_source_is_empty() {
    assert!(parse_markdown("").is_empty());
}

#[test]
fn events_become_blocks() {
    let start = |tag: &str| MdEvent::Start(tag.to_owned());
    let end = |tag: &str| MdEvent::End(tag.to_owned());
    let events = vec![
        start("BlockQuote(None)"),
        start("Paragraph"),
        MdEvent::Text("a".to_owned()),
        MdEvent::SoftBreak,
        MdEvent::Code("b".to_owned()),
        end("Paragraph"),
        end("BlockQuote(None)"),
        MdEvent::Rule,
        MdEvent::Other("Html".to_owned()),
    ];
    let blocks = document_blocks(&events);
    assert_eq!(blocks.len(), 2);
    assert_eq!(blocks[1], MdBlock::Rule);
}

#[test]
fn an_image_of_all_markup_reaches_the_blocks() {
    let blocks = parse_markdown("# A\n\n> b\n\n1. c\n\n---\n\n`d`");
    assert_eq!(blocks.len(), 5);
    assert!(matches!(blocks[1], MdBlock::Quote(_)));
    assert!(matches!(blocks[2], MdBlock::List { ordered: true, .. }));
    assert_eq!(blocks[3], MdBlock::Rule);
}

#[test]
fn list_markers_count_from_one() {
    assert_eq!(list_marker(true, 0), "1.");
    assert_eq!(list_marker(true, 9), "10.");
    assert_eq!(list_marker(false, 4), "•");
}

#[test]
fn headings_shrink_with_their_level() {
    let steps: Vec<u8> = (1..=6).map(heading_size_step).collect();
    assert_eq!(&steps[..3], &[7, 4, 2]);
    assert!(steps.windows(2).all(|w| w[0] >= w[1]));
}

#[test]
fn inline_text_joins_spans_and_marks_their_bytes() {
    let mut bold = plain("ü");
    bold.style.bold = true;
    let mut link = plain("x");
    link.style.link = Some("https://example.com".to_owned());
    let spans = vec![plain("a"), bold, link];
    let colors = InlineColors { text: 1, muted: 2, accent: 3, panel_alt: 4 };
    let line = inline_text(&spans, colors);
    assert_eq!(line.text, "aüx");
    let bold = line.highlights.iter().find(|r| r.highlight.bold).unwrap();
    assert_eq!((bold.start, bold.end), (1, 3));
    let link = line.highlights.iter().find(|r| r.highlight.underline.is_some()).unwrap();
    assert_eq!((link.start, link.end), (3, 4));
    assert_eq!(link.highlight.underline, Some(3));
    assert_eq!(line.links.len(), 1);
    assert_eq!(line.links[0].url, "https://example.com");
    assert_eq!((line.links[0].start, line.links[0].end), (3, 4));
}
