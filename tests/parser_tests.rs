use vibe_coder::parser::{parse_events, parse_response, BlockAccumulator, ContentBlock, MarkupEvent, ParsedResponse, ScopeKind};

fn text(s: &str) -> MarkupEvent {
    MarkupEvent::Text(s.to_string())
}

fn title(level: u8, t: &str) -> ContentBlock {
    ContentBlock::Title { level, text: t.to_string() }
}

fn paragraph(t: &str) -> ContentBlock {
    ContentBlock::Paragraph { text: t.to_string() }
}

fn code(language: Option<&str>, c: &str) -> ContentBlock {
    ContentBlock::CodeBlock { language: language.map(|l| l.to_string()), code: c.to_string() }
}

fn list(items: &[&str]) -> ContentBlock {
    ContentBlock::List { items: items.iter().map(|i| i.to_string()).collect() }
}

#[test]
fn test_parse_simple_response() {
    let markdown = "# Title\n\nSome text\n\n```rust\nfn main() {}\n```";
    let parsed = parse_response(markdown);

    assert_eq!(parsed.blocks.len(), 3);
    assert!(matches!(parsed.blocks[0], ContentBlock::Title { .. }));
    assert!(matches!(parsed.blocks[1], ContentBlock::Paragraph { .. }));
    assert!(matches!(parsed.blocks[2], ContentBlock::CodeBlock { .. }));
}

#[test]
fn test_get_code_blocks() {
    let markdown = "```rust\nfn test() {}\n```\n\n```python\ndef test(): pass\n```";
    let parsed = parse_response(markdown);
    let code_blocks = parsed.get_code_blocks();

    assert_eq!(code_blocks.len(), 2);
    assert_eq!(code_blocks[0].0, Some("rust".to_string()));
    assert_eq!(code_blocks[1].0, Some("python".to_string()));
}

#[test]
fn test_get_titles() {
    let markdown = "# Main Title\n\n## Subtitle\n\n### Subsubtitle";
    let parsed = parse_response(markdown);
    let titles = parsed.get_titles();

    assert_eq!(titles.len(), 3);
    assert_eq!(titles[0].0, 1);
    assert_eq!(titles[1].0, 2);
    assert_eq!(titles[2].0, 3);
}

#[test]
fn heading_alone_is_one_title() {
    let parsed = parse_response("# Title");
    assert_eq!(parsed.blocks, vec![title(1, "Title")]);
}

#[test]
fn mixed_document_in_order() {
    let parsed = parse_response("# T\n\nP\n\n```lang\nC\n```");
    assert_eq!(parsed.blocks, vec![title(1, "T"), paragraph("P"), code(Some("lang"), "C")]);
}

#[test]
fn fenced_rust_block_has_language() {
    let parsed = parse_response("```rust\nlet x = 1;\n```");
    assert_eq!(parsed.blocks, vec![code(Some("rust"), "let x = 1;")]);
}

#[test]
fn indented_block_has_no_language() {
    let parsed = parse_response("    let x = 1;\n");
    assert_eq!(parsed.blocks, vec![code(None, "let x = 1;")]);
}

#[test]
fn fenced_block_with_empty_info_has_no_language() {
    let parsed = parse_response("```\nlet x = 1;\n```");
    assert_eq!(parsed.blocks, vec![code(None, "let x = 1;")]);
}

#[test]
fn blank_info_string_gives_no_language() {
    let events = vec![
        MarkupEvent::Start(ScopeKind::CodeBlock(Some("   ".to_string()))),
        text("x"),
        MarkupEvent::End(ScopeKind::CodeBlock(Some("   ".to_string()))),
    ];
    assert_eq!(parse_events(&events).blocks, vec![code(None, "x")]);
}

#[test]
fn info_string_is_trimmed() {
    let events = vec![
        MarkupEvent::Start(ScopeKind::CodeBlock(Some("  rust ".to_string()))),
        text("x"),
        MarkupEvent::End(ScopeKind::CodeBlock(None)),
    ];
    assert_eq!(parse_events(&events).blocks, vec![code(Some("rust"), "x")]);
}

#[test]
fn code_keeps_leading_and_drops_trailing_whitespace() {
    let events = vec![
        MarkupEvent::Start(ScopeKind::CodeBlock(None)),
        text("    indented\n"),
        text("next  \n\n"),
        MarkupEvent::End(ScopeKind::CodeBlock(None)),
    ];
    assert_eq!(parse_events(&events).blocks, vec![code(None, "    indented\nnext")]);
}

#[test]
fn list_is_flattened_in_source_order() {
    let parsed = parse_response("- a\n- b\n- c");
    assert_eq!(parsed.blocks, vec![list(&["a", "b", "c"])]);
}

#[test]
fn empty_input_yields_no_block() {
    let parsed = parse_response("");
    assert_eq!(parsed.blocks.len(), 0);
    assert_eq!(parse_events(&Vec::new()).blocks.len(), 0);
}

#[test]
fn text_outside_any_scope_yields_no_block() {
    let events = vec![text("orphan"), MarkupEvent::SoftBreak, MarkupEvent::Other, MarkupEvent::InlineCode("x".to_string())];
    assert_eq!(parse_events(&events).blocks.len(), 0);
}

#[test]
fn paragraph_inside_list_item_is_not_standalone() {
    let parsed = parse_response("- a\n\n- b");
    assert_eq!(parsed.blocks, vec![list(&["a", "b"])]);
}

#[test]
fn paragraph_inside_item_feeds_the_item() {
    let events = vec![
        MarkupEvent::Start(ScopeKind::List),
        MarkupEvent::Start(ScopeKind::Item),
        MarkupEvent::Start(ScopeKind::Paragraph),
        text("inside"),
        MarkupEvent::End(ScopeKind::Paragraph),
        MarkupEvent::End(ScopeKind::Item),
        MarkupEvent::End(ScopeKind::List),
    ];
    assert_eq!(parse_events(&events).blocks, vec![list(&["inside"])]);
}

#[test]
fn derived_views_keep_block_order() {
    let parsed = parse_response("## B\n\n```x\n1\n```\n\n# A\n\ntext\n\n```y\n2\n```\n\n### C");
    assert_eq!(parsed.get_titles(), vec![(2, "B".to_string()), (1, "A".to_string()), (3, "C".to_string())]);
    assert_eq!(
        parsed.get_code_blocks(),
        vec![(Some("x".to_string()), "1".to_string()), (Some("y".to_string()), "2".to_string())]
    );
}

#[test]
fn repeated_parses_agree() {
    let markdown = "# T\n\n> quoted\n\n- a\n- b\n\ntext with `code`";
    assert_eq!(parse_response(markdown), parse_response(markdown));
    let events = vec![MarkupEvent::Start(ScopeKind::Paragraph), text("p"), MarkupEvent::End(ScopeKind::Paragraph)];
    assert_eq!(parse_events(&events), parse_events(&events));
}

#[test]
fn heading_text_is_trimmed() {
    let events = vec![
        MarkupEvent::Start(ScopeKind::Heading(2)),
        text("  spaced  "),
        MarkupEvent::End(ScopeKind::Heading(2)),
    ];
    assert_eq!(parse_events(&events).blocks, vec![title(2, "spaced")]);
}

#[test]
fn whitespace_only_heading_is_dropped() {
    let events = vec![
        MarkupEvent::Start(ScopeKind::Heading(1)),
        text("   "),
        MarkupEvent::End(ScopeKind::Heading(1)),
    ];
    assert_eq!(parse_events(&events).blocks.len(), 0);
}

#[test]
fn unterminated_scope_is_dropped() {
    let events = vec![
        MarkupEvent::Start(ScopeKind::Paragraph),
        text("done"),
        MarkupEvent::End(ScopeKind::Paragraph),
        MarkupEvent::Start(ScopeKind::Paragraph),
        text("never closed"),
    ];
    assert_eq!(parse_events(&events).blocks, vec![paragraph("done")]);
}

#[test]
fn inline_code_and_soft_breaks() {
    let parsed = parse_response("use `x`\nthen");
    assert_eq!(parsed.blocks, vec![paragraph("use `x` then")]);
}

#[test]
fn leading_soft_break_adds_no_space() {
    let events = vec![
        MarkupEvent::Start(ScopeKind::Paragraph),
        MarkupEvent::SoftBreak,
        text("a"),
        MarkupEvent::HardBreak,
        text("b"),
        MarkupEvent::End(ScopeKind::Paragraph),
    ];
    assert_eq!(parse_events(&events).blocks, vec![paragraph("a b")]);
}

#[test]
fn breaks_inside_code_are_newlines() {
    let events = vec![
        MarkupEvent::Start(ScopeKind::CodeBlock(Some("sh".to_string()))),
        text("a"),
        MarkupEvent::SoftBreak,
        text("b"),
        MarkupEvent::End(ScopeKind::CodeBlock(None)),
    ];
    assert_eq!(parse_events(&events).blocks, vec![code(Some("sh"), "a\nb")]);
}

#[test]
fn paragraph_inside_quote_is_emitted_before_the_quote() {
    // The paragraph's end emits its text and clears the shared buffer, so the
    // quote that encloses it has nothing left to emit.
    let parsed = parse_response("> wise words");
    assert_eq!(parsed.blocks, vec![paragraph("wise words")]);
}

#[test]
fn quote_with_bare_text_becomes_quote() {
    let events = vec![
        MarkupEvent::Start(ScopeKind::BlockQuote),
        text("  wise words "),
        MarkupEvent::End(ScopeKind::BlockQuote),
    ];
    assert_eq!(parse_events(&events).blocks, vec![ContentBlock::Quote { text: "wise words".to_string() }]);
}

#[test]
fn emphasis_markers_are_ignored() {
    let parsed = parse_response("some *emphasised* text");
    assert_eq!(parsed.blocks, vec![paragraph("some emphasised text")]);
}

#[test]
fn orphan_item_joins_next_list() {
    let events = vec![
        MarkupEvent::Start(ScopeKind::Item),
        text("orphan"),
        MarkupEvent::End(ScopeKind::Item),
        MarkupEvent::Start(ScopeKind::List),
        MarkupEvent::Start(ScopeKind::Item),
        text("x"),
        MarkupEvent::End(ScopeKind::Item),
        MarkupEvent::End(ScopeKind::List),
    ];
    assert_eq!(parse_events(&events).blocks, vec![list(&["x"])]);
    let events = vec![
        MarkupEvent::Start(ScopeKind::List),
        MarkupEvent::Start(ScopeKind::Item),
        text("x"),
        MarkupEvent::End(ScopeKind::Item),
        MarkupEvent::Start(ScopeKind::Item),
        text("late"),
        MarkupEvent::End(ScopeKind::Item),
        MarkupEvent::End(ScopeKind::List),
    ];
    assert_eq!(parse_events(&events).blocks, vec![list(&["x", "late"])]);
}

#[test]
fn empty_list_is_dropped() {
    let events = vec![MarkupEvent::Start(ScopeKind::List), MarkupEvent::End(ScopeKind::List)];
    assert_eq!(parse_events(&events).blocks.len(), 0);
}

#[test]
fn accumulator_streams_events() {
    let mut acc = BlockAccumulator::new();
    acc.apply(&MarkupEvent::Start(ScopeKind::BlockQuote));
    acc.apply(&text("q"));
    acc.apply(&MarkupEvent::End(ScopeKind::BlockQuote));
    let parsed = acc.finish();
    assert_eq!(parsed.blocks, vec![ContentBlock::Quote { text: "q".to_string() }]);
}

#[test]
fn add_block_appends() {
    let mut parsed = ParsedResponse::new();
    assert_eq!(parsed.blocks.len(), 0);
    parsed.add_block(paragraph("one"));
    parsed.add_block(title(1, "two"));
    assert_eq!(parsed.blocks, vec![paragraph("one"), title(1, "two")]);
    assert_eq!(parsed.get_titles(), vec![(1, "two".to_string())]);
    assert_eq!(parsed.get_code_blocks().len(), 0);
}
