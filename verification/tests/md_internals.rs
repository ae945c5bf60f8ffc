use promptforge::lines::{line_number, line_starts, slice};
use promptforge::md_events::{attach_tags, markdown_events, EventShape, ShapedEvent};
use promptforge::md_json::{
    chunk_events, heading_block_type, section_path, thematic_break, BlockTag, CodeBlockKind,
    EventKind, MdEvent, Open,
};

fn ev(kind: EventKind, start: usize, end: usize) -> MdEvent {
    MdEvent { kind, start, end }
}

#[test]
fn line_starts_name_every_line() {
    assert_eq!(line_starts(""), vec![0]);
    assert_eq!(line_starts("a\nbc\n"), vec![0, 2, 5]);
    assert_eq!(line_starts("\n\n"), vec![0, 1, 2]);
    assert_eq!(line_starts("é\nx"), vec![0, 3]);
}

#[test]
fn line_number_counts_newlines_before_the_offset() {
    let starts = line_starts("a\nbc\n\nd");
    assert_eq!(line_number(&starts, 0), 1);
    assert_eq!(line_number(&starts, 1), 1);
    assert_eq!(line_number(&starts, 2), 2);
    assert_eq!(line_number(&starts, 5), 3);
    assert_eq!(line_number(&starts, 6), 4);
    assert_eq!(line_number(&starts, 1000), 4);
    assert_eq!(line_number(&[], 7), 1);
}

#[test]
fn slice_is_empty_unless_the_range_is_valid() {
    let source = "héllo";
    assert_eq!(slice(source, 0, 1), "h");
    assert_eq!(slice(source, 1, 3), "é");
    assert_eq!(slice(source, 1, 2), "", "splits a character");
    assert_eq!(slice(source, 3, 1), "", "reversed");
    assert_eq!(slice(source, 0, 100), "", "out of bounds");
    assert_eq!(slice(source, 0, 6), "héllo");
}

#[test]
fn heading_block_types() {
    assert_eq!(heading_block_type(1), "h1");
    assert_eq!(heading_block_type(6), "h6");
}

#[test]
fn section_path_lists_titles() {
    let stack = vec![(1u8, "A".to_string()), (3u8, "C".to_string())];
    assert_eq!(section_path(&stack), vec!["A", "C"]);
    assert!(section_path(&[]).is_empty());
}

#[test]
fn thematic_break_slices_its_range() {
    let source = "para\n\n---\n";
    let starts = line_starts(source);
    let block = thematic_break(source, 6, 10, &starts, &[(2u8, "S".to_string())]);
    assert_eq!(block.block_type, "thematic_break");
    assert_eq!(block.content, "---\n");
    assert_eq!(block.line, 3);
    assert_eq!(block.section, ["S"]);
    assert!(block.lang.is_none());
}

#[test]
fn open_blocks_collect_text_by_kind() {
    let mut heading = Open::from_tag(&BlockTag::Heading(2), 0).unwrap();
    heading.collect_text("a", false);
    heading.collect_text("b", true);
    let mut code = Open::from_tag(&BlockTag::CodeBlock(CodeBlockKind::Fenced("rs".into())), 0).unwrap();
    code.collect_text("x", false);
    code.collect_text("y", true);
    assert!(Open::from_tag(&BlockTag::Other, 0).is_none());

    let mut stack = vec![(1u8, "Top".to_string()), (2u8, "Old".to_string()), (3u8, "Deep".to_string())];
    let starts = line_starts("# t\n");
    let block = heading.finish("# t\n", 4, &starts, &mut stack);
    assert_eq!(block.block_type, "h2");
    assert_eq!(block.content, "ab");
    assert_eq!(block.section, ["Top", "ab"]);
    assert_eq!(stack.len(), 2);

    let block = code.finish("# t\n", 4, &starts, &mut stack);
    assert_eq!(block.block_type, "code_block");
    assert_eq!(block.content, "x");
    assert_eq!(block.lang.as_deref(), Some("rs"));
}

#[test]
fn chunk_events_walks_only_top_level_blocks() {
    let source = "> # Nested\n\n# Real\n\nbody\n";
    let events = vec![
        ev(EventKind::Start(BlockTag::BlockQuote), 0, 11),
        ev(EventKind::Start(BlockTag::Heading(1)), 2, 11),
        ev(EventKind::Text("Nested".into()), 4, 10),
        ev(EventKind::End, 2, 11),
        ev(EventKind::End, 0, 11),
        ev(EventKind::Start(BlockTag::Heading(1)), 12, 19),
        ev(EventKind::Text("Real".into()), 14, 18),
        ev(EventKind::End, 12, 19),
        ev(EventKind::Start(BlockTag::Paragraph), 20, 25),
        ev(EventKind::Text("body".into()), 20, 24),
        ev(EventKind::End, 20, 25),
        ev(EventKind::Rule, 0, 0),
    ];
    let blocks = chunk_events(source, &events);
    let types: Vec<&str> = blocks.iter().map(|b| b.block_type.as_str()).collect();
    assert_eq!(types, ["blockquote", "h1", "paragraph", "thematic_break"]);
    assert_eq!(blocks[0].content, "> # Nested\n");
    assert!(blocks[0].section.is_empty());
    assert_eq!(blocks[1].section, ["Real"]);
    assert_eq!(blocks[1].line, 3);
    assert_eq!(blocks[2].content, "body\n");
    assert_eq!(blocks[2].section, ["Real"]);
    assert_eq!(blocks[3].content, "");
}

#[test]
fn unbalanced_end_events_are_harmless() {
    let blocks = chunk_events("x", &[ev(EventKind::End, 0, 1), ev(EventKind::Text("x".into()), 0, 1)]);
    assert!(blocks.is_empty());
}

#[test]
fn attach_tags_gives_each_start_the_tag_of_its_position() {
    let shapes = vec![
        ShapedEvent { shape: EventShape::Start, start: 0, end: 3 },
        ShapedEvent { shape: EventShape::Text("hi".into()), start: 0, end: 2 },
        ShapedEvent { shape: EventShape::End, start: 0, end: 3 },
        ShapedEvent { shape: EventShape::Start, start: 4, end: 5 },
        ShapedEvent { shape: EventShape::Start, start: 6, end: 7 },
    ];
    let tags = [BlockTag::Paragraph, BlockTag::Other, BlockTag::Other, BlockTag::Table];
    let events = attach_tags(&shapes, &tags);
    assert!(matches!(events[0].kind, EventKind::Start(BlockTag::Paragraph)));
    assert!(matches!(&events[1].kind, EventKind::Text(t) if t == "hi"));
    assert!(matches!(events[2].kind, EventKind::End));
    assert!(matches!(events[3].kind, EventKind::Start(BlockTag::Table)));
    assert!(matches!(events[4].kind, EventKind::Start(BlockTag::Other)));
    assert_eq!((events[4].start, events[4].end), (6, 7));
}

#[test]
fn markdown_events_carry_tags_and_offsets() {
    let events = markdown_events("## Hi\n\n```rs\nx\n```\n");
    assert!(matches!(events[0].kind, EventKind::Start(BlockTag::Heading(2))));
    assert_eq!((events[0].start, events[0].end), (0, 6));
    assert!(events.iter().any(|e| matches!(&e.kind,
        EventKind::Start(BlockTag::CodeBlock(CodeBlockKind::Fenced(info))) if info == "rs")));
    assert!(matches!(&events[1].kind, EventKind::Text(t) if t == "Hi"));
    assert!(matches!(events[2].kind, EventKind::End));
}

#[test]
fn papergate_sample_is_chunked_as_the_guide_describes() {
    let fence = "```";
    let md = [
        "Preamble paragraph.", "", "# 1 Introduction", "", "We propose a change to...", "",
        &format!("{fence}cpp"), "int x; // must be trivially relocatable", fence, "",
        "## 1.1 Motivation", "", "| A | B |", "|---|---|", "| 1 | 2 |", "", "- first", "- second",
        "", "> a quote", "", "---", "", "<div>", "html", "</div>",
    ]
    .join("\n")
        + "\n";
    let b = promptforge::md_json::chunk_markdown(&md);
    let summary: Vec<(&str, u32)> = b.iter().map(|x| (x.block_type.as_str(), x.line)).collect();
    assert_eq!(
        summary,
        [
            ("paragraph", 1), ("h1", 3), ("paragraph", 5), ("code_block", 7), ("h2", 11),
            ("table", 13), ("list", 17), ("blockquote", 20), ("thematic_break", 22),
            ("html_block", 24),
        ]
    );
    assert_eq!(b[3].lang.as_deref(), Some("cpp"));
    assert_eq!(b[3].content, "int x; // must be trivially relocatable\n");
    assert_eq!(b[4].section, ["1 Introduction", "1.1 Motivation"]);
    assert_eq!(b[9].content, "<div>\nhtml\n</div>\n");
    assert_eq!(b[9].section[1], "1.1 Motivation");
}
