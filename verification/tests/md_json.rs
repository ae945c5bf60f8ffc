use promptforge::md_json::chunk_markdown;

fn types(source: &str) -> Vec<String> {
    chunk_markdown(source)
        .into_iter()
        .map(|block| block.block_type)
        .collect()
}

#[test]
fn empty_input_yields_no_blocks() {
    assert!(chunk_markdown("").is_empty());
    assert!(chunk_markdown("\n\n").is_empty());
}

#[test]
fn no_heading_input_has_empty_section_paths() {
    let blocks = chunk_markdown("just a paragraph\n\nand another\n");
    assert_eq!(
        types("just a paragraph\n\nand another\n"),
        ["paragraph", "paragraph"]
    );
    assert!(blocks.iter().all(|block| block.section.is_empty()));
    assert_eq!(blocks[0].content, "just a paragraph\n");
    assert_eq!(blocks[1].content, "and another\n");
    assert_eq!(blocks[0].line, 1);
    assert_eq!(blocks[1].line, 3);
}

#[test]
fn preamble_before_first_heading_has_empty_section() {
    let blocks = chunk_markdown("before\n\n# H\n\nafter\n");
    assert_eq!(
        types("before\n\n# H\n\nafter\n"),
        ["paragraph", "h1", "paragraph"]
    );
    assert_eq!(blocks[0].section, [] as [String; 0]);
    assert_eq!(blocks[1].section, ["H"]);
    assert_eq!(blocks[2].section, ["H"]);
    assert_eq!(blocks[0].line, 1);
    assert_eq!(blocks[1].line, 3);
    assert_eq!(blocks[2].line, 5);
}

#[test]
fn heading_hierarchy_snapshots_the_stack() {
    let source =
        "# 1 Introduction\n\nbody\n\n## 1.1 Motivation\n\nmore\n\n### Deep\n\n## 1.2 Next\n";
    let blocks = chunk_markdown(source);
    assert_eq!(
        types(source),
        ["h1", "paragraph", "h2", "paragraph", "h3", "h2"]
    );
    assert_eq!(blocks[0].content, "1 Introduction");
    assert_eq!(blocks[0].section, ["1 Introduction"]);
    assert_eq!(blocks[1].section, ["1 Introduction"]);
    assert_eq!(blocks[2].section, ["1 Introduction", "1.1 Motivation"]);
    assert_eq!(blocks[3].section, ["1 Introduction", "1.1 Motivation"]);
    assert_eq!(
        blocks[4].section,
        ["1 Introduction", "1.1 Motivation", "Deep"]
    );
    assert_eq!(blocks[5].section, ["1 Introduction", "1.2 Next"]);
}

#[test]
fn skip_level_heading_does_not_invent_parents() {
    let blocks = chunk_markdown("# A\n\n### C\n");
    assert_eq!(blocks[0].section, ["A"]);
    assert_eq!(blocks[1].section, ["A", "C"]);
    assert_eq!(blocks[1].block_type, "h3");
}

#[test]
fn adjacent_headings_have_no_body_between_them() {
    let blocks = chunk_markdown("# A\n## B\n");
    assert_eq!(types("# A\n## B\n"), ["h1", "h2"]);
    assert_eq!(blocks[0].content, "A");
    assert_eq!(blocks[1].content, "B");
    assert_eq!(blocks[0].line, 1);
    assert_eq!(blocks[1].line, 2);
    assert_eq!(blocks[1].section, ["A", "B"]);
}

#[test]
fn heading_flattens_inline_markup() {
    let blocks = chunk_markdown("# Use `foo` and *bar*\n");
    assert_eq!(blocks[0].content, "Use foo and bar");
    assert_eq!(blocks[0].block_type, "h1");
}

#[test]
fn fenced_code_with_and_without_lang() {
    let with_lang = chunk_markdown("```cpp\nint x; // c\n```\n");
    assert_eq!(with_lang[0].block_type, "code_block");
    assert_eq!(with_lang[0].lang.as_deref(), Some("cpp"));
    assert_eq!(with_lang[0].content, "int x; // c\n");
    assert_eq!(with_lang[0].line, 1);

    let no_lang = chunk_markdown("```\nfoo\n```\n");
    assert_eq!(no_lang[0].lang.as_deref(), Some(""));
    assert_eq!(no_lang[0].content, "foo\n");
}

#[test]
fn indented_code_has_empty_lang_and_unindented_body() {
    let blocks = chunk_markdown("para\n\n    code\n    more\n");
    assert_eq!(
        types("para\n\n    code\n    more\n"),
        ["paragraph", "code_block"]
    );
    assert_eq!(blocks[1].lang.as_deref(), Some(""));
    assert_eq!(blocks[1].content, "code\nmore\n");
    assert_eq!(blocks[1].line, 3);
}

#[test]
fn table_is_a_raw_source_slice() {
    let source = "| A | B |\n|---|---|\n| 1 | 2 |\n";
    let blocks = chunk_markdown(source);
    assert_eq!(types(source), ["table"]);
    assert_eq!(blocks[0].content, source);
    assert_eq!(blocks[0].line, 1);
    assert!(blocks[0].lang.is_none());
}

#[test]
fn list_is_one_block_and_does_not_break_out_items() {
    let source = "- a\n- b\n\npara\n";
    let blocks = chunk_markdown(source);
    assert_eq!(types(source), ["list", "paragraph"]);
    assert_eq!(blocks[0].content, "- a\n- b\n\n");
    assert_eq!(blocks[1].content, "para\n");
}

#[test]
fn nested_list_stays_one_block() {
    let source = "- a\n  - b\n";
    let blocks = chunk_markdown(source);
    assert_eq!(types(source), ["list"]);
    assert_eq!(blocks[0].content, source);
}

#[test]
fn code_inside_a_list_is_not_its_own_block() {
    let source = "- item\n\n      code\n";
    let blocks = chunk_markdown(source);
    assert_eq!(types(source), ["list"]);
    assert_eq!(blocks[0].content, source);
}

#[test]
fn blockquote_is_the_raw_source_slice() {
    let source = "> hello\n>\n> world\n";
    let blocks = chunk_markdown(source);
    assert_eq!(types(source), ["blockquote"]);
    assert_eq!(blocks[0].content, source);
    assert_eq!(blocks[0].line, 1);
}

#[test]
fn nested_heading_in_blockquote_does_not_update_the_stack() {
    let source = "> # Nested\n>\n> text\n\n# Real\n";
    let blocks = chunk_markdown(source);
    assert_eq!(types(source), ["blockquote", "h1"]);
    assert!(blocks[0].section.is_empty());
    assert_eq!(blocks[1].section, ["Real"]);
    assert_eq!(blocks[1].content, "Real");
}

#[test]
fn thematic_break_is_its_own_block() {
    let source = "para\n\n---\n\nmore\n";
    let blocks = chunk_markdown(source);
    assert_eq!(types(source), ["paragraph", "thematic_break", "paragraph"]);
    assert_eq!(blocks[1].content, "---\n");
    assert_eq!(blocks[1].line, 3);
    assert_eq!(blocks[2].line, 5);
}

#[test]
fn html_block_is_the_raw_source_slice() {
    let source = "<div>\nhi\n</div>\n\npara\n";
    let blocks = chunk_markdown(source);
    assert_eq!(types(source), ["html_block", "paragraph"]);
    assert_eq!(blocks[0].content, "<div>\nhi\n</div>\n");
    assert_eq!(blocks[0].line, 1);
    assert_eq!(blocks[1].line, 5);
}

#[test]
fn paragraph_keeps_raw_inline_markdown() {
    let source = "a *b* `c` [d](e)\n";
    let blocks = chunk_markdown(source);
    assert_eq!(blocks[0].block_type, "paragraph");
    assert_eq!(blocks[0].content, source);
}

#[test]
fn setext_heading_uses_inline_text_and_start_line() {
    let source = "Title\n=====\n\npara\n";
    let blocks = chunk_markdown(source);
    assert_eq!(types(source), ["h1", "paragraph"]);
    assert_eq!(blocks[0].content, "Title");
    assert_eq!(blocks[0].line, 1);
    assert_eq!(blocks[1].line, 4);
}

#[test]
fn line_numbers_are_one_based_across_blank_lines() {
    let source = "# 1 Introduction\n\nWe propose a change to...\n\n```cpp\nint x;\n```\n";
    let blocks = chunk_markdown(source);
    assert_eq!(blocks[0].line, 1);
    assert_eq!(blocks[1].line, 3);
    assert_eq!(blocks[2].line, 5);
    assert_eq!(blocks[2].block_type, "code_block");
}

#[test]
fn lang_is_absent_on_non_code_blocks() {
    let blocks = chunk_markdown("# H\n\npara\n\n---\n");
    assert!(blocks.iter().all(|block| block.lang.is_none()));
}
