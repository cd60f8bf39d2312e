use shore::markdown::{
    find_closing_delimiter, find_closing_single, parse_heading, parse_inline_styles, parse_line, parse_link, parse_markdown,
    MdStyle,
};

#[test]
fn test_parse_heading() {
    let text = parse_markdown("# Heading 1\n## Heading 2\n### Heading 3");
    assert_eq!(text.len(), 3);
    assert_eq!(text[1].spans[0].style, MdStyle::Heading(2));
    assert_eq!(text[1].spans[0].text, "Heading 2");
}

#[test]
fn test_parse_bold() {
    let text = parse_markdown("This is **bold** text");
    assert_eq!(text.len(), 1);
    let styles: Vec<MdStyle> = text[0].spans.iter().map(|s| s.style).collect();
    assert_eq!(styles, vec![MdStyle::Plain, MdStyle::Bold, MdStyle::Plain]);
    assert_eq!(text[0].spans[1].text, "bold");
}

#[test]
fn test_parse_italic() {
    let text = parse_markdown("This is *italic* text");
    assert_eq!(text.len(), 1);
    assert_eq!(text[0].spans[1].style, MdStyle::Italic);
    assert_eq!(text[0].spans[1].text, "italic");
}

#[test]
fn test_parse_code() {
    let text = parse_markdown("This is `code` text");
    assert_eq!(text.len(), 1);
    assert_eq!(text[0].spans[1].style, MdStyle::Code);
    assert_eq!(text[0].spans[1].text, "code");
}

#[test]
fn test_parse_link() {
    let text = parse_markdown("Check [this link](https://example.com) out");
    assert_eq!(text.len(), 1);
    assert_eq!(text[0].spans[1].style, MdStyle::Link);
    assert_eq!(text[0].spans[1].text, "this link (https://example.com)");
}

#[test]
fn fenced_block_lines_are_verbatim() {
    // Six lines: five line breaks and the text after the last one. A count of
    // five cannot hold for this input, since every line is rendered.
    let input = "Normal text\n```markdown\n# This is not a heading\n**not bold**\n```\nBack to normal";
    let text = parse_markdown(input);
    assert_eq!(text.len(), 6);
    assert_eq!(text[5].spans[0].style, MdStyle::Plain);
    for line in &text[1..5] {
        assert_eq!(line.spans.len(), 1);
        assert_eq!(line.spans[0].style, MdStyle::CodeBlock);
    }
    assert_eq!(text[2].spans[0].text, "# This is not a heading");
}

#[test]
fn empty_text_renders_one_line() {
    let text = parse_markdown("");
    assert_eq!(text.len(), 1);
    assert_eq!(text[0].spans[0].text, "");
}

#[test]
fn unclosed_markers_stay_plain() {
    let spans = parse_inline_styles("a *b");
    let joined: String = spans.iter().map(|s| s.text.clone()).collect();
    assert_eq!(joined, "a *b");
    let spans = parse_inline_styles("plain words");
    assert_eq!(spans.len(), 1);
    assert_eq!(spans[0].style, MdStyle::Plain);
}

#[test]
fn indented_line_keeps_its_indent() {
    let line = parse_line("   **x**");
    assert_eq!(line.spans[0].text, "   ");
    assert_eq!(line.spans[1].style, MdStyle::Bold);
    assert!(parse_heading("#").is_none());
    assert!(parse_heading("text").is_none());
    let h = parse_heading("######## deep").unwrap();
    assert_eq!(h.spans[0].style, MdStyle::Heading(6));
    assert_eq!(h.spans[0].text, "## deep");
}

#[test]
fn delimiter_search() {
    let chars: Vec<char> = "ab**cd**".chars().collect();
    assert_eq!(find_closing_delimiter(&chars, 0, "**"), Some(2));
    assert_eq!(find_closing_delimiter(&chars, 3, "**"), Some(6));
    assert_eq!(find_closing_delimiter(&chars, 7, "**"), None);
    assert_eq!(find_closing_single(&chars, 0, 'c'), Some(4));
    assert_eq!(find_closing_single(&chars, 5, 'c'), None);
    let link: Vec<char> = "[t](u) [x] (y)".chars().collect();
    assert_eq!(parse_link(&link, 0), Some(("t".to_string(), "u".to_string(), 6)));
    assert_eq!(parse_link(&link, 7), None);
}

#[test]
fn line_splitting_matches_str_lines() {
    for input in ["", "a", "a\r\nb\n", "a\rb", "x\n\ny", "\n", "end\r", "one\n\r\ntwo\r\n"] {
        let expected: Vec<String> = input.lines().map(|l| l.to_string()).collect();
        assert_eq!(shore::text::split_lines(input), expected, "input {:?}", input);
    }
    assert_eq!(shore::text::int_text(i64::MIN), "-9223372036854775808");
    assert_eq!(shore::text::int_text(0), "0");
    assert_eq!(shore::text::int_text(1203), "1203");
}
