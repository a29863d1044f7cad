use action_lite::parser::MarkdownParser;

#[test]
fn parse_reads_metadata_and_sections() {
    let text = "---\nid: abc\n  status : design \nno colon here\nurl: http://x:1\n---\n\n# T\n\nignored\n## Notes\n\n  hello\nworld  \n\n## Other  \nx\r\n";
    let (meta, sections) = MarkdownParser::new(text).parse();
    assert_eq!(meta.get("id").unwrap(), "abc");
    assert_eq!(meta.get("status").unwrap(), "design");
    assert_eq!(meta.get("url").unwrap(), "http://x:1");
    assert!(meta.get("no colon here").is_none());
    assert_eq!(sections.get("Notes").unwrap(), "hello\nworld");
    assert_eq!(sections.get("Other").unwrap(), "x");
    assert!(sections.get("T").is_none());
}

#[test]
fn parse_last_duplicate_section_wins() {
    let (_, sections) = MarkdownParser::new("## Notes\n\nfoo\n\n## Notes\n\nbar").parse();
    assert_eq!(sections.get("Notes").unwrap(), "bar");
}

#[test]
fn parse_without_frontmatter_or_with_unclosed_block() {
    let (meta, sections) = MarkdownParser::new("").parse();
    assert!(meta.get("id").is_none());
    assert!(sections.get("Notes").is_none());
    let (meta, sections) = MarkdownParser::new("---\nid: 1\n## Notes\nx").parse();
    assert_eq!(meta.get("id").unwrap(), "1");
    assert!(sections.get("Notes").is_none());
}

#[test]
fn tags_and_links_are_extracted() {
    let p = MarkdownParser::new("#project #my-proj # not #a_b1! see [L](../x/y.md) and [M](z.txt) [](e.md) [N](w.md)");
    assert_eq!(p.extract_tags(), vec!["project", "my-proj", "a_b1"]);
    assert_eq!(p.extract_links(), vec!["../x/y.md", "w.md"]);
}
