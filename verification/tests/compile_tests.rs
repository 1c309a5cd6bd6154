//! The document compiler: front-matter parsing, title precedence, rendering,
//! derived counts, and the reference scans.

use markflow::compile::MarkdownProcessor;

#[test]
fn test_simple_markdown_processing() {
    let processor = MarkdownProcessor::new();
    let markdown = "# Test Title\n\nThis is a **bold** text.";

    let content = processor.process(markdown).unwrap();

    assert_eq!(content.title, "Test Title");
    assert!(content.html.contains("<h1>"));
    assert!(content.html.contains("<strong>"));
    assert!(content.html.contains("bold"));
}

#[test]
fn processor_test_front_matter_parsing() {
    let processor = MarkdownProcessor::new();
    let markdown_with_front_matter = r#"---
title: "Custom Title"
author: "Test Author"
tags: "rust,markdown"
description: "Test description"
---

# Heading

Content here."#;

    let content = processor.process(markdown_with_front_matter).unwrap();

    assert_eq!(content.title, "Custom Title");
    assert_eq!(content.metadata.author, Some("Test Author".to_string()));
    assert_eq!(content.metadata.tags, vec!["rust", "markdown"]);
    assert_eq!(content.metadata.description, Some("Test description".to_string()));
}

#[test]
fn test_table_rendering() {
    let processor = MarkdownProcessor::new();
    let markdown = r#"
| Name | Age |
|------|-----|
| John | 30  |
| Jane | 25  |
"#;

    let content = processor.process(markdown).unwrap();

    assert!(content.html.contains("<table>"));
    assert!(content.html.contains("<th>"));
    assert!(content.html.contains("<td>"));
    assert!(content.html.contains("John"));
    assert!(content.html.contains("Jane"));
}

#[test]
fn test_code_block_rendering() {
    let processor = MarkdownProcessor::new();
    let markdown = r#"
```rust
fn main() {
    println!("Hello, world!");
}
```
"#;

    let content = processor.process(markdown).unwrap();

    assert!(content.html.contains("<code") || content.html.contains("<pre>"));
    assert!(content.html.contains("fn main"));
}

#[test]
fn test_title_extraction() {
    let processor = MarkdownProcessor::new();

    let markdown1 = "# First Heading\n\nContent.";
    let content1 = processor.process(markdown1).unwrap();
    assert_eq!(content1.title, "First Heading");

    let markdown2 = "Just some content without heading.";
    let content2 = processor.process(markdown2).unwrap();
    assert_eq!(content2.title, "无标题");
}

#[test]
fn test_word_count_calculation() {
    let processor = MarkdownProcessor::new();
    let markdown = "This is a test content with exactly ten words in it.";

    let content = processor.process(markdown).unwrap();

    assert!(content.metadata.word_count.is_some());
    assert!(content.metadata.word_count.unwrap() > 0);
}

#[test]
fn test_reading_time_calculation() {
    let processor = MarkdownProcessor::new();
    let words = vec!["word"; 300];
    let markdown = format!("# Title\n\n{}", words.join(" "));

    let content = processor.process(&markdown).unwrap();

    assert!(content.metadata.reading_time.unwrap() >= 1);
}

#[test]
fn test_empty_markdown() {
    let processor = MarkdownProcessor::new();
    let content = processor.process("").unwrap();

    assert_eq!(content.title, "无标题");
    assert_eq!(content.markdown, "");
    assert_eq!(content.metadata.word_count, Some(0));
    assert_eq!(content.metadata.reading_time, Some(1));
}

#[test]
fn test_no_front_matter_is_identity() {
    let processor = MarkdownProcessor::new();
    let input = "plain text\nwith --- in the middle\n";
    let (pairs, body) = processor.parse_front_matter(input);
    assert!(pairs.is_empty());
    assert_eq!(body, input);
}

#[test]
fn test_front_matter_block_removed_exactly_once() {
    let processor = MarkdownProcessor::new();
    let input = "---\na: b\nskipped line\nc: \"d\"\n---\nbody text";
    let (pairs, body) = processor.parse_front_matter(input);
    assert_eq!(body, "body text");
    assert_eq!(pairs.len(), 2);
    assert_eq!(pairs[0], ("a".to_string(), "b".to_string()));
    assert_eq!(pairs[1], ("c".to_string(), "d".to_string()));
    // The input is exactly the opening marker, the block, the closing
    // marker, and the returned body.
    assert_eq!(format!("---\na: b\nskipped line\nc: \"d\"\n---\n{}", body), input);
}

#[test]
fn test_title_precedence() {
    let processor = MarkdownProcessor::new();

    let fm_wins = "---\ntitle: \"X\"\n---\n# Y\n";
    assert_eq!(processor.process(fm_wins).unwrap().title, "X");

    let heading = "# Y\n\nbody";
    assert_eq!(processor.process(heading).unwrap().title, "Y");

    let placeholder = "no heading here";
    assert_eq!(processor.process(placeholder).unwrap().title, "无标题");
}

#[test]
fn test_heading_found_anywhere_in_body() {
    let processor = MarkdownProcessor::new();
    let markdown = "intro paragraph\n\n# Late Heading\n\nmore";
    assert_eq!(processor.process(markdown).unwrap().title, "Late Heading");
}

#[test]
fn test_extract_images() {
    let processor = MarkdownProcessor::new();
    let markdown = "text ![alt](img/a.png) and ![b](https://x/b.jpg)";
    let images = processor.extract_images(markdown).unwrap();
    assert_eq!(images, vec!["img/a.png", "https://x/b.jpg"]);
}

#[test]
fn test_extract_links() {
    let processor = MarkdownProcessor::new();
    let markdown = "[home](https://example.com) and [rel](./doc.md)";
    let links = processor.extract_links(markdown).unwrap();
    assert_eq!(links, vec!["https://example.com", "./doc.md"]);
}

#[test]
fn test_custom_fields_kept_verbatim() {
    let processor = MarkdownProcessor::new();
    let input = "---\ntitle: \"T\"\nslug: my-post\nlayout: wide\n---\nbody";
    let content = processor.process(input).unwrap();
    assert_eq!(content.metadata.custom_fields.len(), 2);
    assert_eq!(content.metadata.custom_fields[0], ("slug".to_string(), "my-post".to_string()));
    assert_eq!(content.metadata.custom_fields[1], ("layout".to_string(), "wide".to_string()));
}

#[test]
fn test_tags_trimmed_and_empty_dropped() {
    let processor = MarkdownProcessor::new();
    let input = "---\ntags: \" a , ,b,\"\n---\nbody";
    let content = processor.process(input).unwrap();
    assert_eq!(content.metadata.tags, vec!["a", "b"]);
}
