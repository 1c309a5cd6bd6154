//! The content entity: construction, metadata defaults, platform names, and
//! the derived-count invariant.

use markflow::content::Content;
use markflow::content::ContentMetadata;
use markflow::content::Platform;

#[test]
fn test_content_creation() {
    let content = Content::new("Test Title".to_string(), "# Test Content".to_string());

    assert_eq!(content.title, "Test Title");
    assert_eq!(content.markdown, "# Test Content");
    assert!(content.html.is_empty());
    assert!(content.metadata.author.is_none());
    assert!(content.metadata.tags.is_empty());
}

#[test]
fn test_metadata_default() {
    let metadata = ContentMetadata::default();

    assert!(metadata.author.is_none());
    assert!(metadata.tags.is_empty());
    assert!(metadata.description.is_none());
    assert!(metadata.cover_image.is_none());
    assert!(metadata.reading_time.is_none());
    assert!(metadata.word_count.is_none());
    assert!(metadata.custom_fields.is_empty());
}

#[test]
fn test_platform_enum() {
    assert_eq!(Platform::WeChat.to_string(), "wechat");
    assert_eq!(Platform::Zhihu.to_string(), "zhihu");
    assert_eq!(Platform::All.to_string(), "all");
}

#[test]
fn test_platform_from_str() {
    assert_eq!(Platform::from_str("wechat").unwrap(), Platform::WeChat);
    assert_eq!(Platform::from_str("zhihu").unwrap(), Platform::Zhihu);
    assert_eq!(Platform::from_str("all").unwrap(), Platform::All);
    assert!(Platform::from_str("invalid").is_err());
}

#[test]
fn test_platform_from_str_ignores_case() {
    assert_eq!(Platform::from_str("WeChat").unwrap(), Platform::WeChat);
    assert_eq!(Platform::from_str("ZHIHU").unwrap(), Platform::Zhihu);
}

#[test]
fn content_test_front_matter_parsing() {
    let content_with_front_matter = r#"---
title: "Test Article"
author: "Test Author"
tags: "rust,programming"
description: "A test article"
---

# Main Content

This is the main content of the article."#;

    let content =
        Content::from_markdown_with_front_matter(content_with_front_matter.to_string()).unwrap();

    assert_eq!(content.title, "Test Article");
    assert_eq!(content.metadata.author, Some("Test Author".to_string()));
    assert_eq!(content.metadata.tags, vec!["rust", "programming"]);
    assert_eq!(content.metadata.description, Some("A test article".to_string()));
    assert!(content.markdown.contains("# Main Content"));
}

#[test]
fn test_markdown_without_front_matter() {
    let markdown = "# Simple Title\n\nSimple content.";
    let content = Content::from_markdown_with_front_matter(markdown.to_string()).unwrap();

    assert_eq!(content.title, "Simple Title");
    assert_eq!(content.markdown, markdown);
    assert!(content.metadata.author.is_none());
}

#[test]
fn test_word_count_equals_char_count() {
    let mut content = Content::new("t".to_string(), "abcde".to_string());
    content.calculate_reading_time();
    assert_eq!(content.metadata.word_count, Some(5));
    assert_eq!(content.metadata.reading_time, Some(1));

    content.update_content("x".repeat(500));
    assert_eq!(content.metadata.word_count, Some(500));
    assert_eq!(content.metadata.reading_time, Some(2));
}

#[test]
fn test_reading_time_is_at_least_one_minute() {
    let mut content = Content::new("t".to_string(), "".to_string());
    content.calculate_reading_time();
    assert_eq!(content.metadata.word_count, Some(0));
    assert_eq!(content.metadata.reading_time, Some(1));
}

#[test]
fn test_update_content_keeps_html_stale() {
    let mut content = Content::new("t".to_string(), "old".to_string());
    content.html = "<p>old</p>".to_string();
    content.update_content("new body".to_string());
    assert_eq!(content.markdown, "new body");
    assert_eq!(content.html, "<p>old</p>");
    assert_eq!(content.metadata.word_count, Some(8));
}
