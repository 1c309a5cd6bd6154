//! The WeChat-style adapter: creation, each rewrite pass, the full pipeline,
//! and validation.

use markflow::content::Content;
use markflow::content::Platform;
use markflow::wechat::WeChatStyleAdapter;

#[test]
fn test_wechat_adapter_creation() {
    let adapter = WeChatStyleAdapter::new();
    assert_eq!(adapter.platform(), Platform::WeChat);
    assert_eq!(adapter.max_content_length, 20000);
    assert!(!adapter.inline_styles.is_empty());
}

#[test]
fn test_inline_styles_application() {
    let adapter = WeChatStyleAdapter::new();
    let html = "<h1>Test Title</h1><p>Test content</p>";

    let result = adapter.inline_all_styles(html).unwrap();

    assert!(result.contains("style="));
    assert!(result.contains("font-size: 24px"));
    assert!(result.contains("font-size: 16px"));
}

#[test]
fn test_external_links_conversion() {
    let adapter = WeChatStyleAdapter::new();
    let html = r#"<p>Visit <a href="https://example.com">Example</a> and <a href="/internal">Internal</a>.</p>"#;

    let result = adapter.convert_external_links(html).unwrap();

    assert!(result.contains("Example[1]"));
    assert!(result.contains("参考链接"));
    assert!(result.contains("https://example.com"));
    assert!(result.contains("Internal"));
}

#[test]
fn test_mobile_optimization() {
    let adapter = WeChatStyleAdapter::new();
    let html = r#"<img src="test.jpg"><table><tr><td>data</td></tr></table>"#;

    let result = adapter.optimize_for_mobile(html).unwrap();

    assert!(result.contains("max-width: 100%"));
    assert!(result.contains("overflow-x: auto"));
}

#[test]
fn test_html_sanitization() {
    let adapter = WeChatStyleAdapter::new();
    let html = r#"<script>alert('test')</script><p onclick="alert('click')">Content</p><style>body{color:red}</style>"#;

    let result = adapter.sanitize_html(html).unwrap();

    assert!(!result.contains("<script>"));
    assert!(!result.contains("<style>"));
    assert!(!result.contains("onclick"));
    assert!(result.contains("Content"));
}

#[test]
fn test_content_validation() {
    let adapter = WeChatStyleAdapter::new();

    let content = Content::new("Valid Title".to_string(), "Short content".to_string());
    assert!(adapter.validate_content(&content).is_ok());

    let mut invalid_content = Content::new("".to_string(), "Content".to_string());
    assert!(adapter.validate_content(&invalid_content).is_err());

    invalid_content.title = "a".repeat(100);
    assert!(adapter.validate_content(&invalid_content).is_err());
}

#[test]
fn test_full_adaptation_flow() {
    let adapter = WeChatStyleAdapter::new();
    let html = r#"<h1>Test</h1><p>Content with <a href="https://example.com">link</a></p>"#;

    let result = adapter.adapt_html(html).unwrap();

    assert!(result.contains("style="));
    assert!(result.contains("link[1]"));
    assert!(result.contains("参考链接"));
    assert!(!result.contains("<script>"));
}

#[test]
fn test_sanitize_never_leaves_script_or_style() {
    let adapter = WeChatStyleAdapter::new();
    // An unclosed script element and a split-up marker that plain block
    // removal would reassemble.
    let nasty = "<scr<style></style>ipt>alert(1)<script>boom";
    let result = adapter.adapt_html(nasty).unwrap();
    assert!(!result.contains("<script"));
    assert!(!result.contains("<style"));
}

#[test]
fn test_adapted_images_carry_style() {
    let adapter = WeChatStyleAdapter::new();
    let html = r#"<p>a</p><img src="x.png"><img src="y.png" style="width: 50%">"#;
    let result = adapter.adapt_html(html).unwrap();
    // Every image tag in the output carries a style attribute.
    for (idx, _) in result.match_indices("<img") {
        let rest = &result[idx..];
        let tag_end = rest.find('>').unwrap();
        assert!(rest[..tag_end].contains("style="));
    }
}

#[test]
fn test_style_merge_appends_not_replaces() {
    let adapter = WeChatStyleAdapter::new();
    let html = r#"<p style="color: red">x</p>"#;
    let result = adapter.inline_all_styles(html).unwrap();
    // The existing declarations come first, the platform's are appended.
    assert!(result.contains(r#"style="color: red; font-size: 16px"#));
}

#[test]
fn test_repeated_adaptation_duplicates_declarations() {
    let adapter = WeChatStyleAdapter::new();
    let html = "<p>x</p>";
    let once = adapter.adapt_html(html).unwrap();
    let twice = adapter.adapt_html(&once).unwrap();
    // The merge is append-only, so a second run appends the paragraph
    // declarations again: repeated runs grow the style attribute.
    assert!(twice.len() > once.len());
    assert_eq!(once.matches("font-size: 16px").count(), 1);
    assert_eq!(twice.matches("font-size: 16px").count(), 2);
}

#[test]
fn test_relative_anchor_yields_no_footnote() {
    let adapter = WeChatStyleAdapter::new();
    let html = r#"<p><a href="/docs">Guide</a></p>"#;
    let result = adapter.convert_external_links(html).unwrap();
    assert!(!result.contains("[1]"));
    assert!(!result.contains("参考链接"));
    assert!(result.contains("<span style="));
    assert!(result.contains("Guide"));
}

#[test]
fn test_wechat_title_of_65_chars_fails() {
    let adapter = WeChatStyleAdapter::new();
    let mut content = Content::new("t".repeat(65), "body".to_string());
    content.markdown = "body".to_string();
    let result = adapter.validate_content(&content);
    assert!(result.is_err());
    let msg = result.unwrap_err().message();
    assert!(msg.contains("title"));
}

#[test]
fn test_wechat_validation_message_content() {
    let adapter = WeChatStyleAdapter::new();
    let content = Content::new("".to_string(), "body".to_string());
    let msg = adapter.validate_content(&content).unwrap_err().message();
    assert_eq!(msg, "微信公众号内容验证失败: title: 标题不能为空");
}

#[test]
fn test_preprocess_images_passthrough() {
    let adapter = WeChatStyleAdapter::new();
    let html = r#"<img src="a.png">"#;
    assert_eq!(adapter.preprocess_images(html).unwrap(), html);
}
