//! The Zhihu-style adapter: construction, the math toggle, code and
//! decoration passes, sanitization and validation.

use markflow::content::Content;
use markflow::content::Platform;
use markflow::zhihu::ZhihuStyleAdapter;

#[test]
fn test_zhihu_adapter_creation() {
    let adapter = ZhihuStyleAdapter::new();
    assert_eq!(adapter.platform(), Platform::Zhihu);
    assert_eq!(adapter.max_content_length, 30000);
    assert!(adapter.math_enabled);
    assert_eq!(adapter.code_highlight_theme, "github");
}

#[test]
fn test_with_math_toggle() {
    let adapter = ZhihuStyleAdapter::new().with_math(false);
    assert!(!adapter.math_enabled);
    let adapter = adapter.with_math(true);
    assert!(adapter.math_enabled);
}

#[test]
fn test_with_code_theme() {
    let adapter = ZhihuStyleAdapter::new().with_code_theme("monokai".to_string());
    assert_eq!(adapter.code_highlight_theme, "monokai");
}

#[test]
fn test_math_disabled_leaves_dollars_untouched() {
    let adapter = ZhihuStyleAdapter::new().with_math(false);
    let html = "<p>Energy: $E=mc^2$ and more</p>";
    let result = adapter.render_math_expressions(html).unwrap();
    assert_eq!(result, html);
    let adapted = adapter.adapt_html(html).unwrap();
    assert!(adapted.contains("$E=mc^2$"));
}

#[test]
fn test_math_enabled_replaces_inline_formula() {
    let adapter = ZhihuStyleAdapter::new().with_math(true);
    let html = "<p>Energy: $E=mc^2$</p>";
    let result = adapter.render_math_expressions(html).unwrap();
    assert!(!result.contains("$E=mc^2$"));
    assert!(result.contains(r#"data-tex="E=mc^2""#));
    assert!(result.contains(r#"data-mode="inline""#));
}

#[test]
fn test_math_block_formula() {
    let adapter = ZhihuStyleAdapter::new();
    let html = "<p>$$\na + b\n$$</p>";
    let result = adapter.render_math_expressions(html).unwrap();
    assert!(result.contains(r#"data-mode="display""#));
    assert!(result.contains(r#"data-tex="a + b""#));
}

#[test]
fn test_math_formula_is_escaped() {
    let adapter = ZhihuStyleAdapter::new();
    let html = "<p>$a<b$</p>";
    let result = adapter.render_math_expressions(html).unwrap();
    assert!(result.contains("a&lt;b"));
}

#[test]
fn test_zhihu_sanitization_removes_forbidden_elements() {
    let adapter = ZhihuStyleAdapter::new();
    let html = r#"<iframe src="x"></iframe><embed a/><p onmouseover="x()">Body</p>"#;
    let result = adapter.sanitize_html(html).unwrap();
    assert!(!result.contains("<iframe"));
    assert!(!result.contains("<embed"));
    assert!(!result.contains("onmouseover"));
    assert!(result.contains("Body"));
}

#[test]
fn test_code_block_enhancement() {
    let adapter = ZhihuStyleAdapter::new();
    let html = r#"<pre><code class="language-rust">fn main() {}</code></pre>"#;
    let result = adapter.enhance_code_blocks(html).unwrap();
    assert!(result.contains(r#"<div class="highlight">"#));
    assert!(result.contains(r#"data-lang="rust""#));
}

#[test]
fn test_unlabelled_code_block_gets_text_lang() {
    let adapter = ZhihuStyleAdapter::new();
    let html = "<pre><code>plain</code></pre>";
    let result = adapter.enhance_code_blocks(html).unwrap();
    assert!(result.contains(r#"data-lang="text""#));
}

#[test]
fn test_inline_code_gets_class() {
    let adapter = ZhihuStyleAdapter::new();
    let html = "<p>Use <code>let</code> here.</p>";
    let result = adapter.enhance_code_blocks(html).unwrap();
    assert!(result.contains(r#"<code class="inline-code">let</code>"#));
}

#[test]
fn test_image_class_merge() {
    let adapter = ZhihuStyleAdapter::new();
    let plain = adapter.optimize_images(r#"<img src="a.png">"#).unwrap();
    assert!(plain.contains(r#"class="ztext-image""#));
    let merged = adapter.optimize_images(r#"<img class="pic" src="a.png">"#).unwrap();
    assert!(merged.contains(r#"class="pic ztext-image""#));
}

#[test]
fn test_table_and_list_decoration() {
    let adapter = ZhihuStyleAdapter::new();
    let tables = adapter.enhance_tables("<table><tr><td>x</td></tr></table>").unwrap();
    assert!(tables.contains(r#"<table class="ztext-table">"#));
    let lists = adapter.process_lists("<ol><li>a</li></ol><ul><li>b</li></ul>").unwrap();
    assert!(lists.contains(r#"<ol class="ztext-list">"#));
    assert!(lists.contains(r#"<ul class="ztext-list">"#));
}

#[test]
fn test_zhihu_title_of_65_chars_passes() {
    let adapter = ZhihuStyleAdapter::new();
    let content = Content::new("t".repeat(65), "body".to_string());
    assert!(adapter.validate_content(&content).is_ok());
}

#[test]
fn test_zhihu_validation_empty_title_fails() {
    let adapter = ZhihuStyleAdapter::new();
    let content = Content::new("".to_string(), "body".to_string());
    let msg = adapter.validate_content(&content).unwrap_err().message();
    assert_eq!(msg, "知乎内容验证失败: title: 标题不能为空");
}

#[test]
fn test_zhihu_keyword_warning_does_not_block() {
    let adapter = ZhihuStyleAdapter::new();
    let content = Content::new("题".to_string(), "本文不是广告。".to_string());
    assert!(adapter.validate_content(&content).is_ok());
}

#[test]
fn test_zhihu_adapt_pipeline() {
    let adapter = ZhihuStyleAdapter::new();
    let html = r#"<script>x</script><p>$a+b$</p><img src="i.png"><table></table>"#;
    let result = adapter.adapt_html(html).unwrap();
    assert!(!result.contains("<script"));
    assert!(result.contains(r#"data-tex="a+b""#));
    assert!(result.contains(r#"class="ztext-image""#));
    assert!(result.contains(r#"class="ztext-table""#));
}
