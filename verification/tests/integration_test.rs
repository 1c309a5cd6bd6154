//! End to end: compile a document and adapt it for both platforms.

use markflow::compile::MarkdownProcessor;
use markflow::content::Platform;
use markflow::wechat::WeChatStyleAdapter;
use markflow::zhihu::ZhihuStyleAdapter;

#[test]
fn test_end_to_end_processing() {
    let processor = MarkdownProcessor::new();
    let wechat_adapter = WeChatStyleAdapter::new();
    let zhihu_adapter = ZhihuStyleAdapter::new();

    let markdown = r#"---
title: "集成测试文章"
author: "测试作者"
description: "这是一个集成测试"
tags: "测试,集成"
---

# 测试标题

这是一个测试段落，包含**粗体**文字。

## 代码示例

```rust
fn main() {
    println!("Hello, world!");
}
```

## 列表

- 项目 1
- 项目 2
- 项目 3

## 表格

| 名称 | 年龄 |
|------|------|
| 张三 | 30   |
| 李四 | 25   |
"#;

    let content = processor.process(markdown).unwrap();

    assert_eq!(content.title, "集成测试文章");
    assert_eq!(content.metadata.author, Some("测试作者".to_string()));
    assert!(!content.html.is_empty());

    assert!(wechat_adapter.validate_content(&content).is_ok());
    let wechat_html = wechat_adapter.adapt_html(&content.html).unwrap();
    assert!(wechat_html.contains("style="));

    assert!(zhihu_adapter.validate_content(&content).is_ok());
    let zhihu_html = zhihu_adapter.adapt_html(&content.html).unwrap();
    assert!(!zhihu_html.is_empty());
}

#[test]
fn test_multiple_platform_processing() {
    let processor = MarkdownProcessor::new();
    let wechat_adapter = WeChatStyleAdapter::new();
    let zhihu_adapter = ZhihuStyleAdapter::new();

    let markdown = r#"# 多平台测试

这是一个多平台处理的测试。

包含数学公式：$E = mc^2$

和代码块：

```python
def hello():
    print("Hello, World!")
```
"#;

    let content = processor.process(markdown).unwrap();

    assert_eq!(wechat_adapter.platform(), Platform::WeChat);
    let wechat_html = wechat_adapter.adapt_html(&content.html).unwrap();
    assert!(wechat_html.contains("style="));

    assert_eq!(zhihu_adapter.platform(), Platform::Zhihu);
    let zhihu_html = zhihu_adapter.adapt_html(&content.html).unwrap();
    assert!(!zhihu_html.is_empty());

    assert_ne!(wechat_html, zhihu_html);
}

#[test]
fn test_error_handling() {
    let wechat_adapter = WeChatStyleAdapter::new();

    let invalid_html = "<invalid><script>alert('test')</script>";
    let result = wechat_adapter.adapt_html(invalid_html);

    assert!(result.is_ok());
    let cleaned = result.unwrap();
    assert!(!cleaned.contains("<script>"));
}

#[test]
fn test_large_content_handling() {
    let processor = MarkdownProcessor::new();
    let wechat_adapter = WeChatStyleAdapter::new();

    let mut large_markdown = String::from("# 大文档测试\n\n");
    for i in 0..1000 {
        large_markdown.push_str(&format!("这是第{}段内容。", i));
        if i % 10 == 0 {
            large_markdown.push('\n');
        }
    }

    let content = processor.process(&large_markdown).unwrap();
    assert!(content.metadata.word_count.unwrap() > 1000);

    let validation_result = wechat_adapter.validate_content(&content);
    if validation_result.is_err() {
        let error_msg = validation_result.unwrap_err().message();
        assert!(error_msg.contains("长度") || error_msg.contains("限制"));
    }
}
