//! The enrichment pipeline: stage order, fill-if-empty semantics, summary
//! generation and tag extraction.

use markflow::content::Content;
use markflow::pipeline::ContentEnhancementStage;
use markflow::pipeline::ImageProcessingStage;
use markflow::pipeline::LinkValidationStage;
use markflow::pipeline::PipelineStage;
use markflow::pipeline::ProcessingPipeline;

#[test]
fn test_default_pipeline_has_three_stages() {
    let pipeline = ProcessingPipeline::default();
    assert_eq!(pipeline.stages.len(), 3);
}

#[test]
fn test_observation_stages_leave_content_unchanged() {
    let mut content = Content::new("t".to_string(), "![a](x.png) [l](https://x)".to_string());
    let before_md = content.markdown.clone();
    let before_title = content.title.clone();
    ImageProcessingStage {}.process(&mut content).unwrap();
    LinkValidationStage {}.process(&mut content).unwrap();
    assert_eq!(content.markdown, before_md);
    assert_eq!(content.title, before_title);
    assert!(content.metadata.description.is_none());
}

#[test]
fn test_stage_names() {
    assert_eq!(ImageProcessingStage {}.name(), "图片处理");
    assert_eq!(LinkValidationStage {}.name(), "链接验证");
    assert_eq!(ContentEnhancementStage {}.name(), "内容增强");
}

#[test]
fn test_enhancement_fills_empty_description() {
    let stage = ContentEnhancementStage {};
    let mut content = Content::new(
        "t".to_string(),
        "# Heading\n\nFirst real line.\nSecond line.\n\nThird line.\nFourth line.".to_string(),
    );
    stage.process(&mut content).unwrap();
    assert_eq!(
        content.metadata.description,
        Some("First real line. Second line. Third line.".to_string()),
    );
}

#[test]
fn test_enhancement_keeps_existing_description() {
    let stage = ContentEnhancementStage {};
    let mut content = Content::new("t".to_string(), "Some body.".to_string());
    content.metadata.description = Some("already set".to_string());
    stage.process(&mut content).unwrap();
    assert_eq!(content.metadata.description, Some("already set".to_string()));
}

#[test]
fn test_summary_truncated_to_197_chars_plus_ellipsis() {
    let stage = ContentEnhancementStage {};
    let long_line = "x".repeat(300);
    let summary = stage.generate_summary(&long_line);
    assert_eq!(summary.chars().count(), 200);
    assert!(summary.ends_with("..."));
    assert_eq!(&summary[..197], &long_line[..197]);
}

#[test]
fn test_extract_tags_matches_vocabulary_case_insensitively() {
    let stage = ContentEnhancementStage {};
    let tags = stage.extract_tags("We use rust and DOCKER for 算法 work.");
    assert_eq!(tags, vec!["Rust", "算法", "Docker"]);
}

#[test]
fn test_enhancement_keeps_existing_tags() {
    let stage = ContentEnhancementStage {};
    let mut content = Content::new("t".to_string(), "rust body".to_string());
    content.metadata.tags = vec!["mine".to_string()];
    stage.process(&mut content).unwrap();
    assert_eq!(content.metadata.tags, vec!["mine"]);
}

#[test]
fn test_pipeline_runs_stages_in_sequence() {
    let pipeline = ProcessingPipeline::new()
        .add_stage(PipelineStage::Image(ImageProcessingStage {}))
        .add_stage(PipelineStage::Enhance(ContentEnhancementStage {}));
    let content = Content::new("t".to_string(), "A rust line.".to_string());
    let out = pipeline.process(content).unwrap();
    assert_eq!(out.metadata.description, Some("A rust line.".to_string()));
    assert_eq!(out.metadata.tags, vec!["Rust"]);
}
