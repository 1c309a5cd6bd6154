//! The enrichment pipeline: an ordered list of independent stages, each
//! given exclusive mutable access to a `Content`. Image discovery and link
//! validation only observe in this core; content enhancement fills the
//! description and the tag list when they are empty.

use vstd::prelude::*;

verus! {

use vstd::string::StringExecFns;
use crate::Error;
use crate::adapters::join_chars_from;
use crate::adapters::join_with;
use crate::compile::strs_view;
use crate::content::Content;
use crate::text::chars_to_string;
use crate::text::contains_pat;
use crate::text::contains_sub;
use crate::text::lines_view;
use crate::text::lower_of;
use crate::text::lowercase;
use crate::text::push_all;
use crate::text::push_range;
use crate::text::split_lines;
use crate::text::split_lines_exec;
use crate::text::str_to_chars;
use crate::text::trim_chars;
use crate::text::trim_spec;

/// A summary line is kept when trimming leaves text and it is not a heading.
pub open spec fn summary_keep(l: Seq<char>) -> bool {
    trim_spec(l).len() > 0 && !(l.len() > 0 && l[0] == '#')
}

/// The first `left` kept lines among `lines[i..]`.
pub open spec fn summary_lines_from(lines: Seq<Seq<char>>, i: int, left: int) -> Seq<Seq<char>>
    decreases lines.len() - i,
{
    if i < 0 || i >= lines.len() || left <= 0 {
        Seq::empty()
    } else if summary_keep(lines[i]) {
        seq![lines[i]] + summary_lines_from(lines, i + 1, left - 1)
    } else {
        summary_lines_from(lines, i + 1, left)
    }
}

/// The auto-generated summary: the first three non-empty, non-heading lines
/// joined with spaces, cut to 197 characters plus an ellipsis marker when
/// the joined text exceeds 200 characters.
pub open spec fn spec_summary(md: Seq<char>) -> Seq<char> {
    let joined = join_with(summary_lines_from(split_lines(md), 0, 3), " "@);
    if joined.len() > 200 {
        joined.take(197) + "..."@
    } else {
        joined
    }
}

/// The fixed tag vocabulary, in order.
pub open spec fn tag_vocabulary() -> Seq<Seq<char>> {
    seq![
        "Rust"@,
        "JavaScript"@,
        "Python"@,
        "TypeScript"@,
        "React"@,
        "Vue"@,
        "Node.js"@,
        "前端"@,
        "后端"@,
        "全栈"@,
        "微服务"@,
        "数据库"@,
        "算法"@,
        "设计模式"@,
        "性能优化"@,
        "安全"@,
        "测试"@,
        "部署"@,
        "Docker"@,
        "Kubernetes"@,
    ]
}

/// The vocabulary terms from index `i` on whose lowercase form occurs in the
/// lowercased body, kept in vocabulary order.
pub open spec fn auto_tags_from(low_md: Seq<char>, i: int) -> Seq<Seq<char>>
    decreases tag_vocabulary().len() - i,
{
    if i < 0 || i >= tag_vocabulary().len() {
        Seq::empty()
    } else {
        (if contains_sub(low_md, lower_of(tag_vocabulary()[i])) {
            seq![tag_vocabulary()[i]]
        } else {
            Seq::<Seq<char>>::empty()
        }) + auto_tags_from(low_md, i + 1)
    }
}

/// The tags extracted from a body: every vocabulary term whose lowercase
/// form occurs anywhere in the lowercased body.
pub open spec fn spec_auto_tags(low_md: Seq<char>) -> Seq<Seq<char>> {
    auto_tags_from(low_md, 0)
}

/// The image-discovery stage: in this core it only observes, delegating
/// actual fetching and transformation to an outside collaborator, so it is a
/// no-op placeholder that leaves the content untouched.
pub struct ImageProcessingStage {}

impl ImageProcessingStage {
    /// Observes the content's image references; the content is unchanged.
    pub fn process(&self, content: &mut Content) -> (r: Result<(), Error>)
        ensures
            r is Ok,
            *final(content) == *old(content),
    {
        Ok(())
    }

    /// The stage's name.
    pub fn name(&self) -> (r: &'static str)
        ensures
            r@ == "图片处理"@,
    {
        "图片处理"
    }
}

/// The link-validation stage: observation only in this core; the content is
/// left untouched.
pub struct LinkValidationStage {}

impl LinkValidationStage {
    /// Observes the content's link references; the content is unchanged.
    pub fn process(&self, content: &mut Content) -> (r: Result<(), Error>)
        ensures
            r is Ok,
            *final(content) == *old(content),
    {
        Ok(())
    }

    /// The stage's name.
    pub fn name(&self) -> (r: &'static str)
        ensures
            r@ == "链接验证"@,
    {
        "链接验证"
    }
}

/// The content-enhancement stage: fills the description and the tag list,
/// each only when empty.
pub struct ContentEnhancementStage {}

/// What the enhancement stage does to a content record: the description is
/// filled with the auto-generated summary only when it was unset, the tags
/// with the vocabulary matches only when they were empty; everything else is
/// untouched.
pub open spec fn enhance_rel(pre: Content, post: Content) -> bool {
    &&& match pre.metadata.description {
        Some(d) => post.metadata.description == pre.metadata.description,
        None => post.metadata.description matches Some(s) && s@ == spec_summary(pre.markdown@),
    }
    &&& if pre.metadata.tags@.len() == 0 {
        strs_view(post.metadata.tags@) == spec_auto_tags(lower_of(pre.markdown@))
    } else {
        post.metadata.tags == pre.metadata.tags
    }
    &&& post.id == pre.id
    &&& post.title == pre.title
    &&& post.markdown == pre.markdown
    &&& post.html == pre.html
    &&& post.created_at == pre.created_at
    &&& post.updated_at == pre.updated_at
    &&& post.metadata.author == pre.metadata.author
    &&& post.metadata.cover_image == pre.metadata.cover_image
    &&& post.metadata.reading_time == pre.metadata.reading_time
    &&& post.metadata.word_count == pre.metadata.word_count
    &&& post.metadata.custom_fields == pre.metadata.custom_fields
}

impl ContentEnhancementStage {
    /// Fills the description with the auto-generated summary when it is
    /// unset, and the tags with the vocabulary matches when the list is
    /// empty.
    pub fn process(&self, content: &mut Content) -> (r: Result<(), Error>)
        ensures
            r is Ok,
            enhance_rel(*old(content), *final(content)),
    {
        let fill_description = match &content.metadata.description {
            Some(_) => false,
            None => true,
        };
        if fill_description {
            let summary = self.generate_summary(content.markdown.as_str());
            content.metadata.description = Some(summary);
        }
        if content.metadata.tags.len() == 0 {
            content.metadata.tags = self.extract_tags(content.markdown.as_str());
        }
        Ok(())
    }

    /// The stage's name.
    pub fn name(&self) -> (r: &'static str)
        ensures
            r@ == "内容增强"@,
    {
        "内容增强"
    }

    /// The auto-generated summary of a body, as `spec_summary` describes:
    /// the first three non-empty, non-heading lines, joined with spaces and
    /// cut to 197 characters plus an ellipsis when over 200.
    pub fn generate_summary(&self, markdown: &str) -> (r: String)
        ensures
            r@ == spec_summary(markdown@),
    {
        let v = str_to_chars(markdown);
        let lines = split_lines_exec(&v);
        let ghost lv = lines_view(lines@);
        let mut kept: Vec<Vec<char>> = Vec::new();
        proof {
            assert(lines_view(kept@) =~= Seq::<Seq<char>>::empty());
        }
        let mut k: usize = 0;
        while k < lines.len() && kept.len() < 3
            invariant
                k <= lines@.len(),
                kept@.len() <= 3,
                lv == lines_view(lines@),
                lv == split_lines(markdown@),
                lines_view(kept@) + summary_lines_from(lv, k as int, 3 - kept@.len())
                    == summary_lines_from(lv, 0, 3),
            decreases lines@.len() - k,
        {
            let ghost prev = lines_view(kept@);
            let line = &lines[k];
            let trimmed = trim_chars(line);
            let is_heading = line.len() > 0 && line[0] == '#';
            if trimmed.len() > 0 && !is_heading {
                proof {
                    assert(summary_keep(lv[k as int]));
                }
                kept.push(line.clone());
                proof {
                    assert(lines_view(kept@) =~= prev + seq![lv[k as int]]);
                    assert(summary_lines_from(lv, k as int, 3 - prev.len()) == seq![lv[k as int]]
                        + summary_lines_from(lv, k + 1, 3 - prev.len() - 1));
                    assert((prev + seq![lv[k as int]]) + summary_lines_from(
                        lv,
                        k + 1,
                        3 - prev.len() - 1,
                    ) =~= prev + (seq![lv[k as int]] + summary_lines_from(
                        lv,
                        k + 1,
                        3 - prev.len() - 1,
                    )));
                }
            } else {
                proof {
                    assert(!summary_keep(lv[k as int]));
                }
            }
            k += 1;
        }
        proof {
            if kept@.len() < 3 {
                assert(summary_lines_from(lv, k as int, 3 - kept@.len()) =~= Seq::<
                    Seq<char>,
                >::empty());
            } else {
                assert(summary_lines_from(lv, k as int, 3 - kept@.len()) =~= Seq::<
                    Seq<char>,
                >::empty());
            }
            assert(lines_view(kept@) + Seq::<Seq<char>>::empty() =~= lines_view(kept@));
        }
        let sep: Vec<char> = vec![' '];
        proof {
            assert(sep@ =~= " "@) by {
                reveal_strlit(" ");
            }
        }
        let joined = join_chars_from(&kept, 0, &sep);
        if joined.len() > 200 {
            let mut cut: Vec<char> = Vec::new();
            push_range(&mut cut, &joined, 0, 197);
            let dots = str_to_chars("...");
            push_all(&mut cut, &dots);
            proof {
                assert(cut@ =~= joined@.take(197) + "..."@);
            }
            chars_to_string(&cut)
        } else {
            chars_to_string(&joined)
        }
    }

    /// The tags extracted from a body, as `spec_auto_tags` describes: every
    /// vocabulary term whose lowercase form occurs in the lowercased body,
    /// in vocabulary order; duplicates cannot arise since the vocabulary has
    /// no repeated term.
    pub fn extract_tags(&self, markdown: &str) -> (r: Vec<String>)
        ensures
            strs_view(r@) == spec_auto_tags(lower_of(markdown@)),
    {
        let mut kws: Vec<String> = Vec::new();
        kws.push(String::from_str("Rust"));
        kws.push(String::from_str("JavaScript"));
        kws.push(String::from_str("Python"));
        kws.push(String::from_str("TypeScript"));
        kws.push(String::from_str("React"));
        kws.push(String::from_str("Vue"));
        kws.push(String::from_str("Node.js"));
        kws.push(String::from_str("前端"));
        kws.push(String::from_str("后端"));
        kws.push(String::from_str("全栈"));
        kws.push(String::from_str("微服务"));
        kws.push(String::from_str("数据库"));
        kws.push(String::from_str("算法"));
        kws.push(String::from_str("设计模式"));
        kws.push(String::from_str("性能优化"));
        kws.push(String::from_str("安全"));
        kws.push(String::from_str("测试"));
        kws.push(String::from_str("部署"));
        kws.push(String::from_str("Docker"));
        kws.push(String::from_str("Kubernetes"));
        proof {
            assert(strs_view(kws@) =~= tag_vocabulary());
        }
        let low = lowercase(markdown);
        let mdv = str_to_chars(low.as_str());
        let mut out: Vec<String> = Vec::new();
        proof {
            assert(strs_view(out@) =~= Seq::<Seq<char>>::empty());
        }
        let mut k: usize = 0;
        while k < kws.len()
            invariant
                k <= kws@.len(),
                strs_view(kws@) == tag_vocabulary(),
                mdv@ == lower_of(markdown@),
                strs_view(out@) + auto_tags_from(mdv@, k as int) == auto_tags_from(mdv@, 0),
            decreases kws@.len() - k,
        {
            let ghost prev = strs_view(out@);
            let low_kw = lowercase(kws[k].as_str());
            let kwv = str_to_chars(low_kw.as_str());
            if contains_pat(&mdv, &kwv) {
                out.push(kws[k].clone());
                proof {
                    assert(strs_view(out@) =~= prev + seq![tag_vocabulary()[k as int]]);
                    assert((prev + seq![tag_vocabulary()[k as int]]) + auto_tags_from(mdv@, k + 1)
                        =~= prev + (seq![tag_vocabulary()[k as int]] + auto_tags_from(
                        mdv@,
                        k + 1,
                    )));
                }
            } else {
                proof {
                    assert(prev + (Seq::<Seq<char>>::empty() + auto_tags_from(mdv@, k + 1))
                        =~= prev + auto_tags_from(mdv@, k + 1));
                }
            }
            k += 1;
        }
        proof {
            assert(strs_view(out@) + Seq::<Seq<char>>::empty() =~= strs_view(out@));
        }
        out
    }
}

/// One stage of the enrichment pipeline.
pub enum PipelineStage {
    /// Image discovery.
    Image(ImageProcessingStage),
    /// Link validation.
    Link(LinkValidationStage),
    /// Content enhancement.
    Enhance(ContentEnhancementStage),
}

/// What one stage does to a content record.
pub open spec fn stage_rel(st: PipelineStage, pre: Content, post: Content) -> bool {
    match st {
        PipelineStage::Image(_) => post == pre,
        PipelineStage::Link(_) => post == pre,
        PipelineStage::Enhance(_) => enhance_rel(pre, post),
    }
}

/// What a stage list does: each stage relates its input to its output,
/// strictly in sequence.
pub open spec fn stages_rel(stages: Seq<PipelineStage>, pre: Content, post: Content) -> bool
    decreases stages.len(),
{
    if stages.len() == 0 {
        post == pre
    } else {
        exists|mid: Content|
            #![trigger stage_rel(stages.last(), mid, post)]
            stages_rel(stages.drop_last(), pre, mid) && stage_rel(stages.last(), mid, post)
    }
}

/// An ordered, extensible sequence of enrichment stages.
pub struct ProcessingPipeline {
    /// The stages, run strictly in order.
    pub stages: Vec<PipelineStage>,
}

impl ProcessingPipeline {
    /// An empty pipeline.
    pub fn new() -> (r: Self)
        ensures
            r.stages@.len() == 0,
    {
        ProcessingPipeline { stages: Vec::new() }
    }

    /// The pipeline with one more stage at the end.
    pub fn add_stage(self, stage: PipelineStage) -> (r: Self)
        ensures
            r.stages@ == self.stages@.push(stage),
    {
        let mut stages = self.stages;
        stages.push(stage);
        ProcessingPipeline { stages }
    }

    /// Runs the stages strictly in sequence, each receiving the content the
    /// one before left; in this core no stage fails, so the result is the
    /// content every stage has related in order.
    pub fn process(&self, content: Content) -> (r: Result<Content, Error>)
        ensures
            r is Ok,
            stages_rel(self.stages@, content, r.unwrap()),
    {
        let mut cur = content;
        let ghost start = cur;
        let mut k: usize = 0;
        proof {
            assert(self.stages@.subrange(0, 0) =~= Seq::<PipelineStage>::empty());
        }
        while k < self.stages.len()
            invariant
                k <= self.stages@.len(),
                stages_rel(self.stages@.subrange(0, k as int), start, cur),
            decreases self.stages@.len() - k,
        {
            let ghost mid = cur;
            let step = match &self.stages[k] {
                PipelineStage::Image(st) => st.process(&mut cur),
                PipelineStage::Link(st) => st.process(&mut cur),
                PipelineStage::Enhance(st) => st.process(&mut cur),
            };
            match step {
                Ok(()) => {},
                Err(e) => {
                    return Err(e);
                },
            }
            proof {
                let ss = self.stages@.subrange(0, k + 1);
                assert(ss.drop_last() =~= self.stages@.subrange(0, k as int));
                assert(ss.last() == self.stages@[k as int]);
                assert(stages_rel(ss.drop_last(), start, mid) && stage_rel(ss.last(), mid, cur));
                assert(stages_rel(ss, start, cur));
            }
            k += 1;
        }
        proof {
            assert(self.stages@.subrange(0, self.stages@.len() as int) =~= self.stages@);
        }
        Ok(cur)
    }
}

impl Default for ProcessingPipeline {
    /// The standard pipeline: image discovery, then link validation, then
    /// content enhancement.
    fn default() -> (r: Self)
        ensures
            r.stages@ =~= seq![
                PipelineStage::Image(ImageProcessingStage {  }),
                PipelineStage::Link(LinkValidationStage {  }),
                PipelineStage::Enhance(ContentEnhancementStage {  }),
            ],
    {
        ProcessingPipeline::new().add_stage(PipelineStage::Image(ImageProcessingStage {  }))
            .add_stage(PipelineStage::Link(LinkValidationStage {  })).add_stage(
            PipelineStage::Enhance(ContentEnhancementStage {  }),
        )
    }
}

} // verus!
