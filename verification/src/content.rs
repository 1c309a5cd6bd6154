//! The data model: a `Content` is the unit of work through the whole core,
//! carrying the source Markdown, its last rendering, and derived metadata.

use vstd::prelude::*;

verus! {

use vstd::string::StrSliceExecFns;
use crate::Error;
use crate::text::lower_of;
use crate::text::lowercase;
use crate::text::str_eq;

/// Declares `uuid::Uuid` so it can stand in fields; its value is opaque here.
#[verifier::external_type_specification]
#[verifier::external_body]
pub struct ExUuid(uuid::Uuid);

/// Relies on `uuid::Uuid`'s derived `Clone` beside `Copy`: the clone is the
/// same value.
pub assume_specification[ <uuid::Uuid as Clone>::clone ](u: &uuid::Uuid) -> (r: uuid::Uuid)
    ensures
        r == *u,
;

/// Relies on `uuid::Uuid::new_v4`: a freshly generated random identifier.
/// Nothing is promised of its value.
#[verifier::external_body]
fn new_uuid() -> uuid::Uuid {
    uuid::Uuid::new_v4()
}

/// Relies on `chrono::Utc::now`, read out through
/// `chrono::DateTime::timestamp_millis`: the current time as milliseconds
/// since the Unix epoch. Nothing is promised of the value.
#[verifier::external_body]
fn now_millis() -> i64 {
    chrono::Utc::now().timestamp_millis()
}

/// Derived metadata of a document.
#[derive(Debug, Clone)]
pub struct ContentMetadata {
    /// The author, from front matter.
    pub author: Option<String>,
    /// Ordered list of tags; may be empty.
    pub tags: Vec<String>,
    /// A short description or auto-generated summary.
    pub description: Option<String>,
    /// A cover image reference.
    pub cover_image: Option<String>,
    /// Estimated reading time in minutes, at least 1 whenever the word count
    /// is known.
    pub reading_time: Option<u32>,
    /// Character count of the source Markdown.
    pub word_count: Option<u32>,
    /// Front-matter keys not recognised as first-class fields, in order of
    /// appearance; a later binding of the same key wins.
    pub custom_fields: Vec<(String, String)>,
}

/// A metadata record with every field unset.
pub open spec fn is_empty_metadata(m: ContentMetadata) -> bool {
    &&& m.author is None
    &&& m.tags@.len() == 0
    &&& m.description is None
    &&& m.cover_image is None
    &&& m.reading_time is None
    &&& m.word_count is None
    &&& m.custom_fields@.len() == 0
}

impl Default for ContentMetadata {
    /// An empty metadata record.
    fn default() -> (r: Self)
        ensures
            is_empty_metadata(r),
    {
        ContentMetadata {
            author: None,
            tags: Vec::new(),
            description: None,
            cover_image: None,
            reading_time: None,
            word_count: None,
            custom_fields: Vec::new(),
        }
    }
}

/// The reading time derived from a character count: one minute per 200
/// characters, and at least one minute.
pub open spec fn spec_reading_time(wc: u32) -> u32 {
    if wc / 200 == 0 {
        1u32
    } else {
        (wc / 200) as u32
    }
}

/// Word count and reading time are both unset, or both set and consistent
/// with the given source text: the count is its character count and the
/// reading time is derived from the count.
pub open spec fn derived_consistent(md: Seq<char>, m: ContentMetadata) -> bool {
    match m.word_count {
        Some(w) => w == md.len() && m.reading_time == Some(spec_reading_time(w)),
        None => m.reading_time is None,
    }
}

/// The unit of work: a document with its source, rendering and metadata.
#[derive(Debug, Clone)]
pub struct Content {
    /// Opaque unique identifier, generated once at creation.
    pub id: uuid::Uuid,
    /// The title: front matter wins, else the first level-1 heading, else a
    /// fixed placeholder.
    pub title: String,
    /// The canonical source body, front matter stripped.
    pub markdown: String,
    /// The last-compiled rendering of `markdown`; not re-derived
    /// automatically.
    pub html: String,
    /// Derived metadata.
    pub metadata: ContentMetadata,
    /// When the document was created, as milliseconds since the Unix epoch;
    /// fixed at construction.
    pub created_at: i64,
    /// When the document was last mutated, as milliseconds since the Unix
    /// epoch; bumped on every content mutation.
    pub updated_at: i64,
}

impl Content {
    /// A fresh document with the given title and source, empty rendering and
    /// empty metadata.
    pub fn new(title: String, markdown: String) -> (r: Self)
        ensures
            r.title == title,
            r.markdown == markdown,
            r.html@.len() == 0,
            is_empty_metadata(r.metadata),
            r.created_at == r.updated_at,
    {
        let now = now_millis();
        Content {
            id: new_uuid(),
            title,
            markdown,
            html: String::new(),
            metadata: ContentMetadata::default(),
            created_at: now,
            updated_at: now,
        }
    }

    /// Recomputes the word count (the character count of `markdown`) and the
    /// reading time (one minute per 200 characters, at least one); every
    /// other field is left as it was.
    pub fn calculate_reading_time(&mut self)
        requires
            old(self).markdown@.len() <= u32::MAX,
        ensures
            final(self).metadata.word_count == Some(old(self).markdown@.len() as u32),
            derived_consistent(final(self).markdown@, final(self).metadata),
            final(self).id == old(self).id,
            final(self).title == old(self).title,
            final(self).markdown == old(self).markdown,
            final(self).html == old(self).html,
            final(self).created_at == old(self).created_at,
            final(self).updated_at == old(self).updated_at,
            final(self).metadata.author == old(self).metadata.author,
            final(self).metadata.tags == old(self).metadata.tags,
            final(self).metadata.description == old(self).metadata.description,
            final(self).metadata.cover_image == old(self).metadata.cover_image,
            final(self).metadata.custom_fields == old(self).metadata.custom_fields,
    {
        let wc_usize = self.markdown.as_str().unicode_len();
        let wc: u32 = wc_usize as u32;
        self.metadata.word_count = Some(wc);
        let rt: u32 = wc / 200;
        self.metadata.reading_time = Some(if rt == 0 {
            1
        } else {
            rt
        });
    }

    /// Compiles a source text with optional front matter into a document,
    /// through the document compiler.
    pub fn from_markdown_with_front_matter(markdown: String) -> (r: Result<Self, Error>)
        requires
            markdown@.len() <= u32::MAX,
        ensures
            r is Ok,
            ({
                let (fm, body) = crate::compile::spec_front_matter(markdown@);
                let c = r.unwrap();
                &&& c.title@ == crate::compile::spec_title(fm, body)
                &&& c.markdown@ == body
                &&& c.html@ == crate::compile::html_of(body)
                &&& derived_consistent(c.markdown@, c.metadata)
            }),
    {
        let processor = crate::compile::MarkdownProcessor::new();
        processor.process(markdown.as_str())
    }

    /// Replaces the source text, bumps `updated_at`, and recomputes the two
    /// derived fields; the rendering is left stale on purpose — the caller
    /// must compile again.
    pub fn update_content(&mut self, markdown: String)
        requires
            markdown@.len() <= u32::MAX,
        ensures
            final(self).markdown == markdown,
            final(self).metadata.word_count == Some(markdown@.len() as u32),
            derived_consistent(final(self).markdown@, final(self).metadata),
            final(self).id == old(self).id,
            final(self).title == old(self).title,
            final(self).html == old(self).html,
            final(self).created_at == old(self).created_at,
            final(self).metadata.author == old(self).metadata.author,
            final(self).metadata.tags == old(self).metadata.tags,
            final(self).metadata.description == old(self).metadata.description,
            final(self).metadata.cover_image == old(self).metadata.cover_image,
            final(self).metadata.custom_fields == old(self).metadata.custom_fields,
    {
        self.markdown = markdown;
        self.updated_at = now_millis();
        self.calculate_reading_time();
    }
}

/// A publishing platform this core can adapt content for.
#[derive(Debug, Clone, PartialEq, Eq, Structural)]
pub enum Platform {
    /// The WeChat-style platform.
    WeChat,
    /// The Zhihu-style platform.
    Zhihu,
    /// Every platform at once.
    All,
}

/// The lowercase name of a platform.
pub open spec fn spec_platform_name(p: Platform) -> Seq<char> {
    match p {
        Platform::WeChat => "wechat"@,
        Platform::Zhihu => "zhihu"@,
        Platform::All => "all"@,
    }
}

impl Platform {
    /// The lowercase name of the platform.
    pub fn to_string(&self) -> (r: String)
        ensures
            r@ == spec_platform_name(*self),
    {
        match self {
            Platform::WeChat => String::from_str("wechat"),
            Platform::Zhihu => String::from_str("zhihu"),
            Platform::All => String::from_str("all"),
        }
    }

    /// Parses a platform name, ignoring case; any other text is rejected
    /// with `Error::InvalidPlatform` carrying the offending text.
    pub fn from_str(s: &str) -> (r: Result<Platform, Error>)
        ensures
            match r {
                Ok(p) => lower_of(s@) == spec_platform_name(p),
                Err(e) => {
                    &&& lower_of(s@) != "wechat"@
                    &&& lower_of(s@) != "zhihu"@
                    &&& lower_of(s@) != "all"@
                    &&& e matches Error::InvalidPlatform(m) && m@ == s@
                },
            },
    {
        let low = lowercase(s);
        if str_eq(low.as_str(), "wechat") {
            Ok(Platform::WeChat)
        } else if str_eq(low.as_str(), "zhihu") {
            Ok(Platform::Zhihu)
        } else if str_eq(low.as_str(), "all") {
            Ok(Platform::All)
        } else {
            Err(Error::InvalidPlatform(String::from_str(s)))
        }
    }
}

/// A `Content` together with its per-platform adaptations.
#[derive(Debug, Clone)]
pub struct ProcessedContent {
    /// The compiled document.
    pub content: Content,
    /// The WeChat-style adaptation, if one was made.
    pub wechat_html: Option<String>,
    /// The Zhihu-style adaptation, if one was made.
    pub zhihu_html: Option<String>,
}

/// The outcome a publishing collaborator reports for one platform.
#[derive(Debug, Clone)]
pub struct PublishResult {
    /// The platform published to.
    pub platform: Platform,
    /// Where the published content lives, if known.
    pub url: Option<String>,
    /// The draft identifier, if a draft was created.
    pub draft_id: Option<String>,
    /// How the attempt ended.
    pub status: PublishStatus,
    /// A human-readable message.
    pub message: String,
}

/// How a publish attempt ended.
#[derive(Debug, Clone)]
pub enum PublishStatus {
    /// Published.
    Success,
    /// Saved as a draft.
    Draft,
    /// Failed.
    Failed,
    /// Still in flight.
    Pending,
}

} // verus!
