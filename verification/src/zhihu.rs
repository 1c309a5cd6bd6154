//! The Zhihu-style platform adapter: removes the platform's forbidden
//! elements, optionally renders `$...$` and `$$...$$` math into styled
//! elements, enhances fenced and inline code, decorates images, tables and
//! lists with the platform's classes, and validates content against the
//! platform's rules.

use vstd::prelude::*;

verus! {

use vstd::string::StrSliceExecFns;
use vstd::string::StringExecFns;
use crate::Error;
use crate::adapters::StyleProvider;
use crate::adapters::ValidationError;
use crate::adapters::ValidationSeverity;
use crate::adapters::collect_error_lines;
use crate::adapters::err_lines;
use crate::adapters::join_chars_from;
use crate::adapters::join_with;
use crate::adapters::lemma_err_lines_push_error;
use crate::adapters::lemma_err_lines_push_warning;
use crate::content::Content;
use crate::content::Platform;
use crate::rewrite::add_attr;
use crate::rewrite::merge_attr;
use crate::rewrite::run_add_attr;
use crate::rewrite::run_merge_attr;
use crate::rewrite::run_strip_blocks;
use crate::rewrite::run_strip_self_closing;
use crate::rewrite::run_drop_attr;
use crate::rewrite::drop_attr;
use crate::rewrite::scan_from;
use crate::rewrite::strip_blocks;
use crate::rewrite::strip_self_closing;
use crate::text::chars_to_string;
use crate::text::contains_pat;
use crate::text::dec_str;
use crate::text::find_from;
use crate::text::find_pat_from;
use crate::text::lemma_find_from_spec;
use crate::text::lines_view;
use crate::text::matches_at;
use crate::text::push_all;
use crate::text::push_range;
use crate::text::starts_with_at;
use crate::text::str_to_chars;
use crate::text::trim_chars;
use crate::text::trim_spec;
use crate::text::u64_to_dec_chars;
use crate::compile::strs_view;

/// What one escaped character contributes: `&`, `<` and `>` become their
/// named entities, every other character stands as itself.
pub open spec fn escape_char(c: char) -> Seq<char> {
    if c == '&' {
        seq!['&', 'a', 'm', 'p', ';']
    } else if c == '<' {
        seq!['&', 'l', 't', ';']
    } else if c == '>' {
        seq!['&', 'g', 't', ';']
    } else {
        seq![c]
    }
}

/// The HTML-escaped form of a text: each character replaced as `escape_char`
/// says.
pub open spec fn escape_text_spec(s: Seq<char>) -> Seq<char>
    decreases s.len(),
{
    if s.len() == 0 {
        Seq::empty()
    } else {
        escape_char(s[0]) + escape_text_spec(s.skip(1))
    }
}

/// Relies on `html_escape::encode_text`: escapes exactly `&`, `<` and `>` as
/// `&amp;`, `&lt;` and `&gt;`, leaving every other character unchanged.
#[verifier::external_body]
fn escape_text(s: &str) -> (r: String)
    ensures
        r@ == escape_text_spec(s@),
{
    html_escape::encode_text(s).into_owned()
}

/// The tags the platform removes outright, elements and content included.
pub open spec fn zhihu_forbidden() -> Seq<Seq<char>> {
    seq![
        "script"@,
        "style"@,
        "iframe"@,
        "object"@,
        "embed"@,
        "form"@,
        "input"@,
        "button"@,
        "meta"@,
        "link"@,
    ]
}

/// The forbidden tags from index `i` on removed from `s`: for each tag, its
/// elements with their content, then its self-closing forms.
pub open spec fn zhihu_strip_from(tags: Seq<Seq<char>>, i: int, s: Seq<char>) -> Seq<char>
    decreases tags.len() - i,
{
    if i < 0 || i >= tags.len() {
        s
    } else {
        zhihu_strip_from(tags, i + 1, strip_self_closing(strip_blocks(s, tags[i]), tags[i]))
    }
}

/// The sanitize pass: every forbidden element removed, then the dangerous
/// event-handler attributes dropped.
pub open spec fn spec_zhihu_sanitize(tags: Seq<Seq<char>>, s: Seq<char>) -> Seq<char> {
    drop_attr(
        drop_attr(
            drop_attr(
                drop_attr(drop_attr(zhihu_strip_from(tags, 0, s), "onclick"@), "onload"@),
                "onerror"@,
            ),
            "onmouseover"@,
        ),
        "onfocus"@,
    )
}

/// The pieces of the styled element replacing an inline formula: opening,
/// middle (between the data attribute and the display text), and closing.
pub open spec fn math_inline_open() -> Seq<char> {
    "<span class=\"ztext-math\" data-tex=\""@
}

/// Middle piece of the inline math element.
pub open spec fn math_inline_mid() -> Seq<char> {
    "\" data-mode=\"inline\">"@
}

/// Closing piece of the inline math element.
pub open spec fn math_inline_close() -> Seq<char> {
    "</span>"@
}

/// Opening piece of the block math element.
pub open spec fn math_block_open() -> Seq<char> {
    "<div class=\"ztext-math\" data-tex=\""@
}

/// Middle piece of the block math element.
pub open spec fn math_block_mid() -> Seq<char> {
    "\" data-mode=\"display\">"@
}

/// Closing piece of the block math element.
pub open spec fn math_block_close() -> Seq<char> {
    "</div>"@
}

/// The styled inline element for a formula: the escaped formula stands both
/// as the data attribute value and as the display text.
pub open spec fn inline_math_rep(f: Seq<char>) -> Seq<char> {
    math_inline_open() + escape_text_spec(f) + math_inline_mid() + escape_text_spec(f)
        + math_inline_close()
}

/// The styled block element for a formula, built like `inline_math_rep`.
pub open spec fn block_math_rep(f: Seq<char>) -> Seq<char> {
    math_block_open() + escape_text_spec(f) + math_block_mid() + escape_text_spec(f)
        + math_block_close()
}

/// Match of an inline formula at `i`: a `$`, at least one character that is
/// neither `$` nor a line feed, and the next `$`.
pub open spec fn math_inline_match(s: Seq<char>, i: int) -> Option<(int, Seq<char>)> {
    if matches_at(s, i, seq!['$']) {
        match find_from(s, i + 1, seq!['$']) {
            Some(j) => {
                let no_nl = match find_from(s, i + 1, seq!['\n']) {
                    Some(n) => n > j,
                    None => true,
                };
                if j > i + 1 && no_nl {
                    Some((j + 1 - i, inline_math_rep(s.subrange(i + 1, j))))
                } else {
                    None
                }
            },
            None => None,
        }
    } else {
        None
    }
}

/// Match of a block formula at `i`: `$$`, any text (may span lines,
/// non-greedy), and the next `$$`; the formula is trimmed.
pub open spec fn math_block_match(s: Seq<char>, i: int) -> Option<(int, Seq<char>)> {
    if matches_at(s, i, seq!['$', '$']) {
        match find_from(s, i + 2, seq!['$', '$']) {
            Some(j) => Some((j + 2 - i, block_math_rep(trim_spec(s.subrange(i + 2, j))))),
            None => None,
        }
    } else {
        None
    }
}

/// The inline math pass as a match function.
pub open spec fn math_inline_m() -> spec_fn(Seq<char>, int) -> Option<(int, Seq<char>)> {
    |s: Seq<char>, i: int| math_inline_match(s, i)
}

/// The block math pass as a match function.
pub open spec fn math_block_m() -> spec_fn(Seq<char>, int) -> Option<(int, Seq<char>)> {
    |s: Seq<char>, i: int| math_block_match(s, i)
}

/// The math pass: inline formulas first, then block formulas over the
/// already-substituted text.
pub open spec fn spec_zhihu_math(s: Seq<char>) -> Seq<char> {
    scan_from(scan_from(s, 0, math_inline_m()), 0, math_block_m())
}

/// Pieces of the rewritten fenced code block.
pub open spec fn fence_open() -> Seq<char> {
    "<div class=\"highlight\"><pre><code class=\"language-"@
}

/// Middle piece of the rewritten fenced code block, before the repeated
/// language name.
pub open spec fn fence_mid() -> Seq<char> {
    "\" data-lang=\""@
}

/// Piece of the rewritten fenced code block that closes its opening tags.
pub open spec fn fence_gt() -> Seq<char> {
    "\">"@
}

/// Closing piece of the rewritten fenced code block.
pub open spec fn fence_close() -> Seq<char> {
    "</code></pre></div>"@
}

/// The rewritten fenced code block: wrapped in a highlight container, with
/// the language both as class and as a `data-lang` attribute.
pub open spec fn fence_rep(lang: Seq<char>, content: Seq<char>) -> Seq<char> {
    fence_open() + lang + fence_mid() + lang + fence_gt() + content + fence_close()
}

/// Match of a fenced code block at `i`: `<pre><code`, an optional
/// ` class="language-..."`, `>`, content without `<`, and the literal
/// `</code></pre>`. A fence without a language is treated as `text`.
pub open spec fn fence_match(s: Seq<char>, i: int) -> Option<(int, Seq<char>)> {
    if matches_at(s, i, "<pre><code"@) {
        if matches_at(s, i + 10, seq!['>']) {
            fence_content(s, i, i + 11, "text"@)
        } else if matches_at(s, i + 10, " class=\"language-"@) {
            match find_from(s, i + 27, seq!['"']) {
                Some(q) => if matches_at(s, q + 1, seq!['>']) {
                    fence_content(s, i, q + 2, s.subrange(i + 27, q))
                } else {
                    None
                },
                None => None,
            }
        } else {
            None
        }
    } else {
        None
    }
}

/// The rest of a fence match: content from `c0` up to the first `<`, which
/// must start the closing `</code></pre>`.
pub open spec fn fence_content(s: Seq<char>, i: int, c0: int, lang: Seq<char>) -> Option<
    (int, Seq<char>),
> {
    match find_from(s, c0, seq!['<']) {
        Some(m) => if matches_at(s, m, "</code></pre>"@) {
            Some((m + 13 - i, fence_rep(lang, s.subrange(c0, m))))
        } else {
            None
        },
        None => None,
    }
}

/// The fenced-code pass as a match function.
pub open spec fn fence_m() -> spec_fn(Seq<char>, int) -> Option<(int, Seq<char>)> {
    |s: Seq<char>, i: int| fence_match(s, i)
}

/// Opening piece of the rewritten inline code element.
pub open spec fn icode_open() -> Seq<char> {
    "<code class=\"inline-code\">"@
}

/// Match of a bare inline code element at `i`: `<code>`, at least one
/// character without `<`, and the literal `</code>`; it gains the platform's
/// styling class.
pub open spec fn icode_match(s: Seq<char>, i: int) -> Option<(int, Seq<char>)> {
    if matches_at(s, i, "<code>"@) {
        match find_from(s, i + 6, seq!['<']) {
            Some(m) => if m > i + 6 && matches_at(s, m, "</code>"@) {
                Some((m + 7 - i, icode_open() + s.subrange(i + 6, m) + "</code>"@))
            } else {
                None
            },
            None => None,
        }
    } else {
        None
    }
}

/// The inline-code pass as a match function.
pub open spec fn icode_m() -> spec_fn(Seq<char>, int) -> Option<(int, Seq<char>)> {
    |s: Seq<char>, i: int| icode_match(s, i)
}

/// The code pass: fenced blocks first, then remaining bare inline code.
pub open spec fn spec_zhihu_code(s: Seq<char>) -> Seq<char> {
    scan_from(scan_from(s, 0, fence_m()), 0, icode_m())
}

/// The image pass: every `<img>` gains the class token `ztext-image`, merged
/// into an existing quoted class attribute rather than overwriting it.
pub open spec fn spec_zhihu_images(s: Seq<char>) -> Seq<char> {
    merge_attr(s, "img"@, "class"@, " "@, "ztext-image"@, false)
}

/// The table and list passes: `<table>`, `<ol>` and `<ul>` each gain the
/// platform's class. The class attribute is inserted unconditionally, before
/// any pre-existing one; the earlier attribute is what HTML keeps, and the
/// insertion is deliberate so the rewrite never destroys existing markup.
pub open spec fn spec_zhihu_decorate(s: Seq<char>) -> Seq<char> {
    add_attr(
        add_attr(add_attr(s, "table"@, " class=\"ztext-table\""@), "ol"@, " class=\"ztext-list\""@),
        "ul"@,
        " class=\"ztext-list\""@,
    )
}

/// The whole adaptation pipeline, in order: sanitize, math (when enabled),
/// code enhancement, image decoration, table and list decoration.
pub open spec fn spec_zhihu_adapt(tags: Seq<Seq<char>>, math: bool, h: Seq<char>) -> Seq<char> {
    let a = spec_zhihu_sanitize(tags, h);
    let b = if math {
        spec_zhihu_math(a)
    } else {
        a
    };
    spec_zhihu_decorate(spec_zhihu_images(spec_zhihu_code(b)))
}

/// The `field: message` lines of the validation findings that block
/// publishing: a source text over the ceiling and an empty title; everything
/// else the platform only warns about.
pub open spec fn zhihu_error_lines(mdlen: int, maxlen: int, tlen: int) -> Seq<Seq<char>> {
    (if mdlen > maxlen {
        seq![
            "content"@ + ": "@ + ("内容长度超过限制（当前："@ + dec_str(mdlen) + "，限制："@
                + dec_str(maxlen) + "）"@),
        ]
    } else {
        Seq::<Seq<char>>::empty()
    }) + (if tlen == 0 {
        seq!["title"@ + ": "@ + "标题不能为空"@]
    } else {
        Seq::<Seq<char>>::empty()
    })
}

/// The Zhihu-style adapter: a math toggle, a code theme token, the
/// platform's higher length ceiling, and its forbidden tag set. Stateless
/// across calls.
pub struct ZhihuStyleAdapter {
    /// Whether `$...$` and `$$...$$` are rendered into styled elements.
    pub math_enabled: bool,
    /// The code highlighting theme token the platform is asked for.
    pub code_highlight_theme: String,
    /// The platform's content-length ceiling, in characters.
    pub max_content_length: usize,
    /// The tags removed outright.
    pub forbidden_tags: Vec<String>,
}

impl ZhihuStyleAdapter {
    /// An adapter with math enabled, the `github` code theme, the 30000
    /// character ceiling and the platform's forbidden tag set.
    pub fn new() -> (r: Self)
        ensures
            r.math_enabled == true,
            r.code_highlight_theme@ == "github"@,
            r.max_content_length == 30000,
            strs_view(r.forbidden_tags@) == zhihu_forbidden(),
    {
        let mut forbidden_tags: Vec<String> = Vec::new();
        forbidden_tags.push(String::from_str("script"));
        forbidden_tags.push(String::from_str("style"));
        forbidden_tags.push(String::from_str("iframe"));
        forbidden_tags.push(String::from_str("object"));
        forbidden_tags.push(String::from_str("embed"));
        forbidden_tags.push(String::from_str("form"));
        forbidden_tags.push(String::from_str("input"));
        forbidden_tags.push(String::from_str("button"));
        forbidden_tags.push(String::from_str("meta"));
        forbidden_tags.push(String::from_str("link"));
        proof {
            assert(strs_view(forbidden_tags@) =~= zhihu_forbidden());
        }
        ZhihuStyleAdapter {
            math_enabled: true,
            code_highlight_theme: String::from_str("github"),
            max_content_length: 30000,
            forbidden_tags,
        }
    }

    /// The same adapter with math rendering switched as given.
    pub fn with_math(self, enabled: bool) -> (r: Self)
        ensures
            r.math_enabled == enabled,
            r.code_highlight_theme == self.code_highlight_theme,
            r.max_content_length == self.max_content_length,
            r.forbidden_tags == self.forbidden_tags,
    {
        ZhihuStyleAdapter { math_enabled: enabled, ..self }
    }

    /// The same adapter with the given code theme token.
    pub fn with_code_theme(self, theme: String) -> (r: Self)
        ensures
            r.code_highlight_theme == theme,
            r.math_enabled == self.math_enabled,
            r.max_content_length == self.max_content_length,
            r.forbidden_tags == self.forbidden_tags,
    {
        ZhihuStyleAdapter { code_highlight_theme: theme, ..self }
    }

    /// The platform this adapter serves.
    pub fn platform(&self) -> (r: Platform)
        ensures
            r == Platform::Zhihu,
    {
        Platform::Zhihu
    }

    /// Removes every forbidden element (with its content, and in
    /// self-closing form) and drops the dangerous event-handler attributes.
    pub fn sanitize_html(&self, html: &str) -> (r: Result<String, Error>)
        ensures
            r is Ok,
            r.unwrap()@ == spec_zhihu_sanitize(strs_view(self.forbidden_tags@), html@),
    {
        let ghost tv = strs_view(self.forbidden_tags@);
        let mut cur = str_to_chars(html);
        let mut k: usize = 0;
        while k < self.forbidden_tags.len()
            invariant
                k <= self.forbidden_tags@.len(),
                tv == strs_view(self.forbidden_tags@),
                zhihu_strip_from(tv, k as int, cur@) == zhihu_strip_from(tv, 0, html@),
            decreases self.forbidden_tags@.len() - k,
        {
            let blocks = run_strip_blocks(&cur, self.forbidden_tags[k].as_str());
            cur = run_strip_self_closing(&blocks, self.forbidden_tags[k].as_str());
            k += 1;
        }
        let a = run_drop_attr(&cur, "onclick");
        let b = run_drop_attr(&a, "onload");
        let c = run_drop_attr(&b, "onerror");
        let d = run_drop_attr(&c, "onmouseover");
        let e = run_drop_attr(&d, "onfocus");
        Ok(chars_to_string(&e))
    }

    /// The styled inline element for one formula, the escaped formula both
    /// as data attribute and display text.
    pub fn render_katex_inline(&self, formula: &str) -> (r: String)
        ensures
            r@ == inline_math_rep(formula@),
    {
        let esc = escape_text(formula);
        let escv = str_to_chars(esc.as_str());
        let mut out = str_to_chars("<span class=\"ztext-math\" data-tex=\"");
        push_all(&mut out, &escv);
        let mid = str_to_chars("\" data-mode=\"inline\">");
        push_all(&mut out, &mid);
        push_all(&mut out, &escv);
        let close = str_to_chars("</span>");
        push_all(&mut out, &close);
        chars_to_string(&out)
    }

    /// The styled block element for one formula.
    pub fn render_katex_block(&self, formula: &str) -> (r: String)
        ensures
            r@ == block_math_rep(formula@),
    {
        let esc = escape_text(formula);
        let escv = str_to_chars(esc.as_str());
        let mut out = str_to_chars("<div class=\"ztext-math\" data-tex=\"");
        push_all(&mut out, &escv);
        let mid = str_to_chars("\" data-mode=\"display\">");
        push_all(&mut out, &mid);
        push_all(&mut out, &escv);
        let close = str_to_chars("</div>");
        push_all(&mut out, &close);
        chars_to_string(&out)
    }

    /// With math off, the text passes through untouched, `$` delimiters and
    /// all; with math on, inline formulas are replaced first, then block
    /// formulas over the already-substituted text.
    pub fn render_math_expressions(&self, html: &str) -> (r: Result<String, Error>)
        ensures
            r is Ok,
            self.math_enabled ==> r.unwrap()@ == spec_zhihu_math(html@),
            !self.math_enabled ==> r.unwrap()@ == html@,
    {
        if !self.math_enabled {
            return Ok(String::from_str(html));
        }
        let v = str_to_chars(html);
        let a = self.run_math_inline(&v);
        let b = self.run_math_block(&a);
        Ok(chars_to_string(&b))
    }

    /// Runs the inline math pass.
    fn run_math_inline(&self, s: &Vec<char>) -> (out: Vec<char>)
        ensures
            out@ == scan_from(s@, 0, math_inline_m()),
    {
        let ghost m = math_inline_m();
        let mut out: Vec<char> = Vec::new();
        let mut i: usize = 0;
        while i < s.len()
            invariant
                i <= s@.len(),
                m == math_inline_m(),
                out@ + scan_from(s@, i as int, m) == scan_from(s@, 0, m),
            decreases s@.len() - i,
        {
            let ghost pre = out@;
            proof {
                assert(m(s@, i as int) == math_inline_match(s@, i as int));
            }
            match self.try_math_inline(s, i) {
                Some((k, rep)) => {
                    proof {
                        assert(scan_from(s@, i as int, m) == rep@ + scan_from(s@, i + k, m));
                    }
                    let mut rep2 = rep;
                    out.append(&mut rep2);
                    proof {
                        assert((pre + rep@) + scan_from(s@, i + k, m) =~= pre + (rep@ + scan_from(
                            s@,
                            i + k,
                            m,
                        )));
                    }
                    i += k;
                },
                None => {
                    proof {
                        assert(scan_from(s@, i as int, m) == seq![s@[i as int]] + scan_from(
                            s@,
                            i + 1,
                            m,
                        ));
                    }
                    out.push(s[i]);
                    proof {
                        assert((pre + seq![s@[i as int]]) + scan_from(s@, i + 1, m) =~= pre + (seq![
                            s@[i as int],
                        ] + scan_from(s@, i + 1, m)));
                        assert(pre.push(s@[i as int]) =~= pre + seq![s@[i as int]]);
                    }
                    i += 1;
                },
            }
        }
        proof {
            assert(out@ + scan_from(s@, i as int, m) =~= out@);
        }
        out
    }

    /// Evaluates `math_inline_match` at position `i`.
    fn try_math_inline(&self, s: &Vec<char>, i: usize) -> (r: Option<(usize, Vec<char>)>)
        requires
            i < s@.len(),
        ensures
            match (r, math_inline_match(s@, i as int)) {
                (Some(rk), Some(sk)) => rk.0 as int == sk.0 && rk.1@ == sk.1 && 1 <= rk.0 && i
                    + rk.0 <= s@.len(),
                (None, None) => true,
                _ => false,
            },
    {
        let n = s.len();
        let dollar: Vec<char> = vec!['$'];
        let nl: Vec<char> = vec!['\n'];
        proof {
            assert(dollar@ =~= seq!['$']);
            assert(nl@ =~= seq!['\n']);
        }
        if !starts_with_at(s, i, &dollar) {
            return None;
        }
        match find_pat_from(s, i + 1, &dollar) {
            Some(j) => {
                proof {
                    lemma_find_from_spec(s@, i + 1, dollar@);
                }
                let no_nl = match find_pat_from(s, i + 1, &nl) {
                    Some(n) => n > j,
                    None => true,
                };
                if j > i + 1 && no_nl {
                    let mut formula: Vec<char> = Vec::new();
                    push_range(&mut formula, s, i + 1, j);
                    proof {
                        assert(formula@ =~= s@.subrange(i + 1, j as int));
                    }
                    let rep = self.render_katex_inline(chars_to_string(&formula).as_str());
                    let repv = str_to_chars(rep.as_str());
                    Some((j + 1 - i, repv))
                } else {
                    None
                }
            },
            None => None,
        }
    }

    /// Runs the block math pass.
    fn run_math_block(&self, s: &Vec<char>) -> (out: Vec<char>)
        ensures
            out@ == scan_from(s@, 0, math_block_m()),
    {
        let ghost m = math_block_m();
        let mut out: Vec<char> = Vec::new();
        let mut i: usize = 0;
        while i < s.len()
            invariant
                i <= s@.len(),
                m == math_block_m(),
                out@ + scan_from(s@, i as int, m) == scan_from(s@, 0, m),
            decreases s@.len() - i,
        {
            let ghost pre = out@;
            proof {
                assert(m(s@, i as int) == math_block_match(s@, i as int));
            }
            match self.try_math_block(s, i) {
                Some((k, rep)) => {
                    proof {
                        assert(scan_from(s@, i as int, m) == rep@ + scan_from(s@, i + k, m));
                    }
                    let mut rep2 = rep;
                    out.append(&mut rep2);
                    proof {
                        assert((pre + rep@) + scan_from(s@, i + k, m) =~= pre + (rep@ + scan_from(
                            s@,
                            i + k,
                            m,
                        )));
                    }
                    i += k;
                },
                None => {
                    proof {
                        assert(scan_from(s@, i as int, m) == seq![s@[i as int]] + scan_from(
                            s@,
                            i + 1,
                            m,
                        ));
                    }
                    out.push(s[i]);
                    proof {
                        assert((pre + seq![s@[i as int]]) + scan_from(s@, i + 1, m) =~= pre + (seq![
                            s@[i as int],
                        ] + scan_from(s@, i + 1, m)));
                        assert(pre.push(s@[i as int]) =~= pre + seq![s@[i as int]]);
                    }
                    i += 1;
                },
            }
        }
        proof {
            assert(out@ + scan_from(s@, i as int, m) =~= out@);
        }
        out
    }

    /// Evaluates `math_block_match` at position `i`.
    fn try_math_block(&self, s: &Vec<char>, i: usize) -> (r: Option<(usize, Vec<char>)>)
        requires
            i < s@.len(),
        ensures
            match (r, math_block_match(s@, i as int)) {
                (Some(rk), Some(sk)) => rk.0 as int == sk.0 && rk.1@ == sk.1 && 1 <= rk.0 && i
                    + rk.0 <= s@.len(),
                (None, None) => true,
                _ => false,
            },
    {
        let n = s.len();
        let dd: Vec<char> = vec!['$', '$'];
        proof {
            assert(dd@ =~= seq!['$', '$']);
        }
        if !starts_with_at(s, i, &dd) {
            return None;
        }
        match find_pat_from(s, i + 2, &dd) {
            Some(j) => {
                proof {
                    lemma_find_from_spec(s@, i + 2, dd@);
                }
                let mut formula: Vec<char> = Vec::new();
                push_range(&mut formula, s, i + 2, j);
                proof {
                    assert(formula@ =~= s@.subrange(i + 2, j as int));
                }
                let trimmed = trim_chars(&formula);
                let rep = self.render_katex_block(chars_to_string(&trimmed).as_str());
                let repv = str_to_chars(rep.as_str());
                Some((j + 2 - i, repv))
            },
            None => None,
        }
    }

    /// Fenced code blocks gain a `data-lang` attribute and a highlight
    /// container; remaining bare `<code>` elements gain the platform's
    /// inline styling class.
    pub fn enhance_code_blocks(&self, html: &str) -> (r: Result<String, Error>)
        ensures
            r is Ok,
            r.unwrap()@ == spec_zhihu_code(html@),
    {
        let v = str_to_chars(html);
        let a = self.run_fence(&v);
        let b = self.run_icode(&a);
        Ok(chars_to_string(&b))
    }

    /// Runs the fenced-code pass.
    fn run_fence(&self, s: &Vec<char>) -> (out: Vec<char>)
        ensures
            out@ == scan_from(s@, 0, fence_m()),
    {
        let ghost m = fence_m();
        let mut out: Vec<char> = Vec::new();
        let mut i: usize = 0;
        while i < s.len()
            invariant
                i <= s@.len(),
                m == fence_m(),
                out@ + scan_from(s@, i as int, m) == scan_from(s@, 0, m),
            decreases s@.len() - i,
        {
            let ghost pre = out@;
            proof {
                assert(m(s@, i as int) == fence_match(s@, i as int));
            }
            match try_fence(s, i) {
                Some((k, rep)) => {
                    proof {
                        assert(scan_from(s@, i as int, m) == rep@ + scan_from(s@, i + k, m));
                    }
                    let mut rep2 = rep;
                    out.append(&mut rep2);
                    proof {
                        assert((pre + rep@) + scan_from(s@, i + k, m) =~= pre + (rep@ + scan_from(
                            s@,
                            i + k,
                            m,
                        )));
                    }
                    i += k;
                },
                None => {
                    proof {
                        assert(scan_from(s@, i as int, m) == seq![s@[i as int]] + scan_from(
                            s@,
                            i + 1,
                            m,
                        ));
                    }
                    out.push(s[i]);
                    proof {
                        assert((pre + seq![s@[i as int]]) + scan_from(s@, i + 1, m) =~= pre + (seq![
                            s@[i as int],
                        ] + scan_from(s@, i + 1, m)));
                        assert(pre.push(s@[i as int]) =~= pre + seq![s@[i as int]]);
                    }
                    i += 1;
                },
            }
        }
        proof {
            assert(out@ + scan_from(s@, i as int, m) =~= out@);
        }
        out
    }

    /// Runs the inline-code pass.
    fn run_icode(&self, s: &Vec<char>) -> (out: Vec<char>)
        ensures
            out@ == scan_from(s@, 0, icode_m()),
    {
        let ghost m = icode_m();
        let mut out: Vec<char> = Vec::new();
        let mut i: usize = 0;
        while i < s.len()
            invariant
                i <= s@.len(),
                m == icode_m(),
                out@ + scan_from(s@, i as int, m) == scan_from(s@, 0, m),
            decreases s@.len() - i,
        {
            let ghost pre = out@;
            proof {
                assert(m(s@, i as int) == icode_match(s@, i as int));
            }
            match try_icode(s, i) {
                Some((k, rep)) => {
                    proof {
                        assert(scan_from(s@, i as int, m) == rep@ + scan_from(s@, i + k, m));
                    }
                    let mut rep2 = rep;
                    out.append(&mut rep2);
                    proof {
                        assert((pre + rep@) + scan_from(s@, i + k, m) =~= pre + (rep@ + scan_from(
                            s@,
                            i + k,
                            m,
                        )));
                    }
                    i += k;
                },
                None => {
                    proof {
                        assert(scan_from(s@, i as int, m) == seq![s@[i as int]] + scan_from(
                            s@,
                            i + 1,
                            m,
                        ));
                    }
                    out.push(s[i]);
                    proof {
                        assert((pre + seq![s@[i as int]]) + scan_from(s@, i + 1, m) =~= pre + (seq![
                            s@[i as int],
                        ] + scan_from(s@, i + 1, m)));
                        assert(pre.push(s@[i as int]) =~= pre + seq![s@[i as int]]);
                    }
                    i += 1;
                },
            }
        }
        proof {
            assert(out@ + scan_from(s@, i as int, m) =~= out@);
        }
        out
    }

    /// Every `<img>` gains the class token `ztext-image`, merged into an
    /// existing quoted class attribute rather than overwriting it.
    pub fn optimize_images(&self, html: &str) -> (r: Result<String, Error>)
        ensures
            r is Ok,
            r.unwrap()@ == spec_zhihu_images(html@),
    {
        let v = str_to_chars(html);
        let a = run_merge_attr(&v, "img", "class", " ", "ztext-image", false);
        Ok(chars_to_string(&a))
    }

    /// Every `<table>` gains the class `ztext-table`; the attribute is
    /// inserted unconditionally, and a pre-existing class attribute stays in
    /// place (HTML keeps the earlier one).
    pub fn enhance_tables(&self, html: &str) -> (r: Result<String, Error>)
        ensures
            r is Ok,
            r.unwrap()@ == add_attr(html@, "table"@, " class=\"ztext-table\""@),
    {
        let v = str_to_chars(html);
        let a = run_add_attr(&v, "table", " class=\"ztext-table\"");
        Ok(chars_to_string(&a))
    }

    /// Every `<ol>` and `<ul>` gains the class `ztext-list`, inserted the
    /// same way as for tables.
    pub fn process_lists(&self, html: &str) -> (r: Result<String, Error>)
        ensures
            r is Ok,
            r.unwrap()@ == add_attr(
                add_attr(html@, "ol"@, " class=\"ztext-list\""@),
                "ul"@,
                " class=\"ztext-list\""@,
            ),
    {
        let v = str_to_chars(html);
        let a = run_add_attr(&v, "ol", " class=\"ztext-list\"");
        let b = run_add_attr(&a, "ul", " class=\"ztext-list\"");
        Ok(chars_to_string(&b))
    }

    /// The full adaptation pipeline, in order: sanitize, math rendering
    /// (when enabled), code enhancement, image decoration, table decoration,
    /// list decoration. Total over arbitrary HTML input.
    pub fn adapt_html(&self, html: &str) -> (r: Result<String, Error>)
        ensures
            r is Ok,
            r.unwrap()@ == spec_zhihu_adapt(
                strs_view(self.forbidden_tags@),
                self.math_enabled,
                html@,
            ),
    {
        let sanitized = match self.sanitize_html(html) {
            Ok(x) => x,
            Err(e) => {
                return Err(e);
            },
        };
        let with_math = match self.render_math_expressions(sanitized.as_str()) {
            Ok(x) => x,
            Err(e) => {
                return Err(e);
            },
        };
        let enhanced_code = match self.enhance_code_blocks(with_math.as_str()) {
            Ok(x) => x,
            Err(e) => {
                return Err(e);
            },
        };
        let optimized_images = match self.optimize_images(enhanced_code.as_str()) {
            Ok(x) => x,
            Err(e) => {
                return Err(e);
            },
        };
        let enhanced_tables = match self.enhance_tables(optimized_images.as_str()) {
            Ok(x) => x,
            Err(e) => {
                return Err(e);
            },
        };
        let processed_lists = match self.process_lists(enhanced_tables.as_str()) {
            Ok(x) => x,
            Err(e) => {
                return Err(e);
            },
        };
        Ok(processed_lists)
    }

    /// Validates content against the platform's rules: a source text over
    /// the ceiling or an empty title blocks publishing; a title over 100
    /// characters, more than five tags, or a disallowed marketing keyword in
    /// the body are only warned about. The call fails exactly when a
    /// blocking violation exists, with the blocking messages joined into one
    /// `Error::Publishing`.
    pub fn validate_content(&self, content: &Content) -> (r: Result<(), Error>)
        ensures
            r is Err <==> (content.markdown@.len() > self.max_content_length || content.title@.len()
                == 0),
            match r {
                Ok(()) => true,
                Err(e) => e matches Error::Publishing(m) && m@ == "知乎内容验证失败: "@
                    + join_with(
                    zhihu_error_lines(
                        content.markdown@.len() as int,
                        self.max_content_length as int,
                        content.title@.len() as int,
                    ),
                    "; "@,
                ),
            },
    {
        let md_len = content.markdown.as_str().unicode_len();
        let t_len = content.title.as_str().unicode_len();
        let ghost mdl = content.markdown@.len() as int;
        let ghost mxl = self.max_content_length as int;
        let ghost tl = content.title@.len() as int;
        let mut errors: Vec<ValidationError> = Vec::new();
        if md_len > self.max_content_length {
            let mut msg: Vec<char> = str_to_chars("内容长度超过限制（当前：");
            let cur = u64_to_dec_chars(md_len as u64);
            push_all(&mut msg, &cur);
            let mid = str_to_chars("，限制：");
            push_all(&mut msg, &mid);
            let lim = u64_to_dec_chars(self.max_content_length as u64);
            push_all(&mut msg, &lim);
            let close = str_to_chars("）");
            push_all(&mut msg, &close);
            let ghost before = errors@;
            let ve = ValidationError {
                field: String::from_str("content"),
                message: chars_to_string(&msg),
                severity: ValidationSeverity::Error,
            };
            proof {
                lemma_err_lines_push_error(before, ve);
            }
            errors.push(ve);
        }
        if t_len == 0 {
            let ghost before = errors@;
            let ve = ValidationError {
                field: String::from_str("title"),
                message: String::from_str("标题不能为空"),
                severity: ValidationSeverity::Error,
            };
            proof {
                lemma_err_lines_push_error(before, ve);
            }
            errors.push(ve);
        }
        proof {
            assert(err_lines(Seq::<ValidationError>::empty()) == Seq::<Seq<char>>::empty());
            assert(err_lines(errors@) =~= zhihu_error_lines(mdl, mxl, tl));
        }
        let ghost fixed = errors@;
        if t_len > 100 {
            let ghost before = errors@;
            let ve = ValidationError {
                field: String::from_str("title"),
                message: String::from_str("标题长度不能超过100个字符"),
                severity: ValidationSeverity::Warning,
            };
            proof {
                lemma_err_lines_push_warning(before, ve);
            }
            errors.push(ve);
        }
        if content.metadata.tags.len() > 5 {
            let ghost before = errors@;
            let ve = ValidationError {
                field: String::from_str("tags"),
                message: String::from_str("标签数量不能超过5个"),
                severity: ValidationSeverity::Warning,
            };
            proof {
                lemma_err_lines_push_warning(before, ve);
            }
            errors.push(ve);
        }
        let mdv = str_to_chars(content.markdown.as_str());
        let kw1 = str_to_chars("广告");
        let kw2 = str_to_chars("推广");
        let kw3 = str_to_chars("联系方式");
        if contains_pat(&mdv, &kw1) {
            let ghost before = errors@;
            let ve = ValidationError {
                field: String::from_str("content"),
                message: String::from_str("内容包含可能被禁止的关键词: 广告"),
                severity: ValidationSeverity::Warning,
            };
            proof {
                lemma_err_lines_push_warning(before, ve);
            }
            errors.push(ve);
        }
        if contains_pat(&mdv, &kw2) {
            let ghost before = errors@;
            let ve = ValidationError {
                field: String::from_str("content"),
                message: String::from_str("内容包含可能被禁止的关键词: 推广"),
                severity: ValidationSeverity::Warning,
            };
            proof {
                lemma_err_lines_push_warning(before, ve);
            }
            errors.push(ve);
        }
        if contains_pat(&mdv, &kw3) {
            let ghost before = errors@;
            let ve = ValidationError {
                field: String::from_str("content"),
                message: String::from_str("内容包含可能被禁止的关键词: 联系方式"),
                severity: ValidationSeverity::Warning,
            };
            proof {
                lemma_err_lines_push_warning(before, ve);
            }
            errors.push(ve);
        }
        proof {
            assert(err_lines(errors@) == zhihu_error_lines(mdl, mxl, tl));
        }
        let lines = collect_error_lines(&errors);
        proof {
            let zl = zhihu_error_lines(mdl, mxl, tl);
            assert(lines_view(lines@) == zl);
            assert(lines_view(lines@).len() == lines@.len());
            if content.markdown@.len() > self.max_content_length || content.title@.len() == 0 {
                assert(zl.len() > 0);
            } else {
                assert(zl =~= Seq::<Seq<char>>::empty());
            }
        }
        if lines.len() > 0 {
            let sep = str_to_chars("; ");
            let joined = join_chars_from(&lines, 0, &sep);
            let mut m = str_to_chars("知乎内容验证失败: ");
            push_all(&mut m, &joined);
            Err(Error::Publishing(chars_to_string(&m)))
        } else {
            Ok(())
        }
    }

    /// The platform's image preprocessing hook; in this core it applies the
    /// image decoration pass.
    pub fn preprocess_images(&self, html: &str) -> (r: Result<String, Error>)
        ensures
            r is Ok,
            r.unwrap()@ == spec_zhihu_images(html@),
    {
        self.optimize_images(html)
    }
}

impl Default for ZhihuStyleAdapter {
    /// The same adapter `new` builds.
    fn default() -> (r: Self)
        ensures
            r.math_enabled == true,
            r.max_content_length == 30000,
            strs_view(r.forbidden_tags@) == zhihu_forbidden(),
    {
        ZhihuStyleAdapter::new()
    }
}

impl StyleProvider for ZhihuStyleAdapter {
    fn get_styles(&self) -> &'static str {
        "\n        .ztext-image { max-width: 100%; height: auto; display: block; margin: 20px auto; }\n        .ztext-table { width: 100%; border-collapse: collapse; margin: 20px 0; }\n        .ztext-list { margin: 15px 0; padding-left: 30px; }\n        .ztext-math { font-family: 'Times New Roman', serif; }\n        .ztext-tag {\n            display: inline-block;\n            background: #f0f0f0;\n            color: #666;\n            padding: 2px 8px;\n            border-radius: 12px;\n            font-size: 12px;\n            margin: 2px;\n        }\n        .ztext-meta { margin-top: 30px; padding-top: 20px; border-top: 1px solid #eee; }\n        .highlight { background: #f8f8f8; border-radius: 4px; padding: 16px; margin: 16px 0; }\n        .inline-code {\n            background: #f0f0f0;\n            color: #d73a49;\n            padding: 2px 4px;\n            border-radius: 3px;\n            font-family: 'SFMono-Regular', Consolas, monospace;\n        }\n        "
    }

    fn apply_inline_styles(&self, html: &str) -> Result<String, Error> {
        Ok(String::from_str(html))
    }
}

/// Evaluates `fence_match` at position `i`.
fn try_fence(s: &Vec<char>, i: usize) -> (r: Option<(usize, Vec<char>)>)
    requires
        i < s@.len(),
    ensures
        match (r, fence_match(s@, i as int)) {
            (Some(rk), Some(sk)) => rk.0 as int == sk.0 && rk.1@ == sk.1 && 1 <= rk.0 && i + rk.0
                <= s@.len(),
            (None, None) => true,
            _ => false,
        },
{
    let n = s.len();
    let opener = str_to_chars("<pre><code");
    proof {
        reveal_strlit("<pre><code");
    }
    if !starts_with_at(s, i, &opener) {
        return None;
    }
    let gt: Vec<char> = vec!['>'];
    proof {
        assert(gt@ =~= seq!['>']);
    }
    if starts_with_at(s, i + 10, &gt) {
        let lang = str_to_chars("text");
        return fence_rest(s, i, i + 11, &lang);
    }
    let lang_attr = str_to_chars(" class=\"language-");
    proof {
        reveal_strlit(" class=\"language-");
    }
    if starts_with_at(s, i + 10, &lang_attr) {
        let quote: Vec<char> = vec!['"'];
        proof {
            assert(quote@ =~= seq!['"']);
        }
        match find_pat_from(s, i + 27, &quote) {
            Some(q) => {
                proof {
                    lemma_find_from_spec(s@, i + 27, quote@);
                }
                if starts_with_at(s, q + 1, &gt) {
                    let mut lang: Vec<char> = Vec::new();
                    push_range(&mut lang, s, i + 27, q);
                    proof {
                        assert(lang@ =~= s@.subrange(i + 27, q as int));
                    }
                    fence_rest(s, i, q + 2, &lang)
                } else {
                    None
                }
            },
            None => None,
        }
    } else {
        None
    }
}

/// Evaluates `fence_content` for a fence whose opening tags end just before
/// `c0`.
fn fence_rest(s: &Vec<char>, i: usize, c0: usize, lang: &Vec<char>) -> (r: Option<
    (usize, Vec<char>),
>)
    requires
        i <= c0 <= s@.len(),
    ensures
        match (r, fence_content(s@, i as int, c0 as int, lang@)) {
            (Some(rk), Some(sk)) => rk.0 as int == sk.0 && rk.1@ == sk.1 && 1 <= rk.0 && i + rk.0
                <= s@.len(),
            (None, None) => true,
            _ => false,
        },
{
    let n = s.len();
    let lt: Vec<char> = vec!['<'];
    proof {
        assert(lt@ =~= seq!['<']);
    }
    match find_pat_from(s, c0, &lt) {
        Some(m) => {
            proof {
                lemma_find_from_spec(s@, c0 as int, lt@);
            }
            let closer = str_to_chars("</code></pre>");
            proof {
                reveal_strlit("</code></pre>");
            }
            if starts_with_at(s, m, &closer) {
                let mut rep = str_to_chars("<div class=\"highlight\"><pre><code class=\"language-");
                push_all(&mut rep, lang);
                let mid = str_to_chars("\" data-lang=\"");
                push_all(&mut rep, &mid);
                push_all(&mut rep, lang);
                let g2 = str_to_chars("\">");
                push_all(&mut rep, &g2);
                let mut content: Vec<char> = Vec::new();
                push_range(&mut content, s, c0, m);
                proof {
                    assert(content@ =~= s@.subrange(c0 as int, m as int));
                }
                push_all(&mut rep, &content);
                let tail = str_to_chars("</code></pre></div>");
                push_all(&mut rep, &tail);
                proof {
                    assert(rep@ =~= fence_rep(lang@, s@.subrange(c0 as int, m as int)));
                }
                Some((m + 13 - i, rep))
            } else {
                None
            }
        },
        None => None,
    }
}

/// Evaluates `icode_match` at position `i`.
fn try_icode(s: &Vec<char>, i: usize) -> (r: Option<(usize, Vec<char>)>)
    requires
        i < s@.len(),
    ensures
        match (r, icode_match(s@, i as int)) {
            (Some(rk), Some(sk)) => rk.0 as int == sk.0 && rk.1@ == sk.1 && 1 <= rk.0 && i + rk.0
                <= s@.len(),
            (None, None) => true,
            _ => false,
        },
{
    let n = s.len();
    let opener = str_to_chars("<code>");
    proof {
        reveal_strlit("<code>");
    }
    if !starts_with_at(s, i, &opener) {
        return None;
    }
    let lt: Vec<char> = vec!['<'];
    proof {
        assert(lt@ =~= seq!['<']);
    }
    match find_pat_from(s, i + 6, &lt) {
        Some(m) => {
            proof {
                lemma_find_from_spec(s@, i + 6, lt@);
            }
            let closer = str_to_chars("</code>");
            proof {
                reveal_strlit("</code>");
            }
            if m > i + 6 && starts_with_at(s, m, &closer) {
                let mut rep = str_to_chars("<code class=\"inline-code\">");
                let mut content: Vec<char> = Vec::new();
                push_range(&mut content, s, i + 6, m);
                proof {
                    assert(content@ =~= s@.subrange(i + 6, m as int));
                }
                push_all(&mut rep, &content);
                let tail = str_to_chars("</code>");
                push_all(&mut rep, &tail);
                proof {
                    assert(rep@ =~= icode_open() + s@.subrange(i + 6, m as int) + "</code>"@);
                }
                Some((m + 7 - i, rep))
            } else {
                None
            }
        },
        None => None,
    }
}

} // verus!
