//! The WeChat-style platform adapter: a fixed pipeline of full-document
//! rewrites — sanitize, inline the style table, externalize absolute links
//! into numbered footnotes, and add mobile-friendly attributes — plus the
//! platform's content validation.

use vstd::prelude::*;

verus! {

use vstd::string::StrSliceExecFns;
use vstd::string::StringExecFns;
use crate::Error;
use crate::adapters::StyleProvider;
use crate::adapters::ValidationError;
use crate::adapters::ValidationSeverity;
use crate::adapters::collect_error_lines;
use crate::adapters::err_lines;
use crate::adapters::join_chars_from;
use crate::adapters::join_with;
use crate::adapters::lemma_err_lines_append;
use crate::content::Content;
use crate::content::Platform;
use crate::rewrite::add_attr;
use crate::rewrite::add_attr_if_absent;
use crate::rewrite::drop_attr;
use crate::rewrite::drop_literal;
use crate::rewrite::merge_attr;
use crate::rewrite::run_add_attr;
use crate::rewrite::run_add_attr_if_absent;
use crate::rewrite::run_drop_attr;
use crate::rewrite::run_drop_literal;
use crate::rewrite::run_merge_attr;
use crate::rewrite::run_strip_blocks;
use crate::rewrite::scrub_two;
use crate::rewrite::scrub_two_exec;
use crate::rewrite::strip_blocks;
use crate::rewrite::lemma_scrub_two_clean;
use crate::text::chars_to_string;
use crate::text::contains_sub;
use crate::text::dec_str;
use crate::text::find_from;
use crate::text::find_pat_from;
use crate::text::is_space_char;
use crate::text::lemma_find_from_spec;
use crate::text::lines_view;
use crate::text::matches_at;
use crate::text::pairs_view;
use crate::text::push_all;
use crate::text::push_range;
use crate::text::starts_with_at;
use crate::text::str_to_chars;
use crate::text::u64_to_dec_chars;

/// The style table of the WeChat-style platform: for each tag, the inline
/// declarations its opening tags receive, applied in this order.
pub open spec fn wechat_rules() -> Seq<(Seq<char>, Seq<char>)> {
    seq![
        (
            "body"@,
            "font-family: -apple-system, BlinkMacSystemFont, 'Segoe UI', Roboto, 'Helvetica Neue', Arial, sans-serif; color: #333; line-height: 1.6; margin: 0; padding: 20px;"@,
        ),
        (
            "p"@,
            "font-size: 16px; line-height: 1.8; margin: 20px 0; color: #333; text-align: justify;"@,
        ),
        (
            "h1"@,
            "font-size: 24px; font-weight: bold; text-align: center; margin: 30px 0 20px 0; color: #2c3e50; border-bottom: 2px solid #3498db; padding-bottom: 10px;"@,
        ),
        (
            "h2"@,
            "font-size: 20px; font-weight: bold; margin: 25px 0 15px 0; color: #2c3e50; border-left: 4px solid #3498db; padding-left: 15px;"@,
        ),
        ("h3"@, "font-size: 18px; font-weight: bold; margin: 20px 0 10px 0; color: #34495e;"@),
        ("h4"@, "font-size: 16px; font-weight: bold; margin: 15px 0 8px 0; color: #34495e;"@),
        (
            "blockquote"@,
            "border-left: 4px solid #ddd; margin: 20px 0; padding: 10px 20px; background-color: #f9f9f9; font-style: italic; color: #666;"@,
        ),
        (
            "pre"@,
            "background-color: #f8f8f8; border: 1px solid #ddd; border-radius: 6px; padding: 15px; margin: 20px 0; overflow-x: auto; font-family: 'Consolas', 'Monaco', 'Courier New', monospace; font-size: 14px; line-height: 1.4;"@,
        ),
        (
            "code"@,
            "background-color: #f1f2f3; padding: 2px 6px; border-radius: 3px; font-family: 'Consolas', 'Monaco', 'Courier New', monospace; font-size: 14px; color: #e96900;"@,
        ),
        (
            "img"@,
            "max-width: 100%; height: auto; display: block; margin: 20px auto; border-radius: 8px; box-shadow: 0 2px 8px rgba(0,0,0,0.1);"@,
        ),
        ("table"@, "width: 100%; border-collapse: collapse; margin: 20px 0; font-size: 14px;"@),
        (
            "th"@,
            "background-color: #f1f2f3; padding: 12px; text-align: left; border: 1px solid #ddd; font-weight: bold;"@,
        ),
        ("td"@, "padding: 12px; text-align: left; border: 1px solid #ddd;"@),
        ("ul"@, "margin: 15px 0; padding-left: 30px;"@),
        ("ol"@, "margin: 15px 0; padding-left: 30px;"@),
        ("li"@, "margin: 8px 0; line-height: 1.6;"@),
        ("a"@, "color: #3498db; text-decoration: none; border-bottom: 1px dotted #3498db;"@),
        ("strong"@, "font-weight: bold; color: #2c3e50;"@),
        ("em"@, "font-style: italic; color: #7f8c8d;"@),
    ]
}

/// The sanitize pass: `<script>` and `<style>` elements removed with their
/// content, the dangerous event-handler attributes and inline `javascript:`
/// occurrences dropped, and any leftover `<script` or `<style` text scrubbed
/// away so neither ever survives.
pub open spec fn spec_wechat_sanitize(h: Seq<char>) -> Seq<char> {
    let a = strip_blocks(h, "script"@);
    let b = strip_blocks(a, "style"@);
    let c = drop_attr(b, "onclick"@);
    let d = drop_attr(c, "onload"@);
    let e = drop_attr(d, "onerror"@);
    let f = drop_literal(e, "javascript:"@);
    scrub_two(f, "<script"@, "<style"@)
}

/// The style table applied from rule `i` on: each rule merges its
/// declarations into the matching opening tags.
pub open spec fn inline_rules_from(
    rules: Seq<(Seq<char>, Seq<char>)>,
    i: int,
    s: Seq<char>,
) -> Seq<char>
    decreases rules.len() - i,
{
    if i < 0 || i >= rules.len() {
        s
    } else {
        inline_rules_from(rules, i + 1, merge_attr(s, rules[i].0, "style"@, "; "@, rules[i].1, true))
    }
}

/// The whole style table applied, first rule first.
pub open spec fn spec_inline_all(rules: Seq<(Seq<char>, Seq<char>)>, s: Seq<char>) -> Seq<char> {
    inline_rules_from(rules, 0, s)
}

/// An absolute target: one that begins with `http`.
pub open spec fn starts_http(u: Seq<char>) -> bool {
    matches_at(u, 0, "http"@)
}

/// Match of an anchor element at `i`: `<a`, whitespace, attributes holding a
/// quoted `href`, the tag's closing `>`, text without `<`, and a literal
/// `</a>`. Returns the consumed length, the href target and the anchor text.
pub open spec fn anchor_match(s: Seq<char>, i: int) -> Option<(int, Seq<char>, Seq<char>)> {
    if matches_at(s, i, "<a"@) && i + 2 < s.len() && is_space_char(s[i + 2]) {
        let h_opt = find_from(s, i + 3, "href=\""@);
        let g0 = find_from(s, i + 3, seq!['>']);
        match h_opt {
            Some(h) => if g0 is None || h < g0.unwrap() {
                match find_from(s, h + 6, seq!['"']) {
                    Some(q) => match find_from(s, q + 1, seq!['>']) {
                        Some(g) => match find_from(s, g + 1, seq!['<']) {
                            Some(m) => if matches_at(s, m, "</a>"@) {
                                Some((m + 4 - i, s.subrange(h + 6, q), s.subrange(g + 1, m)))
                            } else {
                                None
                            },
                            None => None,
                        },
                        None => None,
                    },
                    None => None,
                }
            } else {
                None
            },
            None => None,
        }
    } else {
        None
    }
}

/// The styled span that replaces an anchor with a relative target, opening
/// part.
pub open spec fn span_open() -> Seq<char> {
    "<span style=\"color: #3498db; text-decoration: underline;\">"@
}

/// The styled span that replaces an anchor with a relative target, closing
/// part.
pub open spec fn span_close() -> Seq<char> {
    "</span>"@
}

/// The link pass over `s[i..]` with `n` the next footnote number: an anchor
/// with an absolute target becomes its text plus a bracketed footnote marker
/// and contributes a numbered footnote line; one with a relative target
/// becomes a styled span around its text; everything else is copied. Returns
/// the rewritten text and the footnote lines.
pub open spec fn links_state(s: Seq<char>, i: int, n: int) -> (Seq<char>, Seq<Seq<char>>)
    decreases s.len() - i,
{
    if i < 0 || i >= s.len() {
        (Seq::empty(), Seq::empty())
    } else {
        match anchor_match(s, i) {
            Some(m) => {
                if 1 <= m.0 && i + m.0 <= s.len() {
                    if starts_http(m.1) {
                        let rest = links_state(s, i + m.0, n + 1);
                        (
                            m.2 + seq!['['] + dec_str(n) + seq![']'] + rest.0,
                            seq![seq!['['] + dec_str(n) + seq![']', ' '] + m.1] + rest.1,
                        )
                    } else {
                        let rest = links_state(s, i + m.0, n);
                        (span_open() + m.2 + span_close() + rest.0, rest.1)
                    }
                } else {
                    let rest = links_state(s, i + 1, n);
                    (seq![s[i]] + rest.0, rest.1)
                }
            },
            None => {
                let rest = links_state(s, i + 1, n);
                (seq![s[i]] + rest.0, rest.1)
            },
        }
    }
}

/// The text that opens the appended references section.
pub open spec fn refs_head() -> Seq<char> {
    "\n                <hr style=\"margin: 30px 0; border: none; border-top: 1px solid #ddd;\">\n                <h4 style=\"font-size: 14px; color: #666; margin-bottom: 10px;\">参考链接：</h4>\n                <div style=\"font-size: 12px; color: #666; line-height: 1.8;\">\n                    "@
}

/// The text that closes the appended references section.
pub open spec fn refs_tail() -> Seq<char> {
    "\n                </div>\n                "@
}

/// The link pass over a whole document: the rewritten text, with a
/// references section appended when any footnote was collected.
pub open spec fn spec_wechat_links(h: Seq<char>) -> Seq<char> {
    let st = links_state(h, 0, 1);
    if st.1.len() == 0 {
        st.0
    } else {
        st.0 + refs_head() + join_with(st.1, "<br>"@) + refs_tail()
    }
}

/// The responsive style every `<table>` receives, unconditionally.
pub open spec fn table_style_ins() -> Seq<char> {
    " style=\"width: 100%; border-collapse: collapse; margin: 20px 0; font-size: 14px; overflow-x: auto;\""@
}

/// The responsive style an `<img>` without a style attribute receives.
pub open spec fn img_style_ins() -> Seq<char> {
    " style=\"max-width: 100%; height: auto; display: block; margin: 20px auto;\""@
}

/// The mobile pass: tables always get the responsive style; images get one
/// only when they carry none.
pub open spec fn spec_wechat_mobile(h: Seq<char>) -> Seq<char> {
    add_attr_if_absent(add_attr(h, "table"@, table_style_ins()), "img"@, "style="@, img_style_ins())
}

/// The whole adaptation pipeline, in order: sanitize, inline styles,
/// externalize links, optimize for mobile.
pub open spec fn spec_wechat_adapt(rules: Seq<(Seq<char>, Seq<char>)>, h: Seq<char>) -> Seq<char> {
    spec_wechat_mobile(spec_wechat_links(spec_inline_all(rules, spec_wechat_sanitize(h))))
}

/// The `field: message` lines of the validation findings that block
/// publishing, given the content's character count, the platform ceiling and
/// the title's character count.
pub open spec fn wechat_error_lines(mdlen: int, maxlen: int, tlen: int) -> Seq<Seq<char>> {
    (if mdlen > maxlen {
        seq![
            "content"@ + ": "@ + ("内容长度超过限制（当前："@ + dec_str(mdlen) + "，限制："@
                + dec_str(maxlen) + "）"@),
        ]
    } else {
        Seq::<Seq<char>>::empty()
    }) + (if tlen == 0 {
        seq!["title"@ + ": "@ + "标题不能为空"@]
    } else {
        Seq::<Seq<char>>::empty()
    }) + (if tlen > 64 {
        seq!["title"@ + ": "@ + "标题长度不能超过64个字符"@]
    } else {
        Seq::<Seq<char>>::empty()
    })
}

/// The WeChat-style adapter: a style table, a content-length ceiling, and
/// the tag set the platform accepts. Stateless across calls: each call reads
/// only this configuration and its own input.
pub struct WeChatStyleAdapter {
    /// Tag name to inline declarations, applied in order.
    pub inline_styles: Vec<(String, String)>,
    /// The platform's content-length ceiling, in characters.
    pub max_content_length: usize,
    /// The tags the platform accepts.
    pub allowed_tags: Vec<String>,
}

impl WeChatStyleAdapter {
    /// An adapter with the platform's fixed style table and its 20000
    /// character ceiling.
    pub fn new() -> (r: Self)
        ensures
            pairs_view(r.inline_styles@) == wechat_rules(),
            r.max_content_length == 20000,
    {
        let mut inline_styles: Vec<(String, String)> = Vec::new();
        inline_styles.push(
            (
                String::from_str("body"),
                String::from_str(
                    "font-family: -apple-system, BlinkMacSystemFont, 'Segoe UI', Roboto, 'Helvetica Neue', Arial, sans-serif; color: #333; line-height: 1.6; margin: 0; padding: 20px;",
                ),
            ),
        );
        inline_styles.push(
            (
                String::from_str("p"),
                String::from_str(
                    "font-size: 16px; line-height: 1.8; margin: 20px 0; color: #333; text-align: justify;",
                ),
            ),
        );
        inline_styles.push(
            (
                String::from_str("h1"),
                String::from_str(
                    "font-size: 24px; font-weight: bold; text-align: center; margin: 30px 0 20px 0; color: #2c3e50; border-bottom: 2px solid #3498db; padding-bottom: 10px;",
                ),
            ),
        );
        inline_styles.push(
            (
                String::from_str("h2"),
                String::from_str(
                    "font-size: 20px; font-weight: bold; margin: 25px 0 15px 0; color: #2c3e50; border-left: 4px solid #3498db; padding-left: 15px;",
                ),
            ),
        );
        inline_styles.push(
            (
                String::from_str("h3"),
                String::from_str(
                    "font-size: 18px; font-weight: bold; margin: 20px 0 10px 0; color: #34495e;",
                ),
            ),
        );
        inline_styles.push(
            (
                String::from_str("h4"),
                String::from_str(
                    "font-size: 16px; font-weight: bold; margin: 15px 0 8px 0; color: #34495e;",
                ),
            ),
        );
        inline_styles.push(
            (
                String::from_str("blockquote"),
                String::from_str(
                    "border-left: 4px solid #ddd; margin: 20px 0; padding: 10px 20px; background-color: #f9f9f9; font-style: italic; color: #666;",
                ),
            ),
        );
        inline_styles.push(
            (
                String::from_str("pre"),
                String::from_str(
                    "background-color: #f8f8f8; border: 1px solid #ddd; border-radius: 6px; padding: 15px; margin: 20px 0; overflow-x: auto; font-family: 'Consolas', 'Monaco', 'Courier New', monospace; font-size: 14px; line-height: 1.4;",
                ),
            ),
        );
        inline_styles.push(
            (
                String::from_str("code"),
                String::from_str(
                    "background-color: #f1f2f3; padding: 2px 6px; border-radius: 3px; font-family: 'Consolas', 'Monaco', 'Courier New', monospace; font-size: 14px; color: #e96900;",
                ),
            ),
        );
        inline_styles.push(
            (
                String::from_str("img"),
                String::from_str(
                    "max-width: 100%; height: auto; display: block; margin: 20px auto; border-radius: 8px; box-shadow: 0 2px 8px rgba(0,0,0,0.1);",
                ),
            ),
        );
        inline_styles.push(
            (
                String::from_str("table"),
                String::from_str(
                    "width: 100%; border-collapse: collapse; margin: 20px 0; font-size: 14px;",
                ),
            ),
        );
        inline_styles.push(
            (
                String::from_str("th"),
                String::from_str(
                    "background-color: #f1f2f3; padding: 12px; text-align: left; border: 1px solid #ddd; font-weight: bold;",
                ),
            ),
        );
        inline_styles.push(
            (
                String::from_str("td"),
                String::from_str("padding: 12px; text-align: left; border: 1px solid #ddd;"),
            ),
        );
        inline_styles.push(
            (String::from_str("ul"), String::from_str("margin: 15px 0; padding-left: 30px;")),
        );
        inline_styles.push(
            (String::from_str("ol"), String::from_str("margin: 15px 0; padding-left: 30px;")),
        );
        inline_styles.push(
            (String::from_str("li"), String::from_str("margin: 8px 0; line-height: 1.6;")),
        );
        inline_styles.push(
            (
                String::from_str("a"),
                String::from_str(
                    "color: #3498db; text-decoration: none; border-bottom: 1px dotted #3498db;",
                ),
            ),
        );
        inline_styles.push(
            (String::from_str("strong"), String::from_str("font-weight: bold; color: #2c3e50;")),
        );
        inline_styles.push(
            (String::from_str("em"), String::from_str("font-style: italic; color: #7f8c8d;")),
        );
        proof {
            assert(pairs_view(inline_styles@) =~= wechat_rules());
        }
        let mut allowed_tags: Vec<String> = Vec::new();
        allowed_tags.push(String::from_str("p"));
        allowed_tags.push(String::from_str("h1"));
        allowed_tags.push(String::from_str("h2"));
        allowed_tags.push(String::from_str("h3"));
        allowed_tags.push(String::from_str("h4"));
        allowed_tags.push(String::from_str("h5"));
        allowed_tags.push(String::from_str("h6"));
        allowed_tags.push(String::from_str("br"));
        allowed_tags.push(String::from_str("hr"));
        allowed_tags.push(String::from_str("strong"));
        allowed_tags.push(String::from_str("b"));
        allowed_tags.push(String::from_str("em"));
        allowed_tags.push(String::from_str("i"));
        allowed_tags.push(String::from_str("u"));
        allowed_tags.push(String::from_str("s"));
        allowed_tags.push(String::from_str("del"));
        allowed_tags.push(String::from_str("ins"));
        allowed_tags.push(String::from_str("blockquote"));
        allowed_tags.push(String::from_str("pre"));
        allowed_tags.push(String::from_str("code"));
        allowed_tags.push(String::from_str("span"));
        allowed_tags.push(String::from_str("div"));
        allowed_tags.push(String::from_str("ul"));
        allowed_tags.push(String::from_str("ol"));
        allowed_tags.push(String::from_str("li"));
        allowed_tags.push(String::from_str("dl"));
        allowed_tags.push(String::from_str("dt"));
        allowed_tags.push(String::from_str("dd"));
        allowed_tags.push(String::from_str("table"));
        allowed_tags.push(String::from_str("thead"));
        allowed_tags.push(String::from_str("tbody"));
        allowed_tags.push(String::from_str("tr"));
        allowed_tags.push(String::from_str("th"));
        allowed_tags.push(String::from_str("td"));
        allowed_tags.push(String::from_str("img"));
        allowed_tags.push(String::from_str("a"));
        allowed_tags.push(String::from_str("section"));
        allowed_tags.push(String::from_str("article"));
        allowed_tags.push(String::from_str("aside"));
        allowed_tags.push(String::from_str("nav"));
        WeChatStyleAdapter { inline_styles, max_content_length: 20000, allowed_tags }
    }

    /// The platform this adapter serves.
    pub fn platform(&self) -> (r: Platform)
        ensures
            r == Platform::WeChat,
    {
        Platform::WeChat
    }

    /// Removes `<script>` and `<style>` elements with their content, drops
    /// the dangerous attributes (`onclick`, `onload`, `onerror`) and inline
    /// `javascript:` occurrences, and scrubs any `<script` or `<style` text
    /// that removal left behind, so the result never contains either.
    pub fn sanitize_html(&self, html: &str) -> (r: Result<String, Error>)
        ensures
            r is Ok,
            r.unwrap()@ == spec_wechat_sanitize(html@),
    {
        let v = str_to_chars(html);
        let a = run_strip_blocks(&v, "script");
        let b = run_strip_blocks(&a, "style");
        let c = run_drop_attr(&b, "onclick");
        let d = run_drop_attr(&c, "onload");
        let e = run_drop_attr(&d, "onerror");
        let f = run_drop_literal(&e, "javascript:");
        let p1 = str_to_chars("<script");
        let p2 = str_to_chars("<style");
        proof {
            reveal_strlit("<script");
            reveal_strlit("<style");
        }
        let g = scrub_two_exec(&f, &p1, &p2);
        Ok(chars_to_string(&g))
    }

    /// Applies the style table: each opening tag with a rule gets the rule's
    /// declarations, appended after any existing quoted style value
    /// (existing first, then `; `, then the new ones) rather than replacing
    /// it, or inserted as a fresh `style` attribute.
    pub fn inline_all_styles(&self, html: &str) -> (r: Result<String, Error>)
        ensures
            r is Ok,
            r.unwrap()@ == spec_inline_all(pairs_view(self.inline_styles@), html@),
    {
        let ghost rv = pairs_view(self.inline_styles@);
        let mut cur = str_to_chars(html);
        let mut k: usize = 0;
        while k < self.inline_styles.len()
            invariant
                k <= self.inline_styles@.len(),
                rv == pairs_view(self.inline_styles@),
                inline_rules_from(rv, k as int, cur@) == inline_rules_from(rv, 0, html@),
            decreases self.inline_styles@.len() - k,
        {
            cur = run_merge_attr(
                &cur,
                self.inline_styles[k].0.as_str(),
                "style",
                "; ",
                self.inline_styles[k].1.as_str(),
                true,
            );
            k += 1;
        }
        Ok(chars_to_string(&cur))
    }

    /// Externalizes links: every anchor with an absolute (`http`-prefixed)
    /// target becomes its text plus a bracketed, 1-indexed footnote marker,
    /// and a references section listing the collected targets is appended
    /// when any were; anchors with relative targets become plain styled
    /// spans.
    pub fn convert_external_links(&self, html: &str) -> (r: Result<String, Error>)
        ensures
            r is Ok,
            r.unwrap()@ == spec_wechat_links(html@),
    {
        let s = str_to_chars(html);
        let mut out: Vec<char> = Vec::new();
        let mut fns: Vec<Vec<char>> = Vec::new();
        let mut i: usize = 0;
        proof {
            assert(lines_view(fns@) =~= Seq::<Seq<char>>::empty());
        }
        while i < s.len()
            invariant
                i <= s@.len(),
                s@ == html@,
                fns@.len() <= i,
                out@ + links_state(s@, i as int, fns@.len() as int + 1).0 == links_state(s@, 0, 1).0,
                lines_view(fns@) + links_state(s@, i as int, fns@.len() as int + 1).1 == links_state(
                    s@,
                    0,
                    1,
                ).1,
            decreases s@.len() - i,
        {
            let ghost pre_out = out@;
            let ghost pre_fns = lines_view(fns@);
            let ghost n = fns@.len() as int + 1;
            match try_anchor(&s, i) {
                Some((k, url, text)) => {
                    let http = str_to_chars("http");
                    proof {
                        reveal_strlit("http");
                    }
                    if starts_with_at(&url, 0, &http) {
                        let digits = u64_to_dec_chars((fns.len() + 1) as u64);
                        let mut marker: Vec<char> = Vec::new();
                        push_all(&mut marker, &text);
                        marker.push('[');
                        push_all(&mut marker, &digits);
                        marker.push(']');
                        let mut line: Vec<char> = Vec::new();
                        line.push('[');
                        push_all(&mut line, &digits);
                        line.push(']');
                        line.push(' ');
                        push_all(&mut line, &url);
                        push_all(&mut out, &marker);
                        fns.push(line);
                        proof {
                            let st = links_state(s@, i as int, n);
                            let rest = links_state(s@, i + k, n + 1);
                            assert(st.0 == text@ + seq!['['] + dec_str(n) + seq![']'] + rest.0);
                            assert(marker@ =~= text@ + seq!['['] + dec_str(n) + seq![']']);
                            assert(out@ =~= pre_out + marker@);
                            assert(pre_out + (marker@ + rest.0) =~= (pre_out + marker@) + rest.0);
                            assert(line@ =~= seq!['['] + dec_str(n) + seq![']', ' '] + url@);
                            assert(lines_view(fns@) =~= pre_fns + seq![line@]);
                            assert(st.1 == seq![line@] + rest.1);
                            assert(pre_fns + (seq![line@] + rest.1) =~= (pre_fns + seq![line@])
                                + rest.1);
                        }
                        i += k;
                    } else {
                        let so = str_to_chars(
                            "<span style=\"color: #3498db; text-decoration: underline;\">",
                        );
                        let sc = str_to_chars("</span>");
                        push_all(&mut out, &so);
                        push_all(&mut out, &text);
                        push_all(&mut out, &sc);
                        proof {
                            let st = links_state(s@, i as int, n);
                            let rest = links_state(s@, i + k, n);
                            assert(st.0 == span_open() + text@ + span_close() + rest.0);
                            assert(st.1 == rest.1);
                            assert(out@ =~= pre_out + (span_open() + text@ + span_close()));
                            assert(pre_out + ((span_open() + text@ + span_close()) + rest.0)
                                =~= (pre_out + (span_open() + text@ + span_close())) + rest.0);
                        }
                        i += k;
                    }
                },
                None => {
                    proof {
                        let st = links_state(s@, i as int, n);
                        let rest = links_state(s@, i + 1, n);
                        assert(st.0 == seq![s@[i as int]] + rest.0);
                        assert(st.1 == rest.1);
                        assert((pre_out + seq![s@[i as int]]) + rest.0 =~= pre_out + (seq![
                            s@[i as int],
                        ] + rest.0));
                        assert(pre_out.push(s@[i as int]) =~= pre_out + seq![s@[i as int]]);
                    }
                    out.push(s[i]);
                    i += 1;
                },
            }
        }
        proof {
            assert(out@ + Seq::<char>::empty() =~= out@);
            assert(lines_view(fns@) + Seq::<Seq<char>>::empty() =~= lines_view(fns@));
        }
        if fns.len() == 0 {
            Ok(chars_to_string(&out))
        } else {
            let head = str_to_chars(
                "\n                <hr style=\"margin: 30px 0; border: none; border-top: 1px solid #ddd;\">\n                <h4 style=\"font-size: 14px; color: #666; margin-bottom: 10px;\">参考链接：</h4>\n                <div style=\"font-size: 12px; color: #666; line-height: 1.8;\">\n                    ",
            );
            let tail = str_to_chars("\n                </div>\n                ");
            let sep = str_to_chars("<br>");
            let joined = join_chars_from(&fns, 0, &sep);
            push_all(&mut out, &head);
            push_all(&mut out, &joined);
            push_all(&mut out, &tail);
            Ok(chars_to_string(&out))
        }
    }

    /// The mobile pass: every `<table>` receives the responsive style
    /// unconditionally; every `<img>` without a style attribute receives
    /// one.
    pub fn optimize_for_mobile(&self, html: &str) -> (r: Result<String, Error>)
        ensures
            r is Ok,
            r.unwrap()@ == spec_wechat_mobile(html@),
    {
        let v = str_to_chars(html);
        let a = run_add_attr(
            &v,
            "table",
            " style=\"width: 100%; border-collapse: collapse; margin: 20px 0; font-size: 14px; overflow-x: auto;\"",
        );
        let b = run_add_attr_if_absent(
            &a,
            "img",
            "style=",
            " style=\"max-width: 100%; height: auto; display: block; margin: 20px auto;\"",
        );
        Ok(chars_to_string(&b))
    }

    /// The full adaptation pipeline, in order: sanitize, inline the style
    /// table, externalize links, optimize for mobile. Total over arbitrary
    /// HTML input.
    pub fn adapt_html(&self, html: &str) -> (r: Result<String, Error>)
        ensures
            r is Ok,
            r.unwrap()@ == spec_wechat_adapt(pairs_view(self.inline_styles@), html@),
    {
        let sanitized = match self.sanitize_html(html) {
            Ok(x) => x,
            Err(e) => {
                return Err(e);
            },
        };
        let styled = match self.inline_all_styles(sanitized.as_str()) {
            Ok(x) => x,
            Err(e) => {
                return Err(e);
            },
        };
        let with_footnotes = match self.convert_external_links(styled.as_str()) {
            Ok(x) => x,
            Err(e) => {
                return Err(e);
            },
        };
        let optimized = match self.optimize_for_mobile(with_footnotes.as_str()) {
            Ok(x) => x,
            Err(e) => {
                return Err(e);
            },
        };
        Ok(optimized)
    }

    /// Validates content against the platform's rules: a source text over
    /// the ceiling, an empty title, or a title over 64 characters each block
    /// publishing; a cover image that is neither `http`-prefixed nor a data
    /// URI is only warned about. The call fails exactly when a blocking
    /// violation exists, with the blocking messages joined into one
    /// `Error::Publishing`.
    pub fn validate_content(&self, content: &Content) -> (r: Result<(), Error>)
        ensures
            r is Err <==> (content.markdown@.len() > self.max_content_length || content.title@.len()
                == 0 || content.title@.len() > 64),
            match r {
                Ok(()) => true,
                Err(e) => e matches Error::Publishing(m) && m@ == "微信公众号内容验证失败: "@
                    + join_with(
                    wechat_error_lines(
                        content.markdown@.len() as int,
                        self.max_content_length as int,
                        content.title@.len() as int,
                    ),
                    "; "@,
                ),
            },
    {
        let md_len = content.markdown.as_str().unicode_len();
        let t_len = content.title.as_str().unicode_len();
        let mut errors: Vec<ValidationError> = Vec::new();
        let ghost e0 = errors@;
        if md_len > self.max_content_length {
            let mut msg: Vec<char> = str_to_chars("内容长度超过限制（当前：");
            let cur = u64_to_dec_chars(md_len as u64);
            push_all(&mut msg, &cur);
            let mid = str_to_chars("，限制：");
            push_all(&mut msg, &mid);
            let lim = u64_to_dec_chars(self.max_content_length as u64);
            push_all(&mut msg, &lim);
            let close = str_to_chars("）");
            push_all(&mut msg, &close);
            errors.push(
                ValidationError {
                    field: String::from_str("content"),
                    message: chars_to_string(&msg),
                    severity: ValidationSeverity::Error,
                },
            );
        }
        let ghost e1 = errors@;
        if t_len == 0 {
            errors.push(
                ValidationError {
                    field: String::from_str("title"),
                    message: String::from_str("标题不能为空"),
                    severity: ValidationSeverity::Error,
                },
            );
        }
        let ghost e2 = errors@;
        if t_len > 64 {
            errors.push(
                ValidationError {
                    field: String::from_str("title"),
                    message: String::from_str("标题长度不能超过64个字符"),
                    severity: ValidationSeverity::Error,
                },
            );
        }
        let ghost e3 = errors@;
        match &content.metadata.cover_image {
            Some(cover) => {
                let cv = str_to_chars(cover.as_str());
                let hp = str_to_chars("http");
                let dp = str_to_chars("data:");
                if !starts_with_at(&cv, 0, &hp) && !starts_with_at(&cv, 0, &dp) {
                    errors.push(
                        ValidationError {
                            field: String::from_str("cover_image"),
                            message: String::from_str("封面图片必须是有效的URL或base64数据"),
                            severity: ValidationSeverity::Warning,
                        },
                    );
                }
            },
            None => {},
        }
        proof {
            lemma_validation_lines(
                e0,
                e1,
                e2,
                e3,
                errors@,
                content.markdown@.len() as int,
                self.max_content_length as int,
                content.title@.len() as int,
            );
        }
        let lines = collect_error_lines(&errors);
        proof {
            let wl = wechat_error_lines(
                content.markdown@.len() as int,
                self.max_content_length as int,
                content.title@.len() as int,
            );
            assert(lines_view(lines@) == wl);
            assert(lines_view(lines@).len() == lines@.len());
            if content.markdown@.len() > self.max_content_length || content.title@.len() == 0
                || content.title@.len() > 64 {
                assert(wl.len() > 0);
            } else {
                assert(wl =~= Seq::<Seq<char>>::empty());
            }
        }
        if lines.len() > 0 {
            let sep = str_to_chars("; ");
            let joined = join_chars_from(&lines, 0, &sep);
            let mut m = str_to_chars("微信公众号内容验证失败: ");
            push_all(&mut m, &joined);
            Err(Error::Publishing(chars_to_string(&m)))
        } else {
            Ok(())
        }
    }

    /// The platform's image preprocessing hook; in this core it passes the
    /// text through unchanged.
    pub fn preprocess_images(&self, html: &str) -> (r: Result<String, Error>)
        ensures
            r is Ok,
            r.unwrap()@ == html@,
    {
        Ok(String::from_str(html))
    }
}

/// Relates the step-by-step construction of the validation list to
/// `wechat_error_lines`: the blocking lines are exactly the length line,
/// the empty-title line and the long-title line, in that order, and the
/// cover warning contributes nothing.
proof fn lemma_validation_lines(
    e0: Seq<ValidationError>,
    e1: Seq<ValidationError>,
    e2: Seq<ValidationError>,
    e3: Seq<ValidationError>,
    efinal: Seq<ValidationError>,
    mdlen: int,
    maxlen: int,
    tlen: int,
)
    requires
        e0 == Seq::<ValidationError>::empty(),
        if mdlen > maxlen {
            e1.len() == 1 && e1 == e0.push(e1.last()) && e1.last().severity is Error
                && e1.last().field@ == "content"@ && e1.last().message@
                == "内容长度超过限制（当前："@ + dec_str(mdlen) + "，限制："@ + dec_str(maxlen)
                + "）"@
        } else {
            e1 == e0
        },
        if tlen == 0 {
            e2 == e1.push(e2.last()) && e2.len() == e1.len() + 1 && e2.last().severity is Error
                && e2.last().field@ == "title"@ && e2.last().message@ == "标题不能为空"@
        } else {
            e2 == e1
        },
        if tlen > 64 {
            e3 == e2.push(e3.last()) && e3.len() == e2.len() + 1 && e3.last().severity is Error
                && e3.last().field@ == "title"@ && e3.last().message@
                == "标题长度不能超过64个字符"@
        } else {
            e3 == e2
        },
        efinal == e3 || (efinal == e3.push(efinal.last()) && efinal.last().severity is Warning),
    ensures
        err_lines(efinal) == wechat_error_lines(mdlen, maxlen, tlen),
{
    let l1: Seq<ValidationError> = if mdlen > maxlen {
        seq![e1.last()]
    } else {
        Seq::empty()
    };
    let l2: Seq<ValidationError> = if tlen == 0 {
        seq![e2.last()]
    } else {
        Seq::empty()
    };
    let l3: Seq<ValidationError> = if tlen > 64 {
        seq![e3.last()]
    } else {
        Seq::empty()
    };
    let l4: Seq<ValidationError> = if efinal == e3 {
        Seq::empty()
    } else {
        seq![efinal.last()]
    };
    assert(e1 =~= e0 + l1);
    assert(e2 =~= e1 + l2);
    assert(e3 =~= e2 + l3);
    assert(efinal =~= e3 + l4);
    lemma_err_lines_append(e3, l4);
    lemma_err_lines_append(e2, l3);
    lemma_err_lines_append(e1, l2);
    lemma_err_lines_append(e0, l1);
    assert(err_lines(e0) == Seq::<Seq<char>>::empty());
    lemma_err_lines_single(l1);
    lemma_err_lines_single(l2);
    lemma_err_lines_single(l3);
    lemma_err_lines_single(l4);
    assert(err_lines(efinal) =~= wechat_error_lines(mdlen, maxlen, tlen));
}

/// The blocking lines of a list of at most one finding: the finding's line
/// when it blocks, nothing otherwise.
proof fn lemma_err_lines_single(l: Seq<ValidationError>)
    requires
        l.len() <= 1,
    ensures
        l.len() == 0 ==> err_lines(l) == Seq::<Seq<char>>::empty(),
        l.len() == 1 && l[0].severity is Error ==> err_lines(l) == seq![
            l[0].field@ + ": "@ + l[0].message@,
        ],
        l.len() == 1 && !(l[0].severity is Error) ==> err_lines(l) == Seq::<Seq<char>>::empty(),
{
    if l.len() == 1 {
        assert(l.drop_first() =~= Seq::<ValidationError>::empty());
        assert(err_lines(l.drop_first()) == Seq::<Seq<char>>::empty());
        if l[0].severity is Error {
            assert(err_lines(l) == seq![l[0].field@ + ": "@ + l[0].message@] + err_lines(
                l.drop_first(),
            ));
            assert(err_lines(l) =~= seq![l[0].field@ + ": "@ + l[0].message@]);
        } else {
            assert(err_lines(l) == Seq::<Seq<char>>::empty() + err_lines(l.drop_first()));
            assert(err_lines(l) =~= Seq::<Seq<char>>::empty());
        }
    }
}

impl Default for WeChatStyleAdapter {
    /// The same adapter `new` builds.
    fn default() -> (r: Self)
        ensures
            pairs_view(r.inline_styles@) == wechat_rules(),
            r.max_content_length == 20000,
    {
        WeChatStyleAdapter::new()
    }
}

impl StyleProvider for WeChatStyleAdapter {
    fn get_styles(&self) -> &'static str {
        "\n        body { font-family: -apple-system, BlinkMacSystemFont, 'Segoe UI', Roboto, 'Helvetica Neue', Arial, sans-serif; color: #333; line-height: 1.6; margin: 0; padding: 20px; }\n        p { font-size: 16px; line-height: 1.8; margin: 20px 0; color: #333; text-align: justify; }\n        h1 { font-size: 24px; font-weight: bold; text-align: center; margin: 30px 0 20px 0; color: #2c3e50; border-bottom: 2px solid #3498db; padding-bottom: 10px; }\n        h2 { font-size: 20px; font-weight: bold; margin: 25px 0 15px 0; color: #2c3e50; border-left: 4px solid #3498db; padding-left: 15px; }\n        "
    }

    fn apply_inline_styles(&self, html: &str) -> Result<String, Error> {
        self.inline_all_styles(html)
    }
}

/// Evaluates `anchor_match` at position `i`.
fn try_anchor(s: &Vec<char>, i: usize) -> (r: Option<(usize, Vec<char>, Vec<char>)>)
    requires
        i < s@.len(),
    ensures
        match (r, anchor_match(s@, i as int)) {
            (Some(rk), Some(sk)) => rk.0 as int == sk.0 && rk.1@ == sk.1 && rk.2@ == sk.2 && 1
                <= rk.0 && i + rk.0 <= s@.len(),
            (None, None) => true,
            _ => false,
        },
{
    let n = s.len();
    let opener = str_to_chars("<a");
    proof {
        reveal_strlit("<a");
    }
    if !(starts_with_at(s, i, &opener) && i + 2 < n && crate::text::is_space(s[i + 2])) {
        return None;
    }
    let href = str_to_chars("href=\"");
    proof {
        reveal_strlit("href=\"");
    }
    let gt: Vec<char> = vec!['>'];
    proof {
        assert(gt@ =~= seq!['>']);
    }
    let h = match find_pat_from(s, i + 3, &href) {
        Some(h) => h,
        None => {
            return None;
        },
    };
    proof {
        lemma_find_from_spec(s@, i + 3, href@);
    }
    match find_pat_from(s, i + 3, &gt) {
        Some(g0) => {
            if h >= g0 {
                return None;
            }
        },
        None => {},
    }
    let quote: Vec<char> = vec!['"'];
    proof {
        assert(quote@ =~= seq!['"']);
    }
    let q = match find_pat_from(s, h + 6, &quote) {
        Some(q) => q,
        None => {
            return None;
        },
    };
    proof {
        lemma_find_from_spec(s@, h + 6, quote@);
    }
    let g = match find_pat_from(s, q + 1, &gt) {
        Some(g) => g,
        None => {
            return None;
        },
    };
    proof {
        lemma_find_from_spec(s@, q + 1, gt@);
    }
    let lt: Vec<char> = vec!['<'];
    proof {
        assert(lt@ =~= seq!['<']);
    }
    let m = match find_pat_from(s, g + 1, &lt) {
        Some(m) => m,
        None => {
            return None;
        },
    };
    proof {
        lemma_find_from_spec(s@, g + 1, lt@);
    }
    let closer = str_to_chars("</a>");
    proof {
        reveal_strlit("</a>");
    }
    if !starts_with_at(s, m, &closer) {
        return None;
    }
    let mut url: Vec<char> = Vec::new();
    push_range(&mut url, s, h + 6, q);
    proof {
        assert(url@ =~= s@.subrange(h + 6, q as int));
    }
    let mut text: Vec<char> = Vec::new();
    push_range(&mut text, s, g + 1, m);
    proof {
        assert(text@ =~= s@.subrange(g + 1, m as int));
    }
    Some((m + 4 - i, url, text))
}

/// The sanitize pass leaves no `<script` and no `<style` anywhere in its
/// result, whatever the input.
pub proof fn lemma_wechat_sanitize_clean(h: Seq<char>)
    ensures
        !contains_sub(spec_wechat_sanitize(h), "<script"@),
        !contains_sub(spec_wechat_sanitize(h), "<style"@),
{
    reveal_strlit("<script");
    reveal_strlit("<style");
    let f = drop_literal(
        drop_attr(drop_attr(drop_attr(strip_blocks(strip_blocks(h, "script"@), "style"@), "onclick"@), "onload"@), "onerror"@),
        "javascript:"@,
    );
    lemma_scrub_two_clean(f, "<script"@, "<style"@);
}


/// A match anywhere gives an occurrence.
proof fn lemma_match_gives_contains(s: Seq<char>, i: int, pat: Seq<char>)
    requires
        matches_at(s, i, pat),
    ensures
        contains_sub(s, pat),
{
    lemma_find_from_spec(s, 0, pat);
    if find_from(s, 0, pat) is None {
        assert(!matches_at(s, i, pat));
    }
}


/// No character of `s[i..]` is an angle bracket.
pub open spec fn no_angle_from(s: Seq<char>, i: int) -> bool
    decreases s.len() - i,
{
    if i < 0 || i >= s.len() {
        true
    } else {
        s[i] != '>' && s[i] != '<' && no_angle_from(s, i + 1)
    }
}

/// Spells `no_angle_from` out as a quantified fact.
proof fn lemma_no_angle_forall(s: Seq<char>, i: int)
    requires
        0 <= i,
        no_angle_from(s, i),
    ensures
        forall|k: int| i <= k < s.len() ==> s[k] != '>' && s[k] != '<',
    decreases s.len() - i,
{
    if 0 <= i < s.len() {
        lemma_no_angle_forall(s, i + 1);
    }
}

/// The responsive image style holds no angle bracket, is 74 characters
/// long, and carries `style=` right after its leading space.
proof fn lemma_img_ins_clean()
    ensures
        forall|k: int|
            0 <= k < img_style_ins().len() ==> img_style_ins()[k] != '>' && img_style_ins()[k]
                != '<',
        img_style_ins().len() == 74,
        img_style_ins().subrange(1, 7) == "style="@,
{
    reveal_strlit(" style=\"max-width: 100%; height: auto; display: block; margin: 20px auto;\"");
    reveal_strlit("style=");
    assert(no_angle_from(img_style_ins(), 74));
    assert(no_angle_from(img_style_ins(), 73));
    assert(no_angle_from(img_style_ins(), 72));
    assert(no_angle_from(img_style_ins(), 71));
    assert(no_angle_from(img_style_ins(), 70));
    assert(no_angle_from(img_style_ins(), 69));
    assert(no_angle_from(img_style_ins(), 68));
    assert(no_angle_from(img_style_ins(), 67));
    assert(no_angle_from(img_style_ins(), 66));
    assert(no_angle_from(img_style_ins(), 65));
    assert(no_angle_from(img_style_ins(), 64));
    assert(no_angle_from(img_style_ins(), 63));
    assert(no_angle_from(img_style_ins(), 62));
    assert(no_angle_from(img_style_ins(), 61));
    assert(no_angle_from(img_style_ins(), 60));
    assert(no_angle_from(img_style_ins(), 59));
    assert(no_angle_from(img_style_ins(), 58));
    assert(no_angle_from(img_style_ins(), 57));
    assert(no_angle_from(img_style_ins(), 56));
    assert(no_angle_from(img_style_ins(), 55));
    assert(no_angle_from(img_style_ins(), 54));
    assert(no_angle_from(img_style_ins(), 53));
    assert(no_angle_from(img_style_ins(), 52));
    assert(no_angle_from(img_style_ins(), 51));
    assert(no_angle_from(img_style_ins(), 50));
    assert(no_angle_from(img_style_ins(), 49));
    assert(no_angle_from(img_style_ins(), 48));
    assert(no_angle_from(img_style_ins(), 47));
    assert(no_angle_from(img_style_ins(), 46));
    assert(no_angle_from(img_style_ins(), 45));
    assert(no_angle_from(img_style_ins(), 44));
    assert(no_angle_from(img_style_ins(), 43));
    assert(no_angle_from(img_style_ins(), 42));
    assert(no_angle_from(img_style_ins(), 41));
    assert(no_angle_from(img_style_ins(), 40));
    assert(no_angle_from(img_style_ins(), 39));
    assert(no_angle_from(img_style_ins(), 38));
    assert(no_angle_from(img_style_ins(), 37));
    assert(no_angle_from(img_style_ins(), 36));
    assert(no_angle_from(img_style_ins(), 35));
    assert(no_angle_from(img_style_ins(), 34));
    assert(no_angle_from(img_style_ins(), 33));
    assert(no_angle_from(img_style_ins(), 32));
    assert(no_angle_from(img_style_ins(), 31));
    assert(no_angle_from(img_style_ins(), 30));
    assert(no_angle_from(img_style_ins(), 29));
    assert(no_angle_from(img_style_ins(), 28));
    assert(no_angle_from(img_style_ins(), 27));
    assert(no_angle_from(img_style_ins(), 26));
    assert(no_angle_from(img_style_ins(), 25));
    assert(no_angle_from(img_style_ins(), 24));
    assert(no_angle_from(img_style_ins(), 23));
    assert(no_angle_from(img_style_ins(), 22));
    assert(no_angle_from(img_style_ins(), 21));
    assert(no_angle_from(img_style_ins(), 20));
    assert(no_angle_from(img_style_ins(), 19));
    assert(no_angle_from(img_style_ins(), 18));
    assert(no_angle_from(img_style_ins(), 17));
    assert(no_angle_from(img_style_ins(), 16));
    assert(no_angle_from(img_style_ins(), 15));
    assert(no_angle_from(img_style_ins(), 14));
    assert(no_angle_from(img_style_ins(), 13));
    assert(no_angle_from(img_style_ins(), 12));
    assert(no_angle_from(img_style_ins(), 11));
    assert(no_angle_from(img_style_ins(), 10));
    assert(no_angle_from(img_style_ins(), 9));
    assert(no_angle_from(img_style_ins(), 8));
    assert(no_angle_from(img_style_ins(), 7));
    assert(no_angle_from(img_style_ins(), 6));
    assert(no_angle_from(img_style_ins(), 5));
    assert(no_angle_from(img_style_ins(), 4));
    assert(no_angle_from(img_style_ins(), 3));
    assert(no_angle_from(img_style_ins(), 2));
    assert(no_angle_from(img_style_ins(), 1));
    assert(no_angle_from(img_style_ins(), 0));
    lemma_no_angle_forall(img_style_ins(), 0);
    assert(img_style_ins().subrange(1, 7) =~= "style="@);
}

/// The image pass of the mobile step, as a match function.
pub open spec fn img_m() -> spec_fn(Seq<char>, int) -> Option<(int, Seq<char>)> {
    crate::rewrite::pass_m(
        crate::rewrite::PassKind::InsertAttrIfAbsent,
        "img"@,
        "style="@,
        Seq::empty(),
        img_style_ins(),
        false,
    )
}

/// Every image tag of `s[i..]`, as a left-to-right scan sees it, carries a
/// style attribute: wherever an `<img ...>` opening tag matches, its
/// attribute text contains `style=`, and scanning continues after the tag.
pub open spec fn all_imgs_styled_from(s: Seq<char>, i: int) -> bool
    decreases s.len() - i,
    via all_imgs_styled_decreases
{
    if i < 0 || i >= s.len() {
        true
    } else {
        match crate::rewrite::open_tag_gt(s, i, "img"@, false) {
            Some(g) => contains_sub(s.subrange(i + 1 + "img"@.len(), g), "style="@)
                && all_imgs_styled_from(s, g + 1),
            None => all_imgs_styled_from(s, i + 1),
        }
    }
}

#[via_fn]
proof fn all_imgs_styled_decreases(s: Seq<char>, i: int) {
    let open = seq!['<'] + "img"@;
    if 0 <= i < s.len() && matches_at(s, i, open) {
        lemma_find_from_spec(s, i + open.len(), seq!['>']);
    }
}

/// Every image tag of `s` carries a style attribute, in the sense of
/// `all_imgs_styled_from`.
pub open spec fn all_imgs_styled(s: Seq<char>) -> bool {
    all_imgs_styled_from(s, 0)
}

/// The first occurrence of `pat` at or after `from` is exactly `m` when `m`
/// matches and nothing before it does.
proof fn lemma_find_exact(s: Seq<char>, from: int, pat: Seq<char>, m: int)
    requires
        0 <= from <= m,
        matches_at(s, m, pat),
        forall|k: int| from <= k < m ==> !matches_at(s, k, pat),
    ensures
        find_from(s, from, pat) == Some(m),
{
    lemma_find_from_spec(s, from, pat);
    match find_from(s, from, pat) {
        Some(j) => {
            if j < m {
                assert(!matches_at(s, j, pat));
            }
            if j > m {
                assert(!matches_at(s, m, pat));
            }
        },
        None => {
            assert(!matches_at(s, m, pat));
        },
    }
}

/// Searching a concatenation at or beyond the first part sees exactly the
/// second part.
proof fn lemma_find_shift(a: Seq<char>, b: Seq<char>, j: int, pat: Seq<char>)
    requires
        0 <= j,
    ensures
        find_from(a + b, a.len() + j, pat) == match find_from(b, j, pat) {
            Some(x) => Some(a.len() + x),
            None => None::<int>,
        },
    decreases b.len() - j + 1,
{
    let s = a + b;
    if j + pat.len() > b.len() {
        assert(a.len() + j + pat.len() > s.len());
    } else {
        assert(matches_at(s, a.len() + j, pat) == matches_at(b, j, pat)) by {
            assert(s.subrange(a.len() + j, a.len() + j + pat.len()) =~= b.subrange(
                j,
                j + pat.len(),
            ));
        }
        if matches_at(b, j, pat) {
        } else {
            lemma_find_shift(a, b, j + 1, pat);
        }
    }
}

/// Scanning a concatenation for styled image tags at or beyond the first
/// part sees exactly the second part.
proof fn lemma_styled_shift(a: Seq<char>, b: Seq<char>, j: int)
    requires
        0 <= j,
    ensures
        all_imgs_styled_from(a + b, a.len() + j) == all_imgs_styled_from(b, j),
    decreases b.len() - j + 1,
{
    let s = a + b;
    let open = seq!['<'] + "img"@;
    if j >= b.len() {
        assert(a.len() + j >= s.len());
    } else {
        assert(matches_at(s, a.len() + j, open) == matches_at(b, j, open)) by {
            if j + open.len() <= b.len() {
                assert(s.subrange(a.len() + j, a.len() + j + open.len()) =~= b.subrange(
                    j,
                    j + open.len(),
                ));
            }
        }
        if matches_at(b, j, open) {
            lemma_find_shift(a, b, j + open.len(), seq!['>']);
            match find_from(b, j + open.len(), seq!['>']) {
                Some(g) => {
                    lemma_find_from_spec(b, j + open.len(), seq!['>']);
                    assert(s.subrange(a.len() + j + 1 + "img"@.len(), a.len() + g) =~= b.subrange(
                        j + 1 + "img"@.len(),
                        g,
                    ));
                    lemma_styled_shift(a, b, g + 1);
                },
                None => {
                    lemma_styled_shift(a, b, j + 1);
                },
            }
        } else {
            lemma_styled_shift(a, b, j + 1);
        }
    }
}

/// Where no closing bracket follows, the image pass copies the text
/// unchanged.
proof fn lemma_scan_no_gt_id(s: Seq<char>, p: int)
    requires
        0 <= p <= s.len(),
        forall|k: int| p <= k < s.len() ==> s[k] != '>',
    ensures
        crate::rewrite::scan_from(s, p, img_m()) == s.skip(p),
    decreases s.len() - p,
{
    let m = img_m();
    if p >= s.len() {
        assert(s.skip(p) =~= Seq::<char>::empty());
    } else {
        assert(m(s, p) == crate::rewrite::insert_if_absent_match(
            s,
            p,
            "img"@,
            "style="@,
            img_style_ins(),
        ));
        let open = seq!['<'] + "img"@;
        if matches_at(s, p, open) {
            lemma_find_from_spec(s, p + open.len(), seq!['>']);
            if let Some(g) = find_from(s, p + open.len(), seq!['>']) {
                assert(matches_at(s, g, seq!['>']));
                assert(s.subrange(g, g + 1)[0] == '>');
                assert(false);
            }
        }
        lemma_scan_no_gt_id(s, p + 1);
        assert(crate::rewrite::scan_from(s, p, m) == seq![s[p]] + s.skip(p + 1));
        assert(seq![s[p]] + s.skip(p + 1) =~= s.skip(p));
    }
}

/// Where no closing bracket follows, there is no image tag at all, so the
/// styling property holds vacuously.
proof fn lemma_styled_no_gt(s: Seq<char>, j: int)
    requires
        0 <= j,
        forall|k: int| j <= k < s.len() ==> s[k] != '>',
    ensures
        all_imgs_styled_from(s, j),
    decreases s.len() - j,
{
    if j < s.len() {
        let open = seq!['<'] + "img"@;
        if matches_at(s, j, open) {
            lemma_find_from_spec(s, j + open.len(), seq!['>']);
            if let Some(g) = find_from(s, j + open.len(), seq!['>']) {
                assert(matches_at(s, g, seq!['>']));
                assert(s.subrange(g, g + 1)[0] == '>');
                assert(false);
            }
        }
        lemma_styled_no_gt(s, j + 1);
    }
}

/// The first character the image pass emits for a non-empty rest is the
/// character it stands on.
proof fn lemma_scan_head(s: Seq<char>, p: int)
    requires
        0 <= p < s.len(),
    ensures
        crate::rewrite::scan_from(s, p, img_m()).len() > 0,
        crate::rewrite::scan_from(s, p, img_m())[0] == s[p],
    decreases s.len() - p,
{
    let m = img_m();
    assert(m(s, p) == crate::rewrite::insert_if_absent_match(
        s,
        p,
        "img"@,
        "style="@,
        img_style_ins(),
    ));
    let open = seq!['<'] + "img"@;
    match crate::rewrite::insert_if_absent_match(s, p, "img"@, "style="@, img_style_ins()) {
        Some(kr) => {
            let g = crate::rewrite::open_tag_gt(s, p, "img"@, false).unwrap();
            lemma_find_from_spec(s, p + open.len(), seq!['>']);
            assert(matches_at(s, g, seq!['>']));
            assert(1 <= kr.0 && p + kr.0 <= s.len());
            assert(kr.1[0] == s[p]) by {
                let attrs = s.subrange(p + 1 + "img"@.len(), g);
                if contains_sub(attrs, "style="@) {
                    assert(kr.1 == s.subrange(p, g + 1));
                } else {
                    assert(kr.1 == s.subrange(p, g) + img_style_ins() + seq!['>']);
                    assert((s.subrange(p, g) + img_style_ins() + seq!['>'])[0] == s.subrange(
                        p,
                        g,
                    )[0]);
                }
            }
            assert(crate::rewrite::scan_from(s, p, m) == kr.1 + crate::rewrite::scan_from(
                s,
                p + kr.0,
                m,
            ));
        },
        None => {
            assert(crate::rewrite::scan_from(s, p, m) == seq![s[p]]
                + crate::rewrite::scan_from(s, p + 1, m));
        },
    }
}

/// Whatever text the image pass is given, every image tag of its output
/// carries a style attribute.
#[verifier::rlimit(100)]
#[verifier::spinoff_prover]
proof fn lemma_img_scan_styled(s: Seq<char>, i: int)
    requires
        0 <= i,
    ensures
        all_imgs_styled(crate::rewrite::scan_from(s, i, img_m())),
    decreases s.len() - i,
{
    let m = img_m();
    let open = seq!['<'] + "img"@;
    reveal_strlit("img");
    lemma_img_ins_clean();
    let ins = img_style_ins();
    if i >= s.len() {
        assert(crate::rewrite::scan_from(s, i, m) == Seq::<char>::empty());
    } else {
        assert(m(s, i) == crate::rewrite::insert_if_absent_match(
            s,
            i,
            "img"@,
            "style="@,
            ins,
        ));
        match crate::rewrite::insert_if_absent_match(s, i, "img"@, "style="@, ins) {
            None => {
                lemma_img_scan_styled(s, i + 1);
                let rest = crate::rewrite::scan_from(s, i + 1, m);
                let out = seq![s[i]] + rest;
                assert(crate::rewrite::scan_from(s, i, m) == out);
                if s[i] != '<' {
                    assert(crate::rewrite::open_tag_gt(out, 0, "img"@, false) is None) by {
                        if matches_at(out, 0, open) {
                            assert(out.subrange(0, open.len() as int)[0] == '<');
                        }
                    }
                    lemma_styled_shift(seq![s[i]], rest, 0);
                    assert(all_imgs_styled_from(out, 1));
                } else if matches_at(s, i, open) {
                    // The tag opened but no `>` follows anywhere: the match
                    // function returned nothing for that reason.
                    lemma_find_from_spec(s, i + open.len(), seq!['>']);
                    assert(find_from(s, i + open.len(), seq!['>']) is None);
                    assert forall|k: int| i + 1 <= k < s.len() implies s[k] != '>' by {
                        if k < i + open.len() {
                            assert(s.subrange(i, i + open.len())[k - i] == open[k - i]);
                        } else {
                            if s[k] == '>' {
                                assert(s.subrange(k, k + 1) =~= seq!['>']);
                                assert(matches_at(s, k, seq!['>']));
                            }
                        }
                    }
                    lemma_scan_no_gt_id(s, i + 1);
                    assert(out =~= s.skip(i));
                    assert forall|k: int| 0 <= k < out.len() implies out[k] != '>' by {
                        assert(out[k] == s[i + k]);
                        if k == 0 {
                        }
                    }
                    lemma_styled_no_gt(out, 0);
                } else {
                    // The text does not open an image tag here; neither does
                    // the output.
                    assert(!matches_at(out, 0, open)) by {
                        if matches_at(out, 0, open) {
                            assert(out.len() >= 4);
                            assert(out[0] == open[0] && out[1] == open[1] && out[2] == open[2]
                                && out[3] == open[3]) by {
                                assert(out.subrange(0, 4)[0] == open[0]);
                                assert(out.subrange(0, 4)[1] == open[1]);
                                assert(out.subrange(0, 4)[2] == open[2]);
                                assert(out.subrange(0, 4)[3] == open[3]);
                            }
                            assert(rest.len() >= 3);
                            assert(i + 1 < s.len());
                            lemma_scan_head(s, i + 1);
                            assert(s[i + 1] == open[1]);
                            assert(m(s, i + 1) is None) by {
                                if crate::rewrite::insert_if_absent_match(
                                    s,
                                    i + 1,
                                    "img"@,
                                    "style="@,
                                    ins,
                                ) is Some {
                                    assert(matches_at(s, i + 1, open));
                                    assert(s.subrange(i + 1, i + 1 + open.len())[0] == '<');
                                }
                            }
                            let rest2 = crate::rewrite::scan_from(s, i + 2, m);
                            assert(rest == seq![s[i + 1]] + rest2);
                            assert(rest2.len() >= 2);
                            assert(i + 2 < s.len());
                            lemma_scan_head(s, i + 2);
                            assert(s[i + 2] == open[2]);
                            assert(m(s, i + 2) is None) by {
                                if crate::rewrite::insert_if_absent_match(
                                    s,
                                    i + 2,
                                    "img"@,
                                    "style="@,
                                    ins,
                                ) is Some {
                                    assert(matches_at(s, i + 2, open));
                                    assert(s.subrange(i + 2, i + 2 + open.len())[0] == '<');
                                }
                            }
                            let rest3 = crate::rewrite::scan_from(s, i + 3, m);
                            assert(rest2 == seq![s[i + 2]] + rest3);
                            assert(rest3.len() >= 1);
                            assert(i + 3 < s.len());
                            lemma_scan_head(s, i + 3);
                            assert(s[i + 3] == open[3]);
                            assert(matches_at(s, i, open)) by {
                                assert(s.subrange(i, i + open.len()) =~= open);
                            }
                        }
                    }
                    assert(crate::rewrite::open_tag_gt(out, 0, "img"@, false) is None);
                    lemma_styled_shift(seq![s[i]], rest, 0);
                    assert(all_imgs_styled_from(out, 1));
                }
            },
            Some(kr) => {
                let g = crate::rewrite::open_tag_gt(s, i, "img"@, false).unwrap();
                lemma_find_from_spec(s, i + open.len(), seq!['>']);
                assert(matches_at(s, g, seq!['>']));
                assert(s.subrange(g, g + 1)[0] == '>');
                assert(1 <= kr.0 && i + kr.0 <= s.len());
                assert(kr.0 == g + 1 - i);
                lemma_img_scan_styled(s, i + kr.0);
                let rest = crate::rewrite::scan_from(s, i + kr.0, m);
                let rep = kr.1;
                let out = rep + rest;
                assert(crate::rewrite::scan_from(s, i, m) == out);
                let attrs = s.subrange(i + 1 + "img"@.len(), g);
                assert forall|t: int| i + open.len() <= t < g implies s[t] != '>' by {
                    if s[t] == '>' {
                        assert(s.subrange(t, t + 1) =~= seq!['>']);
                        assert(matches_at(s, t, seq!['>']));
                    }
                }
                if contains_sub(attrs, "style="@) {
                    assert(rep == s.subrange(i, g + 1));
                    assert(matches_at(out, 0, open)) by {
                        assert(out.subrange(0, open.len() as int) =~= s.subrange(i, i + open.len()));
                    }
                    assert(matches_at(out, g - i, seq!['>'])) by {
                        assert(out.subrange(g - i, g - i + 1) =~= seq!['>']);
                    }
                    assert forall|t: int| 4 <= t < g - i implies !matches_at(
                        out,
                        t,
                        seq!['>'],
                    ) by {
                        assert(out[t] == s[i + t]);
                        if matches_at(out, t, seq!['>']) {
                            assert(out.subrange(t, t + 1)[0] == '>');
                        }
                    }
                    lemma_find_exact(out, 4, seq!['>'], g - i);
                    assert(crate::rewrite::open_tag_gt(out, 0, "img"@, false) == Some(g - i));
                    assert(out.subrange(0 + 1 + "img"@.len() as int, g - i) =~= attrs);
                    lemma_styled_shift(rep, rest, 0);
                    assert(all_imgs_styled_from(out, rep.len() as int));
                    assert(all_imgs_styled_from(out, g - i + 1));
                } else {
                    assert(rep == s.subrange(i, g) + ins + seq!['>']);
                    let pp = rep.len() - 1;
                    assert(pp == (g - i) + ins.len());
                    assert(matches_at(out, 0, open)) by {
                        assert(out.subrange(0, open.len() as int) =~= s.subrange(i, i + open.len()));
                    }
                    assert(out[pp] == '>') by {
                        assert(rep[pp] == seq!['>'][0]);
                    }
                    assert(matches_at(out, pp, seq!['>'])) by {
                        assert(out.subrange(pp, pp + 1) =~= seq!['>']);
                    }
                    assert forall|t: int| 4 <= t < pp implies !matches_at(out, t, seq!['>']) by {
                        if t < g - i {
                            assert(out[t] == rep[t] && rep[t] == s.subrange(i, g)[t]);
                        } else {
                            assert(out[t] == rep[t] && rep[t] == ins[t - (g - i)]);
                        }
                        if matches_at(out, t, seq!['>']) {
                            assert(out.subrange(t, t + 1)[0] == '>');
                        }
                    }
                    lemma_find_exact(out, 4, seq!['>'], pp);
                    assert(crate::rewrite::open_tag_gt(out, 0, "img"@, false) == Some(pp));
                    let region = out.subrange(0 + 1 + "img"@.len() as int, pp);
                    assert(matches_at(region, g - i - 3, "style="@)) by {
                        assert(region.subrange(g - i - 3, g - i + 3) =~= ins.subrange(1, 7));
                    }
                    lemma_match_gives_contains(region, g - i - 3, "style="@);
                    lemma_styled_shift(rep, rest, 0);
                    assert(all_imgs_styled_from(out, rep.len() as int));
                    assert(all_imgs_styled_from(out, pp + 1));
                }
            },
        }
    }
}

/// Every image tag in the output of the mobile pass carries a style
/// attribute, whatever the input; and since the mobile pass ends the whole
/// adaptation pipeline, the same holds of every adapted document.
pub proof fn lemma_wechat_adapt_images_styled(rules: Seq<(Seq<char>, Seq<char>)>, h: Seq<char>)
    ensures
        all_imgs_styled(spec_wechat_adapt(rules, h)),
{
    let x = add_attr(
        spec_wechat_links(spec_inline_all(rules, spec_wechat_sanitize(h))),
        "table"@,
        table_style_ins(),
    );
    lemma_img_scan_styled(x, 0);
}

} // verus!
