//! The document compiler: parses an optional front-matter block, derives the
//! title and metadata, and renders the Markdown body to HTML through a
//! GFM-extended renderer.

use vstd::prelude::*;

verus! {

use vstd::string::StringExecFns;
use crate::Error;
use crate::content::Content;
use crate::content::ContentMetadata;
use crate::content::derived_consistent;
use crate::text::chars_to_string;
use crate::text::find_from;
use crate::text::find_pat_from;
use crate::text::is_space;
use crate::text::is_space_char;
use crate::text::lemma_find_from_spec;
use crate::text::lines_view;
use crate::text::lookup_pair;
use crate::text::lookup_pair_exec;
use crate::text::matches_at;
use crate::text::pairs_view;
use crate::text::split_lines;
use crate::text::split_lines_exec;
use crate::text::str_eq;
use crate::text::str_to_chars;
use crate::text::trim_chars;
use crate::text::trim_quote_chars;
use crate::text::trim_quotes_spec;
use crate::text::trim_spec;

/// The front-matter boundary marker at the start of the text: `---` and a
/// line feed.
pub open spec fn fm_open() -> Seq<char> {
    seq!['-', '-', '-', '\n']
}

/// The line that closes a front-matter block: a line feed, `---`, and a line
/// feed.
pub open spec fn fm_close() -> Seq<char> {
    seq!['\n', '-', '-', '-', '\n']
}

/// The text starts with an opening boundary marker line and a closing one
/// follows: it carries a front-matter block.
pub open spec fn has_front_matter(s: Seq<char>) -> bool {
    matches_at(s, 0, fm_open()) && find_from(s, 4, fm_close()) is Some
}

/// The raw text between the two boundary markers.
pub open spec fn fm_inner(s: Seq<char>) -> Seq<char> {
    s.subrange(4, find_from(s, 4, fm_close()).unwrap())
}

/// The body: everything after the closing boundary marker.
pub open spec fn fm_body(s: Seq<char>) -> Seq<char> {
    s.skip(find_from(s, 4, fm_close()).unwrap() + 5)
}

/// The key/value pairs read from the lines of a front-matter block: each
/// line with a colon yields a pair (key trimmed; value trimmed, then
/// surrounding double quotes removed); lines without a colon are skipped.
pub open spec fn parse_fm_lines(lines: Seq<Seq<char>>) -> Seq<(Seq<char>, Seq<char>)>
    decreases lines.len(),
{
    if lines.len() == 0 {
        Seq::empty()
    } else {
        let line = lines[0];
        let rest = parse_fm_lines(lines.drop_first());
        match find_from(line, 0, seq![':']) {
            Some(c) => seq![
                (
                    trim_spec(line.subrange(0, c)),
                    trim_quotes_spec(trim_spec(line.skip(c + 1))),
                ),
            ] + rest,
            None => rest,
        }
    }
}

/// What the front-matter parser returns on `s`: the metadata pairs and the
/// body. With no block at the very start, the pairs are empty and the body
/// is the input itself.
pub open spec fn spec_front_matter(s: Seq<char>) -> (Seq<(Seq<char>, Seq<char>)>, Seq<char>) {
    if has_front_matter(s) {
        (parse_fm_lines(split_lines(fm_inner(s))), fm_body(s))
    } else {
        (Seq::empty(), s)
    }
}

/// A document with no front-matter block parses to an empty metadata map and
/// a body equal to the input, verbatim.
pub proof fn lemma_no_front_matter_is_identity(s: Seq<char>)
    requires
        !has_front_matter(s),
    ensures
        spec_front_matter(s).0 == Seq::<(Seq<char>, Seq<char>)>::empty(),
        spec_front_matter(s).1 == s,
{
}

/// A document with a well-formed front-matter block decomposes exactly into
/// the opening marker, the block's inner text, the closing marker, and the
/// returned body: the body excludes the block and its delimiters exactly
/// once.
pub proof fn lemma_front_matter_decomposition(s: Seq<char>)
    requires
        has_front_matter(s),
    ensures
        s == fm_open() + fm_inner(s) + fm_close() + spec_front_matter(s).1,
{
    lemma_find_from_spec(s, 4, fm_close());
    let j = find_from(s, 4, fm_close()).unwrap();
    assert(matches_at(s, j, fm_close()));
    assert(s.subrange(0, 4) == fm_open());
    assert(s.subrange(j, j + 5) == fm_close());
    assert(s =~= s.subrange(0, 4) + s.subrange(4, j) + s.subrange(j, j + 5) + s.skip(j + 5));
}

/// What `comrak::markdown_to_html` returns for a source text under this
/// crate's fixed option set; the rendering depends on the text alone.
pub uninterp spec fn html_of(md: Seq<char>) -> Seq<char>;

/// Relies on `comrak::markdown_to_html` with a fixed option set (the GFM
/// extensions strikethrough, table, autolink, tasklist, footnotes,
/// superscript and description lists; raw HTML passed through unescaped;
/// smart punctuation; GitHub-style `lang` attributes on code fences; `text`
/// as the info string of unlabelled fences): the rendering is a function of
/// the source text alone.
#[verifier::external_body]
fn render_markdown(md: &str) -> (r: String)
    ensures
        r@ == html_of(md@),
{
    let mut options = comrak::Options::default();
    options.extension.strikethrough = true;
    options.extension.table = true;
    options.extension.autolink = true;
    options.extension.tasklist = true;
    options.extension.footnotes = true;
    options.extension.superscript = true;
    options.extension.description_lists = true;
    options.render.github_pre_lang = true;
    options.render.unsafe_ = true;
    options.parse.smart = true;
    options.parse.default_info_string = Some("text".to_string());
    comrak::markdown_to_html(md, &options)
}

/// Index of the first non-whitespace character of `l` at or after `i`, or
/// the length if all of the rest is whitespace.
pub open spec fn first_non_space_from(l: Seq<char>, i: int) -> int
    decreases l.len() - i,
{
    if i < 0 || i >= l.len() {
        l.len() as int
    } else if !is_space_char(l[i]) {
        i
    } else {
        first_non_space_from(l, i + 1)
    }
}

/// The title a line yields when it is a level-1 heading: a `#`, at least one
/// whitespace character, and a non-empty rest. The title is the rest after
/// the whitespace run, or the run's last character when nothing follows it.
pub open spec fn heading_title(l: Seq<char>) -> Option<Seq<char>> {
    if l.len() >= 3 && l[0] == '#' && is_space_char(l[1]) {
        let f = first_non_space_from(l, 2);
        if f < l.len() {
            Some(l.skip(f))
        } else {
            Some(l.skip(l.len() - 1))
        }
    } else {
        None
    }
}

/// The first level-1 heading among `lines[i..]`, if any.
pub open spec fn first_heading_from(lines: Seq<Seq<char>>, i: int) -> Option<Seq<char>>
    decreases lines.len() - i,
{
    if i < 0 || i >= lines.len() {
        None
    } else {
        match heading_title(lines[i]) {
            Some(t) => Some(t),
            None => first_heading_from(lines, i + 1),
        }
    }
}

/// The placeholder title of a document with neither a front-matter title nor
/// a level-1 heading.
pub open spec fn placeholder_title() -> Seq<char> {
    "无标题"@
}

/// The title of a document: the front-matter `title` wins, else the first
/// level-1 heading line of the body, else the fixed placeholder.
pub open spec fn spec_title(fm: Seq<(Seq<char>, Seq<char>)>, body: Seq<char>) -> Seq<char> {
    match lookup_pair(fm, "title"@) {
        Some(t) => t,
        None => match first_heading_from(split_lines(body), 0) {
            Some(t) => t,
            None => placeholder_title(),
        },
    }
}

/// A comma-separated piece of `s` from `i` on: the pieces between commas, in
/// order, the last piece running to the end.
pub open spec fn split_commas_from(s: Seq<char>, i: int) -> Seq<Seq<char>>
    decreases s.len() - i,
{
    if i < 0 || i > s.len() {
        Seq::empty()
    } else {
        match find_from(s, i, seq![',']) {
            Some(j) => if i <= j < s.len() {
                seq![s.subrange(i, j)] + split_commas_from(s, j + 1)
            } else {
                Seq::empty()
            },
            None => seq![s.subrange(i, s.len() as int)],
        }
    }
}

/// A tag entry, kept only when trimming leaves it non-empty.
pub open spec fn kept_tags(parts: Seq<Seq<char>>) -> Seq<Seq<char>>
    decreases parts.len(),
{
    if parts.len() == 0 {
        Seq::empty()
    } else {
        let t = trim_spec(parts[0]);
        (if t.len() > 0 {
            seq![t]
        } else {
            Seq::<Seq<char>>::empty()
        }) + kept_tags(parts.drop_first())
    }
}

/// The tag list read from a front-matter `tags` value: comma-separated,
/// trimmed per entry, empty entries dropped.
pub open spec fn spec_tag_list(ts: Seq<char>) -> Seq<Seq<char>> {
    kept_tags(split_commas_from(ts, 0))
}

/// The views of a list of strings.
pub open spec fn strs_view(r: Seq<String>) -> Seq<Seq<char>> {
    r.map(|i: int, t: String| t@)
}

/// The recognised front-matter keys, consumed into first-class metadata
/// fields.
pub open spec fn is_reserved_key(k: Seq<char>) -> bool {
    k == "title"@ || k == "author"@ || k == "description"@ || k == "tags"@ || k == "cover"@
}

/// The front-matter pairs from index `i` on whose keys are not recognised,
/// kept verbatim and in order.
pub open spec fn spec_custom_from(fm: Seq<(Seq<char>, Seq<char>)>, i: int) -> Seq<
    (Seq<char>, Seq<char>),
>
    decreases fm.len() - i,
{
    if i < 0 || i >= fm.len() {
        Seq::empty()
    } else {
        (if !is_reserved_key(fm[i].0) {
            seq![fm[i]]
        } else {
            Seq::<(Seq<char>, Seq<char>)>::empty()
        }) + spec_custom_from(fm, i + 1)
    }
}

/// What the metadata builder reads from parsed front matter.
pub open spec fn metadata_matches(fm: Seq<(Seq<char>, Seq<char>)>, m: ContentMetadata) -> bool {
    &&& match lookup_pair(fm, "author"@) {
        Some(a) => m.author matches Some(x) && x@ == a,
        None => m.author is None,
    }
    &&& match lookup_pair(fm, "description"@) {
        Some(d) => m.description matches Some(x) && x@ == d,
        None => m.description is None,
    }
    &&& match lookup_pair(fm, "cover"@) {
        Some(c) => m.cover_image matches Some(x) && x@ == c,
        None => m.cover_image is None,
    }
    &&& match lookup_pair(fm, "tags"@) {
        Some(ts) => strs_view(m.tags@) == spec_tag_list(ts),
        None => m.tags@.len() == 0,
    }
    &&& pairs_view(m.custom_fields@) == spec_custom_from(fm, 0)
    &&& m.word_count is None
    &&& m.reading_time is None
}

/// Splits a comma-separated tags value into trimmed, non-empty entries.
fn tags_from_str(ts: &str) -> (r: Vec<String>)
    ensures
        strs_view(r@) == spec_tag_list(ts@),
{
    let v = str_to_chars(ts);
    let n = v.len();
    let comma: Vec<char> = vec![','];
    let mut out: Vec<String> = Vec::new();
    let mut pos: usize = 0;
    let mut done = false;
    proof {
        assert(comma@ =~= seq![',']);
    }
    while !done
        invariant
            pos <= v@.len(),
            n == v@.len(),
            v@ == ts@,
            comma@ =~= seq![','],
            !done ==> strs_view(out@) + kept_tags(split_commas_from(ts@, pos as int)) == spec_tag_list(
                ts@,
            ),
            done ==> strs_view(out@) == spec_tag_list(ts@),
        decreases v@.len() - pos + 1, (if done { 0int } else { 1int }),
    {
        let ghost prev = strs_view(out@);
        let (piece_end, next, is_last) = match find_pat_from(&v, pos, &comma) {
            Some(j) => {
                proof {
                    lemma_find_from_spec(v@, pos as int, comma@);
                }
                (j, j + 1, false)
            },
            None => (n, n, true),
        };
        let mut piece: Vec<char> = Vec::new();
        crate::text::push_range(&mut piece, &v, pos, piece_end);
        proof {
            assert(piece@ =~= v@.subrange(pos as int, piece_end as int));
        }
        let trimmed = trim_chars(&piece);
        let ghost tail = if trimmed@.len() > 0 {
            seq![trimmed@]
        } else {
            Seq::<Seq<char>>::empty()
        };
        if trimmed.len() > 0 {
            out.push(chars_to_string(&trimmed));
            proof {
                assert(strs_view(out@) =~= prev + tail);
            }
        } else {
            proof {
                assert(strs_view(out@) =~= prev + tail);
            }
        }
        if is_last {
            done = true;
            proof {
                let single = seq![piece@];
                assert(split_commas_from(ts@, pos as int) == single);
                assert(single.drop_first() =~= Seq::<Seq<char>>::empty());
                assert(kept_tags(single.drop_first()) == Seq::<Seq<char>>::empty());
                assert(kept_tags(single) == tail + Seq::<Seq<char>>::empty());
                assert(tail + Seq::<Seq<char>>::empty() =~= tail);
                assert(strs_view(out@) =~= prev + kept_tags(single));
            }
        } else {
            proof {
                let parts = split_commas_from(ts@, pos as int);
                assert(parts == seq![piece@] + split_commas_from(ts@, piece_end + 1));
                assert(parts.len() > 0 && parts[0] == piece@);
                assert(parts.drop_first() =~= split_commas_from(ts@, piece_end + 1));
                assert(kept_tags(parts) == tail + kept_tags(split_commas_from(ts@, piece_end + 1)));
                assert(prev + (tail + kept_tags(split_commas_from(ts@, piece_end + 1))) =~= (prev
                    + tail) + kept_tags(split_commas_from(ts@, piece_end + 1)));
            }
            pos = next;
        }
    }
    out
}

/// The document compiler. It is stateless: each call reads only its inputs.
pub struct MarkdownProcessor {}

impl MarkdownProcessor {
    /// A compiler instance.
    pub fn new() -> (r: Self) {
        MarkdownProcessor {  }
    }

    /// Parses a front-matter block from the start of the text, as
    /// `spec_front_matter` describes: the metadata pairs in file order, and
    /// the body with the block removed.
    pub fn parse_front_matter(&self, markdown: &str) -> (r: (Vec<(String, String)>, String))
        ensures
            pairs_view(r.0@) == spec_front_matter(markdown@).0,
            r.1@ == spec_front_matter(markdown@).1,
    {
        let v = str_to_chars(markdown);
        let open: Vec<char> = vec!['-', '-', '-', '\n'];
        let close: Vec<char> = vec!['\n', '-', '-', '-', '\n'];
        proof {
            assert(open@ =~= fm_open());
            assert(close@ =~= fm_close());
        }
        if !crate::text::starts_with_at(&v, 0, &open) {
            proof {
                assert(pairs_view(Seq::<(String, String)>::empty()) =~= Seq::<
                    (Seq<char>, Seq<char>),
                >::empty());
            }
            return (Vec::new(), String::from_str(markdown));
        }
        match find_pat_from(&v, 4, &close) {
            None => {
                proof {
                    assert(pairs_view(Seq::<(String, String)>::empty()) =~= Seq::<
                        (Seq<char>, Seq<char>),
                    >::empty());
                }
                (Vec::new(), String::from_str(markdown))
            },
            Some(j) => {
                proof {
                    lemma_find_from_spec(v@, 4, close@);
                }
                let mut inner: Vec<char> = Vec::new();
                crate::text::push_range(&mut inner, &v, 4, j);
                proof {
                    assert(inner@ =~= fm_inner(markdown@));
                }
                let n = v.len();
                let mut body: Vec<char> = Vec::new();
                crate::text::push_range(&mut body, &v, j + 5, n);
                proof {
                    assert(body@ =~= fm_body(markdown@));
                }
                let lines = split_lines_exec(&inner);
                let colon: Vec<char> = vec![':'];
                proof {
                    assert(colon@ =~= seq![':']);
                }
                let mut pairs: Vec<(String, String)> = Vec::new();
                proof {
                    assert(lines_view(lines@).skip(0) =~= lines_view(lines@));
                    assert(pairs_view(pairs@) =~= Seq::<(Seq<char>, Seq<char>)>::empty());
                }
                let mut k: usize = 0;
                while k < lines.len()
                    invariant
                        k <= lines@.len(),
                        colon@ =~= seq![':'],
                        lines_view(lines@) == split_lines(fm_inner(markdown@)),
                        pairs_view(pairs@) + parse_fm_lines(lines_view(lines@).skip(k as int))
                            == parse_fm_lines(lines_view(lines@)),
                    decreases lines@.len() - k,
                {
                    let ghost prev = pairs_view(pairs@);
                    let ghost lv = lines_view(lines@);
                    proof {
                        assert(lv.skip(k as int)[0] == lv[k as int]);
                        assert(lv.skip(k as int).drop_first() =~= lv.skip(k + 1));
                    }
                    let line = &lines[k];
                    match find_pat_from(line, 0, &colon) {
                        Some(c) => {
                            proof {
                                lemma_find_from_spec(line@, 0, colon@);
                            }
                            let mut keyc: Vec<char> = Vec::new();
                            crate::text::push_range(&mut keyc, line, 0, c);
                            proof {
                                assert(keyc@ =~= line@.subrange(0, c as int));
                            }
                            let key = trim_chars(&keyc);
                            let mut valc: Vec<char> = Vec::new();
                            crate::text::push_range(&mut valc, line, c + 1, line.len());
                            proof {
                                assert(valc@ =~= line@.skip(c + 1));
                            }
                            let val = trim_quote_chars(&trim_chars(&valc));
                            pairs.push((chars_to_string(&key), chars_to_string(&val)));
                            proof {
                                assert(pairs_view(pairs@) =~= prev + seq![(key@, val@)]);
                                assert((prev + seq![(key@, val@)]) + parse_fm_lines(
                                    lv.skip(k + 1),
                                ) =~= prev + (seq![(key@, val@)] + parse_fm_lines(lv.skip(k + 1))));
                            }
                        },
                        None => {},
                    }
                    k += 1;
                }
                proof {
                    assert(lines_view(lines@).skip(k as int) =~= Seq::<Seq<char>>::empty());
                    assert(parse_fm_lines(Seq::<Seq<char>>::empty()) == Seq::<
                        (Seq<char>, Seq<char>),
                    >::empty());
                    assert(pairs_view(pairs@) + Seq::<(Seq<char>, Seq<char>)>::empty() =~= pairs_view(
                        pairs@,
                    ));
                }
                (pairs, chars_to_string(&body))
            },
        }
    }

    /// Builds a metadata record from parsed front matter, as
    /// `metadata_matches` describes: recognised keys fill the first-class
    /// fields, every other pair is kept verbatim as a custom field.
    pub fn create_metadata_from_front_matter(&self, fm: &Vec<(String, String)>) -> (r:
        ContentMetadata)
        ensures
            metadata_matches(pairs_view(fm@), r),
    {
        let mut metadata = ContentMetadata::default();
        match lookup_pair_exec(fm, "author") {
            Some(a) => {
                metadata.author = Some(a.clone());
            },
            None => {},
        }
        match lookup_pair_exec(fm, "description") {
            Some(d) => {
                metadata.description = Some(d.clone());
            },
            None => {},
        }
        match lookup_pair_exec(fm, "cover") {
            Some(c) => {
                metadata.cover_image = Some(c.clone());
            },
            None => {},
        }
        match lookup_pair_exec(fm, "tags") {
            Some(ts) => {
                metadata.tags = tags_from_str(ts.as_str());
            },
            None => {},
        }
        let mut custom: Vec<(String, String)> = Vec::new();
        let mut k: usize = 0;
        while k < fm.len()
            invariant
                k <= fm@.len(),
                pairs_view(custom@) + spec_custom_from(pairs_view(fm@), k as int)
                    == spec_custom_from(pairs_view(fm@), 0),
            decreases fm@.len() - k,
        {
            let ghost prev = pairs_view(custom@);
            let ghost fv = pairs_view(fm@);
            let key = &fm[k].0;
            let reserved = str_eq(key.as_str(), "title") || str_eq(key.as_str(), "author")
                || str_eq(key.as_str(), "description") || str_eq(key.as_str(), "tags") || str_eq(
                key.as_str(),
                "cover",
            );
            if !reserved {
                custom.push((fm[k].0.clone(), fm[k].1.clone()));
                proof {
                    assert(pairs_view(custom@) =~= prev + seq![fv[k as int]]);
                    assert((prev + seq![fv[k as int]]) + spec_custom_from(fv, k + 1) =~= prev + (
                    seq![fv[k as int]] + spec_custom_from(fv, k + 1)));
                }
            } else {
                proof {
                    assert(prev + (Seq::<(Seq<char>, Seq<char>)>::empty() + spec_custom_from(
                        fv,
                        k + 1,
                    )) =~= prev + spec_custom_from(fv, k + 1));
                }
            }
            k += 1;
        }
        proof {
            assert(pairs_view(custom@) + spec_custom_from(pairs_view(fm@), fm@.len() as int)
                =~= pairs_view(custom@));
        }
        metadata.custom_fields = custom;
        metadata
    }

    /// The document's title, as `spec_title` describes: the front-matter
    /// `title` wins, else the first level-1 heading anywhere in the body,
    /// else the fixed placeholder.
    pub fn extract_title(&self, markdown: &str, fm: &Vec<(String, String)>) -> (r: String)
        ensures
            r@ == spec_title(pairs_view(fm@), markdown@),
    {
        match lookup_pair_exec(fm, "title") {
            Some(t) => t.clone(),
            None => {
                let v = str_to_chars(markdown);
                let lines = split_lines_exec(&v);
                let ghost lv = lines_view(lines@);
                let mut k: usize = 0;
                while k < lines.len()
                    invariant
                        k <= lines@.len(),
                        lv == lines_view(lines@),
                        lv == split_lines(markdown@),
                        lookup_pair(pairs_view(fm@), "title"@) is None,
                        first_heading_from(lv, 0) == first_heading_from(lv, k as int),
                    decreases lines@.len() - k,
                {
                    let line = &lines[k];
                    if line.len() >= 3 {
                        let c0 = line[0];
                        let c1 = line[1];
                        if c0 == '#' && is_space(c1) {
                            let mut f: usize = 2;
                            while f < line.len() && is_space(line[f])
                                invariant
                                    2 <= f <= line@.len(),
                                    first_non_space_from(line@, 2) == first_non_space_from(
                                        line@,
                                        f as int,
                                    ),
                                decreases line@.len() - f,
                            {
                                f += 1;
                            }
                            proof {
                                if f < line@.len() {
                                    assert(first_non_space_from(line@, 2) == f as int);
                                } else {
                                    assert(first_non_space_from(line@, 2) == line@.len() as int);
                                }
                            }
                            let start: usize = if f < line.len() {
                                f
                            } else {
                                line.len() - 1
                            };
                            let mut title: Vec<char> = Vec::new();
                            crate::text::push_range(&mut title, line, start, line.len());
                            proof {
                                assert(title@ =~= line@.skip(start as int));
                                assert(lv[k as int] == line@);
                                assert(heading_title(lv[k as int]) == Some(title@));
                                assert(first_heading_from(lv, k as int) == Some(title@));
                                assert(lookup_pair(pairs_view(fm@), "title"@) is None);
                                assert(spec_title(pairs_view(fm@), markdown@) == title@);
                            }
                            return chars_to_string(&title);
                        }
                    }
                    proof {
                        assert(heading_title(lv[k as int]) is None);
                    }
                    k += 1;
                }
                String::from_str("无标题")
            },
        }
    }

    /// Compiles a source text: parses front matter, derives title and
    /// metadata, renders the body to HTML, and computes the derived counts.
    /// Compilation is total over the inputs this signature admits: the
    /// result is always `Ok`.
    pub fn process(&self, markdown: &str) -> (r: Result<Content, Error>)
        requires
            markdown@.len() <= u32::MAX,
        ensures
            r is Ok,
            ({
                let (fm, body) = spec_front_matter(markdown@);
                let c = r.unwrap();
                &&& c.title@ == spec_title(fm, body)
                &&& c.markdown@ == body
                &&& c.html@ == html_of(body)
                &&& match lookup_pair(fm, "author"@) {
                    Some(a) => c.metadata.author matches Some(x) && x@ == a,
                    None => c.metadata.author is None,
                }
                &&& match lookup_pair(fm, "description"@) {
                    Some(d) => c.metadata.description matches Some(x) && x@ == d,
                    None => c.metadata.description is None,
                }
                &&& match lookup_pair(fm, "cover"@) {
                    Some(cv) => c.metadata.cover_image matches Some(x) && x@ == cv,
                    None => c.metadata.cover_image is None,
                }
                &&& match lookup_pair(fm, "tags"@) {
                    Some(ts) => strs_view(c.metadata.tags@) == spec_tag_list(ts),
                    None => c.metadata.tags@.len() == 0,
                }
                &&& pairs_view(c.metadata.custom_fields@) == spec_custom_from(fm, 0)
                &&& c.metadata.word_count == Some(body.len() as u32)
                &&& derived_consistent(c.markdown@, c.metadata)
            }),
    {
        let (fm, body) = self.parse_front_matter(markdown);
        let metadata = self.create_metadata_from_front_matter(&fm);
        let title = self.extract_title(body.as_str(), &fm);
        let html = render_markdown(body.as_str());
        proof {
            let s = markdown@;
            if has_front_matter(s) {
                lemma_find_from_spec(s, 4, fm_close());
            }
        }
        let mut content = Content::new(title, body);
        content.metadata = metadata;
        content.html = html;
        content.calculate_reading_time();
        Ok(content)
    }

    /// The image targets of the source text, in order: the `src` of each
    /// `![alt](src)` reference.
    pub fn extract_images(&self, markdown: &str) -> (r: Result<Vec<String>, Error>)
        ensures
            r is Ok,
            strs_view(r.unwrap()@) == images_of(markdown@),
    {
        let v = str_to_chars(markdown);
        let mut out: Vec<String> = Vec::new();
        let mut i: usize = 0;
        while i < v.len()
            invariant
                i <= v@.len(),
                v@ == markdown@,
                strs_view(out@) + images_from(v@, i as int) == images_of(v@),
            decreases v@.len() - i,
        {
            let ghost prev = strs_view(out@);
            match try_ref_match(&v, i, true) {
                Some((k, url)) => {
                    out.push(chars_to_string(&url));
                    proof {
                        assert(strs_view(out@) =~= prev + seq![url@]);
                        assert((prev + seq![url@]) + images_from(v@, i + k) =~= prev + (seq![url@]
                            + images_from(v@, i + k)));
                    }
                    i += k;
                },
                None => {
                    i += 1;
                },
            }
        }
        Ok(out)
    }

    /// The link targets of the source text, in order: the `target` of each
    /// `[text](target)` reference (image references included, as their
    /// bracket form matches too).
    pub fn extract_links(&self, markdown: &str) -> (r: Result<Vec<String>, Error>)
        ensures
            r is Ok,
            strs_view(r.unwrap()@) == links_of(markdown@),
    {
        let v = str_to_chars(markdown);
        let mut out: Vec<String> = Vec::new();
        let mut i: usize = 0;
        while i < v.len()
            invariant
                i <= v@.len(),
                v@ == markdown@,
                strs_view(out@) + links_from(v@, i as int) == links_of(v@),
            decreases v@.len() - i,
        {
            let ghost prev = strs_view(out@);
            match try_ref_match(&v, i, false) {
                Some((k, url)) => {
                    out.push(chars_to_string(&url));
                    proof {
                        assert(strs_view(out@) =~= prev + seq![url@]);
                        assert((prev + seq![url@]) + links_from(v@, i + k) =~= prev + (seq![url@]
                            + links_from(v@, i + k)));
                    }
                    i += k;
                },
                None => {
                    i += 1;
                },
            }
        }
        Ok(out)
    }
}

impl Default for MarkdownProcessor {
    /// A compiler instance.
    fn default() -> (r: Self) {
        MarkdownProcessor::new()
    }
}

/// Match of a Markdown reference at `i`: with `img`, `![alt](url)`; without,
/// `[text](url)`. The bracket text may not span lines; the target is
/// non-empty and runs to the first closing parenthesis. Returns the consumed
/// length and the target.
pub open spec fn ref_match(s: Seq<char>, i: int, img: bool) -> Option<(int, Seq<char>)> {
    let start = if img {
        i + 2
    } else {
        i + 1
    };
    let opener = if img {
        seq!['!', '[']
    } else {
        seq!['[']
    };
    if matches_at(s, i, opener) {
        match find_from(s, start, seq![']', '(']) {
            Some(j) => {
                let no_nl = match find_from(s, start, seq!['\n']) {
                    Some(n) => n > j,
                    None => true,
                };
                if no_nl {
                    match find_from(s, j + 2, seq![')']) {
                        Some(q) => if q > j + 2 {
                            Some((q + 1 - i, s.subrange(j + 2, q)))
                        } else {
                            None
                        },
                        None => None,
                    }
                } else {
                    None
                }
            },
            None => None,
        }
    } else {
        None
    }
}

/// The image targets of `s` from `i` on, in scan order.
pub open spec fn images_from(s: Seq<char>, i: int) -> Seq<Seq<char>>
    decreases s.len() - i,
{
    if i < 0 || i >= s.len() {
        Seq::empty()
    } else {
        match ref_match(s, i, true) {
            Some(kr) => if 1 <= kr.0 && i + kr.0 <= s.len() {
                seq![kr.1] + images_from(s, i + kr.0)
            } else {
                images_from(s, i + 1)
            },
            None => images_from(s, i + 1),
        }
    }
}

/// The image targets of `s`.
pub open spec fn images_of(s: Seq<char>) -> Seq<Seq<char>> {
    images_from(s, 0)
}

/// The link targets of `s` from `i` on, in scan order.
pub open spec fn links_from(s: Seq<char>, i: int) -> Seq<Seq<char>>
    decreases s.len() - i,
{
    if i < 0 || i >= s.len() {
        Seq::empty()
    } else {
        match ref_match(s, i, false) {
            Some(kr) => if 1 <= kr.0 && i + kr.0 <= s.len() {
                seq![kr.1] + links_from(s, i + kr.0)
            } else {
                links_from(s, i + 1)
            },
            None => links_from(s, i + 1),
        }
    }
}

/// The link targets of `s`.
pub open spec fn links_of(s: Seq<char>) -> Seq<Seq<char>> {
    links_from(s, 0)
}

/// Evaluates `ref_match` at position `i`.
fn try_ref_match(s: &Vec<char>, i: usize, img: bool) -> (r: Option<(usize, Vec<char>)>)
    requires
        i < s@.len(),
    ensures
        match (r, ref_match(s@, i as int, img)) {
            (Some(rk), Some(sk)) => rk.0 as int == sk.0 && rk.1@ == sk.1 && 1 <= rk.0 && i + rk.0
                <= s@.len(),
            (None, None) => true,
            _ => false,
        },
{
    let n = s.len();
    let opener: Vec<char> = if img {
        vec!['!', '[']
    } else {
        vec!['[']
    };
    proof {
        if img {
            assert(opener@ =~= seq!['!', '[']);
        } else {
            assert(opener@ =~= seq!['[']);
        }
    }
    if !crate::text::starts_with_at(s, i, &opener) {
        return None;
    }
    let start = i + opener.len();
    let bracket_paren: Vec<char> = vec![']', '('];
    let nl: Vec<char> = vec!['\n'];
    proof {
        assert(bracket_paren@ =~= seq![']', '(']);
        assert(nl@ =~= seq!['\n']);
    }
    match find_pat_from(s, start, &bracket_paren) {
        Some(j) => {
            proof {
                lemma_find_from_spec(s@, start as int, bracket_paren@);
            }
            let no_nl = match find_pat_from(s, start, &nl) {
                Some(nidx) => nidx > j,
                None => true,
            };
            if !no_nl {
                return None;
            }
            let paren: Vec<char> = vec![')'];
            proof {
                assert(paren@ =~= seq![')']);
            }
            match find_pat_from(s, j + 2, &paren) {
                Some(q) => {
                    proof {
                        lemma_find_from_spec(s@, j + 2, paren@);
                    }
                    if q > j + 2 {
                        let mut url: Vec<char> = Vec::new();
                        crate::text::push_range(&mut url, s, j + 2, q);
                        proof {
                            assert(url@ =~= s@.subrange(j + 2, q as int));
                        }
                        Some((q + 1 - i, url))
                    } else {
                        None
                    }
                },
                None => None,
            }
        },
        None => None,
    }
}

} // verus!
