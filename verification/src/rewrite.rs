//! A verified rewrite engine for HTML text. Every adapter pass is a single
//! left-to-right scan: at each position either a pattern matches and is
//! replaced, or one character is copied. The scan semantics is defined once
//! (`scan_from`), and each pass supplies a match function.

use vstd::prelude::*;

verus! {

use crate::text::contains_pat;
use crate::text::contains_sub;
use crate::text::find_from;
use crate::text::find_pat_from;
use crate::text::is_space;
use crate::text::is_space_char;
use crate::text::lemma_find_from_spec;
use crate::text::matches_at;
use crate::text::push_all;
use crate::text::push_range;
use crate::text::starts_with_at;

/// One rewrite of `s` from position `i` on: wherever `m` matches (returning
/// how many characters it consumes and their replacement) the replacement is
/// emitted, elsewhere characters are copied unchanged. Matches are
/// non-overlapping and leftmost, as in a single regex `replace_all`.
pub open spec fn scan_from(
    s: Seq<char>,
    i: int,
    m: spec_fn(Seq<char>, int) -> Option<(int, Seq<char>)>,
) -> Seq<char>
    decreases s.len() - i,
{
    if i < 0 || i >= s.len() {
        Seq::empty()
    } else {
        match m(s, i) {
            Some(kr) => if 1 <= kr.0 && i + kr.0 <= s.len() {
                kr.1 + scan_from(s, i + kr.0, m)
            } else {
                seq![s[i]] + scan_from(s, i + 1, m)
            },
            None => seq![s[i]] + scan_from(s, i + 1, m),
        }
    }
}

/// The kinds of single-scan rewrites the engine supports.
pub enum PassKind {
    /// Remove `<tag ...> ... </tag>`, content included.
    StripBlock,
    /// Remove a self-closing `<tag ... />`.
    StripSelfClosing,
    /// Remove an attribute occurrence `name="..."`.
    RemoveAttr,
    /// Remove a literal substring.
    RemoveLiteral,
    /// Rewrite `<tag ...>` so the given text is inserted before the `>`.
    InsertAttr,
    /// As `InsertAttr`, but leave tags whose attributes already contain a
    /// given substring unchanged.
    InsertAttrIfAbsent,
    /// Append a value to an existing quoted `name="..."` attribute, or insert
    /// the attribute when the tag has none.
    MergeAttr,
}

/// Configuration of one rewrite pass; which fields matter depends on `kind`.
pub struct PassCfg {
    /// The pass to run.
    pub kind: PassKind,
    /// Tag name for tag-directed passes.
    pub tag: Vec<char>,
    /// Attribute name (`MergeAttr`, `RemoveAttr`), condition substring
    /// (`InsertAttrIfAbsent`) or literal (`RemoveLiteral`).
    pub name: Vec<char>,
    /// Separator placed between an existing attribute value and the appended
    /// one (`MergeAttr`).
    pub sep: Vec<char>,
    /// The value to append (`MergeAttr`) or the full text to insert before
    /// the closing `>` (`InsertAttr`, `InsertAttrIfAbsent`).
    pub val: Vec<char>,
    /// Whether the opening tag must be followed by whitespace (or close
    /// immediately) to count as a match.
    pub require_space: bool,
}

/// Index of the `>` that closes an opening `<tag ...>` at `i`, if the tag
/// matches there. With `rs`, the tag name must be followed either directly by
/// `>` or by a whitespace character.
pub open spec fn open_tag_gt(s: Seq<char>, i: int, tag: Seq<char>, rs: bool) -> Option<int> {
    let open = seq!['<'] + tag;
    if matches_at(s, i, open) {
        if rs {
            if i + open.len() < s.len() && s[i + open.len()] == '>' {
                Some(i + open.len())
            } else if i + open.len() < s.len() && is_space_char(s[i + open.len()]) {
                find_from(s, i + open.len() + 1, seq!['>'])
            } else {
                None
            }
        } else {
            find_from(s, i + open.len(), seq!['>'])
        }
    } else {
        None
    }
}

/// Match of a `StripBlock` pass at `i`: the whole element, from the opening
/// tag through the first following `</tag>`, is consumed and replaced by
/// nothing.
pub open spec fn strip_block_match(s: Seq<char>, i: int, tag: Seq<char>) -> Option<
    (int, Seq<char>),
> {
    let open = seq!['<'] + tag;
    if matches_at(s, i, open) {
        match find_from(s, i + open.len(), seq!['>']) {
            Some(g) => {
                let close = seq!['<', '/'] + tag + seq!['>'];
                match find_from(s, g + 1, close) {
                    Some(c) => Some((c + close.len() - i, Seq::<char>::empty())),
                    None => None,
                }
            },
            None => None,
        }
    } else {
        None
    }
}

/// Match of a `StripSelfClosing` pass at `i`: `<tag ... />` is consumed.
pub open spec fn strip_self_closing_match(s: Seq<char>, i: int, tag: Seq<char>) -> Option<
    (int, Seq<char>),
> {
    let open = seq!['<'] + tag;
    if matches_at(s, i, open) {
        match find_from(s, i + open.len(), seq!['>']) {
            Some(g) => if g > i + open.len() && s[g - 1] == '/' {
                Some((g + 1 - i, Seq::<char>::empty()))
            } else {
                None
            },
            None => None,
        }
    } else {
        None
    }
}

/// Match of a `RemoveAttr` pass at `i`: `name="..."` is consumed.
pub open spec fn remove_attr_match(s: Seq<char>, i: int, name: Seq<char>) -> Option<
    (int, Seq<char>),
> {
    let pat = name + seq!['=', '"'];
    if matches_at(s, i, pat) {
        match find_from(s, i + pat.len(), seq!['"']) {
            Some(q) => Some((q + 1 - i, Seq::<char>::empty())),
            None => None,
        }
    } else {
        None
    }
}

/// Match of a `RemoveLiteral` pass at `i`: the literal is consumed.
pub open spec fn remove_literal_match(s: Seq<char>, i: int, lit: Seq<char>) -> Option<
    (int, Seq<char>),
> {
    if lit.len() > 0 && matches_at(s, i, lit) {
        Some((lit.len() as int, Seq::<char>::empty()))
    } else {
        None
    }
}

/// Match of an `InsertAttr` pass at `i`: the opening tag is kept and `val` is
/// inserted just before its closing `>`.
pub open spec fn insert_attr_match(s: Seq<char>, i: int, tag: Seq<char>, val: Seq<char>) -> Option<
    (int, Seq<char>),
> {
    match open_tag_gt(s, i, tag, false) {
        Some(g) => Some((g + 1 - i, s.subrange(i, g) + val + seq!['>'])),
        None => None,
    }
}

/// Match of an `InsertAttrIfAbsent` pass at `i`: as `insert_attr_match`, but
/// a tag whose attribute text already contains `cond` stays unchanged.
pub open spec fn insert_if_absent_match(
    s: Seq<char>,
    i: int,
    tag: Seq<char>,
    cond: Seq<char>,
    val: Seq<char>,
) -> Option<(int, Seq<char>)> {
    match open_tag_gt(s, i, tag, false) {
        Some(g) => {
            let attrs = s.subrange(i + 1 + tag.len(), g);
            if contains_sub(attrs, cond) {
                Some((g + 1 - i, s.subrange(i, g + 1)))
            } else {
                Some((g + 1 - i, s.subrange(i, g) + val + seq!['>']))
            }
        },
        None => None,
    }
}

/// Match of a `MergeAttr` pass at `i`. If the tag's attribute text holds a
/// quoted `name="existing"`, the new value is appended inside the quotes as
/// `existing`, separator, value; if it holds `name=` in any other form the
/// tag stays unchanged; otherwise a fresh ` name="value"` is inserted before
/// the closing `>`.
pub open spec fn merge_attr_match(
    s: Seq<char>,
    i: int,
    tag: Seq<char>,
    name: Seq<char>,
    sep: Seq<char>,
    val: Seq<char>,
    rs: bool,
) -> Option<(int, Seq<char>)> {
    match open_tag_gt(s, i, tag, rs) {
        Some(g) => {
            let a0 = i + 1 + tag.len();
            let attrs = s.subrange(a0, g);
            let name_eq = name + seq!['='];
            let name_q = name + seq!['=', '"'];
            if contains_sub(attrs, name_eq) {
                match find_from(s, a0, name_q) {
                    Some(p) => if p + name_q.len() <= g {
                        match find_from(s, p + name_q.len(), seq!['"']) {
                            Some(q) => if q < g {
                                Some(
                                    (
                                        g + 1 - i,
                                        s.subrange(i, q) + sep + val + s.subrange(q, g + 1),
                                    ),
                                )
                            } else {
                                Some((g + 1 - i, s.subrange(i, g + 1)))
                            },
                            None => Some((g + 1 - i, s.subrange(i, g + 1))),
                        }
                    } else {
                        Some((g + 1 - i, s.subrange(i, g + 1)))
                    },
                    None => Some((g + 1 - i, s.subrange(i, g + 1))),
                }
            } else {
                Some(
                    (
                        g + 1 - i,
                        s.subrange(i, g) + seq![' '] + name + seq!['=', '"'] + val + seq![
                            '"',
                            '>',
                        ],
                    ),
                )
            }
        },
        None => None,
    }
}

/// The match function of a configured pass.
pub open spec fn pass_match(
    k: PassKind,
    tag: Seq<char>,
    name: Seq<char>,
    sep: Seq<char>,
    val: Seq<char>,
    rs: bool,
    s: Seq<char>,
    i: int,
) -> Option<(int, Seq<char>)> {
    match k {
        PassKind::StripBlock => strip_block_match(s, i, tag),
        PassKind::StripSelfClosing => strip_self_closing_match(s, i, tag),
        PassKind::RemoveAttr => remove_attr_match(s, i, name),
        PassKind::RemoveLiteral => remove_literal_match(s, i, name),
        PassKind::InsertAttr => insert_attr_match(s, i, tag, val),
        PassKind::InsertAttrIfAbsent => insert_if_absent_match(s, i, tag, name, val),
        PassKind::MergeAttr => merge_attr_match(s, i, tag, name, sep, val, rs),
    }
}

/// The match function of a configured pass, as a value.
pub open spec fn pass_m(
    k: PassKind,
    tag: Seq<char>,
    name: Seq<char>,
    sep: Seq<char>,
    val: Seq<char>,
    rs: bool,
) -> spec_fn(Seq<char>, int) -> Option<(int, Seq<char>)> {
    |s: Seq<char>, i: int| pass_match(k, tag, name, sep, val, rs, s, i)
}

/// What a configured pass makes of `s`.
pub open spec fn pass_result(cfg: PassCfg, s: Seq<char>) -> Seq<char> {
    scan_from(s, 0, pass_m(cfg.kind, cfg.tag@, cfg.name@, cfg.sep@, cfg.val@, cfg.require_space))
}

/// Finds the `>` closing an opening `<tag ...>` at `i`, per `open_tag_gt`.
fn open_tag_gt_exec(s: &Vec<char>, i: usize, tag: &Vec<char>, rs: bool) -> (r: Option<usize>)
    requires
        i < s@.len(),
    ensures
        match (r, open_tag_gt(s@, i as int, tag@, rs)) {
            (Some(g), Some(sg)) => g as int == sg && i + 1 + tag@.len() <= g && g < s@.len()
                && s@[g as int] == '>',
            (None, None) => true,
            _ => false,
        },
{
    let n = s.len();
    let mut open: Vec<char> = Vec::new();
    open.push('<');
    push_all(&mut open, tag);
    proof {
        assert(open@ =~= seq!['<'] + tag@);
    }
    if !starts_with_at(s, i, &open) {
        return None;
    }
    let gt: Vec<char> = vec!['>'];
    proof {
        assert(gt@ =~= seq!['>']);
        assert(i + open@.len() <= s@.len());
    }
    let after = i + open.len();
    if rs {
        if after < s.len() && s[after] == '>' {
            return Some(after);
        }
        if after < s.len() && is_space(s[after]) {
            let r = find_pat_from(s, after + 1, &gt);
            proof {
                if let Some(g) = find_from(s@, after + 1, gt@) {
                    lemma_find_from_spec(s@, after + 1, gt@);
                    assert(s@.subrange(g, g + 1)[0] == '>');
                }
            }
            return r;
        }
        return None;
    }
    let r = find_pat_from(s, after, &gt);
    proof {
        if let Some(g) = find_from(s@, after as int, gt@) {
            lemma_find_from_spec(s@, after as int, gt@);
            assert(s@.subrange(g, g + 1)[0] == '>');
        }
    }
    r
}

/// Evaluates the configured pass at position `i`, exactly as `pass_match`
/// describes it.
#[verifier::rlimit(100)]
#[verifier::spinoff_prover]
fn try_pass(cfg: &PassCfg, s: &Vec<char>, i: usize) -> (r: Option<(usize, Vec<char>)>)
    requires
        i < s@.len(),
    ensures
        match (
            r,
            pass_match(cfg.kind, cfg.tag@, cfg.name@, cfg.sep@, cfg.val@, cfg.require_space, s@, i as int),
        ) {
            (Some(rk), Some(sk)) => rk.0 as int == sk.0 && rk.1@ == sk.1 && 1 <= rk.0 && i + rk.0
                <= s@.len(),
            (None, None) => true,
            _ => false,
        },
{
    let n = s.len();
    match cfg.kind {
        PassKind::StripBlock => {
            let mut open: Vec<char> = Vec::new();
            open.push('<');
            push_all(&mut open, &cfg.tag);
            proof {
                assert(open@ =~= seq!['<'] + cfg.tag@);
            }
            if !starts_with_at(s, i, &open) {
                return None;
            }
            let gt: Vec<char> = vec!['>'];
            proof {
                assert(gt@ =~= seq!['>']);
            }
            match find_pat_from(s, i + open.len(), &gt) {
                Some(g) => {
                    proof {
                        lemma_find_from_spec(s@, i + open@.len(), gt@);
                    }
                    let mut close: Vec<char> = Vec::new();
                    close.push('<');
                    close.push('/');
                    push_all(&mut close, &cfg.tag);
                    close.push('>');
                    proof {
                        assert(close@ =~= seq!['<', '/'] + cfg.tag@ + seq!['>']);
                    }
                    match find_pat_from(s, g + 1, &close) {
                        Some(c) => {
                            proof {
                                lemma_find_from_spec(s@, g + 1, close@);
                            }
                            Some((c + close.len() - i, Vec::new()))
                        },
                        None => None,
                    }
                },
                None => None,
            }
        },
        PassKind::StripSelfClosing => {
            let mut open: Vec<char> = Vec::new();
            open.push('<');
            push_all(&mut open, &cfg.tag);
            proof {
                assert(open@ =~= seq!['<'] + cfg.tag@);
            }
            if !starts_with_at(s, i, &open) {
                return None;
            }
            let gt: Vec<char> = vec!['>'];
            proof {
                assert(gt@ =~= seq!['>']);
            }
            match find_pat_from(s, i + open.len(), &gt) {
                Some(g) => {
                    proof {
                        lemma_find_from_spec(s@, i + open@.len(), gt@);
                    }
                    if g > i + open.len() && s[g - 1] == '/' {
                        Some((g + 1 - i, Vec::new()))
                    } else {
                        None
                    }
                },
                None => None,
            }
        },
        PassKind::RemoveAttr => {
            let mut pat: Vec<char> = Vec::new();
            push_all(&mut pat, &cfg.name);
            pat.push('=');
            pat.push('"');
            proof {
                assert(pat@ =~= cfg.name@ + seq!['=', '"']);
            }
            if !starts_with_at(s, i, &pat) {
                return None;
            }
            let quote: Vec<char> = vec!['"'];
            proof {
                assert(quote@ =~= seq!['"']);
            }
            match find_pat_from(s, i + pat.len(), &quote) {
                Some(q) => {
                    proof {
                        lemma_find_from_spec(s@, i + pat@.len(), quote@);
                    }
                    Some((q + 1 - i, Vec::new()))
                },
                None => None,
            }
        },
        PassKind::RemoveLiteral => {
            if cfg.name.len() > 0 && starts_with_at(s, i, &cfg.name) {
                Some((cfg.name.len(), Vec::new()))
            } else {
                None
            }
        },
        PassKind::InsertAttr => {
            match open_tag_gt_exec(s, i, &cfg.tag, false) {
                Some(g) => {
                    let mut rep: Vec<char> = Vec::new();
                    push_range(&mut rep, s, i, g);
                    push_all(&mut rep, &cfg.val);
                    rep.push('>');
                    proof {
                        assert(rep@ =~= s@.subrange(i as int, g as int) + cfg.val@ + seq!['>']);
                    }
                    Some((g + 1 - i, rep))
                },
                None => None,
            }
        },
        PassKind::InsertAttrIfAbsent => {
            match open_tag_gt_exec(s, i, &cfg.tag, false) {
                Some(g) => {
                    let mut attrs: Vec<char> = Vec::new();
                    push_range(&mut attrs, s, i + 1 + cfg.tag.len(), g);
                    proof {
                        assert(attrs@ =~= s@.subrange(i + 1 + cfg.tag@.len(), g as int));
                    }
                    if contains_pat(&attrs, &cfg.name) {
                        let mut rep: Vec<char> = Vec::new();
                        push_range(&mut rep, s, i, g + 1);
                        proof {
                            assert(rep@ =~= s@.subrange(i as int, g + 1));
                        }
                        Some((g + 1 - i, rep))
                    } else {
                        let mut rep: Vec<char> = Vec::new();
                        push_range(&mut rep, s, i, g);
                        push_all(&mut rep, &cfg.val);
                        rep.push('>');
                        proof {
                            assert(rep@ =~= s@.subrange(i as int, g as int) + cfg.val@ + seq![
                                '>',
                            ]);
                        }
                        Some((g + 1 - i, rep))
                    }
                },
                None => None,
            }
        },
        PassKind::MergeAttr => {
            match open_tag_gt_exec(s, i, &cfg.tag, cfg.require_space) {
                Some(g) => {
                    let a0 = i + 1 + cfg.tag.len();
                    let mut attrs: Vec<char> = Vec::new();
                    push_range(&mut attrs, s, a0, g);
                    let mut name_eq: Vec<char> = Vec::new();
                    push_all(&mut name_eq, &cfg.name);
                    name_eq.push('=');
                    proof {
                        assert(name_eq@ =~= cfg.name@ + seq!['=']);
                    }
                    let mut name_q: Vec<char> = Vec::new();
                    push_all(&mut name_q, &cfg.name);
                    name_q.push('=');
                    name_q.push('"');
                    proof {
                        assert(name_q@ =~= cfg.name@ + seq!['=', '"']);
                    }
                    proof {
                        assert(attrs@ =~= s@.subrange(a0 as int, g as int));
                    }
                    if contains_pat(&attrs, &name_eq) {
                        match find_pat_from(s, a0, &name_q) {
                            Some(p) => {
                                proof {
                                    lemma_find_from_spec(s@, a0 as int, name_q@);
                                }
                                if p + name_q.len() <= g {
                                    let quote: Vec<char> = vec!['"'];
                                    proof {
                                        assert(quote@ =~= seq!['"']);
                                    }
                                    match find_pat_from(s, p + name_q.len(), &quote) {
                                        Some(q) => {
                                            if q < g {
                                                let mut rep: Vec<char> = Vec::new();
                                                push_range(&mut rep, s, i, q);
                                                push_all(&mut rep, &cfg.sep);
                                                push_all(&mut rep, &cfg.val);
                                                push_range(&mut rep, s, q, g + 1);
                                                proof {
                                                    assert(rep@ =~= s@.subrange(i as int, q as int)
                                                        + cfg.sep@ + cfg.val@ + s@.subrange(
                                                        q as int,
                                                        g + 1,
                                                    ));
                                                }
                                                Some((g + 1 - i, rep))
                                            } else {
                                                let mut rep: Vec<char> = Vec::new();
                                                push_range(&mut rep, s, i, g + 1);
                                                proof {
                                                    assert(rep@ =~= s@.subrange(i as int, g + 1));
                                                }
                                                Some((g + 1 - i, rep))
                                            }
                                        },
                                        None => {
                                            let mut rep: Vec<char> = Vec::new();
                                            push_range(&mut rep, s, i, g + 1);
                                            Some((g + 1 - i, rep))
                                        },
                                    }
                                } else {
                                    let mut rep: Vec<char> = Vec::new();
                                    push_range(&mut rep, s, i, g + 1);
                                    proof {
                                        assert(rep@ =~= s@.subrange(i as int, g + 1));
                                    }
                                    Some((g + 1 - i, rep))
                                }
                            },
                            None => {
                                let mut rep: Vec<char> = Vec::new();
                                push_range(&mut rep, s, i, g + 1);
                                proof {
                                    assert(rep@ =~= s@.subrange(i as int, g + 1));
                                }
                                Some((g + 1 - i, rep))
                            },
                        }
                    } else {
                        let mut rep: Vec<char> = Vec::new();
                        push_range(&mut rep, s, i, g);
                        rep.push(' ');
                        push_all(&mut rep, &cfg.name);
                        rep.push('=');
                        rep.push('"');
                        push_all(&mut rep, &cfg.val);
                        rep.push('"');
                        rep.push('>');
                        proof {
                            assert(rep@ =~= s@.subrange(i as int, g as int) + seq![' '] + cfg.name@
                                + seq!['=', '"'] + cfg.val@ + seq!['"', '>']);
                        }
                        Some((g + 1 - i, rep))
                    }
                },
                None => None,
            }
        },
    }
}

/// Runs the configured pass over all of `s`.
pub fn run_pass(cfg: &PassCfg, s: &Vec<char>) -> (out: Vec<char>)
    ensures
        out@ == pass_result(*cfg, s@),
{
    let ghost m = pass_m(cfg.kind, cfg.tag@, cfg.name@, cfg.sep@, cfg.val@, cfg.require_space);
    let mut out: Vec<char> = Vec::new();
    let mut i: usize = 0;
    while i < s.len()
        invariant
            i <= s@.len(),
            m == pass_m(cfg.kind, cfg.tag@, cfg.name@, cfg.sep@, cfg.val@, cfg.require_space),
            out@ + scan_from(s@, i as int, m) == scan_from(s@, 0, m),
        decreases s@.len() - i,
    {
        let ghost pre = out@;
        proof {
            assert(m(s@, i as int) == pass_match(
                cfg.kind,
                cfg.tag@,
                cfg.name@,
                cfg.sep@,
                cfg.val@,
                cfg.require_space,
                s@,
                i as int,
            ));
        }
        match try_pass(cfg, s, i) {
            Some((k, rep)) => {
                proof {
                    assert(scan_from(s@, i as int, m) == rep@ + scan_from(s@, i + k, m));
                }
                let mut rep2 = rep;
                out.append(&mut rep2);
                proof {
                    assert((pre + rep@) + scan_from(s@, i + k, m) =~= pre + (rep@ + scan_from(
                        s@,
                        i + k,
                        m,
                    )));
                }
                i += k;
            },
            None => {
                proof {
                    assert(scan_from(s@, i as int, m) == seq![s@[i as int]] + scan_from(
                        s@,
                        i + 1,
                        m,
                    ));
                }
                out.push(s[i]);
                proof {
                    assert((pre + seq![s@[i as int]]) + scan_from(s@, i + 1, m) =~= pre + (seq![
                        s@[i as int],
                    ] + scan_from(s@, i + 1, m)));
                    assert(pre.push(s@[i as int]) =~= pre + seq![s@[i as int]]);
                }
                i += 1;
            },
        }
    }
    proof {
        assert(out@ + scan_from(s@, i as int, m) =~= out@);
    }
    out
}

/// Repeatedly removes the first occurrence of `p1`, then of `p2`, until
/// neither occurs in the text.
pub open spec fn scrub_two(s: Seq<char>, p1: Seq<char>, p2: Seq<char>) -> Seq<char>
    decreases s.len(),
    when p1.len() > 0 && p2.len() > 0
    via scrub_two_decreases
{
    match find_from(s, 0, p1) {
        Some(j) => scrub_two(s.subrange(0, j) + s.skip(j + p1.len()), p1, p2),
        None => match find_from(s, 0, p2) {
            Some(j) => scrub_two(s.subrange(0, j) + s.skip(j + p2.len()), p1, p2),
            None => s,
        },
    }
}

#[via_fn]
proof fn scrub_two_decreases(s: Seq<char>, p1: Seq<char>, p2: Seq<char>) {
    lemma_find_from_spec(s, 0, p1);
    lemma_find_from_spec(s, 0, p2);
}

/// After `scrub_two`, neither pattern occurs anywhere in the text.
pub proof fn lemma_scrub_two_clean(s: Seq<char>, p1: Seq<char>, p2: Seq<char>)
    requires
        p1.len() > 0,
        p2.len() > 0,
    ensures
        !contains_sub(scrub_two(s, p1, p2), p1),
        !contains_sub(scrub_two(s, p1, p2), p2),
    decreases s.len(),
{
    lemma_find_from_spec(s, 0, p1);
    lemma_find_from_spec(s, 0, p2);
    match find_from(s, 0, p1) {
        Some(j) => {
            lemma_scrub_two_clean(s.subrange(0, j) + s.skip(j + p1.len()), p1, p2);
        },
        None => match find_from(s, 0, p2) {
            Some(j) => {
                lemma_scrub_two_clean(s.subrange(0, j) + s.skip(j + p2.len()), p1, p2);
            },
            None => {},
        },
    }
}

/// A copy of `v` without the characters at positions `a..b`.
fn splice_out(v: &Vec<char>, a: usize, b: usize) -> (r: Vec<char>)
    requires
        a <= b <= v@.len(),
    ensures
        r@ == v@.subrange(0, a as int) + v@.skip(b as int),
{
    let mut r: Vec<char> = Vec::new();
    push_range(&mut r, v, 0, a);
    push_range(&mut r, v, b, v.len());
    proof {
        assert(v@.skip(b as int) =~= v@.subrange(b as int, v@.len() as int));
    }
    r
}

/// Removes every occurrence of the two patterns, repeating until none is
/// left, as `scrub_two` describes.
pub fn scrub_two_exec(s: &Vec<char>, p1: &Vec<char>, p2: &Vec<char>) -> (out: Vec<char>)
    requires
        p1@.len() > 0,
        p2@.len() > 0,
    ensures
        out@ == scrub_two(s@, p1@, p2@),
{
    let mut cur: Vec<char> = Vec::new();
    push_all(&mut cur, s);
    proof {
        assert(cur@ =~= s@);
    }
    loop
        invariant
            p1@.len() > 0,
            p2@.len() > 0,
            scrub_two(cur@, p1@, p2@) == scrub_two(s@, p1@, p2@),
        decreases cur@.len(),
    {
        let cn = cur.len();
        match find_pat_from(&cur, 0, p1) {
            Some(j) => {
                proof {
                    lemma_find_from_spec(cur@, 0, p1@);
                }
                cur = splice_out(&cur, j, j + p1.len());
            },
            None => {
                match find_pat_from(&cur, 0, p2) {
                    Some(j) => {
                        proof {
                            lemma_find_from_spec(cur@, 0, p2@);
                        }
                        cur = splice_out(&cur, j, j + p2.len());
                    },
                    None => {
                        return cur;
                    },
                }
            },
        }
    }
}


/// `s` with every `<tag ...> ... </tag>` element removed, content included.
pub open spec fn strip_blocks(s: Seq<char>, tag: Seq<char>) -> Seq<char> {
    scan_from(
        s,
        0,
        pass_m(
            PassKind::StripBlock,
            tag,
            Seq::empty(),
            Seq::empty(),
            Seq::empty(),
            false,
        ),
    )
}

/// `s` with every self-closing `<tag ... />` removed.
pub open spec fn strip_self_closing(s: Seq<char>, tag: Seq<char>) -> Seq<char> {
    scan_from(
        s,
        0,
        pass_m(
            PassKind::StripSelfClosing,
            tag,
            Seq::empty(),
            Seq::empty(),
            Seq::empty(),
            false,
        ),
    )
}

/// `s` with every `name="..."` attribute occurrence removed.
pub open spec fn drop_attr(s: Seq<char>, name: Seq<char>) -> Seq<char> {
    scan_from(
        s,
        0,
        pass_m(
            PassKind::RemoveAttr,
            Seq::empty(),
            name,
            Seq::empty(),
            Seq::empty(),
            false,
        ),
    )
}

/// `s` with every occurrence of the literal removed.
pub open spec fn drop_literal(s: Seq<char>, lit: Seq<char>) -> Seq<char> {
    scan_from(
        s,
        0,
        pass_m(
            PassKind::RemoveLiteral,
            Seq::empty(),
            lit,
            Seq::empty(),
            Seq::empty(),
            false,
        ),
    )
}

/// `s` with `ins` inserted before the closing `>` of every `<tag ...>`.
pub open spec fn add_attr(s: Seq<char>, tag: Seq<char>, ins: Seq<char>) -> Seq<char> {
    scan_from(
        s,
        0,
        pass_m(PassKind::InsertAttr, tag, Seq::empty(), Seq::empty(), ins, false),
    )
}

/// As `add_attr`, but tags whose attribute text contains `cond` stay
/// unchanged.
pub open spec fn add_attr_if_absent(s: Seq<char>, tag: Seq<char>, cond: Seq<char>, ins: Seq<char>) -> Seq<
    char,
> {
    scan_from(
        s,
        0,
        pass_m(PassKind::InsertAttrIfAbsent, tag, cond, Seq::empty(), ins, false),
    )
}

/// `s` with `val` merged into the quoted `name="..."` attribute of every
/// matching `<tag ...>` (separator between old and new), or inserted as a
/// fresh attribute when absent.
pub open spec fn merge_attr(
    s: Seq<char>,
    tag: Seq<char>,
    name: Seq<char>,
    sep: Seq<char>,
    val: Seq<char>,
    rs: bool,
) -> Seq<char> {
    scan_from(s, 0, pass_m(PassKind::MergeAttr, tag, name, sep, val, rs))
}

/// Runs a `StripBlock` pass for `tag`.
pub fn run_strip_blocks(s: &Vec<char>, tag: &str) -> (out: Vec<char>)
    ensures
        out@ == strip_blocks(s@, tag@),
{
    let cfg = PassCfg {
        kind: PassKind::StripBlock,
        tag: crate::text::str_to_chars(tag),
        name: Vec::new(),
        sep: Vec::new(),
        val: Vec::new(),
        require_space: false,
    };
    run_pass(&cfg, s)
}

/// Runs a `StripSelfClosing` pass for `tag`.
pub fn run_strip_self_closing(s: &Vec<char>, tag: &str) -> (out: Vec<char>)
    ensures
        out@ == strip_self_closing(s@, tag@),
{
    let cfg = PassCfg {
        kind: PassKind::StripSelfClosing,
        tag: crate::text::str_to_chars(tag),
        name: Vec::new(),
        sep: Vec::new(),
        val: Vec::new(),
        require_space: false,
    };
    run_pass(&cfg, s)
}

/// Runs a `RemoveAttr` pass for `name`.
pub fn run_drop_attr(s: &Vec<char>, name: &str) -> (out: Vec<char>)
    ensures
        out@ == drop_attr(s@, name@),
{
    let cfg = PassCfg {
        kind: PassKind::RemoveAttr,
        tag: Vec::new(),
        name: crate::text::str_to_chars(name),
        sep: Vec::new(),
        val: Vec::new(),
        require_space: false,
    };
    run_pass(&cfg, s)
}

/// Runs a `RemoveLiteral` pass for `lit`.
pub fn run_drop_literal(s: &Vec<char>, lit: &str) -> (out: Vec<char>)
    ensures
        out@ == drop_literal(s@, lit@),
{
    let cfg = PassCfg {
        kind: PassKind::RemoveLiteral,
        tag: Vec::new(),
        name: crate::text::str_to_chars(lit),
        sep: Vec::new(),
        val: Vec::new(),
        require_space: false,
    };
    run_pass(&cfg, s)
}

/// Runs an `InsertAttr` pass for `tag` with the given insertion.
pub fn run_add_attr(s: &Vec<char>, tag: &str, ins: &str) -> (out: Vec<char>)
    ensures
        out@ == add_attr(s@, tag@, ins@),
{
    let cfg = PassCfg {
        kind: PassKind::InsertAttr,
        tag: crate::text::str_to_chars(tag),
        name: Vec::new(),
        sep: Vec::new(),
        val: crate::text::str_to_chars(ins),
        require_space: false,
    };
    run_pass(&cfg, s)
}

/// Runs an `InsertAttrIfAbsent` pass for `tag` with the given condition and
/// insertion.
pub fn run_add_attr_if_absent(s: &Vec<char>, tag: &str, cond: &str, ins: &str) -> (out: Vec<char>)
    ensures
        out@ == add_attr_if_absent(s@, tag@, cond@, ins@),
{
    let cfg = PassCfg {
        kind: PassKind::InsertAttrIfAbsent,
        tag: crate::text::str_to_chars(tag),
        name: crate::text::str_to_chars(cond),
        sep: Vec::new(),
        val: crate::text::str_to_chars(ins),
        require_space: false,
    };
    run_pass(&cfg, s)
}

/// Runs a `MergeAttr` pass for `tag`, merging `val` into the quoted `name`
/// attribute with `sep` between old and new.
pub fn run_merge_attr(
    s: &Vec<char>,
    tag: &str,
    name: &str,
    sep: &str,
    val: &str,
    rs: bool,
) -> (out: Vec<char>)
    ensures
        out@ == merge_attr(s@, tag@, name@, sep@, val@, rs),
{
    let cfg = PassCfg {
        kind: PassKind::MergeAttr,
        tag: crate::text::str_to_chars(tag),
        name: crate::text::str_to_chars(name),
        sep: crate::text::str_to_chars(sep),
        val: crate::text::str_to_chars(val),
        require_space: rs,
    };
    run_pass(&cfg, s)
}


/// `rep` is `orig` with one span of text inserted at a single position:
/// nothing of `orig` is lost or reordered.
pub open spec fn insertion_only(orig: Seq<char>, rep: Seq<char>) -> bool {
    exists|c: int, ins: Seq<char>|
        0 <= c <= orig.len() && rep == #[trigger] (orig.subrange(0, c) + ins + orig.subrange(
            c,
            orig.len() as int,
        ))
}

/// Merging never replaces: whatever a `MergeAttr` pass does to an opening
/// tag, the rewritten tag is the original tag text with one span inserted —
/// an existing quoted attribute value keeps every character it had, the new
/// declarations are appended after it.
pub proof fn lemma_merge_attr_is_insertion(
    s: Seq<char>,
    i: int,
    tag: Seq<char>,
    name: Seq<char>,
    sep: Seq<char>,
    val: Seq<char>,
    rs: bool,
)
    requires
        merge_attr_match(s, i, tag, name, sep, val, rs) is Some,
    ensures
        ({
            let kr = merge_attr_match(s, i, tag, name, sep, val, rs).unwrap();
            insertion_only(s.subrange(i, i + kr.0), kr.1)
        }),
{
    let kr = merge_attr_match(s, i, tag, name, sep, val, rs).unwrap();
    let g = open_tag_gt(s, i, tag, rs).unwrap();
    let open = seq!['<'] + tag;
    assert(matches_at(s, i, open));
    if rs {
        if i + open.len() < s.len() && s[i + open.len()] == '>' {
        } else {
            lemma_find_from_spec(s, i + open.len() + 1, seq!['>']);
        }
    } else {
        lemma_find_from_spec(s, i + open.len(), seq!['>']);
    }
    assert(0 <= i && i < g && g + 1 <= s.len());
    assert(s[g] == '>') by {
        if !(rs && i + open.len() < s.len() && s[i + open.len()] == '>' && g == i + open.len()) {
            assert(matches_at(s, g, seq!['>']));
            assert(s.subrange(g, g + 1)[0] == '>');
        }
    }
    let orig = s.subrange(i, i + kr.0);
    assert(kr.0 == g + 1 - i);
    let a0 = i + 1 + tag.len();
    let attrs = s.subrange(a0, g);
    let name_eq = name + seq!['='];
    let name_q = name + seq!['=', '"'];
    if contains_sub(attrs, name_eq) {
        match find_from(s, a0, name_q) {
            Some(p) => {
                if p + name_q.len() <= g {
                    match find_from(s, p + name_q.len(), seq!['"']) {
                        Some(q) => {
                            if q < g {
                                lemma_find_from_spec(s, a0, name_q);
                                lemma_find_from_spec(s, p + name_q.len(), seq!['"']);
                                let c = q - i;
                                let ins = sep + val;
                                assert(orig.subrange(0, c) =~= s.subrange(i, q));
                                assert(orig.subrange(c, orig.len() as int) =~= s.subrange(
                                    q,
                                    g + 1,
                                ));
                                assert(kr.1 =~= orig.subrange(0, c) + ins + orig.subrange(
                                    c,
                                    orig.len() as int,
                                ));
                            } else {
                                lemma_unchanged_is_insertion(s, i, g, orig, kr.1);
                            }
                        },
                        None => {
                            lemma_unchanged_is_insertion(s, i, g, orig, kr.1);
                        },
                    }
                } else {
                    lemma_unchanged_is_insertion(s, i, g, orig, kr.1);
                }
            },
            None => {
                lemma_unchanged_is_insertion(s, i, g, orig, kr.1);
            },
        }
    } else {
        let c = g - i;
        let ins = seq![' '] + name + seq!['=', '"'] + val + seq!['"'];
        assert(orig.subrange(0, c) =~= s.subrange(i, g));
        assert(orig.subrange(c, orig.len() as int) =~= s.subrange(g, g + 1));
        assert(s.subrange(g, g + 1) =~= seq!['>']);
        assert(kr.1 =~= orig.subrange(0, c) + ins + orig.subrange(c, orig.len() as int));
    }
}

/// An unchanged tag is an insertion of nothing.
proof fn lemma_unchanged_is_insertion(s: Seq<char>, i: int, g: int, orig: Seq<char>, rep: Seq<char>)
    requires
        0 <= i <= g,
        g + 1 <= s.len(),
        orig == s.subrange(i, g + 1),
        rep == s.subrange(i, g + 1),
    ensures
        insertion_only(orig, rep),
{
    let c = 0int;
    let ins = Seq::<char>::empty();
    assert(orig.subrange(0, 0) =~= Seq::<char>::empty());
    assert(orig.subrange(0, orig.len() as int) =~= orig);
    assert(rep =~= orig.subrange(0, c) + ins + orig.subrange(c, orig.len() as int));
}

} // verus!
