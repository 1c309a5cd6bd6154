//! What the platform adapters share: validation records and the aggregate
//! error-message format, and the style-provider interface.

use vstd::prelude::*;

verus! {

use crate::text::lines_view;

/// One finding of a platform's content validation.
#[derive(Debug, Clone)]
pub struct ValidationError {
    /// The content field the finding is about.
    pub field: String,
    /// A human-readable message.
    pub message: String,
    /// How serious the finding is.
    pub severity: ValidationSeverity,
}

/// How serious a validation finding is; only `Error` makes validation fail.
#[derive(Debug, Clone)]
pub enum ValidationSeverity {
    /// Blocks publishing.
    Error,
    /// Informational; never blocks.
    Warning,
    /// Informational; never blocks.
    Info,
}

/// Types that expose a platform's style sheet and can inline it.
pub trait StyleProvider {
    /// The platform's style rules as one CSS text.
    fn get_styles(&self) -> &'static str;

    /// The HTML with the platform's styles applied inline, where the
    /// platform needs that.
    fn apply_inline_styles(&self, html: &str) -> Result<String, crate::Error>;
}

/// The `field: message` lines of the `Error`-severity findings, in order;
/// warnings and notes contribute nothing.
pub open spec fn err_lines(errs: Seq<ValidationError>) -> Seq<Seq<char>>
    decreases errs.len(),
{
    if errs.len() == 0 {
        Seq::empty()
    } else {
        (if errs[0].severity is Error {
            seq![errs[0].field@ + ": "@ + errs[0].message@]
        } else {
            Seq::<Seq<char>>::empty()
        }) + err_lines(errs.drop_first())
    }
}

/// The parts from index `i` on, joined with the separator between them.
pub open spec fn join_from(parts: Seq<Seq<char>>, i: int, sep: Seq<char>) -> Seq<char>
    decreases parts.len() - i,
{
    if i < 0 || i >= parts.len() {
        Seq::empty()
    } else if i == parts.len() - 1 {
        parts[i]
    } else {
        parts[i] + sep + join_from(parts, i + 1, sep)
    }
}

/// All the parts, joined with the separator between them.
pub open spec fn join_with(parts: Seq<Seq<char>>, sep: Seq<char>) -> Seq<char> {
    join_from(parts, 0, sep)
}

/// Joins `parts[i..]` with `sep` between them, as `join_from` describes.
pub fn join_chars_from(parts: &Vec<Vec<char>>, i: usize, sep: &Vec<char>) -> (r: Vec<char>)
    requires
        i <= parts@.len(),
    ensures
        r@ == join_from(lines_view(parts@), i as int, sep@),
    decreases parts@.len() - i,
{
    let mut r: Vec<char> = Vec::new();
    if i >= parts.len() {
        return r;
    }
    crate::text::push_all(&mut r, &parts[i]);
    if i == parts.len() - 1 {
        proof {
            assert(r@ =~= lines_view(parts@)[i as int]);
        }
        return r;
    }
    crate::text::push_all(&mut r, sep);
    let rest = join_chars_from(parts, i + 1, sep);
    crate::text::push_all(&mut r, &rest);
    proof {
        assert(r@ =~= lines_view(parts@)[i as int] + sep@ + join_from(
            lines_view(parts@),
            i + 1,
            sep@,
        ));
    }
    r
}

/// Joins the lines of the `Error`-severity findings with `"; "`, as the
/// aggregate failure message carries them.
pub fn collect_error_lines(errs: &Vec<ValidationError>) -> (r: Vec<Vec<char>>)
    ensures
        lines_view(r@) == err_lines(errs@),
{
    let mut out: Vec<Vec<char>> = Vec::new();
    proof {
        assert(errs@.skip(0) =~= errs@);
        assert(lines_view(out@) =~= Seq::<Seq<char>>::empty());
    }
    let mut k: usize = 0;
    while k < errs.len()
        invariant
            k <= errs@.len(),
            lines_view(out@) + err_lines(errs@.skip(k as int)) == err_lines(errs@),
        decreases errs@.len() - k,
    {
        let ghost prev = lines_view(out@);
        proof {
            assert(errs@.skip(k as int)[0] == errs@[k as int]);
            assert(errs@.skip(k as int).drop_first() =~= errs@.skip(k + 1));
        }
        match errs[k].severity {
            ValidationSeverity::Error => {
                let mut line: Vec<char> = crate::text::str_to_chars(errs[k].field.as_str());
                let sep: Vec<char> = vec![':', ' '];
                proof {
                    assert(sep@ =~= ": "@) by {
                        reveal_strlit(": ");
                    }
                }
                crate::text::push_all(&mut line, &sep);
                let msg = crate::text::str_to_chars(errs[k].message.as_str());
                crate::text::push_all(&mut line, &msg);
                out.push(line);
                proof {
                    assert(lines_view(out@) =~= prev + seq![line@]);
                    assert((prev + seq![line@]) + err_lines(errs@.skip(k + 1)) =~= prev + (seq![
                        line@,
                    ] + err_lines(errs@.skip(k + 1))));
                }
            },
            ValidationSeverity::Warning => {
                proof {
                    assert(prev + (Seq::<Seq<char>>::empty() + err_lines(errs@.skip(k + 1)))
                        =~= prev + err_lines(errs@.skip(k + 1)));
                }
            },
            ValidationSeverity::Info => {
                proof {
                    assert(prev + (Seq::<Seq<char>>::empty() + err_lines(errs@.skip(k + 1)))
                        =~= prev + err_lines(errs@.skip(k + 1)));
                }
            },
        }
        k += 1;
    }
    proof {
        assert(errs@.skip(errs@.len() as int) =~= Seq::<ValidationError>::empty());
        assert(lines_view(out@) + Seq::<Seq<char>>::empty() =~= lines_view(out@));
    }
    out
}


/// Blocking lines distribute over list concatenation.
pub proof fn lemma_err_lines_append(a: Seq<ValidationError>, b: Seq<ValidationError>)
    ensures
        err_lines(a + b) == err_lines(a) + err_lines(b),
    decreases a.len(),
{
    if a.len() == 0 {
        assert(a + b =~= b);
        assert(err_lines(a) == Seq::<Seq<char>>::empty());
        assert(err_lines(a) + err_lines(b) =~= err_lines(b));
    } else {
        assert((a + b).drop_first() =~= a.drop_first() + b);
        assert((a + b)[0] == a[0]);
        lemma_err_lines_append(a.drop_first(), b);
        let head: Seq<Seq<char>> = if a[0].severity is Error {
            seq![a[0].field@ + ": "@ + a[0].message@]
        } else {
            Seq::empty()
        };
        assert(err_lines(a + b) == head + (err_lines(a.drop_first()) + err_lines(b)));
        assert(head + (err_lines(a.drop_first()) + err_lines(b)) =~= (head + err_lines(
            a.drop_first(),
        )) + err_lines(b));
    }
}


/// Appending a non-blocking finding leaves the blocking lines unchanged.
pub proof fn lemma_err_lines_push_warning(e: Seq<ValidationError>, w: ValidationError)
    requires
        !(w.severity is Error),
    ensures
        err_lines(e.push(w)) == err_lines(e),
{
    assert(e.push(w) =~= e + seq![w]);
    lemma_err_lines_append(e, seq![w]);
    assert(seq![w].drop_first() =~= Seq::<ValidationError>::empty());
    assert(err_lines(seq![w].drop_first()) == Seq::<Seq<char>>::empty());
    assert(err_lines(seq![w]) =~= Seq::<Seq<char>>::empty());
    assert(err_lines(e) + Seq::<Seq<char>>::empty() =~= err_lines(e));
}

/// Appending a blocking finding appends exactly its line.
pub proof fn lemma_err_lines_push_error(e: Seq<ValidationError>, v: ValidationError)
    requires
        v.severity is Error,
    ensures
        err_lines(e.push(v)) == err_lines(e) + seq![v.field@ + ": "@ + v.message@],
{
    assert(e.push(v) =~= e + seq![v]);
    lemma_err_lines_append(e, seq![v]);
    assert(seq![v].drop_first() =~= Seq::<ValidationError>::empty());
    assert(err_lines(seq![v].drop_first()) == Seq::<Seq<char>>::empty());
    assert(err_lines(seq![v]) =~= seq![v.field@ + ": "@ + v.message@]);
}

} // verus!
