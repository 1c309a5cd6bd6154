//! Verified text-scanning primitives shared by the front-matter parser, the
//! enrichment pipeline and the platform adapters: substring search, trimming,
//! line splitting, decimal formatting, and conversions between `&str`,
//! `Vec<char>` and `String`.

use vstd::prelude::*;

verus! {

use vstd::string::StrSliceExecFns;

/// Relies on `String::push` from std: appends the given character to the end
/// of the string.
pub assume_specification[ String::push ](s: &mut String, ch: char)
    ensures
        final(s)@ == old(s)@.push(ch),
;

/// `pat` occurs in `s` starting exactly at index `i`.
pub open spec fn matches_at(s: Seq<char>, i: int, pat: Seq<char>) -> bool {
    0 <= i && i + pat.len() <= s.len() && s.subrange(i, i + pat.len()) == pat
}

/// Index of the first occurrence of `pat` in `s` at or after `i`, if any.
pub open spec fn find_from(s: Seq<char>, i: int, pat: Seq<char>) -> Option<int>
    decreases s.len() - i + 1,
{
    if i < 0 || i + pat.len() > s.len() {
        None
    } else if matches_at(s, i, pat) {
        Some(i)
    } else {
        find_from(s, i + 1, pat)
    }
}

/// `pat` occurs somewhere in `s`.
pub open spec fn contains_sub(s: Seq<char>, pat: Seq<char>) -> bool {
    find_from(s, 0, pat) is Some
}

/// What `find_from` returns: the first match at or after `i`, or a guarantee
/// that nothing at or after `i` matches.
pub proof fn lemma_find_from_spec(s: Seq<char>, i: int, pat: Seq<char>)
    requires
        0 <= i,
    ensures
        match find_from(s, i, pat) {
            Some(j) => i <= j && matches_at(s, j, pat) && forall|k: int|
                i <= k < j ==> !matches_at(s, k, pat),
            None => forall|k: int| i <= k ==> !matches_at(s, k, pat),
        },
    decreases s.len() - i + 1,
{
    if i + pat.len() > s.len() {
        assert forall|k: int| i <= k implies !matches_at(s, k, pat) by {
            assert(k + pat.len() >= i + pat.len());
        }
    } else if matches_at(s, i, pat) {
    } else {
        lemma_find_from_spec(s, i + 1, pat);
    }
}

/// Whether `pat` occurs at index `i` of `s`.
pub fn starts_with_at(s: &Vec<char>, i: usize, pat: &Vec<char>) -> (b: bool)
    requires
        i <= s@.len(),
    ensures
        b == matches_at(s@, i as int, pat@),
{
    let n = s.len();
    if n - i < pat.len() {
        return false;
    }
    let mut j: usize = 0;
    while j < pat.len()
        invariant
            n == s@.len(),
            i + pat@.len() <= n,
            j <= pat@.len(),
            forall|k: int| 0 <= k < j ==> s@[i + k] == pat@[k],
        decreases pat@.len() - j,
    {
        if s[i + j] != pat[j] {
            proof {
                if matches_at(s@, i as int, pat@) {
                    assert(s@.subrange(i as int, i + pat@.len())[j as int] == pat@[j as int]);
                }
            }
            return false;
        }
        j += 1;
    }
    proof {
        assert(s@.subrange(i as int, i + pat@.len()) =~= pat@);
    }
    true
}

/// First occurrence of `pat` in `s` at or after `from`, as `find_from` gives it.
pub fn find_pat_from(s: &Vec<char>, from: usize, pat: &Vec<char>) -> (r: Option<usize>)
    requires
        from <= s@.len(),
    ensures
        match r {
            Some(j) => from <= j <= s@.len() && find_from(s@, from as int, pat@) == Some(
                j as int,
            ),
            None => find_from(s@, from as int, pat@) is None,
        },
{
    let n = s.len();
    let mut j: usize = from;
    loop
        invariant
            n == s@.len(),
            from <= j <= s@.len(),
            find_from(s@, from as int, pat@) == find_from(s@, j as int, pat@),
        decreases s@.len() - j,
    {
        if n - j < pat.len() {
            return None;
        }
        if starts_with_at(s, j, pat) {
            return Some(j);
        }
        proof {
            if pat@.len() == 0 {
                assert(s@.subrange(j as int, j as int) =~= pat@);
            }
        }
        j += 1;
    }
}

/// Whether `pat` occurs anywhere in `s`.
pub fn contains_pat(s: &Vec<char>, pat: &Vec<char>) -> (b: bool)
    ensures
        b == contains_sub(s@, pat@),
{
    find_pat_from(s, 0, pat).is_some()
}

/// The characters of `s`, in order.
pub fn str_to_chars(s: &str) -> (v: Vec<char>)
    ensures
        v@ == s@,
{
    let n = s.unicode_len();
    let mut v: Vec<char> = Vec::new();
    let mut i: usize = 0;
    while i < n
        invariant
            n == s@.len(),
            i <= n,
            v@ == s@.subrange(0, i as int),
        decreases n - i,
    {
        v.push(s.get_char(i));
        proof {
            assert(v@ =~= s@.subrange(0, i + 1));
        }
        i += 1;
    }
    proof {
        assert(v@ =~= s@);
    }
    v
}

/// A `String` whose characters are exactly `v`.
pub fn chars_to_string(v: &Vec<char>) -> (s: String)
    ensures
        s@ == v@,
{
    let mut s = String::new();
    let mut i: usize = 0;
    while i < v.len()
        invariant
            i <= v@.len(),
            s@ == v@.subrange(0, i as int),
        decreases v@.len() - i,
    {
        s.push(v[i]);
        proof {
            assert(s@ =~= v@.subrange(0, i + 1));
        }
        i += 1;
    }
    proof {
        assert(s@ =~= v@);
    }
    s
}

/// Appends a copy of `src` to `dst`.
pub fn push_all(dst: &mut Vec<char>, src: &Vec<char>)
    ensures
        final(dst)@ == old(dst)@ + src@,
{
    let mut k: usize = 0;
    while k < src.len()
        invariant
            k <= src@.len(),
            dst@ == old(dst)@ + src@.subrange(0, k as int),
        decreases src@.len() - k,
    {
        dst.push(src[k]);
        proof {
            assert(dst@ =~= old(dst)@ + src@.subrange(0, k + 1));
        }
        k += 1;
    }
    proof {
        assert(dst@ =~= old(dst)@ + src@);
    }
}

/// Appends a copy of `src[from..to]` to `dst`.
pub fn push_range(dst: &mut Vec<char>, src: &Vec<char>, from: usize, to: usize)
    requires
        from <= to <= src@.len(),
    ensures
        final(dst)@ == old(dst)@ + src@.subrange(from as int, to as int),
{
    let mut k: usize = from;
    while k < to
        invariant
            from <= k <= to <= src@.len(),
            dst@ == old(dst)@ + src@.subrange(from as int, k as int),
        decreases to - k,
    {
        dst.push(src[k]);
        proof {
            assert(dst@ =~= old(dst)@ + src@.subrange(from as int, k + 1));
        }
        k += 1;
    }
}

/// The character for a single decimal digit.
pub open spec fn digit_char(d: int) -> char {
    if d == 0 {
        '0'
    } else if d == 1 {
        '1'
    } else if d == 2 {
        '2'
    } else if d == 3 {
        '3'
    } else if d == 4 {
        '4'
    } else if d == 5 {
        '5'
    } else if d == 6 {
        '6'
    } else if d == 7 {
        '7'
    } else if d == 8 {
        '8'
    } else {
        '9'
    }
}

/// The usual decimal rendering of a non-negative integer.
pub open spec fn dec_str(n: int) -> Seq<char>
    decreases n,
{
    if n < 10 {
        seq![digit_char(n)]
    } else {
        dec_str(n / 10).push(digit_char(n % 10))
    }
}

/// The decimal digits of `n`.
pub fn u64_to_dec_chars(n: u64) -> (v: Vec<char>)
    ensures
        v@ == dec_str(n as int),
    decreases n,
{
    let d: u64 = n % 10;
    let c: char = if d == 0 {
        '0'
    } else if d == 1 {
        '1'
    } else if d == 2 {
        '2'
    } else if d == 3 {
        '3'
    } else if d == 4 {
        '4'
    } else if d == 5 {
        '5'
    } else if d == 6 {
        '6'
    } else if d == 7 {
        '7'
    } else if d == 8 {
        '8'
    } else {
        '9'
    };
    if n < 10 {
        let mut v: Vec<char> = Vec::new();
        v.push(c);
        proof {
            assert(v@ =~= dec_str(n as int));
        }
        v
    } else {
        let mut v = u64_to_dec_chars(n / 10);
        v.push(c);
        proof {
            assert(v@ =~= dec_str(n as int));
        }
        v
    }
}

/// The whitespace characters recognised by trimming and line handling:
/// space, tab, line feed, carriage return, vertical tab and form feed.
pub open spec fn is_space_char(c: char) -> bool {
    c == ' ' || c == '\t' || c == '\n' || c == '\r' || c == '\u{b}' || c == '\u{c}'
}

/// Whether `c` is one of the recognised whitespace characters.
pub fn is_space(c: char) -> (b: bool)
    ensures
        b == is_space_char(c),
{
    c == ' ' || c == '\t' || c == '\n' || c == '\r' || c == '\u{b}' || c == '\u{c}'
}

/// `s` without leading whitespace.
pub open spec fn trim_start_spec(s: Seq<char>) -> Seq<char>
    decreases s.len(),
{
    if s.len() > 0 && is_space_char(s[0]) {
        trim_start_spec(s.skip(1))
    } else {
        s
    }
}

/// `s` without trailing whitespace.
pub open spec fn trim_end_spec(s: Seq<char>) -> Seq<char>
    decreases s.len(),
{
    if s.len() > 0 && is_space_char(s[s.len() - 1]) {
        trim_end_spec(s.take(s.len() - 1))
    } else {
        s
    }
}

/// `s` without leading or trailing whitespace.
pub open spec fn trim_spec(s: Seq<char>) -> Seq<char> {
    trim_end_spec(trim_start_spec(s))
}

/// The trimmed copy of `v`.
pub fn trim_chars(v: &Vec<char>) -> (r: Vec<char>)
    ensures
        r@ == trim_spec(v@),
{
    proof {
        assert(v@.skip(0) =~= v@);
    }
    let mut a: usize = 0;
    while a < v.len() && is_space(v[a])
        invariant
            a <= v@.len(),
            trim_start_spec(v@) == trim_start_spec(v@.skip(a as int)),
        decreases v@.len() - a,
    {
        proof {
            assert(v@.skip(a as int).skip(1) =~= v@.skip(a + 1));
        }
        a += 1;
    }
    proof {
        assert(trim_start_spec(v@) == v@.skip(a as int));
        assert(v@.skip(a as int) =~= v@.subrange(a as int, v@.len() as int));
    }
    let mut b: usize = v.len();
    while b > a && is_space(v[b - 1])
        invariant
            a <= b <= v@.len(),
            trim_end_spec(v@.skip(a as int)) == trim_end_spec(v@.subrange(a as int, b as int)),
        decreases b,
    {
        proof {
            let u = v@.subrange(a as int, b as int);
            assert(u[u.len() - 1] == v@[b - 1]);
            assert(u.take(u.len() - 1) =~= v@.subrange(a as int, b - 1));
        }
        b -= 1;
    }
    proof {
        let u = v@.subrange(a as int, b as int);
        if u.len() > 0 {
            assert(u[u.len() - 1] == v@[b - 1]);
        }
        assert(trim_end_spec(u) == u);
        assert(v@.skip(a as int) =~= v@.subrange(a as int, v@.len() as int));
    }
    let mut r: Vec<char> = Vec::new();
    push_range(&mut r, v, a, b);
    r
}

/// `s` without leading double-quote characters.
pub open spec fn trim_start_quotes(s: Seq<char>) -> Seq<char>
    decreases s.len(),
{
    if s.len() > 0 && s[0] == '"' {
        trim_start_quotes(s.skip(1))
    } else {
        s
    }
}

/// `s` without trailing double-quote characters.
pub open spec fn trim_end_quotes(s: Seq<char>) -> Seq<char>
    decreases s.len(),
{
    if s.len() > 0 && s[s.len() - 1] == '"' {
        trim_end_quotes(s.take(s.len() - 1))
    } else {
        s
    }
}

/// `s` without leading or trailing double-quote characters.
pub open spec fn trim_quotes_spec(s: Seq<char>) -> Seq<char> {
    trim_end_quotes(trim_start_quotes(s))
}

/// The copy of `v` with surrounding double quotes removed.
pub fn trim_quote_chars(v: &Vec<char>) -> (r: Vec<char>)
    ensures
        r@ == trim_quotes_spec(v@),
{
    proof {
        assert(v@.skip(0) =~= v@);
    }
    let mut a: usize = 0;
    while a < v.len() && v[a] == '"'
        invariant
            a <= v@.len(),
            trim_start_quotes(v@) == trim_start_quotes(v@.skip(a as int)),
        decreases v@.len() - a,
    {
        proof {
            assert(v@.skip(a as int).skip(1) =~= v@.skip(a + 1));
        }
        a += 1;
    }
    proof {
        assert(trim_start_quotes(v@) == v@.skip(a as int));
        assert(v@.skip(a as int) =~= v@.subrange(a as int, v@.len() as int));
    }
    let mut b: usize = v.len();
    while b > a && v[b - 1] == '"'
        invariant
            a <= b <= v@.len(),
            trim_end_quotes(v@.skip(a as int)) == trim_end_quotes(
                v@.subrange(a as int, b as int),
            ),
        decreases b,
    {
        proof {
            let u = v@.subrange(a as int, b as int);
            assert(u[u.len() - 1] == v@[b - 1]);
            assert(u.take(u.len() - 1) =~= v@.subrange(a as int, b - 1));
        }
        b -= 1;
    }
    proof {
        let u = v@.subrange(a as int, b as int);
        if u.len() > 0 {
            assert(u[u.len() - 1] == v@[b - 1]);
        }
        assert(trim_end_quotes(u) == u);
        assert(v@.skip(a as int) =~= v@.subrange(a as int, v@.len() as int));
    }
    let mut r: Vec<char> = Vec::new();
    push_range(&mut r, v, a, b);
    r
}

/// A line with a trailing carriage return removed, as std's line splitting
/// does it.
pub open spec fn strip_cr(l: Seq<char>) -> Seq<char> {
    if l.len() > 0 && l[l.len() - 1] == '\r' {
        l.take(l.len() - 1)
    } else {
        l
    }
}

/// The lines of `s` from index `i` on, split at line feeds, each with a
/// trailing carriage return removed; a trailing line terminator yields no
/// final empty line.
pub open spec fn split_lines_from(s: Seq<char>, i: int) -> Seq<Seq<char>>
    decreases s.len() - i,
{
    if i < 0 || i >= s.len() {
        Seq::empty()
    } else {
        match find_from(s, i, seq!['\n']) {
            Some(j) => if i <= j < s.len() {
                seq![strip_cr(s.subrange(i, j))] + split_lines_from(s, j + 1)
            } else {
                Seq::empty()
            },
            None => seq![strip_cr(s.subrange(i, s.len() as int))],
        }
    }
}

/// The lines of `s`.
pub open spec fn split_lines(s: Seq<char>) -> Seq<Seq<char>> {
    split_lines_from(s, 0)
}

/// The views of a list of character vectors.
pub open spec fn lines_view(r: Seq<Vec<char>>) -> Seq<Seq<char>> {
    r.map(|i: int, l: Vec<char>| l@)
}

/// The lines of `v`, split as `split_lines` describes.
pub fn split_lines_exec(v: &Vec<char>) -> (r: Vec<Vec<char>>)
    ensures
        lines_view(r@) == split_lines(v@),
{
    let nl: Vec<char> = vec!['\n'];
    let mut out: Vec<Vec<char>> = Vec::new();
    let mut pos: usize = 0;
    while pos < v.len()
        invariant
            pos <= v@.len(),
            nl@ =~= seq!['\n'],
            lines_view(out@) + split_lines_from(v@, pos as int) == split_lines_from(v@, 0),
        decreases v@.len() - pos,
    {
        let ghost prev = lines_view(out@);
        match find_pat_from(v, pos, &nl) {
            Some(j) => {
                proof {
                    lemma_find_from_spec(v@, pos as int, nl@);
                    assert(matches_at(v@, j as int, nl@));
                }
                let mut line: Vec<char> = Vec::new();
                let end: usize = if j > pos && v[j - 1] == '\r' {
                    j - 1
                } else {
                    j
                };
                push_range(&mut line, v, pos, end);
                proof {
                    assert(line@ =~= strip_cr(v@.subrange(pos as int, j as int)));
                }
                out.push(line);
                proof {
                    assert(lines_view(out@) =~= prev + seq![line@]);
                    assert(split_lines_from(v@, pos as int) == seq![
                        strip_cr(v@.subrange(pos as int, j as int)),
                    ] + split_lines_from(v@, j + 1));
                    assert((prev + seq![line@]) + split_lines_from(v@, j + 1) =~= prev + (seq![
                        line@,
                    ] + split_lines_from(v@, j + 1)));
                }
                pos = j + 1;
            },
            None => {
                let mut line: Vec<char> = Vec::new();
                let end: usize = if v[v.len() - 1] == '\r' {
                    v.len() - 1
                } else {
                    v.len()
                };
                push_range(&mut line, v, pos, end);
                proof {
                    assert(line@ =~= strip_cr(v@.subrange(pos as int, v@.len() as int)));
                }
                out.push(line);
                proof {
                    assert(lines_view(out@) =~= prev + seq![line@]);
                    assert(split_lines_from(v@, pos as int) == seq![
                        strip_cr(v@.subrange(pos as int, v@.len() as int)),
                    ]);
                    assert((prev + seq![line@]) + Seq::<Seq<char>>::empty() =~= prev + (seq![
                        line@,
                    ] + Seq::<Seq<char>>::empty()));
                }
                pos = v.len();
            },
        }
    }
    proof {
        assert(lines_view(out@) + split_lines_from(v@, pos as int) =~= lines_view(out@));
    }
    out
}


/// What `str::to_lowercase` returns; the result depends on the characters
/// alone.
pub uninterp spec fn lower_of(s: Seq<char>) -> Seq<char>;

/// Relies on `str::to_lowercase`: the lowercase form of the text, a function
/// of its characters alone; an empty string stays empty.
#[verifier::external_body]
pub fn lowercase(s: &str) -> (r: String)
    ensures
        r@ == lower_of(s@),
        s@.len() == 0 ==> r@.len() == 0,
{
    s.to_lowercase()
}

/// Whether two string slices hold the same characters.
pub fn str_eq(a: &str, b: &str) -> (r: bool)
    ensures
        r == (a@ == b@),
{
    let n = a.unicode_len();
    if n != b.unicode_len() {
        return false;
    }
    let mut i: usize = 0;
    while i < n
        invariant
            n == a@.len() == b@.len(),
            i <= n,
            forall|k: int| 0 <= k < i ==> a@[k] == b@[k],
        decreases n - i,
    {
        if a.get_char(i) != b.get_char(i) {
            return false;
        }
        i += 1;
    }
    proof {
        assert(a@ =~= b@);
    }
    true
}

/// The views of a list of string pairs.
pub open spec fn pairs_view(r: Seq<(String, String)>) -> Seq<(Seq<char>, Seq<char>)> {
    r.map(|i: int, p: (String, String)| (p.0@, p.1@))
}

/// The value bound to `k` in an association list, the last binding winning,
/// as repeated inserts into a map would leave it.
pub open spec fn lookup_pair(m: Seq<(Seq<char>, Seq<char>)>, k: Seq<char>) -> Option<Seq<char>>
    decreases m.len(),
{
    if m.len() == 0 {
        None
    } else if m.last().0 == k {
        Some(m.last().1)
    } else {
        lookup_pair(m.drop_last(), k)
    }
}

/// Looks `key` up in an association list of strings, the last binding
/// winning.
pub fn lookup_pair_exec<'a>(m: &'a Vec<(String, String)>, key: &str) -> (r: Option<&'a String>)
    ensures
        match r {
            Some(v) => lookup_pair(pairs_view(m@), key@) == Some(v@),
            None => lookup_pair(pairs_view(m@), key@) is None,
        },
{
    proof {
        assert(pairs_view(m@).subrange(0, m@.len() as int) =~= pairs_view(m@));
    }
    let mut i: usize = m.len();
    while i > 0
        invariant
            i <= m@.len(),
            lookup_pair(pairs_view(m@), key@) == lookup_pair(
                pairs_view(m@).subrange(0, i as int),
                key@,
            ),
        decreases i,
    {
        i -= 1;
        if str_eq(m[i].0.as_str(), key) {
            proof {
                let pv = pairs_view(m@).subrange(0, i + 1);
                assert(pv.last() == (m@[i as int].0@, m@[i as int].1@));
            }
            return Some(&m[i].1);
        }
        proof {
            let pv = pairs_view(m@).subrange(0, i + 1);
            assert(pv.last() == (m@[i as int].0@, m@[i as int].1@));
            assert(pv.drop_last() =~= pairs_view(m@).subrange(0, i as int));
        }
    }
    proof {
        assert(pairs_view(m@).subrange(0, 0) =~= Seq::<(Seq<char>, Seq<char>)>::empty());
    }
    None
}

} // verus!
