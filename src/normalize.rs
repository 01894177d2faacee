//! Rewriting of backend output into source that builds without the host's
//! standard library.
use vstd::prelude::*;
use crate::text::{
    chars_of, push_all, push_char, push_range, push_upper_range, matches_at, skip_whitespace,
    is_ws, starts_with, trim, trim_bounds, trim_end, trim_start, upper,
};

verus! {

/// The prefix of a constant declaration line.
pub const CONSTANT_PREFIX: &'static str = "public constant ";

/// Index of the first `c` in `s`, or -1 where `s` holds none.
pub open spec fn find_char(s: Seq<char>, c: char) -> int
    decreases s.len(),
{
    if s.len() == 0 {
        -1
    } else if s[0] == c {
        0
    } else {
        let r = find_char(s.drop_first(), c);
        if r < 0 {
            -1
        } else {
            r + 1
        }
    }
}

proof fn lemma_find_char(s: Seq<char>, c: char, k: int)
    requires
        0 <= k <= s.len(),
        forall|j: int| 0 <= j < k ==> s[j] != c,
        k < s.len() ==> s[k] == c,
    ensures
        find_char(s, c) == (if k < s.len() { k } else { -1 }),
    decreases s.len(),
{
    if s.len() > 0 && s[0] != c {
        lemma_find_char(s.drop_first(), c, k - 1);
    }
}

/// Position of the first `c` in `v[lo..hi]`, counted from `lo`, or `hi` if none.
fn find_in(v: &Vec<char>, lo: usize, hi: usize, c: char) -> (r: usize)
    requires
        lo <= hi <= v@.len(),
    ensures
        lo <= r <= hi,
        find_char(v@.subrange(lo as int, hi as int), c) == (if r < hi { r - lo } else { -1 }),
{
    let mut i: usize = lo;
    while i < hi && v[i] != c
        invariant
            lo <= i <= hi <= v@.len(),
            forall|j: int| lo <= j < i ==> v@[j] != c,
        decreases hi - i,
    {
        i = i + 1;
    }
    proof {
        lemma_find_char(v@.subrange(lo as int, hi as int), c, i - lo);
    }
    i
}

/// Appends every character of `t` to `out`.
fn extend(out: &mut Vec<char>, t: &Vec<char>)
    ensures
        final(out)@ == old(out)@ + t@,
{
    let mut k: usize = 0;
    while k < t.len()
        invariant
            k <= t@.len(),
            out@ == old(out)@ + t@.take(k as int),
        decreases t@.len() - k,
    {
        out.push(t[k]);
        assert(t@.take(k + 1) == t@.take(k as int).push(t@[k as int]));
        k = k + 1;
    }
    assert(t@.take(t@.len() as int) == t@);
}

/// Every non-overlapping occurrence of `from` in `s`, taken from the left,
/// replaced by `to`.
pub open spec fn replace_all(s: Seq<char>, from: Seq<char>, to: Seq<char>) -> Seq<char>
    decreases s.len(),
{
    if s.len() == 0 || from.len() == 0 {
        s
    } else if starts_with(s, from) {
        to + replace_all(s.skip(from.len() as int), from, to)
    } else {
        seq![s[0]] + replace_all(s.drop_first(), from, to)
    }
}

/// `s` with every occurrence of `from` replaced by `to`, left to right.
pub fn replace(s: &Vec<char>, from: &str, to: &str) -> (r: Vec<char>)
    requires
        from@.len() > 0,
    ensures
        r@ == replace_all(s@, from@, to@),
{
    let f = chars_of(from);
    let t = chars_of(to);
    let n = s.len();
    let mut out: Vec<char> = Vec::new();
    let mut i: usize = 0;
    assert(s@.subrange(0, n as int) == s@);
    assert(out@ + replace_all(s@, f@, t@) == replace_all(s@, f@, t@));
    while i < n
        invariant
            n == s@.len(),
            i <= n,
            f@ == from@,
            t@ == to@,
            f@.len() > 0,
            out@ + replace_all(s@.subrange(i as int, n as int), f@, t@) == replace_all(s@, f@, t@),
        decreases n - i,
    {
        let ghost rest = s@.subrange(i as int, n as int);
        if matches_at(s, i, &f) {
            let ghost before = out@;
            extend(&mut out, &t);
            assert(rest.skip(f@.len() as int) == s@.subrange(i + f@.len(), n as int));
            assert(before + (t@ + replace_all(s@.subrange(i + f@.len(), n as int), f@, t@)) == out@
                + replace_all(s@.subrange(i + f@.len(), n as int), f@, t@));
            i = i + f.len();
        } else {
            assert(rest.drop_first() == s@.subrange(i + 1, n as int));
            let ghost before = out@;
            out.push(s[i]);
            assert(before + (seq![s@[i as int]] + replace_all(s@.subrange(i + 1, n as int), f@, t@)) == out@
                + replace_all(s@.subrange(i + 1, n as int), f@, t@));
            i = i + 1;
        }
    }
    assert(replace_all(s@.subrange(n as int, n as int), f@, t@) == Seq::<char>::empty());
    out
}

/// A line after the constant rewrite: a line that begins with
/// `CONSTANT_PREFIX` and holds a colon after it keeps the prefix, then the
/// name before the first colon, trimmed and in upper case, then the colon
/// and the rest with no whitespace before it. Every other line is kept as it
/// is.
pub open spec fn rewrite_line(l: Seq<char>) -> Seq<char> {
    let p = CONSTANT_PREFIX@;
    if starts_with(l, p) {
        let rest = l.skip(p.len() as int);
        let k = find_char(rest, ':');
        if 0 <= k < rest.len() {
            p + upper(trim(rest.take(k))) + seq![':'] + trim_start(rest.skip(k + 1))
        } else {
            l
        }
    } else {
        l
    }
}

/// A line without the carriage return that ends it, if any.
pub open spec fn strip_cr(l: Seq<char>) -> Seq<char> {
    if l.len() > 0 && l.last() == '\r' {
        l.drop_last()
    } else {
        l
    }
}

/// `s` split into lines, each line rewritten by `rewrite_line`, and the lines
/// joined again with newlines. A line ends at a newline, or at a carriage
/// return and newline, which are not part of it; a final newline does not
/// begin another line.
pub open spec fn rewrite_lines(s: Seq<char>) -> Seq<char>
    decreases s.len(),
{
    let k = find_char(s, '\n');
    if 0 <= k < s.len() {
        let rest = s.skip(k + 1);
        rewrite_line(strip_cr(s.take(k))) + if rest.len() == 0 {
            Seq::empty()
        } else {
            seq!['\n'] + rewrite_lines(rest)
        }
    } else {
        rewrite_line(s)
    }
}

/// References to the host's standard library replaced by their freestanding
/// counterparts, in table order.
pub open spec fn std_to_core(s: Seq<char>) -> Seq<char> {
    replace_all(replace_all(s, "::std::os::raw::"@, "::core::ffi::"@), "::std::"@, "::core::"@)
}

/// Backend output after both normalisation stages.
pub open spec fn normalized(s: Seq<char>) -> Seq<char> {
    rewrite_lines(std_to_core(s))
}

/// Appends `rewrite_line(v[lo..hi])` to `out`.
fn push_rewritten_line(out: &mut String, v: &Vec<char>, lo: usize, hi: usize)
    requires
        lo <= hi <= v@.len(),
    ensures
        final(out)@ == old(out)@ + rewrite_line(v@.subrange(lo as int, hi as int)),
{
    let ghost l = v@.subrange(lo as int, hi as int);
    let p = chars_of(CONSTANT_PREFIX);
    let plen = p.len();
    if plen <= hi - lo {
        assert(v@.subrange(lo as int, v@.len() as int).take(plen as int) == l.take(plen as int));
    }
    if plen <= hi - lo && matches_at(v, lo, &p) {
        let ghost rest = l.skip(plen as int);
        assert(rest == v@.subrange(lo + plen, hi as int));
        let c = find_in(v, lo + plen, hi, ':');
        if c < hi {
            let (a, b) = trim_bounds(v, lo + plen, c);
            assert(rest.take(c - lo - plen) == v@.subrange(lo + plen, c as int));
            assert(rest.skip(c - lo - plen + 1) == v@.subrange(c + 1, hi as int));
            let ghost before = out@;
            push_all(out, &p);
            push_upper_range(out, v, a, b);
            push_char(out, ':');
            let t = skip_whitespace(v, c + 1, hi);
            push_range(out, v, t, hi);
            assert(out@ == before + (p@ + upper(trim(rest.take(c - lo - plen))) + seq![':']
                + trim_start(rest.skip(c - lo - plen + 1))));
        } else {
            push_range(out, v, lo, hi);
        }
    } else {
        push_range(out, v, lo, hi);
    }
}

/// The constant rewrite applied to a single line.
pub fn rewrite_constant_line(line: &str) -> (r: String)
    ensures
        r@ == rewrite_line(line@),
{
    let v = chars_of(line);
    let mut out = String::new();
    push_rewritten_line(&mut out, &v, 0, v.len());
    assert(v@.subrange(0, v@.len() as int) == v@);
    out
}

/// The constant rewrite applied to every line of `v`.
pub fn rewrite_all_lines(v: &Vec<char>) -> (r: String)
    ensures
        r@ == rewrite_lines(v@),
{
    let n = v.len();
    let mut out = String::new();
    let mut start: usize = 0;
    let mut done = false;
    assert(v@.subrange(0, n as int) == v@);
    while !done
        invariant
            n == v@.len(),
            start <= n,
            !done ==> out@ + rewrite_lines(v@.subrange(start as int, n as int)) == rewrite_lines(v@),
            done ==> out@ == rewrite_lines(v@),
        decreases n - start + (if done { 0int } else { 1int }),
    {
        let ghost rest = v@.subrange(start as int, n as int);
        let ghost before = out@;
        let e = find_in(v, start, n, '\n');
        if e < n {
            assert(rest.take(e - start) == v@.subrange(start as int, e as int));
            assert(rest.skip(e - start + 1) == v@.subrange(e + 1, n as int));
            let le = if e > start && v[e - 1] == '\r' {
                e - 1
            } else {
                e
            };
            assert(strip_cr(v@.subrange(start as int, e as int)) == v@.subrange(start as int, le as int));
            push_rewritten_line(&mut out, v, start, le);
            if e + 1 < n {
                push_char(&mut out, '\n');
                assert(before + (rewrite_line(v@.subrange(start as int, le as int)) + (seq!['\n']
                    + rewrite_lines(v@.subrange(e + 1, n as int)))) == out@ + rewrite_lines(
                    v@.subrange(e + 1, n as int),
                ));
                start = e + 1;
            } else {
                assert(v@.subrange(e + 1, n as int).len() == 0);
                assert(before + (rewrite_line(v@.subrange(start as int, le as int)) + Seq::<char>::empty())
                    == out@);
                done = true;
            }
        } else {
            push_rewritten_line(&mut out, v, start, n);
            done = true;
        }
    }
    out
}

/// Backend output made freestanding: the replacement table applied in order,
/// then the constant rewrite on every line.
pub fn normalize_bindings(contents: String) -> (r: String)
    ensures
        r@ == normalized(contents@),
{
    proof {
        reveal_strlit("::std::os::raw::");
        reveal_strlit("::std::");
    }
    let v = chars_of(contents.as_str());
    let v1 = replace(&v, "::std::os::raw::", "::core::ffi::");
    let v2 = replace(&v1, "::std::", "::core::");
    rewrite_all_lines(&v2)
}

/// `s` without any trailing newlines.
pub open spec fn strip_newlines(s: Seq<char>) -> Seq<char>
    decreases s.len(),
{
    if s.len() > 0 && s.last() == '\n' {
        strip_newlines(s.drop_last())
    } else {
        s
    }
}

/// `s` ending in exactly one newline.
pub open spec fn single_newline(s: Seq<char>) -> Seq<char> {
    strip_newlines(s).push('\n')
}

/// `s` with a newline added unless it already ends in one.
pub open spec fn terminated(s: Seq<char>) -> Seq<char> {
    if s.len() > 0 && s.last() == '\n' {
        s
    } else {
        s.push('\n')
    }
}

/// `s` made to end in exactly one newline.
pub fn with_single_newline(s: &str) -> (r: String)
    ensures
        r@ == single_newline(s@),
{
    let v = chars_of(s);
    let mut e: usize = v.len();
    assert(v@.subrange(0, e as int) == v@);
    while e > 0 && v[e - 1] == '\n'
        invariant
            e <= v@.len(),
            strip_newlines(v@) == strip_newlines(v@.subrange(0, e as int)),
        decreases e,
    {
        assert(v@.subrange(0, e as int).drop_last() == v@.subrange(0, e - 1));
        e = e - 1;
    }
    let mut out = String::new();
    push_range(&mut out, &v, 0, e);
    push_char(&mut out, '\n');
    out
}

/// `s` with a newline added unless it already ends in one.
pub fn terminate(s: String) -> (r: String)
    ensures
        r@ == terminated(s@),
{
    let v = chars_of(s.as_str());
    if v.len() > 0 && v[v.len() - 1] == '\n' {
        s
    } else {
        let mut out = s;
        push_char(&mut out, '\n');
        out
    }
}

/// The name the backend gives a declared item: a variable's name in ASCII
/// upper case, `None` to keep the backend's own name for any other item.
pub fn constant_item_name(name: &str, is_variable: bool) -> (r: Option<String>)
    ensures
        is_variable ==> r is Some && r->Some_0@ == upper(name@),
        !is_variable ==> r is None,
{
    if is_variable {
        let v = chars_of(name);
        let mut out = String::new();
        push_upper_range(&mut out, &v, 0, v.len());
        assert(v@.subrange(0, v@.len() as int) == v@);
        assert(Seq::<char>::empty() + upper(v@) == upper(v@));
        Some(out)
    } else {
        None
    }
}

/// `s` holds no newline.
pub open spec fn no_newline(s: Seq<char>) -> bool {
    forall|i: int| 0 <= i < s.len() ==> s[i] != '\n'
}

/// The lines of `s`, as `rewrite_lines` splits them.
pub open spec fn split_lines(s: Seq<char>) -> Seq<Seq<char>>
    decreases s.len(),
{
    let k = find_char(s, '\n');
    if 0 <= k < s.len() {
        let rest = s.skip(k + 1);
        if rest.len() == 0 {
            seq![strip_cr(s.take(k))]
        } else {
            seq![strip_cr(s.take(k))] + split_lines(rest)
        }
    } else {
        seq![s]
    }
}

/// `ls` joined with one newline between neighbours.
pub open spec fn join_lines(ls: Seq<Seq<char>>) -> Seq<char>
    decreases ls.len(),
{
    if ls.len() == 0 {
        Seq::empty()
    } else if ls.len() == 1 {
        ls[0]
    } else {
        ls[0] + seq!['\n'] + join_lines(ls.drop_first())
    }
}

proof fn lemma_find_char_first(s: Seq<char>, c: char)
    ensures
        -1 <= find_char(s, c) < s.len(),
        0 <= find_char(s, c) ==> s[find_char(s, c)] == c,
        forall|j: int| 0 <= j < s.len() && (find_char(s, c) < 0 || j < find_char(s, c)) ==> s[j] != c,
    decreases s.len(),
{
    if s.len() > 0 && s[0] != c {
        lemma_find_char_first(s.drop_first(), c);
        assert forall|j: int| 0 < j < s.len() implies s[j] == s.drop_first()[j - 1] by {}
    }
}

proof fn lemma_trim_start_suffix(s: Seq<char>)
    ensures
        trim_start(s).len() <= s.len(),
        forall|i: int|
            0 <= i < trim_start(s).len() ==> #[trigger] trim_start(s)[i] == s[i + s.len()
                - trim_start(s).len()],
    decreases s.len(),
{
    if s.len() > 0 && is_ws(s[0]) {
        lemma_trim_start_suffix(s.drop_first());
    }
}

proof fn lemma_trim_end_prefix(s: Seq<char>)
    ensures
        trim_end(s).len() <= s.len(),
        forall|i: int| 0 <= i < trim_end(s).len() ==> #[trigger] trim_end(s)[i] == s[i],
    decreases s.len(),
{
    if s.len() > 0 && is_ws(s.last()) {
        lemma_trim_end_prefix(s.drop_last());
    }
}

proof fn lemma_rewrite_line_no_newline(l: Seq<char>)
    requires
        no_newline(l),
    ensures
        no_newline(rewrite_line(l)),
{
    reveal_strlit("public constant ");
    let p = CONSTANT_PREFIX@;
    if starts_with(l, p) {
        let rest = l.skip(p.len() as int);
        let k = find_char(rest, ':');
        if 0 <= k < rest.len() {
            let name = rest.take(k);
            lemma_trim_start_suffix(name);
            lemma_trim_end_prefix(trim_start(name));
            let t = rest.skip(k + 1);
            lemma_trim_start_suffix(t);
            let u = upper(trim(name));
            assert forall|i: int| 0 <= i < u.len() implies u[i] != '\n' by {
                let ts = trim_start(name);
                assert(trim(name)[i] == ts[i]);
                assert(ts[i] == name[i + name.len() - ts.len()]);
                assert(name[i + name.len() - ts.len()] == l[p.len() + i + name.len() - ts.len()]);
            }
            assert forall|i: int| 0 <= i < trim_start(t).len() implies trim_start(t)[i] != '\n' by {
                let j = i + t.len() - trim_start(t).len();
                assert(trim_start(t)[i] == t[j]);
                assert(t[j] == l[p.len() + k + 1 + j]);
            }
            let r = p + u + seq![':'] + trim_start(t);
            assert forall|i: int| 0 <= i < r.len() implies r[i] != '\n' by {
                if i < p.len() {
                } else if i < p.len() + u.len() {
                    assert(r[i] == u[i - p.len()]);
                } else if i == p.len() + u.len() {
                } else {
                    assert(r[i] == trim_start(t)[i - p.len() - u.len() - 1]);
                }
            }
        }
    }
}

/// One output line per input line: the normalised text is the input's lines,
/// each rewritten, in the same order, joined with newlines; no line holds a
/// newline before or after its rewrite, so none is split or merged.
pub proof fn lemma_one_line_per_line(s: Seq<char>)
    ensures
        rewrite_lines(s) == join_lines(split_lines(s).map_values(|l: Seq<char>| rewrite_line(l))),
        forall|i: int|
            0 <= i < split_lines(s).len() ==> no_newline(#[trigger] split_lines(s)[i]) && no_newline(
                rewrite_line(split_lines(s)[i]),
            ),
    decreases s.len(),
{
    lemma_find_char_first(s, '\n');
    let k = find_char(s, '\n');
    let ls = split_lines(s);
    if 0 <= k < s.len() {
        let first = strip_cr(s.take(k));
        assert(no_newline(first));
        lemma_rewrite_line_no_newline(first);
        let rest = s.skip(k + 1);
        if rest.len() == 0 {
            assert(ls == seq![first]);
        } else {
            lemma_one_line_per_line(rest);
            let tl = split_lines(rest);
            assert(ls == seq![first] + tl);
            let m = ls.map_values(|l: Seq<char>| rewrite_line(l));
            assert(m.drop_first() =~= tl.map_values(|l: Seq<char>| rewrite_line(l)));
            assert forall|i: int| 0 <= i < ls.len() implies no_newline(#[trigger] ls[i]) && no_newline(
                rewrite_line(ls[i]),
            ) by {
                if i > 0 {
                    assert(ls[i] == tl[i - 1]);
                }
            }
        }
    } else {
        assert(no_newline(s));
        lemma_rewrite_line_no_newline(s);
        assert(ls == seq![s]);
    }
}

} // verus!
