use vstd::prelude::*;

verus! {

/// The characters with the Unicode `White_Space` property.
pub open spec fn is_white_space(c: char) -> bool {
    ('\t' <= c && c <= '\r') || c == ' ' || c == '\u{85}' || c == '\u{a0}' || c == '\u{1680}'
        || ('\u{2000}' <= c && c <= '\u{200a}') || c == '\u{2028}' || c == '\u{2029}' || c == '\u{202f}'
        || c == '\u{205f}' || c == '\u{3000}'
}

/// Whether `c` is white space, as `char::is_whitespace` decides it.
pub fn is_whitespace(c: char) -> (r: bool)
    ensures
        r == is_white_space(c),
{
    ('\t' <= c && c <= '\r') || c == ' ' || c == '\u{85}' || c == '\u{a0}' || c == '\u{1680}'
        || ('\u{2000}' <= c && c <= '\u{200a}') || c == '\u{2028}' || c == '\u{2029}' || c == '\u{202f}'
        || c == '\u{205f}' || c == '\u{3000}'
}

pub open spec fn trim_start(s: Seq<char>) -> Seq<char>
    decreases s.len(),
{
    if s.len() > 0 && is_white_space(s[0]) {
        trim_start(s.drop_first())
    } else {
        s
    }
}

pub open spec fn trim_end(s: Seq<char>) -> Seq<char>
    decreases s.len(),
{
    if s.len() > 0 && is_white_space(s.last()) {
        trim_end(s.drop_last())
    } else {
        s
    }
}

/// A line without its leading and trailing white space.
pub open spec fn trimmed(s: Seq<char>) -> Seq<char> {
    trim_end(trim_start(s))
}

/// A trimmed line that holds no test case: empty, or a `--` comment.
pub open spec fn is_skipped(t: Seq<char>) -> bool {
    t.len() == 0 || (t.len() >= 2 && t[0] == '-' && t[1] == '-')
}

/// The test case a line gives: none, or its trimmed text.
pub open spec fn case_of_line(line: Seq<char>) -> Seq<Seq<char>> {
    if is_skipped(trimmed(line)) {
        Seq::empty()
    } else {
        seq![trimmed(line)]
    }
}

/// The test cases of the lines that end within the first `k` characters, and
/// where the line under way at `k` starts.
pub open spec fn cases_upto(s: Seq<char>, k: int) -> (Seq<Seq<char>>, int)
    decreases k,
{
    if k <= 0 {
        (Seq::empty(), 0)
    } else {
        let (done, start) = cases_upto(s, k - 1);
        if s[k - 1] == '\n' {
            (done + case_of_line(s.subrange(start, k - 1)), k)
        } else {
            (done, start)
        }
    }
}

/// The test cases of a file's text, one per line that is neither blank nor a
/// `--` comment, trimmed, in order.
pub open spec fn test_cases_of(s: Seq<char>) -> Seq<Seq<char>> {
    let (done, start) = cases_upto(s, s.len() as int);
    done + case_of_line(s.subrange(start, s.len() as int))
}

proof fn lemma_cases_upto_start(s: Seq<char>, k: int)
    requires
        0 <= k <= s.len(),
    ensures
        0 <= cases_upto(s, k).1 <= k,
    decreases k,
{
    if k > 0 {
        lemma_cases_upto_start(s, k - 1);
    }
}

/// The bounds of the trimmed text of `s[from..to]`.
fn trim_bounds(s: &Vec<char>, from: usize, to: usize) -> (r: (usize, usize))
    requires
        from <= to <= s@.len(),
    ensures
        from <= r.0 <= r.1 <= to,
        s@.subrange(r.0 as int, r.1 as int) == trimmed(s@.subrange(from as int, to as int)),
{
    let mut a: usize = from;
    while a < to && is_whitespace(s[a])
        invariant
            from <= a <= to <= s@.len(),
            trim_start(s@.subrange(from as int, to as int)) == trim_start(s@.subrange(a as int, to as int)),
        decreases to - a,
    {
        assert(s@.subrange(a as int, to as int).drop_first() =~= s@.subrange(a + 1, to as int));
        a = a + 1;
    }
    assert(trim_start(s@.subrange(a as int, to as int)) == s@.subrange(a as int, to as int));
    let mut b: usize = to;
    while b > a && is_whitespace(s[b - 1])
        invariant
            from <= a <= b <= to <= s@.len(),
            trim_end(s@.subrange(a as int, to as int)) == trim_end(s@.subrange(a as int, b as int)),
        decreases b - a,
    {
        assert(s@.subrange(a as int, b as int).drop_last() =~= s@.subrange(a as int, b - 1));
        b = b - 1;
    }
    assert(trim_end(s@.subrange(a as int, b as int)) == s@.subrange(a as int, b as int));
    (a, b)
}

fn push_case(out: &mut Vec<Vec<char>>, s: &Vec<char>, from: usize, to: usize)
    requires
        from <= to <= s@.len(),
    ensures
        final(out).deep_view() == old(out).deep_view() + case_of_line(s@.subrange(from as int, to as int)),
{
    let (a, b) = trim_bounds(s, from, to);
    let skipped = a == b || (b - a >= 2 && s[a] == '-' && s[a + 1] == '-');
    let ghost t = s@.subrange(a as int, b as int);
    if skipped {
        assert(is_skipped(t));
        assert(old(out).deep_view() + Seq::<Seq<char>>::empty() =~= old(out).deep_view());
    } else {
        let mut line: Vec<char> = Vec::new();
        crate::text::push_range(&mut line, s, a, b);
        assert(line.deep_view() =~= line@);
        let ghost before = out.deep_view();
        out.push(line);
        assert(out.deep_view() =~= before + seq![t]);
    }
}

/// Reads the test cases of a file's text.
pub fn parse_test_cases(text: &Vec<char>) -> (r: Vec<Vec<char>>)
    ensures
        r.deep_view() == test_cases_of(text@),
{
    let mut out: Vec<Vec<char>> = Vec::new();
    let mut start: usize = 0;
    let mut i: usize = 0;
    assert(out.deep_view() =~= Seq::<Seq<char>>::empty());
    while i < text.len()
        invariant
            i <= text@.len(),
            (out.deep_view(), start as int) == cases_upto(text@, i as int),
        decreases text@.len() - i,
    {
        proof {
            lemma_cases_upto_start(text@, i as int);
        }
        if text[i] == '\n' {
            push_case(&mut out, text, start, i);
            start = i + 1;
        }
        i = i + 1;
    }
    proof {
        lemma_cases_upto_start(text@, i as int);
    }
    push_case(&mut out, text, start, i);
    out
}

} // verus!
