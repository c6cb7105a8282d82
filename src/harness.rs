use vstd::prelude::*;
use crate::text::{push_range, push_str};

verus! {

/// First line of every test program: the exit primitives it uses.
pub const HARNESS_PRELUDE: &'static str = "import System.Exit (exitFailure, exitSuccess)\n";

/// Text between the helper suffix and the test expression.
pub const ENTRY_HEAD: &'static str = "\n\nmain :: IO ()\nmain = if (";

/// Text after the test expression, closing the generated entry point.
pub const ENTRY_TAIL: &'static str = ") then exitSuccess else exitFailure";

pub open spec fn import_word() -> Seq<char> {
    seq!['i', 'm', 'p', 'o', 'r', 't']
}

/// `w` occurs in `s` at position `i`.
pub open spec fn occurs_at(s: Seq<char>, w: Seq<char>, i: int) -> bool {
    0 <= i && i + w.len() <= s.len() && s.subrange(i, i + w.len()) == w
}

/// End of the run of `import` lines that starts at the line beginning at `i`:
/// past the line break of its last line, or the end of the text where that
/// line is the last one.
pub open spec fn import_block_end(s: Seq<char>, i: int) -> int
    decreases s.len() - i,
{
    if occurs_at(s, import_word(), i) {
        import_line_end(s, i + import_word().len())
    } else {
        i
    }
}

/// Continues an `import` line from position `k` to its line break, then looks
/// at the next line.
pub open spec fn import_line_end(s: Seq<char>, k: int) -> int
    decreases s.len() - k,
{
    if k < 0 || k >= s.len() {
        s.len() as int
    } else if s[k] == '\n' {
        import_block_end(s, k + 1)
    } else {
        import_line_end(s, k + 1)
    }
}

/// Where the helper text is cut: just past its leading run of `import`
/// lines, or 0 where it does not start with an `import` line.
pub open spec fn split_point(s: Seq<char>) -> int {
    import_block_end(s, 0)
}

/// The complete test program for one candidate source and one test expression.
pub open spec fn harness_text(helpers: Seq<char>, source: Seq<char>, test_case: Seq<char>) -> Seq<char> {
    let p = split_point(helpers);
    HARNESS_PRELUDE@ + helpers.subrange(0, p) + seq!['\n'] + source + seq!['\n', '\n']
        + helpers.subrange(p, helpers.len() as int) + ENTRY_HEAD@ + test_case + ENTRY_TAIL@
}

fn import_at(s: &Vec<char>, i: usize) -> (r: bool)
    ensures
        r == occurs_at(s@, import_word(), i as int),
{
    if i > s.len() || s.len() - i < 6 {
        return false;
    }
    let r = s[i] == 'i' && s[i + 1] == 'm' && s[i + 2] == 'p' && s[i + 3] == 'o' && s[i + 4] == 'r'
        && s[i + 5] == 't';
    proof {
        if r {
            assert(s@.subrange(i as int, i + 6) =~= import_word());
        } else if s@.subrange(i as int, i + 6) == import_word() {
            assert(s@.subrange(i as int, i + 6)[0] == 'i');
            assert(s@.subrange(i as int, i + 6)[1] == 'm');
            assert(s@.subrange(i as int, i + 6)[2] == 'p');
            assert(s@.subrange(i as int, i + 6)[3] == 'o');
            assert(s@.subrange(i as int, i + 6)[4] == 'r');
            assert(s@.subrange(i as int, i + 6)[5] == 't');
        }
    }
    r
}

/// Position in the helper text just past its leading `import` lines.
pub fn import_split(helpers: &Vec<char>) -> (r: usize)
    ensures
        r as int == split_point(helpers@),
        r <= helpers@.len(),
{
    let n = helpers.len();
    let mut i: usize = 0;
    while import_at(helpers, i)
        invariant
            i <= n == helpers@.len(),
            split_point(helpers@) == import_block_end(helpers@, i as int),
        decreases n - i,
    {
        let mut k: usize = i + 6;
        while k < n && helpers[k] != '\n'
            invariant
                i + 6 <= k <= n == helpers@.len(),
                split_point(helpers@) == import_line_end(helpers@, k as int),
            decreases n - k,
        {
            k = k + 1;
        }
        if k >= n {
            return n;
        }
        i = k + 1;
    }
    i
}

/// Assembles the test program: the prelude, the helper imports, the candidate
/// source, the rest of the helpers and an entry point that exits with success
/// exactly when the test expression holds.
pub fn build_harness(helpers: &Vec<char>, source: &Vec<char>, test_case: &Vec<char>) -> (r: Vec<char>)
    ensures
        r@ == harness_text(helpers@, source@, test_case@),
{
    let p = import_split(helpers);
    let mut out: Vec<char> = Vec::new();
    push_str(&mut out, HARNESS_PRELUDE);
    push_range(&mut out, helpers, 0, p);
    out.push('\n');
    push_range(&mut out, source, 0, source.len());
    out.push('\n');
    out.push('\n');
    push_range(&mut out, helpers, p, helpers.len());
    push_str(&mut out, ENTRY_HEAD);
    push_range(&mut out, test_case, 0, test_case.len());
    push_str(&mut out, ENTRY_TAIL);
    assert(source@.subrange(0, source@.len() as int) == source@);
    assert(test_case@.subrange(0, test_case@.len() as int) == test_case@);
    assert(out@ =~= harness_text(helpers@, source@, test_case@));
    out
}

} // verus!
