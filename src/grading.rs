use vstd::prelude::*;
use vstd::arithmetic::div_mod::lemma_fundamental_div_mod_converse;
use crate::status::{Status, status_marker};
use crate::text::{push_range, push_str};

verus! {

/// One student's grading record. The grade is kept in hundredths of a point.
pub struct Submission {
    pub user_id: u64,
    pub graded: bool,
    pub grade: u64,
    pub feedback: Vec<char>,
}

/// What a grading run reads and changes of a submission.
pub struct SubmissionView {
    pub user_id: u64,
    pub graded: bool,
    pub grade: int,
    pub feedback: Seq<char>,
}

impl View for Submission {
    type V = SubmissionView;

    open spec fn view(&self) -> SubmissionView {
        SubmissionView {
            user_id: self.user_id,
            graded: self.graded,
            grade: self.grade as int,
            feedback: self.feedback@,
        }
    }
}

impl Submission {
    pub fn new(user_id: u64, graded: bool, grade: u64, feedback: Vec<char>) -> (r: Submission)
        ensures
            r.user_id == user_id,
            r.graded == graded,
            r.grade == grade,
            r.feedback == feedback,
    {
        Submission { user_id, graded, grade, feedback }
    }
}

/// Number of `Passed` entries of a result row.
pub open spec fn passed_count(row: Seq<Status>) -> nat
    decreases row.len(),
{
    if row.len() == 0 {
        0
    } else {
        passed_count(row.drop_last()) + if row.last() == Status::Passed { 1nat } else { 0nat }
    }
}

/// Grade earned, in hundredths: `passed / n` of the maximum, rounded to the
/// nearest hundredth, halves upwards. With no test case nothing is earned.
pub open spec fn grade_delta_spec(passed: int, max_grade: int, n: int) -> int {
    if n <= 0 {
        0
    } else {
        (2 * passed * max_grade + n) / (2 * n)
    }
}

/// The feedback line of one test case.
pub open spec fn feedback_line(test_case: Seq<char>, s: Status) -> Seq<char> {
    test_case + seq![' '] + status_marker(s)
}

/// The first `k` feedback lines of a run, separated by line breaks.
pub open spec fn feedback_lines(row: Seq<Status>, test_cases: Seq<Seq<char>>, k: int) -> Seq<char>
    decreases k,
{
    if k <= 0 {
        Seq::empty()
    } else if k == 1 {
        feedback_line(test_cases[0], row[0])
    } else {
        feedback_lines(row, test_cases, k - 1) + seq!['\n'] + feedback_line(test_cases[k - 1], row[k - 1])
    }
}

/// Old feedback followed by a new block, a blank line between them.
pub open spec fn appended_feedback(old: Seq<char>, block: Seq<char>) -> Seq<char> {
    if old.len() == 0 {
        block
    } else {
        old + seq!['\n', '\n'] + block
    }
}

/// A submission after its result row has been folded into it.
pub open spec fn after_grading(
    s: SubmissionView,
    row: Seq<Status>,
    test_cases: Seq<Seq<char>>,
    max_grade: int,
    mark_graded: bool,
) -> SubmissionView {
    SubmissionView {
        user_id: s.user_id,
        graded: s.graded || mark_graded,
        grade: s.grade + grade_delta_spec(passed_count(row) as int, max_grade, row.len() as int),
        feedback: appended_feedback(s.feedback, feedback_lines(row, test_cases, row.len() as int)),
    }
}

proof fn lemma_passed_count_bound(row: Seq<Status>)
    ensures
        passed_count(row) <= row.len(),
    decreases row.len(),
{
    if row.len() > 0 {
        lemma_passed_count_bound(row.drop_last());
    }
}

pub fn count_passed(row: &Vec<Status>) -> (r: usize)
    ensures
        r == passed_count(row@),
{
    let mut i: usize = 0;
    let mut c: usize = 0;
    while i < row.len()
        invariant
            i <= row@.len(),
            c == passed_count(row@.subrange(0, i as int)),
        decreases row@.len() - i,
    {
        proof {
            lemma_passed_count_bound(row@.subrange(0, i as int));
            assert(row@.subrange(0, i + 1).drop_last() =~= row@.subrange(0, i as int));
        }
        if row[i] == Status::Passed {
            c = c + 1;
        }
        i = i + 1;
    }
    assert(row@.subrange(0, i as int) =~= row@);
    c
}

proof fn lemma_delta_parts(p: int, m: int, n: int, q: int, r: int)
    requires
        0 <= p <= n,
        0 <= m,
        0 < n,
        p * m == q * n + r,
        0 <= r < n,
    ensures
        grade_delta_spec(p, m, n) == q + if 2 * r >= n { 1int } else { 0int },
        grade_delta_spec(p, m, n) <= m,
{
    let x = 2 * p * m + n;
    if 2 * r >= n {
        assert(x == (q + 1) * (2 * n) + (2 * r - n)) by (nonlinear_arith)
            requires x == 2 * p * m + n, p * m == q * n + r;
        lemma_fundamental_div_mod_converse(x, 2 * n, q + 1, 2 * r - n);
    } else {
        assert(x == q * (2 * n) + (2 * r + n)) by (nonlinear_arith)
            requires x == 2 * p * m + n, p * m == q * n + r;
        lemma_fundamental_div_mod_converse(x, 2 * n, q, 2 * r + n);
    }
    assert(p * m <= n * m) by (nonlinear_arith)
        requires 0 <= p <= n, 0 <= m;
    if q >= m {
        assert(q * n >= m * n) by (nonlinear_arith)
            requires q >= m, n > 0;
        assert(r == 0);
        assert(q == m) by (nonlinear_arith)
            requires q * n == p * m, p * m <= n * m, q >= m, n > 0;
    }
}

/// Grade earned, in hundredths, for `passed` of `n` test cases out of a
/// maximum of `max_grade` hundredths.
pub fn grade_delta(passed: usize, max_grade: u64, n: usize) -> (r: u64)
    requires
        passed <= n,
    ensures
        r == grade_delta_spec(passed as int, max_grade as int, n as int),
        r <= max_grade,
{
    if n == 0 {
        return 0;
    }
    assert((passed as int) * (max_grade as int) <= u128::MAX) by (nonlinear_arith)
        requires passed <= u64::MAX, max_grade <= u64::MAX;
    let pm: u128 = (passed as u128) * (max_grade as u128);
    let q: u128 = pm / (n as u128);
    let r: u128 = pm % (n as u128);
    proof {
        lemma_fundamental_div_mod_converse(pm as int, n as int, q as int, r as int);
        assert(pm as int == q * n + r) by {
            vstd::arithmetic::div_mod::lemma_fundamental_div_mod(pm as int, n as int);
        }
        lemma_delta_parts(passed as int, max_grade as int, n as int, q as int, r as int);
    }
    let up: u128 = if 2 * r >= n as u128 { 1 } else { 0 };
    (q + up) as u64
}

/// The feedback block of one run: a line `<test case> <marker>` per test case.
pub fn feedback_block(row: &Vec<Status>, test_cases: &Vec<Vec<char>>) -> (r: Vec<char>)
    requires
        row@.len() == test_cases@.len(),
    ensures
        r@ == feedback_lines(row@, test_cases.deep_view(), row@.len() as int),
{
    let mut out: Vec<char> = Vec::new();
    let mut i: usize = 0;
    while i < row.len()
        invariant
            i <= row@.len() == test_cases@.len(),
            out@ == feedback_lines(row@, test_cases.deep_view(), i as int),
        decreases row@.len() - i,
    {
        if i > 0 {
            out.push('\n');
        }
        let t = &test_cases[i];
        push_range(&mut out, t, 0, t.len());
        out.push(' ');
        push_str(&mut out, row[i].get_emoji());
        assert(t@.subrange(0, t@.len() as int) == t@);
        assert(test_cases.deep_view()[i as int] == t@);
        i = i + 1;
        assert(out@ =~= feedback_lines(row@, test_cases.deep_view(), i as int));
    }
    out
}

/// Folds one run's result row into a submission: the feedback block is
/// appended, the earned grade added, and the submission marked graded if asked.
pub fn grade_submission(
    sub: &mut Submission,
    row: &Vec<Status>,
    test_cases: &Vec<Vec<char>>,
    max_grade: u64,
    mark_graded: bool,
)
    requires
        row@.len() == test_cases@.len(),
        old(sub).grade + max_grade <= u64::MAX,
    ensures
        final(sub)@ == after_grading(old(sub)@, row@, test_cases.deep_view(), max_grade as int, mark_graded),
{
    let block = feedback_block(row, test_cases);
    if sub.feedback.len() > 0 {
        sub.feedback.push('\n');
        sub.feedback.push('\n');
    }
    push_range(&mut sub.feedback, &block, 0, block.len());
    assert(block@.subrange(0, block@.len() as int) == block@);
    let passed = count_passed(row);
    proof {
        lemma_passed_count_bound(row@);
    }
    let delta = grade_delta(passed, max_grade, row.len());
    sub.grade = sub.grade + delta;
    if mark_graded {
        sub.graded = true;
    }
    assert(sub.feedback@ =~= appended_feedback(old(sub).feedback@, block@));
}

} // verus!
