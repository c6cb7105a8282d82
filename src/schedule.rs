use vstd::prelude::*;
use crate::grading::{Submission, SubmissionView, after_grading, grade_delta_spec, passed_count, grade_submission};
use crate::status::Status;

verus! {

/// Number of submissions that a run grades: those not yet graded.
pub open spec fn eligible_count(subs: Seq<Submission>) -> nat
    decreases subs.len(),
{
    if subs.len() == 0 {
        0
    } else {
        eligible_count(subs.drop_last()) + if subs.last().graded { 0nat } else { 1nat }
    }
}

/// The work units of a run, in dispatch order: one `(submission, test case)`
/// pair per test case of each submission not yet graded.
pub open spec fn work_units(subs: Seq<Submission>, width: nat) -> Seq<(usize, usize)>
    decreases subs.len(),
{
    if subs.len() == 0 {
        Seq::empty()
    } else {
        work_units(subs.drop_last(), width) + if subs.last().graded {
            Seq::empty()
        } else {
            Seq::new(width, |t: int| ((subs.len() - 1) as usize, t as usize))
        }
    }
}

pub open spec fn views(subs: Seq<Submission>) -> Seq<SubmissionView> {
    subs.map_values(|s: Submission| s@)
}

/// The submissions after a run whose result rows are `rows`: graded ones
/// untouched, the others folded with their row.
pub open spec fn run_result(
    subs: Seq<SubmissionView>,
    rows: Seq<Seq<Status>>,
    test_cases: Seq<Seq<char>>,
    max_grade: int,
    mark_graded: bool,
) -> Seq<SubmissionView> {
    Seq::new(
        subs.len(),
        |i: int|
            if subs[i].graded {
                subs[i]
            } else {
                after_grading(subs[i], rows[i], test_cases, max_grade, mark_graded)
            },
    )
}

/// Statuses of a run, one row per submission: a row of `width` slots for each
/// submission being graded, an empty one for each that is skipped. `written`
/// holds the coordinates that reports have filled in.
pub struct ResultMatrix {
    pub rows: Vec<Vec<Status>>,
    pub width: usize,
    pub received: usize,
    pub expected: usize,
    pub written: Ghost<Set<(int, int)>>,
}

impl ResultMatrix {
    pub open spec fn row(&self, i: int) -> Seq<Status> {
        self.rows@[i]@
    }

    pub open spec fn rows_view(&self) -> Seq<Seq<Status>> {
        Seq::new(self.rows@.len(), |i: int| self.rows@[i]@)
    }

    /// Every slot that no report has filled in still holds `Failed`.
    pub open spec fn wf(&self) -> bool {
        &&& self.received <= self.expected
        &&& forall|i: int, t: int|
            0 <= i < self.rows@.len() && 0 <= t < self.row(i).len() && !self.written@.contains((i, t))
                ==> self.row(i)[t] == Status::Failed
    }

    /// The shape of the matrix fits the submissions of the run.
    pub open spec fn shaped_for(&self, subs: Seq<Submission>) -> bool {
        &&& self.rows@.len() == subs.len()
        &&& forall|i: int|
            0 <= i < subs.len() ==> self.row(i).len() == if subs[i].graded { 0 } else { self.width as int }
        &&& self.expected == eligible_count(subs) * self.width
    }

    /// A matrix for a run over `subs` with `width` test cases, every slot `Failed`.
    pub fn new(subs: &Vec<Submission>, width: usize) -> (r: ResultMatrix)
        requires
            subs@.len() * width <= usize::MAX,
        ensures
            r.wf(),
            r.shaped_for(subs@),
            r.width == width,
            r.received == 0,
            r.written@ == Set::<(int, int)>::empty(),
            forall|i: int, t: int| 0 <= i < r.rows@.len() && 0 <= t < r.row(i).len() ==> r.row(i)[t]
                == Status::Failed,
    {
        let mut rows: Vec<Vec<Status>> = Vec::new();
        let mut expected: usize = 0;
        let mut i: usize = 0;
        assert(subs@.subrange(0, 0) =~= Seq::<Submission>::empty());
        assert(0 * width == 0) by (nonlinear_arith);
        while i < subs.len()
            invariant
                i <= subs@.len(),
                subs@.len() * width <= usize::MAX,
                rows@.len() == i,
                expected == eligible_count(subs@.subrange(0, i as int)) * width,
                forall|k: int| 0 <= k < i ==> rows@[k]@.len() == if subs@[k].graded { 0 } else { width as int },
                forall|k: int, t: int| 0 <= k < i && 0 <= t < rows@[k]@.len() ==> rows@[k]@[t] == Status::Failed,
            decreases subs@.len() - i,
        {
            proof {
                assert(subs@.subrange(0, i + 1).drop_last() =~= subs@.subrange(0, i as int));
                lemma_eligible_count_bound(subs@.subrange(0, i + 1));
                assert(eligible_count(subs@.subrange(0, i + 1)) * width <= (i + 1) * width) by (nonlinear_arith)
                    requires eligible_count(subs@.subrange(0, i + 1)) <= i + 1;
                assert((i + 1) * width <= subs@.len() * width) by (nonlinear_arith)
                    requires i + 1 <= subs@.len();
                assert(eligible_count(subs@.subrange(0, i + 1)) * width == eligible_count(
                    subs@.subrange(0, i as int),
                ) * width + if subs@[i as int].graded { 0 } else { width as int }) by (nonlinear_arith)
                    requires eligible_count(subs@.subrange(0, i + 1)) == eligible_count(
                        subs@.subrange(0, i as int),
                    ) + if subs@[i as int].graded { 0nat } else { 1nat };
            }
            if subs[i].graded {
                rows.push(Vec::new());
            } else {
                rows.push(vec![Status::Failed; width]);
                expected = expected + width;
            }
            i = i + 1;
        }
        assert(subs@.subrange(0, i as int) =~= subs@);
        ResultMatrix { rows, width, received: 0, expected, written: Ghost(Set::empty()) }
    }

    /// Every report of the run has been received.
    pub fn is_complete(&self) -> (r: bool)
        ensures
            r == (self.received == self.expected),
    {
        self.received == self.expected
    }

    /// Takes in one report: the slot at its coordinate, if the matrix has one,
    /// takes its status; every other slot keeps its value.
    pub fn record(&mut self, sub: usize, test: usize, status: Status)
        requires
            old(self).wf(),
            old(self).received < old(self).expected,
        ensures
            final(self).wf(),
            final(self).received == old(self).received + 1,
            final(self).expected == old(self).expected,
            final(self).width == old(self).width,
            final(self).rows@.len() == old(self).rows@.len(),
            forall|i: int| 0 <= i < old(self).rows@.len() ==> #[trigger] final(self).row(i).len() == old(self).row(i).len(),
            sub < old(self).rows@.len() && test < old(self).row(sub as int).len() ==> final(self).row(sub as int)[test as int] == status
                && final(self).written@ == old(self).written@.insert((sub as int, test as int)),
            !(sub < old(self).rows@.len() && test < old(self).row(sub as int).len()) ==> final(self).rows@ == old(self).rows@
                && final(self).written@ == old(self).written@,
            forall|i: int, t: int| 0 <= i < old(self).rows@.len() && 0 <= t < old(self).row(i).len() && (i, t) != (sub as int, test as int)
                ==> final(self).row(i)[t] == old(self).row(i)[t],
    {
        if sub < self.rows.len() && test < self.rows[sub].len() {
            let mut row = self.rows[sub].clone();
            assert(row@ =~= self.rows@[sub as int]@);
            row.set(test, status);
            self.rows.set(sub, row);
            self.written = Ghost(self.written@.insert((sub as int, test as int)));
        }
        self.received = self.received + 1;
        assert forall|i: int, t: int|
            0 <= i < self.rows@.len() && 0 <= t < self.row(i).len() && !self.written@.contains((i, t))
            implies self.row(i)[t] == Status::Failed by {
            assert(!old(self).written@.contains((i, t)));
            assert(self.row(i)[t] == old(self).row(i)[t]);
            assert(old(self).row(i)[t] == Status::Failed);
        }
    }
}

proof fn lemma_eligible_count_bound(subs: Seq<Submission>)
    ensures
        eligible_count(subs) <= subs.len(),
    decreases subs.len(),
{
    if subs.len() > 0 {
        lemma_eligible_count_bound(subs.drop_last());
    }
}

/// Lists the work units of a run over `subs` with `width` test cases.
pub fn plan_units(subs: &Vec<Submission>, width: usize) -> (r: Vec<(usize, usize)>)
    ensures
        r@ == work_units(subs@, width as nat),
{
    let mut out: Vec<(usize, usize)> = Vec::new();
    let mut i: usize = 0;
    while i < subs.len()
        invariant
            i <= subs@.len(),
            out@ == work_units(subs@.subrange(0, i as int), width as nat),
        decreases subs@.len() - i,
    {
        let ghost before = out@;
        assert(subs@.subrange(0, i + 1).drop_last() =~= subs@.subrange(0, i as int));
        if !subs[i].graded {
            let mut t: usize = 0;
            while t < width
                invariant
                    t <= width,
                    i < subs@.len(),
                    out@ == before + Seq::new(t as nat, |k: int| (i, k as usize)),
                decreases width - t,
            {
                out.push((i, t));
                t = t + 1;
                assert(out@ =~= before + Seq::new(t as nat, |k: int| (i, k as usize)));
            }
        }
        i = i + 1;
        assert(out@ =~= work_units(subs@.subrange(0, i as int), width as nat));
    }
    assert(subs@.subrange(0, i as int) =~= subs@);
    out
}

/// Folds a completed result matrix into the submissions: each one not yet
/// graded takes its row, the others are left as they are.
pub fn apply_results(
    subs: &mut Vec<Submission>,
    matrix: &ResultMatrix,
    test_cases: &Vec<Vec<char>>,
    max_grade: u64,
    mark_graded: bool,
)
    requires
        matrix.shaped_for(old(subs)@),
        matrix.received == matrix.expected,
        matrix.width == test_cases@.len(),
        forall|i: int| 0 <= i < old(subs)@.len() ==> old(subs)@[i].grade + max_grade <= u64::MAX,
    ensures
        views(final(subs)@) == run_result(
            views(old(subs)@),
            matrix.rows_view(),
            test_cases.deep_view(),
            max_grade as int,
            mark_graded,
        ),
{
    let ghost orig = subs@;
    let mut done: Vec<Submission> = Vec::new();
    let mut i: usize = 0;
    let n = subs.len();
    while i < n
        invariant
            n == orig.len(),
            i <= n,
            subs@ == orig.subrange(i as int, n as int),
            done@.len() == i,
            matrix.shaped_for(orig),
            matrix.width == test_cases@.len(),
            forall|k: int| 0 <= k < n ==> orig[k].grade + max_grade <= u64::MAX,
            forall|k: int| 0 <= k < i ==> done@[k]@ == run_result(
                views(orig),
                matrix.rows_view(),
                test_cases.deep_view(),
                max_grade as int,
                mark_graded,
            )[k],
        decreases n - i,
    {
        let mut s = subs.remove(0);
        assert(s == orig[i as int]);
        assert(subs@ =~= orig.subrange(i + 1, n as int));
        if !s.graded {
            assert(matrix.row(i as int).len() == test_cases@.len());
            grade_submission(&mut s, &matrix.rows[i], test_cases, max_grade, mark_graded);
        }
        done.push(s);
        i = i + 1;
    }
    *subs = done;
    assert(views(subs@) =~= run_result(
        views(orig),
        matrix.rows_view(),
        test_cases.deep_view(),
        max_grade as int,
        mark_graded,
    ));
}

/// In a well-formed matrix shaped for a run, the row of each submission being
/// graded has exactly one slot per test case, and each slot that no report
/// filled in holds `Failed`.
pub proof fn lemma_matrix_slots(m: ResultMatrix, subs: Seq<Submission>, i: int, t: int)
    requires
        m.wf(),
        m.shaped_for(subs),
        0 <= i < subs.len(),
        !subs[i].graded,
    ensures
        m.row(i).len() == m.width,
        0 <= t < m.width && !m.written@.contains((i, t)) ==> m.row(i)[t] == Status::Failed,
{
}

/// A run dispatches one unit per test case of each submission not yet graded,
/// which is the number of reports its matrix waits for.
pub proof fn lemma_dispatch_count(subs: Seq<Submission>, width: nat)
    ensures
        work_units(subs, width).len() == eligible_count(subs) * width,
    decreases subs.len(),
{
    if subs.len() > 0 {
        lemma_dispatch_count(subs.drop_last(), width);
        let e = eligible_count(subs.drop_last());
        if subs.last().graded {
        } else {
            assert((e + 1) * width == e * width + width) by (nonlinear_arith);
        }
    } else {
        assert(0 * width == 0) by (nonlinear_arith);
    }
}

/// A run in which every submission is already graded dispatches nothing and
/// leaves every submission as it was.
pub proof fn lemma_all_graded_unchanged(
    subs: Seq<Submission>,
    rows: Seq<Seq<Status>>,
    test_cases: Seq<Seq<char>>,
    max_grade: int,
    mark_graded: bool,
    width: nat,
)
    requires
        forall|i: int| 0 <= i < subs.len() ==> subs[i].graded,
    ensures
        work_units(subs, width).len() == 0,
        run_result(views(subs), rows, test_cases, max_grade, mark_graded) == views(subs),
{
    lemma_all_graded_none_eligible(subs);
    lemma_dispatch_count(subs, width);
    assert(0 * width == 0) by (nonlinear_arith);
    assert(run_result(views(subs), rows, test_cases, max_grade, mark_graded) =~= views(subs));
}

proof fn lemma_all_graded_none_eligible(subs: Seq<Submission>)
    requires
        forall|i: int| 0 <= i < subs.len() ==> subs[i].graded,
    ensures
        eligible_count(subs) == 0,
    decreases subs.len(),
{
    if subs.len() > 0 {
        lemma_all_graded_none_eligible(subs.drop_last());
    }
}

/// Two runs over an ungraded submission that are told not to mark it graded
/// add its grade twice; once a run has marked it graded, a later run leaves it
/// as it is.
pub proof fn lemma_accumulation(
    s: SubmissionView,
    row: Seq<Status>,
    test_cases: Seq<Seq<char>>,
    max_grade: int,
    later_mark: bool,
)
    requires
        !s.graded,
    ensures
        ({
            let delta = grade_delta_spec(passed_count(row) as int, max_grade, row.len() as int);
            let once = run_result(seq![s], seq![row], test_cases, max_grade, false);
            let twice = run_result(once, seq![row], test_cases, max_grade, false);
            twice[0].grade == s.grade + 2 * delta && !twice[0].graded
        }),
        ({
            let marked = run_result(seq![s], seq![row], test_cases, max_grade, true);
            marked[0].graded
                && run_result(marked, seq![row], test_cases, max_grade, later_mark) == marked
        }),
{
    let marked = run_result(seq![s], seq![row], test_cases, max_grade, true);
    assert(run_result(marked, seq![row], test_cases, max_grade, later_mark) =~= marked);
}

} // verus!
