use hasky::duration::parse_duration;
use hasky::executor::{after_candidate, unit_result, RunOutcome};
use hasky::grading::{count_passed, feedback_block, grade_delta, grade_submission, Submission};
use hasky::harness::{build_harness, import_split, ENTRY_HEAD, ENTRY_TAIL, HARNESS_PRELUDE};
use hasky::schedule::{apply_results, plan_units, ResultMatrix};
use hasky::source::{strip_declarations, Code};
use hasky::status::Status;

fn chars(s: &str) -> Vec<char> {
    s.chars().collect()
}

fn text(v: &[char]) -> String {
    v.iter().collect()
}

fn submission(user_id: u64, graded: bool, grade: u64, feedback: &str) -> Submission {
    Submission::new(user_id, graded, grade, chars(feedback))
}

#[test]
fn markers_of_each_status() {
    assert_eq!(Status::Passed.get_emoji(), "\u{2714}\u{fe0f}");
    assert_eq!(Status::Failed.get_emoji(), "\u{274c}");
    assert_eq!(Status::Timeout.get_emoji(), "\u{231b}");
}

#[test]
fn split_after_last_import_line() {
    let helpers = chars("import Data.List\nimport Data.Char\nf = 1\n");
    assert_eq!(import_split(&helpers), 34);
    assert_eq!(import_split(&chars("g = 2\n")), 0);
    assert_eq!(import_split(&chars("")), 0);
    assert_eq!(import_split(&chars("g = 2\nimport Data.List")), 0);
    assert_eq!(import_split(&chars("-- import\n")), 0);
    assert_eq!(import_split(&chars("import Data.List\nf = importantValue")), 17);
    assert_eq!(import_split(&chars("import Data.List")), 16);
    assert_eq!(import_split(&chars("import A\nimport B")), 17);
    assert_eq!(import_split(&chars("import A\n\nimport B\n")), 9);
}

#[test]
fn harness_keeps_imports_ahead_of_source() {
    let helpers = chars("import Data.List\nf = importantValue");
    let h = build_harness(&helpers, &chars("g = 1"), &chars("True"));
    assert_eq!(
        text(&h),
        format!(
            "{}import Data.List\n\ng = 1\n\nf = importantValue{}True{}",
            HARNESS_PRELUDE, ENTRY_HEAD, ENTRY_TAIL
        )
    );
}

#[test]
fn harness_layout() {
    let helpers = chars("import Data.List\ng = 2\n");
    let h = build_harness(&helpers, &chars("f = 1"), &chars("f == 1"));
    let expected = format!(
        "{}import Data.List\n\nf = 1\n\ng = 2\n{}f == 1{}",
        HARNESS_PRELUDE, ENTRY_HEAD, ENTRY_TAIL
    );
    assert_eq!(text(&h), expected);
    assert_eq!(
        expected,
        "import System.Exit (exitFailure, exitSuccess)\nimport Data.List\n\nf = 1\n\ng = 2\n\n\nmain :: IO ()\nmain = if (f == 1) then exitSuccess else exitFailure"
    );
}

#[test]
fn harness_without_helpers() {
    let h = build_harness(&chars(""), &chars("f = 1"), &chars("True"));
    assert_eq!(
        text(&h),
        "import System.Exit (exitFailure, exitSuccess)\n\nf = 1\n\n\n\nmain :: IO ()\nmain = if (True) then exitSuccess else exitFailure"
    );
}

#[test]
fn timeout_precedence() {
    let r = unit_result(&vec![RunOutcome::TimedOut, RunOutcome::Exited(true)]);
    assert_eq!(r, Status::Timeout);
    assert_eq!(after_candidate(RunOutcome::TimedOut), Some(Status::Timeout));
}

#[test]
fn fallback_after_compile_failure() {
    let r = unit_result(&vec![RunOutcome::NotBuilt, RunOutcome::Exited(true)]);
    assert_eq!(r, Status::Passed);
    assert_eq!(after_candidate(RunOutcome::NotBuilt), None);
}

#[test]
fn failed_exit_falls_through() {
    assert_eq!(after_candidate(RunOutcome::Exited(false)), None);
    assert_eq!(after_candidate(RunOutcome::Exited(true)), Some(Status::Passed));
    assert_eq!(unit_result(&vec![RunOutcome::Exited(false), RunOutcome::Exited(true)]), Status::Passed);
    assert_eq!(unit_result(&vec![RunOutcome::Exited(false), RunOutcome::NotBuilt]), Status::Failed);
    assert_eq!(unit_result(&vec![]), Status::Failed);
}

#[test]
fn grade_arithmetic() {
    assert_eq!(grade_delta(1, 1000, 2), 500);
    let mut s = submission(1, false, 0, "");
    let tcs = vec![chars("a"), chars("b")];
    grade_submission(&mut s, &vec![Status::Passed, Status::Failed], &tcs, 1000, true);
    assert_eq!(s.grade, 500);
    assert!(s.graded);
}

#[test]
fn grade_rounding() {
    assert_eq!(grade_delta(1, 1000, 3), 333);
    assert_eq!(grade_delta(2, 1000, 3), 667);
    assert_eq!(grade_delta(1, 1, 2), 1);
    assert_eq!(grade_delta(0, 1000, 3), 0);
    assert_eq!(grade_delta(3, 1000, 3), 1000);
    assert_eq!(grade_delta(0, 1000, 0), 0);
    assert_eq!(grade_delta(u64::MAX as usize, u64::MAX, u64::MAX as usize), u64::MAX);
}

#[test]
fn passed_count() {
    assert_eq!(count_passed(&vec![Status::Passed, Status::Timeout, Status::Passed, Status::Failed]), 2);
    assert_eq!(count_passed(&vec![]), 0);
}

#[test]
fn feedback_lines_and_accumulation() {
    let tcs = vec![chars("f 1 == 1"), chars("f 2 == 3")];
    let row = vec![Status::Passed, Status::Failed];
    assert_eq!(text(&feedback_block(&row, &tcs)), "f 1 == 1 \u{2714}\u{fe0f}\nf 2 == 3 \u{274c}");
    let mut s = submission(3, false, 250, "Earlier");
    grade_submission(&mut s, &row, &tcs, 1000, false);
    assert_eq!(text(&s.feedback), "Earlier\n\nf 1 == 1 \u{2714}\u{fe0f}\nf 2 == 3 \u{274c}");
    assert_eq!(s.grade, 750);
    assert!(!s.graded);
}

#[test]
fn matrix_run_over_mixed_submissions() {
    let mut subs = vec![submission(1, false, 0, ""), submission(2, true, 900, "done")];
    let units = plan_units(&subs, 2);
    assert_eq!(units, vec![(0, 0), (0, 1)]);
    let mut m = ResultMatrix::new(&subs, 2);
    assert_eq!(m.rows, vec![vec![Status::Failed, Status::Failed], vec![]]);
    assert_eq!(m.expected, units.len());
    assert!(!m.is_complete());
    m.record(0, 1, Status::Passed);
    assert_eq!(m.rows[0], vec![Status::Failed, Status::Passed]);
    m.record(0, 0, Status::Timeout);
    assert!(m.is_complete());
    let tcs = vec![chars("t1"), chars("t2")];
    apply_results(&mut subs, &m, &tcs, 1000, true);
    assert_eq!(subs[0].grade, 500);
    assert!(subs[0].graded);
    assert_eq!(text(&subs[0].feedback), "t1 \u{231b}\nt2 \u{2714}\u{fe0f}");
    assert_eq!(subs[1].grade, 900);
    assert_eq!(text(&subs[1].feedback), "done");
    assert!(subs[1].graded);
}

#[test]
fn unreported_slots_stay_failed() {
    let subs = vec![submission(1, false, 0, ""), submission(2, false, 0, "")];
    let mut m = ResultMatrix::new(&subs, 3);
    m.record(1, 2, Status::Passed);
    m.record(7, 0, Status::Passed);
    assert_eq!(m.rows[0], vec![Status::Failed; 3]);
    assert_eq!(m.rows[1], vec![Status::Failed, Status::Failed, Status::Passed]);
    assert_eq!(m.received, 2);
    assert_eq!(m.expected, 6);
}

#[test]
fn all_graded_run_changes_nothing() {
    let mut subs = vec![submission(1, true, 300, "a"), submission(2, true, 0, "")];
    assert!(plan_units(&subs, 4).is_empty());
    let m = ResultMatrix::new(&subs, 4);
    assert!(m.is_complete());
    let tcs = vec![chars("a"), chars("b"), chars("c"), chars("d")];
    apply_results(&mut subs, &m, &tcs, 1000, true);
    assert_eq!(subs[0].grade, 300);
    assert_eq!(text(&subs[0].feedback), "a");
    assert_eq!(subs[1].grade, 0);
    assert_eq!(text(&subs[1].feedback), "");
}

fn one_run(subs: &mut Vec<Submission>, mark: bool) {
    let tcs = vec![chars("x"), chars("y")];
    let mut m = ResultMatrix::new(subs, 2);
    for (s, t) in plan_units(subs, 2) {
        m.record(s, t, if t == 0 { Status::Passed } else { Status::Failed });
    }
    apply_results(subs, &m, &tcs, 1000, mark);
}

#[test]
fn repeated_runs_accumulate() {
    let mut subs = vec![submission(1, false, 0, "")];
    one_run(&mut subs, false);
    one_run(&mut subs, false);
    assert_eq!(subs[0].grade, 1000);
    assert_eq!(text(&subs[0].feedback), "x \u{2714}\u{fe0f}\ny \u{274c}\n\nx \u{2714}\u{fe0f}\ny \u{274c}");
}

#[test]
fn marked_submission_is_skipped_later() {
    let mut subs = vec![submission(1, false, 0, "")];
    one_run(&mut subs, true);
    one_run(&mut subs, true);
    assert_eq!(subs[0].grade, 500);
    assert!(subs[0].graded);
}

#[test]
fn strips_module_header_and_entry_point() {
    let r = strip_declarations(&chars("module Main where\nf x = x + 1\nmain = print 1\n"));
    assert_eq!(text(&r), "\nf x = x + 1\n\n");
    let r = strip_declarations(&chars("module Foo (bar, baz) where\nbar = 1"));
    assert_eq!(text(&r), "\nbar = 1");
    let r = strip_declarations(&chars("main :: IO ()\nmain = do\n  print 1\n  print 2\nf = 3\n"));
    assert_eq!(text(&r), "\nf = 3\n");
    let r = strip_declarations(&chars("main = print 1\n\nhelper = 2\n"));
    assert_eq!(text(&r), "\n\nhelper = 2\n");
    let r = strip_declarations(&chars("module A.B where\nx = 1"));
    assert_eq!(text(&r), "\nx = 1");
    let r = strip_declarations(&chars("module A.B (\n  Foo(..),\n  bar\n) where\nx = 1"));
    assert_eq!(text(&r), "\nx = 1");
    assert_eq!(text(&strip_declarations(&chars(""))), "");
}

#[test]
fn candidates_skip_empty_files() {
    let texts = vec![
        chars("module Main where\nf x = x + 1\nmain = print 1\n"),
        chars(""),
        chars("main = return ()"),
        chars("g = 1\n"),
    ];
    let code = Code::new(&texts);
    assert_eq!(code.len(), 2);
    let hs = code.harnesses(&chars(""), &chars("f 1 == 2"));
    assert_eq!(hs.len(), 2);
    assert_eq!(
        text(&hs[0]),
        format!("{}\n\nf x = x + 1\n\n\n\n{}f 1 == 2{}", HARNESS_PRELUDE, ENTRY_HEAD, ENTRY_TAIL)
    );
    assert_eq!(
        text(&hs[1]),
        format!("{}\ng = 1\n\n\n{}f 1 == 2{}", HARNESS_PRELUDE, ENTRY_HEAD, ENTRY_TAIL)
    );
}

#[test]
fn duration_arguments() {
    assert_eq!(parse_duration("5"), Some(5));
    assert_eq!(parse_duration("+7"), Some(7));
    assert_eq!(parse_duration("0"), Some(0));
    assert_eq!(parse_duration(""), None);
    assert_eq!(parse_duration("+"), None);
    assert_eq!(parse_duration("1a"), None);
    assert_eq!(parse_duration("-1"), None);
    assert_eq!(parse_duration("18446744073709551615"), Some(u64::MAX));
    assert_eq!(parse_duration("18446744073709551616"), None);
}

#[test]
fn test_case_file_lines() {
    let cases = hasky::cases::parse_test_cases(&chars("  f 1 == 1  \n\n-- comment\n\tg == 2\r\n   \nh\u{a0}"));
    let cases: Vec<String> = cases.iter().map(|c| text(c)).collect();
    assert_eq!(cases, vec!["f 1 == 1", "g == 2", "h"]);
    assert!(hasky::cases::parse_test_cases(&chars("")).is_empty());
    let cases = hasky::cases::parse_test_cases(&chars("-x\n--\nlast"));
    let cases: Vec<String> = cases.iter().map(|c| text(c)).collect();
    assert_eq!(cases, vec!["-x", "last"]);
}
