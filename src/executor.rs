use vstd::prelude::*;
use crate::status::Status;

verus! {

/// What became of one candidate test program.
#[derive(Clone, Copy, Debug, PartialEq, Eq, Structural)]
pub enum RunOutcome {
    /// It could not be written, compiled or started.
    NotBuilt,
    /// It ran to its end; `true` where it exited with success.
    Exited(bool),
    /// It was still running when the time bound ran out, and was killed.
    TimedOut,
}

/// The status that one candidate's outcome settles, if any.
pub open spec fn decisive(o: RunOutcome) -> Option<Status> {
    match o {
        RunOutcome::Exited(true) => Some(Status::Passed),
        RunOutcome::TimedOut => Some(Status::Timeout),
        _ => None,
    }
}

/// The status of a unit whose candidates, in order, had these outcomes: the
/// first decisive one, else `Failed`.
pub open spec fn unit_status(outcomes: Seq<RunOutcome>) -> Status
    decreases outcomes.len(),
{
    if outcomes.len() == 0 {
        Status::Failed
    } else {
        match decisive(outcomes[0]) {
            Some(s) => s,
            None => unit_status(outcomes.drop_first()),
        }
    }
}

/// How many candidates are run before the unit is settled.
pub open spec fn candidates_tried(outcomes: Seq<RunOutcome>) -> nat
    decreases outcomes.len(),
{
    if outcomes.len() == 0 {
        0
    } else {
        match decisive(outcomes[0]) {
            Some(_) => 1,
            None => 1 + candidates_tried(outcomes.drop_first()),
        }
    }
}

/// Step of the candidate loop: `Some(status)` ends the unit with that status,
/// `None` moves on to the next candidate (or to `Failed` if none is left).
pub fn after_candidate(outcome: RunOutcome) -> (r: Option<Status>)
    ensures
        r == decisive(outcome),
{
    match outcome {
        RunOutcome::Exited(true) => Some(Status::Passed),
        RunOutcome::TimedOut => Some(Status::Timeout),
        _ => None,
    }
}

/// The status of a unit from the outcomes of its candidates, in order.
pub fn unit_result(outcomes: &Vec<RunOutcome>) -> (r: Status)
    ensures
        r == unit_status(outcomes@),
{
    let mut i: usize = 0;
    assert(outcomes@.subrange(0, outcomes@.len() as int) =~= outcomes@);
    while i < outcomes.len()
        invariant
            i <= outcomes@.len(),
            unit_status(outcomes@) == unit_status(outcomes@.subrange(i as int, outcomes@.len() as int)),
        decreases outcomes@.len() - i,
    {
        let rest = Ghost(outcomes@.subrange(i as int, outcomes@.len() as int));
        assert(rest@.drop_first() =~= outcomes@.subrange(i + 1, outcomes@.len() as int));
        if let Some(s) = after_candidate(outcomes[i]) {
            return s;
        }
        i = i + 1;
    }
    assert(outcomes@.subrange(i as int, outcomes@.len() as int).len() == 0);
    Status::Failed
}

/// A candidate that hangs past the bound settles its unit as `Timeout`, and no
/// later candidate is tried, whatever it would have done.
pub proof fn lemma_timeout_precedence(rest: Seq<RunOutcome>)
    ensures
        unit_status(seq![RunOutcome::TimedOut] + rest) == Status::Timeout,
        candidates_tried(seq![RunOutcome::TimedOut] + rest) == 1,
{
}

/// A candidate that cannot be built is passed over: the unit's status is that
/// of the remaining candidates.
pub proof fn lemma_fallback(rest: Seq<RunOutcome>)
    ensures
        unit_status(seq![RunOutcome::NotBuilt] + rest) == unit_status(rest),
        candidates_tried(seq![RunOutcome::NotBuilt] + rest) == 1 + candidates_tried(rest),
{
    assert((seq![RunOutcome::NotBuilt] + rest).drop_first() =~= rest);
}

} // verus!
