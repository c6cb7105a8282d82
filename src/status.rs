use vstd::prelude::*;

verus! {

/// Terminal outcome of one (submission, test case) unit.
#[derive(Clone, Copy, Debug, PartialEq, Eq, Structural)]
pub enum Status {
    Failed,
    Passed,
    Timeout,
}

/// The marker written after a test case in the feedback text.
pub open spec fn status_marker(s: Status) -> Seq<char> {
    match s {
        Status::Passed => seq!['\u{2714}', '\u{fe0f}'],
        Status::Failed => seq!['\u{274c}'],
        Status::Timeout => seq!['\u{231b}'],
    }
}

impl Status {
    pub fn get_emoji(&self) -> (r: &'static str)
        ensures
            r@ == status_marker(*self),
    {
        match self {
            Status::Passed => {
                proof {
                    reveal_strlit("\u{2714}\u{fe0f}");
                }
                "\u{2714}\u{fe0f}"
            },
            Status::Failed => {
                proof {
                    reveal_strlit("\u{274c}");
                }
                "\u{274c}"
            },
            Status::Timeout => {
                proof {
                    reveal_strlit("\u{231b}");
                }
                "\u{231b}"
            },
        }
    }
}

} // verus!
