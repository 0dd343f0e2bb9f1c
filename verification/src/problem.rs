//! Refusals, and sizes that the machine cannot count.
use vstd::prelude::*;

verus! {

/// Why an input gives no result: it is refused with a message, or a size that it implies
/// is more than the machine counts.
#[derive(Debug)]
pub enum Problem {
    Refused(String),
    Overflow,
}

/// The mathematical form of a [`Problem`].
pub ghost enum ProblemView {
    Refused(Seq<char>),
    Overflow,
}

impl View for Problem {
    type V = ProblemView;

    open spec fn view(&self) -> ProblemView {
        match self {
            Problem::Refused(message) => ProblemView::Refused(message@),
            Problem::Overflow => ProblemView::Overflow,
        }
    }
}

/// The first of two problems.
pub open spec fn first_problem(
    a: Option<ProblemView>,
    b: Option<ProblemView>,
) -> Option<ProblemView> {
    if a is Some {
        a
    } else {
        b
    }
}

/// A complaint as a problem.
pub open spec fn refusal(error: Option<Seq<char>>) -> Option<ProblemView> {
    match error {
        Some(message) => Some(ProblemView::Refused(message)),
        None => None,
    }
}

/// A refusal under a condition.
pub open spec fn refuse_if(condition: bool, message: Seq<char>) -> Option<ProblemView> {
    if condition {
        Some(ProblemView::Refused(message))
    } else {
        None
    }
}

/// An overflow under a condition.
pub open spec fn overflow_if(condition: bool) -> Option<ProblemView> {
    if condition {
        Some(ProblemView::Overflow)
    } else {
        None
    }
}

/// A refusal with a message.
pub fn refused<T>(message: String) -> (r: Result<T, Problem>)
    ensures
        r matches Err(problem) && problem@ == ProblemView::Refused(message@),
{
    Err(Problem::Refused(message))
}

} // verus!
