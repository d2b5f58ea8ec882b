//! Per-stage concurrency policy: how many tasks may be in flight at once,
//! and whether the stage's output order must match its input order.

use vstd::prelude::*;

verus! {

/// The concurrency policy of one stage: up to `n` tasks in flight,
/// with output either in admission order (`Ordered`) or in completion
/// order (`Unordered`).
#[derive(Clone, Copy, Debug, PartialEq, Eq, Structural)]
pub enum Concurrency {
    /// Output order equals admission order; completions that arrive early
    /// wait until every earlier task has been emitted.
    Ordered(usize),
    /// Output order is completion order.
    Unordered(usize),
}

impl Concurrency {
    /// The in-flight task limit of this policy.
    pub open spec fn spec_width(self) -> usize {
        match self {
            Concurrency::Ordered(n) => n,
            Concurrency::Unordered(n) => n,
        }
    }

    /// A policy is valid when its in-flight limit is at least one.
    pub open spec fn is_valid(self) -> bool {
        self.spec_width() >= 1
    }

    /// True when this policy preserves admission order.
    pub open spec fn spec_is_ordered(self) -> bool {
        self is Ordered
    }

    pub fn width(&self) -> (n: usize)
        ensures
            n == self.spec_width(),
    {
        match self {
            Concurrency::Ordered(n) => *n,
            Concurrency::Unordered(n) => *n,
        }
    }

    pub fn is_ordered(&self) -> (b: bool)
        ensures
            b == self.spec_is_ordered(),
    {
        match self {
            Concurrency::Ordered(_) => true,
            Concurrency::Unordered(_) => false,
        }
    }
}

} // verus!
