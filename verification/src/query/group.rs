//! Groups: a run of builder calls that is kept as a value and carried out
//! later, on the statement that the group joins.
//!
//! A group that joins as an item of a list (after `and`, `or` or `comma`)
//! is put in parentheses, and the calls inside it start a list of their
//! own. This is how `x AND ( y OR z)` is written.

use vstd::prelude::*;
use super::builder::{lemma_separators, Fragment, Joiner, Query};
use super::statement::Statement;

verus! {

/// A run of builder calls, kept as a value.
pub trait Steps: Sized {
    /// Whether every fragment of the run can join a statement.
    spec fn well_formed(self) -> bool;

    /// The statement that results when the calls are carried out on `before`.
    spec fn ran(self, before: Statement) -> Statement;

    /// Carries the calls out on `query`, in the order in which they were made.
    fn run(self, query: &mut Query)
        requires
            self.well_formed(),
            old(query).wf(),
        ensures
            final(query).wf(),
            final(query)@ == self.ran(old(query)@),
    ;
}

/// The run of no calls.
pub struct NoSteps;

impl Steps for NoSteps {
    open spec fn well_formed(self) -> bool {
        true
    }

    open spec fn ran(self, before: Statement) -> Statement {
        before
    }

    fn run(self, query: &mut Query) {
    }
}

/// A run of calls followed by one more.
pub struct Step<S, F> {
    /// The calls made before this one.
    pub earlier: S,
    /// The way in which the fragment joins.
    pub joiner: Joiner,
    /// The fragment that joins.
    pub fragment: F,
}

impl<S: Steps, F: Fragment> Steps for Step<S, F> {
    open spec fn well_formed(self) -> bool {
        &&& self.earlier.well_formed()
        &&& self.fragment.well_formed()
    }

    open spec fn ran(self, before: Statement) -> Statement {
        self.joiner.applied(self.earlier.ran(before), self.fragment)
    }

    fn run(self, query: &mut Query) {
        self.earlier.run(query);
        query.join(self.joiner, self.fragment);
    }
}

/// A group of builder calls, to be handed to a statement as one fragment.
pub struct Group<S> {
    /// The calls of the group.
    pub steps: S,
}

impl Group<NoSteps> {
    /// The group of no calls.
    pub fn new() -> (group: Group<NoSteps>)
        ensures
            group.steps == NoSteps,
    {
        Group { steps: NoSteps }
    }
}

impl<S: Steps> Group<S> {
    /// The group with one more call: `push` of `frag`.
    pub fn push<F: Fragment>(self, frag: F) -> (group: Group<Step<S, F>>)
        ensures
            group.steps == (Step { earlier: self.steps, joiner: Joiner::Push, fragment: frag }),
    {
        Group { steps: Step { earlier: self.steps, joiner: Joiner::Push, fragment: frag } }
    }

    /// The group with one more call: `and` of `frag`.
    pub fn and<F: Fragment>(self, frag: F) -> (group: Group<Step<S, F>>)
        ensures
            group.steps == (Step { earlier: self.steps, joiner: Joiner::And, fragment: frag }),
    {
        Group { steps: Step { earlier: self.steps, joiner: Joiner::And, fragment: frag } }
    }

    /// The group with one more call: `or` of `frag`.
    pub fn or<F: Fragment>(self, frag: F) -> (group: Group<Step<S, F>>)
        ensures
            group.steps == (Step { earlier: self.steps, joiner: Joiner::Or, fragment: frag }),
    {
        Group { steps: Step { earlier: self.steps, joiner: Joiner::Or, fragment: frag } }
    }

    /// The group with one more call: `comma` of `frag`.
    pub fn comma<F: Fragment>(self, frag: F) -> (group: Group<Step<S, F>>)
        ensures
            group.steps == (Step { earlier: self.steps, joiner: Joiner::Comma, fragment: frag }),
    {
        Group { steps: Step { earlier: self.steps, joiner: Joiner::Comma, fragment: frag } }
    }
}

/// A group joins a statement by carrying out its calls on it. Where the
/// group joins as an item of a list, its calls are put in parentheses and
/// start a list of their own; the outer list goes on after the group.
impl<S: Steps> Fragment for Group<S> {
    open spec fn well_formed(self) -> bool {
        self.steps.well_formed()
    }

    open spec fn appended(self, before: Statement) -> Statement {
        if before.separated {
            self.steps.ran(before.flagged(false).with_text("("@)).flagged(true).with_text(")"@)
        } else {
            self.steps.ran(before)
        }
    }

    fn push_to_query(self, query: &mut Query) {
        proof {
            lemma_separators();
        }
        let separated = query.is_separated();
        if separated {
            query.set_separated(false);
            query.append_buffer("(");
        }
        self.steps.run(query);
        if separated {
            query.set_separated(true);
            query.append_buffer(")");
        }
    }
}

} // verus!
