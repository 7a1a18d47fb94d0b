//! What a statement under construction is, as a mathematical value.

use vstd::prelude::*;
use super::template::{has_text, placeholders, rendered};
use super::value::Value;

verus! {

/// The abstract state of a statement under construction.
pub struct Statement {
    /// The text so far, with a `?` wherever a parameter is bound.
    pub template: Seq<char>,
    /// The bound values, in the order of their placeholders.
    pub args: Seq<Value>,
    /// Whether the last call was a joining one (`and`, `or`, `comma`), so
    /// that the next joining call has to write its separator.
    pub separated: bool,
}

impl Statement {
    /// The statement with no content.
    pub open spec fn empty() -> Statement {
        Statement { template: Seq::empty(), args: Seq::empty(), separated: false }
    }

    /// Whether the statement holds literal text, that is, anything besides
    /// placeholders.
    pub open spec fn has_text(self) -> bool {
        has_text(self.template)
    }

    /// Whether there is exactly one bound value for each placeholder.
    pub open spec fn balanced(self) -> bool {
        placeholders(self.template) == self.args.len()
    }

    /// The statement followed by `text` and the values bound in it.
    pub open spec fn with(self, text: Seq<char>, values: Seq<Value>) -> Statement {
        Statement {
            template: self.template + text,
            args: self.args + values,
            separated: self.separated,
        }
    }

    /// The statement followed by literal text.
    pub open spec fn with_text(self, text: Seq<char>) -> Statement {
        self.with(text, Seq::empty())
    }

    /// The statement with its flag set to `separated`.
    pub open spec fn flagged(self, separated: bool) -> Statement {
        Statement { template: self.template, args: self.args, separated }
    }

    /// The statement made ready for a plain continuation: a space after
    /// existing text, and the flag cleared.
    pub open spec fn spaced(self) -> Statement {
        if self.has_text() {
            self.with_text(" "@).flagged(false)
        } else {
            self.flagged(false)
        }
    }

    /// The statement made ready for a joined item: `separator` if the last
    /// call was a joining one, else a space after existing text.
    pub open spec fn joined(self, separator: Seq<char>) -> Statement {
        if self.separated {
            self.with_text(separator)
        } else if self.has_text() {
            self.with_text(" "@)
        } else {
            self
        }
    }

    /// The text of the statement: its template with the placeholders
    /// replaced, from left to right, by `$1`, `$2`, and so on.
    pub open spec fn text(self) -> Seq<char> {
        rendered(self.template)
    }
}

} // verus!
