//! The fragments: literal text, text with bound values, and a complete
//! statement.

use vstd::prelude::*;
use vstd::std_specs::convert::IntoSpec;
use super::builder::{lemma_separators, Fragment, Query};
use super::statement::Statement;
use super::template::placeholders;
use super::value::Value;

verus! {

/// Literal text: it joins the statement as it is, and binds nothing.
impl Fragment for &str {
    open spec fn well_formed(self) -> bool {
        placeholders(self@) == 0
    }

    open spec fn appended(self, before: Statement) -> Statement {
        before.with_text(self@)
    }

    fn push_to_query(self, query: &mut Query) {
        query.append_buffer(self);
    }
}

/// Text with one placeholder, and the value bound to it.
impl<T: Into<Value>> Fragment for (&str, T) {
    open spec fn well_formed(self) -> bool {
        &&& placeholders(self.0@) == 1
        &&& T::obeys_into_spec()
    }

    open spec fn appended(self, before: Statement) -> Statement {
        before.with(self.0@, seq![self.1.into_spec()])
    }

    fn push_to_query(self, query: &mut Query) {
        let mut args: Vec<Value> = Vec::new();
        args.push(self.1.into());
        query.append_buffer_with_args(self.0, args);
    }
}

/// Text with two placeholders, and the values bound to them, in order.
impl<T: Into<Value>> Fragment for (&str, T, T) {
    open spec fn well_formed(self) -> bool {
        &&& placeholders(self.0@) == 2
        &&& T::obeys_into_spec()
    }

    open spec fn appended(self, before: Statement) -> Statement {
        before.with(self.0@, seq![self.1.into_spec(), self.2.into_spec()])
    }

    fn push_to_query(self, query: &mut Query) {
        let mut args: Vec<Value> = Vec::new();
        args.push(self.1.into());
        args.push(self.2.into());
        assert(args@ =~= seq![self.1.into_spec(), self.2.into_spec()]);
        query.append_buffer_with_args(self.0, args);
    }
}

/// Text with three placeholders, and the values bound to them, in order.
impl<T: Into<Value>> Fragment for (&str, T, T, T) {
    open spec fn well_formed(self) -> bool {
        &&& placeholders(self.0@) == 3
        &&& T::obeys_into_spec()
    }

    open spec fn appended(self, before: Statement) -> Statement {
        before.with(self.0@, seq![self.1.into_spec(), self.2.into_spec(), self.3.into_spec()])
    }

    fn push_to_query(self, query: &mut Query) {
        let mut args: Vec<Value> = Vec::new();
        args.push(self.1.into());
        args.push(self.2.into());
        args.push(self.3.into());
        assert(args@ =~= seq![self.1.into_spec(), self.2.into_spec(), self.3.into_spec()]);
        query.append_buffer_with_args(self.0, args);
    }
}

/// A complete statement: its template and its values are spliced in. Where
/// it joins as an item of a list (after `and`, `or` or `comma`), it is put
/// in parentheses.
impl Fragment for Query {
    open spec fn well_formed(self) -> bool {
        self.wf()
    }

    open spec fn appended(self, before: Statement) -> Statement {
        if before.separated {
            before.with_text("("@).with(self@.template, self@.args).with_text(")"@)
        } else {
            before.with(self@.template, self@.args)
        }
    }

    fn push_to_query(self, query: &mut Query) {
        proof {
            lemma_separators();
        }
        let separated = query.is_separated();
        if separated {
            query.append_buffer("(");
        }
        query.splice(self);
        if separated {
            query.append_buffer(")");
        }
    }
}

} // verus!
