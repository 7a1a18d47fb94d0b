//! The statement builder and the protocol by which fragments join it.

use vstd::prelude::*;
use super::statement::Statement;
use super::template::{has_text, placeholders, push_marker, rendered_from, PLACEHOLDER};
use super::value::Value;

verus! {

/// A statement under construction.
///
/// The builder keeps the literal text apart from the places where
/// parameters are bound: `buffer` holds the text without its placeholders,
/// `arg_indexes` the offset into `buffer` at which each placeholder falls,
/// and `args` the value bound to each. `cursor` runs along with the length
/// of `buffer`; offsets and lengths count characters. Placeholders get
/// their numbers only when the statement is rendered, so statements built
/// apart can be spliced together.
pub struct Query {
    args: Vec<Value>,
    arg_indexes: Vec<usize>,
    buffer: Vec<char>,
    cursor: usize,
    separated: bool,
}

/// The template that a literal text and the offsets of its placeholders
/// stand for: the text with a `?` put in at every offset.
pub(super) open spec fn woven(text: Seq<char>, marks: Seq<usize>) -> Seq<char>
    decreases text.len() + marks.len(),
{
    if marks.len() > 0 && marks.last() >= text.len() {
        woven(text, marks.drop_last()).push(PLACEHOLDER)
    } else if text.len() > 0 {
        woven(text.drop_last(), marks).push(text.last())
    } else {
        Seq::empty()
    }
}

/// Offsets that do not decrease and lie within a text of length `len`.
pub(super) open spec fn marks_within(marks: Seq<usize>, len: nat) -> bool {
    &&& forall|i: int, j: int| 0 <= i <= j < marks.len() ==> marks[i] <= marks[j]
    &&& forall|i: int| 0 <= i < marks.len() ==> marks[i] <= len
}

/// A literal text holds no placeholder.
pub(super) open spec fn plain(text: Seq<char>) -> bool {
    forall|i: int| 0 <= i < text.len() ==> text[i] != PLACEHOLDER
}

/// A character appended to the text is appended to the template.
pub(super) proof fn lemma_woven_push_char(text: Seq<char>, marks: Seq<usize>, c: char)
    requires
        marks_within(marks, text.len()),
    ensures
        woven(text.push(c), marks) == woven(text, marks).push(c),
{
    assert(text.push(c).drop_last() =~= text);
}

/// An offset at the end of the text appends a placeholder to the template.
pub(super) proof fn lemma_woven_push_mark(text: Seq<char>, marks: Seq<usize>, at: usize)
    requires
        at == text.len(),
    ensures
        woven(text, marks.push(at)) == woven(text, marks).push(PLACEHOLDER),
{
    assert(marks.push(at).drop_last() =~= marks);
}

/// The template has one placeholder for each offset, and literal text
/// exactly if the text is not empty.
pub(super) proof fn lemma_woven_counts(text: Seq<char>, marks: Seq<usize>)
    requires
        plain(text),
        marks_within(marks, text.len()),
    ensures
        placeholders(woven(text, marks)) == marks.len(),
        has_text(woven(text, marks)) <==> text.len() > 0,
    decreases text.len() + marks.len(),
{
    let t = woven(text, marks);
    if marks.len() > 0 && marks.last() >= text.len() {
        let front = woven(text, marks.drop_last());
        lemma_woven_counts(text, marks.drop_last());
        assert(t.drop_last() =~= front);
        if has_text(front) {
            let i = choose|i: int| 0 <= i < front.len() && front[i] != PLACEHOLDER;
            assert(t[i] != PLACEHOLDER);
        }
        if has_text(t) {
            let i = choose|i: int| 0 <= i < t.len() && t[i] != PLACEHOLDER;
            assert(front[i] != PLACEHOLDER);
        }
    } else if text.len() > 0 {
        let front = woven(text.drop_last(), marks);
        lemma_woven_counts(text.drop_last(), marks);
        assert(t.drop_last() =~= front);
        assert(t[t.len() - 1] != PLACEHOLDER);
    } else {
    }
}

/// Texts joined, with the offsets of the second shifted by the length of
/// the first, stand for the two templates joined.
pub(super) proof fn lemma_woven_concat(
    at: Seq<char>,
    am: Seq<usize>,
    bt: Seq<char>,
    bm: Seq<usize>,
    shifted: Seq<usize>,
)
    requires
        marks_within(am, at.len()),
        marks_within(bm, bt.len()),
        shifted.len() == bm.len(),
        forall|k: int| 0 <= k < bm.len() ==> shifted[k] == bm[k] + at.len(),
    ensures
        woven(at + bt, am + shifted) == woven(at, am) + woven(bt, bm),
        marks_within(am + shifted, (at + bt).len()),
    decreases bt.len() + bm.len(),
{
    let text = at + bt;
    let marks = am + shifted;
    if bm.len() > 0 && bm.last() >= bt.len() {
        assert(marks.last() == shifted.last());
        assert(marks.drop_last() =~= am + shifted.drop_last());
        lemma_woven_concat(at, am, bt, bm.drop_last(), shifted.drop_last());
        assert(woven(at, am) + woven(bt, bm.drop_last()).push(PLACEHOLDER) =~= (woven(at, am)
            + woven(bt, bm.drop_last())).push(PLACEHOLDER));
    } else if bt.len() > 0 {
        if bm.len() > 0 {
            assert(marks.last() == shifted.last());
        } else {
            assert(marks =~= am);
        }
        assert(text.drop_last() =~= at + bt.drop_last());
        assert(text.last() == bt.last());
        assert(marks_within(bm, bt.drop_last().len())) by {
            assert forall|i: int| 0 <= i < bm.len() implies bm[i] <= bt.len() - 1 by {
                assert(bm[i] <= bm[bm.len() - 1]);
            }
        }
        lemma_woven_concat(at, am, bt.drop_last(), bm, shifted);
        assert(woven(at, am) + woven(bt.drop_last(), bm).push(bt.last()) =~= (woven(at, am)
            + woven(bt.drop_last(), bm)).push(bt.last()));
    } else {
        assert(text =~= at);
        assert(marks =~= am);
        assert(woven(at, am) + woven(bt, bm) =~= woven(at, am));
    }
}

/// What the separators hold: literal text and no placeholder.
pub proof fn lemma_separators()
    ensures
        placeholders(" "@) == 0,
        placeholders(","@) == 0,
        placeholders(" AND "@) == 0,
        placeholders(" OR "@) == 0,
        placeholders("("@) == 0,
        placeholders(")"@) == 0,
{
    reveal_strlit(" ");
    reveal_strlit(",");
    reveal_strlit(" AND ");
    reveal_strlit(" OR ");
    reveal_strlit("(");
    reveal_strlit(")");
    reveal_with_fuel(placeholders, 6);
}

/// Anything that can append itself to a statement under construction.
pub trait Fragment: Sized {
    /// Whether the fragment can join a statement: it binds exactly one
    /// value for each of its placeholders.
    spec fn well_formed(self) -> bool;

    /// The statement that results when the fragment joins `before`.
    spec fn appended(self, before: Statement) -> Statement;

    /// Appends the fragment to `query`.
    fn push_to_query(self, query: &mut Query)
        requires
            self.well_formed(),
            old(query).wf(),
        ensures
            final(query).wf(),
            final(query)@ == self.appended(old(query)@),
    ;
}

/// The four ways in which a fragment joins a statement.
#[derive(Debug, Clone, Copy, PartialEq, Eq)]
pub enum Joiner {
    /// Plain continuation.
    Push,
    /// An item joined by `AND`.
    And,
    /// An item joined by `OR`.
    Or,
    /// An item joined by a comma.
    Comma,
}

impl Joiner {
    /// The statement that results when `frag` joins `before` in this way.
    pub open spec fn applied<F: Fragment>(self, before: Statement, frag: F) -> Statement {
        match self {
            Joiner::Push => frag.appended(before.spaced()),
            Joiner::And => frag.appended(before.joined(" AND "@)).flagged(true),
            Joiner::Or => frag.appended(before.joined(" OR "@)).flagged(true),
            Joiner::Comma => frag.appended(before.joined(","@)).flagged(true),
        }
    }
}

impl View for Query {
    type V = Statement;

    closed spec fn view(&self) -> Statement {
        Statement {
            template: woven(self.buffer@, self.arg_indexes@),
            args: self.args@,
            separated: self.separated,
        }
    }
}

impl Default for Query {
    /// The statement with no content.
    fn default() -> (query: Query)
        ensures
            query.wf(),
            query@ == Statement::empty(),
    {
        Query::empty()
    }
}

impl Query {
    /// The builder's invariant: the placeholder offsets do not decrease
    /// and lie within the text, the text itself holds no placeholder,
    /// there is one bound value for each offset, and the cursor stands at
    /// the end of the text.
    pub closed spec fn wf(&self) -> bool {
        &&& marks_within(self.arg_indexes@, self.buffer@.len())
        &&& plain(self.buffer@)
        &&& self.args@.len() == self.arg_indexes@.len()
        &&& self.cursor == self.buffer@.len()
    }

    /// A well-formed builder holds one value for each placeholder.
    pub proof fn lemma_balanced(&self)
        requires
            self.wf(),
        ensures
            self@.balanced(),
    {
        lemma_woven_counts(self.buffer@, self.arg_indexes@);
    }

    /// Creates a statement with no content.
    pub fn empty() -> (query: Query)
        ensures
            query.wf(),
            query@ == Statement::empty(),
    {
        Query {
            args: Vec::new(),
            arg_indexes: Vec::new(),
            buffer: Vec::new(),
            cursor: 0,
            separated: false,
        }
    }

    /// Creates a statement from one fragment.
    pub fn new<F: Fragment>(frag: F) -> (query: Query)
        requires
            frag.well_formed(),
        ensures
            query.wf(),
            query@ == frag.appended(Statement::empty()),
    {
        let mut query = Query::empty();
        frag.push_to_query(&mut query);
        query
    }

    /// Continues the statement with a fragment: a space after existing
    /// text, then the fragment. This is plain concatenation, so the next
    /// joining call writes no separator.
    pub fn push<F: Fragment>(&mut self, frag: F) -> (ret: &mut Self)
        requires
            old(self).wf(),
            frag.well_formed(),
        ensures
            ret.wf(),
            ret@ == Joiner::Push.applied(old(self)@, frag),
            *final(self) == *final(ret),
    {
        proof {
            lemma_separators();
        }
        self.separated = false;
        if self.has_text() {
            self.append_buffer(" ");
        }
        frag.push_to_query(self);
        self
    }

    /// Joins a fragment with `AND`: the keyword if the last call was a
    /// joining one, else a space after existing text; then the fragment.
    pub fn and<F: Fragment>(&mut self, frag: F) -> (ret: &mut Self)
        requires
            old(self).wf(),
            frag.well_formed(),
        ensures
            ret.wf(),
            ret@ == Joiner::And.applied(old(self)@, frag),
            *final(self) == *final(ret),
    {
        proof {
            lemma_separators();
        }
        if self.separated {
            self.append_buffer(" AND ");
        } else if self.has_text() {
            self.append_buffer(" ");
        }
        frag.push_to_query(self);
        self.separated = true;
        self
    }

    /// Joins a fragment with a comma: the comma if the last call was a
    /// joining one, else a space after existing text; then the fragment.
    pub fn comma<F: Fragment>(&mut self, frag: F) -> (ret: &mut Self)
        requires
            old(self).wf(),
            frag.well_formed(),
        ensures
            ret.wf(),
            ret@ == Joiner::Comma.applied(old(self)@, frag),
            *final(self) == *final(ret),
    {
        proof {
            lemma_separators();
        }
        if self.separated {
            self.append_buffer(",");
        } else if self.has_text() {
            self.append_buffer(" ");
        }
        frag.push_to_query(self);
        self.separated = true;
        self
    }

    /// Joins a fragment with `OR`: the keyword if the last call was a
    /// joining one, else a space after existing text; then the fragment.
    pub fn or<F: Fragment>(&mut self, frag: F) -> (ret: &mut Self)
        requires
            old(self).wf(),
            frag.well_formed(),
        ensures
            ret.wf(),
            ret@ == Joiner::Or.applied(old(self)@, frag),
            *final(self) == *final(ret),
    {
        proof {
            lemma_separators();
        }
        if self.separated {
            self.append_buffer(" OR ");
        } else if self.has_text() {
            self.append_buffer(" ");
        }
        frag.push_to_query(self);
        self.separated = true;
        self
    }

    /// Joins a fragment in the given way: as `push`, `and`, `or` or
    /// `comma` does.
    pub fn join<F: Fragment>(&mut self, joiner: Joiner, frag: F) -> (ret: &mut Self)
        requires
            old(self).wf(),
            frag.well_formed(),
        ensures
            ret.wf(),
            ret@ == joiner.applied(old(self)@, frag),
            *final(self) == *final(ret),
    {
        match joiner {
            Joiner::Push => self.push(frag),
            Joiner::And => self.and(frag),
            Joiner::Or => self.or(frag),
            Joiner::Comma => self.comma(frag),
        }
    }

    /// Tests the builder's invariant. Callers that Verus has not checked
    /// can break it, by handing over a fragment whose values and
    /// placeholders differ in number.
    pub fn is_well_formed(&self) -> (ok: bool)
        ensures
            ok == self.wf(),
    {
        if self.args.len() != self.arg_indexes.len() || self.cursor != self.buffer.len() {
            return false;
        }
        let mut i: usize = 0;
        while i < self.buffer.len()
            invariant
                i <= self.buffer.len(),
                plain(self.buffer@.take(i as int)),
            decreases self.buffer.len() - i,
        {
            if self.buffer[i] == PLACEHOLDER {
                return false;
            }
            proof {
                let shorter = self.buffer@.take(i as int);
                let longer = self.buffer@.take(i + 1);
                assert forall|k: int| 0 <= k < longer.len() implies longer[k] != PLACEHOLDER by {
                    if k < i {
                        assert(shorter[k] != PLACEHOLDER);
                    }
                }
            }
            i = i + 1;
        }
        proof {
            assert(self.buffer@.take(i as int) =~= self.buffer@);
        }
        let mut j: usize = 0;
        while j < self.arg_indexes.len()
            invariant
                j <= self.arg_indexes.len(),
                marks_within(self.arg_indexes@.take(j as int), self.buffer@.len()),
            decreases self.arg_indexes.len() - j,
        {
            if self.arg_indexes[j] > self.buffer.len() || (j > 0 && self.arg_indexes[j - 1]
                > self.arg_indexes[j]) {
                return false;
            }
            proof {
                let shorter = self.arg_indexes@.take(j as int);
                let longer = self.arg_indexes@.take(j + 1);
                assert forall|a: int, b: int| 0 <= a <= b < longer.len() implies longer[a]
                    <= longer[b] by {
                    if b < j {
                        assert(shorter[a] <= shorter[b]);
                    } else if a < j {
                        assert(shorter[a] <= shorter[j - 1]);
                    }
                }
                assert forall|a: int| 0 <= a < longer.len() implies longer[a]
                    <= self.buffer@.len() by {
                    if a < j {
                        assert(shorter[a] <= self.buffer@.len());
                    }
                }
            }
            j = j + 1;
        }
        proof {
            assert(self.arg_indexes@.take(j as int) =~= self.arg_indexes@);
        }
        true
    }

    /// Whether the last call was a joining one.
    pub fn is_separated(&self) -> (separated: bool)
        ensures
            separated == self@.separated,
    {
        self.separated
    }

    /// Sets the flag that says whether the last call was a joining one.
    pub(super) fn set_separated(&mut self, separated: bool)
        requires
            old(self).wf(),
        ensures
            final(self).wf(),
            final(self)@ == old(self)@.flagged(separated),
    {
        self.separated = separated;
    }

    /// Whether the statement holds literal text.
    pub fn has_text(&self) -> (nonempty: bool)
        requires
            self.wf(),
        ensures
            nonempty == self@.has_text(),
    {
        proof {
            lemma_woven_counts(self.buffer@, self.arg_indexes@);
        }
        self.buffer.len() > 0
    }

    /// Appends literal text that holds no placeholder.
    pub(super) fn append_buffer(&mut self, text: &str)
        requires
            old(self).wf(),
            placeholders(text@) == 0,
        ensures
            final(self).wf(),
            final(self)@ == old(self)@.with_text(text@),
    {
        self.append_buffer_with_args(text, Vec::new());
    }

    /// Appends text and the values bound in it: every `?` of the text
    /// becomes a placeholder at the current end of the literal text, every
    /// other character joins the literal text.
    pub(super) fn append_buffer_with_args(&mut self, text: &str, args: Vec<Value>)
        requires
            old(self).wf(),
            placeholders(text@) == args@.len(),
        ensures
            final(self).wf(),
            final(self)@ == old(self)@.with(text@, args@),
    {
        let mut args = args;
        for c in it: text.chars()
            invariant
                it.seq() == text@,
                marks_within(self.arg_indexes@, self.buffer@.len()),
                plain(self.buffer@),
                self.cursor == self.buffer@.len(),
                self.arg_indexes@.len() == old(self).arg_indexes@.len() + placeholders(
                    text@.take(it.index()),
                ),
                woven(self.buffer@, self.arg_indexes@) == old(self)@.template + text@.take(
                    it.index(),
                ),
                self.args == old(self).args,
                self.separated == old(self).separated,
        {
            proof {
                let seen = text@.take(it.index());
                let next = text@.take(it.index() + 1);
                assert(next.drop_last() =~= seen);
                assert(next.last() == c);
                assert(old(self)@.template + next =~= (old(self)@.template + seen).push(c));
            }
            if c == PLACEHOLDER {
                proof {
                    lemma_woven_push_mark(self.buffer@, self.arg_indexes@, self.cursor);
                }
                self.arg_indexes.push(self.cursor);
            } else {
                proof {
                    lemma_woven_push_char(self.buffer@, self.arg_indexes@, c);
                }
                self.buffer.push(c);
                assert(self.buffer.len() == self.cursor + 1);
                self.cursor = self.cursor + 1;
            }
        }
        proof {
            assert(text@.take(text@.len() as int) =~= text@);
        }
        self.args.append(&mut args);
    }

    /// Splices a complete statement in: appends its literal text, its
    /// placeholder offsets shifted by the length of the text that was
    /// already there, and its bound values.
    pub(super) fn splice(&mut self, other: Query)
        requires
            old(self).wf(),
            other.wf(),
        ensures
            final(self).wf(),
            final(self)@ == old(self)@.with(other@.template, other@.args),
    {
        let mut other = other;
        let cursor = self.cursor;
        let ghost text = other.buffer@;
        self.buffer.append(&mut other.buffer);
        let total = self.buffer.len();
        self.cursor = self.cursor + other.cursor;
        let mut k: usize = 0;
        while k < other.arg_indexes.len()
            invariant
                k <= other.arg_indexes.len(),
                cursor == old(self).buffer@.len(),
                total == cursor + text.len(),
                self.cursor == total,
                self.buffer@ == old(self).buffer@ + text,
                marks_within(other.arg_indexes@, text.len()),
                self.arg_indexes@.len() == old(self).arg_indexes@.len() + k,
                self.arg_indexes@.take(old(self).arg_indexes@.len() as int) == old(
                    self,
                ).arg_indexes@,
                forall|i: int|
                    0 <= i < k ==> self.arg_indexes[old(self).arg_indexes@.len() + i]
                        == other.arg_indexes[i] + cursor,
                self.args == old(self).args,
                self.separated == old(self).separated,
            decreases other.arg_indexes.len() - k,
        {
            let ghost before = self.arg_indexes@;
            self.arg_indexes.push(other.arg_indexes[k] + cursor);
            proof {
                assert(self.arg_indexes@.take(old(self).arg_indexes@.len() as int) =~= before.take(
                    old(self).arg_indexes@.len() as int,
                ));
            }
            k = k + 1;
        }
        proof {
            let am = old(self).arg_indexes@;
            let shifted = self.arg_indexes@.skip(am.len() as int);
            assert(self.arg_indexes@ =~= am + shifted);
            lemma_woven_concat(old(self).buffer@, am, text, other.arg_indexes@, shifted);
            assert forall|i: int| 0 <= i < self.buffer@.len() implies self.buffer@[i]
                != PLACEHOLDER by {
                if i >= cursor {
                    assert(self.buffer@[i] == text[i - cursor]);
                }
            }
        }
        self.args.append(&mut other.args);
    }

    /// Gives up the statement for its bound values, in the order of their
    /// placeholders.
    pub fn into_args(self) -> (args: Vec<Value>)
        ensures
            args@ == self@.args,
    {
        self.args
    }

    /// Renders the statement: walks the literal text and the placeholder
    /// offsets, and writes `$1`, `$2`, and so on where the placeholders fall.
    pub fn to_string(&self) -> (text: String)
        requires
            self.wf(),
        ensures
            text@ == self@.text(),
    {
        let mut out = String::new();
        let mut i: usize = 0;
        let mut j: usize = 0;
        while j < self.arg_indexes.len() || i < self.buffer.len()
            invariant
                self.wf(),
                i <= self.buffer.len(),
                j <= self.arg_indexes.len(),
                forall|k: int| 0 <= k < j ==> self.arg_indexes[k] <= i,
                j < self.arg_indexes.len() ==> self.arg_indexes[j as int] >= i,
                out@ == rendered_from(
                    woven(self.buffer@.take(i as int), self.arg_indexes@.take(j as int)),
                    1,
                ),
            decreases (self.arg_indexes.len() - j) + (self.buffer.len() - i),
        {
            let ghost text = self.buffer@.take(i as int);
            let ghost marks = self.arg_indexes@.take(j as int);
            let ghost seen = woven(text, marks);
            if j < self.arg_indexes.len() && self.arg_indexes[j] == i {
                proof {
                    lemma_woven_counts(text, marks);
                    lemma_woven_push_mark(text, marks, i);
                    assert(marks.push(i) =~= self.arg_indexes@.take(j + 1));
                    assert(seen.push(PLACEHOLDER).drop_last() =~= seen);
                }
                push_marker(&mut out, j + 1);
                j = j + 1;
            } else {
                let c = self.buffer[i];
                proof {
                    lemma_woven_push_char(text, marks, c);
                    assert(text.push(c) =~= self.buffer@.take(i + 1));
                    assert(seen.push(c).drop_last() =~= seen);
                }
                out.push(c);
                i = i + 1;
            }
        }
        proof {
            assert(self.buffer@.take(i as int) =~= self.buffer@);
            assert(self.arg_indexes@.take(j as int) =~= self.arg_indexes@);
        }
        out
    }

    /// Gives up the statement for its rendered text and its bound values:
    /// the value at position `n` belongs to the marker `$n`.
    pub fn into_parts(self) -> (parts: (String, Vec<Value>))
        requires
            self.wf(),
        ensures
            parts.0@ == self@.text(),
            parts.1@ == self@.args,
            self@.balanced(),
    {
        proof {
            self.lemma_balanced();
        }
        let text = self.to_string();
        (text, self.args)
    }
}

} // verus!
