//! What holds of every statement, however it was put together.

use vstd::prelude::*;
use super::builder::{lemma_separators, Fragment, Joiner, Query};
use super::group::{Group, NoSteps, Step, Steps};
use super::statement::Statement;
use super::template::{
    decimal,
    lemma_placeholders_concat,
    lemma_rendered_concat,
    lemma_rendered_plain,
    marker,
    placeholders,
    rendered,
    rendered_from,
    PLACEHOLDER,
};

verus! {

/// The number that a decimal notation stands for.
pub open spec fn number_of(digits: Seq<char>) -> nat
    decreases digits.len(),
{
    if digits.len() == 0 {
        0
    } else {
        let last = digits.last();
        let unit: nat = if last == '1' {
            1
        } else if last == '2' {
            2
        } else if last == '3' {
            3
        } else if last == '4' {
            4
        } else if last == '5' {
            5
        } else if last == '6' {
            6
        } else if last == '7' {
            7
        } else if last == '8' {
            8
        } else if last == '9' {
            9
        } else {
            0
        };
        number_of(digits.drop_last()) * 10 + unit
    }
}

/// Decimal notation can be read back.
pub proof fn lemma_decimal_read_back(n: nat)
    ensures
        number_of(decimal(n)) == n,
    decreases n,
{
    if n < 10 {
        assert(decimal(n).drop_last() =~= Seq::<char>::empty());
        assert(number_of(decimal(n).drop_last()) == 0);
    } else {
        lemma_decimal_read_back(n / 10);
        assert(decimal(n).drop_last() =~= decimal(n / 10));
    }
}

/// Markers with different numbers are different texts.
pub proof fn lemma_markers_distinct(i: nat, j: nat)
    requires
        i != j,
    ensures
        marker(i) != marker(j),
{
    lemma_decimal_read_back(i);
    lemma_decimal_read_back(j);
    if marker(i) == marker(j) {
        assert(marker(i).skip(1) =~= decimal(i));
        assert(marker(j).skip(1) =~= decimal(j));
    }
}

/// Placeholders are numbered by position alone. A placeholder with `k`
/// placeholders to its left is rendered as the marker `k + 1`, whatever
/// stands around it and in whatever pieces the template was put together;
/// the text to its left is rendered as if nothing followed, and the text
/// to its right is numbered on from `k + 2`.
pub proof fn lemma_renumbering(before: Seq<char>, after: Seq<char>)
    ensures
        rendered(before + seq![PLACEHOLDER] + after) == rendered(before) + marker(
            placeholders(before) + 1,
        ) + rendered_from(after, placeholders(before) + 2),
        placeholders(before + seq![PLACEHOLDER] + after) == placeholders(before) + 1
            + placeholders(after),
{
    let mark = seq![PLACEHOLDER];
    lemma_rendered_concat(before + mark, after, 1);
    lemma_rendered_concat(before, mark, 1);
    lemma_placeholders_concat(before + mark, after);
    lemma_placeholders_concat(before, mark);
    let first = 1 + placeholders(before);
    assert(mark.drop_last() =~= Seq::<char>::empty());
    assert(placeholders(mark.drop_last()) == 0);
    assert(placeholders(mark) == 1);
    assert(rendered_from(mark.drop_last(), first) =~= Seq::<char>::empty());
    assert(rendered_from(mark, first) =~= marker(first));
    assert(rendered_from(mark, 1 + placeholders(before)) =~= marker(placeholders(before) + 1));
}

/// Rendering does not depend on how a template was put together from
/// pieces: only the concatenation counts.
pub proof fn lemma_grouping_is_immaterial(a: Seq<char>, b: Seq<char>, c: Seq<char>)
    ensures
        rendered((a + b) + c) == rendered(a + (b + c)),
        rendered(a + b + c) == rendered(a) + rendered_from(b, 1 + placeholders(a)) + rendered_from(
            c,
            1 + placeholders(a) + placeholders(b),
        ),
{
    assert((a + b) + c =~= a + (b + c));
    lemma_rendered_concat(a + b, c, 1);
    lemma_rendered_concat(a, b, 1);
    lemma_placeholders_concat(a, b);
}

/// Splicing a complete statement into another keeps both numberings in
/// one: the spliced statement's placeholders are numbered on from the
/// count of those that were there, and its values follow those that were
/// there. As an item of a list the spliced statement stands in parentheses.
pub proof fn lemma_splice(target: Statement, spliced: Query)
    requires
        spliced.wf(),
    ensures
        spliced.appended(target).args == target.args + spliced@.args,
        spliced.appended(target).separated == target.separated,
        target.balanced() ==> spliced.appended(target).balanced(),
        !target.separated ==> spliced.appended(target).text() == target.text() + rendered_from(
            spliced@.template,
            1 + placeholders(target.template),
        ),
        target.separated ==> spliced.appended(target).text() == target.text() + "("@
            + rendered_from(spliced@.template, 1 + placeholders(target.template)) + ")"@,
{
    let a = target.template;
    let b = spliced@.template;
    spliced.lemma_balanced();
    lemma_separators();
    if target.separated {
        let open = "("@;
        let close = ")"@;
        assert(spliced.appended(target).args =~= target.args + spliced@.args);
        lemma_rendered_concat(a + open + b, close, 1);
        lemma_rendered_concat(a + open, b, 1);
        lemma_rendered_concat(a, open, 1);
        lemma_placeholders_concat(a + open + b, close);
        lemma_placeholders_concat(a + open, b);
        lemma_placeholders_concat(a, open);
        lemma_rendered_plain(open, 1 + placeholders(a));
        lemma_rendered_plain(close, 1 + placeholders(a + open + b));
    } else {
        lemma_rendered_concat(a, b, 1);
        lemma_placeholders_concat(a, b);
    }
}

/// Joining calls in a row write one separator between each two items and
/// none before the first: after a plain continuation, three items joined
/// by `and` stand as `x AND y AND z` behind a single space.
pub proof fn lemma_separator_once(start: Statement, x: &str, y: &str, z: &str)
    requires
        start.has_text(),
        !start.separated,
    ensures
        ({
            let first = Joiner::And.applied(start, x);
            let second = Joiner::And.applied(first, y);
            let third = Joiner::And.applied(second, z);
            &&& third.template == start.template + " "@ + x@ + " AND "@ + y@ + " AND "@ + z@
            &&& third.args == start.args
            &&& third.separated
        }),
{
    let first = Joiner::And.applied(start, x);
    let second = Joiner::And.applied(first, y);
    let third = Joiner::And.applied(second, z);
    assert(third.template =~= start.template + " "@ + x@ + " AND "@ + y@ + " AND "@ + z@);
    assert(third.args =~= start.args);
}

/// A group that joins as an item of a list stands in parentheses, and its
/// calls start a list of their own; a group that joins otherwise is no
/// more than its calls.
pub proof fn lemma_group<S: Steps>(target: Statement, group: Group<S>)
    ensures
        target.separated ==> group.appended(target) == group.steps.ran(
            target.flagged(false).with_text("("@),
        ).flagged(true).with_text(")"@),
        !target.separated ==> group.appended(target) == group.steps.ran(target),
{
}

/// A group of two items joined by `or`, itself joined by `and`: as an item
/// of a list it stands in parentheses, behind the keyword; after a plain
/// continuation, or as the first content of a statement, it stands bare.
pub proof fn lemma_group_of_two(target: Statement, x: &str, y: &str)
    ensures
        ({
            let first = Step { earlier: NoSteps, joiner: Joiner::Or, fragment: x };
            let group = Group { steps: Step { earlier: first, joiner: Joiner::Or, fragment: y } };
            let joined = Joiner::And.applied(target, group);
            &&& target.separated ==> joined.template == target.template + " AND "@ + "("@ + " "@
                + x@ + " OR "@ + y@ + ")"@
            &&& !target.separated && target.has_text() ==> joined.template == target.template
                + " "@ + " "@ + x@ + " OR "@ + y@
            &&& !target.separated && !target.has_text() ==> joined.template == target.template
                + x@ + " OR "@ + y@
            &&& joined.args == target.args
            &&& joined.separated
        }),
{
    let first = Step { earlier: NoSteps, joiner: Joiner::Or, fragment: x };
    let group = Group { steps: Step { earlier: first, joiner: Joiner::Or, fragment: y } };
    let joined = Joiner::And.applied(target, group);
    if target.separated {
        reveal_strlit("(");
        let opened = target.with_text(" AND "@).flagged(false).with_text("("@);
        assert(opened.template[opened.template.len() - 1] == '(');
        assert(opened.has_text());
        assert(joined.template =~= target.template + " AND "@ + "("@ + " "@ + x@ + " OR "@ + y@
            + ")"@);
    } else if target.has_text() {
        reveal_strlit(" ");
        let spaced = target.with_text(" "@);
        assert(spaced.template[spaced.template.len() - 1] == ' ');
        assert(spaced.has_text());
        assert(joined.template =~= target.template + " "@ + " "@ + x@ + " OR "@ + y@);
    } else {
        assert(joined.template =~= target.template + x@ + " OR "@ + y@);
    }
    assert(joined.args =~= target.args);
}

} // verus!
