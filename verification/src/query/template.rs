//! The mathematical model of a statement's text.
//!
//! A template is a sequence of characters in which every `?` stands for one
//! bound parameter. Rendering replaces the placeholders, from left to right,
//! by `$1`, `$2`, and so on.

use vstd::prelude::*;
use crate::text::chars_of;

verus! {

/// The character that stands for a bound parameter in a template.
pub const PLACEHOLDER: char = '?';

/// How many placeholders a template holds.
pub open spec fn placeholders(t: Seq<char>) -> nat
    decreases t.len(),
{
    if t.len() == 0 {
        0
    } else if t.last() == PLACEHOLDER {
        placeholders(t.drop_last()) + 1
    } else {
        placeholders(t.drop_last())
    }
}

/// Whether a template holds anything besides placeholders.
pub open spec fn has_text(t: Seq<char>) -> bool {
    exists|i: int| 0 <= i < t.len() && t[i] != PLACEHOLDER
}

/// The character of a single decimal digit.
pub open spec fn digit(d: nat) -> char
    recommends
        d < 10,
{
    if d == 0 {
        '0'
    } else if d == 1 {
        '1'
    } else if d == 2 {
        '2'
    } else if d == 3 {
        '3'
    } else if d == 4 {
        '4'
    } else if d == 5 {
        '5'
    } else if d == 6 {
        '6'
    } else if d == 7 {
        '7'
    } else if d == 8 {
        '8'
    } else {
        '9'
    }
}

/// A number in decimal notation, without leading zeros.
pub open spec fn decimal(n: nat) -> Seq<char>
    decreases n,
{
    if n < 10 {
        seq![digit(n)]
    } else {
        decimal(n / 10).push(digit(n % 10))
    }
}

/// The positional parameter reference with the given number: `$` and the
/// number in decimal.
pub open spec fn marker(n: nat) -> Seq<char> {
    seq!['$'] + decimal(n)
}

/// A template in which the placeholders, from left to right, are replaced
/// by the markers numbered `first`, `first + 1`, and so on.
pub open spec fn rendered_from(t: Seq<char>, first: nat) -> Seq<char>
    decreases t.len(),
{
    if t.len() == 0 {
        Seq::empty()
    } else if t.last() == PLACEHOLDER {
        rendered_from(t.drop_last(), first) + marker(first + placeholders(t.drop_last()))
    } else {
        rendered_from(t.drop_last(), first).push(t.last())
    }
}

/// The text of a statement: its template with the placeholders numbered from 1.
pub open spec fn rendered(t: Seq<char>) -> Seq<char> {
    rendered_from(t, 1)
}

/// Counts the placeholders of a text.
pub fn count_placeholders(text: &str) -> (count: usize)
    ensures
        count == placeholders(text@),
{
    let chars = chars_of(text);
    let mut count: usize = 0;
    let mut i: usize = 0;
    while i < chars.len()
        invariant
            i <= chars.len(),
            count <= i,
            count == placeholders(chars@.take(i as int)),
        decreases chars.len() - i,
    {
        proof {
            assert(chars@.take(i + 1).drop_last() =~= chars@.take(i as int));
        }
        if chars[i] == PLACEHOLDER {
            count = count + 1;
        }
        i = i + 1;
    }
    proof {
        assert(chars@.take(i as int) =~= chars@);
    }
    count
}

/// The character of the decimal digit `d`.
pub fn digit_char(d: usize) -> (c: char)
    requires
        d < 10,
    ensures
        c == digit(d as nat),
{
    if d == 0 {
        '0'
    } else if d == 1 {
        '1'
    } else if d == 2 {
        '2'
    } else if d == 3 {
        '3'
    } else if d == 4 {
        '4'
    } else if d == 5 {
        '5'
    } else if d == 6 {
        '6'
    } else if d == 7 {
        '7'
    } else if d == 8 {
        '8'
    } else {
        '9'
    }
}

/// Appends `n` in decimal notation.
pub fn push_decimal(out: &mut String, n: usize)
    ensures
        final(out)@ == old(out)@ + decimal(n as nat),
    decreases n,
{
    if n >= 10 {
        push_decimal(out, n / 10);
    }
    out.push(digit_char(n % 10));
    proof {
        if n >= 10 {
            assert(old(out)@ + decimal(n as nat) =~= (old(out)@ + decimal((n / 10) as nat)).push(
                digit((n % 10) as nat),
            ));
        } else {
            assert(old(out)@ + decimal(n as nat) =~= old(out)@.push(digit(n as nat)));
        }
    }
}

/// Appends the positional parameter reference with the number `n`.
pub fn push_marker(out: &mut String, n: usize)
    ensures
        final(out)@ == old(out)@ + marker(n as nat),
{
    out.push('$');
    push_decimal(out, n);
    proof {
        assert(old(out)@ + marker(n as nat) =~= old(out)@.push('$') + decimal(n as nat));
    }
}

/// The placeholders of a concatenation are those of its two parts.
pub proof fn lemma_placeholders_concat(a: Seq<char>, b: Seq<char>)
    ensures
        placeholders(a + b) == placeholders(a) + placeholders(b),
    decreases b.len(),
{
    if b.len() == 0 {
        assert(a + b =~= a);
    } else {
        assert((a + b).drop_last() =~= a + b.drop_last());
        lemma_placeholders_concat(a, b.drop_last());
    }
}

/// A template without placeholders renders to itself.
pub proof fn lemma_rendered_plain(t: Seq<char>, first: nat)
    requires
        placeholders(t) == 0,
    ensures
        rendered_from(t, first) == t,
    decreases t.len(),
{
    if t.len() == 0 {
        assert(rendered_from(t, first) =~= t);
    } else {
        lemma_rendered_plain(t.drop_last(), first);
        assert(t.drop_last().push(t.last()) =~= t);
    }
}

/// Rendering distributes over concatenation: the second part is numbered
/// on from where the first part ends.
pub proof fn lemma_rendered_concat(a: Seq<char>, b: Seq<char>, first: nat)
    ensures
        rendered_from(a + b, first) == rendered_from(a, first) + rendered_from(
            b,
            first + placeholders(a),
        ),
    decreases b.len(),
{
    let next = first + placeholders(a);
    if b.len() == 0 {
        assert(a + b =~= a);
        assert(rendered_from(a, first) + rendered_from(b, next) =~= rendered_from(a, first));
    } else {
        let front = b.drop_last();
        assert((a + b).drop_last() =~= a + front);
        assert((a + b).last() == b.last());
        lemma_rendered_concat(a, front, first);
        lemma_placeholders_concat(a, front);
        if b.last() == PLACEHOLDER {
            let m = marker(next + placeholders(front));
            assert((rendered_from(a, first) + rendered_from(front, next)) + m =~= rendered_from(
                a,
                first,
            ) + (rendered_from(front, next) + m));
        } else {
            assert((rendered_from(a, first) + rendered_from(front, next)).push(b.last())
                =~= rendered_from(a, first) + rendered_from(front, next).push(b.last()));
        }
    }
}

} // verus!
