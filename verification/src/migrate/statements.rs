//! The statements of a migration: the pieces of its SQL text between
//! semicolons, without those that hold nothing but white space.

use vstd::prelude::*;
use crate::text::white_space;

verus! {

/// The character that ends a statement.
pub const TERMINATOR: char = ';';

/// The pieces into which the semicolons cut a text. There is one piece more
/// than there are semicolons; a piece may be empty.
pub open spec fn pieces(sql: Seq<char>) -> Seq<Seq<char>>
    decreases sql.len(),
{
    if sql.len() == 0 {
        seq![Seq::empty()]
    } else {
        let before = pieces(sql.drop_last());
        if sql.last() == TERMINATOR {
            before.push(Seq::empty())
        } else {
            before.drop_last().push(before.last().push(sql.last()))
        }
    }
}

/// Whether a piece holds nothing but white space.
pub open spec fn is_blank(piece: Seq<char>) -> bool {
    forall|i: int| 0 <= i < piece.len() ==> white_space(#[trigger] piece[i])
}

/// The pieces that are not blank, in their order.
pub open spec fn kept(pieces: Seq<Seq<char>>) -> Seq<Seq<char>>
    decreases pieces.len(),
{
    if pieces.len() == 0 {
        Seq::empty()
    } else if is_blank(pieces.last()) {
        kept(pieces.drop_last())
    } else {
        kept(pieces.drop_last()).push(pieces.last())
    }
}

/// The statements of a migration's SQL text.
pub open spec fn statements(sql: Seq<char>) -> Seq<Seq<char>> {
    kept(pieces(sql))
}

/// The texts that a vector of strings holds.
pub open spec fn texts(strings: Seq<String>) -> Seq<Seq<char>> {
    Seq::new(strings.len(), |i: int| strings[i]@)
}

/// The pieces joined again, with a semicolon between each two.
pub open spec fn joined(pieces: Seq<Seq<char>>) -> Seq<char>
    decreases pieces.len(),
{
    if pieces.len() == 0 {
        Seq::empty()
    } else if pieces.len() == 1 {
        pieces[0]
    } else {
        joined(pieces.drop_last()) + seq![TERMINATOR] + pieces.last()
    }
}

/// Cutting a text loses nothing: there is at least one piece, no piece
/// holds a semicolon, and the pieces joined by semicolons are the text.
pub proof fn lemma_pieces(sql: Seq<char>)
    ensures
        pieces(sql).len() > 0,
        forall|k: int, i: int|
            0 <= k < pieces(sql).len() && 0 <= i < pieces(sql)[k].len() ==> pieces(sql)[k][i]
                != TERMINATOR,
        joined(pieces(sql)) == sql,
    decreases sql.len(),
{
    if sql.len() == 0 {
        assert(joined(pieces(sql)) =~= sql);
    } else {
        let front = sql.drop_last();
        let before = pieces(front);
        lemma_pieces(front);
        if sql.last() == TERMINATOR {
            let all = before.push(Seq::empty());
            assert(all.drop_last() =~= before);
            assert(joined(all) =~= front.push(TERMINATOR));
            assert(front.push(TERMINATOR) =~= sql);
        } else {
            let grown = before.last().push(sql.last());
            let all = before.drop_last().push(grown);
            assert(all.drop_last() =~= before.drop_last());
            if before.len() == 1 {
                assert(joined(all) =~= front.push(sql.last()));
            } else {
                assert(joined(all) =~= (joined(before.drop_last()) + seq![TERMINATOR]
                    + before.last()).push(sql.last()));
            }
            assert(front.push(sql.last()) =~= sql);
        }
    }
}

/// Splits a migration's SQL text into its statements: the pieces between
/// semicolons, each as it stands, without those that are blank.
pub fn split_statements(sql: &str) -> (found: Vec<String>)
    ensures
        texts(found@) == statements(sql@),
{
    let mut found: Vec<String> = Vec::new();
    let mut current = String::new();
    let mut blank = true;
    let ghost mut done: Seq<Seq<char>> = Seq::empty();
    for c in it: sql.chars()
        invariant
            it.seq() == sql@,
            pieces(sql@.take(it.index())) == done.push(current@),
            texts(found@) == kept(done),
            blank == is_blank(current@),
    {
        proof {
            let seen = sql@.take(it.index());
            let next = sql@.take(it.index() + 1);
            assert(next.drop_last() =~= seen);
            assert(next.last() == c);
            assert(done.push(current@).drop_last() =~= done);
        }
        if c == TERMINATOR {
            proof {
                done = done.push(current@);
                assert(done.drop_last() =~= pieces(sql@.take(it.index())).drop_last());
            }
            if !blank {
                let ghost before = found@;
                found.push(current);
                proof {
                    assert(texts(found@) =~= texts(before).push(current@));
                }
            }
            current = String::new();
            blank = true;
        } else {
            let ghost before = current@;
            current.push(c);
            blank = blank && c.is_whitespace();
            proof {
                if is_blank(before) && white_space(c) {
                    assert forall|i: int| 0 <= i < current@.len() implies white_space(
                        #[trigger] current@[i],
                    ) by {
                        if i < before.len() {
                            assert(current@[i] == before[i]);
                        }
                    }
                } else if !is_blank(before) {
                    let i = choose|i: int| 0 <= i < before.len() && !white_space(before[i]);
                    assert(current@[i] == before[i]);
                } else {
                    assert(current@[before.len() as int] == c);
                }
            }
        }
    }
    proof {
        assert(sql@.take(sql@.len() as int) =~= sql@);
        assert(done.push(current@).drop_last() =~= done);
    }
    if !blank {
        let ghost before = found@;
        found.push(current);
        proof {
            assert(texts(found@) =~= texts(before).push(current@));
        }
    }
    found
}

} // verus!
