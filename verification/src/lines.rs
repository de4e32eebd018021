//! Line structure of serialized text: column tracking, a line-length
//! bound, and absence of trailing whitespace, with the lemmas needed to
//! reason about concatenated pieces.

use vstd::prelude::*;

verus! {

/// Reading `s` with `col` characters already on the current line, no
/// line (the final, unterminated one included) ever exceeds `max`
/// columns.
pub open spec fn lines_within(s: Seq<char>, col: int, max: int) -> bool
    decreases s.len(),
{
    if col > max {
        false
    } else if s.len() == 0 {
        true
    } else if s[0] == '\n' {
        lines_within(s.drop_first(), 0, max)
    } else {
        lines_within(s.drop_first(), col + 1, max)
    }
}

/// The column reached after appending `s` to a line already `col`
/// characters wide.
pub open spec fn end_col(s: Seq<char>, col: int) -> int
    decreases s.len(),
{
    if s.len() == 0 {
        col
    } else if s[0] == '\n' {
        end_col(s.drop_first(), 0)
    } else {
        end_col(s.drop_first(), col + 1)
    }
}

/// No newline of `s` immediately follows a space.
pub open spec fn no_trailing_space(s: Seq<char>) -> bool {
    forall|i: int| 0 < i < s.len() && (#[trigger] s[i]) == '\n' ==> s[i - 1] != ' '
}

/// Columns compose across concatenation.
pub proof fn lemma_end_col_concat(a: Seq<char>, b: Seq<char>, col: int)
    ensures
        end_col(a + b, col) == end_col(b, end_col(a, col)),
    decreases a.len(),
{
    if a.len() == 0 {
        assert(a + b =~= b);
    } else {
        assert((a + b).drop_first() =~= a.drop_first() + b);
        if a[0] == '\n' {
            lemma_end_col_concat(a.drop_first(), b, 0);
        } else {
            lemma_end_col_concat(a.drop_first(), b, col + 1);
        }
    }
}

/// The line-length bound composes across concatenation.
pub proof fn lemma_lines_within_concat(a: Seq<char>, b: Seq<char>, col: int, max: int)
    requires
        lines_within(a, col, max),
        lines_within(b, end_col(a, col), max),
    ensures
        lines_within(a + b, col, max),
    decreases a.len(),
{
    if a.len() == 0 {
        assert(a + b =~= b);
    } else {
        assert((a + b).drop_first() =~= a.drop_first() + b);
        if a[0] == '\n' {
            lemma_lines_within_concat(a.drop_first(), b, 0, max);
        } else {
            lemma_lines_within_concat(a.drop_first(), b, col + 1, max);
        }
    }
}

/// A newline-free piece advances the column by its length and respects
/// any bound the final column respects.
pub proof fn lemma_no_newline_piece(s: Seq<char>, col: int, max: int)
    requires
        forall|i: int| 0 <= i < s.len() ==> s[i] != '\n',
        0 <= col,
        col + s.len() <= max,
    ensures
        lines_within(s, col, max),
        end_col(s, col) == col + s.len(),
    decreases s.len(),
{
    if s.len() == 0 {
    } else {
        lemma_no_newline_piece(s.drop_first(), col + 1, max);
    }
}

/// A lone newline resets the column.
pub proof fn lemma_newline_piece(col: int, max: int)
    requires
        0 <= col <= max,
    ensures
        lines_within(seq!['\n'], col, max),
        end_col(seq!['\n'], col) == 0,
{
    assert(seq!['\n'].drop_first() =~= Seq::<char>::empty());
    assert(seq!['\n'][0] == '\n');
    assert(lines_within(Seq::<char>::empty(), 0, max));
    assert(end_col(Seq::<char>::empty(), 0) == 0);
}

/// Trailing-space freedom composes across concatenation when the
/// boundary is sound: if the right piece opens with a newline, the left
/// piece must not close with a space.
pub proof fn lemma_no_trailing_space_concat(a: Seq<char>, b: Seq<char>)
    requires
        no_trailing_space(a),
        no_trailing_space(b),
        a.len() > 0 && b.len() > 0 && b[0] == '\n' ==> a.last() != ' ',
    ensures
        no_trailing_space(a + b),
{
    let c = a + b;
    assert forall|i: int| 0 < i < c.len() && (#[trigger] c[i]) == '\n' implies c[i - 1] != ' ' by {
        if i < a.len() {
            assert(c[i] == a[i] && c[i - 1] == a[i - 1]);
        } else if i == a.len() {
            assert(c[i] == b[0] && c[i - 1] == a[a.len() - 1]);
        } else {
            assert(c[i] == b[i - a.len()] && c[i - 1] == b[i - a.len() - 1]);
        }
    }
}

/// A piece without newlines trivially has no trailing space.
pub proof fn lemma_no_newline_no_trailing_space(s: Seq<char>)
    requires
        forall|i: int| 0 <= i < s.len() ==> s[i] != '\n',
    ensures
        no_trailing_space(s),
{
}

} // verus!
