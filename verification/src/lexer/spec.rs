use crate::span::SpanCursor;
use vstd::prelude::*;

verus! {

/// The character at index `i` of `s`, or `'\0'` past its end (the cursor's end marker).
pub open spec fn char_at(s: Seq<char>, i: int) -> char {
    if 0 <= i < s.len() {
        s[i]
    } else {
        '\0'
    }
}

/// One step of the cursor over the character `ch` it stood on: the column grows by one
/// (except after `'\0'`), and a new line starts after `'\n'`.
pub open spec fn cursor_step(cur: SpanCursor, ch: char) -> SpanCursor {
    if ch == '\n' {
        SpanCursor { line: (cur.line + 1) as usize, col: 0 }
    } else if ch != '\0' {
        SpanCursor { line: cur.line, col: (cur.col + 1) as usize }
    } else {
        cur
    }
}

/// The line and column at which the character with index `i` of `s` stands.
pub open spec fn cursor_at(s: Seq<char>, i: int) -> SpanCursor
    decreases i,
{
    if i <= 0 {
        SpanCursor { line: 0, col: 0 }
    } else {
        cursor_step(cursor_at(s, i - 1), s[i - 1])
    }
}

/// `s` split on `'\n'`: the lines of the text, without their line ends.
/// The empty text has one empty line, and a text that ends with `'\n'` ends with an empty line.
pub open spec fn split_lines(s: Seq<char>) -> Seq<Seq<char>>
    decreases s.len(),
{
    if s.len() == 0 {
        seq![Seq::<char>::empty()]
    } else {
        let prev = split_lines(s.drop_last());
        if s.last() == '\n' {
            prev.push(Seq::<char>::empty())
        } else {
            prev.update(prev.len() - 1, prev.last().push(s.last()))
        }
    }
}

/// The views of a sequence of string slices.
pub open spec fn strs_view(v: Seq<&str>) -> Seq<Seq<char>> {
    Seq::new(v.len(), |i: int| v[i]@)
}

pub proof fn lemma_split_lines_nonempty(s: Seq<char>)
    ensures
        split_lines(s).len() >= 1,
    decreases s.len(),
{
    if s.len() > 0 {
        lemma_split_lines_nonempty(s.drop_last());
    }
}

/// The cursor never runs ahead of the index: line and column are at most `i`.
pub proof fn lemma_cursor_at_bounds(s: Seq<char>, i: int)
    requires
        0 <= i <= s.len(),
    ensures
        cursor_at(s, i).line <= i,
        cursor_at(s, i).col <= i,
    decreases i,
{
    if i > 0 {
        lemma_cursor_at_bounds(s, i - 1);
    }
}

/// Within one line the column grows by one per character that is not `'\0'`.
pub proof fn lemma_cursor_same_line(s: Seq<char>, i: int, j: int)
    requires
        0 <= i <= j <= s.len(),
        s.len() <= usize::MAX,
        forall|k: int| i <= k < j ==> s[k] != '\n',
    ensures
        cursor_at(s, j).line == cursor_at(s, i).line,
        cursor_at(s, j).col >= cursor_at(s, i).col,
    decreases j - i,
{
    if j > i {
        lemma_cursor_same_line(s, i, j - 1);
        lemma_cursor_at_bounds(s, j - 1);
    }
}

/// Splitting one more character: a line end opens a new empty line, any other character
/// is appended to the last line.
pub proof fn lemma_split_lines_take_succ(s: Seq<char>, i: int)
    requires
        0 <= i < s.len(),
    ensures
        split_lines(s.take(i + 1)) == (if s[i] == '\n' {
            split_lines(s.take(i)).push(Seq::<char>::empty())
        } else {
            split_lines(s.take(i)).update(
                split_lines(s.take(i)).len() - 1,
                split_lines(s.take(i)).last().push(s[i]),
            )
        }),
{
    assert(s.take(i + 1).drop_last() =~= s.take(i));
    assert(s.take(i + 1).last() == s[i]);
}

} // verus!

verus! {

/// Characters of a run of whitespace (a line end ends the run).
pub open spec fn is_space_char(c: char) -> bool {
    (c == '\x0B' || crate::text::ascii_whitespace(c)) && c != '\n'
}

/// Characters that continue a word (a line end ends the word).
pub open spec fn is_word_char(c: char) -> bool {
    c != '\n' && (crate::text::alphanumeric(c) || c == '_')
}

/// Decimal digits.
pub open spec fn is_digit(c: char) -> bool {
    '0' <= c && c <= '9'
}

/// `s[start..end]` is a token whose characters after the first satisfy `p`, and it stops
/// at the first character that does not (or at the end of the text).
pub open spec fn run_of(s: Seq<char>, start: int, end: int, p: spec_fn(char) -> bool) -> bool {
    &&& 0 <= start < end <= s.len()
    &&& forall|k: int| start < k < end ==> #[trigger] p(s[k])
    &&& end == s.len() || !p(s[end])
}

/// The value of a sequence of decimal digits.
pub open spec fn decimal_value(ds: Seq<char>) -> int
    decreases ds.len(),
{
    if ds.len() == 0 {
        0
    } else {
        decimal_value(ds.drop_last()) * 10 + (ds.last() as int - '0' as int)
    }
}

} // verus!

verus! {

/// Moving over a character that is neither `'\n'` nor `'\0'` moves one column to the right.
pub proof fn lemma_cursor_col_step(s: Seq<char>, i: int)
    requires
        0 <= i < s.len(),
        s[i] != '\n',
        s[i] != '\0',
        s.len() <= usize::MAX,
    ensures
        cursor_at(s, i + 1).line == cursor_at(s, i).line,
        cursor_at(s, i + 1).col == cursor_at(s, i).col + 1,
{
    lemma_cursor_at_bounds(s, i);
}

/// The character at `j` closes the quoted literal that starts at `start` with the quote `q`:
/// it is `q`, and it does not follow a backslash (the character right after the opening
/// quote never does).
pub open spec fn closes_quote(s: Seq<char>, start: int, j: int, q: char) -> bool {
    &&& start < j < s.len()
    &&& s[j] == q
    &&& (j == start + 1 || s[j - 1] != '\\')
}

/// The quoted literal that starts at `start` with the quote `q` ends at `end`: either it is
/// closed by the character before `end`, or it is left open and `end` is the end of the line
/// or of the text. Nothing before that closes it, and it holds no line end.
pub open spec fn quoted_until(s: Seq<char>, start: int, end: int, q: char, closed: bool) -> bool {
    &&& 0 <= start < end <= s.len()
    &&& s[start] == q
    &&& if closed {
        &&& closes_quote(s, start, end - 1, q)
        &&& forall|k: int| start < k < end - 1 ==> s[k] != '\n' && !closes_quote(s, start, k, q)
    } else {
        &&& forall|k: int| start < k < end ==> s[k] != '\n' && !closes_quote(s, start, k, q)
        &&& end == s.len() || s[end] == '\n'
    }
}

} // verus!

verus! {

/// The lines `ls` joined back, with `'\n'` between each two.
pub open spec fn join_lines(ls: Seq<Seq<char>>) -> Seq<char>
    decreases ls.len(),
{
    if ls.len() == 0 {
        Seq::empty()
    } else if ls.len() == 1 {
        ls[0]
    } else {
        join_lines(ls.drop_last()) + seq!['\n'] + ls.last()
    }
}

/// Appending a character to the last line appends it to the joined text.
proof fn lemma_join_lines_push_last(ls: Seq<Seq<char>>, c: char)
    requires
        ls.len() >= 1,
    ensures
        join_lines(ls.update(ls.len() - 1, ls.last().push(c))) == join_lines(ls).push(c),
{
    let us = ls.update(ls.len() - 1, ls.last().push(c));
    if ls.len() > 1 {
        assert(us.drop_last() =~= ls.drop_last());
    }
    assert(join_lines(us) =~= join_lines(ls).push(c));
}

/// Splitting a text into lines loses nothing: joining the lines back with line ends gives
/// the text.
pub proof fn lemma_split_lines_join(s: Seq<char>)
    ensures
        join_lines(split_lines(s)) == s,
    decreases s.len(),
{
    if s.len() == 0 {
        assert(join_lines(split_lines(s)) =~= s);
    } else {
        let prev = split_lines(s.drop_last());
        lemma_split_lines_join(s.drop_last());
        lemma_split_lines_nonempty(s.drop_last());
        if s.last() == '\n' {
            assert(prev.push(Seq::<char>::empty()).drop_last() =~= prev);
            assert(join_lines(split_lines(s)) =~= s);
        } else {
            lemma_join_lines_push_last(prev, s.last());
            assert(join_lines(split_lines(s)) =~= s);
        }
    }
}

/// No line holds a line end.
pub proof fn lemma_split_lines_no_line_end(s: Seq<char>)
    ensures
        forall|i: int, j: int|
            0 <= i < split_lines(s).len() && 0 <= j < split_lines(s)[i].len() ==> #[trigger] split_lines(s)[i][j]
                != '\n',
    decreases s.len(),
{
    if s.len() > 0 {
        lemma_split_lines_no_line_end(s.drop_last());
        lemma_split_lines_nonempty(s.drop_last());
        let prev = split_lines(s.drop_last());
        if s.last() != '\n' {
            assert forall|i: int, j: int|
                0 <= i < split_lines(s).len() && 0 <= j < split_lines(s)[i].len() implies #[trigger] split_lines(s)[i][j]
                != '\n' by {
                if i == prev.len() - 1 && j == prev.last().len() {
                } else if i == prev.len() - 1 {
                    assert(split_lines(s)[i][j] == prev[i][j]);
                } else {
                    assert(split_lines(s)[i] == prev[i]);
                }
            }
        } else {
            assert forall|i: int, j: int|
                0 <= i < split_lines(s).len() && 0 <= j < split_lines(s)[i].len() implies #[trigger] split_lines(s)[i][j]
                != '\n' by {
                assert(i < prev.len());
                assert(split_lines(s)[i] == prev[i]);
            }
        }
    }
}

} // verus!
