use vstd::prelude::*;

verus! {

/// A position in a source file: the line index and the column index (both start at zero).
#[derive(Clone, Copy, PartialEq, Eq, Structural, Default, Debug)]
pub struct SpanCursor {
    /// The line index
    pub line: usize,
    /// The column index
    pub col: usize,
}

/// A region of a source file, from `start` (inclusive) to `end` (exclusive).
#[derive(Clone, Copy, PartialEq, Eq, Structural, Default, Debug)]
pub struct Span {
    pub start: SpanCursor,
    pub end: SpanCursor,
}

impl Span {
    /// Builds a span from `(line, col)` pairs.
    #[inline]
    pub fn new(start: (usize, usize), end: (usize, usize)) -> (r: Self)
        ensures
            r.start == (SpanCursor { line: start.0, col: start.1 }),
            r.end == (SpanCursor { line: end.0, col: end.1 }),
    {
        Self {
            start: SpanCursor { line: start.0, col: start.1 },
            end: SpanCursor { line: end.0, col: end.1 },
        }
    }

    /// The span that starts where `self` starts and ends where `with` ends.
    #[inline]
    pub fn merged_with(&self, with: &Span) -> (r: Self)
        ensures
            r.start == self.start,
            r.end == with.end,
    {
        Self { start: self.start, end: with.end }
    }

    /// Returns a zero-column span located after the given span.
    #[inline]
    pub fn after(given: &Span) -> (r: Self)
        ensures
            r.start == given.end,
            r.end == given.end,
    {
        Self { start: given.end, end: given.end }
    }

    /// Returns a zero-column span located after the given span.
    #[inline]
    pub fn len_after(given: &Span, _len: usize) -> (r: Self)
        ensures
            r.start == given.end,
            r.end == given.end,
    {
        Self { start: given.end, end: given.end }
    }
}

/// The order used to sort spans: by the line of their start, then by the column of their start.
pub open spec fn start_le(a: Span, b: Span) -> bool {
    a.start.line < b.start.line || (a.start.line == b.start.line && a.start.col <= b.start.col)
}

/// Two spans start at the same position.
pub open spec fn same_start(a: Span, b: Span) -> bool {
    a.start.line == b.start.line && a.start.col == b.start.col
}

/// `s` is ordered by `start_le`.
pub open spec fn sorted_by_start(s: Seq<Span>) -> bool {
    forall|i: int, j: int| 0 <= i < j < s.len() ==> start_le(#[trigger] s[i], #[trigger] s[j])
}

/// `p` is a permutation of `0..n`.
pub open spec fn is_permutation(p: Seq<int>, n: int) -> bool {
    &&& p.len() == n
    &&& forall|i: int| 0 <= i < n ==> 0 <= #[trigger] p[i] < n
    &&& forall|i: int, j: int| 0 <= i < j < n ==> #[trigger] p[i] != #[trigger] p[j]
}

/// `after` holds the elements of `before`, rearranged by `p`: `after[k] == before[p[k]]`.
pub open spec fn rearranged_by(after: Seq<Span>, before: Seq<Span>, p: Seq<int>) -> bool {
    &&& is_permutation(p, before.len() as int)
    &&& after.len() == before.len()
    &&& forall|k: int| 0 <= k < after.len() ==> #[trigger] after[k] == before[p[k]]
}

/// The rearrangement `p` keeps spans that start at the same position in their former order.
pub open spec fn keeps_ties_in_order(after: Seq<Span>, p: Seq<int>) -> bool {
    forall|i: int, j: int|
        0 <= i < j < after.len() && same_start(#[trigger] after[i], #[trigger] after[j]) ==> p[i]
            < p[j]
}

/// The result of `sort_spans`: a stable rearrangement of `before` ordered by start position.
pub open spec fn is_stable_sort_of(after: Seq<Span>, before: Seq<Span>) -> bool {
    exists|p: Seq<int>|
        #![trigger rearranged_by(after, before, p)]
        rearranged_by(after, before, p) && sorted_by_start(after) && keeps_ties_in_order(after, p)
}

/// Sorts the spans by the line of their start, then by the column of their start,
/// keeping spans that start at the same position in their former order.
#[inline]
pub fn sort_spans(spans: &mut [Span])
    ensures
        is_stable_sort_of(final(spans)@, old(spans)@),
{
    let n = spans.len();
    let ghost orig = spans@;
    let ghost mut p: Seq<int> = Seq::new(n as nat, |k: int| k);
    if n == 0 {
        assert(rearranged_by(spans@, orig, p));
        return;
    }
    let mut i: usize = 1;
    while i < n
        invariant
            1 <= i <= n,
            n == spans@.len(),
            rearranged_by(spans@, orig, p),
            forall|k: int| 0 <= k < i ==> #[trigger] p[k] < i,
            forall|k: int| i <= k < n ==> #[trigger] p[k] == k,
            sorted_by_start(spans@.take(i as int)),
            keeps_ties_in_order(spans@.take(i as int), p),
        decreases n - i,
    {
        let mut j: usize = i;
        proof {
            assert forall|a: int, b: int| 0 <= a < b < i implies start_le(
                #[trigger] spans@[a],
                #[trigger] spans@[b],
            ) && (same_start(spans@[a], spans@[b]) ==> p[a] < p[b]) by {
                assert(spans@.take(i as int)[a] == spans@[a]);
                assert(spans@.take(i as int)[b] == spans@[b]);
            }
        }
        while j > 0 && !(spans[j - 1].start.line < spans[j].start.line || (spans[j - 1].start.line
            == spans[j].start.line && spans[j - 1].start.col <= spans[j].start.col))
            invariant
                1 <= i < n,
                0 <= j <= i,
                n == spans@.len(),
                rearranged_by(spans@, orig, p),
                p[j as int] == i,
                forall|k: int| 0 <= k <= i && k != j ==> #[trigger] p[k] < i,
                forall|k: int| i < k < n ==> #[trigger] p[k] == k,
                // the prefix without the moving element is sorted and stable
                forall|a: int, b: int|
                    0 <= a < b <= i && a != j && b != j ==> start_le(
                        #[trigger] spans@[a],
                        #[trigger] spans@[b],
                    ),
                forall|a: int, b: int|
                    0 <= a < b <= i && a != j && b != j && same_start(
                        #[trigger] spans@[a],
                        #[trigger] spans@[b],
                    ) ==> p[a] < p[b],
                // everything after the moving element is strictly greater than it
                forall|b: int|
                    j < b <= i ==> !start_le(#[trigger] spans@[b], spans@[j as int]),
            decreases j,
        {
            let a = spans[j - 1];
            let b = spans[j];
            spans[j - 1] = b;
            spans[j] = a;
            proof {
                let pa = p[j - 1];
                let pb = p[j as int];
                p = p.update(j - 1, pb).update(j as int, pa);
            }
            j = j - 1;
        }
        proof {
            assert forall|a: int, b: int| 0 <= a < b < i + 1 implies start_le(
                #[trigger] spans@.take(i + 1)[a],
                #[trigger] spans@.take(i + 1)[b],
            ) by {
                if a == j {
                    if j > 0 {
                    }
                }
            }
            assert forall|a: int, b: int|
                0 <= a < b < i + 1 && same_start(
                    #[trigger] spans@.take(i + 1)[a],
                    #[trigger] spans@.take(i + 1)[b],
                ) implies p[a] < p[b] by {}
        }
        i = i + 1;
    }
    assert(spans@.take(n as int) =~= spans@);
}

} // verus!
