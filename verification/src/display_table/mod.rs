//! The display table: the strings of a program (names and texts) each kept once, and each
//! known by its index in the table.
mod private;

use vstd::prelude::*;

verus! {

/// The index of a string in the display table.
#[derive(Debug, Clone, Copy, PartialEq, Eq, Structural, Hash)]
pub struct DisplayIdx(pub usize);

/// The states of a display table: being filled (`Init`), or built (`Built`).
pub trait DisplayTableState: private::DisplayTableStateGuard {

}

/// A display table being filled: the strings in the order of their indices, none twice.
pub struct Init(Vec<String>);

/// A built display table: the string of each index.
pub struct Built(Vec<String>);

impl private::DisplayTableStateGuard for Init {

}

impl private::DisplayTableStateGuard for Built {

}

impl DisplayTableState for Init {

}

impl DisplayTableState for Built {

}

pub struct DisplayTable<S: DisplayTableState> {
    state: S,
}

/// No string occurs twice in `s`.
pub open spec fn no_duplicates(s: Seq<Seq<char>>) -> bool {
    forall|i: int, j: int| 0 <= i < j < s.len() ==> s[i] != s[j]
}

/// The views of a sequence of strings.
pub open spec fn strings_view(v: Seq<String>) -> Seq<Seq<char>> {
    Seq::new(v.len(), |i: int| v[i]@)
}

impl DisplayTable<Init> {
    /// The strings in the table, the string with index `i` at position `i`.
    pub closed spec fn strings(&self) -> Seq<Seq<char>> {
        strings_view(self.state.0@)
    }

    /// Each string is in the table once.
    pub open spec fn wf(&self) -> bool {
        no_duplicates(self.strings())
    }

    pub fn new() -> (r: Self)
        ensures
            r.wf(),
            r.strings() == Seq::<Seq<char>>::empty(),
    {
        let r = Self { state: Init(Vec::new()) };
        assert(r.strings() =~= Seq::<Seq<char>>::empty());
        r
    }

    /// The index of `s` in the table; a string that is not there yet is added at the end.
    pub fn get(&mut self, s: &str) -> (r: DisplayIdx)
        requires
            old(self).wf(),
        ensures
            final(self).wf(),
            old(self).strings().contains(s@) ==> final(self).strings() == old(self).strings()
                && r.0 < old(self).strings().len() && old(self).strings()[r.0 as int] == s@,
            !old(self).strings().contains(s@) ==> final(self).strings() == old(
                self,
            ).strings().push(s@) && r.0 == old(self).strings().len(),
    {
        let key = String::from_str(s);
        let len = self.state.0.len();
        let mut i: usize = 0;
        while i < len
            invariant
                *self == *old(self),
                no_duplicates(self.strings()),
                len == self.state.0@.len(),
                i <= len,
                key@ == s@,
                forall|k: int| 0 <= k < i ==> self.strings()[k] != s@,
            decreases len - i,
        {
            if self.state.0[i] == key {
                assert(self.strings()[i as int] == s@);
                return DisplayIdx(i);
            }
            i = i + 1;
        }
        let ghost before = self.strings();
        self.state.0.push(key);
        proof {
            assert(self.strings() =~= before.push(s@));
            assert(!before.contains(s@));
        }
        DisplayIdx(len)
    }

    /// The built table: each string at its index.
    pub fn build(self) -> (r: DisplayTable<Built>)
        ensures
            r.strings() == self.strings(),
    {
        DisplayTable { state: Built(self.state.0) }
    }
}

impl DisplayTable<Built> {
    /// The string of each index.
    pub closed spec fn strings(&self) -> Seq<Seq<char>> {
        strings_view(self.state.0@)
    }

    /// The string with the index `idx`.
    pub fn display(&self, idx: DisplayIdx) -> (r: &str)
        requires
            idx.0 < self.strings().len(),
        ensures
            r@ == self.strings()[idx.0 as int],
    {
        self.state.0[idx.0].as_str()
    }
}

/// Asking the table for a string gives the index at which the built table holds it, and
/// asking again gives the same index.
pub proof fn lemma_get_then_build(
    before: Seq<Seq<char>>,
    after: Seq<Seq<char>>,
    s: Seq<char>,
    idx: int,
)
    requires
        no_duplicates(before),
        before.contains(s) ==> after == before && 0 <= idx < before.len() && before[idx] == s,
        !before.contains(s) ==> after == before.push(s) && idx == before.len(),
    ensures
        0 <= idx < after.len(),
        after[idx] == s,
        forall|j: int| 0 <= j < after.len() && after[j] == s ==> j == idx,
{
}

/// The strings of a new table after it was asked for each string of `ss` in turn (see `get`):
/// each string is added at the end the first time it is asked for.
pub open spec fn table_after(ss: Seq<Seq<char>>) -> Seq<Seq<char>>
    decreases ss.len(),
{
    if ss.len() == 0 {
        Seq::empty()
    } else {
        let t = table_after(ss.drop_last());
        if t.contains(ss.last()) {
            t
        } else {
            t.push(ss.last())
        }
    }
}

/// `idxs[i]` is an index that `get` may give when the table holds the strings asked for
/// before `ss[i]` and is asked for `ss[i]`.
pub open spec fn indices_given(ss: Seq<Seq<char>>, idxs: Seq<int>) -> bool {
    &&& idxs.len() == ss.len()
    &&& forall|i: int|
        0 <= i < ss.len() ==> {
            let t = #[trigger] table_after(ss.take(i));
            &&& t.contains(ss[i]) ==> 0 <= idxs[i] < t.len() && t[idxs[i]] == ss[i]
            &&& !t.contains(ss[i]) ==> idxs[i] == t.len()
        }
}

/// Asking a new table for the strings `ss` in turn and building it: the built table holds
/// each string once, holds only strings that were asked for, holds each asked string at the
/// index that asking for it gave, and so holds as many strings as distinct ones were asked for.
pub proof fn lemma_gets_then_build(ss: Seq<Seq<char>>, idxs: Seq<int>)
    requires
        indices_given(ss, idxs),
    ensures
        no_duplicates(table_after(ss)),
        forall|j: int| 0 <= j < table_after(ss).len() ==> ss.contains(#[trigger] table_after(ss)[j]),
        forall|i: int|
            0 <= i < ss.len() ==> 0 <= #[trigger] idxs[i] < table_after(ss).len() && table_after(
                ss,
            )[idxs[i]] == ss[i],
        table_after(ss).len() == ss.to_set().len(),
    decreases ss.len(),
{
    if ss.len() > 0 {
        let n = ss.len() - 1;
        let prev = ss.drop_last();
        let prev_idxs = idxs.drop_last();
        assert forall|i: int| 0 <= i < prev.len() implies {
            let t = #[trigger] table_after(prev.take(i));
            &&& t.contains(prev[i]) ==> 0 <= prev_idxs[i] < t.len() && t[prev_idxs[i]] == prev[i]
            &&& !t.contains(prev[i]) ==> prev_idxs[i] == t.len()
        } by {
            assert(prev.take(i) =~= ss.take(i));
            assert(table_after(ss.take(i)) == table_after(prev.take(i)));
        }
        lemma_gets_then_build(prev, prev_idxs);
        let t = table_after(prev);
        assert(ss.take(n) =~= prev);
        assert(table_after(ss.take(n)) == t);
        assert forall|j: int| 0 <= j < table_after(ss).len() implies ss.contains(
            #[trigger] table_after(ss)[j],
        ) by {
            if j < t.len() {
                assert(prev.contains(t[j]));
                let w = choose|w: int| 0 <= w < prev.len() && prev[w] == t[j];
                assert(ss[w] == t[j]);
            } else {
                assert(ss[n] == table_after(ss)[j]);
            }
        }
        assert forall|i: int| 0 <= i < ss.len() implies 0 <= #[trigger] idxs[i] < table_after(
            ss,
        ).len() && table_after(ss)[idxs[i]] == ss[i] by {
            if i < n {
                assert(prev_idxs[i] == idxs[i]);
                assert(prev[i] == ss[i]);
            } else {
                assert(table_after(ss.take(i)) == t);
            }
        }
    }
    let t = table_after(ss);
    assert(t.no_duplicates()) by {
        assert forall|i: int, j: int|
            0 <= i < t.len() && 0 <= j < t.len() && i != j implies t[i] != t[j] by {
            if i < j {
                assert(no_duplicates(t));
            } else {
                assert(no_duplicates(t));
            }
        }
    }
    assert(t.to_set() =~= ss.to_set()) by {
        assert forall|x: Seq<char>| t.to_set().contains(x) implies ss.to_set().contains(x) by {
            let j = choose|j: int| 0 <= j < t.len() && t[j] == x;
            assert(ss.contains(t[j]));
        }
        assert forall|x: Seq<char>| ss.to_set().contains(x) implies t.to_set().contains(x) by {
            let i = choose|i: int| 0 <= i < ss.len() && ss[i] == x;
            assert(t[idxs[i]] == ss[i]);
        }
    }
    t.unique_seq_to_set();
}

} // verus!
