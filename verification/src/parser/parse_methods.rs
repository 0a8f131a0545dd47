//! The core components for parsing the syntax tree of Nazm: the parse result, the trait that
//! every syntax node implements, and the parsers for repeated and optional nodes.
use super::tokens_iter::{skips_trivia, TokensIter};
use vstd::prelude::*;

verus! {

/// The parser failed at the token with this index (`usize::MAX` when the tokens ran out).
#[derive(Clone, Copy, Debug, PartialEq, Eq, Structural)]
pub struct ParseErr {
    pub found_token_index: usize,
}

pub type ParseResult<T> = Result<T, ParseErr>;

/// The error of a parse that ran out of tokens.
pub open spec fn eof_err() -> ParseErr {
    ParseErr { found_token_index: usize::MAX }
}

impl ParseErr {
    pub fn eof<T>() -> (r: ParseResult<T>)
        ensures
            r == Err::<T, ParseErr>(eof_err()),
    {
        Err(ParseErr { found_token_index: usize::MAX })
    }
}

/// What every parse does to the iterator: it stays on the same tokens and well formed, and it
/// never moves back to before where it started.
pub open spec fn parse_step(before: TokensIter, after: TokensIter) -> bool {
    &&& after.wf()
    &&& after.tokens == before.tokens
    &&& before.peek_idx <= after.peek_idx
}

/// The `NazmcParse` trait is implemented by the nodes of the syntax tree: `parse` reads the
/// node from the tokens, starting at the recent token. A node that is read has used up at
/// least one token.
pub trait NazmcParse where Self: Sized {
    /// Reading the node from the iterator `before` gives `r` and moves the iterator to
    /// `after`.
    spec fn parsed(before: TokensIter, r: ParseResult<Self>, after: usize) -> bool;

    fn parse(iter: &mut TokensIter) -> (r: ParseResult<Self>)
        requires
            old(iter).wf(),
        ensures
            parse_step(*old(iter), *final(iter)),
            r is Ok ==> old(iter).peek_idx < final(iter).peek_idx,
            Self::parsed(*old(iter), r, final(iter).peek_idx),
    ;
}

/// The iterator `it` moved to `idx`.
pub open spec fn moved_to(it: TokensIter, idx: usize) -> TokensIter {
    TokensIter { peek_idx: idx, tokens: it.tokens }
}

/// Reading nodes one after another from `it`, for as long as they parse, gives `items` and
/// leaves the iterator at `after`: each item is read where the one before it ended, and a
/// read that fails ends the sequence, with the iterator moved back to where that read began.
pub open spec fn vec_parsed<T: NazmcParse>(it: TokensIter, items: Seq<T>, after: usize) -> bool
    decreases items.len(),
{
    if items.len() == 0 {
        &&& after == it.peek_idx
        &&& exists|e: ParseErr, q: usize| #[trigger] T::parsed(it, Err(e), q)
    } else {
        exists|a: usize|
            #[trigger] T::parsed(it, Ok(items[0]), a) && vec_parsed(
                moved_to(it, a),
                items.drop_first(),
                after,
            )
    }
}

/// A node read from `it` up to `a`, followed by nodes read from `a`, are nodes read from `it`.
proof fn lemma_vec_parsed_cons<T: NazmcParse>(
    it: TokensIter,
    t: T,
    a: usize,
    rest: Seq<T>,
    after: usize,
)
    requires
        T::parsed(it, Ok(t), a),
        vec_parsed(moved_to(it, a), rest, after),
    ensures
        vec_parsed(it, seq![t] + rest, after),
{
    let all = seq![t] + rest;
    assert(all.drop_first() =~= rest);
    assert(all[0] == t);
}

/// Reading a `T` from an iterator has one outcome: one result and one place where it ends.
pub open spec fn reads_are_determined<T: NazmcParse>() -> bool {
    forall|b: TokensIter, r1: ParseResult<T>, a1: usize, r2: ParseResult<T>, a2: usize|
        #![trigger T::parsed(b, r1, a1), T::parsed(b, r2, a2)]
        T::parsed(b, r1, a1) && T::parsed(b, r2, a2) ==> r1 == r2 && a1 == a2
}

/// Where reading one node has one outcome, reading nodes one after another for as long as
/// they parse has one outcome too: the items and the place where the iterator is left.
pub proof fn lemma_vec_parsed_unique<T: NazmcParse>(
    it: TokensIter,
    items1: Seq<T>,
    after1: usize,
    items2: Seq<T>,
    after2: usize,
)
    requires
        reads_are_determined::<T>(),
        vec_parsed(it, items1, after1),
        vec_parsed(it, items2, after2),
    ensures
        items1 == items2,
        after1 == after2,
    decreases items1.len(),
{
    if items1.len() == 0 {
        let (e, q) = choose|e: ParseErr, q: usize| #[trigger] T::parsed(it, Err(e), q);
        if items2.len() > 0 {
            let a = choose|a: usize|
                #[trigger] T::parsed(it, Ok(items2[0]), a) && vec_parsed(
                    moved_to(it, a),
                    items2.drop_first(),
                    after2,
                );
            assert(T::parsed(it, Err(e), q) && T::parsed(it, Ok(items2[0]), a));
            assert(false);
        }
        assert(items1 =~= items2);
    } else {
        let a = choose|a: usize|
            #[trigger] T::parsed(it, Ok(items1[0]), a) && vec_parsed(
                moved_to(it, a),
                items1.drop_first(),
                after1,
            );
        if items2.len() == 0 {
            let (e, q) = choose|e: ParseErr, q: usize| #[trigger] T::parsed(it, Err(e), q);
            assert(T::parsed(it, Err(e), q) && T::parsed(it, Ok(items1[0]), a));
            assert(false);
        } else {
            let a2 = choose|a2: usize|
                #[trigger] T::parsed(it, Ok(items2[0]), a2) && vec_parsed(
                    moved_to(it, a2),
                    items2.drop_first(),
                    after2,
                );
            assert(T::parsed(it, Ok(items1[0]), a) && T::parsed(it, Ok(items2[0]), a2));
            assert(items1[0] == items2[0] && a == a2);
            lemma_vec_parsed_unique(
                moved_to(it, a),
                items1.drop_first(),
                after1,
                items2.drop_first(),
                after2,
            );
            assert(items1 =~= seq![items1[0]] + items1.drop_first());
            assert(items2 =~= seq![items2[0]] + items2.drop_first());
        }
    }
}

/// Nodes that can tell whether they, or a node inside them, failed to parse.
pub trait Check {
    /// The node, or a node inside it, failed to parse.
    spec fn broken(&self) -> bool;

    fn is_broken(&self) -> (r: bool)
        ensures
            r == self.broken(),
    ;
}

impl<T: Check> Check for Result<T, ParseErr> {
    open spec fn broken(&self) -> bool {
        match self {
            Ok(tree) => tree.broken(),
            Err(_) => true,
        }
    }

    fn is_broken(&self) -> (r: bool) {
        match self {
            Ok(tree) => tree.is_broken(),
            Err(_) => true,
        }
    }
}

impl<T: Check> Check for Option<T> {
    open spec fn broken(&self) -> bool {
        match self {
            Some(tree) => tree.broken(),
            None => false,
        }
    }

    fn is_broken(&self) -> (r: bool) {
        match self {
            Some(tree) => tree.is_broken(),
            None => false,
        }
    }
}

impl<T: Check> Check for Box<T> {
    open spec fn broken(&self) -> bool {
        (**self).broken()
    }

    fn is_broken(&self) -> (r: bool) {
        (**self).is_broken()
    }
}

impl<T: Check> Check for Vec<T> {
    open spec fn broken(&self) -> bool {
        exists|i: int| 0 <= i < self@.len() && #[trigger] self@[i].broken()
    }

    fn is_broken(&self) -> (r: bool) {
        let mut i: usize = 0;
        while i < self.len()
            invariant
                i <= self@.len(),
                forall|k: int| 0 <= k < i ==> !#[trigger] self@[k].broken(),
            decreases self@.len() - i,
        {
            if self[i].is_broken() {
                return true;
            }
            i = i + 1;
        }
        false
    }
}

/// Parses a node that may be missing: `None` when it fails (the iterator stays where the
/// failed parse left it).
pub fn parse_option<Tree: NazmcParse>(iter: &mut TokensIter) -> (r: Option<Tree>)
    requires
        old(iter).wf(),
    ensures
        parse_step(*old(iter), *final(iter)),
        r is Some ==> old(iter).peek_idx < final(iter).peek_idx,
        r matches Some(t) ==> Tree::parsed(*old(iter), Ok(t), final(iter).peek_idx),
        r is None ==> exists|e: ParseErr| #[trigger]
            Tree::parsed(*old(iter), Err(e), final(iter).peek_idx),
{
    match Tree::parse(iter) {
        Ok(tree) => Some(tree),
        Err(e) => {
            assert(Tree::parsed(*old(iter), Err(e), iter.peek_idx));
            None
        },
    }
}

/// Parses nodes one after another for as long as they parse; the iterator goes back to
/// before the first node that fails.
pub fn parse_vec<Tree: NazmcParse>(iter: &mut TokensIter) -> (r: Vec<Tree>)
    requires
        old(iter).wf(),
    ensures
        parse_step(*old(iter), *final(iter)),
        r@.len() > 0 ==> old(iter).peek_idx < final(iter).peek_idx,
        vec_parsed(*old(iter), r@, final(iter).peek_idx),
{
    let ghost start = *iter;
    let mut items: Vec<Tree> = vec![];
    loop
        invariant
            start == *old(iter),
            parse_step(start, *iter),
            items@.len() > 0 ==> start.peek_idx < iter.peek_idx,
            forall|rest: Seq<Tree>, after: usize|
                #[trigger] vec_parsed(*iter, rest, after) ==> vec_parsed(
                    start,
                    items@ + rest,
                    after,
                ),
        ensures
            parse_step(start, *iter),
            items@.len() > 0 ==> start.peek_idx < iter.peek_idx,
            vec_parsed(start, items@, iter.peek_idx),
        decreases iter.tokens@.len() + 1 - iter.peek_idx,
    {
        let ghost before = *iter;
        let peek_idx = iter.peek_idx;
        match Tree::parse(iter) {
            Ok(tree) => {
                let ghost a = iter.peek_idx;
                proof {
                    assert(before == moved_to(before, peek_idx));
                    assert forall|rest: Seq<Tree>, after: usize|
                        #[trigger] vec_parsed(*iter, rest, after) implies vec_parsed(
                        start,
                        items@.push(tree) + rest,
                        after,
                    ) by {
                        assert(*iter == moved_to(before, a));
                        lemma_vec_parsed_cons(before, tree, a, rest, after);
                        assert(items@.push(tree) + rest =~= items@ + (seq![tree] + rest));
                    }
                }
                items.push(tree);
            },
            Err(e) => {
                let ghost q = iter.peek_idx;
                iter.peek_idx = peek_idx;  // Backtrack
                proof {
                    assert(*iter == before);
                    assert(Tree::parsed(before, Err(e), q));
                    assert(vec_parsed(*iter, Seq::<Tree>::empty(), iter.peek_idx));
                    assert(items@ + Seq::<Tree>::empty() =~= items@);
                }
                break ;
            },
        }
    }
    items
}

/// Parses a sequence of items where the number of items can vary from zero to many.
///
/// The `ZeroOrMany` parser continues to parse items until a terminator is found or the tokens
/// run out. When an item fails to parse, it backtracks and tries the terminator; if that
/// fails too, the failed item is kept among the items, and the parser skips the token it
/// failed at and goes on.
#[derive(Debug)]
pub struct ZeroOrMany<Tree, Terminator> {
    pub items: Vec<ParseResult<Tree>>,
    pub terminator: ParseResult<Terminator>,
}

/// `OneOrMany` is a sequence that starts with one item, then goes on as `ZeroOrMany`.
#[derive(Debug)]
pub struct OneOrMany<Tree, Terminator> {
    pub first: ParseResult<Tree>,
    pub rest: Vec<ParseResult<Tree>>,
    pub terminator: ParseResult<Terminator>,
}

/// Skipping from `from` over the trivia that follow it, as `next_non_space_or_comment` does,
/// ends at `to`.
pub open spec fn trivia_skipped(it: TokensIter, from: usize, to: usize) -> bool {
    if from <= it.tokens@.len() {
        skips_trivia(it.tokens@, from as int, to as int)
    } else {
        to == from
    }
}

/// Reading a `ZeroOrMany` from `it` gives `items` and `terminator` and leaves the iterator at
/// `after`. With no recent token, the tokens ran out: no item, and the end-of-tokens error.
/// Otherwise an item is read: if it parses, it is the first item and the rest is read from
/// where it ended. If it fails, the terminator is read from the same place: if that parses, it
/// is the terminator and there is no item; if it fails too, the failed item is the first
/// item, and the rest is read past the trivia that follow where the item failed.
pub open spec fn zero_or_many_parsed<Tree: NazmcParse, Terminator: NazmcParse>(
    it: TokensIter,
    items: Seq<ParseResult<Tree>>,
    terminator: ParseResult<Terminator>,
    after: usize,
) -> bool
    decreases items.len(),
{
    if it.recent_token() is None {
        &&& items.len() == 0
        &&& terminator == Err::<Terminator, ParseErr>(eof_err())
        &&& after == it.peek_idx
    } else if items.len() == 0 {
        &&& terminator is Ok
        &&& exists|e: ParseErr, q: usize| #[trigger] Tree::parsed(it, Err(e), q)
        &&& Terminator::parsed(it, terminator, after)
    } else {
        match items[0] {
            Ok(t) => exists|q: usize|
                #[trigger] Tree::parsed(it, Ok(t), q) && zero_or_many_parsed(
                    moved_to(it, q),
                    items.drop_first(),
                    terminator,
                    after,
                ),
            Err(e) => exists|q: usize, te: ParseErr, q2: usize, s: usize|
                #[trigger] Tree::parsed(it, Err(e), q) && #[trigger] Terminator::parsed(
                    it,
                    Err(te),
                    q2,
                ) && #[trigger] trivia_skipped(it, q, s) && zero_or_many_parsed(
                    moved_to(it, s),
                    items.drop_first(),
                    terminator,
                    after,
                ),
        }
    }
}

/// How a `ZeroOrMany` read ends: with an error only when the tokens ran out (the end-of-tokens
/// error, and the iterator it leaves has no recent token); otherwise with a terminator that
/// parsed from some place of the same tokens and ended where the iterator is left.
pub proof fn lemma_zero_or_many_ends<Tree: NazmcParse, Terminator: NazmcParse>(
    it: TokensIter,
    items: Seq<ParseResult<Tree>>,
    terminator: ParseResult<Terminator>,
    after: usize,
)
    requires
        zero_or_many_parsed(it, items, terminator, after),
    ensures
        terminator is Err ==> terminator == Err::<Terminator, ParseErr>(eof_err()) && moved_to(
            it,
            after,
        ).recent_token() is None,
        terminator is Ok ==> exists|p: usize| #[trigger]
            Terminator::parsed(moved_to(it, p), terminator, after),
    decreases items.len(),
{
    if it.recent_token() is None {
        assert(moved_to(it, after) == it);
    } else if items.len() == 0 {
        assert(moved_to(it, it.peek_idx) == it);
        assert(Terminator::parsed(moved_to(it, it.peek_idx), terminator, after));
    } else {
        match items[0] {
            Ok(t) => {
                let q = choose|q: usize|
                    #[trigger] Tree::parsed(it, Ok(t), q) && zero_or_many_parsed(
                        moved_to(it, q),
                        items.drop_first(),
                        terminator,
                        after,
                    );
                lemma_zero_or_many_ends(moved_to(it, q), items.drop_first(), terminator, after);
                if terminator is Ok {
                    let p = choose|p: usize| #[trigger]
                        Terminator::parsed(moved_to(moved_to(it, q), p), terminator, after);
                    assert(moved_to(moved_to(it, q), p) == moved_to(it, p));
                }
                assert(moved_to(moved_to(it, q), after) == moved_to(it, after));
            },
            Err(e) => {
                let (q, te, q2, s) = choose|q: usize, te: ParseErr, q2: usize, s: usize|
                    #[trigger] Tree::parsed(it, Err(e), q) && #[trigger] Terminator::parsed(
                        it,
                        Err(te),
                        q2,
                    ) && #[trigger] trivia_skipped(it, q, s) && zero_or_many_parsed(
                        moved_to(it, s),
                        items.drop_first(),
                        terminator,
                        after,
                    );
                lemma_zero_or_many_ends(moved_to(it, s), items.drop_first(), terminator, after);
                if terminator is Ok {
                    let p = choose|p: usize| #[trigger]
                        Terminator::parsed(moved_to(moved_to(it, s), p), terminator, after);
                    assert(moved_to(moved_to(it, s), p) == moved_to(it, p));
                }
                assert(moved_to(moved_to(it, s), after) == moved_to(it, after));
            },
        }
    }
}

/// Reading a `OneOrMany` from `it`: the first item is read; if it fails, there is no other
/// item and the terminator is the end-of-tokens error; otherwise the rest and the terminator
/// are a `ZeroOrMany` read from where the first item ended.
pub open spec fn one_or_many_parsed<Tree: NazmcParse, Terminator: NazmcParse>(
    it: TokensIter,
    first: ParseResult<Tree>,
    rest: Seq<ParseResult<Tree>>,
    terminator: ParseResult<Terminator>,
    after: usize,
) -> bool {
    exists|q: usize|
        {
            &&& #[trigger] Tree::parsed(it, first, q)
            &&& first is Err ==> {
                &&& rest.len() == 0
                &&& terminator == Err::<Terminator, ParseErr>(eof_err())
                &&& after == q
            }
            &&& first is Ok ==> zero_or_many_parsed(moved_to(it, q), rest, terminator, after)
        }
}

impl<Tree: NazmcParse, Terminator: NazmcParse> ZeroOrMany<Tree, Terminator> {
    /// Parses items until the terminator; see [ZeroOrMany]. The terminator is an error only
    /// when the tokens ran out, and then the iterator stands past the end of the tokens (or
    /// had no recent token to start from).
    pub fn parse(iter: &mut TokensIter) -> (r: Self)
        requires
            old(iter).wf(),
        ensures
            parse_step(*old(iter), *final(iter)),
            zero_or_many_parsed(*old(iter), r.items@, r.terminator, final(iter).peek_idx),
            r.terminator is Err ==> r.terminator == Err::<Terminator, ParseErr>(eof_err())
                && final(iter).recent_token() is None,
            r.terminator is Ok ==> old(iter).peek_idx < final(iter).peek_idx,
    {
        let ghost start = *iter;
        let mut items: Vec<ParseResult<Tree>> = vec![];
        loop
            invariant
                start == *old(iter),
                parse_step(start, *iter),
                forall|rest: Seq<ParseResult<Tree>>, term: ParseResult<Terminator>, after: usize|
                    #[trigger] zero_or_many_parsed(*iter, rest, term, after)
                        ==> zero_or_many_parsed(start, items@ + rest, term, after),
                items@.len() > 0 ==> start.peek_idx < iter.peek_idx,
            decreases iter.tokens@.len() + 1 - iter.peek_idx,
        {
            let ghost before = *iter;
            // No more tokens
            if iter.recent().is_none() {
                proof {
                    assert(zero_or_many_parsed(
                        *iter,
                        Seq::<ParseResult<Tree>>::empty(),
                        Err::<Terminator, ParseErr>(eof_err()),
                        iter.peek_idx,
                    ));
                    assert(items@ + Seq::<ParseResult<Tree>>::empty() =~= items@);
                }
                return Self { items, terminator: ParseErr::eof() };
            }
            let old_peek_idx = iter.peek_idx;
            let parsed = Tree::parse(iter);
            let ghost q = iter.peek_idx;
            if parsed.is_ok() {
                proof {
                    assert(*iter == moved_to(before, q));
                    assert forall|
                        rest: Seq<ParseResult<Tree>>,
                        term: ParseResult<Terminator>,
                        after: usize,
                    | #[trigger] zero_or_many_parsed(*iter, rest, term, after) implies zero_or_many_parsed(
                        start,
                        items@.push(parsed) + rest,
                        term,
                        after,
                    ) by {
                        let all = seq![parsed] + rest;
                        assert(all.drop_first() =~= rest);
                        assert(all[0] == parsed);
                        assert(Tree::parsed(before, Ok(parsed->Ok_0), q));
                        assert(zero_or_many_parsed(before, all, term, after));
                        assert(items@.push(parsed) + rest =~= items@ + all);
                    }
                }
                items.push(parsed);
            } else {
                let new_peek_idx = iter.peek_idx;
                iter.peek_idx = old_peek_idx;  // Try to backtrack and parse the terminator
                // Check for terminator
                let terminator = Terminator::parse(iter);
                if terminator.is_ok() {
                    proof {
                        assert(moved_to(before, old_peek_idx) == before);
                        assert(Tree::parsed(before, Err(parsed->Err_0), q));
                        assert(zero_or_many_parsed(
                            before,
                            Seq::<ParseResult<Tree>>::empty(),
                            terminator,
                            iter.peek_idx,
                        ));
                        assert(items@ + Seq::<ParseResult<Tree>>::empty() =~= items@);
                    }
                    return Self { items, terminator };
                }
                let ghost q2 = iter.peek_idx;
                // Backtracking doesn't work either
                // so add this unexpected result to items
                // then reset to failure and skip this unexpected token
                let ghost old_items = items@;
                items.push(parsed);
                iter.peek_idx = new_peek_idx;
                iter.next_non_space_or_comment();
                proof {
                    let s = iter.peek_idx;
                    assert(trivia_skipped(before, q, s));
                    assert(*iter == moved_to(before, s));
                    assert forall|
                        rest: Seq<ParseResult<Tree>>,
                        term: ParseResult<Terminator>,
                        after: usize,
                    | #[trigger] zero_or_many_parsed(*iter, rest, term, after) implies zero_or_many_parsed(
                        start,
                        items@ + rest,
                        term,
                        after,
                    ) by {
                        let all = seq![parsed] + rest;
                        assert(all.drop_first() =~= rest);
                        assert(all[0] == parsed);
                        assert(Tree::parsed(before, Err(parsed->Err_0), q));
                        assert(Terminator::parsed(before, Err(terminator->Err_0), q2));
                        assert(zero_or_many_parsed(before, all, term, after));
                        assert(zero_or_many_parsed(start, old_items + all, term, after));
                        assert(items@ + rest =~= old_items + all);
                    }
                }
            }
        }
    }
}

impl<Tree: NazmcParse, Terminator: NazmcParse> OneOrMany<Tree, Terminator> {
    /// Parses the first item, then the rest as `ZeroOrMany`; when the first item fails the
    /// rest is empty and the terminator is the end-of-tokens error.
    pub fn parse(iter: &mut TokensIter) -> (r: Self)
        requires
            old(iter).wf(),
        ensures
            parse_step(*old(iter), *final(iter)),
            one_or_many_parsed(
                *old(iter),
                r.first,
                r.rest@,
                r.terminator,
                final(iter).peek_idx,
            ),
            r.first is Err ==> r.rest@.len() == 0 && r.terminator == Err::<Terminator, ParseErr>(
                eof_err(),
            ),
            r.first is Ok ==> old(iter).peek_idx < final(iter).peek_idx,
    {
        let ghost start = *iter;
        let first = Tree::parse(iter);
        let ghost q = iter.peek_idx;
        if first.is_err() {
            let r = Self { first, rest: vec![], terminator: ParseErr::eof() };
            proof {
                assert(Tree::parsed(start, r.first, q));
            }
            return r;
        }
        let ghost mid = *iter;
        let zero_or_many = ZeroOrMany::<Tree, Terminator>::parse(iter);
        let r = Self { first, rest: zero_or_many.items, terminator: zero_or_many.terminator };
        proof {
            assert(mid == moved_to(start, q));
            assert(Tree::parsed(start, r.first, q));
        }
        r
    }
}

impl<Tree: Check, Terminator: Check> Check for ZeroOrMany<Tree, Terminator> {
    open spec fn broken(&self) -> bool {
        self.items.broken() || self.terminator.broken()
    }

    fn is_broken(&self) -> (r: bool) {
        self.items.is_broken() || self.terminator.is_broken()
    }
}

impl<Tree: Check, Terminator: Check> Check for OneOrMany<Tree, Terminator> {
    open spec fn broken(&self) -> bool {
        self.first.broken() || self.rest.broken() || self.terminator.broken()
    }

    fn is_broken(&self) -> (r: bool) {
        self.first.is_broken() || self.rest.is_broken() || self.terminator.is_broken()
    }
}

} // verus!
