//! Expression parsing: a sequence of symbols, each classified as whitespace,
//! group delimiter, quote or other, is read as one expression.

use crate::expr::{Sexp, VecExpr};
use vstd::prelude::*;

verus! {

/// Expression Parsing Error
#[derive(Clone, Copy, Debug, Eq, Hash, Ord, PartialEq, PartialOrd)]
pub enum Error {
    /// Multiple expressions at top level
    MultiExpr,
    /// No closing quote
    MissingQuote,
    /// Group was not closed
    OpenGroup,
    /// Group was not opened
    UnopenedGroup,
}

/// Meaningful symbols for parsing algorithm
#[derive(Clone, Copy, Debug, Eq, Hash, Ord, PartialEq, PartialOrd)]
pub enum SymbolType {
    /// Whitespace
    Whitespace,
    /// Start of a group
    GroupOpen,
    /// End of a group
    GroupClose,
    /// Start of a quoted sub-string
    Quote,
    /// Other characters
    Other,
}

impl SymbolType {
    /// Checks if the classified symbol is whitespace
    pub fn is_whitespace(&self) -> (b: bool)
        ensures
            b == *self is Whitespace,
    {
        is_space(*self)
    }

    /// Checks if the classified symbol is not whitespace
    pub fn is_not_whitespace(&self) -> (b: bool)
        ensures
            b == !(*self is Whitespace),
    {
        !is_space(*self)
    }
}

/// Parsed Expression
pub trait ParsedExpression<T: Copy>: Sized {
    /// Parse an expression from `items`, classifying each with `classify`.
    fn parse<C: Fn(&T) -> SymbolType>(classify: C, items: &[T]) -> Result<Self, Error>
        requires
            forall|i: int| 0 <= i < items@.len() ==> call_requires(classify, (&items@[i],)),
    ;
}

impl<T: Copy> ParsedExpression<T> for VecExpr<Vec<T>> {
    fn parse<C: Fn(&T) -> SymbolType>(classify: C, items: &[T]) -> (r: Result<Self, Error>)
        ensures
            exists|kinds: Seq<SymbolType>|
                {
                    &&& kinds.len() == items@.len()
                    &&& forall|i: int| 0 <= i < items@.len() ==> call_ensures(classify, (&items@[i],), #[trigger] kinds[i])
                    &&& agrees(r, parse_spec(kinds, items@))
                },
    {
        parse(classify, items)
    }
}

/// The expression trees that parsing yields.
pub type Tree<T> = Sexp<Seq<T>>;

/// A symbol that ends an unquoted atom: whitespace or a group delimiter.
pub open spec fn is_stop(k: SymbolType) -> bool {
    k is Whitespace || k is GroupOpen || k is GroupClose
}

/// The first position at or after `i` that is not whitespace (or the length).
pub open spec fn skip_space(k: Seq<SymbolType>, i: int) -> int
    decreases k.len() - i,
{
    if 0 <= i < k.len() && k[i] is Whitespace {
        skip_space(k, i + 1)
    } else {
        i
    }
}

/// The first quote at or after `i` (or the length).
pub open spec fn next_quote(k: Seq<SymbolType>, i: int) -> int
    decreases k.len() - i,
{
    if 0 <= i < k.len() && !(k[i] is Quote) {
        next_quote(k, i + 1)
    } else {
        i
    }
}

pub proof fn lemma_skip_space(k: Seq<SymbolType>, i: int)
    requires
        0 <= i <= k.len(),
    ensures
        i <= skip_space(k, i) <= k.len(),
        forall|j: int| i <= j < skip_space(k, i) ==> #[trigger] k[j] is Whitespace,
        skip_space(k, i) < k.len() ==> !(k[skip_space(k, i)] is Whitespace),
    decreases k.len() - i,
{
    if i < k.len() && k[i] is Whitespace {
        lemma_skip_space(k, i + 1);
    }
}

pub proof fn lemma_next_quote(k: Seq<SymbolType>, i: int)
    requires
        0 <= i <= k.len(),
    ensures
        i <= next_quote(k, i) <= k.len(),
        forall|j: int| i <= j < next_quote(k, i) ==> !(#[trigger] k[j] is Quote),
        next_quote(k, i) < k.len() ==> k[next_quote(k, i)] is Quote,
    decreases k.len() - i,
{
    if i < k.len() && !(k[i] is Quote) {
        lemma_next_quote(k, i + 1);
    }
}

/// The end (exclusive) of the atom that continues at position `i`: quoted
/// stretches run to the next quote and may hold any symbol; outside them the
/// atom ends at whitespace, a group delimiter or the end of input. `None`
/// when a quote is not closed.
pub open spec fn atom_end(k: Seq<SymbolType>, i: int) -> Option<int>
    decreases k.len() - i,
{
    if i < 0 || i >= k.len() {
        Some(k.len() as int)
    } else if is_stop(k[i]) {
        Some(i)
    } else if k[i] is Quote {
        let q = next_quote(k, i + 1);
        if q >= k.len() {
            None
        } else {
            proof {
                lemma_next_quote(k, i + 1);
            }
            atom_end(k, q + 1)
        }
    } else {
        atom_end(k, i + 1)
    }
}

pub proof fn lemma_atom_end(k: Seq<SymbolType>, i: int)
    requires
        0 <= i <= k.len(),
    ensures
        atom_end(k, i) matches Some(j) ==> {
            &&& i <= j <= k.len()
            &&& j < k.len() ==> is_stop(k[j])
            &&& (i < k.len() && !is_stop(k[i])) ==> i < j
        },
    decreases k.len() - i,
{
    if i < k.len() && !is_stop(k[i]) {
        if k[i] is Quote {
            lemma_next_quote(k, i + 1);
            let q = next_quote(k, i + 1);
            if q < k.len() {
                lemma_atom_end(k, q + 1);
            }
        } else {
            lemma_atom_end(k, i + 1);
        }
    }
}

/// The rest of a group whose elements so far are `acc`, read from position
/// `i`: its elements and the position after its closing delimiter.
pub open spec fn group_rest<T>(k: Seq<SymbolType>, x: Seq<T>, i: int, acc: Seq<Tree<T>>) -> Result<
    (Seq<Tree<T>>, int),
    Error,
>
    decreases k.len() - i,
{
    if i < 0 || i >= k.len() {
        Err(Error::OpenGroup)
    } else {
        match k[i] {
            SymbolType::Whitespace => group_rest(k, x, i + 1, acc),
            SymbolType::GroupClose => Ok((acc, i + 1)),
            SymbolType::GroupOpen => match group_rest(k, x, i + 1, Seq::empty()) {
                Err(e) => Err(e),
                Ok((inner, j)) => if i < j <= k.len() {
                    group_rest(k, x, j, acc.push(Sexp::Group(inner)))
                } else {
                    Err(Error::OpenGroup)
                },
            },
            _ => match atom_end(k, i) {
                None => Err(Error::MissingQuote),
                Some(j) => if i < j <= k.len() {
                    group_rest(k, x, j, acc.push(Sexp::Atom(x.subrange(i, j))))
                } else {
                    Err(Error::OpenGroup)
                },
            },
        }
    }
}

pub proof fn lemma_group_rest<T>(k: Seq<SymbolType>, x: Seq<T>, i: int, acc: Seq<Tree<T>>)
    ensures
        group_rest(k, x, i, acc) matches Ok((_, j)) ==> i < j <= k.len(),
    decreases k.len() - i,
{
    if 0 <= i < k.len() {
        match k[i] {
            SymbolType::Whitespace => lemma_group_rest(k, x, i + 1, acc),
            SymbolType::GroupClose => {},
            SymbolType::GroupOpen => {
                lemma_group_rest(k, x, i + 1, Seq::empty());
                match group_rest(k, x, i + 1, Seq::empty()) {
                    Err(e) => {},
                    Ok((inner, j)) => {
                        if i < j <= k.len() {
                            lemma_group_rest(k, x, j, acc.push(Sexp::Group(inner)));
                        }
                    },
                }
            },
            _ => {
                match atom_end(k, i) {
                    None => {},
                    Some(j) => {
                        if i < j <= k.len() {
                            lemma_group_rest(k, x, j, acc.push(Sexp::Atom(x.subrange(i, j))));
                        }
                    },
                }
            },
        }
    }
}

/// A complete expression `e` that ends at position `j`: only whitespace may
/// follow it.
pub open spec fn finish<T>(k: Seq<SymbolType>, j: int, e: Tree<T>) -> Result<Tree<T>, Error> {
    if skip_space(k, j) >= k.len() {
        Ok(e)
    } else {
        Err(Error::MultiExpr)
    }
}

/// The expression that the symbols `x`, classified as `k`, denote. Leading
/// whitespace is skipped; an empty input is the empty atom; a group opens at
/// its delimiter and must be closed; an atom is read as `atom_end` says; in
/// each case only whitespace may follow the expression.
pub open spec fn parse_spec<T>(k: Seq<SymbolType>, x: Seq<T>) -> Result<Tree<T>, Error> {
    let s = skip_space(k, 0);
    if s >= k.len() {
        Ok(Sexp::Atom(Seq::empty()))
    } else {
        match k[s] {
            SymbolType::GroupOpen => match group_rest(k, x, s + 1, Seq::empty()) {
                Err(e) => Err(e),
                Ok((inner, j)) => finish(k, j, Sexp::Group(inner)),
            },
            SymbolType::GroupClose => Err(Error::UnopenedGroup),
            _ => match atom_end(k, s) {
                None => Err(Error::MissingQuote),
                Some(j) => finish(k, j, Sexp::Atom(x.subrange(s, j))),
            },
        }
    }
}

/// A complete group read from position `start` (just after its opening
/// delimiter), followed by nothing but whitespace.
pub open spec fn group_spec<T>(k: Seq<SymbolType>, x: Seq<T>, start: int) -> Result<Tree<T>, Error> {
    match group_rest(k, x, start, Seq::empty()) {
        Err(e) => Err(e),
        Ok((inner, j)) => finish(k, j, Sexp::Group(inner)),
    }
}

/// The outcome of reading on from position `i` with the open groups `st`
/// (outermost first, each with its elements so far): the innermost group is
/// completed, added to the one around it, and so on; the outermost one must be
/// followed by nothing but whitespace.
pub open spec fn cont<T>(k: Seq<SymbolType>, x: Seq<T>, i: int, st: Seq<Seq<Tree<T>>>) -> Result<
    Tree<T>,
    Error,
>
    decreases st.len(),
{
    if st.len() == 0 {
        Err(Error::OpenGroup)
    } else {
        match group_rest(k, x, i, st.last()) {
            Err(e) => Err(e),
            Ok((inner, j)) => if st.len() == 1 {
                finish(k, j, Sexp::Group(inner))
            } else {
                cont(
                    k,
                    x,
                    j,
                    st.drop_last().update(st.len() - 2, st[st.len() - 2].push(Sexp::Group(inner))),
                )
            },
        }
    }
}

/// An executable result agrees with a specified one: equal errors, or an
/// expression that denotes the specified tree.
pub open spec fn agrees<T>(r: Result<VecExpr<Vec<T>>, Error>, s: Result<Tree<T>, Error>) -> bool {
    match (r, s) {
        (Ok(e), Ok(t)) => e.sexp() == t,
        (Err(e1), Err(e2)) => e1 == e2,
        _ => false,
    }
}

/// The trees of a stack of partial groups.
pub open spec fn stack_view<T>(g: Seq<Vec<VecExpr<Vec<T>>>>) -> Seq<Seq<Tree<T>>> {
    Seq::new(g.len(), |i: int| VecExpr::<Vec<T>>::sexps(g[i]@))
}

proof fn lemma_sexps_push<A: View>(s: Seq<VecExpr<A>>, e: VecExpr<A>)
    ensures
        VecExpr::<A>::sexps(s.push(e)) == VecExpr::<A>::sexps(s).push(e.sexp()),
{
    assert(s.push(e).drop_last() =~= s);
}

proof fn lemma_cont_open<T>(k: Seq<SymbolType>, x: Seq<T>, i: int, st: Seq<Seq<Tree<T>>>)
    requires
        st.len() >= 1,
        0 <= i < k.len(),
        k[i] is GroupOpen,
    ensures
        cont(k, x, i + 1, st.push(Seq::empty())) == cont(k, x, i, st),
{
    let st2 = st.push(Seq::empty());
    assert(st2.last() == Seq::<Tree<T>>::empty());
    lemma_group_rest(k, x, i + 1, Seq::empty());
    match group_rest(k, x, i + 1, Seq::empty()) {
        Err(e) => {
            assert(group_rest(k, x, i, st.last()) == Err::<(Seq<Tree<T>>, int), Error>(e));
        },
        Ok((inner, j)) => {
            let st3 = st2.drop_last().update(st2.len() - 2, st2[st2.len() - 2].push(Sexp::Group(inner)));
            assert(st3 =~= st.update(st.len() - 1, st.last().push(Sexp::Group(inner))));
            assert(st3.drop_last() =~= st.drop_last());
            assert(st3.last() == st.last().push(Sexp::Group(inner)));
            if st.len() >= 2 {
                assert(st3[st3.len() - 2] == st[st.len() - 2]);
            }
            assert(group_rest(k, x, i, st.last()) == group_rest(k, x, j, st3.last()));
            assert(cont(k, x, i + 1, st2) == cont(k, x, j, st3));
        },
    }
}

proof fn lemma_cont_atom<T>(k: Seq<SymbolType>, x: Seq<T>, i: int, j: int, st: Seq<Seq<Tree<T>>>)
    requires
        st.len() >= 1,
        0 <= i < k.len(),
        !is_stop(k[i]),
        atom_end(k, i) == Some(j),
    ensures
        cont(k, x, i, st) == cont(
            k,
            x,
            j,
            st.update(st.len() - 1, st.last().push(Sexp::Atom(x.subrange(i, j)))),
        ),
{
    lemma_atom_end(k, i);
    let st3 = st.update(st.len() - 1, st.last().push(Sexp::Atom(x.subrange(i, j))));
    assert(st3.drop_last() =~= st.drop_last());
    if st.len() >= 2 {
        assert(st3[st3.len() - 2] == st[st.len() - 2]);
    }
}

proof fn lemma_cont_close<T>(k: Seq<SymbolType>, x: Seq<T>, i: int, st: Seq<Seq<Tree<T>>>)
    requires
        st.len() >= 2,
        0 <= i < k.len(),
        k[i] is GroupClose,
    ensures
        cont(k, x, i, st) == cont(
            k,
            x,
            i + 1,
            st.drop_last().update(st.len() - 2, st[st.len() - 2].push(Sexp::Group(st.last()))),
        ),
{
}

fn is_space(k: SymbolType) -> (b: bool)
    ensures
        b == k is Whitespace,
{
    match k {
        SymbolType::Whitespace => true,
        _ => false,
    }
}

fn is_quote(k: SymbolType) -> (b: bool)
    ensures
        b == k is Quote,
{
    match k {
        SymbolType::Quote => true,
        _ => false,
    }
}

fn is_stop_kind(k: SymbolType) -> (b: bool)
    ensures
        b == is_stop(k),
{
    match k {
        SymbolType::Whitespace | SymbolType::GroupOpen | SymbolType::GroupClose => true,
        _ => false,
    }
}

/// Whether nothing but whitespace follows position `j`.
fn only_space_from(kinds: &[SymbolType], j: usize) -> (b: bool)
    requires
        j <= kinds@.len(),
    ensures
        b == (skip_space(kinds@, j as int) >= kinds@.len()),
{
    let n = kinds.len();
    let mut i = j;
    while i < n
        invariant
            n == kinds@.len(),
            j <= i <= n,
            skip_space(kinds@, i as int) == skip_space(kinds@, j as int),
        decreases n - i,
    {
        if !is_space(kinds[i]) {
            return false;
        }
        i = i + 1;
    }
    true
}

/// Read a quoted stretch that starts at `head`: push the symbols from `head`
/// up to and including the next quote onto `atom`. Returns whether a closing
/// quote was found, and the position after what was read.
pub fn parse_quoted_atom<T: Copy>(kinds: &[SymbolType], items: &[T], head: usize, atom: &mut Vec<T>) -> (r: (bool, usize))
    requires
        kinds@.len() == items@.len(),
        head < items@.len(),
    ensures
        ({
            let q = next_quote(kinds@, head + 1);
            if q < kinds@.len() {
                &&& r == (true, (q + 1) as usize)
                &&& final(atom)@ == old(atom)@ + items@.subrange(head as int, q + 1)
            } else {
                &&& r == (false, items@.len() as usize)
                &&& final(atom)@ == old(atom)@ + items@.subrange(head as int, items@.len() as int)
            }
        }),
{
    let n = items.len();
    atom.push(items[head]);
    let mut i = head + 1;
    while i < n
        invariant
            n == items@.len(),
            n == kinds@.len(),
            head < i <= n,
            next_quote(kinds@, i as int) == next_quote(kinds@, head + 1),
            atom@ == old(atom)@ + items@.subrange(head as int, i as int),
        decreases n - i,
    {
        let kind = kinds[i];
        atom.push(items[i]);
        assert(items@.subrange(head as int, i + 1) =~= items@.subrange(head as int, i as int).push(items@[i as int]));
        i = i + 1;
        if is_quote(kind) {
            return (true, i);
        }
    }
    (false, n)
}

/// The end of an atom whose first symbol is at `head`: a quote opens a
/// quoted stretch; any other symbol, even one that would end an atom, is
/// taken as the atom's first symbol.
pub open spec fn atom_end_from_head(k: Seq<SymbolType>, head: int) -> Option<int> {
    if k[head] is Quote {
        atom_end(k, head)
    } else {
        atom_end(k, head + 1)
    }
}

/// Read the atom whose first symbol is at `head`. Returns the atom and the
/// position where it ends.
pub fn parse_atom_without_leading_whitespace<T: Copy>(kinds: &[SymbolType], items: &[T], head: usize) -> (r: Result<(VecExpr<Vec<T>>, usize), Error>)
    requires
        kinds@.len() == items@.len(),
        head < items@.len(),
    ensures
        match atom_end_from_head(kinds@, head as int) {
            None => r == Err::<(VecExpr<Vec<T>>, usize), Error>(Error::MissingQuote),
            Some(j) => r matches Ok((e, end)) && end == j && e.sexp() == Sexp::Atom(
                items@.subrange(head as int, j),
            ),
        },
{
    let n = items.len();
    let mut atom: Vec<T> = Vec::new();
    let mut i: usize;
    if is_quote(kinds[head]) {
        proof {
            lemma_next_quote(kinds@, head + 1);
        }
        let (closed, next) = parse_quoted_atom(kinds, items, head, &mut atom);
        if !closed {
            return Err(Error::MissingQuote);
        }
        i = next;
    } else {
        atom.push(items[head]);
        i = head + 1;
    }
    assert(atom@ =~= items@.subrange(head as int, i as int));
    while i < n
        invariant
            n == items@.len(),
            n == kinds@.len(),
            head < i <= n,
            atom_end(kinds@, i as int) == atom_end_from_head(kinds@, head as int),
            atom@ == items@.subrange(head as int, i as int),
        ensures
            head < i <= n,
            atom_end(kinds@, i as int) == atom_end_from_head(kinds@, head as int),
            atom@ == items@.subrange(head as int, i as int),
            i == n || is_stop(kinds@[i as int]),
        decreases n - i,
    {
        let kind = kinds[i];
        if is_stop_kind(kind) {
            break;
        }
        if is_quote(kind) {
            proof {
                lemma_next_quote(kinds@, i + 1);
            }
            let (closed, next) = parse_quoted_atom(kinds, items, i, &mut atom);
            if !closed {
                return Err(Error::MissingQuote);
            }
            assert(atom@ =~= items@.subrange(head as int, next as int));
            i = next;
        } else {
            atom.push(items[i]);
            assert(atom@ =~= items@.subrange(head as int, i + 1));
            i = i + 1;
        }
    }
    Ok((VecExpr::Atom(atom), i))
}

/// Push `e` onto the innermost open group.
fn push_top<T>(groups: &mut Vec<Vec<VecExpr<Vec<T>>>>, e: VecExpr<Vec<T>>)
    requires
        old(groups)@.len() >= 1,
    ensures
        final(groups)@.len() == old(groups)@.len(),
        stack_view(final(groups)@) == stack_view(old(groups)@).update(
            old(groups)@.len() - 1,
            stack_view(old(groups)@).last().push(e.sexp()),
        ),
{
    let ghost g0 = groups@;
    let mut top = groups.pop().unwrap();
    proof {
        lemma_sexps_push(top@, e);
    }
    let ghost top0 = top@;
    top.push(e);
    groups.push(top);
    assert(stack_view(groups@) =~= stack_view(g0).update(
        g0.len() - 1,
        stack_view(g0).last().push(e.sexp()),
    ));
}

/// Read the rest of a group whose opening delimiter precedes `start`,
/// followed by nothing but whitespace.
pub fn parse_group<T: Copy>(kinds: &[SymbolType], items: &[T], start: usize) -> (r: Result<VecExpr<Vec<T>>, Error>)
    requires
        kinds@.len() == items@.len(),
        start <= items@.len(),
    ensures
        agrees(r, group_spec(kinds@, items@, start as int)),
{
    let n = items.len();
    let mut groups: Vec<Vec<VecExpr<Vec<T>>>> = Vec::new();
    groups.push(Vec::new());
    let ghost goal = cont(kinds@, items@, start as int, seq![Seq::<Tree<T>>::empty()]);
    proof {
        assert(stack_view(groups@) =~= seq![Seq::<Tree<T>>::empty()]);
        let e = Seq::<VecExpr<Vec<T>>>::empty();
        assert(VecExpr::<Vec<T>>::sexps(e) == Seq::<Tree<T>>::empty());
        assert(goal == group_spec(kinds@, items@, start as int));
    }
    let mut i = start;
    while i < n
        invariant
            n == items@.len(),
            n == kinds@.len(),
            start <= i <= n,
            groups@.len() >= 1,
            cont(kinds@, items@, i as int, stack_view(groups@)) == goal,
            goal == group_spec(kinds@, items@, start as int),
        decreases n - i,
    {
        let kind = kinds[i];
        match kind {
            SymbolType::Whitespace => {
                i = i + 1;
            },
            SymbolType::GroupOpen => {
                proof {
                    lemma_cont_open(kinds@, items@, i as int, stack_view(groups@));
                }
                let ghost g0 = groups@;
                groups.push(Vec::new());
                proof {
                    assert(VecExpr::<Vec<T>>::sexps(Seq::empty()) == Seq::<Tree<T>>::empty());
                    assert(stack_view(groups@) =~= stack_view(g0).push(Seq::empty()));
                }
                i = i + 1;
            },
            SymbolType::GroupClose => {
                let ghost st = stack_view(groups@);
                let top = groups.pop().unwrap();
                let last = VecExpr::Group(top);
                assert(last.sexp() == Sexp::Group(st.last()));
                i = i + 1;
                if groups.len() == 0 {
                    if only_space_from(kinds, i) {
                        return Ok(last);
                    } else {
                        return Err(Error::MultiExpr);
                    }
                } else {
                    proof {
                        lemma_cont_close(kinds@, items@, (i - 1) as int, st);
                        assert(stack_view(groups@) =~= st.drop_last());
                    }
                    push_top(&mut groups, last);
                }
            },
            _ => {
                proof {
                    lemma_atom_end(kinds@, i as int);
                    assert(atom_end_from_head(kinds@, i as int) == atom_end(kinds@, i as int));
                }
                match parse_atom_without_leading_whitespace(kinds, items, i) {
                    Err(e) => {
                        return Err(e);
                    },
                    Ok((atom, j)) => {
                        proof {
                            lemma_cont_atom(kinds@, items@, i as int, j as int, stack_view(groups@));
                        }
                        push_top(&mut groups, atom);
                        i = j;
                    },
                }
            },
        }
    }
    Err(Error::OpenGroup)
}

/// Parse the symbols `items`, classified as `kinds`, into one expression.
pub fn parse_classified<T: Copy>(kinds: &[SymbolType], items: &[T]) -> (r: Result<VecExpr<Vec<T>>, Error>)
    requires
        kinds@.len() == items@.len(),
    ensures
        agrees(r, parse_spec(kinds@, items@)),
{
    let n = items.len();
    let mut s: usize = 0;
    while s < n && is_space(kinds[s])
        invariant
            n == items@.len(),
            n == kinds@.len(),
            s <= n,
            skip_space(kinds@, s as int) == skip_space(kinds@, 0),
        decreases n - s,
    {
        s = s + 1;
    }
    if s == n {
        let e: VecExpr<Vec<T>> = VecExpr::Atom(Vec::new());
        assert(e.sexp() == Sexp::Atom(Seq::<T>::empty()));
        return Ok(e);
    }
    match kinds[s] {
        SymbolType::GroupOpen => parse_group(kinds, items, s + 1),
        SymbolType::GroupClose => Err(Error::UnopenedGroup),
        _ => {
            proof {
                lemma_atom_end(kinds@, s as int);
                assert(atom_end_from_head(kinds@, s as int) == atom_end(kinds@, s as int));
            }
            match parse_atom_without_leading_whitespace(kinds, items, s) {
                Err(e) => Err(e),
                Ok((atom, j)) => {
                    if only_space_from(kinds, j) {
                        Ok(atom)
                    } else {
                        Err(Error::MultiExpr)
                    }
                },
            }
        },
    }
}

/// Classify each symbol of `items` with `classify`, in order.
pub fn classify_all<T, C: Fn(&T) -> SymbolType>(classify: &C, items: &[T]) -> (kinds: Vec<SymbolType>)
    requires
        forall|i: int| 0 <= i < items@.len() ==> call_requires(*classify, (&items@[i],)),
    ensures
        kinds@.len() == items@.len(),
        forall|i: int| 0 <= i < items@.len() ==> call_ensures(*classify, (&items@[i],), #[trigger] kinds@[i]),
{
    let n = items.len();
    let mut kinds: Vec<SymbolType> = Vec::new();
    let mut i: usize = 0;
    while i < n
        invariant
            n == items@.len(),
            i <= n,
            kinds@.len() == i,
            forall|j: int| 0 <= j < items@.len() ==> call_requires(*classify, (&items@[j],)),
            forall|j: int| 0 <= j < i ==> call_ensures(*classify, (&items@[j],), #[trigger] kinds@[j]),
        decreases n - i,
    {
        let k = classify(&items[i]);
        kinds.push(k);
        i = i + 1;
    }
    kinds
}

/// Parse the symbols `items` into one expression, classifying each symbol with
/// `classify`. The result is what `parse_spec` gives for the classes that
/// `classify` returned.
pub fn parse<T: Copy, C: Fn(&T) -> SymbolType>(classify: C, items: &[T]) -> (r: Result<VecExpr<Vec<T>>, Error>)
    requires
        forall|i: int| 0 <= i < items@.len() ==> call_requires(classify, (&items@[i],)),
    ensures
        exists|kinds: Seq<SymbolType>|
            {
                &&& kinds.len() == items@.len()
                &&& forall|i: int| 0 <= i < items@.len() ==> call_ensures(classify, (&items@[i],), #[trigger] kinds[i])
                &&& agrees(r, parse_spec(kinds, items@))
            },
{
    let kinds = classify_all(&classify, items);
    let r = parse_classified(kinds.as_slice(), items);
    assert(forall|i: int| 0 <= i < items@.len() ==> call_ensures(classify, (&items@[i],), #[trigger] kinds@[i]));
    r
}

proof fn lemma_skip_space_to(k: Seq<SymbolType>, i: int, a: int)
    requires
        0 <= i <= a <= k.len(),
        forall|j: int| i <= j < a ==> #[trigger] k[j] is Whitespace,
        a < k.len() ==> !(k[a] is Whitespace),
    ensures
        skip_space(k, i) == a,
    decreases a - i,
{
    if i < a {
        lemma_skip_space_to(k, i + 1, a);
    }
}

proof fn lemma_atom_end_plain(k: Seq<SymbolType>, i: int, b: int)
    requires
        0 <= i <= b <= k.len(),
        forall|j: int| i <= j < b ==> #[trigger] k[j] is Other,
        b < k.len() ==> is_stop(k[b]),
    ensures
        atom_end(k, i) == Some(b),
    decreases b - i,
{
    if i < b {
        lemma_atom_end_plain(k, i + 1, b);
    }
}

proof fn lemma_group_rest_errors<T>(k: Seq<SymbolType>, x: Seq<T>, i: int, acc: Seq<Tree<T>>)
    ensures
        group_rest(k, x, i, acc) matches Err(e) ==> (e is OpenGroup || e is MissingQuote),
    decreases k.len() - i,
{
    if 0 <= i < k.len() {
        match k[i] {
            SymbolType::Whitespace => lemma_group_rest_errors(k, x, i + 1, acc),
            SymbolType::GroupClose => {},
            SymbolType::GroupOpen => {
                lemma_group_rest_errors(k, x, i + 1, Seq::empty());
                match group_rest(k, x, i + 1, Seq::empty()) {
                    Err(e) => {},
                    Ok((inner, j)) => {
                        if i < j <= k.len() {
                            lemma_group_rest_errors(k, x, j, acc.push(Sexp::Group(inner)));
                        }
                    },
                }
            },
            _ => {
                match atom_end(k, i) {
                    None => {},
                    Some(j) => {
                        if i < j <= k.len() {
                            lemma_group_rest_errors(k, x, j, acc.push(Sexp::Atom(x.subrange(i, j))));
                        }
                    },
                }
            },
        }
    }
}

/// A quote at `q` that no later quote closes.
pub open spec fn unclosed_quote(k: Seq<SymbolType>, q: int) -> bool {
    0 <= q < k.len() && k[q] is Quote && next_quote(k, q + 1) >= k.len()
}

proof fn lemma_atom_end_unclosed(k: Seq<SymbolType>, i: int)
    requires
        0 <= i <= k.len(),
        atom_end(k, i) is None,
    ensures
        exists|q: int| #[trigger] unclosed_quote(k, q),
    decreases k.len() - i,
{
    if i < k.len() && !is_stop(k[i]) {
        if k[i] is Quote {
            lemma_next_quote(k, i + 1);
            let q = next_quote(k, i + 1);
            if q >= k.len() {
                assert(unclosed_quote(k, i));
            } else {
                lemma_atom_end_unclosed(k, q + 1);
            }
        } else {
            lemma_atom_end_unclosed(k, i + 1);
        }
    }
}

proof fn lemma_group_rest_unclosed<T>(k: Seq<SymbolType>, x: Seq<T>, i: int, acc: Seq<Tree<T>>)
    requires
        0 <= i,
        group_rest(k, x, i, acc) == Err::<(Seq<Tree<T>>, int), Error>(Error::MissingQuote),
    ensures
        exists|q: int| #[trigger] unclosed_quote(k, q),
    decreases k.len() - i,
{
    if 0 <= i < k.len() {
        match k[i] {
            SymbolType::Whitespace => lemma_group_rest_unclosed(k, x, i + 1, acc),
            SymbolType::GroupClose => {},
            SymbolType::GroupOpen => {
                lemma_group_rest(k, x, i + 1, Seq::empty());
                match group_rest(k, x, i + 1, Seq::empty()) {
                    Err(e) => {
                        lemma_group_rest_unclosed(k, x, i + 1, Seq::empty());
                    },
                    Ok((inner, j)) => {
                        lemma_group_rest_unclosed(k, x, j, acc.push(Sexp::Group(inner)));
                    },
                }
            },
            _ => {
                lemma_atom_end(k, i);
                match atom_end(k, i) {
                    None => {
                        lemma_atom_end_unclosed(k, i);
                    },
                    Some(j) => {
                        lemma_group_rest_unclosed(k, x, j, acc.push(Sexp::Atom(x.subrange(i, j))));
                    },
                }
            },
        }
    }
}

/// Input that is empty or all whitespace is the empty atom.
pub proof fn law_blank_input<T>(k: Seq<SymbolType>, x: Seq<T>)
    requires
        forall|i: int| 0 <= i < k.len() ==> #[trigger] k[i] is Whitespace,
    ensures
        parse_spec(k, x) == Ok::<Tree<T>, Error>(Sexp::Atom(Seq::empty())),
{
    lemma_skip_space_to(k, 0, k.len() as int);
}

/// A single word of plain symbols, with whitespace before and after it, is an
/// atom holding exactly that word.
pub proof fn law_single_word<T>(k: Seq<SymbolType>, x: Seq<T>, a: int, b: int)
    requires
        k.len() == x.len(),
        0 <= a < b <= k.len(),
        forall|i: int| 0 <= i < a ==> #[trigger] k[i] is Whitespace,
        forall|i: int| a <= i < b ==> #[trigger] k[i] is Other,
        forall|i: int| b <= i < k.len() ==> #[trigger] k[i] is Whitespace,
    ensures
        parse_spec(k, x) == Ok::<Tree<T>, Error>(Sexp::Atom(x.subrange(a, b))),
{
    assert(k[a] is Other);
    lemma_skip_space_to(k, 0, a);
    lemma_atom_end_plain(k, a, b);
    lemma_skip_space_to(k, b, k.len() as int);
}

/// Parsing reports a group that was not opened exactly when the first symbol
/// that is not whitespace closes a group.
pub proof fn law_unopened_group<T>(k: Seq<SymbolType>, x: Seq<T>)
    ensures
        parse_spec(k, x) == Err::<Tree<T>, Error>(Error::UnopenedGroup) <==> (skip_space(k, 0)
            < k.len() && k[skip_space(k, 0)] is GroupClose),
{
    lemma_skip_space(k, 0);
    let s = skip_space(k, 0);
    if s < k.len() && k[s] is GroupOpen {
        lemma_group_rest_errors(k, x, s + 1, Seq::empty());
    }
}

/// A missing quote is reported only when some quote is not closed by any
/// later quote.
pub proof fn law_missing_quote<T>(k: Seq<SymbolType>, x: Seq<T>)
    requires
        parse_spec(k, x) == Err::<Tree<T>, Error>(Error::MissingQuote),
    ensures
        exists|q: int| #[trigger] unclosed_quote(k, q),
{
    lemma_skip_space(k, 0);
    let s = skip_space(k, 0);
    if s < k.len() {
        if k[s] is GroupOpen {
            lemma_group_rest_unclosed(k, x, s + 1, Seq::empty());
        } else if !(k[s] is GroupClose) {
            lemma_atom_end_unclosed(k, s);
        }
    }
}

/// A group left open is reported only when the expression starts with a
/// group.
pub proof fn law_open_group<T>(k: Seq<SymbolType>, x: Seq<T>)
    requires
        parse_spec(k, x) == Err::<Tree<T>, Error>(Error::OpenGroup),
    ensures
        skip_space(k, 0) < k.len(),
        k[skip_space(k, 0)] is GroupOpen,
{
    lemma_skip_space(k, 0);
}

/// The number of quotes among the symbols from `i` up to (not including) `m`.
pub open spec fn quotes_between(k: Seq<SymbolType>, i: int, m: int) -> nat
    decreases m - i,
{
    if m <= i {
        0
    } else {
        quotes_between(k, i, m - 1) + if k[m - 1] is Quote {
            1nat
        } else {
            0nat
        }
    }
}

proof fn lemma_quotes_between_split(k: Seq<SymbolType>, i: int, a: int, m: int)
    requires
        i <= a <= m,
    ensures
        quotes_between(k, i, m) == quotes_between(k, i, a) + quotes_between(k, a, m),
    decreases m - a,
{
    if a < m {
        lemma_quotes_between_split(k, i, a, m - 1);
    }
}

proof fn lemma_no_quotes_between(k: Seq<SymbolType>, i: int, m: int)
    requires
        i <= m,
        forall|p: int| i <= p < m ==> !(#[trigger] k[p] is Quote),
    ensures
        quotes_between(k, i, m) == 0,
    decreases m - i,
{
    if i < m {
        lemma_no_quotes_between(k, i, m - 1);
    }
}

/// A quoted stretch ends at the first quote after the one that opens it: an
/// atom that starts with a quote at `i`, whose next quote (at `q`) is
/// followed by the end of the input, whitespace or a group delimiter, ends
/// right after `q`.
pub proof fn law_quoted_atom_ends_at_next_quote(k: Seq<SymbolType>, i: int, q: int)
    requires
        0 <= i < q < k.len(),
        k[i] is Quote,
        k[q] is Quote,
        forall|m: int| i < m < q ==> !(#[trigger] k[m] is Quote),
        q + 1 == k.len() || is_stop(k[q + 1]),
    ensures
        atom_end(k, i) == Some(q + 1),
{
    lemma_next_quote(k, i + 1);
    if next_quote(k, i + 1) < q {
        assert(k[next_quote(k, i + 1)] is Quote);
    }
    assert(next_quote(k, i + 1) == q);
    assert(atom_end(k, q + 1) == Some(q + 1));
    assert(!is_stop(k[i]));
}

/// Whitespace and group delimiters inside an atom are always quoted: before
/// each of them the atom holds an odd number of quotes.
pub proof fn law_atom_stops_are_quoted(k: Seq<SymbolType>, i: int, m: int)
    requires
        0 <= i <= k.len(),
        atom_end(k, i) matches Some(j) && i <= m < j,
        is_stop(k[m]),
    ensures
        quotes_between(k, i, m) % 2 == 1,
    decreases k.len() - i,
{
    let j = atom_end(k, i).unwrap();
    if i < k.len() && !is_stop(k[i]) {
        if k[i] is Quote {
            lemma_next_quote(k, i + 1);
            let q = next_quote(k, i + 1);
            if m <= q {
                assert(m != q);
                lemma_no_quotes_between(k, i + 1, m);
                lemma_quotes_between_split(k, i, i + 1, m);
                assert(quotes_between(k, i, i + 1) == 1) by {
                    assert(quotes_between(k, i, i) == 0);
                }
            } else {
                lemma_atom_end(k, q + 1);
                law_atom_stops_are_quoted(k, q + 1, m);
                lemma_no_quotes_between(k, i + 1, q);
                lemma_quotes_between_split(k, i, i + 1, q);
                lemma_quotes_between_split(k, i, q, q + 1);
                lemma_quotes_between_split(k, i, q + 1, m);
                assert(quotes_between(k, i, i + 1) == 1) by {
                    assert(quotes_between(k, i, i) == 0);
                }
                assert(quotes_between(k, q, q + 1) == 1) by {
                    assert(quotes_between(k, q, q) == 0);
                }
                lemma_quotes_between_split(k, i + 1, q, q + 1);
            }
        } else {
            assert(m != i);
            law_atom_stops_are_quoted(k, i + 1, m);
            lemma_quotes_between_split(k, i, i + 1, m);
            assert(quotes_between(k, i, i + 1) == 0) by {
                assert(quotes_between(k, i, i) == 0);
            }
        }
    }
}

} // verus!
