//! `Vec`-based expressions: atoms and groups of expressions.

use vstd::prelude::*;

verus! {

/// `Vec`-based expression.
#[derive(Debug, Eq, Hash, Ord, PartialOrd, PartialEq)]
pub enum VecExpr<A> {
    /// An atomic element of type `A`
    Atom(A),
    /// A grouped vector expression
    Group(Vec<VecExpr<A>>),
}

/// The canonical enumeration of an expression: an atom, or a group of
/// expressions.
#[derive(Debug, Eq, Hash, Ord, PartialOrd, PartialEq)]
pub enum Expr<A> {
    /// Atomic element
    Atom(A),
    /// Grouped expression
    Group(Vec<VecExpr<A>>),
}

/// The mathematical value of an expression: a tree whose leaves are atoms.
pub enum Sexp<V> {
    Atom(V),
    Group(Seq<Sexp<V>>),
}

impl<A: View> VecExpr<A> {
    /// The tree that this expression denotes.
    pub open spec fn sexp(self) -> Sexp<A::V>
        decreases self,
    {
        match self {
            VecExpr::Atom(a) => Sexp::Atom(a@),
            VecExpr::Group(v) => Sexp::Group(Self::sexps(v@)),
        }
    }

    /// The trees of a sequence of expressions.
    pub open spec fn sexps(s: Seq<VecExpr<A>>) -> Seq<Sexp<A::V>>
        decreases s,
    {
        if s.len() == 0 {
            Seq::empty()
        } else {
            Self::sexps(s.drop_last()).push(s.last().sexp())
        }
    }
}

impl<A> VecExpr<A> {
    /// Convert `VecExpr` enum to the canonical enumeration.
    pub fn into_expr(self) -> (e: Expr<A>)
        ensures
            match self {
                VecExpr::Atom(a) => e == Expr::Atom(a),
                VecExpr::Group(g) => e == Expr::Group(g),
            },
    {
        match self {
            VecExpr::Atom(atom) => Expr::Atom(atom),
            VecExpr::Group(group) => Expr::Group(group),
        }
    }

    /// Apply `Atom` constructor.
    pub fn from_atom(atom: A) -> (e: Self)
        ensures
            e == VecExpr::Atom(atom),
    {
        VecExpr::Atom(atom)
    }

    /// Apply `Group` constructor.
    pub fn from_group(group: Vec<VecExpr<A>>) -> (e: Self)
        ensures
            e == VecExpr::<A>::Group(group),
    {
        VecExpr::Group(group)
    }
}

} // verus!
