//! Structural equality of expressions.
//!
//! Two procedures are never equal, not even a procedure and its copy: what
//! their code does cannot be compared.

use crate::number::{number_eq, numbers_equal};
use crate::sexp::{Primitive, PrimitiveView, SExp, SExpView};
use vstd::prelude::*;
use vstd::std_specs::cmp::PartialEqSpecImpl;

verus! {

/// Two atoms are equal: they are of the same kind and hold equal values.
/// Numbers are compared as numbers.
pub open spec fn primitive_eq<F>(a: PrimitiveView<F>, b: PrimitiveView<F>) -> bool {
    match (a, b) {
        (PrimitiveView::Undefined, PrimitiveView::Undefined) => true,
        (PrimitiveView::Boolean(x), PrimitiveView::Boolean(y)) => x == y,
        (PrimitiveView::Character(x), PrimitiveView::Character(y)) => x == y,
        (PrimitiveView::Number(x), PrimitiveView::Number(y)) => number_eq(x, y),
        (PrimitiveView::String(x), PrimitiveView::String(y)) => x == y,
        (PrimitiveView::Symbol(x), PrimitiveView::Symbol(y)) => x == y,
        _ => false,
    }
}

/// Two expressions are equal: both are the empty list, or equal atoms, or
/// pairs of equal heads and equal tails, or vectors of the same length
/// whose elements are equal one by one.
pub open spec fn sexp_eq<F>(a: SExpView<F>, b: SExpView<F>) -> bool
    decreases a,
{
    match (a, b) {
        (SExpView::Null, SExpView::Null) => true,
        (SExpView::Atom(x), SExpView::Atom(y)) => primitive_eq(x, y),
        (SExpView::Pair { head: h1, tail: t1 }, SExpView::Pair { head: h2, tail: t2 }) => sexp_eq(
            *h1,
            *h2,
        ) && sexp_eq(*t1, *t2),
        (SExpView::Vector(v1), SExpView::Vector(v2)) => v1.len() == v2.len() && forall|i: int|
            0 <= i < v1.len() ==> sexp_eq(#[trigger] v1[i], v2[i]),
        _ => false,
    }
}

impl<F> Primitive<F> {
    /// Decides whether two atoms are equal.
    pub fn equals(&self, other: &Self) -> (equal: bool)
        ensures
            equal == primitive_eq(self@, other@),
    {
        match (self, other) {
            (Primitive::Undefined, Primitive::Undefined) => true,
            (Primitive::Boolean(x), Primitive::Boolean(y)) => *x == *y,
            (Primitive::Character(x), Primitive::Character(y)) => *x == *y,
            (Primitive::Number(x), Primitive::Number(y)) => numbers_equal(*x, *y),
            (Primitive::String(x), Primitive::String(y)) => *x == *y,
            (Primitive::Symbol(x), Primitive::Symbol(y)) => *x == *y,
            _ => false,
        }
    }
}

impl<F> SExp<F> {
    /// Decides whether two expressions are equal.
    pub fn equals(&self, other: &Self) -> (equal: bool)
        ensures
            equal == sexp_eq(self@, other@),
        decreases self,
    {
        match (self, other) {
            (SExp::Null, SExp::Null) => true,
            (SExp::Atom(x), SExp::Atom(y)) => x.equals(y),
            (SExp::Pair { head: h1, tail: t1 }, SExp::Pair { head: h2, tail: t2 }) => {
                h1.equals(h2) && t1.equals(t2)
            },
            (SExp::Vector(v1), SExp::Vector(v2)) => {
                if v1.len() != v2.len() {
                    return false;
                }
                let mut i: usize = 0;
                while i < v1.len()
                    invariant
                        self is Vector,
                        self->Vector_0 == *v1,
                        other is Vector,
                        other->Vector_0 == *v2,
                        v1@.len() == v2@.len(),
                        i <= v1@.len(),
                        forall|j: int| 0 <= j < i ==> sexp_eq(v1@[j]@, v2@[j]@),
                    decreases v1@.len() - i,
                {
                    if !v1[i].equals(&v2[i]) {
                        proof {
                            let a = self@->Vector_0;
                            assert(a[i as int] == v1@[i as int]@);
                        }
                        return false;
                    }
                    i += 1;
                }
                proof {
                    let a = self@->Vector_0;
                    let b = other@->Vector_0;
                    assert forall|j: int| 0 <= j < a.len() implies sexp_eq(#[trigger] a[j], b[j]) by {
                        assert(a[j] == v1@[j]@);
                        assert(b[j] == v2@[j]@);
                    }
                }
                true
            },
            _ => false,
        }
    }
}

impl<F> PartialEq for Primitive<F> {
    fn eq(&self, other: &Self) -> (equal: bool) {
        self.equals(other)
    }
}

impl<F> PartialEqSpecImpl for Primitive<F> {
    open spec fn obeys_eq_spec() -> bool {
        true
    }

    open spec fn eq_spec(&self, other: &Self) -> bool {
        primitive_eq(self@, other@)
    }
}

impl<F> PartialEq for SExp<F> {
    fn eq(&self, other: &Self) -> (equal: bool) {
        self.equals(other)
    }
}

impl<F> PartialEqSpecImpl for SExp<F> {
    open spec fn obeys_eq_spec() -> bool {
        true
    }

    open spec fn eq_spec(&self, other: &Self) -> bool {
        sexp_eq(self@, other@)
    }
}

} // verus!
