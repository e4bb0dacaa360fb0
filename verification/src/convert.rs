//! Atoms and expressions from plain values.

use crate::sexp::{Primitive, PrimitiveView, SExp, SExpView};
use vstd::prelude::*;
use vstd::std_specs::convert::FromSpecImpl;

verus! {

impl<F> From<bool> for Primitive<F> {
    fn from(b: bool) -> (atom: Self) {
        Primitive::Boolean(b)
    }
}

impl<F> FromSpecImpl<bool> for Primitive<F> {
    open spec fn obeys_from_spec() -> bool {
        true
    }

    open spec fn from_spec(b: bool) -> Self {
        Primitive::Boolean(b)
    }
}

impl<F> From<char> for Primitive<F> {
    fn from(c: char) -> (atom: Self) {
        Primitive::Character(c)
    }
}

impl<F> FromSpecImpl<char> for Primitive<F> {
    open spec fn obeys_from_spec() -> bool {
        true
    }

    open spec fn from_spec(c: char) -> Self {
        Primitive::Character(c)
    }
}

impl<F> From<String> for Primitive<F> {
    fn from(s: String) -> (atom: Self) {
        Primitive::String(s)
    }
}

impl<F> FromSpecImpl<String> for Primitive<F> {
    open spec fn obeys_from_spec() -> bool {
        true
    }

    open spec fn from_spec(s: String) -> Self {
        Primitive::String(s)
    }
}

impl<'a, F> From<&'a str> for Primitive<F> {
    fn from(text: &'a str) -> (atom: Self)
        ensures
            atom@ == PrimitiveView::<F>::String(text@),
    {
        let atom: Primitive<F> = Primitive::String(text.to_owned());
        assert(atom@ == PrimitiveView::<F>::String(text@));
        atom
    }
}

impl<'a, F> FromSpecImpl<&'a str> for Primitive<F> {
    open spec fn obeys_from_spec() -> bool {
        false
    }

    open spec fn from_spec(text: &'a str) -> Self {
        Primitive::Undefined
    }
}

impl<F> From<Primitive<F>> for SExp<F> {
    fn from(atom: Primitive<F>) -> (exp: Self) {
        SExp::Atom(atom)
    }
}

impl<F> FromSpecImpl<Primitive<F>> for SExp<F> {
    open spec fn obeys_from_spec() -> bool {
        true
    }

    open spec fn from_spec(atom: Primitive<F>) -> Self {
        SExp::Atom(atom)
    }
}

impl<F> SExp<F> {
    /// The boolean atom.
    pub fn boolean(b: bool) -> (exp: Self)
        ensures
            exp == SExp::<F>::Atom(Primitive::Boolean(b)),
            exp@ == SExpView::<F>::Atom(PrimitiveView::Boolean(b)),
    {
        let atom: Primitive<F> = Primitive::Boolean(b);
        assert(atom@ == PrimitiveView::<F>::Boolean(b));
        SExp::Atom(atom)
    }

    /// The character atom.
    pub fn character(c: char) -> (exp: Self)
        ensures
            exp == SExp::<F>::Atom(Primitive::Character(c)),
            exp@ == SExpView::<F>::Atom(PrimitiveView::Character(c)),
    {
        let atom: Primitive<F> = Primitive::Character(c);
        assert(atom@ == PrimitiveView::<F>::Character(c));
        SExp::Atom(atom)
    }

    /// The number atom of the given double-precision encoding.
    pub fn number(bits: u64) -> (exp: Self)
        ensures
            exp == SExp::<F>::Atom(Primitive::Number(bits)),
            exp@ == SExpView::<F>::Atom(PrimitiveView::Number(bits)),
    {
        let atom: Primitive<F> = Primitive::Number(bits);
        assert(atom@ == PrimitiveView::<F>::Number(bits));
        SExp::Atom(atom)
    }

    /// The string atom of the given text.
    pub fn string(text: &str) -> (exp: Self)
        ensures
            exp@ == SExpView::<F>::Atom(PrimitiveView::String(text@)),
    {
        let atom: Primitive<F> = Primitive::String(text.to_owned());
        assert(atom@ == PrimitiveView::<F>::String(text@));
        SExp::Atom(atom)
    }

    /// The undefined placeholder.
    pub fn undefined() -> (exp: Self)
        ensures
            exp@ == SExpView::<F>::Atom(PrimitiveView::Undefined),
    {
        let atom: Primitive<F> = Primitive::Undefined;
        assert(atom@ == PrimitiveView::<F>::Undefined);
        SExp::Atom(atom)
    }
}

impl<F> From<bool> for SExp<F> {
    fn from(b: bool) -> (exp: Self)
        ensures
            exp@ == SExpView::<F>::Atom(PrimitiveView::Boolean(b)),
    {
        SExp::boolean(b)
    }
}

impl<F> FromSpecImpl<bool> for SExp<F> {
    open spec fn obeys_from_spec() -> bool {
        true
    }

    open spec fn from_spec(b: bool) -> Self {
        SExp::Atom(Primitive::Boolean(b))
    }
}

impl<F> From<char> for SExp<F> {
    fn from(c: char) -> (exp: Self)
        ensures
            exp@ == SExpView::<F>::Atom(PrimitiveView::Character(c)),
    {
        SExp::character(c)
    }
}

impl<F> FromSpecImpl<char> for SExp<F> {
    open spec fn obeys_from_spec() -> bool {
        true
    }

    open spec fn from_spec(c: char) -> Self {
        SExp::Atom(Primitive::Character(c))
    }
}

impl<'a, F> From<&'a str> for SExp<F> {
    fn from(text: &'a str) -> (exp: Self)
        ensures
            exp@ == SExpView::<F>::Atom(PrimitiveView::String(text@)),
    {
        SExp::string(text)
    }
}

impl<'a, F> FromSpecImpl<&'a str> for SExp<F> {
    open spec fn obeys_from_spec() -> bool {
        false
    }

    open spec fn from_spec(text: &'a str) -> Self {
        SExp::Null
    }
}

} // verus!
