//! Copies of expressions.
//!
//! A copy has the same value as what it was made from. The code of a
//! procedure and the bindings that it captured are not copied: the copy
//! points to the same.

use crate::env::distinct_names;
use crate::sexp::{entries_view, Code, Env, Func, Primitive, Proc, SExp};
use std::rc::Rc;
use vstd::prelude::*;

verus! {

/// `Rc::clone` of the standard library: a second pointer to the same
/// allocation. The contract says that both point to the same value.
#[verifier::external_body]
fn share<T>(pointer: &Rc<T>) -> (shared: Rc<T>)
    ensures
        shared == *pointer,
{
    Rc::clone(pointer)
}

impl<F> Code<F> {
    /// The same code.
    pub fn duplicate(&self) -> (copy: Self)
        ensures
            copy == *self,
    {
        match self {
            Code::Host(code) => Code::Host(share(code)),
            Code::Form(form) => Code::Form(*form),
            Code::Lambda(lambda) => Code::Lambda(share(lambda)),
        }
    }
}

impl<F> Func<F> {
    /// The same code, called the same way.
    pub fn duplicate(&self) -> (copy: Self)
        ensures
            copy == *self,
    {
        match self {
            Func::Pure(code) => Func::Pure(share(code)),
            Func::Ctx(code) => Func::Ctx(code.duplicate()),
        }
    }
}

impl<F> Env<F> {
    /// A scope with the same bindings.
    pub fn duplicate(&self) -> (copy: Self)
        ensures
            copy@ == self@,
        decreases self, 1int,
    {
        proof {
            use_type_invariant(self);
        }
        let mut entries: Vec<(String, SExp<F>)> = Vec::new();
        let mut i: usize = 0;
        while i < self.entries.len()
            invariant
                i <= self.entries@.len(),
                entries@.len() == i,
                distinct_names(self.entries@),
                forall|j: int| 0 <= j < i ==> (#[trigger] entries@[j]).0@ == self.entries@[j].0@,
                entries_view(entries@) == entries_view(self.entries@.take(i as int)),
            decreases self.entries@.len() - i,
        {
            let name = self.entries[i].0.clone();
            let value = self.entries[i].1.duplicate();
            proof {
                let before = self.entries@.take(i as int);
                let after = self.entries@.take(i + 1);
                assert(after.drop_last() =~= before);
                assert(after.last() == self.entries@[i as int]);
                assert(entries@.push((name, value)).drop_last() =~= entries@);
            }
            entries.push((name, value));
            i += 1;
        }
        proof {
            assert(self.entries@.take(i as int) =~= self.entries@);
        }
        Env { entries }
    }
}

impl<F> Proc<F> {
    /// A procedure with the same code, name, captured bindings and arity.
    pub fn duplicate(&self) -> (copy: Self)
        ensures
            copy@ == self@,
        decreases self, 2int,
    {
        Proc {
            func: self.func.duplicate(),
            name: match &self.name {
                Some(n) => Some(n.clone()),
                None => None,
            },
            env: match &self.env {
                Some(e) => Some(share(e)),
                None => None,
            },
            arity: self.arity,
        }
    }
}

impl<F> Primitive<F> {
    /// An atom of the same value.
    pub fn duplicate(&self) -> (copy: Self)
        ensures
            copy@ == self@,
        decreases self, 3int,
    {
        match self {
            Primitive::Undefined => Primitive::Undefined,
            Primitive::Boolean(b) => Primitive::Boolean(*b),
            Primitive::Character(c) => Primitive::Character(*c),
            Primitive::Number(n) => Primitive::Number(*n),
            Primitive::String(s) => Primitive::String(s.clone()),
            Primitive::Symbol(s) => Primitive::Symbol(s.clone()),
            Primitive::Procedure(p) => Primitive::Procedure(p.duplicate()),
        }
    }
}

impl<F> SExp<F> {
    /// An expression of the same value.
    pub fn duplicate(&self) -> (copy: Self)
        ensures
            copy@ == self@,
        decreases self, 4int,
    {
        match self {
            SExp::Null => SExp::Null,
            SExp::Atom(a) => SExp::Atom(a.duplicate()),
            SExp::Pair { head, tail } => SExp::Pair {
                head: Box::new(head.duplicate()),
                tail: Box::new(tail.duplicate()),
            },
            SExp::Vector(items) => {
                let mut copies: Vec<SExp<F>> = Vec::new();
                let mut i: usize = 0;
                while i < items.len()
                    invariant
                        self is Vector,
                        self->Vector_0 == *items,
                        i <= items@.len(),
                        copies@.len() == i,
                        forall|j: int| 0 <= j < i ==> (#[trigger] copies@[j])@ == items@[j]@,
                    decreases items@.len() - i,
                {
                    copies.push(items[i].duplicate());
                    i += 1;
                }
                let copy = SExp::Vector(copies);
                proof {
                    assert(copy@->Vector_0 =~= self@->Vector_0);
                }
                copy
            },
        }
    }
}

impl<F> Clone for Func<F> {
    fn clone(&self) -> (copy: Self)
        ensures
            copy == *self,
    {
        self.duplicate()
    }
}

impl<F> Clone for Env<F> {
    fn clone(&self) -> (copy: Self)
        ensures
            copy@ == self@,
    {
        self.duplicate()
    }
}

impl<F> Clone for Proc<F> {
    fn clone(&self) -> (copy: Self)
        ensures
            copy@ == self@,
    {
        self.duplicate()
    }
}

impl<F> Clone for Primitive<F> {
    fn clone(&self) -> (copy: Self)
        ensures
            copy@ == self@,
    {
        self.duplicate()
    }
}

impl<F> Clone for SExp<F> {
    fn clone(&self) -> (copy: Self)
        ensures
            copy@ == self@,
    {
        self.duplicate()
    }
}

} // verus!
