//! Lists: chains of pairs.

use crate::sexp::{Primitive, PrimitiveView, SExp, SExpView};
use vstd::prelude::*;

verus! {

/// The elements of a list: the heads along the chain of pairs. What ends the
/// chain is not an element, whether it is the empty list or not.
pub open spec fn elements<F>(list: SExpView<F>) -> Seq<SExpView<F>>
    decreases list,
{
    match list {
        SExpView::Pair { head, tail } => seq![*head] + elements(*tail),
        _ => Seq::empty(),
    }
}

/// The proper list of the given elements.
pub open spec fn list_of<F>(items: Seq<SExpView<F>>) -> SExpView<F>
    decreases items.len(),
{
    if items.len() == 0 {
        SExpView::Null
    } else {
        SExpView::Pair { head: Box::new(items[0]), tail: Box::new(list_of(items.drop_first())) }
    }
}

/// The list is a chain of pairs that ends in the empty list.
pub open spec fn is_list<F>(list: SExpView<F>) -> bool
    decreases list,
{
    match list {
        SExpView::Null => true,
        SExpView::Pair { head, tail } => is_list(*tail),
        _ => false,
    }
}

/// A count, cut off at the largest machine integer.
pub open spec fn clip(count: nat) -> usize {
    if count > usize::MAX {
        usize::MAX
    } else {
        count as usize
    }
}

/// The values of a sequence of expressions, one by one.
pub open spec fn models<F>(items: Seq<SExp<F>>) -> Seq<SExpView<F>> {
    Seq::new(items.len(), |i: int| items[i]@)
}

/// The elements of the proper list of some items are those items.
pub proof fn lemma_elements_of_list<F>(items: Seq<SExpView<F>>)
    ensures
        elements(list_of(items)) == items,
        is_list(list_of(items)),
    decreases items.len(),
{
    if items.len() > 0 {
        lemma_elements_of_list(items.drop_first());
        assert(seq![items[0]] + items.drop_first() =~= items);
    } else {
        assert(elements(list_of(items)) =~= items);
    }
}

/// A chain that ends in the empty list is the proper list of its elements.
pub proof fn lemma_list_of_elements<F>(list: SExpView<F>)
    requires
        is_list(list),
    ensures
        list_of(elements(list)) == list,
    decreases list,
{
    match list {
        SExpView::Pair { head, tail } => {
            lemma_list_of_elements(*tail);
            let items = elements(list);
            assert(items.drop_first() =~= elements(*tail));
        },
        _ => {},
    }
}

/// A proper list that starts one element earlier is a pair of that element
/// and the shorter list.
pub proof fn lemma_list_of_suffix<F>(items: Seq<SExpView<F>>, from: int)
    requires
        0 <= from < items.len(),
    ensures
        list_of(items.subrange(from, items.len() as int)) == (SExpView::Pair {
            head: Box::new(items[from]),
            tail: Box::new(list_of(items.subrange(from + 1, items.len() as int))),
        }),
{
    let suffix = items.subrange(from, items.len() as int);
    assert(suffix.drop_first() =~= items.subrange(from + 1, items.len() as int));
}

impl<F> SExp<F> {
    /// The symbol of the given name.
    pub fn sym(name: &str) -> (exp: Self)
        ensures
            exp@ == SExpView::<F>::Atom(PrimitiveView::Symbol(name@)),
    {
        let atom: Primitive<F> = Primitive::Symbol(name.to_owned());
        assert(atom@ == PrimitiveView::<F>::Symbol(name@));
        SExp::Atom(atom)
    }

    /// The pair of `head` and this expression: where this is a list, the list
    /// with `head` in front.
    pub fn cons(self, head: Self) -> (pair: Self)
        ensures
            pair@ == (SExpView::Pair { head: Box::new(head@), tail: Box::new(self@) }),
            elements(pair@) == seq![head@] + elements(self@),
    {
        SExp::Pair { head: Box::new(head), tail: Box::new(self) }
    }

    /// The head and the tail of a pair; nothing for what is not a pair.
    pub fn split(self) -> (parts: Option<(Self, Self)>)
        ensures
            match parts {
                Some((head, tail)) => self@ == (SExpView::Pair {
                    head: Box::new(head@),
                    tail: Box::new(tail@),
                }),
                None => !(self@ is Pair),
            },
    {
        match self {
            SExp::Pair { head, tail } => Some((*head, *tail)),
            _ => None,
        }
    }

    /// The head of a pair.
    pub fn car(&self) -> (head: Option<&Self>)
        ensures
            match head {
                Some(h) => self@ is Pair && h@ == *self@->head,
                None => !(self@ is Pair),
            },
    {
        match self {
            SExp::Pair { head, tail } => Some(&**head),
            _ => None,
        }
    }

    /// The tail of a pair.
    pub fn cdr(&self) -> (tail: Option<&Self>)
        ensures
            match tail {
                Some(t) => self@ is Pair && t@ == *self@->tail,
                None => !(self@ is Pair),
            },
    {
        match self {
            SExp::Pair { head, tail } => Some(&**tail),
            _ => None,
        }
    }

    /// Whether the expression is a chain of pairs that ends in the empty
    /// list.
    pub fn is_list(&self) -> (proper: bool)
        ensures
            proper == is_list(self@),
    {
        let mut rest: &SExp<F> = self;
        loop
            invariant
                is_list(self@) == is_list(rest@),
            decreases rest,
        {
            match rest {
                SExp::Pair { head, tail } => {
                    rest = &**tail;
                },
                SExp::Null => {
                    return true;
                },
                _ => {
                    return false;
                },
            }
        }
    }

    /// The elements of the list, in their order.
    pub fn into_vec(self) -> (items: Vec<Self>)
        ensures
            models(items@) == elements(self@),
    {
        let mut items: Vec<SExp<F>> = Vec::new();
        let mut rest = self;
        proof {
            assert(models(items@) + elements(rest@) =~= elements(self@));
        }
        loop
            invariant
                models(items@) + elements(rest@) == elements(self@),
            ensures
                models(items@) == elements(self@),
            decreases elements(rest@).len(),
        {
            match rest {
                SExp::Pair { head, tail } => {
                    proof {
                        assert(models(items@.push(*head)) + elements(tail@) =~= models(items@)
                            + elements(rest@));
                    }
                    items.push(*head);
                    rest = *tail;
                },
                _ => {
                    proof {
                        assert(models(items@) + elements(rest@) =~= models(items@));
                    }
                    break ;
                },
            }
        }
        items
    }

    /// The number of elements of the list, cut off at the largest machine
    /// integer. An expression that is not a pair has none.
    pub fn len(&self) -> (count: usize)
        ensures
            count == clip(elements(self@).len()),
    {
        let mut count: usize = 0;
        let mut rest: &SExp<F> = self;
        let ghost mut seen: Seq<SExpView<F>> = Seq::empty();
        loop
            invariant
                elements(self@) == seen + elements(rest@),
                count == clip(seen.len()),
            decreases rest,
        {
            match rest {
                SExp::Pair { head, tail } => {
                    proof {
                        assert(seen + elements(rest@) =~= seen.push(head@) + elements(tail@));
                        seen = seen.push(head@);
                    }
                    if count < usize::MAX {
                        count += 1;
                    }
                    rest = &**tail;
                },
                _ => {
                    proof {
                        assert(seen + elements(rest@) =~= seen);
                    }
                    return count;
                },
            }
        }
    }

    /// The proper list of the given expressions, in their order.
    pub fn list(items: Vec<Self>) -> (exp: Self)
        ensures
            exp@ == list_of(models(items@)),
    {
        let ghost all = models(items@);
        let mut items = items;
        let mut exp: SExp<F> = SExp::Null;
        proof {
            assert(all.subrange(all.len() as int, all.len() as int) =~= Seq::empty());
        }
        while items.len() > 0
            invariant
                items@.len() <= all.len(),
                models(items@) == all.take(items@.len() as int),
                exp@ == list_of(all.subrange(items@.len() as int, all.len() as int)),
            decreases items@.len(),
        {
            let ghost before = items@;
            let last = items.pop().unwrap();
            proof {
                let at = items@.len() as int;
                assert(models(before)[at] == last@);
                assert(all[at] == last@);
                lemma_list_of_suffix(all, at);
                assert(models(items@) =~= all.take(at));
            }
            exp = exp.cons(last);
        }
        proof {
            assert(all.subrange(0, all.len() as int) =~= all);
        }
        exp
    }
}

} // verus!
