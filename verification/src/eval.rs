//! Evaluation and application, and what they compute.
//!
//! The relations [`evals`] and [`applies`] say which outcomes an evaluation
//! and an application can have. They fix everything but what the code of
//! the host does: of that they say what [`Callable`] says.

use crate::context::{outcome, set_outcome, Context, ContextView, Outcome};
use crate::error::{Error, ErrorView};
use crate::forms::{
    bound, is_symbol_value, lambda_value, malformed, name_of, symbol_names, undefined,
};
use crate::list::{clip, elements, list_of, models};
use crate::procedure::{arity_check, Callable};
use crate::reader::{reads, token_views, Token};
use crate::sexp::{
    strings_view, Code, CodeView, Form, Func, FuncView, Lambda, LambdaView, Primitive,
    PrimitiveView, ProcView, SExp, SExpView,
};
use vstd::prelude::*;

verus! {

/// The outcome of evaluating a list of expressions one by one.
pub type Outcomes<F> = Result<Seq<SExpView<F>>, ErrorView>;

/// What a symbol evaluates to: what it resolves to, unless that is nothing
/// or the undefined placeholder.
pub open spec fn resolve<F>(ctx: ContextView<F>, name: Seq<char>) -> Outcome<F> {
    match ctx.get(name) {
        Some(SExpView::Atom(PrimitiveView::Undefined)) => Err(ErrorView::UndefinedSymbol { sym: name }),
        Some(value) => Ok(value),
        None => Err(ErrorView::UndefinedSymbol { sym: name }),
    }
}

/// The value is a procedure that is handed its arguments as they were written.
pub open spec fn is_ctx_procedure<F>(value: SExpView<F>) -> bool {
    value matches SExpView::Atom(PrimitiveView::Procedure(p)) && p.func is Ctx
}

/// Names an intermediate context and the outcome reached in it, for the
/// relations below: it holds of every two.
pub open spec fn reached<F>(mid: ContextView<F>, out: Outcome<F>) -> bool {
    true
}

/// Names an intermediate context and the outcomes reached in it, for the
/// relations below: it holds of every two.
pub open spec fn reached_each<F>(mid: ContextView<F>, out: Outcomes<F>) -> bool {
    true
}

/// The pair of a head and a tail.
pub open spec fn pair<F>(head: SExpView<F>, tail: SExpView<F>) -> SExpView<F> {
    SExpView::Pair { head: Box::new(head), tail: Box::new(tail) }
}

/// The value that a sequence of evaluations yields: the last of the
/// values, and the undefined placeholder where there is none.
pub open spec fn last_value<F>(values: Outcomes<F>) -> Outcome<F> {
    match values {
        Ok(found) => Ok(
            if found.len() == 0 {
                undefined()
            } else {
                found.last()
            },
        ),
        Err(e) => Err(e),
    }
}

/// The context after a call: the continuation node that was pushed for the
/// call is popped, and where none was pushed, none is popped.
pub open spec fn after_call<F>(proc: ProcView<F>, left: ContextView<F>) -> ContextView<F> {
    if proc.env is Some {
        left.pop_cont()
    } else {
        left
    }
}

/// Calling the code of `proc` on `args` in a context of value `pre` can leave
/// the context at `post` and yield `out`. Code that is handed evaluated
/// arguments does not see the context. Of the host's code this says what
/// the host says; of a special form and of a body with parameters, what
/// [`form_runs`] and [`lambda_runs`] say.
pub open spec fn dispatches<F: Callable>(
    depth: nat,
    proc: ProcView<F>,
    pre: ContextView<F>,
    args: SExpView<F>,
    post: ContextView<F>,
    out: Outcome<F>,
) -> bool
    decreases depth, 3nat, 0nat,
{
    match proc.func {
        FuncView::Pure(code) => post == pre && code.pure_spec(args, out),
        FuncView::Ctx(CodeView::Host(code)) => code.ctx_spec(pre, args, post, out),
        FuncView::Ctx(CodeView::Form(form)) => form_runs(depth, form, pre, args, post, out),
        FuncView::Ctx(CodeView::Lambda(lambda)) => lambda_runs(depth, lambda, pre, args, post, out),
    }
}

/// What a special form does with its arguments as they were written.
///
/// `quote` yields its argument as it stands. `define` with a name
/// evaluates the expression after it and defines the name as its value;
/// with a name and parameters in a list it defines the name as the
/// procedure of those parameters and the body after them. `set!` evaluates
/// the expression after the name and re-binds the name. `lambda` yields the
/// procedure of its parameters and body. `if` evaluates its test, and then
/// its third argument where the test yielded false and its second where it
/// yielded anything else; the other branch is not evaluated. `begin`
/// evaluates its arguments from left to right and yields the value of the
/// last. Arguments of another shape are a syntax error.
pub open spec fn form_runs<F: Callable>(
    depth: nat,
    form: Form,
    pre: ContextView<F>,
    args: SExpView<F>,
    post: ContextView<F>,
    out: Outcome<F>,
) -> bool
    decreases depth, 2nat, 0nat,
{
    let items = elements(args);
    match form {
        Form::Quote => post == pre && out == (if items.len() >= 1 {
            Outcome::<F>::Ok(items[0])
        } else {
            malformed(form)
        }),
        Form::Lambda => post == pre && out == (if items.len() >= 1 && symbol_names(
            elements(items[0]),
        ) is Some {
            Outcome::<F>::Ok(
                lambda_value(pre, symbol_names(elements(items[0]))->Some_0, items.skip(1), None),
            )
        } else {
            malformed(form)
        }),
        Form::Begin => exists|values: Outcomes<F>|
            {
                &&& #[trigger] reached_each(post, values)
                &&& evals_each(depth, pre, items, post, values)
                &&& out == last_value(values)
            },
        Form::If => {
            if items.len() < 3 {
                post == pre && out == malformed::<F>(form)
            } else {
                exists|mid: ContextView<F>, test: Outcome<F>|
                    {
                        &&& #[trigger] reached(mid, test)
                        &&& evals(depth, pre, items[0], mid, test)
                        &&& match test {
                            Err(e) => post == mid && out == Outcome::<F>::Err(e),
                            Ok(value) => evals(
                                depth,
                                mid,
                                if value == SExpView::<F>::Atom(PrimitiveView::Boolean(false)) {
                                    items[2]
                                } else {
                                    items[1]
                                },
                                post,
                                out,
                            ),
                        }
                    }
            }
        },
        Form::Assign => {
            if items.len() >= 2 && is_symbol_value(items[0]) {
                exists|mid: ContextView<F>, value: Outcome<F>|
                    {
                        &&& #[trigger] reached(mid, value)
                        &&& evals(depth, pre, items[1], mid, value)
                        &&& match value {
                            Err(e) => post == mid && out == Outcome::<F>::Err(e),
                            Ok(v) => post == mid.set(name_of(items[0]), v) && out == set_outcome(
                                mid,
                                name_of(items[0]),
                            ),
                        }
                    }
            } else {
                post == pre && out == malformed::<F>(form)
            }
        },
        Form::Define => {
            if items.len() >= 2 && is_symbol_value(items[0]) {
                exists|mid: ContextView<F>, value: Outcome<F>|
                    {
                        &&& #[trigger] reached(mid, value)
                        &&& evals(depth, pre, items[1], mid, value)
                        &&& match value {
                            Err(e) => post == mid && out == Outcome::<F>::Err(e),
                            Ok(v) => post == mid.define(name_of(items[0]), v) && out == Outcome::<
                                F,
                            >::Ok(undefined()),
                        }
                    }
            } else if items.len() >= 1 && items[0] is Pair && is_symbol_value(*items[0]->head)
                && symbol_names(elements(*items[0]->tail)) is Some {
                let name = name_of(*items[0]->head);
                let params = symbol_names(elements(*items[0]->tail))->Some_0;
                post == pre.define(name, lambda_value(pre, params, items.skip(1), Some(name)))
                    && out == Outcome::<F>::Ok(undefined())
            } else {
                post == pre && out == malformed::<F>(form)
            }
        },
    }
}

/// What a body with parameters does. The arguments are evaluated from left
/// to right. Then a scope is pushed, the parameters are defined in it as
/// the values of the arguments, the expressions of the body are evaluated
/// one after the other, and the scope is popped, whether the body failed
/// or not. The call yields the value of the last expression.
pub open spec fn lambda_runs<F: Callable>(
    depth: nat,
    lambda: LambdaView<F>,
    pre: ContextView<F>,
    args: SExpView<F>,
    post: ContextView<F>,
    out: Outcome<F>,
) -> bool
    decreases depth, 2nat, 0nat,
{
    exists|mid: ContextView<F>, values: Outcomes<F>|
        {
            &&& #[trigger] reached_each(mid, values)
            &&& evals_each(depth, pre, elements(args), mid, values)
            &&& match values {
                Err(e) => post == mid && out == Outcome::<F>::Err(e),
                Ok(found) => exists|inner: ContextView<F>, results: Outcomes<F>|
                    {
                        &&& #[trigger] reached_each(inner, results)
                        &&& evals_each(
                            depth,
                            bound(mid.push(), lambda.params, found),
                            lambda.body,
                            inner,
                            results,
                        )
                        &&& post == inner.pop()
                        &&& out == last_value(results)
                    },
            }
        }
}

/// Evaluating `expr` in a context of value `pre`, with applications nested
/// at most `depth` deep, can leave the context at `post` and yield `out`.
///
/// The empty list is an error. A symbol yields what it resolves to. Any
/// other atom, and a vector, yields itself. A pair is an application.
pub open spec fn evals<F: Callable>(
    depth: nat,
    pre: ContextView<F>,
    expr: SExpView<F>,
    post: ContextView<F>,
    out: Outcome<F>,
) -> bool
    decreases depth, 0nat, 0nat,
{
    match expr {
        SExpView::Null => post == pre && out == Outcome::<F>::Err(ErrorView::NullList),
        SExpView::Atom(PrimitiveView::Symbol(name)) => post == pre && out == resolve(pre, name),
        SExpView::Atom(_) => post == pre && out == Outcome::<F>::Ok(expr),
        SExpView::Vector(_) => post == pre && out == Outcome::<F>::Ok(expr),
        SExpView::Pair { head, tail } => {
            if depth == 0 {
                post == pre && out == Outcome::<F>::Err(ErrorView::DepthExceeded)
            } else {
                evals_pair((depth - 1) as nat, pre, *head, *tail, post, out)
            }
        },
    }
}

/// Evaluating the application of `head` to `tail`: the head is evaluated
/// first, to the operator; then come the operands.
pub open spec fn evals_pair<F: Callable>(
    depth: nat,
    pre: ContextView<F>,
    head: SExpView<F>,
    tail: SExpView<F>,
    post: ContextView<F>,
    out: Outcome<F>,
) -> bool
    decreases depth, 6nat, 0nat,
{
    exists|mid: ContextView<F>, operator: Outcome<F>|
        {
            &&& #[trigger] reached(mid, operator)
            &&& evals(depth, pre, head, mid, operator)
            &&& match operator {
                Err(e) => post == mid && out == Outcome::<F>::Err(e),
                Ok(op) => evals_operands(depth, mid, op, tail, post, out),
            }
        }
}

/// What follows the operator. A procedure that takes its arguments as they
/// were written is applied to the tail as it stands. For any other operator
/// the elements of the tail are evaluated from left to right, the first
/// failure ends the evaluation, and the operator is applied to the list of
/// the results.
pub open spec fn evals_operands<F: Callable>(
    depth: nat,
    pre: ContextView<F>,
    op: SExpView<F>,
    tail: SExpView<F>,
    post: ContextView<F>,
    out: Outcome<F>,
) -> bool
    decreases depth, 5nat, 0nat,
{
    if is_ctx_procedure(op) {
        applies(depth, pre, pair(op, tail), post, out)
    } else {
        exists|mid: ContextView<F>, args: Outcomes<F>|
            {
                &&& #[trigger] reached_each(mid, args)
                &&& evals_each(depth, pre, elements(tail), mid, args)
                &&& match args {
                    Err(e) => post == mid && out == Outcome::<F>::Err(e),
                    Ok(values) => applies(depth, mid, pair(op, list_of(values)), post, out),
                }
            }
    }
}

/// Evaluating `items` from left to right: every one up to the first that
/// fails, or all of them.
pub open spec fn evals_each<F: Callable>(
    depth: nat,
    pre: ContextView<F>,
    items: Seq<SExpView<F>>,
    post: ContextView<F>,
    out: Outcomes<F>,
) -> bool
    decreases depth, 1nat, items.len(),
{
    if items.len() == 0 {
        post == pre && out == Outcomes::<F>::Ok(Seq::empty())
    } else {
        exists|mid: ContextView<F>, front: Outcomes<F>|
            {
                &&& #[trigger] reached_each(mid, front)
                &&& evals_each(depth, pre, items.drop_last(), mid, front)
                &&& match front {
                    Err(e) => post == mid && out == Outcomes::<F>::Err(e),
                    Ok(values) => exists|last: Outcome<F>|
                        {
                            &&& #[trigger] reached(post, last)
                            &&& evals(depth, mid, items.last(), post, last)
                            &&& out == match last {
                                Ok(value) => Outcomes::<F>::Ok(values.push(value)),
                                Err(e) => Outcomes::<F>::Err(e),
                            }
                        },
                }
            }
    }
}

/// Applying the head of `list` to its tail.
///
/// What is not a pair is returned as it is. A procedure is checked against
/// the number of arguments, then called with a continuation node for its
/// captured bindings, and whatever the call yields, that node is popped
/// after it. For a procedure without captured bindings no node is pushed
/// and none is popped. A symbol in the place of the operator is an error. A
/// pair there is evaluated, and the list with its value for the operator is
/// evaluated again. A list with any other head is returned as it is.
pub open spec fn applies<F: Callable>(
    depth: nat,
    pre: ContextView<F>,
    list: SExpView<F>,
    post: ContextView<F>,
    out: Outcome<F>,
) -> bool
    decreases depth, 4nat, 0nat,
{
    match list {
        SExpView::Pair { head, tail } => match *head {
            SExpView::Atom(PrimitiveView::Procedure(proc)) => match arity_check(
                proc.arity,
                clip(elements(*tail).len()),
            ) {
                Err(e) => post == pre && out == Outcome::<F>::Err(e),
                Ok(_) => exists|left: ContextView<F>|
                    {
                        &&& #[trigger] reached(left, out)
                        &&& dispatches(depth, proc, pre.push_cont(proc.env), *tail, left, out)
                        &&& post == after_call(proc, left)
                    },
            },
            SExpView::Atom(PrimitiveView::Symbol(name)) => post == pre && out == Outcome::<F>::Err(
                ErrorView::NotAProcedure { exp: name },
            ),
            SExpView::Pair { .. } => exists|mid: ContextView<F>, operator: Outcome<F>|
                {
                    &&& #[trigger] reached(mid, operator)
                    &&& evals(depth, pre, *head, mid, operator)
                    &&& match operator {
                        Err(e) => post == mid && out == Outcome::<F>::Err(e),
                        Ok(op) => evals(depth, mid, pair(op, *tail), post, out),
                    }
                },
            _ => post == pre && out == Outcome::<F>::Ok(list),
        },
        _ => post == pre && out == Outcome::<F>::Ok(list),
    }
}

/// The value of the outcome of evaluating a list of expressions.
pub open spec fn outcomes<F>(result: Result<Vec<SExp<F>>, Error>) -> Outcomes<F> {
    match result {
        Ok(values) => Ok(models(values@)),
        Err(e) => Err(e@),
    }
}

/// Once an element has failed, the failure is the outcome of the whole list.
pub proof fn lemma_failure_ends_list<F: Callable>(
    depth: nat,
    pre: ContextView<F>,
    items: Seq<SExpView<F>>,
    upto: int,
    post: ContextView<F>,
    e: ErrorView,
)
    requires
        0 <= upto <= items.len(),
        evals_each(depth, pre, items.take(upto), post, Outcomes::<F>::Err(e)),
    ensures
        evals_each(depth, pre, items, post, Outcomes::<F>::Err(e)),
    decreases items.len() - upto,
{
    if upto == items.len() {
        assert(items.take(upto) =~= items);
    } else {
        let longer = items.take(upto + 1);
        assert(longer.drop_last() =~= items.take(upto));
        assert(reached_each(post, Outcomes::<F>::Err(e)));
        assert(evals_each(depth, pre, longer, post, Outcomes::<F>::Err(e)));
        lemma_failure_ends_list(depth, pre, items, upto + 1, post, e);
    }
}

impl<F> SExp<F> {
    /// Whether the value is the boolean false.
    pub fn is_false(&self) -> (no: bool)
        ensures
            no == (self@ == SExpView::<F>::Atom(PrimitiveView::Boolean(false))),
    {
        match self {
            SExp::Atom(atom) => {
                match atom {
                    Primitive::Boolean(b) => {
                        assert(atom@ == PrimitiveView::<F>::Boolean(*b));
                        !*b
                    },
                    _ => {
                        assert(!(atom@ is Boolean));
                        false
                    },
                }
            },
            _ => false,
        }
    }

    /// Whether the value is a procedure that is handed its arguments as they
    /// were written.
    pub fn is_ctx_procedure(&self) -> (ctx: bool)
        ensures
            ctx == is_ctx_procedure(self@),
    {
        match self {
            SExp::Atom(atom) => {
                match atom {
                    Primitive::Procedure(proc) => {
                        assert(atom@ == PrimitiveView::Procedure(proc@));
                        proc.is_ctx()
                    },
                    _ => {
                        assert(!(atom@ is Procedure));
                        false
                    },
                }
            },
            _ => false,
        }
    }
}

impl<F: Callable> Context<F> {
    /// Evaluates an expression in the context.
    ///
    /// The context keeps the definitions that the evaluation made. An
    /// application nested deeper than the context allows fails with
    /// [`Error::DepthExceeded`].
    pub fn eval(&mut self, expr: SExp<F>) -> (result: Result<SExp<F>, Error>)
        ensures
            final(self).depth() == old(self).depth(),
            evals(old(self).depth(), old(self)@, expr@, final(self)@, outcome(result)),
        decreases old(self).depth(), 0nat, 0nat,
    {
        match expr {
            SExp::Null => Err(Error::NullList),
            SExp::Atom(Primitive::Symbol(sym)) => {
                assert(expr@ == SExpView::<F>::Atom(PrimitiveView::Symbol(sym@))) by {
                    assert(Primitive::<F>::Symbol(sym)@ == PrimitiveView::<F>::Symbol(sym@));
                }
                match self.get(sym.as_str()) {
                    Some(SExp::Atom(Primitive::Undefined)) => {
                        assert(Primitive::<F>::Undefined@ == PrimitiveView::<F>::Undefined);
                        Err(Error::UndefinedSymbol { sym })
                    },
                    Some(exp) => {
                        proof {
                            if exp is Atom {
                                assert(!(exp->Atom_0@ is Undefined));
                            }
                        }
                        Ok(exp)
                    },
                    None => Err(Error::UndefinedSymbol { sym }),
                }
            },
            SExp::Atom(atom) => {
                assert(!(atom@ is Symbol));
                Ok(SExp::Atom(atom))
            },
            SExp::Vector(items) => Ok(SExp::Vector(items)),
            SExp::Pair { head, tail } => {
                let depth = self.remaining_depth();
                if depth == 0 {
                    return Err(Error::DepthExceeded);
                }
                self.set_depth(depth - 1);
                let result = self.eval_pair(*head, *tail);
                self.set_depth(depth);
                result
            },
        }
    }

    /// Reads a sequence of tokens and evaluates what they read as. Lists may
    /// nest in the text as deep as applications may nest in the context.
    /// Where the tokens cannot be read, nothing is evaluated.
    pub fn run(&mut self, tokens: &Vec<Token>) -> (result: Result<SExp<F>, Error>)
        ensures
            final(self).depth() == old(self).depth(),
            match reads::<F>(token_views(tokens@), old(self).depth()) {
                Ok(expr) => evals(old(self).depth(), old(self)@, expr, final(self)@, outcome(result)),
                Err(e) => final(self)@ == old(self)@ && outcome(result) == Outcome::<F>::Err(e),
            },
    {
        match SExp::read(tokens, self.remaining_depth()) {
            Ok(expr) => self.eval(expr),
            Err(e) => Err(e),
        }
    }

    /// Evaluates the application of `head` to `tail`.
    fn eval_pair(&mut self, head: SExp<F>, tail: SExp<F>) -> (result: Result<SExp<F>, Error>)
        ensures
            final(self).depth() == old(self).depth(),
            evals_pair(old(self).depth(), old(self)@, head@, tail@, final(self)@, outcome(result)),
        decreases old(self).depth(), 6nat, 0nat,
    {
        let ghost depth = self.depth();
        let ghost pre = self@;
        let operator = self.eval(head);
        let ghost mid = self@;
        assert(reached(mid, outcome(operator)));
        let op = match operator {
            Ok(op) => op,
            Err(e) => {
                return Err(e);
            },
        };
        if op.is_ctx_procedure() {
            self.apply(tail.cons(op))
        } else {
            let evaluated = self.eval_each(tail);
            let ghost mid2 = self@;
            assert(reached_each(mid2, outcomes(evaluated)));
            match evaluated {
                Ok(values) => {
                    let args = SExp::list(values);
                    self.apply(args.cons(op))
                },
                Err(e) => Err(e),
            }
        }
    }

    /// Evaluates the elements of a list from left to right, up to the first
    /// that fails.
    pub fn eval_each(&mut self, list: SExp<F>) -> (result: Result<Vec<SExp<F>>, Error>)
        ensures
            final(self).depth() == old(self).depth(),
            evals_each(old(self).depth(), old(self)@, elements(list@), final(self)@, outcomes(result)),
        decreases old(self).depth(), 1nat, 0nat,
    {
        let ghost depth = self.depth();
        let ghost pre = self@;
        let ghost items = elements(list@);
        let mut values: Vec<SExp<F>> = Vec::new();
        let mut rest = list;
        proof {
            assert(items.take(0) =~= Seq::empty());
            assert(models(values@) =~= Seq::empty());
            assert(items.skip(0) =~= items);
        }
        loop
            invariant
                self.depth() == depth,
                depth == old(self).depth(),
                pre == old(self)@,
                items == elements(list@),
                values@.len() <= items.len(),
                elements(rest@) == items.skip(values@.len() as int),
                evals_each(
                    depth,
                    pre,
                    items.take(values@.len() as int),
                    self@,
                    Outcomes::<F>::Ok(models(values@)),
                ),
            ensures
                self.depth() == depth,
                evals_each(depth, pre, items, self@, Outcomes::<F>::Ok(models(values@))),
            decreases elements(rest@).len(),
        {
            match rest {
                SExp::Pair { head, tail } => {
                    let ghost done = values@.len() as int;
                    let ghost before = self@;
                    let ghost earlier = models(values@);
                    proof {
                        let whole = seq![head@] + elements(tail@);
                        assert(whole == items.skip(done));
                        assert(whole[0] == head@);
                        assert(whole.skip(1) =~= elements(tail@));
                        assert(items.skip(done).skip(1) =~= items.skip(done + 1));
                        assert(items.skip(done)[0] == head@);
                        assert(items.skip(done + 1) =~= elements(tail@));
                        assert(items.take(done + 1).drop_last() =~= items.take(done));
                        assert(items.take(done + 1).last() == head@);
                    }
                    let one = self.eval(*head);
                    assert(reached(self@, outcome(one)));
                    match one {
                        Ok(value) => {
                            values.push(value);
                            proof {
                                assert(models(values@) =~= earlier.push(value@));
                                assert(reached_each(before, Outcomes::<F>::Ok(earlier)));
                            }
                            rest = *tail;
                        },
                        Err(e) => {
                            proof {
                                assert(reached_each(before, Outcomes::<F>::Ok(earlier)));
                                assert(evals_each(
                                    depth,
                                    pre,
                                    items.take(done + 1),
                                    self@,
                                    Outcomes::<F>::Err(e@),
                                ));
                                lemma_failure_ends_list(depth, pre, items, done + 1, self@, e@);
                            }
                            return Err(e);
                        },
                    }
                },
                _ => {
                    proof {
                        assert(elements(rest@).len() == 0);
                        assert(items.take(values@.len() as int) =~= items);
                    }
                    break ;
                },
            }
        }
        Ok(values)
    }

    /// Evaluates copies of the given expressions from left to right, up to
    /// the first that fails.
    pub fn eval_all(&mut self, exprs: &Vec<SExp<F>>) -> (result: Result<Vec<SExp<F>>, Error>)
        ensures
            final(self).depth() == old(self).depth(),
            evals_each(old(self).depth(), old(self)@, models(exprs@), final(self)@, outcomes(result)),
        decreases old(self).depth(), 1nat, 0nat,
    {
        let ghost depth = self.depth();
        let ghost pre = self@;
        let ghost items = models(exprs@);
        let mut values: Vec<SExp<F>> = Vec::new();
        let mut i: usize = 0;
        proof {
            assert(items.take(0) =~= Seq::empty());
            assert(models(values@) =~= Seq::empty());
        }
        while i < exprs.len()
            invariant
                self.depth() == depth,
                depth == old(self).depth(),
                pre == old(self)@,
                items == models(exprs@),
                i <= exprs@.len(),
                values@.len() == i,
                evals_each(depth, pre, items.take(i as int), self@, Outcomes::<F>::Ok(models(values@))),
            decreases exprs@.len() - i,
        {
            let ghost before = self@;
            let ghost earlier = models(values@);
            proof {
                assert(items.take(i + 1).drop_last() =~= items.take(i as int));
                assert(items.take(i + 1).last() == exprs@[i as int]@);
            }
            let one = self.eval(exprs[i].duplicate());
            assert(reached(self@, outcome(one)));
            assert(reached_each(before, Outcomes::<F>::Ok(earlier)));
            match one {
                Ok(value) => {
                    values.push(value);
                    proof {
                        assert(models(values@) =~= earlier.push(value@));
                    }
                },
                Err(e) => {
                    proof {
                        assert(evals_each(depth, pre, items.take(i + 1), self@, Outcomes::<F>::Err(e@)));
                        lemma_failure_ends_list(depth, pre, items, i + 1, self@, e@);
                    }
                    return Err(e);
                },
            }
            i += 1;
        }
        proof {
            assert(items.take(i as int) =~= items);
        }
        Ok(values)
    }

    /// Calls a body with parameters on arguments as they were written.
    pub fn run_lambda(&mut self, lambda: &Lambda<F>, args: SExp<F>) -> (result: Result<
        SExp<F>,
        Error,
    >)
        ensures
            final(self).depth() == old(self).depth(),
            lambda_runs(old(self).depth(), lambda@, old(self)@, args@, final(self)@, outcome(result)),
        decreases old(self).depth(), 2nat, 0nat,
    {
        let ghost body = models(lambda.body@);
        proof {
            assert(lambda@.body =~= body);
        }
        let values = self.eval_each(args);
        assert(reached_each(self@, outcomes(values)));
        match values {
            Err(e) => Err(e),
            Ok(found) => {
                self.push();
                self.bind(&lambda.params, &found);
                let results = self.eval_all(&lambda.body);
                assert(reached_each(self@, outcomes(results)));
                self.pop();
                Self::last_of(results)
            },
        }
    }

    /// The last of the values of a sequence of evaluations, or the
    /// undefined placeholder where there is none.
    fn last_of(values: Result<Vec<SExp<F>>, Error>) -> (result: Result<SExp<F>, Error>)
        ensures
            outcome(result) == last_value(outcomes(values)),
    {
        match values {
            Ok(found) => {
                let mut found = found;
                match found.pop() {
                    Some(last) => Ok(last),
                    None => Ok(SExp::undefined()),
                }
            },
            Err(e) => Err(e),
        }
    }

    /// The error of a special form whose arguments do not have its shape.
    fn malformed(form: Form) -> (result: Result<SExp<F>, Error>)
        ensures
            outcome(result) == malformed::<F>(form),
    {
        Err(Error::Syntax { exp: form.name().to_owned() })
    }

    /// Runs a special form on arguments as they were written.
    pub fn run_form(&mut self, form: Form, args: SExp<F>) -> (result: Result<SExp<F>, Error>)
        ensures
            final(self).depth() == old(self).depth(),
            form_runs(old(self).depth(), form, old(self)@, args@, final(self)@, outcome(result)),
        decreases old(self).depth(), 2nat, 0nat,
    {
        let ghost pre = self@;
        let ghost all = elements(args@);
        match form {
            Form::Begin => {
                let values = self.eval_each(args);
                assert(reached_each(self@, outcomes(values)));
                Self::last_of(values)
            },
            Form::Quote => {
                let mut items = args.into_vec();
                if items.len() >= 1 {
                    Ok(items.remove(0))
                } else {
                    Self::malformed(form)
                }
            },
            Form::Lambda => {
                let mut items = args.into_vec();
                if items.len() < 1 {
                    return Self::malformed(form);
                }
                let params = items.remove(0).into_vec();
                proof {
                    assert(models(items@) =~= all.skip(1));
                }
                match SExp::symbol_names(&params) {
                    Some(names) => Ok(self.lambda(names, items, None)),
                    None => Self::malformed(form),
                }
            },
            Form::If => {
                let mut items = args.into_vec();
                if items.len() < 3 {
                    return Self::malformed(form);
                }
                let otherwise = items.remove(2);
                let then = items.remove(1);
                let test = self.eval(items.remove(0));
                assert(reached(self@, outcome(test)));
                match test {
                    Err(e) => Err(e),
                    Ok(value) => {
                        if value.is_false() {
                            self.eval(otherwise)
                        } else {
                            self.eval(then)
                        }
                    },
                }
            },
            Form::Assign => {
                let mut items = args.into_vec();
                if items.len() < 2 {
                    return Self::malformed(form);
                }
                let exp = items.remove(1);
                match items.remove(0) {
                    SExp::Atom(Primitive::Symbol(name)) => {
                        assert(all[0] == SExpView::<F>::Atom(PrimitiveView::Symbol(name@))) by {
                            assert(Primitive::<F>::Symbol(name)@ == PrimitiveView::<F>::Symbol(name@));
                        }
                        let value = self.eval(exp);
                        assert(reached(self@, outcome(value)));
                        match value {
                            Ok(v) => self.set(name.as_str(), v),
                            Err(e) => Err(e),
                        }
                    },
                    other => {
                        proof {
                            if other is Atom {
                                assert(!(other->Atom_0@ is Symbol));
                            }
                        }
                        Self::malformed(form)
                    },
                }
            },
            Form::Define => {
                let mut items = args.into_vec();
                if items.len() < 1 {
                    return Self::malformed(form);
                }
                let target = items.remove(0);
                proof {
                    assert(models(items@) =~= all.skip(1));
                }
                match target {
                    SExp::Atom(Primitive::Symbol(name)) => {
                        assert(all[0] == SExpView::<F>::Atom(PrimitiveView::Symbol(name@))) by {
                            assert(Primitive::<F>::Symbol(name)@ == PrimitiveView::<F>::Symbol(name@));
                        }
                        if items.len() < 1 {
                            return Self::malformed(form);
                        }
                        let value = self.eval(items.remove(0));
                        assert(reached(self@, outcome(value)));
                        match value {
                            Ok(v) => {
                                self.define(name.as_str(), v);
                                Ok(SExp::undefined())
                            },
                            Err(e) => Err(e),
                        }
                    },
                    SExp::Pair { head, tail } => {
                        assert(all[0] == (SExpView::Pair {
                            head: Box::new(head@),
                            tail: Box::new(tail@),
                        }));
                        let params = tail.into_vec();
                        match *head {
                            SExp::Atom(Primitive::Symbol(name)) => {
                                assert(*all[0]->head == SExpView::<F>::Atom(
                                    PrimitiveView::Symbol(name@),
                                )) by {
                                    assert(Primitive::<F>::Symbol(name)@ == PrimitiveView::<
                                        F,
                                    >::Symbol(name@));
                                }
                                match SExp::symbol_names(&params) {
                                    Some(names) => {
                                        let value = self.lambda(names, items, Some(name.clone()));
                                        self.define(name.as_str(), value);
                                        Ok(SExp::undefined())
                                    },
                                    None => Self::malformed(form),
                                }
                            },
                            other => {
                                proof {
                                    if other is Atom {
                                        assert(!(other->Atom_0@ is Symbol));
                                    }
                                }
                                Self::malformed(form)
                            },
                        }
                    },
                    other => {
                        proof {
                            if other is Atom {
                                assert(!(other->Atom_0@ is Symbol));
                            }
                        }
                        Self::malformed(form)
                    },
                }
            },
        }
    }

    /// Applies the head of a list to its tail.
    pub fn apply(&mut self, list: SExp<F>) -> (result: Result<SExp<F>, Error>)
        ensures
            final(self).depth() == old(self).depth(),
            applies(old(self).depth(), old(self)@, list@, final(self)@, outcome(result)),
        decreases old(self).depth(), 4nat, 0nat,
    {
        let ghost pre = self@;
        match list {
            SExp::Pair { head, tail } => match *head {
                SExp::Atom(Primitive::Procedure(proc)) => {
                    assert(head@ == SExpView::Atom(PrimitiveView::Procedure(proc@))) by {
                        assert(Primitive::Procedure(proc)@ == PrimitiveView::Procedure(proc@));
                    }
                    match proc.check_arity(tail.len()) {
                        Err(e) => Err(e),
                        Ok(_) => {
                            let depth = self.remaining_depth();
                            let ghost called = proc@;
                            let pushed = proc.env.is_some();
                            self.push_cont(proc.env);
                            let ghost entered = self@;
                            assert(entered == pre.push_cont(called.env));
                            let result = match proc.func {
                                Func::Pure(code) => {
                                    assert(called.func == FuncView::Pure(code));
                                    code.call_pure(*tail)
                                },
                                Func::Ctx(inner) => {
                                    assert(called.func == FuncView::Ctx(inner@));
                                    match inner {
                                        Code::Host(code) => code.call_ctx(self, *tail),
                                        Code::Form(form) => self.run_form(form, *tail),
                                        Code::Lambda(lambda) => self.run_lambda(&*lambda, *tail),
                                    }
                                },
                            };
                            let ghost left = self@;
                            assert(reached(left, outcome(result)));
                            assert(dispatches(depth as nat, called, entered, tail@, left, outcome(result)));
                            if pushed {
                                self.pop_cont();
                            }
                            self.set_depth(depth);
                            result
                        },
                    }
                },
                SExp::Atom(Primitive::Symbol(name)) => {
                    assert(head@ == SExpView::<F>::Atom(PrimitiveView::Symbol(name@))) by {
                        assert(Primitive::<F>::Symbol(name)@ == PrimitiveView::<F>::Symbol(name@));
                    }
                    Err(Error::NotAProcedure { exp: name })
                },
                SExp::Pair { head: inner_head, tail: inner_tail } => {
                    let inner = SExp::Pair { head: inner_head, tail: inner_tail };
                    let operator = self.eval(inner);
                    let ghost mid = self@;
                    assert(reached(mid, outcome(operator)));
                    match operator {
                        Ok(op) => self.eval(tail.cons(op)),
                        Err(e) => Err(e),
                    }
                },
                SExp::Atom(atom) => {
                    assert(!(atom@ is Symbol) && !(atom@ is Procedure));
                    Ok(tail.cons(SExp::Atom(atom)))
                },
                other => Ok(tail.cons(other)),
            },
            other => Ok(other),
        }
    }
}

impl<F: Callable> SExp<F> {
    /// Evaluates the expression in a context.
    pub fn eval(self, ctx: &mut Context<F>) -> (result: Result<SExp<F>, Error>)
        ensures
            final(ctx).depth() == old(ctx).depth(),
            evals(old(ctx).depth(), old(ctx)@, self@, final(ctx)@, outcome(result)),
    {
        ctx.eval(self)
    }

    /// Applies the head of the list to its tail in a context.
    pub fn apply(self, ctx: &mut Context<F>) -> (result: Result<SExp<F>, Error>)
        ensures
            final(ctx).depth() == old(ctx).depth(),
            applies(old(ctx).depth(), old(ctx)@, self@, final(ctx)@, outcome(result)),
    {
        ctx.apply(self)
    }
}

/// Runs a sequence of tokens in the given context, which is used up: reads
/// them and evaluates what they read as.
pub fn run<F: Callable>(ctx: Context<F>, tokens: &Vec<Token>) -> (result: Result<SExp<F>, Error>)
    ensures
        match reads::<F>(token_views(tokens@), ctx.depth()) {
            Ok(expr) => exists|post: ContextView<F>|
                #[trigger] evals(ctx.depth(), ctx@, expr, post, outcome(result)),
            Err(e) => outcome(result) == Outcome::<F>::Err(e),
        },
{
    let mut ctx = ctx;
    ctx.run(tokens)
}

} // verus!
