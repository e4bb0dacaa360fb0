//! Procedures: their arity and the way a host supplies their code.

use crate::context::{outcome, Context, ContextView, Outcome};
use crate::error::{Error, ErrorView};
use crate::sexp::{Arity, Env, Func, Proc, SExp, SExpView};
use std::rc::Rc;
use vstd::prelude::*;

verus! {

/// The code of the host's procedures.
///
/// A host implements this for the type that holds the code of its
/// procedures. The evaluator calls `call_pure` for a procedure that was
/// tagged [`Func::Pure`] and `call_ctx` for one that was tagged
/// [`Func::Ctx`] and holds code of the host. The special forms, and the
/// procedures that `lambda` and `define` make, are the library's own code.
///
/// `pure_spec` and `ctx_spec` say what a call may return. A host that has
/// nothing to say leaves them as they are: then every outcome is possible.
pub trait Callable: Sized {
    /// `out` is a possible outcome of `call_pure` on `args`.
    open spec fn pure_spec(&self, args: SExpView<Self>, out: Outcome<Self>) -> bool {
        true
    }

    /// `out` is a possible outcome of `call_ctx` on `args` in a context of
    /// value `pre`, and `post` a possible value of the context after it.
    open spec fn ctx_spec(
        &self,
        pre: ContextView<Self>,
        args: SExpView<Self>,
        post: ContextView<Self>,
        out: Outcome<Self>,
    ) -> bool {
        true
    }

    /// Runs the code on arguments that have been evaluated.
    fn call_pure(&self, args: SExp<Self>) -> (result: Result<SExp<Self>, Error>)
        ensures
            self.pure_spec(args@, outcome(result)),
    ;

    /// Runs the code on arguments as they were written. The code may
    /// evaluate them, or parts of them, in `ctx`, and may change `ctx`.
    fn call_ctx(&self, ctx: &mut Context<Self>, args: SExp<Self>) -> (result: Result<
        SExp<Self>,
        Error,
    >)
        ensures
            self.ctx_spec(old(ctx)@, args@, final(ctx)@, outcome(result)),
    ;
}

/// The arity accepts a call with `given` arguments.
pub open spec fn arity_accepts(arity: Arity, given: usize) -> bool {
    match arity {
        Arity::Exact(n) => given == n,
        Arity::Min(n) => given >= n,
    }
}

/// The number of arguments that the arity names.
pub open spec fn arity_expected(arity: Arity) -> usize {
    match arity {
        Arity::Exact(n) => n,
        Arity::Min(n) => n,
    }
}

/// What checking `given` arguments against the arity yields.
pub open spec fn arity_check(arity: Arity, given: usize) -> Result<(), ErrorView> {
    if arity_accepts(arity, given) {
        Ok(())
    } else {
        Err(ErrorView::Arity { expected: arity_expected(arity), given })
    }
}

/// The value of the result of a check.
pub open spec fn check_view(result: Result<(), Error>) -> Result<(), ErrorView> {
    match result {
        Ok(()) => Ok(()),
        Err(e) => Err(e@),
    }
}

impl Arity {
    /// Checks a number of arguments against the arity.
    pub fn check(&self, given: usize) -> (result: Result<(), Error>)
        ensures
            check_view(result) == arity_check(*self, given),
    {
        match *self {
            Arity::Exact(n) => {
                if given == n {
                    Ok(())
                } else {
                    Err(Error::Arity { expected: n, given })
                }
            },
            Arity::Min(n) => {
                if given >= n {
                    Ok(())
                } else {
                    Err(Error::Arity { expected: n, given })
                }
            },
        }
    }
}

impl<F> Proc<F> {
    /// A procedure of the given code, arity, name and captured bindings.
    pub fn new(func: Func<F>, arity: Arity, name: Option<String>, env: Option<Rc<Env<F>>>) -> (
        proc: Self
    )
        ensures
            proc.func == func,
            proc.arity == arity,
            proc.name == name,
            proc.env == env,
    {
        Proc { func, name, env, arity }
    }

    /// Checks a number of arguments against the procedure's arity.
    pub fn check_arity(&self, given: usize) -> (result: Result<(), Error>)
        ensures
            check_view(result) == arity_check(self.arity, given),
    {
        self.arity.check(given)
    }

    /// Whether the procedure is handed its arguments as they were written.
    pub fn is_ctx(&self) -> (ctx: bool)
        ensures
            ctx == (self.func is Ctx),
    {
        match self.func {
            Func::Ctx(_) => true,
            Func::Pure(_) => false,
        }
    }
}

} // verus!
