//! An embeddable evaluation engine for a small Scheme-like language.
//!
//! An expression is a tree of [`SExp`] values: atoms, pairs, vectors and the
//! empty list. A [`Context`] holds the bindings that evaluation reads and
//! changes, in four layers, and [`Context::eval`] turns an expression into a
//! value or an [`Error`].
//!
//! Procedures are values too. Every context knows the special forms
//! `quote`, `define`, `set!`, `lambda`, `if` and `begin`, and `lambda` and
//! `define` make procedures of parameters and a body. What any other code
//! does is the host's business: the host chooses the type that holds its
//! code and implements [`Callable`] for it. The relations in [`eval`] say
//! what an evaluation computes, given what the host says of its code, and
//! [`laws`] holds what follows for every context and every evaluation.
//!
//! Source text is cut into tokens by [`tokenize`] and read by
//! [`SExp::read`]. A number is carried as the bits of its double-precision
//! encoding; a host that reads decimal notation gives each token its number.

pub mod context;
pub mod convert;
pub mod duplicate;
pub mod env;
pub mod equality;
pub mod error;
pub mod eval;
pub mod forms;
pub mod laws;
pub mod list;
pub mod literal;
pub mod number;
pub mod procedure;
pub mod reader;
pub mod sexp;

pub use context::{Context, ContextView, Outcome, DEFAULT_DEPTH};
pub use error::{Error, ErrorView};
pub use eval::run;
pub use procedure::Callable;
pub use reader::{tokenize, Token, TokenView};
pub use sexp::{
    Arity, Code, CodeView, Env, EnvView, Form, Func, FuncView, Lambda, LambdaView, Primitive,
    PrimitiveView, Proc, ProcView, SExp, SExpView,
};
