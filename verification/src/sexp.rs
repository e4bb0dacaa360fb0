//! The expression tree and its mathematical model.

use std::rc::Rc;
use vstd::prelude::*;

verus! {

/// How many arguments a procedure accepts.
#[derive(Debug, Clone, Copy, PartialEq, Eq, Structural)]
pub enum Arity {
    /// Exactly this many.
    Exact(usize),
    /// This many or more.
    Min(usize),
}

/// The special forms that every context knows.
#[derive(Debug, Clone, Copy, PartialEq, Eq, Structural)]
pub enum Form {
    /// `(quote x)`: `x` as it stands.
    Quote,
    /// `(define name x)` and `(define (name param ...) body ...)`.
    Define,
    /// `(set! name x)`: a new value for an existing definition.
    Assign,
    /// `(lambda (param ...) body ...)`: a procedure.
    Lambda,
    /// `(if test then else)`: one of two branches.
    If,
    /// `(begin x ...)`: one expression after the other.
    Begin,
}

/// What a procedure made by `lambda` or `define` does: it binds its
/// parameters to its arguments and evaluates its body.
#[derive(Debug)]
pub struct Lambda<F> {
    /// The names of the parameters.
    pub params: Vec<String>,
    /// The expressions of the body.
    pub body: Vec<SExp<F>>,
}

/// Code that is handed the context and its arguments as they were written.
#[derive(Debug)]
pub enum Code<F> {
    /// Code of the host.
    Host(Rc<F>),
    /// A special form.
    Form(Form),
    /// A body with parameters.
    Lambda(Rc<Lambda<F>>),
}

/// The code of a procedure, tagged with the way it is called.
///
/// A `Pure` procedure is handed its arguments already evaluated. A `Ctx`
/// procedure is handed them as they were written, together with the context,
/// and decides itself what to evaluate.
#[derive(Debug)]
pub enum Func<F> {
    Pure(Rc<F>),
    Ctx(Code<F>),
}

/// A callable value.
#[derive(Debug)]
pub struct Proc<F> {
    /// The code and the way to call it.
    pub func: Func<F>,
    /// A name, for messages.
    pub name: Option<String>,
    /// The bindings captured where the procedure was made. Copies of the
    /// procedure share them.
    pub env: Option<Rc<Env<F>>>,
    /// The argument counts it accepts.
    pub arity: Arity,
}

/// An atomic value.
#[derive(Debug)]
pub enum Primitive<F> {
    /// What a definition or an assignment returns; never the value of a name.
    Undefined,
    Boolean(bool),
    Character(char),
    /// A number, as the bits of its double-precision encoding.
    Number(u64),
    String(String),
    Symbol(String),
    Procedure(Proc<F>),
}

/// A symbolic expression: the empty list, an atom, a pair or a vector.
#[derive(Debug)]
pub enum SExp<F> {
    Null,
    Atom(Primitive<F>),
    Pair { head: Box<SExp<F>>, tail: Box<SExp<F>> },
    Vector(Vec<SExp<F>>),
}

/// One scope: names bound to values.
///
/// A name is bound to the value of the last entry that carries it.
#[derive(Debug)]
pub struct Env<F> {
    pub(crate) entries: Vec<(String, SExp<F>)>,
}

/// The mathematical value of an [`Env`].
pub type EnvView<F> = Map<Seq<char>, SExpView<F>>;

/// The mathematical value of a [`Lambda`].
pub struct LambdaView<F> {
    pub params: Seq<Seq<char>>,
    pub body: Seq<SExpView<F>>,
}

/// The mathematical value of a [`Code`].
pub enum CodeView<F> {
    Host(Rc<F>),
    Form(Form),
    Lambda(LambdaView<F>),
}

/// The mathematical value of a [`Func`].
pub enum FuncView<F> {
    Pure(Rc<F>),
    Ctx(CodeView<F>),
}

/// The mathematical value of a [`Proc`].
pub struct ProcView<F> {
    pub func: FuncView<F>,
    pub name: Option<Seq<char>>,
    pub env: Option<EnvView<F>>,
    pub arity: Arity,
}

/// The mathematical value of a [`Primitive`].
pub enum PrimitiveView<F> {
    Undefined,
    Boolean(bool),
    Character(char),
    Number(u64),
    String(Seq<char>),
    Symbol(Seq<char>),
    Procedure(ProcView<F>),
}

/// The mathematical value of an [`SExp`].
pub enum SExpView<F> {
    Null,
    Atom(PrimitiveView<F>),
    Pair { head: Box<SExpView<F>>, tail: Box<SExpView<F>> },
    Vector(Seq<SExpView<F>>),
}

/// The bindings that a sequence of entries stands for: a later entry
/// overrides an earlier one of the same name.
pub open spec fn entries_view<F>(entries: Seq<(String, SExp<F>)>) -> EnvView<F>
    decreases entries, 0int,
{
    if entries.len() == 0 {
        Map::empty()
    } else {
        let last = entries.last();
        entries_view(entries.drop_last()).insert(last.0@, last.1.model())
    }
}

/// The views of a sequence of strings.
pub open spec fn strings_view(names: Seq<String>) -> Seq<Seq<char>> {
    Seq::new(names.len(), |i: int| names[i]@)
}

impl<F> Lambda<F> {
    /// The value of the parameters and the body.
    pub open spec fn model(&self) -> LambdaView<F>
        decreases self, 0int,
    {
        LambdaView {
            params: strings_view(self.params@),
            body: Seq::new(
                self.body@.len(),
                |i: int|
                    if 0 <= i < self.body@.len() {
                        self.body@[i].model()
                    } else {
                        SExpView::Null
                    },
            ),
        }
    }
}

impl<F> Code<F> {
    /// The value of the code.
    pub open spec fn model(&self) -> CodeView<F>
        decreases self, 0int,
    {
        match self {
            Code::Host(code) => CodeView::Host(*code),
            Code::Form(form) => CodeView::Form(*form),
            Code::Lambda(lambda) => CodeView::Lambda(lambda.model()),
        }
    }
}

impl<F> Func<F> {
    /// The value of the code and the way to call it.
    pub open spec fn model(&self) -> FuncView<F>
        decreases self, 0int,
    {
        match self {
            Func::Pure(code) => FuncView::Pure(*code),
            Func::Ctx(code) => FuncView::Ctx(code.model()),
        }
    }
}

impl<F> Proc<F> {
    /// The value of the procedure, its captured bindings included.
    pub open(crate) spec fn model(&self) -> ProcView<F>
        decreases self, 1int,
    {
        ProcView {
            func: self.func.model(),
            name: match self.name {
                Some(n) => Some(n@),
                None => None,
            },
            env: match self.env {
                Some(e) => Some(entries_view(e.entries@)),
                None => None,
            },
            arity: self.arity,
        }
    }
}

impl<F> Primitive<F> {
    /// The value of the atom.
    pub open(crate) spec fn model(&self) -> PrimitiveView<F>
        decreases self, 2int,
    {
        match self {
            Primitive::Undefined => PrimitiveView::Undefined,
            Primitive::Boolean(b) => PrimitiveView::Boolean(*b),
            Primitive::Character(c) => PrimitiveView::Character(*c),
            Primitive::Number(n) => PrimitiveView::Number(*n),
            Primitive::String(s) => PrimitiveView::String(s@),
            Primitive::Symbol(s) => PrimitiveView::Symbol(s@),
            Primitive::Procedure(p) => PrimitiveView::Procedure(p.model()),
        }
    }
}

impl<F> SExp<F> {
    /// The value of the expression.
    pub open(crate) spec fn model(&self) -> SExpView<F>
        decreases self, 3int,
    {
        match self {
            SExp::Null => SExpView::Null,
            SExp::Atom(a) => SExpView::Atom(a.model()),
            SExp::Pair { head, tail } => SExpView::Pair {
                head: Box::new(head.model()),
                tail: Box::new(tail.model()),
            },
            SExp::Vector(v) => SExpView::Vector(
                Seq::new(
                    v@.len(),
                    |i: int|
                        if 0 <= i < v@.len() {
                            v@[i].model()
                        } else {
                            SExpView::Null
                        },
                ),
            ),
        }
    }
}

impl<F> View for Env<F> {
    type V = EnvView<F>;

    open(crate) spec fn view(&self) -> EnvView<F> {
        entries_view(self.entries@)
    }
}

impl<F> View for Lambda<F> {
    type V = LambdaView<F>;

    open spec fn view(&self) -> LambdaView<F> {
        self.model()
    }
}

impl<F> View for Code<F> {
    type V = CodeView<F>;

    open spec fn view(&self) -> CodeView<F> {
        self.model()
    }
}

impl<F> View for Func<F> {
    type V = FuncView<F>;

    open spec fn view(&self) -> FuncView<F> {
        self.model()
    }
}

impl<F> View for Proc<F> {
    type V = ProcView<F>;

    open(crate) spec fn view(&self) -> ProcView<F> {
        self.model()
    }
}

impl<F> View for Primitive<F> {
    type V = PrimitiveView<F>;

    open(crate) spec fn view(&self) -> PrimitiveView<F> {
        self.model()
    }
}

impl<F> View for SExp<F> {
    type V = SExpView<F>;

    open(crate) spec fn view(&self) -> SExpView<F> {
        self.model()
    }
}

} // verus!
