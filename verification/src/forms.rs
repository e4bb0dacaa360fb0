//! The special forms: their names and arities, and the procedures that
//! `lambda` and `define` make.

use crate::context::{closure_of, lookup_frames, names_of, Context, ContextView, Outcome};
use crate::env::lemma_absent_unbound;
use crate::error::ErrorView;
use crate::list::{clip, models};
use crate::sexp::{
    strings_view, Arity, Code, CodeView, Env, EnvView, Form, Func, FuncView, Lambda, LambdaView,
    Primitive, PrimitiveView, Proc, ProcView, SExp, SExpView,
};
use std::rc::Rc;
use vstd::prelude::*;

verus! {

/// The name that a special form is bound to.
pub open spec fn form_name(form: Form) -> Seq<char> {
    match form {
        Form::Quote => "quote"@,
        Form::Define => "define"@,
        Form::Assign => "set!"@,
        Form::Lambda => "lambda"@,
        Form::If => "if"@,
        Form::Begin => "begin"@,
    }
}

/// The numbers of arguments that a special form accepts.
pub open spec fn form_arity(form: Form) -> Arity {
    match form {
        Form::Quote => Arity::Exact(1),
        Form::Define => Arity::Min(2),
        Form::Assign => Arity::Exact(2),
        Form::Lambda => Arity::Min(2),
        Form::If => Arity::Exact(3),
        Form::Begin => Arity::Min(0),
    }
}

/// The procedure that a special form is.
pub open spec fn form_proc<F>(form: Form) -> ProcView<F> {
    ProcView {
        func: FuncView::Ctx(CodeView::Form(form)),
        name: Some(form_name(form)),
        env: None,
        arity: form_arity(form),
    }
}

/// The value that the name of a special form is bound to.
pub open spec fn form_value<F>(form: Form) -> SExpView<F> {
    SExpView::Atom(PrimitiveView::Procedure(form_proc(form)))
}

/// The bindings of the special forms.
pub open spec fn core_forms<F>() -> EnvView<F> {
    EnvView::<F>::empty().insert(form_name(Form::Quote), form_value(Form::Quote)).insert(
        form_name(Form::Define),
        form_value(Form::Define),
    ).insert(form_name(Form::Assign), form_value(Form::Assign)).insert(
        form_name(Form::Lambda),
        form_value(Form::Lambda),
    ).insert(form_name(Form::If), form_value(Form::If)).insert(
        form_name(Form::Begin),
        form_value(Form::Begin),
    )
}

/// What a special form yields where its arguments do not have its shape.
pub open spec fn malformed<F>(form: Form) -> Outcome<F> {
    Err(ErrorView::Syntax { exp: form_name(form) })
}

/// The undefined placeholder.
pub open spec fn undefined<F>() -> SExpView<F> {
    SExpView::Atom(PrimitiveView::Undefined)
}

/// The value is a symbol.
pub open spec fn is_symbol_value<F>(value: SExpView<F>) -> bool {
    value matches SExpView::Atom(PrimitiveView::Symbol(_))
}

/// The name of a symbol.
pub open spec fn name_of<F>(value: SExpView<F>) -> Seq<char> {
    value->Atom_0->Symbol_0
}

/// The names of the values, where every one of them is a symbol.
pub open spec fn symbol_names<F>(items: Seq<SExpView<F>>) -> Option<Seq<Seq<char>>> {
    if forall|i: int| 0 <= i < items.len() ==> is_symbol_value(#[trigger] items[i]) {
        Some(Seq::new(items.len(), |i: int| name_of(items[i])))
    } else {
        None
    }
}

/// The names of the symbols in an expression, through all its pairs, in the
/// order in which they stand.
pub open spec fn symbols_in<F>(exp: SExpView<F>) -> Seq<Seq<char>>
    decreases exp,
{
    match exp {
        SExpView::Atom(PrimitiveView::Symbol(name)) => seq![name],
        SExpView::Pair { head, tail } => symbols_in(*head) + symbols_in(*tail),
        _ => Seq::empty(),
    }
}

/// The names of the symbols in a sequence of expressions.
pub open spec fn symbols_in_all<F>(body: Seq<SExpView<F>>) -> Seq<Seq<char>>
    decreases body.len(),
{
    if body.len() == 0 {
        Seq::empty()
    } else {
        symbols_in_all(body.drop_last()) + symbols_in(body.last())
    }
}

/// The bindings that a procedure captures: those that the user's scopes
/// hold for the names that occur in its body and are no parameters.
pub open spec fn captured<F>(
    user: Seq<EnvView<F>>,
    params: Seq<Seq<char>>,
    body: Seq<SExpView<F>>,
) -> EnvView<F> {
    Map::new(
        |key: Seq<char>|
            symbols_in_all(body).contains(key) && !params.contains(key) && lookup_frames(user, key)
                is Some,
        |key: Seq<char>| lookup_frames(user, key)->Some_0,
    )
}

/// The procedure of the given parameters and body, made in the given
/// context: it takes as many arguments as it has parameters.
pub open spec fn lambda_value<F>(
    ctx: ContextView<F>,
    params: Seq<Seq<char>>,
    body: Seq<SExpView<F>>,
    name: Option<Seq<char>>,
) -> SExpView<F> {
    SExpView::Atom(
        PrimitiveView::Procedure(
            ProcView {
                func: FuncView::Ctx(CodeView::Lambda(LambdaView { params, body })),
                name,
                env: Some(captured(ctx.user, params, body)),
                arity: Arity::Exact(clip(params.len())),
            },
        ),
    )
}

/// The names of `wanted` are those of `all` that are not among `given`.
pub open spec fn are_free(wanted: Seq<Seq<char>>, all: Seq<Seq<char>>, given: Seq<Seq<char>>) -> bool {
    forall|key: Seq<char>|
        #![trigger wanted.contains(key)]
        #![trigger all.contains(key)]
        wanted.contains(key) <==> (all.contains(key) && !given.contains(key))
}

/// The context after the first `count` parameters were defined as the
/// arguments at their places.
pub open spec fn bound_upto<F>(
    ctx: ContextView<F>,
    params: Seq<Seq<char>>,
    values: Seq<SExpView<F>>,
    count: nat,
) -> ContextView<F>
    decreases count,
{
    if count == 0 {
        ctx
    } else {
        bound_upto(ctx, params, values, (count - 1) as nat).define(
            params[count - 1],
            values[count - 1],
        )
    }
}

/// The context after the parameters were defined as the arguments, one by
/// one, as far as both go.
pub open spec fn bound<F>(
    ctx: ContextView<F>,
    params: Seq<Seq<char>>,
    values: Seq<SExpView<F>>,
) -> ContextView<F> {
    bound_upto(
        ctx,
        params,
        values,
        if params.len() <= values.len() {
            params.len()
        } else {
            values.len()
        },
    )
}

/// The six special forms have six names.
pub proof fn lemma_form_names(a: Form, b: Form)
    ensures
        form_name(a) == form_name(b) <==> a == b,
{
    reveal_strlit("quote");
    reveal_strlit("define");
    reveal_strlit("set!");
    reveal_strlit("lambda");
    reveal_strlit("if");
    reveal_strlit("begin");
    if a != b && form_name(a) == form_name(b) {
        assert(form_name(a).len() == form_name(b).len());
        assert(form_name(a)[0] == form_name(b)[0]);
    }
}

/// The special forms are bound to their names, and nothing else is.
pub proof fn lemma_core_forms<F>(form: Form)
    ensures
        core_forms::<F>().contains_key(form_name(form)),
        core_forms::<F>()[form_name(form)] == form_value::<F>(form),
        forall|key: Seq<char>| #[trigger]
            core_forms::<F>().contains_key(key) ==> exists|f: Form| key == form_name(f),
{
    lemma_form_names(form, Form::Quote);
    lemma_form_names(form, Form::Define);
    lemma_form_names(form, Form::Assign);
    lemma_form_names(form, Form::Lambda);
    lemma_form_names(form, Form::If);
    lemma_form_names(form, Form::Begin);
    assert forall|key: Seq<char>| #[trigger]
        core_forms::<F>().contains_key(key) implies exists|f: Form| key == form_name(f) by {
        if key == form_name(Form::Quote) {
        } else if key == form_name(Form::Define) {
        } else if key == form_name(Form::Assign) {
        } else if key == form_name(Form::Lambda) {
        } else if key == form_name(Form::If) {
        } else {
            assert(key == form_name(Form::Begin));
        }
    }
}

impl Form {
    /// The name that the form is bound to.
    pub fn name(&self) -> (name: &'static str)
        ensures
            name@ == form_name(*self),
    {
        match *self {
            Form::Quote => "quote",
            Form::Define => "define",
            Form::Assign => "set!",
            Form::Lambda => "lambda",
            Form::If => "if",
            Form::Begin => "begin",
        }
    }

    /// The numbers of arguments that the form accepts.
    pub fn arity(&self) -> (arity: Arity)
        ensures
            arity == form_arity(*self),
    {
        match *self {
            Form::Quote => Arity::Exact(1),
            Form::Define => Arity::Min(2),
            Form::Assign => Arity::Exact(2),
            Form::Lambda => Arity::Min(2),
            Form::If => Arity::Exact(3),
            Form::Begin => Arity::Min(0),
        }
    }
}

impl<F> SExp<F> {
    /// The procedure that a special form is.
    pub fn form(form: Form) -> (value: Self)
        ensures
            value@ == form_value::<F>(form),
    {
        let proc: Proc<F> = Proc {
            func: Func::Ctx(Code::Form(form)),
            name: Some(form.name().to_owned()),
            env: None,
            arity: form.arity(),
        };
        assert(proc@ == form_proc::<F>(form));
        let atom = Primitive::Procedure(proc);
        assert(atom@ == PrimitiveView::Procedure(proc@));
        SExp::Atom(atom)
    }

    /// The names of the expressions, where every one of them is a symbol.
    pub fn symbol_names(items: &Vec<Self>) -> (names: Option<Vec<String>>)
        ensures
            match names {
                Some(found) => symbol_names(models(items@)) == Some(strings_view(found@)),
                None => symbol_names(models(items@)) is None,
            },
    {
        let mut names: Vec<String> = Vec::new();
        let mut i: usize = 0;
        while i < items.len()
            invariant
                i <= items@.len(),
                names@.len() == i,
                forall|j: int| 0 <= j < i ==> is_symbol_value(#[trigger] models(items@)[j]),
                forall|j: int|
                    0 <= j < i ==> (#[trigger] names@[j])@ == name_of(models(items@)[j]),
            decreases items@.len() - i,
        {
            match &items[i] {
                SExp::Atom(Primitive::Symbol(name)) => {
                    assert(items@[i as int]@ == SExpView::<F>::Atom(PrimitiveView::Symbol(name@))) by {
                        assert(Primitive::<F>::Symbol(*name)@ == PrimitiveView::<F>::Symbol(name@));
                    }
                    names.push(name.clone());
                },
                other => {
                    proof {
                        if let SExp::Atom(atom) = other {
                            assert(!(atom@ is Symbol));
                        }
                        assert(!is_symbol_value(models(items@)[i as int]));
                    }
                    return None;
                },
            }
            i += 1;
        }
        proof {
            assert(strings_view(names@) =~= Seq::new(
                models(items@).len(),
                |i: int| name_of(models(items@)[i]),
            ));
        }
        Some(names)
    }

    /// Adds the names of the symbols in the expression to `names`.
    pub fn collect_symbols(&self, names: &mut Vec<String>)
        ensures
            strings_view(final(names)@) == strings_view(old(names)@) + symbols_in(self@),
        decreases self,
    {
        match self {
            SExp::Atom(atom) => {
                match atom {
                    Primitive::Symbol(name) => {
                        assert(atom@ == PrimitiveView::<F>::Symbol(name@));
                        names.push(name.clone());
                        proof {
                            assert(strings_view(names@) =~= strings_view(old(names)@) + seq![name@]);
                        }
                    },
                    _ => {
                        proof {
                            assert(!(atom@ is Symbol));
                            assert(strings_view(names@) + symbols_in(self@) =~= strings_view(names@));
                        }
                    },
                }
            },
            SExp::Pair { head, tail } => {
                head.collect_symbols(names);
                let ghost between = strings_view(names@);
                tail.collect_symbols(names);
                proof {
                    assert(strings_view(names@) =~= strings_view(old(names)@) + (symbols_in(head@)
                        + symbols_in(tail@)));
                }
            },
            _ => {
                proof {
                    assert(strings_view(names@) + symbols_in(self@) =~= strings_view(names@));
                }
            },
        }
    }
}

/// Whether a name is among the given names.
fn has_name(names: &Vec<String>, name: &String) -> (found: bool)
    ensures
        found == strings_view(names@).contains(name@),
{
    let mut i: usize = 0;
    while i < names.len()
        invariant
            i <= names@.len(),
            forall|j: int| 0 <= j < i ==> strings_view(names@)[j] != name@,
        decreases names@.len() - i,
    {
        if names[i] == *name {
            assert(strings_view(names@)[i as int] == name@);
            return true;
        }
        i += 1;
    }
    false
}

impl<F> Context<F> {
    /// The bindings of the special forms.
    pub fn forms() -> (forms: Env<F>)
        ensures
            forms@ == core_forms::<F>(),
    {
        let mut forms: Env<F> = Env::new();
        forms.insert(Form::Quote.name().to_owned(), SExp::form(Form::Quote));
        forms.insert(Form::Define.name().to_owned(), SExp::form(Form::Define));
        forms.insert(Form::Assign.name().to_owned(), SExp::form(Form::Assign));
        forms.insert(Form::Lambda.name().to_owned(), SExp::form(Form::Lambda));
        forms.insert(Form::If.name().to_owned(), SExp::form(Form::If));
        forms.insert(Form::Begin.name().to_owned(), SExp::form(Form::Begin));
        forms
    }

    /// Defines the parameters as the values, one by one, as far as both go.
    pub fn bind(&mut self, params: &Vec<String>, values: &Vec<SExp<F>>)
        ensures
            final(self).depth() == old(self).depth(),
            final(self)@ == bound(old(self)@, strings_view(params@), models(values@)),
    {
        let count = if params.len() <= values.len() {
            params.len()
        } else {
            values.len()
        };
        let mut i: usize = 0;
        while i < count
            invariant
                i <= count,
                count <= params@.len(),
                count <= values@.len(),
                self.depth() == old(self).depth(),
                self@ == bound_upto(old(self)@, strings_view(params@), models(values@), i as nat),
            decreases count - i,
        {
            self.define(params[i].as_str(), values[i].duplicate());
            i += 1;
        }
    }

    /// The procedure of the given parameters and body. It captures what
    /// the user's scopes hold for the names that occur in the body and are
    /// no parameters.
    pub fn lambda(&self, params: Vec<String>, body: Vec<SExp<F>>, name: Option<String>) -> (value:
        SExp<F>)
        ensures
            value@ == lambda_value(
                self@,
                strings_view(params@),
                models(body@),
                match name {
                    Some(n) => Some(n@),
                    None => None,
                },
            ),
    {
        let mut symbols: Vec<String> = Vec::new();
        let mut i: usize = 0;
        proof {
            assert(strings_view(symbols@) =~= symbols_in_all(models(body@).take(0)));
        }
        while i < body.len()
            invariant
                i <= body@.len(),
                strings_view(symbols@) == symbols_in_all(models(body@).take(i as int)),
            decreases body@.len() - i,
        {
            proof {
                let next = models(body@).take(i + 1);
                assert(next.drop_last() =~= models(body@).take(i as int));
                assert(next.last() == body@[i as int]@);
            }
            body[i].collect_symbols(&mut symbols);
            i += 1;
        }
        proof {
            assert(models(body@).take(i as int) =~= models(body@));
        }
        let ghost all = strings_view(symbols@);
        let ghost given = strings_view(params@);
        let mut vars: Vec<&str> = Vec::new();
        let mut j: usize = 0;
        while j < symbols.len()
            invariant
                j <= symbols@.len(),
                all == strings_view(symbols@),
                given == strings_view(params@),
                are_free(names_of(vars@), all.take(j as int), given),
            decreases symbols@.len() - j,
        {
            let ghost before = names_of(vars@);
            let free = !has_name(&params, &symbols[j]);
            if free {
                vars.push(symbols[j].as_str());
            }
            proof {
                let name = symbols@[j as int]@;
                let after = names_of(vars@);
                assert(all[j as int] == name);
                assert(all.take(j + 1) =~= all.take(j as int).push(name));
                if free {
                    assert(after =~= before.push(name));
                }
                let shorter = all.take(j as int);
                let longer = all.take(j + 1);
                assert(are_free(before, shorter, given));
                assert forall|key: Seq<char>| after.contains(key) implies (longer.contains(key)
                    && !given.contains(key)) by {
                    let at = choose|at: int| 0 <= at < after.len() && after[at] == key;
                    if at < before.len() {
                        assert(before[at] == key);
                        assert(before.contains(key));
                        let k = choose|k: int| 0 <= k < shorter.len() && shorter[k] == key;
                        assert(longer[k] == key);
                    } else {
                        assert(key == name);
                        assert(longer[j as int] == key);
                    }
                }
                assert forall|key: Seq<char>|
                    (longer.contains(key) && !given.contains(key)) implies after.contains(key) by {
                    let k = choose|k: int| 0 <= k < longer.len() && longer[k] == key;
                    if k < j {
                        assert(shorter[k] == key);
                        assert(shorter.contains(key));
                        assert(before.contains(key));
                        let at = choose|at: int| 0 <= at < before.len() && before[at] == key;
                        assert(after[at] == key);
                    } else {
                        assert(key == name);
                        assert(free);
                        assert(after[after.len() - 1] == key);
                    }
                }
            }
            j += 1;
        }
        proof {
            assert(all.take(j as int) =~= all);
        }
        let ghost wanted = names_of(vars@);
        let env = self.close(vars);
        proof {
            assert(are_free(wanted, symbols_in_all(models(body@)), given));
            assert(env@ =~= captured(self@.user, given, models(body@)));
        }
        let arity = Arity::Exact(params.len());
        let proc: Proc<F> = Proc {
            func: Func::Ctx(Code::Lambda(Rc::new(Lambda { params, body }))),
            name,
            env: Some(Rc::new(env)),
            arity,
        };
        proof {
            let lambda = proc.func->Ctx_0->Lambda_0;
            assert(lambda@.body =~= models(body@));
        }
        let atom = Primitive::Procedure(proc);
        assert(atom@ == PrimitiveView::Procedure(proc@));
        SExp::Atom(atom)
    }
}

} // verus!
