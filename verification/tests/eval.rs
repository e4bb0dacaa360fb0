use parsley::{
    tokenize, Arity, Callable, Code, Context, Env, Error, Form, Func, Primitive, Proc, SExp, Token,
};
use std::cell::Cell;
use std::fmt;
use std::rc::Rc;

type Value = SExp<Native>;
type Outcome = Result<Value, Error>;
type Ctx = Context<Native>;

/// The code of a procedure: a closure of one of two shapes.
enum Native {
    Pure(Box<dyn Fn(Value) -> Outcome>),
    Ctx(Box<dyn Fn(&mut Ctx, Value) -> Outcome>),
}

impl fmt::Debug for Native {
    fn fmt(&self, f: &mut fmt::Formatter) -> fmt::Result {
        f.write_str("#<code>")
    }
}

impl Callable for Native {
    fn call_pure(&self, args: Value) -> Outcome {
        match self {
            Native::Pure(code) => code(args),
            Native::Ctx(_) => panic!("code that needs a context was called without one"),
        }
    }

    fn call_ctx(&self, ctx: &mut Ctx, args: Value) -> Outcome {
        match self {
            Native::Pure(code) => code(args),
            Native::Ctx(code) => code(ctx, args),
        }
    }
}

fn num(x: f64) -> Value {
    SExp::number(x.to_bits())
}

fn sym(name: &str) -> Value {
    SExp::sym(name)
}

fn list(items: Vec<Value>) -> Value {
    SExp::list(items)
}

fn pure(arity: Arity, code: impl Fn(Value) -> Outcome + 'static) -> Value {
    SExp::Atom(Primitive::Procedure(Proc::new(
        Func::Pure(Rc::new(Native::Pure(Box::new(code)))),
        arity,
        None,
        None,
    )))
}

fn special(arity: Arity, code: impl Fn(&mut Ctx, Value) -> Outcome + 'static) -> Value {
    SExp::Atom(Primitive::Procedure(Proc::new(
        Func::Ctx(Code::Host(Rc::new(Native::Ctx(Box::new(code))))),
        arity,
        None,
        None,
    )))
}

fn type_error(what: &str) -> Error {
    Error::Syntax { exp: what.to_string() }
}

fn as_number(v: &Value) -> Result<f64, Error> {
    match v {
        SExp::Atom(Primitive::Number(bits)) => Ok(f64::from_bits(*bits)),
        _ => Err(type_error("not a number")),
    }
}

fn numbers(args: Value) -> Result<Vec<f64>, Error> {
    args.into_vec().iter().map(as_number).collect()
}

fn fold(start: f64, step: fn(f64, f64) -> f64) -> Value {
    pure(Arity::Min(0), move |args| Ok(num(numbers(args)?.into_iter().fold(start, step))))
}

fn binary(step: fn(f64, f64) -> Value) -> Value {
    pure(Arity::Exact(2), move |args| {
        let n = numbers(args)?;
        Ok(step(n[0], n[1]))
    })
}

fn gcd(a: f64, b: f64) -> f64 {
    if b == 0.0 {
        a.abs()
    } else {
        gcd(b, a % b)
    }
}

/// A context with the special forms and a small library.
fn base() -> Ctx {
    let mut ctx = Ctx::default();
    ctx.define_lang("+", fold(0.0, |a, b| a + b));
    ctx.define_lang("*", fold(1.0, |a, b| a * b));
    ctx.define_lang(
        "-",
        pure(Arity::Min(1), |args| {
            let n = numbers(args)?;
            Ok(num(if n.len() == 1 { -n[0] } else { n[1..].iter().fold(n[0], |a, b| a - b) }))
        }),
    );
    ctx.define_lang("/", binary(|a, b| num(a / b)));
    ctx.define_lang("gcd", binary(|a, b| num(gcd(a, b))));
    ctx.define_lang("=", binary(|a, b| SExp::from(a == b)));
    ctx.define_lang("<", binary(|a, b| SExp::from(a < b)));
    ctx.define_lang(
        "cons",
        pure(Arity::Exact(2), |args| {
            let mut parts = args.into_vec();
            let tail = parts.remove(1);
            Ok(tail.cons(parts.remove(0)))
        }),
    );
    ctx.define_lang(
        "car",
        pure(Arity::Exact(1), |args| match args.into_vec().remove(0).split() {
            Some((head, _)) => Ok(head),
            None => Err(type_error("car")),
        }),
    );
    ctx.define_lang(
        "cdr",
        pure(Arity::Exact(1), |args| match args.into_vec().remove(0).split() {
            Some((_, tail)) => Ok(tail),
            None => Err(type_error("cdr")),
        }),
    );
    ctx.define_lang("list", pure(Arity::Min(0), Ok));
    ctx.define_lang("null?", pure(Arity::Exact(1), |args| Ok(SExp::from(args.into_vec()[0] == SExp::Null))));
    ctx.define_lang("null", SExp::Null);
    ctx
}

/// Cuts a text into tokens and gives each the number that it denotes.
fn tokens(text: &str) -> Result<Vec<Token>, Error> {
    let mut tokens = tokenize(text)?;
    for token in tokens.iter_mut() {
        token.number = token.text.parse::<f64>().ok().map(f64::to_bits);
    }
    Ok(tokens)
}

fn run(ctx: &mut Ctx, text: &str) -> Outcome {
    ctx.run(&tokens(text)?)
}

#[test]
fn atoms_evaluate_to_themselves() {
    let mut ctx = base();
    for v in [num(5.0), SExp::from(true), SExp::from('c'), SExp::from("text"), SExp::undefined()] {
        assert_eq!(ctx.eval(v.clone()), Ok(v));
    }
}

#[test]
fn procedure_atom_evaluates_to_itself() {
    let mut ctx = base();
    let p = pure(Arity::Exact(0), |_| Ok(num(1.0)));
    match ctx.eval(p) {
        Ok(SExp::Atom(Primitive::Procedure(proc))) => assert_eq!(proc.arity, Arity::Exact(0)),
        other => panic!("not a procedure: {:?}", other),
    }
}

#[test]
fn vector_evaluates_to_itself() {
    let mut ctx = base();
    let v = SExp::Vector(vec![sym("undefined_name"), list(vec![sym("+"), num(1.0)]), SExp::Null]);
    assert_eq!(ctx.eval(v.clone()), Ok(v.clone()));
    assert_eq!(v.clone().eval(&mut ctx), Ok(v));
}

#[test]
fn null_is_an_error() {
    let mut ctx = base();
    assert_eq!(ctx.eval(SExp::Null), Err(Error::NullList));
    assert_eq!(Ctx::default().eval(SExp::Null), Err(Error::NullList));
}

#[test]
fn unbound_symbol_is_an_error() {
    let mut ctx = base();
    assert_eq!(
        ctx.eval(sym("undefined_name")),
        Err(Error::UndefinedSymbol { sym: "undefined_name".to_string() })
    );
}

#[test]
fn symbol_bound_to_undefined_is_an_error() {
    let mut ctx = base();
    ctx.define("x", SExp::undefined());
    assert_eq!(ctx.get("x"), Some(SExp::undefined()));
    assert_eq!(ctx.eval(sym("x")), Err(Error::UndefinedSymbol { sym: "x".to_string() }));
}

#[test]
fn symbol_evaluates_to_its_binding() {
    let mut ctx = base();
    ctx.define("x", num(10.0));
    assert_eq!(ctx.eval(sym("x")), Ok(num(10.0)));
    assert_eq!(ctx.eval(sym("null")), Ok(SExp::Null));
}

#[test]
fn arguments_are_evaluated_left_to_right() {
    let mut ctx = base();
    ctx.define("n", num(0.0));
    ctx.define_lang(
        "next!",
        special(Arity::Exact(0), |ctx, _| {
            let n = as_number(&ctx.get("n").unwrap())? + 1.0;
            ctx.set("n", num(n))?;
            Ok(num(n))
        }),
    );
    assert_eq!(
        run(&mut ctx, "(list (next!) (next!) (next!))"),
        Ok(list(vec![num(1.0), num(2.0), num(3.0)]))
    );
}

#[test]
fn first_failing_argument_ends_the_evaluation() {
    let mut ctx = base();
    assert_eq!(
        run(&mut ctx, "(+ 1 missing (define later 1) other)"),
        Err(Error::UndefinedSymbol { sym: "missing".to_string() })
    );
    assert_eq!(ctx.get("later"), None);
}

#[test]
fn failing_operator_ends_the_evaluation() {
    let mut ctx = base();
    assert_eq!(
        run(&mut ctx, "(missing (define later 1))"),
        Err(Error::UndefinedSymbol { sym: "missing".to_string() })
    );
    assert_eq!(ctx.get("later"), None);
}

#[test]
fn exact_arity_is_enforced() {
    let mut ctx = base();
    let calls = Rc::new(Cell::new(0));
    let seen = calls.clone();
    ctx.define(
        "two",
        pure(Arity::Exact(2), move |args| {
            seen.set(seen.get() + 1);
            Ok(args)
        }),
    );
    assert_eq!(run(&mut ctx, "(two 1)"), Err(Error::Arity { expected: 2, given: 1 }));
    assert_eq!(run(&mut ctx, "(two 1 2 3)"), Err(Error::Arity { expected: 2, given: 3 }));
    assert_eq!(calls.get(), 0);
    assert_eq!(run(&mut ctx, "(two 1 2)"), Ok(list(vec![num(1.0), num(2.0)])));
    assert_eq!(calls.get(), 1);
}

#[test]
fn minimum_arity_is_enforced() {
    let mut ctx = base();
    assert_eq!(run(&mut ctx, "(-)"), Err(Error::Arity { expected: 1, given: 0 }));
    assert_eq!(run(&mut ctx, "(- 5)"), Ok(num(-5.0)));
    assert_eq!(run(&mut ctx, "(- 5 1 1)"), Ok(num(3.0)));
}

#[test]
fn conditional_evaluates_only_the_selected_branch() {
    let mut ctx = base();
    assert_eq!(run(&mut ctx, "(if #t (define a 1) (define b 2))"), Ok(SExp::undefined()));
    assert_eq!(ctx.get("a"), Some(num(1.0)));
    assert_eq!(ctx.get("b"), None);
    assert_eq!(run(&mut ctx, "(if #f (define c 1) (define d 2))"), Ok(SExp::undefined()));
    assert_eq!(ctx.get("c"), None);
    assert_eq!(ctx.get("d"), Some(num(2.0)));
    assert_eq!(run(&mut ctx, "(if (< 1 2) 10 missing)"), Ok(num(10.0)));
}

#[test]
fn ctx_procedure_receives_its_arguments_unevaluated() {
    let mut ctx = base();
    ctx.define("x", num(1.0));
    ctx.define_lang("raw", special(Arity::Min(0), |_, args| Ok(args)));
    assert_eq!(
        run(&mut ctx, "(raw x (+ 1 2) missing)"),
        Ok(list(vec![sym("x"), list(vec![sym("+"), num(1.0), num(2.0)]), sym("missing")]))
    );
    assert_eq!(run(&mut ctx, "(list x (+ 1 2))"), Ok(list(vec![num(1.0), num(3.0)])));
}

#[test]
fn nested_arithmetic() {
    let mut ctx = base();
    assert_eq!(run(&mut ctx, "(* (+ 3 4 5) (- 5 2))"), Ok(num(36.0)));
    let by_hand = list(vec![
        sym("*"),
        list(vec![sym("+"), num(3.0), num(4.0), num(5.0)]),
        list(vec![sym("-"), num(5.0), num(2.0)]),
    ]);
    assert_eq!(by_hand.eval(&mut ctx), Ok(num(36.0)));
}

#[test]
fn sum_of_squares() {
    let mut ctx = base();
    let program = "
        (define (sqr x) (* x x))
        (define (sum-of-squares x y) (+ (sqr x) (sqr y)))
        (sum-of-squares 3 4)
    ";
    assert_eq!(run(&mut ctx, program), Ok(num(25.0)));
    assert_eq!(ctx.get("x"), None);
    assert_eq!(ctx.get("y"), None);
}

#[test]
fn definitions_persist_between_evaluations() {
    let mut ctx = base();
    assert!(run(&mut ctx, "x").is_err());
    assert_eq!(run(&mut ctx, "(define x 6)"), Ok(SExp::undefined()));
    assert_eq!(run(&mut ctx, "x"), Ok(num(6.0)));
    assert_eq!(run(&mut ctx, "(set! x (+ x 1))"), Ok(SExp::undefined()));
    assert_eq!(run(&mut ctx, "x"), Ok(num(7.0)));
    assert_eq!(
        run(&mut ctx, "(set! y 1)"),
        Err(Error::UndefinedSymbol { sym: "y".to_string() })
    );
}

#[test]
fn special_forms_cannot_be_redefined() {
    let mut ctx = base();
    assert_eq!(run(&mut ctx, "(define if 5)"), Ok(SExp::undefined()));
    assert_eq!(run(&mut ctx, "(if #f 1 2)"), Ok(num(2.0)));
    assert_eq!(run(&mut ctx, "(define + -)"), Ok(SExp::undefined()));
    assert_eq!(run(&mut ctx, "(+ 5 2)"), Ok(num(3.0)));
}

#[test]
fn inline_lambda_in_operator_position() {
    let mut ctx = base();
    assert_eq!(run(&mut ctx, "((lambda (x y) (- x y)) 7 2)"), Ok(num(5.0)));
}

#[test]
fn recursion() {
    let mut ctx = base();
    let program = "
        (define (fact n) (if (< n 2) 1 (* n (fact (- n 1)))))
        (fact 10)
    ";
    assert_eq!(run(&mut ctx, program), Ok(num(3628800.0)));
}

#[test]
fn closure_sees_captured_bindings() {
    let mut ctx = base();
    let program = "
        (define (make-adder n) (lambda (x) (+ x n)))
        (define add-two (make-adder 2))
        (add-two 5)
    ";
    assert_eq!(run(&mut ctx, program), Ok(num(7.0)));
    assert_eq!(ctx.get("n"), None);
}

#[test]
fn sicp_2_1() {
    let mut ctx = base();
    let ex_1 = "
        (define (make-rat n d)
          ((lambda (g) (cons (/ n g) (/ d g))) (gcd n d)))
        (define (numer x) (car x))
        (define (denom x) (cdr x))
        (define (add-rat x y)
          (make-rat (+ (* (numer x) (denom y)) (* (numer y) (denom x)))
                    (* (denom x) (denom y))))
        (define (mul-rat x y)
          (make-rat (* (numer x) (numer y))
                    (* (denom x) (denom y))))
        (define one-half (make-rat 1 2))
        (define one-third (make-rat 1 3))
    ";
    run(&mut ctx, ex_1).unwrap();

    assert_eq!(
        run(&mut ctx, "(add-rat one-half one-third)").unwrap(),
        run(&mut ctx, "(cons 5 6)").unwrap()
    );

    assert_eq!(
        run(&mut ctx, "(mul-rat one-half one-third)").unwrap(),
        run(&mut ctx, "(cons 1 6)").unwrap()
    );

    assert_eq!(
        run(&mut ctx, "(add-rat one-third one-third)").unwrap(),
        run(&mut ctx, "(cons 2 3)").unwrap()
    );
}

#[test]
fn run_hands_on_the_readers_error() {
    let mut ctx = base();
    assert_eq!(run(&mut ctx, "(+ 1 2"), Err(Error::Syntax { exp: "(".to_string() }));
    assert_eq!(run(&mut ctx, "(define x 1) #<"), Err(Error::Syntax { exp: "#<".to_string() }));
    assert_eq!(ctx.get("x"), None);
    assert_eq!(run(&mut ctx, "(+ 1 \"2"), Err(Error::Syntax { exp: "\"2".to_string() }));
    assert_eq!(run(&mut ctx, "1"), Ok(num(1.0)));
}

#[test]
fn run_reads_several_expressions_as_one_begin() {
    let mut ctx = base();
    assert_eq!(run(&mut ctx, "(define a 1) (define b 2) (+ a b)"), Ok(num(3.0)));
    assert_eq!(run(&mut ctx, ""), Ok(SExp::undefined()));
    assert_eq!(run(&mut ctx, "; nothing but a comment"), Ok(SExp::undefined()));
}

#[test]
fn run_reads_no_deeper_than_the_context_allows() {
    let mut ctx = base();
    ctx.set_depth(2);
    assert_eq!(run(&mut ctx, "(+ 1 (+ 1 1))"), Ok(num(3.0)));
    assert_eq!(run(&mut ctx, "(+ 1 (+ 1 (+ 1 1)))"), Err(Error::DepthExceeded));
    assert_eq!(run(&mut ctx, "'(1 (2 (3)))"), Err(Error::DepthExceeded));
    assert_eq!(run(&mut ctx, "'(1 2)"), Ok(list(vec![num(1.0), num(2.0)])));
}

#[test]
fn apply_returns_what_is_no_application() {
    let mut ctx = base();
    assert_eq!(ctx.apply(SExp::Null), Ok(SExp::Null));
    assert_eq!(ctx.apply(num(1.0)), Ok(num(1.0)));
    assert_eq!(ctx.apply(sym("missing")), Ok(sym("missing")));
    let v = SExp::Vector(vec![sym("+")]);
    assert_eq!(ctx.apply(v.clone()), Ok(v.clone()));
    assert_eq!(v.clone().apply(&mut ctx), Ok(v));
    let numbers = list(vec![num(1.0), sym("x"), num(3.0)]);
    assert_eq!(ctx.apply(numbers.clone()), Ok(numbers));
    let strings = list(vec![SExp::from("potato"), SExp::from(true), num(5.0)]);
    assert_eq!(ctx.eval(strings.clone()), Ok(strings));
}

#[test]
fn symbol_in_operator_position_is_not_a_procedure() {
    let mut ctx = base();
    assert_eq!(
        ctx.apply(list(vec![sym("potato"), SExp::from(true), num(5.0)])),
        Err(Error::NotAProcedure { exp: "potato".to_string() })
    );
    assert_eq!(
        run(&mut ctx, "((quote potato) 1 2)"),
        Err(Error::NotAProcedure { exp: "potato".to_string() })
    );
}

#[test]
fn apply_calls_a_procedure_on_the_tail_as_it_stands() {
    let mut ctx = base();
    let call = list(vec![ctx.get("list").unwrap(), sym("a"), sym("b")]);
    assert_eq!(ctx.apply(call), Ok(list(vec![sym("a"), sym("b")])));
}

#[test]
fn list_in_operator_position_is_evaluated() {
    let mut ctx = base();
    run(&mut ctx, "(define (pick) +)").unwrap();
    assert_eq!(
        ctx.apply(list(vec![list(vec![sym("pick")]), num(1.0), num(2.0)])),
        Ok(num(3.0))
    );
    assert_eq!(
        ctx.apply(list(vec![list(vec![sym("missing")]), num(1.0)])),
        Err(Error::UndefinedSymbol { sym: "missing".to_string() })
    );
    assert_eq!(
        run(&mut ctx, "((quote (pick)) 1 2)"),
        Ok(num(3.0))
    );
}

#[test]
fn continuation_node_is_visible_during_the_call() {
    let mut ctx = base();
    let mut env = Env::new();
    env.insert("captured".to_string(), num(42.0));
    let peek = SExp::Atom(Primitive::Procedure(Proc::new(
        Func::Ctx(Code::Host(Rc::new(Native::Ctx(Box::new(|ctx: &mut Ctx, _| {
            Ok(ctx.get("captured").unwrap())
        }))))),
        Arity::Exact(0),
        Some("peek".to_string()),
        Some(Rc::new(env)),
    )));
    ctx.define("peek", peek);
    assert_eq!(ctx.get("captured"), None);
    assert_eq!(run(&mut ctx, "(peek)"), Ok(num(42.0)));
    assert_eq!(ctx.get("captured"), None);
}

#[test]
fn continuation_node_is_popped_when_the_call_fails() {
    let mut ctx = base();
    let mut env = Env::new();
    env.insert("captured".to_string(), num(42.0));
    let fail = SExp::Atom(Primitive::Procedure(Proc::new(
        Func::Pure(Rc::new(Native::Pure(Box::new(|_| Err(type_error("failed")))))),
        Arity::Min(0),
        None,
        Some(Rc::new(env)),
    )));
    ctx.define("fail", fail);
    assert_eq!(run(&mut ctx, "(fail 1 2)"), Err(type_error("failed")));
    assert_eq!(ctx.get("captured"), None);
    assert_eq!(run(&mut ctx, "(+ 1 2)"), Ok(num(3.0)));
}

#[test]
fn call_without_captured_bindings_keeps_the_callers_node() {
    let mut ctx = base();
    let mut env = Env::new();
    env.insert("captured".to_string(), num(42.0));
    let code = |ctx: &mut Ctx, _: Value| {
        let before = ctx.get("captured");
        ctx.eval(list(vec![sym("+"), num(1.0)]))?;
        ctx.eval(list(vec![sym("quote"), num(1.0)]))?;
        let after = ctx.get("captured");
        Ok(list(vec![before.unwrap_or(SExp::Null), after.unwrap_or(SExp::Null)]))
    };
    let outer = SExp::Atom(Primitive::Procedure(Proc::new(
        Func::Ctx(Code::Host(Rc::new(Native::Ctx(Box::new(code))))),
        Arity::Exact(0),
        None,
        Some(Rc::new(env)),
    )));
    ctx.define("outer", outer);
    assert_eq!(run(&mut ctx, "(outer)"), Ok(list(vec![num(42.0), num(42.0)])));
    assert_eq!(ctx.get("captured"), None);
}

#[test]
fn closure_keeps_its_bindings_through_calls_in_its_body() {
    let mut ctx = base();
    let program = "
        (define (make-scaler k) (lambda (x) (+ (* k x) (* k 1) k)))
        (define triple (make-scaler 3))
        (triple 5)
    ";
    assert_eq!(run(&mut ctx, program), Ok(num(21.0)));
    assert_eq!(ctx.get("k"), None);
}

#[test]
fn runaway_recursion_is_stopped() {
    let mut ctx = base();
    run(&mut ctx, "(define (forever n) (forever (+ n 1)))").unwrap();
    assert_eq!(run(&mut ctx, "(forever 0)"), Err(Error::DepthExceeded));
    assert_eq!(ctx.remaining_depth(), 256);
    assert_eq!(run(&mut ctx, "(+ 1 2)"), Ok(num(3.0)));
}

#[test]
fn depth_counts_nested_applications() {
    let mut ctx = base();
    ctx.set_depth(0);
    assert_eq!(run(&mut ctx, "5"), Ok(num(5.0)));
    assert_eq!(run(&mut ctx, "(+ 1 2)"), Err(Error::DepthExceeded));
    ctx.set_depth(1);
    assert_eq!(run(&mut ctx, "(+ 1 2)"), Ok(num(3.0)));
    assert_eq!(run(&mut ctx, "(+ 1 (+ 1 1))"), Err(Error::DepthExceeded));
    ctx.set_depth(2);
    assert_eq!(run(&mut ctx, "(+ 1 (+ 1 1) (+ 2 2))"), Ok(num(7.0)));
    assert_eq!(ctx.remaining_depth(), 2);
}

#[test]
fn procedure_that_changes_the_depth_does_not_change_the_callers() {
    let mut ctx = base();
    ctx.define_lang(
        "deeper!",
        special(Arity::Exact(0), |ctx, _| {
            ctx.set_depth(100000);
            Ok(SExp::undefined())
        }),
    );
    assert_eq!(run(&mut ctx, "(deeper!)"), Ok(SExp::undefined()));
    assert_eq!(ctx.remaining_depth(), 256);
}

#[test]
fn run_in_a_context_that_is_used_up() {
    assert!(parsley::run(base(), &tokens("x").unwrap()).is_err());
    assert_eq!(parsley::run(base(), &tokens("null").unwrap()), Ok(SExp::Null));
    assert_eq!(parsley::run(base(), &tokens("(null? '())").unwrap()), Ok(SExp::from(true)));
    assert_eq!(
        parsley::run(base(), &tokens("(* (+ 3 4 5) (- 5 2))").unwrap()),
        parsley::run(base(), &tokens("36").unwrap())
    );
    assert_eq!(
        parsley::run(Ctx::default(), &tokens("(").unwrap()),
        Err(Error::Syntax { exp: "(".to_string() })
    );
}

#[test]
fn defined_function_returns_its_second_argument() {
    let mut ctx = base();
    assert_eq!(run(&mut ctx, "(define (potato x y) y)"), Ok(SExp::undefined()));
    assert_eq!(run(&mut ctx, "(potato #t 5)"), Ok(num(5.0)));
    assert_eq!(
        run(&mut ctx, "(potato #t)"),
        Err(Error::Arity { expected: 2, given: 1 })
    );
}

fn form(ctx: &Ctx, name: &str) -> Form {
    match ctx.get(name) {
        Some(SExp::Atom(Primitive::Procedure(proc))) => match proc.func {
            Func::Ctx(Code::Form(form)) => {
                assert_eq!(proc.name.as_deref(), Some(name));
                assert_eq!(proc.arity, form.arity());
                assert_eq!(form.name(), name);
                assert!(proc.env.is_none());
                form
            }
            _ => panic!("{} is no special form", name),
        },
        other => panic!("{} is bound to {:?}", name, other),
    }
}

#[test]
fn default_context_has_the_special_forms() {
    let ctx = Ctx::default();
    assert_eq!(form(&ctx, "quote"), Form::Quote);
    assert_eq!(form(&ctx, "define"), Form::Define);
    assert_eq!(form(&ctx, "set!"), Form::Assign);
    assert_eq!(form(&ctx, "lambda"), Form::Lambda);
    assert_eq!(form(&ctx, "if"), Form::If);
    assert_eq!(form(&ctx, "begin"), Form::Begin);
    assert_eq!(Ctx::forms().len(), 6);
    assert_eq!(ctx.get("car"), None);
}

#[test]
fn define_does_not_shadow_a_special_form() {
    let mut ctx = Ctx::default();
    assert_eq!(form(&ctx, "if"), Form::If);
    ctx.define("if", num(5.0));
    assert_eq!(form(&ctx, "if"), Form::If);
    assert_ne!(ctx.get("if"), Some(num(5.0)));
    assert_eq!(ctx.get_user("if"), Some(num(5.0)));
}

#[test]
fn set_of_a_special_form_fails() {
    let mut ctx = Ctx::default();
    assert_eq!(
        ctx.set("if", num(5.0)),
        Err(Error::UndefinedSymbol { sym: "if".to_string() })
    );
    assert_eq!(form(&ctx, "if"), Form::If);
    assert_eq!(ctx.get_user("if"), None);
    assert_eq!(
        run(&mut ctx, "(set! if 5)"),
        Err(Error::UndefinedSymbol { sym: "if".to_string() })
    );
    assert_eq!(form(&ctx, "if"), Form::If);
}

#[test]
fn special_forms_need_no_library() {
    let mut ctx = Ctx::default();
    assert_eq!(run(&mut ctx, "(define x 3)"), Ok(SExp::undefined()));
    assert_eq!(run(&mut ctx, "(if #f 1 x)"), Ok(num(3.0)));
    assert_eq!(run(&mut ctx, "((lambda (a b) b) 1 2)"), Ok(num(2.0)));
    assert_eq!(run(&mut ctx, "(begin 1 2 3)"), Ok(num(3.0)));
    assert_eq!(run(&mut ctx, "(quote (a b))"), Ok(list(vec![sym("a"), sym("b")])));
}

#[test]
fn quote_yields_its_argument_as_it_stands() {
    let mut ctx = base();
    assert_eq!(run(&mut ctx, "'missing"), Ok(sym("missing")));
    assert_eq!(run(&mut ctx, "'(+ 1 2)"), Ok(list(vec![sym("+"), num(1.0), num(2.0)])));
    assert_eq!(run(&mut ctx, "(quote)"), Err(Error::Arity { expected: 1, given: 0 }));
    assert_eq!(run(&mut ctx, "(quote a b)"), Err(Error::Arity { expected: 1, given: 2 }));
}

#[test]
fn begin_yields_the_last_value() {
    let mut ctx = base();
    assert_eq!(run(&mut ctx, "(begin)"), Ok(SExp::undefined()));
    assert_eq!(run(&mut ctx, "(begin (define a 1) (+ a 1))"), Ok(num(2.0)));
    assert_eq!(
        run(&mut ctx, "(begin (define b 1) missing (define c 1))"),
        Err(Error::UndefinedSymbol { sym: "missing".to_string() })
    );
    assert_eq!(ctx.get("b"), Some(num(1.0)));
    assert_eq!(ctx.get("c"), None);
}

#[test]
fn if_treats_everything_but_false_as_true() {
    let mut ctx = base();
    assert_eq!(run(&mut ctx, "(if 0 1 2)"), Ok(num(1.0)));
    assert_eq!(run(&mut ctx, "(if '() 1 2)"), Ok(num(1.0)));
    assert_eq!(run(&mut ctx, "(if \"\" 1 2)"), Ok(num(1.0)));
    assert_eq!(run(&mut ctx, "(if #f 1 2)"), Ok(num(2.0)));
    assert_eq!(run(&mut ctx, "(if (= 1 2) 1 2)"), Ok(num(2.0)));
    assert_eq!(
        run(&mut ctx, "(if missing (define a 1) (define b 2))"),
        Err(Error::UndefinedSymbol { sym: "missing".to_string() })
    );
    assert_eq!(ctx.get("a"), None);
    assert_eq!(ctx.get("b"), None);
    assert_eq!(run(&mut ctx, "(if #t 1)"), Err(Error::Arity { expected: 3, given: 2 }));
}

#[test]
fn malformed_special_forms_are_syntax_errors() {
    let mut ctx = base();
    let syntax = |name: &str| Err(Error::Syntax { exp: name.to_string() });
    assert_eq!(run(&mut ctx, "(define 5 1)"), syntax("define"));
    assert_eq!(run(&mut ctx, "(define (5 x) x)"), syntax("define"));
    assert_eq!(run(&mut ctx, "(define (f 5) 5)"), syntax("define"));
    assert_eq!(run(&mut ctx, "(define \"x\" 1)"), syntax("define"));
    assert_eq!(run(&mut ctx, "(set! 5 1)"), syntax("set!"));
    assert_eq!(run(&mut ctx, "(set! (x) (define y 1))"), syntax("set!"));
    assert_eq!(ctx.get("y"), None);
    assert_eq!(run(&mut ctx, "(lambda (x 5) x)"), syntax("lambda"));
    assert_eq!(run(&mut ctx, "(define x)"), Err(Error::Arity { expected: 2, given: 1 }));
    assert_eq!(run(&mut ctx, "(lambda (x))"), Err(Error::Arity { expected: 2, given: 1 }));
    assert_eq!(
        ctx.run_form(Form::Define, list(vec![sym("x")])),
        syntax("define")
    );
    assert_eq!(ctx.run_form(Form::If, list(vec![num(1.0)])), syntax("if"));
    assert_eq!(ctx.run_form(Form::Quote, SExp::Null), syntax("quote"));
    assert_eq!(ctx.run_form(Form::Lambda, SExp::Null), syntax("lambda"));
    assert_eq!(ctx.run_form(Form::Assign, list(vec![sym("x")])), syntax("set!"));
    assert_eq!(ctx.run_form(Form::Begin, SExp::Null), Ok(SExp::undefined()));
}

#[test]
fn lambda_makes_a_procedure_of_its_parameters() {
    let mut ctx = base();
    ctx.define("k", num(10.0));
    match run(&mut ctx, "(lambda (x y) (+ x y k missing))") {
        Ok(SExp::Atom(Primitive::Procedure(proc))) => {
            assert_eq!(proc.arity, Arity::Exact(2));
            assert_eq!(proc.name, None);
            let env = proc.env.expect("a procedure captures bindings");
            assert_eq!(env.get("k"), Some(&num(10.0)));
            assert_eq!(env.len(), 1);
            match proc.func {
                Func::Ctx(Code::Lambda(lambda)) => {
                    assert_eq!(lambda.params, vec!["x".to_string(), "y".to_string()]);
                    assert_eq!(lambda.body.len(), 1);
                }
                _ => panic!("not a body with parameters"),
            }
        }
        other => panic!("not a procedure: {:?}", other),
    }
    assert_eq!(run(&mut ctx, "((lambda () 7))"), Ok(num(7.0)));
    assert_eq!(
        run(&mut ctx, "((lambda (x) x) 1 2)"),
        Err(Error::Arity { expected: 1, given: 2 })
    );
}

#[test]
fn lambda_does_not_capture_its_parameters() {
    let mut ctx = base();
    ctx.define("x", num(1.0));
    ctx.define("y", num(2.0));
    match ctx.lambda(vec!["x".to_string()], vec![list(vec![sym("+"), sym("x"), sym("y")])], None) {
        SExp::Atom(Primitive::Procedure(proc)) => {
            let env = proc.env.unwrap();
            assert_eq!(env.get("x"), None);
            assert_eq!(env.get("y"), Some(&num(2.0)));
            assert_eq!(env.get("+"), None);
        }
        other => panic!("not a procedure: {:?}", other),
    }
}

#[test]
fn procedure_pops_its_scope_when_its_body_fails() {
    let mut ctx = base();
    run(&mut ctx, "(define (broken x) (define inner x) missing)").unwrap();
    assert_eq!(
        run(&mut ctx, "(broken 1)"),
        Err(Error::UndefinedSymbol { sym: "missing".to_string() })
    );
    assert_eq!(ctx.get("inner"), None);
    assert_eq!(ctx.get("x"), None);
    assert_eq!(
        run(&mut ctx, "(broken missing)"),
        Err(Error::UndefinedSymbol { sym: "missing".to_string() })
    );
}

#[test]
fn bind_defines_parameters_as_far_as_both_go() {
    let mut ctx = Ctx::default();
    ctx.bind(&vec!["a".to_string(), "b".to_string(), "c".to_string()], &vec![num(1.0), num(2.0)]);
    assert_eq!(ctx.get("a"), Some(num(1.0)));
    assert_eq!(ctx.get("b"), Some(num(2.0)));
    assert_eq!(ctx.get("c"), None);
    ctx.bind(&vec!["a".to_string(), "a".to_string()], &vec![num(3.0), num(4.0), num(5.0)]);
    assert_eq!(ctx.get("a"), Some(num(4.0)));
}

#[test]
fn symbols_are_collected_in_their_order() {
    let exp = list(vec![sym("a"), list(vec![num(1.0), sym("b")]), SExp::Vector(vec![sym("v")]), sym("a")]);
    let mut names = vec!["z".to_string()];
    exp.collect_symbols(&mut names);
    assert_eq!(names, vec!["z", "a", "b", "a"]);
    assert_eq!(
        SExp::symbol_names(&vec![sym("x"), sym("y")]),
        Some(vec!["x".to_string(), "y".to_string()])
    );
    assert_eq!(SExp::symbol_names(&vec![sym("x"), num(1.0)]), None);
    assert_eq!(SExp::<Native>::symbol_names(&vec![]), Some(vec![]));
}

#[test]
fn eval_all_evaluates_copies() {
    let mut ctx = base();
    let exps = vec![list(vec![sym("+"), num(1.0), num(2.0)]), num(4.0)];
    assert_eq!(ctx.eval_all(&exps), Ok(vec![num(3.0), num(4.0)]));
    assert_eq!(exps.len(), 2);
    assert_eq!(
        ctx.eval_all(&vec![num(1.0), sym("missing"), num(2.0)]),
        Err(Error::UndefinedSymbol { sym: "missing".to_string() })
    );
    assert!(num(1.0).is_false() == false);
    assert!(Value::from(false).is_false());
    assert!(!Value::from(true).is_false());
}
