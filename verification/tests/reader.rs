use parsley::context::DEFAULT_DEPTH;
use parsley::literal::symbol_char;
use parsley::reader::characters;
use parsley::{tokenize, Callable, Context, Error, Primitive, SExp, Token};

#[derive(Debug)]
struct NoCode;

impl Callable for NoCode {
    fn call_pure(&self, args: SExp<NoCode>) -> Result<SExp<NoCode>, Error> {
        Ok(args)
    }

    fn call_ctx(&self, _ctx: &mut Context<NoCode>, args: SExp<NoCode>) -> Result<SExp<NoCode>, Error> {
        Ok(args)
    }
}

type Value = SExp<NoCode>;
type Atom = Primitive<NoCode>;

fn num(x: f64) -> Value {
    SExp::number(x.to_bits())
}

fn sym(name: &str) -> Value {
    SExp::sym(name)
}

fn list(items: Vec<Value>) -> Value {
    SExp::list(items)
}

fn syntax(exp: &str) -> Error {
    Error::Syntax { exp: exp.to_string() }
}

fn texts(text: &str) -> Result<Vec<String>, Error> {
    Ok(tokenize(text)?.into_iter().map(|token| token.text).collect())
}

fn atom(text: &str) -> Result<Atom, Error> {
    Primitive::from_literal(text, text.parse::<f64>().ok().map(f64::to_bits))
}

fn read(text: &str) -> Result<Value, Error> {
    let mut tokens = tokenize(text)?;
    for token in tokens.iter_mut() {
        token.number = token.text.parse::<f64>().ok().map(f64::to_bits);
    }
    SExp::read(&tokens, DEFAULT_DEPTH)
}

#[test]
fn characters_of_a_text() {
    assert_eq!(characters(""), Vec::<char>::new());
    assert_eq!(characters("a(é"), vec!['a', '(', 'é']);
}

#[test]
fn tokenize_cuts_at_blanks_and_parentheses() {
    assert_eq!(texts("(+ 1 2)"), Ok(vec!["(", "+", "1", "2", ")"].into_iter().map(String::from).collect()));
    assert_eq!(texts("  a\tb\nc\r\n"), Ok(vec!["a".to_string(), "b".to_string(), "c".to_string()]));
    assert_eq!(texts("(a(b)c)"), Ok(vec!["(", "a", "(", "b", ")", "c", ")"].into_iter().map(String::from).collect()));
    assert_eq!(texts(""), Ok(vec![]));
    assert_eq!(texts(" \n "), Ok(vec![]));
}

#[test]
fn tokenize_leaves_numbers_empty() {
    let tokens = tokenize("1 x").unwrap();
    assert_eq!(tokens.len(), 2);
    assert!(tokens.iter().all(|token| token.number.is_none()));
}

#[test]
fn tokenize_keeps_string_literals_whole() {
    assert_eq!(
        texts("(display \"hello (world) ; no comment\")"),
        Ok(vec!["(", "display", "\"hello (world) ; no comment\"", ")"].into_iter().map(String::from).collect())
    );
    assert_eq!(texts("\"\""), Ok(vec!["\"\"".to_string()]));
    assert_eq!(texts("\"a\"\"b\""), Ok(vec!["\"a\"".to_string(), "\"b\"".to_string()]));
}

#[test]
fn tokenize_rejects_an_open_string_literal() {
    assert_eq!(texts("(a \"bc d)"), Err(syntax("\"bc d)")));
    assert_eq!(texts("\""), Err(syntax("\"")));
}

#[test]
fn tokenize_skips_comments() {
    assert_eq!(texts("a ; b c\nd"), Ok(vec!["a".to_string(), "d".to_string()]));
    assert_eq!(texts("; only"), Ok(vec![]));
    assert_eq!(texts(";\n;\nx"), Ok(vec!["x".to_string()]));
    assert_eq!(texts("a;b"), Ok(vec!["a;b".to_string()]));
}

#[test]
fn tokenize_takes_quote_marks_one_by_one() {
    assert_eq!(texts("'a"), Ok(vec!["'".to_string(), "a".to_string()]));
    assert_eq!(texts("''()"), Ok(vec!["'", "'", "(", ")"].into_iter().map(String::from).collect()));
    assert_eq!(texts("a'b"), Ok(vec!["a'b".to_string()]));
}

#[test]
fn token_is_a_mark() {
    let token = Token { text: "(".to_string(), number: None };
    assert!(token.is('('));
    assert!(!token.is(')'));
    let token = Token { text: "((".to_string(), number: None };
    assert!(!token.is('('));
    let token = Token { text: String::new(), number: None };
    assert!(!token.is('('));
}

#[test]
fn booleans() {
    assert_eq!(atom("#t"), Ok(Primitive::Boolean(true)));
    assert_eq!(atom("#f"), Ok(Primitive::Boolean(false)));
    assert_eq!(Atom::from_literal("#t", Some(1)), Ok(Primitive::Boolean(true)));
}

#[test]
fn numbers() {
    assert_eq!(atom("36"), Ok(Primitive::Number(36.0f64.to_bits())));
    assert_eq!(atom("-2.5"), Ok(Primitive::Number((-2.5f64).to_bits())));
    assert_eq!(atom("1e3"), Ok(Primitive::Number(1000.0f64.to_bits())));
    assert_eq!(Atom::from_literal("anything", Some(7)), Ok(Primitive::Number(7)));
    assert_eq!(Atom::from_literal("\"x\"", Some(7)), Ok(Primitive::Number(7)));
}

#[test]
fn character_literals() {
    assert_eq!(atom("#\\a"), Ok(Primitive::Character('a')));
    assert_eq!(atom("#\\("), Ok(Primitive::Character('(')));
    assert_eq!(atom("#\\\""), Ok(Primitive::Character('"')));
    assert_eq!(atom("#\\\x7f"), Ok(Primitive::Character('\x7f')));
    assert_eq!(atom("#\\é"), Err(syntax("#\\é")));
    assert_eq!(atom("#\\ab"), Err(syntax("#\\ab")));
    assert_eq!(atom("#\\"), Err(syntax("#\\")));
}

#[test]
fn string_literals() {
    assert_eq!(atom("\"potato\""), Ok(Primitive::String("potato".to_string())));
    assert_eq!(atom("\"\""), Ok(Primitive::String(String::new())));
    assert_eq!(atom("\"a b(c)\""), Ok(Primitive::String("a b(c)".to_string())));
    assert_eq!(atom("\"é\""), Ok(Primitive::String("é".to_string())));
    assert_eq!(atom("\""), Err(syntax("\"")));
    assert_eq!(atom("\"a\"b\""), Err(syntax("\"a\"b\"")));
    assert_eq!(atom("\"abc"), Err(syntax("\"abc")));
    assert_eq!(atom("abc\""), Err(syntax("abc\"")));
}

#[test]
fn symbols() {
    assert_eq!(atom("potato"), Ok(Primitive::Symbol("potato".to_string())));
    assert_eq!(atom("sum-of-squares"), Ok(Primitive::Symbol("sum-of-squares".to_string())));
    assert_eq!(atom("null?"), Ok(Primitive::Symbol("null?".to_string())));
    assert_eq!(atom("set!"), Ok(Primitive::Symbol("set!".to_string())));
    assert_eq!(atom("+"), Ok(Primitive::Symbol("+".to_string())));
    assert_eq!(atom("-"), Ok(Primitive::Symbol("-".to_string())));
    assert_eq!(atom("<="), Ok(Primitive::Symbol("<=".to_string())));
    assert_eq!(atom("x1"), Ok(Primitive::Symbol("x1".to_string())));
    assert_eq!(atom(""), Ok(Primitive::Symbol(String::new())));
    assert_eq!(atom("#t2"), Err(syntax("#t2")));
    assert_eq!(atom("a,b"), Err(syntax("a,b")));
    assert_eq!(atom("a b"), Err(syntax("a b")));
    assert_eq!(atom("é"), Err(syntax("é")));
    assert_eq!(atom("[a]"), Err(syntax("[a]")));
}

#[test]
fn symbol_characters() {
    for c in "abcxyzABCXYZ0189!$%&*/:<=>?^_~+-.@".chars() {
        assert!(symbol_char(c), "{:?}", c);
    }
    for c in " \t\n()[]{}\"',;`#|\\é\0".chars() {
        assert!(!symbol_char(c), "{:?}", c);
    }
}

#[test]
fn read_atoms() {
    assert_eq!(read("36"), Ok(num(36.0)));
    assert_eq!(read("#t"), Ok(SExp::from(true)));
    assert_eq!(read("x"), Ok(sym("x")));
    assert_eq!(read("\"a b\""), Ok(SExp::from("a b")));
    assert_eq!(read("#\\a"), Ok(SExp::from('a')));
}

#[test]
fn read_lists() {
    assert_eq!(read("()"), Ok(SExp::Null));
    assert_eq!(read("(a)"), Ok(list(vec![sym("a")])));
    assert_eq!(
        read("(* (+ 3 4 5) (- 5 2))"),
        Ok(list(vec![
            sym("*"),
            list(vec![sym("+"), num(3.0), num(4.0), num(5.0)]),
            list(vec![sym("-"), num(5.0), num(2.0)]),
        ]))
    );
    assert_eq!(read("(())"), Ok(list(vec![SExp::Null])));
    assert_eq!(read("(a () b)"), Ok(list(vec![sym("a"), SExp::Null, sym("b")])));
}

#[test]
fn read_quote_marks() {
    assert_eq!(read("'a"), Ok(list(vec![sym("quote"), sym("a")])));
    assert_eq!(read("'()"), Ok(list(vec![sym("quote"), SExp::Null])));
    assert_eq!(
        read("(null? '(1))"),
        Ok(list(vec![sym("null?"), list(vec![sym("quote"), list(vec![num(1.0)])])]))
    );
    assert_eq!(
        read("''a"),
        Ok(list(vec![sym("quote"), list(vec![sym("quote"), sym("a")])]))
    );
}

#[test]
fn read_several_expressions() {
    assert_eq!(read("a b"), Ok(list(vec![sym("begin"), sym("a"), sym("b")])));
    assert_eq!(read("(a) (b)"), Ok(list(vec![sym("begin"), list(vec![sym("a")]), list(vec![sym("b")])])));
    assert_eq!(read(""), Ok(list(vec![sym("begin")])));
}

#[test]
fn read_rejects_unbalanced_parentheses() {
    assert_eq!(read("(a b"), Err(syntax("(")));
    assert_eq!(read("(a (b)"), Err(syntax("(")));
    assert_eq!(read("("), Err(syntax("(")));
    assert_eq!(read(")"), Err(syntax(")")));
    assert_eq!(read("(a))"), Err(syntax(")")));
    assert_eq!(read("'"), Err(syntax("")));
    assert_eq!(read("(a ')"), Err(syntax(")")));
}

#[test]
fn read_rejects_bad_atoms() {
    assert_eq!(read("(a #bad)"), Err(syntax("#bad")));
    assert_eq!(read("[a]"), Err(syntax("[a]")));
}

#[test]
fn read_nests_no_deeper_than_allowed() {
    let tokens = tokenize("((a))").unwrap();
    assert_eq!(SExp::<NoCode>::read(&tokens, 1), Err(Error::DepthExceeded));
    assert_eq!(SExp::<NoCode>::read(&tokens, 2), Ok(list(vec![list(vec![sym("a")])])));
    let tokens = tokenize("''a").unwrap();
    assert_eq!(SExp::<NoCode>::read(&tokens, 1), Err(Error::DepthExceeded));
    let tokens = tokenize("a").unwrap();
    assert_eq!(SExp::<NoCode>::read(&tokens, 0), Ok(sym("a")));
    let deep = "(".repeat(100000);
    assert_eq!(read(&deep), Err(Error::DepthExceeded));
}

#[test]
fn read_at_says_where_the_next_expression_starts() {
    let tokens = tokenize("(a b) c").unwrap();
    assert_eq!(SExp::<NoCode>::read_at(&tokens, 0, 8), Ok((list(vec![sym("a"), sym("b")]), 4)));
    assert_eq!(SExp::<NoCode>::read_at(&tokens, 1, 8), Ok((sym("a"), 2)));
    assert_eq!(SExp::<NoCode>::read_at(&tokens, 4, 8), Ok((sym("c"), 5)));
    assert_eq!(SExp::<NoCode>::read_at(&tokens, 5, 8), Err(syntax("")));
    assert_eq!(SExp::<NoCode>::read_at(&tokens, 3, 8), Err(syntax(")")));
}
