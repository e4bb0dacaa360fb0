//! From source text to expressions.

use crate::context::{outcome, Outcome};
use crate::error::{Error, ErrorView};
use crate::list::{list_of, models};
use crate::literal::literal;
use crate::sexp::{Primitive, PrimitiveView, SExp, SExpView};
use vstd::prelude::*;
use vstd::std_specs::iter::IteratorSpec;
use vstd::string::StrSliceExecFns;

verus! {

broadcast use vstd::string::group_string_axioms;

/// The characters of a text, one by one.
pub fn characters(text: &str) -> (chars: Vec<char>)
    ensures
        chars@ == text@,
{
    let mut chars: Vec<char> = Vec::new();
    let mut rest = text.chars();
    loop
        invariant
            chars@ + rest.remaining() == text@,
            rest.obeys_prophetic_iter_laws(),
            rest.decrease() is Some,
        decreases rest.decrease()->0,
    {
        let ghost before = rest;
        match rest.next() {
            Some(c) => {
                chars.push(c);
                proof {
                    assert(chars@ + rest.remaining() =~= text@);
                }
            },
            None => {
                proof {
                    assert(chars@ + rest.remaining() =~= chars@);
                }
                return chars;
            },
        }
    }
}

/// A piece of source text: a parenthesis, a quote mark, a string literal
/// with its quotes, or a word.
#[derive(Debug)]
pub struct Token {
    /// The characters of the piece.
    pub text: String,
    /// The number that the piece denotes, if it denotes one. The tokenizer
    /// leaves this empty: decimal notation is read elsewhere.
    pub number: Option<u64>,
}

/// The mathematical value of a [`Token`].
pub struct TokenView {
    pub text: Seq<char>,
    pub number: Option<u64>,
}

impl View for Token {
    type V = TokenView;

    open spec fn view(&self) -> TokenView {
        TokenView { text: self.text@, number: self.number }
    }
}

/// The values of a sequence of tokens.
pub open spec fn token_views(tokens: Seq<Token>) -> Seq<TokenView> {
    Seq::new(tokens.len(), |i: int| tokens[i]@)
}

/// The character separates words and is otherwise ignored.
pub open spec fn is_blank(c: char) -> bool {
    c == ' ' || c == '\t' || c == '\n' || c == '\r'
}

/// The character is a piece of its own.
pub open spec fn is_mark(c: char) -> bool {
    c == '(' || c == ')' || c == '\''
}

/// What a run of characters stops at.
pub enum Stop {
    /// The end of the line.
    Line,
    /// A double quote.
    Quote,
    /// A blank or a parenthesis.
    Word,
}

/// The character ends a run of the given kind.
pub open spec fn stops(kind: Stop, c: char) -> bool {
    match kind {
        Stop::Line => c == '\n',
        Stop::Quote => c == '"',
        Stop::Word => is_blank(c) || c == '(' || c == ')',
    }
}

/// The number of characters from index `from` on that come before the
/// first that ends the run, or before the end of the text.
pub open spec fn run_length(text: Seq<char>, from: int, kind: Stop) -> nat
    decreases text.len() - from,
{
    if from < 0 || from >= text.len() || stops(kind, text[from]) {
        0
    } else {
        1 + run_length(text, from + 1, kind)
    }
}

/// A run ends within the text.
pub proof fn lemma_run_within(text: Seq<char>, from: int, kind: Stop)
    requires
        0 <= from <= text.len(),
    ensures
        from + run_length(text, from, kind) <= text.len(),
    decreases text.len() - from,
{
    if from < text.len() && !stops(kind, text[from]) {
        lemma_run_within(text, from + 1, kind);
    }
}

/// The pieces of a text and what follows them, as one result.
pub open spec fn then_pieces(
    piece: Seq<char>,
    rest: Result<Seq<Seq<char>>, ErrorView>,
) -> Result<Seq<Seq<char>>, ErrorView> {
    match rest {
        Ok(pieces) => Ok(seq![piece] + pieces),
        Err(e) => Err(e),
    }
}

/// The pieces of the text from index `from` on.
///
/// Blanks separate pieces. A semicolon starts a comment, which runs to the
/// end of the line. A parenthesis and a quote mark are pieces of their own.
/// A double quote starts a string literal, which runs to the next double
/// quote; a literal that is not closed is a syntax error. Anything else
/// starts a word, which runs to the next blank or parenthesis.
pub open spec fn pieces(text: Seq<char>, from: int) -> Result<Seq<Seq<char>>, ErrorView>
    decreases text.len() - from,
{
    if from < 0 || from >= text.len() {
        Ok(Seq::empty())
    } else {
        let c = text[from];
        if is_blank(c) {
            pieces(text, from + 1)
        } else if c == ';' {
            proof {
                lemma_run_within(text, from + 1, Stop::Line);
            }
            pieces(text, from + 1 + run_length(text, from + 1, Stop::Line))
        } else if is_mark(c) {
            then_pieces(seq![c], pieces(text, from + 1))
        } else if c == '"' {
            let close = from + 1 + run_length(text, from + 1, Stop::Quote);
            if close >= text.len() {
                Err(ErrorView::Syntax { exp: text.subrange(from, text.len() as int) })
            } else {
                then_pieces(text.subrange(from, close + 1), pieces(text, close + 1))
            }
        } else {
            let end = from + 1 + run_length(text, from + 1, Stop::Word);
            proof {
                lemma_run_within(text, from + 1, Stop::Word);
            }
            then_pieces(text.subrange(from, end), pieces(text, end))
        }
    }
}

/// The tokens of a text, as mathematical values: its pieces, none of them
/// with a number.
pub open spec fn tokens_of(text: Seq<char>) -> Result<Seq<TokenView>, ErrorView> {
    match pieces(text, 0) {
        Ok(found) => Ok(Seq::new(found.len(), |i: int| TokenView { text: found[i], number: None })),
        Err(e) => Err(e),
    }
}

/// The value of the result of cutting a text into tokens.
pub open spec fn tokens_view(result: Result<Vec<Token>, Error>) -> Result<Seq<TokenView>, ErrorView> {
    match result {
        Ok(tokens) => Ok(token_views(tokens@)),
        Err(e) => Err(e@),
    }
}

/// Decides whether a character ends a run.
fn stops_at(kind: &Stop, c: char) -> (stop: bool)
    ensures
        stop == stops(*kind, c),
{
    match kind {
        Stop::Line => c == '\n',
        Stop::Quote => c == '"',
        Stop::Word => c == ' ' || c == '\t' || c == '\n' || c == '\r' || c == '(' || c == ')',
    }
}

/// The index of the first character from `from` on that ends the run, or
/// the length of the text.
fn run_end(chars: &Vec<char>, from: usize, kind: Stop) -> (end: usize)
    requires
        from <= chars@.len(),
    ensures
        end == from + run_length(chars@, from as int, kind),
        from <= end <= chars@.len(),
{
    let mut end: usize = from;
    while end < chars.len() && !stops_at(&kind, chars[end])
        invariant
            from <= end <= chars@.len(),
            run_length(chars@, from as int, kind) == (end - from) + run_length(
                chars@,
                end as int,
                kind,
            ),
        decreases chars@.len() - end,
    {
        end += 1;
    }
    end
}

/// Cuts a text into tokens.
pub fn tokenize(text: &str) -> (result: Result<Vec<Token>, Error>)
    ensures
        tokens_view(result) == tokens_of(text@),
{
    let chars = characters(text);
    let n = chars.len();
    let mut tokens: Vec<Token> = Vec::new();
    let ghost mut found: Seq<Seq<char>> = Seq::empty();
    let mut at: usize = 0;
    proof {
        assert(then_all(found, pieces(text@, 0)) == pieces(text@, 0)) by {
            match pieces(text@, 0) {
                Ok(rest) => assert(found + rest =~= rest),
                Err(e) => {},
            }
        }
    }
    while at < n
        invariant
            chars@ == text@,
            n == chars@.len(),
            at <= n,
            tokens@.len() == found.len(),
            forall|i: int|
                0 <= i < found.len() ==> (#[trigger] tokens@[i])@ == (TokenView {
                    text: found[i],
                    number: None,
                }),
            pieces(text@, 0) == then_all(found, pieces(text@, at as int)),
        decreases n - at,
    {
        let c = chars[at];
        let start = at;
        if c == ' ' || c == '\t' || c == '\n' || c == '\r' {
            at += 1;
            continue ;
        } else if c == ';' {
            at = run_end(&chars, at + 1, Stop::Line);
            continue ;
        } else if c == '(' || c == ')' || c == '\'' {
            at += 1;
        } else if c == '"' {
            let close = run_end(&chars, at + 1, Stop::Quote);
            if close >= n {
                let rest = text.substring_char(start, n);
                return Err(Error::Syntax { exp: rest.to_owned() });
            }
            at = close + 1;
        } else {
            at = run_end(&chars, at + 1, Stop::Word);
        }
        let piece = text.substring_char(start, at);
        proof {
            let rest = pieces(text@, at as int);
            assert(pieces(text@, start as int) == then_pieces(piece@, rest)) by {
                if is_mark(c) {
                    assert(piece@ =~= seq![c]);
                }
            }
            match rest {
                Ok(more) => {
                    assert(found + (seq![piece@] + more) =~= found.push(piece@) + more);
                },
                Err(e) => {},
            }
            found = found.push(piece@);
        }
        tokens.push(Token { text: piece.to_owned(), number: None });
    }
    proof {
        assert(found + Seq::<Seq<char>>::empty() =~= found);
        assert(token_views(tokens@) =~= Seq::new(
            found.len(),
            |i: int| TokenView { text: found[i], number: None },
        ));
    }
    Ok(tokens)
}

/// Pieces that were found, and what follows them, as one result.
pub open spec fn then_all(
    found: Seq<Seq<char>>,
    rest: Result<Seq<Seq<char>>, ErrorView>,
) -> Result<Seq<Seq<char>>, ErrorView> {
    match rest {
        Ok(pieces) => Ok(found + pieces),
        Err(e) => Err(e),
    }
}

/// An expression that was read, and the index of the token after it.
pub type Parsed<F> = Result<(SExpView<F>, int), ErrorView>;

/// The elements of a list that was read, and the index of the token after
/// its closing parenthesis.
pub type ParsedItems<F> = Result<(Seq<SExpView<F>>, int), ErrorView>;

/// The token is the given mark and nothing else.
pub open spec fn is_token(token: TokenView, mark: char) -> bool {
    token.text == seq![mark]
}

/// The form that a quote mark before `exp` stands for.
pub open spec fn quoted<F>(exp: SExpView<F>) -> SExpView<F> {
    list_of(seq![SExpView::Atom(PrimitiveView::Symbol("quote"@)), exp])
}

/// The expression that starts at token `at`.
///
/// An opening parenthesis starts a list, which runs to the closing
/// parenthesis that matches it. A quote mark before an expression stands
/// for the list of the symbol `quote` and that expression. Any other token
/// is an atom. Lists and quote marks may nest `depth` deep. The end of the
/// tokens, and a closing parenthesis that closes nothing, are syntax
/// errors.
pub open spec fn parse_expr<F>(tokens: Seq<TokenView>, at: int, depth: nat) -> Parsed<F>
    decreases depth, tokens.len() - at, 0nat,
{
    if at < 0 || at >= tokens.len() {
        Err(ErrorView::Syntax { exp: Seq::empty() })
    } else if is_token(tokens[at], '(') {
        if depth == 0 {
            Err(ErrorView::DepthExceeded)
        } else {
            match parse_items::<F>(tokens, at + 1, (depth - 1) as nat) {
                Ok((items, next)) => Ok((list_of(items), next)),
                Err(e) => Err(e),
            }
        }
    } else if is_token(tokens[at], ')') {
        Err(ErrorView::Syntax { exp: tokens[at].text })
    } else if is_token(tokens[at], '\'') {
        if depth == 0 {
            Err(ErrorView::DepthExceeded)
        } else {
            match parse_expr::<F>(tokens, at + 1, (depth - 1) as nat) {
                Ok((exp, next)) => Ok((quoted(exp), next)),
                Err(e) => Err(e),
            }
        }
    } else {
        match literal::<F>(tokens[at].text, tokens[at].number) {
            Ok(atom) => Ok((SExpView::Atom(atom), at + 1)),
            Err(e) => Err(e),
        }
    }
}

/// The elements of a list from token `at` on, up to the closing
/// parenthesis. A list that is not closed is a syntax error.
pub open spec fn parse_items<F>(tokens: Seq<TokenView>, at: int, depth: nat) -> ParsedItems<F>
    decreases depth, tokens.len() - at, 1nat,
{
    if at < 0 || at >= tokens.len() {
        Err(ErrorView::Syntax { exp: seq!['('] })
    } else if is_token(tokens[at], ')') {
        Ok((Seq::empty(), at + 1))
    } else {
        match parse_expr::<F>(tokens, at, depth) {
            Ok((first, next)) => {
                if at < next <= tokens.len() {
                    then_items(first, parse_items::<F>(tokens, next, depth))
                } else {
                    Err(ErrorView::Syntax { exp: Seq::empty() })
                }
            },
            Err(e) => Err(e),
        }
    }
}

/// An element and the elements after it, as one result.
pub open spec fn then_items<F>(first: SExpView<F>, rest: ParsedItems<F>) -> ParsedItems<F> {
    match rest {
        Ok((items, next)) => Ok((seq![first] + items, next)),
        Err(e) => Err(e),
    }
}

/// The expressions from token `at` to the end.
pub open spec fn parse_all<F>(tokens: Seq<TokenView>, at: int, depth: nat) -> Result<
    Seq<SExpView<F>>,
    ErrorView,
>
    decreases tokens.len() - at,
{
    if at < 0 || at >= tokens.len() {
        Ok(Seq::empty())
    } else {
        match parse_expr::<F>(tokens, at, depth) {
            Ok((first, next)) => {
                if at < next <= tokens.len() {
                    match parse_all::<F>(tokens, next, depth) {
                        Ok(rest) => Ok(seq![first] + rest),
                        Err(e) => Err(e),
                    }
                } else {
                    Err(ErrorView::Syntax { exp: Seq::empty() })
                }
            },
            Err(e) => Err(e),
        }
    }
}

/// One expression for a whole text: the expression itself where there is
/// one, and else the `begin` form of all of them.
pub open spec fn program<F>(exps: Seq<SExpView<F>>) -> SExpView<F> {
    if exps.len() == 1 {
        exps[0]
    } else {
        list_of(seq![SExpView::Atom(PrimitiveView::Symbol("begin"@))] + exps)
    }
}

/// What a sequence of tokens reads as.
pub open spec fn reads<F>(tokens: Seq<TokenView>, depth: nat) -> Outcome<F> {
    match parse_all::<F>(tokens, 0, depth) {
        Ok(exps) => Ok(program(exps)),
        Err(e) => Err(e),
    }
}

/// An expression that was read takes up at least one token, and no more
/// than there are.
pub proof fn lemma_parse_advances<F>(tokens: Seq<TokenView>, at: int, depth: nat)
    ensures
        parse_expr::<F>(tokens, at, depth) matches Ok((_, next)) ==> at < next <= tokens.len(),
        parse_items::<F>(tokens, at, depth) matches Ok((_, next)) ==> at < next <= tokens.len(),
    decreases depth, tokens.len() - at,
{
    if 0 <= at < tokens.len() {
        if depth > 0 {
            lemma_parse_advances::<F>(tokens, at + 1, (depth - 1) as nat);
        }
        if let Ok((first, next)) = parse_expr::<F>(tokens, at, depth) {
            if at < next <= tokens.len() {
                lemma_parse_advances::<F>(tokens, next, depth);
            }
        }
    }
}

/// The value of the result of reading one expression.
pub open spec fn parsed_view<F>(result: Result<(SExp<F>, usize), Error>) -> Parsed<F> {
    match result {
        Ok((exp, next)) => Ok((exp@, next as int)),
        Err(e) => Err(e@),
    }
}

impl Token {
    /// Whether the token is the given mark and nothing else.
    pub fn is(&self, mark: char) -> (same: bool)
        ensures
            same == is_token(self@, mark),
    {
        let text = self.text.as_str();
        let same = text.unicode_len() == 1 && text.get_char(0) == mark;
        proof {
            if same {
                assert(self@.text =~= seq![mark]);
            }
        }
        same
    }
}

impl<F> SExp<F> {
    /// Reads the expression that starts at token `at`, and says where the
    /// next one starts.
    pub fn read_at(tokens: &Vec<Token>, at: usize, depth: usize) -> (result: Result<
        (Self, usize),
        Error,
    >)
        ensures
            parsed_view(result) == parse_expr::<F>(token_views(tokens@), at as int, depth as nat),
            result matches Ok((_, next)) ==> at < next <= tokens@.len(),
        decreases depth,
    {
        let ghost views = token_views(tokens@);
        if at >= tokens.len() {
            return Err(Error::Syntax { exp: String::new() });
        }
        let token = &tokens[at];
        assert(views[at as int] == token@);
        if token.is('(') {
            if depth == 0 {
                return Err(Error::DepthExceeded);
            }
            let mut items: Vec<SExp<F>> = Vec::new();
            let mut cur: usize = at + 1;
            let ghost inner = (depth - 1) as nat;
            proof {
                assert(then_all_items(models(items@), parse_items::<F>(views, cur as int, inner))
                    == parse_items::<F>(views, cur as int, inner)) by {
                    match parse_items::<F>(views, cur as int, inner) {
                        Ok((more, next)) => assert(models(items@) + more =~= more),
                        Err(e) => {},
                    }
                }
            }
            loop
                invariant
                    views == token_views(tokens@),
                    token@ == views[at as int],
                    is_token(token@, '('),
                    depth > 0,
                    inner == (depth - 1) as nat,
                    at < cur <= tokens@.len(),
                    parse_items::<F>(views, at + 1, inner) == then_all_items(
                        models(items@),
                        parse_items::<F>(views, cur as int, inner),
                    ),
                decreases tokens@.len() - cur,
            {
                if cur >= tokens.len() {
                    return Err(Error::Syntax { exp: token.text.clone() });
                }
                assert(views[cur as int] == tokens@[cur as int]@);
                if tokens[cur].is(')') {
                    return Ok((SExp::list(items), cur + 1));
                }
                match Self::read_at(tokens, cur, depth - 1) {
                    Ok((exp, next)) => {
                        proof {
                            match parse_items::<F>(views, next as int, inner) {
                                Ok((more, end)) => {
                                    assert(models(items@) + (seq![exp@] + more) =~= models(
                                        items@.push(exp),
                                    ) + more);
                                },
                                Err(e) => {},
                            }
                        }
                        items.push(exp);
                        cur = next;
                    },
                    Err(e) => {
                        return Err(e);
                    },
                }
            }
        } else if token.is(')') {
            Err(Error::Syntax { exp: token.text.clone() })
        } else if token.is('\'') {
            if depth == 0 {
                return Err(Error::DepthExceeded);
            }
            match Self::read_at(tokens, at + 1, depth - 1) {
                Ok((exp, next)) => {
                    let mut parts: Vec<SExp<F>> = Vec::new();
                    parts.push(SExp::sym("quote"));
                    parts.push(exp);
                    proof {
                        assert(models(parts@) =~= seq![
                            SExpView::Atom(PrimitiveView::Symbol("quote"@)),
                            exp@,
                        ]);
                    }
                    Ok((SExp::list(parts), next))
                },
                Err(e) => Err(e),
            }
        } else {
            match Primitive::from_literal(token.text.as_str(), token.number) {
                Ok(atom) => Ok((SExp::Atom(atom), at + 1)),
                Err(e) => Err(e),
            }
        }
    }

    /// Reads a sequence of tokens as one expression. Several expressions in
    /// a row are read as the `begin` form that holds them.
    pub fn read(tokens: &Vec<Token>, depth: usize) -> (result: Result<Self, Error>)
        ensures
            outcome(result) == reads::<F>(token_views(tokens@), depth as nat),
    {
        let ghost views = token_views(tokens@);
        let mut exps: Vec<SExp<F>> = Vec::new();
        let mut at: usize = 0;
        proof {
            assert(then_all_exps(models(exps@), parse_all::<F>(views, 0, depth as nat))
                == parse_all::<F>(views, 0, depth as nat)) by {
                match parse_all::<F>(views, 0, depth as nat) {
                    Ok(more) => assert(models(exps@) + more =~= more),
                    Err(e) => {},
                }
            }
        }
        while at < tokens.len()
            invariant
                views == token_views(tokens@),
                at <= tokens@.len(),
                parse_all::<F>(views, 0, depth as nat) == then_all_exps(
                    models(exps@),
                    parse_all::<F>(views, at as int, depth as nat),
                ),
            decreases tokens@.len() - at,
        {
            match Self::read_at(tokens, at, depth) {
                Ok((exp, next)) => {
                    proof {
                        match parse_all::<F>(views, next as int, depth as nat) {
                            Ok(more) => {
                                assert(models(exps@) + (seq![exp@] + more) =~= models(
                                    exps@.push(exp),
                                ) + more);
                            },
                            Err(e) => {},
                        }
                    }
                    exps.push(exp);
                    at = next;
                },
                Err(e) => {
                    return Err(e);
                },
            }
        }
        proof {
            assert(models(exps@) + Seq::<SExpView<F>>::empty() =~= models(exps@));
        }
        if exps.len() == 1 {
            let only = exps.pop().unwrap();
            Ok(only)
        } else {
            let ghost all = models(exps@);
            exps.insert(0, SExp::sym("begin"));
            proof {
                assert(models(exps@) =~= seq![SExpView::Atom(PrimitiveView::Symbol("begin"@))] + all);
            }
            Ok(SExp::list(exps))
        }
    }
}

/// Elements that were read, and what follows them, as one result.
pub open spec fn then_all_items<F>(found: Seq<SExpView<F>>, rest: ParsedItems<F>) -> ParsedItems<F> {
    match rest {
        Ok((items, next)) => Ok((found + items, next)),
        Err(e) => Err(e),
    }
}

/// Expressions that were read, and what follows them, as one result.
pub open spec fn then_all_exps<F>(
    found: Seq<SExpView<F>>,
    rest: Result<Seq<SExpView<F>>, ErrorView>,
) -> Result<Seq<SExpView<F>>, ErrorView> {
    match rest {
        Ok(exps) => Ok(found + exps),
        Err(e) => Err(e),
    }
}

} // verus!
