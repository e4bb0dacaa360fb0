//! Atoms from their written form.
//!
//! A token of source text stands for a boolean, a number, a character, a
//! string or a symbol. Whether a token is a number, and which, is decided
//! outside this library, by whoever reads decimal notation; everything else
//! is decided here.

use crate::error::{Error, ErrorView};
use crate::sexp::{Primitive, PrimitiveView};
use vstd::prelude::*;
use vstd::string::StrSliceExecFns;

verus! {

/// The character can stand in a symbol: a letter or a digit of ASCII, or
/// one of `! $ % & * / : < = > ? ^ _ ~ + - . @`.
pub open spec fn is_symbol_char(c: char) -> bool {
    ||| 'a' <= c <= 'z'
    ||| 'A' <= c <= 'Z'
    ||| '0' <= c <= '9'
    ||| c == '!'
    ||| c == '$'
    ||| c == '%'
    ||| c == '&'
    ||| c == '*'
    ||| c == '/'
    ||| c == ':'
    ||| c == '<'
    ||| c == '='
    ||| c == '>'
    ||| c == '?'
    ||| c == '^'
    ||| c == '_'
    ||| c == '~'
    ||| c == '+'
    ||| c == '-'
    ||| c == '.'
    ||| c == '@'
}

/// Every character of the token can stand in a symbol.
pub open spec fn is_symbol(token: Seq<char>) -> bool {
    forall|i: int| 0 <= i < token.len() ==> is_symbol_char(#[trigger] token[i])
}

/// The token is `#\` and one character of ASCII.
pub open spec fn is_character(token: Seq<char>) -> bool {
    token.len() == 3 && token[0] == '#' && token[1] == '\\' && token[2] <= '\x7f'
}

/// The token is text between two double quotes, with no double quote in
/// the text.
pub open spec fn is_string(token: Seq<char>) -> bool {
    &&& token.len() >= 2
    &&& token[0] == '"'
    &&& token[token.len() - 1] == '"'
    &&& forall|i: int| 1 <= i < token.len() - 1 ==> #[trigger] token[i] != '"'
}

/// The atom that a token stands for, where `number` is the number that the
/// token denotes, if it denotes one.
///
/// `#t` and `#f` are the booleans. Then a token that denotes a number is
/// that number, a token of the form `#\c` the character `c`, a token in
/// double quotes the string between them, and a token made of symbol
/// characters a symbol. Any other token is a syntax error.
pub open spec fn literal<F>(token: Seq<char>, number: Option<u64>) -> Result<
    PrimitiveView<F>,
    ErrorView,
> {
    if token == seq!['#', 't'] {
        Ok(PrimitiveView::Boolean(true))
    } else if token == seq!['#', 'f'] {
        Ok(PrimitiveView::Boolean(false))
    } else if number is Some {
        Ok(PrimitiveView::Number(number->Some_0))
    } else if is_character(token) {
        Ok(PrimitiveView::Character(token[2]))
    } else if is_string(token) {
        Ok(PrimitiveView::String(token.subrange(1, token.len() - 1)))
    } else if is_symbol(token) {
        Ok(PrimitiveView::Symbol(token))
    } else {
        Err(ErrorView::Syntax { exp: token })
    }
}

/// The value of the result of reading an atom.
pub open spec fn literal_view<F>(result: Result<Primitive<F>, Error>) -> Result<
    PrimitiveView<F>,
    ErrorView,
> {
    match result {
        Ok(atom) => Ok(atom@),
        Err(e) => Err(e@),
    }
}

/// Decides whether a character can stand in a symbol.
pub fn symbol_char(c: char) -> (accepted: bool)
    ensures
        accepted == is_symbol_char(c),
{
    ('a' <= c && c <= 'z') || ('A' <= c && c <= 'Z') || ('0' <= c && c <= '9') || c == '!' || c
        == '$' || c == '%' || c == '&' || c == '*' || c == '/' || c == ':' || c == '<' || c == '='
        || c == '>' || c == '?' || c == '^' || c == '_' || c == '~' || c == '+' || c == '-' || c
        == '.' || c == '@'
}

/// Whether no character of `token` from index `from` up to `upto` is a
/// double quote.
fn no_quote_between(token: &str, from: usize, upto: usize) -> (none: bool)
    requires
        from <= upto <= token@.len(),
    ensures
        none == forall|i: int| from <= i < upto ==> #[trigger] token@[i] != '"',
{
    let mut i: usize = from;
    while i < upto
        invariant
            from <= i <= upto <= token@.len(),
            forall|j: int| from <= j < i ==> #[trigger] token@[j] != '"',
        decreases upto - i,
    {
        if token.get_char(i) == '"' {
            return false;
        }
        i += 1;
    }
    true
}

/// Whether every character of `token` can stand in a symbol.
fn all_symbol_chars(token: &str) -> (all: bool)
    ensures
        all == is_symbol(token@),
{
    let n = token.unicode_len();
    let mut i: usize = 0;
    while i < n
        invariant
            n == token@.len(),
            i <= n,
            forall|j: int| 0 <= j < i ==> is_symbol_char(#[trigger] token@[j]),
        decreases n - i,
    {
        if !symbol_char(token.get_char(i)) {
            return false;
        }
        i += 1;
    }
    true
}

impl<F> Primitive<F> {
    /// The atom that `token` stands for, where `number` is the number that
    /// the token denotes, if it denotes one.
    pub fn from_literal(token: &str, number: Option<u64>) -> (result: Result<Self, Error>)
        ensures
            literal_view(result) == literal::<F>(token@, number),
    {
        let n = token.unicode_len();
        if n == 2 && token.get_char(0) == '#' {
            let second = token.get_char(1);
            if second == 't' {
                assert(token@ =~= seq!['#', 't']);
                let atom: Primitive<F> = Primitive::Boolean(true);
                assert(atom@ == PrimitiveView::<F>::Boolean(true));
                return Ok(atom);
            }
            if second == 'f' {
                assert(token@ =~= seq!['#', 'f']);
                let atom: Primitive<F> = Primitive::Boolean(false);
                assert(atom@ == PrimitiveView::<F>::Boolean(false));
                return Ok(atom);
            }
        }
        assert(token@ != seq!['#', 't'] && token@ != seq!['#', 'f']) by {
            if token@ == seq!['#', 't'] || token@ == seq!['#', 'f'] {
                assert(token@.len() == 2);
                assert(token@[0] == '#');
            }
        }
        if let Some(bits) = number {
            let atom: Primitive<F> = Primitive::Number(bits);
            assert(atom@ == PrimitiveView::<F>::Number(bits));
            return Ok(atom);
        }
        if n == 3 && token.get_char(0) == '#' && token.get_char(1) == '\\' {
            let c = token.get_char(2);
            if c <= '\x7f' {
                let atom: Primitive<F> = Primitive::Character(c);
                assert(atom@ == PrimitiveView::<F>::Character(c));
                return Ok(atom);
            }
        }
        if n >= 2 && token.get_char(0) == '"' && token.get_char(n - 1) == '"' && no_quote_between(
            token,
            1,
            n - 1,
        ) {
            let body = token.substring_char(1, n - 1);
            let atom: Primitive<F> = Primitive::String(body.to_owned());
            assert(atom@ == PrimitiveView::<F>::String(token@.subrange(1, n - 1)));
            return Ok(atom);
        }
        if all_symbol_chars(token) {
            let atom: Primitive<F> = Primitive::Symbol(token.to_owned());
            assert(atom@ == PrimitiveView::<F>::Symbol(token@));
            return Ok(atom);
        }
        Err(Error::Syntax { exp: token.to_owned() })
    }
}

} // verus!
