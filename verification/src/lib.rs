//! Arithmetic expression evaluation over exact rational numbers.
//!
//! A hand-written lexer turns the input text into a token sequence, and a
//! recursive-descent parser evaluates that sequence in a single pass,
//! following the grammar
//!
//! ```text
//! expr    := term exprcl
//! exprcl  := ( '+' term exprcl | '-' term exprcl )?
//! term    := unary termcl
//! termcl  := ( '*' unary termcl | '/' unary termcl )?
//! unary   := '-' unary | factor
//! factor  := '(' expr ')' | '[' expr ']' | NUMBER
//! ```
//!
//! Every value is an exact rational with `i64` numerator and denominator, so
//! decimal literals such as `1.5` are represented without rounding.  Each
//! public function's behaviour is pinned to a specification-level model of
//! the same grammar.

use vstd::prelude::*;

pub mod rational;
pub mod tokenizing;
pub mod parser;
pub mod render;

use crate::rational::Rational;
use crate::tokenizing::{EvalError, tokenize, spec_tokenize, lemma_lex_space_insert};
use crate::parser::{Parser, sp_parse};

verus! {

/// The meaning of a whole input string: lex it, reject an empty token
/// sequence, then run the grammar over the tokens.
pub open spec fn spec_evaluate(s: Seq<char>) -> Result<Rational, EvalError> {
    match spec_tokenize(s) {
        Err(e) => Err(e),
        Ok(toks) => if toks.len() == 0 {
            Err(EvalError::EmptyInput)
        } else {
            sp_parse(toks)
        },
    }
}

/// Evaluate an arithmetic expression given as text.
pub fn evaluate(input: &str) -> (r: Result<Rational, EvalError>)
    ensures
        r == spec_evaluate(input@),
        r matches Ok(v) ==> v.wf(),
{
    match tokenize(input) {
        Err(e) => Err(e),
        Ok(toks) => {
            match Parser::new(toks) {
                Err(e) => Err(e),
                Ok(mut p) => p.parse(),
            }
        },
    }
}

/// Whitespace insensitivity: inserting a space anywhere in the input text
/// changes nothing — neither the value nor the error.  In particular
/// `"2 + 2"` and `"2+2"` produce identical results.
pub proof fn lemma_whitespace_insensitive(s1: Seq<char>, s2: Seq<char>)
    ensures
        spec_evaluate(s1 + seq![' '] + s2) == spec_evaluate(s1 + s2),
{
    lemma_lex_space_insert(s1, s2, Seq::empty(), false, Seq::empty());
}

/// Evaluation is a pure function of the input text: two evaluations of the
/// same character sequence yield the same result, with no hidden state.
pub proof fn lemma_evaluate_deterministic(
    s: Seq<char>,
    r1: Result<Rational, EvalError>,
    r2: Result<Rational, EvalError>,
)
    requires
        r1 == spec_evaluate(s),
        r2 == spec_evaluate(s),
    ensures
        r1 == r2,
{
}

} // verus!
