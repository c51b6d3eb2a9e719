//! The lexer: turns input text into a sequence of classified tokens.
//!
//! The scan walks the text left to right, building up the digits of the
//! number literal currently in progress, and flushing that literal as a
//! `Number` token whenever an operator or grouping character arrives.
//! Whitespace separates nothing and is skipped outright.  Parentheses and
//! brackets are interchangeable grouping markers: both map to the same
//! `OpenGroup` / `CloseGroup` vocabulary tags.

use vstd::prelude::*;

verus! {

/// Everything that can go wrong while evaluating an expression.
#[derive(Clone, Copy, PartialEq, Eq, Structural, Debug)]
pub enum EvalError {
    /// The input lexed to zero tokens.
    EmptyInput,
    /// The input held a character outside the expression alphabet.
    UnrecognizedChar(char),
    /// A numeric literal held more than one decimal point.
    MalformedLiteral,
    /// A grammar production met a token it cannot start with.
    UnexpectedToken,
    /// A group was opened but its closing delimiter never arrived.
    UnmatchedDelimiter,
    /// A `Number` token's text did not denote a number.
    NumberFormat,
    /// A full expression was parsed but tokens were left over.
    TrailingInput,
    /// Division by an expression whose value is zero.
    DivisionByZero,
    /// An intermediate numerator or denominator left the `i64` range.
    Overflow,
}

/// The closed set of token kinds.
#[derive(Clone, Copy, PartialEq, Eq, Structural, Debug)]
pub enum Vocab {
    Plus,
    Minus,
    Mult,
    Div,
    OpenGroup,
    CloseGroup,
    Number,
}

/// A classified token.  Only `Number` tokens carry text: the literal's
/// digits with at most one decimal point.  Operator tokens have no payload.
pub struct Token {
    pub vocab: Vocab,
    pub value: Vec<char>,
}

/// The mathematical image of a token: its kind and its literal text.
pub ghost struct TokenModel {
    pub vocab: Vocab,
    pub text: Seq<char>,
}

impl View for Token {
    type V = TokenModel;

    open spec fn view(&self) -> TokenModel {
        TokenModel { vocab: self.vocab, text: self.value@ }
    }
}

/// The token models of a token sequence, in order.
pub open spec fn models(ts: Seq<Token>) -> Seq<TokenModel> {
    Seq::new(ts.len(), |i: int| ts[i]@)
}

/// An ASCII decimal digit.
pub open spec fn is_digit_char(c: char) -> bool {
    48 <= c as int <= 57
}

/// The numeric value of a decimal digit.
pub open spec fn digit_val(c: char) -> int {
    c as int - 48
}

/// One of the eight operator and grouping characters.
pub open spec fn is_op_char(c: char) -> bool {
    c == '+' || c == '-' || c == '*' || c == '/'
        || c == '(' || c == ')' || c == '[' || c == ']'
}

/// The vocabulary tag of an operator or grouping character.
pub open spec fn vocab_of_char(c: char) -> Vocab {
    if c == '+' {
        Vocab::Plus
    } else if c == '-' {
        Vocab::Minus
    } else if c == '*' {
        Vocab::Mult
    } else if c == '/' {
        Vocab::Div
    } else if c == '(' || c == '[' {
        Vocab::OpenGroup
    } else {
        Vocab::CloseGroup
    }
}

/// A `Number` token carrying the given literal text.
pub open spec fn num_token(text: Seq<char>) -> TokenModel {
    TokenModel { vocab: Vocab::Number, text }
}

/// The payload-free token of an operator or grouping character.
pub open spec fn op_token(c: char) -> TokenModel {
    TokenModel { vocab: vocab_of_char(c), text: Seq::empty() }
}

/// The lexer as a mathematical function: scanning `s` from position `i`
/// with `acc` holding the pending literal's characters, `seen_dot` marking
/// whether that literal already has a decimal point, and `out` the tokens
/// emitted so far.
pub open spec fn spec_lex(
    s: Seq<char>,
    i: int,
    acc: Seq<char>,
    seen_dot: bool,
    out: Seq<TokenModel>,
) -> Result<Seq<TokenModel>, EvalError>
    decreases s.len() - i,
{
    if 0 <= i < s.len() {
        let c = s[i];
        if c == ' ' {
            spec_lex(s, i + 1, acc, seen_dot, out)
        } else if is_digit_char(c) {
            spec_lex(s, i + 1, acc.push(c), seen_dot, out)
        } else if c == '.' && !seen_dot {
            spec_lex(s, i + 1, acc.push(c), true, out)
        } else if c == '.' {
            Err(EvalError::MalformedLiteral)
        } else if is_op_char(c) {
            let flushed = if acc.len() > 0 {
                out.push(num_token(acc))
            } else {
                out
            };
            spec_lex(s, i + 1, Seq::empty(), false, flushed.push(op_token(c)))
        } else {
            Err(EvalError::UnrecognizedChar(c))
        }
    } else {
        if acc.len() > 0 {
            Ok(out.push(num_token(acc)))
        } else {
            Ok(out)
        }
    }
}

/// What lexing a whole text yields.
pub open spec fn spec_tokenize(s: Seq<char>) -> Result<Seq<TokenModel>, EvalError> {
    spec_lex(s, 0, Seq::empty(), false, Seq::empty())
}

/// Whether the character is one of the eight operator and grouping
/// characters.
pub fn is_valid_op(op: &char) -> (r: bool)
    ensures
        r == is_op_char(*op),
{
    let c = *op;
    c == '+' || c == '-' || c == '*' || c == '/'
        || c == '(' || c == ')' || c == '[' || c == ']'
}

/// Whether the character is an ASCII decimal digit.
pub(crate) fn is_digit(c: char) -> (r: bool)
    ensures
        r == is_digit_char(c),
{
    let u = c as u32;
    48 <= u && u <= 57
}

/// The numeric value of a decimal digit.
pub(crate) fn digit_value(c: char) -> (d: i64)
    requires
        is_digit_char(c),
    ensures
        d == digit_val(c),
{
    ((c as u32) - 48) as i64
}

/// The vocabulary tag of an operator or grouping character.
fn vocab_of(c: char) -> (v: Vocab)
    requires
        is_op_char(c),
    ensures
        v == vocab_of_char(c),
{
    if c == '+' {
        Vocab::Plus
    } else if c == '-' {
        Vocab::Minus
    } else if c == '*' {
        Vocab::Mult
    } else if c == '/' {
        Vocab::Div
    } else if c == '(' || c == '[' {
        Vocab::OpenGroup
    } else {
        Vocab::CloseGroup
    }
}

/// Lexing from position `i` is the same as lexing what is left of the text
/// from its start.
pub(crate) proof fn lemma_lex_shift(
    s: Seq<char>,
    i: int,
    acc: Seq<char>,
    seen_dot: bool,
    out: Seq<TokenModel>,
)
    requires
        0 <= i <= s.len(),
    ensures
        spec_lex(s, i, acc, seen_dot, out) == spec_lex(s.skip(i), 0, acc, seen_dot, out),
    decreases s.len() - i,
{
    let rest = s.skip(i);
    if i < s.len() {
        let c = s[i];
        assert(rest[0] == c);
        assert(rest.skip(1) =~= s.skip(i + 1));
        if c == ' ' {
            lemma_lex_shift(s, i + 1, acc, seen_dot, out);
            lemma_lex_shift(rest, 1, acc, seen_dot, out);
        } else if is_digit_char(c) {
            lemma_lex_shift(s, i + 1, acc.push(c), seen_dot, out);
            lemma_lex_shift(rest, 1, acc.push(c), seen_dot, out);
        } else if c == '.' && !seen_dot {
            lemma_lex_shift(s, i + 1, acc.push(c), true, out);
            lemma_lex_shift(rest, 1, acc.push(c), true, out);
        } else if c == '.' {
        } else if is_op_char(c) {
            let flushed = if acc.len() > 0 {
                out.push(num_token(acc))
            } else {
                out
            };
            lemma_lex_shift(s, i + 1, Seq::empty(), false, flushed.push(op_token(c)));
            lemma_lex_shift(rest, 1, Seq::empty(), false, flushed.push(op_token(c)));
        }
    } else {
        assert(rest.len() == 0);
    }
}

/// A space in the text is transparent to the lexer: it changes neither the
/// pending literal nor the emitted tokens.
pub(crate) proof fn lemma_lex_space_insert(
    s1: Seq<char>,
    s2: Seq<char>,
    acc: Seq<char>,
    seen_dot: bool,
    out: Seq<TokenModel>,
)
    ensures
        spec_lex(s1 + seq![' '] + s2, 0, acc, seen_dot, out)
            == spec_lex(s1 + s2, 0, acc, seen_dot, out),
    decreases s1.len(),
{
    let a = s1 + seq![' '] + s2;
    let b = s1 + s2;
    if s1.len() == 0 {
        assert(a[0] == ' ');
        lemma_lex_shift(a, 1, acc, seen_dot, out);
        assert(a.skip(1) =~= s2);
        assert(b =~= s2);
    } else {
        let c = s1[0];
        assert(a[0] == c);
        assert(b[0] == c);
        assert(a.skip(1) =~= s1.skip(1) + seq![' '] + s2);
        assert(b.skip(1) =~= s1.skip(1) + s2);
        if c == ' ' {
            lemma_lex_shift(a, 1, acc, seen_dot, out);
            lemma_lex_shift(b, 1, acc, seen_dot, out);
            lemma_lex_space_insert(s1.skip(1), s2, acc, seen_dot, out);
        } else if is_digit_char(c) {
            lemma_lex_shift(a, 1, acc.push(c), seen_dot, out);
            lemma_lex_shift(b, 1, acc.push(c), seen_dot, out);
            lemma_lex_space_insert(s1.skip(1), s2, acc.push(c), seen_dot, out);
        } else if c == '.' && !seen_dot {
            lemma_lex_shift(a, 1, acc.push(c), true, out);
            lemma_lex_shift(b, 1, acc.push(c), true, out);
            lemma_lex_space_insert(s1.skip(1), s2, acc.push(c), true, out);
        } else if c == '.' {
        } else if is_op_char(c) {
            let flushed = if acc.len() > 0 {
                out.push(num_token(acc))
            } else {
                out
            };
            lemma_lex_shift(a, 1, Seq::empty(), false, flushed.push(op_token(c)));
            lemma_lex_shift(b, 1, Seq::empty(), false, flushed.push(op_token(c)));
            lemma_lex_space_insert(s1.skip(1), s2, Seq::empty(), false, flushed.push(op_token(c)));
        }
    }
}

/// Lex the input into a token sequence, or report the first lexical fault:
/// an unrecognized character, or a second decimal point inside one literal.
pub fn tokenize(input: &str) -> (r: Result<Vec<Token>, EvalError>)
    ensures
        (match r {
            Ok(toks) => spec_tokenize(input@) == Ok::<Seq<TokenModel>, EvalError>(models(toks@)),
            Err(e) => spec_tokenize(input@) == Err::<Seq<TokenModel>, EvalError>(e),
        }),
{
    let ghost s = input@;
    let n = input.unicode_len();
    let mut tokens: Vec<Token> = Vec::new();
    let mut current: Vec<char> = Vec::new();
    let mut is_decimal: bool = false;
    let mut i: usize = 0;
    proof {
        assert(models(tokens@) =~= Seq::<TokenModel>::empty());
    }
    while i < n
        invariant
            n == s.len(),
            s == input@,
            i <= n,
            spec_tokenize(s) == spec_lex(s, i as int, current@, is_decimal, models(tokens@)),
        decreases n - i,
    {
        let ghost a0 = current@;
        let ghost d0 = is_decimal;
        let ghost o0 = models(tokens@);
        let c = input.get_char(i);
        if c == ' ' {
            // skipped: whitespace neither starts nor ends a literal
        } else if is_digit(c) {
            current.push(c);
        } else if c == '.' && !is_decimal {
            current.push(c);
            is_decimal = true;
        } else if c == '.' {
            return Err(EvalError::MalformedLiteral);
        } else if is_valid_op(&c) {
            let ghost flushed = if current@.len() > 0 {
                models(tokens@).push(num_token(current@))
            } else {
                models(tokens@)
            };
            if current.len() > 0 {
                let t = Token { vocab: Vocab::Number, value: current };
                tokens.push(t);
                proof {
                    assert(models(tokens@) =~~= flushed);
                }
            }
            current = Vec::new();
            is_decimal = false;
            let t = Token { vocab: vocab_of(c), value: Vec::new() };
            let ghost before_op = models(tokens@);
            tokens.push(t);
            proof {
                assert(models(tokens@) =~~= before_op.push(op_token(c)));
            }
        } else {
            return Err(EvalError::UnrecognizedChar(c));
        }
        proof {
            assert(spec_lex(s, i as int, a0, d0, o0)
                == spec_lex(s, i + 1, current@, is_decimal, models(tokens@)));
        }
        i = i + 1;
    }
    if current.len() > 0 {
        let ghost before_num = models(tokens@);
        let ghost cur = current@;
        let t = Token { vocab: Vocab::Number, value: current };
        tokens.push(t);
        proof {
            assert(models(tokens@) =~= before_num.push(num_token(cur)));
        }
    }
    Ok(tokens)
}

} // verus!
