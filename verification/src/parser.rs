//! The recursive-descent parser and evaluator.
//!
//! Each grammar production both recognizes structure and computes the value
//! of what it recognized, in one pass over the token sequence — no tree is
//! built.  The additive and multiplicative productions thread an accumulator
//! through their recursion, so chains such as `10-3-2` fold left.
//!
//! The meaning of every production is fixed by a specification-level twin
//! (`sp_expr`, `sp_term`, ...) over the token models, and each executable
//! production is proved to return exactly what its twin denotes, together
//! with the cursor position where it stopped.

use vstd::prelude::*;

use crate::rational::{
    Rational, fits_i64, spec_add, spec_sub, spec_mul, spec_div, spec_neg,
    rat_add, rat_sub, rat_mul, rat_div, rat_neg,
};
use crate::tokenizing::{
    EvalError, Vocab, Token, TokenModel, models, is_digit_char, digit_val, is_digit,
    digit_value,
};

verus! {

/// Scan a literal's text from position `i`: `num` is the value of the
/// digits read so far with the decimal point ignored, `den` the power of
/// ten that the digits after the point have contributed, `seen_dot` whether
/// the point was passed, `seen_digit` whether any digit arrived.  `None`
/// marks text that does not denote a number: a stray character, a second
/// point, or no digit at all.
pub open spec fn lit_scan(
    text: Seq<char>,
    i: int,
    num: int,
    den: int,
    seen_dot: bool,
    seen_digit: bool,
) -> Option<(int, int)>
    decreases text.len() - i,
{
    if 0 <= i < text.len() {
        let c = text[i];
        if is_digit_char(c) {
            lit_scan(
                text,
                i + 1,
                num * 10 + digit_val(c),
                if seen_dot { den * 10 } else { den },
                seen_dot,
                true,
            )
        } else if c == '.' && !seen_dot {
            lit_scan(text, i + 1, num, den, true, seen_digit)
        } else {
            None
        }
    } else {
        if seen_digit {
            Some((num, den))
        } else {
            None
        }
    }
}

/// The rational denoted by a literal's text: digits before and after the
/// point read as one integer, divided by ten to the number of digits after
/// the point.  `None` when the text denotes no number.
pub open spec fn lit_value(text: Seq<char>) -> Option<(int, int)> {
    lit_scan(text, 0, 0, 1, false, false)
}

/// Convert a `Number` token's text to a rational.  Text that denotes no
/// number is a `NumberFormat` fault; a numerator or denominator beyond the
/// `i64` range is an `Overflow` fault.
fn literal_to_rational(text: &Vec<char>) -> (r: Result<Rational, EvalError>)
    ensures
        (match lit_value(text@) {
            None => r == Err::<Rational, EvalError>(EvalError::NumberFormat),
            Some(p) => if fits_i64(p.0) && fits_i64(p.1) {
                r == Ok::<Rational, EvalError>(
                    Rational { num: p.0 as i64, den: p.1 as i64 },
                )
            } else {
                r == Err::<Rational, EvalError>(EvalError::Overflow)
            },
        }),
        r matches Ok(v) ==> v.wf(),
{
    let n = text.len();
    let mut num: i64 = 0;
    let mut den: i64 = 1;
    let mut seen_dot: bool = false;
    let mut seen_digit: bool = false;
    let mut big_num: bool = false;
    let mut big_den: bool = false;
    let ghost mut gnum: int = 0;
    let ghost mut gden: int = 1;
    let mut i: usize = 0;
    while i < n
        invariant
            n == text@.len(),
            i <= n,
            lit_value(text@) == lit_scan(text@, i as int, gnum, gden, seen_dot, seen_digit),
            gnum >= 0,
            gden >= 1,
            !big_num ==> gnum == num as int && num >= 0,
            big_num ==> gnum > 0x7fffffffffffffff,
            !big_den ==> gden == den as int && den >= 1,
            big_den ==> gden > 0x7fffffffffffffff,
        decreases n - i,
    {
        let ghost g0num = gnum;
        let ghost g0den = gden;
        let ghost sd0 = seen_dot;
        let ghost sg0 = seen_digit;
        let c = text[i];
        if is_digit(c) {
            let dv: i64 = digit_value(c);
            proof {
                gnum = gnum * 10 + digit_val(c);
                if seen_dot {
                    gden = gden * 10;
                }
            }
            if !big_num {
                let wide: i128 = (num as i128) * 10 + (dv as i128);
                if wide <= 0x7fffffffffffffffi128 {
                    num = wide as i64;
                } else {
                    big_num = true;
                }
            } else {
                proof {
                    assert(g0num * 10 >= g0num) by (nonlinear_arith)
                        requires g0num >= 0;
                }
            }
            if seen_dot {
                if !big_den {
                    let wide: i128 = (den as i128) * 10;
                    if wide <= 0x7fffffffffffffffi128 {
                        den = wide as i64;
                    } else {
                        big_den = true;
                    }
                } else {
                    proof {
                        assert(g0den * 10 >= g0den) by (nonlinear_arith)
                            requires g0den >= 1;
                    }
                }
            }
            seen_digit = true;
        } else if c == '.' && !seen_dot {
            seen_dot = true;
        } else {
            return Err(EvalError::NumberFormat);
        }
        proof {
            assert(lit_scan(text@, i as int, g0num, g0den, sd0, sg0)
                == lit_scan(text@, i + 1, gnum, gden, seen_dot, seen_digit));
        }
        i = i + 1;
    }
    if !seen_digit {
        Err(EvalError::NumberFormat)
    } else if big_num || big_den {
        Err(EvalError::Overflow)
    } else {
        Ok(Rational { num, den })
    }
}

/// `factor := '(' expr ')' | '[' expr ']' | NUMBER`
///
/// Returns what the production denotes and the position after it.
pub open spec fn sp_factor(t: Seq<TokenModel>, pos: int) -> (Result<Rational, EvalError>, int)
    decreases t.len() - pos, 0int,
{
    if !(0 <= pos <= t.len()) {
        (Err(EvalError::UnexpectedToken), pos)
    } else if pos == t.len() {
        (Err(EvalError::UnexpectedToken), pos)
    } else if t[pos].vocab == Vocab::OpenGroup {
        let (r, p) = sp_expr(t, pos + 1);
        match r {
            Err(e) => (Err(e), p),
            Ok(v) => if 0 <= p < t.len() && t[p].vocab == Vocab::CloseGroup {
                (Ok(v), p + 1)
            } else {
                (Err(EvalError::UnmatchedDelimiter), p)
            },
        }
    } else if t[pos].vocab == Vocab::Number {
        match lit_value(t[pos].text) {
            None => (Err(EvalError::NumberFormat), pos),
            Some(p) => if fits_i64(p.0) && fits_i64(p.1) {
                (Ok(Rational { num: p.0 as i64, den: p.1 as i64 }), pos + 1)
            } else {
                (Err(EvalError::Overflow), pos)
            },
        }
    } else {
        (Err(EvalError::UnexpectedToken), pos)
    }
}

/// `unary := '-' unary | factor`
pub open spec fn sp_unary(t: Seq<TokenModel>, pos: int) -> (Result<Rational, EvalError>, int)
    decreases t.len() - pos, 1int,
{
    if !(0 <= pos <= t.len()) {
        (Err(EvalError::UnexpectedToken), pos)
    } else if pos < t.len() && t[pos].vocab == Vocab::Minus {
        let (r, p) = sp_unary(t, pos + 1);
        match r {
            Err(e) => (Err(e), p),
            Ok(v) => match spec_neg(v) {
                Some(w) => (Ok(w), p),
                None => (Err(EvalError::Overflow), p),
            },
        }
    } else {
        sp_factor(t, pos)
    }
}

/// `termcl := ( '*' unary termcl | '/' unary termcl )?`
///
/// `acc` is the value folded up so far; each step combines it with the next
/// operand before recursing, so the fold is left-associative.
pub open spec fn sp_termcl(t: Seq<TokenModel>, pos: int, acc: Rational) -> (
    Result<Rational, EvalError>,
    int,
)
    decreases t.len() - pos, 0int,
{
    if !(0 <= pos <= t.len()) {
        (Err(EvalError::UnexpectedToken), pos)
    } else if pos < t.len() && t[pos].vocab == Vocab::Mult {
        let (r, p) = sp_unary(t, pos + 1);
        match r {
            Err(e) => (Err(e), p),
            Ok(v) => match spec_mul(acc, v) {
                None => (Err(EvalError::Overflow), p),
                Some(w) => if pos < p <= t.len() {
                    sp_termcl(t, p, w)
                } else {
                    (Err(EvalError::UnexpectedToken), p)
                },
            },
        }
    } else if pos < t.len() && t[pos].vocab == Vocab::Div {
        let (r, p) = sp_unary(t, pos + 1);
        match r {
            Err(e) => (Err(e), p),
            Ok(v) => if v.num == 0 {
                (Err(EvalError::DivisionByZero), p)
            } else {
                match spec_div(acc, v) {
                    None => (Err(EvalError::Overflow), p),
                    Some(w) => if pos < p <= t.len() {
                        sp_termcl(t, p, w)
                    } else {
                        (Err(EvalError::UnexpectedToken), p)
                    },
                }
            },
        }
    } else {
        (Ok(acc), pos)
    }
}

/// `term := unary termcl`
pub open spec fn sp_term(t: Seq<TokenModel>, pos: int) -> (Result<Rational, EvalError>, int)
    decreases t.len() - pos, 2int,
{
    if !(0 <= pos <= t.len()) {
        (Err(EvalError::UnexpectedToken), pos)
    } else {
        let (r, p) = sp_unary(t, pos);
        match r {
            Err(e) => (Err(e), p),
            Ok(v) => if pos < p <= t.len() {
                sp_termcl(t, p, v)
            } else {
                (Err(EvalError::UnexpectedToken), p)
            },
        }
    }
}

/// `exprcl := ( '+' term exprcl | '-' term exprcl )?`
///
/// Left-fold over the additive operators, like `sp_termcl`.
pub open spec fn sp_exprcl(t: Seq<TokenModel>, pos: int, acc: Rational) -> (
    Result<Rational, EvalError>,
    int,
)
    decreases t.len() - pos, 0int,
{
    if !(0 <= pos <= t.len()) {
        (Err(EvalError::UnexpectedToken), pos)
    } else if pos < t.len() && t[pos].vocab == Vocab::Plus {
        let (r, p) = sp_term(t, pos + 1);
        match r {
            Err(e) => (Err(e), p),
            Ok(v) => match spec_add(acc, v) {
                None => (Err(EvalError::Overflow), p),
                Some(w) => if pos < p <= t.len() {
                    sp_exprcl(t, p, w)
                } else {
                    (Err(EvalError::UnexpectedToken), p)
                },
            },
        }
    } else if pos < t.len() && t[pos].vocab == Vocab::Minus {
        let (r, p) = sp_term(t, pos + 1);
        match r {
            Err(e) => (Err(e), p),
            Ok(v) => match spec_sub(acc, v) {
                None => (Err(EvalError::Overflow), p),
                Some(w) => if pos < p <= t.len() {
                    sp_exprcl(t, p, w)
                } else {
                    (Err(EvalError::UnexpectedToken), p)
                },
            },
        }
    } else {
        (Ok(acc), pos)
    }
}

/// `expr := term exprcl`
pub open spec fn sp_expr(t: Seq<TokenModel>, pos: int) -> (Result<Rational, EvalError>, int)
    decreases t.len() - pos, 3int,
{
    if !(0 <= pos <= t.len()) {
        (Err(EvalError::UnexpectedToken), pos)
    } else {
        let (r, p) = sp_term(t, pos);
        match r {
            Err(e) => (Err(e), p),
            Ok(v) => if pos < p <= t.len() {
                sp_exprcl(t, p, v)
            } else {
                (Err(EvalError::UnexpectedToken), p)
            },
        }
    }
}

/// A full parse from position `pos`: one expression, after which every
/// token must have been consumed.
pub open spec fn sp_parse_from(t: Seq<TokenModel>, pos: int) -> Result<Rational, EvalError> {
    let (r, p) = sp_expr(t, pos);
    match r {
        Err(e) => Err(e),
        Ok(v) => if p == t.len() {
            Ok(v)
        } else {
            Err(EvalError::TrailingInput)
        },
    }
}

/// What parsing a whole token sequence yields.
pub open spec fn sp_parse(t: Seq<TokenModel>) -> Result<Rational, EvalError> {
    sp_parse_from(t, 0)
}

/// The evaluator's cursor over a token sequence: the tokens and the index
/// of the current one.  Indices up to and including the length are valid;
/// at the length, the sequence is exhausted.
pub struct Parser {
    tokens: Vec<Token>,
    pos: usize,
}

impl Parser {
    /// The models of the tokens the parser was built over.
    pub closed spec fn toks(self) -> Seq<TokenModel> {
        models(self.tokens@)
    }

    /// The cursor position.
    pub closed spec fn at(self) -> int {
        self.pos as int
    }

    /// The cursor never leaves the token sequence.
    pub closed spec fn wf(self) -> bool {
        self.pos <= self.tokens@.len()
    }

    /// Build an evaluator over a token sequence.  An expression must hold
    /// at least one token, so an empty sequence is refused.
    pub fn new(tokens: Vec<Token>) -> (r: Result<Parser, EvalError>)
        ensures
            tokens@.len() == 0 <==> r is Err,
            r is Err ==> r == Err::<Parser, EvalError>(EvalError::EmptyInput),
            r matches Ok(p) ==> p.wf() && p.toks() == models(tokens@) && p.at() == 0,
    {
        if tokens.len() == 0 {
            Err(EvalError::EmptyInput)
        } else {
            Ok(Parser { tokens, pos: 0 })
        }
    }

    /// Advance the cursor to the next token; at the end of the sequence
    /// this is a no-op.
    pub fn get_token(&mut self)
        requires
            old(self).wf(),
        ensures
            final(self).wf(),
            final(self).toks() == old(self).toks(),
            final(self).at() == if old(self).at() < old(self).toks().len() {
                old(self).at() + 1
            } else {
                old(self).at()
            },
    {
        if self.pos < self.tokens.len() {
            self.pos = self.pos + 1;
        }
    }

    /// Demand that the current token has the given vocabulary tag and step
    /// over it; anything else — another tag, or an exhausted sequence — is
    /// an unmatched delimiter.
    pub fn must_be(&mut self, op: Vocab) -> (r: Result<(), EvalError>)
        requires
            old(self).wf(),
        ensures
            final(self).wf(),
            final(self).toks() == old(self).toks(),
            (if old(self).at() < old(self).toks().len()
                && old(self).toks()[old(self).at()].vocab == op {
                r == Ok::<(), EvalError>(()) && final(self).at() == old(self).at() + 1
            } else {
                r == Err::<(), EvalError>(EvalError::UnmatchedDelimiter)
                    && final(self).at() == old(self).at()
            }),
    {
        if self.pos < self.tokens.len() && self.tokens[self.pos].vocab == op {
            self.pos = self.pos + 1;
            Ok(())
        } else {
            Err(EvalError::UnmatchedDelimiter)
        }
    }

    /// `factor := '(' expr ')' | '[' expr ']' | NUMBER`
    fn parse_factor(&mut self) -> (r: Result<Rational, EvalError>)
        requires
            old(self).wf(),
        ensures
            final(self).wf(),
            final(self).toks() == old(self).toks(),
            old(self).at() <= final(self).at() <= final(self).toks().len(),
            (r, final(self).at()) == sp_factor(old(self).toks(), old(self).at()),
            r matches Ok(v) ==> v.wf() && final(self).at() > old(self).at(),
        decreases self.tokens@.len() - self.pos, 0nat,
    {
        if self.pos >= self.tokens.len() {
            return Err(EvalError::UnexpectedToken);
        }
        let v = self.tokens[self.pos].vocab;
        if v == Vocab::OpenGroup {
            self.get_token();
            match self.parse_expr() {
                Err(e) => Err(e),
                Ok(val) => match self.must_be(Vocab::CloseGroup) {
                    Ok(()) => Ok(val),
                    Err(e) => Err(e),
                },
            }
        } else if v == Vocab::Number {
            let ret = literal_to_rational(&self.tokens[self.pos].value);
            match ret {
                Err(e) => Err(e),
                Ok(val) => {
                    self.get_token();
                    Ok(val)
                },
            }
        } else {
            Err(EvalError::UnexpectedToken)
        }
    }

    /// `unary := '-' unary | factor`
    fn parse_unary(&mut self) -> (r: Result<Rational, EvalError>)
        requires
            old(self).wf(),
        ensures
            final(self).wf(),
            final(self).toks() == old(self).toks(),
            old(self).at() <= final(self).at() <= final(self).toks().len(),
            (r, final(self).at()) == sp_unary(old(self).toks(), old(self).at()),
            r matches Ok(v) ==> v.wf() && final(self).at() > old(self).at(),
        decreases self.tokens@.len() - self.pos, 1nat,
    {
        if self.pos < self.tokens.len() && self.tokens[self.pos].vocab == Vocab::Minus {
            self.get_token();
            match self.parse_unary() {
                Err(e) => Err(e),
                Ok(v) => match rat_neg(v) {
                    Some(w) => Ok(w),
                    None => Err(EvalError::Overflow),
                },
            }
        } else {
            self.parse_factor()
        }
    }

    /// `termcl := ( '*' unary termcl | '/' unary termcl )?`
    ///
    /// `passed` is the left-folded value of everything multiplicative seen
    /// so far.
    fn parse_termcl(&mut self, passed: Rational) -> (r: Result<Rational, EvalError>)
        requires
            old(self).wf(),
            passed.wf(),
        ensures
            final(self).wf(),
            final(self).toks() == old(self).toks(),
            old(self).at() <= final(self).at() <= final(self).toks().len(),
            (r, final(self).at()) == sp_termcl(old(self).toks(), old(self).at(), passed),
            r matches Ok(v) ==> v.wf(),
        decreases self.tokens@.len() - self.pos, 0nat,
    {
        if self.pos < self.tokens.len() && self.tokens[self.pos].vocab == Vocab::Mult {
            self.get_token();
            match self.parse_unary() {
                Err(e) => Err(e),
                Ok(v) => match rat_mul(passed, v) {
                    None => Err(EvalError::Overflow),
                    Some(w) => self.parse_termcl(w),
                },
            }
        } else if self.pos < self.tokens.len() && self.tokens[self.pos].vocab == Vocab::Div {
            self.get_token();
            match self.parse_unary() {
                Err(e) => Err(e),
                Ok(v) => {
                    if v.num == 0 {
                        Err(EvalError::DivisionByZero)
                    } else {
                        match rat_div(passed, v) {
                            None => Err(EvalError::Overflow),
                            Some(w) => self.parse_termcl(w),
                        }
                    }
                },
            }
        } else {
            Ok(passed)
        }
    }

    /// `term := unary termcl`
    fn parse_term(&mut self) -> (r: Result<Rational, EvalError>)
        requires
            old(self).wf(),
        ensures
            final(self).wf(),
            final(self).toks() == old(self).toks(),
            old(self).at() <= final(self).at() <= final(self).toks().len(),
            (r, final(self).at()) == sp_term(old(self).toks(), old(self).at()),
            r matches Ok(v) ==> v.wf() && final(self).at() > old(self).at(),
        decreases self.tokens@.len() - self.pos, 2nat,
    {
        match self.parse_unary() {
            Err(e) => Err(e),
            Ok(v) => self.parse_termcl(v),
        }
    }

    /// `exprcl := ( '+' term exprcl | '-' term exprcl )?`
    ///
    /// `passed` is the left-folded value of everything additive seen so
    /// far.
    fn parse_exprcl(&mut self, passed: Rational) -> (r: Result<Rational, EvalError>)
        requires
            old(self).wf(),
            passed.wf(),
        ensures
            final(self).wf(),
            final(self).toks() == old(self).toks(),
            old(self).at() <= final(self).at() <= final(self).toks().len(),
            (r, final(self).at()) == sp_exprcl(old(self).toks(), old(self).at(), passed),
            r matches Ok(v) ==> v.wf(),
        decreases self.tokens@.len() - self.pos, 0nat,
    {
        if self.pos < self.tokens.len() && self.tokens[self.pos].vocab == Vocab::Plus {
            self.get_token();
            match self.parse_term() {
                Err(e) => Err(e),
                Ok(v) => match rat_add(passed, v) {
                    None => Err(EvalError::Overflow),
                    Some(w) => self.parse_exprcl(w),
                },
            }
        } else if self.pos < self.tokens.len() && self.tokens[self.pos].vocab == Vocab::Minus {
            self.get_token();
            match self.parse_term() {
                Err(e) => Err(e),
                Ok(v) => match rat_sub(passed, v) {
                    None => Err(EvalError::Overflow),
                    Some(w) => self.parse_exprcl(w),
                },
            }
        } else {
            Ok(passed)
        }
    }

    /// `expr := term exprcl`
    fn parse_expr(&mut self) -> (r: Result<Rational, EvalError>)
        requires
            old(self).wf(),
        ensures
            final(self).wf(),
            final(self).toks() == old(self).toks(),
            old(self).at() <= final(self).at() <= final(self).toks().len(),
            (r, final(self).at()) == sp_expr(old(self).toks(), old(self).at()),
            r matches Ok(v) ==> v.wf() && final(self).at() > old(self).at(),
        decreases self.tokens@.len() - self.pos, 3nat,
    {
        match self.parse_term() {
            Err(e) => Err(e),
            Ok(v) => self.parse_exprcl(v),
        }
    }

    /// Parse and evaluate one full expression.  After a successful parse
    /// every token must have been consumed; leftovers are trailing input.
    pub fn parse(&mut self) -> (r: Result<Rational, EvalError>)
        requires
            old(self).wf(),
        ensures
            final(self).wf(),
            final(self).toks() == old(self).toks(),
            r == sp_parse_from(old(self).toks(), old(self).at()),
            r matches Ok(v) ==> v.wf(),
    {
        let res = self.parse_expr();
        match res {
            Err(e) => Err(e),
            Ok(v) => {
                if self.pos == self.tokens.len() {
                    Ok(v)
                } else {
                    Err(EvalError::TrailingInput)
                }
            },
        }
    }
}

} // verus!
