//! Canonical rendering of integer values, proved to round-trip.
//!
//! `render_int` prints a nonnegative integer as its decimal digit run, and
//! its contract states the round trip: evaluating the rendering yields the
//! integer back, as an exact rational.

use vstd::prelude::*;

use crate::rational::{Rational, fits_i64};
use crate::tokenizing::{
    EvalError, Vocab, TokenModel, is_digit_char, digit_val, num_token, op_token, spec_lex,
    spec_tokenize, lemma_lex_shift,
};
use crate::parser::{lit_scan, lit_value, sp_factor, sp_unary, sp_termcl, sp_term, sp_exprcl,
    sp_expr, sp_parse};
use crate::spec_evaluate;

verus! {

/// Every character of the text is a decimal digit.
pub open spec fn all_digits(s: Seq<char>) -> bool {
    forall|j: int| 0 <= j < s.len() ==> is_digit_char(s[j])
}

/// The value of the digits of `s` from position `i` on, folded onto `num`
/// most-significant first.
pub open spec fn digits_acc(s: Seq<char>, i: int, num: int) -> int
    decreases s.len() - i,
{
    if 0 <= i < s.len() {
        digits_acc(s, i + 1, num * 10 + digit_val(s[i]))
    } else {
        num
    }
}

/// Appending one digit multiplies the folded value by ten and adds the
/// digit.
proof fn lemma_digits_acc_push(s: Seq<char>, d: char, i: int, num: int)
    requires
        0 <= i <= s.len(),
    ensures
        digits_acc(s.push(d), i, num) == digits_acc(s, i, num) * 10 + digit_val(d),
    decreases s.len() - i,
{
    let t = s.push(d);
    if i < s.len() {
        assert(t[i] == s[i]);
        lemma_digits_acc_push(s, d, i + 1, num * 10 + digit_val(s[i]));
        assert(digits_acc(t, i, num) == digits_acc(t, i + 1, num * 10 + digit_val(s[i])));
        assert(digits_acc(s, i, num) == digits_acc(s, i + 1, num * 10 + digit_val(s[i])));
    } else {
        assert(t[i] == d);
        assert(digits_acc(t, i + 1, num * 10 + digit_val(d)) == num * 10 + digit_val(d));
        assert(digits_acc(t, i, num) == num * 10 + digit_val(d));
        assert(digits_acc(s, i, num) == num);
    }
}

/// Scanning a pure digit run as a literal succeeds and folds the digits,
/// with denominator one.
proof fn lemma_lit_scan_digits(s: Seq<char>, i: int, num: int)
    requires
        0 <= i <= s.len(),
        all_digits(s),
    ensures
        lit_scan(s, i, num, 1, false, true) == Some((digits_acc(s, i, num), 1int)),
    decreases s.len() - i,
{
    if i < s.len() {
        lemma_lit_scan_digits(s, i + 1, num * 10 + digit_val(s[i]));
    }
}

/// The literal value of a nonempty pure digit run is the folded digits over
/// one.
proof fn lemma_lit_value_digits(s: Seq<char>)
    requires
        s.len() >= 1,
        all_digits(s),
    ensures
        lit_value(s) == Some((digits_acc(s, 0, 0), 1int)),
{
    lemma_lit_scan_digits(s, 1, digit_val(s[0]));
}

/// Lexing a pure digit run from position `i` extends the pending literal
/// with the remaining digits and flushes it as one `Number` token.
proof fn lemma_lex_digit_run(s: Seq<char>, i: int, acc: Seq<char>, out: Seq<TokenModel>)
    requires
        0 <= i <= s.len(),
        all_digits(s),
        acc.len() + s.len() - i >= 1,
    ensures
        spec_lex(s, i, acc, false, out)
            == Ok::<Seq<TokenModel>, EvalError>(out.push(num_token(acc + s.skip(i)))),
    decreases s.len() - i,
{
    if i < s.len() {
        lemma_lex_digit_run(s, i + 1, acc.push(s[i]), out);
        assert(acc.push(s[i]) + s.skip(i + 1) =~= acc + s.skip(i));
    } else {
        assert(acc + s.skip(i) =~= acc);
    }
}

/// Lexing a nonempty pure digit run yields exactly one `Number` token that
/// carries the whole run.
proof fn lemma_tokenize_digits(s: Seq<char>)
    requires
        s.len() >= 1,
        all_digits(s),
    ensures
        spec_tokenize(s) == Ok::<Seq<TokenModel>, EvalError>(seq![num_token(s)]),
{
    lemma_lex_digit_run(s, 0, Seq::empty(), Seq::empty());
    assert(Seq::<char>::empty() + s.skip(0) =~= s);
    assert(Seq::<TokenModel>::empty().push(num_token(s)) =~= seq![num_token(s)]);
}

/// Lexing a minus sign followed by a nonempty pure digit run yields the
/// minus token and one `Number` token that carries the whole run.
proof fn lemma_tokenize_minus_digits(s: Seq<char>)
    requires
        s.len() >= 1,
        all_digits(s),
    ensures
        spec_tokenize(seq!['-'] + s)
            == Ok::<Seq<TokenModel>, EvalError>(seq![op_token('-'), num_token(s)]),
{
    let t = seq!['-'] + s;
    assert(t[0] == '-');
    lemma_lex_shift(t, 1, Seq::empty(), false, seq![op_token('-')]);
    assert(t.skip(1) =~= s);
    lemma_lex_digit_run(s, 0, Seq::empty(), seq![op_token('-')]);
    assert(Seq::<char>::empty() + s.skip(0) =~= s);
    assert(seq![op_token('-')].push(num_token(s)) =~= seq![op_token('-'), num_token(s)]);
}

/// Parsing the one-token sequence of a `Number` literal yields that
/// literal's value.
proof fn lemma_parse_single_number(s: Seq<char>, n: int)
    requires
        lit_value(s) == Some((n, 1int)),
        fits_i64(n),
    ensures
        sp_parse(seq![num_token(s)])
            == Ok::<Rational, EvalError>(Rational { num: n as i64, den: 1 }),
{
    let t = seq![num_token(s)];
    let v = Rational { num: n as i64, den: 1 };
    assert(t[0].vocab == Vocab::Number);
    assert(sp_factor(t, 0) == (Ok::<Rational, EvalError>(v), 1int));
    assert(sp_unary(t, 0) == (Ok::<Rational, EvalError>(v), 1int));
    assert(sp_termcl(t, 1, v) == (Ok::<Rational, EvalError>(v), 1int));
    assert(sp_term(t, 0) == (Ok::<Rational, EvalError>(v), 1int));
    assert(sp_exprcl(t, 1, v) == (Ok::<Rational, EvalError>(v), 1int));
    assert(sp_expr(t, 0) == (Ok::<Rational, EvalError>(v), 1int));
}

/// Parsing a minus token followed by a `Number` literal negates that
/// literal's value.
proof fn lemma_parse_negated_number(s: Seq<char>, m: int)
    requires
        lit_value(s) == Some((m, 1int)),
        fits_i64(m),
        fits_i64(-m),
    ensures
        sp_parse(seq![op_token('-'), num_token(s)])
            == Ok::<Rational, EvalError>(Rational { num: (-m) as i64, den: 1 }),
{
    let t = seq![op_token('-'), num_token(s)];
    let v = Rational { num: m as i64, den: 1 };
    let w = Rational { num: (-m) as i64, den: 1 };
    assert(t[0].vocab == Vocab::Minus);
    assert(t[1].vocab == Vocab::Number);
    assert(sp_factor(t, 1) == (Ok::<Rational, EvalError>(v), 2int));
    assert(sp_unary(t, 1) == (Ok::<Rational, EvalError>(v), 2int));
    assert(sp_unary(t, 0) == (Ok::<Rational, EvalError>(w), 2int));
    assert(sp_termcl(t, 2, w) == (Ok::<Rational, EvalError>(w), 2int));
    assert(sp_term(t, 0) == (Ok::<Rational, EvalError>(w), 2int));
    assert(sp_exprcl(t, 2, w) == (Ok::<Rational, EvalError>(w), 2int));
    assert(sp_expr(t, 0) == (Ok::<Rational, EvalError>(w), 2int));
}

/// The decimal digit character of a value below ten.
fn digit_char(d: u64) -> (c: char)
    requires
        d < 10,
    ensures
        is_digit_char(c),
        digit_val(c) == d,
{
    ((48 + d) as u8) as char
}

/// The decimal digit run of `n`, most significant digit first, without
/// leading zeros.
fn render_digits(n: u64) -> (s: Vec<char>)
    ensures
        s@.len() >= 1,
        all_digits(s@),
        digits_acc(s@, 0, 0) == n,
    decreases n,
{
    if n < 10 {
        let c = digit_char(n);
        let mut v: Vec<char> = Vec::new();
        v.push(c);
        proof {
            assert(digits_acc(v@, 1, digit_val(c)) == digit_val(c));
            assert(digits_acc(v@, 0, 0) == digit_val(c));
        }
        v
    } else {
        let mut v = render_digits(n / 10);
        let c = digit_char(n % 10);
        let ghost prev = v@;
        v.push(c);
        proof {
            lemma_digits_acc_push(prev, c, 0, 0);
            assert(n as int == (n as int / 10) * 10 + (n as int % 10));
            assert(digits_acc(v@, 0, 0) == n);
        }
        v
    }
}

/// Render an integer canonically: its decimal digits, with a leading minus
/// sign when it is negative.  The contract is the round trip: evaluating
/// the rendering returns exactly the integer, as a rational over one.  The
/// one integer left out is the least `i64`, whose magnitude no literal of
/// the grammar can carry.
pub fn render_int(n: i64) -> (s: Vec<char>)
    requires
        n != -0x8000000000000000,
    ensures
        spec_evaluate(s@) == Ok::<Rational, EvalError>(Rational { num: n, den: 1 }),
{
    if n >= 0 {
        let digits = render_digits(n as u64);
        proof {
            lemma_tokenize_digits(digits@);
            lemma_lit_value_digits(digits@);
            lemma_parse_single_number(digits@, n as int);
        }
        digits
    } else {
        let mut digits = render_digits((-n) as u64);
        let ghost d = digits@;
        let mut s: Vec<char> = Vec::new();
        s.push('-');
        s.append(&mut digits);
        proof {
            assert(s@ =~= seq!['-'] + d);
            lemma_tokenize_minus_digits(d);
            lemma_lit_value_digits(d);
            lemma_parse_negated_number(d, -n as int);
        }
        s
    }
}

} // verus!
