use arith_eval::evaluate;
use arith_eval::rational::Rational;
use arith_eval::tokenizing::EvalError;

fn eval_ok(input: &str) -> Rational {
    match evaluate(input) {
        Ok(v) => v,
        Err(e) => panic!("expected a value for {:?}, got {:?}", input, e),
    }
}

fn assert_eval_int(input: &str, expected: i64) {
    let v = eval_ok(input);
    assert!(
        v.value_eq(&Rational::from_int(expected)),
        "{:?} gave {}/{}, expected {}",
        input,
        v.num,
        v.den,
        expected
    );
}

fn assert_eval_err(input: &str, expected: EvalError) {
    assert_eq!(evaluate(input), Err(expected), "input {:?}", input);
}

#[test]
fn single_literal() {
    assert_eval_int("7", 7);
}

#[test]
fn simple_addition() {
    assert_eval_int("2+2", 4);
}

#[test]
fn subtraction_is_left_associative() {
    assert_eval_int("10-3-2", 5);
}

#[test]
fn division_is_left_associative() {
    assert_eval_int("100/5/2", 10);
}

#[test]
fn multiplication_binds_tighter_than_addition() {
    assert_eval_int("2+3*4", 14);
}

#[test]
fn parentheses_reset_precedence() {
    assert_eval_int("(2+3)*4", 20);
}

#[test]
fn brackets_reset_precedence() {
    assert_eval_int("[2+3]*4", 20);
}

#[test]
fn mixed_delimiters_are_interchangeable() {
    assert_eval_int("(2+3]*4", 20);
    assert_eval_int("[2+3)*4", 20);
}

#[test]
fn nested_groups() {
    assert_eval_int("((2))", 2);
    assert_eval_int("2*(3+(4-1))", 12);
}

#[test]
fn double_negation() {
    assert_eval_int("--5", 5);
}

#[test]
fn unary_minus_binds_tighter_than_multiplication() {
    assert_eval_int("-2*3", -6);
}

#[test]
fn unary_minus_over_group() {
    assert_eval_int("-(2+3)", -5);
}

#[test]
fn negative_result() {
    assert_eval_int("3-5", -2);
}

#[test]
fn decimal_literals() {
    assert_eval_int("1.5+2.5", 4);
}

#[test]
fn fractional_result_is_exact() {
    let v = eval_ok("7/2");
    assert!(v.value_eq(&Rational { num: 7, den: 2 }));
    let w = eval_ok("0.5*4");
    assert!(w.value_eq(&Rational::from_int(2)));
}

#[test]
fn whitespace_is_insignificant() {
    assert_eq!(evaluate("2 + 2"), evaluate("2+2"));
    assert_eval_int("2 + 2", 4);
    assert_eval_int(" 1 0 - 3 ", 7);
}

#[test]
fn evaluation_is_idempotent() {
    let first = evaluate("2+3*4");
    let second = evaluate("2+3*4");
    assert_eq!(first, second);
    let first_err = evaluate("2++2");
    let second_err = evaluate("2++2");
    assert_eq!(first_err, second_err);
}

#[test]
fn rendered_result_round_trips() {
    let v = eval_ok("1.5+2.5");
    let rendered = format!("{}", v.num as f64 / v.den as f64);
    assert_eq!(rendered, "4");
    let again = eval_ok(&rendered);
    assert!(v.value_eq(&again));

    let w = eval_ok("3/4");
    let rendered = format!("{}", w.num as f64 / w.den as f64);
    assert_eq!(rendered, "0.75");
    let again = eval_ok(&rendered);
    assert!(w.value_eq(&again));
}

#[test]
fn empty_input_is_refused() {
    assert_eval_err("", EvalError::EmptyInput);
    assert_eval_err("   ", EvalError::EmptyInput);
}

#[test]
fn doubled_operator_is_unexpected_token() {
    assert_eval_err("2++2", EvalError::UnexpectedToken);
}

#[test]
fn dangling_operator_is_unexpected_token() {
    assert_eval_err("2*", EvalError::UnexpectedToken);
    assert_eval_err("+2", EvalError::UnexpectedToken);
}

#[test]
fn open_group_without_close_is_unmatched() {
    assert_eval_err("(2+3", EvalError::UnmatchedDelimiter);
    assert_eval_err("[2+3", EvalError::UnmatchedDelimiter);
}

#[test]
fn trailing_tokens_are_refused() {
    assert_eval_err("(2)3", EvalError::TrailingInput);
    assert_eval_err("(2)(3)", EvalError::TrailingInput);
}

#[test]
fn whitespace_never_splits_a_literal() {
    // scanning rule: a space neither starts nor ends a literal, so the two
    // digit runs fuse into one literal
    assert_eval_int("2 2", 22);
}

#[test]
fn second_decimal_point_is_a_lex_fault() {
    assert_eval_err("1.2.3", EvalError::MalformedLiteral);
}

#[test]
fn unknown_character_is_a_lex_fault() {
    assert_eval_err("2#3", EvalError::UnrecognizedChar('#'));
    assert_eval_err("2+a", EvalError::UnrecognizedChar('a'));
}

#[test]
fn division_by_zero_is_reported() {
    assert_eval_err("1/0", EvalError::DivisionByZero);
    assert_eval_err("5/(2-2)", EvalError::DivisionByZero);
}

#[test]
fn literal_beyond_i64_overflows() {
    assert_eval_int("9223372036854775807", 9223372036854775807);
    assert_eval_err("9223372036854775808", EvalError::Overflow);
    assert_eval_err("0.0000000000000000001", EvalError::Overflow);
}

#[test]
fn negating_i64_min_magnitude_overflows() {
    assert_eval_err("-9223372036854775808", EvalError::Overflow);
}

#[test]
fn hand_computed_cross_checks() {
    assert_eval_int("1+2*3-4/2", 5);
    assert_eval_int("(1+2)*(3+4)", 21);
    assert_eval_int("2*3*4", 24);
    assert_eval_int("100-10*5+1", 51);
    let v = eval_ok("1/3");
    assert!(v.value_eq(&Rational { num: 1, den: 3 }));
    assert!(!v.value_eq(&Rational { num: 333, den: 1000 }));
}

#[test]
fn rational_value_equality_ignores_representation() {
    let half = Rational { num: 1, den: 2 };
    let two_quarters = Rational { num: 2, den: 4 };
    assert!(half.value_eq(&two_quarters));
    assert!(!half.value_eq(&Rational::from_int(1)));
}

#[test]
fn canonical_integer_rendering_round_trips() {
    let digits = arith_eval::render::render_int(42);
    let text: String = digits.iter().collect();
    assert_eq!(text, "42");
    let v = eval_ok(&text);
    assert!(v.value_eq(&Rational::from_int(42)));

    let zero: String = arith_eval::render::render_int(0).iter().collect();
    assert_eq!(zero, "0");
    let z = eval_ok(&zero);
    assert!(z.value_eq(&Rational::from_int(0)));

    let max: String = arith_eval::render::render_int(9223372036854775807).iter().collect();
    let m = eval_ok(&max);
    assert!(m.value_eq(&Rational::from_int(9223372036854775807)));

    let neg: String = arith_eval::render::render_int(-137).iter().collect();
    assert_eq!(neg, "-137");
    let w = eval_ok(&neg);
    assert!(w.value_eq(&Rational::from_int(-137)));

    let least: String = arith_eval::render::render_int(-9223372036854775807).iter().collect();
    let l = eval_ok(&least);
    assert!(l.value_eq(&Rational::from_int(-9223372036854775807)));
}
