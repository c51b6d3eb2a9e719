use arith_eval::parser::Parser;
use arith_eval::rational::Rational;
use arith_eval::tokenizing::{tokenize, is_valid_op, EvalError, Token, Vocab};

#[test]
fn tokenize_classifies_and_orders() {
    let toks = tokenize("12+3*(4.5)").expect("lexes");
    let kinds: Vec<Vocab> = toks.iter().map(|t| t.vocab).collect();
    assert_eq!(
        kinds,
        vec![
            Vocab::Number,
            Vocab::Plus,
            Vocab::Number,
            Vocab::Mult,
            Vocab::OpenGroup,
            Vocab::Number,
            Vocab::CloseGroup,
        ]
    );
    let first: String = toks[0].value.iter().collect();
    assert_eq!(first, "12");
    let fraction: String = toks[5].value.iter().collect();
    assert_eq!(fraction, "4.5");
}

#[test]
fn operator_tokens_carry_no_payload() {
    let toks = tokenize("1+2").expect("lexes");
    assert_eq!(toks.len(), 3);
    assert!(toks[1].value.is_empty());
}

#[test]
fn brackets_and_parens_share_tags() {
    let toks = tokenize("[(])").expect("lexes");
    let kinds: Vec<Vocab> = toks.iter().map(|t| t.vocab).collect();
    assert_eq!(
        kinds,
        vec![Vocab::OpenGroup, Vocab::OpenGroup, Vocab::CloseGroup, Vocab::CloseGroup]
    );
}

#[test]
fn whitespace_splits_nothing() {
    let spaced = tokenize(" 1 2 + 3 ").expect("lexes");
    let dense = tokenize("12+3").expect("lexes");
    assert_eq!(spaced.len(), dense.len());
    let a: String = spaced[0].value.iter().collect();
    let b: String = dense[0].value.iter().collect();
    assert_eq!(a, b);
}

#[test]
fn lex_faults_are_atomic() {
    assert!(matches!(tokenize("1..2"), Err(EvalError::MalformedLiteral)));
    assert!(matches!(tokenize("a"), Err(EvalError::UnrecognizedChar('a'))));
}

#[test]
fn is_valid_op_recognizes_exactly_eight() {
    for c in ['+', '-', '*', '/', '(', ')', '[', ']'] {
        assert!(is_valid_op(&c));
    }
    for c in ['0', '.', ' ', '#', '{', '}'] {
        assert!(!is_valid_op(&c));
    }
}

#[test]
fn parser_refuses_empty_token_sequence() {
    let r = Parser::new(Vec::new());
    assert!(matches!(r, Err(EvalError::EmptyInput)));
}

#[test]
fn parser_evaluates_hand_built_tokens() {
    let toks = vec![
        Token { vocab: Vocab::Number, value: vec!['2'] },
        Token { vocab: Vocab::Plus, value: Vec::new() },
        Token { vocab: Vocab::Number, value: vec!['3'] },
    ];
    let mut p = Parser::new(toks).expect("non-empty");
    let v = p.parse().expect("parses");
    assert!(v.value_eq(&Rational::from_int(5)));
}

#[test]
fn bare_dot_is_a_number_format_fault() {
    let toks = vec![Token { vocab: Vocab::Number, value: vec!['.'] }];
    let mut p = Parser::new(toks).expect("non-empty");
    assert_eq!(p.parse(), Err(EvalError::NumberFormat));
}
