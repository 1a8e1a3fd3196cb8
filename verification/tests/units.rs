use bracket_lang::ast::{Expression, Token, Var};
use bracket_lang::errors::{EvalError, ParseError, ParseErrorKind, TokenizeError};
use bracket_lang::eval::{eval_expression, FunctionTable, VarTable};
use bracket_lang::parse::{
    get_expression_list, get_next_expression, get_num, get_var_list, get_var_name, tokenize,
};
use bracket_lang::text::{scalar_char_or_placeholder, u32_to_string};

#[test]
fn tokenize_maps_each_symbol() {
    let tokens = tokenize("()[]{}|*&").unwrap();
    assert_eq!(
        tokens,
        vec![
            Token::OpenParen,
            Token::CloseParen,
            Token::OpenSquare,
            Token::CloseSquare,
            Token::OpenCurly,
            Token::CloseCurly,
            Token::Pipe,
            Token::Dec,
            Token::Inc,
        ]
    );
}

#[test]
fn tokenize_drops_whitespace_and_rejects_other_characters() {
    assert_eq!(tokenize(" \t\n(").unwrap(), vec![Token::OpenParen]);
    assert_eq!(tokenize("(a)").unwrap_err(), TokenizeError { ch: 'a', at: 1 });
}

#[test]
fn var_name_decodes_a_balanced_run() {
    let tokens = tokenize("(()())").unwrap();
    let (name, end) = get_var_name(&tokens, 0).unwrap();
    assert_eq!(name, "(()())");
    assert_eq!(end, 6);
}

#[test]
fn var_name_requires_balance_and_parens_only() {
    let tokens = tokenize("(()").unwrap();
    assert_eq!(
        get_var_name(&tokens, 0).unwrap_err(),
        ParseError { kind: ParseErrorKind::EndOfTokens, at: 3 }
    );
    let tokens2 = tokenize("([)").unwrap();
    assert_eq!(
        get_var_name(&tokens2, 0).unwrap_err(),
        ParseError { kind: ParseErrorKind::UnexpectedToken, at: 1 }
    );
}

#[test]
fn var_list_decodes_each_identifier() {
    let tokens = tokenize("((())(()()))").unwrap();
    let (vars, end) = get_var_list(&tokens, 0).unwrap();
    assert_eq!(vars, vec![Var("(())".to_string()), Var("(()())".to_string())]);
    assert_eq!(end, 12);
}

#[test]
fn number_decoder_counts_pairs() {
    let tokens = tokenize("[()()]").unwrap();
    assert_eq!(get_num(&tokens, 0).unwrap(), (2, 6));
    let empty = tokenize("[]").unwrap();
    assert_eq!(get_num(&empty, 0).unwrap(), (0, 2));
}

#[test]
fn number_decoder_rejects_broken_pairs() {
    let tokens = tokenize("[(]").unwrap();
    assert_eq!(
        get_num(&tokens, 0).unwrap_err(),
        ParseError { kind: ParseErrorKind::ExpectedCloseParen, at: 2 }
    );
}

#[test]
fn expression_list_collects_until_the_bracket_closes() {
    let tokens = tokenize("[[()][()()]]").unwrap();
    let (exprs, end) = get_expression_list(&tokens, 0).unwrap();
    assert_eq!(exprs, vec![Expression::Val(1), Expression::Val(2)]);
    assert_eq!(end, 12);
}

#[test]
fn parser_reports_the_offending_index() {
    let empty: Vec<Token> = Vec::new();
    assert_eq!(
        get_next_expression(&empty, 0).unwrap_err(),
        ParseError { kind: ParseErrorKind::EndOfTokens, at: 0 }
    );
    let close = tokenize(")").unwrap();
    assert_eq!(
        get_next_expression(&close, 0).unwrap_err(),
        ParseError { kind: ParseErrorKind::UnexpectedToken, at: 0 }
    );
    let unclosed = tokenize("{(())").unwrap();
    assert_eq!(
        get_next_expression(&unclosed, 0).unwrap_err(),
        ParseError { kind: ParseErrorKind::EndOfTokens, at: 5 }
    );
    let noparen = tokenize("{(())}()").unwrap();
    assert_eq!(
        get_next_expression(&noparen, 0).unwrap_err(),
        ParseError { kind: ParseErrorKind::EndOfTokens, at: 8 }
    );
}

#[test]
fn parser_distinguishes_the_failure_kinds() {
    let missing_curly = tokenize("{(())((").unwrap();
    assert_eq!(
        get_next_expression(&missing_curly, 0).unwrap_err(),
        ParseError { kind: ParseErrorKind::ExpectedCloseCurly, at: 5 }
    );
    let bad_follower = tokenize("{(())}|(").unwrap();
    assert_eq!(
        get_next_expression(&bad_follower, 0).unwrap_err(),
        ParseError { kind: ParseErrorKind::ExpectedParenOrSquare, at: 6 }
    );
    let missing_body = tokenize("{(())}(())((").unwrap();
    assert_eq!(
        get_next_expression(&missing_body, 0).unwrap_err(),
        ParseError { kind: ParseErrorKind::ExpectedOpenSquare, at: 10 }
    );
    let unclosed_list = tokenize("[[()]").unwrap();
    assert_eq!(
        get_next_expression(&unclosed_list, 0).unwrap_err(),
        ParseError { kind: ParseErrorKind::ExpectedCloseSquare, at: 5 }
    );
    let name_without_paren = tokenize("{[").unwrap();
    assert_eq!(
        get_next_expression(&name_without_paren, 0).unwrap_err(),
        ParseError { kind: ParseErrorKind::ExpectedOpenParen, at: 1 }
    );
    let not_a_number = tokenize("()").unwrap();
    assert_eq!(
        get_num(&not_a_number, 0).unwrap_err(),
        ParseError { kind: ParseErrorKind::ExpectedNumber, at: 0 }
    );
    let reserved_paren_form = tokenize("(()").unwrap();
    assert_eq!(
        get_next_expression(&reserved_paren_form, 0).unwrap_err(),
        ParseError { kind: ParseErrorKind::UnexpectedToken, at: 1 }
    );
    let unclosed_print = tokenize("(*[[()]][").unwrap();
    assert_eq!(
        get_next_expression(&unclosed_print, 0).unwrap_err(),
        ParseError { kind: ParseErrorKind::ExpectedCloseParen, at: 8 }
    );
}

#[test]
fn parser_builds_a_conditional_tree() {
    let tokens = tokenize("[[()]]|[[()()]]|[[]]").unwrap();
    let (e, end) = get_next_expression(&tokens, 0).unwrap();
    assert_eq!(end, tokens.len());
    let expected = Expression::If(
        Box::new(Expression::ListExp(vec![Expression::Val(1)])),
        Box::new(Expression::ListExp(vec![Expression::Val(2)])),
        Box::new(Expression::ListExp(vec![Expression::Val(0)])),
    );
    assert_eq!(e, expected);
}

#[test]
fn parser_desugars_the_unary_operators() {
    let tokens = tokenize("*[]").unwrap();
    let (e, _) = get_next_expression(&tokens, 0).unwrap();
    let expected = Expression::FunctionCall(
        Var("*".to_string()),
        Box::new(Expression::ListExp(vec![Expression::Val(0)])),
    );
    assert_eq!(e, expected);
}

#[test]
fn evaluator_returns_literals_unchanged() {
    let mut funcs = FunctionTable::new();
    let mut vars = VarTable::new();
    let mut out: Vec<String> = Vec::new();
    let r = eval_expression(&Expression::Val(7), &mut funcs, &mut vars, &mut out, 10);
    assert_eq!(r, Ok(7));
}

#[test]
fn increment_saturates_at_the_maximum() {
    let mut funcs = FunctionTable::new();
    let mut vars = VarTable::new();
    let mut out: Vec<String> = Vec::new();
    let e = Expression::FunctionCall(
        Var("&".to_string()),
        Box::new(Expression::ListExp(vec![Expression::Val(u32::MAX)])),
    );
    let r = eval_expression(&e, &mut funcs, &mut vars, &mut out, 10);
    assert_eq!(r, Ok(u32::MAX));
}

#[test]
fn operator_arity_is_exactly_one() {
    let mut funcs = FunctionTable::new();
    let mut vars = VarTable::new();
    let mut out: Vec<String> = Vec::new();
    let e = Expression::FunctionCall(
        Var("*".to_string()),
        Box::new(Expression::ListExp(vec![Expression::Val(1), Expression::Val(2)])),
    );
    let r = eval_expression(&e, &mut funcs, &mut vars, &mut out, 10);
    assert_eq!(
        r,
        Err(EvalError::OperatorArity { op: Var("*".to_string()), got: 2 })
    );
    assert_eq!(
        r.unwrap_err().message(),
        "* operator expects exactly one argument, got 2"
    );
}

#[test]
fn call_arguments_must_be_a_list() {
    let mut funcs = FunctionTable::new();
    let mut vars = VarTable::new();
    let mut out: Vec<String> = Vec::new();
    // Define (()) as a function of one parameter first.
    let def = Expression::FunctionDef(
        Var("(())".to_string()),
        vec![Var("(()())".to_string())],
        Box::new(Expression::ListExp(vec![Expression::Val(1)])),
    );
    assert_eq!(eval_expression(&def, &mut funcs, &mut vars, &mut out, 10), Ok(0));
    let call = Expression::FunctionCall(Var("(())".to_string()), Box::new(Expression::Val(1)));
    let r = eval_expression(&call, &mut funcs, &mut vars, &mut out, 10);
    assert_eq!(r, Err(EvalError::InvalidCallArguments(Var("(())".to_string()))));
}

#[test]
fn depth_limit_is_the_uncatchable_failure() {
    let mut funcs = FunctionTable::new();
    let mut vars = VarTable::new();
    let mut out: Vec<String> = Vec::new();
    // At fuel zero even a literal is beyond the depth bound, and try/catch
    // does not intercept that.
    let e = Expression::TryCatch(
        Box::new(Expression::Val(1)),
        Box::new(Expression::Val(2)),
    );
    let r = eval_expression(&e, &mut funcs, &mut vars, &mut out, 1);
    assert_eq!(r, Err(EvalError::DepthLimit));
    assert!(out.is_empty());
}

#[test]
fn print_character_substitutes_a_placeholder() {
    let mut funcs = FunctionTable::new();
    let mut vars = VarTable::new();
    let mut out: Vec<String> = Vec::new();
    // 0xD800 is a surrogate, not a scalar value.
    let e = Expression::PrintChar(Box::new(Expression::Val(0xD800)));
    let r = eval_expression(&e, &mut funcs, &mut vars, &mut out, 10);
    assert_eq!(r, Ok(0xD800));
    assert_eq!(out, vec!["?".to_string()]);
}

#[test]
fn scalar_conversion_matches_the_standard_library() {
    assert_eq!(scalar_char_or_placeholder(97), 'a');
    assert_eq!(scalar_char_or_placeholder(0x1F600), '\u{1F600}');
    assert_eq!(scalar_char_or_placeholder(0xDFFF), '?');
    assert_eq!(scalar_char_or_placeholder(0x110000), '?');
}

#[test]
fn decimal_rendering_matches_the_standard_library() {
    assert_eq!(u32_to_string(0), "0".to_string());
    assert_eq!(u32_to_string(42), "42".to_string());
    assert_eq!(u32_to_string(u32::MAX), u32::MAX.to_string());
}

#[test]
fn identifiers_compare_by_characters() {
    assert_eq!(Var("(())".to_string()), Var("(())".to_string()));
    assert_ne!(Var("(())".to_string()), Var("(()())".to_string()));
}
