use vstd::prelude::*;
use vstd::string::StrSliceExecFns;
use vstd::string::StringExecFns;

use crate::ast::{
    exprs_model, lemma_exprs_model_push, lemma_vars_model_push, vars_model, ExprModel, Expression,
    Token, Var,
};
use crate::errors::{ParseError, ParseErrorKind, TokenizeError};
use crate::grammar::{
    char_token, gel_scan, gel_spec, gne_spec, name_scan, name_spec, num_scan, num_spec,
    tok_scan, tokenize_spec, var_list_spec, vlist_scan,
};
use crate::text::whitespace_char;

verus! {

/// The token for one character, or None when the character is no symbol of
/// the language.
fn token_of_char(c: char) -> (r: Option<Token>)
    ensures
        r == char_token(c),
{
    match c {
        '(' => Some(Token::OpenParen),
        ')' => Some(Token::CloseParen),
        '[' => Some(Token::OpenSquare),
        ']' => Some(Token::CloseSquare),
        '{' => Some(Token::OpenCurly),
        '}' => Some(Token::CloseCurly),
        '|' => Some(Token::Pipe),
        '*' => Some(Token::Dec),
        '&' => Some(Token::Inc),
        _ => None,
    }
}

/// Converts a source text into its token sequence, scanning left to right:
/// each of the nine symbols becomes its token, whitespace is silently
/// dropped, and any other character fails with its position.
pub fn tokenize(input: &str) -> (r: Result<Vec<Token>, TokenizeError>)
    ensures
        match r {
            Ok(tokens) => tokenize_spec(input@) == Ok::<Seq<Token>, TokenizeError>(tokens@),
            Err(e) => tokenize_spec(input@) == Err::<Seq<Token>, TokenizeError>(e),
        },
{
    let n = input.unicode_len();
    let mut tokens: Vec<Token> = Vec::new();
    let mut i: usize = 0;
    while i < n
        invariant
            n == input@.len(),
            i <= n,
            tok_scan(input@, i as nat, tokens@) == tokenize_spec(input@),
        decreases n - i,
    {
        let c = input.get_char(i);
        match token_of_char(c) {
            Some(t) => tokens.push(t),
            None => {
                if !whitespace_char(c) {
                    return Err(TokenizeError { ch: c, at: i });
                }
            },
        }
        i = i + 1;
    }
    Ok(tokens)
}

/// Decodes an identifier from the token sequence: `start` must point at an
/// `(`; the balanced run through the matching `)` becomes the identifier's
/// characters. Returns the identifier text and the index just past the run.
pub fn get_var_name(tokens: &Vec<Token>, start: usize) -> (r: Result<(String, usize), ParseError>)
    ensures
        match r {
            Ok((name, end)) => name_spec(tokens@, start as nat) == Ok::<
                (Seq<char>, nat),
                ParseError,
            >((name@, end as nat)) && start + 1 < end <= tokens@.len(),
            Err(e) => name_spec(tokens@, start as nat) == Err::<(Seq<char>, nat), ParseError>(e),
        },
{
    if start >= tokens.len() {
        return Err(ParseError { kind: ParseErrorKind::EndOfTokens, at: start });
    }
    if tokens[start] != Token::OpenParen {
        return Err(ParseError { kind: ParseErrorKind::ExpectedOpenParen, at: start });
    }
    let mut index = start + 1;
    let mut name = String::new();
    name.append("(");
    proof {
        reveal_strlit("(");
        assert(name@ =~= seq!['(']);
    }
    let mut depth: usize = 1;
    loop
        invariant
            start + 1 <= index <= tokens@.len(),
            1 <= depth <= index,
            name_scan(tokens@, index as nat, depth as nat, name@) == name_spec(
                tokens@,
                start as nat,
            ),
        decreases tokens@.len() - index,
    {
        if index >= tokens.len() {
            return Err(ParseError { kind: ParseErrorKind::EndOfTokens, at: index });
        }
        match tokens[index] {
            Token::OpenParen => {
                let ghost prev = name@;
                depth = depth + 1;
                name.append("(");
                proof {
                    reveal_strlit("(");
                    assert(name@ =~= prev.push('('));
                }
            },
            Token::CloseParen => {
                let ghost prev = name@;
                name.append(")");
                proof {
                    reveal_strlit(")");
                    assert(name@ =~= prev.push(')'));
                }
                if depth == 1 {
                    index = index + 1;
                    return Ok((name, index));
                }
                depth = depth - 1;
            },
            _ => {
                return Err(ParseError { kind: ParseErrorKind::UnexpectedToken, at: index });
            },
        }
        index = index + 1;
    }
}

/// Decodes a parameter list: `start` must point at `(`; each `(`-led run
/// inside is one identifier; the list ends at the matching `)`. Returns the
/// identifiers and the index just past the list.
pub fn get_var_list(tokens: &Vec<Token>, start: usize) -> (r: Result<
    (Vec<Var>, usize),
    ParseError,
>)
    ensures
        match r {
            Ok((vars, end)) => var_list_spec(tokens@, start as nat) == Ok::<
                (Seq<Seq<char>>, nat),
                ParseError,
            >((vars_model(vars@), end as nat)) && start < end <= tokens@.len(),
            Err(e) => var_list_spec(tokens@, start as nat) == Err::<
                (Seq<Seq<char>>, nat),
                ParseError,
            >(e),
        },
{
    if start >= tokens.len() {
        return Err(ParseError { kind: ParseErrorKind::EndOfTokens, at: start });
    }
    if tokens[start] != Token::OpenParen {
        return Err(ParseError { kind: ParseErrorKind::ExpectedOpenParen, at: start });
    }
    let mut vars: Vec<Var> = Vec::new();
    let mut index = start + 1;
    proof {
        assert(vars_model(vars@) =~= Seq::<Seq<char>>::empty());
    }
    loop
        invariant
            start < index <= tokens@.len(),
            vlist_scan(tokens@, index as nat, vars_model(vars@)) == var_list_spec(
                tokens@,
                start as nat,
            ),
        decreases tokens@.len() - index,
    {
        if index >= tokens.len() {
            return Err(ParseError { kind: ParseErrorKind::EndOfTokens, at: index });
        }
        match tokens[index] {
            Token::OpenParen => {
                match get_var_name(tokens, index) {
                    Ok((nm, end)) => {
                        let ghost prev = vars@;
                        let v = Var(nm);
                        proof {
                            lemma_vars_model_push(prev, v);
                        }
                        vars.push(v);
                        index = end;
                    },
                    Err(e) => {
                        return Err(e);
                    },
                }
            },
            Token::CloseParen => {
                index = index + 1;
                return Ok((vars, index));
            },
            _ => {
                return Err(ParseError { kind: ParseErrorKind::UnexpectedToken, at: index });
            },
        }
    }
}

/// Decodes a numeric literal: `start` points at the `[` whose body is a run
/// of `()` pairs; the count of pairs is the value. Returns the value and the
/// index just past the closing `]`.
pub fn get_num(tokens: &Vec<Token>, start: usize) -> (r: Result<(u32, usize), ParseError>)
    ensures
        match r {
            Ok((n, end)) => num_spec(tokens@, start as nat) == Ok::<(u32, nat), ParseError>(
                (n, end as nat),
            ) && start < end <= tokens@.len(),
            Err(e) => num_spec(tokens@, start as nat) == Err::<(u32, nat), ParseError>(e),
        },
{
    if start >= tokens.len() || start + 1 >= tokens.len() {
        return Err(ParseError { kind: ParseErrorKind::EndOfTokens, at: start });
    }
    if tokens[start] != Token::OpenSquare && tokens[start + 1] != Token::OpenParen {
        return Err(ParseError { kind: ParseErrorKind::ExpectedNumber, at: start });
    }
    let mut index = start + 1;
    let mut num: u32 = 0;
    loop
        invariant
            start < index <= tokens@.len(),
            num_scan(tokens@, index as nat, num) == num_spec(tokens@, start as nat),
        decreases tokens@.len() - index,
    {
        if index >= tokens.len() {
            return Err(ParseError { kind: ParseErrorKind::EndOfTokens, at: index });
        }
        match tokens[index] {
            Token::OpenParen => {
                if index + 1 >= tokens.len() {
                    return Err(ParseError { kind: ParseErrorKind::EndOfTokens, at: index + 1 });
                }
                if tokens[index + 1] != Token::CloseParen {
                    return Err(
                        ParseError { kind: ParseErrorKind::ExpectedCloseParen, at: index + 1 },
                    );
                }
                if num == u32::MAX {
                    return Err(ParseError { kind: ParseErrorKind::NumberTooLarge, at: index });
                }
                num = num + 1;
                index = index + 2;
            },
            Token::CloseSquare => {
                index = index + 1;
                return Ok((num, index));
            },
            _ => {
                return Err(ParseError { kind: ParseErrorKind::UnexpectedToken, at: index });
            },
        }
    }
}

/// Decodes a bracketed expression list: `start` must point at `[`;
/// expressions follow until the matching `]`. Returns the expressions and
/// the index just past the `]`.
pub fn get_expression_list(tokens: &Vec<Token>, start: usize) -> (r: Result<
    (Vec<Expression>, usize),
    ParseError,
>)
    ensures
        match r {
            Ok((exprs, end)) => gel_spec(tokens@, start as nat) == Ok::<
                (Seq<crate::ast::ExprModel>, nat),
                ParseError,
            >((exprs_model(exprs@), end as nat)) && start < end <= tokens@.len(),
            Err(e) => gel_spec(tokens@, start as nat) == Err::<
                (Seq<crate::ast::ExprModel>, nat),
                ParseError,
            >(e),
        },
    decreases tokens@.len() - start, 2int,
{
    if start >= tokens.len() {
        return Err(ParseError { kind: ParseErrorKind::EndOfTokens, at: start });
    }
    if tokens[start] != Token::OpenSquare {
        return Err(ParseError { kind: ParseErrorKind::ExpectedOpenSquare, at: start });
    }
    let mut exprs: Vec<Expression> = Vec::new();
    let mut index = start + 1;
    proof {
        assert(exprs_model(exprs@) =~= Seq::<crate::ast::ExprModel>::empty());
    }
    loop
        invariant
            start < index <= tokens@.len(),
            gel_scan(tokens@, index as nat, exprs_model(exprs@)) == gel_spec(
                tokens@,
                start as nat,
            ),
        decreases tokens@.len() - index,
    {
        if index >= tokens.len() {
            return Err(ParseError { kind: ParseErrorKind::EndOfTokens, at: index });
        }
        if tokens[index] == Token::CloseSquare {
            index = index + 1;
            return Ok((exprs, index));
        }
        match get_next_expression(tokens, index) {
            Err(e) => {
                return Err(e);
            },
            Ok((e, end)) => {
                let ghost prev = exprs@;
                proof {
                    lemma_exprs_model_push(prev, e);
                }
                exprs.push(e);
                index = end;
                if index >= tokens.len() {
                    return Err(
                        ParseError { kind: ParseErrorKind::ExpectedCloseSquare, at: index },
                    );
                }
            },
        }
    }
}

/// Decodes one expression starting at `start`. See `gne_spec` for the
/// grammar that this decoder follows; the result is the expression tree and
/// the index of the next unconsumed token.
#[verifier::rlimit(60)]
pub fn get_next_expression(tokens: &Vec<Token>, start: usize) -> (r: Result<
    (Expression, usize),
    ParseError,
>)
    ensures
        match r {
            Ok((e, end)) => gne_spec(tokens@, start as nat) == Ok::<
                (crate::ast::ExprModel, nat),
                ParseError,
            >((e@, end as nat)) && start < end <= tokens@.len(),
            Err(pe) => gne_spec(tokens@, start as nat) == Err::<
                (crate::ast::ExprModel, nat),
                ParseError,
            >(pe),
        },
    decreases tokens@.len() - start, 3int,
{
    if start >= tokens.len() {
        return Err(ParseError { kind: ParseErrorKind::EndOfTokens, at: start });
    }
    match tokens[start] {
        Token::OpenCurly => {
            let (name, end) = match get_var_name(tokens, start + 1) {
                Ok(v) => v,
                Err(e) => {
                    return Err(e);
                },
            };
            if end >= tokens.len() || end + 1 >= tokens.len() {
                return Err(ParseError { kind: ParseErrorKind::EndOfTokens, at: end });
            }
            if tokens[end] != Token::CloseCurly {
                return Err(ParseError { kind: ParseErrorKind::ExpectedCloseCurly, at: end });
            }
            let ind = end + 1;
            if tokens[ind] == Token::OpenParen {
                let (params, end2) = match get_var_list(tokens, ind) {
                    Ok(v) => v,
                    Err(e) => {
                        return Err(e);
                    },
                };
                if end2 >= tokens.len() {
                    return Err(ParseError { kind: ParseErrorKind::EndOfTokens, at: end2 });
                }
                if tokens[end2] != Token::OpenSquare {
                    return Err(
                        ParseError { kind: ParseErrorKind::ExpectedOpenSquare, at: end2 },
                    );
                }
                let (body, end3) = match get_expression_list(tokens, end2) {
                    Ok(v) => v,
                    Err(e) => {
                        return Err(e);
                    },
                };
                proof {
                    assert((Expression::ListExp(body))@ == ExprModel::ListExp(
                        exprs_model(body@),
                    ));
                }
                Ok(
                    (
                        Expression::FunctionDef(
                            Var(name),
                            params,
                            Box::new(Expression::ListExp(body)),
                        ),
                        end3,
                    ),
                )
            } else if tokens[ind] == Token::OpenSquare {
                let (args, end2) = match get_expression_list(tokens, ind) {
                    Ok(v) => v,
                    Err(e) => {
                        return Err(e);
                    },
                };
                proof {
                    assert((Expression::ListExp(args))@ == ExprModel::ListExp(
                        exprs_model(args@),
                    ));
                }
                Ok(
                    (
                        Expression::FunctionCall(Var(name), Box::new(Expression::ListExp(args))),
                        end2,
                    ),
                )
            } else {
                Err(ParseError { kind: ParseErrorKind::ExpectedParenOrSquare, at: ind })
            }
        },
        Token::OpenSquare => {
            if start + 1 >= tokens.len() {
                return Err(ParseError { kind: ParseErrorKind::EndOfTokens, at: start + 1 });
            }
            if tokens[start + 1] == Token::OpenParen {
                let (n, end) = match get_num(tokens, start) {
                    Ok(v) => v,
                    Err(e) => {
                        return Err(e);
                    },
                };
                return Ok((Expression::Val(n), end));
            }
            if tokens[start + 1] == Token::CloseSquare {
                return Ok((Expression::Val(0), start + 2));
            }
            let (cond, end) = match get_expression_list(tokens, start) {
                Ok(v) => v,
                Err(e) => {
                    return Err(e);
                },
            };
            if end >= tokens.len() || tokens[end] != Token::Pipe {
                return Ok((Expression::ListExp(cond), end));
            }
            proof {
                assert((Expression::ListExp(cond))@ == ExprModel::ListExp(exprs_model(cond@)));
            }
            if end + 1 >= tokens.len() {
                return Err(ParseError { kind: ParseErrorKind::EndOfTokens, at: end + 1 });
            }
            let (thenb, end2) = match get_expression_list(tokens, end + 1) {
                Ok(v) => v,
                Err(e) => {
                    return Err(e);
                },
            };
            if end2 >= tokens.len() || tokens[end2] != Token::Pipe {
                let empty_else: Vec<Expression> = Vec::new();
                proof {
                    assert(exprs_model(empty_else@) =~= Seq::<crate::ast::ExprModel>::empty());
                    assert((Expression::ListExp(thenb))@ == ExprModel::ListExp(
                        exprs_model(thenb@),
                    ));
                    assert((Expression::ListExp(empty_else))@ == ExprModel::ListExp(
                        exprs_model(empty_else@),
                    ));
                }
                return Ok(
                    (
                        Expression::If(
                            Box::new(Expression::ListExp(cond)),
                            Box::new(Expression::ListExp(thenb)),
                            Box::new(Expression::ListExp(empty_else)),
                        ),
                        end2,
                    ),
                );
            }
            if end2 + 1 >= tokens.len() {
                return Err(ParseError { kind: ParseErrorKind::EndOfTokens, at: end2 + 1 });
            }
            let (elseb, end3) = match get_expression_list(tokens, end2 + 1) {
                Ok(v) => v,
                Err(e) => {
                    return Err(e);
                },
            };
            proof {
                assert((Expression::ListExp(thenb))@ == ExprModel::ListExp(exprs_model(thenb@)));
                assert((Expression::ListExp(elseb))@ == ExprModel::ListExp(exprs_model(elseb@)));
            }
            Ok(
                (
                    Expression::If(
                        Box::new(Expression::ListExp(cond)),
                        Box::new(Expression::ListExp(thenb)),
                        Box::new(Expression::ListExp(elseb)),
                    ),
                    end3,
                ),
            )
        },
        Token::Dec => {
            let ind = start + 1;
            if ind >= tokens.len() {
                return Err(ParseError { kind: ParseErrorKind::EndOfTokens, at: ind });
            }
            let (body, end) = match get_next_expression(tokens, ind) {
                Ok(v) => v,
                Err(e) => {
                    return Err(e);
                },
            };
            let ghost bm = body@;
            let ghost be = body;
            let mut items: Vec<Expression> = Vec::new();
            items.push(body);
            let name = String::from_str("*");
            proof {
                reveal_strlit("*");
                assert(name@ =~= seq!['*']);
                assert(items@ =~= Seq::<Expression>::empty().push(be));
                lemma_exprs_model_push(Seq::<Expression>::empty(), be);
                assert(exprs_model(Seq::<Expression>::empty()) =~= Seq::<ExprModel>::empty());
                assert(exprs_model(items@) =~= seq![bm]);
                assert((Expression::ListExp(items))@ == ExprModel::ListExp(exprs_model(items@)));
            }
            Ok((Expression::FunctionCall(Var(name), Box::new(Expression::ListExp(items))), end))
        },
        Token::Inc => {
            let ind = start + 1;
            if ind >= tokens.len() {
                return Err(ParseError { kind: ParseErrorKind::EndOfTokens, at: ind });
            }
            let (body, end) = match get_next_expression(tokens, ind) {
                Ok(v) => v,
                Err(e) => {
                    return Err(e);
                },
            };
            let ghost bm = body@;
            let ghost be = body;
            let mut items: Vec<Expression> = Vec::new();
            items.push(body);
            let name = String::from_str("&");
            proof {
                reveal_strlit("&");
                assert(name@ =~= seq!['&']);
                assert(items@ =~= Seq::<Expression>::empty().push(be));
                lemma_exprs_model_push(Seq::<Expression>::empty(), be);
                assert(exprs_model(Seq::<Expression>::empty()) =~= Seq::<ExprModel>::empty());
                assert(exprs_model(items@) =~= seq![bm]);
                assert((Expression::ListExp(items))@ == ExprModel::ListExp(exprs_model(items@)));
            }
            Ok((Expression::FunctionCall(Var(name), Box::new(Expression::ListExp(items))), end))
        },
        Token::OpenParen => {
            if start + 1 >= tokens.len() {
                return Err(ParseError { kind: ParseErrorKind::EndOfTokens, at: start + 1 });
            }
            match tokens[start + 1] {
                Token::Pipe => {
                    let (tryb, end) = match get_expression_list(tokens, start + 2) {
                        Ok(v) => v,
                        Err(e) => {
                            return Err(e);
                        },
                    };
                    let (catchb, end2) = match get_expression_list(tokens, end) {
                        Ok(v) => v,
                        Err(e) => {
                            return Err(e);
                        },
                    };
                    if end2 >= tokens.len() {
                        return Err(ParseError { kind: ParseErrorKind::EndOfTokens, at: end2 });
                    }
                    if tokens[end2] != Token::CloseParen {
                        return Err(
                            ParseError { kind: ParseErrorKind::ExpectedCloseParen, at: end2 },
                        );
                    }
                    proof {
                        assert((Expression::ListExp(tryb))@ == ExprModel::ListExp(
                            exprs_model(tryb@),
                        ));
                        assert((Expression::ListExp(catchb))@ == ExprModel::ListExp(
                            exprs_model(catchb@),
                        ));
                    }
                    Ok(
                        (
                            Expression::TryCatch(
                                Box::new(Expression::ListExp(tryb)),
                                Box::new(Expression::ListExp(catchb)),
                            ),
                            end2 + 1,
                        ),
                    )
                },
                Token::Dec => {
                    let (body, end) = match get_expression_list(tokens, start + 2) {
                        Ok(v) => v,
                        Err(e) => {
                            return Err(e);
                        },
                    };
                    if end >= tokens.len() {
                        return Err(ParseError { kind: ParseErrorKind::EndOfTokens, at: end });
                    }
                    if tokens[end] != Token::CloseParen {
                        return Err(
                            ParseError { kind: ParseErrorKind::ExpectedCloseParen, at: end },
                        );
                    }
                    proof {
                        assert((Expression::ListExp(body))@ == ExprModel::ListExp(
                            exprs_model(body@),
                        ));
                    }
                    Ok((Expression::PrintChar(Box::new(Expression::ListExp(body))), end + 1))
                },
                Token::Inc => {
                    let (body, end) = match get_expression_list(tokens, start + 2) {
                        Ok(v) => v,
                        Err(e) => {
                            return Err(e);
                        },
                    };
                    if end >= tokens.len() {
                        return Err(ParseError { kind: ParseErrorKind::EndOfTokens, at: end });
                    }
                    if tokens[end] != Token::CloseParen {
                        return Err(
                            ParseError { kind: ParseErrorKind::ExpectedCloseParen, at: end },
                        );
                    }
                    proof {
                        assert((Expression::ListExp(body))@ == ExprModel::ListExp(
                            exprs_model(body@),
                        ));
                    }
                    Ok((Expression::PrintNum(Box::new(Expression::ListExp(body))), end + 1))
                },
                _ => Err(ParseError { kind: ParseErrorKind::UnexpectedToken, at: start + 1 }),
            }
        },
        _ => Err(ParseError { kind: ParseErrorKind::UnexpectedToken, at: start }),
    }
}

} // verus!
