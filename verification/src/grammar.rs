use vstd::prelude::*;

use crate::ast::{ExprModel, Token};
use crate::errors::{ParseError, ParseErrorKind, TokenizeError};
use crate::text::is_whitespace_char;

verus! {

/// A parse failure of the given kind at the given token index.
pub open spec fn pe(kind: ParseErrorKind, at: nat) -> ParseError {
    ParseError { kind, at: at as usize }
}

/// The token for one source character, or None when the character is no
/// symbol of the language.
pub open spec fn char_token(c: char) -> Option<Token> {
    if c == '(' {
        Some(Token::OpenParen)
    } else if c == ')' {
        Some(Token::CloseParen)
    } else if c == '[' {
        Some(Token::OpenSquare)
    } else if c == ']' {
        Some(Token::CloseSquare)
    } else if c == '{' {
        Some(Token::OpenCurly)
    } else if c == '}' {
        Some(Token::CloseCurly)
    } else if c == '|' {
        Some(Token::Pipe)
    } else if c == '*' {
        Some(Token::Dec)
    } else if c == '&' {
        Some(Token::Inc)
    } else {
        None
    }
}

/// Scans the characters from position `i` on, extending `acc`: symbols map
/// to their tokens, whitespace is dropped, anything else fails at its
/// position.
pub open spec fn tok_scan(s: Seq<char>, i: nat, acc: Seq<Token>) -> Result<
    Seq<Token>,
    TokenizeError,
>
    decreases s.len() - i,
{
    if i >= s.len() {
        Ok(acc)
    } else {
        match char_token(s[i as int]) {
            Some(t) => tok_scan(s, i + 1, acc.push(t)),
            None => if is_whitespace_char(s[i as int]) {
                tok_scan(s, i + 1, acc)
            } else {
                Err(TokenizeError { ch: s[i as int], at: i as usize })
            },
        }
    }
}

/// The token sequence of a source text, or the first unrecognized character.
pub open spec fn tokenize_spec(s: Seq<char>) -> Result<Seq<Token>, TokenizeError> {
    tok_scan(s, 0, Seq::empty())
}

/// Scans an identifier body from position `i` with `depth` parentheses still
/// open, having accumulated the characters `acc`. Stops just past the token
/// that closes the outermost parenthesis.
pub open spec fn name_scan(tokens: Seq<Token>, i: nat, depth: nat, acc: Seq<char>) -> Result<
    (Seq<char>, nat),
    ParseError,
>
    decreases tokens.len() - i,
{
    if i >= tokens.len() {
        Err(pe(ParseErrorKind::EndOfTokens, i))
    } else {
        match tokens[i as int] {
            Token::OpenParen => name_scan(tokens, i + 1, depth + 1, acc.push('(')),
            Token::CloseParen => if depth == 1 {
                Ok((acc.push(')'), i + 1))
            } else {
                name_scan(tokens, i + 1, (depth - 1) as nat, acc.push(')'))
            },
            _ => Err(pe(ParseErrorKind::UnexpectedToken, i)),
        }
    }
}

/// Decodes an identifier: a balanced parenthesis run starting at `start`.
/// Returns the accumulated characters (outer pair included) and the index
/// just past the run.
pub open spec fn name_spec(tokens: Seq<Token>, start: nat) -> Result<
    (Seq<char>, nat),
    ParseError,
> {
    if start >= tokens.len() {
        Err(pe(ParseErrorKind::EndOfTokens, start))
    } else if tokens[start as int] != Token::OpenParen {
        Err(pe(ParseErrorKind::ExpectedOpenParen, start))
    } else {
        name_scan(tokens, start + 1, 1, seq!['('])
    }
}

/// Scans a parameter list body: identifiers until the closing `)`.
pub open spec fn vlist_scan(tokens: Seq<Token>, i: nat, acc: Seq<Seq<char>>) -> Result<
    (Seq<Seq<char>>, nat),
    ParseError,
>
    decreases tokens.len() - i,
{
    if i >= tokens.len() {
        Err(pe(ParseErrorKind::EndOfTokens, i))
    } else {
        match tokens[i as int] {
            Token::OpenParen => match name_spec(tokens, i) {
                Ok((n, end)) => if i < end <= tokens.len() {
                    vlist_scan(tokens, end, acc.push(n))
                } else {
                    // The identifier decoder always advances; never reached.
                    Err(pe(ParseErrorKind::UnexpectedToken, i))
                },
                Err(e) => Err(e),
            },
            Token::CloseParen => Ok((acc, i + 1)),
            _ => Err(pe(ParseErrorKind::UnexpectedToken, i)),
        }
    }
}

/// Decodes a parenthesized, comma-less parameter list starting at `start`.
pub open spec fn var_list_spec(tokens: Seq<Token>, start: nat) -> Result<
    (Seq<Seq<char>>, nat),
    ParseError,
> {
    if start >= tokens.len() {
        Err(pe(ParseErrorKind::EndOfTokens, start))
    } else if tokens[start as int] != Token::OpenParen {
        Err(pe(ParseErrorKind::ExpectedOpenParen, start))
    } else {
        vlist_scan(tokens, start + 1, Seq::empty())
    }
}

/// Scans a numeric literal body: `()` pairs until the closing `]`, counting
/// one per pair.
pub open spec fn num_scan(tokens: Seq<Token>, i: nat, acc: u32) -> Result<(u32, nat), ParseError>
    decreases tokens.len() - i,
{
    if i >= tokens.len() {
        Err(pe(ParseErrorKind::EndOfTokens, i))
    } else {
        match tokens[i as int] {
            Token::CloseSquare => Ok((acc, i + 1)),
            Token::OpenParen => if i + 1 >= tokens.len() {
                Err(pe(ParseErrorKind::EndOfTokens, i + 1))
            } else if tokens[i as int + 1] != Token::CloseParen {
                Err(pe(ParseErrorKind::ExpectedCloseParen, i + 1))
            } else if acc == u32::MAX {
                Err(pe(ParseErrorKind::NumberTooLarge, i))
            } else {
                num_scan(tokens, i + 2, (acc + 1) as u32)
            },
            _ => Err(pe(ParseErrorKind::UnexpectedToken, i)),
        }
    }
}

/// Decodes a numeric literal starting at `start`: `[` followed by `()` pairs
/// and a closing `]`. Returns the count and the index just past the `]`.
pub open spec fn num_spec(tokens: Seq<Token>, start: nat) -> Result<(u32, nat), ParseError> {
    if start + 1 >= tokens.len() {
        Err(pe(ParseErrorKind::EndOfTokens, start))
    } else if tokens[start as int] != Token::OpenSquare && tokens[start as int + 1]
        != Token::OpenParen {
        Err(pe(ParseErrorKind::ExpectedNumber, start))
    } else {
        num_scan(tokens, start + 1, 0)
    }
}

/// Scans an expression list body: expressions until the closing `]`.
pub open spec fn gel_scan(tokens: Seq<Token>, i: nat, acc: Seq<ExprModel>) -> Result<
    (Seq<ExprModel>, nat),
    ParseError,
>
    decreases tokens.len() - i, 4int,
{
    if i >= tokens.len() {
        Err(pe(ParseErrorKind::EndOfTokens, i))
    } else if tokens[i as int] == Token::CloseSquare {
        Ok((acc, i + 1))
    } else {
        match gne_spec(tokens, i) {
            Ok((e, end)) => if end >= tokens.len() {
                Err(pe(ParseErrorKind::ExpectedCloseSquare, end))
            } else if i < end {
                gel_scan(tokens, end, acc.push(e))
            } else {
                // The parser always advances; never reached.
                Err(pe(ParseErrorKind::UnexpectedToken, i))
            },
            Err(e) => Err(e),
        }
    }
}

/// Decodes a bracketed expression list starting at `start`: `[`, zero or
/// more expressions, `]`. Returns the expressions and the index just past
/// the `]`.
pub open spec fn gel_spec(tokens: Seq<Token>, start: nat) -> Result<
    (Seq<ExprModel>, nat),
    ParseError,
>
    decreases tokens.len() - start, 2int,
{
    if start >= tokens.len() {
        Err(pe(ParseErrorKind::EndOfTokens, start))
    } else if tokens[start as int] != Token::OpenSquare {
        Err(pe(ParseErrorKind::ExpectedOpenSquare, start))
    } else {
        gel_scan(tokens, start + 1, Seq::empty())
    }
}

/// Decodes one expression starting at `start`, dispatching on the token
/// there:
/// - `{name}(params)[body]` is a function definition, `{name}[args]` a call
///   or (with empty `args`) a variable read;
/// - `[` begins a numeric literal (lookahead `(`), the literal zero
///   (lookahead `]`), or an expression list that a following `|` may extend
///   into a two- or three-branch conditional;
/// - `*` and `&` wrap the following expression in a call of the built-in
///   decrement or increment operator;
/// - `(` begins the forms that have no classical surface syntax: the
///   try/catch `(|[try][catch])`, the character print `(*[body])` and the
///   number print `(&[body])`.
pub open spec fn gne_spec(tokens: Seq<Token>, start: nat) -> Result<(ExprModel, nat), ParseError>
    decreases tokens.len() - start, 3int,
{
    if start >= tokens.len() {
        Err(pe(ParseErrorKind::EndOfTokens, start))
    } else {
        match tokens[start as int] {
            Token::OpenCurly => match name_spec(tokens, start + 1) {
                Err(e) => Err(e),
                Ok((name, end)) => if end + 1 >= tokens.len() {
                    Err(pe(ParseErrorKind::EndOfTokens, end))
                } else if tokens[end as int] != Token::CloseCurly {
                    Err(pe(ParseErrorKind::ExpectedCloseCurly, end))
                } else if end <= start {
                    // The identifier decoder always advances; never reached.
                    Err(pe(ParseErrorKind::UnexpectedToken, start))
                } else {
                    let ind = end + 1;
                    if tokens[ind as int] == Token::OpenParen {
                        match var_list_spec(tokens, ind) {
                            Err(e) => Err(e),
                            Ok((params, end2)) => if end2 >= tokens.len() {
                                Err(pe(ParseErrorKind::EndOfTokens, end2))
                            } else if tokens[end2 as int] != Token::OpenSquare {
                                Err(pe(ParseErrorKind::ExpectedOpenSquare, end2))
                            } else if end2 <= start {
                                // The list decoder always advances; never reached.
                                Err(pe(ParseErrorKind::UnexpectedToken, start))
                            } else {
                                match gel_spec(tokens, end2) {
                                    Err(e) => Err(e),
                                    Ok((body, end3)) => Ok(
                                        (
                                            ExprModel::FunctionDef(
                                                name,
                                                params,
                                                Box::new(ExprModel::ListExp(body)),
                                            ),
                                            end3,
                                        ),
                                    ),
                                }
                            },
                        }
                    } else if tokens[ind as int] == Token::OpenSquare {
                        match gel_spec(tokens, ind) {
                            Err(e) => Err(e),
                            Ok((args, end2)) => Ok(
                                (
                                    ExprModel::FunctionCall(
                                        name,
                                        Box::new(ExprModel::ListExp(args)),
                                    ),
                                    end2,
                                ),
                            ),
                        }
                    } else {
                        Err(pe(ParseErrorKind::ExpectedParenOrSquare, ind))
                    }
                },
            },
            Token::OpenSquare => if start + 1 >= tokens.len() {
                Err(pe(ParseErrorKind::EndOfTokens, start + 1))
            } else if tokens[start as int + 1] == Token::OpenParen {
                match num_spec(tokens, start) {
                    Err(e) => Err(e),
                    Ok((n, end)) => Ok((ExprModel::Val(n), end)),
                }
            } else if tokens[start as int + 1] == Token::CloseSquare {
                Ok((ExprModel::Val(0), start + 2))
            } else {
                match gel_spec(tokens, start) {
                    Err(e) => Err(e),
                    Ok((cond, end)) => if end >= tokens.len() || tokens[end as int]
                        != Token::Pipe {
                        Ok((ExprModel::ListExp(cond), end))
                    } else if end + 1 >= tokens.len() {
                        Err(pe(ParseErrorKind::EndOfTokens, end + 1))
                    } else if end < start + 1 {
                        // The list decoder always advances; never reached.
                        Err(pe(ParseErrorKind::UnexpectedToken, start))
                    } else {
                        match gel_spec(tokens, end + 1) {
                            Err(e) => Err(e),
                            Ok((thenb, end2)) => if end2 >= tokens.len() || tokens[end2 as int]
                                != Token::Pipe {
                                Ok(
                                    (
                                        ExprModel::If(
                                            Box::new(ExprModel::ListExp(cond)),
                                            Box::new(ExprModel::ListExp(thenb)),
                                            Box::new(ExprModel::ListExp(Seq::empty())),
                                        ),
                                        end2,
                                    ),
                                )
                            } else if end2 + 1 >= tokens.len() {
                                Err(pe(ParseErrorKind::EndOfTokens, end2 + 1))
                            } else if end2 < start + 1 {
                                // The list decoder always advances; never reached.
                                Err(pe(ParseErrorKind::UnexpectedToken, start))
                            } else {
                                match gel_spec(tokens, end2 + 1) {
                                    Err(e) => Err(e),
                                    Ok((elseb, end3)) => Ok(
                                        (
                                            ExprModel::If(
                                                Box::new(ExprModel::ListExp(cond)),
                                                Box::new(ExprModel::ListExp(thenb)),
                                                Box::new(ExprModel::ListExp(elseb)),
                                            ),
                                            end3,
                                        ),
                                    ),
                                }
                            },
                        }
                    },
                }
            },
            Token::Dec => if start + 1 >= tokens.len() {
                Err(pe(ParseErrorKind::EndOfTokens, start + 1))
            } else {
                match gne_spec(tokens, start + 1) {
                    Err(e) => Err(e),
                    Ok((body, end)) => Ok(
                        (
                            ExprModel::FunctionCall(
                                seq!['*'],
                                Box::new(ExprModel::ListExp(seq![body])),
                            ),
                            end,
                        ),
                    ),
                }
            },
            Token::Inc => if start + 1 >= tokens.len() {
                Err(pe(ParseErrorKind::EndOfTokens, start + 1))
            } else {
                match gne_spec(tokens, start + 1) {
                    Err(e) => Err(e),
                    Ok((body, end)) => Ok(
                        (
                            ExprModel::FunctionCall(
                                seq!['&'],
                                Box::new(ExprModel::ListExp(seq![body])),
                            ),
                            end,
                        ),
                    ),
                }
            },
            Token::OpenParen => if start + 1 >= tokens.len() {
                Err(pe(ParseErrorKind::EndOfTokens, start + 1))
            } else {
                match tokens[start as int + 1] {
                    Token::Pipe => match gel_spec(tokens, start + 2) {
                        Err(e) => Err(e),
                        Ok((tryb, end)) => if end <= start || end > tokens.len() {
                            // The list decoder always advances and stays in
                            // bounds; never reached.
                            Err(pe(ParseErrorKind::UnexpectedToken, start))
                        } else {
                            match gel_spec(tokens, end) {
                                Err(e) => Err(e),
                                Ok((catchb, end2)) => if end2 >= tokens.len() {
                                    Err(pe(ParseErrorKind::EndOfTokens, end2))
                                } else if tokens[end2 as int] != Token::CloseParen {
                                    Err(pe(ParseErrorKind::ExpectedCloseParen, end2))
                                } else {
                                    Ok(
                                        (
                                            ExprModel::TryCatch(
                                                Box::new(ExprModel::ListExp(tryb)),
                                                Box::new(ExprModel::ListExp(catchb)),
                                            ),
                                            end2 + 1,
                                        ),
                                    )
                                },
                            }
                        },
                    },
                    Token::Dec => match gel_spec(tokens, start + 2) {
                        Err(e) => Err(e),
                        Ok((body, end)) => if end >= tokens.len() {
                            Err(pe(ParseErrorKind::EndOfTokens, end))
                        } else if tokens[end as int] != Token::CloseParen {
                            Err(pe(ParseErrorKind::ExpectedCloseParen, end))
                        } else {
                            Ok(
                                (
                                    ExprModel::PrintChar(Box::new(ExprModel::ListExp(body))),
                                    end + 1,
                                ),
                            )
                        },
                    },
                    Token::Inc => match gel_spec(tokens, start + 2) {
                        Err(e) => Err(e),
                        Ok((body, end)) => if end >= tokens.len() {
                            Err(pe(ParseErrorKind::EndOfTokens, end))
                        } else if tokens[end as int] != Token::CloseParen {
                            Err(pe(ParseErrorKind::ExpectedCloseParen, end))
                        } else {
                            Ok(
                                (ExprModel::PrintNum(Box::new(ExprModel::ListExp(body))), end + 1),
                            )
                        },
                    },
                    _ => Err(pe(ParseErrorKind::UnexpectedToken, start + 1)),
                }
            },
            _ => Err(pe(ParseErrorKind::UnexpectedToken, start)),
        }
    }
}

} // verus!
