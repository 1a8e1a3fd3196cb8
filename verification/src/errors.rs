use vstd::prelude::*;

use crate::ast::Var;
use crate::text::{char_to_string, dec_str, push_decimal, u32_to_string};

verus! {

/// A tokenize-time failure: an unrecognized character and its position.
#[derive(Clone, Copy, PartialEq, Eq, Structural, Debug)]
pub struct TokenizeError {
    pub ch: char,
    pub at: usize,
}

/// What a parse failure found at the offending token index.
#[derive(Clone, Copy, PartialEq, Eq, Structural, Debug)]
pub enum ParseErrorKind {
    /// The token stream ended where more input was needed.
    EndOfTokens,
    /// A token that no expression form can begin with, or that is illegal here.
    UnexpectedToken,
    /// A `}` was required after an identifier.
    ExpectedCloseCurly,
    /// A `[` was required.
    ExpectedOpenSquare,
    /// A `]` was required.
    ExpectedCloseSquare,
    /// A `(` was required.
    ExpectedOpenParen,
    /// A `)` was required.
    ExpectedCloseParen,
    /// Either `(` or `[` was required after an identifier.
    ExpectedParenOrSquare,
    /// A `[(` pair was required to begin a numeric literal.
    ExpectedNumber,
    /// A numeric literal held more `()` pairs than a value can represent.
    NumberTooLarge,
}

/// A structural parse failure: what was wrong and the token index at which
/// it was found.
#[derive(Clone, Copy, PartialEq, Eq, Structural, Debug)]
pub struct ParseError {
    pub kind: ParseErrorKind,
    pub at: usize,
}

/// A failure raised while evaluating an expression.
#[derive(PartialEq, Eq, Debug)]
pub enum EvalError {
    /// A variable read found no binding for the name.
    UndefinedVariable(Var),
    /// A call found no function table entry for the name.
    UndefinedFunction(Var),
    /// A call handed a function the wrong number of arguments.
    FunctionArity { name: Var, expected: usize, got: usize },
    /// A built-in operator was handed other than exactly one argument.
    OperatorArity { op: Var, got: usize },
    /// The decrement operator was handed the value zero.
    DecrementUnderflow,
    /// A call node's argument expression was not a list.
    InvalidCallArguments(Var),
    /// Evaluation exceeded the depth bound. This stands for the host's
    /// execution stack running out; try/catch does not intercept it.
    DepthLimit,
}

/// Mathematical model of an evaluation failure.
#[verifier::ext_equal]
pub ghost enum ErrModel {
    UndefVar(Seq<char>),
    UndefFn(Seq<char>),
    FnArity { name: Seq<char>, expected: nat, got: nat },
    OpArity { op: Seq<char>, got: nat },
    Underflow,
    BadCallArgs(Seq<char>),
    DepthLimit,
}

impl View for EvalError {
    type V = ErrModel;

    open spec fn view(&self) -> ErrModel {
        match self {
            EvalError::UndefinedVariable(v) => ErrModel::UndefVar(v@),
            EvalError::UndefinedFunction(v) => ErrModel::UndefFn(v@),
            EvalError::FunctionArity { name, expected, got } => ErrModel::FnArity {
                name: name@,
                expected: *expected as nat,
                got: *got as nat,
            },
            EvalError::OperatorArity { op, got } => ErrModel::OpArity {
                op: op@,
                got: *got as nat,
            },
            EvalError::DecrementUnderflow => ErrModel::Underflow,
            EvalError::InvalidCallArguments(v) => ErrModel::BadCallArgs(v@),
            EvalError::DepthLimit => ErrModel::DepthLimit,
        }
    }
}

/// The text of a tokenize failure.
pub open spec fn tokenize_err_message(e: TokenizeError) -> Seq<char> {
    "Unexpected character: "@ + seq![e.ch] + " at "@ + dec_str(e.at as nat)
}

/// The text of a parse failure.
pub open spec fn parse_err_message(e: ParseError) -> Seq<char> {
    parse_kind_text(e.kind) + dec_str(e.at as nat)
}

/// The text of a parse failure's kind, up to the token index.
pub open spec fn parse_kind_text(k: ParseErrorKind) -> Seq<char> {
    match k {
        ParseErrorKind::EndOfTokens => "Unexpected end of tokens at "@,
        ParseErrorKind::UnexpectedToken => "Unexpected token at "@,
        ParseErrorKind::ExpectedCloseCurly => "Expected } after name at "@,
        ParseErrorKind::ExpectedOpenSquare => "Expected [ at "@,
        ParseErrorKind::ExpectedCloseSquare => "Expected ] at "@,
        ParseErrorKind::ExpectedOpenParen => "Expected ( at "@,
        ParseErrorKind::ExpectedCloseParen => "Expected ) at "@,
        ParseErrorKind::ExpectedParenOrSquare => "Expected ( or [ after name at "@,
        ParseErrorKind::ExpectedNumber => "Expected [( at start of number at "@,
        ParseErrorKind::NumberTooLarge => "Number literal too large at "@,
    }
}

/// The text of an evaluation failure.
pub open spec fn eval_err_message(e: ErrModel) -> Seq<char> {
    match e {
        ErrModel::UndefVar(n) => "Variable "@ + n + " not defined"@,
        ErrModel::UndefFn(n) => "Function "@ + n + " not defined"@,
        ErrModel::FnArity { name, expected, got } => "Function "@ + name + " expects "@ + dec_str(
            expected,
        ) + " arguments, got "@ + dec_str(got),
        ErrModel::OpArity { op, got } => op + " operator expects exactly one argument, got "@
            + dec_str(got),
        ErrModel::Underflow => "Cannot decrement zero"@,
        ErrModel::BadCallArgs(n) => "Expected a list of arguments when calling "@ + n,
        ErrModel::DepthLimit => "Evaluation depth limit exceeded"@,
    }
}

impl TokenizeError {
    /// Renders the failure as text.
    pub fn message(&self) -> (r: String)
        ensures
            r@ == tokenize_err_message(*self),
    {
        let mut s = String::new();
        s.append("Unexpected character: ");
        let cs = char_to_string(self.ch);
        s.append(cs.as_str());
        s.append(" at ");
        push_decimal(self.at as u64, &mut s);
        proof {
            assert(s@ =~= tokenize_err_message(*self));
        }
        s
    }
}

impl ParseError {
    /// Renders the failure as text.
    pub fn message(&self) -> (r: String)
        ensures
            r@ == parse_err_message(*self),
    {
        let mut s = String::new();
        match self.kind {
            ParseErrorKind::EndOfTokens => s.append("Unexpected end of tokens at "),
            ParseErrorKind::UnexpectedToken => s.append("Unexpected token at "),
            ParseErrorKind::ExpectedCloseCurly => s.append("Expected } after name at "),
            ParseErrorKind::ExpectedOpenSquare => s.append("Expected [ at "),
            ParseErrorKind::ExpectedCloseSquare => s.append("Expected ] at "),
            ParseErrorKind::ExpectedOpenParen => s.append("Expected ( at "),
            ParseErrorKind::ExpectedCloseParen => s.append("Expected ) at "),
            ParseErrorKind::ExpectedParenOrSquare => s.append("Expected ( or [ after name at "),
            ParseErrorKind::ExpectedNumber => s.append("Expected [( at start of number at "),
            ParseErrorKind::NumberTooLarge => s.append("Number literal too large at "),
        }
        push_decimal(self.at as u64, &mut s);
        proof {
            assert(s@ =~= parse_err_message(*self));
        }
        s
    }
}

impl EvalError {
    /// Renders the failure as text.
    pub fn message(&self) -> (r: String)
        ensures
            r@ == eval_err_message(self@),
    {
        match self {
            EvalError::UndefinedVariable(v) => {
                let mut s = String::new();
                s.append("Variable ");
                s.append(v.0.as_str());
                s.append(" not defined");
                proof {
                    assert(s@ =~= eval_err_message(self@));
                }
                s
            },
            EvalError::UndefinedFunction(v) => {
                let mut s = String::new();
                s.append("Function ");
                s.append(v.0.as_str());
                s.append(" not defined");
                proof {
                    assert(s@ =~= eval_err_message(self@));
                }
                s
            },
            EvalError::FunctionArity { name, expected, got } => {
                let mut s = String::new();
                s.append("Function ");
                s.append(name.0.as_str());
                s.append(" expects ");
                push_decimal(*expected as u64, &mut s);
                s.append(" arguments, got ");
                push_decimal(*got as u64, &mut s);
                proof {
                    assert(s@ =~= eval_err_message(self@));
                }
                s
            },
            EvalError::OperatorArity { op, got } => {
                let mut s = String::new();
                s.append(op.0.as_str());
                s.append(" operator expects exactly one argument, got ");
                push_decimal(*got as u64, &mut s);
                proof {
                    assert(s@ =~= eval_err_message(self@));
                }
                s
            },
            EvalError::DecrementUnderflow => {
                let mut s = String::new();
                s.append("Cannot decrement zero");
                proof {
                    assert(s@ =~= eval_err_message(self@));
                }
                s
            },
            EvalError::InvalidCallArguments(v) => {
                let mut s = String::new();
                s.append("Expected a list of arguments when calling ");
                s.append(v.0.as_str());
                proof {
                    assert(s@ =~= eval_err_message(self@));
                }
                s
            },
            EvalError::DepthLimit => {
                let mut s = String::new();
                s.append("Evaluation depth limit exceeded");
                proof {
                    assert(s@ =~= eval_err_message(self@));
                }
                s
            },
        }
    }
}

/// A failure from any stage of running a program: tokenizing, parsing, or
/// evaluating.
#[derive(PartialEq, Eq, Debug)]
pub enum LangError {
    Tokenize(TokenizeError),
    Parse(ParseError),
    Eval(EvalError),
}

/// Mathematical model of a whole-run failure.
#[verifier::ext_equal]
pub ghost enum RunErrModel {
    Tokenize(TokenizeError),
    Parse(ParseError),
    Eval(ErrModel),
}

impl View for LangError {
    type V = RunErrModel;

    open spec fn view(&self) -> RunErrModel {
        match self {
            LangError::Tokenize(e) => RunErrModel::Tokenize(*e),
            LangError::Parse(e) => RunErrModel::Parse(*e),
            LangError::Eval(e) => RunErrModel::Eval(e@),
        }
    }
}

/// The text of a whole-run failure.
pub open spec fn run_err_message(e: RunErrModel) -> Seq<char> {
    match e {
        RunErrModel::Tokenize(t) => tokenize_err_message(t),
        RunErrModel::Parse(p) => parse_err_message(p),
        RunErrModel::Eval(v) => eval_err_message(v),
    }
}

impl LangError {
    /// Renders the failure as text.
    pub fn message(&self) -> (r: String)
        ensures
            r@ == run_err_message(self@),
    {
        match self {
            LangError::Tokenize(e) => e.message(),
            LangError::Parse(e) => e.message(),
            LangError::Eval(e) => e.message(),
        }
    }
}

/// The diagnostic that a try/catch sends to the output sink when its try
/// body fails: the failure's text, framed and terminated by a newline.
pub open spec fn try_diag_message(e: ErrModel) -> Seq<char> {
    "Warning!: Error caught in try block: "@ + eval_err_message(e) + "\n"@
}

/// Renders the try/catch diagnostic for a caught failure.
pub fn try_diag(e: &EvalError) -> (r: String)
    ensures
        r@ == try_diag_message(e@),
{
    let mut s = String::new();
    s.append("Warning!: Error caught in try block: ");
    let m = e.message();
    s.append(m.as_str());
    s.append("\n");
    proof {
        assert(s@ =~= try_diag_message(e@));
    }
    s
}

} // verus!
