//! An interpreter for a minimal esoteric language whose surface syntax is
//! built from the seven bracket and pipe characters `( ) [ ] { } |` plus the
//! two unary operator glyphs `*` and `&`. Identifiers are balanced
//! parenthesis runs such as `(()())`, integers are counts of `()` pairs
//! inside `[...]`, and a tree-walking evaluator threads a global function
//! table and a per-scope variable table through the program.
//!
//! A driver parses one top-level expression at a time and evaluates it
//! against the persisting tables; the program's result is the last
//! statement's value, rendered as decimal text. Print forms and try/catch
//! diagnostics go to an output buffer that the host hands to its sink.

use vstd::prelude::*;

pub mod ast;
pub mod errors;
pub mod eval;
pub mod grammar;
pub mod laws;
pub mod parse;
pub mod semantics;
pub mod text;

use crate::ast::Token;
use crate::errors::{ErrModel, LangError, ParseErrorKind, RunErrModel, run_err_message};
use crate::eval::{eval_expression, FunctionTable, VarTable};
use crate::grammar::{gne_spec, pe, tokenize_spec};
use crate::parse::{get_next_expression, tokenize};
use crate::semantics::{eval_spec, out_model, OutcomeModel, StateModel};
use crate::text::{dec_str, u32_to_string};

verus! {

/// The bound on evaluation depth (static nesting plus dynamic call nesting)
/// that the driver allows before reporting the depth-limit failure, standing
/// for the host's bounded execution stack. It is sized so that the
/// evaluator's own recursion stays well within a small thread stack.
pub const DEFAULT_EVAL_DEPTH: u64 = 1000;

/// Semantics of the driver's loop from token index `i` on: parse one
/// expression, evaluate it, remember its value as the program's result text,
/// and continue at the next unconsumed token until none remain. The result
/// is the last statement's value as decimal text (`last`, initially empty,
/// for a program with no statements), or the first failure.
pub open spec fn run_spec(
    tokens: Seq<Token>,
    i: nat,
    last: Seq<char>,
    fuel: nat,
    st: StateModel,
) -> (Result<Seq<char>, RunErrModel>, StateModel)
    decreases tokens.len() - i,
{
    if i >= tokens.len() {
        (Ok(last), st)
    } else {
        match gne_spec(tokens, i) {
            Err(p) => (Err(RunErrModel::Parse(p)), st),
            Ok((em, end)) => {
                let (oc, st1) = eval_spec(em, fuel, st);
                match oc {
                    OutcomeModel::Value(v) => if i < end <= tokens.len() {
                        run_spec(tokens, end, dec_str(v as nat), fuel, st1)
                    } else {
                        // The parser always advances and stays in bounds;
                        // never reached.
                        (Err(RunErrModel::Parse(pe(ParseErrorKind::UnexpectedToken, i))), st1)
                    },
                    OutcomeModel::Failure(e) => (Err(RunErrModel::Eval(e)), st1),
                    OutcomeModel::Exhausted => (Err(RunErrModel::Eval(ErrModel::DepthLimit)), st1),
                }
            },
        }
    }
}

/// Semantics of running a whole source text with the given depth bound and
/// an output buffer already holding `init_out`: tokenize, then drive the
/// parse-evaluate loop over empty tables. Returns the result text or the
/// first failure, and the output buffer's final contents.
pub open spec fn eval_all_spec(code: Seq<char>, fuel: nat, init_out: Seq<Seq<char>>) -> (Result<
    Seq<char>,
    RunErrModel,
>, Seq<Seq<char>>) {
    match tokenize_spec(code) {
        Err(te) => (Err(RunErrModel::Tokenize(te)), init_out),
        Ok(tokens) => {
            let (r, st) = run_spec(
                tokens,
                0,
                Seq::empty(),
                fuel,
                StateModel {
                    funcs: Map::empty(),
                    vars: Map::empty(),
                    out: init_out,
                },
            );
            (r, st.out)
        },
    }
}

/// Runs a whole source text: tokenizes it, then repeatedly parses one
/// top-level expression and evaluates it against the same persisting
/// function table and variable table, until all tokens are consumed. The
/// result is the last statement's value as decimal text (empty for an empty
/// program), or the first failure. Printed text and try/catch diagnostics
/// are appended to `out`.
#[verifier::loop_isolation(false)]
pub fn eval_all(code: &str, out: &mut Vec<String>) -> (r: Result<String, LangError>)
    ensures
        ({
            let (sr, souts) = eval_all_spec(code@, DEFAULT_EVAL_DEPTH as nat, out_model(old(out)@));
            out_model(final(out)@) =~= souts && match r {
                Ok(s) => sr == Ok::<Seq<char>, RunErrModel>(s@),
                Err(e) => sr == Err::<Seq<char>, RunErrModel>(e@),
            }
        }),
{
    let tokens = match tokenize(code) {
        Ok(t) => t,
        Err(e) => {
            return Err(LangError::Tokenize(e));
        },
    };
    let ghost st0 = StateModel {
        funcs: Map::empty(),
        vars: Map::empty(),
        out: out_model(out@),
    };
    let mut funcs = FunctionTable::new();
    let mut vars = VarTable::new();
    let mut output = String::new();
    let mut index: usize = 0;
    proof {
        assert(funcs@ =~= st0.funcs);
        assert(vars@ =~= st0.vars);
    }
    loop
        invariant
            index <= tokens@.len(),
            run_spec(
                tokens@,
                index as nat,
                output@,
                DEFAULT_EVAL_DEPTH as nat,
                StateModel { funcs: funcs@, vars: vars@, out: out_model(out@) },
            ) == run_spec(tokens@, 0, Seq::<char>::empty(), DEFAULT_EVAL_DEPTH as nat, st0),
        decreases tokens@.len() - index,
    {
        if index >= tokens.len() {
            return Ok(output);
        }
        let ghost pre = StateModel { funcs: funcs@, vars: vars@, out: out_model(out@) };
        let (exp, end) = match get_next_expression(&tokens, index) {
            Ok(v) => v,
            Err(e) => {
                return Err(LangError::Parse(e));
            },
        };
        let x = match eval_expression(&exp, &mut funcs, &mut vars, out, DEFAULT_EVAL_DEPTH) {
            Ok(v) => v,
            Err(e) => {
                proof {
                    let (oc, st1) = eval_spec(exp@, DEFAULT_EVAL_DEPTH as nat, pre);
                    assert(!(oc is Value));
                }
                return Err(LangError::Eval(e));
            },
        };
        output = u32_to_string(x);
        index = end;
    }
}

/// Runs a whole source text and folds any failure into a text of the shape
/// `Error: ...`, so a host can show a single string either way. Printed text
/// and try/catch diagnostics are appended to `out`.
pub fn eval_unwrapped(code: &str, out: &mut Vec<String>) -> (r: String)
    ensures
        ({
            let (sr, souts) = eval_all_spec(code@, DEFAULT_EVAL_DEPTH as nat, out_model(old(out)@));
            out_model(final(out)@) =~= souts && r@ == match sr {
                Ok(s) => s,
                Err(em) => "Error: "@ + run_err_message(em),
            }
        }),
{
    match eval_all(code, out) {
        Ok(s) => s,
        Err(e) => {
            let mut s = String::new();
            s.append("Error: ");
            let m = e.message();
            s.append(m.as_str());
            proof {
                assert(s@ =~= "Error: "@ + run_err_message(e@));
            }
            s
        },
    }
}

} // verus!
