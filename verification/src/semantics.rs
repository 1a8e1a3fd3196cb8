use vstd::prelude::*;

use crate::ast::ExprModel;
use crate::errors::{try_diag_message, ErrModel, EvalError};
use crate::text::{dec_str, print_char_of};

verus! {

/// Mathematical model of a stored function: its parameter names in order and
/// its body.
#[verifier::ext_equal]
pub ghost struct FnModel {
    pub params: Seq<Seq<char>>,
    pub body: ExprModel,
}

/// Mathematical model of the evaluator's state: the global function table,
/// the current scope's variable bindings, and the text chunks sent to the
/// output sink so far.
#[verifier::ext_equal]
pub ghost struct StateModel {
    pub funcs: Map<Seq<char>, FnModel>,
    pub vars: Map<Seq<char>, u32>,
    pub out: Seq<Seq<char>>,
}

/// What evaluating one expression yields: a value, a runtime failure that
/// try/catch can intercept, or exhaustion of the evaluation depth bound
/// (standing for the host's stack), which try/catch does not intercept.
#[verifier::ext_equal]
pub ghost enum OutcomeModel {
    Value(u32),
    Failure(ErrModel),
    Exhausted,
}

/// What evaluating an argument list yields: every argument's value, or the
/// outcome that stopped the list early.
#[verifier::ext_equal]
pub ghost enum ArgsOutcomeModel {
    Vals(Seq<u32>),
    Stopped(OutcomeModel),
}

/// The outcome that an evaluator result stands for.
pub open spec fn outcome_of(r: Result<u32, EvalError>) -> OutcomeModel {
    match r {
        Ok(v) => OutcomeModel::Value(v),
        Err(e) => match e {
            EvalError::DepthLimit => OutcomeModel::Exhausted,
            _ => OutcomeModel::Failure(e@),
        },
    }
}

/// The text chunks that an output buffer holds.
pub open spec fn out_model(chunks: Seq<String>) -> Seq<Seq<char>> {
    chunks.map_values(|s: String| s@)
}

/// Appending one chunk appends its text.
pub proof fn lemma_out_model_push(chunks: Seq<String>, s: String)
    ensures
        out_model(chunks.push(s)) =~= out_model(chunks).push(s@),
{
    assert forall|i: int| 0 <= i < chunks.len() + 1 implies #[trigger] out_model(chunks.push(s))[i]
        == out_model(chunks).push(s@)[i] by {
        if i < chunks.len() {
            assert(chunks.push(s)[i] == chunks[i]);
        } else {
            assert(chunks.push(s)[i] == s);
        }
    }
}

/// The name of the built-in decrement operator.
pub open spec fn dec_name() -> Seq<char> {
    seq!['*']
}

/// The name of the built-in increment operator.
pub open spec fn inc_name() -> Seq<char> {
    seq!['&']
}

/// The fresh environment a call builds: each parameter bound to its
/// argument's value, in order, a later occurrence of the same name
/// overriding an earlier one. Nothing else is in the environment.
pub open spec fn bind_params(params: Seq<Seq<char>>, vals: Seq<u32>) -> Map<Seq<char>, u32>
    decreases params.len(),
{
    if params.len() == 0 {
        Map::empty()
    } else {
        bind_params(params.drop_last(), vals.drop_last()).insert(params.last(), vals.last())
    }
}

/// Big-step semantics of one expression, with `fuel` bounding the depth of
/// nested evaluations. Returns the outcome and the state after evaluation.
///
/// Every recursive evaluation runs at `fuel - 1`; at fuel zero the outcome
/// is `Exhausted`, which models the host running out of stack on a program
/// whose nesting (static nesting plus dynamic call nesting) is too deep.
pub open spec fn eval_spec(e: ExprModel, fuel: nat, st: StateModel) -> (OutcomeModel, StateModel)
    decreases fuel, 0int,
{
    if fuel == 0 {
        (OutcomeModel::Exhausted, st)
    } else {
        let f = (fuel - 1) as nat;
        match e {
            ExprModel::Val(n) => (OutcomeModel::Value(n), st),
            ExprModel::If(c, t, els) => {
                let (oc, st1) = eval_spec(*c, f, st);
                match oc {
                    OutcomeModel::Value(v) => if v != 0 {
                        eval_spec(*t, f, st1)
                    } else {
                        eval_spec(*els, f, st1)
                    },
                    _ => (oc, st1),
                }
            },
            ExprModel::FunctionDef(name, params, body) => {
                if params.len() == 0 {
                    // A zero-parameter definition is a one-time variable
                    // binding: the body runs now, and the result is stored
                    // only if the name is not bound yet (first one wins).
                    let (oc, st1) = eval_spec(*body, f, st);
                    match oc {
                        OutcomeModel::Value(v) => if st1.vars.contains_key(name) {
                            (oc, st1)
                        } else {
                            (oc, StateModel { vars: st1.vars.insert(name, v), ..st1 })
                        },
                        _ => (oc, st1),
                    }
                } else {
                    // A function definition is deferred: the body is stored
                    // unevaluated, a re-definition overwrites, the value is 0.
                    (
                        OutcomeModel::Value(0),
                        StateModel {
                            funcs: st.funcs.insert(name, FnModel { params, body: *body }),
                            ..st
                        },
                    )
                }
            },
            ExprModel::FunctionCall(name, args) => {
                let isop = name == dec_name() || name == inc_name();
                match *args {
                    ExprModel::ListExp(items) => {
                        if isop {
                            if items.len() != 1 {
                                (
                                    OutcomeModel::Failure(
                                        ErrModel::OpArity { op: name, got: items.len() },
                                    ),
                                    st,
                                )
                            } else {
                                let (oc, st1) = eval_spec(items[0], f, st);
                                match oc {
                                    OutcomeModel::Value(v) => if name == dec_name() {
                                        if v == 0 {
                                            (OutcomeModel::Failure(ErrModel::Underflow), st1)
                                        } else {
                                            (OutcomeModel::Value((v - 1) as u32), st1)
                                        }
                                    } else {
                                        // Increment saturates at the maximum.
                                        (
                                            OutcomeModel::Value(
                                                if v == u32::MAX {
                                                    v
                                                } else {
                                                    (v + 1) as u32
                                                },
                                            ),
                                            st1,
                                        )
                                    },
                                    _ => (oc, st1),
                                }
                            }
                        } else if items.len() == 0 {
                            // An empty argument list reads the variable.
                            if st.vars.contains_key(name) {
                                (OutcomeModel::Value(st.vars[name]), st)
                            } else {
                                (OutcomeModel::Failure(ErrModel::UndefVar(name)), st)
                            }
                        } else {
                            if !st.funcs.contains_key(name) {
                                (OutcomeModel::Failure(ErrModel::UndefFn(name)), st)
                            } else {
                                let fdef = st.funcs[name];
                                if items.len() != fdef.params.len() {
                                    (
                                        OutcomeModel::Failure(
                                            ErrModel::FnArity {
                                                name,
                                                expected: fdef.params.len(),
                                                got: items.len(),
                                            },
                                        ),
                                        st,
                                    )
                                } else {
                                    // Arguments run in order in the caller's
                                    // environment; the body then runs in a
                                    // fresh environment holding only the
                                    // parameters; the caller's environment
                                    // comes back unchanged by the body.
                                    let (ar, st1) = eval_args_spec(items, f, Seq::empty(), st);
                                    match ar {
                                        ArgsOutcomeModel::Vals(vals) => {
                                            let (oc2, st2) = eval_spec(
                                                fdef.body,
                                                f,
                                                StateModel {
                                                    vars: bind_params(fdef.params, vals),
                                                    ..st1
                                                },
                                            );
                                            (oc2, StateModel { vars: st1.vars, ..st2 })
                                        },
                                        ArgsOutcomeModel::Stopped(oc) => (oc, st1),
                                    }
                                }
                            }
                        }
                    },
                    _ => {
                        if !st.funcs.contains_key(name) {
                            (OutcomeModel::Failure(ErrModel::UndefFn(name)), st)
                        } else {
                            (OutcomeModel::Failure(ErrModel::BadCallArgs(name)), st)
                        }
                    },
                }
            },
            ExprModel::ListExp(items) => eval_list_spec(items, f, 0, st),
            ExprModel::TryCatch(tb, cb) => {
                let (oc, st1) = eval_spec(*tb, f, st);
                match oc {
                    OutcomeModel::Failure(err) => eval_spec(
                        *cb,
                        f,
                        StateModel { out: st1.out.push(try_diag_message(err)), ..st1 },
                    ),
                    _ => (oc, st1),
                }
            },
            ExprModel::PrintChar(inner) => {
                let (oc, st1) = eval_spec(*inner, f, st);
                match oc {
                    OutcomeModel::Value(v) => (
                        oc,
                        StateModel { out: st1.out.push(seq![print_char_of(v)]), ..st1 },
                    ),
                    _ => (oc, st1),
                }
            },
            ExprModel::PrintNum(inner) => {
                let (oc, st1) = eval_spec(*inner, f, st);
                match oc {
                    OutcomeModel::Value(v) => (
                        oc,
                        StateModel { out: st1.out.push(dec_str(v as nat).push('\n')), ..st1 },
                    ),
                    _ => (oc, st1),
                }
            },
        }
    }
}

/// Semantics of a statement group: the items run in order in the same
/// environment, the value is the last item's (or `acc`, initially 0, when no
/// items remain), and the first failure stops the group.
pub open spec fn eval_list_spec(items: Seq<ExprModel>, fuel: nat, acc: u32, st: StateModel) -> (
    OutcomeModel,
    StateModel,
)
    decreases fuel, items.len() + 1,
{
    if items.len() == 0 {
        (OutcomeModel::Value(acc), st)
    } else {
        let (oc, st1) = eval_spec(items[0], fuel, st);
        match oc {
            OutcomeModel::Value(v) => eval_list_spec(items.drop_first(), fuel, v, st1),
            _ => (oc, st1),
        }
    }
}

/// Semantics of an argument list: the items run in order in the caller's
/// environment, collecting their values; the first failure stops the list.
pub open spec fn eval_args_spec(items: Seq<ExprModel>, fuel: nat, acc: Seq<u32>, st: StateModel) -> (
    ArgsOutcomeModel,
    StateModel,
)
    decreases fuel, items.len() + 1,
{
    if items.len() == 0 {
        (ArgsOutcomeModel::Vals(acc), st)
    } else {
        let (oc, st1) = eval_spec(items[0], fuel, st);
        match oc {
            OutcomeModel::Value(v) => eval_args_spec(items.drop_first(), fuel, acc.push(v), st1),
            _ => (ArgsOutcomeModel::Stopped(oc), st1),
        }
    }
}

} // verus!
