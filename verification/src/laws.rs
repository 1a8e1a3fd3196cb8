use vstd::prelude::*;

use crate::ast::{ExprModel, Token};
use crate::errors::{ErrModel, ParseError, try_diag_message};
use crate::grammar::{name_scan, name_spec, num_scan, num_spec};
use crate::semantics::{
    bind_params, dec_name, eval_args_spec, eval_list_spec, eval_spec, inc_name, ArgsOutcomeModel,
    FnModel, OutcomeModel, StateModel,
};

verus! {

/// The token sequence of the literal form for `n`: a `[`, then `n`
/// repetitions of `()`, then a `]`.
pub open spec fn literal_tokens(n: nat) -> Seq<Token> {
    Seq::new(
        2 * n + 2,
        |i: int|
            if i == 0 {
                Token::OpenSquare
            } else if i == 2 * n + 1 {
                Token::CloseSquare
            } else if i % 2 == 1 {
                Token::OpenParen
            } else {
                Token::CloseParen
            },
    )
}

/// Scanning `k` well-formed `()` pairs followed by `]` adds exactly `k` to
/// the accumulator and stops just past the `]`.
proof fn lemma_num_scan_pairs(tokens: Seq<Token>, i: nat, k: nat, acc: u32)
    requires
        i + 2 * k + 1 <= tokens.len(),
        forall|j: int|
            0 <= j < k ==> #[trigger] tokens[i + 2 * j] == Token::OpenParen && tokens[
                i + 2 * j + 1
            ] == Token::CloseParen,
        tokens[(i + 2 * k) as int] == Token::CloseSquare,
        acc + k <= u32::MAX,
    ensures
        num_scan(tokens, i, acc) == Ok::<(u32, nat), ParseError>(
            ((acc + k) as u32, (i + 2 * k + 1) as nat),
        ),
    decreases k,
{
    if k == 0 {
    } else {
        assert(tokens[i as int] == Token::OpenParen) by {
            assert(tokens[i + 2 * (0int)] == Token::OpenParen);
        }
        assert(tokens[i as int + 1] == Token::CloseParen) by {
            assert(tokens[i + 2 * (0int) + 1] == Token::CloseParen);
        }
        assert forall|j: int| 0 <= j < k - 1 implies #[trigger] tokens[(i + 2) + 2 * j]
            == Token::OpenParen && tokens[(i + 2) + 2 * j + 1] == Token::CloseParen by {
            assert(tokens[i + 2 * (j + 1)] == Token::OpenParen);
            assert(tokens[i + 2 * (j + 1) + 1] == Token::CloseParen);
        }
        lemma_num_scan_pairs(tokens, i + 2, (k - 1) as nat, (acc + 1) as u32);
    }
}

/// Law: the literal form round-trips. For every value `n` that the literal
/// form can represent, decoding `[` + `n` repetitions of `()` + `]` yields
/// exactly `n` and consumes the whole form; in particular `[]` yields 0.
pub proof fn lemma_literal_round_trip(n: u32)
    ensures
        num_spec(literal_tokens(n as nat), 0) == Ok::<(u32, nat), ParseError>(
            (n, (2 * n + 2) as nat),
        ),
{
    let toks = literal_tokens(n as nat);
    assert(toks[0] == Token::OpenSquare);
    assert(toks[(1 + 2 * n) as int] == Token::CloseSquare);
    assert forall|j: int| 0 <= j < n implies #[trigger] toks[1 + 2 * j] == Token::OpenParen && toks[
        1 + 2 * j + 1
    ] == Token::CloseParen by {
        assert((1 + 2 * j) % 2 == 1);
        assert((2 + 2 * j) % 2 == 0);
    }
    lemma_num_scan_pairs(toks, 1, n as nat, 0);
}

/// The character that one parenthesis token stands for.
pub open spec fn paren_char(t: Token) -> char {
    if t == Token::OpenParen {
        '('
    } else {
        ')'
    }
}

/// A successful identifier scan consumes only parenthesis tokens and
/// accumulates exactly their characters.
proof fn lemma_name_scan_window(tokens: Seq<Token>, i: nat, depth: nat, acc: Seq<char>)
    requires
        name_scan(tokens, i, depth, acc) is Ok,
    ensures
        ({
            let (n, end) = name_scan(tokens, i, depth, acc)->Ok_0;
            &&& i < end <= tokens.len()
            &&& n =~= acc + Seq::new((end - i) as nat, |j: int| paren_char(tokens[i + j]))
            &&& forall|j: int|
                i <= j < end ==> tokens[j] == Token::OpenParen || tokens[j] == Token::CloseParen
        }),
    decreases tokens.len() - i,
{
    let (n, end) = name_scan(tokens, i, depth, acc)->Ok_0;
    match tokens[i as int] {
        Token::OpenParen => {
            lemma_name_scan_window(tokens, i + 1, depth + 1, acc.push('('));
            assert(n =~= acc + Seq::new((end - i) as nat, |j: int| paren_char(tokens[i + j])));
        },
        Token::CloseParen => {
            if depth == 1 {
                assert(n =~= acc + Seq::new((end - i) as nat, |j: int| paren_char(tokens[i + j])));
            } else {
                lemma_name_scan_window(tokens, i + 1, (depth - 1) as nat, acc.push(')'));
                assert(n =~= acc + Seq::new((end - i) as nat, |j: int| paren_char(tokens[i + j])));
            }
        },
        _ => {},
    }
}

/// Law: identifier equality is purely structural. Two decoded identifiers
/// are equal exactly when the token runs they were decoded from are equal,
/// wherever in their streams the runs stand; equal names therefore collide
/// in both tables, whose keys are the decoded character sequences.
pub proof fn lemma_identifier_structural(
    t1: Seq<Token>,
    s1: nat,
    t2: Seq<Token>,
    s2: nat,
)
    requires
        name_spec(t1, s1) is Ok,
        name_spec(t2, s2) is Ok,
    ensures
        ({
            let (n1, e1) = name_spec(t1, s1)->Ok_0;
            let (n2, e2) = name_spec(t2, s2)->Ok_0;
            n1 == n2 <==> t1.subrange(s1 as int, e1 as int) =~= t2.subrange(s2 as int, e2 as int)
        }),
{
    let (n1, e1) = name_spec(t1, s1)->Ok_0;
    let (n2, e2) = name_spec(t2, s2)->Ok_0;
    lemma_name_scan_window(t1, s1 + 1, 1, seq!['(']);
    lemma_name_scan_window(t2, s2 + 1, 1, seq!['(']);
    assert(t1[s1 as int] == Token::OpenParen);
    assert(t2[s2 as int] == Token::OpenParen);
    assert(n1 =~= Seq::new((e1 - s1) as nat, |j: int| paren_char(t1[s1 + j])));
    assert(n2 =~= Seq::new((e2 - s2) as nat, |j: int| paren_char(t2[s2 + j])));
    let w1 = t1.subrange(s1 as int, e1 as int);
    let w2 = t2.subrange(s2 as int, e2 as int);
    if n1 == n2 {
        assert forall|j: int| 0 <= j < w1.len() implies #[trigger] w1[j] == w2[j] by {
            assert(n1[j] == n2[j]);
            assert(paren_char(t1[s1 + j]) == paren_char(t2[s2 + j]));
            assert(t1[s1 + j] == Token::OpenParen || t1[s1 + j] == Token::CloseParen);
            assert(t2[s2 + j] == Token::OpenParen || t2[s2 + j] == Token::CloseParen);
        }
        assert(w1 =~= w2);
    }
    if w1 =~= w2 {
        assert forall|j: int| 0 <= j < n1.len() implies #[trigger] n1[j] == n2[j] by {
            assert(w1[j] == w2[j]);
        }
        assert(n1 =~= n2);
    }
}

/// The environment built for a call binds exactly the parameter names.
pub proof fn lemma_bind_params_domain(params: Seq<Seq<char>>, vals: Seq<u32>)
    requires
        params.len() == vals.len(),
    ensures
        forall|k: Seq<char>| #[trigger]
            bind_params(params, vals).contains_key(k) <==> params.contains(k),
    decreases params.len(),
{
    if params.len() > 0 {
        lemma_bind_params_domain(params.drop_last(), vals.drop_last());
        assert forall|k: Seq<char>| #[trigger]
            bind_params(params, vals).contains_key(k) <==> params.contains(k) by {
            let sub = bind_params(params.drop_last(), vals.drop_last());
            assert(sub.contains_key(k) <==> params.drop_last().contains(k));
            if bind_params(params, vals).contains_key(k) {
                if k == params.last() {
                    assert(params[params.len() - 1] == k);
                    assert(params.contains(k));
                } else {
                    assert(sub.contains_key(k));
                    assert(params.drop_last().contains(k));
                    let i = choose|i: int|
                        0 <= i < params.drop_last().len() && params.drop_last()[i] == k;
                    assert(params[i] == k);
                    assert(params.contains(k));
                }
            }
            if params.contains(k) {
                let i = choose|i: int| 0 <= i < params.len() && params[i] == k;
                if k == params.last() {
                    assert(bind_params(params, vals).contains_key(k));
                } else {
                    assert(i < params.len() - 1);
                    assert(params.drop_last()[i] == k);
                    assert(params.drop_last().contains(k));
                    assert(sub.contains_key(k));
                    assert(bind_params(params, vals).contains_key(k));
                }
            }
        }
    }
}

/// Arguments that are all literals evaluate to their values and leave the
/// state untouched.
proof fn lemma_literal_args(args: Seq<ExprModel>, fuel: nat, acc: Seq<u32>, st: StateModel)
    requires
        fuel >= 1,
        forall|i: int| 0 <= i < args.len() ==> (#[trigger] args[i]) is Val,
    ensures
        ({
            let (ar, st1) = eval_args_spec(args, fuel, acc, st);
            st1 == st && ar is Vals && ar->Vals_0.len() == acc.len() + args.len()
        }),
    decreases args.len(),
{
    if args.len() > 0 {
        assert(args[0] is Val);
        let v = args[0]->Val_0;
        assert(eval_spec(args[0], fuel, st) == (OutcomeModel::Value(v), st));
        assert forall|i: int| 0 <= i < args.drop_first().len() implies (#[trigger] args.drop_first(
        )[i]) is Val by {
            assert(args.drop_first()[i] == args[i + 1]);
        }
        lemma_literal_args(args.drop_first(), fuel, acc.push(v), st);
    }
}

/// Law: a function body never sees the caller's variables. A body that
/// reads a name not among its own parameters fails with the
/// undefined-variable error, whatever the caller's environment binds — here
/// stated for a call whose arguments are literals, so that the call reaches
/// the body. `fuel` must cover the call's fixed nesting depth.
pub proof fn lemma_call_sees_only_params(
    fname: Seq<char>,
    x: Seq<char>,
    args: Seq<ExprModel>,
    fuel: nat,
    st: StateModel,
)
    requires
        st.funcs.contains_key(fname),
        st.funcs[fname].body == ExprModel::ListExp(
            seq![
                ExprModel::FunctionCall(x, Box::new(ExprModel::ListExp(Seq::empty()))),
            ],
        ),
        !st.funcs[fname].params.contains(x),
        fname != dec_name() && fname != inc_name(),
        x != dec_name() && x != inc_name(),
        args.len() == st.funcs[fname].params.len(),
        args.len() > 0,
        forall|i: int| 0 <= i < args.len() ==> (#[trigger] args[i]) is Val,
        fuel >= 4,
    ensures
        eval_spec(ExprModel::FunctionCall(fname, Box::new(ExprModel::ListExp(args))), fuel, st).0
            == OutcomeModel::Failure(ErrModel::UndefVar(x)),
{
    let f = (fuel - 1) as nat;
    lemma_literal_args(args, f, Seq::empty(), st);
    let (ar, st1) = eval_args_spec(args, f, Seq::empty(), st);
    let vals = ar->Vals_0;
    let fdef = st.funcs[fname];
    lemma_bind_params_domain(fdef.params, vals);
    let benv = bind_params(fdef.params, vals);
    assert(!benv.contains_key(x));
    let bst = StateModel { vars: benv, ..st1 };
    let read = ExprModel::FunctionCall(x, Box::new(ExprModel::ListExp(Seq::empty())));
    assert(eval_spec(read, (f - 1) as nat, bst).0 == OutcomeModel::Failure(ErrModel::UndefVar(x)))
        by {
        assert((f - 1) as nat >= 1);
        assert(!(x == dec_name() || x == inc_name()));
        assert(!bst.vars.contains_key(x));
        assert(read is FunctionCall);
        assert(read->FunctionCall_0 == x);
        assert((*read->FunctionCall_1) is ListExp);
        assert((*read->FunctionCall_1)->ListExp_0.len() == 0);
    }
    assert(eval_list_spec(seq![read], (f - 1) as nat, 0, bst).0 == OutcomeModel::Failure(
        ErrModel::UndefVar(x),
    )) by {
        assert(seq![read].drop_first() =~= Seq::<ExprModel>::empty());
    }
    assert(eval_spec(fdef.body, f, bst).0 == OutcomeModel::Failure(ErrModel::UndefVar(x)));
    let call = ExprModel::FunctionCall(fname, Box::new(ExprModel::ListExp(args)));
    assert(eval_spec(call, fuel, st).0 == OutcomeModel::Failure(ErrModel::UndefVar(x))) by {
        assert(call is FunctionCall);
        assert(call->FunctionCall_0 == fname);
        assert((*call->FunctionCall_1) is ListExp);
        assert((*call->FunctionCall_1)->ListExp_0 == args);
        assert(args.len() != 0);
        assert(vals.len() == fdef.params.len());
    }
}

/// Every binding of `a` stands unchanged in `b`.
pub open spec fn vars_kept(a: Map<Seq<char>, u32>, b: Map<Seq<char>, u32>) -> bool {
    forall|k: Seq<char>| #[trigger] a.contains_key(k) ==> b.contains_key(k) && b[k] == a[k]
}

proof fn lemma_vars_kept_trans(a: Map<Seq<char>, u32>, b: Map<Seq<char>, u32>, c: Map<
    Seq<char>,
    u32,
>)
    requires
        vars_kept(a, b),
        vars_kept(b, c),
    ensures
        vars_kept(a, c),
{
    assert forall|k: Seq<char>| #[trigger] a.contains_key(k) implies c.contains_key(k) && c[k]
        == a[k] by {
        assert(b.contains_key(k));
    }
}

/// Evaluation never removes or changes an existing variable binding: it only
/// adds bindings for names that were absent, and a call's fresh environment
/// is discarded when the call returns.
#[verifier::rlimit(60)]
pub proof fn lemma_vars_preserved(e: ExprModel, fuel: nat, st: StateModel)
    ensures
        vars_kept(st.vars, eval_spec(e, fuel, st).1.vars),
    decreases fuel, 0int,
{
    if fuel > 0 {
        let f = (fuel - 1) as nat;
        match e {
            ExprModel::Val(_) => {},
            ExprModel::If(c, t, els) => {
                lemma_vars_preserved(*c, f, st);
                let (oc, st1) = eval_spec(*c, f, st);
                lemma_vars_preserved(*t, f, st1);
                lemma_vars_kept_trans(st.vars, st1.vars, eval_spec(*t, f, st1).1.vars);
                lemma_vars_preserved(*els, f, st1);
                lemma_vars_kept_trans(st.vars, st1.vars, eval_spec(*els, f, st1).1.vars);
            },
            ExprModel::FunctionDef(name, params, body) => {
                if params.len() == 0 {
                    lemma_vars_preserved(*body, f, st);
                    let (oc, st1) = eval_spec(*body, f, st);
                    match oc {
                        OutcomeModel::Value(v) => {
                            if !st1.vars.contains_key(name) {
                                assert(vars_kept(st1.vars, st1.vars.insert(name, v)));
                                lemma_vars_kept_trans(
                                    st.vars,
                                    st1.vars,
                                    st1.vars.insert(name, v),
                                );
                            }
                        },
                        _ => {},
                    }
                }
            },
            ExprModel::FunctionCall(name, args) => {
                match *args {
                    ExprModel::ListExp(items) => {
                        if items.len() == 1 {
                            lemma_vars_preserved(items[0], f, st);
                        }
                        lemma_args_vars_preserved(items, f, Seq::empty(), st);
                    },
                    _ => {},
                }
            },
            ExprModel::ListExp(items) => {
                lemma_list_vars_preserved(items, f, 0, st);
            },
            ExprModel::TryCatch(tb, cb) => {
                lemma_vars_preserved(*tb, f, st);
                let (oc, st1) = eval_spec(*tb, f, st);
                match oc {
                    OutcomeModel::Failure(err) => {
                        let st2 = StateModel {
                            out: st1.out.push(try_diag_message(err)),
                            ..st1
                        };
                        lemma_vars_preserved(*cb, f, st2);
                        lemma_vars_kept_trans(st.vars, st2.vars, eval_spec(*cb, f, st2).1.vars);
                    },
                    _ => {},
                }
            },
            ExprModel::PrintChar(inner) => {
                lemma_vars_preserved(*inner, f, st);
            },
            ExprModel::PrintNum(inner) => {
                lemma_vars_preserved(*inner, f, st);
            },
        }
    }
}

/// As `lemma_vars_preserved`, for a statement group.
proof fn lemma_list_vars_preserved(items: Seq<ExprModel>, fuel: nat, acc: u32, st: StateModel)
    ensures
        vars_kept(st.vars, eval_list_spec(items, fuel, acc, st).1.vars),
    decreases fuel, items.len() + 1,
{
    if items.len() > 0 {
        lemma_vars_preserved(items[0], fuel, st);
        let (oc, st1) = eval_spec(items[0], fuel, st);
        match oc {
            OutcomeModel::Value(v) => {
                lemma_list_vars_preserved(items.drop_first(), fuel, v, st1);
                lemma_vars_kept_trans(
                    st.vars,
                    st1.vars,
                    eval_list_spec(items.drop_first(), fuel, v, st1).1.vars,
                );
            },
            _ => {},
        }
    }
}

/// As `lemma_vars_preserved`, for an argument list.
proof fn lemma_args_vars_preserved(items: Seq<ExprModel>, fuel: nat, acc: Seq<u32>, st: StateModel)
    ensures
        vars_kept(st.vars, eval_args_spec(items, fuel, acc, st).1.vars),
    decreases fuel, items.len() + 1,
{
    if items.len() > 0 {
        lemma_vars_preserved(items[0], fuel, st);
        let (oc, st1) = eval_spec(items[0], fuel, st);
        match oc {
            OutcomeModel::Value(v) => {
                lemma_args_vars_preserved(items.drop_first(), fuel, acc.push(v), st1);
                lemma_vars_kept_trans(
                    st.vars,
                    st1.vars,
                    eval_args_spec(items.drop_first(), fuel, acc.push(v), st1).1.vars,
                );
            },
            _ => {},
        }
    }
}

/// Law: re-defining a zero-parameter binding is a no-op. When the name is
/// already bound, the definition evaluates its body (whose outcome it
/// returns) and stores nothing: the state is exactly the body's, and in
/// particular the name keeps its old value.
pub proof fn lemma_rebind_is_noop(name: Seq<char>, body: ExprModel, fuel: nat, st: StateModel)
    requires
        fuel >= 1,
        st.vars.contains_key(name),
    ensures
        ({
            let (ocb, stb) = eval_spec(body, (fuel - 1) as nat, st);
            let (oc, st1) = eval_spec(
                ExprModel::FunctionDef(name, Seq::empty(), Box::new(body)),
                fuel,
                st,
            );
            oc == ocb && st1 == stb && (st1.vars.contains_key(name) && st1.vars[name]
                == st.vars[name])
        }),
{
    lemma_vars_preserved(body, (fuel - 1) as nat, st);
}

/// Law: re-defining a function overwrites. Defining the same name twice
/// with non-empty parameter lists leaves the second definition in the
/// table, so subsequent calls use the second body; each definition itself
/// evaluates to 0 and runs no body.
pub proof fn lemma_function_redefinition_overwrites(
    name: Seq<char>,
    params1: Seq<Seq<char>>,
    body1: ExprModel,
    params2: Seq<Seq<char>>,
    body2: ExprModel,
    fuel1: nat,
    fuel2: nat,
    st: StateModel,
)
    requires
        fuel1 >= 1,
        fuel2 >= 1,
        params1.len() > 0,
        params2.len() > 0,
    ensures
        ({
            let (oc1, st1) = eval_spec(
                ExprModel::FunctionDef(name, params1, Box::new(body1)),
                fuel1,
                st,
            );
            let (oc2, st2) = eval_spec(
                ExprModel::FunctionDef(name, params2, Box::new(body2)),
                fuel2,
                st1,
            );
            oc1 == OutcomeModel::Value(0) && oc2 == OutcomeModel::Value(0)
                && st2.funcs.contains_key(name) && st2.funcs[name] == FnModel {
                params: params2,
                body: body2,
            } && st2.vars == st.vars && st2.out == st.out
        }),
{
}

/// Law: decrementing zero fails with the underflow error; a positive value
/// decrements by one.
pub proof fn lemma_decrement_underflow(arg: ExprModel, fuel: nat, st: StateModel)
    requires
        fuel >= 1,
    ensures
        ({
            let (oca, sta) = eval_spec(arg, (fuel - 1) as nat, st);
            let (oc, st1) = eval_spec(
                ExprModel::FunctionCall(dec_name(), Box::new(ExprModel::ListExp(seq![arg]))),
                fuel,
                st,
            );
            &&& (oca is Value && oca->Value_0 == 0 ==> oc == OutcomeModel::Failure(ErrModel::Underflow)
                && st1 == sta)
            &&& (oca is Value && oca->Value_0 > 0 ==> oc == OutcomeModel::Value((oca->Value_0 - 1) as u32)
                && st1 == sta)
        }),
{
    assert(seq![arg].len() == 1);
    assert(seq![arg][0] == arg);
}

/// Law: increment saturates at the maximum value and never fails: whenever
/// its argument evaluates to a value, the result is a value too.
pub proof fn lemma_increment_saturates(arg: ExprModel, fuel: nat, st: StateModel)
    requires
        fuel >= 1,
    ensures
        ({
            let (oca, sta) = eval_spec(arg, (fuel - 1) as nat, st);
            let (oc, st1) = eval_spec(
                ExprModel::FunctionCall(inc_name(), Box::new(ExprModel::ListExp(seq![arg]))),
                fuel,
                st,
            );
            oca is Value ==> oc == OutcomeModel::Value(
                if oca->Value_0 == u32::MAX {
                    u32::MAX
                } else {
                    (oca->Value_0 + 1) as u32
                },
            ) && st1 == sta
        }),
{
    assert(seq![arg].len() == 1);
    assert(seq![arg][0] == arg);
    assert(inc_name() != dec_name()) by {
        assert(inc_name()[0] != dec_name()[0]);
    }
}

/// Law: a conditional evaluates only the chosen branch. A non-zero
/// condition makes the whole conditional equal to the then branch's
/// evaluation, a zero condition to the else branch's; the other branch
/// contributes neither value nor side effects.
pub proof fn lemma_conditional_short_circuit(
    c: ExprModel,
    t: ExprModel,
    els: ExprModel,
    fuel: nat,
    st: StateModel,
)
    requires
        fuel >= 1,
    ensures
        ({
            let (occ, stc) = eval_spec(c, (fuel - 1) as nat, st);
            let r = eval_spec(
                ExprModel::If(Box::new(c), Box::new(t), Box::new(els)),
                fuel,
                st,
            );
            &&& (occ is Value && occ->Value_0 != 0 ==> r == eval_spec(t, (fuel - 1) as nat, stc))
            &&& (occ is Value && occ->Value_0 == 0 ==> r == eval_spec(els, (fuel - 1) as nat, stc))
            &&& (!(occ is Value) ==> r == (occ, stc))
        }),
{
}

/// Law: try/catch runs the catch body exactly when the try body fails. A
/// failing try body first sends the failure's diagnostic to the output
/// sink and then evaluates the catch body from that state; a succeeding try
/// body returns its value with the catch body never run and nothing
/// emitted; depth exhaustion passes through uncaught.
pub proof fn lemma_try_catch(tb: ExprModel, cb: ExprModel, fuel: nat, st: StateModel)
    requires
        fuel >= 1,
    ensures
        ({
            let (oct, stt) = eval_spec(tb, (fuel - 1) as nat, st);
            let r = eval_spec(ExprModel::TryCatch(Box::new(tb), Box::new(cb)), fuel, st);
            &&& (oct is Value ==> r == (oct, stt))
            &&& (oct is Failure ==> r == eval_spec(
                cb,
                (fuel - 1) as nat,
                StateModel { out: stt.out.push(try_diag_message(oct->Failure_0)), ..stt },
            ))
            &&& (oct is Exhausted ==> r == (oct, stt))
        }),
{
}

} // verus!
