use vstd::prelude::*;
use vstd::string::StrSliceExecFns;

use crate::ast::{clone_vars, expr_model, exprs_model, lemma_exprs_model, vars_model, ExprModel,
    Expression, Var};
use crate::errors::EvalError;
use crate::semantics::{
    bind_params, eval_args_spec, eval_list_spec, eval_spec, lemma_out_model_push, out_model,
    outcome_of, ArgsOutcomeModel, FnModel, OutcomeModel, StateModel,
};
use crate::text::{char_to_string, scalar_char_or_placeholder, u32_to_string};

verus! {

/// The last-wins mapping that a journal of bindings stands for.
pub open spec fn var_map(entries: Seq<(Var, u32)>) -> Map<Seq<char>, u32>
    decreases entries.len(),
{
    if entries.len() == 0 {
        Map::empty()
    } else {
        var_map(entries.drop_last()).insert(entries.last().0@, entries.last().1)
    }
}

/// An entry whose key no later entry repeats gives the mapping's value.
proof fn lemma_var_map_found(entries: Seq<(Var, u32)>, i: int)
    requires
        0 <= i < entries.len(),
        forall|j: int| i < j < entries.len() ==> entries[j].0@ != entries[i].0@,
    ensures
        var_map(entries).contains_key(entries[i].0@),
        var_map(entries)[entries[i].0@] == entries[i].1,
    decreases entries.len(),
{
    if i < entries.len() - 1 {
        lemma_var_map_found(entries.drop_last(), i);
        assert(entries.drop_last()[i] == entries[i]);
    }
}

/// A key that no entry carries is not in the mapping.
proof fn lemma_var_map_absent(entries: Seq<(Var, u32)>, k: Seq<char>)
    requires
        forall|j: int| 0 <= j < entries.len() ==> entries[j].0@ != k,
    ensures
        !var_map(entries).contains_key(k),
    decreases entries.len(),
{
    if entries.len() > 0 {
        lemma_var_map_absent(entries.drop_last(), k);
    }
}

/// The variable environment of one scope: a mapping from identifiers to
/// values. Exactly one environment is live at a time; a call builds a fresh
/// one and the caller's comes back untouched.
pub struct VarTable {
    variables: Vec<(Var, u32)>,
}

impl View for VarTable {
    type V = Map<Seq<char>, u32>;

    closed spec fn view(&self) -> Map<Seq<char>, u32> {
        var_map(self.variables@)
    }
}

impl VarTable {
    /// An empty environment.
    pub fn new() -> (r: Self)
        ensures
            r@ == Map::<Seq<char>, u32>::empty(),
    {
        VarTable { variables: Vec::new() }
    }

    /// The value bound to `name`, if any.
    pub fn get(&self, name: &Var) -> (r: Option<u32>)
        ensures
            match r {
                Some(v) => self@.contains_key(name@) && self@[name@] == v,
                None => !self@.contains_key(name@),
            },
    {
        let n = self.variables.len();
        let mut i: usize = n;
        while i > 0
            invariant
                i <= n,
                n == self.variables@.len(),
                forall|j: int| i <= j < n ==> self.variables@[j].0@ != name@,
            decreases i,
        {
            i = i - 1;
            if self.variables[i].0.0 == name.0 {
                proof {
                    lemma_var_map_found(self.variables@, i as int);
                }
                return Some(self.variables[i].1);
            }
        }
        proof {
            lemma_var_map_absent(self.variables@, name@);
        }
        None
    }

    /// Binds `name` to `val`, overriding any earlier binding.
    pub fn set(&mut self, name: Var, val: u32)
        ensures
            final(self)@ == old(self)@.insert(name@, val),
    {
        self.variables.push((name, val));
        proof {
            assert(self.variables@.drop_last() =~= old(self).variables@);
        }
    }

    /// Binds `name` to `val` only when `name` is not bound yet: the first
    /// binding of a variable wins, a re-binding is a no-op.
    pub fn define_if_absent(&mut self, name: &Var, val: u32)
        ensures
            final(self)@ == if old(self)@.contains_key(name@) {
                old(self)@
            } else {
                old(self)@.insert(name@, val)
            },
    {
        match self.get(name) {
            Some(_) => {},
            None => {
                self.set(name.clone(), val);
            },
        }
    }
}

/// A stored function: its parameter names in order, and its body.
pub struct Function {
    args: Vec<Var>,
    body: Expression,
}

impl View for Function {
    type V = FnModel;

    closed spec fn view(&self) -> FnModel {
        FnModel { params: vars_model(self.args@), body: expr_model(self.body) }
    }
}

impl Clone for Function {
    /// A deep copy whose model equals the original's.
    fn clone(&self) -> (r: Self)
        ensures
            r@ == self@,
    {
        Function { args: clone_vars(&self.args), body: self.body.clone() }
    }
}

/// The last-wins mapping that a journal of function definitions stands for.
pub open spec fn fn_map(entries: Seq<(Var, Function)>) -> Map<Seq<char>, FnModel>
    decreases entries.len(),
{
    if entries.len() == 0 {
        Map::empty()
    } else {
        fn_map(entries.drop_last()).insert(entries.last().0@, entries.last().1@)
    }
}

/// An entry whose key no later entry repeats gives the mapping's value.
proof fn lemma_fn_map_found(entries: Seq<(Var, Function)>, i: int)
    requires
        0 <= i < entries.len(),
        forall|j: int| i < j < entries.len() ==> entries[j].0@ != entries[i].0@,
    ensures
        fn_map(entries).contains_key(entries[i].0@),
        fn_map(entries)[entries[i].0@] == entries[i].1@,
    decreases entries.len(),
{
    if i < entries.len() - 1 {
        lemma_fn_map_found(entries.drop_last(), i);
        assert(entries.drop_last()[i] == entries[i]);
    }
}

/// A key that no entry carries is not in the mapping.
proof fn lemma_fn_map_absent(entries: Seq<(Var, Function)>, k: Seq<char>)
    requires
        forall|j: int| 0 <= j < entries.len() ==> entries[j].0@ != k,
    ensures
        !fn_map(entries).contains_key(k),
    decreases entries.len(),
{
    if entries.len() > 0 {
        lemma_fn_map_absent(entries.drop_last(), k);
    }
}

/// The global function table: a mapping from identifiers to stored
/// functions. It persists across top-level statements; a re-definition
/// overwrites the earlier entry.
pub struct FunctionTable {
    functions: Vec<(Var, Function)>,
}

impl View for FunctionTable {
    type V = Map<Seq<char>, FnModel>;

    closed spec fn view(&self) -> Map<Seq<char>, FnModel> {
        fn_map(self.functions@)
    }
}

impl FunctionTable {
    /// An empty table.
    pub fn new() -> (r: Self)
        ensures
            r@ == Map::<Seq<char>, FnModel>::empty(),
    {
        FunctionTable { functions: Vec::new() }
    }

    /// A copy of the function stored under `name`, if any.
    fn get_cloned(&self, name: &Var) -> (r: Option<Function>)
        ensures
            match r {
                Some(f) => self@.contains_key(name@) && f@ == self@[name@],
                None => !self@.contains_key(name@),
            },
    {
        let n = self.functions.len();
        let mut i: usize = n;
        while i > 0
            invariant
                i <= n,
                n == self.functions@.len(),
                forall|j: int| i <= j < n ==> self.functions@[j].0@ != name@,
            decreases i,
        {
            i = i - 1;
            if self.functions[i].0.0 == name.0 {
                proof {
                    lemma_fn_map_found(self.functions@, i as int);
                }
                return Some(self.functions[i].1.clone());
            }
        }
        proof {
            lemma_fn_map_absent(self.functions@, name@);
        }
        None
    }

    /// Stores `f` under `name`, overriding any earlier definition.
    fn set(&mut self, name: Var, f: Function)
        ensures
            final(self)@ == old(self)@.insert(name@, f@),
    {
        self.functions.push((name, f));
        proof {
            assert(self.functions@.drop_last() =~= old(self).functions@);
        }
    }
}

/// Whether the identifier is the one-character name `op`.
fn var_is(v: &Var, op: char) -> (r: bool)
    ensures
        r == (v@ == seq![op]),
{
    let s = v.0.as_str();
    let n = s.unicode_len();
    if n != 1 {
        proof {
            assert(seq![op].len() == 1);
        }
        false
    } else {
        let c = s.get_char(0);
        if c == op {
            proof {
                assert(v@ =~= seq![op]);
            }
            true
        } else {
            proof {
                assert(v@ != seq![op]) by {
                    assert(seq![op][0] == op);
                }
            }
            false
        }
    }
}

/// Builds the fresh environment of a call: each parameter bound to its
/// argument's value, in order.
fn bind_args(params: &Vec<Var>, vals: &Vec<u32>) -> (r: VarTable)
    requires
        params@.len() == vals@.len(),
    ensures
        r@ == bind_params(vars_model(params@), vals@),
{
    let mut t = VarTable::new();
    let mut i: usize = 0;
    proof {
        assert(vars_model(params@).take(0) =~= Seq::<Seq<char>>::empty());
        assert(vals@.take(0) =~= Seq::<u32>::empty());
    }
    while i < params.len()
        invariant
            i <= params@.len(),
            params@.len() == vals@.len(),
            t@ == bind_params(vars_model(params@).take(i as int), vals@.take(i as int)),
        decreases params@.len() - i,
    {
        t.set(params[i].clone(), vals[i]);
        i = i + 1;
        proof {
            let ps = vars_model(params@);
            assert(ps.take(i as int).drop_last() =~= ps.take(i as int - 1));
            assert(vals@.take(i as int).drop_last() =~= vals@.take(i as int - 1));
            assert(ps.take(i as int).last() == params@[i as int - 1]@);
            assert(vals@.take(i as int).last() == vals@[i as int - 1]);
        }
    }
    proof {
        assert(vars_model(params@).take(params@.len() as int) =~= vars_model(params@));
        assert(vals@.take(vals@.len() as int) =~= vals@);
    }
    t
}

/// Evaluates a statement group in order against the same state; the value is
/// the last statement's, or 0 when the group is empty.
#[verifier::loop_isolation(false)]
fn eval_list(
    items: &Vec<Expression>,
    funcs: &mut FunctionTable,
    vars: &mut VarTable,
    out: &mut Vec<String>,
    fuel: u64,
) -> (r: Result<u32, EvalError>)
    ensures
        ({
            let (oc, post) = eval_list_spec(
                exprs_model(items@),
                fuel as nat,
                0,
                StateModel { funcs: old(funcs)@, vars: old(vars)@, out: out_model(old(out)@) },
            );
            outcome_of(r) == oc && final(funcs)@ == post.funcs && final(vars)@ == post.vars
                && out_model(final(out)@) == post.out
        }),
    decreases fuel, items@.len() + 10,
{
    let ghost st0 = StateModel { funcs: funcs@, vars: vars@, out: out_model(out@) };
    let ghost models = exprs_model(items@);
    proof {
        lemma_exprs_model(items@);
        assert(models.skip(0) =~= models);
    }
    let mut acc: u32 = 0;
    let mut i: usize = 0;
    while i < items.len()
        invariant
            i <= items@.len(),
            models == exprs_model(items@),
            models.len() == items@.len(),
            forall|j: int| 0 <= j < items@.len() ==> models[j] == expr_model(#[trigger] items@[j]),
            eval_list_spec(
                models.skip(i as int),
                fuel as nat,
                acc,
                StateModel { funcs: funcs@, vars: vars@, out: out_model(out@) },
            ) == eval_list_spec(models, fuel as nat, 0, st0),
        decreases items@.len() - i,
    {
        let ghost pre = StateModel { funcs: funcs@, vars: vars@, out: out_model(out@) };
        proof {
            assert(models.skip(i as int)[0] == models[i as int]);
            assert(models.skip(i as int).drop_first() =~= models.skip(i as int + 1));
        }
        acc = match eval_expression(&items[i], funcs, vars, out, fuel) {
            Ok(v) => v,
            Err(e) => {
                proof {
                    let (oc, st1) = eval_spec(models[i as int], fuel as nat, pre);
                    assert(oc == outcome_of(Err::<u32, EvalError>(e)));
                    assert(!(oc is Value));
                    assert(eval_list_spec(models.skip(i as int), fuel as nat, acc, pre) == (
                        oc,
                        st1,
                    ));
                }
                return Err(e);
            },
        };
        i = i + 1;
    }
    proof {
        assert(models.skip(items@.len() as int) =~= Seq::<ExprModel>::empty());
    }
    Ok(acc)
}

/// Evaluates an argument list in order against the caller's state,
/// collecting the values.
#[verifier::loop_isolation(false)]
fn eval_args(
    items: &Vec<Expression>,
    funcs: &mut FunctionTable,
    vars: &mut VarTable,
    out: &mut Vec<String>,
    fuel: u64,
) -> (r: Result<Vec<u32>, EvalError>)
    ensures
        ({
            let (ar, post) = eval_args_spec(
                exprs_model(items@),
                fuel as nat,
                Seq::empty(),
                StateModel { funcs: old(funcs)@, vars: old(vars)@, out: out_model(old(out)@) },
            );
            final(funcs)@ == post.funcs && final(vars)@ == post.vars && out_model(final(out)@)
                == post.out && match r {
                Ok(vals) => ar == ArgsOutcomeModel::Vals(vals@) && vals@.len() == items@.len(),
                Err(e) => ar == ArgsOutcomeModel::Stopped(outcome_of(Err::<u32, EvalError>(e))),
            }
        }),
    decreases fuel, items@.len() + 10,
{
    let ghost st0 = StateModel { funcs: funcs@, vars: vars@, out: out_model(out@) };
    let ghost models = exprs_model(items@);
    proof {
        lemma_exprs_model(items@);
        assert(models.skip(0) =~= models);
    }
    let mut vals: Vec<u32> = Vec::new();
    let mut i: usize = 0;
    while i < items.len()
        invariant
            i <= items@.len(),
            vals@.len() == i,
            models == exprs_model(items@),
            models.len() == items@.len(),
            forall|j: int| 0 <= j < items@.len() ==> models[j] == expr_model(#[trigger] items@[j]),
            eval_args_spec(
                models.skip(i as int),
                fuel as nat,
                vals@,
                StateModel { funcs: funcs@, vars: vars@, out: out_model(out@) },
            ) == eval_args_spec(models, fuel as nat, Seq::empty(), st0),
        decreases items@.len() - i,
    {
        let ghost pre = StateModel { funcs: funcs@, vars: vars@, out: out_model(out@) };
        proof {
            assert(models.skip(i as int)[0] == models[i as int]);
            assert(models.skip(i as int).drop_first() =~= models.skip(i as int + 1));
        }
        let v = match eval_expression(&items[i], funcs, vars, out, fuel) {
            Ok(v) => v,
            Err(e) => {
                proof {
                    let (oc, st1) = eval_spec(models[i as int], fuel as nat, pre);
                    assert(oc == outcome_of(Err::<u32, EvalError>(e)));
                    assert(!(oc is Value));
                    assert(eval_args_spec(models.skip(i as int), fuel as nat, vals@, pre) == (
                        ArgsOutcomeModel::Stopped(oc),
                        st1,
                    ));
                }
                return Err(e);
            },
        };
        vals.push(v);
        i = i + 1;
    }
    proof {
        assert(models.skip(items@.len() as int) =~= Seq::<ExprModel>::empty());
    }
    Ok(vals)
}

/// Evaluates a call node: the built-in operators by name, a variable read
/// for an empty argument list, and a function invocation otherwise.
#[verifier::rlimit(100)]
fn eval_call(
    name: &Var,
    args: &Expression,
    funcs: &mut FunctionTable,
    vars: &mut VarTable,
    out: &mut Vec<String>,
    fuel: u64,
) -> (r: Result<u32, EvalError>)
    requires
        fuel >= 1,
    ensures
        ({
            let (oc, post) = eval_spec(
                ExprModel::FunctionCall(name@, Box::new(args@)),
                fuel as nat,
                StateModel { funcs: old(funcs)@, vars: old(vars)@, out: out_model(old(out)@) },
            );
            outcome_of(r) == oc && final(funcs)@ =~= post.funcs && final(vars)@ =~= post.vars
                && out_model(final(out)@) =~= post.out
        }),
    decreases fuel, 5int,
{
    let f = fuel - 1;
    let star = var_is(name, '*');
    let amp = var_is(name, '&');
    match args {
        Expression::ListExp(items) => {
            proof {
                assert(args@ == ExprModel::ListExp(exprs_model(items@)));
                lemma_exprs_model(items@);
            }
            if star || amp {
                if items.len() != 1 {
                    return Err(EvalError::OperatorArity { op: name.clone(), got: items.len() });
                }
                let v = match eval_expression(&items[0], funcs, vars, out, f) {
                    Ok(v) => v,
                    Err(e) => {
                        return Err(e);
                    },
                };
                if star {
                    if v == 0 {
                        return Err(EvalError::DecrementUnderflow);
                    }
                    Ok(v - 1)
                } else {
                    if v == u32::MAX {
                        Ok(v)
                    } else {
                        Ok(v + 1)
                    }
                }
            } else if items.len() == 0 {
                match vars.get(name) {
                    Some(v) => Ok(v),
                    None => Err(EvalError::UndefinedVariable(name.clone())),
                }
            } else {
                let func = match funcs.get_cloned(name) {
                    Some(func) => func,
                    None => {
                        return Err(EvalError::UndefinedFunction(name.clone()));
                    },
                };
                if items.len() != func.args.len() {
                    return Err(
                        EvalError::FunctionArity {
                            name: name.clone(),
                            expected: func.args.len(),
                            got: items.len(),
                        },
                    );
                }
                let vals = match eval_args(items, funcs, vars, out, f) {
                    Ok(vals) => vals,
                    Err(e) => {
                        return Err(e);
                    },
                };
                let mut local = bind_args(&func.args, &vals);
                eval_expression(&func.body, funcs, &mut local, out, f)
            }
        },
        _ => {
            match funcs.get_cloned(name) {
                None => Err(EvalError::UndefinedFunction(name.clone())),
                Some(_) => Err(EvalError::InvalidCallArguments(name.clone())),
            }
        },
    }
}

/// Evaluates one expression against the shared function table, the current
/// scope's variables, and the output buffer that stands for the output sink.
///
/// `fuel` bounds the depth of nested evaluations (static nesting plus
/// dynamic call nesting); when it runs out the result is the depth-limit
/// failure, which stands for the host's stack running out and which
/// try/catch does not intercept. The result and the three buffers after the
/// call are exactly what `eval_spec` says.
#[verifier::rlimit(100)]
#[verifier::spinoff_prover]
pub fn eval_expression(
    exp: &Expression,
    funcs: &mut FunctionTable,
    vars: &mut VarTable,
    out: &mut Vec<String>,
    fuel: u64,
) -> (r: Result<u32, EvalError>)
    ensures
        ({
            let (oc, post) = eval_spec(
                exp@,
                fuel as nat,
                StateModel { funcs: old(funcs)@, vars: old(vars)@, out: out_model(old(out)@) },
            );
            outcome_of(r) == oc && final(funcs)@ =~= post.funcs && final(vars)@ =~= post.vars
                && out_model(final(out)@) =~= post.out
        }),
    decreases fuel, 9int,
{
    if fuel == 0 {
        return Err(EvalError::DepthLimit);
    }
    let f = fuel - 1;
    match exp {
        Expression::Val(n) => Ok(*n),
        Expression::If(c, t, els) => {
            let cv = match eval_expression(&**c, funcs, vars, out, f) {
                Ok(v) => v,
                Err(e) => {
                    return Err(e);
                },
            };
            if cv != 0 {
                eval_expression(&**t, funcs, vars, out, f)
            } else {
                eval_expression(&**els, funcs, vars, out, f)
            }
        },
        Expression::FunctionDef(name, params, body) => {
            if params.len() == 0 {
                let v = match eval_expression(&**body, funcs, vars, out, f) {
                    Ok(v) => v,
                    Err(e) => {
                        return Err(e);
                    },
                };
                vars.define_if_absent(name, v);
                Ok(v)
            } else {
                let func = Function { args: clone_vars(params), body: (&**body).clone() };
                funcs.set(name.clone(), func);
                Ok(0)
            }
        },
        Expression::FunctionCall(name, args) => {
            proof {
                assert(exp@ == ExprModel::FunctionCall(name@, Box::new((&**args)@)));
            }
            eval_call(name, &**args, funcs, vars, out, fuel)
        },
        Expression::ListExp(items) => {
            proof {
                assert(exp@ == ExprModel::ListExp(exprs_model(items@)));
            }
            eval_list(items, funcs, vars, out, f)
        },
        Expression::TryCatch(tb, cb) => {
            match eval_expression(&**tb, funcs, vars, out, f) {
                Ok(v) => Ok(v),
                Err(e) => {
                    if let EvalError::DepthLimit = e {
                        return Err(e);
                    }
                    let d = crate::errors::try_diag(&e);
                    let ghost prev_out = out@;
                    let ghost dv = d;
                    out.push(d);
                    proof {
                        lemma_out_model_push(prev_out, dv);
                    }
                    eval_expression(&**cb, funcs, vars, out, f)
                },
            }
        },
        Expression::PrintChar(inner) => {
            let v = match eval_expression(&**inner, funcs, vars, out, f) {
                Ok(v) => v,
                Err(e) => {
                    return Err(e);
                },
            };
            let c = scalar_char_or_placeholder(v);
            let s = char_to_string(c);
            let ghost prev_out = out@;
            let ghost sv = s;
            out.push(s);
            proof {
                lemma_out_model_push(prev_out, sv);
            }
            Ok(v)
        },
        Expression::PrintNum(inner) => {
            let v = match eval_expression(&**inner, funcs, vars, out, f) {
                Ok(v) => v,
                Err(e) => {
                    return Err(e);
                },
            };
            let mut s = u32_to_string(v);
            s.append("\n");
            proof {
                reveal_strlit("\n");
                assert(s@ =~= crate::text::dec_str(v as nat).push('\n'));
            }
            let ghost prev_out = out@;
            let ghost sv = s;
            out.push(s);
            proof {
                lemma_out_model_push(prev_out, sv);
            }
            Ok(v)
        },
    }
}

} // verus!
